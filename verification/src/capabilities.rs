//! Capabilities an agent advertises, inferred from its name and purpose by
//! keyword.

use vstd::prelude::*;

use crate::string_set::string_views;
use crate::strings::{chars_contain, chars_vec, concat3, contains_spec, owned};

verus! {

/// What `str::to_lowercase` returns for a text (Unicode lowercase mapping).
pub uninterp spec fn lowercase_spec(s: Seq<char>) -> Seq<char>;

/// `str::to_lowercase`.
#[verifier::external_body]
pub(crate) fn lowercase(s: &str) -> (r: String)
    ensures
        r@ == lowercase_spec(s@),
{
    s.to_lowercase()
}

/// A rule: keywords, and the capabilities any of them implies.
pub type RuleView = (Seq<Seq<char>>, Seq<Seq<char>>);

/// The keyword rules, in the order their capabilities are listed.
pub open spec fn capability_rules() -> Seq<RuleView> {
    seq![
        (seq!["orchestrat"@], seq!["orchestration"@, "task_decomposition"@, "agent_coordination"@]),
        (seq!["security"@], seq!["security_analysis"@, "vulnerability_detection"@]),
        (seq!["code"@, "review"@], seq!["code_review"@, "pattern_analysis"@]),
        (seq!["database"@, "sql"@], seq!["database_optimization"@, "schema_design"@]),
        (seq!["test"@], seq!["test_generation"@, "coverage_analysis"@]),
        (seq!["doc"@], seq!["documentation_generation"@, "api_documentation"@]),
        (seq!["performance"@, "profil"@], seq!["performance_analysis"@, "optimization"@]),
        (seq!["devops"@, "deploy"@], seq!["ci_cd"@, "deployment_strategies"@]),
        (seq!["frontend"@, "ui"@, "ux"@], seq!["ui_ux_analysis"@, "accessibility"@]),
        (seq!["architect"@, "design"@], seq!["system_design"@, "scalability_patterns"@]),
        (seq!["data"@, "science"@, "ml"@], seq!["data_analysis"@, "ml_modeling"@]),
    ]
}

/// Whether a text mentions any of the keywords.
pub open spec fn mentions_any(text: Seq<char>, keywords: Seq<Seq<char>>) -> bool {
    exists|i: int| 0 <= i < keywords.len() && contains_spec(text, #[trigger] keywords[i])
}

/// Capabilities of the rules that fire on a text, rule by rule.
pub open spec fn fired_capabilities(text: Seq<char>, rules: Seq<RuleView>) -> Seq<Seq<char>>
    decreases rules.len(),
{
    if rules.len() == 0 {
        Seq::empty()
    } else {
        fired_capabilities(text, rules.drop_last()) + if mentions_any(text, rules.last().0) {
            rules.last().1
        } else {
            Seq::empty()
        }
    }
}

/// Capabilities inferred from a (lowercased) text; `general` when no rule fires.
pub open spec fn capabilities_spec(text: Seq<char>) -> Seq<Seq<char>> {
    let c = fired_capabilities(text, capability_rules());
    if c.len() == 0 {
        seq!["general"@]
    } else {
        c
    }
}

pub open spec fn str_views(v: Seq<&str>) -> Seq<Seq<char>> {
    v.map_values(|s: &str| s@)
}

pub open spec fn rule_views(rules: Seq<(Vec<&str>, Vec<&str>)>) -> Seq<RuleView> {
    rules.map_values(|r: (Vec<&str>, Vec<&str>)| (str_views(r.0@), str_views(r.1@)))
}

fn strs2(a: &'static str, b: &'static str) -> (r: Vec<&'static str>)
    ensures
        str_views(r@) == seq![a@, b@],
{
    let mut r: Vec<&'static str> = Vec::new();
    r.push(a);
    r.push(b);
    assert(str_views(r@) =~= seq![a@, b@]);
    r
}

fn strs1(a: &'static str) -> (r: Vec<&'static str>)
    ensures
        str_views(r@) == seq![a@],
{
    let mut r: Vec<&'static str> = Vec::new();
    r.push(a);
    assert(str_views(r@) =~= seq![a@]);
    r
}

fn strs3(a: &'static str, b: &'static str, c: &'static str) -> (r: Vec<&'static str>)
    ensures
        str_views(r@) == seq![a@, b@, c@],
{
    let mut r: Vec<&'static str> = Vec::new();
    r.push(a);
    r.push(b);
    r.push(c);
    assert(str_views(r@) =~= seq![a@, b@, c@]);
    r
}

/// The keyword rules as data.
fn rules() -> (r: Vec<(Vec<&'static str>, Vec<&'static str>)>)
    ensures
        rule_views(r@) == capability_rules(),
{
    let mut r: Vec<(Vec<&'static str>, Vec<&'static str>)> = Vec::new();
    r.push((strs1("orchestrat"), strs3("orchestration", "task_decomposition", "agent_coordination")));
    r.push((strs1("security"), strs2("security_analysis", "vulnerability_detection")));
    r.push((strs2("code", "review"), strs2("code_review", "pattern_analysis")));
    r.push((strs2("database", "sql"), strs2("database_optimization", "schema_design")));
    r.push((strs1("test"), strs2("test_generation", "coverage_analysis")));
    r.push((strs1("doc"), strs2("documentation_generation", "api_documentation")));
    r.push((strs2("performance", "profil"), strs2("performance_analysis", "optimization")));
    r.push((strs2("devops", "deploy"), strs2("ci_cd", "deployment_strategies")));
    r.push((strs3("frontend", "ui", "ux"), strs2("ui_ux_analysis", "accessibility")));
    r.push((strs2("architect", "design"), strs2("system_design", "scalability_patterns")));
    r.push((strs3("data", "science", "ml"), strs2("data_analysis", "ml_modeling")));
    assert(rule_views(r@) =~= capability_rules());
    r
}

/// Capabilities inferred from a lowercased name-and-purpose text.
pub fn capabilities_for(text: &str) -> (r: Vec<String>)
    ensures
        string_views(r@) == capabilities_spec(text@),
{
    let tv = chars_vec(text);
    let table = rules();
    let mut caps: Vec<String> = Vec::new();
    let mut i: usize = 0;
    while i < table.len()
        invariant
            i <= table.len(),
            tv@ == text@,
            rule_views(table@) == capability_rules(),
            string_views(caps@) == fired_capabilities(text@, capability_rules().take(i as int)),
        decreases table.len() - i,
    {
        let keywords = &table[i].0;
        let ghost rv = capability_rules()[i as int];
        assert(rule_views(table@)[i as int] == rv);
        let mut fires = false;
        let mut k: usize = 0;
        while k < keywords.len() && !fires
            invariant
                k <= keywords.len(),
                tv@ == text@,
                str_views(keywords@) == rv.0,
                fires ==> mentions_any(text@, rv.0),
                !fires ==> forall|j: int| 0 <= j < k ==> !contains_spec(text@, #[trigger] rv.0[j]),
            decreases (keywords.len() - k + if fires {
                0int
            } else {
                1int
            }),
        {
            if chars_contain(tv.as_slice(), keywords[k]) {
                assert(rv.0[k as int] == keywords@[k as int]@);
                fires = true;
            } else {
                assert(rv.0[k as int] == keywords@[k as int]@);
                k = k + 1;
            }
        }
        let ghost before = string_views(caps@);
        if fires {
            let names = &table[i].1;
            let mut j: usize = 0;
            while j < names.len()
                invariant
                    j <= names.len(),
                    str_views(names@) == rv.1,
                    string_views(caps@) == before + rv.1.take(j as int),
                decreases names.len() - j,
            {
                let ghost mid = string_views(caps@);
                caps.push(owned(names[j]));
                assert(string_views(caps@) =~= mid.push(names@[j as int]@));
                assert(rv.1.take(j + 1) =~= rv.1.take(j as int).push(rv.1[j as int]));
                assert(before + rv.1.take(j + 1) =~= (before + rv.1.take(j as int)).push(rv.1[j as int]));
                j = j + 1;
            }
            assert(rv.1.take(names.len() as int) =~= rv.1);
        } else {
            assert(!mentions_any(text@, rv.0));
            assert(before + Seq::<Seq<char>>::empty() =~= before);
        }
        proof {
            let rs = capability_rules();
            assert(rs.take(i + 1).drop_last() =~= rs.take(i as int));
            assert(rs.take(i + 1).last() == rv);
        }
        i = i + 1;
    }
    assert(capability_rules().take(table.len() as int) =~= capability_rules());
    if caps.len() == 0 {
        caps.push(owned("general"));
        assert(string_views(caps@) =~= seq!["general"@]);
    }
    caps
}

/// Infer capabilities from an agent's name and purpose: keywords are
/// matched against both, lowercased and joined by a space.
pub fn infer_capabilities_from_purpose(name: &str, purpose: &str) -> (r: Vec<String>)
    ensures
        string_views(r@) == capabilities_spec(lowercase_spec(name@) + " "@ + lowercase_spec(purpose@)),
{
    let n = lowercase(name);
    let p = lowercase(purpose);
    let combined = concat3(n.as_str(), " ", p.as_str());
    capabilities_for(combined.as_str())
}

} // verus!
