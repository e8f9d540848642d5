//! The classification seam: what a buffer contains, as findings.
//!
//! The regex tier here is cheap enough for the per-call budget; a learned
//! classifier plugs into the same trait without the tracker changing. An
//! inferencer reports what it found; it never decides what to do about it.

use vstd::prelude::*;

use crate::data_classification::{ClassifiedDatum, DatumType};
use crate::strings::{concat2, contains_spec, occurs_at, owned};

verus! {

/// Produces classifications for a span of text.
pub trait ClassificationInferencer {
    /// Stable identifier for this detector, recorded alongside its findings.
    fn name(&self) -> &'static str;

    /// Detector version, so evidence can be reproduced against its detector.
    fn version(&self) -> &'static str;

    /// Everything the detector recognized. An empty result means "found
    /// nothing", never "this text is safe".
    fn infer(&self, text: &str) -> Vec<ClassifiedDatum>;
}

#[verifier::external_type_specification]
#[verifier::external_body]
pub struct ExRegex(regex::Regex);

/// Whether `regex::Regex::new` accepts a pattern.
pub uninterp spec fn regex_compiles(pattern: Seq<char>) -> bool;

/// What `regex::Regex::as_str` returns: the pattern an expression was
/// compiled from.
pub uninterp spec fn regex_source(re: regex::Regex) -> Seq<char>;

/// `regex::Regex::new`: the compiled expression, whose source (`as_str`) is
/// the pattern given, or the error's text when the pattern does not compile.
#[verifier::external_body]
fn compile_pattern(pattern: &str) -> (r: Result<regex::Regex, String>)
    ensures
        (r is Ok) == regex_compiles(pattern@),
        r matches Ok(re) ==> regex_source(re) == pattern@,
{
    regex::Regex::new(pattern).map_err(|e| e.to_string())
}

/// One capture group of a match: its byte span and the text it matched.
pub type GroupMatch = Option<(usize, usize, String)>;

/// A capture group of a match as plain values.
pub type GroupView = Option<(usize, usize, Seq<char>)>;

pub open spec fn group_view(g: GroupMatch) -> GroupView {
    match g {
        Some((a, b, t)) => Some((a, b, t@)),
        None => None,
    }
}

pub open spec fn row_view(row: Seq<GroupMatch>) -> Seq<GroupView> {
    row.map_values(|g: GroupMatch| group_view(g))
}

pub open spec fn rows_view(rows: Seq<Vec<GroupMatch>>) -> Seq<Seq<GroupView>> {
    rows.map_values(|r: Vec<GroupMatch>| row_view(r@))
}

/// What `regex::Regex::captures_iter` reports for an expression, a text and
/// named groups: for every non-overlapping match, left to right, the span
/// and text of each group (in the order given), or `None` for a group that
/// did not take part.
pub uninterp spec fn regex_captures(re: regex::Regex, text: Seq<char>, groups: Seq<Seq<char>>) -> Seq<Seq<GroupView>>;

/// The texts of group names.
pub open spec fn name_views(names: Seq<&'static str>) -> Seq<Seq<char>> {
    names.map_values(|g: &'static str| g@)
}

/// `regex::Regex::captures_iter`: for every non-overlapping match, left to
/// right, the span and text of each named group in `groups` (in that order),
/// or `None` for a group that did not take part.
#[verifier::external_body]
fn capture_groups(re: &regex::Regex, text: &str, groups: &Vec<&'static str>) -> (r: Vec<Vec<GroupMatch>>)
    ensures
        rows_view(r@) == regex_captures(*re, text@, name_views(groups@)),
        forall|i: int| 0 <= i < r@.len() ==> (#[trigger] r@[i])@.len() == groups@.len(),
        forall|i: int, j: int|
            0 <= i < r@.len() && 0 <= j < groups@.len() && (#[trigger] r@[i]@[j]) is Some ==> (r@[i]@[j]->0).0
                <= (r@[i]@[j]->0).1,
{
    re.captures_iter(text).map(|c| {
        groups.iter().map(|g| c.name(g).map(|m| (m.start(), m.end(), m.as_str().to_string()))).collect()
    }).collect()
}

/// The built-in patterns: group name, datum type, expression.
pub open spec fn builtin_patterns() -> Seq<(&'static str, DatumType, &'static str)> {
    seq![
        ("email", DatumType::Email, "[a-zA-Z0-9._%+-]+@[a-zA-Z0-9.-]+\\.[a-zA-Z]{2,}"),
        ("ssn", DatumType::SocialSecurityNumber, "\\b\\d{3}-\\d{2}-\\d{4}\\b"),
        ("card", DatumType::CreditCardNumber, "\\b(?:\\d{4}[- ]?){3}\\d{4}\\b"),
        ("phone", DatumType::PhoneNumber, "\\b\\d{3}[-.]\\d{3}[-.]\\d{4}\\b"),
        ("apikey", DatumType::ApiKey, "\\b(?:sk-|pk-|api[_-]?key|token[_-]?)[a-zA-Z0-9]{16,}\\b"),
        ("password", DatumType::Password, "(?i:\\b(?:password|passwd|pwd)\\s*[=:]\\s*\\S+)"),
        (
            "internalip",
            DatumType::InternalIpAddress,
            "\\b(?:10\\.\\d{1,3}\\.\\d{1,3}\\.\\d{1,3}|192\\.168\\.\\d{1,3}\\.\\d{1,3}|172\\.(?:1[6-9]|2\\d|3[01])\\.\\d{1,3}\\.\\d{1,3})\\b",
        ),
    ]
}

/// The internal-address pattern covers all three private IPv4 ranges:
/// `10.0.0.0/8`, `192.168.0.0/16` and `172.16.0.0/12` (second octet 16
/// to 31), each as a dotted quad of up to three digits per octet.
pub proof fn lemma_internal_addresses_cover_private_ranges()
    ensures
        builtin_patterns()[6].1 == DatumType::InternalIpAddress,
        contains_spec(builtin_patterns()[6].2@, "10\\.\\d{1,3}\\.\\d{1,3}\\.\\d{1,3}"@),
        contains_spec(builtin_patterns()[6].2@, "192\\.168\\.\\d{1,3}\\.\\d{1,3}"@),
        contains_spec(builtin_patterns()[6].2@, "172\\.(?:1[6-9]|2\\d|3[01])\\.\\d{1,3}\\.\\d{1,3}"@),
{
    let p = builtin_patterns()[6].2@;
    reveal_strlit(
        "\\b(?:10\\.\\d{1,3}\\.\\d{1,3}\\.\\d{1,3}|192\\.168\\.\\d{1,3}\\.\\d{1,3}|172\\.(?:1[6-9]|2\\d|3[01])\\.\\d{1,3}\\.\\d{1,3})\\b",
    );
    reveal_strlit("10\\.\\d{1,3}\\.\\d{1,3}\\.\\d{1,3}");
    reveal_strlit("192\\.168\\.\\d{1,3}\\.\\d{1,3}");
    reveal_strlit("172\\.(?:1[6-9]|2\\d|3[01])\\.\\d{1,3}\\.\\d{1,3}");
    assert(p.subrange(5, 34) =~= "10\\.\\d{1,3}\\.\\d{1,3}\\.\\d{1,3}"@);
    assert(occurs_at(p, "10\\.\\d{1,3}\\.\\d{1,3}\\.\\d{1,3}"@, 5));
    assert(p.subrange(35, 61) =~= "192\\.168\\.\\d{1,3}\\.\\d{1,3}"@);
    assert(occurs_at(p, "192\\.168\\.\\d{1,3}\\.\\d{1,3}"@, 35));
    assert(p.subrange(62, 105) =~= "172\\.(?:1[6-9]|2\\d|3[01])\\.\\d{1,3}\\.\\d{1,3}"@);
    assert(occurs_at(p, "172\\.(?:1[6-9]|2\\d|3[01])\\.\\d{1,3}\\.\\d{1,3}"@, 62));
}

/// The source patterns, each with the datum type it recognizes and the
/// capture group that carries it. Order is significant: alternation is
/// leftmost-first, so a national identity number precedes the phone pattern.
pub fn patterns() -> (p: Vec<(&'static str, DatumType, &'static str)>)
    ensures
        p@ == builtin_patterns(),
{
    let mut p: Vec<(&'static str, DatumType, &'static str)> = Vec::new();
    p.push(("email", DatumType::Email, "[a-zA-Z0-9._%+-]+@[a-zA-Z0-9.-]+\\.[a-zA-Z]{2,}"));
    p.push(("ssn", DatumType::SocialSecurityNumber, "\\b\\d{3}-\\d{2}-\\d{4}\\b"));
    p.push(("card", DatumType::CreditCardNumber, "\\b(?:\\d{4}[- ]?){3}\\d{4}\\b"));
    p.push(("phone", DatumType::PhoneNumber, "\\b\\d{3}[-.]\\d{3}[-.]\\d{4}\\b"));
    p.push(
        (
            "apikey",
            DatumType::ApiKey,
            "\\b(?:sk-|pk-|api[_-]?key|token[_-]?)[a-zA-Z0-9]{16,}\\b",
        ),
    );
    p.push(("password", DatumType::Password, "(?i:\\b(?:password|passwd|pwd)\\s*[=:]\\s*\\S+)"));
    p.push(
        (
            "internalip",
            DatumType::InternalIpAddress,
            "\\b(?:10\\.\\d{1,3}\\.\\d{1,3}\\.\\d{1,3}|192\\.168\\.\\d{1,3}\\.\\d{1,3}|172\\.(?:1[6-9]|2\\d|3[01])\\.\\d{1,3}\\.\\d{1,3})\\b",
        ),
    );
    assert(p@ =~= builtin_patterns());
    p
}

/// `(?P<group>source)` for every pattern, joined by `|`.
pub open spec fn alternation_spec(p: Seq<(&'static str, DatumType, &'static str)>) -> Seq<char>
    decreases p.len(),
{
    if p.len() == 0 {
        Seq::empty()
    } else {
        let prev = alternation_spec(p.drop_last());
        let item = "(?P<"@ + p.last().0@ + ">"@ + p.last().2@ + ")"@;
        if p.len() == 1 {
            item
        } else {
            prev + "|"@ + item
        }
    }
}

/// Pattern tier over the [`DatumType`] vocabulary, compiled into one
/// expression so the per-call path scans the text once.
pub struct RegexInferencer {
    combined: regex::Regex,
    /// Capture-group name to datum type, in the order the groups appear.
    groups: Vec<(&'static str, DatumType)>,
}

/// The datum type of the first group that took part in a match.
pub open spec fn first_group(row: Seq<GroupView>, types: Seq<DatumType>) -> Option<(DatumType, GroupView)>
    decreases row.len(),
{
    if row.len() == 0 || types.len() == 0 {
        None
    } else if row[0] is Some {
        Some((types[0], row[0]))
    } else {
        first_group(row.drop_first(), types.drop_first())
    }
}

/// What a finding says, as plain values.
pub open spec fn datum_view(d: ClassifiedDatum) -> (DatumType, (usize, usize), Seq<char>) {
    (d.datum_type, d.position, d.matched_text@)
}

/// One finding per match: the first group that took part names the type.
pub open spec fn findings_spec(rows: Seq<Seq<GroupView>>, types: Seq<DatumType>) -> Seq<
    (DatumType, (usize, usize), Seq<char>),
>
    decreases rows.len(),
{
    if rows.len() == 0 {
        Seq::empty()
    } else {
        let prev = findings_spec(rows.drop_last(), types);
        match first_group(rows.last(), types) {
            Some((t, Some(m))) => prev.push((t, (m.0, m.1), m.2)),
            _ => prev,
        }
    }
}

/// Turns capture rows into findings: for every match, the first group that
/// took part gives the datum type, span and matched text.
pub fn findings_from_captures(rows: &Vec<Vec<GroupMatch>>, types: &Vec<DatumType>) -> (found: Vec<ClassifiedDatum>)
    ensures
        found@.map_values(|d: ClassifiedDatum| datum_view(d)) == findings_spec(rows_view(rows@), types@),
{
    let ghost all_rows = rows_view(rows@);
    let mut found: Vec<ClassifiedDatum> = Vec::new();
    let mut i: usize = 0;
    while i < rows.len()
        invariant
            i <= rows.len(),
            all_rows == rows_view(rows@),
            found@.map_values(|d: ClassifiedDatum| datum_view(d)) == findings_spec(all_rows.take(i as int), types@),
        decreases rows.len() - i,
    {
        let row = &rows[i];
        assert(all_rows.take(i + 1).drop_last() =~= all_rows.take(i as int));
        let ghost rv = row_view(row@);
        assert(all_rows.take(i + 1).last() == rv);
        let mut j: usize = 0;
        let mut picked: Option<ClassifiedDatum> = None;
        assert(rv.skip(0) =~= rv);
        assert(types@.skip(0) =~= types@);
        while j < row.len() && j < types.len() && picked.is_none()
            invariant
                j <= row.len(),
                j <= types.len(),
                rv == row_view(row@),
                picked.is_none() ==> first_group(rv, types@) == first_group(rv.skip(j as int), types@.skip(j as int)),
                picked matches Some(d) ==> first_group(rv, types@) matches Some((t, Some(m))) && datum_view(d) == (t, (m.0, m.1), m.2),
            decreases row.len() - j,
        {
            match &row[j] {
                Some(m) => {
                    assert(rv.skip(j as int)[0] == group_view(row@[j as int]));
                    assert(types@.skip(j as int)[0] == types@[j as int]);
                    picked = Some(ClassifiedDatum {
                        datum_type: types[j],
                        position: (m.0, m.1),
                        matched_text: m.2.clone(),
                    });
                },
                None => {
                    assert(rv.skip(j as int)[0] == group_view(row@[j as int]));
                    assert(rv.skip(j as int).drop_first() =~= rv.skip(j + 1));
                    assert(types@.skip(j as int).drop_first() =~= types@.skip(j + 1));
                },
            }
            j = j + 1;
        }
        let ghost before = found@;
        match picked {
            Some(d) => {
                found.push(d);
                assert(found@.map_values(|d: ClassifiedDatum| datum_view(d)) =~= before.map_values(
                    |d: ClassifiedDatum| datum_view(d),
                ).push(datum_view(d)));
            },
            None => {
                assert(rv.skip(j as int).len() == 0 || types@.skip(j as int).len() == 0);
                assert(first_group(rv.skip(j as int), types@.skip(j as int)) is None);
            },
        }
        i = i + 1;
    }
    assert(all_rows.take(rows.len() as int) =~= all_rows);
    found
}

/// The group names of the built-in patterns, in order.
pub open spec fn builtin_group_names() -> Seq<Seq<char>> {
    seq!["email"@, "ssn"@, "card"@, "phone"@, "apikey"@, "password"@, "internalip"@]
}

/// The datum types of the built-in patterns, in order.
pub open spec fn builtin_group_types() -> Seq<DatumType> {
    seq![
        DatumType::Email,
        DatumType::SocialSecurityNumber,
        DatumType::CreditCardNumber,
        DatumType::PhoneNumber,
        DatumType::ApiKey,
        DatumType::Password,
        DatumType::InternalIpAddress,
    ]
}

impl RegexInferencer {
    /// Datum types of the capture groups, in group order.
    pub closed spec fn group_types(&self) -> Seq<DatumType> {
        self.groups@.map_values(|g: (&'static str, DatumType)| g.1)
    }

    /// Names of the capture groups, in group order.
    pub closed spec fn group_names(&self) -> Seq<Seq<char>> {
        self.groups@.map_values(|g: (&'static str, DatumType)| g.0@)
    }

    /// The compiled expression.
    pub closed spec fn regex(&self) -> regex::Regex {
        self.combined
    }

    /// Compiles the built-in pattern set once, or reports why the set does
    /// not compile.
    pub fn new() -> (r: Result<RegexInferencer, String>)
        ensures
            (r is Ok) == regex_compiles(alternation_spec(builtin_patterns())),
            r matches Ok(x) ==> x.group_types() == builtin_group_types() && x.group_names() == builtin_group_names()
                && regex_source(x.regex()) == alternation_spec(builtin_patterns()),
            r matches Err(e) ==> exists|m: Seq<char>| e@ == "built-in classification patterns are invalid: "@ + m,
    {
        let p = patterns();
        let mut alternation = String::new();
        let mut groups: Vec<(&'static str, DatumType)> = Vec::new();
        let mut i: usize = 0;
        while i < p.len()
            invariant
                i <= p.len(),
                p@ == builtin_patterns(),
                groups@.len() == i,
                forall|k: int| 0 <= k < i ==> (#[trigger] groups@[k]).1 == p@[k].1 && groups@[k].0 == p@[k].0,
                alternation@ == alternation_spec(p@.take(i as int)),
            decreases p.len() - i,
        {
            let ghost prev = alternation@;
            if i > 0 {
                alternation = alternation.concat("|");
            }
            let item = concat2("(?P<", p[i].0);
            let item = item.concat(">");
            let item = item.concat(p[i].2);
            let item = item.concat(")");
            alternation = alternation.concat(item.as_str());
            groups.push((p[i].0, p[i].1));
            proof {
                let t = p@.take(i + 1);
                assert(t.drop_last() =~= p@.take(i as int));
                assert(t.last() == p@[i as int]);
                if i == 0 {
                    assert(prev == Seq::<char>::empty());
                    assert(alternation@ =~= alternation_spec(t));
                } else {
                    assert(alternation@ =~= alternation_spec(t));
                }
            }
            i = i + 1;
        }
        proof {
            assert(p@.take(7) =~= p@);
        }
        match compile_pattern(alternation.as_str()) {
            Ok(combined) => {
                let r = RegexInferencer { combined, groups };
                assert(r.group_types() =~= builtin_group_types());
                assert(r.group_names() =~= builtin_group_names());
                Ok(r)
            },
            Err(e) => Err(concat2("built-in classification patterns are invalid: ", e.as_str())),
        }
    }
}

/// Whether capture rows have one entry per group, each with an ordered span.
pub open spec fn well_shaped(rows: Seq<Seq<GroupView>>, groups: nat) -> bool {
    &&& forall|i: int| 0 <= i < rows.len() ==> (#[trigger] rows[i]).len() == groups
    &&& forall|i: int, j: int|
        0 <= i < rows.len() && 0 <= j < groups && (#[trigger] rows[i][j]) is Some ==> (rows[i][j]->0).0 <= (
        rows[i][j]->0).1
}

proof fn lemma_first_group_typed(row: Seq<GroupView>, types: Seq<DatumType>)
    requires
        forall|j: int| 0 <= j < row.len() && (#[trigger] row[j]) is Some ==> (row[j]->0).0 <= (row[j]->0).1,
    ensures
        first_group(row, types) matches Some((t, g)) ==> types.contains(t) && g is Some && (g->0).0 <= (g->0).1,
    decreases row.len(),
{
    if row.len() > 0 && types.len() > 0 && !(row[0] is Some) {
        let r2 = row.drop_first();
        let t2 = types.drop_first();
        assert forall|j: int| 0 <= j < r2.len() && (#[trigger] r2[j]) is Some implies (r2[j]->0).0 <= (r2[j]->0).1 by {
            assert(r2[j] == row[j + 1]);
        }
        lemma_first_group_typed(r2, t2);
        if first_group(r2, t2) is Some {
            let t = (first_group(r2, t2)->0).0;
            let q = choose|q: int| 0 <= q < t2.len() && t2[q] == t;
            assert(types[q + 1] == t);
        }
    } else if row.len() > 0 && types.len() > 0 {
        assert(types[0] == types[0]);
    }
}

/// A detector reports only its own datum types: every finding of well-shaped
/// capture rows carries one of the group types, with an ordered span.
pub proof fn lemma_findings_typed(rows: Seq<Seq<GroupView>>, types: Seq<DatumType>)
    requires
        well_shaped(rows, types.len()),
    ensures
        forall|k: int|
            0 <= k < findings_spec(rows, types).len() ==> types.contains((#[trigger] findings_spec(rows, types)[k]).0)
                && (findings_spec(rows, types)[k].1).0 <= (findings_spec(rows, types)[k].1).1,
    decreases rows.len(),
{
    if rows.len() > 0 {
        let prev = rows.drop_last();
        assert(well_shaped(prev, types.len())) by {
            assert forall|i: int, j: int|
                0 <= i < prev.len() && 0 <= j < types.len() && (#[trigger] prev[i][j]) is Some implies (prev[i][j]->0).0
                    <= (prev[i][j]->0).1 by {
                assert(prev[i] == rows[i]);
            }
        }
        lemma_findings_typed(prev, types);
        let last = rows.last();
        assert forall|j: int| 0 <= j < last.len() && (#[trigger] last[j]) is Some implies (last[j]->0).0 <= (last[j]->0).1 by {
            assert(rows[rows.len() - 1] == last);
        }
        lemma_first_group_typed(last, types);
        let f = findings_spec(rows, types);
        let pf = findings_spec(prev, types);
        assert forall|k: int| 0 <= k < f.len() implies types.contains((#[trigger] f[k]).0) && (f[k].1).0 <= (f[k].1).1 by {
            if k < pf.len() {
                assert(f[k] == pf[k]);
            }
        }
    }
}

impl ClassificationInferencer for RegexInferencer {
    fn name(&self) -> (n: &'static str)
        ensures
            n@ == "regex"@,
    {
        "regex"
    }

    fn version(&self) -> (v: &'static str)
        ensures
            v@ == "1"@,
    {
        "1"
    }

    /// One finding per match of the combined expression, typed by the first
    /// of its groups that took part; which matches the engine reports is the
    /// regex crate's.
    fn infer(&self, text: &str) -> (found: Vec<ClassifiedDatum>)
        ensures
            found@.map_values(|d: ClassifiedDatum| datum_view(d)) == findings_spec(
                regex_captures(self.regex(), text@, self.group_names()),
                self.group_types(),
            ),
            well_shaped(regex_captures(self.regex(), text@, self.group_names()), self.group_types().len()),
    {
        let mut names: Vec<&'static str> = Vec::new();
        let mut types: Vec<DatumType> = Vec::new();
        let mut i: usize = 0;
        while i < self.groups.len()
            invariant
                i <= self.groups.len(),
                names@.len() == i,
                name_views(names@) == self.group_names().take(i as int),
                types@ == self.group_types().take(i as int),
            decreases self.groups.len() - i,
        {
            let ghost before = names@;
            names.push(self.groups[i].0);
            types.push(self.groups[i].1);
            proof {
                assert(types@ =~= self.group_types().take(i + 1));
                assert(names@[i as int] == self.groups@[i as int].0);
                assert(name_views(names@)[i as int] == self.group_names()[i as int]);
                assert forall|k: int| 0 <= k < i + 1 implies name_views(names@)[k] == self.group_names().take(i + 1)[k] by {
                    if k < i {
                        assert(names@[k] == before[k]);
                        assert(name_views(before)[k] == self.group_names().take(i as int)[k]);
                    }
                }
                assert(name_views(names@) =~= self.group_names().take(i + 1));
            }
            i = i + 1;
        }
        proof {
            assert(types@ =~= self.group_types());
            assert(name_views(names@) =~= self.group_names());
        }
        let rows = capture_groups(&self.combined, text, &names);
        let found = findings_from_captures(&rows, &types);
        proof {
            let rv = rows_view(rows@);
            assert forall|i: int, j: int|
                0 <= i < rv.len() && 0 <= j < self.group_types().len() && (#[trigger] rv[i][j]) is Some implies (rv[i][j]->0).0
                    <= (rv[i][j]->0).1 by {
                assert(rv[i][j] == group_view(rows@[i]@[j]));
            }
            assert(well_shaped(rv, self.group_types().len()));
        }
        found
    }
}

} // verus!
