//! Taxonomy map: taint categories to OpenTDF attributes.
//!
//! The map is the only place that says what a label means in policy terms.
//! Keeping it as data lets a tenant change compartments without changing the
//! gate, and lets an auditor read the rule behind a decision. A tenant map is
//! validated on load: a map that silently fails to parse would degrade to no
//! requirements at all, the wrong direction to fail in.

use vstd::prelude::*;

use crate::data_classification::{rank, DataCategory, SensitivityLevel};
use crate::data_classification::all_categories;
use crate::string_set::{string_views, AttrMap, StrSet};
use crate::strings::{
    chars_contain, chars_range, chars_vec, contains_spec, is_ws, last_index_of, lemma_last_index_of, occurs_at, owned,
    rfind_char, seq_lt, str_eq, string_of, trim_bounds, trim_end_char_bound, trim_end_char_spec, trim_spec,
};

verus! {

#[derive(Debug, Clone, PartialEq, Eq)]
pub enum TaxonomyError {
    /// The document is not valid JSON.
    Malformed(String),
    /// The document declares no labels.
    NoLabels,
    /// A label (named first) names an unknown category (second).
    UnknownCategory(String, String),
    /// A label (named first) names an unknown sensitivity (second).
    UnknownSensitivity(String, String),
    /// A category is declared more than once.
    DuplicateCategory(String),
}

/// Definition FQN of a possibly shorthand FQN: trimmed, without trailing
/// slashes, and with `/attr/` inserted before the last segment when neither
/// `/attr/` nor `/obl/` is present.
pub open spec fn canonical_definition_spec(fqn: Seq<char>) -> Seq<char> {
    let t = trim_end_char_spec(trim_spec(fqn), '/');
    if contains_spec(t, "/attr/"@) || contains_spec(t, "/obl/"@) {
        t
    } else {
        let k = last_index_of(t, '/');
        if 0 <= k && k + 1 < t.len() {
            t.subrange(0, k) + "/attr/"@ + t.subrange(k + 1, t.len() as int)
        } else {
            t
        }
    }
}

/// Trailing copies of `c` are gone once trimmed.
proof fn lemma_trim_end_char_last(s: Seq<char>, c: char)
    ensures
        trim_end_char_spec(s, c).len() == 0 || trim_end_char_spec(s, c).last() != c,
    decreases s.len(),
{
    if s.len() > 0 && s.last() == c {
        lemma_trim_end_char_last(s.drop_last(), c);
    }
}

/// A definition FQN is canonical already: canonicalising it again changes
/// nothing, unless it ends in white space that was hidden behind a trailing
/// slash.
pub proof fn lemma_canonical_definition_idempotent(fqn: Seq<char>)
    requires
        trim_spec(canonical_definition_spec(fqn)) == canonical_definition_spec(fqn),
    ensures
        canonical_definition_spec(canonical_definition_spec(fqn)) == canonical_definition_spec(fqn),
{
    reveal_strlit("/attr/");
    let t = trim_end_char_spec(trim_spec(fqn), '/');
    let c = canonical_definition_spec(fqn);
    lemma_trim_end_char_last(trim_spec(fqn), '/');
    if !(contains_spec(t, "/attr/"@) || contains_spec(t, "/obl/"@)) {
        let k = last_index_of(t, '/');
        lemma_last_index_of(t, '/');
        if 0 <= k && k + 1 < t.len() {
            let pre = t.subrange(0, k);
            assert(c == pre + "/attr/"@ + t.subrange(k + 1, t.len() as int));
            assert(c.subrange(k, k + 6) =~= "/attr/"@);
            assert(occurs_at(c, "/attr/"@, k));
            assert(c.last() == t.last());
        }
    }
    assert(c.len() == 0 || c.last() != '/');
    assert(trim_end_char_spec(c, '/') == c);
}

/// Whether a text holds no white space.
pub open spec fn free_of_ws(s: Seq<char>) -> bool {
    forall|i: int| 0 <= i < s.len() ==> !is_ws(#[trigger] s[i])
}

proof fn lemma_trim_free_of_ws(s: Seq<char>)
    requires
        free_of_ws(s),
    ensures
        trim_spec(s) == s,
{
    if s.len() > 0 {
        assert(!is_ws(s[0]));
        assert(!is_ws(s.last()));
    }
}

proof fn lemma_trim_end_char_prefix(s: Seq<char>, c: char)
    ensures
        trim_end_char_spec(s, c).len() <= s.len(),
        trim_end_char_spec(s, c) == s.subrange(0, trim_end_char_spec(s, c).len() as int),
    decreases s.len(),
{
    if s.len() > 0 && s.last() == c {
        lemma_trim_end_char_prefix(s.drop_last(), c);
        assert(s.drop_last().subrange(0, trim_end_char_spec(s, c).len() as int) =~= s.subrange(
            0,
            trim_end_char_spec(s, c).len() as int,
        ));
    } else {
        assert(s.subrange(0, s.len() as int) =~= s);
    }
}

/// For a definition FQN without white space: canonicalising twice is
/// canonicalising once; the canonical form never ends in `/`; and once the
/// trailing slashes are gone, an FQN with any `/` in it canonicalises to
/// one that names `/attr/` or `/obl/`.
pub proof fn lemma_canonical_definition_shape(fqn: Seq<char>)
    requires
        free_of_ws(fqn),
    ensures
        canonical_definition_spec(canonical_definition_spec(fqn)) == canonical_definition_spec(fqn),
        canonical_definition_spec(fqn).len() > 0 ==> canonical_definition_spec(fqn).last() != '/',
        trim_end_char_spec(fqn, '/').contains('/') ==> contains_spec(canonical_definition_spec(fqn), "/attr/"@)
            || contains_spec(canonical_definition_spec(fqn), "/obl/"@),
{
    reveal_strlit("/attr/");
    lemma_trim_free_of_ws(fqn);
    let t = trim_end_char_spec(fqn, '/');
    let c = canonical_definition_spec(fqn);
    lemma_trim_end_char_last(fqn, '/');
    lemma_trim_end_char_prefix(fqn, '/');
    assert(free_of_ws(t)) by {
        assert forall|i: int| 0 <= i < t.len() implies !is_ws(#[trigger] t[i]) by {
            assert(t[i] == fqn[i]);
        }
    }
    if !(contains_spec(t, "/attr/"@) || contains_spec(t, "/obl/"@)) {
        let k = last_index_of(t, '/');
        lemma_last_index_of(t, '/');
        if t.contains('/') {
            let j = choose|j: int| 0 <= j < t.len() && t[j] == '/';
            assert(k >= j);
        }
        if 0 <= k && k + 1 < t.len() {
            let pre = t.subrange(0, k);
            let post = t.subrange(k + 1, t.len() as int);
            assert(c == pre + "/attr/"@ + post);
            assert(c.subrange(k, k + 6) =~= "/attr/"@);
            assert(occurs_at(c, "/attr/"@, k));
            assert(c.last() == t.last());
            assert(free_of_ws(c)) by {
                assert forall|i: int| 0 <= i < c.len() implies !is_ws(#[trigger] c[i]) by {
                    if i < k {
                        assert(c[i] == t[i]);
                    } else if i < k + 6 {
                        assert(c[i] == "/attr/"@[i - k]);
                    } else {
                        assert(c[i] == t[i - 5]);
                    }
                }
            }
        } else {
            assert(c == t);
        }
    } else {
        assert(c == t);
    }
    lemma_trim_free_of_ws(c);
    lemma_canonical_definition_idempotent(fqn);
}

/// Value FQN: `<definition>/value/<value>`, unless the definition already names a value.
pub open spec fn canonical_value_spec(definition_fqn: Seq<char>, value: Seq<char>) -> Seq<char> {
    let def = canonical_definition_spec(definition_fqn);
    if contains_spec(def, "/value/"@) {
        def
    } else {
        def + "/value/"@ + value
    }
}

/// Definition FQN: `https://<namespace>/attr/<name>` (or `/obl/<name>`).
/// Shorthand that dropped `/attr/` is rewritten.
pub fn canonical_definition_fqn(fqn: &str) -> (r: String)
    ensures
        r@ == canonical_definition_spec(fqn@),
{
    let v = chars_vec(fqn);
    let (a, b0) = trim_bounds(v.as_slice(), 0, v.len());
    assert(v@.subrange(0, v@.len() as int) =~= v@);
    let b = trim_end_char_bound(v.as_slice(), a, b0, '/');
    proof {
        let t0 = v@.subrange(a as int, b0 as int);
        assert(t0 == trim_spec(fqn@));
    }
    let t = chars_range(v.as_slice(), a, b);
    if chars_contain(t.as_slice(), "/attr/") || chars_contain(t.as_slice(), "/obl/") {
        assert(t@.subrange(0, t@.len() as int) =~= t@);
        return string_of(t.as_slice(), 0, t.len());
    }
    match rfind_char(t.as_slice(), 0, t.len(), '/') {
        Some(k) => {
            assert(t@.subrange(0, t@.len() as int) =~= t@);
            proof {
                lemma_last_index_of(t@, '/');
            }
            if k + 1 < t.len() {
                let base = string_of(t.as_slice(), 0, k);
                let name = string_of(t.as_slice(), k + 1, t.len());
                let r = base.concat("/attr/");
                r.concat(name.as_str())
            } else {
                string_of(t.as_slice(), 0, t.len())
            }
        },
        None => {
            assert(t@.subrange(0, t@.len() as int) =~= t@);
            string_of(t.as_slice(), 0, t.len())
        },
    }
}

/// Value FQN: `https://<namespace>/attr/<name>/value/<value>`.
pub fn canonical_value_fqn(definition_fqn: &str, value: &str) -> (r: String)
    ensures
        r@ == canonical_value_spec(definition_fqn@, value@),
{
    let def = canonical_definition_fqn(definition_fqn);
    let dv = chars_vec(def.as_str());
    if chars_contain(dv.as_slice(), "/value/") {
        return def;
    }
    let r = def.concat("/value/");
    r.concat(value)
}

/// One attribute a subject must hold: an OpenTDF definition FQN and a value.
/// Requirements combine conjunctively.
#[derive(Debug, Clone, PartialEq, Eq, PartialOrd, Ord)]
pub struct AttributeRequirement {
    pub fqn: String,
    pub value: String,
}

impl View for AttributeRequirement {
    type V = (Seq<char>, Seq<char>);

    open spec fn view(&self) -> (Seq<char>, Seq<char>) {
        (self.fqn@, self.value@)
    }
}

impl AttributeRequirement {
    pub fn new(fqn: &str, value: &str) -> (r: AttributeRequirement)
        ensures
            r@ == (canonical_definition_spec(fqn@), value@),
    {
        AttributeRequirement { fqn: canonical_definition_fqn(fqn), value: owned(value) }
    }

    /// Platform value FQN: `https://<ns>/attr/<def>/value/<val>`.
    pub fn as_attribute_uri(&self) -> (r: String)
        ensures
            r@ == canonical_value_spec(self.fqn@, self.value@),
    {
        canonical_value_fqn(self.fqn.as_str(), self.value.as_str())
    }

    /// A copy of this requirement.
    pub fn copied(&self) -> (r: AttributeRequirement)
        ensures
            r@ == self@,
    {
        AttributeRequirement { fqn: self.fqn.clone(), value: self.value.clone() }
    }
}

/// A set of attribute requirements, iterated by definition FQN, then value.
#[derive(Debug, Clone, Default, PartialEq, Eq)]
pub struct RequirementSet {
    by_fqn: AttrMap,
}

impl RequirementSet {
    pub closed spec fn pairs(&self) -> Set<(Seq<char>, Seq<char>)> {
        Set::new(
            |p: (Seq<char>, Seq<char>)|
                self.by_fqn.map_view().contains_key(p.0) && self.by_fqn.map_view()[p.0].contains(p.1),
        )
    }

    pub closed spec fn wf(&self) -> bool {
        self.by_fqn.wf()
    }

    pub fn new() -> (s: RequirementSet)
        ensures
            s.wf(),
            s.pairs() == Set::<(Seq<char>, Seq<char>)>::empty(),
    {
        let s = RequirementSet { by_fqn: AttrMap::new() };
        assert(s.pairs() =~= Set::<(Seq<char>, Seq<char>)>::empty());
        s
    }

    pub fn insert(&mut self, req: AttributeRequirement)
        requires
            old(self).wf(),
        ensures
            final(self).wf(),
            final(self).pairs() == old(self).pairs().insert(req@),
    {
        let ghost rv = req@;
        let ghost before = self.by_fqn.map_view();
        self.by_fqn.insert_value(req.fqn, req.value);
        assert(self.pairs() =~= old(self).pairs().insert(rv));
    }

    pub fn contains(&self, req: &AttributeRequirement) -> (r: bool)
        requires
            self.wf(),
        ensures
            r == self.pairs().contains(req@),
    {
        match self.by_fqn.get(req.fqn.as_str()) {
            Some(values) => values.contains(req.value.as_str()),
            None => false,
        }
    }

    pub fn is_empty(&self) -> (r: bool)
        requires
            self.wf(),
        ensures
            r == (self.pairs() == Set::<(Seq<char>, Seq<char>)>::empty()),
    {
        let entries = self.by_fqn.entries();
        let mut i: usize = 0;
        while i < entries.len()
            invariant
                i <= entries.len(),
                entries@ == self.by_fqn.entry_seq(),
                self.wf(),
                forall|j: int| 0 <= j < i ==> (#[trigger] entries@[j]).1.elems().len() == 0,
            decreases entries.len() - i,
        {
            if !entries[i].1.is_empty() {
                proof {
                    let k = entries@[i as int].0@;
                    let x = entries@[i as int].1.elems()[0];
                    assert(self.by_fqn.keys()[i as int] == k);
                    assert(self.by_fqn.keys().contains(k));
                    crate::string_set::lemma_sorted_distinct(self.by_fqn.keys(), i as int, self.by_fqn.keys().index_of(k));
                    assert(self.by_fqn.keys()[i as int] == k);
                    assert(self.by_fqn.map_view()[k] == entries@[i as int].1.set_view());
                    assert(entries@[i as int].1.set_view().contains(x));
                    assert(self.pairs().contains((k, x)));
                }
                return false;
            }
            i = i + 1;
        }
        proof {
            assert forall|p: (Seq<char>, Seq<char>)| !self.pairs().contains(p) by {
                if self.pairs().contains(p) {
                    let q = self.by_fqn.keys().index_of(p.0);
                    assert(self.by_fqn.keys().contains(p.0));
                    assert(entries@[q].1.set_view().contains(p.1));
                }
            }
            assert(self.pairs() =~= Set::<(Seq<char>, Seq<char>)>::empty());
        }
        true
    }

    /// The requirements, by definition FQN, then value.
    pub fn to_vec(&self) -> (r: Vec<AttributeRequirement>)
        requires
            self.wf(),
        ensures
            forall|a: int, b: int| 0 <= a < b < r@.len() ==> pair_lt(#[trigger] r@[a]@, #[trigger] r@[b]@),
            forall|i: int| 0 <= i < r@.len() ==> self.pairs().contains(#[trigger] r@[i]@),
            forall|p: (Seq<char>, Seq<char>)| self.pairs().contains(p) ==> exists|i: int| 0 <= i < r@.len() && #[trigger] r@[i]@ == p,
    {
        let entries = self.by_fqn.entries();
        let mut r: Vec<AttributeRequirement> = Vec::new();
        let mut i: usize = 0;
        while i < entries.len()
            invariant
                i <= entries.len(),
                entries@ == self.by_fqn.entry_seq(),
                self.wf(),
                forall|k: int| 0 <= k < r@.len() ==> self.pairs().contains(#[trigger] r@[k]@),
                forall|j: int, x: Seq<char>| 0 <= j < i && #[trigger] entries@[j].1.elems().contains(x) ==> exists|k: int| 0 <= k < r@.len() && #[trigger] r@[k]@ == (entries@[j].0@, x),
                forall|a: int, b: int| 0 <= a < b < r@.len() ==> pair_lt(#[trigger] r@[a]@, #[trigger] r@[b]@),
                forall|a: int, j: int|
                    0 <= a < r@.len() && i <= j < entries@.len() ==> seq_lt((#[trigger] r@[a])@.0, #[trigger] self.by_fqn.keys()[j]),
            decreases entries.len() - i,
        {
            let key = &entries[i].0;
            let items = entries[i].1.items();
            let ghost kv = key@;
            proof {
                assert(self.by_fqn.keys()[i as int] == kv);
                assert(self.by_fqn.keys().contains(kv));
                crate::string_set::lemma_sorted_distinct(self.by_fqn.keys(), i as int, self.by_fqn.keys().index_of(kv));
                assert(self.by_fqn.keys()[i as int] == kv);
            }
            let ghost r0 = r@;
            let mut j: usize = 0;
            while j < items.len()
                invariant
                    j <= items.len(),
                    i < entries.len(),
                    entries@ == self.by_fqn.entry_seq(),
                    self.wf(),
                    kv == entries@[i as int].0@,
                    key@ == kv,
                    crate::string_set::string_views(items@) == entries@[i as int].1.elems(),
                    self.by_fqn.map_view().contains_key(kv),
                    self.by_fqn.map_view()[kv] == entries@[i as int].1.set_view(),
                    r@.len() == r0.len() + j,
                    forall|k: int| 0 <= k < r0.len() ==> r@[k] == r0[k],
                    forall|a: int| r0.len() <= a < r@.len() ==> (#[trigger] r@[a])@ == (kv, items@[a - r0.len()]@),
                    forall|a: int, b: int| 0 <= a < b < r@.len() ==> pair_lt(#[trigger] r@[a]@, #[trigger] r@[b]@),
                    forall|a: int, jj: int|
                        0 <= a < r0.len() && i <= jj < entries@.len() ==> seq_lt((#[trigger] r@[a])@.0, #[trigger] self.by_fqn.keys()[jj]),
                    self.by_fqn.keys()[i as int] == kv,
                    crate::string_set::sorted_keys(crate::string_set::string_views(items@)),
                    forall|k: int| 0 <= k < r@.len() ==> self.pairs().contains(#[trigger] r@[k]@),
                    forall|m: int| #![trigger items@[m]] 0 <= m < j ==> exists|k: int| 0 <= k < r@.len() && #[trigger] r@[k]@ == (kv, items@[m]@),
                decreases items.len() - j,
            {
                let ghost before = r@;
                proof {
                    assert(crate::string_set::string_views(items@)[j as int] == items@[j as int]@);
                    assert(entries@[i as int].1.set_view().contains(items@[j as int]@));
                }
                r.push(AttributeRequirement { fqn: key.clone(), value: items[j].clone() });
                proof {
                    assert(r@[before.len() as int]@ == (kv, items@[j as int]@));
                    assert forall|a: int, b: int| 0 <= a < b < r@.len() implies pair_lt(#[trigger] r@[a]@, #[trigger] r@[b]@) by {
                        if b == before.len() {
                            if a < r0.len() {
                                assert(r@[a] == before[a]);
                                assert(seq_lt(r@[a]@.0, self.by_fqn.keys()[i as int]));
                            } else {
                                assert(r@[a]@ == (kv, items@[a - r0.len()]@));
                                let sv = crate::string_set::string_views(items@);
                                assert(sv[a - r0.len()] == items@[a - r0.len()]@);
                                assert(sv[j as int] == items@[j as int]@);
                                assert(seq_lt(sv[a - r0.len()], sv[j as int]));
                            }
                        } else {
                            assert(r@[a] == before[a]);
                            assert(r@[b] == before[b]);
                        }
                    }
                    assert forall|m: int| #![trigger items@[m]] 0 <= m < j + 1 implies exists|k: int| 0 <= k < r@.len() && #[trigger] r@[k]@ == (kv, items@[m]@) by {
                        if m < j {
                            let k = choose|k: int| 0 <= k < before.len() && #[trigger] before[k]@ == (kv, items@[m]@);
                            assert(r@[k] == before[k]);
                        } else {
                            assert(r@[before.len() as int]@ == (kv, items@[m]@));
                        }
                    }
                }
                j = j + 1;
            }
            proof {
                assert forall|jj: int, x: Seq<char>| 0 <= jj < i + 1 && #[trigger] entries@[jj].1.elems().contains(x) implies exists|k: int| 0 <= k < r@.len() && #[trigger] r@[k]@ == (entries@[jj].0@, x) by {
                    if jj < i {
                        let k = choose|k: int| 0 <= k < r0.len() && #[trigger] r0[k]@ == (entries@[jj].0@, x);
                        assert(r@[k] == r0[k]);
                    } else {
                        let m = choose|m: int| 0 <= m < entries@[i as int].1.elems().len() && entries@[i as int].1.elems()[m] == x;
                        assert(crate::string_set::string_views(items@)[m] == items@[m]@);
                    }
                }
            }
            proof {
                assert forall|a: int, jj: int|
                    0 <= a < r@.len() && i + 1 <= jj < entries@.len() implies seq_lt((#[trigger] r@[a])@.0, #[trigger] self.by_fqn.keys()[jj]) by {
                    assert(seq_lt(self.by_fqn.keys()[i as int], self.by_fqn.keys()[jj]));
                    if a >= r0.len() {
                        assert(r@[a]@.0 == kv);
                    }
                }
            }
            i = i + 1;
        }
        proof {
            assert forall|p: (Seq<char>, Seq<char>)| self.pairs().contains(p) implies exists|i: int| 0 <= i < r@.len() && #[trigger] r@[i]@ == p by {
                let q = self.by_fqn.keys().index_of(p.0);
                assert(self.by_fqn.keys().contains(p.0));
                assert(entries@[q].0@ == p.0);
                assert(entries@[q].1.set_view().contains(p.1));
                assert(entries@[q].1.elems().contains(p.1));
            }
        }
        r
    }
}

/// Requirement order: by definition FQN, then value.
pub open spec fn pair_lt(p: (Seq<char>, Seq<char>), q: (Seq<char>, Seq<char>)) -> bool {
    seq_lt(p.0, q.0) || (p.0 == q.0 && seq_lt(p.1, q.1))
}

/// What to do for a subject that does not hold a label's requirements.
#[derive(Debug, Clone, Copy, PartialEq, Eq, Structural)]
pub enum Unentitled {
    Block,
    Redact,
}

/// Policy for one taxonomy label.
#[derive(Debug, Clone, PartialEq, Eq)]
pub struct LabelPolicy {
    pub label: String,
    pub category: DataCategory,
    pub sensitivity: SensitivityLevel,
    /// Attributes a subject must hold to receive this label in the clear.
    pub requires: Vec<AttributeRequirement>,
    /// Attributes stamped onto the TDF policy when this label is wrapped.
    pub wrap_attributes: Vec<AttributeRequirement>,
    pub unentitled: Unentitled,
    /// Content that no entitlement and no wrapping rescues.
    pub never_release: bool,
}

pub open spec fn req_views(reqs: Seq<AttributeRequirement>) -> Seq<(Seq<char>, Seq<char>)> {
    reqs.map_values(|r: AttributeRequirement| r@)
}

/// The hierarchical clearance attribute: what a payload requires when the
/// detector found no category at all.
#[derive(Debug, Clone, PartialEq, Eq)]
pub struct ClearanceDefinition {
    pub fqn: String,
    /// Level names, by value name rather than by index.
    pub order: Vec<String>,
}

pub open spec fn level_slug(level: SensitivityLevel) -> Seq<char> {
    match level {
        SensitivityLevel::Public => "public"@,
        SensitivityLevel::Internal => "internal"@,
        SensitivityLevel::Confidential => "confidential"@,
        SensitivityLevel::Restricted => "restricted"@,
    }
}

impl ClearanceDefinition {
    pub open spec fn order_names(&self) -> Seq<Seq<char>> {
        crate::string_set::string_views(self.order@)
    }

    /// The clearance value for data at `level`, looked up by name.
    pub fn value_for(&self, level: SensitivityLevel) -> (r: Option<&str>)
        ensures
            match r {
                Some(v) => v@ == level_slug(level) && self.order_names().contains(level_slug(level)),
                None => !self.order_names().contains(level_slug(level)),
            },
    {
        let slug = match level {
            SensitivityLevel::Public => "public",
            SensitivityLevel::Internal => "internal",
            SensitivityLevel::Confidential => "confidential",
            SensitivityLevel::Restricted => "restricted",
        };
        let mut i: usize = 0;
        while i < self.order.len()
            invariant
                i <= self.order.len(),
                slug@ == level_slug(level),
                forall|j: int| 0 <= j < i ==> self.order_names()[j] != slug@,
            decreases self.order.len() - i,
        {
            if str_eq(self.order[i].as_str(), slug) {
                assert(self.order_names()[i as int] == slug@);
                return Some(self.order[i].as_str());
            }
            i = i + 1;
        }
        None
    }
}

pub open spec fn category_spec(name: Seq<char>) -> Option<DataCategory> {
    if name == "Pii"@ {
        Some(DataCategory::Pii)
    } else if name == "Credentials"@ {
        Some(DataCategory::Credentials)
    } else if name == "Financial"@ {
        Some(DataCategory::Financial)
    } else if name == "Healthcare"@ {
        Some(DataCategory::Healthcare)
    } else if name == "Internal"@ {
        Some(DataCategory::Internal)
    } else if name == "Public"@ {
        Some(DataCategory::Public)
    } else {
        None
    }
}

pub open spec fn sensitivity_spec(name: Seq<char>) -> Option<SensitivityLevel> {
    if name == "Public"@ {
        Some(SensitivityLevel::Public)
    } else if name == "Internal"@ {
        Some(SensitivityLevel::Internal)
    } else if name == "Confidential"@ {
        Some(SensitivityLevel::Confidential)
    } else if name == "Restricted"@ {
        Some(SensitivityLevel::Restricted)
    } else {
        None
    }
}

/// Category names are the spelled-out taxonomy vocabulary, so renaming a
/// variant cannot change which policy a stored map selects.
pub fn parse_category(name: &str) -> (r: Option<DataCategory>)
    ensures
        r == category_spec(name@),
{
    if str_eq(name, "Pii") {
        Some(DataCategory::Pii)
    } else if str_eq(name, "Credentials") {
        Some(DataCategory::Credentials)
    } else if str_eq(name, "Financial") {
        Some(DataCategory::Financial)
    } else if str_eq(name, "Healthcare") {
        Some(DataCategory::Healthcare)
    } else if str_eq(name, "Internal") {
        Some(DataCategory::Internal)
    } else if str_eq(name, "Public") {
        Some(DataCategory::Public)
    } else {
        None
    }
}

pub fn parse_sensitivity(name: &str) -> (r: Option<SensitivityLevel>)
    ensures
        r == sensitivity_spec(name@),
{
    if str_eq(name, "Public") {
        Some(SensitivityLevel::Public)
    } else if str_eq(name, "Internal") {
        Some(SensitivityLevel::Internal)
    } else if str_eq(name, "Confidential") {
        Some(SensitivityLevel::Confidential)
    } else if str_eq(name, "Restricted") {
        Some(SensitivityLevel::Restricted)
    } else {
        None
    }
}

/// Attribute definitions appear on a TDF unless the map says otherwise.
pub fn default_on_tdf() -> (r: bool)
    ensures
        r,
{
    true
}

/// A requirement as the map document writes it, before canonicalization.
#[derive(Debug, Clone, PartialEq, Eq)]
pub struct RawRequirement {
    pub fqn: String,
    pub value: String,
}

/// One label entry of a map document.
#[derive(Debug, Clone)]
pub struct RawLabel {
    pub name: String,
    pub category: String,
    pub sensitivity: String,
    pub requires: Vec<RawRequirement>,
    pub wrap_attributes: Vec<RawRequirement>,
    pub unentitled: Unentitled,
    pub never_release: bool,
}

/// One attribute definition of a map document.
#[derive(Debug, Clone)]
pub struct RawAttributeDefinition {
    pub fqn: String,
    pub rule: String,
    pub order: Vec<String>,
    pub on_tdf: bool,
}

/// A taxonomy map document, as plain values.
#[derive(Debug, Clone)]
pub struct TaxonomyDocument {
    pub version: String,
    pub namespace: String,
    pub attribute_definitions: Vec<RawAttributeDefinition>,
    pub labels: Vec<RawLabel>,
    /// Provenance-only attributes of the derived-artifact join.
    pub provenance_attributes: Vec<String>,
    /// What a missed provenance join stamps (`"unknown"` to fail closed).
    pub missing_provenance: String,
}

/// What is wrong with a label given the labels before it: 0 nothing,
/// 1 unknown category, 2 unknown sensitivity, 3 a repeated category.
pub open spec fn label_fault(prefix: Seq<RawLabel>, l: RawLabel) -> u8 {
    if category_spec(l.category@) is None {
        1
    } else if sensitivity_spec(l.sensitivity@) is None {
        2
    } else if exists|i: int| 0 <= i < prefix.len() && category_spec((#[trigger] prefix[i]).category@) == category_spec(l.category@) {
        3
    } else {
        0
    }
}

/// The first faulty label and its fault, if any.
pub open spec fn first_fault(labels: Seq<RawLabel>) -> Option<(int, u8)>
    decreases labels.len(),
{
    if labels.len() == 0 {
        None
    } else {
        let prev = first_fault(labels.drop_last());
        if prev is Some {
            prev
        } else if label_fault(labels.drop_last(), labels.last()) != 0 {
            Some(((labels.len() - 1) as int, label_fault(labels.drop_last(), labels.last())))
        } else {
            None
        }
    }
}

/// Whether a load result reports the fault of a document.
pub open spec fn reports_fault(r: Result<TaxonomyMap, TaxonomyError>, labels: Seq<RawLabel>, k: int, fault: u8) -> bool {
    if fault == 1 {
        r matches Err(TaxonomyError::UnknownCategory(n, c)) && n@ == labels[k].name@ && c@ == labels[k].category@
    } else if fault == 2 {
        r matches Err(TaxonomyError::UnknownSensitivity(n, s)) && n@ == labels[k].name@ && s@ == labels[k].sensitivity@
    } else {
        r matches Err(TaxonomyError::DuplicateCategory(c)) && c@ == labels[k].category@
    }
}

pub open spec fn raw_req_views(reqs: Seq<RawRequirement>) -> Seq<(Seq<char>, Seq<char>)> {
    reqs.map_values(|r: RawRequirement| (canonical_definition_spec(r.fqn@), r.value@))
}

/// The policy a valid label becomes.
pub open spec fn policy_matches(p: LabelPolicy, l: RawLabel) -> bool {
    &&& p.label@ == l.name@
    &&& Some(p.category) == category_spec(l.category@)
    &&& Some(p.sensitivity) == sensitivity_spec(l.sensitivity@)
    &&& req_views(p.requires@) == raw_req_views(l.requires@)
    &&& req_views(p.wrap_attributes@) == raw_req_views(l.wrap_attributes@)
    &&& p.unentitled == l.unentitled
    &&& p.never_release == l.never_release
}

/// Index of the first hierarchy definition with a non-empty order.
pub open spec fn first_hierarchy(defs: Seq<RawAttributeDefinition>) -> Option<int>
    decreases defs.len(),
{
    if defs.len() == 0 {
        None
    } else if first_hierarchy(defs.drop_last()) is Some {
        first_hierarchy(defs.drop_last())
    } else if defs.last().rule@ == "hierarchy"@ && defs.last().order@.len() > 0 {
        Some((defs.len() - 1) as int)
    } else {
        None
    }
}

/// Canonical FQNs of the conjunctive (`allOf` / `anyOf`) definitions.
pub open spec fn conjunctive_spec(defs: Seq<RawAttributeDefinition>) -> Set<Seq<char>> {
    Set::new(
        |f: Seq<char>|
            exists|i: int|
                0 <= i < defs.len() && (defs[i].rule@ == "allOf"@ || defs[i].rule@ == "anyOf"@)
                    && canonical_definition_spec((#[trigger] defs[i]).fqn@) == f,
    )
}

/// Canonical FQNs of the definitions that stay off the TDF.
pub open spec fn off_tdf_spec(defs: Seq<RawAttributeDefinition>) -> Set<Seq<char>> {
    Set::new(
        |f: Seq<char>|
            exists|i: int| 0 <= i < defs.len() && !defs[i].on_tdf && canonical_definition_spec((#[trigger] defs[i]).fqn@) == f,
    )
}

/// Canonical FQNs of the non-empty provenance attributes.
pub open spec fn provenance_spec(attrs: Seq<String>) -> Set<Seq<char>> {
    Set::new(
        |f: Seq<char>| exists|i: int| 0 <= i < attrs.len() && attrs[i]@.len() > 0 && canonical_definition_spec((#[trigger] attrs[i])@) == f,
    )
}

/// Category to attribute mapping, loaded from a taxonomy map document.
#[derive(Debug, Clone, PartialEq, Eq)]
pub struct TaxonomyMap {
    version: String,
    namespace: String,
    labels: Vec<LabelPolicy>,
    clearance: Option<ClearanceDefinition>,
    conjunctive_fqns: StrSet,
    provenance_fqns: StrSet,
    missing_provenance_unknown: bool,
    off_tdf_fqns: StrSet,
}

impl TaxonomyMap {
    pub closed spec fn version_view(&self) -> Seq<char> {
        self.version@
    }

    pub closed spec fn namespace_view(&self) -> Seq<char> {
        self.namespace@
    }

    pub closed spec fn policies(&self) -> Seq<LabelPolicy> {
        self.labels@
    }

    pub closed spec fn clearance_def(&self) -> Option<ClearanceDefinition> {
        self.clearance
    }

    pub closed spec fn conjunctive(&self) -> StrSet {
        self.conjunctive_fqns
    }

    pub closed spec fn provenance(&self) -> StrSet {
        self.provenance_fqns
    }

    pub closed spec fn off_tdf(&self) -> StrSet {
        self.off_tdf_fqns
    }

    pub closed spec fn missing_unknown(&self) -> bool {
        self.missing_provenance_unknown
    }

    /// Each category has at most one policy; the FQN sets are ordered.
    pub open spec fn wf(&self) -> bool {
        &&& forall|i: int, j: int|
            0 <= i < j < self.policies().len() ==> (#[trigger] self.policies()[i]).category
                != (#[trigger] self.policies()[j]).category
        &&& self.conjunctive().wf()
        &&& self.provenance().wf()
        &&& self.off_tdf().wf()
    }

    /// Whether some policy covers a category.
    pub open spec fn covers(&self, c: DataCategory) -> bool {
        exists|i: int| 0 <= i < self.policies().len() && (#[trigger] self.policies()[i]).category == c
    }

    /// The policy of a category.
    pub open spec fn policy_spec(&self, c: DataCategory) -> LabelPolicy {
        self.policies()[choose|i: int| 0 <= i < self.policies().len() && (#[trigger] self.policies()[i]).category == c]
    }

    /// Loads a map from a document, rejecting a document with no labels, an
    /// unknown category or sensitivity, or a category declared twice.
    pub fn from_document(doc: TaxonomyDocument) -> (r: Result<TaxonomyMap, TaxonomyError>)
        ensures
            doc.labels@.len() == 0 ==> r matches Err(TaxonomyError::NoLabels),
            doc.labels@.len() > 0 && first_fault(doc.labels@) is Some ==> reports_fault(
                r,
                doc.labels@,
                (first_fault(doc.labels@)->0).0,
                (first_fault(doc.labels@)->0).1,
            ),
            doc.labels@.len() > 0 && first_fault(doc.labels@) is None ==> (r matches Ok(m) && {
                &&& m.wf()
                &&& m.version_view() == doc.version@
                &&& m.namespace_view() == doc.namespace@
                &&& m.policies().len() == doc.labels@.len()
                &&& forall|i: int| 0 <= i < doc.labels@.len() ==> policy_matches(#[trigger] m.policies()[i], doc.labels@[i])
                &&& match first_hierarchy(doc.attribute_definitions@) {
                    Some(h) => (m.clearance_def() matches Some(c) && c.fqn@ == canonical_definition_spec(
                        doc.attribute_definitions@[h].fqn@,
                    ) && c.order_names() == crate::string_set::string_views(doc.attribute_definitions@[h].order@)),
                    None => m.clearance_def() is None,
                }
                &&& m.conjunctive().set_view() == conjunctive_spec(doc.attribute_definitions@)
                &&& m.off_tdf().set_view() == off_tdf_spec(doc.attribute_definitions@)
                &&& m.provenance().set_view() == provenance_spec(doc.provenance_attributes@)
                &&& m.missing_unknown() == (doc.missing_provenance@ == "unknown"@ && provenance_spec(
                    doc.provenance_attributes@,
                ) != Set::<Seq<char>>::empty())
            }),
    {
        if doc.labels.len() == 0 {
            return Err(TaxonomyError::NoLabels);
        }
        let mut labels: Vec<LabelPolicy> = Vec::new();
        let mut i: usize = 0;
        while i < doc.labels.len()
            invariant
                i <= doc.labels.len(),
                first_fault(doc.labels@.take(i as int)) is None,
                labels@.len() == i,
                forall|k: int| 0 <= k < i ==> policy_matches(#[trigger] labels@[k], doc.labels@[k]),
                forall|a: int, b: int| 0 <= a < b < i ==> (#[trigger] labels@[a]).category != (#[trigger] labels@[b]).category,
            decreases doc.labels.len() - i,
        {
            let raw = &doc.labels[i];
            let ghost prefix = doc.labels@.take(i as int);
            assert(doc.labels@.take(i + 1).drop_last() =~= prefix);
            assert(doc.labels@.take(i + 1).last() == *raw);
            let category = match parse_category(raw.category.as_str()) {
                Some(c) => c,
                None => {
                    proof { lemma_first_fault_extends(doc.labels@, i as int); }
                    return Err(TaxonomyError::UnknownCategory(raw.name.clone(), raw.category.clone()));
                },
            };
            let sensitivity = match parse_sensitivity(raw.sensitivity.as_str()) {
                Some(s) => s,
                None => {
                    proof { lemma_first_fault_extends(doc.labels@, i as int); }
                    return Err(TaxonomyError::UnknownSensitivity(raw.name.clone(), raw.sensitivity.clone()));
                },
            };
            let mut j: usize = 0;
            while j < labels.len()
                invariant
                    j <= labels.len(),
                    labels@.len() == i,
                    i < doc.labels@.len(),
                    prefix == doc.labels@.take(i as int),
                    first_fault(prefix) is None,
                    *raw == doc.labels@[i as int],
                    Some(category) == category_spec(raw.category@),
                    Some(sensitivity) == sensitivity_spec(raw.sensitivity@),
                    forall|k: int| 0 <= k < i ==> policy_matches(#[trigger] labels@[k], doc.labels@[k]),
                    forall|k: int| 0 <= k < j ==> (#[trigger] labels@[k]).category != category,
                decreases labels.len() - j,
            {
                if labels[j].category == category {
                    proof {
                        assert(policy_matches(labels@[j as int], doc.labels@[j as int]));
                        assert(prefix[j as int] == doc.labels@[j as int]);
                        assert(category_spec(prefix[j as int].category@) == category_spec(raw.category@));
                        lemma_first_fault_extends(doc.labels@, i as int);
                    }
                    return Err(TaxonomyError::DuplicateCategory(raw.category.clone()));
                }
                j = j + 1;
            }
            proof {
                assert(label_fault(prefix, *raw) == 0) by {
                    if exists|q: int| 0 <= q < prefix.len() && category_spec((#[trigger] prefix[q]).category@) == category_spec(raw.category@) {
                        let q = choose|q: int| 0 <= q < prefix.len() && category_spec((#[trigger] prefix[q]).category@) == category_spec(raw.category@);
                        assert(policy_matches(labels@[q], doc.labels@[q]));
                        assert(prefix[q] == doc.labels@[q]);
                    }
                }
            }
            let needed = canonical_requirements(&raw.requires);
            let wrap_attributes = canonical_requirements(&raw.wrap_attributes);
            labels.push(LabelPolicy {
                label: raw.name.clone(),
                category,
                sensitivity,
                requires: needed,
                wrap_attributes,
                unentitled: raw.unentitled,
                never_release: raw.never_release,
            });
            i = i + 1;
        }
        assert(doc.labels@.take(doc.labels.len() as int) =~= doc.labels@);
        let defs = &doc.attribute_definitions;
        let mut clearance: Option<ClearanceDefinition> = None;
        let mut conjunctive_fqns = StrSet::new();
        let mut off_tdf_fqns = StrSet::new();
        let mut d: usize = 0;
        while d < defs.len()
            invariant
                d <= defs.len(),
                conjunctive_fqns.wf(),
                off_tdf_fqns.wf(),
                match first_hierarchy(defs@.take(d as int)) {
                    Some(h) => (clearance matches Some(c) && c.fqn@ == canonical_definition_spec(defs@[h].fqn@)
                        && c.order_names() == crate::string_set::string_views(defs@[h].order@)),
                    None => clearance is None,
                },
                conjunctive_fqns.set_view() == conjunctive_spec(defs@.take(d as int)),
                off_tdf_fqns.set_view() == off_tdf_spec(defs@.take(d as int)),
            decreases defs.len() - d,
        {
            let def = &defs[d];
            let ghost prev = defs@.take(d as int);
            let ghost next = defs@.take(d + 1);
            assert(next.drop_last() =~= prev);
            assert(next.last() == *def);
            let fqn = canonical_definition_fqn(def.fqn.as_str());
            if !def.on_tdf {
                off_tdf_fqns.insert(fqn.clone());
            }
            if str_eq(def.rule.as_str(), "hierarchy") && def.order.len() > 0 && clearance.is_none() {
                clearance = Some(ClearanceDefinition { fqn: fqn.clone(), order: copy_strings(&def.order) });
            } else if str_eq(def.rule.as_str(), "allOf") || str_eq(def.rule.as_str(), "anyOf") {
                conjunctive_fqns.insert(fqn.clone());
            }
            proof {
                if first_hierarchy(prev) is Some {
                    let h = first_hierarchy(prev)->0;
                    lemma_first_hierarchy_bound(prev);
                    assert(next[h] == prev[h]);
                }
                assert(conjunctive_fqns.set_view() =~= conjunctive_spec(next)) by {
                    assert forall|f: Seq<char>| conjunctive_fqns.set_view().contains(f) implies conjunctive_spec(next).contains(f) by {
                        if conjunctive_spec(prev).contains(f) {
                            let q = choose|q: int| 0 <= q < prev.len() && (prev[q].rule@ == "allOf"@ || prev[q].rule@ == "anyOf"@) && canonical_definition_spec((#[trigger] prev[q]).fqn@) == f;
                            assert(next[q] == prev[q]);
                        } else {
                            assert(next[d as int] == *def);
                        }
                    }
                    assert forall|f: Seq<char>| conjunctive_spec(next).contains(f) implies conjunctive_fqns.set_view().contains(f) by {
                        let q = choose|q: int| 0 <= q < next.len() && (next[q].rule@ == "allOf"@ || next[q].rule@ == "anyOf"@) && canonical_definition_spec((#[trigger] next[q]).fqn@) == f;
                        if q < d {
                            assert(prev[q] == next[q]);
                        } else {
                            assert("allOf"@.len() != "hierarchy"@.len()) by {
                                reveal_strlit("hierarchy");
                                reveal_strlit("allOf");
                            }
                            assert("anyOf"@.len() != "hierarchy"@.len()) by {
                                reveal_strlit("hierarchy");
                                reveal_strlit("anyOf");
                            }
                        }
                    }
                }
                assert(off_tdf_fqns.set_view() =~= off_tdf_spec(next)) by {
                    assert forall|f: Seq<char>| off_tdf_fqns.set_view().contains(f) implies off_tdf_spec(next).contains(f) by {
                        if off_tdf_spec(prev).contains(f) {
                            let q = choose|q: int| 0 <= q < prev.len() && !prev[q].on_tdf && canonical_definition_spec((#[trigger] prev[q]).fqn@) == f;
                            assert(next[q] == prev[q]);
                        } else {
                            assert(next[d as int] == *def);
                        }
                    }
                    assert forall|f: Seq<char>| off_tdf_spec(next).contains(f) implies off_tdf_fqns.set_view().contains(f) by {
                        let q = choose|q: int| 0 <= q < next.len() && !next[q].on_tdf && canonical_definition_spec((#[trigger] next[q]).fqn@) == f;
                        if q < d {
                            assert(prev[q] == next[q]);
                        }
                    }
                }
            }
            d = d + 1;
        }
        assert(defs@.take(defs.len() as int) =~= defs@);
        let attrs = &doc.provenance_attributes;
        let mut provenance_fqns = StrSet::new();
        let mut a: usize = 0;
        while a < attrs.len()
            invariant
                a <= attrs.len(),
                provenance_fqns.wf(),
                provenance_fqns.set_view() == provenance_spec(attrs@.take(a as int)),
            decreases attrs.len() - a,
        {
            let ghost prev = attrs@.take(a as int);
            let ghost next = attrs@.take(a + 1);
            assert(next.drop_last() =~= prev);
            if attrs[a].as_str().unicode_len() > 0 {
                provenance_fqns.insert(canonical_definition_fqn(attrs[a].as_str()));
            }
            proof {
                assert(provenance_fqns.set_view() =~= provenance_spec(next)) by {
                    assert forall|f: Seq<char>| provenance_fqns.set_view().contains(f) implies provenance_spec(next).contains(f) by {
                        if provenance_spec(prev).contains(f) {
                            let q = choose|q: int| 0 <= q < prev.len() && prev[q]@.len() > 0 && canonical_definition_spec((#[trigger] prev[q])@) == f;
                            assert(next[q] == prev[q]);
                        } else {
                            assert(next[a as int] == attrs@[a as int]);
                        }
                    }
                    assert forall|f: Seq<char>| provenance_spec(next).contains(f) implies provenance_fqns.set_view().contains(f) by {
                        let q = choose|q: int| 0 <= q < next.len() && next[q]@.len() > 0 && canonical_definition_spec((#[trigger] next[q])@) == f;
                        if q < a {
                            assert(prev[q] == next[q]);
                        }
                    }
                }
            }
            a = a + 1;
        }
        assert(attrs@.take(attrs.len() as int) =~= attrs@);
        let missing_provenance_unknown = str_eq(doc.missing_provenance.as_str(), "unknown") && !provenance_fqns.is_empty();
        proof {
            if provenance_fqns.elems().len() == 0 {
                assert(provenance_fqns.set_view() =~= Set::<Seq<char>>::empty());
            } else {
                assert(provenance_fqns.set_view().contains(provenance_fqns.elems()[0]));
            }
        }
        Ok(TaxonomyMap {
            version: doc.version,
            namespace: doc.namespace,
            labels,
            clearance,
            conjunctive_fqns,
            provenance_fqns,
            missing_provenance_unknown,
            off_tdf_fqns,
        })
    }
}

pub proof fn lemma_first_hierarchy_bound(defs: Seq<RawAttributeDefinition>)
    ensures
        first_hierarchy(defs) matches Some(h) ==> 0 <= h < defs.len(),
    decreases defs.len(),
{
    if defs.len() > 0 {
        lemma_first_hierarchy_bound(defs.drop_last());
    }
}

/// A fault at label `i`, with none before it, is the document's first fault.
pub proof fn lemma_first_fault_extends(labels: Seq<RawLabel>, i: int)
    requires
        0 <= i < labels.len(),
        first_fault(labels.take(i)) is None,
        label_fault(labels.take(i), labels[i]) != 0,
    ensures
        first_fault(labels) == Some((i, label_fault(labels.take(i), labels[i]))),
    decreases labels.len(),
{
    if i < labels.len() - 1 {
        assert(labels.drop_last().take(i) =~= labels.take(i));
        lemma_first_fault_extends(labels.drop_last(), i);
    } else {
        assert(labels.drop_last() =~= labels.take(i));
    }
}

/// Canonical requirements of a document's raw requirement list.
fn canonical_requirements(raw: &Vec<RawRequirement>) -> (r: Vec<AttributeRequirement>)
    ensures
        req_views(r@) == raw_req_views(raw@),
{
    let mut r: Vec<AttributeRequirement> = Vec::new();
    let mut i: usize = 0;
    while i < raw.len()
        invariant
            i <= raw.len(),
            req_views(r@) == raw_req_views(raw@.take(i as int)),
        decreases raw.len() - i,
    {
        let ghost before = r@;
        let req = AttributeRequirement::new(raw[i].fqn.as_str(), raw[i].value.as_str());
        let ghost rv = req@;
        r.push(req);
        assert(req_views(r@) =~= req_views(before).push(rv));
        assert(raw@.take(i + 1) =~= raw@.take(i as int).push(raw@[i as int]));
        assert(raw_req_views(raw@.take(i + 1)) =~= raw_req_views(raw@.take(i as int)).push(rv));
        i = i + 1;
    }
    assert(raw@.take(raw.len() as int) =~= raw@);
    r
}

/// A copy of a list of strings.
fn copy_strings(v: &Vec<String>) -> (r: Vec<String>)
    ensures
        crate::string_set::string_views(r@) == crate::string_set::string_views(v@),
{
    let mut r: Vec<String> = Vec::new();
    let mut i: usize = 0;
    while i < v.len()
        invariant
            i <= v.len(),
            crate::string_set::string_views(r@) == crate::string_set::string_views(v@.take(i as int)),
        decreases v.len() - i,
    {
        let ghost before = r@;
        r.push(v[i].clone());
        assert(crate::string_set::string_views(r@) =~= crate::string_set::string_views(before).push(v@[i as int]@));
        assert(v@.take(i + 1) =~= v@.take(i as int).push(v@[i as int]));
        assert(crate::string_set::string_views(v@.take(i + 1)) =~= crate::string_set::string_views(v@.take(i as int)).push(v@[i as int]@));
        i = i + 1;
    }
    assert(v@.take(v.len() as int) =~= v@);
    r
}

/// The set of requirement views in a requirement list.
pub open spec fn req_set(reqs: Seq<AttributeRequirement>) -> Set<(Seq<char>, Seq<char>)> {
    req_views(reqs).to_set()
}

/// Adds every requirement of `reqs` to `out`.
fn add_requirements(out: &mut RequirementSet, reqs: &Vec<AttributeRequirement>)
    requires
        old(out).wf(),
    ensures
        final(out).wf(),
        final(out).pairs() == old(out).pairs().union(req_set(reqs@)),
{
    let mut j: usize = 0;
    while j < reqs.len()
        invariant
            j <= reqs.len(),
            out.wf(),
            out.pairs() == old(out).pairs().union(req_set(reqs@.take(j as int))),
        decreases reqs.len() - j,
    {
        let ghost before = out.pairs();
        out.insert(reqs[j].copied());
        proof {
            assert(req_views(reqs@.take(j + 1)) =~= req_views(reqs@.take(j as int)).push(reqs@[j as int]@));
            req_views(reqs@.take(j as int)).lemma_push_to_set_commute(reqs@[j as int]@);
            assert(req_set(reqs@.take(j + 1)) =~= req_set(reqs@.take(j as int)).insert(reqs@[j as int]@));
            assert(out.pairs() =~= old(out).pairs().union(req_set(reqs@.take(j + 1))));
        }
        j = j + 1;
    }
    assert(reqs@.take(reqs.len() as int) =~= reqs@);
}

impl TaxonomyMap {
    /// Requirements of every covered category in `cats`, joined by union.
    pub open spec fn required_pairs(&self, cats: Seq<DataCategory>) -> Set<(Seq<char>, Seq<char>)>
        decreases cats.len(),
    {
        if cats.len() == 0 {
            Set::empty()
        } else if self.covers(cats.last()) {
            self.required_pairs(cats.drop_last()).union(req_set(self.policy_spec(cats.last()).requires@))
        } else {
            self.required_pairs(cats.drop_last())
        }
    }

    /// Wrap attributes of every covered category in `cats`, joined by union.
    pub open spec fn wrap_pairs(&self, cats: Seq<DataCategory>) -> Set<(Seq<char>, Seq<char>)>
        decreases cats.len(),
    {
        if cats.len() == 0 {
            Set::empty()
        } else if self.covers(cats.last()) {
            self.wrap_pairs(cats.drop_last()).union(req_set(self.policy_spec(cats.last()).wrap_attributes@))
        } else {
            self.wrap_pairs(cats.drop_last())
        }
    }

    /// Whether a category has a policy that forbids any release.
    pub open spec fn is_never_release(&self, c: DataCategory) -> bool {
        self.covers(c) && self.policy_spec(c).never_release
    }

    /// The categories of `cats` that must never leave, in their order.
    pub open spec fn never_release_filter(&self, cats: Seq<DataCategory>) -> Seq<DataCategory>
        decreases cats.len(),
    {
        if cats.len() == 0 {
            Seq::empty()
        } else if self.is_never_release(cats.last()) {
            self.never_release_filter(cats.drop_last()).push(cats.last())
        } else {
            self.never_release_filter(cats.drop_last())
        }
    }

    /// The clearance requirement for data at a level, as a view.
    pub open spec fn clearance_requirement_spec(&self, level: SensitivityLevel) -> Option<(Seq<char>, Seq<char>)> {
        if level == SensitivityLevel::Public {
            None
        } else {
            match self.clearance_def() {
                None => None,
                Some(c) => if c.order_names().contains(level_slug(level)) {
                    Some((canonical_definition_spec(c.fqn@), level_slug(level)))
                } else {
                    None
                },
            }
        }
    }

    pub fn version(&self) -> (r: &str)
        ensures
            r@ == self.version_view(),
    {
        self.version.as_str()
    }

    pub fn namespace(&self) -> (r: &str)
        ensures
            r@ == self.namespace_view(),
    {
        self.namespace.as_str()
    }

    /// Position of the policy of a category.
    fn policy_index(&self, category: DataCategory) -> (r: Option<usize>)
        requires
            self.wf(),
        ensures
            match r {
                Some(i) => i < self.policies().len() && self.policies()[i as int].category == category
                    && self.policy_spec(category) == self.policies()[i as int],
                None => !self.covers(category),
            },
    {
        let mut i: usize = 0;
        while i < self.labels.len()
            invariant
                i <= self.labels.len(),
                self.wf(),
                self.labels@ == self.policies(),
                forall|j: int| 0 <= j < i ==> (#[trigger] self.policies()[j]).category != category,
            decreases self.labels.len() - i,
        {
            if self.labels[i].category == category {
                proof {
                    assert(self.policies()[i as int].category == category);
                    let k = choose|k: int| 0 <= k < self.policies().len() && (#[trigger] self.policies()[k]).category == category;
                    if k != i {
                        if k < i {
                            assert(self.policies()[k].category != self.policies()[i as int].category);
                        } else {
                            assert(self.policies()[i as int].category != self.policies()[k].category);
                        }
                    }
                }
                return Some(i);
            }
            i = i + 1;
        }
        None
    }

    pub fn policy_for(&self, category: DataCategory) -> (r: Option<&LabelPolicy>)
        requires
            self.wf(),
        ensures
            match r {
                Some(p) => self.covers(category) && *p == self.policy_spec(category) && p.category == category,
                None => !self.covers(category),
            },
    {
        match self.policy_index(category) {
            Some(i) => Some(&self.labels[i]),
            None => None,
        }
    }

    pub fn clearance(&self) -> (r: Option<&ClearanceDefinition>)
        ensures
            match r {
                Some(c) => self.clearance_def() == Some(*c),
                None => self.clearance_def() is None,
            },
    {
        match &self.clearance {
            Some(c) => Some(c),
            None => None,
        }
    }

    /// Conjunctive definitions. A derived artifact unions these.
    pub fn conjunctive_fqns(&self) -> (r: &StrSet)
        ensures
            *r == self.conjunctive(),
    {
        &self.conjunctive_fqns
    }

    /// Provenance-only FQNs. The sentinel never writes these.
    pub fn provenance_fqns(&self) -> (r: &StrSet)
        ensures
            *r == self.provenance(),
    {
        &self.provenance_fqns
    }

    /// Whether a missed provenance join stamps `unknown` (fail closed).
    pub fn missing_provenance_is_unknown(&self) -> (r: bool)
        ensures
            r == self.missing_unknown(),
    {
        self.missing_provenance_unknown
    }

    /// Corpus-organization definitions. Used to slice adapters, never wrap.
    pub fn off_tdf_fqns(&self) -> (r: &StrSet)
        ensures
            *r == self.off_tdf(),
    {
        &self.off_tdf_fqns
    }

    /// The clearance a subject needs for data at `sensitivity`, independent of
    /// any category. Public data needs nothing.
    pub fn clearance_requirement(&self, sensitivity: SensitivityLevel) -> (r: Option<AttributeRequirement>)
        ensures
            match r {
                Some(req) => self.clearance_requirement_spec(sensitivity) == Some(req@),
                None => self.clearance_requirement_spec(sensitivity) is None,
            },
    {
        if sensitivity == SensitivityLevel::Public {
            return None;
        }
        match &self.clearance {
            None => None,
            Some(clearance) => match clearance.value_for(sensitivity) {
                Some(value) => Some(AttributeRequirement::new(clearance.fqn.as_str(), value)),
                None => None,
            },
        }
    }

    /// Every attribute a subject must hold for all of `categories`: the
    /// union, not the maximum, since a `department` grant is orthogonal to
    /// the clearance hierarchy.
    pub fn requirements_for(&self, categories: &[DataCategory]) -> (r: RequirementSet)
        requires
            self.wf(),
        ensures
            r.wf(),
            r.pairs() == self.required_pairs(categories@),
    {
        let mut out = RequirementSet::new();
        let mut i: usize = 0;
        while i < categories.len()
            invariant
                i <= categories.len(),
                self.wf(),
                out.wf(),
                out.pairs() == self.required_pairs(categories@.take(i as int)),
            decreases categories.len() - i,
        {
            assert(categories@.take(i + 1).drop_last() =~= categories@.take(i as int));
            match self.policy_for(categories[i]) {
                Some(p) => add_requirements(&mut out, &p.requires),
                None => {},
            }
            i = i + 1;
        }
        assert(categories@.take(categories.len() as int) =~= categories@);
        out
    }

    /// Attributes to stamp on a TDF policy covering all of `categories`.
    pub fn wrap_attributes_for(&self, categories: &[DataCategory]) -> (r: RequirementSet)
        requires
            self.wf(),
        ensures
            r.wf(),
            r.pairs() == self.wrap_pairs(categories@),
    {
        let mut out = RequirementSet::new();
        let mut i: usize = 0;
        while i < categories.len()
            invariant
                i <= categories.len(),
                self.wf(),
                out.wf(),
                out.pairs() == self.wrap_pairs(categories@.take(i as int)),
            decreases categories.len() - i,
        {
            assert(categories@.take(i + 1).drop_last() =~= categories@.take(i as int));
            match self.policy_for(categories[i]) {
                Some(p) => add_requirements(&mut out, &p.wrap_attributes),
                None => {},
            }
            i = i + 1;
        }
        assert(categories@.take(categories.len() as int) =~= categories@);
        out
    }

    /// Whether any category present must never leave, regardless of entitlement.
    pub fn never_release(&self, categories: &[DataCategory]) -> (r: bool)
        requires
            self.wf(),
        ensures
            r == exists|k: int| 0 <= k < categories@.len() && self.is_never_release(#[trigger] categories@[k]),
    {
        let mut i: usize = 0;
        while i < categories.len()
            invariant
                i <= categories.len(),
                self.wf(),
                forall|k: int| 0 <= k < i ==> !self.is_never_release(#[trigger] categories@[k]),
            decreases categories.len() - i,
        {
            match self.policy_for(categories[i]) {
                Some(p) => {
                    if p.never_release {
                        assert(self.is_never_release(categories@[i as int]));
                        return true;
                    }
                },
                None => {},
            }
            i = i + 1;
        }
        false
    }

    /// Categories that must never leave, for an audit record that has to name them.
    pub fn never_release_categories(&self, categories: &[DataCategory]) -> (r: Vec<DataCategory>)
        requires
            self.wf(),
        ensures
            r@ == self.never_release_filter(categories@),
    {
        let mut out: Vec<DataCategory> = Vec::new();
        let mut i: usize = 0;
        while i < categories.len()
            invariant
                i <= categories.len(),
                self.wf(),
                out@ == self.never_release_filter(categories@.take(i as int)),
            decreases categories.len() - i,
        {
            assert(categories@.take(i + 1).drop_last() =~= categories@.take(i as int));
            match self.policy_for(categories[i]) {
                Some(p) => {
                    if p.never_release {
                        out.push(categories[i]);
                    }
                },
                None => {},
            }
            i = i + 1;
        }
        assert(categories@.take(categories.len() as int) =~= categories@);
        out
    }
}

/// A document whose labels all parse and name distinct categories has no fault.
pub proof fn lemma_no_fault(labels: Seq<RawLabel>)
    requires
        forall|i: int|
            0 <= i < labels.len() ==> category_spec((#[trigger] labels[i]).category@) is Some && sensitivity_spec(
                labels[i].sensitivity@,
            ) is Some,
        forall|i: int, j: int|
            0 <= i < j < labels.len() ==> category_spec((#[trigger] labels[i]).category@) != category_spec(
                (#[trigger] labels[j]).category@,
            ),
    ensures
        first_fault(labels) is None,
    decreases labels.len(),
{
    if labels.len() > 0 {
        let p = labels.drop_last();
        let n = labels.len() - 1;
        assert forall|i: int, j: int| 0 <= i < j < p.len() implies category_spec((#[trigger] p[i]).category@) != category_spec(
            (#[trigger] p[j]).category@,
        ) by {
            assert(p[i] == labels[i] && p[j] == labels[j]);
        }
        assert forall|i: int| 0 <= i < p.len() implies category_spec((#[trigger] p[i]).category@) is Some && sensitivity_spec(
            p[i].sensitivity@,
        ) is Some by {
            assert(p[i] == labels[i]);
        }
        lemma_no_fault(p);
        assert(labels.last() == labels[n]);
        assert(category_spec(labels[n].category@) is Some);
        if exists|q: int| 0 <= q < p.len() && category_spec((#[trigger] p[q]).category@) == category_spec(labels.last().category@) {
            let q = choose|q: int| 0 <= q < p.len() && category_spec((#[trigger] p[q]).category@) == category_spec(labels.last().category@);
            assert(p[q] == labels[q]);
            assert(category_spec(labels[q].category@) != category_spec(labels[n].category@));
        }
    }
}

/// The policy at a position is the policy of its category.
pub proof fn lemma_policy_spec_at(m: TaxonomyMap, i: int)
    requires
        m.wf(),
        0 <= i < m.policies().len(),
    ensures
        m.covers(m.policies()[i].category),
        m.policy_spec(m.policies()[i].category) == m.policies()[i],
{
    let c = m.policies()[i].category;
    assert(m.covers(c));
    let k = choose|k: int| 0 <= k < m.policies().len() && (#[trigger] m.policies()[k]).category == c;
    if k < i {
        assert(m.policies()[k].category != m.policies()[i].category);
    } else if k > i {
        assert(m.policies()[i].category != m.policies()[k].category);
    }
}

/// Sensitivity floor of each category in the embedded v1 map.
pub open spec fn v1_sensitivity(c: DataCategory) -> SensitivityLevel {
    match c {
        DataCategory::Pii => SensitivityLevel::Confidential,
        DataCategory::Credentials => SensitivityLevel::Restricted,
        DataCategory::Financial => SensitivityLevel::Confidential,
        DataCategory::Healthcare => SensitivityLevel::Restricted,
        DataCategory::Internal => SensitivityLevel::Internal,
        DataCategory::Public => SensitivityLevel::Public,
    }
}

/// Requirements (and wrap attributes) of each category in the embedded v1 map.
pub open spec fn v1_requirements(c: DataCategory) -> Seq<(Seq<char>, Seq<char>)> {
    let clearance = canonical_definition_spec("https://attr.arkavo.com/attr/clearance"@);
    let department = canonical_definition_spec("https://attr.arkavo.com/attr/department"@);
    match c {
        DataCategory::Pii => seq![(clearance, "confidential"@)],
        DataCategory::Credentials => seq![(clearance, "restricted"@)],
        DataCategory::Financial => seq![(clearance, "confidential"@), (department, "finance"@)],
        DataCategory::Healthcare => seq![(clearance, "restricted"@)],
        DataCategory::Internal => seq![(clearance, "internal"@)],
        DataCategory::Public => seq![],
    }
}

/// The policy of category `c` in the embedded v1 map.
pub open spec fn v1_policy(p: LabelPolicy, c: DataCategory) -> bool {
    &&& p.category == c
    &&& p.sensitivity == v1_sensitivity(c)
    &&& p.never_release == (c == DataCategory::Credentials)
    &&& req_views(p.requires@) == v1_requirements(c)
    &&& req_views(p.wrap_attributes@) == v1_requirements(c)
}

/// What a v1 label entry for category `c` says.
pub open spec fn v1_label(l: RawLabel, c: DataCategory) -> bool {
    &&& category_spec(l.category@) == Some(c)
    &&& sensitivity_spec(l.sensitivity@) == Some(v1_sensitivity(c))
    &&& l.never_release == (c == DataCategory::Credentials)
    &&& raw_req_views(l.requires@) == v1_requirements(c)
    &&& raw_req_views(l.wrap_attributes@) == v1_requirements(c)
}

fn raw_requirement(fqn: &str, value: &str) -> (r: RawRequirement)
    ensures
        r.fqn@ == fqn@,
        r.value@ == value@,
{
    RawRequirement { fqn: owned(fqn), value: owned(value) }
}

fn clearance_requirements(value: &str) -> (r: Vec<RawRequirement>)
    ensures
        raw_req_views(r@) == seq![(canonical_definition_spec("https://attr.arkavo.com/attr/clearance"@), value@)],
{
    let mut r: Vec<RawRequirement> = Vec::new();
    r.push(raw_requirement("https://attr.arkavo.com/attr/clearance", value));
    assert(raw_req_views(r@) =~= seq![(canonical_definition_spec("https://attr.arkavo.com/attr/clearance"@), value@)]);
    r
}

fn raw_label(name: &str, category: &str, sensitivity: &str, clearance: &str, unentitled: Unentitled, never_release: bool) -> (r: RawLabel)
    ensures
        r.name@ == name@,
        r.category@ == category@,
        r.sensitivity@ == sensitivity@,
        raw_req_views(r.requires@) == seq![(canonical_definition_spec("https://attr.arkavo.com/attr/clearance"@), clearance@)],
        raw_req_views(r.wrap_attributes@) == seq![(canonical_definition_spec("https://attr.arkavo.com/attr/clearance"@), clearance@)],
        r.unentitled == unentitled,
        r.never_release == never_release,
{
    RawLabel {
        name: owned(name),
        category: owned(category),
        sensitivity: owned(sensitivity),
        requires: clearance_requirements(clearance),
        wrap_attributes: clearance_requirements(clearance),
        unentitled,
        never_release,
    }
}

fn raw_definition(fqn: &str, rule: &str, order: Vec<String>, on_tdf: bool) -> (r: RawAttributeDefinition)
    ensures
        r.fqn@ == fqn@,
        r.rule@ == rule@,
        r.order@ == order@,
        r.on_tdf == on_tdf,
{
    RawAttributeDefinition { fqn: owned(fqn), rule: owned(rule), order, on_tdf }
}

/// The spelled-out vocabulary parses to the variants it names.
proof fn lemma_vocabulary()
    ensures
        category_spec("Pii"@) == Some(DataCategory::Pii),
        category_spec("Credentials"@) == Some(DataCategory::Credentials),
        category_spec("Financial"@) == Some(DataCategory::Financial),
        category_spec("Healthcare"@) == Some(DataCategory::Healthcare),
        category_spec("Internal"@) == Some(DataCategory::Internal),
        category_spec("Public"@) == Some(DataCategory::Public),
        sensitivity_spec("Public"@) == Some(SensitivityLevel::Public),
        sensitivity_spec("Internal"@) == Some(SensitivityLevel::Internal),
        sensitivity_spec("Confidential"@) == Some(SensitivityLevel::Confidential),
        sensitivity_spec("Restricted"@) == Some(SensitivityLevel::Restricted),
{
    reveal_strlit("Pii");
    reveal_strlit("Credentials");
    reveal_strlit("Financial");
    reveal_strlit("Healthcare");
    reveal_strlit("Internal");
    reveal_strlit("Public");
    reveal_strlit("Confidential");
    reveal_strlit("Restricted");
    assert("Confidential"@.len() != "Public"@.len() && "Confidential"@.len() != "Internal"@.len());
    assert("Restricted"@.len() != "Public"@.len() && "Restricted"@.len() != "Internal"@.len()
        && "Restricted"@.len() != "Confidential"@.len());
    assert("Credentials"@.len() != "Pii"@.len());
    assert("Financial"@.len() != "Pii"@.len() && "Financial"@.len() != "Credentials"@.len());
    assert("Healthcare"@.len() != "Pii"@.len() && "Healthcare"@.len() != "Credentials"@.len()
        && "Healthcare"@.len() != "Financial"@.len());
    assert("Internal"@.len() != "Pii"@.len() && "Internal"@.len() != "Credentials"@.len()
        && "Internal"@.len() != "Financial"@.len() && "Internal"@.len() != "Healthcare"@.len());
    assert("Public"@.len() != "Pii"@.len() && "Public"@.len() != "Credentials"@.len()
        && "Public"@.len() != "Financial"@.len() && "Public"@.len() != "Healthcare"@.len()
        && "Public"@.len() != "Internal"@.len());
}

/// The v1 label entry of a category.
fn v1_raw_label(c: DataCategory) -> (l: RawLabel)
    ensures
        v1_label(l, c),
{
    proof {
        lemma_vocabulary();
    }
    match c {
        DataCategory::Pii => {
            let l = raw_label("pii", "Pii", "Confidential", "confidential", Unentitled::Redact, false);
            assert(v1_requirements(DataCategory::Pii) =~= seq![(canonical_definition_spec("https://attr.arkavo.com/attr/clearance"@), "confidential"@)]);
            assert(raw_req_views(l.requires@) == v1_requirements(DataCategory::Pii));
            assert(v1_label(l, DataCategory::Pii));
            l
        },
        DataCategory::Credentials => {
            let l = raw_label("credentials", "Credentials", "Restricted", "restricted", Unentitled::Block, true);
            assert(v1_requirements(DataCategory::Credentials) =~= seq![(canonical_definition_spec("https://attr.arkavo.com/attr/clearance"@), "restricted"@)]);
            assert(v1_label(l, DataCategory::Credentials));
            l
        },
        DataCategory::Financial => {
            let mut l = raw_label("financial", "Financial", "Confidential", "confidential", Unentitled::Block, false);
            let ghost clearance_view = (canonical_definition_spec("https://attr.arkavo.com/attr/clearance"@), "confidential"@);
            let ghost department_view = (canonical_definition_spec("https://attr.arkavo.com/attr/department"@), "finance"@);
            let ghost reqs0 = l.requires@;
            let ghost wraps0 = l.wrap_attributes@;
            l.requires.push(raw_requirement("https://attr.arkavo.com/attr/department", "finance"));
            l.wrap_attributes.push(raw_requirement("https://attr.arkavo.com/attr/department", "finance"));
            assert(raw_req_views(l.requires@) =~= raw_req_views(reqs0).push(department_view));
            assert(raw_req_views(l.wrap_attributes@) =~= raw_req_views(wraps0).push(department_view));
            assert(v1_requirements(DataCategory::Financial) =~= seq![clearance_view, department_view]);
            assert(raw_req_views(l.requires@) =~= seq![clearance_view, department_view]);
            assert(raw_req_views(l.wrap_attributes@) =~= seq![clearance_view, department_view]);
            assert(v1_label(l, DataCategory::Financial));
            l
        },
        DataCategory::Healthcare => {
            let l = raw_label("healthcare", "Healthcare", "Restricted", "restricted", Unentitled::Block, false);
            assert(v1_requirements(DataCategory::Healthcare) =~= seq![(canonical_definition_spec("https://attr.arkavo.com/attr/clearance"@), "restricted"@)]);
            assert(v1_label(l, DataCategory::Healthcare));
            l
        },
        DataCategory::Internal => {
            let l = raw_label("internal", "Internal", "Internal", "internal", Unentitled::Redact, false);
            assert(v1_requirements(DataCategory::Internal) =~= seq![(canonical_definition_spec("https://attr.arkavo.com/attr/clearance"@), "internal"@)]);
            assert(v1_label(l, DataCategory::Internal));
            l
        },
        DataCategory::Public => {
            let mut l = raw_label("public", "Public", "Public", "public", Unentitled::Redact, false);
            l.requires = Vec::new();
            l.wrap_attributes = Vec::new();
            assert(raw_req_views(l.requires@) =~= Seq::<(Seq<char>, Seq<char>)>::empty());
            assert(raw_req_views(l.wrap_attributes@) =~= Seq::<(Seq<char>, Seq<char>)>::empty());
            assert(v1_label(l, DataCategory::Public));
            l
        },
    }
}

/// The embedded v1 map document.
fn v1_document() -> (d: TaxonomyDocument)
    ensures
        d.version@ == "1.0.0"@,
        d.namespace@ == "https://attr.arkavo.com/"@,
        d.labels@.len() == 6,
        forall|i: int| 0 <= i < 6 ==> v1_label(#[trigger] d.labels@[i], all_categories()[i]),
        d.attribute_definitions@.len() == 3,
        d.attribute_definitions@[0].fqn@ == "https://attr.arkavo.com/attr/clearance"@,
        d.attribute_definitions@[0].rule@ == "hierarchy"@,
        string_views(d.attribute_definitions@[0].order@) == seq!["public"@, "internal"@, "confidential"@, "restricted"@],
        d.attribute_definitions@[0].on_tdf,
        d.attribute_definitions@[1].fqn@ == "https://attr.arkavo.com/attr/department"@,
        d.attribute_definitions@[1].rule@ == "allOf"@,
        d.attribute_definitions@[1].on_tdf,
        d.attribute_definitions@[2].fqn@ == "https://attr.arkavo.com/attr/project"@,
        d.attribute_definitions@[2].rule@ == "allOf"@,
        !d.attribute_definitions@[2].on_tdf,
        d.provenance_attributes@.len() == 0,
        d.missing_provenance@ == ""@,
{
    let mut labels: Vec<RawLabel> = Vec::new();
    labels.push(v1_raw_label(DataCategory::Pii));
    labels.push(v1_raw_label(DataCategory::Credentials));
    labels.push(v1_raw_label(DataCategory::Financial));
    labels.push(v1_raw_label(DataCategory::Healthcare));
    labels.push(v1_raw_label(DataCategory::Internal));
    labels.push(v1_raw_label(DataCategory::Public));
    assert forall|i: int| 0 <= i < 6 implies v1_label(#[trigger] labels@[i], all_categories()[i]) by {
        if i == 0 {
        } else if i == 1 {
        } else if i == 2 {
        } else if i == 3 {
        } else if i == 4 {
        } else {
        }
    }
    let mut order: Vec<String> = Vec::new();
    order.push(owned("public"));
    order.push(owned("internal"));
    order.push(owned("confidential"));
    order.push(owned("restricted"));
    assert(string_views(order@) =~= seq!["public"@, "internal"@, "confidential"@, "restricted"@]);
    let mut definitions: Vec<RawAttributeDefinition> = Vec::new();
    definitions.push(raw_definition("https://attr.arkavo.com/attr/clearance", "hierarchy", order, true));
    definitions.push(raw_definition("https://attr.arkavo.com/attr/department", "allOf", Vec::new(), true));
    definitions.push(raw_definition("https://attr.arkavo.com/attr/project", "allOf", Vec::new(), false));
    TaxonomyDocument {
        version: owned("1.0.0"),
        namespace: owned("https://attr.arkavo.com/"),
        attribute_definitions: definitions,
        labels,
        provenance_attributes: Vec::new(),
        missing_provenance: owned(""),
    }
}

/// Position of a category in declaration order.
pub open spec fn category_index(c: DataCategory) -> int {
    match c {
        DataCategory::Pii => 0,
        DataCategory::Credentials => 1,
        DataCategory::Financial => 2,
        DataCategory::Healthcare => 3,
        DataCategory::Internal => 4,
        DataCategory::Public => 5,
    }
}

proof fn lemma_category_index()
    ensures
        forall|i: int| 0 <= i < 6 ==> category_index(#[trigger] all_categories()[i]) == i,
        forall|c: DataCategory| all_categories()[#[trigger] category_index(c)] == c,
{
    assert forall|i: int| 0 <= i < 6 implies category_index(#[trigger] all_categories()[i]) == i by {
        if i == 0 {
        } else if i == 1 {
        } else if i == 2 {
        } else if i == 3 {
        } else if i == 4 {
        } else {
        }
    }
}

/// What the definitions of the v1 document load to.
proof fn lemma_v1_definitions(defs: Seq<RawAttributeDefinition>)
    requires
        defs.len() == 3,
        defs[0].fqn@ == "https://attr.arkavo.com/attr/clearance"@,
        defs[0].rule@ == "hierarchy"@,
        defs[0].order@.len() > 0,
        defs[0].on_tdf,
        defs[1].fqn@ == "https://attr.arkavo.com/attr/department"@,
        defs[1].rule@ == "allOf"@,
        defs[1].on_tdf,
        defs[2].fqn@ == "https://attr.arkavo.com/attr/project"@,
        defs[2].rule@ == "allOf"@,
        !defs[2].on_tdf,
    ensures
        first_hierarchy(defs) == Some(0int),
        conjunctive_spec(defs) == set![
            canonical_definition_spec("https://attr.arkavo.com/attr/department"@),
            canonical_definition_spec("https://attr.arkavo.com/attr/project"@),
        ],
        off_tdf_spec(defs) == set![canonical_definition_spec("https://attr.arkavo.com/attr/project"@)],
{
    reveal_strlit("hierarchy");
    reveal_strlit("allOf");
    reveal_strlit("anyOf");
    assert("hierarchy"@.len() != "allOf"@.len() && "hierarchy"@.len() != "anyOf"@.len());
    reveal_with_fuel(first_hierarchy, 4);
    assert(defs.drop_last().drop_last().drop_last().len() == 0);
    assert(defs.drop_last().drop_last().last() == defs[0]);
    let dept = canonical_definition_spec("https://attr.arkavo.com/attr/department"@);
    let project = canonical_definition_spec("https://attr.arkavo.com/attr/project"@);
    assert(conjunctive_spec(defs) =~= set![dept, project]) by {
        assert(conjunctive_spec(defs).contains(canonical_definition_spec(defs[1].fqn@)));
        assert(conjunctive_spec(defs).contains(canonical_definition_spec(defs[2].fqn@)));
        assert forall|f: Seq<char>| conjunctive_spec(defs).contains(f) implies f == dept || f == project by {
            let q = choose|q: int| 0 <= q < defs.len() && (defs[q].rule@ == "allOf"@ || defs[q].rule@ == "anyOf"@)
                && canonical_definition_spec((#[trigger] defs[q]).fqn@) == f;
            assert(q != 0);
        }
    }
    assert(off_tdf_spec(defs) =~= set![project]) by {
        assert(off_tdf_spec(defs).contains(canonical_definition_spec(defs[2].fqn@)));
        assert forall|f: Seq<char>| off_tdf_spec(defs).contains(f) implies f == project by {
            let q = choose|q: int| 0 <= q < defs.len() && !defs[q].on_tdf && canonical_definition_spec((#[trigger] defs[q]).fqn@) == f;
            assert(q == 2);
        }
    }
}

impl TaxonomyMap {
    /// The embedded v1 map.
    pub fn v1() -> (r: TaxonomyMap)
        ensures
            r.wf(),
            r.version_view() == "1.0.0"@,
            r.namespace_view() == "https://attr.arkavo.com/"@,
            forall|c: DataCategory| #[trigger] r.covers(c),
            forall|c: DataCategory| v1_policy(#[trigger] r.policy_spec(c), c),
            r.clearance_def() matches Some(cd) && cd.fqn@ == canonical_definition_spec(
                "https://attr.arkavo.com/attr/clearance"@,
            ) && cd.order_names() == seq!["public"@, "internal"@, "confidential"@, "restricted"@],
            r.conjunctive().set_view() == set![
                canonical_definition_spec("https://attr.arkavo.com/attr/department"@),
                canonical_definition_spec("https://attr.arkavo.com/attr/project"@),
            ],
            r.off_tdf().set_view() == set![canonical_definition_spec("https://attr.arkavo.com/attr/project"@)],
            r.provenance().set_view() == Set::<Seq<char>>::empty(),
            !r.missing_unknown(),
    {
        let doc = v1_document();
        let ghost labels = doc.labels@;
        let ghost defs = doc.attribute_definitions@;
        proof {
            lemma_category_index();
            assert forall|i: int, j: int| 0 <= i < j < labels.len() implies category_spec((#[trigger] labels[i]).category@)
                != category_spec((#[trigger] labels[j]).category@) by {
                assert(v1_label(labels[i], all_categories()[i]));
                assert(v1_label(labels[j], all_categories()[j]));
                assert(category_index(all_categories()[i]) == i);
                assert(category_index(all_categories()[j]) == j);
            }
            assert forall|i: int| 0 <= i < labels.len() implies category_spec((#[trigger] labels[i]).category@) is Some
                && sensitivity_spec(labels[i].sensitivity@) is Some by {
                assert(v1_label(labels[i], all_categories()[i]));
            }
            lemma_no_fault(labels);
            assert(string_views(defs[0].order@).len() == 4);
            lemma_v1_definitions(defs);
            assert(provenance_spec(doc.provenance_attributes@) =~= Set::<Seq<char>>::empty());
        }
        let r = TaxonomyMap::from_document(doc).expect("the embedded v1 map loads");
        proof {
            assert forall|c: DataCategory| #[trigger] r.covers(c) && v1_policy(r.policy_spec(c), c) by {
                let i = category_index(c);
                assert(all_categories()[i] == c);
                assert(v1_label(labels[i], c));
                assert(policy_matches(r.policies()[i], labels[i]));
                lemma_policy_spec_at(r, i);
            }
            assert forall|c: DataCategory| v1_policy(#[trigger] r.policy_spec(c), c) by {
                assert(r.covers(c));
            }
        }
        r
    }
}

/// Requirements for a concatenation of category lists are the union of the
/// requirements for each list: no requirement dominates another.
pub proof fn lemma_requirements_union(m: TaxonomyMap, a: Seq<DataCategory>, b: Seq<DataCategory>)
    ensures
        m.required_pairs(a + b) == m.required_pairs(a).union(m.required_pairs(b)),
    decreases b.len(),
{
    if b.len() == 0 {
        assert(a + b =~= a);
        assert(m.required_pairs(a).union(Set::empty()) =~= m.required_pairs(a));
    } else {
        lemma_requirements_union(m, a, b.drop_last());
        assert((a + b).drop_last() =~= a + b.drop_last());
        assert((a + b).last() == b.last());
        assert(m.required_pairs(a + b) =~= m.required_pairs(a).union(m.required_pairs(b)));
    }
}

/// Each category's own requirements are all among the requirements of any
/// list that contains it.
pub proof fn lemma_category_requirements_kept(m: TaxonomyMap, cats: Seq<DataCategory>, k: int)
    requires
        0 <= k < cats.len(),
        m.covers(cats[k]),
    ensures
        req_set(m.policy_spec(cats[k]).requires@).subset_of(m.required_pairs(cats)),
{
    let c = cats[k];
    let front = cats.take(k);
    let back = cats.skip(k + 1);
    assert(cats =~= front.push(c) + back);
    lemma_requirements_union(m, front.push(c), back);
    assert(front.push(c).drop_last() =~= front);
}

/// `never_release` answers whether `never_release_categories` names anything.
pub proof fn lemma_never_release_names_a_category(m: TaxonomyMap, cats: Seq<DataCategory>)
    ensures
        (exists|k: int| 0 <= k < cats.len() && m.is_never_release(#[trigger] cats[k])) <==> m.never_release_filter(cats).len() > 0,
    decreases cats.len(),
{
    if cats.len() > 0 {
        let p = cats.drop_last();
        lemma_never_release_names_a_category(m, p);
        if exists|k: int| 0 <= k < p.len() && m.is_never_release(#[trigger] p[k]) {
            let k = choose|k: int| 0 <= k < p.len() && m.is_never_release(#[trigger] p[k]);
            assert(cats[k] == p[k]);
        }
        if exists|k: int| 0 <= k < cats.len() && m.is_never_release(#[trigger] cats[k]) {
            let k = choose|k: int| 0 <= k < cats.len() && m.is_never_release(#[trigger] cats[k]);
            if k < p.len() {
                assert(cats[k] == p[k]);
            }
        }
    }
}

} // verus!
