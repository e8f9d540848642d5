//! Lattice join of input policies onto a derived artifact.
//!
//! A fine-tuned adapter is a lossy copy of its training corpus. Whatever
//! entitlement is required to read the corpus must be required to unwrap the
//! weights, or the weights become the side channel. The rule is the join at
//! wrap:
//!
//! - hierarchical definitions take the **maximum** (existing high-water mark);
//! - conjunctive definitions take the **union**;
//! - provenance attributes are stamped only from asserted facets.
//!
//! A tenant that has not bound a provenance facet simply never asserts it, and
//! the attribute is omitted. That is opt-out, not a second code path.

use vstd::prelude::*;

use crate::data_classification::{max_level, SensitivityLevel};
use crate::string_set::{string_views, AttrMap, StrSet};
use crate::strings::{chars_vec, owned, string_of, trim, trim_end_char_bound, trim_end_char_spec, trim_spec};
use crate::taxonomy::{canonical_definition_spec, AttributeRequirement, RequirementSet, TaxonomyMap};

verus! {

/// Value stamped when a provenance join misses. Entitled to nobody by default.
pub const UNKNOWN_VALUE: &'static str = "unknown";

pub open spec fn is_ascii_alnum(c: char) -> bool {
    ('0' <= c && c <= '9') || ('a' <= c && c <= 'z') || ('A' <= c && c <= 'Z')
}

pub open spec fn ascii_lower(c: char) -> char {
    if 'A' <= c && c <= 'Z' {
        ((c as u32) + 32) as char
    } else {
        c
    }
}

/// Left-to-right scan of a value: ASCII alphanumerics lowercased, every run
/// of other characters after the first kept character becomes one dash.
/// Returns the text so far and whether it ends in such a dash.
pub open spec fn slug_scan(s: Seq<char>) -> (Seq<char>, bool)
    decreases s.len(),
{
    if s.len() == 0 {
        (Seq::empty(), false)
    } else {
        let (out, dash) = slug_scan(s.drop_last());
        let c = s.last();
        if is_ascii_alnum(c) {
            (out.push(ascii_lower(c)), false)
        } else if !dash && out.len() > 0 {
            (out.push('-'), true)
        } else {
            (out, dash)
        }
    }
}

/// Attribute value of a collection name: the scan without its trailing dash
/// (it never starts with one), or `unknown` when nothing is left.
pub open spec fn slug_spec(s: Seq<char>) -> Seq<char> {
    let t = trim_end_char_spec(slug_scan(s).0, '-');
    if t.len() == 0 {
        "unknown"@
    } else {
        t
    }
}

/// A scan never starts with a dash.
pub proof fn lemma_slug_scan_starts_alnum(s: Seq<char>)
    ensures
        slug_scan(s).0.len() > 0 ==> slug_scan(s).0[0] != '-',
        slug_scan(s).1 ==> slug_scan(s).0.len() > 0 && slug_scan(s).0.last() == '-',
    decreases s.len(),
{
    if s.len() > 0 {
        lemma_slug_scan_starts_alnum(s.drop_last());
    }
}

fn char_is_ascii_alnum(c: char) -> (r: bool)
    ensures
        r == is_ascii_alnum(c),
{
    ('0' <= c && c <= '9') || ('a' <= c && c <= 'z') || ('A' <= c && c <= 'Z')
}

fn char_ascii_lower(c: char) -> (r: char)
    ensures
        r == ascii_lower(c),
{
    if 'A' <= c && c <= 'Z' {
        let x: u8 = (c as u8) + 32;
        x as char
    } else {
        c
    }
}

/// Attribute value of a collection name (`"Endo Documents"` → `endo-documents`).
fn slug(value: &str) -> (r: String)
    ensures
        r@ == slug_spec(value@),
{
    let v = chars_vec(value);
    let mut out: Vec<char> = Vec::new();
    let mut dash = false;
    let mut i: usize = 0;
    while i < v.len()
        invariant
            i <= v.len(),
            v@ == value@,
            slug_scan(v@.take(i as int)) == (out@, dash),
        decreases v.len() - i,
    {
        let c = v[i];
        assert(v@.take(i + 1).drop_last() =~= v@.take(i as int));
        assert(v@.take(i + 1).last() == c);
        if char_is_ascii_alnum(c) {
            out.push(char_ascii_lower(c));
            dash = false;
        } else if !dash && out.len() > 0 {
            out.push('-');
            dash = true;
        }
        i = i + 1;
    }
    assert(v@.take(v.len() as int) =~= v@);
    assert(out@.subrange(0, out@.len() as int) =~= out@);
    let b = trim_end_char_bound(out.as_slice(), 0, out.len(), '-');
    if b == 0 {
        proof {
            reveal_strlit("unknown");
        }
        owned(UNKNOWN_VALUE)
    } else {
        string_of(out.as_slice(), 0, b)
    }
}

/// What a provenance facet stamps: the slug of an asserted value that is not
/// blank; otherwise `unknown` for a provenance attribute of a map that fails
/// closed; otherwise nothing.
pub open spec fn stamp_spec(map: TaxonomyMap, fqn: Seq<char>, asserted: Option<Seq<char>>) -> Option<Seq<char>> {
    if asserted is Some && trim_spec(asserted->0).len() > 0 {
        Some(slug_spec(trim_spec(asserted->0)))
    } else if map.provenance().set_view().contains(fqn) && map.missing_unknown() {
        Some("unknown"@)
    } else {
        None
    }
}

fn stamp_value(map: &TaxonomyMap, fqn: &str, asserted: Option<&str>) -> (r: Option<String>)
    requires
        map.wf(),
    ensures
        match r {
            Some(s) => stamp_spec(*map, fqn@, match asserted {
                Some(a) => Some(a@),
                None => None,
            }) == Some(s@),
            None => stamp_spec(*map, fqn@, match asserted {
                Some(a) => Some(a@),
                None => None,
            }) is None,
        },
{
    match asserted {
        Some(a) => {
            let t = trim(a);
            if t.as_str().unicode_len() > 0 {
                return Some(slug(t.as_str()));
            }
        },
        None => {},
    }
    if map.provenance_fqns().contains(fqn) && map.missing_provenance_is_unknown() {
        proof {
            reveal_strlit("unknown");
        }
        Some(owned(UNKNOWN_VALUE))
    } else {
        None
    }
}

/// The policy a document or a derived artifact carries at wrap.
#[derive(Debug, Clone, PartialEq, Eq)]
pub struct PolicySet {
    pub clearance: SensitivityLevel,
    /// Conjunctive attribute FQN to values. Hierarchical clearance lives in
    /// `clearance` so a join cannot union `internal` with `restricted` and
    /// demand both.
    pub attributes: AttrMap,
}

pub open spec fn facet_views(facets: Seq<(String, String)>) -> Seq<(Seq<char>, Seq<char>)> {
    facets.map_values(|f: (String, String)| (f.0@, f.1@))
}

/// Whether some facet names `fqn`.
pub open spec fn has_facet(facets: Seq<(Seq<char>, Seq<char>)>, fqn: Seq<char>) -> bool {
    exists|i: int| 0 <= i < facets.len() && (#[trigger] facets[i]).0 == fqn
}

/// What the facets naming `fqn` stamp.
pub open spec fn asserted_values(map: TaxonomyMap, facets: Seq<(Seq<char>, Seq<char>)>, fqn: Seq<char>) -> Set<Seq<char>> {
    Set::new(
        |v: Seq<char>|
            exists|i: int|
                0 <= i < facets.len() && (#[trigger] facets[i]).0 == fqn && stamp_spec(map, fqn, Some(facets[i].1)) == Some(v),
    )
}

/// Whether a provenance attribute among `provenance`, named by no facet, is
/// stamped `unknown`.
pub open spec fn defaulted(map: TaxonomyMap, facets: Seq<(Seq<char>, Seq<char>)>, provenance: Set<Seq<char>>, fqn: Seq<char>) -> bool {
    provenance.contains(fqn) && !has_facet(facets, fqn) && map.missing_unknown()
}

/// Attributes stamped from asserted facets, with the provenance attributes of
/// `provenance` that no facet names.
pub open spec fn stamped_map(map: TaxonomyMap, facets: Seq<(Seq<char>, Seq<char>)>, provenance: Set<Seq<char>>) -> Map<Seq<char>, Set<Seq<char>>> {
    Map::new(
        |k: Seq<char>| asserted_values(map, facets, k) != Set::<Seq<char>>::empty() || defaulted(map, facets, provenance, k),
        |k: Seq<char>|
            if defaulted(map, facets, provenance, k) {
                set!["unknown"@]
            } else {
                asserted_values(map, facets, k)
            },
    )
}

proof fn lemma_asserted_values_step(map: TaxonomyMap, facets: Seq<(Seq<char>, Seq<char>)>, k: Seq<char>)
    requires
        facets.len() > 0,
    ensures
        asserted_values(map, facets, k) == asserted_values(map, facets.drop_last(), k).union(
            if facets.last().0 == k && stamp_spec(map, k, Some(facets.last().1)) is Some {
                set![stamp_spec(map, k, Some(facets.last().1))->0]
            } else {
                Set::empty()
            },
        ),
{
    let p = facets.drop_last();
    let n = facets.len() - 1;
    assert forall|v: Seq<char>| asserted_values(map, facets, k).contains(v) implies asserted_values(map, p, k).union(
        if facets.last().0 == k && stamp_spec(map, k, Some(facets.last().1)) is Some {
            set![stamp_spec(map, k, Some(facets.last().1))->0]
        } else {
            Set::empty()
        },
    ).contains(v) by {
        let i = choose|i: int| 0 <= i < facets.len() && (#[trigger] facets[i]).0 == k && stamp_spec(map, k, Some(facets[i].1)) == Some(v);
        if i < n {
            assert(p[i] == facets[i]);
        }
    }
    assert forall|v: Seq<char>| asserted_values(map, p, k).contains(v) implies asserted_values(map, facets, k).contains(v) by {
        let i = choose|i: int| 0 <= i < p.len() && (#[trigger] p[i]).0 == k && stamp_spec(map, k, Some(p[i].1)) == Some(v);
        assert(facets[i] == p[i]);
    }
    if facets.last().0 == k && stamp_spec(map, k, Some(facets.last().1)) is Some {
        assert(facets[n] == facets.last());
    }
    assert(asserted_values(map, facets, k) =~= asserted_values(map, p, k).union(
        if facets.last().0 == k && stamp_spec(map, k, Some(facets.last().1)) is Some {
            set![stamp_spec(map, k, Some(facets.last().1))->0]
        } else {
            Set::empty()
        },
    ));
}

impl PolicySet {
    pub open spec fn wf(&self) -> bool {
        self.attributes.wf()
    }

    /// Policy for one corpus item from a sensitivity floor and asserted facets.
    ///
    /// `facets` are (fqn, value) pairs the connector vouches for. The sentinel
    /// does not belong in this list: provenance attributes ignore inferred
    /// labels by construction.
    pub fn from_asserted(map: &TaxonomyMap, clearance: SensitivityLevel, facets: Vec<(String, String)>) -> (r: PolicySet)
        requires
            map.wf(),
        ensures
            r.wf(),
            r.clearance == clearance,
            r.attributes.map_view() == stamped_map(*map, facet_views(facets@), map.provenance().set_view()),
    {
        let ghost fv = facet_views(facets@);
        let mut attributes = AttrMap::new();
        let mut seen = StrSet::new();
        proof {
            assert forall|k: Seq<char>| #[trigger] asserted_values(*map, fv.take(0), k) =~= Set::<Seq<char>>::empty() by {}
            assert(attributes.map_view() =~= stamped_map(*map, fv.take(0), Set::empty()));
        }
        let mut i: usize = 0;
        while i < facets.len()
            invariant
                i <= facets.len(),
                map.wf(),
                fv == facet_views(facets@),
                attributes.wf(),
                seen.wf(),
                attributes.map_view() == stamped_map(*map, fv.take(i as int), Set::empty()),
                forall|k: Seq<char>| seen.set_view().contains(k) <==> has_facet(fv.take(i as int), k),
            decreases facets.len() - i,
        {
            let fqn = &facets[i].0;
            let value = &facets[i].1;
            let ghost prev = fv.take(i as int);
            let ghost next = fv.take(i + 1);
            let ghost before = attributes.map_view();
            proof {
                assert(next.drop_last() =~= prev);
                assert(next.last() == (fqn@, value@));
            }
            seen.insert(fqn.clone());
            let stamped = stamp_value(map, fqn.as_str(), Some(value.as_str()));
            match stamped {
                Some(v) => {
                    attributes.insert_value(fqn.clone(), v);
                },
                None => {},
            }
            proof {
                assert forall|k: Seq<char>| seen.set_view().contains(k) <==> has_facet(next, k) by {
                    if has_facet(prev, k) {
                        let q = choose|q: int| 0 <= q < prev.len() && (#[trigger] prev[q]).0 == k;
                        assert(next[q] == prev[q]);
                    }
                    if has_facet(next, k) {
                        let q = choose|q: int| 0 <= q < next.len() && (#[trigger] next[q]).0 == k;
                        if q < i {
                            assert(prev[q] == next[q]);
                        }
                    }
                    if k == fqn@ {
                        assert(next[i as int].0 == k);
                    }
                }
                assert forall|k: Seq<char>| #[trigger] asserted_values(*map, next, k) == asserted_values(*map, prev, k).union(
                    if next.last().0 == k && stamp_spec(*map, k, Some(next.last().1)) is Some {
                        set![stamp_spec(*map, k, Some(next.last().1))->0]
                    } else {
                        Set::empty()
                    },
                ) by {
                    lemma_asserted_values_step(*map, next, k);
                }
                assert(attributes.map_view() =~= stamped_map(*map, next, Set::empty())) by {
                    assert forall|k: Seq<char>| #[trigger] attributes.map_view().contains_key(k) == stamped_map(*map, next, Set::empty()).dom().contains(k) by {
                        if k == fqn@ {
                            if stamped is Some {
                                assert(asserted_values(*map, next, k).contains(stamped->0@));
                            } else {
                                assert(asserted_values(*map, next, k) =~= asserted_values(*map, prev, k));
                            }
                        } else {
                            assert(asserted_values(*map, next, k) =~= asserted_values(*map, prev, k));
                        }
                    }
                    assert forall|k: Seq<char>| #[trigger] attributes.map_view().contains_key(k) implies attributes.map_view()[k] == stamped_map(*map, next, Set::empty())[k] by {
                        if k != fqn@ {
                            assert(asserted_values(*map, next, k) =~= asserted_values(*map, prev, k));
                        } else {
                            if stamped is Some {
                                if before.contains_key(k) {
                                    assert(asserted_values(*map, next, k) =~= before[k].insert(stamped->0@));
                                } else {
                                    assert(asserted_values(*map, prev, k) =~= Set::<Seq<char>>::empty());
                                    assert(asserted_values(*map, next, k) =~= set![stamped->0@]);
                                }
                            } else {
                                assert(asserted_values(*map, next, k) =~= asserted_values(*map, prev, k));
                            }
                        }
                    }
                }
            }
            i = i + 1;
        }
        assert(fv.take(facets.len() as int) =~= fv);
        let provenance = map.provenance_fqns().items();
        let ghost pv = string_views(provenance@);
        let mut j: usize = 0;
        while j < provenance.len()
            invariant
                j <= provenance.len(),
                map.wf(),
                pv == string_views(provenance@),
                pv == map.provenance().elems(),
                attributes.wf(),
                forall|k: Seq<char>| seen.set_view().contains(k) <==> has_facet(fv, k),
                attributes.map_view() == stamped_map(*map, fv, pv.take(j as int).to_set()),
            decreases provenance.len() - j,
        {
            let fqn = &provenance[j];
            let ghost prev = pv.take(j as int).to_set();
            let ghost next = pv.take(j + 1).to_set();
            let ghost before = attributes.map_view();
            proof {
                assert(pv.take(j + 1) =~= pv.take(j as int).push(fqn@));
                pv.take(j as int).lemma_push_to_set_commute(fqn@);
                assert(next =~= prev.insert(fqn@));
                assert(pv[j as int] == fqn@);
                assert(map.provenance().set_view().contains(fqn@));
                if pv.take(j as int).contains(fqn@) {
                    let q = choose|q: int| 0 <= q < j && pv.take(j as int)[q] == fqn@;
                    crate::string_set::lemma_sorted_distinct(pv, q, j as int);
                }
                assert(!prev.contains(fqn@));
            }
            if !seen.contains(fqn.as_str()) {
                let stamped = stamp_value(map, fqn.as_str(), None);
                match stamped {
                    Some(v) => {
                        attributes.insert_value(fqn.clone(), v);
                    },
                    None => {},
                }
            }
            proof {
                assert(attributes.map_view() =~= stamped_map(*map, fv, next)) by {
                    assert forall|k: Seq<char>| #[trigger] attributes.map_view().contains_key(k) == stamped_map(*map, fv, next).dom().contains(k) by {
                        if k == fqn@ && !has_facet(fv, k) {
                            assert(asserted_values(*map, fv, k) =~= Set::<Seq<char>>::empty()) by {
                                if asserted_values(*map, fv, k).len() > 0 {
                                    let v = asserted_values(*map, fv, k).choose();
                                }
                            }
                        }
                    }
                    assert forall|k: Seq<char>| #[trigger] attributes.map_view().contains_key(k) implies attributes.map_view()[k] == stamped_map(*map, fv, next)[k] by {
                        if k == fqn@ && !has_facet(fv, k) {
                            assert(asserted_values(*map, fv, k) =~= Set::<Seq<char>>::empty()) by {
                                if asserted_values(*map, fv, k).len() > 0 {
                                    let v = asserted_values(*map, fv, k).choose();
                                }
                            }
                        }
                    }
                }
            }
            j = j + 1;
        }
        assert(pv.take(provenance.len() as int) =~= pv);
        PolicySet { clearance, attributes }
    }
}

/// The values a map holds for a key, empty when it holds none.
pub open spec fn values_of(m: Map<Seq<char>, Set<Seq<char>>>, k: Seq<char>) -> Set<Seq<char>> {
    if m.contains_key(k) {
        m[k]
    } else {
        Set::empty()
    }
}

/// Pointwise union of two attribute maps.
pub open spec fn union_map(a: Map<Seq<char>, Set<Seq<char>>>, b: Map<Seq<char>, Set<Seq<char>>>) -> Map<Seq<char>, Set<Seq<char>>> {
    Map::new(|k: Seq<char>| a.contains_key(k) || b.contains_key(k), |k: Seq<char>| values_of(a, k).union(values_of(b, k)))
}

/// Highest clearance of the inputs (`Public` for none).
pub open spec fn joined_clearance(inputs: Seq<PolicySet>) -> SensitivityLevel
    decreases inputs.len(),
{
    if inputs.len() == 0 {
        SensitivityLevel::Public
    } else {
        max_level(joined_clearance(inputs.drop_last()), inputs.last().clearance)
    }
}

/// Union of the attributes of the inputs.
pub open spec fn joined_attributes(inputs: Seq<PolicySet>) -> Map<Seq<char>, Set<Seq<char>>>
    decreases inputs.len(),
{
    if inputs.len() == 0 {
        Map::empty()
    } else {
        union_map(joined_attributes(inputs.drop_last()), inputs.last().attributes.map_view())
    }
}

pub open spec fn policies_of(inputs: Seq<&PolicySet>) -> Seq<PolicySet> {
    inputs.map_values(|p: &PolicySet| *p)
}

/// The entries of a map before position `e`, as a map.
pub open spec fn prefix_map(m: AttrMap, e: int) -> Map<Seq<char>, Set<Seq<char>>> {
    Map::new(|k: Seq<char>| m.keys().take(e).contains(k), |k: Seq<char>| m.map_view()[k])
}

/// Adds every key and value of `other` to `out`.
fn absorb_attributes(out: &mut AttrMap, other: &AttrMap)
    requires
        old(out).wf(),
        other.wf(),
    ensures
        final(out).wf(),
        final(out).map_view() == union_map(old(out).map_view(), other.map_view()),
{
    let entries = other.entries();
    let ghost ks = other.keys();
    let ghost start = out.map_view();
    proof {
        assert forall|k: Seq<char>| #[trigger] values_of(prefix_map(*other, 0), k) =~= Set::<Seq<char>>::empty() by {}
        assert forall|k: Seq<char>| #[trigger] values_of(start, k).union(Set::<Seq<char>>::empty()) =~= values_of(start, k) by {}
        assert(start =~= union_map(start, prefix_map(*other, 0)));
    }
    let mut e: usize = 0;
    while e < entries.len()
        invariant
            e <= entries.len(),
            entries@ == other.entry_seq(),
            other.wf(),
            ks == other.keys(),
            out.wf(),
            out.map_view() == union_map(start, prefix_map(*other, e as int)),
        decreases entries.len() - e,
    {
        let ghost before = out.map_view();
        let ghost kv = entries@[e as int].0@;
        let ghost cur = ks.take(e as int);
        let ghost nxt = ks.take(e + 1);
        let ghost pm = prefix_map(*other, e as int);
        let ghost pn = prefix_map(*other, e + 1);
        proof {
            crate::string_set::lemma_entry_view(*other, e as int);
            assert(nxt =~= cur.push(kv));
            if cur.contains(kv) {
                let q = choose|q: int| 0 <= q < e && cur[q] == kv;
                crate::string_set::lemma_sorted_distinct(ks, q, e as int);
            }
        }
        out.extend_values(entries[e].0.clone(), &entries[e].1);
        proof {
            assert forall|k: Seq<char>| #[trigger] pn.contains_key(k) == (pm.contains_key(k) || k == kv) by {
                if nxt.contains(k) && k != kv {
                    let q = choose|q: int| 0 <= q < e + 1 && nxt[q] == k;
                    assert(cur[q] == k);
                }
                if cur.contains(k) {
                    let q = choose|q: int| 0 <= q < e && cur[q] == k;
                    assert(nxt[q] == k);
                }
                if k == kv {
                    assert(nxt[e as int] == k);
                }
            }
            assert(out.map_view() =~= union_map(start, pn)) by {
                assert forall|k: Seq<char>| out.map_view().contains_key(k) implies #[trigger] out.map_view()[k] == union_map(start, pn)[k] by {
                    if k == kv {
                        assert(values_of(pn, k) == entries@[e as int].1.set_view());
                        if !pm.contains_key(k) {
                            assert(values_of(pm, k) =~= Set::<Seq<char>>::empty());
                        }
                        assert(out.map_view()[k] =~= union_map(start, pn)[k]);
                    } else {
                        assert(values_of(pn, k) == values_of(pm, k));
                    }
                }
            }
        }
        e = e + 1;
    }
    proof {
        assert(ks.take(entries.len() as int) =~= ks);
        assert(prefix_map(*other, entries.len() as int) =~= other.map_view());
    }
}

impl PolicySet {
    /// Join of every input. Hierarchical: max. Conjunctive: union. An empty
    /// corpus is not public: nobody said, and nobody saying is not
    /// permission, so it joins to `Restricted`.
    pub fn join(map: &TaxonomyMap, inputs: &[&PolicySet]) -> (r: PolicySet)
        requires
            forall|i: int| 0 <= i < inputs@.len() ==> (#[trigger] inputs@[i]).wf(),
        ensures
            r.wf(),
            r.clearance == if inputs@.len() == 0 {
                SensitivityLevel::Restricted
            } else {
                joined_clearance(policies_of(inputs@))
            },
            r.attributes.map_view() == joined_attributes(policies_of(inputs@)),
    {
        let ghost ps = policies_of(inputs@);
        let mut clearance = SensitivityLevel::Public;
        let mut attributes = AttrMap::new();
        assert(attributes.map_view() =~= Map::<Seq<char>, Set<Seq<char>>>::empty());
        let mut i: usize = 0;
        while i < inputs.len()
            invariant
                i <= inputs.len(),
                ps == policies_of(inputs@),
                forall|j: int| 0 <= j < inputs@.len() ==> (#[trigger] inputs@[j]).wf(),
                attributes.wf(),
                clearance == joined_clearance(ps.take(i as int)),
                attributes.map_view() == joined_attributes(ps.take(i as int)),
            decreases inputs.len() - i,
        {
            let input = inputs[i];
            proof {
                assert(ps.take(i + 1).drop_last() =~= ps.take(i as int));
                assert(ps.take(i + 1).last() == *input);
            }
            clearance = clearance.max_with(input.clearance);
            absorb_attributes(&mut attributes, &input.attributes);
            i = i + 1;
        }
        assert(ps.take(inputs.len() as int) =~= ps);
        if inputs.len() == 0 {
            clearance = SensitivityLevel::Restricted;
        }
        PolicySet { clearance, attributes }
    }
}

/// What the clearance of a policy stamps at wrap.
pub open spec fn clearance_pairs(map: TaxonomyMap, level: SensitivityLevel) -> Set<(Seq<char>, Seq<char>)> {
    match map.clearance_requirement_spec(level) {
        Some(p) => set![p],
        None => if level == SensitivityLevel::Public {
            set![(canonical_definition_spec("https://attr.arkavo.com/attr/clearance"@), "public"@)]
        } else {
            Set::empty()
        },
    }
}

/// Requirements stamped from the attributes that may appear on a TDF.
pub open spec fn attribute_pairs(p: PolicySet, map: TaxonomyMap) -> Set<(Seq<char>, Seq<char>)> {
    Set::new(
        |q: (Seq<char>, Seq<char>)|
            exists|k: Seq<char>|
                #![trigger p.attributes.map_view()[k]]
                p.attributes.map_view().contains_key(k) && !map.off_tdf().set_view().contains(k)
                    && canonical_definition_spec(k) == q.0 && p.attributes.map_view()[k].contains(q.1),
    )
}

/// The same, over the entries before position `e`.
pub open spec fn attribute_pairs_upto(p: PolicySet, map: TaxonomyMap, e: int) -> Set<(Seq<char>, Seq<char>)> {
    Set::new(
        |q: (Seq<char>, Seq<char>)|
            exists|x: int|
                0 <= x < e && !map.off_tdf().set_view().contains(p.attributes.keys()[x])
                    && canonical_definition_spec(p.attributes.keys()[x]) == q.0
                    && (#[trigger] p.attributes.entry_seq()[x]).1.set_view().contains(q.1),
    )
}

/// Every requirement a policy stamps at wrap.
pub open spec fn wrap_spec(p: PolicySet, map: TaxonomyMap) -> Set<(Seq<char>, Seq<char>)> {
    clearance_pairs(map, p.clearance).union(attribute_pairs(p, map))
}

/// Platform value FQN of a requirement.
pub open spec fn uri_of(q: (Seq<char>, Seq<char>)) -> Seq<char> {
    crate::taxonomy::canonical_value_spec(q.0, q.1)
}

/// Every URI a policy stamps at wrap.
pub open spec fn uri_set(p: PolicySet, map: TaxonomyMap) -> Set<Seq<char>> {
    wrap_spec(p, map).map(|q: (Seq<char>, Seq<char>)| uri_of(q))
}

impl PolicySet {
    /// Whether any provenance attribute is `unknown`. Those items never enter
    /// a partitioned adapter: wrapping them would demand a value no session holds.
    pub fn blocks_partitioned_adapter(&self, map: &TaxonomyMap) -> (r: bool)
        requires
            self.wf(),
            map.wf(),
        ensures
            r == exists|k: Seq<char>|
                map.provenance().set_view().contains(k) && #[trigger] self.attributes.map_view().contains_key(k)
                    && self.attributes.map_view()[k].contains("unknown"@),
    {
        let provenance = map.provenance_fqns().items();
        let ghost pv = string_views(provenance@);
        let mut j: usize = 0;
        while j < provenance.len()
            invariant
                j <= provenance.len(),
                self.wf(),
                map.wf(),
                pv == string_views(provenance@),
                pv == map.provenance().elems(),
                forall|x: int|
                    0 <= x < j ==> !(#[trigger] self.attributes.map_view().contains_key(pv[x])
                        && self.attributes.map_view()[pv[x]].contains("unknown"@)),
            decreases provenance.len() - j,
        {
            match self.attributes.get(provenance[j].as_str()) {
                Some(values) => {
                    proof {
                        reveal_strlit("unknown");
                    }
                    if values.contains(UNKNOWN_VALUE) {
                        assert(pv[j as int] == provenance@[j as int]@);
                        assert(map.provenance().set_view().contains(pv[j as int]));
                        return true;
                    }
                },
                None => {},
            }
            assert(pv[j as int] == provenance@[j as int]@);
            j = j + 1;
        }
        proof {
            if exists|k: Seq<char>|
                map.provenance().set_view().contains(k) && #[trigger] self.attributes.map_view().contains_key(k)
                    && self.attributes.map_view()[k].contains("unknown"@) {
                let k = choose|k: Seq<char>|
                    map.provenance().set_view().contains(k) && #[trigger] self.attributes.map_view().contains_key(k)
                        && self.attributes.map_view()[k].contains("unknown"@);
                let x = choose|x: int| 0 <= x < pv.len() && pv[x] == k;
                assert(self.attributes.map_view().contains_key(pv[x]));
            }
        }
        false
    }

    /// OpenTDF `dataAttributes` for wrap, including clearance. Attributes the
    /// map keeps off the TDF are left out.
    pub fn wrap_attributes(&self, map: &TaxonomyMap) -> (r: RequirementSet)
        requires
            self.wf(),
            map.wf(),
        ensures
            r.wf(),
            r.pairs() == wrap_spec(*self, *map),
    {
        let mut out = RequirementSet::new();
        match map.clearance_requirement(self.clearance) {
            Some(req) => out.insert(req),
            None => {
                if self.clearance == SensitivityLevel::Public {
                    out.insert(AttributeRequirement::new("https://attr.arkavo.com/attr/clearance", "public"));
                }
            },
        }
        let ghost base = out.pairs();
        assert(base =~= clearance_pairs(*map, self.clearance));
        let entries = self.attributes.entries();
        let off = map.off_tdf_fqns();
        assert(attribute_pairs_upto(*self, *map, 0) =~= Set::<(Seq<char>, Seq<char>)>::empty());
        let mut e: usize = 0;
        while e < entries.len()
            invariant
                e <= entries.len(),
                self.wf(),
                map.wf(),
                *off == map.off_tdf(),
                entries@ == self.attributes.entry_seq(),
                out.wf(),
                out.pairs() == base.union(attribute_pairs_upto(*self, *map, e as int)),
            decreases entries.len() - e,
        {
            let key = &entries[e].0;
            let ghost kv = key@;
            let ghost done = out.pairs();
            proof {
                crate::string_set::lemma_entry_view(self.attributes, e as int);
            }
            if !off.contains(key.as_str()) {
                let items = entries[e].1.items();
                let mut j: usize = 0;
                while j < items.len()
                    invariant
                        j <= items.len(),
                        key@ == kv,
                        out.wf(),
                        string_views(items@) == entries@[e as int].1.elems(),
                        out.pairs() == done.union(
                            Set::new(|q: (Seq<char>, Seq<char>)| q.0 == canonical_definition_spec(kv) && string_views(items@).take(j as int).contains(q.1)),
                        ),
                    decreases items.len() - j,
                {
                    let ghost pre = out.pairs();
                    out.insert(AttributeRequirement::new(key.as_str(), items[j].as_str()));
                    proof {
                        let sv = string_views(items@);
                        assert(sv[j as int] == items@[j as int]@);
                        let t0 = sv.take(j as int);
                        let t1 = sv.take(j + 1);
                        assert(t1 =~= t0.push(sv[j as int]));
                        assert forall|x: Seq<char>| t1.contains(x) <==> (t0.contains(x) || x == sv[j as int]) by {
                            if t1.contains(x) && x != sv[j as int] {
                                let q = choose|q: int| 0 <= q < t1.len() && t1[q] == x;
                                assert(t0[q] == x);
                            }
                            if t0.contains(x) {
                                let q = choose|q: int| 0 <= q < t0.len() && t0[q] == x;
                                assert(t1[q] == x);
                            }
                            if x == sv[j as int] {
                                assert(t1[j as int] == x);
                            }
                        }
                        assert(out.pairs() =~= done.union(
                            Set::new(|q: (Seq<char>, Seq<char>)| q.0 == canonical_definition_spec(kv) && sv.take(j + 1).contains(q.1)),
                        ));
                    }
                    j = j + 1;
                }
                proof {
                    let sv = string_views(items@);
                    assert(sv.take(items.len() as int) =~= sv);
                    assert(out.pairs() =~= base.union(attribute_pairs_upto(*self, *map, e + 1))) by {
                        assert forall|q: (Seq<char>, Seq<char>)| #[trigger] out.pairs().contains(q) implies base.union(attribute_pairs_upto(*self, *map, e + 1)).contains(q) by {
                            if attribute_pairs_upto(*self, *map, e as int).contains(q) {
                                let x = choose|x: int|
                                    0 <= x < e && !map.off_tdf().set_view().contains(self.attributes.keys()[x])
                                        && canonical_definition_spec(self.attributes.keys()[x]) == q.0
                                        && (#[trigger] self.attributes.entry_seq()[x]).1.set_view().contains(q.1);
                            } else if !base.contains(q) {
                                assert(sv.contains(q.1));
                                assert(self.attributes.entry_seq()[e as int].1.set_view().contains(q.1));
                            }
                        }
                        assert forall|q: (Seq<char>, Seq<char>)| #[trigger] attribute_pairs_upto(*self, *map, e + 1).contains(q) implies out.pairs().contains(q) by {
                            let x = choose|x: int|
                                0 <= x < e + 1 && !map.off_tdf().set_view().contains(self.attributes.keys()[x])
                                    && canonical_definition_spec(self.attributes.keys()[x]) == q.0
                                    && (#[trigger] self.attributes.entry_seq()[x]).1.set_view().contains(q.1);
                            if x < e {
                                assert(attribute_pairs_upto(*self, *map, e as int).contains(q));
                            } else {
                                assert(sv.contains(q.1));
                            }
                        }
                    }
                }
            } else {
                proof {
                    assert(out.pairs() =~= base.union(attribute_pairs_upto(*self, *map, e + 1))) by {
                        assert forall|q: (Seq<char>, Seq<char>)| #[trigger] attribute_pairs_upto(*self, *map, e + 1).contains(q) implies attribute_pairs_upto(*self, *map, e as int).contains(q) by {
                            let x = choose|x: int|
                                0 <= x < e + 1 && !map.off_tdf().set_view().contains(self.attributes.keys()[x])
                                    && canonical_definition_spec(self.attributes.keys()[x]) == q.0
                                    && (#[trigger] self.attributes.entry_seq()[x]).1.set_view().contains(q.1);
                            assert(x != e);
                        }
                        assert forall|q: (Seq<char>, Seq<char>)| #[trigger] attribute_pairs_upto(*self, *map, e as int).contains(q) implies attribute_pairs_upto(*self, *map, e + 1).contains(q) by {
                            let x = choose|x: int|
                                0 <= x < e && !map.off_tdf().set_view().contains(self.attributes.keys()[x])
                                    && canonical_definition_spec(self.attributes.keys()[x]) == q.0
                                    && (#[trigger] self.attributes.entry_seq()[x]).1.set_view().contains(q.1);
                        }
                    }
                }
            }
            e = e + 1;
        }
        proof {
            let n = entries.len() as int;
            assert(attribute_pairs_upto(*self, *map, n) =~= attribute_pairs(*self, *map)) by {
                assert forall|q: (Seq<char>, Seq<char>)| #[trigger] attribute_pairs_upto(*self, *map, n).contains(q) implies attribute_pairs(*self, *map).contains(q) by {
                    let x = choose|x: int|
                        0 <= x < n && !map.off_tdf().set_view().contains(self.attributes.keys()[x])
                            && canonical_definition_spec(self.attributes.keys()[x]) == q.0
                            && (#[trigger] self.attributes.entry_seq()[x]).1.set_view().contains(q.1);
                    crate::string_set::lemma_entry_view(self.attributes, x);
                    let k = self.attributes.keys()[x];
                    assert(self.attributes.map_view()[k].contains(q.1));
                }
                assert forall|q: (Seq<char>, Seq<char>)| #[trigger] attribute_pairs(*self, *map).contains(q) implies attribute_pairs_upto(*self, *map, n).contains(q) by {
                    let k = choose|k: Seq<char>|
                        #![trigger self.attributes.map_view()[k]]
                        self.attributes.map_view().contains_key(k) && !map.off_tdf().set_view().contains(k)
                            && canonical_definition_spec(k) == q.0 && self.attributes.map_view()[k].contains(q.1);
                    crate::string_set::lemma_key_entry(self.attributes, k);
                    let x = self.attributes.keys().index_of(k);
                    assert(self.attributes.entry_seq()[x].1.set_view().contains(q.1));
                }
            }
        }
        out
    }

    /// URIs the blob wrapper stamps (`https://attr…/project/teva`): the value
    /// FQN of each wrap requirement.
    pub fn wrap_uris(&self, map: &TaxonomyMap) -> (r: Vec<String>)
        requires
            self.wf(),
            map.wf(),
        ensures
            string_views(r@).to_set() == uri_set(*self, *map),
            exists|reqs: Seq<(Seq<char>, Seq<char>)>|
                #[trigger] reqs.to_set() == wrap_spec(*self, *map) && (forall|a: int, b: int|
                    0 <= a < b < reqs.len() ==> crate::taxonomy::pair_lt(#[trigger] reqs[a], #[trigger] reqs[b]))
                    && string_views(r@) == reqs.map_values(|q: (Seq<char>, Seq<char>)| uri_of(q)),
    {
        let reqs = self.wrap_attributes(map);
        let list = reqs.to_vec();
        let mut r: Vec<String> = Vec::new();
        let mut i: usize = 0;
        while i < list.len()
            invariant
                i <= list.len(),
                r@.len() == i,
                forall|k: int| 0 <= k < i ==> (#[trigger] r@[k])@ == uri_of(list@[k]@),
            decreases list.len() - i,
        {
            r.push(list[i].as_attribute_uri());
            i = i + 1;
        }
        proof {
            let sv = string_views(r@);
            assert forall|u: Seq<char>| sv.to_set().contains(u) <==> uri_set(*self, *map).contains(u) by {
                if sv.to_set().contains(u) {
                    let i = choose|i: int| 0 <= i < sv.len() && sv[i] == u;
                    assert(r@[i]@ == uri_of(list@[i]@));
                    assert(reqs.pairs().contains(list@[i]@));
                }
                if uri_set(*self, *map).contains(u) {
                    let q = choose|q: (Seq<char>, Seq<char>)| wrap_spec(*self, *map).contains(q) && u == uri_of(q);
                    assert(reqs.pairs().contains(q));
                    let i = choose|i: int| 0 <= i < list@.len() && #[trigger] list@[i]@ == q;
                    assert(sv[i] == r@[i]@);
                }
            }
            assert(sv.to_set() =~= uri_set(*self, *map));
            let ps = list@.map_values(|a: AttributeRequirement| a@);
            assert forall|a: int, b: int| 0 <= a < b < ps.len() implies crate::taxonomy::pair_lt(#[trigger] ps[a], #[trigger] ps[b]) by {
                assert(ps[a] == list@[a]@);
                assert(ps[b] == list@[b]@);
            }
            assert forall|q: (Seq<char>, Seq<char>)| ps.to_set().contains(q) <==> wrap_spec(*self, *map).contains(q) by {
                if ps.to_set().contains(q) {
                    let i = choose|i: int| 0 <= i < ps.len() && ps[i] == q;
                    assert(ps[i] == list@[i]@);
                }
                if wrap_spec(*self, *map).contains(q) {
                    assert(reqs.pairs().contains(q));
                    let i = choose|i: int| 0 <= i < list@.len() && #[trigger] list@[i]@ == q;
                    assert(ps[i] == q);
                }
            }
            assert(ps.to_set() =~= wrap_spec(*self, *map));
            assert(sv =~= ps.map_values(|q: (Seq<char>, Seq<char>)| uri_of(q)));
        }
        r
    }
}

/// The join dominates every input: its clearance is at least each input's,
/// it is the clearance of some input, and it keeps every value of every input.
pub proof fn lemma_join_dominates(inputs: Seq<PolicySet>, k: int)
    requires
        0 <= k < inputs.len(),
    ensures
        crate::data_classification::rank(inputs[k].clearance) <= crate::data_classification::rank(joined_clearance(inputs)),
        exists|j: int| 0 <= j < inputs.len() && joined_clearance(inputs) == (#[trigger] inputs[j]).clearance,
        forall|f: Seq<char>|
            #[trigger] inputs[k].attributes.map_view().contains_key(f) ==> joined_attributes(inputs).contains_key(f)
                && inputs[k].attributes.map_view()[f].subset_of(joined_attributes(inputs)[f]),
    decreases inputs.len(),
{
    let p = inputs.drop_last();
    let n = inputs.len() - 1;
    if p.len() > 0 {
        let kk = if k < n { k } else { 0 };
        lemma_join_dominates(p, kk);
        let j = choose|j: int| 0 <= j < p.len() && joined_clearance(p) == (#[trigger] p[j]).clearance;
        assert(inputs[j] == p[j]);
        if k < n {
            assert(p[k] == inputs[k]);
        }
    }
    assert(inputs[n] == inputs.last());
}

/// Joining two policies does not depend on their order.
pub proof fn lemma_join_order_free(a: PolicySet, b: PolicySet)
    ensures
        joined_clearance(seq![a, b]) == joined_clearance(seq![b, a]),
        joined_attributes(seq![a, b]) == joined_attributes(seq![b, a]),
{
    let ab = seq![a, b];
    let ba = seq![b, a];
    assert(ab.drop_last() =~= seq![a]);
    assert(ba.drop_last() =~= seq![b]);
    assert(seq![a].drop_last() =~= Seq::<PolicySet>::empty());
    assert(seq![b].drop_last() =~= Seq::<PolicySet>::empty());
    let e = Map::<Seq<char>, Set<Seq<char>>>::empty();
    assert(joined_clearance(Seq::<PolicySet>::empty()) == SensitivityLevel::Public);
    assert(joined_clearance(seq![a].drop_last()) == SensitivityLevel::Public);
    assert(joined_clearance(seq![b].drop_last()) == SensitivityLevel::Public);
    crate::data_classification::lemma_rank_roundtrip(a.clearance);
    crate::data_classification::lemma_rank_roundtrip(b.clearance);
    assert(joined_clearance(seq![a]) == a.clearance);
    assert(joined_clearance(seq![b]) == b.clearance);
    assert(ab.last() == b && ba.last() == a);
    assert(joined_clearance(ab) == max_level(a.clearance, b.clearance));
    assert(joined_clearance(ba) == max_level(b.clearance, a.clearance));
    assert(joined_attributes(Seq::<PolicySet>::empty()) == e);
    assert(seq![a].last() == a && seq![b].last() == b);
    assert(joined_attributes(seq![a].drop_last()) == e);
    assert(joined_attributes(seq![b].drop_last()) == e);
    assert(joined_attributes(seq![a]) == union_map(e, a.attributes.map_view()));
    assert(joined_attributes(seq![b]) == union_map(e, b.attributes.map_view()));
    assert(joined_attributes(ab) =~= joined_attributes(ba)) by {
        assert forall|f: Seq<char>| joined_attributes(ab).contains_key(f) implies #[trigger] joined_attributes(ab)[f] =~= joined_attributes(ba)[f] by {
            assert(values_of(e, f) =~= Set::<Seq<char>>::empty());
        }
    }
}

} // verus!
