//! Ledger projection of taint sets.
//!
//! The ledger stores taint as plain strings. Names are spelled out rather than
//! derived from the variant names, so renaming a variant cannot rewrite what
//! past ledger entries meant.

use vstd::prelude::*;

use crate::data_classification::{all_categories, level_of_rank, CategorySet, DataCategory, SensitivityLevel};
use crate::strings::owned;
use crate::taint::{
    sat_add, set_categories, set_rank, transformation_name, LabelView, TaintSet, Transformation,
};

verus! {

/// Taint as the ledger records it.
#[derive(Debug, Clone, PartialEq, Eq)]
pub struct TaintRecord {
    pub sensitivity: String,
    pub categories: Vec<String>,
    pub sources: Vec<String>,
    /// One `source|transformation|detail` entry per hop, label by label.
    pub provenance: Vec<String>,
    pub truncated_hops: u32,
}

pub open spec fn sensitivity_name_spec(level: SensitivityLevel) -> Seq<char> {
    match level {
        SensitivityLevel::Public => "public"@,
        SensitivityLevel::Internal => "internal"@,
        SensitivityLevel::Confidential => "confidential"@,
        SensitivityLevel::Restricted => "restricted"@,
    }
}

pub open spec fn category_name_spec(category: DataCategory) -> Seq<char> {
    match category {
        DataCategory::Pii => "pii"@,
        DataCategory::Credentials => "credentials"@,
        DataCategory::Financial => "financial"@,
        DataCategory::Healthcare => "healthcare"@,
        DataCategory::Internal => "internal"@,
        DataCategory::Public => "public"@,
    }
}

/// The ledger name of a sensitivity level.
pub fn sensitivity_name(level: SensitivityLevel) -> (s: &'static str)
    ensures
        s@ == sensitivity_name_spec(level),
{
    match level {
        SensitivityLevel::Public => "public",
        SensitivityLevel::Internal => "internal",
        SensitivityLevel::Confidential => "confidential",
        SensitivityLevel::Restricted => "restricted",
    }
}

/// The ledger name of a category.
pub fn category_name(category: DataCategory) -> (s: &'static str)
    ensures
        s@ == category_name_spec(category),
{
    match category {
        DataCategory::Pii => "pii",
        DataCategory::Credentials => "credentials",
        DataCategory::Financial => "financial",
        DataCategory::Healthcare => "healthcare",
        DataCategory::Internal => "internal",
        DataCategory::Public => "public",
    }
}

/// The ledger entry of one hop of a label.
pub open spec fn hop_entry(source_id: Seq<char>, hop: (Transformation, Seq<char>)) -> Seq<char> {
    source_id + "|"@ + transformation_name(hop.0) + "|"@ + hop.1
}

pub open spec fn label_provenance(l: LabelView) -> Seq<Seq<char>> {
    l.hops.map_values(|h: (Transformation, Seq<char>)| hop_entry(l.source_id, h))
}

/// Every hop of every label, label by label.
pub open spec fn provenance_spec(s: Seq<LabelView>) -> Seq<Seq<char>>
    decreases s.len(),
{
    if s.len() == 0 {
        Seq::empty()
    } else {
        provenance_spec(s.drop_last()) + label_provenance(s.last())
    }
}

/// Sum of truncated hops, saturating.
pub open spec fn truncated_spec(s: Seq<LabelView>) -> u32
    decreases s.len(),
{
    if s.len() == 0 {
        0
    } else {
        sat_add(truncated_spec(s.drop_last()), s.last().truncated_hops)
    }
}

/// Names of the categories of a set, in category order.
pub open spec fn category_names(cats: Set<DataCategory>) -> Seq<Seq<char>> {
    all_categories().filter(|c: DataCategory| cats.contains(c)).map_values(
        |c: DataCategory| category_name_spec(c),
    )
}

impl TaintRecord {
    /// The ledger projection of a taint set.
    pub fn from_taint_set(set: &TaintSet) -> (r: TaintRecord)
        ensures
            r.sensitivity@ == sensitivity_name_spec(level_of_rank(set_rank(set@))),
            r.categories@.map_values(|s: String| s@) == category_names(set_categories(set@)),
            r.sources@.map_values(|s: String| s@) == set@.map_values(|l: LabelView| l.source_id),
            r.provenance@.map_values(|s: String| s@) == provenance_spec(set@),
            r.truncated_hops == truncated_spec(set@),
    {
        let labels = set.labels();
        let mut provenance: Vec<String> = Vec::new();
        let mut truncated_hops: u32 = 0;
        let mut i: usize = 0;
        while i < labels.len()
            invariant
                i <= labels.len(),
                crate::taint::label_views(labels@) == set@,
                provenance@.map_values(|s: String| s@) == provenance_spec(set@.take(i as int)),
                truncated_hops == truncated_spec(set@.take(i as int)),
            decreases labels.len() - i,
        {
            let label = &labels[i];
            let ghost lv = label@;
            assert(set@[i as int] == lv);
            assert(set@.take(i + 1).drop_last() =~= set@.take(i as int));
            truncated_hops = truncated_hops.saturating_add(label.truncated_hops);
            let ghost base = provenance@.map_values(|s: String| s@);
            let mut j: usize = 0;
            while j < label.hops.len()
                invariant
                    j <= label.hops.len(),
                    lv == label@,
                    provenance@.map_values(|s: String| s@) == base + label_provenance(lv).take(
                        j as int,
                    ),
                decreases label.hops.len() - j,
            {
                let hop = &label.hops[j];
                let s = owned(label.source_id.as_str());
                let s = s.concat("|");
                let s = s.concat(hop.transformation.as_str());
                let s = s.concat("|");
                let s = s.concat(hop.detail.as_str());
                let ghost before = provenance@;
                proof {
                    assert(lv.hops[j as int] == hop@);
                    assert(label_provenance(lv)[j as int] == hop_entry(lv.source_id, hop@));
                }
                provenance.push(s);
                assert(provenance@.map_values(|s: String| s@) =~= before.map_values(|s: String| s@).push(
                    hop_entry(lv.source_id, hop@),
                ));
                assert(label_provenance(lv).take(j + 1) =~= label_provenance(lv).take(j as int).push(
                    label_provenance(lv)[j as int],
                ));
                j = j + 1;
            }
            assert(label_provenance(lv).take(label.hops.len() as int) =~= label_provenance(lv));
            i = i + 1;
        }
        assert(set@.take(labels.len() as int) =~= set@);
        let cats: CategorySet = set.categories();
        let cat_list = cats.to_vec();
        let mut categories: Vec<String> = Vec::new();
        let mut k: usize = 0;
        while k < cat_list.len()
            invariant
                k <= cat_list.len(),
                categories@.map_values(|s: String| s@) == cat_list@.take(k as int).map_values(
                    |c: DataCategory| category_name_spec(c),
                ),
            decreases cat_list.len() - k,
        {
            let ghost before = categories@;
            categories.push(owned(category_name(cat_list[k])));
            assert(categories@.map_values(|s: String| s@) =~= before.map_values(|s: String| s@).push(
                category_name_spec(cat_list@[k as int]),
            ));
            assert(cat_list@.take(k + 1) =~= cat_list@.take(k as int).push(cat_list@[k as int]));
            assert(cat_list@.take(k + 1).map_values(|c: DataCategory| category_name_spec(c))
                =~= cat_list@.take(k as int).map_values(|c: DataCategory| category_name_spec(c)).push(
                category_name_spec(cat_list@[k as int]),
            ));
            k = k + 1;
        }
        assert(cat_list@.take(cat_list.len() as int) =~= cat_list@);
        assert(all_categories().filter(|c: DataCategory| cats.has(c)) =~= all_categories().filter(
            |c: DataCategory| set_categories(set@).contains(c),
        )) by {
            assert((|c: DataCategory| cats.has(c)) =~= (|c: DataCategory|
                set_categories(set@).contains(c)));
        }
        let sources = set.source_ids();
        assert(sources@.map_values(|s: String| s@) =~= set@.map_values(|l: LabelView| l.source_id));
        TaintRecord {
            sensitivity: owned(sensitivity_name(set.sensitivity())),
            categories,
            sources,
            provenance,
            truncated_hops,
        }
    }
}

} // verus!
