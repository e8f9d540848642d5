//! Taint labels and their monotonic propagation.
//!
//! A [`TaintSet`] says how sensitive a buffer is and where the sensitivity
//! came from. Every operation is monotonic: a union may raise sensitivity or
//! add categories, never the reverse, so a transformation an attacker chooses
//! (encode, extract, summarize) cannot wash a label off the data it carries.

use vstd::prelude::*;

use crate::data_classification::{
    datum_category, datum_sensitivity, level_of_rank, max_level, rank, CategorySet,
    ClassifiedDatum, DataCategory, SensitivityLevel,
};
use crate::strings::{concat3, owned, seq_lt, str_eq, str_lt};

verus! {

/// Provenance chains are attacker-influenced; hops past this are counted, not kept.
pub const MAX_PROVENANCE_HOPS: usize = 64;

/// Distinct sources in one set are bounded; excess labels fold into the
/// aggregate label so the set's sensitivity and categories survive the bound.
pub const MAX_LABELS: usize = 128;

/// Source id of the label that absorbs sources past [`MAX_LABELS`].
pub const AGGREGATE_SOURCE_ID: &'static str = "arkavo:aggregate";

pub open spec fn aggregate_id() -> Seq<char> {
    AGGREGATE_SOURCE_ID@
}

/// Where data entered the agent's context.
#[derive(Debug, Clone, Copy, PartialEq, Eq, Structural, PartialOrd, Ord, Hash)]
pub enum SourceKind {
    UserInput,
    ToolResult,
    FileRead,
    A2aReceive,
    ModelOutput,
    /// Origin could not be determined. Treated conservatively.
    Unknown,
}

pub open spec fn source_kind_name(k: SourceKind) -> Seq<char> {
    match k {
        SourceKind::UserInput => "user"@,
        SourceKind::ToolResult => "tool"@,
        SourceKind::FileRead => "file"@,
        SourceKind::A2aReceive => "a2a"@,
        SourceKind::ModelOutput => "model"@,
        SourceKind::Unknown => "unknown"@,
    }
}

impl SourceKind {
    pub fn as_str(&self) -> (s: &'static str)
        ensures
            s@ == source_kind_name(*self),
    {
        match self {
            SourceKind::UserInput => "user",
            SourceKind::ToolResult => "tool",
            SourceKind::FileRead => "file",
            SourceKind::A2aReceive => "a2a",
            SourceKind::ModelOutput => "model",
            SourceKind::Unknown => "unknown",
        }
    }
}

/// The label key of a source: `<kind>:<id>`.
pub open spec fn source_id_of(kind: SourceKind, id: Seq<char>) -> Seq<char> {
    source_kind_name(kind) + ":"@ + id
}

/// An ingestion point, plus whatever the caller can assert about it.
#[derive(Debug, Clone, PartialEq, Eq)]
pub struct TaintSource {
    pub kind: SourceKind,
    /// Identifier within the kind: a tool name, a path, a peer DID.
    pub id: String,
    /// Sensitivity the caller can vouch for. `None` means unknown.
    pub declared: Option<SensitivityLevel>,
}

impl TaintSource {
    pub fn new(kind: SourceKind, id: &str) -> (s: TaintSource)
        ensures
            s.kind == kind,
            s.id@ == id@,
            s.declared.is_none(),
    {
        TaintSource { kind, id: owned(id), declared: None }
    }

    /// Assert a known sensitivity for this source.
    pub fn declared(self, level: SensitivityLevel) -> (s: TaintSource)
        ensures
            s.kind == self.kind,
            s.id@ == self.id@,
            s.declared == Some(level),
    {
        let mut s = self;
        s.declared = Some(level);
        s
    }

    /// Stable label key; distinct sources never collide.
    pub fn source_id(&self) -> (r: String)
        ensures
            r@ == source_id_of(self.kind, self.id@),
    {
        concat3(self.kind.as_str(), ":", self.id.as_str())
    }
}

/// Two sources share a label key only when they are the same source.
pub proof fn lemma_source_id_injective(k1: SourceKind, id1: Seq<char>, k2: SourceKind, id2: Seq<char>)
    requires
        source_id_of(k1, id1) == source_id_of(k2, id2),
    ensures
        k1 == k2,
        id1 == id2,
{
    reveal_strlit("user");
    reveal_strlit("tool");
    reveal_strlit("file");
    reveal_strlit("a2a");
    reveal_strlit("model");
    reveal_strlit("unknown");
    reveal_strlit(":");
    let s = source_id_of(k1, id1);
    let n1 = source_kind_name(k1);
    let n2 = source_kind_name(k2);
    assert(s[n1.len() as int] == ':');
    assert(s[n2.len() as int] == ':');
    if n1.len() < n2.len() {
        assert(n2[n1.len() as int] != ':');
        assert(false);
    } else if n2.len() < n1.len() {
        assert(n1[n2.len() as int] != ':');
        assert(false);
    } else {
        assert forall|i: int| 0 <= i < n1.len() implies n1[i] == n2[i] by {
            assert(s[i] == n1[i]);
            assert(s[i] == n2[i]);
        }
        assert(n1 =~= n2);
        if k1 != k2 {
            assert(n1 != n2) by {
                if k1 == SourceKind::UserInput || k1 == SourceKind::ToolResult || k1
                    == SourceKind::FileRead {
                    assert(n1[0] != n2[0]);
                }
            }
        }
        let p = n1.len() + 1;
        assert(id1 =~= s.subrange(p as int, s.len() as int));
        assert(id2 =~= s.subrange(p as int, s.len() as int));
    }
}

/// What was done to the data between one label state and the next.
#[derive(Debug, Clone, Copy, PartialEq, Eq, Structural, PartialOrd, Ord, Hash)]
pub enum Transformation {
    Encode,
    Decode,
    Extract,
    Summarize,
    Chunk,
    Merge,
    Inference,
    Other,
}

pub open spec fn transformation_name(t: Transformation) -> Seq<char> {
    match t {
        Transformation::Encode => "encode"@,
        Transformation::Decode => "decode"@,
        Transformation::Extract => "extract"@,
        Transformation::Summarize => "summarize"@,
        Transformation::Chunk => "chunk"@,
        Transformation::Merge => "merge"@,
        Transformation::Inference => "inference"@,
        Transformation::Other => "other"@,
    }
}

impl Transformation {
    pub fn as_str(&self) -> (s: &'static str)
        ensures
            s@ == transformation_name(*self),
    {
        match self {
            Transformation::Encode => "encode",
            Transformation::Decode => "decode",
            Transformation::Extract => "extract",
            Transformation::Summarize => "summarize",
            Transformation::Chunk => "chunk",
            Transformation::Merge => "merge",
            Transformation::Inference => "inference",
            Transformation::Other => "other",
        }
    }
}

/// One step in a provenance chain.
#[derive(Debug, Clone, PartialEq, Eq)]
pub struct ProvenanceHop {
    pub transformation: Transformation,
    /// What performed it: a tool name, a codec, a model id.
    pub detail: String,
}

impl View for ProvenanceHop {
    type V = (Transformation, Seq<char>);

    open spec fn view(&self) -> (Transformation, Seq<char>) {
        (self.transformation, self.detail@)
    }
}

impl ProvenanceHop {
    pub fn new(transformation: Transformation, detail: &str) -> (h: ProvenanceHop)
        ensures
            h@ == (transformation, detail@),
    {
        ProvenanceHop { transformation, detail: owned(detail) }
    }

    /// A copy of this hop.
    pub fn copied(&self) -> (h: ProvenanceHop)
        ensures
            h@ == self@,
    {
        ProvenanceHop { transformation: self.transformation, detail: self.detail.clone() }
    }

    /// Whether two hops record the same step.
    pub fn same_as(&self, other: &ProvenanceHop) -> (r: bool)
        ensures
            r == (self@ == other@),
    {
        self.transformation == other.transformation && self.detail == other.detail
    }
}

/// What a label says, as plain values.
pub struct LabelView {
    pub source_id: Seq<char>,
    pub categories: Set<DataCategory>,
    pub sensitivity: SensitivityLevel,
    pub hops: Seq<(Transformation, Seq<char>)>,
    pub truncated_hops: u32,
}

/// Everything one source contributed to a buffer.
#[derive(Debug, Clone, PartialEq, Eq)]
pub struct TaintLabel {
    pub source_id: String,
    pub categories: CategorySet,
    pub sensitivity: SensitivityLevel,
    pub hops: Vec<ProvenanceHop>,
    /// Hops dropped at [`MAX_PROVENANCE_HOPS`]; non-zero means the chain is incomplete.
    pub truncated_hops: u32,
}

pub open spec fn hop_views(hops: Seq<ProvenanceHop>) -> Seq<(Transformation, Seq<char>)> {
    hops.map_values(|h: ProvenanceHop| h@)
}

impl View for TaintLabel {
    type V = LabelView;

    open spec fn view(&self) -> LabelView {
        LabelView {
            source_id: self.source_id@,
            categories: self.categories@,
            sensitivity: self.sensitivity,
            hops: hop_views(self.hops@),
            truncated_hops: self.truncated_hops,
        }
    }
}

/// `a + b`, saturating at `u32::MAX`.
pub open spec fn sat_add(a: u32, b: u32) -> u32 {
    if a + b > u32::MAX {
        u32::MAX
    } else {
        (a + b) as u32
    }
}

/// A label after one more hop: kept while the chain is under the bound, counted past it.
pub open spec fn push_hop_spec(l: LabelView, h: (Transformation, Seq<char>)) -> LabelView {
    if l.hops.len() >= MAX_PROVENANCE_HOPS {
        LabelView {
            source_id: l.source_id,
            categories: l.categories,
            sensitivity: l.sensitivity,
            hops: l.hops,
            truncated_hops: sat_add(l.truncated_hops, 1),
        }
    } else {
        LabelView {
            source_id: l.source_id,
            categories: l.categories,
            sensitivity: l.sensitivity,
            hops: l.hops.push(h),
            truncated_hops: l.truncated_hops,
        }
    }
}

/// A label after taking in each of `hops` in turn, skipping hops it already records.
pub open spec fn absorb_hops_spec(l: LabelView, hops: Seq<(Transformation, Seq<char>)>) -> LabelView
    decreases hops.len(),
{
    if hops.len() == 0 {
        l
    } else {
        let prev = absorb_hops_spec(l, hops.drop_last());
        if prev.hops.contains(hops.last()) {
            prev
        } else {
            push_hop_spec(prev, hops.last())
        }
    }
}

/// Merge of two labels for the same source: sensitivity rises, categories
/// accumulate, unseen hops are appended, truncation counts add up.
pub open spec fn absorb_spec(a: LabelView, b: LabelView) -> LabelView {
    let base = LabelView {
        source_id: a.source_id,
        categories: a.categories.union(b.categories),
        sensitivity: max_level(a.sensitivity, b.sensitivity),
        hops: a.hops,
        truncated_hops: a.truncated_hops,
    };
    let merged = absorb_hops_spec(base, b.hops);
    LabelView {
        source_id: merged.source_id,
        categories: merged.categories,
        sensitivity: merged.sensitivity,
        hops: merged.hops,
        truncated_hops: sat_add(merged.truncated_hops, b.truncated_hops),
    }
}

/// Highest rank among a list of findings; 0 when there are none.
pub open spec fn findings_rank(found: Seq<ClassifiedDatum>) -> int
    decreases found.len(),
{
    if found.len() == 0 {
        0
    } else {
        let r = findings_rank(found.drop_last());
        let x = rank(datum_sensitivity(found.last().datum_type));
        if r >= x {
            r
        } else {
            x
        }
    }
}

/// Categories of a list of findings.
pub open spec fn findings_categories(found: Seq<ClassifiedDatum>) -> Set<DataCategory> {
    Set::new(
        |c: DataCategory|
            exists|i: int| 0 <= i < found.len() && datum_category(#[trigger] found[i].datum_type) == c,
    )
}

/// A copy of a list of hops.
fn copy_hops(hops: &Vec<ProvenanceHop>) -> (r: Vec<ProvenanceHop>)
    ensures
        hop_views(r@) == hop_views(hops@),
{
    let mut r: Vec<ProvenanceHop> = Vec::new();
    let mut i: usize = 0;
    while i < hops.len()
        invariant
            i <= hops.len(),
            hop_views(r@) == hop_views(hops@.take(i as int)),
        decreases hops.len() - i,
    {
        let ghost old_r = r@;
        r.push(hops[i].copied());
        assert(hops@.take(i + 1) =~= hops@.take(i as int).push(hops@[i as int]));
        assert(hop_views(r@) =~= hop_views(old_r).push(hops@[i as int]@));
        assert(hop_views(hops@.take(i + 1)) =~= hop_views(hops@.take(i as int)).push(
            hops@[i as int]@,
        ));
        i = i + 1;
    }
    assert(hops@.take(hops.len() as int) =~= hops@);
    r
}

/// Whether `hops` records a step equal to `hop`.
fn hops_contain(hops: &Vec<ProvenanceHop>, hop: &ProvenanceHop) -> (r: bool)
    ensures
        r == hop_views(hops@).contains(hop@),
{
    let mut i: usize = 0;
    while i < hops.len()
        invariant
            i <= hops.len(),
            forall|j: int| 0 <= j < i ==> hops@[j]@ != hop@,
        decreases hops.len() - i,
    {
        if hops[i].same_as(hop) {
            assert(hop_views(hops@)[i as int] == hop@);
            return true;
        }
        i = i + 1;
    }
    assert(!hop_views(hops@).contains(hop@)) by {
        if hop_views(hops@).contains(hop@) {
            let j = choose|j: int| 0 <= j < hop_views(hops@).len() && hop_views(hops@)[j] == hop@;
            assert(hops@[j]@ == hop@);
        }
    }
    false
}

impl TaintLabel {
    pub fn new(source_id: &str, categories: &[DataCategory], sensitivity: SensitivityLevel) -> (l:
        TaintLabel)
        ensures
            l@.source_id == source_id@,
            l@.categories == categories@.to_set(),
            l@.sensitivity == sensitivity,
            l@.hops == Seq::<(Transformation, Seq<char>)>::empty(),
            l@.truncated_hops == 0,
    {
        let mut cats = CategorySet::new();
        let mut i: usize = 0;
        while i < categories.len()
            invariant
                i <= categories.len(),
                cats@ == categories@.take(i as int).to_set(),
            decreases categories.len() - i,
        {
            cats.insert(categories[i]);
            assert(categories@.take(i + 1) =~= categories@.take(i as int).push(categories@[i as int]));
            proof { categories@.take(i as int).lemma_push_to_set_commute(categories@[i as int]); }
            i = i + 1;
        }
        assert(categories@.take(categories.len() as int) =~= categories@);
        let l = TaintLabel {
            source_id: owned(source_id),
            categories: cats,
            sensitivity,
            hops: Vec::new(),
            truncated_hops: 0,
        };
        assert(l@.hops =~= Seq::<(Transformation, Seq<char>)>::empty());
        l
    }

    /// Build a label from what a classifier found, never below `floor`.
    /// An empty finding list is not evidence of safety, so the floor still applies.
    pub fn from_classifications(source_id: &str, found: &[ClassifiedDatum], floor: SensitivityLevel) -> (l:
        TaintLabel)
        ensures
            l@.source_id == source_id@,
            l@.categories == findings_categories(found@),
            rank(l@.sensitivity) == if rank(floor) >= findings_rank(found@) {
                rank(floor)
            } else {
                findings_rank(found@)
            },
            l@.hops == Seq::<(Transformation, Seq<char>)>::empty(),
            l@.truncated_hops == 0,
    {
        let mut categories = CategorySet::new();
        let mut sensitivity = floor;
        let mut i: usize = 0;
        while i < found.len()
            invariant
                i <= found.len(),
                categories@ == findings_categories(found@.take(i as int)),
                rank(sensitivity) == if rank(floor) >= findings_rank(found@.take(i as int)) {
                    rank(floor)
                } else {
                    findings_rank(found@.take(i as int))
                },
            decreases found.len() - i,
        {
            let ghost prev = found@.take(i as int);
            let ghost next = found@.take(i + 1);
            assert(next.drop_last() =~= prev);
            categories.insert(found[i].category());
            sensitivity = sensitivity.max_with(found[i].sensitivity());
            assert(categories@ =~= findings_categories(next)) by {
                assert forall|c: DataCategory| categories@.contains(c) implies findings_categories(
                    next,
                ).contains(c) by {
                    if findings_categories(prev).contains(c) {
                        let k = choose|k: int|
                            0 <= k < prev.len() && datum_category(#[trigger] prev[k].datum_type) == c;
                        assert(next[k] == prev[k]);
                    } else {
                        assert(next[i as int] == found@[i as int]);
                    }
                }
                assert forall|c: DataCategory| findings_categories(next).contains(c) implies categories@.contains(
                    c,
                ) by {
                    let k = choose|k: int|
                        0 <= k < next.len() && datum_category(#[trigger] next[k].datum_type) == c;
                    if k < i {
                        assert(prev[k] == next[k]);
                    }
                }
            }
            i = i + 1;
        }
        assert(found@.take(found.len() as int) =~= found@);
        let l = TaintLabel {
            source_id: owned(source_id),
            categories,
            sensitivity,
            hops: Vec::new(),
            truncated_hops: 0,
        };
        assert(l@.hops =~= Seq::<(Transformation, Seq<char>)>::empty());
        l
    }

    /// This label with one more hop.
    pub fn with_hop(self, hop: ProvenanceHop) -> (l: TaintLabel)
        ensures
            l@ == push_hop_spec(self@, hop@),
    {
        let mut l = self;
        l.push_hop(hop);
        l
    }

    /// Record a hop; past [`MAX_PROVENANCE_HOPS`] it is counted, not kept.
    pub fn push_hop(&mut self, hop: ProvenanceHop)
        ensures
            final(self)@ == push_hop_spec(old(self)@, hop@),
    {
        if self.hops.len() >= MAX_PROVENANCE_HOPS {
            self.truncated_hops = self.truncated_hops.saturating_add(1);
            return;
        }
        self.hops.push(hop);
        assert(hop_views(self.hops@) =~= hop_views(old(self).hops@).push(hop@));
    }

    /// Merge another label for the same source: sensitivity rises,
    /// categories accumulate, provenance of both is kept.
    pub fn absorb(&mut self, other: &TaintLabel)
        ensures
            final(self)@ == absorb_spec(old(self)@, other@),
    {
        self.sensitivity = self.sensitivity.max_with(other.sensitivity);
        self.categories.extend(&other.categories);
        let ghost base = self@;
        let mut i: usize = 0;
        assert(other@.hops.take(0) =~= Seq::<(Transformation, Seq<char>)>::empty());
        while i < other.hops.len()
            invariant
                i <= other.hops.len(),
                self@ == absorb_hops_spec(base, other@.hops.take(i as int)),
            decreases other.hops.len() - i,
        {
            let ghost before = self@;
            assert(other@.hops.take(i + 1).drop_last() =~= other@.hops.take(i as int));
            assert(other@.hops.take(i + 1).last() == other.hops@[i as int]@);
            if !hops_contain(&self.hops, &other.hops[i]) {
                self.push_hop(other.hops[i].copied());
            }
            i = i + 1;
        }
        assert(other@.hops.take(other.hops.len() as int) =~= other@.hops);
        self.truncated_hops = self.truncated_hops.saturating_add(other.truncated_hops);
    }

    /// A copy of this label.
    pub fn copied(&self) -> (l: TaintLabel)
        ensures
            l@ == self@,
    {
        TaintLabel {
            source_id: self.source_id.clone(),
            categories: self.categories,
            sensitivity: self.sensitivity,
            hops: copy_hops(&self.hops),
            truncated_hops: self.truncated_hops,
        }
    }
}

/// The highest rank held by any label; 0 when there is none.
pub open spec fn set_rank(s: Seq<LabelView>) -> int
    decreases s.len(),
{
    if s.len() == 0 {
        0
    } else {
        let r = set_rank(s.drop_last());
        let x = rank(s.last().sensitivity);
        if r >= x {
            r
        } else {
            x
        }
    }
}

/// Every category any label carries.
pub open spec fn set_categories(s: Seq<LabelView>) -> Set<DataCategory> {
    Set::new(
        |c: DataCategory| exists|i: int| 0 <= i < s.len() && (#[trigger] s[i]).categories.contains(c),
    )
}

/// Labels ordered strictly by source id (hence no source appears twice).
pub open spec fn sorted_by_source(s: Seq<LabelView>) -> bool {
    forall|i: int, j: int|
        0 <= i < j < s.len() ==> seq_lt(#[trigger] s[i].source_id, #[trigger] s[j].source_id)
}

/// Whether some label of `s` is keyed by `id`.
pub open spec fn has_source(s: Seq<LabelView>, id: Seq<char>) -> bool {
    exists|i: int| 0 <= i < s.len() && (#[trigger] s[i]).source_id == id
}

/// The well-formedness of a label sequence: sorted by source, and no more than
/// [`MAX_LABELS`] labels plus the aggregate label.
pub open spec fn wf_labels(s: Seq<LabelView>) -> bool {
    &&& sorted_by_source(s)
    &&& (s.len() <= MAX_LABELS || (s.len() == MAX_LABELS + 1 && has_source(s, aggregate_id())))
}

/// Index of the label keyed by `id`, or -1.
pub open spec fn find_index(s: Seq<LabelView>, id: Seq<char>) -> int {
    if has_source(s, id) {
        choose|i: int| 0 <= i < s.len() && (#[trigger] s[i]).source_id == id
    } else {
        -1
    }
}

/// Number of leading labels whose source id sorts before `id`.
pub open spec fn insert_position(s: Seq<LabelView>, id: Seq<char>) -> int
    decreases s.len(),
{
    if s.len() == 0 {
        0
    } else if seq_lt(s[0].source_id, id) {
        1 + insert_position(s.drop_first(), id)
    } else {
        0
    }
}

/// `l` with another source id.
pub open spec fn relabel(l: LabelView, id: Seq<char>) -> LabelView {
    LabelView {
        source_id: id,
        categories: l.categories,
        sensitivity: l.sensitivity,
        hops: l.hops,
        truncated_hops: l.truncated_hops,
    }
}

/// `l` coalesced into the label of its source, or added in source order.
pub open spec fn place_spec(s: Seq<LabelView>, l: LabelView) -> Seq<LabelView> {
    if has_source(s, l.source_id) {
        let i = find_index(s, l.source_id);
        s.update(i, absorb_spec(s[i], l))
    } else {
        s.insert(insert_position(s, l.source_id), l)
    }
}

/// Insertion of a label into a set: coalesce with the label of the same
/// source; a new source past [`MAX_LABELS`] folds into the aggregate label.
pub open spec fn insert_spec(s: Seq<LabelView>, l: LabelView) -> Seq<LabelView> {
    if !has_source(s, l.source_id) && s.len() >= MAX_LABELS && l.source_id != aggregate_id() {
        place_spec(s, relabel(l, aggregate_id()))
    } else {
        place_spec(s, l)
    }
}

/// Insertion of every label of `o`, in order.
pub open spec fn merge_spec(s: Seq<LabelView>, o: Seq<LabelView>) -> Seq<LabelView>
    decreases o.len(),
{
    if o.len() == 0 {
        s
    } else {
        insert_spec(merge_spec(s, o.drop_last()), o.last())
    }
}

/// A label raised to at least `ceiling`.
pub open spec fn raise_spec(l: LabelView, ceiling: SensitivityLevel) -> LabelView {
    LabelView {
        source_id: l.source_id,
        categories: l.categories,
        sensitivity: max_level(l.sensitivity, ceiling),
        hops: l.hops,
        truncated_hops: l.truncated_hops,
    }
}

/// Every label with one more hop.
pub open spec fn transform_spec(s: Seq<LabelView>, h: (Transformation, Seq<char>)) -> Seq<LabelView> {
    s.map_values(|l: LabelView| push_hop_spec(l, h))
}

/// Every label raised to at least `c`.
pub open spec fn raise_all(s: Seq<LabelView>, c: SensitivityLevel) -> Seq<LabelView> {
    s.map_values(|l: LabelView| raise_spec(l, c))
}

pub open spec fn max_int(a: int, b: int) -> int {
    if a >= b {
        a
    } else {
        b
    }
}

pub proof fn lemma_set_rank_bounds(s: Seq<LabelView>)
    ensures
        0 <= set_rank(s) <= 3,
        forall|i: int| 0 <= i < s.len() ==> rank((#[trigger] s[i]).sensitivity) <= set_rank(s),
        s.len() > 0 ==> exists|i: int|
            0 <= i < s.len() && rank((#[trigger] s[i]).sensitivity) == set_rank(s),
    decreases s.len(),
{
    if s.len() > 0 {
        let p = s.drop_last();
        lemma_set_rank_bounds(p);
        assert forall|i: int| 0 <= i < s.len() implies rank((#[trigger] s[i]).sensitivity)
            <= set_rank(s) by {
            if i < s.len() - 1 {
                assert(s[i] == p[i]);
            }
        }
        if set_rank(p) >= rank(s.last().sensitivity) && p.len() > 0 {
            let k = choose|k: int| 0 <= k < p.len() && rank((#[trigger] p[k]).sensitivity) == set_rank(p);
            assert(s[k] == p[k]);
        } else {
            assert(rank(s[s.len() - 1].sensitivity) == set_rank(s));
        }
    }
}

/// A rank that bounds every label and is attained (or is 0) is the set's rank.
pub proof fn lemma_set_rank_unique(s: Seq<LabelView>, m: int)
    requires
        0 <= m,
        forall|i: int| 0 <= i < s.len() ==> rank((#[trigger] s[i]).sensitivity) <= m,
        m == 0 || exists|i: int| 0 <= i < s.len() && rank((#[trigger] s[i]).sensitivity) == m,
    ensures
        set_rank(s) == m,
{
    lemma_set_rank_bounds(s);
    if s.len() > 0 {
        let k = choose|k: int| 0 <= k < s.len() && rank((#[trigger] s[k]).sensitivity) == set_rank(s);
        assert(set_rank(s) <= m);
    }
    if m != 0 {
        let j = choose|j: int| 0 <= j < s.len() && rank((#[trigger] s[j]).sensitivity) == m;
        assert(m <= set_rank(s));
    }
}

pub proof fn lemma_absorb_hops_keeps(l: LabelView, hops: Seq<(Transformation, Seq<char>)>)
    ensures
        absorb_hops_spec(l, hops).source_id == l.source_id,
        absorb_hops_spec(l, hops).categories == l.categories,
        absorb_hops_spec(l, hops).sensitivity == l.sensitivity,
        l.hops.len() <= MAX_PROVENANCE_HOPS ==> absorb_hops_spec(l, hops).hops.len()
            <= MAX_PROVENANCE_HOPS,
    decreases hops.len(),
{
    if hops.len() > 0 {
        lemma_absorb_hops_keeps(l, hops.drop_last());
    }
}

pub proof fn lemma_absorb_spec(a: LabelView, b: LabelView)
    ensures
        absorb_spec(a, b).source_id == a.source_id,
        absorb_spec(a, b).categories == a.categories.union(b.categories),
        absorb_spec(a, b).sensitivity == max_level(a.sensitivity, b.sensitivity),
        a.hops.len() <= MAX_PROVENANCE_HOPS ==> absorb_spec(a, b).hops.len()
            <= MAX_PROVENANCE_HOPS,
{
    let base = LabelView {
        source_id: a.source_id,
        categories: a.categories.union(b.categories),
        sensitivity: max_level(a.sensitivity, b.sensitivity),
        hops: a.hops,
        truncated_hops: a.truncated_hops,
    };
    lemma_absorb_hops_keeps(base, b.hops);
}

pub proof fn lemma_find_index(s: Seq<LabelView>, id: Seq<char>, i: int)
    requires
        sorted_by_source(s),
        0 <= i < s.len(),
        s[i].source_id == id,
    ensures
        find_index(s, id) == i,
{
    let k = find_index(s, id);
    assert(0 <= k < s.len() && s[k].source_id == id);
    if k < i {
        assert(seq_lt(s[k].source_id, s[i].source_id));
        crate::strings::lemma_seq_lt_irreflexive(id);
    } else if i < k {
        assert(seq_lt(s[i].source_id, s[k].source_id));
        crate::strings::lemma_seq_lt_irreflexive(id);
    }
}

pub proof fn lemma_insert_position(s: Seq<LabelView>, id: Seq<char>)
    requires
        sorted_by_source(s),
        !has_source(s, id),
    ensures
        0 <= insert_position(s, id) <= s.len(),
        forall|j: int| 0 <= j < insert_position(s, id) ==> seq_lt(#[trigger] s[j].source_id, id),
        forall|j: int| insert_position(s, id) <= j < s.len() ==> seq_lt(id, #[trigger] s[j].source_id),
    decreases s.len(),
{
    if s.len() > 0 {
        let t = s.drop_first();
        assert(sorted_by_source(t)) by {
            assert forall|i: int, j: int| 0 <= i < j < t.len() implies seq_lt(
                #[trigger] t[i].source_id,
                #[trigger] t[j].source_id,
            ) by {
                assert(t[i] == s[i + 1] && t[j] == s[j + 1]);
            }
        }
        assert(!has_source(t, id)) by {
            if has_source(t, id) {
                let k = choose|k: int| 0 <= k < t.len() && (#[trigger] t[k]).source_id == id;
                assert(s[k + 1] == t[k]);
            }
        }
        lemma_insert_position(t, id);
        if seq_lt(s[0].source_id, id) {
            assert forall|j: int| 0 <= j < insert_position(s, id) implies seq_lt(
                #[trigger] s[j].source_id,
                id,
            ) by {
                if j > 0 {
                    assert(s[j] == t[j - 1]);
                }
            }
            assert forall|j: int| insert_position(s, id) <= j < s.len() implies seq_lt(
                id,
                #[trigger] s[j].source_id,
            ) by {
                assert(s[j] == t[j - 1]);
            }
        } else {
            assert(s[0].source_id != id);
            crate::strings::lemma_seq_lt_total(s[0].source_id, id);
            assert forall|j: int| 0 <= j < s.len() implies seq_lt(id, #[trigger] s[j].source_id) by {
                if j > 0 {
                    assert(seq_lt(s[0].source_id, s[j].source_id));
                    crate::strings::lemma_seq_lt_transitive(id, s[0].source_id, s[j].source_id);
                }
            }
        }
    }
}

/// What placing a label does to a sorted set: it stays sorted, the set's rank
/// becomes the larger of the two, categories accumulate, no source is lost.
pub proof fn lemma_place_spec(s: Seq<LabelView>, l: LabelView)
    requires
        sorted_by_source(s),
    ensures
        sorted_by_source(place_spec(s, l)),
        has_source(s, l.source_id) ==> place_spec(s, l).len() == s.len(),
        !has_source(s, l.source_id) ==> place_spec(s, l).len() == s.len() + 1,
        has_source(place_spec(s, l), l.source_id),
        forall|id: Seq<char>| has_source(s, id) ==> #[trigger] has_source(place_spec(s, l), id),
        forall|id: Seq<char>| #[trigger] has_source(place_spec(s, l), id) ==> has_source(s, id) || id
            == l.source_id,
        set_rank(place_spec(s, l)) == max_int(set_rank(s), rank(l.sensitivity)),
        set_categories(place_spec(s, l)) == set_categories(s).union(l.categories),
        (forall|i: int| 0 <= i < s.len() ==> (#[trigger] s[i]).hops.len() <= MAX_PROVENANCE_HOPS)
            && l.hops.len() <= MAX_PROVENANCE_HOPS ==> forall|i: int|
            0 <= i < place_spec(s, l).len() ==> (#[trigger] place_spec(s, l)[i]).hops.len()
                <= MAX_PROVENANCE_HOPS,
{
    let r = place_spec(s, l);
    let m = max_int(set_rank(s), rank(l.sensitivity));
    lemma_set_rank_bounds(s);
    if has_source(s, l.source_id) {
        let k = choose|k: int| 0 <= k < s.len() && (#[trigger] s[k]).source_id == l.source_id;
        lemma_find_index(s, l.source_id, k);
        lemma_absorb_spec(s[k], l);
        let x = absorb_spec(s[k], l);
        assert(r == s.update(k, x));
        assert(sorted_by_source(r)) by {
            assert forall|i: int, j: int| 0 <= i < j < r.len() implies seq_lt(
                #[trigger] r[i].source_id,
                #[trigger] r[j].source_id,
            ) by {
                assert(s[i].source_id == r[i].source_id);
                assert(s[j].source_id == r[j].source_id);
            }
        }
        assert(r[k].source_id == l.source_id);
        assert forall|id: Seq<char>| has_source(s, id) implies #[trigger] has_source(r, id) by {
            let q = choose|q: int| 0 <= q < s.len() && (#[trigger] s[q]).source_id == id;
            assert(r[q].source_id == id);
        }
        assert forall|id: Seq<char>| #[trigger] has_source(r, id) implies has_source(s, id) || id
            == l.source_id by {
            let q = choose|q: int| 0 <= q < r.len() && (#[trigger] r[q]).source_id == id;
            assert(s[q].source_id == id);
        }
        assert forall|i: int| 0 <= i < r.len() implies rank((#[trigger] r[i]).sensitivity) <= m by {
            if i != k {
                assert(r[i] == s[i]);
            }
        }
        if rank(l.sensitivity) >= set_rank(s) {
            assert(rank(r[k].sensitivity) == m);
        } else if s.len() > 0 {
            let w = choose|w: int| 0 <= w < s.len() && rank((#[trigger] s[w]).sensitivity) == set_rank(s);
            if w == k {
                assert(rank(r[k].sensitivity) == m);
            } else {
                assert(r[w] == s[w]);
            }
        }
        lemma_set_rank_unique(r, m);
        assert(set_categories(r) =~= set_categories(s).union(l.categories)) by {
            assert forall|c: DataCategory| set_categories(r).contains(c) implies set_categories(s).union(
                l.categories,
            ).contains(c) by {
                let q = choose|q: int| 0 <= q < r.len() && (#[trigger] r[q]).categories.contains(c);
                if q != k {
                    assert(r[q] == s[q]);
                } else {
                    assert(s[k].categories.contains(c) || l.categories.contains(c));
                }
            }
            assert forall|c: DataCategory| set_categories(s).union(l.categories).contains(c) implies set_categories(
                r,
            ).contains(c) by {
                if set_categories(s).contains(c) {
                    let q = choose|q: int| 0 <= q < s.len() && (#[trigger] s[q]).categories.contains(c);
                    if q != k {
                        assert(r[q] == s[q]);
                    } else {
                        assert(r[k].categories.contains(c));
                    }
                } else {
                    assert(r[k].categories.contains(c));
                }
            }
        }
    } else {
        lemma_insert_position(s, l.source_id);
        let p = insert_position(s, l.source_id);
        assert(r == s.insert(p, l));
        assert(r.len() == s.len() + 1);
        assert forall|i: int| 0 <= i < r.len() implies #[trigger] r[i] == if i < p {
            s[i]
        } else if i == p {
            l
        } else {
            s[i - 1]
        } by {}
        assert(sorted_by_source(r)) by {
            assert forall|i: int, j: int| 0 <= i < j < r.len() implies seq_lt(
                #[trigger] r[i].source_id,
                #[trigger] r[j].source_id,
            ) by {
                if i < p && j < p {
                    assert(r[i] == s[i] && r[j] == s[j]);
                } else if i < p && j == p {
                    assert(r[i] == s[i]);
                } else if i < p {
                    assert(r[i] == s[i] && r[j] == s[j - 1]);
                } else if i == p {
                    assert(r[j] == s[j - 1]);
                } else {
                    assert(r[i] == s[i - 1] && r[j] == s[j - 1]);
                }
            }
        }
        assert(r[p].source_id == l.source_id);
        assert forall|id: Seq<char>| has_source(s, id) implies #[trigger] has_source(r, id) by {
            let q = choose|q: int| 0 <= q < s.len() && (#[trigger] s[q]).source_id == id;
            if q < p {
                assert(r[q] == s[q]);
            } else {
                assert(r[q + 1] == s[q]);
            }
        }
        assert forall|id: Seq<char>| #[trigger] has_source(r, id) implies has_source(s, id) || id
            == l.source_id by {
            let q = choose|q: int| 0 <= q < r.len() && (#[trigger] r[q]).source_id == id;
            if q < p {
                assert(s[q] == r[q]);
            } else if q > p {
                assert(s[q - 1] == r[q]);
            }
        }
        assert forall|i: int| 0 <= i < r.len() implies rank((#[trigger] r[i]).sensitivity) <= m by {}
        if rank(l.sensitivity) >= set_rank(s) {
            assert(rank(r[p].sensitivity) == m);
        } else if s.len() > 0 {
            let w = choose|w: int| 0 <= w < s.len() && rank((#[trigger] s[w]).sensitivity) == set_rank(s);
            if w < p {
                assert(r[w] == s[w]);
            } else {
                assert(r[w + 1] == s[w]);
            }
        }
        lemma_set_rank_unique(r, m);
        assert(set_categories(r) =~= set_categories(s).union(l.categories)) by {
            assert forall|c: DataCategory| set_categories(r).contains(c) implies set_categories(s).union(
                l.categories,
            ).contains(c) by {
                let q = choose|q: int| 0 <= q < r.len() && (#[trigger] r[q]).categories.contains(c);
                if q < p {
                    assert(r[q] == s[q]);
                } else if q > p {
                    assert(r[q] == s[q - 1]);
                }
            }
            assert forall|c: DataCategory| set_categories(s).union(l.categories).contains(c) implies set_categories(
                r,
            ).contains(c) by {
                if set_categories(s).contains(c) {
                    let q = choose|q: int| 0 <= q < s.len() && (#[trigger] s[q]).categories.contains(c);
                    if q < p {
                        assert(r[q] == s[q]);
                    } else {
                        assert(r[q + 1] == s[q]);
                    }
                } else {
                    assert(r[p].categories.contains(c));
                }
            }
        }
    }
}

/// Inserting into a well-formed set keeps it well-formed, raises its rank to
/// the label's, accumulates the label's categories, and loses no source.
pub proof fn lemma_insert_spec(s: Seq<LabelView>, l: LabelView)
    requires
        wf_labels(s),
    ensures
        wf_labels(insert_spec(s, l)),
        set_rank(insert_spec(s, l)) == max_int(set_rank(s), rank(l.sensitivity)),
        set_categories(insert_spec(s, l)) == set_categories(s).union(l.categories),
        forall|id: Seq<char>| has_source(s, id) ==> #[trigger] has_source(insert_spec(s, l), id),
        (forall|i: int| 0 <= i < s.len() ==> (#[trigger] s[i]).hops.len() <= MAX_PROVENANCE_HOPS)
            && l.hops.len() <= MAX_PROVENANCE_HOPS ==> forall|i: int|
            0 <= i < insert_spec(s, l).len() ==> (#[trigger] insert_spec(s, l)[i]).hops.len()
                <= MAX_PROVENANCE_HOPS,
{
    if !has_source(s, l.source_id) && s.len() >= MAX_LABELS && l.source_id != aggregate_id() {
        let f = relabel(l, aggregate_id());
        lemma_place_spec(s, f);
        assert(set_categories(insert_spec(s, l)) == set_categories(s).union(l.categories));
        if !has_source(s, aggregate_id()) {
            assert(s.len() == MAX_LABELS);
        }
    } else {
        lemma_place_spec(s, l);
        if !has_source(s, l.source_id) {
            if s.len() == MAX_LABELS + 1 {
                assert(has_source(s, aggregate_id()));
                assert(false);
            }
        }
    }
}

/// Inserting a label never weakens a label already held: the label of each
/// source present before stays, with at least its sensitivity and all of its
/// categories.
pub proof fn lemma_insert_never_weakens(s: Seq<LabelView>, l: LabelView, i: int)
    requires
        wf_labels(s),
        0 <= i < s.len(),
    ensures
        exists|j: int|
            0 <= j < insert_spec(s, l).len() && (#[trigger] insert_spec(s, l)[j]).source_id == s[i].source_id
                && rank(insert_spec(s, l)[j].sensitivity) >= rank(s[i].sensitivity)
                && s[i].categories.subset_of(insert_spec(s, l)[j].categories),
{
    let m = if !has_source(s, l.source_id) && s.len() >= MAX_LABELS && l.source_id != aggregate_id() {
        relabel(l, aggregate_id())
    } else {
        l
    };
    let r = insert_spec(s, l);
    assert(r == place_spec(s, m));
    if has_source(s, m.source_id) {
        let k = find_index(s, m.source_id);
        lemma_absorb_spec(s[k], m);
        if i == k {
            assert(r[k] == absorb_spec(s[k], m));
            assert(r[k].source_id == s[i].source_id);
        } else {
            assert(r[i] == s[i]);
        }
    } else {
        let p = insert_position(s, m.source_id);
        lemma_insert_position(s, m.source_id);
        if i < p {
            assert(r[i] == s[i]);
        } else {
            assert(r[i + 1] == s[i]);
        }
    }
}

pub proof fn lemma_merge_spec(s: Seq<LabelView>, o: Seq<LabelView>)
    requires
        wf_labels(s),
    ensures
        wf_labels(merge_spec(s, o)),
        set_rank(merge_spec(s, o)) == max_int(set_rank(s), set_rank(o)),
        set_categories(merge_spec(s, o)) == set_categories(s).union(set_categories(o)),
        forall|id: Seq<char>| has_source(s, id) ==> #[trigger] has_source(merge_spec(s, o), id),
        (forall|i: int| 0 <= i < s.len() ==> (#[trigger] s[i]).hops.len() <= MAX_PROVENANCE_HOPS)
            && (forall|i: int| 0 <= i < o.len() ==> (#[trigger] o[i]).hops.len() <= MAX_PROVENANCE_HOPS)
            ==> forall|i: int|
            0 <= i < merge_spec(s, o).len() ==> (#[trigger] merge_spec(s, o)[i]).hops.len()
                <= MAX_PROVENANCE_HOPS,
    decreases o.len(),
{
    if o.len() > 0 {
        let p = o.drop_last();
        lemma_merge_spec(s, p);
        lemma_insert_spec(merge_spec(s, p), o.last());
        assert(set_categories(o) =~= set_categories(p).union(o.last().categories)) by {
            assert forall|c: DataCategory| set_categories(o).contains(c) implies set_categories(p).union(
                o.last().categories,
            ).contains(c) by {
                let q = choose|q: int| 0 <= q < o.len() && (#[trigger] o[q]).categories.contains(c);
                if q < o.len() - 1 {
                    assert(p[q] == o[q]);
                }
            }
            assert forall|c: DataCategory| set_categories(p).union(o.last().categories).contains(c) implies set_categories(
                o,
            ).contains(c) by {
                if set_categories(p).contains(c) {
                    let q = choose|q: int| 0 <= q < p.len() && (#[trigger] p[q]).categories.contains(c);
                    assert(o[q] == p[q]);
                } else {
                    assert(o[o.len() - 1].categories.contains(c));
                }
            }
        }
        assert(set_categories(merge_spec(s, o)) =~= set_categories(s).union(set_categories(o)));
        if (forall|i: int| 0 <= i < o.len() ==> (#[trigger] o[i]).hops.len() <= MAX_PROVENANCE_HOPS) {
            assert forall|i: int| 0 <= i < p.len() implies (#[trigger] p[i]).hops.len()
                <= MAX_PROVENANCE_HOPS by {
                assert(p[i] == o[i]);
            }
            assert(o.last() == o[o.len() - 1]);
        }
    } else {
        lemma_set_rank_bounds(s);
    }
}

/// Union is commutative in what a gate reads: sensitivity and categories.
pub proof fn lemma_union_commutes(a: Seq<LabelView>, b: Seq<LabelView>)
    requires
        wf_labels(a),
        wf_labels(b),
    ensures
        set_rank(merge_spec(a, b)) == set_rank(merge_spec(b, a)),
        set_categories(merge_spec(a, b)) == set_categories(merge_spec(b, a)),
{
    lemma_merge_spec(a, b);
    lemma_merge_spec(b, a);
    assert(set_categories(a).union(set_categories(b)) =~= set_categories(b).union(set_categories(a)));
}

/// A transformation keeps every source, its rank, and its categories; a label
/// under the hop bound stays under it.
pub proof fn lemma_transform_keeps_taint(s: Seq<LabelView>, h: (Transformation, Seq<char>))
    ensures
        set_rank(transform_spec(s, h)) == set_rank(s),
        set_categories(transform_spec(s, h)) == set_categories(s),
        forall|i: int|
            0 <= i < s.len() ==> (#[trigger] transform_spec(s, h)[i]).source_id
                == s[i].source_id,
        forall|i: int|
            0 <= i < s.len() && s[i].hops.len() <= MAX_PROVENANCE_HOPS ==> (#[trigger] transform_spec(s, h)[i]).hops.len() <= MAX_PROVENANCE_HOPS,
{
    let t = transform_spec(s, h);
    lemma_set_rank_bounds(s);
    assert forall|i: int| 0 <= i < t.len() implies rank((#[trigger] t[i]).sensitivity) <= set_rank(s) by {
        assert(t[i].sensitivity == s[i].sensitivity);
    }
    if s.len() > 0 {
        let w = choose|w: int| 0 <= w < s.len() && rank((#[trigger] s[w]).sensitivity) == set_rank(s);
        assert(t[w].sensitivity == s[w].sensitivity);
    }
    lemma_set_rank_unique(t, set_rank(s));
    assert(set_categories(t) =~= set_categories(s)) by {
        assert forall|c: DataCategory| set_categories(t).contains(c) implies set_categories(s).contains(c) by {
            let q = choose|q: int| 0 <= q < t.len() && (#[trigger] t[q]).categories.contains(c);
            assert(s[q].categories == t[q].categories);
        }
        assert forall|c: DataCategory| set_categories(s).contains(c) implies set_categories(t).contains(c) by {
            let q = choose|q: int| 0 <= q < s.len() && (#[trigger] s[q]).categories.contains(c);
            assert(s[q].categories == t[q].categories);
        }
    }
}

/// Raising a set to a ceiling gives it at least the ceiling's rank, and no
/// more than that unless it already held more.
pub proof fn lemma_raise_rank(s: Seq<LabelView>, c: SensitivityLevel)
    requires
        s.len() > 0,
    ensures
        set_rank(raise_all(s, c)) == max_int(set_rank(s), rank(c)),
        set_categories(raise_all(s, c)) == set_categories(s),
{
    let t = raise_all(s, c);
    let m = max_int(set_rank(s), rank(c));
    lemma_set_rank_bounds(s);
    assert forall|i: int| 0 <= i < t.len() implies rank((#[trigger] t[i]).sensitivity) <= m by {
        assert(t[i].sensitivity == max_level(s[i].sensitivity, c));
    }
    let w = choose|w: int| 0 <= w < s.len() && rank((#[trigger] s[w]).sensitivity) == set_rank(s);
    assert(t[w].sensitivity == max_level(s[w].sensitivity, c));
    lemma_set_rank_unique(t, m);
    assert(set_categories(t) =~= set_categories(s)) by {
        assert forall|x: DataCategory| set_categories(t).contains(x) implies set_categories(s).contains(x) by {
            let q = choose|q: int| 0 <= q < t.len() && (#[trigger] t[q]).categories.contains(x);
            assert(s[q].categories == t[q].categories);
        }
        assert forall|x: DataCategory| set_categories(s).contains(x) implies set_categories(t).contains(x) by {
            let q = choose|q: int| 0 <= q < s.len() && (#[trigger] s[q]).categories.contains(x);
            assert(s[q].categories == t[q].categories);
        }
    }
}


/// The taint carried by one buffer, keyed by source so that a union coalesces
/// two mentions of the same origin without losing either provenance chain.
#[derive(Debug, Clone, Default, PartialEq, Eq)]
pub struct TaintSet {
    labels: Vec<TaintLabel>,
}

pub open spec fn label_views(labels: Seq<TaintLabel>) -> Seq<LabelView> {
    labels.map_values(|l: TaintLabel| l@)
}

impl TaintSet {
    pub closed spec fn views(&self) -> Seq<LabelView> {
        label_views(self.labels@)
    }
}

impl View for TaintSet {
    type V = Seq<LabelView>;

    open spec fn view(&self) -> Seq<LabelView> {
        self.views()
    }
}

impl TaintSet {
    /// Sorted by source, within the label bound.
    pub open spec fn wf(&self) -> bool {
        wf_labels(self@)
    }

    pub fn new() -> (s: TaintSet)
        ensures
            s.wf(),
            s@ == Seq::<LabelView>::empty(),
    {
        let s = TaintSet { labels: Vec::new() };
        assert(s@ =~= Seq::<LabelView>::empty());
        s
    }

    pub fn from_label(label: TaintLabel) -> (s: TaintSet)
        ensures
            s.wf(),
            s@ == seq![label@],
    {
        let mut s = TaintSet::new();
        let ghost l = label@;
        s.insert(label);
        assert(insert_position(Seq::<LabelView>::empty(), l.source_id) == 0);
        assert(s@ =~= seq![l]);
        s
    }

    /// Builds a set by inserting each label in turn.
    pub fn from_labels(labels: Vec<TaintLabel>) -> (s: TaintSet)
        ensures
            s.wf(),
            s@ == merge_spec(Seq::<LabelView>::empty(), label_views(labels@)),
    {
        let mut s = TaintSet::new();
        let mut labels = labels;
        let ghost all = label_views(labels@);
        let ghost n: int = all.len() as int;
        while labels.len() > 0
            invariant
                s.wf(),
                n == all.len(),
                labels@.len() <= n,
                label_views(labels@) == all.skip(n - labels@.len()),
                s@ == merge_spec(Seq::<LabelView>::empty(), all.take(n - labels@.len())),
            decreases labels.len(),
        {
            let ghost k = n - labels@.len();
            let ghost before = labels@;
            let x = labels.remove(0);
            assert(x == before[0]);
            assert(label_views(before)[0] == before[0]@);
            assert(all.skip(k)[0] == all[k]);
            assert(x@ == all[k]);
            assert(label_views(labels@) =~= label_views(before).skip(1));
            assert(label_views(labels@) =~= all.skip(k + 1));
            assert(all.take(k + 1).drop_last() =~= all.take(k));
            s.insert(x);
        }
        assert(all.take(n as int) =~= all);
        s
    }

    pub fn is_empty(&self) -> (r: bool)
        ensures
            r == (self@.len() == 0),
    {
        self.labels.len() == 0
    }

    pub fn len(&self) -> (n: usize)
        ensures
            n == self@.len(),
    {
        self.labels.len()
    }

    /// The labels, in source order.
    pub fn labels(&self) -> (r: &[TaintLabel])
        ensures
            label_views(r@) == self@,
    {
        self.labels.as_slice()
    }

    /// The source ids, in order.
    pub fn source_ids(&self) -> (r: Vec<String>)
        ensures
            r@.len() == self@.len(),
            forall|i: int| 0 <= i < r@.len() ==> (#[trigger] r@[i])@ == self@[i].source_id,
    {
        let mut r: Vec<String> = Vec::new();
        let mut i: usize = 0;
        while i < self.labels.len()
            invariant
                i <= self.labels.len(),
                r@.len() == i,
                forall|j: int| 0 <= j < i ==> (#[trigger] r@[j])@ == self@[j].source_id,
            decreases self.labels.len() - i,
        {
            r.push(self.labels[i].source_id.clone());
            i = i + 1;
        }
        r
    }

    /// Position of the label keyed by `id`.
    fn find(&self, id: &str) -> (r: Option<usize>)
        requires
            sorted_by_source(self@),
        ensures
            match r {
                Some(i) => has_source(self@, id@) && i as int == find_index(self@, id@) && i
                    < self@.len(),
                None => !has_source(self@, id@),
            },
    {
        let mut i: usize = 0;
        while i < self.labels.len()
            invariant
                i <= self.labels.len(),
                sorted_by_source(self@),
                forall|j: int| 0 <= j < i ==> (#[trigger] self@[j]).source_id != id@,
            decreases self.labels.len() - i,
        {
            if str_eq(self.labels[i].source_id.as_str(), id) {
                proof {
                    lemma_find_index(self@, id@, i as int);
                }
                return Some(i);
            }
            i = i + 1;
        }
        None
    }

    /// The label of a source.
    pub fn label_for(&self, source_id: &str) -> (r: Option<&TaintLabel>)
        requires
            self.wf(),
        ensures
            match r {
                Some(l) => has_source(self@, source_id@) && l@ == self@[find_index(self@, source_id@)],
                None => !has_source(self@, source_id@),
            },
    {
        match self.find(source_id) {
            Some(i) => Some(&self.labels[i]),
            None => None,
        }
    }

    /// Coalesce `label` into the label of its source, or add it in order.
    fn place(&mut self, label: TaintLabel)
        requires
            sorted_by_source(old(self)@),
        ensures
            final(self)@ == place_spec(old(self)@, label@),
    {
        match self.find(label.source_id.as_str()) {
            Some(i) => {
                let ghost before = self@;
                self.labels[i].absorb(&label);
                assert(self@ =~= before.update(i as int, absorb_spec(before[i as int], label@)));
            },
            None => {
                let mut p: usize = 0;
                assert(self@.skip(0) =~= self@);
                while p < self.labels.len() && str_lt(
                    self.labels[p].source_id.as_str(),
                    label.source_id.as_str(),
                )
                    invariant
                        p <= self.labels.len(),
                        insert_position(self@, label@.source_id) == p + insert_position(
                            self@.skip(p as int),
                            label@.source_id,
                        ),
                    decreases self.labels.len() - p,
                {
                    assert(self@.skip(p as int).drop_first() =~= self@.skip(p + 1));
                    p = p + 1;
                }
                proof {
                    if p < self.labels.len() {
                        assert(self@.skip(p as int)[0] == self@[p as int]);
                    } else {
                        assert(self@.skip(p as int).len() == 0);
                    }
                }
                let ghost before = self@;
                self.labels.insert(p, label);
                assert(self@ =~= before.insert(p as int, label@));
            },
        }
    }

    /// Add a label, coalescing with any label already held for that source.
    /// Past [`MAX_LABELS`] a new source folds into the aggregate label, which
    /// keeps the set's sensitivity and categories correct under the bound.
    pub fn insert(&mut self, label: TaintLabel)
        requires
            old(self).wf(),
        ensures
            final(self).wf(),
            final(self)@ == insert_spec(old(self)@, label@),
            set_rank(final(self)@) == max_int(set_rank(old(self)@), rank(label.sensitivity)),
            set_categories(final(self)@) == set_categories(old(self)@).union(label@.categories),
    {
        proof {
            lemma_insert_spec(self@, label@);
        }
        let found = self.find(label.source_id.as_str());
        if found.is_none() && self.labels.len() >= MAX_LABELS && !str_eq(
            label.source_id.as_str(),
            AGGREGATE_SOURCE_ID,
        ) {
            let mut folded = label;
            folded.source_id = owned(AGGREGATE_SOURCE_ID);
            assert(folded@ == relabel(label@, aggregate_id()));
            self.place(folded);
        } else {
            self.place(label);
        }
    }

    /// Monotonic union: highest sensitivity, union of categories, provenance
    /// of both sides kept per source.
    pub fn merge(&mut self, other: &TaintSet)
        requires
            old(self).wf(),
        ensures
            final(self).wf(),
            final(self)@ == merge_spec(old(self)@, other@),
            set_rank(final(self)@) == max_int(set_rank(old(self)@), set_rank(other@)),
            set_categories(final(self)@) == set_categories(old(self)@).union(set_categories(other@)),
    {
        let ghost start = self@;
        let mut i: usize = 0;
        while i < other.labels.len()
            invariant
                i <= other.labels.len(),
                self.wf(),
                self@ == merge_spec(start, other@.take(i as int)),
                wf_labels(start),
            decreases other.labels.len() - i,
        {
            assert(other@.take(i + 1).drop_last() =~= other@.take(i as int));
            assert(other@.take(i + 1).last() == other.labels@[i as int]@);
            self.insert(other.labels[i].copied());
            i = i + 1;
        }
        assert(other@.take(other.labels.len() as int) =~= other@);
        proof {
            lemma_merge_spec(start, other@);
        }
    }

    /// This set unioned with `other`.
    pub fn union(self, other: &TaintSet) -> (s: TaintSet)
        requires
            self.wf(),
        ensures
            s.wf(),
            s@ == merge_spec(self@, other@),
            set_rank(s@) == max_int(set_rank(self@), set_rank(other@)),
            set_categories(s@) == set_categories(self@).union(set_categories(other@)),
    {
        let mut s = self;
        s.merge(other);
        s
    }

    /// Highest sensitivity anything in this buffer carries; `Public` when empty.
    pub fn sensitivity(&self) -> (r: SensitivityLevel)
        ensures
            rank(r) == set_rank(self@),
            r == level_of_rank(set_rank(self@)),
    {
        let mut r = SensitivityLevel::Public;
        let mut i: usize = 0;
        while i < self.labels.len()
            invariant
                i <= self.labels.len(),
                rank(r) == set_rank(self@.take(i as int)),
            decreases self.labels.len() - i,
        {
            assert(self@.take(i + 1).drop_last() =~= self@.take(i as int));
            r = r.max_with(self.labels[i].sensitivity);
            i = i + 1;
        }
        assert(self@.take(self.labels.len() as int) =~= self@);
        proof {
            lemma_set_rank_bounds(self@);
        }
        r
    }

    /// Every category carried by any label.
    pub fn categories(&self) -> (r: CategorySet)
        ensures
            r@ == set_categories(self@),
    {
        let mut r = CategorySet::new();
        let mut i: usize = 0;
        while i < self.labels.len()
            invariant
                i <= self.labels.len(),
                r@ == set_categories(self@.take(i as int)),
            decreases self.labels.len() - i,
        {
            let ghost prev = self@.take(i as int);
            let ghost next = self@.take(i + 1);
            r.extend(&self.labels[i].categories);
            assert(r@ =~= set_categories(next)) by {
                assert forall|c: DataCategory| r@.contains(c) implies set_categories(next).contains(c) by {
                    if set_categories(prev).contains(c) {
                        let q = choose|q: int| 0 <= q < prev.len() && (#[trigger] prev[q]).categories.contains(c);
                        assert(next[q] == prev[q]);
                    } else {
                        assert(next[i as int] == self@[i as int]);
                    }
                }
                assert forall|c: DataCategory| set_categories(next).contains(c) implies r@.contains(c) by {
                    let q = choose|q: int| 0 <= q < next.len() && (#[trigger] next[q]).categories.contains(c);
                    if q < i {
                        assert(prev[q] == next[q]);
                    }
                }
            }
            i = i + 1;
        }
        assert(self@.take(self.labels.len() as int) =~= self@);
        r
    }

    pub fn contains_category(&self, category: DataCategory) -> (r: bool)
        ensures
            r == set_categories(self@).contains(category),
    {
        self.categories().contains(&category)
    }

    /// Result of transforming this buffer: every label keeps its origin and
    /// gains a hop, so encoding is a traceable step rather than an escape.
    pub fn transformed(&self, transformation: Transformation, detail: &str) -> (s: TaintSet)
        requires
            self.wf(),
        ensures
            s.wf(),
            s@ == transform_spec(self@, (transformation, detail@)),
            set_rank(s@) == set_rank(self@),
            set_categories(s@) == set_categories(self@),
    {
        let ghost h = (transformation, detail@);
        let mut out: Vec<TaintLabel> = Vec::new();
        let mut i: usize = 0;
        while i < self.labels.len()
            invariant
                i <= self.labels.len(),
                h == (transformation, detail@),
                label_views(out@) == transform_spec(self@.take(i as int), h),
            decreases self.labels.len() - i,
        {
            let mut l = self.labels[i].copied();
            l.push_hop(ProvenanceHop::new(transformation, detail));
            let ghost before = out@;
            let ghost lv = l@;
            assert(self@[i as int] == self.labels@[i as int]@);
            assert(lv == push_hop_spec(self@[i as int], h));
            out.push(l);
            assert(label_views(out@) =~= label_views(before).push(lv));
            assert(transform_spec(self@.take(i + 1), h) =~= transform_spec(self@.take(i as int), h).push(lv));
            i = i + 1;
        }
        assert(self@.take(self.labels.len() as int) =~= self@);
        let s = TaintSet { labels: out };
        proof {
            lemma_transform_keeps_taint(self@, h);
            assert(sorted_by_source(s@)) by {
                assert forall|a: int, b: int| 0 <= a < b < s@.len() implies seq_lt(
                    #[trigger] s@[a].source_id,
                    #[trigger] s@[b].source_id,
                ) by {
                    assert(s@[a].source_id == self@[a].source_id);
                    assert(s@[b].source_id == self@[b].source_id);
                }
            }
            if s@.len() == MAX_LABELS + 1 {
                let k = choose|k: int| 0 <= k < self@.len() && (#[trigger] self@[k]).source_id
                    == aggregate_id();
                assert(s@[k].source_id == aggregate_id());
            }
        }
        s
    }

    /// Raise every label to at least `ceiling`, adding one if the set is
    /// empty, so output inherits a serving model's ceiling either way.
    pub fn raised_to(&self, source_id: &str, ceiling: SensitivityLevel) -> (s: TaintSet)
        requires
            self.wf(),
        ensures
            s.wf(),
            self@.len() == 0 ==> s@ == seq![
                LabelView {
                    source_id: source_id@,
                    categories: Set::<DataCategory>::empty(),
                    sensitivity: ceiling,
                    hops: Seq::<(Transformation, Seq<char>)>::empty(),
                    truncated_hops: 0,
                },
            ],
            self@.len() > 0 ==> s@ == raise_all(self@, ceiling),
            set_rank(s@) == max_int(set_rank(self@), rank(ceiling)),
    {
        if self.labels.len() == 0 {
            let empty: [DataCategory; 0] = [];
            let l = TaintLabel::new(source_id, &empty, ceiling);
            assert(empty@.to_set() =~= Set::<DataCategory>::empty());
            let s = TaintSet::from_label(l);
            proof {
                lemma_set_rank_bounds(s@);
                assert(s@[0].sensitivity == ceiling);
            }
            return s;
        }
        let mut out: Vec<TaintLabel> = Vec::new();
        let mut i: usize = 0;
        while i < self.labels.len()
            invariant
                i <= self.labels.len(),
                label_views(out@) == raise_all(self@.take(i as int), ceiling),
            decreases self.labels.len() - i,
        {
            let mut l = self.labels[i].copied();
            l.sensitivity = l.sensitivity.max_with(ceiling);
            let ghost before = out@;
            let ghost lv = l@;
            assert(self@[i as int] == self.labels@[i as int]@);
            assert(lv == raise_spec(self@[i as int], ceiling));
            out.push(l);
            assert(label_views(out@) =~= label_views(before).push(lv));
            assert(raise_all(self@.take(i + 1), ceiling) =~= raise_all(self@.take(i as int), ceiling).push(lv));
            i = i + 1;
        }
        assert(self@.take(self.labels.len() as int) =~= self@);
        let s = TaintSet { labels: out };
        proof {
            lemma_raise_rank(self@, ceiling);
            assert(sorted_by_source(s@)) by {
                assert forall|a: int, b: int| 0 <= a < b < s@.len() implies seq_lt(
                    #[trigger] s@[a].source_id,
                    #[trigger] s@[b].source_id,
                ) by {
                    assert(s@[a].source_id == self@[a].source_id);
                    assert(s@[b].source_id == self@[b].source_id);
                }
            }
            if s@.len() == MAX_LABELS + 1 {
                let k = choose|k: int| 0 <= k < self@.len() && (#[trigger] self@[k]).source_id
                    == aggregate_id();
                assert(s@[k].source_id == aggregate_id());
            }
        }
        s
    }

    /// A copy of this set.
    pub fn copied(&self) -> (s: TaintSet)
        ensures
            s@ == self@,
    {
        let mut out: Vec<TaintLabel> = Vec::new();
        let mut i: usize = 0;
        while i < self.labels.len()
            invariant
                i <= self.labels.len(),
                label_views(out@) == self@.take(i as int),
            decreases self.labels.len() - i,
        {
            let ghost before = out@;
            let l = self.labels[i].copied();
            let ghost lv = l@;
            out.push(l);
            assert(label_views(out@) =~= label_views(before).push(lv));
            assert(self@.take(i + 1) =~= self@.take(i as int).push(lv));
            i = i + 1;
        }
        assert(self@.take(self.labels.len() as int) =~= self@);
        TaintSet { labels: out }
    }
}
} // verus!
