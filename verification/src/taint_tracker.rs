//! Session-scoped data taint tracking.
//!
//! The tracker tags data where it enters, carries the tags through
//! transformations, and records both into the session's action graph so a
//! later gate can ask where a payload came from.

use std::sync::Arc;

use vstd::prelude::*;

use crate::data_classification::{level_of_rank, max_level, rank, ClassifiedDatum, DataCategory, SensitivityLevel};
use crate::sequence_graph::{GraphError, NodeId, SequenceGraphBuilder};
use crate::strings::{concat2, owned, str_eq};
use crate::taint::{
    findings_categories, findings_rank, max_int, merge_spec, raise_all, set_categories, set_rank, source_id_of,
    transform_spec, LabelView, TaintLabel, TaintSet, TaintSource, Transformation,
};
use crate::taint_inference::{
    alternation_spec, builtin_group_names, builtin_group_types, builtin_patterns, regex_compiles, regex_source,
    ClassificationInferencer, RegexInferencer,
};
use crate::taint_ledger::TaintRecord;

verus! {

/// Classification applied when nothing better is known: unknown provenance
/// is not publishable.
pub const DEFAULT_FLOOR: SensitivityLevel = SensitivityLevel::Internal;

/// Table of per-model ceilings: later entries override earlier ones.
pub open spec fn ceiling_table(entries: Seq<(String, SensitivityLevel)>) -> Map<Seq<char>, SensitivityLevel>
    decreases entries.len(),
{
    if entries.len() == 0 {
        Map::empty()
    } else {
        ceiling_table(entries.drop_last()).insert(entries.last().0@, entries.last().1)
    }
}

pub proof fn lemma_ceiling_table(entries: Seq<(String, SensitivityLevel)>, id: Seq<char>, i: int)
    requires
        0 <= i < entries.len(),
        entries[i].0@ == id,
        forall|j: int| i < j < entries.len() ==> (#[trigger] entries[j]).0@ != id,
    ensures
        ceiling_table(entries).contains_key(id),
        ceiling_table(entries)[id] == entries[i].1,
    decreases entries.len(),
{
    if i < entries.len() - 1 {
        lemma_ceiling_table(entries.drop_last(), id, i);
    }
}

pub proof fn lemma_ceiling_table_absent(entries: Seq<(String, SensitivityLevel)>, id: Seq<char>)
    requires
        forall|j: int| 0 <= j < entries.len() ==> (#[trigger] entries[j]).0@ != id,
    ensures
        !ceiling_table(entries).contains_key(id),
    decreases entries.len(),
{
    if entries.len() > 0 {
        lemma_ceiling_table_absent(entries.drop_last(), id);
    }
}

/// Per-model classification ceilings. An unknown model gets the default.
#[derive(Debug, Clone)]
pub struct ModelCeilings {
    ceilings: Vec<(String, SensitivityLevel)>,
    default: SensitivityLevel,
}

impl ModelCeilings {
    pub closed spec fn table(&self) -> Map<Seq<char>, SensitivityLevel> {
        ceiling_table(self.ceilings@)
    }

    pub closed spec fn default_level(&self) -> SensitivityLevel {
        self.default
    }

    /// The ceiling the table gives a model.
    pub open spec fn ceiling_spec(&self, model_id: Seq<char>) -> SensitivityLevel {
        if self.table().contains_key(model_id) {
            self.table()[model_id]
        } else {
            self.default_level()
        }
    }

    pub fn new(default: SensitivityLevel) -> (c: ModelCeilings)
        ensures
            c.table() == Map::<Seq<char>, SensitivityLevel>::empty(),
            c.default_level() == default,
    {
        ModelCeilings { ceilings: Vec::new(), default }
    }

    /// The default table: no entries, [`DEFAULT_FLOOR`] for every model.
    pub fn default_ceilings() -> (c: ModelCeilings)
        ensures
            c.table() == Map::<Seq<char>, SensitivityLevel>::empty(),
            c.default_level() == DEFAULT_FLOOR,
    {
        ModelCeilings::new(DEFAULT_FLOOR)
    }

    pub fn with(self, model_id: &str, ceiling: SensitivityLevel) -> (c: ModelCeilings)
        ensures
            c.table() == self.table().insert(model_id@, ceiling),
            c.default_level() == self.default_level(),
    {
        let mut c = self;
        let ghost before = c.ceilings@;
        c.ceilings.push((owned(model_id), ceiling));
        assert(c.ceilings@.drop_last() =~= before);
        c
    }

    pub fn ceiling_for(&self, model_id: &str) -> (r: SensitivityLevel)
        ensures
            r == self.ceiling_spec(model_id@),
    {
        let mut i: usize = self.ceilings.len();
        while i > 0
            invariant
                i <= self.ceilings.len(),
                forall|j: int| i <= j < self.ceilings@.len() ==> (#[trigger] self.ceilings@[j]).0@ != model_id@,
            decreases i,
        {
            i = i - 1;
            if str_eq(self.ceilings[i].0.as_str(), model_id) {
                proof {
                    lemma_ceiling_table(self.ceilings@, model_id@, i as int);
                }
                return self.ceilings[i].1;
            }
        }
        proof {
            lemma_ceiling_table_absent(self.ceilings@, model_id@);
        }
        self.default
    }
}

/// The single label an ingestion produces, from a source, a floor and what
/// the detector found.
pub open spec fn ingest_label(source: TaintSource, floor: SensitivityLevel, found: Seq<ClassifiedDatum>) -> LabelView {
    let f = match source.declared {
        Some(level) => level,
        None => floor,
    };
    LabelView {
        source_id: source_id_of(source.kind, source.id@),
        categories: findings_categories(found),
        sensitivity: level_of_rank(max_int(rank(f), findings_rank(found))),
        hops: Seq::empty(),
        truncated_hops: 0,
    }
}

/// Union of a list of taint sets, in order.
pub open spec fn union_all(inputs: Seq<Seq<LabelView>>) -> Seq<LabelView>
    decreases inputs.len(),
{
    if inputs.len() == 0 {
        Seq::empty()
    } else {
        merge_spec(union_all(inputs.drop_last()), inputs.last())
    }
}

/// One ledger entry per recorded call.
#[derive(Debug, Clone, PartialEq, Eq)]
pub struct SequenceNodeEntry {
    pub node_id: String,
    pub tool_name: String,
    pub params_hash: String,
    pub inputs: Vec<String>,
    pub taint: TaintRecord,
}

/// Tracks taint and the action sequence for one session.
pub struct DataTaintTracker<I: ClassificationInferencer> {
    session_id: String,
    inferencer: Arc<I>,
    floor: SensitivityLevel,
    ceilings: ModelCeilings,
    graph: SequenceGraphBuilder,
}

/// What inference over `merged` with a model gives: every label with an
/// inference hop, raised to the model's ceiling; when nothing came in, one
/// `model:<id>` label at the ceiling with no categories.
pub open spec fn inferred_spec(merged: Seq<LabelView>, model_id: Seq<char>, ceiling: SensitivityLevel) -> Seq<LabelView> {
    if merged.len() == 0 {
        seq![
            LabelView {
                source_id: "model:"@ + model_id,
                categories: Set::<DataCategory>::empty(),
                sensitivity: ceiling,
                hops: Seq::<(Transformation, Seq<char>)>::empty(),
                truncated_hops: 0,
            },
        ]
    } else {
        raise_all(transform_spec(merged, (Transformation::Inference, model_id)), ceiling)
    }
}

impl DataTaintTracker<RegexInferencer> {
    /// A tracker with the regex tier, the conservative floor and default
    /// ceilings; the error of the regex tier when its patterns do not compile.
    pub fn new(session_id: &str) -> (r: Result<DataTaintTracker<RegexInferencer>, String>)
        ensures
            (r is Ok) == regex_compiles(alternation_spec(builtin_patterns())),
            r matches Ok(t) ==> {
                &&& t.wf()
                &&& t.session()@ == session_id@
                &&& t.floor_level() == DEFAULT_FLOOR
                &&& t.model_ceilings().table() == Map::<Seq<char>, SensitivityLevel>::empty()
                &&& t.model_ceilings().default_level() == DEFAULT_FLOOR
                &&& t.action_graph().node_seq().len() == 0
                &&& t.detector().group_types() == builtin_group_types()
                &&& t.detector().group_names() == builtin_group_names()
                &&& regex_source(t.detector().regex()) == alternation_spec(builtin_patterns())
            },
            r matches Err(e) ==> exists|m: Seq<char>| e@ == "built-in classification patterns are invalid: "@ + m,
    {
        let inferencer = match RegexInferencer::new() {
            Ok(i) => i,
            Err(e) => return Err(e),
        };
        Ok(DataTaintTracker {
            session_id: owned(session_id),
            inferencer: Arc::new(inferencer),
            floor: DEFAULT_FLOOR,
            ceilings: ModelCeilings::default_ceilings(),
            graph: SequenceGraphBuilder::new(),
        })
    }
}

impl<I: ClassificationInferencer> DataTaintTracker<I> {
    pub closed spec fn session(&self) -> String {
        self.session_id
    }

    pub closed spec fn floor_level(&self) -> SensitivityLevel {
        self.floor
    }

    pub closed spec fn model_ceilings(&self) -> ModelCeilings {
        self.ceilings
    }

    pub closed spec fn action_graph(&self) -> SequenceGraphBuilder {
        self.graph
    }

    pub open spec fn wf(&self) -> bool {
        self.action_graph().wf()
    }

    /// Swap the classification tier; the tracker itself does not change.
    pub fn with_inferencer<J: ClassificationInferencer>(self, inferencer: Arc<J>) -> (t: DataTaintTracker<J>)
        ensures
            t.detector() == *inferencer,
            t.session() == self.session(),
            t.floor_level() == self.floor_level(),
            t.model_ceilings() == self.model_ceilings(),
            t.action_graph() == self.action_graph(),
    {
        DataTaintTracker {
            session_id: self.session_id,
            inferencer,
            floor: self.floor,
            ceilings: self.ceilings,
            graph: self.graph,
        }
    }

    pub fn with_floor(self, floor: SensitivityLevel) -> (t: Self)
        ensures
            t.detector() == self.detector(),
            t.session() == self.session(),
            t.floor_level() == floor,
            t.model_ceilings() == self.model_ceilings(),
            t.action_graph() == self.action_graph(),
    {
        let mut t = self;
        t.floor = floor;
        t
    }

    pub fn with_model_ceilings(self, ceilings: ModelCeilings) -> (t: Self)
        ensures
            t.detector() == self.detector(),
            t.session() == self.session(),
            t.floor_level() == self.floor_level(),
            t.model_ceilings() == ceilings,
            t.action_graph() == self.action_graph(),
    {
        let mut t = self;
        t.ceilings = ceilings;
        t
    }

    pub fn session_id(&self) -> (s: &str)
        ensures
            s@ == self.session()@,
    {
        self.session_id.as_str()
    }

    /// The session's action graph.
    pub fn graph(&self) -> (g: &SequenceGraphBuilder)
        ensures
            *g == self.action_graph(),
    {
        &self.graph
    }

    /// The detector this tracker consults.
    pub closed spec fn detector(&self) -> I {
        *self.inferencer
    }

    /// The name of the detector this tracker consults: what its `name`
    /// returns.
    pub fn inferencer_name(&self) -> (n: &'static str)
        ensures
            call_ensures(I::name, (&self.detector(),), n),
    {
        self.inferencer.name()
    }

    /// The label set for data entering the session, given what the detector
    /// found in it: one label, never below the source's declared level (or
    /// the tracker's floor when it declares none), raised to the findings.
    pub fn ingest_findings(&self, source: &TaintSource, found: &[ClassifiedDatum]) -> (s: TaintSet)
        ensures
            s.wf(),
            s@ == seq![ingest_label(*source, self.floor_level(), found@)],
    {
        let floor = match source.declared {
            Some(level) => level,
            None => self.floor,
        };
        let label = TaintLabel::from_classifications(source.source_id().as_str(), found, floor);
        proof {
            crate::data_classification::lemma_rank_roundtrip(label.sensitivity);
        }
        TaintSet::from_label(label)
    }

    /// Tag data as it enters the session. The result is never empty: a
    /// source that declares itself `Public` is still labelled.
    pub fn ingest(&self, source: &TaintSource, text: &str) -> (s: TaintSet)
        ensures
            s.wf(),
            exists|found: Vec<ClassifiedDatum>|
                call_ensures(I::infer, (&self.detector(), text), found) && s@ == seq![
                    ingest_label(*source, self.floor_level(), found@),
                ],
    {
        let found = self.inferencer.infer(text);
        self.ingest_findings(source, found.as_slice())
    }

    /// Data arriving from another agent inherits the upstream labels as well
    /// as whatever this hop can infer, so relaying cannot launder a label.
    pub fn ingest_from_agent(&self, source: &TaintSource, text: &str, upstream: &TaintSet) -> (s: TaintSet)
        ensures
            s.wf(),
            exists|found: Vec<ClassifiedDatum>|
                call_ensures(I::infer, (&self.detector(), text), found) && s@ == merge_spec(
                    seq![ingest_label(*source, self.floor_level(), found@)],
                    upstream@,
                ),
            set_rank(s@) >= set_rank(upstream@),
            set_categories(upstream@).subset_of(set_categories(s@)),
    {
        let s = self.ingest(source, text).union(upstream);
        proof {
            crate::taint::lemma_set_rank_bounds(upstream@);
        }
        s
    }

    /// Output of a transformation inherits every input's taint and records
    /// what was done. Encoding is a hop, not an exit.
    pub fn transform(&self, inputs: &[&TaintSet], transformation: Transformation, detail: &str) -> (s: TaintSet)
        ensures
            s.wf(),
            s@ == transform_spec(
                union_all(inputs@.map_values(|t: &TaintSet| t@)),
                (transformation, detail@),
            ),
            set_rank(s@) == set_rank(union_all(inputs@.map_values(|t: &TaintSet| t@))),
    {
        let ghost all = inputs@.map_values(|t: &TaintSet| t@);
        let mut merged = TaintSet::new();
        let mut i: usize = 0;
        while i < inputs.len()
            invariant
                i <= inputs.len(),
                all == inputs@.map_values(|t: &TaintSet| t@),
                merged.wf(),
                merged@ == union_all(all.take(i as int)),
            decreases inputs.len() - i,
        {
            assert(all.take(i + 1).drop_last() =~= all.take(i as int));
            assert(all.take(i + 1).last() == inputs@[i as int]@);
            merged.merge(inputs[i]);
            i = i + 1;
        }
        assert(all.take(inputs.len() as int) =~= all);
        merged.transformed(transformation, detail)
    }

    /// Output of inference is tainted by its input and by whatever the
    /// serving model itself may reveal: its ceiling.
    pub fn after_inference(&self, inputs: &[&TaintSet], model_id: &str) -> (s: TaintSet)
        ensures
            s.wf(),
            s@ == inferred_spec(
                union_all(inputs@.map_values(|t: &TaintSet| t@)),
                model_id@,
                self.model_ceilings().ceiling_spec(model_id@),
            ),
            set_rank(s@) == max_int(
                set_rank(union_all(inputs@.map_values(|t: &TaintSet| t@))),
                rank(self.model_ceilings().ceiling_spec(model_id@)),
            ),
    {
        let ceiling = self.ceilings.ceiling_for(model_id);
        let transformed = self.transform(inputs, Transformation::Inference, model_id);
        let source = concat2("model:", model_id);
        transformed.raised_to(source.as_str(), ceiling)
    }

    /// Record a completed call. Its taint is the union of what flowed in from
    /// the named nodes (read from the graph, not the caller) and `taint`.
    pub fn record_call(
        &mut self,
        tool_name: &str,
        params: &serde_json::Value,
        inputs: &[NodeId],
        taint: &TaintSet,
    ) -> (r: Result<NodeId, GraphError>)
        requires
            old(self).wf(),
        ensures
            final(self).wf(),
            match r {
                Ok(id) => {
                    &&& forall|k: int|
                        0 <= k < inputs@.len() ==> crate::sequence_graph::holds_node(
                            old(self).action_graph().node_seq(),
                            #[trigger] inputs@[k]@,
                        )
                    &&& old(self).action_graph().node_seq().len() < crate::sequence_graph::MAX_NODES
                    &&& id@ == crate::sequence_graph::node_id_spec(old(self).action_graph().node_seq().len() as int)
                    &&& final(self).action_graph().node_seq().len() == old(self).action_graph().node_seq().len() + 1
                    &&& final(self).action_graph().node_seq().drop_last() == old(self).action_graph().node_seq()
                    &&& final(self).action_graph().node_seq().last().id@ == id@
                    &&& final(self).action_graph().node_seq().last().tool_name@ == tool_name@
                    &&& crate::sequence_graph::id_views(final(self).action_graph().node_seq().last().inputs@)
                        == crate::sequence_graph::id_views(inputs@)
                    &&& final(self).action_graph().node_seq().last().taint@ == merge_spec(
                        crate::sequence_graph::flowing_spec(
                            old(self).action_graph().node_seq(),
                            crate::sequence_graph::id_views(inputs@),
                        ),
                        taint@,
                    )
                    &&& final(self).action_graph().truncated() == old(self).action_graph().truncated()
                },
                Err(GraphError::UnknownInput(x)) => {
                    &&& exists|k: int|
                        0 <= k < inputs@.len() && x@ == inputs@[k]@ && !crate::sequence_graph::holds_node(
                            old(self).action_graph().node_seq(),
                            #[trigger] inputs@[k]@,
                        ) && (forall|m: int|
                            0 <= m < k ==> crate::sequence_graph::holds_node(
                                old(self).action_graph().node_seq(),
                                #[trigger] inputs@[m]@,
                            ))
                    &&& final(self).action_graph().node_seq() == old(self).action_graph().node_seq()
                    &&& final(self).action_graph().truncated() == old(self).action_graph().truncated()
                },
                Err(GraphError::Full) => {
                    &&& forall|k: int|
                        0 <= k < inputs@.len() ==> crate::sequence_graph::holds_node(
                            old(self).action_graph().node_seq(),
                            #[trigger] inputs@[k]@,
                        )
                    &&& old(self).action_graph().node_seq().len() >= crate::sequence_graph::MAX_NODES
                    &&& final(self).action_graph().node_seq() == old(self).action_graph().node_seq()
                    &&& final(self).action_graph().truncated() == crate::taint::sat_add(
                        old(self).action_graph().truncated(),
                        1,
                    )
                },
            },
    {
        let flowing = match self.graph.taint_flowing_from(inputs) {
            Ok(t) => t,
            Err(e) => return Err(e),
        };
        let carried = flowing.union(taint);
        self.graph.push(tool_name, params, inputs, carried)
    }

    /// The session's graph as ledger entries, oldest first.
    pub fn ledger_entries(&self) -> (r: Vec<SequenceNodeEntry>)
        ensures
            r@.len() == self.action_graph().node_seq().len(),
            forall|i: int| 0 <= i < r@.len() ==> {
                &&& (#[trigger] r@[i]).node_id@ == self.action_graph().node_seq()[i].id@
                &&& r@[i].tool_name@ == self.action_graph().node_seq()[i].tool_name@
                &&& r@[i].params_hash@ == self.action_graph().node_seq()[i].params_hash@
            },
    {
        let nodes = self.graph.nodes();
        let mut r: Vec<SequenceNodeEntry> = Vec::new();
        let mut i: usize = 0;
        while i < nodes.len()
            invariant
                i <= nodes.len(),
                nodes@ == self.action_graph().node_seq(),
                r@.len() == i,
                forall|k: int| 0 <= k < i ==> {
                    &&& (#[trigger] r@[k]).node_id@ == nodes@[k].id@
                    &&& r@[k].tool_name@ == nodes@[k].tool_name@
                    &&& r@[k].params_hash@ == nodes@[k].params_hash@
                },
            decreases nodes.len() - i,
        {
            let node = &nodes[i];
            r.push(SequenceNodeEntry {
                node_id: node.id.clone(),
                tool_name: node.tool_name.clone(),
                params_hash: node.params_hash.clone(),
                inputs: node.inputs.clone(),
                taint: TaintRecord::from_taint_set(&node.taint),
            });
            i = i + 1;
        }
        r
    }
}

} // verus!
