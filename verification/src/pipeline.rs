//! The provenance side of the dialect-lowering pipeline: each feature node of a document is lowered
//! on its own and its segments are appended to the motion document, so node `i` owns the segment
//! range that starts where the segments of the nodes before it end.
use crate::provenance::{NodeId, ProvenanceMap, SegmentSpan};
use crate::text::{dec, push_decimal, string_from_str};
use vstd::prelude::*;

verus! {

/// Error encountered during document lowering pipeline execution.
#[derive(Debug, Clone, PartialEq, Eq)]
pub struct PipelineError {
    pub message: String,
}

impl PipelineError {
    pub fn new(message: &str) -> (e: PipelineError)
        ensures
            e.message@ == message@,
    {
        PipelineError { message: string_from_str(message) }
    }

    /// The error's text, as it is displayed.
    pub fn display_text(&self) -> (s: String)
        ensures
            s@ == self.message@,
    {
        self.message.clone()
    }
}

/// The node id of the feature at `index`: its own name, or `feature_{index}` when it has none.
pub open spec fn spec_node_name(index: nat, name: Option<Seq<char>>) -> Seq<char> {
    match name {
        Some(n) => n,
        None => "feature_"@ + dec(index),
    }
}

/// The node id of the feature at `index`: its own name, or `feature_{index}` when it has none.
pub fn node_id_for(index: usize, name: &Option<String>) -> (n: NodeId)
    ensures
        n@ == spec_node_name(
            index as nat,
            match name {
                Some(s) => Some(s@),
                None => None,
            },
        ),
{
    match name {
        Some(s) => NodeId(s.clone()),
        None => {
            let mut id = string_from_str("feature_");
            push_decimal(&mut id, index as u64);
            NodeId(id)
        },
    }
}

/// The sum of the first `n` counts.
pub open spec fn prefix_sum(counts: Seq<usize>, n: int) -> nat
    decreases n,
{
    if n <= 0 {
        0
    } else {
        prefix_sum(counts, n - 1) + counts[n - 1] as nat
    }
}

/// The name of the `i`-th feature as a character sequence.
pub open spec fn name_at(names: Seq<Option<String>>, i: int) -> Option<Seq<char>> {
    match names[i] {
        Some(s) => Some(s@),
        None => None,
    }
}

/// The provenance map after lowering the first `n` features: each node id maps to the segment span
/// of the last feature that carried it.
pub open spec fn spec_lower_provenance(names: Seq<Option<String>>, counts: Seq<usize>, n: int) -> Map<
    Seq<char>,
    SegmentSpan,
>
    decreases n,
{
    if n <= 0 {
        Map::empty()
    } else {
        spec_lower_provenance(names, counts, n - 1).insert(
            spec_node_name((n - 1) as nat, name_at(names, n - 1)),
            SegmentSpan {
                start: prefix_sum(counts, n - 1) as usize,
                end: prefix_sum(counts, n) as usize,
            },
        )
    }
}

proof fn lemma_prefix_mono(counts: Seq<usize>, a: int, b: int)
    requires
        0 <= a <= b,
    ensures
        prefix_sum(counts, a) <= prefix_sum(counts, b),
    decreases b - a,
{
    if a < b {
        lemma_prefix_mono(counts, a, b - 1);
    }
}

/// Builds the provenance map of a lowered document whose feature `i` is named `names[i]` (or
/// unnamed) and lowered to `counts[i]` segments.
pub fn lower_provenance(names: &Vec<Option<String>>, counts: &Vec<usize>) -> (r: (ProvenanceMap, usize))
    requires
        names@.len() == counts@.len(),
        prefix_sum(counts@, counts@.len() as int) <= usize::MAX,
    ensures
        r.0@ == spec_lower_provenance(names@, counts@, names@.len() as int),
        r.1 == prefix_sum(counts@, counts@.len() as int),
{
    let mut provenance = ProvenanceMap::new();
    let mut total: usize = 0;
    let mut i: usize = 0;
    while i < names.len()
        invariant
            names@.len() == counts@.len(),
            prefix_sum(counts@, counts@.len() as int) <= usize::MAX,
            i <= names@.len(),
            total == prefix_sum(counts@, i as int),
            provenance@ == spec_lower_provenance(names@, counts@, i as int),
        decreases names@.len() - i,
    {
        proof {
            lemma_prefix_mono(counts@, i + 1, counts@.len() as int);
        }
        let start = total;
        total = total + counts[i];
        let id = node_id_for(i, &names[i]);
        provenance.insert(id, SegmentSpan::new(start, total));
        i = i + 1;
    }
    (provenance, total)
}

/// Law: a feature whose node id no later feature reuses owns exactly the segments lowered from it:
/// the span starts where the segments of the features before it end and is `counts[i]` long.
pub proof fn law_provenance_span_of_feature(names: Seq<Option<String>>, counts: Seq<usize>, i: int)
    requires
        0 <= i < names.len(),
        names.len() == counts.len(),
        prefix_sum(counts, counts.len() as int) <= usize::MAX,
        forall|j: int|
            i < j < names.len() ==> spec_node_name(j as nat, name_at(names, j)) != spec_node_name(
                i as nat,
                name_at(names, i),
            ),
    ensures
        spec_lower_provenance(names, counts, names.len() as int).dom().contains(
            spec_node_name(i as nat, name_at(names, i)),
        ),
        spec_lower_provenance(names, counts, names.len() as int)[spec_node_name(
            i as nat,
            name_at(names, i),
        )] == (SegmentSpan { start: prefix_sum(counts, i) as usize, end: prefix_sum(counts, i + 1) as usize }),
        prefix_sum(counts, i + 1) - prefix_sum(counts, i) == counts[i],
{
    lemma_span_survives(names, counts, i, names.len() as int);
}

/// The node id of feature `i`.
pub open spec fn feature_id(names: Seq<Option<String>>, i: int) -> Seq<char> {
    spec_node_name(i as nat, name_at(names, i))
}

/// The node ids of the features are pairwise distinct.
pub open spec fn distinct_feature_ids(names: Seq<Option<String>>) -> bool {
    forall|i: int, j: int| 0 <= i < j < names.len() ==> feature_id(names, i) != feature_id(names, j)
}

/// Law: where no two features share a node id, the provenance spans partition the lowered output
/// in feature order. The map holds exactly one entry per feature; the first span starts at segment
/// 0, each span ends where the next begins, and the last ends at the total segment count.
pub proof fn law_spans_partition_the_output(names: Seq<Option<String>>, counts: Seq<usize>)
    requires
        names.len() == counts.len(),
        prefix_sum(counts, counts.len() as int) <= usize::MAX,
        distinct_feature_ids(names),
    ensures
        forall|k: Seq<char>|
            spec_lower_provenance(names, counts, names.len() as int).dom().contains(k) <==> exists|i: int|
                0 <= i < names.len() && #[trigger] feature_id(names, i) == k,
        forall|i: int|
            0 <= i < names.len() ==> spec_lower_provenance(names, counts, names.len() as int)[#[trigger] feature_id(
                names,
                i,
            )] == (SegmentSpan { start: prefix_sum(counts, i) as usize, end: prefix_sum(counts, i + 1) as usize }),
        names.len() > 0 ==> spec_lower_provenance(names, counts, names.len() as int)[feature_id(names, 0)].start == 0,
        names.len() > 0 ==> spec_lower_provenance(names, counts, names.len() as int)[feature_id(
            names,
            names.len() - 1,
        )].end == prefix_sum(counts, names.len() as int),
        forall|i: int|
            0 <= i < names.len() - 1 ==> spec_lower_provenance(names, counts, names.len() as int)[#[trigger] feature_id(
                names,
                i,
            )].end == spec_lower_provenance(names, counts, names.len() as int)[feature_id(names, i + 1)].start,
{
    let n = names.len() as int;
    lemma_lowered_ids(names, counts, n);
    assert forall|i: int| 0 <= i < n implies spec_lower_provenance(names, counts, n)[#[trigger] feature_id(names, i)]
        == (SegmentSpan { start: prefix_sum(counts, i) as usize, end: prefix_sum(counts, i + 1) as usize }) by {
        assert forall|j: int| i < j < names.len() implies spec_node_name(j as nat, name_at(names, j))
            != spec_node_name(i as nat, name_at(names, i)) by {
            assert(feature_id(names, i) != feature_id(names, j));
        }
        lemma_span_survives(names, counts, i, n);
    }
    if n > 0 {
        lemma_prefix_mono(counts, n - 1, n);
        assert(feature_id(names, n - 1) == feature_id(names, n - 1));
        assert(feature_id(names, 0) == feature_id(names, 0));
    }
    assert forall|i: int| 0 <= i < n - 1 implies spec_lower_provenance(names, counts, n)[#[trigger] feature_id(names, i)].end
        == spec_lower_provenance(names, counts, n)[feature_id(names, i + 1)].start by {
        assert(feature_id(names, i + 1) == feature_id(names, i + 1));
    }
}

proof fn lemma_lowered_ids(names: Seq<Option<String>>, counts: Seq<usize>, n: int)
    requires
        0 <= n <= names.len(),
    ensures
        forall|k: Seq<char>|
            spec_lower_provenance(names, counts, n).dom().contains(k) <==> exists|i: int|
                0 <= i < n && #[trigger] feature_id(names, i) == k,
    decreases n,
{
    if n > 0 {
        lemma_lowered_ids(names, counts, n - 1);
        let prev = spec_lower_provenance(names, counts, n - 1);
        assert(spec_lower_provenance(names, counts, n).dom() == prev.dom().insert(feature_id(names, n - 1)));
        assert forall|k: Seq<char>|
            spec_lower_provenance(names, counts, n).dom().contains(k) <==> exists|i: int|
                0 <= i < n && #[trigger] feature_id(names, i) == k by {
            if k == feature_id(names, n - 1) {
                assert(0 <= n - 1 < n && feature_id(names, n - 1) == k);
            } else if spec_lower_provenance(names, counts, n).dom().contains(k) {
                assert(spec_lower_provenance(names, counts, n - 1).dom().contains(k));
                let i = choose|i: int| 0 <= i < n - 1 && #[trigger] feature_id(names, i) == k;
                assert(0 <= i < n && feature_id(names, i) == k);
            }
            if exists|i: int| 0 <= i < n && #[trigger] feature_id(names, i) == k {
                let i = choose|i: int| 0 <= i < n && #[trigger] feature_id(names, i) == k;
                if i < n - 1 {
                    assert(0 <= i < n - 1 && feature_id(names, i) == k);
                }
            }
        }
    }
}

proof fn lemma_span_survives(names: Seq<Option<String>>, counts: Seq<usize>, i: int, n: int)
    requires
        0 <= i < n <= names.len(),
        forall|j: int|
            i < j < names.len() ==> spec_node_name(j as nat, name_at(names, j)) != spec_node_name(
                i as nat,
                name_at(names, i),
            ),
    ensures
        spec_lower_provenance(names, counts, n).dom().contains(spec_node_name(i as nat, name_at(names, i))),
        spec_lower_provenance(names, counts, n)[spec_node_name(i as nat, name_at(names, i))]
            == (SegmentSpan { start: prefix_sum(counts, i) as usize, end: prefix_sum(counts, i + 1) as usize }),
    decreases n - i,
{
    if n > i + 1 {
        lemma_span_survives(names, counts, i, n - 1);
        assert(spec_node_name((n - 1) as nat, name_at(names, n - 1)) != spec_node_name(i as nat, name_at(names, i)));
    }
}

} // verus!
