//! Provenance mapping: which lowered L2 segments each authoring node produced.
use vstd::prelude::*;

verus! {

/// A stable identifier for an L0/L1 authoring node.
#[derive(Debug, Clone)]
pub struct NodeId(pub String);

impl View for NodeId {
    type V = Seq<char>;

    open spec fn view(&self) -> Seq<char> {
        self.0@
    }
}

impl NodeId {
    pub fn new(id: &str) -> (n: NodeId)
        ensures
            n@ == id@,
    {
        NodeId(crate::text::string_from_str(id))
    }
}

/// A contiguous span of lowered L2 segment indices `[start, end)`.
#[derive(Debug, Clone, Copy, PartialEq, Eq, Structural)]
pub struct SegmentSpan {
    pub start: usize,
    pub end: usize,
}

impl SegmentSpan {
    /// Whether the span covers segment `index`.
    pub open spec fn covers(self, index: int) -> bool {
        self.start <= index < self.end
    }

    pub fn new(start: usize, end: usize) -> (s: SegmentSpan)
        ensures
            s.start == start,
            s.end == end,
    {
        SegmentSpan { start, end }
    }

    /// Check if this span contains the given segment index.
    pub fn contains(&self, index: usize) -> (b: bool)
        ensures
            b == self.covers(index as int),
    {
        index >= self.start && index < self.end
    }

    /// Number of segments covered by this span (zero for an inverted span).
    pub fn len(&self) -> (n: usize)
        ensures
            n == if self.end >= self.start {
                self.end - self.start
            } else {
                0
            },
    {
        self.end.saturating_sub(self.start)
    }

    /// Whether the span covers no segment.
    pub fn is_empty(&self) -> (b: bool)
        ensures
            b == (self.start >= self.end),
            b == (forall|i: int| !self.covers(i)),
    {
        if self.start < self.end {
            assert(self.covers(self.start as int));
        }
        self.start >= self.end
    }
}

/// Map between authoring `NodeId` and lowered `SegmentSpan`: one span per node id.
#[derive(Debug)]
pub struct ProvenanceMap {
    entries: Vec<(NodeId, SegmentSpan)>,
}

/// The node ids of `es` are pairwise distinct.
pub open spec fn distinct_keys(es: Seq<(NodeId, SegmentSpan)>) -> bool {
    forall|i: int, j: int|
        0 <= i < es.len() && 0 <= j < es.len() && i != j ==> (#[trigger] es[i]).0@ != (#[trigger] es[j]).0@
}

/// Whether some entry of `es` is for the node id `k`.
pub open spec fn has_key(es: Seq<(NodeId, SegmentSpan)>, k: Seq<char>) -> bool {
    exists|i: int| 0 <= i < es.len() && (#[trigger] es[i]).0@ == k
}

/// The index of the entry for `k` in `es`.
pub open spec fn key_index(es: Seq<(NodeId, SegmentSpan)>, k: Seq<char>) -> int {
    choose|i: int| 0 <= i < es.len() && (#[trigger] es[i]).0@ == k
}

/// The map that the entries `es` describe.
pub open spec fn entries_map(es: Seq<(NodeId, SegmentSpan)>) -> Map<Seq<char>, SegmentSpan> {
    Map::new(|k: Seq<char>| has_key(es, k), |k: Seq<char>| es[key_index(es, k)].1)
}

impl View for ProvenanceMap {
    type V = Map<Seq<char>, SegmentSpan>;

    closed spec fn view(&self) -> Map<Seq<char>, SegmentSpan> {
        entries_map(self.entries@)
    }
}

proof fn lemma_key_index(es: Seq<(NodeId, SegmentSpan)>, i: int)
    requires
        distinct_keys(es),
        0 <= i < es.len(),
    ensures
        has_key(es, es[i].0@),
        key_index(es, es[i].0@) == i,
        entries_map(es).dom().contains(es[i].0@),
        entries_map(es)[es[i].0@] == es[i].1,
{
    let k = es[i].0@;
    assert(has_key(es, k));
    let j = key_index(es, k);
    assert(es[j].0@ == k);
}

impl ProvenanceMap {
    /// The entries hold each node id at most once.
    #[verifier::type_invariant]
    spec fn wf(&self) -> bool {
        distinct_keys(self.entries@)
    }

    pub fn new() -> (m: ProvenanceMap)
        ensures
            m@ == Map::<Seq<char>, SegmentSpan>::empty(),
    {
        let m = ProvenanceMap { entries: Vec::new() };
        assert(m@ =~= Map::<Seq<char>, SegmentSpan>::empty());
        m
    }

    /// The index of the entry for `k`, if there is one.
    fn position(&self, k: &Vec<char>) -> (r: Option<usize>)
        ensures
            match r {
                Some(i) => i < self.entries@.len() && self.entries@[i as int].0@ == k@,
                None => !has_key(self.entries@, k@),
            },
    {
        let mut i: usize = 0;
        while i < self.entries.len()
            invariant
                i <= self.entries@.len(),
                forall|j: int| 0 <= j < i ==> (#[trigger] self.entries@[j]).0@ != k@,
            decreases self.entries@.len() - i,
        {
            let other = crate::text::chars_of(self.entries[i].0.0.as_str());
            if crate::text::chars_eq(&other, k) {
                return Some(i);
            }
            i = i + 1;
        }
        None
    }

    /// Record the lowered segment span for a given node, replacing any span recorded before.
    pub fn insert(&mut self, node_id: NodeId, span: SegmentSpan)
        ensures
            final(self)@ == old(self)@.insert(node_id@, span),
    {
        let k = crate::text::chars_of(node_id.0.as_str());
        proof {
            use_type_invariant(&*self);
        }
        let ghost es = self.entries@;
        let pos = self.position(&k);
        let mut entries: Vec<(NodeId, SegmentSpan)> = Vec::new();
        std::mem::swap(&mut entries, &mut self.entries);
        assert(entries@ == es);
        match pos {
            Some(i) => {
                entries.set(i, (node_id, span));
                proof {
                    let es2 = entries@;
                    assert(distinct_keys(es2)) by {
                        assert forall|a: int, b: int|
                            0 <= a < es2.len() && 0 <= b < es2.len() && a != b implies (
                            #[trigger] es2[a]).0@ != (#[trigger] es2[b]).0@ by {
                            if a != i && b != i {
                                assert(es2[a] == es[a] && es2[b] == es[b]);
                            } else if a == i {
                                assert(es2[b] == es[b]);
                                assert(es[a].0@ == k@);
                            } else {
                                assert(es2[a] == es[a]);
                                assert(es[b].0@ == k@);
                            }
                        }
                    }
                    let m1 = entries_map(es);
                    let m2 = entries_map(es2);
                    assert forall|k2: Seq<char>| #![auto] m2.dom().contains(k2) == m1.insert(k@, span).dom().contains(k2) by {
                        if has_key(es, k2) {
                            let j = key_index(es, k2);
                            if j != i {
                                assert(es2[j] == es[j]);
                            } else {
                                assert(es2[i as int].0@ == k@);
                            }
                        }
                        if has_key(es2, k2) {
                            let j = key_index(es2, k2);
                            if j != i {
                                assert(es2[j] == es[j]);
                            }
                        }
                        if k2 == k@ {
                            assert(es2[i as int].0@ == k@);
                        }
                    }
                    assert forall|k2: Seq<char>| #![auto] m2.dom().contains(k2) implies m2[k2] == m1.insert(k@, span)[k2] by {
                        let j = key_index(es2, k2);
                        lemma_key_index(es2, j);
                        if j != i {
                            assert(es2[j] == es[j]);
                            lemma_key_index(es, j);
                        }
                    }
                    assert(m2 =~= m1.insert(k@, span));
                }
            },
            None => {
                entries.push((node_id, span));
                proof {
                    let es2 = entries@;
                    let n = es.len() as int;
                    assert(distinct_keys(es2)) by {
                        assert forall|a: int, b: int|
                            0 <= a < es2.len() && 0 <= b < es2.len() && a != b implies (
                            #[trigger] es2[a]).0@ != (#[trigger] es2[b]).0@ by {
                            if a < n && b < n {
                                assert(es2[a] == es[a] && es2[b] == es[b]);
                            } else if a == n {
                                assert(es2[b] == es[b]);
                            } else {
                                assert(es2[a] == es[a]);
                            }
                        }
                    }
                    let m1 = entries_map(es);
                    let m2 = entries_map(es2);
                    assert forall|k2: Seq<char>| #![auto] m2.dom().contains(k2) == m1.insert(k@, span).dom().contains(k2) by {
                        if has_key(es, k2) {
                            let j = key_index(es, k2);
                            assert(es2[j] == es[j]);
                        }
                        if has_key(es2, k2) {
                            let j = key_index(es2, k2);
                            if j < n {
                                assert(es2[j] == es[j]);
                            }
                        }
                        if k2 == k@ {
                            assert(es2[n].0@ == k@);
                        }
                    }
                    assert forall|k2: Seq<char>| #![auto] m2.dom().contains(k2) implies m2[k2] == m1.insert(k@, span)[k2] by {
                        let j = key_index(es2, k2);
                        lemma_key_index(es2, j);
                        if j < n {
                            assert(es2[j] == es[j]);
                            lemma_key_index(es, j);
                        }
                    }
                    assert(m2 =~= m1.insert(k@, span));
                }
            },
        }
            self.entries = entries;
    }

    /// Lookup the segment span for an authoring node.
    pub fn get_span(&self, node_id: &NodeId) -> (r: Option<SegmentSpan>)
        ensures
            r == if self@.dom().contains(node_id@) {
                Some(self@[node_id@])
            } else {
                None
            },
    {
        proof {
            use_type_invariant(self);
        }
        let k = crate::text::chars_of(node_id.0.as_str());
        match self.position(&k) {
            Some(i) => {
                proof {
                    lemma_key_index(self.entries@, i as int);
                }
                Some(self.entries[i].1)
            },
            None => None,
        }
    }

    /// Lookup which authoring node generated a specific segment index.
    pub fn find_node_for_segment(&self, segment_index: usize) -> (r: Option<&NodeId>)
        ensures
            match r {
                Some(n) => self@.dom().contains(n@) && self@[n@].covers(segment_index as int),
                None => forall|k: Seq<char>|
                    #![trigger self@[k]]
                    self@.dom().contains(k) ==> !self@[k].covers(segment_index as int),
            },
    {
        proof {
            use_type_invariant(self);
        }
        let mut i: usize = 0;
        while i < self.entries.len()
            invariant
                distinct_keys(self.entries@),
                i <= self.entries@.len(),
                forall|j: int| 0 <= j < i ==> !(#[trigger] self.entries@[j]).1.covers(segment_index as int),
            decreases self.entries@.len() - i,
        {
            if self.entries[i].1.contains(segment_index) {
                proof {
                    lemma_key_index(self.entries@, i as int);
                }
                return Some(&self.entries[i].0);
            }
            i = i + 1;
        }
        proof {
            assert forall|k: Seq<char>| #![trigger self@[k]] self@.dom().contains(k) implies !self@[k].covers(segment_index as int) by {
                let j = key_index(self.entries@, k);
                lemma_key_index(self.entries@, j);
            }
        }
        None
    }
}

impl Clone for ProvenanceMap {
    /// A copy holding the same spans.
    fn clone(&self) -> (r: ProvenanceMap)
        ensures
            r@ == self@,
    {
        proof {
            use_type_invariant(self);
        }
        let mut entries: Vec<(NodeId, SegmentSpan)> = Vec::new();
        let mut i: usize = 0;
        while i < self.entries.len()
            invariant
                i <= self.entries@.len(),
                entries@.len() == i,
                forall|j: int| 0 <= j < i ==> (#[trigger] entries@[j]).0@ == self.entries@[j].0@ && entries@[j].1 == self.entries@[j].1,
            decreases self.entries@.len() - i,
        {
            let e = &self.entries[i];
            entries.push((NodeId(e.0.0.clone()), e.1));
            i = i + 1;
        }
        proof {
            let es = self.entries@;
            let cs = entries@;
            assert(distinct_keys(cs)) by {
                assert forall|a: int, b: int| 0 <= a < cs.len() && 0 <= b < cs.len() && a != b implies (#[trigger] cs[a]).0@ != (#[trigger] cs[b]).0@ by {
                    assert(es[a].0@ != es[b].0@);
                }
            }
            assert forall|k: Seq<char>| has_key(cs, k) == has_key(es, k) by {
                if has_key(cs, k) {
                    let j = choose|j: int| 0 <= j < cs.len() && (#[trigger] cs[j]).0@ == k;
                    assert(es[j].0@ == k);
                }
                if has_key(es, k) {
                    let j = choose|j: int| 0 <= j < es.len() && (#[trigger] es[j]).0@ == k;
                    assert(cs[j].0@ == k);
                }
            }
            assert forall|k: Seq<char>| #![auto] has_key(es, k) implies entries_map(cs)[k] == entries_map(es)[k] by {
                let j = key_index(es, k);
                lemma_key_index(es, j);
                assert(cs[j].0@ == k);
                lemma_key_index(cs, j);
            }
            assert(entries_map(cs) =~= entries_map(es));
        }
        ProvenanceMap { entries }
    }
}

impl Default for ProvenanceMap {
    fn default() -> (m: ProvenanceMap)
        ensures
            m@ == Map::<Seq<char>, SegmentSpan>::empty(),
    {
        ProvenanceMap::new()
    }
}

/// Law: reading a node's span back after recording it gives the recorded span, and leaves every
/// other node's span as it was (`after` is `before` with `span` recorded for `k`, as `insert`
/// leaves it).
pub proof fn law_get_after_insert(before: ProvenanceMap, after: ProvenanceMap, k: Seq<char>, span: SegmentSpan, other: Seq<char>)
    requires
        after@ == before@.insert(k, span),
        other != k,
    ensures
        after@.dom().contains(k),
        after@[k] == span,
        after@.dom().contains(other) == before@.dom().contains(other),
        before@.dom().contains(other) ==> after@[other] == before@[other],
{
}

} // verus!
