use dry_core::pipeline::{lower_provenance, node_id_for, PipelineError};
use dry_core::provenance::{NodeId, ProvenanceMap, SegmentSpan};

#[test]
fn a_span_covers_its_half_open_range() {
    let s = SegmentSpan::new(2, 5);
    assert!(s.contains(2));
    assert!(s.contains(4));
    assert!(!s.contains(5));
    assert_eq!(s.len(), 3);
    assert!(!s.is_empty());
    let inverted = SegmentSpan::new(5, 2);
    assert_eq!(inverted.len(), 0);
    assert!(inverted.is_empty());
}

#[test]
fn a_lookup_after_an_insert_returns_the_span() {
    let mut m = ProvenanceMap::new();
    m.insert(NodeId::new("a"), SegmentSpan::new(0, 3));
    m.insert(NodeId::new("b"), SegmentSpan::new(3, 4));
    assert_eq!(m.get_span(&NodeId::new("a")), Some(SegmentSpan::new(0, 3)));
    m.insert(NodeId::new("a"), SegmentSpan::new(7, 9));
    assert_eq!(m.get_span(&NodeId::new("a")), Some(SegmentSpan::new(7, 9)));
    assert_eq!(m.get_span(&NodeId::new("b")), Some(SegmentSpan::new(3, 4)));
    assert_eq!(m.get_span(&NodeId::new("c")), None);
}

#[test]
fn a_segment_is_traced_to_the_node_that_produced_it() {
    let mut m = ProvenanceMap::new();
    m.insert(NodeId::new("wall"), SegmentSpan::new(0, 10));
    m.insert(NodeId::new("infill"), SegmentSpan::new(10, 25));
    assert_eq!(m.find_node_for_segment(12).map(|n| n.0.clone()), Some("infill".to_string()));
    assert_eq!(m.find_node_for_segment(0).map(|n| n.0.clone()), Some("wall".to_string()));
    assert!(m.find_node_for_segment(25).is_none());
}

#[test]
fn lowering_lays_feature_spans_end_to_end() {
    let names = vec![Some("outer".to_string()), None, Some("hole".to_string())];
    let counts = vec![4usize, 2, 3];
    let (m, total) = lower_provenance(&names, &counts);
    assert_eq!(total, 9);
    assert_eq!(m.get_span(&NodeId::new("outer")), Some(SegmentSpan::new(0, 4)));
    assert_eq!(m.get_span(&NodeId::new("feature_1")), Some(SegmentSpan::new(4, 6)));
    assert_eq!(m.get_span(&NodeId::new("hole")), Some(SegmentSpan::new(6, 9)));
}

#[test]
fn an_unnamed_feature_is_named_by_its_index() {
    assert_eq!(node_id_for(3, &None).0, "feature_3");
    assert_eq!(node_id_for(3, &Some("x".to_string())).0, "x");
}

#[test]
fn a_pipeline_error_displays_its_message() {
    assert_eq!(PipelineError::new("bad").display_text(), "bad");
}
