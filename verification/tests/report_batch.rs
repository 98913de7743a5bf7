use dry_core::report::{
    BatchFileResult, BatchStatus, LocatedFinding, ReviewBatch, ReviewReport, RewriteReport,
    RewriteSpanResult, UnmodeledCommand,
};
use dry_core::verify::{Finding, Report, Severity};

fn located(rule: &str, severity: Severity) -> LocatedFinding {
    LocatedFinding {
        rule: rule.to_string(),
        severity,
        segment: Some(0),
        source_line: None,
        message: "probe".to_string(),
    }
}

fn review(file: &str, findings: Vec<LocatedFinding>) -> ReviewReport<()> {
    let error_count = findings
        .iter()
        .filter(|f| f.severity == Severity::Error)
        .count();
    ReviewReport {
        file: Some(file.to_string()),
        profile: None,
        segments: 3,
        metrics: (),
        findings,
        error_count,
        segments_inspected: 3,
        rules_evaluated: Vec::new(),
        license: None,
    }
}

#[test]
fn a_files_status_follows_its_error_count_not_its_warnings() {
    let warned = BatchFileResult::inspected(
        "warned.gcode".into(),
        review("warned.gcode", vec![located("bead", Severity::Warning)]),
    );
    assert_eq!(warned.status, BatchStatus::Passed);
    let failed = BatchFileResult::inspected(
        "failed.gcode".into(),
        review("failed.gcode", vec![located("max-flow", Severity::Error)]),
    );
    assert_eq!(failed.status, BatchStatus::Failed);
}

#[test]
fn exactly_one_of_review_and_error_is_present() {
    for result in [
        BatchFileResult::inspected("a.gcode".into(), review("a.gcode", vec![])),
        BatchFileResult::errored("b.gcode".into(), "cannot import".into()),
    ] {
        assert_ne!(result.review.is_some(), result.error.is_some());
    }
}

#[test]
fn the_envelope_counts_each_verdict_separately() {
    let batch = ReviewBatch::build(
        Some("voron24-abs".into()),
        vec![
            BatchFileResult::inspected("a.gcode".into(), review("a.gcode", vec![])),
            BatchFileResult::inspected(
                "b.gcode".into(),
                review("b.gcode", vec![located("max-flow", Severity::Error)]),
            ),
            BatchFileResult::errored("c.gcode".into(), "unsupported word at line 12".into()),
        ],
    );
    assert_eq!(batch.files_total, 3);
    assert_eq!(batch.files_passed, 1);
    assert_eq!(batch.files_failed, 1);
    assert_eq!(batch.files_errored, 1);
    assert_eq!(batch.profile.as_deref(), Some("voron24-abs"));
    assert_eq!(
        batch.results.iter().map(|r| r.status).collect::<Vec<_>>(),
        vec![BatchStatus::Passed, BatchStatus::Failed, BatchStatus::Errored]
    );
}

#[test]
fn a_rule_twice_in_one_file_counts_one_file_and_two_findings() {
    let batch = ReviewBatch::build(
        None,
        vec![
            BatchFileResult::inspected(
                "a.gcode".into(),
                review(
                    "a.gcode",
                    vec![
                        located("max-flow", Severity::Error),
                        located("max-flow", Severity::Error),
                        located("bead", Severity::Warning),
                    ],
                ),
            ),
            BatchFileResult::inspected(
                "b.gcode".into(),
                review("b.gcode", vec![located("bead", Severity::Warning)]),
            ),
            BatchFileResult::errored("c.gcode".into(), "cannot read".into()),
        ],
    );
    assert_eq!(
        batch
            .findings_by_rule
            .iter()
            .map(|t| (t.rule.as_str(), t.errors, t.warnings, t.files))
            .collect::<Vec<_>>(),
        vec![("bead", 0, 2, 2), ("max-flow", 2, 0, 1)]
    );
}

#[test]
fn an_empty_batch_aggregates_to_zeroes() {
    let batch: ReviewBatch<()> = ReviewBatch::build(None, Vec::new());
    assert_eq!(batch.files_total, 0);
    assert!(batch.findings_by_rule.is_empty());
    assert!(batch.results.is_empty());
}

#[test]
fn verdict_counts_partition_the_files() {
    let batch = ReviewBatch::build(
        None,
        vec![
            BatchFileResult::errored("x.gcode".into(), "e".into()),
            BatchFileResult::inspected("y.gcode".into(), review("y.gcode", vec![located("a-rule", Severity::Warning)])),
            BatchFileResult::errored("z.gcode".into(), "e".into()),
            BatchFileResult::inspected("w.gcode".into(), review("w.gcode", vec![located("z-rule", Severity::Error), located("a-rule", Severity::Error)])),
        ],
    );
    assert_eq!(batch.files_total, 4);
    assert_eq!(batch.files_passed + batch.files_failed + batch.files_errored, batch.files_total);
    assert_eq!(batch.files_errored, 2);
    assert_eq!(batch.files_failed, 1);
    assert_eq!(
        batch
            .findings_by_rule
            .iter()
            .map(|t| (t.rule.as_str(), t.errors, t.warnings, t.files))
            .collect::<Vec<_>>(),
        vec![("a-rule", 1, 1, 2), ("z-rule", 1, 0, 1)]
    );
    assert!(batch.license.is_none());
}

#[test]
fn a_review_locates_each_finding_through_the_line_map() {
    let report: Report<()> = Report {
        findings: vec![
            Finding { rule: "bead".into(), severity: Severity::Error, segment: Some(2), message: "thin".into() },
            Finding { rule: "continuity".into(), severity: Severity::Warning, segment: None, message: "gap".into() },
        ],
        segments_inspected: 5,
        rules_evaluated: vec!["bead".to_string(), "continuity".to_string()],
        contracts: (),
        license: None,
    };
    let r = ReviewReport::build(
        Some("part.gcode".into()),
        Some("voron".into()),
        5,
        7u32,
        &report,
        |s: usize| Some(s * 10 + 1),
    );
    assert_eq!(r.file.as_deref(), Some("part.gcode"));
    assert_eq!(r.metrics, 7u32);
    assert_eq!(r.error_count, 1);
    assert_eq!(r.findings.len(), 2);
    assert_eq!(r.findings[0].source_line, Some(21));
    assert_eq!(r.findings[0].rule, "bead");
    assert_eq!(r.findings[1].source_line, None);
    assert_eq!(r.segments_inspected, 5);
    assert_eq!(r.rules_evaluated, vec!["bead".to_string(), "continuity".to_string()]);
}

#[test]
fn unmodeled_gcode_is_added_as_located_warnings() {
    let mut r = review("a.gcode", vec![located("max-flow", Severity::Error)]);
    r.add_unmodeled_gcode(&vec![UnmodeledCommand {
        command: "M84".into(),
        raw: "M84 ; motors off".into(),
        source_line: 12,
    }]);
    assert_eq!(r.findings.len(), 2);
    assert_eq!(r.findings[1].rule, "unmodeled-gcode");
    assert_eq!(r.findings[1].severity, Severity::Warning);
    assert_eq!(r.findings[1].source_line, Some(12));
    assert_eq!(r.error_count, 1);
}

#[test]
fn a_located_finding_copies_the_finding() {
    let f = Finding { rule: "finite".into(), severity: Severity::Error, segment: Some(4), message: "nan".into() };
    let lf = LocatedFinding::new(&f, Some(9));
    assert_eq!(lf.rule, "finite");
    assert_eq!(lf.segment, Some(4));
    assert_eq!(lf.source_line, Some(9));
    assert_eq!(lf.message, "nan");
}

#[test]
fn a_rewrite_report_tallies_its_spans() {
    let span = |i: usize, accepted: bool| RewriteSpanResult {
        span_index: i,
        accepted,
        segment_count_before: 10,
        segment_count_after: 8,
        new_error_rules: Vec::new(),
    };
    let r = RewriteReport::build(
        None,
        None,
        "balanced".into(),
        100,
        96,
        (),
        (),
        vec![span(0, true), span(1, false), span(2, true)],
    );
    assert_eq!(r.spans_total, 3);
    assert_eq!(r.spans_accepted, 2);
    assert_eq!(r.spans_rejected, 1);
    assert_eq!(r.segment_count_before, 100);
    assert_eq!(r.segment_count_after, 96);
    assert_eq!(r.mode, "balanced");
}

#[test]
fn the_rule_tallies_add_up_to_the_findings() {
    let batch = ReviewBatch::build(
        None,
        vec![
            BatchFileResult::inspected(
                "a.gcode".into(),
                review("a.gcode", vec![located("m", Severity::Error), located("b", Severity::Warning), located("m", Severity::Warning)]),
            ),
            BatchFileResult::errored("x.gcode".into(), "e".into()),
            BatchFileResult::inspected("c.gcode".into(), review("c.gcode", vec![located("b", Severity::Error)])),
        ],
    );
    let sum: usize = batch.findings_by_rule.iter().map(|t| t.errors + t.warnings).sum();
    assert_eq!(sum, 4);
}
