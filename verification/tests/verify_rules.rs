use dry_core::ir::SegmentKind;
use dry_core::verify::{
    catalog, has_straight_length, push_finding, rules_evaluated, ContractGates, ContractParseError,
    Finding, Report, RuleId, Severity,
};

fn all_gates() -> ContractGates {
    ContractGates {
        bounds: true,
        max_flow: true,
        speed_range: true,
        monotonic_z: true,
        min_temp: true,
        max_retraction_distance: true,
        max_retraction_speed: true,
        max_travel_without_retract: true,
        first_layer_height_range: true,
        first_layer_speed_range: true,
        bead_volume_tolerance: true,
        max_acceleration: true,
        max_junction_velocity: true,
        rotary_travel: true,
        rotary_feed: true,
        rotary_envelope: true,
        travel_must_be_dark: true,
    }
}

fn empty_report() -> Report<()> {
    Report {
        findings: Vec::new(),
        segments_inspected: 0,
        rules_evaluated: Vec::new(),
        contracts: (),
        license: None,
    }
}

#[test]
fn catalog_includes_the_two_kinematic_rules() {
    let cat = catalog();
    let pa = cat
        .iter()
        .find(|r| r.id == RuleId::PeakAcceleration)
        .expect("peak-acceleration in catalog");
    assert_eq!(pa.severity, Severity::Error);
    assert_eq!(RuleId::PeakAcceleration.as_str(), "peak-acceleration");
    let jv = cat
        .iter()
        .find(|r| r.id == RuleId::JunctionVelocity)
        .expect("junction-velocity in catalog");
    assert_eq!(jv.severity, Severity::Warning);
    assert_eq!(RuleId::JunctionVelocity.as_str(), "junction-velocity");
}

#[test]
fn rule_catalog_is_consistent() {
    let cat = catalog();
    assert_eq!(cat.len(), RuleId::ALL.len());
    for rule in &cat {
        assert_eq!(RuleId::from_wire(rule.id.as_str()), Some(rule.id));
        assert!(!rule.summary.is_empty());
        assert_eq!(rule.severity, rule.id.default_severity());
    }
    let warnings: Vec<&str> = cat
        .iter()
        .filter(|r| r.severity == Severity::Warning)
        .map(|r| r.id.as_str())
        .collect();
    assert_eq!(
        warnings,
        vec![
            "travel-extrudes",
            "travel-without-retraction",
            "first-layer-height",
            "first-layer-speed",
            "junction-velocity",
            "unmodeled-gcode",
            "filament-consistency",
            "rotary-feed",
        ]
    );
}

#[test]
fn contracts_default_evaluates_only_structural_rules() {
    let c = ContractGates::none();
    let evaluated: Vec<&str> = RuleId::ALL
        .into_iter()
        .filter(|r| r.is_evaluated(&c))
        .map(|r| r.as_str())
        .collect();
    assert_eq!(
        evaluated,
        vec![
            "finite",
            "travel-extrudes",
            "bead",
            "orientation-not-unit",
            "arc-radius",
            "unmodeled-gcode",
            "continuity",
            "negative-quantity",
            "segment-length",
            "arc-length",
            "filament-consistency",
        ],
        "the always-on structural set changed"
    );
    let can_fail: Vec<&str> = evaluated
        .iter()
        .copied()
        .filter(|id| RuleId::from_wire(id).unwrap().default_severity() == Severity::Error)
        .collect();
    assert_eq!(can_fail.len(), 8, "error-severity always-on rules: {can_fail:?}");
    assert_eq!(RuleId::ALL.len(), 28);
}

#[test]
fn a_fully_populated_contract_evaluates_every_rule() {
    let c = all_gates();
    assert!(RuleId::ALL.into_iter().all(|r| r.is_evaluated(&c)));
    assert_eq!(rules_evaluated(&ContractGates::none()).len(), 11);
    assert_eq!(rules_evaluated(&c).len(), 28);
}

#[test]
fn rotary_rules_are_evaluated_only_where_a_limit_is_supplied() {
    let travel_only = ContractGates {
        rotary_travel: true,
        ..ContractGates::none()
    };
    assert!(RuleId::RotaryTravel.is_evaluated(&travel_only));
    assert!(!RuleId::RotaryFeed.is_evaluated(&travel_only));
    assert!(!RuleId::OrientationReachability.is_evaluated(&travel_only));

    let empty_table = ContractGates::none();
    assert!(!RuleId::RotaryTravel.is_evaluated(&empty_table));
}

#[test]
fn every_wire_id_round_trips_and_unknown_ids_are_refused() {
    for id in RuleId::ALL {
        assert_eq!(RuleId::from_wire(id.as_str()), Some(id));
    }
    assert_eq!(RuleId::from_wire("no-such-rule"), None);
    assert_eq!(RuleId::from_wire(""), None);
    assert_eq!(RuleId::from_wire("Finite"), None);
}

#[test]
fn rules_evaluated_lists_the_wire_ids_in_catalog_order() {
    let ids = rules_evaluated(&ContractGates::none());
    assert_eq!(ids[0], "finite");
    assert_eq!(ids[10], "filament-consistency");
    let all = rules_evaluated(&all_gates());
    let names: Vec<String> = RuleId::ALL.iter().map(|r| r.as_str().to_string()).collect();
    assert_eq!(all, names);
}

#[test]
fn more_gates_never_evaluate_fewer_rules() {
    let some = ContractGates {
        max_flow: true,
        bounds: true,
        ..ContractGates::none()
    };
    let none = ContractGates::none();
    for id in RuleId::ALL {
        if id.is_evaluated(&none) {
            assert!(id.is_evaluated(&some));
        }
        if id.is_evaluated(&some) {
            assert!(id.is_evaluated(&all_gates()));
        }
    }
    assert!(RuleId::MaxFlow.is_evaluated(&some));
    assert!(!RuleId::MaxFlow.is_evaluated(&none));
}

#[test]
fn a_report_is_ok_until_an_error_is_pushed() {
    let mut report = empty_report();
    assert!(report.ok());
    assert_eq!(report.error_count(), 0);
    push_finding(&mut report, RuleId::JunctionVelocity, Some(3), "corner too fast".to_string());
    assert!(report.ok());
    assert_eq!(report.error_count(), 0);
    assert_eq!(report.findings[0].rule, "junction-velocity");
    assert_eq!(report.findings[0].severity, Severity::Warning);
    assert_eq!(report.findings[0].segment, Some(3));
    push_finding(&mut report, RuleId::MaxFlow, None, "flow".to_string());
    assert!(!report.ok());
    assert_eq!(report.error_count(), 1);
    assert_eq!(report.findings.len(), 2);
    assert_eq!(report.findings[1].severity, Severity::Error);
}

#[test]
fn a_report_counts_errors_among_its_findings() {
    let mut report = empty_report();
    report.findings = vec![
        Finding { rule: "bead".to_string(), severity: Severity::Error, segment: Some(0), message: "m".to_string() },
        Finding { rule: "bead".to_string(), severity: Severity::Warning, segment: None, message: "m".to_string() },
        Finding { rule: "finite".to_string(), severity: Severity::Error, segment: Some(2), message: "m".to_string() },
    ];
    assert_eq!(report.error_count(), 2);
    assert!(!report.ok());
}

#[test]
fn a_report_says_which_rules_it_evaluated() {
    let mut report = empty_report();
    report.rules_evaluated = rules_evaluated(&ContractGates::none());
    assert!(report.evaluated(RuleId::Finite));
    assert!(!report.evaluated(RuleId::MaxFlow));
}

#[test]
fn arcs_splines_and_manual_gcode_have_no_straight_length() {
    assert!(has_straight_length(SegmentKind::Line));
    assert!(!has_straight_length(SegmentKind::Arc));
    assert!(!has_straight_length(SegmentKind::Spline));
    assert!(!has_straight_length(SegmentKind::ManualGcode));
    assert!(has_straight_length(SegmentKind::Deposit));
}

#[test]
fn a_contract_parse_error_displays_its_message() {
    let e = ContractParseError::new("bad bounds value".to_string());
    assert_eq!(e.display_text(), "bad bounds value");
}

#[test]
fn every_wire_id_is_lowercase_kebab_case() {
    for id in RuleId::ALL {
        let s = id.as_str();
        assert!(!s.is_empty());
        assert!(s.split('-').all(|w| !w.is_empty() && w.chars().all(|c| c.is_ascii_lowercase())), "{s}");
    }
}
