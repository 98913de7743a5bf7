use dry_core::optimize::OptimizeMode;
use dry_core::recommend::{
    classify, contract_field, default_priority, flag_value, rewrite_mode, settle_range, split_range,
    ActionKind, Classified, ContractField, ExecutableAction, OverrideText, Recommendation,
};

fn rec(kind: ActionKind, mode: Option<&str>, field: Option<&str>, value: Option<&str>) -> Recommendation {
    Recommendation {
        title: "t".into(),
        rationale: "r".into(),
        expected_effect: "e".into(),
        priority: 1,
        action_kind: kind,
        mode: mode.map(String::from),
        field: field.map(String::from),
        value: value.map(String::from),
    }
}

fn advisory_reason(c: Classified) -> String {
    match c {
        Classified::Advisory(r) => r,
        other => panic!("expected advisory, got {other:?}"),
    }
}

#[test]
fn rewrite_balanced_is_executable() {
    let c = classify(&rec(ActionKind::Rewrite, Some("balanced"), None, None));
    assert!(matches!(
        c,
        Classified::Executable(ExecutableAction::Rewrite { mode: OptimizeMode::Balanced })
    ));
}

#[test]
fn rewrite_without_mode_is_advisory() {
    assert!(matches!(classify(&rec(ActionKind::Rewrite, None, None, None)), Classified::Advisory(_)));
}

#[test]
fn contract_max_flow_is_executable() {
    let c = classify(&rec(ActionKind::Contract, None, Some("max_flow"), Some("12")));
    match c {
        Classified::Executable(ExecutableAction::Contract {
            field: ContractField::MaxFlow,
            value: OverrideText::Number(t),
        }) => {
            let v: f64 = t.parse().unwrap();
            assert!((v - 12.0).abs() < 1e-9);
        }
        other => panic!("expected executable max_flow, got {other:?}"),
    }
}

#[test]
fn contract_speed_range_parses_pair() {
    let c = classify(&rec(ActionKind::Contract, None, Some("speed_range"), Some("300,3000")));
    match c {
        Classified::Executable(ExecutableAction::Contract {
            field: ContractField::SpeedRange,
            value: OverrideText::Range { raw, lo, hi },
        }) => {
            assert_eq!(raw, "300,3000");
            let (a, b): (f64, f64) = (lo.parse().unwrap(), hi.parse().unwrap());
            assert!((a - 300.0).abs() < 1e-9 && (b - 3000.0).abs() < 1e-9);
        }
        other => panic!("expected executable speed_range, got {other:?}"),
    }
}

#[test]
fn unknown_field_is_advisory() {
    assert!(matches!(
        classify(&rec(ActionKind::Contract, None, Some("infill_density"), Some("40"))),
        Classified::Advisory(_)
    ));
}

#[test]
fn unparsable_value_is_advisory() {
    assert!(matches!(
        classify(&rec(ActionKind::Contract, None, Some("max_flow"), Some("fast"))),
        Classified::Advisory(_)
    ));
}

#[test]
fn advisory_kind_is_advisory() {
    assert!(matches!(classify(&rec(ActionKind::Advisory, None, None, None)), Classified::Advisory(_)));
}

#[test]
fn advisory_reasons_name_what_was_missing_or_wrong() {
    assert_eq!(advisory_reason(classify(&rec(ActionKind::Advisory, None, None, None))), "model marked this advisory");
    assert_eq!(advisory_reason(classify(&rec(ActionKind::Rewrite, Some("turbo"), None, None))), "unknown rewrite mode `turbo`");
    assert_eq!(advisory_reason(classify(&rec(ActionKind::Contract, None, None, Some("1")))), "contract recommendation has no field");
    assert_eq!(
        advisory_reason(classify(&rec(ActionKind::Contract, None, Some("infill_density"), Some("40")))),
        "contract field `infill_density` is not executable in v1"
    );
    assert_eq!(advisory_reason(classify(&rec(ActionKind::Contract, None, Some("min_temp"), None))), "contract recommendation has no value");
    assert_eq!(advisory_reason(classify(&rec(ActionKind::Contract, None, Some("max_flow"), Some(" fast ")))), "could not parse `fast` as a number");
    assert_eq!(advisory_reason(classify(&rec(ActionKind::Contract, None, Some("monotonic_z"), Some("maybe")))), "could not parse `maybe` as a bool");
}

#[test]
fn monotonic_z_flags_are_decided_on_the_trimmed_text() {
    let c = classify(&rec(ActionKind::Contract, None, Some("monotonic_z"), Some("  yes ")));
    assert_eq!(c, Classified::Executable(ExecutableAction::Contract { field: ContractField::MonotonicZ, value: OverrideText::Flag(true) }));
    let c = classify(&rec(ActionKind::Contract, None, Some("monotonic_z"), Some("0")));
    assert_eq!(c, Classified::Executable(ExecutableAction::Contract { field: ContractField::MonotonicZ, value: OverrideText::Flag(false) }));
}

#[test]
fn numbers_in_rust_float_syntax_are_accepted() {
    for ok in ["12", "-1.5", "+.5", "3.", "1e3", "2.5E-2", "inf", "-Infinity", "NaN"] {
        let c = classify(&rec(ActionKind::Contract, None, Some("min_temp"), Some(ok)));
        assert!(matches!(c, Classified::Executable(_)), "{ok} should be a number");
        assert!(ok.parse::<f64>().is_ok());
    }
    for bad in [".", "1e", "e5", "1.2.3", "--1", "1,5", "0x10", ""] {
        let c = classify(&rec(ActionKind::Contract, None, Some("min_temp"), Some(bad)));
        assert!(matches!(c, Classified::Advisory(_)), "{bad} should not be a number");
        assert!(bad.parse::<f64>().is_err());
    }
}

#[test]
fn the_vocabularies_are_closed() {
    assert_eq!(rewrite_mode("safe"), Some(OptimizeMode::Safe));
    assert_eq!(rewrite_mode("max"), Some(OptimizeMode::Max));
    assert_eq!(rewrite_mode("Max"), None);
    assert_eq!(contract_field("speed_range"), Some(ContractField::SpeedRange));
    assert_eq!(contract_field("bounds"), None);
    assert_eq!(flag_value("no"), Some(false));
    assert_eq!(flag_value("TRUE"), None);
    assert_eq!(default_priority(), 99);
}

/// The caller's verdict on a pair: both numbers finite and in order.
fn in_order(c: &Classified) -> bool {
    match c {
        Classified::Executable(ExecutableAction::Contract { value: OverrideText::Range { lo, hi, .. }, .. }) => {
            let (a, b): (f64, f64) = (lo.parse().unwrap(), hi.parse().unwrap());
            a.is_finite() && b.is_finite() && a <= b
        }
        _ => true,
    }
}

fn speed_range(value: &str) -> Classified {
    let c = classify(&rec(ActionKind::Contract, None, Some("speed_range"), Some(value)));
    let ok = in_order(&c);
    settle_range(c, ok)
}

#[test]
fn malformed_speed_ranges_are_advisory() {
    assert_eq!(advisory_reason(speed_range("fast")), "could not parse `fast` as `min,max`");
    assert_eq!(advisory_reason(speed_range("1,2,3")), "could not parse `1,2,3` as `min,max`");
    assert_eq!(advisory_reason(speed_range("")), "could not parse `` as `min,max`");
    assert_eq!(advisory_reason(speed_range(" 300,fast ")), "could not parse `300,fast` as `min,max`");
    assert_eq!(advisory_reason(speed_range("5,1")), "could not parse `5,1` as `min,max`");
    assert_eq!(advisory_reason(speed_range("inf,5")), "could not parse `inf,5` as `min,max`");
}

#[test]
fn a_well_formed_speed_range_is_split_and_kept() {
    let c = speed_range(" 300 , 3000 ");
    assert_eq!(
        c,
        Classified::Executable(ExecutableAction::Contract {
            field: ContractField::SpeedRange,
            value: OverrideText::Range { raw: "300 , 3000".into(), lo: "300".into(), hi: "3000".into() },
        })
    );
    assert!(matches!(speed_range("2,2"), Classified::Executable(_)));
    assert_eq!(split_range("1e3,-2.5"), Some(("1e3".to_string(), "-2.5".to_string())));
    assert_eq!(split_range("1;2"), None);
}

#[test]
fn settling_leaves_other_verdicts_alone() {
    let c = classify(&rec(ActionKind::Contract, None, Some("max_flow"), Some("12")));
    assert_eq!(settle_range(c.clone(), false), c);
}
