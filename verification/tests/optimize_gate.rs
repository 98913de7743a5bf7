use dry_core::optimize::{gate_rewrite, new_error_rules};
use dry_core::verify::{Finding, Severity};

fn f(rule: &str, severity: Severity) -> Finding {
    Finding { rule: rule.to_string(), severity, segment: Some(0), message: "m".to_string() }
}

#[test]
fn a_rewrite_without_new_errors_is_accepted() {
    let before = vec![f("max-flow", Severity::Error)];
    let after = vec![f("max-flow", Severity::Error), f("junction-velocity", Severity::Warning)];
    let (accepted, rules) = gate_rewrite(&before, &after);
    assert!(accepted);
    assert!(rules.is_empty());
}

#[test]
fn a_rewrite_that_adds_error_rules_is_rejected_with_them_sorted() {
    let before = vec![f("bead", Severity::Error), f("speed", Severity::Warning)];
    let after = vec![
        f("speed", Severity::Error),
        f("bead", Severity::Error),
        f("arc-radius", Severity::Error),
        f("speed", Severity::Error),
        f("continuity", Severity::Warning),
    ];
    let (accepted, rules) = gate_rewrite(&before, &after);
    assert!(!accepted);
    assert_eq!(rules, vec!["arc-radius".to_string(), "speed".to_string()]);
}

#[test]
fn new_error_rules_of_nothing_is_nothing() {
    assert!(new_error_rules(&Vec::new(), &Vec::new()).is_empty());
    let after = vec![f("z", Severity::Error), f("a", Severity::Error), f("m", Severity::Error)];
    assert_eq!(new_error_rules(&Vec::new(), &after), vec!["a", "m", "z"]);
}
