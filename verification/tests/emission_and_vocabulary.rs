use dry_core::generate::{at_least, DrapeError, PocketError, Surface, TpmsError};
use dry_core::multi_head::{emit_idex_mode, emit_select_head, HeadMode};
use dry_core::multi_robot::{emit_dual_robot_sync_krl, emit_dual_robot_sync_rapid};
use dry_core::pass::PassRole;
use dry_core::profile::capability::{CompatibilityFinding, CompatibilityReport, Severity};
use dry_core::profile::default_profile_version;
use dry_core::schema::{get_dialect_schema, INTENT_V1_SCHEMA, MOTION_V1_SCHEMA, PATH_V1_SCHEMA, TOOL_V1_SCHEMA};
use dry_core::step_nc::extract_attr;
use dry_core::tool::tool_change_blocks;

#[test]
fn test_dual_robot_sync_emission() {
    let master_lines = emit_dual_robot_sync_krl(10, true);
    let slave_lines = emit_dual_robot_sync_krl(10, false);
    assert_eq!(master_lines.len(), 3);
    assert_eq!(slave_lines.len(), 3);
    assert!(master_lines[1].contains("$FLAG[10] = TRUE"));
    assert!(slave_lines[1].contains("WAIT FOR $FLAG[10]"));
}

#[test]
fn krl_barriers_are_exact() {
    assert_eq!(
        emit_dual_robot_sync_krl(7, true),
        vec!["; --- Sync Barrier (Master) Flag 7 ---", "$FLAG[7] = TRUE", "WAIT FOR NOT $FLAG[7]"]
    );
    assert_eq!(
        emit_dual_robot_sync_krl(0, false),
        vec!["; --- Sync Barrier (Slave) Flag 0 ---", "WAIT FOR $FLAG[0]", "$FLAG[0] = FALSE"]
    );
}

#[test]
fn rapid_barriers_join_the_task_list() {
    assert_eq!(
        emit_dual_robot_sync_rapid("sync1", &["T_ROB1", "T_ROB2"]),
        vec!["! --- ABB MultiMove Sync Barrier \"sync1\" ---", "WaitSyncTask sync1, [T_ROB1, T_ROB2];"]
    );
    assert_eq!(
        emit_dual_robot_sync_rapid("s", &[]),
        vec!["! --- ABB MultiMove Sync Barrier \"s\" ---", "WaitSyncTask s, [tasks_all];"]
    );
}

#[test]
fn tool_change_pads_the_slot_to_two_digits() {
    assert_eq!(tool_change_blocks(3, "6mm flat"), vec!["T03 M06 ; Tool Change: 6mm flat", "G43 H03 ; Tool Length Offset"]);
    assert_eq!(tool_change_blocks(12, "drill"), vec!["T12 M06 ; Tool Change: drill", "G43 H12 ; Tool Length Offset"]);
    assert_eq!(tool_change_blocks(123, "x")[0], "T123 M06 ; Tool Change: x");
}

#[test]
fn head_selection_names_the_head_twice() {
    assert_eq!(emit_select_head(0), "T0 ; Select Toolhead 0");
    assert_eq!(emit_select_head(42), "T42 ; Select Toolhead 42");
}

#[test]
fn pass_roles_have_distinct_names_and_colours() {
    let all = [
        PassRole::Roughing,
        PassRole::Finishing,
        PassRole::Perimeter,
        PassRole::Infill,
        PassRole::Support,
        PassRole::LeadIn,
        PassRole::LeadOut,
        PassRole::Travel,
    ];
    assert_eq!(PassRole::LeadIn.as_str(), "lead_in");
    assert_eq!(PassRole::Travel.default_color(), "#ef4444");
    for (i, a) in all.iter().enumerate() {
        for b in &all[i + 1..] {
            assert_ne!(a.as_str(), b.as_str());
        }
    }
}

#[test]
fn dialects_answer_to_full_short_and_bare_ids() {
    assert_eq!(get_dialect_schema("dry.intent/1"), Some(INTENT_V1_SCHEMA));
    assert_eq!(get_dialect_schema("path/1"), Some(PATH_V1_SCHEMA));
    assert_eq!(get_dialect_schema("motion"), Some(MOTION_V1_SCHEMA));
    assert_eq!(get_dialect_schema("tool"), Some(TOOL_V1_SCHEMA));
    assert_eq!(get_dialect_schema("dry.tool/2"), None);
    assert_eq!(get_dialect_schema(""), None);
}

#[test]
fn workingstep_attributes_are_read_between_quotes() {
    let line = r#"<workingstep id="ws-1" type="hole" x="10" y="20.5" diameter="6">"#;
    assert_eq!(extract_attr(line, "id").as_deref(), Some("ws-1"));
    assert_eq!(extract_attr(line, "y").as_deref(), Some("20.5"));
    assert_eq!(extract_attr(line, "depth"), None);
    assert_eq!(extract_attr(r#"<w id="open"#, "id"), None);
}

#[test]
fn integer_options_are_checked_against_their_minimum() {
    assert_eq!(at_least("samples", 8, 4).unwrap(), 8);
    assert_eq!(at_least("samples", 4, 4).unwrap(), 4);
    let e = at_least("samples", 3, 4).unwrap_err();
    assert_eq!(e.display_text(), "samples must be an integer >= 4");
}

#[test]
fn surfaces_have_kebab_case_wire_names() {
    assert_eq!(Surface::SchwarzP.wire_name(), "schwarz-p");
    assert_eq!(Surface::FischerKochY.wire_name(), "fischer-koch-y");
    assert_eq!(Surface::Gyroid.wire_name(), "gyroid");
}

#[test]
fn error_types_display_their_messages() {
    assert_eq!(PocketError::new("tool too large").display_text(), "tool too large");
    assert_eq!(TpmsError::new("budget".to_string()).display_text(), "budget");
    assert_eq!(DrapeError::NoSurfaceHit("at 3,4".to_string()).display_text(), "No surface hit: at 3,4");
}

#[test]
fn a_compatibility_report_fails_on_its_first_error() {
    let mut r = CompatibilityReport::new();
    assert!(r.compatible);
    r.add_finding(CompatibilityFinding {
        severity: Severity::Warning,
        code: "w".into(),
        message: "m".into(),
        segment_index: None,
    });
    assert!(r.compatible);
    r.add_finding(CompatibilityFinding {
        severity: Severity::Error,
        code: "e".into(),
        message: "m".into(),
        segment_index: Some(1),
    });
    assert!(!r.compatible);
    assert_eq!(r.findings.len(), 2);
}

#[test]
fn the_default_profile_version_is_one() {
    assert_eq!(default_profile_version(), 1);
}

#[test]
fn idex_modes_emit_their_m605_lines() {
    assert_eq!(emit_idex_mode(HeadMode::Independent, "100.000"), vec!["M605 S1 ; Set IDEX Mode: Auto-Park (Independent)"]);
    assert_eq!(
        emit_idex_mode(HeadMode::Duplication, "152.500"),
        vec!["M605 S2 X152.500 ; Set IDEX Mode: Duplication", "M605 W ; Activate Duplication"]
    );
    assert_eq!(emit_idex_mode(HeadMode::Mirrored, ""), vec!["M605 S3 ; Set IDEX Mode: Mirrored"]);
    assert_eq!(emit_idex_mode(HeadMode::Sequential, ""), vec!["M605 S0 ; Set IDEX Mode: Manual / Sequential"]);
}
