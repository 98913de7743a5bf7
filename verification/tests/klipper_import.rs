use dry_core::profile::klipper::{import_klipper, scan_ini, KlipperImportError};

const CFG: &str = "\
[printer]\nkinematics: corexy\nmax_velocity: 300\nmax_accel: 3000\nsquare_corner_velocity: 5.0\n\
[stepper_x]\nposition_min: 0\nposition_max: 250\n\
[stepper_y]\nposition_max: 210\n\
[stepper_z]\nposition_max: 210\n\
[extruder]\nnozzle_diameter: 0.4\nfilament_diameter: 1.75\nmin_extrude_temp: 170\n\
[firmware_retraction]\nretract_length: 0.5\nretract_speed: 35\n";

fn number(t: &Option<String>) -> Option<f64> {
    t.as_ref().map(|s| s.parse::<f64>().unwrap())
}

#[test]
fn maps_clean_kinematic_fields_exactly() {
    let (v, _w) = import_klipper(CFG).unwrap();
    assert_eq!(v.firmware.flavor.as_deref(), Some("klipper"));
    assert_eq!(number(&v.max_accel), Some(3000.0));
    assert_eq!(number(&v.square_corner_velocity), Some(5.0));
    assert_eq!(number(&v.filament_diameter), Some(1.75));
    assert_eq!(number(&v.min_extrude_temp), Some(170.0));
    // retract_speed 35 mm/s → 2100 mm/min
    assert_eq!(number(&v.retract_speed).map(|s| s * 60.0), Some(2100.0));
}

#[test]
fn non_klipper_input_errors() {
    assert!(matches!(import_klipper("hello world\n"), Err(KlipperImportError::NotKlipper)));
}

#[test]
fn feedrate_range_is_omitted_with_a_warning() {
    let (v, w) = import_klipper(CFG).unwrap();
    assert!(v.feedrate_range.is_none());
    assert!(w.iter().any(|x| x.field == "machine.feedrate_range"));
}

#[test]
fn the_build_volume_comes_from_the_stepper_limits() {
    let (v, w) = import_klipper(CFG).unwrap();
    let bv = v.build_volume.expect("build volume");
    assert_eq!(bv.x_min.as_deref(), Some("0"));
    assert_eq!(bv.x_max, "250");
    assert_eq!(bv.y_min, None);
    assert_eq!(bv.y_max, "210");
    assert_eq!(bv.z_max.as_deref(), Some("210"));
    assert_eq!(v.nozzle_diameter.as_deref(), Some("0.4"));
    assert_eq!(v.retract_length.as_deref(), Some("0.5"));
    let fields: Vec<&str> = w.iter().map(|x| x.field.as_str()).collect();
    assert_eq!(
        fields,
        vec![
            "machine.feedrate_range",
            "machine.build_volume",
            "process.line_width",
            "process.max_retraction_distance",
            "process.max_retraction_speed",
            "material.max_volumetric_flow_mm3_s",
        ]
    );
    assert_eq!(w[1].message, "machine.build_volume approximated from stepper position limits");
    assert_eq!(
        w[4].message,
        "process.max_retraction_speed set from firmware_retraction.retract_speed (×60 mm/s→mm/min) — review"
    );
}

#[test]
fn an_unparsable_number_is_skipped_with_a_warning() {
    let (v, w) = import_klipper("[printer]\nmax_accel: fast\nsquare_corner_velocity = 1e1\n").unwrap();
    assert_eq!(v.max_accel, None);
    assert_eq!(v.square_corner_velocity.as_deref(), Some("1e1"));
    assert_eq!(w[0].field, "machine.kinematics.max_acceleration_mm_s2");
    assert_eq!(w[0].message, "could not parse max_accel 'fast' as a number — skipped");
    assert_eq!(w[1].field, "machine.feedrate_range");
    assert_eq!(w.len(), 3);
}

#[test]
fn delta_kinematics_skip_the_build_volume() {
    let (v, w) = import_klipper("[printer]\nkinematics: Delta\n[stepper_x]\nposition_max: 100\n[stepper_y]\nposition_max: 100\n").unwrap();
    assert!(v.build_volume.is_none());
    assert_eq!(w[1].field, "machine.build_volume");
    assert_eq!(
        w[1].message,
        "machine.build_volume skipped for delta/rotary_delta kinematics — add manually"
    );
}

#[test]
fn ignored_sections_and_extra_extruders_are_reported() {
    let text = "[printer]\n[extruder]\npressure_advance: 0.05\n[extruder1]\n[input_shaper]\nshaper_freq_x: 50\n[include macros.cfg]\n";
    let (_v, w) = import_klipper(text).unwrap();
    let fields: Vec<&str> = w.iter().map(|x| x.field.as_str()).collect();
    assert_eq!(
        fields,
        vec![
            "machine.feedrate_range",
            "extruder",
            "extruder.pressure_advance",
            "input_shaper",
            "include",
            "material.max_volumetric_flow_mm3_s",
        ]
    );
    assert_eq!(w[1].message, "only the first extruder imported");
    assert_eq!(w[4].message, "[include] not followed");
}

#[test]
fn the_scanner_lowercases_names_and_keeps_the_last_value() {
    let ini = scan_ini("# comment\nstray: 1\n[Gcode_Macro PARK]\nGcode = G28\n[printer]\n; note\nmax_accel: 10\nmax_accel: 20\nbad line\n  kinematics : cartesian  \n");
    assert!(ini.contains_section("gcode_macro"));
    assert!(!ini.contains_section("Gcode_Macro"));
    assert_eq!(ini.get("gcode_macro", "gcode").as_deref(), Some("G28"));
    assert_eq!(ini.get("printer", "max_accel").as_deref(), Some("20"));
    assert_eq!(ini.get("printer", "kinematics").as_deref(), Some("cartesian"));
    assert_eq!(ini.get("printer", "stray"), None);
    assert_eq!(ini.sections.len(), 2);
    assert_eq!(ini.count_prefixed("gcode"), 1);
}

#[test]
fn the_first_separator_splits_a_pair() {
    let ini = scan_ini("[printer]\na=b:c\nd:e=f\n");
    assert_eq!(ini.get("printer", "a").as_deref(), Some("b:c"));
    assert_eq!(ini.get("printer", "d").as_deref(), Some("e=f"));
}
