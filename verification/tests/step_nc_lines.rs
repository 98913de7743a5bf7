use dry_core::step_nc::{parse_step_nc, FeatureText, Parsed, WorkingstepText};

fn parse(text: &str) -> Result<Vec<WorkingstepText>, String> {
    let mut verdicts: Vec<(String, bool)> = Vec::new();
    loop {
        match parse_step_nc(text, &verdicts) {
            Parsed::Value(v) => return Ok(v),
            Parsed::Failed(e) => return Err(e),
            Parsed::Needs(t) => {
                let finite = t.parse::<f64>().unwrap().is_finite();
                assert!(!verdicts.iter().any(|(u, _)| *u == t), "asked twice for {t}");
                verdicts.push((t, finite));
            }
        }
    }
}

fn s(t: &str) -> String {
    t.to_string()
}

#[test]
fn a_hole_line_becomes_a_round_hole() {
    let steps = parse("  <workingstep id=\"h1\" type=\"hole\" x=\"10\" y=\" 20.5 \" diameter=\"6\" depth=\"12\" feed=\"900\" tool=\"T2\"/>\n").unwrap();
    assert_eq!(steps.len(), 1);
    assert_eq!(steps[0].id, "h1");
    assert_eq!(steps[0].tool_id.as_deref(), Some("T2"));
    assert_eq!(steps[0].feedrate.as_deref(), Some("900"));
    assert_eq!(steps[0].spindle_rpm, None);
    assert_eq!(
        steps[0].feature,
        FeatureText::RoundHole { x: s("10"), y: s("20.5"), diameter: s("6"), depth: s("12") }
    );
}

#[test]
fn unnamed_steps_are_numbered_in_order_and_other_lines_are_skipped() {
    let doc = "<document>\n<workingstep type=\"pocket\" x=\"0\" y=\"0\" length=\"40\" width=\"20\" depth=\"5\">\n<!-- note -->\n<workingstep>\n</document>";
    let err = parse(doc).unwrap_err();
    assert_eq!(err, "workingstep 'ws-2': a face requires attribute x, which is absent");
    let doc = "<workingstep type=\"pocket\" x=\"0\" y=\"0\" length=\"40\" width=\"20\" depth=\"5\">\r\n<workingstep x=\"1\" y=\"2\" length=\"3\" width=\"4\">";
    let steps = parse(doc).unwrap();
    assert_eq!(steps[0].id, "ws-1");
    assert_eq!(steps[1].id, "ws-2");
    assert_eq!(
        steps[1].feature,
        FeatureText::PlanarFace { x: s("1"), y: s("2"), length: s("3"), width: s("4") }
    );
}

#[test]
fn empty_and_stepless_documents_are_refused() {
    assert_eq!(parse("  \n\t ").unwrap_err(), "empty STEP-NC document");
    assert_eq!(parse("<document/>").unwrap_err(), "no valid workingsteps found in document");
    assert_eq!(parse("<workingsteps x=\"1\">").unwrap_err(), "no valid workingsteps found in document");
}

#[test]
fn malformed_and_non_finite_numbers_are_refused_where_they_appear() {
    assert_eq!(
        parse("<workingstep id=\"a\" type=\"hole\" x=\"12,5\" y=\"1\" diameter=\"2\" depth=\"3\">").unwrap_err(),
        "workingstep 'a': attribute x=\"12,5\" is not a number"
    );
    assert_eq!(
        parse("<workingstep id=\"b\" type=\"hole\" x=\"1\" y=\"1\" diameter=\"2\" depth=\"3\" rpm=\"NaN\">").unwrap_err(),
        "workingstep 'b': attribute rpm=\"NaN\" is not finite"
    );
    assert_eq!(
        parse("<workingstep id=\"c\" type=\"hole\" x=\"1e999\" y=\"1\" diameter=\"2\" depth=\"3\">").unwrap_err(),
        "workingstep 'c': attribute x=\"1e999\" is not finite"
    );
    // `feed` is read before the geometry, so its error wins.
    assert_eq!(
        parse("<workingstep id=\"d\" type=\"hole\" feed=\"fast\">").unwrap_err(),
        "workingstep 'd': attribute feed=\"fast\" is not a number"
    );
}

#[test]
fn slot_ends_fall_back_to_their_short_names() {
    let steps = parse("<workingstep type=\"groove\" x1=\"1\" x2=\"9\" y_end=\"4\" depth=\"2\" width=\"6\">").unwrap();
    assert_eq!(
        steps[0].feature,
        FeatureText::Slot {
            x_start: Some(s("1")),
            y_start: None,
            x_end: s("9"),
            y_end: s("4"),
            depth: s("2"),
            width: s("6"),
        }
    );
    assert_eq!(
        parse("<workingstep id=\"s\" type=\"slot\" x_end=\"bad\" y_end=\"4\" depth=\"2\" width=\"6\">").unwrap_err(),
        "workingstep 's': a slot requires attribute x2, which is absent"
    );
}

#[test]
fn a_bad_alternative_peck_depth_is_ignored_but_a_bad_peck_is_not() {
    let steps = parse("<workingstep type=\"peck_drilling\" x=\"0\" y=\"0\" diameter=\"5\" depth=\"20\" q=\"deep\">").unwrap();
    assert_eq!(
        steps[0].feature,
        FeatureText::PeckHole { x: s("0"), y: s("0"), diameter: s("5"), depth: s("20"), peck_depth: None }
    );
    let steps = parse("<workingstep type=\"peck_hole\" x=\"0\" y=\"0\" diameter=\"5\" depth=\"20\" q=\"3\">").unwrap();
    assert!(matches!(&steps[0].feature, FeatureText::PeckHole { peck_depth: Some(p), .. } if p == "3"));
    assert_eq!(
        parse("<workingstep id=\"p\" type=\"peck_hole\" x=\"0\" y=\"0\" diameter=\"5\" depth=\"20\" peck=\"x\">").unwrap_err(),
        "workingstep 'p': attribute peck=\"x\" is not a number"
    );
}

#[test]
fn a_missing_verdict_is_asked_for_by_its_trimmed_text() {
    let r = parse_step_nc("<workingstep type=\"hole\" x=\" 7 \" y=\"1\" diameter=\"2\" depth=\"3\">", &Vec::new());
    assert_eq!(r, Parsed::Needs(s("7")));
    let r = parse_step_nc(
        "<workingstep type=\"hole\" x=\" 7 \" y=\"1\" diameter=\"2\" depth=\"3\">",
        &vec![(s("7"), false)],
    );
    assert_eq!(r, Parsed::Failed(s("workingstep 'ws-1': attribute x=\" 7 \" is not finite")));
}
