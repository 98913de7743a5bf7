use dry_core::tool::ToolRegistry;

#[test]
fn a_registered_tool_is_found_by_id_and_by_slot() {
    let mut r: ToolRegistry<&str> = ToolRegistry::new();
    assert!(r.is_empty());
    r.register("flat_6".to_string(), 1, "6mm flat");
    r.register("ball_3".to_string(), 2, "3mm ball");
    assert_eq!(r.len(), 2);
    assert_eq!(r.get("flat_6"), Some(&"6mm flat"));
    assert_eq!(r.get("drill_5"), None);
    assert_eq!(r.get_by_number(2), Some(&"3mm ball"));
    assert_eq!(r.get_by_number(7), None);
}

#[test]
fn registering_an_id_again_replaces_its_tool() {
    let mut r: ToolRegistry<u32> = ToolRegistry::new();
    r.register("t".to_string(), 1, 10);
    r.register("t".to_string(), 4, 20);
    assert_eq!(r.len(), 1);
    assert_eq!(r.get("t"), Some(&20));
    assert_eq!(r.get_by_number(1), None);
    assert_eq!(r.get_by_number(4), Some(&20));
    assert!(!r.is_empty());
}
