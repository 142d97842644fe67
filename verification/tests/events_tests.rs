use yarn_runner::diagnostics::GDDiagnosticSeverity;
use yarn_runner::events::{YarnDialogueOption, YarnLine, YarnMarkupAttribute, YarnMarkupValue};
use yarn_runner::script_functions::{dice, seeded_rng};

fn s(text: &str) -> String {
    String::from(text)
}

fn character_attribute(name: &str, position: usize, length: usize) -> YarnMarkupAttribute {
    YarnMarkupAttribute {
        name: s("character"),
        position,
        length,
        properties: vec![(s("name"), YarnMarkupValue::Str(s(name)))],
    }
}

#[test]
fn line_without_character_attribute_is_returned_whole() {
    let line = YarnLine {
        id: s("l1"),
        text: s("Great, thanks"),
        character_name: None,
        attributes: Vec::new(),
    };
    assert_eq!(line.get_line(), s("Great, thanks"));
    assert_eq!(line.get_raw_text(), "Great, thanks");
    assert_eq!(line.get_line_id(), "l1");
    assert!(line.get_character_name().is_none());
}

#[test]
fn line_text_without_the_character_span() {
    let line = YarnLine {
        id: s("l2"),
        text: s("Alice: Hello! How are you today?"),
        character_name: Some(s("Alice")),
        attributes: vec![character_attribute("Alice", 0, 7)],
    };
    assert_eq!(line.get_line(), s("Hello! How are you today?"));
    assert_eq!(line.get_character_name().clone(), Some(s("Alice")));
}

#[test]
fn character_span_beyond_the_text_leaves_it_whole() {
    let line = YarnLine {
        id: s("l3"),
        text: s("Hi"),
        character_name: None,
        attributes: vec![character_attribute("Ghost", 0, 99)],
    };
    assert_eq!(line.get_line(), s("Hi"));
}

#[test]
fn attribute_lookup_finds_the_first_match() {
    let line = YarnLine {
        id: s("l4"),
        text: s("Alice: Hi"),
        character_name: Some(s("Alice")),
        attributes: vec![character_attribute("Alice", 0, 7)],
    };
    let attr = line.get_attribute(&s("character")).expect("the attribute is present");
    assert_eq!(attr.get_name(), "character");
    assert!(matches!(
        attr.get_property(&s("name")),
        Some(YarnMarkupValue::Str(v)) if v == "Alice"
    ));
    assert!(attr.get_property(&s("missing")).is_none());
    assert_eq!(attr.get_properties().len(), 1);
    assert!(line.get_attribute(&s("missing")).is_none());
}

#[test]
fn text_for_attribute_cuts_the_exact_span() {
    let line = YarnLine {
        id: s("l5"),
        text: s("Alice: Hi"),
        character_name: Some(s("Alice")),
        attributes: vec![character_attribute("Alice", 0, 7)],
    };
    let attr = character_attribute("Alice", 0, 7);
    assert_eq!(line.get_text_for_attribute(&attr), Some(s("Alice: ")));
    let beyond = character_attribute("Alice", 5, 99);
    assert_eq!(line.get_text_for_attribute(&beyond), None);
}

#[test]
fn option_getters_report_the_fields() {
    let option = YarnDialogueOption {
        id: 3,
        line: YarnLine {
            id: s("l6"),
            text: s("Yes"),
            character_name: None,
            attributes: Vec::new(),
        },
        destination_node: s("NodeB"),
        is_available: false,
    };
    assert_eq!(option.get_id(), 3);
    assert_eq!(option.get_line().get_raw_text(), "Yes");
    assert_eq!(option.get_destination_node(), "NodeB");
    assert!(!option.is_available());
}

#[test]
fn dice_draws_stay_in_range() {
    let mut rng = seeded_rng(7);
    assert_eq!(dice(&mut rng, 0), 1);
    assert_eq!(dice(&mut rng, 1), 1);
    for _ in 0..100 {
        let roll = dice(&mut rng, 6);
        assert!((1..=6).contains(&roll));
    }
}

#[test]
fn dice_is_reproducible_under_a_fixed_seed() {
    let mut first = seeded_rng(42);
    let mut second = seeded_rng(42);
    for _ in 0..20 {
        assert_eq!(dice(&mut first, 20), dice(&mut second, 20));
    }
}

#[test]
fn severity_levels_stay_distinct() {
    assert_ne!(GDDiagnosticSeverity::Error, GDDiagnosticSeverity::Warning);
    assert!(GDDiagnosticSeverity::Error.blocks_compilation());
    assert!(!GDDiagnosticSeverity::Warning.blocks_compilation());
}
