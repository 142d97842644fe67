use yarn_runner::store::{StoreNotification, YarnVariableSetResult, YarnVariableStorage};
use yarn_runner::values::ScriptValue;

fn s(text: &str) -> String {
    String::from(text)
}

#[test]
fn set_then_get_returns_the_just_set_value() {
    let mut store = YarnVariableStorage::new();
    let r = store.set_variable(&s("$health"), ScriptValue::Number((42.0f32).to_bits()));
    assert_eq!(r, YarnVariableSetResult::Okay);
    let got = store.get_variable(&s("$health"));
    assert_eq!(got, Some(ScriptValue::Number((42.0f32).to_bits())));
    assert!(store.contains(&s("$health")));
}

#[test]
fn set_overwrites_previous_value() {
    let mut store = YarnVariableStorage::new();
    store.set_variable(&s("$name"), ScriptValue::Str(s("Alice")));
    store.set_variable(&s("$name"), ScriptValue::Str(s("Bob")));
    assert_eq!(store.get_variable(&s("$name")), Some(ScriptValue::Str(s("Bob"))));
    assert_eq!(store.get_variables().len(), 1);
}

#[test]
fn invalid_name_is_rejected_and_store_unaffected() {
    let mut store = YarnVariableStorage::new();
    let r = store.set_variable(&s("health"), ScriptValue::Boolean(true));
    assert_eq!(r, YarnVariableSetResult::InvalidVariableName);
    assert_eq!(store.get_variable(&s("health")), None);
    assert!(!store.contains(&s("health")));
    assert!(store.get_variables().is_empty());
    assert!(store.notifications().is_empty());
}

#[test]
fn empty_name_is_rejected() {
    let mut store = YarnVariableStorage::new();
    assert_eq!(
        store.set_variable(&s(""), ScriptValue::Boolean(false)),
        YarnVariableSetResult::InvalidVariableName
    );
}

#[test]
fn each_successful_set_emits_one_changed_notification() {
    let mut store = YarnVariableStorage::new();
    store.set_variable(&s("$a"), ScriptValue::Boolean(true));
    store.set_variable(&s("b"), ScriptValue::Boolean(true));
    store.set_variable(&s("$c"), ScriptValue::Str(s("x")));
    let notes = store.notifications();
    assert_eq!(notes.len(), 2);
    assert!(matches!(&notes[0], StoreNotification::VariableChanged(n, ScriptValue::Boolean(true)) if n == "$a"));
    assert!(matches!(&notes[1], StoreNotification::VariableChanged(n, ScriptValue::Str(v)) if n == "$c" && v == "x"));
}

#[test]
fn clear_empties_store_and_fires_exactly_one_cleared_notification() {
    let mut store = YarnVariableStorage::new();
    store.set_variable(&s("$a"), ScriptValue::Number((1.0f32).to_bits()));
    store.set_variable(&s("$b"), ScriptValue::Boolean(false));
    store.clear_notifications();
    store.clear();
    assert!(store.get_variables().is_empty());
    assert_eq!(store.get_variable(&s("$a")), None);
    assert_eq!(store.get_variable(&s("$b")), None);
    assert!(!store.contains(&s("$a")));
    let notes = store.notifications();
    assert_eq!(notes.len(), 1);
    assert!(matches!(&notes[0], StoreNotification::StoreCleared));
    assert!(!notes.iter().any(|n| matches!(n, StoreNotification::VariableChanged(_, _))));
}

#[test]
fn set_variables_applies_all_and_reports_each_outcome() {
    let mut store = YarnVariableStorage::new();
    let values = vec![
        (s("$a"), ScriptValue::Boolean(true)),
        (s("bad"), ScriptValue::Boolean(false)),
        (s("$b"), ScriptValue::Str(s("y"))),
    ];
    let results = store.set_variables(&values);
    assert_eq!(
        results,
        vec![
            YarnVariableSetResult::Okay,
            YarnVariableSetResult::InvalidVariableName,
            YarnVariableSetResult::Okay,
        ]
    );
    assert!(store.contains(&s("$a")));
    assert!(store.contains(&s("$b")));
    assert!(!store.contains(&s("bad")));
}

#[test]
fn extend_stops_at_first_invalid_name() {
    let mut store = YarnVariableStorage::new();
    let values = vec![
        (s("$a"), ScriptValue::Boolean(true)),
        (s("bad"), ScriptValue::Boolean(false)),
        (s("$b"), ScriptValue::Str(s("y"))),
    ];
    let r = store.extend(&values);
    assert_eq!(r, YarnVariableSetResult::InvalidVariableName);
    assert!(store.contains(&s("$a")));
    assert!(!store.contains(&s("$b")));
    assert!(!store.contains(&s("bad")));
}

#[test]
fn extend_of_valid_names_applies_all() {
    let mut store = YarnVariableStorage::new();
    let values = vec![
        (s("$a"), ScriptValue::Boolean(true)),
        (s("$b"), ScriptValue::Str(s("y"))),
    ];
    assert_eq!(store.extend(&values), YarnVariableSetResult::Okay);
    assert!(store.contains(&s("$a")));
    assert!(store.contains(&s("$b")));
}

#[test]
fn validate_name_requires_the_sigil() {
    assert!(YarnVariableStorage::validate_name(&s("$x")));
    assert!(YarnVariableStorage::validate_name(&s("$")));
    assert!(!YarnVariableStorage::validate_name(&s("x")));
    assert!(!YarnVariableStorage::validate_name(&s("")));
}
