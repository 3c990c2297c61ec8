use corelia::shortcut::key_code_of;
use corelia::shortcut::parse_shortcut;
use corelia::shortcut::split_on_plus;
use corelia::shortcut::KeyCode;

#[test]
fn test_parse_alt_space() {
    let sc = parse_shortcut("Alt+Space").unwrap();
    assert!(sc.modifiers.alt);
    assert!(!sc.modifiers.ctrl && !sc.modifiers.shift && !sc.modifiers.meta);
    assert!(matches!(sc.key, KeyCode::Space));
}

#[test]
fn test_parse_all_modifiers_any_case() {
    let sc = parse_shortcut("CTRL+shift+Meta+alt+k").unwrap();
    assert!(sc.modifiers.ctrl && sc.modifiers.shift && sc.modifiers.meta && sc.modifiers.alt);
    assert!(matches!(sc.key, KeyCode::Letter('K')));
}

#[test]
fn test_parse_digits_and_function_keys() {
    assert!(matches!(parse_shortcut("Ctrl+7").unwrap().key, KeyCode::Digit(7)));
    assert!(matches!(parse_shortcut("f1").unwrap().key, KeyCode::Function(1)));
    assert!(matches!(parse_shortcut("Shift+F12").unwrap().key, KeyCode::Function(12)));
    assert!(matches!(parse_shortcut("F10").unwrap().key, KeyCode::Function(10)));
}

#[test]
fn test_parse_without_key() {
    assert_eq!(parse_shortcut("Ctrl+Alt").unwrap_err(), "No key specified in shortcut");
    assert_eq!(parse_shortcut("").unwrap_err(), "No key specified in shortcut");
    assert_eq!(parse_shortcut("Ctrl+F13").unwrap_err(), "No key specified in shortcut");
    assert_eq!(parse_shortcut("Ctrl+Enter").unwrap_err(), "No key specified in shortcut");
}

#[test]
fn test_unknown_key_after_known_one_leaves_no_key() {
    assert_eq!(parse_shortcut("A+Enter").unwrap_err(), "No key specified in shortcut");
    assert!(matches!(parse_shortcut("Enter+A").unwrap().key, KeyCode::Letter('A')));
}

#[test]
fn test_split_on_plus() {
    assert_eq!(split_on_plus("a+b++c"), vec!["a", "b", "", "c"]);
    assert_eq!(split_on_plus(""), vec![""]);
    assert_eq!(split_on_plus("+"), vec!["", ""]);
}

#[test]
fn test_key_code_names() {
    assert!(matches!(key_code_of("SPACE"), Some(KeyCode::Space)));
    assert!(matches!(key_code_of("Z"), Some(KeyCode::Letter('Z'))));
    assert!(key_code_of("F0").is_none());
    assert!(key_code_of("a").is_none());
    assert!(key_code_of("F1X").is_none());
}
