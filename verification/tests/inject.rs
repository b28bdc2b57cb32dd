use lindiction::config::InjectionMethod;
use lindiction::inject::{Injection, Injector};

#[test]
fn test_build_type_args_shape() {
    let inj = Injector::new(InjectionMethod::Type, 5, "ctrl+v".to_string());
    let args = inj.build_type_args("hello");
    assert_eq!(
        args,
        vec!["type", "--clearmodifiers", "--delay", "5", "--", "hello"]
    );
}

#[test]
fn test_build_type_args_separator_precedes_text() {
    let inj = Injector::new(InjectionMethod::Type, 5, "ctrl+v".to_string());
    let args = inj.build_type_args("-flag-looking-text");
    let sep = args.iter().position(|a| a == "--").unwrap();
    let text = args.iter().position(|a| a == "-flag-looking-text").unwrap();
    assert!(sep < text, "separator must come before text");
}

#[test]
fn test_build_type_args_custom_delay() {
    let inj = Injector::new(InjectionMethod::Type, 12, "ctrl+v".to_string());
    let args = inj.build_type_args("x");
    assert!(args.contains(&"12".to_string()));
}

#[test]
fn test_build_type_args_empty_text() {
    let inj = Injector::new(InjectionMethod::Type, 5, "ctrl+v".to_string());
    let args = inj.build_type_args("");
    assert_eq!(args.last(), Some(&"".to_string()));
}

#[test]
fn test_inject_empty_or_whitespace_is_noop() {
    for method in [InjectionMethod::Type, InjectionMethod::Paste] {
        let inj = Injector::new(method, 5, "ctrl+v".to_string());
        assert!(matches!(inj.inject(""), Injection::Skip));
        assert!(matches!(inj.inject("   "), Injection::Skip));
        assert!(matches!(inj.inject("\n"), Injection::Skip));
        assert!(matches!(inj.inject("\t  \n"), Injection::Skip));
    }
}

#[test]
fn typing_and_pasting_run_different_commands() {
    let inj = Injector::new(InjectionMethod::Type, 7, "ctrl+v".to_string());
    match inj.inject(" hi ") {
        Injection::Type(args) => assert_eq!(
            args,
            vec!["type", "--clearmodifiers", "--delay", "7", "--", " hi "]
        ),
        other => panic!("expected typing, got {other:?}"),
    }
    let inj = Injector::new(InjectionMethod::Paste, 7, "shift+Insert".to_string());
    match inj.inject("hi") {
        Injection::Paste {
            clip_args,
            key_args,
        } => {
            assert_eq!(clip_args, vec!["-selection", "clipboard", "-in"]);
            assert_eq!(key_args, vec!["key", "--clearmodifiers", "shift+Insert"]);
        }
        other => panic!("expected pasting, got {other:?}"),
    }
}
