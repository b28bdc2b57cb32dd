use lindiction::cli::{
    add_lines, add_message, list_lines, log_filter, remove_lines, remove_message, RESTART_HINT,
};
use lindiction::replace::AddOutcome;

#[test]
fn verbosity_sets_the_level() {
    assert_eq!(log_filter(0), "lindiction=info,warn");
    assert_eq!(log_filter(1), "lindiction=debug,warn");
    assert_eq!(log_filter(2), "lindiction=trace,warn");
    assert_eq!(log_filter(255), "lindiction=trace,warn");
}

#[test]
fn edits_are_confirmed() {
    assert_eq!(
        add_message("clod", "Clyde", &AddOutcome::Added),
        "Added: clod → Clyde"
    );
    let updated = AddOutcome::Updated {
        previous: "Cloud".to_string(),
    };
    assert_eq!(
        add_message("clod", "Clyde", &updated),
        "Updated: clod → Clyde  (was: Cloud)"
    );
    assert_eq!(
        remove_message("clod", Some("Clyde")),
        "Removed: clod → Clyde"
    );
    assert_eq!(
        remove_message("x", None),
        "No replacement for `x` (case-insensitive match)."
    );
}

#[test]
fn arrows_line_up_in_the_list() {
    let items = vec![
        ("clod".to_string(), "Clyde".to_string()),
        ("é".to_string(), "e".to_string()),
        ("fire coding".to_string(), "vibe coding".to_string()),
    ];
    assert_eq!(
        list_lines(&items),
        vec![
            "clod         →  Clyde",
            "é            →  e",
            "fire coding  →  vibe coding",
        ]
    );
    for ((from, to), line) in items.iter().zip(list_lines(&items)) {
        let width = 11;
        assert_eq!(line, format!("{from:<width$}  →  {to}"));
    }
    assert_eq!(list_lines(&Vec::new()), vec!["(no replacements configured)"]);
}

#[test]
fn a_restart_is_hinted_at_only_after_a_change() {
    assert_eq!(
        RESTART_HINT,
        "Restart the daemon to apply: systemctl --user restart lindiction"
    );
    assert_eq!(
        add_lines("a", "b", &AddOutcome::Added),
        vec!["Added: a → b", RESTART_HINT]
    );
    assert_eq!(
        remove_lines("a", Some("b")),
        vec!["Removed: a → b", RESTART_HINT]
    );
    assert_eq!(
        remove_lines("a", None),
        vec!["No replacement for `a` (case-insensitive match)."]
    );
}
