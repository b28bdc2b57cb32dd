use lindiction::mic_select::{current_device, set_device};
use lindiction::replace::{
    add, apply_add, entries_in, list, load_or_new, pick_editor_argv, remove, starter_text,
    AddOutcome, EditError,
};
use lindiction::toml_doc::ConfigDocument;

fn added(existing: Option<&str>, from: &str, to: &str) -> (String, AddOutcome) {
    add(existing, from, to).expect("add")
}

fn pairs(list: &[(&str, &str)]) -> Vec<(String, String)> {
    list.iter()
        .map(|(a, b)| (a.to_string(), b.to_string()))
        .collect()
}

#[test]
fn add_creates_config_when_missing() {
    let (text, outcome) = added(None, "clod", "Clyde");
    assert!(matches!(outcome, AddOutcome::Added));
    assert!(text.contains("clod"));
    assert!(text.contains("Clyde"));
    assert_eq!(
        text,
        "[postprocess]\nreplacements = [\n    [\"clod\", \"Clyde\"]]\n"
    );
}

#[test]
fn list_roundtrip() {
    let (text, _) = added(None, "clod", "Clyde");
    let (text, _) = added(Some(&text), "fire coding", "vibe coding");
    assert_eq!(
        list(Some(&text)).unwrap(),
        pairs(&[("clod", "Clyde"), ("fire coding", "vibe coding")])
    );
}

#[test]
fn add_duplicate_updates_in_place() {
    let (text, _) = added(None, "clod", "Clyde");
    let (text, outcome) = added(Some(&text), "clod", "Cloud");
    match outcome {
        AddOutcome::Updated { previous } => assert_eq!(previous, "Clyde"),
        AddOutcome::Added => panic!("expected Updated"),
    }
    let items = list(Some(&text)).unwrap();
    assert_eq!(items.len(), 1);
    assert_eq!(items[0], ("clod".to_string(), "Cloud".to_string()));
}

#[test]
fn add_duplicate_case_insensitive() {
    let (text, _) = added(None, "clod", "Clyde");
    let (text, outcome) = added(Some(&text), "CLOD", "Clyde2");
    assert!(matches!(outcome, AddOutcome::Updated { .. }));
    let items = list(Some(&text)).unwrap();
    assert_eq!(items.len(), 1);
    assert_eq!(items[0], ("CLOD".to_string(), "Clyde2".to_string()));
}

#[test]
fn remove_returns_previous_value() {
    let (text, _) = added(None, "clod", "Clyde");
    let (text, removed) = remove(Some(&text), "clod").unwrap().expect("removed");
    assert_eq!(removed, "Clyde");
    assert!(list(Some(&text)).unwrap().is_empty());
}

#[test]
fn remove_missing_returns_none() {
    assert_eq!(remove(None, "nonexistent").unwrap(), None);
    assert_eq!(remove(Some(&starter_text()), "nonexistent").unwrap(), None);
}

#[test]
fn add_preserves_existing_config_comments() {
    let existing = r#"# user comment
[hotkey]
binding = "f9"

[postprocess]
# keep this comment
remove_fillers = true
replacements = [["old", "new"]]
"#;
    let (after, _) = added(Some(existing), "clod", "Clyde");
    assert!(
        after.contains("# user comment"),
        "file should keep top comment; got:\n{after}"
    );
    assert!(
        after.contains("# keep this comment"),
        "file should keep inline comment; got:\n{after}"
    );
    assert!(after.contains("old"));
    assert!(after.contains("clod"));
    assert!(after.contains("binding = \"f9\""));
}

#[test]
fn editor_argv_single_word() {
    assert_eq!(pick_editor_argv(Some("vim"), true), vec!["vim".to_string()]);
}

#[test]
fn editor_argv_splits_on_whitespace() {
    assert_eq!(
        pick_editor_argv(Some("code --wait"), true),
        vec!["code".to_string(), "--wait".to_string()]
    );
}

#[test]
fn editor_argv_collapses_runs_of_whitespace() {
    assert_eq!(
        pick_editor_argv(Some("  nvim    -u   NONE  "), false),
        vec!["nvim".to_string(), "-u".to_string(), "NONE".to_string()]
    );
}

#[test]
fn editor_argv_empty_or_blank_env_falls_back() {
    for blank in ["", "   ", "\t\n"] {
        for nano_found in [true, false] {
            let argv = pick_editor_argv(Some(blank), nano_found);
            assert!(
                !argv.is_empty(),
                "argv must never be empty for EDITOR = {blank:?}"
            );
            let prog = argv.first().unwrap().as_str();
            assert!(
                prog == "nano" || prog == "vi",
                "fallback should be nano or vi; got {prog} for EDITOR = {blank:?}"
            );
        }
    }
}

#[test]
fn editor_argv_unset_env_falls_back() {
    assert_eq!(pick_editor_argv(None, true), vec!["nano".to_string()]);
    assert_eq!(pick_editor_argv(None, false), vec!["vi".to_string()]);
}

#[test]
fn a_new_file_starts_with_an_empty_list() {
    assert_eq!(starter_text(), "[postprocess]\nreplacements = []\n");
    assert!(list(Some(&starter_text())).unwrap().is_empty());
    assert!(list(None).unwrap().is_empty());
}

#[test]
fn removing_undoes_a_fresh_add() {
    let existing = "[postprocess]\nreplacements = [\n    [\"a\", \"1\"],\n    [\"b\", \"2\"],\n]\n";
    let (text, _) = added(Some(existing), "c", "3");
    let (text, to) = remove(Some(&text), "C").unwrap().unwrap();
    assert_eq!(to, "3");
    assert_eq!(list(Some(&text)).unwrap(), list(Some(existing)).unwrap());
}

#[test]
fn updating_keeps_the_place_and_its_indent() {
    let existing = "[postprocess]\nreplacements = [\n\t# first\n\t[\"a\", \"1\"],\n  [\"b\", \"2\"]]\n";
    let (text, outcome) = added(Some(existing), "A", "9");
    assert!(matches!(outcome, AddOutcome::Updated { previous } if previous == "1"));
    assert_eq!(
        text,
        "[postprocess]\nreplacements = [\n\t# first\n\t[\"A\", \"9\"],\n  [\"b\", \"2\"]]\n"
    );
    let (text, _) = added(Some(&text), "c", "3");
    assert_eq!(
        text,
        "[postprocess]\nreplacements = [\n\t# first\n\t[\"A\", \"9\"],\n  [\"b\", \"2\"],\n    \
         [\"c\", \"3\"]]\n"
    );
}

#[test]
fn entries_of_another_shape_are_passed_over() {
    let existing = "[postprocess]\nreplacements = [1, [\"x\"], [\"a\", 2], [\"a\", \"b\", 3], \
                    \"a\", [\"A\", \"c\"]]\n";
    assert_eq!(
        list(Some(existing)).unwrap(),
        pairs(&[("a", "b"), ("A", "c")])
    );
    let (text, to) = remove(Some(existing), "a").unwrap().unwrap();
    assert_eq!(to, "b");
    assert_eq!(list(Some(&text)).unwrap(), pairs(&[("A", "c")]));
    assert!(text.contains("[\"x\"]"));
}

#[test]
fn a_list_that_is_no_array_is_replaced() {
    let (text, outcome) = added(Some("[postprocess]\nreplacements = 7\n"), "a", "b");
    assert!(matches!(outcome, AddOutcome::Added));
    assert_eq!(list(Some(&text)).unwrap(), pairs(&[("a", "b")]));
    assert!(list(Some("[postprocess]\nreplacements = 7\n"))
        .unwrap()
        .is_empty());
    assert_eq!(
        remove(Some("[postprocess]\nreplacements = 7\n"), "a").unwrap(),
        None
    );
}

#[test]
fn a_section_that_is_no_table_is_refused() {
    let text = "postprocess = {}\n";
    let refusal = EditError::NotATable {
        section: "postprocess".to_string(),
    };
    assert_eq!(add(Some(text), "a", "b").unwrap_err(), refusal);
    assert_eq!(remove(Some(text), "a").unwrap_err(), refusal);
    assert_eq!(refusal.message(), "postprocess is not a table");
    assert!(list(Some(text)).unwrap().is_empty());
    let mut doc = ConfigDocument::parse(text).unwrap();
    assert!(apply_add(&mut doc, "a", "b").is_err());
    assert_eq!(doc.to_text(), text);
}

#[test]
fn malformed_files_are_reported() {
    let bad = "[postprocess\n";
    for err in [
        add(Some(bad), "a", "b").unwrap_err(),
        remove(Some(bad), "a").unwrap_err(),
        list(Some(bad)).unwrap_err(),
    ] {
        assert!(matches!(err, EditError::Malformed { .. }));
        assert!(err.message().contains("line 1"), "got {}", err.message());
    }
}

#[test]
fn awkward_texts_read_back_as_they_were_added() {
    let mut text = starter_text();
    let odd = [
        "say \"hi\"",
        "it's",
        "a\nb",
        "tab\t",
        "back\\slash",
        "'''\"\"\"",
        "",
    ];
    for (i, from) in odd.iter().enumerate() {
        text = added(Some(&text), from, &format!("{from}{i}")).0;
    }
    let expected: Vec<(String, String)> = odd
        .iter()
        .enumerate()
        .map(|(i, from)| (from.to_string(), format!("{from}{i}")))
        .collect();
    assert_eq!(list(Some(&text)).unwrap(), expected);
    let doc = load_or_new(Some(&text)).unwrap();
    assert_eq!(entries_in(&doc), expected);
}

#[test]
fn other_sections_keep_their_text() {
    let existing = "# top\n[audio]\npreroll_ms = 5 # five\n\n[update]\nenabled = false\n";
    let (text, _) = added(Some(existing), "a", "b");
    assert!(text.starts_with(existing), "got:\n{text}");
    assert!(text.contains("[postprocess]\nreplacements = [\n    [\"a\", \"b\"]]\n"));
}

#[test]
fn the_comments_beside_a_replacement_stay_when_it_changes() {
    let text = "# top\n[postprocess] # head\nreplacements = [ # open\n    # first\n    [\"a\", \"b\"], # one\n    [\"c\", \"d\"] # two\n] # end\nflag = true\n# tail\n";
    assert_eq!(
        added(Some(text), "A", "x").0,
        text.replace("[\"a\", \"b\"]", "[\"A\", \"x\"]")
    );
    assert_eq!(
        added(Some(text), "c", "y").0,
        text.replace("[\"c\", \"d\"]", "[\"c\", \"y\"]")
    );
    assert_eq!(
        added(Some(text), "e", "f").0,
        text.replace("# two\n]", "# two\n,\n    [\"e\", \"f\"]]")
    );
}

#[test]
fn what_else_a_file_holds_stays() {
    let text = "# top\nn = 1_000 # one\n\n[audio]\n# the mic\ndevice = \"m\" # desk\npreroll_ms = 300\n\n[postprocess]\nfillers = [\"um\"] # few\nreplacements = [\n    [\"a\", \"b\"],\n]\n\n# last\n[z]\nk = { y = 2 }\n";
    let (more, outcome) = added(Some(text), "c", "d");
    assert_eq!(outcome, AddOutcome::Added);
    assert_eq!(
        more,
        text.replace("[\"a\", \"b\"],\n", "[\"a\", \"b\"],\n    [\"c\", \"d\"],\n")
    );
    assert_eq!(list(Some(&more)).unwrap(), pairs(&[("a", "b"), ("c", "d")]));
    let (less, was) = remove(Some(&more), "C").unwrap().unwrap();
    assert_eq!(was, "d");
    assert_eq!(less, text);
}

#[test]
fn a_removed_replacement_takes_its_own_comments_along() {
    let text = "[postprocess]\nreplacements = [\n    # first\n    [\"a\", \"b\"],\n    # second\n    [\"c\", # in\n     \"d\"],\n    # close\n]\n# tail\n";
    assert_eq!(
        remove(Some(text), "c").unwrap().unwrap().0,
        "[postprocess]\nreplacements = [\n    # first\n    [\"a\", \"b\"],\n    # close\n]\n# tail\n"
    );
}

#[test]
fn what_stood_for_the_list_goes_with_its_comments() {
    assert_eq!(
        added(Some("[postprocess]\n# a\nreplacements = 5 # b\nflag = true\n"), "c", "d").0,
        "[postprocess]\n# a\nreplacements = [\n    [\"c\", \"d\"]] # b\nflag = true\n"
    );
}

/// The comments of a text that holds no `#` elsewhere, in any order.
fn comments(text: &str) -> Vec<String> {
    let mut found: Vec<String> = text
        .lines()
        .filter_map(|line| line.find('#').map(|at| line[at..].trim_end().to_string()))
        .collect();
    found.sort();
    found
}

#[test]
fn edits_keep_every_comment_of_files_of_any_shape() {
    let files = [
        "",
        "# only",
        "# a\r\nx = 1 # b\r\n\r\n# c\r\n[audio] # d\r\n# e\r\nrate = 3 # f\r\n# g\r\n",
        "# a\npostprocess.flag = true # b\n# c\naudio.rate = 3 # d\n# e\n",
        "# a\n[audio.more] # b\nx = 1 # c\n# d\n[postprocess.more] # e\n# f\n",
        "# a\n[[x]] # b\ny = 1\n# c\n[z]\nk = 1 # d\n# e\n[[x]] # f\ny = 2\n# g\n[audio]\n",
        "# a\n[b.c] # b\n# c\n[d] # d\n# e\n[b] # f\nx = [ # g\n  1, # h\n  # i\n] # j\n# k",
        "[postprocess]\n# a\nreplacements = [ # b\n] # c\n[audio]\n# d\ndevice = \"old\" # e\n",
        "[postprocess]\n# a\nreplacements = [ # b\n  # c\n  [\"q\", \"r\"], # d\n] # e\n",
    ];
    for text in files {
        let (more, outcome) = added(Some(text), "from", "to");
        assert_eq!(outcome, AddOutcome::Added);
        assert_eq!(comments(&more), comments(text), "after add:\n{more}");
        let mut pairs = list(Some(text)).unwrap();
        pairs.push(("from".to_string(), "to".to_string()));
        assert_eq!(list(Some(&more)).unwrap(), pairs);
        let set = set_device(Some(&more), Some("mic")).unwrap();
        assert_eq!(comments(&set), comments(text), "after set:\n{set}");
        assert_eq!(current_device(Some(&set)).unwrap().as_deref(), Some("mic"));
        let again = added(Some(&set), "FROM", "there").0;
        assert_eq!(comments(&again), comments(text), "after update:\n{again}");
        assert_eq!(ConfigDocument::parse(&again).unwrap().to_text(), again);
    }
}

#[test]
fn blank_lines_and_indents_stay() {
    let text = "\n\n  x = 1\n\n\n\t[audio]\n\n\n   rate = 3\n\n  more.y = 1\n\n   more.z = 2\n\n\n[[t]]\n\n  k = 1\n\n\n\n[postprocess]\n\n   replacements = [\n\n   [\"a\", \"b\"],\n\n]\n\n flag = true\n\n  [postprocess.deep]\n\n v = 1\n\n  \n";
    let more = added(Some(text), "c", "d").0;
    assert_eq!(
        more,
        text.replace("[\"a\", \"b\"],", "[\"a\", \"b\"],\n    [\"c\", \"d\"],")
    );
    assert_eq!(remove(Some(&more), "c").unwrap().unwrap().0, text);
    let set = set_device(Some(text), Some("m")).unwrap();
    assert_eq!(
        set,
        text.replace("   more.z = 2\n", "   more.z = 2\ndevice = \"m\"\n")
    );
    assert_eq!(set_device(Some(&set), None).unwrap(), text);
    let windows = text.replace('\n', "\r\n");
    assert_eq!(added(Some(&windows), "c", "d").0, more);
}
