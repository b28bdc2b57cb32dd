use lindiction::config::PostprocessConfig;
use lindiction::postprocess::{capitalize_sentences, PostprocessError, Postprocessor};

fn default_cfg() -> PostprocessConfig {
    PostprocessConfig::default()
}

fn raw_cfg() -> PostprocessConfig {
    PostprocessConfig {
        remove_fillers: false,
        filler_words: vec![],
        capitalize_sentences: false,
        ensure_trailing_period: false,
        replacements: vec![],
    }
}

#[test]
fn trims_whitespace_and_adds_period() {
    let p = Postprocessor::new(&default_cfg()).unwrap();
    assert_eq!(p.apply("  hello  "), "Hello.");
}

#[test]
fn removes_fillers() {
    let p = Postprocessor::new(&default_cfg()).unwrap();
    assert_eq!(p.apply("um hello uh world"), "Hello world.");
}

#[test]
fn capitalizes_first_letter() {
    let p = Postprocessor::new(&default_cfg()).unwrap();
    assert_eq!(p.apply("hello"), "Hello.");
}

#[test]
fn capitalizes_after_sentence_punctuation() {
    let p = Postprocessor::new(&default_cfg()).unwrap();
    assert_eq!(p.apply("hello. world"), "Hello. World.");
}

#[test]
fn idempotent_trailing_period() {
    let p = Postprocessor::new(&default_cfg()).unwrap();
    assert_eq!(p.apply("hello."), "Hello.");
}

#[test]
fn preserves_question_and_exclamation_endings() {
    let p = Postprocessor::new(&default_cfg()).unwrap();
    assert_eq!(p.apply("hello?"), "Hello?");
    assert_eq!(p.apply("hello!"), "Hello!");
}

#[test]
fn all_toggles_off_returns_trimmed_input() {
    let p = Postprocessor::new(&raw_cfg()).unwrap();
    assert_eq!(p.apply("  um hello  "), "um hello");
}

#[test]
fn all_filler_input_returns_empty() {
    let p = Postprocessor::new(&default_cfg()).unwrap();
    assert_eq!(p.apply("um uh"), "");
}

#[test]
fn preserves_all_caps_mid_sentence() {
    let p = Postprocessor::new(&default_cfg()).unwrap();
    assert_eq!(p.apply("HELLO WORLD"), "HELLO WORLD.");
}

#[test]
fn filler_removal_is_case_insensitive() {
    let p = Postprocessor::new(&default_cfg()).unwrap();
    assert_eq!(p.apply("UM hello UH world"), "Hello world.");
}

#[test]
fn filler_removal_respects_word_boundary() {
    // "umbrella" starts with "um" but shouldn't be stripped.
    let p = Postprocessor::new(&default_cfg()).unwrap();
    assert_eq!(p.apply("umbrella"), "Umbrella.");
}

#[test]
fn multi_word_filler_is_removed() {
    let p = Postprocessor::new(&default_cfg()).unwrap();
    assert_eq!(p.apply("you know hello"), "Hello.");
}

#[test]
fn empty_filler_entries_are_ignored() {
    let cfg = PostprocessConfig {
        remove_fillers: true,
        filler_words: vec![
            "um".to_string(),
            "".to_string(),
            "   ".to_string(),
            "uh".to_string(),
        ],
        capitalize_sentences: true,
        ensure_trailing_period: true,
        replacements: vec![],
    };
    let p = Postprocessor::new(&cfg).unwrap();
    // Regex must not treat the empty/whitespace entries as matches.
    assert_eq!(p.apply("um hello uh world"), "Hello world.");
    // A plain "hello" must not be mangled by a phantom `\b()\b` match.
    assert_eq!(p.apply("hello"), "Hello.");
}

#[test]
fn filler_before_terminal_punct_removes_extra_space() {
    let p = Postprocessor::new(&default_cfg()).unwrap();
    assert_eq!(p.apply("hello uh."), "Hello.");
    assert_eq!(p.apply("what um?"), "What?");
    assert_eq!(p.apply("go uh!"), "Go!");
}

#[test]
fn filler_with_trailing_comma_is_cleaned() {
    // Whisper commonly outputs "Um, hello world." with a comma
    // attached to the filler. Both the filler AND the stranded
    // comma should be removed.
    let p = Postprocessor::new(&default_cfg()).unwrap();
    assert_eq!(p.apply("Um, hello world."), "Hello world.");
    assert_eq!(p.apply("uh, hello"), "Hello.");
    assert_eq!(p.apply("so; hello world"), "Hello world.");
}

#[test]
fn capitalizes_past_leading_punctuation_without_filler_strip() {
    // Even with filler removal disabled, a raw leading comma
    // shouldn't prevent the first alpha from being capitalized.
    let cfg = PostprocessConfig {
        remove_fillers: false,
        filler_words: vec![],
        capitalize_sentences: true,
        ensure_trailing_period: true,
        replacements: vec![],
    };
    let p = Postprocessor::new(&cfg).unwrap();
    assert_eq!(p.apply(", hello world"), "Hello world.");
}

fn cfg_with_replacements(pairs: &[(&str, &str)]) -> PostprocessConfig {
    PostprocessConfig {
        replacements: pairs
            .iter()
            .map(|(a, b)| [a.to_string(), b.to_string()])
            .collect(),
        ..PostprocessConfig::default()
    }
}

#[test]
fn replacement_simple_word() {
    let p = Postprocessor::new(&cfg_with_replacements(&[("clod", "Clyde")])).unwrap();
    assert_eq!(p.apply("ask clod to help"), "Ask Clyde to help.");
}

#[test]
fn replacement_is_case_insensitive_but_preserves_target_casing() {
    let p = Postprocessor::new(&cfg_with_replacements(&[("clod", "Clyde")])).unwrap();
    // Matches "Clod" (capitalized by sentence-cap step) AND "CLOD",
    // but the output is always the verbatim "Clyde" from config.
    assert_eq!(p.apply("clod says hi"), "Clyde says hi.");
    assert_eq!(p.apply("CLOD says hi"), "Clyde says hi.");
}

#[test]
fn replacement_respects_word_boundary() {
    // "clod" should match the standalone word but not occurrences
    // inside longer words like "clodhopper".
    let p = Postprocessor::new(&cfg_with_replacements(&[("clod", "Clyde")])).unwrap();
    assert_eq!(p.apply("clodhopper shoes"), "Clodhopper shoes.");
}

#[test]
fn replacement_handles_multi_word_from() {
    let p =
        Postprocessor::new(&cfg_with_replacements(&[("lin dictation", "lindiction")])).unwrap();
    assert_eq!(p.apply("lin dictation is great"), "lindiction is great.");
}

#[test]
fn replacement_escapes_regex_metachars_in_from() {
    // "c++" would otherwise be a regex error (unmatched quantifier).
    let p = Postprocessor::new(&cfg_with_replacements(&[("c++", "cpp")])).unwrap();
    assert_eq!(p.apply("i write c++ code"), "I write cpp code.");
}

#[test]
fn replacement_empty_from_is_skipped() {
    // An empty `from` would compile to \b\b and match every word
    // boundary; we silently ignore those entries instead.
    let p = Postprocessor::new(&cfg_with_replacements(&[
        ("", "nope"),
        ("   ", "nope"),
        ("clod", "Clyde"),
    ]))
    .unwrap();
    assert_eq!(p.apply("hello clod world"), "Hello Clyde world.");
}

#[test]
fn replacement_runs_in_order_with_chaining() {
    // Second replacement operates on the output of the first —
    // documented behavior.
    let p = Postprocessor::new(&cfg_with_replacements(&[
        ("alpha", "beta"),
        ("beta", "gamma"),
    ]))
    .unwrap();
    assert_eq!(p.apply("one alpha two"), "One gamma two.");
}

#[test]
fn replacement_disabled_by_default() {
    let p = Postprocessor::new(&PostprocessConfig::default()).unwrap();
    assert_eq!(p.apply("clod says hi"), "Clod says hi.");
}

#[test]
fn raw_mode_still_strips_leading_garbage() {
    // With all postprocess toggles off, leading/trailing whitespace
    // still gets trimmed (trim is unconditional), but commas stay.
    let cfg = PostprocessConfig {
        remove_fillers: false,
        filler_words: vec![],
        capitalize_sentences: false,
        ensure_trailing_period: false,
        replacements: vec![],
    };
    let p = Postprocessor::new(&cfg).unwrap();
    // leading_stranded_punct DOES fire even in raw mode — it's part
    // of the normal pipeline, not gated on any toggle. This is
    // intentional: leading "," from whisper is never desirable.
    assert_eq!(p.apply(", hello world"), "hello world");
}

#[test]
fn replacements_are_verbatim() {
    let p = Postprocessor::new(&cfg_with_replacements(&[("price", "$1 $$ ${x}")])).unwrap();
    assert_eq!(p.apply("the price is"), "The $1 $$ ${x} is.");
}

#[test]
fn tidying_works_on_its_own() {
    let p = Postprocessor::new(&default_cfg()).unwrap();
    assert_eq!(p.tidy("  a \u{2003}\n b  .  c ?d"), "A b. C?d");
    assert_eq!(p.tidy(" ,; : hello , there"), "Hello , there");
    assert_eq!(p.tidy(" .x"), ".X");
    assert_eq!(p.tidy(""), "");
    let raw = Postprocessor::new(&raw_cfg()).unwrap();
    assert_eq!(raw.tidy("a  b"), "a b");
}

#[test]
fn finishing_adds_at_most_one_period() {
    let p = Postprocessor::new(&default_cfg()).unwrap();
    assert_eq!(p.finish("a".to_string()), "a.");
    assert_eq!(p.finish(p.finish("a".to_string())), "a.");
    assert_eq!(p.finish(String::new()), "");
    let raw = Postprocessor::new(&raw_cfg()).unwrap();
    assert_eq!(raw.finish("a".to_string()), "a");
}

#[test]
fn capitals_pass_over_what_is_no_letter() {
    assert_eq!(capitalize_sentences("3 apples. \"so\"? yes"), "3 Apples. \"So\"? Yes");
    assert_eq!(capitalize_sentences("étude one"), "éTude one");
    let once = capitalize_sentences("one. two! three");
    assert_eq!(capitalize_sentences(&once), once);
}

#[test]
fn every_meta_character_is_taken_literally() {
    let from = r"a.b+c*d?(e)|[f]{g}^h$#&-~\";
    let p = Postprocessor::new(&cfg_with_replacements(&[(from, "X")])).unwrap();
    assert_eq!(p.apply(&format!("see {from} there")), "See X there.");
}

#[test]
fn settings_that_do_not_compile_are_reported() {
    let mut cfg = default_cfg();
    cfg.filler_words = vec!["x".repeat(600_000)];
    match Postprocessor::new(&cfg) {
        Err(e @ PostprocessError::Fillers { .. }) => {
            assert!(e.message().starts_with("compiling filler-words regex: "))
        }
        other => panic!("expected an error, got {}", other.is_ok()),
    }
    let long = "y".repeat(600_000);
    match Postprocessor::new(&cfg_with_replacements(&[("ok", "fine"), (&long, "z")])) {
        Err(PostprocessError::Replacement { from, detail }) => {
            assert_eq!(from, long);
            assert!(!detail.is_empty());
        }
        _ => panic!("expected an error"),
    }
}

#[test]
fn messages_name_the_replacement() {
    let e = PostprocessError::Replacement {
        from: "c++".to_string(),
        detail: "too big".to_string(),
    };
    assert_eq!(e.message(), "compiling replacement regex for `c++`: too big");
}

fn replacing(from: &str, to: &str) -> Postprocessor {
    let mut cfg = raw_cfg();
    cfg.replacements = vec![[from.to_string(), to.to_string()]];
    Postprocessor::new(&cfg).unwrap()
}

fn removing(words: &[&str]) -> Postprocessor {
    let mut cfg = raw_cfg();
    cfg.remove_fillers = true;
    cfg.filler_words = words.iter().map(|w| w.to_string()).collect();
    Postprocessor::new(&cfg).unwrap()
}

#[test]
fn replacements_take_whole_words_in_any_case() {
    let p = replacing("aa", "X");
    assert_eq!(p.apply("aa AA aA,aa aaa _aa aa9 (aa)"), "X X X,X aaa _aa aa9 (X)");
    assert_eq!(replacing("AA", "X").apply("aa aaa"), "X aaa");
    assert_eq!(p.apply("nothing here"), "nothing here");
}

#[test]
fn edges_that_are_no_word_characters_need_no_boundary() {
    assert_eq!(replacing("c++", "C").apply("c++ c++x xc++ C++"), "C Cx xc++ C");
    assert_eq!(replacing("++", "-").apply("a++b +++ ++++"), "a-b -+ --");
    assert_eq!(replacing("a b", "X").apply("a b a  b xa b"), "X X xa b");
}

#[test]
fn the_first_filler_that_fits_is_removed() {
    assert_eq!(removing(&["you", "you know"]).apply("You know it"), "know it");
    assert_eq!(removing(&["you know", "you"]).apply("You know it"), "it");
    assert_eq!(removing(&["so", "sofa"]).apply("sofa so what also"), "what also");
    assert_eq!(removing(&["c++"]).apply("c++ c++x"), "c++ x");
    assert_eq!(removing(&["a.c"]).apply("abc a.c"), "abc");
}

#[test]
fn speech_without_fillers_stays() {
    assert_eq!(removing(&["so", "um"]).apply("also sofa umbrella"), "also sofa umbrella");
}

#[test]
fn tidying_twice_changes_nothing() {
    let p = Postprocessor::new(&raw_cfg()).unwrap();
    let once = p.tidy(" , ; one \u{a0} two  . three ! ");
    assert_eq!(once, "one two. three!");
    assert_eq!(p.tidy(&once), once);
    assert_eq!(p.apply(&once), once);
}

#[test]
fn stops_inside_words_start_no_sentence() {
    assert_eq!(
        capitalize_sentences("visit example.com now. or not"),
        "Visit example.com now. Or not"
    );
    assert_eq!(capitalize_sentences("about 3.14 or so"), "About 3.14 or so");
    assert_eq!(capitalize_sentences("wait... what?! no"), "Wait... What?! No");
    assert_eq!(capitalize_sentences("end.\nnext"), "End.\nNext");
    assert_eq!(
        Postprocessor::new(&default_cfg()).unwrap().apply("visit example.com now"),
        "Visit example.com now."
    );
}
