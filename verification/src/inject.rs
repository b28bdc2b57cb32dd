//! Putting a transcript into the focused window.

use vstd::prelude::*;

use crate::config::InjectionMethod;
use crate::decimal;
use crate::text;

verus! {

/// Milliseconds that `xclip` is given to claim the clipboard.
pub const CLAIM_DELAY_MS: u64 = 30;

/// Milliseconds that the focused window is given to fetch the clipboard.
pub const FETCH_DELAY_MS: u64 = 150;

/// How transcripts are put into the focused window.
#[derive(Debug, Clone)]
pub struct Injector {
    pub method: InjectionMethod,
    pub delay_ms: u32,
    pub paste_shortcut: String,
}

/// The steps of one injection.
#[derive(Debug)]
pub enum Injection {
    /// Nothing to inject.
    Skip,
    /// Run `xdotool` with these arguments.
    Type(Vec<String>),
    /// Run `xclip` with `clip_args` and the text on its input, then `xdotool`
    /// with `key_args`, then end `xclip`, which otherwise would own the
    /// clipboard for ever.
    Paste { clip_args: Vec<String>, key_args: Vec<String> },
}

/// The arguments of `xdotool` that type `text`.
pub open spec fn type_args(delay_ms: u32, text: Seq<char>) -> Seq<Seq<char>> {
    seq![
        "type"@,
        "--clearmodifiers"@,
        "--delay"@,
        decimal::numeral(delay_ms as nat),
        "--"@,
        text,
    ]
}

impl Injector {
    /// An injector with these settings.
    pub fn new(method: InjectionMethod, delay_ms: u32, paste_shortcut: String) -> (r: Self)
        ensures
            r == (Injector { method, delay_ms, paste_shortcut }),
    {
        Injector { method, delay_ms, paste_shortcut }
    }

    /// The arguments of `xdotool` that type `text`. The separator comes before
    /// the text, so that text that looks like a flag is not taken for one.
    pub fn build_type_args(&self, text: &str) -> (r: Vec<String>)
        ensures
            text::texts(r@) == type_args(self.delay_ms, text@),
    {
        let args: Vec<String> = vec![
            "type".to_owned(),
            "--clearmodifiers".to_owned(),
            "--delay".to_owned(),
            decimal::numeral_text(self.delay_ms as u64),
            "--".to_owned(),
            text.to_owned(),
        ];
        assert(text::texts(args@) =~= type_args(self.delay_ms, text@));
        args
    }

    /// What it takes to inject `text`: nothing at all where it is blank.
    pub fn inject(&self, text: &str) -> (r: Injection)
        ensures
            if text::trimmed(text@).len() == 0 {
                r is Skip
            } else {
                match self.method {
                    InjectionMethod::Type => r matches Injection::Type(args) && text::texts(args@)
                        == type_args(self.delay_ms, text@),
                    InjectionMethod::Paste => r matches Injection::Paste { clip_args, key_args }
                        && text::texts(clip_args@) == seq!["-selection"@, "clipboard"@, "-in"@]
                        && text::texts(key_args@) == seq![
                        "key"@,
                        "--clearmodifiers"@,
                        self.paste_shortcut@,
                    ],
                }
            },
    {
        let kept = text::trim(text);
        if kept.as_str().is_empty() {
            return Injection::Skip;
        }
        match self.method {
            InjectionMethod::Type => Injection::Type(self.build_type_args(text)),
            InjectionMethod::Paste => {
                let clip_args: Vec<String> = vec![
                    "-selection".to_owned(),
                    "clipboard".to_owned(),
                    "-in".to_owned(),
                ];
                let key_args: Vec<String> = vec![
                    "key".to_owned(),
                    "--clearmodifiers".to_owned(),
                    self.paste_shortcut.clone(),
                ];
                assert(text::texts(clip_args@) =~= seq!["-selection"@, "clipboard"@, "-in"@]);
                assert(text::texts(key_args@) =~= seq![
                    "key"@,
                    "--clearmodifiers"@,
                    self.paste_shortcut@,
                ]);
                Injection::Paste { clip_args, key_args }
            },
        }
    }
}

// ---------------------------------------------------------------------------
// Laws
// ---------------------------------------------------------------------------

/// What is typed is the given text, character for character, behind the separator;
/// the other arguments are the same for every text.
pub proof fn typing_types_the_text(injector: Injector, text: &str, r: Vec<String>)
    requires
        call_ensures(Injector::build_type_args, (&injector, text), r),
    ensures
        r@.len() == 6,
        r@[5]@ == text@,
        r@[4]@ == "--"@,
        r@[0]@ == "type"@,
        r@[1]@ == "--clearmodifiers"@,
        r@[2]@ == "--delay"@,
        r@[3]@ == decimal::numeral(injector.delay_ms as nat),
{
    let args = text::texts(r@);
    assert(args == type_args(injector.delay_ms, text@));
    assert(args.len() == 6);
    assert(args[0] == r@[0]@ && args[1] == r@[1]@ && args[2] == r@[2]@);
    assert(args[3] == r@[3]@ && args[4] == r@[4]@ && args[5] == r@[5]@);
}

/// Two different texts, or two different delays, are never typed by the same
/// arguments.
pub proof fn typing_tells_texts_apart(a: u32, b: u32, one: Seq<char>, other: Seq<char>)
    requires
        type_args(a, one) == type_args(b, other),
    ensures
        one == other,
        a == b,
{
    decimal::numeral_reads_back(a as nat);
    decimal::numeral_reads_back(b as nat);
    assert(type_args(a, one)[5] == type_args(b, other)[5]);
    assert(type_args(a, one)[3] == type_args(b, other)[3]);
}

/// A text is injected exactly where it is not blank: typed as it stands, or pasted
/// with the configured key combination, as the settings say.
pub proof fn injection_follows_the_settings(injector: Injector, text: &str, r: Injection)
    requires
        call_ensures(Injector::inject, (&injector, text), r),
    ensures
        r is Skip <==> text::blank(text@),
        r is Type ==> injector.method is Type,
        r is Paste ==> injector.method is Paste,
        r matches Injection::Type(args) ==> args@.len() == 6 && args@[4]@ == "--"@ && args@[5]@
            == text@,
        r matches Injection::Paste { clip_args, key_args } ==> {
            &&& clip_args@.len() == 3
            &&& clip_args@[0]@ == "-selection"@
            &&& clip_args@[1]@ == "clipboard"@
            &&& clip_args@[2]@ == "-in"@
            &&& key_args@.len() == 3
            &&& key_args@[0]@ == "key"@
            &&& key_args@[1]@ == "--clearmodifiers"@
            &&& key_args@[2]@ == injector.paste_shortcut@
        },
{
    let (a, b) = text::trimming_cuts_white_space_only(text@);
    if text::trimmed(text@).len() > 0 {
        assert(text::trimmed(text@)[0] == text@[a]);
    } else {
        assert forall|i: int| 0 <= i < text@.len() implies text::is_white(#[trigger] text@[i]) by {
            if i < a {
                assert(text@.take(a)[i] == text@[i]);
            } else {
                assert(text@.skip(b)[i - b] == text@[i]);
            }
        }
    }
    match r {
        Injection::Type(args) => {
            let t = text::texts(args@);
            assert(t == type_args(injector.delay_ms, text@));
            assert(t.len() == 6 && t[4] == args@[4]@ && t[5] == args@[5]@);
        },
        Injection::Paste { clip_args, key_args } => {
            let c = text::texts(clip_args@);
            let k = text::texts(key_args@);
            assert(c.len() == 3 && k.len() == 3);
            assert(c[0] == clip_args@[0]@ && c[1] == clip_args@[1]@ && c[2] == clip_args@[2]@);
            assert(k[0] == key_args@[0]@ && k[1] == key_args@[1]@ && k[2] == key_args@[2]@);
        },
        Injection::Skip => {},
    }
}

} // verus!
