//! Regular expressions, by way of the `regex` crate.

use vstd::prelude::*;

use crate::text;

verus! {

/// The regular expressions of the `regex` crate.
#[verifier::external_type_specification]
#[verifier::external_body]
pub struct ExRegex(regex::Regex);

// ---------------------------------------------------------------------------
// Names for what the crate computes
// ---------------------------------------------------------------------------

/// The message of the error with which `regex::Regex::new` refuses `source`,
/// or nothing where it takes it.
pub uninterp spec fn regex_fault(source: Seq<char>) -> Option<Seq<char>>;

/// What `regex::Regex::replace_all` makes of `text` with a verbatim
/// replacement, for the expression compiled from `source`.
pub uninterp spec fn regex_replaced(
    source: Seq<char>,
    text: Seq<char>,
    with: Seq<char>,
) -> Seq<char>;

/// What `regex::Regex::replace_all` makes of `text` with a replacement
/// template, for the expression compiled from `source`.
pub uninterp spec fn regex_expanded(
    source: Seq<char>,
    text: Seq<char>,
    template: Seq<char>,
) -> Seq<char>;

// ---------------------------------------------------------------------------
// What the fixed expressions do
// ---------------------------------------------------------------------------

/// A run of white space.
pub const WHITE_RUN: &'static str = "\\s+";

/// White space before the end of a sentence, which is captured.
pub const GAP_BEFORE_STOP: &'static str = "\\s+([.?!])";

/// White space, commas, semicolons and colons at the start.
pub const STRANDED_LEAD: &'static str = "^[\\s,;:]+";

/// Whether `c` ends a sentence.
pub open spec fn is_stop(c: char) -> bool {
    c == '.' || c == '?' || c == '!'
}

/// Whether `c` is white space or punctuation from inside a sentence.
pub open spec fn is_lead(c: char) -> bool {
    text::is_white(c) || c == ',' || c == ';' || c == ':'
}

/// `s` with each run of white space turned into one space.
pub open spec fn squeezed(s: Seq<char>) -> Seq<char>
    decreases s.len(),
{
    if s.len() == 0 {
        s
    } else if !text::is_white(s.last()) {
        squeezed(s.drop_last()).push(s.last())
    } else if s.len() > 1 && text::is_white(s[s.len() - 2]) {
        squeezed(s.drop_last())
    } else {
        squeezed(s.drop_last()).push(' ')
    }
}

/// Whether the first character of `s` that is not white space ends a sentence.
pub open spec fn stop_ahead(s: Seq<char>) -> bool {
    text::trim_front(s).len() > 0 && is_stop(text::trim_front(s)[0])
}

/// `s` without the white space that stands before the end of a sentence.
pub open spec fn closed_gaps(s: Seq<char>) -> Seq<char>
    decreases s.len(),
{
    if s.len() == 0 {
        s
    } else if text::is_white(s[0]) && stop_ahead(s) {
        closed_gaps(s.drop_first())
    } else {
        seq![s[0]] + closed_gaps(s.drop_first())
    }
}

/// `s` without leading white space, commas, semicolons and colons.
pub open spec fn without_lead(s: Seq<char>) -> Seq<char>
    decreases s.len(),
{
    if s.len() > 0 && is_lead(s[0]) {
        without_lead(s.drop_first())
    } else {
        s
    }
}

// ---------------------------------------------------------------------------
// Calls into the crate
// ---------------------------------------------------------------------------

/// Whether `c` has a meaning of its own in a regular expression.
pub open spec fn is_meta(c: char) -> bool {
    c == '\\' || c == '.' || c == '+' || c == '*' || c == '?' || c == '(' || c == ')' || c == '|'
        || c == '[' || c == ']' || c == '{' || c == '}' || c == '^' || c == '$' || c == '#' || c
        == '&' || c == '-' || c == '~'
}

/// `s` with a backslash before each character that has a meaning of its own.
pub open spec fn escaped(s: Seq<char>) -> Seq<char>
    decreases s.len(),
{
    if s.len() == 0 {
        s
    } else if is_meta(s.last()) {
        escaped(s.drop_last()).push('\\').push(s.last())
    } else {
        escaped(s.drop_last()).push(s.last())
    }
}

/// `regex::escape`: a backslash before each meta character, and nothing else
/// changed.
pub assume_specification[ regex::escape ](literal: &str) -> (r: String)
    ensures
        r@ == escaped(literal@),
;

// ---------------------------------------------------------------------------
// Expressions for literal text
// ---------------------------------------------------------------------------

/// Whether `c` is an ASCII letter or digit or an underscore.
pub open spec fn is_word(c: char) -> bool {
    text::is_letter(c) || text::is_digit(c) || c == '_'
}

/// A word boundary beside a word character, and nothing beside another one.
pub open spec fn edge(c: char) -> Seq<char> {
    if is_word(c) {
        "\\b"@
    } else {
        ""@
    }
}

/// The expression for a text: the text in any case, with a word boundary at
/// each edge that is a word character.
pub open spec fn literal_source(lit: Seq<char>) -> Seq<char> {
    "(?i)"@ + edge(lit[0]) + escaped(lit) + edge(lit.last())
}

/// The words, escaped, with a bar between them.
pub open spec fn alternatives(words: Seq<Seq<char>>) -> Seq<char>
    decreases words.len(),
{
    if words.len() == 0 {
        Seq::empty()
    } else if words.len() == 1 {
        escaped(words[0])
    } else {
        alternatives(words.drop_last()) + "|"@ + escaped(words.last())
    }
}

/// The expression for several words: any one of them, in any case, between two
/// word boundaries.
pub open spec fn words_source(words: Seq<Seq<char>>) -> Seq<char> {
    "(?i)\\b("@ + alternatives(words) + ")\\b"@
}

/// Whether the place before `s[i]` has a word character on exactly one side.
pub open spec fn is_boundary(s: Seq<char>, i: int) -> bool {
    (0 < i && is_word(s[i - 1])) != (i < s.len() && is_word(s[i]))
}

/// Whether `lit` stands in `s` at `i`, whatever the case of its letters.
pub open spec fn fits_at(s: Seq<char>, i: int, lit: Seq<char>) -> bool {
    i + lit.len() <= s.len() && text::lowered(s.subrange(i, i + lit.len())) == text::lowered(lit)
}

/// How much of `s` the expression for `lit` takes at `i`: all of `lit` or
/// nothing.
pub open spec fn literal_len(s: Seq<char>, i: int, lit: Seq<char>) -> nat {
    if fits_at(s, i, lit) && (is_word(lit[0]) ==> is_boundary(s, i)) && (is_word(lit.last())
        ==> is_boundary(s, i + lit.len())) {
        lit.len()
    } else {
        0
    }
}

/// How much of `s` the expression for `words` takes at `i`: all of the first
/// one that stands there as a whole word, or nothing.
pub open spec fn words_len(s: Seq<char>, i: int, words: Seq<Seq<char>>) -> nat
    decreases words.len(),
{
    if words.len() == 0 {
        0
    } else if words_len(s, i, words.drop_last()) > 0 {
        words_len(s, i, words.drop_last())
    } else if fits_at(s, i, words.last()) && is_boundary(s, i) && is_boundary(
        s,
        i + words.last().len(),
    ) {
        words.last().len()
    } else {
        0
    }
}

/// What is left of `s` from `at` on, once `with` has taken the place of each
/// stretch, from left to right: `len_at` says how much is taken at a place.
pub open spec fn swapped_from(
    s: Seq<char>,
    at: int,
    len_at: spec_fn(int) -> nat,
    with: Seq<char>,
) -> Seq<char>
    decreases s.len() - at,
{
    if at < 0 || at >= s.len() {
        Seq::empty()
    } else if 0 < len_at(at) && at + len_at(at) <= s.len() {
        with + swapped_from(s, at + len_at(at), len_at, with)
    } else {
        seq![s[at]] + swapped_from(s, at + 1, len_at, with)
    }
}

/// Whether `lit` is not empty and ASCII.
pub open spec fn is_plain(lit: Seq<char>) -> bool {
    lit.len() > 0 && text::is_ascii(lit)
}

/// Whether each word is not empty and ASCII.
pub open spec fn all_plain(words: Seq<Seq<char>>) -> bool {
    forall|k: int| 0 <= k < words.len() ==> is_plain(#[trigger] words[k])
}

/// `s` with `with` in place of each `lit`, whatever its case, that is no part
/// of a longer word. Outside ASCII it depends on the tables of Unicode which
/// characters are letters and which are equal up to case.
pub open spec fn literal_swapped(lit: Seq<char>, s: Seq<char>, with: Seq<char>) -> Seq<char> {
    if is_plain(lit) && text::is_ascii(s) {
        swapped_from(s, 0, |i: int| literal_len(s, i, lit), with)
    } else {
        regex_replaced(literal_source(lit), s, with)
    }
}

/// `s` with `with` in place of each of the words, whatever its case, that
/// stands as a whole word.
pub open spec fn words_swapped(words: Seq<Seq<char>>, s: Seq<char>, with: Seq<char>) -> Seq<char> {
    if all_plain(words) && text::is_ascii(s) {
        swapped_from(s, 0, |i: int| words_len(s, i, words), with)
    } else {
        regex_replaced(words_source(words), s, with)
    }
}

/// Replacing the matches of the expression for a plain text swaps that text.
pub open spec fn literals_are_swapped(
    source: Seq<char>,
    s: Seq<char>,
    with: Seq<char>,
    result: Seq<char>,
) -> bool {
    forall|lit: Seq<char>|
        source == #[trigger] literal_source(lit) && is_plain(lit) && text::is_ascii(s) ==> result
            == swapped_from(s, 0, |i: int| literal_len(s, i, lit), with)
}

/// Replacing the matches of the expression for plain words swaps those words.
pub open spec fn words_are_swapped(
    source: Seq<char>,
    s: Seq<char>,
    with: Seq<char>,
    result: Seq<char>,
) -> bool {
    forall|words: Seq<Seq<char>>|
        source == #[trigger] words_source(words) && words.len() > 0 && all_plain(words)
            && text::is_ascii(s) ==> result == swapped_from(
            s,
            0,
            |i: int| words_len(s, i, words),
            with,
        )
}

// ---------------------------------------------------------------------------
// Compiled expressions
// ---------------------------------------------------------------------------

/// A compiled regular expression. Values come from [`Pattern::compile`] alone,
/// so the expression is always the one that was compiled from the source.
#[derive(Debug)]
pub struct Pattern {
    source: String,
    regex: regex::Regex,
}

impl View for Pattern {
    type V = Seq<char>;

    /// The text that the expression was compiled from.
    closed spec fn view(&self) -> Seq<char> {
        self.source@
    }
}

impl Pattern {
    /// `regex::Regex::new`: which texts compile is named, and so is the error's
    /// message; the three fixed expressions compile.
    #[verifier::external_body]
    pub(crate) fn compile(source: &str) -> (r: Result<Pattern, String>)
        ensures
            match r {
                Ok(p) => regex_fault(source@) is None && p@ == source@,
                Err(e) => regex_fault(source@) == Some(e@),
            },
            source@ == WHITE_RUN@ || source@ == GAP_BEFORE_STOP@ || source@ == STRANDED_LEAD@
                ==> r is Ok,
    {
        match regex::Regex::new(source) {
            Ok(regex) => Ok(Pattern { source: source.to_owned(), regex }),
            Err(e) => Err(e.to_string()),
        }
    }

    /// `regex::Regex::replace_all` with `regex::NoExpand`: every match is
    /// replaced by `with` as it stands. The result is named. It is stated for
    /// runs of white space replaced by a space, for a stranded lead replaced by
    /// nothing, and, on ASCII text, for the expressions of a literal text and
    /// of literal words: matches are sought from left to right, do not overlap,
    /// and of several words the first one that fits is taken.
    #[verifier::external_body]
    pub(crate) fn replace_all(&self, text: &str, with: &str) -> (r: String)
        ensures
            r@ == regex_replaced(self@, text@, with@),
            self@ == WHITE_RUN@ && with@ == " "@ ==> r@ == squeezed(text@),
            self@ == STRANDED_LEAD@ && with@ == ""@ ==> r@ == without_lead(text@),
            literals_are_swapped(self@, text@, with@, r@),
            words_are_swapped(self@, text@, with@, r@),
    {
        self.regex.replace_all(text, regex::NoExpand(with)).into_owned()
    }

    /// `regex::Regex::replace_all` with a template in which `$1` stands for the
    /// first group. The result is named; for the gap before the end of a
    /// sentence replaced by what follows it, it is stated.
    #[verifier::external_body]
    pub(crate) fn expand_all(&self, text: &str, template: &str) -> (r: String)
        ensures
            r@ == regex_expanded(self@, text@, template@),
            self@ == GAP_BEFORE_STOP@ && template@ == "$1"@ ==> r@ == closed_gaps(text@),
    {
        self.regex.replace_all(text, template).into_owned()
    }
}

// ---------------------------------------------------------------------------
// Laws
// ---------------------------------------------------------------------------

/// The characters that end a sentence, and those that are cut off a start.
pub proof fn stops_and_leads(c: char)
    ensures
        is_stop(c) <==> c == '.' || c == '?' || c == '!',
        is_lead(c) <==> text::is_white(c) || c == ',' || c == ';' || c == ':',
        is_word(c) <==> 'a' <= c <= 'z' || 'A' <= c <= 'Z' || '0' <= c <= '9' || c == '_',
{
}

/// Up to the first stretch that is taken nothing changes, and what comes in its
/// place is the replacement.
pub proof fn first_stretch_is_swapped(
    s: Seq<char>,
    at: int,
    k: int,
    len_at: spec_fn(int) -> nat,
    with: Seq<char>,
)
    requires
        0 <= at <= k < s.len(),
        forall|i: int| at <= i < k ==> #[trigger] len_at(i) == 0,
        0 < len_at(k),
        k + len_at(k) <= s.len(),
    ensures
        swapped_from(s, at, len_at, with) == s.subrange(at, k) + with + swapped_from(
            s,
            k + len_at(k),
            len_at,
            with,
        ),
    decreases k - at,
{
    if at == k {
        assert(s.subrange(at, k) + with =~= with);
    } else {
        first_stretch_is_swapped(s, at + 1, k, len_at, with);
        let rest = swapped_from(s, k + len_at(k), len_at, with);
        assert(seq![s[at]] + (s.subrange(at + 1, k) + with + rest) =~= s.subrange(at, k) + with
            + rest);
    }
}

/// Whether `lit` stands in `s` at `k` as a whole: whatever its case, and with no
/// word character beside an edge of its own that is one.
pub open spec fn stands_at(s: Seq<char>, k: int, lit: Seq<char>) -> bool {
    &&& 0 <= k
    &&& k + lit.len() <= s.len()
    &&& forall|i: int|
        0 <= i < lit.len() ==> text::lower(#[trigger] lit[i]) == text::lower(s[k + i])
    &&& is_word(lit[0]) && 0 < k ==> !is_word(s[k - 1])
    &&& is_word(lit.last()) && k + lit.len() < s.len() ==> !is_word(s[k + lit.len()])
}

/// A text is taken exactly where it stands as a whole.
pub proof fn literals_are_taken_whole(s: Seq<char>, k: int, lit: Seq<char>)
    requires
        0 <= k,
        lit.len() > 0,
    ensures
        literal_len(s, k, lit) == (if stands_at(s, k, lit) {
            lit.len()
        } else {
            0
        }),
{
    if k + lit.len() <= s.len() {
        let found = s.subrange(k, k + lit.len());
        assert(found[0] == s[k]);
        assert(found.last() == s[k + lit.len() - 1]);
        if text::lowered(found) == text::lowered(lit) {
            assert forall|i: int| 0 <= i < lit.len() implies text::lower(#[trigger] lit[i])
                == text::lower(s[k + i]) by {
                assert(text::lowered(found)[i] == text::lowered(lit)[i]);
            }
            assert(is_word(s[k]) == is_word(lit[0])) by {
                assert(text::lower(lit[0]) == text::lower(s[k]));
            }
            assert(is_word(s[k + lit.len() - 1]) == is_word(lit.last())) by {
                assert(text::lower(lit[lit.len() - 1]) == text::lower(s[k + lit.len() - 1]));
            }
        }
        if stands_at(s, k, lit) {
            assert forall|i: int| 0 <= i < lit.len() implies text::lowered(found)[i]
                == text::lowered(lit)[i] by {
                assert(text::lower(lit[i]) == text::lower(s[k + i]));
            }
            assert(text::lowered(found) =~= text::lowered(lit));
        }
    }
}

/// Escaping goes character by character: a backslash before each of those that mean
/// something in an expression, and nothing before any other.
pub proof fn escaping_goes_by_character(a: Seq<char>, b: Seq<char>, c: char)
    ensures
        escaped(a + b) == escaped(a) + escaped(b),
        "\\.+*?()|[]{}^$#&-~"@.contains(c) ==> escaped(seq![c]) == seq!['\\', c],
        !"\\.+*?()|[]{}^$#&-~"@.contains(c) ==> escaped(seq![c]) == seq![c],
    decreases b.len(),
{
    reveal_strlit("\\.+*?()|[]{}^$#&-~");
    let all = "\\.+*?()|[]{}^$#&-~"@;
    assert(all.len() == 18);
    assert(all[0] == '\\' && all[1] == '.' && all[2] == '+' && all[3] == '*' && all[4] == '?');
    assert(all[5] == '(' && all[6] == ')' && all[7] == '|' && all[8] == '[' && all[9] == ']');
    assert(all[10] == '{' && all[11] == '}' && all[12] == '^' && all[13] == '$' && all[14] == '#');
    assert(all[15] == '&' && all[16] == '-' && all[17] == '~');
    reveal_with_fuel(escaped, 2);
    assert(seq![c].drop_last() =~= Seq::<char>::empty());
    assert(is_meta(c) ==> escaped(seq![c]) =~= seq!['\\', c]);
    assert(!is_meta(c) ==> escaped(seq![c]) =~= seq![c]);
    if b.len() == 0 {
        assert(a + b =~= a);
        assert(escaped(a) + escaped(b) =~= escaped(a));
    } else {
        escaping_goes_by_character(a, b.drop_last(), c);
        assert((a + b).drop_last() =~= a + b.drop_last());
        assert((a + b).last() == b.last());
        assert(escaped(a + b) =~= escaped(a) + escaped(b));
    }
}

/// Whether `c` is one of the characters that words are made of.
pub open spec fn is_worded(c: char) -> bool {
    'a' <= c <= 'z' || 'A' <= c <= 'Z' || '0' <= c <= '9' || c == '_'
}

/// The expression for a text matches it in any case, as a whole word at each end that
/// is part of a word, and with nothing else asked of it at an end that is not.
pub proof fn expressions_match_whole_words(lit: Seq<char>)
    requires
        lit.len() > 0,
    ensures
        is_worded(lit[0]) && is_worded(lit.last()) ==> literal_source(lit) == "(?i)\\b"@
            + escaped(lit) + "\\b"@,
        is_worded(lit[0]) && !is_worded(lit.last()) ==> literal_source(lit) == "(?i)\\b"@
            + escaped(lit),
        !is_worded(lit[0]) && is_worded(lit.last()) ==> literal_source(lit) == "(?i)"@
            + escaped(lit) + "\\b"@,
        !is_worded(lit[0]) && !is_worded(lit.last()) ==> literal_source(lit) == "(?i)"@
            + escaped(lit),
{
    reveal_strlit("(?i)");
    reveal_strlit("\\b");
    reveal_strlit("");
    reveal_strlit("(?i)\\b");
    assert("(?i)"@ + "\\b"@ =~= "(?i)\\b"@);
    assert("(?i)"@ + ""@ =~= "(?i)"@);
    assert("(?i)"@ + escaped(lit) + ""@ =~= "(?i)"@ + escaped(lit));
    assert("(?i)\\b"@ + escaped(lit) + ""@ =~= "(?i)\\b"@ + escaped(lit));
}

/// The expression for several words matches each of them, in any case and as a whole
/// word.
pub proof fn expressions_match_each_word(words: Seq<Seq<char>>)
    ensures
        words_source(words) == "(?i)\\b("@ + text::glued(
            Seq::new(words.len(), |i: int| escaped(words[i])),
            '|',
        ) + ")\\b"@,
{
    alternatives_are_glued(words);
}

proof fn alternatives_are_glued(words: Seq<Seq<char>>)
    ensures
        alternatives(words) == text::glued(
            Seq::new(words.len(), |i: int| escaped(words[i])),
            '|',
        ),
    decreases words.len(),
{
    reveal_strlit("|");
    let quoted = Seq::new(words.len(), |i: int| escaped(words[i]));
    if words.len() > 1 {
        alternatives_are_glued(words.drop_last());
        let front = words.drop_last();
        assert(quoted.drop_last() =~= Seq::new(front.len(), |i: int| escaped(front[i])));
        assert(quoted.last() == escaped(words.last()));
        assert(alternatives(words) =~= text::glued(quoted, '|'));
    }
}

/// Text of other alphabets goes through the engine like any other: whatever is sought
/// there is sought by its expression.
pub proof fn other_alphabets_are_sought_too(
    lit: Seq<char>,
    words: Seq<Seq<char>>,
    s: Seq<char>,
    with: Seq<char>,
)
    ensures
        !text::is_ascii(s) ==> literal_swapped(lit, s, with) == regex_replaced(
            literal_source(lit),
            s,
            with,
        ),
        !text::is_ascii(lit) ==> literal_swapped(lit, s, with) == regex_replaced(
            literal_source(lit),
            s,
            with,
        ),
        !text::is_ascii(s) ==> words_swapped(words, s, with) == regex_replaced(
            words_source(words),
            s,
            with,
        ),
        forall|k: int|
            0 <= k < words.len() && !text::is_ascii(#[trigger] words[k]) ==> words_swapped(
                words,
                s,
                with,
            ) == regex_replaced(words_source(words), s, with),
{
    assert forall|k: int|
        0 <= k < words.len() && !text::is_ascii(#[trigger] words[k]) implies words_swapped(
        words,
        s,
        with,
    ) == regex_replaced(words_source(words), s, with) by {
        assert(!is_plain(words[k]));
    }
}

} // verus!
