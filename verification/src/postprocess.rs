//! Cleaning a transcript: filler words, spacing, capitals, the user's own
//! replacements, and the final period.

use vstd::prelude::*;

use crate::config::PostprocessConfig;
use crate::pattern;
use crate::pattern::Pattern;
use crate::text;

verus! {

/// Why the settings cannot be used.
#[derive(Debug)]
pub enum PostprocessError {
    /// The expression for the filler words does not compile.
    Fillers { detail: String },
    /// The expression for a replacement does not compile.
    Replacement { from: String, detail: String },
}

impl PostprocessError {
    /// The message for this error.
    pub open spec fn text(self) -> Seq<char> {
        match self {
            PostprocessError::Fillers { detail } => "compiling filler-words regex: "@ + detail@,
            PostprocessError::Replacement { from, detail } =>
                "compiling replacement regex for `"@ + from@ + "`: "@ + detail@,
        }
    }

    /// The message for this error.
    pub fn message(&self) -> (r: String)
        ensures
            r@ == self.text(),
    {
        match self {
            PostprocessError::Fillers { detail } => text::concat2(
                "compiling filler-words regex: ",
                detail.as_str(),
            ),
            PostprocessError::Replacement { from, detail } => {
                let mut out: String = "compiling replacement regex for `".to_owned();
                out.append(from.as_str());
                out.append("`: ");
                out.append(detail.as_str());
                out
            },
        }
    }
}

// ---------------------------------------------------------------------------
// The expressions of a configuration
// ---------------------------------------------------------------------------

/// Those of the words that are not blank.
pub open spec fn kept_words(words: Seq<Seq<char>>) -> Seq<Seq<char>>
    decreases words.len(),
{
    if words.len() == 0 {
        words
    } else if text::trimmed(words.last()).len() == 0 {
        kept_words(words.drop_last())
    } else {
        kept_words(words.drop_last()).push(words.last())
    }
}

/// What a postprocessor does.
#[verifier::ext_equal]
pub struct PostPlan {
    /// The words that are removed.
    pub fillers: Seq<Seq<char>>,
    pub capitalize: bool,
    pub period: bool,
    /// What is replaced, each with what replaces it.
    pub replacements: Seq<(Seq<char>, Seq<char>)>,
}

/// A fault in the settings: of the filler words, or of the replacement for the
/// given text; with the message.
pub enum PostFault {
    Fillers(Seq<char>),
    Replacement(Seq<char>, Seq<char>),
}

/// A pair by its characters.
pub open spec fn pair_text(pair: [String; 2]) -> (Seq<char>, Seq<char>) {
    (pair@[0]@, pair@[1]@)
}

/// The given pairs with their first texts trimmed, those with a blank first
/// text left out; or the first pair whose expression does not compile.
pub open spec fn compiled_pairs(pairs: Seq<[String; 2]>) -> Result<
    Seq<(Seq<char>, Seq<char>)>,
    PostFault,
>
    decreases pairs.len(),
{
    if pairs.len() == 0 {
        Ok(Seq::empty())
    } else {
        match compiled_pairs(pairs.drop_last()) {
            Err(fault) => Err(fault),
            Ok(front) => {
                let from = text::trimmed(pair_text(pairs.last()).0);
                if from.len() == 0 {
                    Ok(front)
                } else {
                    match pattern::regex_fault(pattern::literal_source(from)) {
                        Some(detail) => Err(PostFault::Replacement(from, detail)),
                        None => Ok(front.push((from, pair_text(pairs.last()).1))),
                    }
                }
            },
        }
    }
}

/// The words that the settings ask to remove.
pub open spec fn wanted_fillers(cfg: PostprocessConfig) -> Seq<Seq<char>> {
    if cfg.remove_fillers {
        kept_words(text::texts(cfg.filler_words@))
    } else {
        Seq::empty()
    }
}

/// Why the expression for the filler words does not compile, if it does not.
pub open spec fn filler_fault(fillers: Seq<Seq<char>>) -> Option<Seq<char>> {
    if fillers.len() == 0 {
        None
    } else {
        pattern::regex_fault(pattern::words_source(fillers))
    }
}

/// What the settings ask for, or what is wrong with them.
pub open spec fn build(cfg: PostprocessConfig) -> Result<PostPlan, PostFault> {
    let fillers = wanted_fillers(cfg);
    match filler_fault(fillers) {
        Some(detail) => Err(PostFault::Fillers(detail)),
        None => match compiled_pairs(cfg.replacements@) {
            Err(fault) => Err(fault),
            Ok(replacements) => Ok(
                PostPlan {
                    fillers,
                    capitalize: cfg.capitalize_sentences,
                    period: cfg.ensure_trailing_period,
                    replacements,
                },
            ),
        },
    }
}

// ---------------------------------------------------------------------------
// What is done to a transcript
// ---------------------------------------------------------------------------

/// Whether the next letter after `s` starts a sentence: nothing but a stop and
/// the white space behind it arms it again once a letter was passed.
pub open spec fn armed(s: Seq<char>) -> bool
    decreases s.len(),
{
    if s.len() == 0 {
        true
    } else if text::is_letter(s.last()) {
        false
    } else if s.len() > 1 && pattern::is_stop(s[s.len() - 2]) && text::is_white(s.last()) {
        true
    } else {
        armed(s.drop_last())
    }
}

/// `s` with the first letter of each sentence turned into a capital.
pub open spec fn capitalized(s: Seq<char>) -> Seq<char>
    decreases s.len(),
{
    if s.len() == 0 {
        s
    } else if armed(s.drop_last()) {
        capitalized(s.drop_last()).push(text::upper(s.last()))
    } else {
        capitalized(s.drop_last()).push(s.last())
    }
}

/// `s` without filler words.
pub open spec fn without_fillers(fillers: Seq<Seq<char>>, s: Seq<char>) -> Seq<char> {
    if fillers.len() == 0 {
        s
    } else {
        pattern::words_swapped(fillers, s, ""@)
    }
}

/// `s` with single spaces, no space before the end of a sentence, nothing
/// stranded at its start, and capitals where they are wanted.
pub open spec fn tidied(capitalize: bool, s: Seq<char>) -> Seq<char> {
    let spaced = text::trimmed(pattern::squeezed(s));
    let clean = pattern::without_lead(pattern::closed_gaps(spaced));
    if capitalize {
        capitalized(clean)
    } else {
        clean
    }
}

/// `s` after the replacements, in order: each works on what the ones before it
/// have left.
pub open spec fn substituted(
    replacements: Seq<(Seq<char>, Seq<char>)>,
    s: Seq<char>,
) -> Seq<char>
    decreases replacements.len(),
{
    if replacements.len() == 0 {
        s
    } else {
        pattern::literal_swapped(
            replacements.last().0,
            substituted(replacements.drop_last(), s),
            replacements.last().1,
        )
    }
}

/// `s` with a period at its end, where one is wanted and nothing else ends the
/// sentence.
pub open spec fn finished(period: bool, s: Seq<char>) -> Seq<char> {
    if period && s.len() > 0 && !pattern::is_stop(s.last()) {
        s.push('.')
    } else {
        s
    }
}

/// The cleaned transcript.
pub open spec fn polished(plan: PostPlan, s: Seq<char>) -> Seq<char> {
    finished(
        plan.period,
        substituted(
            plan.replacements,
            tidied(plan.capitalize, without_fillers(plan.fillers, text::trimmed(s))),
        ),
    )
}

/// A replacement with its expression compiled.
#[derive(Debug)]
struct Replacement {
    from: String,
    to: String,
    regex: Pattern,
}

impl Replacement {
    /// The expression is the one for the text to be replaced.
    #[verifier::type_invariant]
    spec fn is_compiled(self) -> bool {
        self.regex@ == pattern::literal_source(self.from@)
    }
}

/// Replacements by their texts.
spec fn pairs_of(v: Seq<Replacement>) -> Seq<(Seq<char>, Seq<char>)> {
    v.map_values(|e: Replacement| (e.from@, e.to@))
}

/// A postprocessor: settings with their expressions compiled.
#[derive(Debug)]
pub struct Postprocessor {
    filler_words: Vec<String>,
    filler_regex: Option<Pattern>,
    collapse_whitespace: Pattern,
    space_before_terminal_punct: Pattern,
    leading_stranded_punct: Pattern,
    capitalize_sentences: bool,
    ensure_trailing_period: bool,
    replacements: Vec<Replacement>,
}

impl View for Postprocessor {
    type V = PostPlan;

    closed spec fn view(&self) -> PostPlan {
        PostPlan {
            fillers: text::texts(self.filler_words@),
            capitalize: self.capitalize_sentences,
            period: self.ensure_trailing_period,
            replacements: pairs_of(self.replacements@),
        }
    }
}

/// A construction result by its views.
pub open spec fn built(r: Result<Postprocessor, PostprocessError>) -> Result<PostPlan, PostFault> {
    match r {
        Ok(p) => Ok(p@),
        Err(PostprocessError::Fillers { detail }) => Err(PostFault::Fillers(detail@)),
        Err(PostprocessError::Replacement { from, detail }) => Err(
            PostFault::Replacement(from@, detail@),
        ),
    }
}

/// Whether `c` is an ASCII letter or digit or an underscore.
fn is_word_char(c: char) -> (r: bool)
    ensures
        r == pattern::is_word(c),
{
    text::letter(c) || text::digit(c) || c == '_'
}

/// Those of the words that are not blank.
fn keep_words(words: &Vec<String>) -> (r: Vec<String>)
    ensures
        text::texts(r@) == kept_words(text::texts(words@)),
{
    let ghost all = text::texts(words@);
    let mut out: Vec<String> = Vec::new();
    assert(text::texts(out@) =~= kept_words(all.take(0)));
    for i in 0..words.len()
        invariant
            all == text::texts(words@),
            text::texts(out@) == kept_words(all.take(i as int)),
    {
        assert(all.take(i + 1).drop_last() == all.take(i as int));
        assert(all.take(i + 1).last() == words@[i as int]@);
        let bare = text::trim(words[i].as_str());
        if !bare.as_str().is_empty() {
            let ghost before = out@;
            out.push(words[i].clone());
            assert(text::texts(out@) =~= text::texts(before).push(words@[i as int]@));
        }
    }
    assert(all.take(words@.len() as int) == all);
    out
}

/// The expression for the given words.
fn filler_pattern(words: &Vec<String>) -> (r: String)
    ensures
        r@ == pattern::words_source(text::texts(words@)),
{
    let ghost all = text::texts(words@);
    let mut joined: String = String::new();
    assert(joined@ =~= pattern::alternatives(all.take(0)));
    for i in 0..words.len()
        invariant
            all == text::texts(words@),
            joined@ == pattern::alternatives(all.take(i as int)),
    {
        assert(all.take(i + 1).drop_last() == all.take(i as int));
        assert(all.take(i + 1).last() == words@[i as int]@);
        if i > 0 {
            joined.append("|");
        }
        let quoted = regex::escape(words[i].as_str());
        joined.append(quoted.as_str());
        if i == 0 {
            assert(joined@ =~= pattern::escaped(words@[0]@));
        }
    }
    assert(all.take(words@.len() as int) == all);
    text::concat3("(?i)\\b(", joined.as_str(), ")\\b")
}

/// The word boundary beside `c`.
fn boundary(c: char) -> (r: &'static str)
    ensures
        r@ == pattern::edge(c),
{
    if is_word_char(c) {
        "\\b"
    } else {
        ""
    }
}

/// The expression for the replacement of `from`.
fn replacement_pattern(from: &str) -> (r: String)
    requires
        from@.len() > 0,
    ensures
        r@ == pattern::literal_source(from@),
{
    let chars = text::chars_of(from);
    let mut out: String = "(?i)".to_owned();
    out.append(boundary(chars[0]));
    let quoted = regex::escape(from);
    out.append(quoted.as_str());
    out.append(boundary(chars[chars.len() - 1]));
    out
}

/// Compile the expressions for the given pairs.
fn compile_pairs(pairs: &Vec<[String; 2]>) -> (r: Result<Vec<Replacement>, PostprocessError>)
    ensures
        match r {
            Ok(v) => compiled_pairs(pairs@) == Ok::<Seq<(Seq<char>, Seq<char>)>, PostFault>(
                pairs_of(v@),
            ),
            Err(PostprocessError::Replacement { from, detail }) => compiled_pairs(pairs@) == Err::<
                Seq<(Seq<char>, Seq<char>)>,
                PostFault,
            >(PostFault::Replacement(from@, detail@)),
            Err(PostprocessError::Fillers { detail }) => false,
        },
{
    let mut out: Vec<Replacement> = Vec::new();
    assert(pairs_of(out@) =~= Seq::empty());
    for i in 0..pairs.len()
        invariant
            compiled_pairs(pairs@.take(i as int)) == Ok::<Seq<(Seq<char>, Seq<char>)>, PostFault>(
                pairs_of(out@),
            ),
    {
        assert(pairs@.take(i + 1).drop_last() == pairs@.take(i as int));
        assert(pairs@.take(i + 1).last() == pairs@[i as int]);
        let from = text::trim(pairs[i][0].as_str());
        if !from.as_str().is_empty() {
            let source = replacement_pattern(from.as_str());
            match Pattern::compile(source.as_str()) {
                Ok(regex) => {
                    let ghost before = out@;
                    let ghost pair = (from@, pairs@[i as int]@[1]@);
                    out.push(Replacement { from, to: pairs[i][1].clone(), regex });
                    assert(pairs_of(out@) =~= pairs_of(before).push(pair));
                },
                Err(detail) => {
                    proof {
                        first_fault_stays(pairs@, i + 1);
                    }
                    return Err(PostprocessError::Replacement { from, detail });
                },
            }
        }
    }
    assert(pairs@.take(pairs@.len() as int) == pairs@);
    Ok(out)
}

/// A fault among the first pairs is the fault of all.
proof fn first_fault_stays(pairs: Seq<[String; 2]>, k: int)
    requires
        0 <= k <= pairs.len(),
        compiled_pairs(pairs.take(k)) is Err,
    ensures
        compiled_pairs(pairs) == compiled_pairs(pairs.take(k)),
    decreases pairs.len() - k,
{
    if k < pairs.len() {
        assert(pairs.take(k + 1).drop_last() == pairs.take(k));
        first_fault_stays(pairs, k + 1);
    } else {
        assert(pairs.take(k) == pairs);
    }
}

/// Turn the first letter of each sentence into a capital. A sentence starts at
/// the front, and after a stop that is followed by white space; a stop inside a
/// word starts none. Characters other than letters neither take the capital nor
/// use it up.
pub fn capitalize_sentences(s: &str) -> (r: String)
    ensures
        r@ == capitalized(s@),
{
    let chars = text::chars_of(s);
    let mut out: String = String::new();
    let mut capitalize_next = true;
    let mut after_stop = false;
    assert(out@ =~= capitalized(chars@.take(0)));
    for i in 0..chars.len()
        invariant
            out@ == capitalized(chars@.take(i as int)),
            capitalize_next == armed(chars@.take(i as int)),
            after_stop == (i > 0 && pattern::is_stop(chars@[i - 1])),
    {
        assert(chars@.take(i + 1).drop_last() == chars@.take(i as int));
        assert(chars@.take(i + 1).last() == chars@[i as int]);
        if i > 0 {
            assert(chars@.take(i + 1)[i - 1] == chars@[i - 1]);
        }
        let c = chars[i];
        if capitalize_next {
            out.push(text::to_upper(c));
        } else {
            out.push(c);
        }
        if text::letter(c) {
            capitalize_next = false;
        } else if after_stop && text::white(c) {
            capitalize_next = true;
        }
        after_stop = c == '.' || c == '?' || c == '!';
    }
    assert(chars@.take(chars@.len() as int) == chars@);
    out
}

impl Postprocessor {
    /// Each expression is the one it is meant to be.
    #[verifier::type_invariant]
    spec fn is_compiled(self) -> bool {
        &&& self.collapse_whitespace@ == pattern::WHITE_RUN@
        &&& self.space_before_terminal_punct@ == pattern::GAP_BEFORE_STOP@
        &&& self.leading_stranded_punct@ == pattern::STRANDED_LEAD@
        &&& match self.filler_regex {
            Some(regex) => self.filler_words@.len() > 0 && regex@ == pattern::words_source(
                text::texts(self.filler_words@),
            ),
            None => self.filler_words@.len() == 0,
        }
    }

    /// Compile the settings. Blank filler words and replacements of blank text
    /// are left out: their expressions would match at every word boundary.
    pub fn new(cfg: &PostprocessConfig) -> (r: Result<Self, PostprocessError>)
        ensures
            built(r) == build(*cfg),
    {
        let filler_words: Vec<String> = if cfg.remove_fillers {
            keep_words(&cfg.filler_words)
        } else {
            Vec::new()
        };
        assert(text::texts(filler_words@) =~= wanted_fillers(*cfg));
        let filler_regex = if filler_words.len() > 0 {
            let source = filler_pattern(&filler_words);
            match Pattern::compile(source.as_str()) {
                Ok(p) => Some(p),
                Err(detail) => {
                    return Err(PostprocessError::Fillers { detail });
                },
            }
        } else {
            None
        };
        let replacements = match compile_pairs(&cfg.replacements) {
            Ok(v) => v,
            Err(e) => {
                return Err(e);
            },
        };
        match (
            Pattern::compile(pattern::WHITE_RUN),
            Pattern::compile(pattern::GAP_BEFORE_STOP),
            Pattern::compile(pattern::STRANDED_LEAD),
        ) {
            (
                Ok(collapse_whitespace),
                Ok(space_before_terminal_punct),
                Ok(leading_stranded_punct),
            ) => Ok(
                Postprocessor {
                    filler_words,
                    filler_regex,
                    collapse_whitespace,
                    space_before_terminal_punct,
                    leading_stranded_punct,
                    capitalize_sentences: cfg.capitalize_sentences,
                    ensure_trailing_period: cfg.ensure_trailing_period,
                    replacements,
                },
            ),
            (Err(detail), _, _) | (_, Err(detail), _) | (_, _, Err(detail)) => Err(
                PostprocessError::Fillers { detail },
            ),
        }
    }

    /// Tidy a transcript whose filler words have been removed: single spaces,
    /// none before the end of a sentence, nothing stranded at the start, and
    /// capitals where they are wanted.
    pub fn tidy(&self, s: &str) -> (r: String)
        ensures
            r@ == tidied(self@.capitalize, s@),
    {
        proof {
            use_type_invariant(self);
        }
        let single = self.collapse_whitespace.replace_all(s, " ");
        let spaced = text::trim(single.as_str());
        let closed = self.space_before_terminal_punct.expand_all(spaced.as_str(), "$1");
        let clean = self.leading_stranded_punct.replace_all(closed.as_str(), "");
        if self.capitalize_sentences {
            capitalize_sentences(clean.as_str())
        } else {
            clean
        }
    }

    /// Put a period at the end, where one is wanted and nothing else ends the
    /// sentence.
    pub fn finish(&self, s: String) -> (r: String)
        ensures
            r@ == finished(self@.period, s@),
    {
        if !self.ensure_trailing_period {
            return s;
        }
        let chars = text::chars_of(s.as_str());
        let n: usize = chars.len();
        if n == 0 {
            return s;
        }
        let last = chars[n - 1];
        if last == '.' || last == '?' || last == '!' {
            return s;
        }
        let mut out = s;
        out.push('.');
        out
    }

    /// Clean a transcript.
    ///
    /// The replacements run after the capitals, so that their own spelling
    /// sticks even at the start of a sentence, and before the period, so that
    /// they may bring their own punctuation.
    pub fn apply(&self, text: &str) -> (r: String)
        ensures
            r@ == polished(self@, text@),
    {
        proof {
            use_type_invariant(self);
        }
        let bare = text::trim(text);
        let spoken = match &self.filler_regex {
            Some(re) => re.replace_all(bare.as_str(), ""),
            None => bare,
        };
        let mut s = self.tidy(spoken.as_str());
        let ghost start = s@;
        let ghost all = self@.replacements;
        assert(all.take(0) =~= Seq::empty());
        for i in 0..self.replacements.len()
            invariant
                all == self@.replacements,
                s@ == substituted(all.take(i as int), start),
        {
            assert(all.take(i + 1).drop_last() == all.take(i as int));
            let each = &self.replacements[i];
            proof {
                use_type_invariant(each);
            }
            s = each.regex.replace_all(s.as_str(), each.to.as_str());
        }
        assert(all.take(all.len() as int) == all);
        self.finish(s)
    }
}

// ---------------------------------------------------------------------------
// Laws
// ---------------------------------------------------------------------------

/// Where a final period is wanted, a cleaned transcript is empty or ends a
/// sentence.
pub proof fn result_ends_a_sentence(plan: PostPlan, s: Seq<char>)
    requires
        plan.period,
    ensures
        polished(plan, s).len() == 0 || pattern::is_stop(polished(plan, s).last()),
{
}

/// A sentence that is ended already gets no second period.
pub proof fn one_period_is_enough(period: bool, s: Seq<char>)
    ensures
        finished(period, finished(period, s)) == finished(period, s),
{
}

/// Capitals change nothing but letters, and nothing of the length.
pub proof fn capitals_change_letters_only(s: Seq<char>, i: int)
    requires
        0 <= i < s.len(),
    ensures
        capitalized(s).len() == s.len(),
        capitalized(s)[i] == s[i] || (text::is_lower(s[i]) && capitalized(s)[i] == text::upper(
            s[i],
        )),
    decreases s.len(),
{
    capitals_keep_length(s.drop_last());
    if i < s.len() - 1 {
        capitals_change_letters_only(s.drop_last(), i);
    }
}

proof fn capitals_keep_length(s: Seq<char>)
    ensures
        capitalized(s).len() == s.len(),
    decreases s.len(),
{
    if s.len() > 0 {
        capitals_keep_length(s.drop_last());
    }
}

/// A sentence starts at the front, and after a stop that is followed by white
/// space; the next letter is its first.
pub proof fn sentences_start_after_a_stop(s: Seq<char>)
    ensures
        armed(s) <==> {
            ||| forall|j: int| 0 <= j < s.len() ==> !text::is_letter(#[trigger] s[j])
            ||| exists|k: int|
                #![trigger s[k]]
                0 <= k < s.len() - 1 && pattern::is_stop(s[k]) && text::is_white(s[k + 1])
                    && forall|j: int| k < j < s.len() ==> !text::is_letter(#[trigger] s[j])
        },
    decreases s.len(),
{
    if s.len() > 0 {
        let n = s.len() as int;
        let front = s.drop_last();
        sentences_start_after_a_stop(front);
        assert(forall|j: int| 0 <= j < front.len() ==> front[j] == #[trigger] s[j]);
        if armed(s) {
            if pattern::is_stop(s[n - 2]) && n > 1 && text::is_white(s[n - 1]) {
                let k = n - 2;
                assert(forall|j: int| k < j < s.len() ==> !text::is_letter(#[trigger] s[j]));
            } else if exists|j: int| 0 <= j < front.len() && text::is_letter(#[trigger] front[j]) {
                let k = choose|k: int|
                    #![trigger front[k]]
                    0 <= k < front.len() - 1 && pattern::is_stop(front[k]) && text::is_white(
                        front[k + 1],
                    ) && forall|j: int|
                        k < j < front.len() ==> !text::is_letter(#[trigger] front[j]);
                assert(s[k] == front[k] && s[k + 1] == front[k + 1]);
                assert forall|j: int| k < j < s.len() implies !text::is_letter(#[trigger] s[j]) by {
                    if j < front.len() {
                        assert(!text::is_letter(front[j]));
                    }
                }
            } else {
                assert forall|j: int| 0 <= j < s.len() implies !text::is_letter(
                    #[trigger] s[j],
                ) by {
                    if j < front.len() {
                        assert(!text::is_letter(front[j]));
                    }
                }
            }
        } else if !text::is_letter(s.last()) {
            assert(!armed(front));
            assert forall|k: int|
                #![trigger s[k]]
                0 <= k < s.len() - 1 && pattern::is_stop(s[k]) && text::is_white(
                    s[k + 1],
                ) implies exists|j: int| k < j < s.len() && text::is_letter(#[trigger] s[j]) by {
                assert(k < front.len() - 1);
                assert(front[k] == s[k] && front[k + 1] == s[k + 1]);
                let j = choose|j: int|
                    k < j < front.len() && text::is_letter(#[trigger] front[j]);
                assert(s[j] == front[j]);
            }
            let j = choose|j: int| 0 <= j < front.len() && text::is_letter(#[trigger] front[j]);
            assert(s[j] == front[j]);
        } else {
            assert(text::is_letter(s[n - 1]));
        }
    }
}

/// The first letter of each sentence is a capital.
pub proof fn sentences_start_with_a_capital(s: Seq<char>, i: int)
    requires
        0 <= i < s.len(),
        text::is_letter(s[i]),
        armed(s.take(i)),
    ensures
        capitalized(s).len() == s.len(),
        text::is_upper(capitalized(s)[i]),
    decreases s.len(),
{
    capitals_keep_length(s.drop_last());
    if i < s.len() - 1 {
        assert(s.drop_last().take(i) == s.take(i));
        sentences_start_with_a_capital(s.drop_last(), i);
    } else {
        assert(s.take(i) == s.drop_last());
    }
}

/// Capitals leave the places where sentences start as they are.
proof fn capitals_keep_sentences(s: Seq<char>)
    ensures
        armed(capitalized(s)) == armed(s),
    decreases s.len(),
{
    if s.len() > 0 {
        capitals_keep_sentences(s.drop_last());
        capitals_keep_length(s.drop_last());
        assert(capitalized(s).drop_last() == capitalized(s.drop_last()));
        if s.len() > 1 {
            capitals_change_letters_only(s, s.len() - 2);
        }
    }
}

/// Setting capitals a second time changes nothing.
pub proof fn capitals_are_idempotent(s: Seq<char>)
    ensures
        capitalized(capitalized(s)) == capitalized(s),
    decreases s.len(),
{
    if s.len() > 0 {
        capitals_are_idempotent(s.drop_last());
        capitals_keep_sentences(s.drop_last());
        assert(capitalized(s).drop_last() == capitalized(s.drop_last()));
    }
}

/// Blank filler words are as good as absent, wherever they stand in the list.
pub proof fn blank_fillers_are_ignored(
    front: Seq<Seq<char>>,
    blank: Seq<char>,
    back: Seq<Seq<char>>,
)
    requires
        text::trimmed(blank).len() == 0,
    ensures
        kept_words(front + seq![blank] + back) == kept_words(front + back),
    decreases back.len(),
{
    let with = front + seq![blank] + back;
    if back.len() == 0 {
        assert(with.drop_last() == front);
        assert(front + back == front);
    } else {
        blank_fillers_are_ignored(front, blank, back.drop_last());
        assert(with.drop_last() == front + seq![blank] + back.drop_last());
        assert((front + back).drop_last() == front + back.drop_last());
    }
}

/// Replacements of blank text are as good as absent, wherever they stand in the
/// list.
pub proof fn blank_replacements_are_ignored(
    front: Seq<[String; 2]>,
    pair: [String; 2],
    back: Seq<[String; 2]>,
)
    requires
        text::trimmed(pair_text(pair).0).len() == 0,
    ensures
        compiled_pairs(front + seq![pair] + back) == compiled_pairs(front + back),
    decreases back.len(),
{
    let with = front + seq![pair] + back;
    if back.len() == 0 {
        assert(with.drop_last() == front);
        assert(front + back == front);
        assert(with.last() == pair);
    } else {
        blank_replacements_are_ignored(front, pair, back.drop_last());
        assert(with.drop_last() == front + seq![pair] + back.drop_last());
        assert((front + back).drop_last() == front + back.drop_last());
        assert(with.last() == back.last());
        assert((front + back).last() == back.last());
    }
}

/// Replacements run in order, and each sees what the ones before it have left.
pub proof fn later_replacements_see_earlier(
    first: Seq<(Seq<char>, Seq<char>)>,
    then: Seq<(Seq<char>, Seq<char>)>,
    s: Seq<char>,
)
    ensures
        substituted(first + then, s) == substituted(then, substituted(first, s)),
    decreases then.len(),
{
    if then.len() == 0 {
        assert(first + then == first);
    } else {
        later_replacements_see_earlier(first, then.drop_last(), s);
        assert((first + then).drop_last() == first + then.drop_last());
    }
}

/// A replacement never touches part of a longer word: what it takes has no word
/// character beside an edge of its own that is one.
pub proof fn longer_words_stay(s: Seq<char>, i: int, lit: Seq<char>)
    requires
        0 <= i,
        pattern::is_plain(lit),
        pattern::literal_len(s, i, lit) > 0,
    ensures
        pattern::literal_len(s, i, lit) == lit.len(),
        text::lowered(s.subrange(i, i + lit.len())) == text::lowered(lit),
        pattern::is_word(lit[0]) && 0 < i ==> !pattern::is_word(s[i - 1]),
        pattern::is_word(lit.last()) && i + lit.len() < s.len() ==> !pattern::is_word(
            s[i + lit.len()],
        ),
{
    let found = s.subrange(i, i + lit.len());
    assert(text::lowered(found)[0] == text::lowered(lit)[0]);
    assert(text::lowered(found).last() == text::lowered(lit).last());
    assert(found[0] == s[i]);
    assert(found.last() == s[i + lit.len() - 1]);
}

/// Nothing is taken, so nothing changes.
proof fn nothing_to_swap(
    s: Seq<char>,
    at: int,
    len_at: spec_fn(int) -> nat,
    with: Seq<char>,
)
    requires
        0 <= at <= s.len(),
        forall|i: int| at <= i < s.len() ==> #[trigger] len_at(i) == 0,
    ensures
        pattern::swapped_from(s, at, len_at, with) == s.skip(at),
    decreases s.len() - at,
{
    if at < s.len() {
        nothing_to_swap(s, at + 1, len_at, with);
        assert(seq![s[at]] + s.skip(at + 1) == s.skip(at));
    } else {
        assert(s.skip(at) == Seq::<char>::empty());
    }
}

/// A text that a replacement is not for stays as it is.
pub proof fn absent_text_stays(lit: Seq<char>, s: Seq<char>, with: Seq<char>)
    requires
        pattern::is_plain(lit),
        text::is_ascii(s),
        forall|i: int| 0 <= i < s.len() ==> #[trigger] pattern::literal_len(s, i, lit) == 0,
    ensures
        pattern::literal_swapped(lit, s, with) == s,
{
    let len_at = |i: int| pattern::literal_len(s, i, lit);
    assert forall|i: int| 0 <= i < s.len() implies #[trigger] len_at(i) == 0 by {
        assert(pattern::literal_len(s, i, lit) == 0);
    }
    nothing_to_swap(s, 0, len_at, with);
    assert(s.skip(0) == s);
}

/// A text without filler words stays as it is.
pub proof fn plain_speech_stays(fillers: Seq<Seq<char>>, s: Seq<char>)
    requires
        pattern::all_plain(fillers),
        text::is_ascii(s),
        forall|i: int| 0 <= i < s.len() ==> #[trigger] pattern::words_len(s, i, fillers) == 0,
    ensures
        without_fillers(fillers, s) == s,
{
    let len_at = |i: int| pattern::words_len(s, i, fillers);
    assert forall|i: int| 0 <= i < s.len() implies #[trigger] len_at(i) == 0 by {
        assert(pattern::words_len(s, i, fillers) == 0);
    }
    nothing_to_swap(s, 0, len_at, ""@);
    assert(s.skip(0) == s);
}

/// Where two ways to take stretches agree, so do the results.
proof fn same_stretches(
    s: Seq<char>,
    at: int,
    a: spec_fn(int) -> nat,
    b: spec_fn(int) -> nat,
    with: Seq<char>,
)
    requires
        0 <= at <= s.len(),
        forall|i: int| 0 <= i < s.len() ==> #[trigger] a(i) == b(i),
    ensures
        pattern::swapped_from(s, at, a, with) == pattern::swapped_from(s, at, b, with),
    decreases s.len() - at,
{
    if at < s.len() {
        if 0 < a(at) && at + a(at) <= s.len() {
            same_stretches(s, at + a(at), a, b, with);
        } else {
            same_stretches(s, at + 1, a, b, with);
        }
    }
}

/// Letter case does not matter to what a replacement is for.
pub proof fn replacements_ignore_case(
    lit: Seq<char>,
    other: Seq<char>,
    s: Seq<char>,
    with: Seq<char>,
)
    requires
        pattern::is_plain(lit),
        pattern::is_plain(other),
        text::lowered(lit) == text::lowered(other),
        text::is_ascii(s),
    ensures
        pattern::literal_swapped(lit, s, with) == pattern::literal_swapped(other, s, with),
{
    assert(text::lowered(lit).len() == lit.len());
    assert(text::lowered(other).len() == other.len());
    assert(text::lowered(lit)[0] == text::lower(lit[0]));
    assert(text::lowered(other)[0] == text::lower(other[0]));
    assert(text::lowered(lit).last() == text::lower(lit.last()));
    assert(text::lowered(other).last() == text::lower(other.last()));
    let a = |i: int| pattern::literal_len(s, i, lit);
    let b = |i: int| pattern::literal_len(s, i, other);
    assert forall|i: int| 0 <= i < s.len() implies #[trigger] a(i) == b(i) by {
        assert(pattern::fits_at(s, i, lit) == pattern::fits_at(s, i, other));
    }
    same_stretches(s, 0, a, b, with);
}

/// Every white character of `s` is a space, and no two stand side by side.
pub open spec fn single_spaced(s: Seq<char>) -> bool {
    forall|i: int|
        0 <= i < s.len() && text::is_white(#[trigger] s[i]) ==> s[i] == ' ' && (i + 1 < s.len()
            ==> !text::is_white(s[i + 1]))
}

/// No white character of `s` stands before the end of a sentence.
pub open spec fn gapless(s: Seq<char>) -> bool {
    forall|i: int|
        0 <= i < s.len() - 1 && text::is_white(#[trigger] s[i]) ==> !pattern::is_stop(s[i + 1])
}

proof fn squeezed_is_single_spaced(s: Seq<char>)
    ensures
        single_spaced(pattern::squeezed(s)),
        s.len() > 0 ==> pattern::squeezed(s).len() > 0 && text::is_white(
            pattern::squeezed(s).last(),
        ) == text::is_white(s.last()),
    decreases s.len(),
{
    if s.len() > 0 {
        squeezed_is_single_spaced(s.drop_last());
        let front = pattern::squeezed(s.drop_last());
        if s.len() > 1 {
            assert(s.drop_last().last() == s[s.len() - 2]);
        }
        let all = pattern::squeezed(s);
        assert forall|i: int| 0 <= i < all.len() && text::is_white(#[trigger] all[i]) implies all[i]
            == ' ' && (i + 1 < all.len() ==> !text::is_white(all[i + 1])) by {
            if i < front.len() {
                assert(all[i] == front[i]);
            }
        }
    }
}

proof fn trim_front_keeps_single_spacing(s: Seq<char>)
    requires
        single_spaced(s),
    ensures
        single_spaced(text::trim_front(s)),
    decreases s.len(),
{
    if s.len() > 0 && text::is_white(s[0]) {
        assert forall|i: int|
            0 <= i < s.drop_first().len() && text::is_white(
                #[trigger] s.drop_first()[i],
            ) implies s.drop_first()[i] == ' ' && (i + 1 < s.drop_first().len()
            ==> !text::is_white(s.drop_first()[i + 1])) by {
            assert(s.drop_first()[i] == s[i + 1]);
        }
        trim_front_keeps_single_spacing(s.drop_first());
    }
}

proof fn trim_back_keeps_single_spacing(s: Seq<char>)
    requires
        single_spaced(s),
    ensures
        single_spaced(text::trim_back(s)),
    decreases s.len(),
{
    if s.len() > 0 && text::is_white(s.last()) {
        assert(single_spaced(s.drop_last()));
        trim_back_keeps_single_spacing(s.drop_last());
    }
}

proof fn closed_gaps_are_closed(s: Seq<char>)
    requires
        single_spaced(s),
    ensures
        single_spaced(pattern::closed_gaps(s)),
        gapless(pattern::closed_gaps(s)),
        s.len() > 0 && !text::is_white(s[0]) ==> pattern::closed_gaps(s).len() > 0
            && pattern::closed_gaps(s)[0] == s[0],
        s.len() > 0 && !text::is_white(s.last()) ==> pattern::closed_gaps(s).len() > 0
            && pattern::closed_gaps(s).last() == s.last(),
        s.len() == 1 && text::is_white(s[0]) ==> pattern::closed_gaps(s) == s,
    decreases s.len(),
{
    if s.len() > 0 {
        let rest = s.drop_first();
        assert forall|i: int| 0 <= i < rest.len() && text::is_white(#[trigger] rest[i]) implies rest[i]
            == ' ' && (i + 1 < rest.len() ==> !text::is_white(rest[i + 1])) by {
            assert(rest[i] == s[i + 1]);
        }
        closed_gaps_are_closed(rest);
        let tail = pattern::closed_gaps(rest);
        let all = pattern::closed_gaps(s);
        if rest.len() > 0 {
            assert(rest.last() == s.last());
            assert(rest[0] == s[1]);
        }
        if text::is_white(s[0]) && pattern::stop_ahead(s) {
            assert(text::trim_front(s) == text::trim_front(rest));
            assert(rest.len() > 0);
        } else {
            assert(all == seq![s[0]] + tail);
            if text::is_white(s[0]) {
                if rest.len() > 0 {
                    assert(!text::is_white(s[1]));
                    assert(text::trim_front(rest) == rest);
                    assert(text::trim_front(s) == rest);
                    assert(!pattern::is_stop(s[1]));
                } else {
                    assert(tail =~= Seq::empty());
                    assert(all =~= s);
                }
            }
            assert forall|i: int| 0 <= i < all.len() && text::is_white(#[trigger] all[i]) implies all[i]
                == ' ' && (i + 1 < all.len() ==> !text::is_white(all[i + 1])) by {
                if i > 0 {
                    assert(all[i] == tail[i - 1]);
                }
            }
            assert forall|i: int| 0 <= i < all.len() - 1 && text::is_white(#[trigger] all[i]) implies !pattern::is_stop(
            all[i + 1]) by {
                if i > 0 {
                    assert(all[i] == tail[i - 1]);
                    assert(all[i + 1] == tail[i]);
                }
            }
        }
    }
}

proof fn without_lead_keeps_shape(s: Seq<char>)
    requires
        single_spaced(s),
        gapless(s),
    ensures
        single_spaced(pattern::without_lead(s)),
        gapless(pattern::without_lead(s)),
        pattern::without_lead(s).len() > 0 ==> !pattern::is_lead(pattern::without_lead(s)[0])
            && pattern::without_lead(s).last() == s.last(),
    decreases s.len(),
{
    if s.len() > 0 && pattern::is_lead(s[0]) {
        let rest = s.drop_first();
        assert forall|i: int| 0 <= i < rest.len() && text::is_white(#[trigger] rest[i]) implies rest[i]
            == ' ' && (i + 1 < rest.len() ==> !text::is_white(rest[i + 1])) by {
            assert(rest[i] == s[i + 1]);
        }
        assert forall|i: int| 0 <= i < rest.len() - 1 && text::is_white(#[trigger] rest[i]) implies !pattern::is_stop(
        rest[i + 1]) by {
            assert(rest[i] == s[i + 1]);
        }
        without_lead_keeps_shape(rest);
    }
}

/// A tidied transcript has single spaces only, none of them at an end or before
/// the end of a sentence, and starts with neither a comma, a semicolon nor a
/// colon.
pub proof fn tidied_is_tidy(capitalize: bool, s: Seq<char>)
    ensures
        single_spaced(tidied(capitalize, s)),
        gapless(tidied(capitalize, s)),
        tidied(capitalize, s).len() > 0 ==> {
            &&& !pattern::is_lead(tidied(capitalize, s)[0])
            &&& !text::is_white(tidied(capitalize, s).last())
        },
{
    squeezed_is_single_spaced(s);
    let single = pattern::squeezed(s);
    trim_front_keeps_single_spacing(single);
    trim_back_keeps_single_spacing(text::trim_front(single));
    text::trim_is_idempotent(single);
    let spaced = text::trimmed(single);
    closed_gaps_are_closed(spaced);
    let closed = pattern::closed_gaps(spaced);
    without_lead_keeps_shape(closed);
    let clean = pattern::without_lead(closed);
    if spaced.len() == 0 {
        assert(closed =~= spaced);
    }
    if capitalize {
        let t = capitalized(clean);
        capitals_keep_length(clean);
        assert forall|i: int| 0 <= i < clean.len() implies text::is_white(#[trigger] t[i])
            == text::is_white(clean[i]) && pattern::is_stop(t[i]) == pattern::is_stop(clean[i])
            && pattern::is_lead(t[i]) == pattern::is_lead(clean[i]) && (text::is_white(clean[i])
            ==> t[i] == clean[i]) by {
            capitals_change_letters_only(clean, i);
        }
        assert forall|i: int| 0 <= i < t.len() && text::is_white(#[trigger] t[i]) implies t[i] == ' '
            && (i + 1 < t.len() ==> !text::is_white(t[i + 1])) by {
            assert(clean[i] == t[i]);
        }
        assert forall|i: int| 0 <= i < t.len() - 1 && text::is_white(#[trigger] t[i]) implies !pattern::is_stop(
        t[i + 1]) by {
            assert(clean[i] == t[i]);
            assert(pattern::is_stop(t[i + 1]) == pattern::is_stop(clean[i + 1]));
        }
    }
}

/// Whether there is nothing to tidy about `s`.
pub open spec fn is_tidy(s: Seq<char>) -> bool {
    &&& single_spaced(s)
    &&& gapless(s)
    &&& s.len() > 0 ==> !pattern::is_lead(s[0]) && !text::is_white(s.last())
}

proof fn single_spaced_stays(s: Seq<char>)
    requires
        single_spaced(s),
    ensures
        pattern::squeezed(s) == s,
    decreases s.len(),
{
    if s.len() > 0 {
        let front = s.drop_last();
        assert forall|i: int| 0 <= i < front.len() && text::is_white(
            #[trigger] front[i],
        ) implies front[i] == ' ' && (i + 1 < front.len() ==> !text::is_white(front[i + 1])) by {
            assert(front[i] == s[i]);
        }
        single_spaced_stays(front);
        if text::is_white(s.last()) && s.len() > 1 {
            assert(!text::is_white(s[s.len() - 2]));
        }
        assert(front.push(s.last()) == s);
    }
}

proof fn gapless_stays(s: Seq<char>)
    requires
        single_spaced(s),
        gapless(s),
    ensures
        pattern::closed_gaps(s) == s,
    decreases s.len(),
{
    if s.len() > 0 {
        let rest = s.drop_first();
        assert forall|i: int| 0 <= i < rest.len() && text::is_white(
            #[trigger] rest[i],
        ) implies rest[i] == ' ' && (i + 1 < rest.len() ==> !text::is_white(rest[i + 1])) by {
            assert(rest[i] == s[i + 1]);
        }
        assert forall|i: int| 0 <= i < rest.len() - 1 && text::is_white(
            #[trigger] rest[i],
        ) implies !pattern::is_stop(rest[i + 1]) by {
            assert(rest[i] == s[i + 1]);
        }
        gapless_stays(rest);
        if text::is_white(s[0]) {
            if rest.len() > 0 {
                assert(rest[0] == s[1]);
            }
            assert(text::trim_front(rest) == rest);
            assert(text::trim_front(s) == rest);
            assert(!pattern::stop_ahead(s));
        }
        assert(seq![s[0]] + rest == s);
    }
}

/// Tidying changes nothing but what is untidy.
pub proof fn tidy_text_stays(s: Seq<char>)
    requires
        is_tidy(s),
    ensures
        tidied(false, s) == s,
        text::trimmed(s) == s,
{
    single_spaced_stays(s);
    gapless_stays(s);
}

/// Tidying a second time changes nothing.
pub proof fn tidying_is_idempotent(capitalize: bool, s: Seq<char>)
    ensures
        tidied(capitalize, tidied(capitalize, s)) == tidied(capitalize, s),
{
    tidied_is_tidy(capitalize, s);
    tidy_text_stays(tidied(capitalize, s));
    if capitalize {
        capitals_are_idempotent(tidied(false, s));
    }
}

/// With everything switched off, what is tidy already is typed as it was heard.
pub proof fn opting_out_keeps_the_transcript(plan: PostPlan, s: Seq<char>)
    requires
        plan.fillers.len() == 0,
        !plan.capitalize,
        !plan.period,
        plan.replacements.len() == 0,
        is_tidy(s),
    ensures
        polished(plan, s) == s,
{
    tidy_text_stays(s);
}

/// Every pair with something to replace is kept, in order, with its first text
/// trimmed and its second text as it stands; nothing else is kept.
pub proof fn every_replacement_is_kept(front: Seq<[String; 2]>, pair: [String; 2])
    ensures
        compiled_pairs(Seq::empty()) == Ok::<Seq<(Seq<char>, Seq<char>)>, PostFault>(Seq::empty()),
        compiled_pairs(front) matches Ok(kept) ==> {
            let from = text::trimmed(pair@[0]@);
            let now = compiled_pairs(front.push(pair));
            &&& from.len() == 0 ==> now == compiled_pairs(front)
            &&& from.len() > 0 && pattern::regex_fault(pattern::literal_source(from)) is None ==> now
                == Ok::<Seq<(Seq<char>, Seq<char>)>, PostFault>(kept.push((from, pair@[1]@)))
            &&& from.len() > 0 && pattern::regex_fault(pattern::literal_source(from)) is Some
                ==> now == Err::<Seq<(Seq<char>, Seq<char>)>, PostFault>(
                PostFault::Replacement(from, pattern::regex_fault(pattern::literal_source(from))->0),
            )
        },
        compiled_pairs(front) is Err ==> compiled_pairs(front.push(pair)) == compiled_pairs(front),
{
    assert(front.push(pair).drop_last() =~= front);
}

/// How many of the pairs have something to replace.
pub open spec fn worthwhile(pairs: Seq<[String; 2]>) -> nat
    decreases pairs.len(),
{
    if pairs.len() == 0 {
        0
    } else {
        worthwhile(pairs.drop_last()) + if text::blank(pairs.last()@[0]@) {
            0nat
        } else {
            1nat
        }
    }
}

/// A text is blank exactly where trimming leaves nothing.
proof fn blank_is_trimmed_away(s: Seq<char>)
    ensures
        text::blank(s) <==> text::trimmed(s).len() == 0,
{
    let (a, b) = text::trimming_cuts_white_space_only(s);
    if text::trimmed(s).len() > 0 {
        assert(text::trimmed(s)[0] == s[a]);
    } else {
        assert forall|i: int| 0 <= i < s.len() implies text::is_white(#[trigger] s[i]) by {
            if i < a {
                assert(s.take(a)[i] == s[i]);
            } else {
                assert(s.skip(b)[i - b] == s[i]);
            }
        }
    }
}

proof fn kept_pairs(pairs: Seq<[String; 2]>)
    requires
        compiled_pairs(pairs) is Ok,
    ensures
        compiled_pairs(pairs)->Ok_0.len() == worthwhile(pairs),
        forall|i: int|
            0 <= i < pairs.len() && !text::blank((#[trigger] pairs[i])@[0]@) ==> {
                let k = worthwhile(pairs.take(i)) as int;
                &&& 0 <= k < compiled_pairs(pairs)->Ok_0.len()
                &&& compiled_pairs(pairs)->Ok_0[k] == (text::trimmed(pairs[i]@[0]@), pairs[i]@[1]@)
            },
    decreases pairs.len(),
{
    if pairs.len() > 0 {
        let front = pairs.drop_last();
        kept_pairs(front);
        blank_is_trimmed_away(pairs.last()@[0]@);
        let all = compiled_pairs(pairs)->Ok_0;
        assert forall|i: int|
            0 <= i < pairs.len() && !text::blank((#[trigger] pairs[i])@[0]@) implies {
            let k = worthwhile(pairs.take(i)) as int;
            &&& 0 <= k < all.len()
            &&& all[k] == (text::trimmed(pairs[i]@[0]@), pairs[i]@[1]@)
        } by {
            if i < front.len() {
                assert(front[i] == pairs[i]);
                assert(front.take(i) =~= pairs.take(i));
            } else {
                assert(pairs.take(i) =~= front);
            }
        }
    }
}

/// A postprocessor does what its settings say: it replaces each configured text
/// that is not blank, in order, by exactly what was configured for it, removes the
/// configured words where that is wanted, and sets capitals and periods as wanted.
pub proof fn postprocessors_follow_their_settings(
    cfg: PostprocessConfig,
    r: Result<Postprocessor, PostprocessError>,
)
    requires
        call_ensures(Postprocessor::new, (&cfg,), r),
        r is Ok,
    ensures
        ({
            let plan = r->Ok_0@;
            let pairs = cfg.replacements@;
            &&& plan.capitalize == cfg.capitalize_sentences
            &&& plan.period == cfg.ensure_trailing_period
            &&& plan.replacements.len() == worthwhile(pairs)
            &&& forall|i: int|
                0 <= i < pairs.len() && !text::blank((#[trigger] pairs[i])@[0]@) ==> {
                    let k = worthwhile(pairs.take(i)) as int;
                    &&& 0 <= k < plan.replacements.len()
                    &&& plan.replacements[k] == (text::trimmed(pairs[i]@[0]@), pairs[i]@[1]@)
                }
            &&& !cfg.remove_fillers ==> plan.fillers.len() == 0
            &&& cfg.remove_fillers ==> forall|w: Seq<char>| #[trigger]
                plan.fillers.contains(w) <==> text::texts(cfg.filler_words@).contains(w)
                    && !text::blank(w)
        }),
{
    assert(built(r) == build(cfg));
    assert(compiled_pairs(cfg.replacements@) is Ok);
    kept_pairs(cfg.replacements@);
    if cfg.remove_fillers {
        assert forall|w: Seq<char>| #[trigger]
            r->Ok_0@.fillers.contains(w) <==> text::texts(cfg.filler_words@).contains(w)
                && !text::blank(w) by {
            kept_words_are_those(text::texts(cfg.filler_words@), w);
        }
    }
}

proof fn kept_words_are_those(words: Seq<Seq<char>>, w: Seq<char>)
    ensures
        kept_words(words).contains(w) <==> words.contains(w) && !text::blank(w),
    decreases words.len(),
{
    if words.len() > 0 {
        let front = words.drop_last();
        let last = words.last();
        kept_words_are_those(front, w);
        blank_is_trimmed_away(last);
        blank_is_trimmed_away(w);
        assert(words =~= front.push(last));
        contains_of_push(front, last, w);
        contains_of_push(kept_words(front), last, w);
    }
}

proof fn contains_of_push(s: Seq<Seq<char>>, last: Seq<char>, w: Seq<char>)
    ensures
        s.push(last).contains(w) <==> s.contains(w) || last == w,
{
    if s.contains(w) {
        let i = choose|i: int| 0 <= i < s.len() && s[i] == w;
        assert(s.push(last)[i] == w);
    }
    if last == w {
        assert(s.push(last)[s.len() as int] == w);
    }
    if s.push(last).contains(w) {
        let i = choose|i: int| 0 <= i < s.push(last).len() && s.push(last)[i] == w;
        if i < s.len() {
            assert(s[i] == w);
        }
    }
}

/// The words to remove keep their order: a word behind the others comes last.
pub proof fn filler_words_keep_their_order(front: Seq<Seq<char>>, word: Seq<char>)
    ensures
        kept_words(Seq::empty()) == Seq::<Seq<char>>::empty(),
        !text::blank(word) ==> kept_words(front.push(word)) == kept_words(front).push(word),
{
    blank_is_trimmed_away(word);
    assert(front.push(word).drop_last() =~= front);
}

/// A text that stands once in a transcript, as a whole, whatever its case, is
/// replaced by exactly what is meant to replace it, and the rest stays.
pub proof fn a_replacement_replaces(
    from: Seq<char>,
    to: Seq<char>,
    s: Seq<char>,
    k: int,
)
    requires
        pattern::is_plain(from),
        text::is_ascii(s),
        pattern::stands_at(s, k, from),
        forall|i: int|
            0 <= i < s.len() && (i < k || i >= k + from.len()) ==> !#[trigger] pattern::stands_at(
                s,
                i,
                from,
            ),
    ensures
        substituted(seq![(from, to)], s) == s.take(k) + to + s.skip(k + from.len()),
{
    let one = seq![(from, to)];
    assert(one.drop_last() =~= Seq::<(Seq<char>, Seq<char>)>::empty());
    reveal_with_fuel(substituted, 2);
    let len_at = |i: int| pattern::literal_len(s, i, from);
    assert forall|i: int| 0 <= i < k implies #[trigger] len_at(i) == 0 by {
        assert(!pattern::stands_at(s, i, from));
        pattern::literals_are_taken_whole(s, i, from);
    }
    assert forall|i: int| k + from.len() <= i < s.len() implies #[trigger] len_at(i) == 0 by {
        assert(!pattern::stands_at(s, i, from));
        pattern::literals_are_taken_whole(s, i, from);
    }
    pattern::literals_are_taken_whole(s, k, from);
    assert(len_at(k) == from.len());
    pattern::first_stretch_is_swapped(s, 0, k, len_at, to);
    nothing_to_swap(s, k + from.len(), len_at, to);
    assert(s.subrange(0, k) =~= s.take(k));
}

/// Whether one of the words stands in `s` at `k` as a whole word.
pub open spec fn word_stands_at(s: Seq<char>, k: int, words: Seq<Seq<char>>) -> bool {
    exists|j: int| 0 <= j < words.len() && #[trigger] pattern::fits_at(s, k, words[j])
        && pattern::is_boundary(s, k) && pattern::is_boundary(s, k + words[j].len())
}

proof fn words_are_taken_whole(s: Seq<char>, k: int, words: Seq<Seq<char>>)
    requires
        pattern::all_plain(words),
    ensures
        pattern::words_len(s, k, words) > 0 <==> word_stands_at(s, k, words),
        pattern::words_len(s, k, words) > 0 ==> k + pattern::words_len(s, k, words) <= s.len(),
    decreases words.len(),
{
    if words.len() > 0 {
        let front = words.drop_last();
        assert forall|j: int| 0 <= j < front.len() implies pattern::is_plain(#[trigger] front[j]) by {
            assert(words[j] == front[j]);
        }
        words_are_taken_whole(s, k, front);
        assert(pattern::is_plain(words[words.len() - 1]));
        if word_stands_at(s, k, front) {
            let j = choose|j: int|
                0 <= j < front.len() && #[trigger] pattern::fits_at(s, k, front[j])
                    && pattern::is_boundary(s, k) && pattern::is_boundary(s, k + front[j].len());
            assert(pattern::fits_at(s, k, words[j]));
        }
        if word_stands_at(s, k, words) {
            let j = choose|j: int|
                0 <= j < words.len() && #[trigger] pattern::fits_at(s, k, words[j])
                    && pattern::is_boundary(s, k) && pattern::is_boundary(s, k + words[j].len());
            if j < front.len() {
                assert(pattern::fits_at(s, k, front[j]));
            }
        } else if pattern::words_len(s, k, words) > 0 {
            if pattern::words_len(s, k, front) == 0 {
                assert(pattern::fits_at(s, k, words[words.len() - 1]));
            }
        }
    }
}

/// A filler word that stands alone in a transcript, whatever its case, goes, and
/// the rest stays.
pub proof fn a_filler_goes(word: Seq<char>, s: Seq<char>, k: int)
    requires
        pattern::is_plain(word),
        text::is_ascii(s),
        pattern::fits_at(s, k, word),
        0 <= k,
        pattern::is_boundary(s, k),
        pattern::is_boundary(s, k + word.len()),
        forall|i: int|
            0 <= i < s.len() && (i < k || i >= k + word.len()) ==> !#[trigger] word_stands_at(
                s,
                i,
                seq![word],
            ),
    ensures
        without_fillers(seq![word], s) == s.take(k) + s.skip(k + word.len()),
{
    let words = seq![word];
    let len_at = |i: int| pattern::words_len(s, i, words);
    assert(pattern::all_plain(words));
    assert(words.drop_last() =~= Seq::<Seq<char>>::empty());
    reveal_with_fuel(pattern::words_len, 2);
    assert forall|i: int| 0 <= i < k implies #[trigger] len_at(i) == 0 by {
        assert(!word_stands_at(s, i, words));
        words_are_taken_whole(s, i, words);
    }
    assert forall|i: int| k + word.len() <= i < s.len() implies #[trigger] len_at(i) == 0 by {
        assert(!word_stands_at(s, i, words));
        words_are_taken_whole(s, i, words);
    }
    assert(len_at(k) == word.len());
    pattern::first_stretch_is_swapped(s, 0, k, len_at, ""@);
    nothing_to_swap(s, k + word.len(), len_at, ""@);
    reveal_strlit("");
    assert(s.subrange(0, k) + ""@ + s.skip(k + word.len()) =~= s.take(k) + s.skip(
        k + word.len(),
    ));
}

/// A letter that starts no sentence stays as it is, and so does everything that is
/// no letter.
pub proof fn other_letters_stay(s: Seq<char>, i: int)
    requires
        0 <= i < s.len(),
        !armed(s.take(i)) || !('a' <= s[i] <= 'z'),
    ensures
        capitalized(s).len() == s.len(),
        capitalized(s)[i] == s[i],
    decreases s.len(),
{
    capitals_keep_length(s);
    capitals_keep_length(s.drop_last());
    if i < s.len() - 1 {
        assert(s.drop_last().take(i) == s.take(i));
        other_letters_stay(s.drop_last(), i);
    } else {
        assert(s.take(i) == s.drop_last());
    }
}

/// The final period: where it is wanted, it comes behind everything that is not
/// empty and does not end in one of the three stops; else nothing changes.
pub proof fn the_final_period(plan: PostPlan, s: Seq<char>)
    ensures
        ({
            let without = polished(PostPlan { period: false, ..plan }, s);
            let ended = without.len() > 0 && (without.last() == '.' || without.last() == '?'
                || without.last() == '!');
            polished(PostPlan { period: true, ..plan }, s) == if without.len() == 0 || ended {
                without
            } else {
                without + seq!['.']
            }
        }),
{
    let without = polished(PostPlan { period: false, ..plan }, s);
    assert(without.push('.') =~= without + seq!['.']);
}

/// The replacements work on the transcript that is cleaned otherwise, capitals and
/// all, so that their own spelling is what is typed.
pub proof fn replacements_come_last(plan: PostPlan, s: Seq<char>)
    requires
        !plan.period,
    ensures
        polished(plan, s) == substituted(
            plan.replacements,
            polished(PostPlan { replacements: Seq::empty(), ..plan }, s),
        ),
        plan.replacements.len() == 0 ==> substituted(plan.replacements, s) == s,
{
}

/// Capitals change nothing but the case of letters that start a sentence in what is
/// cleaned without them.
pub proof fn capitals_come_after_tidying(plan: PostPlan, s: Seq<char>, i: int)
    requires
        plan.replacements.len() == 0,
        !plan.period,
    ensures
        ({
            let plain = polished(PostPlan { capitalize: false, ..plan }, s);
            let set = polished(PostPlan { capitalize: true, ..plan }, s);
            &&& set.len() == plain.len()
            &&& 0 <= i < plain.len() && armed(plain.take(i)) && 'a' <= plain[i] <= 'z' ==> set[i] as u32
                == plain[i] as u32 - 32
            &&& 0 <= i < plain.len() && !(armed(plain.take(i)) && 'a' <= plain[i] <= 'z') ==> set[i]
                == plain[i]
        }),
{
    let plain = polished(PostPlan { capitalize: false, ..plan }, s);
    capitals_keep_length(plain);
    if 0 <= i < plain.len() {
        if armed(plain.take(i)) && 'a' <= plain[i] <= 'z' {
            sentences_start_with_a_capital(plain, i);
            capitals_change_letters_only(plain, i);
        } else {
            other_letters_stay(plain, i);
        }
    }
}

/// What is written of `s`: its characters without the white space.
pub open spec fn inked(s: Seq<char>) -> Seq<char>
    decreases s.len(),
{
    if s.len() == 0 {
        s
    } else if text::is_white(s.last()) {
        inked(s.drop_last())
    } else {
        inked(s.drop_last()).push(s.last())
    }
}

proof fn inked_parts(a: Seq<char>, b: Seq<char>)
    ensures
        inked(a + b) == inked(a) + inked(b),
    decreases b.len(),
{
    if b.len() == 0 {
        assert(a + b =~= a);
        assert(inked(a) + inked(b) =~= inked(a));
    } else {
        inked_parts(a, b.drop_last());
        assert((a + b).drop_last() =~= a + b.drop_last());
        assert(inked(a) + inked(b.drop_last()).push(b.last()) =~= (inked(a) + inked(
            b.drop_last(),
        )).push(b.last()));
    }
}

proof fn inked_front(s: Seq<char>)
    requires
        s.len() > 0,
    ensures
        inked(s) == if text::is_white(s[0]) {
            inked(s.drop_first())
        } else {
            seq![s[0]] + inked(s.drop_first())
        },
{
    let one = seq![s[0]];
    assert(s =~= one + s.drop_first());
    inked_parts(one, s.drop_first());
    assert(one.drop_last() =~= Seq::<char>::empty());
    reveal_with_fuel(inked, 2);
    if text::is_white(s[0]) {
        assert(inked(one) =~= Seq::<char>::empty());
        assert(inked(one) + inked(s.drop_first()) =~= inked(s.drop_first()));
    } else {
        assert(inked(one) =~= one);
    }
}

proof fn trim_front_keeps_ink(s: Seq<char>)
    ensures
        inked(text::trim_front(s)) == inked(s),
    decreases s.len(),
{
    if s.len() > 0 && text::is_white(s[0]) {
        trim_front_keeps_ink(s.drop_first());
        inked_front(s);
    }
}

proof fn trim_back_keeps_ink(s: Seq<char>)
    ensures
        inked(text::trim_back(s)) == inked(s),
    decreases s.len(),
{
    if s.len() > 0 && text::is_white(s.last()) {
        trim_back_keeps_ink(s.drop_last());
    }
}

proof fn squeezing_keeps_ink(s: Seq<char>)
    ensures
        inked(pattern::squeezed(s)) == inked(s),
    decreases s.len(),
{
    if s.len() > 0 {
        squeezing_keeps_ink(s.drop_last());
        let front = pattern::squeezed(s.drop_last());
        assert(front.push(s.last()).drop_last() =~= front);
        assert(front.push(' ').drop_last() =~= front);
    }
}

proof fn closing_keeps_ink(s: Seq<char>)
    ensures
        inked(pattern::closed_gaps(s)) == inked(s),
    decreases s.len(),
{
    if s.len() > 0 {
        closing_keeps_ink(s.drop_first());
        inked_front(s);
        if !(text::is_white(s[0]) && pattern::stop_ahead(s)) {
            let rest = pattern::closed_gaps(s.drop_first());
            inked_front(seq![s[0]] + rest);
            assert((seq![s[0]] + rest).drop_first() =~= rest);
        }
    }
}

/// How many of the first characters of `s` are commas, semicolons or colons.
pub open spec fn stranded(s: Seq<char>) -> nat
    decreases s.len(),
{
    if s.len() > 0 && (s[0] == ',' || s[0] == ';' || s[0] == ':') {
        stranded(s.drop_first()) + 1
    } else {
        0
    }
}

proof fn cutting_keeps_ink(s: Seq<char>)
    ensures
        stranded(inked(s)) <= inked(s).len(),
        inked(pattern::without_lead(s)) == inked(s).skip(stranded(inked(s)) as int),
    decreases s.len(),
{
    if s.len() > 0 {
        inked_front(s);
        let rest = s.drop_first();
        cutting_keeps_ink(rest);
        if text::is_white(s[0]) {
        } else if pattern::is_lead(s[0]) {
            let all = inked(s);
            assert(all.drop_first() =~= inked(rest));
            assert(all.skip(stranded(all) as int) =~= inked(rest).skip(
                stranded(inked(rest)) as int,
            ));
        } else {
            assert(stranded(inked(s)) == 0);
            assert(inked(s).skip(0) =~= inked(s));
        }
    } else {
        assert(inked(s).skip(0) =~= inked(s));
    }
}

proof fn capitals_keep_ink(s: Seq<char>)
    ensures
        text::lowered(inked(capitalized(s))) == text::lowered(inked(s)),
    decreases s.len(),
{
    if s.len() > 0 {
        capitals_keep_ink(s.drop_last());
        let front = capitalized(s.drop_last());
        let c = if armed(s.drop_last()) {
            text::upper(s.last())
        } else {
            s.last()
        };
        assert(capitalized(s) =~= front.push(c));
        assert(front.push(c).drop_last() =~= front);
        assert(text::is_white(c) == text::is_white(s.last()));
        assert(text::lower(c) == text::lower(s.last()));
        if !text::is_white(c) {
            assert(text::lowered(inked(front).push(c)) =~= text::lowered(inked(front)).push(
                text::lower(c),
            ));
            assert(text::lowered(inked(s.drop_last()).push(s.last())) =~= text::lowered(
                inked(s.drop_last()),
            ).push(text::lower(s.last())));
        }
    }
}

/// Tidying loses nothing that was said: every character but white space stays, in
/// order and up to case, save for commas, semicolons and colons at the start.
pub proof fn tidying_loses_nothing(capitalize: bool, s: Seq<char>)
    ensures
        stranded(inked(s)) <= inked(s).len(),
        text::lowered(inked(tidied(capitalize, s))) == text::lowered(
            inked(s).skip(stranded(inked(s)) as int),
        ),
        !capitalize ==> inked(tidied(capitalize, s)) == inked(s).skip(stranded(inked(s)) as int),
{
    let single = pattern::squeezed(s);
    squeezing_keeps_ink(s);
    trim_front_keeps_ink(single);
    trim_back_keeps_ink(text::trim_front(single));
    let spaced = text::trimmed(single);
    closing_keeps_ink(spaced);
    let closed = pattern::closed_gaps(spaced);
    cutting_keeps_ink(closed);
    capitals_keep_ink(pattern::without_lead(closed));
}

proof fn squeezing_keeps_words(s: Seq<char>)
    ensures
        crate::replace::words(pattern::squeezed(s)) == crate::replace::words(s),
        s.len() > 0 <==> pattern::squeezed(s).len() > 0,
        s.len() > 0 ==> text::is_white(pattern::squeezed(s).last()) == text::is_white(s.last()),
        gapless(s) ==> gapless(pattern::squeezed(s)),
    decreases s.len(),
{
    if s.len() > 0 {
        let front = s.drop_last();
        squeezing_keeps_words(front);
        let before = pattern::squeezed(front);
        let now = pattern::squeezed(s);
        if gapless(s) {
            assert forall|i: int|
                0 <= i < front.len() - 1 && text::is_white(#[trigger] front[i]) implies !pattern::is_stop(
            front[i + 1]) by {
                assert(s[i] == front[i] && s[i + 1] == front[i + 1]);
            }
        }
        if front.len() > 0 {
            assert(front.last() == s[s.len() - 2]);
        }
        if !text::is_white(s.last()) {
            assert(now.drop_last() =~= before);
            if before.len() > 0 {
                assert(now[now.len() - 2] == before.last());
            }
            if gapless(s) {
                assert forall|i: int|
                    0 <= i < now.len() - 1 && text::is_white(#[trigger] now[i]) implies !pattern::is_stop(
                now[i + 1]) by {
                    if i < now.len() - 2 {
                        assert(before[i] == now[i] && before[i + 1] == now[i + 1]);
                    } else {
                        assert(text::is_white(s[s.len() - 2]));
                    }
                }
            }
        } else if s.len() > 1 && text::is_white(s[s.len() - 2]) {
        } else {
            assert(now.drop_last() =~= before);
            if gapless(s) {
                assert forall|i: int|
                    0 <= i < now.len() - 1 && text::is_white(#[trigger] now[i]) implies !pattern::is_stop(
                now[i + 1]) by {
                    if i < now.len() - 2 {
                        assert(before[i] == now[i] && before[i + 1] == now[i + 1]);
                    }
                }
            }
        }
    }
}

proof fn leading_white_is_no_word(s: Seq<char>)
    requires
        s.len() > 0,
        text::is_white(s[0]),
    ensures
        crate::replace::words(s) == crate::replace::words(s.drop_first()),
    decreases s.len(),
{
    let rest = s.drop_first();
    if s.len() == 1 {
        assert(rest =~= Seq::<char>::empty());
        assert(s.drop_last() =~= rest);
    } else {
        leading_white_is_no_word(s.drop_last());
        assert(s.drop_last().drop_first() =~= rest.drop_last());
        assert(rest.last() == s.last());
        if s.len() > 2 {
            assert(rest[rest.len() - 2] == s[s.len() - 2]);
        }
    }
}

proof fn trimming_keeps_words(s: Seq<char>)
    ensures
        crate::replace::words(text::trimmed(s)) == crate::replace::words(s),
{
    trim_front_keeps_words(s);
    trim_back_keeps_words(text::trim_front(s));
}

proof fn trim_front_keeps_words(s: Seq<char>)
    ensures
        crate::replace::words(text::trim_front(s)) == crate::replace::words(s),
    decreases s.len(),
{
    if s.len() > 0 && text::is_white(s[0]) {
        trim_front_keeps_words(s.drop_first());
        leading_white_is_no_word(s);
    }
}

proof fn trim_back_keeps_words(s: Seq<char>)
    ensures
        crate::replace::words(text::trim_back(s)) == crate::replace::words(s),
    decreases s.len(),
{
    if s.len() > 0 && text::is_white(s.last()) {
        trim_back_keeps_words(s.drop_last());
    }
}

/// Tidying joins no words and splits none: where no white space stands before a
/// stop, and nothing is stranded at the start, the words are the same.
pub proof fn tidying_keeps_words_apart(s: Seq<char>)
    requires
        forall|i: int|
            0 <= i < s.len() - 1 && text::is_white(#[trigger] s[i]) ==> s[i + 1] != '.' && s[i + 1]
                != '?' && s[i + 1] != '!',
        inked(s).len() > 0 ==> inked(s)[0] != ',' && inked(s)[0] != ';' && inked(s)[0] != ':',
    ensures
        crate::replace::words(tidied(false, s)) == crate::replace::words(s),
{
    let single = pattern::squeezed(s);
    assert(gapless(s));
    squeezing_keeps_words(s);
    trimming_keeps_words(single);
    let spaced = text::trimmed(single);
    let (a, b) = text::trimming_cuts_white_space_only(single);
    assert forall|i: int|
        0 <= i < spaced.len() - 1 && text::is_white(#[trigger] spaced[i]) implies !pattern::is_stop(
    spaced[i + 1]) by {
        assert(single[a + i] == spaced[i] && single[a + i + 1] == spaced[i + 1]);
    }
    squeezed_is_single_spaced(s);
    trim_front_keeps_single_spacing(single);
    trim_back_keeps_single_spacing(text::trim_front(single));
    gapless_stays(spaced);
    squeezing_keeps_ink(s);
    trim_front_keeps_ink(single);
    trim_back_keeps_ink(text::trim_front(single));
    if spaced.len() > 0 {
        inked_front(spaced);
        assert(inked(spaced)[0] == spaced[0]);
    }
}

/// Cleaning, from end to end: with everything switched off, what is tidy already
/// comes out as it went in; with a final period wanted, what comes out is empty or
/// ends in one of the three stops.
pub proof fn cleaning_from_end_to_end(post: Postprocessor, text: &str, r: String)
    requires
        call_ensures(Postprocessor::apply, (&post, text), r),
    ensures
        post@.fillers.len() == 0 && !post@.capitalize && !post@.period
            && post@.replacements.len() == 0 && is_tidy(text@) ==> r@ == text@,
        post@.period && r@.len() > 0 ==> r@.last() == '.' || r@.last() == '?' || r@.last() == '!',
        post@.fillers.len() == 0 && post@.replacements.len() == 0 && !post@.period
            ==> text::lowered(inked(r@)) == text::lowered(
            inked(text@).skip(stranded(inked(text@)) as int),
        ),
{
    if post@.fillers.len() == 0 && !post@.capitalize && !post@.period
        && post@.replacements.len() == 0 && is_tidy(text@) {
        opting_out_keeps_the_transcript(post@, text@);
    }
    if post@.fillers.len() == 0 && post@.replacements.len() == 0 && !post@.period {
        let bare = text::trimmed(text@);
        trim_front_keeps_ink(text@);
        trim_back_keeps_ink(text::trim_front(text@));
        tidying_loses_nothing(post@.capitalize, bare);
    }
}

/// What is said of settings that cannot be used: which part of them, and why.
pub proof fn refused_settings_are_named(from: String, detail: String)
    ensures
        (PostprocessError::Fillers { detail }).text() == "compiling filler-words regex: "@
            + detail@,
        (PostprocessError::Replacement { from, detail }).text()
            == "compiling replacement regex for `"@ + from@ + "`: "@ + detail@,
{
}

/// Any of the filler words goes where it stands alone in a transcript, whatever its
/// case; of several that start at one place, the first in the list.
pub proof fn any_filler_goes(words: Seq<Seq<char>>, j: int, s: Seq<char>, k: int)
    requires
        pattern::all_plain(words),
        text::is_ascii(s),
        0 <= j < words.len(),
        0 <= k,
        pattern::fits_at(s, k, words[j]),
        pattern::is_boundary(s, k),
        pattern::is_boundary(s, k + words[j].len()),
        !word_stands_at(s, k, words.take(j)),
        forall|i: int|
            0 <= i < s.len() && (i < k || i >= k + words[j].len())
                ==> !#[trigger] word_stands_at(s, i, words),
    ensures
        without_fillers(words, s) == s.take(k) + s.skip(k + words[j].len()),
{
    let n = words[j].len();
    let len_at = |i: int| pattern::words_len(s, i, words);
    assert forall|i: int| 0 <= i < k implies #[trigger] len_at(i) == 0 by {
        assert(!word_stands_at(s, i, words));
        words_are_taken_whole(s, i, words);
    }
    assert forall|i: int| k + n <= i < s.len() implies #[trigger] len_at(i) == 0 by {
        assert(!word_stands_at(s, i, words));
        words_are_taken_whole(s, i, words);
    }
    assert(pattern::is_plain(words[j]));
    first_word_is_taken(s, k, words, j);
    assert(len_at(k) == n);
    pattern::first_stretch_is_swapped(s, 0, k, len_at, ""@);
    nothing_to_swap(s, k + n, len_at, ""@);
    reveal_strlit("");
    assert(s.subrange(0, k) + ""@ + s.skip(k + n) =~= s.take(k) + s.skip(k + n));
}

proof fn first_word_is_taken(s: Seq<char>, k: int, words: Seq<Seq<char>>, j: int)
    requires
        pattern::all_plain(words),
        0 <= j < words.len(),
        pattern::fits_at(s, k, words[j]),
        pattern::is_boundary(s, k),
        pattern::is_boundary(s, k + words[j].len()),
        !word_stands_at(s, k, words.take(j)),
    ensures
        pattern::words_len(s, k, words) == words[j].len(),
    decreases words.len(),
{
    let front = words.drop_last();
    assert forall|i: int| 0 <= i < front.len() implies pattern::is_plain(#[trigger] front[i]) by {
        assert(words[i] == front[i]);
    }
    assert(pattern::is_plain(words[j]));
    if j < front.len() {
        assert(front.take(j) =~= words.take(j));
        assert(front[j] == words[j]);
        first_word_is_taken(s, k, front, j);
    } else {
        assert(front =~= words.take(j));
        words_are_taken_whole(s, k, front);
    }
}

/// Settings are refused for an expression that does not compile, and for nothing
/// else: that of the filler words, where they are wanted, or that of a replacement,
/// which is then named.
pub proof fn refused_settings_have_a_fault(
    cfg: PostprocessConfig,
    r: Result<Postprocessor, PostprocessError>,
)
    requires
        call_ensures(Postprocessor::new, (&cfg,), r),
    ensures
        r matches Err(PostprocessError::Fillers { detail }) ==> cfg.remove_fillers
            && pattern::regex_fault(
            pattern::words_source(kept_words(text::texts(cfg.filler_words@))),
        ) == Some(detail@),
        r matches Err(PostprocessError::Replacement { from, detail }) ==> exists|i: int|
            0 <= i < cfg.replacements@.len() && text::trimmed((#[trigger] cfg.replacements@[i])@[0]@)
                == from@ && pattern::regex_fault(pattern::literal_source(from@)) == Some(detail@),
        r is Ok ==> forall|i: int|
            0 <= i < cfg.replacements@.len() && text::trimmed(
                (#[trigger] cfg.replacements@[i])@[0]@,
            ).len() > 0 ==> pattern::regex_fault(
                pattern::literal_source(text::trimmed(cfg.replacements@[i]@[0]@)),
            ) is None,
{
    faults_are_of_pairs(cfg.replacements@);
}

proof fn faults_are_of_pairs(pairs: Seq<[String; 2]>)
    ensures
        compiled_pairs(pairs) matches Err(fault) ==> (fault matches PostFault::Replacement(
            from,
            detail,
        ) && exists|i: int|
            0 <= i < pairs.len() && text::trimmed((#[trigger] pairs[i])@[0]@) == from
                && pattern::regex_fault(pattern::literal_source(from)) == Some(detail)),
        compiled_pairs(pairs) is Ok ==> forall|i: int|
            0 <= i < pairs.len() && text::trimmed((#[trigger] pairs[i])@[0]@).len() > 0
                ==> pattern::regex_fault(
                pattern::literal_source(text::trimmed(pairs[i]@[0]@)),
            ) is None,
    decreases pairs.len(),
{
    if pairs.len() > 0 {
        let front = pairs.drop_last();
        faults_are_of_pairs(front);
        let last = pairs[pairs.len() - 1];
        if compiled_pairs(pairs) is Err {
            if compiled_pairs(front) is Err {
                let fault = compiled_pairs(front)->Err_0;
                let from = fault->Replacement_0;
                let detail = fault->Replacement_1;
                let i = choose|i: int|
                    0 <= i < front.len() && text::trimmed((#[trigger] front[i])@[0]@) == from
                        && pattern::regex_fault(pattern::literal_source(from)) == Some(detail);
                assert(pairs[i] == front[i]);
            } else {
                assert(text::trimmed(last@[0]@) == (compiled_pairs(
                    pairs,
                )->Err_0)->Replacement_0);
            }
        } else {
            assert forall|i: int|
                0 <= i < pairs.len() && text::trimmed((#[trigger] pairs[i])@[0]@).len()
                    > 0 implies pattern::regex_fault(
                pattern::literal_source(text::trimmed(pairs[i]@[0]@)),
            ) is None by {
                if i < front.len() {
                    assert(front[i] == pairs[i]);
                }
            }
        }
    }
}

/// Each step by itself: capitals keep every character but for its case, and the first
/// letter of the text gets one; a tidied text is tidy; a finished one ends in a stop
/// where that is wanted, and is else as it was.
pub proof fn each_step_does_its_part(
    post: Postprocessor,
    s: &str,
    spoken: String,
    capitals: String,
    tidy: String,
    done: String,
    i: int,
)
    requires
        call_ensures(capitalize_sentences, (s,), capitals),
        call_ensures(Postprocessor::tidy, (&post, s), tidy),
        call_ensures(Postprocessor::finish, (&post, spoken), done),
    ensures
        capitals@.len() == s@.len(),
        0 <= i < s@.len() ==> text::lower(capitals@[i]) == text::lower(s@[i]),
        s@.len() > 0 && 'a' <= s@[0] <= 'z' ==> 'A' <= capitals@[0] <= 'Z',
        is_tidy(tidy@),
        !post@.period ==> done@ == spoken@,
        spoken@.len() > 0 && (spoken@.last() == '.' || spoken@.last() == '?' || spoken@.last()
            == '!') ==> done@ == spoken@,
        post@.period && spoken@.len() > 0 && !(spoken@.last() == '.' || spoken@.last() == '?'
            || spoken@.last() == '!') ==> done@ == spoken@.push('.'),
        spoken@.len() == 0 ==> done@.len() == 0,
{
    capitals_keep_length(s@);
    if 0 <= i < s@.len() {
        capitals_change_letters_only(s@, i);
    }
    if s@.len() > 0 && 'a' <= s@[0] <= 'z' {
        assert(s@.take(0) =~= Seq::<char>::empty());
        sentences_start_with_a_capital(s@, 0);
    }
    tidied_is_tidy(post@.capitalize, s@);
}

/// The message of an error is its text, and two errors with the same text give the
/// same message.
pub proof fn messages_are_their_text(a: PostprocessError, b: PostprocessError, one: String, other: String)
    requires
        call_ensures(PostprocessError::message, (&a,), one),
        call_ensures(PostprocessError::message, (&b,), other),
    ensures
        one@ == a.text(),
        a.text() == b.text() <==> one@ == other@,
{
}

/// Whatever alphabet a transcript is in, each replacement and the filler words are
/// sought in it, and what is found makes way for what was asked for.
pub proof fn every_alphabet_is_cleaned(
    from: Seq<char>,
    to: Seq<char>,
    fillers: Seq<Seq<char>>,
    s: Seq<char>,
)
    ensures
        substituted(seq![(from, to)], s) == pattern::literal_swapped(from, s, to),
        !text::is_ascii(s) ==> substituted(seq![(from, to)], s) == pattern::regex_replaced(
            pattern::literal_source(from),
            s,
            to,
        ),
        fillers.len() > 0 ==> without_fillers(fillers, s) == pattern::words_swapped(
            fillers,
            s,
            Seq::empty(),
        ),
        !text::is_ascii(s) && fillers.len() > 0 ==> without_fillers(fillers, s)
            == pattern::regex_replaced(pattern::words_source(fillers), s, Seq::empty()),
{
    reveal_strlit("");
    assert(""@ =~= Seq::<char>::empty());
    let one = seq![(from, to)];
    assert(one.drop_last() =~= Seq::<(Seq<char>, Seq<char>)>::empty());
    reveal_with_fuel(substituted, 2);
    pattern::other_alphabets_are_sought_too(from, fillers, s, to);
    pattern::other_alphabets_are_sought_too(from, fillers, s, Seq::empty());
}

/// Cleaning is its steps, one after the other: the filler words go from the trimmed
/// transcript, what is left is tidied, the replacements are made in that, and the end
/// is finished.
pub proof fn cleaning_takes_its_steps(
    post: Postprocessor,
    text: &str,
    spoken: &str,
    tidy: String,
    replaced: String,
    done: String,
    r: String,
)
    requires
        spoken@ == without_fillers(post@.fillers, text::trimmed(text@)),
        call_ensures(Postprocessor::tidy, (&post, spoken), tidy),
        replaced@ == substituted(post@.replacements, tidy@),
        call_ensures(Postprocessor::finish, (&post, replaced), done),
        call_ensures(Postprocessor::apply, (&post, text), r),
    ensures
        r@ == done@,
{
}

} // verus!
