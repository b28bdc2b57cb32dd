//! Character-level text functions: trimming, searching, comparing and
//! splitting, each stated over the sequence of characters that a string holds.

use vstd::prelude::*;

verus! {

/// `String::push`: the string grows by one character at its end.
pub assume_specification[ String::push ](s: &mut String, ch: char)
    ensures
        final(s)@ == old(s)@.push(ch),
;

// ---------------------------------------------------------------------------
// Characters
// ---------------------------------------------------------------------------

/// The characters with the Unicode property `White_Space`.
pub open spec fn is_white(c: char) -> bool {
    ||| '\u{9}' <= c <= '\u{d}'
    ||| c == ' '
    ||| c == '\u{85}'
    ||| c == '\u{a0}'
    ||| c == '\u{1680}'
    ||| '\u{2000}' <= c <= '\u{200a}'
    ||| c == '\u{2028}'
    ||| c == '\u{2029}'
    ||| c == '\u{202f}'
    ||| c == '\u{205f}'
    ||| c == '\u{3000}'
}

/// An ASCII capital letter.
pub open spec fn is_upper(c: char) -> bool {
    'A' <= c <= 'Z'
}

/// An ASCII small letter.
pub open spec fn is_lower(c: char) -> bool {
    'a' <= c <= 'z'
}

/// An ASCII decimal digit.
pub open spec fn is_digit(c: char) -> bool {
    '0' <= c <= '9'
}

/// An ASCII letter.
pub open spec fn is_letter(c: char) -> bool {
    is_upper(c) || is_lower(c)
}

/// `c` with an ASCII capital turned into the small letter.
pub open spec fn lower(c: char) -> char {
    if is_upper(c) {
        (c as u32 + 32) as char
    } else {
        c
    }
}

/// `c` with an ASCII small letter turned into the capital.
pub open spec fn upper(c: char) -> char {
    if is_lower(c) {
        (c as u32 - 32) as char
    } else {
        c
    }
}

/// Whether `c` is white space.
pub fn white(c: char) -> (r: bool)
    ensures
        r == is_white(c),
{
    ('\u{9}' <= c && c <= '\u{d}') || c == ' ' || c == '\u{85}' || c == '\u{a0}' || c == '\u{1680}'
        || ('\u{2000}' <= c && c <= '\u{200a}') || c == '\u{2028}' || c == '\u{2029}' || c
        == '\u{202f}' || c == '\u{205f}' || c == '\u{3000}'
}

/// Whether `c` is an ASCII letter.
pub fn letter(c: char) -> (r: bool)
    ensures
        r == is_letter(c),
{
    ('A' <= c && c <= 'Z') || ('a' <= c && c <= 'z')
}

/// Whether `c` is an ASCII decimal digit.
pub fn digit(c: char) -> (r: bool)
    ensures
        r == is_digit(c),
{
    '0' <= c && c <= '9'
}

/// The ASCII small form of `c`.
pub fn to_lower(c: char) -> (r: char)
    ensures
        r == lower(c),
{
    if 'A' <= c && c <= 'Z' {
        (c as u8 + 32) as char
    } else {
        c
    }
}

/// The ASCII capital form of `c`.
pub fn to_upper(c: char) -> (r: char)
    ensures
        r == upper(c),
{
    if 'a' <= c && c <= 'z' {
        (c as u8 - 32) as char
    } else {
        c
    }
}

// ---------------------------------------------------------------------------
// Strings and their characters
// ---------------------------------------------------------------------------

/// The characters of `s`, in order.
pub fn chars_of(s: &str) -> (r: Vec<char>)
    ensures
        r@ == s@,
{
    let mut out: Vec<char> = Vec::new();
    for c in it: s.chars()
        invariant
            out@ == it.seq().take(it.index()),
            it.seq() == s@,
    {
        out.push(c);
    }
    out
}

/// The string made of `chars[lo..hi]`.
pub fn piece(chars: &Vec<char>, lo: usize, hi: usize) -> (r: String)
    requires
        lo <= hi <= chars@.len(),
    ensures
        r@ == chars@.subrange(lo as int, hi as int),
{
    let mut out: String = String::new();
    for i in lo..hi
        invariant
            lo <= i <= hi <= chars@.len(),
            out@ == chars@.subrange(lo as int, i as int),
    {
        out.push(chars[i]);
        assert(chars@.subrange(lo as int, i + 1) == chars@.subrange(lo as int, i as int).push(
            chars@[i as int],
        ));
    }
    out
}

/// The characters of each of several strings.
pub open spec fn texts(v: Seq<String>) -> Seq<Seq<char>> {
    v.map_values(|s: String| s@)
}

/// An optional text by its characters.
pub open spec fn seen(s: Option<&str>) -> Option<Seq<char>> {
    match s {
        Some(t) => Some(t@),
        None => None,
    }
}

/// An optional string by its characters.
pub open spec fn held(s: Option<String>) -> Option<Seq<char>> {
    match s {
        Some(t) => Some(t@),
        None => None,
    }
}

/// Whether two texts hold the same characters.
pub fn same(a: &str, b: &str) -> (r: bool)
    ensures
        r == (a@ == b@),
{
    a.to_owned() == b.to_owned()
}

/// `a` followed by `b`.
pub fn concat2(a: &str, b: &str) -> (r: String)
    ensures
        r@ == a@ + b@,
{
    let mut out: String = a.to_owned();
    out.append(b);
    out
}

/// `a`, `b` and `c`, one after the other.
pub fn concat3(a: &str, b: &str, c: &str) -> (r: String)
    ensures
        r@ == a@ + b@ + c@,
{
    let mut out: String = concat2(a, b);
    out.append(c);
    out
}

// ---------------------------------------------------------------------------
// Trimming
// ---------------------------------------------------------------------------

/// `s` without its leading white space.
pub open spec fn trim_front(s: Seq<char>) -> Seq<char>
    decreases s.len(),
{
    if s.len() > 0 && is_white(s[0]) {
        trim_front(s.drop_first())
    } else {
        s
    }
}

/// `s` without its trailing white space.
pub open spec fn trim_back(s: Seq<char>) -> Seq<char>
    decreases s.len(),
{
    if s.len() > 0 && is_white(s.last()) {
        trim_back(s.drop_last())
    } else {
        s
    }
}

/// `s` without the white space at its two ends.
pub open spec fn trimmed(s: Seq<char>) -> Seq<char> {
    trim_back(trim_front(s))
}

/// Whether every character of `s` is white space.
pub open spec fn blank(s: Seq<char>) -> bool {
    forall|i: int| 0 <= i < s.len() ==> is_white(#[trigger] s[i])
}

/// Trimmed text has nothing left to trim.
pub proof fn trim_is_idempotent(s: Seq<char>)
    ensures
        trimmed(trimmed(s)) == trimmed(s),
        trimmed(s).len() > 0 ==> !is_white(trimmed(s)[0]) && !is_white(trimmed(s).last()),
{
    trim_front_leaves(s);
    trim_back_leaves(trim_front(s));
}

proof fn trim_front_leaves(s: Seq<char>)
    ensures
        trim_front(s).len() > 0 ==> !is_white(trim_front(s)[0]),
    decreases s.len(),
{
    if s.len() > 0 && is_white(s[0]) {
        trim_front_leaves(s.drop_first());
    }
}

proof fn trim_back_leaves(s: Seq<char>)
    ensures
        trim_back(s).len() > 0 ==> trim_back(s)[0] == s[0] && !is_white(trim_back(s).last()),
    decreases s.len(),
{
    if s.len() > 0 && is_white(s.last()) {
        trim_back_leaves(s.drop_last());
    }
}

/// The place in `chars[lo..hi]` where its leading white space ends.
pub fn skip_white(chars: &Vec<char>, lo: usize, hi: usize) -> (r: usize)
    requires
        lo <= hi <= chars@.len(),
    ensures
        lo <= r <= hi,
        chars@.subrange(r as int, hi as int) == trim_front(chars@.subrange(lo as int, hi as int)),
        r < hi ==> !is_white(chars@[r as int]),
        blank(chars@.subrange(lo as int, r as int)),
{
    let mut i: usize = lo;
    while i < hi && white(chars[i])
        invariant
            lo <= i <= hi <= chars@.len(),
            trim_front(chars@.subrange(lo as int, hi as int)) == trim_front(
                chars@.subrange(i as int, hi as int),
            ),
            blank(chars@.subrange(lo as int, i as int)),
        decreases hi - i,
    {
        assert(chars@.subrange(i as int, hi as int).drop_first() == chars@.subrange(
            i + 1,
            hi as int,
        ));
        i = i + 1;
    }
    i
}

/// The place in `chars[lo..hi]` where its trailing white space starts.
pub fn skip_white_back(chars: &Vec<char>, lo: usize, hi: usize) -> (r: usize)
    requires
        lo <= hi <= chars@.len(),
    ensures
        lo <= r <= hi,
        chars@.subrange(lo as int, r as int) == trim_back(chars@.subrange(lo as int, hi as int)),
        lo < r ==> !is_white(chars@[r - 1]),
        blank(chars@.subrange(r as int, hi as int)),
{
    let mut i: usize = hi;
    while lo < i && white(chars[i - 1])
        invariant
            lo <= i <= hi <= chars@.len(),
            trim_back(chars@.subrange(lo as int, hi as int)) == trim_back(
                chars@.subrange(lo as int, i as int),
            ),
            blank(chars@.subrange(i as int, hi as int)),
        decreases i,
    {
        assert(chars@.subrange(lo as int, i as int).drop_last() == chars@.subrange(
            lo as int,
            i - 1,
        ));
        assert(chars@.subrange(i - 1, hi as int) == seq![chars@[i - 1]] + chars@.subrange(
            i as int,
            hi as int,
        ));
        i = i - 1;
    }
    i
}

/// `s` without the white space at its two ends.
pub fn trim(s: &str) -> (r: String)
    ensures
        r@ == trimmed(s@),
{
    let chars = chars_of(s);
    let n: usize = chars.len();
    let lo = skip_white(&chars, 0, n);
    let hi = skip_white_back(&chars, lo, n);
    assert(chars@.subrange(0, n as int) == chars@);
    piece(&chars, lo, hi)
}

// ---------------------------------------------------------------------------
// Searching
// ---------------------------------------------------------------------------

/// Whether `p` occurs in `s` at position `i`.
pub open spec fn occurs_at(s: Seq<char>, p: Seq<char>, i: int) -> bool {
    0 <= i && i + p.len() <= s.len() && s.subrange(i, i + p.len()) == p
}

/// Whether `p` occurs somewhere in `s`.
pub open spec fn has_infix(s: Seq<char>, p: Seq<char>) -> bool {
    exists|i: int| occurs_at(s, p, i)
}

/// Whether `pat` stands in `chars` at position `at`.
pub fn matches_at(chars: &Vec<char>, pat: &Vec<char>, at: usize) -> (r: bool)
    ensures
        r == occurs_at(chars@, pat@, at as int),
{
    if chars.len() < pat.len() || chars.len() - pat.len() < at {
        return false;
    }
    let n: usize = chars.len();
    for i in 0..pat.len()
        invariant
            n == chars@.len(),
            at + pat@.len() <= chars@.len(),
            chars@.subrange(at as int, at + i) == pat@.subrange(0, i as int),
    {
        if chars[at + i] != pat[i] {
            assert(chars@.subrange(at as int, at + pat@.len())[i as int] != pat@[i as int]);
            return false;
        }
        assert(chars@.subrange(at as int, at + i + 1) == chars@.subrange(at as int, at + i).push(
            chars@[at + i],
        ));
        assert(pat@.subrange(0, i + 1) == pat@.subrange(0, i as int).push(pat@[i as int]));
    }
    assert(pat@.subrange(0, pat@.len() as int) == pat@);
    true
}

/// Whether `s` starts with `p`.
pub fn starts_with(s: &str, p: &str) -> (r: bool)
    ensures
        r == p@.is_prefix_of(s@),
{
    let chars = chars_of(s);
    let pat = chars_of(p);
    matches_at(&chars, &pat, 0)
}

/// Whether `s` ends with `p`.
pub fn ends_with(s: &str, p: &str) -> (r: bool)
    ensures
        r == p@.is_suffix_of(s@),
{
    let chars = chars_of(s);
    let pat = chars_of(p);
    if chars.len() < pat.len() {
        return false;
    }
    matches_at(&chars, &pat, chars.len() - pat.len())
}

/// Whether `p` occurs somewhere in `s`.
pub fn contains(s: &str, p: &str) -> (r: bool)
    ensures
        r == has_infix(s@, p@),
{
    let chars = chars_of(s);
    let pat = chars_of(p);
    if chars.len() < pat.len() {
        return false;
    }
    let last: usize = chars.len() - pat.len();
    for i in 0..last
        invariant
            last == chars@.len() - pat@.len(),
            chars@ == s@,
            pat@ == p@,
            forall|j: int| 0 <= j < i ==> !occurs_at(s@, p@, j),
    {
        if matches_at(&chars, &pat, i) {
            return true;
        }
    }
    matches_at(&chars, &pat, last)
}

// ---------------------------------------------------------------------------
// Splitting
// ---------------------------------------------------------------------------

/// The pieces of `s` between the separators `sep`: one more than there are
/// separators, any of them may be empty.
pub open spec fn split(s: Seq<char>, sep: char) -> Seq<Seq<char>>
    decreases s.len(),
{
    if s.len() == 0 {
        seq![Seq::empty()]
    } else {
        let front = split(s.drop_last(), sep);
        if s.last() == sep {
            front.push(Seq::empty())
        } else {
            front.drop_last().push(front.last().push(s.last()))
        }
    }
}

/// There is always at least one piece.
pub proof fn split_is_not_empty(s: Seq<char>, sep: char)
    ensures
        split(s, sep).len() > 0,
    decreases s.len(),
{
    if s.len() > 0 {
        split_is_not_empty(s.drop_last(), sep);
    }
}

/// The pieces of `s` between the separators `sep`.
pub fn split_on(s: &str, sep: char) -> (r: Vec<String>)
    ensures
        texts(r@) == split(s@, sep),
        r@.len() > 0,
{
    let chars = chars_of(s);
    let n: usize = chars.len();
    let mut out: Vec<String> = Vec::new();
    let mut piece: String = String::new();
    assert(texts(out@).push(piece@) =~= split(chars@.take(0), sep));
    for i in 0..n
        invariant
            n == chars@.len(),
            texts(out@).push(piece@) == split(chars@.take(i as int), sep),
    {
        let ghost before = texts(out@).push(piece@);
        assert(chars@.take(i + 1).drop_last() == chars@.take(i as int));
        assert(chars@.take(i + 1).last() == chars@[i as int]);
        if chars[i] == sep {
            out.push(piece);
            piece = String::new();
            assert(texts(out@) =~= before);
        } else {
            piece.push(chars[i]);
            assert(before.drop_last() =~= texts(out@));
        }
    }
    assert(chars@.take(n as int) == chars@);
    out.push(piece);
    assert(texts(out@) =~= split(s@, sep));
    out
}

// ---------------------------------------------------------------------------
// Letter case
// ---------------------------------------------------------------------------

/// `s` with its ASCII capitals turned into small letters.
pub open spec fn lowered(s: Seq<char>) -> Seq<char> {
    s.map_values(|c: char| lower(c))
}

/// Whether every character of `s` is ASCII.
pub open spec fn is_ascii(s: Seq<char>) -> bool {
    forall|i: int| 0 <= i < s.len() ==> (#[trigger] s[i]) as u32 <= 127
}

/// What `str::to_lowercase` makes of `s`.
pub uninterp spec fn lowercase(s: Seq<char>) -> Seq<char>;

/// `str::to_lowercase`: the result is named, and for ASCII text it is the
/// text with its capitals turned into small letters.
pub assume_specification[ str::to_lowercase ](s: &str) -> (r: String)
    ensures
        r@ == lowercase(s@),
        is_ascii(s@) ==> r@ == lowered(s@),
;

/// Whether two texts are equal up to the case of their ASCII letters.
pub fn same_ignoring_case(a: &str, b: &str) -> (r: bool)
    ensures
        r == (lowered(a@) == lowered(b@)),
{
    let x = chars_of(a);
    let y = chars_of(b);
    if x.len() != y.len() {
        assert(lowered(a@).len() != lowered(b@).len());
        return false;
    }
    let n: usize = x.len();
    for i in 0..n
        invariant
            n == x@.len(),
            n == y@.len(),
            x@ == a@,
            y@ == b@,
            forall|j: int| 0 <= j < i ==> lower(#[trigger] x@[j]) == lower(y@[j]),
    {
        if to_lower(x[i]) != to_lower(y[i]) {
            assert(lowered(a@)[i as int] != lowered(b@)[i as int]);
            return false;
        }
    }
    assert(lowered(a@) =~= lowered(b@));
    true
}

/// Letter case plays no part in where the separators are.
pub proof fn split_keeps_case(s: Seq<char>, sep: char)
    requires
        !is_letter(sep),
    ensures
        split(lowered(s), sep) == split(s, sep).map_values(|p: Seq<char>| lowered(p)),
    decreases s.len(),
{
    let f = |p: Seq<char>| lowered(p);
    if s.len() == 0 {
        assert(lowered(s) =~= s);
        assert(s =~= Seq::empty());
        assert(split(s, sep).map_values(f) =~= split(s, sep));
    } else {
        split_keeps_case(s.drop_last(), sep);
        split_is_not_empty(s.drop_last(), sep);
        let front = split(s.drop_last(), sep);
        assert(lowered(s).drop_last() =~= lowered(s.drop_last()));
        assert(lowered(s).last() == lower(s.last()));
        if s.last() == sep {
            assert(lower(s.last()) == sep);
            assert(split(s, sep).map_values(f) =~= front.map_values(f).push(Seq::empty())) by {
                assert(lowered(Seq::empty()) =~= Seq::<char>::empty());
            }
        } else {
            assert(lower(s.last()) != sep);
            assert(lowered(front.last().push(s.last())) =~= lowered(front.last()).push(
                lower(s.last()),
            ));
            assert(split(s, sep).map_values(f) =~= front.map_values(f).drop_last().push(
                lowered(front.last()).push(lower(s.last())),
            ));
        }
    }
}

/// Letter case plays no part in what is white space.
pub proof fn trim_keeps_case(s: Seq<char>)
    ensures
        trimmed(lowered(s)) == lowered(trimmed(s)),
{
    trim_front_keeps_case(s);
    trim_back_keeps_case(trim_front(s));
}

proof fn trim_front_keeps_case(s: Seq<char>)
    ensures
        trim_front(lowered(s)) == lowered(trim_front(s)),
    decreases s.len(),
{
    if s.len() > 0 {
        assert(lowered(s)[0] == lower(s[0]));
        if is_white(s[0]) {
            trim_front_keeps_case(s.drop_first());
            assert(lowered(s).drop_first() =~= lowered(s.drop_first()));
        }
    }
}

proof fn trim_back_keeps_case(s: Seq<char>)
    ensures
        trim_back(lowered(s)) == lowered(trim_back(s)),
    decreases s.len(),
{
    if s.len() > 0 {
        assert(lowered(s).last() == lower(s.last()));
        if is_white(s.last()) {
            trim_back_keeps_case(s.drop_last());
            assert(lowered(s).drop_last() =~= lowered(s.drop_last()));
        }
    }
}

/// The pieces of ASCII text are ASCII.
pub proof fn split_keeps_ascii(s: Seq<char>, sep: char, i: int)
    requires
        is_ascii(s),
        0 <= i < split(s, sep).len(),
    ensures
        is_ascii(split(s, sep)[i]),
    decreases s.len(),
{
    if s.len() > 0 {
        split_is_not_empty(s.drop_last(), sep);
        let front = split(s.drop_last(), sep);
        assert(is_ascii(s.drop_last()));
        if i < front.len() {
            split_keeps_ascii(s.drop_last(), sep, i);
        }
    }
}

/// Trimmed ASCII text is ASCII.
pub proof fn trim_keeps_ascii(s: Seq<char>)
    requires
        is_ascii(s),
    ensures
        is_ascii(trimmed(s)),
{
    trim_front_keeps_ascii(s);
    trim_back_keeps_ascii(trim_front(s));
}

proof fn trim_front_keeps_ascii(s: Seq<char>)
    requires
        is_ascii(s),
    ensures
        is_ascii(trim_front(s)),
    decreases s.len(),
{
    if s.len() > 0 && is_white(s[0]) {
        trim_front_keeps_ascii(s.drop_first());
    }
}

proof fn trim_back_keeps_ascii(s: Seq<char>)
    requires
        is_ascii(s),
    ensures
        is_ascii(trim_back(s)),
    decreases s.len(),
{
    if s.len() > 0 && is_white(s.last()) {
        trim_back_keeps_ascii(s.drop_last());
    }
}

// ---------------------------------------------------------------------------
// Laws
// ---------------------------------------------------------------------------

/// The white characters, by their numbers.
pub proof fn white_space_by_number(c: char)
    ensures
        is_white(c) <==> {
            ||| 9 <= c as u32 <= 13
            ||| c as u32 == 32
            ||| c as u32 == 0x85
            ||| c as u32 == 0xa0
            ||| c as u32 == 0x1680
            ||| 0x2000 <= c as u32 <= 0x200a
            ||| c as u32 == 0x2028
            ||| c as u32 == 0x2029
            ||| c as u32 == 0x202f
            ||| c as u32 == 0x205f
            ||| c as u32 == 0x3000
        },
{
}

/// Each capital has the small letter at the same place of the alphabet, and back;
/// nothing else has another case.
pub proof fn letters_have_two_forms(c: char)
    ensures
        'A' <= c <= 'Z' ==> lower(c) as u32 - 'a' as u32 == c as u32 - 'A' as u32 && upper(c) == c,
        'a' <= c <= 'z' ==> upper(c) as u32 - 'A' as u32 == c as u32 - 'a' as u32 && lower(c) == c,
        !('A' <= c <= 'Z') && !('a' <= c <= 'z') ==> lower(c) == c && upper(c) == c,
        is_letter(c) <==> 'A' <= c <= 'Z' || 'a' <= c <= 'z',
        is_digit(c) <==> '0' <= c <= '9',
{
}

/// Changing the case of a text changes each character by itself.
pub proof fn lowering_goes_letter_by_letter(s: Seq<char>, i: int)
    requires
        0 <= i < s.len(),
    ensures
        lowered(s).len() == s.len(),
        lowered(s)[i] == s[i] || ('A' <= s[i] <= 'Z' && lowered(s)[i] as u32 == s[i] as u32 + 32),
        !('A' <= lowered(s)[i] <= 'Z'),
{
}

proof fn trim_front_cuts(s: Seq<char>) -> (k: int)
    ensures
        0 <= k <= s.len(),
        trim_front(s) == s.skip(k),
        blank(s.take(k)),
    decreases s.len(),
{
    if s.len() > 0 && is_white(s[0]) {
        let k = trim_front_cuts(s.drop_first());
        assert(s.drop_first().skip(k) == s.skip(k + 1));
        assert forall|i: int| 0 <= i < s.take(k + 1).len() implies is_white(
            #[trigger] s.take(k + 1)[i],
        ) by {
            if i > 0 {
                assert(s.drop_first().take(k)[i - 1] == s[i]);
            }
        }
        k + 1
    } else {
        assert(s.skip(0) == s);
        0
    }
}

proof fn trim_back_cuts(s: Seq<char>) -> (k: int)
    ensures
        0 <= k <= s.len(),
        trim_back(s) == s.take(k),
        blank(s.skip(k)),
    decreases s.len(),
{
    if s.len() > 0 && is_white(s.last()) {
        let k = trim_back_cuts(s.drop_last());
        assert(s.drop_last().take(k) == s.take(k));
        assert forall|i: int| 0 <= i < s.skip(k).len() implies is_white(#[trigger] s.skip(k)[i]) by {
            if i < s.len() - 1 - k {
                assert(s.drop_last().skip(k)[i] == s[k + i]);
            }
        }
        k
    } else {
        assert(s.take(s.len() as int) == s);
        s.len() as int
    }
}

/// Trimming cuts white space off the two ends, all of it, and nothing else.
pub proof fn trimming_cuts_white_space_only(s: Seq<char>) -> (cut: (int, int))
    ensures
        0 <= cut.0 <= cut.1 <= s.len(),
        trimmed(s) == s.subrange(cut.0, cut.1),
        blank(s.take(cut.0)),
        blank(s.skip(cut.1)),
        trimmed(s).len() > 0 ==> !is_white(trimmed(s)[0]) && !is_white(trimmed(s).last()),
{
    let a = trim_front_cuts(s);
    let b = trim_back_cuts(s.skip(a));
    trim_is_idempotent(s);
    assert(s.skip(a).take(b) == s.subrange(a, a + b));
    assert(s.skip(a).skip(b) == s.skip(a + b));
    (a, a + b)
}

/// What stands between white space is what trimming leaves.
pub proof fn trimming_leaves_the_core(front: Seq<char>, core: Seq<char>, back: Seq<char>)
    requires
        blank(front),
        blank(back),
        core.len() > 0,
        !is_white(core[0]),
        !is_white(core.last()),
    ensures
        trimmed(front + core + back) == core,
{
    let s = front + core + back;
    let (a, b) = trimming_cuts_white_space_only(s);
    let n = front.len() as int;
    let m = n + core.len();
    assert(s[n] == core[0] && s[m - 1] == core.last());
    if a > n {
        assert(s.take(a)[n] == s[n]);
    }
    if b < m {
        assert(s.skip(b)[m - 1 - b] == s[m - 1]);
    }
    assert(trimmed(s)[0] == s[a] && trimmed(s).last() == s[b - 1]);
    if a < n {
        assert(front[a] == s[a]);
    }
    if b > m {
        assert(back[b - 1 - m] == s[b - 1]);
    }
    assert(s.subrange(n, m) == core);
}

/// Pieces with a separator between them.
pub open spec fn glued(pieces: Seq<Seq<char>>, sep: char) -> Seq<char>
    decreases pieces.len(),
{
    if pieces.len() == 0 {
        Seq::empty()
    } else if pieces.len() == 1 {
        pieces[0]
    } else {
        glued(pieces.drop_last(), sep).push(sep) + pieces.last()
    }
}

/// Splitting cuts at the separators and nowhere else: put together again, the
/// pieces are the text, and none of them holds a separator.
pub proof fn split_cuts_at_separators(s: Seq<char>, sep: char)
    ensures
        split(s, sep).len() > 0,
        glued(split(s, sep), sep) == s,
        forall|i: int|
            0 <= i < split(s, sep).len() ==> !(#[trigger] split(s, sep)[i]).contains(sep),
    decreases s.len(),
{
    if s.len() == 0 {
        assert(split(s, sep)[0] =~= s);
    } else {
        split_cuts_at_separators(s.drop_last(), sep);
        let front = split(s.drop_last(), sep);
        let all = split(s, sep);
        assert(s == s.drop_last().push(s.last()));
        if s.last() == sep {
            assert(all.drop_last() =~= front);
            assert(glued(all, sep) =~= glued(front, sep).push(sep) + Seq::<char>::empty());
            assert forall|i: int| 0 <= i < all.len() implies !(#[trigger] all[i]).contains(sep) by {
                if i < front.len() {
                    assert(all[i] == front[i]);
                }
            }
        } else {
            let grown = front.last().push(s.last());
            assert(all.last() == grown);
            assert(all.drop_last() =~= front.drop_last());
            if front.len() == 1 {
                assert(all[0] == grown);
            } else {
                assert(glued(all, sep) =~= glued(front, sep).push(s.last()));
            }
            assert forall|i: int| 0 <= i < all.len() implies !(#[trigger] all[i]).contains(sep) by {
                if i < front.len() - 1 {
                    assert(all[i] == front[i]);
                } else if grown.contains(sep) {
                    let j = choose|j: int| 0 <= j < grown.len() && grown[j] == sep;
                    assert(front.last()[j] == sep);
                    assert(front[front.len() - 1].contains(sep));
                }
            }
        }
    }
}

} // verus!
