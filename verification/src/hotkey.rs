//! The push-to-talk hotkey: reading a binding such as `ctrl+alt+space`.

use vstd::prelude::*;

use crate::decimal;
use crate::text;

verus! {

/// What the hotkey did.
#[derive(Debug, Clone, Copy, PartialEq, Eq)]
pub enum HotkeyEvent {
    Press,
    Release,
}

/// The modifier keys of a binding.
#[derive(Debug, Clone, Copy, PartialEq, Eq, Structural)]
pub struct Modifiers {
    pub control: bool,
    pub alt: bool,
    pub shift: bool,
    pub meta: bool,
}

/// The key of a binding.
#[derive(Debug, Clone, Copy, PartialEq, Eq, Structural)]
pub enum Code {
    KeyA,
    KeyB,
    KeyC,
    KeyD,
    KeyE,
    KeyF,
    KeyG,
    KeyH,
    KeyI,
    KeyJ,
    KeyK,
    KeyL,
    KeyM,
    KeyN,
    KeyO,
    KeyP,
    KeyQ,
    KeyR,
    KeyS,
    KeyT,
    KeyU,
    KeyV,
    KeyW,
    KeyX,
    KeyY,
    KeyZ,
    Digit0,
    Digit1,
    Digit2,
    Digit3,
    Digit4,
    Digit5,
    Digit6,
    Digit7,
    Digit8,
    Digit9,
    F1,
    F2,
    F3,
    F4,
    F5,
    F6,
    F7,
    F8,
    F9,
    F10,
    F11,
    F12,
    F13,
    F14,
    F15,
    F16,
    F17,
    F18,
    F19,
    F20,
    F21,
    F22,
    F23,
    F24,
    Space,
    Enter,
    Tab,
    Escape,
    Backspace,
    ArrowUp,
    ArrowDown,
    ArrowLeft,
    ArrowRight,
}

/// Why a text is no binding.
#[derive(Debug, PartialEq, Eq)]
pub enum BindingError {
    /// A part between two `+` is empty.
    EmptyToken { binding: String },
    /// A part before the last is no modifier.
    UnknownModifier { token: String },
    /// The last part is no key.
    UnknownKey { token: String },
}

impl BindingError {
    /// The message for this error.
    pub open spec fn text(self) -> Seq<char> {
        match self {
            BindingError::EmptyToken { binding } =>
                "empty hotkey binding or empty `+`-separated token in `"@ + binding@ + "`"@,
            BindingError::UnknownModifier { token } => "Unknown hotkey modifier `"@ + token@
                + "`. Valid modifiers: ctrl (alias: control), alt, shift, super (alias: meta)."@,
            BindingError::UnknownKey { token } => "Unknown hotkey key `"@ + token@
                + "`. Valid keys: letters a-z, digits 0-9, space, enter (alias: return), tab, escape (alias: esc), backspace, f1-f24, arrow keys (up, down, left, right)."@,
        }
    }

    /// The message for this error.
    pub fn message(&self) -> (r: String)
        ensures
            r@ == self.text(),
    {
        match self {
            BindingError::EmptyToken { binding } => text::concat3(
                "empty hotkey binding or empty `+`-separated token in `",
                binding.as_str(),
                "`",
            ),
            BindingError::UnknownModifier { token } => text::concat3(
                "Unknown hotkey modifier `",
                token.as_str(),
                "`. Valid modifiers: ctrl (alias: control), alt, shift, super (alias: meta).",
            ),
            BindingError::UnknownKey { token } => text::concat3(
                "Unknown hotkey key `",
                token.as_str(),
                "`. Valid keys: letters a-z, digits 0-9, space, enter (alias: return), tab, escape (alias: esc), backspace, f1-f24, arrow keys (up, down, left, right).",
            ),
        }
    }
}

impl Modifiers {
    /// No modifier.
    pub open spec fn none() -> Modifiers {
        Modifiers { control: false, alt: false, shift: false, meta: false }
    }

    /// The modifiers of both.
    pub open spec fn with(self, other: Modifiers) -> Modifiers {
        Modifiers {
            control: self.control || other.control,
            alt: self.alt || other.alt,
            shift: self.shift || other.shift,
            meta: self.meta || other.meta,
        }
    }

    /// No modifier.
    pub fn empty() -> (r: Modifiers)
        ensures
            r == Modifiers::none(),
    {
        Modifiers { control: false, alt: false, shift: false, meta: false }
    }

    /// The modifiers of both.
    pub fn union(self, other: Modifiers) -> (r: Modifiers)
        ensures
            r == self.with(other),
    {
        Modifiers {
            control: self.control || other.control,
            alt: self.alt || other.alt,
            shift: self.shift || other.shift,
            meta: self.meta || other.meta,
        }
    }
}

// ---------------------------------------------------------------------------
// Tokens
// ---------------------------------------------------------------------------

/// The modifier that a lower-case token names.
pub open spec fn modifier_of(t: Seq<char>) -> Option<Modifiers> {
    if t == "ctrl"@ || t == "control"@ {
        Some(Modifiers { control: true, ..Modifiers::none() })
    } else if t == "alt"@ {
        Some(Modifiers { alt: true, ..Modifiers::none() })
    } else if t == "shift"@ {
        Some(Modifiers { shift: true, ..Modifiers::none() })
    } else if t == "super"@ || t == "meta"@ {
        Some(Modifiers { meta: true, ..Modifiers::none() })
    } else {
        None
    }
}

/// The key of a small letter.
pub open spec fn letter_code(c: char) -> Code {
    match c {
        'a' => Code::KeyA,
        'b' => Code::KeyB,
        'c' => Code::KeyC,
        'd' => Code::KeyD,
        'e' => Code::KeyE,
        'f' => Code::KeyF,
        'g' => Code::KeyG,
        'h' => Code::KeyH,
        'i' => Code::KeyI,
        'j' => Code::KeyJ,
        'k' => Code::KeyK,
        'l' => Code::KeyL,
        'm' => Code::KeyM,
        'n' => Code::KeyN,
        'o' => Code::KeyO,
        'p' => Code::KeyP,
        'q' => Code::KeyQ,
        'r' => Code::KeyR,
        's' => Code::KeyS,
        't' => Code::KeyT,
        'u' => Code::KeyU,
        'v' => Code::KeyV,
        'w' => Code::KeyW,
        'x' => Code::KeyX,
        'y' => Code::KeyY,
        _ => Code::KeyZ,
    }
}

/// The key of a digit.
pub open spec fn digit_code(c: char) -> Code {
    match c {
        '0' => Code::Digit0,
        '1' => Code::Digit1,
        '2' => Code::Digit2,
        '3' => Code::Digit3,
        '4' => Code::Digit4,
        '5' => Code::Digit5,
        '6' => Code::Digit6,
        '7' => Code::Digit7,
        '8' => Code::Digit8,
        _ => Code::Digit9,
    }
}

/// The function key with the given number.
pub open spec fn function_code(n: nat) -> Code {
    if n == 1 {
        Code::F1
    } else if n == 2 {
        Code::F2
    } else if n == 3 {
        Code::F3
    } else if n == 4 {
        Code::F4
    } else if n == 5 {
        Code::F5
    } else if n == 6 {
        Code::F6
    } else if n == 7 {
        Code::F7
    } else if n == 8 {
        Code::F8
    } else if n == 9 {
        Code::F9
    } else if n == 10 {
        Code::F10
    } else if n == 11 {
        Code::F11
    } else if n == 12 {
        Code::F12
    } else if n == 13 {
        Code::F13
    } else if n == 14 {
        Code::F14
    } else if n == 15 {
        Code::F15
    } else if n == 16 {
        Code::F16
    } else if n == 17 {
        Code::F17
    } else if n == 18 {
        Code::F18
    } else if n == 19 {
        Code::F19
    } else if n == 20 {
        Code::F20
    } else if n == 21 {
        Code::F21
    } else if n == 22 {
        Code::F22
    } else if n == 23 {
        Code::F23
    } else {
        Code::F24
    }
}

/// The key with a name of its own.
pub open spec fn named_code(t: Seq<char>) -> Option<Code> {
    if t == "space"@ {
        Some(Code::Space)
    } else if t == "enter"@ || t == "return"@ {
        Some(Code::Enter)
    } else if t == "tab"@ {
        Some(Code::Tab)
    } else if t == "escape"@ || t == "esc"@ {
        Some(Code::Escape)
    } else if t == "backspace"@ {
        Some(Code::Backspace)
    } else if t == "up"@ {
        Some(Code::ArrowUp)
    } else if t == "down"@ {
        Some(Code::ArrowDown)
    } else if t == "left"@ {
        Some(Code::ArrowLeft)
    } else if t == "right"@ {
        Some(Code::ArrowRight)
    } else {
        None
    }
}

/// Whether `t` is `f` and a number without leading zeros.
pub open spec fn is_function_name(t: Seq<char>) -> bool {
    t.len() > 1 && t[0] == 'f' && t[1] != '0' && decimal::is_numeral(t.skip(1))
}

/// The key that a lower-case token names.
pub open spec fn code_of(t: Seq<char>) -> Option<Code> {
    if t.len() == 1 && text::is_lower(t[0]) {
        Some(letter_code(t[0]))
    } else if t.len() == 1 && text::is_digit(t[0]) {
        Some(digit_code(t[0]))
    } else if is_function_name(t) && 1 <= decimal::value(t.skip(1)) <= 24 {
        Some(function_code(decimal::value(t.skip(1))))
    } else {
        named_code(t)
    }
}

/// The modifiers of a list of lower-case tokens, if all of them name one.
pub open spec fn modifiers_of(ts: Seq<Seq<char>>) -> Option<Modifiers>
    decreases ts.len(),
{
    if ts.len() == 0 {
        Some(Modifiers::none())
    } else {
        match (modifiers_of(ts.drop_last()), modifier_of(ts.last())) {
            (Some(front), Some(m)) => Some(front.with(m)),
            _ => None,
        }
    }
}

/// Whether token `i` is the first of `ts` that names no modifier.
pub open spec fn first_bad(ts: Seq<Seq<char>>, i: int) -> bool {
    &&& 0 <= i < ts.len()
    &&& modifier_of(ts[i]) is None
    &&& forall|j: int| 0 <= j < i ==> modifier_of(#[trigger] ts[j]) is Some
}

/// Whether `r` is the answer to a binding with these lower-case tokens.
pub open spec fn binds(r: Result<(Modifiers, Code), BindingError>, ts: Seq<Seq<char>>) -> bool {
    let mods = modifiers_of(ts.drop_last());
    if mods is None {
        r matches Err(BindingError::UnknownModifier { token }) && exists|i: int| #[trigger]
            first_bad(ts.drop_last(), i) && token@ == ts[i]
    } else {
        match code_of(ts.last()) {
            Some(code) => r == Ok::<(Modifiers, Code), BindingError>((mods->0, code)),
            None => r matches Err(BindingError::UnknownKey { token }) && token@ == ts.last(),
        }
    }
}

/// The parts of a binding, without the white space around them.
pub open spec fn parts(s: Seq<char>) -> Seq<Seq<char>> {
    text::split(s, '+').map_values(|p: Seq<char>| text::trimmed(p))
}

/// Whether a part of a binding is empty.
pub open spec fn has_empty_part(s: Seq<char>) -> bool {
    exists|i: int| 0 <= i < parts(s).len() && (#[trigger] parts(s)[i]).len() == 0
}

/// Parse a lower-case modifier token.
pub fn parse_modifier_token(t: &str) -> (r: Result<Modifiers, BindingError>)
    ensures
        match modifier_of(t@) {
            Some(m) => r == Ok::<Modifiers, BindingError>(m),
            None => r matches Err(BindingError::UnknownModifier { token }) && token@ == t@,
        },
{
    let none = Modifiers::empty();
    if text::same(t, "ctrl") || text::same(t, "control") {
        Ok(Modifiers { control: true, ..none })
    } else if text::same(t, "alt") {
        Ok(Modifiers { alt: true, ..none })
    } else if text::same(t, "shift") {
        Ok(Modifiers { shift: true, ..none })
    } else if text::same(t, "super") || text::same(t, "meta") {
        Ok(Modifiers { meta: true, ..none })
    } else {
        Err(BindingError::UnknownModifier { token: t.to_owned() })
    }
}

/// The key of a small letter.
fn letter_key(c: char) -> (r: Code)
    requires
        text::is_lower(c),
    ensures
        r == letter_code(c),
{
    match c {
        'a' => Code::KeyA,
        'b' => Code::KeyB,
        'c' => Code::KeyC,
        'd' => Code::KeyD,
        'e' => Code::KeyE,
        'f' => Code::KeyF,
        'g' => Code::KeyG,
        'h' => Code::KeyH,
        'i' => Code::KeyI,
        'j' => Code::KeyJ,
        'k' => Code::KeyK,
        'l' => Code::KeyL,
        'm' => Code::KeyM,
        'n' => Code::KeyN,
        'o' => Code::KeyO,
        'p' => Code::KeyP,
        'q' => Code::KeyQ,
        'r' => Code::KeyR,
        's' => Code::KeyS,
        't' => Code::KeyT,
        'u' => Code::KeyU,
        'v' => Code::KeyV,
        'w' => Code::KeyW,
        'x' => Code::KeyX,
        'y' => Code::KeyY,
        _ => Code::KeyZ,
    }
}

/// The key of a digit.
fn digit_key(c: char) -> (r: Code)
    requires
        text::is_digit(c),
    ensures
        r == digit_code(c),
{
    match c {
        '0' => Code::Digit0,
        '1' => Code::Digit1,
        '2' => Code::Digit2,
        '3' => Code::Digit3,
        '4' => Code::Digit4,
        '5' => Code::Digit5,
        '6' => Code::Digit6,
        '7' => Code::Digit7,
        '8' => Code::Digit8,
        _ => Code::Digit9,
    }
}

/// The function key with the given number.
fn function_key(n: u64) -> (r: Code)
    requires
        1 <= n <= 24,
    ensures
        r == function_code(n as nat),
{
    match n {
        1 => Code::F1,
        2 => Code::F2,
        3 => Code::F3,
        4 => Code::F4,
        5 => Code::F5,
        6 => Code::F6,
        7 => Code::F7,
        8 => Code::F8,
        9 => Code::F9,
        10 => Code::F10,
        11 => Code::F11,
        12 => Code::F12,
        13 => Code::F13,
        14 => Code::F14,
        15 => Code::F15,
        16 => Code::F16,
        17 => Code::F17,
        18 => Code::F18,
        19 => Code::F19,
        20 => Code::F20,
        21 => Code::F21,
        22 => Code::F22,
        23 => Code::F23,
        _ => Code::F24,
    }
}

/// The key with a name of its own.
fn named_key(t: &str) -> (r: Option<Code>)
    ensures
        r == named_code(t@),
{
    if text::same(t, "space") {
        Some(Code::Space)
    } else if text::same(t, "enter") || text::same(t, "return") {
        Some(Code::Enter)
    } else if text::same(t, "tab") {
        Some(Code::Tab)
    } else if text::same(t, "escape") || text::same(t, "esc") {
        Some(Code::Escape)
    } else if text::same(t, "backspace") {
        Some(Code::Backspace)
    } else if text::same(t, "up") {
        Some(Code::ArrowUp)
    } else if text::same(t, "down") {
        Some(Code::ArrowDown)
    } else if text::same(t, "left") {
        Some(Code::ArrowLeft)
    } else if text::same(t, "right") {
        Some(Code::ArrowRight)
    } else {
        None
    }
}

/// Parse a lower-case key token. Function keys are taken in canonical form
/// only: `f1`, not `f01`.
pub fn parse_key_token(t: &str) -> (r: Result<Code, BindingError>)
    ensures
        match code_of(t@) {
            Some(code) => r == Ok::<Code, BindingError>(code),
            None => r matches Err(BindingError::UnknownKey { token }) && token@ == t@,
        },
{
    let chars = text::chars_of(t);
    let n: usize = chars.len();
    if n == 1 {
        let c = chars[0];
        if 'a' <= c && c <= 'z' {
            return Ok(letter_key(c));
        }
        if text::digit(c) {
            return Ok(digit_key(c));
        }
    }
    if n > 1 && chars[0] == 'f' && chars[1] != '0' && chars[1] != '+' {
        assert(chars@.subrange(1, n as int) == chars@.skip(1));
        match decimal::parse_u64(&chars, 1, n) {
            Some(number) => {
                if 1 <= number && number <= 24 {
                    return Ok(function_key(number));
                }
            },
            None => {},
        }
    }
    match named_key(t) {
        Some(code) => Ok(code),
        None => Err(BindingError::UnknownKey { token: t.to_owned() }),
    }
}

/// Read a binding from its lower-case tokens: the last is the key, those
/// before it are modifiers.
pub fn parse_tokens(tokens: &Vec<String>) -> (r: Result<(Modifiers, Code), BindingError>)
    requires
        tokens@.len() > 0,
    ensures
        binds(r, text::texts(tokens@)),
{
    let ghost ts = text::texts(tokens@);
    let last: usize = tokens.len() - 1;
    let mut modifiers = Modifiers::empty();
    let ghost front = ts.drop_last();
    assert(modifiers_of(front.take(0)) == Some(Modifiers::none()));
    for i in 0..last
        invariant
            last == tokens@.len() - 1,
            ts == text::texts(tokens@),
            front == ts.drop_last(),
            modifiers_of(front.take(i as int)) == Some(modifiers),
            forall|j: int| 0 <= j < i ==> modifier_of(#[trigger] front[j]) is Some,
    {
        assert(front.take(i + 1).drop_last() == front.take(i as int));
        assert(front[i as int] == tokens@[i as int]@);
        match parse_modifier_token(tokens[i].as_str()) {
            Ok(m) => {
                modifiers = modifiers.union(m);
            },
            Err(e) => {
                proof {
                    assert(first_bad(front, i as int));
                    bad_token_spoils_all(front, i as int);
                }
                return Err(e);
            },
        }
    }
    assert(front.take(last as int) == front);
    assert(ts.last() == tokens@[last as int]@);
    match parse_key_token(tokens[last].as_str()) {
        Ok(code) => Ok((modifiers, code)),
        Err(e) => Err(e),
    }
}

/// A list with a token that names no modifier has no modifiers.
proof fn bad_token_spoils_all(ts: Seq<Seq<char>>, i: int)
    requires
        0 <= i < ts.len(),
        modifier_of(ts[i]) is None,
    ensures
        modifiers_of(ts) is None,
    decreases ts.len(),
{
    if i < ts.len() - 1 {
        bad_token_spoils_all(ts.drop_last(), i);
    }
}

/// The tokens of a binding: its parts in lower case.
pub open spec fn tokens_of(s: Seq<char>) -> Seq<Seq<char>> {
    parts(s).map_values(|p: Seq<char>| text::lowercase(p))
}

/// Parse a binding such as `ctrl+alt+space`. Tokens are separated by `+`; the
/// last one is the key, those before it are modifiers. Letter case and white
/// space around a token do not matter.
pub fn parse_binding(s: &str) -> (r: Result<(Modifiers, Code), BindingError>)
    ensures
        has_empty_part(s@) ==> (r matches Err(BindingError::EmptyToken { binding }) && binding@
            == s@),
        !has_empty_part(s@) ==> binds(r, tokens_of(s@)),
        !has_empty_part(s@) && text::is_ascii(s@) ==> binds(r, parts(text::lowered(s@))),
{
    let pieces = text::split_on(s, '+');
    let n: usize = pieces.len();
    let mut lower: Vec<String> = Vec::new();
    for i in 0..n
        invariant
            n == pieces@.len(),
            text::texts(pieces@) == text::split(s@, '+'),
            text::texts(lower@) == tokens_of(s@).take(i as int),
            forall|j: int| 0 <= j < i ==> (#[trigger] parts(s@)[j]).len() > 0,
            text::is_ascii(s@) ==> text::texts(lower@) == parts(text::lowered(s@)).take(i as int),
    {
        let part = text::trim(pieces[i].as_str());
        assert(text::texts(pieces@)[i as int] == pieces@[i as int]@);
        assert(parts(s@)[i as int] == part@);
        if part.as_str().is_empty() {
            return Err(BindingError::EmptyToken { binding: s.to_owned() });
        }
        let low = part.as_str().to_lowercase();
        let ghost before = lower@;
        lower.push(low);
        assert(text::texts(lower@) =~= text::texts(before).push(low@));
        assert(tokens_of(s@).take(i + 1) =~= tokens_of(s@).take(i as int).push(low@));
        proof {
            if text::is_ascii(s@) {
                part_of_ascii(s@, i as int);
                parts_keep_case(s@);
                assert(parts(text::lowered(s@)).take(i + 1) =~= parts(text::lowered(s@)).take(
                    i as int,
                ).push(low@));
            }
        }
    }
    proof {
        assert(text::texts(lower@) =~= tokens_of(s@));
        parts_keep_case(s@);
        if text::is_ascii(s@) {
            assert(text::texts(lower@) =~= parts(text::lowered(s@)));
        }
        assert(text::texts(lower@).len() == lower@.len());
    }
    parse_tokens(&lower)
}

/// The parts of a binding in small letters are its parts, in small letters.
proof fn parts_keep_case(s: Seq<char>)
    ensures
        parts(text::lowered(s)) == parts(s).map_values(|p: Seq<char>| text::lowered(p)),
{
    text::split_keeps_case(s, '+');
    assert forall|i: int| 0 <= i < parts(s).len() implies #[trigger] parts(text::lowered(s))[i]
        == text::lowered(parts(s)[i]) by {
        text::trim_keeps_case(text::split(s, '+')[i]);
    }
    assert(parts(text::lowered(s)) =~= parts(s).map_values(|p: Seq<char>| text::lowered(p)));
}

/// A part of an ASCII binding is ASCII.
proof fn part_of_ascii(s: Seq<char>, i: int)
    requires
        text::is_ascii(s),
        0 <= i < parts(s).len(),
    ensures
        text::is_ascii(parts(s)[i]),
{
    text::split_keeps_ascii(s, '+', i);
    text::trim_keeps_ascii(text::split(s, '+')[i]);
}

// ---------------------------------------------------------------------------
// Laws
// ---------------------------------------------------------------------------

/// Letter case does not matter: bindings that differ in it alone have the same
/// tokens, and the same parts are empty.
pub proof fn binding_ignores_case(a: Seq<char>, b: Seq<char>)
    requires
        text::lowered(a) == text::lowered(b),
    ensures
        parts(text::lowered(a)) == parts(text::lowered(b)),
        has_empty_part(a) == has_empty_part(b),
{
    parts_keep_case(a);
    parts_keep_case(b);
    assert(parts(text::lowered(a)).len() == parts(a).len());
    assert(parts(text::lowered(b)).len() == parts(b).len());
    assert forall|i: int| 0 <= i < parts(a).len() implies (#[trigger] parts(a)[i]).len()
        == parts(b)[i].len() by {
        assert(parts(text::lowered(a))[i] == text::lowered(parts(a)[i]));
        assert(parts(text::lowered(b))[i] == text::lowered(parts(b)[i]));
        assert(text::lowered(parts(a)[i]).len() == parts(a)[i].len());
        assert(text::lowered(parts(b)[i]).len() == parts(b)[i].len());
    }
    assert(has_empty_part(a) ==> has_empty_part(b)) by {
        if has_empty_part(a) {
            let i = choose|i: int| 0 <= i < parts(a).len() && (#[trigger] parts(a)[i]).len() == 0;
            assert(parts(b)[i].len() == 0);
        }
    }
    assert(has_empty_part(b) ==> has_empty_part(a)) by {
        if has_empty_part(b) {
            let i = choose|i: int| 0 <= i < parts(b).len() && (#[trigger] parts(b)[i]).len() == 0;
            assert(parts(a)[i].len() == 0);
        }
    }
}

/// Every function key from 1 to 24 is reached by its canonical name, and a
/// leading zero is never accepted.
pub proof fn function_keys_are_canonical(n: nat, t: Seq<char>)
    requires
        1 <= n <= 24,
    ensures
        code_of(seq!['f'] + decimal::numeral(n)) == Some(function_code(n)),
        t.len() > 2 && t[0] == 'f' && t[1] == '0' ==> code_of(t) is None,
{
    decimal::numeral_reads_back(n);
    decimal::numeral_has_no_leading_zero(n);
    let name = seq!['f'] + decimal::numeral(n);
    assert(name.skip(1) =~= decimal::numeral(n));
    assert(name[1] == decimal::numeral(n)[0]);
    if t.len() > 2 && t[0] == 'f' && t[1] == '0' {
        reveal_strlit("space");
        reveal_strlit("enter");
        reveal_strlit("return");
        reveal_strlit("tab");
        reveal_strlit("escape");
        reveal_strlit("esc");
        reveal_strlit("backspace");
        reveal_strlit("up");
        reveal_strlit("down");
        reveal_strlit("left");
        reveal_strlit("right");
        assert("space"@[0] == 's' && "enter"@[0] == 'e' && "return"@[0] == 'r');
        assert("tab"@[0] == 't' && "escape"@[0] == 'e' && "esc"@[0] == 'e');
        assert("backspace"@[0] == 'b' && "up"@[0] == 'u' && "down"@[0] == 'd');
        assert("left"@[0] == 'l' && "right"@[0] == 'r');
    }
}

/// Different function keys have different codes.
pub proof fn function_keys_are_distinct(a: nat, b: nat)
    requires
        1 <= a <= 24,
        1 <= b <= 24,
        function_code(a) == function_code(b),
    ensures
        a == b,
{
}

/// Each letter and each digit names the key of that very letter or digit.
pub proof fn letters_and_digits_name_their_keys()
    ensures
        code_of(seq!['a']) == Some(Code::KeyA),
        code_of(seq!['b']) == Some(Code::KeyB),
        code_of(seq!['c']) == Some(Code::KeyC),
        code_of(seq!['d']) == Some(Code::KeyD),
        code_of(seq!['e']) == Some(Code::KeyE),
        code_of(seq!['f']) == Some(Code::KeyF),
        code_of(seq!['g']) == Some(Code::KeyG),
        code_of(seq!['h']) == Some(Code::KeyH),
        code_of(seq!['i']) == Some(Code::KeyI),
        code_of(seq!['j']) == Some(Code::KeyJ),
        code_of(seq!['k']) == Some(Code::KeyK),
        code_of(seq!['l']) == Some(Code::KeyL),
        code_of(seq!['m']) == Some(Code::KeyM),
        code_of(seq!['n']) == Some(Code::KeyN),
        code_of(seq!['o']) == Some(Code::KeyO),
        code_of(seq!['p']) == Some(Code::KeyP),
        code_of(seq!['q']) == Some(Code::KeyQ),
        code_of(seq!['r']) == Some(Code::KeyR),
        code_of(seq!['s']) == Some(Code::KeyS),
        code_of(seq!['t']) == Some(Code::KeyT),
        code_of(seq!['u']) == Some(Code::KeyU),
        code_of(seq!['v']) == Some(Code::KeyV),
        code_of(seq!['w']) == Some(Code::KeyW),
        code_of(seq!['x']) == Some(Code::KeyX),
        code_of(seq!['y']) == Some(Code::KeyY),
        code_of(seq!['z']) == Some(Code::KeyZ),
        code_of(seq!['0']) == Some(Code::Digit0),
        code_of(seq!['1']) == Some(Code::Digit1),
        code_of(seq!['2']) == Some(Code::Digit2),
        code_of(seq!['3']) == Some(Code::Digit3),
        code_of(seq!['4']) == Some(Code::Digit4),
        code_of(seq!['5']) == Some(Code::Digit5),
        code_of(seq!['6']) == Some(Code::Digit6),
        code_of(seq!['7']) == Some(Code::Digit7),
        code_of(seq!['8']) == Some(Code::Digit8),
        code_of(seq!['9']) == Some(Code::Digit9),
{
}

proof fn one_digit_name(c: char, n: nat)
    requires
        '1' <= c <= '9',
        n == c as u32 - '0' as u32,
    ensures
        code_of(seq!['f', c]) == Some(function_code(n)),
{
    let t = seq!['f', c];
    decimal::numerals_are_decimal(Seq::empty(), c);
    assert(t.skip(1) =~= seq![c]);
    assert(t.len() == 2 && t[0] == 'f' && t[1] == c);
}

proof fn two_digit_name(c: char, d: char, n: nat)
    requires
        '1' <= c <= '2',
        '0' <= d <= '9',
        n == 10 * (c as u32 - '0' as u32) + (d as u32 - '0' as u32),
        n <= 24,
    ensures
        code_of(seq!['f', c, d]) == Some(function_code(n)),
{
    let t = seq!['f', c, d];
    decimal::numerals_are_decimal(Seq::empty(), c);
    decimal::numerals_are_decimal(seq![c], d);
    assert(t.skip(1) =~= seq![c].push(d));
    assert(t.len() == 3 && t[0] == 'f' && t[1] == c);
}

/// Each function key has its own number.
pub proof fn function_keys_have_their_numbers()
    ensures
        code_of(seq!['f', '1']) == Some(Code::F1),
        code_of(seq!['f', '2']) == Some(Code::F2),
        code_of(seq!['f', '3']) == Some(Code::F3),
        code_of(seq!['f', '4']) == Some(Code::F4),
        code_of(seq!['f', '5']) == Some(Code::F5),
        code_of(seq!['f', '6']) == Some(Code::F6),
        code_of(seq!['f', '7']) == Some(Code::F7),
        code_of(seq!['f', '8']) == Some(Code::F8),
        code_of(seq!['f', '9']) == Some(Code::F9),
        code_of(seq!['f', '1', '0']) == Some(Code::F10),
        code_of(seq!['f', '1', '1']) == Some(Code::F11),
        code_of(seq!['f', '1', '2']) == Some(Code::F12),
        code_of(seq!['f', '1', '3']) == Some(Code::F13),
        code_of(seq!['f', '1', '4']) == Some(Code::F14),
        code_of(seq!['f', '1', '5']) == Some(Code::F15),
        code_of(seq!['f', '1', '6']) == Some(Code::F16),
        code_of(seq!['f', '1', '7']) == Some(Code::F17),
        code_of(seq!['f', '1', '8']) == Some(Code::F18),
        code_of(seq!['f', '1', '9']) == Some(Code::F19),
        code_of(seq!['f', '2', '0']) == Some(Code::F20),
        code_of(seq!['f', '2', '1']) == Some(Code::F21),
        code_of(seq!['f', '2', '2']) == Some(Code::F22),
        code_of(seq!['f', '2', '3']) == Some(Code::F23),
        code_of(seq!['f', '2', '4']) == Some(Code::F24),
{
    one_digit_name('1', 1);
    one_digit_name('2', 2);
    one_digit_name('3', 3);
    one_digit_name('4', 4);
    one_digit_name('5', 5);
    one_digit_name('6', 6);
    one_digit_name('7', 7);
    one_digit_name('8', 8);
    one_digit_name('9', 9);
    two_digit_name('1', '0', 10);
    two_digit_name('1', '1', 11);
    two_digit_name('1', '2', 12);
    two_digit_name('1', '3', 13);
    two_digit_name('1', '4', 14);
    two_digit_name('1', '5', 15);
    two_digit_name('1', '6', 16);
    two_digit_name('1', '7', 17);
    two_digit_name('1', '8', 18);
    two_digit_name('1', '9', 19);
    two_digit_name('2', '0', 20);
    two_digit_name('2', '1', 21);
    two_digit_name('2', '2', 22);
    two_digit_name('2', '3', 23);
    two_digit_name('2', '4', 24);
}

/// The keys that have a name, by their names.
pub proof fn keys_have_their_names()
    ensures
        code_of("space"@) == Some(Code::Space),
        code_of("enter"@) == Some(Code::Enter),
        code_of("return"@) == Some(Code::Enter),
        code_of("tab"@) == Some(Code::Tab),
        code_of("escape"@) == Some(Code::Escape),
        code_of("esc"@) == Some(Code::Escape),
        code_of("backspace"@) == Some(Code::Backspace),
        code_of("up"@) == Some(Code::ArrowUp),
        code_of("down"@) == Some(Code::ArrowDown),
        code_of("left"@) == Some(Code::ArrowLeft),
        code_of("right"@) == Some(Code::ArrowRight),
{
    reveal_strlit("space");
    reveal_strlit("enter");
    reveal_strlit("return");
    reveal_strlit("tab");
    reveal_strlit("escape");
    reveal_strlit("esc");
    reveal_strlit("backspace");
    reveal_strlit("up");
    reveal_strlit("down");
    reveal_strlit("left");
    reveal_strlit("right");
    assert("space"@.len() == 5 && "space"@[0] == 's' && "space"@[1] == 'p');
    assert("enter"@.len() == 5 && "enter"@[0] == 'e' && "enter"@[1] == 'n');
    assert("return"@.len() == 6 && "return"@[0] == 'r' && "return"@[1] == 'e');
    assert("tab"@.len() == 3 && "tab"@[0] == 't' && "tab"@[1] == 'a');
    assert("escape"@.len() == 6 && "escape"@[0] == 'e' && "escape"@[1] == 's');
    assert("esc"@.len() == 3 && "esc"@[0] == 'e' && "esc"@[1] == 's');
    assert("backspace"@.len() == 9 && "backspace"@[0] == 'b' && "backspace"@[1] == 'a');
    assert("up"@.len() == 2 && "up"@[0] == 'u' && "up"@[1] == 'p');
    assert("down"@.len() == 4 && "down"@[0] == 'd' && "down"@[1] == 'o');
    assert("left"@.len() == 4 && "left"@[0] == 'l' && "left"@[1] == 'e');
    assert("right"@.len() == 5 && "right"@[0] == 'r' && "right"@[1] == 'i');
}

/// Nothing else names a key: a key's token is a small letter, a digit, a function
/// key from 1 to 24, or one of the names.
pub proof fn other_tokens_name_no_key(t: Seq<char>)
    requires
        code_of(t) is Some,
    ensures
        ({
            ||| t.len() == 1 && ('a' <= t[0] <= 'z' || '0' <= t[0] <= '9')
            ||| t.len() > 1 && t[0] == 'f' && t[1] != '0' && decimal::is_numeral(t.skip(1)) && 1
                <= decimal::value(t.skip(1)) <= 24
            ||| t == "space"@
            ||| t == "enter"@
            ||| t == "return"@
            ||| t == "tab"@
            ||| t == "escape"@
            ||| t == "esc"@
            ||| t == "backspace"@
            ||| t == "up"@
            ||| t == "down"@
            ||| t == "left"@
            ||| t == "right"@
        }),
{
}

/// The modifiers by their names; nothing else names one.
pub proof fn modifiers_have_their_names(t: Seq<char>)
    ensures
        modifier_of(t) is Some <==> t == "ctrl"@ || t == "control"@ || t == "alt"@ || t == "shift"@
            || t == "super"@ || t == "meta"@,
        modifier_of(t) matches Some(m) ==> {
            &&& m.control <==> t == "ctrl"@ || t == "control"@
            &&& m.alt <==> t == "alt"@
            &&& m.shift <==> t == "shift"@
            &&& m.meta <==> t == "super"@ || t == "meta"@
        },
{
    reveal_strlit("ctrl");
    reveal_strlit("control");
    reveal_strlit("alt");
    reveal_strlit("shift");
    reveal_strlit("super");
    reveal_strlit("meta");
    assert("ctrl"@[0] == 'c' && "control"@[0] == 'c' && "alt"@[0] == 'a');
    assert("shift"@[0] == 's' && "super"@[0] == 's' && "meta"@[0] == 'm');
    assert("shift"@[1] == 'h' && "super"@[1] == 'u');
}

/// Whether one of the tokens is `name`.
pub open spec fn has_token(ts: Seq<Seq<char>>, name: Seq<char>) -> bool {
    exists|i: int| 0 <= i < ts.len() && #[trigger] ts[i] == name
}

proof fn has_token_of(ts: Seq<Seq<char>>, name: Seq<char>)
    requires
        ts.len() > 0,
    ensures
        has_token(ts, name) <==> has_token(ts.drop_last(), name) || ts.last() == name,
{
    if has_token(ts, name) {
        let i = choose|i: int| 0 <= i < ts.len() && #[trigger] ts[i] == name;
        if i < ts.len() - 1 {
            assert(ts.drop_last()[i] == name);
        }
    }
    if has_token(ts.drop_last(), name) {
        let i = choose|i: int|
            0 <= i < ts.drop_last().len() && #[trigger] ts.drop_last()[i] == name;
        assert(ts[i] == name);
    }
    if ts.last() == name {
        assert(ts[ts.len() - 1] == name);
    }
}

/// A list of modifiers holds a modifier exactly where one of its tokens names it,
/// in whatever order and however often.
pub proof fn modifiers_are_those_named(ts: Seq<Seq<char>>)
    requires
        modifiers_of(ts) is Some,
    ensures
        ({
            let m = modifiers_of(ts)->0;
            &&& m.control <==> has_token(ts, "ctrl"@) || has_token(ts, "control"@)
            &&& m.alt <==> has_token(ts, "alt"@)
            &&& m.shift <==> has_token(ts, "shift"@)
            &&& m.meta <==> has_token(ts, "super"@) || has_token(ts, "meta"@)
        }),
    decreases ts.len(),
{
    if ts.len() > 0 {
        modifiers_are_those_named(ts.drop_last());
        modifiers_have_their_names(ts.last());
        has_token_of(ts, "ctrl"@);
        has_token_of(ts, "control"@);
        has_token_of(ts, "alt"@);
        has_token_of(ts, "shift"@);
        has_token_of(ts, "super"@);
        has_token_of(ts, "meta"@);
    }
}

/// A list of modifiers is refused exactly where one of its tokens names none.
pub proof fn all_tokens_must_be_modifiers(ts: Seq<Seq<char>>)
    ensures
        modifiers_of(ts) is None <==> exists|i: int|
            0 <= i < ts.len() && modifier_of(#[trigger] ts[i]) is None,
    decreases ts.len(),
{
    if ts.len() > 0 {
        let front = ts.drop_last();
        all_tokens_must_be_modifiers(front);
        if modifiers_of(ts) is None {
            if modifiers_of(front) is None {
                let i = choose|i: int| 0 <= i < front.len() && modifier_of(#[trigger] front[i]) is None;
                assert(ts[i] == front[i]);
            } else {
                assert(modifier_of(ts[ts.len() - 1]) is None);
            }
        }
        if exists|i: int| 0 <= i < ts.len() && modifier_of(#[trigger] ts[i]) is None {
            let i = choose|i: int| 0 <= i < ts.len() && modifier_of(#[trigger] ts[i]) is None;
            bad_token_spoils_all(ts, i);
        }
    }
}

/// What a binding means: its last part, in small letters, is the key, and each part
/// before it names one of the modifiers.
pub proof fn bindings_mean_what_they_say(s: &str, r: Result<(Modifiers, Code), BindingError>)
    requires
        call_ensures(parse_binding, (s,), r),
        text::is_ascii(s@),
        r is Ok,
    ensures
        ({
            let pieces = text::split(text::lowered(s@), '+');
            let tokens = Seq::new(pieces.len(), |i: int| text::trimmed(pieces[i]));
            let before = tokens.drop_last();
            let (m, code) = r->Ok_0;
            &&& text::glued(pieces, '+') == text::lowered(s@)
            &&& code_of(tokens.last()) == Some(code)
            &&& m.control <==> has_token(before, "ctrl"@) || has_token(before, "control"@)
            &&& m.alt <==> has_token(before, "alt"@)
            &&& m.shift <==> has_token(before, "shift"@)
            &&& m.meta <==> has_token(before, "super"@) || has_token(before, "meta"@)
        }),
{
    let low = text::lowered(s@);
    let pieces = text::split(low, '+');
    let tokens = Seq::new(pieces.len(), |i: int| text::trimmed(pieces[i]));
    text::split_cuts_at_separators(low, '+');
    assert(tokens =~= parts(low));
    assert(binds(r, tokens));
    modifiers_are_those_named(tokens.drop_last());
}

/// Which bindings are taken: those whose parts are all there, whose last part names
/// a key and whose other parts all name a modifier.
pub proof fn good_bindings_are_taken(s: &str, r: Result<(Modifiers, Code), BindingError>)
    requires
        call_ensures(parse_binding, (s,), r),
        text::is_ascii(s@),
    ensures
        ({
            let pieces = text::split(text::lowered(s@), '+');
            let tokens = Seq::new(pieces.len(), |i: int| text::trimmed(pieces[i]));
            let before = tokens.drop_last();
            r is Ok <==> {
                &&& forall|i: int| 0 <= i < tokens.len() ==> (#[trigger] tokens[i]).len() > 0
                &&& forall|i: int|
                    0 <= i < before.len() ==> modifier_of(#[trigger] before[i]) is Some
                &&& code_of(tokens.last()) is Some
            }
        }),
{
    let low = text::lowered(s@);
    let pieces = text::split(low, '+');
    let tokens = Seq::new(pieces.len(), |i: int| text::trimmed(pieces[i]));
    let before = tokens.drop_last();
    assert(tokens =~= parts(low));
    parts_keep_case(s@);
    assert(tokens.len() == parts(s@).len());
    assert forall|i: int| 0 <= i < tokens.len() implies (#[trigger] tokens[i]).len() == parts(
        s@,
    )[i].len() by {
        assert(tokens[i] == text::lowered(parts(s@)[i]));
    }
    if has_empty_part(s@) {
        let i = choose|i: int| 0 <= i < parts(s@).len() && (#[trigger] parts(s@)[i]).len() == 0;
        assert(tokens[i].len() == 0);
    } else {
        assert forall|i: int| 0 <= i < tokens.len() implies (#[trigger] tokens[i]).len() > 0 by {
            assert(parts(s@)[i].len() > 0);
        }
        assert(binds(r, tokens));
        all_tokens_must_be_modifiers(before);
    }
}

/// What is said of a binding that is none: the binding itself, or the part of it that
/// names nothing, between backticks.
pub proof fn refused_bindings_are_quoted(token: String)
    ensures
        (BindingError::EmptyToken { binding: token }).text()
            == "empty hotkey binding or empty `+`-separated token in `"@ + token@ + "`"@,
        ("Unknown hotkey modifier `"@ + token@ + "`. Valid modifiers: "@).is_prefix_of(
            (BindingError::UnknownModifier { token }).text(),
        ),
        ("Unknown hotkey key `"@ + token@ + "`. Valid keys: "@).is_prefix_of(
            (BindingError::UnknownKey { token }).text(),
        ),
{
    reveal_strlit("`. Valid modifiers: ");
    reveal_strlit("`. Valid keys: ");
    reveal_strlit("`. Valid modifiers: ctrl (alias: control), alt, shift, super (alias: meta).");
    reveal_strlit(
        "`. Valid keys: letters a-z, digits 0-9, space, enter (alias: return), tab, escape (alias: esc), backspace, f1-f24, arrow keys (up, down, left, right).",
    );
    let a = (BindingError::UnknownModifier { token }).text();
    let x = "Unknown hotkey modifier `"@ + token@ + "`. Valid modifiers: "@;
    assert(a.subrange(0, x.len() as int) =~= x);
    let b = (BindingError::UnknownKey { token }).text();
    let y = "Unknown hotkey key `"@ + token@ + "`. Valid keys: "@;
    assert(b.subrange(0, y.len() as int) =~= y);
}

/// Why a binding is refused: a part of it is empty; or a part before the last names no
/// modifier, and then the first such is told; or the last names no key, and then it is
/// told. The parts are told in small letters.
pub proof fn refused_bindings_have_a_reason(s: &str, r: Result<(Modifiers, Code), BindingError>)
    requires
        call_ensures(parse_binding, (s,), r),
    ensures
        r matches Err(BindingError::EmptyToken { binding }) ==> binding@ == s@,
        r matches Err(BindingError::EmptyToken { binding }) <==> exists|i: int|
            0 <= i < text::split(s@, '+').len() && text::blank(#[trigger] text::split(s@, '+')[i]),
        r matches Err(BindingError::UnknownModifier { token }) ==> exists|i: int| #[trigger]
            first_bad(tokens_of(s@).drop_last(), i) && token@ == tokens_of(s@)[i],
        r matches Err(BindingError::UnknownKey { token }) ==> token@ == tokens_of(s@).last()
            && code_of(token@) is None && forall|i: int|
            0 <= i < tokens_of(s@).len() - 1 ==> modifier_of(#[trigger] tokens_of(s@)[i]) is Some,
{
    let pieces = text::split(s@, '+');
    assert(parts(s@).len() == pieces.len());
    if has_empty_part(s@) {
        let i = choose|i: int| 0 <= i < parts(s@).len() && (#[trigger] parts(s@)[i]).len() == 0;
        assert(parts(s@)[i] == text::trimmed(pieces[i]));
        trimmed_away(pieces[i]);
        assert(text::blank(text::split(s@, '+')[i]));
    } else {
        assert forall|i: int| 0 <= i < pieces.len() implies !text::blank(
            #[trigger] text::split(s@, '+')[i],
        ) by {
            assert(parts(s@)[i] == text::trimmed(pieces[i]));
            assert(parts(s@)[i].len() > 0);
            trimmed_away(pieces[i]);
        }
        let front = tokens_of(s@).drop_last();
        if r matches Err(BindingError::UnknownKey { token }) {
            all_tokens_must_be_modifiers(front);
            assert forall|i: int| 0 <= i < tokens_of(s@).len() - 1 implies modifier_of(
                #[trigger] tokens_of(s@)[i],
            ) is Some by {
                assert(front[i] == tokens_of(s@)[i]);
            }
        }
    }
}

/// Trimming leaves nothing exactly of white space.
proof fn trimmed_away(s: Seq<char>)
    ensures
        text::trimmed(s).len() == 0 <==> text::blank(s),
{
    let (a, b) = text::trimming_cuts_white_space_only(s);
    if text::trimmed(s).len() == 0 {
        assert forall|i: int| 0 <= i < s.len() implies text::is_white(#[trigger] s[i]) by {
            if i < a {
                assert(text::is_white(s.take(a)[i]));
            } else {
                assert(text::is_white(s.skip(b)[i - b]));
            }
        }
    } else {
        assert(text::trimmed(s)[0] == s[a]);
    }
}

/// One token by itself: it is taken exactly where it names something, and else told.
pub proof fn single_tokens_are_judged(
    t: &str,
    modifier: Result<Modifiers, BindingError>,
    key: Result<Code, BindingError>,
)
    requires
        call_ensures(parse_modifier_token, (t,), modifier),
        call_ensures(parse_key_token, (t,), key),
    ensures
        modifier is Ok <==> modifier_of(t@) is Some,
        modifier matches Ok(m) ==> modifier_of(t@) == Some(m),
        modifier matches Err(e) ==> (e matches BindingError::UnknownModifier { token } && token@
            == t@),
        key is Ok <==> code_of(t@) is Some,
        key matches Ok(c) ==> code_of(t@) == Some(c),
        key matches Err(e) ==> (e matches BindingError::UnknownKey { token } && token@ == t@),
{
}

/// The modifiers of two lists together are those of both.
pub proof fn modifiers_add_up(a: Modifiers, b: Modifiers, r: Modifiers, none: Modifiers)
    requires
        call_ensures(Modifiers::union, (a, b), r),
        call_ensures(Modifiers::empty, (), none),
    ensures
        r.control <==> a.control || b.control,
        r.alt <==> a.alt || b.alt,
        r.shift <==> a.shift || b.shift,
        r.meta <==> a.meta || b.meta,
        !none.control && !none.alt && !none.shift && !none.meta,
{
}

/// The tokens of a binding are what stands between its plus signs, without the white
/// space around it and in lower case, of whatever alphabet.
pub proof fn tokens_are_lower_case(s: Seq<char>, i: int)
    requires
        0 <= i < text::split(s, '+').len(),
    ensures
        tokens_of(s).len() == text::split(s, '+').len(),
        tokens_of(s)[i] == text::lowercase(text::trimmed(text::split(s, '+')[i])),
{
}

/// What could have been written instead is told in full.
pub proof fn refusals_list_what_is_valid(token: String)
    ensures
        (BindingError::UnknownModifier { token }).text() == "Unknown hotkey modifier `"@ + token@
            + "`. Valid modifiers: ctrl (alias: control), alt, shift, super (alias: meta)."@,
        (BindingError::UnknownKey { token }).text() == "Unknown hotkey key `"@ + token@
            + "`. Valid keys: letters a-z, digits 0-9, space, enter (alias: return), tab, escape (alias: esc), backspace, f1-f24, arrow keys (up, down, left, right)."@,
{
}

/// The message of an error is its text, and two errors with the same text give the
/// same message.
pub proof fn messages_are_their_text(a: BindingError, b: BindingError, one: String, other: String)
    requires
        call_ensures(BindingError::message, (&a,), one),
        call_ensures(BindingError::message, (&b,), other),
    ensures
        one@ == a.text(),
        a.text() == b.text() <==> one@ == other@,
{
}

} // verus!
