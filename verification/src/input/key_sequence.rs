//! Parsing key bindings written as text, such as `"ctrl+shift+x z"`.

use vstd::prelude::*;
use crate::input::key::{key_text, no_modifiers, KeyChord, KeyCode, KeyModifiers};
use crate::text::{
    ascii_lower_seq, ascii_lowercase_chars, chars_eq, chars_of, debug_quoted, debug_text, split_whitespace, trim,
    trim_chars, words, ascii_lower, is_ws, trim_end, trim_start,
};

verus! {

/// Why a binding string failed to parse.
#[derive(Debug, Clone, PartialEq, Eq)]
pub enum ParseKeyError {
    /// The binding string was empty or contained no tokens.
    Empty,
    /// A token could not be recognised as a key; carries the token.
    UnknownKey(String),
}

/// An error as a plain value: `None` for `Empty`, the token for
/// `UnknownKey`.
pub open spec fn error_model(e: ParseKeyError) -> Option<Seq<char>> {
    match e {
        ParseKeyError::Empty => None,
        ParseKeyError::UnknownKey(t) => Some(t@),
    }
}

/// What an error says, given as [`error_model`] gives it.
pub open spec fn parse_error_text(e: Option<Seq<char>>) -> Seq<char> {
    match e {
        None => "empty key binding"@,
        Some(t) => "unrecognised key token: "@ + debug_text(t),
    }
}

impl ParseKeyError {
    /// The error as a sentence: `empty key binding`, or the unrecognised
    /// token quoted.
    pub fn message(&self) -> (r: String)
        ensures
            r@ == parse_error_text(error_model(*self)),
    {
        match self {
            ParseKeyError::Empty => String::from_str("empty key binding"),
            ParseKeyError::UnknownKey(token) => {
                let mut s = String::from_str("unrecognised key token: ");
                let quoted = debug_quoted(token.as_str());
                s.append(quoted.as_str());
                s
            },
        }
    }
}

/// A parse result as plain values.
pub open spec fn chords_result_model(r: Result<Vec<KeyChord>, ParseKeyError>) -> Result<
    Seq<KeyChord>,
    Option<Seq<char>>,
> {
    match r {
        Ok(v) => Ok(v@),
        Err(e) => Err(error_model(e)),
    }
}

/// The index of the first `c` in `s` at or after `i`, or `s.len()`.
pub open spec fn index_of_from(s: Seq<char>, c: char, i: int) -> int
    decreases s.len() - i,
{
    if i >= s.len() {
        s.len() as int
    } else if s[i] == c {
        i
    } else {
        index_of_from(s, c, i + 1)
    }
}

/// The index of the first `+` in `s`, or `s.len()` if there is none.
pub open spec fn first_plus(s: Seq<char>) -> int {
    index_of_from(s, '+', 0)
}

proof fn lemma_index_of_from(s: Seq<char>, c: char, i: int, k: int)
    requires
        0 <= i <= k <= s.len(),
        forall|j: int| i <= j < k ==> s[j] != c,
    ensures
        index_of_from(s, c, i) == index_of_from(s, c, k),
    decreases k - i,
{
    if i < k {
        lemma_index_of_from(s, c, i + 1, k);
    }
}

proof fn lemma_index_of_from_bounds(s: Seq<char>, c: char, i: int)
    requires
        0 <= i <= s.len(),
    ensures
        i <= index_of_from(s, c, i) <= s.len(),
    decreases s.len() - i,
{
    if i < s.len() && s[i] != c {
        lemma_index_of_from_bounds(s, c, i + 1);
    }
}

/// Which modifier a (case-insensitive) prefix names: 1 for Control
/// (`ctrl`, `control`, `c`), 2 for Alt (`alt`, `meta`, `m`), 3 for Shift
/// (`shift`, `s`), 0 for none.
pub open spec fn modifier_kind(p: Seq<char>) -> int {
    let l = ascii_lower_seq(p);
    if l == "ctrl"@ || l == "control"@ || l == "c"@ {
        1
    } else if l == "alt"@ || l == "meta"@ || l == "m"@ {
        2
    } else if l == "shift"@ || l == "s"@ {
        3
    } else {
        0
    }
}

/// `m` with the modifier of kind `kind` added.
pub open spec fn with_modifier(m: KeyModifiers, kind: int) -> KeyModifiers {
    if kind == 1 {
        KeyModifiers { control: true, ..m }
    } else if kind == 2 {
        KeyModifiers { alt: true, ..m }
    } else {
        KeyModifiers { shift: true, ..m }
    }
}

/// Strips leading `modifier+` prefixes from `key`, collecting them into `m`;
/// stops at the first prefix that names no modifier, or when no `+` is left.
pub open spec fn strip_modifiers(key: Seq<char>, m: KeyModifiers) -> (Seq<char>, KeyModifiers)
    decreases key.len(),
{
    let i = first_plus(key);
    if 0 <= i < key.len() {
        let k = modifier_kind(key.subrange(0, i));
        if k == 0 {
            (key, m)
        } else {
            strip_modifiers(key.subrange(i + 1, key.len() as int), with_modifier(m, k))
        }
    } else {
        (key, m)
    }
}

pub open spec fn is_digit(c: char) -> bool {
    '0' <= c && c <= '9'
}

/// The value of a string of decimal digits.
pub open spec fn digits_value(s: Seq<char>) -> int
    decreases s.len(),
{
    if s.len() == 0 {
        0
    } else {
        digits_value(s.drop_last()) * 10 + (s.last() as int - '0' as int)
    }
}

/// The digits part of a `u8` literal: the text after an optional `+`.
pub open spec fn u8_digits(s: Seq<char>) -> Seq<char> {
    if s.len() > 0 && s[0] == '+' {
        s.drop_first()
    } else {
        s
    }
}

/// Every character of `d` is a decimal digit.
pub open spec fn all_digits(d: Seq<char>) -> bool {
    forall|i: int| 0 <= i < d.len() ==> is_digit(#[trigger] d[i])
}

/// `u8`'s parse of a decimal string: an optional leading `+`, then at least
/// one digit, with a value below 256.
pub open spec fn parse_u8_spec(s: Seq<char>) -> Option<u8> {
    let d = u8_digits(s);
    if d.len() > 0 && all_digits(d) && digits_value(d) < 256 {
        Some(digits_value(d) as u8)
    } else {
        None
    }
}

/// The key a lowercased key name denotes: the named keys (`enter`, `tab`,
/// `esc`, `space`, arrows, `f1`…), otherwise a single character.
pub open spec fn named_key(t: Seq<char>) -> Option<KeyCode> {
    if t == "enter"@ || t == "return"@ {
        Some(KeyCode::Enter)
    } else if t == "tab"@ {
        Some(KeyCode::Tab)
    } else if t == "backtab"@ {
        Some(KeyCode::BackTab)
    } else if t == "esc"@ || t == "escape"@ {
        Some(KeyCode::Esc)
    } else if t == "backspace"@ || t == "bs"@ {
        Some(KeyCode::Backspace)
    } else if t == "space"@ {
        Some(KeyCode::Char(' '))
    } else if t == "up"@ {
        Some(KeyCode::Up)
    } else if t == "down"@ {
        Some(KeyCode::Down)
    } else if t == "left"@ {
        Some(KeyCode::Left)
    } else if t == "right"@ {
        Some(KeyCode::Right)
    } else if t == "home"@ {
        Some(KeyCode::Home)
    } else if t == "end"@ {
        Some(KeyCode::End)
    } else if t == "pageup"@ || t == "page_up"@ {
        Some(KeyCode::PageUp)
    } else if t == "pagedown"@ || t == "page_down"@ {
        Some(KeyCode::PageDown)
    } else if t == "delete"@ || t == "del"@ {
        Some(KeyCode::Delete)
    } else if t == "insert"@ || t == "ins"@ {
        Some(KeyCode::Insert)
    } else if t.len() > 1 && t[0] == 'f' {
        match parse_u8_spec(t.drop_first()) {
            Some(n) => Some(KeyCode::F(n)),
            None => None,
        }
    } else if t.len() == 1 {
        Some(KeyCode::Char(t[0]))
    } else {
        None
    }
}

/// The chord a single token denotes, if it denotes one: the token is
/// trimmed, modifier prefixes are collected, the rest is read
/// case-insensitively as a key name, and Shift+Tab is written `BackTab`.
pub open spec fn key_chord_spec(token: Seq<char>) -> Option<KeyChord> {
    let key = trim(token);
    if key.len() == 0 {
        None
    } else {
        let (rest, m) = strip_modifiers(key, no_modifiers());
        match named_key(ascii_lower_seq(rest)) {
            None => None,
            Some(code) => Some(
                if code == KeyCode::Tab && m.shift {
                    KeyChord { code: KeyCode::BackTab, modifiers: KeyModifiers { shift: false, ..m } }
                } else {
                    KeyChord { code, modifiers: m }
                },
            ),
        }
    }
}

/// What parsing one token gives: the chord, or the error as a plain value.
pub open spec fn key_result(token: Seq<char>) -> Result<KeyChord, Option<Seq<char>>> {
    if trim(token).len() == 0 {
        Err(None)
    } else {
        match key_chord_spec(token) {
            Some(k) => Ok(k),
            None => Err(Some(token)),
        }
    }
}

/// `s` split at every `+` (`str::split('+')`).
pub open spec fn split_plus(s: Seq<char>) -> Seq<Seq<char>>
    decreases s.len(),
{
    let i = first_plus(s);
    if 0 <= i < s.len() {
        seq![s.subrange(0, i)] + split_plus(s.subrange(i + 1, s.len() as int))
    } else {
        seq![s]
    }
}

/// Every part before the last names a modifier.
pub open spec fn is_modifier_sequence(parts: Seq<Seq<char>>) -> bool {
    forall|j: int| 0 <= j < parts.len() - 1 ==> modifier_kind(#[trigger] parts[j]) != 0
}

/// Each part parsed as a key, stopping at the first error.
pub open spec fn parts_result(parts: Seq<Seq<char>>) -> Result<Seq<KeyChord>, Option<Seq<char>>>
    decreases parts.len(),
{
    if parts.len() == 0 {
        Ok(Seq::empty())
    } else {
        match key_result(parts[0]) {
            Err(e) => Err(e),
            Ok(k) => match parts_result(parts.drop_first()) {
                Ok(ks) => Ok(seq![k] + ks),
                Err(e) => Err(e),
            },
        }
    }
}

/// A whitespace-free token of a binding: one chord (`ctrl+x`), or, when its
/// `+`-separated parts are not all modifiers but the last, one chord per part
/// (`a+b` is `a` then `b`); a part that does not parse makes the whole token
/// the unrecognised one.
pub open spec fn binding_token_result(token: Seq<char>) -> Result<Seq<KeyChord>, Option<Seq<char>>> {
    let parts = split_plus(token);
    if parts.len() <= 1 || is_modifier_sequence(parts) {
        match key_result(token) {
            Ok(k) => Ok(seq![k]),
            Err(e) => Err(e),
        }
    } else {
        match parts_result(parts) {
            Ok(ks) => Ok(ks),
            Err(_) => Err(Some(token)),
        }
    }
}

/// The tokens' chords in order, stopping at the first error.
pub open spec fn tokens_result(tokens: Seq<Seq<char>>) -> Result<Seq<KeyChord>, Option<Seq<char>>>
    decreases tokens.len(),
{
    if tokens.len() == 0 {
        Ok(Seq::empty())
    } else {
        match binding_token_result(tokens[0]) {
            Err(e) => Err(e),
            Ok(ks) => match tokens_result(tokens.drop_first()) {
                Ok(rest) => Ok(ks + rest),
                Err(e) => Err(e),
            },
        }
    }
}

/// What strict parsing of a whole binding gives: the chords of its
/// whitespace-separated tokens, the first token error, or `Empty` when there
/// are no chords.
pub open spec fn binding_result(binding: Seq<char>) -> Result<Seq<KeyChord>, Option<Seq<char>>> {
    match tokens_result(words(binding)) {
        Ok(ks) => if ks.len() == 0 {
            Err(None)
        } else {
            Ok(ks)
        },
        Err(e) => Err(e),
    }
}

/// The chords of the tokens that parse, the others dropped.
pub open spec fn lenient_chords(tokens: Seq<Seq<char>>) -> Seq<KeyChord>
    decreases tokens.len(),
{
    if tokens.len() == 0 {
        Seq::empty()
    } else {
        (match binding_token_result(tokens[0]) {
            Ok(ks) => ks,
            Err(_) => Seq::empty(),
        }) + lenient_chords(tokens.drop_first())
    }
}

fn is_lit(t: &[char], lit: &str) -> (r: bool)
    ensures
        r == (t@ == lit@),
{
    let l = chars_of(lit);
    chars_eq(t, l.as_slice())
}

/// The index of the first `+` in `s` from `from`, or `s.len()`.
fn find_plus(s: &[char], from: usize) -> (r: usize)
    requires
        from <= s@.len(),
    ensures
        from <= r <= s@.len(),
        r == index_of_from(s@, '+', from as int),
        forall|j: int| from <= j < r ==> s@[j] != '+',
        r < s@.len() ==> s@[r as int] == '+',
{
    let mut i = from;
    while i < s.len() && s[i] != '+'
        invariant
            from <= i <= s@.len(),
            forall|j: int| from <= j < i ==> s@[j] != '+',
        decreases s@.len() - i,
    {
        i = i + 1;
    }
    proof {
        lemma_index_of_from(s@, '+', from as int, i as int);
    }
    i
}

fn slice_vec(s: &[char], from: usize, to: usize) -> (r: Vec<char>)
    requires
        from <= to <= s@.len(),
    ensures
        r@ == s@.subrange(from as int, to as int),
{
    let mut out: Vec<char> = Vec::new();
    let mut k = from;
    while k < to
        invariant
            from <= k <= to <= s@.len(),
            out@ == s@.subrange(from as int, k as int),
        decreases to - k,
    {
        out.push(s[k]);
        k = k + 1;
        assert(out@ =~= s@.subrange(from as int, k as int));
    }
    out
}

fn modifier_kind_exec(p: &[char]) -> (r: u8)
    ensures
        r as int == modifier_kind(p@),
{
    let l = ascii_lowercase_chars(p);
    let t = l.as_slice();
    if is_lit(t, "ctrl") || is_lit(t, "control") || is_lit(t, "c") {
        1
    } else if is_lit(t, "alt") || is_lit(t, "meta") || is_lit(t, "m") {
        2
    } else if is_lit(t, "shift") || is_lit(t, "s") {
        3
    } else {
        0
    }
}

proof fn lemma_first_plus_shift(s: Seq<char>, start: int)
    requires
        0 <= start <= s.len(),
    ensures
        first_plus(s.subrange(start, s.len() as int)) == index_of_from(s, '+', start) - start,
{
    let t = s.subrange(start, s.len() as int);
    lemma_index_of_from_bounds(s, '+', start);
    let i = index_of_from(s, '+', start);
    lemma_index_of_from_first(s, '+', start);
    assert forall|j: int| 0 <= j < i - start implies t[j] != '+' by {
        assert(t[j] == s[j + start]);
    }
    lemma_index_of_from(t, '+', 0, i - start);
    if i < s.len() {
        assert(t[i - start] == s[i]);
    }
}

proof fn lemma_index_of_from_first(s: Seq<char>, c: char, i: int)
    requires
        0 <= i <= s.len(),
    ensures
        forall|j: int| i <= j < index_of_from(s, c, i) ==> s[j] != c,
        index_of_from(s, c, i) < s.len() ==> s[index_of_from(s, c, i)] == c,
    decreases s.len() - i,
{
    if i < s.len() && s[i] != c {
        lemma_index_of_from_first(s, c, i + 1);
    }
}

/// Collects modifier prefixes from `s[start..]`; returns the index where the
/// key name begins and the modifiers.
fn strip_modifiers_exec(s: &[char]) -> (r: (usize, KeyModifiers))
    ensures
        r.0 <= s@.len(),
        strip_modifiers(s@, no_modifiers()) == (s@.subrange(r.0 as int, s@.len() as int), r.1),
{
    let mut start: usize = 0;
    let mut m = KeyModifiers::empty();
    assert(s@.subrange(0, s@.len() as int) =~= s@);
    loop
        invariant
            start <= s@.len(),
            strip_modifiers(s@, no_modifiers()) == strip_modifiers(
                s@.subrange(start as int, s@.len() as int),
                m,
            ),
        decreases s@.len() - start,
    {
        let ghost key = s@.subrange(start as int, s@.len() as int);
        let i = find_plus(s, start);
        proof {
            lemma_first_plus_shift(s@, start as int);
        }
        if i >= s.len() {
            return (start, m);
        }
        let prefix = slice_vec(s, start, i);
        assert(prefix@ =~= key.subrange(0, i - start));
        let k = modifier_kind_exec(prefix.as_slice());
        if k == 0 {
            return (start, m);
        }
        if k == 1 {
            m.control = true;
        } else if k == 2 {
            m.alt = true;
        } else {
            m.shift = true;
        }
        assert(key.subrange(i - start + 1, key.len() as int) =~= s@.subrange(
            i + 1,
            s@.len() as int,
        ));
        start = i + 1;
    }
}

proof fn lemma_digits_value_push(s: Seq<char>, c: char)
    ensures
        digits_value(s.push(c)) == digits_value(s) * 10 + (c as int - '0' as int),
{
    assert(s.push(c).drop_last() =~= s);
}

proof fn lemma_digits_value_grows(s: Seq<char>, i: int)
    requires
        0 <= i <= s.len(),
        forall|j: int| 0 <= j < s.len() ==> is_digit(#[trigger] s[j]),
    ensures
        digits_value(s.take(i)) <= digits_value(s),
        digits_value(s.take(i)) >= 0,
    decreases s.len() - i,
{
    if i < s.len() {
        lemma_digits_value_grows(s, i + 1);
        assert(s.take(i + 1) =~= s.take(i).push(s[i]));
        lemma_digits_value_push(s.take(i), s[i]);
        assert(is_digit(s[i]));
        lemma_digits_nonneg(s.take(i));
    } else {
        assert(s.take(i) =~= s);
        lemma_digits_nonneg(s);
    }
}

proof fn lemma_digits_nonneg(s: Seq<char>)
    requires
        forall|j: int| 0 <= j < s.len() ==> is_digit(#[trigger] s[j]),
    ensures
        digits_value(s) >= 0,
    decreases s.len(),
{
    if s.len() > 0 {
        let t = s.drop_last();
        assert forall|j: int| 0 <= j < t.len() implies is_digit(#[trigger] t[j]) by {
            assert(t[j] == s[j]);
        }
        lemma_digits_nonneg(t);
        assert(is_digit(s[s.len() - 1]));
    }
}

/// `u8`'s parse of the decimal text `s`.
fn parse_u8(s: &[char]) -> (r: Option<u8>)
    ensures
        r == parse_u8_spec(s@),
{
    let start: usize = if s.len() > 0 && s[0] == '+' {
        1
    } else {
        0
    };
    let ghost d = s@.subrange(start as int, s@.len() as int);
    assert(d =~= u8_digits(s@));
    if start >= s.len() {
        return None;
    }
    let mut value: u32 = 0;
    let mut i = start;
    while i < s.len()
        invariant
            start < s@.len(),
            start <= i <= s@.len(),
            d == s@.subrange(start as int, s@.len() as int),
            d == u8_digits(s@),
            forall|j: int| 0 <= j < i - start ==> is_digit(#[trigger] d[j]),
            value == digits_value(d.take(i - start)),
            value < 256,
        decreases s@.len() - i,
    {
        let c = s[i];
        if !('0' <= c && c <= '9') {
            assert(!is_digit(d[i - start]));
            assert(parse_u8_spec(s@) is None);
            return None;
        }
        let digit = (c as u32) - ('0' as u32);
        proof {
            assert(d.take(i - start + 1) =~= d.take(i - start).push(c));
            lemma_digits_value_push(d.take(i - start), c);
        }
        let next = value * 10 + digit;
        if next >= 256 {
            proof {
                assert(d[i - start] == c);
                if all_digits(d) {
                    lemma_digits_value_grows(d, i - start + 1);
                    assert(digits_value(d) >= 256);
                }
                assert(parse_u8_spec(s@) is None);
            }
            return None;
        }
        value = next;
        i = i + 1;
    }
    assert(d.take(d.len() as int) =~= d);
    Some(value as u8)
}

fn named_key_exec(t: &[char]) -> (r: Option<KeyCode>)
    ensures
        r == named_key(t@),
{
    if is_lit(t, "enter") || is_lit(t, "return") {
        Some(KeyCode::Enter)
    } else if is_lit(t, "tab") {
        Some(KeyCode::Tab)
    } else if is_lit(t, "backtab") {
        Some(KeyCode::BackTab)
    } else if is_lit(t, "esc") || is_lit(t, "escape") {
        Some(KeyCode::Esc)
    } else if is_lit(t, "backspace") || is_lit(t, "bs") {
        Some(KeyCode::Backspace)
    } else if is_lit(t, "space") {
        Some(KeyCode::Char(' '))
    } else if is_lit(t, "up") {
        Some(KeyCode::Up)
    } else if is_lit(t, "down") {
        Some(KeyCode::Down)
    } else if is_lit(t, "left") {
        Some(KeyCode::Left)
    } else if is_lit(t, "right") {
        Some(KeyCode::Right)
    } else if is_lit(t, "home") {
        Some(KeyCode::Home)
    } else if is_lit(t, "end") {
        Some(KeyCode::End)
    } else if is_lit(t, "pageup") || is_lit(t, "page_up") {
        Some(KeyCode::PageUp)
    } else if is_lit(t, "pagedown") || is_lit(t, "page_down") {
        Some(KeyCode::PageDown)
    } else if is_lit(t, "delete") || is_lit(t, "del") {
        Some(KeyCode::Delete)
    } else if is_lit(t, "insert") || is_lit(t, "ins") {
        Some(KeyCode::Insert)
    } else if t.len() > 1 && t[0] == 'f' {
        let digits = slice_vec(t, 1, t.len());
        assert(digits@ =~= t@.drop_first());
        match parse_u8(digits.as_slice()) {
            Some(n) => Some(KeyCode::F(n)),
            None => None,
        }
    } else if t.len() == 1 {
        Some(KeyCode::Char(t[0]))
    } else {
        None
    }
}

/// Parse a single chord token such as `ctrl+s`, reporting an empty token or
/// an unrecognised one.
pub fn try_parse_key(token: &str) -> (r: Result<KeyChord, ParseKeyError>)
    ensures
        match r {
            Ok(k) => key_result(token@) == Ok::<KeyChord, Option<Seq<char>>>(k),
            Err(e) => key_result(token@) == Err::<KeyChord, Option<Seq<char>>>(error_model(e)),
        },
{
    let chars = chars_of(token);
    let key = trim_chars(chars.as_slice());
    if key.len() == 0 {
        return Err(ParseKeyError::Empty);
    }
    let (start, m) = strip_modifiers_exec(key.as_slice());
    let rest = slice_vec(key.as_slice(), start, key.len());
    let lower = ascii_lowercase_chars(rest.as_slice());
    match named_key_exec(lower.as_slice()) {
        None => Err(ParseKeyError::UnknownKey(token.to_string())),
        Some(code) => {
            if code == KeyCode::Tab && m.shift {
                Ok(KeyChord { code: KeyCode::BackTab, modifiers: KeyModifiers { shift: false, ..m } })
            } else {
                Ok(KeyChord { code, modifiers: m })
            }
        },
    }
}

/// Parse a single chord token, `None` when it is not recognised.
pub fn parse_key(token: &str) -> (r: Option<KeyChord>)
    ensures
        r == key_chord_spec(token@),
{
    match try_parse_key(token) {
        Ok(k) => Some(k),
        Err(_) => None,
    }
}

/// The `+`-separated parts of `s`.
fn split_plus_exec(s: &[char]) -> (r: Vec<Vec<char>>)
    ensures
        r@.map_values(|v: Vec<char>| v@) == split_plus(s@),
{
    let mut out: Vec<Vec<char>> = Vec::new();
    let mut start: usize = 0;
    assert(s@.subrange(0, s@.len() as int) =~= s@);
    loop
        invariant
            start <= s@.len(),
            out@.map_values(|v: Vec<char>| v@) + split_plus(
                s@.subrange(start as int, s@.len() as int),
            ) == split_plus(s@),
        decreases s@.len() - start,
    {
        let ghost rest = s@.subrange(start as int, s@.len() as int);
        let i = find_plus(s, start);
        proof {
            lemma_first_plus_shift(s@, start as int);
        }
        let piece = slice_vec(s, start, i);
        let ghost before = out@;
        out.push(piece);
        assert(out@.map_values(|v: Vec<char>| v@) =~= before.map_values(|v: Vec<char>| v@).push(
            piece@,
        ));
        if i >= s.len() {
            assert(piece@ =~= rest);
            assert(split_plus(rest) == seq![rest]);
            assert(out@.map_values(|v: Vec<char>| v@) =~= before.map_values(|v: Vec<char>| v@)
                + split_plus(rest));
            return out;
        }
        assert(piece@ =~= rest.subrange(0, i - start));
        assert(rest.subrange(i - start + 1, rest.len() as int) =~= s@.subrange(
            i + 1,
            s@.len() as int,
        ));
        assert(split_plus(rest) == seq![piece@] + split_plus(
            s@.subrange(i + 1, s@.len() as int),
        ));
        assert(out@.map_values(|v: Vec<char>| v@) + split_plus(
            s@.subrange(i + 1, s@.len() as int),
        ) =~= before.map_values(|v: Vec<char>| v@) + split_plus(rest));
        start = i + 1;
    }
}

fn string_of(chars: &[char]) -> (r: String)
    ensures
        r@ == chars@,
{
    crate::text::string_from_chars(chars)
}

/// One whitespace-free token of a binding, parsed strictly.
fn try_parse_binding_token(token: &str) -> (r: Result<Vec<KeyChord>, ParseKeyError>)
    ensures
        chords_result_model(r) == binding_token_result(token@),
{
    let chars = chars_of(token);
    let parts = split_plus_exec(chars.as_slice());
    let ghost pv = parts@.map_values(|v: Vec<char>| v@);
    let mut all_modifiers = true;
    if parts.len() > 1 {
        let mut j: usize = 0;
        let last = parts.len() - 1;
        while j < last
            invariant
                parts@.len() > 1,
                last == parts@.len() - 1,
                j <= last,
                pv == parts@.map_values(|v: Vec<char>| v@),
                all_modifiers == (forall|q: int| 0 <= q < j ==> modifier_kind(#[trigger] pv[q]) != 0),
            decreases parts@.len() - j,
        {
            let k = modifier_kind_exec(parts[j].as_slice());
            assert(pv[j as int] == parts@[j as int]@);
            if k == 0 {
                all_modifiers = false;
            }
            j = j + 1;
            assert(all_modifiers == (forall|q: int| 0 <= q < j ==> modifier_kind(#[trigger] pv[q]) != 0)) by {
                if !all_modifiers {
                    if k == 0 {
                        assert(modifier_kind(pv[j - 1]) == 0);
                    }
                }
            }
        }
    }
    if parts.len() <= 1 || all_modifiers {
        return match try_parse_key(token) {
            Ok(k) => {
                let mut v: Vec<KeyChord> = Vec::new();
                v.push(k);
                assert(v@ =~= seq![k]);
                Ok(v)
            },
            Err(e) => Err(e),
        };
    }
    let mut out: Vec<KeyChord> = Vec::new();
    let mut i: usize = 0;
    assert(pv.skip(0) =~= pv);
    assert(binding_token_result(token@) == match parts_result(pv) {
        Ok(ks) => Ok(ks),
        Err(_) => Err(Some(token@)),
    });
    while i < parts.len()
        invariant
            i <= parts@.len(),
            pv == parts@.map_values(|v: Vec<char>| v@),
            binding_token_result(token@) == match parts_result(pv) {
                Ok(ks) => Ok(ks),
                Err(_) => Err(Some(token@)),
            },
            parts_result(pv) == match parts_result(pv.skip(i as int)) {
                Ok(ks) => Ok(out@ + ks),
                Err(e) => Err(e),
            },
        decreases parts@.len() - i,
    {
        let text = string_of(parts[i].as_slice());
        proof {
            assert(pv.skip(i as int)[0] == parts@[i as int]@);
            assert(pv.skip(i as int).drop_first() =~= pv.skip(i + 1));
        }
        match try_parse_key(text.as_str()) {
            Ok(k) => {
                let ghost before = out@;
                out.push(k);
                proof {
                    match parts_result(pv.skip(i + 1)) {
                        Ok(ks) => {
                            assert(before + (seq![k] + ks) =~= out@ + ks);
                        },
                        Err(e) => {},
                    }
                }
            },
            Err(_) => {
                return Err(ParseKeyError::UnknownKey(token.to_string()));
            },
        }
        i = i + 1;
    }
    assert(pv.skip(parts@.len() as int) =~= Seq::<Seq<char>>::empty());
    assert(out@ + Seq::<KeyChord>::empty() =~= out@);
    Ok(out)
}

/// Parse a whitespace-separated chord sequence, reporting the first token
/// that does not parse, or `Empty` when there are no chords.
pub fn try_parse_binding(binding: &str) -> (r: Result<Vec<KeyChord>, ParseKeyError>)
    ensures
        chords_result_model(r) == binding_result(binding@),
{
    let chars = chars_of(binding);
    let tokens = split_whitespace(chars.as_slice());
    let ghost tv = tokens@.map_values(|v: Vec<char>| v@);
    assert(tv =~= words(binding@));
    let mut out: Vec<KeyChord> = Vec::new();
    let mut i: usize = 0;
    assert(tv.skip(0) =~= tv);
    assert(out@ + Seq::<KeyChord>::empty() =~= out@);
    while i < tokens.len()
        invariant
            i <= tokens@.len(),
            tv == tokens@.map_values(|v: Vec<char>| v@),
            tv == words(binding@),
            tokens_result(tv) == match tokens_result(tv.skip(i as int)) {
                Ok(ks) => Ok(out@ + ks),
                Err(e) => Err(e),
            },
        decreases tokens@.len() - i,
    {
        let text = string_of(tokens[i].as_slice());
        proof {
            assert(tv.skip(i as int)[0] == tokens@[i as int]@);
            assert(tv.skip(i as int).drop_first() =~= tv.skip(i + 1));
        }
        match try_parse_binding_token(text.as_str()) {
            Ok(ks) => {
                let ghost before = out@;
                let mut j: usize = 0;
                while j < ks.len()
                    invariant
                        j <= ks@.len(),
                        out@ == before + ks@.take(j as int),
                    decreases ks@.len() - j,
                {
                    out.push(ks[j]);
                    j = j + 1;
                    assert(out@ =~= before + ks@.take(j as int));
                }
                proof {
                    assert(ks@.take(ks@.len() as int) =~= ks@);
                    match tokens_result(tv.skip(i + 1)) {
                        Ok(rest) => {
                            assert(before + (ks@ + rest) =~= out@ + rest);
                        },
                        Err(e) => {},
                    }
                }
            },
            Err(e) => {
                return Err(e);
            },
        }
        i = i + 1;
    }
    assert(tv.skip(tokens@.len() as int) =~= Seq::<Seq<char>>::empty());
    assert(out@ + Seq::<KeyChord>::empty() =~= out@);
    if out.len() == 0 {
        return Err(ParseKeyError::Empty);
    }
    Ok(out)
}

/// Parse a whitespace-separated chord sequence, dropping every token that
/// does not parse.
pub fn parse_binding(binding: &str) -> (r: Vec<KeyChord>)
    ensures
        r@ == lenient_chords(words(binding@)),
{
    let chars = chars_of(binding);
    let tokens = split_whitespace(chars.as_slice());
    let ghost tv = tokens@.map_values(|v: Vec<char>| v@);
    assert(tv =~= words(binding@));
    let mut out: Vec<KeyChord> = Vec::new();
    let mut i: usize = 0;
    assert(tv.skip(0) =~= tv);
    while i < tokens.len()
        invariant
            i <= tokens@.len(),
            tv == tokens@.map_values(|v: Vec<char>| v@),
            lenient_chords(tv) == out@ + lenient_chords(tv.skip(i as int)),
        decreases tokens@.len() - i,
    {
        let text = string_of(tokens[i].as_slice());
        proof {
            assert(tv.skip(i as int)[0] == tokens@[i as int]@);
            assert(tv.skip(i as int).drop_first() =~= tv.skip(i + 1));
        }
        let ghost before = out@;
        match try_parse_binding_token(text.as_str()) {
            Ok(ks) => {
                let mut j: usize = 0;
                while j < ks.len()
                    invariant
                        j <= ks@.len(),
                        out@ == before + ks@.take(j as int),
                    decreases ks@.len() - j,
                {
                    out.push(ks[j]);
                    j = j + 1;
                    assert(out@ =~= before + ks@.take(j as int));
                }
                assert(ks@.take(ks@.len() as int) =~= ks@);
                assert(before + (ks@ + lenient_chords(tv.skip(i + 1))) =~= out@ + lenient_chords(
                    tv.skip(i + 1),
                ));
            },
            Err(_) => {
                assert(before + (Seq::<KeyChord>::empty() + lenient_chords(tv.skip(i + 1)))
                    =~= out@ + lenient_chords(tv.skip(i + 1)));
            },
        }
        i = i + 1;
    }
    assert(tv.skip(tokens@.len() as int) =~= Seq::<Seq<char>>::empty());
    assert(out@ + Seq::<KeyChord>::empty() =~= out@);
    out
}


/// A token without whitespace at either end and without `+` is read as the
/// key its lowercased text names, with no modifiers.
proof fn lemma_plain_token(s: Seq<char>)
    requires
        s.len() > 0,
        !is_ws(s[0]),
        !is_ws(s.last()),
        forall|j: int| 0 <= j < s.len() ==> s[j] != '+',
    ensures
        key_chord_spec(s) == (match named_key(ascii_lower_seq(s)) {
            None => None,
            Some(code) => Some(KeyChord { code, modifiers: no_modifiers() }),
        }),
{
    assert(trim_start(s) == s);
    assert(trim_end(s) == s);
    lemma_index_of_from(s, '+', 0, s.len() as int);
    assert(first_plus(s) == s.len());
}

/// Reading back the name a named key is displayed by gives that key, with
/// no modifiers: `Home` reads as the Home key, `PageUp` as Page Up, and so
/// on for every key that has a name of its own.
pub proof fn lemma_key_name_round_trip(code: KeyCode)
    requires
        code is Enter || code is Tab || code is BackTab || code is Backspace || code is Esc || code is Up
            || code is Down || code is Left || code is Right || code is Home || code is End || code is PageUp
            || code is PageDown || code is Delete || code is Insert,
    ensures
        key_chord_spec(key_text(code)) == Some(KeyChord { code, modifiers: no_modifiers() }),
        key_chord_spec(ascii_lower_seq(key_text(code))) == Some(KeyChord { code, modifiers: no_modifiers() }),
{
    let t = key_text(code);
    reveal_strlit("enter");
    reveal_strlit("return");
    reveal_strlit("tab");
    reveal_strlit("backtab");
    reveal_strlit("esc");
    reveal_strlit("escape");
    reveal_strlit("backspace");
    reveal_strlit("bs");
    reveal_strlit("space");
    reveal_strlit("up");
    reveal_strlit("down");
    reveal_strlit("left");
    reveal_strlit("right");
    reveal_strlit("home");
    reveal_strlit("end");
    reveal_strlit("pageup");
    reveal_strlit("page_up");
    reveal_strlit("pagedown");
    reveal_strlit("page_down");
    reveal_strlit("delete");
    reveal_strlit("del");
    reveal_strlit("insert");
    reveal_strlit("ins");
    match code {
        KeyCode::Enter => {
            reveal_strlit("Enter");
            assert(ascii_lower_seq(t) =~= "enter"@);
            assert(ascii_lower_seq("enter"@) =~= "enter"@);
        },
        KeyCode::Tab => {
            reveal_strlit("Tab");
            assert(ascii_lower_seq(t) =~= "tab"@);
            assert(ascii_lower_seq("tab"@) =~= "tab"@);
        },
        KeyCode::BackTab => {
            reveal_strlit("BackTab");
            assert(ascii_lower_seq(t) =~= "backtab"@);
            assert(ascii_lower_seq("backtab"@) =~= "backtab"@);
        },
        KeyCode::Backspace => {
            reveal_strlit("Backspace");
            assert(ascii_lower_seq(t) =~= "backspace"@);
            assert(ascii_lower_seq("backspace"@) =~= "backspace"@);
        },
        KeyCode::Esc => {
            reveal_strlit("Esc");
            assert(ascii_lower_seq(t) =~= "esc"@);
            assert(ascii_lower_seq("esc"@) =~= "esc"@);
        },
        KeyCode::Up => {
            reveal_strlit("Up");
            assert(ascii_lower_seq(t) =~= "up"@);
            assert(ascii_lower_seq("up"@) =~= "up"@);
        },
        KeyCode::Down => {
            reveal_strlit("Down");
            assert(ascii_lower_seq(t) =~= "down"@);
            assert(ascii_lower_seq("down"@) =~= "down"@);
        },
        KeyCode::Left => {
            reveal_strlit("Left");
            assert(ascii_lower_seq(t) =~= "left"@);
            assert(ascii_lower_seq("left"@) =~= "left"@);
        },
        KeyCode::Right => {
            reveal_strlit("Right");
            assert(ascii_lower_seq(t) =~= "right"@);
            assert(ascii_lower_seq("right"@) =~= "right"@);
        },
        KeyCode::Home => {
            reveal_strlit("Home");
            assert(ascii_lower_seq(t) =~= "home"@);
            assert(ascii_lower_seq("home"@) =~= "home"@);
        },
        KeyCode::End => {
            reveal_strlit("End");
            assert(ascii_lower_seq(t) =~= "end"@);
            assert(ascii_lower_seq("end"@) =~= "end"@);
        },
        KeyCode::PageUp => {
            reveal_strlit("PageUp");
            assert(ascii_lower_seq(t) =~= "pageup"@);
            assert(ascii_lower_seq("pageup"@) =~= "pageup"@);
        },
        KeyCode::PageDown => {
            reveal_strlit("PageDown");
            assert(ascii_lower_seq(t) =~= "pagedown"@);
            assert(ascii_lower_seq("pagedown"@) =~= "pagedown"@);
        },
        KeyCode::Delete => {
            reveal_strlit("Delete");
            assert(ascii_lower_seq(t) =~= "delete"@);
            assert(ascii_lower_seq("delete"@) =~= "delete"@);
        },
        KeyCode::Insert => {
            reveal_strlit("Insert");
            assert(ascii_lower_seq(t) =~= "insert"@);
            assert(ascii_lower_seq("insert"@) =~= "insert"@);
        },
        _ => {},
    }
    lemma_plain_token(t);
    lemma_plain_token(ascii_lower_seq(t));
}

/// The other names keys answer to read as those keys: `return` as Enter,
/// `escape` as Esc, `bs` as Backspace, `page_up`/`page_down`, `del` and
/// `ins`; and `space` as the space character.
pub proof fn lemma_key_aliases()
    ensures
        key_chord_spec("return"@) == Some(KeyChord { code: KeyCode::Enter, modifiers: no_modifiers() }),
        key_chord_spec("escape"@) == Some(KeyChord { code: KeyCode::Esc, modifiers: no_modifiers() }),
        key_chord_spec("bs"@) == Some(KeyChord { code: KeyCode::Backspace, modifiers: no_modifiers() }),
        key_chord_spec("page_up"@) == Some(KeyChord { code: KeyCode::PageUp, modifiers: no_modifiers() }),
        key_chord_spec("page_down"@) == Some(KeyChord { code: KeyCode::PageDown, modifiers: no_modifiers() }),
        key_chord_spec("del"@) == Some(KeyChord { code: KeyCode::Delete, modifiers: no_modifiers() }),
        key_chord_spec("ins"@) == Some(KeyChord { code: KeyCode::Insert, modifiers: no_modifiers() }),
        key_chord_spec("space"@) == Some(KeyChord { code: KeyCode::Char(' '), modifiers: no_modifiers() }),
{
    reveal_strlit("enter");
    reveal_strlit("return");
    reveal_strlit("tab");
    reveal_strlit("backtab");
    reveal_strlit("esc");
    reveal_strlit("escape");
    reveal_strlit("backspace");
    reveal_strlit("bs");
    reveal_strlit("space");
    reveal_strlit("up");
    reveal_strlit("down");
    reveal_strlit("left");
    reveal_strlit("right");
    reveal_strlit("home");
    reveal_strlit("end");
    reveal_strlit("pageup");
    reveal_strlit("page_up");
    reveal_strlit("pagedown");
    reveal_strlit("page_down");
    reveal_strlit("delete");
    reveal_strlit("del");
    reveal_strlit("insert");
    reveal_strlit("ins");
    assert(ascii_lower_seq("return"@) =~= "return"@);
    lemma_plain_token("return"@);
    assert(ascii_lower_seq("escape"@) =~= "escape"@);
    lemma_plain_token("escape"@);
    assert(ascii_lower_seq("bs"@) =~= "bs"@);
    lemma_plain_token("bs"@);
    assert(ascii_lower_seq("page_up"@) =~= "page_up"@);
    lemma_plain_token("page_up"@);
    assert(ascii_lower_seq("page_down"@) =~= "page_down"@);
    lemma_plain_token("page_down"@);
    assert(ascii_lower_seq("del"@) =~= "del"@);
    lemma_plain_token("del"@);
    assert(ascii_lower_seq("ins"@) =~= "ins"@);
    lemma_plain_token("ins"@);
    assert(ascii_lower_seq("space"@) =~= "space"@);
    lemma_plain_token("space"@);
}

/// A single character other than whitespace and `+` reads as that
/// character's key, lowercased, with no modifiers.
pub proof fn lemma_single_char_key(c: char)
    requires
        !is_ws(c),
        c != '+',
    ensures
        key_chord_spec(seq![c]) == Some(KeyChord { code: KeyCode::Char(ascii_lower(c)), modifiers: no_modifiers() }),
{
    reveal_strlit("enter");
    reveal_strlit("return");
    reveal_strlit("tab");
    reveal_strlit("backtab");
    reveal_strlit("esc");
    reveal_strlit("escape");
    reveal_strlit("backspace");
    reveal_strlit("bs");
    reveal_strlit("space");
    reveal_strlit("up");
    reveal_strlit("down");
    reveal_strlit("left");
    reveal_strlit("right");
    reveal_strlit("home");
    reveal_strlit("end");
    reveal_strlit("pageup");
    reveal_strlit("page_up");
    reveal_strlit("pagedown");
    reveal_strlit("page_down");
    reveal_strlit("delete");
    reveal_strlit("del");
    reveal_strlit("insert");
    reveal_strlit("ins");
    let t = seq![c];
    assert(ascii_lower_seq(t) =~= seq![ascii_lower(c)]);
    lemma_plain_token(t);
}

proof fn lemma_prefixed_token(p: Seq<char>, s: Seq<char>, kind: int)
    requires
        p.len() > 0,
        !is_ws(p[0]),
        forall|j: int| 0 <= j < p.len() ==> p[j] != '+',
        modifier_kind(p) == kind,
        kind != 0,
        s.len() > 0,
        !is_ws(s[0]),
        !is_ws(s.last()),
        forall|j: int| 0 <= j < s.len() ==> s[j] != '+',
    ensures
        key_chord_spec(p + seq!['+'] + s) == (match named_key(ascii_lower_seq(s)) {
            None => None,
            Some(code) => {
                let m = with_modifier(no_modifiers(), kind);
                Some(
                    if code == KeyCode::Tab && m.shift {
                        KeyChord { code: KeyCode::BackTab, modifiers: KeyModifiers { shift: false, ..m } }
                    } else {
                        KeyChord { code, modifiers: m }
                    },
                )
            },
        }),
{
    let k = p + seq!['+'] + s;
    let n = p.len() as int;
    assert(k[0] == p[0]);
    assert(k.last() == s.last());
    assert(trim_start(k) == k);
    assert(trim_end(k) == k);
    assert forall|j: int| 0 <= j < n implies k[j] != '+' by {
        assert(k[j] == p[j]);
    }
    lemma_index_of_from(k, '+', 0, n);
    assert(k[n] == '+');
    assert(first_plus(k) == n);
    assert(k.subrange(0, n) =~= p);
    assert(k.subrange(n + 1, k.len() as int) =~= s);
    lemma_index_of_from(s, '+', 0, s.len() as int);
    assert(first_plus(s) == s.len());
    let m = with_modifier(no_modifiers(), kind);
    assert(strip_modifiers(s, m) == (s, m));
    assert(strip_modifiers(k, no_modifiers()) == strip_modifiers(k.subrange(n + 1, k.len() as int), m));
    assert(strip_modifiers(k, no_modifiers()) == (s, m));
    assert(trim(k) == k);
}

/// A key written after `ctrl+`, `alt+` or `shift+` reads as that key with
/// Control, Alt or Shift held (Shift+Tab as BackTab without Shift); a key
/// name nothing answers to reads as nothing.
pub proof fn lemma_modifier_prefixes(s: Seq<char>)
    requires
        s.len() > 0,
        !is_ws(s[0]),
        !is_ws(s.last()),
        forall|j: int| 0 <= j < s.len() ==> s[j] != '+',
    ensures
        key_chord_spec("ctrl+"@ + s) == (match key_chord_spec(s) {
            None => None,
            Some(k) => Some(KeyChord { code: k.code, modifiers: KeyModifiers { control: true, ..no_modifiers() } }),
        }),
        key_chord_spec("alt+"@ + s) == (match key_chord_spec(s) {
            None => None,
            Some(k) => Some(KeyChord { code: k.code, modifiers: KeyModifiers { alt: true, ..no_modifiers() } }),
        }),
        key_chord_spec("shift+"@ + s) == (match key_chord_spec(s) {
            None => None,
            Some(k) => Some(
                if k.code == KeyCode::Tab {
                    KeyChord { code: KeyCode::BackTab, modifiers: no_modifiers() }
                } else {
                    KeyChord { code: k.code, modifiers: KeyModifiers { shift: true, ..no_modifiers() } }
                },
            ),
        }),
{
    reveal_strlit("ctrl+");
    reveal_strlit("alt+");
    reveal_strlit("shift+");
    reveal_strlit("ctrl");
    reveal_strlit("control");
    reveal_strlit("c");
    reveal_strlit("alt");
    reveal_strlit("meta");
    reveal_strlit("m");
    reveal_strlit("shift");
    reveal_strlit("s");
    lemma_plain_token(s);
    let pc = "ctrl"@;
    let pa = "alt"@;
    let ps = "shift"@;
    assert(ascii_lower_seq(pc) =~= pc);
    assert(ascii_lower_seq(pa) =~= pa);
    assert(ascii_lower_seq(ps) =~= ps);
    assert(modifier_kind(pc) == 1);
    assert(modifier_kind(pa) == 2);
    assert(modifier_kind(ps) == 3);
    assert("ctrl+"@ + s =~= pc + seq!['+'] + s);
    assert("alt+"@ + s =~= pa + seq!['+'] + s);
    assert("shift+"@ + s =~= ps + seq!['+'] + s);
    lemma_prefixed_token(pc, s, 1);
    lemma_prefixed_token(pa, s, 2);
    lemma_prefixed_token(ps, s, 3);
}

/// A binding's tokens are read in order: the chords of tokens followed by
/// more tokens are the first tokens' chords followed by the rest's, and the
/// first token that fails to parse is the error.
pub proof fn lemma_tokens_in_order(a: Seq<Seq<char>>, b: Seq<Seq<char>>)
    ensures
        tokens_result(a + b) == (match tokens_result(a) {
            Err(e) => Err(e),
            Ok(x) => match tokens_result(b) {
                Ok(y) => Ok(x + y),
                Err(e) => Err(e),
            },
        }),
    decreases a.len(),
{
    if a.len() == 0 {
        assert(a + b =~= b);
        if let Ok(y) = tokens_result(b) {
            assert(Seq::<KeyChord>::empty() + y =~= y);
        }
    } else {
        assert((a + b)[0] == a[0]);
        assert((a + b).drop_first() =~= a.drop_first() + b);
        lemma_tokens_in_order(a.drop_first(), b);
        if let Ok(ks) = binding_token_result(a[0]) {
            if let Ok(x) = tokens_result(a.drop_first()) {
                if let Ok(y) = tokens_result(b) {
                    assert(ks + (x + y) =~= (ks + x) + y);
                }
            }
        }
    }
}

/// A token without `+` and without whitespace at its ends is one chord: the
/// one it reads as, or, when it reads as none, the token is the error.
pub proof fn lemma_plain_token_binding(t: Seq<char>)
    requires
        t.len() > 0,
        !is_ws(t[0]),
        !is_ws(t.last()),
        forall|j: int| 0 <= j < t.len() ==> t[j] != '+',
    ensures
        tokens_result(seq![t]) == (match key_chord_spec(t) {
            Some(k) => Ok(seq![k]),
            None => Err(Some(t)),
        }),
{
    lemma_index_of_from(t, '+', 0, t.len() as int);
    assert(first_plus(t) == t.len());
    assert(split_plus(t) == seq![t]);
    assert(trim_start(t) == t);
    assert(trim_end(t) == t);
    assert(trim(t) == t);
    assert(seq![t].drop_first() =~= Seq::<Seq<char>>::empty());
    assert(tokens_result(seq![t].drop_first()) == Ok::<Seq<KeyChord>, Option<Seq<char>>>(Seq::empty()));
    assert(seq![t][0] == t);
    match key_chord_spec(t) {
        Some(k) => {
            assert(binding_token_result(t) == Ok::<Seq<KeyChord>, Option<Seq<char>>>(seq![k]));
            assert(seq![k] + Seq::<KeyChord>::empty() =~= seq![k]);
        },
        None => {
            assert(binding_token_result(t) == Err::<Seq<KeyChord>, Option<Seq<char>>>(Some(t)));
        },
    }
}

} // verus!
