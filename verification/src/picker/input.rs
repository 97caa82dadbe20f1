//! The picker's single-line search input, with `%scope` suggestions.
use vstd::prelude::*;
use crate::picker::state::PickerScope;
use crate::text::{
    chars_of, has_prefix, is_whitespace, is_ws, starts_with, string_from_chars, to_lowercase,
    unicode_lower,
};

verus! {

/// The position of the first line break at or after `i`, or the length.
pub open spec fn line_end(s: Seq<char>, i: int) -> int
    decreases s.len() - i,
{
    if i < 0 || i >= s.len() {
        s.len() as int
    } else if s[i] == '\n' || s[i] == '\r' {
        i
    } else {
        line_end(s, i + 1)
    }
}

/// The text up to its first line break: the picker input is one line.
pub open spec fn first_line(s: Seq<char>) -> Seq<char> {
    s.take(line_end(s, 0))
}

/// Where the whitespace-delimited word around position `i` begins.
pub open spec fn word_start(c: Seq<char>, i: int) -> int
    decreases i,
{
    if i <= 0 || i > c.len() {
        i
    } else if is_ws(c[i - 1]) {
        i
    } else {
        word_start(c, i - 1)
    }
}

/// Where the whitespace-delimited word around position `i` ends.
pub open spec fn word_end(c: Seq<char>, i: int) -> int
    decreases c.len() - i,
{
    if i < 0 || i >= c.len() {
        i
    } else if is_ws(c[i]) {
        i
    } else {
        word_end(c, i + 1)
    }
}

/// The `%scope` word being typed at `cursor_char`: the text from the word's
/// start to the cursor, and the word's range, when that text begins with `%`.
pub open spec fn scope_query_spec(value: Seq<char>, cursor_char: int) -> Option<
    (Seq<char>, int, int),
> {
    let cursor = if cursor_char < value.len() {
        cursor_char
    } else {
        value.len() as int
    };
    let start = word_start(value, cursor);
    let end = word_end(value, cursor);
    let typed = value.subrange(start, cursor);
    if typed.len() > 0 && typed[0] == '%' {
        Some((typed, start, end))
    } else {
        None
    }
}

pub open spec fn percent(t: Seq<char>) -> Seq<char> {
    seq!['%'] + t
}

/// `%token` or one of the scope's `%alias` forms begins with `q`.
pub open spec fn scope_offered(scope: PickerScope, q: Seq<char>) -> bool {
    ||| has_prefix(percent(scope.token@), q)
    ||| exists|i: int|
        0 <= i < scope.aliases@.len() && has_prefix(percent(#[trigger] scope.aliases@[i]@), q)
}

/// The suggestion for a scope: `(display, value to store)`, that is
/// `("%token  label", "%token ")`.
pub open spec fn scope_suggestion(scope: PickerScope) -> (Seq<char>, Seq<char>) {
    (percent(scope.token@) + seq![' ', ' '] + scope.label@, percent(scope.token@) + seq![' '])
}

/// The suggestions the scopes offer for the lowercased query `q`, in order.
pub open spec fn suggestions_spec(scopes: Seq<PickerScope>, q: Seq<char>) -> Seq<
    (Seq<char>, Seq<char>),
>
    decreases scopes.len(),
{
    if scopes.len() == 0 {
        Seq::empty()
    } else {
        let rest = suggestions_spec(scopes.drop_last(), q);
        if scope_offered(scopes.last(), q) {
            rest.push(scope_suggestion(scopes.last()))
        } else {
            rest
        }
    }
}

pub open spec fn pairs_view(s: Seq<(String, String)>) -> Seq<(Seq<char>, Seq<char>)> {
    s.map_values(|p: (String, String)| (p.0@, p.1@))
}

/// The text after accepting a suggestion that stores `replacement` over the
/// range `range` (clamped to the text; the whole text when absent), and the
/// cursor position after it.
pub open spec fn accepted_spec(value: Seq<char>, replacement: Seq<char>, range: Option<(usize, usize)>) -> (
    Seq<char>,
    int,
) {
    let len = value.len() as int;
    let (s0, e0) = match range {
        Some((a, b)) => (a as int, b as int),
        None => (0, len),
    };
    let start = if s0 < len {
        s0
    } else {
        len
    };
    let e1 = if e0 < len {
        e0
    } else {
        len
    };
    let end = if e1 < start {
        start
    } else {
        e1
    };
    (
        first_line(value.subrange(0, start) + replacement + value.subrange(end, len)),
        start + replacement.len(),
    )
}

fn first_line_text(chars: &[char]) -> (r: String)
    ensures
        r@ == first_line(chars@),
{
    let mut out: Vec<char> = Vec::new();
    let mut i: usize = 0;
    while i < chars.len() && chars[i] != '\n' && chars[i] != '\r'
        invariant
            i <= chars@.len(),
            out@ == chars@.take(i as int),
            line_end(chars@, 0) == line_end(chars@, i as int),
        decreases chars@.len() - i,
    {
        out.push(chars[i]);
        i = i + 1;
        assert(out@ =~= chars@.take(i as int));
    }
    string_from_chars(out.as_slice())
}

fn push_range(out: &mut Vec<char>, src: &[char], from: usize, to: usize)
    requires
        from <= to <= src@.len(),
    ensures
        final(out)@ == old(out)@ + src@.subrange(from as int, to as int),
{
    let mut i: usize = from;
    while i < to
        invariant
            from <= i <= to <= src@.len(),
            out@ == old(out)@ + src@.subrange(from as int, i as int),
        decreases to - i,
    {
        out.push(src[i]);
        i = i + 1;
        assert(out@ =~= old(out)@ + src@.subrange(from as int, i as int));
    }
}

/// The text of the picker's search field and the scopes it suggests.
#[derive(Debug, Clone, PartialEq, Eq)]
pub struct PickerInputProvider {
    value: String,
    scopes: Vec<PickerScope>,
    suggestion_scopes: Option<Vec<PickerScope>>,
}

impl Default for PickerInputProvider {
    fn default() -> (r: Self)
        ensures
            r.text_spec().len() == 0,
            r.scopes_spec().len() == 0,
            r.suggestion_scopes_spec() is None,
    {
        PickerInputProvider { value: String::new(), scopes: Vec::new(), suggestion_scopes: None }
    }
}

impl PickerInputProvider {
    pub closed spec fn text_spec(&self) -> Seq<char> {
        self.value@
    }

    pub closed spec fn scopes_spec(&self) -> Seq<PickerScope> {
        self.scopes@
    }

    pub closed spec fn suggestion_scopes_spec(&self) -> Option<Seq<PickerScope>> {
        match self.suggestion_scopes {
            Some(v) => Some(v@),
            None => None,
        }
    }

    /// The scopes suggestions are drawn from: the suggestion scopes when set,
    /// else all scopes.
    pub open spec fn active_spec(&self) -> Seq<PickerScope> {
        match self.suggestion_scopes_spec() {
            Some(s) => s,
            None => self.scopes_spec(),
        }
    }

    /// A provider holding the first line of `text` and no scopes.
    pub fn from_text(text: String) -> (r: Self)
        ensures
            r.text_spec() == first_line(text@),
            r.scopes_spec().len() == 0,
            r.suggestion_scopes_spec() is None,
    {
        let chars = chars_of(text.as_str());
        PickerInputProvider {
            value: first_line_text(chars.as_slice()),
            scopes: Vec::new(),
            suggestion_scopes: None,
        }
    }

    pub fn to_text(&self) -> (r: String)
        ensures
            r@ == self.text_spec(),
    {
        self.value.clone()
    }

    /// Replace the text with the first line of `text`.
    pub fn set_text(&mut self, text: String)
        ensures
            final(self).text_spec() == first_line(text@),
            final(self).scopes_spec() == old(self).scopes_spec(),
            final(self).suggestion_scopes_spec() == old(self).suggestion_scopes_spec(),
    {
        let chars = chars_of(text.as_str());
        self.value = first_line_text(chars.as_slice());
    }

    /// Replace the scopes; the suggestion scopes fall back to them.
    pub fn set_scopes(&mut self, scopes: Vec<PickerScope>)
        ensures
            final(self).text_spec() == old(self).text_spec(),
            final(self).scopes_spec() == scopes@,
            final(self).suggestion_scopes_spec() is None,
    {
        self.scopes = scopes;
        self.suggestion_scopes = None;
    }

    /// Suggest from `scopes` instead of all scopes; `None` restores all.
    pub fn set_suggestion_scopes(&mut self, scopes: Option<Vec<PickerScope>>)
        ensures
            final(self).text_spec() == old(self).text_spec(),
            final(self).scopes_spec() == old(self).scopes_spec(),
            final(self).suggestion_scopes_spec() == match scopes {
                Some(v) => Some(v@),
                None => None::<Seq<PickerScope>>,
            },
    {
        self.suggestion_scopes = scopes;
    }

    pub fn active_suggestion_scopes(&self) -> (r: &[PickerScope])
        ensures
            r@ == self.active_spec(),
    {
        match &self.suggestion_scopes {
            Some(v) => v.as_slice(),
            None => self.scopes.as_slice(),
        }
    }

    /// The input has one field.
    pub fn field_count(&self) -> (r: usize)
        ensures
            r == 1,
    {
        1
    }

    pub fn field_name(&self, index: usize) -> (r: &'static str)
        ensures
            r@ == "Search"@,
    {
        "Search"
    }

    /// The text of field `index`: the search text for the only field.
    pub fn field_value(&self, index: usize) -> (r: &str)
        ensures
            index == 0 ==> r@ == self.text_spec(),
            index != 0 ==> r@.len() == 0,
    {
        if index == 0 {
            self.value.as_str()
        } else {
            proof {
                reveal_strlit("");
            }
            ""
        }
    }

    /// Set the search text to the first line of `value`; other fields are
    /// ignored.
    pub fn set_field_value(&mut self, index: usize, value: String)
        ensures
            index == 0 ==> final(self).text_spec() == first_line(value@),
            index != 0 ==> final(self).text_spec() == old(self).text_spec(),
            final(self).scopes_spec() == old(self).scopes_spec(),
            final(self).suggestion_scopes_spec() == old(self).suggestion_scopes_spec(),
    {
        if index == 0 {
            self.set_text(value);
        }
    }

    /// Suggestions are offered in the search field when there is a scope to
    /// suggest.
    pub fn supports_suggestions(&self, field_index: usize) -> (r: bool)
        ensures
            r == (field_index == 0 && self.active_spec().len() > 0),
    {
        field_index == 0 && self.active_suggestion_scopes().len() > 0
    }

    /// The character that opens suggestions: `%` where suggestions are
    /// offered.
    pub fn suggestion_trigger(&self, field_index: usize) -> (r: Option<char>)
        ensures
            r == if field_index == 0 && self.active_spec().len() > 0 {
                Some('%')
            } else {
                None
            },
    {
        if self.supports_suggestions(field_index) {
            Some('%')
        } else {
            None
        }
    }

    /// The `%scope` word being typed at the cursor, with the range a chosen
    /// suggestion replaces.
    pub fn suggestion_query(&self, field_index: usize, cursor_char: usize) -> (r: Option<
        (String, (usize, usize)),
    >)
        ensures
            match scope_query_spec(self.text_spec(), cursor_char as int) {
                Some((typed, start, end)) => r matches Some((t, (s, e))) && t@ == typed && s
                    == start && e == end,
                None => r is None,
            },
    {
        let chars = chars_of(self.value.as_str());
        let cursor = if cursor_char < chars.len() {
            cursor_char
        } else {
            chars.len()
        };
        let ghost c = chars@;
        let mut start = cursor;
        while start > 0 && !is_whitespace(chars[start - 1])
            invariant
                start <= cursor <= c.len(),
                c == chars@,
                word_start(c, cursor as int) == word_start(c, start as int),
            decreases start,
        {
            start = start - 1;
        }
        let mut end = cursor;
        while end < chars.len() && !is_whitespace(chars[end])
            invariant
                cursor <= end <= c.len(),
                c == chars@,
                word_end(c, cursor as int) == word_end(c, end as int),
            decreases c.len() - end,
        {
            end = end + 1;
        }
        let mut typed: Vec<char> = Vec::new();
        push_range(&mut typed, chars.as_slice(), start, cursor);
        assert(typed@ =~= c.subrange(start as int, cursor as int));
        if typed.len() > 0 && typed[0] == '%' {
            Some((string_from_chars(typed.as_slice()), (start, end)))
        } else {
            None
        }
    }

    /// The scope suggestions for `query`, compared in lower case:
    /// `(display, value to store)` for each scope whose `%token` or an
    /// `%alias` begins with it.
    pub fn fetch_suggestions(&self, field_index: usize, query: &str) -> (r: Vec<(String, String)>)
        ensures
            pairs_view(r@) == suggestions_spec(self.active_spec(), unicode_lower(query@)),
    {
        let lowered = to_lowercase(query);
        let q = chars_of(lowered.as_str());
        let scopes = self.active_suggestion_scopes();
        let mut out: Vec<(String, String)> = Vec::new();
        let mut i: usize = 0;
        while i < scopes.len()
            invariant
                i <= scopes@.len(),
                q@ == unicode_lower(query@),
                pairs_view(out@) == suggestions_spec(scopes@.take(i as int), q@),
            decreases scopes@.len() - i,
        {
            let scope = &scopes[i];
            assert(scopes@.take(i + 1).drop_last() =~= scopes@.take(i as int));
            assert(scopes@.take(i + 1).last() == scopes@[i as int]);
            let mut token: Vec<char> = Vec::new();
            token.push('%');
            let token_chars = chars_of(scope.token.as_str());
            push_range(&mut token, token_chars.as_slice(), 0, token_chars.len());
            assert(token@ =~= percent(scope.token@));
            let token_match = starts_with(token.as_slice(), q.as_slice());
            let mut alias_match = false;
            let mut j: usize = 0;
            while j < scope.aliases.len() && !alias_match
                invariant
                    j <= scope.aliases@.len(),
                    !alias_match ==> forall|k: int|
                        0 <= k < j ==> !has_prefix(percent(#[trigger] scope.aliases@[k]@), q@),
                    alias_match ==> exists|k: int|
                        0 <= k < scope.aliases@.len() && has_prefix(
                            percent(#[trigger] scope.aliases@[k]@),
                            q@,
                        ),
                decreases scope.aliases@.len() - j,
            {
                let mut alias: Vec<char> = Vec::new();
                alias.push('%');
                let alias_chars = chars_of(scope.aliases[j].as_str());
                push_range(&mut alias, alias_chars.as_slice(), 0, alias_chars.len());
                assert(alias@ =~= percent(scope.aliases@[j as int]@));
                if starts_with(alias.as_slice(), q.as_slice()) {
                    alias_match = true;
                }
                j = j + 1;
            }
            let offered = token_match || alias_match;
            assert(offered == scope_offered(*scope, q@));
            if offered {
                let mut display = token.clone();
                display.push(' ');
                display.push(' ');
                let label_chars = chars_of(scope.label.as_str());
                push_range(&mut display, label_chars.as_slice(), 0, label_chars.len());
                let mut stored = token.clone();
                stored.push(' ');
                assert(display@ =~= scope_suggestion(*scope).0);
                assert(stored@ =~= scope_suggestion(*scope).1);
                let ghost before = out@;
                out.push((string_from_chars(display.as_slice()), string_from_chars(stored.as_slice())));
                assert(pairs_view(out@) =~= pairs_view(before).push(scope_suggestion(*scope)));
            }
            i = i + 1;
        }
        assert(scopes@.take(scopes@.len() as int) =~= scopes@);
        out
    }

    /// Accept a suggestion storing `value_to_store` over `replace_range` (the
    /// whole text when absent) in the search field, and return the cursor
    /// position after the inserted text; other fields are left alone and
    /// answer 0.
    pub fn accept_suggestion(
        &mut self,
        field_index: usize,
        value_to_store: &str,
        replace_range: Option<(usize, usize)>,
    ) -> (r: usize)
        requires
            old(self).text_spec().len() + value_to_store@.len() <= usize::MAX,
        ensures
            field_index != 0 ==> r == 0 && *final(self) == *old(self),
            field_index == 0 ==> (final(self).text_spec(), r as int) == accepted_spec(
                old(self).text_spec(),
                value_to_store@,
                replace_range,
            ),
            final(self).scopes_spec() == old(self).scopes_spec(),
            final(self).suggestion_scopes_spec() == old(self).suggestion_scopes_spec(),
    {
        if field_index != 0 {
            return 0;
        }
        let chars = chars_of(self.value.as_str());
        let replacement = chars_of(value_to_store);
        let (s0, e0) = match replace_range {
            Some((a, b)) => (a, b),
            None => (0, chars.len()),
        };
        let start = if s0 < chars.len() {
            s0
        } else {
            chars.len()
        };
        let e1 = if e0 < chars.len() {
            e0
        } else {
            chars.len()
        };
        let end = if e1 < start {
            start
        } else {
            e1
        };
        let mut updated: Vec<char> = Vec::new();
        push_range(&mut updated, chars.as_slice(), 0, start);
        push_range(&mut updated, replacement.as_slice(), 0, replacement.len());
        push_range(&mut updated, chars.as_slice(), end, chars.len());
        assert(replacement@.subrange(0, replacement@.len() as int) =~= replacement@);
        self.value = first_line_text(updated.as_slice());
        start + replacement.len()
    }
}

} // verus!
