//! Picker content: entries and their fields, scopes, the column head, and
//! the per-field ranking weights.
use vstd::prelude::*;
use crate::picker::query::PickerCommandArgument;
use crate::text::{str_eq, strings_of, strings_view, strs_view};

verus! {

/// One `key = value` field of a picker entry.
#[derive(Debug, Clone, PartialEq, Eq)]
pub struct PickerField {
    pub key: String,
    pub value: String,
}

/// A field as plain text: `(key, value)`.
pub open spec fn field_view(f: PickerField) -> (Seq<char>, Seq<char>) {
    (f.key@, f.value@)
}

pub open spec fn fields_view(s: Seq<PickerField>) -> Seq<(Seq<char>, Seq<char>)> {
    s.map_values(|f: PickerField| field_view(f))
}

impl PickerField {
    pub fn new(key: &str, value: &str) -> (r: Self)
        ensures
            field_view(r) == (key@, value@),
    {
        PickerField { key: key.to_string(), value: value.to_string() }
    }
}

/// A `%token` that restricts matching to some of an entry's fields.
#[derive(Debug, Clone, PartialEq, Eq)]
pub struct PickerScope {
    pub token: String,
    pub aliases: Vec<String>,
    pub label: String,
    pub field_keys: Vec<String>,
    pub completion_key: Option<String>,
    pub value_token_limit: Option<usize>,
    pub command_argument: PickerCommandArgument,
    /// When set, the inline completion suffix is suppressed while the cursor
    /// is editing this scope's value. Use it for scopes whose value is
    /// free-form (e.g. a row search) rather than a known candidate.
    pub suppress_value_completion: bool,
}

/// The value of field `key` of an entry: its label for `label`, else the
/// first field with that key.
pub open spec fn entry_key_value(
    label: Seq<char>,
    fields: Seq<(Seq<char>, Seq<char>)>,
    key: Seq<char>,
) -> Option<Seq<char>> {
    if key == "label"@ {
        Some(label)
    } else {
        first_field_value(fields, key)
    }
}

/// The value of the first field with key `key`.
pub open spec fn first_field_value(fields: Seq<(Seq<char>, Seq<char>)>, key: Seq<char>) -> Option<
    Seq<char>,
>
    decreases fields.len(),
{
    if fields.len() == 0 {
        None
    } else if fields[0].0 == key {
        Some(fields[0].1)
    } else {
        first_field_value(fields.drop_first(), key)
    }
}

/// The value of the first of `keys` that the entry has, or its label.
pub open spec fn first_key_value(
    label: Seq<char>,
    fields: Seq<(Seq<char>, Seq<char>)>,
    keys: Seq<Seq<char>>,
) -> Seq<char>
    decreases keys.len(),
{
    if keys.len() == 0 {
        label
    } else {
        match entry_key_value(label, fields, keys[0]) {
            Some(v) => v,
            None => first_key_value(label, fields, keys.drop_first()),
        }
    }
}

/// The text a scope completes toward for an entry: its completion key's
/// value, else the first of its field keys' values, else the entry's label.
pub open spec fn completion_spec(scope: PickerScope, entry: PickerEntry) -> Seq<char> {
    let label = entry.label@;
    let fields = fields_view(entry.fields@);
    let fallback = first_key_value(label, fields, strings_view(scope.field_keys@));
    match scope.completion_key {
        Some(k) => match entry_key_value(label, fields, k@) {
            Some(v) => v,
            None => fallback,
        },
        None => fallback,
    }
}

fn field_value<'a>(fields: &'a [PickerField], key: &str) -> (r: Option<&'a str>)
    ensures
        opt_text(r) == first_field_value(fields_view(fields@), key@),
{
    let ghost fv = fields_view(fields@);
    assert(fv.skip(0) =~= fv);
    let mut i: usize = 0;
    while i < fields.len()
        invariant
            i <= fields@.len(),
            fv == fields_view(fields@),
            first_field_value(fv, key@) == first_field_value(fv.skip(i as int), key@),
        decreases fields@.len() - i,
    {
        assert(fv.skip(i as int)[0] == fv[i as int]);
        assert(fv.skip(i as int).drop_first() =~= fv.skip(i + 1));
        if str_eq(fields[i].key.as_str(), key) {
            return Some(fields[i].value.as_str());
        }
        i = i + 1;
    }
    None
}

/// The text of an optional string slice.
pub open spec fn opt_text(o: Option<&str>) -> Option<Seq<char>> {
    match o {
        Some(s) => Some(s@),
        None => None,
    }
}

fn key_value<'a>(entry: &'a PickerEntry, key: &str) -> (r: Option<&'a str>)
    ensures
        opt_text(r) == entry_key_value(entry.label@, fields_view(entry.fields@), key@),
{
    if str_eq(key, "label") {
        Some(entry.label.as_str())
    } else {
        field_value(entry.fields.as_slice(), key)
    }
}

impl PickerScope {
    /// A scope `%token`, shown as `label`, matching the fields `field_keys`.
    pub fn new(token: &str, label: &str, field_keys: Vec<String>) -> (r: Self)
        ensures
            r.token@ == token@,
            r.aliases@.len() == 0,
            r.label@ == label@,
            r.field_keys == field_keys,
            r.completion_key is None,
            r.value_token_limit is None,
            r.command_argument == PickerCommandArgument::NoArgument,
            !r.suppress_value_completion,
    {
        PickerScope {
            token: token.to_string(),
            aliases: Vec::new(),
            label: label.to_string(),
            field_keys,
            completion_key: None,
            value_token_limit: None,
            command_argument: PickerCommandArgument::NoArgument,
            suppress_value_completion: false,
        }
    }

    /// The same scope, answering also to each of `aliases`.
    pub fn with_aliases(self, aliases: &[&str]) -> (r: Self)
        ensures
            strings_view(r.aliases@) == strs_view(aliases@),
            r == (PickerScope { aliases: r.aliases, ..self }),
    {
        PickerScope { aliases: strings_of(aliases), ..self }
    }

    /// The same scope, completing toward the value of field `key`.
    pub fn with_completion_key(self, key: &str) -> (r: Self)
        ensures
            r.completion_key matches Some(k) && k@ == key@,
            r == (PickerScope { completion_key: r.completion_key, ..self }),
    {
        PickerScope { completion_key: Some(key.to_string()), ..self }
    }

    /// The same scope, taking at most `limit` value tokens; a limit of one
    /// makes its value a required command argument.
    pub fn with_value_token_limit(self, limit: usize) -> (r: Self)
        ensures
            r == (PickerScope {
                value_token_limit: Some(limit),
                command_argument: if limit == 1 {
                    PickerCommandArgument::Required
                } else {
                    self.command_argument
                },
                ..self
            }),
    {
        let mut s = self;
        s.value_token_limit = Some(limit);
        if limit == 1 {
            s.command_argument = PickerCommandArgument::Required;
        }
        s
    }

    /// The same scope, taking exactly one value token as its argument.
    pub fn with_command_argument(self) -> (r: Self)
        ensures
            r == (PickerScope {
                command_argument: PickerCommandArgument::Required,
                value_token_limit: Some(1),
                ..self
            }),
    {
        PickerScope {
            command_argument: PickerCommandArgument::Required,
            value_token_limit: Some(1),
            ..self
        }
    }

    /// The same scope, taking no argument and any number of value tokens.
    pub fn without_command_argument(self) -> (r: Self)
        ensures
            r == (PickerScope {
                command_argument: PickerCommandArgument::NoArgument,
                value_token_limit: None,
                ..self
            }),
    {
        PickerScope {
            command_argument: PickerCommandArgument::NoArgument,
            value_token_limit: None,
            ..self
        }
    }

    /// Suppress the inline completion suffix while editing this scope's value.
    pub fn with_suppressed_value_completion(self) -> (r: Self)
        ensures
            r == (PickerScope { suppress_value_completion: true, ..self }),
    {
        PickerScope { suppress_value_completion: true, ..self }
    }

    /// `token` is this scope's token or one of its aliases.
    pub fn matches_token(&self, token: &str) -> (r: bool)
        ensures
            r == (self.token@ == token@ || strings_view(self.aliases@).contains(token@)),
    {
        if str_eq(self.token.as_str(), token) {
            return true;
        }
        let mut i: usize = 0;
        while i < self.aliases.len()
            invariant
                i <= self.aliases@.len(),
                forall|j: int| 0 <= j < i ==> self.aliases@[j]@ != token@,
            decreases self.aliases@.len() - i,
        {
            if str_eq(self.aliases[i].as_str(), token) {
                assert(strings_view(self.aliases@)[i as int] == token@);
                return true;
            }
            i = i + 1;
        }
        assert(!strings_view(self.aliases@).contains(token@));
        false
    }

    /// The text this scope completes toward for `entry`.
    pub fn completion_value<'a>(&'a self, entry: &'a PickerEntry) -> (r: Option<&'a str>)
        ensures
            r matches Some(v) && v@ == completion_spec(*self, *entry),
    {
        let ghost label = entry.label@;
        let ghost fields = fields_view(entry.fields@);
        match &self.completion_key {
            Some(key) => {
                assert(self.completion_key == Some(*key));
                match key_value(entry, key.as_str()) {
                    Some(v) => {
                        return Some(v);
                    },
                    None => {},
                }
            },
            None => {},
        }
        let ghost keys = strings_view(self.field_keys@);
        assert(keys.skip(0) =~= keys);
        let mut i: usize = 0;
        while i < self.field_keys.len()
            invariant
                i <= self.field_keys@.len(),
                keys == strings_view(self.field_keys@),
                label == entry.label@,
                fields == fields_view(entry.fields@),
                completion_spec(*self, *entry) == first_key_value(label, fields, keys),
                first_key_value(label, fields, keys) == first_key_value(
                    label,
                    fields,
                    keys.skip(i as int),
                ),
            decreases self.field_keys@.len() - i,
        {
            assert(keys.skip(i as int)[0] == keys[i as int]);
            assert(keys.skip(i as int).drop_first() =~= keys.skip(i + 1));
            if let Some(v) = key_value(entry, self.field_keys[i].as_str()) {
                return Some(v);
            }
            i = i + 1;
        }
        Some(entry.label.as_str())
    }
}

/// One row of the picker.
#[derive(Debug, Clone, PartialEq, Eq)]
pub struct PickerEntry {
    pub label: String,
    pub preview_lines: Vec<String>,
    pub fields: Vec<PickerField>,
}

impl Default for PickerEntry {
    fn default() -> (r: Self)
        ensures
            r.label@.len() == 0,
            r.preview_lines@.len() == 0,
            r.fields@.len() == 0,
    {
        PickerEntry { label: String::new(), preview_lines: Vec::new(), fields: Vec::new() }
    }
}

impl PickerEntry {
    /// An entry whose only field is its `label`.
    pub fn new(label: &str, preview_lines: Vec<String>) -> (r: Self)
        ensures
            r.label@ == label@,
            r.preview_lines == preview_lines,
            fields_view(r.fields@) == seq![("label"@, label@)],
    {
        let mut fields: Vec<PickerField> = Vec::new();
        fields.push(PickerField::new("label", label));
        let r = PickerEntry { label: label.to_string(), preview_lines, fields };
        assert(fields_view(r.fields@) =~= seq![("label"@, label@)]);
        r
    }

    /// The same entry with `fields` added after its own.
    pub fn with_fields(self, fields: Vec<PickerField>) -> (r: Self)
        ensures
            r.label == self.label,
            r.preview_lines == self.preview_lines,
            r.fields@ == self.fields@ + fields@,
    {
        let mut s = self;
        let mut extra = fields;
        s.fields.append(&mut extra);
        s
    }
}

/// How the picker lays out its list and preview.
#[derive(Debug, Clone, Copy, PartialEq, Eq, Structural)]
pub enum PickerLayout {
    Responsive,
    SinglePane,
}

impl Default for PickerLayout {
    fn default() -> (r: Self)
        ensures
            r == PickerLayout::Responsive,
    {
        PickerLayout::Responsive
    }
}

/// One column of the picker's head: a label over the values of one field.
/// A width of zero makes the column flexible.
#[derive(Debug, Clone, PartialEq, Eq)]
pub struct PickerHeadColumn {
    pub label: String,
    pub field_key: String,
    pub width: usize,
}

impl PickerHeadColumn {
    pub fn new(label: &str, field_key: &str, width: usize) -> (r: Self)
        ensures
            r.label@ == label@,
            r.field_key@ == field_key@,
            r.width == width,
    {
        PickerHeadColumn { label: label.to_string(), field_key: field_key.to_string(), width }
    }
}

/// The columns shown above the picker's list.
#[derive(Debug, Clone, PartialEq, Eq)]
pub struct PickerHead {
    pub columns: Vec<PickerHeadColumn>,
}

impl Default for PickerHead {
    fn default() -> (r: Self)
        ensures
            r.columns@.len() == 0,
    {
        Self::new()
    }
}

impl PickerHead {
    pub fn new() -> (r: Self)
        ensures
            r.columns@.len() == 0,
    {
        PickerHead { columns: Vec::new() }
    }

    pub fn with_columns(columns: Vec<PickerHeadColumn>) -> (r: Self)
        ensures
            r.columns == columns,
    {
        PickerHead { columns }
    }

    /// Start a column labelled `label` over field `field_key`; finish it
    /// with [`PickerHeadColumnBuilder::width`] or
    /// [`PickerHeadColumnBuilder::flex`].
    pub fn field(self, label: &str, field_key: &str) -> (r: PickerHeadColumnBuilder)
        ensures
            r.head_spec() == self,
            r.column_spec().label@ == label@,
            r.column_spec().field_key@ == field_key@,
    {
        PickerHeadColumnBuilder { head: self, label: label.to_string(), field_key: field_key.to_string() }
    }
}

/// A head with one column under construction.
#[derive(Debug, Clone, PartialEq, Eq)]
pub struct PickerHeadColumnBuilder {
    head: PickerHead,
    label: String,
    field_key: String,
}

impl PickerHeadColumnBuilder {
    pub closed spec fn head_spec(&self) -> PickerHead {
        self.head
    }

    /// The column being built, before its width is chosen.
    pub closed spec fn column_spec(&self) -> PickerHeadColumn {
        PickerHeadColumn { label: self.label, field_key: self.field_key, width: 0 }
    }

    /// Finish the column with a fixed width.
    pub fn width(self, width: usize) -> (r: PickerHead)
        ensures
            r.columns@ == self.head_spec().columns@.push(
                PickerHeadColumn { width, ..self.column_spec() },
            ),
    {
        let mut head = self.head;
        head.columns.push(PickerHeadColumn { label: self.label, field_key: self.field_key, width });
        head
    }

    /// Finish the column as a flexible one.
    pub fn flex(self) -> (r: PickerHead)
        ensures
            r.columns@ == self.head_spec().columns@.push(self.column_spec()),
    {
        self.width(0)
    }
}

/// Per-field-key scoring weights for the fuzzy matcher: a fallback weight
/// and overrides for particular keys.
#[derive(Debug, Clone, PartialEq, Eq)]
pub struct PickerFieldWeights {
    default: u32,
    overrides: Vec<(String, u32)>,
}

/// The overrides as plain values.
pub open spec fn overrides_view(s: Seq<(String, u32)>) -> Seq<(Seq<char>, u32)> {
    s.map_values(|e: (String, u32)| (e.0@, e.1))
}

/// The weight of `key`: its first override, else the fallback.
pub open spec fn weight_of(overrides: Seq<(Seq<char>, u32)>, key: Seq<char>, fallback: u32) -> u32
    decreases overrides.len(),
{
    if overrides.len() == 0 {
        fallback
    } else if overrides[0].0 == key {
        overrides[0].1
    } else {
        weight_of(overrides.drop_first(), key, fallback)
    }
}

/// The overrides without any for `key`, in order.
pub open spec fn without_key(overrides: Seq<(Seq<char>, u32)>, key: Seq<char>) -> Seq<
    (Seq<char>, u32),
>
    decreases overrides.len(),
{
    if overrides.len() == 0 {
        overrides
    } else {
        let rest = without_key(overrides.drop_last(), key);
        if overrides.last().0 == key {
            rest
        } else {
            rest.push(overrides.last())
        }
    }
}

impl PickerFieldWeights {
    /// `(fallback, overrides)`.
    pub closed spec fn weights_view(&self) -> (u32, Seq<(Seq<char>, u32)>) {
        (self.default, overrides_view(self.overrides@))
    }

    /// Weights with a single fallback applied to every field key.
    pub fn uniform(weight: u32) -> (r: Self)
        ensures
            r.weights_view() == (weight, Seq::<(Seq<char>, u32)>::empty()),
    {
        let r = PickerFieldWeights { default: weight, overrides: Vec::new() };
        assert(overrides_view(r.overrides@) =~= Seq::<(Seq<char>, u32)>::empty());
        r
    }

    /// The same weights with another fallback.
    pub fn with_default(self, weight: u32) -> (r: Self)
        ensures
            r.weights_view() == (weight, self.weights_view().1),
    {
        PickerFieldWeights { default: weight, ..self }
    }

    /// The same weights with `key` weighing `weight`, replacing any earlier
    /// override of `key`.
    pub fn with_override(self, key: &str, weight: u32) -> (r: Self)
        ensures
            r.weights_view() == (
                self.weights_view().0,
                without_key(self.weights_view().1, key@).push((key@, weight)),
            ),
    {
        let ghost ov = overrides_view(self.overrides@);
        let mut kept: Vec<(String, u32)> = Vec::new();
        let mut i: usize = 0;
        while i < self.overrides.len()
            invariant
                i <= self.overrides@.len(),
                ov == overrides_view(self.overrides@),
                overrides_view(kept@) == without_key(ov.take(i as int), key@),
            decreases self.overrides@.len() - i,
        {
            assert(ov.take(i + 1).drop_last() =~= ov.take(i as int));
            let ghost before = kept@;
            if !str_eq(self.overrides[i].0.as_str(), key) {
                kept.push((self.overrides[i].0.clone(), self.overrides[i].1));
                assert(overrides_view(kept@) =~= overrides_view(before).push(ov[i as int]));
            }
            i = i + 1;
        }
        assert(ov.take(self.overrides@.len() as int) =~= ov);
        let ghost before = kept@;
        kept.push((key.to_string(), weight));
        assert(overrides_view(kept@) =~= overrides_view(before).push((key@, weight)));
        PickerFieldWeights { default: self.default, overrides: kept }
    }

    /// The weight of field `key`.
    pub fn weight(&self, key: &str) -> (r: u32)
        ensures
            r == weight_of(self.weights_view().1, key@, self.weights_view().0),
    {
        let ghost ov = overrides_view(self.overrides@);
        assert(ov.skip(0) =~= ov);
        let mut i: usize = 0;
        while i < self.overrides.len()
            invariant
                i <= self.overrides@.len(),
                ov == overrides_view(self.overrides@),
                weight_of(ov, key@, self.default) == weight_of(ov.skip(i as int), key@, self.default),
            decreases self.overrides@.len() - i,
        {
            assert(ov.skip(i as int)[0] == ov[i as int]);
            assert(ov.skip(i as int).drop_first() =~= ov.skip(i + 1));
            if str_eq(self.overrides[i].0.as_str(), key) {
                return self.overrides[i].1;
            }
            i = i + 1;
        }
        self.default
    }
}

impl Default for PickerFieldWeights {
    /// Every field weighs 10, except `label`, which weighs 16.
    fn default() -> (r: Self)
        ensures
            r.weights_view() == (10u32, seq![("label"@, 16u32)]),
    {
        let mut overrides: Vec<(String, u32)> = Vec::new();
        overrides.push(("label".to_string(), 16));
        let r = PickerFieldWeights { default: 10, overrides };
        assert(overrides_view(r.overrides@) =~= seq![("label"@, 16u32)]);
        r
    }
}

/// After an override of `key`, `key` weighs the overridden weight and every
/// other key weighs what it weighed before.
pub proof fn lemma_override_weight(
    overrides: Seq<(Seq<char>, u32)>,
    fallback: u32,
    key: Seq<char>,
    weight: u32,
    other: Seq<char>,
)
    ensures
        weight_of(without_key(overrides, key).push((key, weight)), key, fallback) == weight,
        other != key ==> weight_of(without_key(overrides, key).push((key, weight)), other, fallback)
            == weight_of(overrides, other, fallback),
{
    lemma_weight_push(without_key(overrides, key), (key, weight), key, fallback);
    lemma_weight_without_same(overrides, key, weight);
    if other != key {
        lemma_weight_push(without_key(overrides, key), (key, weight), other, fallback);
        lemma_weight_without_other(overrides, key, other, fallback);
    }
}

/// Appending an entry only changes the fallback of a lookup.
proof fn lemma_weight_push(s: Seq<(Seq<char>, u32)>, e: (Seq<char>, u32), k: Seq<char>, f: u32)
    ensures
        weight_of(s.push(e), k, f) == weight_of(s, k, if e.0 == k { e.1 } else { f }),
    decreases s.len(),
{
    if s.len() > 0 {
        assert(s.push(e)[0] == s[0]);
        assert(s.push(e).drop_first() =~= s.drop_first().push(e));
        lemma_weight_push(s.drop_first(), e, k, f);
    } else {
        assert(s.push(e)[0] == e);
        assert(s.push(e).drop_first() =~= Seq::<(Seq<char>, u32)>::empty());
        assert(weight_of(s.push(e).drop_first(), k, f) == f);
        assert(weight_of(s, k, if e.0 == k { e.1 } else { f }) == if e.0 == k { e.1 } else { f });
    }
}

/// No override of `key` survives its removal.
proof fn lemma_weight_without_same(o: Seq<(Seq<char>, u32)>, key: Seq<char>, g: u32)
    ensures
        weight_of(without_key(o, key), key, g) == g,
    decreases o.len(),
{
    if o.len() > 0 {
        lemma_weight_without_same(o.drop_last(), key, g);
        if o.last().0 != key {
            lemma_weight_push(without_key(o.drop_last(), key), o.last(), key, g);
        }
    }
}

/// Removing the overrides of `key` leaves the weight of every other key.
proof fn lemma_weight_without_other(o: Seq<(Seq<char>, u32)>, key: Seq<char>, other: Seq<char>, f: u32)
    requires
        other != key,
    ensures
        weight_of(without_key(o, key), other, f) == weight_of(o, other, f),
    decreases o.len(),
{
    if o.len() > 0 {
        let last = o.last();
        let f2 = if last.0 == other { last.1 } else { f };
        assert(o =~= o.drop_last().push(last));
        lemma_weight_push(o.drop_last(), last, other, f);
        lemma_weight_without_other(o.drop_last(), key, other, f2);
        lemma_weight_without_other(o.drop_last(), key, other, f);
        if last.0 != key {
            lemma_weight_push(without_key(o.drop_last(), key), last, other, f);
        }
    }
}

} // verus!
