//! TOML documents as the keybinding logic reads them.

use vstd::prelude::*;

verus! {

/// A TOML value: a string, an array, a table of named values, or any other
/// scalar (number, boolean, date), which the keybinding logic never reads.
pub enum TomlValue {
    Str(String),
    Array(Vec<TomlValue>),
    Table(Vec<(String, TomlValue)>),
    Other,
}

/// A TOML value as plain values.
pub enum TomlModel {
    Str(Seq<char>),
    Array(Seq<TomlModel>),
    Table(Seq<(Seq<char>, TomlModel)>),
    Other,
}

/// The plain value of a TOML value.
pub open spec fn toml_model(v: TomlValue) -> TomlModel
    decreases v,
{
    match v {
        TomlValue::Str(s) => TomlModel::Str(s@),
        TomlValue::Array(items) => TomlModel::Array(items_model(items@)),
        TomlValue::Table(entries) => TomlModel::Table(entries_model(entries@)),
        TomlValue::Other => TomlModel::Other,
    }
}

pub open spec fn items_model(s: Seq<TomlValue>) -> Seq<TomlModel>
    decreases s,
{
    if s.len() == 0 {
        Seq::empty()
    } else {
        seq![toml_model(s[0])] + items_model(s.drop_first())
    }
}

pub open spec fn entries_model(s: Seq<(String, TomlValue)>) -> Seq<(Seq<char>, TomlModel)>
    decreases s,
{
    if s.len() == 0 {
        Seq::empty()
    } else {
        seq![(s[0].0@, toml_model(s[0].1))] + entries_model(s.drop_first())
    }
}

impl View for TomlValue {
    type V = TomlModel;

    open spec fn view(&self) -> TomlModel {
        toml_model(*self)
    }
}

/// The value a TOML document denotes, as `toml`'s parser reads it; `None`
/// when the text is not valid TOML.
pub uninterp spec fn toml_document(source: Seq<char>) -> Option<TomlModel>;

#[verifier::external_type_specification]
#[verifier::external_body]
pub struct ExTomlDeError(toml::de::Error);

#[verifier::external_type_specification]
#[verifier::external_body]
pub struct ExTomlValue(toml::Value);

#[verifier::external_type_specification]
#[verifier::external_body]
pub struct ExTomlSerError(toml::ser::Error);

/// Calls the `Display` of `toml::de::Error`: the parser's description of
/// what went wrong and where. Nothing is stated of the text.
#[verifier::external_body]
pub(crate) fn parse_error_description(e: &toml::de::Error) -> (r: String) {
    e.to_string()
}

/// Calls the `Display` of `toml::ser::Error`. Nothing is stated of the text.
#[verifier::external_body]
pub(crate) fn render_error_description(e: &toml::ser::Error) -> (r: String) {
    e.to_string()
}

/// The TOML text `toml::to_string` writes for a document.
pub uninterp spec fn toml_rendering(doc: TomlModel) -> Seq<char>;

/// An array whose items are all strings.
pub open spec fn string_array(m: TomlModel) -> bool {
    m matches TomlModel::Array(items) && forall|i: int| 0 <= i < items.len() ==> #[trigger] items[i] is Str
}

/// A table whose values are all arrays of strings.
pub open spec fn string_arrays_table(m: TomlModel) -> bool {
    m matches TomlModel::Table(es) && forall|i: int| 0 <= i < es.len() ==> string_array(#[trigger] es[i].1)
}

/// A table of tables whose values are all arrays of strings.
pub open spec fn sectioned_string_arrays(m: TomlModel) -> bool {
    m matches TomlModel::Table(es) && forall|i: int| 0 <= i < es.len() ==> string_arrays_table(#[trigger] es[i].1)
}

/// Calls `toml::to_string` on the document, converted variant by variant.
/// The text written is named by `toml_rendering`. A top-level table of
/// tables of string arrays always serializes: the serializer refuses only
/// a document that is not a table, and values it has no TOML form for,
/// none of which such a document holds. Of other documents, when the call
/// fails nothing is stated.
#[verifier::external_body]
pub(crate) fn render_toml_document(doc: &TomlValue) -> (r: Result<String, toml::ser::Error>)
    ensures
        r matches Ok(s) ==> s@ == toml_rendering(doc@),
        sectioned_string_arrays(doc@) ==> r is Ok,
{
    toml::to_string(&toml_value_to(doc))
}

/// Converts a value variant by variant; `Other`, which stands for values the
/// keybinding logic never writes, becomes an empty table.
#[verifier::external_body]
fn toml_value_to(v: &TomlValue) -> toml::Value {
    match v {
        TomlValue::Str(s) => toml::Value::String(s.clone()),
        TomlValue::Array(items) => toml::Value::Array(items.iter().map(toml_value_to).collect()),
        TomlValue::Table(entries) => toml::Value::Table(
            entries.iter().map(|(k, x)| (k.clone(), toml_value_to(x))).collect(),
        ),
        TomlValue::Other => toml::Value::Table(toml::map::Map::new()),
    }
}

/// Calls `toml::from_str::<toml::Value>` on `source` and converts the value.
/// The parse is named by `toml_document`; nothing else is stated of it.
#[verifier::external_body]
pub(crate) fn parse_toml_document(source: &str) -> (r: Result<TomlValue, toml::de::Error>)
    ensures
        match r {
            Ok(v) => toml_document(source@) == Some(v@),
            Err(_) => toml_document(source@) is None,
        },
{
    match toml::from_str::<toml::Value>(source) {
        Ok(v) => Ok(toml_value_from(v)),
        Err(e) => Err(e),
    }
}

/// Converts a `toml::Value` variant by variant; numbers, booleans and dates
/// become `Other`.
#[verifier::external_body]
fn toml_value_from(v: toml::Value) -> TomlValue {
    match v {
        toml::Value::String(s) => TomlValue::Str(s),
        toml::Value::Array(items) => TomlValue::Array(items.into_iter().map(toml_value_from).collect()),
        toml::Value::Table(t) => TomlValue::Table(
            t.into_iter().map(|(k, x)| (k, toml_value_from(x))).collect(),
        ),
        toml::Value::Integer(_) => TomlValue::Other,
        toml::Value::Float(_) => TomlValue::Other,
        toml::Value::Boolean(_) => TomlValue::Other,
        toml::Value::Datetime(_) => TomlValue::Other,
    }
}

/// The value under `key` in a table's entries, the first if repeated.
pub open spec fn table_get(entries: Seq<(Seq<char>, TomlModel)>, key: Seq<char>) -> Option<TomlModel>
    decreases entries.len(),
{
    if entries.len() == 0 {
        None
    } else if entries[0].0 == key {
        Some(entries[0].1)
    } else {
        table_get(entries.drop_first(), key)
    }
}

/// A string, or an array of strings, as a list of strings.
pub open spec fn string_list(v: TomlModel) -> Option<Seq<Seq<char>>> {
    match v {
        TomlModel::Str(s) => Some(seq![s]),
        TomlModel::Array(items) => if forall|i: int| 0 <= i < items.len() ==> (#[trigger] items[i]) is Str {
            Some(items.map_values(|x: TomlModel| x->Str_0))
        } else {
            None
        },
        _ => None,
    }
}

proof fn lemma_entries_model_index(s: Seq<(String, TomlValue)>, i: int)
    requires
        0 <= i < s.len(),
    ensures
        entries_model(s).len() == s.len(),
        entries_model(s)[i] == (s[i].0@, toml_model(s[i].1)),
    decreases s.len(),
{
    lemma_entries_model_len(s);
    if i > 0 {
        lemma_entries_model_index(s.drop_first(), i - 1);
    }
}

proof fn lemma_entries_model_len(s: Seq<(String, TomlValue)>)
    ensures
        entries_model(s).len() == s.len(),
    decreases s.len(),
{
    if s.len() > 0 {
        lemma_entries_model_len(s.drop_first());
    }
}

proof fn lemma_items_model_index(s: Seq<TomlValue>, i: int)
    requires
        0 <= i < s.len(),
    ensures
        items_model(s).len() == s.len(),
        items_model(s)[i] == toml_model(s[i]),
    decreases s.len(),
{
    lemma_items_model_len(s);
    if i > 0 {
        lemma_items_model_index(s.drop_first(), i - 1);
    }
}

proof fn lemma_items_model_len(s: Seq<TomlValue>)
    ensures
        items_model(s).len() == s.len(),
    decreases s.len(),
{
    if s.len() > 0 {
        lemma_items_model_len(s.drop_first());
    }
}

/// The entries of a table value as plain values, element by element.
pub proof fn lemma_entries_model(s: Seq<(String, TomlValue)>)
    ensures
        entries_model(s).len() == s.len(),
        forall|i: int|
            0 <= i < s.len() ==> #[trigger] entries_model(s)[i] == (s[i].0@, toml_model(s[i].1)),
{
    lemma_entries_model_len(s);
    assert forall|i: int| 0 <= i < s.len() implies #[trigger] entries_model(s)[i] == (
        s[i].0@,
        toml_model(s[i].1),
    ) by {
        lemma_entries_model_index(s, i);
    }
}

/// The items of an array value as plain values, element by element.
pub proof fn lemma_items_model(s: Seq<TomlValue>)
    ensures
        items_model(s).len() == s.len(),
        forall|i: int| 0 <= i < s.len() ==> #[trigger] items_model(s)[i] == toml_model(s[i]),
{
    lemma_items_model_len(s);
    assert forall|i: int| 0 <= i < s.len() implies #[trigger] items_model(s)[i] == toml_model(
        s[i],
    ) by {
        lemma_items_model_index(s, i);
    }
}

/// The value under `key` in a table's entries.
pub fn table_lookup<'a>(entries: &'a Vec<(String, TomlValue)>, key: &str) -> (r: Option<&'a TomlValue>)
    ensures
        match r {
            Some(v) => table_get(entries_model(entries@), key@) == Some(v@),
            None => table_get(entries_model(entries@), key@) is None,
        },
{
    proof {
        lemma_entries_model(entries@);
    }
    let ghost em = entries_model(entries@);
    let mut i: usize = 0;
    assert(em.skip(0) =~= em);
    while i < entries.len()
        invariant
            i <= entries@.len(),
            em == entries_model(entries@),
            em.len() == entries@.len(),
            forall|j: int| 0 <= j < entries@.len() ==> #[trigger] em[j] == (entries@[j].0@, toml_model(entries@[j].1)),
            table_get(em, key@) == table_get(em.skip(i as int), key@),
        decreases entries@.len() - i,
    {
        assert(em.skip(i as int)[0] == em[i as int]);
        assert(em.skip(i as int).drop_first() =~= em.skip(i + 1));
        if crate::text::str_eq(entries[i].0.as_str(), key) {
            return Some(&entries[i].1);
        }
        i = i + 1;
    }
    assert(em.skip(i as int).len() == 0);
    None
}

/// A string, or an array of strings, as a list of strings.
pub fn string_list_of(v: &TomlValue) -> (r: Option<Vec<String>>)
    ensures
        match r {
            Some(l) => string_list(v@) == Some(crate::text::strings_view(l@)),
            None => string_list(v@) is None,
        },
{
    match v {
        TomlValue::Str(s) => {
            let mut out: Vec<String> = Vec::new();
            out.push(s.clone());
            assert(crate::text::strings_view(out@) =~= seq![s@]);
            Some(out)
        },
        TomlValue::Array(items) => {
            proof {
                lemma_items_model(items@);
            }
            let ghost im = items_model(items@);
            let mut out: Vec<String> = Vec::new();
            let mut i: usize = 0;
            assert(v@ == TomlModel::Array(im));
            while i < items.len()
                invariant
                    i <= items@.len(),
                    im == items_model(items@),
                    v@ == TomlModel::Array(im),
                    im.len() == items@.len(),
                    forall|j: int| 0 <= j < items@.len() ==> #[trigger] im[j] == toml_model(items@[j]),
                    forall|j: int| 0 <= j < i ==> (#[trigger] im[j]) is Str,
                    crate::text::strings_view(out@) == im.take(i as int).map_values(
                        |x: TomlModel| x->Str_0,
                    ),
                decreases items@.len() - i,
            {
                assert(im[i as int] == toml_model(items@[i as int]));
                match &items[i] {
                    TomlValue::Str(s) => {
                        let ghost before = out@;
                        out.push(s.clone());
                        assert(im[i as int] == TomlModel::Str(s@));
                        assert(crate::text::strings_view(out@) =~= crate::text::strings_view(
                            before,
                        ).push(s@));
                        assert(im.take(i + 1).map_values(|x: TomlModel| x->Str_0) =~= im.take(
                            i as int,
                        ).map_values(|x: TomlModel| x->Str_0).push(s@));
                        i = i + 1;
                    },
                    _ => {
                        assert(!(im[i as int] is Str));
                        return None;
                    },
                }
            }
            assert(im.take(items@.len() as int) =~= im);
            Some(out)
        },
        _ => None,
    }
}

} // verus!
