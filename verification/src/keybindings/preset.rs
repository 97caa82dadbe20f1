//! Navigation keybinding presets written as TOML: sections of action names
//! bound to key strings, checked before they are bound.

use vstd::prelude::*;
use vstd::std_specs::cmp::PartialEqSpec;
use vstd::std_specs::convert::FromSpec;
use crate::input::key_sequence::{binding_result, chords_result_model, error_model, parse_error_text};
use crate::input::{try_parse_binding, InputRegistry, KeyChord, KeyMap, ParseKeyError};
use crate::keybindings::action::{all_actions, first_encoded, info_of, parse_action_spec, NavigationAction};
use crate::keybindings::toml_value::{
    entries_model, lemma_entries_model, parse_error_description, parse_toml_document, string_list, string_list_of,
    table_get, table_lookup, toml_document, TomlModel, TomlValue,
};
use crate::assoc::{assoc, distinct_keys, lemma_assoc_lookup, lemma_assoc_push};
use crate::input::registry::chords_equal;
use crate::text::{decimal_string, debug_text, push_quoted, str_eq, strings_view, trim};
use crate::input::key::decimal;

verus! {

/// A parsed preset: its sections in order.
#[derive(Debug)]
pub struct NavigationPreset {
    sections: Vec<NavigationPresetSection>,
}

/// One section: its name, the mode it binds in, and its bindings.
#[derive(Debug)]
pub struct NavigationPresetSection {
    pub name: String,
    pub mode: String,
    pub bindings: Vec<NavigationPresetBinding>,
}

/// An action and the key strings that trigger it.
#[derive(Debug)]
pub struct NavigationPresetBinding {
    pub action: NavigationAction,
    pub keys: Vec<String>,
}

/// Why a preset was not applied.
#[derive(Debug)]
pub enum NavigationPresetError {
    Toml(toml::de::Error),
    Issues(Vec<NavigationPresetIssue>),
    UnknownSection { section: String },
}

/// One problem found in a preset.
#[allow(inconsistent_fields)]
#[derive(Debug, Clone, PartialEq, Eq)]
pub enum NavigationPresetIssue {
    RootNotTable,
    SectionNotTable { section: String },
    ModeNotString { section: String },
    UnknownAction { section: String, action: String },
    BindingsNotStringList { section: String, action: String },
    EmptyBindings { section: String, action: String },
    InvalidBinding { section: String, action: NavigationAction, binding: String, source: ParseKeyError },
    DuplicateBinding {
        section: String,
        mode: String,
        binding: String,
        first_action: NavigationAction,
        second_action: NavigationAction,
    },
    ExistingBindingConflict {
        section: String,
        mode: String,
        binding: String,
        action: NavigationAction,
        existing_action: Option<NavigationAction>,
    },
}

impl NavigationPresetIssue {
    /// The issue as a sentence naming its section, and its action, mode or
    /// binding where it has one.
    pub fn message(&self) -> (r: String)
        ensures
            r@ == issue_text(issue_model(*self)),
    {
        match self {
            NavigationPresetIssue::RootNotTable => String::from_str(
                "keybinding preset must be a TOML table",
            ),
            NavigationPresetIssue::SectionNotTable { section } => {
                let mut s = String::from_str("keybinding section ");
                push_quoted(&mut s, section.as_str());
                s.append(" must be a table");
                s
            },
            NavigationPresetIssue::ModeNotString { section } => {
                let mut s = String::from_str("keybinding section ");
                push_quoted(&mut s, section.as_str());
                s.append(" has a non-string mode");
                s
            },
            NavigationPresetIssue::UnknownAction { section, action } => {
                let mut s = String::from_str("unknown navigation action ");
                push_quoted(&mut s, action.as_str());
                s.append(" in section ");
                push_quoted(&mut s, section.as_str());
                s
            },
            NavigationPresetIssue::BindingsNotStringList { section, action } => {
                let mut s = String::from_str("bindings for action ");
                push_quoted(&mut s, action.as_str());
                s.append(" in section ");
                push_quoted(&mut s, section.as_str());
                s.append(" must be a string or string list");
                s
            },
            NavigationPresetIssue::EmptyBindings { section, action } => {
                let mut s = String::from_str("action ");
                push_quoted(&mut s, action.as_str());
                s.append(" in section ");
                push_quoted(&mut s, section.as_str());
                s.append(" has no bindings");
                s
            },
            NavigationPresetIssue::InvalidBinding { section, action, binding, source } => {
                let mut s = String::from_str("invalid binding ");
                push_quoted(&mut s, binding.as_str());
                s.append(" for ");
                s.append(action.as_name());
                s.append(" in section ");
                push_quoted(&mut s, section.as_str());
                s.append(": ");
                let why = source.message();
                s.append(why.as_str());
                s
            },
            NavigationPresetIssue::DuplicateBinding {
                section,
                mode,
                binding,
                first_action,
                second_action,
            } => {
                let mut s = String::from_str("binding ");
                push_quoted(&mut s, binding.as_str());
                s.append(" in mode ");
                push_quoted(&mut s, mode.as_str());
                s.append(", section ");
                push_quoted(&mut s, section.as_str());
                s.append(" is assigned to both ");
                s.append(first_action.as_name());
                s.append(" and ");
                s.append(second_action.as_name());
                s
            },
            NavigationPresetIssue::ExistingBindingConflict {
                section,
                mode,
                binding,
                action,
                existing_action,
            } => {
                let mut s = String::from_str("binding ");
                push_quoted(&mut s, binding.as_str());
                s.append(" for ");
                s.append(action.as_name());
                s.append(" in mode ");
                push_quoted(&mut s, mode.as_str());
                s.append(", section ");
                push_quoted(&mut s, section.as_str());
                s.append(" conflicts with ");
                match existing_action {
                    Some(existing) => s.append(existing.as_name()),
                    None => s.append("an existing application action"),
                }
                s
            },
        }
    }
}

/// The issues' sentences, each after `"; "`.
pub open spec fn issues_tail(issues: Seq<NavigationPresetIssue>) -> Seq<char>
    decreases issues.len(),
{
    if issues.len() == 0 {
        Seq::empty()
    } else {
        issues_tail(issues.drop_last()) + "; "@ + issue_text(issue_model(issues.last()))
    }
}

impl NavigationPresetError {
    /// The error as a sentence: the TOML parser's description, the count of
    /// issues followed by each issue, or the unknown section quoted.
    pub fn message(&self) -> (r: String)
        ensures
            match self {
                NavigationPresetError::Toml(_) => exists|t: Seq<char>| r@ == "invalid TOML: "@ + t,
                NavigationPresetError::Issues(issues) => r@ == decimal(issues@.len()) + " keybinding preset issue(s)"@
                    + issues_tail(issues@),
                NavigationPresetError::UnknownSection { section } => r@ == "unknown keybinding section "@
                    + debug_text(section@),
            },
    {
        match self {
            NavigationPresetError::Toml(e) => {
                let mut s = String::from_str("invalid TOML: ");
                let detail = parse_error_description(e);
                s.append(detail.as_str());
                s
            },
            NavigationPresetError::Issues(issues) => {
                let mut s = decimal_string(issues.len());
                s.append(" keybinding preset issue(s)");
                let ghost head = s@;
                let mut i: usize = 0;
                while i < issues.len()
                    invariant
                        i <= issues@.len(),
                        s@ == head + issues_tail(issues@.take(i as int)),
                    decreases issues@.len() - i,
                {
                    s.append("; ");
                    let text = issues[i].message();
                    s.append(text.as_str());
                    proof {
                        let t = issues@.take(i + 1);
                        assert(t.drop_last() =~= issues@.take(i as int));
                        assert(t.last() == issues@[i as int]);
                    }
                    i = i + 1;
                }
                assert(issues@.take(issues@.len() as int) =~= issues@);
                s
            },
            NavigationPresetError::UnknownSection { section } => {
                let mut s = String::from_str("unknown keybinding section ");
                push_quoted(&mut s, section.as_str());
                s
            },
        }
    }
}

/// The sentence of an issue.
pub open spec fn issue_text(m: IssueModel) -> Seq<char> {
    match m {
        IssueModel::RootNotTable => "keybinding preset must be a TOML table"@,
        IssueModel::SectionNotTable(section) => "keybinding section "@ + debug_text(section)
            + " must be a table"@,
        IssueModel::ModeNotString(section) => "keybinding section "@ + debug_text(section)
            + " has a non-string mode"@,
        IssueModel::UnknownAction(section, action) => "unknown navigation action "@ + debug_text(
            action,
        ) + " in section "@ + debug_text(section),
        IssueModel::BindingsNotStringList(section, action) => "bindings for action "@ + debug_text(
            action,
        ) + " in section "@ + debug_text(section) + " must be a string or string list"@,
        IssueModel::EmptyBindings(section, action) => "action "@ + debug_text(action)
            + " in section "@ + debug_text(section) + " has no bindings"@,
        IssueModel::InvalidBinding(section, action, binding, source) => "invalid binding "@
            + debug_text(binding) + " for "@ + info_of(action).name@ + " in section "@ + debug_text(
            section,
        ) + ": "@ + parse_error_text(source),
        IssueModel::DuplicateBinding(section, mode, binding, first, second) => "binding "@
            + debug_text(binding) + " in mode "@ + debug_text(mode) + ", section "@ + debug_text(
            section,
        ) + " is assigned to both "@ + info_of(first).name@ + " and "@ + info_of(second).name@,
        IssueModel::ExistingBindingConflict(section, mode, binding, action, existing) => "binding "@
            + debug_text(binding) + " for "@ + info_of(action).name@ + " in mode "@ + debug_text(
            mode,
        ) + ", section "@ + debug_text(section) + " conflicts with "@ + match existing {
            Some(e) => info_of(e).name@,
            None => "an existing application action"@,
        },
    }
}

/// Whether a preset may replace keys that the registry already binds to
/// other actions.
#[derive(Debug, Clone, Copy, PartialEq, Eq, Structural)]
pub enum NavigationConflictPolicy {
    Allow,
    Deny,
}

/// An issue as plain values.
pub enum IssueModel {
    RootNotTable,
    SectionNotTable(Seq<char>),
    ModeNotString(Seq<char>),
    UnknownAction(Seq<char>, Seq<char>),
    BindingsNotStringList(Seq<char>, Seq<char>),
    EmptyBindings(Seq<char>, Seq<char>),
    InvalidBinding(Seq<char>, NavigationAction, Seq<char>, Option<Seq<char>>),
    DuplicateBinding(Seq<char>, Seq<char>, Seq<char>, NavigationAction, NavigationAction),
    ExistingBindingConflict(
        Seq<char>,
        Seq<char>,
        Seq<char>,
        NavigationAction,
        Option<NavigationAction>,
    ),
}

pub open spec fn issue_model(i: NavigationPresetIssue) -> IssueModel {
    match i {
        NavigationPresetIssue::RootNotTable => IssueModel::RootNotTable,
        NavigationPresetIssue::SectionNotTable { section } => IssueModel::SectionNotTable(section@),
        NavigationPresetIssue::ModeNotString { section } => IssueModel::ModeNotString(section@),
        NavigationPresetIssue::UnknownAction { section, action } => IssueModel::UnknownAction(
            section@,
            action@,
        ),
        NavigationPresetIssue::BindingsNotStringList { section, action } =>
            IssueModel::BindingsNotStringList(section@, action@),
        NavigationPresetIssue::EmptyBindings { section, action } => IssueModel::EmptyBindings(
            section@,
            action@,
        ),
        NavigationPresetIssue::InvalidBinding { section, action, binding, source } =>
            IssueModel::InvalidBinding(section@, action, binding@, error_model(source)),
        NavigationPresetIssue::DuplicateBinding {
            section,
            mode,
            binding,
            first_action,
            second_action,
        } => IssueModel::DuplicateBinding(section@, mode@, binding@, first_action, second_action),
        NavigationPresetIssue::ExistingBindingConflict {
            section,
            mode,
            binding,
            action,
            existing_action,
        } => IssueModel::ExistingBindingConflict(section@, mode@, binding@, action, existing_action),
    }
}

/// A copy of `i`.
pub fn copy_issue(i: &NavigationPresetIssue) -> (r: NavigationPresetIssue)
    ensures
        issue_model(r) == issue_model(*i),
{
    match i {
        NavigationPresetIssue::RootNotTable => NavigationPresetIssue::RootNotTable,
        NavigationPresetIssue::SectionNotTable { section } => NavigationPresetIssue::SectionNotTable {
            section: section.clone(),
        },
        NavigationPresetIssue::ModeNotString { section } => NavigationPresetIssue::ModeNotString {
            section: section.clone(),
        },
        NavigationPresetIssue::UnknownAction { section, action } => NavigationPresetIssue::UnknownAction {
            section: section.clone(),
            action: action.clone(),
        },
        NavigationPresetIssue::BindingsNotStringList { section, action } =>
            NavigationPresetIssue::BindingsNotStringList {
                section: section.clone(),
                action: action.clone(),
            },
        NavigationPresetIssue::EmptyBindings { section, action } => NavigationPresetIssue::EmptyBindings {
            section: section.clone(),
            action: action.clone(),
        },
        NavigationPresetIssue::InvalidBinding { section, action, binding, source } =>
            NavigationPresetIssue::InvalidBinding {
                section: section.clone(),
                action: *action,
                binding: binding.clone(),
                source: match source {
                    ParseKeyError::Empty => ParseKeyError::Empty,
                    ParseKeyError::UnknownKey(t) => ParseKeyError::UnknownKey(t.clone()),
                },
            },
        NavigationPresetIssue::DuplicateBinding {
            section,
            mode,
            binding,
            first_action,
            second_action,
        } => NavigationPresetIssue::DuplicateBinding {
            section: section.clone(),
            mode: mode.clone(),
            binding: binding.clone(),
            first_action: *first_action,
            second_action: *second_action,
        },
        NavigationPresetIssue::ExistingBindingConflict {
            section,
            mode,
            binding,
            action,
            existing_action,
        } => NavigationPresetIssue::ExistingBindingConflict {
            section: section.clone(),
            mode: mode.clone(),
            binding: binding.clone(),
            action: *action,
            existing_action: *existing_action,
        },
    }
}

pub open spec fn issue_models(s: Seq<NavigationPresetIssue>) -> Seq<IssueModel> {
    s.map_values(|i: NavigationPresetIssue| issue_model(i))
}

/// A binding as plain values: the action and its key strings.
pub open spec fn binding_model(b: NavigationPresetBinding) -> (NavigationAction, Seq<Seq<char>>) {
    (b.action, strings_view(b.keys@))
}

/// A section as plain values: name, mode, bindings.
pub open spec fn section_model(s: NavigationPresetSection) -> (
    Seq<char>,
    Seq<char>,
    Seq<(NavigationAction, Seq<Seq<char>>)>,
) {
    (s.name@, s.mode@, s.bindings@.map_values(|b: NavigationPresetBinding| binding_model(b)))
}

pub open spec fn section_models(s: Seq<NavigationPresetSection>) -> Seq<
    (Seq<char>, Seq<char>, Seq<(NavigationAction, Seq<Seq<char>>)>),
> {
    s.map_values(|x: NavigationPresetSection| section_model(x))
}

impl View for NavigationPreset {
    type V = Seq<(Seq<char>, Seq<char>, Seq<(NavigationAction, Seq<Seq<char>>)>)>;

    closed spec fn view(&self) -> Seq<(Seq<char>, Seq<char>, Seq<(NavigationAction, Seq<Seq<char>>)>)> {
        section_models(self.sections@)
    }
}

/// A section's mode: its `mode` string, or its name when `mode` is absent or
/// is not a string (the latter an issue).
pub open spec fn mode_of(name: Seq<char>, entries: Seq<(Seq<char>, TomlModel)>) -> (
    Seq<char>,
    Seq<IssueModel>,
) {
    match table_get(entries, "mode"@) {
        Some(TomlModel::Str(s)) => (s, Seq::empty()),
        Some(_) => (name, seq![IssueModel::ModeNotString(name)]),
        None => (name, Seq::empty()),
    }
}

/// A section's bindings and issues: each entry but `mode` names an action
/// and gives a non-empty string or string list.
pub open spec fn preset_bindings(section: Seq<char>, entries: Seq<(Seq<char>, TomlModel)>) -> (
    Seq<(NavigationAction, Seq<Seq<char>>)>,
    Seq<IssueModel>,
)
    decreases entries.len(),
{
    if entries.len() == 0 {
        (Seq::empty(), Seq::empty())
    } else {
        let name = entries[0].0;
        let value = entries[0].1;
        let rest = preset_bindings(section, entries.drop_first());
        if name == "mode"@ {
            rest
        } else {
            match parse_action_spec(name) {
                None => (rest.0, seq![IssueModel::UnknownAction(section, name)] + rest.1),
                Some(a) => match string_list(value) {
                    None => (rest.0, seq![IssueModel::BindingsNotStringList(section, name)] + rest.1),
                    Some(keys) => if keys.len() == 0 {
                        (rest.0, seq![IssueModel::EmptyBindings(section, name)] + rest.1)
                    } else {
                        (seq![(a, keys)] + rest.0, rest.1)
                    },
                },
            }
        }
    }
}

/// The sections and issues of a preset's root table entries.
pub open spec fn preset_sections(entries: Seq<(Seq<char>, TomlModel)>) -> (
    Seq<(Seq<char>, Seq<char>, Seq<(NavigationAction, Seq<Seq<char>>)>)>,
    Seq<IssueModel>,
)
    decreases entries.len(),
{
    if entries.len() == 0 {
        (Seq::empty(), Seq::empty())
    } else {
        let name = entries[0].0;
        let rest = preset_sections(entries.drop_first());
        match entries[0].1 {
            TomlModel::Table(es) => {
                let (mode, mode_issues) = mode_of(name, es);
                let (bs, b_issues) = preset_bindings(name, es);
                (seq![(name, mode, bs)] + rest.0, mode_issues + b_issues + rest.1)
            },
            _ => (rest.0, seq![IssueModel::SectionNotTable(name)] + rest.1),
        }
    }
}

/// One key string of a preset, with where it stands: section, mode, action.
pub type KeyEntry = (Seq<char>, Seq<char>, NavigationAction, Seq<char>);

/// The key strings of bindings `bs` of a section, in order.
pub open spec fn flat_bindings(
    section: Seq<char>,
    mode: Seq<char>,
    bs: Seq<(NavigationAction, Seq<Seq<char>>)>,
) -> Seq<KeyEntry>
    decreases bs.len(),
{
    if bs.len() == 0 {
        Seq::empty()
    } else {
        flat_bindings(section, mode, bs.drop_last()) + bs.last().1.map_values(
            |k: Seq<char>| (section, mode, bs.last().0, k),
        )
    }
}

/// Every key string of the sections, in order.
pub open spec fn flat_keys(
    sections: Seq<(Seq<char>, Seq<char>, Seq<(NavigationAction, Seq<Seq<char>>)>)>,
) -> Seq<KeyEntry>
    decreases sections.len(),
{
    if sections.len() == 0 {
        Seq::empty()
    } else {
        flat_keys(sections.drop_last()) + flat_bindings(
            sections.last().0,
            sections.last().1,
            sections.last().2,
        )
    }
}

/// The issues of key strings `es`, given the action each `(mode, chords)`
/// was first bound to: a key that does not parse, or one whose chords are
/// already bound in that mode to another action.
pub open spec fn key_issues_from(
    es: Seq<KeyEntry>,
    seen: Map<(Seq<char>, Seq<KeyChord>), NavigationAction>,
) -> Seq<IssueModel>
    decreases es.len(),
{
    if es.len() == 0 {
        Seq::empty()
    } else {
        let e = es[0];
        match binding_result(e.3) {
            Err(err) => seq![IssueModel::InvalidBinding(e.0, e.2, e.3, err)] + key_issues_from(
                es.drop_first(),
                seen,
            ),
            Ok(chords) => {
                let k = (e.1, chords);
                if seen.contains_key(k) {
                    if seen[k] != e.2 {
                        seq![IssueModel::DuplicateBinding(e.0, e.1, e.3, seen[k], e.2)]
                            + key_issues_from(es.drop_first(), seen)
                    } else {
                        key_issues_from(es.drop_first(), seen)
                    }
                } else {
                    key_issues_from(es.drop_first(), seen.insert(k, e.2))
                }
            },
        }
    }
}

/// The binding issues of a preset: invalid keys and keys bound twice in one
/// mode to different actions.
pub open spec fn binding_issues(
    sections: Seq<(Seq<char>, Seq<char>, Seq<(NavigationAction, Seq<Seq<char>>)>)>,
) -> Seq<IssueModel> {
    key_issues_from(flat_keys(sections), Map::empty())
}

/// A preset read from a TOML value: its sections, then every issue.
pub open spec fn preset_from_value(v: TomlModel) -> (
    Seq<(Seq<char>, Seq<char>, Seq<(NavigationAction, Seq<Seq<char>>)>)>,
    Seq<IssueModel>,
) {
    match v {
        TomlModel::Table(entries) => {
            let (secs, issues) = preset_sections(entries);
            (secs, issues + binding_issues(secs))
        },
        _ => (Seq::empty(), seq![IssueModel::RootNotTable]),
    }
}

fn section_mode(name: &String, entries: &Vec<(String, TomlValue)>, issues: &mut Vec<NavigationPresetIssue>) -> (r: String)
    ensures
        r@ == mode_of(name@, entries_model(entries@)).0,
        issue_models(final(issues)@) == issue_models(old(issues)@) + mode_of(
            name@,
            entries_model(entries@),
        ).1,
{
    let ghost before = issues@;
    match table_lookup(entries, "mode") {
        Some(TomlValue::Str(s)) => {
            assert(issue_models(issues@) =~= issue_models(before) + Seq::<IssueModel>::empty());
            s.clone()
        },
        Some(_) => {
            issues.push(NavigationPresetIssue::ModeNotString { section: name.clone() });
            assert(issue_models(issues@) =~= issue_models(before) + seq![
                IssueModel::ModeNotString(name@),
            ]);
            name.clone()
        },
        None => {
            assert(issue_models(issues@) =~= issue_models(before) + Seq::<IssueModel>::empty());
            name.clone()
        },
    }
}

fn section_bindings(
    section: &String,
    entries: &Vec<(String, TomlValue)>,
    issues: &mut Vec<NavigationPresetIssue>,
) -> (r: Vec<NavigationPresetBinding>)
    ensures
        r@.map_values(|b: NavigationPresetBinding| binding_model(b)) == preset_bindings(
            section@,
            entries_model(entries@),
        ).0,
        issue_models(final(issues)@) == issue_models(old(issues)@) + preset_bindings(
            section@,
            entries_model(entries@),
        ).1,
{
    let ghost em = entries_model(entries@);
    proof {
        lemma_entries_model(entries@);
    }
    let mut out: Vec<NavigationPresetBinding> = Vec::new();
    let ghost start = issues@;
    let mut i: usize = 0;
    assert(em.skip(0) =~= em);
    assert(issue_models(issues@) =~= issue_models(start) + Seq::<IssueModel>::empty());
    while i < entries.len()
        invariant
            i <= entries@.len(),
            em == entries_model(entries@),
            em.len() == entries@.len(),
            forall|j: int|
                0 <= j < entries@.len() ==> #[trigger] em[j] == (entries@[j].0@, entries@[j].1@),
            out@.map_values(|b: NavigationPresetBinding| binding_model(b)) + preset_bindings(
                section@,
                em.skip(i as int),
            ).0 == preset_bindings(section@, em).0,
            issue_models(issues@) + preset_bindings(section@, em.skip(i as int)).1
                == issue_models(start) + preset_bindings(section@, em).1,
        decreases entries@.len() - i,
    {
        let ghost rest = em.skip(i as int);
        let ghost bout = out@;
        let ghost bis = issues@;
        assert(rest[0] == em[i as int]);
        assert(rest.drop_first() =~= em.skip(i + 1));
        let ghost tail = preset_bindings(section@, em.skip(i + 1));
        let name = &entries[i].0;
        if str_eq(name.as_str(), "mode") {
            i = i + 1;
            continue;
        }
        match NavigationAction::parse_name(name.as_str()) {
            Err(_) => {
                issues.push(NavigationPresetIssue::UnknownAction {
                    section: section.clone(),
                    action: name.clone(),
                });
                assert(issue_models(issues@) =~= issue_models(bis).push(
                    IssueModel::UnknownAction(section@, name@),
                ));
                assert(issue_models(bis).push(IssueModel::UnknownAction(section@, name@)) + tail.1
                    =~= issue_models(bis) + (seq![IssueModel::UnknownAction(section@, name@)]
                    + tail.1));
            },
            Ok(action) => match string_list_of(&entries[i].1) {
                None => {
                    issues.push(NavigationPresetIssue::BindingsNotStringList {
                        section: section.clone(),
                        action: name.clone(),
                    });
                    assert(issue_models(issues@) =~= issue_models(bis).push(
                        IssueModel::BindingsNotStringList(section@, name@),
                    ));
                    assert(issue_models(bis).push(
                        IssueModel::BindingsNotStringList(section@, name@),
                    ) + tail.1 =~= issue_models(bis) + (seq![
                        IssueModel::BindingsNotStringList(section@, name@),
                    ] + tail.1));
                },
                Some(keys) => {
                    if keys.len() == 0 {
                        issues.push(NavigationPresetIssue::EmptyBindings {
                            section: section.clone(),
                            action: name.clone(),
                        });
                        assert(issue_models(issues@) =~= issue_models(bis).push(
                            IssueModel::EmptyBindings(section@, name@),
                        ));
                        assert(issue_models(bis).push(IssueModel::EmptyBindings(section@, name@))
                            + tail.1 =~= issue_models(bis) + (seq![
                            IssueModel::EmptyBindings(section@, name@),
                        ] + tail.1));
                    } else {
                        let b = NavigationPresetBinding { action, keys };
                        out.push(b);
                        assert(out@.map_values(|b: NavigationPresetBinding| binding_model(b))
                            =~= bout.map_values(|b: NavigationPresetBinding| binding_model(b)).push(
                            binding_model(b),
                        ));
                        assert(bout.map_values(|b: NavigationPresetBinding| binding_model(b)).push(
                            binding_model(b),
                        ) + tail.0 =~= bout.map_values(
                            |b: NavigationPresetBinding| binding_model(b),
                        ) + (seq![binding_model(b)] + tail.0));
                    }
                },
            },
        }
        i = i + 1;
    }
    assert(em.skip(i as int) =~= Seq::<(Seq<char>, TomlModel)>::empty());
    assert(out@.map_values(|b: NavigationPresetBinding| binding_model(b)) + Seq::<
        (NavigationAction, Seq<Seq<char>>),
    >::empty() =~= out@.map_values(|b: NavigationPresetBinding| binding_model(b)));
    assert(issue_models(issues@) + Seq::<IssueModel>::empty() =~= issue_models(issues@));
    out
}

fn sections_from_entries(entries: &Vec<(String, TomlValue)>, issues: &mut Vec<NavigationPresetIssue>) -> (r:
    Vec<NavigationPresetSection>)
    ensures
        section_models(r@) == preset_sections(entries_model(entries@)).0,
        issue_models(final(issues)@) == issue_models(old(issues)@) + preset_sections(
            entries_model(entries@),
        ).1,
{
    let ghost em = entries_model(entries@);
    proof {
        lemma_entries_model(entries@);
    }
    let mut out: Vec<NavigationPresetSection> = Vec::new();
    let ghost start = issues@;
    let mut i: usize = 0;
    assert(em.skip(0) =~= em);
    assert(issue_models(issues@) =~= issue_models(start) + Seq::<IssueModel>::empty());
    while i < entries.len()
        invariant
            i <= entries@.len(),
            em == entries_model(entries@),
            em.len() == entries@.len(),
            forall|j: int|
                0 <= j < entries@.len() ==> #[trigger] em[j] == (entries@[j].0@, entries@[j].1@),
            section_models(out@) + preset_sections(em.skip(i as int)).0 == preset_sections(em).0,
            issue_models(issues@) + preset_sections(em.skip(i as int)).1 == issue_models(start)
                + preset_sections(em).1,
        decreases entries@.len() - i,
    {
        let ghost rest = em.skip(i as int);
        let ghost sout = out@;
        let ghost bis = issues@;
        assert(rest[0] == em[i as int]);
        assert(rest.drop_first() =~= em.skip(i + 1));
        let ghost tail = preset_sections(em.skip(i + 1));
        let name = &entries[i].0;
        match &entries[i].1 {
            TomlValue::Table(section) => {
                let mode = section_mode(name, section, issues);
                let ghost mid = issues@;
                let bindings = section_bindings(name, section, issues);
                let sec = NavigationPresetSection { name: name.clone(), mode, bindings };
                out.push(sec);
                proof {
                    assert(section_models(out@) =~= section_models(sout).push(section_model(sec)));
                    assert(section_models(sout).push(section_model(sec)) + tail.0 =~= section_models(
                        sout,
                    ) + (seq![section_model(sec)] + tail.0));
                    let es = entries_model(section@);
                    assert(issue_models(issues@) + tail.1 =~= issue_models(bis) + (mode_of(
                        name@,
                        es,
                    ).1 + preset_bindings(name@, es).1 + tail.1));
                }
            },
            _ => {
                issues.push(NavigationPresetIssue::SectionNotTable { section: name.clone() });
                assert(issue_models(issues@) =~= issue_models(bis).push(
                    IssueModel::SectionNotTable(name@),
                ));
                assert(issue_models(bis).push(IssueModel::SectionNotTable(name@)) + tail.1
                    =~= issue_models(bis) + (seq![IssueModel::SectionNotTable(name@)] + tail.1));
            },
        }
        i = i + 1;
    }
    assert(em.skip(i as int) =~= Seq::<(Seq<char>, TomlModel)>::empty());
    assert(section_models(out@) + Seq::empty() =~= section_models(out@));
    assert(issue_models(issues@) + Seq::<IssueModel>::empty() =~= issue_models(issues@));
    out
}

pub open spec fn key_entry_model(e: (String, String, NavigationAction, String)) -> KeyEntry {
    (e.0@, e.1@, e.2, e.3@)
}

pub open spec fn key_entry_models(s: Seq<(String, String, NavigationAction, String)>) -> Seq<KeyEntry> {
    s.map_values(|e: (String, String, NavigationAction, String)| key_entry_model(e))
}

fn flatten_keys(sections: &Vec<NavigationPresetSection>) -> (r: Vec<(String, String, NavigationAction, String)>)
    ensures
        key_entry_models(r@) == flat_keys(section_models(sections@)),
{
    let ghost sm = section_models(sections@);
    let mut out: Vec<(String, String, NavigationAction, String)> = Vec::new();
    let mut si: usize = 0;
    assert(sm.take(0) =~= Seq::empty());
    assert(key_entry_models(out@) =~= Seq::empty());
    while si < sections.len()
        invariant
            si <= sections@.len(),
            sm == section_models(sections@),
            key_entry_models(out@) == flat_keys(sm.take(si as int)),
        decreases sections@.len() - si,
    {
        let sec = &sections[si];
        let ghost bsm = sec.bindings@.map_values(|b: NavigationPresetBinding| binding_model(b));
        assert(sm[si as int] == (sec.name@, sec.mode@, bsm));
        let mut bi: usize = 0;
        assert(bsm.take(0) =~= Seq::empty());
        assert(flat_keys(sm.take(si as int)) + flat_bindings(sec.name@, sec.mode@, bsm.take(0))
            =~= flat_keys(sm.take(si as int)));
        while bi < sec.bindings.len()
            invariant
                bi <= sec.bindings@.len(),
                bsm == sec.bindings@.map_values(|b: NavigationPresetBinding| binding_model(b)),
                key_entry_models(out@) == flat_keys(sm.take(si as int)) + flat_bindings(
                    sec.name@,
                    sec.mode@,
                    bsm.take(bi as int),
                ),
            decreases sec.bindings@.len() - bi,
        {
            let b = &sec.bindings[bi];
            let ghost km = strings_view(b.keys@);
            assert(bsm[bi as int] == (b.action, km));
            let ghost base = key_entry_models(out@);
            let mut ki: usize = 0;
            assert(base + km.take(0).map_values(|k: Seq<char>| (sec.name@, sec.mode@, b.action, k))
                =~= base);
            while ki < b.keys.len()
                invariant
                    ki <= b.keys@.len(),
                    km == strings_view(b.keys@),
                    key_entry_models(out@) == base + km.take(ki as int).map_values(
                        |k: Seq<char>| (sec.name@, sec.mode@, b.action, k),
                    ),
                decreases b.keys@.len() - ki,
            {
                let e = (sec.name.clone(), sec.mode.clone(), b.action, b.keys[ki].clone());
                let ghost before = out@;
                out.push(e);
                assert(key_entry_models(out@) =~= key_entry_models(before).push(key_entry_model(e)));
                ki = ki + 1;
                assert(key_entry_models(out@) =~= base + km.take(ki as int).map_values(
                    |k: Seq<char>| (sec.name@, sec.mode@, b.action, k),
                ));
            }
            assert(km.take(ki as int) =~= km);
            assert(bsm.take(bi + 1).drop_last() =~= bsm.take(bi as int));
            bi = bi + 1;
            assert(key_entry_models(out@) =~= flat_keys(sm.take(si as int)) + flat_bindings(
                sec.name@,
                sec.mode@,
                bsm.take(bi as int),
            ));
        }
        assert(bsm.take(bi as int) =~= bsm);
        assert(sm.take(si + 1).drop_last() =~= sm.take(si as int));
        si = si + 1;
    }
    assert(sm.take(si as int) =~= sm);
    out
}

/// The `(mode, chords)` keys already seen, with their first action.
pub open spec fn seen_model(s: Seq<(String, Vec<KeyChord>, NavigationAction)>) -> Seq<
    ((Seq<char>, Seq<KeyChord>), NavigationAction),
> {
    s.map_values(|e: (String, Vec<KeyChord>, NavigationAction)| ((e.0@, e.1@), e.2))
}

fn find_seen(seen: &Vec<(String, Vec<KeyChord>, NavigationAction)>, mode: &String, chords: &Vec<KeyChord>) -> (r:
    Option<usize>)
    requires
        distinct_keys(seen_model(seen@)),
    ensures
        match r {
            Some(j) => j < seen@.len() && seen_model(seen@)[j as int].0 == (mode@, chords@),
            None => !assoc(seen_model(seen@)).contains_key((mode@, chords@)),
        },
{
    let ghost sm = seen_model(seen@);
    proof {
        lemma_assoc_lookup(sm);
    }
    let mut j: usize = 0;
    while j < seen.len()
        invariant
            j <= seen@.len(),
            sm == seen_model(seen@),
            forall|q: int| 0 <= q < j ==> #[trigger] sm[q].0 != (mode@, chords@),
        decreases seen@.len() - j,
    {
        assert(sm[j as int] == ((seen@[j as int].0@, seen@[j as int].1@), seen@[j as int].2));
        if str_eq(seen[j].0.as_str(), mode.as_str()) && chords_equal(
            seen[j].1.as_slice(),
            chords.as_slice(),
        ) {
            return Some(j);
        }
        j = j + 1;
    }
    proof {
        if assoc(sm).contains_key((mode@, chords@)) {
            let q = choose|q: int| 0 <= q < sm.len() && sm[q].0 == (mode@, chords@);
            assert(sm[q].0 != (mode@, chords@));
        }
    }
    None
}

/// The binding issues of `sections`: each key string that does not parse,
/// and each that is bound in its mode to another action before it.
fn collect_binding_issues(sections: &Vec<NavigationPresetSection>) -> (r: Vec<NavigationPresetIssue>)
    ensures
        issue_models(r@) == binding_issues(section_models(sections@)),
{
    let flat = flatten_keys(sections);
    let ghost fm = key_entry_models(flat@);
    let mut issues: Vec<NavigationPresetIssue> = Vec::new();
    let mut seen: Vec<(String, Vec<KeyChord>, NavigationAction)> = Vec::new();
    let mut i: usize = 0;
    assert(fm.skip(0) =~= fm);
    assert(seen_model(seen@) =~= Seq::empty());
    assert(assoc(seen_model(seen@)) =~= Map::empty());
    assert(issue_models(issues@) + key_issues_from(fm, Map::empty()) =~= key_issues_from(
        fm,
        Map::empty(),
    ));
    while i < flat.len()
        invariant
            i <= flat@.len(),
            fm == key_entry_models(flat@),
            fm == flat_keys(section_models(sections@)),
            distinct_keys(seen_model(seen@)),
            issue_models(issues@) + key_issues_from(fm.skip(i as int), assoc(seen_model(seen@)))
                == key_issues_from(fm, Map::empty()),
        decreases flat@.len() - i,
    {
        let ghost rest = fm.skip(i as int);
        let ghost seen_map = assoc(seen_model(seen@));
        let ghost bis = issues@;
        assert(rest[0] == key_entry_model(flat@[i as int]));
        assert(rest.drop_first() =~= fm.skip(i + 1));
        let e = &flat[i];
        match try_parse_binding(e.3.as_str()) {
            Err(err) => {
                let ghost em = error_model(err);
                issues.push(NavigationPresetIssue::InvalidBinding {
                    section: e.0.clone(),
                    action: e.2,
                    binding: e.3.clone(),
                    source: err,
                });
                assert(issue_models(issues@) =~= issue_models(bis).push(
                    IssueModel::InvalidBinding(e.0@, e.2, e.3@, em),
                ));
                assert(issue_models(bis).push(IssueModel::InvalidBinding(e.0@, e.2, e.3@, em))
                    + key_issues_from(fm.skip(i + 1), seen_map) =~= issue_models(bis) + (seq![
                    IssueModel::InvalidBinding(e.0@, e.2, e.3@, em),
                ] + key_issues_from(fm.skip(i + 1), seen_map)));
            },
            Ok(chords) => {
                proof {
                    lemma_assoc_lookup(seen_model(seen@));
                }
                match find_seen(&seen, &e.1, &chords) {
                    Some(j) => {
                        assert(seen_map.contains_key((e.1@, chords@)));
                        assert(seen_map[(e.1@, chords@)] == seen@[j as int].2);
                        if seen[j].2 != e.2 {
                            let first = seen[j].2;
                            issues.push(NavigationPresetIssue::DuplicateBinding {
                                section: e.0.clone(),
                                mode: e.1.clone(),
                                binding: e.3.clone(),
                                first_action: first,
                                second_action: e.2,
                            });
                            let ghost dup = IssueModel::DuplicateBinding(e.0@, e.1@, e.3@, first, e.2);
                            assert(issue_models(issues@) =~= issue_models(bis).push(dup));
                            assert(issue_models(bis).push(dup) + key_issues_from(
                                fm.skip(i + 1),
                                seen_map,
                            ) =~= issue_models(bis) + (seq![dup] + key_issues_from(
                                fm.skip(i + 1),
                                seen_map,
                            )));
                        }
                    },
                    None => {
                        let ghost sm = seen_model(seen@);
                        proof {
                            lemma_assoc_push(sm, ((e.1@, chords@), e.2));
                        }
                        seen.push((e.1.clone(), chords, e.2));
                        assert(seen_model(seen@) =~= sm.push(((e.1@, chords@), e.2)));
                    },
                }
            },
        }
        i = i + 1;
    }
    assert(fm.skip(i as int) =~= Seq::<KeyEntry>::empty());
    assert(issue_models(issues@) + Seq::<IssueModel>::empty() =~= issue_models(issues@));
    issues
}

/// An error as plain values.
pub enum PresetErrorModel {
    Toml,
    Issues(Seq<IssueModel>),
    UnknownSection(Seq<char>),
}

pub open spec fn preset_error_model(e: NavigationPresetError) -> PresetErrorModel {
    match e {
        NavigationPresetError::Toml(_) => PresetErrorModel::Toml,
        NavigationPresetError::Issues(v) => PresetErrorModel::Issues(issue_models(v@)),
        NavigationPresetError::UnknownSection { section } => PresetErrorModel::UnknownSection(
            section@,
        ),
    }
}

/// What reading a preset's TOML text gives: the sections and every issue, or
/// `None` when the text is not TOML. Blank text is an empty preset.
pub open spec fn lenient_spec(source: Seq<char>) -> Option<
    (Seq<(Seq<char>, Seq<char>, Seq<(NavigationAction, Seq<Seq<char>>)>)>, Seq<IssueModel>),
> {
    if trim(source).len() == 0 {
        Some((Seq::empty(), Seq::empty()))
    } else {
        match toml_document(source) {
            None => None,
            Some(v) => Some(preset_from_value(v)),
        }
    }
}

/// The first section named `name`.
pub open spec fn section_named(
    sections: Seq<(Seq<char>, Seq<char>, Seq<(NavigationAction, Seq<Seq<char>>)>)>,
    name: Seq<char>,
) -> Option<int>
    decreases sections.len(),
{
    if sections.len() == 0 {
        None
    } else if sections[0].0 == name {
        Some(0)
    } else {
        match section_named(sections.drop_first(), name) {
            Some(i) => Some(i + 1),
            None => None,
        }
    }
}

proof fn lemma_section_named(
    sections: Seq<(Seq<char>, Seq<char>, Seq<(NavigationAction, Seq<Seq<char>>)>)>,
    name: Seq<char>,
)
    ensures
        match section_named(sections, name) {
            Some(i) => 0 <= i < sections.len() && sections[i].0 == name && forall|j: int|
                0 <= j < i ==> #[trigger] sections[j].0 != name,
            None => forall|j: int| 0 <= j < sections.len() ==> #[trigger] sections[j].0 != name,
        },
    decreases sections.len(),
{
    if sections.len() > 0 && sections[0].0 != name {
        let t = sections.drop_first();
        lemma_section_named(t, name);
        assert forall|j: int| 0 < j < sections.len() implies sections[j] == t[j - 1] by {}
    }
}

impl NavigationPreset {
    /// The preset a TOML value describes, with every issue found in it.
    pub fn from_toml_value(value: &TomlValue) -> (r: (NavigationPreset, Vec<NavigationPresetIssue>))
        ensures
            (r.0@, issue_models(r.1@)) == preset_from_value(value@),
    {
        let mut issues: Vec<NavigationPresetIssue> = Vec::new();
        match value {
            TomlValue::Table(entries) => {
                let sections = sections_from_entries(entries, &mut issues);
                let mut found = collect_binding_issues(&sections);
                let ghost first = issues@;
                let ghost fv = found@;
                issues.append(&mut found);
                assert(issue_models(issues@) =~= issue_models(first) + issue_models(fv));
                assert(issue_models(first) =~= Seq::empty() + preset_sections(
                    entries_model(entries@),
                ).1);
                (NavigationPreset { sections }, issues)
            },
            _ => {
                issues.push(NavigationPresetIssue::RootNotTable);
                let sections: Vec<NavigationPresetSection> = Vec::new();
                let r = NavigationPreset { sections };
                assert(r@ =~= Seq::empty());
                assert(issue_models(issues@) =~= seq![IssueModel::RootNotTable]);
                (r, issues)
            },
        }
    }

    /// Read a preset from TOML text, keeping it along with every issue
    /// found; only text that is not TOML is an error.
    pub fn from_toml_lenient(source: &str) -> (r: Result<
        (NavigationPreset, Vec<NavigationPresetIssue>),
        NavigationPresetError,
    >)
        ensures
            match lenient_spec(source@) {
                None => r matches Err(NavigationPresetError::Toml(_)),
                Some(m) => r matches Ok(p) && (p.0@, issue_models(p.1@)) == m,
            },
    {
        if crate::text::is_blank(source) {
            let r = NavigationPreset { sections: Vec::new() };
            let issues: Vec<NavigationPresetIssue> = Vec::new();
            assert(r@ =~= Seq::empty());
            assert(issue_models(issues@) =~= Seq::empty());
            return Ok((r, issues));
        }
        match parse_toml_document(source) {
            Ok(value) => Ok(Self::from_toml_value(&value)),
            Err(e) => Err(NavigationPresetError::Toml(e)),
        }
    }

    /// Read a preset from TOML text; any issue found makes it an error
    /// listing them all.
    pub fn from_toml(source: &str) -> (r: Result<NavigationPreset, NavigationPresetError>)
        ensures
            match lenient_spec(source@) {
                None => r matches Err(NavigationPresetError::Toml(_)),
                Some(m) => if m.1.len() == 0 {
                    r matches Ok(p) && p@ == m.0
                } else {
                    r matches Err(e) && preset_error_model(e) == PresetErrorModel::Issues(m.1)
                },
            },
    {
        let (preset, issues) = Self::from_toml_lenient(source)?;
        if issues.len() == 0 {
            return Ok(preset);
        }
        Err(NavigationPresetError::Issues(issues))
    }

    /// The sections, in order.
    pub fn sections(&self) -> (r: &[NavigationPresetSection])
        ensures
            section_models(r@) == self@,
    {
        self.sections.as_slice()
    }

    /// The first section named `name`.
    pub fn section(&self, name: &str) -> (r: Option<&NavigationPresetSection>)
        ensures
            match section_named(self@, name@) {
                Some(i) => r matches Some(s) && section_model(*s) == self@[i],
                None => r is None,
            },
    {
        let ghost sm = self@;
        proof {
            lemma_section_named(sm, name@);
        }
        let mut i: usize = 0;
        while i < self.sections.len()
            invariant
                i <= self.sections@.len(),
                sm == section_models(self.sections@),
                match section_named(sm, name@) {
                    Some(k) => 0 <= k < sm.len() && sm[k].0 == name@ && forall|j: int|
                        0 <= j < k ==> sm[j].0 != name@,
                    None => forall|j: int| 0 <= j < sm.len() ==> sm[j].0 != name@,
                },
                forall|j: int| 0 <= j < i ==> sm[j].0 != name@,
            decreases self.sections@.len() - i,
        {
            assert(sm[i as int].0 == self.sections@[i as int].name@);
            if str_eq(self.sections[i].name.as_str(), name) {
                return Some(&self.sections[i]);
            }
            i = i + 1;
        }
        None
    }

    /// Check the preset's keys: `Ok` when every key parses and no mode binds
    /// the same keys to two actions, else every such issue.
    pub fn validate(&self) -> (r: Result<(), NavigationPresetError>)
        ensures
            binding_issues(self@).len() == 0 ==> r is Ok,
            binding_issues(self@).len() > 0 ==> (r matches Err(e) && preset_error_model(e)
                == PresetErrorModel::Issues(binding_issues(self@))),
    {
        let issues = collect_binding_issues(&self.sections);
        if issues.len() == 0 {
            Ok(())
        } else {
            Err(NavigationPresetError::Issues(issues))
        }
    }

    /// Every invalid or doubly bound key of the preset.
    pub fn validation_issues(&self) -> (r: Vec<NavigationPresetIssue>)
        ensures
            issue_models(r@) == binding_issues(self@),
    {
        collect_binding_issues(&self.sections)
    }
}

/// The chords a key string stands for (empty when it does not parse).
pub open spec fn key_chords(k: Seq<char>) -> Seq<KeyChord> {
    match binding_result(k) {
        Ok(c) => c,
        Err(_) => Seq::empty(),
    }
}

/// `m` after binding each key string of `es`, in order, to its action.
pub open spec fn bind_map_keys<A: From<NavigationAction>>(m: Map<Seq<KeyChord>, A>, es: Seq<KeyEntry>) -> Map<
    Seq<KeyChord>,
    A,
>
    decreases es.len(),
{
    if es.len() == 0 {
        m
    } else {
        bind_map_keys(m.insert(key_chords(es[0].3), A::from_spec(es[0].2)), es.drop_first())
    }
}

/// `m` with each key entry bound, in order, to its own navigation action.
pub open spec fn bind_action_keys(m: Map<Seq<KeyChord>, NavigationAction>, es: Seq<KeyEntry>) -> Map<
    Seq<KeyChord>,
    NavigationAction,
>
    decreases es.len(),
{
    if es.len() == 0 {
        m
    } else {
        bind_action_keys(m.insert(key_chords(es[0].3), es[0].2), es.drop_first())
    }
}

/// The map of mode `mode` in `reg`, or an empty one.
pub open spec fn mode_map<A>(reg: Map<Seq<char>, Map<Seq<KeyChord>, A>>, mode: Seq<char>) -> Map<
    Seq<KeyChord>,
    A,
> {
    if reg.contains_key(mode) {
        reg[mode]
    } else {
        Map::empty()
    }
}

/// `reg` after binding each key string of `es`, in order, in its mode.
pub open spec fn bind_registry_keys<A: From<NavigationAction>>(
    reg: Map<Seq<char>, Map<Seq<KeyChord>, A>>,
    es: Seq<KeyEntry>,
) -> Map<Seq<char>, Map<Seq<KeyChord>, A>>
    decreases es.len(),
{
    if es.len() == 0 {
        reg
    } else {
        let e = es[0];
        bind_registry_keys(
            reg.insert(e.1, mode_map(reg, e.1).insert(key_chords(e.3), A::from_spec(e.2))),
            es.drop_first(),
        )
    }
}

proof fn lemma_valid_keys(es: Seq<KeyEntry>, seen: Map<(Seq<char>, Seq<KeyChord>), NavigationAction>)
    requires
        key_issues_from(es, seen).len() == 0,
    ensures
        forall|i: int| 0 <= i < es.len() ==> (#[trigger] binding_result(es[i].3)) is Ok,
    decreases es.len(),
{
    if es.len() > 0 {
        let e = es[0];
        match binding_result(e.3) {
            Err(_) => {},
            Ok(chords) => {
                let k = (e.1, chords);
                let next = if seen.contains_key(k) {
                    seen
                } else {
                    seen.insert(k, e.2)
                };
                lemma_valid_keys(es.drop_first(), next);
                assert forall|i: int| 0 < i < es.len() implies (#[trigger] binding_result(es[i].3)) is Ok by {
                    assert(es[i] == es.drop_first()[i - 1]);
                }
            },
        }
    }
}

fn chords_of_valid_key(key: &String) -> (r: Vec<KeyChord>)
    requires
        binding_result(key@) is Ok,
    ensures
        r@ == key_chords(key@),
{
    match try_parse_binding(key.as_str()) {
        Ok(c) => c,
        Err(_) => {
            assert(false);
            Vec::new()
        },
    }
}

fn copy_strings(v: &Vec<String>) -> (r: Vec<String>)
    ensures
        strings_view(r@) == strings_view(v@),
{
    let mut out: Vec<String> = Vec::new();
    let mut i: usize = 0;
    while i < v.len()
        invariant
            i <= v@.len(),
            strings_view(out@) == strings_view(v@).take(i as int),
        decreases v@.len() - i,
    {
        let ghost before = out@;
        out.push(v[i].clone());
        assert(strings_view(out@) =~= strings_view(before).push(v@[i as int]@));
        i = i + 1;
        assert(strings_view(out@) =~= strings_view(v@).take(i as int));
    }
    assert(strings_view(v@).take(i as int) =~= strings_view(v@));
    out
}

fn copy_section(s: &NavigationPresetSection) -> (r: NavigationPresetSection)
    ensures
        section_model(r) == section_model(*s),
{
    let mut bindings: Vec<NavigationPresetBinding> = Vec::new();
    let mut i: usize = 0;
    while i < s.bindings.len()
        invariant
            i <= s.bindings@.len(),
            bindings@.map_values(|b: NavigationPresetBinding| binding_model(b)) == s.bindings@.map_values(
                |b: NavigationPresetBinding| binding_model(b),
            ).take(i as int),
        decreases s.bindings@.len() - i,
    {
        let ghost before = bindings@;
        let b = NavigationPresetBinding { action: s.bindings[i].action, keys: copy_strings(&s.bindings[i].keys) };
        bindings.push(b);
        assert(bindings@.map_values(|b: NavigationPresetBinding| binding_model(b)) =~= before.map_values(
            |b: NavigationPresetBinding| binding_model(b),
        ).push(binding_model(s.bindings@[i as int])));
        i = i + 1;
        assert(bindings@.map_values(|b: NavigationPresetBinding| binding_model(b)) =~= s.bindings@.map_values(
            |b: NavigationPresetBinding| binding_model(b),
        ).take(i as int));
    }
    assert(s.bindings@.map_values(|b: NavigationPresetBinding| binding_model(b)).take(i as int)
        =~= s.bindings@.map_values(|b: NavigationPresetBinding| binding_model(b)));
    NavigationPresetSection { name: s.name.clone(), mode: s.mode.clone(), bindings }
}

/// The key strings of one section, with where they stand.
pub open spec fn section_keys(s: (Seq<char>, Seq<char>, Seq<(NavigationAction, Seq<Seq<char>>)>)) -> Seq<
    KeyEntry,
> {
    flat_keys(seq![s])
}

impl NavigationPresetSection {
    /// Every invalid or doubly bound key of this section.
    pub fn validation_issues(&self) -> (r: Vec<NavigationPresetIssue>)
        ensures
            issue_models(r@) == binding_issues(seq![section_model(*self)]),
    {
        let mut sections: Vec<NavigationPresetSection> = Vec::new();
        sections.push(copy_section(self));
        assert(section_models(sections@) =~= seq![section_model(*self)]);
        collect_binding_issues(&sections)
    }

    /// Check this section's keys, as [`NavigationPreset::validate`] does.
    pub fn validate(&self) -> (r: Result<(), NavigationPresetError>)
        ensures
            binding_issues(seq![section_model(*self)]).len() == 0 ==> r is Ok,
            binding_issues(seq![section_model(*self)]).len() > 0 ==> (r matches Err(e)
                && preset_error_model(e) == PresetErrorModel::Issues(
                binding_issues(seq![section_model(*self)]),
            )),
    {
        let issues = self.validation_issues();
        if issues.len() == 0 {
            Ok(())
        } else {
            Err(NavigationPresetError::Issues(issues))
        }
    }
}

impl NavigationPresetSection {
    fn bind_validated_to_map<A: From<NavigationAction>>(&self, map: &mut KeyMap<A>)
        requires
            old(map).wf(),
            forall|i: int|
                0 <= i < section_keys(section_model(*self)).len() ==> (#[trigger] binding_result(
                    section_keys(section_model(*self))[i].3,
                )) is Ok,
        ensures
            final(map).wf(),
            final(map).id_view() == old(map).id_view(),
            A::obeys_from_spec() ==> final(map)@ == bind_map_keys(
                old(map)@,
                section_keys(section_model(*self)),
            ),
    {
        let mut sections: Vec<NavigationPresetSection> = Vec::new();
        sections.push(copy_section(self));
        assert(section_models(sections@) =~= seq![section_model(*self)]);
        let flat = flatten_keys(&sections);
        let ghost fm = key_entry_models(flat@);
        let ghost start = map@;
        let mut i: usize = 0;
        assert(fm.skip(0) =~= fm);
        while i < flat.len()
            invariant
                i <= flat@.len(),
                fm == key_entry_models(flat@),
                fm == section_keys(section_model(*self)),
                forall|q: int| 0 <= q < fm.len() ==> (#[trigger] binding_result(fm[q].3)) is Ok,
                map.wf(),
                map.id_view() == old(map).id_view(),
                A::obeys_from_spec() ==> bind_map_keys(map@, fm.skip(i as int)) == bind_map_keys(
                    start,
                    fm,
                ),
                start == old(map)@,
            decreases flat@.len() - i,
        {
            assert(fm.skip(i as int)[0] == fm[i as int]);
            assert(fm.skip(i as int).drop_first() =~= fm.skip(i + 1));
            assert(binding_result(fm[i as int].3) is Ok);
            let chords = chords_of_valid_key(&flat[i].3);
            let action = A::from(flat[i].2);
            map.bind(chords, action);
            i = i + 1;
        }
        assert(fm.skip(i as int) =~= Seq::<KeyEntry>::empty());
    }

    /// Check this section, then bind each of its keys in `map`.
    pub fn bind_to_map<A: From<NavigationAction>>(&self, map: &mut KeyMap<A>) -> (r: Result<
        (),
        NavigationPresetError,
    >)
        requires
            old(map).wf(),
        ensures
            final(map).wf(),
            final(map).id_view() == old(map).id_view(),
            binding_issues(seq![section_model(*self)]).len() > 0 ==> (r matches Err(e)
                && preset_error_model(e) == PresetErrorModel::Issues(
                binding_issues(seq![section_model(*self)]),
            ) && final(map)@ == old(map)@),
            binding_issues(seq![section_model(*self)]).len() == 0 ==> r is Ok && (A::obeys_from_spec()
                ==> final(map)@ == bind_map_keys(old(map)@, section_keys(section_model(*self)))),
    {
        self.validate()?;
        proof {
            lemma_valid_keys(section_keys(section_model(*self)), Map::empty());
        }
        self.bind_validated_to_map(map);
        Ok(())
    }

    fn bind_validated_actions(&self, map: &mut KeyMap<NavigationAction>)
        requires
            old(map).wf(),
            forall|i: int|
                0 <= i < section_keys(section_model(*self)).len() ==> (#[trigger] binding_result(
                    section_keys(section_model(*self))[i].3,
                )) is Ok,
        ensures
            final(map).wf(),
            final(map).id_view() == old(map).id_view(),
            final(map)@ == bind_action_keys(old(map)@, section_keys(section_model(*self))),
    {
        let mut sections: Vec<NavigationPresetSection> = Vec::new();
        sections.push(copy_section(self));
        assert(section_models(sections@) =~= seq![section_model(*self)]);
        let flat = flatten_keys(&sections);
        let ghost fm = key_entry_models(flat@);
        let ghost start = map@;
        let mut i: usize = 0;
        assert(fm.skip(0) =~= fm);
        while i < flat.len()
            invariant
                i <= flat@.len(),
                fm == key_entry_models(flat@),
                fm == section_keys(section_model(*self)),
                forall|q: int| 0 <= q < fm.len() ==> (#[trigger] binding_result(fm[q].3)) is Ok,
                map.wf(),
                map.id_view() == old(map).id_view(),
                bind_action_keys(map@, fm.skip(i as int)) == bind_action_keys(start, fm),
                start == old(map)@,
            decreases flat@.len() - i,
        {
            assert(fm.skip(i as int)[0] == fm[i as int]);
            assert(fm.skip(i as int).drop_first() =~= fm.skip(i + 1));
            assert(binding_result(fm[i as int].3) is Ok);
            let chords = chords_of_valid_key(&flat[i].3);
            map.bind(chords, flat[i].2);
            i = i + 1;
        }
        assert(fm.skip(i as int) =~= Seq::<KeyEntry>::empty());
    }

    /// Check this section, then bind each of its keys in `map` to the
    /// navigation action itself.
    pub fn bind_actions_to_map(&self, map: &mut KeyMap<NavigationAction>) -> (r: Result<
        (),
        NavigationPresetError,
    >)
        requires
            old(map).wf(),
        ensures
            final(map).wf(),
            final(map).id_view() == old(map).id_view(),
            binding_issues(seq![section_model(*self)]).len() > 0 ==> (r matches Err(e)
                && preset_error_model(e) == PresetErrorModel::Issues(
                binding_issues(seq![section_model(*self)]),
            ) && final(map)@ == old(map)@),
            binding_issues(seq![section_model(*self)]).len() == 0 ==> r is Ok && final(map)@
                == bind_action_keys(old(map)@, section_keys(section_model(*self))),
    {
        self.validate()?;
        proof {
            lemma_valid_keys(section_keys(section_model(*self)), Map::empty());
        }
        self.bind_validated_actions(map);
        Ok(())
    }
}

/// The `(mode, action)` pairs a remap replaces: every binding's, when
/// remapping; none otherwise.
pub open spec fn replaced_pairs(
    sections: Seq<(Seq<char>, Seq<char>, Seq<(NavigationAction, Seq<Seq<char>>)>)>,
    remap: bool,
) -> Set<(Seq<char>, NavigationAction)> {
    if remap {
        Set::new(
            |p: (Seq<char>, NavigationAction)|
                exists|i: int| 0 <= i < flat_keys(sections).len() && (#[trigger] flat_keys(sections)[i]).1 == p.0
                    && flat_keys(sections)[i].2 == p.1,
        )
    } else {
        Set::empty()
    }
}

/// The keys of `es` that the registry already binds in their mode to an
/// action other than theirs, unless that action is a navigation action the
/// preset replaces in that mode.
pub open spec fn conflict_issues<A: From<NavigationAction> + PartialEq>(
    reg: Map<Seq<char>, Map<Seq<KeyChord>, A>>,
    es: Seq<KeyEntry>,
    replaced: Set<(Seq<char>, NavigationAction)>,
) -> Seq<IssueModel>
    decreases es.len(),
{
    if es.len() == 0 {
        Seq::empty()
    } else {
        let e = es[0];
        let rest = conflict_issues(reg, es.drop_first(), replaced);
        if !reg.contains_key(e.1) {
            rest
        } else {
            match binding_result(e.3) {
                Err(_) => rest,
                Ok(c) => if !reg[e.1].contains_key(c) {
                    rest
                } else {
                    let existing = reg[e.1][c];
                    if existing.eq_spec(&A::from_spec(e.2)) {
                        rest
                    } else {
                        let nav = first_encoded(existing, all_actions());
                        if nav matches Some(n) && replaced.contains((e.1, n)) {
                            rest
                        } else {
                            seq![IssueModel::ExistingBindingConflict(e.0, e.1, e.3, e.2, nav)] + rest
                        }
                    }
                },
            }
        }
    }
}

/// Every issue that stops a preset from being applied to `reg`: its own
/// binding issues, then, when conflicts are denied, its conflicts with `reg`.
pub open spec fn registry_issues<A: From<NavigationAction> + PartialEq>(
    sections: Seq<(Seq<char>, Seq<char>, Seq<(NavigationAction, Seq<Seq<char>>)>)>,
    reg: Map<Seq<char>, Map<Seq<KeyChord>, A>>,
    policy: NavigationConflictPolicy,
    remap: bool,
) -> Seq<IssueModel> {
    binding_issues(sections) + if policy == NavigationConflictPolicy::Deny {
        conflict_issues(reg, flat_keys(sections), replaced_pairs(sections, remap))
    } else {
        Seq::empty()
    }
}

fn pair_listed(pairs: &Vec<(String, NavigationAction)>, mode: &String, action: NavigationAction) -> (r: bool)
    ensures
        r == exists|i: int| 0 <= i < pairs@.len() && pairs@[i].0@ == mode@ && pairs@[i].1 == action,
{
    let mut i: usize = 0;
    while i < pairs.len()
        invariant
            i <= pairs@.len(),
            forall|q: int| 0 <= q < i ==> !(pairs@[q].0@ == mode@ && pairs@[q].1 == action),
        decreases pairs@.len() - i,
    {
        if pairs[i].1 == action && str_eq(pairs[i].0.as_str(), mode.as_str()) {
            return true;
        }
        i = i + 1;
    }
    false
}

fn collect_registry_conflicts<A: From<NavigationAction> + PartialEq>(
    sections: &Vec<NavigationPresetSection>,
    registry: &InputRegistry<A>,
    remap: bool,
) -> (r: Vec<NavigationPresetIssue>)
    requires
        registry.wf(),
    ensures
        A::obeys_eq_spec() && A::obeys_from_spec() ==> issue_models(r@) == conflict_issues(
            registry@,
            flat_keys(section_models(sections@)),
            replaced_pairs(section_models(sections@), remap),
        ),
{
    let flat = flatten_keys(sections);
    let ghost fm = key_entry_models(flat@);
    let ghost replaced = replaced_pairs(section_models(sections@), remap);
    let mut pairs: Vec<(String, NavigationAction)> = Vec::new();
    if remap {
        let mut j: usize = 0;
        while j < flat.len()
            invariant
                j <= flat@.len(),
                fm == key_entry_models(flat@),
                pairs@.len() == j,
                forall|q: int| 0 <= q < j ==> #[trigger] pairs@[q].0@ == fm[q].1 && pairs@[q].1 == fm[q].2,
            decreases flat@.len() - j,
        {
            pairs.push((flat[j].1.clone(), flat[j].2));
            j = j + 1;
        }
        assert forall|m: Seq<char>, a: NavigationAction| #[trigger] replaced.contains((m, a)) <==> exists|q: int|
            0 <= q < pairs@.len() && pairs@[q].0@ == m && pairs@[q].1 == a by {
            if replaced.contains((m, a)) {
                let q = choose|q: int| 0 <= q < fm.len() && (#[trigger] fm[q]).1 == m && fm[q].2 == a;
                assert(pairs@[q].0@ == fm[q].1);
            }
            if exists|q: int| 0 <= q < pairs@.len() && pairs@[q].0@ == m && pairs@[q].1 == a {
                let q = choose|q: int| 0 <= q < pairs@.len() && pairs@[q].0@ == m && pairs@[q].1 == a;
                assert(pairs@[q].0@ == fm[q].1);
                assert(replaced.contains((m, a)));
            }
        }
    }
    let mut issues: Vec<NavigationPresetIssue> = Vec::new();
    let mut i: usize = 0;
    assert(fm.skip(0) =~= fm);
    assert(issue_models(issues@) =~= Seq::empty());
    while i < flat.len()
        invariant
            i <= flat@.len(),
            registry.wf(),
            fm == key_entry_models(flat@),
            fm == flat_keys(section_models(sections@)),
            replaced == replaced_pairs(section_models(sections@), remap),
            forall|m: Seq<char>, a: NavigationAction| #[trigger] replaced.contains((m, a)) <==> exists|q: int|
                0 <= q < pairs@.len() && pairs@[q].0@ == m && pairs@[q].1 == a,
            A::obeys_eq_spec() && A::obeys_from_spec() ==> issue_models(issues@) + conflict_issues(
                registry@,
                fm.skip(i as int),
                replaced,
            ) == conflict_issues(registry@, fm, replaced),
        decreases flat@.len() - i,
    {
        let ghost bis = issues@;
        let ghost tail = conflict_issues(registry@, fm.skip(i + 1), replaced);
        assert(fm.skip(i as int)[0] == key_entry_model(flat@[i as int]));
        assert(fm.skip(i as int).drop_first() =~= fm.skip(i + 1));
        let e = &flat[i];
        match try_parse_binding(e.3.as_str()) {
            Err(_) => {},
            Ok(chords) => {
                if registry.has_mode(e.1.as_str()) {
                    match registry.binding_in(e.1.as_str(), chords.as_slice()) {
                        Some(existing) => {
                            let encoded = A::from(e.2);
                            if !(*existing == encoded) {
                                let nav = navigation_action_for(existing);
                                let skip = match nav {
                                    Some(n) => pair_listed(&pairs, &e.1, n),
                                    None => false,
                                };
                                if !skip {
                                    issues.push(NavigationPresetIssue::ExistingBindingConflict {
                                        section: e.0.clone(),
                                        mode: e.1.clone(),
                                        binding: e.3.clone(),
                                        action: e.2,
                                        existing_action: nav,
                                    });
                                    let ghost c = IssueModel::ExistingBindingConflict(e.0@, e.1@, e.3@, e.2, nav);
                                    assert(issue_models(issues@) =~= issue_models(bis).push(c));
                                    assert(issue_models(bis).push(c) + tail =~= issue_models(bis) + (seq![c] + tail));
                                }
                            }
                        },
                        None => {},
                    }
                }
            },
        }
        i = i + 1;
    }
    assert(fm.skip(i as int) =~= Seq::<KeyEntry>::empty());
    assert(issue_models(issues@) + Seq::<IssueModel>::empty() =~= issue_models(issues@));
    issues
}

/// The first navigation action whose `From` encoding equals `action`.
fn navigation_action_for<A: From<NavigationAction> + PartialEq>(action: &A) -> (r: Option<NavigationAction>)
    ensures
        A::obeys_eq_spec() && A::obeys_from_spec() ==> r == first_encoded(*action, all_actions()),
{
    let actions = NavigationAction::all();
    let mut i: usize = 0;
    assert(all_actions().skip(0) =~= all_actions());
    while i < actions.len()
        invariant
            i <= actions@.len(),
            actions@ == all_actions(),
            A::obeys_eq_spec() && A::obeys_from_spec() ==> first_encoded(*action, all_actions())
                == first_encoded(*action, all_actions().skip(i as int)),
        decreases actions@.len() - i,
    {
        let nav = actions[i];
        assert(all_actions().skip(i as int)[0] == nav);
        assert(all_actions().skip(i as int).drop_first() =~= all_actions().skip(i + 1));
        if *action == A::from(nav) {
            return Some(nav);
        }
        i = i + 1;
    }
    assert(all_actions().skip(13).len() == 0);
    None
}

/// `m` without the bindings whose action equals `a`.
pub open spec fn without_action<A: PartialEq>(m: Map<Seq<KeyChord>, A>, a: A) -> Map<Seq<KeyChord>, A> {
    m.restrict(m.dom().filter(|k: Seq<KeyChord>| !m[k].eq_spec(&a)))
}

/// `reg` after removing, for each key entry in turn, every binding of its
/// action in its mode.
pub open spec fn unbind_entries<A: From<NavigationAction> + PartialEq>(
    reg: Map<Seq<char>, Map<Seq<KeyChord>, A>>,
    es: Seq<KeyEntry>,
) -> Map<Seq<char>, Map<Seq<KeyChord>, A>>
    decreases es.len(),
{
    if es.len() == 0 {
        reg
    } else {
        let e = es[0];
        unbind_entries(
            reg.insert(e.1, without_action(mode_map(reg, e.1), A::from_spec(e.2))),
            es.drop_first(),
        )
    }
}

/// Every key of the preset parses.
pub open spec fn keys_parse(
    sections: Seq<(Seq<char>, Seq<char>, Seq<(NavigationAction, Seq<Seq<char>>)>)>,
) -> bool {
    forall|i: int|
        0 <= i < flat_keys(sections).len() ==> (#[trigger] binding_result(flat_keys(sections)[i].3)) is Ok
}

impl NavigationPreset {
    fn bind_all_validated<A: From<NavigationAction>>(&self, registry: &mut InputRegistry<A>)
        requires
            old(registry).wf(),
            keys_parse(self@),
        ensures
            final(registry).wf(),
            A::obeys_from_spec() ==> final(registry)@ == bind_registry_keys(
                old(registry)@,
                flat_keys(self@),
            ),
    {
        let flat = flatten_keys(&self.sections);
        let ghost fm = key_entry_models(flat@);
        let ghost start = registry@;
        let mut i: usize = 0;
        assert(fm.skip(0) =~= fm);
        while i < flat.len()
            invariant
                i <= flat@.len(),
                fm == key_entry_models(flat@),
                fm == flat_keys(self@),
                keys_parse(self@),
                registry.wf(),
                start == old(registry)@,
                A::obeys_from_spec() ==> bind_registry_keys(registry@, fm.skip(i as int))
                    == bind_registry_keys(start, fm),
            decreases flat@.len() - i,
        {
            assert(fm.skip(i as int)[0] == fm[i as int]);
            assert(fm.skip(i as int).drop_first() =~= fm.skip(i + 1));
            assert(binding_result(fm[i as int].3) is Ok);
            let chords = chords_of_valid_key(&flat[i].3);
            let action = A::from(flat[i].2);
            registry.map_mut(flat[i].1.as_str()).bind(chords, action);
            i = i + 1;
        }
        assert(fm.skip(i as int) =~= Seq::<KeyEntry>::empty());
    }

    /// Check the preset, then bind each of its keys in its section's mode.
    pub fn apply_to_registry<A: From<NavigationAction>>(&self, registry: &mut InputRegistry<A>) -> (r:
        Result<(), NavigationPresetError>)
        requires
            old(registry).wf(),
        ensures
            final(registry).wf(),
            binding_issues(self@).len() > 0 ==> (r matches Err(e) && preset_error_model(e)
                == PresetErrorModel::Issues(binding_issues(self@)) && final(registry)@ == old(registry)@),
            binding_issues(self@).len() == 0 ==> r is Ok && (A::obeys_from_spec() ==> final(registry)@ == bind_registry_keys(old(registry)@, flat_keys(self@))),
    {
        self.validate()?;
        proof {
            lemma_valid_keys(flat_keys(self@), Map::empty());
        }
        self.bind_all_validated(registry);
        Ok(())
    }

    /// Check the preset, and, when conflicts are denied, its keys against the
    /// bindings `registry` already has.
    pub fn validate_against_registry<A: From<NavigationAction> + PartialEq>(
        &self,
        registry: &InputRegistry<A>,
        conflict_policy: NavigationConflictPolicy,
        remap: bool,
    ) -> (r: Result<(), NavigationPresetError>)
        requires
            registry.wf(),
        ensures
            binding_issues(self@).len() > 0 ==> r is Err,
            r is Ok ==> binding_issues(self@).len() == 0,
            A::obeys_eq_spec() && A::obeys_from_spec() ==> {
                let issues = registry_issues(self@, registry@, conflict_policy, remap);
                &&& issues.len() == 0 ==> r is Ok
                &&& issues.len() > 0 ==> (r matches Err(e) && preset_error_model(e)
                    == PresetErrorModel::Issues(issues))
            },
    {
        let mut issues = collect_binding_issues(&self.sections);
        let ghost first = issues@;
        if conflict_policy == NavigationConflictPolicy::Deny {
            let mut more = collect_registry_conflicts(&self.sections, registry, remap);
            let ghost mv = more@;
            issues.append(&mut more);
            assert(issue_models(issues@) =~= issue_models(first) + issue_models(mv));
        } else {
            assert(issue_models(issues@) =~= issue_models(first) + Seq::empty());
        }
        if issues.len() == 0 {
            Ok(())
        } else {
            Err(NavigationPresetError::Issues(issues))
        }
    }

    /// Apply the preset unless it has issues or one of its keys is already
    /// bound in its mode to another action.
    pub fn apply_to_registry_checked<A: From<NavigationAction> + PartialEq>(
        &self,
        registry: &mut InputRegistry<A>,
    ) -> (r: Result<(), NavigationPresetError>)
        requires
            old(registry).wf(),
        ensures
            final(registry).wf(),
            r is Err ==> final(registry)@ == old(registry)@,
            binding_issues(self@).len() > 0 ==> r is Err,
            A::obeys_eq_spec() && A::obeys_from_spec() ==> {
                let issues = registry_issues(
                    self@,
                    old(registry)@,
                    NavigationConflictPolicy::Deny,
                    false,
                );
                &&& issues.len() > 0 ==> (r matches Err(e) && preset_error_model(e)
                    == PresetErrorModel::Issues(issues))
                &&& issues.len() == 0 ==> r is Ok && final(registry)@ == bind_registry_keys(
                    old(registry)@,
                    flat_keys(self@),
                )
            },
    {
        self.validate_against_registry(registry, NavigationConflictPolicy::Deny, false)?;
        proof {
            lemma_valid_keys(flat_keys(self@), Map::empty());
        }
        self.bind_all_validated(registry);
        Ok(())
    }

    /// Replace, in each mode the preset names, every binding of the actions
    /// it binds there with the preset's keys; refused when the preset has
    /// issues or a key is bound to an action the preset does not replace.
    pub fn remap_registry<A: From<NavigationAction> + PartialEq>(&self, registry: &mut InputRegistry<A>) -> (r:
        Result<(), NavigationPresetError>)
        requires
            old(registry).wf(),
        ensures
            final(registry).wf(),
            r is Err ==> final(registry)@ == old(registry)@,
            binding_issues(self@).len() > 0 ==> r is Err,
            A::obeys_eq_spec() && A::obeys_from_spec() ==> {
                let issues = registry_issues(
                    self@,
                    old(registry)@,
                    NavigationConflictPolicy::Deny,
                    true,
                );
                &&& issues.len() > 0 ==> (r matches Err(e) && preset_error_model(e)
                    == PresetErrorModel::Issues(issues))
                &&& issues.len() == 0 ==> r is Ok && final(registry)@ == bind_registry_keys(
                    unbind_entries(old(registry)@, flat_keys(self@)),
                    flat_keys(self@),
                )
            },
    {
        self.validate_against_registry(registry, NavigationConflictPolicy::Deny, true)?;
        proof {
            lemma_valid_keys(flat_keys(self@), Map::empty());
        }
        let flat = flatten_keys(&self.sections);
        let ghost fm = key_entry_models(flat@);
        let ghost start = registry@;
        let mut i: usize = 0;
        assert(fm.skip(0) =~= fm);
        while i < flat.len()
            invariant
                i <= flat@.len(),
                fm == key_entry_models(flat@),
                fm == flat_keys(self@),
                registry.wf(),
                start == old(registry)@,
                A::obeys_eq_spec() && A::obeys_from_spec() ==> unbind_entries(
                    registry@,
                    fm.skip(i as int),
                ) == unbind_entries(start, fm),
            decreases flat@.len() - i,
        {
            assert(fm.skip(i as int)[0] == fm[i as int]);
            assert(fm.skip(i as int).drop_first() =~= fm.skip(i + 1));
            let ghost before = registry@;
            let action = A::from(flat[i].2);
            let m = registry.map_mut(flat[i].1.as_str());
            let ghost old_m = m@;
            m.unbind_action(&action);
            proof {
                if A::obeys_eq_spec() && A::obeys_from_spec() {
                    let a = A::from_spec(fm[i as int].2);
                    assert(action == a);
                    let w = without_action(old_m, a);
                    assert forall|k: Seq<KeyChord>| #[trigger] m@.contains_key(k) <==> w.contains_key(k) by {
                        if m@.contains_key(k) {
                            assert(old_m.contains_key(k));
                        }
                    }
                    assert forall|k: Seq<KeyChord>| #[trigger] m@.contains_key(k) implies m@[k] == w[k] by {
                        assert(old_m.contains_key(k));
                    }
                    assert(m@ =~= w);
                }
            }
            i = i + 1;
        }
        assert(fm.skip(i as int) =~= Seq::<KeyEntry>::empty());
        self.bind_all_validated(registry);
        Ok(())
    }

    /// Bind the keys of section `name` into `map`, each to its own
    /// navigation action; the section must exist and be valid.
    pub fn bind_section_actions(&self, name: &str, map: &mut KeyMap<NavigationAction>) -> (r: Result<
        (),
        NavigationPresetError,
    >)
        requires
            old(map).wf(),
        ensures
            final(map).wf(),
            final(map).id_view() == old(map).id_view(),
            match section_named(self@, name@) {
                None => r matches Err(e) && preset_error_model(e) == PresetErrorModel::UnknownSection(
                    name@,
                ) && final(map)@ == old(map)@,
                Some(i) => {
                    let issues = binding_issues(seq![self@[i]]);
                    &&& issues.len() > 0 ==> (r matches Err(e) && preset_error_model(e)
                        == PresetErrorModel::Issues(issues) && final(map)@ == old(map)@)
                    &&& issues.len() == 0 ==> r is Ok && final(map)@ == bind_action_keys(
                        old(map)@,
                        section_keys(self@[i]),
                    )
                },
            },
    {
        match self.section(name) {
            None => Err(NavigationPresetError::UnknownSection { section: name.to_string() }),
            Some(section) => section.bind_actions_to_map(map),
        }
    }

    /// Bind the section named `name` into `map`.
    pub fn bind_section_to_map<A: From<NavigationAction>>(&self, name: &str, map: &mut KeyMap<A>) -> (r:
        Result<(), NavigationPresetError>)
        requires
            old(map).wf(),
        ensures
            final(map).wf(),
            final(map).id_view() == old(map).id_view(),
            match section_named(self@, name@) {
                None => r matches Err(e) && preset_error_model(e) == PresetErrorModel::UnknownSection(
                    name@,
                ) && final(map)@ == old(map)@,
                Some(i) => {
                    let issues = binding_issues(seq![self@[i]]);
                    &&& issues.len() > 0 ==> (r matches Err(e) && preset_error_model(e)
                        == PresetErrorModel::Issues(issues) && final(map)@ == old(map)@)
                    &&& issues.len() == 0 ==> r is Ok && (A::obeys_from_spec() ==> final(map)@
                        == bind_map_keys(old(map)@, section_keys(self@[i])))
                },
            },
    {
        match self.section(name) {
            None => Err(NavigationPresetError::UnknownSection { section: name.to_string() }),
            Some(section) => section.bind_to_map(map),
        }
    }
}

/// What reading a preset from TOML text and applying it to a registry
/// (or remapping the registry with it, when `remap`) does: text that is not
/// valid TOML, a preset with issues, and bindings that conflict with the
/// registry are refused and leave it unchanged; otherwise the preset's keys
/// are bound, after unbinding (when remapping) the keys of its actions.
pub open spec fn preset_toml_applied<A: From<NavigationAction> + PartialEq>(
    before: Map<Seq<char>, Map<Seq<KeyChord>, A>>,
    after: Map<Seq<char>, Map<Seq<KeyChord>, A>>,
    source: Seq<char>,
    remap: bool,
    r: Result<(), NavigationPresetError>,
) -> bool {
    &&& r is Err ==> after == before
    &&& match lenient_spec(source) {
        None => r matches Err(NavigationPresetError::Toml(_)),
        Some(m) => {
            &&& m.1.len() > 0 ==> (r matches Err(e) && preset_error_model(e) == PresetErrorModel::Issues(m.1))
            &&& m.1.len() == 0 && A::obeys_eq_spec() && A::obeys_from_spec() ==> {
                let issues = registry_issues(m.0, before, NavigationConflictPolicy::Deny, remap);
                &&& issues.len() > 0 ==> (r matches Err(e) && preset_error_model(e)
                    == PresetErrorModel::Issues(issues))
                &&& issues.len() == 0 ==> r is Ok && after == bind_registry_keys(
                    if remap {
                        unbind_entries(before, flat_keys(m.0))
                    } else {
                        before
                    },
                    flat_keys(m.0),
                )
            }
        },
    }
}

/// Read a preset from TOML text and apply it to `registry`, refusing keys
/// already bound to other actions.
pub fn apply_navigation_preset_toml<A: From<NavigationAction> + PartialEq>(
    registry: &mut InputRegistry<A>,
    source: &str,
) -> (r: Result<(), NavigationPresetError>)
    requires
        old(registry).wf(),
    ensures
        final(registry).wf(),
        preset_toml_applied(old(registry)@, final(registry)@, source@, false, r),
{
    let preset = NavigationPreset::from_toml(source)?;
    preset.apply_to_registry_checked(registry)
}

/// Read a preset from TOML text and remap `registry` with it.
pub fn remap_navigation_preset_toml<A: From<NavigationAction> + PartialEq>(
    registry: &mut InputRegistry<A>,
    source: &str,
) -> (r: Result<(), NavigationPresetError>)
    requires
        old(registry).wf(),
    ensures
        final(registry).wf(),
        preset_toml_applied(old(registry)@, final(registry)@, source@, true, r),
{
    let preset = NavigationPreset::from_toml(source)?;
    preset.remap_registry(registry)
}

} // verus!
