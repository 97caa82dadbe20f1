//! The unified keybinding configuration: `[keymap.<mode>]` tables and
//! root-level mode tables naming actions by string.

use vstd::prelude::*;
use crate::input::key::decimal;
use crate::input::key_sequence::{error_model, parse_error_text};
use crate::input::ParseKeyError;
use crate::keybindings::preset::{
    issue_models, issues_tail, mode_of, IssueModel, NavigationPresetError, NavigationPresetIssue,
};
use crate::keybindings::toml_value::{
    entries_model, lemma_entries_model, parse_error_description, parse_toml_document,
    render_error_description, string_list, string_list_of, table_get, table_lookup,
    toml_document, TomlModel, TomlValue,
};
use crate::runtime::ModeId;
use crate::text::{debug_text, is_blank, push_quoted, str_eq, strings_view, trim};

verus! {

/// Why a keybinding configuration could not be loaded.
#[derive(Debug)]
pub enum KeybindingConfigError {
    Toml(toml::de::Error),
    Serialize(toml::ser::Error),
    Navigation(NavigationPresetError),
    KeyBinding(ParseKeyError),
    CanvasPreset { preset: String },
    CanvasAction { action: String },
}

impl KeybindingConfigError {
    /// The error as a sentence: the layer that failed, then the underlying
    /// error's own message or the unknown name quoted.
    pub fn message(&self) -> (r: String)
        ensures
            match self {
                KeybindingConfigError::Toml(_) => exists|t: Seq<char>|
                    r@ == "invalid keybinding TOML: "@ + t,
                KeybindingConfigError::Serialize(_) => exists|t: Seq<char>|
                    r@ == "failed to serialize keybinding TOML section: "@ + t,
                KeybindingConfigError::Navigation(e) => exists|t: Seq<char>|
                    r@ == "invalid navigation keybindings: "@ + t && match e {
                        NavigationPresetError::Toml(_) => exists|d: Seq<char>| t == "invalid TOML: "@ + d,
                        NavigationPresetError::Issues(issues) => t == decimal(issues@.len())
                            + " keybinding preset issue(s)"@ + issues_tail(issues@),
                        NavigationPresetError::UnknownSection { section } => t
                            == "unknown keybinding section "@ + debug_text(section@),
                    },
                KeybindingConfigError::KeyBinding(e) => r@ == "invalid keybinding: "@ + parse_error_text(
                    error_model(*e),
                ),
                KeybindingConfigError::CanvasPreset { preset } => r@
                    == "unknown canvas keybinding preset "@ + debug_text(preset@),
                KeybindingConfigError::CanvasAction { action } => r@
                    == "unknown canvas keybinding action "@ + debug_text(action@),
            },
    {
        match self {
            KeybindingConfigError::Toml(e) => {
                let mut s = String::from_str("invalid keybinding TOML: ");
                let detail = parse_error_description(e);
                s.append(detail.as_str());
                s
            },
            KeybindingConfigError::Serialize(e) => {
                let mut s = String::from_str("failed to serialize keybinding TOML section: ");
                let detail = render_error_description(e);
                s.append(detail.as_str());
                s
            },
            KeybindingConfigError::Navigation(e) => {
                let mut s = String::from_str("invalid navigation keybindings: ");
                let detail = e.message();
                s.append(detail.as_str());
                s
            },
            KeybindingConfigError::KeyBinding(e) => {
                let mut s = String::from_str("invalid keybinding: ");
                let detail = e.message();
                s.append(detail.as_str());
                s
            },
            KeybindingConfigError::CanvasPreset { preset } => {
                let mut s = String::from_str("unknown canvas keybinding preset ");
                push_quoted(&mut s, preset.as_str());
                s
            },
            KeybindingConfigError::CanvasAction { action } => {
                let mut s = String::from_str("unknown canvas keybinding action ");
                push_quoted(&mut s, action.as_str());
                s
            },
        }
    }
}

/// Mode keybinding tables, parsed but with actions still named by string.
#[derive(Debug, Clone, PartialEq, Eq, Default)]
pub struct RawKeymap {
    pub sections: Vec<RawKeymapSection>,
}

/// One mode table: its name, the mode it binds in, and its bindings.
#[derive(Debug, Clone, PartialEq, Eq)]
pub struct RawKeymapSection {
    pub name: String,
    pub mode: String,
    pub bindings: Vec<RawKeymapBinding>,
}

/// An action name and the key strings bound to it.
#[derive(Debug, Clone, PartialEq, Eq)]
pub struct RawKeymapBinding {
    pub name: String,
    pub keys: Vec<String>,
}

/// A parsed configuration: the keymap and the malformed entries skipped.
#[derive(Debug, Clone, PartialEq, Eq)]
pub struct KeybindingConfig {
    pub keymap: RawKeymap,
    pub keymap_issues: Vec<NavigationPresetIssue>,
}

/// A mode whose bindings are inherited from another mode's action.
#[derive(Debug)]
pub struct KeybindingInheritance<A> {
    pub target_mode: ModeId,
    pub target_action: A,
    pub source_mode: ModeId,
    pub source_action: A,
}

impl<A> KeybindingInheritance<A> {
    pub fn new(target_mode: ModeId, target_action: A, source_mode: ModeId, source_action: A) -> (r:
        Self)
        ensures
            r.target_mode@ == target_mode@,
            r.target_action == target_action,
            r.source_mode@ == source_mode@,
            r.source_action == source_action,
    {
        KeybindingInheritance { target_mode, target_action, source_mode, source_action }
    }
}

/// A raw binding as plain values: action name and key strings.
pub type RawBindingModel = (Seq<char>, Seq<Seq<char>>);

/// A raw section as plain values: name, mode, bindings.
pub type RawSectionModel = (Seq<char>, Seq<char>, Seq<RawBindingModel>);

pub open spec fn raw_binding_model(b: RawKeymapBinding) -> RawBindingModel {
    (b.name@, strings_view(b.keys@))
}

pub open spec fn raw_section_model(s: RawKeymapSection) -> RawSectionModel {
    (s.name@, s.mode@, s.bindings@.map_values(|b: RawKeymapBinding| raw_binding_model(b)))
}

pub open spec fn raw_section_models(s: Seq<RawKeymapSection>) -> Seq<RawSectionModel> {
    s.map_values(|x: RawKeymapSection| raw_section_model(x))
}

/// A mode table's bindings and issues: each entry but `mode` gives a
/// non-empty string or string list.
pub open spec fn raw_bindings(section: Seq<char>, entries: Seq<(Seq<char>, TomlModel)>) -> (
    Seq<RawBindingModel>,
    Seq<IssueModel>,
)
    decreases entries.len(),
{
    if entries.len() == 0 {
        (Seq::empty(), Seq::empty())
    } else {
        let name = entries[0].0;
        let rest = raw_bindings(section, entries.drop_first());
        if name == "mode"@ {
            rest
        } else {
            match string_list(entries[0].1) {
                None => (rest.0, seq![IssueModel::BindingsNotStringList(section, name)] + rest.1),
                Some(keys) => if keys.len() == 0 {
                    (rest.0, seq![IssueModel::EmptyBindings(section, name)] + rest.1)
                } else {
                    (seq![(name, keys)] + rest.0, rest.1)
                },
            }
        }
    }
}

/// The mode tables of a table's entries; with `root`, the `keymap` and
/// `canvas` entries are not mode tables.
pub open spec fn raw_sections(entries: Seq<(Seq<char>, TomlModel)>, root: bool) -> (
    Seq<RawSectionModel>,
    Seq<IssueModel>,
)
    decreases entries.len(),
{
    if entries.len() == 0 {
        (Seq::empty(), Seq::empty())
    } else {
        let name = entries[0].0;
        let rest = raw_sections(entries.drop_first(), root);
        if root && (name == "keymap"@ || name == "canvas"@) {
            rest
        } else {
            match entries[0].1 {
                TomlModel::Table(es) => {
                    let (mode, mode_issues) = mode_of(name, es);
                    let (bs, b_issues) = raw_bindings(name, es);
                    (seq![(name, mode, bs)] + rest.0, mode_issues + b_issues + rest.1)
                },
                _ => (rest.0, seq![IssueModel::SectionNotTable(name)] + rest.1),
            }
        }
    }
}

/// The keymap of a configuration's root entries: the `[keymap]` table's mode
/// tables, then the root-level ones.
pub open spec fn keymap_of_root(root: Seq<(Seq<char>, TomlModel)>) -> (
    Seq<RawSectionModel>,
    Seq<IssueModel>,
) {
    let first = match table_get(root, "keymap"@) {
        None => (Seq::empty(), Seq::empty()),
        Some(TomlModel::Table(es)) => raw_sections(es, false),
        Some(_) => (Seq::empty(), seq![IssueModel::RootNotTable]),
    };
    let second = raw_sections(root, true);
    (first.0 + second.0, first.1 + second.1)
}

/// What loading a configuration gives: the keymap and its issues, or `None`
/// when the text is not TOML. Blank text, or a document that is not a
/// table, is an empty configuration.
pub open spec fn config_spec(source: Seq<char>) -> Option<(Seq<RawSectionModel>, Seq<IssueModel>)> {
    if trim(source).len() == 0 {
        Some(keymap_of_root(Seq::empty()))
    } else {
        match toml_document(source) {
            None => None,
            Some(TomlModel::Table(es)) => Some(keymap_of_root(es)),
            Some(_) => Some(keymap_of_root(Seq::empty())),
        }
    }
}

fn raw_section_bindings(
    section: &String,
    entries: &Vec<(String, TomlValue)>,
    issues: &mut Vec<NavigationPresetIssue>,
) -> (r: Vec<RawKeymapBinding>)
    ensures
        r@.map_values(|b: RawKeymapBinding| raw_binding_model(b)) == raw_bindings(
            section@,
            entries_model(entries@),
        ).0,
        issue_models(final(issues)@) == issue_models(old(issues)@) + raw_bindings(
            section@,
            entries_model(entries@),
        ).1,
{
    let ghost em = entries_model(entries@);
    proof {
        lemma_entries_model(entries@);
    }
    let mut out: Vec<RawKeymapBinding> = Vec::new();
    let ghost start = issues@;
    let mut i: usize = 0;
    assert(em.skip(0) =~= em);
    assert(issue_models(issues@) =~= issue_models(start) + Seq::<IssueModel>::empty());
    while i < entries.len()
        invariant
            i <= entries@.len(),
            em == entries_model(entries@),
            em.len() == entries@.len(),
            forall|j: int|
                0 <= j < entries@.len() ==> #[trigger] em[j] == (entries@[j].0@, entries@[j].1@),
            out@.map_values(|b: RawKeymapBinding| raw_binding_model(b)) + raw_bindings(
                section@,
                em.skip(i as int),
            ).0 == raw_bindings(section@, em).0,
            issue_models(issues@) + raw_bindings(section@, em.skip(i as int)).1 == issue_models(
                start,
            ) + raw_bindings(section@, em).1,
        decreases entries@.len() - i,
    {
        let ghost rest = em.skip(i as int);
        let ghost bout = out@;
        let ghost bis = issues@;
        assert(rest[0] == em[i as int]);
        assert(rest.drop_first() =~= em.skip(i + 1));
        let ghost tail = raw_bindings(section@, em.skip(i + 1));
        let name = &entries[i].0;
        if str_eq(name.as_str(), "mode") {
            i = i + 1;
            continue;
        }
        match string_list_of(&entries[i].1) {
            None => {
                issues.push(NavigationPresetIssue::BindingsNotStringList {
                    section: section.clone(),
                    action: name.clone(),
                });
                let ghost x = IssueModel::BindingsNotStringList(section@, name@);
                assert(issue_models(issues@) =~= issue_models(bis).push(x));
                assert(issue_models(bis).push(x) + tail.1 =~= issue_models(bis) + (seq![x]
                    + tail.1));
            },
            Some(keys) => {
                if keys.len() == 0 {
                    issues.push(NavigationPresetIssue::EmptyBindings {
                        section: section.clone(),
                        action: name.clone(),
                    });
                    let ghost x = IssueModel::EmptyBindings(section@, name@);
                    assert(issue_models(issues@) =~= issue_models(bis).push(x));
                    assert(issue_models(bis).push(x) + tail.1 =~= issue_models(bis) + (seq![x]
                        + tail.1));
                } else {
                    let b = RawKeymapBinding { name: name.clone(), keys };
                    out.push(b);
                    assert(out@.map_values(|b: RawKeymapBinding| raw_binding_model(b))
                        =~= bout.map_values(|b: RawKeymapBinding| raw_binding_model(b)).push(
                        raw_binding_model(b),
                    ));
                    assert(bout.map_values(|b: RawKeymapBinding| raw_binding_model(b)).push(
                        raw_binding_model(b),
                    ) + tail.0 =~= bout.map_values(|b: RawKeymapBinding| raw_binding_model(b))
                        + (seq![raw_binding_model(b)] + tail.0));
                }
            },
        }
        i = i + 1;
    }
    assert(em.skip(i as int) =~= Seq::<(Seq<char>, TomlModel)>::empty());
    assert(out@.map_values(|b: RawKeymapBinding| raw_binding_model(b)) + Seq::<
        RawBindingModel,
    >::empty() =~= out@.map_values(|b: RawKeymapBinding| raw_binding_model(b)));
    assert(issue_models(issues@) + Seq::<IssueModel>::empty() =~= issue_models(issues@));
    out
}

fn section_mode_of(name: &String, entries: &Vec<(String, TomlValue)>, issues: &mut Vec<NavigationPresetIssue>) -> (r:
    String)
    ensures
        r@ == mode_of(name@, entries_model(entries@)).0,
        issue_models(final(issues)@) == issue_models(old(issues)@) + mode_of(
            name@,
            entries_model(entries@),
        ).1,
{
    let ghost before = issues@;
    match table_lookup(entries, "mode") {
        Some(TomlValue::Str(s)) => {
            assert(issue_models(issues@) =~= issue_models(before) + Seq::<IssueModel>::empty());
            s.clone()
        },
        Some(_) => {
            issues.push(NavigationPresetIssue::ModeNotString { section: name.clone() });
            assert(issue_models(issues@) =~= issue_models(before) + seq![
                IssueModel::ModeNotString(name@),
            ]);
            name.clone()
        },
        None => {
            assert(issue_models(issues@) =~= issue_models(before) + Seq::<IssueModel>::empty());
            name.clone()
        },
    }
}

fn push_raw_sections(
    entries: &Vec<(String, TomlValue)>,
    root: bool,
    sections: &mut Vec<RawKeymapSection>,
    issues: &mut Vec<NavigationPresetIssue>,
)
    ensures
        raw_section_models(final(sections)@) == raw_section_models(old(sections)@) + raw_sections(
            entries_model(entries@),
            root,
        ).0,
        issue_models(final(issues)@) == issue_models(old(issues)@) + raw_sections(
            entries_model(entries@),
            root,
        ).1,
{
    let ghost em = entries_model(entries@);
    proof {
        lemma_entries_model(entries@);
    }
    let ghost start_s = sections@;
    let ghost start = issues@;
    let mut i: usize = 0;
    assert(em.skip(0) =~= em);
    assert(issue_models(issues@) =~= issue_models(start) + Seq::<IssueModel>::empty());
    assert(raw_section_models(sections@) =~= raw_section_models(start_s) + Seq::<
        RawSectionModel,
    >::empty());
    while i < entries.len()
        invariant
            i <= entries@.len(),
            em == entries_model(entries@),
            em.len() == entries@.len(),
            forall|j: int|
                0 <= j < entries@.len() ==> #[trigger] em[j] == (entries@[j].0@, entries@[j].1@),
            raw_section_models(sections@) + raw_sections(em.skip(i as int), root).0
                == raw_section_models(start_s) + raw_sections(em, root).0,
            issue_models(issues@) + raw_sections(em.skip(i as int), root).1 == issue_models(start)
                + raw_sections(em, root).1,
        decreases entries@.len() - i,
    {
        let ghost rest = em.skip(i as int);
        let ghost sout = sections@;
        let ghost bis = issues@;
        assert(rest[0] == em[i as int]);
        assert(rest.drop_first() =~= em.skip(i + 1));
        let ghost tail = raw_sections(em.skip(i + 1), root);
        let name = &entries[i].0;
        if root && (str_eq(name.as_str(), "keymap") || str_eq(name.as_str(), "canvas")) {
            i = i + 1;
            continue;
        }
        match &entries[i].1 {
            TomlValue::Table(section) => {
                let mode = section_mode_of(name, section, issues);
                let bindings = raw_section_bindings(name, section, issues);
                let sec = RawKeymapSection { name: name.clone(), mode, bindings };
                sections.push(sec);
                proof {
                    assert(raw_section_models(sections@) =~= raw_section_models(sout).push(
                        raw_section_model(sec),
                    ));
                    assert(raw_section_models(sout).push(raw_section_model(sec)) + tail.0
                        =~= raw_section_models(sout) + (seq![raw_section_model(sec)] + tail.0));
                    let es = entries_model(section@);
                    assert(issue_models(issues@) + tail.1 =~= issue_models(bis) + (mode_of(
                        name@,
                        es,
                    ).1 + raw_bindings(name@, es).1 + tail.1));
                }
            },
            _ => {
                issues.push(NavigationPresetIssue::SectionNotTable { section: name.clone() });
                let ghost x = IssueModel::SectionNotTable(name@);
                assert(issue_models(issues@) =~= issue_models(bis).push(x));
                assert(issue_models(bis).push(x) + tail.1 =~= issue_models(bis) + (seq![x]
                    + tail.1));
            },
        }
        i = i + 1;
    }
    assert(em.skip(i as int) =~= Seq::<(Seq<char>, TomlModel)>::empty());
    assert(raw_section_models(sections@) + Seq::empty() =~= raw_section_models(sections@));
    assert(issue_models(issues@) + Seq::<IssueModel>::empty() =~= issue_models(issues@));
}

impl RawKeymap {
    /// The keymap of a configuration's root entries.
    pub fn from_root(root: &Vec<(String, TomlValue)>) -> (r: (RawKeymap, Vec<NavigationPresetIssue>))
        ensures
            (raw_section_models(r.0.sections@), issue_models(r.1@)) == keymap_of_root(
                entries_model(root@),
            ),
    {
        let mut sections: Vec<RawKeymapSection> = Vec::new();
        let mut issues: Vec<NavigationPresetIssue> = Vec::new();
        assert(raw_section_models(sections@) =~= Seq::empty());
        assert(issue_models(issues@) =~= Seq::empty());
        match table_lookup(root, "keymap") {
            None => {},
            Some(TomlValue::Table(es)) => {
                push_raw_sections(es, false, &mut sections, &mut issues);
            },
            Some(_) => {
                issues.push(NavigationPresetIssue::RootNotTable);
                assert(issue_models(issues@) =~= seq![IssueModel::RootNotTable]);
            },
        }
        let ghost first_s = raw_section_models(sections@);
        let ghost first_i = issue_models(issues@);
        assert(first_s =~= Seq::empty() + first_s);
        push_raw_sections(root, true, &mut sections, &mut issues);
        (RawKeymap { sections }, issues)
    }
}

impl KeybindingConfig {
    /// Load a configuration from TOML text. Malformed entries are skipped
    /// and listed; only text that is not TOML is an error.
    pub fn from_toml(source: &str) -> (r: Result<KeybindingConfig, KeybindingConfigError>)
        ensures
            match config_spec(source@) {
                None => r matches Err(KeybindingConfigError::Toml(_)),
                Some(m) => r matches Ok(c) && raw_section_models(c.keymap.sections@) == m.0
                    && issue_models(c.keymap_issues@) == m.1,
            },
    {
        let empty: Vec<(String, TomlValue)> = Vec::new();
        assert(entries_model(empty@) =~= Seq::empty());
        let (keymap, keymap_issues) = if is_blank(source) {
            RawKeymap::from_root(&empty)
        } else {
            match parse_toml_document(source) {
                Err(e) => {
                    return Err(KeybindingConfigError::Toml(e));
                },
                Ok(TomlValue::Table(root)) => RawKeymap::from_root(&root),
                Ok(_) => RawKeymap::from_root(&empty),
            }
        };
        Ok(KeybindingConfig { keymap, keymap_issues })
    }
}

} // verus!
