//! The built-in editor-style presets and their TOML sources.

use vstd::prelude::*;
use vstd::std_specs::cmp::PartialEqSpec;
use vstd::std_specs::convert::FromSpec;
use crate::keybindings::action::{
    all_actions, effect_of, first_encoded, navigation_action_outcome,
    try_standard_navigation_action, NavigationAction,
};
use crate::input::KeyMap;
use crate::keybindings::preset::{
    binding_issues, bind_map_keys, lenient_spec, section_keys, section_named, KeyEntry,
    NavigationPreset, NavigationPresetError,
};
use crate::keybindings::toml_value::TomlValue;
use crate::runtime::ActionOutcome;
use crate::text::{debug_text, push_quoted, str_eq};

verus! {

/// The Vim preset's actions are the navigation actions.
pub type VimAction = NavigationAction;

/// An editor whose navigation keys ship with the crate.
#[derive(Debug, Clone, Copy, PartialEq, Eq, Hash, Structural)]
pub enum BuiltinNavigationPreset {
    Vim,
    Emacs,
    Helix,
}

/// A name that no built-in preset answers to.
#[derive(Debug, Clone, PartialEq, Eq)]
pub struct ParseBuiltinNavigationPresetError {
    name: String,
}

impl View for ParseBuiltinNavigationPresetError {
    type V = Seq<char>;

    closed spec fn view(&self) -> Seq<char> {
        self.name@
    }
}

impl ParseBuiltinNavigationPresetError {
    /// The name that was not recognised.
    pub fn name(&self) -> (r: &str)
        ensures
            r@ == self@,
    {
        self.name.as_str()
    }

    /// The error as a sentence, with the name quoted.
    pub fn message(&self) -> (r: String)
        ensures
            r@ == "unknown navigation preset "@ + debug_text(self@),
    {
        let mut s = String::from_str("unknown navigation preset ");
        push_quoted(&mut s, self.name.as_str());
        s
    }
}

/// The preset's config name.
pub open spec fn preset_name(p: BuiltinNavigationPreset) -> &'static str {
    match p {
        BuiltinNavigationPreset::Vim => "vim",
        BuiltinNavigationPreset::Emacs => "emacs",
        BuiltinNavigationPreset::Helix => "helix",
    }
}

/// The preset a name denotes, compared exactly.
pub open spec fn preset_named(n: Seq<char>) -> Option<BuiltinNavigationPreset> {
    if n == "vim"@ {
        Some(BuiltinNavigationPreset::Vim)
    } else if n == "emacs"@ {
        Some(BuiltinNavigationPreset::Emacs)
    } else if n == "helix"@ {
        Some(BuiltinNavigationPreset::Helix)
    } else {
        None
    }
}

/// The TOML source of the preset.
pub open spec fn preset_source(p: BuiltinNavigationPreset) -> &'static str {
    match p {
        BuiltinNavigationPreset::Vim => vim_source(),
        BuiltinNavigationPreset::Emacs => emacs_source(),
        BuiltinNavigationPreset::Helix => helix_source(),
    }
}

pub open spec fn vim_source() -> &'static str {
    "[general]\nmode = \"general\"\nfocus_next = [\"j\", \"l\", \"down\", \"tab\"]\nfocus_prev = [\"k\", \"h\", \"up\", \"shift+tab\", \"backtab\"]\nactivate = \"enter\"\nleave_section = \"esc\"\n\n[global]\nmode = \"global\"\nquit = \"ctrl+c\"\n\n[navigation]\nmode = \"general\"\nnext_buffer = \"]\"\nprev_buffer = \"[\"\nclose_buffer = \"x\"\nnext_pane = \"ctrl+n\"\nprev_pane = \"ctrl+p\"\nclose_pane = \"ctrl+w\"\nsplit_vertical = \"ctrl+s\"\nsplit_horizontal = \"ctrl+d\"\n"
}

pub open spec fn emacs_source() -> &'static str {
    "[general]\nmode = \"general\"\nfocus_next = [\"ctrl+n\", \"ctrl+f\", \"down\", \"right\", \"tab\"]\nfocus_prev = [\"ctrl+p\", \"ctrl+b\", \"up\", \"left\", \"shift+tab\", \"backtab\"]\nactivate = \"enter\"\nleave_section = [\"esc\", \"ctrl+g\"]\n\n[global]\nmode = \"global\"\nquit = \"ctrl+x ctrl+c\"\n\n[navigation]\nmode = \"general\"\nnext_pane = \"ctrl+x o\"\nclose_pane = \"ctrl+x 0\"\nsplit_horizontal = \"ctrl+x 2\"\nsplit_vertical = \"ctrl+x 3\"\nprev_buffer = \"ctrl+x left\"\nnext_buffer = \"ctrl+x right\"\n"
}

pub open spec fn helix_source() -> &'static str {
    "[general]\nmode = \"general\"\nfocus_next = [\"j\", \"l\", \"down\", \"tab\"]\nfocus_prev = [\"k\", \"h\", \"up\", \"shift+tab\", \"backtab\"]\nactivate = \"enter\"\nleave_section = \"esc\"\n\n[global]\nmode = \"global\"\nquit = \"ctrl+c\"\n\n[navigation]\nmode = \"general\"\nnext_buffer = \"g n\"\nprev_buffer = \"g p\"\nclose_buffer = \"space b c\"\nnext_pane = \"ctrl+w w\"\nprev_pane = \"ctrl+w p\"\nclose_pane = \"ctrl+w q\"\nsplit_vertical = \"ctrl+w v\"\nsplit_horizontal = \"ctrl+w s\"\n"
}

impl BuiltinNavigationPreset {
    /// The preset's config name.
    pub fn as_name(&self) -> (r: &'static str)
        ensures
            r == preset_name(*self),
    {
        match self {
            BuiltinNavigationPreset::Vim => "vim",
            BuiltinNavigationPreset::Emacs => "emacs",
            BuiltinNavigationPreset::Helix => "helix",
        }
    }

    /// The preset's config name, owned.
    pub fn to_string(&self) -> (r: String)
        ensures
            r@ == preset_name(*self)@,
    {
        self.as_name().to_string()
    }

    /// The preset a config name denotes; names are compared exactly.
    pub fn parse_name(name: &str) -> (r: Result<BuiltinNavigationPreset, ParseBuiltinNavigationPresetError>)
        ensures
            match r {
                Ok(p) => preset_named(name@) == Some(p),
                Err(e) => preset_named(name@) is None && e@ == name@,
            },
    {
        if str_eq(name, "vim") {
            Ok(BuiltinNavigationPreset::Vim)
        } else if str_eq(name, "emacs") {
            Ok(BuiltinNavigationPreset::Emacs)
        } else if str_eq(name, "helix") {
            Ok(BuiltinNavigationPreset::Helix)
        } else {
            Err(ParseBuiltinNavigationPresetError { name: name.to_string() })
        }
    }

    /// The preset's TOML source.
    pub fn toml(&self) -> (r: &'static str)
        ensures
            r == preset_source(*self),
    {
        match self {
            BuiltinNavigationPreset::Vim => vim_preset_toml(),
            BuiltinNavigationPreset::Emacs => emacs_preset_toml(),
            BuiltinNavigationPreset::Helix => helix_preset_toml(),
        }
    }
}

impl std::str::FromStr for BuiltinNavigationPreset {
    type Err = ParseBuiltinNavigationPresetError;

    fn from_str(name: &str) -> Result<Self, Self::Err> {
        BuiltinNavigationPreset::parse_name(name)
    }
}

/// Every preset's name parses back to the preset.
pub proof fn lemma_preset_name_round_trip(p: BuiltinNavigationPreset)
    ensures
        preset_named(preset_name(p)@) == Some(p),
{
    reveal_strlit("vim");
    reveal_strlit("emacs");
    reveal_strlit("helix");
    match p {
        BuiltinNavigationPreset::Vim => {},
        BuiltinNavigationPreset::Emacs => {
            assert("emacs"@.len() != "vim"@.len());
        },
        BuiltinNavigationPreset::Helix => {
            assert("helix"@.len() != "vim"@.len());
            assert("helix"@[0] != "emacs"@[0]);
        },
    }
}

/// The Vim preset's TOML source.
pub fn vim_preset_toml() -> (r: &'static str)
    ensures
        r == vim_source(),
{
    "[general]\nmode = \"general\"\nfocus_next = [\"j\", \"l\", \"down\", \"tab\"]\nfocus_prev = [\"k\", \"h\", \"up\", \"shift+tab\", \"backtab\"]\nactivate = \"enter\"\nleave_section = \"esc\"\n\n[global]\nmode = \"global\"\nquit = \"ctrl+c\"\n\n[navigation]\nmode = \"general\"\nnext_buffer = \"]\"\nprev_buffer = \"[\"\nclose_buffer = \"x\"\nnext_pane = \"ctrl+n\"\nprev_pane = \"ctrl+p\"\nclose_pane = \"ctrl+w\"\nsplit_vertical = \"ctrl+s\"\nsplit_horizontal = \"ctrl+d\"\n"
}

/// The Emacs preset's TOML source.
pub fn emacs_preset_toml() -> (r: &'static str)
    ensures
        r == emacs_source(),
{
    "[general]\nmode = \"general\"\nfocus_next = [\"ctrl+n\", \"ctrl+f\", \"down\", \"right\", \"tab\"]\nfocus_prev = [\"ctrl+p\", \"ctrl+b\", \"up\", \"left\", \"shift+tab\", \"backtab\"]\nactivate = \"enter\"\nleave_section = [\"esc\", \"ctrl+g\"]\n\n[global]\nmode = \"global\"\nquit = \"ctrl+x ctrl+c\"\n\n[navigation]\nmode = \"general\"\nnext_pane = \"ctrl+x o\"\nclose_pane = \"ctrl+x 0\"\nsplit_horizontal = \"ctrl+x 2\"\nsplit_vertical = \"ctrl+x 3\"\nprev_buffer = \"ctrl+x left\"\nnext_buffer = \"ctrl+x right\"\n"
}

/// The Helix preset's TOML source.
pub fn helix_preset_toml() -> (r: &'static str)
    ensures
        r == helix_source(),
{
    "[general]\nmode = \"general\"\nfocus_next = [\"j\", \"l\", \"down\", \"tab\"]\nfocus_prev = [\"k\", \"h\", \"up\", \"shift+tab\", \"backtab\"]\nactivate = \"enter\"\nleave_section = \"esc\"\n\n[global]\nmode = \"global\"\nquit = \"ctrl+c\"\n\n[navigation]\nmode = \"general\"\nnext_buffer = \"g n\"\nprev_buffer = \"g p\"\nclose_buffer = \"space b c\"\nnext_pane = \"ctrl+w w\"\nprev_pane = \"ctrl+w p\"\nclose_pane = \"ctrl+w q\"\nsplit_vertical = \"ctrl+w v\"\nsplit_horizontal = \"ctrl+w s\"\n"
}

/// The standard outcome for `action` when it encodes a [`VimAction`].
pub fn try_standard_vim_action<A: PartialEq + From<VimAction>, V, O, M>(action: &A) -> (r: Option<
    ActionOutcome<V, O, M>,
>)
    ensures
        A::obeys_eq_spec() && A::obeys_from_spec() ==> match first_encoded(*action, all_actions()) {
            Some(n) => r matches Some(o) && o.effects@ == seq![effect_of::<V, O, M>(n)],
            None => r is None,
        },
        r matches Some(o) ==> exists|i: int|
            0 <= i < 13 && o.effects@ == seq![effect_of::<V, O, M>(#[trigger] all_actions()[i])],
{
    try_standard_navigation_action(action)
}

/// The outcome that applies `action`'s effect and nothing else.
pub fn vim_action_outcome<V, O, M>(action: VimAction) -> (r: ActionOutcome<V, O, M>)
    ensures
        r.effects@ == seq![effect_of::<V, O, M>(action)],
{
    navigation_action_outcome(action)
}

/// The preset's TOML source reads without issues.
pub open spec fn builtin_valid(p: BuiltinNavigationPreset) -> bool {
    lenient_spec(preset_source(p)@) matches Some(m) && m.1.len() == 0
}

/// The preset reads without issues and has a section named `name` whose keys
/// are all valid.
pub open spec fn builtin_section_ready(p: BuiltinNavigationPreset, name: Seq<char>) -> bool {
    &&& lenient_spec(preset_source(p)@) matches Some(m)
    &&& m.1.len() == 0
    &&& section_named(m.0, name) matches Some(i)
    &&& binding_issues(seq![m.0[i]]).len() == 0
}

/// The keys of section `name` of the preset.
pub open spec fn builtin_section_keys(p: BuiltinNavigationPreset, name: Seq<char>) -> Seq<KeyEntry> {
    let m = lenient_spec(preset_source(p)@)->Some_0;
    section_keys(m.0[section_named(m.0, name)->Some_0])
}

impl BuiltinNavigationPreset {
    /// The preset its TOML source describes.
    pub fn preset(self) -> (r: NavigationPreset)
        requires
            builtin_valid(self),
        ensures
            r@ == lenient_spec(preset_source(self)@)->Some_0.0,
    {
        match NavigationPreset::from_toml(self.toml()) {
            Ok(p) => p,
            Err(_) => {
                assert(false);
                NavigationPreset::from_toml_value(&TomlValue::Other).0
            },
        }
    }

    /// The preset its TOML source describes, or why it cannot be read.
    pub fn try_preset(self) -> (r: Result<NavigationPreset, NavigationPresetError>)
        ensures
            builtin_valid(self) ==> (r matches Ok(p) && p@ == lenient_spec(preset_source(self)@)->Some_0.0),
            !builtin_valid(self) ==> r is Err,
    {
        match NavigationPreset::from_toml(self.toml()) {
            Ok(_) => Ok(self.preset()),
            Err(e) => Err(e),
        }
    }
}

fn bind_builtin_section<A: From<NavigationAction>>(preset: BuiltinNavigationPreset, name: &str, map: &mut KeyMap<A>)
    requires
        old(map).wf(),
        builtin_section_ready(preset, name@),
    ensures
        final(map).wf(),
        final(map).id_view() == old(map).id_view(),
        A::obeys_from_spec() ==> final(map)@ == bind_map_keys(
            old(map)@,
            builtin_section_keys(preset, name@),
        ),
{
    let p = preset.preset();
    match p.bind_section_to_map(name, map) {
        Ok(()) => {},
        Err(_) => {
            assert(false);
        },
    }
}

/// Bind the preset's `general` section into `map`.
pub fn bind_builtin_general_defaults<A: From<NavigationAction>>(preset: BuiltinNavigationPreset, map: &mut KeyMap<A>)
    requires
        old(map).wf(),
        builtin_section_ready(preset, "general"@),
    ensures
        final(map).wf(),
        final(map).id_view() == old(map).id_view(),
        A::obeys_from_spec() ==> final(map)@ == bind_map_keys(
            old(map)@,
            builtin_section_keys(preset, "general"@),
        ),
{
    bind_builtin_section(preset, "general", map)
}

/// Bind the preset's `global` section into `map`.
pub fn bind_builtin_global_defaults<A: From<NavigationAction>>(preset: BuiltinNavigationPreset, map: &mut KeyMap<A>)
    requires
        old(map).wf(),
        builtin_section_ready(preset, "global"@),
    ensures
        final(map).wf(),
        final(map).id_view() == old(map).id_view(),
        A::obeys_from_spec() ==> final(map)@ == bind_map_keys(
            old(map)@,
            builtin_section_keys(preset, "global"@),
        ),
{
    bind_builtin_section(preset, "global", map)
}

/// Bind the preset's `navigation` section into `map`.
pub fn bind_builtin_navigation_defaults<A: From<NavigationAction>>(
    preset: BuiltinNavigationPreset,
    map: &mut KeyMap<A>,
)
    requires
        old(map).wf(),
        builtin_section_ready(preset, "navigation"@),
    ensures
        final(map).wf(),
        final(map).id_view() == old(map).id_view(),
        A::obeys_from_spec() ==> final(map)@ == bind_map_keys(
            old(map)@,
            builtin_section_keys(preset, "navigation"@),
        ),
{
    bind_builtin_section(preset, "navigation", map)
}

/// Bind the Vim preset's `general` section into `map`.
pub fn bind_vim_general_defaults<A: From<NavigationAction>>(map: &mut KeyMap<A>)
    requires
        old(map).wf(),
        builtin_section_ready(BuiltinNavigationPreset::Vim, "general"@),
    ensures
        final(map).wf(),
        final(map).id_view() == old(map).id_view(),
        A::obeys_from_spec() ==> final(map)@ == bind_map_keys(
            old(map)@,
            builtin_section_keys(BuiltinNavigationPreset::Vim, "general"@),
        ),
{
    bind_builtin_general_defaults(BuiltinNavigationPreset::Vim, map)
}

/// Bind the Vim preset's `global` section into `map`.
pub fn bind_vim_global_defaults<A: From<NavigationAction>>(map: &mut KeyMap<A>)
    requires
        old(map).wf(),
        builtin_section_ready(BuiltinNavigationPreset::Vim, "global"@),
    ensures
        final(map).wf(),
        final(map).id_view() == old(map).id_view(),
        A::obeys_from_spec() ==> final(map)@ == bind_map_keys(
            old(map)@,
            builtin_section_keys(BuiltinNavigationPreset::Vim, "global"@),
        ),
{
    bind_builtin_global_defaults(BuiltinNavigationPreset::Vim, map)
}

/// Bind the Vim preset's `navigation` section into `map`.
pub fn bind_vim_navigation_defaults<A: From<NavigationAction>>(map: &mut KeyMap<A>)
    requires
        old(map).wf(),
        builtin_section_ready(BuiltinNavigationPreset::Vim, "navigation"@),
    ensures
        final(map).wf(),
        final(map).id_view() == old(map).id_view(),
        A::obeys_from_spec() ==> final(map)@ == bind_map_keys(
            old(map)@,
            builtin_section_keys(BuiltinNavigationPreset::Vim, "navigation"@),
        ),
{
    bind_builtin_navigation_defaults(BuiltinNavigationPreset::Vim, map)
}

/// Bind the Emacs preset's `general` section into `map`.
pub fn bind_emacs_general_defaults<A: From<NavigationAction>>(map: &mut KeyMap<A>)
    requires
        old(map).wf(),
        builtin_section_ready(BuiltinNavigationPreset::Emacs, "general"@),
    ensures
        final(map).wf(),
        final(map).id_view() == old(map).id_view(),
        A::obeys_from_spec() ==> final(map)@ == bind_map_keys(
            old(map)@,
            builtin_section_keys(BuiltinNavigationPreset::Emacs, "general"@),
        ),
{
    bind_builtin_general_defaults(BuiltinNavigationPreset::Emacs, map)
}

/// Bind the Emacs preset's `global` section into `map`.
pub fn bind_emacs_global_defaults<A: From<NavigationAction>>(map: &mut KeyMap<A>)
    requires
        old(map).wf(),
        builtin_section_ready(BuiltinNavigationPreset::Emacs, "global"@),
    ensures
        final(map).wf(),
        final(map).id_view() == old(map).id_view(),
        A::obeys_from_spec() ==> final(map)@ == bind_map_keys(
            old(map)@,
            builtin_section_keys(BuiltinNavigationPreset::Emacs, "global"@),
        ),
{
    bind_builtin_global_defaults(BuiltinNavigationPreset::Emacs, map)
}

/// Bind the Emacs preset's `navigation` section into `map`.
pub fn bind_emacs_navigation_defaults<A: From<NavigationAction>>(map: &mut KeyMap<A>)
    requires
        old(map).wf(),
        builtin_section_ready(BuiltinNavigationPreset::Emacs, "navigation"@),
    ensures
        final(map).wf(),
        final(map).id_view() == old(map).id_view(),
        A::obeys_from_spec() ==> final(map)@ == bind_map_keys(
            old(map)@,
            builtin_section_keys(BuiltinNavigationPreset::Emacs, "navigation"@),
        ),
{
    bind_builtin_navigation_defaults(BuiltinNavigationPreset::Emacs, map)
}

/// Bind the Helix preset's `general` section into `map`.
pub fn bind_helix_general_defaults<A: From<NavigationAction>>(map: &mut KeyMap<A>)
    requires
        old(map).wf(),
        builtin_section_ready(BuiltinNavigationPreset::Helix, "general"@),
    ensures
        final(map).wf(),
        final(map).id_view() == old(map).id_view(),
        A::obeys_from_spec() ==> final(map)@ == bind_map_keys(
            old(map)@,
            builtin_section_keys(BuiltinNavigationPreset::Helix, "general"@),
        ),
{
    bind_builtin_general_defaults(BuiltinNavigationPreset::Helix, map)
}

/// Bind the Helix preset's `global` section into `map`.
pub fn bind_helix_global_defaults<A: From<NavigationAction>>(map: &mut KeyMap<A>)
    requires
        old(map).wf(),
        builtin_section_ready(BuiltinNavigationPreset::Helix, "global"@),
    ensures
        final(map).wf(),
        final(map).id_view() == old(map).id_view(),
        A::obeys_from_spec() ==> final(map)@ == bind_map_keys(
            old(map)@,
            builtin_section_keys(BuiltinNavigationPreset::Helix, "global"@),
        ),
{
    bind_builtin_global_defaults(BuiltinNavigationPreset::Helix, map)
}

/// Bind the Helix preset's `navigation` section into `map`.
pub fn bind_helix_navigation_defaults<A: From<NavigationAction>>(map: &mut KeyMap<A>)
    requires
        old(map).wf(),
        builtin_section_ready(BuiltinNavigationPreset::Helix, "navigation"@),
    ensures
        final(map).wf(),
        final(map).id_view() == old(map).id_view(),
        A::obeys_from_spec() ==> final(map)@ == bind_map_keys(
            old(map)@,
            builtin_section_keys(BuiltinNavigationPreset::Helix, "navigation"@),
        ),
{
    bind_builtin_navigation_defaults(BuiltinNavigationPreset::Helix, map)
}

/// Bind section `name` (`general`, `global` or `navigation`) of a built-in
/// preset into `map` after checking that the preset reads cleanly and has
/// that section with valid keys; `false`, with `map` unchanged, otherwise.
pub fn try_bind_builtin_section<A: From<NavigationAction>>(
    preset: BuiltinNavigationPreset,
    name: &str,
    map: &mut KeyMap<A>,
) -> (r: bool)
    requires
        old(map).wf(),
    ensures
        final(map).wf(),
        final(map).id_view() == old(map).id_view(),
        r == (builtin_section_ready(preset, name@) && (name@ == "general"@ || name@ == "global"@
            || name@ == "navigation"@)),
        !r ==> final(map)@ == old(map)@,
        r && A::obeys_from_spec() ==> final(map)@ == bind_map_keys(
            old(map)@,
            builtin_section_keys(preset, name@),
        ),
{
    let p = match NavigationPreset::from_toml(preset.toml()) {
        Ok(p) => p,
        Err(_) => {
            return false;
        },
    };
    let ready = match p.section(name) {
        Some(s) => s.validation_issues().len() == 0,
        None => false,
    };
    if !ready {
        return false;
    }
    if str_eq(name, "general") {
        match preset {
            BuiltinNavigationPreset::Vim => bind_vim_general_defaults(map),
            BuiltinNavigationPreset::Emacs => bind_emacs_general_defaults(map),
            BuiltinNavigationPreset::Helix => bind_helix_general_defaults(map),
        }
        true
    } else if str_eq(name, "global") {
        match preset {
            BuiltinNavigationPreset::Vim => bind_vim_global_defaults(map),
            BuiltinNavigationPreset::Emacs => bind_emacs_global_defaults(map),
            BuiltinNavigationPreset::Helix => bind_helix_global_defaults(map),
        }
        true
    } else if str_eq(name, "navigation") {
        match preset {
            BuiltinNavigationPreset::Vim => bind_vim_navigation_defaults(map),
            BuiltinNavigationPreset::Emacs => bind_emacs_navigation_defaults(map),
            BuiltinNavigationPreset::Helix => bind_helix_navigation_defaults(map),
        }
        true
    } else {
        false
    }
}

} // verus!
