//! Key handling for an open modal dialog.
use vstd::prelude::*;
use crate::dialog::{
    current_dialog, open_dialog, selection, selection_spec, DialogData, DialogResult,
    DIALOG_KEYBINDING_SECTION, DIALOG_MODE,
};
use crate::focus::{step_model, FocusManager, FocusModel};
use crate::input::pipeline::{fresh_response, processed};
use crate::input::{InputPipeline, InputRegistry, KeyChord, KeyEvent, KeyMap, PipelineResponse};
use crate::keybindings::preset::{
    bind_action_keys, binding_issues, lenient_spec, preset_error_model, section_keys,
    section_named, PresetErrorModel,
};
use crate::keybindings::{
    BuiltinNavigationPreset, NavigationAction, NavigationPreset, NavigationPresetError,
};
use crate::text::strs_view;

verus! {

/// What [`handle_key`] did with a key event.
#[derive(Debug, Clone, PartialEq, Eq)]
pub enum DialogKey<D> {
    /// No dialog was open, so the key was left untouched. Forward it to the
    /// rest of the input handling.
    Ignored,
    /// The key moved the active button, or was swallowed by the open dialog.
    Consumed,
    /// The dialog was answered and has been closed. Act on the result.
    Resolved(DialogResult<D>),
}

/// What an open dialog does with one pipeline response: `focus_next` and
/// `focus_prev` move between buttons, `activate` answers with the active
/// button and closes, `leave_section` dismisses and closes, and anything else
/// is swallowed.
pub open spec fn dialog_step<O, D: Clone>(
    m: FocusModel<O, DialogData<D>>,
    resp: PipelineResponse<NavigationAction>,
    r: DialogKey<D>,
    after: FocusModel<O, DialogData<D>>,
) -> bool {
    match resp {
        PipelineResponse::Execute(NavigationAction::FocusNext) => r == DialogKey::<D>::Consumed
            && after == step_model(m, true),
        PipelineResponse::Execute(NavigationAction::FocusPrev) => r == DialogKey::<D>::Consumed
            && after == step_model(m, false),
        PipelineResponse::Execute(NavigationAction::Activate) => (r matches DialogKey::Resolved(
            res,
        ) && selection_spec(m, Some(res))) && after == (FocusModel { overlay: None, ..m }),
        PipelineResponse::Execute(NavigationAction::LeaveSection) => r == DialogKey::<D>::Resolved(
            DialogResult::Dismissed,
        ) && after == (FocusModel { overlay: None, ..m }),
        _ => r == DialogKey::<D>::Consumed && after == m,
    }
}

/// The bindings that section `name` of the preset text `source` gives, each
/// key bound to its own navigation action, or why there are none.
pub open spec fn section_bindings_spec(source: Seq<char>, name: Seq<char>) -> Result<
    Map<Seq<KeyChord>, NavigationAction>,
    PresetErrorModel,
> {
    match lenient_spec(source) {
        None => Err(PresetErrorModel::Toml),
        Some(m) => if m.1.len() > 0 {
            Err(PresetErrorModel::Issues(m.1))
        } else {
            match section_named(m.0, name) {
                None => Err(PresetErrorModel::UnknownSection(name)),
                Some(i) => if binding_issues(seq![m.0[i]]).len() > 0 {
                    Err(PresetErrorModel::Issues(binding_issues(seq![m.0[i]])))
                } else {
                    Ok(bind_action_keys(Map::empty(), section_keys(m.0[i])))
                },
            }
        },
    }
}

/// The `dialog` section each built-in preset ships: `Tab` / `Right` move to
/// the next button, `Shift+Tab` / `Left` to the previous, `Enter` answers
/// with the active button and `Esc` dismisses (Emacs also `Ctrl+G`).
pub open spec fn dialog_source(p: BuiltinNavigationPreset) -> &'static str {
    match p {
        BuiltinNavigationPreset::Emacs => "[dialog]\nmode = \"dialog\"\nfocus_next = [\"tab\", \"right\"]\nfocus_prev = [\"shift+tab\", \"backtab\", \"left\"]\nactivate = \"enter\"\nleave_section = [\"esc\", \"ctrl+g\"]\n",
        _ => "[dialog]\nmode = \"dialog\"\nfocus_next = [\"tab\", \"right\"]\nfocus_prev = [\"shift+tab\", \"backtab\", \"left\"]\nactivate = \"enter\"\nleave_section = \"esc\"\n",
    }
}

/// The `dialog` section of a built-in preset, as TOML text.
pub fn dialog_preset_toml(p: BuiltinNavigationPreset) -> (r: &'static str)
    ensures
        r == dialog_source(p),
{
    match p {
        BuiltinNavigationPreset::Emacs => "[dialog]\nmode = \"dialog\"\nfocus_next = [\"tab\", \"right\"]\nfocus_prev = [\"shift+tab\", \"backtab\", \"left\"]\nactivate = \"enter\"\nleave_section = [\"esc\", \"ctrl+g\"]\n",
        _ => "[dialog]\nmode = \"dialog\"\nfocus_next = [\"tab\", \"right\"]\nfocus_prev = [\"shift+tab\", \"backtab\", \"left\"]\nactivate = \"enter\"\nleave_section = \"esc\"\n",
    }
}

/// The built-in preset's `dialog` section reads cleanly.
pub open spec fn builtin_dialog_ready(p: BuiltinNavigationPreset) -> bool {
    section_bindings_spec(dialog_source(p)@, DIALOG_KEYBINDING_SECTION@) is Ok
}

/// The dialog bindings of a built-in preset.
pub open spec fn builtin_dialog_keys(p: BuiltinNavigationPreset) -> Map<
    Seq<KeyChord>,
    NavigationAction,
> {
    section_bindings_spec(dialog_source(p)@, DIALOG_KEYBINDING_SECTION@)->Ok_0
}

/// The key bindings that drive an open dialog, with their own sequence state.
#[derive(Debug)]
pub struct DialogKeyBindings {
    input: InputPipeline<NavigationAction>,
}

impl DialogKeyBindings {
    pub closed spec fn pipeline(&self) -> InputPipeline<NavigationAction> {
        self.input
    }

    pub open spec fn wf(&self) -> bool {
        self.pipeline().registry.wf()
    }

    /// The bindings are exactly `keys`, in the dialog mode, with no sequence
    /// pending and the usual sequence timeout.
    pub open spec fn holds(&self, keys: Map<Seq<KeyChord>, NavigationAction>) -> bool {
        &&& self.wf()
        &&& self.pipeline().registry@ == Map::<
            Seq<char>,
            Map<Seq<KeyChord>, NavigationAction>,
        >::empty().insert(DIALOG_MODE@, keys)
        &&& self.pipeline().tracker@.len() == 0
        &&& !self.pipeline().tracker.has_input_time()
        &&& self.pipeline().tracker.timeout_spec() == 1000
    }

    fn with_map(map: KeyMap<NavigationAction>) -> (r: Self)
        requires
            map.wf(),
            map.id_view() == DIALOG_MODE@,
        ensures
            r.holds(map@),
    {
        let mut registry = InputRegistry::empty();
        registry.add_map(map);
        DialogKeyBindings { input: InputPipeline::new(registry, 1000) }
    }

    /// The `dialog` section of a built-in preset.
    pub fn builtin(preset: BuiltinNavigationPreset) -> (r: Self)
        requires
            builtin_dialog_ready(preset),
        ensures
            r.holds(builtin_dialog_keys(preset)),
    {
        match Self::from_preset_toml(dialog_preset_toml(preset)) {
            Ok(b) => b,
            Err(_) => {
                assert(false);
                Self::with_map(KeyMap::new(DIALOG_MODE))
            },
        }
    }

    /// The `dialog` section of a built-in preset, when it reads cleanly.
    pub fn try_builtin(preset: BuiltinNavigationPreset) -> (r: Option<Self>)
        ensures
            r is Some <==> builtin_dialog_ready(preset),
            r matches Some(b) ==> b.holds(builtin_dialog_keys(preset)),
    {
        match Self::from_preset_toml(dialog_preset_toml(preset)) {
            Ok(b) => Some(b),
            Err(_) => None,
        }
    }

    /// The `dialog` section of a preset given as TOML text.
    pub fn from_preset_toml(source: &str) -> (r: Result<Self, NavigationPresetError>)
        ensures
            match section_bindings_spec(source@, DIALOG_KEYBINDING_SECTION@) {
                Ok(keys) => r matches Ok(b) && b.holds(keys),
                Err(e) => r matches Err(x) && preset_error_model(x) == e,
            },
    {
        let preset = match NavigationPreset::from_toml(source) {
            Ok(p) => p,
            Err(e) => {
                return Err(e);
            },
        };
        let mut map = KeyMap::new(DIALOG_MODE);
        match preset.bind_section_actions(DIALOG_KEYBINDING_SECTION, &mut map) {
            Ok(()) => Ok(Self::with_map(map)),
            Err(e) => Err(e),
        }
    }

    /// Replace the bindings with the `dialog` section of a preset given as
    /// TOML text; on error the bindings are left as they were.
    pub fn remap_preset_toml(&mut self, source: &str) -> (r: Result<(), NavigationPresetError>)
        ensures
            match section_bindings_spec(source@, DIALOG_KEYBINDING_SECTION@) {
                Ok(keys) => r is Ok && final(self).holds(keys),
                Err(e) => r matches Err(x) && preset_error_model(x) == e && *final(self)
                    == *old(self),
            },
    {
        match Self::from_preset_toml(source) {
            Ok(b) => {
                *self = b;
                Ok(())
            },
            Err(e) => Err(e),
        }
    }
}

/// Apply one pipeline response to the open dialog, as [`dialog_step`] states.
pub fn apply_dialog_response<O, D: Clone>(
    focus: &mut FocusManager<O, DialogData<D>>,
    response: PipelineResponse<NavigationAction>,
) -> (r: DialogKey<D>)
    requires
        old(focus).wf(),
        open_dialog(old(focus)@) is Some,
    ensures
        final(focus).wf(),
        dialog_step(old(focus)@, response, r, final(focus)@),
{
    match response {
        PipelineResponse::Execute(NavigationAction::FocusNext) => {
            focus.next();
            DialogKey::Consumed
        },
        PipelineResponse::Execute(NavigationAction::FocusPrev) => {
            focus.prev();
            DialogKey::Consumed
        },
        PipelineResponse::Execute(NavigationAction::Activate) => {
            let result = match selection(focus) {
                Some(res) => res,
                None => DialogResult::Dismissed,
            };
            focus.clear_overlay();
            DialogKey::Resolved(result)
        },
        PipelineResponse::Execute(NavigationAction::LeaveSection) => {
            focus.clear_overlay();
            DialogKey::Resolved(DialogResult::Dismissed)
        },
        _ => DialogKey::Consumed,
    }
}

/// Drive an open modal dialog from a key event through `bindings`: the key
/// goes through the bindings' pipeline in the dialog mode, and the response
/// is applied as [`dialog_step`] states. With no dialog open the key is
/// [`DialogKey::Ignored`] and nothing changes.
pub fn handle_key_with_bindings<O, D: Clone>(
    focus: &mut FocusManager<O, DialogData<D>>,
    key: KeyEvent,
    bindings: &mut DialogKeyBindings,
) -> (r: DialogKey<D>)
    requires
        old(focus).wf(),
        old(bindings).wf(),
    ensures
        final(focus).wf(),
        final(bindings).wf(),
        open_dialog(old(focus)@) is None ==> r == DialogKey::<D>::Ignored && final(focus)@ == old(
            focus,
        )@ && final(bindings).pipeline() == old(bindings).pipeline(),
        open_dialog(old(focus)@) is Some ==> exists|resp: PipelineResponse<NavigationAction>|
            processed(
                old(bindings).pipeline(),
                final(bindings).pipeline(),
                key,
                seq![DIALOG_MODE@],
                false,
                resp,
            ) && #[trigger] dialog_step(old(focus)@, resp, r, final(focus)@),
{
    if current_dialog(focus).is_none() {
        return DialogKey::Ignored;
    }
    let modes: Vec<&str> = vec![DIALOG_MODE];
    assert(strs_view(modes@) =~= seq![DIALOG_MODE@]);
    let response = bindings.input.process(key, modes.as_slice(), false);
    let ghost resp = response;
    let r = apply_dialog_response(focus, response);
    assert(processed(
        old(bindings).pipeline(),
        bindings.pipeline(),
        key,
        seq![DIALOG_MODE@],
        false,
        resp,
    ) && dialog_step(old(focus)@, resp, r, focus@));
    r
}

/// Drive an open modal dialog with the built-in Vim preset's `dialog`
/// bindings: `Tab` / `Right` move to the next button, `Shift+Tab` / `Left` to
/// the previous, `Enter` answers with the active button and `Esc` dismisses,
/// both closing the dialog. Any other key is swallowed while the dialog is
/// open; with none open the key is [`DialogKey::Ignored`].
pub fn handle_key<O, D: Clone>(focus: &mut FocusManager<O, DialogData<D>>, key: KeyEvent) -> (r:
    DialogKey<D>)
    requires
        old(focus).wf(),
        builtin_dialog_ready(BuiltinNavigationPreset::Vim),
    ensures
        final(focus).wf(),
        open_dialog(old(focus)@) is None ==> r == DialogKey::<D>::Ignored && final(focus)@ == old(
            focus,
        )@,
        open_dialog(old(focus)@) is Some ==> exists|
            resp: PipelineResponse<NavigationAction>,
            pending: Seq<KeyChord>,
        |
            #[trigger] fresh_response(
                Map::<Seq<char>, Map<Seq<KeyChord>, NavigationAction>>::empty().insert(
                    DIALOG_MODE@,
                    builtin_dialog_keys(BuiltinNavigationPreset::Vim),
                ),
                seq![DIALOG_MODE@],
                key,
                false,
                resp,
                pending,
            ) && #[trigger] dialog_step(old(focus)@, resp, r, final(focus)@),
{
    let mut bindings = DialogKeyBindings::builtin(BuiltinNavigationPreset::Vim);
    let ghost before = bindings.pipeline();
    let r = handle_key_with_bindings(focus, key, &mut bindings);
    proof {
        if open_dialog(old(focus)@) is Some {
            let resp = choose|resp: PipelineResponse<NavigationAction>|
                processed(before, bindings.pipeline(), key, seq![DIALOG_MODE@], false, resp)
                    && #[trigger] dialog_step(old(focus)@, resp, r, focus@);
            assert(fresh_response(
                before.registry@,
                seq![DIALOG_MODE@],
                key,
                false,
                resp,
                bindings.pipeline().tracker@,
            ));
        }
    }
    r
}

/// [`handle_key`] when the built-in Vim preset has a valid `dialog` section;
/// `None`, with nothing changed, otherwise.
pub fn try_handle_key<O, D: Clone>(focus: &mut FocusManager<O, DialogData<D>>, key: KeyEvent) -> (r:
    Option<DialogKey<D>>)
    requires
        old(focus).wf(),
    ensures
        final(focus).wf(),
        r is None <==> !builtin_dialog_ready(BuiltinNavigationPreset::Vim),
        r is None ==> final(focus)@ == old(focus)@,
        r matches Some(k) ==> (open_dialog(old(focus)@) is None ==> k == DialogKey::<D>::Ignored
            && final(focus)@ == old(focus)@),
        r matches Some(k) ==> (open_dialog(old(focus)@) is Some ==> exists|
            resp: PipelineResponse<NavigationAction>,
            pending: Seq<KeyChord>,
        |
            #[trigger] fresh_response(
                Map::<Seq<char>, Map<Seq<KeyChord>, NavigationAction>>::empty().insert(
                    DIALOG_MODE@,
                    builtin_dialog_keys(BuiltinNavigationPreset::Vim),
                ),
                seq![DIALOG_MODE@],
                key,
                false,
                resp,
                pending,
            ) && #[trigger] dialog_step(old(focus)@, resp, k, final(focus)@)),
{
    match DialogKeyBindings::try_builtin(BuiltinNavigationPreset::Vim) {
        Some(_) => Some(handle_key(focus, key)),
        None => None,
    }
}

} // verus!
