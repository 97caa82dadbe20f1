//! Page-level navigation actions shared by every editor preset.

use vstd::prelude::*;
use vstd::std_specs::cmp::PartialEqSpec;
use vstd::std_specs::convert::FromSpec;
use crate::focus::FocusIntent;
use crate::navigation::PaneSplit;
use crate::runtime::{ActionOutcome, TuiEffect};
use crate::text::{
    ascii_lower, ascii_lower_char, chars_of, debug_text, push_quoted, str_eq, string_from_chars,
};

verus! {

/// Page-level actions that any editor preset can map to keys.
#[derive(Debug, Clone, Copy, PartialEq, Eq, Hash, Structural)]
pub enum NavigationAction {
    FocusNext,
    FocusPrev,
    Activate,
    LeaveSection,
    Quit,
    NextBuffer,
    PrevBuffer,
    CloseBuffer,
    NextPane,
    PrevPane,
    ClosePane,
    SplitVertical,
    SplitHorizontal,
}

/// The metadata of one navigation action: its config name, a short label, a
/// description, and the category it is listed under.
#[derive(Debug, Clone, Copy)]
pub struct NavigationActionInfo {
    pub action: NavigationAction,
    pub name: &'static str,
    pub label: &'static str,
    pub description: &'static str,
    pub category: &'static str,
}

/// A name that no navigation action answers to.
#[derive(Debug, Clone, PartialEq, Eq)]
pub struct ParseNavigationActionError {
    name: String,
}

impl View for ParseNavigationActionError {
    type V = Seq<char>;

    closed spec fn view(&self) -> Seq<char> {
        self.name@
    }
}

impl ParseNavigationActionError {
    /// The name that was not recognised, as given.
    pub fn name(&self) -> (r: &str)
        ensures
            r@ == self@,
    {
        self.name.as_str()
    }

    /// The error as a sentence, with the name quoted.
    pub fn message(&self) -> (r: String)
        ensures
            r@ == "unknown navigation action "@ + debug_text(self@),
    {
        let mut s = String::from_str("unknown navigation action ");
        push_quoted(&mut s, self.name.as_str());
        s
    }
}

/// Every navigation action: the focus group, then the workspace group.
pub open spec fn all_actions() -> Seq<NavigationAction> {
    seq![
        NavigationAction::FocusNext,
        NavigationAction::FocusPrev,
        NavigationAction::Activate,
        NavigationAction::LeaveSection,
        NavigationAction::Quit,
        NavigationAction::NextBuffer,
        NavigationAction::PrevBuffer,
        NavigationAction::CloseBuffer,
        NavigationAction::NextPane,
        NavigationAction::PrevPane,
        NavigationAction::ClosePane,
        NavigationAction::SplitVertical,
        NavigationAction::SplitHorizontal,
    ]
}

/// The metadata of `a`.
pub open spec fn info_of(a: NavigationAction) -> NavigationActionInfo {
    match a {
        NavigationAction::FocusNext => NavigationActionInfo {
            action: a,
            name: "focus_next",
            label: "Focus next",
            description: "Move focus to the next target.",
            category: "Focus",
        },
        NavigationAction::FocusPrev => NavigationActionInfo {
            action: a,
            name: "focus_prev",
            label: "Focus previous",
            description: "Move focus to the previous target.",
            category: "Focus",
        },
        NavigationAction::Activate => NavigationActionInfo {
            action: a,
            name: "activate",
            label: "Activate",
            description: "Activate the focused target.",
            category: "Focus",
        },
        NavigationAction::LeaveSection => NavigationActionInfo {
            action: a,
            name: "leave_section",
            label: "Leave section",
            description: "Move focus out of the current section.",
            category: "Focus",
        },
        NavigationAction::Quit => NavigationActionInfo {
            action: a,
            name: "quit",
            label: "Quit",
            description: "Request application shutdown.",
            category: "Application",
        },
        NavigationAction::NextBuffer => NavigationActionInfo {
            action: a,
            name: "next_buffer",
            label: "Next buffer",
            description: "Switch to the next buffer.",
            category: "Buffers",
        },
        NavigationAction::PrevBuffer => NavigationActionInfo {
            action: a,
            name: "prev_buffer",
            label: "Previous buffer",
            description: "Switch to the previous buffer.",
            category: "Buffers",
        },
        NavigationAction::CloseBuffer => NavigationActionInfo {
            action: a,
            name: "close_buffer",
            label: "Close buffer",
            description: "Close the active buffer.",
            category: "Buffers",
        },
        NavigationAction::NextPane => NavigationActionInfo {
            action: a,
            name: "next_pane",
            label: "Next pane",
            description: "Move to the next pane.",
            category: "Panes",
        },
        NavigationAction::PrevPane => NavigationActionInfo {
            action: a,
            name: "prev_pane",
            label: "Previous pane",
            description: "Move to the previous pane.",
            category: "Panes",
        },
        NavigationAction::ClosePane => NavigationActionInfo {
            action: a,
            name: "close_pane",
            label: "Close pane",
            description: "Close the active pane.",
            category: "Panes",
        },
        NavigationAction::SplitVertical => NavigationActionInfo {
            action: a,
            name: "split_vertical",
            label: "Split vertically",
            description: "Split the active pane vertically.",
            category: "Panes",
        },
        NavigationAction::SplitHorizontal => NavigationActionInfo {
            action: a,
            name: "split_horizontal",
            label: "Split horizontally",
            description: "Split the active pane horizontally.",
            category: "Panes",
        },
    }
}

/// The effect the runtime applies for `a`.
pub open spec fn effect_of<V, O, M>(a: NavigationAction) -> TuiEffect<V, O, M> {
    match a {
        NavigationAction::FocusNext => TuiEffect::Focus(FocusIntent::Next),
        NavigationAction::FocusPrev => TuiEffect::Focus(FocusIntent::Prev),
        NavigationAction::Activate => TuiEffect::Focus(FocusIntent::Activate),
        NavigationAction::LeaveSection => TuiEffect::Focus(FocusIntent::LeaveSection),
        NavigationAction::Quit => TuiEffect::Quit,
        NavigationAction::NextBuffer => TuiEffect::NextBuffer,
        NavigationAction::PrevBuffer => TuiEffect::PreviousBuffer,
        NavigationAction::CloseBuffer => TuiEffect::CloseBuffer,
        NavigationAction::NextPane => TuiEffect::NextPane,
        NavigationAction::PrevPane => TuiEffect::PreviousPane,
        NavigationAction::ClosePane => TuiEffect::ClosePane,
        NavigationAction::SplitVertical => TuiEffect::SplitPane(PaneSplit::Vertical),
        NavigationAction::SplitHorizontal => TuiEffect::SplitPane(PaneSplit::Horizontal),
    }
}

/// Different actions have different effects: no two navigation actions do
/// the same thing.
pub proof fn lemma_effects_distinct<V, O, M>(a: NavigationAction, b: NavigationAction)
    ensures
        effect_of::<V, O, M>(a) == effect_of::<V, O, M>(b) ==> a == b,
{
}

/// A name as the parser compares it: `-` read as `_`, ASCII lowercased.
pub open spec fn normalize_name(s: Seq<char>) -> Seq<char> {
    s.map_values(
        |c: char|
            ascii_lower(
                if c == '-' {
                    '_'
                } else {
                    c
                },
            ),
    )
}

/// The action a normalized name denotes: each action's own name, plus the
/// aliases `previous_buffer`, `previous_pane`, `split_pane_vertical` and
/// `split_pane_horizontal`.
pub open spec fn action_named(n: Seq<char>) -> Option<NavigationAction> {
    if n == "focus_next"@ {
        Some(NavigationAction::FocusNext)
    } else if n == "focus_prev"@ {
        Some(NavigationAction::FocusPrev)
    } else if n == "activate"@ {
        Some(NavigationAction::Activate)
    } else if n == "leave_section"@ {
        Some(NavigationAction::LeaveSection)
    } else if n == "quit"@ {
        Some(NavigationAction::Quit)
    } else if n == "next_buffer"@ {
        Some(NavigationAction::NextBuffer)
    } else if n == "prev_buffer"@ || n == "previous_buffer"@ {
        Some(NavigationAction::PrevBuffer)
    } else if n == "close_buffer"@ {
        Some(NavigationAction::CloseBuffer)
    } else if n == "next_pane"@ {
        Some(NavigationAction::NextPane)
    } else if n == "prev_pane"@ || n == "previous_pane"@ {
        Some(NavigationAction::PrevPane)
    } else if n == "close_pane"@ {
        Some(NavigationAction::ClosePane)
    } else if n == "split_vertical"@ || n == "split_pane_vertical"@ {
        Some(NavigationAction::SplitVertical)
    } else if n == "split_horizontal"@ || n == "split_pane_horizontal"@ {
        Some(NavigationAction::SplitHorizontal)
    } else {
        None
    }
}

/// What parsing `name` gives.
pub open spec fn parse_action_spec(name: Seq<char>) -> Option<NavigationAction> {
    action_named(normalize_name(name))
}

/// The first of `actions` whose `From` encoding equals `action`.
pub open spec fn first_encoded<A: PartialEq + From<NavigationAction>>(
    action: A,
    actions: Seq<NavigationAction>,
) -> Option<NavigationAction>
    decreases actions.len(),
{
    if actions.len() == 0 {
        None
    } else if action.eq_spec(&A::from_spec(actions[0])) {
        Some(actions[0])
    } else {
        first_encoded(action, actions.drop_first())
    }
}

fn normalized(name: &str) -> (r: String)
    ensures
        r@ == normalize_name(name@),
{
    let chars = chars_of(name);
    let mut out: Vec<char> = Vec::new();
    let mut i: usize = 0;
    while i < chars.len()
        invariant
            i <= chars@.len(),
            chars@ == name@,
            out@ == normalize_name(name@).take(i as int),
        decreases chars@.len() - i,
    {
        let c = chars[i];
        let d = if c == '-' {
            '_'
        } else {
            c
        };
        out.push(ascii_lower_char(d));
        i = i + 1;
        assert(out@ =~= normalize_name(name@).take(i as int));
    }
    assert(normalize_name(name@).take(chars@.len() as int) =~= normalize_name(name@));
    string_from_chars(out.as_slice())
}

impl NavigationAction {
    /// Every action, the focus group first, then the workspace group.
    pub fn all() -> (r: Vec<NavigationAction>)
        ensures
            r@ == all_actions(),
    {
        let r = vec![
            NavigationAction::FocusNext,
            NavigationAction::FocusPrev,
            NavigationAction::Activate,
            NavigationAction::LeaveSection,
            NavigationAction::Quit,
            NavigationAction::NextBuffer,
            NavigationAction::PrevBuffer,
            NavigationAction::CloseBuffer,
            NavigationAction::NextPane,
            NavigationAction::PrevPane,
            NavigationAction::ClosePane,
            NavigationAction::SplitVertical,
            NavigationAction::SplitHorizontal,
        ];
        assert(r@ =~= all_actions());
        r
    }

    /// The metadata of every action, in the order of [`NavigationAction::all`].
    pub fn infos() -> (r: Vec<NavigationActionInfo>)
        ensures
            r@ == all_actions().map_values(|a: NavigationAction| info_of(a)),
    {
        let actions = Self::all();
        let mut out: Vec<NavigationActionInfo> = Vec::new();
        let mut i: usize = 0;
        while i < actions.len()
            invariant
                i <= actions@.len(),
                actions@ == all_actions(),
                out@ == all_actions().map_values(|a: NavigationAction| info_of(a)).take(i as int),
            decreases actions@.len() - i,
        {
            out.push(actions[i].info());
            i = i + 1;
            assert(out@ =~= all_actions().map_values(|a: NavigationAction| info_of(a)).take(
                i as int,
            ));
        }
        assert(all_actions().map_values(|a: NavigationAction| info_of(a)).take(13) =~= all_actions().map_values(
            |a: NavigationAction| info_of(a),
        ));
        out
    }

    /// This action's metadata.
    pub fn info(self) -> (r: NavigationActionInfo)
        ensures
            r == info_of(self),
    {
        match self {
            NavigationAction::FocusNext => NavigationActionInfo {
                action: self,
                name: "focus_next",
                label: "Focus next",
                description: "Move focus to the next target.",
                category: "Focus",
            },
            NavigationAction::FocusPrev => NavigationActionInfo {
                action: self,
                name: "focus_prev",
                label: "Focus previous",
                description: "Move focus to the previous target.",
                category: "Focus",
            },
            NavigationAction::Activate => NavigationActionInfo {
                action: self,
                name: "activate",
                label: "Activate",
                description: "Activate the focused target.",
                category: "Focus",
            },
            NavigationAction::LeaveSection => NavigationActionInfo {
                action: self,
                name: "leave_section",
                label: "Leave section",
                description: "Move focus out of the current section.",
                category: "Focus",
            },
            NavigationAction::Quit => NavigationActionInfo {
                action: self,
                name: "quit",
                label: "Quit",
                description: "Request application shutdown.",
                category: "Application",
            },
            NavigationAction::NextBuffer => NavigationActionInfo {
                action: self,
                name: "next_buffer",
                label: "Next buffer",
                description: "Switch to the next buffer.",
                category: "Buffers",
            },
            NavigationAction::PrevBuffer => NavigationActionInfo {
                action: self,
                name: "prev_buffer",
                label: "Previous buffer",
                description: "Switch to the previous buffer.",
                category: "Buffers",
            },
            NavigationAction::CloseBuffer => NavigationActionInfo {
                action: self,
                name: "close_buffer",
                label: "Close buffer",
                description: "Close the active buffer.",
                category: "Buffers",
            },
            NavigationAction::NextPane => NavigationActionInfo {
                action: self,
                name: "next_pane",
                label: "Next pane",
                description: "Move to the next pane.",
                category: "Panes",
            },
            NavigationAction::PrevPane => NavigationActionInfo {
                action: self,
                name: "prev_pane",
                label: "Previous pane",
                description: "Move to the previous pane.",
                category: "Panes",
            },
            NavigationAction::ClosePane => NavigationActionInfo {
                action: self,
                name: "close_pane",
                label: "Close pane",
                description: "Close the active pane.",
                category: "Panes",
            },
            NavigationAction::SplitVertical => NavigationActionInfo {
                action: self,
                name: "split_vertical",
                label: "Split vertically",
                description: "Split the active pane vertically.",
                category: "Panes",
            },
            NavigationAction::SplitHorizontal => NavigationActionInfo {
                action: self,
                name: "split_horizontal",
                label: "Split horizontally",
                description: "Split the active pane horizontally.",
                category: "Panes",
            },
        }
    }

    /// The action's config name.
    pub fn as_name(&self) -> (r: &'static str)
        ensures
            r == info_of(*self).name,
    {
        self.info().name
    }

    /// The action's config name, owned.
    pub fn to_string(&self) -> (r: String)
        ensures
            r@ == info_of(*self).name@,
    {
        self.as_name().to_string()
    }

    /// A short human-readable label.
    pub fn label(&self) -> (r: &'static str)
        ensures
            r == info_of(*self).label,
    {
        self.info().label
    }

    /// A one-sentence description.
    pub fn description(&self) -> (r: &'static str)
        ensures
            r == info_of(*self).description,
    {
        self.info().description
    }

    /// The category the action is listed under.
    pub fn category(&self) -> (r: &'static str)
        ensures
            r == info_of(*self).category,
    {
        self.info().category
    }

    /// The action a name denotes: `-` reads as `_`, case is ignored, and
    /// four longer aliases are accepted; any other name is an error that
    /// carries it.
    pub fn parse_name(name: &str) -> (r: Result<NavigationAction, ParseNavigationActionError>)
        ensures
            match r {
                Ok(a) => parse_action_spec(name@) == Some(a),
                Err(e) => parse_action_spec(name@) is None && e@ == name@,
            },
    {
        let n = normalized(name);
        let s = n.as_str();
        if str_eq(s, "focus_next") {
            Ok(NavigationAction::FocusNext)
        } else if str_eq(s, "focus_prev") {
            Ok(NavigationAction::FocusPrev)
        } else if str_eq(s, "activate") {
            Ok(NavigationAction::Activate)
        } else if str_eq(s, "leave_section") {
            Ok(NavigationAction::LeaveSection)
        } else if str_eq(s, "quit") {
            Ok(NavigationAction::Quit)
        } else if str_eq(s, "next_buffer") {
            Ok(NavigationAction::NextBuffer)
        } else if str_eq(s, "prev_buffer") || str_eq(s, "previous_buffer") {
            Ok(NavigationAction::PrevBuffer)
        } else if str_eq(s, "close_buffer") {
            Ok(NavigationAction::CloseBuffer)
        } else if str_eq(s, "next_pane") {
            Ok(NavigationAction::NextPane)
        } else if str_eq(s, "prev_pane") || str_eq(s, "previous_pane") {
            Ok(NavigationAction::PrevPane)
        } else if str_eq(s, "close_pane") {
            Ok(NavigationAction::ClosePane)
        } else if str_eq(s, "split_vertical") || str_eq(s, "split_pane_vertical") {
            Ok(NavigationAction::SplitVertical)
        } else if str_eq(s, "split_horizontal") || str_eq(s, "split_pane_horizontal") {
            Ok(NavigationAction::SplitHorizontal)
        } else {
            Err(ParseNavigationActionError { name: name.to_string() })
        }
    }

    /// The effect the runtime applies for this action.
    pub fn to_effect<V, O, M>(self) -> (r: TuiEffect<V, O, M>)
        ensures
            r == effect_of::<V, O, M>(self),
    {
        match self {
            NavigationAction::FocusNext => TuiEffect::Focus(FocusIntent::Next),
            NavigationAction::FocusPrev => TuiEffect::Focus(FocusIntent::Prev),
            NavigationAction::Activate => TuiEffect::Focus(FocusIntent::Activate),
            NavigationAction::LeaveSection => TuiEffect::Focus(FocusIntent::LeaveSection),
            NavigationAction::Quit => TuiEffect::Quit,
            NavigationAction::NextBuffer => TuiEffect::NextBuffer,
            NavigationAction::PrevBuffer => TuiEffect::PreviousBuffer,
            NavigationAction::CloseBuffer => TuiEffect::CloseBuffer,
            NavigationAction::NextPane => TuiEffect::NextPane,
            NavigationAction::PrevPane => TuiEffect::PreviousPane,
            NavigationAction::ClosePane => TuiEffect::ClosePane,
            NavigationAction::SplitVertical => TuiEffect::SplitPane(PaneSplit::Vertical),
            NavigationAction::SplitHorizontal => TuiEffect::SplitPane(PaneSplit::Horizontal),
        }
    }
}

impl std::str::FromStr for NavigationAction {
    type Err = ParseNavigationActionError;

    fn from_str(name: &str) -> Result<Self, Self::Err> {
        NavigationAction::parse_name(name)
    }
}

/// Every action's name parses back to the action.
pub proof fn lemma_name_round_trip(a: NavigationAction)
    ensures
        parse_action_spec(info_of(a).name@) == Some(a),
{
    reveal_strlit("focus_next");
    reveal_strlit("focus_prev");
    reveal_strlit("activate");
    reveal_strlit("leave_section");
    reveal_strlit("quit");
    reveal_strlit("next_buffer");
    reveal_strlit("prev_buffer");
    reveal_strlit("previous_buffer");
    reveal_strlit("close_buffer");
    reveal_strlit("next_pane");
    reveal_strlit("prev_pane");
    reveal_strlit("previous_pane");
    reveal_strlit("close_pane");
    reveal_strlit("split_vertical");
    reveal_strlit("split_pane_vertical");
    reveal_strlit("split_horizontal");
    reveal_strlit("split_pane_horizontal");
    let n = info_of(a).name@;
    match a {
        NavigationAction::FocusNext => {
            assert(normalize_name(n) =~= n);
        },
        NavigationAction::FocusPrev => {
            assert(normalize_name(n) =~= n);
            assert(n[6] != "focus_next"@[6]);
        },
        NavigationAction::Activate => {
            assert(normalize_name(n) =~= n);
        },
        NavigationAction::LeaveSection => {
            assert(normalize_name(n) =~= n);
        },
        NavigationAction::Quit => {
            assert(normalize_name(n) =~= n);
        },
        NavigationAction::NextBuffer => {
            assert(normalize_name(n) =~= n);
        },
        NavigationAction::PrevBuffer => {
            assert(normalize_name(n) =~= n);
            assert(n[0] != "next_buffer"@[0]);
        },
        NavigationAction::CloseBuffer => {
            assert(normalize_name(n) =~= n);
        },
        NavigationAction::NextPane => {
            assert(normalize_name(n) =~= n);
        },
        NavigationAction::PrevPane => {
            assert(normalize_name(n) =~= n);
            assert(n[0] != "next_pane"@[0]);
        },
        NavigationAction::ClosePane => {
            assert(normalize_name(n) =~= n);
            assert(n[0] != "focus_next"@[0]);
            assert(n[0] != "focus_prev"@[0]);
        },
        NavigationAction::SplitVertical => {
            assert(normalize_name(n) =~= n);
        },
        NavigationAction::SplitHorizontal => {
            assert(normalize_name(n) =~= n);
        },
    }
}

/// The metadata of every navigation action.
pub fn navigation_action_infos() -> (r: Vec<NavigationActionInfo>)
    ensures
        r@ == all_actions().map_values(|a: NavigationAction| info_of(a)),
{
    NavigationAction::infos()
}

/// The outcome that applies `action`'s effect and nothing else.
pub fn navigation_action_outcome<V, O, M>(action: NavigationAction) -> (r: ActionOutcome<V, O, M>)
    ensures
        r.effects@ == seq![effect_of::<V, O, M>(action)],
{
    ActionOutcome::effect(action.to_effect())
}

/// The standard outcome for `action` when it is the application's `From`
/// encoding of a navigation action; `None` when it encodes none of them.
pub fn try_standard_navigation_action<A: PartialEq + From<NavigationAction>, V, O, M>(
    action: &A,
) -> (r: Option<ActionOutcome<V, O, M>>)
    ensures
        A::obeys_eq_spec() && A::obeys_from_spec() ==> match first_encoded(*action, all_actions()) {
            Some(n) => r matches Some(o) && o.effects@ == seq![effect_of::<V, O, M>(n)],
            None => r is None,
        },
        r matches Some(o) ==> exists|i: int|
            0 <= i < 13 && o.effects@ == seq![effect_of::<V, O, M>(#[trigger] all_actions()[i])],
{
    let actions = NavigationAction::all();
    let mut i: usize = 0;
    assert(all_actions().skip(0) =~= all_actions());
    while i < actions.len()
        invariant
            i <= actions@.len(),
            actions@ == all_actions(),
            A::obeys_eq_spec() && A::obeys_from_spec() ==> first_encoded(*action, all_actions())
                == first_encoded(*action, all_actions().skip(i as int)),
        decreases actions@.len() - i,
    {
        let nav = actions[i];
        assert(all_actions().skip(i as int)[0] == nav);
        assert(all_actions().skip(i as int).drop_first() =~= all_actions().skip(i + 1));
        let encoded = A::from(nav);
        if *action == encoded {
            let o = navigation_action_outcome(nav);
            assert(o.effects@ == seq![effect_of::<V, O, M>(all_actions()[i as int])]);
            return Some(o);
        }
        i = i + 1;
    }
    assert(all_actions().skip(13).len() == 0);
    None
}

} // verus!
