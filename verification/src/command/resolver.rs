use vstd::prelude::*;
use crate::clock::{elapsed_exceeds, exceeds_spec, has_elapsed, instant_now};
use crate::command::{alias_key, hint_matches, CommandHint, CommandRegistry, CommandResponse};
use crate::text::{has_prefix, trim, trim_str};

verus! {

/// `alias (action_name)`.
pub open spec fn hint_text(h: CommandHint) -> Seq<char> {
    h.alias@ + " ("@ + h.action_name@ + ")"@
}

/// The hints' texts joined with `", "`.
pub open spec fn hints_text(hs: Seq<CommandHint>) -> Seq<char>
    decreases hs.len(),
{
    if hs.len() == 0 {
        Seq::empty()
    } else if hs.len() == 1 {
        hint_text(hs[0])
    } else {
        hints_text(hs.drop_last()) + ", "@ + hint_text(hs.last())
    }
}

/// The feedback line for a response: nothing for an executed or empty
/// command, `[Unknown command]`, or `[Incomplete: …]` listing at most the
/// first five hints.
pub open spec fn feedback_text<A>(response: CommandResponse<A>) -> Option<Seq<char>> {
    match response {
        CommandResponse::Execute(_) => None,
        CommandResponse::Empty => None,
        CommandResponse::Unknown => Some("[Unknown command]"@),
        CommandResponse::Incomplete(hints) => Some(
            "[Incomplete: "@ + hints_text(
                hints@.take(
                    if hints@.len() < 5 {
                        hints@.len() as int
                    } else {
                        5
                    },
                ),
            ) + "]"@,
        ),
    }
}

/// Resolves typed command-line input against a [`CommandRegistry`] and
/// tracks when input last arrived.
#[derive(Debug)]
pub struct CommandResolver<A> {
    pub registry: CommandRegistry<A>,
    last_input_time: Option<std::time::Instant>,
    timeout_ms: u64,
}

impl<A> CommandResolver<A> {
    /// The registry commands resolve against.
    pub closed spec fn reg(&self) -> CommandRegistry<A> {
        self.registry
    }

    pub closed spec fn has_input_time(&self) -> bool {
        self.last_input_time is Some
    }

    pub closed spec fn timeout_spec(&self) -> u64 {
        self.timeout_ms
    }

    pub fn new(registry: CommandRegistry<A>, timeout_ms: u64) -> (r: Self)
        ensures
            r.reg() == registry,
            !r.has_input_time(),
            r.timeout_spec() == timeout_ms,
    {
        CommandResolver { registry, last_input_time: None, timeout_ms }
    }

    /// Record that input arrived now.
    pub fn touch(&mut self)
        ensures
            final(self).reg() == old(self).reg(),
            final(self).has_input_time(),
            final(self).timeout_spec() == old(self).timeout_spec(),
    {
        self.last_input_time = Some(instant_now());
    }

    /// Checks at run time that the registry is well formed.
    pub fn registry_is_wf(&self) -> (r: bool)
        ensures
            r == self.reg().wf(),
    {
        self.registry.is_wf()
    }

    pub fn reset(&mut self)
        ensures
            final(self).reg() == old(self).reg(),
            !final(self).has_input_time(),
            final(self).timeout_spec() == old(self).timeout_spec(),
    {
        self.last_input_time = None;
    }

    /// No input arrived within the timeout, `elapsed_nanos` after the last
    /// input: always so without a recorded input.
    pub open spec fn idle_after(&self, elapsed_nanos: int) -> bool {
        !self.has_input_time() || exceeds_spec(elapsed_nanos, self.timeout_spec())
    }

    /// Whether the resolver is idle `elapsed_nanos` after its last input.
    pub fn is_idle_after(&self, elapsed_nanos: u128) -> (r: bool)
        ensures
            r == self.idle_after(elapsed_nanos as int),
    {
        match &self.last_input_time {
            Some(_) => elapsed_exceeds(elapsed_nanos, self.timeout_ms),
            None => true,
        }
    }

    /// No input arrived within the timeout: [`is_idle_after`](Self::is_idle_after)
    /// with the time elapsed by the clock, which is not stated. Without any
    /// recorded input this is always `true`.
    pub fn is_idle(&self) -> (r: bool)
        ensures
            exists|n: u128| r == #[trigger] self.idle_after(n as int),
            !self.has_input_time() ==> r,
    {
        match &self.last_input_time {
            Some(time) => {
                let r = has_elapsed(time, self.timeout_ms);
                proof {
                    let n = choose|n: u128| r == #[trigger] exceeds_spec(n as int, self.timeout_ms);
                    assert(r == self.idle_after(n as int));
                }
                r
            },
            None => {
                assert(self.idle_after(0));
                true
            },
        }
    }
}

impl<A: Clone> CommandResolver<A> {
    /// Resolve `input`: empty input, an exact alias (runs its action), a
    /// prefix of some alias (lists the completions), or unknown.
    pub fn process(&self, input: &str) -> (r: CommandResponse<A>)
        requires
            self.reg().wf(),
        ensures
            trim(input@).len() == 0 ==> r is Empty,
            trim(input@).len() > 0 && self.reg()@.contains_key(alias_key(input@)) ==> (r matches CommandResponse::Execute(a) && cloned(self.reg()@[alias_key(input@)].1, a)),
            trim(input@).len() > 0 && !self.reg()@.contains_key(alias_key(input@)) && (exists|k: Seq<char>|
                #[trigger] self.reg()@.contains_key(k) && has_prefix(k, alias_key(input@)) && k
                    != alias_key(input@)) ==> (r matches CommandResponse::Incomplete(hints)
                && hints_complete(self.reg()@, hints@, alias_key(input@))),
            trim(input@).len() > 0 && !self.reg()@.contains_key(alias_key(input@)) && !(exists|k: Seq<char>|
                #[trigger] self.reg()@.contains_key(k) && has_prefix(k, alias_key(input@)) && k
                    != alias_key(input@)) ==> r is Unknown,
    {
        if crate::text::is_blank(input) {
            return CommandResponse::Empty;
        }
        match self.registry.match_action(input) {
            Some(action) => CommandResponse::Execute(action),
            None => {
                if self.registry.is_prefix(input) {
                    CommandResponse::Incomplete(self.registry.get_hints(input))
                } else {
                    CommandResponse::Unknown
                }
            },
        }
    }

    /// The feedback line for `input` given whether the resolver is idle:
    /// nothing for blank input or while typing, otherwise
    /// [`feedback_text`] of what `input` resolves to.
    pub fn feedback_when(&self, input: &str, idle: bool) -> (r: Option<String>)
        requires
            self.reg().wf(),
        ensures
            self.feedback_post(input@, idle, r),
    {
        if crate::text::is_blank(input) || !idle {
            return None;
        }
        let response = self.process(input);
        let ghost resp = response;
        let out = feedback_for(response);
        assert(self.process_post(input@, resp));
        out
    }

    /// The feedback line for `input` (see [`feedback_when`](Self::feedback_when)),
    /// with idleness read from the clock.
    pub fn get_feedback(&self, input: &str) -> (r: Option<String>)
        requires
            self.reg().wf(),
        ensures
            exists|n: u128| #[trigger] self.feedback_post(input@, self.idle_after(n as int), r),
            !self.has_input_time() ==> self.feedback_post(input@, true, r),
    {
        let idle = self.is_idle();
        let r = self.feedback_when(input, idle);
        proof {
            let n = choose|n: u128| idle == #[trigger] self.idle_after(n as int);
            assert(self.feedback_post(input@, self.idle_after(n as int), r));
        }
        r
    }

    /// `r` is the feedback line for `input` when the resolver is idle or
    /// not, as `idle` says: nothing for blank input or while typing,
    /// otherwise [`feedback_text`] of what `input` resolves to.
    pub open spec fn feedback_post(&self, input: Seq<char>, idle: bool, r: Option<String>) -> bool {
        &&& (trim(input).len() == 0 || !idle ==> r is None)
        &&& (trim(input).len() > 0 && idle ==> exists|resp: CommandResponse<A>|
            #[trigger] self.process_post(input, resp) && match (r, feedback_text(resp)) {
                (Some(s), Some(t)) => s@ == t,
                (None, None) => true,
                _ => false,
            })
    }

    /// `resp` is what [`process`](Self::process) gives for `input`.
    pub open spec fn process_post(&self, input: Seq<char>, resp: CommandResponse<A>) -> bool {
        &&& trim(input).len() == 0 ==> resp is Empty
        &&& trim(input).len() > 0 && self.reg()@.contains_key(alias_key(input)) ==> (resp matches CommandResponse::Execute(a) && cloned(self.reg()@[alias_key(input)].1, a))
        &&& trim(input).len() > 0 && !self.reg()@.contains_key(alias_key(input)) && (exists|
            k: Seq<char>,
        |
            #[trigger] self.reg()@.contains_key(k) && has_prefix(k, alias_key(input)) && k
                != alias_key(input)) ==> (resp matches CommandResponse::Incomplete(hints)
            && hints_complete(self.reg()@, hints@, alias_key(input)))
        &&& trim(input).len() > 0 && !self.reg()@.contains_key(alias_key(input)) && !(exists|
            k: Seq<char>,
        |
            #[trigger] self.reg()@.contains_key(k) && has_prefix(k, alias_key(input)) && k
                != alias_key(input)) ==> resp is Unknown
    }
}

/// `hints` lists exactly the aliases of `m` that strictly extend `key`,
/// each once, with their action names.
pub open spec fn hints_complete<A>(
    m: Map<Seq<char>, (Seq<char>, A)>,
    hints: Seq<CommandHint>,
    key: Seq<char>,
) -> bool {
    &&& forall|i: int|
        0 <= i < hints.len() ==> {
            let k = (#[trigger] hints[i]).alias@;
            &&& m.contains_key(k)
            &&& hint_matches(hints[i], k, m[k])
            &&& has_prefix(k, key)
            &&& k != key
        }
    &&& forall|k: Seq<char>|
        #[trigger] m.contains_key(k) && has_prefix(k, key) && k != key ==> exists|i: int|
            0 <= i < hints.len() && hints[i].alias@ == k
    &&& forall|i: int, j: int| 0 <= i < j < hints.len() ==> hints[i].alias@ != hints[j].alias@
}

fn hint_string(h: &CommandHint) -> (r: String)
    ensures
        r@ == hint_text(*h),
{
    let mut s = h.alias.clone();
    s.append(" (");
    s.append(h.action_name.as_str());
    s.append(")");
    s
}

fn feedback_for<A>(response: CommandResponse<A>) -> (r: Option<String>)
    ensures
        match (r, feedback_text(response)) {
            (Some(s), Some(t)) => s@ == t,
            (None, None) => true,
            _ => false,
        },
{
    match response {
        CommandResponse::Execute(_) => None,
        CommandResponse::Empty => None,
        CommandResponse::Unknown => Some("[Unknown command]".to_string()),
        CommandResponse::Incomplete(hints) => {
            let limit = if hints.len() < 5 {
                hints.len()
            } else {
                5
            };
            let mut joined = String::new();
            let mut i: usize = 0;
            while i < limit
                invariant
                    i <= limit <= hints@.len(),
                    joined@ == hints_text(hints@.take(i as int)),
                decreases limit - i,
            {
                let ghost prev = joined@;
                if i > 0 {
                    joined.append(", ");
                }
                let piece = hint_string(&hints[i]);
                joined.append(piece.as_str());
                proof {
                    let t = hints@.take(i + 1);
                    assert(t.drop_last() =~= hints@.take(i as int));
                    assert(t.last() == hints@[i as int]);
                    if i == 0 {
                        assert(joined@ =~= hint_text(hints@[0]));
                    } else {
                        assert(joined@ =~= prev + ", "@ + hint_text(hints@[i as int]));
                    }
                }
                i = i + 1;
            }
            let mut out = "[Incomplete: ".to_string();
            out.append(joined.as_str());
            out.append("]");
            Some(out)
        },
    }
}

} // verus!
