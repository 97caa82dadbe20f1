use vstd::prelude::*;
use crate::input::key::{chord_of_event, no_modifiers};
use crate::input::registry::{first_bound, lemma_no_hints, mode_has_next, valid_hints, InputRegistry};
use crate::input::{ChordSequenceTracker, KeyChord, KeyCode, KeyEvent, KeyModifiers, PipelineResponse};
use crate::runtime::modes;
use crate::text::{str_eq, strs_view};

verus! {

/// The modes with every `general` entry left out.
pub open spec fn without_general(m: Seq<Seq<char>>) -> Seq<Seq<char>>
    decreases m.len(),
{
    if m.len() == 0 {
        Seq::empty()
    } else if m.last() == modes::GENERAL@ {
        without_general(m.drop_last())
    } else {
        without_general(m.drop_last()).push(m.last())
    }
}

/// The key is a plain character: no modifier, or Shift alone.
pub open spec fn is_plain_char(event: KeyEvent) -> bool {
    event.code is Char && (event.modifiers == no_modifiers() || event.modifiers == KeyModifiers {
        shift: true,
        ..no_modifiers()
    })
}

/// The modes a fresh key is matched in: when the page takes text and the key
/// is a plain character, `general` is left out so that typing is not taken
/// for navigation.
pub open spec fn effective_modes(m: Seq<Seq<char>>, event: KeyEvent, accepts_text_input: bool) -> Seq<
    Seq<char>,
> {
    if accepts_text_input && is_plain_char(event) {
        without_general(m)
    } else {
        m
    }
}

/// Turns key presses into actions through a registry, tracking multi-key
/// sequences.
#[derive(Debug)]
pub struct InputPipeline<A> {
    pub registry: InputRegistry<A>,
    pub tracker: ChordSequenceTracker,
}

fn modes_without_general<'a>(m: &[&'a str]) -> (r: Vec<&'a str>)
    ensures
        strs_view(r@) == without_general(strs_view(m@)),
{
    let mut out: Vec<&str> = Vec::new();
    let mut i: usize = 0;
    while i < m.len()
        invariant
            i <= m@.len(),
            strs_view(out@) == without_general(strs_view(m@).take(i as int)),
        decreases m@.len() - i,
    {
        let ghost before = out@;
        let ghost t = strs_view(m@).take(i + 1);
        assert(t.drop_last() =~= strs_view(m@).take(i as int));
        assert(t.last() == m@[i as int]@);
        if !str_eq(m[i], modes::GENERAL) {
            out.push(m[i]);
            assert(strs_view(out@) =~= strs_view(before).push(m@[i as int]@));
        }
        i = i + 1;
    }
    assert(strs_view(m@).take(m@.len() as int) =~= strs_view(m@));
    out
}

fn copy_modes<'a>(m: &[&'a str]) -> (r: Vec<&'a str>)
    ensures
        r@ == m@,
{
    let mut out: Vec<&str> = Vec::new();
    let mut i: usize = 0;
    while i < m.len()
        invariant
            i <= m@.len(),
            out@ == m@.take(i as int),
        decreases m@.len() - i,
    {
        out.push(m[i]);
        i = i + 1;
        assert(out@ =~= m@.take(i as int));
    }
    assert(m@.take(m@.len() as int) =~= m@);
    out
}

impl<A> InputPipeline<A> {
    /// A pipeline over `registry` whose sequences expire after `timeout_ms`.
    pub fn new(registry: InputRegistry<A>, timeout_ms: u64) -> (r: Self)
        ensures
            r.registry == registry,
            r.tracker@ == Seq::<KeyChord>::empty(),
            !r.tracker.has_input_time(),
            r.tracker.timeout_spec() == timeout_ms,
    {
        InputPipeline { registry, tracker: ChordSequenceTracker::new(timeout_ms) }
    }

    /// A multi-key sequence is pending.
    pub fn active(&self) -> (r: bool)
        ensures
            r == (self.tracker@.len() > 0),
    {
        !self.tracker.is_empty()
    }

    /// Drop any pending sequence.
    pub fn reset(&mut self)
        ensures
            final(self).registry == old(self).registry,
            final(self).tracker@ == Seq::<KeyChord>::empty(),
            !final(self).tracker.has_input_time(),
            final(self).tracker.timeout_spec() == old(self).tracker.timeout_spec(),
    {
        self.tracker.reset();
    }
}

/// What a key press does when no sequence is pending: the chord's own
/// binding in the effective modes runs; else a chord that begins a sequence
/// there (and is not plain text for a text page) starts one; else the key is
/// typed.
pub open spec fn fresh_response<A: Clone>(
    reg: Map<Seq<char>, Map<Seq<KeyChord>, A>>,
    m: Seq<Seq<char>>,
    event: KeyEvent,
    accepts_text_input: bool,
    r: PipelineResponse<A>,
    tracker_after: Seq<KeyChord>,
) -> bool {
    let chord = chord_of_event(event);
    let eff = effective_modes(m, event, accepts_text_input);
    match first_bound(reg, eff, seq![chord]) {
        Some(a) => r matches PipelineResponse::Execute(b) && cloned(a, b) && tracker_after
            == Seq::<KeyChord>::empty(),
        None => if (exists|mi: int|
            0 <= mi < eff.len() && #[trigger] mode_has_next(reg, eff[mi], Seq::empty(), chord))
            && (!accepts_text_input || !is_plain_char(event)) {
            r matches PipelineResponse::Wait(h) && valid_hints(reg, eff, seq![chord], h@)
                && tracker_after == seq![chord]
        } else {
            r == PipelineResponse::<A>::Type(KeyChord { code: event.code, modifiers: event.modifiers })
                && tracker_after == Seq::<KeyChord>::empty()
        },
    }
}

/// What a key press does when a sequence `pending` is under way and has not
/// expired: the extended sequence's binding in the given modes runs; else, if
/// some binding continues it, the pipeline waits with those hints; else the
/// sequence is abandoned.
pub open spec fn continued_response<A: Clone>(
    reg: Map<Seq<char>, Map<Seq<KeyChord>, A>>,
    m: Seq<Seq<char>>,
    pending: Seq<KeyChord>,
    event: KeyEvent,
    r: PipelineResponse<A>,
    tracker_after: Seq<KeyChord>,
) -> bool {
    let s = pending.push(chord_of_event(event));
    match first_bound(reg, m, s) {
        Some(a) => r matches PipelineResponse::Execute(b) && cloned(a, b) && tracker_after
            == Seq::<KeyChord>::empty(),
        None => (r matches PipelineResponse::Wait(h) && h@.len() > 0 && valid_hints(reg, m, s, h@)
            && tracker_after == s) || (r == PipelineResponse::<A>::Cancel && tracker_after
            == Seq::<KeyChord>::empty() && (forall|h: Seq<crate::input::InputHint<A>>|
            valid_hints(reg, m, s, h) ==> h.len() == 0)),
    }
}

/// One key press taken by a pipeline: `before` answered `r` to `event` in
/// `modes` and became `after`, as [`InputPipeline::process`] states it.
pub open spec fn processed<A: Clone>(
    before: InputPipeline<A>,
    after: InputPipeline<A>,
    event: KeyEvent,
    modes: Seq<Seq<char>>,
    accepts_text_input: bool,
    r: PipelineResponse<A>,
) -> bool {
    &&& after.registry == before.registry
    &&& after.tracker.timeout_spec() == before.tracker.timeout_spec()
    &&& before.tracker@.len() == 0 ==> fresh_response(
        before.registry@,
        modes,
        event,
        accepts_text_input,
        r,
        after.tracker@,
    )
    &&& before.tracker@.len() > 0 ==> (r == PipelineResponse::<A>::Cancel && after.tracker@
        == Seq::<KeyChord>::empty()) || continued_response(
        before.registry@,
        modes,
        before.tracker@,
        event,
        r,
        after.tracker@,
    )
}

/// One key press taken by a pipeline `elapsed_nanos` after its last key:
/// `before` answered `r` to `event` in `modes` and became `after`. A
/// pending sequence whose timeout that exceeds is cancelled; otherwise the
/// press continues it.
pub open spec fn processed_after<A: Clone>(
    before: InputPipeline<A>,
    after: InputPipeline<A>,
    event: KeyEvent,
    modes: Seq<Seq<char>>,
    accepts_text_input: bool,
    elapsed_nanos: int,
    r: PipelineResponse<A>,
) -> bool {
    &&& after.registry == before.registry
    &&& after.tracker.timeout_spec() == before.tracker.timeout_spec()
    &&& before.tracker@.len() == 0 ==> fresh_response(
        before.registry@,
        modes,
        event,
        accepts_text_input,
        r,
        after.tracker@,
    )
    &&& before.tracker@.len() > 0 ==> if before.tracker.expired_after(elapsed_nanos) {
        r == PipelineResponse::<A>::Cancel && after.tracker@ == Seq::<KeyChord>::empty()
    } else {
        continued_response(before.registry@, modes, before.tracker@, event, r, after.tracker@)
    }
}

impl<A: Clone> InputPipeline<A> {
    /// Decide what one key press does, `elapsed_nanos` after the last key.
    ///
    /// With no sequence pending the decision is [`fresh_response`]. With one
    /// pending whose timeout `elapsed_nanos` exceeds, the press is answered
    /// `Cancel` and the sequence dropped; otherwise the decision is
    /// [`continued_response`].
    pub fn process_after(
        &mut self,
        event: KeyEvent,
        modes: &[&str],
        accepts_text_input: bool,
        elapsed_nanos: u128,
    ) -> (r: PipelineResponse<A>)
        requires
            old(self).registry.wf(),
        ensures
            processed_after(
                *old(self),
                *final(self),
                event,
                strs_view(modes@),
                accepts_text_input,
                elapsed_nanos as int,
                r,
            ),
            ChordSequenceTracker::same_readings(old(self).tracker, final(self).tracker),
    {
        let chord = KeyChord::from_event(&event);
        let raw_chord = KeyChord::new(event.code, event.modifiers);
        let plain = match raw_chord.code {
            KeyCode::Char(_) => raw_chord.modifiers.is_empty() || raw_chord.modifiers
                == KeyModifiers::shift(),
            _ => false,
        };
        assert(plain == is_plain_char(event));
        if !self.tracker.is_empty() {
            let ghost pending = self.tracker;
            self.tracker.expire_after(elapsed_nanos);
            if self.tracker.is_empty() {
                assert(pending.expired_after(elapsed_nanos as int));
                return PipelineResponse::Cancel;
            }
            assert(!pending.expired_after(elapsed_nanos as int));
            assert(self.tracker == pending);
            self.tracker.add(chord);
            let current = self.tracker.get();
            match self.registry.match_action(current, modes) {
                Some(action) => {
                    self.tracker.reset();
                    PipelineResponse::Execute(action)
                },
                None => {
                    let hints = self.registry.get_hints(current, modes);
                    if hints.len() == 0 {
                        proof {
                            lemma_no_hints(self.registry@, strs_view(modes@), current@, hints@);
                        }
                        self.tracker.reset();
                        PipelineResponse::Cancel
                    } else {
                        PipelineResponse::Wait(hints)
                    }
                },
            }
        } else {
            let effective: Vec<&str> = if accepts_text_input && plain {
                modes_without_general(modes)
            } else {
                copy_modes(modes)
            };
            let single: Vec<KeyChord> = vec![chord];
            assert(single@ =~= seq![chord]);
            assert(strs_view(effective@) == effective_modes(strs_view(modes@), event, accepts_text_input));
            assert(self.tracker@ =~= Seq::<KeyChord>::empty());
            match self.registry.match_action(single.as_slice(), effective.as_slice()) {
                Some(action) => PipelineResponse::Execute(action),
                None => {
                    if self.registry.starts_sequence(&chord, effective.as_slice()) && (
                    !accepts_text_input || !plain) {
                        self.tracker.add(chord);
                        assert(self.tracker@ =~= seq![chord]);
                        PipelineResponse::Wait(
                            self.registry.get_hints(single.as_slice(), effective.as_slice()),
                        )
                    } else {
                        PipelineResponse::Type(raw_chord)
                    }
                },
            }
        }
    }

    /// Decide what one key press does: [`process_after`](Self::process_after)
    /// with the time since the last key, read once from the clock. What the
    /// clock reads is not stated; that the decision uses that reading (kept
    /// as the tracker's last reading) is.
    pub fn process(&mut self, event: KeyEvent, modes: &[&str], accepts_text_input: bool) -> (r:
        PipelineResponse<A>)
        requires
            old(self).registry.wf(),
        ensures
            final(self).tracker.clock_reads_spec() == (if old(self).tracker.clock_reads_spec() == u64::MAX {
                0
            } else {
                (old(self).tracker.clock_reads_spec() + 1) as u64
            }),
            processed_after(
                *old(self),
                *final(self),
                event,
                strs_view(modes@),
                accepts_text_input,
                final(self).tracker.last_reading_spec() as int,
                r,
            ),
            exists|n: u128|
                #[trigger] processed_after(
                    *old(self),
                    *final(self),
                    event,
                    strs_view(modes@),
                    accepts_text_input,
                    n as int,
                    r,
                ),
            processed(*old(self), *final(self), event, strs_view(modes@), accepts_text_input, r),
            final(self).registry == old(self).registry,
            final(self).tracker.timeout_spec() == old(self).tracker.timeout_spec(),
            old(self).tracker@.len() == 0 ==> fresh_response(
                old(self).registry@,
                strs_view(modes@),
                event,
                accepts_text_input,
                r,
                final(self).tracker@,
            ),
            old(self).tracker@.len() > 0 ==> (r == PipelineResponse::<A>::Cancel
                && final(self).tracker@ == Seq::<KeyChord>::empty()) || continued_response(
                old(self).registry@,
                strs_view(modes@),
                old(self).tracker@,
                event,
                r,
                final(self).tracker@,
            ),
    {
        let elapsed = self.tracker.read_elapsed();
        let ghost before = *self;
        let r = self.process_after(event, modes, accepts_text_input, elapsed);
        assert(processed_after(before, *self, event, strs_view(modes@), accepts_text_input, elapsed as int, r));
        assert(processed_after(*old(self), *self, event, strs_view(modes@), accepts_text_input, elapsed as int, r));
        r
    }
}

/// A key press that finds a sequence pending for longer than the timeout
/// cancels it: the answer is `Cancel` and nothing stays pending. One that
/// finds it pending for no longer continues it.
pub proof fn lemma_pending_sequence_expires<A: Clone>(
    before: InputPipeline<A>,
    after: InputPipeline<A>,
    event: KeyEvent,
    modes: Seq<Seq<char>>,
    accepts_text_input: bool,
    elapsed_nanos: int,
    r: PipelineResponse<A>,
)
    requires
        processed_after(before, after, event, modes, accepts_text_input, elapsed_nanos, r),
        before.tracker@.len() > 0,
        before.tracker.has_input_time(),
    ensures
        elapsed_nanos > before.tracker.timeout_spec() * 1_000_000 ==> r == PipelineResponse::<A>::Cancel
            && after.tracker@ == Seq::<KeyChord>::empty(),
        elapsed_nanos <= before.tracker.timeout_spec() * 1_000_000 ==> continued_response(
            before.registry@,
            modes,
            before.tracker@,
            event,
            r,
            after.tracker@,
        ),
{
}

} // verus!
