//! Finding keymap bindings that collide: the same keys bound twice in one
//! mode, and the same keys bound in several active modes, where the earlier
//! mode shadows the later.
use vstd::prelude::*;
use vstd::std_specs::cmp::PartialEqSpec;
use crate::input::registry::{chords_equal, copy_chords};
use crate::input::report::{BindingCatalog, BindingConflict, BindingInfo, BindingLayer};
use crate::input::KeyChord;
use crate::text::{contains_str, str_eq, strs_view};

verus! {

/// A conflict as plain values.
pub enum ConflictModel<A> {
    Duplicate { mode: Seq<char>, sequence: Seq<KeyChord>, first: A, second: A },
    Shadow {
        sequence: Seq<KeyChord>,
        first_mode: Seq<char>,
        first: A,
        shadowed_mode: Seq<char>,
        shadowed: A,
    },
}

/// The conflict `c` states `m`, its actions cloned.
pub open spec fn conflict_matches<A: Clone>(c: BindingConflict<A>, m: ConflictModel<A>) -> bool {
    match (c, m) {
        (
            BindingConflict::SameModeDuplicate { mode, sequence, first, second },
            ConflictModel::Duplicate { mode: m2, sequence: s2, first: f2, second: g2 },
        ) => mode@ == m2 && sequence@ == s2 && cloned(f2, first) && cloned(g2, second),
        (
            BindingConflict::ActiveModeShadow {
                sequence,
                first_mode,
                first,
                shadowed_mode,
                shadowed,
            },
            ConflictModel::Shadow {
                sequence: s2,
                first_mode: fm2,
                first: f2,
                shadowed_mode: sm2,
                shadowed: h2,
            },
        ) => sequence@ == s2 && first_mode@ == fm2 && cloned(f2, first) && shadowed_mode@ == sm2
            && cloned(h2, shadowed),
        _ => false,
    }
}

pub open spec fn conflicts_match<A: Clone>(cs: Seq<BindingConflict<A>>, ms: Seq<ConflictModel<A>>) -> bool {
    cs.len() == ms.len() && forall|i: int| 0 <= i < cs.len() ==> #[trigger] conflict_matches(cs[i], ms[i])
}

/// The conflicts as plain values.
pub open spec fn models_of<A>(cs: Seq<BindingConflict<A>>) -> Seq<ConflictModel<A>> {
    cs.map_values(
        |c: BindingConflict<A>|
            match c {
                BindingConflict::SameModeDuplicate { mode, sequence, first, second } =>
                    ConflictModel::Duplicate { mode: mode@, sequence: sequence@, first, second },
                BindingConflict::ActiveModeShadow {
                    sequence,
                    first_mode,
                    first,
                    shadowed_mode,
                    shadowed,
                } => ConflictModel::Shadow {
                    sequence: sequence@,
                    first_mode: first_mode@,
                    first,
                    shadowed_mode: shadowed_mode@,
                    shadowed,
                },
            },
    )
}

proof fn lemma_models_of<A: Clone>(cs: Seq<BindingConflict<A>>)
    ensures
        conflicts_match(cs, models_of(cs)),
{
    assert forall|i: int| 0 <= i < cs.len() implies #[trigger] conflict_matches(
        cs[i],
        models_of(cs)[i],
    ) by {
        match cs[i] {
            BindingConflict::SameModeDuplicate { first, second, .. } => {
                assert(cloned(first, first) && cloned(second, second));
            },
            BindingConflict::ActiveModeShadow { first, shadowed, .. } => {
                assert(cloned(first, first) && cloned(shadowed, shadowed));
            },
        }
    }
}

/// `b` is a copy of `a`, its action cloned.
pub open spec fn info_cloned<A: Clone>(a: BindingInfo<A>, b: BindingInfo<A>) -> bool {
    &&& b.layer == a.layer
    &&& b.mode@ == a.mode@
    &&& b.sequence@ == a.sequence@
    &&& cloned(a.action, b.action)
    &&& b.source == a.source
}

/// `a` is a keymap binding of the same mode and keys as `b`.
pub open spec fn same_key<A>(a: BindingInfo<A>, b: BindingInfo<A>) -> bool {
    a.layer == BindingLayer::Keymap && a.mode@ == b.mode@ && a.sequence@ == b.sequence@
}

/// The first keymap binding at or after `u` and before `t` with the mode and
/// keys of binding `t`.
pub open spec fn earliest_same<A>(s: Seq<BindingInfo<A>>, t: int, u: int) -> Option<int>
    decreases t - u,
{
    if u >= t {
        None
    } else if same_key(s[u], s[t]) {
        Some(u)
    } else {
        earliest_same(s, t, u + 1)
    }
}

/// The duplicate binding `t` makes: a keymap binding whose mode and keys were
/// bound before, to an action other than the first one's.
pub open spec fn duplicate_at<A: PartialEq>(s: Seq<BindingInfo<A>>, t: int) -> Seq<ConflictModel<A>> {
    if s[t].layer == BindingLayer::Keymap {
        match earliest_same(s, t, 0) {
            Some(u) => if !s[u].action.eq_spec(&s[t].action) {
                seq![
                    ConflictModel::Duplicate {
                        mode: s[t].mode@,
                        sequence: s[t].sequence@,
                        first: s[u].action,
                        second: s[t].action,
                    },
                ]
            } else {
                Seq::empty()
            },
            None => Seq::empty(),
        }
    } else {
        Seq::empty()
    }
}

pub open spec fn duplicates_upto<A: PartialEq>(s: Seq<BindingInfo<A>>, n: int) -> Seq<ConflictModel<A>>
    decreases n,
{
    if n <= 0 {
        Seq::empty()
    } else {
        duplicates_upto(s, n - 1) + duplicate_at(s, n - 1)
    }
}

/// A keymap binding in one of the active modes.
pub open spec fn active_key<A>(a: BindingInfo<A>, active: Seq<Seq<char>>) -> bool {
    a.layer == BindingLayer::Keymap && active.contains(a.mode@)
}

/// The first active keymap binding at or after `u` and before `t` with the
/// keys of binding `t`.
pub open spec fn earliest_active<A>(s: Seq<BindingInfo<A>>, active: Seq<Seq<char>>, t: int, u: int) -> Option<
    int,
>
    decreases t - u,
{
    if u >= t {
        None
    } else if active_key(s[u], active) && s[u].sequence@ == s[t].sequence@ {
        Some(u)
    } else {
        earliest_active(s, active, t, u + 1)
    }
}

/// The first keymap binding at or after `u` in mode `m` with keys `keys`.
pub open spec fn first_in_mode<A>(s: Seq<BindingInfo<A>>, m: Seq<char>, keys: Seq<KeyChord>, u: int) -> Option<
    int,
>
    decreases s.len() - u,
{
    if u >= s.len() {
        None
    } else if s[u].layer == BindingLayer::Keymap && s[u].mode@ == m && s[u].sequence@ == keys {
        Some(u)
    } else {
        first_in_mode(s, m, keys, u + 1)
    }
}

/// The bindings of `keys` in the first `k` active modes, in priority order:
/// each mode's first binding, a mode listed twice in a row counted once.
pub open spec fn hits_upto<A>(s: Seq<BindingInfo<A>>, active: Seq<Seq<char>>, keys: Seq<KeyChord>, k: int) -> Seq<
    int,
>
    decreases k,
{
    if k <= 0 {
        Seq::empty()
    } else {
        let h = hits_upto(s, active, keys, k - 1);
        match first_in_mode(s, active[k - 1], keys, 0) {
            Some(u) => if h.len() > 0 && s[h.last()].mode@ == active[k - 1] {
                h
            } else {
                h.push(u)
            },
            None => h,
        }
    }
}

/// Each hit after the first, among the first `n`, whose action is not the
/// first hit's is shadowed by the first.
pub open spec fn shadows_from<A: PartialEq>(s: Seq<BindingInfo<A>>, hits: Seq<int>, keys: Seq<KeyChord>, n: int) -> Seq<
    ConflictModel<A>,
>
    decreases n,
{
    if n <= 1 {
        Seq::empty()
    } else {
        let prev = shadows_from(s, hits, keys, n - 1);
        if s[hits[0]].action.eq_spec(&s[hits[n - 1]].action) {
            prev
        } else {
            prev.push(
                ConflictModel::Shadow {
                    sequence: keys,
                    first_mode: s[hits[0]].mode@,
                    first: s[hits[0]].action,
                    shadowed_mode: s[hits[n - 1]].mode@,
                    shadowed: s[hits[n - 1]].action,
                },
            )
        }
    }
}

/// Each hit after the first that binds another action is shadowed by the
/// first; a hit binding the same action is no conflict.
pub open spec fn shadows_of<A: PartialEq>(s: Seq<BindingInfo<A>>, hits: Seq<int>, keys: Seq<KeyChord>) -> Seq<
    ConflictModel<A>,
> {
    shadows_from(s, hits, keys, hits.len() as int)
}

/// The shadowing binding `t` reports: an active keymap binding whose keys
/// no earlier active keymap binding had.
pub open spec fn shadow_at<A: PartialEq>(s: Seq<BindingInfo<A>>, active: Seq<Seq<char>>, t: int) -> Seq<
    ConflictModel<A>,
> {
    if active_key(s[t], active) && earliest_active(s, active, t, 0) is None {
        shadows_of(s, hits_upto(s, active, s[t].sequence@, active.len() as int), s[t].sequence@)
    } else {
        Seq::empty()
    }
}

pub open spec fn shadows_upto<A: PartialEq>(s: Seq<BindingInfo<A>>, active: Seq<Seq<char>>, n: int) -> Seq<
    ConflictModel<A>,
>
    decreases n,
{
    if n <= 0 {
        Seq::empty()
    } else {
        shadows_upto(s, active, n - 1) + shadow_at(s, active, n - 1)
    }
}

/// Every conflict among the bindings, for the active modes in priority
/// order: first the same-mode duplicates, then the shadowed bindings.
pub open spec fn analysis_spec<A: PartialEq>(s: Seq<BindingInfo<A>>, active: Seq<Seq<char>>) -> Seq<
    ConflictModel<A>,
> {
    duplicates_upto(s, s.len() as int) + shadows_upto(s, active, s.len() as int)
}

/// The bindings analysed alongside the conflicts found among them.
#[derive(Debug, Clone, PartialEq, Eq)]
pub struct BindingAnalysis<A> {
    pub bindings: Vec<BindingInfo<A>>,
    pub conflicts: Vec<BindingConflict<A>>,
}

fn copy_info<A: Clone>(b: &BindingInfo<A>) -> (r: BindingInfo<A>)
    ensures
        info_cloned(*b, r),
{
    BindingInfo {
        layer: b.layer,
        mode: b.mode.clone(),
        sequence: copy_chords(b.sequence.as_slice()),
        action: b.action.clone(),
        source: b.source,
    }
}

fn is_keymap(layer: BindingLayer) -> (r: bool)
    ensures
        r == (layer == BindingLayer::Keymap),
{
    match layer {
        BindingLayer::Keymap => true,
        BindingLayer::Canvas => false,
    }
}

fn push_duplicates<A: Clone + PartialEq>(s: &Vec<BindingInfo<A>>, out: &mut Vec<BindingConflict<A>>)
    requires
        old(out)@.len() == 0,
    ensures
        A::obeys_eq_spec() ==> conflicts_match(final(out)@, duplicates_upto(s@, s@.len() as int)),
{
    let mut t: usize = 0;
    while t < s.len()
        invariant
            t <= s@.len(),
            A::obeys_eq_spec() ==> conflicts_match(out@, duplicates_upto(s@, t as int)),
        decreases s@.len() - t,
    {
        if is_keymap(s[t].layer) {
            let mut u: usize = 0;
            while u < t && !(is_keymap(s[u].layer) && str_eq(s[u].mode.as_str(), s[t].mode.as_str())
                && chords_equal(s[u].sequence.as_slice(), s[t].sequence.as_slice()))
                invariant
                    u <= t < s@.len(),
                    earliest_same(s@, t as int, 0) == earliest_same(s@, t as int, u as int),
                decreases t - u,
            {
                u = u + 1;
            }
            if u < t {
                if !(s[u].action == s[t].action) {
                    let c = BindingConflict::SameModeDuplicate {
                        mode: s[t].mode.clone(),
                        sequence: copy_chords(s[t].sequence.as_slice()),
                        first: s[u].action.clone(),
                        second: s[t].action.clone(),
                    };
                    let ghost before = out@;
                    out.push(c);
                    proof {
                        if A::obeys_eq_spec() {
                            assert(duplicate_at(s@, t as int) =~= seq![
                                ConflictModel::Duplicate {
                                    mode: s@[t as int].mode@,
                                    sequence: s@[t as int].sequence@,
                                    first: s@[u as int].action,
                                    second: s@[t as int].action,
                                },
                            ]);
                            assert(conflict_matches(out@[before.len() as int], duplicate_at(s@, t as int)[0]));
                        }
                    }
                } else {
                    proof {
                        if A::obeys_eq_spec() {
                            assert(duplicate_at(s@, t as int) =~= Seq::<ConflictModel<A>>::empty());
                        }
                    }
                }
            } else {
                assert(duplicate_at(s@, t as int) =~= Seq::<ConflictModel<A>>::empty());
            }
        } else {
            assert(duplicate_at(s@, t as int) =~= Seq::<ConflictModel<A>>::empty());
        }
        proof {
            let d = duplicates_upto(s@, t + 1);
            assert(d == duplicates_upto(s@, t as int) + duplicate_at(s@, t as int));
        }
        t = t + 1;
    }
}


pub open spec fn index_view(s: Seq<usize>) -> Seq<int> {
    s.map_values(|x: usize| x as int)
}

fn hit_list<A>(s: &Vec<BindingInfo<A>>, active_modes: &[&str], keys: &[KeyChord]) -> (r: Vec<usize>)
    ensures
        index_view(r@) == hits_upto(s@, strs_view(active_modes@), keys@, active_modes@.len() as int),
        forall|i: int| 0 <= i < r@.len() ==> #[trigger] r@[i] < s@.len(),
{
    let ghost active = strs_view(active_modes@);
    let mut hits: Vec<usize> = Vec::new();
    let mut k: usize = 0;
    while k < active_modes.len()
        invariant
            k <= active_modes@.len(),
            active == strs_view(active_modes@),
            index_view(hits@) == hits_upto(s@, active, keys@, k as int),
            forall|i: int| 0 <= i < hits@.len() ==> #[trigger] hits@[i] < s@.len(),
        decreases active_modes@.len() - k,
    {
        let mut u: usize = 0;
        while u < s.len() && !(is_keymap(s[u].layer) && str_eq(s[u].mode.as_str(), active_modes[k])
            && chords_equal(s[u].sequence.as_slice(), keys))
            invariant
                u <= s@.len(),
                k < active_modes@.len(),
                active == strs_view(active_modes@),
                first_in_mode(s@, active[k as int], keys@, 0) == first_in_mode(
                    s@,
                    active[k as int],
                    keys@,
                    u as int,
                ),
            decreases s@.len() - u,
        {
            u = u + 1;
        }
        let ghost h = hits@;
        if u < s.len() {
            let repeated = hits.len() > 0 && str_eq(
                s[hits[hits.len() - 1]].mode.as_str(),
                active_modes[k],
            );
            if !repeated {
                hits.push(u);
                assert(index_view(hits@) =~= index_view(h).push(u as int));
            }
        }
        k = k + 1;
    }
    hits
}

fn push_shadows<A: Clone + PartialEq>(
    s: &Vec<BindingInfo<A>>,
    active_modes: &[&str],
    out: &mut Vec<BindingConflict<A>>,
    pre: Ghost<Seq<ConflictModel<A>>>,
)
    requires
        A::obeys_eq_spec() ==> conflicts_match(old(out)@, pre@),
    ensures
        A::obeys_eq_spec() ==> conflicts_match(
            final(out)@,
            pre@ + shadows_upto(s@, strs_view(active_modes@), s@.len() as int),
        ),
{
    let ghost active = strs_view(active_modes@);
    let mut t: usize = 0;
    while t < s.len()
        invariant
            t <= s@.len(),
            active == strs_view(active_modes@),
            A::obeys_eq_spec() ==> conflicts_match(out@, pre@ + shadows_upto(s@, active, t as int)),
        decreases s@.len() - t,
    {
        let ghost done = pre@ + shadows_upto(s@, active, t as int);
        assert(shadows_upto(s@, active, t + 1) == shadows_upto(s@, active, t as int) + shadow_at(
            s@,
            active,
            t as int,
        ));
        assert(pre@ + shadows_upto(s@, active, t + 1) =~= done + shadow_at(s@, active, t as int));
        if is_keymap(s[t].layer) && contains_str(active_modes, s[t].mode.as_str()) {
            let mut u: usize = 0;
            while u < t && !(is_keymap(s[u].layer) && contains_str(active_modes, s[u].mode.as_str())
                && chords_equal(s[u].sequence.as_slice(), s[t].sequence.as_slice()))
                invariant
                    u <= t < s@.len(),
                    active == strs_view(active_modes@),
                    earliest_active(s@, active, t as int, 0) == earliest_active(
                        s@,
                        active,
                        t as int,
                        u as int,
                    ),
                decreases t - u,
            {
                u = u + 1;
            }
            if u == t {
                let hits = hit_list(s, active_modes, s[t].sequence.as_slice());
                let ghost hv = index_view(hits@);
                let ghost emitted = shadows_of(s@, hv, s@[t as int].sequence@);
                assert(shadow_at(s@, active, t as int) == emitted);
                let first = if hits.len() > 0 { hits[0] } else { 0 };
                let mut i: usize = 1;
                while i < hits.len()
                    invariant
                        1 <= i,
                        i <= hits@.len() || hits@.len() < 2,
                        hits@.len() < 2 ==> i == 1,
                        hits@.len() > 0 ==> first == hits@[0],
                        t < s@.len(),
                        hv == index_view(hits@),
                        forall|j: int| 0 <= j < hits@.len() ==> #[trigger] hits@[j] < s@.len(),
                        emitted == shadows_of(s@, hv, s@[t as int].sequence@),
                        A::obeys_eq_spec() ==> conflicts_match(
                            out@,
                            done + shadows_from(s@, hv, s@[t as int].sequence@, i as int),
                        ),
                    decreases hits@.len() - i,
                {
                    let ghost before = out@;
                    let ghost prev = shadows_from(s@, hv, s@[t as int].sequence@, i as int);
                    if !(s[first].action == s[hits[i]].action) {
                        let c = BindingConflict::ActiveModeShadow {
                            sequence: copy_chords(s[t].sequence.as_slice()),
                            first_mode: s[first].mode.clone(),
                            first: s[first].action.clone(),
                            shadowed_mode: s[hits[i]].mode.clone(),
                            shadowed: s[hits[i]].action.clone(),
                        };
                        out.push(c);
                        proof {
                            if A::obeys_eq_spec() {
                                let m = ConflictModel::Shadow {
                                    sequence: s@[t as int].sequence@,
                                    first_mode: s@[hv[0]].mode@,
                                    first: s@[hv[0]].action,
                                    shadowed_mode: s@[hv[i as int]].mode@,
                                    shadowed: s@[hv[i as int]].action,
                                };
                                assert(shadows_from(s@, hv, s@[t as int].sequence@, i + 1) == prev.push(m));
                                assert(conflict_matches(out@[before.len() as int], m));
                                assert(done + prev.push(m) =~= (done + prev).push(m));
                            }
                        }
                    } else {
                        proof {
                            if A::obeys_eq_spec() {
                                assert(shadows_from(s@, hv, s@[t as int].sequence@, i + 1) == prev);
                            }
                        }
                    }
                    i = i + 1;
                }
                proof {
                    if hits@.len() < 2 {
                        assert(emitted =~= Seq::<ConflictModel<A>>::empty());
                        assert(shadows_from(s@, hv, s@[t as int].sequence@, 1) =~= Seq::<ConflictModel<A>>::empty());
                    }
                    let last = if hits@.len() < 2 { 1int } else { hits@.len() as int };
                    assert(i == last);
                    assert(emitted == shadows_from(s@, hv, s@[t as int].sequence@, last));
                    assert(pre@ + shadows_upto(s@, active, t + 1) == done + emitted);
                }
            } else {
                assert(shadow_at(s@, active, t as int) =~= Seq::<ConflictModel<A>>::empty());
                assert(done + shadow_at(s@, active, t as int) =~= done);
            }
        } else {
            assert(shadow_at(s@, active, t as int) =~= Seq::<ConflictModel<A>>::empty());
            assert(done + shadow_at(s@, active, t as int) =~= done);
        }
        t = t + 1;
    }
}

/// Find keymap-layer collisions in `catalog`, for the modes `active_modes`
/// in priority order: the same keys bound to two different actions in one
/// mode are a [`BindingConflict::SameModeDuplicate`]; the same keys bound in
/// several active modes are an [`BindingConflict::ActiveModeShadow`] for each
/// later mode, shadowed by the earliest. The same action bound in several
/// places is no conflict.
pub fn analyze_keymap_bindings<A: Clone + PartialEq>(
    catalog: &BindingCatalog<A>,
    active_modes: &[&str],
) -> (r: BindingAnalysis<A>)
    ensures
        r.bindings@.len() == catalog.bindings@.len(),
        forall|i: int|
            0 <= i < r.bindings@.len() ==> #[trigger] info_cloned(
                catalog.bindings@[i],
                r.bindings@[i],
            ),
        A::obeys_eq_spec() ==> conflicts_match(
            r.conflicts@,
            analysis_spec(catalog.bindings@, strs_view(active_modes@)),
        ),
{
    let s = &catalog.bindings;
    let mut conflicts: Vec<BindingConflict<A>> = Vec::new();
    push_duplicates(s, &mut conflicts);
    let ghost dups = duplicates_upto(s@, s@.len() as int);
    let ghost pre = if A::obeys_eq_spec() {
        dups
    } else {
        models_of(conflicts@)
    };
    proof {
        lemma_models_of(conflicts@);
    }
    push_shadows(s, active_modes, &mut conflicts, Ghost(pre));
    let mut bindings: Vec<BindingInfo<A>> = Vec::new();
    let mut i: usize = 0;
    while i < s.len()
        invariant
            i <= s@.len(),
            bindings@.len() == i,
            forall|j: int| 0 <= j < i ==> #[trigger] info_cloned(s@[j], bindings@[j]),
        decreases s@.len() - i,
    {
        bindings.push(copy_info(&s[i]));
        i = i + 1;
    }
    BindingAnalysis { bindings, conflicts }
}

} // verus!
