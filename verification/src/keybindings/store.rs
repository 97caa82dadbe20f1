//! Layered keybindings: built-in defaults, the user's configuration and
//! runtime rebinds, merged into the registry the input pipeline uses, and the
//! notices that explain where the layers disagree.
use vstd::prelude::*;
use vstd::std_specs::cmp::PartialEqSpec;
use crate::input::analysis::{
    analysis_spec, analyze_keymap_bindings, conflict_matches, conflicts_match, ConflictModel,
};
use crate::input::registry::{chords_equal, copy_chords};
use crate::input::key_sequence::binding_result;
use crate::input::report::{infos_of, records};
use crate::input::{
    try_parse_binding, BindableActionInfo, BindingCatalog, BindingConflict, BindingInfo,
    BindingLayer, BindingSource, InputRegistry, KeyChord,
};
use crate::keybindings::action_registry::{first_named, ActionRegistry};
use crate::keybindings::export::{
    add_exported, document_of, export_doc, export_entry, exported_entries, group_view, grouped,
    keys_string, keys_text, lemma_export_doc_shape, lemma_grouped_push, name_for, runtime_owns,
};
use crate::keybindings::toml_value::{render_toml_document, toml_rendering};
use crate::keybindings::config::{
    raw_section_model, raw_section_models, KeybindingConfig, KeybindingConfigError,
    KeybindingInheritance, RawBindingModel, RawKeymap, RawSectionModel,
};
use crate::keybindings::preset::{
    copy_issue, issue_model, issue_models, mode_map, IssueModel, NavigationPresetIssue,
};
use crate::runtime::ModeId;
use crate::text::{str_eq, strings_view, strs_view};

verus! {

/// Cloning an `A` gives back an equal value, as it does for `Copy` types
/// whose `Clone` is derived.
pub open spec fn clones_equal<A: Clone>() -> bool {
    forall|a: A, b: A| #[trigger] cloned(a, b) ==> a == b
}

/// `r` with binding `b` made in its mode, the mode's map created if absent.
pub open spec fn bind_info<A>(
    r: Map<Seq<char>, Map<Seq<KeyChord>, A>>,
    b: BindingInfo<A>,
) -> Map<Seq<char>, Map<Seq<KeyChord>, A>> {
    r.insert(b.mode@, mode_map(r, b.mode@).insert(b.sequence@, b.action))
}

/// `r` with every binding of `s` made, in order.
pub open spec fn apply_spec<A>(r: Map<Seq<char>, Map<Seq<KeyChord>, A>>, s: Seq<BindingInfo<A>>) -> Map<
    Seq<char>,
    Map<Seq<KeyChord>, A>,
>
    decreases s.len(),
{
    if s.len() == 0 {
        r
    } else {
        bind_info(apply_spec(r, s.drop_last()), s.last())
    }
}

/// `m` without the bindings of action `a`.
pub open spec fn without_action<A: PartialEq>(m: Map<Seq<KeyChord>, A>, a: A) -> Map<
    Seq<KeyChord>,
    A,
> {
    Map::new(|k: Seq<KeyChord>| m.contains_key(k) && !m[k].eq_spec(&a), |k: Seq<KeyChord>| m[k])
}

/// Some `(mode, action)` already cleared is binding `b`'s.
pub open spec fn cleared_has<A: PartialEq>(c: Seq<(Seq<char>, A)>, b: BindingInfo<A>) -> bool {
    exists|j: int| 0 <= j < c.len() && c[j].0 == b.mode@ && #[trigger] c[j].1.eq_spec(&b.action)
}

/// Before a layer's bindings are made, each of its `(mode, action)` pairs
/// loses its earlier bindings, once per pair: the registry after that, and
/// the pairs cleared.
pub open spec fn unbind_pass<A: PartialEq>(
    r: Map<Seq<char>, Map<Seq<KeyChord>, A>>,
    s: Seq<BindingInfo<A>>,
) -> (Map<Seq<char>, Map<Seq<KeyChord>, A>>, Seq<(Seq<char>, A)>)
    decreases s.len(),
{
    if s.len() == 0 {
        (r, Seq::empty())
    } else {
        let prev = unbind_pass(r, s.drop_last());
        let b = s.last();
        if cleared_has(prev.1, b) {
            prev
        } else {
            (
                prev.0.insert(b.mode@, without_action(mode_map(prev.0, b.mode@), b.action)),
                prev.1.push((b.mode@, b.action)),
            )
        }
    }
}

/// A layer remapped over `r`: the actions it binds lose their earlier keys
/// in its modes, then its bindings are made.
pub open spec fn remap_spec<A: PartialEq>(r: Map<Seq<char>, Map<Seq<KeyChord>, A>>, s: Seq<BindingInfo<A>>) -> Map<
    Seq<char>,
    Map<Seq<KeyChord>, A>,
> {
    apply_spec(unbind_pass(r, s).0, s)
}

pub open spec fn cleared_view<A>(c: Seq<(String, A)>) -> Seq<(Seq<char>, A)> {
    c.map_values(|e: (String, A)| (e.0@, e.1))
}

fn apply_catalog_to_registry<A: Clone>(registry: &mut InputRegistry<A>, catalog: &BindingCatalog<A>)
    requires
        old(registry).wf(),
    ensures
        final(registry).wf(),
        clones_equal::<A>() ==> final(registry)@ == apply_spec(old(registry)@, catalog.bindings@),
{
    let ghost s = catalog.bindings@;
    let mut i: usize = 0;
    while i < catalog.bindings.len()
        invariant
            i <= s.len(),
            s == catalog.bindings@,
            registry.wf(),
            clones_equal::<A>() ==> registry@ == apply_spec(old(registry)@, s.take(i as int)),
        decreases s.len() - i,
    {
        let b = &catalog.bindings[i];
        let sequence = copy_chords(b.sequence.as_slice());
        let action = b.action.clone();
        let ghost before = registry@;
        let m = registry.map_mut(b.mode.as_str());
        m.bind(sequence, action);
        proof {
            assert(s.take(i + 1).drop_last() =~= s.take(i as int));
            assert(s.take(i + 1).last() == s[i as int]);
            assert(cloned(b.action, action));
            if clones_equal::<A>() {
                assert(action == b.action);
            }
        }
        i = i + 1;
    }
    assert(s.take(s.len() as int) =~= s);
}

fn remap_catalog_to_registry<A: Clone + PartialEq>(registry: &mut InputRegistry<A>, catalog: &BindingCatalog<A>)
    requires
        old(registry).wf(),
    ensures
        final(registry).wf(),
        clones_equal::<A>() && A::obeys_eq_spec() ==> final(registry)@ == remap_spec(
            old(registry)@,
            catalog.bindings@,
        ),
{
    let ghost s = catalog.bindings@;
    let mut cleared: Vec<(String, A)> = Vec::new();
    let mut i: usize = 0;
    while i < catalog.bindings.len()
        invariant
            i <= s.len(),
            s == catalog.bindings@,
            registry.wf(),
            clones_equal::<A>() && A::obeys_eq_spec() ==> (registry@, cleared_view(cleared@))
                == unbind_pass(old(registry)@, s.take(i as int)),
        decreases s.len() - i,
    {
        let b = &catalog.bindings[i];
        let ghost c = cleared_view(cleared@);
        let mut found = false;
        let mut j: usize = 0;
        while j < cleared.len() && !found
            invariant
                j <= cleared@.len(),
                c == cleared_view(cleared@),
                A::obeys_eq_spec() ==> (found ==> cleared_has(c, *b)),
                A::obeys_eq_spec() ==> (!found ==> forall|k: int|
                    0 <= k < j ==> !(c[k].0 == b.mode@ && #[trigger] c[k].1.eq_spec(&b.action))),
            decreases cleared@.len() - j,
        {
            if str_eq(cleared[j].0.as_str(), b.mode.as_str()) && cleared[j].1 == b.action {
                assert(c[j as int] == (cleared@[j as int].0@, cleared@[j as int].1));
                proof {
                    if A::obeys_eq_spec() {
                        assert(c[j as int].1.eq_spec(&b.action));
                        assert(c[j as int].0 == b.mode@);
                        assert(cleared_has(c, *b));
                    }
                }
                found = true;
            }
            j = j + 1;
        }
        proof {
            assert(s.take(i + 1).drop_last() =~= s.take(i as int));
            assert(s.take(i + 1).last() == s[i as int]);
        }
        if !found {
            let ghost before = registry@;
            let m = registry.map_mut(b.mode.as_str());
            let ghost old_m = m@;
            let _ = m.unbind_action(&b.action);
            proof {
                if A::obeys_eq_spec() {
                    let w = without_action(old_m, b.action);
                    assert forall|k: Seq<KeyChord>| #[trigger] m@.contains_key(k) <==> w.contains_key(k) by {
                        if m@.contains_key(k) {
                            assert(old_m.contains_key(k));
                        }
                    }
                    assert forall|k: Seq<KeyChord>| #[trigger] m@.contains_key(k) implies m@[k] == w[k] by {
                        assert(old_m.contains_key(k));
                    }
                    assert(m@ =~= w);
                }
            }
            let ghost cb = cleared@;
            cleared.push((b.mode.clone(), b.action.clone()));
            proof {
                if clones_equal::<A>() && A::obeys_eq_spec() {
                    assert(cloned(b.action, cleared@.last().1));
                    assert(cleared@.last().1 == b.action);
                    assert(cleared_view(cleared@) =~= cleared_view(cb).push((b.mode@, b.action)));
                }
            }
        }
        i = i + 1;
    }
    assert(s.take(s.len() as int) =~= s);
    apply_catalog_to_registry(registry, catalog);
}


/// Some binding of `s` in mode `mode` is of action `a`.
pub open spec fn catalog_has<A: PartialEq>(s: Seq<BindingInfo<A>>, mode: Seq<char>, a: A) -> bool {
    exists|i: int| 0 <= i < s.len() && s[i].mode@ == mode && #[trigger] s[i].action.eq_spec(&a)
}

/// `k` is bound to action `a` in mode `mode`.
pub open spec fn bound_to<A: PartialEq>(
    r: Map<Seq<char>, Map<Seq<KeyChord>, A>>,
    mode: Seq<char>,
    a: A,
    k: Seq<KeyChord>,
) -> bool {
    mode_map(r, mode).contains_key(k) && mode_map(r, mode)[k].eq_spec(&a)
}

/// An inheritance applied to `r`: unless the user or runtime layer binds the
/// target action in the target mode, or the source action has no keys, the
/// target action loses its keys in the target mode and takes every key of the
/// source action in the source mode.
pub open spec fn inherit_step<A: PartialEq>(
    r: Map<Seq<char>, Map<Seq<KeyChord>, A>>,
    user: Seq<BindingInfo<A>>,
    runtime: Seq<BindingInfo<A>>,
    inh: KeybindingInheritance<A>,
) -> Map<Seq<char>, Map<Seq<KeyChord>, A>> {
    let src = |k: Seq<KeyChord>| bound_to(r, inh.source_mode@, inh.source_action, k);
    if !(exists|k: Seq<KeyChord>| #[trigger] bound_to(r, inh.source_mode@, inh.source_action, k))
        || catalog_has(user, inh.target_mode@, inh.target_action) || catalog_has(
        runtime,
        inh.target_mode@,
        inh.target_action,
    ) {
        r
    } else {
        let t = without_action(mode_map(r, inh.target_mode@), inh.target_action);
        r.insert(
            inh.target_mode@,
            Map::new(
                |k: Seq<KeyChord>| t.contains_key(k) || src(k),
                |k: Seq<KeyChord>|
                    if src(k) {
                        inh.target_action
                    } else {
                        t[k]
                    },
            ),
        )
    }
}

/// Every inheritance applied, in order.
pub open spec fn inherit_all<A: PartialEq>(
    r: Map<Seq<char>, Map<Seq<KeyChord>, A>>,
    user: Seq<BindingInfo<A>>,
    runtime: Seq<BindingInfo<A>>,
    inhs: Seq<KeybindingInheritance<A>>,
) -> Map<Seq<char>, Map<Seq<KeyChord>, A>>
    decreases inhs.len(),
{
    if inhs.len() == 0 {
        r
    } else {
        inherit_step(inherit_all(r, user, runtime, inhs.drop_last()), user, runtime, inhs.last())
    }
}

fn catalog_has_action<A: PartialEq>(catalog: &BindingCatalog<A>, mode: &ModeId, action: &A) -> (r: bool)
    ensures
        A::obeys_eq_spec() ==> r == catalog_has(catalog.bindings@, mode@, *action),
{
    let ghost s = catalog.bindings@;
    let mut i: usize = 0;
    while i < catalog.bindings.len()
        invariant
            i <= s.len(),
            s == catalog.bindings@,
            A::obeys_eq_spec() ==> forall|j: int|
                0 <= j < i ==> !(s[j].mode@ == mode@ && #[trigger] s[j].action.eq_spec(action)),
        decreases s.len() - i,
    {
        if str_eq(catalog.bindings[i].mode.as_str(), mode.as_str()) && catalog.bindings[i].action
            == *action {
            proof {
                if A::obeys_eq_spec() {
                    assert(s[i as int].action.eq_spec(action));
                }
            }
            return true;
        }
        i = i + 1;
    }
    false
}

fn registry_bindings_for_action<A: PartialEq>(registry: &InputRegistry<A>, mode: &ModeId, action: &A) -> (r:
    Vec<Vec<KeyChord>>)
    requires
        registry.wf(),
    ensures
        A::obeys_eq_spec() ==> forall|i: int|
            0 <= i < r@.len() ==> #[trigger] bound_to(registry@, mode@, *action, r@[i]@),
        A::obeys_eq_spec() ==> forall|k: Seq<KeyChord>|
            #[trigger] bound_to(registry@, mode@, *action, k) ==> exists|i: int|
                0 <= i < r@.len() && r@[i]@ == k,
{
    let mut out: Vec<Vec<KeyChord>> = Vec::new();
    match registry.get_map(mode.as_str()) {
        Some(m) => {
            let keys = m.bindings_for(action);
            let mut i: usize = 0;
            while i < keys.len()
                invariant
                    i <= keys@.len(),
                    out@.len() == i,
                    forall|j: int| 0 <= j < i ==> #[trigger] out@[j]@ == keys@[j]@,
                decreases keys@.len() - i,
            {
                out.push(copy_chords(keys[i]));
                i = i + 1;
            }
            proof {
                if A::obeys_eq_spec() {
                    assert forall|k: Seq<KeyChord>| #[trigger] bound_to(registry@, mode@, *action, k) implies exists|i: int|
                        0 <= i < out@.len() && out@[i]@ == k by {
                        let i = choose|i: int| 0 <= i < keys@.len() && keys@[i]@ == k;
                        assert(out@[i]@ == k);
                    }
                    assert forall|i: int| 0 <= i < out@.len() implies #[trigger] bound_to(registry@, mode@, *action, out@[i]@) by {
                        assert(out@[i]@ == keys@[i]@);
                    }
                }
            }
        },
        None => {},
    }
    out
}


fn apply_keymap_inheritances<A: Clone + PartialEq>(
    registry: &mut InputRegistry<A>,
    user_keymap: &BindingCatalog<A>,
    runtime_keymap: &BindingCatalog<A>,
    inheritances: &[KeybindingInheritance<A>],
)
    requires
        old(registry).wf(),
    ensures
        final(registry).wf(),
        clones_equal::<A>() && A::obeys_eq_spec() ==> final(registry)@ == inherit_all(
            old(registry)@,
            user_keymap.bindings@,
            runtime_keymap.bindings@,
            inheritances@,
        ),
{
    let ghost user = user_keymap.bindings@;
    let ghost runtime = runtime_keymap.bindings@;
    let ghost inhs = inheritances@;
    let mut n: usize = 0;
    while n < inheritances.len()
        invariant
            n <= inhs.len(),
            inhs == inheritances@,
            user == user_keymap.bindings@,
            runtime == runtime_keymap.bindings@,
            registry.wf(),
            clones_equal::<A>() && A::obeys_eq_spec() ==> registry@ == inherit_all(
                old(registry)@,
                user,
                runtime,
                inhs.take(n as int),
            ),
        decreases inhs.len() - n,
    {
        let inh = &inheritances[n];
        proof {
            assert(inhs.take(n + 1).drop_last() =~= inhs.take(n as int));
            assert(inhs.take(n + 1).last() == inhs[n as int]);
        }
        let ghost r0 = registry@;
        let source = registry_bindings_for_action(registry, &inh.source_mode, &inh.source_action);
        if source.len() == 0 {
            proof {
                if A::obeys_eq_spec() {
                    assert(!(exists|k: Seq<KeyChord>| #[trigger] bound_to(r0, inh.source_mode@, inh.source_action, k)));
                }
            }
            n = n + 1;
            continue;
        }
        proof {
            if A::obeys_eq_spec() {
                assert(bound_to(r0, inh.source_mode@, inh.source_action, source@[0]@));
            }
        }
        if catalog_has_action(user_keymap, &inh.target_mode, &inh.target_action) || catalog_has_action(
            runtime_keymap,
            &inh.target_mode,
            &inh.target_action,
        ) {
            n = n + 1;
            continue;
        }
        let ghost t = without_action(mode_map(r0, inh.target_mode@), inh.target_action);
        {
            let m = registry.map_mut(inh.target_mode.as_str());
            let ghost old_m = m@;
            let _ = m.unbind_action(&inh.target_action);
            proof {
                if A::obeys_eq_spec() {
                    assert forall|k: Seq<KeyChord>| #[trigger] m@.contains_key(k) <==> t.contains_key(k) by {
                        if m@.contains_key(k) {
                            assert(old_m.contains_key(k));
                        }
                    }
                    assert forall|k: Seq<KeyChord>| #[trigger] m@.contains_key(k) implies m@[k] == t[k] by {
                        assert(old_m.contains_key(k));
                    }
                    assert(m@ =~= t);
                }
            }
        }
        let ghost src = |k: Seq<KeyChord>| bound_to(r0, inh.source_mode@, inh.source_action, k);
        proof {
            if clones_equal::<A>() && A::obeys_eq_spec() {
                let init = Map::new(
                    |k: Seq<KeyChord>| t.contains_key(k) || exists|i: int| 0 <= i < 0 && source@[i]@ == k,
                    |k: Seq<KeyChord>|
                        if exists|i: int| 0 <= i < 0 && source@[i]@ == k {
                            inh.target_action
                        } else {
                            t[k]
                        },
                );
                assert(init =~= t);
                assert(registry@ == r0.insert(inh.target_mode@, t));
            }
        }
        let mut j: usize = 0;
        while j < source.len()
            invariant
                j <= source@.len(),
                registry.wf(),
                clones_equal::<A>() && A::obeys_eq_spec() ==> registry@ == r0.insert(
                    inh.target_mode@,
                    Map::new(
                        |k: Seq<KeyChord>| t.contains_key(k) || exists|i: int| 0 <= i < j && source@[i]@ == k,
                        |k: Seq<KeyChord>|
                            if exists|i: int| 0 <= i < j && source@[i]@ == k {
                                inh.target_action
                            } else {
                                t[k]
                            },
                    ),
                ),
            decreases source@.len() - j,
        {
            let sequence = copy_chords(source[j].as_slice());
            let action = inh.target_action.clone();
            let m = registry.map_mut(inh.target_mode.as_str());
            m.bind(sequence, action);
            proof {
                assert(cloned(inh.target_action, action));
                if clones_equal::<A>() && A::obeys_eq_spec() {
                    assert(action == inh.target_action);
                    let jj = j + 1;
                    let next = Map::new(
                        |k: Seq<KeyChord>| t.contains_key(k) || exists|i: int| 0 <= i < jj && source@[i]@ == k,
                        |k: Seq<KeyChord>|
                            if exists|i: int| 0 <= i < jj && source@[i]@ == k {
                                inh.target_action
                            } else {
                                t[k]
                            },
                    );
                    assert forall|k: Seq<KeyChord>| #[trigger] m@.contains_key(k) <==> next.contains_key(k) by {
                        if k == source@[j as int]@ {
                            assert(0 <= j < jj && source@[j as int]@ == k);
                        }
                    }
                    assert forall|k: Seq<KeyChord>| #[trigger] m@.contains_key(k) implies m@[k] == next[k] by {
                        if k == source@[j as int]@ {
                            assert(0 <= j < jj && source@[j as int]@ == k);
                        }
                    }
                    assert(m@ =~= next);
                }
            }
            j = j + 1;
        }
        proof {
            if clones_equal::<A>() && A::obeys_eq_spec() {
                let fin = Map::new(
                    |k: Seq<KeyChord>| t.contains_key(k) || src(k),
                    |k: Seq<KeyChord>|
                        if src(k) {
                            inh.target_action
                        } else {
                            t[k]
                        },
                );
                let cur = Map::new(
                    |k: Seq<KeyChord>| t.contains_key(k) || exists|i: int| 0 <= i < source@.len() && source@[i]@ == k,
                    |k: Seq<KeyChord>|
                        if exists|i: int| 0 <= i < source@.len() && source@[i]@ == k {
                            inh.target_action
                        } else {
                            t[k]
                        },
                );
                assert forall|k: Seq<KeyChord>| (exists|i: int| 0 <= i < source@.len() && source@[i]@ == k) <==> #[trigger] src(k) by {
                    if exists|i: int| 0 <= i < source@.len() && source@[i]@ == k {
                        let i = choose|i: int| 0 <= i < source@.len() && source@[i]@ == k;
                        assert(bound_to(r0, inh.source_mode@, inh.source_action, source@[i]@));
                    }
                    if src(k) {
                        assert(bound_to(r0, inh.source_mode@, inh.source_action, k));
                    }
                }
                assert(cur =~= fin);
            }
        }
        n = n + 1;
    }
    assert(inhs.take(inhs.len() as int) =~= inhs);
}


/// The bindings a raw binding's keys give in mode `mode` for action `a`:
/// one per key that parses, in order.
pub open spec fn keys_resolved<A>(mode: Seq<char>, keys: Seq<Seq<char>>, a: A) -> Seq<
    (Seq<char>, Seq<KeyChord>, A),
>
    decreases keys.len(),
{
    if keys.len() == 0 {
        Seq::empty()
    } else {
        let rest = keys_resolved(mode, keys.drop_last(), a);
        match binding_result(keys.last()) {
            Ok(c) => rest.push((mode, c, a)),
            Err(_) => rest,
        }
    }
}

proof fn lemma_keys_resolved_len<A>(mode: Seq<char>, keys: Seq<Seq<char>>, a: A, b: A)
    ensures
        keys_resolved(mode, keys, a).len() == keys_resolved(mode, keys, b).len(),
    decreases keys.len(),
{
    if keys.len() > 0 {
        lemma_keys_resolved_len(mode, keys.drop_last(), a, b);
    }
}

/// A raw binding of section `name` (mode `mode`) resolved through the
/// registry entries: its bindings, or an unknown-action issue when no entry
/// has its name.
pub open spec fn binding_resolved<A>(
    entries: Seq<BindableActionInfo<A>>,
    name: Seq<char>,
    mode: Seq<char>,
    b: RawBindingModel,
) -> (Seq<(Seq<char>, Seq<KeyChord>, A)>, Seq<IssueModel>) {
    match first_named(entries, b.0) {
        None => (Seq::empty(), seq![IssueModel::UnknownAction(name, b.0)]),
        Some(i) => (keys_resolved(mode, b.1, entries[i].action), Seq::empty()),
    }
}

pub open spec fn bindings_resolved<A>(
    entries: Seq<BindableActionInfo<A>>,
    name: Seq<char>,
    mode: Seq<char>,
    bs: Seq<RawBindingModel>,
) -> (Seq<(Seq<char>, Seq<KeyChord>, A)>, Seq<IssueModel>)
    decreases bs.len(),
{
    if bs.len() == 0 {
        (Seq::empty(), Seq::empty())
    } else {
        let prev = bindings_resolved(entries, name, mode, bs.drop_last());
        let last = binding_resolved(entries, name, mode, bs.last());
        (prev.0 + last.0, prev.1 + last.1)
    }
}

/// A raw keymap resolved through the registry entries, section by section:
/// the bindings made and the unknown action names met.
pub open spec fn keymap_resolved<A>(entries: Seq<BindableActionInfo<A>>, secs: Seq<RawSectionModel>) -> (
    Seq<(Seq<char>, Seq<KeyChord>, A)>,
    Seq<IssueModel>,
)
    decreases secs.len(),
{
    if secs.len() == 0 {
        (Seq::empty(), Seq::empty())
    } else {
        let prev = keymap_resolved(entries, secs.drop_last());
        let sec = secs.last();
        let last = bindings_resolved(entries, sec.0, sec.1, sec.2);
        (prev.0 + last.0, prev.1 + last.1)
    }
}

fn resolve_raw_keymap<A: Clone>(keymap: &RawKeymap, actions: &ActionRegistry<A>, source: BindingSource) -> (r: (
    BindingCatalog<A>,
    Vec<NavigationPresetIssue>,
))
    ensures
        issue_models(r.1@) == keymap_resolved(
            actions.entries_spec(),
            raw_section_models(keymap.sections@),
        ).1,
        r.0.bindings@.len() == keymap_resolved(
            actions.entries_spec(),
            raw_section_models(keymap.sections@),
        ).0.len(),
        clones_equal::<A>() ==> forall|i: int|
            0 <= i < r.0.bindings@.len() ==> #[trigger] records(
                r.0.bindings@[i],
                keymap_resolved(actions.entries_spec(), raw_section_models(keymap.sections@)).0[i],
                source,
            ),
{
    let ghost entries = actions.entries_spec();
    let ghost secs = raw_section_models(keymap.sections@);
    let mut catalog = BindingCatalog::new();
    let mut issues: Vec<NavigationPresetIssue> = Vec::new();
    let mut si: usize = 0;
    while si < keymap.sections.len()
        invariant
            si <= keymap.sections@.len(),
            entries == actions.entries_spec(),
            secs == raw_section_models(keymap.sections@),
            issue_models(issues@) == keymap_resolved(entries, secs.take(si as int)).1,
            catalog.bindings@.len() == keymap_resolved(entries, secs.take(si as int)).0.len(),
            clones_equal::<A>() ==> forall|i: int|
                0 <= i < catalog.bindings@.len() ==> #[trigger] records(
                    catalog.bindings@[i],
                    keymap_resolved(entries, secs.take(si as int)).0[i],
                    source,
                ),
        decreases keymap.sections@.len() - si,
    {
        let section = &keymap.sections[si];
        let ghost sec = raw_section_model(*section);
        let ghost bs = sec.2;
        let ghost prev = keymap_resolved(entries, secs.take(si as int));
        proof {
            assert(secs.take(si + 1).drop_last() =~= secs.take(si as int));
            assert(secs.take(si + 1).last() == sec);
        }
        let mut bi: usize = 0;
        while bi < section.bindings.len()
            invariant
                bi <= section.bindings@.len(),
                entries == actions.entries_spec(),
                sec == raw_section_model(*section),
                bs == sec.2,
                issue_models(issues@) == prev.1 + bindings_resolved(entries, sec.0, sec.1, bs.take(bi as int)).1,
                catalog.bindings@.len() == prev.0.len() + bindings_resolved(
                    entries,
                    sec.0,
                    sec.1,
                    bs.take(bi as int),
                ).0.len(),
                clones_equal::<A>() ==> forall|i: int|
                    0 <= i < catalog.bindings@.len() ==> #[trigger] records(
                        catalog.bindings@[i],
                        (prev.0 + bindings_resolved(entries, sec.0, sec.1, bs.take(bi as int)).0)[i],
                        source,
                    ),
            decreases section.bindings@.len() - bi,
        {
            let binding = &section.bindings[bi];
            let ghost bm = bs[bi as int];
            let ghost done = bindings_resolved(entries, sec.0, sec.1, bs.take(bi as int));
            proof {
                assert(bs.take(bi + 1).drop_last() =~= bs.take(bi as int));
                assert(bs.take(bi + 1).last() == bm);
                assert(bm.0 == binding.name@);
            }
            match actions.resolve(binding.name.as_str()) {
                None => {
                    let ghost before = issues@;
                    issues.push(
                        NavigationPresetIssue::UnknownAction {
                            section: section.name.clone(),
                            action: binding.name.clone(),
                        },
                    );
                    proof {
                        assert(issue_models(issues@) =~= issue_models(before).push(
                            IssueModel::UnknownAction(sec.0, bm.0),
                        ));
                        let next = bindings_resolved(entries, sec.0, sec.1, bs.take(bi + 1));
                        assert(next.0 =~= done.0);
                        assert(next.1 =~= done.1.push(IssueModel::UnknownAction(sec.0, bm.0)));
                        assert(prev.1 + next.1 =~= (prev.1 + done.1).push(
                            IssueModel::UnknownAction(sec.0, bm.0),
                        ));
                    }
                },
                Some(action) => {
                    let ghost i0 = first_named(entries, bm.0)->Some_0;
                    let ghost keys = bm.1;
                    let ghost start = catalog.bindings@.len();
                    let mut ki: usize = 0;
                    while ki < binding.keys.len()
                        invariant
                            ki <= binding.keys@.len(),
                            keys == bm.1,
                            bm == raw_section_model(*section).2[bi as int],
                            bm.1 == strings_view(binding.keys@),
                            sec == raw_section_model(*section),
                            start == prev.0.len() + done.0.len(),
                            catalog.bindings@.len() == start + keys_resolved(
                                sec.1,
                                keys.take(ki as int),
                                action,
                            ).len(),
                            clones_equal::<A>() ==> forall|i: int|
                                0 <= i < catalog.bindings@.len() ==> #[trigger] records(
                                    catalog.bindings@[i],
                                    (prev.0 + done.0 + keys_resolved(
                                        sec.1,
                                        keys.take(ki as int),
                                        action,
                                    ))[i],
                                    source,
                                ),
                        decreases binding.keys@.len() - ki,
                    {
                        proof {
                            assert(keys.take(ki + 1).drop_last() =~= keys.take(ki as int));
                            assert(keys.take(ki + 1).last() == binding.keys@[ki as int]@);
                        }
                        let ghost pre_cat = catalog.bindings@;
                        let ghost kr0 = keys_resolved(sec.1, keys.take(ki as int), action);
                        match try_parse_binding(binding.keys[ki].as_str()) {
                            Ok(sequence) => {
                                let a = action.clone();
                                let ghost sq = sequence@;
                                let info = BindingInfo {
                                    layer: BindingLayer::Keymap,
                                    mode: section.mode.clone(),
                                    sequence,
                                    action: a,
                                    source,
                                };
                                catalog.push(info);
                                proof {
                                    assert(cloned(action, a));
                                    assert(binding_result(keys.take(ki + 1).last()) == Ok::<
                                        Seq<KeyChord>,
                                        Option<Seq<char>>,
                                    >(sq));
                                    assert(keys_resolved(sec.1, keys.take(ki + 1), action) == kr0.push(
                                        (sec.1, sq, action),
                                    ));
                                    assert(prev.0 + done.0 + kr0.push((sec.1, sq, action)) =~= (prev.0
                                        + done.0 + kr0).push((sec.1, sq, action)));
                                    assert(catalog.bindings@ == pre_cat.push(info));
                                    assert(records(info, (sec.1, sq, action), source));
                                }
                            },
                            Err(_) => {
                                proof {
                                    assert(binding_result(keys.take(ki + 1).last()) is Err);
                                    assert(keys_resolved(sec.1, keys.take(ki + 1), action) == kr0);
                                }
                            },
                        }
                        ki = ki + 1;
                    }
                    proof {
                        assert(keys.take(keys.len() as int) =~= keys);
                        lemma_keys_resolved_len(sec.1, keys, action, entries[i0].action);
                        let next = bindings_resolved(entries, sec.0, sec.1, bs.take(bi + 1));
                        assert(next.0 == done.0 + keys_resolved(sec.1, keys, entries[i0].action));
                        assert(next.1 =~= done.1);
                        if clones_equal::<A>() {
                            assert(cloned(entries[i0].action, action));
                            assert(action == entries[i0].action);
                            assert(prev.0 + next.0 =~= prev.0 + done.0 + keys_resolved(sec.1, keys, action));
                        }
                    }
                },
            }
            bi = bi + 1;
        }
        proof {
            assert(bs.take(bs.len() as int) =~= bs);
            let next = keymap_resolved(entries, secs.take(si + 1));
            let part = bindings_resolved(entries, sec.0, sec.1, bs);
            assert(next.0 == prev.0 + part.0);
            assert(next.1 == prev.1 + part.1);
        }
        si = si + 1;
    }
    proof {
        assert(secs.take(secs.len() as int) =~= secs);
    }
    (catalog, issues)
}


/// Something a user should know about how the binding layers combine.
#[derive(Debug, Clone, PartialEq, Eq)]
pub enum BindingNotice<A> {
    UserOverridesDefault {
        mode: String,
        sequence: Vec<KeyChord>,
        default_action: A,
        user_action: A,
    },
    RuntimeOverrides {
        mode: String,
        sequence: Vec<KeyChord>,
        previous_source: BindingSource,
        previous_action: A,
        runtime_action: A,
    },
    SameLayerConflict(BindingConflict<A>),
    CrossLayerOverlap(BindingConflict<A>),
    InvalidEntry(NavigationPresetIssue),
}

/// A notice as plain values.
pub enum NoticeModel<A> {
    UserOverrides(Seq<char>, Seq<KeyChord>, A, A),
    RuntimeOverrides(Seq<char>, Seq<KeyChord>, BindingSource, A, A),
    SameLayer(ConflictModel<A>),
    CrossLayer(ConflictModel<A>),
    Invalid(IssueModel),
}

/// The notice `n` states `m`, its actions cloned.
pub open spec fn notice_matches<A: Clone>(n: BindingNotice<A>, m: NoticeModel<A>) -> bool {
    match (n, m) {
        (
            BindingNotice::UserOverridesDefault { mode, sequence, default_action, user_action },
            NoticeModel::UserOverrides(m2, s2, d2, u2),
        ) => mode@ == m2 && sequence@ == s2 && cloned(d2, default_action) && cloned(u2, user_action),
        (
            BindingNotice::RuntimeOverrides {
                mode,
                sequence,
                previous_source,
                previous_action,
                runtime_action,
            },
            NoticeModel::RuntimeOverrides(m2, s2, src2, p2, r2),
        ) => mode@ == m2 && sequence@ == s2 && previous_source == src2 && cloned(p2, previous_action)
            && cloned(r2, runtime_action),
        (BindingNotice::SameLayerConflict(c), NoticeModel::SameLayer(c2)) => conflict_matches(c, c2),
        (BindingNotice::CrossLayerOverlap(c), NoticeModel::CrossLayer(c2)) => conflict_matches(c, c2),
        (BindingNotice::InvalidEntry(i), NoticeModel::Invalid(i2)) => issue_model(i) == i2,
        _ => false,
    }
}

pub open spec fn notices_match<A: Clone>(ns: Seq<BindingNotice<A>>, ms: Seq<NoticeModel<A>>) -> bool {
    ns.len() == ms.len() && forall|i: int| 0 <= i < ns.len() ==> #[trigger] notice_matches(ns[i], ms[i])
}

/// The notices a user binding `u` gets: each default binding of its keys in
/// its mode to another action is overridden; failing any, each default key
/// of its action in its mode other than its own is replaced.
pub open spec fn user_notices_for<A: PartialEq>(builtin: Seq<BindingInfo<A>>, u: BindingInfo<A>) -> Seq<
    NoticeModel<A>,
> {
    let same_keys = builtin.filter(
        |d: BindingInfo<A>| d.mode@ == u.mode@ && d.sequence@ == u.sequence@,
    );
    let overridden = same_keys.filter(|d: BindingInfo<A>| !d.action.eq_spec(&u.action));
    let replaced = builtin.filter(|d: BindingInfo<A>| d.action.eq_spec(&u.action)).filter(
        |d: BindingInfo<A>| d.mode@ == u.mode@ && d.sequence@ != u.sequence@,
    );
    let defaults = if overridden.len() > 0 {
        overridden
    } else {
        replaced
    };
    defaults.map_values(
        |d: BindingInfo<A>| NoticeModel::UserOverrides(u.mode@, u.sequence@, d.action, u.action),
    )
}

pub open spec fn user_notices<A: PartialEq>(builtin: Seq<BindingInfo<A>>, user: Seq<BindingInfo<A>>) -> Seq<
    NoticeModel<A>,
>
    decreases user.len(),
{
    if user.len() == 0 {
        Seq::empty()
    } else {
        user_notices(builtin, user.drop_last()) + user_notices_for(builtin, user.last())
    }
}

/// The notices a runtime binding `r` gets: each default, then each user,
/// binding of its keys in its mode to another action is overridden.
pub open spec fn runtime_notices_for<A: PartialEq>(
    builtin: Seq<BindingInfo<A>>,
    user: Seq<BindingInfo<A>>,
    r: BindingInfo<A>,
) -> Seq<NoticeModel<A>> {
    let key = |p: BindingInfo<A>| p.mode@ == r.mode@ && p.sequence@ == r.sequence@;
    let other = |p: BindingInfo<A>| !p.action.eq_spec(&r.action);
    let previous = builtin.filter(key).filter(other) + user.filter(key).filter(other);
    previous.map_values(
        |p: BindingInfo<A>|
            NoticeModel::RuntimeOverrides(r.mode@, r.sequence@, p.source, p.action, r.action),
    )
}

pub open spec fn runtime_notices<A: PartialEq>(
    builtin: Seq<BindingInfo<A>>,
    user: Seq<BindingInfo<A>>,
    runtime: Seq<BindingInfo<A>>,
) -> Seq<NoticeModel<A>>
    decreases runtime.len(),
{
    if runtime.len() == 0 {
        Seq::empty()
    } else {
        runtime_notices(builtin, user, runtime.drop_last()) + runtime_notices_for(
            builtin,
            user,
            runtime.last(),
        )
    }
}


proof fn lemma_filter_step<T>(s: Seq<T>, pred: spec_fn(T) -> bool, j: int)
    requires
        0 <= j < s.len(),
    ensures
        s.take(j + 1).filter(pred) == if pred(s[j]) {
            s.take(j).filter(pred).push(s[j])
        } else {
            s.take(j).filter(pred)
        },
{
    let t = s.take(j + 1);
    assert(t.drop_last() =~= s.take(j));
    assert(t.last() == s[j]);
    reveal(Seq::filter);
}

proof fn lemma_map_push<T, U>(s: Seq<T>, e: T, f: spec_fn(T) -> U)
    ensures
        s.push(e).map_values(f) == s.map_values(f).push(f(e)),
{
    assert(s.push(e).map_values(f) =~= s.map_values(f).push(f(e)));
}

fn user_override_notices<A: Clone + PartialEq>(builtin: &BindingCatalog<A>, user: &BindingCatalog<A>) -> (r: Vec<
    BindingNotice<A>,
>)
    ensures
        A::obeys_eq_spec() ==> notices_match(r@, user_notices(builtin.bindings@, user.bindings@)),
{
    let ghost b = builtin.bindings@;
    let ghost us = user.bindings@;
    let mut notices: Vec<BindingNotice<A>> = Vec::new();
    let mut i: usize = 0;
    while i < user.bindings.len()
        invariant
            i <= us.len(),
            b == builtin.bindings@,
            us == user.bindings@,
            A::obeys_eq_spec() ==> notices_match(notices@, user_notices(b, us.take(i as int))),
        decreases us.len() - i,
    {
        let ub = &user.bindings[i];
        let ghost m0 = user_notices(b, us.take(i as int));
        proof {
            assert(us.take(i + 1).drop_last() =~= us.take(i as int));
            assert(us.take(i + 1).last() == *ub);
        }
        let ghost f = |d: BindingInfo<A>|
            NoticeModel::UserOverrides(ub.mode@, ub.sequence@, d.action, ub.action);
        let ghost neq = |d: BindingInfo<A>| !d.action.eq_spec(&ub.action);
        let same = builtin.bindings_for_sequence(ub.mode.as_str(), ub.sequence.as_slice());
        let ghost sv = infos_of(same@);
        let mut emitted = false;
        let mut j: usize = 0;
        assert(sv.take(0).filter(neq) =~= Seq::<BindingInfo<A>>::empty()) by {
            reveal(Seq::filter);
        }
        while j < same.len()
            invariant
                j <= same@.len(),
                sv == infos_of(same@),
                neq == (|d: BindingInfo<A>| !d.action.eq_spec(&ub.action)),
                f == (|d: BindingInfo<A>|
                    NoticeModel::UserOverrides(ub.mode@, ub.sequence@, d.action, ub.action)),
                A::obeys_eq_spec() ==> notices_match(
                    notices@,
                    m0 + sv.take(j as int).filter(neq).map_values(f),
                ),
                A::obeys_eq_spec() ==> emitted == (sv.take(j as int).filter(neq).len() > 0),
            decreases same@.len() - j,
        {
            proof {
                lemma_filter_step(sv, neq, j as int);
                assert(sv[j as int] == *same@[j as int]);
            }
            let ghost pre = notices@;
            if !(same[j].action == ub.action) {
                let n = BindingNotice::UserOverridesDefault {
                    mode: ub.mode.clone(),
                    sequence: copy_chords(ub.sequence.as_slice()),
                    default_action: same[j].action.clone(),
                    user_action: ub.action.clone(),
                };
                notices.push(n);
                proof {
                    if A::obeys_eq_spec() {
                        assert(neq(sv[j as int]));
                        lemma_map_push(sv.take(j as int).filter(neq), sv[j as int], f);
                        assert(notice_matches(n, f(sv[j as int])));
                        assert(m0 + sv.take(j + 1).filter(neq).map_values(f) =~= (m0 + sv.take(
                            j as int,
                        ).filter(neq).map_values(f)).push(f(sv[j as int])));
                    }
                }
                emitted = true;
            } else {
                proof {
                    if A::obeys_eq_spec() {
                        assert(!neq(sv[j as int]));
                    }
                }
            }
            j = j + 1;
        }
        assert(sv.take(sv.len() as int) =~= sv);
        if !emitted {
            let ghost sk = sv;
            let ghost eqa = |d: BindingInfo<A>| d.action.eq_spec(&ub.action);
            let ghost other_keys = |d: BindingInfo<A>| d.mode@ == ub.mode@ && d.sequence@ != ub.sequence@;
            let same_action = builtin.bindings_for_action(&ub.action);
            let ghost av = infos_of(same_action@);
            let mut k: usize = 0;
            assert(av.take(0).filter(other_keys) =~= Seq::<BindingInfo<A>>::empty()) by {
                reveal(Seq::filter);
            }
            while k < same_action.len()
                invariant
                    k <= same_action@.len(),
                    av == infos_of(same_action@),
                    other_keys == (|d: BindingInfo<A>| d.mode@ == ub.mode@ && d.sequence@
                        != ub.sequence@),
                    f == (|d: BindingInfo<A>|
                        NoticeModel::UserOverrides(ub.mode@, ub.sequence@, d.action, ub.action)),
                    A::obeys_eq_spec() ==> notices_match(
                        notices@,
                        m0 + av.take(k as int).filter(other_keys).map_values(f),
                    ),
                decreases same_action@.len() - k,
            {
                proof {
                    lemma_filter_step(av, other_keys, k as int);
                    assert(av[k as int] == *same_action@[k as int]);
                }
                if str_eq(same_action[k].mode.as_str(), ub.mode.as_str()) && !chords_equal(
                    same_action[k].sequence.as_slice(),
                    ub.sequence.as_slice(),
                ) {
                    let n = BindingNotice::UserOverridesDefault {
                        mode: ub.mode.clone(),
                        sequence: copy_chords(ub.sequence.as_slice()),
                        default_action: same_action[k].action.clone(),
                        user_action: ub.action.clone(),
                    };
                    notices.push(n);
                    proof {
                        if A::obeys_eq_spec() {
                            assert(other_keys(av[k as int]));
                            lemma_map_push(av.take(k as int).filter(other_keys), av[k as int], f);
                            assert(notice_matches(n, f(av[k as int])));
                            assert(m0 + av.take(k + 1).filter(other_keys).map_values(f) =~= (m0
                                + av.take(k as int).filter(other_keys).map_values(f)).push(
                                f(av[k as int]),
                            ));
                        }
                    }
                }
                k = k + 1;
            }
            proof {
                assert(av.take(av.len() as int) =~= av);
                if A::obeys_eq_spec() {
                    assert(user_notices_for(b, *ub) == av.filter(other_keys).map_values(f));
                }
            }
        } else {
            proof {
                if A::obeys_eq_spec() {
                    assert(user_notices_for(b, *ub) == sv.filter(neq).map_values(f));
                }
            }
        }
        proof {
            if A::obeys_eq_spec() {
                assert(user_notices(b, us.take(i + 1)) == m0 + user_notices_for(b, *ub));
            }
        }
        i = i + 1;
    }
    assert(us.take(us.len() as int) =~= us);
    notices
}


fn push_runtime_overrides<A: Clone + PartialEq>(
    notices: &mut Vec<BindingNotice<A>>,
    previous: &Vec<&BindingInfo<A>>,
    rb: &BindingInfo<A>,
    done: Ghost<Seq<NoticeModel<A>>>,
)
    requires
        A::obeys_eq_spec() ==> notices_match(old(notices)@, done@),
    ensures
        A::obeys_eq_spec() ==> notices_match(
            final(notices)@,
            done@ + infos_of(previous@).filter(|p: BindingInfo<A>| !p.action.eq_spec(&rb.action)).map_values(
                |p: BindingInfo<A>|
                    NoticeModel::RuntimeOverrides(rb.mode@, rb.sequence@, p.source, p.action, rb.action),
            ),
        ),
{
    let ghost pv = infos_of(previous@);
    let ghost other = |p: BindingInfo<A>| !p.action.eq_spec(&rb.action);
    let ghost f = |p: BindingInfo<A>|
        NoticeModel::RuntimeOverrides(rb.mode@, rb.sequence@, p.source, p.action, rb.action);
    assert(pv.take(0).filter(other) =~= Seq::<BindingInfo<A>>::empty()) by {
        reveal(Seq::filter);
    }
    let mut j: usize = 0;
    while j < previous.len()
        invariant
            j <= previous@.len(),
            pv == infos_of(previous@),
            other == (|p: BindingInfo<A>| !p.action.eq_spec(&rb.action)),
            f == (|p: BindingInfo<A>|
                NoticeModel::RuntimeOverrides(rb.mode@, rb.sequence@, p.source, p.action, rb.action)),
            A::obeys_eq_spec() ==> notices_match(notices@, done@ + pv.take(j as int).filter(other).map_values(f)),
        decreases previous@.len() - j,
    {
        proof {
            lemma_filter_step(pv, other, j as int);
            assert(pv[j as int] == *previous@[j as int]);
        }
        if !(previous[j].action == rb.action) {
            let n = BindingNotice::RuntimeOverrides {
                mode: rb.mode.clone(),
                sequence: copy_chords(rb.sequence.as_slice()),
                previous_source: previous[j].source,
                previous_action: previous[j].action.clone(),
                runtime_action: rb.action.clone(),
            };
            notices.push(n);
            proof {
                if A::obeys_eq_spec() {
                    assert(other(pv[j as int]));
                    lemma_map_push(pv.take(j as int).filter(other), pv[j as int], f);
                    assert(notice_matches(n, f(pv[j as int])));
                    assert(done@ + pv.take(j + 1).filter(other).map_values(f) =~= (done@ + pv.take(
                        j as int,
                    ).filter(other).map_values(f)).push(f(pv[j as int])));
                }
            }
        }
        j = j + 1;
    }
    assert(pv.take(pv.len() as int) =~= pv);
}

fn runtime_override_notices<A: Clone + PartialEq>(
    builtin: &BindingCatalog<A>,
    user: &BindingCatalog<A>,
    runtime: &BindingCatalog<A>,
) -> (r: Vec<BindingNotice<A>>)
    ensures
        A::obeys_eq_spec() ==> notices_match(
            r@,
            runtime_notices(builtin.bindings@, user.bindings@, runtime.bindings@),
        ),
{
    let ghost b = builtin.bindings@;
    let ghost u = user.bindings@;
    let ghost rs = runtime.bindings@;
    let mut notices: Vec<BindingNotice<A>> = Vec::new();
    let mut i: usize = 0;
    while i < runtime.bindings.len()
        invariant
            i <= rs.len(),
            b == builtin.bindings@,
            u == user.bindings@,
            rs == runtime.bindings@,
            A::obeys_eq_spec() ==> notices_match(notices@, runtime_notices(b, u, rs.take(i as int))),
        decreases rs.len() - i,
    {
        let rb = &runtime.bindings[i];
        let ghost m0 = runtime_notices(b, u, rs.take(i as int));
        proof {
            assert(rs.take(i + 1).drop_last() =~= rs.take(i as int));
            assert(rs.take(i + 1).last() == *rb);
        }
        let ghost key = |p: BindingInfo<A>| p.mode@ == rb.mode@ && p.sequence@ == rb.sequence@;
        let ghost other = |p: BindingInfo<A>| !p.action.eq_spec(&rb.action);
        let ghost f = |p: BindingInfo<A>|
            NoticeModel::RuntimeOverrides(rb.mode@, rb.sequence@, p.source, p.action, rb.action);
        let from_builtin = builtin.bindings_for_sequence(rb.mode.as_str(), rb.sequence.as_slice());
        push_runtime_overrides(&mut notices, &from_builtin, rb, Ghost(m0));
        let ghost m1 = m0 + b.filter(key).filter(other).map_values(f);
        let from_user = user.bindings_for_sequence(rb.mode.as_str(), rb.sequence.as_slice());
        push_runtime_overrides(&mut notices, &from_user, rb, Ghost(m1));
        proof {
            if A::obeys_eq_spec() {
                let x = b.filter(key).filter(other);
                let y = u.filter(key).filter(other);
                assert((x + y).map_values(f) =~= x.map_values(f) + y.map_values(f));
                assert(runtime_notices(b, u, rs.take(i + 1)) == m0 + runtime_notices_for(b, u, *rb));
                assert(m1 + y.map_values(f) =~= m0 + (x + y).map_values(f));
            }
        }
        i = i + 1;
    }
    assert(rs.take(rs.len() as int) =~= rs);
    notices
}


/// The notices a report gives.
#[derive(Debug, Clone, PartialEq, Eq)]
pub struct KeybindingReport<A> {
    pub notices: Vec<BindingNotice<A>>,
}

impl<A> Default for KeybindingReport<A> {
    fn default() -> (r: Self)
        ensures
            r.notices@.len() == 0,
    {
        KeybindingReport { notices: Vec::new() }
    }
}

impl<A> KeybindingReport<A> {
    pub fn is_empty(&self) -> (r: bool)
        ensures
            r == (self.notices@.len() == 0),
    {
        self.notices.len() == 0
    }
}

/// The binding layers: built-in defaults, the user's configuration, runtime
/// rebinds, and the inheritances between modes.
#[derive(Debug)]
pub struct BindingStore<A> {
    pub builtin_keymap: BindingCatalog<A>,
    pub user_keymap: BindingCatalog<A>,
    pub runtime_keymap: BindingCatalog<A>,
    keymap_inheritances: Vec<KeybindingInheritance<A>>,
}

impl<A> BindingStore<A> {
    pub closed spec fn inheritances_spec(&self) -> Seq<KeybindingInheritance<A>> {
        self.keymap_inheritances@
    }

    pub closed spec fn builtin_spec(&self) -> Seq<BindingInfo<A>> {
        self.builtin_keymap.bindings@
    }

    pub closed spec fn user_spec(&self) -> Seq<BindingInfo<A>> {
        self.user_keymap.bindings@
    }

    pub closed spec fn runtime_spec(&self) -> Seq<BindingInfo<A>> {
        self.runtime_keymap.bindings@
    }
}

impl<A> Default for BindingStore<A> {
    fn default() -> (r: Self)
        ensures
            r.builtin_spec().len() == 0,
            r.user_spec().len() == 0,
            r.runtime_spec().len() == 0,
            r.inheritances_spec().len() == 0,
    {
        BindingStore {
            builtin_keymap: BindingCatalog::new(),
            user_keymap: BindingCatalog::new(),
            runtime_keymap: BindingCatalog::new(),
            keymap_inheritances: Vec::new(),
        }
    }
}

/// The registry the layers combine into: the defaults, remapped by the user
/// layer, remapped by the runtime layer, with the inheritances applied.
pub open spec fn effective_spec<A: PartialEq>(st: BindingStore<A>) -> Map<
    Seq<char>,
    Map<Seq<KeyChord>, A>,
> {
    inherit_all(
        remap_spec(
            remap_spec(
                apply_spec(Map::empty(), st.builtin_spec()),
                st.user_spec(),
            ),
            st.runtime_spec(),
        ),
        st.user_spec(),
        st.runtime_spec(),
        st.inheritances_spec(),
    )
}

/// `cat` lists the bindings of `r`, each once, in the keymap layer with no
/// known origin.
pub open spec fn lists<A>(cat: Seq<BindingInfo<A>>, r: Map<Seq<char>, Map<Seq<KeyChord>, A>>) -> bool {
    &&& forall|i: int|
        0 <= i < cat.len() ==> #[trigger] cat[i].layer == BindingLayer::Keymap && cat[i].source
            == BindingSource::Unknown && r.contains_key(cat[i].mode@) && r[cat[i].mode@].contains_key(
            cat[i].sequence@,
        ) && r[cat[i].mode@][cat[i].sequence@] == cat[i].action
    &&& forall|m: Seq<char>, c: Seq<KeyChord>|
        r.contains_key(m) && #[trigger] r[m].contains_key(c) ==> exists|i: int|
            0 <= i < cat.len() && cat[i].mode@ == m && cat[i].sequence@ == c
    &&& forall|i: int, j: int|
        0 <= i < j < cat.len() ==> (cat[i].mode@, cat[i].sequence@) != (cat[j].mode@, cat[j].sequence@)
}

/// `ns` is the report of store `st` for the active modes: the user
/// overrides, the runtime overrides, then the conflicts found in some listing
/// of the effective registry.
pub open spec fn report_spec<A: PartialEq + Clone>(
    st: BindingStore<A>,
    active: Seq<Seq<char>>,
    ns: Seq<BindingNotice<A>>,
) -> bool {
    exists|cat: Seq<BindingInfo<A>>|
        #[trigger] lists(cat, effective_spec(st)) && notices_match(
            ns,
            user_notices(st.builtin_spec(), st.user_spec()) + runtime_notices(
                st.builtin_spec(),
                st.user_spec(),
                st.runtime_spec(),
            ) + analysis_spec(cat, active).map_values(|c: ConflictModel<A>| NoticeModel::SameLayer(c)),
        )
}

fn same_layer_notices<A>(conflicts: Vec<BindingConflict<A>>) -> (r: Vec<BindingNotice<A>>)
    ensures
        r@ == conflicts@.map_values(|c: BindingConflict<A>| BindingNotice::SameLayerConflict(c)),
{
    let ghost c0 = conflicts@;
    let ghost n = c0.len();
    let mut rest = conflicts;
    let mut rev: Vec<BindingConflict<A>> = Vec::new();
    while rest.len() > 0
        invariant
            rev@.len() + rest@.len() == n,
            n == c0.len(),
            rest@ == c0.take(rest@.len() as int),
            forall|j: int| 0 <= j < rev@.len() ==> #[trigger] rev@[j] == c0[n - 1 - j],
        decreases rest@.len(),
    {
        let ghost before = rest@;
        assert(before.last() == c0[before.len() - 1]);
        match rest.pop() {
            Some(c) => {
                rev.push(c);
            },
            None => {},
        }
        assert(rest@ =~= c0.take(rest@.len() as int));
    }
    let mut out: Vec<BindingNotice<A>> = Vec::new();
    while rev.len() > 0
        invariant
            out@.len() + rev@.len() == n,
            n == c0.len(),
            forall|j: int| 0 <= j < rev@.len() ==> #[trigger] rev@[j] == c0[n - 1 - j],
            out@ == c0.take(out@.len() as int).map_values(
                |c: BindingConflict<A>| BindingNotice::SameLayerConflict(c),
            ),
        decreases rev@.len(),
    {
        let ghost k = out@.len() as int;
        assert(rev@[rev@.len() - 1] == c0[k]);
        match rev.pop() {
            Some(c) => {
                out.push(BindingNotice::SameLayerConflict(c));
                assert(out@ =~= c0.take(k + 1).map_values(
                    |c: BindingConflict<A>| BindingNotice::SameLayerConflict(c),
                ));
            },
            None => {},
        }
    }
    assert(c0.take(n as int) =~= c0);
    out
}

impl<A: Clone + PartialEq> BindingStore<A> {
    /// A store whose default layer is `builtin_keymap`'s bindings and whose
    /// user layer is `user_keymap`'s.
    pub fn from_registries(builtin_keymap: &InputRegistry<A>, user_keymap: &InputRegistry<A>) -> (r: Self)
        requires
            builtin_keymap.wf(),
            user_keymap.wf(),
        ensures
            r.builtin_spec().len() == builtin_keymap.binding_list().len(),
            forall|i: int|
                0 <= i < r.builtin_spec().len() ==> #[trigger] records(
                    r.builtin_spec()[i],
                    builtin_keymap.binding_list()[i],
                    BindingSource::Builtin,
                ),
            r.user_spec().len() == user_keymap.binding_list().len(),
            forall|i: int|
                0 <= i < r.user_spec().len() ==> #[trigger] records(
                    r.user_spec()[i],
                    user_keymap.binding_list()[i],
                    BindingSource::Config,
                ),
            r.runtime_spec().len() == 0,
            r.inheritances_spec().len() == 0,
    {
        BindingStore {
            builtin_keymap: BindingCatalog::from_registry(builtin_keymap, BindingSource::Builtin),
            user_keymap: BindingCatalog::from_registry(user_keymap, BindingSource::Config),
            runtime_keymap: BindingCatalog::new(),
            keymap_inheritances: Vec::new(),
        }
    }

    /// The registry the layers combine into.
    pub fn effective_registry(&self) -> (r: InputRegistry<A>)
        ensures
            r.wf(),
            clones_equal::<A>() && A::obeys_eq_spec() ==> r@ == effective_spec(*self),
    {
        let mut registry = InputRegistry::empty();
        apply_catalog_to_registry(&mut registry, &self.builtin_keymap);
        remap_catalog_to_registry(&mut registry, &self.user_keymap);
        remap_catalog_to_registry(&mut registry, &self.runtime_keymap);
        apply_keymap_inheritances(
            &mut registry,
            &self.user_keymap,
            &self.runtime_keymap,
            self.keymap_inheritances.as_slice(),
        );
        registry
    }

    /// The registry of the default layer alone.
    pub fn builtin_registry(&self) -> (r: InputRegistry<A>)
        ensures
            r.wf(),
            clones_equal::<A>() ==> r@ == apply_spec(Map::empty(), self.builtin_spec()),
    {
        let mut registry = InputRegistry::empty();
        apply_catalog_to_registry(&mut registry, &self.builtin_keymap);
        registry
    }

    /// Where the layers disagree: user bindings that override defaults,
    /// runtime bindings that override either, and the conflicts among the
    /// effective bindings for `active_modes` in priority order.
    pub fn report(&self, active_modes: &[&str]) -> (r: KeybindingReport<A>)
        ensures
            clones_equal::<A>() && A::obeys_eq_spec() ==> report_spec(
                *self,
                strs_view(active_modes@),
                r.notices@,
            ),
    {
        let mut notices = user_override_notices(&self.builtin_keymap, &self.user_keymap);
        let mut runtime = runtime_override_notices(
            &self.builtin_keymap,
            &self.user_keymap,
            &self.runtime_keymap,
        );
        let ghost un = notices@;
        let ghost rn = runtime@;
        notices.append(&mut runtime);
        let effective = self.effective_registry();
        let catalog = BindingCatalog::from_registry(&effective, BindingSource::Unknown);
        let analysis = analyze_keymap_bindings(&catalog, active_modes);
        let ghost cs = analysis.conflicts@;
        let mut same_layer = same_layer_notices(analysis.conflicts);
        let ghost sn = same_layer@;
        notices.append(&mut same_layer);
        proof {
            if clones_equal::<A>() && A::obeys_eq_spec() {
                let st = *self;
                let cat = catalog.bindings@;
                let l = effective.binding_list();
                effective.lemma_binding_list();
                let r = effective_spec(st);
                assert forall|i: int| 0 <= i < cat.len() implies #[trigger] cat[i].layer
                    == BindingLayer::Keymap && cat[i].source == BindingSource::Unknown && r.contains_key(
                    cat[i].mode@,
                ) && r[cat[i].mode@].contains_key(cat[i].sequence@) && r[cat[i].mode@][cat[i].sequence@]
                    == cat[i].action by {
                    assert(records(cat[i], l[i], BindingSource::Unknown));
                    assert(cloned(l[i].2, cat[i].action));
                    assert(effective@.contains_key(l[i].0));
                }
                assert forall|m: Seq<char>, c: Seq<KeyChord>| r.contains_key(m) && #[trigger] r[m].contains_key(
                    c,
                ) implies exists|i: int| 0 <= i < cat.len() && cat[i].mode@ == m && cat[i].sequence@ == c by {
                    assert(effective@[m].contains_key(c));
                    let i = choose|i: int| 0 <= i < l.len() && #[trigger] l[i] == (m, c, effective@[m][c]);
                    assert(records(cat[i], l[i], BindingSource::Unknown));
                }
                assert forall|i: int, j: int| 0 <= i < j < cat.len() implies (cat[i].mode@,
                    cat[i].sequence@) != (cat[j].mode@, cat[j].sequence@) by {
                    assert(records(cat[i], l[i], BindingSource::Unknown));
                    assert(records(cat[j], l[j], BindingSource::Unknown));
                }
                assert(lists(cat, r));
                let an = analysis_spec(cat, strs_view(active_modes@));
                let am = an.map_values(|c: ConflictModel<A>| NoticeModel::SameLayer(c));
                assert forall|i: int| 0 <= i < sn.len() implies #[trigger] notice_matches(sn[i], am[i]) by {
                    assert(conflict_matches(cs[i], an[i]));
                }
                let um = user_notices(st.builtin_spec(), st.user_spec());
                let rm = runtime_notices(
                    st.builtin_spec(),
                    st.user_spec(),
                    st.runtime_spec(),
                );
                assert forall|i: int| 0 <= i < notices@.len() implies #[trigger] notice_matches(
                    notices@[i],
                    (um + rm + am)[i],
                ) by {
                    if i < un.len() {
                        assert(notices@[i] == un[i]);
                    } else if i < un.len() + rn.len() {
                        assert(notices@[i] == rn[i - un.len()]);
                    } else {
                        assert(notices@[i] == sn[i - un.len() - rn.len()]);
                    }
                }
                assert(notices_match(notices@, um + rm + am));
            }
        }
        KeybindingReport { notices }
    }
}


/// The modes a loaded configuration is reported for, in priority order.
pub open spec fn report_modes() -> Seq<Seq<char>> {
    seq!["global"@, "general"@, "nor"@, "ins"@, "sel"@]
}

/// What loading a configuration over the built-in registry gives: a store
/// whose default layer lists the built-in bindings, whose user layer is the
/// configuration's keymap resolved through `actions`, with the given
/// inheritances; its effective registry; and its report for
/// [`report_modes`], followed by the configuration's malformed entries and
/// the unknown action names, as invalid-entry notices.
pub open spec fn config_load_spec<A: Clone + PartialEq>(
    builtin: InputRegistry<A>,
    config: KeybindingConfig,
    actions: ActionRegistry<A>,
    inhs: Seq<KeybindingInheritance<A>>,
    r: Result<(BindingStore<A>, InputRegistry<A>, KeybindingReport<A>), KeybindingConfigError>,
) -> bool {
    let resolved = keymap_resolved(actions.entries_spec(), raw_section_models(config.keymap.sections@));
    let invalid = (issue_models(config.keymap_issues@) + resolved.1).map_values(
        |i: IssueModel| NoticeModel::<A>::Invalid(i),
    );
    let hyp = clones_equal::<A>() && A::obeys_eq_spec();
    r matches Ok(t) && {
        let st = t.0;
        let ns = t.2.notices@;
        let k = ns.len() - invalid.len();
        &&& st.builtin_spec().len() == builtin.binding_list().len()
        &&& forall|i: int|
            0 <= i < st.builtin_spec().len() ==> #[trigger] records(
                st.builtin_spec()[i],
                builtin.binding_list()[i],
                BindingSource::Builtin,
            )
        &&& st.user_spec().len() == resolved.0.len()
        &&& clones_equal::<A>() ==> forall|i: int|
            0 <= i < st.user_spec().len() ==> #[trigger] records(
                st.user_spec()[i],
                resolved.0[i],
                BindingSource::Config,
            )
        &&& st.runtime_spec().len() == 0
        &&& st.inheritances_spec() == inhs
        &&& t.1.wf()
        &&& hyp ==> t.1@ == effective_spec(st)
        &&& k >= 0
        &&& notices_match(ns.skip(k), invalid)
        &&& hyp ==> report_spec(st, report_modes(), ns.take(k))
    }
}

/// `n` reports issue `i` as an invalid entry.
pub open spec fn reports_issue<A>(n: BindingNotice<A>, i: NavigationPresetIssue) -> bool {
    n matches BindingNotice::InvalidEntry(x) && issue_model(x) == issue_model(i)
}

fn push_invalid<A>(notices: &mut Vec<BindingNotice<A>>, issues: &Vec<NavigationPresetIssue>)
    ensures
        final(notices)@.len() == old(notices)@.len() + issues@.len(),
        final(notices)@.take(old(notices)@.len() as int) == old(notices)@,
        forall|i: int|
            0 <= i < issues@.len() ==> reports_issue(
                #[trigger] final(notices)@[old(notices)@.len() + i],
                issues@[i],
            ),
{
    let ghost start = notices@;
    let mut i: usize = 0;
    while i < issues.len()
        invariant
            i <= issues@.len(),
            notices@.len() == start.len() + i,
            notices@.take(start.len() as int) == start,
            forall|j: int|
                0 <= j < i ==> reports_issue(#[trigger] notices@[start.len() + j], issues@[j]),
        decreases issues@.len() - i,
    {
        let ghost before = notices@;
        notices.push(BindingNotice::InvalidEntry(copy_issue(&issues[i])));
        assert(notices@.take(start.len() as int) =~= before.take(start.len() as int));
        assert forall|j: int| 0 <= j < i + 1 implies reports_issue(
            #[trigger] notices@[start.len() + j],
            issues@[j],
        ) by {
            if j < i {
                assert(notices@[start.len() + j] == before[start.len() + j]);
            }
        }
        i = i + 1;
    }
}

impl<A: Clone + PartialEq> BindingStore<A> {
    /// Load `config` over the built-in registry, resolving its action names
    /// through `actions`; unknown names become invalid-entry notices rather
    /// than failing the load.
    pub fn with_user_config(
        builtin_keymap: &InputRegistry<A>,
        config: &KeybindingConfig,
        actions: &ActionRegistry<A>,
    ) -> (r: Result<(Self, InputRegistry<A>, KeybindingReport<A>), KeybindingConfigError>)
        requires
            builtin_keymap.wf(),
        ensures
            config_load_spec(*builtin_keymap, *config, *actions, Seq::empty(), r),
    {
        Self::with_user_config_and_inheritances(builtin_keymap, config, actions, Vec::new())
    }

    /// [`with_user_config`](Self::with_user_config), with inheritances
    /// between modes.
    pub fn with_user_config_and_inheritances(
        builtin_keymap: &InputRegistry<A>,
        config: &KeybindingConfig,
        actions: &ActionRegistry<A>,
        keymap_inheritances: Vec<KeybindingInheritance<A>>,
    ) -> (r: Result<(Self, InputRegistry<A>, KeybindingReport<A>), KeybindingConfigError>)
        requires
            builtin_keymap.wf(),
        ensures
            config_load_spec(*builtin_keymap, *config, *actions, keymap_inheritances@, r),
    {
        let (user_keymap, unknown) = resolve_raw_keymap(&config.keymap, actions, BindingSource::Config);
        let store = BindingStore {
            builtin_keymap: BindingCatalog::from_registry(builtin_keymap, BindingSource::Builtin),
            user_keymap,
            runtime_keymap: BindingCatalog::new(),
            keymap_inheritances,
        };
        let modes: Vec<&str> = vec!["global", "general", "nor", "ins", "sel"];
        assert(strs_view(modes@) =~= report_modes());
        let mut report = store.report(modes.as_slice());
        let ghost k = report.notices@.len();
        let ghost reported = report.notices@;
        push_invalid(&mut report.notices, &config.keymap_issues);
        let ghost mid = report.notices@;
        push_invalid(&mut report.notices, &unknown);
        let registry = store.effective_registry();
        proof {
            let ns = report.notices@;
            let resolved = keymap_resolved(
                actions.entries_spec(),
                raw_section_models(config.keymap.sections@),
            );
            let invalid = (issue_models(config.keymap_issues@) + resolved.1).map_values(
                |i: IssueModel| NoticeModel::<A>::Invalid(i),
            );
            let ci = config.keymap_issues@.len();
            assert(ns.take(k as int) =~= reported) by {
                assert(ns.take(mid.len() as int) == mid);
                assert(mid.take(k as int) == reported);
            }
            assert forall|i: int| 0 <= i < ns.skip(k as int).len() implies #[trigger] notice_matches(
                ns.skip(k as int)[i],
                invalid[i],
            ) by {
                if i < ci {
                    assert(ns[k + i] == mid[k + i]);
                    assert(reports_issue(mid[k + i], config.keymap_issues@[i]));
                } else {
                    let j = i - ci;
                    assert(reports_issue(ns[mid.len() + j], unknown@[j]));
                    assert(issue_models(unknown@)[j] == resolved.1[j]);
                }
            }
        }
        Ok((store, registry, report))
    }
}


/// The `(mode, action name)` pairs of the bindings whose action has a name.
pub open spec fn owned_pairs<A: PartialEq>(entries: Seq<BindableActionInfo<A>>, rs: Seq<BindingInfo<A>>) -> Seq<
    (Seq<char>, Seq<char>),
> {
    rs.filter(|b: BindingInfo<A>| name_for(entries, b.action) is Some).map_values(
        |b: BindingInfo<A>| (b.mode@, name_for(entries, b.action)->Some_0),
    )
}

pub open spec fn owned_view(owned: Seq<(String, &'static str)>) -> Seq<(Seq<char>, Seq<char>)> {
    owned.map_values(|p: (String, &'static str)| (p.0@, p.1@))
}

proof fn lemma_owned_pairs<A: PartialEq>(
    entries: Seq<BindableActionInfo<A>>,
    rs: Seq<BindingInfo<A>>,
    mode: Seq<char>,
    name: Seq<char>,
)
    ensures
        owned_pairs(entries, rs).contains((mode, name)) <==> runtime_owns(entries, rs, mode, name),
    decreases rs.len(),
{
    let named = |b: BindingInfo<A>| name_for(entries, b.action) is Some;
    let pair = |b: BindingInfo<A>| (b.mode@, name_for(entries, b.action)->Some_0);
    if rs.len() == 0 {
        assert(rs.filter(named) =~= Seq::<BindingInfo<A>>::empty()) by {
            reveal(Seq::filter);
        }
    } else {
        let init = rs.drop_last();
        let last = rs.last();
        lemma_owned_pairs(entries, init, mode, name);
        assert(rs.filter(named) == if named(last) {
            init.filter(named).push(last)
        } else {
            init.filter(named)
        }) by {
            reveal(Seq::filter);
        }
        let op = owned_pairs(entries, rs);
        let oi = owned_pairs(entries, init);
        if named(last) {
            lemma_map_push(init.filter(named), last, pair);
            assert(op == oi.push(pair(last)));
        }
        if runtime_owns(entries, rs, mode, name) {
            let q = choose|q: int|
                0 <= q < rs.len() && rs[q].mode@ == mode && #[trigger] name_for(entries, rs[q].action)
                    == Some(name);
            if q < rs.len() - 1 {
                assert(init[q] == rs[q]);
                assert(runtime_owns(entries, init, mode, name));
                assert(oi.contains((mode, name)));
                let k = choose|k: int| 0 <= k < oi.len() && oi[k] == (mode, name);
                if named(last) {
                    assert(op[k] == oi[k]);
                }
            } else {
                assert(op[op.len() - 1] == (mode, name));
            }
        }
        if op.contains((mode, name)) {
            let k = choose|k: int| 0 <= k < op.len() && op[k] == (mode, name);
            if named(last) && k == op.len() - 1 {
                assert(rs[rs.len() - 1] == last);
                assert(name_for(entries, rs[rs.len() - 1].action) == Some(name));
            } else {
                assert(oi[k] == op[k]);
                assert(runtime_owns(entries, init, mode, name));
                let q = choose|q: int|
                    0 <= q < init.len() && init[q].mode@ == mode && #[trigger] name_for(
                        entries,
                        init[q].action,
                    ) == Some(name);
                assert(rs[q] == init[q]);
            }
        }
    }
}

/// Whether `owned` holds the pair `(mode, name)`.
fn owns(owned: &Vec<(String, &'static str)>, mode: &str, name: &str) -> (r: bool)
    ensures
        r == owned_view(owned@).contains((mode@, name@)),
{
    let mut k: usize = 0;
    while k < owned.len()
        invariant
            k <= owned@.len(),
            forall|j: int| 0 <= j < k ==> owned_view(owned@)[j] != (mode@, name@),
        decreases owned@.len() - k,
    {
        if str_eq(owned[k].0.as_str(), mode) && str_eq(owned[k].1, name) {
            assert(owned_view(owned@)[k as int] == (mode@, name@));
            return true;
        }
        k = k + 1;
    }
    false
}

fn export_runtime_layer<A: Clone + PartialEq>(
    rs: &Vec<BindingInfo<A>>,
    actions: &ActionRegistry<A>,
    groups: &mut Vec<(String, Vec<(String, Vec<String>)>)>,
    owned: &mut Vec<(String, &'static str)>,
)
    requires
        old(groups)@.len() == 0,
        old(owned)@.len() == 0,
    ensures
        A::obeys_eq_spec() ==> group_view(final(groups)@) == grouped(
            rs@.filter(|b: BindingInfo<A>| name_for(actions.entries_spec(), b.action) is Some).map_values(
                |b: BindingInfo<A>| export_entry(actions.entries_spec(), b),
            ),
        ),
        A::obeys_eq_spec() ==> owned_view(final(owned)@) == owned_pairs(actions.entries_spec(), rs@),
{
    let ghost entries = actions.entries_spec();
    let ghost named = |b: BindingInfo<A>| name_for(entries, b.action) is Some;
    let ghost entry = |b: BindingInfo<A>| export_entry(entries, b);
    let ghost pair = |b: BindingInfo<A>| (b.mode@, name_for(entries, b.action)->Some_0);
    assert(rs@.take(0).filter(named) =~= Seq::<BindingInfo<A>>::empty()) by {
        reveal(Seq::filter);
    }
    assert(group_view(groups@) =~= Seq::empty());
    assert(owned_view(owned@) =~= Seq::empty());
    let mut i: usize = 0;
    while i < rs.len()
        invariant
            i <= rs@.len(),
            entries == actions.entries_spec(),
            named == (|b: BindingInfo<A>| name_for(entries, b.action) is Some),
            entry == (|b: BindingInfo<A>| export_entry(entries, b)),
            pair == (|b: BindingInfo<A>| (b.mode@, name_for(entries, b.action)->Some_0)),
            A::obeys_eq_spec() ==> group_view(groups@) == grouped(
                rs@.take(i as int).filter(named).map_values(entry),
            ),
            A::obeys_eq_spec() ==> owned_view(owned@) == rs@.take(i as int).filter(named).map_values(
                pair,
            ),
        decreases rs@.len() - i,
    {
        let b = &rs[i];
        proof {
            lemma_filter_step(rs@, named, i as int);
        }
        let ghost before = rs@.take(i as int).filter(named);
        let ghost ov = owned_view(owned@);
        match actions.name_of(&b.action) {
            Some(name) => {
                owned.push((b.mode.clone(), name));
                add_exported(groups, b.mode.clone(), name.to_string(), keys_string(b.sequence.as_slice()));
                proof {
                    if A::obeys_eq_spec() {
                        assert(named(rs@[i as int]));
                        assert(entry(rs@[i as int]) == (b.mode@, name@, keys_text(b.sequence@)));
                        lemma_map_push(before, rs@[i as int], entry);
                        lemma_map_push(before, rs@[i as int], pair);
                        lemma_grouped_push(before.map_values(entry), entry(rs@[i as int]));
                        assert(owned_view(owned@) =~= ov.push((b.mode@, name@)));
                    }
                }
            },
            None => {
                proof {
                    if A::obeys_eq_spec() {
                        assert(!named(rs@[i as int]));
                    }
                }
            },
        }
        i = i + 1;
    }
    assert(rs@.take(rs@.len() as int) =~= rs@);
}

fn export_user_layer<A: Clone + PartialEq>(
    us: &Vec<BindingInfo<A>>,
    actions: &ActionRegistry<A>,
    groups: &mut Vec<(String, Vec<(String, Vec<String>)>)>,
    owned: &Vec<(String, &'static str)>,
    rs: Ghost<Seq<BindingInfo<A>>>,
    done: Ghost<Seq<(Seq<char>, Seq<char>, Seq<char>)>>,
)
    requires
        A::obeys_eq_spec() ==> owned_view(owned@) == owned_pairs(actions.entries_spec(), rs@),
        A::obeys_eq_spec() ==> group_view(old(groups)@) == grouped(done@),
    ensures
        A::obeys_eq_spec() ==> group_view(final(groups)@) == grouped(
            done@ + us@.filter(
                |b: BindingInfo<A>|
                    name_for(actions.entries_spec(), b.action) is Some && !runtime_owns(
                        actions.entries_spec(),
                        rs@,
                        b.mode@,
                        name_for(actions.entries_spec(), b.action)->Some_0,
                    ),
            ).map_values(|b: BindingInfo<A>| export_entry(actions.entries_spec(), b)),
        ),
{
    let ghost entries = actions.entries_spec();
    let ghost entry = |b: BindingInfo<A>| export_entry(entries, b);
    let ghost kept = |b: BindingInfo<A>|
        name_for(entries, b.action) is Some && !runtime_owns(
            entries,
            rs@,
            b.mode@,
            name_for(entries, b.action)->Some_0,
        );
    assert(us@.take(0).filter(kept) =~= Seq::<BindingInfo<A>>::empty()) by {
        reveal(Seq::filter);
    }
    assert(done@ + us@.take(0).filter(kept).map_values(entry) =~= done@);
    let mut j: usize = 0;
    while j < us.len()
        invariant
            j <= us@.len(),
            entries == actions.entries_spec(),
            entry == (|b: BindingInfo<A>| export_entry(entries, b)),
            kept == (|b: BindingInfo<A>|
                name_for(entries, b.action) is Some && !runtime_owns(
                    entries,
                    rs@,
                    b.mode@,
                    name_for(entries, b.action)->Some_0,
                )),
            A::obeys_eq_spec() ==> owned_view(owned@) == owned_pairs(entries, rs@),
            A::obeys_eq_spec() ==> group_view(groups@) == grouped(
                done@ + us@.take(j as int).filter(kept).map_values(entry),
            ),
        decreases us@.len() - j,
    {
        let b = &us[j];
        proof {
            lemma_filter_step(us@, kept, j as int);
        }
        let ghost before = us@.take(j as int).filter(kept);
        match actions.name_of(&b.action) {
            Some(name) => {
                proof {
                    lemma_owned_pairs(entries, rs@, b.mode@, name@);
                }
                if owns(owned, b.mode.as_str(), name) {
                    proof {
                        if A::obeys_eq_spec() {
                            assert(!kept(us@[j as int]));
                        }
                    }
                } else {
                    add_exported(groups, b.mode.clone(), name.to_string(), keys_string(b.sequence.as_slice()));
                    proof {
                        if A::obeys_eq_spec() {
                            assert(kept(us@[j as int]));
                            assert(entry(us@[j as int]) == (b.mode@, name@, keys_text(b.sequence@)));
                            lemma_map_push(before, us@[j as int], entry);
                            assert(done@ + before.push(us@[j as int]).map_values(entry) =~= (done@
                                + before.map_values(entry)).push(entry(us@[j as int])));
                            lemma_grouped_push(done@ + before.map_values(entry), entry(us@[j as int]));
                        }
                    }
                }
            },
            None => {
                proof {
                    if A::obeys_eq_spec() {
                        assert(!kept(us@[j as int]));
                    }
                }
            },
        }
        j = j + 1;
    }
    assert(us@.take(us@.len() as int) =~= us@);
}

/// Write the user and runtime layers as a keymap document that
/// [`KeybindingConfig::from_toml`] reads back: a table per mode holding, for
/// each action name, the array of its keys. A runtime binding replaces the
/// user bindings of its action name in its mode; actions without a name in
/// `actions`, and the built-in defaults, are not written.
pub fn export_to_toml<A: Clone + PartialEq>(store: &BindingStore<A>, actions: &ActionRegistry<A>) -> (r:
    Result<String, KeybindingConfigError>)
    ensures
        A::obeys_eq_spec() ==> (r matches Ok(text) ==> text@ == toml_rendering(
            export_doc(
                grouped(exported_entries(actions.entries_spec(), store.user_spec(), store.runtime_spec())),
            ),
        )),
        r is Ok,
{
    let ghost entries = actions.entries_spec();
    let ghost rs = store.runtime_keymap.bindings@;
    let mut groups: Vec<(String, Vec<(String, Vec<String>)>)> = Vec::new();
    let mut owned: Vec<(String, &'static str)> = Vec::new();
    export_runtime_layer(&store.runtime_keymap.bindings, actions, &mut groups, &mut owned);
    let ghost done = rs.filter(|b: BindingInfo<A>| name_for(entries, b.action) is Some).map_values(
        |b: BindingInfo<A>| export_entry(entries, b),
    );
    export_user_layer(
        &store.user_keymap.bindings,
        actions,
        &mut groups,
        &owned,
        Ghost(rs),
        Ghost(done),
    );
    let doc = document_of(&groups);
    proof {
        lemma_export_doc_shape(group_view(groups@));
    }
    match render_toml_document(&doc) {
        Ok(text) => Ok(text),
        Err(e) => Err(KeybindingConfigError::Serialize(e)),
    }
}

} // verus!
