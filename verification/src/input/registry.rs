//! Keymaps: chord sequences bound to actions, grouped by mode.

use vstd::prelude::*;
use vstd::std_specs::cmp::PartialEqSpec;
use crate::assoc::{
    assoc, distinct_keys, lemma_assoc_lookup, lemma_assoc_push, lemma_assoc_remove,
    lemma_assoc_update,
};
use crate::input::{InputHint, KeyChord};
use crate::text::{str_eq, strs_view};

verus! {

/// The bindings with their sequences taken as plain values.
pub open spec fn entry_views<A>(s: Seq<(Vec<KeyChord>, A)>) -> Seq<(Seq<KeyChord>, A)> {
    s.map_values(|e: (Vec<KeyChord>, A)| (e.0@, e.1))
}

/// `k` strictly extends `p`.
pub open spec fn extends(k: Seq<KeyChord>, p: Seq<KeyChord>) -> bool {
    k.len() > p.len() && k.take(p.len() as int) == p
}

/// One mode's bindings, named by an id.
///
/// The bindings are kept in a list with no key sequence twice rather than in
/// a `HashMap`: vstd specifies `HashMap` only for keys whose hashing it
/// models, which chord sequences are not, so lookups in one could not be
/// proved.
#[derive(Debug)]
pub struct KeyMap<A> {
    pub id: String,
    bindings: Vec<(Vec<KeyChord>, A)>,
}

impl<A> View for KeyMap<A> {
    type V = Map<Seq<KeyChord>, A>;

    closed spec fn view(&self) -> Map<Seq<KeyChord>, A> {
        assoc(entry_views(self.bindings@))
    }
}

pub(crate) fn chords_equal(a: &[KeyChord], b: &[KeyChord]) -> (r: bool)
    ensures
        r == (a@ == b@),
{
    if a.len() != b.len() {
        return false;
    }
    let mut i: usize = 0;
    while i < a.len()
        invariant
            i <= a@.len() == b@.len(),
            forall|j: int| 0 <= j < i ==> a@[j] == b@[j],
        decreases a@.len() - i,
    {
        if a[i] != b[i] {
            return false;
        }
        i = i + 1;
    }
    assert(a@ =~= b@);
    true
}

fn chords_extend(k: &[KeyChord], p: &[KeyChord]) -> (r: bool)
    ensures
        r == extends(k@, p@),
{
    if k.len() <= p.len() {
        return false;
    }
    let mut i: usize = 0;
    while i < p.len()
        invariant
            i <= p@.len() < k@.len(),
            forall|j: int| 0 <= j < i ==> k@[j] == p@[j],
        decreases p@.len() - i,
    {
        if k[i] != p[i] {
            assert(k@.take(p@.len() as int)[i as int] != p@[i as int]);
            return false;
        }
        i = i + 1;
    }
    assert(k@.take(p@.len() as int) =~= p@);
    true
}

/// A binding looked up right after it is made gives its action, and
/// unbinding a key that was free before restores the map.
pub proof fn lemma_bind_lookup_unbind<A>(m: Map<Seq<KeyChord>, A>, k: Seq<KeyChord>, a: A)
    ensures
        m.insert(k, a).contains_key(k),
        m.insert(k, a)[k] == a,
        !m.contains_key(k) ==> m.insert(k, a).remove(k) == m,
{
    if !m.contains_key(k) {
        assert(m.insert(k, a).remove(k) =~= m);
    }
}

impl<A> KeyMap<A> {
    /// The map's id.
    pub closed spec fn id_view(&self) -> Seq<char> {
        self.id@
    }

    /// No sequence is bound twice.
    pub closed spec fn wf(&self) -> bool {
        distinct_keys(entry_views(self.bindings@))
    }

    /// An empty map named `id`.
    pub fn new(id: &str) -> (r: Self)
        ensures
            r.wf(),
            r.id_view() == id@,
            r@ == Map::<Seq<KeyChord>, A>::empty(),
    {
        let r = KeyMap { id: id.to_string(), bindings: Vec::new() };
        assert(entry_views(r.bindings@) =~= Seq::<(Seq<KeyChord>, A)>::empty());
        r
    }

    fn find(&self, sequence: &[KeyChord]) -> (r: Option<usize>)
        requires
            self.wf(),
        ensures
            match r {
                Some(i) => i < self.bindings@.len() && self.bindings@[i as int].0@ == sequence@,
                None => !self@.contains_key(sequence@),
            },
    {
        proof {
            lemma_assoc_lookup(entry_views(self.bindings@));
        }
        let mut i: usize = 0;
        while i < self.bindings.len()
            invariant
                i <= self.bindings@.len(),
                forall|j: int| 0 <= j < i ==> self.bindings@[j].0@ != sequence@,
            decreases self.bindings@.len() - i,
        {
            if chords_equal(self.bindings[i].0.as_slice(), sequence) {
                return Some(i);
            }
            i = i + 1;
        }
        proof {
            if self@.contains_key(sequence@) {
                let j = choose|j: int|
                    0 <= j < entry_views(self.bindings@).len() && entry_views(self.bindings@)[j].0
                        == sequence@;
                assert(self.bindings@[j].0@ == sequence@);
            }
        }
        None
    }

    /// Bind `sequence` to `action`, replacing what it was bound to.
    pub fn bind(&mut self, sequence: Vec<KeyChord>, action: A)
        requires
            old(self).wf(),
        ensures
            final(self).wf(),
            final(self).id_view() == old(self).id_view(),
            final(self)@ == old(self)@.insert(sequence@, action),
    {
        let ghost ev = entry_views(self.bindings@);
        match self.find(sequence.as_slice()) {
            Some(i) => {
                proof {
                    lemma_assoc_update(ev, i as int, (sequence@, action));
                }
                self.bindings.set(i, (sequence, action));
                assert(entry_views(self.bindings@) =~= ev.update(i as int, (sequence@, action)));
            },
            None => {
                proof {
                    lemma_assoc_push(ev, (sequence@, action));
                }
                self.bindings.push((sequence, action));
                assert(entry_views(self.bindings@) =~= ev.push((sequence@, action)));
            },
        }
    }

    /// Remove the binding of exactly `sequence`, returning its action.
    pub fn unbind(&mut self, sequence: &[KeyChord]) -> (r: Option<A>)
        requires
            old(self).wf(),
        ensures
            final(self).wf(),
            final(self).id_view() == old(self).id_view(),
            final(self)@ == old(self)@.remove(sequence@),
            r == (if old(self)@.contains_key(sequence@) {
                Some(old(self)@[sequence@])
            } else {
                None
            }),
    {
        let ghost ev = entry_views(self.bindings@);
        match self.find(sequence) {
            Some(i) => {
                proof {
                    lemma_assoc_remove(ev, i as int);
                    lemma_assoc_lookup(ev);
                    assert(ev[i as int].0 == sequence@);
                }
                let (_, action) = self.bindings.remove(i);
                assert(entry_views(self.bindings@) =~= ev.remove(i as int));
                Some(action)
            },
            None => {
                assert(old(self)@.remove(sequence@) =~= old(self)@);
                None
            },
        }
    }

    /// The action bound to exactly `sequence`.
    pub fn get(&self, sequence: &[KeyChord]) -> (r: Option<&A>)
        requires
            self.wf(),
        ensures
            match r {
                Some(a) => self@.contains_key(sequence@) && *a == self@[sequence@],
                None => !self@.contains_key(sequence@),
            },
    {
        match self.find(sequence) {
            Some(i) => {
                proof {
                    lemma_assoc_lookup(entry_views(self.bindings@));
                    assert(entry_views(self.bindings@)[i as int].0 == sequence@);
                }
                Some(&self.bindings[i].1)
            },
            None => None,
        }
    }

    /// The number of bound sequences.
    pub fn len(&self) -> (r: usize)
        requires
            self.wf(),
        ensures
            r == self@.dom().len(),
    {
        proof {
            lemma_assoc_lookup(entry_views(self.bindings@));
        }
        self.bindings.len()
    }
}

/// Some mode of `reg` binds `k` to an action equal to `action`.
pub open spec fn bound_in_some_mode<A: PartialEq>(
    reg: Map<Seq<char>, Map<Seq<KeyChord>, A>>,
    action: A,
    k: Seq<KeyChord>,
) -> bool {
    exists|m: Seq<char>| #[trigger] reg.contains_key(m) && reg[m].contains_key(k) && reg[m][k].eq_spec(&action)
}

impl<A: PartialEq> KeyMap<A> {
    /// Every sequence bound to `action`, each once.
    pub fn bindings_for(&self, action: &A) -> (r: Vec<&[KeyChord]>)
        requires
            self.wf(),
        ensures
            forall|i: int| 0 <= i < r@.len() ==> #[trigger] self@.contains_key(r@[i]@),
            A::obeys_eq_spec() ==> forall|i: int|
                0 <= i < r@.len() ==> #[trigger] self@[r@[i]@].eq_spec(action),
            A::obeys_eq_spec() ==> forall|k: Seq<KeyChord>|
                #[trigger] self@.contains_key(k) && self@[k].eq_spec(action) ==> exists|i: int|
                    0 <= i < r@.len() && r@[i]@ == k,
            forall|i: int, j: int| 0 <= i < j < r@.len() ==> r@[i]@ != r@[j]@,
    {
        let ghost ev = entry_views(self.bindings@);
        proof {
            lemma_assoc_lookup(ev);
        }
        let mut out: Vec<&[KeyChord]> = Vec::new();
        let ghost picked: Seq<int> = Seq::empty();
        let mut i: usize = 0;
        while i < self.bindings.len()
            invariant
                i <= self.bindings@.len(),
                ev == entry_views(self.bindings@),
                distinct_keys(ev),
                picked.len() == out@.len(),
                forall|a: int|
                    0 <= a < picked.len() ==> 0 <= #[trigger] picked[a] < i && out@[a]@
                        == ev[picked[a]].0 && (A::obeys_eq_spec() ==> ev[picked[a]].1.eq_spec(
                        action,
                    )),
                forall|a: int, b: int| 0 <= a < b < picked.len() ==> picked[a] < picked[b],
                A::obeys_eq_spec() ==> forall|j: int|
                    0 <= j < i && #[trigger] ev[j].1.eq_spec(action) ==> exists|a: int|
                        0 <= a < picked.len() && picked[a] == j,
            decreases self.bindings@.len() - i,
        {
            let ghost before = picked;
            assert(ev[i as int] == (self.bindings@[i as int].0@, self.bindings@[i as int].1));
            if self.bindings[i].1 == *action {
                out.push(self.bindings[i].0.as_slice());
                proof {
                    picked = picked.push(i as int);
                }
            }
            proof {
                if A::obeys_eq_spec() {
                    assert forall|j: int|
                        0 <= j < i + 1 && #[trigger] ev[j].1.eq_spec(action) implies exists|a: int|
                        0 <= a < picked.len() && picked[a] == j by {
                        if j < i {
                            let a = choose|a: int| 0 <= a < before.len() && before[a] == j;
                            assert(picked[a] == j);
                        } else {
                            assert(picked[picked.len() - 1] == j);
                        }
                    }
                }
            }
            i = i + 1;
        }
        assert forall|a: int| 0 <= a < out@.len() implies #[trigger] self@.contains_key(out@[a]@)
            by {
            let j = picked[a];
            assert(self@.contains_key(ev[j].0));
        }
        proof {
            if A::obeys_eq_spec() {
                assert forall|a: int| 0 <= a < out@.len() implies #[trigger] self@[out@[a]@].eq_spec(
                    action,
                ) by {
                    let j = picked[a];
                    assert(self@.contains_key(ev[j].0));
                    assert(self@[ev[j].0] == ev[j].1);
                }
            }
        }
        assert forall|a: int, b: int| 0 <= a < b < out@.len() implies out@[a]@ != out@[b]@ by {
            assert(ev[picked[a]].0 != ev[picked[b]].0);
        }
        proof {
            if A::obeys_eq_spec() {
                assert forall|k: Seq<KeyChord>|
                    #[trigger] self@.contains_key(k) && self@[k].eq_spec(action) implies exists|
                    a: int,
                | 0 <= a < out@.len() && out@[a]@ == k by {
                    let j = choose|j: int| 0 <= j < ev.len() && ev[j].0 == k;
                    assert(ev[j].1.eq_spec(action));
                    let a = choose|a: int| 0 <= a < picked.len() && picked[a] == j;
                    assert(out@[a]@ == k);
                }
            }
        }
        out
    }

    /// Remove every binding of `action`, returning how many were removed.
    #[verifier::spinoff_prover]
    pub fn unbind_action(&mut self, action: &A) -> (r: usize)
        requires
            old(self).wf(),
        ensures
            final(self).wf(),
            final(self).id_view() == old(self).id_view(),
            final(self)@.submap_of(old(self)@),
            r == old(self)@.dom().len() - final(self)@.dom().len(),
            A::obeys_eq_spec() ==> forall|k: Seq<KeyChord>|
                #[trigger] old(self)@.contains_key(k) ==> (final(self)@.contains_key(k)
                    <==> !old(self)@[k].eq_spec(action)),
    {
        let ghost old_map = self@;
        let ghost old_len = self.bindings@.len();
        proof {
            lemma_assoc_lookup(entry_views(self.bindings@));
        }
        assert(old_len == self.bindings.len());
        let mut removed: usize = 0;
        let mut i: usize = 0;
        while i < self.bindings.len()
            invariant
                i <= self.bindings@.len(),
                self.wf(),
                self.id_view() == old(self).id_view(),
                old_map == old(self)@,
                old_len == old_map.dom().len(),
                old_len <= usize::MAX,
                old_map.dom().finite(),
                self@.submap_of(old_map),
                removed + self.bindings@.len() == old_len,
                self@.dom().len() == self.bindings@.len(),
                A::obeys_eq_spec() ==> forall|j: int|
                    0 <= j < i ==> !(#[trigger] self.bindings@[j]).1.eq_spec(action),
                A::obeys_eq_spec() ==> forall|k: Seq<KeyChord>|
                    #[trigger] old_map.contains_key(k) && !self@.contains_key(k)
                        ==> old_map[k].eq_spec(action),
                A::obeys_eq_spec() ==> forall|k: Seq<KeyChord>|
                    #[trigger] old_map.contains_key(k) && !old_map[k].eq_spec(action)
                        ==> self@.contains_key(k),
            decreases self.bindings@.len() - i,
        {
            let ghost ev = entry_views(self.bindings@);
            let ghost pre = self.bindings@;
            proof {
                lemma_assoc_lookup(ev);
                assert(ev[i as int] == (self.bindings@[i as int].0@, self.bindings@[i as int].1));
            }
            if self.bindings[i].1 == *action {
                proof {
                    lemma_assoc_remove(ev, i as int);
                }
                let _ = self.bindings.remove(i);
                assert(entry_views(self.bindings@) =~= ev.remove(i as int));
                removed = removed + 1;
                proof {
                    let before = assoc(ev);
                    assert(self@ == before.remove(ev[i as int].0));
                    assert forall|k: Seq<KeyChord>| #[trigger] self@.contains_key(k) implies old_map.contains_key(k)
                        && self@[k] == old_map[k] by {
                        assert(before.contains_key(k) && before[k] == self@[k]);
                    }
                    assert(self@.submap_of(old_map));
                    lemma_assoc_lookup(entry_views(self.bindings@));
                    assert forall|j: int| 0 <= j < i implies #[trigger] self.bindings@[j]
                        == pre[j] by {}
                }
            } else {
                i = i + 1;
            }
        }
        proof {
            let ev = entry_views(self.bindings@);
            lemma_assoc_lookup(ev);
            if A::obeys_eq_spec() {
                assert forall|k: Seq<KeyChord>| #[trigger] old_map.contains_key(k) implies (
                self@.contains_key(k) <==> !old_map[k].eq_spec(action)) by {
                    if self@.contains_key(k) {
                        let j = choose|j: int| 0 <= j < ev.len() && ev[j].0 == k;
                        assert(ev[j] == (self.bindings@[j].0@, self.bindings@[j].1));
                        assert(!self.bindings@[j].1.eq_spec(action));
                    }
                }
            }
        }
        removed
    }
}

/// The keymaps as plain values: each mode id with its bindings.
pub open spec fn registry_entries<A>(ids: Seq<String>, maps: Seq<KeyMap<A>>) -> Seq<
    (Seq<char>, Map<Seq<KeyChord>, A>),
> {
    Seq::new(ids.len(), |i: int| (ids[i]@, maps[i]@))
}

/// The action bound to `s` in the first of `modes` whose map binds it.
pub open spec fn first_bound<A>(
    reg: Map<Seq<char>, Map<Seq<KeyChord>, A>>,
    modes: Seq<Seq<char>>,
    s: Seq<KeyChord>,
) -> Option<A>
    decreases modes.len(),
{
    if modes.len() == 0 {
        None
    } else if reg.contains_key(modes[0]) && reg[modes[0]].contains_key(s) {
        Some(reg[modes[0]][s])
    } else {
        first_bound(reg, modes.drop_first(), s)
    }
}

/// Some binding of `m` extends `p` with `key` as its next chord.
pub open spec fn has_next_key<A>(m: Map<Seq<KeyChord>, A>, p: Seq<KeyChord>, key: KeyChord) -> bool {
    exists|k: Seq<KeyChord>| #[trigger] m.contains_key(k) && extends(k, p) && k[p.len() as int] == key
}

/// Mode `mode` has a map, and some binding there extends `p` with `key`.
pub open spec fn mode_has_next<A>(
    reg: Map<Seq<char>, Map<Seq<KeyChord>, A>>,
    mode: Seq<char>,
    p: Seq<KeyChord>,
    key: KeyChord,
) -> bool {
    reg.contains_key(mode) && has_next_key(reg[mode], p, key)
}

/// `hint` is what mode index `mi` of `modes` offers for `p`: that mode is the
/// first of `modes` with a binding that continues `p` with the hint's key,
/// and the hint carries a copy of the action of one such binding there.
pub open spec fn hint_from_mode<A: Clone>(
    reg: Map<Seq<char>, Map<Seq<KeyChord>, A>>,
    modes: Seq<Seq<char>>,
    p: Seq<KeyChord>,
    hint: InputHint<A>,
    mi: int,
) -> bool {
    &&& 0 <= mi < modes.len()
    &&& reg.contains_key(modes[mi])
    &&& (forall|mj: int| 0 <= mj < mi ==> !mode_has_next(reg, #[trigger] modes[mj], p, hint.key))
    &&& exists|k: Seq<KeyChord>|
        #[trigger] reg[modes[mi]].contains_key(k) && extends(k, p) && k[p.len() as int]
            == hint.key && cloned(reg[modes[mi]][k], hint.action)
}

/// `hint` is what some mode index of `modes` offers for `p`.
pub open spec fn offered<A: Clone>(
    reg: Map<Seq<char>, Map<Seq<KeyChord>, A>>,
    modes: Seq<Seq<char>>,
    p: Seq<KeyChord>,
    hint: InputHint<A>,
) -> bool {
    exists|mi: int| #[trigger] hint_from_mode(reg, modes, p, hint, mi)
}

/// `hints` are exactly the chords that continue `p` in `modes`, each once,
/// each offered from the first mode that continues `p` with it.
pub open spec fn valid_hints<A: Clone>(
    reg: Map<Seq<char>, Map<Seq<KeyChord>, A>>,
    modes: Seq<Seq<char>>,
    p: Seq<KeyChord>,
    hints: Seq<InputHint<A>>,
) -> bool {
    &&& forall|i: int, j: int| 0 <= i < j < hints.len() ==> hints[i].key != hints[j].key
    &&& forall|i: int| 0 <= i < hints.len() ==> offered(reg, modes, p, #[trigger] hints[i])
    &&& forall|mi: int, key: KeyChord|
        0 <= mi < modes.len() && #[trigger] mode_has_next(reg, modes[mi], p, key) ==> exists|i: int|
            0 <= i < hints.len() && (#[trigger] hints[i]).key == key
}

/// When the complete hint list for `p` is empty, every hint list that is
/// complete for `p` is empty: nothing continues `p`.
pub proof fn lemma_no_hints<A: Clone>(
    reg: Map<Seq<char>, Map<Seq<KeyChord>, A>>,
    modes: Seq<Seq<char>>,
    p: Seq<KeyChord>,
    empty: Seq<InputHint<A>>,
)
    requires
        valid_hints(reg, modes, p, empty),
        empty.len() == 0,
    ensures
        forall|h: Seq<InputHint<A>>| valid_hints(reg, modes, p, h) ==> h.len() == 0,
{
    assert forall|h: Seq<InputHint<A>>| valid_hints(reg, modes, p, h) implies h.len() == 0 by {
        if h.len() > 0 {
            assert(offered(reg, modes, p, h[0]));
            let mi = choose|mi: int| #[trigger] hint_from_mode(reg, modes, p, h[0], mi);
            let k = choose|k: Seq<KeyChord>|
                #[trigger] reg[modes[mi]].contains_key(k) && extends(k, p) && k[p.len() as int]
                    == h[0].key && cloned(reg[modes[mi]][k], h[0].action);
            assert(has_next_key(reg[modes[mi]], p, h[0].key));
            assert(mode_has_next(reg, modes[mi], p, h[0].key));
        }
    }
}

/// Keymaps grouped by mode id, kept in a list with no id twice (for the
/// reason given on [`KeyMap`]).
#[derive(Debug)]
pub struct InputRegistry<A> {
    ids: Vec<String>,
    maps: Vec<KeyMap<A>>,
}

impl<A> View for InputRegistry<A> {
    type V = Map<Seq<char>, Map<Seq<KeyChord>, A>>;

    closed spec fn view(&self) -> Map<Seq<char>, Map<Seq<KeyChord>, A>> {
        assoc(registry_entries(self.ids@, self.maps@))
    }
}

impl<A> InputRegistry<A> {
    /// Each mode id occurs once and each map is well formed.
    pub closed spec fn wf(&self) -> bool {
        &&& self.ids@.len() == self.maps@.len()
        &&& distinct_keys(registry_entries(self.ids@, self.maps@))
        &&& forall|i: int| 0 <= i < self.maps@.len() ==> (#[trigger] self.maps@[i]).wf()
    }

    /// The total number of bindings over all modes.
    pub closed spec fn total_spec(&self) -> int {
        total_of(self.maps@)
    }

    /// A registry with no maps.
    pub fn empty() -> (r: Self)
        ensures
            r.wf(),
            r@ == Map::<Seq<char>, Map<Seq<KeyChord>, A>>::empty(),
            r.total_spec() == 0,
    {
        let r = InputRegistry { ids: Vec::new(), maps: Vec::new() };
        assert(registry_entries(r.ids@, r.maps@) =~= Seq::<(Seq<char>, Map<Seq<KeyChord>, A>)>::empty());
        r
    }

    fn find_mode(&self, id: &str) -> (r: Option<usize>)
        requires
            self.wf(),
        ensures
            match r {
                Some(i) => i < self.ids@.len() && self.ids@[i as int]@ == id@ && self@.contains_key(
                    id@,
                ) && self@[id@] == self.maps@[i as int]@,
                None => !self@.contains_key(id@),
            },
    {
        let ghost ev = registry_entries(self.ids@, self.maps@);
        proof {
            lemma_assoc_lookup(ev);
        }
        let mut i: usize = 0;
        while i < self.ids.len()
            invariant
                i <= self.ids@.len(),
                ev == registry_entries(self.ids@, self.maps@),
                distinct_keys(ev),
                self.ids@.len() == self.maps@.len(),
                forall|j: int| 0 <= j < i ==> self.ids@[j]@ != id@,
            decreases self.ids@.len() - i,
        {
            if str_eq(self.ids[i].as_str(), id) {
                proof {
                    lemma_assoc_lookup(ev);
                }
                assert(ev[i as int].0 == id@);
                return Some(i);
            }
            i = i + 1;
        }
        proof {
            if self@.contains_key(id@) {
                let j = choose|j: int| 0 <= j < ev.len() && ev[j].0 == id@;
                assert(self.ids@[j]@ == id@);
            }
        }
        None
    }

    /// The action bound to exactly `sequence` in mode `id`.
    pub fn binding_in(&self, id: &str, sequence: &[KeyChord]) -> (r: Option<&A>)
        requires
            self.wf(),
        ensures
            match r {
                Some(a) => self@.contains_key(id@) && self@[id@].contains_key(sequence@) && *a
                    == self@[id@][sequence@],
                None => !(self@.contains_key(id@) && self@[id@].contains_key(sequence@)),
            },
    {
        match self.find_mode(id) {
            Some(i) => {
                assert(self.maps@[i as int].wf());
                self.maps[i].get(sequence)
            },
            None => None,
        }
    }

    /// The map of mode `id`, if the registry has one.
    pub fn get_map(&self, id: &str) -> (r: Option<&KeyMap<A>>)
        requires
            self.wf(),
        ensures
            match r {
                Some(m) => self@.contains_key(id@) && m@ == self@[id@] && m.wf(),
                None => !self@.contains_key(id@),
            },
    {
        match self.find_mode(id) {
            Some(i) => {
                assert(self.maps@[i as int].wf());
                Some(&self.maps[i])
            },
            None => None,
        }
    }

    /// Whether mode `id` has a map.
    pub fn has_mode(&self, id: &str) -> (r: bool)
        requires
            self.wf(),
        ensures
            r == self@.contains_key(id@),
    {
        self.find_mode(id).is_some()
    }

    /// Add `map` under its own id, replacing any map with that id.
    pub fn add_map(&mut self, map: KeyMap<A>)
        requires
            old(self).wf(),
            map.wf(),
        ensures
            final(self).wf(),
            final(self)@ == old(self)@.insert(map.id_view(), map@),
    {
        let ghost ev = registry_entries(self.ids@, self.maps@);
        let ghost mv = map@;
        let id = map.id.clone();
        match self.find_mode(id.as_str()) {
            Some(i) => {
                proof {
                    lemma_assoc_update(ev, i as int, (id@, mv));
                }
                self.maps.set(i, map);
                assert(registry_entries(self.ids@, self.maps@) =~= ev.update(i as int, (id@, mv)));
            },
            None => {
                proof {
                    lemma_assoc_push(ev, (id@, mv));
                }
                self.ids.push(id);
                self.maps.push(map);
                assert(registry_entries(self.ids@, self.maps@) =~= ev.push((id@, mv)));
            },
        }
    }

    /// The map for mode `id`, created empty when there is none.
    pub fn map_mut(&mut self, id: &str) -> (r: &mut KeyMap<A>)
        requires
            old(self).wf(),
        ensures
            r.wf(),
            r@ == (if old(self)@.contains_key(id@) {
                old(self)@[id@]
            } else {
                Map::<Seq<KeyChord>, A>::empty()
            }),
            !old(self)@.contains_key(id@) ==> r.id_view() == id@,
            final(self)@ == old(self)@.insert(id@, final(r)@),
            final(r).wf() ==> final(self).wf(),
    {
        let ghost ev = registry_entries(self.ids@, self.maps@);
        let i = match self.find_mode(id) {
            Some(i) => i,
            None => {
                let m = KeyMap::new(id);
                proof {
                    lemma_assoc_push(ev, (id@, m@));
                }
                self.ids.push(id.to_string());
                self.maps.push(m);
                assert(registry_entries(self.ids@, self.maps@) =~= ev.push((id@, m@)));
                self.ids.len() - 1
            },
        };
        let ghost ev2 = registry_entries(self.ids@, self.maps@);
        let ghost ids2 = self.ids@;
        let ghost maps2 = self.maps@;
        proof {
            lemma_assoc_lookup(ev2);
            assert(ev2[i as int].0 == id@);
            assert(self.maps@[i as int].wf());
            assert forall|m: KeyMap<A>| #[trigger] registry_entries(ids2, maps2.update(i as int, m))
                == ev2.update(i as int, (id@, m@)) by {
                assert(registry_entries(ids2, maps2.update(i as int, m)) =~= ev2.update(
                    i as int,
                    (id@, m@),
                ));
            }
            assert forall|v: Map<Seq<KeyChord>, A>| #[trigger] assoc(ev2.update(i as int, (id@, v)))
                == assoc(ev2).insert(id@, v) && distinct_keys(ev2.update(i as int, (id@, v))) by {
                lemma_assoc_update(ev2, i as int, (id@, v));
            }
        }
        let r = &mut self.maps[i];
        r
    }
}

/// The total number of bindings in `maps`.
pub open spec fn total_of<A>(maps: Seq<KeyMap<A>>) -> int
    decreases maps.len(),
{
    if maps.len() == 0 {
        0
    } else {
        total_of(maps.drop_last()) + maps.last()@.dom().len()
    }
}

/// Some binding of `m` strictly extends `p`.
pub open spec fn has_extension<A>(m: Map<Seq<KeyChord>, A>, p: Seq<KeyChord>) -> bool {
    exists|k: Seq<KeyChord>| #[trigger] m.contains_key(k) && extends(k, p)
}

proof fn lemma_total_step<A>(maps: Seq<KeyMap<A>>, i: int)
    requires
        0 <= i < maps.len(),
    ensures
        total_of(maps.take(i + 1)) == total_of(maps.take(i)) + maps[i]@.dom().len(),
{
    assert(maps.take(i + 1).drop_last() =~= maps.take(i));
}

proof fn lemma_total_prefix<A>(maps: Seq<KeyMap<A>>, i: int)
    requires
        0 <= i <= maps.len(),
    ensures
        0 <= total_of(maps.take(i)) <= total_of(maps),
    decreases maps.len() - i,
{
    lemma_total_nonneg(maps.take(i));
    if i < maps.len() {
        lemma_total_prefix(maps, i + 1);
        lemma_total_step(maps, i);
    } else {
        assert(maps.take(i) =~= maps);
        lemma_total_nonneg(maps);
    }
}

proof fn lemma_total_nonneg<A>(maps: Seq<KeyMap<A>>)
    ensures
        total_of(maps) >= 0,
    decreases maps.len(),
{
    if maps.len() > 0 {
        lemma_total_nonneg(maps.drop_last());
    }
}

impl<A> KeyMap<A> {
    /// Whether some binding extends `p` with `key` as its next chord.
    fn has_next(&self, p: &[KeyChord], key: &KeyChord) -> (r: bool)
        requires
            self.wf(),
        ensures
            r == has_next_key(self@, p@, *key),
    {
        let ghost ev = entry_views(self.bindings@);
        proof {
            lemma_assoc_lookup(ev);
        }
        let mut j: usize = 0;
        while j < self.bindings.len()
            invariant
                j <= self.bindings@.len(),
                ev == entry_views(self.bindings@),
                distinct_keys(ev),
                forall|q: int|
                    0 <= q < j ==> !(extends(#[trigger] ev[q].0, p@) && ev[q].0[p@.len() as int]
                        == *key),
            decreases self.bindings@.len() - j,
        {
            assert(ev[j as int].0 == self.bindings@[j as int].0@);
            let k = self.bindings[j].0.as_slice();
            if chords_extend(k, p) && k[p.len()] == *key {
                proof {
                    lemma_assoc_lookup(ev);
                    assert(self@.contains_key(ev[j as int].0));
                }
                return true;
            }
            j = j + 1;
        }
        proof {
            if has_next_key(self@, p@, *key) {
                let k = choose|k: Seq<KeyChord>|
                    #[trigger] self@.contains_key(k) && extends(k, p@) && k[p@.len() as int] == *key;
                let q = choose|q: int| 0 <= q < ev.len() && ev[q].0 == k;
                assert(extends(ev[q].0, p@));
            }
        }
        false
    }

    /// Whether some binding strictly extends `p`.
    fn extends_some(&self, p: &[KeyChord]) -> (r: bool)
        requires
            self.wf(),
        ensures
            r == has_extension(self@, p@),
    {
        let ghost ev = entry_views(self.bindings@);
        proof {
            lemma_assoc_lookup(ev);
        }
        let mut j: usize = 0;
        while j < self.bindings.len()
            invariant
                j <= self.bindings@.len(),
                ev == entry_views(self.bindings@),
                distinct_keys(ev),
                forall|q: int| 0 <= q < j ==> !extends(#[trigger] ev[q].0, p@),
            decreases self.bindings@.len() - j,
        {
            assert(ev[j as int].0 == self.bindings@[j as int].0@);
            if chords_extend(self.bindings[j].0.as_slice(), p) {
                proof {
                    lemma_assoc_lookup(ev);
                    assert(self@.contains_key(ev[j as int].0));
                }
                return true;
            }
            j = j + 1;
        }
        proof {
            if has_extension(self@, p@) {
                let k = choose|k: Seq<KeyChord>| #[trigger] self@.contains_key(k) && extends(k, p@);
                let q = choose|q: int| 0 <= q < ev.len() && ev[q].0 == k;
                assert(extends(ev[q].0, p@));
            }
        }
        false
    }
}

impl<A> InputRegistry<A> {
    /// The number of bindings over all modes.
    pub fn total_bindings(&self) -> (r: usize)
        requires
            self.wf(),
            self.total_spec() <= usize::MAX,
        ensures
            r == self.total_spec(),
    {
        let mut total: usize = 0;
        let mut i: usize = 0;
        assert(self.maps@.take(0) =~= Seq::<KeyMap<A>>::empty());
        while i < self.maps.len()
            invariant
                i <= self.maps@.len(),
                self.wf(),
                total_of(self.maps@) <= usize::MAX,
                total == total_of(self.maps@.take(i as int)),
            decreases self.maps@.len() - i,
        {
            proof {
                lemma_total_step(self.maps@, i as int);
                lemma_total_prefix(self.maps@, i + 1);
                assert(self.maps@[i as int].wf());
            }
            total = total + self.maps[i].len();
            i = i + 1;
        }
        assert(self.maps@.take(self.maps@.len() as int) =~= self.maps@);
        total
    }

    /// Some listed mode has a binding that begins with `chord`.
    pub fn starts_sequence(&self, chord: &KeyChord, modes: &[&str]) -> (r: bool)
        requires
            self.wf(),
        ensures
            r == exists|mi: int|
                0 <= mi < modes@.len() && #[trigger] mode_has_next(
                    self@,
                    strs_view(modes@)[mi],
                    Seq::empty(),
                    *chord,
                ),
    {
        let empty: Vec<KeyChord> = Vec::new();
        let mut mi: usize = 0;
        while mi < modes.len()
            invariant
                mi <= modes@.len(),
                self.wf(),
                empty@ == Seq::<KeyChord>::empty(),
                forall|q: int|
                    0 <= q < mi ==> !#[trigger] mode_has_next(
                        self@,
                        strs_view(modes@)[q],
                        Seq::empty(),
                        *chord,
                    ),
            decreases modes@.len() - mi,
        {
            assert(strs_view(modes@)[mi as int] == modes@[mi as int]@);
            match self.find_mode(modes[mi]) {
                Some(i) => {
                    assert(self.maps@[i as int].wf());
                    if self.maps[i].has_next(empty.as_slice(), chord) {
                        assert(mode_has_next(self@, strs_view(modes@)[mi as int], Seq::empty(), *chord));
                        return true;
                    }
                },
                None => {},
            }
            mi = mi + 1;
        }
        false
    }

    /// `sequence` is non-empty and some listed mode has a binding that
    /// strictly extends it.
    pub fn is_prefix(&self, sequence: &[KeyChord], modes: &[&str]) -> (r: bool)
        requires
            self.wf(),
        ensures
            r == (sequence@.len() > 0 && exists|mi: int|
                0 <= mi < modes@.len() && self@.contains_key(strs_view(modes@)[mi])
                    && #[trigger] has_extension(self@[strs_view(modes@)[mi]], sequence@)),
    {
        if sequence.len() == 0 {
            return false;
        }
        let mut mi: usize = 0;
        while mi < modes.len()
            invariant
                mi <= modes@.len(),
                self.wf(),
                sequence@.len() > 0,
                forall|q: int|
                    0 <= q < mi ==> !(self@.contains_key(strs_view(modes@)[q])
                        && #[trigger] has_extension(self@[strs_view(modes@)[q]], sequence@)),
            decreases modes@.len() - mi,
        {
            assert(strs_view(modes@)[mi as int] == modes@[mi as int]@);
            match self.find_mode(modes[mi]) {
                Some(i) => {
                    assert(self.maps@[i as int].wf());
                    if self.maps[i].extends_some(sequence) {
                        assert(self@.contains_key(strs_view(modes@)[mi as int]) && has_extension(
                            self@[strs_view(modes@)[mi as int]],
                            sequence@,
                        ));
                        return true;
                    }
                },
                None => {},
            }
            mi = mi + 1;
        }
        false
    }
}

impl<A: Clone> InputRegistry<A> {
    /// A copy of the action bound to exactly `sequence` in the first listed
    /// mode that binds it.
    pub fn match_action(&self, sequence: &[KeyChord], modes: &[&str]) -> (r: Option<A>)
        requires
            self.wf(),
        ensures
            match first_bound(self@, strs_view(modes@), sequence@) {
                Some(a) => r matches Some(b) && cloned(a, b),
                None => r is None,
            },
    {
        let ghost mv = strs_view(modes@);
        let mut mi: usize = 0;
        assert(mv.skip(0) =~= mv);
        while mi < modes.len()
            invariant
                mi <= modes@.len(),
                self.wf(),
                mv == strs_view(modes@),
                first_bound(self@, mv, sequence@) == first_bound(self@, mv.skip(mi as int), sequence@),
            decreases modes@.len() - mi,
        {
            assert(mv.skip(mi as int)[0] == modes@[mi as int]@);
            assert(mv.skip(mi as int).drop_first() =~= mv.skip(mi + 1));
            match self.find_mode(modes[mi]) {
                Some(i) => {
                    assert(self.maps@[i as int].wf());
                    match self.maps[i].get(sequence) {
                        Some(a) => {
                            return Some(a.clone());
                        },
                        None => {},
                    }
                },
                None => {},
            }
            mi = mi + 1;
        }
        assert(mv.skip(mi as int).len() == 0);
        None
    }
}

fn hints_have_key<A>(hints: &Vec<InputHint<A>>, key: &KeyChord) -> (r: bool)
    ensures
        r == exists|i: int| 0 <= i < hints@.len() && (#[trigger] hints@[i]).key == *key,
{
    let mut i: usize = 0;
    while i < hints.len()
        invariant
            i <= hints@.len(),
            forall|q: int| 0 <= q < i ==> (#[trigger] hints@[q]).key != *key,
        decreases hints@.len() - i,
    {
        if hints[i].key == *key {
            return true;
        }
        i = i + 1;
    }
    false
}

impl<A: Clone> InputRegistry<A> {
    /// The chords that continue `prefix` in the listed modes, each once, with
    /// a copy of the action of a binding it leads to. A chord is offered from
    /// the first listed mode in which some binding continues `prefix` with it.
    pub fn get_hints(&self, prefix: &[KeyChord], modes: &[&str]) -> (r: Vec<InputHint<A>>)
        requires
            self.wf(),
        ensures
            valid_hints(self@, strs_view(modes@), prefix@, r@),
    {
        let ghost mv = strs_view(modes@);
        let ghost reg = self@;
        let mut hints: Vec<InputHint<A>> = Vec::new();
        let mut mi: usize = 0;
        while mi < modes.len()
            invariant
                mi <= modes@.len(),
                self.wf(),
                mv == strs_view(modes@),
                reg == self@,
                forall|i: int, j: int| 0 <= i < j < hints@.len() ==> hints@[i].key != hints@[j].key,
                forall|i: int|
                    0 <= i < hints@.len() ==> offered(reg, mv, prefix@, #[trigger] hints@[i]),
                forall|q: int, key: KeyChord|
                    0 <= q < mi && #[trigger] mode_has_next(reg, mv[q], prefix@, key) ==> exists|
                        i: int,
                    | 0 <= i < hints@.len() && (#[trigger] hints@[i]).key == key,
            decreases modes@.len() - mi,
        {
            assert(mv[mi as int] == modes@[mi as int]@);
            match self.find_mode(modes[mi]) {
                None => {
                    assert forall|q: int, key: KeyChord|
                        0 <= q < mi + 1 && #[trigger] mode_has_next(reg, mv[q], prefix@, key)
                            implies exists|i: int|
                        0 <= i < hints@.len() && (#[trigger] hints@[i]).key == key by {}
                },
                Some(idx) => {
                    let map = &self.maps[idx];
                    let ghost ev = entry_views(map.bindings@);
                    proof {
                        assert(map.wf());
                        lemma_assoc_lookup(ev);
                    }
                    let mut j: usize = 0;
                    while j < map.bindings.len()
                        invariant
                            j <= map.bindings@.len(),
                            mi < modes@.len(),
                            idx < self.maps@.len(),
                            *map == self.maps@[idx as int],
                            reg.contains_key(mv[mi as int]),
                            reg[mv[mi as int]] == map@,
                            ev == entry_views(map.bindings@),
                            distinct_keys(ev),
                            mv == strs_view(modes@),
                            reg == self@,
                            forall|i: int, j2: int|
                                0 <= i < j2 < hints@.len() ==> hints@[i].key != hints@[j2].key,
                            forall|i: int|
                                0 <= i < hints@.len() ==> offered(reg, mv, prefix@, #[trigger] hints@[i]),
                            forall|q: int, key: KeyChord|
                                0 <= q < mi && #[trigger] mode_has_next(reg, mv[q], prefix@, key)
                                    ==> exists|i: int|
                                    0 <= i < hints@.len() && (#[trigger] hints@[i]).key == key,
                            forall|q: int|
                                0 <= q < j && extends(#[trigger] ev[q].0, prefix@) ==> exists|i: int|
                                    0 <= i < hints@.len() && (#[trigger] hints@[i]).key
                                        == ev[q].0[prefix@.len() as int],
                        decreases map.bindings@.len() - j,
                    {
                        let ghost before = hints@;
                        assert(ev[j as int] == (map.bindings@[j as int].0@, map.bindings@[j as int].1));
                        let k = map.bindings[j].0.as_slice();
                        if chords_extend(k, prefix) {
                            let key = k[prefix.len()];
                            if !hints_have_key(&hints, &key) {
                                let action = map.bindings[j].1.clone();
                                let hint = InputHint { key, action };
                                proof {
                                    lemma_assoc_lookup(ev);
                                    assert(map@.contains_key(ev[j as int].0));
                                    assert(map@[ev[j as int].0] == ev[j as int].1);
                                    assert forall|mj: int| 0 <= mj < mi implies !mode_has_next(
                                        reg,
                                        #[trigger] mv[mj],
                                        prefix@,
                                        key,
                                    ) by {
                                        if mode_has_next(reg, mv[mj], prefix@, key) {
                                            let i = choose|i: int|
                                                0 <= i < hints@.len() && (#[trigger] hints@[i]).key
                                                    == key;
                                            assert(hints@[i].key == key);
                                        }
                                    }
                                    assert(reg[mv[mi as int]].contains_key(ev[j as int].0));
                                    assert(hint_from_mode(reg, mv, prefix@, hint, mi as int));
                                }
                                hints.push(hint);
                                proof {
                                    assert forall|i: int|
                                        0 <= i < hints@.len() implies offered(reg, mv, prefix@, #[trigger] hints@[i]) by {
                                        if i < before.len() {
                                            assert(hints@[i] == before[i]);
                                        } else {
                                            assert(hint_from_mode(reg, mv, prefix@, hints@[i], mi as int));
                                        }
                                    }
                                    assert forall|q: int, key2: KeyChord|
                                        0 <= q < mi && #[trigger] mode_has_next(reg, mv[q], prefix@, key2)
                                            implies exists|i: int|
                                        0 <= i < hints@.len() && (#[trigger] hints@[i]).key == key2 by {
                                        let i = choose|i: int|
                                            0 <= i < before.len() && (#[trigger] before[i]).key == key2;
                                        assert(hints@[i] == before[i]);
                                    }
                                }
                            }
                            proof {
                                assert forall|q: int|
                                    0 <= q < j + 1 && extends(#[trigger] ev[q].0, prefix@) implies exists|
                                    i: int,
                                | 0 <= i < hints@.len() && (#[trigger] hints@[i]).key == ev[q].0[prefix@.len() as int] by {
                                    if q < j {
                                        let i = choose|i: int|
                                            0 <= i < before.len() && (#[trigger] before[i]).key
                                                == ev[q].0[prefix@.len() as int];
                                        assert(hints@[i] == before[i]);
                                    } else if exists|i: int| 0 <= i < before.len() && (#[trigger] before[i]).key == key {
                                        let i = choose|i: int| 0 <= i < before.len() && (#[trigger] before[i]).key == key;
                                        assert(hints@[i] == before[i]);
                                    } else {
                                        assert(hints@[hints@.len() - 1].key == key);
                                    }
                                }
                            }
                        }
                        j = j + 1;
                    }
                    proof {
                        assert forall|q: int, key: KeyChord|
                            0 <= q < mi + 1 && #[trigger] mode_has_next(reg, mv[q], prefix@, key)
                                implies exists|i: int|
                            0 <= i < hints@.len() && (#[trigger] hints@[i]).key == key by {
                            if q == mi {
                                let k = choose|k: Seq<KeyChord>|
                                    #[trigger] map@.contains_key(k) && extends(k, prefix@) && k[prefix@.len() as int]
                                        == key;
                                let qq = choose|qq: int| 0 <= qq < ev.len() && ev[qq].0 == k;
                                assert(extends(ev[qq].0, prefix@));
                            }
                        }
                    }
                },
            }
            mi = mi + 1;
        }
        hints
    }
}


/// One map's bindings as `(mode, chords, action)`, in binding order.
spec fn map_triples<A>(id: Seq<char>, m: KeyMap<A>) -> Seq<(Seq<char>, Seq<KeyChord>, A)> {
    m.bindings@.map_values(|e: (Vec<KeyChord>, A)| (id, e.0@, e.1))
}

/// The bindings of the first `n` maps, map by map.
spec fn triples_upto<A>(ids: Seq<String>, maps: Seq<KeyMap<A>>, n: int) -> Seq<
    (Seq<char>, Seq<KeyChord>, A),
>
    decreases n,
{
    if n <= 0 {
        Seq::empty()
    } else {
        triples_upto(ids, maps, n - 1) + map_triples(ids[n - 1]@, maps[n - 1])
    }
}

/// The triple `t` holds the texts of `s` and a clone of its action.
pub open spec fn triple_matches<A: Clone>(
    t: (String, Vec<KeyChord>, A),
    s: (Seq<char>, Seq<KeyChord>, A),
) -> bool {
    t.0@ == s.0 && t.1@ == s.1 && cloned(s.2, t.2)
}

pub(crate) fn copy_chords(s: &[KeyChord]) -> (r: Vec<KeyChord>)
    ensures
        r@ == s@,
{
    let mut out: Vec<KeyChord> = Vec::new();
    let mut i: usize = 0;
    while i < s.len()
        invariant
            i <= s@.len(),
            out@ == s@.take(i as int),
        decreases s@.len() - i,
    {
        out.push(s[i]);
        i = i + 1;
        assert(out@ =~= s@.take(i as int));
    }
    assert(s@.take(s@.len() as int) =~= s@);
    out
}

/// `e` is a binding of one of the first `n` maps.
spec fn in_some_map<A>(
    ids: Seq<String>,
    maps: Seq<KeyMap<A>>,
    n: int,
    e: (Seq<char>, Seq<KeyChord>, A),
) -> bool {
    exists|k: int|
        #![trigger maps[k]]
        0 <= k < n && ids[k]@ == e.0 && maps[k]@.contains_key(e.1) && maps[k]@[e.1] == e.2
}

proof fn lemma_triples_upto<A>(ids: Seq<String>, maps: Seq<KeyMap<A>>, n: int)
    requires
        ids.len() == maps.len(),
        0 <= n <= ids.len(),
        distinct_keys(registry_entries(ids, maps)),
        forall|i: int| 0 <= i < maps.len() ==> (#[trigger] maps[i]).wf(),
    ensures
        forall|i: int|
            0 <= i < triples_upto(ids, maps, n).len() ==> in_some_map(
                ids,
                maps,
                n,
                #[trigger] triples_upto(ids, maps, n)[i],
            ),
        forall|k: int, c: Seq<KeyChord>|
            0 <= k < n && #[trigger] maps[k]@.contains_key(c) ==> exists|i: int|
                0 <= i < triples_upto(ids, maps, n).len() && #[trigger] triples_upto(ids, maps, n)[i]
                    == (ids[k]@, c, maps[k]@[c]),
        forall|i: int, j: int|
            0 <= i < j < triples_upto(ids, maps, n).len() ==> (triples_upto(ids, maps, n)[i].0,
                triples_upto(ids, maps, n)[i].1) != (triples_upto(ids, maps, n)[j].0, triples_upto(
                ids,
                maps,
                n,
            )[j].1),
    decreases n,
{
    if n > 0 {
        lemma_triples_upto(ids, maps, n - 1);
        let t = triples_upto(ids, maps, n - 1);
        let m = maps[n - 1];
        let id = ids[n - 1]@;
        let mt = map_triples(id, m);
        let full = triples_upto(ids, maps, n);
        assert(full == t + mt);
        let ev = entry_views(m.bindings@);
        assert(m.wf());
        lemma_assoc_lookup(ev);
        assert(registry_entries(ids, maps)[n - 1].0 == id);
        assert forall|i: int| 0 <= i < full.len() implies in_some_map(ids, maps, n, #[trigger] full[i]) by {
            if i < t.len() {
                assert(full[i] == t[i]);
                assert(in_some_map(ids, maps, n - 1, t[i]));
                let k = choose|k: int|
                    #![trigger maps[k]]
                    0 <= k < n - 1 && ids[k]@ == t[i].0 && maps[k]@.contains_key(t[i].1)
                        && maps[k]@[t[i].1] == t[i].2;
                assert(0 <= k < n && ids[k]@ == full[i].0 && maps[k]@.contains_key(full[i].1)
                    && maps[k]@[full[i].1] == full[i].2);
            } else {
                let j = i - t.len();
                assert(full[i] == mt[j]);
                assert(mt[j] == (id, m.bindings@[j].0@, m.bindings@[j].1));
                assert(ev[j] == (m.bindings@[j].0@, m.bindings@[j].1));
                assert(m@ == assoc(ev));
                assert(m@.contains_key(ev[j].0) && m@[ev[j].0] == ev[j].1);
                assert(maps[n - 1] == m);
                assert(0 <= n - 1 < n && ids[n - 1]@ == full[i].0 && maps[n - 1]@.contains_key(
                    full[i].1,
                ) && maps[n - 1]@[full[i].1] == full[i].2);
            }
        }
        assert forall|k: int, c: Seq<KeyChord>| 0 <= k < n && #[trigger] maps[k]@.contains_key(c) implies exists|i: int|
            0 <= i < full.len() && #[trigger] full[i] == (ids[k]@, c, maps[k]@[c]) by {
            if k < n - 1 {
                let i = choose|i: int| 0 <= i < t.len() && #[trigger] t[i] == (ids[k]@, c, maps[k]@[c]);
                assert(full[i] == t[i]);
            } else {
                let j = choose|j: int| 0 <= j < ev.len() && ev[j].0 == c;
                assert(full[t.len() + j] == mt[j]);
                assert(mt[j] == (id, c, maps[k]@[c]));
            }
        }
        assert forall|i: int, j: int| 0 <= i < j < full.len() implies (full[i].0, full[i].1) != (
        full[j].0, full[j].1) by {
            if j < t.len() {
                assert(full[i] == t[i] && full[j] == t[j]);
            } else if i >= t.len() {
                let a = i - t.len();
                let b = j - t.len();
                assert(full[i] == mt[a] && full[j] == mt[b]);
                assert(ev[a].0 != ev[b].0);
            } else {
                assert(full[i] == t[i] && full[j] == mt[j - t.len()]);
                assert(in_some_map(ids, maps, n - 1, t[i]));
                let k = choose|k: int|
                    #![trigger maps[k]]
                    0 <= k < n - 1 && ids[k]@ == t[i].0 && maps[k]@.contains_key(t[i].1)
                        && maps[k]@[t[i].1] == t[i].2;
                assert(registry_entries(ids, maps)[k].0 == ids[k]@);
                assert(registry_entries(ids, maps)[k].0 != registry_entries(ids, maps)[n - 1].0);
            }
        }
    }
}

impl<A> InputRegistry<A> {
    /// Every binding as `(mode, chords, action)`: map by map in the order the
    /// maps were added, each map's bindings in the order they were made.
    pub closed spec fn binding_list(&self) -> Seq<(Seq<char>, Seq<KeyChord>, A)> {
        triples_upto(self.ids@, self.maps@, self.ids@.len() as int)
    }

    /// The binding list holds each binding of the registry exactly once.
    pub proof fn lemma_binding_list(&self)
        requires
            self.wf(),
        ensures
            forall|i: int|
                0 <= i < self.binding_list().len() ==> #[trigger] self@.contains_key(
                    self.binding_list()[i].0,
                ) && self@[self.binding_list()[i].0].contains_key(self.binding_list()[i].1)
                    && self@[self.binding_list()[i].0][self.binding_list()[i].1]
                    == self.binding_list()[i].2,
            forall|m: Seq<char>, c: Seq<KeyChord>|
                self@.contains_key(m) && #[trigger] self@[m].contains_key(c) ==> exists|i: int|
                    0 <= i < self.binding_list().len() && #[trigger] self.binding_list()[i] == (
                        m,
                        c,
                        self@[m][c],
                    ),
            forall|i: int, j: int|
                0 <= i < j < self.binding_list().len() ==> (self.binding_list()[i].0,
                    self.binding_list()[i].1) != (self.binding_list()[j].0,
                    self.binding_list()[j].1),
    {
        let ids = self.ids@;
        let maps = self.maps@;
        let n = ids.len() as int;
        let ev = registry_entries(ids, maps);
        lemma_triples_upto(ids, maps, n);
        lemma_assoc_lookup(ev);
        let l = self.binding_list();
        assert forall|i: int| 0 <= i < l.len() implies #[trigger] self@.contains_key(l[i].0)
            && self@[l[i].0].contains_key(l[i].1) && self@[l[i].0][l[i].1] == l[i].2 by {
            assert(in_some_map(ids, maps, n, l[i]));
            let k = choose|k: int|
                #![trigger maps[k]]
                0 <= k < n && ids[k]@ == l[i].0 && maps[k]@.contains_key(l[i].1)
                    && maps[k]@[l[i].1] == l[i].2;
            assert(ev[k] == (ids[k]@, maps[k]@));
            assert(self@ == assoc(ev));
            assert(assoc(ev).contains_key(ev[k].0) && assoc(ev)[ev[k].0] == ev[k].1);
        }
        assert forall|m: Seq<char>, c: Seq<KeyChord>| self@.contains_key(m)
            && #[trigger] self@[m].contains_key(c) implies exists|i: int|
            0 <= i < l.len() && #[trigger] l[i] == (m, c, self@[m][c]) by {
            let k = choose|k: int| 0 <= k < ev.len() && ev[k].0 == m;
            assert(ev[k] == (ids[k]@, maps[k]@));
            assert(maps[k]@.contains_key(c));
        }
    }
}

proof fn lemma_entry_lookup<K, V>(s: Seq<(K, V)>, i: int)
    requires
        distinct_keys(s),
        0 <= i < s.len(),
    ensures
        assoc(s).contains_key(s[i].0),
        assoc(s)[s[i].0] == s[i].1,
{
    lemma_assoc_lookup(s);
}

impl<A: PartialEq> InputRegistry<A> {
    /// Every sequence bound to `action` in some mode, mode by mode.
    pub fn sequences_for(&self, action: &A) -> (r: Vec<&[KeyChord]>)
        requires
            self.wf(),
        ensures
            A::obeys_eq_spec() ==> forall|i: int|
                0 <= i < r@.len() ==> #[trigger] bound_in_some_mode(self@, *action, r@[i]@),
            A::obeys_eq_spec() ==> forall|k: Seq<KeyChord>|
                #[trigger] bound_in_some_mode(self@, *action, k) ==> exists|i: int|
                    0 <= i < r@.len() && r@[i]@ == k,
    {
        let ghost entries = registry_entries(self.ids@, self.maps@);
        proof {
            lemma_assoc_lookup(entries);
            assert(self@ == assoc(entries));
        }
        let mut out: Vec<&[KeyChord]> = Vec::new();
        let mut k: usize = 0;
        while k < self.maps.len()
            invariant
                self.wf(),
                k <= self.maps@.len(),
                entries == registry_entries(self.ids@, self.maps@),
                self@ == assoc(entries),
                distinct_keys(entries),
                A::obeys_eq_spec() ==> forall|i: int|
                    0 <= i < out@.len() ==> #[trigger] bound_in_some_mode(self@, *action, out@[i]@),
                A::obeys_eq_spec() ==> forall|j: int, key: Seq<KeyChord>|
                    0 <= j < k && #[trigger] self.maps@[j]@.contains_key(key) && self.maps@[j]@[key].eq_spec(action)
                        ==> exists|i: int| 0 <= i < out@.len() && out@[i]@ == key,
            decreases self.maps@.len() - k,
        {
            let found = self.maps[k].bindings_for(action);
            let ghost before = out@;
            let mut f: usize = 0;
            while f < found.len()
                invariant
                    self.wf(),
                    k < self.maps@.len(),
                    f <= found@.len(),
                    entries == registry_entries(self.ids@, self.maps@),
                    self@ == assoc(entries),
                    distinct_keys(entries),
                    forall|i: int| 0 <= i < found@.len() ==> #[trigger] self.maps@[k as int]@.contains_key(found@[i]@),
                    A::obeys_eq_spec() ==> forall|i: int|
                        0 <= i < found@.len() ==> #[trigger] self.maps@[k as int]@[found@[i]@].eq_spec(action),
                    out@ == before + found@.take(f as int),
                    A::obeys_eq_spec() ==> forall|i: int|
                        0 <= i < out@.len() ==> #[trigger] bound_in_some_mode(self@, *action, out@[i]@),
                decreases found@.len() - f,
            {
                proof {
                    if A::obeys_eq_spec() {
                        lemma_assoc_lookup(entries);
                        assert(self.ids@.len() == self.maps@.len());
                        assert(entries.len() == self.ids@.len());
                        assert(0 <= k < entries.len());
                        assert(distinct_keys(entries));
                        let m = entries[k as int].0;
                        lemma_entry_lookup(entries, k as int);
                        assert(entries[k as int] == (self.ids@[k as int]@, self.maps@[k as int]@));
                        assert(self@.contains_key(m) && self@[m] == self.maps@[k as int]@);
                        assert(bound_in_some_mode(self@, *action, found@[f as int]@));
                    }
                }
                out.push(found[f]);
                assert(out@ =~= before + found@.take(f + 1));
                f = f + 1;
            }
            proof {
                assert(found@.take(found@.len() as int) =~= found@);
                if A::obeys_eq_spec() {
                    assert forall|j: int, key: Seq<KeyChord>|
                        0 <= j < k + 1 && #[trigger] self.maps@[j]@.contains_key(key) && self.maps@[j]@[key].eq_spec(action)
                            implies exists|i: int| 0 <= i < out@.len() && out@[i]@ == key by {
                        if j < k {
                            let i0 = choose|i: int| 0 <= i < before.len() && before[i]@ == key;
                            assert(out@[i0] == before[i0]);
                        } else {
                            let i1 = choose|i: int| 0 <= i < found@.len() && found@[i]@ == key;
                            assert(out@[before.len() + i1] == found@[i1]);
                        }
                    }
                }
            }
            k = k + 1;
        }
        proof {
            lemma_assoc_lookup(entries);
            if A::obeys_eq_spec() {
                assert forall|key: Seq<KeyChord>| #[trigger] bound_in_some_mode(self@, *action, key) implies exists|i: int|
                    0 <= i < out@.len() && out@[i]@ == key by {
                    let m = choose|m: Seq<char>| #[trigger] self@.contains_key(m) && self@[m].contains_key(key) && self@[m][key].eq_spec(action);
                    let j = choose|j: int| 0 <= j < entries.len() && entries[j].0 == m;
                    assert(self@[entries[j].0] == entries[j].1);
                    assert(entries[j] == (self.ids@[j]@, self.maps@[j]@));
                    assert(self.maps@[j]@.contains_key(key));
                }
            }
        }
        out
    }
}

impl<A: Clone> InputRegistry<A> {
    /// Every binding as `(mode, chords, action)`, in the order of
    /// [`binding_list`](Self::binding_list), actions cloned.
    pub fn binding_triples(&self) -> (r: Vec<(String, Vec<KeyChord>, A)>)
        requires
            self.wf(),
        ensures
            r@.len() == self.binding_list().len(),
            forall|i: int|
                0 <= i < r@.len() ==> #[trigger] triple_matches(r@[i], self.binding_list()[i]),
    {
        let ghost ids = self.ids@;
        let ghost maps = self.maps@;
        let mut out: Vec<(String, Vec<KeyChord>, A)> = Vec::new();
        let mut k: usize = 0;
        while k < self.maps.len()
            invariant
                k <= maps.len(),
                ids == self.ids@,
                maps == self.maps@,
                ids.len() == maps.len(),
                out@.len() == triples_upto(ids, maps, k as int).len(),
                forall|i: int|
                    0 <= i < out@.len() ==> #[trigger] triple_matches(
                        out@[i],
                        triples_upto(ids, maps, k as int)[i],
                    ),
            decreases maps.len() - k,
        {
            let m = &self.maps[k];
            let ghost before = triples_upto(ids, maps, k as int);
            let ghost mt = map_triples(ids[k as int]@, maps[k as int]);
            assert(triples_upto(ids, maps, k + 1) == before + mt);
            let mut j: usize = 0;
            while j < m.bindings.len()
                invariant
                    j <= m.bindings@.len(),
                    *m == maps[k as int],
                    ids == self.ids@,
                    k < ids.len(),
                    mt == map_triples(ids[k as int]@, maps[k as int]),
                    out@.len() == before.len() + j,
                    forall|i: int|
                        0 <= i < out@.len() ==> #[trigger] triple_matches(out@[i], (before + mt)[i]),
                decreases m.bindings@.len() - j,
            {
                let action = m.bindings[j].1.clone();
                let entry = (self.ids[k].clone(), copy_chords(m.bindings[j].0.as_slice()), action);
                assert(triple_matches(entry, (before + mt)[before.len() + j]));
                out.push(entry);
                j = j + 1;
            }
            k = k + 1;
        }
        out
    }
}

} // verus!
