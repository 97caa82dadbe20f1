use vstd::prelude::*;
use crate::command::CommandHint;
use crate::text::{has_prefix, starts_with, str_eq, to_lowercase, trim, trim_str, unicode_lower};

verus! {

/// The key an alias is stored and looked up under: trimmed input,
/// lowercased.
pub open spec fn alias_key(input: Seq<char>) -> Seq<char> {
    unicode_lower(trim(input))
}

/// The entries as a map from alias to `(action name, action)`; a later entry
/// for the same alias replaces an earlier one.
pub open spec fn entries_map<A>(s: Seq<(String, String, A)>) -> Map<Seq<char>, (Seq<char>, A)>
    decreases s.len(),
{
    if s.len() == 0 {
        Map::empty()
    } else {
        entries_map(s.drop_last()).insert(s.last().0@, (s.last().1@, s.last().2))
    }
}

/// No alias occurs twice.
pub open spec fn distinct_aliases<A>(s: Seq<(String, String, A)>) -> bool {
    forall|i: int, j: int| 0 <= i < j < s.len() ==> s[i].0@ != s[j].0@
}

proof fn lemma_entries_map_lookup<A>(s: Seq<(String, String, A)>)
    requires
        distinct_aliases(s),
    ensures
        forall|i: int|
            0 <= i < s.len() ==> #[trigger] entries_map(s).contains_key(s[i].0@)
                && entries_map(s)[s[i].0@] == (s[i].1@, s[i].2),
        forall|k: Seq<char>|
            #[trigger] entries_map(s).contains_key(k) ==> exists|i: int|
                0 <= i < s.len() && s[i].0@ == k,
        entries_map(s).dom().finite(),
        entries_map(s).dom().len() == s.len(),
    decreases s.len(),
{
    if s.len() > 0 {
        let t = s.drop_last();
        assert(distinct_aliases(t));
        lemma_entries_map_lookup(t);
        assert forall|k: Seq<char>| #[trigger] entries_map(s).contains_key(k) implies exists|i: int|
            0 <= i < s.len() && s[i].0@ == k by {
            if k != s.last().0@ {
                let i = choose|i: int| 0 <= i < t.len() && t[i].0@ == k;
                assert(s[i].0@ == k);
            } else {
                assert(s[s.len() - 1].0@ == k);
            }
        }
        assert(!entries_map(t).contains_key(s.last().0@)) by {
            if entries_map(t).contains_key(s.last().0@) {
                let i = choose|i: int| 0 <= i < t.len() && t[i].0@ == s.last().0@;
                assert(s[i].0@ == s[s.len() - 1].0@);
            }
        }
        assert forall|i: int| 0 <= i < s.len() implies #[trigger] entries_map(s).contains_key(
            s[i].0@,
        ) && entries_map(s)[s[i].0@] == (s[i].1@, s[i].2) by {
            if i < s.len() - 1 {
                assert(t[i] == s[i]);
                assert(s[i].0@ != s[s.len() - 1].0@);
            }
        }
    }
}

proof fn lemma_entries_map_update<A>(s: Seq<(String, String, A)>, i: int, e: (String, String, A))
    requires
        distinct_aliases(s),
        0 <= i < s.len(),
        s[i].0@ == e.0@,
    ensures
        distinct_aliases(s.update(i, e)),
        entries_map(s.update(i, e)) == entries_map(s).insert(e.0@, (e.1@, e.2)),
{
    let u = s.update(i, e);
    assert(distinct_aliases(u)) by {
        assert forall|a: int, b: int| 0 <= a < b < u.len() implies u[a].0@ != u[b].0@ by {
            assert(s[a].0@ != s[b].0@);
        }
    }
    lemma_entries_map_lookup(s);
    lemma_entries_map_lookup(u);
    assert(entries_map(u) =~= entries_map(s).insert(e.0@, (e.1@, e.2))) by {
        assert forall|k: Seq<char>| #[trigger] entries_map(u).contains_key(k) <==> entries_map(
            s,
        ).insert(e.0@, (e.1@, e.2)).contains_key(k) by {
            if entries_map(u).contains_key(k) {
                let j = choose|j: int| 0 <= j < u.len() && u[j].0@ == k;
                if j != i {
                    assert(s[j] == u[j]);
                }
            }
            if entries_map(s).contains_key(k) {
                let j = choose|j: int| 0 <= j < s.len() && s[j].0@ == k;
                if j != i {
                    assert(s[j] == u[j]);
                } else {
                    assert(u[i].0@ == k);
                }
            }
            if k == e.0@ {
                assert(u[i].0@ == k);
            }
        }
        assert forall|k: Seq<char>| #[trigger] entries_map(u).contains_key(k) implies entries_map(
            u,
        )[k] == entries_map(s).insert(e.0@, (e.1@, e.2))[k] by {
            let j = choose|j: int| 0 <= j < u.len() && u[j].0@ == k;
            if j != i {
                assert(s[j] == u[j]);
            }
        }
    }
}

proof fn lemma_entries_map_push<A>(s: Seq<(String, String, A)>, e: (String, String, A))
    requires
        distinct_aliases(s),
        !entries_map(s).contains_key(e.0@),
    ensures
        distinct_aliases(s.push(e)),
        entries_map(s.push(e)) == entries_map(s).insert(e.0@, (e.1@, e.2)),
{
    lemma_entries_map_lookup(s);
    let p = s.push(e);
    assert(p.drop_last() =~= s);
    assert forall|a: int, b: int| 0 <= a < b < p.len() implies p[a].0@ != p[b].0@ by {
        if b == s.len() {
            assert(entries_map(s).contains_key(s[a].0@));
        } else {
            assert(s[a].0@ != s[b].0@);
        }
    }
}

/// `hint` names alias `k` and action name `v.0`.
pub open spec fn hint_matches<A>(hint: CommandHint, k: Seq<char>, v: (Seq<char>, A)) -> bool {
    hint.alias@ == k && hint.action_name@ == v.0
}

/// Maps command-line aliases (stored lowercased) to application actions.
///
/// The aliases are kept in a list with no alias twice rather than in a
/// `HashMap`: vstd specifies `HashMap` only for keys whose hashing it models,
/// which `String` keys are not, so lookups in one could not be proved.
#[derive(Debug)]
pub struct CommandRegistry<A> {
    bindings: Vec<(String, String, A)>,
}

impl<A> View for CommandRegistry<A> {
    type V = Map<Seq<char>, (Seq<char>, A)>;

    closed spec fn view(&self) -> Map<Seq<char>, (Seq<char>, A)> {
        entries_map(self.bindings@)
    }
}

impl<A> CommandRegistry<A> {
    /// The stored aliases are distinct.
    pub closed spec fn wf(&self) -> bool {
        distinct_aliases(self.bindings@)
    }

    /// Checks [`wf`](Self::wf) at run time: no alias is bound twice.
    pub fn is_wf(&self) -> (r: bool)
        ensures
            r == self.wf(),
    {
        let mut i: usize = 0;
        while i < self.bindings.len()
            invariant
                i <= self.bindings@.len(),
                forall|p: int, q: int| 0 <= p < q < self.bindings@.len() && p < i ==> self.bindings@[p].0@
                    != self.bindings@[q].0@,
            decreases self.bindings@.len() - i,
        {
            let mut j: usize = i + 1;
            while j < self.bindings.len()
                invariant
                    i < j <= self.bindings@.len(),
                    forall|q: int| i < q < j ==> self.bindings@[i as int].0@ != self.bindings@[q].0@,
                decreases self.bindings@.len() - j,
            {
                if str_eq(self.bindings[i].0.as_str(), self.bindings[j].0.as_str()) {
                    return false;
                }
                j = j + 1;
            }
            i = i + 1;
        }
        true
    }

    pub fn new() -> (r: Self)
        ensures
            r.wf(),
            r@ == Map::<Seq<char>, (Seq<char>, A)>::empty(),
    {
        CommandRegistry { bindings: Vec::new() }
    }

    fn find(&self, key: &String) -> (r: Option<usize>)
        requires
            self.wf(),
        ensures
            match r {
                Some(i) => i < self.bindings@.len() && self.bindings@[i as int].0@ == key@,
                None => !self@.contains_key(key@),
            },
    {
        proof {
            lemma_entries_map_lookup(self.bindings@);
        }
        let mut i: usize = 0;
        while i < self.bindings.len()
            invariant
                i <= self.bindings@.len(),
                forall|j: int| 0 <= j < i ==> self.bindings@[j].0@ != key@,
            decreases self.bindings@.len() - i,
        {
            if self.bindings[i].0 == *key {
                return Some(i);
            }
            i = i + 1;
        }
        None
    }

    /// Bind `alias` (case-insensitively) to `action`, named `action_name`.
    /// Rebinding an alias replaces its previous action.
    pub fn bind(&mut self, action_name: &str, alias: &str, action: A)
        requires
            old(self).wf(),
        ensures
            final(self).wf(),
            final(self)@ == old(self)@.insert(unicode_lower(alias@), (action_name@, action)),
    {
        let key = to_lowercase(alias);
        let name = action_name.to_string();
        match self.find(&key) {
            Some(i) => {
                proof {
                    lemma_entries_map_update(self.bindings@, i as int, (key, name, action));
                }
                self.bindings.set(i, (key, name, action));
            },
            None => {
                proof {
                    lemma_entries_map_push(self.bindings@, (key, name, action));
                }
                self.bindings.push((key, name, action));
            },
        }
    }

    pub fn is_empty(&self) -> (r: bool)
        requires
            self.wf(),
        ensures
            r == (self@.dom().len() == 0),
    {
        proof {
            lemma_entries_map_lookup(self.bindings@);
        }
        self.bindings.len() == 0
    }

    /// The number of bound aliases.
    pub fn len(&self) -> (r: usize)
        requires
            self.wf(),
        ensures
            r == self@.dom().len(),
    {
        proof {
            lemma_entries_map_lookup(self.bindings@);
        }
        self.bindings.len()
    }

    /// Some bound alias strictly extends the (trimmed, lowercased) input.
    pub fn is_prefix(&self, input: &str) -> (r: bool)
        requires
            self.wf(),
        ensures
            r == (trim(input@).len() > 0 && exists|k: Seq<char>|
                #[trigger] self@.contains_key(k) && has_prefix(k, alias_key(input@)) && k
                    != alias_key(input@)),
    {
        if crate::text::is_blank(input) {
            return false;
        }
        let trimmed = trim_str(input);
        let key = to_lowercase(trimmed.as_str());
        let key_chars = crate::text::chars_of(key.as_str());
        proof {
            lemma_entries_map_lookup(self.bindings@);
        }
        let mut i: usize = 0;
        while i < self.bindings.len()
            invariant
                i <= self.bindings@.len(),
                self.wf(),
                trim(input@).len() > 0,
                key_chars@ == alias_key(input@),
                forall|j: int|
                    0 <= j < i ==> !(has_prefix(self.bindings@[j].0@, key_chars@)
                        && self.bindings@[j].0@ != key_chars@),
            decreases self.bindings@.len() - i,
        {
            let alias = crate::text::chars_of(self.bindings[i].0.as_str());
            if starts_with(alias.as_slice(), key_chars.as_slice()) && !crate::text::chars_eq(
                alias.as_slice(),
                key_chars.as_slice(),
            ) {
                proof {
                    lemma_entries_map_lookup(self.bindings@);
                }
                assert(self@.contains_key(self.bindings@[i as int].0@));
                return true;
            }
            i = i + 1;
        }
        assert forall|k: Seq<char>| #[trigger] self@.contains_key(k) implies !(has_prefix(
            k,
            alias_key(input@),
        ) && k != alias_key(input@)) by {
            let j = choose|j: int| 0 <= j < self.bindings@.len() && self.bindings@[j].0@ == k;
        }
        false
    }

    spec fn wanted(bindings: Seq<(String, String, A)>, key: Option<&[char]>, j: int) -> bool {
        key matches Some(p) ==> has_prefix(bindings[j].0@, p@) && bindings[j].0@ != p@
    }

    fn collect_hints(&self, key: Option<&[char]>) -> (r: Vec<CommandHint>)
        requires
            self.wf(),
        ensures
            forall|i: int|
                0 <= i < r@.len() ==> {
                    let k = (#[trigger] r@[i]).alias@;
                    &&& self@.contains_key(k)
                    &&& hint_matches(r@[i], k, self@[k])
                    &&& (key matches Some(p) ==> has_prefix(k, p@) && k != p@)
                },
            forall|k: Seq<char>|
                #[trigger] self@.contains_key(k) && (key matches Some(p) ==> has_prefix(k, p@) && k
                    != p@) ==> exists|i: int| 0 <= i < r@.len() && r@[i].alias@ == k,
            forall|i: int, j: int| 0 <= i < j < r@.len() ==> r@[i].alias@ != r@[j].alias@,
    {
        proof {
            lemma_entries_map_lookup(self.bindings@);
        }
        let mut out: Vec<CommandHint> = Vec::new();
        let ghost picked: Seq<int> = Seq::empty();
        let mut i: usize = 0;
        while i < self.bindings.len()
            invariant
                i <= self.bindings@.len(),
                distinct_aliases(self.bindings@),
                picked.len() == out@.len(),
                forall|a: int|
                    0 <= a < picked.len() ==> 0 <= #[trigger] picked[a] < i && out@[a].alias@
                        == self.bindings@[picked[a]].0@ && out@[a].action_name@
                        == self.bindings@[picked[a]].1@,
                forall|a: int, b: int| 0 <= a < b < picked.len() ==> picked[a] < picked[b],
                forall|a: int|
                    0 <= a < out@.len() ==> (key matches Some(p) ==> has_prefix(
                        (#[trigger] out@[a]).alias@,
                        p@,
                    ) && out@[a].alias@ != p@),
                forall|j: int|
                    0 <= j < i && #[trigger] Self::wanted(self.bindings@, key, j) ==> exists|a: int|
                        0 <= a < picked.len() && #[trigger] picked[a] == j,
            decreases self.bindings@.len() - i,
        {
            let ghost before = picked;
            let keep = match key {
                Some(p) => {
                    let alias = crate::text::chars_of(self.bindings[i].0.as_str());
                    starts_with(alias.as_slice(), p) && !crate::text::chars_eq(alias.as_slice(), p)
                },
                None => true,
            };
            if keep {
                let hint = CommandHint {
                    alias: self.bindings[i].0.clone(),
                    action_name: self.bindings[i].1.clone(),
                };
                out.push(hint);
                proof {
                    picked = picked.push(i as int);
                    assert(picked[picked.len() - 1] == i as int);
                }
            }
            proof {
                assert forall|j: int|
                    0 <= j < i + 1 && #[trigger] Self::wanted(self.bindings@, key, j) implies exists|a: int|
                        0 <= a < picked.len() && #[trigger] picked[a] == j by {
                    if j < i {
                        let a = choose|a: int| 0 <= a < before.len() && #[trigger] before[a] == j;
                        assert(picked[a] == j);
                    } else {
                        assert(picked[picked.len() - 1] == j);
                    }
                }
            }
            i = i + 1;
        }
        assert forall|a: int| 0 <= a < out@.len() implies {
            let k = (#[trigger] out@[a]).alias@;
            &&& self@.contains_key(k)
            &&& hint_matches(out@[a], k, self@[k])
        } by {
            let j = picked[a];
            assert(0 <= j < self.bindings@.len());
        }
        assert forall|k: Seq<char>|
            #[trigger] self@.contains_key(k) && (key matches Some(p) ==> has_prefix(k, p@) && k
                != p@) implies exists|a: int| 0 <= a < out@.len() && out@[a].alias@ == k by {
            let j = choose|j: int| 0 <= j < self.bindings@.len() && self.bindings@[j].0@ == k;
            assert(Self::wanted(self.bindings@, key, j));
            let a = choose|a: int| 0 <= a < picked.len() && #[trigger] picked[a] == j;
            assert(out@[a].alias@ == k);
        }
        assert forall|a: int, b: int| 0 <= a < b < out@.len() implies out@[a].alias@
            != out@[b].alias@ by {
            assert(picked[a] < picked[b]);
            assert(self.bindings@[picked[a]].0@ != self.bindings@[picked[b]].0@);
        }
        out
    }

    /// Every bound alias that strictly extends the (trimmed, lowercased)
    /// input, each once, with its action name.
    pub fn get_hints(&self, input: &str) -> (r: Vec<CommandHint>)
        requires
            self.wf(),
        ensures
            forall|i: int|
                0 <= i < r@.len() ==> {
                    let k = (#[trigger] r@[i]).alias@;
                    &&& self@.contains_key(k)
                    &&& hint_matches(r@[i], k, self@[k])
                    &&& has_prefix(k, alias_key(input@))
                    &&& k != alias_key(input@)
                },
            forall|k: Seq<char>|
                #[trigger] self@.contains_key(k) && has_prefix(k, alias_key(input@)) && k
                    != alias_key(input@) ==> exists|i: int| 0 <= i < r@.len() && r@[i].alias@ == k,
            forall|i: int, j: int| 0 <= i < j < r@.len() ==> r@[i].alias@ != r@[j].alias@,
    {
        let trimmed = trim_str(input);
        let key = to_lowercase(trimmed.as_str());
        let key_chars = crate::text::chars_of(key.as_str());
        self.collect_hints(Some(key_chars.as_slice()))
    }

    /// Every bound alias, each once, with its action name.
    pub fn all_commands(&self) -> (r: Vec<CommandHint>)
        requires
            self.wf(),
        ensures
            forall|i: int|
                0 <= i < r@.len() ==> {
                    let k = (#[trigger] r@[i]).alias@;
                    &&& self@.contains_key(k)
                    &&& hint_matches(r@[i], k, self@[k])
                },
            forall|k: Seq<char>|
                #[trigger] self@.contains_key(k) ==> exists|i: int|
                    0 <= i < r@.len() && r@[i].alias@ == k,
            forall|i: int, j: int| 0 <= i < j < r@.len() ==> r@[i].alias@ != r@[j].alias@,
    {
        self.collect_hints(None)
    }
}

impl<A: Clone> CommandRegistry<A> {
    /// Bind every alias in `aliases` to a copy of `action`.
    pub fn bind_aliases(&mut self, action_name: &str, aliases: &[&str], action: A)
        requires
            old(self).wf(),
        ensures
            final(self).wf(),
            forall|k: Seq<char>|
                #[trigger] final(self)@.contains_key(k) <==> (old(self)@.contains_key(k)
                    || exists|i: int| 0 <= i < aliases@.len() && unicode_lower(aliases@[i]@) == k),
            forall|i: int|
                0 <= i < aliases@.len() ==> {
                    let k = unicode_lower(#[trigger] aliases@[i]@);
                    final(self)@[k].0 == action_name@ && cloned(action, final(self)@[k].1)
                },
            forall|k: Seq<char>|
                #[trigger] old(self)@.contains_key(k) && !(exists|i: int|
                    0 <= i < aliases@.len() && unicode_lower(aliases@[i]@) == k) ==> final(self)@[k] == old(self)@[k],
    {
        let mut n: usize = 0;
        while n < aliases.len()
            invariant
                n <= aliases@.len(),
                self.wf(),
                forall|k: Seq<char>|
                    #[trigger] self@.contains_key(k) <==> (old(self)@.contains_key(k)
                        || exists|i: int| 0 <= i < n && unicode_lower(aliases@[i]@) == k),
                forall|i: int|
                    0 <= i < n ==> {
                        let k = unicode_lower(#[trigger] aliases@[i]@);
                        self@[k].0 == action_name@ && cloned(action, self@[k].1)
                    },
                forall|k: Seq<char>|
                    #[trigger] old(self)@.contains_key(k) && !(exists|i: int|
                        0 <= i < n && unicode_lower(aliases@[i]@) == k) ==> self@[k] == old(self)@[k],
            decreases aliases@.len() - n,
        {
            let copy = action.clone();
            let ghost before = self@;
            self.bind(action_name, aliases[n], copy);
            proof {
                assert forall|k: Seq<char>| #[trigger] self@.contains_key(k) <==> (old(self)@.contains_key(k) || exists|i: int|
                    0 <= i < n + 1 && unicode_lower(aliases@[i]@) == k) by {
                    if k == unicode_lower(aliases@[n as int]@) {
                        assert(0 <= n < n + 1 && unicode_lower(aliases@[n as int]@) == k);
                    }
                    if exists|i: int| 0 <= i < n + 1 && unicode_lower(aliases@[i]@) == k {
                        let i = choose|i: int| 0 <= i < n + 1 && unicode_lower(aliases@[i]@) == k;
                        if i < n {
                        }
                    }
                }
                assert forall|k: Seq<char>|
                    #[trigger] old(self)@.contains_key(k) && !(exists|i: int|
                        0 <= i < n + 1 && unicode_lower(aliases@[i]@) == k) implies self@[k] == old(self)@[k] by {
                    assert(k != unicode_lower(aliases@[n as int]@));
                    assert(!(exists|i: int| 0 <= i < n && unicode_lower(aliases@[i]@) == k)) by {
                        if exists|i: int| 0 <= i < n && unicode_lower(aliases@[i]@) == k {
                            let i = choose|i: int| 0 <= i < n && unicode_lower(aliases@[i]@) == k;
                            assert(0 <= i < n + 1);
                        }
                    }
                }
            }
            n = n + 1;
        }
    }

    /// The action bound to the (trimmed, lowercased) input, if any.
    pub fn match_action(&self, input: &str) -> (r: Option<A>)
        requires
            self.wf(),
        ensures
            match r {
                Some(a) => self@.contains_key(alias_key(input@)) && cloned(
                    self@[alias_key(input@)].1,
                    a,
                ),
                None => !self@.contains_key(alias_key(input@)),
            },
    {
        let trimmed = trim_str(input);
        let key = to_lowercase(trimmed.as_str());
        match self.find(&key) {
            Some(i) => {
                proof {
                    lemma_entries_map_lookup(self.bindings@);
                }
                let a = self.bindings[i].2.clone();
                assert(self@.contains_key(self.bindings@[i as int].0@));
                assert(key@ == alias_key(input@));
                assert(self.bindings@[i as int].2 == self@[alias_key(input@)].1);
                Some(a)
            },
            None => None,
        }
    }
}

impl<A> Default for CommandRegistry<A> {
    fn default() -> (r: Self)
        ensures
            r.wf(),
            r@ == Map::<Seq<char>, (Seq<char>, A)>::empty(),
    {
        Self::new()
    }
}

} // verus!
