//! Writing the user and runtime binding layers back as a keymap document.
use vstd::prelude::*;
use vstd::std_specs::cmp::PartialEqSpec;
use crate::input::key::chord_text;
use crate::input::{BindableActionInfo, BindingInfo, KeyChord};
use crate::keybindings::action_registry::{first_with_action, ActionRegistry};
use crate::keybindings::config::{keymap_of_root, raw_bindings, raw_sections, KeybindingConfigError, RawSectionModel};
use crate::keybindings::preset::IssueModel;
use crate::keybindings::store::BindingStore;
use crate::keybindings::toml_value::{
    entries_model, items_model, lemma_entries_model, lemma_items_model, sectioned_string_arrays,
    string_array, string_arrays_table, string_list, table_get, toml_model, TomlModel, TomlValue,
};
use crate::text::{chars_of, str_eq, string_from_chars, strings_view};

verus! {

/// The text of a chord sequence in a keymap: the chords' texts, separated by
/// single spaces.
pub open spec fn keys_text(s: Seq<KeyChord>) -> Seq<char>
    decreases s.len(),
{
    if s.len() == 0 {
        Seq::empty()
    } else if s.len() == 1 {
        chord_text(s[0])
    } else {
        keys_text(s.drop_last()) + seq![' '] + chord_text(s.last())
    }
}

/// The name the registry gives action `a`: its first entry's.
pub open spec fn name_for<A: PartialEq>(entries: Seq<BindableActionInfo<A>>, a: A) -> Option<Seq<char>> {
    match first_with_action(entries, a) {
        Some(i) => Some(entries[i].name@),
        None => None,
    }
}

/// A runtime binding of action name `name` in mode `mode` exists.
pub open spec fn runtime_owns<A: PartialEq>(
    entries: Seq<BindableActionInfo<A>>,
    runtime: Seq<BindingInfo<A>>,
    mode: Seq<char>,
    name: Seq<char>,
) -> bool {
    exists|i: int|
        0 <= i < runtime.len() && runtime[i].mode@ == mode && #[trigger] name_for(
            entries,
            runtime[i].action,
        ) == Some(name)
}

/// One exported binding: `(mode, action name, keys text)`.
pub open spec fn export_entry<A: PartialEq>(entries: Seq<BindableActionInfo<A>>, b: BindingInfo<A>) -> (
    Seq<char>,
    Seq<char>,
    Seq<char>,
) {
    (b.mode@, name_for(entries, b.action)->Some_0, keys_text(b.sequence@))
}

/// The bindings exported, in order: every runtime binding whose action has
/// a name, then every user binding whose action has a name that no runtime
/// binding in its mode has.
pub open spec fn exported_entries<A: PartialEq>(
    entries: Seq<BindableActionInfo<A>>,
    user: Seq<BindingInfo<A>>,
    runtime: Seq<BindingInfo<A>>,
) -> Seq<(Seq<char>, Seq<char>, Seq<char>)> {
    runtime.filter(|b: BindingInfo<A>| name_for(entries, b.action) is Some).map_values(
        |b: BindingInfo<A>| export_entry(entries, b),
    ) + user.filter(
        |b: BindingInfo<A>|
            name_for(entries, b.action) is Some && !runtime_owns(
                entries,
                runtime,
                b.mode@,
                name_for(entries, b.action)->Some_0,
            ),
    ).map_values(|b: BindingInfo<A>| export_entry(entries, b))
}

/// Bindings grouped by mode, then by action name, each group in the order
/// it was first met.
pub type Grouped = Seq<(Seq<char>, Seq<(Seq<char>, Seq<Seq<char>>)>)>;

/// The index of the first pair with key `k`.
pub open spec fn index_of_key<V>(s: Seq<(Seq<char>, V)>, k: Seq<char>) -> Option<int>
    decreases s.len(),
{
    if s.len() == 0 {
        None
    } else if s[0].0 == k {
        Some(0)
    } else {
        match index_of_key(s.drop_first(), k) {
            Some(i) => Some(i + 1),
            None => None,
        }
    }
}

/// `keys` added to the group of `name`, which is created when absent.
pub open spec fn add_to_name(
    ns: Seq<(Seq<char>, Seq<Seq<char>>)>,
    name: Seq<char>,
    keys: Seq<char>,
) -> Seq<(Seq<char>, Seq<Seq<char>>)> {
    match index_of_key(ns, name) {
        Some(j) => ns.update(j, (name, ns[j].1.push(keys))),
        None => ns.push((name, seq![keys])),
    }
}

pub open spec fn add_entry(g: Grouped, e: (Seq<char>, Seq<char>, Seq<char>)) -> Grouped {
    match index_of_key(g, e.0) {
        Some(i) => g.update(i, (e.0, add_to_name(g[i].1, e.1, e.2))),
        None => g.push((e.0, seq![(e.1, seq![e.2])])),
    }
}

pub open spec fn grouped(es: Seq<(Seq<char>, Seq<char>, Seq<char>)>) -> Grouped
    decreases es.len(),
{
    if es.len() == 0 {
        Seq::empty()
    } else {
        add_entry(grouped(es.drop_last()), es.last())
    }
}

/// Grouping one more entry adds it to the grouping of the entries before it.
pub proof fn lemma_grouped_push(es: Seq<(Seq<char>, Seq<char>, Seq<char>)>, e: (Seq<char>, Seq<char>, Seq<char>))
    ensures
        grouped(es.push(e)) == add_entry(grouped(es), e),
{
    assert(es.push(e).drop_last() =~= es);
}

/// One action's entry in a mode table: its name and the array of its keys.
pub open spec fn name_entry(n: (Seq<char>, Seq<Seq<char>>)) -> (Seq<char>, TomlModel) {
    (n.0, TomlModel::Array(n.1.map_values(|t: Seq<char>| TomlModel::Str(t))))
}

/// One mode's table in the document.
pub open spec fn mode_entry(m: (Seq<char>, Seq<(Seq<char>, Seq<Seq<char>>)>)) -> (Seq<char>, TomlModel) {
    (m.0, TomlModel::Table(m.1.map_values(|n: (Seq<char>, Seq<Seq<char>>)| name_entry(n))))
}

/// The keymap document: one table per mode, holding for each action name
/// the array of its keys.
pub open spec fn export_doc(g: Grouped) -> TomlModel {
    TomlModel::Table(g.map_values(|m: (Seq<char>, Seq<(Seq<char>, Seq<Seq<char>>)>)| mode_entry(m)))
}

/// The keymap document is a table of tables of string arrays.
pub proof fn lemma_export_doc_shape(g: Grouped)
    ensures
        sectioned_string_arrays(export_doc(g)),
{
    let es = export_doc(g)->Table_0;
    assert forall|i: int| 0 <= i < es.len() implies string_arrays_table(#[trigger] es[i].1) by {
        let ns = g[i].1.map_values(|n: (Seq<char>, Seq<Seq<char>>)| name_entry(n));
        assert(es[i].1 == TomlModel::Table(ns));
        assert forall|j: int| 0 <= j < ns.len() implies string_array(#[trigger] ns[j].1) by {
            let items = g[i].1[j].1.map_values(|t: Seq<char>| TomlModel::Str(t));
            assert(ns[j].1 == TomlModel::Array(items));
            assert forall|q: int| 0 <= q < items.len() implies #[trigger] items[q] is Str by {
                assert(items[q] == TomlModel::Str(g[i].1[j].1[q]));
            }
        }
    }
}

/// The groups as plain values.
pub open spec fn group_view(g: Seq<(String, Vec<(String, Vec<String>)>)>) -> Grouped {
    g.map_values(
        |m: (String, Vec<(String, Vec<String>)>)|
            (
                m.0@,
                m.1@.map_values(|n: (String, Vec<String>)| (n.0@, strings_view(n.1@))),
            ),
    )
}

pub open spec fn keys_of<V>(s: Seq<(String, V)>) -> Seq<(Seq<char>, ())> {
    s.map_values(|e: (String, V)| (e.0@, ()))
}

proof fn lemma_index_of_key_keys<V, W>(a: Seq<(Seq<char>, V)>, b: Seq<(Seq<char>, W)>, k: Seq<char>)
    requires
        a.len() == b.len(),
        forall|i: int| 0 <= i < a.len() ==> #[trigger] a[i].0 == b[i].0,
    ensures
        index_of_key(a, k) == index_of_key(b, k),
    decreases a.len(),
{
    if a.len() > 0 {
        assert(a[0].0 == b[0].0);
        lemma_index_of_key_keys(a.drop_first(), b.drop_first(), k);
    }
}

proof fn lemma_index_of_key_bound<V>(s: Seq<(Seq<char>, V)>, k: Seq<char>)
    ensures
        index_of_key(s, k) matches Some(i) ==> 0 <= i < s.len() && s[i].0 == k,
    decreases s.len(),
{
    if s.len() > 0 {
        lemma_index_of_key_bound(s.drop_first(), k);
    }
}

pub(crate) fn find_key<V>(s: &Vec<(String, V)>, k: &str) -> (r: Option<usize>)
    ensures
        match r {
            Some(i) => index_of_key(keys_of(s@), k@) == Some(i as int),
            None => index_of_key(keys_of(s@), k@) is None,
        },
{
    let ghost ks = keys_of(s@);
    let mut i: usize = 0;
    assert(ks.skip(0) =~= ks);
    while i < s.len()
        invariant
            i <= s@.len(),
            ks == keys_of(s@),
            match index_of_key(ks, k@) {
                Some(m) => match index_of_key(ks.skip(i as int), k@) {
                    Some(n) => m == n + i,
                    None => false,
                },
                None => index_of_key(ks.skip(i as int), k@) is None,
            },
        decreases s@.len() - i,
    {
        assert(ks.skip(i as int)[0] == ks[i as int]);
        assert(ks.skip(i as int).drop_first() =~= ks.skip(i + 1));
        if str_eq(s[i].0.as_str(), k) {
            return Some(i);
        }
        i = i + 1;
    }
    None
}

pub(crate) fn add_exported(groups: &mut Vec<(String, Vec<(String, Vec<String>)>)>, mode: String, name: String, keys: String)
    ensures
        group_view(final(groups)@) == add_entry(group_view(old(groups)@), (mode@, name@, keys@)),
{
    let ghost gv = group_view(groups@);
    proof {
        lemma_index_of_key_keys(keys_of(groups@), gv, mode@);
        lemma_index_of_key_bound(gv, mode@);
    }
    match find_key(groups, mode.as_str()) {
        Some(i) => {
            assert(index_of_key(gv, mode@) == Some(i as int));
            assert(gv[i as int].0 == mode@);
            let ghost groups0 = groups@;
            let (m, mut names) = groups.remove(i);
            let ghost nv = names@.map_values(|n: (String, Vec<String>)| (n.0@, strings_view(n.1@)));
            assert(gv[i as int] == (m@, nv));
            proof {
                lemma_index_of_key_keys(keys_of(names@), nv, name@);
                lemma_index_of_key_bound(nv, name@);
            }
            match find_key(&names, name.as_str()) {
                Some(j) => {
                    assert(index_of_key(nv, name@) == Some(j as int));
                    assert(nv[j as int].0 == name@);
                    let ghost names0 = names@;
                    let (n, mut ks) = names.remove(j);
                    let ghost kv = strings_view(ks@);
                    assert(nv[j as int] == (n@, kv));
                    ks.push(keys);
                    assert(strings_view(ks@) =~= kv.push(keys@));
                    let ghost entry = (n, ks);
                    names.insert(j, (n, ks));
                    assert(names@ =~= names0.update(j as int, entry));
                    assert(names@.map_values(|n: (String, Vec<String>)| (n.0@, strings_view(n.1@)))
                        =~= nv.update(j as int, (name@, kv.push(keys@))));
                    assert(n@ == name@);
                },
                None => {
                    let mut ks: Vec<String> = Vec::new();
                    ks.push(keys);
                    assert(strings_view(ks@) =~= seq![keys@]);
                    names.push((name, ks));
                    assert(names@.map_values(|n: (String, Vec<String>)| (n.0@, strings_view(n.1@)))
                        =~= nv.push((name@, seq![keys@])));
                },
            }
            let ghost names_view = names@.map_values(
                |n: (String, Vec<String>)| (n.0@, strings_view(n.1@)),
            );
            assert(names_view == add_to_name(nv, name@, keys@));
            assert(m@ == mode@);
            let ghost entry = (m, names);
            groups.insert(i, (m, names));
            assert(groups@ =~= groups0.update(i as int, entry));
            assert(group_view(groups@) =~= gv.update(i as int, (mode@, names_view)));
        },
        None => {
            let mut ks: Vec<String> = Vec::new();
            ks.push(keys);
            assert(strings_view(ks@) =~= seq![keys@]);
            let mut names: Vec<(String, Vec<String>)> = Vec::new();
            names.push((name, ks));
            assert(names@.map_values(|n: (String, Vec<String>)| (n.0@, strings_view(n.1@))) =~= seq![
                (name@, seq![keys@]),
            ]);
            groups.push((mode, names));
            assert(group_view(groups@) =~= gv.push((mode@, seq![(name@, seq![keys@])])));
        },
    }
}


/// The text of a chord sequence as a keymap writes it.
pub(crate) fn keys_string(keys: &[KeyChord]) -> (r: String)
    ensures
        r@ == keys_text(keys@),
{
    let mut out: Vec<char> = Vec::new();
    let mut i: usize = 0;
    while i < keys.len()
        invariant
            i <= keys@.len(),
            out@ == keys_text(keys@.take(i as int)),
        decreases keys@.len() - i,
    {
        let ghost before = out@;
        if i > 0 {
            out.push(' ');
        }
        let ghost mid = out@;
        let text = keys[i].display_string();
        let tc = chars_of(text.as_str());
        let mut k: usize = 0;
        while k < tc.len()
            invariant
                k <= tc@.len(),
                out@ == mid + tc@.take(k as int),
            decreases tc@.len() - k,
        {
            out.push(tc[k]);
            k = k + 1;
            assert(out@ =~= mid + tc@.take(k as int));
        }
        proof {
            assert(tc@.take(tc@.len() as int) =~= tc@);
            let t1 = keys@.take(i + 1);
            assert(t1.drop_last() =~= keys@.take(i as int));
            assert(t1.last() == keys@[i as int]);
            if i == 0 {
                assert(t1[0] == keys@[0]);
                assert(out@ =~= chord_text(keys@[0]));
            } else {
                assert(out@ =~= before + seq![' '] + chord_text(keys@[i as int]));
            }
        }
        i = i + 1;
    }
    assert(keys@.take(keys@.len() as int) =~= keys@);
    string_from_chars(out.as_slice())
}

/// The keymap document of the groups.
pub(crate) fn document_of(groups: &Vec<(String, Vec<(String, Vec<String>)>)>) -> (r: TomlValue)
    ensures
        r@ == export_doc(group_view(groups@)),
{
    let ghost g = group_view(groups@);
    let mut sections: Vec<(String, TomlValue)> = Vec::new();
    let mut i: usize = 0;
    while i < groups.len()
        invariant
            i <= groups@.len(),
            g == group_view(groups@),
            sections@.len() == i,
            forall|q: int| 0 <= q < i ==> (#[trigger] sections@[q]).0@ == export_doc(g)->Table_0[q].0
                && toml_model(sections@[q].1) == export_doc(g)->Table_0[q].1,
        decreases groups@.len() - i,
    {
        let names = &groups[i].1;
        let ghost nv = g[i as int].1;
        let mut entries: Vec<(String, TomlValue)> = Vec::new();
        let mut j: usize = 0;
        while j < names.len()
            invariant
                j <= names@.len(),
                i < groups@.len(),
                *names == groups@[i as int].1,
                g == group_view(groups@),
                nv == g[i as int].1,
                entries@.len() == j,
                forall|q: int| 0 <= q < j ==> (#[trigger] entries@[q]).0@ == nv[q].0 && toml_model(
                    entries@[q].1,
                ) == TomlModel::Array(nv[q].1.map_values(|t: Seq<char>| TomlModel::Str(t))),
            decreases names@.len() - j,
        {
            let keys = &names[j].1;
            let mut items: Vec<TomlValue> = Vec::new();
            let mut k: usize = 0;
            while k < keys.len()
                invariant
                    k <= keys@.len(),
                    j < names@.len(),
                    *keys == names@[j as int].1,
                    items@.len() == k,
                    forall|q: int| 0 <= q < k ==> toml_model(#[trigger] items@[q]) == TomlModel::Str(
                        keys@[q]@,
                    ),
                decreases keys@.len() - k,
            {
                items.push(TomlValue::Str(keys[k].clone()));
                k = k + 1;
            }
            let ghost iv = items@;
            let value = TomlValue::Array(items);
            proof {
                lemma_items_model(iv);
                assert(items_model(iv) =~= strings_view(keys@).map_values(|t: Seq<char>| TomlModel::Str(t)));
            }
            entries.push((names[j].0.clone(), value));
            j = j + 1;
        }
        let ghost ev = entries@;
        let table = TomlValue::Table(entries);
        proof {
            lemma_entries_model(ev);
            assert(entries_model(ev) =~= nv.map_values(|n: (Seq<char>, Seq<Seq<char>>)| name_entry(n)));
            assert(mode_entry(g[i as int]).1 == TomlModel::Table(entries_model(ev)));
        }
        sections.push((groups[i].0.clone(), table));
        i = i + 1;
    }
    let ghost sv = sections@;
    let r = TomlValue::Table(sections);
    proof {
        lemma_entries_model(sv);
        assert(entries_model(sv) =~= export_doc(g)->Table_0);
    }
    r
}


/// Each mode's section as the configuration reads it: named after the mode,
/// set to that mode, binding each action name to its keys.
pub open spec fn grouped_sections(g: Grouped) -> Seq<RawSectionModel> {
    g.map_values(|m: (Seq<char>, Seq<(Seq<char>, Seq<Seq<char>>)>)| (m.0, m.0, m.1))
}

/// No mode is named `keymap` or `canvas`, no action is named `mode`, and
/// every action has keys.
pub open spec fn plain_groups(g: Grouped) -> bool {
    forall|i: int|
        0 <= i < g.len() ==> #[trigger] g[i].0 != "keymap"@ && g[i].0 != "canvas"@ && plain_names(
            g[i].1,
        )
}

pub open spec fn plain_names(ns: Seq<(Seq<char>, Seq<Seq<char>>)>) -> bool {
    forall|j: int| 0 <= j < ns.len() ==> #[trigger] ns[j].0 != "mode"@ && ns[j].1.len() > 0
}

/// No exported binding is in a mode named `keymap` or `canvas`, or has an
/// action named `mode`.
pub open spec fn plain_entries(es: Seq<(Seq<char>, Seq<char>, Seq<char>)>) -> bool {
    forall|k: int|
        0 <= k < es.len() ==> #[trigger] es[k].0 != "keymap"@ && es[k].0 != "canvas"@ && es[k].1
            != "mode"@
}

#[verifier::spinoff_prover]
proof fn lemma_name_entries_read_back(section: Seq<char>, ns: Seq<(Seq<char>, Seq<Seq<char>>)>)
    requires
        plain_names(ns),
    ensures
        raw_bindings(section, ns.map_values(|n: (Seq<char>, Seq<Seq<char>>)| name_entry(n)))
            == (ns, Seq::<IssueModel>::empty()),
        table_get(ns.map_values(|n: (Seq<char>, Seq<Seq<char>>)| name_entry(n)), "mode"@) is None,
    decreases ns.len(),
{
    let es = ns.map_values(|n: (Seq<char>, Seq<Seq<char>>)| name_entry(n));
    if ns.len() > 0 {
        let rest = ns.drop_first();
        assert(es.drop_first() =~= rest.map_values(|n: (Seq<char>, Seq<Seq<char>>)| name_entry(n)));
        assert forall|j: int| 0 <= j < rest.len() implies #[trigger] rest[j].0 != "mode"@
            && rest[j].1.len() > 0 by {
            assert(rest[j] == ns[j + 1]);
            assert(0 <= j + 1 < ns.len());
            assert(ns[j + 1].0 != "mode"@ && ns[j + 1].1.len() > 0);
        }
        lemma_name_entries_read_back(section, rest);
        assert(ns[0].0 != "mode"@ && ns[0].1.len() > 0);
        let keys = ns[0].1;
        let items = keys.map_values(|t: Seq<char>| TomlModel::Str(t));
        assert(items.map_values(|x: TomlModel| x->Str_0) =~= keys);
        assert(string_list(es[0].1) == Some(keys));
        assert(seq![(ns[0].0, keys)] + rest =~= ns);
    }
}

#[verifier::spinoff_prover]
proof fn lemma_mode_entries_read_back(g: Grouped)
    requires
        plain_groups(g),
    ensures
        raw_sections(g.map_values(|m: (Seq<char>, Seq<(Seq<char>, Seq<Seq<char>>)>)| mode_entry(m)), true)
            == (grouped_sections(g), Seq::<IssueModel>::empty()),
        table_get(
            g.map_values(|m: (Seq<char>, Seq<(Seq<char>, Seq<Seq<char>>)>)| mode_entry(m)),
            "keymap"@,
        ) is None,
    decreases g.len(),
{
    let es = g.map_values(|m: (Seq<char>, Seq<(Seq<char>, Seq<Seq<char>>)>)| mode_entry(m));
    if g.len() > 0 {
        let rest = g.drop_first();
        assert(es.drop_first() =~= rest.map_values(
            |m: (Seq<char>, Seq<(Seq<char>, Seq<Seq<char>>)>)| mode_entry(m),
        ));
        assert forall|i: int| 0 <= i < rest.len() implies #[trigger] rest[i].0 != "keymap"@
            && rest[i].0 != "canvas"@ && plain_names(rest[i].1) by {
            assert(rest[i] == g[i + 1]);
            assert(0 <= i + 1 < g.len());
            assert(g[i + 1].0 != "keymap"@ && g[i + 1].0 != "canvas"@ && plain_names(g[i + 1].1));
        }
        lemma_mode_entries_read_back(rest);
        assert(g[0].0 != "keymap"@ && g[0].0 != "canvas"@ && plain_names(g[0].1));
        lemma_name_entries_read_back(g[0].0, g[0].1);
        assert(grouped_sections(rest) =~= grouped_sections(g).drop_first());
        assert(seq![(g[0].0, g[0].0, g[0].1)] + grouped_sections(rest) =~= grouped_sections(g));
    } else {
        assert(grouped_sections(g) =~= Seq::empty());
    }
}

#[verifier::spinoff_prover]
proof fn lemma_add_entry_plain(g: Grouped, e: (Seq<char>, Seq<char>, Seq<char>))
    requires
        plain_groups(g),
        e.0 != "keymap"@ && e.0 != "canvas"@ && e.1 != "mode"@,
    ensures
        plain_groups(add_entry(g, e)),
{
    lemma_index_of_key_bound(g, e.0);
    match index_of_key(g, e.0) {
        Some(i) => {
            let ns = g[i].1;
            lemma_index_of_key_bound(ns, e.1);
            let ns2 = add_to_name(ns, e.1, e.2);
            assert(plain_names(ns2)) by {
                match index_of_key(ns, e.1) {
                    Some(j) => {
                        assert forall|q: int| 0 <= q < ns2.len() implies #[trigger] ns2[q].0
                            != "mode"@ && ns2[q].1.len() > 0 by {
                            if q != j {
                                assert(ns2[q] == ns[q]);
                            }
                        }
                    },
                    None => {
                        assert forall|q: int| 0 <= q < ns2.len() implies #[trigger] ns2[q].0
                            != "mode"@ && ns2[q].1.len() > 0 by {
                            if q < ns.len() {
                                assert(ns2[q] == ns[q]);
                            }
                        }
                    },
                }
            }
            let g2 = add_entry(g, e);
            assert forall|q: int| 0 <= q < g2.len() implies #[trigger] g2[q].0 != "keymap"@
                && g2[q].0 != "canvas"@ && plain_names(g2[q].1) by {
                if q != i {
                    assert(g2[q] == g[q]);
                }
            }
        },
        None => {
            let g2 = add_entry(g, e);
            assert forall|q: int| 0 <= q < g2.len() implies #[trigger] g2[q].0 != "keymap"@
                && g2[q].0 != "canvas"@ && plain_names(g2[q].1) by {
                if q < g.len() {
                    assert(g2[q] == g[q]);
                } else {
                    let ns: Seq<(Seq<char>, Seq<Seq<char>>)> = seq![(e.1, seq![e.2])];
                    assert(g2[q].1 == ns);
                    assert forall|j: int| 0 <= j < ns.len() implies #[trigger] ns[j].0 != "mode"@
                        && ns[j].1.len() > 0 by {
                        assert(ns[j] == (e.1, seq![e.2]));
                    }
                }
            }
        },
    }
}

proof fn lemma_grouped_plain(es: Seq<(Seq<char>, Seq<char>, Seq<char>)>)
    requires
        plain_entries(es),
    ensures
        plain_groups(grouped(es)),
    decreases es.len(),
{
    if es.len() > 0 {
        let init = es.drop_last();
        assert forall|k: int| 0 <= k < init.len() implies #[trigger] init[k].0 != "keymap"@
            && init[k].0 != "canvas"@ && init[k].1 != "mode"@ by {
            assert(init[k] == es[k]);
            assert(es[k].0 != "keymap"@ && es[k].0 != "canvas"@ && es[k].1 != "mode"@);
        }
        lemma_grouped_plain(init);
        assert(es.last() == es[es.len() - 1]);
        lemma_add_entry_plain(grouped(init), es.last());
    }
}

/// What the export writes reads back as the keymap it groups: parsed as a
/// configuration, the exported document gives one section per mode, named
/// after and set to that mode, binding each action name to the keys written
/// for it, with no issues. This holds when no exported mode is named
/// `keymap` or `canvas` and no exported action is named `mode`.
pub proof fn lemma_export_reads_back<A: PartialEq>(
    entries: Seq<BindableActionInfo<A>>,
    user: Seq<BindingInfo<A>>,
    runtime: Seq<BindingInfo<A>>,
)
    requires
        plain_entries(exported_entries(entries, user, runtime)),
    ensures
        keymap_of_root(export_doc(grouped(exported_entries(entries, user, runtime)))->Table_0) == (
            grouped_sections(grouped(exported_entries(entries, user, runtime))),
            Seq::<IssueModel>::empty(),
        ),
{
    let g = grouped(exported_entries(entries, user, runtime));
    lemma_grouped_plain(exported_entries(entries, user, runtime));
    lemma_mode_entries_read_back(g);
    assert(Seq::<RawSectionModel>::empty() + grouped_sections(g) =~= grouped_sections(g));
    assert(Seq::<IssueModel>::empty() + Seq::<IssueModel>::empty() =~= Seq::<IssueModel>::empty());
}

} // verus!
