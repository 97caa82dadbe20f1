use vstd::prelude::*;
use crate::text::{
    chars_from, chars_of, contains_str, is_whitespace, is_ws, opt_str_view, opt_string_view,
    split_whitespace_strings, starts_with_char, str_eq, string_from_chars, strings_view,
    strs_view, words,
};

verus! {

/// Whether a command takes an argument token after its name.
#[derive(Debug, Clone, Copy, PartialEq, Eq, Structural)]
pub enum PickerCommandArgument {
    NoArgument,
    Required,
}

/// A clause as plain values: `(command, argument, selection query terms)`.
pub type ClauseModel = (Option<Seq<char>>, Option<Seq<char>>, Seq<Seq<char>>);

/// A command spec as plain values: `(name, aliases, argument kind)`.
pub type SpecModel = (Seq<char>, Seq<Seq<char>>, PickerCommandArgument);

/// A parsed picker query: its whitespace-separated tokens, the clauses they
/// group into, and whether the raw text ended in whitespace.
#[derive(Debug, Clone)]
pub struct PickerCommandQuery {
    tokens: Vec<String>,
    clauses: Vec<PickerCommandClause>,
    ends_with_whitespace: bool,
}

/// One clause: an optional `%command`, its optional argument, and the plain
/// terms that follow.
#[derive(Debug, Clone)]
pub struct PickerCommandClause {
    command: Option<String>,
    argument: Option<String>,
    selection_query: Vec<String>,
}

/// A known command: its name, aliases, and whether it takes an argument.
#[derive(Debug, Clone)]
pub struct PickerCommandSpec {
    name: String,
    aliases: Vec<String>,
    argument: PickerCommandArgument,
}

/// The token starts with `%`.
pub open spec fn is_pct(t: Seq<char>) -> bool {
    t.len() > 0 && t[0] == '%'
}

/// The token names a command: `%` followed by at least one character.
pub open spec fn is_command_token(t: Seq<char>) -> bool {
    is_pct(t) && t.len() > 1
}

/// The first index at or after `i` whose token starts with `%`, or the
/// number of tokens if there is none.
pub open spec fn run_end(tokens: Seq<Seq<char>>, i: int) -> int
    decreases tokens.len() - i,
{
    if i >= tokens.len() || is_pct(tokens[i]) {
        i
    } else {
        run_end(tokens, i + 1)
    }
}

pub proof fn lemma_run_end(tokens: Seq<Seq<char>>, i: int)
    requires
        0 <= i <= tokens.len(),
    ensures
        i <= run_end(tokens, i) <= tokens.len(),
        forall|j: int| i <= j < run_end(tokens, i) ==> !is_pct(#[trigger] tokens[j]),
        run_end(tokens, i) < tokens.len() ==> is_pct(tokens[run_end(tokens, i)]),
    decreases tokens.len() - i,
{
    if i < tokens.len() && !is_pct(tokens[i]) {
        lemma_run_end(tokens, i + 1);
    }
}

/// The spec matches the command by name or alias.
pub open spec fn spec_matches(spec: SpecModel, command: Seq<char>) -> bool {
    spec.0 == command || spec.1.contains(command)
}

/// The first spec that matches the command requires an argument.
pub open spec fn argument_required(specs: Seq<SpecModel>, command: Seq<char>) -> bool
    decreases specs.len(),
{
    if specs.len() == 0 {
        false
    } else if spec_matches(specs[0], command) {
        specs[0].2 == PickerCommandArgument::Required
    } else {
        argument_required(specs.drop_first(), command)
    }
}

/// The clauses that the tokens from index `i` on form.
///
/// A `%command` token opens a command clause; when its spec requires an
/// argument and the next token does not start with `%`, that token is the
/// argument; the plain tokens up to the next `%` token are its selection
/// query. A lone `%` is a plain clause of its own. A run of plain tokens is a
/// plain clause.
pub open spec fn clauses_from(tokens: Seq<Seq<char>>, specs: Seq<SpecModel>, i: int) -> Seq<
    ClauseModel,
>
    decreases tokens.len() - i,
{
    if i < 0 || i >= tokens.len() {
        Seq::empty()
    } else {
        let t = tokens[i];
        if is_command_token(t) {
            let c = t.drop_first();
            let has_arg = argument_required(specs, c) && i + 1 < tokens.len() && !is_pct(
                tokens[i + 1],
            );
            let k = if has_arg {
                i + 2
            } else {
                i + 1
            };
            proof {
                lemma_run_end(tokens, k);
            }
            let e = run_end(tokens, k);
            let arg = if has_arg {
                Some(tokens[i + 1])
            } else {
                None
            };
            seq![(Some(c), arg, tokens.subrange(k, e))] + clauses_from(tokens, specs, e)
        } else if is_pct(t) {
            seq![(None, None, seq![t])] + clauses_from(tokens, specs, i + 1)
        } else {
            proof {
                lemma_run_end(tokens, i);
            }
            let e = run_end(tokens, i);
            seq![(None, None, tokens.subrange(i, e))] + clauses_from(tokens, specs, e)
        }
    }
}

/// The clauses of a query text under the given command specs.
pub open spec fn parse_clauses(query: Seq<char>, specs: Seq<SpecModel>) -> Seq<ClauseModel> {
    clauses_from(words(query), specs, 0)
}

/// The clause's command is one of `names`.
pub open spec fn clause_is_command(c: ClauseModel, names: Seq<Seq<char>>) -> bool {
    c.0 matches Some(cmd) && names.contains(cmd)
}

/// The argument of the first clause whose command is one of `names`.
pub open spec fn first_command_argument(clauses: Seq<ClauseModel>, names: Seq<Seq<char>>) -> Option<
    Seq<char>,
>
    decreases clauses.len(),
{
    if clauses.len() == 0 {
        None
    } else if clause_is_command(clauses[0], names) {
        clauses[0].1
    } else {
        first_command_argument(clauses.drop_first(), names)
    }
}

/// The terms joined with single spaces.
pub open spec fn join_spaced(terms: Seq<Seq<char>>) -> Seq<char>
    decreases terms.len(),
{
    if terms.len() == 0 {
        Seq::empty()
    } else if terms.len() == 1 {
        terms[0]
    } else {
        join_spaced(terms.drop_last()) + seq![' '] + terms.last()
    }
}

/// The models of a sequence of clauses.
pub open spec fn clause_models(s: Seq<PickerCommandClause>) -> Seq<ClauseModel> {
    s.map_values(|c: PickerCommandClause| c@)
}

/// The models of a sequence of specs.
pub open spec fn spec_models(s: Seq<PickerCommandSpec>) -> Seq<SpecModel> {
    s.map_values(|c: PickerCommandSpec| c@)
}

impl View for PickerCommandClause {
    type V = ClauseModel;

    closed spec fn view(&self) -> ClauseModel {
        (
            opt_string_view(self.command),
            opt_string_view(self.argument),
            strings_view(self.selection_query@),
        )
    }
}

impl View for PickerCommandSpec {
    type V = SpecModel;

    closed spec fn view(&self) -> SpecModel {
        (self.name@, strings_view(self.aliases@), self.argument)
    }
}

impl View for PickerCommandQuery {
    type V = (Seq<Seq<char>>, Seq<ClauseModel>, bool);

    closed spec fn view(&self) -> (Seq<Seq<char>>, Seq<ClauseModel>, bool) {
        (strings_view(self.tokens@), clause_models(self.clauses@), self.ends_with_whitespace)
    }
}

/// The parse of `query`: its words, their clauses, and whether its last
/// character is whitespace.
pub open spec fn parse_model(query: Seq<char>, specs: Seq<SpecModel>) -> (
    Seq<Seq<char>>,
    Seq<ClauseModel>,
    bool,
) {
    (words(query), parse_clauses(query, specs), query.len() > 0 && is_ws(query.last()))
}

fn spec_matches_exec(spec: &PickerCommandSpec, command: &str) -> (r: bool)
    ensures
        r == spec_matches(spec@, command@),
{
    if str_eq(spec.name.as_str(), command) {
        return true;
    }
    let mut i: usize = 0;
    while i < spec.aliases.len()
        invariant
            i <= spec.aliases@.len(),
            forall|j: int| 0 <= j < i ==> spec.aliases@[j]@ != command@,
        decreases spec.aliases@.len() - i,
    {
        if str_eq(spec.aliases[i].as_str(), command) {
            assert(strings_view(spec.aliases@)[i as int] == command@);
            return true;
        }
        i = i + 1;
    }
    assert(!strings_view(spec.aliases@).contains(command@)) by {
        if strings_view(spec.aliases@).contains(command@) {
            let j = choose|j: int|
                0 <= j < spec.aliases@.len() && strings_view(spec.aliases@)[j] == command@;
            assert(spec.aliases@[j]@ == command@);
        }
    }
    false
}

fn argument_required_exec(specs: &[PickerCommandSpec], command: &str) -> (r: bool)
    ensures
        r == argument_required(spec_models(specs@), command@),
{
    let mut i: usize = 0;
    assert(spec_models(specs@).skip(0) =~= spec_models(specs@));
    while i < specs.len()
        invariant
            i <= specs@.len(),
            argument_required(spec_models(specs@), command@) == argument_required(
                spec_models(specs@).skip(i as int),
                command@,
            ),
        decreases specs@.len() - i,
    {
        let ghost rest = spec_models(specs@).skip(i as int);
        assert(rest[0] == specs@[i as int]@);
        assert(rest.drop_first() =~= spec_models(specs@).skip(i + 1));
        if spec_matches_exec(&specs[i], command) {
            return specs[i].argument == PickerCommandArgument::Required;
        }
        i = i + 1;
    }
    assert(spec_models(specs@).skip(i as int).len() == 0);
    false
}

/// The clause models of `clauses` and those from `i` on, together.
proof fn lemma_clause_models_push(s: Seq<PickerCommandClause>, c: PickerCommandClause)
    ensures
        clause_models(s.push(c)) == clause_models(s).push(c@),
{
    assert(clause_models(s.push(c)) =~= clause_models(s).push(c@));
}

fn clone_strings(v: &Vec<String>, from: usize, to: usize) -> (r: Vec<String>)
    requires
        from <= to <= v@.len(),
    ensures
        strings_view(r@) == strings_view(v@).subrange(from as int, to as int),
{
    let mut out: Vec<String> = Vec::new();
    let mut k = from;
    while k < to
        invariant
            from <= k <= to <= v@.len(),
            strings_view(out@) == strings_view(v@).subrange(from as int, k as int),
        decreases to - k,
    {
        let ghost before = out@;
        out.push(v[k].clone());
        assert(strings_view(out@) =~= strings_view(before).push(v@[k as int]@));
        k = k + 1;
        assert(strings_view(out@) =~= strings_view(v@).subrange(from as int, k as int));
    }
    out
}

fn plain_run_end(tokens: &Vec<String>, start: usize) -> (r: usize)
    requires
        start <= tokens@.len(),
    ensures
        r == run_end(strings_view(tokens@), start as int),
        start <= r <= tokens@.len(),
{
    let ghost tv = strings_view(tokens@);
    proof {
        lemma_run_end(tv, start as int);
    }
    let mut k = start;
    while k < tokens.len() && !starts_with_char(tokens[k].as_str(), '%')
        invariant
            start <= k <= tokens@.len(),
            tv == strings_view(tokens@),
            run_end(tv, k as int) == run_end(tv, start as int),
        decreases tokens@.len() - k,
    {
        assert(tv[k as int] == tokens@[k as int]@);
        k = k + 1;
    }
    proof {
        if k < tokens@.len() {
            assert(tv[k as int] == tokens@[k as int]@);
        }
    }
    k
}

impl PickerCommandQuery {
    /// Parse `query` with no command specs: no command takes an argument.
    pub fn parse(query: &str) -> (r: Self)
        ensures
            r@ == parse_model(query@, Seq::empty()),
    {
        let no_specs: Vec<PickerCommandSpec> = Vec::new();
        proof {
            assert(spec_models(no_specs@) =~= Seq::<SpecModel>::empty());
        }
        Self::parse_with_specs(query, no_specs.as_slice())
    }

    /// Parse `query`: split it at whitespace and group the tokens into
    /// clauses, consulting `specs` for which commands take an argument.
    pub fn parse_with_specs(query: &str, specs: &[PickerCommandSpec]) -> (r: Self)
        ensures
            r@ == parse_model(query@, spec_models(specs@)),
    {
        let tokens = split_whitespace_strings(query);
        let ghost tv = strings_view(tokens@);
        let ghost sv = spec_models(specs@);
        proof {
            assert(tv =~= words(query@));
        }
        let mut clauses: Vec<PickerCommandClause> = Vec::new();
        let mut index: usize = 0;
        while index < tokens.len()
            invariant
                index <= tokens@.len(),
                tv == strings_view(tokens@),
                sv == spec_models(specs@),
                clause_models(clauses@) + clauses_from(tv, sv, index as int) == clauses_from(
                    tv,
                    sv,
                    0,
                ),
            decreases tokens@.len() - index,
        {
            let ghost i = index as int;
            let ghost before = clauses@;
            let tchars = chars_of(tokens[index].as_str());
            assert(tchars@ == tv[i]);
            if tchars.len() > 1 && tchars[0] == '%' {
                let name_chars = chars_from(tchars.as_slice(), 1);
                let command = string_from_chars(name_chars.as_slice());
                assert(command@ =~= tv[i].drop_first());
                index = index + 1;
                let required = argument_required_exec(specs, command.as_str());
                let argument = if required && index < tokens.len() && !starts_with_char(
                    tokens[index].as_str(),
                    '%',
                ) {
                    let a = tokens[index].clone();
                    assert(a@ == tv[i + 1]);
                    index = index + 1;
                    Some(a)
                } else {
                    None
                };
                let end = plain_run_end(&tokens, index);
                let selection_query = clone_strings(&tokens, index, end);
                let clause = PickerCommandClause { command: Some(command), argument, selection_query };
                clauses.push(clause);
                index = end;
                proof {
                    lemma_clause_models_push(before, clause);
                    assert(clause@ == clauses_from(tv, sv, i)[0]);
                    assert(clauses_from(tv, sv, i) == seq![clause@] + clauses_from(
                        tv,
                        sv,
                        index as int,
                    ));
                    assert(clause_models(clauses@) + clauses_from(tv, sv, index as int)
                        =~= clause_models(before) + clauses_from(tv, sv, i));
                }
            } else if tchars.len() > 0 && tchars[0] == '%' {
                let t = tokens[index].clone();
                let mut selection_query: Vec<String> = Vec::new();
                selection_query.push(t);
                let clause = PickerCommandClause { command: None, argument: None, selection_query };
                clauses.push(clause);
                index = index + 1;
                proof {
                    lemma_clause_models_push(before, clause);
                    assert(strings_view(selection_query@) =~= seq![tv[i]]);
                    assert(clauses_from(tv, sv, i) == seq![clause@] + clauses_from(
                        tv,
                        sv,
                        index as int,
                    ));
                    assert(clause_models(clauses@) + clauses_from(tv, sv, index as int)
                        =~= clause_models(before) + clauses_from(tv, sv, i));
                }
            } else {
                let end = plain_run_end(&tokens, index);
                let selection_query = clone_strings(&tokens, index, end);
                let clause = PickerCommandClause { command: None, argument: None, selection_query };
                clauses.push(clause);
                index = end;
                proof {
                    lemma_clause_models_push(before, clause);
                    assert(clauses_from(tv, sv, i) == seq![clause@] + clauses_from(
                        tv,
                        sv,
                        index as int,
                    ));
                    assert(clause_models(clauses@) + clauses_from(tv, sv, index as int)
                        =~= clause_models(before) + clauses_from(tv, sv, i));
                }
            }
        }
        assert(clause_models(clauses@) =~= clauses_from(tv, sv, 0));
        let qchars = chars_of(query);
        let ends_with_whitespace = qchars.len() > 0 && is_whitespace(qchars[qchars.len() - 1]);
        PickerCommandQuery { tokens, clauses, ends_with_whitespace }
    }

    /// The whitespace-separated tokens of the query.
    pub fn tokens(&self) -> (r: &[String])
        ensures
            strings_view(r@) == self@.0,
    {
        self.tokens.as_slice()
    }

    /// The clauses, in query order.
    pub fn clauses(&self) -> (r: &[PickerCommandClause])
        ensures
            clause_models(r@) == self@.1,
    {
        self.clauses.as_slice()
    }

    /// Whether the raw query text ended in whitespace.
    pub fn ends_with_whitespace(&self) -> (r: bool)
        ensures
            r == self@.2,
    {
        self.ends_with_whitespace
    }

    /// Some clause's command is one of `names`.
    pub fn has_command(&self, names: &[&str]) -> (r: bool)
        ensures
            r == exists|i: int|
                0 <= i < self@.1.len() && clause_is_command(#[trigger] self@.1[i], strs_view(names@)),
    {
        let mut i: usize = 0;
        while i < self.clauses.len()
            invariant
                i <= self.clauses@.len(),
                forall|j: int|
                    0 <= j < i ==> !clause_is_command(
                        #[trigger] clause_models(self.clauses@)[j],
                        strs_view(names@),
                    ),
            decreases self.clauses@.len() - i,
        {
            if self.clauses[i].is_command(names) {
                assert(clause_models(self.clauses@)[i as int] == self.clauses@[i as int]@);
                assert(clause_is_command(self@.1[i as int], strs_view(names@)));
                return true;
            }
            assert(clause_models(self.clauses@)[i as int] == self.clauses@[i as int]@);
            i = i + 1;
        }
        false
    }

    /// The argument of the first clause whose command is one of `names`.
    pub fn first_command_value(&self, names: &[&str]) -> (r: Option<&str>)
        ensures
            opt_str_view(r) == first_command_argument(self@.1, strs_view(names@)),
    {
        let ghost cm = clause_models(self.clauses@);
        let mut i: usize = 0;
        assert(cm.skip(0) =~= cm);
        while i < self.clauses.len()
            invariant
                i <= self.clauses@.len(),
                cm == clause_models(self.clauses@),
                first_command_argument(cm, strs_view(names@)) == first_command_argument(
                    cm.skip(i as int),
                    strs_view(names@),
                ),
            decreases self.clauses@.len() - i,
        {
            assert(cm.skip(i as int)[0] == self.clauses@[i as int]@);
            assert(cm.skip(i as int).drop_first() =~= cm.skip(i + 1));
            if self.clauses[i].is_command(names) {
                return self.clauses[i].argument();
            }
            i = i + 1;
        }
        assert(cm.skip(i as int).len() == 0);
        None
    }
}

impl PickerCommandSpec {
    /// A command named `name` with the given argument kind and no aliases.
    pub fn new(name: &str, argument: PickerCommandArgument) -> (r: Self)
        ensures
            r@ == (name@, Seq::<Seq<char>>::empty(), argument),
    {
        let aliases: Vec<String> = Vec::new();
        let r = PickerCommandSpec { name: name.to_string(), aliases, argument };
        assert(strings_view(r.aliases@) =~= Seq::<Seq<char>>::empty());
        r
    }

    /// The same spec, answering also to each of `aliases`.
    pub fn with_aliases(self, aliases: &[&str]) -> (r: Self)
        ensures
            r@ == (self@.0, strs_view(aliases@), self@.2),
    {
        let mut out: Vec<String> = Vec::new();
        let mut i: usize = 0;
        while i < aliases.len()
            invariant
                i <= aliases@.len(),
                strings_view(out@) == strs_view(aliases@).take(i as int),
            decreases aliases@.len() - i,
        {
            let ghost before = out@;
            out.push(aliases[i].to_string());
            assert(strings_view(out@) =~= strings_view(before).push(aliases@[i as int]@));
            i = i + 1;
            assert(strings_view(out@) =~= strs_view(aliases@).take(i as int));
        }
        assert(strs_view(aliases@).take(aliases@.len() as int) =~= strs_view(aliases@));
        PickerCommandSpec { name: self.name, aliases: out, argument: self.argument }
    }
}

impl PickerCommandClause {
    /// The clause's command name, without its `%`.
    pub fn command(&self) -> (r: Option<&str>)
        ensures
            opt_str_view(r) == self@.0,
    {
        match &self.command {
            Some(c) => Some(c.as_str()),
            None => None,
        }
    }

    /// The command's argument, if it took one.
    pub fn argument(&self) -> (r: Option<&str>)
        ensures
            opt_str_view(r) == self@.1,
    {
        match &self.argument {
            Some(a) => Some(a.as_str()),
            None => None,
        }
    }

    /// The command's argument, or the empty string.
    pub fn argument_or_empty(&self) -> (r: &str)
        ensures
            r@ == (match self@.1 {
                Some(a) => a,
                None => Seq::empty(),
            }),
    {
        match &self.argument {
            Some(a) => a.as_str(),
            None => {
                proof {
                    reveal_strlit("");
                }
                ""
            },
        }
    }

    /// The plain terms of the clause.
    pub fn selection_query(&self) -> (r: &[String])
        ensures
            strings_view(r@) == self@.2,
    {
        self.selection_query.as_slice()
    }

    /// The plain terms joined with single spaces.
    pub fn selection_query_text(&self) -> (r: String)
        ensures
            r@ == join_spaced(self@.2),
    {
        let ghost terms = strings_view(self.selection_query@);
        let mut out: Vec<char> = Vec::new();
        let mut i: usize = 0;
        while i < self.selection_query.len()
            invariant
                i <= self.selection_query@.len(),
                terms == strings_view(self.selection_query@),
                out@ == join_spaced(terms.take(i as int)),
            decreases self.selection_query@.len() - i,
        {
            let ghost before = out@;
            if i > 0 {
                out.push(' ');
            }
            let word = chars_of(self.selection_query[i].as_str());
            let mut k: usize = 0;
            while k < word.len()
                invariant
                    k <= word@.len(),
                    out@ == (if i > 0 {
                        before + seq![' ']
                    } else {
                        before
                    }) + word@.take(k as int),
                decreases word@.len() - k,
            {
                out.push(word[k]);
                k = k + 1;
                assert(out@ =~= (if i > 0 {
                    before + seq![' ']
                } else {
                    before
                }) + word@.take(k as int));
            }
            assert(word@.take(word@.len() as int) =~= word@);
            assert(terms.take(i + 1).drop_last() =~= terms.take(i as int));
            assert(terms.take(i + 1).last() == terms[i as int]);
            if i == 0 {
                assert(terms.take(1) =~= seq![terms[0]]);
                assert(out@ =~= join_spaced(terms.take(1)));
            } else {
                assert(out@ =~= join_spaced(terms.take(i + 1)));
            }
            i = i + 1;
        }
        assert(terms.take(self.selection_query@.len() as int) =~= terms);
        string_from_chars(out.as_slice())
    }

    /// The argument, if any, followed by the plain terms.
    pub fn terms(&self) -> (r: Vec<&str>)
        ensures
            strs_view(r@) == (match self@.1 {
                Some(a) => seq![a],
                None => Seq::empty(),
            }) + self@.2,
    {
        let mut out: Vec<&str> = Vec::new();
        match &self.argument {
            Some(a) => out.push(a.as_str()),
            None => {},
        }
        let ghost head = strs_view(out@);
        assert(head =~= (match self@.1 {
            Some(a) => seq![a],
            None => Seq::<Seq<char>>::empty(),
        }));
        let mut i: usize = 0;
        while i < self.selection_query.len()
            invariant
                i <= self.selection_query@.len(),
                strs_view(out@) == head + strings_view(self.selection_query@).take(i as int),
            decreases self.selection_query@.len() - i,
        {
            let ghost before = out@;
            out.push(self.selection_query[i].as_str());
            assert(strs_view(out@) =~= strs_view(before).push(self.selection_query@[i as int]@));
            i = i + 1;
            assert(strs_view(out@) =~= head + strings_view(self.selection_query@).take(i as int));
        }
        assert(strings_view(self.selection_query@).take(self.selection_query@.len() as int)
            =~= strings_view(self.selection_query@));
        out
    }

    /// The clause's command is one of `names`.
    pub fn is_command(&self, names: &[&str]) -> (r: bool)
        ensures
            r == clause_is_command(self@, strs_view(names@)),
    {
        match &self.command {
            Some(c) => contains_str(names, c.as_str()),
            None => false,
        }
    }
}

/// Parse a picker query with no command specs.
pub fn parse_picker_command_query(query: &str) -> (r: PickerCommandQuery)
    ensures
        r@ == parse_model(query@, Seq::empty()),
{
    PickerCommandQuery::parse(query)
}

/// Parse a picker query, consulting `specs` for which commands take an
/// argument.
pub fn parse_picker_command_query_with_specs(query: &str, specs: &[PickerCommandSpec]) -> (r:
    PickerCommandQuery)
    ensures
        r@ == parse_model(query@, spec_models(specs@)),
{
    PickerCommandQuery::parse_with_specs(query, specs)
}

/// The tokens a clause was read from: its `%command` token, its argument,
/// then its selection terms.
pub open spec fn clause_tokens(c: ClauseModel) -> Seq<Seq<char>> {
    (match c.0 {
        Some(n) => seq![seq!['%'] + n],
        None => Seq::<Seq<char>>::empty(),
    }) + (match c.1 {
        Some(a) => seq![a],
        None => Seq::<Seq<char>>::empty(),
    }) + c.2
}

/// The tokens of the clauses, clause after clause.
pub open spec fn concat_clause_tokens(cs: Seq<ClauseModel>) -> Seq<Seq<char>>
    decreases cs.len(),
{
    if cs.len() == 0 {
        Seq::empty()
    } else {
        clause_tokens(cs[0]) + concat_clause_tokens(cs.drop_first())
    }
}

/// What holds of each clause of a parse: it was read from at least one
/// token and names no empty command; it has an argument exactly when its
/// command requires one and the next token does not start with `%` (which
/// the argument then does not); a command that requires an argument but has
/// none is followed by no selection terms and either by no further clause
/// or by one whose first token starts with `%`; and a selection term starts
/// with `%` only as the lone `%` of a clause without a command.
pub open spec fn clauses_shaped(specs: Seq<SpecModel>, cs: Seq<ClauseModel>) -> bool {
    forall|j: int| 0 <= j < cs.len() ==> {
        let c = #[trigger] cs[j];
        &&& clause_tokens(c).len() > 0
        &&& c.0 != Some(Seq::<char>::empty())
        &&& c.1 is Some ==> c.0 is Some && argument_required(specs, c.0->Some_0) && !is_pct(c.1->Some_0)
        &&& (c.0 is Some && argument_required(specs, c.0->Some_0) && c.1 is None) ==> c.2.len() == 0 && (j + 1
            == cs.len() || is_pct(clause_tokens(cs[j + 1])[0]))
        &&& forall|k: int| 0 <= k < c.2.len() && is_pct(#[trigger] c.2[k]) ==> c.0 is None && c.1 is None && c.2
            == seq![seq!['%']]
    }
}

proof fn lemma_clauses_from_shape(tokens: Seq<Seq<char>>, specs: Seq<SpecModel>, i: int)
    requires
        0 <= i <= tokens.len(),
    ensures
        concat_clause_tokens(clauses_from(tokens, specs, i)) == tokens.subrange(i, tokens.len() as int),
        clauses_shaped(specs, clauses_from(tokens, specs, i)),
    decreases tokens.len() - i,
{
    let cs = clauses_from(tokens, specs, i);
    let len = tokens.len() as int;
    if i < len {
        let t = tokens[i];
        let (c, e) = if is_command_token(t) {
            let n = t.drop_first();
            let has_arg = argument_required(specs, n) && i + 1 < len && !is_pct(tokens[i + 1]);
            let k = if has_arg { i + 2 } else { i + 1 };
            lemma_run_end(tokens, k);
            let e = run_end(tokens, k);
            (( Some(n), if has_arg { Some(tokens[i + 1]) } else { None }, tokens.subrange(k, e)), e)
        } else if is_pct(t) {
            ((None, None, seq![t]), i + 1)
        } else {
            lemma_run_end(tokens, i);
            (( None, None, tokens.subrange(i, run_end(tokens, i))), run_end(tokens, i))
        };
        lemma_run_end(tokens, i);
        let rest = clauses_from(tokens, specs, e);
        assert(cs == seq![c] + rest);
        lemma_clauses_from_shape(tokens, specs, e);
        assert(cs[0] == c);
        assert(cs.drop_first() =~= rest);
        if is_command_token(t) {
            assert(seq!['%'] + t.drop_first() =~= t);
        }
        if is_pct(t) && !is_command_token(t) {
            assert(t =~= seq!['%']);
        }
        assert(clause_tokens(c) =~= tokens.subrange(i, e));
        assert(tokens.subrange(i, len) =~= tokens.subrange(i, e) + tokens.subrange(e, len));
        assert forall|j: int| 0 <= j < cs.len() implies {
            let cj = #[trigger] cs[j];
            &&& clause_tokens(cj).len() > 0
            &&& cj.0 != Some(Seq::<char>::empty())
            &&& cj.1 is Some ==> cj.0 is Some && argument_required(specs, cj.0->Some_0) && !is_pct(cj.1->Some_0)
            &&& (cj.0 is Some && argument_required(specs, cj.0->Some_0) && cj.1 is None) ==> cj.2.len() == 0 && (j + 1
                == cs.len() || is_pct(clause_tokens(cs[j + 1])[0]))
            &&& forall|k: int| 0 <= k < cj.2.len() && is_pct(#[trigger] cj.2[k]) ==> cj.0 is None && cj.1 is None
                && cj.2 == seq![seq!['%']]
        } by {
            if j == 0 {
                if rest.len() > 0 {
                    assert(cs[1] == rest[0]);
                    assert(concat_clause_tokens(rest) == clause_tokens(rest[0]) + concat_clause_tokens(rest.drop_first()));
                    assert(clause_tokens(rest[0])[0] == tokens.subrange(e, len)[0]);
                }
                if is_command_token(t) {
                    let n = t.drop_first();
                    assert(n.len() > 0);
                    assert forall|k: int| 0 <= k < c.2.len() implies !is_pct(#[trigger] c.2[k]) by {}
                } else if !is_pct(t) {
                    assert forall|k: int| 0 <= k < c.2.len() implies !is_pct(#[trigger] c.2[k]) by {}
                }
            } else {
                assert(cs[j] == rest[j - 1]);
                if j + 1 < cs.len() {
                    assert(cs[j + 1] == rest[j]);
                }
            }
        }
    } else {
        assert(cs.len() == 0);
        assert(tokens.subrange(i, len) =~= Seq::<Seq<char>>::empty());
    }
}

/// A parse reads every token once: the clauses' tokens, clause after
/// clause, are the query's whitespace-separated words; and each clause has
/// the shape [`clauses_shaped`] describes.
pub proof fn lemma_parse_covers_tokens(query: Seq<char>, specs: Seq<SpecModel>)
    ensures
        concat_clause_tokens(parse_model(query, specs).1) == parse_model(query, specs).0,
        clauses_shaped(specs, parse_model(query, specs).1),
{
    let tokens = words(query);
    lemma_clauses_from_shape(tokens, specs, 0);
    assert(tokens.subrange(0, tokens.len() as int) =~= tokens);
}

/// Only the first clause naming one of `names` gives the value; when it
/// gives one, such a clause exists.
pub proof fn lemma_first_command_value_has_command(clauses: Seq<ClauseModel>, names: Seq<Seq<char>>)
    ensures
        first_command_argument(clauses, names) is Some ==> exists|i: int| 0 <= i < clauses.len() && clause_is_command(
            #[trigger] clauses[i],
            names,
        ),
        (forall|i: int| 0 <= i < clauses.len() ==> !clause_is_command(#[trigger] clauses[i], names)) ==> first_command_argument(
            clauses,
            names,
        ) is None,
    decreases clauses.len(),
{
    if clauses.len() > 0 && !clause_is_command(clauses[0], names) {
        lemma_first_command_value_has_command(clauses.drop_first(), names);
        if first_command_argument(clauses, names) is Some {
            let i = choose|i: int| 0 <= i < clauses.drop_first().len() && clause_is_command(#[trigger] clauses.drop_first()[i], names);
            assert(clauses[i + 1] == clauses.drop_first()[i]);
        }
        assert forall|i: int| 0 <= i < clauses.drop_first().len() && (forall|i: int| 0 <= i < clauses.len() ==> !clause_is_command(#[trigger] clauses[i], names)) implies !clause_is_command(#[trigger] clauses.drop_first()[i], names) by {
            assert(clauses[i + 1] == clauses.drop_first()[i]);
        }
    }
}

} // verus!
