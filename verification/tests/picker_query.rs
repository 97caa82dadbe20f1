use tui_pages::picker::{
    parse_picker_command_query, parse_picker_command_query_with_specs, PickerCommandArgument,
    PickerCommandQuery, PickerCommandSpec,
};

fn clause_terms(parsed: &PickerCommandQuery, index: usize) -> Vec<&str> {
    parsed.clauses()[index].terms()
}

fn clause_selection_query(parsed: &PickerCommandQuery, index: usize) -> Vec<&str> {
    parsed.clauses()[index]
        .selection_query()
        .iter()
        .map(String::as_str)
        .collect()
}

#[test]
fn command_clause_collects_values_until_next_command() {
    let parsed = parse_picker_command_query_with_specs(
        "acme %column name %data bratislava",
        &[
            PickerCommandSpec::new("column", PickerCommandArgument::Required),
            PickerCommandSpec::new("data", PickerCommandArgument::NoArgument),
        ],
    );
    let tokens = parsed
        .tokens()
        .iter()
        .map(String::as_str)
        .collect::<Vec<_>>();

    assert_eq!(tokens, vec!["acme", "%column", "name", "%data", "bratislava"]);
    assert_eq!(parsed.clauses().len(), 3);
    assert_eq!(parsed.clauses()[0].command(), None);
    assert_eq!(clause_terms(&parsed, 0), vec!["acme"]);
    assert!(parsed.clauses()[1].is_command(&["column", "col"]));
    assert_eq!(parsed.clauses()[1].argument(), Some("name"));
    assert!(parsed.clauses()[1].selection_query().is_empty());
    assert!(parsed.clauses()[2].is_command(&["data"]));
    assert_eq!(parsed.clauses()[2].argument(), None);
    assert_eq!(clause_selection_query(&parsed, 2), vec!["bratislava"]);
}

#[test]
fn extra_terms_after_command_argument_are_selection_query() {
    let parsed = parse_picker_command_query_with_specs(
        "%column city bratislava",
        &[PickerCommandSpec::new("column", PickerCommandArgument::Required)],
    );

    assert_eq!(parsed.clauses()[0].argument(), Some("city"));
    assert_eq!(clause_selection_query(&parsed, 0), vec!["bratislava"]);
}

#[test]
fn commands_without_argument_treat_first_value_as_selection_query() {
    let parsed = parse_picker_command_query_with_specs(
        "%data bratislava",
        &[PickerCommandSpec::new("data", PickerCommandArgument::NoArgument)],
    );

    assert_eq!(parsed.clauses()[0].argument(), None);
    assert_eq!(clause_selection_query(&parsed, 0), vec!["bratislava"]);
}

#[test]
fn records_trailing_whitespace() {
    let parsed = parse_picker_command_query("%target customer_id ");

    assert!(parsed.ends_with_whitespace());
}

#[test]
fn standalone_percent_is_plain_text() {
    let parsed = parse_picker_command_query("% %data value");

    assert_eq!(parsed.clauses()[0].command(), None);
    assert_eq!(clause_terms(&parsed, 0), vec!["%"]);
    assert!(parsed.clauses()[1].is_command(&["data"]));
}

#[test]
fn aliases_select_the_argument_kind() {
    let spec = PickerCommandSpec::new("column", PickerCommandArgument::Required)
        .with_aliases(&["col", "c"]);
    let parsed = parse_picker_command_query_with_specs("%col city rest more", &[spec]);

    assert_eq!(parsed.clauses().len(), 1);
    assert_eq!(parsed.clauses()[0].command(), Some("col"));
    assert_eq!(parsed.clauses()[0].argument(), Some("city"));
    assert_eq!(parsed.clauses()[0].argument_or_empty(), "city");
    assert_eq!(parsed.clauses()[0].selection_query_text(), "rest more");
    assert_eq!(clause_terms(&parsed, 0), vec!["city", "rest", "more"]);
    assert!(!parsed.ends_with_whitespace());
}

#[test]
fn unknown_commands_take_no_argument_and_first_value_is_found() {
    let parsed = parse_picker_command_query("  plain  words %scope a b %other ");

    assert_eq!(parsed.clauses().len(), 3);
    assert_eq!(clause_terms(&parsed, 0), vec!["plain", "words"]);
    assert_eq!(parsed.clauses()[1].argument_or_empty(), "");
    assert_eq!(parsed.clauses()[1].selection_query_text(), "a b");
    assert!(parsed.has_command(&["other"]));
    assert!(!parsed.has_command(&["missing"]));
    assert_eq!(parsed.first_command_value(&["scope"]), None);
    assert!(parsed.ends_with_whitespace());

    let with_arg = parse_picker_command_query_with_specs(
        "%scope first second %scope third",
        &[PickerCommandSpec::new("scope", PickerCommandArgument::Required)],
    );
    assert_eq!(with_arg.first_command_value(&["scope"]), Some("first"));
}

#[test]
fn empty_query_has_no_clauses() {
    let parsed = parse_picker_command_query("   ");
    assert!(parsed.tokens().is_empty());
    assert!(parsed.clauses().is_empty());
    assert!(parsed.ends_with_whitespace());
}

#[test]
fn clauses_read_every_token_once_in_order() {
    let specs = vec![PickerCommandSpec::new("scope", PickerCommandArgument::Required)];
    let parsed = PickerCommandQuery::parse_with_specs("foo %scope %x bar % baz", &specs);
    let mut read: Vec<String> = Vec::new();
    for clause in parsed.clauses() {
        let before = read.len();
        if let Some(name) = clause.command() {
            assert!(!name.is_empty());
            read.push(format!("%{name}"));
        }
        if let Some(argument) = clause.argument() {
            read.push(argument.to_string());
        }
        read.extend(clause.selection_query().iter().cloned());
        assert!(read.len() > before);
    }
    assert_eq!(read, parsed.tokens().to_vec());
    // `%scope` wants an argument, but the next token starts with `%`.
    assert_eq!(parsed.clauses()[1].command(), Some("scope"));
    assert_eq!(parsed.clauses()[1].argument(), None);
    assert!(parsed.clauses()[1].selection_query().is_empty());
    assert_eq!(parsed.clauses()[3].selection_query(), &["%".to_string()]);
    assert!(!parsed.ends_with_whitespace());
}

#[test]
fn first_command_value_comes_from_the_first_matching_clause() {
    let parsed = PickerCommandQuery::parse("%scope a %scope b");
    assert!(parsed.has_command(&["scope"]));
    assert_eq!(parsed.first_command_value(&["scope"]), None);
    assert!(!parsed.has_command(&["other"]));
    assert_eq!(parsed.first_command_value(&["other"]), None);
}
