use tui_pages::picker::widths::resolve_head_widths;
use tui_pages::picker::{
    PickerCommandArgument, PickerEntry, PickerField, PickerFieldWeights, PickerHead,
    PickerHeadColumn, PickerInputProvider, PickerLayout, PickerScope,
};

fn scopes() -> Vec<PickerScope> {
    vec![
        PickerScope::new("table", "Table", vec!["label".to_string()]).with_completion_key("label"),
        PickerScope::new("profile", "Profile", vec!["profile".to_string()])
            .with_completion_key("profile"),
        PickerScope::new("dependency", "Dependency", vec!["dependency".to_string()])
            .with_aliases(&["dep"])
            .with_completion_key("dependency"),
    ]
}

fn provider(text: &str) -> PickerInputProvider {
    let mut p = PickerInputProvider::from_text(text.to_string());
    p.set_scopes(scopes());
    p
}

#[test]
fn entry_carries_its_label_as_a_field() {
    let entry = PickerEntry::new("invoice", vec![]).with_fields(vec![
        PickerField::new("profile", "finance"),
        PickerField::new("dependency", "customer department"),
    ]);
    assert_eq!(entry.label, "invoice");
    assert_eq!(entry.fields.len(), 3);
    assert_eq!(entry.fields[0], PickerField::new("label", "invoice"));
    assert_eq!(entry.fields[2].value, "customer department");
}

#[test]
fn scope_builders_set_arguments_and_limits() {
    let scope = PickerScope::new("table", "Table", vec!["table".to_string()]);
    assert_eq!(scope.command_argument, PickerCommandArgument::NoArgument);
    assert_eq!(scope.value_token_limit, None);

    let limited = scope.clone().with_value_token_limit(1);
    assert_eq!(limited.value_token_limit, Some(1));
    assert_eq!(limited.command_argument, PickerCommandArgument::Required);

    let wide = scope.clone().with_value_token_limit(3);
    assert_eq!(wide.value_token_limit, Some(3));
    assert_eq!(wide.command_argument, PickerCommandArgument::NoArgument);

    let argument = scope.clone().with_command_argument();
    assert_eq!(argument.command_argument, PickerCommandArgument::Required);
    assert_eq!(argument.value_token_limit, Some(1));

    let cleared = argument.without_command_argument();
    assert_eq!(cleared.command_argument, PickerCommandArgument::NoArgument);
    assert_eq!(cleared.value_token_limit, None);

    assert!(scope.with_suppressed_value_completion().suppress_value_completion);
}

#[test]
fn scope_matches_token_and_aliases() {
    let scopes = scopes();
    assert!(scopes[2].matches_token("dependency"));
    assert!(scopes[2].matches_token("dep"));
    assert!(!scopes[2].matches_token("de"));
    assert!(!scopes[0].matches_token("dep"));
}

#[test]
fn completion_value_prefers_completion_key_then_field_keys_then_label() {
    let entry = PickerEntry::new("invoice", vec![])
        .with_fields(vec![PickerField::new("profile", "finance")]);
    let scopes = scopes();
    assert_eq!(scopes[1].completion_value(&entry), Some("finance"));
    assert_eq!(scopes[0].completion_value(&entry), Some("invoice"));
    // No `dependency` field: falls back to the label.
    assert_eq!(scopes[2].completion_value(&entry), Some("invoice"));

    let by_keys = PickerScope::new("p", "P", vec!["missing".to_string(), "profile".to_string()]);
    assert_eq!(by_keys.completion_value(&entry), Some("finance"));
}

#[test]
fn field_weights_default_override_and_uniform() {
    let weights = PickerFieldWeights::default();
    assert_eq!(weights.weight("label"), 16);
    assert_eq!(weights.weight("profile"), 10);

    let weights = weights.with_override("profile", 30).with_override("label", 3);
    assert_eq!(weights.weight("profile"), 30);
    assert_eq!(weights.weight("label"), 3);
    assert_eq!(weights.weight("other"), 10);

    let weights = weights.with_default(1);
    assert_eq!(weights.weight("other"), 1);
    assert_eq!(weights.weight("profile"), 30);

    let uniform = PickerFieldWeights::uniform(7);
    assert_eq!(uniform.weight("label"), 7);
    assert_ne!(uniform, PickerFieldWeights::default());
}

#[test]
fn head_builder_adds_fixed_and_flexible_columns() {
    let head = PickerHead::new().field("Name", "label").width(12).field("Profile", "profile").flex();
    assert_eq!(
        head.columns,
        vec![
            PickerHeadColumn::new("Name", "label", 12),
            PickerHeadColumn::new("Profile", "profile", 0),
        ]
    );
    assert_eq!(PickerHead::default(), PickerHead::with_columns(vec![]));
    assert_eq!(PickerLayout::default(), PickerLayout::Responsive);
}

#[test]
fn input_keeps_only_the_first_line() {
    let p = PickerInputProvider::from_text("invoice\nsecond".to_string());
    assert_eq!(p.to_text(), "invoice");
    let mut p = provider("");
    p.set_field_value(0, "a\rb".to_string());
    assert_eq!(p.field_value(0), "a");
    p.set_field_value(1, "ignored".to_string());
    assert_eq!(p.field_value(0), "a");
    assert_eq!(p.field_value(1), "");
    assert_eq!(p.field_count(), 1);
    assert_eq!(p.field_name(0), "Search");
}

#[test]
fn percent_lists_every_scope() {
    let p = provider("%");
    let values: Vec<String> = p.fetch_suggestions(0, "%").into_iter().map(|(_, v)| v).collect();
    assert_eq!(values, vec!["%table ", "%profile ", "%dependency "]);
    let displays: Vec<String> =
        p.fetch_suggestions(0, "%t").into_iter().map(|(d, _)| d).collect();
    assert_eq!(displays, vec!["%table  Table"]);
}

#[test]
fn suggestions_match_aliases_case_insensitively() {
    let p = provider("");
    let values: Vec<String> = p.fetch_suggestions(0, "%DE").into_iter().map(|(_, v)| v).collect();
    assert_eq!(values, vec!["%dependency "]);
    assert!(p.fetch_suggestions(0, "%x").is_empty());
}

#[test]
fn suggestion_scopes_narrow_the_suggestions() {
    let mut p = provider("");
    assert!(p.supports_suggestions(0));
    assert_eq!(p.suggestion_trigger(0), Some('%'));
    assert!(!p.supports_suggestions(1));
    p.set_suggestion_scopes(Some(vec![scopes()[1].clone()]));
    let values: Vec<String> = p.fetch_suggestions(0, "%").into_iter().map(|(_, v)| v).collect();
    assert_eq!(values, vec!["%profile "]);
    p.set_suggestion_scopes(Some(vec![]));
    assert!(!p.supports_suggestions(0));
    assert_eq!(p.suggestion_trigger(0), None);
    p.set_suggestion_scopes(None);
    assert_eq!(p.active_suggestion_scopes().len(), 3);
}

#[test]
fn scope_query_covers_the_word_at_the_cursor() {
    let p = provider("invoice %pro fin");
    assert_eq!(p.suggestion_query(0, 12), Some(("%pro".to_string(), (8, 12))));
    assert_eq!(p.suggestion_query(0, 10), Some(("%p".to_string(), (8, 12))));
    assert_eq!(p.suggestion_query(0, 3), None);
    assert_eq!(p.suggestion_query(0, 100), None);
}

#[test]
fn accepting_a_scope_suggestion_replaces_the_typed_word() {
    let mut p = provider("%p");
    let cursor = p.accept_suggestion(0, "%profile ", Some((0, 2)));
    assert_eq!(p.to_text(), "%profile ");
    assert_eq!(cursor, 9);

    let mut p = provider("invoice %dep x");
    let cursor = p.accept_suggestion(0, "%dependency ", Some((8, 12)));
    assert_eq!(p.to_text(), "invoice %dependency  x");
    assert_eq!(cursor, 20);

    let mut p = provider("abc");
    assert_eq!(p.accept_suggestion(1, "zzz", None), 0);
    assert_eq!(p.to_text(), "abc");
    assert_eq!(p.accept_suggestion(0, "zzz", None), 3);
    assert_eq!(p.to_text(), "zzz");
}

fn head_column(label: &str, width: usize) -> PickerHeadColumn {
    PickerHeadColumn { label: label.to_string(), field_key: label.to_string(), width }
}

#[test]
fn head_widths_share_what_fixed_columns_leave() {
    let head = PickerHead {
        columns: vec![head_column("label", 0), head_column("kind", 8), head_column("path", 0)],
    };
    assert_eq!(resolve_head_widths(&head, 40), vec![14, 8, 14]);
    assert_eq!(resolve_head_widths(&head, 41), vec![15, 8, 14]);
    assert_eq!(resolve_head_widths(&head, 10), vec![0, 6, 0]);
    assert_eq!(resolve_head_widths(&head, 0), vec![0, 0, 0]);
    let fixed = PickerHead { columns: vec![head_column("a", 3), head_column("b", 30)] };
    assert_eq!(resolve_head_widths(&fixed, 20), vec![3, 14]);
}
