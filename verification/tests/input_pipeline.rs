use tui_pages::{
    parse_binding, parse_key, try_parse_binding, try_parse_key, InputPipeline, InputRegistry,
    KeyChord, KeyCode, KeyEvent, KeyMap, KeyModifiers, ParseKeyError, PipelineResponse,
};

#[derive(Debug, Clone, PartialEq, Eq)]
enum Action {
    Save,
    Quit,
}

#[test]
fn parses_config_style_key_sequences() {
    assert_eq!(
        parse_binding("ctrl+x s"),
        vec![
            KeyChord::new(KeyCode::Char('x'), KeyModifiers::control()),
            KeyChord::new(KeyCode::Char('s'), KeyModifiers::empty()),
        ]
    );
}

#[test]
fn try_parse_binding_reports_typos_and_supports_chords() {
    assert_eq!(
        try_parse_binding("ctrl+shift+x z"),
        Ok(vec![
            KeyChord::new(
                KeyCode::Char('x'),
                KeyModifiers::control().union(KeyModifiers::shift())
            ),
            KeyChord::new(KeyCode::Char('z'), KeyModifiers::empty()),
        ])
    );

    assert_eq!(
        try_parse_binding("ctrl+shft+x"),
        Err(ParseKeyError::UnknownKey("ctrl+shft+x".into()))
    );
    assert_eq!(try_parse_binding("   "), Err(ParseKeyError::Empty));

    assert!(parse_binding("ctrl+shft+x").is_empty());

    assert_eq!(
        try_parse_binding("f"),
        Ok(vec![KeyChord::new(KeyCode::Char('f'), KeyModifiers::empty())])
    );
    assert_eq!(
        try_parse_binding("f5"),
        Ok(vec![KeyChord::new(KeyCode::F(5), KeyModifiers::empty())])
    );
}

#[test]
fn remap_unbinds_old_and_binds_new() {
    let mut map = KeyMap::new("general");
    map.bind(parse_binding("ctrl+s"), Action::Save);

    let old: Vec<Vec<KeyChord>> = map
        .bindings_for(&Action::Save)
        .into_iter()
        .map(<[KeyChord]>::to_vec)
        .collect();
    assert_eq!(old, vec![parse_binding("ctrl+s")]);

    assert_eq!(map.unbind_action(&Action::Save), 1);
    assert!(map.bindings_for(&Action::Save).is_empty());

    map.bind(try_parse_binding("ctrl+shift+x z").unwrap(), Action::Save);
    assert_eq!(map.bindings_for(&Action::Save).len(), 1);
    assert_eq!(
        map.unbind(&parse_binding("ctrl+shift+x z")),
        Some(Action::Save)
    );
}

fn key(code: KeyCode) -> KeyEvent {
    KeyEvent::new(code, KeyModifiers::empty())
}

#[test]
fn resolves_single_key_action() {
    let mut map = KeyMap::new("general");
    map.bind(
        vec![KeyChord::new(KeyCode::Char('s'), KeyModifiers::empty())],
        Action::Save,
    );

    let mut registry = InputRegistry::empty();
    registry.add_map(map);
    let mut pipeline = InputPipeline::new(registry, 400);

    let response = pipeline.process(key(KeyCode::Char('s')), &["general"], false);
    assert_eq!(response, PipelineResponse::Execute(Action::Save));
}

#[test]
fn waits_for_multi_key_sequence() {
    let mut map = KeyMap::new("general");
    map.bind(
        vec![
            KeyChord::new(KeyCode::Char('g'), KeyModifiers::empty()),
            KeyChord::new(KeyCode::Char('q'), KeyModifiers::empty()),
        ],
        Action::Quit,
    );

    let mut registry = InputRegistry::empty();
    registry.add_map(map);
    let mut pipeline = InputPipeline::new(registry, 400);

    let response = pipeline.process(key(KeyCode::Char('g')), &["general"], false);
    assert!(matches!(response, PipelineResponse::Wait(_)));

    let response = pipeline.process(key(KeyCode::Char('q')), &["general"], false);
    assert_eq!(response, PipelineResponse::Execute(Action::Quit));
}

#[test]
fn key_tokens_cover_names_modifiers_and_errors() {
    assert_eq!(
        try_parse_key("  Shift+Tab "),
        Ok(KeyChord::new(KeyCode::BackTab, KeyModifiers::empty()))
    );
    assert_eq!(
        parse_key("ctrl++"),
        Some(KeyChord::new(KeyCode::Char('+'), KeyModifiers::control()))
    );
    assert_eq!(
        parse_key("M+PageDown"),
        Some(KeyChord::new(KeyCode::PageDown, KeyModifiers::alt()))
    );
    assert_eq!(parse_key("J"), Some(KeyChord::new(KeyCode::Char('j'), KeyModifiers::empty())));
    assert_eq!(parse_key("space"), Some(KeyChord::new(KeyCode::Char(' '), KeyModifiers::empty())));
    assert_eq!(parse_key("f+12"), Some(KeyChord::new(KeyCode::F(12), KeyModifiers::empty())));
    assert_eq!(parse_key("F012"), Some(KeyChord::new(KeyCode::F(12), KeyModifiers::empty())));
    assert_eq!(parse_key("f256"), None);
    assert_eq!(parse_key("ctrl+"), None);
    assert_eq!(try_parse_key(""), Err(ParseKeyError::Empty));
    assert_eq!(
        try_parse_key("bogus"),
        Err(ParseKeyError::UnknownKey("bogus".to_string()))
    );
    assert_eq!(
        parse_binding("a+b"),
        vec![
            KeyChord::new(KeyCode::Char('a'), KeyModifiers::empty()),
            KeyChord::new(KeyCode::Char('b'), KeyModifiers::empty()),
        ]
    );
    assert_eq!(
        parse_binding("j bogus k"),
        vec![
            KeyChord::new(KeyCode::Char('j'), KeyModifiers::empty()),
            KeyChord::new(KeyCode::Char('k'), KeyModifiers::empty()),
        ]
    );
    assert_eq!(
        try_parse_binding("j bogus k"),
        Err(ParseKeyError::UnknownKey("bogus".to_string()))
    );
}

#[test]
fn chord_display_text() {
    let chord = KeyChord::new(
        KeyCode::Char('x'),
        KeyModifiers::control().union(KeyModifiers::alt()).union(KeyModifiers::shift()),
    );
    assert_eq!(chord.display_string(), "Ctrl+Alt+Shift+x");
    assert_eq!(
        KeyChord::new(KeyCode::F(12), KeyModifiers::empty()).display_string(),
        "F(12)"
    );
    assert_eq!(
        KeyChord::new(KeyCode::Home, KeyModifiers::alt()).display_string(),
        "Alt+Home"
    );
    let back = KeyChord::from_event(&KeyEvent::new(KeyCode::BackTab, KeyModifiers::shift()));
    assert_eq!(back, KeyChord::new(KeyCode::BackTab, KeyModifiers::empty()));
}

#[test]
fn registry_prefers_earlier_modes_and_offers_hints() {
    let mut registry: InputRegistry<&'static str> = InputRegistry::empty();
    registry.map_mut("global").bind(parse_binding("g g"), "top");
    registry.map_mut("general").bind(parse_binding("g g"), "first");
    registry.map_mut("general").bind(parse_binding("g n"), "next");
    registry.map_mut("general").bind(parse_binding("q"), "quit");

    assert_eq!(
        registry.match_action(&parse_binding("g g"), &["general", "global"]),
        Some("first")
    );
    assert_eq!(
        registry.match_action(&parse_binding("g g"), &["global", "general"]),
        Some("top")
    );
    assert_eq!(registry.match_action(&parse_binding("x"), &["general"]), None);
    assert_eq!(registry.total_bindings(), 4);

    let g = parse_binding("g");
    let hints = registry.get_hints(&g, &["global", "general"]);
    assert_eq!(hints.len(), 2);
    let gg = hints
        .iter()
        .find(|h| h.key == parse_binding("g")[0])
        .expect("g continues g");
    assert_eq!(gg.action, "top");
    assert!(registry.starts_sequence(&g[0], &["general"]));
    assert!(!registry.starts_sequence(&parse_binding("z")[0], &["general"]));
    assert!(registry.is_prefix(&g, &["general"]));
    assert!(!registry.is_prefix(&parse_binding("q"), &["general"]));
    assert!(!registry.is_prefix(&[], &["general"]));
}

#[test]
fn pipeline_types_plain_text_and_cancels_dead_ends() {
    let mut registry: InputRegistry<&'static str> = InputRegistry::empty();
    registry.map_mut("general").bind(parse_binding("j"), "down");
    registry.map_mut("general").bind(parse_binding("g g"), "top");
    let mut pipeline = InputPipeline::new(registry, 60_000);

    // On a text page a plain character skips the `general` mode.
    assert_eq!(
        pipeline.process(key(KeyCode::Char('j')), &["general"], true),
        PipelineResponse::Type(KeyChord::new(KeyCode::Char('j'), KeyModifiers::empty()))
    );
    assert_eq!(
        pipeline.process(key(KeyCode::Char('j')), &["general"], false),
        PipelineResponse::Execute("down")
    );
    assert!(matches!(
        pipeline.process(key(KeyCode::Char('g')), &["general"], false),
        PipelineResponse::Wait(_)
    ));
    assert!(pipeline.active());
    assert_eq!(
        pipeline.process(key(KeyCode::Char('x')), &["general"], false),
        PipelineResponse::Cancel
    );
    assert!(!pipeline.active());
}
