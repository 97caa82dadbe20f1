use tui_pages::input::{
    analyze_keymap_bindings, try_parse_binding, BindingCatalog, BindingConflict, BindingInfo,
    BindingLayer, BindingSource, InputRegistry, KeyChord, KeyMap,
};

#[derive(Debug, Clone, Copy, PartialEq, Eq)]
enum TestAction {
    A,
    B,
}

fn seq(binding: &str) -> Vec<KeyChord> {
    try_parse_binding(binding).unwrap()
}

fn registry() -> InputRegistry<TestAction> {
    let mut reg = InputRegistry::empty();
    let mut general = KeyMap::new("general");
    general.bind(seq("ctrl+a"), TestAction::A);
    reg.add_map(general);
    let mut global = KeyMap::new("global");
    global.bind(seq("ctrl+a"), TestAction::B);
    reg.add_map(global);
    reg
}

fn info(mode: &str, keys: &str, action: TestAction, layer: BindingLayer) -> BindingInfo<TestAction> {
    BindingInfo {
        layer,
        mode: mode.to_string(),
        sequence: seq(keys),
        action,
        source: BindingSource::Builtin,
    }
}

#[test]
fn catalog_records_layer_and_source() {
    let catalog = BindingCatalog::from_registry(&registry(), BindingSource::Config);
    assert_eq!(catalog.bindings.len(), 2);
    assert!(catalog
        .bindings
        .iter()
        .all(|b| b.layer == BindingLayer::Keymap && b.source == BindingSource::Config));
    assert_eq!(catalog.bindings_for_mode("general").len(), 1);
    assert_eq!(catalog.bindings_for_action(&TestAction::A).len(), 1);
    assert_eq!(catalog.bindings_for_sequence("global", &seq("ctrl+a")).len(), 1);
}

#[test]
fn active_mode_shadow_ordered_by_priority() {
    let catalog = BindingCatalog::from_registry(&registry(), BindingSource::Config);
    let analysis = analyze_keymap_bindings(&catalog, &["general", "global"]);
    let shadows: Vec<_> = analysis
        .conflicts
        .iter()
        .filter(|c| matches!(c, BindingConflict::ActiveModeShadow { .. }))
        .collect();
    assert_eq!(shadows.len(), 1);
    match shadows[0] {
        BindingConflict::ActiveModeShadow {
            first_mode,
            shadowed_mode,
            ..
        } => {
            assert_eq!(first_mode, "general");
            assert_eq!(shadowed_mode, "global");
        }
        _ => unreachable!(),
    }
}

#[test]
fn same_action_in_two_modes_is_not_a_duplicate() {
    let mut reg = InputRegistry::empty();
    let mut general = KeyMap::new("general");
    general.bind(seq("ctrl+a"), TestAction::A);
    reg.add_map(general);
    let mut global = KeyMap::new("global");
    global.bind(seq("ctrl+a"), TestAction::A);
    reg.add_map(global);

    let catalog = BindingCatalog::from_registry(&reg, BindingSource::Builtin);
    let analysis = analyze_keymap_bindings(&catalog, &["general", "global"]);
    assert!(!analysis
        .conflicts
        .iter()
        .any(|c| matches!(c, BindingConflict::SameModeDuplicate { .. })));
}

#[test]
fn same_mode_duplicate_detected_when_merged() {
    // Two sources can disagree on the same (mode, sequence).
    let mut catalog = BindingCatalog::new();
    catalog.push(BindingInfo {
        layer: BindingLayer::Keymap,
        mode: "nor".to_string(),
        sequence: seq("d"),
        action: TestAction::A,
        source: BindingSource::Builtin,
    });
    catalog.push(BindingInfo {
        layer: BindingLayer::Keymap,
        mode: "nor".to_string(),
        sequence: seq("d"),
        action: TestAction::B,
        source: BindingSource::Config,
    });
    let analysis = analyze_keymap_bindings(&catalog, &["nor"]);
    assert!(analysis
        .conflicts
        .iter()
        .any(|c| matches!(c, BindingConflict::SameModeDuplicate { .. })));
}

#[test]
fn duplicates_compare_against_the_first_binding_and_skip_canvas() {
    let mut catalog = BindingCatalog::new();
    catalog.push(info("nor", "d", TestAction::A, BindingLayer::Keymap));
    catalog.push(info("nor", "d", TestAction::B, BindingLayer::Canvas));
    catalog.push(info("nor", "d", TestAction::A, BindingLayer::Keymap));
    catalog.push(info("nor", "d", TestAction::B, BindingLayer::Keymap));
    let analysis = analyze_keymap_bindings(&catalog, &[]);
    assert_eq!(analysis.bindings, catalog.bindings);
    assert_eq!(
        analysis.conflicts,
        vec![BindingConflict::SameModeDuplicate {
            mode: "nor".to_string(),
            sequence: seq("d"),
            first: TestAction::A,
            second: TestAction::B,
        }]
    );
}

#[test]
fn each_shadowed_sequence_is_reported_once_and_repeated_modes_count_once() {
    // `ins` binds the winner's own action, which is no conflict.
    let mut catalog = BindingCatalog::new();
    catalog.push(info("global", "q", TestAction::B, BindingLayer::Keymap));
    catalog.push(info("general", "q", TestAction::A, BindingLayer::Keymap));
    catalog.push(info("ins", "q", TestAction::A, BindingLayer::Keymap));
    catalog.push(info("other", "q", TestAction::B, BindingLayer::Keymap));
    let analysis = analyze_keymap_bindings(&catalog, &["general", "general", "global", "ins"]);
    assert_eq!(
        analysis.conflicts,
        vec![
            BindingConflict::ActiveModeShadow {
                sequence: seq("q"),
                first_mode: "general".to_string(),
                first: TestAction::A,
                shadowed_mode: "global".to_string(),
                shadowed: TestAction::B,
            },

        ]
    );
}

#[test]
fn catalogs_extend_and_filter_in_order() {
    let mut catalog = BindingCatalog::from_registry(&registry(), BindingSource::Builtin);
    let mut more = BindingCatalog::new();
    more.push(info("general", "x", TestAction::B, BindingLayer::Canvas));
    catalog.extend(more);
    assert_eq!(catalog.bindings.len(), 3);
    let general: Vec<&str> = catalog
        .bindings_for_mode("general")
        .iter()
        .map(|b| b.mode.as_str())
        .collect();
    assert_eq!(general, vec!["general", "general"]);
    assert_eq!(catalog.bindings_for_action(&TestAction::B).len(), 2);
    assert!(catalog.bindings_for_sequence("general", &seq("y")).is_empty());
}

#[test]
fn same_action_in_two_active_modes_is_no_conflict() {
    let mut reg = InputRegistry::empty();
    let mut general = KeyMap::new("general");
    general.bind(seq("ctrl+a"), TestAction::A);
    reg.add_map(general);
    let mut global = KeyMap::new("global");
    global.bind(seq("ctrl+a"), TestAction::A);
    reg.add_map(global);
    let mut nor = KeyMap::new("nor");
    nor.bind(seq("ctrl+a"), TestAction::B);
    reg.add_map(nor);

    let catalog = BindingCatalog::from_registry(&reg, BindingSource::Builtin);
    let analysis = analyze_keymap_bindings(&catalog, &["general", "global"]);
    assert!(analysis.conflicts.is_empty());

    let analysis = analyze_keymap_bindings(&catalog, &["general", "global", "nor"]);
    assert_eq!(analysis.conflicts.len(), 1);
    match &analysis.conflicts[0] {
        BindingConflict::ActiveModeShadow { first_mode, shadowed_mode, .. } => {
            assert_eq!(first_mode, "general");
            assert_eq!(shadowed_mode, "nor");
        }
        other => panic!("expected a shadow, got {other:?}"),
    }
}
