use tui_pages::{try_parse_binding, FocusManager, FocusTarget, FocusWrap, KeyMap};

#[test]
fn wrap_steps_stay_in_range_and_cycle() {
    let len = 4;
    for start in 0..len {
        let mut index = start;
        for _ in 0..len {
            index = FocusWrap::Wrap.step(index, len, true);
            assert!(index < len);
        }
        assert_eq!(index, start);
        let forward = FocusWrap::Wrap.step(start, len, true);
        assert_eq!(FocusWrap::Wrap.step(forward, len, false), start);
        let back = FocusWrap::Wrap.step(start, len, false);
        assert_eq!(FocusWrap::Wrap.step(back, len, true), start);
    }
    assert_eq!(FocusWrap::Wrap.step(3, 4, true), 0);
    assert_eq!(FocusWrap::Wrap.step(0, 4, false), 3);
}

#[test]
fn clamp_steps_stop_at_the_ends() {
    assert_eq!(FocusWrap::Clamp.step(3, 4, true), 3);
    assert_eq!(FocusWrap::Clamp.step(0, 4, false), 0);
    assert_eq!(FocusWrap::Clamp.step(1, 4, true), 2);
    assert_eq!(FocusWrap::Clamp.step(2, 4, false), 1);
    assert_eq!(FocusWrap::Clamp.step(0, 1, true), 0);
}

#[test]
fn wrapped_modal_cycles_through_its_items() {
    let mut focus: FocusManager<(), &str> = FocusManager::new();
    focus.set_focus_wrap(FocusWrap::Wrap);
    focus.show_modal("confirm", 3);
    assert_eq!(focus.current(), Some(FocusTarget::ModalItem(0)));
    focus.next();
    assert_eq!(focus.current(), Some(FocusTarget::ModalItem(1)));
    focus.prev();
    assert_eq!(focus.current(), Some(FocusTarget::ModalItem(0)));
    focus.prev();
    assert_eq!(focus.current(), Some(FocusTarget::ModalItem(2)));
    focus.next();
    focus.next();
    focus.next();
    assert_eq!(focus.current(), Some(FocusTarget::ModalItem(2)));
}

#[test]
fn closing_an_opened_overlay_restores_page_focus() {
    let mut focus: FocusManager<u8> = FocusManager::new();
    focus.register_page(vec![FocusTarget::Button(0), FocusTarget::Button(1)]);
    focus.next();
    assert_eq!(focus.current(), Some(FocusTarget::Button(1)));
    focus.open_overlay(FocusTarget::Overlay(7));
    assert_eq!(focus.current(), Some(FocusTarget::Overlay(7)));
    focus.close_overlay(FocusTarget::Overlay(7));
    assert!(!focus.has_overlay());
    assert_eq!(focus.current(), Some(FocusTarget::Button(1)));
}

#[test]
fn bind_lookup_and_unbind_restore_the_map() {
    let mut map: KeyMap<u32> = KeyMap::new("general");
    map.bind(try_parse_binding("g g").unwrap(), 1);
    let key = try_parse_binding("ctrl+s").unwrap();
    map.bind(key.clone(), 2);
    assert_eq!(map.get(&key), Some(&2));
    assert_eq!(map.unbind(&key), Some(2));
    assert_eq!(map.get(&key), None);
    assert_eq!(map.len(), 1);
}

#[test]
fn invalid_theme_root_during_inheritance() {}
