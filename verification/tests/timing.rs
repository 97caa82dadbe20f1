use tui_pages::action::{PageActionHandler, PageActionResult};
use tui_pages::clock::elapsed_exceeds;
use tui_pages::{
    try_parse_binding, ChordSequenceTracker, CommandRegistry, CommandResolver, FocusIntent,
    FocusTarget, NavigationCoordinator,
};

#[test]
fn elapsed_exceeds_compares_against_the_timeout_in_nanoseconds() {
    assert!(!elapsed_exceeds(1_000_000, 1));
    assert!(elapsed_exceeds(1_000_001, 1));
    assert!(!elapsed_exceeds(0, 0));
    assert!(elapsed_exceeds(1, 0));
}

#[test]
fn tracker_expires_only_a_pending_sequence_past_its_timeout() {
    let mut tracker = ChordSequenceTracker::new(10);
    tracker.expire_after(u128::MAX);
    assert!(tracker.is_empty());
    let chord = try_parse_binding("g").unwrap()[0].clone();
    tracker.add(chord.clone());
    tracker.expire_after(10_000_000);
    assert_eq!(tracker.get(), &[chord][..]);
    tracker.expire_after(10_000_001);
    assert!(tracker.is_empty());
}

#[test]
fn resolver_idleness_follows_elapsed_time() {
    let mut resolver = CommandResolver::new(CommandRegistry::<u8>::new(), 5);
    assert!(resolver.is_idle_after(0));
    assert!(resolver.is_idle());
    resolver.touch();
    assert!(!resolver.is_idle_after(5_000_000));
    assert!(resolver.is_idle_after(5_000_001));
}

#[test]
fn feedback_without_recent_input_reports_unknown_commands() {
    let mut registry = CommandRegistry::new();
    registry.bind("quit", "q", 1u8);
    let resolver = CommandResolver::new(registry, 1000);
    assert_eq!(resolver.get_feedback("zzz"), Some("[Unknown command]".to_string()));
    assert_eq!(resolver.get_feedback("   "), None);
    assert_eq!(resolver.get_feedback("q"), None);
}

#[test]
fn page_intent_registers_only_non_empty_pages() {
    assert!(NavigationCoordinator::page_intent(vec![]).is_none());
    match NavigationCoordinator::page_intent(vec![FocusTarget::Button(0)]) {
        Some(FocusIntent::RegisterPage(targets)) => {
            assert_eq!(targets, vec![FocusTarget::Button(0)])
        }
        _ => panic!("expected a page registration"),
    }
}

struct Page;

impl PageActionHandler<u8, u8, (), ()> for Page {
    fn handle_action(
        &mut self,
        _app_state: &(),
        _focus: &FocusTarget,
        action: &u8,
    ) -> Result<PageActionResult<u8>, ()> {
        Ok(PageActionResult::app(*action))
    }
}

#[test]
fn buttons_do_nothing_unless_the_page_says_otherwise() {
    let mut page = Page;
    let result = page.handle_button(2).unwrap();
    assert!(result.app_action.is_none());
    assert!(result.focus_intent.is_none());
}

fn gg_pipeline() -> tui_pages::InputPipeline<u8> {
    let mut registry = tui_pages::InputRegistry::empty();
    registry.map_mut("general").bind(try_parse_binding("g g").unwrap(), 7);
    tui_pages::InputPipeline::new(registry, 100)
}

fn key(c: char) -> tui_pages::KeyEvent {
    tui_pages::KeyEvent::new(tui_pages::KeyCode::Char(c), tui_pages::KeyModifiers::empty())
}

#[test]
fn pending_sequence_expires_only_past_its_timeout() {
    let mut pipeline = gg_pipeline();
    assert!(matches!(
        pipeline.process_after(key('g'), &["general"], false, 0),
        tui_pages::PipelineResponse::Wait(_)
    ));
    assert!(matches!(
        pipeline.process_after(key('g'), &["general"], false, 100_000_000),
        tui_pages::PipelineResponse::Execute(7)
    ));

    let mut pipeline = gg_pipeline();
    let _ = pipeline.process_after(key('g'), &["general"], false, 0);
    assert!(matches!(
        pipeline.process_after(key('g'), &["general"], false, 100_000_001),
        tui_pages::PipelineResponse::Cancel
    ));
    assert!(matches!(
        pipeline.process_after(key('g'), &["general"], false, 0),
        tui_pages::PipelineResponse::Wait(_)
    ));
}
