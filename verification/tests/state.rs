use iced_servo::advanced::AdvancedState;
use iced_servo::view_manager::ViewManager;
use iced_servo::basic::{BasicState, CloseCurrent};
use iced_servo::keys::{
    engine_button, engine_key, engine_key_event, EngineKey, Key, KeyState, KeyboardEvent,
    Modifiers, MouseButton, NamedKey,
};
use iced_servo::string_map::StringMap;
use iced_servo::tracker::FetchTracker;

#[test]
fn navigation_discards_stale_images() {
    let mut t = FetchTracker::new();
    assert_eq!(t.epoch(7), 0);
    let tag = t.image_requested(7);
    assert_eq!(tag, 0);
    assert_eq!(t.inflight(), 1);
    assert_eq!(t.begin_navigation(7), 1);
    assert!(t.settled());
    assert!(!t.image_arrived(7, tag));
    assert_eq!(t.inflight(), 0);
    let fresh = t.image_requested(7);
    assert!(t.image_arrived(7, fresh));
    // another view is not affected
    assert!(t.image_arrived(8, 0));
}

#[test]
fn basic_views_and_selection() {
    let mut s = BasicState::new();
    assert_eq!(s.view_size(), (1920, 1080));
    assert_eq!(s.current_view_id(), None);
    s.add_view(10);
    s.add_view(11);
    s.add_view(12);
    assert_eq!(s.index_as_view_id(1), Some(11));
    assert_eq!(s.index_as_view_id(3), None);
    assert_eq!(s.change_view(2), Some(12));
    assert_eq!(s.current_view_id(), Some(12));
    assert_eq!(s.change_view(5), None);
    assert_eq!(s.current_view_id(), Some(12));
    // closing an earlier view keeps the same view current
    assert_eq!(s.close_view(0), Some(10));
    assert_eq!(s.current_view_id(), Some(12));
    assert_eq!(s.view_count(), 2);
    assert_eq!(s.close_view(9), None);
    // closing the current view leaves none current
    assert_eq!(s.close_view(1), Some(12));
    assert_eq!(s.current_view_id(), None);
    assert_eq!(s.close_current_view(), CloseCurrent::NoneSelected);
    assert_eq!(s.change_view(0), Some(11));
    assert_eq!(s.close_current_view(), CloseCurrent::Closed(11));
    assert_eq!(s.view_count(), 0);
}

#[test]
fn closing_the_current_view_returns_to_the_last_used() {
    let mut s = BasicState::new();
    for id in [20, 21, 22, 23] {
        s.add_view(id);
    }
    assert_eq!(s.change_view(1), Some(21));
    assert_eq!(s.change_view(3), Some(23));
    assert_eq!(s.change_view(0), Some(20));
    // the view used before 20 was 23
    assert_eq!(s.close_current_view(), CloseCurrent::Closed(20));
    assert_eq!(s.current_view_id(), Some(23));
    // then 21; 22 was never current
    assert_eq!(s.close_current_view(), CloseCurrent::Closed(23));
    assert_eq!(s.current_view_id(), Some(21));
    assert_eq!(s.close_current_view(), CloseCurrent::Closed(21));
    assert_eq!(s.current_view_id(), None);
    assert_eq!(s.view_count(), 1);
    assert_eq!(s.index_as_view_id(0), Some(22));
    // a view closed by position is forgotten from the history
    s.add_view(24);
    assert_eq!(s.change_view(1), Some(24));
    assert_eq!(s.change_view(0), Some(22));
    assert_eq!(s.close_view(1), Some(24));
    assert_eq!(s.close_current_view(), CloseCurrent::Closed(22));
    assert_eq!(s.current_view_id(), None);
}

#[test]
fn basic_url_and_title_changes() {
    let mut s = BasicState::new().with_initial_size(800, 600);
    assert_eq!(s.view_size(), (800, 600));
    assert_eq!(s.note_url("https://a/".to_string()), Some("https://a/".to_string()));
    assert_eq!(s.note_url("https://a/".to_string()), None);
    assert_eq!(s.current_url(), "https://a/");
    assert_eq!(s.note_title("T".to_string()), Some("T".to_string()));
    assert_eq!(s.note_title("T".to_string()), None);
    assert_eq!(s.current_title(), "T");
    assert!(s.resize(1024, 768));
    assert!(!s.resize(1024, 768));
}

#[test]
fn basic_navigation_epochs() {
    let mut s = BasicState::new();
    assert_eq!(s.begin_navigation(), None);
    s.add_view(3);
    s.change_view(0);
    let tag = s.image_requested(3);
    assert_eq!(s.images_in_flight(), 1);
    assert!(!s.images_settled());
    assert_eq!(s.begin_navigation(), Some(3));
    assert!(s.images_settled());
    assert!(!s.image_arrived(3, tag));
    let tag2 = s.image_requested(3);
    assert!(s.image_arrived(3, tag2));
}

#[test]
fn advanced_tracking() {
    let mut a = AdvancedState::new();
    a.track_view(1);
    a.track_view(2);
    assert_eq!(a.url_for(1), Some(""));
    assert_eq!(a.title_for(2), Some(""));
    let mut ids = a.tracked_urls();
    ids.sort();
    assert_eq!(ids, vec![1, 2]);
    assert_eq!(a.note_url(1, "https://x/".to_string()), Some("https://x/".to_string()));
    assert_eq!(a.note_url(1, "https://x/".to_string()), None);
    assert_eq!(a.note_url(9, "https://x/".to_string()), None);
    assert_eq!(a.url_for(1), Some("https://x/"));
    assert_eq!(a.note_title(2, "T".to_string()), Some("T".to_string()));
    a.close_view(1);
    assert_eq!(a.url_for(1), None);
    assert_eq!(a.title_for(1), None);
    assert_eq!(a.title_for(2), Some("T"));
    assert_eq!(a.tracked_titles(), vec![2]);
    assert_eq!(a.begin_navigation(2), 1);
    assert!(a.resize(1, 1));
    assert_eq!(a.view_size(), (1, 1));
    let tag = a.image_requested(2);
    assert!(!a.images_settled());
    assert!(a.image_arrived(2, tag));
    assert!(a.images_settled());
}

#[test]
fn string_map_read_after_write() {
    let mut m = StringMap::new();
    assert_eq!(m.len(), 0);
    m.insert("a".to_string(), "1".to_string());
    m.insert("b".to_string(), "2".to_string());
    assert_eq!(m.get("a"), Some(&"1".to_string()));
    m.insert("a".to_string(), "3".to_string());
    assert_eq!(m.get("a"), Some(&"3".to_string()));
    assert_eq!(m.get_or_empty("b"), "2");
    assert_eq!(m.get_or_empty("z"), "");
    assert_eq!(m.len(), 2);
    assert!(m.contains_key("b"));
    assert_eq!(m.entries().len(), 2);
    m.clear();
    assert!(!m.contains_key("a"));
}

#[test]
fn key_mapping() {
    assert!(matches!(engine_key(&Key::Named(NamedKey::Space)), Some(EngineKey::Character(s)) if s == " "));
    assert!(matches!(engine_key(&Key::Named(NamedKey::F5)), Some(EngineKey::Named(NamedKey::F5))));
    assert!(engine_key(&Key::Named(NamedKey::Other)).is_none());
    assert!(engine_key(&Key::Unidentified).is_none());
    assert!(matches!(engine_key(&Key::Character("q".to_string())), Some(EngineKey::Character(s)) if s == "q"));
    let mods = Modifiers { shift: true, control: false, alt: false, logo: true };
    let ev = engine_key_event(&KeyboardEvent::KeyReleased { key: Key::Named(NamedKey::Enter), modifiers: mods });
    match ev {
        Some(e) => {
            assert_eq!(e.state, KeyState::Up);
            assert!(matches!(e.key, EngineKey::Named(NamedKey::Enter)));
            assert_eq!(e.modifiers, mods);
        },
        None => panic!("expected an event"),
    }
    assert!(engine_key_event(&KeyboardEvent::Other).is_none());
    assert!(engine_key_event(&KeyboardEvent::KeyPressed { key: Key::Unidentified, modifiers: mods }).is_none());
    assert_eq!(engine_button(MouseButton::Other(9)), Some(MouseButton::Other(9)));
}

#[test]
fn view_ids_are_never_reused() {
    let mut views: ViewManager<&str> = ViewManager::new();
    assert_eq!(views.insert("a"), 0);
    assert_eq!(views.insert("b"), 1);
    assert_eq!(views.remove(0), Some("a"));
    assert_eq!(views.remove(0), None);
    assert_eq!(views.insert("c"), 2);
    assert_eq!(views.keys(), vec![1, 2]);
    assert!(views.contains(2) && !views.contains(0));
    if let Some(v) = views.get_mut(1) {
        *v = "B";
    }
    assert_eq!(views.get(1), Some(&"B"));
    assert_eq!(views.len(), 2);
    assert_eq!(views.next_id(), 3);
}
