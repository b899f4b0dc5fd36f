use tetrs_engine::events::{EventMap, InternalEvent};

#[test]
fn event_map_keeps_one_time_per_event() {
    let mut m = EventMap::new();
    assert!(m.is_empty());
    m.insert(InternalEvent::Fall, 5);
    m.insert(InternalEvent::Spawn, 5);
    m.insert(InternalEvent::Lock, 3);
    assert_eq!(m.get(InternalEvent::Fall), Some(5));
    m.insert(InternalEvent::Fall, 9);
    assert_eq!(m.get(InternalEvent::Fall), Some(9));
    assert!(m.contains_key(InternalEvent::Lock));
    assert!(!m.contains_key(InternalEvent::HardDrop));
    m.remove(InternalEvent::Lock);
    assert!(!m.contains_key(InternalEvent::Lock));
    m.clear();
    assert!(m.is_empty());
    assert_eq!(m.first(), None);
}

#[test]
fn first_event_by_time_then_kind() {
    let mut m = EventMap::new();
    m.insert(InternalEvent::Fall, 5);
    m.insert(InternalEvent::Spawn, 5);
    m.insert(InternalEvent::Rotate(1), 5);
    m.insert(InternalEvent::Lock, 3);
    assert_eq!(m.first(), Some((InternalEvent::Lock, 3)));
    m.remove(InternalEvent::Lock);
    assert_eq!(m.first(), Some((InternalEvent::Spawn, 5)));
    m.remove(InternalEvent::Spawn);
    assert_eq!(m.first(), Some((InternalEvent::Fall, 5)));
    m.remove(InternalEvent::Fall);
    assert_eq!(m.first(), Some((InternalEvent::Rotate(1), 5)));
}
