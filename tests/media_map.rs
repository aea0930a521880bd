use playout_core::media_map::MediaMap;

#[test]
fn oldest_entry_makes_room() {
    let mut m: MediaMap<f64> = MediaMap::create(2);
    m.add_obj("a.mp4".to_string(), 10.5);
    m.add_obj("b.mp4".to_string(), 20.0);
    m.add_obj("c.mp4".to_string(), 30.25);
    assert_eq!(m.get_obj("a.mp4"), None);
    assert_eq!(m.get_obj("b.mp4"), Some(20.0));
    assert_eq!(m.get_obj("c.mp4"), Some(30.25));
}

#[test]
fn re_adding_a_key_replaces_its_value() {
    let mut m: MediaMap<f64> = MediaMap::create(1);
    m.add_obj("a.mp4".to_string(), 1.0);
    m.add_obj("a.mp4".to_string(), 2.0);
    assert_eq!(m.get_obj("a.mp4"), Some(2.0));
}

#[test]
fn duplicate_queue_entries_evict_in_order() {
    let mut m: MediaMap<f64> = MediaMap::create(3);
    m.add_obj("a".to_string(), 1.0);
    m.add_obj("a".to_string(), 1.5);
    m.add_obj("b".to_string(), 2.0);
    m.add_obj("c".to_string(), 3.0);
    m.add_obj("d".to_string(), 4.0);
    // the first queued "a" was evicted
    assert_eq!(m.get_obj("a"), None);
    assert_eq!(m.get_obj("d"), Some(4.0));
    m.add_obj("e".to_string(), 5.0);
    // the second queued "a" held nothing any more; "b" stays
    assert_eq!(m.get_obj("b"), Some(2.0));
    assert_eq!(m.get_obj("e"), Some(5.0));
    m.add_obj("f".to_string(), 6.0);
    assert_eq!(m.get_obj("b"), None);
}

#[test]
fn update_moves_value_to_new_key() {
    let mut m: MediaMap<f64> = MediaMap::create(2);
    m.add_obj("old.mp4".to_string(), 12.0);
    m.add_obj("other.mp4".to_string(), 7.0);
    m.update_obj("old.mp4", "new.mp4");
    assert_eq!(m.get_obj("old.mp4"), None);
    assert_eq!(m.get_obj("new.mp4"), Some(12.0));
    // the new key took the old one's place: it is evicted first
    m.add_obj("third.mp4".to_string(), 3.0);
    assert_eq!(m.get_obj("new.mp4"), None);
    assert_eq!(m.get_obj("other.mp4"), Some(7.0));
}

#[test]
fn update_of_missing_key_changes_nothing() {
    let mut m: MediaMap<f64> = MediaMap::create(2);
    m.add_obj("a".to_string(), 1.0);
    m.update_obj("zzz", "b");
    assert_eq!(m.get_obj("b"), None);
    assert_eq!(m.get_obj("a"), Some(1.0));
}

#[test]
fn remove_drops_entry_and_queue_slot() {
    let mut m: MediaMap<f64> = MediaMap::create(2);
    m.add_obj("a".to_string(), 1.0);
    m.add_obj("b".to_string(), 2.0);
    m.remove_obj("a");
    assert_eq!(m.get_obj("a"), None);
    m.add_obj("c".to_string(), 3.0);
    // one entry left room for "c" without eviction
    assert_eq!(m.get_obj("b"), Some(2.0));
    assert_eq!(m.get_obj("c"), Some(3.0));
    m.add_obj("d".to_string(), 4.0);
    // "a" left the queue too, so the oldest queued key is now "b"
    assert_eq!(m.get_obj("b"), None);
    assert_eq!(m.get_obj("c"), Some(3.0));
}
