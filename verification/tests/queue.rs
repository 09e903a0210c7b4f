use grapevined::queue::Queue;

#[test]
fn fifo_peek_after_each_append() {
    let mut q = Queue::new();
    assert!(q.peek().is_none());
    q.append("/a.mp3".to_string());
    assert_eq!(q.peek().unwrap(), "/a.mp3");
    q.append("/b.mp3".to_string());
    assert_eq!(q.peek().unwrap(), "/a.mp3");
    q.append("/c.mp3".to_string());
    assert_eq!(q.peek().unwrap(), "/a.mp3");
    q.move_next();
    assert_eq!(q.peek().unwrap(), "/b.mp3");
}

#[test]
fn loop_current_never_changes_peek() {
    let mut q = Queue::new();
    q.append("/a.mp3".to_string());
    q.append("/b.mp3".to_string());
    q.loop_song();
    for _ in 0..5 {
        q.move_next();
        assert_eq!(q.peek().unwrap(), "/a.mp3");
    }
    assert_eq!(q.len(), 2);
}

#[test]
fn loop_all_cycles_back_after_full_round() {
    let mut q = Queue::new();
    q.append("/a.mp3".to_string());
    q.append("/b.mp3".to_string());
    q.append("/c.mp3".to_string());
    q.loop_queue();
    assert_eq!(q.peek().unwrap(), "/a.mp3");
    q.move_next();
    assert_eq!(q.peek().unwrap(), "/b.mp3");
    q.move_next();
    assert_eq!(q.peek().unwrap(), "/c.mp3");
    q.move_next();
    assert_eq!(q.peek().unwrap(), "/a.mp3");
    assert_eq!(q.len(), 3);
}

#[test]
fn loop_all_single_entry_stays_put() {
    let mut q = Queue::new();
    q.append("/a.mp3".to_string());
    q.loop_queue();
    q.move_next();
    assert_eq!(q.peek().unwrap(), "/a.mp3");
    assert_eq!(q.len(), 1);
}

#[test]
fn no_repeat_consumes_one_entry_per_step() {
    let mut q = Queue::new();
    q.append("/a.mp3".to_string());
    q.append("/b.mp3".to_string());
    q.append("/c.mp3".to_string());
    q.move_next();
    assert_eq!(q.len(), 2);
    assert!(!q.is_empty());
    q.move_next();
    assert_eq!(q.len(), 1);
    assert!(!q.is_empty());
    q.move_next();
    assert!(q.is_empty());
}

#[test]
fn clear_empties_and_unsets_both_flags() {
    let mut q = Queue::new();
    q.append("/a.mp3".to_string());
    q.loop_song();
    q.loop_queue();
    q.clear();
    assert!(q.is_empty());
    assert!(q.peek().is_none());
    // with both flags cleared, advancement consumes again
    q.append("/a.mp3".to_string());
    q.append("/b.mp3".to_string());
    q.move_next();
    assert_eq!(q.len(), 1);
}

#[test]
fn remove_curr_drops_the_entry_under_the_cursor() {
    let mut q = Queue::new();
    q.append("/a.mp3".to_string());
    q.append("/b.mp3".to_string());
    q.remove_curr();
    assert_eq!(q.len(), 1);
    assert_eq!(q.peek().unwrap(), "/b.mp3");
}

#[test]
fn load_m3u_reports_count_and_appends_in_order() {
    let mut q = Queue::new();
    let r = q.load_m3u("list.m3u", Some("#EXTM3U\n\n/a.mp3\n/b.mp3\n"));
    assert_eq!(r, Some(2));
    assert_eq!(q.len(), 2);
    assert_eq!(q.peek().unwrap(), "/a.mp3");
    q.move_next();
    assert_eq!(q.peek().unwrap(), "/b.mp3");
    q.move_next();
    assert!(q.is_empty());
}

#[test]
fn load_m3u_rejects_wrong_extension_without_touching_the_queue() {
    let mut q = Queue::new();
    q.append("/keep.mp3".to_string());
    assert_eq!(q.load_m3u("list.txt", Some("/a.mp3\n")), None);
    assert_eq!(q.len(), 1);
    assert_eq!(q.peek().unwrap(), "/keep.mp3");
}

#[test]
fn load_m3u_rejects_unreadable_file() {
    let mut q = Queue::new();
    assert_eq!(q.load_m3u("list.m3u", None), None);
    assert!(q.is_empty());
}

#[test]
fn load_m3u_empty_playlist_is_success_not_failure() {
    let mut q = Queue::new();
    assert_eq!(q.load_m3u("list.m3u", Some("")), Some(0));
    assert_eq!(q.load_m3u("list.m3u", Some("#EXTM3U\n")), Some(0));
    assert!(q.is_empty());
}

#[test]
fn load_m3u_appends_after_existing_entries() {
    let mut q = Queue::new();
    q.append("/old.mp3".to_string());
    assert_eq!(q.load_m3u("list.m3u", Some("/new.mp3\n")), Some(1));
    assert_eq!(q.peek().unwrap(), "/old.mp3");
    q.move_next();
    assert_eq!(q.peek().unwrap(), "/new.mp3");
}
