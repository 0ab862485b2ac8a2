use oxo::error::AppErrorType;
use oxo::queue::Queue;
use oxo::track::{Author, Track};

fn track(title: &str, url: &str) -> Track {
    Track {
        title: Some(title.to_string()),
        author: Author { name: None, icon_url: None },
        thumbnail: None,
        length_secs: None,
        url: Some(url.to_string()),
    }
}

fn titles(q: &Queue) -> Vec<String> {
    q.list().iter().map(|e| e.track.title.clone().unwrap()).collect()
}

#[test]
fn enqueue_lists_in_insertion_order() {
    let mut q = Queue::new();
    q.enqueue(track("a", "u1"));
    q.enqueue(track("b", "u2"));
    q.enqueue(track("c", "u3"));
    assert_eq!(titles(&q), vec!["a".to_string(), "b".to_string(), "c".to_string()]);
}

#[test]
fn enqueue_handles_increment_from_zero() {
    let mut q = Queue::new();
    assert_eq!(q.enqueue(track("a", "u1")), 0);
    assert_eq!(q.enqueue(track("b", "u2")), 1);
    assert_eq!(q.enqueue(track("c", "u3")), 2);
    assert_eq!(q.issued_handles(), 3);
}

#[test]
fn skip_advances_to_former_second() {
    let mut q = Queue::new();
    q.enqueue(track("a", "u1"));
    q.enqueue(track("b", "u2"));
    q.enqueue(track("c", "u3"));
    assert!(q.skip().is_ok());
    assert_eq!(q.list().len(), 2);
    assert_eq!(q.current().unwrap().track.title.as_deref(), Some("b"));
}

#[test]
fn skip_on_empty_queue_fails_not_playing() {
    let mut q = Queue::new();
    let e = q.skip().unwrap_err();
    assert_eq!(e.error_type, AppErrorType::NotPlaying);
}

#[test]
fn current_is_none_on_empty_queue() {
    let q = Queue::new();
    assert!(q.current().is_none());
    assert!(q.is_empty());
}

#[test]
fn pause_and_resume_set_the_flag() {
    let mut q = Queue::new();
    q.enqueue(track("a", "u1"));
    assert!(!q.is_playing());
    assert!(q.resume().is_ok());
    assert!(q.is_playing());
    assert!(q.pause().is_ok());
    assert!(!q.is_playing());
}

#[test]
fn pause_on_empty_queue_fails_not_playing() {
    let mut q = Queue::new();
    let e = q.pause().unwrap_err();
    assert_eq!(e.error_type, AppErrorType::NotPlaying);
}

#[test]
fn resume_on_empty_queue_fails_not_playing() {
    let mut q = Queue::new();
    let e = q.resume().unwrap_err();
    assert_eq!(e.error_type, AppErrorType::NotPlaying);
}

#[test]
fn move_to_front_zero_and_one_are_noops() {
    let mut q = Queue::new();
    q.enqueue(track("a", "u1"));
    q.enqueue(track("b", "u2"));
    q.enqueue(track("c", "u3"));
    assert!(q.move_to_front(0).is_ok());
    assert_eq!(titles(&q), vec!["a".to_string(), "b".to_string(), "c".to_string()]);
    assert!(q.move_to_front(1).is_ok());
    assert_eq!(titles(&q), vec!["a".to_string(), "b".to_string(), "c".to_string()]);
}

#[test]
fn move_to_front_past_end_fails_index_out_of_range() {
    let mut q = Queue::new();
    q.enqueue(track("a", "u1"));
    q.enqueue(track("b", "u2"));
    let e = q.move_to_front(2).unwrap_err();
    assert_eq!(e.error_type, AppErrorType::IndexOutOfRange);
    let e = q.move_to_front(17).unwrap_err();
    assert_eq!(e.error_type, AppErrorType::IndexOutOfRange);
    assert_eq!(titles(&q), vec!["a".to_string(), "b".to_string()]);
}

#[test]
fn move_to_front_makes_the_element_next_to_play() {
    let mut q = Queue::new();
    q.enqueue(track("a", "u1"));
    q.enqueue(track("b", "u2"));
    q.enqueue(track("c", "u3"));
    q.enqueue(track("d", "u4"));
    assert!(q.move_to_front(3).is_ok());
    assert_eq!(titles(&q), vec!["a".to_string(), "d".to_string(), "b".to_string(), "c".to_string()]);
}

#[test]
fn shuffle_remainder_keeps_current_and_multiset() {
    let mut q = Queue::new();
    for (t, u) in [("a", "u1"), ("b", "u2"), ("c", "u3"), ("d", "u4"), ("e", "u5")] {
        q.enqueue(track(t, u));
    }
    let before = titles(&q);
    q.shuffle_remainder();
    let after = titles(&q);
    assert_eq!(after.len(), before.len());
    assert_eq!(after[0], "a");
    let mut rest_before: Vec<String> = before[1..].to_vec();
    let mut rest_after: Vec<String> = after[1..].to_vec();
    rest_before.sort();
    rest_after.sort();
    assert_eq!(rest_before, rest_after);
}

#[test]
fn shuffle_remainder_on_short_queue_changes_nothing() {
    let mut q = Queue::new();
    q.shuffle_remainder();
    assert!(q.is_empty());
    q.enqueue(track("a", "u1"));
    q.shuffle_remainder();
    assert_eq!(titles(&q), vec!["a".to_string()]);
}

#[test]
fn rotate_current_to_back_appends_fresh_copy() {
    let mut q = Queue::new();
    q.enqueue(track("a", "u1"));
    q.enqueue(track("b", "u2"));
    q.enqueue(track("c", "u3"));
    let h = q.rotate_current_to_back(track("a", "u1"));
    assert_eq!(h, 3);
    assert_eq!(titles(&q), vec!["b".to_string(), "c".to_string(), "a".to_string()]);
    assert_eq!(q.list()[2].handle, 3);
}

#[test]
fn requeue_current_front_replays_the_track() {
    let mut q = Queue::new();
    q.enqueue(track("a", "u1"));
    q.enqueue(track("b", "u2"));
    let h = q.requeue_current_front(track("a", "u1"));
    assert_eq!(h, 2);
    assert_eq!(titles(&q), vec!["a".to_string(), "b".to_string()]);
    assert_eq!(q.list()[0].handle, 2);
    assert_eq!(q.list()[1].handle, 1);
}
