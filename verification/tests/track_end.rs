use oxo::policy::LoopMode;
use oxo::queue::Queue;
use oxo::router::{apply_track_end, plan_track_end, TrackEndOutcome};
use oxo::track::{Author, Track};

fn track(title: &str, url: &str) -> Track {
    Track {
        title: Some(title.to_string()),
        author: Author { name: None, icon_url: None },
        thumbnail: None,
        length_secs: None,
        url: Some(url.to_string()),
    }
}

fn titles(q: &Queue) -> Vec<String> {
    q.list().iter().map(|e| e.track.title.clone().unwrap()).collect()
}

#[test]
fn plan_reads_policy_and_current() {
    let mut q = Queue::new();
    let h = q.enqueue(track("a", "u1"));
    let p = plan_track_end(&q, LoopMode::Track, h);
    assert_eq!(p.policy, LoopMode::Track);
    assert!(p.current_matches);
    assert!(p.needs_resource);
    let p = plan_track_end(&q, LoopMode::Off, h);
    assert_eq!(p.policy, LoopMode::Off);
    assert!(p.current_matches);
    assert!(!p.needs_resource);
}

#[test]
fn plan_is_stale_for_a_non_current_handle() {
    let mut q = Queue::new();
    let h = q.enqueue(track("a", "u1"));
    let p = plan_track_end(&q, LoopMode::Queue, h + 1);
    assert!(!p.current_matches);
    assert!(!p.needs_resource);
}

#[test]
fn plan_needs_no_resource_without_locator() {
    let mut q = Queue::new();
    let mut t = track("a", "u1");
    t.url = None;
    let h = q.enqueue(t);
    let p = plan_track_end(&q, LoopMode::Track, h);
    assert!(p.current_matches);
    assert!(!p.needs_resource);
}

#[test]
fn off_policy_drops_and_leaves_when_empty() {
    let mut q = Queue::new();
    let h = q.enqueue(track("a", "u1"));
    let out = apply_track_end(&mut q, LoopMode::Off, h, None);
    assert_eq!(out, TrackEndOutcome::Handled { leave: true });
    assert!(q.is_empty());
}

#[test]
fn off_policy_advances_without_leaving_when_more_remains() {
    let mut q = Queue::new();
    let h = q.enqueue(track("a", "u1"));
    q.enqueue(track("b", "u2"));
    let out = apply_track_end(&mut q, LoopMode::Off, h, None);
    assert_eq!(out, TrackEndOutcome::Handled { leave: false });
    assert_eq!(titles(&q), vec!["b".to_string()]);
}

#[test]
fn leave_is_signalled_only_once_per_empty_transition() {
    let mut q = Queue::new();
    let h = q.enqueue(track("a", "u1"));
    let out = apply_track_end(&mut q, LoopMode::Off, h, None);
    assert_eq!(out, TrackEndOutcome::Handled { leave: true });
    let again = apply_track_end(&mut q, LoopMode::Off, h, None);
    assert_eq!(again, TrackEndOutcome::Stale);
    assert!(q.is_empty());
}

#[test]
fn track_policy_replays_the_resourced_track() {
    let mut q = Queue::new();
    let h = q.enqueue(track("a", "u1"));
    q.enqueue(track("b", "u2"));
    let out = apply_track_end(&mut q, LoopMode::Track, h, Some(track("a", "u1")));
    assert_eq!(out, TrackEndOutcome::Handled { leave: false });
    assert_eq!(titles(&q), vec!["a".to_string(), "b".to_string()]);
    // the re-sourced copy is a new item: its handle is fresh
    assert_eq!(q.list()[0].handle, 2);
    assert_eq!(q.list()[1].handle, 1);
}

#[test]
fn queue_policy_rotates_the_resourced_track_to_the_back() {
    let mut q = Queue::new();
    let h = q.enqueue(track("a", "u1"));
    q.enqueue(track("b", "u2"));
    q.enqueue(track("c", "u3"));
    let out = apply_track_end(&mut q, LoopMode::Queue, h, Some(track("a", "u1")));
    assert_eq!(out, TrackEndOutcome::Handled { leave: false });
    assert_eq!(titles(&q), vec!["b".to_string(), "c".to_string(), "a".to_string()]);
    assert_eq!(q.current().unwrap().track.title.as_deref(), Some("b"));
    assert_eq!(q.list()[2].handle, 3);
}

#[test]
fn failed_resourcing_degrades_to_dropping_the_track() {
    let mut q = Queue::new();
    let h = q.enqueue(track("a", "u1"));
    q.enqueue(track("b", "u2"));
    let out = apply_track_end(&mut q, LoopMode::Track, h, None);
    assert_eq!(out, TrackEndOutcome::Handled { leave: false });
    assert_eq!(titles(&q), vec!["b".to_string()]);
}

#[test]
fn skip_racing_a_track_end_advances_exactly_once() {
    let mut q = Queue::new();
    let h = q.enqueue(track("a", "u1"));
    q.enqueue(track("b", "u2"));
    // the user skips while the same track's natural end is in flight
    assert!(q.skip().is_ok());
    let out = apply_track_end(&mut q, LoopMode::Off, h, None);
    assert_eq!(out, TrackEndOutcome::Stale);
    assert_eq!(titles(&q), vec!["b".to_string()]);
}
