use worldview::{watch_action, Change, Pace, Playback, WatchAction, SENTINEL_NAME};

#[test]
fn first_file_goes_at_once() {
    let mut p = Playback::new();
    assert_eq!(p.begin_pass(3), Pace::Now);
    assert_eq!(p.offer(Some(1)), Pace::Now);
}

#[test]
fn same_instance_goes_back_to_back() {
    let mut p = Playback::new();
    p.begin_pass(3);
    assert_eq!(p.offer(Some(1)), Pace::Now);
    assert_eq!(p.offer(Some(1)), Pace::Now);
    assert_eq!(p.offer(Some(2)), Pace::AfterDelay);
    assert_eq!(p.offer(Some(2)), Pace::Now);
}

#[test]
fn new_pass_waits_first() {
    let mut p = Playback::new();
    p.begin_pass(1);
    assert_eq!(p.offer(Some(1)), Pace::Now);
    assert_eq!(p.begin_pass(1), Pace::Now);
    assert_eq!(p.offer(Some(1)), Pace::AfterDelay);
}

#[test]
fn empty_listing_waits() {
    let mut p = Playback::new();
    assert_eq!(p.begin_pass(0), Pace::AfterDelay);
}

#[test]
fn shutdown_during_wait_halts_playback() {
    let mut p = Playback::new();
    p.begin_pass(3);
    assert_eq!(p.offer(Some(1)), Pace::Now);
    assert_eq!(p.offer(Some(2)), Pace::AfterDelay);
    p.stop();
    assert_eq!(p.offer(Some(2)), Pace::Halt);
    assert_eq!(p.offer(Some(3)), Pace::Halt);
    assert_eq!(p.begin_pass(5), Pace::Halt);
    assert!(p.stopped);
}

#[test]
fn watcher_actions() {
    assert_eq!(watch_action(SENTINEL_NAME, Change::Written), WatchAction::Shutdown);
    assert_eq!(watch_action("exit_sentinel", Change::Deleted), WatchAction::Shutdown);
    assert_eq!(watch_action("1.a.ply", Change::Written), WatchAction::Add);
    assert_eq!(watch_action("1.a.ply", Change::Deleted), WatchAction::Remove);
    assert_eq!(watch_action("1.a.ply", Change::Other), WatchAction::Ignore);
}
