use rust_ftp::connection::ConnectionManager;
use rust_ftp::controller::{LoopAction, SyncLoop};
use rust_ftp::hash_store::HashIndex;
use rust_ftp::pipeline::{should_check_peers, Action, Event, FileJob, Outcome, SizeReply, session_report_due};
use rust_ftp::session::SessionState;
use rust_ftp::transfer::{remote_dirs_to_create, remote_target, SENT_DIR_NAME};

fn run(job: &mut FileJob, mgr: &mut ConnectionManager, store: &mut HashIndex, events: Vec<Event>) -> Vec<Action> {
    let mut actions = vec![job.first_action()];
    for ev in events {
        actions.push(job.step(ev, mgr, store, 3000, 0, 0));
    }
    actions
}

#[test]
fn happy_single_upload() {
    let mut mgr = ConnectionManager::new();
    let mut store = HashIndex::new();
    let mut job = FileJob::new("/remote", "a/b.txt", false, 1000);
    let actions = run(
        &mut job,
        &mut mgr,
        &mut store,
        vec![Event::Connected, Event::LoggedIn, Event::DirEntered, Event::Size(SizeReply::Unsupported), Event::Stored],
    );
    assert_eq!(
        actions,
        vec![Action::Connect, Action::Login, Action::EnterDir, Action::QuerySize, Action::Upload, Action::Finish(Outcome::Uploaded)]
    );
    assert_eq!(remote_target("a/b.txt", true), "a/b.txt");
    assert_eq!(remote_target("a/b.txt", false), "b.txt");
    assert_eq!(remote_dirs_to_create("/remote", "a/b.txt", true), vec!["/remote".to_string(), "/remote/a".to_string()]);
    assert!(remote_dirs_to_create("/remote", "a/b.txt", false).is_empty());
    assert!(remote_dirs_to_create("/remote", "b.txt", true).is_empty());
    assert_eq!(SENT_DIR_NAME, "FTPU-Sent");
    let mut session = SessionState::new(0);
    session.add_file_upload(10, 5);
    let report = session.generate_session_report("s1", "c1");
    assert_eq!((report.total_files, report.total_bytes), (1, 10));
    assert_eq!(report.average_speed_bps, 2000);
}

#[test]
fn skip_unchanged_in_keep_mode() {
    let mut mgr = ConnectionManager::new();
    let mut store = HashIndex::new();
    let events = || vec![Event::Connected, Event::LoggedIn, Event::DirEntered, Event::Size(SizeReply::Known(10)), Event::ModTime(Some(1700)), Event::Stored];
    let mut first = FileJob::new("/remote", "a/b.txt", true, 5);
    let a1 = run(&mut first, &mut mgr, &mut store, events());
    assert_eq!(a1.last(), Some(&Action::Finish(Outcome::Uploaded)));
    assert!(a1.contains(&Action::Upload));
    assert_eq!(store.len(), 1);
    let mut second = FileJob::new("/remote", "a/b.txt", true, 6);
    let a2 = run(&mut second, &mut mgr, &mut store, events());
    assert!(!a2.contains(&Action::Upload));
    assert_eq!(a2[5], Action::Finish(Outcome::SkippedUnchanged));
    assert_eq!(store.len(), 1);
    let mut third = FileJob::new("/remote", "a/b.txt", true, 6);
    let a3 = run(&mut third, &mut mgr, &mut store, vec![Event::Connected, Event::LoggedIn, Event::DirEntered, Event::Size(SizeReply::Known(11)), Event::ModTime(Some(1700))]);
    assert_eq!(a3.last(), Some(&Action::Upload));
}

#[test]
fn retries_are_bounded_per_file() {
    let mut mgr = ConnectionManager::new();
    let mut store = HashIndex::new();
    let mut job = FileJob::new("/r", "f", false, 0);
    let a = run(
        &mut job,
        &mut mgr,
        &mut store,
        vec![
            Event::ConnectFailed("421 Service not available".to_string()),
            Event::Waited,
            Event::Connected,
            Event::LoginFailed("530 Login incorrect".to_string()),
            Event::Waited,
            Event::Connected,
            Event::LoggedIn,
            Event::DirEntered,
            Event::Size(SizeReply::Known(3)),
            Event::StoreFailed("broken pipe".to_string()),
        ],
    );
    assert_eq!(a[1], Action::Wait(2000));
    assert_eq!(a[4], Action::Wait(3000));
    assert_eq!(a[10], Action::Finish(Outcome::Failed));
    assert_eq!(mgr.get_failure_count(), 3);
    assert!(mgr.should_reduce_connections());
}

#[test]
fn missing_file_and_refused_directory() {
    let mut mgr = ConnectionManager::new();
    let mut store = HashIndex::new();
    let mut job = FileJob::new("/r", "f", false, 0);
    let a = run(&mut job, &mut mgr, &mut store, vec![Event::Connected, Event::LoggedIn, Event::DirEntered, Event::Size(SizeReply::Missing)]);
    assert_eq!(a[4], Action::Finish(Outcome::SkippedMissing));
    let mut job = FileJob::new("/r", "f", false, 0);
    let a = run(&mut job, &mut mgr, &mut store, vec![Event::Connected, Event::Stored, Event::LoggedIn, Event::DirFailed]);
    assert_eq!(a[2], Action::Login);
    assert_eq!(a[4], Action::Finish(Outcome::Failed));
}

#[test]
fn shutdown_mid_wait() {
    let mut l = SyncLoop::new(1000);
    assert_eq!(l.next(false, false), LoopAction::RunIteration(1));
    assert_eq!(l.next(false, false), LoopAction::Sleep(100));
    assert_eq!(l.next(false, false), LoopAction::Sleep(100));
    assert_eq!(l.next(true, false), LoopAction::Stop);
    assert_eq!(l.next(false, false), LoopAction::Stop);
}

#[test]
fn loop_runs_again_after_the_interval() {
    let mut l = SyncLoop::new(250);
    assert_eq!(l.next(false, false), LoopAction::RunIteration(1));
    assert_eq!(l.next(false, false), LoopAction::Sleep(100));
    assert_eq!(l.next(false, false), LoopAction::Sleep(100));
    assert_eq!(l.next(false, false), LoopAction::Sleep(100));
    assert_eq!(l.next(false, false), LoopAction::RunIteration(2));
    assert_eq!(l.next(false, true), LoopAction::Stop);
    let mut once = SyncLoop::new(0);
    assert_eq!(once.next(false, false), LoopAction::RunIteration(1));
    assert_eq!(once.next(false, false), LoopAction::Stop);
    let mut stopped = SyncLoop::new(1000);
    assert_eq!(stopped.next(false, true), LoopAction::Stop);
}

#[test]
fn peers_checked_every_third_iteration() {
    let checked: Vec<u64> = (1..=7).filter(|i| should_check_peers(*i)).collect();
    assert_eq!(checked, vec![1, 4, 7]);
    assert!(session_report_due(3));
    assert!(!session_report_due(0));
    assert!(!session_report_due(4));
}
