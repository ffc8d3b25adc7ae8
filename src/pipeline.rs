//! Decisions of the upload pipeline: the per-file job that drives one FTP
//! session through connect, login, size and time queries, the unchanged
//! test and the store, with bounded retries; the worker count of an
//! iteration; and when peers are consulted.
use vstd::prelude::*;
use crate::connection::{after_failure, ConnectionManager};
use crate::fingerprint::{compute_file_hash, fingerprint_of};
use crate::hash_store::{lookup, HashIndex, RecordView};

verus! {

/// Connection attempts per file before it counts as failed.
pub const MAX_CONNECTION_RETRIES: u32 = 3;

/// How the processing of one file ended.
#[derive(Clone, Copy, Debug, PartialEq, Eq, Structural)]
pub enum Outcome {
    /// Stored on the server.
    Uploaded,
    /// The size query said the file does not exist: skipped, not an error.
    SkippedMissing,
    /// Its fingerprint matches the stored one: nothing to send.
    SkippedUnchanged,
    /// Retries exhausted or the remote directory was refused.
    Failed,
}

/// Where a file job stands.
#[derive(Clone, Copy, Debug, PartialEq, Eq, Structural)]
pub enum Phase {
    Connecting,
    LoggingIn,
    EnteringDir,
    QueryingSize,
    QueryingModTime,
    Uploading,
    Waiting,
    Done(Outcome),
}

/// What the worker must do next.
#[derive(Clone, Copy, Debug, PartialEq, Eq, Structural)]
pub enum Action {
    /// Open a new FTP session to the server.
    Connect,
    /// Authenticate.
    Login,
    /// Change to the remote destination directory.
    EnterDir,
    /// Switch to binary type (ignoring a refusal) and ask for the file's size.
    QuerySize,
    /// Ask for the file's modification time.
    QueryModTime,
    /// Set the transfer type, create parent directories, store the file, reset
    /// to binary.
    Upload,
    /// Close the session and sleep this many milliseconds.
    Wait(u64),
    /// Close the session; the file is done.
    Finish(Outcome),
}

/// The three answers to a size query.
#[derive(Clone, Copy, Debug, PartialEq, Eq, Structural)]
pub enum SizeReply {
    Known(u64),
    Missing,
    Unsupported,
}

/// What happened when the worker carried out the last action.
#[derive(Debug)]
pub enum Event {
    Connected,
    ConnectFailed(String),
    LoggedIn,
    LoginFailed(String),
    DirEntered,
    DirFailed,
    Size(SizeReply),
    /// The modification time in seconds since the epoch, if the server gave one.
    ModTime(Option<i64>),
    Stored,
    StoreFailed(String),
    Waited,
}

/// The changing part of a file job.
#[derive(Clone, Copy, Debug, PartialEq, Eq, Structural)]
pub struct JobState {
    pub phase: Phase,
    /// Connection attempt under way, from 1.
    pub attempt: u32,
    /// Size the server reported, if it did.
    pub size: Option<u64>,
    /// Modification time used for the fingerprint.
    pub mod_time: i64,
    /// Fingerprint computed in keep mode, recorded after a successful store.
    pub fingerprint: Option<u64>,
}

/// One file's trip through the pipeline.
#[derive(Debug)]
pub struct FileJob {
    /// Remote destination directory: the store's key directory.
    pub remote_dir: String,
    /// Path relative to the local source root: the store's key name.
    pub relative_path: String,
    /// Skip files whose fingerprint is unchanged, and record fingerprints.
    pub keep_mode: bool,
    /// Fallback modification time when the server gives none.
    pub now_secs: i64,
    pub state: JobState,
}

/// The action that leads out of a phase.
pub open spec fn action_of(p: Phase) -> Action {
    match p {
        Phase::Connecting => Action::Connect,
        Phase::LoggingIn => Action::Login,
        Phase::EnteringDir => Action::EnterDir,
        Phase::QueryingSize => Action::QuerySize,
        Phase::QueryingModTime => Action::QueryModTime,
        Phase::Uploading => Action::Upload,
        Phase::Waiting => Action::Connect,
        Phase::Done(o) => Action::Finish(o),
    }
}

pub open spec fn with_phase(st: JobState, p: Phase) -> JobState {
    JobState { phase: p, ..st }
}

/// A failed connect, login or store: recorded with the manager; retried after
/// its delay while attempts remain, else the file fails.
pub open spec fn failure_step(
    st: JobState,
    mgr: ConnectionManager,
    text: Seq<char>,
    sync_interval_ms: int,
    now_ms: i64,
    seed: int,
) -> (JobState, ConnectionManager, Action) {
    let (m2, res) = after_failure(mgr, text, sync_interval_ms, now_ms, seed);
    if st.attempt >= MAX_CONNECTION_RETRIES {
        (with_phase(st, Phase::Done(Outcome::Failed)), m2, Action::Finish(Outcome::Failed))
    } else {
        (JobState { phase: Phase::Waiting, attempt: (st.attempt + 1) as u32, ..st }, m2, Action::Wait(res.1))
    }
}

/// The phase after the size is known (or unknown but not missing).
pub open spec fn after_size(keep: bool) -> Phase {
    if keep { Phase::QueryingModTime } else { Phase::Uploading }
}

/// One step of a file job: the new state, manager and store, and the next
/// action. Events that do not answer the current phase's action change
/// nothing and repeat that action.
pub open spec fn step_of(
    st: JobState,
    ev: Event,
    mgr: ConnectionManager,
    store: Seq<RecordView>,
    dir: Seq<char>,
    file: Seq<char>,
    keep: bool,
    now_secs: i64,
    sync_interval_ms: int,
    now_ms: i64,
    seed: int,
) -> (JobState, ConnectionManager, Seq<RecordView>, Action) {
    let same = (st, mgr, store, action_of(st.phase));
    match (st.phase, ev) {
        (Phase::Connecting, Event::Connected) => (with_phase(st, Phase::LoggingIn), mgr, store, Action::Login),
        (Phase::Connecting, Event::ConnectFailed(t)) | (Phase::LoggingIn, Event::LoginFailed(t)) | (
            Phase::Uploading,
            Event::StoreFailed(t),
        ) => {
            let (s2, m2, a) = failure_step(st, mgr, t@, sync_interval_ms, now_ms, seed);
            (s2, m2, store, a)
        },
        (Phase::LoggingIn, Event::LoggedIn) => (with_phase(st, Phase::EnteringDir), mgr, store, Action::EnterDir),
        (Phase::EnteringDir, Event::DirEntered) => (with_phase(st, Phase::QueryingSize), mgr, store, Action::QuerySize),
        (Phase::EnteringDir, Event::DirFailed) => (
            with_phase(st, Phase::Done(Outcome::Failed)),
            mgr,
            store,
            Action::Finish(Outcome::Failed),
        ),
        (Phase::QueryingSize, Event::Size(r)) => match r {
            SizeReply::Missing => (
                with_phase(st, Phase::Done(Outcome::SkippedMissing)),
                mgr,
                store,
                Action::Finish(Outcome::SkippedMissing),
            ),
            SizeReply::Known(n) => (
                JobState { phase: after_size(keep), size: Some(n), ..st },
                mgr,
                store,
                action_of(after_size(keep)),
            ),
            SizeReply::Unsupported => (
                JobState { phase: after_size(keep), size: None, ..st },
                mgr,
                store,
                action_of(after_size(keep)),
            ),
        },
        (Phase::QueryingModTime, Event::ModTime(m)) => {
            let mtime = match m {
                Some(t) => t,
                None => now_secs,
            };
            let size = match st.size {
                Some(n) => n,
                None => 0u64,
            };
            let fp = fingerprint_of(dir, file, size, mtime);
            if lookup(store, dir, file) matches Some(v) && v.2 == fp {
                (
                    JobState { phase: Phase::Done(Outcome::SkippedUnchanged), mod_time: mtime, ..st },
                    mgr,
                    store,
                    Action::Finish(Outcome::SkippedUnchanged),
                )
            } else {
                (
                    JobState { phase: Phase::Uploading, mod_time: mtime, fingerprint: Some(fp), ..st },
                    mgr,
                    store,
                    Action::Upload,
                )
            }
        },
        (Phase::Uploading, Event::Stored) => {
            let m2 = ConnectionManager { failed_attempts: 0, last_failure_ms: None, server_limit_detected: false };
            let size = match st.size {
                Some(n) => n,
                None => 0u64,
            };
            let s2 = match st.fingerprint {
                Some(fp) => if keep { store.push((dir, file, size, st.mod_time, fp)) } else { store },
                None => store,
            };
            (with_phase(st, Phase::Done(Outcome::Uploaded)), m2, s2, Action::Finish(Outcome::Uploaded))
        },
        (Phase::Waiting, Event::Waited) => (with_phase(st, Phase::Connecting), mgr, store, Action::Connect),
        _ => same,
    }
}

impl FileJob {
    /// A job for the file at `relative_path`, about to connect for the first time.
    pub fn new(remote_dir: &str, relative_path: &str, keep_mode: bool, now_secs: i64) -> (r: FileJob)
        ensures
            r.remote_dir@ == remote_dir@,
            r.relative_path@ == relative_path@,
            r.keep_mode == keep_mode,
            r.now_secs == now_secs,
            r.state == (JobState {
                phase: Phase::Connecting,
                attempt: 1,
                size: None,
                mod_time: now_secs,
                fingerprint: None,
            }),
    {
        FileJob {
            remote_dir: remote_dir.to_owned(),
            relative_path: relative_path.to_owned(),
            keep_mode,
            now_secs,
            state: JobState { phase: Phase::Connecting, attempt: 1, size: None, mod_time: now_secs, fingerprint: None },
        }
    }

    /// The action that starts the job.
    pub fn first_action(&self) -> (r: Action)
        ensures
            r == action_of(self.state.phase),
    {
        match self.state.phase {
            Phase::Connecting => Action::Connect,
            Phase::LoggingIn => Action::Login,
            Phase::EnteringDir => Action::EnterDir,
            Phase::QueryingSize => Action::QuerySize,
            Phase::QueryingModTime => Action::QueryModTime,
            Phase::Uploading => Action::Upload,
            Phase::Waiting => Action::Connect,
            Phase::Done(o) => Action::Finish(o),
        }
    }

    fn fail(&mut self, text: &str, mgr: &mut ConnectionManager, sync_interval_ms: i64, now_ms: i64, seed: u64) -> (r: Action)
        ensures
            final(self).remote_dir == old(self).remote_dir,
            final(self).relative_path == old(self).relative_path,
            final(self).keep_mode == old(self).keep_mode,
            final(self).now_secs == old(self).now_secs,
            (final(self).state, *final(mgr), r) == failure_step(
                old(self).state,
                *old(mgr),
                text@,
                sync_interval_ms as int,
                now_ms,
                seed as int,
            ),
    {
        let (_, delay) = mgr.record_failure(text, sync_interval_ms, now_ms, seed);
        if self.state.attempt >= MAX_CONNECTION_RETRIES {
            self.state.phase = Phase::Done(Outcome::Failed);
            Action::Finish(Outcome::Failed)
        } else {
            self.state.phase = Phase::Waiting;
            self.state.attempt = self.state.attempt + 1;
            Action::Wait(delay)
        }
    }

    /// Advances the job by the event that answered its last action, and
    /// returns the next action. Failures are recorded with `mgr`, whose
    /// delay uses `now_ms` and the jitter `seed`; in keep mode the store is
    /// consulted before the upload and given the file's fingerprint after it.
    pub fn step(
        &mut self,
        ev: Event,
        mgr: &mut ConnectionManager,
        store: &mut HashIndex,
        sync_interval_ms: i64,
        now_ms: i64,
        seed: u64,
    ) -> (r: Action)
        ensures
            final(self).remote_dir == old(self).remote_dir,
            final(self).relative_path == old(self).relative_path,
            final(self).keep_mode == old(self).keep_mode,
            final(self).now_secs == old(self).now_secs,
            (final(self).state, *final(mgr), final(store).view_records(), r) == step_of(
                old(self).state,
                ev,
                *old(mgr),
                old(store).view_records(),
                old(self).remote_dir@,
                old(self).relative_path@,
                old(self).keep_mode,
                old(self).now_secs,
                sync_interval_ms as int,
                now_ms,
                seed as int,
            ),
    {
        match (self.state.phase, ev) {
            (Phase::Connecting, Event::Connected) => {
                self.state.phase = Phase::LoggingIn;
                Action::Login
            },
            (Phase::Connecting, Event::ConnectFailed(t)) => self.fail(t.as_str(), mgr, sync_interval_ms, now_ms, seed),
            (Phase::LoggingIn, Event::LoginFailed(t)) => self.fail(t.as_str(), mgr, sync_interval_ms, now_ms, seed),
            (Phase::Uploading, Event::StoreFailed(t)) => self.fail(t.as_str(), mgr, sync_interval_ms, now_ms, seed),
            (Phase::LoggingIn, Event::LoggedIn) => {
                self.state.phase = Phase::EnteringDir;
                Action::EnterDir
            },
            (Phase::EnteringDir, Event::DirEntered) => {
                self.state.phase = Phase::QueryingSize;
                Action::QuerySize
            },
            (Phase::EnteringDir, Event::DirFailed) => {
                self.state.phase = Phase::Done(Outcome::Failed);
                Action::Finish(Outcome::Failed)
            },
            (Phase::QueryingSize, Event::Size(reply)) => {
                match reply {
                    SizeReply::Missing => {
                        self.state.phase = Phase::Done(Outcome::SkippedMissing);
                        return Action::Finish(Outcome::SkippedMissing);
                    },
                    SizeReply::Known(n) => {
                        self.state.size = Some(n);
                    },
                    SizeReply::Unsupported => {
                        self.state.size = None;
                    },
                }
                if self.keep_mode {
                    self.state.phase = Phase::QueryingModTime;
                    Action::QueryModTime
                } else {
                    self.state.phase = Phase::Uploading;
                    Action::Upload
                }
            },
            (Phase::QueryingModTime, Event::ModTime(m)) => {
                let mtime = match m {
                    Some(t) => t,
                    None => self.now_secs,
                };
                let size = match self.state.size {
                    Some(n) => n,
                    None => 0,
                };
                let fp = compute_file_hash(self.relative_path.as_str(), self.remote_dir.as_str(), size, mtime);
                self.state.mod_time = mtime;
                let unchanged = match store.get(self.remote_dir.as_str(), self.relative_path.as_str()) {
                    Some(v) => v.2 == fp,
                    None => false,
                };
                if unchanged {
                    self.state.phase = Phase::Done(Outcome::SkippedUnchanged);
                    Action::Finish(Outcome::SkippedUnchanged)
                } else {
                    self.state.phase = Phase::Uploading;
                    self.state.fingerprint = Some(fp);
                    Action::Upload
                }
            },
            (Phase::Uploading, Event::Stored) => {
                mgr.record_success();
                let size = match self.state.size {
                    Some(n) => n,
                    None => 0,
                };
                match self.state.fingerprint {
                    Some(fp) => {
                        if self.keep_mode {
                            store.record(self.remote_dir.as_str(), self.relative_path.as_str(), size, self.state.mod_time, fp);
                        }
                    },
                    None => {},
                }
                self.state.phase = Phase::Done(Outcome::Uploaded);
                Action::Finish(Outcome::Uploaded)
            },
            (Phase::Waiting, Event::Waited) => {
                self.state.phase = Phase::Connecting;
                Action::Connect
            },
            _ => self.first_action(),
        }
    }
}

/// Idempotence in keep mode: once a file seen with size `size` and time
/// `mtime` has been stored, and its fingerprint recorded, a later job that
/// sees the same size and time finishes as unchanged instead of uploading.
pub proof fn stored_file_is_skipped_when_unchanged(
    first: JobState,
    later: JobState,
    mgr: ConnectionManager,
    store: Seq<RecordView>,
    dir: Seq<char>,
    file: Seq<char>,
    size: u64,
    mtime: i64,
    now_secs: i64,
    sync_interval_ms: int,
    now_ms: i64,
    seed: int,
)
    requires
        first.phase == Phase::QueryingModTime,
        first.size == Some(size),
        later.phase == Phase::QueryingModTime,
        later.size == Some(size),
    ensures
        ({
            let (s1, m1, store1, a1) = step_of(
                first,
                Event::ModTime(Some(mtime)),
                mgr,
                store,
                dir,
                file,
                true,
                now_secs,
                sync_interval_ms,
                now_ms,
                seed,
            );
            let (s2, m2, store2, a2) = step_of(
                s1,
                Event::Stored,
                m1,
                store1,
                dir,
                file,
                true,
                now_secs,
                sync_interval_ms,
                now_ms,
                seed,
            );
            let (s3, m3, store3, a3) = step_of(
                later,
                Event::ModTime(Some(mtime)),
                m2,
                store2,
                dir,
                file,
                true,
                now_secs,
                sync_interval_ms,
                now_ms,
                seed,
            );
            a3 == Action::Finish(Outcome::SkippedUnchanged) && store3 == store2
        }),
{
    let fp = fingerprint_of(dir, file, size, mtime);
    let (s1, m1, store1, a1) = step_of(first, Event::ModTime(Some(mtime)), mgr, store, dir, file, true, now_secs, sync_interval_ms, now_ms, seed);
    if !(lookup(store, dir, file) matches Some(v) && v.2 == fp) {
        let store2 = store1.push((dir, file, size, mtime, fp));
        assert(store2.drop_last() == store1);
    }
}

/// Phases in which the job's FTP session is open.
pub open spec fn holds_session(p: Phase) -> bool {
    match p {
        Phase::LoggingIn | Phase::EnteringDir | Phase::QueryingSize | Phase::QueryingModTime | Phase::Uploading => true,
        _ => false,
    }
}

/// One session per job: a job asks to connect only while it holds no open
/// session, and every wait or finish leaves it holding none. With one job per
/// worker, open connections never outnumber the workers.
pub proof fn job_holds_at_most_one_session(
    st: JobState,
    ev: Event,
    mgr: ConnectionManager,
    store: Seq<RecordView>,
    dir: Seq<char>,
    file: Seq<char>,
    keep: bool,
    now_secs: i64,
    sync_interval_ms: int,
    now_ms: i64,
    seed: int,
)
    ensures
        ({
            let (s2, m2, store2, a) = step_of(st, ev, mgr, store, dir, file, keep, now_secs, sync_interval_ms, now_ms, seed);
            &&& a == Action::Connect ==> !holds_session(st.phase) && !holds_session(s2.phase)
            &&& (a is Wait || a is Finish) ==> !holds_session(s2.phase)
            &&& holds_session(s2.phase) ==> holds_session(st.phase) || (st.phase == Phase::Connecting && ev is Connected)
        }),
{
}

/// A single upload: in upload mode, a job whose server accepts every command
/// asks for exactly one upload, after connect, login, directory and size, and
/// finishes as uploaded once it is stored, whatever the size answer was
/// (short of "no such file").
pub proof fn accepted_file_is_stored_once(
    mgr: ConnectionManager,
    store: Seq<RecordView>,
    dir: Seq<char>,
    file: Seq<char>,
    now_secs: i64,
    size: SizeReply,
    sync_interval_ms: int,
    now_ms: i64,
    seed: int,
)
    requires
        !(size is Missing),
    ensures
        ({
            let s0 = JobState { phase: Phase::Connecting, attempt: 1, size: None, mod_time: now_secs, fingerprint: None };
            let (s1, m1, st1, a1) = step_of(s0, Event::Connected, mgr, store, dir, file, false, now_secs, sync_interval_ms, now_ms, seed);
            let (s2, m2, st2, a2) = step_of(s1, Event::LoggedIn, m1, st1, dir, file, false, now_secs, sync_interval_ms, now_ms, seed);
            let (s3, m3, st3, a3) = step_of(s2, Event::DirEntered, m2, st2, dir, file, false, now_secs, sync_interval_ms, now_ms, seed);
            let (s4, m4, st4, a4) = step_of(s3, Event::Size(size), m3, st3, dir, file, false, now_secs, sync_interval_ms, now_ms, seed);
            let (s5, m5, st5, a5) = step_of(s4, Event::Stored, m4, st4, dir, file, false, now_secs, sync_interval_ms, now_ms, seed);
            &&& a1 == Action::Login && a2 == Action::EnterDir && a3 == Action::QuerySize
            &&& a4 == Action::Upload
            &&& a5 == Action::Finish(Outcome::Uploaded)
            &&& s5.phase == Phase::Done(Outcome::Uploaded)
            &&& st5 == store
        }),
{
}

/// Upload workers for an iteration: the configured aggressiveness, or a
/// quarter of it after a server rejection; never fewer than one.
pub open spec fn workers_for(aggressiveness: u32, reduce: bool) -> u32 {
    let n = if reduce { aggressiveness / 4 } else { aggressiveness };
    if n >= 1 { n } else { 1 }
}

/// The worker count, and so the cap on concurrent connections, of the next
/// iteration.
pub fn effective_workers(aggressiveness: u32, reduce: bool) -> (r: u32)
    ensures
        r == workers_for(aggressiveness, reduce),
        1 <= r,
        aggressiveness >= 1 ==> r <= aggressiveness,
{
    let n = if reduce { aggressiveness / 4 } else { aggressiveness };
    if n >= 1 { n } else { 1 }
}

/// Whether iteration `iteration` (counted from 1) consults the presence
/// document: the first of every three.
pub fn should_check_peers(iteration: u64) -> (r: bool)
    ensures
        r == (iteration % 3 == 1),
{
    iteration % 3 == 1
}

/// Whether a connection failure is reported as a warning: from the second
/// consecutive one, so that a single failure at startup stays quiet.
pub fn should_warn_connection_failure(failure_count: u64) -> (r: bool)
    ensures
        r == (failure_count >= 2),
{
    failure_count >= 2
}

/// Whether a session report is due after a completed file: after every
/// third one.
pub fn session_report_due(total_files: u64) -> (r: bool)
    ensures
        r == (total_files > 0 && total_files % 3 == 0),
{
    total_files > 0 && total_files % 3 == 0
}

} // verus!
