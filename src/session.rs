//! Session accounting: files, bytes and transfer time since the process
//! started, per-file speeds, and the report written to the session file.
//! Speeds are whole bytes per second.
use vstd::prelude::*;

verus! {

/// Sum of a sequence of speeds.
pub open spec fn sum_of(s: Seq<u64>) -> int
    decreases s.len(),
{
    if s.len() == 0 {
        0
    } else {
        sum_of(s.drop_last()) + s.last()
    }
}

/// Largest of a sequence of speeds, zero when empty.
pub open spec fn max_of(s: Seq<u64>) -> u64
    decreases s.len(),
{
    if s.len() == 0 {
        0
    } else {
        let m = max_of(s.drop_last());
        if s.last() > m { s.last() } else { m }
    }
}

/// Mean of a sequence of speeds, rounded down; zero when empty.
pub open spec fn mean_of(s: Seq<u64>) -> int {
    if s.len() == 0 { 0 } else { sum_of(s) / (s.len() as int) }
}

/// Bytes per second of a transfer of `bytes` that took `millis`, saturated.
pub open spec fn speed_of(bytes: u64, millis: u64) -> u64 {
    let v = (bytes as int) * 1000 / (millis as int);
    if v > u64::MAX { u64::MAX } else { v as u64 }
}

pub open spec fn sat_add(a: u64, b: u64) -> u64 {
    if a + b > u64::MAX { u64::MAX } else { (a + b) as u64 }
}

/// Totals of one process run.
#[derive(Debug)]
pub struct SessionState {
    /// When the session started, in milliseconds since the epoch.
    pub started_at_ms: i64,
    pub total_files: u64,
    pub total_bytes: u64,
    pub total_upload_time_ms: u64,
    /// Bytes per second of each file whose transfer took measurable time.
    pub file_speeds: Vec<u64>,
    pub current_operation: String,
    pub errors: Vec<String>,
}

/// What the session file holds.
#[derive(Debug)]
pub struct SessionReport {
    pub session_id: String,
    pub config_id: String,
    pub total_files: u64,
    pub total_bytes: u64,
    pub total_time_ms: u64,
    /// Mean of the per-file speeds, bytes per second.
    pub average_speed_bps: u64,
}

proof fn lemma_sum_bound(s: Seq<u64>)
    ensures
        0 <= sum_of(s) <= s.len() * (u64::MAX as int),
    decreases s.len(),
{
    if s.len() > 0 {
        lemma_sum_bound(s.drop_last());
    }
}

impl SessionState {
    /// A session with nothing transferred, started at `started_at_ms`.
    pub fn new(started_at_ms: i64) -> (r: SessionState)
        ensures
            r.started_at_ms == started_at_ms,
            r.total_files == 0,
            r.total_bytes == 0,
            r.total_upload_time_ms == 0,
            r.file_speeds@ == Seq::<u64>::empty(),
            r.current_operation@ == "Starting"@,
            r.errors@ == Seq::<String>::empty(),
    {
        SessionState {
            started_at_ms,
            total_files: 0,
            total_bytes: 0,
            total_upload_time_ms: 0,
            file_speeds: Vec::new(),
            current_operation: "Starting".to_owned(),
            errors: Vec::new(),
        }
    }

    /// Names the operation under way.
    pub fn update_operation(&mut self, operation: &str)
        ensures
            final(self).current_operation@ == operation@,
            final(self).total_files == old(self).total_files,
            final(self).total_bytes == old(self).total_bytes,
            final(self).total_upload_time_ms == old(self).total_upload_time_ms,
            final(self).file_speeds@ == old(self).file_speeds@,
            final(self).errors@ == old(self).errors@,
            final(self).started_at_ms == old(self).started_at_ms,
    {
        self.current_operation = operation.to_owned();
    }

    /// Counts a completed file of `bytes` whose transfer took `upload_time_ms`;
    /// its speed is kept when that time is not zero. Totals saturate.
    pub fn add_file_upload(&mut self, bytes: u64, upload_time_ms: u64)
        ensures
            final(self).total_files == sat_add(old(self).total_files, 1),
            final(self).total_bytes == sat_add(old(self).total_bytes, bytes),
            final(self).total_upload_time_ms == sat_add(old(self).total_upload_time_ms, upload_time_ms),
            final(self).file_speeds@ == if upload_time_ms > 0 {
                old(self).file_speeds@.push(speed_of(bytes, upload_time_ms))
            } else {
                old(self).file_speeds@
            },
            final(self).started_at_ms == old(self).started_at_ms,
            final(self).errors@ == old(self).errors@,
            final(self).current_operation@ == old(self).current_operation@,
    {
        self.total_files = self.total_files.saturating_add(1);
        self.total_bytes = self.total_bytes.saturating_add(bytes);
        self.total_upload_time_ms = self.total_upload_time_ms.saturating_add(upload_time_ms);
        if upload_time_ms > 0 {
            let v: u128 = (bytes as u128) * 1000 / (upload_time_ms as u128);
            let speed: u64 = if v > u64::MAX as u128 { u64::MAX } else { v as u64 };
            self.file_speeds.push(speed);
        }
    }

    /// Keeps an error message.
    pub fn add_error(&mut self, error: &str)
        ensures
            final(self).errors@.len() == old(self).errors@.len() + 1,
            final(self).errors@.last()@ == error@,
            final(self).errors@.drop_last() == old(self).errors@,
            final(self).total_files == old(self).total_files,
            final(self).total_bytes == old(self).total_bytes,
            final(self).total_upload_time_ms == old(self).total_upload_time_ms,
            final(self).file_speeds@ == old(self).file_speeds@,
            final(self).started_at_ms == old(self).started_at_ms,
            final(self).current_operation@ == old(self).current_operation@,
    {
        self.errors.push(error.to_owned());
        assert(self.errors@.drop_last() =~= old(self).errors@);
    }

    /// Mean of the per-file speeds, bytes per second; zero before any.
    pub fn get_average_speed(&self) -> (r: u64)
        ensures
            r == mean_of(self.file_speeds@),
    {
        let n = self.file_speeds.len();
        if n == 0 {
            return 0;
        }
        let ghost s = self.file_speeds@;
        let mut acc: u128 = 0;
        let mut i: usize = 0;
        while i < n
            invariant
                i <= n == s.len(),
                s == self.file_speeds@,
                acc == sum_of(s.take(i as int)),
            decreases n - i,
        {
            assert(s.take(i + 1).drop_last() =~= s.take(i as int));
            proof {
                lemma_sum_bound(s.take(i as int));
                assert((i as int) * (u64::MAX as int) <= (u64::MAX as int) * (u64::MAX as int)) by (nonlinear_arith)
                    requires i <= u64::MAX;
            }
            acc = acc + self.file_speeds[i] as u128;
            i = i + 1;
        }
        assert(s.take(n as int) =~= s);
        proof {
            lemma_sum_bound(s);
            let t = sum_of(s);
            let k = n as int;
            assert(t / k <= u64::MAX) by (nonlinear_arith)
                requires 0 <= t <= k * (u64::MAX as int), k >= 1;
        }
        (acc / (n as u128)) as u64
    }

    /// Largest per-file speed, bytes per second; zero before any.
    pub fn get_peak_speed(&self) -> (r: u64)
        ensures
            r == max_of(self.file_speeds@),
    {
        let ghost s = self.file_speeds@;
        let mut m: u64 = 0;
        let mut i: usize = 0;
        while i < self.file_speeds.len()
            invariant
                i <= s.len(),
                s == self.file_speeds@,
                m == max_of(s.take(i as int)),
            decreases s.len() - i,
        {
            assert(s.take(i + 1).drop_last() =~= s.take(i as int));
            if self.file_speeds[i] > m {
                m = self.file_speeds[i];
            }
            i = i + 1;
        }
        assert(s.take(i as int) =~= s);
        m
    }

    /// Milliseconds since the session started, zero if `now_ms` is earlier.
    pub fn get_session_duration(&self, now_ms: i64) -> (r: u64)
        ensures
            r == if now_ms > self.started_at_ms { (now_ms - self.started_at_ms) as u64 } else { 0 },
    {
        if now_ms > self.started_at_ms {
            ((now_ms as i128) - (self.started_at_ms as i128)) as u64
        } else {
            0
        }
    }

    /// The report for the session file.
    pub fn generate_session_report(&self, session_id: &str, config_id: &str) -> (r: SessionReport)
        ensures
            r.session_id@ == session_id@,
            r.config_id@ == config_id@,
            r.total_files == self.total_files,
            r.total_bytes == self.total_bytes,
            r.total_time_ms == self.total_upload_time_ms,
            r.average_speed_bps == mean_of(self.file_speeds@),
    {
        SessionReport {
            session_id: session_id.to_owned(),
            config_id: config_id.to_owned(),
            total_files: self.total_files,
            total_bytes: self.total_bytes,
            total_time_ms: self.total_upload_time_ms,
            average_speed_bps: self.get_average_speed(),
        }
    }
}

/// Running totals of transfers for a speed over the whole session.
#[derive(Clone, Copy, Debug, PartialEq, Eq, Structural)]
pub struct SessionStats {
    pub total_bytes: u64,
    pub total_time_ms: u64,
    pub file_count: u64,
    /// Seconds since the epoch when the session started.
    pub session_start_time: i64,
}

impl SessionStats {
    /// Empty totals for a session started at `session_start_time`.
    pub fn new(session_start_time: i64) -> (r: SessionStats)
        ensures
            r == (SessionStats { total_bytes: 0, total_time_ms: 0, file_count: 0, session_start_time }),
    {
        SessionStats { total_bytes: 0, total_time_ms: 0, file_count: 0, session_start_time }
    }

    /// Adds one transfer. Totals saturate.
    pub fn update(&mut self, bytes: u64, time_ms: u64)
        ensures
            *final(self) == (SessionStats {
                total_bytes: sat_add(old(self).total_bytes, bytes),
                total_time_ms: sat_add(old(self).total_time_ms, time_ms),
                file_count: sat_add(old(self).file_count, 1),
                session_start_time: old(self).session_start_time,
            }),
    {
        self.total_bytes = self.total_bytes.saturating_add(bytes);
        self.total_time_ms = self.total_time_ms.saturating_add(time_ms);
        self.file_count = self.file_count.saturating_add(1);
    }

    /// Total bytes over total time, bytes per second; zero before any time.
    pub fn average_speed(&self) -> (r: u64)
        ensures
            r == if self.total_time_ms > 0 { speed_of(self.total_bytes, self.total_time_ms) } else { 0 },
    {
        if self.total_time_ms > 0 {
            let v: u128 = (self.total_bytes as u128) * 1000 / (self.total_time_ms as u128);
            if v > u64::MAX as u128 { u64::MAX } else { v as u64 }
        } else {
            0
        }
    }
}

} // verus!
