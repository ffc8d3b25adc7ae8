//! Peer coordination through the shared presence document `_monitored.json`:
//! finding it in a listing, refreshing this instance's entry, leaving, and
//! detecting mode conflicts with other instances.
use vstd::prelude::*;
use crate::clock::{RFC3339_MAX_MS, RFC3339_MIN_MS, now_millis, rfc3339_millis_of, rfc3339_text_of, parse_rfc3339_millis, rfc3339_text};
use crate::text::{chars_of, has_suffix, lower_of, lowercase, matches_at, same_text};

verus! {

/// Name of the presence document in the remote directory.
pub const PRESENCE_FILE_NAME: &'static str = "_monitored.json";

/// Entries whose last sighting is older than this, in milliseconds, are stale.
pub const STALE_AFTER_MS: i64 = 300000;

/// One instance's entry in the presence document.
#[derive(Debug)]
pub struct PresenceEntry {
    pub ip: String,
    pub hostname: String,
    pub profile_name: String,
    /// "upload", "keep" or "delete".
    pub mode: String,
    /// RFC 3339 time of the last refresh.
    pub last_seen: String,
}

impl PresenceEntry {
    /// A field-for-field copy.
    pub fn duplicate(&self) -> (r: PresenceEntry)
        ensures
            r == *self,
    {
        PresenceEntry {
            ip: self.ip.clone(),
            hostname: self.hostname.clone(),
            profile_name: self.profile_name.clone(),
            mode: self.mode.clone(),
            last_seen: self.last_seen.clone(),
        }
    }
}

/// Whether `c` is a Unicode `White_Space` character (as `char::is_whitespace`).
pub open spec fn is_space(c: char) -> bool {
    c == ' ' || ('\t' <= c && c <= '\r') || c == '\u{85}' || c == '\u{a0}' || c == '\u{1680}'
        || ('\u{2000}' <= c && c <= '\u{200a}') || c == '\u{2028}' || c == '\u{2029}'
        || c == '\u{202f}' || c == '\u{205f}' || c == '\u{3000}'
}

/// `s` without its trailing whitespace.
pub open spec fn trim_end_of(s: Seq<char>) -> Seq<char>
    decreases s.len(),
{
    if s.len() > 0 && is_space(s.last()) {
        trim_end_of(s.drop_last())
    } else {
        s
    }
}

/// Whether a listing line names the presence document: the last
/// whitespace-separated field of the line is exactly the document's name
/// (so a line holding only the name counts, and `old_monitored.json` does not).
pub open spec fn names_presence_file(line: Seq<char>) -> bool {
    let t = trim_end_of(line);
    let n = PRESENCE_FILE_NAME@.len();
    has_suffix(t, PRESENCE_FILE_NAME@) && (t.len() == n || is_space(t[t.len() - n - 1]))
}

/// Whether some line of a directory listing names the presence document.
pub open spec fn listing_has_presence(listing: Seq<String>) -> bool {
    exists|i: int| 0 <= i < listing.len() && names_presence_file(#[trigger] listing[i]@)
}

pub(crate) fn is_space_char(c: char) -> (r: bool)
    ensures
        r == is_space(c),
{
    c == ' ' || ('\t' <= c && c <= '\r') || c == '\u{85}' || c == '\u{a0}' || c == '\u{1680}'
        || ('\u{2000}' <= c && c <= '\u{200a}') || c == '\u{2028}' || c == '\u{2029}'
        || c == '\u{202f}' || c == '\u{205f}' || c == '\u{3000}'
}

/// Whether one listing line names the presence document.
pub fn line_names_presence_file(line: &str) -> (r: bool)
    ensures
        r == names_presence_file(line@),
{
    let cs = chars_of(line);
    let mut end: usize = cs.len();
    assert(cs@.take(cs@.len() as int) =~= cs@);
    while end > 0 && is_space_char(cs[end - 1])
        invariant
            end <= cs@.len(),
            trim_end_of(cs@.take(end as int)) == trim_end_of(cs@),
        decreases end,
    {
        assert(cs@.take(end as int).drop_last() =~= cs@.take(end - 1));
        end = end - 1;
    }
    assert(trim_end_of(cs@.take(end as int)) == cs@.take(end as int));
    let name = chars_of(PRESENCE_FILE_NAME);
    if name.len() > end {
        return false;
    }
    let start = end - name.len();
    let r = matches_at(&cs, &name, start);
    assert(cs@.take(end as int).subrange(start as int, end as int) =~= cs@.subrange(
        start as int,
        end as int,
    ));
    if !r {
        return false;
    }
    if start == 0 {
        return true;
    }
    assert(cs@.take(end as int)[start - 1] == cs@[start - 1]);
    is_space_char(cs[start - 1])
}

/// Whether a directory listing shows the presence document; only then is it
/// worth retrieving.
pub fn listing_mentions_presence_file(listing: &Vec<String>) -> (r: bool)
    ensures
        r == listing_has_presence(listing@),
{
    let mut i: usize = 0;
    while i < listing.len()
        invariant
            i <= listing@.len(),
            forall|j: int| 0 <= j < i ==> !names_presence_file(#[trigger] listing@[j]@),
        decreases listing@.len() - i,
    {
        if line_names_presence_file(listing[i].as_str()) {
            return true;
        }
        i = i + 1;
    }
    false
}

/// The entry belongs to the instance identified by `host` and `profile`.
pub open spec fn is_own(e: PresenceEntry, host: Seq<char>, profile: Seq<char>) -> bool {
    e.hostname@ == host && e.profile_name@ == profile
}

/// The entries of other instances whose mode, lowercased, is `mode`.
pub open spec fn others_in_mode(
    s: Seq<PresenceEntry>,
    host: Seq<char>,
    profile: Seq<char>,
    mode: Seq<char>,
) -> Seq<PresenceEntry>
    decreases s.len(),
{
    if s.len() == 0 {
        s
    } else {
        let prev = others_in_mode(s.drop_last(), host, profile, mode);
        if !is_own(s.last(), host, profile) && lower_of(s.last().mode@) == mode {
            prev.push(s.last())
        } else {
            prev
        }
    }
}

/// How serious a conflict with other instances is.
#[derive(Clone, Copy, Debug, PartialEq, Eq, Structural)]
pub enum ConflictLevel {
    /// Two or more other instances delete files.
    Critical,
    /// Deleting and keeping instances share the directory.
    Warning,
    /// Several keeping instances share the directory: redundant but safe.
    Info,
}

/// A detected conflict and the other instances it involves.
#[derive(Debug)]
pub struct Conflict {
    pub level: ConflictLevel,
    pub peers: Vec<PresenceEntry>,
}

/// The conflict an instance in lowercase mode `mode` sees in the document `s`.
pub open spec fn conflict_of(
    s: Seq<PresenceEntry>,
    mode: Seq<char>,
    host: Seq<char>,
    profile: Seq<char>,
) -> Option<(ConflictLevel, Seq<PresenceEntry>)> {
    let d = others_in_mode(s, host, profile, "delete"@);
    let k = others_in_mode(s, host, profile, "keep"@);
    if d.len() >= 2 {
        Some((ConflictLevel::Critical, d))
    } else if d.len() >= 1 && mode == "keep"@ {
        Some((ConflictLevel::Warning, seq![d[0]]))
    } else if mode == "delete"@ && k.len() >= 1 {
        Some((ConflictLevel::Warning, k))
    } else if k.len() >= 1 && mode == "keep"@ {
        Some((ConflictLevel::Info, k))
    } else {
        None
    }
}

fn is_own_entry(e: &PresenceEntry, hostname: &str, profile: &str) -> (r: bool)
    ensures
        r == is_own(*e, hostname@, profile@),
{
    same_text(e.hostname.as_str(), hostname) && same_text(e.profile_name.as_str(), profile)
}

fn others_with_mode(doc: &Vec<PresenceEntry>, hostname: &str, profile: &str, mode: &str) -> (r: Vec<PresenceEntry>)
    ensures
        r@ == others_in_mode(doc@, hostname@, profile@, mode@),
{
    let mut out: Vec<PresenceEntry> = Vec::new();
    let mut i: usize = 0;
    while i < doc.len()
        invariant
            i <= doc@.len(),
            out@ == others_in_mode(doc@.take(i as int), hostname@, profile@, mode@),
        decreases doc@.len() - i,
    {
        assert(doc@.take(i + 1).drop_last() =~= doc@.take(i as int));
        let e = &doc[i];
        let lowered = lowercase(e.mode.as_str());
        if !is_own_entry(e, hostname, profile) && same_text(lowered.as_str(), mode) {
            out.push(e.duplicate());
        }
        i = i + 1;
    }
    assert(doc@.take(i as int) =~= doc@);
    out
}

/// Detects conflicts between this instance (in `current_mode`, identified by
/// `hostname` and `profile`) and the other instances listed in `doc`; the
/// instance's own entries never count.
pub fn detect_monitor_conflicts(
    doc: &Vec<PresenceEntry>,
    current_mode: &str,
    hostname: &str,
    profile: &str,
) -> (r: Option<Conflict>)
    ensures
        match r {
            None => conflict_of(doc@, lower_of(current_mode@), hostname@, profile@) is None,
            Some(c) => conflict_of(doc@, lower_of(current_mode@), hostname@, profile@) == Some(
                (c.level, c.peers@),
            ),
        },
{
    let mode = lowercase(current_mode);
    let deletes = others_with_mode(doc, hostname, profile, "delete");
    let keeps = others_with_mode(doc, hostname, profile, "keep");
    let is_keep = same_text(mode.as_str(), "keep");
    let is_delete = same_text(mode.as_str(), "delete");
    if deletes.len() >= 2 {
        Some(Conflict { level: ConflictLevel::Critical, peers: deletes })
    } else if deletes.len() >= 1 && is_keep {
        let mut peers: Vec<PresenceEntry> = Vec::new();
        peers.push(deletes[0].duplicate());
        assert(peers@ =~= seq![deletes@[0]]);
        Some(Conflict { level: ConflictLevel::Warning, peers })
    } else if is_delete && keeps.len() >= 1 {
        Some(Conflict { level: ConflictLevel::Warning, peers: keeps })
    } else if keeps.len() >= 1 && is_keep {
        Some(Conflict { level: ConflictLevel::Info, peers: keeps })
    } else {
        None
    }
}

proof fn lemma_others_in_mode_exclude_self(
    s: Seq<PresenceEntry>,
    host: Seq<char>,
    profile: Seq<char>,
    mode: Seq<char>,
)
    ensures
        forall|i: int|
            0 <= i < others_in_mode(s, host, profile, mode).len() ==> !is_own(
                #[trigger] others_in_mode(s, host, profile, mode)[i],
                host,
                profile,
            ),
    decreases s.len(),
{
    if s.len() > 0 {
        lemma_others_in_mode_exclude_self(s.drop_last(), host, profile, mode);
        let prev = others_in_mode(s.drop_last(), host, profile, mode);
        let cur = others_in_mode(s, host, profile, mode);
        assert forall|i: int| 0 <= i < cur.len() implies !is_own(#[trigger] cur[i], host, profile) by {
            if i < prev.len() {
                assert(cur[i] == prev[i]);
            }
        }
    }
}

/// Peer self-exclusion: a detected conflict never involves an entry whose
/// hostname and profile name are this instance's own.
pub proof fn conflicts_exclude_self(
    s: Seq<PresenceEntry>,
    mode: Seq<char>,
    host: Seq<char>,
    profile: Seq<char>,
)
    ensures
        match conflict_of(s, mode, host, profile) {
            Some((_, peers)) => forall|i: int| 0 <= i < peers.len() ==> !is_own(#[trigger] peers[i], host, profile),
            None => true,
        },
{
    lemma_others_in_mode_exclude_self(s, host, profile, "delete"@);
    lemma_others_in_mode_exclude_self(s, host, profile, "keep"@);
}

/// The entry was seen less than five minutes before `now_ms`; an entry whose
/// time does not parse is stale.
pub open spec fn is_fresh(e: PresenceEntry, now_ms: int) -> bool {
    match rfc3339_millis_of(e.last_seen@) {
        Some(t) => t > now_ms - STALE_AFTER_MS,
        None => false,
    }
}

/// The fresh entries of `s`, in order.
pub open spec fn fresh_entries(s: Seq<PresenceEntry>, now_ms: int) -> Seq<PresenceEntry>
    decreases s.len(),
{
    if s.len() == 0 {
        s
    } else {
        let prev = fresh_entries(s.drop_last(), now_ms);
        if is_fresh(s.last(), now_ms) {
            prev.push(s.last())
        } else {
            prev
        }
    }
}

/// Position of the first entry of the instance, or -1.
pub open spec fn own_index(s: Seq<PresenceEntry>, host: Seq<char>, profile: Seq<char>) -> int
    decreases s.len(),
{
    if s.len() == 0 {
        -1
    } else {
        let p = own_index(s.drop_last(), host, profile);
        if p >= 0 {
            p
        } else if is_own(s.last(), host, profile) {
            s.len() - 1
        } else {
            -1
        }
    }
}

/// `e` is this instance's entry in upload mode, seen at the time written `seen`.
pub open spec fn is_entry_for(
    e: PresenceEntry,
    ip: Seq<char>,
    host: Seq<char>,
    profile: Seq<char>,
    seen: Seq<char>,
) -> bool {
    &&& e.ip@ == ip
    &&& e.hostname@ == host
    &&& e.profile_name@ == profile
    &&& e.mode@ == "upload"@
    &&& e.last_seen@ == seen
}

/// `r` is the document `doc` refreshed at `now_ms` (written `seen`): stale
/// entries dropped, then the instance's first entry replaced by a fresh one,
/// or a fresh one appended where there was none.
pub open spec fn refreshed(
    doc: Seq<PresenceEntry>,
    r: Seq<PresenceEntry>,
    ip: Seq<char>,
    host: Seq<char>,
    profile: Seq<char>,
    seen: Seq<char>,
    now_ms: int,
) -> bool {
    let f = fresh_entries(doc, now_ms);
    let i = own_index(f, host, profile);
    if i >= 0 {
        &&& r.len() == f.len()
        &&& forall|j: int| 0 <= j < r.len() && j != i ==> r[j] == f[j]
        &&& is_entry_for(r[i], ip, host, profile, seen)
    } else {
        &&& r.len() == f.len() + 1
        &&& forall|j: int| 0 <= j < f.len() ==> r[j] == f[j]
        &&& is_entry_for(r[f.len() as int], ip, host, profile, seen)
    }
}

fn fresh_only(doc: &Vec<PresenceEntry>, now_ms: i64) -> (r: Vec<PresenceEntry>)
    ensures
        r@ == fresh_entries(doc@, now_ms as int),
{
    let mut out: Vec<PresenceEntry> = Vec::new();
    let mut i: usize = 0;
    while i < doc.len()
        invariant
            i <= doc@.len(),
            out@ == fresh_entries(doc@.take(i as int), now_ms as int),
        decreases doc@.len() - i,
    {
        assert(doc@.take(i + 1).drop_last() =~= doc@.take(i as int));
        let e = &doc[i];
        let keep = match parse_rfc3339_millis(e.last_seen.as_str()) {
            Some(t) => now_ms < i64::MIN + STALE_AFTER_MS || t > now_ms - STALE_AFTER_MS,
            None => false,
        };
        if keep {
            out.push(e.duplicate());
        }
        i = i + 1;
    }
    assert(doc@.take(i as int) =~= doc@);
    out
}

proof fn lemma_own_index_range(s: Seq<PresenceEntry>, host: Seq<char>, profile: Seq<char>)
    ensures
        -1 <= own_index(s, host, profile) < s.len(),
        own_index(s, host, profile) >= 0 ==> is_own(s[own_index(s, host, profile)], host, profile),
    decreases s.len(),
{
    if s.len() > 0 {
        lemma_own_index_range(s.drop_last(), host, profile);
    }
}

fn own_position(v: &Vec<PresenceEntry>, hostname: &str, profile: &str) -> (r: Option<usize>)
    ensures
        match r {
            Some(i) => i == own_index(v@, hostname@, profile@) && i < v@.len(),
            None => own_index(v@, hostname@, profile@) == -1,
        },
{
    let mut pos: Option<usize> = None;
    let mut i: usize = 0;
    while i < v.len()
        invariant
            i <= v@.len(),
            match pos {
                Some(p) => p == own_index(v@.take(i as int), hostname@, profile@),
                None => own_index(v@.take(i as int), hostname@, profile@) == -1,
            },
        decreases v@.len() - i,
    {
        assert(v@.take(i + 1).drop_last() =~= v@.take(i as int));
        if pos.is_none() && is_own_entry(&v[i], hostname, profile) {
            pos = Some(i);
        }
        i = i + 1;
    }
    assert(v@.take(i as int) =~= v@);
    proof {
        lemma_own_index_range(v@, hostname@, profile@);
    }
    pos
}

/// What `refresh_presence` returns for the instant `now_ms`: `None` where
/// the instant has no RFC 3339 text, else the refreshed document; for an
/// instant in years 0000 to 9999 the text exists and reads back as `now_ms`.
pub open spec fn refresh_result(
    doc: Seq<PresenceEntry>,
    r: Option<Vec<PresenceEntry>>,
    ip: Seq<char>,
    host: Seq<char>,
    profile: Seq<char>,
    now_ms: i64,
) -> bool {
    &&& match rfc3339_text_of(now_ms) {
        None => r is None,
        Some(seen) => r is Some && refreshed(doc, r->0@, ip, host, profile, seen, now_ms as int),
    }
    &&& RFC3339_MIN_MS <= now_ms <= RFC3339_MAX_MS ==> (rfc3339_text_of(now_ms) is Some
        && rfc3339_millis_of(rfc3339_text_of(now_ms)->0) == Some(now_ms))
}

/// The presence document after this instance announces itself at `now_ms`:
/// entries last seen five minutes or more before `now_ms`, or with a time that
/// does not parse, are dropped, and the instance's entry (keyed by hostname
/// and profile name) is replaced or appended with mode "upload". `None` where
/// `now_ms` has no RFC 3339 text.
pub fn refresh_presence(
    doc: &Vec<PresenceEntry>,
    ip: &str,
    hostname: &str,
    profile: &str,
    now_ms: i64,
) -> (r: Option<Vec<PresenceEntry>>)
    ensures
        refresh_result(doc@, r, ip@, hostname@, profile@, now_ms),
{
    let seen = match rfc3339_text(now_ms) {
        Some(t) => t,
        None => return None,
    };
    let me = PresenceEntry {
        ip: ip.to_owned(),
        hostname: hostname.to_owned(),
        profile_name: profile.to_owned(),
        mode: "upload".to_owned(),
        last_seen: seen,
    };
    let mut out = fresh_only(doc, now_ms);
    match own_position(&out, hostname, profile) {
        Some(i) => {
            out[i] = me;
        },
        None => {
            out.push(me);
        },
    }
    Some(out)
}

/// `refresh_presence` at the current time; returns the instant it used
/// beside the result.
pub fn refresh_presence_now(doc: &Vec<PresenceEntry>, ip: &str, hostname: &str, profile: &str) -> (r: (
    i64,
    Option<Vec<PresenceEntry>>,
))
    ensures
        refresh_result(doc@, r.1, ip@, hostname@, profile@, r.0),
{
    let now = now_millis();
    (now, refresh_presence(doc, ip, hostname, profile, now))
}

proof fn lemma_fresh_entries_are_fresh(s: Seq<PresenceEntry>, now_ms: int)
    ensures
        forall|i: int|
            0 <= i < fresh_entries(s, now_ms).len() ==> is_fresh(#[trigger] fresh_entries(s, now_ms)[i], now_ms),
    decreases s.len(),
{
    if s.len() > 0 {
        lemma_fresh_entries_are_fresh(s.drop_last(), now_ms);
        let prev = fresh_entries(s.drop_last(), now_ms);
        let cur = fresh_entries(s, now_ms);
        assert forall|i: int| 0 <= i < cur.len() implies is_fresh(#[trigger] cur[i], now_ms) by {
            if i < prev.len() {
                assert(cur[i] == prev[i]);
            }
        }
    }
}

/// Staleness filtering: after a refresh at `now_ms` whose time text reads
/// back as `now_ms` (any instant in years 0000 to 9999, by `refresh_result`),
/// no entry of the document was seen five minutes or more before `now_ms`.
pub proof fn refresh_leaves_no_stale_entry(
    doc: Seq<PresenceEntry>,
    r: Seq<PresenceEntry>,
    ip: Seq<char>,
    host: Seq<char>,
    profile: Seq<char>,
    seen: Seq<char>,
    now_ms: i64,
)
    requires
        refreshed(doc, r, ip, host, profile, seen, now_ms as int),
        rfc3339_millis_of(seen) == Some(now_ms),
    ensures
        forall|j: int| 0 <= j < r.len() ==> is_fresh(#[trigger] r[j], now_ms as int),
{
    lemma_fresh_entries_are_fresh(doc, now_ms as int);
    let f = fresh_entries(doc, now_ms as int);
    assert forall|j: int| 0 <= j < r.len() implies is_fresh(#[trigger] r[j], now_ms as int) by {
        let i = own_index(f, host, profile);
        if (i >= 0 && j != i) || (i < 0 && j < f.len()) {
            assert(r[j] == f[j]);
        }
    }
}

/// The entries of `s` that belong to other instances.
pub open spec fn others_of(s: Seq<PresenceEntry>, host: Seq<char>, profile: Seq<char>) -> Seq<PresenceEntry>
    decreases s.len(),
{
    if s.len() == 0 {
        s
    } else {
        let prev = others_of(s.drop_last(), host, profile);
        if is_own(s.last(), host, profile) {
            prev
        } else {
            prev.push(s.last())
        }
    }
}

/// What leaving does to the presence document.
#[derive(Debug)]
pub enum LeaveAction {
    /// The instance had no entry: leave the document alone.
    Unchanged,
    /// No other instance remains: delete the document.
    DeleteFile,
    /// Upload the document with the instance's entries removed.
    Rewrite(Vec<PresenceEntry>),
}

/// What to do with the presence document when this instance stops: drop its
/// entries; delete the document when nothing else remains.
pub fn leave_presence(doc: &Vec<PresenceEntry>, hostname: &str, profile: &str) -> (r: LeaveAction)
    ensures
        ({
            let o = others_of(doc@, hostname@, profile@);
            if o.len() == doc@.len() {
                r is Unchanged
            } else if o.len() == 0 {
                r is DeleteFile
            } else {
                r matches LeaveAction::Rewrite(v) && v@ == o
            }
        }),
{
    let mut out: Vec<PresenceEntry> = Vec::new();
    let mut i: usize = 0;
    while i < doc.len()
        invariant
            i <= doc@.len(),
            out@ == others_of(doc@.take(i as int), hostname@, profile@),
        decreases doc@.len() - i,
    {
        assert(doc@.take(i + 1).drop_last() =~= doc@.take(i as int));
        if !is_own_entry(&doc[i], hostname, profile) {
            out.push(doc[i].duplicate());
        }
        i = i + 1;
    }
    assert(doc@.take(i as int) =~= doc@);
    if out.len() == doc.len() {
        LeaveAction::Unchanged
    } else if out.len() == 0 {
        LeaveAction::DeleteFile
    } else {
        LeaveAction::Rewrite(out)
    }
}

} // verus!
