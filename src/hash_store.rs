//! The change-detection store: records of (directory, file name, size,
//! modification time, fingerprint), the legacy text format they are migrated
//! from, and the unchanged-file test.
use vstd::prelude::*;
use crate::fingerprint::{compute_file_hash, fingerprint_of, decimal_of, push_decimal, metadata_text};
use crate::numbers::{
    is_digit, lemma_decimal_digits, parse_i64, parse_i64_of, parse_i64_of_signed_decimal, parse_u64, parse_u64_of,
    parse_u64_of_decimal,
};
use crate::fingerprint::signed_decimal_of;
use crate::text::{lemma_split_join, lemma_split_single, lines, lines_of, push_char, same_text, split_by, split_on, strip_cr, views};

verus! {

/// One stored record.
#[derive(Debug)]
pub struct HashRecord {
    pub remote_dir: String,
    pub filename: String,
    pub size: u64,
    /// Seconds since the epoch.
    pub mod_time: i64,
    pub hash: u64,
}

/// The plain content of a record: directory, name, size, time, fingerprint.
pub type RecordView = (Seq<char>, Seq<char>, u64, i64, u64);

pub open spec fn record_view(r: HashRecord) -> RecordView {
    (r.remote_dir@, r.filename@, r.size, r.mod_time, r.hash)
}

pub open spec fn record_views(s: Seq<HashRecord>) -> Seq<RecordView> {
    s.map_values(|r: HashRecord| record_view(r))
}

/// The record a legacy line holds, from its `|`-separated fields: five fields
/// `dir|file|size|mtime|hash`, or three fields `dir|file|hash` with size and
/// time zero; further fields are ignored.
pub open spec fn record_of_fields(p: Seq<Seq<char>>) -> Option<RecordView> {
    if p.len() >= 5 {
        match (parse_u64_of(p[2]), parse_i64_of(p[3]), parse_u64_of(p[4])) {
            (Some(s), Some(m), Some(h)) => Some((p[0], p[1], s, m, h)),
            _ => None,
        }
    } else if p.len() >= 3 {
        match parse_u64_of(p[2]) {
            Some(h) => Some((p[0], p[1], 0u64, 0i64, h)),
            None => None,
        }
    } else {
        None
    }
}

pub open spec fn record_of_line(line: Seq<char>) -> Option<RecordView> {
    record_of_fields(split_by(line, '|'))
}

/// The records of the lines that hold one, in order.
pub open spec fn records_of_lines(ls: Seq<Seq<char>>) -> Seq<RecordView>
    decreases ls.len(),
{
    if ls.len() == 0 {
        Seq::empty()
    } else {
        let prev = records_of_lines(ls.drop_last());
        match record_of_line(ls.last()) {
            Some(r) => prev.push(r),
            None => prev,
        }
    }
}

/// The size, time and fingerprint last recorded for `(dir, file)`.
pub open spec fn lookup(s: Seq<RecordView>, dir: Seq<char>, file: Seq<char>) -> Option<(u64, i64, u64)>
    decreases s.len(),
{
    if s.len() == 0 {
        None
    } else if s.last().0 == dir && s.last().1 == file {
        Some((s.last().2, s.last().3, s.last().4))
    } else {
        lookup(s.drop_last(), dir, file)
    }
}

/// Reads one line of the legacy text format.
pub fn parse_hash_line(line: &str) -> (r: Option<HashRecord>)
    ensures
        match r {
            Some(x) => record_of_line(line@) == Some(record_view(x)),
            None => record_of_line(line@) is None,
        },
{
    let parts = split_on(line, '|');
    let ghost p = split_by(line@, '|');
    assert(forall|i: int| 0 <= i < parts@.len() ==> parts@[i]@ == #[trigger] p[i]);
    if parts.len() >= 5 {
        let size = parse_u64(parts[2].as_str());
        let mtime = parse_i64(parts[3].as_str());
        let hash = parse_u64(parts[4].as_str());
        match (size, mtime, hash) {
            (Some(s), Some(m), Some(h)) => Some(
                HashRecord {
                    remote_dir: parts[0].clone(),
                    filename: parts[1].clone(),
                    size: s,
                    mod_time: m,
                    hash: h,
                },
            ),
            _ => None,
        }
    } else if parts.len() >= 3 {
        match parse_u64(parts[2].as_str()) {
            Some(h) => Some(
                HashRecord {
                    remote_dir: parts[0].clone(),
                    filename: parts[1].clone(),
                    size: 0,
                    mod_time: 0,
                    hash: h,
                },
            ),
            None => None,
        }
    } else {
        None
    }
}

/// The line the store appends for a record: `dir|file|size|mtime|hash`
/// followed by a newline.
pub open spec fn hash_line_text(dir: Seq<char>, file: Seq<char>, size: u64, mtime: i64, hash: u64) -> Seq<char> {
    metadata_text(dir, file, size, mtime) + seq!['|'] + decimal_of(hash as nat) + seq!['\n']
}

/// Writes a record as one line of the text format.
pub fn hash_file_line(remote_dir: &str, filename: &str, size: u64, mod_time: i64, hash: u64) -> (r: String)
    ensures
        r@ == hash_line_text(remote_dir@, filename@, size, mod_time, hash),
{
    let mut out = crate::fingerprint::metadata_string(remote_dir, filename, size, mod_time);
    push_char(&mut out, '|');
    push_decimal(&mut out, hash);
    push_char(&mut out, '\n');
    assert(out@ =~= hash_line_text(remote_dir@, filename@, size, mod_time, hash));
    out
}

/// The text of lines, each followed by a newline.
pub open spec fn joined_lines(ls: Seq<Seq<char>>) -> Seq<char>
    decreases ls.len(),
{
    if ls.len() == 0 {
        Seq::empty()
    } else {
        joined_lines(ls.drop_last()) + ls.last() + seq!['\n']
    }
}

/// Where a text has more than `max_lines` lines, the text of its last
/// `max_lines` lines; otherwise `None`, and the text is left as it is.
pub fn trim_hash_lines(content: &str, max_lines: usize) -> (r: Option<String>)
    ensures
        ({
            let ls = lines_of(content@);
            if ls.len() > max_lines {
                r matches Some(t) && t@ == joined_lines(ls.skip(ls.len() - max_lines))
            } else {
                r is None
            }
        }),
{
    let ls = lines(content);
    let ghost l = lines_of(content@);
    if ls.len() <= max_lines {
        return None;
    }
    let start = ls.len() - max_lines;
    let ghost kept = l.skip(start as int);
    let mut out = String::new();
    let mut i: usize = start;
    assert(kept.take(0) =~= Seq::<Seq<char>>::empty());
    while i < ls.len()
        invariant
            start <= i <= ls@.len(),
            views(ls@) == l,
            kept == l.skip(start as int),
            out@ == joined_lines(kept.take(i - start)),
        decreases ls@.len() - i,
    {
        assert(kept.take(i - start + 1).drop_last() =~= kept.take(i - start));
        assert(ls@[i as int]@ == kept[i - start]);
        out.append(ls[i].as_str());
        push_char(&mut out, '\n');
        assert(out@ =~= joined_lines(kept.take(i - start + 1)));
        i = i + 1;
    }
    assert(kept.take(i - start) =~= kept);
    Some(out)
}

/// The stored records, oldest first; a later record for a key overrides an
/// earlier one, as appends to the legacy file do.
#[derive(Debug)]
pub struct HashIndex {
    pub records: Vec<HashRecord>,
}

impl HashIndex {
    pub open spec fn view_records(&self) -> Seq<RecordView> {
        record_views(self.records@)
    }

    /// An empty store.
    pub fn new() -> (r: HashIndex)
        ensures
            r.view_records() == Seq::<RecordView>::empty(),
    {
        let r = HashIndex { records: Vec::new() };
        assert(r.view_records() =~= Seq::<RecordView>::empty());
        r
    }

    /// Number of records held.
    pub fn len(&self) -> (r: usize)
        ensures
            r == self.view_records().len(),
    {
        self.records.len()
    }

    /// Records size, time and fingerprint for `(remote_dir, filename)`.
    pub fn record(&mut self, remote_dir: &str, filename: &str, size: u64, mod_time: i64, hash: u64)
        ensures
            final(self).view_records() == old(self).view_records().push(
                (remote_dir@, filename@, size, mod_time, hash),
            ),
    {
        let rec = HashRecord {
            remote_dir: remote_dir.to_owned(),
            filename: filename.to_owned(),
            size,
            mod_time,
            hash,
        };
        self.records.push(rec);
        assert(self.view_records() =~= old(self).view_records().push(
            (remote_dir@, filename@, size, mod_time, hash),
        ));
    }

    /// Size, time and fingerprint last recorded for `(remote_dir, filename)`.
    pub fn get(&self, remote_dir: &str, filename: &str) -> (r: Option<(u64, i64, u64)>)
        ensures
            r == lookup(self.view_records(), remote_dir@, filename@),
    {
        let ghost s = self.view_records();
        let mut i: usize = self.records.len();
        assert(s.take(i as int) =~= s);
        while i > 0
            invariant
                i <= s.len(),
                s == self.view_records(),
                lookup(s, remote_dir@, filename@) == lookup(s.take(i as int), remote_dir@, filename@),
            decreases i,
        {
            let rec = &self.records[i - 1];
            assert(s.take(i as int).last() == record_view(*rec));
            if same_text(rec.remote_dir.as_str(), remote_dir) && same_text(rec.filename.as_str(), filename) {
                return Some((rec.size, rec.mod_time, rec.hash));
            }
            assert(s.take(i as int).drop_last() =~= s.take(i - 1));
            i = i - 1;
        }
        None
    }

    /// Whether a file is unchanged: a record exists for it and holds the
    /// fingerprint of its current size and modification time.
    pub fn is_unchanged(&self, remote_dir: &str, filename: &str, size: u64, mod_time: i64) -> (r: bool)
        ensures
            r == (lookup(self.view_records(), remote_dir@, filename@) matches Some(v) && v.2
                == fingerprint_of(remote_dir@, filename@, size, mod_time)),
    {
        match self.get(remote_dir, filename) {
            Some(v) => v.2 == compute_file_hash(filename, remote_dir, size, mod_time),
            None => false,
        }
    }

    /// Removes every record and returns how many there were.
    pub fn delete_all(&mut self) -> (r: usize)
        ensures
            r == old(self).view_records().len(),
            final(self).view_records() == Seq::<RecordView>::empty(),
    {
        let n = self.records.len();
        self.records = Vec::new();
        assert(self.view_records() =~= Seq::<RecordView>::empty());
        n
    }
}

/// Reads the legacy text format: one record per line, in the five-field or
/// the three-field form; lines that hold no record are skipped.
pub fn load_existing_hashes_with_metadata(content: &str) -> (r: HashIndex)
    ensures
        r.view_records() == records_of_lines(lines_of(content@)),
{
    let ls = lines(content);
    let ghost l = lines_of(content@);
    let mut index = HashIndex { records: Vec::new() };
    let mut i: usize = 0;
    assert(index.view_records() =~= records_of_lines(l.take(0)));
    while i < ls.len()
        invariant
            i <= ls@.len(),
            views(ls@) == l,
            index.view_records() == records_of_lines(l.take(i as int)),
        decreases ls@.len() - i,
    {
        assert(l.take(i + 1).drop_last() =~= l.take(i as int));
        assert(ls@[i as int]@ == l[i as int]);
        match parse_hash_line(ls[i].as_str()) {
            Some(rec) => {
                let ghost before = index.view_records();
                index.records.push(rec);
                assert(index.view_records() =~= before.push(record_view(rec)));
            },
            None => {},
        }
        i = i + 1;
    }
    assert(l.take(i as int) =~= l);
    index
}

/// The key and fingerprint a legacy line holds, whatever its size and time
/// fields say: the fifth field of a line of five or more, else the third of
/// a line of three or four.
pub open spec fn key_hash_of_fields(p: Seq<Seq<char>>) -> Option<(Seq<char>, Seq<char>, u64)> {
    if p.len() >= 5 {
        match parse_u64_of(p[4]) {
            Some(h) => Some((p[0], p[1], h)),
            None => None,
        }
    } else if p.len() >= 3 {
        match parse_u64_of(p[2]) {
            Some(h) => Some((p[0], p[1], h)),
            None => None,
        }
    } else {
        None
    }
}

/// The keys and fingerprints of the lines that hold one, in order.
pub open spec fn key_hashes_of_lines(ls: Seq<Seq<char>>) -> Seq<(Seq<char>, Seq<char>, u64)>
    decreases ls.len(),
{
    if ls.len() == 0 {
        Seq::empty()
    } else {
        let prev = key_hashes_of_lines(ls.drop_last());
        match key_hash_of_fields(split_by(ls.last(), '|')) {
            Some(r) => prev.push(r),
            None => prev,
        }
    }
}

pub open spec fn key_hash_views(v: Seq<(String, String, u64)>) -> Seq<(Seq<char>, Seq<char>, u64)> {
    v.map_values(|t: (String, String, u64)| (t.0@, t.1@, t.2))
}

/// Reads the key and fingerprint of one legacy line.
pub fn parse_key_hash_line(line: &str) -> (r: Option<(String, String, u64)>)
    ensures
        match r {
            Some(t) => key_hash_of_fields(split_by(line@, '|')) == Some((t.0@, t.1@, t.2)),
            None => key_hash_of_fields(split_by(line@, '|')) is None,
        },
{
    let parts = split_on(line, '|');
    let ghost p = split_by(line@, '|');
    assert(forall|i: int| 0 <= i < parts@.len() ==> parts@[i]@ == #[trigger] p[i]);
    let field: usize = if parts.len() >= 5 {
        4
    } else if parts.len() >= 3 {
        2
    } else {
        return None;
    };
    match parse_u64(parts[field].as_str()) {
        Some(h) => Some((parts[0].clone(), parts[1].clone(), h)),
        None => None,
    }
}

/// The fingerprint of the last entry for `(dir, file)`.
pub open spec fn key_hash_lookup(s: Seq<(Seq<char>, Seq<char>, u64)>, dir: Seq<char>, file: Seq<char>) -> Option<u64>
    decreases s.len(),
{
    if s.len() == 0 {
        None
    } else if s.last().0 == dir && s.last().1 == file {
        Some(s.last().2)
    } else {
        key_hash_lookup(s.drop_last(), dir, file)
    }
}

/// No two entries share a (directory, file) key.
pub open spec fn keys_unique(s: Seq<(Seq<char>, Seq<char>, u64)>) -> bool {
    forall|i: int, j: int|
        0 <= i < j < s.len() ==> !(#[trigger] s[i].0 == #[trigger] s[j].0 && s[i].1 == s[j].1)
}

proof fn lemma_lookup_unique(s: Seq<(Seq<char>, Seq<char>, u64)>, i: int)
    requires
        keys_unique(s),
        0 <= i < s.len(),
    ensures
        key_hash_lookup(s, s[i].0, s[i].1) == Some(s[i].2),
    decreases s.len(),
{
    if i < s.len() - 1 {
        let t = s.drop_last();
        assert(!(s[i].0 == s[s.len() - 1].0 && s[i].1 == s[s.len() - 1].1));
        assert(keys_unique(t)) by {
            assert forall|a: int, b: int| 0 <= a < b < t.len() implies !(#[trigger] t[a].0 == #[trigger] t[b].0
                && t[a].1 == t[b].1) by {
                assert(t[a] == s[a] && t[b] == s[b]);
            }
        }
        lemma_lookup_unique(t, i);
        assert(t[i] == s[i]);
    }
}

proof fn lemma_lookup_absent(s: Seq<(Seq<char>, Seq<char>, u64)>, dir: Seq<char>, file: Seq<char>)
    requires
        forall|i: int| 0 <= i < s.len() ==> !(#[trigger] s[i].0 == dir && s[i].1 == file),
    ensures
        key_hash_lookup(s, dir, file) is None,
    decreases s.len(),
{
    if s.len() > 0 {
        let t = s.drop_last();
        assert forall|i: int| 0 <= i < t.len() implies !(#[trigger] t[i].0 == dir && t[i].1 == file) by {
            assert(t[i] == s[i]);
        }
        lemma_lookup_absent(t, dir, file);
    }
}

fn key_position(v: &Vec<(String, String, u64)>, dir: &String, file: &String) -> (r: Option<usize>)
    ensures
        match r {
            Some(j) => j < v@.len() && v@[j as int].0@ == dir@ && v@[j as int].1@ == file@,
            None => forall|k: int| 0 <= k < v@.len() ==> !(#[trigger] v@[k].0@ == dir@ && v@[k].1@ == file@),
        },
{
    let mut j: usize = 0;
    while j < v.len()
        invariant
            j <= v@.len(),
            forall|k: int| 0 <= k < j ==> !(#[trigger] v@[k].0@ == dir@ && v@[k].1@ == file@),
        decreases v@.len() - j,
    {
        if same_text(v[j].0.as_str(), dir.as_str()) && same_text(v[j].1.as_str(), file.as_str()) {
            return Some(j);
        }
        j = j + 1;
    }
    None
}

/// Reads the keys and fingerprints of a legacy text: one entry per
/// (directory, file) key, holding the fingerprint of the last line for it.
pub fn load_existing_hashes(content: &str) -> (r: Vec<(String, String, u64)>)
    ensures
        keys_unique(key_hash_views(r@)),
        forall|dir: Seq<char>, file: Seq<char>|
            #[trigger] key_hash_lookup(key_hash_views(r@), dir, file) == key_hash_lookup(
                key_hashes_of_lines(lines_of(content@)),
                dir,
                file,
            ),
{
    let ls = lines(content);
    let ghost l = lines_of(content@);
    let mut out: Vec<(String, String, u64)> = Vec::new();
    let mut i: usize = 0;
    assert(key_hash_views(out@) =~= Seq::<(Seq<char>, Seq<char>, u64)>::empty());
    while i < ls.len()
        invariant
            i <= ls@.len(),
            views(ls@) == l,
            keys_unique(key_hash_views(out@)),
            forall|dir: Seq<char>, file: Seq<char>|
                #[trigger] key_hash_lookup(key_hash_views(out@), dir, file) == key_hash_lookup(
                    key_hashes_of_lines(l.take(i as int)),
                    dir,
                    file,
                ),
        decreases ls@.len() - i,
    {
        assert(l.take(i + 1).drop_last() =~= l.take(i as int));
        assert(ls@[i as int]@ == l[i as int]);
        let ghost p = key_hashes_of_lines(l.take(i as int));
        match parse_key_hash_line(ls[i].as_str()) {
            Some(t) => {
                let ghost old_s = key_hash_views(out@);
                let ghost tv = (t.0@, t.1@, t.2);
                assert(key_hashes_of_lines(l.take(i + 1)) == p.push(tv));
                match key_position(&out, &t.0, &t.1) {
                    None => {
                        out.push(t);
                        let ghost s2 = key_hash_views(out@);
                        assert(s2 =~= old_s.push(tv));
                        assert(s2.drop_last() =~= old_s);
                        assert(keys_unique(s2)) by {
                            assert forall|a: int, b: int| 0 <= a < b < s2.len() implies !(#[trigger] s2[a].0
                                == #[trigger] s2[b].0 && s2[a].1 == s2[b].1) by {
                                if b < old_s.len() {
                                    assert(s2[a] == old_s[a] && s2[b] == old_s[b]);
                                } else {
                                    assert(s2[a] == old_s[a]);
                                    assert(!(out@[a].0@ == tv.0 && out@[a].1@ == tv.1));
                                }
                            }
                        }
                        assert forall|dir: Seq<char>, file: Seq<char>|
                            #[trigger] key_hash_lookup(s2, dir, file) == key_hash_lookup(p.push(tv), dir, file) by {
                            assert(p.push(tv).drop_last() =~= p);
                            assert(key_hash_lookup(old_s, dir, file) == key_hash_lookup(p, dir, file));
                        }
                    },
                    Some(j) => {
                        out[j] = t;
                        let ghost s2 = key_hash_views(out@);
                        assert(s2 =~= old_s.update(j as int, tv));
                        assert(keys_unique(s2)) by {
                            assert forall|a: int, b: int| 0 <= a < b < s2.len() implies !(#[trigger] s2[a].0
                                == #[trigger] s2[b].0 && s2[a].1 == s2[b].1) by {
                                assert(s2[a].0 == old_s[a].0 && s2[a].1 == old_s[a].1);
                                assert(s2[b].0 == old_s[b].0 && s2[b].1 == old_s[b].1);
                            }
                        }
                        assert forall|dir: Seq<char>, file: Seq<char>|
                            #[trigger] key_hash_lookup(s2, dir, file) == key_hash_lookup(p.push(tv), dir, file) by {
                            assert(p.push(tv).drop_last() =~= p);
                            assert(key_hash_lookup(old_s, dir, file) == key_hash_lookup(p, dir, file));
                            if dir == tv.0 && file == tv.1 {
                                lemma_lookup_unique(s2, j as int);
                            } else if exists|k: int| 0 <= k < old_s.len() && #[trigger] old_s[k].0 == dir && old_s[k].1 == file {
                                let k = choose|k: int| 0 <= k < old_s.len() && #[trigger] old_s[k].0 == dir && old_s[k].1 == file;
                                lemma_lookup_unique(old_s, k);
                                lemma_lookup_unique(s2, k);
                            } else {
                                lemma_lookup_absent(old_s, dir, file);
                                assert forall|k: int| 0 <= k < s2.len() implies !(#[trigger] s2[k].0 == dir && s2[k].1 == file) by {
                                    if k != j {
                                        assert(s2[k] == old_s[k]);
                                    }
                                }
                                lemma_lookup_absent(s2, dir, file);
                            }
                        }
                    },
                }
            },
            None => {
                assert(key_hashes_of_lines(l.take(i + 1)) == p);
            },
        }
        i = i + 1;
    }
    assert(l.take(i as int) =~= l);
    out
}

/// `s` holds no `c`.
pub open spec fn free_of(s: Seq<char>, c: char) -> bool {
    forall|i: int| 0 <= i < s.len() ==> s[i] != c
}

proof fn lemma_number_texts_free(n: u64, v: i64)
    ensures
        free_of(decimal_of(n as nat), '|'),
        free_of(decimal_of(n as nat), '\n'),
        free_of(signed_decimal_of(v as int), '|'),
        free_of(signed_decimal_of(v as int), '\n'),
        decimal_of(n as nat).len() >= 1,
        is_digit(decimal_of(n as nat).last()),
{
    lemma_decimal_digits(n as nat);
    assert(is_digit(decimal_of(n as nat)[decimal_of(n as nat).len() - 1]));
    if v < 0 {
        let m = (-(v as int)) as nat;
        lemma_decimal_digits(m);
        let t = signed_decimal_of(v as int);
        assert forall|i: int| 0 <= i < t.len() implies t[i] != '|' && t[i] != '\n' by {
            if i > 0 {
                assert(t[i] == decimal_of(m)[i - 1]);
            }
        }
    } else {
        lemma_decimal_digits(v as nat);
    }
}

/// A record written to the text format reads back as that record, when its
/// directory and file name hold neither `|` nor a newline.
pub proof fn stored_line_reads_back(dir: Seq<char>, file: Seq<char>, size: u64, mtime: i64, hash: u64)
    requires
        free_of(dir, '|'),
        free_of(dir, '\n'),
        free_of(file, '|'),
        free_of(file, '\n'),
    ensures
        records_of_lines(lines_of(hash_line_text(dir, file, size, mtime, hash))) == seq![
            (dir, file, size, mtime, hash),
        ],
{
    let ds = decimal_of(size as nat);
    let ms = signed_decimal_of(mtime as int);
    let hs = decimal_of(hash as nat);
    lemma_number_texts_free(size, mtime);
    lemma_number_texts_free(hash, mtime);
    let bar = seq!['|'];
    let r3 = ms + bar + hs;
    let r2 = ds + bar + r3;
    let r1 = file + bar + r2;
    let t = dir + bar + r1;
    assert(t =~= metadata_text(dir, file, size, mtime) + bar + hs);
    lemma_split_join(ms, hs, '|');
    lemma_split_join(ds, r3, '|');
    lemma_split_join(file, r2, '|');
    lemma_split_join(dir, r1, '|');
    lemma_split_single(dir, '|');
    lemma_split_single(file, '|');
    lemma_split_single(ds, '|');
    lemma_split_single(ms, '|');
    lemma_split_single(hs, '|');
    let p = split_by(t, '|');
    assert(p =~= seq![dir, file, ds, ms, hs]);
    parse_u64_of_decimal(size);
    parse_i64_of_signed_decimal(mtime);
    parse_u64_of_decimal(hash);
    assert(record_of_line(t) == Some((dir, file, size, mtime, hash)));
    assert forall|i: int| 0 <= i < t.len() implies t[i] != '\n' by {
        if i < dir.len() {
        } else if i == dir.len() {
        } else if i < dir.len() + 1 + file.len() {
            assert(t[i] == file[i - dir.len() - 1]);
        } else if i == dir.len() + 1 + file.len() {
        } else if i < dir.len() + 2 + file.len() + ds.len() {
            assert(t[i] == ds[i - dir.len() - 2 - file.len()]);
        } else if i == dir.len() + 2 + file.len() + ds.len() {
        } else if i < dir.len() + 3 + file.len() + ds.len() + ms.len() {
            assert(t[i] == ms[i - dir.len() - 3 - file.len() - ds.len()]);
        } else if i == dir.len() + 3 + file.len() + ds.len() + ms.len() {
        } else {
            assert(t[i] == hs[i - dir.len() - 4 - file.len() - ds.len() - ms.len()]);
        }
    }
    let line = hash_line_text(dir, file, size, mtime, hash);
    assert(line =~= t + seq!['\n'] + Seq::<char>::empty());
    lemma_split_join(t, Seq::<char>::empty(), '\n');
    lemma_split_single(t, '\n');
    assert(split_by(Seq::<char>::empty(), '\n') =~= seq![Seq::<char>::empty()]);
    let pieces = split_by(line, '\n');
    assert(pieces =~= seq![t, Seq::<char>::empty()]);
    assert(t.last() == hs.last());
    assert(strip_cr(t) == t);
    assert(lines_of(line) =~= seq![t]);
    assert(seq![t].drop_last() =~= Seq::<Seq<char>>::empty());
    assert(seq![t].last() == t);
    assert(records_of_lines(Seq::<Seq<char>>::empty()) == Seq::<RecordView>::empty());
    assert(record_of_line(seq![t].last()) == Some((dir, file, size, mtime, hash)));
    assert(records_of_lines(seq![t]) =~= seq![(dir, file, size, mtime, hash)]);
}

} // verus!
