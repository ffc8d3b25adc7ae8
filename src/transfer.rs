//! Rules of the upload path: which local entries are candidates, how a file
//! is transferred (text or binary), where it lands remotely, which remote
//! directories must exist first, and which local addresses identify the host.
use vstd::prelude::*;
use crate::presence::{is_space, is_space_char};
use crate::text::{lemma_split_nonempty, chars_of, has_prefix, has_suffix, lower_of, lowercase, same_text, split_by, split_on, starts_with_str, ends_with_str, string_of_range, views, push_char};

verus! {

/// Directory under the local source root that receives uploaded files.
pub const SENT_DIR_NAME: &'static str = "FTPU-Sent";

/// Whether a directory entry named `name` is left out of the scan: hidden
/// entries, the sent-files directory, and files that are temporary or
/// system files.
pub open spec fn skipped_name(name: Seq<char>, is_dir: bool) -> bool {
    if is_dir {
        has_prefix(name, "."@) || name == SENT_DIR_NAME@
    } else {
        has_prefix(name, "."@) || has_suffix(name, ".filepart"@) || name == "Thumbs.db"@
            || name == "desktop.ini"@ || has_prefix(name, "~$"@) || has_suffix(name, ".tmp"@)
            || has_suffix(name, ".temp"@)
    }
}

/// Whether the scanner skips a directory entry.
pub fn should_skip_entry(name: &str, is_dir: bool) -> (r: bool)
    ensures
        r == skipped_name(name@, is_dir),
{
    if is_dir {
        starts_with_str(name, ".") || same_text(name, SENT_DIR_NAME)
    } else {
        starts_with_str(name, ".") || ends_with_str(name, ".filepart") || same_text(name, "Thumbs.db")
            || same_text(name, "desktop.ini") || starts_with_str(name, "~$") || ends_with_str(name, ".tmp")
            || ends_with_str(name, ".temp")
    }
}

/// Lowercase extensions of files sent in ASCII mode.
pub open spec fn is_text_extension(e: Seq<char>) -> bool {
        e == "txt"@ || e == "md"@ || e == "json"@ || e == "xml"@ || e == "html"@ || e == "htm"@
        || e == "css"@ || e == "js"@ || e == "py"@ || e == "rs"@ || e == "swift"@ || e == "java"@
        || e == "c"@ || e == "cpp"@ || e == "h"@ || e == "hpp"@ || e == "sh"@ || e == "bash"@
        || e == "zsh"@ || e == "fish"@ || e == "ps1"@ || e == "bat"@ || e == "cmd"@ || e == "ini"@
        || e == "cfg"@ || e == "conf"@ || e == "log"@ || e == "csv"@ || e == "tsv"@ || e == "sql"@
        || e == "r"@ || e == "m"@ || e == "tex"@ || e == "bib"@ || e == "sty"@ || e == "cls"@
        || e == "ltx"@ || e == "dtx"@ || e == "ins"@ || e == "aux"@ || e == "bbl"@ || e == "blg"@
        || e == "idx"@ || e == "ind"@ || e == "glo"@ || e == "acn"@ || e == "alg"@ || e == "ist"@
        || e == "loa"@ || e == "lot"@ || e == "out"@ || e == "toc"@ || e == "lof"@ || e == "lol"@
        || e == "nav"@ || e == "snm"@ || e == "vrb"@
}

fn text_extension(e: &str) -> (r: bool)
    ensures
        r == is_text_extension(e@),
{
        same_text(e, "txt") || same_text(e, "md") || same_text(e, "json") || same_text(e, "xml") || same_text(e, "html") || same_text(e, "htm")
        || same_text(e, "css") || same_text(e, "js") || same_text(e, "py") || same_text(e, "rs") || same_text(e, "swift") || same_text(e, "java")
        || same_text(e, "c") || same_text(e, "cpp") || same_text(e, "h") || same_text(e, "hpp") || same_text(e, "sh") || same_text(e, "bash")
        || same_text(e, "zsh") || same_text(e, "fish") || same_text(e, "ps1") || same_text(e, "bat") || same_text(e, "cmd") || same_text(e, "ini")
        || same_text(e, "cfg") || same_text(e, "conf") || same_text(e, "log") || same_text(e, "csv") || same_text(e, "tsv") || same_text(e, "sql")
        || same_text(e, "r") || same_text(e, "m") || same_text(e, "tex") || same_text(e, "bib") || same_text(e, "sty") || same_text(e, "cls")
        || same_text(e, "ltx") || same_text(e, "dtx") || same_text(e, "ins") || same_text(e, "aux") || same_text(e, "bbl") || same_text(e, "blg")
        || same_text(e, "idx") || same_text(e, "ind") || same_text(e, "glo") || same_text(e, "acn") || same_text(e, "alg") || same_text(e, "ist")
        || same_text(e, "loa") || same_text(e, "lot") || same_text(e, "out") || same_text(e, "toc") || same_text(e, "lof") || same_text(e, "lol")
        || same_text(e, "nav") || same_text(e, "snm") || same_text(e, "vrb")
}

/// The extension of a file name: the text after its last `.`, or the whole
/// name where it has none.
pub open spec fn extension_of(name: Seq<char>) -> Option<Seq<char>> {
    let parts = split_by(split_by(name, '/').last(), '.');
    if parts.len() > 1 {
        Some(parts.last())
    } else {
        None
    }
}

/// Whether a file is sent in ASCII mode: it has an extension (text after the
/// last `.` of its last path component) and that extension, lowercased, is
/// one of the known text extensions. Everything else goes in binary mode.
pub fn is_likely_text_file(filename: &str) -> (r: bool)
    ensures
        r == match extension_of(filename@) {
            Some(e) => is_text_extension(lower_of(e)),
            None => false,
        },
{
    let base = remote_target(filename, false);
    let pieces = split_on(base.as_str(), '.');
    if pieces.len() <= 1 {
        return false;
    }
    assert(pieces@[pieces@.len() - 1]@ == views(pieces@).last());
    let lowered = lowercase(pieces[pieces.len() - 1].as_str());
    text_extension(lowered.as_str())
}

/// Where a file lands under the remote directory: its relative path when
/// paths are kept, else its last path component.
pub open spec fn remote_target_of(relative_path: Seq<char>, respect_file_paths: bool) -> Seq<char> {
    if respect_file_paths {
        relative_path
    } else {
        split_by(relative_path, '/').last()
    }
}

/// The remote name a file is stored under.
pub fn remote_target(relative_path: &str, respect_file_paths: bool) -> (r: String)
    ensures
        r@ == remote_target_of(relative_path@, respect_file_paths),
{
    if respect_file_paths {
        relative_path.to_owned()
    } else {
        let pieces = split_on(relative_path, '/');
        proof {
            lemma_split_nonempty(relative_path@, '/');
        }
        assert(pieces@[pieces@.len() - 1]@ == views(pieces@).last());
        pieces[pieces.len() - 1].clone()
    }
}

/// The non-empty pieces of `p`, in order.
pub open spec fn nonempty_pieces(p: Seq<Seq<char>>) -> Seq<Seq<char>>
    decreases p.len(),
{
    if p.len() == 0 {
        p
    } else {
        let prev = nonempty_pieces(p.drop_last());
        if p.last().len() > 0 {
            prev.push(p.last())
        } else {
            prev
        }
    }
}

/// The absolute paths `/c0`, `/c0/c1`, ... of the components `comps`.
pub open spec fn path_chain(comps: Seq<Seq<char>>) -> Seq<Seq<char>>
    decreases comps.len(),
{
    if comps.len() == 0 {
        Seq::empty()
    } else {
        let prev = path_chain(comps.drop_last());
        let parent = if prev.len() == 0 { Seq::<char>::empty() } else { prev.last() };
        prev.push(parent + seq!['/'] + comps.last())
    }
}

proof fn lemma_path_chain_len(comps: Seq<Seq<char>>)
    ensures
        path_chain(comps).len() == comps.len(),
    decreases comps.len(),
{
    if comps.len() > 0 {
        lemma_path_chain_len(comps.drop_last());
    }
}

/// The directory part of a remote name: the text before its last `/`.
pub open spec fn parent_of(name: Seq<char>) -> Seq<char> {
    let p = split_by(name, '/');
    name.take(name.len() - p.last().len() - 1)
}

/// The remote directories to create, outermost first, before storing a
/// file under `remote_name` in `remote_dir`: every ancestor directory of the
/// file, as an absolute path. Only names that hold a `/` need any, and only
/// when paths are kept.
pub open spec fn dirs_to_create(remote_dir: Seq<char>, remote_name: Seq<char>, respect_file_paths: bool) -> Seq<Seq<char>> {
    if respect_file_paths && split_by(remote_name, '/').len() > 1 {
        path_chain(nonempty_pieces(split_by(remote_dir + seq!['/'] + parent_of(remote_name), '/')))
    } else {
        Seq::empty()
    }
}

proof fn lemma_last_piece_suffix(s: Seq<char>, sep: char)
    ensures
        split_by(s, sep).len() >= 1,
        split_by(s, sep).last().len() <= s.len(),
        split_by(s, sep).len() > 1 ==> split_by(s, sep).last().len() < s.len()
            && s[s.len() - split_by(s, sep).last().len() - 1] == sep,
    decreases s.len(),
{
    if s.len() > 0 {
        lemma_last_piece_suffix(s.drop_last(), sep);
    }
}

/// Absolute paths `/c0`, `/c0/c1`, ... for the non-empty components of `path`.
fn chain_of(path: &str) -> (r: Vec<String>)
    ensures
        views(r@) == path_chain(nonempty_pieces(split_by(path@, '/'))),
{
    let pieces = split_on(path, '/');
    let ghost p = split_by(path@, '/');
    let mut out: Vec<String> = Vec::new();
    let mut i: usize = 0;
    assert(p.take(0) =~= Seq::<Seq<char>>::empty());
    while i < pieces.len()
        invariant
            i <= pieces@.len(),
            views(pieces@) == p,
            views(out@) == path_chain(nonempty_pieces(p.take(i as int))),
        decreases pieces@.len() - i,
    {
        assert(p.take(i + 1).drop_last() =~= p.take(i as int));
        assert(pieces@[i as int]@ == p[i as int]);
        proof {
            lemma_path_chain_len(nonempty_pieces(p.take(i as int)));
        }
        let ghost np = nonempty_pieces(p.take(i as int));
        if pieces[i].as_str().unicode_len() > 0 {
            assert(nonempty_pieces(p.take(i + 1)) == np.push(p[i as int]));
            assert(np.push(p[i as int]).drop_last() =~= np);
            let mut next = if out.len() == 0 { String::new() } else { out[out.len() - 1].clone() };
            push_char(&mut next, '/');
            next.append(pieces[i].as_str());
            let ghost before = out@;
            assert(next@ == (if path_chain(np).len() == 0 { Seq::<char>::empty() } else { path_chain(np).last() }) + seq!['/'] + p[i as int]);
            out.push(next);
            assert(views(out@) =~= views(before).push(next@));
        } else {
            assert(nonempty_pieces(p.take(i + 1)) == np);
        }
        i = i + 1;
    }
    assert(p.take(i as int) =~= p);
    out
}

/// The remote directories to create before storing `remote_name`.
pub fn remote_dirs_to_create(remote_dir: &str, remote_name: &str, respect_file_paths: bool) -> (r: Vec<String>)
    ensures
        views(r@) == dirs_to_create(remote_dir@, remote_name@, respect_file_paths),
{
    if !respect_file_paths {
        let r: Vec<String> = Vec::new();
        assert(views(r@) =~= Seq::<Seq<char>>::empty());
        return r;
    }
    let cs = chars_of(remote_name);
    let pieces = split_on(remote_name, '/');
    if pieces.len() <= 1 {
        let r: Vec<String> = Vec::new();
        assert(views(r@) =~= Seq::<Seq<char>>::empty());
        return r;
    }
    proof {
        lemma_last_piece_suffix(remote_name@, '/');
    }
    assert(pieces@[pieces@.len() - 1]@ == views(pieces@).last());
    let last_len = pieces[pieces.len() - 1].as_str().unicode_len();
    let parent = string_of_range(&cs, 0, cs.len() - last_len - 1);
    let mut full = remote_dir.to_owned();
    push_char(&mut full, '/');
    full.append(parent.as_str());
    assert(full@ =~= remote_dir@ + seq!['/'] + parent_of(remote_name@));
    chain_of(full.as_str())
}

/// `s` without its leading whitespace.
pub open spec fn trim_start_of(s: Seq<char>) -> Seq<char>
    decreases s.len(),
{
    if s.len() > 0 && is_space(s[0]) {
        trim_start_of(s.drop_first())
    } else {
        s
    }
}

/// The leading run of non-whitespace characters of `s`.
pub open spec fn word_of(s: Seq<char>) -> Seq<char>
    decreases s.len(),
{
    if s.len() > 0 && !is_space(s[0]) {
        seq![s[0]] + word_of(s.drop_first())
    } else {
        Seq::empty()
    }
}

/// The address an interface-listing line announces: a line that, without
/// leading whitespace, starts with `inet ` names it in its second word.
/// Loopback (`127.`) and link-local (`169.254.`) addresses do not count.
pub open spec fn inet_address_of(line: Seq<char>) -> Option<Seq<char>> {
    let t = trim_start_of(line);
    let w = word_of(trim_start_of(t.skip(5)));
    if has_prefix(t, "inet "@) && w.len() > 0 && !has_prefix(w, "127."@) && !has_prefix(w, "169.254."@) {
        Some(w)
    } else {
        None
    }
}

/// First position at or after `from` that is not whitespace.
fn skip_spaces(cs: &Vec<char>, from: usize) -> (r: usize)
    requires
        from <= cs@.len(),
    ensures
        from <= r <= cs@.len(),
        cs@.skip(r as int) == trim_start_of(cs@.skip(from as int)),
{
    let mut i = from;
    while i < cs.len() && is_space_char(cs[i])
        invariant
            from <= i <= cs@.len(),
            trim_start_of(cs@.skip(i as int)) == trim_start_of(cs@.skip(from as int)),
        decreases cs@.len() - i,
    {
        assert(cs@.skip(i as int).drop_first() =~= cs@.skip(i + 1));
        i = i + 1;
    }
    assert(i < cs@.len() ==> cs@.skip(i as int)[0] == cs@[i as int]);
    i
}

proof fn lemma_word_extend(s: Seq<char>, from: int, i: int)
    requires
        0 <= from <= i < s.len(),
        !is_space(s[i]),
        word_of(s.skip(from)) == s.subrange(from, i) + word_of(s.skip(i)),
    ensures
        word_of(s.skip(from)) == s.subrange(from, i + 1) + word_of(s.skip(i + 1)),
{
    assert(s.skip(i).drop_first() =~= s.skip(i + 1));
    assert(s.subrange(from, i + 1) =~= s.subrange(from, i) + seq![s[i]]);
    assert(s.skip(i)[0] == s[i]);
}

/// The address an interface-listing line announces, if any.
pub fn inet_address_of_line(line: &str) -> (r: Option<String>)
    ensures
        match r {
            Some(a) => inet_address_of(line@) == Some(a@),
            None => inet_address_of(line@) is None,
        },
{
    let cs = chars_of(line);
    assert(cs@.skip(0) =~= cs@);
    let start = skip_spaces(&cs, 0);
    let ghost t = cs@.skip(start as int);
    let prefix = chars_of("inet ");
    proof { reveal_strlit("inet "); }
    assert(prefix@.len() == 5);
    if !crate::text::matches_at(&cs, &prefix, start) {
        proof {
            if start + 5 <= cs@.len() {
                assert(start + 5 <= cs.len());
    assert(t.subrange(0, 5) =~= cs@.subrange(start as int, start + 5));
            }
        }
        return None;
    }
    assert(start + 5 <= cs.len());
    assert(t.subrange(0, 5) =~= cs@.subrange(start as int, start + 5));
    assert(t.skip(5) =~= cs@.skip(start + 5));
    let from = skip_spaces(&cs, start + 5);
    let mut end = from;
    assert(cs@.subrange(from as int, from as int) =~= Seq::<char>::empty());
    while end < cs.len() && !is_space_char(cs[end])
        invariant
            from <= end <= cs@.len(),
            word_of(cs@.skip(from as int)) == cs@.subrange(from as int, end as int) + word_of(cs@.skip(end as int)),
        decreases cs@.len() - end,
    {
        proof { lemma_word_extend(cs@, from as int, end as int); }
        end = end + 1;
    }
    assert(word_of(cs@.skip(end as int)) =~= Seq::<char>::empty()) by {
        if end < cs@.len() {
            assert(cs@.skip(end as int)[0] == cs@[end as int]);
        }
    }
    assert(word_of(cs@.skip(from as int)) =~= cs@.subrange(from as int, end as int));
    let word = string_of_range(&cs, from, end);
    if end == from || starts_with_str(word.as_str(), "127.") || starts_with_str(word.as_str(), "169.254.") {
        None
    } else {
        Some(word)
    }
}

/// Whether an address found through the routing table identifies the host:
/// loopback (`127.`, `::1`) and link-local (`169.254.`, `fe80:`) addresses do
/// not.
pub fn is_usable_route_address(ip: &str) -> (r: bool)
    ensures
        r == (!has_prefix(ip@, "127."@) && !has_prefix(ip@, "::1"@) && !has_prefix(ip@, "169.254."@)
            && !has_prefix(ip@, "fe80:"@)),
{
    !starts_with_str(ip, "127.") && !starts_with_str(ip, "::1") && !starts_with_str(ip, "169.254.")
        && !starts_with_str(ip, "fe80:")
}

/// The name `<stem>_<n><extension>` tried for a file whose name is taken;
/// `extension` includes its dot, or is empty.
pub open spec fn numbered_name_of(stem: Seq<char>, n: u64, extension: Seq<char>) -> Seq<char> {
    stem + seq!['_'] + crate::fingerprint::decimal_of(n as nat) + extension
}

/// Builds `<stem>_<n><extension>`.
pub fn numbered_file_name(stem: &str, n: u64, extension: &str) -> (r: String)
    ensures
        r@ == numbered_name_of(stem@, n, extension@),
{
    let mut out = stem.to_owned();
    push_char(&mut out, '_');
    crate::fingerprint::push_decimal(&mut out, n);
    out.append(extension);
    assert(out@ =~= numbered_name_of(stem@, n, extension@));
    out
}

} // verus!
