//! Decimal text of integers, the metadata fingerprint of a file and the
//! 32-bit identifier hash handed to the notification callback.
use vstd::prelude::*;
use crate::text::push_char;
use vstd::string::StringSliceAdditionalSpecFns;

verus! {

/// The decimal digit character of `d`, for `0 <= d < 10`.
pub open spec fn digit_char(d: int) -> char {
    ((d + 48) as u8) as char
}

/// The decimal text of a natural number, without sign or leading zeros.
pub open spec fn decimal_of(n: nat) -> Seq<char>
    decreases n,
{
    if n < 10 {
        seq![digit_char(n as int)]
    } else {
        decimal_of(n / 10).push(digit_char((n % 10) as int))
    }
}

/// The decimal text of an integer, with a leading `-` when negative.
pub open spec fn signed_decimal_of(v: int) -> Seq<char> {
    if v < 0 {
        seq!['-'] + decimal_of((-v) as nat)
    } else {
        decimal_of(v as nat)
    }
}

fn digit(d: u64) -> (c: char)
    requires
        d < 10,
    ensures
        c == digit_char(d as int),
{
    let b: u8 = (d as u8) + 48;
    b as char
}

/// Appends the decimal text of `n`.
pub fn push_decimal(out: &mut String, n: u64)
    ensures
        final(out)@ == old(out)@ + decimal_of(n as nat),
    decreases n,
{
    if n >= 10 {
        push_decimal(out, n / 10);
    }
    push_char(out, digit(n % 10));
    assert(final(out)@ =~= old(out)@ + decimal_of(n as nat));
}

/// Appends the decimal text of `v`, with a `-` when negative.
pub fn push_signed_decimal(out: &mut String, v: i64)
    ensures
        final(out)@ == old(out)@ + signed_decimal_of(v as int),
{
    if v < 0 {
        push_char(out, '-');
        let magnitude: u64 = if v == i64::MIN { 0x8000_0000_0000_0000 } else { (-v) as u64 };
        push_decimal(out, magnitude);
        assert(final(out)@ =~= old(out)@ + signed_decimal_of(v as int));
    } else {
        push_decimal(out, v as u64);
    }
}

/// The text `<remote_dir>|<filename>|<size>|<mtime>` that a fingerprint hashes.
pub open spec fn metadata_text(remote_dir: Seq<char>, filename: Seq<char>, size: u64, mtime: i64) -> Seq<char> {
    remote_dir + seq!['|'] + filename + seq!['|'] + decimal_of(size as nat) + seq!['|']
        + signed_decimal_of(mtime as int)
}

/// The 64-bit XXH3 hash of the UTF-8 bytes of a text.
pub uninterp spec fn xxh3_of(s: Seq<char>) -> u64;

/// Relies on `xxhash_rust::xxh3::xxh3_64`: the hash of the text's bytes,
/// which depends on those bytes alone.
#[verifier::external_body]
fn xxh3_text(s: &str) -> (r: u64)
    ensures
        r == xxh3_of(s@),
{
    xxhash_rust::xxh3::xxh3_64(s.as_bytes())
}

/// The fingerprint of a file as the hash store keeps it.
pub open spec fn fingerprint_of(remote_dir: Seq<char>, filename: Seq<char>, size: u64, mtime: i64) -> u64 {
    xxh3_of(metadata_text(remote_dir, filename, size, mtime))
}

/// The metadata text of a file: directory, name, size and modification time
/// (seconds since the epoch), separated by `|`.
pub fn metadata_string(remote_dir: &str, filename: &str, size: u64, mod_time: i64) -> (r: String)
    ensures
        r@ == metadata_text(remote_dir@, filename@, size, mod_time),
{
    let mut out = remote_dir.to_owned();
    push_char(&mut out, '|');
    out.append(filename);
    push_char(&mut out, '|');
    push_decimal(&mut out, size);
    push_char(&mut out, '|');
    push_signed_decimal(&mut out, mod_time);
    assert(out@ =~= metadata_text(remote_dir@, filename@, size, mod_time));
    out
}

/// The fingerprint of a file from its name, directory, size and modification
/// time (seconds since the epoch).
pub fn compute_file_hash(filename: &str, remote_dir: &str, size: u64, mod_time: i64) -> (r: u64)
    ensures
        r == fingerprint_of(remote_dir@, filename@, size, mod_time),
{
    let text = metadata_string(remote_dir, filename, size, mod_time);
    xxh3_text(text.as_str())
}

/// Fingerprint determinism: the fingerprint is a function of directory, name,
/// size and modification time alone, so equal inputs give equal values.
pub proof fn fingerprint_deterministic(
    dir1: Seq<char>,
    file1: Seq<char>,
    size1: u64,
    mtime1: i64,
    dir2: Seq<char>,
    file2: Seq<char>,
    size2: u64,
    mtime2: i64,
)
    requires
        dir1 == dir2,
        file1 == file2,
        size1 == size2,
        mtime1 == mtime2,
    ensures
        fingerprint_of(dir1, file1, size1, mtime1) == fingerprint_of(dir2, file2, size2, mtime2),
{
}

pub const FNV_OFFSET_BASIS: u64 = 0xcbf29ce484222325;

pub const FNV_PRIME: u64 = 0x100000001b3;

/// 64-bit FNV-1a over a byte sequence.
pub open spec fn fnv1a_of(bytes: Seq<u8>) -> u64
    decreases bytes.len(),
{
    if bytes.len() == 0 {
        FNV_OFFSET_BASIS
    } else {
        vstd::wrapping::u64_specs::wrapping_mul(
            fnv1a_of(bytes.drop_last()) ^ (bytes.last() as u64),
            FNV_PRIME,
        )
    }
}

/// The 32-bit identifier of a configuration for the notification callback:
/// the low 32 bits of FNV-1a over the UTF-8 bytes of its identifier.
pub fn config_id_to_hash(config_id: &str) -> (r: u32)
    ensures
        r == (fnv1a_of(config_id.spec_bytes()) % 0x1_0000_0000) as u32,
{
    let bytes = config_id.as_bytes();
    let mut hash: u64 = FNV_OFFSET_BASIS;
    let mut i: usize = 0;
    while i < bytes.len()
        invariant
            i <= bytes@.len(),
            bytes@ == config_id.spec_bytes(),
            hash == fnv1a_of(bytes@.take(i as int)),
        decreases bytes@.len() - i,
    {
        assert(bytes@.take(i + 1).drop_last() == bytes@.take(i as int));
        hash = (hash ^ (bytes[i] as u64)).wrapping_mul(FNV_PRIME);
        i = i + 1;
    }
    assert(bytes@.take(i as int) == bytes@);
    let low = hash & 0xFFFF_FFFF;
    assert(hash & 0xFFFF_FFFF == hash % 0x1_0000_0000) by (bit_vector);
    low as u32
}

} // verus!
