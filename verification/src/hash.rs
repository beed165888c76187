//! Resource hashes: a factory is written either as its hash or as the path
//! of the resource, and resolution works with the hash.

use crate::text::push_char;
use vstd::prelude::*;

verus! {

/// The MD5 digest of the UTF-8 encoding of `text`.
pub uninterp spec fn md5_of_text(text: Seq<char>) -> Seq<u8>;

/// The MD5 digest of the UTF-8 bytes of `text`.
///
/// Calls `md5::compute`, whose result is a pure function of the bytes it
/// is given; the contract names it and claims nothing else.
#[verifier::external_body]
fn md5_digest(text: &str) -> (r: [u8; 16])
    ensures
        r@ == md5_of_text(text@),
{
    md5::compute(text).0
}

/// The uppercase hexadecimal digit for `d` (`0 <= d < 16`).
pub open spec fn upper_hex_digit(d: nat) -> char {
    if d < 10 {
        (48 + d) as char
    } else {
        (55 + d) as char
    }
}

/// The low `n` hexadecimal digits of `v`, uppercase, most significant
/// first, zero-padded: what `{:0>n$X}` prints for a value below `16^n`.
pub open spec fn upper_hex_digits(v: nat, n: nat) -> Seq<char>
    decreases n,
{
    if n == 0 {
        Seq::empty()
    } else {
        upper_hex_digits(v / 16, (n - 1) as nat).push(upper_hex_digit(v % 16))
    }
}

/// The number that a digest's bytes 1 to 7 spell, most significant first.
pub open spec fn digest_value(d: Seq<u8>) -> nat {
    (d[1] * 0x1_0000_0000_0000 + d[2] * 0x100_0000_0000 + d[3] * 0x1_0000_0000 + d[4]
        * 0x100_0000 + d[5] * 0x1_0000 + d[6] * 0x100 + d[7]) as nat
}

/// The hash a digest names: its value in 16 uppercase hexadecimal digits.
pub open spec fn digest_hash(d: Seq<u8>) -> Seq<char> {
    upper_hex_digits(digest_value(d), 16)
}

/// The hash of a factory: text that starts with `0` is a hash already;
/// other text is a path, named by the hash of its digest.
pub open spec fn normalised(f: Seq<char>) -> Seq<char> {
    if f.len() > 0 && f[0] == '0' {
        f
    } else {
        digest_hash(md5_of_text(f))
    }
}

fn upper_hex_char(d: u8) -> (c: char)
    requires
        d < 16,
    ensures
        c == upper_hex_digit(d as nat),
{
    if d < 10 {
        (48u8 + d) as char
    } else {
        (55u8 + d) as char
    }
}

/// Appends the low `n` hexadecimal digits of `v`, uppercase, zero-padded.
fn push_upper_hex(s: &mut String, v: u64, n: usize)
    ensures
        final(s)@ == old(s)@ + upper_hex_digits(v as nat, n as nat),
    decreases n,
{
    if n > 0 {
        push_upper_hex(s, v / 16, n - 1);
        let d: u8 = (v % 16) as u8;
        push_char(s, upper_hex_char(d));
    }
}

/// The hash a digest names.
pub fn hash_of_digest(d: &[u8; 16]) -> (r: String)
    ensures
        r@ == digest_hash(d@),
{
    let v: u64 = d[1] as u64 * 0x1_0000_0000_0000 + d[2] as u64 * 0x100_0000_0000 + d[3] as u64
        * 0x1_0000_0000 + d[4] as u64 * 0x100_0000 + d[5] as u64 * 0x1_0000 + d[6] as u64 * 0x100
        + d[7] as u64;
    let mut s = String::new();
    push_upper_hex(&mut s, v, 16);
    assert(s@ =~= digest_hash(d@));
    s
}

/// Whether text starts with the digit `0`, as hashes do.
fn starts_with_zero(f: &str) -> (r: bool)
    ensures
        r == (f@.len() > 0 && f@[0] == '0'),
{
    let cs = crate::text::chars_of(f);
    cs.len() > 0 && cs[0] == '0'
}

/// The hash of a factory, written either as its hash or as a path.
pub fn normalise_to_hash(f: &String) -> (r: String)
    ensures
        r@ == normalised(f@),
{
    if starts_with_zero(f.as_str()) {
        f.clone()
    } else {
        hash_of_digest(&md5_digest(f.as_str()))
    }
}

} // verus!
