//! Hashes, message authentication and constant-time comparison from outside
//! crates, with the hexadecimal forms the middleware prints.
use vstd::prelude::*;
use crate::random::{hex_digit, hex_of};
use crate::text::{ascii_lower, push_char};

verus! {

/// The name of `sha2::Sha256::digest`: the SHA-256 digest of `data`.
pub uninterp spec fn sha256_of(data: Seq<u8>) -> Seq<u8>;

/// `Sha256::digest(data)` from the `sha2` crate, as bytes; its result is named by
/// `sha256_of` and, as for any SHA-256 digest, is 32 bytes long.
#[verifier::external_body]
pub(crate) fn sha256(data: &[u8]) -> (res: Vec<u8>)
    ensures
        res@ == sha256_of(data@),
        res@.len() == 32,
{
    <sha2::Sha256 as sha2::Digest>::digest(data).to_vec()
}

/// The name of `crc32fast::hash`: the CRC-32 (IEEE) checksum of `data`.
pub uninterp spec fn crc32_of(data: Seq<u8>) -> u32;

/// `crc32fast::hash(data)`; its result is named by `crc32_of`.
#[verifier::external_body]
pub(crate) fn crc32(data: &[u8]) -> (res: u32)
    ensures
        res == crc32_of(data@),
{
    crc32fast::hash(data)
}

/// The name of HMAC-SHA256 from the `hmac` crate: the tag of the UTF-8 bytes of
/// `msg` under `key`.
pub uninterp spec fn hmac_sha256_of(key: Seq<u8>, msg: Seq<char>) -> Seq<u8>;

/// `Hmac::<Sha256>::new_from_slice(key)`, `update(msg.as_bytes())`, `finalize()`
/// from the `hmac` crate; the result is named by `hmac_sha256_of` and is 32 bytes
/// long.  HMAC accepts keys of any length, so the key setup never fails.
#[verifier::external_body]
pub(crate) fn hmac_sha256(key: &[u8], msg: &str) -> (res: Vec<u8>)
    ensures
        res@ == hmac_sha256_of(key@, msg@),
        res@.len() == 32,
{
    let mut mac = <hmac::Hmac<sha2::Sha256> as hmac::KeyInit>::new_from_slice(key)
        .expect("HMAC accepts keys of any length");
    hmac::Mac::update(&mut mac, msg.as_bytes());
    hmac::Mac::finalize(mac).into_bytes().to_vec()
}

/// `ConstantTimeEq::ct_eq` on byte slices from the `subtle` crate, converted to
/// `bool`: true exactly when the slices are equal.
#[verifier::external_body]
pub(crate) fn ct_eq_bytes(a: &[u8], b: &[u8]) -> (res: bool)
    ensures
        res == (a@ == b@),
{
    bool::from(subtle::ConstantTimeEq::ct_eq(a, b))
}

/// A hexadecimal digit of either case.
pub open spec fn is_hex_char(c: char) -> bool {
    ('0' <= c && c <= '9') || ('a' <= c && c <= 'f') || ('A' <= c && c <= 'F')
}

/// An even number of hexadecimal digits.
pub open spec fn valid_hex(s: Seq<char>) -> bool {
    s.len() % 2 == 0 && forall|i: int| 0 <= i < s.len() ==> is_hex_char(#[trigger] s[i])
}

/// `hex::decode(s)`, with the error mapped to `None`.  As the crate documents, it
/// succeeds exactly on an even number of hexadecimal digits of either case, and
/// the bytes it gives back print, in lowercase hexadecimal, as the input in
/// lowercase.
#[verifier::external_body]
pub(crate) fn hex_decode(s: &str) -> (res: Option<Vec<u8>>)
    ensures
        res is Some <==> valid_hex(s@),
        res matches Some(v) ==> hex_of(v@) == ascii_lower(s@),
{
    hex::decode(s).ok()
}

/// A lowercase hexadecimal digit.
pub open spec fn is_lower_hex(c: char) -> bool {
    ('0' <= c && c <= '9') || ('a' <= c && c <= 'f')
}

proof fn lemma_hex_digit(d: nat, e: nat)
    requires
        d < 16,
        e < 16,
    ensures
        is_lower_hex(hex_digit(d)),
        hex_digit(d) == hex_digit(e) ==> d == e,
{
}

/// Every character of `hex_of(a)` is a lowercase hexadecimal digit.
pub proof fn lemma_hex_chars(a: Seq<u8>)
    ensures
        forall|i: int| 0 <= i < hex_of(a).len() ==> is_lower_hex(#[trigger] hex_of(a)[i]),
        valid_hex(hex_of(a)),
        ascii_lower(hex_of(a)) == hex_of(a),
    decreases a.len(),
{
    crate::random::lemma_hex_len(a);
    if a.len() > 0 {
        lemma_hex_chars(a.drop_last());
        let p = hex_of(a.drop_last());
        lemma_hex_digit((a.last() / 16) as nat, 0);
        lemma_hex_digit((a.last() % 16) as nat, 0);
        assert forall|i: int| 0 <= i < hex_of(a).len() implies is_lower_hex(#[trigger] hex_of(a)[i]) by {
            if i < p.len() {
                assert(hex_of(a)[i] == p[i]);
            }
        }
    }
    assert(ascii_lower(hex_of(a)) =~= hex_of(a));
}

/// Different bytes print differently.
pub proof fn lemma_hex_injective(a: Seq<u8>, b: Seq<u8>)
    requires
        hex_of(a) == hex_of(b),
    ensures
        a == b,
    decreases a.len(),
{
    crate::random::lemma_hex_len(a);
    crate::random::lemma_hex_len(b);
    if a.len() > 0 {
        let ha = hex_of(a);
        let pa = hex_of(a.drop_last());
        let pb = hex_of(b.drop_last());
        crate::random::lemma_hex_len(a.drop_last());
        crate::random::lemma_hex_len(b.drop_last());
        assert(pa =~= ha.subrange(0, ha.len() - 2));
        assert(pb =~= ha.subrange(0, ha.len() - 2));
        lemma_hex_injective(a.drop_last(), b.drop_last());
        assert(ha[ha.len() - 2] == hex_digit((a.last() / 16) as nat));
        assert(ha[ha.len() - 2] == hex_digit((b.last() / 16) as nat));
        assert(ha[ha.len() - 1] == hex_digit((a.last() % 16) as nat));
        assert(ha[ha.len() - 1] == hex_digit((b.last() % 16) as nat));
        lemma_hex_digit((a.last() / 16) as nat, (b.last() / 16) as nat);
        lemma_hex_digit((a.last() % 16) as nat, (b.last() % 16) as nat);
        assert(a.last() == b.last());
        assert(a =~= a.drop_last().push(a.last()));
        assert(b =~= b.drop_last().push(b.last()));
    }
}

/// Lowercase hexadecimal of `n` without leading zeros (`format!("{:x}", n)`).
pub open spec fn hex_num(n: nat) -> Seq<char>
    decreases n,
{
    if n < 16 {
        seq![hex_digit(n)]
    } else {
        hex_num(n / 16).push(hex_digit(n % 16))
    }
}

/// The big-endian bytes of a `u32`.
pub open spec fn be_bytes(n: u32) -> Seq<u8> {
    seq![(n / 16777216) as u8, ((n / 65536) % 256) as u8, ((n / 256) % 256) as u8, (n % 256) as u8]
}

/// Appends the lowercase hexadecimal of `n` without leading zeros.
pub fn append_hex_num(out: &mut String, n: u64)
    ensures
        final(out)@ == old(out)@ + hex_num(n as nat),
    decreases n,
{
    if n >= 16 {
        append_hex_num(out, n / 16);
    }
    let d = (n % 16) as u8;
    let c = crate::random::hex_digit_exec(d);
    push_char(out, c);
    proof {
        if n >= 16 {
            assert(old(out)@ + hex_num(n as nat) =~= old(out)@ + hex_num((n / 16) as nat) + seq![hex_digit((n % 16) as nat)]);
        } else {
            assert(old(out)@ + hex_num(n as nat) =~= old(out)@.push(hex_digit(n as nat)));
        }
    }
}

/// The big-endian bytes of `n`.
pub fn u32_be_bytes(n: u32) -> (res: Vec<u8>)
    ensures
        res@ == be_bytes(n),
{
    let v = vec![(n / 16777216) as u8, ((n / 65536) % 256) as u8, ((n / 256) % 256) as u8, (n % 256) as u8];
    assert(v@ =~= be_bytes(n));
    v
}

} // verus!
