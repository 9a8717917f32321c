//! Randomness and encodings obtained from outside crates.
use vstd::prelude::*;

verus! {

/// `n` random bytes drawn with `rand::fill` from the thread-local generator (a
/// cryptographically secure generator seeded by the operating system).  Only the
/// length is promised: the bytes are chance.
#[verifier::external_body]
pub(crate) fn random_bytes(n: usize) -> (res: Vec<u8>)
    ensures
        res@.len() == n,
{
    let mut v = vec![0u8; n];
    rand::fill(&mut v[..]);
    v
}

/// The standard Base64 alphabet: `A`-`Z`, `a`-`z`, `0`-`9`, `+`, `/` for the
/// sextets 0 to 63.
pub open spec fn base64_char(v: int) -> char {
    if v < 26 {
        (65 + v) as char
    } else if v < 52 {
        (97 + v - 26) as char
    } else if v < 62 {
        (48 + v - 52) as char
    } else if v == 62 {
        '+'
    } else {
        '/'
    }
}

/// Standard-alphabet Base64 with `=` padding: each group of three bytes becomes
/// four characters, one per six bits; a last group of one or two bytes becomes
/// two or three characters padded with `=` to four.
pub open spec fn base64_standard(data: Seq<u8>) -> Seq<char>
    decreases data.len(),
{
    let b0 = data[0] as int;
    let b1 = data[1] as int;
    let b2 = data[2] as int;
    if data.len() == 0 {
        Seq::empty()
    } else if data.len() == 1 {
        seq![base64_char(b0 / 4), base64_char((b0 % 4) * 16), '=', '=']
    } else if data.len() == 2 {
        seq![base64_char(b0 / 4), base64_char((b0 % 4) * 16 + b1 / 16), base64_char((b1 % 16) * 4), '=']
    } else {
        seq![
            base64_char(b0 / 4),
            base64_char((b0 % 4) * 16 + b1 / 16),
            base64_char((b1 % 16) * 4 + b2 / 64),
            base64_char(b2 % 64),
        ] + base64_standard(data.skip(3))
    }
}

/// `STANDARD.encode(data)` from the `base64` crate, as `base64_standard`
/// states it.  The length computation inside the crate panics when it
/// overflows `usize`, which the bound on the input rules out.
#[verifier::external_body]
pub(crate) fn base64_encode(data: &[u8]) -> (res: String)
    requires
        data@.len() <= usize::MAX / 2,
    ensures
        res@ == base64_standard(data@),
{
    base64::Engine::encode(&base64::engine::general_purpose::STANDARD, data)
}

/// Bytes read as the characters of the same code.
pub open spec fn bytes_as_chars(data: Seq<u8>) -> Seq<char> {
    data.map_values(|b: u8| b as char)
}

/// What `STANDARD.decode` makes of `data`: the bytes whose padded Base64 is
/// exactly `data`, and `None` when there are none (the engine requires canonical
/// padding and refuses trailing bits, so it accepts nothing else).
pub open spec fn base64_standard_decode(data: Seq<u8>) -> Option<Seq<u8>> {
    if exists|b: Seq<u8>| base64_standard(b) == bytes_as_chars(data) {
        Some(choose|b: Seq<u8>| base64_standard(b) == bytes_as_chars(data))
    } else {
        None
    }
}

/// A sextet's character is never the padding character, and tells the sextet.
proof fn lemma_base64_char(x: int, y: int)
    requires
        0 <= x < 64,
        0 <= y < 64,
    ensures
        base64_char(x) != '=',
        base64_char(x) == base64_char(y) ==> x == y,
{
}

/// Three bytes are told by their four sextets.
proof fn lemma_sextets(a0: u8, a1: u8, a2: u8, c0: u8, c1: u8, c2: u8)
    requires
        a0 / 4 == c0 / 4,
        (a0 % 4) * 16 + a1 / 16 == (c0 % 4) * 16 + c1 / 16,
        (a1 % 16) * 4 + a2 / 64 == (c1 % 16) * 4 + c2 / 64,
        a2 % 64 == c2 % 64,
    ensures
        a0 == c0,
        a1 == c1,
        a2 == c2,
{
    assert(a0 == c0 && a1 == c1 && a2 == c2) by (bit_vector)
        requires
            a0 / 4 == c0 / 4,
            (a0 % 4) * 16 + a1 / 16 == (c0 % 4) * 16 + c1 / 16,
            (a1 % 16) * 4 + a2 / 64 == (c1 % 16) * 4 + c2 / 64,
            a2 % 64 == c2 % 64,
    ;
}

/// Different bytes have different Base64.
proof fn lemma_base64_injective(a: Seq<u8>, c: Seq<u8>)
    requires
        base64_standard(a) == base64_standard(c),
    ensures
        a == c,
    decreases a.len(),
{
    let ea = base64_standard(a);
    let ec = base64_standard(c);
    if a.len() == 0 || c.len() == 0 {
        assert(a.len() == 0 && c.len() == 0) by {
            if a.len() != 0 || c.len() != 0 {
                assert(ea.len() != ec.len());
            }
        }
        assert(a =~= c);
        return;
    }
    let (a0, a1, a2) = (a[0], if a.len() >= 2 { a[1] } else { 0u8 }, if a.len() >= 3 { a[2] } else { 0u8 });
    let (c0, c1, c2) = (c[0], if c.len() >= 2 { c[1] } else { 0u8 }, if c.len() >= 3 { c[2] } else { 0u8 });
    assert(ea[0] == ec[0] && ea[1] == ec[1] && ea[2] == ec[2] && ea[3] == ec[3]);
    lemma_base64_char((a0 / 4) as int, (c0 / 4) as int);
    lemma_base64_char((a0 % 4) * 16 + a1 / 16, (c0 % 4) * 16 + c1 / 16);
    lemma_base64_char((a1 % 16) * 4 + a2 / 64, (c1 % 16) * 4 + c2 / 64);
    lemma_base64_char((a2 % 64) as int, (c2 % 64) as int);
    assert(a.len() == 1 <==> c.len() == 1);
    assert(a.len() <= 2 <==> c.len() <= 2);
    lemma_sextets(a0, a1, a2, c0, c1, c2);
    if a.len() >= 3 {
        assert(ea.skip(4) =~= base64_standard(a.skip(3)));
        assert(ec.skip(4) =~= base64_standard(c.skip(3)));
        lemma_base64_injective(a.skip(3), c.skip(3));
        assert(a =~= seq![a0, a1, a2] + a.skip(3));
        assert(c =~= seq![c0, c1, c2] + c.skip(3));
    } else {
        assert(a =~= c);
    }
}

/// Decoding the Base64 of some bytes gives those bytes back.
pub proof fn lemma_base64_round_trip(data: Seq<u8>, b: Seq<u8>)
    requires
        bytes_as_chars(data) == base64_standard(b),
    ensures
        base64_standard_decode(data) == Some(b),
{
    let w = choose|x: Seq<u8>| base64_standard(x) == bytes_as_chars(data);
    lemma_base64_injective(w, b);
}

/// `STANDARD.decode(data)` from the `base64` crate, with the error mapped to
/// `None`, as `base64_standard_decode` states it.
#[verifier::external_body]
pub(crate) fn base64_decode(data: &[u8]) -> (res: Option<Vec<u8>>)
    ensures
        res matches Some(v) ==> base64_standard_decode(data@) == Some(v@),
        res is None ==> base64_standard_decode(data@) is None,
{
    match base64::Engine::decode(&base64::engine::general_purpose::STANDARD, data) {
        Ok(v) => Some(v),
        Err(_) => None,
    }
}

/// Lowercase hexadecimal digit for `d < 16`.
pub open spec fn hex_digit(d: nat) -> char {
    if d < 10 {
        crate::text::digit_char(d)
    } else if d == 10 { 'a' }
    else if d == 11 { 'b' }
    else if d == 12 { 'c' }
    else if d == 13 { 'd' }
    else if d == 14 { 'e' }
    else { 'f' }
}

/// Lowercase hexadecimal encoding, two digits per byte, high nibble first
/// (what `hex::encode` produces).
pub open spec fn hex_of(data: Seq<u8>) -> Seq<char>
    decreases data.len(),
{
    if data.len() == 0 {
        Seq::empty()
    } else {
        hex_of(data.drop_last()) + seq![hex_digit((data.last() / 16) as nat), hex_digit((data.last() % 16) as nat)]
    }
}

pub fn hex_digit_exec(d: u8) -> (c: char)
    requires
        d < 16,
    ensures
        c == hex_digit(d as nat),
{
    if d < 10 {
        crate::text::digit_char_exec(d as u64)
    } else if d == 10 { 'a' }
    else if d == 11 { 'b' }
    else if d == 12 { 'c' }
    else if d == 13 { 'd' }
    else if d == 14 { 'e' }
    else { 'f' }
}

pub proof fn lemma_hex_len(data: Seq<u8>)
    ensures
        hex_of(data).len() == 2 * data.len(),
    decreases data.len(),
{
    if data.len() > 0 {
        lemma_hex_len(data.drop_last());
    }
}

/// Lowercase hexadecimal encoding of `data` (`hex::encode`).
pub fn hex_encode(data: &[u8]) -> (res: String)
    ensures
        res@ == hex_of(data@),
{
    let mut s = String::new();
    let mut i: usize = 0;
    assert(data@.subrange(0, 0) =~= Seq::<u8>::empty());
    while i < data.len()
        invariant
            i <= data@.len(),
            s@ == hex_of(data@.subrange(0, i as int)),
        decreases data.len() - i,
    {
        let b = data[i];
        crate::text::push_char(&mut s, hex_digit_exec(b / 16));
        crate::text::push_char(&mut s, hex_digit_exec(b % 16));
        proof {
            let p = data@.subrange(0, i + 1);
            assert(p.drop_last() =~= data@.subrange(0, i as int));
            assert(p.last() == b);
        }
        i = i + 1;
    }
    assert(data@.subrange(0, data@.len() as int) =~= data@);
    s
}

} // verus!
