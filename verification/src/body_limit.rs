//! Request body size limits: size strings, per-route and per-content-type limits,
//! and a reader that refuses to grow past its limit.
use vstd::prelude::*;
use vstd::string::*;
use crate::http::{JsonValue, MiddlewareAction, MiddlewareError, Request};
use crate::pathmatch::{path_matches_skip, skip_match};
use crate::strmap::StrMap;
use crate::text::{
    all_digits, append_u64, ascii_lower_char, chars_of, contains, contains_sub, dec,
    digit_val, digits_val, first_index_of, find_char, owned, parse_uint, parse_uint_range,
    push_char, str_trim, to_lowercase, trim, trim_bounds, unicode_lowercase, all_ascii, ascii_lower,
    ascii_upper, ascii_upper_char, is_ws, trim_start, trim_end, is_digit, lemma_dec_digits,
};

verus! {

// ---------------------------------------------------------------------------
// Size parsing
// ---------------------------------------------------------------------------

pub open spec fn pow10(n: nat) -> nat
    decreases n,
{
    if n == 0 { 1 } else { 10 * pow10((n - 1) as nat) }
}

pub open spec fn kib() -> nat { 1024 }
pub open spec fn mib() -> nat { 1048576 }
pub open spec fn gib() -> nat { 1073741824 }

/// The unit suffix of a lowercased size string: how many characters it takes and
/// the multiplier it stands for (`gb`, `mb`, `kb`, `b`, `g`, `m`, `k`, tried in that order).
pub open spec fn size_unit(s: Seq<char>) -> Option<(nat, nat)> {
    let n = s.len();
    if n >= 2 && s[n - 2] == 'g' && s[n - 1] == 'b' {
        Some((2nat, gib()))
    } else if n >= 2 && s[n - 2] == 'm' && s[n - 1] == 'b' {
        Some((2nat, mib()))
    } else if n >= 2 && s[n - 2] == 'k' && s[n - 1] == 'b' {
        Some((2nat, kib()))
    } else if n >= 1 && s[n - 1] == 'b' {
        Some((1nat, 1nat))
    } else if n >= 1 && s[n - 1] == 'g' {
        Some((1nat, gib()))
    } else if n >= 1 && s[n - 1] == 'm' {
        Some((1nat, mib()))
    } else if n >= 1 && s[n - 1] == 'k' {
        Some((1nat, kib()))
    } else {
        None
    }
}

/// The longest digit string the decimal path accepts.
pub open spec fn max_decimal_digits() -> nat { 27 }

/// The sign of a decimal literal and what follows it.
pub open spec fn sign_split(s: Seq<char>) -> (bool, Seq<char>) {
    if s.len() > 0 && (s[0] == '+' || s[0] == '-') {
        (s[0] == '-', s.drop_first())
    } else {
        (false, s)
    }
}

/// `r` spells the given lowercase ASCII word, ignoring ASCII case.
pub open spec fn is_word_ci(r: Seq<char>, w: Seq<char>) -> bool {
    r.len() == w.len() && forall|i: int| 0 <= i < r.len() ==> #[trigger] ascii_lower_char(r[i]) == w[i]
}

/// A decimal literal `digits[.digits]`/`.digits` split at its point: the digits
/// before, the digits after, and whether it has the shape of a number.
pub open spec fn decimal_parts(r: Seq<char>) -> (Seq<char>, Seq<char>, bool) {
    match first_index_of(r, '.') {
        Some(p) => {
            let ip = r.subrange(0, p);
            let fp = r.subrange(p + 1, r.len() as int);
            (ip, fp, all_digits(ip) && all_digits(fp) && ip.len() + fp.len() >= 1)
        },
        None => (r, Seq::empty(), all_digits(r) && r.len() >= 1),
    }
}

/// Where the exponent of a decimal literal starts: its first `e`, else its
/// first `E`. (A literal with both is refused whichever is taken.)
pub open spec fn exp_index(r: Seq<char>) -> Option<int> {
    match first_index_of(r, 'e') {
        Some(p) => Some(p),
        None => first_index_of(r, 'E'),
    }
}

/// A decimal literal split into its mantissa, its exponent (0 when there is
/// none) and whether the exponent has the shape `[+-]digits`.
pub open spec fn exp_parts(r: Seq<char>) -> (Seq<char>, int, bool) {
    match exp_index(r) {
        Some(q) => {
            let (eneg, ed) = sign_split(r.subrange(q + 1, r.len() as int));
            let e = digits_val(ed) as int;
            (r.subrange(0, q), if eneg { -e } else { e }, all_digits(ed) && ed.len() >= 1)
        },
        None => (r, 0, true),
    }
}

/// `floor(d * m * 10^k)`.
pub open spec fn scaled(d: nat, m: nat, k: int) -> nat {
    if k >= 0 {
        d * m * pow10(k as nat)
    } else {
        d * m / pow10((-k) as nat)
    }
}

/// The truncated, saturated value `(x * m) as usize` of the decimal literal `s`,
/// for `inf`/`infinity`/`nan` (any case, with optional sign) and for decimal
/// numbers with an optional exponent whose mantissa has at most
/// `max_decimal_digits()` digits; `None` for anything else.
pub open spec fn decimal_scaled(s: Seq<char>, m: nat) -> Option<nat> {
    let (neg, r) = sign_split(s);
    if is_word_ci(r, seq!['i', 'n', 'f']) || is_word_ci(r, seq!['i', 'n', 'f', 'i', 'n', 'i', 't', 'y']) {
        Some(if neg { 0 } else { usize::MAX as nat })
    } else if is_word_ci(r, seq!['n', 'a', 'n']) {
        Some(0)
    } else {
        let (mant, e, eok) = exp_parts(r);
        let (ip, fp, ok) = decimal_parts(mant);
        if ok && eok && ip.len() + fp.len() <= max_decimal_digits() {
            if neg {
                Some(0)
            } else {
                let v = scaled(digits_val(ip + fp), m, e - fp.len());
                Some(if v > usize::MAX { usize::MAX as nat } else { v })
            }
        } else {
            None
        }
    }
}

/// Lowercasing as `str::to_lowercase` does it: on ASCII text, `A`-`Z` to
/// `a`-`z`; otherwise the Unicode mapping.
pub open spec fn size_lower(s: Seq<char>) -> Seq<char> {
    if all_ascii(s) { ascii_lower(s) } else { unicode_lowercase(s) }
}

/// What a size string such as `"10mb"` or `"512"` denotes in bytes: the string is
/// trimmed and lowercased; a plain unsigned integer is a byte count; otherwise a
/// unit suffix scales the (trimmed) decimal number before it.
pub open spec fn spec_parse_size(input: Seq<char>) -> Option<nat> {
    let s = size_lower(trim(input));
    if s.len() == 0 {
        None
    } else if parse_uint(s, usize::MAX as nat) is Some {
        parse_uint(s, usize::MAX as nat)
    } else {
        match size_unit(s) {
            Some((k, m)) => decimal_scaled(trim(s.subrange(0, s.len() - k)), m),
            None => None,
        }
    }
}

// ---------------------------------------------------------------------------
// Laws of size parsing
// ---------------------------------------------------------------------------

/// Text without whitespace is its own trim.
proof fn lemma_trim_no_ws(s: Seq<char>)
    requires
        forall|i: int| 0 <= i < s.len() ==> !is_ws(#[trigger] s[i]),
    ensures
        trim(s) == s,
{
}

/// Decimal digits are ASCII, their own lowercase, and not whitespace.
proof fn lemma_dec_plain(n: nat)
    ensures
        all_ascii(dec(n)),
        ascii_lower(dec(n)) == dec(n),
        forall|i: int| 0 <= i < dec(n).len() ==> !is_ws(#[trigger] dec(n)[i]) && is_digit(dec(n)[i]),
        dec(n).len() >= 1,
{
    lemma_dec_digits(n);
    assert forall|i: int| 0 <= i < dec(n).len() implies (#[trigger] dec(n)[i] as u32) < 128 by {
        assert(is_digit(dec(n)[i]));
    }
    assert(ascii_lower(dec(n)) =~= dec(n));
}

/// A number below `10^k` has at most `k` digits.
proof fn lemma_dec_len(n: nat, k: nat)
    requires
        k >= 1,
        n < pow10(k),
    ensures
        dec(n).len() <= k,
    decreases n,
{
    if n >= 10 {
        assert(k >= 2) by {
            if k == 1 {
                reveal_with_fuel(pow10, 2);
                assert(pow10(1) == 10);
            }
        }
        assert(pow10(k) == 10 * pow10((k - 1) as nat));
        assert(n / 10 < pow10((k - 1) as nat));
        lemma_dec_len(n / 10, (k - 1) as nat);
    }
}

/// A size given as a plain number of bytes reads as that number.
pub proof fn lemma_parse_size_plain(n: nat)
    requires
        n <= usize::MAX,
    ensures
        spec_parse_size(dec(n)) == Some(n),
{
    lemma_dec_plain(n);
    lemma_trim_no_ws(dec(n));
    crate::text::lemma_parse_dec(n, usize::MAX as nat);
}

/// `n` followed by `kb` or by `K` is `n` kibibytes (for sizes that a double
/// holds exactly).
pub proof fn lemma_parse_size_kb(n: nat)
    requires
        n * 1024 <= 9007199254740992,
        n * 1024 <= usize::MAX,
    ensures
        spec_parse_size(dec(n) + "kb"@) == Some(n * 1024),
        spec_parse_size(dec(n) + "K"@) == Some(n * 1024),
{
    reveal_strlit("kb");
    reveal_strlit("K");
    lemma_dec_plain(n);
    reveal_with_fuel(pow10, 15);
    assert(pow10(14) == 100000000000000);
    lemma_dec_len(n, 14);
    let d = dec(n);
    let a = d + "kb"@;
    let b = d + "K"@;
    assert forall|i: int| 0 <= i < a.len() implies !is_ws(#[trigger] a[i]) && (a[i] as u32) < 128 by {
        if i < d.len() {
            assert(a[i] == d[i]);
        }
    }
    assert forall|i: int| 0 <= i < b.len() implies !is_ws(#[trigger] b[i]) && (b[i] as u32) < 128 by {
        if i < d.len() {
            assert(b[i] == d[i]);
        }
    }
    lemma_trim_no_ws(a);
    lemma_trim_no_ws(b);
    assert(ascii_lower(a) =~= a) by {
        assert forall|i: int| 0 <= i < a.len() implies ascii_lower(a)[i] == a[i] by {
            if i < d.len() {
                assert(a[i] == d[i]);
                assert(is_digit(d[i]));
            }
        }
    }
    let lb = d + "k"@;
    reveal_strlit("k");
    assert(ascii_lower(b) =~= lb) by {
        assert forall|i: int| 0 <= i < b.len() implies ascii_lower(b)[i] == lb[i] by {
            if i < d.len() {
                assert(b[i] == d[i]);
                assert(lb[i] == d[i]);
                assert(is_digit(d[i]));
            } else {
                assert(b[i] == 'K');
                assert(lb[i] == 'k');
                assert(ascii_lower_char('K') == 'k');
            }
        }
    }
    // neither is a plain number
    assert(!is_digit(a[a.len() - 1]));
    assert(!is_digit(lb[lb.len() - 1]));
    assert(a.subrange(0, a.len() - 2) =~= d);
    assert(lb.subrange(0, lb.len() - 1) =~= d);
    lemma_trim_no_ws(d);
    crate::text::lemma_first_index_none_if(d, '.');
    assert(d + Seq::<char>::empty() =~= d);
    assert(!is_word_ci(d, seq!['i', 'n', 'f'])) by {
        if d.len() == 3 {
            assert(ascii_lower_char(d[0]) == d[0]);
        }
    }
    assert(!is_word_ci(d, seq!['i', 'n', 'f', 'i', 'n', 'i', 't', 'y'])) by {
        if d.len() == 8 {
            assert(ascii_lower_char(d[0]) == d[0]);
        }
    }
    assert(!is_word_ci(d, seq!['n', 'a', 'n'])) by {
        if d.len() == 3 {
            assert(ascii_lower_char(d[0]) == d[0]);
        }
    }
    assert(pow10(0) == 1);
    assert(is_digit(d[0]));
    assert(crate::text::all_digits(d));
    lemma_dec_digits(n);
    assert(crate::text::digits_val(d) == n);
    assert(sign_split(d) == (false, d));
    assert(decimal_parts(d) == (d, Seq::<char>::empty(), true));
    assert forall|i: int| 0 <= i < d.len() implies d[i] != 'e' && d[i] != 'E' by {
        assert(is_digit(d[i]));
    }
    crate::text::lemma_first_index_none_if(d, 'e');
    crate::text::lemma_first_index_none_if(d, 'E');
    assert(exp_parts(d) == (d, 0int, true));
    assert(scaled(n, kib(), 0) == n * 1024);
    assert(decimal_scaled(d, kib()) == Some(n * 1024));
    assert(all_ascii(a));
    assert(all_ascii(b));
    assert(size_lower(trim(a)) == a);
    assert(size_lower(trim(b)) == lb);
    assert(a[a.len() - 2] == 'k' && a[a.len() - 1] == 'b');
    assert(lb[lb.len() - 1] == 'k');
    assert(size_unit(a) == Some((2nat, kib())));
    assert(size_unit(lb) == Some((1nat, kib())));
    assert(!crate::text::all_digits(a));
    assert(!crate::text::all_digits(lb));
    assert(a[0] == d[0] && lb[0] == d[0]);
    assert(parse_uint(a, usize::MAX as nat) is None);
    assert(parse_uint(lb, usize::MAX as nat) is None);
}

/// Text that is all whitespace.
pub open spec fn all_ws(w: Seq<char>) -> bool {
    forall|i: int| 0 <= i < w.len() ==> is_ws(#[trigger] w[i])
}

proof fn lemma_trim_start_all_ws(w: Seq<char>)
    requires
        all_ws(w),
    ensures
        trim_start(w) == Seq::<char>::empty(),
    decreases w.len(),
{
    if w.len() > 0 {
        assert(all_ws(w.drop_first())) by {
            assert forall|i: int| 0 <= i < w.drop_first().len() implies is_ws(#[trigger] w.drop_first()[i]) by {
                assert(w.drop_first()[i] == w[i + 1]);
            }
        }
        lemma_trim_start_all_ws(w.drop_first());
    } else {
        assert(w =~= Seq::<char>::empty());
    }
}

proof fn lemma_trim_start_append_ws(x: Seq<char>, w: Seq<char>)
    requires
        all_ws(w),
    ensures
        trim_start(x).len() > 0 ==> trim_start(x + w) == trim_start(x) + w,
        trim_start(x).len() == 0 ==> trim_start(x + w).len() == 0,
    decreases x.len(),
{
    if x.len() == 0 {
        assert(x + w =~= w);
        lemma_trim_start_all_ws(w);
    } else {
        assert((x + w)[0] == x[0]);
        if is_ws(x[0]) {
            assert((x + w).drop_first() =~= x.drop_first() + w);
            lemma_trim_start_append_ws(x.drop_first(), w);
        }
    }
}

proof fn lemma_trim_end_append_ws(u: Seq<char>, w: Seq<char>)
    requires
        all_ws(w),
    ensures
        trim_end(u + w) == trim_end(u),
    decreases w.len(),
{
    if w.len() == 0 {
        assert(u + w =~= u);
    } else {
        assert((u + w).last() == w.last());
        assert((u + w).drop_last() =~= u + w.drop_last());
        assert(all_ws(w.drop_last())) by {
            assert forall|i: int| 0 <= i < w.drop_last().len() implies is_ws(#[trigger] w.drop_last()[i]) by {
                assert(w.drop_last()[i] == w[i]);
            }
        }
        lemma_trim_end_append_ws(u, w.drop_last());
    }
}

/// Spaces around a text do not change its trim.
proof fn lemma_trim_padded(x: Seq<char>)
    ensures
        trim(" "@ + x + " "@) == trim(x),
{
    reveal_strlit(" ");
    let sp = " "@;
    assert(all_ws(sp));
    let p = sp + x + sp;
    assert(p[0] == ' ');
    assert(p.drop_first() =~= x + sp);
    lemma_trim_start_append_ws(x, sp);
    if trim_start(x).len() > 0 {
        lemma_trim_end_append_ws(trim_start(x), sp);
    } else {
        assert(trim_start(x + sp) =~= trim_start(x));
    }
}

/// ASCII case mapping keeps whitespace and non-whitespace apart.
proof fn lemma_upper_ws(c: char)
    requires
        (c as u32) < 128,
    ensures
        is_ws(ascii_upper_char(c)) == is_ws(c),
        (ascii_upper_char(c) as u32) < 128,
        ascii_lower_char(ascii_upper_char(c)) == ascii_lower_char(c),
{
    if 'a' <= c && c <= 'z' {
        let v = (c as u32) - 32;
        assert(65 <= v <= 90);
        assert((v as u8) as u32 == v);
        assert(((v as u8) as char) as u32 == v);
    }
}

proof fn lemma_trim_start_upper(s: Seq<char>)
    requires
        all_ascii(s),
    ensures
        trim_start(ascii_upper(s)) == ascii_upper(trim_start(s)),
        all_ascii(trim_start(s)),
    decreases s.len(),
{
    if s.len() > 0 {
        assert((s[0] as u32) < 128);
        lemma_upper_ws(s[0]);
        assert(ascii_upper(s)[0] == ascii_upper_char(s[0]));
        assert(all_ascii(s.drop_first())) by {
            assert forall|i: int| 0 <= i < s.drop_first().len() implies (#[trigger] s.drop_first()[i] as u32) < 128 by {
                assert(s.drop_first()[i] == s[i + 1]);
            }
        }
        assert(ascii_upper(s).drop_first() =~= ascii_upper(s.drop_first()));
        lemma_trim_start_upper(s.drop_first());
    }
}

proof fn lemma_trim_end_upper(s: Seq<char>)
    requires
        all_ascii(s),
    ensures
        trim_end(ascii_upper(s)) == ascii_upper(trim_end(s)),
        all_ascii(trim_end(s)),
    decreases s.len(),
{
    if s.len() > 0 {
        assert((s.last() as u32) < 128);
        lemma_upper_ws(s.last());
        assert(ascii_upper(s).last() == ascii_upper_char(s.last()));
        assert(all_ascii(s.drop_last())) by {
            assert forall|i: int| 0 <= i < s.drop_last().len() implies (#[trigger] s.drop_last()[i] as u32) < 128 by {
                assert(s.drop_last()[i] == s[i]);
            }
        }
        assert(ascii_upper(s).drop_last() =~= ascii_upper(s.drop_last()));
        lemma_trim_end_upper(s.drop_last());
    }
}

/// A size reads the same whatever its ASCII case and with spaces around it.
pub proof fn lemma_parse_size_case_space(s: Seq<char>)
    requires
        all_ascii(s),
    ensures
        spec_parse_size(" "@ + ascii_upper(s) + " "@) == spec_parse_size(s),
{
    let u = ascii_upper(s);
    lemma_trim_padded(u);
    lemma_trim_start_upper(s);
    lemma_trim_end_upper(trim_start(s));
    let t = trim(s);
    assert(trim(u) == ascii_upper(t));
    assert(all_ascii(t));
    assert(all_ascii(ascii_upper(t))) by {
        assert forall|i: int| 0 <= i < ascii_upper(t).len() implies (#[trigger] ascii_upper(t)[i] as u32) < 128 by {
            lemma_upper_ws(t[i]);
        }
    }
    assert(ascii_lower(ascii_upper(t)) =~= ascii_lower(t)) by {
        assert forall|i: int| 0 <= i < t.len() implies ascii_lower(ascii_upper(t))[i] == ascii_lower(t)[i] by {
            lemma_upper_ws(t[i]);
        }
    }
    assert(size_lower(trim(" "@ + u + " "@)) == size_lower(t));
}

/// Empty and blank sizes, and sizes with an unknown unit, read as nothing.
pub proof fn lemma_parse_size_refused()
    ensures
        spec_parse_size(""@) is None,
        spec_parse_size("  "@) is None,
        spec_parse_size("12xb"@) is None,
{
    reveal_strlit("");
    reveal_strlit("  ");
    reveal_strlit("12xb");
    assert(trim(""@) =~= Seq::<char>::empty());
    let sp = "  "@;
    assert(sp[0] == ' ' && is_ws(' '));
    assert(sp.drop_first()[0] == ' ');
    assert(sp.drop_first().drop_first() =~= Seq::<char>::empty());
    assert(trim_start(sp.drop_first()) == trim_start(sp.drop_first().drop_first()));
    assert(trim_start(sp) =~= Seq::<char>::empty());
    assert(trim(sp) =~= Seq::<char>::empty());
    let t = "12xb"@;
    lemma_trim_no_ws(t);
    assert(ascii_lower(t) =~= t);
    assert(t.subrange(0, 3) =~= seq!['1', '2', 'x']);
    let r = seq!['1', '2', 'x'];
    lemma_trim_no_ws(r);
    crate::text::lemma_first_index_none_if(r, '.');
    crate::text::lemma_first_index_none_if(r, 'e');
    crate::text::lemma_first_index_none_if(r, 'E');
    assert(exp_parts(r) == (r, 0int, true));
    assert(!crate::text::all_digits(r)) by {
        assert(!is_digit(r[2]));
    }
}

proof fn lemma_digits_val_bound(s: Seq<char>)
    requires
        all_digits(s),
    ensures
        digits_val(s) < pow10(s.len()),
    decreases s.len(),
{
    if s.len() > 0 {
        let t = s.drop_last();
        assert(all_digits(t)) by {
            assert forall|i: int| 0 <= i < t.len() implies crate::text::is_digit(#[trigger] t[i]) by {
                assert(t[i] == s[i]);
            }
        }
        lemma_digits_val_bound(t);
        assert(crate::text::is_digit(s[s.len() - 1]));
        let dv = digit_val(s.last());
        assert(dv <= 9);
        assert(digits_val(t) * 10 + dv < pow10(t.len()) * 10) by (nonlinear_arith)
            requires digits_val(t) < pow10(t.len()), dv <= 9;
    }
}

proof fn lemma_pow10_27()
    ensures
        pow10(27) == 1000000000000000000000000000,
{
    reveal_with_fuel(pow10, 28);
}

proof fn lemma_pow10_bound(n: nat)
    ensures
        pow10(n) >= 1,
        n <= 27 ==> pow10(n) <= pow10(27),
    decreases n,
{
    if n > 0 {
        lemma_pow10_bound((n - 1) as nat);
    }
    if n <= 27 {
        lemma_pow10_mono(n, 27);
    }
}

proof fn lemma_pow10_mono(a: nat, b: nat)
    requires
        a <= b,
    ensures
        pow10(a) <= pow10(b),
    decreases b,
{
    if a < b {
        lemma_pow10_mono(a, (b - 1) as nat);
        lemma_pow10_pos((b - 1) as nat);
    }
}

proof fn lemma_pow10_pos(n: nat)
    ensures
        pow10(n) >= 1,
    decreases n,
{
    if n > 0 {
        lemma_pow10_pos((n - 1) as nat);
    }
}

/// The value of the ASCII digit string `v` as a `u128` (at most 27 digits).
fn digits_u128(v: &Vec<char>) -> (res: u128)
    requires
        all_digits(v@),
        v@.len() <= 27,
    ensures
        res == digits_val(v@),
{
    let mut acc: u128 = 0;
    let mut i: usize = 0;
    proof {
        lemma_pow10_27();
    }
    while i < v.len()
        invariant
            i <= v@.len() <= 27,
            all_digits(v@),
            acc == digits_val(v@.subrange(0, i as int)),
            pow10(27) == 1000000000000000000000000000,
        decreases v.len() - i,
    {
        let c = v[i];
        assert(crate::text::is_digit(v@[i as int]));
        let d = (c as u32 - '0' as u32) as u128;
        proof {
            let p = v@.subrange(0, i as int);
            assert(all_digits(p)) by {
                assert forall|j: int| 0 <= j < p.len() implies crate::text::is_digit(#[trigger] p[j]) by {
                    assert(p[j] == v@[j]);
                }
            }
            lemma_digits_val_bound(p);
            lemma_pow10_bound(p.len());
            assert(v@.subrange(0, i + 1).drop_last() =~= p);
            assert(acc * 10 + d < pow10(27) * 10) by (nonlinear_arith)
                requires acc < pow10(27), d <= 9;
        }
        acc = acc * 10 + d;
        i = i + 1;
    }
    assert(v@.subrange(0, v@.len() as int) =~= v@);
    acc
}

proof fn lemma_pow10_20_38()
    ensures
        pow10(20) == 100000000000000000000,
        pow10(37) == 10000000000000000000000000000000000000,
        pow10(38) == 100000000000000000000000000000000000000,
{
    reveal_with_fuel(pow10, 39);
}

/// `10^n` as a `u128`.
fn pow10_u128(n: usize) -> (res: u128)
    requires
        n <= 38,
    ensures
        res == pow10(n as nat),
{
    let mut r: u128 = 1;
    let mut i: usize = 0;
    while i < n
        invariant
            i <= n <= 38,
            r == pow10(i as nat),
        decreases n - i,
    {
        proof {
            lemma_pow10_pos(i as nat);
            lemma_pow10_20_38();
            lemma_pow10_mono((i + 1) as nat, 38);
        }
        r = r * 10;
        i = i + 1;
    }
    r
}

fn is_word_ci_exec(r: &Vec<char>, w: &Vec<char>) -> (res: bool)
    ensures
        res == is_word_ci(r@, w@),
{
    if r.len() != w.len() {
        return false;
    }
    let mut i: usize = 0;
    while i < r.len()
        invariant
            r@.len() == w@.len(),
            i <= r@.len(),
            forall|j: int| 0 <= j < i ==> #[trigger] ascii_lower_char(r@[j]) == w@[j],
        decreases r.len() - i,
    {
        let c = r[i];
        let lc = if 'A' <= c && c <= 'Z' { (((c as u32) + 32) as u8) as char } else { c };
        assert(ascii_lower_char(r@[i as int]) == lc);
        if lc != w[i] {
            return false;
        }
        i = i + 1;
    }
    true
}

fn sub_vec(v: &Vec<char>, from: usize, to: usize) -> (res: Vec<char>)
    requires
        from <= to <= v@.len(),
    ensures
        res@ == v@.subrange(from as int, to as int),
{
    let mut out: Vec<char> = Vec::new();
    let mut k = from;
    while k < to
        invariant
            from <= k <= to <= v@.len(),
            out@ == v@.subrange(from as int, k as int),
        decreases to - k,
    {
        out.push(v[k]);
        k = k + 1;
        assert(out@ =~= v@.subrange(from as int, k as int));
    }
    out
}

fn check_all_digits(v: &Vec<char>) -> (res: bool)
    ensures
        res == all_digits(v@),
{
    let mut i: usize = 0;
    while i < v.len()
        invariant
            i <= v@.len(),
            forall|j: int| 0 <= j < i ==> crate::text::is_digit(#[trigger] v@[j]),
        decreases v.len() - i,
    {
        if !('0' <= v[i] && v[i] <= '9') {
            assert(!crate::text::is_digit(v@[i as int]));
            return false;
        }
        i = i + 1;
    }
    true
}

/// `(x * m) as usize` for the decimal literal `s` (see `decimal_scaled`).
fn parse_decimal_scaled(s: &Vec<char>, m: u64) -> (res: Option<usize>)
    requires
        1 <= m <= 1073741824,
    ensures
        res matches Some(n) ==> decimal_scaled(s@, m as nat) == Some(n as nat),
        res is None ==> decimal_scaled(s@, m as nat) is None,
{
    let mut neg = false;
    let mut start: usize = 0;
    if s.len() > 0 && (s[0] == '+' || s[0] == '-') {
        neg = s[0] == '-';
        start = 1;
    }
    let r = sub_vec(s, start, s.len());
    proof {
        if start == 1 {
            assert(r@ =~= s@.drop_first());
        } else {
            assert(r@ =~= s@);
        }
        assert(sign_split(s@) == (neg, r@));
    }
    let inf: Vec<char> = vec!['i', 'n', 'f'];
    let infinity: Vec<char> = vec!['i', 'n', 'f', 'i', 'n', 'i', 't', 'y'];
    let nan: Vec<char> = vec!['n', 'a', 'n'];
    assert(inf@ =~= seq!['i', 'n', 'f']);
    assert(infinity@ =~= seq!['i', 'n', 'f', 'i', 'n', 'i', 't', 'y']);
    assert(nan@ =~= seq!['n', 'a', 'n']);
    if is_word_ci_exec(&r, &inf) || is_word_ci_exec(&r, &infinity) {
        return Some(if neg { 0 } else { usize::MAX });
    }
    if is_word_ci_exec(&r, &nan) {
        return Some(0);
    }
    let (mant, eneg, ecap) = match split_exponent(&r) {
        Some(t) => t,
        None => {
            return None;
        },
    };
    let ghost e = exp_parts(r@).1;
    let (all, flen) = match mantissa_digits(&mant) {
        Some(t) => t,
        None => {
            return None;
        },
    };
    if neg {
        return Some(0);
    }
    proof {
        lemma_digits_val_bound(all@);
        lemma_pow10_bound(all@.len());
        lemma_pow10_27();
    }
    let n = digits_u128(&all);
    let ghost d = digits_val(all@);
    let ghost k = e - flen;
    let kk: i64 = if eneg { 0i64 - (ecap as i64) } else { ecap as i64 } - (flen as i64);
    assert(-38 <= kk < 20 ==> k == kk);
    assert(kk >= 20 ==> k >= 20);
    assert(kk < -38 ==> k < -38);
    let v = scale_saturated(n, m, kk, Ghost(k));
    assert(decimal_scaled(s@, m as nat) == Some(
        if scaled(d, m as nat, k) > usize::MAX { usize::MAX as nat } else { scaled(d, m as nat, k) },
    ));
    Some(v)
}

/// `floor(n * m * 10^k)` saturated to `usize`, where `kk` is `k` when that lies
/// in `-38..20` and lies on the same side of that range otherwise.
fn scale_saturated(n: u128, m: u64, kk: i64, Ghost(k): Ghost<int>) -> (res: usize)
    requires
        n < 1000000000000000000000000000u128,
        1 <= m <= 1073741824,
        -38 <= kk < 20 ==> k == kk,
        kk >= 20 ==> k >= 20,
        kk < -38 ==> k < -38,
    ensures
        res == (if scaled(n as nat, m as nat, k) > usize::MAX { usize::MAX as nat } else { scaled(n as nat, m as nat, k) }),
{
    let ghost d = n as nat;
    proof {
        lemma_pow10_20_38();
        if k < 0 {
            lemma_pow10_pos((-k) as nat);
        } else {
            lemma_pow10_pos(k as nat);
        }
    }
    if n == 0 {
        assert(scaled(d, m as nat, k) == 0) by (nonlinear_arith)
            requires d == 0, k < 0 ==> pow10((-k) as nat) >= 1,
        {
        }
        return 0;
    }
    proof {
        assert(n * (m as u128) < 10000000000000000000000000000000000000u128) by (nonlinear_arith)
            requires n < 1000000000000000000000000000u128, m <= 1073741824;
    }
    let nm: u128 = n * (m as u128);
    if kk >= 20 {
        proof {
            lemma_pow10_mono(20, k as nat);
            assert(d * m * pow10(k as nat) >= pow10(k as nat)) by (nonlinear_arith)
                requires d >= 1, m >= 1;
        }
        return usize::MAX;
    }
    if kk < -38 {
        proof {
            lemma_pow10_mono(38, (-k) as nat);
            vstd::arithmetic::div_mod::lemma_basic_div(d * m as int, pow10((-k) as nat) as int);
        }
        return 0;
    }
    if kk >= 0 {
        if nm > usize::MAX as u128 {
            proof {
                assert(d * m * pow10(k as nat) >= d * m) by (nonlinear_arith)
                    requires pow10(k as nat) >= 1;
            }
            return usize::MAX;
        }
        let p = pow10_u128(kk as usize);
        proof {
            lemma_pow10_mono(k as nat, 19);
            assert(pow10(19) == 10000000000000000000) by {
                reveal_with_fuel(pow10, 20);
            }
            assert(nm * p <= 18446744073709551615u128 * 10000000000000000000u128) by (nonlinear_arith)
                requires nm <= 18446744073709551615u128, p <= 10000000000000000000u128;
        }
        let v = nm * p;
        if v > usize::MAX as u128 {
            usize::MAX
        } else {
            v as usize
        }
    } else {
        let p = pow10_u128((0i64 - kk) as usize);
        let v = nm / p;
        if v > usize::MAX as u128 {
            usize::MAX
        } else {
            v as usize
        }
    }
}

/// The digits of the mantissa `mant` with its point taken out, and how many of
/// them follow the point; `None` when `mant` is no decimal number or has more
/// than `max_decimal_digits()` digits.
fn mantissa_digits(mant: &Vec<char>) -> (res: Option<(Vec<char>, usize)>)
    ensures
        res is None <==> !(decimal_parts(mant@).2
            && decimal_parts(mant@).0.len() + decimal_parts(mant@).1.len() <= max_decimal_digits()),
        res matches Some((all, flen)) ==> {
            &&& all@ == decimal_parts(mant@).0 + decimal_parts(mant@).1
            &&& flen == decimal_parts(mant@).1.len()
            &&& all_digits(all@)
            &&& all@.len() <= 27
        },
{
    let n = mant.len();
    let (ip, fp) = match find_char(mant, '.') {
        Some(p) => {
            assert(p < n);
            (sub_vec(mant, 0, p), sub_vec(mant, p + 1, n))
        },
        None => (sub_vec(mant, 0, n), Vec::new()),
    };
    proof {
        if first_index_of(mant@, '.') is None {
            assert(mant@.subrange(0, mant@.len() as int) =~= mant@);
            assert(fp@ =~= Seq::<char>::empty());
        }
        assert(decimal_parts(mant@).0 == ip@);
        assert(decimal_parts(mant@).1 == fp@);
    }
    if !check_all_digits(&ip) || !check_all_digits(&fp) {
        return None;
    }
    if ip.len() + fp.len() < 1 || ip.len() + fp.len() > 27 {
        return None;
    }
    let mut all = ip;
    let mut fp2 = fp;
    let ghost ipv = all@;
    let ghost fpv = fp2@;
    let flen = fp2.len();
    all.append(&mut fp2);
    assert(all@ == ipv + fpv);
    assert(all_digits(all@)) by {
        assert forall|j: int| 0 <= j < all@.len() implies crate::text::is_digit(#[trigger] all@[j]) by {
            if j < ipv.len() {
                assert(all@[j] == ipv[j]);
            } else {
                assert(all@[j] == fpv[j - ipv.len()]);
            }
        }
    }
    Some((all, flen))
}

/// The mantissa of the decimal literal `r`, the sign of its exponent and the
/// exponent's magnitude capped at 1000; `None` when the exponent is malformed.
fn split_exponent(r: &Vec<char>) -> (res: Option<(Vec<char>, bool, u64)>)
    ensures
        res is None <==> !exp_parts(r@).2,
        res matches Some((mant, eneg, ecap)) ==> {
            &&& mant@ == exp_parts(r@).0
            &&& ecap <= 1000
            &&& ecap < 1000 ==> exp_parts(r@).1 == if eneg { -(ecap as int) } else { ecap as int }
            &&& ecap == 1000 ==> if eneg { exp_parts(r@).1 <= -1000 } else { exp_parts(r@).1 >= 1000 }
        },
{
    match exp_split(r) {
        Some(q) => {
            let n = r.len();
            assert(q < n);
            let ex = sub_vec(r, q + 1, n);
            let mut eneg = false;
            let mut es: usize = 0;
            if ex.len() > 0 && (ex[0] == '+' || ex[0] == '-') {
                eneg = ex[0] == '-';
                es = 1;
            }
            let ed = sub_vec(&ex, es, ex.len());
            proof {
                if es == 1 {
                    assert(ed@ =~= ex@.drop_first());
                } else {
                    assert(ed@ =~= ex@);
                }
                assert(sign_split(ex@) == (eneg, ed@));
            }
            if ed.len() == 0 || !check_all_digits(&ed) {
                return None;
            }
            let ecap = digits_capped(&ed);
            Some((sub_vec(r, 0, q), eneg, ecap))
        },
        None => {
            assert(r@.subrange(0, r@.len() as int) =~= r@);
            Some((sub_vec(r, 0, r.len()), false, 0u64))
        },
    }
}

/// Where the exponent of `r` starts (see `exp_index`).
fn exp_split(r: &Vec<char>) -> (res: Option<usize>)
    ensures
        res matches Some(q) ==> exp_index(r@) == Some(q as int) && q < r@.len(),
        res is None ==> exp_index(r@) is None,
{
    match find_char(r, 'e') {
        Some(q) => Some(q),
        None => find_char(r, 'E'),
    }
}

/// The value of the ASCII digit string `v`, or 1000 when it is 1000 or more.
fn digits_capped(v: &Vec<char>) -> (res: u64)
    requires
        all_digits(v@),
    ensures
        res <= 1000,
        res < 1000 ==> res == digits_val(v@),
        res == 1000 ==> digits_val(v@) >= 1000,
{
    let mut acc: u64 = 0;
    let mut i: usize = 0;
    while i < v.len()
        invariant
            i <= v@.len(),
            all_digits(v@),
            acc <= 1000,
            acc < 1000 ==> acc == digits_val(v@.subrange(0, i as int)),
            acc == 1000 ==> digits_val(v@.subrange(0, i as int)) >= 1000,
        decreases v.len() - i,
    {
        assert(crate::text::is_digit(v@[i as int]));
        let d = (v[i] as u32 - '0' as u32) as u64;
        assert(v@.subrange(0, i + 1).drop_last() =~= v@.subrange(0, i as int));
        let next = acc * 10 + d;
        acc = if next >= 1000 { 1000 } else { next };
        i = i + 1;
    }
    assert(v@.subrange(0, v@.len() as int) =~= v@);
    acc
}

/// Parse size string to bytes (e.g., "10mb", "1gb", "512kb").
pub fn parse_size(s: &str) -> (res: Option<usize>)
    ensures
        res matches Some(n) ==> spec_parse_size(s@) == Some(n as nat),
        res is None ==> spec_parse_size(s@) is None,
{
    let t = str_trim(s);
    let low = to_lowercase(t.as_str());
    let v = chars_of(low.as_str());
    let n = v.len();
    if n == 0 {
        return None;
    }
    assert(v@.subrange(0, n as int) =~= v@);
    match parse_uint_range(&v, 0, n, usize::MAX as u64) {
        Some(x) => {
            return Some(x as usize);
        },
        None => {},
    }
    let (k, m): (usize, u64) = if n >= 2 && v[n - 2] == 'g' && v[n - 1] == 'b' {
        (2, 1073741824)
    } else if n >= 2 && v[n - 2] == 'm' && v[n - 1] == 'b' {
        (2, 1048576)
    } else if n >= 2 && v[n - 2] == 'k' && v[n - 1] == 'b' {
        (2, 1024)
    } else if v[n - 1] == 'b' {
        (1, 1)
    } else if v[n - 1] == 'g' {
        (1, 1073741824)
    } else if v[n - 1] == 'm' {
        (1, 1048576)
    } else if v[n - 1] == 'k' {
        (1, 1024)
    } else {
        return None;
    };
    assert(size_unit(v@) == Some((k as nat, m as nat)));
    let numv = sub_vec(&v, 0, n - k);
    let (a, b) = trim_bounds(&numv);
    let num = sub_vec(&numv, a, b);
    parse_decimal_scaled(&num, m)
}

/// Format bytes as human-readable string: whole bytes below 1 KiB, otherwise the
/// size in the largest of KB/MB/GB with one decimal, rounded to nearest.
pub open spec fn spec_format_size(bytes: nat) -> Seq<char> {
    if bytes >= gib() {
        one_decimal(bytes, gib()) + seq!['G', 'B']
    } else if bytes >= mib() {
        one_decimal(bytes, mib()) + seq!['M', 'B']
    } else if bytes >= kib() {
        one_decimal(bytes, kib()) + seq!['K', 'B']
    } else {
        dec(bytes) + seq!['B']
    }
}

/// `bytes / unit` printed with one decimal place, rounding half to even on the
/// exact quotient (what `{:.1}` does with the quotient of two doubles whose ratio is
/// exact to well past the first decimal).
pub open spec fn one_decimal(bytes: nat, unit: nat) -> Seq<char> {
    let tenths = tenths_rounded(bytes, unit);
    dec(tenths / 10) + seq!['.'] + dec(tenths % 10)
}

/// `bytes * 10 / unit` rounded to nearest, ties to even.
pub open spec fn tenths_rounded(bytes: nat, unit: nat) -> nat {
    let q = bytes * 10 / unit;
    let r = bytes * 10 % unit;
    if r * 2 > unit || (r * 2 == unit && q % 2 == 1) { q + 1 } else { q }
}

/// Format bytes as human-readable string.
pub fn format_size(bytes: usize) -> (res: String)
    ensures
        res@ == spec_format_size(bytes as nat),
{
    let b = bytes as u128;
    if b >= 1073741824 {
        let mut s = one_decimal_exec(b, 1073741824);
        push_char(&mut s, 'G');
        push_char(&mut s, 'B');
        assert(s@ =~= spec_format_size(bytes as nat));
        s
    } else if b >= 1048576 {
        let mut s = one_decimal_exec(b, 1048576);
        push_char(&mut s, 'M');
        push_char(&mut s, 'B');
        assert(s@ =~= spec_format_size(bytes as nat));
        s
    } else if b >= 1024 {
        let mut s = one_decimal_exec(b, 1024);
        push_char(&mut s, 'K');
        push_char(&mut s, 'B');
        assert(s@ =~= spec_format_size(bytes as nat));
        s
    } else {
        let mut s = String::new();
        append_u64(&mut s, bytes as u64);
        push_char(&mut s, 'B');
        assert(s@ =~= spec_format_size(bytes as nat));
        s
    }
}

fn one_decimal_exec(bytes: u128, unit: u128) -> (res: String)
    requires
        bytes <= u64::MAX,
        1 <= unit <= 1073741824,
        bytes >= unit,
    ensures
        res@ == one_decimal(bytes as nat, unit as nat),
{
    let q = bytes * 10 / unit;
    let r = bytes * 10 % unit;
    let t = if r * 2 > unit || (r * 2 == unit && q % 2 == 1) { q + 1 } else { q };
    assert(t == tenths_rounded(bytes as nat, unit as nat));
    proof {
        let bb = bytes as int;
        let uu = unit as int;
        assert(bb * 10 / uu <= bb * 10) by (nonlinear_arith)
            requires uu >= 1, bb >= 0;
    }
    let mut s = String::new();
    append_u64(&mut s, (t / 10) as u64);
    push_char(&mut s, '.');
    append_u64(&mut s, (t % 10) as u64);
    assert(s@ =~= one_decimal(bytes as nat, unit as nat));
    s
}

// ---------------------------------------------------------------------------
// Configuration
// ---------------------------------------------------------------------------

/// Body limit configuration.
#[derive(Clone)]
pub struct BodyLimitConfig {
    /// Default maximum body size
    pub default_limit: usize,
    /// Limits by route pattern
    pub route_limits: StrMap<usize>,
    /// Limits by Content-Type
    pub content_type_limits: StrMap<usize>,
    /// Limit for JSON requests
    pub json_limit: Option<usize>,
    /// Limit for form data
    pub form_limit: Option<usize>,
    /// Limit for multipart uploads
    pub multipart_limit: Option<usize>,
    /// Custom error message
    pub error_message: Option<String>,
}

/// The default limit: 10 MiB.
pub open spec fn default_body_limit() -> nat { 10485760 }

/// The limit of the first route entry whose pattern covers `path`.
pub open spec fn first_route_limit(s: Seq<(String, usize)>, path: Seq<char>) -> Option<usize>
    decreases s.len(),
{
    if s.len() == 0 {
        None
    } else if skip_match(path, s[0].0@) {
        Some(s[0].1)
    } else {
        first_route_limit(s.drop_first(), path)
    }
}

/// The limit of the first content-type entry whose key occurs in `ct`.
pub open spec fn first_ct_limit(s: Seq<(String, usize)>, ct: Seq<char>) -> Option<usize>
    decreases s.len(),
{
    if s.len() == 0 {
        None
    } else if contains_sub(ct, s[0].0@) {
        Some(s[0].1)
    } else {
        first_ct_limit(s.drop_first(), ct)
    }
}

impl BodyLimitConfig {
    pub open spec fn wf(&self) -> bool {
        self.route_limits.wf() && self.content_type_limits.wf()
    }

    /// The limit for a request to `path` whose Content-Type is `ct`: a covering route
    /// first, then the JSON, form and multipart limits for content types that
    /// mention them, then the custom content-type limits, then the default.
    pub open spec fn spec_limit(&self, path: Seq<char>, ct: Option<Seq<char>>) -> usize {
        match first_route_limit(self.route_limits.seq(), path) {
            Some(l) => l,
            None => match ct {
                None => self.default_limit,
                Some(c) => {
                    let low = unicode_lowercase(c);
                    if contains_sub(low, "application/json"@) && self.json_limit is Some {
                        self.json_limit->0
                    } else if contains_sub(low, "application/x-www-form-urlencoded"@)
                        && self.form_limit is Some {
                        self.form_limit->0
                    } else if contains_sub(low, "multipart/form-data"@) && self.multipart_limit is Some {
                        self.multipart_limit->0
                    } else {
                        match first_ct_limit(self.content_type_limits.seq(), low) {
                            Some(l) => l,
                            None => self.default_limit,
                        }
                    }
                },
            },
        }
    }

    /// Create new body limit config with default limit.
    pub fn new(default_limit: &str) -> (res: Self)
        ensures
            res.wf(),
            res.default_limit as nat == (match spec_parse_size(default_limit@) {
                Some(n) => n,
                None => default_body_limit(),
            }),
            res.route_limits.seq().len() == 0,
            res.content_type_limits.seq().len() == 0,
            res.json_limit is None,
            res.form_limit is None,
            res.multipart_limit is None,
            res.error_message is None,
    {
        let limit = match parse_size(default_limit) {
            Some(n) => n,
            None => 10485760,
        };
        BodyLimitConfig {
            default_limit: limit,
            route_limits: StrMap::new(),
            content_type_limits: StrMap::new(),
            json_limit: None,
            form_limit: None,
            multipart_limit: None,
            error_message: None,
        }
    }

    /// Set default limit from size string; an unparsable size leaves it unchanged.
    pub fn set_default(self, size: &str) -> (res: Self)
        ensures
            res.default_limit as nat == (match spec_parse_size(size@) {
                Some(n) => n,
                None => self.default_limit as nat,
            }),
            res.route_limits == self.route_limits,
            res.content_type_limits == self.content_type_limits,
            res.json_limit == self.json_limit,
            res.form_limit == self.form_limit,
            res.multipart_limit == self.multipart_limit,
            res.error_message == self.error_message,
    {
        let mut c = self;
        match parse_size(size) {
            Some(b) => {
                c.default_limit = b;
            },
            None => {},
        }
        c
    }

    /// Set limit for specific route; an unparsable size leaves the config unchanged.
    pub fn route(self, path: &str, size: &str) -> (res: Self)
        requires
            self.wf(),
        ensures
            res.wf(),
            spec_parse_size(size@) matches Some(n) ==> res.route_limits.to_map()
                == self.route_limits.to_map().insert(path@, n as usize),
            spec_parse_size(size@) is None ==> res.route_limits == self.route_limits,
            res.default_limit == self.default_limit,
            res.content_type_limits == self.content_type_limits,
            res.json_limit == self.json_limit,
            res.form_limit == self.form_limit,
            res.multipart_limit == self.multipart_limit,
            res.error_message == self.error_message,
    {
        let mut c = self;
        match parse_size(size) {
            Some(b) => {
                c.route_limits.insert(owned(path), b);
            },
            None => {},
        }
        c
    }

    /// Set limit for specific Content-Type; an unparsable size leaves the config unchanged.
    pub fn content_type(self, content_type: &str, size: &str) -> (res: Self)
        requires
            self.wf(),
        ensures
            res.wf(),
            spec_parse_size(size@) matches Some(n) ==> res.content_type_limits.to_map()
                == self.content_type_limits.to_map().insert(content_type@, n as usize),
            spec_parse_size(size@) is None ==> res.content_type_limits == self.content_type_limits,
            res.default_limit == self.default_limit,
            res.route_limits == self.route_limits,
            res.json_limit == self.json_limit,
            res.form_limit == self.form_limit,
            res.multipart_limit == self.multipart_limit,
            res.error_message == self.error_message,
    {
        let mut c = self;
        match parse_size(size) {
            Some(b) => {
                c.content_type_limits.insert(owned(content_type), b);
            },
            None => {},
        }
        c
    }

    /// Set limit for JSON requests (`None` when the size does not parse).
    pub fn json(self, size: &str) -> (res: Self)
        ensures
            res.json_limit == spec_option_usize(spec_parse_size(size@)),
            res == (BodyLimitConfig { json_limit: res.json_limit, ..self }),
    {
        let mut c = self;
        c.json_limit = parse_size(size);
        c
    }

    /// Set limit for form data (`None` when the size does not parse).
    pub fn form(self, size: &str) -> (res: Self)
        ensures
            res.form_limit == spec_option_usize(spec_parse_size(size@)),
            res == (BodyLimitConfig { form_limit: res.form_limit, ..self }),
    {
        let mut c = self;
        c.form_limit = parse_size(size);
        c
    }

    /// Set limit for multipart uploads (`None` when the size does not parse).
    pub fn multipart(self, size: &str) -> (res: Self)
        ensures
            res.multipart_limit == spec_option_usize(spec_parse_size(size@)),
            res == (BodyLimitConfig { multipart_limit: res.multipart_limit, ..self }),
    {
        let mut c = self;
        c.multipart_limit = parse_size(size);
        c
    }

    /// Set custom error message.
    pub fn error_message(self, message: &str) -> (res: Self)
        ensures
            (res.error_message matches Some(m) && m@ == message@),
            res == (BodyLimitConfig { error_message: res.error_message, ..self }),
    {
        let mut c = self;
        c.error_message = Some(owned(message));
        c
    }

    /// Get limit for a request.
    pub fn get_limit(&self, path: &str, content_type: Option<&str>) -> (res: usize)
        ensures
            res == self.spec_limit(path@, match content_type {
                Some(c) => Some(c@),
                None => None,
            }),
    {
        match route_limit(&self.route_limits.entries, path) {
            Some(l) => {
                return l;
            },
            None => {},
        }
        match content_type {
            None => self.default_limit,
            Some(ct) => {
                let low_s = to_lowercase(ct);
                let low = chars_of(low_s.as_str());
                let json = chars_of("application/json");
                let form = chars_of("application/x-www-form-urlencoded");
                let multi = chars_of("multipart/form-data");
                if contains(&low, &json) && self.json_limit.is_some() {
                    return self.json_limit.unwrap();
                }
                if contains(&low, &form) && self.form_limit.is_some() {
                    return self.form_limit.unwrap();
                }
                if contains(&low, &multi) && self.multipart_limit.is_some() {
                    return self.multipart_limit.unwrap();
                }
                match ct_limit(&self.content_type_limits.entries, &low) {
                    Some(l) => l,
                    None => self.default_limit,
                }
            },
        }
    }
}

/// With no pattern covering `path`, no route limit is found.
proof fn lemma_no_route_limit(s: Seq<(String, usize)>, path: Seq<char>)
    requires
        forall|i: int| 0 <= i < s.len() ==> !skip_match(path, #[trigger] s[i].0@),
    ensures
        first_route_limit(s, path) is None,
    decreases s.len(),
{
    if s.len() > 0 {
        assert(!skip_match(path, s[0].0@));
        assert forall|i: int| 0 <= i < s.drop_first().len() implies !skip_match(path, #[trigger] s.drop_first()[i].0@) by {
            assert(s.drop_first()[i] == s[i + 1]);
        }
        lemma_no_route_limit(s.drop_first(), path);
    }
}

/// The first pattern covering `path` gives the route limit.
proof fn lemma_first_route_limit(s: Seq<(String, usize)>, path: Seq<char>, k: int)
    requires
        0 <= k < s.len(),
        skip_match(path, s[k].0@),
        forall|i: int| 0 <= i < k ==> !skip_match(path, #[trigger] s[i].0@),
    ensures
        first_route_limit(s, path) == Some(s[k].1),
    decreases s.len(),
{
    if k > 0 {
        assert(!skip_match(path, s[0].0@));
        assert(s.drop_first()[k - 1] == s[k]);
        assert forall|i: int| 0 <= i < k - 1 implies !skip_match(path, #[trigger] s.drop_first()[i].0@) by {
            assert(s.drop_first()[i] == s[i + 1]);
        }
        lemma_first_route_limit(s.drop_first(), path, k - 1);
    }
}

/// With no key occurring in `ct`, no content-type limit is found.
proof fn lemma_no_ct_limit(s: Seq<(String, usize)>, ct: Seq<char>)
    requires
        forall|i: int| 0 <= i < s.len() ==> !contains_sub(ct, #[trigger] s[i].0@),
    ensures
        first_ct_limit(s, ct) is None,
    decreases s.len(),
{
    if s.len() > 0 {
        assert(!contains_sub(ct, s[0].0@));
        assert forall|i: int| 0 <= i < s.drop_first().len() implies !contains_sub(ct, #[trigger] s.drop_first()[i].0@) by {
            assert(s.drop_first()[i] == s[i + 1]);
        }
        lemma_no_ct_limit(s.drop_first(), ct);
    }
}

/// The first key occurring in `ct` gives the content-type limit.
proof fn lemma_first_ct_limit(s: Seq<(String, usize)>, ct: Seq<char>, k: int)
    requires
        0 <= k < s.len(),
        contains_sub(ct, s[k].0@),
        forall|i: int| 0 <= i < k ==> !contains_sub(ct, #[trigger] s[i].0@),
    ensures
        first_ct_limit(s, ct) == Some(s[k].1),
    decreases s.len(),
{
    if k > 0 {
        assert(!contains_sub(ct, s[0].0@));
        assert(s.drop_first()[k - 1] == s[k]);
        assert forall|i: int| 0 <= i < k - 1 implies !contains_sub(ct, #[trigger] s.drop_first()[i].0@) by {
            assert(s.drop_first()[i] == s[i + 1]);
        }
        lemma_first_ct_limit(s.drop_first(), ct, k - 1);
    }
}

/// Without a covering route and without a JSON, form or multipart limit that
/// applies, a request is held to the limit of the first custom content type
/// that its lowercased Content-Type mentions, and to the default limit when it
/// mentions none.
pub proof fn lemma_custom_type_limit(c: BodyLimitConfig, path: Seq<char>, ct: Seq<char>)
    requires
        forall|i: int| 0 <= i < c.route_limits.seq().len() ==> !skip_match(path, #[trigger] c.route_limits.seq()[i].0@),
        !(contains_sub(unicode_lowercase(ct), "application/json"@) && c.json_limit is Some),
        !(contains_sub(unicode_lowercase(ct), "application/x-www-form-urlencoded"@) && c.form_limit is Some),
        !(contains_sub(unicode_lowercase(ct), "multipart/form-data"@) && c.multipart_limit is Some),
    ensures
        forall|k: int| 0 <= k < c.content_type_limits.seq().len()
            && contains_sub(unicode_lowercase(ct), c.content_type_limits.seq()[k].0@)
            && (forall|i: int| 0 <= i < k ==> !contains_sub(unicode_lowercase(ct), #[trigger] c.content_type_limits.seq()[i].0@))
            ==> c.spec_limit(path, Some(ct)) == #[trigger] c.content_type_limits.seq()[k].1,
        (forall|i: int| 0 <= i < c.content_type_limits.seq().len()
            ==> !contains_sub(unicode_lowercase(ct), #[trigger] c.content_type_limits.seq()[i].0@))
            ==> c.spec_limit(path, Some(ct)) == c.default_limit,
{
    let low = unicode_lowercase(ct);
    let s = c.content_type_limits.seq();
    lemma_no_route_limit(c.route_limits.seq(), path);
    assert forall|k: int| 0 <= k < s.len() && contains_sub(low, s[k].0@)
        && (forall|i: int| 0 <= i < k ==> !contains_sub(low, #[trigger] s[i].0@))
        implies c.spec_limit(path, Some(ct)) == #[trigger] s[k].1 by {
        lemma_first_ct_limit(s, low, k);
    }
    if forall|i: int| 0 <= i < s.len() ==> !contains_sub(low, #[trigger] s[i].0@) {
        lemma_no_ct_limit(s, low);
    }
}

/// Which limit a request is held to. A route limit whose pattern covers the
/// path comes first (the first such route, in the order the routes were
/// added). Without one: a request without Content-Type gets the default; one
/// whose lowercased Content-Type mentions JSON gets the JSON limit when one is
/// set; otherwise one that mentions a URL-encoded form gets the form limit
/// when one is set; otherwise one that mentions multipart form data gets the
/// multipart limit when one is set.
pub proof fn lemma_limit_choice(c: BodyLimitConfig, path: Seq<char>, ct: Seq<char>)
    ensures
        forall|k: int| 0 <= k < c.route_limits.seq().len() && skip_match(path, c.route_limits.seq()[k].0@)
            && (forall|i: int| 0 <= i < k ==> !skip_match(path, #[trigger] c.route_limits.seq()[i].0@))
            ==> c.spec_limit(path, Some(ct)) == #[trigger] c.route_limits.seq()[k].1
                && c.spec_limit(path, None) == c.route_limits.seq()[k].1,
        (forall|i: int| 0 <= i < c.route_limits.seq().len() ==> !skip_match(path, #[trigger] c.route_limits.seq()[i].0@))
            ==> {
                let low = unicode_lowercase(ct);
                let json = contains_sub(low, "application/json"@) && c.json_limit is Some;
                let form = contains_sub(low, "application/x-www-form-urlencoded"@) && c.form_limit is Some;
                let multi = contains_sub(low, "multipart/form-data"@) && c.multipart_limit is Some;
                &&& c.spec_limit(path, None) == c.default_limit
                &&& json ==> c.spec_limit(path, Some(ct)) == c.json_limit->0
                &&& !json && form ==> c.spec_limit(path, Some(ct)) == c.form_limit->0
                &&& !json && !form && multi ==> c.spec_limit(path, Some(ct)) == c.multipart_limit->0
            },
{
    let s = c.route_limits.seq();
    assert forall|k: int| 0 <= k < s.len() && skip_match(path, s[k].0@)
        && (forall|i: int| 0 <= i < k ==> !skip_match(path, #[trigger] s[i].0@))
        implies c.spec_limit(path, Some(ct)) == #[trigger] s[k].1 && c.spec_limit(path, None) == s[k].1 by {
        lemma_first_route_limit(s, path, k);
    }
    if forall|i: int| 0 <= i < s.len() ==> !skip_match(path, #[trigger] s[i].0@) {
        lemma_no_route_limit(s, path);
    }
}

pub open spec fn spec_option_usize(o: Option<nat>) -> Option<usize> {
    match o {
        Some(n) => Some(n as usize),
        None => None,
    }
}

fn route_limit(entries: &Vec<(String, usize)>, path: &str) -> (res: Option<usize>)
    ensures
        res == first_route_limit(entries@, path@),
{
    let mut i: usize = 0;
    assert(entries@.subrange(0, entries@.len() as int) =~= entries@);
    while i < entries.len()
        invariant
            i <= entries@.len(),
            first_route_limit(entries@, path@) == first_route_limit(entries@.subrange(i as int, entries@.len() as int), path@),
        decreases entries.len() - i,
    {
        let ghost rest = entries@.subrange(i as int, entries@.len() as int);
        assert(rest[0] == entries@[i as int]);
        assert(rest.drop_first() =~= entries@.subrange(i + 1, entries@.len() as int));
        if path_matches_skip(path, entries[i].0.as_str()) {
            return Some(entries[i].1);
        }
        i = i + 1;
    }
    assert(entries@.subrange(i as int, entries@.len() as int) =~= Seq::<(String, usize)>::empty());
    None
}

fn ct_limit(entries: &Vec<(String, usize)>, ct: &Vec<char>) -> (res: Option<usize>)
    ensures
        res == first_ct_limit(entries@, ct@),
{
    let mut i: usize = 0;
    assert(entries@.subrange(0, entries@.len() as int) =~= entries@);
    while i < entries.len()
        invariant
            i <= entries@.len(),
            first_ct_limit(entries@, ct@) == first_ct_limit(entries@.subrange(i as int, entries@.len() as int), ct@),
        decreases entries.len() - i,
    {
        let ghost rest = entries@.subrange(i as int, entries@.len() as int);
        assert(rest[0] == entries@[i as int]);
        assert(rest.drop_first() =~= entries@.subrange(i + 1, entries@.len() as int));
        let pat = chars_of(entries[i].0.as_str());
        if contains(ct, &pat) {
            return Some(entries[i].1);
        }
        i = i + 1;
    }
    assert(entries@.subrange(i as int, entries@.len() as int) =~= Seq::<(String, usize)>::empty());
    None
}

// ---------------------------------------------------------------------------
// Middleware
// ---------------------------------------------------------------------------

/// Body limit middleware.
pub struct BodyLimitMiddleware {
    pub config: BodyLimitConfig,
}

/// Outcome of checking a request against its body limit.
#[derive(Debug)]
pub enum BodyCheck {
    /// The request may proceed; the limit that applied, if the method carries a body.
    Allowed(Option<usize>),
    /// The request is refused with 413; the message to send.
    TooLarge(String),
}

impl BodyLimitMiddleware {
    pub open spec fn wf(&self) -> bool {
        self.config.wf()
    }

    /// Create new body limit middleware with default 10MB limit.
    pub fn new() -> (res: Self)
        ensures
            res.wf(),
            res.config.default_limit as nat == (match spec_parse_size("10mb"@) {
                Some(n) => n,
                None => default_body_limit(),
            }),
            res.config.route_limits.seq().len() == 0,
            res.config.content_type_limits.seq().len() == 0,
            res.config.json_limit is None,
            res.config.form_limit is None,
            res.config.multipart_limit is None,
            res.config.error_message is None,
    {
        BodyLimitMiddleware { config: BodyLimitConfig::new("10mb") }
    }

    /// Create with size string.
    pub fn with_limit(size: &str) -> (res: Self)
        ensures
            res.wf(),
            res.config.default_limit as nat == (match spec_parse_size(size@) {
                Some(n) => n,
                None => default_body_limit(),
            }),
            res.config.route_limits.seq().len() == 0,
            res.config.content_type_limits.seq().len() == 0,
            res.config.json_limit is None,
            res.config.form_limit is None,
            res.config.multipart_limit is None,
    {
        BodyLimitMiddleware { config: BodyLimitConfig::new(size) }
    }

    /// Create with config.
    pub fn with_config(config: BodyLimitConfig) -> (res: Self)
        ensures
            res.config == config,
    {
        BodyLimitMiddleware { config }
    }

    /// Set default limit.
    pub fn default_limit(self, size: &str) -> (res: Self)
        ensures
            res.config.default_limit as nat == (match spec_parse_size(size@) {
                Some(n) => n,
                None => self.config.default_limit as nat,
            }),
            res.config.route_limits == self.config.route_limits,
            res.config.content_type_limits == self.config.content_type_limits,
            res.config.json_limit == self.config.json_limit,
            res.config.form_limit == self.config.form_limit,
            res.config.multipart_limit == self.config.multipart_limit,
    {
        BodyLimitMiddleware { config: self.config.set_default(size) }
    }

    /// Set route-specific limit.
    pub fn route(self, path: &str, size: &str) -> (res: Self)
        requires
            self.wf(),
        ensures
            res.wf(),
            spec_parse_size(size@) matches Some(n) ==> res.config.route_limits.to_map()
                == self.config.route_limits.to_map().insert(path@, n as usize),
            spec_parse_size(size@) is None ==> res.config.route_limits == self.config.route_limits,
            res.config.default_limit == self.config.default_limit,
            res.config.json_limit == self.config.json_limit,
    {
        BodyLimitMiddleware { config: self.config.route(path, size) }
    }

    /// Set JSON limit.
    pub fn json(self, size: &str) -> (res: Self)
        ensures
            res.config.json_limit == spec_option_usize(spec_parse_size(size@)),
            res.config == (BodyLimitConfig { json_limit: res.config.json_limit, ..self.config }),
    {
        BodyLimitMiddleware { config: self.config.json(size) }
    }

    /// Set form limit.
    pub fn form(self, size: &str) -> (res: Self)
        ensures
            res.config.form_limit == spec_option_usize(spec_parse_size(size@)),
            res.config == (BodyLimitConfig { form_limit: res.config.form_limit, ..self.config }),
    {
        BodyLimitMiddleware { config: self.config.form(size) }
    }

    /// Set multipart limit.
    pub fn multipart(self, size: &str) -> (res: Self)
        ensures
            res.config.multipart_limit == spec_option_usize(spec_parse_size(size@)),
            res.config == (BodyLimitConfig { multipart_limit: res.config.multipart_limit, ..self.config }),
    {
        BodyLimitMiddleware { config: self.config.multipart(size) }
    }

    /// The message sent when a body exceeds `limit`.
    pub open spec fn spec_too_large_message(&self, limit: usize) -> Seq<char> {
        match self.config.error_message {
            Some(m) => m@,
            None => "Request body too large. Maximum allowed size is "@ + spec_format_size(limit as nat) + "."@,
        }
    }

    /// The decision taken before a request is handled: requests whose method carries
    /// no body (GET, HEAD, OPTIONS) pass; otherwise a parsable Content-Length or the
    /// body already read that exceeds the limit for the request is refused.
    pub open spec fn spec_check(&self, method: Seq<char>, path: Seq<char>, content_type: Option<Seq<char>>,
        content_length: Option<Seq<char>>, body_len: nat) -> BodyCheckModel {
        if method == "GET"@ || method == "HEAD"@ || method == "OPTIONS"@ {
            BodyCheckModel::Allowed(None)
        } else {
            let limit = self.config.spec_limit(path, content_type);
            let declared_too_large = match content_length {
                Some(cl) => match parse_uint(cl, usize::MAX as nat) {
                    Some(n) => n > limit,
                    None => false,
                },
                None => false,
            };
            if declared_too_large || body_len > limit {
                BodyCheckModel::TooLarge(self.spec_too_large_message(limit))
            } else {
                BodyCheckModel::Allowed(Some(limit))
            }
        }
    }

    /// Check a request, given its method, path, Content-Type and Content-Length
    /// headers and the length of the body read so far.
    pub fn check_request(&self, method: &str, path: &str, content_type: Option<&str>,
        content_length: Option<&str>, body_len: usize) -> (res: BodyCheck)
        ensures
            res.model() == self.spec_check(method@, path@, match content_type {
                Some(c) => Some(c@),
                None => None,
            }, match content_length {
                Some(c) => Some(c@),
                None => None,
            }, body_len as nat),
    {
        if crate::text::str_eq(method, "GET") || crate::text::str_eq(method, "HEAD")
            || crate::text::str_eq(method, "OPTIONS") {
            return BodyCheck::Allowed(None);
        }
        let limit = self.config.get_limit(path, content_type);
        let declared_too_large = match content_length {
            Some(cl) => match crate::text::parse_usize(cl) {
                Some(n) => n > limit,
                None => false,
            },
            None => false,
        };
        if declared_too_large || body_len > limit {
            BodyCheck::TooLarge(self.too_large_message(limit))
        } else {
            BodyCheck::Allowed(Some(limit))
        }
    }

    /// Before the handler: a request whose method carries no body goes on
    /// untouched; one whose declared or read body is over its limit is refused
    /// with the message (a 413); any other goes on with its limit in the
    /// context under `body_limit`.
    pub fn before(&self, request: &mut Request) -> (res: Result<MiddlewareAction, MiddlewareError>)
        requires
            old(request).wf(),
        ensures
            final(request).wf(),
            match self.spec_check(old(request).method@, old(request).path@, old(request).header("content-type"@),
                old(request).header("content-length"@), old(request).body@.len()) {
                BodyCheckModel::Allowed(None) => (res matches Ok(MiddlewareAction::Continue)) && *final(request) == *old(request),
                BodyCheckModel::TooLarge(m) => (res matches Err(e) && e.message@ == m && e.status == 413) && *final(request) == *old(request),
                BodyCheckModel::Allowed(Some(limit)) => {
                    &&& res matches Ok(MiddlewareAction::Continue)
                    &&& final(request).context.to_map() == old(request).context.to_map().insert("body_limit"@, final(request).context.to_map()["body_limit"@])
                    &&& (final(request).context_value("body_limit"@) matches Some(JsonValue::Number(t)) && t@ == dec(limit as nat))
                    &&& final(request).method == old(request).method
                    &&& final(request).path == old(request).path
                    &&& final(request).headers == old(request).headers
                    &&& final(request).body == old(request).body
                },
            },
    {
        let check = self.check_request(request.method.as_str(), request.path.as_str(), request.header_value("content-type"),
            request.header_value("content-length"), request.body.len());
        match check {
            BodyCheck::Allowed(None) => Ok(MiddlewareAction::Continue),
            BodyCheck::TooLarge(m) => Err(MiddlewareError { message: m, status: 413 }),
            BodyCheck::Allowed(Some(limit)) => {
                let text = crate::text::u64_to_string(limit as u64);
                let v = JsonValue::Number(text);
                let ghost gv = v;
                request.set_context_internal("body_limit", v);
                assert(request.context.to_map() =~= old(request).context.to_map().insert("body_limit"@, request.context.to_map()["body_limit"@]));
                assert(request.context_value("body_limit"@) == Some(gv));
                Ok(MiddlewareAction::Continue)
            },
        }
    }

    fn too_large_message(&self, limit: usize) -> (res: String)
        ensures
            res@ == self.spec_too_large_message(limit),
    {
        match &self.config.error_message {
            Some(m) => m.clone(),
            None => {
                let mut s = String::from_str("Request body too large. Maximum allowed size is ");
                let f = format_size(limit);
                s.append(f.as_str());
                s.append(".");
                s
            },
        }
    }
}

/// The mathematical content of a `BodyCheck`.
pub enum BodyCheckModel {
    Allowed(Option<usize>),
    TooLarge(Seq<char>),
}

impl BodyCheck {
    pub open spec fn model(&self) -> BodyCheckModel {
        match self {
            BodyCheck::Allowed(l) => BodyCheckModel::Allowed(*l),
            BodyCheck::TooLarge(m) => BodyCheckModel::TooLarge(m@),
        }
    }
}

// ---------------------------------------------------------------------------
// Limited body reader
// ---------------------------------------------------------------------------

/// A body reader that enforces size limits during streaming.
pub struct LimitedBodyReader {
    pub data: Vec<u8>,
    pub limit: usize,
    pub exceeded: bool,
}

/// Error when body limit is exceeded.
#[derive(Debug, Clone)]
pub struct LimitExceededError {
    pub limit: usize,
    pub attempted: usize,
}

impl LimitExceededError {
    /// "Body limit exceeded: attempted {attempted} bytes, limit is {limit} bytes"
    pub fn to_string(&self) -> (res: String)
        ensures
            res@ == "Body limit exceeded: attempted "@ + dec(self.attempted as nat) + " bytes, limit is "@
                + dec(self.limit as nat) + " bytes"@,
    {
        let mut s = String::from_str("Body limit exceeded: attempted ");
        append_u64(&mut s, self.attempted as u64);
        s.append(" bytes, limit is ");
        append_u64(&mut s, self.limit as u64);
        s.append(" bytes");
        s
    }
}

impl LimitedBodyReader {
    /// Create new limited body reader.
    pub fn new(limit: usize) -> (res: Self)
        ensures
            res.data@.len() == 0,
            res.limit == limit,
            !res.exceeded,
    {
        LimitedBodyReader { data: Vec::new(), limit, exceeded: false }
    }

    /// Write data, respecting the limit: the data is appended when the total stays
    /// within the limit; otherwise nothing is appended and the reader is marked exceeded.
    pub fn write(&mut self, data: &[u8]) -> (res: Result<usize, LimitExceededError>)
        requires
            old(self).data@.len() + data@.len() <= usize::MAX,
        ensures
            old(self).data@.len() + data@.len() <= old(self).limit ==> res == Ok::<usize, LimitExceededError>(data@.len() as usize)
                && final(self).data@ == old(self).data@ + data@ && final(self).exceeded == old(self).exceeded,
            old(self).data@.len() + data@.len() > old(self).limit ==> (res matches Err(e) && e.limit == old(self).limit
                && e.attempted == old(self).data@.len() + data@.len()) && final(self).data@ == old(self).data@
                && final(self).exceeded,
            final(self).limit == old(self).limit,
            old(self).data@.len() <= old(self).limit ==> final(self).data@.len() <= final(self).limit,
    {
        if data.len() > self.limit || self.data.len() > self.limit - data.len() {
            self.exceeded = true;
            return Err(LimitExceededError { limit: self.limit, attempted: self.data.len() + data.len() });
        }
        self.data.extend_from_slice(data);
        Ok(data.len())
    }

    /// Get the accumulated data.
    pub fn into_vec(self) -> (res: Vec<u8>)
        ensures
            res@ == self.data@,
    {
        self.data
    }

    /// Check if limit was exceeded.
    pub fn exceeded(&self) -> (res: bool)
        ensures
            res == self.exceeded,
    {
        self.exceeded
    }

    /// Get current size.
    pub fn len(&self) -> (res: usize)
        ensures
            res == self.data@.len(),
    {
        self.data.len()
    }

    /// Check if empty.
    pub fn is_empty(&self) -> (res: bool)
        ensures
            res == (self.data@.len() == 0),
    {
        self.data.len() == 0
    }

    /// Get remaining capacity.
    pub fn remaining(&self) -> (res: usize)
        ensures
            res == if self.data@.len() >= self.limit { 0 } else { self.limit - self.data@.len() },
    {
        self.limit.saturating_sub(self.data.len())
    }
}

} // verus!
