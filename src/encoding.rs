//! Text encodings used by the service: hexadecimal byte strings and decimal
//! integers.

use vstd::prelude::*;
use vstd::utf8::{decode_utf8, valid_utf8};

verus! {

/// Value of one hexadecimal digit, in either case.
pub open spec fn hex_digit_value(c: char) -> Option<u8> {
    if '0' <= c && c <= '9' {
        Some((c as u32 - '0' as u32) as u8)
    } else if 'a' <= c && c <= 'f' {
        Some((c as u32 - 'a' as u32 + 10) as u8)
    } else if 'A' <= c && c <= 'F' {
        Some((c as u32 - 'A' as u32 + 10) as u8)
    } else {
        None
    }
}

pub open spec fn is_hex_digit(c: char) -> bool {
    hex_digit_value(c) is Some
}

/// The bytes that a hexadecimal text denotes: `None` when its length is odd
/// or one of its characters is not a hex digit.
pub open spec fn hex_decoded(s: Seq<char>) -> Option<Seq<u8>> {
    if s.len() % 2 == 0 && forall|i: int| 0 <= i < s.len() ==> is_hex_digit(#[trigger] s[i]) {
        Some(
            Seq::new(
                s.len() / 2,
                |i: int|
                    (hex_digit_value(s[2 * i])->0 * 16 + hex_digit_value(s[2 * i + 1])->0) as u8,
            ),
        )
    } else {
        None
    }
}

pub open spec fn lower_hex_digits() -> Seq<char> {
    seq!['0', '1', '2', '3', '4', '5', '6', '7', '8', '9', 'a', 'b', 'c', 'd', 'e', 'f']
}

/// Lower-case hexadecimal text of a byte string: two digits per byte, high
/// nibble first.
pub open spec fn hex_lower(b: Seq<u8>) -> Seq<char> {
    Seq::new(
        2 * b.len(),
        |i: int|
            if i % 2 == 0 {
                lower_hex_digits()[b[i / 2] as int / 16]
            } else {
                lower_hex_digits()[b[i / 2] as int % 16]
            },
    )
}

/// Decoding the lower-case hex text of a byte string gives the bytes back.
pub proof fn lemma_hex_round_trip(b: Seq<u8>)
    ensures
        hex_decoded(hex_lower(b)) == Some(b),
{
    let s = hex_lower(b);
    assert forall|i: int| 0 <= i < s.len() implies is_hex_digit(#[trigger] s[i]) by {
        let n: int = if i % 2 == 0 { b[i / 2] as int / 16 } else { b[i / 2] as int % 16 };
        assert(0 <= n < 16);
        assert(s[i] == lower_hex_digits()[n]);
    }
    let d = hex_decoded(s)->0;
    assert forall|j: int| 0 <= j < b.len() implies d[j] == b[j] by {
        assert((2 * j) % 2 == 0);
        assert((2 * j + 1) % 2 == 1);
        assert((2 * j) / 2 == j);
        assert((2 * j + 1) / 2 == j);
        let hi = b[j] as int / 16;
        let lo = b[j] as int % 16;
        assert(hex_digit_value(lower_hex_digits()[hi])->0 == hi);
        assert(hex_digit_value(lower_hex_digits()[lo])->0 == lo);
    }
    assert(d =~= b);
}

#[verifier::external_type_specification]
#[verifier::external_body]
pub struct ExFromHexError(hex::FromHexError);

/// Relies on `hex::encode`: two lower-case hex digits per input byte, high
/// nibble first.
#[verifier::external_body]
pub(crate) fn hex_encode(bytes: &[u8]) -> (r: String)
    ensures
        r@ == hex_lower(bytes@),
{
    hex::encode(bytes)
}

/// Relies on `hex::decode`: digits of either case, in pairs; an odd length or
/// a byte outside `0-9a-fA-F` is an error.
#[verifier::external_body]
pub(crate) fn hex_decode(text: &str) -> (r: Result<Vec<u8>, hex::FromHexError>)
    ensures
        match hex_decoded(text@) {
            Some(b) => r is Ok && r->Ok_0@ == b,
            None => r is Err,
        },
{
    hex::decode(text)
}


pub open spec fn is_decimal_digit(c: char) -> bool {
    '0' <= c && c <= '9'
}

pub open spec fn all_decimal(s: Seq<char>) -> bool {
    forall|i: int| 0 <= i < s.len() ==> is_decimal_digit(#[trigger] s[i])
}

/// Value of a string of decimal digits, most significant first.
pub open spec fn digits_value(s: Seq<char>) -> nat
    decreases s.len(),
{
    if s.len() == 0 {
        0
    } else {
        (digits_value(s.drop_last()) * 10 + (s.last() as u32 - '0' as u32)) as nat
    }
}

/// The value of unsigned decimal text in the form that `str::parse` accepts:
/// an optional `+`, then one or more decimal digits.
pub open spec fn unsigned_text_value(s: Seq<char>) -> Option<nat> {
    let digits = if s.len() > 0 && s[0] == '+' {
        s.drop_first()
    } else {
        s
    };
    if digits.len() > 0 && all_decimal(digits) {
        Some(digits_value(digits))
    } else {
        None
    }
}

/// The value of signed decimal text in the form that `str::parse` accepts:
/// an optional `+` or `-`, then one or more decimal digits.
pub open spec fn signed_text_value(s: Seq<char>) -> Option<int> {
    if s.len() > 0 && s[0] == '-' {
        let digits = s.drop_first();
        if digits.len() > 0 && all_decimal(digits) {
            Some(-digits_value(digits))
        } else {
            None
        }
    } else {
        match unsigned_text_value(s) {
            Some(v) => Some(v as int),
            None => None,
        }
    }
}

/// Shortest decimal text of a natural number.
pub open spec fn decimal_text(n: nat) -> Seq<char>
    decreases n,
{
    if n < 10 {
        seq![((n + 48) as u8) as char]
    } else {
        decimal_text(n / 10).push((((n % 10) + 48) as u8) as char)
    }
}

/// The decimal text of `n` is a non-empty digit string denoting `n`.
pub proof fn lemma_decimal_text_value(n: nat)
    ensures
        decimal_text(n).len() > 0,
        all_decimal(decimal_text(n)),
        digits_value(decimal_text(n)) == n,
    decreases n,
{
    let s = decimal_text(n);
    let d = (n % 10) as int;
    let c = (((n % 10) + 48) as u8) as char;
    assert(c as u32 == d + 48);
    if n < 10 {
        assert(s =~= seq![c]);
        assert(s.drop_last() =~= Seq::<char>::empty());
        assert(digits_value(Seq::<char>::empty()) == 0);
        assert(digits_value(s) == (digits_value(s.drop_last()) * 10 + (s.last() as u32
            - '0' as u32)) as nat);
    } else {
        lemma_decimal_text_value(n / 10);
        assert(s.drop_last() =~= decimal_text(n / 10));
        assert(s.last() == c);
        assert(digits_value(s) == (digits_value(s.drop_last()) * 10 + (s.last() as u32
            - '0' as u32)) as nat);
        assert(n == (n / 10) * 10 + n % 10);
        assert forall|i: int| 0 <= i < s.len() implies is_decimal_digit(#[trigger] s[i]) by {
            if i < s.len() - 1 {
                assert(s[i] == decimal_text(n / 10)[i]);
            }
        }
    }
}

/// A prefix of a digit string never denotes more than the whole string.
pub proof fn lemma_digits_prefix_le(s: Seq<char>, k: int)
    requires
        all_decimal(s),
        0 <= k <= s.len(),
    ensures
        digits_value(s.subrange(0, k)) <= digits_value(s),
    decreases s.len(),
{
    if k < s.len() {
        let t = s.drop_last();
        lemma_digits_prefix_le(t, k);
        assert(t.subrange(0, k) =~= s.subrange(0, k));
    } else {
        assert(s.subrange(0, k) =~= s);
    }
}

/// A digit string plus one, written digit by digit with carry: trailing
/// nines become zeros and the digit before them goes up by one (a new `1` in
/// front when all were nines).
pub open spec fn incremented_digits(d: Seq<char>) -> Seq<char>
    decreases d.len(),
{
    if d.len() == 0 {
        seq!['1']
    } else if d.last() == '9' {
        incremented_digits(d.drop_last()).push('0')
    } else {
        d.drop_last().push((((d.last() as u32) + 1) as u8) as char)
    }
}

/// Incrementing a digit string gives a non-empty digit string one greater.
pub proof fn lemma_incremented_digits_value(d: Seq<char>)
    requires
        all_decimal(d),
    ensures
        incremented_digits(d).len() > 0,
        all_decimal(incremented_digits(d)),
        digits_value(incremented_digits(d)) == digits_value(d) + 1,
        d.len() == 0 || d[0] != '0' ==> incremented_digits(d)[0] != '0',
    decreases d.len(),
{
    let r = incremented_digits(d);
    if d.len() == 0 {
        assert(r.drop_last() =~= Seq::<char>::empty());
        assert(digits_value(r) == (digits_value(r.drop_last()) * 10 + (r.last() as u32
            - '0' as u32)) as nat);
    } else {
        let t = d.drop_last();
        assert(all_decimal(t)) by {
            assert forall|i: int| 0 <= i < t.len() implies is_decimal_digit(#[trigger] t[i]) by {
                assert(t[i] == d[i]);
            }
        }
        assert(d.last() == d[d.len() - 1]);
        if d.last() == '9' {
            lemma_incremented_digits_value(t);
            let u = incremented_digits(t);
            assert(r.drop_last() =~= u);
            assert(digits_value(r) == (digits_value(r.drop_last()) * 10 + (r.last() as u32
                - '0' as u32)) as nat);
            assert forall|i: int| 0 <= i < r.len() implies is_decimal_digit(#[trigger] r[i]) by {
                if i < u.len() {
                    assert(r[i] == u[i]);
                }
            }
            if d.len() > 1 && d[0] != '0' {
                assert(t[0] == d[0]);
            }
            if d.len() == 1 {
                assert(t.len() == 0);
            }
            assert(r[0] == u[0]);
        } else {
            assert(r.drop_last() =~= t);
            assert(digits_value(r) == (digits_value(r.drop_last()) * 10 + (r.last() as u32
                - '0' as u32)) as nat);
            assert forall|i: int| 0 <= i < r.len() implies is_decimal_digit(#[trigger] r[i]) by {
                if i < t.len() {
                    assert(r[i] == t[i]);
                }
            }
            if d.len() > 1 {
                assert(r[0] == d[0]);
            }
        }
    }
}

/// Incrementing a digit string that ends in `len - k` nines: the digits
/// before them incremented, then as many zeros.
pub proof fn lemma_incremented_trailing_nines(d: Seq<char>, k: int)
    requires
        0 <= k <= d.len(),
        forall|j: int| k <= j < d.len() ==> #[trigger] d[j] == '9',
    ensures
        incremented_digits(d) == incremented_digits(d.subrange(0, k)) + Seq::new(
            (d.len() - k) as nat,
            |i: int| '0',
        ),
    decreases d.len(),
{
    if d.len() == k {
        assert(d.subrange(0, k) =~= d);
        assert(incremented_digits(d) =~= incremented_digits(d) + Seq::new(0, |i: int| '0'));
    } else {
        let t = d.drop_last();
        assert(d.last() == '9');
        lemma_incremented_trailing_nines(t, k);
        assert(t.subrange(0, k) =~= d.subrange(0, k));
        assert(incremented_digits(d) =~= incremented_digits(d.subrange(0, k)) + Seq::new(
            (d.len() - k) as nat,
            |i: int| '0',
        ));
    }
}

/// Leading zeros do not change the value of a digit string.
pub proof fn lemma_leading_zeros_value(z: Seq<char>, r: Seq<char>)
    requires
        forall|i: int| 0 <= i < z.len() ==> #[trigger] z[i] == '0',
    ensures
        digits_value(z + r) == digits_value(r),
    decreases z.len() + r.len(),
{
    if r.len() == 0 {
        assert(z + r =~= z);
        if z.len() > 0 {
            lemma_leading_zeros_value(z.drop_last(), r);
            assert(z.drop_last() + r =~= z.drop_last());
            assert(z.last() == z[z.len() - 1]);
        }
    } else {
        lemma_leading_zeros_value(z, r.drop_last());
        assert((z + r).drop_last() =~= z + r.drop_last());
        assert((z + r).last() == r.last());
    }
}

/// A non-empty digit string that does not start with `0` is the shortest
/// decimal text of its value.
pub proof fn lemma_canonical_digits(d: Seq<char>)
    requires
        all_decimal(d),
        d.len() > 0,
        d[0] != '0',
    ensures
        decimal_text(digits_value(d)) == d,
    decreases d.len(),
{
    let v = digits_value(d);
    let c = d.last();
    assert(c == d[d.len() - 1]);
    let e = (c as u32 - '0' as u32) as nat;
    assert(e < 10);
    assert((((e % 10) + 48) as u8) as char == c) by {
        assert(e % 10 == e);
    }
    if d.len() == 1 {
        assert(d.drop_last() =~= Seq::<char>::empty());
        assert(v == e);
        assert(decimal_text(v) =~= d);
    } else {
        let t = d.drop_last();
        assert(all_decimal(t)) by {
            assert forall|i: int| 0 <= i < t.len() implies is_decimal_digit(#[trigger] t[i]) by {
                assert(t[i] == d[i]);
            }
        }
        assert(t[0] == d[0]);
        lemma_canonical_digits(t);
        let w = digits_value(t);
        lemma_digits_prefix_le(t, 1);
        let first = t.subrange(0, 1);
        assert(first.drop_last() =~= Seq::<char>::empty());
        assert(digits_value(first) == (digits_value(first.drop_last()) * 10 + (first.last() as u32
            - '0' as u32)) as nat);
        assert(w >= 1);
        assert(v == w * 10 + e);
        assert(v / 10 == w && v % 10 == e) by (nonlinear_arith)
            requires
                v == w * 10 + e,
                e < 10,
        ;
        assert(v >= 10);
        assert(decimal_text(v) == decimal_text(v / 10).push((((v % 10) + 48) as u8) as char));
        assert(decimal_text(v) =~= d);
    }
}

/// Appends `incremented_digits(s[start..])`, for a digit string of any length.
pub fn push_incremented_digits(out: &mut String, s: &str, start: usize)
    requires
        start <= s@.len(),
        all_decimal(s@.subrange(start as int, s@.len() as int)),
    ensures
        final(out)@ == old(out)@ + incremented_digits(s@.subrange(start as int, s@.len() as int)),
{
    let n = s.unicode_len();
    let ghost d = s@.subrange(start as int, n as int);
    let mut q: usize = n;
    while q > start && s.get_char(q - 1) == '9'
        invariant
            start <= q <= n,
            n == s@.len(),
            d == s@.subrange(start as int, n as int),
            forall|j: int| q <= j < n ==> #[trigger] s@[j] == '9',
        decreases q,
    {
        q = q - 1;
    }
    let ghost m = (q - start) as int;
    proof {
        assert forall|j: int| m <= j < d.len() implies #[trigger] d[j] == '9' by {
            assert(d[j] == s@[j + start]);
        }
        lemma_incremented_trailing_nines(d, m);
    }
    let ghost head = d.subrange(0, m);
    if q == start {
        push_char(out, '1');
        assert(head.len() == 0);
        assert(incremented_digits(head) =~= seq!['1']);
    } else {
        let c = s.get_char(q - 1);
        assert(head.last() == c);
        assert(is_decimal_digit(d[m - 1]));
        let prefix = s.substring_char(start, q - 1);
        let ghost before = out@;
        out.append(prefix);
        push_char(out, ((c as u8) + 1) as char);
        assert(head.drop_last() =~= prefix@);
        assert(out@ =~= before + incremented_digits(head));
    }
    let mut i: usize = q;
    while i < n
        invariant
            q <= i <= n,
            out@ == old(out)@ + incremented_digits(head) + Seq::new(
                (i - q) as nat,
                |j: int| '0',
            ),
        decreases n - i,
    {
        let ghost before = out@;
        push_char(out, '0');
        i = i + 1;
        assert(out@ =~= old(out)@ + incremented_digits(head) + Seq::new(
            (i - q) as nat,
            |j: int| '0',
        ));
    }
    assert(old(out)@ + incremented_digits(head) + Seq::new((n - q) as nat, |j: int| '0')
        =~= old(out)@ + incremented_digits(d));
}

/// Value of the decimal digits `s[start..]`, when there is at least one,
/// all are digits, and the value is at most `max`.
pub(crate) fn digits_at_most(s: &str, start: usize, max: u64) -> (r: Option<u64>)
    requires
        start <= s@.len(),
    ensures
        ({
            let d = s@.subrange(start as int, s@.len() as int);
            match r {
                Some(v) => d.len() > 0 && all_decimal(d) && v == digits_value(d) && v <= max,
                None => !(d.len() > 0 && all_decimal(d) && digits_value(d) <= max),
            }
        }),
{
    let n = s.unicode_len();
    if start >= n {
        return None;
    }
    let ghost whole = s@.subrange(start as int, n as int);
    let mut i: usize = start;
    let mut v: u64 = 0;
    while i < n
        invariant
            start <= i <= n,
            n == s@.len(),
            whole == s@.subrange(start as int, n as int),
            v <= max,
            all_decimal(s@.subrange(start as int, i as int)),
            v == digits_value(s@.subrange(start as int, i as int)),
        decreases n - i,
    {
        let c = s.get_char(i);
        let ghost seen = s@.subrange(start as int, i as int + 1);
        assert(seen.drop_last() =~= s@.subrange(start as int, i as int));
        assert(seen.last() == c);
        if c < '0' || c > '9' {
            assert(whole[i - start] == c);
            return None;
        }
        let d: u64 = (c as u32 - '0' as u32) as u64;
        if d > max || v > (max - d) / 10 {
            assert(v * 10 + d > max) by (nonlinear_arith)
                requires
                    d > max || v > (max - d) / 10,
                    d <= 9,
            ;
            proof {
                if all_decimal(whole) {
                    assert(seen =~= whole.subrange(0, i - start + 1));
                    lemma_digits_prefix_le(whole, i - start + 1);
                }
            }
            return None;
        }
        assert(v * 10 + d <= max) by (nonlinear_arith)
            requires
                v <= (max - d) / 10,
                d <= max,
        ;
        v = v * 10 + d;
        i = i + 1;
        assert(all_decimal(s@.subrange(start as int, i as int))) by {
            assert(s@.subrange(start as int, i as int) =~= seen);
        }
    }
    assert(whole =~= s@.subrange(start as int, i as int));
    Some(v)
}

/// Parses unsigned decimal text as `str::parse` does for an unsigned integer
/// type whose largest value is `max`.
pub fn parse_unsigned(s: &str, max: u64) -> (r: Option<u64>)
    ensures
        match unsigned_text_value(s@) {
            Some(v) => if v <= max {
                r == Some(v as u64)
            } else {
                r is None
            },
            None => r is None,
        },
{
    let n = s.unicode_len();
    let start: usize = if n > 0 && s.get_char(0) == '+' { 1 } else { 0 };
    proof {
        if start == 1 {
            assert(s@.drop_first() =~= s@.subrange(1, s@.len() as int));
        } else {
            assert(s@ =~= s@.subrange(0, s@.len() as int));
        }
    }
    digits_at_most(s, start, max)
}

/// Parses signed decimal text as `str::parse::<i64>` does.
pub fn parse_i64(s: &str) -> (r: Option<i64>)
    ensures
        match signed_text_value(s@) {
            Some(v) => if i64::MIN <= v <= i64::MAX {
                r == Some(v as i64)
            } else {
                r is None
            },
            None => r is None,
        },
{
    let n = s.unicode_len();
    if n > 0 && s.get_char(0) == '-' {
        assert(s@.drop_first() =~= s@.subrange(1, s@.len() as int));
        match digits_at_most(s, 1, 0x8000_0000_0000_0000u64) {
            Some(m) => {
                if m == 0x8000_0000_0000_0000u64 {
                    Some(i64::MIN)
                } else {
                    Some(-(m as i64))
                }
            },
            None => None,
        }
    } else {
        match parse_unsigned(s, 0x7fff_ffff_ffff_ffffu64) {
            Some(m) => Some(m as i64),
            None => None,
        }
    }
}

/// Relies on `String::push`: the character is appended at the end.
#[verifier::external_body]
pub(crate) fn push_char(s: &mut String, c: char)
    ensures
        final(s)@ == old(s)@.push(c),
{
    s.push(c)
}

/// Whether two texts are the same.
pub fn text_eq(a: &str, b: &str) -> (r: bool)
    ensures
        r == (a@ == b@),
{
    let n = a.unicode_len();
    if n != b.unicode_len() {
        return false;
    }
    let mut i: usize = 0;
    while i < n
        invariant
            n == a@.len() == b@.len(),
            i <= n,
            forall|j: int| 0 <= j < i ==> a@[j] == b@[j],
        decreases n - i,
    {
        if a.get_char(i) != b.get_char(i) {
            return false;
        }
        i = i + 1;
    }
    assert(a@ =~= b@);
    true
}

/// Relies on `String::from_utf8`: the text that valid UTF-8 encodes, `None`
/// for bytes that are not valid UTF-8.
#[verifier::external_body]
pub(crate) fn utf8_text(bytes: Vec<u8>) -> (r: Option<String>)
    ensures
        valid_utf8(bytes@) ==> r is Some && r->0@ == decode_utf8(bytes@),
        !valid_utf8(bytes@) ==> r is None,
{
    String::from_utf8(bytes).ok()
}

} // verus!
