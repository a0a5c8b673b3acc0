use vstd::prelude::*;

use crate::system::HardResourceOrNonFungible;
use crate::types::{
    ATTOS_PER_UNIT, ComponentAddress, Decimal, EcdsaSecp256k1PublicKey, NonFungibleGlobalId, NonFungibleLocalId,
    ResourceAddress,
};

verus! {

/// Whether `c` is a decimal digit.
pub open spec fn is_digit(c: char) -> bool {
    '0' <= c && c <= '9'
}

/// The value of the decimal digit `c`.
pub open spec fn digit_value(c: char) -> int {
    c as int - '0' as int
}

/// Whether every character of `s` is a decimal digit.
pub open spec fn all_digits(s: Seq<char>) -> bool {
    forall|i: int| 0 <= i < s.len() ==> is_digit(#[trigger] s[i])
}

/// The number that the decimal digits `s` write.
pub open spec fn digits_value(s: Seq<char>) -> int
    decreases s.len(),
{
    if s.len() == 0 {
        0
    } else {
        digits_value(s.drop_last()) * 10 + digit_value(s.last())
    }
}

/// Ten to the power `n`.
pub open spec fn pow10(n: nat) -> int
    decreases n,
{
    if n == 0 {
        1
    } else {
        10 * pow10((n - 1) as nat)
    }
}

/// Whether the first `.` of `s` is at position `k`.
pub open spec fn first_dot_at(s: Seq<char>, k: int) -> bool {
    0 <= k < s.len() && s[k] == '.' && forall|j: int| 0 <= j < k ==> s[j] != '.'
}

/// The number of attos that the unsigned decimal text `b` writes: whole units, optionally
/// followed by `.` and one to eighteen fractional digits.
pub open spec fn unsigned_attos(b: Seq<char>) -> Option<int> {
    if exists|k: int| first_dot_at(b, k) {
        let k = choose|k: int| first_dot_at(b, k);
        let whole = b.take(k);
        let fraction = b.skip(k + 1);
        if whole.len() > 0 && all_digits(whole) && 0 < fraction.len() <= 18 && all_digits(fraction) {
            Some(digits_value(whole) * ATTOS_PER_UNIT + digits_value(fraction) * pow10((18 - fraction.len()) as nat))
        } else {
            None
        }
    } else if b.len() > 0 && all_digits(b) {
        Some(digits_value(b) * ATTOS_PER_UNIT)
    } else {
        None
    }
}

/// The number of attos that the decimal text `s` writes, optionally after a `-`, if it is a
/// decimal in the range of decimals.
pub open spec fn decimal_attos(s: Seq<char>) -> Option<int> {
    let negative = s.len() > 0 && s[0] == '-';
    match unsigned_attos(if negative { s.skip(1) } else { s }) {
        Some(v) => {
            let x = if negative { -v } else { v };
            if i128::MIN <= x <= i128::MAX { Some(x) } else { None }
        },
        None => None,
    }
}

proof fn lemma_pow10_positive(n: nat)
    ensures
        pow10(n) >= 1,
    decreases n,
{
    if n > 0 {
        lemma_pow10_positive((n - 1) as nat);
    }
}

proof fn lemma_digits_value_bounds(s: Seq<char>)
    requires
        all_digits(s),
    ensures
        0 <= digits_value(s) < pow10(s.len()),
    decreases s.len(),
{
    if s.len() > 0 {
        let t = s.drop_last();
        assert(all_digits(t)) by {
            assert forall|i: int| 0 <= i < t.len() implies is_digit(#[trigger] t[i]) by {
                assert(t[i] == s[i]);
            }
        }
        lemma_digits_value_bounds(t);
        assert(is_digit(s[s.len() - 1]));
        let d = digit_value(s.last());
        let v = digits_value(t);
        let p = pow10(t.len());
        assert(v * 10 + d < 10 * p) by (nonlinear_arith)
            requires
                0 <= v < p,
                0 <= d <= 9,
        ;
    }
}

proof fn lemma_digits_value_prefix(s: Seq<char>, j: int)
    requires
        all_digits(s),
        0 <= j <= s.len(),
    ensures
        digits_value(s.take(j)) <= digits_value(s),
    decreases s.len(),
{
    if j < s.len() {
        let t = s.drop_last();
        assert(all_digits(t)) by {
            assert forall|i: int| 0 <= i < t.len() implies is_digit(#[trigger] t[i]) by {
                assert(t[i] == s[i]);
            }
        }
        lemma_digits_value_prefix(t, j);
        assert(t.take(j) =~= s.take(j));
        lemma_digits_value_bounds(t);
        assert(is_digit(s[s.len() - 1]));
    } else {
        assert(s.take(j) =~= s);
    }
}

/// Whether the characters of `s` from `from` to `to` are all decimal digits.
fn digits_between(s: &str, from: usize, to: usize) -> (r: bool)
    requires
        from <= to <= s@.len(),
    ensures
        r == all_digits(s@.subrange(from as int, to as int)),
{
    let mut i = from;
    while i < to
        invariant
            from <= i <= to,
            to <= s@.len(),
            forall|j: int| from <= j < i ==> is_digit(s@[j]),
        decreases to - i,
    {
        let c = s.get_char(i);
        if !('0' <= c && c <= '9') {
            assert(s@.subrange(from as int, to as int)[i - from] == c);
            return false;
        }
        i = i + 1;
    }
    assert forall|j: int| 0 <= j < to - from implies is_digit(#[trigger] s@.subrange(from as int, to as int)[j]) by {
        assert(s@.subrange(from as int, to as int)[j] == s@[from + j]);
    }
    true
}

/// The number that the decimal digits of `s` from `from` to `to` write, unless it is beyond
/// the range of `u128`.
fn digits_number(s: &str, from: usize, to: usize) -> (r: Option<u128>)
    requires
        from <= to <= s@.len(),
        all_digits(s@.subrange(from as int, to as int)),
    ensures
        match r {
            Some(v) => v == digits_value(s@.subrange(from as int, to as int)),
            None => digits_value(s@.subrange(from as int, to as int)) > u128::MAX,
        },
{
    let ghost w = s@.subrange(from as int, to as int);
    let mut v: u128 = 0;
    let mut i = from;
    assert(w.take(0) =~= Seq::<char>::empty());
    while i < to
        invariant
            from <= i <= to,
            to <= s@.len(),
            w == s@.subrange(from as int, to as int),
            all_digits(w),
            v == digits_value(w.take(i - from)),
        decreases to - i,
    {
        let c = s.get_char(i);
        proof {
            assert(w[i - from] == c);
            assert(is_digit(w[i - from]));
            assert(w.take(i - from + 1).drop_last() =~= w.take(i - from));
            assert(w.take(i - from + 1).last() == c);
        }
        let d: u128 = ((c as u32) - ('0' as u32)) as u128;
        match v.checked_mul(10) {
            Some(t) => match t.checked_add(d) {
                Some(u) => {
                    v = u;
                },
                None => {
                    proof { lemma_digits_value_prefix(w, i - from + 1); }
                    return None;
                },
            },
            None => {
                proof {
                    lemma_digits_value_prefix(w, i - from + 1);
                    assert(v * 10 + d >= v * 10);
                }
                return None;
            },
        }
        i = i + 1;
    }
    assert(w.take(to - from) =~= w);
    Some(v)
}

/// Ten to the power `n`, for `n` at most eighteen.
fn pow10_u128(n: usize) -> (r: u128)
    requires
        n <= 18,
    ensures
        r == pow10(n as nat),
        r <= 1_000_000_000_000_000_000,
{
    proof {
        reveal_with_fuel(pow10, 19);
        assert(pow10(18) == 1_000_000_000_000_000_000);
    }
    let mut r: u128 = 1;
    let mut i: usize = 0;
    while i < n
        invariant
            i <= n <= 18,
            r == pow10(i as nat),
            pow10(18) == 1_000_000_000_000_000_000,
        decreases n - i,
    {
        proof {
            lemma_pow10_split((i + 1) as nat, (17 - i) as nat);
            lemma_pow10_positive((17 - i) as nat);
            let p = pow10((i + 1) as nat);
            let q = pow10((17 - i) as nat);
            assert(p <= 1_000_000_000_000_000_000) by (nonlinear_arith)
                requires
                    p * q == 1_000_000_000_000_000_000,
                    q >= 1,
                    p >= 0,
            ;
            assert(p == 10 * pow10(i as nat));
        }
        r = r * 10;
        i = i + 1;
    }
    proof {
        lemma_pow10_split(n as nat, (18 - n) as nat);
        lemma_pow10_positive((18 - n) as nat);
        lemma_pow10_positive(n as nat);
        let p = pow10(n as nat);
        let q = pow10((18 - n) as nat);
        assert(p <= 1_000_000_000_000_000_000) by (nonlinear_arith)
            requires
                p * q == 1_000_000_000_000_000_000,
                q >= 1,
                p >= 0,
        ;
    }
    r
}

/// The decimal that the text `s` writes: optionally `-`, then whole units, then optionally
/// `.` and one to eighteen fractional digits; `None` for any other text, or for a value beyond
/// the range of decimals.
#[verifier::rlimit(60)]
#[verifier::spinoff_prover]
pub fn parse_decimal(s: &str) -> (r: Option<Decimal>)
    ensures
        match decimal_attos(s@) {
            Some(x) => r matches Some(d) && d.attos == x,
            None => r is None,
        },
{
    let n = s.unicode_len();
    let negative = n > 0 && s.get_char(0) == '-';
    let start: usize = if negative { 1 } else { 0 };
    let ghost b = if negative { s@.skip(1) } else { s@ };
    assert(b =~= s@.subrange(start as int, n as int));
    let mut k = start;
    while k < n && s.get_char(k) != '.'
        invariant
            start <= k <= n,
            n == s@.len(),
            forall|j: int| start <= j < k ==> s@[j] != '.',
        decreases n - k,
    {
        k = k + 1;
    }
    let has_dot = k < n;
    proof {
        if has_dot {
            assert(first_dot_at(b, k - start));
            assert forall|k2: int| first_dot_at(b, k2) implies k2 == k - start by {
                if k2 < k - start {
                    assert(b[k2] == s@[start + k2]);
                } else if k2 > k - start {
                    assert(b[k - start] == s@[k as int]);
                }
            }
        } else {
            assert forall|k2: int| !first_dot_at(b, k2) by {
                if 0 <= k2 < b.len() {
                    assert(b[k2] == s@[start + k2]);
                }
            }
        }
    }
    let whole_end = k;
    if whole_end == start || !digits_between(s, start, whole_end) {
        proof {
            if has_dot {
                assert(b.take(k - start) =~= s@.subrange(start as int, k as int));
            } else {
                assert(b =~= s@.subrange(start as int, k as int));
            }
        }
        return None;
    }
    let mut fraction_value: u128 = 0;
    let mut fraction_len: usize = 0;
    if has_dot {
        fraction_len = n - k - 1;
        proof {
            assert(b.take(k - start) =~= s@.subrange(start as int, k as int));
            assert(b.skip(k - start + 1) =~= s@.subrange(k + 1, n as int));
        }
        if fraction_len == 0 || fraction_len > 18 || !digits_between(s, k + 1, n) {
            return None;
        }
        proof { lemma_digits_value_bounds(s@.subrange(k + 1, n as int)); }
        match digits_number(s, k + 1, n) {
            Some(v) => {
                fraction_value = v;
            },
            None => {
                proof { lemma_pow10_at_most_18(fraction_len as nat); }
                return None;
            },
        }
    } else {
        proof { assert(b =~= s@.subrange(start as int, k as int)); }
    }
    let ghost whole = s@.subrange(start as int, whole_end as int);
    let scale = pow10_u128(18 - fraction_len);
    proof {
        if has_dot {
            lemma_digits_value_bounds(s@.subrange(k + 1, n as int));
            let p = pow10(fraction_len as nat);
            let q = pow10((18 - fraction_len) as nat);
            lemma_pow10_positive((18 - fraction_len) as nat);
            assert(p * q == 1_000_000_000_000_000_000) by {
                lemma_pow10_split(fraction_len as nat, (18 - fraction_len) as nat);
                reveal_with_fuel(pow10, 19);
            }
            assert(fraction_value * scale < 1_000_000_000_000_000_000) by (nonlinear_arith)
                requires
                    fraction_value < p,
                    scale == q,
                    p * q == 1_000_000_000_000_000_000,
                    q >= 1,
            ;
        } else {
            assert(fraction_value * scale == 0);
        }
    }
    let fraction_attos: u128 = fraction_value * scale;
    let whole_value = match digits_number(s, start, whole_end) {
        Some(v) => v,
        None => {
            proof {
                lemma_digits_value_bounds(whole);
                assert(digits_value(whole) * ATTOS_PER_UNIT > u128::MAX) by (nonlinear_arith)
                    requires
                        digits_value(whole) > u128::MAX,
                        ATTOS_PER_UNIT == 1_000_000_000_000_000_000,
                ;
            }
            return None;
        },
    };
    let total = match whole_value.checked_mul(1_000_000_000_000_000_000u128) {
        Some(t) => match t.checked_add(fraction_attos) {
            Some(u) => u,
            None => {
                return None;
            },
        },
        None => {
            return None;
        },
    };
    if negative {
        if total <= 0x8000_0000_0000_0000_0000_0000_0000_0000u128 {
            if total == 0x8000_0000_0000_0000_0000_0000_0000_0000u128 {
                Some(Decimal { attos: i128::MIN })
            } else {
                let t: i128 = total as i128;
                Some(Decimal { attos: -t })
            }
        } else {
            None
        }
    } else {
        if total <= 0x7fff_ffff_ffff_ffff_ffff_ffff_ffff_ffffu128 {
            Some(Decimal { attos: total as i128 })
        } else {
            None
        }
    }
}

/// The value of the hexadecimal digit `c`, if it is one.
pub open spec fn hex_value(c: char) -> Option<int> {
    if '0' <= c && c <= '9' {
        Some(c as int - '0' as int)
    } else if 'a' <= c && c <= 'f' {
        Some(c as int - 'a' as int + 10)
    } else if 'A' <= c && c <= 'F' {
        Some(c as int - 'A' as int + 10)
    } else {
        None
    }
}

/// The byte that the hexadecimal digits `hi` and `lo` write.
pub open spec fn hex_byte(hi: char, lo: char) -> u8 {
    (hex_value(hi)->0 * 16 + hex_value(lo)->0) as u8
}

/// The bytes that the hexadecimal text `s` writes, two digits per byte, if it is such a text.
pub open spec fn hex_bytes(s: Seq<char>) -> Option<Seq<u8>> {
    if s.len() % 2 == 0 && forall|i: int| 0 <= i < s.len() ==> #[trigger] hex_value(s[i]) is Some {
        Some(Seq::new((s.len() / 2) as nat, |i: int| hex_byte(s[2 * i], s[2 * i + 1])))
    } else {
        None
    }
}

fn hex_digit(c: char) -> (r: Option<u8>)
    ensures
        match hex_value(c) {
            Some(v) => r == Some(v as u8) && 0 <= v < 16,
            None => r is None,
        },
{
    if '0' <= c && c <= '9' {
        Some(((c as u32) - ('0' as u32)) as u8)
    } else if 'a' <= c && c <= 'f' {
        Some(((c as u32) - ('a' as u32) + 10) as u8)
    } else if 'A' <= c && c <= 'F' {
        Some(((c as u32) - ('A' as u32) + 10) as u8)
    } else {
        None
    }
}

/// The bytes that the hexadecimal text `s` writes, two digits per byte; `None` for a text of
/// odd length or with a character that is not a hexadecimal digit.
pub fn parse_hex(s: &str) -> (r: Option<Vec<u8>>)
    ensures
        match hex_bytes(s@) {
            Some(b) => r matches Some(v) && v@ == b,
            None => r is None,
        },
{
    let n = s.unicode_len();
    if n % 2 != 0 {
        return None;
    }
    let mut out: Vec<u8> = Vec::new();
    let mut i: usize = 0;
    while i < n
        invariant
            n == s@.len(),
            n % 2 == 0,
            i % 2 == 0,
            i <= n,
            out@.len() == i / 2,
            forall|j: int| 0 <= j < i ==> #[trigger] hex_value(s@[j]) is Some,
            forall|j: int| 0 <= j < i / 2 ==> #[trigger] out@[j] == hex_byte(s@[2 * j], s@[2 * j + 1]),
        decreases n - i,
    {
        let hi = s.get_char(i);
        let lo = s.get_char(i + 1);
        match (hex_digit(hi), hex_digit(lo)) {
            (Some(h), Some(l)) => {
                let byte: u8 = h * 16 + l;
                proof {
                    assert(i / 2 * 2 == i);
                }
                out.push(byte);
                i = i + 2;
            },
            _ => {
                proof {
                    assert(!(forall|j: int| 0 <= j < s@.len() ==> #[trigger] hex_value(s@[j]) is Some)) by {
                        if hex_value(hi) is None {
                            assert(hex_value(s@[i as int]) is None);
                        } else {
                            assert(hex_value(s@[i + 1]) is None);
                        }
                    }
                }
                return None;
            },
        }
    }
    proof {
        let b = Seq::new((n / 2) as nat, |j: int| hex_byte(s@[2 * j], s@[2 * j + 1]));
        assert(out@ =~= b);
    }
    Some(out)
}

proof fn lemma_pow10_at_most_18(n: nat)
    requires
        n <= 18,
    ensures
        1 <= pow10(n) <= 1_000_000_000_000_000_000,
{
    reveal_with_fuel(pow10, 19);
    assert(pow10(18) == 1_000_000_000_000_000_000);
    lemma_pow10_split(n, (18 - n) as nat);
    lemma_pow10_positive((18 - n) as nat);
    lemma_pow10_positive(n);
    let p = pow10(n);
    let q = pow10((18 - n) as nat);
    assert(p <= 1_000_000_000_000_000_000) by (nonlinear_arith)
        requires
            p * q == 1_000_000_000_000_000_000,
            q >= 1,
            p >= 0,
    ;
}

proof fn lemma_pow10_split(a: nat, b: nat)
    ensures
        pow10(a) * pow10(b) == pow10(a + b),
    decreases a,
{
    if a > 0 {
        lemma_pow10_split((a - 1) as nat, b);
        assert(pow10(a) * pow10(b) == 10 * (pow10((a - 1) as nat) * pow10(b))) by (nonlinear_arith)
            requires
                pow10(a) == 10 * pow10((a - 1) as nat),
        ;
    }
}


/// The whole number that the decimal digits `s` write, if there is at least one digit and the
/// number fits in a `u64`.
pub open spec fn integer_value(s: Seq<char>) -> Option<u64> {
    if s.len() > 0 && all_digits(s) && digits_value(s) <= u64::MAX {
        Some(digits_value(s) as u64)
    } else {
        None
    }
}

/// The whole number that the text `s` writes in decimal digits; `None` for an empty text, a
/// character that is not a digit, or a number beyond `u64`.
pub fn parse_integer(s: &str) -> (r: Option<u64>)
    ensures
        r == integer_value(s@),
{
    let n = s.unicode_len();
    assert(s@.subrange(0, n as int) =~= s@);
    if n == 0 || !digits_between(s, 0, n) {
        return None;
    }
    match digits_number(s, 0, n) {
        Some(v) => {
            if v <= 0xffff_ffff_ffff_ffffu128 {
                Some(v as u64)
            } else {
                None
            }
        },
        None => None,
    }
}

/// The `N` bytes of `v`, as an array, if `v` holds exactly `N` bytes.
fn to_array<const N: usize>(v: &Vec<u8>) -> (r: Option<[u8; N]>)
    ensures
        match r {
            Some(a) => v@.len() == N && a@ == v@,
            None => v@.len() != N,
        },
{
    if v.len() != N {
        return None;
    }
    let mut a: [u8; N] = [0u8; N];
    let mut i: usize = 0;
    while i < N
        invariant
            v@.len() == N,
            i <= N,
            a@.len() == N,
            forall|j: int| 0 <= j < i ==> a@[j] == v@[j],
        decreases N - i,
    {
        a[i] = v[i];
        i = i + 1;
    }
    assert(a@ =~= v@);
    Some(a)
}

/// The bytes of an address written as sixty hexadecimal digits.
pub open spec fn address_bytes(s: Seq<char>) -> Option<Seq<u8>> {
    match hex_bytes(s) {
        Some(b) => if b.len() == 30 { Some(b) } else { None },
        None => None,
    }
}

/// The resource address written as sixty hexadecimal digits.
pub fn parse_resource_address(s: &str) -> (r: Option<ResourceAddress>)
    ensures
        match address_bytes(s@) {
            Some(b) => r matches Some(a) && a.0@ == b,
            None => r is None,
        },
{
    match parse_hex(s) {
        Some(v) => match to_array::<30>(&v) {
            Some(a) => Some(ResourceAddress(a)),
            None => None,
        },
        None => None,
    }
}

/// The component address written as sixty hexadecimal digits.
pub fn parse_component_address(s: &str) -> (r: Option<ComponentAddress>)
    ensures
        match address_bytes(s@) {
            Some(b) => r matches Some(a) && a.0@ == b,
            None => r is None,
        },
{
    match parse_hex(s) {
        Some(v) => match to_array::<30>(&v) {
            Some(a) => Some(ComponentAddress(a)),
            None => None,
        },
        None => None,
    }
}

/// The compressed public key written as sixty-six hexadecimal digits.
pub fn parse_public_key(s: &str) -> (r: Option<EcdsaSecp256k1PublicKey>)
    ensures
        match hex_bytes(s@) {
            Some(b) => if b.len() == 33 { r matches Some(k) && k.0@ == b } else { r is None },
            None => r is None,
        },
{
    match parse_hex(s) {
        Some(v) => match to_array::<33>(&v) {
            Some(a) => Some(EcdsaSecp256k1PublicKey(a)),
            None => None,
        },
        None => None,
    }
}

/// Whether the first `:` of `s` is at position `k`.
pub open spec fn first_colon_at(s: Seq<char>, k: int) -> bool {
    0 <= k < s.len() && s[k] == ':' && forall|j: int| 0 <= j < k ==> s[j] != ':'
}

/// What a badge text names: the bytes of a resource address, and the integer id of one of its
/// non-fungibles where the text goes on with `:` and that id.
pub open spec fn badge_parts(s: Seq<char>) -> Option<(Seq<u8>, Option<u64>)> {
    if exists|k: int| first_colon_at(s, k) {
        let k = choose|k: int| first_colon_at(s, k);
        match (address_bytes(s.take(k)), integer_value(s.skip(k + 1))) {
            (Some(b), Some(id)) => Some((b, Some(id))),
            _ => None,
        }
    } else {
        match address_bytes(s) {
            Some(b) => Some((b, None)),
            None => None,
        }
    }
}

/// The badge that the text `s` names: a resource, as its sixty-digit hexadecimal address, or
/// one of its integer non-fungibles, as the address followed by `:` and the id.
pub fn parse_badge(s: &str) -> (r: Option<HardResourceOrNonFungible>)
    ensures
        match badge_parts(s@) {
            Some((b, None)) => r matches Some(HardResourceOrNonFungible::Resource(a)) && a.0@ == b,
            Some((b, Some(id))) => r matches Some(HardResourceOrNonFungible::NonFungible(g))
                && g.resource_address.0@ == b && g.local_id == NonFungibleLocalId::Integer(id),
            None => r is None,
        },
{
    let n = s.unicode_len();
    let mut k: usize = 0;
    while k < n && s.get_char(k) != ':'
        invariant
            k <= n,
            n == s@.len(),
            forall|j: int| 0 <= j < k ==> s@[j] != ':',
        decreases n - k,
    {
        k = k + 1;
    }
    if k < n {
        proof {
            assert(first_colon_at(s@, k as int));
            assert forall|k2: int| first_colon_at(s@, k2) implies k2 == k by {
                if k2 < k {
                    assert(s@[k2] != ':');
                } else if k2 > k {
                    assert(s@[k as int] == ':');
                }
            }
        }
        let address = s.substring_char(0, k);
        let id = s.substring_char(k + 1, n);
        assert(address@ =~= s@.take(k as int));
        assert(id@ =~= s@.skip(k + 1));
        match (parse_resource_address(address), parse_integer(id)) {
            (Some(a), Some(id)) => Some(HardResourceOrNonFungible::NonFungible(NonFungibleGlobalId::new(
                a,
                NonFungibleLocalId::integer(id),
            ))),
            _ => None,
        }
    } else {
        proof {
            assert forall|k2: int| !first_colon_at(s@, k2) by {
                if 0 <= k2 < s@.len() {
                    assert(s@[k2] != ':');
                }
            }
        }
        match parse_resource_address(s) {
            Some(a) => Some(HardResourceOrNonFungible::Resource(a)),
            None => None,
        }
    }
}

/// Decimal digits are positional: the digits `s` followed by the digits `t` write the number
/// of `s` shifted left by as many places as `t` has digits, plus the number of `t`.
#[verifier::spinoff_prover]
pub proof fn lemma_digits_value_of_concatenation(s: Seq<char>, t: Seq<char>)
    ensures
        digits_value(s + t) == digits_value(s) * pow10(t.len()) + digits_value(t),
    decreases t.len(),
{
    if t.len() == 0 {
        assert(s + t =~= s);
        assert(pow10(0) == 1);
        assert(digits_value(s) * 1 == digits_value(s));
    } else {
        let u = t.drop_last();
        let d = digit_value(t.last());
        assert((s + t).drop_last() =~= s + u);
        assert((s + t).last() == t.last());
        lemma_digits_value_of_concatenation(s, u);
        let a = digits_value(s);
        let p = pow10(u.len());
        let b = digits_value(u);
        assert(digits_value(s + t) == digits_value(s + u) * 10 + d);
        assert(digits_value(s + u) == a * p + b);
        assert(digits_value(t) == b * 10 + d);
        assert(pow10(t.len()) == 10 * p);
        assert((a * p + b) * 10 + d == a * (10 * p) + (b * 10 + d)) by (nonlinear_arith);
    }
}

/// A whole number's leading zeros do not change it, and a single digit writes its own value.
pub proof fn lemma_integer_value_ignores_leading_zeros(s: Seq<char>, c: char)
    requires
        s.len() > 0,
    ensures
        integer_value(seq!['0'] + s) == integer_value(s),
        is_digit(c) ==> integer_value(seq![c]) == Some((c as int - '0' as int) as u64),
{
    lemma_digits_value_of_concatenation(seq!['0'], s);
    assert(digits_value(seq!['0']) == 0) by {
        assert(seq!['0'].drop_last() =~= Seq::<char>::empty());
        assert(digits_value(Seq::<char>::empty()) == 0);
        assert(seq!['0'].last() == '0');
    }
    assert(all_digits(seq!['0'] + s) <==> all_digits(s)) by {
        if all_digits(s) {
            assert forall|i: int| 0 <= i < (seq!['0'] + s).len() implies is_digit(#[trigger] (seq!['0'] + s)[i]) by {
                if i > 0 { assert((seq!['0'] + s)[i] == s[i - 1]); }
            }
        }
        if all_digits(seq!['0'] + s) {
            assert forall|i: int| 0 <= i < s.len() implies is_digit(#[trigger] s[i]) by {
                assert((seq!['0'] + s)[i + 1] == s[i]);
            }
        }
    }
    if is_digit(c) {
        assert(seq![c].drop_last() =~= Seq::<char>::empty());
        assert(digits_value(Seq::<char>::empty()) == 0);
        assert(seq![c].last() == c);
        assert(digits_value(seq![c]) == c as int - '0' as int);
        assert(all_digits(seq![c]));
    }
}

/// A decimal with a trailing zero in its fraction writes the same amount as without it.
pub proof fn lemma_trailing_fraction_zero_changes_nothing(whole: Seq<char>, fraction: Seq<char>)
    requires
        fraction.len() < 18,
        forall|i: int| 0 <= i < whole.len() ==> whole[i] != '.',
        forall|i: int| 0 <= i < fraction.len() ==> fraction[i] != '.',
    ensures
        unsigned_attos(whole + seq!['.'] + fraction + seq!['0']) == if fraction.len() == 0 {
            unsigned_attos(whole + seq!['.'] + seq!['0'])
        } else {
            unsigned_attos(whole + seq!['.'] + fraction)
        },
        fraction.len() == 0 ==> unsigned_attos(whole + seq!['.'] + seq!['0']) == unsigned_attos(whole),
{
    let k = whole.len() as int;
    let longer = whole + seq!['.'] + fraction + seq!['0'];
    let shorter = whole + seq!['.'] + fraction;
    assert(first_dot_at(longer, k)) by {
        assert(longer[k] == '.');
        assert forall|j: int| 0 <= j < k implies longer[j] != '.' by { assert(longer[j] == whole[j]); }
    }
    assert(first_dot_at(shorter, k)) by {
        assert(shorter[k] == '.');
        assert forall|j: int| 0 <= j < k implies shorter[j] != '.' by { assert(shorter[j] == whole[j]); }
    }
    assert forall|j: int| first_dot_at(longer, j) implies j == k by {
        if j < k { assert(longer[j] == whole[j]); }
        if j > k { assert(longer[k] == '.'); }
    }
    assert forall|j: int| first_dot_at(shorter, j) implies j == k by {
        if j < k { assert(shorter[j] == whole[j]); }
        if j > k { assert(shorter[k] == '.'); }
    }
    assert(longer.take(k) =~= whole);
    assert(shorter.take(k) =~= whole);
    let f0 = fraction + seq!['0'];
    assert(longer.skip(k + 1) =~= f0);
    assert(shorter.skip(k + 1) =~= fraction);
    lemma_digits_value_of_concatenation(fraction, seq!['0']);
    assert(digits_value(seq!['0']) == 0) by {
        assert(seq!['0'].drop_last() =~= Seq::<char>::empty());
        assert(digits_value(Seq::<char>::empty()) == 0);
        assert(seq!['0'].last() == '0');
    }
    assert(pow10(1) == 10) by {
        assert(pow10(0) == 1);
    }
    assert(all_digits(f0) <==> all_digits(fraction)) by {
        if all_digits(fraction) {
            assert forall|i: int| 0 <= i < f0.len() implies is_digit(#[trigger] f0[i]) by {
                if i < fraction.len() { assert(f0[i] == fraction[i]); }
            }
        }
        if all_digits(f0) {
            assert forall|i: int| 0 <= i < fraction.len() implies is_digit(#[trigger] fraction[i]) by {
                assert(f0[i] == fraction[i]);
            }
        }
    }
    let n = fraction.len();
    assert(pow10((18 - n) as nat) == 10 * pow10((18 - (n + 1)) as nat));
    assert(digits_value(f0) * pow10((18 - (n + 1)) as nat) == digits_value(fraction) * pow10((18 - n) as nat)) by {
        let p = pow10((18 - (n + 1)) as nat);
        assert((digits_value(fraction) * 10) * p == digits_value(fraction) * (10 * p)) by (nonlinear_arith);
    }
    if fraction.len() == 0 {
        assert(fraction + seq!['0'] =~= seq!['0']);
        assert(longer =~= whole + seq!['.'] + seq!['0']);
        assert(digits_value(fraction) == 0);
        assert forall|j: int| !first_dot_at(whole, j) by {}
    }
}
} // verus!
