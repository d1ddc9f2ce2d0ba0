//! Amounts: the supply cap, and exact conversion between the smallest unit
//! and decimal text of whole coins.
use vstd::prelude::*;
use vstd::utf8::is_ascii_chars;

verus! {

/// Smallest currency units in one whole coin.
pub const UNITS_PER_COIN: u64 = 100_000_000;

/// Total currency supply, in the smallest unit.
pub const MAX_SUPPLY: u64 = 2_100_000_000_000_000;

pub open spec fn within_supply_cap(n: int) -> bool {
    0 <= n <= MAX_SUPPLY
}

pub open spec fn is_digit(c: char) -> bool {
    '0' <= c && c <= '9'
}

pub open spec fn digit_value(c: char) -> nat {
    (c as int - '0' as int) as nat
}

pub open spec fn digit_char(d: nat) -> char {
    ((d % 10) + '0' as int) as char
}

proof fn lemma_digit_roundtrip(d: nat)
    requires d < 10,
    ensures is_digit(digit_char(d)), digit_value(digit_char(d)) == d,
{
}

fn exec_digit(d: u64) -> (c: char)
    requires d < 10,
    ensures c == digit_char(d as nat),
{
    ((d as u8) + 48u8) as char
}

/// Whether `satoshis` lies within the total supply of the currency.
pub fn is_valid_amount_internal(satoshis: u64) -> (r: bool)
    ensures
        r == within_supply_cap(satoshis as int),
{
    satoshis <= MAX_SUPPLY
}


/// Decimal digits of `n`, most significant first, without leading zeros.
pub open spec fn decimal_text(n: nat) -> Seq<char>
    decreases n,
{
    if n < 10 {
        seq![digit_char(n)]
    } else {
        decimal_text(n / 10).push(digit_char(n % 10))
    }
}

/// The lowest `width` decimal digits of `n`, zero-padded on the left.
pub open spec fn padded_text(n: nat, width: nat) -> Seq<char>
    decreases width,
{
    if width == 0 {
        Seq::empty()
    } else {
        padded_text(n / 10, (width - 1) as nat).push(digit_char(n % 10))
    }
}

/// An amount in the smallest unit written as whole coins with exactly
/// eight decimal places, such as `1.50000000`.
pub open spec fn coin_text(n: nat) -> Seq<char> {
    decimal_text(n / UNITS_PER_COIN as nat) + seq!['.'] + padded_text(
        n % UNITS_PER_COIN as nat,
        8,
    )
}

pub open spec fn all_digits(t: Seq<char>) -> bool {
    forall|i: int| 0 <= i < t.len() ==> #[trigger] is_digit(t[i])
}

/// The number that a string of decimal digits denotes.
pub open spec fn digits_value(t: Seq<char>) -> nat
    decreases t.len(),
{
    if t.len() == 0 {
        0
    } else {
        digits_value(t.drop_last()) * 10 + digit_value(t.last())
    }
}

/// The first eight characters of `f`, padded on the right with zeros.
pub open spec fn eight_places(f: Seq<char>) -> Seq<char>
    decreases 8 - f.len(),
{
    if f.len() >= 8 {
        f.take(8)
    } else {
        eight_places(f.push('0'))
    }
}

/// `t` splits at `p` into digits before it and, where `p` is not the end,
/// a decimal point followed by digits; at least one digit in all.
pub open spec fn split_at(t: Seq<char>, p: int) -> bool {
    &&& 0 <= p <= t.len()
    &&& all_digits(t.take(p))
    &&& (p == t.len() || (t[p] == '.' && all_digits(t.skip(p + 1))))
    &&& (p > 0 || t.len() > 1)
}

/// `t` is an unsigned decimal number such as `12`, `0.5`, `.5` or `1.`.
pub open spec fn is_amount_text(t: Seq<char>) -> bool {
    exists|p: int| split_at(t, p)
}

/// The places after the point of an amount text.
pub open spec fn fraction_text(t: Seq<char>) -> Seq<char> {
    let p = choose|p: int| split_at(t, p);
    if p < t.len() {
        t.skip(p + 1)
    } else {
        Seq::empty()
    }
}

/// The value of an amount text in the smallest unit, places after the
/// eighth dropped.
pub open spec fn amount_value(t: Seq<char>) -> nat {
    let p = choose|p: int| split_at(t, p);
    digits_value(t.take(p)) * UNITS_PER_COIN as nat + digits_value(eight_places(fraction_text(t)))
}

/// A non-zero digit stands after the eighth place.
pub open spec fn has_excess_places(t: Seq<char>) -> bool {
    exists|i: int| 8 <= i < fraction_text(t).len() && #[trigger] fraction_text(t)[i] != '0'
}

/// Some digit of `t` is not zero.
pub open spec fn has_nonzero_digit(t: Seq<char>) -> bool {
    exists|i: int| 0 <= i < t.len() && is_digit(#[trigger] t[i]) && t[i] != '0'
}

/// Why a decimal amount was refused.
#[derive(Clone, Copy, Debug, PartialEq, Eq, Structural)]
pub enum AmountError {
    /// The text is not a decimal number.
    Malformed,
    /// The text is a decimal number below zero.
    Negative,
    /// The amount is above the total supply.
    ExceedsSupply,
}

/// What reading an unsigned amount text yields: its value in the smallest
/// unit, refused where the exact amount is above the total supply.
pub open spec fn unsigned_amount_result(t: Seq<char>) -> Result<u64, AmountError> {
    if !is_amount_text(t) {
        Err(AmountError::Malformed)
    } else if amount_value(t) > MAX_SUPPLY || (amount_value(t) == MAX_SUPPLY && has_excess_places(t)) {
        Err(AmountError::ExceedsSupply)
    } else {
        Ok(amount_value(t) as u64)
    }
}

/// What parsing a decimal amount, with an optional sign, yields in the
/// smallest unit.
pub open spec fn parse_amount_result(t: Seq<char>) -> Result<u64, AmountError> {
    if t.len() > 0 && (t[0] == '-' || t[0] == '+') && is_amount_text(t.drop_first()) {
        if t[0] == '-' && has_nonzero_digit(t.drop_first()) {
            Err(AmountError::Negative)
        } else {
            unsigned_amount_result(t.drop_first())
        }
    } else {
        unsigned_amount_result(t)
    }
}

/// Relies on `String::push`: appends one character.
#[verifier::external_body]
pub(crate) fn push_char(s: &mut String, c: char)
    ensures
        final(s)@ == old(s)@.push(c),
{
    s.push(c)
}

fn push_decimal(s: &mut String, n: u64)
    ensures
        final(s)@ == old(s)@ + decimal_text(n as nat),
    decreases n,
{
    if n >= 10 {
        push_decimal(s, n / 10);
    }
    push_char(s, exec_digit(n % 10));
    proof {
        assert(digit_char((n % 10) as nat) == digit_char(n as nat));
    }
}

fn push_padded(s: &mut String, n: u64, width: u64)
    ensures
        final(s)@ == old(s)@ + padded_text(n as nat, width as nat),
    decreases width,
{
    if width > 0 {
        push_padded(s, n / 10, width - 1);
        push_char(s, exec_digit(n % 10));
    }
}

/// Writes an amount in the smallest unit as whole coins with eight decimal
/// places.
pub fn format_btc_amount(satoshis: u64) -> (r: String)
    ensures
        r@ == coin_text(satoshis as nat),
{
    let mut s = String::new();
    push_decimal(&mut s, satoshis / UNITS_PER_COIN);
    push_char(&mut s, '.');
    push_padded(&mut s, satoshis % UNITS_PER_COIN, 8);
    s
}


proof fn lemma_take_push(t: Seq<char>, k: int)
    requires
        0 <= k < t.len(),
    ensures
        digits_value(t.take(k + 1)) == digits_value(t.take(k)) * 10 + digit_value(t[k]),
{
    assert(t.take(k + 1).drop_last() =~= t.take(k));
}

proof fn lemma_prefix_value_le(t: Seq<char>, i: int)
    requires
        0 <= i <= t.len(),
    ensures
        digits_value(t.take(i)) <= digits_value(t),
    decreases t.len(),
{
    if i < t.len() {
        lemma_prefix_value_le(t.drop_last(), i);
        assert(t.drop_last().take(i) =~= t.take(i));
    } else {
        assert(t.take(i) =~= t);
    }
}

proof fn lemma_eight_places(f: Seq<char>)
    ensures
        eight_places(f).len() == 8,
        forall|k: int|
            0 <= k < 8 ==> #[trigger] eight_places(f)[k] == if k < f.len() {
                f[k]
            } else {
                '0'
            },
    decreases 8 - f.len(),
{
    if f.len() < 8 {
        lemma_eight_places(f.push('0'));
    }
}

proof fn lemma_split_unique(t: Seq<char>, p: int, q: int)
    requires
        split_at(t, p),
        split_at(t, q),
    ensures
        p == q,
{
    if p < q {
        assert(is_digit(t.take(q)[p]));
    } else if q < p {
        assert(is_digit(t.take(p)[q]));
    }
}

fn nonzero_digit_in(u: &Vec<char>) -> (r: bool)
    ensures
        r == has_nonzero_digit(u@),
{
    let n = u.len();
    let mut nonzero = false;
    let mut k: usize = 0;
    while k < n
        invariant
            k <= n == u@.len(),
            nonzero <==> exists|i: int| 0 <= i < k && is_digit(#[trigger] u@[i]) && u@[i] != '0',
        decreases n - k,
    {
        if '1' <= u[k] && u[k] <= '9' {
            nonzero = true;
        }
        k = k + 1;
    }
    nonzero
}

/// Reads the characters of `u` as an unsigned amount, and tells whether a
/// digit of it is not zero.
fn amount_of_chars(u: &Vec<char>) -> (r: (Result<u64, AmountError>, bool))
    ensures
        r.0 == unsigned_amount_result(u@),
        r.1 == has_nonzero_digit(u@),
{
    let n = u.len();
    let mut p: usize = 0;
    while p < n && '0' <= u[p] && u[p] <= '9'
        invariant
            p <= n == u@.len(),
            forall|j: int| 0 <= j < p ==> is_digit(#[trigger] u@[j]),
        decreases n - p,
    {
        p = p + 1;
    }
    assert(all_digits(u@.take(p as int))) by {
        assert forall|j: int| 0 <= j < p implies #[trigger] is_digit(u@.take(p as int)[j]) by {
            assert(is_digit(u@[j]));
        }
    }
    if p < n && u[p] != '.' {
        proof {
            lemma_no_split(u@, p as int);
        }
        return (Err(AmountError::Malformed), nonzero_digit_in(u));
    }
    if p == 0 && n <= 1 {
        proof {
            lemma_no_split(u@, p as int);
        }
        return (Err(AmountError::Malformed), nonzero_digit_in(u));
    }
    if p < n {
        let mut k: usize = p + 1;
        while k < n
            invariant
                p < k <= n == u@.len(),
                all_digits(u@.take(p as int)),
                u@[p as int] == '.',
                forall|j: int| p + 1 <= j < k ==> #[trigger] is_digit(u@[j]),
            decreases n - k,
        {
            if !('0' <= u[k] && u[k] <= '9') {
                proof {
                    assert(!is_digit(u@[k as int]));
                    if exists|q: int| split_at(u@, q) {
                        let q = choose|q: int| split_at(u@, q);
                        if q < p {
                            assert(is_digit(u@.take(p as int)[q]));
                        } else if q == p {
                            assert(is_digit(u@.skip(p + 1)[k - p - 1]));
                        } else {
                            assert(is_digit(u@.take(q)[p as int]));
                        }
                    }
                }
                return (Err(AmountError::Malformed), nonzero_digit_in(u));
            }
            k = k + 1;
        }
        assert(all_digits(u@.skip(p + 1))) by {
            assert forall|j: int| 0 <= j < u@.skip(p + 1).len() implies #[trigger] is_digit(u@.skip(p + 1)[j]) by {
                assert(is_digit(u@[p + 1 + j]));
            }
        }
    }
    assert(split_at(u@, p as int));
    proof {
        let q = choose|q: int| split_at(u@, q);
        lemma_split_unique(u@, p as int, q);
    }
    let ghost ip = u@.take(p as int);
    let ghost f = fraction_text(u@);
    let mut whole: u64 = 0;
    let mut big = false;
    let mut i: usize = 0;
    while i < p
        invariant
            i <= p <= n == u@.len(),
            ip == u@.take(p as int),
            all_digits(ip),
            !big ==> whole == digits_value(u@.take(i as int)) && whole <= 21_000_000,
            big ==> digits_value(u@.take(i as int)) > 21_000_000,
        decreases p - i,
    {
        assert(is_digit(ip[i as int]));
        let d = (u[i] as u32 - 48) as u64;
        proof {
            lemma_take_push(u@, i as int);
        }
        if !big {
            let w = whole * 10 + d;
            if w > 21_000_000 {
                big = true;
            } else {
                whole = w;
            }
        }
        i = i + 1;
    }
    proof {
        assert(u@.take(p as int) =~= ip);
        lemma_prefix_value_le(ip, p as int);
        assert(ip.take(p as int) =~= ip);
        lemma_eight_places(f);
    }
    let flen: usize = if p < n { n - p - 1 } else { 0 };
    let mut frac: u64 = 0;
    let mut m: usize = 0;
    while m < 8
        invariant
            flen == f.len(),
            p <= n == u@.len(),
            flen > 0 ==> p < n,
            p < n ==> f == u@.skip(p + 1),
            p == n ==> f.len() == 0,
            all_digits(f),
            m <= 8,
            eight_places(f).len() == 8,
            forall|k: int|
                0 <= k < 8 ==> #[trigger] eight_places(f)[k] == if k < f.len() {
                    f[k]
                } else {
                    '0'
                },
            frac == digits_value(eight_places(f).take(m as int)),
            frac < 100_000_000,
            m < 8 ==> frac < 10_000_000,
        decreases 8 - m,
    {
        let d: u64 = if m < flen {
            assert(is_digit(f[m as int]));
            assert(f[m as int] == u@[p + 1 + m]);
            (u[p + 1 + m] as u32 - 48) as u64
        } else {
            0
        };
        proof {
            lemma_take_push(eight_places(f), m as int);
            assert(all_digits(eight_places(f).take(m as int + 1))) by {
                assert forall|j: int| 0 <= j < m + 1 implies #[trigger] is_digit(eight_places(f).take(m as int + 1)[j]) by {
                    if j < f.len() {
                        assert(is_digit(f[j]));
                    }
                }
            }
            lemma_digits_bound(eight_places(f).take(m as int + 1));
        }
        frac = frac * 10 + d;
        m = m + 1;
    }
    proof {
        assert(eight_places(f).take(8) =~= eight_places(f));
    }
    let mut excess = false;
    let mut e: usize = 8;
    while e < flen
        invariant
            flen == f.len(),
            p <= n == u@.len(),
            flen > 0 ==> p < n,
            p < n ==> f == u@.skip(p + 1),
            8 <= e,
            e <= flen || e == 8,
            excess <==> exists|i: int| 8 <= i < e && #[trigger] f[i] != '0',
        decreases flen - e,
    {
        assert(f[e as int] == u@[p + 1 + e]);
        if u[p + 1 + e] != '0' {
            excess = true;
        }
        e = e + 1;
    }
    if big {
        proof {
            assert(digits_value(ip) * 100_000_000 > 21_000_000 * 100_000_000) by (nonlinear_arith)
                requires
                    digits_value(ip) > 21_000_000,
            ;
        }
        return (Err(AmountError::ExceedsSupply), nonzero_digit_in(u));
    }
    assert(whole * UNITS_PER_COIN <= 21_000_000 * 100_000_000) by (nonlinear_arith)
        requires
            whole <= 21_000_000,
    ;
    let total = whole * UNITS_PER_COIN + frac;
    if total > MAX_SUPPLY || (total == MAX_SUPPLY && excess) {
        (Err(AmountError::ExceedsSupply), nonzero_digit_in(u))
    } else {
        (Ok(total), nonzero_digit_in(u))
    }
}

/// No split exists where the first non-digit at `p` is not a usable point.
proof fn lemma_no_split(t: Seq<char>, p: int)
    requires
        0 <= p <= t.len(),
        forall|j: int| 0 <= j < p ==> is_digit(#[trigger] t[j]),
        p < t.len() ==> !is_digit(t[p]),
        (p < t.len() && t[p] != '.') || (p == 0 && t.len() <= 1),
    ensures
        !is_amount_text(t),
{
    if exists|q: int| split_at(t, q) {
        let q = choose|q: int| split_at(t, q);
        if q < p {
            assert(is_digit(t[q]));
        } else if q > p {
            assert(is_digit(t.take(q)[p]));
        }
    }
}

proof fn lemma_digits_bound(t: Seq<char>)
    requires
        all_digits(t),
    ensures
        t.len() <= 7 ==> digits_value(t) < 10_000_000,
        t.len() <= 6 ==> digits_value(t) < 1_000_000,
        t.len() <= 5 ==> digits_value(t) < 100_000,
        t.len() <= 4 ==> digits_value(t) < 10_000,
        t.len() <= 3 ==> digits_value(t) < 1_000,
        t.len() <= 2 ==> digits_value(t) < 100,
        t.len() <= 1 ==> digits_value(t) < 10,
        t.len() == 0 ==> digits_value(t) == 0,
    decreases t.len(),
{
    if t.len() > 0 {
        assert(is_digit(t[t.len() - 1]));
        assert(all_digits(t.drop_last())) by {
            assert forall|i: int| 0 <= i < t.len() - 1 implies #[trigger] is_digit(t.drop_last()[i]) by {
                assert(is_digit(t[i]));
            }
        }
        lemma_digits_bound(t.drop_last());
    }
}

proof fn lemma_not_amount_at(t: Seq<char>, i: int)
    requires
        0 <= i < t.len(),
        !is_digit(t[i]),
        t[i] != '.',
    ensures
        !is_amount_text(t),
{
    if exists|p: int| split_at(t, p) {
        let p = choose|p: int| split_at(t, p);
        if i < p {
            assert(is_digit(t.take(p)[i]));
        } else if i > p {
            assert(is_digit(t.skip(p + 1)[i - p - 1]));
        }
    }
}

/// Reads a decimal amount of whole coins, such as `0.5`, `+1` or `.5`,
/// into the smallest unit; places after the eighth are dropped. Negative
/// amounts and amounts above the total supply are refused; a signed zero
/// reads as zero.
pub fn parse_btc_amount(btc_str: &str) -> (r: Result<u64, AmountError>)
    ensures
        r == parse_amount_result(btc_str@),
{
    let ghost t = btc_str@;
    if !btc_str.is_ascii() {
        proof {
            let i = choose|i: int| 0 <= i < t.len() && !('\0' <= #[trigger] t[i] <= '\u{7f}');
            lemma_not_amount_at(t, i);
            if t.len() > 0 && (t[0] == '-' || t[0] == '+') {
                lemma_not_amount_at(t.drop_first(), i - 1);
            }
        }
        return Err(AmountError::Malformed);
    }
    let bytes = btc_str.as_bytes();
    proof {
        vstd::string::is_ascii_spec_bytes(btc_str);
    }
    let n = bytes.len();
    let signed = n > 0 && (bytes[0] == 45u8 || bytes[0] == 43u8);
    let start: usize = if signed { 1 } else { 0 };
    let mut body: Vec<char> = Vec::new();
    let mut i: usize = start;
    while i < n
        invariant
            start <= i <= n == t.len(),
            bytes@ == Seq::new(t.len(), |j: int| t[j] as u8),
            is_ascii_chars(t),
            body@ == t.subrange(start as int, i as int),
        decreases n - i,
    {
        proof {
            assert('\0' <= t[i as int] <= '\u{7f}');
        }
        body.push(bytes[i] as char);
        proof {
            assert(body@ =~= t.subrange(start as int, i + 1));
        }
        i = i + 1;
    }
    let (r, nonzero) = amount_of_chars(&body);
    if signed {
        proof {
            assert('\0' <= t[0] <= '\u{7f}');
            assert(body@ =~= t.drop_first());
            lemma_not_amount_at(t, 0);
        }
        match r {
            Err(AmountError::Malformed) => Err(AmountError::Malformed),
            _ => {
                if bytes[0] == 45u8 && nonzero {
                    Err(AmountError::Negative)
                } else {
                    r
                }
            },
        }
    } else {
        proof {
            assert(body@ =~= t);
            if n > 0 {
                assert('\0' <= t[0] <= '\u{7f}');
            }
        }
        r
    }
}


spec fn ten_pow(w: nat) -> nat
    decreases w,
{
    if w == 0 {
        1
    } else {
        10 * ten_pow((w - 1) as nat)
    }
}

proof fn lemma_decimal_text(n: nat)
    ensures
        decimal_text(n).len() > 0,
        all_digits(decimal_text(n)),
        digits_value(decimal_text(n)) == n,
    decreases n,
{
    lemma_digit_roundtrip(n % 10);
    if n >= 10 {
        lemma_decimal_text(n / 10);
        let t = decimal_text(n);
        assert(t.drop_last() =~= decimal_text(n / 10));
        assert forall|i: int| 0 <= i < t.len() implies #[trigger] is_digit(t[i]) by {
            if i < t.len() - 1 {
                assert(t[i] == decimal_text(n / 10)[i]);
            }
        }
        assert(t.last() == digit_char(n % 10));
        assert(digits_value(t) == digits_value(decimal_text(n / 10)) * 10 + digit_value(t.last()));
        assert(digits_value(t) == (n / 10) * 10 + n % 10);
    } else {
        let t = decimal_text(n);
        assert(t.drop_last() =~= Seq::<char>::empty());
        assert(n % 10 == n);
        assert(digits_value(t) == digits_value(t.drop_last()) * 10 + digit_value(t.last()));
        assert(digits_value(t.drop_last()) == 0);
    }
}

proof fn lemma_padded_text(n: nat, w: nat)
    requires
        n < ten_pow(w),
    ensures
        padded_text(n, w).len() == w,
        all_digits(padded_text(n, w)),
        digits_value(padded_text(n, w)) == n,
    decreases w,
{
    if w > 0 {
        assert(n / 10 < ten_pow((w - 1) as nat));
        lemma_padded_text(n / 10, (w - 1) as nat);
        lemma_digit_roundtrip(n % 10);
        let t = padded_text(n, w);
        assert(t.drop_last() =~= padded_text(n / 10, (w - 1) as nat));
        assert forall|i: int| 0 <= i < t.len() implies #[trigger] is_digit(t[i]) by {
            if i < t.len() - 1 {
                assert(t[i] == padded_text(n / 10, (w - 1) as nat)[i]);
            }
        }
    }
}

/// Writing an amount within the supply as whole coins and reading that text
/// back gives the same amount in the smallest unit.
pub proof fn lemma_amount_text_round_trip(n: u64)
    requires
        within_supply_cap(n as int),
    ensures
        parse_amount_result(coin_text(n as nat)) == Ok::<u64, AmountError>(n),
{
    let w = n as nat / 100_000_000;
    let f = n as nat % 100_000_000;
    let d = decimal_text(w);
    let q = padded_text(f, 8);
    let t = coin_text(n as nat);
    lemma_decimal_text(w);
    assert(ten_pow(8) == 100_000_000) by {
        assert(ten_pow(0) == 1);
        assert(ten_pow(1) == 10);
        assert(ten_pow(2) == 100);
        assert(ten_pow(3) == 1_000);
        assert(ten_pow(4) == 10_000);
        assert(ten_pow(5) == 100_000);
        assert(ten_pow(6) == 1_000_000);
        assert(ten_pow(7) == 10_000_000);
    }
    lemma_padded_text(f, 8);
    let p = d.len() as int;
    assert(t.take(p) =~= d);
    assert(t.skip(p + 1) =~= q);
    assert(t[p] == '.');
    assert(split_at(t, p));
    let c = choose|c: int| split_at(t, c);
    lemma_split_unique(t, p, c);
    assert(fraction_text(t) == q);
    assert(eight_places(q) =~= q);
    assert(amount_value(t) == w * 100_000_000 + f);
    assert(!has_excess_places(t));
    assert(t[0] == d[0]);
    assert(is_digit(d[0]));
}


} // verus!
