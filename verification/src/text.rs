//! Character-level text handling: digit strings, trimming, affixes and splitting.
use vstd::prelude::*;

verus! {

// ───────────────────────── digits ─────────────────────────

/// The value of `c` as a digit in any radix up to 36 (`0-9`, then `a-z`
/// or `A-Z` for 10 to 35), or -1 when `c` is no digit at all.
pub open spec fn digit_value(c: char) -> int {
    if '0' <= c && c <= '9' {
        c as int - '0' as int
    } else if 'a' <= c && c <= 'z' {
        c as int - 'a' as int + 10
    } else if 'A' <= c && c <= 'Z' {
        c as int - 'A' as int + 10
    } else {
        -1
    }
}

pub open spec fn is_digit_in(c: char, radix: nat) -> bool {
    0 <= digit_value(c) < radix
}

pub open spec fn all_digits(s: Seq<char>, radix: nat) -> bool {
    forall|i: int| 0 <= i < s.len() ==> is_digit_in(#[trigger] s[i], radix)
}

/// The number that the digit string `s` writes in base `radix`.
pub open spec fn digits_value(s: Seq<char>, radix: nat) -> nat
    decreases s.len(),
{
    if s.len() == 0 {
        0
    } else {
        digits_value(s.drop_last(), radix) * radix + digit_value(s.last()) as nat
    }
}

/// The digits of an unsigned number as written: one leading `+` is allowed.
pub open spec fn unsigned_digits(s: Seq<char>) -> Seq<char> {
    if s.len() > 0 && s[0] == '+' {
        s.drop_first()
    } else {
        s
    }
}

/// How an unsigned integer type of largest value `max` reads `s` in base
/// `radix`: an optional `+`, then at least one digit, and no overflow.
pub open spec fn spec_parse_unsigned(s: Seq<char>, radix: nat, max: nat) -> Option<nat> {
    let d = unsigned_digits(s);
    if d.len() > 0 && all_digits(d, radix) && digits_value(d, radix) <= max {
        Some(digits_value(d, radix))
    } else {
        None
    }
}

/// Appending digits never makes a number smaller.
pub proof fn lemma_digits_value_prefix(s: Seq<char>, radix: nat, k: int)
    requires
        0 <= k <= s.len(),
        radix >= 1,
        all_digits(s, radix),
    ensures
        digits_value(s.take(k), radix) <= digits_value(s, radix),
    decreases s.len() - k,
{
    if k < s.len() {
        lemma_digits_value_prefix(s, radix, k + 1);
        let t = s.take(k + 1);
        assert(t.drop_last() =~= s.take(k));
        assert(is_digit_in(s[k], radix));
        let a = digits_value(s.take(k), radix);
        assert(a * radix >= a) by (nonlinear_arith)
            requires
                radix >= 1,
        ;
    } else {
        assert(s.take(k) =~= s);
    }
}

pub open spec fn spec_char_at_digit(d: nat) -> char {
    if d == 0 { '0' }
    else if d == 1 { '1' }
    else if d == 2 { '2' }
    else if d == 3 { '3' }
    else if d == 4 { '4' }
    else if d == 5 { '5' }
    else if d == 6 { '6' }
    else if d == 7 { '7' }
    else if d == 8 { '8' }
    else { '9' }
}

/// The decimal notation of `n`, without leading zeros (`0` is "0").
pub open spec fn spec_decimal(n: nat) -> Seq<char>
    decreases n,
{
    if n < 10 {
        seq![spec_char_at_digit(n)]
    } else {
        spec_decimal(n / 10) + seq![spec_char_at_digit(n % 10)]
    }
}

/// The last `width` decimal digits of `n`, zero-padded on the left.
pub open spec fn spec_fixed_digits(n: nat, width: nat) -> Seq<char>
    decreases width,
{
    if width == 0 {
        Seq::empty()
    } else {
        spec_fixed_digits(n / 10, (width - 1) as nat) + seq![spec_char_at_digit(n % 10)]
    }
}

fn char_at_digit(d: u8) -> (c: char)
    requires
        d < 10,
    ensures
        c == spec_char_at_digit(d as nat),
{
    if d == 0 { '0' }
    else if d == 1 { '1' }
    else if d == 2 { '2' }
    else if d == 3 { '3' }
    else if d == 4 { '4' }
    else if d == 5 { '5' }
    else if d == 6 { '6' }
    else if d == 7 { '7' }
    else if d == 8 { '8' }
    else { '9' }
}

/// `String::push` of std: appends one character.
#[verifier::external_body]
fn push_char(s: &mut String, c: char)
    ensures
        final(s)@ == old(s)@.push(c),
{
    s.push(c)
}

/// A string holding the characters of `v` in order.
pub fn string_from_chars(v: &Vec<char>) -> (r: String)
    ensures
        r@ == v@,
{
    let mut r = String::new();
    let mut i: usize = 0;
    while i < v.len()
        invariant
            i <= v.len(),
            r@ == v@.take(i as int),
        decreases v.len() - i,
    {
        push_char(&mut r, v[i]);
        assert(v@.take(i + 1) =~= v@.take(i as int).push(v@[i as int]));
        i = i + 1;
    }
    assert(v@.take(v.len() as int) =~= v@);
    r
}

/// The characters of `s` in order.
pub fn chars_of(s: &str) -> (r: Vec<char>)
    ensures
        r@ == s@,
{
    let n = s.unicode_len();
    let mut r: Vec<char> = Vec::new();
    let mut i: usize = 0;
    while i < n
        invariant
            n == s@.len(),
            i <= n,
            r@ == s@.take(i as int),
        decreases n - i,
    {
        r.push(s.get_char(i));
        assert(s@.take(i + 1) =~= s@.take(i as int).push(s@[i as int]));
        i = i + 1;
    }
    assert(s@.take(n as int) =~= s@);
    r
}

/// The last `width` decimal digits of `n`, zero-padded on the left.
pub fn fixed_digits(n: u128, width: u32) -> (r: String)
    ensures
        r@ == spec_fixed_digits(n as nat, width as nat),
{
    // digits collected from the least significant one
    let mut rev: Vec<char> = Vec::new();
    let mut m: u128 = n;
    let mut k: u32 = 0;
    assert(pow10(0) == 1);
    while k < width
        invariant
            k <= width,
            rev@.len() == k,
            m as nat == n as nat / pow10(k as nat),
            forall|j: int|
                0 <= j < k ==> #[trigger] rev@[j] == spec_char_at_digit(
                    (n as nat / pow10(j as nat)) % 10,
                ),
        decreases width - k,
    {
        proof {
            lemma_pow10_step(k as nat);
            lemma_div_div10(n as nat, pow10(k as nat));
        }
        rev.push(char_at_digit((m % 10) as u8));
        m = m / 10;
        k = k + 1;
    }
    let mut out: Vec<char> = Vec::new();
    let mut i: u32 = width;
    while i > 0
        invariant
            i <= width,
            rev@.len() == width,
            out@ =~= spec_fixed_digits(n as nat / pow10(i as nat), (width - i) as nat),
            forall|j: int|
                0 <= j < width ==> #[trigger] rev@[j] == spec_char_at_digit(
                    (n as nat / pow10(j as nat)) % 10,
                ),
        decreases i,
    {
        proof {
            lemma_pow10_step((i - 1) as nat);
            lemma_div_div10(n as nat, pow10((i - 1) as nat));
            lemma_fixed_digits_unfold(
                n as nat / pow10((i - 1) as nat),
                (width - i) as nat,
            );
        }
        out.push(rev[(i - 1) as usize]);
        i = i - 1;
    }
    assert(pow10(0) == 1);
    assert(n as nat / pow10(0) == n as nat);
    string_from_chars(&out)
}

/// `10^e`.
pub open spec fn pow10(e: nat) -> nat
    decreases e,
{
    if e == 0 {
        1
    } else {
        10 * pow10((e - 1) as nat)
    }
}

pub proof fn lemma_pow10_step(e: nat)
    ensures
        pow10(e + 1) == 10 * pow10(e),
        pow10(e) >= 1,
    decreases e,
{
    if e > 0 {
        lemma_pow10_step((e - 1) as nat);
    }
}

pub proof fn lemma_pow10_add(a: nat, b: nat)
    ensures
        pow10(a + b) == pow10(a) * pow10(b),
    decreases b,
{
    if b > 0 {
        let b1 = (b - 1) as nat;
        let e = (a + b1) as nat;
        lemma_pow10_add(a, b1);
        lemma_pow10_step(e);
        lemma_pow10_step(b1);
        assert(e + 1 == a + b);
        let x = pow10(a);
        let y = pow10(b1);
        assert(pow10(e) == x * y);
        assert(pow10(a + b) == 10 * (x * y));
        assert(pow10(b) == 10 * y);
        assert(x * (10 * y) == 10 * (x * y)) by (nonlinear_arith);
    } else {
        assert(pow10(0) == 1);
        assert(a + b == a);
    }
}

pub proof fn lemma_div_div10(n: nat, p: nat)
    requires
        p >= 1,
    ensures
        n / (10 * p) == (n / p) / 10,
{
    assert(n / (10 * p) == (n / p) / 10) by {
        vstd::arithmetic::div_mod::lemma_div_denominator(n as int, p as int, 10);
    }
}

proof fn lemma_fixed_digits_unfold(m: nat, w: nat)
    ensures
        spec_fixed_digits(m, w + 1) == spec_fixed_digits(m / 10, w) + seq![
            spec_char_at_digit(m % 10),
        ],
{
    assert(spec_fixed_digits(m / 10, w) + seq![spec_char_at_digit(m % 10)] =~= spec_fixed_digits(
        m,
        w + 1,
    ));
}

/// Exactly `pow10(e)` for the exponents that fit a `u128`.
pub fn pow10_u128(e: u32) -> (r: u128)
    requires
        e <= 38,
    ensures
        r as nat == pow10(e as nat),
{
    let mut r: u128 = 1;
    let mut k: u32 = 0;
    while k < e
        invariant
            k <= e <= 38,
            r as nat == pow10(k as nat),
        decreases e - k,
    {
        proof {
            lemma_pow10_step(k as nat);
            lemma_pow10_monotone((k + 1) as nat, 38);
            lemma_pow10_38();
        }
        r = r * 10;
        k = k + 1;
    }
    r
}

proof fn lemma_pow10_38()
    ensures
        pow10(38) == 100000000000000000000000000000000000000,
{
    reveal_with_fuel(pow10, 39);
}

pub proof fn lemma_pow10_monotone(a: nat, b: nat)
    requires
        a <= b,
    ensures
        pow10(a) <= pow10(b),
    decreases b,
{
    if a < b {
        lemma_pow10_monotone(a, (b - 1) as nat);
        lemma_pow10_step((b - 1) as nat);
    }
}

/// The decimal notation of `n`.
pub fn decimal_string(n: u128) -> (r: String)
    ensures
        r@ == spec_decimal(n as nat),
{
    let mut rev: Vec<char> = Vec::new();
    let mut m: u128 = n;
    // `rev` holds the digits below the current one, least significant first.
    let ghost mut count: nat = 0;
    assert(pow10(0) == 1);
    loop
        invariant_except_break
            count == 0 || m > 0,
        invariant
            rev@.len() == count,
            m as nat == n as nat / pow10(count),
            forall|j: int|
                0 <= j < count ==> #[trigger] rev@[j] == spec_char_at_digit(
                    (n as nat / pow10(j as nat)) % 10,
                ),
        ensures
            m == 0,
            count >= 1,
            count == 1 || n as nat / pow10((count - 1) as nat) > 0,
        decreases m,
    {
        proof {
            lemma_pow10_step(count);
            lemma_div_div10(n as nat, pow10(count));
        }
        let ghost m_old = m;
        let ghost count_old = count;
        rev.push(char_at_digit((m % 10) as u8));
        m = m / 10;
        proof {
            count = count + 1;
            assert(count_old == (count - 1) as nat);
        }
        if m == 0 {
            break;
        }
    }
    // n has exactly `count` digits: n / 10^(count-1) is its leading digit
    let mut out: Vec<char> = Vec::new();
    let mut i: usize = rev.len();
    proof {
        lemma_decimal_is_fixed(n as nat, count);
    }
    while i > 0
        invariant
            i <= rev@.len(),
            rev@.len() == count,
            count >= 1,
            n as nat / pow10(count) == 0,
            n as nat / pow10((count - 1) as nat) > 0 || count == 1,
            out@ =~= spec_fixed_digits(n as nat / pow10(i as nat), (count - i) as nat),
            forall|j: int|
                0 <= j < count ==> #[trigger] rev@[j] == spec_char_at_digit(
                    (n as nat / pow10(j as nat)) % 10,
                ),
        decreases i,
    {
        proof {
            lemma_pow10_step((i - 1) as nat);
            lemma_div_div10(n as nat, pow10((i - 1) as nat));
            lemma_fixed_digits_unfold(n as nat / pow10((i - 1) as nat), (count - i) as nat);
        }
        out.push(rev[i - 1]);
        i = i - 1;
    }
    assert(n as nat / pow10(0) == n as nat);
    proof {
        lemma_decimal_is_fixed(n as nat, count);
    }
    string_from_chars(&out)
}

/// A number below `10^w` but not below `10^(w-1)` (or zero, for `w` = 1) is
/// written with exactly `w` digits.
proof fn lemma_decimal_is_fixed(n: nat, w: nat)
    requires
        w >= 1,
        n / pow10(w) == 0,
        n / pow10((w - 1) as nat) > 0 || w == 1,
    ensures
        spec_decimal(n) == spec_fixed_digits(n, w),
    decreases w,
{
    lemma_pow10_step((w - 1) as nat);
    if w == 1 {
        assert(n < 10) by {
            vstd::arithmetic::div_mod::lemma_div_is_ordered_by_denominator(n as int, 1, 10);
            assert(n / pow10(1) == n / 10);
        }
        assert(spec_fixed_digits(n / 10, 0) =~= Seq::empty());
        assert(spec_fixed_digits(n, 1) =~= seq![spec_char_at_digit(n % 10)]);
    } else {
        let p = pow10((w - 2) as nat);
        lemma_pow10_step((w - 2) as nat);
        assert(p >= 1);
        assert(pow10((w - 1) as nat) == 10 * p);
        assert(pow10(w) == 10 * (10 * p));
        lemma_div_div10(n, p);
        lemma_div_div10(n, 10 * p);
        assert((n / 10) / pow10((w - 1) as nat) == 0) by {
            lemma_div_div10(n, pow10((w - 1) as nat));
            vstd::arithmetic::div_mod::lemma_div_denominator(n as int, 10, pow10((w - 1) as nat) as int);
            vstd::arithmetic::mul::lemma_mul_is_commutative(10, pow10((w - 1) as nat) as int);
        }
        assert((n / 10) / pow10((w - 2) as nat) > 0) by {
            vstd::arithmetic::div_mod::lemma_div_denominator(n as int, 10, p as int);
        }
        lemma_decimal_is_fixed(n / 10, (w - 1) as nat);
        assert(n >= 10) by {
            if n < 10 {
                vstd::arithmetic::div_mod::lemma_div_is_ordered(n as int, 9, (10 * p) as int);
                vstd::arithmetic::div_mod::lemma_basic_div(9, (10 * p) as int);
            }
        }
    }
}

/// `spec_fixed_digits` writes exactly `width` digits.
pub proof fn law_fixed_digits_width(n: nat, width: nat)
    ensures
        spec_fixed_digits(n, width).len() == width,
    decreases width,
{
    if width > 0 {
        law_fixed_digits_width(n / 10, (width - 1) as nat);
    }
}

proof fn lemma_digit_round_trip(d: nat)
    requires
        d < 10,
    ensures
        digit_value(spec_char_at_digit(d)) == d,
        is_digit_in(spec_char_at_digit(d), 10),
{
}

/// The decimal notation of a number reads back as that number.
pub proof fn law_decimal_parses_back(n: nat)
    ensures
        spec_decimal(n).len() > 0,
        all_digits(spec_decimal(n), 10),
        digits_value(spec_decimal(n), 10) == n,
        spec_parse_unsigned(spec_decimal(n), 10, n) == Some(n),
    decreases n,
{
    if n < 10 {
        lemma_digit_round_trip(n);
        assert(spec_decimal(n).drop_last() =~= Seq::<char>::empty());
        assert(spec_decimal(n).last() == spec_char_at_digit(n));
        assert(digits_value(Seq::<char>::empty(), 10) == 0);
    } else {
        law_decimal_parses_back(n / 10);
        lemma_digit_round_trip(n % 10);
        let s = spec_decimal(n);
        assert(s.drop_last() =~= spec_decimal(n / 10));
        assert(s.last() == spec_char_at_digit(n % 10));
        assert(n == (n / 10) * 10 + n % 10);
        assert forall|i: int| 0 <= i < s.len() implies is_digit_in(#[trigger] s[i], 10) by {
            if i < s.len() - 1 {
                assert(s[i] == spec_decimal(n / 10)[i]);
            }
        }
    }
    let s = spec_decimal(n);
    assert(s[0] != '+') by {
        assert(is_digit_in(s[0], 10));
    }
    assert(unsigned_digits(s) == s);
}

// ───────────────────────── parsing ─────────────────────────

/// How an unsigned integer type whose largest value is `max` reads `s` in
/// base `radix` (std's `from_str_radix`): `None` for an empty string, a
/// character that is no digit in that base, or a value above `max`.
pub fn parse_unsigned(s: &str, radix: u32, max: u128) -> (r: Option<u128>)
    requires
        2 <= radix <= 36,
    ensures
        r matches Some(v) ==> spec_parse_unsigned(s@, radix as nat, max as nat) == Some(v as nat),
        r is None ==> spec_parse_unsigned(s@, radix as nat, max as nat) is None,
{
    let chars = chars_of(s);
    let start: usize = if chars.len() > 0 && chars[0] == '+' { 1 } else { 0 };
    let ghost d = unsigned_digits(s@);
    assert(d =~= chars@.skip(start as int));
    if start == chars.len() {
        return None;
    }
    let mut acc: u128 = 0;
    let mut i: usize = start;
    while i < chars.len()
        invariant
            start <= i <= chars.len(),
            2 <= radix <= 36,
            d == unsigned_digits(s@),
            chars@ == s@,
            d =~= chars@.skip(start as int),
            all_digits(d.take(i - start), radix as nat),
            acc as nat == digits_value(d.take(i - start), radix as nat),
            acc <= max,
        decreases chars.len() - i,
    {
        let c = chars[i];
        let ghost k = (i - start) as int;
        assert(d[k] == c);
        let dv: u32 = if '0' <= c && c <= '9' {
            (c as u32) - ('0' as u32)
        } else if 'a' <= c && c <= 'z' {
            (c as u32) - ('a' as u32) + 10
        } else if 'A' <= c && c <= 'Z' {
            (c as u32) - ('A' as u32) + 10
        } else {
            radix
        };
        assert(dv as int == digit_value(c) || (digit_value(c) == -1 && dv == radix));
        if dv >= radix {
            assert(!is_digit_in(d[k], radix as nat));
            return None;
        }
        assert(d.take(k + 1).drop_last() =~= d.take(k));
        assert(all_digits(d.take(k + 1), radix as nat)) by {
            assert forall|j: int| 0 <= j < k + 1 implies is_digit_in(
                #[trigger] d.take(k + 1)[j],
                radix as nat,
            ) by {
                if j < k {
                    assert(d.take(k + 1)[j] == d.take(k)[j]);
                }
            }
        }
        let next = match acc.checked_mul(radix as u128) {
            Some(p) => p.checked_add(dv as u128),
            None => None,
        };
        match next {
            Some(v) if v <= max => {
                acc = v;
            },
            _ => {
                // every longer digit string is at least as large
                proof {
                    if all_digits(d, radix as nat) {
                        lemma_digits_value_prefix(d, radix as nat, k + 1);
                    }
                }
                return None;
            },
        }
        i = i + 1;
    }
    assert(d.take(i - start) =~= d);
    Some(acc)
}

// ───────────────────────── prefixes and trimming ─────────────────────────

/// `s` with every leading `0x` removed (std's `trim_start_matches("0x")`).
pub open spec fn spec_strip_0x(s: Seq<char>) -> Seq<char>
    decreases s.len(),
{
    if s.len() >= 2 && s[0] == '0' && s[1] == 'x' {
        spec_strip_0x(s.skip(2))
    } else {
        s
    }
}

/// Removes every leading `0x` from `s`.
pub fn strip_0x(s: &str) -> (r: &str)
    ensures
        r@ == spec_strip_0x(s@),
{
    let chars = chars_of(s);
    let n = chars.len();
    let mut i: usize = 0;
    assert(s@.skip(0) =~= s@);
    while n >= 2 && i <= n - 2 && chars[i] == '0' && chars[i + 1] == 'x'
        invariant
            i <= n,
            n == s@.len(),
            chars@ == s@,
            spec_strip_0x(s@) == spec_strip_0x(s@.skip(i as int)),
        decreases n - i,
    {
        assert(s@.skip(i as int).skip(2) =~= s@.skip(i + 2));
        i = i + 2;
    }
    s.substring_char(i, n)
}

/// Unicode's White_Space property, as std's `char::is_whitespace` uses it.
pub open spec fn is_whitespace(c: char) -> bool {
    ('\u{9}' <= c && c <= '\u{d}') || c == ' ' || c == '\u{85}' || c == '\u{a0}' || c
        == '\u{1680}' || ('\u{2000}' <= c && c <= '\u{200a}') || c == '\u{2028}' || c
        == '\u{2029}' || c == '\u{202f}' || c == '\u{205f}' || c == '\u{3000}'
}

fn is_whitespace_char(c: char) -> (r: bool)
    ensures
        r == is_whitespace(c),
{
    ('\u{9}' <= c && c <= '\u{d}') || c == ' ' || c == '\u{85}' || c == '\u{a0}' || c
        == '\u{1680}' || ('\u{2000}' <= c && c <= '\u{200a}') || c == '\u{2028}' || c
        == '\u{2029}' || c == '\u{202f}' || c == '\u{205f}' || c == '\u{3000}'
}

pub open spec fn spec_trim_start(s: Seq<char>) -> Seq<char>
    decreases s.len(),
{
    if s.len() > 0 && is_whitespace(s[0]) {
        spec_trim_start(s.drop_first())
    } else {
        s
    }
}

pub open spec fn spec_trim_end(s: Seq<char>) -> Seq<char>
    decreases s.len(),
{
    if s.len() > 0 && is_whitespace(s.last()) {
        spec_trim_end(s.drop_last())
    } else {
        s
    }
}

/// `s` without leading and trailing whitespace (std's `str::trim`).
pub open spec fn spec_trim(s: Seq<char>) -> Seq<char> {
    spec_trim_end(spec_trim_start(s))
}

/// Text without whitespace at either end is its own trimmed form.
pub proof fn lemma_trim_unchanged(s: Seq<char>)
    ensures
        s.len() == 0 || (!is_whitespace(s[0]) && !is_whitespace(s.last())) ==> spec_trim(s) == s,
{
}

/// Removes leading and trailing whitespace.
pub fn trim(s: &str) -> (r: String)
    ensures
        r@ == spec_trim(s@),
{
    let chars = chars_of(s);
    let n = chars.len();
    let mut a: usize = 0;
    assert(s@.skip(0) =~= s@);
    while a < n && is_whitespace_char(chars[a])
        invariant
            a <= n,
            n == s@.len(),
            chars@ == s@,
            spec_trim_start(s@) == spec_trim_start(s@.skip(a as int)),
        decreases n - a,
    {
        assert(s@.skip(a as int).drop_first() =~= s@.skip(a + 1));
        a = a + 1;
    }
    let ghost t = s@.skip(a as int);
    assert(spec_trim_start(t) == t);
    let mut b: usize = n;
    assert(t.take(b - a) =~= t);
    while b > a && is_whitespace_char(chars[b - 1])
        invariant
            a <= b <= n,
            n == s@.len(),
            chars@ == s@,
            t == s@.skip(a as int),
            spec_trim_end(t) == spec_trim_end(t.take(b - a)),
        decreases b,
    {
        assert(t.take(b - a).drop_last() =~= t.take(b - 1 - a));
        assert(t.take(b - a).last() == chars@[b - 1]);
        b = b - 1;
    }
    assert(s@.subrange(a as int, b as int) =~= t.take(b - a));
    String::from_str(s.substring_char(a, b))
}

// ───────────────────────── affixes and pieces ─────────────────────────

pub open spec fn spec_ends_with(s: Seq<char>, suffix: Seq<char>) -> bool {
    suffix.len() <= s.len() && s.subrange(s.len() - suffix.len(), s.len() as int) == suffix
}

/// Whether `s` ends with `suffix`.
pub fn ends_with(s: &str, suffix: &str) -> (r: bool)
    ensures
        r == spec_ends_with(s@, suffix@),
{
    let n = s.unicode_len();
    let m = suffix.unicode_len();
    if m > n {
        return false;
    }
    let mut i: usize = 0;
    while i < m
        invariant
            n == s@.len(),
            m == suffix@.len(),
            m <= n,
            i <= m,
            forall|j: int| 0 <= j < i ==> s@[n - m + j] == suffix@[j],
        decreases m - i,
    {
        if s.get_char(n - m + i) != suffix.get_char(i) {
            assert(s@.subrange(n - m, n as int)[i as int] != suffix@[i as int]);
            return false;
        }
        i = i + 1;
    }
    assert(s@.subrange(n - m, n as int) =~= suffix@);
    true
}

/// The index of the first `::` in `s` at or after index `i`, if any.
pub open spec fn spec_find_colons(s: Seq<char>, i: int) -> Option<int>
    decreases s.len() - i,
{
    if i < 0 || i + 1 >= s.len() {
        None
    } else if s[i] == ':' && s[i + 1] == ':' {
        Some(i)
    } else {
        spec_find_colons(s, i + 1)
    }
}

/// The pieces of `s` between the occurrences of `::`, read left to right
/// (std's `str::split("::")`).
pub open spec fn spec_split_colons(s: Seq<char>) -> Seq<Seq<char>>
    decreases s.len(),
{
    match spec_find_colons(s, 0) {
        Some(k) => if 0 <= k && k + 2 <= s.len() {
            seq![s.take(k)] + spec_split_colons(s.skip(k + 2))
        } else {
            Seq::empty()
        },
        None => seq![s],
    }
}

proof fn lemma_find_colons_range(s: Seq<char>, i: int)
    ensures
        spec_find_colons(s, i) matches Some(k) ==> i <= k && k + 2 <= s.len() && s[k] == ':'
            && s[k + 1] == ':',
    decreases s.len() - i,
{
    if !(i < 0 || i + 1 >= s.len()) && !(s[i] == ':' && s[i + 1] == ':') {
        lemma_find_colons_range(s, i + 1);
    }
}

/// Splits `s` at every `::`.
pub fn split_colons(s: &str) -> (r: Vec<String>)
    ensures
        r@.len() == spec_split_colons(s@).len(),
        forall|i: int| 0 <= i < r@.len() ==> #[trigger] r@[i]@ == spec_split_colons(s@)[i],
{
    let chars = chars_of(s);
    let n = chars.len();
    let mut r: Vec<String> = Vec::new();
    let mut start: usize = 0;
    let mut j: usize = 0;
    let ghost mut done: Seq<Seq<char>> = Seq::empty();
    assert(s@.skip(0) =~= s@);
    while n > 0 && j < n - 1
        invariant
            start <= j <= n,
            n == s@.len(),
            chars@ == s@,
            r@.len() == done.len(),
            forall|i: int| 0 <= i < r@.len() ==> #[trigger] r@[i]@ == done[i],
            spec_split_colons(s@) == done + spec_split_colons(s@.skip(start as int)),
            spec_find_colons(s@.skip(start as int), 0) == spec_find_colons(
                s@.skip(start as int),
                j - start,
            ),
        decreases n - j,
    {
        let ghost t = s@.skip(start as int);
        if chars[j] == ':' && chars[j + 1] == ':' {
            proof {
                assert(t[j - start] == ':' && t[j - start + 1] == ':');
                assert(spec_find_colons(t, j - start) == Some(j - start));
                assert(t.take(j - start) =~= s@.subrange(start as int, j as int));
                assert(t.skip(j - start + 2) =~= s@.skip(j + 2));
                done = done.push(s@.subrange(start as int, j as int));
                assert(spec_split_colons(s@) =~= done + spec_split_colons(s@.skip(j + 2)));
                assert(s@.skip(j + 2).skip(0) =~= s@.skip(j + 2));
            }
            r.push(String::from_str(s.substring_char(start, j)));
            start = j + 2;
            j = j + 2;
        } else {
            proof {
                assert(t[j - start] == chars@[j as int]);
            }
            j = j + 1;
        }
    }
    proof {
        let t = s@.skip(start as int);
        assert(spec_find_colons(t, j - start) is None);
        assert(spec_split_colons(t) == seq![t]);
        assert(t =~= s@.subrange(start as int, n as int));
        done = done.push(t);
    }
    r.push(String::from_str(s.substring_char(start, n)));
    assert(spec_split_colons(s@) =~= done);
    r
}

} // verus!
