//! Kubernetes quantity notation: formatting CPU and memory values and
//! parsing quantity strings back into comparable numbers.
//!
//! CPU values are carried in microcores (one core is 1_000_000 microcores),
//! memory values in bytes. Parsed quantities are scaled by 1000 so that up
//! to three fraction digits survive as integers: `"250m"` parses to 250_000
//! and `"1.5"` (cores) to 1_500_000.

use vstd::prelude::*;
use crate::strutil::{dec_char, decimal_digits, push_char, str_eq, u64_to_string};

verus! {

pub const MICRO_PER_CORE: u64 = 1000000;
pub const MIB: u64 = 1048576;
pub const GIB: u64 = 1073741824;

/// Ceiling division on naturals, `b > 0`.
pub open spec fn ceil_div(a: nat, b: nat) -> nat
    recommends
        b > 0,
{
    (((a + b - 1) as int) / (b as int)) as nat
}

/// Division rounded half up, `b > 0`.
pub open spec fn round_div(a: nat, b: nat) -> nat
    recommends
        b > 0,
{
    (((a + b / 2) as int) / (b as int)) as nat
}

/// Exactly two decimal digits for `d < 100`, leading zero kept.
pub open spec fn two_digits(d: nat) -> Seq<char> {
    seq![dec_char(d / 10), dec_char(d % 10)]
}

/// Exactly three decimal digits for `d < 1000`, leading zeros kept.
pub open spec fn three_digits(d: nat) -> Seq<char> {
    seq![dec_char(d / 100), dec_char((d / 10) % 10), dec_char(d % 10)]
}

/// The quantity string for a CPU value of `uc` microcores: below one
/// millicore the floor `"1m"`; below one core whole millicores rounded up
/// with an `m` suffix; from one core on, cores with two decimals (rounded
/// half up) and no suffix.
pub open spec fn cpu_quantity(uc: nat) -> Seq<char> {
    if uc < 1000 {
        seq!['1', 'm']
    } else if uc < 1000000 {
        decimal_digits(ceil_div(uc, 1000)) + seq!['m']
    } else {
        let c = round_div(uc, 10000);
        decimal_digits(c / 100) + seq!['.'] + two_digits(c % 100)
    }
}

/// The quantity string for a memory value of `b` bytes: below one MiB the
/// floor `"1Mi"`; below one GiB whole MiB rounded up with an `Mi` suffix;
/// from one GiB on, GiB with two decimals (rounded half up) and a `Gi`
/// suffix.
pub open spec fn memory_quantity(b: nat) -> Seq<char> {
    if b < MIB {
        seq!['1', 'M', 'i']
    } else if b < GIB {
        decimal_digits(ceil_div(b, MIB as nat)) + seq!['M', 'i']
    } else {
        let c = round_div(100 * b, GIB as nat);
        decimal_digits(c / 100) + seq!['.'] + two_digits(c % 100) + seq!['G', 'i']
    }
}

/// A CPU value of `uc` microcores written as cores with three decimals
/// (rounded half up), as the rationale text shows it.
pub open spec fn cpu_cores_3dp(uc: nat) -> Seq<char> {
    let m = round_div(uc, 1000);
    decimal_digits(m / 1000) + seq!['.'] + three_digits(m % 1000)
}

/// A memory value of `b` bytes written as whole MiB (rounded half up), as
/// the rationale text shows it.
pub open spec fn mem_mib_whole(b: nat) -> Seq<char> {
    decimal_digits(round_div(b, MIB as nat))
}

fn append_two_digits(s: &mut String, d: u64)
    requires
        d < 100,
    ensures
        final(s)@ == old(s)@ + two_digits(d as nat),
{
    let hi = d / 10;
    let lo = d % 10;
    push_char(s, crate::strutil::dec_char_exec(hi));
    push_char(s, crate::strutil::dec_char_exec(lo));
    proof {
        assert(s@ =~= old(s)@ + two_digits(d as nat));
    }
}

fn append_three_digits(s: &mut String, d: u64)
    requires
        d < 1000,
    ensures
        final(s)@ == old(s)@ + three_digits(d as nat),
{
    push_char(s, crate::strutil::dec_char_exec(d / 100));
    push_char(s, crate::strutil::dec_char_exec((d / 10) % 10));
    push_char(s, crate::strutil::dec_char_exec(d % 10));
    proof {
        assert(s@ =~= old(s)@ + three_digits(d as nat));
    }
}

/// Formats a CPU value in microcores as cores with three decimals, the way
/// the rationale text shows it.
pub fn format_cpu_cores_3dp(uc: u64) -> (r: String)
    ensures
        r@ == cpu_cores_3dp(uc as nat),
{
    let wide: u128 = (uc as u128 + 500) / 1000;
    assert(wide <= u64::MAX as u128) by (nonlinear_arith)
        requires wide == (uc as u128 + 500) / 1000, uc <= u64::MAX;
    let m = wide as u64;
    assert(m as nat == round_div(uc as nat, 1000));
    let mut s = u64_to_string(m / 1000);
    push_char(&mut s, '.');
    append_three_digits(&mut s, m % 1000);
    proof {
        assert(s@ =~= cpu_cores_3dp(uc as nat));
    }
    s
}

/// Formats a memory value in bytes as whole MiB rounded half up, the way
/// the rationale text shows it.
pub fn format_mem_mib_whole(bytes: u64) -> (r: String)
    ensures
        r@ == mem_mib_whole(bytes as nat),
{
    let wide: u128 = (bytes as u128 + (MIB as u128) / 2) / (MIB as u128);
    assert(wide <= u64::MAX as u128) by (nonlinear_arith)
        requires
            wide as int == ((bytes as int) + ((MIB as int) / 2)) / (MIB as int),
            bytes <= u64::MAX;
    let m = wide as u64;
    assert(m as nat == round_div(bytes as nat, MIB as nat));
    u64_to_string(m)
}

/// Formats a CPU value in microcores as a quantity string.
pub fn format_cpu_value(uc: u64) -> (r: String)
    ensures
        r@ == cpu_quantity(uc as nat),
{
    if uc < 1000 {
        let mut s = String::new();
        push_char(&mut s, '1');
        push_char(&mut s, 'm');
        proof {
            assert(s@ =~= cpu_quantity(uc as nat));
        }
        s
    } else if uc < 1000000 {
        let mc = (uc + 999) / 1000;
        assert(mc as nat == ceil_div(uc as nat, 1000));
        let mut s = u64_to_string(mc);
        push_char(&mut s, 'm');
        proof {
            assert(s@ =~= cpu_quantity(uc as nat));
        }
        s
    } else {
        let wide: u128 = (uc as u128 + 5000) / 10000;
        assert(wide <= u64::MAX as u128) by (nonlinear_arith)
            requires wide == (uc as u128 + 5000) / 10000, uc <= u64::MAX;
        let c = wide as u64;
        assert(c as nat == round_div(uc as nat, 10000));
        let mut s = u64_to_string(c / 100);
        push_char(&mut s, '.');
        append_two_digits(&mut s, c % 100);
        proof {
            assert(s@ =~= cpu_quantity(uc as nat));
        }
        s
    }
}

/// Formats a memory value in bytes as a quantity string.
pub fn format_memory_value(bytes: u64) -> (r: String)
    ensures
        r@ == memory_quantity(bytes as nat),
{
    if bytes < MIB {
        let mut s = String::new();
        push_char(&mut s, '1');
        push_char(&mut s, 'M');
        push_char(&mut s, 'i');
        proof {
            assert(s@ =~= memory_quantity(bytes as nat));
        }
        s
    } else if bytes < GIB {
        let mib = (bytes + (MIB - 1)) / MIB;
        assert(mib as nat == ceil_div(bytes as nat, MIB as nat));
        let mut s = u64_to_string(mib);
        push_char(&mut s, 'M');
        push_char(&mut s, 'i');
        proof {
            assert(s@ =~= memory_quantity(bytes as nat));
        }
        s
    } else {
        let wide: u128 = (100 * (bytes as u128) + (GIB as u128 / 2)) / (GIB as u128);
        assert(wide <= u64::MAX as u128) by (nonlinear_arith)
            requires
                wide as int == (100 * (bytes as int) + ((GIB as int) / 2)) / (GIB as int),
                bytes <= u64::MAX;
        let c = wide as u64;
        assert(c as nat == round_div(100 * bytes as nat, GIB as nat));
        let mut s = u64_to_string(c / 100);
        push_char(&mut s, '.');
        append_two_digits(&mut s, c % 100);
        push_char(&mut s, 'G');
        push_char(&mut s, 'i');
        proof {
            assert(s@ =~= memory_quantity(bytes as nat));
        }
        s
    }
}

pub open spec fn nat_min(a: nat, b: nat) -> nat {
    if a < b { a } else { b }
}

/// The numeric value of a decimal digit character, 10 for any other.
pub open spec fn digit_of(c: char) -> nat {
    if c == '0' { 0 } else if c == '1' { 1 } else if c == '2' { 2 } else if c == '3' { 3 }
    else if c == '4' { 4 } else if c == '5' { 5 } else if c == '6' { 6 } else if c == '7' { 7 }
    else if c == '8' { 8 } else if c == '9' { 9 } else { 10 }
}

pub open spec fn is_dec_digit(c: char) -> bool {
    digit_of(c) < 10
}

pub open spec fn all_dec_digits(s: Seq<char>) -> bool {
    forall|i: int| 0 <= i < s.len() ==> is_dec_digit(s[i])
}

/// The value of a digit sequence read in base ten.
pub open spec fn digits_val(s: Seq<char>) -> nat
    decreases s.len(),
{
    if s.len() == 0 {
        0
    } else {
        digits_val(s.drop_last()) * 10 + digit_of(s.last())
    }
}

/// The index of the first `'.'`, or the length when there is none.
pub open spec fn first_dot_at(s: Seq<char>) -> int
    decreases s.len(),
{
    if s.len() == 0 {
        0
    } else if s[0] == '.' {
        0
    } else {
        1 + first_dot_at(s.drop_first())
    }
}

pub open spec fn frac_scale(k: nat) -> nat {
    if k == 1 { 100 } else if k == 2 { 10 } else { 1 }
}

/// Parses a non-negative decimal numeral with up to three fraction digits,
/// scaled by 1000: `"250"` gives 250_000 and `"1.5"` gives 1500.
pub open spec fn decimal_scaled_1000(s: Seq<char>) -> Option<nat> {
    let d = first_dot_at(s);
    if d == s.len() {
        if s.len() >= 1 && all_dec_digits(s) {
            Some((digits_val(s) * 1000) as nat)
        } else {
            None
        }
    } else {
        let ip = s.subrange(0, d);
        let fp = s.subrange(d + 1, s.len() as int);
        if ip.len() >= 1 && all_dec_digits(ip) && 1 <= fp.len() <= 3 && all_dec_digits(fp) {
            Some((digits_val(ip) * 1000 + digits_val(fp) * frac_scale(fp.len())) as nat)
        } else {
            None
        }
    }
}

/// The comparable value of a quantity string, scaled by 1000 in its
/// display unit: `"250m"` gives 250_000 millicores-scaled, `"128Mi"` gives
/// 128_000 MiB-scaled, a `Gi` value is converted to MiB, and a bare number
/// is taken as cores and converted to millicores. A string that fits no
/// form counts as zero.
pub open spec fn quantity_value(s: Seq<char>) -> nat {
    if s.len() >= 1 && s.last() == 'm' {
        opt_or_zero(decimal_scaled_1000(s.drop_last()))
    } else if s.len() >= 2 && s[s.len() - 2] == 'M' && s.last() == 'i' {
        opt_or_zero(decimal_scaled_1000(s.subrange(0, s.len() - 2)))
    } else if s.len() >= 2 && s[s.len() - 2] == 'G' && s.last() == 'i' {
        opt_or_zero(decimal_scaled_1000(s.subrange(0, s.len() - 2))) * 1024
    } else {
        opt_or_zero(decimal_scaled_1000(s)) * 1000
    }
}

pub open spec fn opt_or_zero(o: Option<nat>) -> nat {
    match o {
        Some(v) => v,
        None => 0,
    }
}

fn digit_val_exec(c: char) -> (r: u64)
    ensures
        r as nat == digit_of(c),
{
    match c {
        '0' => 0,
        '1' => 1,
        '2' => 2,
        '3' => 3,
        '4' => 4,
        '5' => 5,
        '6' => 6,
        '7' => 7,
        '8' => 8,
        '9' => 9,
        _ => 10,
    }
}

proof fn lemma_first_dot(s: Seq<char>, i: int)
    requires
        0 <= i <= s.len(),
        forall|j: int| 0 <= j < i ==> s[j] != '.',
        i < s.len() ==> s[i] == '.',
    ensures
        first_dot_at(s) == i,
    decreases s.len(),
{
    if s.len() == 0 {
    } else if s[0] == '.' {
        assert(i == 0);
    } else {
        assert(i >= 1);
        lemma_first_dot(s.drop_first(), i - 1);
    }
}

/// Parses the digit run `t[a..b]`, capping the value at `u64::MAX`.
fn digits_capped(t: &str, a: usize, b: usize) -> (r: Option<u64>)
    requires
        a <= b <= t@.len(),
    ensures
        r is Some <==> (b - a >= 1 && all_dec_digits(t@.subrange(a as int, b as int))),
        r matches Some(v) ==> v as nat == nat_min(
            digits_val(t@.subrange(a as int, b as int)),
            u64::MAX as nat,
        ),
{
    if a == b {
        return None;
    }
    let ghost whole = t@.subrange(a as int, b as int);
    let mut acc: u128 = 0;
    let mut i: usize = a;
    while i < b
        invariant
            a <= i <= b <= t@.len(),
            whole == t@.subrange(a as int, b as int),
            all_dec_digits(t@.subrange(a as int, i as int)),
            acc as nat == nat_min(digits_val(t@.subrange(a as int, i as int)), u64::MAX as nat),
        decreases b - i,
    {
        let c = t.get_char(i);
        let d = digit_val_exec(c);
        if d >= 10 {
            proof {
                assert(whole[i - a] == c);
            }
            return None;
        }
        let ghost pre = t@.subrange(a as int, i as int);
        let ghost post = t@.subrange(a as int, i + 1);
        proof {
            assert(post.drop_last() =~= pre);
            assert(post.last() == c);
            assert(digits_val(post) == digits_val(pre) * 10 + digit_of(c));
        }
        let wide: u128 = acc * 10 + (d as u128);
        if wide > u64::MAX as u128 {
            acc = u64::MAX as u128;
            proof {
                if digits_val(pre) <= u64::MAX as nat {
                    assert(digits_val(post) > u64::MAX as nat);
                } else {
                    assert(digits_val(pre) * 10 >= digits_val(pre)) by (nonlinear_arith);
                    assert(digits_val(post) > u64::MAX as nat);
                }
            }
        } else {
            acc = wide;
            proof {
                assert(digits_val(pre) <= u64::MAX as nat);
            }
        }
        proof {
            assert(forall|j: int| 0 <= j < post.len() ==> is_dec_digit(#[trigger] post[j]));
        }
        i += 1;
    }
    proof {
        assert(t@.subrange(a as int, i as int) =~= whole);
    }
    Some(acc as u64)
}

/// Parses a decimal numeral with up to three fraction digits, scaled by
/// 1000 and capped at `u64::MAX`.
fn parse_scaled(t: &str) -> (r: Option<u64>)
    ensures
        r is Some <==> decimal_scaled_1000(t@) is Some,
        r matches Some(v) ==> v as nat == nat_min(
            opt_or_zero(decimal_scaled_1000(t@)),
            u64::MAX as nat,
        ),
{
    let n = t.unicode_len();
    let mut d: usize = 0;
    while d < n && t.get_char(d) != '.'
        invariant
            d <= n,
            n == t@.len(),
            forall|j: int| 0 <= j < d ==> t@[j] != '.',
        decreases n - d,
    {
        d += 1;
    }
    proof {
        lemma_first_dot(t@, d as int);
    }
    if d == n {
        match digits_capped(t, 0, n) {
            None => {
                proof {
                    assert(t@.subrange(0, n as int) =~= t@);
                }
                None
            },
            Some(v) => {
                proof {
                    assert(t@.subrange(0, n as int) =~= t@);
                }
                let ghost dv = digits_val(t@);
                let wide: u128 = (v as u128) * 1000;
                let out: u64 = if wide > u64::MAX as u128 { u64::MAX } else { wide as u64 };
                proof {
                    if dv > u64::MAX as nat {
                        assert(dv * 1000 >= dv) by (nonlinear_arith);
                    } else {
                        assert(v as nat == dv);
                    }
                    assert(out as nat == nat_min((dv * 1000) as nat, u64::MAX as nat));
                }
                Some(out)
            },
        }
    } else {
        let ghost ip = t@.subrange(0, d as int);
        let ghost fp = t@.subrange(d as int + 1, n as int);
        let flen = n - d - 1;
        if d == 0 || flen == 0 || flen > 3 {
            return None;
        }
        let rint = digits_capped(t, 0, d);
        let rfrac = digits_capped(t, d + 1, n);
        match (rint, rfrac) {
            (Some(iv), Some(fv)) => {
                let ghost idv = digits_val(ip);
                let ghost fdv = digits_val(fp);
                proof {
                    lemma_digits_val_bound(fp);
                    assert(pow10(0) == 1);
                    assert(pow10(1) == 10);
                    assert(pow10(2) == 100);
                    assert(pow10(3) == 1000);
                    assert(fp.len() <= 3);
                    assert(fdv < 1000);
                    assert(fv as nat == fdv);
                }
                let scale: u64 = if flen == 1 { 100 } else if flen == 2 { 10 } else { 1 };
                proof {
                    assert((fv as int) * (scale as int) < 100000) by (nonlinear_arith)
                        requires fv < 1000, scale <= 100;
                }
                let wide: u128 = (iv as u128) * 1000 + (fv as u128) * (scale as u128);
                let out: u64 = if wide > u64::MAX as u128 { u64::MAX } else { wide as u64 };
                proof {
                    if idv > u64::MAX as nat {
                        assert(iv == u64::MAX);
                        assert(idv * 1000 >= idv) by (nonlinear_arith);
                        assert(out == u64::MAX);
                    } else {
                        assert(iv as nat == idv);
                    }
                    assert(out as nat == nat_min(
                        (idv * 1000 + fdv * frac_scale(fp.len())) as nat,
                        u64::MAX as nat,
                    ));
                }
                Some(out)
            },
            _ => None,
        }
    }
}

/// Largest power of ten bound for a digit run: fewer than `10^len`.
pub open spec fn pow10(k: nat) -> nat
    decreases k,
{
    if k == 0 {
        1
    } else {
        10 * pow10((k - 1) as nat)
    }
}

proof fn lemma_digits_val_bound(s: Seq<char>)
    requires
        all_dec_digits(s),
    ensures
        digits_val(s) < pow10(s.len()),
    decreases s.len(),
{
    if s.len() > 0 {
        assert(all_dec_digits(s.drop_last())) by {
            assert(forall|i: int| 0 <= i < s.len() - 1 ==> s.drop_last()[i] == s[i]);
        }
        lemma_digits_val_bound(s.drop_last());
        assert(is_dec_digit(s.last()));
        assert(digits_val(s.drop_last()) * 10 <= (pow10((s.len() - 1) as nat) - 1) * 10);
    }
}

proof fn lemma_decimal_digits_value(n: nat)
    ensures
        all_dec_digits(decimal_digits(n)),
        digits_val(decimal_digits(n)) == n,
        decimal_digits(n).len() >= 1,
    decreases n,
{
    if n < 10 {
        let s = decimal_digits(n);
        assert(s == seq![dec_char(n)]);
        assert(s.drop_last() =~= Seq::<char>::empty());
        assert(digits_val(Seq::<char>::empty()) == 0);
        assert(digit_of(dec_char(n)) == n);
    } else {
        lemma_decimal_digits_value(n / 10);
        let pre = decimal_digits(n / 10);
        let s = pre.push(dec_char(n % 10));
        assert(s.drop_last() =~= pre);
        assert(digit_of(dec_char(n % 10)) == n % 10);
        assert(forall|i: int| 0 <= i < s.len() ==> is_dec_digit(#[trigger] s[i])) by {
            assert(forall|i: int| 0 <= i < pre.len() ==> s[i] == pre[i]);
        }
    }
}

proof fn lemma_digits_have_no_dot(s: Seq<char>)
    requires
        all_dec_digits(s),
    ensures
        first_dot_at(s) == s.len(),
{
    assert(forall|j: int| 0 <= j < s.len() ==> s[j] != '.') by {
        assert(forall|j: int| 0 <= j < s.len() ==> is_dec_digit(#[trigger] s[j]));
    }
    lemma_first_dot(s, s.len() as int);
}

proof fn lemma_two_digits_value(m: nat)
    requires
        m < 100,
    ensures
        digits_val(two_digits(m)) == m,
        all_dec_digits(two_digits(m)),
        two_digits(m).len() == 2,
{
    let s = two_digits(m);
    assert(s.drop_last() =~= seq![dec_char(m / 10)]);
    assert(seq![dec_char(m / 10)].drop_last() =~= Seq::<char>::empty());
    assert(digits_val(Seq::<char>::empty()) == 0);
    assert(digits_val(seq![dec_char(m / 10)]) == m / 10);
    assert(digit_of(dec_char(m / 10)) == m / 10);
    assert(digit_of(dec_char(m % 10)) == m % 10);
}

/// Parsing a formatted CPU quantity recovers the value up to the
/// rounding step of its format: the floor value below one millicore, the
/// next whole millicore below one core, and the nearest hundredth of a
/// core from one core on.
pub proof fn lemma_cpu_format_round_trip(uc: u64)
    ensures
        uc < 1000 ==> quantity_value(cpu_quantity(uc as nat)) == 1000,
        1000 <= uc < 1000000 ==> uc <= quantity_value(cpu_quantity(uc as nat)) < uc + 1000,
        uc >= 1000000 ==> quantity_value(cpu_quantity(uc as nat)) == round_div(
            uc as nat,
            10000,
        ) * 10000,
{
    if uc < 1000 {
        let s = cpu_quantity(uc as nat);
        assert(s == seq!['1', 'm']);
        assert(s.last() == 'm');
        let body = s.drop_last();
        assert(body =~= seq!['1']);
        lemma_digits_have_no_dot(body);
        assert(body.drop_last() =~= Seq::<char>::empty());
        assert(digits_val(Seq::<char>::empty()) == 0);
        assert(digit_of('1') == 1);
        assert(digits_val(body) == 1);
        assert(decimal_scaled_1000(body) == Some(1000nat));
    } else if uc < 1000000 {
        let mc = ceil_div(uc as nat, 1000);
        let s = cpu_quantity(uc as nat);
        assert(s == decimal_digits(mc) + seq!['m']);
        lemma_decimal_digits_value(mc);
        assert(s.len() >= 1);
        assert(s.last() == 'm');
        let body = s.drop_last();
        assert(body =~= decimal_digits(mc));
        lemma_digits_have_no_dot(body);
        assert(decimal_scaled_1000(body) == Some((mc * 1000) as nat));
        assert(quantity_value(s) == mc * 1000);
        vstd::arithmetic::div_mod::lemma_fundamental_div_mod(uc + 999, 1000);
        assert(uc <= mc * 1000 < uc + 1000);
    } else {
        let c = round_div(uc as nat, 10000);
        let ipart = decimal_digits(c / 100);
        let s = cpu_quantity(uc as nat);
        assert(s == ipart + seq!['.'] + two_digits(c % 100));
        lemma_decimal_digits_value(c / 100);
        lemma_two_digits_value(c % 100);
        let n = s.len();
        assert(n == ipart.len() + 3);
        // The trailing digits rule out every suffix branch.
        assert(s.last() == dec_char((c % 100) % 10));
        assert(s[n - 2] == dec_char((c % 100) / 10));
        assert(is_dec_digit(s.last()) && is_dec_digit(s[n - 2])) by {
            assert(digit_of(dec_char((c % 100) % 10)) == (c % 100) % 10);
            assert(digit_of(dec_char((c % 100) / 10)) == (c % 100) / 10);
        }
        assert(s.last() != 'm' && s.last() != 'i');
        // The dot sits right after the whole-core digits.
        assert(forall|j: int| 0 <= j < ipart.len() ==> s[j] != '.') by {
            assert(forall|j: int|
                0 <= j < ipart.len() ==> is_dec_digit(#[trigger] ipart[j]));
            assert(forall|j: int| 0 <= j < ipart.len() ==> s[j] == ipart[j]);
        }
        assert(s[ipart.len() as int] == '.');
        lemma_first_dot(s, ipart.len() as int);
        let d = first_dot_at(s);
        assert(d == ipart.len());
        assert(s.subrange(0, d) =~= ipart);
        assert(s.subrange(d + 1, n as int) =~= two_digits(c % 100));
        assert(decimal_scaled_1000(s) == Some(
            ((c / 100) * 1000 + (c % 100) * 10) as nat,
        ));
        vstd::arithmetic::div_mod::lemma_fundamental_div_mod(c as int, 100);
        assert((c / 100) * 1000 + (c % 100) * 10 == c * 10) by (nonlinear_arith)
            requires c == 100 * (c / 100) + c % 100;
        assert(quantity_value(s) == (c * 10) * 1000);
        assert((c * 10) * 1000 == c * 10000) by (nonlinear_arith);
    }
}

/// Parsing a formatted memory quantity recovers the value up to the
/// rounding step of its format, read in thousandths of a MiB: the floor
/// value below one MiB, the next whole MiB (at most one MiB above the
/// input) below one GiB, and the nearest hundredth of a GiB from one GiB
/// on.
pub proof fn lemma_memory_format_round_trip(b: u64)
    ensures
        b < MIB ==> quantity_value(memory_quantity(b as nat)) == 1000,
        MIB <= b < GIB ==> quantity_value(memory_quantity(b as nat)) == ceil_div(
            b as nat,
            MIB as nat,
        ) * 1000,
        MIB <= b < GIB ==> b <= ceil_div(b as nat, MIB as nat) * (MIB as nat) < b + MIB,
        b >= GIB ==> quantity_value(memory_quantity(b as nat)) == round_div(
            100 * b as nat,
            GIB as nat,
        ) * 10240,
{
    if b < MIB {
        let s = memory_quantity(b as nat);
        assert(s == seq!['1', 'M', 'i']);
        assert(s.last() == 'i' && s[1] == 'M');
        let body = s.subrange(0, 1);
        assert(body =~= seq!['1']);
        lemma_digits_have_no_dot(body);
        assert(body.drop_last() =~= Seq::<char>::empty());
        assert(digits_val(Seq::<char>::empty()) == 0);
        assert(digit_of('1') == 1);
        assert(decimal_scaled_1000(body) == Some(1000nat));
    } else if b < GIB {
        let mib = ceil_div(b as nat, MIB as nat);
        let s = memory_quantity(b as nat);
        assert(s == decimal_digits(mib) + seq!['M', 'i']);
        lemma_decimal_digits_value(mib);
        let n = s.len();
        assert(s.last() == 'i');
        assert(s[n - 2] == 'M');
        let body = s.subrange(0, n - 2);
        assert(body =~= decimal_digits(mib));
        lemma_digits_have_no_dot(body);
        assert(decimal_scaled_1000(body) == Some((mib * 1000) as nat));
        assert(quantity_value(s) == mib * 1000);
        vstd::arithmetic::div_mod::lemma_fundamental_div_mod(b + (MIB - 1), MIB as int);
        assert((b + (MIB - 1)) as int / (MIB as int) * (MIB as int) <= b + (MIB - 1));
        assert(b <= mib * (MIB as nat) < b + MIB);
    } else {
        let c = round_div(100 * b as nat, GIB as nat);
        let ipart = decimal_digits(c / 100);
        let s = memory_quantity(b as nat);
        assert(s == ipart + seq!['.'] + two_digits(c % 100) + seq!['G', 'i']);
        lemma_decimal_digits_value(c / 100);
        lemma_two_digits_value(c % 100);
        let n = s.len();
        assert(n == ipart.len() + 5);
        assert(s.last() == 'i');
        assert(s[n - 2] == 'G');
        let body = s.subrange(0, n - 2);
        assert(body =~= ipart + seq!['.'] + two_digits(c % 100));
        // The dot sits right after the whole-GiB digits.
        assert(forall|j: int| 0 <= j < ipart.len() ==> body[j] != '.') by {
            assert(forall|j: int|
                0 <= j < ipart.len() ==> is_dec_digit(#[trigger] ipart[j]));
            assert(forall|j: int| 0 <= j < ipart.len() ==> body[j] == ipart[j]);
        }
        assert(body[ipart.len() as int] == '.');
        lemma_first_dot(body, ipart.len() as int);
        let d = first_dot_at(body);
        assert(d == ipart.len());
        assert(body.subrange(0, d) =~= ipart);
        assert(body.subrange(d + 1, body.len() as int) =~= two_digits(c % 100));
        assert(decimal_scaled_1000(body) == Some(
            ((c / 100) * 1000 + (c % 100) * 10) as nat,
        ));
        vstd::arithmetic::div_mod::lemma_fundamental_div_mod(c as int, 100);
        assert((c / 100) * 1000 + (c % 100) * 10 == c * 10) by (nonlinear_arith)
            requires c == 100 * (c / 100) + c % 100;
        assert(quantity_value(s) == (c * 10) * 1024);
        assert((c * 10) * 1024 == c * 10240) by (nonlinear_arith);
    }
}

/// Parses a resource quantity string into a comparable scaled number, as
/// `quantity_value` describes; values beyond `u64::MAX` are capped there.
pub fn parse_resource_value(value: &str) -> (r: u64)
    ensures
        r as nat == nat_min(quantity_value(value@), u64::MAX as nat),
{
    let n = value.unicode_len();
    if n >= 1 && value.get_char(n - 1) == 'm' {
        let body = value.substring_char(0, n - 1);
        proof {
            assert(body@ =~= value@.drop_last());
        }
        match parse_scaled(body) {
            Some(v) => v,
            None => 0,
        }
    } else if n >= 2 && value.get_char(n - 2) == 'M' && value.get_char(n - 1) == 'i' {
        let body = value.substring_char(0, n - 2);
        match parse_scaled(body) {
            Some(v) => v,
            None => 0,
        }
    } else if n >= 2 && value.get_char(n - 2) == 'G' && value.get_char(n - 1) == 'i' {
        let body = value.substring_char(0, n - 2);
        match parse_scaled(body) {
            Some(v) => {
                let ghost dsv = opt_or_zero(decimal_scaled_1000(body@));
                let wide: u128 = (v as u128) * 1024;
                let out: u64 = if wide > u64::MAX as u128 { u64::MAX } else { wide as u64 };
                proof {
                    if dsv > u64::MAX as nat {
                        assert(v == u64::MAX);
                        assert(dsv * 1024 >= dsv) by (nonlinear_arith);
                    }
                    assert(out as nat == nat_min((dsv * 1024) as nat, u64::MAX as nat));
                }
                out
            },
            None => 0,
        }
    } else {
        match parse_scaled(value) {
            Some(v) => {
                let ghost dsv = opt_or_zero(decimal_scaled_1000(value@));
                let wide: u128 = (v as u128) * 1000;
                let out: u64 = if wide > u64::MAX as u128 { u64::MAX } else { wide as u64 };
                proof {
                    if dsv > u64::MAX as nat {
                        assert(v == u64::MAX);
                        assert(dsv * 1000 >= dsv) by (nonlinear_arith);
                    }
                    assert(out as nat == nat_min((dsv * 1000) as nat, u64::MAX as nat));
                }
                out
            },
            None => 0,
        }
    }
}

} // verus!
