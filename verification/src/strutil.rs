//! Character-sequence utilities shared by the lexer and the value model:
//! conversion between `String` and `Vec<char>`, and decimal digit strings.

use vstd::prelude::*;

verus! {

/// Whether `c` is a decimal digit.
pub open spec fn is_digit_char(c: char) -> bool {
    '0' <= c && c <= '9'
}

/// The numeric value of a string of decimal digits, most significant first.
pub open spec fn digits_val(s: Seq<char>) -> int
    decreases s.len(),
{
    if s.len() == 0 {
        0
    } else {
        digits_val(s.drop_last()) * 10 + (s.last() as int - '0' as int)
    }
}

pub proof fn lemma_digits_val_take_step(s: Seq<char>, k: int)
    requires
        0 <= k < s.len(),
        forall|i: int| 0 <= i < s.len() ==> is_digit_char(#[trigger] s[i]),
    ensures
        digits_val(s.take(k + 1)) == digits_val(s.take(k)) * 10 + (s[k] as int - '0' as int),
{
    let t = s.take(k + 1);
    assert(t.drop_last() =~= s.take(k));
    assert(t.last() == s[k]);
}

pub proof fn lemma_digits_val_nonneg(s: Seq<char>)
    requires
        forall|i: int| 0 <= i < s.len() ==> is_digit_char(#[trigger] s[i]),
    ensures
        digits_val(s) >= 0,
    decreases s.len(),
{
    if s.len() > 0 {
        lemma_digits_val_nonneg(s.drop_last());
    }
}

/// The value of a digit string never falls when more digits are appended.
pub proof fn lemma_digits_val_mono(s: Seq<char>, k: int)
    requires
        0 <= k <= s.len(),
        forall|i: int| 0 <= i < s.len() ==> is_digit_char(#[trigger] s[i]),
    ensures
        digits_val(s) >= digits_val(s.take(k)),
    decreases s.len() - k,
{
    if k < s.len() {
        lemma_digits_val_take_step(s, k);
        lemma_digits_val_mono(s, k + 1);
        assert(forall|i: int|
            0 <= i < s.take(k).len() ==> is_digit_char(#[trigger] s.take(k)[i]));
        lemma_digits_val_nonneg(s.take(k));
        assert(digits_val(s.take(k + 1)) >= digits_val(s.take(k)));
    } else {
        assert(s.take(k) =~= s);
    }
}

/// The character for the decimal digit `d`.
pub open spec fn digit_of(d: int) -> char {
    ((d + 48) as u8) as char
}

/// The decimal rendering of a natural number, most significant digit first.
pub open spec fn nat_to_dec(n: nat) -> Seq<char>
    decreases n,
{
    if n < 10 {
        seq![digit_of(n as int)]
    } else {
        nat_to_dec(n / 10) + seq![digit_of((n % 10) as int)]
    }
}

/// The decimal rendering of an integer: a minus sign for negative values.
pub open spec fn int_to_dec(v: int) -> Seq<char> {
    if v < 0 {
        seq!['-'] + nat_to_dec((-v) as nat)
    } else {
        nat_to_dec(v as nat)
    }
}

/// Appends the decimal digits of `m` to `out`.
fn push_digits(m: u64, out: &mut Vec<char>)
    ensures
        final(out)@ == old(out)@ + nat_to_dec(m as nat),
    decreases m,
{
    if m < 10 {
        let c = ((m as u8) + 48) as char;
        out.push(c);
        assert(final(out)@ =~= old(out)@ + nat_to_dec(m as nat));
    } else {
        let ghost mid = out@ + nat_to_dec((m / 10) as nat);
        push_digits(m / 10, out);
        let c = (((m % 10) as u8) + 48) as char;
        out.push(c);
        proof {
            assert(final(out)@ =~= old(out)@ + (nat_to_dec((m / 10) as nat) + seq![
                digit_of((m % 10) as int),
            ]));
        }
    }
}

/// The decimal rendering of an `i64`, as [`int_to_dec`] describes it.
pub fn i64_to_string(n: i64) -> (r: String)
    ensures
        r@ == int_to_dec(n as int),
{
    let mut out: Vec<char> = Vec::new();
    if n >= 0 {
        push_digits(n as u64, &mut out);
    } else {
        out.push('-');
        let m: u64 = ((-(n + 1)) as u64) + 1;
        assert(m as int == -(n as int));
        push_digits(m, &mut out);
        assert(out@ =~= seq!['-'] + nat_to_dec(m as nat));
    }
    chars_to_string(&out)
}

/// The decimal rendering of a `usize`, as [`nat_to_dec`] describes it.
pub fn usize_to_string(n: usize) -> (r: String)
    ensures
        r@ == nat_to_dec(n as nat),
{
    let mut out: Vec<char> = Vec::new();
    push_digits(n as u64, &mut out);
    chars_to_string(&out)
}

/// Relies on `String`'s `FromIterator<char>`: collecting characters builds
/// the string of exactly those characters.
#[verifier::external_body]
pub fn chars_to_string(v: &Vec<char>) -> (s: String)
    ensures
        s@ == v@,
{
    v.iter().collect()
}

/// The characters of `s`, in order, as a vector.
pub fn str_to_chars(s: &str) -> (r: Vec<char>)
    ensures
        r@ == s@,
{
    let n = s.unicode_len();
    let mut r: Vec<char> = Vec::new();
    let mut i: usize = 0;
    while i < n
        invariant
            n == s@.len(),
            i <= n,
            r@ =~= s@.take(i as int),
        decreases n - i,
    {
        let c = s.get_char(i);
        r.push(c);
        i = i + 1;
        assert(r@ =~= s@.take(i as int));
    }
    assert(r@ =~= s@);
    r
}

/// Reads a non-empty string of decimal digits as an `i64`, most significant
/// digit first; `None` exactly when the value exceeds `i64::MAX`.
pub fn digits_to_i64(v: &Vec<char>) -> (r: Option<i64>)
    requires
        forall|i: int| 0 <= i < v@.len() ==> is_digit_char(#[trigger] v@[i]),
    ensures
        match r {
            Some(x) => digits_val(v@) <= i64::MAX && x == digits_val(v@),
            None => digits_val(v@) > i64::MAX,
        },
{
    let mut acc: u64 = 0;
    let mut k: usize = 0;
    while k < v.len()
        invariant
            k <= v@.len(),
            forall|i: int| 0 <= i < v@.len() ==> is_digit_char(#[trigger] v@[i]),
            acc == digits_val(v@.take(k as int)),
            acc <= i64::MAX as u64,
        decreases v@.len() - k,
    {
        let c = v[k];
        let d: u64 = (c as u32 as u64) - ('0' as u32 as u64);
        proof {
            lemma_digits_val_take_step(v@, k as int);
        }
        if acc > (0x7fff_ffff_ffff_ffffu64 - d) / 10 {
            proof {
                let m = i64::MAX as u64;
                assert(acc * 10 + d > m) by (nonlinear_arith)
                    requires
                        acc > (m - d) / 10,
                        d <= 9,
                        m == 0x7fff_ffff_ffff_ffffu64,
                ;
                lemma_digits_val_mono(v@, k as int + 1);
            }
            return None;
        }
        proof {
            let m = i64::MAX as u64;
            assert(acc * 10 + d <= m) by (nonlinear_arith)
                requires
                    acc <= (m - d) / 10,
                    d <= 9,
                    m == 0x7fff_ffff_ffff_ffffu64,
            ;
        }
        acc = acc * 10 + d;
        k = k + 1;
    }
    assert(v@.take(k as int) =~= v@);
    Some(acc as i64)
}

/// Reads a non-empty string of decimal digits as a `u64`, most significant
/// digit first; `None` exactly when the value exceeds `u64::MAX`.
pub fn digits_to_u64(v: &Vec<char>) -> (r: Option<u64>)
    requires
        forall|i: int| 0 <= i < v@.len() ==> is_digit_char(#[trigger] v@[i]),
    ensures
        match r {
            Some(x) => digits_val(v@) <= u64::MAX && x == digits_val(v@),
            None => digits_val(v@) > u64::MAX,
        },
{
    let mut acc: u64 = 0;
    let mut k: usize = 0;
    while k < v.len()
        invariant
            k <= v@.len(),
            forall|i: int| 0 <= i < v@.len() ==> is_digit_char(#[trigger] v@[i]),
            acc == digits_val(v@.take(k as int)),
        decreases v@.len() - k,
    {
        let c = v[k];
        let d: u64 = (c as u32 as u64) - ('0' as u32 as u64);
        proof {
            lemma_digits_val_take_step(v@, k as int);
        }
        if acc > (0xffff_ffff_ffff_ffffu64 - d) / 10 {
            proof {
                let m = u64::MAX as int;
                assert(acc * 10 + d > m) by (nonlinear_arith)
                    requires
                        acc > ((0xffff_ffff_ffff_ffffu64 - d) / 10) as int,
                        d <= 9,
                        acc <= m,
                        m == 0xffff_ffff_ffff_ffffu64 as int,
                ;
                lemma_digits_val_mono(v@, k as int + 1);
            }
            return None;
        }
        proof {
            let m = u64::MAX as int;
            assert(acc * 10 + d <= m) by (nonlinear_arith)
                requires
                    acc <= ((0xffff_ffff_ffff_ffffu64 - d) / 10) as int,
                    d <= 9,
                    m == 0xffff_ffff_ffff_ffffu64 as int,
            ;
        }
        acc = acc * 10 + d;
        k = k + 1;
    }
    assert(v@.take(k as int) =~= v@);
    Some(acc)
}

} // verus!
