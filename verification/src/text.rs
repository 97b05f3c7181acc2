//! Character-level text operations the protocol needs: decimal numerals in
//! both directions, `/`-splitting of remote object keys, and string equality.
//!
//! Everything here is specified against `Seq<char>` views, so the rest of the
//! crate can state its contracts over the mathematical content of keys and
//! paths.

use vstd::prelude::*;
use vstd::string::StrSliceExecFns;
use vstd::string::StringExecFns;

verus! {

/// Whether `c` is a decimal digit.
pub open spec fn is_digit_char(c: char) -> bool {
    48 <= c as u32 && c as u32 <= 57
}

/// The value of the decimal digit `c`.
pub open spec fn digit_val(c: char) -> int {
    c as u32 - 48
}

/// Whether every character of `s` is a decimal digit.
pub open spec fn all_digits(s: Seq<char>) -> bool {
    forall|i: int| 0 <= i < s.len() ==> is_digit_char(#[trigger] s[i])
}

/// The value of `s` read as a decimal numeral (0 for the empty sequence).
pub open spec fn dec_val(s: Seq<char>) -> int
    decreases s.len(),
{
    if s.len() == 0 {
        0
    } else {
        dec_val(s.drop_last()) * 10 + digit_val(s.last())
    }
}

/// Extending a numeral by one digit multiplies its value by ten and adds the
/// digit.
proof fn lemma_dec_val_step(s: Seq<char>, i: int)
    requires
        0 <= i < s.len(),
    ensures
        dec_val(s.take(i + 1)) == dec_val(s.take(i)) * 10 + digit_val(s[i]),
{
    assert(s.take(i + 1).drop_last() =~= s.take(i));
    assert(s.take(i + 1).last() == s[i]);
}

/// A numeral of digits has a non-negative value.
proof fn lemma_dec_val_nonneg(s: Seq<char>)
    requires
        all_digits(s),
    ensures
        dec_val(s) >= 0,
    decreases s.len(),
{
    if s.len() > 0 {
        assert(all_digits(s.drop_last()));
        lemma_dec_val_nonneg(s.drop_last());
        assert(is_digit_char(s[s.len() - 1]));
    }
}

/// A numeral's value never falls below the value of any of its prefixes.
proof fn lemma_dec_val_mono(s: Seq<char>, i: int)
    requires
        all_digits(s),
        0 <= i <= s.len(),
    ensures
        dec_val(s.take(i)) <= dec_val(s),
    decreases s.len() - i,
{
    if i < s.len() {
        lemma_dec_val_step(s, i);
        assert(all_digits(s.take(i)));
        lemma_dec_val_nonneg(s.take(i));
        assert(is_digit_char(s[i]));
        lemma_dec_val_mono(s, i + 1);
    } else {
        assert(s.take(i) =~= s);
    }
}

/// Parses the run of decimal digits of `s` that starts at `start` and reaches
/// to the end, as an unsigned value.  `None` when that run is empty, holds a
/// non-digit, or its value exceeds `u128::MAX`.
pub fn parse_dec_digits(s: &[char], start: usize) -> (r: Option<u128>)
    requires
        start <= s@.len(),
    ensures
        r == ({
            let body = s@.skip(start as int);
            if body.len() > 0 && all_digits(body) && dec_val(body) <= u128::MAX {
                Some(dec_val(body) as u128)
            } else {
                None::<u128>
            }
        }),
{
    let ghost body = s@.skip(start as int);
    let n = s.len();
    if start >= n {
        return None;
    }
    let mut acc: u128 = 0;
    let mut i: usize = start;
    while i < n
        invariant
            start <= i <= n,
            n == s@.len(),
            body == s@.skip(start as int),
            body.len() == n - start,
            all_digits(body.take(i - start)),
            acc == dec_val(body.take(i - start)),
        decreases n - i,
    {
        let c = s[i];
        let cu = c as u32;
        proof {
            assert(body[i - start] == s@[i as int]);
        }
        if cu < 48 || cu > 57 {
            proof {
                assert(!is_digit_char(body[i - start]));
            }
            return None;
        }
        let d: u128 = (cu - 48) as u128;
        proof {
            lemma_dec_val_step(body, i - start);
        }
        if acc > (u128::MAX - d) / 10 {
            proof {
                assert(acc * 10 + d > u128::MAX) by (nonlinear_arith)
                    requires
                        acc > (u128::MAX - d) / 10,
                        d <= 9,
                ;
                if all_digits(body) {
                    assert(dec_val(body.take(i - start + 1)) == acc * 10 + d);
                    lemma_dec_val_mono(body, i - start + 1);
                }
            }
            return None;
        }
        proof {
            assert(acc * 10 + d <= u128::MAX) by (nonlinear_arith)
                requires
                    acc <= (u128::MAX - d) / 10,
                    d <= 9,
            ;
        }
        acc = acc * 10 + d;
        i = i + 1;
        proof {
            assert forall|j: int| 0 <= j < i - start implies is_digit_char(
                #[trigger] body.take(i - start)[j],
            ) by {
                assert(body.take(i - start)[j] == body[j]);
                if j < i - start - 1 {
                    assert(body.take(i - start - 1)[j] == body[j]);
                }
            }
        }
    }
    proof {
        assert(body.take(i - start) =~= body);
    }
    Some(acc)
}

/// The value of `s` read as Rust's `u128::from_str` reads it: an optional `+`
/// sign, then one or more decimal digits, in range.
pub open spec fn parse_u128_spec(s: Seq<char>) -> Option<u128> {
    let body = if s.len() > 0 && s[0] == '+' {
        s.skip(1)
    } else {
        s
    };
    if body.len() > 0 && all_digits(body) && dec_val(body) <= u128::MAX {
        Some(dec_val(body) as u128)
    } else {
        None
    }
}

/// Parses `s` as `u128::from_str` does.
pub fn parse_u128(s: &[char]) -> (r: Option<u128>)
    ensures
        r == parse_u128_spec(s@),
{
    let n = s.len();
    if n > 0 && s[0] == '+' {
        parse_dec_digits(s, 1)
    } else {
        let r = parse_dec_digits(s, 0);
        proof {
            assert(s@.skip(0) =~= s@);
        }
        r
    }
}

/// The value of `s` read as Rust's `i64::from_str` reads it: an optional sign,
/// then one or more decimal digits, in range.
pub open spec fn parse_i64_spec(s: Seq<char>) -> Option<i64> {
    if s.len() > 0 && (s[0] == '+' || s[0] == '-') {
        let body = s.skip(1);
        let signed = if s[0] == '-' {
            -dec_val(body)
        } else {
            dec_val(body)
        };
        if body.len() > 0 && all_digits(body) && i64::MIN <= signed <= i64::MAX {
            Some(signed as i64)
        } else {
            None
        }
    } else {
        if s.len() > 0 && all_digits(s) && dec_val(s) <= i64::MAX {
            Some(dec_val(s) as i64)
        } else {
            None
        }
    }
}

/// Parses `s` as `i64::from_str` does.
pub fn parse_i64(s: &[char]) -> (r: Option<i64>)
    ensures
        r == parse_i64_spec(s@),
{
    let n = s.len();
    if n == 0 {
        return None;
    }
    let c0 = s[0];
    if c0 == '-' {
        match parse_dec_digits(s, 1) {
            Some(mag) => {
                proof {
                    lemma_dec_val_nonneg(s@.skip(1));
                }
                if mag <= 9223372036854775807u128 {
                    Some(-(mag as i64))
                } else if mag == 9223372036854775808u128 {
                    Some(i64::MIN)
                } else {
                    None
                }
            },
            None => None,
        }
    } else if c0 == '+' {
        match parse_dec_digits(s, 1) {
            Some(mag) => {
                proof {
                    lemma_dec_val_nonneg(s@.skip(1));
                }
                if mag <= 9223372036854775807u128 {
                    Some(mag as i64)
                } else {
                    None
                }
            },
            None => None,
        }
    } else {
        let r = match parse_dec_digits(s, 0) {
            Some(mag) => {
                proof {
                    assert(s@.skip(0) =~= s@);
                    lemma_dec_val_nonneg(s@);
                }
                if mag <= 9223372036854775807u128 {
                    Some(mag as i64)
                } else {
                    None
                }
            },
            None => None,
        };
        proof {
            assert(s@.skip(0) =~= s@);
        }
        r
    }
}

/// The character of the decimal digit `d`.
pub open spec fn spec_digit_char(d: int) -> char {
    if d == 0 {
        '0'
    } else if d == 1 {
        '1'
    } else if d == 2 {
        '2'
    } else if d == 3 {
        '3'
    } else if d == 4 {
        '4'
    } else if d == 5 {
        '5'
    } else if d == 6 {
        '6'
    } else if d == 7 {
        '7'
    } else if d == 8 {
        '8'
    } else {
        '9'
    }
}

/// The canonical decimal numeral of `n`: digits only, no leading zero.
pub open spec fn dec_str(n: nat) -> Seq<char>
    decreases n,
{
    if n < 10 {
        seq![spec_digit_char(n as int)]
    } else {
        dec_str(n / 10).push(spec_digit_char((n % 10) as int))
    }
}

/// The canonical numeral of `n` is all digits and reads back as `n`.
pub proof fn lemma_dec_str_val(n: nat)
    ensures
        all_digits(dec_str(n)),
        dec_val(dec_str(n)) == n,
        dec_str(n).len() >= 1,
    decreases n,
{
    if n < 10 {
        assert(dec_str(n).drop_last() =~= Seq::<char>::empty());
        assert(is_digit_char(dec_str(n)[0]));
        assert(digit_val(spec_digit_char(n as int)) == n);
        assert(dec_str(n).last() == spec_digit_char(n as int));
        assert(dec_val(dec_str(n)) == dec_val(Seq::<char>::empty()) * 10 + digit_val(
            spec_digit_char(n as int),
        ));
    } else {
        lemma_dec_str_val(n / 10);
        assert(digit_val(spec_digit_char((n % 10) as int)) == n % 10);
        assert(dec_str(n).drop_last() =~= dec_str(n / 10));
        assert(is_digit_char(dec_str(n).last()));
        assert forall|i: int| 0 <= i < dec_str(n).len() implies is_digit_char(
            #[trigger] dec_str(n)[i],
        ) by {
            if i < dec_str(n).len() - 1 {
                assert(dec_str(n)[i] == dec_str(n / 10)[i]);
            }
        }
    }
}

/// Canonical numerals parse back to their value, read unsigned.
pub proof fn lemma_parse_u128_of_dec_str(n: u128)
    ensures
        parse_u128_spec(dec_str(n as nat)) == Some(n),
{
    lemma_dec_str_val(n as nat);
    assert(is_digit_char(dec_str(n as nat)[0]));
    assert(dec_str(n as nat)[0] != '+');
}

/// The canonical signed numeral of `v`: a minus sign for negative values,
/// then the magnitude's numeral.
pub open spec fn int_str(v: int) -> Seq<char> {
    if v < 0 {
        seq!['-'] + dec_str((-v) as nat)
    } else {
        dec_str(v as nat)
    }
}

/// Canonical signed numerals parse back to their value.
pub proof fn lemma_parse_i64_of_int_str(v: i64)
    ensures
        parse_i64_spec(int_str(v as int)) == Some(v),
{
    if v < 0 {
        let mag = (-(v as int)) as nat;
        lemma_dec_str_val(mag);
        let s = int_str(v as int);
        assert(s[0] == '-');
        assert(s.skip(1) =~= dec_str(mag));
    } else {
        lemma_dec_str_val(v as nat);
        let s = int_str(v as int);
        assert(is_digit_char(s[0]));
        assert(s[0] != '+' && s[0] != '-');
    }
}

/// Appends the character of digit `d` to `s`.
fn push_digit(s: &mut String, d: u128)
    requires
        d < 10,
    ensures
        final(s)@ == old(s)@.push(spec_digit_char(d as int)),
{
    let t: &str = if d == 0 {
        "0"
    } else if d == 1 {
        "1"
    } else if d == 2 {
        "2"
    } else if d == 3 {
        "3"
    } else if d == 4 {
        "4"
    } else if d == 5 {
        "5"
    } else if d == 6 {
        "6"
    } else if d == 7 {
        "7"
    } else if d == 8 {
        "8"
    } else {
        "9"
    };
    proof {
        reveal_strlit("0");
        reveal_strlit("1");
        reveal_strlit("2");
        reveal_strlit("3");
        reveal_strlit("4");
        reveal_strlit("5");
        reveal_strlit("6");
        reveal_strlit("7");
        reveal_strlit("8");
        reveal_strlit("9");
        assert(t@ =~= seq![spec_digit_char(d as int)]);
    }
    s.append(t);
    proof {
        assert(old(s)@ + t@ =~= old(s)@.push(spec_digit_char(d as int)));
    }
}

/// Writes `n` as its canonical decimal numeral.
pub fn u128_to_dec(n: u128) -> (r: String)
    ensures
        r@ == dec_str(n as nat),
    decreases n,
{
    if n < 10 {
        let mut s = String::new();
        push_digit(&mut s, n);
        proof {
            assert(Seq::<char>::empty().push(spec_digit_char(n as int)) =~= dec_str(n as nat));
        }
        s
    } else {
        proof {
            assert(n / 10 < n) by (nonlinear_arith)
                requires
                    n >= 10,
            ;
        }
        let mut s = u128_to_dec(n / 10);
        push_digit(&mut s, n % 10);
        s
    }
}

/// Writes `v` as its canonical signed decimal numeral.
pub fn i64_to_dec(v: i64) -> (r: String)
    ensures
        r@ == int_str(v as int),
{
    if v >= 0 {
        u128_to_dec(v as u128)
    } else {
        let mut s = String::from_str("-");
        let mag: u128 = (-(v as i128)) as u128;
        let t = u128_to_dec(mag);
        s.append(t.as_str());
        proof {
            reveal_strlit("-");
            assert("-"@ + t@ =~= int_str(v as int));
        }
        s
    }
}

/// The `sep`-separated segments of `s`.  The empty string is one empty
/// segment; a trailing separator ends with an empty segment, as Rust's
/// `str::split` has it.
pub open spec fn split_spec(s: Seq<char>, sep: char) -> Seq<Seq<char>>
    decreases s.len(),
{
    if s.len() == 0 {
        seq![Seq::<char>::empty()]
    } else if s.last() == sep {
        split_spec(s.drop_last(), sep).push(Seq::<char>::empty())
    } else {
        let r = split_spec(s.drop_last(), sep);
        r.update(r.len() - 1, r.last().push(s.last()))
    }
}

/// Splitting always yields at least one segment.
pub proof fn lemma_split_len(s: Seq<char>, sep: char)
    ensures
        split_spec(s, sep).len() >= 1,
    decreases s.len(),
{
    if s.len() > 0 {
        lemma_split_len(s.drop_last(), sep);
    }
}

/// A string free of the separator is one whole segment.
pub proof fn lemma_split_no_sep(s: Seq<char>, sep: char)
    requires
        forall|i: int| 0 <= i < s.len() ==> #[trigger] s[i] != sep,
    ensures
        split_spec(s, sep) == seq![s],
    decreases s.len(),
{
    if s.len() == 0 {
        assert(split_spec(s, sep) =~~= seq![s]);
    } else {
        assert(forall|i: int|
            0 <= i < s.drop_last().len() ==> #[trigger] s.drop_last()[i] != sep);
        lemma_split_no_sep(s.drop_last(), sep);
        assert(s.last() != sep);
        assert(s.drop_last().push(s.last()) =~= s);
        assert(split_spec(s, sep) =~~= seq![s]);
    }
}

/// Splitting around one separator concatenates the two sides' segments.
pub proof fn lemma_split_append(a: Seq<char>, b: Seq<char>, sep: char)
    ensures
        split_spec(a + seq![sep] + b, sep) == split_spec(a, sep) + split_spec(b, sep),
    decreases b.len(),
{
    lemma_split_len(a, sep);
    if b.len() == 0 {
        let s = a + seq![sep] + b;
        assert(s.last() == sep);
        assert(s.drop_last() =~= a);
        assert(split_spec(s, sep) =~~= split_spec(a, sep) + split_spec(b, sep));
    } else {
        lemma_split_append(a, b.drop_last(), sep);
        lemma_split_len(b.drop_last(), sep);
        let s = a + seq![sep] + b;
        assert(s.drop_last() =~= a + seq![sep] + b.drop_last());
        assert(s.last() == b.last());
        if b.last() == sep {
            assert(split_spec(s, sep) =~~= split_spec(a, sep) + split_spec(b, sep));
        } else {
            let l = split_spec(a, sep) + split_spec(b.drop_last(), sep);
            assert(split_spec(s, sep) == l.update(l.len() - 1, l.last().push(b.last())));
            assert(l.last() == split_spec(b.drop_last(), sep).last());
            assert(split_spec(s, sep) =~~= split_spec(a, sep) + split_spec(b, sep));
        }
    }
}

/// Splits `s` on `sep`, each segment as its characters.
pub fn split_chars(s: &str, sep: char) -> (r: Vec<Vec<char>>)
    ensures
        r.deep_view() == split_spec(s@, sep),
        r.len() >= 1,
{
    let n = s.unicode_len();
    let mut parts: Vec<Vec<char>> = Vec::new();
    parts.push(Vec::new());
    proof {
        assert(s@.take(0) =~= Seq::<char>::empty());
        assert(parts.deep_view() =~~= split_spec(s@.take(0), sep));
    }
    let mut i: usize = 0;
    while i < n
        invariant
            i <= n,
            n == s@.len(),
            parts.len() >= 1,
            parts.deep_view() == split_spec(s@.take(i as int), sep),
        decreases n - i,
    {
        let c = s.get_char(i);
        proof {
            assert(s@.take(i + 1).drop_last() =~= s@.take(i as int));
            assert(s@.take(i + 1).last() == s@[i as int]);
        }
        if c == sep {
            parts.push(Vec::new());
            proof {
                assert(parts.deep_view() =~~= split_spec(s@.take(i + 1), sep));
            }
        } else {
            let last_idx = parts.len() - 1;
            let mut seg = match parts.pop() {
                Some(v) => v,
                None => Vec::new(),
            };
            seg.push(c);
            parts.push(seg);
            proof {
                assert(parts.deep_view() =~~= split_spec(s@.take(i + 1), sep));
            }
        }
        i = i + 1;
    }
    proof {
        assert(s@.take(n as int) =~= s@);
    }
    parts
}

/// Compares two strings character by character.
pub fn str_eq(a: &str, b: &str) -> (r: bool)
    ensures
        r == (a@ == b@),
{
    let na = a.unicode_len();
    let nb = b.unicode_len();
    if na != nb {
        return false;
    }
    let mut i: usize = 0;
    while i < na
        invariant
            i <= na,
            na == a@.len(),
            na == b@.len(),
            forall|j: int| 0 <= j < i ==> a@[j] == b@[j],
        decreases na - i,
    {
        if a.get_char(i) != b.get_char(i) {
            return false;
        }
        i = i + 1;
    }
    proof {
        assert(a@ =~= b@);
    }
    true
}


/// The combined length of a list of segments.
pub open spec fn seg_total_len(parts: Seq<Seq<char>>) -> int
    decreases parts.len(),
{
    if parts.len() == 0 {
        0
    } else {
        seg_total_len(parts.drop_last()) + parts.last().len()
    }
}

/// Segment lengths are never negative in total.
pub proof fn lemma_seg_total_nonneg(parts: Seq<Seq<char>>)
    ensures
        seg_total_len(parts) >= 0,
    decreases parts.len(),
{
    if parts.len() > 0 {
        lemma_seg_total_nonneg(parts.drop_last());
    }
}

/// Splitting consumes every character: the segments' lengths plus one
/// separator between each adjacent pair add up to the whole string.
pub proof fn lemma_split_total_len(s: Seq<char>, sep: char)
    ensures
        seg_total_len(split_spec(s, sep)) + split_spec(s, sep).len() - 1 == s.len(),
    decreases s.len(),
{
    if s.len() == 0 {
        assert(seq![Seq::<char>::empty()].drop_last() =~= Seq::<Seq<char>>::empty());
        assert(seg_total_len(Seq::<Seq<char>>::empty()) == 0);
        assert(seg_total_len(split_spec(s, sep)) == 0);
    } else {
        lemma_split_total_len(s.drop_last(), sep);
        lemma_split_len(s.drop_last(), sep);
        if s.last() == sep {
            let r = split_spec(s.drop_last(), sep);
            assert(split_spec(s, sep).drop_last() =~= r);
            assert(split_spec(s, sep).last() =~= Seq::<char>::empty());
            assert(seg_total_len(split_spec(s, sep)) == seg_total_len(r));
        } else {
            let r = split_spec(s.drop_last(), sep);
            let u = split_spec(s, sep);
            assert(u == r.update(r.len() - 1, r.last().push(s.last())));
            assert(u.drop_last() =~= r.drop_last());
            assert(u.last() == r.last().push(s.last()));
            assert(seg_total_len(r) == seg_total_len(r.drop_last()) + r.last().len());
            assert(seg_total_len(u) == seg_total_len(r.drop_last()) + r.last().len() + 1);
        }
    }
}

} // verus!
