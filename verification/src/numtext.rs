//! Decimal text for integers: the spec-level representation, verified
//! rendering, verified parsing, and the round-trip lemmas that the cache
//! codec builds on.

use vstd::prelude::*;
use vstd::string::StrSliceExecFns;
use vstd::string::StringExecFns;

verus! {

/// The character of a single decimal digit.
pub open spec fn digit_char(d: int) -> char {
    if d == 0 {
        '0'
    } else if d == 1 {
        '1'
    } else if d == 2 {
        '2'
    } else if d == 3 {
        '3'
    } else if d == 4 {
        '4'
    } else if d == 5 {
        '5'
    } else if d == 6 {
        '6'
    } else if d == 7 {
        '7'
    } else if d == 8 {
        '8'
    } else {
        '9'
    }
}

pub open spec fn is_digit(c: char) -> bool {
    '0' as int <= c as int <= '9' as int
}

pub open spec fn digit_val(c: char) -> int {
    c as int - '0' as int
}

/// The decimal text of a nonnegative integer, most significant digit first.
pub open spec fn dec_rep(n: int) -> Seq<char>
    decreases n,
{
    if n < 10 {
        seq![digit_char(n)]
    } else {
        dec_rep(n / 10).push(digit_char(n % 10))
    }
}

/// The decimal text of any integer, with a leading minus sign if negative.
pub open spec fn int_rep(n: int) -> Seq<char> {
    if n < 0 {
        seq!['-'] + dec_rep(-n)
    } else {
        dec_rep(n)
    }
}

pub proof fn lemma_dec_rep_digits(n: int)
    requires
        0 <= n,
    ensures
        dec_rep(n).len() >= 1,
        forall|i: int| 0 <= i < dec_rep(n).len() ==> is_digit(#[trigger] dec_rep(n)[i]),
    decreases n,
{
    if n >= 10 {
        lemma_dec_rep_digits(n / 10);
    }
}

/// Greedy accumulation of decimal digits, failing once the value would
/// leave the `u64` range.
pub open spec fn parse_nat_loop(s: Seq<char>, acc: int) -> Option<(int, Seq<char>)>
    decreases s.len(),
{
    if s.len() > 0 && is_digit(s[0]) {
        let acc2 = acc * 10 + digit_val(s[0]);
        if acc2 > u64::MAX {
            None
        } else {
            parse_nat_loop(s.drop_first(), acc2)
        }
    } else {
        Some((acc, s))
    }
}

/// Parses a nonempty run of decimal digits into a value in `u64` range.
pub open spec fn parse_nat(s: Seq<char>) -> Option<(int, Seq<char>)> {
    if s.len() > 0 && is_digit(s[0]) {
        parse_nat_loop(s, 0)
    } else {
        None
    }
}

/// Parses an optionally signed decimal integer into a value in `i64` range.
pub open spec fn parse_int(s: Seq<char>) -> Option<(int, Seq<char>)> {
    if s.len() > 0 && s[0] == '-' {
        match parse_nat(s.drop_first()) {
            Some((m, rest)) => if 1 <= m <= i64::MAX as int + 1 {
                Some((-m, rest))
            } else {
                None
            },
            None => None,
        }
    } else {
        match parse_nat(s) {
            Some((m, rest)) => if m <= i64::MAX as int {
                Some((m, rest))
            } else {
                None
            },
            None => None,
        }
    }
}

/// Expects the single character `c` at the front.
pub open spec fn parse_lit(s: Seq<char>, c: char) -> Option<Seq<char>> {
    if s.len() > 0 && s[0] == c {
        Some(s.drop_first())
    } else {
        None
    }
}

pub open spec fn pow10(k: nat) -> int
    decreases k,
{
    if k == 0 {
        1
    } else {
        10 * pow10((k - 1) as nat)
    }
}

proof fn lemma_parse_nat_loop_rep(n: int, rest: Seq<char>, acc: int)
    requires
        0 <= n,
        0 <= acc,
        acc * pow10(dec_rep(n).len()) + n <= u64::MAX,
    ensures
        parse_nat_loop(dec_rep(n) + rest, acc) == parse_nat_loop(
            rest,
            acc * pow10(dec_rep(n).len()) + n,
        ),
    decreases n,
{
    lemma_dec_rep_digits(n);
    if n < 10 {
        let s = dec_rep(n) + rest;
        assert(s[0] == digit_char(n));
        assert(digit_val(digit_char(n)) == n);
        assert(pow10(0) == 1);
        assert(pow10(1) == 10);
        assert(s.drop_first() =~= rest);
        assert(acc * 10 + n <= u64::MAX);
    } else {
        let d = n % 10;
        let m = n / 10;
        let lm = dec_rep(m).len();
        assert(dec_rep(n) == dec_rep(m).push(digit_char(d)));
        assert(dec_rep(n).len() == lm + 1);
        assert(pow10(lm + 1) == 10 * pow10(lm)) by {
            assert(pow10((lm + 1) as nat) == 10 * pow10(((lm + 1) as nat - 1) as nat));
        }
        assert(dec_rep(n) + rest =~= dec_rep(m) + (seq![digit_char(d)] + rest));
        assert(pow10(lm) >= 1) by {
            lemma_pow10_pos(lm as nat);
        }
        // the recursive call's bound
        assert(acc * pow10(lm) + m <= u64::MAX) by (nonlinear_arith)
            requires
                0 <= acc,
                0 <= m,
                0 <= d < 10,
                n == m * 10 + d,
                pow10(lm + 1) == 10 * pow10(lm),
                pow10(lm) >= 1,
                acc * pow10(lm + 1) + n <= u64::MAX,
        {
        }
        lemma_parse_nat_loop_rep(m, seq![digit_char(d)] + rest, acc);
        let acc1 = acc * pow10(lm) + m;
        let s1 = seq![digit_char(d)] + rest;
        assert(s1[0] == digit_char(d));
        assert(digit_val(digit_char(d)) == d);
        assert(acc1 * 10 + d == acc * pow10(lm + 1) + n) by (nonlinear_arith)
            requires
                acc1 == acc * pow10(lm) + m,
                n == m * 10 + d,
                pow10(lm + 1) == 10 * pow10(lm),
        {
        }
        assert(s1.drop_first() =~= rest);
    }
}

proof fn lemma_pow10_pos(k: nat)
    ensures
        pow10(k) >= 1,
    decreases k,
{
    if k > 0 {
        lemma_pow10_pos((k - 1) as nat);
    }
}

/// Rendering a value and parsing it back yields the value, whatever text
/// follows, provided that text does not begin with another digit.
pub proof fn lemma_parse_nat_rep(n: int, rest: Seq<char>)
    requires
        0 <= n <= u64::MAX,
        rest.len() == 0 || !is_digit(rest[0]),
    ensures
        parse_nat(dec_rep(n) + rest) == Some((n, rest)),
{
    lemma_dec_rep_digits(n);
    lemma_pow10_pos(dec_rep(n).len());
    assert((dec_rep(n) + rest)[0] == dec_rep(n)[0]);
    assert(0 * pow10(dec_rep(n).len()) + n <= u64::MAX);
    lemma_parse_nat_loop_rep(n, rest, 0);
}

/// The signed form of the round trip.
pub proof fn lemma_parse_int_rep(n: int, rest: Seq<char>)
    requires
        i64::MIN <= n <= i64::MAX,
        rest.len() == 0 || !is_digit(rest[0]),
    ensures
        parse_int(int_rep(n) + rest) == Some((n, rest)),
{
    if n < 0 {
        let s = int_rep(n) + rest;
        assert(s[0] == '-');
        assert(s.drop_first() =~= dec_rep(-n) + rest);
        lemma_parse_nat_rep(-n, rest);
        assert(1 <= -n <= i64::MAX as int + 1);
    } else {
        assert(int_rep(n) + rest =~= dec_rep(n) + rest);
        lemma_parse_nat_rep(n, rest);
        lemma_dec_rep_digits(n);
        assert(is_digit((dec_rep(n) + rest)[0]));
        assert((dec_rep(n) + rest)[0] != '-');
    }
}

fn digit_str(d: u64) -> (r: &'static str)
    requires
        d < 10,
    ensures
        r@ =~= seq![digit_char(d as int)],
{
    proof {
        reveal_strlit("0");
        reveal_strlit("1");
        reveal_strlit("2");
        reveal_strlit("3");
        reveal_strlit("4");
        reveal_strlit("5");
        reveal_strlit("6");
        reveal_strlit("7");
        reveal_strlit("8");
        reveal_strlit("9");
    }
    if d == 0 {
        "0"
    } else if d == 1 {
        "1"
    } else if d == 2 {
        "2"
    } else if d == 3 {
        "3"
    } else if d == 4 {
        "4"
    } else if d == 5 {
        "5"
    } else if d == 6 {
        "6"
    } else if d == 7 {
        "7"
    } else if d == 8 {
        "8"
    } else {
        "9"
    }
}

/// Appends the decimal text of `n` to `out`.
pub fn push_dec_u64(out: &mut String, n: u64)
    ensures
        final(out)@ == old(out)@ + dec_rep(n as int),
    decreases n,
{
    if n < 10 {
        out.append(digit_str(n));
        proof {
            assert(old(out)@ + seq![digit_char(n as int)] =~= old(out)@ + dec_rep(n as int));
        }
    } else {
        push_dec_u64(out, n / 10);
        out.append(digit_str(n % 10));
        proof {
            assert(old(out)@ + dec_rep((n / 10) as int) + seq![digit_char((n % 10) as int)]
                =~= old(out)@ + dec_rep(n as int));
        }
    }
}

/// Appends the decimal text of `n`, signed, to `out`.
pub fn push_dec_i64(out: &mut String, n: i64)
    ensures
        final(out)@ == old(out)@ + int_rep(n as int),
{
    if n >= 0 {
        push_dec_u64(out, n as u64);
    } else {
        out.append("-");
        let m: u64 = if n == i64::MIN {
            9223372036854775808u64
        } else {
            (-n) as u64
        };
        proof {
            reveal_strlit("-");
            assert(m as int == -(n as int));
        }
        push_dec_u64(out, m);
        proof {
            assert(old(out)@ + "-"@ + dec_rep(m as int) =~= old(out)@ + int_rep(n as int));
        }
    }
}

fn exec_is_digit(c: char) -> (r: bool)
    ensures
        r == is_digit(c),
{
    c >= '0' && c <= '9'
}

/// Parses a digit run starting at character position `pos` of `text`.
pub fn exec_parse_nat(text: &str, pos: usize) -> (r: Option<(u64, usize)>)
    requires
        pos <= text@.len(),
    ensures
        match r {
            Some(pr) => pos <= pr.1 <= text@.len() && parse_nat(text@.skip(pos as int)) == Some(
                (pr.0 as int, text@.skip(pr.1 as int)),
            ),
            None => parse_nat(text@.skip(pos as int)) is None,
        },
{
    let len = text.unicode_len();
    if pos == len {
        return None;
    }
    let c0 = text.get_char(pos);
    proof {
        assert(text@.skip(pos as int)[0] == c0);
    }
    if !exec_is_digit(c0) {
        return None;
    }
    let ghost s0 = text@.skip(pos as int);
    let mut i: usize = pos;
    let mut acc: u64 = 0;
    loop
        invariant
            pos <= i <= len,
            len == text@.len(),
            s0 == text@.skip(pos as int),
            s0.len() > 0 && is_digit(s0[0]),
            parse_nat_loop(s0, 0) == parse_nat_loop(text@.skip(i as int), acc as int),
        decreases len - i,
    {
        if i == len {
            proof {
                assert(text@.skip(i as int).len() == 0);
            }
            return Some((acc, i));
        }
        let c = text.get_char(i);
        proof {
            assert(text@.skip(i as int)[0] == c);
        }
        if !exec_is_digit(c) {
            return Some((acc, i));
        }
        let d: u64 = (c as u32 - 48) as u64;
        proof {
            assert('0' as int == 48);
            assert(d as int == digit_val(c));
        }
        if acc > (u64::MAX - d) / 10 {
            proof {
                assert(acc as int * 10 + d as int > u64::MAX) by (nonlinear_arith)
                    requires
                        0 <= d < 10,
                        acc as int > ((u64::MAX - d) as int) / 10,
                        acc <= u64::MAX,
                {
                }
            }
            return None;
        }
        proof {
            assert(acc as int * 10 + d as int <= u64::MAX) by (nonlinear_arith)
                requires
                    0 <= d < 10,
                    acc as int <= ((u64::MAX - d) as int) / 10,
                    0 <= acc,
            {
            }
        }
        acc = acc * 10 + d;
        proof {
            assert(text@.skip(i as int).drop_first() =~= text@.skip(i as int + 1));
        }
        i = i + 1;
    }
}

/// Parses an optionally signed integer at `pos`, yielding an `i64`.
pub fn exec_parse_int(text: &str, pos: usize) -> (r: Option<(i64, usize)>)
    requires
        pos <= text@.len(),
    ensures
        match r {
            Some(pr) => pos <= pr.1 <= text@.len() && parse_int(text@.skip(pos as int)) == Some(
                (pr.0 as int, text@.skip(pr.1 as int)),
            ),
            None => parse_int(text@.skip(pos as int)) is None,
        },
{
    let len = text.unicode_len();
    if pos == len {
        return None;
    }
    let c0 = text.get_char(pos);
    proof {
        assert(text@.skip(pos as int)[0] == c0);
    }
    if c0 == '-' {
        proof {
            assert(text@.skip(pos as int).drop_first() =~= text@.skip(pos as int + 1));
        }
        match exec_parse_nat(text, pos + 1) {
            Some((m, p2)) => {
                if 1 <= m && m <= 9223372036854775808u64 {
                    let v: i64 = if m == 9223372036854775808u64 {
                        i64::MIN
                    } else {
                        -(m as i64)
                    };
                    Some((v, p2))
                } else {
                    None
                }
            },
            None => None,
        }
    } else {
        match exec_parse_nat(text, pos) {
            Some((m, p2)) => {
                if m <= i64::MAX as u64 {
                    Some((m as i64, p2))
                } else {
                    None
                }
            },
            None => None,
        }
    }
}

/// Expects character `c` at `pos`.
pub fn exec_parse_lit(text: &str, pos: usize, c: char) -> (r: Option<usize>)
    requires
        pos <= text@.len(),
    ensures
        match r {
            Some(p2) => pos < p2 <= text@.len() && parse_lit(text@.skip(pos as int), c) == Some(
                text@.skip(p2 as int),
            ),
            None => parse_lit(text@.skip(pos as int), c) is None,
        },
{
    let len = text.unicode_len();
    if pos == len {
        return None;
    }
    let c0 = text.get_char(pos);
    proof {
        assert(text@.skip(pos as int)[0] == c0);
        assert(text@.skip(pos as int).drop_first() =~= text@.skip(pos as int + 1));
    }
    if c0 == c {
        Some(pos + 1)
    } else {
        None
    }
}

} // verus!
