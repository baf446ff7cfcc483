//! The file format of a counter: the decimal digits of its value.
use vstd::prelude::*;

verus! {

/// The character of a decimal digit `d` (0 to 9).
pub open spec fn digit_char(d: nat) -> char {
    seq!['0', '1', '2', '3', '4', '5', '6', '7', '8', '9'][d as int]
}

pub open spec fn is_digit(c: char) -> bool {
    '0' <= c && c <= '9'
}

pub open spec fn digit_value(c: char) -> nat {
    (c as u32 - '0' as u32) as nat
}

/// The decimal text of `n`, most significant digit first, without leading zeros.
pub open spec fn decimal_text(n: nat) -> Seq<char>
    decreases n,
{
    if n < 10 {
        seq![digit_char(n)]
    } else {
        decimal_text(n / 10).push(digit_char(n % 10))
    }
}

/// Every character of `s` is a decimal digit, and there is at least one.
pub open spec fn is_decimal(s: Seq<char>) -> bool {
    s.len() > 0 && forall|i: int| 0 <= i < s.len() ==> is_digit(#[trigger] s[i])
}

/// The number that the digits of `s` denote.
pub open spec fn decimal_value(s: Seq<char>) -> nat
    decreases s.len(),
{
    if s.len() == 0 {
        0
    } else {
        decimal_value(s.drop_last()) * 10 + digit_value(s.last())
    }
}

/// What a reader takes for the number in a file's text: the text without
/// one trailing newline, if there is one.
pub open spec fn value_part(s: Seq<char>) -> Seq<char> {
    if s.len() > 0 && s.last() == '\n' {
        s.drop_last()
    } else {
        s
    }
}

/// The value stored in `s`, where `s` holds one that fits in a `u64`.
pub open spec fn parse_spec(s: Seq<char>) -> Option<u64> {
    let body = value_part(s);
    if is_decimal(body) && decimal_value(body) <= u64::MAX {
        Some(decimal_value(body) as u64)
    } else {
        None
    }
}

proof fn lemma_digit_char(d: nat)
    requires
        d < 10,
    ensures
        is_digit(digit_char(d)),
        digit_value(digit_char(d)) == d,
{
}

/// The decimal text of a number consists of digits that denote that number.
pub proof fn lemma_decimal_text(n: nat)
    ensures
        is_decimal(decimal_text(n)),
        decimal_value(decimal_text(n)) == n,
        decimal_text(n).last() != '\n',
    decreases n,
{
    if n < 10 {
        lemma_digit_char(n);
        assert(decimal_text(n).drop_last() =~= Seq::<char>::empty());
        assert(decimal_value(Seq::<char>::empty()) == 0);
    } else {
        lemma_decimal_text(n / 10);
        lemma_digit_char(n % 10);
        let t = decimal_text(n);
        assert(t.drop_last() =~= decimal_text(n / 10));
        assert(decimal_value(t) == decimal_value(decimal_text(n / 10)) * 10 + (n % 10 as nat));
        assert((n / 10) * 10 + n % 10 == n);
        assert forall|i: int| 0 <= i < t.len() implies is_digit(#[trigger] t[i]) by {
            if i < t.len() - 1 {
                assert(t[i] == decimal_text(n / 10)[i]);
            }
        }
    }
}

/// Reading back what was written for a value gives that value.
pub proof fn lemma_round_trip(n: u64)
    ensures
        parse_spec(decimal_text(n as nat)) == Some(n),
{
    lemma_decimal_text(n as nat);
}

/// The text of one digit.
fn digit_str(d: u64) -> (r: &'static str)
    requires
        d < 10,
    ensures
        r@ == seq![digit_char(d as nat)],
{
    let digits = "0123456789";
    proof {
        reveal_strlit("0123456789");
    }
    let r = digits.substring_char(d as usize, d as usize + 1);
    assert(r@ =~= seq![digit_char(d as nat)]);
    r
}

/// The text that a counter's file holds for `value`.
pub fn value_text(value: u64) -> (r: String)
    ensures
        r@ == decimal_text(value as nat),
    decreases value,
{
    if value < 10 {
        String::from_str(digit_str(value))
    } else {
        let mut r = value_text(value / 10);
        r.append(digit_str(value % 10));
        r
    }
}

/// Reads the value from a counter file's text; `None` where the text is not
/// the decimal digits of a number that fits in a `u64`, optionally followed
/// by one newline.
pub fn parse_value(text: &str) -> (r: Option<u64>)
    ensures
        r == parse_spec(text@),
{
    let ghost body = value_part(text@);
    let full: usize = text.unicode_len();
    let mut len: usize = full;
    if len > 0 && text.get_char(len - 1) == '\n' {
        len = len - 1;
    }
    assert(body =~= text@.subrange(0, len as int));
    if len == 0 {
        return None;
    }
    let mut acc: u64 = 0;
    let mut i: usize = 0;
    while i < len
        invariant
            len <= full == text@.len(),
            body == value_part(text@),
            body == text@.subrange(0, len as int),
            i <= len,
            is_decimal(body.subrange(0, i as int)) || i == 0,
            acc as nat == decimal_value(body.subrange(0, i as int)),
        decreases len - i,
    {
        let c = text.get_char(i);
        assert(body[i as int] == c);
        assert(body.subrange(0, i + 1).drop_last() =~= body.subrange(0, i as int));
        assert(body.subrange(0, i + 1).last() == c);
        if c < '0' || c > '9' {
            assert(!is_digit(body[i as int]));
            assert(!is_decimal(body));
            return None;
        }
        let d: u64 = (c as u32 - '0' as u32) as u64;
        assert(decimal_value(body.subrange(0, i + 1)) == acc * 10 + d);
        if acc > (u64::MAX - d) / 10 {
            assert(decimal_value(body.subrange(0, i + 1)) > u64::MAX) by (nonlinear_arith)
                requires
                    decimal_value(body.subrange(0, i + 1)) == acc * 10 + d,
                    acc > (u64::MAX - d) / 10,
                    d <= 9,
            ;
            proof {
                lemma_prefix_value_grows(body, i as int + 1, len as int);
                assert(body.subrange(0, len as int) =~= body);
            }
            return None;
        }
        acc = acc * 10 + d;
        i = i + 1;
        let ghost p = body.subrange(0, i as int);
        assert forall|j: int| 0 <= j < p.len() implies is_digit(#[trigger] p[j]) by {
            if j < i - 1 {
                assert(p[j] == body.subrange(0, i - 1)[j]);
            }
        }
    }
    assert(body.subrange(0, len as int) =~= body);
    Some(acc)
}

/// A longer prefix of digits denotes a number at least as large.
proof fn lemma_prefix_value_grows(s: Seq<char>, i: int, j: int)
    requires
        0 <= i <= j <= s.len(),
    ensures
        decimal_value(s.subrange(0, i)) <= decimal_value(s.subrange(0, j)),
    decreases j - i,
{
    if i < j {
        lemma_prefix_value_grows(s, i, j - 1);
        assert(s.subrange(0, j).drop_last() =~= s.subrange(0, j - 1));
    }
}

} // verus!
