use vstd::prelude::*;

verus! {

// ---------------------------------------------------------------------------
// Whitespace and token splitting
// ---------------------------------------------------------------------------

/// The separators recognized inside a report row: space, tab and carriage
/// return.  Rows reach the parser already split into lines, so a line feed
/// never occurs in one.
pub open spec fn is_space(c: char) -> bool {
    c == ' ' || c == '\t' || c == '\r'
}

/// A pending token becomes one element of the token list, unless it is empty.
pub open spec fn flush(cur: Seq<char>) -> Seq<Seq<char>> {
    if cur.len() == 0 {
        Seq::empty()
    } else {
        seq![cur]
    }
}

/// Splitting, one character at a time: `cur` is the token read so far.
pub open spec fn split_rec(s: Seq<char>, cur: Seq<char>) -> Seq<Seq<char>>
    decreases s.len(),
{
    if s.len() == 0 {
        flush(cur)
    } else if is_space(s[0]) {
        flush(cur) + split_rec(s.skip(1), Seq::empty())
    } else {
        split_rec(s.skip(1), cur.push(s[0]))
    }
}

/// The whitespace-separated tokens of a line, in order; empty tokens never
/// arise, so consecutive separators collapse.
pub open spec fn tokens_of(s: Seq<char>) -> Seq<Seq<char>> {
    split_rec(s, Seq::empty())
}

/// One splitting step over a separator: the pending token is flushed.
proof fn lemma_split_step_space(s: Seq<char>, start: int, i: int)
    requires
        0 <= start <= i < s.len(),
        is_space(s[i]),
    ensures
        split_rec(s.skip(i), s.subrange(start, i)) == flush(s.subrange(start, i)) + split_rec(
            s.skip(i + 1),
            Seq::empty(),
        ),
{
    assert(s.skip(i)[0] == s[i]);
    assert(s.skip(i).skip(1) =~= s.skip(i + 1));
}

/// One splitting step over an ordinary character: it joins the pending token.
proof fn lemma_split_step_char(s: Seq<char>, start: int, i: int)
    requires
        0 <= start <= i < s.len(),
        !is_space(s[i]),
    ensures
        split_rec(s.skip(i), s.subrange(start, i)) == split_rec(
            s.skip(i + 1),
            s.subrange(start, i + 1),
        ),
{
    assert(s.skip(i)[0] == s[i]);
    assert(s.skip(i).skip(1) =~= s.skip(i + 1));
    assert(s.subrange(start, i).push(s[i]) =~= s.subrange(start, i + 1));
}

/// Splits a line into its whitespace-separated tokens.
pub fn split_tokens(s: &str) -> (toks: Vec<String>)
    ensures
        toks.deep_view() == tokens_of(s@),
{
    let n = s.unicode_len();
    let mut toks: Vec<String> = Vec::new();
    let mut start: usize = 0;
    let mut i: usize = 0;
    proof {
        assert(s@.skip(0) =~= s@);
        assert(s@.subrange(0, 0) =~= Seq::<char>::empty());
    }
    while i < n
        invariant
            n == s@.len(),
            start <= i <= n,
            toks.deep_view() + split_rec(s@.skip(i as int), s@.subrange(start as int, i as int))
                == tokens_of(s@),
        decreases n - i,
    {
        let ghost cur = s@.subrange(start as int, i as int);
        let ghost prev = toks.deep_view();
        let c = s.get_char(i);
        if c == ' ' || c == '\t' || c == '\r' {
            proof {
                lemma_split_step_space(s@, start as int, i as int);
            }
            if start < i {
                let tok = s.substring_char(start, i).to_owned();
                toks.push(tok);
                proof {
                    assert(toks.deep_view() =~= prev.push(cur));
                }
            }
            proof {
                assert(toks.deep_view() + split_rec(s@.skip(i + 1), Seq::empty()) =~= prev
                    + split_rec(s@.skip(i as int), cur));
            }
            start = i + 1;
            i = i + 1;
            proof {
                assert(s@.subrange(start as int, i as int) =~= Seq::<char>::empty());
            }
        } else {
            proof {
                lemma_split_step_char(s@, start as int, i as int);
            }
            i = i + 1;
        }
    }
    let ghost cur = s@.subrange(start as int, n as int);
    let ghost prev = toks.deep_view();
    proof {
        assert(s@.skip(n as int).len() == 0);
    }
    if start < n {
        let tok = s.substring_char(start, n).to_owned();
        toks.push(tok);
        proof {
            assert(toks.deep_view() =~= prev.push(cur));
        }
    }
    proof {
        assert(toks.deep_view() =~= tokens_of(s@));
    }
    toks
}

// ---------------------------------------------------------------------------
// Numeric tokens
// ---------------------------------------------------------------------------

/// The scanner below recognizes plain decimal floating-point text: an
/// optional sign, digits with at most one point (at least one digit
/// somewhere), and an optional exponent part.  This is the shape Xfoil
/// prints into a polar, and every accepted token is also accepted by the
/// standard library's float parsing.
#[derive(Clone, Copy, Debug, PartialEq, Eq, Structural)]
pub enum NumState {
    /// Nothing read yet.
    Start,
    /// A leading sign was read.
    Sign,
    /// Inside the integer digits (accepting).
    IntPart,
    /// A point with no digit before it.
    LonePoint,
    /// Past the point, or in fraction digits (accepting).
    FracPart,
    /// The exponent marker was read.
    ExpMark,
    /// A sign right after the exponent marker.
    ExpSign,
    /// Inside the exponent digits (accepting).
    ExpDigits,
    /// The token can no longer be a number.
    Reject,
}

pub open spec fn is_digit(c: char) -> bool {
    '0' <= c && c <= '9'
}

/// The transition of the numeric-token scanner on one character.
pub open spec fn num_step(st: NumState, c: char) -> NumState {
    match st {
        NumState::Start => if c == '+' || c == '-' {
            NumState::Sign
        } else if is_digit(c) {
            NumState::IntPart
        } else if c == '.' {
            NumState::LonePoint
        } else {
            NumState::Reject
        },
        NumState::Sign => if is_digit(c) {
            NumState::IntPart
        } else if c == '.' {
            NumState::LonePoint
        } else {
            NumState::Reject
        },
        NumState::IntPart => if is_digit(c) {
            NumState::IntPart
        } else if c == '.' {
            NumState::FracPart
        } else if c == 'e' || c == 'E' {
            NumState::ExpMark
        } else {
            NumState::Reject
        },
        NumState::LonePoint => if is_digit(c) {
            NumState::FracPart
        } else {
            NumState::Reject
        },
        NumState::FracPart => if is_digit(c) {
            NumState::FracPart
        } else if c == 'e' || c == 'E' {
            NumState::ExpMark
        } else {
            NumState::Reject
        },
        NumState::ExpMark => if c == '+' || c == '-' {
            NumState::ExpSign
        } else if is_digit(c) {
            NumState::ExpDigits
        } else {
            NumState::Reject
        },
        NumState::ExpSign => if is_digit(c) {
            NumState::ExpDigits
        } else {
            NumState::Reject
        },
        NumState::ExpDigits => if is_digit(c) {
            NumState::ExpDigits
        } else {
            NumState::Reject
        },
        NumState::Reject => NumState::Reject,
    }
}

/// The scanner state after reading the whole token.
pub open spec fn num_scan(t: Seq<char>) -> NumState
    decreases t.len(),
{
    if t.len() == 0 {
        NumState::Start
    } else {
        num_step(num_scan(t.drop_last()), t.last())
    }
}

pub open spec fn num_accepting(st: NumState) -> bool {
    st is IntPart || st is FracPart || st is ExpDigits
}

/// Whether a token is decimal floating-point text.
pub open spec fn is_number(t: Seq<char>) -> bool {
    num_accepting(num_scan(t))
}

fn num_step_exec(st: NumState, c: char) -> (r: NumState)
    ensures
        r == num_step(st, c),
{
    let digit = '0' <= c && c <= '9';
    match st {
        NumState::Start => if c == '+' || c == '-' {
            NumState::Sign
        } else if digit {
            NumState::IntPart
        } else if c == '.' {
            NumState::LonePoint
        } else {
            NumState::Reject
        },
        NumState::Sign => if digit {
            NumState::IntPart
        } else if c == '.' {
            NumState::LonePoint
        } else {
            NumState::Reject
        },
        NumState::IntPart => if digit {
            NumState::IntPart
        } else if c == '.' {
            NumState::FracPart
        } else if c == 'e' || c == 'E' {
            NumState::ExpMark
        } else {
            NumState::Reject
        },
        NumState::LonePoint => if digit {
            NumState::FracPart
        } else {
            NumState::Reject
        },
        NumState::FracPart => if digit {
            NumState::FracPart
        } else if c == 'e' || c == 'E' {
            NumState::ExpMark
        } else {
            NumState::Reject
        },
        NumState::ExpMark => if c == '+' || c == '-' {
            NumState::ExpSign
        } else if digit {
            NumState::ExpDigits
        } else {
            NumState::Reject
        },
        NumState::ExpSign => if digit {
            NumState::ExpDigits
        } else {
            NumState::Reject
        },
        NumState::ExpDigits => if digit {
            NumState::ExpDigits
        } else {
            NumState::Reject
        },
        NumState::Reject => NumState::Reject,
    }
}

/// Decides whether one token is decimal floating-point text.
pub fn is_number_token(t: &str) -> (r: bool)
    ensures
        r == is_number(t@),
{
    let n = t.unicode_len();
    let mut st = NumState::Start;
    let mut i: usize = 0;
    proof {
        assert(t@.take(0) =~= Seq::<char>::empty());
    }
    while i < n
        invariant
            n == t@.len(),
            i <= n,
            st == num_scan(t@.take(i as int)),
        decreases n - i,
    {
        let c = t.get_char(i);
        st = num_step_exec(st, c);
        i = i + 1;
        proof {
            assert(t@.take(i as int).drop_last() =~= t@.take(i - 1));
            assert(t@.take(i as int).last() == t@[i - 1]);
        }
    }
    proof {
        assert(t@.take(n as int) =~= t@);
    }
    match st {
        NumState::IntPart => true,
        NumState::FracPart => true,
        NumState::ExpDigits => true,
        _ => false,
    }
}

// ---------------------------------------------------------------------------
// Decimal rendering of an integer
// ---------------------------------------------------------------------------

/// The character of one decimal digit.
pub open spec fn digit_char(d: int) -> char {
    if d == 0 {
        '0'
    } else if d == 1 {
        '1'
    } else if d == 2 {
        '2'
    } else if d == 3 {
        '3'
    } else if d == 4 {
        '4'
    } else if d == 5 {
        '5'
    } else if d == 6 {
        '6'
    } else if d == 7 {
        '7'
    } else if d == 8 {
        '8'
    } else {
        '9'
    }
}

/// The decimal text of a non-negative integer, most significant digit first,
/// without sign, leading zeros or separators.
pub open spec fn dec_seq(n: int) -> Seq<char>
    decreases n,
{
    if n < 10 {
        seq![digit_char(n)]
    } else {
        dec_seq(n / 10).push(digit_char(n % 10))
    }
}

fn digit_str(d: usize) -> (r: &'static str)
    requires
        d < 10,
    ensures
        r@ =~= seq![digit_char(d as int)],
{
    proof {
        reveal_strlit("0");
        reveal_strlit("1");
        reveal_strlit("2");
        reveal_strlit("3");
        reveal_strlit("4");
        reveal_strlit("5");
        reveal_strlit("6");
        reveal_strlit("7");
        reveal_strlit("8");
        reveal_strlit("9");
    }
    match d {
        0 => "0",
        1 => "1",
        2 => "2",
        3 => "3",
        4 => "4",
        5 => "5",
        6 => "6",
        7 => "7",
        8 => "8",
        _ => "9",
    }
}

/// Renders a non-negative integer as decimal text.
pub fn decimal_string(n: usize) -> (r: String)
    ensures
        r@ == dec_seq(n as int),
    decreases n,
{
    if n < 10 {
        digit_str(n).to_owned()
    } else {
        let mut s = decimal_string(n / 10);
        s.append(digit_str(n % 10));
        proof {
            assert(s@ =~= dec_seq(n as int));
        }
        s
    }
}

} // verus!
