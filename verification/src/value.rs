//! Typed reading of argument values: decimal integers and plain text.

use crate::text::chars_of;
use vstd::prelude::*;

verus! {

/// Whether `c` is a decimal digit.
pub open spec fn is_digit(c: char) -> bool {
    '0' <= c && c <= '9'
}

/// The number that the digit `c` stands for.
pub open spec fn digit_value(c: char) -> int {
    c as int - '0' as int
}

/// Whether `s` consists of decimal digits only.
pub open spec fn all_digits(s: Seq<char>) -> bool {
    forall|i: int| 0 <= i < s.len() ==> is_digit(#[trigger] s[i])
}

/// The number that a run of digits denotes, most significant digit first.
pub open spec fn digits_value(s: Seq<char>) -> int
    decreases s.len(),
{
    if s.len() == 0 {
        0
    } else {
        10 * digits_value(s.drop_last()) + digit_value(s.last())
    }
}

/// The number that a non-empty run of digits denotes.
pub open spec fn unsigned_decimal(s: Seq<char>) -> Option<int> {
    if s.len() > 0 && all_digits(s) {
        Some(digits_value(s))
    } else {
        None
    }
}

/// The integer that a decimal text denotes: digits behind an optional `+`,
/// or, where `signed`, behind an optional `-`. `None` for any other text.
pub open spec fn decimal(s: Seq<char>, signed: bool) -> Option<int> {
    if s.len() > 0 && s[0] == '+' {
        unsigned_decimal(s.skip(1))
    } else if signed && s.len() > 0 && s[0] == '-' {
        match unsigned_decimal(s.skip(1)) {
            Some(n) => Some(-n),
            None => None,
        }
    } else {
        unsigned_decimal(s)
    }
}

/// The integer that `s` denotes, if it lies in `lo..=hi`.
pub open spec fn decimal_within(s: Seq<char>, signed: bool, lo: int, hi: int) -> Option<int> {
    match decimal(s, signed) {
        Some(n) => if lo <= n <= hi {
            Some(n)
        } else {
            None
        },
        None => None,
    }
}

/// The digit that stands for `d`.
pub open spec fn digit_char(d: int) -> char {
    ('0' as int + d) as char
}

/// The decimal text of `n`, without sign or leading zeros.
pub open spec fn decimal_text(n: nat) -> Seq<char>
    decreases n,
{
    if n < 10 {
        seq![digit_char(n as int)]
    } else {
        decimal_text(n / 10).push(digit_char((n % 10) as int))
    }
}

/// The decimal text of a number denotes that number.
pub proof fn lemma_decimal_text(n: nat)
    ensures
        decimal_text(n).len() > 0,
        all_digits(decimal_text(n)),
        digits_value(decimal_text(n)) == n,
        decimal(decimal_text(n), false) == Some(n as int),
        decimal(decimal_text(n), true) == Some(n as int),
    decreases n,
{
    let t = decimal_text(n);
    if n < 10 {
        assert(t.drop_last() =~= Seq::<char>::empty());
        assert(digits_value(t.drop_last()) == 0);
        assert(t.last() == digit_char(n as int));
    } else {
        let init = decimal_text(n / 10);
        lemma_decimal_text(n / 10);
        assert(t.drop_last() =~= init);
        assert(t.last() == digit_char((n % 10) as int));
        assert forall|i: int| 0 <= i < t.len() implies is_digit(#[trigger] t[i]) by {
            if i < init.len() {
                assert(t[i] == init[i]);
            }
        }
    }
    assert(is_digit(t[0]));
}

/// The text of one digit.
fn digit_text(d: u8) -> (r: &'static str)
    requires
        d < 10,
    ensures
        r@ == seq![digit_char(d as int)],
{
    proof {
        reveal_strlit("0");
        reveal_strlit("1");
        reveal_strlit("2");
        reveal_strlit("3");
        reveal_strlit("4");
        reveal_strlit("5");
        reveal_strlit("6");
        reveal_strlit("7");
        reveal_strlit("8");
        reveal_strlit("9");
    }
    let r = match d {
        0 => "0",
        1 => "1",
        2 => "2",
        3 => "3",
        4 => "4",
        5 => "5",
        6 => "6",
        7 => "7",
        8 => "8",
        _ => "9",
    };
    assert(r@ =~= seq![digit_char(d as int)]);
    r
}

/// The decimal text of `n`.
pub fn u8_text(n: u8) -> (r: String)
    ensures
        r@ == decimal_text(n as nat),
{
    let mut out = String::new();
    if n >= 100 {
        out.append(digit_text(n / 100));
    }
    if n >= 10 {
        out.append(digit_text((n / 10) % 10));
    }
    out.append(digit_text(n % 10));
    proof {
        let m = n as nat;
        if m >= 100 {
            assert(decimal_text(m / 100) =~= seq![digit_char((m / 100) as int)]);
            assert(decimal_text(m / 10) =~= decimal_text(m / 100).push(
                digit_char(((m / 10) % 10) as int),
            ));
            assert((m / 10) / 10 == m / 100);
        } else if m >= 10 {
            assert(decimal_text(m / 10) =~= seq![digit_char((m / 10) as int)]);
        }
        assert(out@ =~= decimal_text(m));
    }
    out
}

/// The number a digit stands for, or `None` for any other character.
fn digit_of(c: char) -> (r: Option<u8>)
    ensures
        is_digit(c) ==> r == Some(digit_value(c) as u8) && 0 <= digit_value(c) <= 9,
        !is_digit(c) ==> r is None,
{
    if c >= '0' && c <= '9' {
        Some((c as u32 - 48) as u8)
    } else {
        None
    }
}

/// Largest magnitude that `read_decimal` tracks exactly.
pub const DECIMAL_LIMIT: i128 = 0x4000_0000_0000_0000_0000;

/// Read a decimal integer and accept it if it lies in `lo..=hi`.
pub(crate) fn read_decimal(text: &str, signed: bool, lo: i128, hi: i128) -> (r: Option<i128>)
    requires
        -DECIMAL_LIMIT <= lo,
        hi <= DECIMAL_LIMIT,
    ensures
        match decimal_within(text@, signed, lo as int, hi as int) {
            Some(n) => r == Some(n as i128),
            None => r is None,
        },
{
    let v = chars_of(text);
    let n = v.len();
    let mut start: usize = 0;
    let mut negative = false;
    if n > 0 && v[0] == '+' {
        start = 1;
    } else if signed && n > 0 && v[0] == '-' {
        start = 1;
        negative = true;
    }
    let ghost body = v@.skip(start as int);
    assert(start == 0 ==> body =~= v@);
    if start == n {
        return None;
    }
    let mut acc: i128 = 0;
    let mut i: usize = start;
    assert(v@.subrange(start as int, i as int) =~= Seq::<char>::empty());
    while i < n
        invariant
            start <= i <= n,
            n == v.len(),
            body == v@.skip(start as int),
            decimal(text@, signed) == match unsigned_decimal(body) {
                Some(k) => Some(if negative { -k } else { k }),
                None => None,
            },
            all_digits(v@.subrange(start as int, i as int)),
            0 <= acc <= DECIMAL_LIMIT + 1,
            acc <= DECIMAL_LIMIT ==> acc == digits_value(v@.subrange(start as int, i as int)),
            acc > DECIMAL_LIMIT ==> digits_value(v@.subrange(start as int, i as int))
                > DECIMAL_LIMIT,
        decreases n - i,
    {
        let ghost seen = v@.subrange(start as int, i as int);
        let ghost next = v@.subrange(start as int, i + 1);
        proof {
            assert(next.drop_last() =~= seen);
            assert(next.last() == v@[i as int]);
        }
        match digit_of(v[i]) {
            None => {
                proof {
                    assert(body[i - start] == v@[i as int]);
                    assert(!all_digits(body));
                }
                return None;
            },
            Some(d) => {
                proof {
                    assert forall|j: int| 0 <= j < next.len() implies is_digit(
                        #[trigger] next[j],
                    ) by {
                        if j < seen.len() {
                            assert(next[j] == seen[j]);
                        }
                    }
                }
                if acc <= DECIMAL_LIMIT {
                    let grown = 10 * acc + d as i128;
                    if grown > DECIMAL_LIMIT {
                        acc = DECIMAL_LIMIT + 1;
                    } else {
                        acc = grown;
                    }
                }
            },
        }
        i = i + 1;
    }
    assert(v@.subrange(start as int, n as int) =~= body);
    if acc > DECIMAL_LIMIT {
        return None;
    }
    let value = if negative {
        -acc
    } else {
        acc
    };
    if lo <= value && value <= hi {
        Some(value)
    } else {
        None
    }
}

/// A type that an argument value can be read as.
pub trait ArgValue: Sized {
    /// Whether `text` spells a value of this type.
    spec fn accepts(text: Seq<char>) -> bool;

    /// Whether `text` spells `value`.
    spec fn spells(text: Seq<char>, value: Self) -> bool;

    /// Read a value from its text; `None` if the text spells none.
    fn from_text(text: &str) -> (r: Option<Self>)
        ensures
            r is Some <==> Self::accepts(text@),
            r is Some ==> Self::spells(text@, r->Some_0),
    ;
}

impl ArgValue for String {
    open spec fn accepts(text: Seq<char>) -> bool {
        true
    }

    open spec fn spells(text: Seq<char>, value: String) -> bool {
        value@ == text
    }

    fn from_text(text: &str) -> (r: Option<String>) {
        Some(String::from_str(text))
    }
}

impl ArgValue for u8 {
    open spec fn accepts(text: Seq<char>) -> bool {
        decimal_within(text, false, 0, 0xff) is Some
    }

    open spec fn spells(text: Seq<char>, value: u8) -> bool {
        decimal(text, false) == Some(value as int)
    }

    fn from_text(text: &str) -> (r: Option<u8>) {
        match read_decimal(text, false, 0, 0xff) {
            Some(n) => Some(n as u8),
            None => None,
        }
    }
}

impl ArgValue for i32 {
    open spec fn accepts(text: Seq<char>) -> bool {
        decimal_within(text, true, -0x8000_0000, 0x7fff_ffff) is Some
    }

    open spec fn spells(text: Seq<char>, value: i32) -> bool {
        decimal(text, true) == Some(value as int)
    }

    fn from_text(text: &str) -> (r: Option<i32>) {
        match read_decimal(text, true, -0x8000_0000, 0x7fff_ffff) {
            Some(n) => Some(n as i32),
            None => None,
        }
    }
}

impl ArgValue for i64 {
    open spec fn accepts(text: Seq<char>) -> bool {
        decimal_within(text, true, -0x8000_0000_0000_0000, 0x7fff_ffff_ffff_ffff) is Some
    }

    open spec fn spells(text: Seq<char>, value: i64) -> bool {
        decimal(text, true) == Some(value as int)
    }

    fn from_text(text: &str) -> (r: Option<i64>) {
        match read_decimal(text, true, -0x8000_0000_0000_0000, 0x7fff_ffff_ffff_ffff) {
            Some(n) => Some(n as i64),
            None => None,
        }
    }
}

impl ArgValue for u64 {
    open spec fn accepts(text: Seq<char>) -> bool {
        decimal_within(text, false, 0, 0xffff_ffff_ffff_ffff) is Some
    }

    open spec fn spells(text: Seq<char>, value: u64) -> bool {
        decimal(text, false) == Some(value as int)
    }

    fn from_text(text: &str) -> (r: Option<u64>) {
        match read_decimal(text, false, 0, 0xffff_ffff_ffff_ffff) {
            Some(n) => Some(n as u64),
            None => None,
        }
    }
}

impl ArgValue for usize {
    open spec fn accepts(text: Seq<char>) -> bool {
        decimal_within(text, false, 0, usize::MAX as int) is Some
    }

    open spec fn spells(text: Seq<char>, value: usize) -> bool {
        decimal(text, false) == Some(value as int)
    }

    fn from_text(text: &str) -> (r: Option<usize>) {
        match read_decimal(text, false, 0, usize::MAX as i128) {
            Some(n) => Some(n as usize),
            None => None,
        }
    }
}

} // verus!
