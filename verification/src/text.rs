//! Text that is put together from plain values.
use vstd::prelude::*;
use vstd::string::StringExecFns;

verus! {

/// The decimal digit `d`.
pub open spec fn digit(d: nat) -> char {
    (('0' as u32) + d) as char
}

/// The decimal digits of `n`, without leading zeros.
pub open spec fn digits(n: nat) -> Seq<char>
    decreases n,
{
    if n < 10 {
        seq![digit(n)]
    } else {
        digits(n / 10).push(digit(n % 10))
    }
}

/// The decimal notation of `n`.
pub open spec fn decimal(n: int) -> Seq<char> {
    if n < 0 {
        seq!['-'] + digits((-n) as nat)
    } else {
        digits(n as nat)
    }
}

/// The text of one decimal digit.
fn digit_text(d: u64) -> (s: &'static str)
    requires
        d < 10,
    ensures
        s@ == seq![digit(d as nat)],
{
    proof {
        reveal_strlit("0");
        reveal_strlit("1");
        reveal_strlit("2");
        reveal_strlit("3");
        reveal_strlit("4");
        reveal_strlit("5");
        reveal_strlit("6");
        reveal_strlit("7");
        reveal_strlit("8");
        reveal_strlit("9");
    }
    match d {
        0 => "0",
        1 => "1",
        2 => "2",
        3 => "3",
        4 => "4",
        5 => "5",
        6 => "6",
        7 => "7",
        8 => "8",
        _ => "9",
    }
}

/// The decimal notation of a number that is not negative.
pub fn digits_text(n: u64) -> (s: String)
    ensures
        s@ == digits(n as nat),
    decreases n,
{
    if n < 10 {
        String::new().concat(digit_text(n))
    } else {
        let mut s = digits_text(n / 10);
        s.append(digit_text(n % 10));
        s
    }
}

/// The decimal notation of `n`.
pub fn decimal_text(n: i64) -> (s: String)
    ensures
        s@ == decimal(n as int),
{
    if n < 0 {
        proof {
            reveal_strlit("-");
        }
        let mut s = String::new().concat("-");
        let magnitude: u64 = (-(n + 1)) as u64 + 1;
        let t = digits_text(magnitude);
        s.append(t.as_str());
        s
    } else {
        digits_text(n as u64)
    }
}

/// `prefix` followed by `rest`.
pub fn prefixed(prefix: &str, rest: &String) -> (s: String)
    ensures
        s@ == prefix@ + rest@,
{
    let mut s = String::new().concat(prefix);
    s.append(rest.as_str());
    s
}

/// A text of its own with the contents of `s`.
pub fn owned(s: &str) -> (r: String)
    ensures
        r@ == s@,
{
    String::new().concat(s)
}

/// The number that a text of decimal digits stands for.
pub open spec fn number_read(text: Seq<char>) -> int
    decreases text.len(),
{
    if text.len() == 0 {
        0
    } else {
        number_read(text.drop_last()) * 10 + (text.last() as int - '0' as int)
    }
}

/// Whether a text is made of decimal digits, with no zero in front of others.
pub open spec fn is_number(text: Seq<char>) -> bool {
    &&& text.len() > 0
    &&& forall|i: int| 0 <= i < text.len() ==> '0' <= #[trigger] text[i] <= '9'
    &&& text.len() > 1 ==> text[0] != '0'
}

/// The digits of a number are read as that number.
pub proof fn law_digits_are_read_back(n: nat)
    ensures
        is_number(digits(n)),
        number_read(digits(n)) == n,
        n > 0 ==> digits(n)[0] != '0',
    decreases n,
{
    reveal_with_fuel(number_read, 2);
    if n < 10 {
        assert(digits(n) =~= seq![digit(n)]);
        assert(digits(n).drop_last() =~= Seq::empty());
        assert(digit(n) as int == '0' as int + n);
    } else {
        law_digits_are_read_back(n / 10);
        let front = digits(n / 10);
        assert(digits(n) =~= front.push(digit(n % 10)));
        assert(digits(n).drop_last() =~= front);
        assert(digit(n % 10) as int == '0' as int + n % 10);
        assert(digits(n)[0] == front[0]);
    }
}

/// The decimal notation of a number is read as that number: the digits of its
/// size, with a minus sign before them if and only if it is negative.
pub proof fn law_decimal_is_read_back(n: int)
    ensures
        n >= 0 ==> is_number(decimal(n)) && number_read(decimal(n)) == n,
        n < 0 ==> {
            &&& decimal(n).len() > 0
            &&& decimal(n)[0] == '-'
            &&& is_number(decimal(n).drop_first())
            &&& number_read(decimal(n).drop_first()) == -n
        },
{
    if n < 0 {
        law_digits_are_read_back((-n) as nat);
        assert(decimal(n).drop_first() =~= digits((-n) as nat));
    } else {
        law_digits_are_read_back(n as nat);
    }
}

} // verus!
