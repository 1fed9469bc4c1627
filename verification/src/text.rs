//! Small verified text utilities: decimal rendering of integers, decimal
//! parsing, and character-wise string comparison.

use vstd::prelude::*;
use vstd::string::*;

verus! {

/// Whether `c` is a decimal digit.
pub open spec fn is_digit(c: char) -> bool {
    48 <= c as int && c as int <= 57
}

/// The numeric value of a decimal digit.
pub open spec fn digit_value(c: char) -> int {
    c as int - 48
}

/// Whether every character of `s` is a decimal digit.
pub open spec fn all_digits(s: Seq<char>) -> bool {
    forall|i: int| 0 <= i < s.len() ==> is_digit(s[i])
}

/// The number a digit string denotes, most significant digit first.
pub open spec fn digits_value(s: Seq<char>) -> int
    decreases s.len(),
{
    if s.len() == 0 {
        0
    } else {
        digits_value(s.drop_last()) * 10 + digit_value(s.last())
    }
}

/// A digit string denotes a number that is not negative.
pub proof fn lemma_digits_value_nonneg(s: Seq<char>)
    requires
        all_digits(s),
    ensures
        digits_value(s) >= 0,
    decreases s.len(),
{
    if s.len() > 0 {
        assert(all_digits(s.drop_last())) by {
            assert(forall|i: int| 0 <= i < s.len() - 1 ==> s.drop_last()[i] == s[i]);
        }
        lemma_digits_value_nonneg(s.drop_last());
    }
}

/// Extending a digit string never shrinks the number it denotes.
pub proof fn lemma_digits_value_monotone(s: Seq<char>, k: int)
    requires
        all_digits(s),
        0 <= k <= s.len(),
    ensures
        digits_value(s) >= digits_value(s.subrange(0, k)),
    decreases s.len() - k,
{
    if k == s.len() {
        assert(s.subrange(0, k) =~= s);
    } else {
        lemma_digits_value_monotone(s, k + 1);
        let longer = s.subrange(0, k + 1);
        let shorter = s.subrange(0, k);
        assert(longer.drop_last() =~= shorter);
        assert(all_digits(shorter)) by {
            assert(forall|i: int| 0 <= i < k ==> shorter[i] == s[i]);
        }
        lemma_digits_value_nonneg(shorter);
        assert(digits_value(longer) == digits_value(shorter) * 10 + digit_value(longer.last()));
        assert(is_digit(s[k]));
    }
}

/// The decimal digit character of a value below ten.
pub open spec fn digit_char(d: int) -> char {
    if d == 0 {
        '0'
    } else if d == 1 {
        '1'
    } else if d == 2 {
        '2'
    } else if d == 3 {
        '3'
    } else if d == 4 {
        '4'
    } else if d == 5 {
        '5'
    } else if d == 6 {
        '6'
    } else if d == 7 {
        '7'
    } else if d == 8 {
        '8'
    } else {
        '9'
    }
}

/// The canonical decimal rendering of a number that is not negative: no
/// sign, no leading zero except for zero itself.
pub open spec fn decimal_of(n: int) -> Seq<char>
    recommends
        n >= 0,
    decreases n,
{
    if n < 10 {
        seq![digit_char(n)]
    } else {
        decimal_of(n / 10).push(digit_char(n % 10))
    }
}

/// The canonical decimal rendering of a number that is not negative is at
/// least one character, consists of digits alone, and denotes that number.
pub proof fn lemma_decimal_of_digits(n: int)
    requires
        n >= 0,
    ensures
        all_digits(decimal_of(n)),
        decimal_of(n).len() >= 1,
        digits_value(decimal_of(n)) == n,
    decreases n,
{
    if n < 10 {
        assert(is_digit(digit_char(n)));
        let d = decimal_of(n);
        assert(d == seq![digit_char(n)]);
        assert(d.len() == 1);
        assert(d.last() == digit_char(n));
        assert(d.drop_last() =~= Seq::<char>::empty());
        assert(digits_value(Seq::<char>::empty()) == 0);
        assert(digits_value(d) == digits_value(d.drop_last()) * 10 + digit_value(d.last()));
    } else {
        lemma_decimal_of_digits(n / 10);
        let d = decimal_of(n / 10);
        let whole = decimal_of(n);
        assert(whole == d.push(digit_char(n % 10)));
        assert(whole.drop_last() =~= d);
        assert(is_digit(digit_char(n % 10)));
        assert forall|i: int| 0 <= i < whole.len() implies is_digit(whole[i]) by {
            if i < d.len() {
                assert(whole[i] == d[i]);
            }
        }
        assert(digits_value(whole) == digits_value(d) * 10 + digit_value(digit_char(n % 10)));
        assert(n / 10 * 10 + n % 10 == n);
    }
}

/// The one-character string of a decimal digit.
fn digit_str(d: u64) -> (r: &'static str)
    requires
        d < 10,
    ensures
        r@ == seq![digit_char(d as int)],
{
    if d == 0 {
        proof {
            reveal_strlit("0");
            assert("0"@ =~= seq![digit_char(0)]);
        }
        "0"
    } else if d == 1 {
        proof {
            reveal_strlit("1");
            assert("1"@ =~= seq![digit_char(1)]);
        }
        "1"
    } else if d == 2 {
        proof {
            reveal_strlit("2");
            assert("2"@ =~= seq![digit_char(2)]);
        }
        "2"
    } else if d == 3 {
        proof {
            reveal_strlit("3");
            assert("3"@ =~= seq![digit_char(3)]);
        }
        "3"
    } else if d == 4 {
        proof {
            reveal_strlit("4");
            assert("4"@ =~= seq![digit_char(4)]);
        }
        "4"
    } else if d == 5 {
        proof {
            reveal_strlit("5");
            assert("5"@ =~= seq![digit_char(5)]);
        }
        "5"
    } else if d == 6 {
        proof {
            reveal_strlit("6");
            assert("6"@ =~= seq![digit_char(6)]);
        }
        "6"
    } else if d == 7 {
        proof {
            reveal_strlit("7");
            assert("7"@ =~= seq![digit_char(7)]);
        }
        "7"
    } else if d == 8 {
        proof {
            reveal_strlit("8");
            assert("8"@ =~= seq![digit_char(8)]);
        }
        "8"
    } else {
        proof {
            reveal_strlit("9");
            assert("9"@ =~= seq![digit_char(9)]);
        }
        "9"
    }
}

/// Renders `n` in canonical decimal.
pub fn u64_to_string(n: u64) -> (r: String)
    ensures
        r@ == decimal_of(n as int),
    decreases n,
{
    if n < 10 {
        String::from_str(digit_str(n))
    } else {
        let prefix = u64_to_string(n / 10);
        let r = prefix.concat(digit_str(n % 10));
        proof {
            assert(decimal_of((n / 10) as int).push(digit_char((n % 10) as int)) =~= decimal_of(
                (n / 10) as int,
            ) + seq![digit_char((n % 10) as int)]);
        }
        r
    }
}

/// The number an optionally plus-signed digit string denotes, when it has at
/// least one digit, only digits, and fits the type; nothing otherwise.
pub open spec fn parse_u32_spec(s: Seq<char>) -> Option<u32> {
    let body = if s.len() > 0 && s[0] == '+' {
        s.drop_first()
    } else {
        s
    };
    if body.len() > 0 && all_digits(body) && digits_value(body) <= u32::MAX {
        Some(digits_value(body) as u32)
    } else {
        None
    }
}

/// Parses an optionally plus-signed decimal number.
pub fn parse_u32(s: &str) -> (r: Option<u32>)
    ensures
        r == parse_u32_spec(s@),
{
    let n = s.unicode_len();
    let start: usize = if n > 0 && s.get_char(0) == '+' {
        1
    } else {
        0
    };
    let ghost body = s@.subrange(start as int, n as int);
    proof {
        if start == 1 {
            assert(body =~= s@.drop_first());
        } else {
            assert(body =~= s@);
        }
    }
    if start >= n {
        return None;
    }
    let mut value: u32 = 0;
    let mut i: usize = start;
    while i < n
        invariant
            start <= i <= n,
            n == s@.len(),
            start < n,
            body == s@.subrange(start as int, n as int),
            body == (if s@.len() > 0 && s@[0] == '+' {
                s@.drop_first()
            } else {
                s@
            }),
            all_digits(body.subrange(0, i - start)),
            value == digits_value(body.subrange(0, i - start)),
        decreases n - i,
    {
        let ghost prefix = body.subrange(0, i - start);
        let code = s.get_char(i) as u32;
        if code < 48 || code > 57 {
            proof {
                assert(body[i - start] == s@[i as int]);
                assert(!is_digit(body[i - start]));
            }
            return None;
        }
        let digit = code - 48;
        let wide: u64 = value as u64 * 10 + digit as u64;
        proof {
            assert(body.subrange(0, i - start + 1).drop_last() =~= prefix);
            assert(body.subrange(0, i - start + 1).last() == s@[i as int]);
        }
        if wide > u32::MAX as u64 {
            proof {
                let checked = body.subrange(0, i - start + 1);
                assert(digits_value(checked) > u32::MAX);
                if all_digits(body) && digits_value(body) <= u32::MAX {
                    lemma_digits_value_monotone(body, i - start + 1);
                }
            }
            return None;
        }
        value = (wide as u32);
        i = i + 1;
    }
    proof {
        assert(body.subrange(0, n - start) =~= body);
    }
    Some(value)
}

/// The whitespace characters, as the standard library's trimming understands
/// them.
pub open spec fn is_space_char(c: char) -> bool {
    ||| c as int == 9
    ||| c as int == 10
    ||| c as int == 11
    ||| c as int == 12
    ||| c as int == 13
    ||| c as int == 32
    ||| c as int == 0x85
    ||| c as int == 0xA0
    ||| c as int == 0x1680
    ||| (0x2000 <= c as int && c as int <= 0x200A)
    ||| c as int == 0x2028
    ||| c as int == 0x2029
    ||| c as int == 0x202F
    ||| c as int == 0x205F
    ||| c as int == 0x3000
}

/// Whether `c` is whitespace.
pub fn is_space(c: char) -> (r: bool)
    ensures
        r == is_space_char(c),
{
    let u = c as u32;
    (9 <= u && u <= 13) || u == 32 || u == 0x85 || u == 0xA0 || u == 0x1680 || (0x2000 <= u && u
        <= 0x200A) || u == 0x2028 || u == 0x2029 || u == 0x202F || u == 0x205F || u == 0x3000
}

/// `s` without its leading whitespace.
pub open spec fn trim_front(s: Seq<char>) -> Seq<char>
    decreases s.len(),
{
    if s.len() > 0 && is_space_char(s[0]) {
        trim_front(s.drop_first())
    } else {
        s
    }
}

/// `s` without its trailing whitespace.
pub open spec fn trim_back(s: Seq<char>) -> Seq<char>
    decreases s.len(),
{
    if s.len() > 0 && is_space_char(s.last()) {
        trim_back(s.drop_last())
    } else {
        s
    }
}

/// `s` without its leading and trailing whitespace.
pub open spec fn trimmed(s: Seq<char>) -> Seq<char> {
    trim_back(trim_front(s))
}

/// Dropping the leading whitespace keeps the text from its first non-space
/// character on.
pub proof fn lemma_trim_front_subrange(s: Seq<char>, lo: int)
    requires
        0 <= lo <= s.len(),
        forall|k: int| 0 <= k < lo ==> is_space_char(s[k]),
        lo == s.len() || !is_space_char(s[lo]),
    ensures
        trim_front(s) == s.subrange(lo, s.len() as int),
    decreases lo,
{
    if lo == 0 {
        assert(trim_front(s) =~= s.subrange(0, s.len() as int));
    } else {
        let d = s.drop_first();
        assert(forall|k: int| 0 <= k < lo - 1 ==> d[k] == s[k + 1]);
        lemma_trim_front_subrange(d, lo - 1);
        assert(d.subrange(lo - 1, d.len() as int) =~= s.subrange(lo, s.len() as int));
    }
}

/// Dropping the trailing whitespace keeps the text up to its last non-space
/// character.
pub proof fn lemma_trim_back_subrange(s: Seq<char>, hi: int)
    requires
        0 <= hi <= s.len(),
        forall|k: int| hi <= k < s.len() ==> is_space_char(s[k]),
        hi == 0 || !is_space_char(s[hi - 1]),
    ensures
        trim_back(s) == s.subrange(0, hi),
    decreases s.len() - hi,
{
    if hi == s.len() {
        assert(trim_back(s) =~= s.subrange(0, hi));
    } else {
        let d = s.drop_last();
        assert(forall|k: int| hi <= k < d.len() ==> d[k] == s[k]);
        lemma_trim_back_subrange(d, hi);
        assert(d.subrange(0, hi) =~= s.subrange(0, hi));
    }
}

/// Copies `part` without its leading and trailing whitespace.
pub fn trim_to_string(part: &str) -> (r: String)
    ensures
        r@ == trimmed(part@),
{
    let n = part.unicode_len();
    let mut lo: usize = 0;
    while lo < n && is_space(part.get_char(lo))
        invariant
            0 <= lo <= n,
            n == part@.len(),
            forall|k: int| 0 <= k < lo ==> is_space_char(part@[k]),
        decreases n - lo,
    {
        lo = lo + 1;
    }
    let mut hi: usize = n;
    while hi > lo && is_space(part.get_char(hi - 1))
        invariant
            lo <= hi <= n,
            n == part@.len(),
            lo == n || !is_space_char(part@[lo as int]),
            forall|k: int| 0 <= k < lo ==> is_space_char(part@[k]),
            forall|k: int| hi <= k < n ==> is_space_char(part@[k]),
        decreases hi,
    {
        hi = hi - 1;
    }
    proof {
        lemma_trim_front_subrange(part@, lo as int);
        let front = part@.subrange(lo as int, n as int);
        lemma_trim_back_subrange(front, hi - lo);
        assert(forall|k: int| hi - lo <= k < front.len() ==> front[k] == part@[lo + k]);
        assert(front.subrange(0, hi - lo) =~= part@.subrange(lo as int, hi as int));
    }
    String::from_str(part.substring_char(lo, hi))
}

/// Whether two texts consist of the same characters.
pub fn str_eq(a: &str, b: &str) -> (r: bool)
    ensures
        r == (a@ == b@),
{
    let na = a.unicode_len();
    let nb = b.unicode_len();
    if na != nb {
        return false;
    }
    let mut i: usize = 0;
    while i < na
        invariant
            0 <= i <= na,
            na == a@.len(),
            na == b@.len(),
            forall|j: int| 0 <= j < i ==> a@[j] == b@[j],
        decreases na - i,
    {
        if a.get_char(i) != b.get_char(i) {
            return false;
        }
        i = i + 1;
    }
    proof {
        assert(a@ =~= b@);
    }
    true
}

} // verus!
