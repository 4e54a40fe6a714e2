//! Text helpers: character access, building strings, and decimal
//! formatting and parsing of integers, each tied to a spec over `Seq<char>`.
use vstd::prelude::*;

verus! {

/// The decimal digit character for `d` (which is expected to be in 0..=9).
pub open spec fn digit_char(d: int) -> char {
    if d == 0 {
        '0'
    } else if d == 1 {
        '1'
    } else if d == 2 {
        '2'
    } else if d == 3 {
        '3'
    } else if d == 4 {
        '4'
    } else if d == 5 {
        '5'
    } else if d == 6 {
        '6'
    } else if d == 7 {
        '7'
    } else if d == 8 {
        '8'
    } else {
        '9'
    }
}

/// The value of a decimal digit character, or -1 for any other character.
pub open spec fn char_value(c: char) -> int {
    if c == '0' {
        0
    } else if c == '1' {
        1
    } else if c == '2' {
        2
    } else if c == '3' {
        3
    } else if c == '4' {
        4
    } else if c == '5' {
        5
    } else if c == '6' {
        6
    } else if c == '7' {
        7
    } else if c == '8' {
        8
    } else if c == '9' {
        9
    } else {
        -1
    }
}

pub open spec fn is_digit_char(c: char) -> bool {
    char_value(c) >= 0
}

/// Decimal representation of a natural number, without leading zeros ("0" for zero).
pub open spec fn decimal_digits(n: nat) -> Seq<char>
    decreases n,
{
    if n < 10 {
        seq![digit_char(n as int)]
    } else {
        decimal_digits(n / 10).push(digit_char((n % 10) as int))
    }
}

/// Decimal representation of an integer, as Rust's `to_string` writes it.
pub open spec fn decimal_text(v: int) -> Seq<char> {
    if v < 0 {
        seq!['-'] + decimal_digits((-v) as nat)
    } else {
        decimal_digits(v as nat)
    }
}

/// Value of a sequence of decimal digits, most significant first.
pub open spec fn digits_value(s: Seq<char>) -> int
    decreases s.len(),
{
    if s.len() == 0 {
        0
    } else {
        digits_value(s.drop_last()) * 10 + char_value(s.last())
    }
}

pub open spec fn all_digits(s: Seq<char>) -> bool {
    forall|i: int| 0 <= i < s.len() ==> #[trigger] is_digit_char(s[i])
}

/// What `str::parse` gives for an integer type with the range `min..=max`:
/// an optional `+` (or `-` where the type is signed) followed by at least one
/// decimal digit, and a value inside the range.
pub open spec fn parse_decimal(s: Seq<char>, signed: bool, min: int, max: int) -> Option<int> {
    let neg = signed && s.len() > 0 && s[0] == '-';
    let plus = s.len() > 0 && s[0] == '+';
    let body = if neg || plus { s.drop_first() } else { s };
    if body.len() == 0 || !all_digits(body) {
        None
    } else {
        let v = if neg { -digits_value(body) } else { digits_value(body) };
        if min <= v && v <= max { Some(v) } else { None }
    }
}

pub open spec fn parse_i32_spec(s: Seq<char>) -> Option<i32> {
    match parse_decimal(s, true, i32::MIN as int, i32::MAX as int) {
        Some(v) => Some(v as i32),
        None => None,
    }
}

pub open spec fn parse_i64_spec(s: Seq<char>) -> Option<i64> {
    match parse_decimal(s, true, i64::MIN as int, i64::MAX as int) {
        Some(v) => Some(v as i64),
        None => None,
    }
}

pub open spec fn parse_u32_spec(s: Seq<char>) -> Option<u32> {
    match parse_decimal(s, false, 0, u32::MAX as int) {
        Some(v) => Some(v as u32),
        None => None,
    }
}

proof fn lemma_char_value_digit(d: int)
    requires
        0 <= d <= 9,
    ensures
        char_value(digit_char(d)) == d,
        is_digit_char(digit_char(d)),
        digit_char(d) != '-',
        digit_char(d) != '+',
{
}

/// The digits of a natural number are all digits, none of them a sign, and
/// their value is the number.
pub proof fn lemma_decimal_digits(n: nat)
    ensures
        decimal_digits(n).len() > 0,
        all_digits(decimal_digits(n)),
        digits_value(decimal_digits(n)) == n,
    decreases n,
{
    if n < 10 {
        lemma_char_value_digit(n as int);
        let s = decimal_digits(n);
        assert(s.drop_last() =~= Seq::<char>::empty());
        assert(digits_value(s.drop_last()) == 0);
        assert(s.last() == digit_char(n as int));
    } else {
        lemma_decimal_digits(n / 10);
        lemma_char_value_digit((n % 10) as int);
        let s = decimal_digits(n);
        assert(s.drop_last() =~= decimal_digits(n / 10));
        assert(n == (n / 10) * 10 + n % 10) by (nonlinear_arith);
        assert(s.last() == digit_char((n % 10) as int));
        assert(char_value(s.last()) == n % 10);
        assert forall|i: int| 0 <= i < s.len() implies #[trigger] is_digit_char(s[i]) by {
            if i < s.len() - 1 {
                assert(s[i] == decimal_digits(n / 10)[i]);
            }
        }
    }
}

/// A decimal value of digits never decreases when a digit is appended, so a
/// prefix never has a larger value than the whole.
proof fn lemma_digits_value_prefix(s: Seq<char>, k: int)
    requires
        all_digits(s),
        0 <= k <= s.len(),
    ensures
        0 <= digits_value(s.take(k)) <= digits_value(s),
    decreases s.len() - k,
{
    lemma_digits_value_nonneg(s);
    if k < s.len() {
        lemma_digits_value_prefix(s, k + 1);
        let t = s.take(k + 1);
        assert(t.drop_last() =~= s.take(k));
        lemma_digits_value_nonneg(s.take(k));
        assert(is_digit_char(s[k]));
        assert(t.last() == s[k]);
    } else {
        assert(s.take(k) =~= s);
    }
}

proof fn lemma_digits_value_nonneg(s: Seq<char>)
    requires
        all_digits(s),
    ensures
        digits_value(s) >= 0,
    decreases s.len(),
{
    if s.len() > 0 {
        assert(all_digits(s.drop_last())) by {
            assert forall|i: int| 0 <= i < s.drop_last().len() implies #[trigger] is_digit_char(
                s.drop_last()[i],
            ) by {
                assert(s.drop_last()[i] == s[i]);
            }
        }
        lemma_digits_value_nonneg(s.drop_last());
        assert(is_digit_char(s[s.len() - 1]));
    }
}

/// Writing a number in decimal and reading it back gives the number.
pub proof fn lemma_parse_decimal_text(v: int, min: int, max: int, signed: bool)
    requires
        min <= v <= max,
        signed || v >= 0,
    ensures
        parse_decimal(decimal_text(v), signed, min, max) == Some(v),
{
    let s = decimal_text(v);
    if v < 0 {
        let n = (-v) as nat;
        lemma_decimal_digits(n);
        lemma_char_value_digit(0);
        assert(s[0] == '-');
        assert(s.drop_first() =~= decimal_digits(n));
    } else {
        let n = v as nat;
        lemma_decimal_digits(n);
        let d = decimal_digits(n);
        assert(is_digit_char(d[0]));
        assert(d[0] != '-' && d[0] != '+') by {
            if d[0] == '-' || d[0] == '+' {
                assert(char_value(d[0]) == -1);
            }
        }
    }
}

/// The characters of a string slice.
pub fn chars_of(s: &str) -> (v: Vec<char>)
    ensures
        v@ == s@,
{
    let n = s.unicode_len();
    let mut v: Vec<char> = Vec::new();
    let mut i: usize = 0;
    while i < n
        invariant
            n == s@.len(),
            i <= n,
            v@ == s@.take(i as int),
        decreases n - i,
    {
        let c = s.get_char(i);
        v.push(c);
        i = i + 1;
        assert(v@ =~= s@.take(i as int));
    }
    assert(s@.take(n as int) =~= s@);
    v
}

/// Appends one character to a string (calls `String::push`).
#[verifier::external_body]
pub fn push_char(s: &mut String, c: char)
    ensures
        final(s)@ == old(s)@.push(c),
{
    s.push(c);
}

/// Appends a string slice to a string.
pub fn push_str(s: &mut String, t: &str)
    ensures
        final(s)@ == old(s)@ + t@,
{
    s.append(t);
}

/// A string made of the given characters.
pub fn string_of_chars(v: &Vec<char>) -> (s: String)
    ensures
        s@ == v@,
{
    let mut s = String::new();
    let mut i: usize = 0;
    while i < v.len()
        invariant
            i <= v.len(),
            s@ == v@.take(i as int),
        decreases v.len() - i,
    {
        push_char(&mut s, v[i]);
        i = i + 1;
        assert(s@ =~= v@.take(i as int));
    }
    assert(v@.take(v.len() as int) =~= v@);
    s
}

/// Whether two string slices hold the same characters.
pub fn str_eq(a: &str, b: &str) -> (r: bool)
    ensures
        r == (a@ == b@),
{
    let x = String::from_str(a);
    let y = String::from_str(b);
    x == y
}

/// A fresh string with the characters of `s`.
pub fn owned(s: &str) -> (r: String)
    ensures
        r@ == s@,
{
    String::from_str(s)
}

/// A copy of a string.
pub fn copy_string(s: &String) -> (r: String)
    ensures
        r@ == s@,
{
    s.clone()
}

/// The texts of `list` with `sep` between each two of them.
pub open spec fn join(list: Seq<Seq<char>>, sep: Seq<char>) -> Seq<char>
    decreases list.len(),
{
    if list.len() == 0 {
        Seq::empty()
    } else if list.len() == 1 {
        list[0]
    } else {
        join(list.drop_last(), sep) + sep + list.last()
    }
}

pub open spec fn string_views(v: Seq<String>) -> Seq<Seq<char>> {
    v.map_values(|s: String| s@)
}

/// Joins strings with a separator, as `[String]::join` does.
pub fn join_strings(list: &Vec<String>, sep: &str) -> (r: String)
    ensures
        r@ == join(string_views(list@), sep@),
{
    let mut r = String::new();
    let ghost views = string_views(list@);
    let mut i: usize = 0;
    while i < list.len()
        invariant
            i <= list.len(),
            views == string_views(list@),
            r@ == join(views.take(i as int), sep@),
        decreases list.len() - i,
    {
        if i != 0 {
            push_str(&mut r, sep);
        }
        push_str(&mut r, list[i].as_str());
        proof {
            assert(views.take(i + 1).drop_last() =~= views.take(i as int));
            if i == 0 {
                assert(views.take(0) =~= Seq::<Seq<char>>::empty());
            }
        }
        i = i + 1;
    }
    assert(views.take(i as int) =~= views);
    r
}

/// The digit character of `d`.
pub fn digit_to_char(d: u64) -> (c: char)
    requires
        d < 10,
    ensures
        c == digit_char(d as int),
{
    if d == 0 {
        '0'
    } else if d == 1 {
        '1'
    } else if d == 2 {
        '2'
    } else if d == 3 {
        '3'
    } else if d == 4 {
        '4'
    } else if d == 5 {
        '5'
    } else if d == 6 {
        '6'
    } else if d == 7 {
        '7'
    } else if d == 8 {
        '8'
    } else {
        '9'
    }
}

/// The value of a digit character, `None` for anything else.
pub fn char_to_digit(c: char) -> (r: Option<u64>)
    ensures
        r == (if is_digit_char(c) { Some(char_value(c) as u64) } else { None::<u64> }),
{
    if c == '0' {
        Some(0)
    } else if c == '1' {
        Some(1)
    } else if c == '2' {
        Some(2)
    } else if c == '3' {
        Some(3)
    } else if c == '4' {
        Some(4)
    } else if c == '5' {
        Some(5)
    } else if c == '6' {
        Some(6)
    } else if c == '7' {
        Some(7)
    } else if c == '8' {
        Some(8)
    } else if c == '9' {
        Some(9)
    } else {
        None
    }
}

fn push_decimal_digits(s: &mut String, n: u64)
    ensures
        final(s)@ == old(s)@ + decimal_digits(n as nat),
    decreases n,
{
    if n < 10 {
        push_char(s, digit_to_char(n));
    } else {
        push_decimal_digits(s, n / 10);
        push_char(s, digit_to_char(n % 10));
        assert(final(s)@ =~= old(s)@ + decimal_digits(n as nat));
    }
}

/// Decimal text of an unsigned number.
pub fn format_u64(n: u64) -> (s: String)
    ensures
        s@ == decimal_text(n as int),
{
    let mut s = String::new();
    push_decimal_digits(&mut s, n);
    assert(s@ =~= decimal_digits(n as nat));
    s
}

/// Decimal text of a signed number, with a leading `-` when it is negative.
pub fn format_i64(v: i64) -> (s: String)
    ensures
        s@ == decimal_text(v as int),
{
    let mut s = String::new();
    if v < 0 {
        push_char(&mut s, '-');
        let m: u64 = if v == i64::MIN {
            9223372036854775808u64
        } else {
            (-v) as u64
        };
        push_decimal_digits(&mut s, m);
        assert(s@ =~= seq!['-'] + decimal_digits((-(v as int)) as nat));
    } else {
        push_decimal_digits(&mut s, v as u64);
        assert(s@ =~= decimal_digits(v as nat));
    }
    s
}

/// Reads the magnitude of a run of digits `s[start..]`; `None` when a
/// character is not a digit, when there is no digit, or when the value
/// exceeds `limit`.
fn parse_magnitude(s: &Vec<char>, start: usize, limit: u64) -> (r: Option<u64>)
    requires
        start <= s.len(),
    ensures
        ({
            let body = s@.skip(start as int);
            match r {
                Some(m) => body.len() > 0 && all_digits(body) && m == digits_value(body) && m <= limit,
                None => body.len() == 0 || !all_digits(body) || digits_value(body) > limit,
            }
        }),
{
    let ghost body = s@.skip(start as int);
    if start == s.len() {
        return None;
    }
    let mut acc: u64 = 0;
    let mut i: usize = start;
    let mut overflow = false;
    while i < s.len()
        invariant
            start <= i <= s.len(),
            start < s.len(),
            body == s@.skip(start as int),
            all_digits(body.take(i - start)),
            !overflow ==> acc as int == digits_value(body.take(i - start)) && acc <= limit,
            overflow ==> digits_value(body.take(i - start)) > limit,
        decreases s.len() - i,
    {
        let c = s[i];
        let ghost prev = body.take(i - start);
        let ghost next = body.take(i + 1 - start);
        assert(next.drop_last() =~= prev);
        assert(next.last() == c);
        match char_to_digit(c) {
            None => {
                proof {
                    assert(!is_digit_char(body[i - start]));
                }
                return None;
            },
            Some(d) => {
                assert(all_digits(next)) by {
                    assert forall|j: int| 0 <= j < next.len() implies #[trigger] is_digit_char(
                        next[j],
                    ) by {
                        if j < next.len() - 1 {
                            assert(next[j] == prev[j]);
                        }
                    }
                }
                if !overflow {
                    if d > limit || acc > (limit - d) / 10 {
                        overflow = true;
                        assert(acc * 10 + d > limit) by (nonlinear_arith)
                            requires
                                d > limit || acc > (limit - d) / 10,
                                d <= 9,
                                acc >= 0,
                        ;
                    } else {
                        assert(acc * 10 + d <= limit) by (nonlinear_arith)
                            requires
                                acc <= (limit - d) / 10,
                                d <= 9,
                                d <= limit,
                        ;
                        acc = acc * 10 + d;
                    }
                } else {
                    proof {
                        lemma_digits_value_nonneg(prev);
                        assert(digits_value(next) == digits_value(prev) * 10 + d);
                    }
                }
                i = i + 1;
            },
        }
    }
    assert(body.take(i - start) =~= body);
    if overflow {
        None
    } else {
        Some(acc)
    }
}

/// Parses a signed decimal number inside `min..=max` as `str::parse` does.
fn parse_signed(s: &Vec<char>, min: i64, max: i64) -> (r: Option<i64>)
    requires
        min < 0 <= max,
    ensures
        r == (match parse_decimal(s@, true, min as int, max as int) {
            Some(v) => Some(v as i64),
            None => None::<i64>,
        }),
{
    let neg = s.len() > 0 && s[0] == '-';
    let plus = s.len() > 0 && s[0] == '+';
    let start: usize = if neg || plus { 1 } else { 0 };
    proof {
        if neg || plus {
            assert(s@.skip(1) =~= s@.drop_first());
        } else {
            assert(s@.skip(0) =~= s@);
        }
    }
    if neg {
        let lim: u64 = if min == i64::MIN {
            9223372036854775808u64
        } else {
            (-min) as u64
        };
        match parse_magnitude(s, start, lim) {
            None => None,
            Some(m) => {
                if m == 9223372036854775808u64 {
                    Some(i64::MIN)
                } else {
                    Some(-(m as i64))
                }
            },
        }
    } else {
        match parse_magnitude(s, start, max as u64) {
            None => None,
            Some(m) => Some(m as i64),
        }
    }
}

/// Parses text as an `i32`, as `str::parse::<i32>` does.
pub fn parse_i32(s: &str) -> (r: Option<i32>)
    ensures
        r == parse_i32_spec(s@),
{
    let v = chars_of(s);
    match parse_signed(&v, i32::MIN as i64, i32::MAX as i64) {
        Some(x) => Some(x as i32),
        None => None,
    }
}

/// Parses text as an `i64`, as `str::parse::<i64>` does.
pub fn parse_i64(s: &str) -> (r: Option<i64>)
    ensures
        r == parse_i64_spec(s@),
{
    let v = chars_of(s);
    parse_signed(&v, i64::MIN, i64::MAX)
}

/// Parses text as a `u32`, as `str::parse::<u32>` does.
pub fn parse_u32(s: &str) -> (r: Option<u32>)
    ensures
        r == parse_u32_spec(s@),
{
    let v = chars_of(s);
    let plus = v.len() > 0 && v[0] == '+';
    let start: usize = if plus { 1 } else { 0 };
    proof {
        if plus {
            assert(v@.skip(1) =~= v@.drop_first());
        } else {
            assert(v@.skip(0) =~= v@);
        }
    }
    match parse_magnitude(&v, start, 4294967295u64) {
        None => None,
        Some(m) => Some(m as u32),
    }
}

} // verus!
