//! Words of Gaia assembly: whitespace, trimming, first words, keywords,
//! instructions, numbers and token classes.
use vstd::prelude::*;
use crate::text::{
    all_digits, chars_of, is_digit_char, owned, parse_i32, parse_i32_spec, str_eq, string_of_chars,
};

verus! {

/// Rust's `char::is_whitespace`: the Unicode White_Space characters.
pub open spec fn is_ws(c: char) -> bool {
    c == '\t' || c == '\n' || c == '\u{0B}' || c == '\u{0C}' || c == '\r' || c == ' ' || c
        == '\u{85}' || c == '\u{A0}' || c == '\u{1680}' || ('\u{2000}' <= c && c <= '\u{200A}')
        || c == '\u{2028}' || c == '\u{2029}' || c == '\u{202F}' || c == '\u{205F}' || c
        == '\u{3000}'
}

pub fn is_whitespace(c: char) -> (r: bool)
    ensures
        r == is_ws(c),
{
    c == '\t' || c == '\n' || c == '\u{0B}' || c == '\u{0C}' || c == '\r' || c == ' ' || c
        == '\u{85}' || c == '\u{A0}' || c == '\u{1680}' || ('\u{2000}' <= c && c <= '\u{200A}')
        || c == '\u{2028}' || c == '\u{2029}' || c == '\u{202F}' || c == '\u{205F}' || c
        == '\u{3000}'
}

/// Number of leading whitespace characters.
pub open spec fn leading_ws(s: Seq<char>) -> nat
    decreases s.len(),
{
    if s.len() > 0 && is_ws(s[0]) {
        1 + leading_ws(s.drop_first())
    } else {
        0
    }
}

/// Number of trailing whitespace characters.
pub open spec fn trailing_ws(s: Seq<char>) -> nat
    decreases s.len(),
{
    if s.len() > 0 && is_ws(s.last()) {
        1 + trailing_ws(s.drop_last())
    } else {
        0
    }
}

/// `str::trim`: the text without leading and trailing whitespace.
pub open spec fn trimmed(s: Seq<char>) -> Seq<char> {
    let t = s.skip(leading_ws(s) as int);
    t.take(t.len() - trailing_ws(t))
}

/// Length of the run of non-whitespace characters at the start.
pub open spec fn word_len(s: Seq<char>) -> nat
    decreases s.len(),
{
    if s.len() > 0 && !is_ws(s[0]) {
        1 + word_len(s.drop_first())
    } else {
        0
    }
}

/// The first whitespace-separated word, if there is one.
pub open spec fn first_word(s: Seq<char>) -> Option<Seq<char>> {
    let t = s.skip(leading_ws(s) as int);
    if t.len() == 0 {
        None
    } else {
        Some(t.take(word_len(t) as int))
    }
}

proof fn lemma_leading_ws_bound(s: Seq<char>)
    ensures
        leading_ws(s) <= s.len(),
        forall|i: int| 0 <= i < leading_ws(s) ==> is_ws(#[trigger] s[i]),
        leading_ws(s) < s.len() ==> !is_ws(s[leading_ws(s) as int]),
    decreases s.len(),
{
    if s.len() > 0 && is_ws(s[0]) {
        lemma_leading_ws_bound(s.drop_first());
        assert forall|i: int| 0 <= i < leading_ws(s) implies is_ws(#[trigger] s[i]) by {
            if i > 0 {
                assert(s[i] == s.drop_first()[i - 1]);
            }
        }
    }
}

proof fn lemma_leading_ws_unique(s: Seq<char>, k: int)
    requires
        0 <= k <= s.len(),
        forall|i: int| 0 <= i < k ==> is_ws(#[trigger] s[i]),
        k < s.len() ==> !is_ws(s[k]),
    ensures
        leading_ws(s) == k,
    decreases s.len(),
{
    if k > 0 {
        assert(is_ws(s[0]));
        assert forall|i: int| 0 <= i < k - 1 implies is_ws(#[trigger] s.drop_first()[i]) by {
            assert(s.drop_first()[i] == s[i + 1]);
        }
        lemma_leading_ws_unique(s.drop_first(), k - 1);
    }
}

proof fn lemma_trailing_ws_unique(s: Seq<char>, k: int)
    requires
        0 <= k <= s.len(),
        forall|i: int| s.len() - k <= i < s.len() ==> is_ws(#[trigger] s[i]),
        k < s.len() ==> !is_ws(s[s.len() - k - 1]),
    ensures
        trailing_ws(s) == k,
    decreases s.len(),
{
    if k > 0 {
        assert(is_ws(s[s.len() - 1]));
        assert forall|i: int|
            s.drop_last().len() - (k - 1) <= i < s.drop_last().len() implies is_ws(
            #[trigger] s.drop_last()[i],
        ) by {
            assert(s.drop_last()[i] == s[i]);
        }
        lemma_trailing_ws_unique(s.drop_last(), k - 1);
    }
}

proof fn lemma_word_len_unique(s: Seq<char>, k: int)
    requires
        0 <= k <= s.len(),
        forall|i: int| 0 <= i < k ==> !is_ws(#[trigger] s[i]),
        k < s.len() ==> is_ws(s[k]),
    ensures
        word_len(s) == k,
    decreases s.len(),
{
    if k > 0 {
        assert(!is_ws(s[0]));
        assert forall|i: int| 0 <= i < k - 1 implies !is_ws(#[trigger] s.drop_first()[i]) by {
            assert(s.drop_first()[i] == s[i + 1]);
        }
        lemma_word_len_unique(s.drop_first(), k - 1);
    }
}

/// `str::trim`.
pub fn trim(s: &str) -> (r: String)
    ensures
        r@ == trimmed(s@),
{
    let v = chars_of(s);
    let n = v.len();
    let mut a: usize = 0;
    while a < n && is_whitespace(v[a])
        invariant
            a <= n == v@.len(),
            forall|i: int| 0 <= i < a ==> is_ws(#[trigger] v@[i]),
        decreases n - a,
    {
        a = a + 1;
    }
    proof {
        lemma_leading_ws_unique(v@, a as int);
    }
    let mut b: usize = n;
    while b > a && is_whitespace(v[b - 1])
        invariant
            a <= b <= n == v@.len(),
            forall|i: int| b <= i < n ==> is_ws(#[trigger] v@[i]),
        decreases b,
    {
        b = b - 1;
    }
    let ghost t = v@.skip(a as int);
    proof {
        assert forall|i: int| t.len() - (n - b) <= i < t.len() implies is_ws(#[trigger] t[i]) by {
            assert(t[i] == v@[i + a]);
        }
        if b > a {
            assert(t[t.len() - (n - b) - 1] == v@[b - 1]);
        }
        lemma_trailing_ws_unique(t, (n - b) as int);
    }
    let mut out: Vec<char> = Vec::new();
    let mut k: usize = a;
    while k < b
        invariant
            a <= k <= b <= n == v@.len(),
            out@ == v@.subrange(a as int, k as int),
        decreases b - k,
    {
        out.push(v[k]);
        k = k + 1;
        assert(out@ =~= v@.subrange(a as int, k as int));
    }
    assert(out@ =~= trimmed(s@));
    string_of_chars(&out)
}

/// The first whitespace-separated word, as `split_whitespace().next()` gives it.
pub fn first_word_of(s: &str) -> (r: Option<String>)
    ensures
        match r {
            Some(w) => first_word(s@) == Some(w@),
            None => first_word(s@) is None,
        },
{
    let v = chars_of(s);
    let n = v.len();
    let mut a: usize = 0;
    while a < n && is_whitespace(v[a])
        invariant
            a <= n == v@.len(),
            forall|i: int| 0 <= i < a ==> is_ws(#[trigger] v@[i]),
        decreases n - a,
    {
        a = a + 1;
    }
    proof {
        lemma_leading_ws_unique(v@, a as int);
    }
    if a == n {
        return None;
    }
    let mut b: usize = a;
    let mut out: Vec<char> = Vec::new();
    while b < n && !is_whitespace(v[b])
        invariant
            a <= b <= n == v@.len(),
            out@ == v@.subrange(a as int, b as int),
            forall|i: int| a <= i < b ==> !is_ws(#[trigger] v@[i]),
        decreases n - b,
    {
        out.push(v[b]);
        b = b + 1;
        assert(out@ =~= v@.subrange(a as int, b as int));
    }
    let ghost t = v@.skip(a as int);
    proof {
        assert forall|i: int| 0 <= i < b - a implies !is_ws(#[trigger] t[i]) by {
            assert(t[i] == v@[i + a]);
        }
        if b < n {
            assert(t[b - a] == v@[b as int]);
        }
        lemma_word_len_unique(t, (b - a) as int);
        assert(out@ =~= t.take(b - a));
    }
    Some(string_of_chars(&out))
}

/// Whether a word names an instruction of Gaia assembly.
pub open spec fn is_instruction_word(w: Seq<char>) -> bool {
    w == "load"@ || w == "store"@ || w == "add"@ || w == "sub"@ || w == "mul"@ || w == "div"@
        || w == "mod"@ || w == "and"@ || w == "or"@ || w == "xor"@ || w == "not"@ || w == "shl"@
        || w == "shr"@ || w == "eq"@ || w == "ne"@ || w == "lt"@ || w == "le"@ || w == "gt"@ || w
        == "ge"@ || w == "br"@ || w == "br_if"@ || w == "call"@ || w == "ret"@ || w == "nop"@ || w
        == "dup"@ || w == "pop"@ || w == "swap"@
}

/// Whether a word is a keyword of Gaia assembly.
pub open spec fn is_keyword_word(w: Seq<char>) -> bool {
    w == "function"@ || w == "end"@ || w == "if"@ || w == "else"@ || w == "loop"@ || w
        == "break"@ || w == "continue"@ || w == ".assembly"@ || w == ".method"@ || w == ".class"@
        || w == ".section"@ || w == ".data"@ || w == ".text"@
}

/// Whether a word names an instruction.
pub fn is_instruction(word: &str) -> (r: bool)
    ensures
        r == is_instruction_word(word@),
{
    str_eq(word, "load") || str_eq(word, "store") || str_eq(word, "add") || str_eq(word, "sub")
        || str_eq(word, "mul") || str_eq(word, "div") || str_eq(word, "mod") || str_eq(word, "and")
        || str_eq(word, "or") || str_eq(word, "xor") || str_eq(word, "not") || str_eq(word, "shl")
        || str_eq(word, "shr") || str_eq(word, "eq") || str_eq(word, "ne") || str_eq(word, "lt")
        || str_eq(word, "le") || str_eq(word, "gt") || str_eq(word, "ge") || str_eq(word, "br")
        || str_eq(word, "br_if") || str_eq(word, "call") || str_eq(word, "ret") || str_eq(
        word,
        "nop",
    ) || str_eq(word, "dup") || str_eq(word, "pop") || str_eq(word, "swap")
}

/// Whether a word is a keyword.
pub fn is_keyword(word: &str) -> (r: bool)
    ensures
        r == is_keyword_word(word@),
{
    str_eq(word, "function") || str_eq(word, "end") || str_eq(word, "if") || str_eq(word, "else")
        || str_eq(word, "loop") || str_eq(word, "break") || str_eq(word, "continue") || str_eq(
        word,
        ".assembly",
    ) || str_eq(word, ".method") || str_eq(word, ".class") || str_eq(word, ".section") || str_eq(
        word,
        ".data",
    ) || str_eq(word, ".text")
}

/// Whether a line opens a block: its first word is `if`, `loop`, `function` or `.method`.
pub fn is_block_start_instruction(instruction: &str) -> (r: bool)
    ensures
        r == (first_word(instruction@) matches Some(w) && (w == "if"@ || w == "loop"@ || w
            == "function"@ || w == ".method"@)),
{
    match first_word_of(instruction) {
        None => false,
        Some(w) => {
            let w = w.as_str();
            str_eq(w, "if") || str_eq(w, "loop") || str_eq(w, "function") || str_eq(w, ".method")
        },
    }
}

/// Whether a line closes a block: its first word is `end`, `.end` or `}`.
pub fn is_block_end_instruction(instruction: &str) -> (r: bool)
    ensures
        r == (first_word(instruction@) matches Some(w) && (w == "end"@ || w == ".end"@ || w
            == "}"@)),
{
    match first_word_of(instruction) {
        None => false,
        Some(w) => {
            let w = w.as_str();
            str_eq(w, "end") || str_eq(w, ".end") || str_eq(w, "}")
        },
    }
}

/// ASCII lower case of a character.
pub open spec fn lower(c: char) -> char {
    if 'A' <= c <= 'Z' {
        ((c as int) + 32) as char
    } else {
        c
    }
}

/// Whether a text equals `lit` ignoring ASCII case.
pub open spec fn eq_ignore_case(s: Seq<char>, lit: Seq<char>) -> bool {
    s.len() == lit.len() && forall|i: int| 0 <= i < s.len() ==> lower(#[trigger] s[i]) == lower(
        lit[i],
    )
}

/// Index of the first `e` or `E`, or the length when there is none.
pub open spec fn exp_index(s: Seq<char>) -> nat
    decreases s.len(),
{
    if s.len() == 0 {
        0
    } else if s[0] == 'e' || s[0] == 'E' {
        0
    } else {
        1 + exp_index(s.drop_first())
    }
}

/// A mantissa: digits with at most one `.`, and at least one digit.
pub open spec fn mantissa_ok(m: Seq<char>) -> bool {
    (m.len() >= 1 && all_digits(m)) || exists|p: int|
        0 <= p < m.len() && m[p] == '.' && all_digits(m.take(p)) && all_digits(m.skip(p + 1))
            && m.len() >= 2
}

/// An exponent: nothing, or `e`/`E`, an optional sign, and at least one digit.
pub open spec fn exponent_ok(e: Seq<char>) -> bool {
    e.len() == 0 || ((e[0] == 'e' || e[0] == 'E') && {
        let r = e.drop_first();
        let d = if r.len() > 0 && (r[0] == '+' || r[0] == '-') {
            r.drop_first()
        } else {
            r
        };
        d.len() > 0 && all_digits(d)
    })
}

/// What `str::parse` accepts as a floating-point number: an optional sign,
/// then a decimal mantissa with an optional exponent, or `nan`, `inf` or
/// `infinity` in any case.
pub open spec fn float_literal(s: Seq<char>) -> bool {
    let b = if s.len() > 0 && (s[0] == '+' || s[0] == '-') {
        s.drop_first()
    } else {
        s
    };
    b.len() > 0 && ((mantissa_ok(b.take(exp_index(b) as int)) && exponent_ok(
        b.skip(exp_index(b) as int),
    )) || eq_ignore_case(b, "nan"@) || eq_ignore_case(b, "inf"@) || eq_ignore_case(
        b,
        "infinity"@,
    ))
}

fn lower_char(c: char) -> (r: char)
    ensures
        r == lower(c),
{
    if c >= 'A' && c <= 'Z' {
        ((c as u32 + 32) as u8) as char
    } else {
        c
    }
}

fn eq_ignore_case_at(v: &Vec<char>, start: usize, lit: &str) -> (r: bool)
    requires
        start <= v@.len(),
    ensures
        r == eq_ignore_case(v@.skip(start as int), lit@),
{
    let l = chars_of(lit);
    let ghost s = v@.skip(start as int);
    if v.len() - start != l.len() {
        return false;
    }
    let mut i: usize = 0;
    while i < l.len()
        invariant
            i <= l@.len() == s.len(),
            s == v@.skip(start as int),
            start + s.len() == v@.len(),
            start + l@.len() == v@.len(),
            start + l@.len() <= usize::MAX,
            l@ == lit@,
            forall|j: int| 0 <= j < i ==> lower(#[trigger] s[j]) == lower(l@[j]),
        decreases l@.len() - i,
    {
        assert(start + i < v@.len());
        assert(s[i as int] == v@[start + i]);
        if lower_char(v[start + i]) != lower_char(l[i]) {
            return false;
        }
        i = i + 1;
    }
    true
}

fn all_digits_range(v: &Vec<char>, a: usize, b: usize) -> (r: bool)
    requires
        a <= b <= v@.len(),
    ensures
        r == all_digits(v@.subrange(a as int, b as int)),
{
    let ghost s = v@.subrange(a as int, b as int);
    let mut i: usize = a;
    while i < b
        invariant
            a <= i <= b <= v@.len(),
            s == v@.subrange(a as int, b as int),
            forall|j: int| 0 <= j < i - a ==> #[trigger] is_digit_char(s[j]),
        decreases b - i,
    {
        match crate::text::char_to_digit(v[i]) {
            None => {
                assert(!is_digit_char(s[i - a]));
                return false;
            },
            Some(_) => {},
        }
        i = i + 1;
    }
    true
}

fn mantissa_check(v: &Vec<char>, a: usize, b: usize) -> (r: bool)
    requires
        a <= b <= v@.len(),
    ensures
        r == mantissa_ok(v@.subrange(a as int, b as int)),
{
    let ghost m = v@.subrange(a as int, b as int);
    if b > a && all_digits_range(v, a, b) {
        assert(m.len() >= 1 && all_digits(m));
        return true;
    }
    let mut p: usize = a;
    while p < b
        invariant
            a <= p <= b <= v@.len(),
            m == v@.subrange(a as int, b as int),
            !(m.len() >= 1 && all_digits(m)),
            forall|q: int|
                0 <= q < p - a ==> !(m[q] == '.' && all_digits(m.take(q)) && all_digits(
                    m.skip(q + 1),
                ) && m.len() >= 2),
        decreases b - p,
    {
        assert(m[p - a] == v@[p as int]);
        if v[p] == '.' {
            let left = all_digits_range(v, a, p);
            let right = all_digits_range(v, p + 1, b);
            proof {
                assert(m.take(p - a) =~= v@.subrange(a as int, p as int));
                assert(m.skip(p - a + 1) =~= v@.subrange(p + 1, b as int));
            }
            if left && right && b - a >= 2 {
                assert(0 <= p - a < m.len() && m[p - a] == '.' && all_digits(m.take(p - a))
                    && all_digits(m.skip(p - a + 1)) && m.len() >= 2);
                return true;
            }
        }
        p = p + 1;
    }
    false
}

fn exponent_check(v: &Vec<char>, a: usize) -> (r: bool)
    requires
        a <= v@.len(),
    ensures
        r == exponent_ok(v@.skip(a as int)),
{
    let ghost e = v@.skip(a as int);
    let n = v.len();
    if a == n {
        return true;
    }
    if v[a] != 'e' && v[a] != 'E' {
        return false;
    }
    let mut d: usize = a + 1;
    if d < n && (v[d] == '+' || v[d] == '-') {
        d = d + 1;
    }
    proof {
        let r = e.drop_first();
        assert(r =~= v@.skip(a + 1));
        if r.len() > 0 && (r[0] == '+' || r[0] == '-') {
            assert(r.drop_first() =~= v@.subrange(d as int, n as int));
        } else {
            assert(r =~= v@.subrange(d as int, n as int));
        }
    }
    d < n && all_digits_range(v, d, n)
}

proof fn lemma_exp_index(s: Seq<char>, k: int)
    requires
        0 <= k <= s.len(),
        forall|i: int| 0 <= i < k ==> #[trigger] s[i] != 'e' && s[i] != 'E',
        k < s.len() ==> (s[k] == 'e' || s[k] == 'E'),
    ensures
        exp_index(s) == k,
    decreases s.len(),
{
    if k > 0 {
        assert(s[0] != 'e' && s[0] != 'E');
        assert forall|i: int| 0 <= i < k - 1 implies #[trigger] s.drop_first()[i] != 'e'
            && s.drop_first()[i] != 'E' by {
            assert(s.drop_first()[i] == s[i + 1]);
        }
        lemma_exp_index(s.drop_first(), k - 1);
    }
}

/// Whether text reads as a floating-point number (`str::parse` succeeds).
pub fn is_float_literal(s: &str) -> (r: bool)
    ensures
        r == float_literal(s@),
{
    let v = chars_of(s);
    let n = v.len();
    let start: usize = if n > 0 && (v[0] == '+' || v[0] == '-') {
        1
    } else {
        0
    };
    let ghost b = if s@.len() > 0 && (s@[0] == '+' || s@[0] == '-') {
        s@.drop_first()
    } else {
        s@
    };
    assert(b =~= v@.skip(start as int));
    if start == n {
        return false;
    }
    let mut k: usize = start;
    while k < n && v[k] != 'e' && v[k] != 'E'
        invariant
            start <= k <= n == v@.len(),
            forall|i: int| start <= i < k ==> v@[i] != 'e' && v@[i] != 'E',
        decreases n - k,
    {
        k = k + 1;
    }
    proof {
        assert forall|i: int| 0 <= i < k - start implies #[trigger] b[i] != 'e' && b[i] != 'E' by {
            assert(b[i] == v@[i + start]);
        }
        if k < n {
            assert(b[k - start] == v@[k as int]);
        }
        lemma_exp_index(b, (k - start) as int);
        assert(b.take((k - start) as int) =~= v@.subrange(start as int, k as int));
        assert(b.skip((k - start) as int) =~= v@.skip(k as int));
    }
    (mantissa_check(&v, start, k) && exponent_check(&v, k)) || eq_ignore_case_at(&v, start, "nan")
        || eq_ignore_case_at(&v, start, "inf") || eq_ignore_case_at(&v, start, "infinity")
}

/// Classes of tokens of Gaia assembly.
#[derive(Debug, Clone, Copy, PartialEq, Eq, Structural)]
pub enum TokenType {
    Comment,
    Label,
    String,
    Number,
    Instruction,
    Keyword,
    Identifier,
}

/// The class of a word: comment, label, string, number, instruction,
/// keyword, or identifier, checked in that order.
pub open spec fn token_class(w: Seq<char>) -> TokenType {
    if w.len() >= 2 && w[0] == '/' && w[1] == '/' {
        TokenType::Comment
    } else if w.len() >= 1 && w.last() == ':' {
        TokenType::Label
    } else if w.len() >= 1 && w[0] == '"' && w.last() == '"' {
        TokenType::String
    } else if parse_i32_spec(w) is Some || float_literal(w) {
        TokenType::Number
    } else if is_instruction_word(w) {
        TokenType::Instruction
    } else if is_keyword_word(w) {
        TokenType::Keyword
    } else {
        TokenType::Identifier
    }
}

/// Classifies a word.
pub fn classify_token(word: &str) -> (r: TokenType)
    ensures
        r == token_class(word@),
{
    let v = chars_of(word);
    let n = v.len();
    if n >= 2 && v[0] == '/' && v[1] == '/' {
        TokenType::Comment
    } else if n >= 1 && v[n - 1] == ':' {
        TokenType::Label
    } else if n >= 1 && v[0] == '"' && v[n - 1] == '"' {
        TokenType::String
    } else if parse_i32(word).is_some() || is_float_literal(word) {
        TokenType::Number
    } else if is_instruction(word) {
        TokenType::Instruction
    } else if is_keyword(word) {
        TokenType::Keyword
    } else {
        TokenType::Identifier
    }
}

/// The description of each instruction.
pub open spec fn instruction_description(w: Seq<char>) -> Seq<char> {
    if w == "load"@ {
        "加载常量或变量值"@
    } else if w == "store"@ {
        "存储值到指定位置"@
    } else if w == "add"@ {
        "加法运算"@
    } else if w == "sub"@ {
        "减法运算"@
    } else if w == "mul"@ {
        "乘法运算"@
    } else if w == "div"@ {
        "除法运算"@
    } else if w == "mod"@ {
        "取模运算"@
    } else if w == "and"@ {
        "按位与运算"@
    } else if w == "or"@ {
        "按位或运算"@
    } else if w == "xor"@ {
        "按位异或运算"@
    } else if w == "not"@ {
        "按位非运算"@
    } else if w == "shl"@ {
        "左移运算"@
    } else if w == "shr"@ {
        "右移运算"@
    } else if w == "eq"@ {
        "相等比较"@
    } else if w == "ne"@ {
        "不等比较"@
    } else if w == "lt"@ {
        "小于比较"@
    } else if w == "le"@ {
        "小于等于比较"@
    } else if w == "gt"@ {
        "大于比较"@
    } else if w == "ge"@ {
        "大于等于比较"@
    } else if w == "br"@ {
        "无条件跳转"@
    } else if w == "br_if"@ {
        "条件跳转"@
    } else if w == "call"@ {
        "函数调用"@
    } else if w == "ret"@ {
        "函数返回"@
    } else if w == "nop"@ {
        "空操作"@
    } else if w == "dup"@ {
        "复制栈顶值"@
    } else if w == "pop"@ {
        "弹出栈顶值"@
    } else if w == "swap"@ {
        "交换栈顶两个值"@
    } else {
        "未知指令"@
    }
}

/// The description of an instruction ("未知指令" for anything else).
pub fn get_instruction_description(instruction: &str) -> (r: String)
    ensures
        r@ == instruction_description(instruction@),
{
    let w = instruction;
    if str_eq(w, "load") {
        owned("加载常量或变量值")
    } else if str_eq(w, "store") {
        owned("存储值到指定位置")
    } else if str_eq(w, "add") {
        owned("加法运算")
    } else if str_eq(w, "sub") {
        owned("减法运算")
    } else if str_eq(w, "mul") {
        owned("乘法运算")
    } else if str_eq(w, "div") {
        owned("除法运算")
    } else if str_eq(w, "mod") {
        owned("取模运算")
    } else if str_eq(w, "and") {
        owned("按位与运算")
    } else if str_eq(w, "or") {
        owned("按位或运算")
    } else if str_eq(w, "xor") {
        owned("按位异或运算")
    } else if str_eq(w, "not") {
        owned("按位非运算")
    } else if str_eq(w, "shl") {
        owned("左移运算")
    } else if str_eq(w, "shr") {
        owned("右移运算")
    } else if str_eq(w, "eq") {
        owned("相等比较")
    } else if str_eq(w, "ne") {
        owned("不等比较")
    } else if str_eq(w, "lt") {
        owned("小于比较")
    } else if str_eq(w, "le") {
        owned("小于等于比较")
    } else if str_eq(w, "gt") {
        owned("大于比较")
    } else if str_eq(w, "ge") {
        owned("大于等于比较")
    } else if str_eq(w, "br") {
        owned("无条件跳转")
    } else if str_eq(w, "br_if") {
        owned("条件跳转")
    } else if str_eq(w, "call") {
        owned("函数调用")
    } else if str_eq(w, "ret") {
        owned("函数返回")
    } else if str_eq(w, "nop") {
        owned("空操作")
    } else if str_eq(w, "dup") {
        owned("复制栈顶值")
    } else if str_eq(w, "pop") {
        owned("弹出栈顶值")
    } else if str_eq(w, "swap") {
        owned("交换栈顶两个值")
    } else {
        owned("未知指令")
    }
}

/// Longer documentation, which only `load` and `add` have.
pub fn get_instruction_documentation(instruction: &str) -> (r: Option<String>)
    ensures
        instruction@ == "load"@ ==> (r matches Some(d) && d@
            == "将常量或变量值加载到栈顶\n语法：load <value>\n示例：load 42"@),
        instruction@ == "add"@ ==> (r matches Some(d) && d@
            == "弹出栈顶两个值，相加后压入栈\n语法：add\n示例：load 1; load 2; add"@),
        instruction@ != "load"@ && instruction@ != "add"@ ==> r is None,
{
    proof {
        reveal_strlit("load");
        reveal_strlit("add");
        assert("load"@.len() == 4);
        assert("add"@.len() == 3);
    }
    if str_eq(instruction, "load") {
        Some(owned("将常量或变量值加载到栈顶\n语法：load <value>\n示例：load 42"))
    } else if str_eq(instruction, "add") {
        Some(owned("弹出栈顶两个值，相加后压入栈\n语法：add\n示例：load 1; load 2; add"))
    } else {
        None
    }
}

} // verus!
