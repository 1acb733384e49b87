//! The lexical layer of the assembler: splitting a line into tokens, and
//! reading register names, decimal immediates and `offset(base)` operands.
use vstd::prelude::*;

verus! {

/// White space, which separates tokens: the characters with the Unicode
/// `White_Space` property.
pub open spec fn is_space(c: char) -> bool {
    ('\t' <= c && c <= '\r') || c == ' ' || c == '\u{85}' || c == '\u{A0}' || c == '\u{1680}'
        || ('\u{2000}' <= c && c <= '\u{200A}') || c == '\u{2028}' || c == '\u{2029}' || c
        == '\u{202F}' || c == '\u{205F}' || c == '\u{3000}'
}

/// Scanning `s[..i]`: the tokens completed so far, and where the token still
/// open, if any, starts.
pub open spec fn scan_tokens(s: Seq<char>, i: nat) -> (Seq<Seq<char>>, Option<int>)
    decreases i,
{
    if i == 0 {
        (Seq::empty(), None)
    } else {
        let (done, open) = scan_tokens(s, (i - 1) as nat);
        if is_space(s[i - 1]) {
            match open {
                Some(a) => (done.push(s.subrange(a, i - 1)), None),
                None => (done, None),
            }
        } else {
            match open {
                Some(a) => (done, Some(a)),
                None => (done, Some(i - 1)),
            }
        }
    }
}

/// The maximal runs of non-space characters of `s`, in order.
pub open spec fn split_tokens(s: Seq<char>) -> Seq<Seq<char>> {
    let (done, open) = scan_tokens(s, s.len());
    match open {
        Some(a) => done.push(s.subrange(a, s.len() as int)),
        None => done,
    }
}

/// `t` without its trailing commas.
pub open spec fn strip_commas(t: Seq<char>) -> Seq<char>
    decreases t.len(),
{
    if t.len() > 0 && t.last() == ',' {
        strip_commas(t.drop_last())
    } else {
        t
    }
}

pub open spec fn token_views(v: Seq<&str>) -> Seq<Seq<char>> {
    v.map_values(|t: &str| t@)
}

pub(crate) fn is_space_char(c: char) -> (r: bool)
    ensures
        r == is_space(c),
{
    ('\t' <= c && c <= '\r') || c == ' ' || c == '\u{85}' || c == '\u{A0}' || c == '\u{1680}'
        || ('\u{2000}' <= c && c <= '\u{200A}') || c == '\u{2028}' || c == '\u{2029}' || c
        == '\u{202F}' || c == '\u{205F}' || c == '\u{3000}'
}

/// Splits `line` at runs of whitespace.
pub fn split_whitespace<'a>(line: &'a str) -> (r: Vec<&'a str>)
    ensures
        token_views(r@) == split_tokens(line@),
{
    let n = line.unicode_len();
    let mut tokens: Vec<&'a str> = Vec::new();
    let mut start: usize = 0;
    let mut open = false;
    let mut i: usize = 0;
    while i < n
        invariant
            n == line@.len(),
            i <= n,
            start <= i,
            scan_tokens(line@, i as nat) == (token_views(tokens@), if open {
                Some(start as int)
            } else {
                None
            }),
        decreases n - i,
    {
        let c = line.get_char(i);
        if is_space_char(c) {
            if open {
                let t = line.substring_char(start, i);
                let ghost before = tokens@;
                tokens.push(t);
                assert(token_views(tokens@) =~= token_views(before).push(t@));
                open = false;
            }
        } else if !open {
            start = i;
            open = true;
        }
        i = i + 1;
    }
    if open {
        let t = line.substring_char(start, n);
        let ghost before = tokens@;
        tokens.push(t);
        assert(token_views(tokens@) =~= token_views(before).push(t@));
    }
    tokens
}


pub open spec fn is_digit(c: char) -> bool {
    '0' <= c <= '9'
}

pub open spec fn all_digits(s: Seq<char>) -> bool {
    forall|i: int| 0 <= i < s.len() ==> is_digit(#[trigger] s[i])
}

/// The number that the decimal digits `s` spell.
pub open spec fn decimal(s: Seq<char>) -> int
    decreases s.len(),
{
    if s.len() == 0 {
        0
    } else {
        10 * decimal(s.drop_last()) + (s.last() as int - '0' as int)
    }
}

/// The integer that `t` spells in decimal, with an optional sign.
pub open spec fn int_value(t: Seq<char>) -> Option<int> {
    if t.len() > 0 && (t[0] == '-' || t[0] == '+') {
        let d = t.drop_first();
        if d.len() > 0 && all_digits(d) {
            Some(
                if t[0] == '-' {
                    -decimal(d)
                } else {
                    decimal(d)
                },
            )
        } else {
            None
        }
    } else if t.len() > 0 && all_digits(t) {
        Some(decimal(t))
    } else {
        None
    }
}

/// The value of the immediate `t` where it is a decimal integer that fits an `i32`.
pub open spec fn i32_value(t: Seq<char>) -> Option<i32> {
    match int_value(t) {
        Some(v) => if i32::MIN <= v <= i32::MAX {
            Some(v as i32)
        } else {
            None
        },
        None => None,
    }
}

/// The value of the immediate `t` where it is a decimal integer that fits a `u32`.
pub open spec fn u32_value(t: Seq<char>) -> Option<u32> {
    match int_value(t) {
        Some(v) => if 0 <= v <= u32::MAX {
            Some(v as u32)
        } else {
            None
        },
        None => None,
    }
}

/// The register that `t` names: `x0` to `x31`, or an ABI alias.
pub open spec fn register_number(t: Seq<char>) -> Option<u32> {
    if t.len() > 0 && t[0] == 'x' {
        let d = t.drop_first();
        if d.len() > 0 && all_digits(d) && decimal(d) < 32 {
            Some(decimal(d) as u32)
        } else {
            None
        }
    } else if t == "zero"@ {
        Some(0u32)
    } else if t == "ra"@ {
        Some(1u32)
    } else if t == "sp"@ {
        Some(2u32)
    } else if t == "gp"@ {
        Some(3u32)
    } else if t == "tp"@ {
        Some(4u32)
    } else if t == "t0"@ {
        Some(5u32)
    } else if t == "t1"@ {
        Some(6u32)
    } else if t == "t2"@ {
        Some(7u32)
    } else if t == "s0"@ {
        Some(8u32)
    } else if t == "fp"@ {
        Some(8u32)
    } else if t == "s1"@ {
        Some(9u32)
    } else if t == "a0"@ {
        Some(10u32)
    } else if t == "a1"@ {
        Some(11u32)
    } else if t == "a2"@ {
        Some(12u32)
    } else if t == "a3"@ {
        Some(13u32)
    } else if t == "a4"@ {
        Some(14u32)
    } else if t == "a5"@ {
        Some(15u32)
    } else if t == "a6"@ {
        Some(16u32)
    } else if t == "a7"@ {
        Some(17u32)
    } else if t == "s2"@ {
        Some(18u32)
    } else if t == "s3"@ {
        Some(19u32)
    } else if t == "s4"@ {
        Some(20u32)
    } else if t == "s5"@ {
        Some(21u32)
    } else if t == "s6"@ {
        Some(22u32)
    } else if t == "s7"@ {
        Some(23u32)
    } else if t == "s8"@ {
        Some(24u32)
    } else if t == "s9"@ {
        Some(25u32)
    } else if t == "s10"@ {
        Some(26u32)
    } else if t == "s11"@ {
        Some(27u32)
    } else if t == "t3"@ {
        Some(28u32)
    } else if t == "t4"@ {
        Some(29u32)
    } else if t == "t5"@ {
        Some(30u32)
    } else if t == "t6"@ {
        Some(31u32)
    } else {
        None
    }
}

/// Where the first `(` of `s` stands.
pub open spec fn first_open_paren(s: Seq<char>) -> Option<int>
    decreases s.len(),
{
    if s.len() == 0 {
        None
    } else {
        match first_open_paren(s.drop_last()) {
            Some(k) => Some(k),
            None => if s.last() == '(' {
                Some(s.len() - 1)
            } else {
                None
            },
        }
    }
}

/// An operand `offset(base)`, split into its offset and its base.
pub open spec fn offset_and_base(t: Seq<char>) -> Option<(Seq<char>, Seq<char>)> {
    if t.len() > 0 && t.last() == ')' {
        let inner = t.drop_last();
        match first_open_paren(inner) {
            Some(k) => Some((inner.subrange(0, k), inner.subrange(k + 1, inner.len() as int))),
            None => None,
        }
    } else {
        None
    }
}

/// `x`, with every value from `2^32` up taken as `2^32`.
pub open spec fn capped(x: int) -> int {
    if x >= 0x1_0000_0000 {
        0x1_0000_0000
    } else {
        x
    }
}

proof fn lemma_decimal_nonneg(s: Seq<char>)
    requires
        all_digits(s),
    ensures
        decimal(s) >= 0,
    decreases s.len(),
{
    if s.len() > 0 {
        assert(is_digit(s[s.len() - 1]));
        lemma_decimal_nonneg(s.drop_last());
    }
}

/// `t` without its trailing commas.
pub(crate) fn trim_commas<'a>(t: &'a str) -> (r: &'a str)
    ensures
        r@ == strip_commas(t@),
{
    let n = t.unicode_len();
    let mut end = n;
    assert(t@.subrange(0, n as int) =~= t@);
    loop
        invariant
            n == t@.len(),
            end <= n,
            strip_commas(t@.subrange(0, end as int)) == strip_commas(t@),
        ensures
            end <= n,
            strip_commas(t@) == t@.subrange(0, end as int),
        decreases end,
    {
        if end == 0 {
            break;
        }
        if t.get_char(end - 1) != ',' {
            break;
        }
        assert(t@.subrange(0, end as int).drop_last() =~= t@.subrange(0, end - 1));
        end = end - 1;
    }
    t.substring_char(0, end)
}

/// Whether `t` is the text `lit`.
pub(crate) fn eq_lit(t: &str, lit: &str) -> (r: bool)
    ensures
        r == (t@ == lit@),
{
    let n = t.unicode_len();
    if n != lit.unicode_len() {
        return false;
    }
    let mut i: usize = 0;
    while i < n
        invariant
            n == t@.len(),
            n == lit@.len(),
            i <= n,
            forall|j: int| 0 <= j < i ==> t@[j] == lit@[j],
        decreases n - i,
    {
        if t.get_char(i) != lit.get_char(i) {
            return false;
        }
        i = i + 1;
    }
    assert(t@ =~= lit@);
    true
}

/// The digits `t[from..]` read as a decimal number, every value from `2^32`
/// up read as `2^32`; `None` unless they are one or more digits.
pub(crate) fn parse_digits(t: &str, from: usize) -> (r: Option<u64>)
    ensures
        r is Some <==> (from < t@.len() && all_digits(t@.subrange(from as int, t@.len() as int))),
        r matches Some(v) ==> v == capped(decimal(t@.subrange(from as int, t@.len() as int))),
{
    let n = t.unicode_len();
    if from >= n {
        return None;
    }
    let mut value: u64 = 0;
    let mut i: usize = from;
    assert(t@.subrange(from as int, from as int) =~= Seq::<char>::empty());
    while i < n
        invariant
            n == t@.len(),
            from <= i <= n,
            all_digits(t@.subrange(from as int, i as int)),
            value == capped(decimal(t@.subrange(from as int, i as int))),
        decreases n - i,
    {
        let c = t.get_char(i);
        if !('0' <= c && c <= '9') {
            assert(!all_digits(t@.subrange(from as int, n as int))) by {
                assert(t@.subrange(from as int, n as int)[i - from] == c);
            }
            return None;
        }
        let ghost prefix = t@.subrange(from as int, i as int);
        let ghost next = t@.subrange(from as int, i + 1);
        assert(next.drop_last() =~= prefix);
        assert(next.last() == c);
        assert(all_digits(next)) by {
            assert forall|j: int| 0 <= j < next.len() implies is_digit(#[trigger] next[j]) by {
                if j < prefix.len() {
                    assert(next[j] == prefix[j]);
                }
            }
        }
        proof {
            lemma_decimal_nonneg(prefix);
        }
        let d = (c as u32 - '0' as u32) as u64;
        if value < 0x1_0000_0000 {
            value = value * 10 + d;
            if value > 0x1_0000_0000 {
                value = 0x1_0000_0000;
            }
        }
        i = i + 1;
    }
    assert(t@.subrange(from as int, n as int) == t@.subrange(from as int, i as int));
    Some(value)
}

/// The integer that `t` spells, with every magnitude from `2^32` up read as
/// `2^32`.
pub(crate) fn parse_int(t: &str) -> (r: Option<i64>)
    ensures
        r is Some <==> int_value(t@) is Some,
        r matches Some(v) ==> (if int_value(t@)->0 >= 0 {
            v == capped(int_value(t@)->0)
        } else {
            v == -capped(-int_value(t@)->0)
        }),
{
    let n = t.unicode_len();
    if n == 0 {
        return None;
    }
    let first = t.get_char(0);
    assert(t@.subrange(1, n as int) =~= t@.drop_first());
    assert(t@.subrange(0, n as int) =~= t@);
    if first == '-' || first == '+' {
        match parse_digits(t, 1) {
            None => None,
            Some(v) => {
                proof {
                    lemma_decimal_nonneg(t@.drop_first());
                }
                if first == '-' {
                    Some(0 - (v as i64))
                } else {
                    Some(v as i64)
                }
            },
        }
    } else {
        match parse_digits(t, 0) {
            None => None,
            Some(v) => {
                proof {
                    lemma_decimal_nonneg(t@);
                }
                Some(v as i64)
            },
        }
    }
}

pub(crate) fn parse_i32(t: &str) -> (r: Option<i32>)
    ensures
        r == i32_value(t@),
{
    match parse_int(t) {
        Some(v) => if -0x8000_0000 <= v && v <= 0x7FFF_FFFF {
            Some(v as i32)
        } else {
            None
        },
        None => None,
    }
}

pub(crate) fn parse_u32(t: &str) -> (r: Option<u32>)
    ensures
        r == u32_value(t@),
{
    match parse_int(t) {
        Some(v) => if 0 <= v && v <= 0xFFFF_FFFF {
            Some(v as u32)
        } else {
            None
        },
        None => None,
    }
}

/// The number of the register that `t` names.
pub(crate) fn parse_register(t: &str) -> (r: Option<u32>)
    ensures
        r == register_number(t@),
{
    let n = t.unicode_len();
    if n > 0 && t.get_char(0) == 'x' {
        assert(t@.subrange(1, n as int) =~= t@.drop_first());
        match parse_digits(t, 1) {
            Some(v) => if v < 32 {
                Some(v as u32)
            } else {
                None
            },
            None => None,
        }
    } else if eq_lit(t, "zero") {
        Some(0)
    } else if eq_lit(t, "ra") {
        Some(1)
    } else if eq_lit(t, "sp") {
        Some(2)
    } else if eq_lit(t, "gp") {
        Some(3)
    } else if eq_lit(t, "tp") {
        Some(4)
    } else if eq_lit(t, "t0") {
        Some(5)
    } else if eq_lit(t, "t1") {
        Some(6)
    } else if eq_lit(t, "t2") {
        Some(7)
    } else if eq_lit(t, "s0") {
        Some(8)
    } else if eq_lit(t, "fp") {
        Some(8)
    } else if eq_lit(t, "s1") {
        Some(9)
    } else if eq_lit(t, "a0") {
        Some(10)
    } else if eq_lit(t, "a1") {
        Some(11)
    } else if eq_lit(t, "a2") {
        Some(12)
    } else if eq_lit(t, "a3") {
        Some(13)
    } else if eq_lit(t, "a4") {
        Some(14)
    } else if eq_lit(t, "a5") {
        Some(15)
    } else if eq_lit(t, "a6") {
        Some(16)
    } else if eq_lit(t, "a7") {
        Some(17)
    } else if eq_lit(t, "s2") {
        Some(18)
    } else if eq_lit(t, "s3") {
        Some(19)
    } else if eq_lit(t, "s4") {
        Some(20)
    } else if eq_lit(t, "s5") {
        Some(21)
    } else if eq_lit(t, "s6") {
        Some(22)
    } else if eq_lit(t, "s7") {
        Some(23)
    } else if eq_lit(t, "s8") {
        Some(24)
    } else if eq_lit(t, "s9") {
        Some(25)
    } else if eq_lit(t, "s10") {
        Some(26)
    } else if eq_lit(t, "s11") {
        Some(27)
    } else if eq_lit(t, "t3") {
        Some(28)
    } else if eq_lit(t, "t4") {
        Some(29)
    } else if eq_lit(t, "t5") {
        Some(30)
    } else if eq_lit(t, "t6") {
        Some(31)
    } else {
        None
    }
}

/// Splits an operand `offset(base)` into its offset and its base.
pub(crate) fn parse_base_and_offset<'a>(t: &'a str) -> (r: Option<(&'a str, &'a str)>)
    ensures
        match offset_and_base(t@) {
            Some((offset, base)) => r matches Some((o, b)) && o@ == offset && b@ == base,
            None => r is None,
        },
{
    let n = t.unicode_len();
    if n == 0 || t.get_char(n - 1) != ')' {
        return None;
    }
    let ghost inner = t@.drop_last();
    let mut found: Option<usize> = None;
    let mut i: usize = 0;
    assert(inner.subrange(0, 0) =~= Seq::<char>::empty());
    while i < n - 1
        invariant
            n == t@.len(),
            n > 0,
            inner == t@.drop_last(),
            i <= n - 1,
            first_open_paren(inner.subrange(0, i as int)) == match found {
                Some(k) => Some(k as int),
                None => None::<int>,
            },
            found matches Some(k) ==> k < i,
        decreases n - 1 - i,
    {
        assert(inner.subrange(0, i + 1).drop_last() =~= inner.subrange(0, i as int));
        if found.is_none() && t.get_char(i) == '(' {
            found = Some(i);
        }
        i = i + 1;
    }
    assert(inner.subrange(0, n - 1) =~= inner);
    match found {
        None => None,
        Some(k) => {
            let offset = t.substring_char(0, k);
            let base = t.substring_char(k + 1, n - 1);
            assert(offset@ =~= inner.subrange(0, k as int));
            assert(base@ =~= inner.subrange(k + 1, inner.len() as int));
            Some((offset, base))
        },
    }
}

} // verus!
