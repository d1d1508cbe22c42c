//! Character-level string operations used by the tag and path logic.

use vstd::prelude::*;

verus! {

/// Relies on `String::push`: appends one character.
#[verifier::external_body]
pub(crate) fn push_char(s: &mut String, c: char)
    ensures
        final(s)@ == old(s)@.push(c),
{
    s.push(c)
}

/// Whether two strings hold the same characters.
pub fn str_eq(a: &str, b: &str) -> (r: bool)
    ensures
        r == (a@ == b@),
{
    let n = a.unicode_len();
    if n != b.unicode_len() {
        return false;
    }
    let mut i: usize = 0;
    while i < n
        invariant
            n == a@.len() == b@.len(),
            i <= n,
            a@.take(i as int) == b@.take(i as int),
        decreases n - i,
    {
        if a.get_char(i) != b.get_char(i) {
            return false;
        }
        assert(a@.take(i + 1) == a@.take(i as int).push(a@[i as int]));
        assert(b@.take(i + 1) == b@.take(i as int).push(b@[i as int]));
        i = i + 1;
    }
    assert(a@.take(n as int) == a@);
    assert(b@.take(n as int) == b@);
    true
}

/// `text` begins with `prefix`.
pub open spec fn has_prefix(text: Seq<char>, prefix: Seq<char>) -> bool {
    prefix.len() <= text.len() && text.take(prefix.len() as int) == prefix
}

/// Whether `text` begins with `prefix`.
pub fn starts_with(text: &str, prefix: &str) -> (r: bool)
    ensures
        r == has_prefix(text@, prefix@),
{
    let n = prefix.unicode_len();
    if n > text.unicode_len() {
        return false;
    }
    let mut i: usize = 0;
    while i < n
        invariant
            n == prefix@.len() <= text@.len(),
            i <= n,
            text@.take(i as int) == prefix@.take(i as int),
        decreases n - i,
    {
        if text.get_char(i) != prefix.get_char(i) {
            assert(text@.take(n as int)[i as int] != prefix@[i as int]);
            return false;
        }
        assert(text@.take(i + 1) == text@.take(i as int).push(text@[i as int]));
        assert(prefix@.take(i + 1) == prefix@.take(i as int).push(prefix@[i as int]));
        i = i + 1;
    }
    assert(prefix@.take(n as int) == prefix@);
    true
}

/// `c`, with an underscore turned into a space.
pub open spec fn underscore_to_space(c: char) -> char {
    if c == '_' {
        ' '
    } else {
        c
    }
}

/// A copy of `text` with every underscore replaced by a space.
pub fn replace_underscores(text: &str) -> (r: String)
    ensures
        r@ == text@.map_values(|c: char| underscore_to_space(c)),
{
    let n = text.unicode_len();
    let mut out = String::new();
    let mut i: usize = 0;
    while i < n
        invariant
            n == text@.len(),
            i <= n,
            out@ == text@.take(i as int).map_values(|c: char| underscore_to_space(c)),
        decreases n - i,
    {
        let c = text.get_char(i);
        let d = if c == '_' {
            ' '
        } else {
            c
        };
        push_char(&mut out, d);
        assert(text@.take(i + 1) == text@.take(i as int).push(c));
        i = i + 1;
    }
    assert(text@.take(n as int) == text@);
    out
}

/// The parts in order, with `sep` between neighbours.
pub open spec fn joined(parts: Seq<Seq<char>>, sep: Seq<char>) -> Seq<char>
    decreases parts.len(),
{
    if parts.len() == 0 {
        seq![]
    } else if parts.len() == 1 {
        parts[0]
    } else {
        joined(parts.drop_last(), sep) + sep + parts.last()
    }
}

/// The parts in order, with `sep` between neighbours.
pub fn join(parts: &Vec<String>, sep: &str) -> (r: String)
    ensures
        r@ == joined(parts@.map_values(|s: String| s@), sep@),
{
    let mut out = String::new();
    let mut i: usize = 0;
    while i < parts.len()
        invariant
            i <= parts@.len(),
            out@ == joined(parts@.take(i as int).map_values(|s: String| s@), sep@),
        decreases parts@.len() - i,
    {
        let ghost prev = parts@.take(i as int).map_values(|s: String| s@);
        let ghost next = parts@.take(i + 1).map_values(|s: String| s@);
        assert(next.drop_last() == prev);
        if i > 0 {
            out.append(sep);
        }
        out.append(parts[i].as_str());
        i = i + 1;
    }
    assert(parts@.take(parts@.len() as int) == parts@);
    out
}

/// The value of character `c` as a digit in base `radix`, as `char::to_digit` reads
/// it: `0`-`9`, then letters of either case from 10 on.
pub open spec fn digit_value(c: char, radix: nat) -> Option<nat> {
    let v: int = if '0' <= c && c <= '9' {
        c as u32 - '0' as u32
    } else if 'a' <= c && c <= 'z' {
        c as u32 - 'a' as u32 + 10
    } else if 'A' <= c && c <= 'Z' {
        c as u32 - 'A' as u32 + 10
    } else {
        radix as int
    };
    if v < radix {
        Some(v as nat)
    } else {
        None
    }
}

pub open spec fn all_digits(s: Seq<char>, radix: nat) -> bool {
    forall|i: int| 0 <= i < s.len() ==> digit_value(#[trigger] s[i], radix) is Some
}

/// The number that a string of digits in base `radix` writes.
pub open spec fn digits_value(s: Seq<char>, radix: nat) -> nat
    decreases s.len(),
{
    if s.len() == 0 {
        0
    } else {
        digits_value(s.drop_last(), radix) * radix + match digit_value(s.last(), radix) {
            Some(d) => d,
            None => 0,
        }
    }
}

/// The integer that a string writes: digits in base `radix`, with an optional
/// leading `+` or `-`.
pub open spec fn int_value(s: Seq<char>, radix: nat) -> Option<int> {
    if s.len() > 1 && (s[0] == '-' || s[0] == '+') && all_digits(s.skip(1), radix) {
        if s[0] == '-' {
            Some(-(digits_value(s.skip(1), radix) as int))
        } else {
            Some(digits_value(s.skip(1), radix) as int)
        }
    } else if s.len() > 0 && all_digits(s, radix) {
        Some(digits_value(s, radix) as int)
    } else {
        None
    }
}

/// The `i32` that a string writes in base `radix`, if it writes one in range.
pub open spec fn i32_value(s: Seq<char>, radix: nat) -> Option<i32> {
    match int_value(s, radix) {
        Some(v) => if i32::MIN <= v <= i32::MAX {
            Some(v as i32)
        } else {
            None
        },
        None => None,
    }
}

/// The `i32` of a table field: hexadecimal after a `0x` prefix, decimal otherwise.
pub open spec fn field_i32_value(s: Seq<char>) -> Option<i32> {
    if has_prefix(s, "0x"@) {
        i32_value(s.skip(2), 16)
    } else {
        i32_value(s, 10)
    }
}

proof fn lemma_digits_prefix(t: Seq<char>, radix: nat, k: int)
    requires
        0 <= k <= t.len(),
        radix >= 1,
    ensures
        digits_value(t, radix) >= digits_value(t.take(k), radix),
    decreases t.len(),
{
    if k < t.len() {
        assert(t.drop_last().take(k) == t.take(k));
        lemma_digits_prefix(t.drop_last(), radix, k);
        let d = digits_value(t.drop_last(), radix);
        assert(d * radix >= d) by (nonlinear_arith)
            requires
                radix >= 1,
        ;
    } else {
        assert(t.take(k) == t);
    }
}

/// The value of `c` as a digit in base `radix`.
fn digit_of(c: char, radix: u32) -> (r: Option<u32>)
    ensures
        r matches Some(v) ==> digit_value(c, radix as nat) == Some(v as nat),
        r is None ==> digit_value(c, radix as nat) is None,
{
    let v: u32 = if '0' <= c && c <= '9' {
        c as u32 - '0' as u32
    } else if 'a' <= c && c <= 'z' {
        c as u32 - 'a' as u32 + 10
    } else if 'A' <= c && c <= 'Z' {
        c as u32 - 'A' as u32 + 10
    } else {
        radix
    };
    if v < radix {
        Some(v)
    } else {
        None
    }
}

/// Reads an `i32` written in base `radix`, with an optional sign.
pub fn parse_i32_radix(s: &str, radix: u32) -> (r: Option<i32>)
    requires
        2 <= radix <= 36,
    ensures
        r == i32_value(s@, radix as nat),
{
    let n = s.unicode_len();
    if n == 0 {
        return None;
    }
    let c0 = s.get_char(0);
    let neg = c0 == '-';
    let start: usize = if c0 == '-' || c0 == '+' {
        1
    } else {
        0
    };
    if start == n {
        return None;
    }
    let ghost digits = s@.skip(start as int);
    let ghost rad = radix as nat;
    let mut v: u64 = 0;
    let mut i: usize = start;
    while i < n
        invariant
            n == s@.len(),
            2 <= radix <= 36,
            rad == radix as nat,
            start <= i <= n,
            start <= 1,
            start == 1 <==> (s@[0] == '-' || s@[0] == '+'),
            neg <==> s@[0] == '-',
            digits == s@.skip(start as int),
            v as nat == digits_value(s@.subrange(start as int, i as int), rad),
            all_digits(s@.subrange(start as int, i as int), rad),
            v <= 0x8000_0000,
        decreases n - i,
    {
        let c = s.get_char(i);
        let d = match digit_of(c, radix) {
            Some(d) => d,
            None => {
                proof {
                    assert(digits[i - start] == c);
                    assert(!all_digits(digits, rad));
                    if start == 0 {
                        assert(digits == s@);
                    } else {
                        assert(digit_value(s@[0], rad) is None);
                    }
                }
                return None;
            },
        };
        let ghost next = s@.subrange(start as int, i + 1);
        assert(next.drop_last() == s@.subrange(start as int, i as int));
        proof {
            assert(v * radix + d <= 0x8000_0000 * 36 + 36) by (nonlinear_arith)
                requires
                    v <= 0x8000_0000,
                    radix <= 36,
                    d < radix,
            ;
        }
        v = v * (radix as u64) + d as u64;
        i = i + 1;
        if v > 0x8000_0000 {
            proof {
                if all_digits(digits, rad) {
                    assert(digits.take(i - start) == next);
                    lemma_digits_prefix(digits, rad, i - start);
                }
                if start == 0 {
                    assert(digits == s@);
                } else {
                    assert(digit_value(s@[0], rad) is None);
                }
            }
            return None;
        }
    }
    assert(s@.subrange(start as int, n as int) == digits);
    if start == 0 {
        assert(digits == s@);
    }
    if neg {
        Some((0 - v as i64) as i32)
    } else if v <= 0x7fff_ffff {
        Some(v as i32)
    } else {
        None
    }
}

/// Reads an `i32` written in decimal, with an optional sign.
pub fn parse_i32(s: &str) -> (r: Option<i32>)
    ensures
        r == i32_value(s@, 10),
{
    parse_i32_radix(s, 10)
}

/// Reads the `i32` of a table field: hexadecimal after a `0x` prefix, decimal
/// otherwise, each with an optional sign.
pub fn parse_field_i32(s: &str) -> (r: Option<i32>)
    ensures
        r == field_i32_value(s@),
{
    if starts_with(s, "0x") {
        let n = s.unicode_len();
        proof {
            reveal_strlit("0x");
        }
        let rest = s.substring_char(2, n);
        parse_i32_radix(rest, 16)
    } else {
        parse_i32_radix(s, 10)
    }
}

} // verus!
