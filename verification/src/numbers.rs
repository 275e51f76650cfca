//! Reading and writing integers as text.
//!
//! The readers accept what `from_str_radix` of the standard library accepts: an
//! optional sign, then one or more digits of the radix and nothing else.

use vstd::prelude::*;

verus! {

/// The value of `c` as a digit (`0-9`, then `a-z` or `A-Z` for ten and up), or
/// 36 if it is none.
pub open spec fn digit_value(c: char) -> nat {
    let n = c as u32;
    if 0x30 <= n <= 0x39 {
        (n - 0x30) as nat
    } else if 0x61 <= n <= 0x7A {
        (n - 0x61 + 10) as nat
    } else if 0x41 <= n <= 0x5A {
        (n - 0x41 + 10) as nat
    } else {
        36
    }
}

/// Whether every character of `s` is a digit of `radix`.
pub open spec fn all_digits(s: Seq<char>, radix: nat) -> bool {
    forall|i: int| 0 <= i < s.len() ==> digit_value(#[trigger] s[i]) < radix
}

/// The number that the digits `s` write in `radix`, most significant first.
pub open spec fn digits_value(s: Seq<char>, radix: nat) -> nat
    decreases s.len(),
{
    if s.len() == 0 {
        0
    } else {
        digits_value(s.drop_last(), radix) * radix + digit_value(s.last())
    }
}

/// `s` without one leading `+`.
pub open spec fn unsigned_body(s: Seq<char>) -> Seq<char> {
    if s.len() > 0 && s[0] == '+' {
        s.skip(1)
    } else {
        s
    }
}

/// The unsigned number that `s` writes in `radix`, if it is one and at most `max`.
pub open spec fn unsigned_of(s: Seq<char>, radix: nat, max: nat) -> Option<nat> {
    let body = unsigned_body(s);
    if body.len() > 0 && all_digits(body, radix) && digits_value(body, radix) <= max {
        Some(digits_value(body, radix))
    } else {
        None
    }
}

/// `s` without one leading `+` or `-`.
pub open spec fn signed_body(s: Seq<char>) -> Seq<char> {
    if s.len() > 0 && (s[0] == '+' || s[0] == '-') {
        s.skip(1)
    } else {
        s
    }
}

/// The decimal number that `s` writes, if it is one and lies in `min..=max`.
pub open spec fn signed_of(s: Seq<char>, min: int, max: int) -> Option<int> {
    let body = signed_body(s);
    let magnitude = digits_value(body, 10) as int;
    let value = if s.len() > 0 && s[0] == '-' {
        -magnitude
    } else {
        magnitude
    };
    if body.len() > 0 && all_digits(body, 10) && min <= value <= max {
        Some(value)
    } else {
        None
    }
}

/// The character that writes the digit `d` (lower case from ten on).
pub open spec fn digit_char(d: nat) -> char {
    if d == 0 {
        '0'
    } else if d == 1 {
        '1'
    } else if d == 2 {
        '2'
    } else if d == 3 {
        '3'
    } else if d == 4 {
        '4'
    } else if d == 5 {
        '5'
    } else if d == 6 {
        '6'
    } else if d == 7 {
        '7'
    } else if d == 8 {
        '8'
    } else if d == 9 {
        '9'
    } else if d == 10 {
        'a'
    } else if d == 11 {
        'b'
    } else if d == 12 {
        'c'
    } else if d == 13 {
        'd'
    } else if d == 14 {
        'e'
    } else {
        'f'
    }
}

/// `n` in decimal, without leading zeros.
pub open spec fn decimal(n: nat) -> Seq<char>
    decreases n,
{
    if n < 10 {
        seq![digit_char(n)]
    } else {
        decimal(n / 10).push(digit_char(n % 10))
    }
}

/// The lowest `width` hexadecimal digits of `n`, in lower case, most
/// significant first.
pub open spec fn hex_padded(n: nat, width: nat) -> Seq<char>
    decreases width,
{
    if width == 0 {
        Seq::<char>::empty()
    } else {
        hex_padded(n / 16, (width - 1) as nat).push(digit_char(n % 16))
    }
}

/// A prefix of a digit string never writes a larger number than the whole.
pub proof fn lemma_prefix_value(s: Seq<char>, j: int, radix: nat)
    requires
        0 <= j <= s.len(),
        radix >= 1,
    ensures
        digits_value(s.take(j), radix) <= digits_value(s, radix),
    decreases s.len(),
{
    if j == s.len() {
        assert(s.take(j) =~= s);
    } else {
        let t = s.drop_last();
        lemma_prefix_value(t, j, radix);
        assert(t.take(j) =~= s.take(j));
        let x = digits_value(t, radix);
        assert(x * radix >= x) by (nonlinear_arith)
            requires
                radix >= 1,
                x >= 0,
        ;
    }
}

/// The value of `c` as a digit of `radix`, if it is one.
pub fn to_digit(c: char, radix: u32) -> (d: Option<u32>)
    requires
        radix <= 36,
    ensures
        d matches Some(v) ==> v == digit_value(c) && v < radix,
        d is None ==> digit_value(c) >= radix,
{
    let n: u32 = c as u32;
    let v: u32 = if 0x30 <= n && n <= 0x39 {
        n - 0x30
    } else if 0x61 <= n && n <= 0x7A {
        n - 0x61 + 10
    } else if 0x41 <= n && n <= 0x5A {
        n - 0x41 + 10
    } else {
        36
    };
    if v < radix {
        Some(v)
    } else {
        None
    }
}

/// Reads `s[from..]` as digits of `radix`: the number, if there is at least one
/// character, all are digits and the number is at most `max`.
pub fn parse_digits(s: &Vec<char>, from: usize, radix: u32, max: u64) -> (r: Option<u64>)
    requires
        from <= s.len(),
        2 <= radix <= 36,
    ensures
        ({
            let body = s@.skip(from as int);
            let known = body.len() > 0 && all_digits(body, radix as nat) && digits_value(
                body,
                radix as nat,
            ) <= max;
            match r {
                Some(v) => known && v == digits_value(body, radix as nat),
                None => !known,
            }
        }),
{
    let ghost body = s@.skip(from as int);
    if from == s.len() {
        return None;
    }
    let mut acc: u64 = 0;
    let mut i: usize = from;
    assert(body.take(0) =~= Seq::<char>::empty());
    while i < s.len()
        invariant
            from <= i <= s.len(),
            2 <= radix <= 36,
            body == s@.skip(from as int),
            all_digits(body.take(i - from), radix as nat),
            acc == digits_value(body.take(i - from), radix as nat),
            acc <= max,
        decreases s.len() - i,
    {
        let ghost seen = body.take(i - from);
        let ghost more = body.take(i - from + 1);
        proof {
            assert(more.drop_last() =~= seen);
            assert(more.last() == s@[i as int]);
        }
        match to_digit(s[i], radix) {
            None => {
                assert(body[i - from] == s@[i as int]);
                return None;
            },
            Some(d) => {
                assert(acc as int * radix as int <= 0xFFFF_FFFF_FFFF_FFFF * 36) by (nonlinear_arith)
                    requires
                        0 <= acc as int <= 0xFFFF_FFFF_FFFF_FFFF,
                        0 <= radix as int <= 36,
                ;
                let next: u128 = acc as u128 * radix as u128 + d as u128;
                proof {
                    assert(next == digits_value(more, radix as nat)) by (nonlinear_arith)
                        requires
                            next == acc as int * radix as int + d as int,
                            digits_value(more, radix as nat) == acc as nat * radix as nat
                                + d as nat,
                    ;
                }
                if next > max as u128 {
                    proof {
                        if all_digits(body, radix as nat) {
                            lemma_prefix_value(body, i - from + 1, radix as nat);
                        }
                    }
                    return None;
                }
                proof {
                    assert forall|k: int| 0 <= k < more.len() implies digit_value(
                        #[trigger] more[k],
                    ) < radix as nat by {
                        if k < seen.len() {
                            assert(more[k] == seen[k]);
                        }
                    }
                }
                acc = next as u64;
            },
        }
        i += 1;
    }
    assert(body.take(body.len() as int) =~= body);
    Some(acc)
}

/// Reads an unsigned number of at most 16 bits in `radix`, as
/// `u16::from_str_radix` does.
pub fn parse_u16(s: &Vec<char>, radix: u32) -> (r: Option<u16>)
    requires
        2 <= radix <= 36,
    ensures
        match r {
            Some(v) => unsigned_of(s@, radix as nat, 0xFFFF) == Some(v as nat),
            None => unsigned_of(s@, radix as nat, 0xFFFF) is None,
        },
{
    let from: usize = if s.len() > 0 && s[0] == '+' {
        1
    } else {
        0
    };
    assert(s@.skip(0) =~= s@);
    match parse_digits(s, from, radix, 0xFFFF) {
        Some(v) => Some(v as u16),
        None => None,
    }
}

/// Reads a decimal number of 32 bits with an optional sign, as `str::parse::<i32>`
/// does.
pub fn parse_i32(s: &Vec<char>) -> (r: Option<i32>)
    ensures
        match r {
            Some(v) => signed_of(s@, i32::MIN as int, i32::MAX as int) == Some(v as int),
            None => signed_of(s@, i32::MIN as int, i32::MAX as int) is None,
        },
{
    let negative: bool = s.len() > 0 && s[0] == '-';
    let from: usize = if s.len() > 0 && (s[0] == '+' || s[0] == '-') {
        1
    } else {
        0
    };
    assert(s@.skip(0) =~= s@);
    let max: u64 = if negative {
        0x8000_0000
    } else {
        0x7FFF_FFFF
    };
    match parse_digits(s, from, 10, max) {
        Some(v) => {
            let wide: i64 = if negative {
                -(v as i64)
            } else {
                v as i64
            };
            Some(wide as i32)
        },
        None => None,
    }
}

/// The character that writes the digit `d`.
pub fn digit_to_char(d: u8) -> (c: char)
    requires
        d < 16,
    ensures
        c == digit_char(d as nat),
{
    if d == 0 {
        '0'
    } else if d == 1 {
        '1'
    } else if d == 2 {
        '2'
    } else if d == 3 {
        '3'
    } else if d == 4 {
        '4'
    } else if d == 5 {
        '5'
    } else if d == 6 {
        '6'
    } else if d == 7 {
        '7'
    } else if d == 8 {
        '8'
    } else if d == 9 {
        '9'
    } else if d == 10 {
        'a'
    } else if d == 11 {
        'b'
    } else if d == 12 {
        'c'
    } else if d == 13 {
        'd'
    } else if d == 14 {
        'e'
    } else {
        'f'
    }
}

/// Appends `n` in decimal to `out`.
pub fn push_decimal(out: &mut String, n: u64)
    ensures
        final(out)@ == old(out)@ + decimal(n as nat),
    decreases n,
{
    if n >= 10 {
        push_decimal(out, n / 10);
    }
    out.push(digit_to_char((n % 10) as u8));
    proof {
        if n < 10 {
            assert(old(out)@.push(digit_char(n as nat)) =~= old(out)@ + decimal(n as nat));
        } else {
            assert((old(out)@ + decimal((n / 10) as nat)).push(digit_char((n % 10) as nat))
                =~= old(out)@ + decimal(n as nat));
        }
    }
}

/// Appends the lowest `width` hexadecimal digits of `n` to `out`.
pub fn push_hex(out: &mut String, n: u64, width: u8)
    ensures
        final(out)@ == old(out)@ + hex_padded(n as nat, width as nat),
    decreases width,
{
    if width == 0 {
        assert(old(out)@ =~= old(out)@ + hex_padded(n as nat, 0));
    } else {
        push_hex(out, n / 16, width - 1);
        out.push(digit_to_char((n % 16) as u8));
        assert((old(out)@ + hex_padded((n / 16) as nat, (width - 1) as nat)).push(
            digit_char((n % 16) as nat),
        ) =~= old(out)@ + hex_padded(n as nat, width as nat));
    }
}

/// What is written in decimal reads back as the same number: the text is at
/// least one character long, holds decimal digits only, and has the number as
/// its value.
pub proof fn lemma_decimal_reads_back(n: nat)
    ensures
        decimal(n).len() >= 1,
        all_digits(decimal(n), 10),
        digits_value(decimal(n), 10) == n,
        forall|i: int|
            0 <= i < decimal(n).len() ==> 0x30 <= (#[trigger] decimal(n)[i]) as u32 <= 0x39,
    decreases n,
{
    let last = digit_char(n % 10);
    assert(digit_value(last) == n % 10 && 0x30 <= last as u32 <= 0x39);
    if n < 10 {
        let text = seq![last];
        assert(text.drop_last() =~= Seq::<char>::empty());
        assert(digits_value(text, 10) == digits_value(text.drop_last(), 10) * 10 + digit_value(
            text.last(),
        ));
    } else {
        lemma_decimal_reads_back(n / 10);
        let head = decimal(n / 10);
        let text = head.push(last);
        assert(text.drop_last() =~= head);
        assert forall|i: int| 0 <= i < text.len() implies digit_value(#[trigger] text[i]) < 10
            && 0x30 <= text[i] as u32 <= 0x39 by {
            if i < head.len() {
                assert(text[i] == head[i]);
            }
        }
    }
}

} // verus!
