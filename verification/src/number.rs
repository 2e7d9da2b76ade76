use vstd::prelude::*;

verus! {

/// The value of `c` as a digit in the given radix. Radix 10 knows `0` to `9`; radix 16
/// also knows `a` to `f` in either case.
pub open spec fn digit_value(c: char, radix: int) -> Option<int> {
    if '0' <= c <= '9' {
        Some(c as u32 - '0' as u32)
    } else if radix == 16 && 'a' <= c <= 'f' {
        Some(c as u32 - 'a' as u32 + 10)
    } else if radix == 16 && 'A' <= c <= 'F' {
        Some(c as u32 - 'A' as u32 + 10)
    } else {
        None
    }
}

/// Every character of `s` is a digit in the given radix.
pub open spec fn all_digits(s: Seq<char>, radix: int) -> bool {
    forall|i: int| 0 <= i < s.len() ==> digit_value(#[trigger] s[i], radix) is Some
}

/// The number that the digits of `s` write, most significant digit first.
pub open spec fn digits_value(s: Seq<char>, radix: int) -> int
    decreases s.len(),
{
    if s.len() == 0 {
        0
    } else {
        digits_value(s.drop_last(), radix) * radix + match digit_value(s.last(), radix) {
            Some(d) => d,
            None => 0,
        }
    }
}

/// What `s` denotes as an unsigned number no larger than `max`: `s` is one digit or more,
/// nothing but digits, and its value fits.
pub open spec fn number_value(s: Seq<char>, radix: int, max: int) -> Option<int> {
    if s.len() > 0 && all_digits(s, radix) && digits_value(s, radix) <= max {
        Some(digits_value(s, radix))
    } else {
        None
    }
}

/// The lower-case digit character for `d`, where `0 <= d < 16`.
pub open spec fn digit_char(d: int) -> char {
    if d < 10 {
        (d + '0' as u32) as char
    } else {
        (d - 10 + 'a' as u32) as char
    }
}

/// The shortest text that writes `n` in the given radix, with lower-case digits.
pub open spec fn number_text(n: nat, radix: int) -> Seq<char>
    decreases n,
    via number_text_decreases
{
    if n < radix || radix < 2 {
        seq![digit_char(n as int)]
    } else {
        number_text((n as int / radix) as nat, radix).push(digit_char(n as int % radix))
    }
}

#[via_fn]
proof fn number_text_decreases(n: nat, radix: int) {
    if !(n < radix || radix < 2) {
        assert(0 <= n as int / radix < n) by (nonlinear_arith)
            requires
                n >= radix,
                radix >= 2,
        ;
    }
}

/// `number_text` left-padded with `0` to at least two characters.
pub open spec fn number_text_two(n: nat, radix: int) -> Seq<char> {
    if n < radix {
        seq!['0', digit_char(n as int)]
    } else {
        number_text(n, radix)
    }
}

pub proof fn lemma_digits_value_nonneg(s: Seq<char>, radix: int)
    requires
        radix == 10 || radix == 16,
    ensures
        digits_value(s, radix) >= 0,
    decreases s.len(),
{
    if s.len() > 0 {
        lemma_digits_value_nonneg(s.drop_last(), radix);
        assert(digits_value(s.drop_last(), radix) * radix >= 0) by (nonlinear_arith)
            requires
                digits_value(s.drop_last(), radix) >= 0,
                radix > 0,
        ;
    }
}

/// A prefix of a digit string is worth no more than the whole string.
pub proof fn lemma_prefix_value(s: Seq<char>, n: int, radix: int)
    requires
        radix == 10 || radix == 16,
        0 <= n <= s.len(),
    ensures
        digits_value(s.take(n), radix) <= digits_value(s, radix),
    decreases s.len(),
{
    if n == s.len() {
        assert(s.take(n) =~= s);
    } else {
        let front = s.drop_last();
        lemma_prefix_value(front, n, radix);
        assert(front.take(n) =~= s.take(n));
        lemma_digits_value_nonneg(front, radix);
        assert(digits_value(front, radix) * radix >= digits_value(front, radix))
            by (nonlinear_arith)
            requires
                digits_value(front, radix) >= 0,
                radix >= 1,
        ;
    }
}

/// Reading back what `number_text` wrote gives the number.
pub proof fn lemma_number_text_value(n: nat, radix: int)
    requires
        radix == 10 || radix == 16,
    ensures
        number_text(n, radix).len() > 0,
        all_digits(number_text(n, radix), radix),
        digits_value(number_text(n, radix), radix) == n,
    decreases n,
{
    let t = number_text(n, radix);
    if n < radix {
        assert(t.drop_last() =~= Seq::<char>::empty());
        assert(digits_value(t.drop_last(), radix) == 0);
        assert(digit_value(t.last(), radix) == Some(n as int));
    } else {
        let q = (n as int / radix) as nat;
        let r = n as int % radix;
        assert(0 <= n as int / radix < n && 0 <= r < radix) by (nonlinear_arith)
            requires
                n >= radix,
                radix >= 2,
                r == n as int % radix,
        ;
        lemma_number_text_value(q, radix);
        assert(t.drop_last() =~= number_text(q, radix));
        assert(t.last() == digit_char(r));
        assert(digit_value(digit_char(r), radix) == Some(r));
        assert forall|i: int| 0 <= i < t.len() implies digit_value(#[trigger] t[i], radix)
            is Some by {
            if i < t.len() - 1 {
                assert(t[i] == number_text(q, radix)[i]);
            }
        }
        assert(q * radix + r == n) by (nonlinear_arith)
            requires
                q == n as int / radix,
                r == n as int % radix,
                radix > 0,
        ;
    }
}

/// The value of one digit character, or `None` where `c` is no digit of the radix.
pub fn digit_of(c: char, radix: u64) -> (r: Option<u64>)
    requires
        radix == 10 || radix == 16,
    ensures
        match r {
            Some(d) => digit_value(c, radix as int) == Some(d as int) && d < radix,
            None => digit_value(c, radix as int) is None,
        },
{
    let code: u32 = c as u32;
    if 48 <= code && code <= 57 {
        Some((code - 48) as u64)
    } else if radix == 16 && 97 <= code && code <= 102 {
        Some((code - 97 + 10) as u64)
    } else if radix == 16 && 65 <= code && code <= 70 {
        Some((code - 65 + 10) as u64)
    } else {
        None
    }
}

/// Reads `chars[from..to]` as an unsigned number in the given radix, no larger than `max`.
pub fn parse_number(chars: &Vec<char>, from: usize, to: usize, radix: u64, max: u64) -> (r:
    Option<u64>)
    requires
        from <= to <= chars.len(),
        radix == 10 || radix == 16,
    ensures
        match r {
            Some(v) => number_value(chars@.subrange(from as int, to as int), radix as int, max as int)
                == Some(v as int),
            None => number_value(chars@.subrange(from as int, to as int), radix as int, max as int)
                is None,
        },
{
    let ghost whole = chars@.subrange(from as int, to as int);
    if from == to {
        return None;
    }
    let mut value: u64 = 0;
    let mut i: usize = from;
    while i < to
        invariant
            from <= i <= to <= chars.len(),
            radix == 10 || radix == 16,
            whole == chars@.subrange(from as int, to as int),
            all_digits(whole.take(i - from), radix as int),
            value == digits_value(whole.take(i - from), radix as int),
            value <= max,
        decreases to - i,
    {
        let ghost before = whole.take(i - from);
        let ghost after = whole.take(i + 1 - from);
        proof {
            assert(after.drop_last() =~= before);
            assert(after.last() == chars@[i as int]);
        }
        let d = match digit_of(chars[i], radix) {
            Some(d) => d,
            None => {
                assert(digit_value(whole[i - from], radix as int) is None);
                return None;
            },
        };
        proof {
            assert forall|k: int| 0 <= k < after.len() implies digit_value(
                #[trigger] after[k],
                radix as int,
            ) is Some by {
                if k < after.len() - 1 {
                    assert(after[k] == before[k]);
                }
            }
        }
        if d > max || value > (max - d) / radix {
            proof {
                assert(value * radix + d > max) by (nonlinear_arith)
                    requires
                        d > max || value > (max - d) / (radix as int),
                        radix > 0,
                        value >= 0,
                        d >= 0,
                ;
                lemma_prefix_value(whole, i + 1 - from, radix as int);
            }
            return None;
        }
        assert(value * radix + d <= max) by (nonlinear_arith)
            requires
                d <= max,
                value <= (max - d) / (radix as int),
                radix > 0,
        ;
        value = value * radix + d;
        i += 1;
    }
    proof {
        assert(whole.take(i - from) =~= whole);
    }
    Some(value)
}

/// The lower-case digit character of `d`.
pub fn char_of_digit(d: u64) -> (c: char)
    requires
        d < 16,
    ensures
        c == digit_char(d as int),
{
    if d < 10 {
        (d as u8 + 48) as char
    } else {
        (d as u8 - 10 + 97) as char
    }
}

/// Appends to `out` the shortest text that writes `n` in the given radix.
pub fn push_number(out: &mut String, n: u64, radix: u64)
    requires
        radix == 10 || radix == 16,
    ensures
        final(out)@ == old(out)@ + number_text(n as nat, radix as int),
    decreases n,
{
    if n >= radix {
        push_number(out, n / radix, radix);
    }
    out.push(char_of_digit(n % radix));
}

} // verus!
