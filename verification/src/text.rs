//! Numbers as text.
use vstd::prelude::*;
use vstd::string::*;

verus! {

/// The digit for `d`, up to fifteen.
pub open spec fn digit(d: nat) -> char {
    if d < 10 {
        ('0' as u32 + d) as char
    } else {
        ('a' as u32 + d - 10) as char
    }
}

/// `n` in decimal, without leading zeros.
pub open spec fn decimal(n: nat) -> Seq<char>
    decreases n,
{
    if n < 10 {
        seq![digit(n)]
    } else {
        decimal(n / 10).push(digit(n % 10))
    }
}

/// `b` as two lower-case hexadecimal digits.
pub open spec fn hex_byte(b: u8) -> Seq<char> {
    seq![digit((b / 16) as nat), digit((b % 16) as nat)]
}

/// `n` spaces.
pub open spec fn spaces(n: nat) -> Seq<char> {
    Seq::new(n, |i: int| ' ')
}

/// `n` in decimal, with spaces before it up to `width` characters.
pub open spec fn right_aligned(n: nat, width: nat) -> Seq<char> {
    if decimal(n).len() < width {
        spaces((width - decimal(n).len()) as nat) + decimal(n)
    } else {
        decimal(n)
    }
}

/// The number that decimal digits stand for.
pub open spec fn decimal_value(s: Seq<char>) -> int
    decreases s.len(),
{
    if s.len() == 0 {
        0
    } else {
        10 * decimal_value(s.drop_last()) + (s.last() as u32 - '0' as u32)
    }
}

/// The text of one digit.
fn digit_text(d: usize) -> (s: &'static str)
    requires
        d < 16,
    ensures
        s@ == seq![digit(d as nat)],
{
    let all: &'static str = "0123456789abcdef";
    proof {
        reveal_strlit("0123456789abcdef");
    }
    let s = all.substring_char(d, d + 1);
    proof {
        assert(s@.len() == 1);
        assert(all@[d as int] == digit(d as nat));
    }
    s
}

/// `n` in decimal.
pub fn decimal_text(n: u64) -> (s: String)
    ensures
        s@ == decimal(n as nat),
    decreases n,
{
    if n < 10 {
        digit_text(n as usize).to_owned()
    } else {
        let mut s = decimal_text(n / 10);
        s.append(digit_text((n % 10) as usize));
        s
    }
}

/// `b` as two hexadecimal digits.
pub fn hex_text(b: u8) -> (s: String)
    ensures
        s@ == hex_byte(b),
{
    let mut s = digit_text((b / 16) as usize).to_owned();
    s.append(digit_text((b % 16) as usize));
    s
}

/// `n` in decimal, right-aligned in `width` characters.
pub fn aligned_text(n: u64, width: usize) -> (s: String)
    ensures
        s@ == right_aligned(n as nat, width as nat),
{
    let d = decimal_text(n);
    let len: usize = d.as_str().unicode_len();
    let mut s = String::new();
    let mut i: usize = len;
    proof {
        reveal_strlit(" ");
        assert(s@ =~= spaces(0));
    }
    while i < width
        invariant
            len == d@.len(),
            len <= i,
            len <= width ==> i <= width,
            len > width ==> i == len,
            " "@ == seq![' '],
            s@ == spaces((i - len) as nat),
        decreases width - i,
    {
        s.append(" ");
        i += 1;
        proof {
            assert(s@ =~= spaces((i - len) as nat));
        }
    }
    s.append(d.as_str());
    proof {
        assert(s@ =~= right_aligned(n as nat, width as nat));
    }
    s
}

/// A number's decimal text stands for that number.
pub proof fn decimal_reads_back(n: nat)
    ensures
        decimal_value(decimal(n)) == n,
    decreases n,
{
    if n < 10 {
        assert(decimal(n).drop_last() =~= Seq::<char>::empty());
        assert(decimal_value(Seq::<char>::empty()) == 0);
    } else {
        decimal_reads_back(n / 10);
        assert(decimal(n).drop_last() =~= decimal(n / 10));
    }
}

/// Decimal text is ASCII.
pub proof fn decimal_is_ascii(n: nat)
    ensures
        vstd::utf8::is_ascii_chars(decimal(n)),
    decreases n,
{
    if n >= 10 {
        decimal_is_ascii(n / 10);
    }
}

/// The decimal text of a 32-bit number has ten digits at most.
pub proof fn decimal_of_u32_is_short(n: u32)
    ensures
        1 <= decimal(n as nat).len() <= 10,
{
    reveal_with_fuel(decimal, 11);
}

/// Right alignment fills up to the width and never cuts a number off.
pub proof fn right_aligned_fills_the_width(n: nat, width: nat)
    ensures
        right_aligned(n, width).len() == (if decimal(n).len() < width {
            width
        } else {
            decimal(n).len()
        }),
        decimal(n).is_suffix_of(right_aligned(n, width)),
{
    let r = right_aligned(n, width);
    let d = decimal(n);
    assert(r.subrange(r.len() - d.len(), r.len() as int) =~= d);
}

/// What each of several texts holds.
pub open spec fn texts(v: Seq<String>) -> Seq<Seq<char>> {
    Seq::new(v.len(), |i: int| v[i]@)
}

/// Decimal text grows a digit at a time: writing a further digit behind a number multiplies it by
/// ten and adds that digit, and a number below ten is its one digit.
pub proof fn a_digit_more(n: nat, d: nat)
    requires
        d < 10,
    ensures
        decimal(d).len() == 1,
        decimal(d)[0] as int == 48 + d,
        n > 0 ==> decimal(10 * n + d).len() == decimal(n).len() + 1,
        n > 0 ==> decimal(10 * n + d).drop_last() == decimal(n),
        n > 0 ==> decimal(10 * n + d).last() as int == 48 + d,
{
    if n > 0 {
        assert((10 * n + d) / 10 == n);
        assert((10 * n + d) % 10 == d);
        assert(decimal(10 * n + d).drop_last() =~= decimal(n));
    }
}

/// Decimal text is made of decimal digits, and begins with a zero only where the number is zero.
pub proof fn decimal_is_digits(n: nat)
    ensures
        decimal(n).len() >= 1,
        forall|i: int|
            0 <= i < decimal(n).len() ==> '0' <= #[trigger] decimal(n)[i] && decimal(n)[i] <= '9',
        decimal(n)[0] == '0' ==> n == 0,
    decreases n,
{
    if n >= 10 {
        decimal_is_digits(n / 10);
        assert(decimal(n)[0] == decimal(n / 10)[0]);
    }
}

/// Different numbers have different decimal texts.
pub proof fn decimal_tells_numbers_apart(m: nat, n: nat)
    ensures
        decimal(m) == decimal(n) ==> m == n,
{
    decimal_reads_back(m);
    decimal_reads_back(n);
}

/// A byte comes back from its two hexadecimal digits, which are lower case.
pub proof fn hex_reads_back(b: u8)
    ensures
        hex_byte(b).len() == 2,
        forall|i: int|
            0 <= i < 2 ==> ('0' <= #[trigger] hex_byte(b)[i] && hex_byte(b)[i] <= '9') || ('a'
                <= hex_byte(b)[i] && hex_byte(b)[i] <= 'f'),
        ({
            let high = hex_byte(b)[0];
            let low = hex_byte(b)[1];
            let h = if high <= '9' {
                high as int - 48
            } else {
                high as int - 87
            };
            let l = if low <= '9' {
                low as int - 48
            } else {
                low as int - 87
            };
            16 * h + l == b
        }),
{
}

/// What stands before an aligned number is spaces.
pub proof fn alignment_is_by_spaces(n: nat, width: nat)
    ensures
        forall|i: int|
            0 <= i < right_aligned(n, width).len() - decimal(n).len() ==> #[trigger] right_aligned(
                n,
                width,
            )[i] == ' ',
        right_aligned(n, width).skip(right_aligned(n, width).len() - decimal(n).len()) == decimal(
            n,
        ),
{
    let r = right_aligned(n, width);
    let d = decimal(n);
    assert(r.skip(r.len() - d.len()) =~= d);
}

/// Different numbers are aligned into different texts.
pub proof fn alignment_tells_numbers_apart(m: nat, n: nat, width: nat)
    ensures
        right_aligned(m, width) == right_aligned(n, width) ==> m == n,
{
    let r = right_aligned(m, width);
    if r == right_aligned(n, width) {
        let p = r.len() - decimal(m).len();
        let q = r.len() - decimal(n).len();
        right_aligned_fills_the_width(m, width);
        right_aligned_fills_the_width(n, width);
        alignment_is_by_spaces(m, width);
        alignment_is_by_spaces(n, width);
        decimal_is_digits(m);
        decimal_is_digits(n);
        assert(r[p] == decimal(m)[0]) by {
            assert(r.skip(p)[0] == r[p]);
        }
        assert(r[q] == decimal(n)[0]) by {
            assert(r.skip(q)[0] == r[q]);
        }
        assert(p == q);
        decimal_tells_numbers_apart(m, n);
    }
}

} // verus!
