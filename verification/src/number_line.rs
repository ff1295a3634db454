//! A log line that ends in a number, built without allocating.

use vstd::arithmetic::div_mod::lemma_div_denominator;
use vstd::arithmetic::power::{lemma_pow0, lemma_pow_positive, pow};
use vstd::prelude::*;

verus! {

/// The most bytes that a [`NumberLine`] holds.
pub const LINE_CAPACITY: usize = 64;

/// The ASCII character `-`.
pub const MINUS: u8 = 45;

/// The ASCII character `0`, which the other digits follow.
pub const ZERO: u8 = 48;

/// The ASCII line feed.
pub const LINE_FEED: u8 = 10;

/// The decimal digits of a number, without leading zeros.
pub open spec fn digits(n: nat) -> Seq<u8>
    decreases n,
{
    if n < 10 {
        seq![(ZERO + n) as u8]
    } else {
        digits(n / 10).push((ZERO + n % 10) as u8)
    }
}

/// A number in decimal, with a minus sign where it is negative.
pub open spec fn decimal(num: int) -> Seq<u8> {
    if num < 0 {
        seq![MINUS] + digits((-num) as nat)
    } else {
        digits(num as nat)
    }
}

/// The number that a sequence of decimal digits stands for.
pub open spec fn digits_value(s: Seq<u8>) -> int
    decreases s.len(),
{
    if s.len() == 0 {
        0
    } else {
        10 * digits_value(s.drop_last()) + (s.last() - ZERO)
    }
}

/// The number that a decimal text stands for.
pub open spec fn decimal_value(s: Seq<u8>) -> int {
    if s.len() > 0 && s[0] == MINUS {
        -digits_value(s.skip(1))
    } else {
        digits_value(s)
    }
}

/// The first bytes of `s`, as many as a line holds.
pub open spec fn clip(s: Seq<u8>) -> Seq<u8> {
    if s.len() <= LINE_CAPACITY {
        s
    } else {
        s.take(LINE_CAPACITY as int)
    }
}

/// `<prefix><num>` and a line feed, however long.
pub open spec fn full_line(prefix: Seq<u8>, num: int) -> Seq<u8> {
    (prefix + decimal(num)).push(LINE_FEED)
}

/// Up to [`LINE_CAPACITY`] bytes.
pub struct NumberLine {
    buf: [u8; 64],
    len: usize,
}

impl View for NumberLine {
    type V = Seq<u8>;

    closed spec fn view(&self) -> Seq<u8> {
        self.buf@.take(self.len as int)
    }
}

impl NumberLine {
    #[verifier::type_invariant]
    spec fn within_capacity(self) -> bool {
        self.len <= LINE_CAPACITY
    }

    /// The line without any bytes.
    pub fn new() -> (line: NumberLine)
        ensures
            line@ == Seq::<u8>::empty(),
    {
        NumberLine { buf: [0u8; 64], len: 0 }
    }

    /// Appends one byte, or drops it where the line is full.
    fn push(&mut self, byte: u8, Ghost(all): Ghost<Seq<u8>>)
        requires
            old(self)@ == clip(all),
        ensures
            final(self)@ == clip(all.push(byte)),
    {
        proof {
            use_type_invariant(&*self);
        }
        if self.len < LINE_CAPACITY {
            let mut buf = self.buf;
            buf[self.len] = byte;
            *self = NumberLine { buf, len: self.len + 1 };
            assert(self@ =~= old(self)@.push(byte));
        }
        assert(self@ =~= clip(all.push(byte)));
    }

    /// The bytes of the line.
    pub fn bytes(&self) -> (bytes: &[u8])
        ensures
            bytes@ == self@,
    {
        proof {
            use_type_invariant(self);
        }
        vstd::slice::slice_subrange(self.buf.as_slice(), 0, self.len)
    }
}

/// 10 to the power `k`.
spec fn pow10(k: nat) -> nat
    decreases k,
{
    if k == 0 {
        1
    } else {
        10 * pow10((k - 1) as nat)
    }
}

/// Taking the lowest digit off a number, with the digits below it in `low`,
/// lowest first.
proof fn lemma_lowest_digit(n: nat, low: Seq<u8>)
    ensures
        ({
            let more = low.push((ZERO + n % 10) as u8);
            &&& n < 10 ==> digits(n) + low.reverse() == more.reverse()
            &&& n >= 10 ==> digits(n) + low.reverse() == digits(n / 10) + more.reverse()
        }),
{
    let digit = (ZERO + n % 10) as u8;
    let more = low.push(digit);
    assert(more.reverse() =~= seq![digit] + low.reverse());
    if n < 10 {
        assert(digits(n) + low.reverse() =~= more.reverse());
    } else {
        assert(digits(n) + low.reverse() =~= digits(n / 10) + more.reverse());
    }
}

/// Builds the line `<prefix><num>\n`. What does not fit in
/// [`LINE_CAPACITY`] bytes is cut off.
pub fn number_line(prefix: &[u8], num: i64) -> (line: NumberLine)
    ensures
        line@ == clip(full_line(prefix@, num as int)),
        line@.len() <= 64,
        prefix@.len() <= 43 ==> spells(line@, prefix@, num as int),
{
    let mut line = NumberLine::new();
    let ghost mut all: Seq<u8> = Seq::empty();
    let mut i: usize = 0;
    while i < prefix.len()
        invariant
            i <= prefix.len(),
            all == prefix@.take(i as int),
            line@ == clip(all),
        decreases prefix.len() - i,
    {
        line.push(prefix[i], Ghost(all));
        proof {
            all = all.push(prefix[i as int]);
        }
        i += 1;
    }
    assert(all =~= prefix@);

    let negative: bool = num < 0;
    let magnitude: u64 = if negative {
        (-(num + 1)) as u64 + 1
    } else {
        num as u64
    };
    if negative {
        line.push(MINUS, Ghost(all));
        proof {
            all = all.push(MINUS);
        }
    }
    let ghost before = all;

    // The digits come out lowest first.
    let mut reversed: [u8; 20] = [0u8; 20];
    let mut count: usize = 0;
    let mut n: u64 = magnitude;
    assert(n < pow10(20)) by {
        reveal_with_fuel(pow10, 21);
    }
    assert(reversed@.take(0).reverse() =~= Seq::empty());
    loop
        invariant_except_break
            count < 20,
            n < pow10((20 - count) as nat),
            digits(magnitude as nat) == digits(n as nat) + reversed@.take(count as int).reverse(),
        ensures
            count <= 20,
            digits(magnitude as nat) == reversed@.take(count as int).reverse(),
        decreases n,
    {
        let ghost low = reversed@.take(count as int);
        let digit: u8 = ZERO + (n % 10) as u8;
        reversed[count] = digit;
        count += 1;
        proof {
            assert(reversed@.take(count as int) =~= low.push(digit));
            lemma_lowest_digit(n as nat, low);
            assert(pow10((20 - count + 1) as nat) == 10 * pow10((20 - count) as nat));
            assert(pow10(0) == 1);
        }
        if n < 10 {
            break;
        }
        n /= 10;
    }

    let ghost text = digits(magnitude as nat);
    while count > 0
        invariant
            count <= 20,
            text.len() <= 20,
            count <= text.len(),
            forall|k: int| 0 <= k < text.len() ==> text[k] == reversed@[text.len() - 1 - k],
            all == before + text.take(text.len() - count),
            line@ == clip(all),
        decreases count,
    {
        count -= 1;
        line.push(reversed[count], Ghost(all));
        proof {
            all = all.push(reversed@[count as int]);
            assert(all =~= before + text.take(text.len() - count));
        }
    }
    line.push(LINE_FEED, Ghost(all));
    assert(all =~= prefix@ + decimal(num as int));
    proof {
        if prefix@.len() <= 43 {
            law_line_spells_its_number(prefix@, num);
        }
    }
    line
}

proof fn lemma_digits_read_back(n: nat)
    ensures
        digits_value(digits(n)) == n,
        digits(n).len() > 0,
        forall|k: int| 0 <= k < digits(n).len() ==> ZERO <= #[trigger] digits(n)[k] <= ZERO + 9,
    decreases n,
{
    if n < 10 {
        assert(digits(n).drop_last() =~= Seq::<u8>::empty());
        assert(digits_value(Seq::<u8>::empty()) == 0);
    } else {
        lemma_digits_read_back(n / 10);
        assert(digits(n).drop_last() =~= digits(n / 10));
    }
}

/// The text of a number stands for that number.
pub proof fn law_decimal_reads_back(num: int)
    ensures
        decimal_value(decimal(num)) == num,
{
    if num < 0 {
        lemma_digits_read_back((-num) as nat);
        assert(decimal(num).skip(1) =~= digits((-num) as nat));
    } else {
        lemma_digits_read_back(num as nat);
    }
}

proof fn lemma_digits_len(n: nat, k: nat)
    requires
        k > 0,
        n < pow10(k),
    ensures
        digits(n).len() <= k,
    decreases n,
{
    if n >= 10 {
        assert(k > 1) by {
            assert(pow10(1) == 10) by {
                reveal_with_fuel(pow10, 2);
            }
        }
        lemma_digits_len(n / 10, (k - 1) as nat);
    }
}

/// After a prefix of at most 43 bytes nothing of the line is cut off,
/// whatever the number.
pub proof fn law_short_prefix_leaves_the_line_whole(prefix: Seq<u8>, num: i64)
    requires
        prefix.len() <= 43,
    ensures
        clip(full_line(prefix, num as int)) == full_line(prefix, num as int),
{
    reveal_with_fuel(pow10, 20);
    let magnitude: nat = if num < 0 {
        (-num) as nat
    } else {
        num as nat
    };
    lemma_digits_len(magnitude, 19);
}

/// Whether `line` is `prefix`, then `num` in decimal, then a line feed: a minus
/// sign where `num` is negative, then each digit at its place, the digit `j`
/// from the right being that of `10` to the power `j`, and as many digits as it
/// takes and no more.
pub open spec fn spells(line: Seq<u8>, prefix: Seq<u8>, num: int) -> bool {
    let sign: int = if num < 0 {
        1
    } else {
        0
    };
    let magnitude = if num < 0 {
        -num
    } else {
        num
    };
    let count = line.len() - prefix.len() - sign - 1;
    &&& count >= 1
    &&& line.subrange(0, prefix.len() as int) == prefix
    &&& num < 0 ==> line[prefix.len() as int] == 45
    &&& line[line.len() - 1] == 10
    &&& magnitude < pow(10, count as nat)
    &&& count > 1 ==> magnitude >= pow(10, (count - 1) as nat)
    &&& forall|j: int|
        0 <= j < count ==> line[line.len() - 2 - j] == 48 + (magnitude / #[trigger] pow(
            10,
            j as nat,
        )) % 10
}

proof fn lemma_digits_spell(n: nat)
    ensures
        digits(n).len() >= 1,
        n < pow(10, digits(n).len()),
        digits(n).len() > 1 ==> n >= pow(10, (digits(n).len() - 1) as nat),
        forall|j: int|
            0 <= j < digits(n).len() ==> digits(n)[digits(n).len() - 1 - j] == 48 + (n as int
                / #[trigger] pow(10, j as nat)) % 10,
    decreases n,
{
    lemma_pow0(10);
    let len = digits(n).len();
    if n < 10 {
        assert(pow(10, 1) == 10) by {
            vstd::arithmetic::power::lemma_pow1(10);
        }
        assert forall|j: int| 0 <= j < len implies digits(n)[len - 1 - j] == 48 + (n as int
            / #[trigger] pow(10, j as nat)) % 10 by {
            assert(j == 0);
            assert(pow(10, j as nat) == 1);
        }
    } else {
        let q = n / 10;
        lemma_digits_spell(q);
        assert(pow(10, len) == 10 * pow(10, (len - 1) as nat)) by {
            reveal(pow);
        }
        if len > 2 {
            assert(pow(10, (len - 1) as nat) == 10 * pow(10, (len - 2) as nat)) by {
                reveal(pow);
            }
        } else {
            vstd::arithmetic::power::lemma_pow1(10);
        }
        assert forall|j: int| 0 <= j < len implies digits(n)[len - 1 - j] == 48 + (n as int
            / #[trigger] pow(10, j as nat)) % 10 by {
            if j > 0 {
                let low = pow(10, (j - 1) as nat);
                assert(pow(10, j as nat) == 10 * low) by {
                    reveal(pow);
                }
                lemma_pow_positive(10, (j - 1) as nat);
                lemma_div_denominator(n as int, 10, low);
                assert(digits(n)[len - 1 - j] == digits(q)[digits(q).len() - 1 - (j - 1)]);
            } else {
                assert(pow(10, j as nat) == 1);
                assert(digits(n)[len - 1] == 48 + n % 10);
            }
        }
    }
}

/// The line for a prefix of at most 43 bytes spells its number, whatever the
/// number.
pub proof fn law_line_spells_its_number(prefix: Seq<u8>, num: i64)
    requires
        prefix.len() <= 43,
    ensures
        spells(clip(full_line(prefix, num as int)), prefix, num as int),
{
    law_short_prefix_leaves_the_line_whole(prefix, num);
    let line = full_line(prefix, num as int);
    let magnitude: nat = if num < 0 {
        (-num) as nat
    } else {
        num as nat
    };
    lemma_digits_spell(magnitude);
    let text = digits(magnitude);
    assert(line.subrange(0, prefix.len() as int) =~= prefix);
    assert forall|j: int| 0 <= j < text.len() implies line[line.len() - 2 - j] == 48 + (
    magnitude as int / #[trigger] pow(10, j as nat)) % 10 by {
        assert(line[line.len() - 2 - j] == text[text.len() - 1 - j]);
    }
}

/// The line for any prefix is the prefix and then the line without a prefix,
/// cut off after 64 bytes.
pub proof fn law_prefix_goes_before_the_number(prefix: Seq<u8>, num: i64)
    ensures
        ({
            let bare = clip(full_line(Seq::empty(), num as int));
            let line = clip(full_line(prefix, num as int));
            let whole = prefix + bare;
            &&& whole.len() <= 64 ==> line == whole
            &&& whole.len() > 64 ==> line == whole.subrange(0, 64)
        }),
{
    let bare = full_line(Seq::empty(), num as int);
    law_short_prefix_leaves_the_line_whole(Seq::empty(), num);
    assert(full_line(prefix, num as int) =~= prefix + bare);
    assert(full_line(prefix, num as int).take(64) =~= (prefix + bare).take(64));
}

/// Two numbers never give the same line.
pub proof fn law_lines_tell_numbers_apart(prefix: Seq<u8>, a: i64, b: i64)
    requires
        prefix.len() <= 43,
        clip(full_line(prefix, a as int)) == clip(full_line(prefix, b as int)),
    ensures
        a == b,
{
    law_short_prefix_leaves_the_line_whole(prefix, a);
    law_short_prefix_leaves_the_line_whole(prefix, b);
    let line = full_line(prefix, a as int);
    let text = line.subrange(prefix.len() as int, line.len() - 1);
    assert(text =~= decimal(a as int));
    assert(text =~= decimal(b as int));
    law_decimal_reads_back(a as int);
    law_decimal_reads_back(b as int);
}

} // verus!
