//! What user programs share: printing a number without a heap.

use vstd::prelude::*;

verus! {

/// The ASCII digit for a number below ten.
pub open spec fn digit(d: nat) -> u8 {
    (0x30 + d) as u8
}

/// The decimal digits of `n` in ASCII, without leading zeros; `0` for 0.
pub open spec fn decimal(n: nat) -> Seq<u8>
    decreases n,
{
    if n < 10 {
        seq![digit(n)]
    } else {
        decimal(n / 10).push(digit(n % 10))
    }
}

/// The digits of `n` from the lowest up; none for 0.
pub open spec fn digits_reversed(n: nat) -> Seq<u8>
    decreases n,
{
    if n == 0 {
        Seq::empty()
    } else {
        seq![digit(n % 10)] + digits_reversed(n / 10)
    }
}

proof fn lemma_digits_reversed(n: nat)
    requires
        n > 0,
    ensures
        digits_reversed(n).reverse() == decimal(n),
        0 < digits_reversed(n).len() <= 20 || n > u64::MAX,
    decreases n,
{
    if n < 10 {
        assert(digits_reversed(n / 10) =~= Seq::<u8>::empty());
        assert(digits_reversed(n) =~= seq![digit(n)]);
        assert(digits_reversed(n).reverse() =~= decimal(n));
    } else {
        lemma_digits_reversed(n / 10);
        let rest = digits_reversed(n / 10);
        assert(digits_reversed(n).reverse() =~= rest.reverse().push(digit(n % 10)));
        lemma_digit_count(n);
    }
}

proof fn lemma_digit_count(n: nat)
    ensures
        n < 10 ==> digits_reversed(n).len() <= 1,
        n <= u64::MAX ==> digits_reversed(n).len() <= 20,
{
    reveal_with_fuel(digits_reversed, 22);
}

/// The text that prints `n` in decimal.
pub fn print_num(n: u64) -> (text: Vec<u8>)
    ensures
        text@ == decimal(n as nat),
{
    let mut text: Vec<u8> = Vec::new();
    if n == 0 {
        text.push(0x30);
        assert(text@ =~= decimal(0));
        return text;
    }
    let mut buf: [u8; 20] = [0; 20];
    let mut i: usize = 0;
    let mut num = n;
    proof {
        lemma_digit_count(n as nat);
    }
    while num > 0
        invariant
            i <= 20,
            i + digits_reversed(num as nat).len() <= 20,
            buf@.take(i as int) + digits_reversed(num as nat) == digits_reversed(n as nat),
        decreases num,
    {
        let d = (num % 10) as u8;
        proof {
            assert(digits_reversed(num as nat) =~= seq![digit((num % 10) as nat)]
                + digits_reversed((num / 10) as nat));
        }
        let ghost before = buf@.take(i as int);
        buf[i] = 0x30 + d;
        num = num / 10;
        i += 1;
        assert(buf@.take(i as int) =~= before.push(digit((d as nat))));
        assert(buf@.take(i as int) + digits_reversed(num as nat) =~= before + (seq![
            digit(d as nat),
        ] + digits_reversed(num as nat)));
    }
    let ghost low_first = buf@.take(i as int);
    proof {
        assert(low_first + Seq::<u8>::empty() =~= low_first);
        lemma_digits_reversed(n as nat);
    }
    let count = i;
    while i > 0
        invariant
            i <= count <= 20,
            low_first == buf@.take(count as int),
            text@ == low_first.reverse().take(count - i),
        decreases i,
    {
        i -= 1;
        text.push(buf[i]);
        assert(text@ =~= low_first.reverse().take(count - i));
    }
    assert(low_first.reverse().take(count as int) =~= low_first.reverse());
    text
}

} // verus!
