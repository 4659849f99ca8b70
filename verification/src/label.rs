//! The score overlay text.

use vstd::prelude::*;

verus! {

/// The decimal digits of `n` in ASCII, most significant first.
pub open spec fn digits(n: nat) -> Seq<u8>
    decreases n,
{
    if n < 10 {
        seq![(48 + n) as u8]
    } else {
        digits(n / 10).push((48 + n % 10) as u8)
    }
}

/// The bytes of `SCORE:` followed by the decimal digits of `n`.
pub open spec fn label(n: nat) -> Seq<u8> {
    seq![83u8, 67u8, 79u8, 82u8, 69u8, 58u8] + digits(n)
}

/// The overlay text for a score: `SCORE:` and the score in decimal, as
/// Latin-1 bytes.
pub fn score_label(score: usize) -> (text: Vec<u8>)
    ensures
        text@ == label(score as nat),
{
    let mut rest: usize = score;
    let mut low_first: Vec<u8> = Vec::new();
    while rest >= 10
        invariant
            digits(score as nat) == digits(rest as nat) + low_first@.reverse(),
        decreases rest,
    {
        let d: u8 = (rest % 10) as u8;
        let ghost before = low_first@;
        low_first.push(48 + d);
        proof {
            assert(digits(rest as nat) == digits((rest / 10) as nat).push((48 + d) as u8));
            assert(low_first@.reverse() == seq![(48 + d) as u8] + before.reverse());
            assert(digits(rest as nat) + before.reverse() == digits((rest / 10) as nat)
                + low_first@.reverse());
        }
        rest = rest / 10;
    }
    let ghost before = low_first@;
    low_first.push(48 + rest as u8);
    proof {
        assert(low_first@.reverse() == seq![(48 + rest) as u8] + before.reverse());
        assert(digits(score as nat) == low_first@.reverse());
    }
    let mut text: Vec<u8> = Vec::new();
    text.push(83);
    text.push(67);
    text.push(79);
    text.push(82);
    text.push(69);
    text.push(58);
    let mut k: usize = low_first.len();
    while k > 0
        invariant
            k <= low_first@.len(),
            text@ == seq![83u8, 67u8, 79u8, 82u8, 69u8, 58u8] + low_first@.reverse().take(
                low_first@.len() - k,
            ),
        decreases k,
    {
        k -= 1;
        text.push(low_first[k]);
        proof {
            let r = low_first@.reverse();
            let m = low_first@.len() - k;
            assert(r.take(m) == r.take(m - 1).push(low_first@[k as int]));
        }
    }
    proof {
        assert(low_first@.reverse().take(low_first@.len() as int) == low_first@.reverse());
    }
    text
}

} // verus!
