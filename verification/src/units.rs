//! Unit conversion from wei, the smallest native unit, to ether, the
//! decimal display unit. One ether is 10^18 wei; the conversion here is
//! exact, splitting a wei amount into whole ether and a fractional
//! remainder, and rendering both as decimal text.

use vstd::prelude::*;
use vstd::arithmetic::div_mod::lemma_div_denominator;
use vstd::arithmetic::div_mod::lemma_div_is_ordered;
use vstd::arithmetic::div_mod::lemma_fundamental_div_mod;

verus! {

/// How many wei make one ether.
pub const WEI_PER_ETH: u128 = 1_000_000_000_000_000_000;

/// An exact ether amount: `whole` ether plus `frac` wei, `frac` below
/// one ether.
pub struct EthAmount {
    pub whole: u128,
    pub frac: u64,
}

impl EthAmount {
    /// The fractional part is a remainder modulo one ether.
    pub open spec fn wf(&self) -> bool {
        self.frac < WEI_PER_ETH
    }

    /// The amount in wei that this value stands for.
    pub open spec fn as_wei(&self) -> int {
        self.whole * WEI_PER_ETH + self.frac
    }
}

/// The ether amount that a wei amount converts to.
pub open spec fn converted(wei: u128) -> EthAmount {
    EthAmount {
        whole: (wei as int / WEI_PER_ETH as int) as u128,
        frac: (wei as int % WEI_PER_ETH as int) as u64,
    }
}

/// Splits a wei amount into whole ether and the wei remainder: the exact
/// value that the integer denotes in the display unit.
pub fn convert_wei_to_eth(wei: u128) -> (r: EthAmount)
    ensures
        r == converted(wei),
        r.wf(),
        r.as_wei() == wei,
{
    let whole = wei / WEI_PER_ETH;
    let frac = (wei % WEI_PER_ETH) as u64;
    proof {
        lemma_fundamental_div_mod(wei as int, WEI_PER_ETH as int);
    }
    EthAmount { whole, frac }
}

/// One amount is at most another: whole parts first, then remainders.
pub open spec fn amount_le(a: EthAmount, b: EthAmount) -> bool {
    a.whole < b.whole || (a.whole == b.whole && a.frac <= b.frac)
}

/// Conversion is monotonic: of two wei amounts, the smaller never
/// converts to the larger ether amount.
pub proof fn lemma_conversion_monotonic(a: u128, b: u128)
    requires
        a <= b,
    ensures
        amount_le(converted(a), converted(b)),
{
    let d = WEI_PER_ETH as int;
    lemma_div_is_ordered(a as int, b as int, d);
    lemma_fundamental_div_mod(a as int, d);
    lemma_fundamental_div_mod(b as int, d);
    if a as int / d == b as int / d {
        assert(b as int % d - a as int % d == b - a);
    }
}

/// The ASCII decimal digits of `n`, most significant first, no leading
/// zeros (a lone `0` for zero).
pub open spec fn dec_digits(n: nat) -> Seq<u8>
    decreases n,
{
    if n < 10 {
        seq![(48 + n) as u8]
    } else {
        dec_digits(n / 10).push((48 + n % 10) as u8)
    }
}

/// Ten to the power `k`.
pub open spec fn pow10(k: nat) -> nat
    decreases k,
{
    if k == 0 {
        1
    } else {
        10 * pow10((k - 1) as nat)
    }
}

pub proof fn lemma_pow10_pos(k: nat)
    ensures
        pow10(k) >= 1,
    decreases k,
{
    if k > 0 {
        lemma_pow10_pos((k - 1) as nat);
    }
}

/// The 18 ASCII digits of a wei remainder, zero-padded on the left:
/// position `i` holds the digit weighted 10^(17-i).
pub open spec fn frac_digits(frac: nat) -> Seq<u8> {
    Seq::new(18, |i: int| (48 + (frac / pow10((17 - i) as nat)) % 10) as u8)
}

/// Digits with trailing zeros removed, always keeping at least one.
pub open spec fn trim_frac(s: Seq<u8>) -> Seq<u8>
    decreases s.len(),
{
    if s.len() <= 1 || s.last() != 48 {
        s
    } else {
        trim_frac(s.drop_last())
    }
}

/// The decimal text of an amount: the whole part, a dot, then the
/// fraction with trailing zeros trimmed (one ether in wei gives `1.0`).
pub open spec fn eth_decimal(a: EthAmount) -> Seq<u8> {
    dec_digits(a.whole as nat) + seq![46u8] + trim_frac(frac_digits(a.frac as nat))
}

/// Appends the decimal digits of `n` to `out`.
fn push_dec_digits(n: u128, out: &mut Vec<u8>)
    ensures
        final(out)@ == old(out)@ + dec_digits(n as nat),
    decreases n,
{
    if n < 10 {
        out.push(48 + n as u8);
        proof {
            assert(out@ =~= old(out)@ + dec_digits(n as nat));
        }
    } else {
        push_dec_digits(n / 10, out);
        out.push(48 + (n % 10) as u8);
        proof {
            assert(out@ =~= old(out)@ + dec_digits(n as nat));
        }
    }
}

/// Appends the trimmed 18-digit fraction of a wei remainder to `out`.
fn push_frac_digits(frac: u64, out: &mut Vec<u8>)
    ensures
        final(out)@ == old(out)@ + trim_frac(frac_digits(frac as nat)),
{
    let ghost s = frac_digits(frac as nat);
    let mut rev: Vec<u8> = Vec::new();
    let mut m: u64 = frac;
    let mut j: usize = 0;
    proof {
        assert(pow10(0) == 1);
        assert(frac as nat / 1 == frac as nat) by (nonlinear_arith);
    }
    while j < 18
        invariant
            0 <= j <= 18,
            rev@.len() == j,
            m as nat == frac as nat / pow10(j as nat),
            forall|k: int| 0 <= k < j ==> rev@[k] == s[17 - k],
            s == frac_digits(frac as nat),
        decreases 18 - j,
    {
        rev.push(48 + (m % 10) as u8);
        proof {
            lemma_pow10_pos(j as nat);
            lemma_div_denominator(frac as int, pow10(j as nat) as int, 10);
            assert(pow10((j + 1) as nat) == 10 * pow10(j as nat));
            assert(s[17 - j] == (48 + (frac as nat / pow10(j as nat)) % 10) as u8);
        }
        m = m / 10;
        j += 1;
    }
    let mut d: Vec<u8> = Vec::new();
    let mut i: usize = 18;
    while i > 0
        invariant
            0 <= i <= 18,
            rev@.len() == 18,
            d@.len() == 18 - i,
            forall|k: int| 0 <= k < 18 - i ==> d@[k] == s[k],
            forall|k: int| 0 <= k < 18 ==> rev@[k] == s[17 - k],
            s == frac_digits(frac as nat),
        decreases i,
    {
        i -= 1;
        d.push(rev[i]);
    }
    proof {
        assert(d@ =~= s);
    }
    while d.len() > 1 && d[d.len() - 1] == 48
        invariant
            d@.len() >= 1,
            trim_frac(d@) == trim_frac(s),
        decreases d@.len(),
    {
        let ghost before = d@;
        d.pop();
        proof {
            assert(d@ =~= before.drop_last());
        }
    }
    let ghost base = out@;
    let n = d.len();
    let mut k: usize = 0;
    while k < n
        invariant
            0 <= k <= n,
            n == d@.len(),
            out@ == base + d@.take(k as int),
            trim_frac(d@) == d@,
            d@ == trim_frac(s),
        decreases n - k,
    {
        let ghost prev = out@;
        out.push(d[k]);
        k += 1;
        proof {
            assert(out@ =~= base + d@.take(k as int));
        }
    }
    proof {
        assert(d@.take(n as int) =~= d@);
    }
}

/// Renders an amount as decimal text, exactly as `eth_decimal` states:
/// whole ether, a dot, and the fraction with trailing zeros trimmed.
pub fn format_eth(a: &EthAmount) -> (r: Vec<u8>)
    requires
        a.wf(),
    ensures
        r@ == eth_decimal(*a),
{
    let mut out: Vec<u8> = Vec::new();
    push_dec_digits(a.whole, &mut out);
    out.push(46);
    push_frac_digits(a.frac, &mut out);
    proof {
        assert(out@ =~= eth_decimal(*a));
    }
    out
}

} // verus!
