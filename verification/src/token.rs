//! The RLY token: its configuration, unit conversions and amount formatting.
use vstd::prelude::*;
use crate::constants::{RLY_DECIMALS, RLY_UNIT, TOTAL_SUPPLY};

verus! {

/// The smallest fee a non-genesis transaction may pay: 0.01 RLY.
pub const BASE_FEE: u64 = 1_000_000;

/// Token configuration of the RLY currency.
#[derive(Debug, Clone)]
pub struct TokenConfig {
    /// Human-readable currency name.
    pub name: &'static str,
    /// Ticker symbol.
    pub ticker: &'static str,
    /// Total supply in base units.
    pub total_supply: u64,
    /// Decimal places.
    pub decimals: u8,
    /// Base transaction fee in base units.
    pub base_fee: u64,
    /// Share of each fee paid to validators, in basis points.
    pub validator_fee_share_bps: u16,
    /// Daily reward emission in base units.
    pub daily_reward_emission: u64,
    /// Length of the reward timeline in years.
    pub reward_timeline_years: u32,
}

/// The canonical RLY configuration.
pub fn relyo_config() -> (c: TokenConfig)
    ensures
        c.name@ == "Relyo"@,
        c.ticker@ == "RLY"@,
        c.total_supply == TOTAL_SUPPLY,
        c.decimals == RLY_DECIMALS,
        c.base_fee == BASE_FEE,
        c.base_fee == RLY_UNIT / 100,
        c.validator_fee_share_bps == 10_000,
        c.daily_reward_emission == 187_500 * RLY_UNIT,
        c.reward_timeline_years == 256,
{
    TokenConfig {
        name: "Relyo",
        ticker: "RLY",
        total_supply: TOTAL_SUPPLY,
        decimals: RLY_DECIMALS,
        base_fee: BASE_FEE,
        validator_fee_share_bps: 10_000,
        daily_reward_emission: 187_500 * RLY_UNIT,
        reward_timeline_years: 256,
    }
}

/// How newly minted RLY is distributed, in parts per thousand.
#[derive(Debug, Clone)]
pub struct Distribution {
    /// Share of the emission that goes to node runners.
    pub node_rewards_permille: u16,
}

/// The canonical distribution: everything goes to node runners.
pub fn relyo_distribution() -> (d: Distribution)
    ensures
        d.node_rewards_permille == 1000,
{
    Distribution { node_rewards_permille: 1000 }
}

/// Whole RLY to base units, saturating at `u64::MAX`.
pub fn rly_whole_to_base(rly: u64) -> (base: u64)
    ensures
        base == (if rly * RLY_UNIT > u64::MAX { u64::MAX as int } else { rly * RLY_UNIT }),
{
    match rly.checked_mul(RLY_UNIT) {
        Some(v) => v,
        None => u64::MAX,
    }
}

// ─── Decimal rendering ──────────────────────────────────────────────────────

/// The ASCII digit of `d < 10`.
pub open spec fn digit_char(d: int) -> char {
    if d == 0 {
        '0'
    } else if d == 1 {
        '1'
    } else if d == 2 {
        '2'
    } else if d == 3 {
        '3'
    } else if d == 4 {
        '4'
    } else if d == 5 {
        '5'
    } else if d == 6 {
        '6'
    } else if d == 7 {
        '7'
    } else if d == 8 {
        '8'
    } else {
        '9'
    }
}

/// The decimal text of `n`, without leading zeros (`"0"` for zero).
pub open spec fn decimal(n: nat) -> Seq<char>
    decreases n,
{
    if n < 10 {
        seq![digit_char(n as int)]
    } else {
        decimal(n / 10).push(digit_char((n % 10) as int))
    }
}

/// The last `w` decimal digits of `n`, zero-padded to width `w`.
pub open spec fn padded(n: nat, w: nat) -> Seq<char>
    decreases w,
{
    if w == 0 {
        Seq::empty()
    } else {
        padded(n / 10, (w - 1) as nat).push(digit_char((n % 10) as int))
    }
}

/// `padded(n, w)` with its trailing zeros removed.
pub open spec fn padded_trimmed(n: nat, w: nat) -> Seq<char>
    decreases w,
{
    if w > 0 && n % 10 == 0 {
        padded_trimmed(n / 10, (w - 1) as nat)
    } else {
        padded(n, w)
    }
}

/// The text of an amount in base units: whole RLY, then the fraction without
/// trailing zeros when there is one, then the ticker.
pub open spec fn rly_text(base: u64) -> Seq<char> {
    let whole = (base / RLY_UNIT) as nat;
    let frac = (base % RLY_UNIT) as nat;
    if frac == 0 {
        decimal(whole) + " RLY"@
    } else {
        decimal(whole) + seq!['.'] + padded_trimmed(frac, 8) + " RLY"@
    }
}

/// The one-character text of a digit.
fn digit_str(d: u64) -> (s: &'static str)
    requires
        d < 10,
    ensures
        s@ == seq![digit_char(d as int)],
{
    proof {
        reveal_strlit("0");
        reveal_strlit("1");
        reveal_strlit("2");
        reveal_strlit("3");
        reveal_strlit("4");
        reveal_strlit("5");
        reveal_strlit("6");
        reveal_strlit("7");
        reveal_strlit("8");
        reveal_strlit("9");
    }
    if d == 0 {
        "0"
    } else if d == 1 {
        "1"
    } else if d == 2 {
        "2"
    } else if d == 3 {
        "3"
    } else if d == 4 {
        "4"
    } else if d == 5 {
        "5"
    } else if d == 6 {
        "6"
    } else if d == 7 {
        "7"
    } else if d == 8 {
        "8"
    } else {
        "9"
    }
}

/// Append the decimal text of `n`.
fn push_decimal(out: &mut String, n: u64)
    ensures
        final(out)@ == old(out)@ + decimal(n as nat),
    decreases n,
{
    if n >= 10 {
        push_decimal(out, n / 10);
    }
    out.append(digit_str(n % 10));
    proof {
        assert(final(out)@ =~= old(out)@ + decimal(n as nat));
    }
}

/// The decimal text of `n`.
pub(crate) fn decimal_string(n: u64) -> (s: String)
    ensures
        s@ == decimal(n as nat),
{
    let mut out = String::new();
    push_decimal(&mut out, n);
    proof {
        assert(out@ =~= decimal(n as nat));
    }
    out
}

/// Append the last `w` digits of `n`, zero-padded.
fn push_padded(out: &mut String, n: u64, w: u64)
    ensures
        final(out)@ == old(out)@ + padded(n as nat, w as nat),
    decreases w,
{
    if w > 0 {
        push_padded(out, n / 10, w - 1);
        out.append(digit_str(n % 10));
        proof {
            assert(final(out)@ =~= old(out)@ + padded(n as nat, w as nat));
        }
    } else {
        proof {
            assert(final(out)@ =~= old(out)@ + padded(n as nat, w as nat));
        }
    }
}

/// Format a base-unit amount as a human-readable string with ticker.
pub fn format_rly(base: u64) -> (s: String)
    ensures
        s@ == rly_text(base),
{
    let whole = base / RLY_UNIT;
    let frac = base % RLY_UNIT;
    let mut out = String::new();
    push_decimal(&mut out, whole);
    if frac != 0 {
        out.append(".");
        let mut f = frac;
        let mut w: u64 = 8;
        proof {
            reveal_strlit(".");
        }
        while f % 10 == 0
            invariant
                0 < f,
                w <= 8,
                padded_trimmed(frac as nat, 8) == padded_trimmed(f as nat, w as nat),
            decreases f,
        {
            proof {
                if w == 0 {
                    assert(padded_trimmed(f as nat, w as nat) == padded(f as nat, 0));
                }
            }
            f = f / 10;
            w = if w > 0 { w - 1 } else { 0 };
        }
        push_padded(&mut out, f, w);
        proof {
            assert(padded_trimmed(f as nat, w as nat) == padded(f as nat, w as nat));
        }
    }
    out.append(" RLY");
    proof {
        assert(out@ =~= rly_text(base));
    }
    out
}

} // verus!
