//! Pro-rata settlement: how the funds of a settled loan are split among the
//! contributions, and the rounding bounds of that split.
//!
//! Each contribution gets a share of `SCALE` in proportion to its amount, and
//! each pool (principal and yield) is paid out by share, rounding down twice.
use vstd::prelude::*;
use crate::loan::{Instruction, LenderContribution};

verus! {

/// The fixed-point scale of a contribution's share.
pub const SCALE: u128 = 1_000_000_000;

/// The largest total funding a loan accepts: shares are computed as
/// `amount * SCALE`, which must fit in a `u128`.
pub const MAX_FUNDING: u128 = u128::MAX / SCALE;

/// A contribution's share of `SCALE`, rounded down.
pub open spec fn share_of(amount: int, total: int) -> int {
    amount * (SCALE as int) / total
}

/// What a share receives out of a pool, rounded down.
pub open spec fn part_of(pool: int, share: int) -> int {
    pool * share / (SCALE as int)
}

/// What a contribution of `amount` out of `total` receives out of `pool`.
pub open spec fn payout_of(pool: int, amount: int, total: int) -> int {
    part_of(pool, share_of(amount, total))
}

pub open spec fn sum_amounts(cs: Seq<LenderContribution>) -> int
    decreases cs.len(),
{
    if cs.len() == 0 {
        0
    } else {
        sum_amounts(cs.drop_last()) + cs.last().amount
    }
}

pub open spec fn sum_shares(cs: Seq<LenderContribution>, total: int) -> int
    decreases cs.len(),
{
    if cs.len() == 0 {
        0
    } else {
        sum_shares(cs.drop_last(), total) + share_of(cs.last().amount as int, total)
    }
}

/// The sum over all contributions of what each receives out of `pool`.
pub open spec fn sum_payouts(cs: Seq<LenderContribution>, pool: int, total: int) -> int
    decreases cs.len(),
{
    if cs.len() == 0 {
        0
    } else {
        sum_payouts(cs.drop_last(), pool, total) + payout_of(pool, cs.last().amount as int, total)
    }
}

/// A transfer of `amount` to `to`, or nothing when the amount is zero.
pub open spec fn transfer_if_positive(to: crate::ids::Address, amount: int) -> Seq<Instruction> {
    if amount > 0 {
        seq![Instruction::Transfer { to, amount: amount as u128 }]
    } else {
        Seq::empty()
    }
}

/// The transfers of a pro-rata distribution of the principal pool `p` and the
/// yield pool `y`: for each contribution in order, its principal part, then
/// its yield part, each skipped when zero.
pub open spec fn payout_transfers(cs: Seq<LenderContribution>, total: int, p: int, y: int) -> Seq<
    Instruction,
>
    decreases cs.len(),
{
    if cs.len() == 0 {
        Seq::empty()
    } else {
        let c = cs.last();
        payout_transfers(cs.drop_last(), total, p, y) + transfer_if_positive(
            c.lender,
            payout_of(p, c.amount as int, total),
        ) + transfer_if_positive(c.lender, payout_of(y, c.amount as int, total))
    }
}

/// The sum of the amounts that a list of instructions transfers.
pub open spec fn transfer_total(is: Seq<Instruction>) -> int
    decreases is.len(),
{
    if is.len() == 0 {
        0
    } else {
        transfer_total(is.drop_last()) + match is.last() {
            Instruction::Transfer { amount, .. } => amount as int,
            _ => 0,
        }
    }
}

pub proof fn lemma_transfer_total_concat(a: Seq<Instruction>, b: Seq<Instruction>)
    ensures
        transfer_total(a + b) == transfer_total(a) + transfer_total(b),
    decreases b.len(),
{
    if b.len() > 0 {
        lemma_transfer_total_concat(a, b.drop_last());
        assert((a + b).drop_last() =~= a + b.drop_last());
    } else {
        assert(a + b =~= a);
    }
}

/// Bounds of a share: it never exceeds `SCALE`, and it is the exact
/// proportion rounded down.
pub proof fn lemma_share_bounds(amount: int, total: int)
    requires
        0 <= amount <= total,
        0 < total,
    ensures
        0 <= share_of(amount, total) <= SCALE,
        share_of(amount, total) * total <= amount * SCALE,
        share_of(amount, total) * total + total > amount * SCALE,
{
    let s = share_of(amount, total);
    let x = amount * (SCALE as int);
    vstd::arithmetic::div_mod::lemma_fundamental_div_mod(x, total);
    vstd::arithmetic::div_mod::lemma_mod_bound(x, total);
    assert(x >= 0) by (nonlinear_arith)
        requires
            amount >= 0,
            x == amount * (SCALE as int),
    ;
    assert(s >= 0) by (nonlinear_arith)
        requires
            s == x / total,
            x >= 0,
            total > 0,
    ;
    assert(x <= total * (SCALE as int)) by (nonlinear_arith)
        requires
            amount <= total,
            x == amount * (SCALE as int),
    ;
    assert(s <= SCALE) by (nonlinear_arith)
        requires
            x == total * s + x % total,
            x % total >= 0,
            x <= total * (SCALE as int),
            total > 0,
    ;
}

/// Bounds of a part: it never exceeds the pool, and it is the exact
/// proportion rounded down.
pub proof fn lemma_part_bounds(pool: int, share: int)
    requires
        0 <= pool,
        0 <= share <= SCALE,
    ensures
        0 <= part_of(pool, share) <= pool,
        part_of(pool, share) * SCALE <= pool * share,
        part_of(pool, share) * SCALE + SCALE > pool * share,
{
    let q = part_of(pool, share);
    let x = pool * share;
    let d = SCALE as int;
    vstd::arithmetic::div_mod::lemma_fundamental_div_mod(x, d);
    vstd::arithmetic::div_mod::lemma_mod_bound(x, d);
    assert(0 <= x <= pool * d) by (nonlinear_arith)
        requires
            0 <= pool,
            0 <= share <= d,
            x == pool * share,
    ;
    assert(0 <= q <= pool) by (nonlinear_arith)
        requires
            x == d * q + x % d,
            0 <= x % d < d,
            0 <= x <= pool * d,
            d > 0,
    ;
}

/// A contribution never exceeds the sum of the contributions.
pub proof fn lemma_amount_le_sum(cs: Seq<LenderContribution>, i: int)
    requires
        0 <= i < cs.len(),
    ensures
        cs[i].amount <= sum_amounts(cs),
        sum_amounts(cs) >= 0,
    decreases cs.len(),
{
    lemma_sum_nonneg(cs);
    if i < cs.len() - 1 {
        lemma_amount_le_sum(cs.drop_last(), i);
    } else {
        lemma_sum_nonneg(cs.drop_last());
    }
}

pub proof fn lemma_sum_nonneg(cs: Seq<LenderContribution>)
    ensures
        sum_amounts(cs) >= 0,
    decreases cs.len(),
{
    if cs.len() > 0 {
        lemma_sum_nonneg(cs.drop_last());
    }
}

proof fn lemma_sum_shares(cs: Seq<LenderContribution>, total: int)
    requires
        0 < total,
        forall|i: int| 0 <= i < cs.len() ==> #[trigger] cs[i].amount <= total,
    ensures
        0 <= sum_shares(cs, total),
        sum_shares(cs, total) * total <= sum_amounts(cs) * SCALE,
        cs.len() > 0 ==> sum_shares(cs, total) * total + cs.len() * total > sum_amounts(cs)
            * SCALE,
    decreases cs.len(),
{
    if cs.len() > 0 {
        let t = cs.drop_last();
        assert forall|i: int| 0 <= i < t.len() implies #[trigger] t[i].amount <= total by {
            assert(t[i] == cs[i]);
        }
        lemma_sum_shares(t, total);
        let a = cs.last().amount as int;
        assert(cs.last() == cs[cs.len() - 1]);
        lemma_share_bounds(a, total);
        let s0 = sum_shares(t, total);
        let s = share_of(a, total);
        let a0 = sum_amounts(t);
        let n = t.len() as int;
        assert((s0 + s) * total <= (a0 + a) * SCALE) by (nonlinear_arith)
            requires
                s0 * total <= a0 * SCALE,
                s * total <= a * SCALE,
        ;
        if n > 0 {
            assert((s0 + s) * total + (n + 1) * total > (a0 + a) * SCALE) by (nonlinear_arith)
                requires
                    s0 * total + n * total > a0 * SCALE,
                    s * total + total > a * SCALE,
            ;
        } else {
            assert(t.len() == 0);
            assert((s0 + s) * total + (n + 1) * total > (a0 + a) * SCALE) by (nonlinear_arith)
                requires
                    s0 == 0,
                    a0 == 0,
                    n == 0,
                    s * total + total > a * SCALE,
            ;
        }
    }
}

proof fn lemma_sum_payouts(cs: Seq<LenderContribution>, pool: int, total: int)
    requires
        0 < total,
        0 <= pool,
        forall|i: int| 0 <= i < cs.len() ==> #[trigger] cs[i].amount <= total,
    ensures
        0 <= sum_payouts(cs, pool, total),
        sum_payouts(cs, pool, total) * SCALE <= pool * sum_shares(cs, total),
        cs.len() > 0 ==> sum_payouts(cs, pool, total) * SCALE + cs.len() * SCALE > pool
            * sum_shares(cs, total),
    decreases cs.len(),
{
    if cs.len() > 0 {
        let t = cs.drop_last();
        assert forall|i: int| 0 <= i < t.len() implies #[trigger] t[i].amount <= total by {
            assert(t[i] == cs[i]);
        }
        lemma_sum_payouts(t, pool, total);
        let a = cs.last().amount as int;
        assert(cs.last() == cs[cs.len() - 1]);
        lemma_share_bounds(a, total);
        let s = share_of(a, total);
        lemma_part_bounds(pool, s);
        let q = part_of(pool, s);
        let q0 = sum_payouts(t, pool, total);
        let s0 = sum_shares(t, total);
        let n = t.len() as int;
        assert((q0 + q) * SCALE <= pool * (s0 + s)) by (nonlinear_arith)
            requires
                q0 * SCALE <= pool * s0,
                q * SCALE <= pool * s,
        ;
        if n > 0 {
            assert((q0 + q) * SCALE + (n + 1) * SCALE > pool * (s0 + s)) by (nonlinear_arith)
                requires
                    q0 * SCALE + n * SCALE > pool * s0,
                    q * SCALE + SCALE > pool * s,
            ;
        } else {
            assert((q0 + q) * SCALE + (n + 1) * SCALE > pool * (s0 + s)) by (nonlinear_arith)
                requires
                    q0 == 0,
                    s0 == 0,
                    n == 0,
                    q * SCALE + SCALE > pool * s,
            ;
        }
    }
}

/// Conservation of a pro-rata distribution over contributions that sum to
/// `total`: what is paid out of a pool never exceeds the pool, and when
/// `pool * (n - 1) <= SCALE` for `n` contributions, rounding keeps back at
/// most `n` units of it.
pub proof fn lemma_pool_conservation(cs: Seq<LenderContribution>, pool: int)
    requires
        sum_amounts(cs) > 0,
        0 <= pool,
    ensures
        0 <= sum_payouts(cs, pool, sum_amounts(cs)) <= pool,
        pool * (cs.len() - 1) <= SCALE ==> pool - sum_payouts(cs, pool, sum_amounts(cs))
            <= cs.len(),
{
    let total = sum_amounts(cs);
    assert forall|i: int| 0 <= i < cs.len() implies #[trigger] cs[i].amount <= total by {
        lemma_amount_le_sum(cs, i);
    }
    lemma_sum_shares(cs, total);
    lemma_sum_payouts(cs, pool, total);
    let ss = sum_shares(cs, total);
    let sq = sum_payouts(cs, pool, total);
    let n = cs.len() as int;
    assert(n > 0);
    assert(ss <= SCALE) by (nonlinear_arith)
        requires
            ss * total <= total * SCALE,
            total > 0,
    ;
    assert(sq <= pool) by (nonlinear_arith)
        requires
            sq * SCALE <= pool * ss,
            ss <= SCALE,
            pool >= 0,
    ;
    assert(ss + n > SCALE) by (nonlinear_arith)
        requires
            ss * total + n * total > total * SCALE,
            total > 0,
    ;
    if pool * (n - 1) <= SCALE {
        assert(sq + n >= pool) by (nonlinear_arith)
            requires
                sq * SCALE + n * SCALE > pool * ss,
                ss >= SCALE - n + 1,
                pool >= 0,
                pool * (n - 1) <= SCALE,
        ;
    }
}

/// What the transfers of a distribution move in all is what the two pools
/// pay out.
pub proof fn lemma_payout_transfers_total(cs: Seq<LenderContribution>, total: int, p: int, y: int)
    requires
        0 < total,
        0 <= p <= u128::MAX,
        0 <= y <= u128::MAX,
        forall|i: int| 0 <= i < cs.len() ==> #[trigger] cs[i].amount <= total,
    ensures
        transfer_total(payout_transfers(cs, total, p, y)) == sum_payouts(cs, p, total)
            + sum_payouts(cs, y, total),
    decreases cs.len(),
{
    if cs.len() > 0 {
        let t = cs.drop_last();
        assert forall|i: int| 0 <= i < t.len() implies #[trigger] t[i].amount <= total by {
            assert(t[i] == cs[i]);
        }
        lemma_payout_transfers_total(t, total, p, y);
        let c = cs.last();
        assert(c == cs[cs.len() - 1]);
        lemma_share_bounds(c.amount as int, total);
        lemma_part_bounds(p, share_of(c.amount as int, total));
        lemma_part_bounds(y, share_of(c.amount as int, total));
        let pp = transfer_if_positive(c.lender, payout_of(p, c.amount as int, total));
        let yp = transfer_if_positive(c.lender, payout_of(y, c.amount as int, total));
        let head = payout_transfers(t, total, p, y);
        lemma_transfer_total_concat(head + pp, yp);
        lemma_transfer_total_concat(head, pp);
        assert(transfer_total(pp) == payout_of(p, c.amount as int, total)) by {
            let x = payout_of(p, c.amount as int, total);
            if x > 0 {
                assert(pp.drop_last() =~= Seq::<Instruction>::empty());
                assert(pp.last() == Instruction::Transfer { to: c.lender, amount: x as u128 });
                assert(transfer_total(Seq::<Instruction>::empty()) == 0);
            } else {
                assert(transfer_total(Seq::<Instruction>::empty()) == 0);
            }
        }
        assert(transfer_total(yp) == payout_of(y, c.amount as int, total)) by {
            let x = payout_of(y, c.amount as int, total);
            if x > 0 {
                assert(yp.drop_last() =~= Seq::<Instruction>::empty());
                assert(yp.last() == Instruction::Transfer { to: c.lender, amount: x as u128 });
                assert(transfer_total(Seq::<Instruction>::empty()) == 0);
            } else {
                assert(transfer_total(Seq::<Instruction>::empty()) == 0);
            }
        }
    }
}

/// What the contributions of `lender` receive out of `pool`, in all.
pub open spec fn paid_to(cs: Seq<LenderContribution>, lender: crate::ids::Address, pool: int, total: int) -> int
    decreases cs.len(),
{
    if cs.len() == 0 {
        0
    } else {
        paid_to(cs.drop_last(), lender, pool, total) + if cs.last().lender == lender {
            payout_of(pool, cs.last().amount as int, total)
        } else {
            0
        }
    }
}

proof fn lemma_paid_to_concat(
    u: Seq<LenderContribution>,
    v: Seq<LenderContribution>,
    lender: crate::ids::Address,
    pool: int,
    total: int,
)
    ensures
        paid_to(u + v, lender, pool, total) == paid_to(u, lender, pool, total) + paid_to(
            v,
            lender,
            pool,
            total,
        ),
    decreases v.len(),
{
    if v.len() > 0 {
        lemma_paid_to_concat(u, v.drop_last(), lender, pool, total);
        assert((u + v).drop_last() =~= u + v.drop_last());
    } else {
        assert(u + v =~= u);
    }
}

/// Splitting one amount in two never yields more out of a pool; out of a
/// pool of at most `SCALE` it yields at most two units less.
pub proof fn lemma_split_amount(pool: int, x1: int, x2: int, total: int)
    requires
        0 <= x1,
        0 <= x2,
        x1 + x2 <= total,
        0 < total,
        0 <= pool,
    ensures
        payout_of(pool, x1, total) + payout_of(pool, x2, total) <= payout_of(pool, x1 + x2, total),
        pool <= SCALE ==> payout_of(pool, x1 + x2, total) <= payout_of(pool, x1, total)
            + payout_of(pool, x2, total) + 2,
{
    let x = x1 + x2;
    lemma_share_bounds(x1, total);
    lemma_share_bounds(x2, total);
    lemma_share_bounds(x, total);
    let s1 = share_of(x1, total);
    let s2 = share_of(x2, total);
    let s = share_of(x, total);
    assert(s1 + s2 <= s) by (nonlinear_arith)
        requires
            s1 * total <= x1 * SCALE,
            s2 * total <= x2 * SCALE,
            s * total + total > x * SCALE,
            x == x1 + x2,
            total > 0,
    ;
    assert(s <= s1 + s2 + 1) by (nonlinear_arith)
        requires
            s1 * total + total > x1 * SCALE,
            s2 * total + total > x2 * SCALE,
            s * total <= x * SCALE,
            x == x1 + x2,
            total > 0,
    ;
    lemma_part_bounds(pool, s1);
    lemma_part_bounds(pool, s2);
    lemma_part_bounds(pool, s);
    let q1 = part_of(pool, s1);
    let q2 = part_of(pool, s2);
    let q = part_of(pool, s);
    assert(q1 + q2 <= q) by (nonlinear_arith)
        requires
            q1 * SCALE <= pool * s1,
            q2 * SCALE <= pool * s2,
            q * SCALE + SCALE > pool * s,
            s1 + s2 <= s,
            pool >= 0,
    ;
    if pool <= SCALE {
        assert(q <= q1 + q2 + 2) by (nonlinear_arith)
            requires
                q1 * SCALE + SCALE > pool * s1,
                q2 * SCALE + SCALE > pool * s2,
                q * SCALE <= pool * s,
                s <= s1 + s2 + 1,
                0 <= pool <= SCALE,
        ;
    }
}

/// Split-contribution equivalence: a lender whose contribution is made in two
/// calls instead of one, with the same total funding, receives out of a pool
/// no more than before, and, out of a pool of at most `SCALE`, at most two
/// units less; every other lender receives exactly what it did.
pub proof fn lemma_split_contribution(
    pre: Seq<LenderContribution>,
    post: Seq<LenderContribution>,
    whole: LenderContribution,
    first: LenderContribution,
    second: LenderContribution,
    pool: int,
    other: crate::ids::Address,
)
    requires
        first.lender == whole.lender,
        second.lender == whole.lender,
        first.amount + second.amount == whole.amount,
        sum_amounts(pre + seq![whole] + post) > 0,
        0 <= pool,
        other != whole.lender,
    ensures
        sum_amounts(pre + seq![first, second] + post) == sum_amounts(pre + seq![whole] + post),
        ({
            let total = sum_amounts(pre + seq![whole] + post);
            let one = paid_to(pre + seq![whole] + post, whole.lender, pool, total);
            let two = paid_to(pre + seq![first, second] + post, whole.lender, pool, total);
            &&& two <= one
            &&& pool <= SCALE ==> one <= two + 2
            &&& paid_to(pre + seq![first, second] + post, other, pool, total) == paid_to(
                pre + seq![whole] + post,
                other,
                pool,
                total,
            )
        }),
{
    let cs1 = pre + seq![whole] + post;
    let cs2 = pre + seq![first, second] + post;
    let total = sum_amounts(cs1);
    lemma_sum_amounts_concat(pre + seq![whole], post);
    lemma_sum_amounts_concat(pre + seq![first, second], post);
    lemma_sum_amounts_concat(pre, seq![whole]);
    lemma_sum_amounts_concat(pre, seq![first, second]);
    let empty = Seq::<LenderContribution>::empty();
    assert(seq![whole].drop_last() =~= empty);
    assert(seq![first, second].drop_last() =~= seq![first]);
    assert(seq![first].drop_last() =~= empty);
    assert(seq![whole].last() == whole);
    assert(seq![first].last() == first);
    assert(seq![first, second].last() == second);
    assert(sum_amounts(empty) == 0);
    assert(sum_amounts(seq![whole]) == whole.amount);
    assert(sum_amounts(seq![first]) == first.amount);
    assert(sum_amounts(seq![first, second]) == first.amount + second.amount);
    lemma_sum_nonneg(pre);
    lemma_sum_nonneg(post);
    assert forall|l: crate::ids::Address| #![trigger paid_to(cs1, l, pool, total)]
        paid_to(cs1, l, pool, total) == paid_to(pre, l, pool, total) + paid_to(seq![whole], l, pool, total) + paid_to(post, l, pool, total)
        && paid_to(cs2, l, pool, total) == paid_to(pre, l, pool, total) + paid_to(seq![first, second], l, pool, total) + paid_to(post, l, pool, total) by {
        lemma_paid_to_concat(pre + seq![whole], post, l, pool, total);
        lemma_paid_to_concat(pre + seq![first, second], post, l, pool, total);
        lemma_paid_to_concat(pre, seq![whole], l, pool, total);
        lemma_paid_to_concat(pre, seq![first, second], l, pool, total);
    }
    assert(paid_to(empty, whole.lender, pool, total) == 0);
    assert(paid_to(empty, other, pool, total) == 0);
    assert(paid_to(seq![first], whole.lender, pool, total) == payout_of(pool, first.amount as int, total));
    assert(paid_to(seq![first], other, pool, total) == 0);
    assert(paid_to(seq![whole], whole.lender, pool, total) == payout_of(pool, whole.amount as int, total));
    assert(paid_to(seq![first, second], whole.lender, pool, total) == payout_of(pool, first.amount as int, total) + payout_of(pool, second.amount as int, total));
    assert(paid_to(seq![whole], other, pool, total) == 0);
    assert(paid_to(seq![first, second], other, pool, total) == 0);
    lemma_split_amount(pool, first.amount as int, second.amount as int, total);
    assert(paid_to(cs1, whole.lender, pool, total) == paid_to(cs1, whole.lender, pool, total));
    assert(paid_to(cs1, other, pool, total) == paid_to(cs1, other, pool, total));
}

proof fn lemma_sum_amounts_concat(u: Seq<LenderContribution>, v: Seq<LenderContribution>)
    ensures
        sum_amounts(u + v) == sum_amounts(u) + sum_amounts(v),
    decreases v.len(),
{
    if v.len() > 0 {
        lemma_sum_amounts_concat(u, v.drop_last());
        assert((u + v).drop_last() =~= u + v.drop_last());
    } else {
        assert(u + v =~= u);
    }
}

} // verus!
