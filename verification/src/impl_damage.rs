//! Damage calculations on the player: direct hurt, weakness multipliers
//! and fall damage, all in milli-units.

use vstd::prelude::*;
use crate::block::HEALTH_LIMIT;
use crate::player::Player;

verus! {

/// A category of incoming damage.
#[derive(Clone, Copy, Debug, PartialEq, Eq, Structural)]
pub enum DamageType {
    Physical,
}

/// Fall damage applies only at or above this downward speed.
pub const FALL_HURT_SPEED: i64 = 3_000;

/// How many entries of `types` equal `d`.
pub open spec fn spec_count_eq(types: Seq<DamageType>, d: DamageType) -> int
    decreases types.len(),
{
    if types.len() == 0 {
        0
    } else {
        (if types[0] == d {
            1int
        } else {
            0int
        }) + spec_count_eq(types.drop_first(), d)
    }
}

/// How many pairs of one weakness and one incoming type agree.
pub open spec fn spec_match_count(weak: Seq<DamageType>, types: Seq<DamageType>) -> int
    decreases weak.len(),
{
    if weak.len() == 0 {
        0
    } else {
        spec_count_eq(types, weak[0]) + spec_match_count(weak.drop_first(), types)
    }
}

/// The damage actually suffered: non-positive amounts are ignored, and
/// each weakness matching an incoming type adds half the base amount.
pub open spec fn spec_calculate_damage(
    amount: int,
    weak: Seq<DamageType>,
    types: Seq<DamageType>,
) -> int {
    if amount <= 0 {
        0
    } else {
        amount * (1000 + 500 * spec_match_count(weak, types)) / 1000
    }
}

/// Counting matches of `d` in a sequence grows by one exactly when the
/// appended entry is `d`.
proof fn lemma_count_eq_push(types: Seq<DamageType>, t: DamageType, d: DamageType)
    ensures
        spec_count_eq(types.push(t), d) == spec_count_eq(types, d) + (if t == d {
            1int
        } else {
            0int
        }),
    decreases types.len(),
{
    if types.len() == 0 {
        assert(types.push(t).drop_first() =~= Seq::<DamageType>::empty());
        assert(spec_count_eq(Seq::<DamageType>::empty(), d) == 0);
    } else {
        assert(types.push(t).drop_first() =~= types.drop_first().push(t));
        lemma_count_eq_push(types.drop_first(), t, d);
    }
}

/// Extending the weakness list by one adds that weakness's matches.
proof fn lemma_match_count_push(weak: Seq<DamageType>, w: DamageType, types: Seq<DamageType>)
    ensures
        spec_match_count(weak.push(w), types) == spec_match_count(weak, types) + spec_count_eq(
            types,
            w,
        ),
    decreases weak.len(),
{
    if weak.len() == 0 {
        assert(weak.push(w).drop_first() =~= Seq::<DamageType>::empty());
        assert(spec_match_count(Seq::<DamageType>::empty(), types) == 0);
    } else {
        assert(weak.push(w).drop_first() =~= weak.drop_first().push(w));
        lemma_match_count_push(weak.drop_first(), w, types);
    }
}

/// A match count never goes negative and never exceeds the product of the
/// two list lengths.
proof fn lemma_match_count_bounds(weak: Seq<DamageType>, types: Seq<DamageType>)
    ensures
        0 <= spec_match_count(weak, types) <= weak.len() * types.len(),
    decreases weak.len(),
{
    if weak.len() == 0 {
    } else {
        lemma_count_eq_bounds(types, weak[0]);
        lemma_match_count_bounds(weak.drop_first(), types);
        assert((weak.len() - 1) * types.len() == weak.len() * types.len() - types.len())
            by (nonlinear_arith);
    }
}

/// With both lists of at most 64 entries, the match count is at most the
/// product of the two bounds.
proof fn lemma_match_count_small(weak: Seq<DamageType>, types: Seq<DamageType>)
    requires
        weak.len() <= 64,
        types.len() <= 64,
    ensures
        0 <= spec_match_count(weak, types) <= 64 * 64,
{
    lemma_match_count_bounds(weak, types);
    assert(weak.len() * types.len() <= 64 * 64) by (nonlinear_arith)
        requires
            0 <= weak.len() <= 64,
            0 <= types.len() <= 64,
    ;
}

proof fn lemma_count_eq_bounds(types: Seq<DamageType>, d: DamageType)
    ensures
        0 <= spec_count_eq(types, d) <= types.len(),
    decreases types.len(),
{
    if types.len() == 0 {
    } else {
        lemma_count_eq_bounds(types.drop_first(), d);
    }
}

impl Player {
    /// Lose `amount` health, clamped at zero.
    pub fn hurt(&mut self, amount: i64)
        requires
            old(self).wf(),
            0 <= amount,
        ensures
            final(self).wf(),
            final(self).health == if old(self).health - amount >= 0 {
                old(self).health - amount
            } else {
                0int
            },
            *final(self) == (Player { health: final(self).health, ..*old(self) }),
    {
        let h = if amount <= self.health {
            self.health - amount
        } else {
            0
        };
        self.health = h;
    }

    /// The player's damage weaknesses.
    pub fn get_weaknesses(&self) -> (r: &Vec<DamageType>)
        ensures
            r@ == self.weaknesses@,
    {
        &self.weaknesses
    }

    /// The damage suffered from a raw `amount` of the given types: each
    /// weakness matching an incoming type raises the multiplier by half.
    pub fn calculate_damage(&self, amount: i64, damage_types: &Vec<DamageType>) -> (r: i64)
        requires
            amount <= HEALTH_LIMIT,
            self.weaknesses@.len() <= 64,
            damage_types@.len() <= 64,
        ensures
            r == spec_calculate_damage(amount as int, self.weaknesses@, damage_types@),
            0 <= r,
    {
        if amount <= 0 {
            return 0;
        }
        let mut mul: i64 = 1000;
        let nw = self.weaknesses.len();
        let nt = damage_types.len();
        let mut i: usize = 0;
        proof {
            assert(self.weaknesses@.take(0) =~= Seq::<DamageType>::empty());
        }
        while i < nw
            invariant
                i <= nw,
                nw == self.weaknesses@.len() <= 64,
                nt == damage_types@.len() <= 64,
                mul == 1000 + 500 * spec_match_count(
                    self.weaknesses@.take(i as int),
                    damage_types@,
                ),
                1000 <= mul <= 1000 + 500 * 64 * 64,
            decreases nw - i,
        {
            let w = self.weaknesses[i];
            let mut j: usize = 0;
            proof {
                assert(damage_types@.take(0) =~= Seq::<DamageType>::empty());
            }
            while j < nt
                invariant
                    j <= nt,
                    i < nw,
                    nw == self.weaknesses@.len() <= 64,
                    nt == damage_types@.len() <= 64,
                    w == self.weaknesses@[i as int],
                    mul == 1000 + 500 * (spec_match_count(
                        self.weaknesses@.take(i as int),
                        damage_types@,
                    ) + spec_count_eq(damage_types@.take(j as int), w)),
                    1000 <= mul <= 1000 + 500 * (64 * 64 + 64),
                decreases nt - j,
            {
                proof {
                    lemma_match_count_small(self.weaknesses@.take(i as int), damage_types@);
                    lemma_count_eq_bounds(damage_types@.take(j as int), w);
                    lemma_count_eq_push(
                        damage_types@.take(j as int),
                        damage_types@[j as int],
                        w,
                    );
                    assert(damage_types@.take(j + 1) =~= damage_types@.take(j as int).push(
                        damage_types@[j as int],
                    ));
                }
                if damage_types[j] == w {
                    mul = mul + 500;
                }
                j += 1;
            }
            proof {
                lemma_match_count_push(
                    self.weaknesses@.take(i as int),
                    w,
                    damage_types@,
                );
                assert(self.weaknesses@.take(i + 1) =~= self.weaknesses@.take(i as int).push(
                    w,
                ));
                assert(damage_types@.take(nt as int) =~= damage_types@);
                lemma_match_count_small(self.weaknesses@.take(i + 1), damage_types@);
            }
            i += 1;
        }
        proof {
            assert(self.weaknesses@.take(nw as int) =~= self.weaknesses@);
            lemma_match_count_small(self.weaknesses@, damage_types@);
            vstd::arithmetic::div_mod::lemma_div_pos_is_pos(amount * mul, 1000);
            assert(amount * mul <= HEALTH_LIMIT * (1000 + 500 * 64 * 64)) by (nonlinear_arith)
                requires
                    0 < amount <= HEALTH_LIMIT,
                    1000 <= mul <= 1000 + 500 * 64 * 64,
            ;
        }
        ((amount as u64 * mul as u64) / 1000) as i64
    }

    /// Fall damage: nothing below the hurt threshold, otherwise one and a
    /// half times the downward speed, as physical damage.
    pub fn calculate_fall_damage(&self) -> (r: i64)
        requires
            self.wf(),
            self.weaknesses@.len() <= 64,
        ensures
            r == ({
                if self.velocity.y < FALL_HURT_SPEED {
                    0int
                } else {
                    spec_calculate_damage(
                        self.velocity.y * 3 / 2,
                        self.weaknesses@,
                        seq![DamageType::Physical],
                    )
                }
            }),
            0 <= r,
    {
        if self.velocity.y < FALL_HURT_SPEED {
            return 0;
        }
        let amount = ((self.velocity.y as u64) * 3 / 2) as i64;
        let types = vec![DamageType::Physical];
        proof {
            assert(types@ =~= seq![DamageType::Physical]);
            vstd::arithmetic::div_mod::lemma_div_pos_is_pos(self.velocity.y * 3, 2);
            vstd::arithmetic::div_mod::lemma_div_is_ordered(
                self.velocity.y * 3,
                3 * crate::player::VEL_LIMIT,
                2,
            );
        }
        self.calculate_damage(amount, &types)
    }

    /// Suffer this tick's fall damage.
    pub fn take_fall_damage(&mut self)
        requires
            old(self).wf(),
            old(self).weaknesses@.len() <= 64,
        ensures
            final(self).wf(),
            final(self).health == ({
                let d = if old(self).velocity.y < FALL_HURT_SPEED {
                    0int
                } else {
                    spec_calculate_damage(
                        old(self).velocity.y * 3 / 2,
                        old(self).weaknesses@,
                        seq![DamageType::Physical],
                    )
                };
                if old(self).health - d >= 0 {
                    old(self).health - d
                } else {
                    0int
                }
            }),
            *final(self) == (Player { health: final(self).health, ..*old(self) }),
    {
        let d = self.calculate_fall_damage();
        self.hurt(d);
    }
}

} // verus!
