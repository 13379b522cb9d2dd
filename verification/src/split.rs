//! Splitting the on-chain reserve into coins of random amounts.

use crate::ark_backend::ArkBackend;
use crate::text::{cat3, decimal, u64_text};
use vstd::prelude::*;

verus! {

/// What is left for the miner's fee.
pub const SPLIT_FEE_MARGIN_SAT: u64 = 3000;

/// How many coins one split makes at most.
pub const SPLIT_MAX_COINS: usize = 60;

/// A split, as far as it has come.
pub struct Split {
    pub spendable: u64,
    pub min_sat: u64,
    pub max_sat: u64,
    pub amounts: Seq<u64>,
}

/// The sum of amounts.
pub open spec fn total(amounts: Seq<u64>) -> nat
    decreases amounts.len(),
{
    if amounts.len() == 0 {
        0
    } else {
        total(amounts.drop_last()) + amounts.last() as nat
    }
}

impl Split {
    /// A split leaves the margin, makes no more coins than it may, and keeps each in its range.
    pub open spec fn is_sound(self) -> bool {
        &&& total(self.amounts) + SPLIT_FEE_MARGIN_SAT <= self.spendable
        &&& self.amounts.len() <= SPLIT_MAX_COINS
        &&& forall|i: int|
            0 <= i < self.amounts.len() ==> self.min_sat <= #[trigger] self.amounts[i]
                <= self.max_sat
    }

    /// The most that the next coin may be: what is left after the margin, and no more than the
    /// largest coin.
    pub open spec fn limit(self) -> int {
        let left = self.spendable - total(self.amounts) - SPLIT_FEE_MARGIN_SAT;
        if left < self.max_sat {
            left
        } else {
            self.max_sat as int
        }
    }

    /// Whether there is room for another coin.
    pub open spec fn has_room(self) -> bool {
        self.limit() >= self.min_sat && self.amounts.len() < SPLIT_MAX_COINS
    }

    /// The amount of the next coin, for a random number.
    pub open spec fn next(self, random: u64) -> int {
        self.min_sat + random as int % (self.limit() - self.min_sat + 1)
    }

    /// The split with coins added, one for each random number, for as long as there is room.
    pub open spec fn filled(self, draws: Seq<u64>) -> Split
        decreases draws.len(),
    {
        if draws.len() == 0 || !self.has_room() {
            self
        } else {
            Split { amounts: self.amounts.push(self.next(draws[0]) as u64), ..self }.filled(
                draws.drop_first(),
            )
        }
    }
}

/// A split without coins yet.
pub open spec fn split_of(spendable: u64, min_sat: u64, max_sat: u64) -> Split {
    Split { spendable, min_sat, max_sat, amounts: Seq::empty() }
}

/// The amounts of the coins that a reserve is split into, for random numbers: as many coins as may
/// be made, or as fit. A reserve that is too small for one coin is not split, and neither is one
/// for which no amount is in range.
pub fn split_amounts(spendable: u64, min_sat: u64, max_sat: u64, draws: &Vec<u64>) -> (r: Result<
    Vec<u64>,
    String,
>)
    requires
        min_sat + SPLIT_FEE_MARGIN_SAT <= u64::MAX,
        draws@.len() >= SPLIT_MAX_COINS,
    ensures
        ({
            let split = split_of(spendable, min_sat, max_sat).filled(draws@);
            if spendable <= min_sat + SPLIT_FEE_MARGIN_SAT {
                r matches Err(e) && e@ == "reserve too small to split ("@ + decimal(
                    spendable as nat,
                ) + " sat)"@
            } else if max_sat < min_sat {
                r matches Err(e) && e@ == "no split destinations generated"@
            } else {
                r matches Ok(amounts) && amounts@ == split.amounts && amounts@.len() > 0
            }
        }),
        r matches Ok(amounts) ==> (Split { spendable, min_sat, max_sat, amounts: amounts@ }).is_sound(),
        r matches Ok(amounts) ==> amounts@.len() == SPLIT_MAX_COINS || spendable - total(amounts@)
            - SPLIT_FEE_MARGIN_SAT < min_sat,
{
    if spendable <= min_sat + SPLIT_FEE_MARGIN_SAT {
        return Err(cat3("reserve too small to split (", u64_text(spendable).as_str(), " sat)"));
    }
    let ghost start = split_of(spendable, min_sat, max_sat);
    let ghost mut split = start;
    let mut amounts: Vec<u64> = Vec::new();
    let mut left: u64 = spendable - SPLIT_FEE_MARGIN_SAT;
    let mut room = max_sat >= min_sat;
    proof {
        assert(amounts@ =~= start.amounts);
        assert(draws@.skip(0) =~= draws@);
    }
    while room
        invariant
            split == (Split { spendable, min_sat, max_sat, amounts: amounts@ }),
            split.is_sound(),
            left == spendable - SPLIT_FEE_MARGIN_SAT - total(amounts@),
            room == split.has_room(),
            draws@.len() >= SPLIT_MAX_COINS,
            start.filled(draws@) == split.filled(draws@.skip(amounts@.len() as int)),
            max_sat >= min_sat && amounts@.len() == 0 ==> room,
        decreases SPLIT_MAX_COINS - amounts@.len(),
    {
        let hi: u64 = if left < max_sat {
            left
        } else {
            max_sat
        };
        let range: u64 = hi - min_sat + 1;
        let amount: u64 = min_sat + draws[amounts.len()] % range;
        let ghost before = split;
        let ghost rest = draws@.skip(amounts@.len() as int);
        amounts.push(amount);
        left = left - amount;
        proof {
            assert(rest[0] == draws@[before.amounts.len() as int]);
            assert(amount == before.next(rest[0]));
            assert(amounts@.drop_last() =~= before.amounts);
            assert(rest.drop_first() =~= draws@.skip(amounts@.len() as int));
            split = Split { spendable, min_sat, max_sat, amounts: amounts@ };
        }
        room = left >= min_sat && amounts.len() < SPLIT_MAX_COINS;
    }
    if amounts.len() > 0 {
        Ok(amounts)
    } else {
        Err("no split destinations generated".to_owned())
    }
}

impl ArkBackend {
    /// Splits the on-chain reserve into coins between two amounts.
    pub fn split_reserve(&self, spendable: u64, min_sat: u64, max_sat: u64, draws: &Vec<u64>) -> (r:
        Result<Vec<u64>, String>)
        requires
            min_sat + SPLIT_FEE_MARGIN_SAT <= u64::MAX,
            draws@.len() >= SPLIT_MAX_COINS,
        ensures
            ({
                let split = split_of(spendable, min_sat, max_sat).filled(draws@);
                if spendable <= min_sat + SPLIT_FEE_MARGIN_SAT {
                    r matches Err(e) && e@ == "reserve too small to split ("@ + decimal(
                        spendable as nat,
                    ) + " sat)"@
                } else if max_sat < min_sat {
                    r matches Err(e) && e@ == "no split destinations generated"@
                } else {
                    r matches Ok(amounts) && amounts@ == split.amounts && amounts@.len() > 0
                }
            }),
            r matches Ok(amounts) ==> (Split {
                spendable,
                min_sat,
                max_sat,
                amounts: amounts@,
            }).is_sound(),
            r matches Ok(amounts) ==> amounts@.len() == SPLIT_MAX_COINS || spendable - total(
                amounts@,
            ) - SPLIT_FEE_MARGIN_SAT < min_sat,
    {
        split_amounts(spendable, min_sat, max_sat, draws)
    }
}

/// The amounts add up: none make nothing, one makes itself, and two lists together make what each of
/// them makes.
pub proof fn law_amounts_add_up(one: Seq<u64>, two: Seq<u64>, amount: u64)
    ensures
        total(Seq::empty()) == 0,
        total(seq![amount]) == amount,
        total(one + two) == total(one) + total(two),
    decreases two.len(),
{
    assert(seq![amount].drop_last() =~= Seq::<u64>::empty());
    reveal_with_fuel(total, 2);
    if two.len() == 0 {
        assert(one + two =~= one);
    } else {
        law_amounts_add_up(one, two.drop_last(), amount);
        assert((one + two).drop_last() =~= one + two.drop_last());
        assert((one + two).last() == two.last());
    }
}

/// There is room for another coin exactly while fewer than sixty were made and the smallest coin
/// fits into what is left beside the margin of three thousand, and into the largest coin.
pub proof fn law_room_for_a_coin(split: Split)
    ensures
        split.has_room() <==> split.amounts.len() < 60 && split.min_sat <= split.max_sat && total(
            split.amounts,
        ) + split.min_sat + 3000 <= split.spendable,
{
}

/// Where there is room, the next coin is no smaller than the smallest, no greater than the greatest
/// and leaves the margin, for every random number; and every such amount comes of some random number.
pub proof fn law_next_coin_is_in_range(split: Split, random: u64, amount: u64)
    requires
        split.has_room(),
    ensures
        split.min_sat <= split.next(random) <= split.max_sat,
        total(split.amounts) + split.next(random) + 3000 <= split.spendable,
        split.min_sat <= amount <= split.max_sat && total(split.amounts) + amount + 3000
            <= split.spendable ==> split.next((amount - split.min_sat) as u64) == amount,
{
    let range = split.limit() - split.min_sat + 1;
    if split.min_sat <= amount <= split.max_sat && total(split.amounts) + amount + 3000
        <= split.spendable {
        let r = ((amount - split.min_sat) as u64) as int;
        assert(r % range == r) by (nonlinear_arith)
            requires
                0 <= r < range,
        ;
    }
}

/// A split is filled coin by coin: with no random numbers it stays, with one it gets the next coin if
/// there is room, and filling it from two lists in turn is filling it from both. Coins that were made
/// stay, and the bounds of the split too.
pub proof fn law_split_is_filled_in_turn(split: Split, one: Seq<u64>, two: Seq<u64>, random: u64)
    ensures
        split.filled(Seq::empty()) == split,
        split.has_room() ==> split.filled(seq![random]).amounts == split.amounts.push(
            split.next(random) as u64,
        ),
        !split.has_room() ==> split.filled(one) == split,
        split.filled(one + two) == split.filled(one).filled(two),
        split.amounts.is_prefix_of(split.filled(one).amounts),
        split.filled(one).spendable == split.spendable,
        split.filled(one).min_sat == split.min_sat,
        split.filled(one).max_sat == split.max_sat,
    decreases one.len(),
{
    let first = Split { amounts: split.amounts.push(split.next(random) as u64), ..split };
    assert(seq![random].drop_first() =~= Seq::<u64>::empty());
    assert(first.filled(Seq::empty()) == first);
    if one.len() == 0 {
        assert(one + two =~= two);
        assert(split.amounts =~= split.amounts.take(split.amounts.len() as int));
    } else if split.has_room() {
        let next = Split { amounts: split.amounts.push(split.next(one[0]) as u64), ..split };
        law_split_is_filled_in_turn(next, one.drop_first(), two, random);
        assert((one + two).drop_first() =~= one.drop_first() + two);
        assert((one + two)[0] == one[0]);
        let end = split.filled(one).amounts;
        assert(next.amounts == end.subrange(0, next.amounts.len() as int));
        assert(split.amounts =~= end.subrange(0, split.amounts.len() as int)) by {
            assert forall|i: int| 0 <= i < split.amounts.len() implies split.amounts[i]
                == end[i] by {
                assert(next.amounts[i] == split.amounts[i]);
            }
        }
    } else {
        assert(split.amounts =~= split.amounts.take(split.amounts.len() as int));
    }
}

/// Whatever the random numbers, a split stays within its bounds: each coin between the smallest and
/// the greatest, no more than sixty of them, and three thousand left over.
pub proof fn law_split_stays_in_bounds(split: Split, draws: Seq<u64>, i: int)
    requires
        split.is_sound(),
    ensures
        split.filled(draws).is_sound(),
        ({
            let after = split.filled(draws).amounts;
            &&& total(after) + 3000 <= split.spendable
            &&& after.len() <= 60
            &&& after.len() <= split.amounts.len() + draws.len()
            &&& 0 <= i < after.len() ==> split.min_sat <= after[i] <= split.max_sat
        }),
    decreases draws.len(),
{
    if draws.len() > 0 && split.has_room() {
        let next = Split { amounts: split.amounts.push(split.next(draws[0]) as u64), ..split };
        law_next_coin_is_in_range(split, draws[0], 0);
        assert(next.amounts.drop_last() =~= split.amounts);
        assert forall|k: int| 0 <= k < next.amounts.len() implies next.min_sat
            <= #[trigger] next.amounts[k] <= next.max_sat by {
            if k < split.amounts.len() {
                assert(next.amounts[k] == split.amounts[k]);
            }
        }
        law_split_stays_in_bounds(next, draws.drop_first(), i);
    }
}

} // verus!
