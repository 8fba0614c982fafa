//! The price driver: a seedable generator owned by one driver instance, which
//! moves the market's prices a bounded step per tick and stamps the broadcast
//! updates with a non-decreasing sequence number.

use crate::market::{repriced, update_of, StockMarket};
use crate::message::PriceUpdate;
use crate::pricing::{buy_price_for, buy_price_of, MIN_MARKUP_PERCENT};
use rand::Rng;
use rand::SeedableRng;
use rand_chacha::ChaCha8Rng;
use vstd::prelude::*;

verus! {

#[verifier::external_type_specification]
#[verifier::external_body]
pub struct ExChaCha8Rng(ChaCha8Rng);

/// Relies on `rand_core::SeedableRng::seed_from_u64` for `ChaCha8Rng`: a
/// generator whose output is fixed by the seed.
#[verifier::external_body]
fn seeded_rng(seed: u64) -> ChaCha8Rng {
    ChaCha8Rng::seed_from_u64(seed)
}

/// Relies on `rand::Rng::gen_range` over `lo..hi`: a value in the half-open
/// range, which must not be empty.
#[verifier::external_body]
fn draw_in_range(rng: &mut ChaCha8Rng, lo: i64, hi: i64) -> (r: i64)
    requires
        lo < hi,
    ensures
        lo <= r < hi,
{
    rng.gen_range(lo..hi)
}

/// The sequence number after `s`; it stays at the largest value once there.
pub open spec fn next_sequence(s: u64) -> u64 {
    if s == u64::MAX {
        s
    } else {
        (s + 1) as u64
    }
}

/// Every move lies in `[-bound, bound)` basis points.
pub open spec fn moves_within(moves: Seq<i32>, bound: i32) -> bool {
    forall|i: int| 0 <= i < moves.len() ==> -bound <= #[trigger] moves[i] < bound
}

/// Drives the prices of a market.
pub struct PriceDriver {
    rng: ChaCha8Rng,
    sequence: u64,
    markup_percent: u32,
    max_move_bp: i32,
}

impl PriceDriver {
    /// The sequence number that the next tick stamps.
    pub closed spec fn spec_sequence(&self) -> u64 {
        self.sequence
    }

    /// The markup of buy over sell prices, in percent.
    pub closed spec fn spec_markup_percent(&self) -> u32 {
        self.markup_percent
    }

    /// The largest move per tick, in basis points.
    pub closed spec fn spec_max_move_bp(&self) -> i32 {
        self.max_move_bp
    }

    pub closed spec fn wf(&self) -> bool {
        &&& self.markup_percent >= MIN_MARKUP_PERCENT
        &&& self.max_move_bp > 0
    }

    /// A driver over the given generator. Moves lie in
    /// `[-max_move_bp, max_move_bp)`; buy prices carry `markup_percent`.
    pub fn new(rng: ChaCha8Rng, markup_percent: u32, max_move_bp: i32) -> (r: PriceDriver)
        requires
            markup_percent >= MIN_MARKUP_PERCENT,
            max_move_bp > 0,
        ensures
            r.wf(),
            r.spec_sequence() == 0,
            r.spec_markup_percent() == markup_percent,
            r.spec_max_move_bp() == max_move_bp,
    {
        PriceDriver { rng, sequence: 0, markup_percent, max_move_bp }
    }

    /// A driver whose generator is seeded with `seed`.
    pub fn seeded(seed: u64, markup_percent: u32, max_move_bp: i32) -> (r: PriceDriver)
        requires
            markup_percent >= MIN_MARKUP_PERCENT,
            max_move_bp > 0,
        ensures
            r.wf(),
            r.spec_sequence() == 0,
            r.spec_markup_percent() == markup_percent,
            r.spec_max_move_bp() == max_move_bp,
    {
        PriceDriver::new(seeded_rng(seed), markup_percent, max_move_bp)
    }

    /// The sequence number that the next tick stamps.
    pub fn sequence(&self) -> (r: u64)
        ensures
            r == self.spec_sequence(),
    {
        self.sequence
    }

    /// Draws one move per instrument in `[-max_move_bp, max_move_bp)`.
    fn draw_moves(&mut self, n: usize) -> (r: Vec<i32>)
        requires
            old(self).wf(),
        ensures
            final(self).wf(),
            final(self).spec_sequence() == old(self).spec_sequence(),
            final(self).spec_markup_percent() == old(self).spec_markup_percent(),
            final(self).spec_max_move_bp() == old(self).spec_max_move_bp(),
            r@.len() == n,
            moves_within(r@, old(self).spec_max_move_bp()),
    {
        let mut out: Vec<i32> = Vec::new();
        let bound = self.max_move_bp;
        let mut i: usize = 0;
        while i < n
            invariant
                i <= n,
                out@.len() == i,
                self.wf(),
                self.sequence == old(self).sequence,
                self.markup_percent == old(self).markup_percent,
                self.max_move_bp == bound,
                bound == old(self).max_move_bp,
                moves_within(out@, bound),
            decreases n - i,
        {
            let m = draw_in_range(&mut self.rng, -(bound as i64), bound as i64);
            out.push(m as i32);
            i += 1;
        }
        out
    }

    /// One tick: moves every price of the market by a drawn step and returns
    /// the broadcast view of every instrument, stamped with this tick's
    /// sequence number.
    pub fn tick(&mut self, market: &mut StockMarket) -> (r: Vec<PriceUpdate>)
        requires
            old(self).wf(),
            old(market).wf(),
        ensures
            final(self).wf(),
            final(market).wf(),
            final(self).spec_sequence() == next_sequence(old(self).spec_sequence()),
            final(self).spec_markup_percent() == old(self).spec_markup_percent(),
            final(self).spec_max_move_bp() == old(self).spec_max_move_bp(),
            exists|moves: Seq<i32>|
                moves.len() == old(market)@.len() && moves_within(moves, old(self).spec_max_move_bp())
                    && final(market)@ == repriced(
                    old(market)@,
                    moves,
                    old(self).spec_markup_percent(),
                ),
            r@.len() == final(market)@.len(),
            forall|i: int| 0 <= i < r@.len() ==> #[trigger] r@[i] == update_of(
                final(market)@[i],
                old(self).spec_sequence(),
            ),
    {
        let moves = self.draw_moves(market.len());
        market.simulate_price_changes(&moves, self.markup_percent);
        let r = market.snapshots(self.sequence);
        if self.sequence < u64::MAX {
            self.sequence = self.sequence + 1;
        }
        r
    }

    /// A quote for each instrument in `ids`, its sell price drawn from
    /// `[lo, hi)` cents, stamped with the next sequence number.
    pub fn quote_prices(&mut self, ids: &Vec<String>, lo: u32, hi: u32) -> (r: Vec<PriceUpdate>)
        requires
            old(self).wf(),
            lo < hi,
        ensures
            final(self).wf(),
            final(self).spec_sequence() == next_sequence(old(self).spec_sequence()),
            final(self).spec_markup_percent() == old(self).spec_markup_percent(),
            final(self).spec_max_move_bp() == old(self).spec_max_move_bp(),
            r@.len() == ids@.len(),
            forall|i: int|
                0 <= i < r@.len() ==> {
                    &&& (#[trigger] r@[i]).id == ids@[i]
                    &&& lo <= r@[i].sell_price < hi
                    &&& r@[i].buy_price == buy_price_of(
                        r@[i].sell_price,
                        old(self).spec_markup_percent(),
                    )
                    &&& r@[i].available_stock == 0
                    &&& r@[i].sequence == old(self).spec_sequence()
                },
    {
        let mut out: Vec<PriceUpdate> = Vec::new();
        let mut i: usize = 0;
        while i < ids.len()
            invariant
                i <= ids@.len(),
                lo < hi,
                out@.len() == i,
                self.wf(),
                self.sequence == old(self).sequence,
                self.markup_percent == old(self).markup_percent,
                self.max_move_bp == old(self).max_move_bp,
                forall|j: int|
                    0 <= j < i ==> {
                        &&& (#[trigger] out@[j]).id == ids@[j]
                        &&& lo <= out@[j].sell_price < hi
                        &&& out@[j].buy_price == buy_price_of(
                            out@[j].sell_price,
                            self.markup_percent,
                        )
                        &&& out@[j].available_stock == 0
                        &&& out@[j].sequence == self.sequence
                    },
            decreases ids@.len() - i,
        {
            let price = draw_in_range(&mut self.rng, lo as i64, hi as i64) as u32;
            out.push(PriceUpdate {
                id: ids[i].clone(),
                sell_price: price,
                buy_price: buy_price_for(price, self.markup_percent),
                available_stock: 0,
                sequence: self.sequence,
            });
            i += 1;
        }
        if self.sequence < u64::MAX {
            self.sequence = self.sequence + 1;
        }
        out
    }
}

} // verus!
