//! The cross-fade control loop: walks an ordered list of expander pin
//! indices, writing first one pin alone and then that pin blended with its
//! successor, with a fixed hold after each write.

use vstd::prelude::*;

use crate::bus::{Bus, BusError, Delay};
use crate::driver::{GpioExpander, EXPANDER_ADDR};

verus! {

/// The byte that drives exactly pin `pins[i]` active: in the active-low
/// wiring, the complement of that pin's mask.
pub open spec fn solo_byte(pins: Seq<u8>, i: int) -> u8 {
    !(1u8 << pins[i])
}

/// The byte that drives pin `pins[i]` and its cyclic successor active
/// together: the AND of the two complemented masks, which clears both pins'
/// bits and leaves every other bit high.
pub open spec fn blend_byte(pins: Seq<u8>, i: int) -> u8 {
    !(1u8 << pins[i]) & !(1u8 << pins[(i + 1) % (pins.len() as int)])
}

/// The blend of two complemented pin masks clears exactly the two pins' bits:
/// for in-range pins `a` and `b`, bit `i` of `!(1 << a) & !(1 << b)` is low
/// iff `i` is `a` or `b`, and stays high otherwise. (With `a == b` the blend
/// is the solo byte, so the solo byte clears exactly its own pin's bit.) This
/// is why AND of two active-low masks means "both pins driven active".
pub proof fn lemma_blend_clears_exactly(a: u8, b: u8)
    requires
        a < 8,
        b < 8,
    ensures
        forall|i: u8|
            i < 8 ==> ((#[trigger] ((!(1u8 << a) & !(1u8 << b)) >> i) & 1) == 0 <==> (i == a || i
                == b)),
{
    assert forall|i: u8| i < 8 implies (((!(1u8 << a) & !(1u8 << b)) >> i) & 1) == 0 <==> (i == a
        || i == b) by {
        assert((((!(1u8 << a) & !(1u8 << b)) >> i) & 1) == 0 <==> (i == a || i == b))
            by (bit_vector)
            requires
                a < 8,
                b < 8,
                i < 8,
        ;
    }
}

/// The 2·`steps` payload bytes that `steps` consecutive cross-fade steps put
/// on the bus when the cursor starts at `start`: for step `t`, the solo byte
/// of the pin at `(start + t) % len`, then that pin's blend byte.
pub open spec fn pass_payloads(pins: Seq<u8>, start: int, steps: int) -> Seq<u8> {
    Seq::new(
        (2 * steps) as nat,
        |j: int|
            {
                let idx = (start + j / 2) % (pins.len() as int);
                if j % 2 == 0 {
                    solo_byte(pins, idx)
                } else {
                    blend_byte(pins, idx)
                }
            },
    )
}

/// Number of rejected writes among the logged transactions.
pub open spec fn failed_count(entries: Seq<(u8, Seq<u8>, bool)>) -> int
    decreases entries.len(),
{
    if entries.len() == 0 {
        0int
    } else {
        failed_count(entries.drop_last()) + (if entries.last().2 {
            0int
        } else {
            1int
        })
    }
}

/// Cross-fade sequence over a list of expander pins. The only mutable state
/// is the cursor into the list; the loop runs until the hosting device is
/// reset or powered off.
pub struct ColorCycle {
    /// Pin indices walked in order, each in `[0, 8)`.
    pub pins: Vec<u8>,
    /// Position in `pins` of the next step.
    pub cursor: usize,
    /// Hold time after each write, in milliseconds.
    pub delay_ms: u32,
}

impl ColorCycle {
    /// Well-formedness: at least one pin, every index in range, cursor in
    /// range. Established by the constructor and preserved by every step.
    pub open spec fn wf(&self) -> bool {
        &&& self.pins@.len() >= 1
        &&& forall|i: int| 0 <= i < self.pins@.len() ==> self.pins@[i] < 8
        &&& (self.cursor as int) < self.pins@.len()
    }

    /// A cycle over `pins` starting at the first entry, holding `delay_ms`
    /// after each write. Fails the range check — and yields no cycle — when
    /// the list is empty or holds an out-of-range pin index.
    pub fn new(pins: Vec<u8>, delay_ms: u32) -> (r: Option<ColorCycle>)
        ensures
            match r {
                Some(c) => {
                    &&& c.wf()
                    &&& c.pins == pins
                    &&& c.cursor == 0usize
                    &&& c.delay_ms == delay_ms
                    &&& pins@.len() >= 1
                    &&& forall|i: int| 0 <= i < pins@.len() ==> pins@[i] < 8
                },
                None => pins@.len() == 0 || exists|i: int|
                    0 <= i < pins@.len() && pins@[i] >= 8,
            },
    {
        if pins.len() == 0 {
            return None;
        }
        let mut i: usize = 0;
        while i < pins.len()
            invariant
                i <= pins@.len(),
                forall|j: int| 0 <= j < i ==> pins@[j] < 8,
            decreases pins@.len() - i,
        {
            if pins[i] >= 8 {
                return None;
            }
            i = i + 1;
        }
        Some(ColorCycle { pins, cursor: 0, delay_ms })
    }

    /// One step of the cross-fade: write the cursor pin's solo byte, hold,
    /// write its blend with the cyclic successor, hold, advance the cursor.
    /// Each of the two writes is followed by exactly one hold of the cycle's
    /// fixed delay, and both writes are attempted whatever the first one
    /// returns: a rejected write never stops the step. The two results are
    /// handed back for the caller to report.
    pub fn step<B: Bus, D: Delay>(&mut self, driver: &mut GpioExpander<B>, delay: &mut D) -> (r: (
        Result<(), BusError>,
        Result<(), BusError>,
    ))
        requires
            old(self).wf(),
        ensures
            final(self).wf(),
            final(self).pins == old(self).pins,
            final(self).delay_ms == old(self).delay_ms,
            final(self).cursor as int == (old(self).cursor + 1) % (old(self).pins@.len() as int),
            final(driver).bit_order == old(driver).bit_order,
            final(driver).bus.log() == old(driver).bus.log().push(
                (EXPANDER_ADDR, seq![solo_byte(old(self).pins@, old(self).cursor as int)], r.0 is Ok),
            ).push(
                (EXPANDER_ADDR, seq![blend_byte(old(self).pins@, old(self).cursor as int)], r.1 is Ok),
            ),
            final(delay).calls() == old(delay).calls().push(old(self).delay_ms).push(
                old(self).delay_ms,
            ),
    {
        let i = self.cursor;
        let n = self.pins.len();
        let a = self.pins[i];
        let b = self.pins[(i + 1) % n];
        let mask_a = 1u8 << a;
        let mask_b = 1u8 << b;
        let first = driver.write(!mask_a);
        delay.delay_ms(self.delay_ms);
        let second = driver.write(!mask_a & !mask_b);
        delay.delay_ms(self.delay_ms);
        self.cursor = (i + 1) % n;
        (first, second)
    }

    /// One full pass of the cross-fade: one step per pin, so exactly two
    /// writes per pin land on the bus — 2·N in all, each followed by one hold
    /// of the cycle's fixed delay — and the cursor returns to its starting
    /// value. A rejected write never stops the pass: every later write is
    /// still attempted, and the number of rejected writes is handed back for
    /// the caller to report.
    pub fn run_cycle<B: Bus, D: Delay>(
        &mut self,
        driver: &mut GpioExpander<B>,
        delay: &mut D,
    ) -> (failures: usize)
        requires
            old(self).wf(),
            2 * old(self).pins@.len() <= usize::MAX,
        ensures
            final(self).wf(),
            final(self).pins == old(self).pins,
            final(self).cursor == old(self).cursor,
            final(self).delay_ms == old(self).delay_ms,
            final(driver).bit_order == old(driver).bit_order,
            final(driver).bus.log().len() == old(driver).bus.log().len() + 2 * old(
                self,
            ).pins@.len(),
            final(driver).bus.log().take(old(driver).bus.log().len() as int) == old(
                driver,
            ).bus.log(),
            forall|j: int|
                0 <= j < 2 * old(self).pins@.len() ==> (#[trigger] final(driver).bus.log()[old(
                    driver,
                ).bus.log().len() + j]).0 == EXPANDER_ADDR && final(driver).bus.log()[old(
                    driver,
                ).bus.log().len() + j].1 == seq![
                    pass_payloads(
                        old(self).pins@,
                        old(self).cursor as int,
                        old(self).pins@.len() as int,
                    )[j],
                ],
            failures as int == failed_count(
                final(driver).bus.log().skip(old(driver).bus.log().len() as int),
            ),
            final(delay).calls() == old(delay).calls() + Seq::new(
                (2 * old(self).pins@.len()) as nat,
                |j: int| old(self).delay_ms,
            ),
    {
        let ghost base = old(driver).bus.log().len() as int;
        let ghost pins0 = old(self).pins@;
        let ghost start = old(self).cursor as int;
        let ghost n_spec = old(self).pins@.len() as int;
        let ghost full = pass_payloads(pins0, start, n_spec);
        let ghost d0 = old(self).delay_ms;
        let n = self.pins.len();
        let mut k: usize = 0;
        let mut failures: usize = 0;
        proof {
            assert(driver.bus.log().take(base) =~= old(driver).bus.log());
            assert(driver.bus.log().skip(base) =~= Seq::<(u8, Seq<u8>, bool)>::empty());
            assert(delay.calls() =~= old(delay).calls() + Seq::new(0nat, |j: int| d0));
            vstd::arithmetic::div_mod::lemma_small_mod(start as nat, n_spec as nat);
        }
        while k < n
            invariant
                self.wf(),
                self.pins == old(self).pins,
                self.delay_ms == old(self).delay_ms,
                pins0 == old(self).pins@,
                base == old(driver).bus.log().len() as int,
                n == pins0.len(),
                n_spec == pins0.len() as int,
                2 * n_spec <= usize::MAX,
                start == old(self).cursor as int,
                0 <= start < n_spec,
                full == pass_payloads(pins0, start, n_spec),
                k <= n,
                self.cursor as int == (start + k) % n_spec,
                driver.bit_order == old(driver).bit_order,
                driver.bus.log().len() == base + 2 * k,
                driver.bus.log().take(base) == old(driver).bus.log(),
                forall|j: int|
                    0 <= j < 2 * k ==> (#[trigger] driver.bus.log()[base + j]).0 == EXPANDER_ADDR
                        && driver.bus.log()[base + j].1 == seq![full[j]],
                failures <= 2 * k,
                failures as int == failed_count(driver.bus.log().skip(base)),
                d0 == old(self).delay_ms,
                delay.calls() == old(delay).calls() + Seq::new(
                    (2 * (k as int)) as nat,
                    |j: int| d0,
                ),
            decreases n - k,
        {
            let ghost log_before = driver.bus.log();
            let ghost cursor_before = self.cursor as int;
            let (first, second) = self.step(driver, delay);
            if first.is_err() {
                failures = failures + 1;
            }
            if second.is_err() {
                failures = failures + 1;
            }
            proof {
                let e1 = (EXPANDER_ADDR, seq![solo_byte(pins0, cursor_before)], first is Ok);
                let e2 = (EXPANDER_ADDR, seq![blend_byte(pins0, cursor_before)], second is Ok);
                // the two new entries sit exactly where the pass expects them
                vstd::arithmetic::div_mod::lemma_fundamental_div_mod_converse(
                    2 * k,
                    2,
                    k as int,
                    0,
                );
                vstd::arithmetic::div_mod::lemma_fundamental_div_mod_converse(
                    2 * k + 1,
                    2,
                    k as int,
                    1,
                );
                assert(full[2 * k] == solo_byte(pins0, (start + k) % n_spec));
                assert(full[2 * k + 1] == blend_byte(pins0, (start + k) % n_spec));
                // prefix below `base` is untouched
                assert(driver.bus.log().take(base) =~~= log_before.take(base));
                // the cursor advanced one place around the ring
                vstd::arithmetic::div_mod::lemma_add_mod_noop_right(1, start + k, n_spec);
                // the failure count absorbs the two new entries
                let sold = log_before.skip(base);
                let snew = driver.bus.log().skip(base);
                assert(snew =~~= sold.push(e1).push(e2));
                assert(snew.drop_last() =~~= sold.push(e1));
                assert(failed_count(snew) == failed_count(sold.push(e1)) + (if e2.2 {
                    0int
                } else {
                    1int
                }));
                assert(sold.push(e1).drop_last() =~= sold);
                // two more holds of the fixed delay
                assert(old(delay).calls() + Seq::new((2 * ((k + 1) as int)) as nat, |j: int| d0)
                    =~= (old(delay).calls() + Seq::new((2 * (k as int)) as nat, |j: int| d0)).push(
                    d0,
                ).push(d0));
            }
            k = k + 1;
        }
        proof {
            vstd::arithmetic::div_mod::lemma_mod_add_multiples_vanish(start, n_spec);
            vstd::arithmetic::div_mod::lemma_small_mod(start as nat, n_spec as nat);
            assert(old(delay).calls() + Seq::new((2 * (n as int)) as nat, |j: int| d0)
                =~= old(delay).calls() + Seq::new(
                (2 * old(self).pins@.len()) as nat,
                |j: int| old(self).delay_ms,
            ));
        }
        failures
    }
}

} // verus!
