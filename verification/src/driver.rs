//! The expander driver: owns the bus handle exclusively and performs exactly
//! one bus transaction per logical operation, delegating the payload encoding
//! to the codec. A transport error is surfaced to the caller untouched; the
//! driver performs no recovery.

use vstd::prelude::*;

use crate::bus::{Bus, BusError, Delay};
use crate::codec::{packed_mask, pins_to_mask, BitOrder};

verus! {

/// The expander's fixed 7-bit bus address.
pub const EXPANDER_ADDR: u8 = 0x20;

/// Driver for the 8-bit I/O expander: the chip is a single read/write
/// output-only byte register at [`EXPANDER_ADDR`], written verbatim.
pub struct GpioExpander<B: Bus> {
    /// The bus handle, owned for the driver's whole lifetime.
    pub bus: B,
    /// Bit orientation applied by the state-vector operations.
    pub bit_order: BitOrder,
}

impl<B: Bus> GpioExpander<B> {
    /// A driver over `bus`, with the direct bit order.
    pub fn new(bus: B) -> (r: GpioExpander<B>)
        ensures
            r.bus == bus,
            r.bit_order == BitOrder::Direct,
    {
        GpioExpander { bus, bit_order: BitOrder::Direct }
    }

    /// A driver over `bus` with an explicit bit orientation, for wirings
    /// where the packed byte must be bit-swapped.
    pub fn new_with_bit_order(bus: B, bit_order: BitOrder) -> (r: GpioExpander<B>)
        ensures
            r.bus == bus,
            r.bit_order == bit_order,
    {
        GpioExpander { bus, bit_order }
    }

    /// Drive every output on: in the active-low wiring every pin is on at
    /// logic low, so the all-zero byte is written.
    pub fn on(&mut self) -> (r: Result<(), BusError>)
        ensures
            final(self).bit_order == old(self).bit_order,
            final(self).bus.log() == old(self).bus.log().push(
                (EXPANDER_ADDR, seq![0x00u8], r is Ok),
            ),
    {
        self.write(0x00)
    }

    /// Drive every output off: the all-ones byte.
    pub fn off(&mut self) -> (r: Result<(), BusError>)
        ensures
            final(self).bit_order == old(self).bit_order,
            final(self).bus.log() == old(self).bus.log().push(
                (EXPANDER_ADDR, seq![0xFFu8], r is Ok),
            ),
    {
        self.write(0xFF)
    }

    /// Write an arbitrary byte to the register in one transaction: for
    /// callers that have already computed an inverted or combined mask.
    pub fn write(&mut self, value: u8) -> (r: Result<(), BusError>)
        ensures
            final(self).bit_order == old(self).bit_order,
            final(self).bus.log() == old(self).bus.log().push(
                (EXPANDER_ADDR, seq![value], r is Ok),
            ),
    {
        let payload: [u8; 1] = [value];
        let r = self.bus.write(EXPANDER_ADDR, payload.as_slice());
        proof {
            assert(payload@ =~= seq![value]);
        }
        r
    }

    /// Encode an 8-entry states vector under the driver's bit order and write
    /// the packed byte in one transaction.
    pub fn write_pins(&mut self, pin_values: &[u8]) -> (r: Result<(), BusError>)
        requires
            pin_values@.len() == 8,
        ensures
            final(self).bit_order == old(self).bit_order,
            final(self).bus.log() == old(self).bus.log().push(
                (EXPANDER_ADDR, seq![packed_mask(pin_values@, old(self).bit_order)], r is Ok),
            ),
    {
        let byte = pins_to_mask(pin_values, self.bit_order);
        self.write(byte)
    }

    /// Write an encoded states vector, then hold for `delay` milliseconds:
    /// on a good write exactly one hold of `delay` follows the transaction. A
    /// rejected write is surfaced at once, without the hold.
    pub fn write_pins_delay<D: Delay>(
        &mut self,
        pin_values: &[u8],
        delay: u32,
        timer: &mut D,
    ) -> (r: Result<(), BusError>)
        requires
            pin_values@.len() == 8,
        ensures
            final(self).bit_order == old(self).bit_order,
            final(self).bus.log() == old(self).bus.log().push(
                (EXPANDER_ADDR, seq![packed_mask(pin_values@, old(self).bit_order)], r is Ok),
            ),
            r is Ok ==> final(timer).calls() == old(timer).calls().push(delay),
            r is Err ==> final(timer).calls() == old(timer).calls(),
    {
        let r = self.write_pins(pin_values);
        if let Err(e) = r {
            return Err(e);
        }
        timer.delay_ms(delay);
        Ok(())
    }

    /// `1 << (pin - 1)`: the historical one-indexed mask of a single pin. Its
    /// domain, `1 ..= 8`, is enforced statically by `requires`, so no call
    /// can wrap silently; the corrected zero-indexed
    /// [`crate::codec::pin_to_mask`] checks its range at run time instead.
    pub fn pin_to_hex(&self, pin: u8) -> (r: u8)
        requires
            1 <= pin <= 8,
        ensures
            r == 1u8 << ((pin - 1) as u8),
    {
        1u8 << (pin - 1)
    }

    /// Encode an 8-entry states vector under the driver's bit order, without
    /// writing it.
    pub fn pins_to_hex(&self, pins: &[u8]) -> (r: u8)
        requires
            pins@.len() == 8,
        ensures
            r == packed_mask(pins@, self.bit_order),
    {
        pins_to_mask(pins, self.bit_order)
    }
}

} // verus!
