use blinky::bus::{BusError, Delay, NoopDelay, ScriptedBus};
use blinky::codec::BitOrder;
use blinky::cycle::ColorCycle;
use blinky::driver::{GpioExpander, EXPANDER_ADDR};

struct RecordingDelay {
    holds: Vec<u32>,
}

impl Delay for RecordingDelay {
    fn delay_ms(&mut self, ms: u32) {
        self.holds.push(ms);
    }
}

fn payloads(bus: &ScriptedBus) -> Vec<u8> {
    bus.events.iter().map(|e| e.1[0]).collect()
}

#[test]
fn on_off_write_put_single_bytes_on_the_bus() {
    let mut gpio = GpioExpander::new(ScriptedBus::new(vec![]));
    assert_eq!(gpio.on(), Ok(()));
    assert_eq!(gpio.off(), Ok(()));
    assert_eq!(gpio.write(0xAB), Ok(()));
    assert_eq!(payloads(&gpio.bus), vec![0x00, 0xFF, 0xAB]);
    for e in &gpio.bus.events {
        assert_eq!(e.0, EXPANDER_ADDR);
        assert_eq!(e.1.len(), 1);
        assert!(e.2);
    }
}

#[test]
fn write_error_is_surfaced_untouched() {
    let mut gpio = GpioExpander::new(ScriptedBus::new(vec![true]));
    assert_eq!(gpio.write(0x12), Err(BusError));
    assert_eq!(gpio.bus.events.len(), 1);
    assert!(!gpio.bus.events[0].2);
}

#[test]
fn write_pins_encodes_then_writes_once() {
    let mut gpio = GpioExpander::new(ScriptedBus::new(vec![]));
    assert_eq!(gpio.write_pins(&[0, 1, 1, 1, 0, 0, 0, 0]), Ok(()));
    assert_eq!(payloads(&gpio.bus), vec![0b0000_1110]);
}

#[test]
fn write_pins_delay_holds_after_a_good_write() {
    let mut gpio = GpioExpander::new(ScriptedBus::new(vec![]));
    let mut timer = RecordingDelay { holds: vec![] };
    assert_eq!(
        gpio.write_pins_delay(&[1, 1, 1, 1, 1, 0, 1, 1], 100, &mut timer),
        Ok(())
    );
    assert_eq!(payloads(&gpio.bus), vec![0b1101_1111]);
    assert_eq!(timer.holds, vec![100]);
}

#[test]
fn write_pins_delay_skips_the_hold_on_a_rejected_write() {
    let mut gpio = GpioExpander::new(ScriptedBus::new(vec![true]));
    let mut timer = RecordingDelay { holds: vec![] };
    assert_eq!(
        gpio.write_pins_delay(&[1, 1, 1, 1, 1, 0, 1, 1], 100, &mut timer),
        Err(BusError)
    );
    assert_eq!(timer.holds, vec![]);
}

#[test]
fn write_pins_respects_the_configured_bit_order() {
    let mut gpio =
        GpioExpander::new_with_bit_order(ScriptedBus::new(vec![]), BitOrder::Reversed);
    assert_eq!(gpio.write_pins(&[0, 1, 1, 1, 0, 0, 0, 0]), Ok(()));
    assert_eq!(payloads(&gpio.bus), vec![0b0111_0000]);
}

#[test]
fn a_single_pin_cycle_blends_the_pin_with_itself() {
    let mut gpio = GpioExpander::new(ScriptedBus::new(vec![]));
    let mut cycle = ColorCycle::new(vec![3], 500).unwrap();
    let failures = cycle.run_cycle(&mut gpio, &mut NoopDelay::new());
    assert_eq!(failures, 0);
    assert_eq!(cycle.cursor, 0);
    assert_eq!(payloads(&gpio.bus), vec![0xF7, 0xF7]);
}

#[test]
fn pin_to_hex_historical_one_indexed_variant() {
    let gpio = GpioExpander::new(ScriptedBus::new(vec![]));
    assert_eq!(gpio.pin_to_hex(5), 0b0001_0000);
    assert_eq!(blinky::codec::pin_to_mask(4), Some(0b0001_0000));
}

#[test]
fn pins_to_hex_matches_the_codec() {
    let gpio = GpioExpander::new(ScriptedBus::new(vec![]));
    assert_eq!(gpio.pins_to_hex(&[0, 1, 1, 1, 0, 0, 0, 0]), 0b0000_1110);
}

#[test]
fn combined_active_low_masks_clear_exactly_both_bits() {
    let mask_a: u8 = 0x10;
    let mask_b: u8 = 0x20;
    assert_eq!(!mask_a & !mask_b, 0xCF);
}

#[test]
fn cycle_rejects_bad_pin_lists() {
    assert!(ColorCycle::new(vec![], 500).is_none());
    assert!(ColorCycle::new(vec![4, 8], 500).is_none());
    assert!(ColorCycle::new(vec![4, 5, 6], 500).is_some());
}

#[test]
fn one_step_writes_solo_then_blend() {
    let mut gpio = GpioExpander::new(ScriptedBus::new(vec![]));
    let mut cycle = ColorCycle::new(vec![4, 5, 6], 500).unwrap();
    let mut timer = RecordingDelay { holds: vec![] };
    let (first, second) = cycle.step(&mut gpio, &mut timer);
    assert_eq!(first, Ok(()));
    assert_eq!(second, Ok(()));
    assert_eq!(payloads(&gpio.bus), vec![0xEF, 0xCF]);
    assert_eq!(timer.holds, vec![500, 500]);
    assert_eq!(cycle.cursor, 1);
}

#[test]
fn full_pass_makes_exactly_six_writes_and_returns_the_cursor() {
    let mut gpio = GpioExpander::new(ScriptedBus::new(vec![]));
    let mut cycle = ColorCycle::new(vec![4, 5, 6], 500).unwrap();
    let mut timer = RecordingDelay { holds: vec![] };
    let failures = cycle.run_cycle(&mut gpio, &mut timer);
    assert_eq!(failures, 0);
    assert_eq!(gpio.bus.events.len(), 6);
    assert_eq!(cycle.cursor, 0);
    assert_eq!(payloads(&gpio.bus), vec![0xEF, 0xCF, 0xDF, 0x9F, 0xBF, 0xAF]);
    assert_eq!(timer.holds, vec![500; 6]);
}

#[test]
fn a_failed_write_never_stops_the_pass() {
    for failing_step in 0..6 {
        let mut script = vec![false; 6];
        script[failing_step] = true;
        let mut gpio = GpioExpander::new(ScriptedBus::new(script));
        let mut cycle = ColorCycle::new(vec![4, 5, 6], 500).unwrap();
        let mut timer = RecordingDelay { holds: vec![] };
        let failures = cycle.run_cycle(&mut gpio, &mut timer);
        assert_eq!(failures, 1);
        assert_eq!(timer.holds, vec![500; 6]);
        assert_eq!(gpio.bus.events.len(), 6);
        assert_eq!(cycle.cursor, 0);
        assert_eq!(payloads(&gpio.bus), vec![0xEF, 0xCF, 0xDF, 0x9F, 0xBF, 0xAF]);
        for (k, e) in gpio.bus.events.iter().enumerate() {
            assert_eq!(e.2, k != failing_step);
        }
    }
}

#[test]
fn the_next_pass_attempts_the_same_writes_again() {
    let mut gpio = GpioExpander::new(ScriptedBus::new(vec![true; 6]));
    let mut cycle = ColorCycle::new(vec![4, 5, 6], 500).unwrap();
    assert_eq!(cycle.run_cycle(&mut gpio, &mut NoopDelay::new()), 6);
    assert_eq!(cycle.run_cycle(&mut gpio, &mut NoopDelay::new()), 0);
    assert_eq!(gpio.bus.events.len(), 12);
    assert_eq!(
        payloads(&gpio.bus),
        vec![0xEF, 0xCF, 0xDF, 0x9F, 0xBF, 0xAF, 0xEF, 0xCF, 0xDF, 0x9F, 0xBF, 0xAF]
    );
}
