use pintrace::circuit::Circuit;
use pintrace::device::LevelChange;
use pintrace::level::{LEVEL_HIGH, LEVEL_LOW};
use pintrace::pin::Mode::{Bidirectional, Input, Output};
use pintrace::utils::{mode_to_pins, none_to_pins, pins_to_value, value_to_pins};

fn lvl(v: f64) -> Option<i64> {
    Some((v * 1000.0).round() as i64)
}

fn dev_events(c: &Circuit, d: usize) -> Vec<LevelChange> {
    c.events().iter().filter(|e: &&LevelChange| e.device == d).cloned().collect()
}

#[test]
fn driving_pin_wins_when_highest() {
    let mut c = Circuit::new();
    let a = c.new_pin(1, "A", Output);
    let b = c.new_pin(2, "B", Bidirectional);
    let t = c.new_trace(&vec![a, b]);

    c.set_level(b, lvl(0.25));
    c.set_level(a, lvl(0.5));
    assert_eq!(c.trace(t).level(), lvl(0.5));
}

#[test]
fn direct_set_reaches_input_once() {
    let mut c = Circuit::new();
    let p = c.new_pin(1, "A", Input);
    let t = c.new_trace(&vec![p]);
    let d = 9;
    c.attach(p, d);

    c.trace_set_level(t, lvl(0.75));
    assert_eq!(c.pin(p).level(), lvl(0.75));
    let evs = dev_events(&c, d);
    assert_eq!(evs.len(), 1);
    assert_eq!(evs[0].level, lvl(0.75));

    // The same value again changes nothing and notifies nobody.
    c.trace_set_level(t, lvl(0.75));
    assert_eq!(dev_events(&c, d).len(), 1);
}

#[test]
fn mode_round_trip_restores_level() {
    let mut c = Circuit::new();
    let p = c.new_pin(1, "A", Output);
    let q = c.new_pin(2, "B", Input);
    let t = c.new_trace(&vec![p, q]);

    c.set_level(p, lvl(0.75));
    assert_eq!(c.trace(t).level(), lvl(0.75));

    c.set_mode(p, Input);
    assert!(c.trace(t).floating());

    c.set_mode(p, Output);
    assert_eq!(c.trace(t).level(), lvl(0.75));

    c.set_level(p, lvl(0.75));
    assert_eq!(c.trace(t).level(), lvl(0.75));
}

#[test]
fn pull_defaults_govern_absent_levels() {
    let mut c = Circuit::new();
    let p = c.new_pin(1, "A", Output);
    c.pull_up(p);
    c.set_level(p, None);
    assert_eq!(c.pin(p).level(), Some(LEVEL_HIGH));
    c.pull_down(p);
    c.set_level(p, None);
    assert_eq!(c.pin(p).level(), Some(LEVEL_LOW));
    c.pull_off(p);
    c.set_level(p, None);
    assert_eq!(c.pin(p).level(), None);

    let t = c.new_trace(&vec![]);
    c.trace_pull_up(t);
    c.trace_set_level(t, None);
    assert_eq!(c.trace(t).level(), Some(LEVEL_HIGH));
    c.trace_pull_down(t);
    c.trace_set_level(t, None);
    assert_eq!(c.trace(t).level(), Some(LEVEL_LOW));
    c.trace_pull_off(t);
    c.trace_set_level(t, None);
    assert_eq!(c.trace(t).level(), None);
}

#[test]
fn multi_driver_maximum_rule() {
    let mut c = Circuit::new();
    let a = c.new_pin(1, "A", Output);
    let b = c.new_pin(2, "B", Output);
    let t = c.new_trace(&vec![a, b]);

    c.set_level(a, lvl(0.25));
    c.set_level(b, lvl(0.75));
    assert_eq!(c.trace(t).level(), lvl(0.75));

    c.set_level(b, None);
    assert_eq!(c.trace(t).level(), lvl(0.25));
}

#[test]
fn output_to_listener_end_to_end() {
    let mut c = Circuit::new();
    let a = c.new_pin(1, "A", Output);
    let b = c.new_pin(2, "B", Input);
    let t = c.new_trace(&vec![a, b]);
    let d = 4;
    c.attach(b, d);

    assert!(c.pin(a).floating());
    c.set_level(a, lvl(1.0));
    assert_eq!(c.pin(b).level(), lvl(1.0));
    let evs = dev_events(&c, d);
    assert_eq!(evs.len(), 1);
    assert_eq!(evs[0].level, lvl(1.0));
    assert_eq!(evs[0].pin, b);

    c.set_mode(a, Input);
    assert!(c.trace(t).floating());
    assert!(c.pin(b).level().is_none());
}

#[test]
fn set_level_twice_notifies_once() {
    let mut c = Circuit::new();
    let a = c.new_pin(1, "A", Output);
    let b = c.new_pin(2, "B", Input);
    c.new_trace(&vec![a, b]);
    let d = 2;
    c.attach(b, d);

    c.set_level(a, lvl(1.0));
    c.set_level(a, lvl(1.0));
    assert_eq!(dev_events(&c, d).len(), 1);
}

#[test]
fn connect_after_creation() {
    let mut c = Circuit::new();
    let a = c.new_pin(1, "A", Output);
    let b = c.new_pin(2, "B", Input);
    let t = c.new_trace(&vec![a]);
    let t2 = c.new_trace(&vec![]);

    c.set_level(a, lvl(1.0));
    c.add_pin(t, b);
    assert_eq!(c.pin(b).level(), lvl(1.0));

    // A pin wired once stays wired: the second request is a silent no-op.
    c.add_pin(t2, b);
    assert_eq!(c.pin(b).trace, Some(t));
    c.add_pins(t2, &vec![a, b]);
    assert_eq!(c.pin(a).trace, Some(t));
    assert_eq!(c.trace(t2).members().len(), 0);
}

#[test]
fn bus_helpers_move_values() {
    let mut c = Circuit::new();
    let p0 = c.new_pin(0, "D0", Output);
    let p1 = c.new_pin(1, "D1", Output);
    let p2 = c.new_pin(2, "D2", Output);
    let p3 = c.new_pin(3, "D3", Output);
    let bus = vec![p0, p1, p2, p3];

    value_to_pins(0b1010, &mut c, &bus);
    assert_eq!(c.pin(p0).level(), Some(LEVEL_LOW));
    assert_eq!(c.pin(p1).level(), Some(LEVEL_HIGH));
    assert_eq!(c.pin(p2).level(), Some(LEVEL_LOW));
    assert_eq!(c.pin(p3).level(), Some(LEVEL_HIGH));
    assert_eq!(pins_to_value(&c, &bus), 0b1010);

    value_to_pins(0b0110, &mut c, &bus);
    assert_eq!(pins_to_value(&c, &bus), 0b0110);

    none_to_pins(&mut c, &bus);
    assert!(c.pin(p0).floating());
    assert_eq!(pins_to_value(&c, &bus), 0);

    mode_to_pins(Input, &mut c, &bus);
    assert_eq!(c.pin(p0).mode(), Input);
    assert_eq!(c.pin(p3).mode(), Input);
}

#[test]
fn threshold_is_half() {
    let mut c = Circuit::new();
    let p = c.new_pin(1, "A", Output);
    c.set_level(p, lvl(0.5));
    assert!(c.pin(p).high());
    c.set_level(p, lvl(0.499));
    assert!(c.pin(p).low());
    c.set_level(p, lvl(-0.25));
    assert!(c.pin(p).low());
}

#[test]
fn trace_toggle_flips_defined_levels() {
    let mut c = Circuit::new();
    let t = c.new_trace(&vec![]);
    c.trace_clear(t);
    c.trace_toggle(t);
    assert!(c.trace(t).high());
    c.trace_toggle(t);
    assert!(c.trace(t).low());
    c.trace_float(t);
    c.trace_toggle(t);
    assert!(c.trace(t).floating());
}

#[test]
fn equal_drivers_resolve_to_their_level() {
    let mut c = Circuit::new();
    let a = c.new_pin(1, "A", Output);
    let b = c.new_pin(2, "B", Output);
    let t = c.new_trace(&vec![a, b]);
    c.set_level(a, lvl(0.5));
    c.set_level(b, lvl(0.5));
    assert_eq!(c.trace(t).level(), lvl(0.5));
}

#[test]
fn diagnostic_rendering() {
    let mut c = Circuit::new();
    let p = c.new_pin(1, "A", Output);
    let t = c.new_trace(&vec![p]);
    c.set_level(p, lvl(0.75));
    assert_eq!(
        c.describe_pin(p),
        "Pin(number=1, name=A, level=750, float=-, mode=O)"
    );
    assert_eq!(c.describe_trace(t), "Trace(level=750, float=-)");
    c.set_level(p, lvl(-0.25));
    assert_eq!(
        c.describe_pin(p),
        "Pin(number=1, name=A, level=-250, float=-, mode=O)"
    );
    let listing = c.describe_pins(&vec![p]);
    assert!(listing.contains("Pin(number=1"));
}

#[test]
fn push_carries_the_aggregate() {
    let mut c = Circuit::new();
    let a = c.new_pin(1, "A", Output);
    let b = c.new_pin(2, "B", Output);
    let q = c.new_pin(3, "Q", Input);
    let t = c.new_trace(&vec![a, b, q]);
    let d = 5;
    c.attach(q, d);

    c.set_level(a, lvl(0.8));
    assert_eq!(c.pin(q).level(), lvl(0.8));
    assert_eq!(dev_events(&c, d).len(), 1);

    // A lower second driver does not change the aggregate, so the
    // listening pin keeps reading the resolved level and is not notified.
    c.set_level(b, lvl(0.25));
    assert_eq!(c.trace(t).level(), lvl(0.8));
    assert_eq!(c.pin(q).level(), lvl(0.8));
    assert_eq!(dev_events(&c, d).len(), 1);
}

#[test]
fn withdrawal_resolves_before_reaching_members() {
    let mut c = Circuit::new();
    let a = c.new_pin(1, "A", Output);
    let b = c.new_pin(2, "B", Output);
    let q = c.new_pin(3, "Q", Input);
    let t = c.new_trace(&vec![a, b, q]);

    c.set_level(a, lvl(0.25));
    c.set_level(b, lvl(0.8));
    assert_eq!(c.pin(q).level(), lvl(0.8));

    // Withdrawing the stronger driver re-resolves the wire to the
    // remaining one, and that aggregate — not an absent value — reaches
    // the listening pins.  The switched pin itself first adopts the
    // wire's level as it stood, and is excluded from the withdrawal push.
    c.set_mode(b, Input);
    assert_eq!(c.trace(t).level(), lvl(0.25));
    assert_eq!(c.pin(q).level(), lvl(0.25));
    assert_eq!(c.pin(b).level(), lvl(0.8));
}
