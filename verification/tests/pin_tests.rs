use pintrace::circuit::Circuit;
use pintrace::device::LevelChange;
use pintrace::pin::Mode::{Bidirectional, Input, Output, Unconnected};

fn lvl(v: f64) -> Option<i64> {
    Some((v * 1000.0).round() as i64)
}

fn dev_count(c: &Circuit, d: usize) -> usize {
    c.events().iter().filter(|e: &&LevelChange| e.device == d).count()
}

fn dev_level(c: &Circuit, d: usize) -> Option<i64> {
    let mut last = None;
    for e in c.events().iter() {
        if e.device == d {
            last = e.level;
        }
    }
    last
}

#[test]
fn has_number() {
    let mut c = Circuit::new();
    let pin = c.new_pin(1, "A", Unconnected);
    assert_eq!(c.pin(pin).number(), 1);
}

#[test]
fn has_name() {
    let mut c = Circuit::new();
    let pin = c.new_pin(1, "A", Unconnected);
    assert_eq!(c.name(pin), "A");
}

#[test]
fn mode_initial() {
    let mut c = Circuit::new();
    let p1 = c.new_pin(1, "A", Unconnected);
    let p2 = c.new_pin(2, "B", Input);
    let p3 = c.new_pin(3, "C", Output);
    let p4 = c.new_pin(4, "D", Bidirectional);

    assert_eq!(c.pin(p1).mode(), Unconnected);
    assert!(!c.pin(p1).input());
    assert!(!c.pin(p1).output());

    assert_eq!(c.pin(p2).mode(), Input);
    assert!(c.pin(p2).input());
    assert!(!c.pin(p2).output());

    assert_eq!(c.pin(p3).mode(), Output);
    assert!(!c.pin(p3).input());
    assert!(c.pin(p3).output());

    assert_eq!(c.pin(p4).mode(), Bidirectional);
    assert!(c.pin(p4).input());
    assert!(c.pin(p4).output());
}

#[test]
fn mode_change() {
    let mut c = Circuit::new();
    let p = c.new_pin(1, "A", Unconnected);
    assert_eq!(c.pin(p).mode(), Unconnected);

    c.set_mode(p, Input);
    assert_eq!(c.pin(p).mode(), Input);

    c.set_mode(p, Output);
    assert_eq!(c.pin(p).mode(), Output);

    c.set_mode(p, Bidirectional);
    assert_eq!(c.pin(p).mode(), Bidirectional);
}

#[test]
fn mode_out_to_in() {
    let mut c = Circuit::new();
    let p1 = c.new_pin(1, "A", Output);
    let p2 = c.new_pin(2, "B", Input);
    let t = c.new_trace(&vec![p1, p2]);

    c.set(p1);
    assert!(c.trace(t).high());
    c.set_mode(p1, Input);
    assert!(c.trace(t).floating());
}

#[test]
fn mode_bidi_to_in() {
    let mut c = Circuit::new();
    let p = c.new_pin(1, "A", Bidirectional);
    let p2 = c.new_pin(2, "B", Input);
    let t = c.new_trace(&vec![p, p2]);

    c.set(p);
    assert!(c.trace(t).high());
    c.set_mode(p, Input);
    assert!(c.trace(t).floating());
}

#[test]
fn mode_unc_to_in() {
    let mut c = Circuit::new();
    let p = c.new_pin(1, "A", Unconnected);
    let p2 = c.new_pin(2, "B", Input);
    let t = c.new_trace(&vec![p, p2]);

    c.set(p);
    assert!(c.trace(t).floating());
    c.set_mode(p, Input);
    assert!(c.trace(t).floating());
}

#[test]
fn mode_bidi_to_out() {
    let mut c = Circuit::new();
    let p = c.new_pin(1, "A", Bidirectional);
    let t = c.new_trace(&vec![p]);

    c.set(p);
    assert!(c.trace(t).high());
    c.set_mode(p, Output);
    assert!(c.trace(t).high());
}

#[test]
fn mode_unc_to_out() {
    let mut c = Circuit::new();
    let p = c.new_pin(1, "A", Unconnected);
    let t = c.new_trace(&vec![p]);

    c.set(p);
    assert!(c.trace(t).floating());
    c.set_mode(p, Output);
    assert!(c.trace(t).high());
}

#[test]
fn mode_in_to_unc() {
    let mut c = Circuit::new();
    let p = c.new_pin(1, "A", Input);
    let t = c.new_trace(&vec![p]);

    c.trace_set(t);
    assert!(c.pin(p).high());
    c.set_mode(p, Unconnected);
    assert!(c.trace(t).high());
    assert!(c.pin(p).high());
}

#[test]
fn level_no_trace() {
    // An input pin ignores direct level requests unconditionally, wired
    // or not: its level is controlled solely by a trace.
    let mut c = Circuit::new();
    let p = c.new_pin(1, "A", Input);
    assert!(c.pin(p).level().is_none());
    assert!(!c.pin(p).high());
    assert!(!c.pin(p).low());
    assert!(c.pin(p).floating());

    c.set_level(p, lvl(1.0));
    assert!(c.pin(p).level().is_none());
    assert!(!c.pin(p).high());
    assert!(!c.pin(p).low());
    assert!(c.pin(p).floating());

    c.set_level(p, lvl(0.0));
    assert!(c.pin(p).level().is_none());
    assert!(!c.pin(p).high());
    assert!(!c.pin(p).low());
    assert!(c.pin(p).floating());

    c.set_level(p, lvl(0.25));
    assert!(c.pin(p).level().is_none());
    assert!(!c.pin(p).high());
    assert!(!c.pin(p).low());
    assert!(c.pin(p).floating());
}

#[test]
fn level_update_no_trace() {
    let mut c = Circuit::new();
    let p = c.new_pin(1, "A", Input);
    c.update(p, Some(pintrace::level::LEVEL_HIGH));
    c.update(p, None);
    assert!(c.pin(p).level().is_none());
}

#[test]
fn level_unconnected() {
    let mut c = Circuit::new();
    let p = c.new_pin(1, "A", Unconnected);
    let t = c.new_trace(&vec![p]);

    c.trace_set(t);
    assert!(c.pin(p).floating());
    assert!(c.trace(t).high());

    c.set(p);
    assert!(c.pin(p).high());
    assert!(c.trace(t).high());

    c.clear(p);
    assert!(c.pin(p).low());
    assert!(c.trace(t).high());

    c.set_level(p, lvl(0.25));
    assert_eq!(c.pin(p).level().unwrap(), lvl(0.25).unwrap());
    assert!(c.trace(t).high());

    c.float(p);
    assert!(c.pin(p).floating());
    assert!(c.trace(t).high());
}

#[test]
fn level_input() {
    let mut c = Circuit::new();
    let p = c.new_pin(1, "A", Input);
    let t = c.new_trace(&vec![p]);

    c.trace_set(t);
    assert!(c.pin(p).high());
    assert!(c.trace(t).high());

    c.set(p);
    assert!(c.pin(p).high());
    assert!(c.trace(t).high());

    c.clear(p);
    assert!(c.pin(p).high());
    assert!(c.trace(t).high());

    c.set_level(p, lvl(0.25));
    assert_eq!(c.pin(p).level().unwrap(), lvl(1.0).unwrap());
    assert!(c.trace(t).high());

    c.float(p);
    assert!(c.pin(p).high());
    assert!(c.trace(t).high());
}

#[test]
fn level_output() {
    let mut c = Circuit::new();
    let p = c.new_pin(1, "A", Output);
    let t = c.new_trace(&vec![p]);

    c.trace_set(t);
    assert!(c.pin(p).floating());
    assert!(c.trace(t).high());

    c.set(p);
    assert!(c.pin(p).high());
    assert!(c.trace(t).high());

    c.clear(p);
    assert!(c.pin(p).low());
    assert!(c.trace(t).low());

    c.set_level(p, lvl(0.25));
    assert_eq!(c.pin(p).level().unwrap(), lvl(0.25).unwrap());
    assert_eq!(c.trace(t).level().unwrap(), lvl(0.25).unwrap());

    c.float(p);
    assert!(c.pin(p).floating());
    assert!(c.trace(t).floating());
}

#[test]
fn level_bidirectional() {
    let mut c = Circuit::new();
    let p = c.new_pin(1, "A", Bidirectional);
    let t = c.new_trace(&vec![p]);

    c.trace_set(t);
    assert!(c.pin(p).high());
    assert!(c.trace(t).high());

    c.set(p);
    assert!(c.pin(p).high());
    assert!(c.trace(t).high());

    c.clear(p);
    assert!(c.pin(p).low());
    assert!(c.trace(t).low());

    // The pin now drives the wire at its own level (a Bidirectional pin
    // with a defined level counts as a driver), so a direct request is
    // overridden by the aggregate.
    c.trace_set_level(t, lvl(0.25));
    assert_eq!(c.pin(p).level().unwrap(), lvl(0.0).unwrap());
    assert_eq!(c.trace(t).level().unwrap(), lvl(0.0).unwrap());

    c.float(p);
    assert!(c.pin(p).floating());
    assert!(c.trace(t).floating());
}

#[test]
fn level_toggle_high() {
    let mut c = Circuit::new();
    let p = c.new_pin(1, "A", Unconnected);
    c.clear(p);
    c.toggle(p);
    assert!(c.pin(p).high());
}

#[test]
fn level_toggle_low() {
    let mut c = Circuit::new();
    let p = c.new_pin(1, "A", Unconnected);
    c.set(p);
    c.toggle(p);
    assert!(c.pin(p).low());
}

#[test]
fn level_toggle_float() {
    let mut c = Circuit::new();
    let p = c.new_pin(1, "A", Unconnected);
    c.float(p);
    c.toggle(p);
    assert!(c.pin(p).floating());
}

#[test]
fn pin_pull_up_initial() {
    let mut c = Circuit::new();
    let p = c.new_pin(1, "A", Output);
    c.pull_up(p);
    assert!(c.pin(p).high());
}

#[test]
fn pull_up_unconnected() {
    let mut c = Circuit::new();
    let p = c.new_pin(1, "A", Unconnected);
    c.pull_up(p);

    c.clear(p);
    assert!(c.pin(p).low());
    c.float(p);
    assert!(c.pin(p).high());
}

#[test]
fn pin_pull_up_input() {
    let mut c = Circuit::new();
    let p = c.new_pin(1, "A", Input);
    c.pull_up(p);
    let t = c.new_trace(&vec![p]);

    c.trace_clear(t);
    assert!(c.pin(p).low());
    c.trace_float(t);
    assert!(c.pin(p).high());
}

#[test]
fn pull_up_output() {
    let mut c = Circuit::new();
    let p = c.new_pin(1, "A", Output);
    c.pull_up(p);
    let t = c.new_trace(&vec![p]);

    c.clear(p);
    assert!(c.trace(t).low());
    c.float(p);
    assert!(c.trace(t).high());
}

#[test]
fn pull_up_bidirectional() {
    let mut c = Circuit::new();
    let p = c.new_pin(1, "A", Bidirectional);
    c.pull_up(p);
    let t = c.new_trace(&vec![p]);

    c.clear(p);
    assert!(c.trace(t).low());
    c.float(p);
    assert!(c.trace(t).high());
}

#[test]
fn pull_up_after() {
    let mut c = Circuit::new();
    let p = c.new_pin(1, "A", Unconnected);
    assert!(c.pin(p).floating());
    c.pull_up(p);
    assert!(c.pin(p).high());
}

#[test]
fn pin_pull_down_initial() {
    let mut c = Circuit::new();
    let p = c.new_pin(1, "A", Output);
    c.pull_down(p);
    assert!(c.pin(p).low());
}

#[test]
fn pull_down_unconnected() {
    let mut c = Circuit::new();
    let p = c.new_pin(1, "A", Unconnected);
    c.pull_down(p);

    c.set(p);
    assert!(c.pin(p).high());
    c.float(p);
    assert!(c.pin(p).low());
}

#[test]
fn pin_pull_down_input() {
    let mut c = Circuit::new();
    let p = c.new_pin(1, "A", Input);
    c.pull_down(p);
    let t = c.new_trace(&vec![p]);

    c.trace_set(t);
    assert!(c.pin(p).high());
    c.trace_float(t);
    assert!(c.pin(p).low());
}

#[test]
fn pull_down_output() {
    let mut c = Circuit::new();
    let p = c.new_pin(1, "A", Output);
    c.pull_down(p);
    let t = c.new_trace(&vec![p]);

    c.set(p);
    assert!(c.trace(t).high());
    c.float(p);
    assert!(c.trace(t).low());
}

#[test]
fn pull_down_bidirectional() {
    let mut c = Circuit::new();
    let p = c.new_pin(1, "A", Bidirectional);
    c.pull_down(p);
    let t = c.new_trace(&vec![p]);

    c.set(p);
    assert!(c.trace(t).high());
    c.float(p);
    assert!(c.trace(t).low());
}

#[test]
fn pull_down_after() {
    let mut c = Circuit::new();
    let p = c.new_pin(1, "A", Unconnected);
    assert!(c.pin(p).floating());
    c.pull_down(p);
    assert!(c.pin(p).low());
}

#[test]
fn pin_pull_off_initial() {
    let mut c = Circuit::new();
    let p = c.new_pin(1, "A", Output);
    c.pull_off(p);
    assert!(c.pin(p).floating());
}

#[test]
fn pull_off_pull_up() {
    let mut c = Circuit::new();
    let p = c.new_pin(1, "A", Output);
    c.pull_up(p);

    c.float(p);
    assert!(c.pin(p).high());
    c.pull_off(p);
    c.float(p);
    assert!(c.pin(p).floating());
}

#[test]
fn pull_off_pull_down() {
    let mut c = Circuit::new();
    let p = c.new_pin(1, "A", Output);
    c.pull_down(p);

    c.float(p);
    assert!(c.pin(p).low());
    c.pull_off(p);
    c.float(p);
    assert!(c.pin(p).floating());
}

#[test]
fn observer_unconnected() {
    let mut c = Circuit::new();
    let p = c.new_pin(1, "A", Unconnected);
    let t = c.new_trace(&vec![p]);

    let d = 1;
    c.attach(p, d);

    c.trace_set(t);
    assert_eq!(dev_count(&c, d), 0);
    assert!(dev_level(&c, d).is_none());
}

#[test]
fn observer_input() {
    let mut c = Circuit::new();
    let p = c.new_pin(1, "A", Input);
    let t = c.new_trace(&vec![p]);

    let d = 1;
    c.attach(p, d);

    c.trace_set(t);
    assert_eq!(dev_count(&c, d), 1);
    assert_eq!(dev_level(&c, d).unwrap(), lvl(1.0).unwrap());
}

#[test]
fn observer_output() {
    let mut c = Circuit::new();
    let p = c.new_pin(1, "A", Output);
    let t = c.new_trace(&vec![p]);

    let d = 1;
    c.attach(p, d);

    c.trace_set(t);
    assert_eq!(dev_count(&c, d), 0);
    assert!(dev_level(&c, d).is_none());
}

#[test]
fn observer_bidirectional() {
    let mut c = Circuit::new();
    let p = c.new_pin(1, "A", Bidirectional);
    let t = c.new_trace(&vec![p]);

    let d = 1;
    c.attach(p, d);

    c.trace_set(t);
    assert_eq!(dev_count(&c, d), 1);
    assert_eq!(dev_level(&c, d).unwrap(), lvl(1.0).unwrap());
}

#[test]
fn observer_direct() {
    let mut c = Circuit::new();
    let p = c.new_pin(1, "A", Input);

    let d = 1;
    c.attach(p, d);

    c.set(p);
    assert_eq!(dev_count(&c, d), 0);
}

#[test]
fn observer_detach() {
    let mut c = Circuit::new();
    let p = c.new_pin(1, "A", Input);
    let t = c.new_trace(&vec![p]);

    let d = 1;
    c.attach(p, d);

    c.trace_set(t);
    assert_eq!(dev_count(&c, d), 1);

    c.detach(p);

    c.trace_clear(t);
    assert_eq!(dev_count(&c, d), 1);
}

#[test]
fn observer_non_existent() {
    let mut c = Circuit::new();
    let p = c.new_pin(1, "A", Input);
    let t = c.new_trace(&vec![p]);

    let d = 1;

    c.trace_set(t);
    assert_eq!(dev_count(&c, d), 0);

    c.detach(p);

    c.trace_clear(t);
    assert_eq!(dev_count(&c, d), 0);
}
