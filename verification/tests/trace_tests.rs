use pintrace::circuit::Circuit;
use pintrace::device::LevelChange;
use pintrace::pin::Mode::{Bidirectional, Input, Output, Unconnected};

fn lvl(v: f64) -> Option<i64> {
    Some((v * 1000.0).round() as i64)
}

fn dev_count(c: &Circuit, d: usize) -> usize {
    c.events().iter().filter(|e: &&LevelChange| e.device == d).count()
}

#[test]
fn no_add_twice() {
    let mut c = Circuit::new();
    let p = c.new_pin(1, "A", Input);
    let t = c.new_trace(&vec![p, p]);

    let d = 1;
    c.attach(p, d);

    c.trace_set(t);
    assert_eq!(dev_count(&c, d), 1);
}

#[test]
fn level_direct_unconnected() {
    let mut c = Circuit::new();
    let t = c.new_trace(&vec![]);

    c.trace_set(t);
    assert!(c.trace(t).high());
    assert!(!c.trace(t).low());
    assert!(!c.trace(t).floating());

    c.trace_clear(t);
    assert!(!c.trace(t).high());
    assert!(c.trace(t).low());
    assert!(!c.trace(t).floating());

    c.trace_float(t);
    assert!(!c.trace(t).high());
    assert!(!c.trace(t).low());
    assert!(c.trace(t).floating());

    c.trace_set_level(t, lvl(-0.25));
    assert_eq!(c.trace(t).level().unwrap(), lvl(-0.25).unwrap());
}

#[test]
fn level_direct_input() {
    let mut c = Circuit::new();
    let p = c.new_pin(1, "A", Input);
    let t = c.new_trace(&vec![p]);

    c.trace_set(t);
    assert!(c.trace(t).high());
    c.trace_clear(t);
    assert!(c.trace(t).low());
    c.trace_float(t);
    assert!(c.trace(t).floating());
    c.trace_set_level(t, lvl(-0.25));
    assert_eq!(c.trace(t).level().unwrap(), lvl(-0.25).unwrap());
}

#[test]
fn level_direct_output_high() {
    let mut c = Circuit::new();
    let p1 = c.new_pin(1, "HI", Output);
    let p2 = c.new_pin(2, "LO", Output);
    let t = c.new_trace(&vec![p1, p2]);

    c.set(p1);
    c.clear(p2);

    c.trace_set(t);
    assert!(c.trace(t).high());
    c.trace_clear(t);
    assert!(c.trace(t).high());
    c.trace_float(t);
    assert!(c.trace(t).high());
    c.trace_set_level(t, lvl(0.25));
    assert!(c.trace(t).high());
}

#[test]
fn level_direct_output_low() {
    let mut c = Circuit::new();
    let p1 = c.new_pin(1, "HI", Output);
    let p2 = c.new_pin(2, "LO", Output);
    let t = c.new_trace(&vec![p1, p2]);

    c.clear(p1);
    c.clear(p2);

    c.trace_set(t);
    assert!(c.trace(t).low());
    c.trace_clear(t);
    assert!(c.trace(t).low());
    c.trace_float(t);
    assert!(c.trace(t).low());
    c.trace_set_level(t, lvl(0.75));
    assert!(c.trace(t).low());
}

#[test]
fn level_direct_output_float() {
    let mut c = Circuit::new();
    let p1 = c.new_pin(1, "HI", Output);
    let p2 = c.new_pin(2, "LO", Output);
    let t = c.new_trace(&vec![p1, p2]);

    c.float(p1);
    c.float(p2);

    c.trace_set(t);
    assert!(c.trace(t).high());
    c.trace_clear(t);
    assert!(c.trace(t).low());
    c.trace_float(t);
    assert!(c.trace(t).floating());
    c.trace_set_level(t, lvl(0.25));
    assert_eq!(c.trace(t).level().unwrap(), lvl(0.25).unwrap());
}

#[test]
fn level_pin_unconnected() {
    let mut c = Circuit::new();
    let p = c.new_pin(1, "A", Unconnected);
    let t = c.new_trace(&vec![p]);
    c.trace_clear(t);

    c.set(p);
    assert!(c.trace(t).low());
    assert!(c.pin(p).high());
}

#[test]
fn level_pin_input() {
    let mut c = Circuit::new();
    let p = c.new_pin(1, "A", Input);
    let t = c.new_trace(&vec![p]);
    c.trace_clear(t);

    c.set(p);
    assert!(c.trace(t).low());
    assert!(c.pin(p).low());
}

#[test]
fn level_pin_ouput() {
    let mut c = Circuit::new();
    let p = c.new_pin(1, "A", Output);
    let t = c.new_trace(&vec![p]);
    c.trace_clear(t);

    c.set(p);
    assert!(c.trace(t).high());
    assert!(c.pin(p).high());
}

#[test]
fn level_pin_bidirectional() {
    let mut c = Circuit::new();
    let p = c.new_pin(1, "A", Bidirectional);
    let t = c.new_trace(&vec![p]);
    c.trace_clear(t);

    c.set(p);
    assert!(c.trace(t).high());
    assert!(c.pin(p).high());

    // The pin keeps driving the wire: a Bidirectional pin with a defined
    // level counts as a driver, so a direct float request is overridden.
    c.trace_float(t);
    assert!(c.trace(t).high());
    assert!(c.pin(p).high());
}

#[test]
fn level_pin_outputs_high() {
    let mut c = Circuit::new();
    let p1 = c.new_pin(1, "A", Output);
    let p2 = c.new_pin(2, "B", Output);
    let p3 = c.new_pin(3, "C", Output);
    let t = c.new_trace(&vec![p1, p2, p3]);

    c.set(p2);
    c.set(p3);

    c.clear(p1);
    assert!(c.trace(t).high());
}

#[test]
fn level_pin_outputs_low() {
    let mut c = Circuit::new();
    let p1 = c.new_pin(1, "A", Output);
    let p2 = c.new_pin(2, "B", Output);
    let p3 = c.new_pin(3, "C", Output);
    let t = c.new_trace(&vec![p1, p2, p3]);

    c.clear(p2);
    c.clear(p3);

    c.set(p1);
    assert!(c.trace(t).high());
}

#[test]
fn trace_pull_up_initial() {
    let mut c = Circuit::new();
    let t = c.new_trace(&vec![]);
    c.trace_pull_up(t);
    assert!(c.trace(t).high());
}

#[test]
fn trace_pull_up_input() {
    let mut c = Circuit::new();
    let p = c.new_pin(1, "A", Output);
    let t = c.new_trace(&vec![p]);
    c.trace_pull_up(t);

    c.clear(p);
    assert!(c.trace(t).low());
    c.set_mode(p, Input);
    assert!(c.trace(t).high());
}

#[test]
fn pull_up_output_none() {
    let mut c = Circuit::new();
    let p = c.new_pin(1, "A", Input);
    let t = c.new_trace(&vec![p]);
    c.trace_pull_up(t);
    assert!(c.trace(t).high());
}

#[test]
fn pull_up_output_high() {
    let mut c = Circuit::new();
    let p1 = c.new_pin(1, "A", Output);
    let p2 = c.new_pin(2, "B", Output);
    c.set(p1);
    c.clear(p2);
    let t = c.new_trace(&vec![p1, p2]);
    c.trace_pull_up(t);
    assert!(c.trace(t).high());
}

#[test]
fn pull_up_output_low() {
    let mut c = Circuit::new();
    let p1 = c.new_pin(1, "A", Output);
    let p2 = c.new_pin(2, "B", Output);
    c.clear(p1);
    c.clear(p2);
    let t = c.new_trace(&vec![p1, p2]);
    c.trace_pull_up(t);
    assert!(c.trace(t).low());
}

#[test]
fn pull_up_output_floating() {
    let mut c = Circuit::new();
    let p1 = c.new_pin(1, "A", Output);
    let p2 = c.new_pin(2, "B", Output);
    c.float(p1);
    c.float(p2);
    let t = c.new_trace(&vec![p1, p2]);
    c.trace_pull_up(t);
    assert!(c.trace(t).high());
}

#[test]
fn trace_pull_down_initial() {
    let mut c = Circuit::new();
    let t = c.new_trace(&vec![]);
    c.trace_pull_down(t);
    assert!(c.trace(t).low());
}

#[test]
fn trace_pull_down_input() {
    let mut c = Circuit::new();
    let p = c.new_pin(1, "A", Output);
    let t = c.new_trace(&vec![p]);
    c.trace_pull_down(t);

    c.set(p);
    assert!(c.trace(t).high());
    c.set_mode(p, Input);
    assert!(c.trace(t).low());
}

#[test]
fn pull_down_output_none() {
    let mut c = Circuit::new();
    let p = c.new_pin(1, "A", Input);
    let t = c.new_trace(&vec![p]);
    c.trace_pull_down(t);
    assert!(c.trace(t).low());
}

#[test]
fn pull_down_output_high() {
    let mut c = Circuit::new();
    let p1 = c.new_pin(1, "A", Output);
    let p2 = c.new_pin(2, "B", Output);
    c.set(p1);
    c.clear(p2);
    let t = c.new_trace(&vec![p1, p2]);
    c.trace_pull_down(t);
    assert!(c.trace(t).high());
}

#[test]
fn pull_down_output_low() {
    let mut c = Circuit::new();
    let p1 = c.new_pin(1, "A", Output);
    let p2 = c.new_pin(2, "B", Output);
    c.clear(p1);
    c.clear(p2);
    let t = c.new_trace(&vec![p1, p2]);
    c.trace_pull_down(t);
    assert!(c.trace(t).low());
}

#[test]
fn pull_down_output_floating() {
    let mut c = Circuit::new();
    let p1 = c.new_pin(1, "A", Output);
    let p2 = c.new_pin(2, "B", Output);
    c.float(p1);
    c.float(p2);
    let t = c.new_trace(&vec![p1, p2]);
    c.trace_pull_down(t);
    assert!(c.trace(t).low());
}

#[test]
fn trace_pull_off_initial() {
    let mut c = Circuit::new();
    let t = c.new_trace(&vec![]);
    c.trace_pull_off(t);
    assert!(c.trace(t).floating());
}

#[test]
fn pull_off_input() {
    let mut c = Circuit::new();
    let p = c.new_pin(1, "A", Output);
    let t = c.new_trace(&vec![p]);
    c.trace_pull_off(t);

    c.set(p);
    assert!(c.trace(t).high());
    c.set_mode(p, Input);
    assert!(c.trace(t).floating());
}

#[test]
fn pull_off_output_none() {
    let mut c = Circuit::new();
    let p = c.new_pin(1, "A", Input);
    let t = c.new_trace(&vec![p]);
    c.trace_pull_off(t);
    assert!(c.trace(t).floating());
}

#[test]
fn pull_off_output_high() {
    let mut c = Circuit::new();
    let p1 = c.new_pin(1, "A", Output);
    let p2 = c.new_pin(2, "B", Output);
    c.set(p1);
    c.clear(p2);
    let t = c.new_trace(&vec![p1, p2]);
    c.trace_pull_off(t);
    assert!(c.trace(t).high());
}

#[test]
fn pull_off_output_low() {
    let mut c = Circuit::new();
    let p1 = c.new_pin(1, "A", Output);
    let p2 = c.new_pin(2, "B", Output);
    c.clear(p1);
    c.clear(p2);
    let t = c.new_trace(&vec![p1, p2]);
    c.trace_pull_off(t);
    assert!(c.trace(t).low());
}

#[test]
fn pull_off_output_floating() {
    let mut c = Circuit::new();
    let p1 = c.new_pin(1, "A", Output);
    let p2 = c.new_pin(2, "B", Output);
    c.float(p1);
    c.float(p2);
    let t = c.new_trace(&vec![p1, p2]);
    c.trace_pull_off(t);
    assert!(c.trace(t).floating());
}
