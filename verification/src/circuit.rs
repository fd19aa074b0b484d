//! The circuit arena and the level-propagation algorithm.
//!
//! Pins, traces and devices form a cyclic graph: a pin knows its trace and
//! its observer, a trace knows its pins.  The kernel therefore keeps every
//! pin and trace in one arena, the [`Circuit`], and addresses them by index;
//! a mutation that has to re-read the graph receives the mutated pin's new
//! value as an explicit parameter and excludes that one pin from its scan,
//! so no state is ever read through a handle that is being mutated.
//!
//! The whole behaviour of the kernel is captured by a mathematical model:
//! [`NetModel`] is the abstract state, and every operation's postcondition
//! equates the circuit's new state with a spec-level transition function of
//! the old one.

use vstd::prelude::*;
use crate::level::{Level, spec_normalize, spec_high, spec_low, LEVEL_HIGH, LEVEL_LOW};
use crate::level::normalize;
use crate::pin::{Mode, Pin};
use crate::trace::Trace;
use crate::device::LevelChange;

verus! {

/// The abstract state of one trace: its level, its pull default and the
/// indices of its member pins, in insertion order.
#[verifier::ext_equal]
pub struct TraceModel {
    pub level: Level,
    pub float: Level,
    pub pins: Seq<usize>,
}

/// The abstract state of a circuit: its pins, its traces and the log of
/// notifications raised so far, in order.
#[verifier::ext_equal]
pub struct NetModel {
    pub pins: Seq<Pin>,
    pub traces: Seq<TraceModel>,
    pub events: Seq<LevelChange>,
}

/// A pin currently acting as a driver of its trace: it is in `Output` or
/// `Bidirectional` mode and holds a defined level.
pub open spec fn spec_driver(p: Pin) -> bool {
    (p.mode == Mode::Output || p.mode == Mode::Bidirectional) && p.level is Some
}

/// The maximum level among the drivers of `members`, excluding the pin
/// `excl` that is mid-mutation; `None` if there is no such driver.
pub open spec fn driver_max(pins: Seq<Pin>, members: Seq<usize>, excl: Option<usize>) -> Level
    decreases members.len(),
{
    if members.len() == 0 {
        None
    } else {
        let rest = driver_max(pins, members.drop_last(), excl);
        let i = members.last();
        if excl != Some(i) && (i as int) < pins.len() && spec_driver(pins[i as int]) {
            match rest {
                None => pins[i as int].level,
                Some(m) => if pins[i as int].level->0 > m {
                    pins[i as int].level
                } else {
                    Some(m)
                },
            }
        } else {
            rest
        }
    }
}

/// The resolution rule for a trace's level.  If some pin in `Output` or
/// `Bidirectional` mode holds a defined level, the aggregate is those
/// drivers' maximum — except that a value just set by a pin (`from_pin`)
/// wins when it exceeds that maximum, since the mid-mutation pin itself is
/// excluded from the scan.  With no driver, the incoming value stands, or
/// the trace's pull default if it is absent.
pub open spec fn resolved_level(
    pins: Seq<Pin>,
    members: Seq<usize>,
    float: Level,
    incoming: Level,
    excl: Option<usize>,
    from_pin: bool,
) -> Level {
    match driver_max(pins, members, excl) {
        Some(m) => if from_pin && incoming is Some && incoming->0 > m {
            incoming
        } else {
            Some(m)
        },
        None => if incoming is Some {
            incoming
        } else {
            float
        },
    }
}

/// One pin's reaction to a level pushed by its trace: an input-capable pin
/// adopts the normalized value when it differs from the current level; any
/// other pin ignores the push.
pub open spec fn pin_updated(p: Pin, l: Level) -> Pin {
    let n = spec_normalize(l, p.float);
    if p.spec_input() && n != p.level {
        Pin { level: n, ..p }
    } else {
        p
    }
}

/// Whether the push of `l` notifies the pin's observer: the level actually
/// changes on an input-capable pin that has one.
pub open spec fn update_notifies(p: Pin, l: Level) -> bool {
    p.spec_input() && spec_normalize(l, p.float) != p.level && p.observer is Some
}

/// The pins after a trace pushed the level `l` to each member but the
/// excluded mid-mutation pin, in membership order.
pub open spec fn pins_after_push(
    pins: Seq<Pin>,
    members: Seq<usize>,
    l: Level,
    excl: Option<usize>,
) -> Seq<Pin>
    decreases members.len(),
{
    if members.len() == 0 {
        pins
    } else {
        let prev = pins_after_push(pins, members.drop_last(), l, excl);
        let i = members.last();
        if excl != Some(i) && (i as int) < prev.len() {
            prev.update(i as int, pin_updated(prev[i as int], l))
        } else {
            prev
        }
    }
}

/// The notifications raised by that same push, in membership order.
pub open spec fn events_after_push(
    pins: Seq<Pin>,
    members: Seq<usize>,
    l: Level,
    excl: Option<usize>,
) -> Seq<LevelChange>
    decreases members.len(),
{
    if members.len() == 0 {
        Seq::empty()
    } else {
        let rest = events_after_push(pins, members.drop_last(), l, excl);
        let prev = pins_after_push(pins, members.drop_last(), l, excl);
        let i = members.last();
        if excl != Some(i) && (i as int) < prev.len() && update_notifies(prev[i as int], l) {
            rest.push(LevelChange {
                pin: i,
                device: prev[i as int].observer->0,
                level: spec_normalize(l, prev[i as int].float),
            })
        } else {
            rest
        }
    }
}

impl NetModel {
    /// Well-formedness of the graph: member indices are in bounds and
    /// distinct, and the pin-to-trace and trace-to-pin links agree.
    pub open spec fn wf(self) -> bool {
        &&& forall|t: int, k: int|
            0 <= t < self.traces.len() && 0 <= k < self.traces[t].pins.len()
                ==> (#[trigger] self.traces[t].pins[k]) < self.pins.len()
                    && self.pins[self.traces[t].pins[k] as int].trace == Some(t as usize)
        &&& forall|t: int, k1: int, k2: int|
            0 <= t < self.traces.len() && 0 <= k1 < self.traces[t].pins.len()
                && 0 <= k2 < self.traces[t].pins.len() && k1 != k2
                ==> (#[trigger] self.traces[t].pins[k1]) != (#[trigger] self.traces[t].pins[k2])
        &&& forall|i: int|
            0 <= i < self.pins.len() && (#[trigger] self.pins[i]).trace is Some
                ==> (self.pins[i].trace->0 as int) < self.traces.len()
                    && self.traces[self.pins[i].trace->0 as int].pins.contains(i as usize)
    }
}

/// The trace transition for the pin-originated path: the aggregate is
/// recomputed with the mid-mutation pin excluded, and that aggregate is
/// pushed to the other members, so no member ever reads a value the
/// resolution has already overridden.
pub open spec fn trace_updated_model(m: NetModel, t: int, incoming: Level, from: usize) -> NetModel {
    let tr = m.traces[t];
    let nl = resolved_level(m.pins, tr.pins, tr.float, incoming, Some(from), true);
    NetModel {
        pins: pins_after_push(m.pins, tr.pins, nl, Some(from)),
        traces: m.traces.update(t, TraceModel { level: nl, ..tr }),
        events: m.events + events_after_push(m.pins, tr.pins, nl, Some(from)),
    }
}

/// The trace transition for the direct path: the aggregate is recomputed
/// over all members and that aggregate is pushed to every member.
pub open spec fn trace_set_model(m: NetModel, t: int, incoming: Level) -> NetModel {
    let tr = m.traces[t];
    let nl = resolved_level(m.pins, tr.pins, tr.float, incoming, None, false);
    NetModel {
        pins: pins_after_push(m.pins, tr.pins, nl, None),
        traces: m.traces.update(t, TraceModel { level: nl, ..tr }),
        events: m.events + events_after_push(m.pins, tr.pins, nl, None),
    }
}

/// The transition of one pin told of a pushed level: an input-capable pin
/// adopts the normalized value if it differs, and its observer, if any, is
/// notified of the change.
pub open spec fn pin_update_model(m: NetModel, p: int, l: Level) -> NetModel {
    NetModel {
        pins: m.pins.update(p, pin_updated(m.pins[p], l)),
        events: if update_notifies(m.pins[p], l) {
            m.events.push(LevelChange {
                pin: p as usize,
                device: m.pins[p].observer->0,
                level: spec_normalize(l, m.pins[p].float),
            })
        } else {
            m.events
        },
        ..m
    }
}

/// The transition of a direct level request on a pin, interpreted by mode:
/// an input pin ignores the request unconditionally, unconnected or
/// wireless pins change locally, and driving pins adopt the normalized
/// value and push it to their trace.
pub open spec fn pin_set_level_model(m: NetModel, p: int, l: Level) -> NetModel {
    let pin = m.pins[p];
    let n = spec_normalize(l, pin.float);
    if pin.mode == Mode::Input {
        m
    } else {
        match pin.trace {
            None => NetModel { pins: m.pins.update(p, Pin { level: n, ..pin }), ..m },
            Some(t) => match pin.mode {
                Mode::Unconnected => NetModel {
                    pins: m.pins.update(p, Pin { level: n, ..pin }),
                    ..m
                },
                _ => {
                    let m1 = NetModel { pins: m.pins.update(p, Pin { level: n, ..pin }), ..m };
                    trace_updated_model(m1, t as int, n, p as usize)
                },
            },
        }
    }
}

/// The transition of a toggle: a high pin is set low, a low pin is set
/// high, and a floating pin is left alone.
pub open spec fn pin_toggle_model(m: NetModel, p: int) -> NetModel {
    if spec_high(m.pins[p].level) {
        pin_set_level_model(m, p, Some(LEVEL_LOW))
    } else if spec_low(m.pins[p].level) {
        pin_set_level_model(m, p, Some(LEVEL_HIGH))
    } else {
        m
    }
}

/// The transition of a mode change.  A pin that starts driving pushes its
/// level to the trace; a pin that starts listening adopts the trace's
/// level; and a pin that stops driving while holding a defined level tells
/// the trace that this driver's value is now absent.
pub open spec fn pin_set_mode_model(m: NetModel, p: int, mode: Mode) -> NetModel {
    let pin = m.pins[p];
    let m1 = NetModel { pins: m.pins.update(p, Pin { mode, ..pin }), ..m };
    match pin.trace {
        None => m1,
        Some(t) => {
            if mode == Mode::Output || mode == Mode::Bidirectional {
                trace_updated_model(m1, t as int, pin.level, p as usize)
            } else {
                let m2 = if mode == Mode::Input {
                    NetModel {
                        pins: m.pins.update(p, Pin {
                            mode,
                            level: spec_normalize(m.traces[t as int].level, pin.float),
                            ..pin
                        }),
                        ..m
                    }
                } else {
                    m1
                };
                if pin.level is Some && (pin.mode == Mode::Output || pin.mode
                    == Mode::Bidirectional) {
                    trace_updated_model(m2, t as int, None, p as usize)
                } else {
                    m2
                }
            }
        },
    }
}

/// The transition of a toggle on a trace, over the direct path.
pub open spec fn trace_toggle_model(m: NetModel, t: int) -> NetModel {
    if spec_high(m.traces[t].level) {
        trace_set_model(m, t, Some(LEVEL_LOW))
    } else if spec_low(m.traces[t].level) {
        trace_set_model(m, t, Some(LEVEL_HIGH))
    } else {
        m
    }
}

/// The transition of changing a trace's pull default: the new default is
/// stored and the level re-resolved at once over the direct path.
pub open spec fn trace_pull_model(m: NetModel, t: int, f: Level) -> NetModel {
    let m1 = NetModel {
        traces: m.traces.update(t, TraceModel { float: f, ..m.traces[t] }),
        ..m
    };
    trace_set_model(m1, t, m.traces[t].level)
}

/// The transition of connecting one pin to a trace: a pin already wired
/// (to any trace) is left alone, a silent no-op; otherwise the pin joins
/// the membership, the association is recorded, and the trace's level is
/// re-resolved over the direct path.
pub open spec fn trace_add_pin_model(m: NetModel, t: int, p: int) -> NetModel {
    if m.pins[p].trace is None {
        let m1 = NetModel {
            pins: m.pins.update(p, Pin { trace: Some(t as usize), ..m.pins[p] }),
            traces: m.traces.update(t, TraceModel {
                pins: m.traces[t].pins.push(p as usize),
                ..m.traces[t]
            }),
            ..m
        };
        trace_set_model(m1, t, m1.traces[t].level)
    } else {
        m
    }
}

/// The transition of connecting a list of pins, one after the other, each
/// through the single-pin connect transition.
pub open spec fn trace_add_pins_model(m: NetModel, t: int, ids: Seq<usize>) -> NetModel
    decreases ids.len(),
{
    if ids.len() == 0 {
        m
    } else {
        trace_add_pin_model(trace_add_pins_model(m, t, ids.drop_last()), t, ids.last() as int)
    }
}

/// The wiring step of trace creation: each listed pin that is not yet
/// wired anywhere joins the membership and records the association; the
/// trace's level is not recomputed.
pub open spec fn wired_model(m: NetModel, t: int, ids: Seq<usize>) -> NetModel
    decreases ids.len(),
{
    if ids.len() == 0 {
        m
    } else {
        let m1 = wired_model(m, t, ids.drop_last());
        let p = ids.last();
        if (p as int) < m1.pins.len() && m1.pins[p as int].trace is None {
            NetModel {
                pins: m1.pins.update(p as int, Pin { trace: Some(t as usize), ..m1.pins[p as int] }),
                traces: m1.traces.update(t, TraceModel {
                    pins: m1.traces[t].pins.push(p),
                    ..m1.traces[t]
                }),
                ..m1
            }
        } else {
            m1
        }
    }
}

/// The transition of trace creation: a fresh trace with no level and no
/// pull, wired to the listed pins.
pub open spec fn new_trace_model(m: NetModel, ids: Seq<usize>) -> NetModel {
    let m1 = NetModel {
        traces: m.traces.push(TraceModel { level: None, float: None, pins: Seq::empty() }),
        ..m
    };
    wired_model(m1, m.traces.len() as int, ids)
}

/// Well-formedness depends only on the link structure: two states with the
/// same pin-to-trace fields and the same memberships are equally
/// well-formed.
pub proof fn lemma_wf_same_links(m1: NetModel, m2: NetModel)
    requires
        m1.wf(),
        m2.traces.len() == m1.traces.len(),
        forall|t: int|
            0 <= t < m1.traces.len() ==> (#[trigger] m2.traces[t]).pins == m1.traces[t].pins,
        m2.pins.len() == m1.pins.len(),
        forall|i: int|
            0 <= i < m1.pins.len() ==> (#[trigger] m2.pins[i]).trace == m1.pins[i].trace,
    ensures
        m2.wf(),
{
}

/// Linking an unwired pin into a trace preserves well-formedness.
pub proof fn lemma_wf_link(m: NetModel, t: usize, p: usize)
    requires
        m.wf(),
        (t as int) < m.traces.len(),
        (p as int) < m.pins.len(),
        m.pins[p as int].trace is None,
    ensures
        (NetModel {
            pins: m.pins.update(p as int, Pin { trace: Some(t), ..m.pins[p as int] }),
            traces: m.traces.update(t as int, TraceModel {
                pins: m.traces[t as int].pins.push(p),
                ..m.traces[t as int]
            }),
            ..m
        }).wf(),
{
    let t = t as int;
    let p = p as int;
    let m2 = NetModel {
        pins: m.pins.update(p, Pin { trace: Some(t as usize), ..m.pins[p] }),
        traces: m.traces.update(t, TraceModel {
            pins: m.traces[t].pins.push(p as usize),
            ..m.traces[t]
        }),
        ..m
    };
    assert forall|tt: int, k: int|
        0 <= tt < m2.traces.len() && 0 <= k < m2.traces[tt].pins.len() implies (#[trigger] m2.traces[tt].pins[k])
        < m2.pins.len() && m2.pins[m2.traces[tt].pins[k] as int].trace == Some(tt as usize) by {
        if tt == t && k == m.traces[t].pins.len() {
            assert(m2.traces[t].pins[k] == p as usize);
            assert(m2.pins[p].trace == Some(t as usize));
        } else {
            assert(m2.traces[tt].pins[k] == m.traces[tt].pins[k]);
            let q = m.traces[tt].pins[k] as int;
            assert(m.pins[q].trace == Some(tt as usize));
            assert(q != p);
            assert(m2.pins[q] == m.pins[q]);
        }
    }
    assert forall|tt: int, k1: int, k2: int|
        0 <= tt < m2.traces.len() && 0 <= k1 < m2.traces[tt].pins.len() && 0 <= k2
        < m2.traces[tt].pins.len() && k1 != k2 implies (#[trigger] m2.traces[tt].pins[k1])
        != (#[trigger] m2.traces[tt].pins[k2]) by {
        if tt == t {
            if k1 == m.traces[t].pins.len() {
                assert(m2.traces[t].pins[k1] == p as usize);
                assert(m2.traces[t].pins[k2] == m.traces[t].pins[k2]);
                assert(m.pins[m.traces[t].pins[k2] as int].trace == Some(t as usize));
                assert(m.traces[t].pins[k2] != p as usize);
            } else if k2 == m.traces[t].pins.len() {
                assert(m2.traces[t].pins[k2] == p as usize);
                assert(m2.traces[t].pins[k1] == m.traces[t].pins[k1]);
                assert(m.pins[m.traces[t].pins[k1] as int].trace == Some(t as usize));
                assert(m.traces[t].pins[k1] != p as usize);
            } else {
                assert(m2.traces[t].pins[k1] == m.traces[t].pins[k1]);
                assert(m2.traces[t].pins[k2] == m.traces[t].pins[k2]);
            }
        } else {
            assert(m2.traces[tt].pins == m.traces[tt].pins);
        }
    }
    assert forall|i: int|
        0 <= i < m2.pins.len() && (#[trigger] m2.pins[i]).trace is Some implies (
    m2.pins[i].trace->0 as int) < m2.traces.len() && m2.traces[m2.pins[i].trace->0 as int].pins.contains(
        i as usize,
    ) by {
        if i == p {
            assert(m2.traces[t].pins[m.traces[t].pins.len() as int] == p as usize);
        } else {
            let t0 = m.pins[i].trace->0 as int;
            assert(m.traces[t0].pins.contains(i as usize));
            let k = choose|k: int| 0 <= k < m.traces[t0].pins.len() && m.traces[t0].pins[k] == i as usize;
            assert(m2.traces[t0].pins[k] == i as usize);
        }
    }
}

/// The circuit: the arena holding every pin and trace of one simulated
/// board, the display names of the pins, and the log of notifications
/// raised so far.
pub struct Circuit {
    pins: Vec<Pin>,
    names: Vec<String>,
    traces: Vec<Trace>,
    events: Vec<LevelChange>,
}

impl View for Circuit {
    type V = NetModel;

    closed spec fn view(&self) -> NetModel {
        NetModel {
            pins: self.pins@,
            traces: Seq::new(self.traces@.len(), |i: int| TraceModel {
                level: self.traces@[i].level,
                float: self.traces@[i].float,
                pins: self.traces@[i].pins@,
            }),
            events: self.events@,
        }
    }
}

impl Circuit {
    /// The pins' display names, which are diagnostic only and never change
    /// after creation.
    pub closed spec fn spec_names(&self) -> Seq<String> {
        self.names@
    }

    /// Creates an empty circuit.
    pub fn new() -> (c: Circuit)
        ensures
            c@.pins.len() == 0,
            c@.traces.len() == 0,
            c@.events.len() == 0,
            c@.wf(),
    {
        Circuit { pins: Vec::new(), names: Vec::new(), traces: Vec::new(), events: Vec::new() }
    }

    /// Creates a pin in the given mode, with no level, no pull default, no
    /// wire and no observer, and returns its index.
    pub fn new_pin(&mut self, number: usize, name: &str, mode: Mode) -> (p: usize)
        requires
            old(self)@.wf(),
        ensures
            p == old(self)@.pins.len(),
            final(self)@.pins == old(self)@.pins.push(
                Pin { number, mode, level: None, float: None, trace: None, observer: None },
            ),
            final(self)@.traces == old(self)@.traces,
            final(self)@.events == old(self)@.events,
            final(self).spec_names().len() == old(self).spec_names().len() + 1,
            final(self).spec_names()[old(self).spec_names().len() as int]@ == name@,
            forall|i: int|
                0 <= i < old(self).spec_names().len()
                    ==> final(self).spec_names()[i] == old(self).spec_names()[i],
            final(self)@.wf(),
    {
        let p = self.pins.len();
        self.pins.push(Pin::new(number, mode));
        self.names.push(String::from_str(name));
        assert(self@.traces =~= old(self)@.traces);
        p
    }

    /// Returns the number of pins in the arena.
    pub fn pin_count(&self) -> (n: usize)
        ensures
            n == self@.pins.len(),
    {
        self.pins.len()
    }

    /// Returns the number of traces in the arena.
    pub fn trace_count(&self) -> (n: usize)
        ensures
            n == self@.traces.len(),
    {
        self.traces.len()
    }

    /// Borrows a pin for reading.
    pub fn pin(&self, p: usize) -> (r: &Pin)
        requires
            p < self@.pins.len(),
        ensures
            *r == self@.pins[p as int],
    {
        &self.pins[p]
    }

    /// Borrows a trace for reading.
    pub fn trace(&self, t: usize) -> (r: &Trace)
        requires
            t < self@.traces.len(),
        ensures
            r.level == self@.traces[t as int].level,
            r.float == self@.traces[t as int].float,
            r.pins@ == self@.traces[t as int].pins,
    {
        &self.traces[t]
    }

    /// Returns a pin's display name.
    pub fn name(&self, p: usize) -> (n: &str)
        requires
            p < self.spec_names().len(),
        ensures
            n@ == self.spec_names()[p as int]@,
    {
        self.names[p].as_str()
    }

    /// Borrows the log of notifications raised so far, in order.
    pub fn events(&self) -> (e: &Vec<LevelChange>)
        ensures
            e@ == self@.events,
    {
        &self.events
    }
}

/// A push leaves the number of pins unchanged.
pub proof fn lemma_push_len(pins: Seq<Pin>, members: Seq<usize>, l: Level, excl: Option<usize>)
    ensures
        pins_after_push(pins, members, l, excl).len() == pins.len(),
    decreases members.len(),
{
    if members.len() > 0 {
        lemma_push_len(pins, members.drop_last(), l, excl);
    }
}

/// A push changes at most the level of a pin: every other field is kept.
pub proof fn lemma_push_fields(pins: Seq<Pin>, members: Seq<usize>, l: Level, excl: Option<usize>)
    ensures
        forall|i: int|
            0 <= i < pins.len() ==> {
                let q = #[trigger] pins_after_push(pins, members, l, excl)[i];
                q.number == pins[i].number && q.mode == pins[i].mode && q.float == pins[i].float
                    && q.trace == pins[i].trace && q.observer == pins[i].observer
            },
    decreases members.len(),
{
    lemma_push_len(pins, members, l, excl);
    if members.len() > 0 {
        lemma_push_fields(pins, members.drop_last(), l, excl);
        lemma_push_len(pins, members.drop_last(), l, excl);
    }
}

/// A pin that is not a member, or that is the excluded pin, keeps its value
/// across a push.
pub proof fn lemma_push_untouched(
    pins: Seq<Pin>,
    members: Seq<usize>,
    l: Level,
    excl: Option<usize>,
    i: int,
)
    requires
        0 <= i < pins.len(),
        !members.contains(i as usize) || excl == Some(i as usize),
    ensures
        pins_after_push(pins, members, l, excl)[i] == pins[i],
    decreases members.len(),
{
    lemma_push_len(pins, members, l, excl);
    if members.len() > 0 {
        assert(!members.contains(i as usize) ==> !members.drop_last().contains(i as usize)) by {
            if members.drop_last().contains(i as usize) {
                let k = choose|k: int|
                    0 <= k < members.drop_last().len() && members.drop_last()[k] == i as usize;
                assert(members[k] == i as usize);
            }
        }
        lemma_push_untouched(pins, members.drop_last(), l, excl, i);
        lemma_push_len(pins, members.drop_last(), l, excl);
    }
}

/// A member pin that is not excluded ends a push holding its updated value,
/// provided the membership list has no duplicates.
pub proof fn lemma_push_member(
    pins: Seq<Pin>,
    members: Seq<usize>,
    l: Level,
    excl: Option<usize>,
    k: int,
)
    requires
        0 <= k < members.len(),
        (members[k] as int) < pins.len(),
        excl != Some(members[k]),
        forall|k1: int, k2: int|
            0 <= k1 < members.len() && 0 <= k2 < members.len() && k1 != k2
                ==> members[k1] != members[k2],
    ensures
        pins_after_push(pins, members, l, excl)[members[k] as int] == pin_updated(
            pins[members[k] as int],
            l,
        ),
    decreases members.len(),
{
    lemma_push_len(pins, members.drop_last(), l, excl);
    if k == members.len() - 1 {
        assert(!members.drop_last().contains(members[k])) by {
            if members.drop_last().contains(members[k]) {
                let j = choose|j: int|
                    0 <= j < members.drop_last().len() && members.drop_last()[j] == members[k];
                assert(members[j] == members[k]);
            }
        }
        lemma_push_untouched(pins, members.drop_last(), l, excl, members[k] as int);
    } else {
        lemma_push_member(pins, members.drop_last(), l, excl, k);
        assert(members.drop_last()[k] == members[k]);
        assert(members.last() != members[k]);
    }
}

impl Circuit {
    /// Runs the resolution scan: the maximum level among the member pins in
    /// `Output` or `Bidirectional` mode that hold a defined level, folded
    /// into the final aggregate by the resolution rule.
    fn compute_level(
        &self,
        t: usize,
        incoming: Level,
        excl: Option<usize>,
        from_pin: bool,
    ) -> (r: Level)
        requires
            self@.wf(),
            t < self@.traces.len(),
        ensures
            r == resolved_level(
                self@.pins,
                self@.traces[t as int].pins,
                self@.traces[t as int].float,
                incoming,
                excl,
                from_pin,
            ),
    {
        let ghost members = self@.traces[t as int].pins;
        let count = self.traces[t].pins.len();
        let mut best: Level = None;
        for k in 0..count
            invariant
                self@.wf(),
                t < self@.traces.len(),
                members == self@.traces[t as int].pins,
                count == members.len(),
                best == driver_max(self@.pins, members.subrange(0, k as int), excl),
        {
            let i = self.traces[t].pins[k];
            proof {
                assert(self@.traces[t as int].pins[k as int] < self@.pins.len());
            }
            let skip = match excl {
                Some(e) => e == i,
                None => false,
            };
            if !skip {
                let p = &self.pins[i];
                let drives = match p.mode {
                    Mode::Output | Mode::Bidirectional => true,
                    _ => false,
                };
                if drives {
                    match p.level {
                        Some(v) => {
                            match best {
                                None => { best = Some(v); },
                                Some(b) => {
                                    if v > b {
                                        best = Some(v);
                                    }
                                },
                            }
                        },
                        None => {},
                    }
                }
            }
            proof {
                assert(members.subrange(0, k as int + 1).drop_last() =~= members.subrange(
                    0,
                    k as int,
                ));
                assert(members.subrange(0, k as int + 1).last() == members[k as int]);
            }
        }
        proof {
            assert(members.subrange(0, count as int) =~= members);
        }
        match best {
            Some(m) => {
                let win = match incoming {
                    Some(v) => from_pin && v > m,
                    None => false,
                };
                if win {
                    incoming
                } else {
                    Some(m)
                }
            },
            None => {
                match incoming {
                    Some(_) => incoming,
                    None => self.traces[t].float,
                }
            },
        }
    }

    /// Pushes the level `l` to every member pin of trace `t` but the
    /// excluded one, updating input-capable pins and logging a notification
    /// for each observed pin whose level actually changes.
    fn push_to_pins(&mut self, t: usize, l: Level, excl: Option<usize>)
        requires
            old(self)@.wf(),
            t < old(self)@.traces.len(),
        ensures
            final(self)@.pins == pins_after_push(
                old(self)@.pins,
                old(self)@.traces[t as int].pins,
                l,
                excl,
            ),
            final(self)@.events == old(self)@.events + events_after_push(
                old(self)@.pins,
                old(self)@.traces[t as int].pins,
                l,
                excl,
            ),
            final(self)@.traces == old(self)@.traces,
            final(self).spec_names() == old(self).spec_names(),
            final(self)@.wf(),
            final(self)@.pins.len() == old(self)@.pins.len(),
    {
        let ghost members = old(self)@.traces[t as int].pins;
        let count = self.traces[t].pins.len();
        for k in 0..count
            invariant
                old(self)@.wf(),
                t < old(self)@.traces.len(),
                members == old(self)@.traces[t as int].pins,
                count == members.len(),
                self@.traces == old(self)@.traces,
                self.spec_names() == old(self).spec_names(),
                self@.pins == pins_after_push(
                    old(self)@.pins,
                    members.subrange(0, k as int),
                    l,
                    excl,
                ),
                self@.events == old(self)@.events + events_after_push(
                    old(self)@.pins,
                    members.subrange(0, k as int),
                    l,
                    excl,
                ),
        {
            proof {
                lemma_push_len(old(self)@.pins, members.subrange(0, k as int), l, excl);
                assert(self@.traces[t as int].pins[k as int] < old(self)@.pins.len());
            }
            let i = self.traces[t].pins[k];
            let skip = match excl {
                Some(e) => e == i,
                None => false,
            };
            if !skip {
                let p = self.pins[i];
                let n = normalize(l, p.float);
                let is_input = p.input();
                let changed = match (n, p.level) {
                    (None, None) => false,
                    (Some(a), Some(b)) => a != b,
                    _ => true,
                };
                if is_input && changed {
                    self.pins.set(i, Pin { level: n, ..p });
                    match p.observer {
                        Some(d) => {
                            self.events.push(LevelChange { pin: i, device: d, level: n });
                        },
                        None => {},
                    }
                }
            }
            proof {
                assert(members.subrange(0, k as int + 1).drop_last() =~= members.subrange(
                    0,
                    k as int,
                ));
                assert(members.subrange(0, k as int + 1).last() == members[k as int]);
                assert(self@.pins =~= pins_after_push(
                    old(self)@.pins,
                    members.subrange(0, k as int + 1),
                    l,
                    excl,
                ));
                assert(self@.events =~= old(self)@.events + events_after_push(
                    old(self)@.pins,
                    members.subrange(0, k as int + 1),
                    l,
                    excl,
                ));
            }
        }
        proof {
            assert(members.subrange(0, count as int) =~= members);
            lemma_push_len(old(self)@.pins, members, l, excl);
            lemma_push_fields(old(self)@.pins, members, l, excl);
            assert(forall|i: int|
                0 <= i < old(self)@.pins.len()
                    ==> (#[trigger] self@.pins[i]).trace == old(self)@.pins[i].trace);
        }
    }
}

impl Circuit {
    /// The pin-originated path of a trace: recomputes the aggregate with
    /// the mid-mutation pin excluded, then pushes that aggregate to every
    /// other member.
    fn trace_update_from(&mut self, t: usize, l: Level, from: usize)
        requires
            old(self)@.wf(),
            t < old(self)@.traces.len(),
        ensures
            final(self)@ == trace_updated_model(old(self)@, t as int, l, from),
            final(self)@.wf(),
            final(self).spec_names() == old(self).spec_names(),
            final(self)@.pins.len() == old(self)@.pins.len(),
            final(self)@.traces.len() == old(self)@.traces.len(),
    {
        let nl = self.compute_level(t, l, Some(from), true);
        self.traces[t].level = nl;
        proof {
            assert(self@.pins == old(self)@.pins);
            assert(self@.traces =~= old(self)@.traces.update(t as int, TraceModel {
                level: nl,
                ..old(self)@.traces[t as int]
            }));
            lemma_wf_same_links(old(self)@, self@);
        }
        self.push_to_pins(t, nl, Some(from));
        proof {
            assert(final(self)@ =~~= trace_updated_model(old(self)@, t as int, l, from));
        }
    }

    /// A direct (non-pin-originated) level request on a trace: recomputes
    /// the aggregate over all members and pushes that aggregate to every
    /// member.  The request is overridden whenever a driver holds a
    /// defined level.
    pub fn trace_set_level(&mut self, t: usize, l: Level)
        requires
            old(self)@.wf(),
            t < old(self)@.traces.len(),
        ensures
            final(self)@ == trace_set_model(old(self)@, t as int, l),
            final(self)@.wf(),
            final(self).spec_names() == old(self).spec_names(),
            final(self)@.pins.len() == old(self)@.pins.len(),
            final(self)@.traces.len() == old(self)@.traces.len(),
    {
        let nl = self.compute_level(t, l, None, false);
        self.traces[t].level = nl;
        proof {
            assert(self@.pins == old(self)@.pins);
            assert(self@.traces =~= old(self)@.traces.update(t as int, TraceModel {
                level: nl,
                ..old(self)@.traces[t as int]
            }));
            lemma_wf_same_links(old(self)@, self@);
        }
        self.push_to_pins(t, nl, None);
        proof {
            assert(final(self)@ =~~= trace_set_model(old(self)@, t as int, l));
        }
    }

    /// Sets a trace's level to a full high, over the direct path.
    pub fn trace_set(&mut self, t: usize)
        requires
            old(self)@.wf(),
            t < old(self)@.traces.len(),
        ensures
            final(self)@ == trace_set_model(old(self)@, t as int, Some(LEVEL_HIGH)),
            final(self)@.wf(),
            final(self).spec_names() == old(self).spec_names(),
            final(self)@.pins.len() == old(self)@.pins.len(),
            final(self)@.traces.len() == old(self)@.traces.len(),
    {
        self.trace_set_level(t, Some(LEVEL_HIGH));
    }

    /// Sets a trace's level to a full low, over the direct path.
    pub fn trace_clear(&mut self, t: usize)
        requires
            old(self)@.wf(),
            t < old(self)@.traces.len(),
        ensures
            final(self)@ == trace_set_model(old(self)@, t as int, Some(LEVEL_LOW)),
            final(self)@.wf(),
            final(self).spec_names() == old(self).spec_names(),
            final(self)@.pins.len() == old(self)@.pins.len(),
            final(self)@.traces.len() == old(self)@.traces.len(),
    {
        self.trace_set_level(t, Some(LEVEL_LOW));
    }

    /// Floats a trace, over the direct path; a pull default or a driving
    /// pin overrides the absent value.
    pub fn trace_float(&mut self, t: usize)
        requires
            old(self)@.wf(),
            t < old(self)@.traces.len(),
        ensures
            final(self)@ == trace_set_model(old(self)@, t as int, None),
            final(self)@.wf(),
            final(self).spec_names() == old(self).spec_names(),
            final(self)@.pins.len() == old(self)@.pins.len(),
            final(self)@.traces.len() == old(self)@.traces.len(),
    {
        self.trace_set_level(t, None);
    }

    /// Toggles a trace: a high trace is cleared, a low one is set, and a
    /// floating one is left alone.
    pub fn trace_toggle(&mut self, t: usize)
        requires
            old(self)@.wf(),
            t < old(self)@.traces.len(),
        ensures
            final(self)@ == trace_toggle_model(old(self)@, t as int),
            final(self)@.wf(),
            final(self).spec_names() == old(self).spec_names(),
            final(self)@.pins.len() == old(self)@.pins.len(),
            final(self)@.traces.len() == old(self)@.traces.len(),
    {
        let lv = self.traces[t].level;
        let hi = match lv {
            Some(n) => n >= crate::level::LEVEL_THRESHOLD,
            None => false,
        };
        let lo = match lv {
            Some(n) => n < crate::level::LEVEL_THRESHOLD,
            None => false,
        };
        if hi {
            self.trace_clear(t);
        } else if lo {
            self.trace_set(t);
        }
    }

    /// Changes a trace's pull default and re-resolves its level at once.
    fn trace_pull(&mut self, t: usize, f: Level)
        requires
            old(self)@.wf(),
            t < old(self)@.traces.len(),
        ensures
            final(self)@ == trace_pull_model(old(self)@, t as int, f),
            final(self)@.wf(),
            final(self).spec_names() == old(self).spec_names(),
            final(self)@.pins.len() == old(self)@.pins.len(),
            final(self)@.traces.len() == old(self)@.traces.len(),
    {
        let cur = self.traces[t].level;
        self.traces[t].float = f;
        proof {
            assert(self@.pins == old(self)@.pins);
            assert(self@.traces =~= old(self)@.traces.update(t as int, TraceModel {
                float: f,
                ..old(self)@.traces[t as int]
            }));
            lemma_wf_same_links(old(self)@, self@);
        }
        self.trace_set_level(t, cur);
        proof {
            assert(final(self)@ =~~= trace_pull_model(old(self)@, t as int, f));
        }
    }

    /// Pulls a trace up: an absent aggregate now reads as a full high, at
    /// once and from then on.
    pub fn trace_pull_up(&mut self, t: usize)
        requires
            old(self)@.wf(),
            t < old(self)@.traces.len(),
        ensures
            final(self)@ == trace_pull_model(old(self)@, t as int, Some(LEVEL_HIGH)),
            final(self)@.wf(),
            final(self).spec_names() == old(self).spec_names(),
            final(self)@.pins.len() == old(self)@.pins.len(),
            final(self)@.traces.len() == old(self)@.traces.len(),
    {
        self.trace_pull(t, Some(LEVEL_HIGH));
    }

    /// Pulls a trace down: an absent aggregate now reads as a full low.
    pub fn trace_pull_down(&mut self, t: usize)
        requires
            old(self)@.wf(),
            t < old(self)@.traces.len(),
        ensures
            final(self)@ == trace_pull_model(old(self)@, t as int, Some(LEVEL_LOW)),
            final(self)@.wf(),
            final(self).spec_names() == old(self).spec_names(),
            final(self)@.pins.len() == old(self)@.pins.len(),
            final(self)@.traces.len() == old(self)@.traces.len(),
    {
        self.trace_pull(t, Some(LEVEL_LOW));
    }

    /// Removes a trace's pull: an absent aggregate stays absent.
    pub fn trace_pull_off(&mut self, t: usize)
        requires
            old(self)@.wf(),
            t < old(self)@.traces.len(),
        ensures
            final(self)@ == trace_pull_model(old(self)@, t as int, None),
            final(self)@.wf(),
            final(self).spec_names() == old(self).spec_names(),
            final(self)@.pins.len() == old(self)@.pins.len(),
            final(self)@.traces.len() == old(self)@.traces.len(),
    {
        self.trace_pull(t, None);
    }
}

impl Circuit {
    /// A direct level request on a pin, interpreted by its mode: an input
    /// pin ignores the request unconditionally, an unconnected or wireless
    /// pin changes locally, and a driving pin adopts the normalized value
    /// and pushes it to its trace.
    pub fn set_level(&mut self, p: usize, l: Level)
        requires
            old(self)@.wf(),
            p < old(self)@.pins.len(),
        ensures
            final(self)@ == pin_set_level_model(old(self)@, p as int, l),
            final(self)@.wf(),
            final(self).spec_names() == old(self).spec_names(),
            final(self)@.pins.len() == old(self)@.pins.len(),
            final(self)@.traces.len() == old(self)@.traces.len(),
    {
        let pin = self.pins[p];
        let n = normalize(l, pin.float);
        let listens = match pin.mode {
            Mode::Input => true,
            _ => false,
        };
        if listens {
            return ;
        }
        match pin.trace {
            None => {
                self.pins.set(p, Pin { level: n, ..pin });
                proof {
                    lemma_wf_same_links(old(self)@, self@);
                }
            },
            Some(t) => {
                match pin.mode {
                    Mode::Unconnected => {
                        self.pins.set(p, Pin { level: n, ..pin });
                        proof {
                            lemma_wf_same_links(old(self)@, self@);
                        }
                    },
                    _ => {
                        self.pins.set(p, Pin { level: n, ..pin });
                        proof {
                            lemma_wf_same_links(old(self)@, self@);
                        }
                        self.trace_update_from(t, n, p);
                    },
                }
            },
        }
    }

    /// The trace-originated path of a pin, also usable directly in tests:
    /// an input-capable pin adopts the normalized value if it differs from
    /// the current level, notifying its observer; any other pin is left
    /// alone.
    pub fn update(&mut self, p: usize, l: Level)
        requires
            old(self)@.wf(),
            p < old(self)@.pins.len(),
        ensures
            final(self)@ == pin_update_model(old(self)@, p as int, l),
            final(self)@.wf(),
            final(self).spec_names() == old(self).spec_names(),
            final(self)@.pins.len() == old(self)@.pins.len(),
            final(self)@.traces.len() == old(self)@.traces.len(),
    {
        let pin = self.pins[p];
        let n = normalize(l, pin.float);
        let is_input = pin.input();
        let changed = match (n, pin.level) {
            (None, None) => false,
            (Some(a), Some(b)) => a != b,
            _ => true,
        };
        if is_input && changed {
            self.pins.set(p, Pin { level: n, ..pin });
            match pin.observer {
                Some(d) => {
                    self.events.push(LevelChange { pin: p, device: d, level: n });
                },
                None => {},
            }
        }
        proof {
            assert(self@.pins =~= pin_update_model(old(self)@, p as int, l).pins);
            assert(self@ =~~= pin_update_model(old(self)@, p as int, l));
            lemma_wf_same_links(old(self)@, self@);
        }
    }

    /// Sets a pin's level to a full high.
    pub fn set(&mut self, p: usize)
        requires
            old(self)@.wf(),
            p < old(self)@.pins.len(),
        ensures
            final(self)@ == pin_set_level_model(old(self)@, p as int, Some(LEVEL_HIGH)),
            final(self)@.wf(),
            final(self).spec_names() == old(self).spec_names(),
            final(self)@.pins.len() == old(self)@.pins.len(),
            final(self)@.traces.len() == old(self)@.traces.len(),
    {
        self.set_level(p, Some(LEVEL_HIGH));
    }

    /// Sets a pin's level to a full low.
    pub fn clear(&mut self, p: usize)
        requires
            old(self)@.wf(),
            p < old(self)@.pins.len(),
        ensures
            final(self)@ == pin_set_level_model(old(self)@, p as int, Some(LEVEL_LOW)),
            final(self)@.wf(),
            final(self).spec_names() == old(self).spec_names(),
            final(self)@.pins.len() == old(self)@.pins.len(),
            final(self)@.traces.len() == old(self)@.traces.len(),
    {
        self.set_level(p, Some(LEVEL_LOW));
    }

    /// Floats a pin; its pull default, if any, takes over at once.
    pub fn float(&mut self, p: usize)
        requires
            old(self)@.wf(),
            p < old(self)@.pins.len(),
        ensures
            final(self)@ == pin_set_level_model(old(self)@, p as int, None),
            final(self)@.wf(),
            final(self).spec_names() == old(self).spec_names(),
            final(self)@.pins.len() == old(self)@.pins.len(),
            final(self)@.traces.len() == old(self)@.traces.len(),
    {
        self.set_level(p, None);
    }

    /// Toggles a pin: a high pin is cleared, a low one is set, a floating
    /// one is left alone.
    pub fn toggle(&mut self, p: usize)
        requires
            old(self)@.wf(),
            p < old(self)@.pins.len(),
        ensures
            final(self)@ == pin_toggle_model(old(self)@, p as int),
            final(self)@.wf(),
            final(self).spec_names() == old(self).spec_names(),
            final(self)@.pins.len() == old(self)@.pins.len(),
            final(self)@.traces.len() == old(self)@.traces.len(),
    {
        let lv = self.pins[p].level;
        let hi = match lv {
            Some(n) => n >= crate::level::LEVEL_THRESHOLD,
            None => false,
        };
        let lo = match lv {
            Some(n) => n < crate::level::LEVEL_THRESHOLD,
            None => false,
        };
        if hi {
            self.clear(p);
        } else if lo {
            self.set(p);
        }
    }

    /// Changes a pin's mode.  A pin that starts driving pushes its level
    /// to its trace; one that starts listening adopts the trace's level;
    /// and one that stops driving while holding a defined level withdraws
    /// that value from the trace, which re-resolves without it.
    pub fn set_mode(&mut self, p: usize, mode: Mode)
        requires
            old(self)@.wf(),
            p < old(self)@.pins.len(),
        ensures
            final(self)@ == pin_set_mode_model(old(self)@, p as int, mode),
            final(self)@.wf(),
            final(self).spec_names() == old(self).spec_names(),
            final(self)@.pins.len() == old(self)@.pins.len(),
            final(self)@.traces.len() == old(self)@.traces.len(),
    {
        let pin = self.pins[p];
        self.pins.set(p, Pin { mode, ..pin });
        proof {
            lemma_wf_same_links(old(self)@, self@);
            assert(self@ =~~= (NetModel {
                pins: old(self)@.pins.update(p as int, Pin { mode, ..pin }),
                ..old(self)@
            }));
        }
        match pin.trace {
            None => {},
            Some(t) => {
                let starts_driving = match mode {
                    Mode::Output | Mode::Bidirectional => true,
                    _ => false,
                };
                if starts_driving {
                    self.trace_update_from(t, pin.level, p);
                } else {
                    let is_input = match mode {
                        Mode::Input => true,
                        _ => false,
                    };
                    if is_input {
                        let tl = self.traces[t].level;
                        let n2 = normalize(tl, pin.float);
                        self.pins.set(p, Pin { mode, level: n2, ..pin });
                        proof {
                            lemma_wf_same_links(old(self)@, self@);
                            assert(self@ =~~= (NetModel {
                                pins: old(self)@.pins.update(p as int, Pin {
                                    mode,
                                    level: spec_normalize(
                                        old(self)@.traces[t as int].level,
                                        pin.float,
                                    ),
                                    ..pin
                                }),
                                ..old(self)@
                            }));
                        }
                    }
                    let was_driving = match pin.mode {
                        Mode::Output | Mode::Bidirectional => true,
                        _ => false,
                    };
                    let had_level = match pin.level {
                        Some(_) => true,
                        None => false,
                    };
                    if had_level && was_driving {
                        self.trace_update_from(t, None, p);
                    }
                }
            },
        }
        proof {
            assert(final(self)@ =~~= pin_set_mode_model(old(self)@, p as int, mode));
        }
    }

    /// Pulls a pin up: an absent level now reads as a full high, and a
    /// currently floating pin snaps to it at once.  The trace, if any, is
    /// not involved.
    pub fn pull_up(&mut self, p: usize)
        requires
            old(self)@.wf(),
            p < old(self)@.pins.len(),
        ensures
            final(self)@ == (NetModel {
                pins: old(self)@.pins.update(p as int, Pin {
                    float: Some(LEVEL_HIGH),
                    level: spec_normalize(old(self)@.pins[p as int].level, Some(LEVEL_HIGH)),
                    ..old(self)@.pins[p as int]
                }),
                ..old(self)@
            }),
            final(self)@.wf(),
            final(self).spec_names() == old(self).spec_names(),
            final(self)@.pins.len() == old(self)@.pins.len(),
            final(self)@.traces.len() == old(self)@.traces.len(),
    {
        let mut pin = self.pins[p];
        pin.pull_up();
        self.pins.set(p, pin);
        proof {
            lemma_wf_same_links(old(self)@, self@);
        }
    }

    /// Pulls a pin down: an absent level now reads as a full low.
    pub fn pull_down(&mut self, p: usize)
        requires
            old(self)@.wf(),
            p < old(self)@.pins.len(),
        ensures
            final(self)@ == (NetModel {
                pins: old(self)@.pins.update(p as int, Pin {
                    float: Some(LEVEL_LOW),
                    level: spec_normalize(old(self)@.pins[p as int].level, Some(LEVEL_LOW)),
                    ..old(self)@.pins[p as int]
                }),
                ..old(self)@
            }),
            final(self)@.wf(),
            final(self).spec_names() == old(self).spec_names(),
            final(self)@.pins.len() == old(self)@.pins.len(),
            final(self)@.traces.len() == old(self)@.traces.len(),
    {
        let mut pin = self.pins[p];
        pin.pull_down();
        self.pins.set(p, pin);
        proof {
            lemma_wf_same_links(old(self)@, self@);
        }
    }

    /// Removes a pin's pull: an absent level stays absent from now on.
    pub fn pull_off(&mut self, p: usize)
        requires
            old(self)@.wf(),
            p < old(self)@.pins.len(),
        ensures
            final(self)@ == (NetModel {
                pins: old(self)@.pins.update(p as int, Pin {
                    float: None,
                    ..old(self)@.pins[p as int]
                }),
                ..old(self)@
            }),
            final(self)@.wf(),
            final(self).spec_names() == old(self).spec_names(),
            final(self)@.pins.len() == old(self)@.pins.len(),
            final(self)@.traces.len() == old(self)@.traces.len(),
    {
        let mut pin = self.pins[p];
        pin.pull_off();
        self.pins.set(p, pin);
        proof {
            lemma_wf_same_links(old(self)@, self@);
        }
    }

    /// Attaches an observing device to a pin, replacing any previous one.
    pub fn attach(&mut self, p: usize, device: usize)
        requires
            old(self)@.wf(),
            p < old(self)@.pins.len(),
        ensures
            final(self)@ == (NetModel {
                pins: old(self)@.pins.update(p as int, Pin {
                    observer: Some(device),
                    ..old(self)@.pins[p as int]
                }),
                ..old(self)@
            }),
            final(self)@.wf(),
            final(self).spec_names() == old(self).spec_names(),
            final(self)@.pins.len() == old(self)@.pins.len(),
            final(self)@.traces.len() == old(self)@.traces.len(),
    {
        let mut pin = self.pins[p];
        pin.attach(device);
        self.pins.set(p, pin);
        proof {
            lemma_wf_same_links(old(self)@, self@);
        }
    }

    /// Detaches a pin's observing device.
    pub fn detach(&mut self, p: usize)
        requires
            old(self)@.wf(),
            p < old(self)@.pins.len(),
        ensures
            final(self)@ == (NetModel {
                pins: old(self)@.pins.update(p as int, Pin {
                    observer: None,
                    ..old(self)@.pins[p as int]
                }),
                ..old(self)@
            }),
            final(self)@.wf(),
            final(self).spec_names() == old(self).spec_names(),
            final(self)@.pins.len() == old(self)@.pins.len(),
            final(self)@.traces.len() == old(self)@.traces.len(),
    {
        let mut pin = self.pins[p];
        pin.detach();
        self.pins.set(p, pin);
        proof {
            lemma_wf_same_links(old(self)@, self@);
        }
    }

    /// Creates a trace with no level and no pull, wired to the listed
    /// pins; a pin already wired anywhere is skipped.  Returns the new
    /// trace's index.
    pub fn new_trace(&mut self, members: &Vec<usize>) -> (t: usize)
        requires
            old(self)@.wf(),
            forall|k: int| 0 <= k < members@.len() ==> (#[trigger] members@[k]) < old(self)@.pins.len(),
        ensures
            t == old(self)@.traces.len(),
            final(self)@ == new_trace_model(old(self)@, members@),
            final(self)@.wf(),
            final(self).spec_names() == old(self).spec_names(),
    {
        let t = self.traces.len();
        self.traces.push(Trace { level: None, float: None, pins: Vec::new() });
        proof {
            assert(self@.traces =~= old(self)@.traces.push(TraceModel {
                level: None,
                float: None,
                pins: Seq::empty(),
            }));
            assert forall|i: int|
                0 <= i < self@.pins.len() && (#[trigger] self@.pins[i]).trace is Some implies (
            self@.pins[i].trace->0 as int) < self@.traces.len()
                && self@.traces[self@.pins[i].trace->0 as int].pins.contains(i as usize) by {
                assert(old(self)@.pins[i].trace is Some);
            }
            assert(self@.wf());
        }
        let ghost base = self@;
        let count = members.len();
        for k in 0..count
            invariant
                count == members@.len(),
                t < base.traces.len(),
                base.wf(),
                forall|j: int| 0 <= j < members@.len() ==> (#[trigger] members@[j]) < base.pins.len(),
                self@ == wired_model(base, t as int, members@.subrange(0, k as int)),
                self@.wf(),
                self@.pins.len() == base.pins.len(),
                self@.traces.len() == base.traces.len(),
                self.spec_names() == old(self).spec_names(),
        {
            let p = members[k];
            if !self.pins[p].connected() {
                let pin = self.pins[p];
                self.pins.set(p, Pin { trace: Some(t), ..pin });
                self.traces[t].pins.push(p);
                proof {
                    lemma_wf_link(wired_model(base, t as int, members@.subrange(0, k as int)), t, p);
                }
            }
            proof {
                assert(members@.subrange(0, k as int + 1).drop_last() =~= members@.subrange(
                    0,
                    k as int,
                ));
                assert(members@.subrange(0, k as int + 1).last() == members@[k as int]);
                assert(self@ =~~= wired_model(base, t as int, members@.subrange(0, k as int + 1)));
            }
        }
        proof {
            assert(members@.subrange(0, count as int) =~= members@);
            assert(final(self)@ =~~= new_trace_model(old(self)@, members@));
        }
        t
    }

    /// Connects one more pin to a trace and re-resolves the trace's level
    /// to include it.  A pin already wired (to any trace) is left alone: a
    /// physical pin cannot be rewired, so the duplicate request is treated
    /// as already satisfied rather than as a fault.
    pub fn add_pin(&mut self, t: usize, p: usize)
        requires
            old(self)@.wf(),
            t < old(self)@.traces.len(),
            p < old(self)@.pins.len(),
        ensures
            final(self)@ == trace_add_pin_model(old(self)@, t as int, p as int),
            final(self)@.wf(),
            final(self).spec_names() == old(self).spec_names(),
            final(self)@.pins.len() == old(self)@.pins.len(),
            final(self)@.traces.len() == old(self)@.traces.len(),
    {
        if !self.pins[p].connected() {
            let pin = self.pins[p];
            self.pins.set(p, Pin { trace: Some(t), ..pin });
            self.traces[t].pins.push(p);
            proof {
                lemma_wf_link(old(self)@, t, p);
                assert(self@ =~~= (NetModel {
                    pins: old(self)@.pins.update(p as int, Pin {
                        trace: Some(t),
                        ..old(self)@.pins[p as int]
                    }),
                    traces: old(self)@.traces.update(t as int, TraceModel {
                        pins: old(self)@.traces[t as int].pins.push(p),
                        ..old(self)@.traces[t as int]
                    }),
                    ..old(self)@
                }));
            }
            let cur = self.traces[t].level;
            self.trace_set_level(t, cur);
            proof {
                assert(final(self)@ =~~= trace_add_pin_model(old(self)@, t as int, p as int));
            }
        }
    }

    /// Connects a list of pins to a trace, skipping each one that is
    /// already wired, and re-resolving the trace's level after each
    /// connection.
    pub fn add_pins(&mut self, t: usize, ps: &Vec<usize>)
        requires
            old(self)@.wf(),
            t < old(self)@.traces.len(),
            forall|k: int| 0 <= k < ps@.len() ==> (#[trigger] ps@[k]) < old(self)@.pins.len(),
        ensures
            final(self)@ == trace_add_pins_model(old(self)@, t as int, ps@),
            final(self)@.wf(),
            final(self).spec_names() == old(self).spec_names(),
            final(self)@.pins.len() == old(self)@.pins.len(),
            final(self)@.traces.len() == old(self)@.traces.len(),
    {
        let count = ps.len();
        for k in 0..count
            invariant
                count == ps@.len(),
                t < old(self)@.traces.len(),
                self@ == trace_add_pins_model(old(self)@, t as int, ps@.subrange(0, k as int)),
                self@.wf(),
                self@.pins.len() == old(self)@.pins.len(),
                self@.traces.len() == old(self)@.traces.len(),
                forall|j: int| 0 <= j < ps@.len() ==> (#[trigger] ps@[j]) < old(self)@.pins.len(),
                self.spec_names() == old(self).spec_names(),
        {
            let p = ps[k];
            self.add_pin(t, p);
            proof {
                assert(ps@.subrange(0, k as int + 1).drop_last() =~= ps@.subrange(0, k as int));
                assert(ps@.subrange(0, k as int + 1).last() == ps@[k as int]);
            }
        }
        proof {
            assert(ps@.subrange(0, count as int) =~= ps@);
        }
    }
}

impl Circuit {
    /// A human-readable rendering of one pin — its number, name, level,
    /// pull default and mode — for diagnostics.  The format carries no
    /// compatibility guarantee.
    pub fn describe_pin(&self, p: usize) -> (s: String)
        requires
            p < self@.pins.len(),
            p < self.spec_names().len(),
        ensures
            s@.len() >= 1,
    {
        proof {
            reveal_strlit("Pin(number=");
        }
        let pin = &self.pins[p];
        let mut s = String::from_str("Pin(number=");
        s.append(crate::text::uint_string(pin.number as u64).as_str());
        s.append(", name=");
        s.append(self.names[p].as_str());
        s.append(", level=");
        s.append(crate::text::level_string(pin.level).as_str());
        s.append(", float=");
        s.append(crate::text::level_string(pin.float).as_str());
        s.append(", mode=");
        s.append(match pin.mode {
            Mode::Unconnected => "U",
            Mode::Input => "I",
            Mode::Output => "O",
            Mode::Bidirectional => "B",
        });
        s.append(")");
        s
    }

    /// A human-readable rendering of one trace — its level and pull
    /// default — for diagnostics.  The format carries no compatibility
    /// guarantee.
    pub fn describe_trace(&self, t: usize) -> (s: String)
        requires
            t < self@.traces.len(),
        ensures
            s@.len() >= 1,
    {
        proof {
            reveal_strlit("Trace(level=");
        }
        let tr = &self.traces[t];
        let mut s = String::from_str("Trace(level=");
        s.append(crate::text::level_string(tr.level).as_str());
        s.append(", float=");
        s.append(crate::text::level_string(tr.float).as_str());
        s.append(")");
        s
    }

    /// A human-readable rendering of a device's pins, one per line, for
    /// diagnostics.  The format carries no compatibility guarantee.
    pub fn describe_pins(&self, pins: &Vec<usize>) -> (s: String)
        requires
            forall|k: int| 0 <= k < pins@.len() ==> (#[trigger] pins@[k]) < self@.pins.len(),
            forall|k: int| 0 <= k < pins@.len() ==> (#[trigger] pins@[k]) < self.spec_names().len(),
        ensures
            s@.len() >= 1,
    {
        proof {
            reveal_strlit("Device {\n");
        }
        let mut s = String::from_str("Device {\n");
        let count = pins.len();
        let mut k: usize = 0;
        while k < count
            invariant
                count == pins@.len(),
                s@.len() >= 1,
                forall|j: int| 0 <= j < pins@.len() ==> (#[trigger] pins@[j]) < self@.pins.len(),
                forall|j: int|
                    0 <= j < pins@.len() ==> (#[trigger] pins@[j]) < self.spec_names().len(),
            decreases count - k,
        {
            s.append("  ");
            s.append(self.describe_pin(pins[k]).as_str());
            s.append("\n");
            k = k + 1;
        }
        s.append("}");
        s
    }
}

} // verus!
