//! Laws of the propagation kernel.
//!
//! Each public proof function here states one guarantee of the kernel over
//! the abstract model in [`crate::circuit`], so the guarantees hold for
//! every circuit, not just the ones a test happens to build.

use vstd::prelude::*;
use crate::level::{Level, spec_normalize};
use crate::pin::{Mode, Pin};
use crate::device::LevelChange;
use crate::circuit::{
    NetModel, spec_driver, driver_max, resolved_level, pin_updated, update_notifies,
    pins_after_push, events_after_push, pin_set_level_model, pin_set_mode_model,
    trace_set_model, trace_updated_model, lemma_push_len, lemma_push_fields,
    lemma_push_untouched, lemma_push_member,
};

verus! {

/// If every non-excluded driver holds a level at most `v`, the driver scan
/// yields nothing above `v`.
pub proof fn lemma_driver_max_le(pins: Seq<Pin>, members: Seq<usize>, excl: Option<usize>, v: i64)
    requires
        forall|k: int|
            0 <= k < members.len() ==> {
                let q = #[trigger] members[k];
                excl == Some(q) || (q as int) >= pins.len() || !spec_driver(pins[q as int])
                    || pins[q as int].level->0 <= v
            },
    ensures
        driver_max(pins, members, excl) matches Some(mx) ==> mx <= v,
    decreases members.len(),
{
    if members.len() > 0 {
        assert(forall|k: int|
            0 <= k < members.drop_last().len() ==> members.drop_last()[k] == members[k]);
        lemma_driver_max_le(pins, members.drop_last(), excl, v);
    }
}

/// If no non-excluded member is a driver, the driver scan yields nothing.
pub proof fn lemma_driver_max_none(pins: Seq<Pin>, members: Seq<usize>, excl: Option<usize>)
    requires
        forall|k: int|
            0 <= k < members.len() ==> {
                let q = #[trigger] members[k];
                excl == Some(q) || (q as int) >= pins.len() || !spec_driver(pins[q as int])
            },
    ensures
        driver_max(pins, members, excl) is None,
    decreases members.len(),
{
    if members.len() > 0 {
        assert(forall|k: int|
            0 <= k < members.drop_last().len() ==> members.drop_last()[k] == members[k]);
        lemma_driver_max_none(pins, members.drop_last(), excl);
    }
}

/// A push on which no non-excluded member's level would change raises no
/// notification at all.
pub proof fn lemma_push_no_events(pins: Seq<Pin>, members: Seq<usize>, l: Level, excl: Option<usize>)
    requires
        forall|k1: int, k2: int|
            0 <= k1 < members.len() && 0 <= k2 < members.len() && k1 != k2
                ==> members[k1] != members[k2],
        forall|k: int|
            0 <= k < members.len() ==> {
                let q = #[trigger] members[k];
                excl == Some(q) || (q as int) >= pins.len() || !update_notifies(pins[q as int], l)
            },
    ensures
        events_after_push(pins, members, l, excl) == Seq::<LevelChange>::empty(),
    decreases members.len(),
{
    if members.len() > 0 {
        assert(forall|k: int|
            0 <= k < members.drop_last().len() ==> members.drop_last()[k] == members[k]);
        lemma_push_no_events(pins, members.drop_last(), l, excl);
        lemma_push_len(pins, members.drop_last(), l, excl);
        let i = members.last();
        if excl != Some(i) && (i as int) < pins.len() {
            assert(!members.drop_last().contains(i)) by {
                if members.drop_last().contains(i) {
                    let j = choose|j: int|
                        0 <= j < members.drop_last().len() && members.drop_last()[j] == i;
                    assert(members[j] == members[members.len() - 1]);
                }
            }
            lemma_push_untouched(pins, members.drop_last(), l, excl, i as int);
        }
    }
}

/// How many of the given notifications concern the pin `p`.
pub open spec fn count_for_pin(es: Seq<LevelChange>, p: usize) -> nat
    decreases es.len(),
{
    if es.len() == 0 {
        0
    } else {
        count_for_pin(es.drop_last(), p) + if es.last().pin == p {
            1nat
        } else {
            0nat
        }
    }
}

/// The count distributes over concatenation.
pub proof fn lemma_count_concat(a: Seq<LevelChange>, b: Seq<LevelChange>, p: usize)
    ensures
        count_for_pin(a + b, p) == count_for_pin(a, p) + count_for_pin(b, p),
    decreases b.len(),
{
    if b.len() == 0 {
        assert(a + b =~= a);
    } else {
        lemma_count_concat(a, b.drop_last(), p);
        assert((a + b).drop_last() =~= a + b.drop_last());
    }
}

/// A push notifies the member pin `p` exactly once if its level changes
/// and it is observed, and never otherwise; the one notification carries
/// the pin's new level.
pub proof fn lemma_push_events_for_pin(
    pins: Seq<Pin>,
    members: Seq<usize>,
    l: Level,
    excl: Option<usize>,
    p: usize,
)
    requires
        forall|k1: int, k2: int|
            0 <= k1 < members.len() && 0 <= k2 < members.len() && k1 != k2
                ==> members[k1] != members[k2],
        forall|k: int| 0 <= k < members.len() ==> (#[trigger] members[k]) < pins.len(),
        excl != Some(p),
    ensures
        count_for_pin(events_after_push(pins, members, l, excl), p) == if members.contains(p)
            && update_notifies(pins[p as int], l) {
            1nat
        } else {
            0nat
        },
        members.contains(p) && update_notifies(pins[p as int], l) ==> events_after_push(
            pins,
            members,
            l,
            excl,
        ).contains(LevelChange {
            pin: p,
            device: pins[p as int].observer->0,
            level: spec_normalize(l, pins[p as int].float),
        }),
    decreases members.len(),
{
    if members.len() > 0 {
        assert(forall|k: int|
            0 <= k < members.drop_last().len() ==> members.drop_last()[k] == members[k]);
        lemma_push_events_for_pin(pins, members.drop_last(), l, excl, p);
        let i = members.last();
        let es = events_after_push(pins, members, l, excl);
        let rest = events_after_push(pins, members.drop_last(), l, excl);
        let prev = pins_after_push(pins, members.drop_last(), l, excl);
        assert(!members.drop_last().contains(i)) by {
            if members.drop_last().contains(i) {
                let j = choose|j: int|
                    0 <= j < members.drop_last().len() && members.drop_last()[j] == i;
                assert(members[j] == members[members.len() - 1]);
            }
        }
        if excl != Some(i) {
            lemma_push_untouched(pins, members.drop_last(), l, excl, i as int);
            assert(prev[i as int] == pins[i as int]);
        }
        lemma_push_len(pins, members.drop_last(), l, excl);
        if members.contains(p) {
            let kp = choose|kp: int| 0 <= kp < members.len() && members[kp] == p;
            if members[kp] == members[members.len() - 1] && kp < members.len() - 1 {
                assert(false);
            }
            if kp < members.len() - 1 {
                assert(members.drop_last()[kp] == p);
                assert(members.drop_last().contains(p));
                assert(i != p);
            } else {
                assert(i == p);
                assert(!members.drop_last().contains(p));
            }
        } else {
            assert(!members.drop_last().contains(p)) by {
                if members.drop_last().contains(p) {
                    let j = choose|j: int|
                        0 <= j < members.drop_last().len() && members.drop_last()[j] == p;
                    assert(members[j] == p);
                }
            }
            assert(i != p);
        }
        if excl != Some(i) && (i as int) < prev.len() && update_notifies(prev[i as int], l) {
            let ev2 = LevelChange {
                pin: i,
                device: prev[i as int].observer->0,
                level: spec_normalize(l, prev[i as int].float),
            };
            assert(es == rest.push(ev2));
            assert(es.drop_last() =~= rest);
            assert(es.last() == ev2);
            assert(count_for_pin(es, p) == count_for_pin(rest, p) + if i == p {
                1nat
            } else {
                0nat
            });
            if i == p {
                assert(ev2 == LevelChange {
                    pin: p,
                    device: pins[p as int].observer->0,
                    level: spec_normalize(l, pins[p as int].float),
                });
                assert(es[es.len() - 1] == ev2);
                assert(es.contains(ev2));
            } else if members.drop_last().contains(p) && update_notifies(pins[p as int], l) {
                let ev = LevelChange {
                    pin: p,
                    device: pins[p as int].observer->0,
                    level: spec_normalize(l, pins[p as int].float),
                };
                let j = choose|j: int| 0 <= j < rest.len() && rest[j] == ev;
                assert(es[j] == ev);
                assert(es.contains(ev));
            }
        } else {
            assert(es == rest);
        }
    }
}

/// A non-excluded member that drives bounds the scan from below.
pub proof fn lemma_driver_max_covers(
    pins: Seq<Pin>,
    members: Seq<usize>,
    excl: Option<usize>,
    k: int,
)
    requires
        0 <= k < members.len(),
        excl != Some(members[k]),
        (members[k] as int) < pins.len(),
        spec_driver(pins[members[k] as int]),
    ensures
        driver_max(pins, members, excl) matches Some(mx) && pins[members[k] as int].level->0 <= mx,
    decreases members.len(),
{
    if k < members.len() - 1 {
        assert(members.drop_last()[k] == members[k]);
        lemma_driver_max_covers(pins, members.drop_last(), excl, k);
    }
}

/// The scan reads only each member's driver status and, for drivers, its
/// level: two pin arrays that agree on those scan alike.
pub proof fn lemma_driver_max_congruent(
    pins1: Seq<Pin>,
    pins2: Seq<Pin>,
    members: Seq<usize>,
    excl: Option<usize>,
)
    requires
        pins2.len() == pins1.len(),
        forall|k: int|
            0 <= k < members.len() ==> {
                let q = #[trigger] members[k];
                excl == Some(q) || (q as int) >= pins1.len() || (spec_driver(pins2[q as int])
                    == spec_driver(pins1[q as int]) && (spec_driver(pins1[q as int])
                    ==> pins2[q as int].level == pins1[q as int].level))
            },
    ensures
        driver_max(pins1, members, excl) == driver_max(pins2, members, excl),
    decreases members.len(),
{
    if members.len() > 0 {
        assert(forall|k: int|
            0 <= k < members.drop_last().len() ==> members.drop_last()[k] == members[k]);
        lemma_driver_max_congruent(pins1, pins2, members.drop_last(), excl);
    }
}

/// The driving pin wins.  When an output-capable pin on a trace is set to
/// a defined level at least as high as every defined level any other pin
/// of that trace holds, the trace resolves to exactly that value.
pub proof fn law_output_drive_wins(m: NetModel, p: usize, t: usize, v: i64)
    requires
        m.wf(),
        (p as int) < m.pins.len(),
        m.pins[p as int].trace == Some(t),
        m.pins[p as int].mode == Mode::Output || m.pins[p as int].mode == Mode::Bidirectional,
        forall|k: int|
            0 <= k < m.traces[t as int].pins.len() ==> {
                let q = #[trigger] m.traces[t as int].pins[k];
                q == p || m.pins[q as int].level is None || m.pins[q as int].level->0 <= v
            },
    ensures
        pin_set_level_model(m, p as int, Some(v)).traces[t as int].level == Some(v),
{
    let pin = m.pins[p as int];
    let n = spec_normalize(Some(v), pin.float);
    assert(n == Some(v));
    let m1pins = m.pins.update(p as int, Pin { level: Some(v), ..pin });
    let members = m.traces[t as int].pins;
    assert(forall|k: int|
        0 <= k < members.len() ==> {
            let q = #[trigger] members[k];
            Some(p) == Some(q) || (q as int) >= m1pins.len() || !spec_driver(m1pins[q as int])
                || m1pins[q as int].level->0 <= v
        });
    lemma_driver_max_le(m1pins, members, Some(p), v);
}

/// A trace set directly reaches its listening pins.  When a trace with no
/// driving pin is set directly to a defined value, every member pin in
/// `Input` mode adopts exactly that value, and its observer, if any, is
/// notified exactly once if the value differs from the pin's previous
/// level and not at all otherwise.
pub proof fn law_direct_set_reaches_input(m: NetModel, t: usize, p: usize, v: i64)
    requires
        m.wf(),
        (t as int) < m.traces.len(),
        m.traces[t as int].pins.contains(p),
        m.pins[p as int].mode == Mode::Input,
        forall|k: int|
            0 <= k < m.traces[t as int].pins.len() ==> !spec_driver(
                m.pins[#[trigger] m.traces[t as int].pins[k] as int],
            ),
    ensures
        trace_set_model(m, t as int, Some(v)).pins[p as int].level == Some(v),
        count_for_pin(trace_set_model(m, t as int, Some(v)).events, p) == count_for_pin(
            m.events,
            p,
        ) + if m.pins[p as int].level != Some(v) && m.pins[p as int].observer is Some {
            1nat
        } else {
            0nat
        },
        m.pins[p as int].level != Some(v) && m.pins[p as int].observer is Some
            ==> trace_set_model(m, t as int, Some(v)).events.contains(LevelChange {
                pin: p,
                device: m.pins[p as int].observer->0,
                level: Some(v),
            }),
{
    let members = m.traces[t as int].pins;
    let float = m.traces[t as int].float;
    lemma_driver_max_none(m.pins, members, None);
    let nl = resolved_level(m.pins, members, float, Some(v), None, false);
    assert(nl == Some(v));
    let kp = choose|kp: int| 0 <= kp < members.len() && members[kp] == p;
    lemma_push_member(m.pins, members, nl, None, kp);
    assert(pins_after_push(m.pins, members, nl, None)[p as int] == pin_updated(
        m.pins[p as int],
        Some(v),
    ));
    lemma_push_events_for_pin(m.pins, members, nl, None, p);
    lemma_count_concat(m.events, events_after_push(m.pins, members, nl, None), p);
    assert(update_notifies(m.pins[p as int], Some(v)) == (m.pins[p as int].level != Some(v)
        && m.pins[p as int].observer is Some));
    if m.pins[p as int].level != Some(v) && m.pins[p as int].observer is Some {
        let pushed = events_after_push(m.pins, members, nl, None);
        let ev = LevelChange {
            pin: p,
            device: m.pins[p as int].observer->0,
            level: Some(v),
        };
        assert(pushed.contains(ev));
        let j = choose|j: int| 0 <= j < pushed.len() && pushed[j] == ev;
        assert((m.events + pushed)[m.events.len() + j] == ev);
    }
}

/// Mode-change round trip.  A pin in `Output` mode holding the defined
/// level that its trace shows, with no other driver on that trace, can be
/// switched to `Input` and back to `Output`: the switch back restores the
/// trace's level to the original value.  Any Bidirectional neighbour must
/// be one that the withdrawal leaves undriven (its pull and the trace's
/// together resolve to an absent level), or it would adopt a default
/// mid-way and drive the wire itself.
pub proof fn law_mode_round_trip(m: NetModel, p: usize, t: usize, v: i64)
    requires
        m.wf(),
        (p as int) < m.pins.len(),
        m.pins[p as int].trace == Some(t),
        m.pins[p as int].mode == Mode::Output,
        m.pins[p as int].level == Some(v),
        m.traces[t as int].level == Some(v),
        forall|k: int|
            0 <= k < m.traces[t as int].pins.len() ==> {
                let q = #[trigger] m.traces[t as int].pins[k];
                q == p || !spec_driver(m.pins[q as int])
            },
        forall|k: int|
            0 <= k < m.traces[t as int].pins.len() ==> {
                let q = #[trigger] m.traces[t as int].pins[k];
                q == p || m.pins[q as int].mode != Mode::Bidirectional || spec_normalize(
                    m.traces[t as int].float,
                    m.pins[q as int].float,
                ) is None
            },
    ensures
        pin_set_mode_model(
            pin_set_mode_model(m, p as int, Mode::Input),
            p as int,
            Mode::Output,
        ).traces[t as int].level == Some(v),
{
    let pin = m.pins[p as int];
    let members = m.traces[t as int].pins;
    let float_t = m.traces[t as int].float;
    // Switching to Input: the pin adopts the trace's level (still v) and
    // withdraws its driver value; with nothing left driving, the trace
    // re-resolves to its pull default, which is what reaches the members.
    let pulled = spec_normalize(m.traces[t as int].level, pin.float);
    assert(pulled == Some(v));
    let m2pre = NetModel {
        pins: m.pins.update(p as int, Pin { mode: Mode::Input, level: pulled, ..pin }),
        ..m
    };
    let m2 = pin_set_mode_model(m, p as int, Mode::Input);
    assert(m2 == trace_updated_model(m2pre, t as int, None, p));
    assert(forall|k: int|
        0 <= k < members.len() ==> {
            let q = #[trigger] members[k];
            Some(p) == Some(q) || (q as int) >= m2pre.pins.len() || !spec_driver(
                m2pre.pins[q as int],
            )
        });
    lemma_driver_max_none(m2pre.pins, members, Some(p));
    let agg = resolved_level(m2pre.pins, members, float_t, None, Some(p), true);
    assert(agg == float_t);
    lemma_push_len(m2pre.pins, members, agg, Some(p));
    lemma_push_fields(m2pre.pins, members, agg, Some(p));
    lemma_push_untouched(m2pre.pins, members, agg, Some(p), p as int);
    assert(m2.pins[p as int] == Pin { mode: Mode::Input, level: Some(v), ..pin });
    assert(m2.traces[t as int].pins == members);
    // No member but the pin itself drives afterwards either: a push never
    // changes a pin's mode, a pin that does not listen keeps its level,
    // and an undriven Bidirectional member can only adopt an absent
    // default.
    assert(forall|k: int|
        0 <= k < members.len() ==> {
            let q = #[trigger] members[k];
            q == p || !spec_driver(m2.pins[q as int])
        }) by {
        assert forall|k: int| 0 <= k < members.len() && members[k] != p implies !spec_driver(
            m2.pins[members[k] as int],
        ) by {
            let q = members[k];
            assert((q as int) < m.pins.len());
            assert(m2pre.pins[q as int] == m.pins[q as int]);
            lemma_push_member(m2pre.pins, members, agg, Some(p), k);
            assert(m2.pins[q as int] == pin_updated(m.pins[q as int], agg));
            if m.pins[q as int].mode == Mode::Bidirectional {
                assert(m.pins[q as int].level is None);
                assert(spec_normalize(agg, m.pins[q as int].float) is None);
            }
        }
    }
    // Switching back to Output pushes the kept level v; with no other
    // driver the resolution adopts it.
    let pin2 = m2.pins[p as int];
    let m3pre = NetModel {
        pins: m2.pins.update(p as int, Pin { mode: Mode::Output, ..pin2 }),
        ..m2
    };
    let m3 = pin_set_mode_model(m2, p as int, Mode::Output);
    assert(m3 == trace_updated_model(m3pre, t as int, Some(v), p));
    assert(forall|k: int|
        0 <= k < members.len() ==> {
            let q = #[trigger] members[k];
            Some(p) == Some(q) || (q as int) >= m3pre.pins.len() || !spec_driver(
                m3pre.pins[q as int],
            )
        });
    lemma_driver_max_none(m3pre.pins, members, Some(p));
    assert(resolved_level(
        m3pre.pins,
        members,
        m2.traces[t as int].float,
        Some(v),
        Some(p),
        true,
    ) == Some(v));
}

/// Setting a pin to the value it already produced is idempotent: repeating
/// a direct level request with the same value raises no further
/// notification, whatever the pin's mode — provided no other Bidirectional
/// pin of the wire carries a pull default.  (Such a neighbour can adopt
/// its pull while the wire floats and then drive the wire on the repeat.)
pub proof fn law_set_level_idempotent(m: NetModel, p: usize, l: Level)
    requires
        m.wf(),
        (p as int) < m.pins.len(),
        m.pins[p as int].trace matches Some(t) ==> forall|k: int|
            0 <= k < m.traces[t as int].pins.len() ==> {
                let q = #[trigger] m.traces[t as int].pins[k];
                q == p || m.pins[q as int].mode != Mode::Bidirectional || m.pins[q as int].float
                    is None
            },
    ensures
        pin_set_level_model(pin_set_level_model(m, p as int, l), p as int, l).events
            == pin_set_level_model(m, p as int, l).events,
{
    let pin = m.pins[p as int];
    let n = spec_normalize(l, pin.float);
    let m1 = pin_set_level_model(m, p as int, l);
    if pin.mode == Mode::Input {
        assert(m1 == m);
    } else {
        match pin.trace {
            None => {
                assert(m1.pins[p as int].float == pin.float);
                assert(pin_set_level_model(m1, p as int, l).events == m1.events);
            },
            Some(t) => {
                match pin.mode {
                    Mode::Unconnected => {
                        assert(pin_set_level_model(m1, p as int, l).events == m1.events);
                    },
                    _ => {
                        let members = m.traces[t as int].pins;
                        let float_t = m.traces[t as int].float;
                        let m1pre = NetModel {
                            pins: m.pins.update(p as int, Pin { level: n, ..pin }),
                            ..m
                        };
                        assert(m1 == trace_updated_model(m1pre, t as int, n, p));
                        let agg = resolved_level(m1pre.pins, members, float_t, n, Some(p), true);
                        let dm1 = driver_max(m1pre.pins, members, Some(p));
                        lemma_push_len(m1pre.pins, members, agg, Some(p));
                        lemma_push_fields(m1pre.pins, members, agg, Some(p));
                        lemma_push_untouched(m1pre.pins, members, agg, Some(p), p as int);
                        assert(m1.pins[p as int] == Pin { level: n, ..pin });
                        assert((t as int) < m.traces.len());
                        assert(m1.traces[t as int].pins == members);
                        assert(m1.traces[t as int].float == float_t);
                        assert(forall|k1: int, k2: int|
                            0 <= k1 < members.len() && 0 <= k2 < members.len() && k1 != k2
                                ==> members[k1] != members[k2]);
                        // Every member's state after the first push.
                        assert forall|k: int| 0 <= k < members.len() && members[k] != p implies
                            m1.pins[members[k] as int] == pin_updated(
                            m.pins[members[k] as int],
                            agg,
                        ) by {
                            let q = members[k];
                            assert((q as int) < m.pins.len());
                            assert(m1pre.pins[q as int] == m.pins[q as int]);
                            lemma_push_member(m1pre.pins, members, agg, Some(p), k);
                        }
                        // The second request normalizes to the same value
                        // and leaves the pin array unchanged.
                        let pin2 = m1.pins[p as int];
                        assert(spec_normalize(l, pin2.float) == n);
                        let m2pre = NetModel {
                            pins: m1.pins.update(p as int, Pin { level: n, ..pin2 }),
                            ..m1
                        };
                        assert(m2pre.pins =~= m1.pins);
                        let m2 = pin_set_level_model(m1, p as int, l);
                        assert(m2 == trace_updated_model(m2pre, t as int, n, p));
                        let agg2 = resolved_level(m2pre.pins, members, float_t, n, Some(p), true);
                        // The aggregate is stable: the first push left the
                        // drivers either untouched or already holding it.
                        if agg is Some {
                            let a = agg->0;
                            assert(n is Some ==> n->0 <= a);
                            assert forall|k: int| 0 <= k < members.len() implies {
                                let q = #[trigger] members[k];
                                Some(p) == Some(q) || (q as int) >= m2pre.pins.len()
                                    || !spec_driver(m2pre.pins[q as int])
                                    || m2pre.pins[q as int].level->0 <= a
                            } by {
                                let q = members[k];
                                if q != p {
                                    assert(m2pre.pins[q as int] == pin_updated(
                                        m.pins[q as int],
                                        agg,
                                    ));
                                    if m2pre.pins[q as int] == m.pins[q as int] {
                                        if spec_driver(m.pins[q as int]) {
                                            lemma_driver_max_covers(
                                                m1pre.pins,
                                                members,
                                                Some(p),
                                                k,
                                            );
                                        }
                                    }
                                }
                            }
                            lemma_driver_max_le(m2pre.pins, members, Some(p), a);
                            if exists|k: int|
                                0 <= k < members.len() && (#[trigger] members[k]) != p
                                    && m.pins[members[k] as int].mode == Mode::Bidirectional {
                                let k0 = choose|k0: int|
                                    0 <= k0 < members.len() && (#[trigger] members[k0]) != p
                                        && m.pins[members[k0] as int].mode == Mode::Bidirectional;
                                let q0 = members[k0];
                                assert(m2pre.pins[q0 as int] == pin_updated(
                                    m.pins[q0 as int],
                                    agg,
                                ));
                                assert(m2pre.pins[q0 as int].level == Some(a));
                                assert(spec_driver(m2pre.pins[q0 as int]));
                                lemma_driver_max_covers(m2pre.pins, members, Some(p), k0);
                                assert(agg2 == Some(a));
                            } else {
                                assert forall|k: int| 0 <= k < members.len() implies {
                                    let q = #[trigger] members[k];
                                    Some(p) == Some(q) || (q as int) >= m1pre.pins.len() || (
                                    spec_driver(m2pre.pins[q as int]) == spec_driver(
                                        m1pre.pins[q as int],
                                    ) && (spec_driver(m1pre.pins[q as int])
                                        ==> m2pre.pins[q as int].level
                                        == m1pre.pins[q as int].level))
                                } by {
                                    let q = members[k];
                                    if q != p {
                                        assert(m.pins[q as int].mode != Mode::Bidirectional);
                                        assert(m2pre.pins[q as int] == pin_updated(
                                            m.pins[q as int],
                                            agg,
                                        ));
                                    }
                                }
                                lemma_driver_max_congruent(
                                    m1pre.pins,
                                    m2pre.pins,
                                    members,
                                    Some(p),
                                );
                                assert(agg2 == agg);
                            }
                        } else {
                            assert(dm1 is None && n is None && float_t is None);
                            assert forall|k: int| 0 <= k < members.len() implies {
                                let q = #[trigger] members[k];
                                Some(p) == Some(q) || (q as int) >= m2pre.pins.len()
                                    || !spec_driver(m2pre.pins[q as int])
                            } by {
                                let q = members[k];
                                if q != p {
                                    assert(m2pre.pins[q as int] == pin_updated(
                                        m.pins[q as int],
                                        agg,
                                    ));
                                    if m.pins[q as int].mode == Mode::Bidirectional {
                                        assert(m.pins[q as int].float is None);
                                        assert(spec_normalize(agg, m.pins[q as int].float)
                                            is None);
                                    } else if m.pins[q as int].mode == Mode::Input {
                                        assert(!spec_driver(m2pre.pins[q as int]));
                                    } else {
                                        assert(m2pre.pins[q as int] == m.pins[q as int]);
                                        if spec_driver(m1pre.pins[q as int]) {
                                            lemma_driver_max_covers(m1pre.pins, members, Some(p), k);
                                        }
                                    }
                                }
                            }
                            lemma_driver_max_none(m2pre.pins, members, Some(p));
                            assert(agg2 == agg);
                        }
                        // With the same value pushed again, no member's
                        // level changes and nobody is notified.
                        assert forall|k: int| 0 <= k < members.len() && members[k] != p implies
                            !update_notifies(m2pre.pins[members[k] as int], agg2) by {
                            let q = members[k];
                            assert(m2pre.pins[q as int] == pin_updated(m.pins[q as int], agg));
                        }
                        assert(forall|k: int|
                            0 <= k < members.len() ==> {
                                let q = #[trigger] members[k];
                                Some(p) == Some(q) || (q as int) >= m2pre.pins.len()
                                    || !update_notifies(m2pre.pins[q as int], agg2)
                            });
                        lemma_push_no_events(m2pre.pins, members, agg2, Some(p));
                        assert(m2.events =~= m1.events);
                    },
                }
            },
        }
    }
}

/// The pull defaults govern absent levels.  Floating a pin that is pulled
/// up or down leaves it at the pull level, and floating one with no pull
/// leaves it floating — for every mode in which the request reaches the
/// pin at all.
pub proof fn law_pin_pull_default(m: NetModel, p: usize)
    requires
        m.wf(),
        (p as int) < m.pins.len(),
        m.pins[p as int].mode != Mode::Input,
    ensures
        pin_set_level_model(m, p as int, None).pins[p as int].level == m.pins[p as int].float,
{
    let pin = m.pins[p as int];
    match pin.trace {
        None => {},
        Some(t) => {
            match pin.mode {
                Mode::Unconnected => {},
                Mode::Input => {},
                _ => {
                    let members = m.traces[t as int].pins;
                    let float_t = m.traces[t as int].float;
                    let m1pre = NetModel {
                        pins: m.pins.update(p as int, Pin { level: pin.float, ..pin }),
                        ..m
                    };
                    let agg = resolved_level(m1pre.pins, members, float_t, pin.float, Some(p), true);
                    lemma_push_untouched(m1pre.pins, members, agg, Some(p), p as int);
                },
            }
        },
    }
}

/// The same, for a trace with no driving pin: a direct absent request
/// resolves to the trace's own pull default.
pub proof fn law_trace_pull_default(m: NetModel, t: usize)
    requires
        m.wf(),
        (t as int) < m.traces.len(),
        forall|k: int|
            0 <= k < m.traces[t as int].pins.len() ==> !spec_driver(
                m.pins[#[trigger] m.traces[t as int].pins[k] as int],
            ),
    ensures
        trace_set_model(m, t as int, None).traces[t as int].level == m.traces[t as int].float,
{
    lemma_driver_max_none(m.pins, m.traces[t as int].pins, None);
}

} // verus!
