//! What the debounce of the thermal delimiter rests on: the changes of the charging status that
//! the daemon really saw.

use vstd::prelude::*;
use crate::battery::ChargeState;
use crate::daemon::Pending;
use crate::daemon::Reading;
use crate::daemon::State;
use crate::daemon::TickNext;
use crate::history;
use crate::history::Happening;

verus! {

/// The charge state that was read, where this is a tick whose reading succeeded.
pub open spec fn state_read(h: Happening) -> Option<ChargeState> {
    match h {
        Happening::Tick { reading: Reading::Battery { cap, state }, now, thermal_ok, path_ok } =>
            Some(state),
        _ => None,
    }
}

/// The time of a tick.
pub open spec fn time_of(h: Happening) -> u64 {
    match h {
        Happening::Tick { reading, now, thermal_ok, path_ok } => now,
        _ => 0,
    }
}

/// Whether a charge state was read at `i`, and none was read later.
pub open spec fn is_last_read(history: Seq<Happening>, i: int) -> bool {
    &&& 0 <= i < history.len()
    &&& state_read(history[i]) is Some
    &&& forall|k: int| i < k < history.len() ==> state_read(#[trigger] history[k]) is None
}

/// Whether the charging status changed from `i` to `j`: it was read at both and between them
/// never, and the battery was charging at one of them only.
pub open spec fn is_change(history: Seq<Happening>, i: int, j: int) -> bool {
    &&& 0 <= i < j < history.len()
    &&& state_read(history[i]) is Some
    &&& state_read(history[j]) is Some
    &&& forall|k: int| i < k < j ==> state_read(#[trigger] history[k]) is None
    &&& (state_read(history[i])->0 is Charging) != (state_read(history[j])->0 is Charging)
}

/// Whether the last change of the charging status was at `j`.
pub open spec fn is_last_change(history: Seq<Happening>, j: int) -> bool {
    &&& exists|i: int| #[trigger] is_change(history, i, j)
    &&& forall|a: int, b: int| #[trigger] is_change(history, a, b) ==> b <= j
}

proof fn change_in_a_longer_history(history: Seq<Happening>, i: int, j: int)
    requires
        history.len() > 0,
        j < history.len() - 1,
    ensures
        is_change(history, i, j) <==> is_change(history.drop_last(), i, j),
{
    let earlier = history.drop_last();
    assert(forall|k: int| 0 <= k < earlier.len() ==> earlier[k] == history[k]);
    if is_change(history, i, j) {
        assert forall|k: int| i < k < j implies state_read(#[trigger] earlier[k]) is None by {
            assert(earlier[k] == history[k]);
        }
    }
    if is_change(earlier, i, j) {
        assert forall|k: int| i < k < j implies state_read(#[trigger] history[k]) is None by {
            assert(earlier[k] == history[k]);
        }
    }
}

/// The charge state that a daemon remembers is the last one that it read, if it read any.
pub proof fn last_state_is_the_last_read(s: State, history: Seq<Happening>)
    requires
        s.last_state is None,
    ensures
        history::after_all(s, history).last_state is None <==> forall|k: int|
            0 <= k < history.len() ==> state_read(#[trigger] history[k]) is None,
        forall|i: int| #[trigger]
            is_last_read(history, i) ==> history::after_all(s, history).last_state == state_read(
                history[i],
            ),
        history::after_all(s, history).last_state is Some ==> exists|i: int| #[trigger]
            is_last_read(history, i),
    decreases history.len(),
{
    if history.len() > 0 {
        let earlier = history.drop_last();
        let n = history.len() - 1;
        last_state_is_the_last_read(s, earlier);
        let before = history::after_all(s, earlier);
        let after = history::after_all(s, history);
        assert(history[n] == history.last());
        assert(forall|k: int| 0 <= k < n ==> earlier[k] == history[k]);
        if state_read(history.last()) is Some {
            assert(after.last_state == state_read(history.last()));
            assert(is_last_read(history, n));
            assert forall|i: int| #[trigger] is_last_read(history, i) implies i == n by {
                if i < n {
                    assert(state_read(history[n]) is None);
                }
            }
        } else {
            assert(after.last_state == before.last_state);
            assert forall|i: int| #[trigger] is_last_read(history, i) implies is_last_read(
                earlier,
                i,
            ) by {
                assert(i != n);
                assert forall|k: int| i < k < earlier.len() implies state_read(
                    #[trigger] earlier[k],
                ) is None by {
                    assert(earlier[k] == history[k]);
                }
            }
            assert forall|i: int| #[trigger] is_last_read(earlier, i) implies is_last_read(
                history,
                i,
            ) by {
                assert forall|k: int| i < k < history.len() implies state_read(
                    #[trigger] history[k],
                ) is None by {
                    if k < n {
                        assert(earlier[k] == history[k]);
                    }
                }
            }
            if after.last_state is Some {
                let i = choose|i: int| #[trigger] is_last_read(earlier, i);
                assert(is_last_read(history, i));
            }
            if forall|k: int| 0 <= k < history.len() ==> state_read(#[trigger] history[k]) is None {
                assert forall|k: int| 0 <= k < earlier.len() implies state_read(
                    #[trigger] earlier[k],
                ) is None by {
                    assert(earlier[k] == history[k]);
                }
            }
            if after.last_state is None {
                assert forall|k: int| 0 <= k < history.len() implies state_read(
                    #[trigger] history[k],
                ) is None by {
                    if k < n {
                        assert(earlier[k] == history[k]);
                    }
                }
            }
        }
    }
}

/// The time that a daemon remembers as that of the last change of the charging status is the time
/// of the tick at which it last changed, and there is none as long as it never changed. A tick
/// that reads the same charging status again, or a failed one, is no change.
pub proof fn last_flip_is_the_last_change(s: State, history: Seq<Happening>)
    requires
        s.last_state is None,
        s.last_charge_flip is None,
    ensures
        history::after_all(s, history).last_charge_flip is None <==> forall|i: int, j: int|
            !#[trigger] is_change(history, i, j),
        history::after_all(s, history).last_charge_flip matches Some(t) ==> exists|j: int| #[trigger]
            is_last_change(history, j) && time_of(history[j]) == t,
        forall|j: int| #[trigger]
            is_last_change(history, j) ==> history::after_all(s, history).last_charge_flip == Some(
                time_of(history[j]),
            ),
    decreases history.len(),
{
    if history.len() > 0 {
        let earlier = history.drop_last();
        let n = history.len() - 1;
        last_flip_is_the_last_change(s, earlier);
        last_state_is_the_last_read(s, earlier);
        let before = history::after_all(s, earlier);
        let after = history::after_all(s, history);
        assert(history[n] == history.last());
        assert(forall|k: int| 0 <= k < n ==> earlier[k] == history[k]);
        assert forall|i: int, j: int| j < n implies (#[trigger] is_change(history, i, j)
            <==> is_change(earlier, i, j)) by {
            change_in_a_longer_history(history, i, j);
        }
        let flipped = before.last_state is Some && state_read(history.last()) is Some && (
        before.last_state->0 is Charging) != (state_read(history.last())->0 is Charging);
        if flipped {
            let i = choose|i: int| #[trigger] is_last_read(earlier, i);
            assert forall|k: int| i < k < n implies state_read(#[trigger] history[k]) is None by {
                assert(earlier[k] == history[k]);
            }
            assert(earlier[i] == history[i]);
            assert(is_change(history, i, n));
            assert(is_last_change(history, n));
            assert(after.last_charge_flip == Some(time_of(history[n])));
            assert forall|j: int| #[trigger] is_last_change(history, j) implies j == n by {
                assert(is_change(history, i, n));
            }
        } else {
            assert(after.last_charge_flip == before.last_charge_flip);
            assert forall|i: int, j: int| #[trigger] is_change(history, i, j) implies j < n by {
                if j == n {
                    assert(is_last_read(earlier, i)) by {
                        assert(earlier[i] == history[i]);
                        assert forall|k: int| i < k < earlier.len() implies state_read(
                            #[trigger] earlier[k],
                        ) is None by {
                            assert(earlier[k] == history[k]);
                        }
                    }
                    assert(flipped);
                }
            }
            assert forall|j: int| #[trigger] is_last_change(history, j) <==> is_last_change(
                earlier,
                j,
            ) by {
                if is_last_change(history, j) {
                    let i = choose|i: int| #[trigger] is_change(history, i, j);
                    assert(is_change(earlier, i, j));
                    assert forall|a: int, b: int| #[trigger] is_change(earlier, a, b) implies b
                        <= j by {
                        assert(is_change(history, a, b));
                    }
                }
                if is_last_change(earlier, j) {
                    let i = choose|i: int| #[trigger] is_change(earlier, i, j);
                    assert(is_change(history, i, j));
                    assert forall|a: int, b: int| #[trigger] is_change(history, a, b) implies b
                        <= j by {
                        assert(is_change(earlier, a, b));
                    }
                }
            }
            if after.last_charge_flip is Some {
                let j = choose|j: int| #[trigger]
                    is_last_change(earlier, j) && time_of(earlier[j])
                        == before.last_charge_flip->0;
                assert(is_last_change(history, j));
                assert(earlier[j] == history[j]);
            }
            assert forall|j: int| #[trigger] is_last_change(history, j) implies
                after.last_charge_flip == Some(time_of(history[j])) by {
                assert(is_last_change(earlier, j));
                assert(earlier[j] == history[j]);
            }
            if before.last_charge_flip is None {
                assert forall|i: int, j: int| !#[trigger] is_change(history, i, j) by {
                    if is_change(history, i, j) {
                        assert(is_change(earlier, i, j));
                    }
                }
            } else {
                let j = choose|j: int| #[trigger]
                    is_last_change(earlier, j) && time_of(earlier[j])
                        == before.last_charge_flip->0;
                let i = choose|i: int| #[trigger] is_change(earlier, i, j);
                assert(is_change(history, i, j));
            }
        }
    }
}

/// A tick asks for the thermal delimiter to be switched exactly if its state differs from the
/// charging status, unless the charging status changes at this tick and had changed, at a tick
/// less than two seconds ago. Without an earlier change nothing is held back.
pub proof fn only_a_recent_change_holds_back(
    s: State,
    history: Seq<Happening>,
    cap: u8,
    state: ChargeState,
    now: u64,
)
    requires
        s.last_state is None,
        s.last_charge_flip is None,
    ensures
        ({
            let before = history::after_all(s, history);
            let next = before.reading_step(Reading::Battery { cap, state }, now).next;
            let changes = exists|i: int| #[trigger]
                is_last_read(history, i) && (state_read(history[i])->0 is Charging) != (
                state is Charging);
            let recent = exists|j: int| #[trigger]
                is_last_change(history, j) && now - time_of(history[j]) < 2_000_000_000;
            &&& (next matches TickNext::Run(p) && p is Thermal) <==> (state is Charging)
                != before.thermal_on && !(changes && recent)
            &&& next matches TickNext::Run(Pending::Thermal { cap: c, charging }) ==> c == cap
                && charging == (state is Charging)
        }),
{
    last_state_is_the_last_read(s, history);
    last_flip_is_the_last_change(s, history);
    let before = history::after_all(s, history);
    let changes = exists|i: int| #[trigger]
        is_last_read(history, i) && (state_read(history[i])->0 is Charging) != (state is Charging);
    let recent = exists|j: int| #[trigger]
        is_last_change(history, j) && now - time_of(history[j]) < 2_000_000_000;
    assert(before.flips(state) <==> changes) by {
        if before.flips(state) {
            let i = choose|i: int| #[trigger] is_last_read(history, i);
            assert(before.last_state == state_read(history[i]));
        }
        if changes {
            let i = choose|i: int| #[trigger]
                is_last_read(history, i) && (state_read(history[i])->0 is Charging) != (
                state is Charging);
            assert(before.last_state == state_read(history[i]));
        }
    }
    assert(before.debounces(now) <==> recent) by {
        if before.debounces(now) {
            let t = before.last_charge_flip->0;
            let j = choose|j: int| #[trigger]
                is_last_change(history, j) && time_of(history[j]) == t;
            assert(is_last_change(history, j) && now - time_of(history[j]) < 2_000_000_000);
        }
        if recent {
            let j = choose|j: int| #[trigger]
                is_last_change(history, j) && now - time_of(history[j]) < 2_000_000_000;
            assert(before.last_charge_flip == Some(time_of(history[j])));
        }
    }
}

} // verus!
