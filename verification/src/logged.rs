//! What the daemon logs: its lines one by one, and what they have in common.

use vstd::prelude::*;
use crate::battery::ChargeState;
use crate::daemon;
use crate::daemon::CutState;
use crate::daemon::Pending;
use crate::daemon::Reading;
use crate::daemon::State;
use crate::logger;
use crate::logline;
use crate::mtk;
use crate::mtk::MtkError;
use crate::record;
use crate::record::Entry;
use crate::record::LogRecord;
use crate::run;
use crate::run::Act;
use crate::run::RunEvent;
use crate::stats::Stats;
use crate::text;

verus! {

proof fn debug_level_differs()
    ensures
        "INFO"@ != "DEBUG"@,
        "WARN"@ != "DEBUG"@,
        "ERROR"@ != "DEBUG"@,
{
    reveal_strlit("INFO");
    reveal_strlit("WARN");
    reveal_strlit("ERROR");
    reveal_strlit("DEBUG");
    assert("ERROR"@[0] == 'E');
    assert("DEBUG"@[0] == 'D');
    assert("INFO"@.len() != "DEBUG"@.len());
    assert("WARN"@.len() != "DEBUG"@.len());
}

/// Whether no entry has the level `DEBUG`.
pub open spec fn without_debug(logs: Seq<Entry>) -> bool {
    forall|i: int| 0 <= i < logs.len() ==> (#[trigger] logs[i]).level != "DEBUG"@
}

/// Unless debug lines are enabled, no tick and no event of the daemon's life logs one.
pub proof fn debug_lines_need_debug(
    s: State,
    reading: Reading,
    now: u64,
    pending: Pending,
    outcome: Result<(), mtk::MtkError>,
    event: RunEvent,
)
    requires
        !s.debug,
    ensures
        without_debug(s.reading_step(reading, now).logs),
        without_debug(s.command_step(pending, outcome).logs),
        without_debug(run::run_entries(s, event)),
{
    debug_level_differs();
}

/// Whether an entry names its event before all else, and its keys can be told from its values.
pub open spec fn names_its_event(e: Entry) -> bool {
    e.kv.len() > 0 && e.kv[0].0 == "event"@ && logline::keys_are_plain(e.kv)
}

/// Whether every entry names its event.
pub open spec fn all_name_their_event(logs: Seq<Entry>) -> bool {
    forall|i: int| 0 <= i < logs.len() ==> names_its_event(#[trigger] logs[i])
}

proof fn keys_hold_no_mark()
    ensures
        !"event"@.contains('='),
        !"cap"@.contains('='),
        !"state"@.contains('='),
        !"charging"@.contains('='),
        !"cut"@.contains('='),
        !"thermal_on"@.contains('='),
        !"status"@.contains('='),
        !"elapsed_ms"@.contains('='),
        !"threshold_ms"@.contains('='),
        !"reason"@.contains('='),
        !"result"@.contains('='),
        !"err"@.contains('='),
        !"hint"@.contains('='),
        !"cutoff"@.contains('='),
        !"resume"@.contains('='),
        !"boot_id"@.contains('='),
        !"ticks"@.contains('='),
        !"events_recv"@.contains('='),
        !"relevant"@.contains('='),
        !"irrelevant"@.contains('='),
        !"drained"@.contains('='),
        !"thermal_toggles"@.contains('='),
        !"errors"@.contains('='),
        !"version"@.contains('='),
        !"debug"@.contains('='),
        !"stats_mode"@.contains('='),
        !"config_path"@.contains('='),
        !"log_file"@.contains('='),
        !"fd"@.contains('='),
        !"mode"@.contains('='),
        !"fallback"@.contains('='),
        !"final"@.contains('='),
        !"payload"@.contains('='),
        !"errno_kind"@.contains('='),
        !"retry_secs"@.contains('='),
        !"restored"@.contains('='),
{
    reveal_strlit("event");
    reveal_strlit("cap");
    reveal_strlit("state");
    reveal_strlit("charging");
    reveal_strlit("cut");
    reveal_strlit("thermal_on");
    reveal_strlit("status");
    reveal_strlit("elapsed_ms");
    reveal_strlit("threshold_ms");
    reveal_strlit("reason");
    reveal_strlit("result");
    reveal_strlit("err");
    reveal_strlit("hint");
    reveal_strlit("cutoff");
    reveal_strlit("resume");
    reveal_strlit("boot_id");
    reveal_strlit("ticks");
    reveal_strlit("events_recv");
    reveal_strlit("relevant");
    reveal_strlit("irrelevant");
    reveal_strlit("drained");
    reveal_strlit("thermal_toggles");
    reveal_strlit("errors");
    reveal_strlit("version");
    reveal_strlit("debug");
    reveal_strlit("stats_mode");
    reveal_strlit("config_path");
    reveal_strlit("log_file");
    reveal_strlit("fd");
    reveal_strlit("mode");
    reveal_strlit("fallback");
    reveal_strlit("final");
    reveal_strlit("payload");
    reveal_strlit("errno_kind");
    reveal_strlit("retry_secs");
    reveal_strlit("restored");
}

#[verifier::opaque]
spec fn is_named(e: Entry) -> bool {
    names_its_event(e)
}

proof fn event_names_the_entry(level: Seq<char>, message: Seq<char>, event: Seq<char>)
    ensures
        is_named(Entry::new(level, message).with("event"@, event)),
{
    reveal(is_named);
    keys_hold_no_mark();
}

proof fn further_pair_keeps_the_name(e: Entry, key: Seq<char>, value: Seq<char>)
    requires
        is_named(e),
        !key.contains('='),
    ensures
        is_named(e.with(key, value)),
{
    reveal(is_named);
    let kv = e.with(key, value).kv;
    assert forall|i: int| 0 <= i < kv.len() implies !(#[trigger] kv[i]).0.contains('=') by {
        if i < e.kv.len() {
            assert(kv[i] == e.kv[i]);
        }
    }
}

proof fn counters_keep_the_name(
    s: State,
    level: Seq<char>,
    message: Seq<char>,
    event: Seq<char>,
    key: Seq<char>,
    value: Seq<char>,
)
    requires
        !key.contains('='),
    ensures
        is_named(s.stats_entry(level, message, event, seq![(key, value)])),
{
    reveal(is_named);
    keys_hold_no_mark();
    let kv = s.stats_entry(level, message, event, seq![(key, value)]).kv;
    let counters = s.stats.pairs();
    assert(counters.len() == 9);
    assert forall|i: int| 0 <= i < kv.len() implies !(#[trigger] kv[i]).0.contains('=') by {
        if i >= 3 {
            assert(kv[i] == counters[i - 3]);
        }
    }
}

spec fn all_named(logs: Seq<Entry>) -> bool {
    forall|i: int| 0 <= i < logs.len() ==> is_named(#[trigger] logs[i])
}

proof fn entries_are_named()
    ensures
        forall|level: Seq<char>, message: Seq<char>, event: Seq<char>|
            is_named(#[trigger] Entry::new(level, message).with("event"@, event)),
        forall|e: Entry, key: Seq<char>, value: Seq<char>|
            is_named(e) && !key.contains('=') ==> is_named(#[trigger] e.with(key, value)),
        forall|
            s: State,
            level: Seq<char>,
            message: Seq<char>,
            event: Seq<char>,
            key: Seq<char>,
            value: Seq<char>,
        |
            !key.contains('=') ==> is_named(
                #[trigger] s.stats_entry(level, message, event, seq![(key, value)]),
            ),
{
    assert forall|level: Seq<char>, message: Seq<char>, event: Seq<char>|
        is_named(#[trigger] Entry::new(level, message).with("event"@, event)) by {
        event_names_the_entry(level, message, event);
    }
    assert forall|e: Entry, key: Seq<char>, value: Seq<char>|
        is_named(e) && !key.contains('=') implies is_named(#[trigger] e.with(key, value)) by {
        further_pair_keeps_the_name(e, key, value);
    }
    assert forall|
        s: State,
        level: Seq<char>,
        message: Seq<char>,
        event: Seq<char>,
        key: Seq<char>,
        value: Seq<char>,
    |
        !key.contains('=') implies is_named(
        #[trigger] s.stats_entry(level, message, event, seq![(key, value)]),
    ) by {
        counters_keep_the_name(s, level, message, event, key, value);
    }
}

proof fn path_step_is_named(s: State, cap: u8, charging: bool)
    ensures
        all_named(s.path_step(cap, charging).logs),
{
    entries_are_named();
    keys_hold_no_mark();
}

proof fn reading_step_is_named(s: State, reading: Reading, now: u64)
    ensures
        all_named(s.reading_step(reading, now).logs),
{
    entries_are_named();
    keys_hold_no_mark();
    if let Reading::Battery { cap, state } = reading {
        path_step_is_named(s, cap, state.charging());
        assert(is_named(s.tick_entry(cap, state)));
        assert(is_named(s.state_entry(cap, state)));
        assert(is_named(s.debounce_entry(now)));
    }
}

proof fn command_step_is_named(s: State, pending: Pending, outcome: Result<(), mtk::MtkError>)
    ensures
        all_named(s.command_step(pending, outcome).logs),
{
    entries_are_named();
    keys_hold_no_mark();
    if let Pending::Thermal { cap, charging } = pending {
        path_step_is_named(s, cap, charging);
    }
    assert(is_named(s.success_entry(pending)));
    if let Err(e) = outcome {
        assert(is_named(daemon::failure_entry(pending, e.words())));
    }
}

proof fn run_entries_are_named(s: State, event: RunEvent)
    ensures
        all_named(run::run_entries(s, event)),
{
    entries_are_named();
    keys_hold_no_mark();
}

/// Every line that the daemon logs, in a tick, in an event of its life or at shutdown, names its
/// event in its first pair; and its pairs can be read back from it.
pub proof fn every_line_names_its_event(
    s: State,
    reading: Reading,
    now: u64,
    pending: Pending,
    outcome: Result<(), mtk::MtkError>,
    event: RunEvent,
)
    ensures
        all_name_their_event(s.reading_step(reading, now).logs),
        all_name_their_event(s.command_step(pending, outcome).logs),
        all_name_their_event(run::run_entries(s, event)),
        forall|i: int|
            0 <= i < run::shutdown_acts(s).len() ==> (#[trigger] run::shutdown_acts(
                s,
            )[i] matches Act::Log(e) ==> names_its_event(e)),
{
    reading_step_is_named(s, reading, now);
    command_step_is_named(s, pending, outcome);
    run_entries_are_named(s, event);
    assert forall|i: int| 0 <= i < run::shutdown_acts(s).len() implies (
    #[trigger] run::shutdown_acts(s)[i] matches Act::Log(e) ==> is_named(e)) by {
        entries_are_named();
        keys_hold_no_mark();
    }
    reveal(is_named);
}

/// The words that the log uses for the states, by their variants.
pub proof fn names_in_the_log(state: ChargeState, cut: CutState)
    ensures
        state.name() == match state {
            ChargeState::Charging => "Charging"@,
            ChargeState::Discharging => "Discharging"@,
            ChargeState::Full => "Full"@,
            ChargeState::NotCharging => "NotCharging"@,
            ChargeState::Unknown => "Unknown"@,
        },
        cut.name() == match cut {
            CutState::Charging => "charging"@,
            CutState::CutOff => "cutoff"@,
        },
        state.charging() <==> state is Charging,
{
}

/// A record is logged with its own level, message and pairs; the entries of a list are those of
/// its records, in order.
pub proof fn entries_are_those_of_the_records(records: Seq<LogRecord>, i: int)
    requires
        0 <= i < records.len(),
    ensures
        record::entries(records).len() == records.len(),
        record::entries(records)[i].level == records[i].level@,
        record::entries(records)[i].message == records[i].message@,
        record::entries(records)[i].kv.len() == records[i].kv@.len(),
        forall|k: int|
            0 <= k < records[i].kv@.len() ==> #[trigger] record::entries(records)[i].kv[k] == (
                records[i].kv@[k].0@,
                records[i].kv@[k].1@,
            ),
{
}

/// The counters in the log: each under its own key, in decimal.
pub proof fn counters_in_the_log(stats: Stats)
    ensures
        stats.pairs() == seq![
            ("ticks"@, text::decimal(stats.ticks as nat)),
            ("events_recv"@, text::decimal(stats.events_received as nat)),
            ("relevant"@, text::decimal(stats.events_relevant as nat)),
            ("irrelevant"@, text::decimal(stats.events_irrelevant as nat)),
            ("drained"@, text::decimal(stats.events_drained as nat)),
            ("thermal_toggles"@, text::decimal(stats.thermal_toggles as nat)),
            ("cut"@, text::decimal(stats.cut_events as nat)),
            ("resume"@, text::decimal(stats.resume_events as nat)),
            ("errors"@, text::decimal(stats.errors as nat)),
        ],
{
}

/// The pairs that a tick logs about its reading.
spec fn reading_pairs(
    s: State,
    event: Seq<char>,
    key: Seq<char>,
    cap: u8,
    state: ChargeState,
) -> Seq<(Seq<char>, Seq<char>)> {
    seq![
        ("event"@, event),
        ("cap"@, text::decimal(cap as nat) + seq!['%']),
        (key, state.name()),
        (
            "charging"@,
            if state is Charging {
                "true"@
            } else {
                "false"@
            },
        ),
        ("cut"@, s.cut.name()),
        (
            "thermal_on"@,
            if s.thermal_on {
                "true"@
            } else {
                "false"@
            },
        ),
    ]
}

/// What a tick says of its reading: the capacity in percent, the status, whether it charges, the
/// charging path and the thermal delimiter, as they were before the tick. The debug line and the
/// state line differ in level, message, event and the key of the status alone.
pub proof fn reading_lines(s: State, cap: u8, state: ChargeState, now: u64)
    ensures
        s.tick_entry(cap, state) == (Entry {
            level: "DEBUG"@,
            message: "tick"@,
            kv: seq![
                ("event"@, "tick"@),
                ("cap"@, text::decimal(cap as nat) + seq!['%']),
                ("state"@, state.name()),
                (
                    "charging"@,
                    if state is Charging {
                        "true"@
                    } else {
                        "false"@
                    },
                ),
                ("cut"@, s.cut.name()),
                (
                    "thermal_on"@,
                    if s.thermal_on {
                        "true"@
                    } else {
                        "false"@
                    },
                ),
            ],
        }),
        s.state_entry(cap, state) == (Entry {
            level: "INFO"@,
            message: "state"@,
            kv: seq![
                ("event"@, "state"@),
                ("cap"@, text::decimal(cap as nat) + seq!['%']),
                ("status"@, state.name()),
                (
                    "charging"@,
                    if state is Charging {
                        "true"@
                    } else {
                        "false"@
                    },
                ),
                ("cut"@, s.cut.name()),
                (
                    "thermal_on"@,
                    if s.thermal_on {
                        "true"@
                    } else {
                        "false"@
                    },
                ),
            ],
        }),
        s.last_charge_flip matches Some(flip) ==> now >= flip ==> s.debounce_entry(now) == (Entry {
            level: "DEBUG"@,
            message: "charge flip debounce: suppressing thermal toggle"@,
            kv: seq![
                ("event"@, "charge_flip_suppressed"@),
                ("elapsed_ms"@, text::decimal(((now - flip) / 1_000_000) as nat)),
                ("threshold_ms"@, text::decimal(2000)),
            ],
        }),
{
    text::percentages_end_in_a_sign(cap as nat);
    assert(s.tick_entry(cap, state).kv =~= reading_pairs(s, "tick"@, "state"@, cap, state));
    assert(s.state_entry(cap, state).kv =~= reading_pairs(s, "state"@, "status"@, cap, state));
    if let Some(flip) = s.last_charge_flip {
        if now >= flip {
            assert(s.debounce_entry(now).kv =~= seq![
                ("event"@, "charge_flip_suppressed"@),
                ("elapsed_ms"@, text::decimal(((now - flip) / 1_000_000) as nat)),
                ("threshold_ms"@, text::decimal(2000)),
            ]);
        }
    }
}

/// What a tick logs up to its first command, line by line: with debug its reading; the state, if
/// it differs from the last one in capacity or status; with debug, that a switch of the thermal
/// delimiter is held back, or that it is made; and a cut or a resume, before it is made.
pub proof fn tick_lines(s: State, cap: u8, state: ChargeState, now: u64)
    ensures
        ({
            let charging = state is Charging;
            let flipped = s.last_state is Some && (s.last_state->0 is Charging) != charging;
            let held = flipped && s.last_charge_flip is Some && now - s.last_charge_flip->0
                < 2_000_000_000;
            let switched = charging != s.thermal_on && !held;
            let tick = if s.debug {
                seq![s.tick_entry(cap, state)]
            } else {
                Seq::empty()
            };
            let seen = if s.last_cap == Some(cap) && s.last_state == Some(state) {
                Seq::empty()
            } else {
                seq![s.state_entry(cap, state)]
            };
            let held_back = if s.debug && held {
                seq![s.debounce_entry(now)]
            } else {
                Seq::empty()
            };
            let switching = if s.debug && switched {
                seq![
                    Entry {
                        level: "DEBUG"@,
                        message: if charging {
                            "enabling thermal delimiter"@
                        } else {
                            "disabling thermal delimiter"@
                        },
                        kv: seq![("event"@, "thermal"@)],
                    },
                ]
            } else {
                Seq::empty()
            };
            let path = if switched {
                Seq::empty()
            } else {
                s.path_step(cap, charging).logs
            };
            s.reading_step(Reading::Battery { cap, state }, now).logs == tick + seen + held_back
                + switching + path
        }),
{
    let charging = state is Charging;
    let line = Entry::new(
        "DEBUG"@,
        if charging {
            "enabling thermal delimiter"@
        } else {
            "disabling thermal delimiter"@
        },
    ).with("event"@, "thermal"@);
    assert(line.kv =~= seq![("event"@, "thermal"@)]);
}

/// What is logged before a cut and before a resume: the capacity, and the threshold it reached.
pub proof fn path_lines(s: State, cap: u8, charging: bool)
    ensures
        s.path_step(cap, charging).logs == if charging && s.cut is Charging && cap >= s.cutoff {
            seq![
                Entry {
                    level: "INFO"@,
                    message: "CUTTING OFF charging"@,
                    kv: seq![
                        ("event"@, "cutoff"@),
                        ("cap"@, text::decimal(cap as nat) + seq!['%']),
                        ("cutoff"@, text::decimal(s.cutoff as nat) + seq!['%']),
                    ],
                },
            ]
        } else if s.cut is CutOff && cap <= s.resume {
            seq![
                Entry {
                    level: "INFO"@,
                    message: "RESUMING charging"@,
                    kv: seq![
                        ("event"@, "resume"@),
                        ("cap"@, text::decimal(cap as nat) + seq!['%']),
                        ("resume"@, text::decimal(s.resume as nat) + seq!['%']),
                    ],
                },
            ]
        } else {
            Seq::empty()
        },
{
    text::percentages_end_in_a_sign(cap as nat);
    text::percentages_end_in_a_sign(s.cutoff as nat);
    text::percentages_end_in_a_sign(s.resume as nat);
    let logs = s.path_step(cap, charging).logs;
    if s.cuts_off(cap, charging) {
        assert(logs[0].kv =~= seq![
            ("event"@, "cutoff"@),
            ("cap"@, text::decimal(cap as nat) + seq!['%']),
            ("cutoff"@, text::decimal(s.cutoff as nat) + seq!['%']),
        ]);
    } else if s.resumes(cap) {
        assert(logs[0].kv =~= seq![
            ("event"@, "resume"@),
            ("cap"@, text::decimal(cap as nat) + seq!['%']),
            ("resume"@, text::decimal(s.resume as nat) + seq!['%']),
        ]);
    }
}

/// What is logged about a reading that failed: what could not be read, and why.
pub proof fn failed_reading_lines(s: State, error: String, now: u64)
    ensures
        s.reading_step(Reading::CapacityFailed(error), now).logs == seq![
            Entry {
                level: "WARN"@,
                message: "read capacity failed"@,
                kv: seq![("event"@, "warn"@), ("err"@, error@)],
            },
        ],
        s.reading_step(Reading::StatusFailed(error), now).logs == seq![
            Entry {
                level: "WARN"@,
                message: "read status failed"@,
                kv: seq![("event"@, "warn"@), ("err"@, error@)],
            },
        ],
{
    assert(s.reading_step(Reading::CapacityFailed(error), now).logs[0].kv =~= seq![
        ("event"@, "warn"@),
        ("err"@, error@),
    ]);
    assert(s.reading_step(Reading::StatusFailed(error), now).logs[0].kv =~= seq![
        ("event"@, "warn"@),
        ("err"@, error@),
    ]);
}

/// A line with the counters: the event, the further pair, the boot, and all nine counters.
pub proof fn counter_line(
    s: State,
    level: Seq<char>,
    message: Seq<char>,
    event: Seq<char>,
    extra: logger::Pairs,
)
    ensures
        s.stats_entry(level, message, event, extra) == (Entry {
            level,
            message,
            kv: seq![("event"@, event)] + extra + seq![("boot_id"@, s.boot_id)] + s.stats.pairs(),
        }),
{
}

/// What is logged about a command that succeeded, with the counters as they are after it: which
/// one it was, and for the thermal delimiter the reason. One that is disabled while charging is
/// cut off was not unplugged.
pub proof fn success_lines(s: State, cap: u8, charging: bool)
    ensures
        s.success_entry(Pending::Thermal { cap, charging: true }) == s.stats_entry(
            "INFO"@,
            "thermal delimiter ENABLED"@,
            "thermal"@,
            seq![("reason"@, "charging_detected"@)],
        ),
        s.success_entry(Pending::Thermal { cap, charging: false }) == s.stats_entry(
            "INFO"@,
            "thermal delimiter DISABLED"@,
            "thermal"@,
            seq![
                (
                    "reason"@,
                    if s.cut is CutOff {
                        "charging_cut_off"@
                    } else {
                        "charger_unplugged"@
                    },
                ),
            ],
        ),
        s.success_entry(Pending::CutOff) == s.stats_entry(
            "INFO"@,
            "cutoff applied"@,
            "cutoff"@,
            seq![("result"@, "ok"@)],
        ),
        s.success_entry(Pending::Resume { charging }) == s.stats_entry(
            "INFO"@,
            "resume applied"@,
            "resume"@,
            seq![("result"@, "ok"@)],
        ),
{
}

/// What is logged about a command that failed: which one it was, and why.
pub proof fn failure_lines(cap: u8, charging: bool, error: Seq<char>)
    ensures
        daemon::failure_entry(Pending::Thermal { cap, charging }, error) == (Entry {
            level: "WARN"@,
            message: if charging {
                "enable thermal failed"@
            } else {
                "disable thermal failed"@
            },
            kv: seq![("event"@, "warn"@), ("err"@, error)],
        }),
        daemon::failure_entry(Pending::CutOff, error) == (Entry {
            level: "ERROR"@,
            message: "cut-off failed"@,
            kv: seq![("event"@, "error"@), ("err"@, error)],
        }),
        daemon::failure_entry(Pending::Resume { charging }, error) == (Entry {
            level: "ERROR"@,
            message: "resume failed"@,
            kv: seq![
                ("event"@, "resume"@),
                ("result"@, "failed"@),
                ("err"@, error),
                ("hint"@, "will retry on next tick"@),
            ],
        }),
{
    assert(daemon::failure_entry(Pending::Thermal { cap, charging }, error).kv =~= seq![
        ("event"@, "warn"@),
        ("err"@, error),
    ]);
    assert(daemon::failure_entry(Pending::CutOff, error).kv =~= seq![
        ("event"@, "error"@),
        ("err"@, error),
    ]);
    assert(daemon::failure_entry(Pending::Resume { charging }, error).kv =~= seq![
        ("event"@, "resume"@),
        ("result"@, "failed"@),
        ("err"@, error),
        ("hint"@, "will retry on next tick"@),
    ]);
}

/// Behind a command one line is logged about it, and behind the thermal delimiter's what is
/// logged before a cut or a resume that follows.
pub proof fn command_lines(s: State, pending: Pending, error: MtkError)
    ensures
        ({
            let path = match pending {
                Pending::Thermal { cap, charging } => s.path_step(cap, charging).logs,
                _ => Seq::empty(),
            };
            &&& s.command_step(pending, Ok(())).logs == seq![s.success_entry(pending)] + path
            &&& s.command_step(pending, Err(error)).logs == seq![
                daemon::failure_entry(pending, error.words()),
            ] + path
        }),
{
}

} // verus!
