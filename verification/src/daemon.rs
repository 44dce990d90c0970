//! The daemon's decisions: when charging is cut off and resumed, when the thermal delimiter is
//! switched, and what is logged about it.

use vstd::prelude::*;
use crate::battery::ChargeState;
use crate::config::Config;
use crate::logger;
use crate::logger::FileLogger;
use crate::mtk::MtkCommand;
use crate::mtk::MtkError;
use crate::record;
use crate::record::Entry;
use crate::record::LogRecord;
use crate::stats::Stats;
use crate::text;

verus! {

/// How long after a change of the charging status a further change leaves the thermal delimiter
/// alone, in nanoseconds. A charger is not plugged and unplugged by hand within two seconds; the kernel
/// reports such a change now and then while the charger stays plugged.
pub const CHARGE_FLIP_DEBOUNCE_NS: u64 = 2_000_000_000;

/// Nanoseconds in a millisecond.
pub const NS_PER_MS: u64 = 1_000_000;

/// Whether the charging path is open.
#[derive(Debug, Clone, Copy, PartialEq, Eq, Structural)]
pub enum CutState {
    /// The charging path is open: the battery accepts current.
    Charging,
    /// The charging path is cut: the battery accepts no current, even with a charger plugged
    /// in, until charging is resumed.
    CutOff,
}

impl CutState {
    /// The state's name in the log.
    pub open spec fn name(self) -> Seq<char> {
        match self {
            CutState::Charging => "charging"@,
            CutState::CutOff => "cutoff"@,
        }
    }

    /// The state's name in the log.
    pub fn as_str(&self) -> (s: &'static str)
        ensures
            s@ == self.name(),
            self is Charging ==> s@ == "charging"@,
            self is CutOff ==> s@ == "cutoff"@,
    {
        match self {
            CutState::Charging => "charging",
            CutState::CutOff => "cutoff",
        }
    }
}

/// What came of reading the battery's nodes. The status is read only after the capacity.
#[derive(Debug)]
pub enum Reading {
    /// The capacity could not be read; holds the text of the error.
    CapacityFailed(String),
    /// The status could not be read; holds the text of the error.
    StatusFailed(String),
    /// Both could be read.
    Battery { cap: u8, state: ChargeState },
}

/// A command that a tick waits for.
#[derive(Debug, Clone, Copy, PartialEq, Eq, Structural)]
pub enum Pending {
    /// The thermal delimiter is being enabled while charging, and disabled otherwise.
    Thermal { cap: u8, charging: bool },
    /// Charging is being cut off.
    CutOff,
    /// Charging is being resumed.
    Resume { charging: bool },
}

impl Pending {
    /// The command.
    pub open spec fn mtk_command(self) -> MtkCommand {
        match self {
            Pending::Thermal { cap, charging: true } => MtkCommand::EnableThermalDelimiter,
            Pending::Thermal { cap, charging: false } => MtkCommand::DisableThermalDelimiter,
            Pending::CutOff => MtkCommand::CutOffCharging,
            Pending::Resume { charging } => MtkCommand::ResumeCharging,
        }
    }

    /// The command.
    pub fn command(&self) -> (c: MtkCommand)
        ensures
            c == self.mtk_command(),
            match self {
                Pending::Thermal { cap, charging } => if *charging {
                    c is EnableThermalDelimiter
                } else {
                    c is DisableThermalDelimiter
                },
                Pending::CutOff => c is CutOffCharging,
                Pending::Resume { charging } => c is ResumeCharging,
            },
    {
        match self {
            Pending::Thermal { cap: _, charging } => if *charging {
                MtkCommand::EnableThermalDelimiter
            } else {
                MtkCommand::DisableThermalDelimiter
            },
            Pending::CutOff => MtkCommand::CutOffCharging,
            Pending::Resume { charging: _ } => MtkCommand::ResumeCharging,
        }
    }
}

/// What follows in a tick.
#[derive(Debug, Clone, Copy, PartialEq, Eq, Structural)]
pub enum TickNext {
    /// Run the command, and go on with [`Daemon::continue_tick`].
    Run(Pending),
    /// The tick is over; holds whether the battery is charging.
    Done(bool),
}

/// One stretch of a tick: log the records in order, then do what follows.
#[derive(Debug)]
pub struct TickStep {
    /// What is logged.
    pub logs: Vec<LogRecord>,
    /// What follows.
    pub next: TickNext,
}

/// One stretch of a tick, as a mathematical value.
#[verifier::ext_equal]
pub struct Step {
    /// What is logged.
    pub logs: Seq<Entry>,
    /// What follows.
    pub next: TickNext,
}

impl View for TickStep {
    type V = Step;

    open spec fn view(&self) -> Step {
        Step { logs: record::entries(self.logs@), next: self.next }
    }
}

/// The daemon.
#[derive(Debug)]
pub struct Daemon {
    /// The settings.
    pub cfg: Config,
    /// The log.
    pub log: FileLogger,
    /// Whether the charging path is open.
    pub cut: CutState,
    /// Whether the thermal delimiter is enabled.
    pub thermal_on: bool,
    /// The capacity at the last tick.
    pub last_cap: Option<u8>,
    /// The charge state at the last tick.
    pub last_state: Option<ChargeState>,
    /// Identifies the boot in the log.
    pub boot_id: String,
    /// The counters.
    pub stats: Stats,
    /// When the charging status last changed from one tick to the next, in nanoseconds of the
    /// monotonic clock.
    pub last_charge_flip: Option<u64>,
}

/// What the daemon's decisions rest on, as a mathematical value.
pub struct State {
    /// Charging is cut off at this percentage.
    pub cutoff: u8,
    /// Charging resumes at this percentage.
    pub resume: u8,
    /// Whether debug lines are logged.
    pub debug: bool,
    /// The log file.
    pub log_file: Seq<char>,
    /// Whether the charging path is open.
    pub cut: CutState,
    /// Whether the thermal delimiter is enabled.
    pub thermal_on: bool,
    /// The capacity at the last tick.
    pub last_cap: Option<u8>,
    /// The charge state at the last tick.
    pub last_state: Option<ChargeState>,
    /// Identifies the boot in the log.
    pub boot_id: Seq<char>,
    /// The counters.
    pub stats: Stats,
    /// When the charging status last changed.
    pub last_charge_flip: Option<u64>,
}

impl View for Daemon {
    type V = State;

    open spec fn view(&self) -> State {
        State {
            cutoff: self.cfg.cutoff,
            resume: self.cfg.resume,
            debug: self.cfg.debug,
            log_file: self.cfg.log_file@,
            cut: self.cut,
            thermal_on: self.thermal_on,
            last_cap: self.last_cap,
            last_state: self.last_state,
            boot_id: self.boot_id@,
            stats: self.stats,
            last_charge_flip: self.last_charge_flip,
        }
    }
}

/// The time from `earlier` to `later`, and zero where the order is reversed.
pub open spec fn elapsed(earlier: u64, later: u64) -> nat {
    if later >= earlier {
        (later - earlier) as nat
    } else {
        0
    }
}

impl State {
    /// Whether the charging status differs from that at the last tick.
    pub open spec fn flips(self, state: ChargeState) -> bool {
        self.last_state matches Some(last) && last.charging() != state.charging()
    }

    /// Whether the charging status changed so recently that a further change would be taken for
    /// the kernel's error.
    pub open spec fn debounces(self, now: u64) -> bool {
        self.last_charge_flip matches Some(flip) && elapsed(flip, now) < CHARGE_FLIP_DEBOUNCE_NS
    }

    /// Whether the charging status changes so soon after its last change that the thermal
    /// delimiter is left alone.
    pub open spec fn holds_back(self, state: ChargeState, now: u64) -> bool {
        self.flips(state) && self.debounces(now)
    }

    /// Whether the thermal delimiter is to be switched.
    pub open spec fn switches_thermal(self, state: ChargeState, now: u64) -> bool {
        state.charging() != self.thermal_on && !self.holds_back(state, now)
    }

    /// Whether charging is to be cut off.
    pub open spec fn cuts_off(self, cap: u8, charging: bool) -> bool {
        charging && self.cut is Charging && cap >= self.cutoff
    }

    /// Whether charging is to be resumed, whatever the charging status is.
    pub open spec fn resumes(self, cap: u8) -> bool {
        self.cut is CutOff && cap <= self.resume
    }

    /// Whether the reading differs from that at the last tick.
    pub open spec fn changes(self, cap: u8, state: ChargeState) -> bool {
        self.last_cap != Some(cap) || self.last_state != Some(state)
    }

    /// The state after a tick with this reading, before any command.
    pub open spec fn observing(self, cap: u8, state: ChargeState, now: u64) -> State {
        State {
            last_cap: Some(cap),
            last_state: Some(state),
            last_charge_flip: if self.flips(state) {
                Some(now)
            } else {
                self.last_charge_flip
            },
            stats: Stats { ticks: logger::successor(self.stats.ticks), ..self.stats },
            ..self
        }
    }

    /// The state after one more failure.
    pub open spec fn failing(self) -> State {
        State { stats: Stats { errors: logger::successor(self.stats.errors), ..self.stats }, ..self }
    }

    /// The state after a tick's reading.
    pub open spec fn after_reading(self, reading: Reading, now: u64) -> State {
        match reading {
            Reading::Battery { cap, state } => self.observing(cap, state, now),
            _ => State {
                stats: Stats { ticks: logger::successor(self.stats.ticks), ..self.stats },
                ..self
            }.failing(),
        }
    }

    /// The state after a command that a tick waited for.
    pub open spec fn after_command(self, pending: Pending, succeeded: bool) -> State {
        if !succeeded {
            self.failing()
        } else {
            match pending {
                Pending::Thermal { cap, charging } => State {
                    thermal_on: charging,
                    stats: Stats {
                        thermal_toggles: logger::successor(self.stats.thermal_toggles),
                        ..self.stats
                    },
                    ..self
                },
                Pending::CutOff => State {
                    cut: CutState::CutOff,
                    stats: Stats {
                        cut_events: logger::successor(self.stats.cut_events),
                        ..self.stats
                    },
                    ..self
                },
                Pending::Resume { charging } => State {
                    cut: CutState::Charging,
                    stats: Stats {
                        resume_events: logger::successor(self.stats.resume_events),
                        ..self.stats
                    },
                    ..self
                },
            }
        }
    }

    /// An entry with the counters: the event, the further pairs, the boot, the counters.
    pub open spec fn stats_entry(
        self,
        level: Seq<char>,
        message: Seq<char>,
        event: Seq<char>,
        extra: logger::Pairs,
    ) -> Entry {
        Entry {
            level,
            message,
            kv: seq![("event"@, event)] + extra + seq![("boot_id"@, self.boot_id)]
                + self.stats.pairs(),
        }
    }

    /// The debug entry of a tick.
    pub open spec fn tick_entry(self, cap: u8, state: ChargeState) -> Entry {
        Entry::new("DEBUG"@, "tick"@).with("event"@, "tick"@).with(
            "cap"@,
            text::percent(cap as nat),
        ).with("state"@, state.name()).with("charging"@, text::bool_word(state.charging())).with(
            "cut"@,
            self.cut.name(),
        ).with("thermal_on"@, text::bool_word(self.thermal_on))
    }

    /// The entry of a reading that differs from the last one.
    pub open spec fn state_entry(self, cap: u8, state: ChargeState) -> Entry {
        Entry::new("INFO"@, "state"@).with("event"@, "state"@).with(
            "cap"@,
            text::percent(cap as nat),
        ).with("status"@, state.name()).with("charging"@, text::bool_word(state.charging())).with(
            "cut"@,
            self.cut.name(),
        ).with("thermal_on"@, text::bool_word(self.thermal_on))
    }

    /// The debug entry of a tick that leaves the thermal delimiter alone.
    pub open spec fn debounce_entry(self, now: u64) -> Entry {
        Entry::new("DEBUG"@, "charge flip debounce: suppressing thermal toggle"@).with(
            "event"@,
            "charge_flip_suppressed"@,
        ).with(
            "elapsed_ms"@,
            text::decimal(elapsed(self.last_charge_flip->0, now) / NS_PER_MS as nat),
        ).with("threshold_ms"@, text::decimal(CHARGE_FLIP_DEBOUNCE_NS as nat / NS_PER_MS as nat))
    }

    /// The entries of a tick up to its first command.
    pub open spec fn observation_entries(self, cap: u8, state: ChargeState, now: u64) -> Seq<
        Entry,
    > {
        only_if(self.debug, self.tick_entry(cap, state)) + only_if(
            self.changes(cap, state),
            self.state_entry(cap, state),
        ) + only_if(self.debug && self.holds_back(state, now), self.debounce_entry(now)) + only_if(
            self.debug && self.switches_thermal(state, now),
            Entry::new(
                "DEBUG"@,
                if state.charging() {
                    "enabling thermal delimiter"@
                } else {
                    "disabling thermal delimiter"@
                },
            ).with("event"@, "thermal"@),
        )
    }

    /// The part of a tick that decides on the charging path.
    pub open spec fn path_step(self, cap: u8, charging: bool) -> Step {
        if self.cuts_off(cap, charging) {
            Step {
                logs: seq![
                    Entry::new("INFO"@, "CUTTING OFF charging"@).with("event"@, "cutoff"@).with(
                        "cap"@,
                        text::percent(cap as nat),
                    ).with("cutoff"@, text::percent(self.cutoff as nat)),
                ],
                next: TickNext::Run(Pending::CutOff),
            }
        } else if self.resumes(cap) {
            Step {
                logs: seq![
                    Entry::new("INFO"@, "RESUMING charging"@).with("event"@, "resume"@).with(
                        "cap"@,
                        text::percent(cap as nat),
                    ).with("resume"@, text::percent(self.resume as nat)),
                ],
                next: TickNext::Run(Pending::Resume { charging }),
            }
        } else {
            Step { logs: Seq::empty(), next: TickNext::Done(charging) }
        }
    }

    /// A tick up to its first command.
    pub open spec fn reading_step(self, reading: Reading, now: u64) -> Step {
        match reading {
            Reading::CapacityFailed(e) => Step {
                logs: seq![
                    Entry::new("WARN"@, "read capacity failed"@).with("event"@, "warn"@).with(
                        "err"@,
                        e@,
                    ),
                ],
                next: TickNext::Done(false),
            },
            Reading::StatusFailed(e) => Step {
                logs: seq![
                    Entry::new("WARN"@, "read status failed"@).with("event"@, "warn"@).with(
                        "err"@,
                        e@,
                    ),
                ],
                next: TickNext::Done(false),
            },
            Reading::Battery { cap, state } => if self.switches_thermal(state, now) {
                Step {
                    logs: self.observation_entries(cap, state, now),
                    next: TickNext::Run(Pending::Thermal { cap, charging: state.charging() }),
                }
            } else {
                let path = self.path_step(cap, state.charging());
                Step {
                    logs: self.observation_entries(cap, state, now) + path.logs,
                    next: path.next,
                }
            },
        }
    }

    /// What is logged about a command that succeeded. `self` is the state after it.
    pub open spec fn success_entry(self, pending: Pending) -> Entry {
        match pending {
            Pending::Thermal { cap, charging } => if charging {
                self.stats_entry(
                    "INFO"@,
                    "thermal delimiter ENABLED"@,
                    "thermal"@,
                    seq![("reason"@, "charging_detected"@)],
                )
            } else {
                self.stats_entry(
                    "INFO"@,
                    "thermal delimiter DISABLED"@,
                    "thermal"@,
                    seq![
                        (
                            "reason"@,
                            if self.cut is CutOff {
                                "charging_cut_off"@
                            } else {
                                "charger_unplugged"@
                            },
                        ),
                    ],
                )
            },
            Pending::CutOff => self.stats_entry(
                "INFO"@,
                "cutoff applied"@,
                "cutoff"@,
                seq![("result"@, "ok"@)],
            ),
            Pending::Resume { charging } => self.stats_entry(
                "INFO"@,
                "resume applied"@,
                "resume"@,
                seq![("result"@, "ok"@)],
            ),
        }
    }

    /// A tick from a command to the next one, or to its end. `self` is the state after the
    /// command.
    pub open spec fn command_step(self, pending: Pending, outcome: Result<(), MtkError>) -> Step {
        let entry = match outcome {
            Ok(_) => self.success_entry(pending),
            Err(e) => failure_entry(pending, e.words()),
        };
        match pending {
            Pending::Thermal { cap, charging } => {
                let path = self.path_step(cap, charging);
                Step { logs: seq![entry] + path.logs, next: path.next }
            },
            Pending::CutOff => Step { logs: seq![entry], next: TickNext::Done(true) },
            Pending::Resume { charging } => Step {
                logs: seq![entry],
                next: TickNext::Done(charging),
            },
        }
    }
}

/// The entry alone, or nothing.
pub open spec fn only_if(condition: bool, entry: Entry) -> Seq<Entry> {
    if condition {
        seq![entry]
    } else {
        Seq::empty()
    }
}

/// What is logged about a command that failed.
pub open spec fn failure_entry(pending: Pending, error: Seq<char>) -> Entry {
    match pending {
        Pending::Thermal { cap, charging } => Entry::new(
            "WARN"@,
            if charging {
                "enable thermal failed"@
            } else {
                "disable thermal failed"@
            },
        ).with("event"@, "warn"@).with("err"@, error),
        Pending::CutOff => Entry::new("ERROR"@, "cut-off failed"@).with("event"@, "error"@).with(
            "err"@,
            error,
        ),
        Pending::Resume { charging } => Entry::new("ERROR"@, "resume failed"@).with(
            "event"@,
            "resume"@,
        ).with("result"@, "failed"@).with("err"@, error).with(
            "hint"@,
            "will retry on next tick"@,
        ),
    }
}

/// What the decisions rest on is what the daemon holds, field by field.
pub proof fn state_is_what_the_daemon_holds(d: Daemon)
    ensures
        d@.cutoff == d.cfg.cutoff,
        d@.resume == d.cfg.resume,
        d@.debug == d.cfg.debug,
        d@.log_file == d.cfg.log_file@,
        d@.cut == d.cut,
        d@.thermal_on == d.thermal_on,
        d@.last_cap == d.last_cap,
        d@.last_state == d.last_state,
        d@.boot_id == d.boot_id@,
        d@.stats == d.stats,
        d@.last_charge_flip == d.last_charge_flip,
{
}

pub(crate) fn push_record(logs: &mut Vec<LogRecord>, r: LogRecord)
    ensures
        record::entries(final(logs)@) == record::entries(old(logs)@).push(r@),
{
    let ghost before = record::entries(logs@);
    logs.push(r);
    assert(record::entries(logs@) =~= before.push(r@));
}

impl Daemon {
    /// A daemon that has not seen anything yet, with the charging path open and the thermal
    /// delimiter off.
    pub fn new(cfg: Config, log_bytes: u64, boot_id: String) -> (d: Daemon)
        ensures
            d.cfg == cfg,
            d.log.path@ == cfg.log_file@,
            d.log.max_bytes == if cfg.log_max_size_kb * 1024 <= u64::MAX {
                cfg.log_max_size_kb * 1024
            } else {
                u64::MAX as int
            },
            d.log.keep == if cfg.log_keep == 0 {
                1
            } else {
                cfg.log_keep
            },
            d.log.bytes_written == log_bytes,
            d.log.seq == 0,
            d.log.well_formed(),
            d.boot_id == boot_id,
            d.cut is Charging,
            !d.thermal_on,
            d.last_cap is None,
            d.last_state is None,
            d.last_charge_flip is None,
            d.stats.is_zero(),
            d.stats.ticks == 0 && d.stats.errors == 0,
            d.stats.cut_events == 0 && d.stats.resume_events == 0,
            d.stats.thermal_toggles == 0 && d.stats.events_drained == 0,
            d.stats.events_received == 0 && d.stats.events_relevant == 0,
            d.stats.events_irrelevant == 0,
    {
        let log = FileLogger::new(
            cfg.log_file.as_str(),
            cfg.log_max_size_kb,
            cfg.log_keep,
            log_bytes,
        );
        Daemon {
            cfg,
            log,
            cut: CutState::Charging,
            thermal_on: false,
            last_cap: None,
            last_state: None,
            boot_id,
            stats: Stats::new(),
            last_charge_flip: None,
        }
    }

    /// A record with the event, the further pairs, the boot and the counters, in this order.
    pub fn log_event_with_stats(
        &self,
        level: &'static str,
        msg: &'static str,
        event_type: &str,
        extra_kv: &[(&'static str, &str)],
    ) -> (r: LogRecord)
        ensures
            r@ == self@.stats_entry(level@, msg@, event_type@, logger::pairs(extra_kv@)),
            r.level@ == level@,
            r.message@ == msg@,
            r@.kv == seq![("event"@, event_type@)] + logger::pairs(extra_kv@) + seq![
                ("boot_id"@, self.boot_id@),
            ] + self.stats.pairs(),
    {
        let mut r = LogRecord::new(level, msg).with("event", event_type);
        let ghost extra = logger::pairs(extra_kv@);
        let mut i: usize = 0;
        assert(r@.kv =~= seq![("event"@, event_type@)] + extra.take(0));
        while i < extra_kv.len()
            invariant
                i <= extra_kv@.len(),
                extra == logger::pairs(extra_kv@),
                r@.level == level@,
                r@.message == msg@,
                r@.kv == seq![("event"@, event_type@)] + extra.take(i as int),
            decreases extra_kv@.len() - i,
        {
            r = r.with(extra_kv[i].0, extra_kv[i].1);
            i = i + 1;
            assert(r@.kv =~= seq![("event"@, event_type@)] + extra.take(i as int));
        }
        assert(extra.take(extra.len() as int) =~= extra);
        r = r.with("boot_id", self.boot_id.as_str());
        let ghost head = seq![("event"@, event_type@)] + extra + seq![("boot_id"@, self.boot_id@)];
        assert(r@.kv =~= head);
        let counters = self.stats.kv_snapshot();
        let ghost all = self.stats.pairs();
        let mut k: usize = 0;
        assert(r@.kv =~= head + all.take(0));
        while k < counters.len()
            invariant
                k <= counters@.len(),
                Seq::new(counters@.len(), |j: int| (counters@[j].0@, counters@[j].1@)) == all,
                r@.level == level@,
                r@.message == msg@,
                r@.kv == head + all.take(k as int),
            decreases counters@.len() - k,
        {
            assert(all[k as int] == (counters@[k as int].0@, counters@[k as int].1@));
            r = r.with(counters[k].0, counters[k].1.as_str());
            k = k + 1;
            assert(r@.kv =~= head + all.take(k as int));
        }
        assert(counters@.len() == all.len());
        assert(all.take(all.len() as int) =~= all);
        r
    }

    fn decide_path(&self, cap: u8, charging: bool, logs: &mut Vec<LogRecord>) -> (next: TickNext)
        ensures
            next == self@.path_step(cap, charging).next,
            record::entries(final(logs)@) == record::entries(old(logs)@) + self@.path_step(
                cap,
                charging,
            ).logs,
    {
        if charging && self.cut == CutState::Charging && cap >= self.cfg.cutoff {
            push_record(
                logs,
                LogRecord::new("INFO", "CUTTING OFF charging").with("event", "cutoff").with(
                    "cap",
                    text::percent_text(cap).as_str(),
                ).with("cutoff", text::percent_text(self.cfg.cutoff).as_str()),
            );
            TickNext::Run(Pending::CutOff)
        } else if self.cut == CutState::CutOff && cap <= self.cfg.resume {
            push_record(
                logs,
                LogRecord::new("INFO", "RESUMING charging").with("event", "resume").with(
                    "cap",
                    text::percent_text(cap).as_str(),
                ).with("resume", text::percent_text(self.cfg.resume).as_str()),
            );
            TickNext::Run(Pending::Resume { charging })
        } else {
            TickNext::Done(charging)
        }
    }

    /// A tick, from the battery's reading at the time `now` to the first command or to its end.
    pub fn tick(&mut self, reading: Reading, now: u64) -> (step: TickStep)
        ensures
            final(self)@ == old(self)@.after_reading(reading, now),
            step@ == old(self)@.reading_step(reading, now),
            final(self).cfg == old(self).cfg,
            final(self).log == old(self).log,
            final(self).boot_id == old(self).boot_id,
            final(self).cut == old(self).cut,
            final(self).thermal_on == old(self).thermal_on,
            record::entries(step.logs@) == old(self)@.reading_step(reading, now).logs,
            match reading {
                Reading::Battery { cap, state } => {
                    let charging = state is Charging;
                    let flipped = old(self).last_state is Some && (old(self).last_state->0
                        is Charging) != charging;
                    let recent = old(self).last_charge_flip is Some && now
                        - old(self).last_charge_flip->0 < 2_000_000_000;
                    &&& final(self).last_cap == Some(cap)
                    &&& final(self).last_state == Some(state)
                    &&& final(self).last_charge_flip == if flipped {
                        Some(now)
                    } else {
                        old(self).last_charge_flip
                    }
                    &&& final(self).stats == (Stats {
                        ticks: logger::successor(old(self).stats.ticks),
                        ..old(self).stats
                    })
                    &&& step.next == if charging != old(self).thermal_on && !(flipped && recent) {
                        TickNext::Run(Pending::Thermal { cap, charging })
                    } else if charging && old(self).cut is Charging && cap >= old(self).cfg.cutoff {
                        TickNext::Run(Pending::CutOff)
                    } else if old(self).cut is CutOff && cap <= old(self).cfg.resume {
                        TickNext::Run(Pending::Resume { charging })
                    } else {
                        TickNext::Done(charging)
                    }
                },
                _ => {
                    &&& final(self).last_cap == old(self).last_cap
                    &&& final(self).last_state == old(self).last_state
                    &&& final(self).last_charge_flip == old(self).last_charge_flip
                    &&& final(self).stats == (Stats {
                        ticks: logger::successor(old(self).stats.ticks),
                        errors: logger::successor(old(self).stats.errors),
                        ..old(self).stats
                    })
                    &&& step.next == TickNext::Done(false)
                },
            },
    {
        let ghost before = self@;
        self.stats.ticks = self.stats.ticks.wrapping_add(1);
        let mut logs: Vec<LogRecord> = Vec::new();
        assert(record::entries(logs@) =~= Seq::empty());
        let (cap, state) = match reading {
            Reading::CapacityFailed(e) => {
                self.stats.errors = self.stats.errors.wrapping_add(1);
                push_record(
                    &mut logs,
                    LogRecord::new("WARN", "read capacity failed").with("event", "warn").with(
                        "err",
                        e.as_str(),
                    ),
                );
                return TickStep { logs, next: TickNext::Done(false) };
            },
            Reading::StatusFailed(e) => {
                self.stats.errors = self.stats.errors.wrapping_add(1);
                push_record(
                    &mut logs,
                    LogRecord::new("WARN", "read status failed").with("event", "warn").with(
                        "err",
                        e.as_str(),
                    ),
                );
                return TickStep { logs, next: TickNext::Done(false) };
            },
            Reading::Battery { cap, state } => (cap, state),
        };
        let charging = state.is_charging();
        if self.cfg.debug {
            push_record(
                &mut logs,
                LogRecord::new("DEBUG", "tick").with("event", "tick").with(
                    "cap",
                    text::percent_text(cap).as_str(),
                ).with("state", state.to_string().as_str()).with(
                    "charging",
                    text::bool_text(charging),
                ).with("cut", self.cut.as_str()).with(
                    "thermal_on",
                    text::bool_text(self.thermal_on),
                ),
            );
        }
        let flipped = match self.last_state {
            Some(last) => last.is_charging() != charging,
            None => false,
        };
        if self.last_cap != Some(cap) || self.last_state != Some(state) {
            push_record(
                &mut logs,
                LogRecord::new("INFO", "state").with("event", "state").with(
                    "cap",
                    text::percent_text(cap).as_str(),
                ).with("status", state.to_string().as_str()).with(
                    "charging",
                    text::bool_text(charging),
                ).with("cut", self.cut.as_str()).with(
                    "thermal_on",
                    text::bool_text(self.thermal_on),
                ),
            );
            self.last_cap = Some(cap);
            self.last_state = Some(state);
        }
        let mut suppress = false;
        if let Some(last_flip) = self.last_charge_flip {
            let since: u64 = now.saturating_sub(last_flip);
            if flipped && since < CHARGE_FLIP_DEBOUNCE_NS {
                suppress = true;
                if self.cfg.debug {
                    push_record(
                        &mut logs,
                        LogRecord::new(
                            "DEBUG",
                            "charge flip debounce: suppressing thermal toggle",
                        ).with("event", "charge_flip_suppressed").with(
                            "elapsed_ms",
                            text::decimal_text(since / NS_PER_MS).as_str(),
                        ).with(
                            "threshold_ms",
                            text::decimal_text(CHARGE_FLIP_DEBOUNCE_NS / NS_PER_MS).as_str(),
                        ),
                    );
                }
            }
        }
        if flipped {
            self.last_charge_flip = Some(now);
        }
        if charging != self.thermal_on && !suppress {
            if self.cfg.debug {
                let message = if charging {
                    "enabling thermal delimiter"
                } else {
                    "disabling thermal delimiter"
                };
                push_record(&mut logs, LogRecord::new("DEBUG", message).with("event", "thermal"));
            }
            let step = TickStep { logs, next: TickNext::Run(Pending::Thermal { cap, charging }) };
            assert(step@ =~= before.reading_step(reading, now));
            return step;
        }
        let next = self.decide_path(cap, charging, &mut logs);
        let step = TickStep { logs, next };
        assert(step@ =~= before.reading_step(reading, now));
        step
    }

    /// A tick, from what came of the command that it waited for to the next command or to its
    /// end. A command that failed changes nothing: the next tick decides anew.
    pub fn continue_tick(&mut self, pending: Pending, outcome: Result<(), MtkError>) -> (step:
        TickStep)
        ensures
            final(self)@ == old(self)@.after_command(pending, outcome is Ok),
            step@ == final(self)@.command_step(pending, outcome),
            final(self).cfg == old(self).cfg,
            final(self).log == old(self).log,
            final(self).boot_id == old(self).boot_id,
            final(self).last_cap == old(self).last_cap,
            final(self).last_state == old(self).last_state,
            final(self).last_charge_flip == old(self).last_charge_flip,
            record::entries(step.logs@) == final(self)@.command_step(pending, outcome).logs,
            outcome is Err ==> final(self).cut == old(self).cut && final(self).thermal_on
                == old(self).thermal_on && final(self).stats == (Stats {
                errors: logger::successor(old(self).stats.errors),
                ..old(self).stats
            }),
            outcome is Ok ==> match pending {
                Pending::Thermal { cap, charging } => {
                    &&& final(self).thermal_on == charging
                    &&& final(self).cut == old(self).cut
                    &&& final(self).stats == (Stats {
                        thermal_toggles: logger::successor(old(self).stats.thermal_toggles),
                        ..old(self).stats
                    })
                },
                Pending::CutOff => {
                    &&& final(self).thermal_on == old(self).thermal_on
                    &&& final(self).cut is CutOff
                    &&& final(self).stats == (Stats {
                        cut_events: logger::successor(old(self).stats.cut_events),
                        ..old(self).stats
                    })
                },
                Pending::Resume { charging } => {
                    &&& final(self).thermal_on == old(self).thermal_on
                    &&& final(self).cut is Charging
                    &&& final(self).stats == (Stats {
                        resume_events: logger::successor(old(self).stats.resume_events),
                        ..old(self).stats
                    })
                },
            },
            match pending {
                Pending::Thermal { cap, charging } => step.next == if charging
                    && final(self).cut is Charging && cap >= final(self).cfg.cutoff {
                    TickNext::Run(Pending::CutOff)
                } else if final(self).cut is CutOff && cap <= final(self).cfg.resume {
                    TickNext::Run(Pending::Resume { charging })
                } else {
                    TickNext::Done(charging)
                },
                Pending::CutOff => step.next == TickNext::Done(true),
                Pending::Resume { charging } => step.next == TickNext::Done(charging),
            },
    {
        let mut logs: Vec<LogRecord> = Vec::new();
        assert(record::entries(logs@) =~= Seq::empty());
        match pending {
            Pending::Thermal { cap, charging } => {
                match &outcome {
                    Ok(_) => {
                        self.thermal_on = charging;
                        self.stats.thermal_toggles = self.stats.thermal_toggles.wrapping_add(1);
                        let (message, reason) = if charging {
                            ("thermal delimiter ENABLED", "charging_detected")
                        } else if self.cut == CutState::CutOff {
                            ("thermal delimiter DISABLED", "charging_cut_off")
                        } else {
                            ("thermal delimiter DISABLED", "charger_unplugged")
                        };
                        let r = self.report("INFO", message, "thermal", "reason", reason);
                        push_record(&mut logs, r);
                    },
                    Err(e) => {
                        self.stats.errors = self.stats.errors.wrapping_add(1);
                        let message = if charging {
                            "enable thermal failed"
                        } else {
                            "disable thermal failed"
                        };
                        push_record(
                            &mut logs,
                            LogRecord::new("WARN", message).with("event", "warn").with(
                                "err",
                                e.to_string().as_str(),
                            ),
                        );
                    },
                }
                let next = self.decide_path(cap, charging, &mut logs);
                let step = TickStep { logs, next };
                assert(step@ =~= self@.command_step(pending, outcome));
                step
            },
            Pending::CutOff => {
                match &outcome {
                    Ok(_) => {
                        self.cut = CutState::CutOff;
                        self.stats.cut_events = self.stats.cut_events.wrapping_add(1);
                        let r = self.report("INFO", "cutoff applied", "cutoff", "result", "ok");
                        push_record(&mut logs, r);
                    },
                    Err(e) => {
                        self.stats.errors = self.stats.errors.wrapping_add(1);
                        push_record(
                            &mut logs,
                            LogRecord::new("ERROR", "cut-off failed").with("event", "error").with(
                                "err",
                                e.to_string().as_str(),
                            ),
                        );
                    },
                }
                let step = TickStep { logs, next: TickNext::Done(true) };
                assert(step@ =~= self@.command_step(pending, outcome));
                step
            },
            Pending::Resume { charging } => {
                match &outcome {
                    Ok(_) => {
                        self.cut = CutState::Charging;
                        self.stats.resume_events = self.stats.resume_events.wrapping_add(1);
                        let r = self.report("INFO", "resume applied", "resume", "result", "ok");
                        push_record(&mut logs, r);
                    },
                    Err(e) => {
                        self.stats.errors = self.stats.errors.wrapping_add(1);
                        push_record(
                            &mut logs,
                            LogRecord::new("ERROR", "resume failed").with("event", "resume").with(
                                "result",
                                "failed",
                            ).with("err", e.to_string().as_str()).with(
                                "hint",
                                "will retry on next tick",
                            ),
                        );
                    },
                }
                let step = TickStep { logs, next: TickNext::Done(charging) };
                assert(step@ =~= self@.command_step(pending, outcome));
                step
            },
        }
    }

    pub(crate) fn report(
        &self,
        level: &'static str,
        msg: &'static str,
        event_type: &str,
        key: &'static str,
        value: &str,
    ) -> (r: LogRecord)
        ensures
            r@ == self@.stats_entry(level@, msg@, event_type@, seq![(key@, value@)]),
    {
        let extra: Vec<(&'static str, &str)> = vec![(key, value)];
        assert(logger::pairs(extra@) =~= seq![(key@, value@)]);
        self.log_event_with_stats(level, msg, event_type, extra.as_slice())
    }
}

} // verus!
