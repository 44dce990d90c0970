//! The daemon's life: startup, the event loop, shutdown.
//!
//! The program around the library does the outside work that [`Daemon::run`] asks for, and
//! hands back what came of it as the next event.

use vstd::prelude::*;
use crate::config::CONFIG_PATH;
use crate::daemon::CutState;
use crate::daemon::Daemon;
use crate::daemon::State;
use crate::daemon;
use crate::logger;
use crate::mtk::MtkCommand;
use crate::record;
use crate::record::Entry;
use crate::record::LogRecord;
use crate::stats::Stats;
use crate::text;
use crate::uevent;

verus! {

/// How long the daemon waits after the event socket failed, in milliseconds.
pub const RETRY_DELAY_MS: u64 = 5_000;

/// What happened.
#[derive(Debug)]
pub enum RunEvent {
    /// The program started; holds its version.
    Started { version: String },
    /// Whether the MediaTek nodes exist.
    PathsChecked(bool),
    /// The event socket was opened, with this descriptor, or the text of the error.
    ListenerOpened(Result<i32, String>),
    /// A tick is over.
    TickDone,
    /// Whether the daemon is to go on running.
    Running(bool),
    /// A kernel event came; holds its bytes.
    Received { message: Vec<u8> },
    /// A signal came while waiting for a kernel event.
    Interrupted,
    /// Waiting for a kernel event failed: the text and the kind of the error.
    ReceiveFailed { error: String, kind: String },
    /// This many further kernel events were waiting, and were passed over.
    Drained(u64),
    /// The wait after a failure is over.
    Retry,
}

/// What is to be done next.
#[derive(Debug, Clone, Copy, PartialEq, Eq, Structural)]
pub enum RunNext {
    /// Check whether the MediaTek nodes exist.
    CheckPaths,
    /// Open the event socket.
    OpenListener,
    /// Do a tick.
    Tick,
    /// Check whether the daemon is to go on running.
    CheckRunning,
    /// Wait for a kernel event.
    Receive,
    /// Pass over the kernel events that are waiting.
    Drain,
    /// Wait for this many milliseconds.
    Sleep { millis: u64 },
    /// Do the shutdown.
    Shutdown,
    /// Exit at once, with this code.
    Exit(i32),
}

/// Log the records in order, then do what follows.
#[derive(Debug)]
pub struct RunStep {
    /// What is logged.
    pub logs: Vec<LogRecord>,
    /// What follows.
    pub next: RunNext,
}

/// What is logged about the start.
pub open spec fn start_entries(s: State, version: Seq<char>) -> Seq<Entry> {
    seq![
        Entry::new("INFO"@, "BOOT START rsc"@).with("event"@, "startup"@).with(
            "version"@,
            version,
        ).with("boot_id"@, s.boot_id),
        Entry::new("INFO"@, "rsc starting"@).with("event"@, "startup"@).with(
            "version"@,
            version,
        ).with("cutoff"@, text::percent(s.cutoff as nat)).with(
            "resume"@,
            text::percent(s.resume as nat),
        ).with("debug"@, text::bool_word(s.debug)).with("stats_mode"@, "event-driven"@),
        Entry::new("INFO"@, "paths"@).with("event"@, "startup"@).with(
            "config_path"@,
            CONFIG_PATH@,
        ).with("log_file"@, s.log_file),
    ]
}

/// What is logged about an event. `s` is the state after it.
pub open spec fn run_entries(s: State, event: RunEvent) -> Seq<Entry> {
    match event {
        RunEvent::Started { version } => start_entries(s, version@),
        RunEvent::PathsChecked(exist) => if exist {
            seq![Entry::new("INFO"@, "MTK battery paths verified"@).with("event"@, "startup"@)]
        } else {
            seq![
                Entry::new("ERROR"@, "MTK battery paths missing"@).with("event"@, "error"@).with(
                    "hint"@,
                    "is this really an MTK device?"@,
                ),
            ]
        },
        RunEvent::ListenerOpened(Ok(fd)) => seq![
            Entry::new("INFO"@, "uevent listener initialized"@).with("event"@, "startup"@).with(
                "fd"@,
                text::signed_decimal(fd as int),
            ).with("mode"@, "uevent"@),
            Entry::new("INFO"@, "uevent-driven mode active"@).with("event"@, "startup"@).with(
                "fallback"@,
                "none"@,
            ),
        ],
        RunEvent::ListenerOpened(Err(e)) => seq![
            Entry::new("ERROR"@, "uevent listener init failed"@).with("event"@, "error"@).with(
                "err"@,
                e@,
            ).with(
                "hint"@,
                "uevent mandatory — no polling fallback. Check SELinux: allow rsc self netlink_kobject_uevent_socket { create bind read }"@,
            ),
        ],
        RunEvent::Running(false) => seq![
            s.stats_entry("INFO"@, "stats"@, "stats"@, seq![("final"@, "true"@)]),
        ],
        RunEvent::Received { message } => daemon::only_if(
            uevent::relevant(message@) && s.debug,
            Entry::new("DEBUG"@, "relevant uevent"@).with("event"@, "uevent"@).with(
                "payload"@,
                uevent::one_line(text::lossy_utf8(message@)),
            ),
        ),
        RunEvent::ReceiveFailed { error, kind } => seq![
            Entry::new("WARN"@, "uevent recv error"@).with("event"@, "warn"@).with(
                "err"@,
                error@,
            ).with("errno_kind"@, kind@).with("retry_secs"@, "5"@),
        ],
        _ => Seq::empty(),
    }
}

/// What is to be done after an event.
pub open spec fn run_next(event: RunEvent) -> RunNext {
    match event {
        RunEvent::Started { version } => RunNext::CheckPaths,
        RunEvent::PathsChecked(exist) => if exist {
            RunNext::OpenListener
        } else {
            RunNext::Exit(1)
        },
        RunEvent::ListenerOpened(Ok(fd)) => RunNext::Tick,
        RunEvent::ListenerOpened(Err(e)) => RunNext::Exit(1),
        RunEvent::TickDone => RunNext::CheckRunning,
        RunEvent::Running(go_on) => if go_on {
            RunNext::Receive
        } else {
            RunNext::Shutdown
        },
        RunEvent::Received { message } => if uevent::relevant(message@) {
            RunNext::Drain
        } else {
            RunNext::CheckRunning
        },
        RunEvent::Interrupted => RunNext::CheckRunning,
        RunEvent::ReceiveFailed { error, kind } => RunNext::Sleep { millis: RETRY_DELAY_MS },
        RunEvent::Drained(n) => RunNext::Tick,
        RunEvent::Retry => RunNext::CheckRunning,
    }
}

/// The counters after an event.
pub open spec fn run_stats(stats: Stats, event: RunEvent) -> Stats {
    match event {
        RunEvent::Received { message } => if uevent::relevant(message@) {
            Stats {
                events_received: logger::successor(stats.events_received),
                events_relevant: logger::successor(stats.events_relevant),
                ..stats
            }
        } else {
            Stats {
                events_received: logger::successor(stats.events_received),
                events_irrelevant: logger::successor(stats.events_irrelevant),
                ..stats
            }
        },
        RunEvent::ReceiveFailed { error, kind } => Stats {
            errors: logger::successor(stats.errors),
            ..stats
        },
        RunEvent::Drained(n) => Stats {
            events_drained: stats.events_drained.wrapping_add(n),
            ..stats
        },
        _ => stats,
    }
}

/// One thing to do at shutdown.
#[derive(Debug)]
pub enum Action {
    /// Log the record.
    Log(LogRecord),
    /// Run the command; what comes of it is not looked at.
    Run(MtkCommand),
}

/// One thing to do at shutdown, as a mathematical value.
pub enum Act {
    /// Log the entry.
    Log(Entry),
    /// Run the command.
    Run(MtkCommand),
}

impl View for Action {
    type V = Act;

    open spec fn view(&self) -> Act {
        match self {
            Action::Log(r) => Act::Log(r@),
            Action::Run(c) => Act::Run(*c),
        }
    }
}

/// The things that a list of actions does.
pub open spec fn acts(actions: Seq<Action>) -> Seq<Act> {
    Seq::new(actions.len(), |i: int| actions[i]@)
}

/// What is done at shutdown: the thermal delimiter is disabled if it is on, and charging is
/// resumed if it is cut off.
pub open spec fn shutdown_acts(s: State) -> Seq<Act> {
    seq![
        Act::Log(
            Entry::new("INFO"@, "rsc shutting down"@).with("event"@, "shutdown"@).with(
                "boot_id"@,
                s.boot_id,
            ),
        ),
    ] + if s.thermal_on {
        seq![
            Act::Run(MtkCommand::DisableThermalDelimiter),
            Act::Log(
                Entry::new("INFO"@, "thermal delimiter restored on exit"@).with(
                    "event"@,
                    "shutdown"@,
                ).with("restored"@, "thermal"@),
            ),
        ]
    } else {
        Seq::empty()
    } + if s.cut is CutOff {
        seq![
            Act::Run(MtkCommand::ResumeCharging),
            Act::Log(
                Entry::new("INFO"@, "charging path resumed on exit"@).with(
                    "event"@,
                    "shutdown"@,
                ).with("restored"@, "charging"@),
            ),
        ]
    } else {
        Seq::empty()
    } + seq![
        Act::Log(
            Entry::new("INFO"@, "BOOT END rsc"@).with("event"@, "shutdown"@).with(
                "boot_id"@,
                s.boot_id,
            ),
        ),
    ]
}

/// What is to be done after each event.
pub proof fn events_lead_on(
    version: String,
    fd: i32,
    error: String,
    kind: String,
    message: Vec<u8>,
    n: u64,
)
    ensures
        run_next(RunEvent::Started { version }) == RunNext::CheckPaths,
        run_next(RunEvent::PathsChecked(true)) == RunNext::OpenListener,
        run_next(RunEvent::PathsChecked(false)) == RunNext::Exit(1),
        run_next(RunEvent::ListenerOpened(Ok(fd))) == RunNext::Tick,
        run_next(RunEvent::ListenerOpened(Err(error))) == RunNext::Exit(1),
        run_next(RunEvent::TickDone) == RunNext::CheckRunning,
        run_next(RunEvent::Running(true)) == RunNext::Receive,
        run_next(RunEvent::Running(false)) == RunNext::Shutdown,
        run_next(RunEvent::Received { message }) == if uevent::relevant(message@) {
            RunNext::Drain
        } else {
            RunNext::CheckRunning
        },
        run_next(RunEvent::Interrupted) == RunNext::CheckRunning,
        run_next(RunEvent::ReceiveFailed { error, kind }) == (RunNext::Sleep { millis: 5000 }),
        run_next(RunEvent::Drained(n)) == RunNext::Tick,
        run_next(RunEvent::Retry) == RunNext::CheckRunning,
{
}

/// What each event does to the counters: a kernel event is counted, and once more as relevant or
/// not; a failure of the socket is an error; the events passed over are added up. No other event
/// and no other counter changes anything.
pub proof fn events_are_counted(stats: Stats, event: RunEvent)
    ensures
        ({
            let after = run_stats(stats, event);
            let heard = event is Received;
            let relevant = event matches RunEvent::Received { message } && uevent::relevant(
                message@,
            );
            &&& after.events_received == if heard {
                stats.events_received.wrapping_add(1)
            } else {
                stats.events_received
            }
            &&& after.events_relevant == if relevant {
                stats.events_relevant.wrapping_add(1)
            } else {
                stats.events_relevant
            }
            &&& after.events_irrelevant == if heard && !relevant {
                stats.events_irrelevant.wrapping_add(1)
            } else {
                stats.events_irrelevant
            }
            &&& after.events_drained == match event {
                RunEvent::Drained(n) => stats.events_drained.wrapping_add(n),
                _ => stats.events_drained,
            }
            &&& after.errors == if event is ReceiveFailed {
                stats.errors.wrapping_add(1)
            } else {
                stats.errors
            }
            &&& after.ticks == stats.ticks
            &&& after.thermal_toggles == stats.thermal_toggles
            &&& after.cut_events == stats.cut_events
            &&& after.resume_events == stats.resume_events
        }),
{
}

/// What a daemon logs about its start, up to the first tick.
pub proof fn startup_is_logged(s: State, version: String, fd: i32, error: String)
    ensures
        run_entries(s, RunEvent::Started { version }) == seq![
            Entry {
                level: "INFO"@,
                message: "BOOT START rsc"@,
                kv: seq![
                    ("event"@, "startup"@),
                    ("version"@, version@),
                    ("boot_id"@, s.boot_id),
                ],
            },
            Entry {
                level: "INFO"@,
                message: "rsc starting"@,
                kv: seq![
                    ("event"@, "startup"@),
                    ("version"@, version@),
                    ("cutoff"@, text::decimal(s.cutoff as nat) + seq!['%']),
                    ("resume"@, text::decimal(s.resume as nat) + seq!['%']),
                    (
                        "debug"@,
                        if s.debug {
                            "true"@
                        } else {
                            "false"@
                        },
                    ),
                    ("stats_mode"@, "event-driven"@),
                ],
            },
            Entry {
                level: "INFO"@,
                message: "paths"@,
                kv: seq![
                    ("event"@, "startup"@),
                    ("config_path"@, "/data/adb/rsc/config.toml"@),
                    ("log_file"@, s.log_file),
                ],
            },
        ],
        run_entries(s, RunEvent::PathsChecked(true)) == seq![
            Entry {
                level: "INFO"@,
                message: "MTK battery paths verified"@,
                kv: seq![("event"@, "startup"@)],
            },
        ],
        run_entries(s, RunEvent::PathsChecked(false)) == seq![
            Entry {
                level: "ERROR"@,
                message: "MTK battery paths missing"@,
                kv: seq![("event"@, "error"@), ("hint"@, "is this really an MTK device?"@)],
            },
        ],
        run_entries(s, RunEvent::ListenerOpened(Ok(fd))) == seq![
            Entry {
                level: "INFO"@,
                message: "uevent listener initialized"@,
                kv: seq![
                    ("event"@, "startup"@),
                    ("fd"@, text::signed_decimal(fd as int)),
                    ("mode"@, "uevent"@),
                ],
            },
            Entry {
                level: "INFO"@,
                message: "uevent-driven mode active"@,
                kv: seq![("event"@, "startup"@), ("fallback"@, "none"@)],
            },
        ],
        run_entries(s, RunEvent::ListenerOpened(Err(error))) == seq![
            Entry {
                level: "ERROR"@,
                message: "uevent listener init failed"@,
                kv: seq![
                    ("event"@, "error"@),
                    ("err"@, error@),
                    (
                        "hint"@,
                        "uevent mandatory — no polling fallback. Check SELinux: allow rsc self netlink_kobject_uevent_socket { create bind read }"@,
                    ),
                ],
            },
        ],
{
    text::percentages_end_in_a_sign(s.cutoff as nat);
    text::percentages_end_in_a_sign(s.resume as nat);
    let started = run_entries(s, RunEvent::Started { version });
    assert(started[0].kv =~= seq![
        ("event"@, "startup"@),
        ("version"@, version@),
        ("boot_id"@, s.boot_id),
    ]);
    assert(started[1].kv =~= seq![
        ("event"@, "startup"@),
        ("version"@, version@),
        ("cutoff"@, text::decimal(s.cutoff as nat) + seq!['%']),
        ("resume"@, text::decimal(s.resume as nat) + seq!['%']),
        (
            "debug"@,
            if s.debug {
                "true"@
            } else {
                "false"@
            },
        ),
        ("stats_mode"@, "event-driven"@),
    ]);
    assert(started[2].kv =~= seq![
        ("event"@, "startup"@),
        ("config_path"@, "/data/adb/rsc/config.toml"@),
        ("log_file"@, s.log_file),
    ]);
    assert(run_entries(s, RunEvent::PathsChecked(true))[0].kv =~= seq![("event"@, "startup"@)]);
    assert(run_entries(s, RunEvent::PathsChecked(false))[0].kv =~= seq![
        ("event"@, "error"@),
        ("hint"@, "is this really an MTK device?"@),
    ]);
    let opened = run_entries(s, RunEvent::ListenerOpened(Ok(fd)));
    assert(opened[0].kv =~= seq![
        ("event"@, "startup"@),
        ("fd"@, text::signed_decimal(fd as int)),
        ("mode"@, "uevent"@),
    ]);
    assert(opened[1].kv =~= seq![("event"@, "startup"@), ("fallback"@, "none"@)]);
    assert(run_entries(s, RunEvent::ListenerOpened(Err(error)))[0].kv =~= seq![
        ("event"@, "error"@),
        ("err"@, error@),
        (
            "hint"@,
            "uevent mandatory — no polling fallback. Check SELinux: allow rsc self netlink_kobject_uevent_socket { create bind read }"@,
        ),
    ]);
}

/// What a daemon logs about the events of its life behind the start.
pub proof fn life_is_logged(
    s: State,
    message: Vec<u8>,
    error: String,
    kind: String,
    n: u64,
)
    ensures
        run_entries(s, RunEvent::Received { message }) == if uevent::relevant(message@) && s.debug {
            seq![
                Entry {
                    level: "DEBUG"@,
                    message: "relevant uevent"@,
                    kv: seq![
                        ("event"@, "uevent"@),
                        ("payload"@, uevent::one_line(text::lossy_utf8(message@))),
                    ],
                },
            ]
        } else {
            Seq::empty()
        },
        run_entries(s, RunEvent::ReceiveFailed { error, kind }) == seq![
            Entry {
                level: "WARN"@,
                message: "uevent recv error"@,
                kv: seq![
                    ("event"@, "warn"@),
                    ("err"@, error@),
                    ("errno_kind"@, kind@),
                    ("retry_secs"@, "5"@),
                ],
            },
        ],
        run_entries(s, RunEvent::Running(false)) == seq![
            Entry {
                level: "INFO"@,
                message: "stats"@,
                kv: seq![("event"@, "stats"@), ("final"@, "true"@), ("boot_id"@, s.boot_id)]
                    + s.stats.pairs(),
            },
        ],
        run_entries(s, RunEvent::Running(true)).len() == 0,
        run_entries(s, RunEvent::TickDone).len() == 0,
        run_entries(s, RunEvent::Interrupted).len() == 0,
        run_entries(s, RunEvent::Drained(n)).len() == 0,
        run_entries(s, RunEvent::Retry).len() == 0,
{
    let heard = Entry::new("DEBUG"@, "relevant uevent"@).with("event"@, "uevent"@).with(
        "payload"@,
        uevent::one_line(text::lossy_utf8(message@)),
    );
    assert(heard.kv =~= seq![
        ("event"@, "uevent"@),
        ("payload"@, uevent::one_line(text::lossy_utf8(message@))),
    ]);
    assert(run_entries(s, RunEvent::ReceiveFailed { error, kind })[0].kv =~= seq![
        ("event"@, "warn"@),
        ("err"@, error@),
        ("errno_kind"@, kind@),
        ("retry_secs"@, "5"@),
    ]);
    assert(run_entries(s, RunEvent::Running(false))[0].kv =~= seq![
        ("event"@, "stats"@),
        ("final"@, "true"@),
        ("boot_id"@, s.boot_id),
    ] + s.stats.pairs());
}

/// A shutdown disables the thermal delimiter exactly if it is on, and resumes charging exactly if
/// it is cut off, in this order, and logs each of them between its first and its last line.
pub proof fn shutdown_is_in_order(s: State)
    ensures
        ({
            let first = Act::Log(
                Entry {
                    level: "INFO"@,
                    message: "rsc shutting down"@,
                    kv: seq![("event"@, "shutdown"@), ("boot_id"@, s.boot_id)],
                },
            );
            let cooled = Act::Log(
                Entry {
                    level: "INFO"@,
                    message: "thermal delimiter restored on exit"@,
                    kv: seq![("event"@, "shutdown"@), ("restored"@, "thermal"@)],
                },
            );
            let resumed = Act::Log(
                Entry {
                    level: "INFO"@,
                    message: "charging path resumed on exit"@,
                    kv: seq![("event"@, "shutdown"@), ("restored"@, "charging"@)],
                },
            );
            let last = Act::Log(
                Entry {
                    level: "INFO"@,
                    message: "BOOT END rsc"@,
                    kv: seq![("event"@, "shutdown"@), ("boot_id"@, s.boot_id)],
                },
            );
            let cool = Act::Run(MtkCommand::DisableThermalDelimiter);
            let resume = Act::Run(MtkCommand::ResumeCharging);
            shutdown_acts(s) == if s.thermal_on && s.cut is CutOff {
                seq![first, cool, cooled, resume, resumed, last]
            } else if s.thermal_on {
                seq![first, cool, cooled, last]
            } else if s.cut is CutOff {
                seq![first, resume, resumed, last]
            } else {
                seq![first, last]
            }
        }),
{
    let first = Entry::new("INFO"@, "rsc shutting down"@).with("event"@, "shutdown"@).with(
        "boot_id"@,
        s.boot_id,
    );
    let cooled = Entry::new("INFO"@, "thermal delimiter restored on exit"@).with(
        "event"@,
        "shutdown"@,
    ).with("restored"@, "thermal"@);
    let resumed = Entry::new("INFO"@, "charging path resumed on exit"@).with(
        "event"@,
        "shutdown"@,
    ).with("restored"@, "charging"@);
    let last = Entry::new("INFO"@, "BOOT END rsc"@).with("event"@, "shutdown"@).with(
        "boot_id"@,
        s.boot_id,
    );
    assert(first.kv =~= seq![("event"@, "shutdown"@), ("boot_id"@, s.boot_id)]);
    assert(cooled.kv =~= seq![("event"@, "shutdown"@), ("restored"@, "thermal"@)]);
    assert(resumed.kv =~= seq![("event"@, "shutdown"@), ("restored"@, "charging"@)]);
    assert(last.kv =~= seq![("event"@, "shutdown"@), ("boot_id"@, s.boot_id)]);
}

fn push_action(actions: &mut Vec<Action>, a: Action)
    ensures
        acts(final(actions)@) == acts(old(actions)@).push(a@),
{
    let ghost before = acts(actions@);
    actions.push(a);
    assert(acts(actions@) =~= before.push(a@));
}

impl Daemon {
    /// What is logged and done after an event.
    pub fn run(&mut self, event: RunEvent) -> (step: RunStep)
        ensures
            final(self)@ == (State { stats: run_stats(old(self)@.stats, event), ..old(self)@ }),
            record::entries(step.logs@) == run_entries(final(self)@, event),
            step.next == run_next(event),
            final(self).cfg == old(self).cfg,
            final(self).log == old(self).log,
            final(self).boot_id == old(self).boot_id,
            final(self).cut == old(self).cut,
            final(self).thermal_on == old(self).thermal_on,
            final(self).last_cap == old(self).last_cap,
            final(self).last_state == old(self).last_state,
            final(self).last_charge_flip == old(self).last_charge_flip,
            final(self).stats == run_stats(old(self).stats, event),
    {
        let mut logs: Vec<LogRecord> = Vec::new();
        assert(record::entries(logs@) =~= Seq::empty());
        let next = match &event {
            RunEvent::Started { version } => {
                self.log_start(version.as_str(), &mut logs);
                RunNext::CheckPaths
            },
            RunEvent::PathsChecked(exist) => if *exist {
                daemon::push_record(
                    &mut logs,
                    LogRecord::new("INFO", "MTK battery paths verified").with("event", "startup"),
                );
                RunNext::OpenListener
            } else {
                daemon::push_record(
                    &mut logs,
                    LogRecord::new("ERROR", "MTK battery paths missing").with("event", "error").with(
                        "hint",
                        "is this really an MTK device?",
                    ),
                );
                RunNext::Exit(1)
            },
            RunEvent::ListenerOpened(Ok(fd)) => {
                daemon::push_record(
                    &mut logs,
                    LogRecord::new("INFO", "uevent listener initialized").with(
                        "event",
                        "startup",
                    ).with("fd", text::signed_decimal_text(*fd).as_str()).with("mode", "uevent"),
                );
                daemon::push_record(
                    &mut logs,
                    LogRecord::new("INFO", "uevent-driven mode active").with(
                        "event",
                        "startup",
                    ).with("fallback", "none"),
                );
                RunNext::Tick
            },
            RunEvent::ListenerOpened(Err(e)) => {
                daemon::push_record(
                    &mut logs,
                    LogRecord::new("ERROR", "uevent listener init failed").with(
                        "event",
                        "error",
                    ).with("err", e.as_str()).with(
                        "hint",
                        "uevent mandatory — no polling fallback. Check SELinux: allow rsc self netlink_kobject_uevent_socket { create bind read }",
                    ),
                );
                RunNext::Exit(1)
            },
            RunEvent::TickDone => RunNext::CheckRunning,
            RunEvent::Running(go_on) => if *go_on {
                RunNext::Receive
            } else {
                let r = self.report("INFO", "stats", "stats", "final", "true");
                daemon::push_record(&mut logs, r);
                RunNext::Shutdown
            },
            RunEvent::Received { message } => {
                self.stats.events_received = self.stats.events_received.wrapping_add(1);
                if uevent::is_relevant(message.as_slice()) {
                    self.stats.events_relevant = self.stats.events_relevant.wrapping_add(1);
                    if self.cfg.debug {
                        let payload = text::lossy_text(message.as_slice());
                        daemon::push_record(
                            &mut logs,
                            LogRecord::new("DEBUG", "relevant uevent").with(
                                "event",
                                "uevent",
                            ).with("payload", uevent::summary(payload.as_str()).as_str()),
                        );
                    }
                    RunNext::Drain
                } else {
                    self.stats.events_irrelevant = self.stats.events_irrelevant.wrapping_add(1);
                    RunNext::CheckRunning
                }
            },
            RunEvent::Interrupted => RunNext::CheckRunning,
            RunEvent::ReceiveFailed { error, kind } => {
                self.stats.errors = self.stats.errors.wrapping_add(1);
                daemon::push_record(
                    &mut logs,
                    LogRecord::new("WARN", "uevent recv error").with("event", "warn").with(
                        "err",
                        error.as_str(),
                    ).with("errno_kind", kind.as_str()).with("retry_secs", "5"),
                );
                RunNext::Sleep { millis: RETRY_DELAY_MS }
            },
            RunEvent::Drained(n) => {
                self.stats.events_drained = self.stats.events_drained.wrapping_add(*n);
                RunNext::Tick
            },
            RunEvent::Retry => RunNext::CheckRunning,
        };
        assert(record::entries(logs@) =~= run_entries(self@, event));
        RunStep { logs, next }
    }

    fn log_start(&self, version: &str, logs: &mut Vec<LogRecord>)
        ensures
            record::entries(final(logs)@) == record::entries(old(logs)@) + start_entries(
                self@,
                version@,
            ),
    {
        let ghost before = record::entries(logs@);
        daemon::push_record(
            logs,
            LogRecord::new("INFO", "BOOT START rsc").with("event", "startup").with(
                "version",
                version,
            ).with("boot_id", self.boot_id.as_str()),
        );
        daemon::push_record(
            logs,
            LogRecord::new("INFO", "rsc starting").with("event", "startup").with(
                "version",
                version,
            ).with("cutoff", text::percent_text(self.cfg.cutoff).as_str()).with(
                "resume",
                text::percent_text(self.cfg.resume).as_str(),
            ).with("debug", text::bool_text(self.cfg.debug)).with("stats_mode", "event-driven"),
        );
        daemon::push_record(
            logs,
            LogRecord::new("INFO", "paths").with("event", "startup").with(
                "config_path",
                CONFIG_PATH,
            ).with("log_file", self.cfg.log_file.as_str()),
        );
        assert(record::entries(logs@) =~= before + start_entries(self@, version@));
    }

    /// What is done at shutdown, in order.
    pub fn shutdown(&self) -> (actions: Vec<Action>)
        ensures
            acts(actions@) == shutdown_acts(self@),
            actions@.len() == shutdown_acts(self@).len(),
            forall|i: int|
                0 <= i < actions@.len() ==> match (
                    #[trigger] actions@[i],
                    shutdown_acts(self@)[i],
                ) {
                    (Action::Log(r), Act::Log(e)) => r@ == e,
                    (Action::Run(c), Act::Run(d)) => c == d,
                    _ => false,
                },
    {
        let mut actions: Vec<Action> = Vec::new();
        assert(acts(actions@) =~= Seq::empty());
        push_action(
            &mut actions,
            Action::Log(
                LogRecord::new("INFO", "rsc shutting down").with("event", "shutdown").with(
                    "boot_id",
                    self.boot_id.as_str(),
                ),
            ),
        );
        if self.thermal_on {
            push_action(&mut actions, Action::Run(MtkCommand::DisableThermalDelimiter));
            push_action(
                &mut actions,
                Action::Log(
                    LogRecord::new("INFO", "thermal delimiter restored on exit").with(
                        "event",
                        "shutdown",
                    ).with("restored", "thermal"),
                ),
            );
        }
        if self.cut == CutState::CutOff {
            push_action(&mut actions, Action::Run(MtkCommand::ResumeCharging));
            push_action(
                &mut actions,
                Action::Log(
                    LogRecord::new("INFO", "charging path resumed on exit").with(
                        "event",
                        "shutdown",
                    ).with("restored", "charging"),
                ),
            );
        }
        push_action(
            &mut actions,
            Action::Log(
                LogRecord::new("INFO", "BOOT END rsc").with("event", "shutdown").with(
                    "boot_id",
                    self.boot_id.as_str(),
                ),
            ),
        );
        assert(acts(actions@) =~= shutdown_acts(self@));
        actions
    }
}

} // verus!
