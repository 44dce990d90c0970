use std::collections::HashMap;

use rsc::battery::ChargeState;
use rsc::cleanup::{run_cleanup, CleanupEvent, CleanupNext};
use rsc::config::Config;
use rsc::daemon::{CutState, Daemon, Reading, TickNext};
use rsc::logger::{format_line, FileLogger};
use rsc::mtk::{
    MtkCommand, MtkError, StepOutcome, SysOp, CURRENT_CMD_PATH, DISABLE_NAFG_PATH, EN_POWER_PATH,
    NTC_DISABLE_NAFG_PATH,
};
use rsc::run::{Action, RunEvent, RunNext};
use rsc::uevent::summary;

const SEC: u64 = 1_000_000_000;

fn daemon() -> Daemon {
    Daemon::new(Config { debug: true, ..Config::default() }, 0, "a30d49a3".to_string())
}

fn outcome(ok: bool) -> Result<(), MtkError> {
    if ok {
        Ok(())
    } else {
        Err(MtkError::Io("busy".to_string()))
    }
}

/// Runs a whole tick; gives what it reported, how many commands it took, and whether each of its
/// records named its event first.
fn tick(d: &mut Daemon, cap: u8, state: ChargeState, now: u64, ok: bool) -> (bool, usize, bool) {
    let mut commands = 0;
    let mut named = true;
    let mut step = d.tick(Reading::Battery { cap, state }, now);
    loop {
        named = named && step.logs.iter().all(|r| r.kv[0].0 == "event");
        match step.next {
            TickNext::Run(pending) => {
                commands += 1;
                step = d.continue_tick(pending, outcome(ok));
            }
            TickNext::Done(charging) => return (charging, commands, named),
        }
    }
}

fn counters_fit(d: &Daemon) -> bool {
    d.stats.events_received == d.stats.events_relevant + d.stats.events_irrelevant
        && d.stats.cut_events == d.stats.resume_events + (d.cut == CutState::CutOff) as u64
        && d.stats.thermal_toggles % 2 == d.thermal_on as u64
}

#[test]
fn a_long_life_keeps_the_counters_and_names_the_events() {
    let mut d = daemon();
    let mut cap: u8 = 60;
    for n in 0..400u64 {
        let charging = d.cut == CutState::Charging && n % 7 != 3;
        let state = if charging { ChargeState::Charging } else { ChargeState::Discharging };
        let (reported, commands, named) = tick(&mut d, cap, state, n * SEC, n % 5 != 0);
        assert_eq!(reported, charging);
        assert!(commands <= 2);
        assert!(named);
        let message: &[u8] = if n % 2 == 0 {
            b"SUBSYSTEM=power_supply\0DEVPATH=/x/power_supply/battery\0"
        } else {
            b"SUBSYSTEM=net\0"
        };
        let step = d.run(RunEvent::Received { message: message.to_vec() });
        assert!(step.logs.iter().all(|r| r.kv[0].0 == "event"));
        assert!(counters_fit(&d));
        cap = if charging { cap + 1 } else { cap - 1 };
    }
    assert!(d.stats.cut_events > 1);
    assert!(d.stats.resume_events > 0);
    assert_eq!(d.stats.ticks, 400);
    assert_eq!(d.stats.events_received, 400);
    for action in d.shutdown() {
        if let Action::Log(r) = action {
            assert_eq!(r.kv[0].0, "event");
        }
    }
}

#[test]
fn the_path_stays_until_a_threshold_is_reached() {
    let mut d = daemon();
    for (n, cap) in (0..80u8).chain(71..80).enumerate() {
        tick(&mut d, cap, ChargeState::Charging, n as u64 * SEC, true);
        assert_eq!(d.cut, CutState::Charging);
    }
    tick(&mut d, 80, ChargeState::Charging, 200 * SEC, true);
    assert_eq!(d.cut, CutState::CutOff);
    for (n, cap) in (71..=100u8).rev().enumerate() {
        tick(&mut d, cap, ChargeState::NotCharging, (300 + n as u64) * SEC, true);
        assert_eq!(d.cut, CutState::CutOff);
    }
    tick(&mut d, 70, ChargeState::NotCharging, 400 * SEC, true);
    assert_eq!(d.cut, CutState::Charging);
}

#[test]
fn only_kernel_events_lead_to_ticks() {
    let mut d = daemon();
    for event in [
        RunEvent::Started { version: "1".to_string() },
        RunEvent::PathsChecked(true),
        RunEvent::TickDone,
        RunEvent::Running(true),
        RunEvent::Running(false),
        RunEvent::Interrupted,
        RunEvent::Retry,
        RunEvent::Received { message: b"SUBSYSTEM=net\0".to_vec() },
    ] {
        let next = d.run(event).next;
        assert!(next != RunNext::Tick && next != RunNext::Drain);
        assert!(!matches!(next, RunNext::Exit(_) | RunNext::Sleep { .. }));
    }
    assert_eq!(d.run(RunEvent::ListenerOpened(Ok(3))).next, RunNext::Tick);
    assert_eq!(d.run(RunEvent::Drained(0)).next, RunNext::Tick);
}

/// Reads the pairs behind a message.
fn read_pairs(s: &str) -> Vec<(String, String)> {
    let mut rest = s;
    let mut out = Vec::new();
    while let Some(mark) = rest.find('=') {
        let key = rest[1..mark].to_string();
        rest = &rest[mark + 1..];
        let mut value = String::new();
        if rest.starts_with('"') {
            let mut chars = rest.char_indices().skip(1);
            let mut end = rest.len();
            while let Some((i, c)) = chars.next() {
                match c {
                    '"' => {
                        end = i + 1;
                        break;
                    }
                    '\\' => value.push(chars.next().unwrap().1),
                    _ => value.push(c),
                }
            }
            rest = &rest[end..];
        } else {
            let end = rest.find(' ').unwrap_or(rest.len());
            value.push_str(&rest[..end]);
            rest = &rest[end..];
        }
        out.push((key, value));
    }
    out
}

#[test]
fn pairs_of_a_line_read_back() {
    let kv = [
        ("event", "uevent"),
        ("payload", "A=1 | B=\"x y\""),
        ("path", "C:\\dir\\"),
        ("none", ""),
        ("é", "ü\tü"),
        ("last", "x=\" y=\"z"),
    ];
    let line = format_line("T", "INFO", 9, "m", &kv);
    let pairs = line.strip_prefix("[T INFO   seq=9] m").unwrap().strip_suffix('\n').unwrap();
    let read = read_pairs(pairs);
    assert_eq!(read.len(), kv.len());
    for (r, (k, v)) in read.iter().zip(kv) {
        assert_eq!((r.0.as_str(), r.1.as_str()), (k, v));
    }
}

#[test]
fn lines_with_different_numbers_differ() {
    assert_ne!(
        format_line("T", "INFO", 1, "2] m", &[]),
        format_line("T", "INFO", 12, "m", &[])
    );
}

#[test]
fn the_limit_is_passed_by_one_line() {
    let mut log = FileLogger::new("rsc.log", 1, 2, 0);
    for _ in 0..200 {
        let w = log.info("a line of some length");
        assert!(log.bytes_written <= log.max_bytes);
        log.wrote(&w.line);
        assert!(log.bytes_written <= log.max_bytes + w.line.len() as u64);
    }
    assert_eq!(log.seq, 200);
}

#[test]
fn events_in_one_line() {
    assert_eq!(summary("change@/x\0ACTION=change\0SEQNUM=1\0"), "change@/x | ACTION=change | SEQNUM=1");
    assert_eq!(summary("\0a\0\0b"), " | a |  | b");
    assert_eq!(summary("\0\0"), "");
    assert_eq!(summary("é"), "é");
}

/// Performs a command whose writes fail behind the first `steps` steps.
fn perform(
    nodes: &mut HashMap<&'static str, &'static str>,
    command: MtkCommand,
    steps: usize,
) -> Result<(), MtkError> {
    let mut c = command.start();
    let mut done = 0;
    while let Some(op) = c.current() {
        let mut outcome = StepOutcome::Done;
        if let SysOp::Write { path, value } = op {
            if done < steps {
                nodes.insert(path, value);
            } else {
                outcome = StepOutcome::Failed("busy".to_string());
            }
        }
        done += 1;
        c.advance(outcome)?;
    }
    Ok(())
}

#[test]
fn shutdown_leaves_the_nodes_safe_whatever_failed() {
    for end in 1..60u64 {
        let mut nodes: HashMap<&'static str, &'static str> = HashMap::new();
        let mut d = daemon();
        for n in 0..end {
            let cap = 65 + (n * 7 % 20) as u8;
            let state = if n % 3 == 0 { ChargeState::NotCharging } else { ChargeState::Charging };
            let mut step = d.tick(Reading::Battery { cap, state }, n * 3 * SEC);
            while let TickNext::Run(pending) = step.next {
                let outcome = perform(&mut nodes, pending.command(), (n * 5 % 8) as usize);
                step = d.continue_tick(pending, outcome);
            }
        }
        for action in d.shutdown() {
            if let Action::Run(command) = action {
                assert!(perform(&mut nodes, command, 9).is_ok());
            }
        }
        assert_ne!(nodes.get(CURRENT_CMD_PATH), Some(&"1 1"));
        assert_ne!(nodes.get(NTC_DISABLE_NAFG_PATH), Some(&"1"));
    }
}

#[test]
fn ticks_are_one_ahead_of_relevant_events() {
    let mut d = daemon();
    let mut event = RunEvent::Started { version: "1".to_string() };
    let mut waits = 0u64;
    while waits < 30 {
        event = match d.run(event).next {
            RunNext::CheckPaths => RunEvent::PathsChecked(true),
            RunNext::OpenListener => RunEvent::ListenerOpened(Ok(3)),
            RunNext::Tick => {
                tick(&mut d, 50, ChargeState::Charging, waits * SEC, true);
                RunEvent::TickDone
            }
            RunNext::CheckRunning => RunEvent::Running(true),
            RunNext::Receive => {
                assert_eq!(d.stats.ticks, d.stats.events_relevant + 1);
                waits += 1;
                match waits % 4 {
                    0 => RunEvent::Interrupted,
                    1 => RunEvent::ReceiveFailed { error: "e".to_string(), kind: "k".to_string() },
                    2 => RunEvent::Received { message: b"SUBSYSTEM=net\0".to_vec() },
                    _ => RunEvent::Received {
                        message: b"SUBSYSTEM=power_supply\0DEVPATH=/power_supply/battery\0".to_vec(),
                    },
                }
            }
            RunNext::Drain => RunEvent::Drained(2),
            RunNext::Sleep { .. } => RunEvent::Retry,
            RunNext::Shutdown | RunNext::Exit(_) => unreachable!(),
        };
    }
    assert_eq!(d.stats.events_relevant, 7);
    assert_eq!(d.stats.ticks, 8);
}

#[test]
fn cleanup_sets_all_four_nodes() {
    let cfg = Config::default();
    let mut nodes: HashMap<&'static str, &'static str> = HashMap::new();
    for node in [EN_POWER_PATH, CURRENT_CMD_PATH, DISABLE_NAFG_PATH, NTC_DISABLE_NAFG_PATH] {
        nodes.insert(node, "left over");
    }
    nodes.insert("/other", "as it was");
    let mut event = CleanupEvent::PathsChecked(true);
    while let CleanupNext::Run(command) = run_cleanup(&cfg, event).next {
        let outcome = perform(&mut nodes, command, 9);
        event = if command == MtkCommand::DisableThermalDelimiter {
            CleanupEvent::ThermalDone(outcome)
        } else {
            CleanupEvent::ResumeDone(outcome)
        };
    }
    assert_eq!(nodes[EN_POWER_PATH], "1");
    assert_eq!(nodes[CURRENT_CMD_PATH], "0 0");
    assert_eq!(nodes[DISABLE_NAFG_PATH], "0");
    assert_eq!(nodes[NTC_DISABLE_NAFG_PATH], "0");
    assert_eq!(nodes["/other"], "as it was");
    assert_eq!(nodes.len(), 5);
}
