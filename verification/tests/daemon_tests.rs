use rsc::battery::ChargeState;
use rsc::config::Config;
use rsc::daemon::{CutState, Daemon, Pending, Reading, TickNext, TickStep};
use rsc::mtk::{MtkCommand, MtkError};
use rsc::record::LogRecord;

const SEC: u64 = 1_000_000_000;

fn daemon(debug: bool) -> Daemon {
    Daemon::new(Config { debug, ..Config::default() }, 0, "a30d49a3".to_string())
}

fn at(cap: u8, state: ChargeState) -> Reading {
    Reading::Battery { cap, state }
}

fn text(r: &LogRecord) -> String {
    let mut s = format!("{} {}", r.level, r.message);
    for (k, v) in &r.kv {
        s.push_str(&format!(" {}={}", k, v));
    }
    s
}

fn texts(step: &TickStep) -> Vec<String> {
    step.logs.iter().map(text).collect()
}

/// Runs a whole tick in which every command succeeds; gives the commands.
fn tick(d: &mut Daemon, reading: Reading, now: u64) -> Vec<MtkCommand> {
    let mut commands = Vec::new();
    let mut step = d.tick(reading, now);
    while let TickNext::Run(pending) = step.next {
        commands.push(pending.command());
        step = d.continue_tick(pending, Ok(()));
    }
    commands
}

#[test]
fn a_new_daemon_has_done_nothing() {
    let d = daemon(false);
    assert_eq!(d.cut, CutState::Charging);
    assert!(!d.thermal_on);
    assert_eq!(d.last_cap, None);
    assert_eq!(d.last_state, None);
    assert_eq!(d.last_charge_flip, None);
    assert_eq!(d.stats.ticks, 0);
    assert_eq!(d.log.path, "/data/adb/rsc/rsc.log");
    assert_eq!(d.log.max_bytes, 512 * 1024);
    assert_eq!(d.log.keep, 3);
}

#[test]
fn charge_cycle() {
    let mut d = daemon(false);
    assert_eq!(
        tick(&mut d, at(75, ChargeState::Charging), 0),
        vec![MtkCommand::EnableThermalDelimiter]
    );
    assert!(d.thermal_on);
    assert!(tick(&mut d, at(79, ChargeState::Charging), 10 * SEC).is_empty());
    assert_eq!(
        tick(&mut d, at(80, ChargeState::Charging), 20 * SEC),
        vec![MtkCommand::CutOffCharging]
    );
    assert_eq!(d.cut, CutState::CutOff);
    assert_eq!(
        tick(&mut d, at(80, ChargeState::NotCharging), 30 * SEC),
        vec![MtkCommand::DisableThermalDelimiter]
    );
    assert!(tick(&mut d, at(71, ChargeState::Discharging), 40 * SEC).is_empty());
    assert_eq!(
        tick(&mut d, at(70, ChargeState::Discharging), 50 * SEC),
        vec![MtkCommand::ResumeCharging]
    );
    assert_eq!(d.cut, CutState::Charging);
    assert_eq!(
        tick(&mut d, at(80, ChargeState::Charging), 60 * SEC),
        vec![MtkCommand::EnableThermalDelimiter, MtkCommand::CutOffCharging]
    );
    assert_eq!(d.stats.ticks, 7);
    assert_eq!(d.stats.cut_events, 2);
    assert_eq!(d.stats.resume_events, 1);
    assert_eq!(d.stats.thermal_toggles, 3);
    assert_eq!(d.stats.errors, 0);
}

#[test]
fn no_cut_without_charging() {
    let mut d = daemon(false);
    assert!(tick(&mut d, at(100, ChargeState::Full), 0).is_empty());
    assert!(tick(&mut d, at(95, ChargeState::Discharging), SEC).is_empty());
    assert_eq!(d.cut, CutState::Charging);
}

#[test]
fn the_band_keeps_the_path() {
    for cap in 71..80u8 {
        let mut d = daemon(false);
        tick(&mut d, at(cap, ChargeState::Charging), 0);
        assert_eq!(d.cut, CutState::Charging);
        d.cut = CutState::CutOff;
        tick(&mut d, at(cap, ChargeState::Charging), 5 * SEC);
        assert_eq!(d.cut, CutState::CutOff);
    }
}

#[test]
fn resume_does_not_ask_for_charging() {
    for state in [ChargeState::Charging, ChargeState::NotCharging, ChargeState::Unknown] {
        let mut d = daemon(false);
        d.cut = CutState::CutOff;
        d.thermal_on = state.is_charging();
        assert_eq!(tick(&mut d, at(70, state), 0), vec![MtkCommand::ResumeCharging]);
    }
}

#[test]
fn failed_cut_is_retried() {
    let mut d = daemon(false);
    d.thermal_on = true;
    let step = d.tick(at(85, ChargeState::Charging), 0);
    assert_eq!(step.next, TickNext::Run(Pending::CutOff));
    let step = d.continue_tick(Pending::CutOff, Err(MtkError::Io("denied".to_string())));
    assert_eq!(step.next, TickNext::Done(true));
    assert_eq!(texts(&step), vec!["ERROR cut-off failed event=error err=io: denied"]);
    assert_eq!(d.cut, CutState::Charging);
    assert_eq!(d.stats.errors, 1);
    assert_eq!(d.stats.cut_events, 0);
    let step = d.tick(at(85, ChargeState::Charging), SEC);
    assert_eq!(step.next, TickNext::Run(Pending::CutOff));
}

#[test]
fn failed_resume_is_retried() {
    let mut d = daemon(false);
    d.cut = CutState::CutOff;
    let step = d.tick(at(60, ChargeState::Discharging), 0);
    let pending = Pending::Resume { charging: false };
    assert_eq!(step.next, TickNext::Run(pending));
    let step = d.continue_tick(pending, Err(MtkError::PathMissing("/p".to_string())));
    assert_eq!(step.next, TickNext::Done(false));
    assert_eq!(
        texts(&step),
        vec![
            "ERROR resume failed event=resume result=failed err=path missing: /p \
             hint=will retry on next tick"
        ]
    );
    assert_eq!(d.cut, CutState::CutOff);
    assert_eq!(
        d.tick(at(60, ChargeState::Discharging), SEC).next,
        TickNext::Run(pending)
    );
}

#[test]
fn failed_thermal_switch_goes_on_with_the_path() {
    let mut d = daemon(false);
    let step = d.tick(at(90, ChargeState::Charging), 0);
    let pending = Pending::Thermal { cap: 90, charging: true };
    assert_eq!(step.next, TickNext::Run(pending));
    let step = d.continue_tick(pending, Err(MtkError::Io("denied".to_string())));
    assert_eq!(
        texts(&step),
        vec![
            "WARN enable thermal failed event=warn err=io: denied",
            "INFO CUTTING OFF charging event=cutoff cap=90% cutoff=80%",
        ]
    );
    assert_eq!(step.next, TickNext::Run(Pending::CutOff));
    assert!(!d.thermal_on);
    d.thermal_on = true;
    let pending = Pending::Thermal { cap: 90, charging: false };
    let step = d.continue_tick(pending, Err(MtkError::Io("x".to_string())));
    assert_eq!(texts(&step), vec!["WARN disable thermal failed event=warn err=io: x"]);
    assert_eq!(step.next, TickNext::Done(false));
    assert!(d.thermal_on);
}

#[test]
fn failed_readings_end_the_tick() {
    let mut d = daemon(true);
    let step = d.tick(Reading::CapacityFailed("gone".to_string()), 0);
    assert_eq!(texts(&step), vec!["WARN read capacity failed event=warn err=gone"]);
    assert_eq!(step.next, TickNext::Done(false));
    let step = d.tick(Reading::StatusFailed("gone".to_string()), 0);
    assert_eq!(texts(&step), vec!["WARN read status failed event=warn err=gone"]);
    assert_eq!(step.next, TickNext::Done(false));
    assert_eq!(d.stats.ticks, 2);
    assert_eq!(d.stats.errors, 2);
    assert_eq!(d.last_cap, None);
}

#[test]
fn state_is_logged_when_it_changes() {
    let mut d = daemon(false);
    let step = d.tick(at(50, ChargeState::NotCharging), 0);
    assert_eq!(
        texts(&step),
        vec![
            "INFO state event=state cap=50% status=NotCharging charging=false cut=charging \
             thermal_on=false"
        ]
    );
    assert!(d.tick(at(50, ChargeState::NotCharging), SEC).logs.is_empty());
    assert_eq!(d.tick(at(51, ChargeState::NotCharging), 2 * SEC).logs.len(), 1);
    assert_eq!(d.tick(at(51, ChargeState::Discharging), 3 * SEC).logs.len(), 1);
    assert!(d.tick(at(51, ChargeState::Discharging), 4 * SEC).logs.is_empty());
}

#[test]
fn debug_lines_of_a_tick() {
    let mut d = daemon(true);
    d.cut = CutState::CutOff;
    let step = d.tick(at(75, ChargeState::Charging), 0);
    assert_eq!(
        texts(&step),
        vec![
            "DEBUG tick event=tick cap=75% state=Charging charging=true cut=cutoff \
             thermal_on=false",
            "INFO state event=state cap=75% status=Charging charging=true cut=cutoff \
             thermal_on=false",
            "DEBUG enabling thermal delimiter event=thermal",
        ]
    );
}

#[test]
fn commands_are_logged_with_the_counters() {
    let mut d = daemon(false);
    let step = d.tick(at(85, ChargeState::Charging), 0);
    assert_eq!(step.next, TickNext::Run(Pending::Thermal { cap: 85, charging: true }));
    let step = d.continue_tick(Pending::Thermal { cap: 85, charging: true }, Ok(()));
    assert_eq!(
        texts(&step),
        vec![
            "INFO thermal delimiter ENABLED event=thermal reason=charging_detected \
             boot_id=a30d49a3 ticks=1 events_recv=0 relevant=0 irrelevant=0 drained=0 \
             thermal_toggles=1 cut=0 resume=0 errors=0",
            "INFO CUTTING OFF charging event=cutoff cap=85% cutoff=80%",
        ]
    );
    let step = d.continue_tick(Pending::CutOff, Ok(()));
    assert_eq!(
        texts(&step),
        vec![
            "INFO cutoff applied event=cutoff result=ok boot_id=a30d49a3 ticks=1 events_recv=0 \
             relevant=0 irrelevant=0 drained=0 thermal_toggles=1 cut=1 resume=0 errors=0"
        ]
    );
    let step = d.tick(at(84, ChargeState::NotCharging), 10 * SEC);
    assert_eq!(step.next, TickNext::Run(Pending::Thermal { cap: 84, charging: false }));
    let step = d.continue_tick(Pending::Thermal { cap: 84, charging: false }, Ok(()));
    assert!(texts(&step)[0].starts_with(
        "INFO thermal delimiter DISABLED event=thermal reason=charging_cut_off boot_id="
    ));
    let step = d.tick(at(70, ChargeState::NotCharging), 20 * SEC);
    assert_eq!(texts(&step)[1], "INFO RESUMING charging event=resume cap=70% resume=70%");
    let step = d.continue_tick(Pending::Resume { charging: false }, Ok(()));
    assert!(texts(&step)[0].starts_with("INFO resume applied event=resume result=ok boot_id="));
    assert_eq!(step.next, TickNext::Done(false));
    d.thermal_on = true;
    let step = d.continue_tick(Pending::Thermal { cap: 75, charging: false }, Ok(()));
    assert!(texts(&step)[0].starts_with(
        "INFO thermal delimiter DISABLED event=thermal reason=charger_unplugged boot_id="
    ));
}

#[test]
fn kernel_flip_is_debounced() {
    let mut d = daemon(true);
    tick(&mut d, at(72, ChargeState::Charging), 0);
    assert!(d.thermal_on);
    // The cable seems to be pulled, and half a second later it seems to be back.
    assert_eq!(
        tick(&mut d, at(72, ChargeState::Discharging), 100 * SEC),
        vec![MtkCommand::DisableThermalDelimiter]
    );
    assert_eq!(d.last_charge_flip, Some(100 * SEC));
    let step = d.tick(at(72, ChargeState::Charging), 100 * SEC + SEC / 2);
    assert_eq!(step.next, TickNext::Done(true));
    assert!(texts(&step).contains(
        &"DEBUG charge flip debounce: suppressing thermal toggle event=charge_flip_suppressed \
          elapsed_ms=500 threshold_ms=2000"
            .to_string()
    ));
    assert!(!d.thermal_on);
    assert_eq!(d.last_charge_flip, Some(100 * SEC + SEC / 2));
    // The next tick outside the window catches up.
    assert_eq!(
        tick(&mut d, at(72, ChargeState::Charging), 105 * SEC),
        vec![MtkCommand::EnableThermalDelimiter]
    );
}

#[test]
fn debounce_window_is_two_seconds() {
    for (gap, switched) in [
        (0, false),
        (2 * SEC - 1, false),
        (2 * SEC, true),
        (10 * SEC, true),
    ] {
        let mut d = daemon(false);
        tick(&mut d, at(33, ChargeState::Charging), 0);
        tick(&mut d, at(33, ChargeState::Discharging), 100 * SEC);
        let commands = tick(&mut d, at(33, ChargeState::Charging), 100 * SEC + gap);
        assert_eq!(!commands.is_empty(), switched, "{}", gap);
        assert_eq!(d.thermal_on, switched);
    }
}

#[test]
fn debounce_is_silent_without_debug() {
    let mut d = daemon(false);
    tick(&mut d, at(33, ChargeState::Charging), 0);
    tick(&mut d, at(33, ChargeState::Discharging), 100 * SEC);
    let step = d.tick(at(33, ChargeState::Charging), 101 * SEC);
    assert_eq!(step.logs.len(), 1);
    assert_eq!(step.logs[0].message, "state");
}

#[test]
fn debounce_does_not_hold_back_a_cut() {
    let mut d = daemon(false);
    tick(&mut d, at(79, ChargeState::Discharging), 0);
    tick(&mut d, at(79, ChargeState::Charging), 10 * SEC);
    assert_eq!(
        tick(&mut d, at(80, ChargeState::Charging), 11 * SEC),
        vec![MtkCommand::CutOffCharging]
    );
}

#[test]
fn first_tick_is_no_flip() {
    let mut d = daemon(false);
    tick(&mut d, at(50, ChargeState::Charging), 7);
    assert_eq!(d.last_charge_flip, None);
    tick(&mut d, at(50, ChargeState::Full), 8);
    assert_eq!(d.last_charge_flip, Some(8));
    tick(&mut d, at(50, ChargeState::NotCharging), 9);
    assert_eq!(d.last_charge_flip, Some(8));
}

#[test]
fn counters_wrap_around() {
    let mut d = daemon(false);
    d.stats.ticks = u64::MAX;
    tick(&mut d, at(50, ChargeState::Full), 0);
    assert_eq!(d.stats.ticks, 0);
}

#[test]
fn names_of_the_cut_states() {
    assert_eq!(CutState::Charging.as_str(), "charging");
    assert_eq!(CutState::CutOff.as_str(), "cutoff");
}

#[test]
fn pairs_of_an_event_record() {
    let d = daemon(false);
    let r = d.log_event_with_stats("INFO", "stats", "stats", &[("final", "true")]);
    assert_eq!(
        text(&r),
        "INFO stats event=stats final=true boot_id=a30d49a3 ticks=0 events_recv=0 relevant=0 \
         irrelevant=0 drained=0 thermal_toggles=0 cut=0 resume=0 errors=0"
    );
    let r = d.log_event_with_stats("INFO", "m", "e", &[]);
    assert!(text(&r).starts_with("INFO m event=e boot_id=a30d49a3 ticks=0"));
}

#[test]
fn failed_thermal_switch_is_retried_at_once() {
    let mut d = daemon(true);
    tick(&mut d, at(50, ChargeState::Discharging), 0);
    let pending = Pending::Thermal { cap: 50, charging: true };
    let step = d.tick(at(50, ChargeState::Charging), 100 * SEC);
    assert_eq!(step.next, TickNext::Run(pending));
    let step = d.continue_tick(pending, Err(MtkError::Io("busy".to_string())));
    assert_eq!(step.next, TickNext::Done(true));
    assert!(!d.thermal_on);
    assert_eq!(d.stats.thermal_toggles, 0);
    assert_eq!(d.stats.errors, 1);
    let step = d.tick(at(50, ChargeState::Charging), 100 * SEC + 1);
    assert_eq!(step.next, TickNext::Run(pending));
}

#[test]
fn only_a_second_flip_is_held_back() {
    let mut d = daemon(true);
    tick(&mut d, at(50, ChargeState::Discharging), 0);
    tick(&mut d, at(50, ChargeState::Charging), 100 * SEC);
    assert!(d.thermal_on);
    // A further tick without a change holds nothing back, and says nothing of it.
    let step = d.tick(at(51, ChargeState::Charging), 101 * SEC);
    assert_eq!(step.next, TickNext::Done(true));
    assert!(texts(&step).iter().all(|t| !t.contains("charge_flip_suppressed")));
    // A change does, and the next tick with the same reading catches up.
    let step = d.tick(at(51, ChargeState::Discharging), 101 * SEC);
    assert_eq!(step.next, TickNext::Done(false));
    assert!(texts(&step).iter().any(|t| t.contains("event=charge_flip_suppressed elapsed_ms=1000")));
    assert!(d.thermal_on);
    assert_eq!(
        tick(&mut d, at(51, ChargeState::Discharging), 102 * SEC),
        vec![MtkCommand::DisableThermalDelimiter]
    );
}
