use rsc::config::Config;
use rsc::daemon::{CutState, Daemon};
use rsc::mtk::MtkCommand;
use rsc::record::LogRecord;
use rsc::run::{Action, RunEvent, RunNext, RunStep};
use rsc::uevent::is_relevant;

const BATTERY: &[u8] = b"change@/devices/platform/battery/power_supply/battery\0ACTION=change\0\
DEVPATH=/devices/platform/battery/power_supply/battery\0SUBSYSTEM=power_supply\0\
POWER_SUPPLY_CAPACITY=80\0";

fn daemon(debug: bool) -> Daemon {
    Daemon::new(Config { debug, ..Config::default() }, 0, "a30d49a3".to_string())
}

fn text(r: &LogRecord) -> String {
    let mut s = format!("{} {}", r.level, r.message);
    for (k, v) in &r.kv {
        s.push_str(&format!(" {}={}", k, v));
    }
    s
}

fn texts(step: &RunStep) -> Vec<String> {
    step.logs.iter().map(text).collect()
}

fn received(message: &[u8]) -> RunEvent {
    RunEvent::Received { message: message.to_vec() }
}

#[test]
fn startup() {
    let mut d = daemon(false);
    let step = d.run(RunEvent::Started { version: "1.0.2".to_string() });
    assert_eq!(
        texts(&step),
        vec![
            "INFO BOOT START rsc event=startup version=1.0.2 boot_id=a30d49a3",
            "INFO rsc starting event=startup version=1.0.2 cutoff=80% resume=70% debug=false \
             stats_mode=event-driven",
            "INFO paths event=startup config_path=/data/adb/rsc/config.toml \
             log_file=/data/adb/rsc/rsc.log",
        ]
    );
    assert_eq!(step.next, RunNext::CheckPaths);
    let step = d.run(RunEvent::PathsChecked(true));
    assert_eq!(texts(&step), vec!["INFO MTK battery paths verified event=startup"]);
    assert_eq!(step.next, RunNext::OpenListener);
    let step = d.run(RunEvent::ListenerOpened(Ok(3)));
    assert_eq!(
        texts(&step),
        vec![
            "INFO uevent listener initialized event=startup fd=3 mode=uevent",
            "INFO uevent-driven mode active event=startup fallback=none",
        ]
    );
    assert_eq!(step.next, RunNext::Tick);
    assert_eq!(d.run(RunEvent::TickDone).next, RunNext::CheckRunning);
    assert_eq!(d.run(RunEvent::Running(true)).next, RunNext::Receive);
}

#[test]
fn startup_failures_exit() {
    let mut d = daemon(false);
    let step = d.run(RunEvent::PathsChecked(false));
    assert_eq!(
        texts(&step),
        vec!["ERROR MTK battery paths missing event=error hint=is this really an MTK device?"]
    );
    assert_eq!(step.next, RunNext::Exit(1));
    let step = d.run(RunEvent::ListenerOpened(Err("EACCES".to_string())));
    assert!(texts(&step)[0].starts_with(
        "ERROR uevent listener init failed event=error err=EACCES hint=uevent mandatory"
    ));
    assert_eq!(step.next, RunNext::Exit(1));
}

#[test]
fn relevant_events_lead_to_a_tick() {
    let mut d = daemon(true);
    let step = d.run(received(BATTERY));
    assert_eq!(texts(&step), vec![
            "DEBUG relevant uevent event=uevent \
             payload=change@/devices/platform/battery/power_supply/battery | ACTION=change | \
             DEVPATH=/devices/platform/battery/power_supply/battery | SUBSYSTEM=power_supply | \
             POWER_SUPPLY_CAPACITY=80"
        ]);
    assert_eq!(step.next, RunNext::Drain);
    assert_eq!(d.run(RunEvent::Drained(4)).next, RunNext::Tick);
    assert_eq!(d.stats.events_received, 1);
    assert_eq!(d.stats.events_relevant, 1);
    assert_eq!(d.stats.events_irrelevant, 0);
    assert_eq!(d.stats.events_drained, 4);
    let mut d = daemon(false);
    assert!(d.run(received(BATTERY)).logs.is_empty());
}

#[test]
fn other_events_are_counted() {
    let mut d = daemon(true);
    let step = d.run(received(b"add@/devices/input\0SUBSYSTEM=input\0"));
    assert!(step.logs.is_empty());
    assert_eq!(step.next, RunNext::CheckRunning);
    assert_eq!(d.stats.events_received, 1);
    assert_eq!(d.stats.events_irrelevant, 1);
}

#[test]
fn socket_failures_back_off() {
    let mut d = daemon(false);
    let step = d.run(RunEvent::ReceiveFailed {
        error: "no buffer".to_string(),
        kind: "Other".to_string(),
    });
    assert_eq!(
        texts(&step),
        vec!["WARN uevent recv error event=warn err=no buffer errno_kind=Other retry_secs=5"]
    );
    assert_eq!(step.next, RunNext::Sleep { millis: 5000 });
    assert_eq!(d.stats.errors, 1);
    assert_eq!(d.run(RunEvent::Retry).next, RunNext::CheckRunning);
    assert_eq!(d.run(RunEvent::Interrupted).next, RunNext::CheckRunning);
}

#[test]
fn the_end_logs_the_counters() {
    let mut d = daemon(false);
    let step = d.run(RunEvent::Running(false));
    assert!(texts(&step)[0].starts_with("INFO stats event=stats final=true boot_id=a30d49a3 ticks"));
    assert_eq!(step.next, RunNext::Shutdown);
}

fn shown(actions: Vec<Action>) -> Vec<String> {
    actions
        .iter()
        .map(|a| match a {
            Action::Log(r) => text(r),
            Action::Run(MtkCommand::DisableThermalDelimiter) => "thermal off".to_string(),
            Action::Run(MtkCommand::ResumeCharging) => "resume".to_string(),
            Action::Run(_) => unreachable!(),
        })
        .collect()
}

#[test]
fn shutdown_takes_back_what_was_done() {
    let mut d = daemon(false);
    assert_eq!(
        shown(d.shutdown()),
        vec![
            "INFO rsc shutting down event=shutdown boot_id=a30d49a3",
            "INFO BOOT END rsc event=shutdown boot_id=a30d49a3",
        ]
    );
    d.thermal_on = true;
    d.cut = CutState::CutOff;
    assert_eq!(
        shown(d.shutdown()),
        vec![
            "INFO rsc shutting down event=shutdown boot_id=a30d49a3",
            "thermal off",
            "INFO thermal delimiter restored on exit event=shutdown restored=thermal",
            "resume",
            "INFO charging path resumed on exit event=shutdown restored=charging",
            "INFO BOOT END rsc event=shutdown boot_id=a30d49a3",
        ]
    );
}

#[test]
fn relevance() {
    assert!(is_relevant(BATTERY));
    assert!(is_relevant(b"SUBSYSTEM=power_supply\0DEVPATH=/power_supply/battery"));
    assert!(is_relevant(b"DEVPATH=/x/power_supply/battery_2\0SUBSYSTEM=power_supply\0"));
    assert!(!is_relevant(b"SUBSYSTEM=power_supply\0DEVPATH=/power_supply/usb\0"));
    assert!(!is_relevant(b"SUBSYSTEM=power_supply2\0DEVPATH=/power_supply/battery\0"));
    assert!(!is_relevant(b"SUBSYSTEM=input\0DEVPATH=/power_supply/battery\0"));
    assert!(!is_relevant(b"XSUBSYSTEM=power_supply\0DEVPATH=/power_supply/battery\0"));
    assert!(!is_relevant(b"SUBSYSTEM=power_supply\0X=/power_supply/battery\0"));
    assert!(!is_relevant(b"SUBSYSTEM=power_supply\0DEVPATH=/power_supply\0/battery\0"));
    assert!(!is_relevant(b""));
    assert!(!is_relevant(b"\0\0\0"));
    assert!(!is_relevant(&[0xff, 0x00, 0xfe, 0x80]));
}

#[test]
fn bytes_that_are_not_text_are_replaced_in_the_payload() {
    let mut d = daemon(true);
    let step = d.run(received(
        b"SUBSYSTEM=power_supply\0DEVPATH=/power_supply/battery\0NAME=\xff\xc3\xa9\0",
    ));
    assert_eq!(
        texts(&step),
        vec![
            "DEBUG relevant uevent event=uevent payload=SUBSYSTEM=power_supply | \
             DEVPATH=/power_supply/battery | NAME=\u{fffd}\u{e9}"
        ]
    );
}
