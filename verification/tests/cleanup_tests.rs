use rsc::cleanup::{
    lastboot_log_path, read_boot_id, run_cleanup, CleanupEvent, CleanupNext, CleanupStep,
};
use rsc::cli::Invocation;
use rsc::config::Config;
use rsc::mtk::{MtkCommand, MtkError};

fn step(event: CleanupEvent) -> CleanupStep {
    run_cleanup(&Config::default(), event)
}

fn next(event: CleanupEvent) -> String {
    format!("{:?}", step(event).next)
}

#[test]
fn lastboot_names() {
    assert_eq!(lastboot_log_path("/data/adb/rsc/rsc.log"), "/data/adb/rsc/rsc-lastboot.log");
    assert_eq!(lastboot_log_path("rsc.log"), "rsc-lastboot.log");
    assert_eq!(lastboot_log_path("/d/log"), "/d/log-lastboot");
    assert_eq!(lastboot_log_path("/d/.log"), "/d/.log-lastboot");
    assert_eq!(lastboot_log_path("/d/a.b.c"), "/d/a.b-lastboot.c");
    assert_eq!(lastboot_log_path("/d/a."), "/d/a-lastboot.");
    assert_eq!(lastboot_log_path("/"), "rsc-lastboot.log");
    assert_eq!(lastboot_log_path(""), "rsc-lastboot.log");
    assert_eq!(lastboot_log_path("a/.."), "a/rsc-lastboot.log");
    assert_eq!(lastboot_log_path("/d/é.lög"), "/d/é-lastboot.lög");
}

#[test]
fn boot_ids() {
    assert_eq!(read_boot_id(Some("a30d49a3-1b2c-4d5e-8f90-112233445566\n")), "a30d49a3");
    assert_eq!(read_boot_id(Some("abc\n")), "abc");
    assert_eq!(read_boot_id(Some("12345678")), "12345678");
    assert_eq!(read_boot_id(Some(" \n")), "unknown");
    assert_eq!(read_boot_id(None), "unknown");
}

#[test]
fn cleanup_restores_and_rotates() {
    let s = step(CleanupEvent::Started { boot_id: "a30d49a3".to_string() });
    assert_eq!(s.messages, vec!["rsc: --cleanup starting (boot_id=a30d49a3)"]);
    assert!(matches!(s.next, CleanupNext::CheckPaths));
    let s = step(CleanupEvent::PathsChecked(true));
    assert!(s.messages.is_empty());
    assert!(matches!(s.next, CleanupNext::Run(MtkCommand::DisableThermalDelimiter)));
    let s = step(CleanupEvent::ThermalDone(Ok(())));
    assert_eq!(
        s.messages,
        vec!["rsc: --cleanup thermal delimiter restored (disable_nafg=0, ntc_disable_nafg=0)"]
    );
    assert!(matches!(s.next, CleanupNext::Run(MtkCommand::ResumeCharging)));
    let s = step(CleanupEvent::ResumeDone(Ok(())));
    assert_eq!(s.messages, vec!["rsc: --cleanup charging path restored (current_cmd=0 0)"]);
    assert_eq!(
        next(CleanupEvent::ResumeDone(Ok(()))),
        "CheckLog { path: \"/data/adb/rsc/rsc.log\" }"
    );
    assert_eq!(
        next(CleanupEvent::LogChecked(true)),
        "CheckLastboot { path: \"/data/adb/rsc/rsc-lastboot.log\" }"
    );
    assert_eq!(
        next(CleanupEvent::LastbootChecked(true)),
        "Remove { path: \"/data/adb/rsc/rsc-lastboot.log\" }"
    );
    let rename =
        "Rename { from: \"/data/adb/rsc/rsc.log\", to: \"/data/adb/rsc/rsc-lastboot.log\" }";
    assert_eq!(next(CleanupEvent::LastbootChecked(false)), rename);
    assert_eq!(next(CleanupEvent::LastbootRemoved), rename);
    let s = step(CleanupEvent::Renamed(Ok(())));
    assert_eq!(
        s.messages,
        vec!["rsc: --cleanup rotated /data/adb/rsc/rsc.log -> /data/adb/rsc/rsc-lastboot.log"]
    );
    assert_eq!(
        next(CleanupEvent::Renamed(Ok(()))),
        "CreateFresh { dir: Some(\"/data/adb/rsc\"), path: \"/data/adb/rsc/rsc.log\" }"
    );
    let s = step(CleanupEvent::FreshLog(true));
    assert_eq!(
        s.messages,
        vec![
            "rsc: --cleanup fresh log created at /data/adb/rsc/rsc.log",
            "rsc: --cleanup complete",
        ]
    );
    assert!(matches!(s.next, CleanupNext::Exit(0)));
}

#[test]
fn cleanup_goes_on_after_failures() {
    let s = step(CleanupEvent::PathsChecked(false));
    assert_eq!(s.messages, vec!["rsc: --cleanup MTK paths missing — skipping sysfs restore"]);
    assert!(matches!(s.next, CleanupNext::CheckLog { .. }));
    let s = step(CleanupEvent::ThermalDone(Err(MtkError::Io("denied".to_string()))));
    assert_eq!(
        s.messages,
        vec!["rsc: --cleanup WARN: disable_thermal_delimiter failed: io: denied"]
    );
    assert!(matches!(s.next, CleanupNext::Run(MtkCommand::ResumeCharging)));
    let s = step(CleanupEvent::ResumeDone(Err(MtkError::Io("denied".to_string()))));
    assert_eq!(s.messages, vec!["rsc: --cleanup WARN: resume_charging failed: io: denied"]);
    assert!(matches!(s.next, CleanupNext::CheckLog { .. }));
    let s = step(CleanupEvent::LogChecked(false));
    assert_eq!(s.messages, vec!["rsc: --cleanup no existing log to rotate"]);
    assert!(matches!(s.next, CleanupNext::CreateFresh { .. }));
    let s = step(CleanupEvent::Renamed(Err("busy".to_string())));
    assert_eq!(s.messages, vec!["rsc: --cleanup WARN: rotate failed: busy"]);
    assert!(matches!(s.next, CleanupNext::CreateFresh { .. }));
    let s = step(CleanupEvent::FreshLog(false));
    assert_eq!(
        s.messages[0],
        "rsc: --cleanup WARN: could not create fresh log at /data/adb/rsc/rsc.log"
    );
    assert!(matches!(s.next, CleanupNext::Exit(0)));
}

#[test]
fn invocations() {
    assert!(matches!(Invocation::parse(None), Invocation::Daemon));
    for arg in ["--help", "-h"] {
        assert!(matches!(Invocation::parse(Some(arg)), Invocation::Help));
    }
    for arg in ["--version", "-V"] {
        assert!(matches!(Invocation::parse(Some(arg)), Invocation::Version));
    }
    assert!(matches!(Invocation::parse(Some("--cleanup")), Invocation::Cleanup));
    match Invocation::parse(Some("--x")) {
        Invocation::Unknown(s) => assert_eq!(s, "--x"),
        other => panic!("{:?}", other),
    }
    assert!(!Invocation::Help.needs_root());
    assert!(!Invocation::Version.needs_root());
    assert!(Invocation::Cleanup.needs_root());
    assert!(Invocation::Daemon.needs_root());
    assert!(Invocation::Unknown("x".to_string()).needs_root());
}
