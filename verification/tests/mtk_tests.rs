use rsc::mtk::{
    cut_off_charging, disable_thermal_delimiter, enable_thermal_delimiter, paths_exist,
    read_current_cmd, resume_charging, resume_charging_with_toggle, verify_resume_applied, Command,
    MtkCommand, MtkError, PathsPresent, ReadOutcome, StepOutcome, SysOp,
};
use std::collections::HashMap;

fn ops(mut c: Command) -> Vec<String> {
    let mut out = Vec::new();
    while let Some(op) = c.current() {
        out.push(match op {
            SysOp::Write { path, value } => {
                format!("{}={}", path.rsplit('/').next().unwrap(), value)
            }
            SysOp::Sleep { millis } => format!("sleep {}", millis),
        });
        c.advance(StepOutcome::Done).unwrap();
    }
    out
}

fn perform(nodes: &mut HashMap<&'static str, &'static str>, mut c: Command) {
    while let Some(op) = c.current() {
        if let SysOp::Write { path, value } = op {
            nodes.insert(path, value);
        }
        c.advance(StepOutcome::Done).unwrap();
    }
}

#[test]
fn sequences() {
    assert_eq!(ops(cut_off_charging()), vec!["en_power_path=1", "current_cmd=1 1"]);
    assert_eq!(
        ops(resume_charging()),
        vec!["en_power_path=0", "sleep 50", "en_power_path=1", "sleep 50", "current_cmd=0 0"]
    );
    assert_eq!(
        ops(resume_charging_with_toggle()),
        vec!["en_power_path=1", "current_cmd=1 1", "sleep 100", "current_cmd=0 0"]
    );
    assert_eq!(ops(enable_thermal_delimiter()), vec!["disable_nafg=1", "ntc_disable_nafg=1"]);
    assert_eq!(ops(disable_thermal_delimiter()), vec!["disable_nafg=0", "ntc_disable_nafg=0"]);
}

#[test]
fn full_paths() {
    let mut nodes = HashMap::new();
    perform(&mut nodes, cut_off_charging());
    perform(&mut nodes, enable_thermal_delimiter());
    assert_eq!(nodes["/proc/mtk_battery_cmd/en_power_path"], "1");
    assert_eq!(nodes["/proc/mtk_battery_cmd/current_cmd"], "1 1");
    assert_eq!(nodes["/sys/devices/platform/battery/disable_nafg"], "1");
    assert_eq!(nodes["/sys/devices/platform/battery/ntc_disable_nafg"], "1");
}

#[test]
fn commands_start_their_sequences() {
    assert_eq!(ops(MtkCommand::CutOffCharging.start()), ops(cut_off_charging()));
    assert_eq!(ops(MtkCommand::ResumeCharging.start()), ops(resume_charging()));
    assert_eq!(ops(MtkCommand::EnableThermalDelimiter.start()), ops(enable_thermal_delimiter()));
    assert_eq!(ops(MtkCommand::DisableThermalDelimiter.start()), ops(disable_thermal_delimiter()));
}

#[test]
fn resume_undoes_a_cut_and_toggling_ends_the_same() {
    let mut nodes = HashMap::new();
    perform(&mut nodes, cut_off_charging());
    perform(&mut nodes, resume_charging());
    let mut other = HashMap::new();
    perform(&mut other, resume_charging_with_toggle());
    assert_eq!(nodes, other);
    assert_eq!(nodes["/proc/mtk_battery_cmd/current_cmd"], "0 0");
}

#[test]
fn a_missing_node_ends_the_command() {
    let mut c = resume_charging();
    c.advance(StepOutcome::Done).unwrap();
    c.advance(StepOutcome::Done).unwrap();
    match c.advance(StepOutcome::PathMissing) {
        Err(MtkError::PathMissing(p)) => assert_eq!(p, "/proc/mtk_battery_cmd/en_power_path"),
        other => panic!("{:?}", other),
    }
    assert!(c.current().is_none());
    assert!(c.advance(StepOutcome::Done).is_ok());
}

#[test]
fn a_failed_write_ends_the_command() {
    let mut c = cut_off_charging();
    match c.advance(StepOutcome::Failed("denied".to_string())) {
        Err(e) => assert_eq!(e.to_string(), "io: denied"),
        Ok(()) => panic!(),
    }
    assert!(c.current().is_none());
}

#[test]
fn node_errors_in_words() {
    assert_eq!(MtkError::Io("x".to_string()).to_string(), "io: x");
    assert_eq!(MtkError::PathMissing("/p".to_string()).to_string(), "path missing: /p");
}

fn verified(content: &str) -> bool {
    verify_resume_applied(ReadOutcome::Content(content.to_string())).unwrap()
}

#[test]
fn readback() {
    assert!(verified("0 0\n"));
    assert!(verified("0 1"));
    assert!(verified("0"));
    assert!(verified("0 2\n"));
    assert!(!verified("1 1\n"));
    assert!(!verified("1 0"));
    assert!(!verified(""));
    assert!(!verified("00"));
    assert_eq!(
        read_current_cmd(ReadOutcome::Content(" 1 1\n".to_string())).unwrap(),
        "1 1"
    );
    assert_eq!(
        read_current_cmd(ReadOutcome::PathMissing).unwrap_err().to_string(),
        "path missing: /proc/mtk_battery_cmd/current_cmd"
    );
    assert_eq!(
        verify_resume_applied(ReadOutcome::Failed("denied".to_string())).unwrap_err().to_string(),
        "io: denied"
    );
}

#[test]
fn all_four_nodes_are_needed() {
    let all = PathsPresent {
        en_power_path: true,
        current_cmd: true,
        disable_nafg: true,
        ntc_disable_nafg: true,
    };
    assert!(paths_exist(all));
    assert!(!paths_exist(PathsPresent { en_power_path: false, ..all }));
    assert!(!paths_exist(PathsPresent { current_cmd: false, ..all }));
    assert!(!paths_exist(PathsPresent { disable_nafg: false, ..all }));
    assert!(!paths_exist(PathsPresent { ntc_disable_nafg: false, ..all }));
}
