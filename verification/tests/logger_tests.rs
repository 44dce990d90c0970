use rsc::logger::{format_line, logfmt_escape, FileLogger, RotateOp};
use rsc::record::LogRecord;

#[test]
fn test_logfmt_escape_plain() {
    assert_eq!(logfmt_escape("95"), "95");
    assert_eq!(logfmt_escape("Charging"), "Charging");
}

#[test]
fn test_logfmt_escape_space() {
    assert_eq!(logfmt_escape("Not charging"), "\"Not charging\"");
}

#[test]
fn test_logfmt_escape_equals() {
    assert_eq!(logfmt_escape("a=b"), "\"a=b\"");
}

#[test]
fn test_logfmt_escape_quote() {
    assert_eq!(logfmt_escape("a\"b"), "\"a\\\"b\"");
}

#[test]
fn test_logfmt_escape_backslash() {
    assert_eq!(logfmt_escape("a\\b"), "\"a\\\\b\"");
}

#[test]
fn test_logfmt_escape_empty() {
    assert_eq!(logfmt_escape(""), "\"\"");
}

#[test]
fn control_characters_force_quotes() {
    assert_eq!(logfmt_escape("a\tb"), "\"a\tb\"");
    assert_eq!(logfmt_escape("a\nb"), "\"a\nb\"");
    assert_eq!(logfmt_escape("\u{7f}"), "\"\u{7f}\"");
    assert_eq!(logfmt_escape("\u{9f}"), "\"\u{9f}\"");
    assert_eq!(logfmt_escape("\u{a0}"), "\u{a0}");
    assert_eq!(logfmt_escape("é"), "é");
}

#[test]
fn control_characters_are_those_of_the_standard_library() {
    for u in 0u32..0x3000 {
        if let Some(c) = char::from_u32(u) {
            let v = c.to_string();
            let quoted = logfmt_escape(&v) != v;
            let special = c == ' ' || c == '=' || c == '"' || c == '\\';
            assert_eq!(quoted, special || c.is_control(), "{:x}", u);
        }
    }
}

#[test]
fn quoted_values_read_back() {
    for v in ["", "a b", "\\", "\"", "a\\\"b", "\\\\", "=", "plain"] {
        let s = logfmt_escape(v);
        let back = if s.len() >= 2 && s.starts_with('"') {
            let mut out = String::new();
            let mut chars = s[1..s.len() - 1].chars();
            while let Some(c) = chars.next() {
                if c == '\\' {
                    out.push(chars.next().unwrap());
                } else {
                    out.push(c);
                }
            }
            out
        } else {
            s
        };
        assert_eq!(back, v);
    }
}

#[test]
fn line_has_prefix_message_and_pairs() {
    let line = format_line(
        "2026-06-28T11:40:46+08:00",
        "INFO",
        42,
        "CUTTING OFF",
        &[("cap", "95"), ("status", "Not charging")],
    );
    assert_eq!(
        line,
        "[2026-06-28T11:40:46+08:00 INFO   seq=42] CUTTING OFF cap=95 status=\"Not charging\"\n"
    );
    assert_eq!(format_line("T", "ERROR", 1, "m", &[]), "[T ERROR  seq=1] m\n");
    assert_eq!(format_line("T", "", 0, "", &[]), "[T        seq=0] \n");
    assert_eq!(format_line("T", "CRITICAL", 7, "m", &[]), "[T CRITICAL  seq=7] m\n");
}

#[test]
fn level_is_padded_like_a_format_width() {
    for level in ["", "I", "WARN", "DEBUG", "NOTICE", "é", "éé", "ééé"] {
        let expected = if level.len() >= 5 {
            level.to_string()
        } else {
            format!("{:<5}", level)
        };
        assert_eq!(
            format_line("T", level, 3, "m", &[]),
            format!("[T {}  seq=3] m\n", expected)
        );
    }
}

fn digits(s: &str) -> bool {
    !s.is_empty() && s.chars().all(|c| c.is_ascii_digit())
}

#[test]
fn log_lines_carry_the_local_time() {
    let mut log = FileLogger::new("/data/adb/rsc/rsc.log", 512, 3, 0);
    let before = chrono::Local::now();
    let w = log.info("hello");
    let after = chrono::Local::now();
    let ts = w.timestamp.as_str();
    assert_eq!(ts.len(), 25);
    assert!(digits(&ts[0..4]) && digits(&ts[5..7]) && digits(&ts[8..10]));
    assert!(digits(&ts[11..13]) && digits(&ts[14..16]) && digits(&ts[17..19]));
    assert!(digits(&ts[20..22]) && digits(&ts[23..25]));
    assert_eq!(&ts[4..5], "-");
    assert_eq!(&ts[10..11], "T");
    assert_eq!(&ts[22..23], ":");
    let time = chrono::DateTime::parse_from_rfc3339(ts).unwrap();
    assert!(time.timestamp() >= before.timestamp());
    assert!(time.timestamp() <= after.timestamp());
    assert_eq!(w.line, format!("[{} INFO   seq=1] hello\n", ts));
}

#[test]
fn sequence_numbers_count_up_from_one() {
    let mut log = FileLogger::new("rsc.log", 512, 3, 0);
    assert_eq!(log.seq, 0);
    for n in 1..=5u64 {
        let w = log.warn("m");
        assert_eq!(log.seq, n);
        assert!(w.line.contains(&format!("WARN   seq={}] m", n)));
    }
}

#[test]
fn levels_of_the_shorthands() {
    let mut log = FileLogger::new("rsc.log", 512, 3, 0);
    assert!(log.info("m").line.contains(" INFO   seq=1] m\n"));
    assert!(log.warn("m").line.contains(" WARN   seq=2] m\n"));
    assert!(log.error("m").line.contains(" ERROR  seq=3] m\n"));
    assert!(log.log("AUDIT", "m").line.contains(" AUDIT  seq=4] m\n"));
    assert!(log.debug_if(true, "m").unwrap().line.contains(" DEBUG  seq=5] m\n"));
    let w = log.debug_if_kv(true, "m", &[("k", "v")]).unwrap();
    assert!(w.line.contains(" DEBUG  seq=6] m k=v\n"));
}

#[test]
fn disabled_debug_lines_do_nothing() {
    let mut log = FileLogger::new("rsc.log", 512, 3, 0);
    assert!(log.debug_if(false, "m").is_none());
    assert!(log.debug_if_kv(false, "m", &[("k", "v")]).is_none());
    assert_eq!(log.seq, 0);
}

#[test]
fn records_become_lines() {
    let mut log = FileLogger::new("rsc.log", 512, 3, 0);
    let r = LogRecord::new("INFO", "state").with("event", "state").with("status", "Not charging");
    let w = log.log_record(&r);
    assert!(w.line.ends_with("] state event=state status=\"Not charging\"\n"));
}

#[test]
fn limit_and_count_of_a_new_logger() {
    let log = FileLogger::new("rsc.log", 512, 3, 77);
    assert_eq!(log.max_bytes, 524288);
    assert_eq!(log.keep, 3);
    assert_eq!(log.bytes_written, 77);
    let log = FileLogger::new("rsc.log", u64::MAX, 0, 0);
    assert_eq!(log.max_bytes, u64::MAX);
    assert_eq!(log.keep, 1);
}

#[test]
fn rotation_is_due_above_the_limit() {
    let mut log = FileLogger::new("rsc.log", 1, 3, 0);
    let w = log.info("é");
    assert!(!w.rotate);
    log.wrote(&w.line);
    assert_eq!(log.bytes_written, w.line.len() as u64);
    log.bytes_written = 1024;
    let w = log.info("m");
    assert!(!w.rotate);
    log.wrote(&w.line);
    let w = log.info("m");
    assert!(w.rotate);
    assert_eq!(log.bytes_written, 0);
    log.wrote(&w.line);
    assert!(!log.info("m").rotate);
    for (size, due) in [(0, false), (1023, false), (1024, false), (1025, true)] {
        let mut log = FileLogger::new("rsc.log", 1, 3, size);
        assert_eq!(log.info("m").rotate, due, "{}", size);
    }
}

fn rotation(log: &FileLogger) -> Vec<String> {
    let mut out = Vec::new();
    let mut step = 0u64;
    while let Some(op) = log.rotate(step) {
        out.push(match op {
            RotateOp::Remove { path } => format!("rm {}", path),
            RotateOp::Rename { from, to } => format!("mv {} {}", from, to),
        });
        step += 1;
    }
    out
}

#[test]
fn rotation_drops_the_oldest_and_moves_the_rest_up() {
    let log = FileLogger::new("/d/rsc.log", 512, 3, 0);
    assert_eq!(
        rotation(&log),
        vec![
            "rm /d/rsc.log.3",
            "mv /d/rsc.log.2 /d/rsc.log.3",
            "mv /d/rsc.log.1 /d/rsc.log.2",
            "mv /d/rsc.log /d/rsc.log.1",
        ]
    );
    let log = FileLogger::new("/d/rsc.log", 512, 1, 0);
    assert_eq!(rotation(&log), vec!["rm /d/rsc.log.1", "mv /d/rsc.log /d/rsc.log.1"]);
}

#[test]
fn rotated_files_stand_beside_the_log() {
    for path in ["/d/rsc.log", "rsc.log", "a//b/./c.log/", "/", "", "..", "a/.."] {
        let log = FileLogger::new(path, 512, 3, 0);
        let base = std::path::Path::new(path);
        let mut name = match base.file_name() {
            Some(n) => n.to_str().unwrap().to_string(),
            None => "rsc.log".to_string(),
        };
        name.push_str(".12");
        let mut expected = base.to_path_buf();
        expected.set_file_name(name);
        assert_eq!(log.rotated_path(12), expected.to_str().unwrap(), "{}", path);
    }
}
