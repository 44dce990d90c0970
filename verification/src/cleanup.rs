//! The cleanup at boot: the MediaTek nodes go back to their defaults, and the log of the
//! previous boot is put aside.
//!
//! The program around the library does the outside work that [`run_cleanup`] asks for, and
//! hands back what came of it as the next event.

use vstd::prelude::*;
use crate::config::Config;
use crate::mtk::MtkCommand;
use crate::mtk::MtkError;
use crate::path;
use crate::text;

verus! {

/// The node that identifies the boot.
pub const BOOT_ID_PATH: &'static str = "/proc/sys/kernel/random/boot_id";

/// The boot id is the kernel's.
pub proof fn boot_id_is_the_kernels()
    ensures
        BOOT_ID_PATH@ == "/proc/sys/kernel/random/boot_id"@,
{
}

/// The short form of a boot id: the first eight characters of the trimmed text, or `unknown`
/// where there is none.
pub open spec fn short_boot_id(content: Option<Seq<char>>) -> Seq<char> {
    match content {
        Some(s) => {
            let t = text::trimmed(s);
            if t.len() == 0 {
                "unknown"@
            } else if t.len() < 8 {
                t
            } else {
                t.take(8)
            }
        },
        None => "unknown"@,
    }
}

/// The short boot id, from the content of [`BOOT_ID_PATH`] if it could be read.
pub fn read_boot_id(content: Option<&str>) -> (id: String)
    ensures
        id@ == short_boot_id(
            match content {
                Some(s) => Some(s@),
                None => None,
            },
        ),
{
    match content {
        Some(s) => {
            let t = text::trim(s);
            let n = t.unicode_len();
            if n == 0 {
                "unknown".to_string()
            } else if n < 8 {
                t.to_string()
            } else {
                let short = t.substring_char(0, 8);
                assert(short@ =~= t@.take(8));
                short.to_string()
            }
        },
        None => "unknown".to_string(),
    }
}

/// Where the last dot of `s` stands behind its first character, or -1.
pub open spec fn last_inner_dot(s: Seq<char>) -> int
    decreases s.len(),
{
    if s.len() <= 1 {
        -1
    } else if s.last() == '.' {
        s.len() - 1
    } else {
        last_inner_dot(s.drop_last())
    }
}

/// A file name with `-lastboot` before its extension, or at its end where it has none.
pub open spec fn lastboot_name(name: Seq<char>) -> Seq<char> {
    let dot = last_inner_dot(name);
    if dot > 0 {
        name.take(dot) + "-lastboot"@ + name.skip(dot)
    } else {
        name + "-lastboot"@
    }
}

/// Where the previous boot's log is kept: beside the log, under a name of its own.
pub open spec fn lastboot_path(log: Seq<char>) -> Seq<char> {
    let dir = match path::parent(log) {
        Some(dir) => dir,
        None => Seq::empty(),
    };
    let name = match path::file_name(log) {
        Some(name) => name,
        None => "rsc.log"@,
    };
    path::join(dir, lastboot_name(name))
}

fn lastboot_file_name(name: &str) -> (s: String)
    ensures
        s@ == lastboot_name(name@),
{
    let v = text::to_chars(name);
    let mut n: usize = v.len();
    assert(v@.take(v@.len() as int) =~= v@);
    while n > 1 && v[n - 1] != '.'
        invariant
            n <= v.len(),
            v@ == name@,
            last_inner_dot(v@.take(n as int)) == last_inner_dot(v@),
        decreases n,
    {
        assert(v@.take(n as int).drop_last() =~= v@.take(n - 1));
        n = n - 1;
    }
    if n > 1 {
        let dot: usize = n - 1;
        assert(last_inner_dot(v@) == dot);
        let mut s = name.substring_char(0, dot).to_string();
        s.append("-lastboot");
        s.append(name.substring_char(dot, v.len()));
        assert(s@ =~= lastboot_name(name@));
        s
    } else {
        let mut s = name.to_string();
        s.append("-lastboot");
        s
    }
}

/// Where the previous boot's log is kept: `/data/adb/rsc/rsc.log` becomes
/// `/data/adb/rsc/rsc-lastboot.log`.
pub fn lastboot_log_path(base: &str) -> (p: String)
    ensures
        p@ == lastboot_path(base@),
{
    let dir = match path::parent_of(base) {
        Some(dir) => dir,
        None => String::new(),
    };
    let name = match path::file_name_of(base) {
        Some(name) => name,
        None => "rsc.log".to_string(),
    };
    path::joined(dir.as_str(), lastboot_file_name(name.as_str()).as_str())
}

proof fn last_inner_dot_bounds(s: Seq<char>)
    ensures
        -1 <= last_inner_dot(s) < s.len() || s.len() == 0,
        last_inner_dot(s) != 0,
        last_inner_dot(s) > 0 ==> last_inner_dot(s) < s.len() && s[last_inner_dot(s)] == '.',
    decreases s.len(),
{
    if s.len() > 1 && s.last() != '.' {
        last_inner_dot_bounds(s.drop_last());
    }
}

/// The short boot id is made of the first eight characters of what stands between white space, or
/// of all where there are fewer. Where there is nothing, or nothing could be read, it is
/// `unknown`.
pub proof fn boot_id_is_cut_to_eight(a: Seq<char>, id: Seq<char>, b: Seq<char>)
    requires
        text::is_blank(a),
        text::is_blank(b),
        id.len() == 0 || (!text::is_white_space(id.first()) && !text::is_white_space(id.last())),
    ensures
        short_boot_id(None) == "unknown"@,
        id.len() == 0 ==> short_boot_id(Some(a + id + b)) == "unknown"@,
        0 < id.len() <= 8 ==> short_boot_id(Some(a + id + b)) == id,
        id.len() > 8 ==> short_boot_id(Some(a + id + b)) == id.take(8),
{
    text::trimming_keeps_what_is_inside(a, id, b);
    if id.len() == 8 {
        assert(id.take(8) =~= id);
    }
}

proof fn last_inner_dot_found(stem: Seq<char>, ext: Seq<char>)
    requires
        stem.len() > 0,
        !ext.contains('.'),
    ensures
        last_inner_dot(stem + seq!['.'] + ext) == stem.len(),
    decreases ext.len(),
{
    let s = stem + seq!['.'] + ext;
    if ext.len() > 0 {
        let rest = ext.drop_last();
        assert(ext.contains(ext[ext.len() - 1]));
        assert(s.last() == ext.last());
        assert(s.drop_last() =~= stem + seq!['.'] + rest);
        assert forall|i: int| 0 <= i < rest.len() implies rest[i] != '.' by {
            assert(rest[i] == ext[i]);
            assert(ext.contains(ext[i]));
        }
        last_inner_dot_found(stem, rest);
    }
}

proof fn no_inner_dot_found(s: Seq<char>)
    requires
        forall|i: int| 1 <= i < s.len() ==> #[trigger] s[i] != '.',
    ensures
        last_inner_dot(s) == -1,
    decreases s.len(),
{
    if s.len() > 1 {
        assert(s[s.len() - 1] != '.');
        assert forall|i: int| 1 <= i < s.drop_last().len() implies #[trigger] s.drop_last()[i]
            != '.' by {
            assert(s.drop_last()[i] == s[i]);
        }
        no_inner_dot_found(s.drop_last());
    }
}

/// The previous boot's log is named as the log, with `-lastboot` before the extension: behind
/// what stands before the last dot. A name whose only dot is its first character has no
/// extension, nor has one without a dot; there it stands at the end.
pub proof fn lastboot_stands_before_the_extension(
    stem: Seq<char>,
    ext: Seq<char>,
    name: Seq<char>,
)
    ensures
        stem.len() > 0 && !ext.contains('.') ==> lastboot_name(stem + seq!['.'] + ext) == stem
            + "-lastboot"@ + seq!['.'] + ext,
        (forall|i: int| 1 <= i < name.len() ==> #[trigger] name[i] != '.') ==> lastboot_name(name)
            == name + "-lastboot"@,
{
    if stem.len() > 0 && !ext.contains('.') {
        let s = stem + seq!['.'] + ext;
        last_inner_dot_found(stem, ext);
        assert(s.take(stem.len() as int) =~= stem);
        assert(s.skip(stem.len() as int) =~= seq!['.'] + ext);
        assert(lastboot_name(s) =~= stem + "-lastboot"@ + seq!['.'] + ext);
    }
    if forall|i: int| 1 <= i < name.len() ==> #[trigger] name[i] != '.' {
        no_inner_dot_found(name);
    }
}

/// The previous boot's log stands beside the log, in the same directory.
pub proof fn lastboot_stands_beside_the_log(dir: Seq<char>, name: Seq<char>)
    requires
        path::is_plain_name(name),
    ensures
        lastboot_path(name) == lastboot_name(name),
        lastboot_path(seq!['/'] + name) == seq!['/'] + lastboot_name(name),
        dir.len() > 0 && dir.last() != '/' && (dir.last() == '.' && dir.len() > 1 ==> dir[dir.len()
            - 2] != '/') ==> lastboot_path(dir + seq!['/'] + name) == dir + seq!['/']
            + lastboot_name(name),
        path::parent(dir) matches Some(d) ==> lastboot_path(dir) == path::join(
            d,
            lastboot_name(
                if path::file_name(dir) is Some {
                    path::file_name(dir)->0
                } else {
                    "rsc.log"@
                },
            ),
        ),
        path::parent(dir) is None && path::file_name(dir) is None ==> lastboot_path(dir)
            == "rsc-lastboot.log"@,
{
    path::names_are_joined_by_one_separator(Seq::empty(), "rsc-lastboot.log"@);
    reveal_strlit("rsc.log");
    reveal_strlit("rsc");
    reveal_strlit("log");
    reveal_strlit("rsc-lastboot.log");
    assert("rsc.log"@ =~= "rsc"@ + seq!['.'] + "log"@);
    lastboot_stands_before_the_extension("rsc"@, "log"@, name);
    reveal_strlit("-lastboot");
    assert("rsc"@ + "-lastboot"@ + seq!['.'] + "log"@ =~= "rsc-lastboot.log"@);
    let new = lastboot_name(name);
    path::parent_is_what_stands_before_the_name(dir, name);
    path::joined_name_is_file_name(Seq::empty(), name);
    path::joined_name_is_file_name(seq!['/'], name);
    path::joined_name_is_file_name(dir, name);
    path::names_are_joined_by_one_separator(Seq::empty(), name);
    path::names_are_joined_by_one_separator(seq!['/'], name);
    path::names_are_joined_by_one_separator(dir, name);
    path::names_are_joined_by_one_separator(Seq::empty(), new);
    path::names_are_joined_by_one_separator(seq!['/'], new);
    path::names_are_joined_by_one_separator(dir, new);
    assert(name[0] != '/') by {
        assert(name.contains(name[0]));
    }
    last_inner_dot_bounds(name);
    assert(new[0] == name[0]);
}

/// The previous boot's log never has the name of the log itself: putting it aside loses
/// nothing of the new one.
pub proof fn lastboot_is_another_file(log: Seq<char>)
    ensures
        lastboot_path(log) != log,
        ({
            let name = match path::file_name(log) {
                Some(name) => name,
                None => "rsc.log"@,
            };
            path::file_name(lastboot_path(log)) == Some(lastboot_name(name))
        }),
{
    let name = match path::file_name(log) {
        Some(name) => name,
        None => "rsc.log"@,
    };
    let dir = match path::parent(log) {
        Some(dir) => dir,
        None => Seq::empty(),
    };
    let new = lastboot_name(name);
    path::file_name_is_plain(log);
    reveal_strlit("rsc.log");
    reveal_strlit("-lastboot");
    last_inner_dot_bounds(name);
    let dot = last_inner_dot(name);
    assert forall|i: int| 0 <= i < name.len() implies name[i] != '/' by {
        assert(name.contains(name[i]));
    }
    assert(new.len() == name.len() + 9);
    assert forall|i: int| 0 <= i < new.len() implies new[i] != '/' by {
        if dot > 0 {
            if i < dot {
                assert(new[i] == name[i]);
            } else if i >= dot + 9 {
                assert(new[i] == name[i - 9]);
            }
        }
    }
    path::joined_name_is_file_name(dir, new);
}

/// What happened.
#[derive(Debug)]
pub enum CleanupEvent {
    /// The cleanup started; holds the short boot id.
    Started { boot_id: String },
    /// Whether the MediaTek nodes exist.
    PathsChecked(bool),
    /// The thermal delimiter's command ended.
    ThermalDone(Result<(), MtkError>),
    /// The resume command ended.
    ResumeDone(Result<(), MtkError>),
    /// Whether the log exists.
    LogChecked(bool),
    /// Whether the previous boot's log exists.
    LastbootChecked(bool),
    /// The previous boot's log was removed, or could not be.
    LastbootRemoved,
    /// The log was renamed, or the text of the error.
    Renamed(Result<(), String>),
    /// Whether a fresh log could be created.
    FreshLog(bool),
}

/// What is to be done next.
#[derive(Debug)]
pub enum CleanupNext {
    /// Check whether the MediaTek nodes exist.
    CheckPaths,
    /// Run the command.
    Run(MtkCommand),
    /// Check whether the log exists.
    CheckLog { path: String },
    /// Check whether the previous boot's log exists.
    CheckLastboot { path: String },
    /// Remove the file.
    Remove { path: String },
    /// Rename the file.
    Rename { from: String, to: String },
    /// Create the directory, if one is named, and then the empty file.
    CreateFresh { dir: Option<String>, path: String },
    /// Exit with this code.
    Exit(i32),
}

/// What is to be done next, as a mathematical value.
pub enum NextView {
    /// Check whether the MediaTek nodes exist.
    CheckPaths,
    /// Run the command.
    Run(MtkCommand),
    /// Check whether the log exists.
    CheckLog { path: Seq<char> },
    /// Check whether the previous boot's log exists.
    CheckLastboot { path: Seq<char> },
    /// Remove the file.
    Remove { path: Seq<char> },
    /// Rename the file.
    Rename { from: Seq<char>, to: Seq<char> },
    /// Create the directory, if one is named, and then the empty file.
    CreateFresh { dir: Option<Seq<char>>, path: Seq<char> },
    /// Exit with this code.
    Exit(i32),
}

impl View for CleanupNext {
    type V = NextView;

    open spec fn view(&self) -> NextView {
        match self {
            CleanupNext::CheckPaths => NextView::CheckPaths,
            CleanupNext::Run(c) => NextView::Run(*c),
            CleanupNext::CheckLog { path } => NextView::CheckLog { path: path@ },
            CleanupNext::CheckLastboot { path } => NextView::CheckLastboot { path: path@ },
            CleanupNext::Remove { path } => NextView::Remove { path: path@ },
            CleanupNext::Rename { from, to } => NextView::Rename { from: from@, to: to@ },
            CleanupNext::CreateFresh { dir, path } => NextView::CreateFresh {
                dir: match dir {
                    Some(d) => Some(d@),
                    None => None,
                },
                path: path@,
            },
            CleanupNext::Exit(n) => NextView::Exit(*n),
        }
    }
}

/// Print the messages in order, then do what follows.
#[derive(Debug)]
pub struct CleanupStep {
    /// The messages.
    pub messages: Vec<String>,
    /// What follows.
    pub next: CleanupNext,
}

/// The texts of a list of messages.
pub open spec fn texts(messages: Seq<String>) -> Seq<Seq<char>> {
    Seq::new(messages.len(), |i: int| messages[i]@)
}

/// What is printed after an event.
pub open spec fn cleanup_messages(log: Seq<char>, event: CleanupEvent) -> Seq<Seq<char>> {
    match event {
        CleanupEvent::Started { boot_id } => seq![
            "rsc: --cleanup starting (boot_id="@ + boot_id@ + ")"@,
        ],
        CleanupEvent::PathsChecked(exist) => if exist {
            Seq::empty()
        } else {
            seq!["rsc: --cleanup MTK paths missing — skipping sysfs restore"@]
        },
        CleanupEvent::ThermalDone(Ok(_)) => seq![
            "rsc: --cleanup thermal delimiter restored (disable_nafg=0, ntc_disable_nafg=0)"@,
        ],
        CleanupEvent::ThermalDone(Err(e)) => seq![
            "rsc: --cleanup WARN: disable_thermal_delimiter failed: "@ + e.words(),
        ],
        CleanupEvent::ResumeDone(Ok(_)) => seq![
            "rsc: --cleanup charging path restored (current_cmd=0 0)"@,
        ],
        CleanupEvent::ResumeDone(Err(e)) => seq![
            "rsc: --cleanup WARN: resume_charging failed: "@ + e.words(),
        ],
        CleanupEvent::LogChecked(exists) => if exists {
            Seq::empty()
        } else {
            seq!["rsc: --cleanup no existing log to rotate"@]
        },
        CleanupEvent::LastbootChecked(_) => Seq::empty(),
        CleanupEvent::LastbootRemoved => Seq::empty(),
        CleanupEvent::Renamed(Ok(_)) => seq![
            "rsc: --cleanup rotated "@ + log + " -> "@ + lastboot_path(log),
        ],
        CleanupEvent::Renamed(Err(e)) => seq!["rsc: --cleanup WARN: rotate failed: "@ + e@],
        CleanupEvent::FreshLog(created) => seq![
            if created {
                "rsc: --cleanup fresh log created at "@ + log
            } else {
                "rsc: --cleanup WARN: could not create fresh log at "@ + log
            },
            "rsc: --cleanup complete"@,
        ],
    }
}

/// What is done after an event. What came of a command or of a file operation is reported, and
/// changes nothing of what follows.
pub open spec fn cleanup_next(log: Seq<char>, event: CleanupEvent) -> NextView {
    match event {
        CleanupEvent::Started { boot_id } => NextView::CheckPaths,
        CleanupEvent::PathsChecked(exist) => if exist {
            NextView::Run(MtkCommand::DisableThermalDelimiter)
        } else {
            NextView::CheckLog { path: log }
        },
        CleanupEvent::ThermalDone(_) => NextView::Run(MtkCommand::ResumeCharging),
        CleanupEvent::ResumeDone(_) => NextView::CheckLog { path: log },
        CleanupEvent::LogChecked(exists) => if exists {
            NextView::CheckLastboot { path: lastboot_path(log) }
        } else {
            NextView::CreateFresh { dir: path::parent(log), path: log }
        },
        CleanupEvent::LastbootChecked(exists) => if exists {
            NextView::Remove { path: lastboot_path(log) }
        } else {
            NextView::Rename { from: log, to: lastboot_path(log) }
        },
        CleanupEvent::LastbootRemoved => NextView::Rename { from: log, to: lastboot_path(log) },
        CleanupEvent::Renamed(_) => NextView::CreateFresh { dir: path::parent(log), path: log },
        CleanupEvent::FreshLog(_) => NextView::Exit(0),
    }
}

/// The order of a cleanup, whatever comes of its commands and file operations: the nodes are
/// looked for, and restored where they are there; then the log is looked for; one that is there
/// replaces the previous boot's; and at last a fresh one is made, in the log's own directory.
pub proof fn cleanup_goes_through_its_steps(
    log: Seq<char>,
    boot_id: String,
    thermal: Result<(), MtkError>,
    resume: Result<(), MtkError>,
    renamed: Result<(), String>,
    created: bool,
)
    ensures
        cleanup_next(log, CleanupEvent::Started { boot_id }) == NextView::CheckPaths,
        cleanup_next(log, CleanupEvent::PathsChecked(true)) == NextView::Run(
            MtkCommand::DisableThermalDelimiter,
        ),
        cleanup_next(log, CleanupEvent::PathsChecked(false)) == (NextView::CheckLog { path: log }),
        cleanup_next(log, CleanupEvent::ThermalDone(thermal)) == NextView::Run(
            MtkCommand::ResumeCharging,
        ),
        cleanup_next(log, CleanupEvent::ResumeDone(resume)) == (NextView::CheckLog { path: log }),
        cleanup_next(log, CleanupEvent::LogChecked(true)) == (NextView::CheckLastboot {
            path: lastboot_path(log),
        }),
        cleanup_next(log, CleanupEvent::LogChecked(false)) == (NextView::CreateFresh {
            dir: path::parent(log),
            path: log,
        }),
        cleanup_next(log, CleanupEvent::LastbootChecked(true)) == (NextView::Remove {
            path: lastboot_path(log),
        }),
        cleanup_next(log, CleanupEvent::LastbootChecked(false)) == (NextView::Rename {
            from: log,
            to: lastboot_path(log),
        }),
        cleanup_next(log, CleanupEvent::LastbootRemoved) == (NextView::Rename {
            from: log,
            to: lastboot_path(log),
        }),
        cleanup_next(log, CleanupEvent::Renamed(renamed)) == (NextView::CreateFresh {
            dir: path::parent(log),
            path: log,
        }),
        cleanup_next(log, CleanupEvent::FreshLog(created)) == NextView::Exit(0),
{
}

/// What a cleanup says: what it restored, what failed and why, which file went where.
pub proof fn cleanup_reports_what_it_did(
    log: Seq<char>,
    boot_id: String,
    error: MtkError,
    complaint: String,
)
    ensures
        cleanup_messages(log, CleanupEvent::Started { boot_id }) == seq![
            "rsc: --cleanup starting (boot_id="@ + boot_id@ + ")"@,
        ],
        cleanup_messages(log, CleanupEvent::PathsChecked(true)).len() == 0,
        cleanup_messages(log, CleanupEvent::PathsChecked(false)) == seq![
            "rsc: --cleanup MTK paths missing — skipping sysfs restore"@,
        ],
        cleanup_messages(log, CleanupEvent::ThermalDone(Ok(()))) == seq![
            "rsc: --cleanup thermal delimiter restored (disable_nafg=0, ntc_disable_nafg=0)"@,
        ],
        cleanup_messages(log, CleanupEvent::ThermalDone(Err(error))) == seq![
            "rsc: --cleanup WARN: disable_thermal_delimiter failed: "@ + error.words(),
        ],
        cleanup_messages(log, CleanupEvent::ResumeDone(Ok(()))) == seq![
            "rsc: --cleanup charging path restored (current_cmd=0 0)"@,
        ],
        cleanup_messages(log, CleanupEvent::ResumeDone(Err(error))) == seq![
            "rsc: --cleanup WARN: resume_charging failed: "@ + error.words(),
        ],
        cleanup_messages(log, CleanupEvent::LogChecked(true)).len() == 0,
        cleanup_messages(log, CleanupEvent::LogChecked(false)) == seq![
            "rsc: --cleanup no existing log to rotate"@,
        ],
        cleanup_messages(log, CleanupEvent::LastbootChecked(true)).len() == 0,
        cleanup_messages(log, CleanupEvent::LastbootChecked(false)).len() == 0,
        cleanup_messages(log, CleanupEvent::LastbootRemoved).len() == 0,
        cleanup_messages(log, CleanupEvent::Renamed(Ok(()))) == seq![
            "rsc: --cleanup rotated "@ + log + " -> "@ + lastboot_path(log),
        ],
        cleanup_messages(log, CleanupEvent::Renamed(Err(complaint))) == seq![
            "rsc: --cleanup WARN: rotate failed: "@ + complaint@,
        ],
        cleanup_messages(log, CleanupEvent::FreshLog(true)) == seq![
            "rsc: --cleanup fresh log created at "@ + log,
            "rsc: --cleanup complete"@,
        ],
        cleanup_messages(log, CleanupEvent::FreshLog(false)) == seq![
            "rsc: --cleanup WARN: could not create fresh log at "@ + log,
            "rsc: --cleanup complete"@,
        ],
        error matches MtkError::Io(e) ==> error.words() == "io: "@ + e@,
        error matches MtkError::PathMissing(p) ==> error.words() == "path missing: "@ + p@,
{
}

fn with_text(head: &str, tail: &str) -> (s: String)
    ensures
        s@ == head@ + tail@,
{
    let mut s = head.to_string();
    s.append(tail);
    s
}

/// What is printed and done after an event.
pub fn run_cleanup(cfg: &Config, event: CleanupEvent) -> (step: CleanupStep)
    ensures
        texts(step.messages@) == cleanup_messages(cfg.log_file@, event),
        step.messages@.len() == cleanup_messages(cfg.log_file@, event).len(),
        forall|i: int|
            0 <= i < step.messages@.len() ==> (#[trigger] step.messages@[i])@ == cleanup_messages(
                cfg.log_file@,
                event,
            )[i],
        match (step.next, cleanup_next(cfg.log_file@, event)) {
            (CleanupNext::CheckPaths, NextView::CheckPaths) => true,
            (CleanupNext::Run(c), NextView::Run(d)) => c == d,
            (CleanupNext::CheckLog { path }, NextView::CheckLog { path: q }) => path@ == q,
            (CleanupNext::CheckLastboot { path }, NextView::CheckLastboot { path: q }) => path@
                == q,
            (CleanupNext::Remove { path }, NextView::Remove { path: q }) => path@ == q,
            (CleanupNext::Rename { from, to }, NextView::Rename { from: f, to: t }) => from@ == f
                && to@ == t,
            (CleanupNext::CreateFresh { dir, path }, NextView::CreateFresh { dir: e, path: q }) =>
                path@ == q && match (dir, e) {
                (Some(d), Some(x)) => d@ == x,
                (None, None) => true,
                _ => false,
            },
            (CleanupNext::Exit(n), NextView::Exit(k)) => n == k,
            _ => false,
        },
        step.next@ == cleanup_next(cfg.log_file@, event),
{
    let log = cfg.log_file.as_str();
    let mut messages: Vec<String> = Vec::new();
    let next = match &event {
        CleanupEvent::Started { boot_id } => {
            let mut s = with_text("rsc: --cleanup starting (boot_id=", boot_id.as_str());
            s.append(")");
            messages.push(s);
            CleanupNext::CheckPaths
        },
        CleanupEvent::PathsChecked(exist) => if *exist {
            CleanupNext::Run(MtkCommand::DisableThermalDelimiter)
        } else {
            messages.push(
                "rsc: --cleanup MTK paths missing — skipping sysfs restore".to_string(),
            );
            CleanupNext::CheckLog { path: log.to_string() }
        },
        CleanupEvent::ThermalDone(outcome) => {
            match outcome {
                Ok(_) => messages.push(
                    "rsc: --cleanup thermal delimiter restored (disable_nafg=0, ntc_disable_nafg=0)".to_string(),
                ),
                Err(e) => messages.push(
                    with_text(
                        "rsc: --cleanup WARN: disable_thermal_delimiter failed: ",
                        e.to_string().as_str(),
                    ),
                ),
            }
            CleanupNext::Run(MtkCommand::ResumeCharging)
        },
        CleanupEvent::ResumeDone(outcome) => {
            match outcome {
                Ok(_) => messages.push(
                    "rsc: --cleanup charging path restored (current_cmd=0 0)".to_string(),
                ),
                Err(e) => messages.push(
                    with_text(
                        "rsc: --cleanup WARN: resume_charging failed: ",
                        e.to_string().as_str(),
                    ),
                ),
            }
            CleanupNext::CheckLog { path: log.to_string() }
        },
        CleanupEvent::LogChecked(exists) => if *exists {
            CleanupNext::CheckLastboot { path: lastboot_log_path(log) }
        } else {
            messages.push("rsc: --cleanup no existing log to rotate".to_string());
            CleanupNext::CreateFresh { dir: path::parent_of(log), path: log.to_string() }
        },
        CleanupEvent::LastbootChecked(exists) => if *exists {
            CleanupNext::Remove { path: lastboot_log_path(log) }
        } else {
            CleanupNext::Rename { from: log.to_string(), to: lastboot_log_path(log) }
        },
        CleanupEvent::LastbootRemoved => CleanupNext::Rename {
            from: log.to_string(),
            to: lastboot_log_path(log),
        },
        CleanupEvent::Renamed(outcome) => {
            match outcome {
                Ok(_) => {
                    let mut s = with_text("rsc: --cleanup rotated ", log);
                    s.append(" -> ");
                    s.append(lastboot_log_path(log).as_str());
                    messages.push(s);
                },
                Err(e) => messages.push(
                    with_text("rsc: --cleanup WARN: rotate failed: ", e.as_str()),
                ),
            }
            CleanupNext::CreateFresh { dir: path::parent_of(log), path: log.to_string() }
        },
        CleanupEvent::FreshLog(created) => {
            if *created {
                messages.push(with_text("rsc: --cleanup fresh log created at ", log));
            } else {
                messages.push(
                    with_text("rsc: --cleanup WARN: could not create fresh log at ", log),
                );
            }
            messages.push("rsc: --cleanup complete".to_string());
            CleanupNext::Exit(0)
        },
    };
    assert(texts(messages@) =~= cleanup_messages(cfg.log_file@, event));
    CleanupStep { messages, next }
}

} // verus!
