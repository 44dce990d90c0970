//! The MediaTek battery nodes: which values go to which node, in which order.
//!
//! A command is a list of steps. The program around the library performs one step at a time and
//! reports what came of it; a write that fails ends the command.

use vstd::prelude::*;
use crate::text;

verus! {

/// The power path switch.
pub const EN_POWER_PATH: &'static str = "/proc/mtk_battery_cmd/en_power_path";

/// The charge current command.
pub const CURRENT_CMD_PATH: &'static str = "/proc/mtk_battery_cmd/current_cmd";

/// The fuel gauge delimiter.
pub const DISABLE_NAFG_PATH: &'static str = "/sys/devices/platform/battery/disable_nafg";

/// The fuel gauge delimiter of the temperature sensor.
pub const NTC_DISABLE_NAFG_PATH: &'static str = "/sys/devices/platform/battery/ntc_disable_nafg";

/// The pause around the reset of the power path: long enough for the driver to register the
/// transition.
pub const RESUME_RESET_DELAY_MS: u64 = 50;

/// The pause between re-asserting and releasing the cut: long enough for the driver to enter
/// the cut state.
pub const RESUME_TOGGLE_DELAY_MS: u64 = 100;

/// Why a node could not be read or written.
#[derive(Debug)]
pub enum MtkError {
    /// The node is there, and the access failed; holds the text of the error.
    Io(String),
    /// There is no such node.
    PathMissing(String),
}

impl MtkError {
    /// The error in words.
    pub open spec fn words(self) -> Seq<char> {
        match self {
            MtkError::Io(e) => "io: "@ + e@,
            MtkError::PathMissing(p) => "path missing: "@ + p@,
        }
    }

    /// The error in words.
    pub fn to_string(&self) -> (s: String)
        ensures
            s@ == self.words(),
            match self {
                MtkError::Io(e) => s@ == "io: "@ + e@,
                MtkError::PathMissing(p) => s@ == "path missing: "@ + p@,
            },
    {
        match self {
            MtkError::Io(e) => "io: ".to_string().concat(e.as_str()),
            MtkError::PathMissing(p) => "path missing: ".to_string().concat(p.as_str()),
        }
    }
}

/// One step of a command.
#[derive(Debug, Clone, Copy)]
pub enum SysOp {
    /// Write `value` to the node at `path`, which must exist.
    Write { path: &'static str, value: &'static str },
    /// Wait for `millis` milliseconds.
    Sleep { millis: u64 },
}

/// What came of one step.
#[derive(Debug)]
pub enum StepOutcome {
    /// The step was performed.
    Done,
    /// The node to write does not exist.
    PathMissing,
    /// The node exists and could not be written; holds the text of the error.
    Failed(String),
}

/// A command under way: its steps, and how many of them are behind it.
#[derive(Debug)]
pub struct Command {
    /// All steps, in order.
    pub steps: Vec<SysOp>,
    /// The index of the step to perform next.
    pub position: usize,
}

impl Command {
    /// The steps that are still to be performed.
    pub open spec fn remaining(self) -> Seq<SysOp> {
        if self.position <= self.steps@.len() {
            self.steps@.skip(self.position as int)
        } else {
            Seq::empty()
        }
    }

    /// The step to perform next, if any is left.
    pub fn current(&self) -> (op: Option<SysOp>)
        ensures
            match op {
                Some(op) => self.remaining().len() > 0 && op == self.remaining().first(),
                None => self.remaining().len() == 0,
            },
            op == if self.position < self.steps@.len() {
                Some(self.steps@[self.position as int])
            } else {
                None
            },
    {
        if self.position < self.steps.len() {
            Some(self.steps[self.position])
        } else {
            None
        }
    }

    /// Takes note of what came of the current step. A write that failed ends the command with
    /// its error: no further step is left. A pause cannot fail.
    pub fn advance(&mut self, outcome: StepOutcome) -> (r: Result<(), MtkError>)
        ensures
            final(self).steps == old(self).steps,
            old(self).remaining().len() == 0 ==> r is Ok && final(self).remaining().len() == 0,
            old(self).remaining().len() > 0 ==> match (old(self).remaining().first(), outcome) {
                (SysOp::Write { path, value }, StepOutcome::PathMissing) => {
                    &&& r matches Err(MtkError::PathMissing(p))
                    &&& p@ == path@
                    &&& final(self).remaining().len() == 0
                },
                (SysOp::Write { path, value }, StepOutcome::Failed(e)) => {
                    &&& r matches Err(MtkError::Io(f))
                    &&& f@ == e@
                    &&& final(self).remaining().len() == 0
                },
                _ => r is Ok && final(self).remaining() == old(self).remaining().drop_first(),
            },
            old(self).position < old(self).steps@.len() ==> match (
                old(self).steps@[old(self).position as int],
                outcome,
            ) {
                (SysOp::Write { path, value }, StepOutcome::PathMissing) => {
                    &&& r matches Err(MtkError::PathMissing(p))
                    &&& p@ == path@
                    &&& final(self).position == final(self).steps@.len()
                },
                (SysOp::Write { path, value }, StepOutcome::Failed(e)) => {
                    &&& r matches Err(MtkError::Io(f))
                    &&& f@ == e@
                    &&& final(self).position == final(self).steps@.len()
                },
                _ => r is Ok && final(self).position == old(self).position + 1,
            },
            old(self).position >= old(self).steps@.len() ==> r is Ok && final(self).position
                == old(self).position,
    {
        if self.position >= self.steps.len() {
            return Ok(());
        }
        let op = self.steps[self.position];
        if let SysOp::Write { path, value: _ } = op {
            match outcome {
                StepOutcome::Done => {},
                StepOutcome::PathMissing => {
                    self.position = self.steps.len();
                    return Err(MtkError::PathMissing(path.to_string()));
                },
                StepOutcome::Failed(e) => {
                    self.position = self.steps.len();
                    return Err(MtkError::Io(e));
                },
            }
        }
        self.position = self.position + 1;
        Ok(())
    }
}

/// The steps that cut off charging.
pub open spec fn cut_off_steps() -> Seq<SysOp> {
    seq![
        SysOp::Write { path: EN_POWER_PATH, value: "1" },
        SysOp::Write { path: CURRENT_CMD_PATH, value: "1 1" },
    ]
}

/// The steps that resume charging: the power path is reset before the cut is cleared.
pub open spec fn resume_steps() -> Seq<SysOp> {
    seq![
        SysOp::Write { path: EN_POWER_PATH, value: "0" },
        SysOp::Sleep { millis: RESUME_RESET_DELAY_MS },
        SysOp::Write { path: EN_POWER_PATH, value: "1" },
        SysOp::Sleep { millis: RESUME_RESET_DELAY_MS },
        SysOp::Write { path: CURRENT_CMD_PATH, value: "0 0" },
    ]
}

/// The steps that resume charging by asserting the cut anew and releasing it.
pub open spec fn toggle_steps() -> Seq<SysOp> {
    seq![
        SysOp::Write { path: EN_POWER_PATH, value: "1" },
        SysOp::Write { path: CURRENT_CMD_PATH, value: "1 1" },
        SysOp::Sleep { millis: RESUME_TOGGLE_DELAY_MS },
        SysOp::Write { path: CURRENT_CMD_PATH, value: "0 0" },
    ]
}

/// The steps that set both delimiter nodes to `value`.
pub open spec fn thermal_steps(value: &'static str) -> Seq<SysOp> {
    seq![
        SysOp::Write { path: DISABLE_NAFG_PATH, value },
        SysOp::Write { path: NTC_DISABLE_NAFG_PATH, value },
    ]
}

/// Cuts off charging. The power path is written although it usually has that value already:
/// some drivers act on the write itself.
pub fn cut_off_charging() -> (c: Command)
    ensures
        c.remaining() == cut_off_steps(),
        c.position == 0,
        c.steps@ == seq![
            SysOp::Write { path: EN_POWER_PATH, value: "1" },
            SysOp::Write { path: CURRENT_CMD_PATH, value: "1 1" },
        ],
{
    Command {
        steps: vec![
            SysOp::Write { path: EN_POWER_PATH, value: "1" },
            SysOp::Write { path: CURRENT_CMD_PATH, value: "1 1" },
        ],
        position: 0,
    }
}

/// Resumes charging. The power path goes to 0 first, which makes the driver release a latched
/// cut, then back to 1, and only then is the current command cleared.
pub fn resume_charging() -> (c: Command)
    ensures
        c.remaining() == resume_steps(),
        c.position == 0,
        c.steps@ == seq![
            SysOp::Write { path: EN_POWER_PATH, value: "0" },
            SysOp::Sleep { millis: 50 },
            SysOp::Write { path: EN_POWER_PATH, value: "1" },
            SysOp::Sleep { millis: 50 },
            SysOp::Write { path: CURRENT_CMD_PATH, value: "0 0" },
        ],
{
    Command {
        steps: vec![
            SysOp::Write { path: EN_POWER_PATH, value: "0" },
            SysOp::Sleep { millis: RESUME_RESET_DELAY_MS },
            SysOp::Write { path: EN_POWER_PATH, value: "1" },
            SysOp::Sleep { millis: RESUME_RESET_DELAY_MS },
            SysOp::Write { path: CURRENT_CMD_PATH, value: "0 0" },
        ],
        position: 0,
    }
}

/// Resumes charging where [`resume_charging`] had no effect: asserts the cut anew, waits, and
/// releases it.
pub fn resume_charging_with_toggle() -> (c: Command)
    ensures
        c.remaining() == toggle_steps(),
        c.position == 0,
        c.steps@ == seq![
            SysOp::Write { path: EN_POWER_PATH, value: "1" },
            SysOp::Write { path: CURRENT_CMD_PATH, value: "1 1" },
            SysOp::Sleep { millis: 100 },
            SysOp::Write { path: CURRENT_CMD_PATH, value: "0 0" },
        ],
{
    Command {
        steps: vec![
            SysOp::Write { path: EN_POWER_PATH, value: "1" },
            SysOp::Write { path: CURRENT_CMD_PATH, value: "1 1" },
            SysOp::Sleep { millis: RESUME_TOGGLE_DELAY_MS },
            SysOp::Write { path: CURRENT_CMD_PATH, value: "0 0" },
        ],
        position: 0,
    }
}

/// Enables the thermal delimiter.
pub fn enable_thermal_delimiter() -> (c: Command)
    ensures
        c.remaining() == thermal_steps("1"),
        c.position == 0,
        c.steps@ == seq![
            SysOp::Write { path: DISABLE_NAFG_PATH, value: "1" },
            SysOp::Write { path: NTC_DISABLE_NAFG_PATH, value: "1" },
        ],
{
    Command {
        steps: vec![
            SysOp::Write { path: DISABLE_NAFG_PATH, value: "1" },
            SysOp::Write { path: NTC_DISABLE_NAFG_PATH, value: "1" },
        ],
        position: 0,
    }
}

/// Restores normal thermal behaviour.
pub fn disable_thermal_delimiter() -> (c: Command)
    ensures
        c.remaining() == thermal_steps("0"),
        c.position == 0,
        c.steps@ == seq![
            SysOp::Write { path: DISABLE_NAFG_PATH, value: "0" },
            SysOp::Write { path: NTC_DISABLE_NAFG_PATH, value: "0" },
        ],
{
    Command {
        steps: vec![
            SysOp::Write { path: DISABLE_NAFG_PATH, value: "0" },
            SysOp::Write { path: NTC_DISABLE_NAFG_PATH, value: "0" },
        ],
        position: 0,
    }
}

/// The commands that the daemon gives.
#[derive(Debug, Clone, Copy, PartialEq, Eq, Structural)]
pub enum MtkCommand {
    /// See [`cut_off_charging`].
    CutOffCharging,
    /// See [`resume_charging`].
    ResumeCharging,
    /// See [`enable_thermal_delimiter`].
    EnableThermalDelimiter,
    /// See [`disable_thermal_delimiter`].
    DisableThermalDelimiter,
}

impl MtkCommand {
    /// The command's steps.
    pub open spec fn steps(self) -> Seq<SysOp> {
        match self {
            MtkCommand::CutOffCharging => cut_off_steps(),
            MtkCommand::ResumeCharging => resume_steps(),
            MtkCommand::EnableThermalDelimiter => thermal_steps("1"),
            MtkCommand::DisableThermalDelimiter => thermal_steps("0"),
        }
    }

    /// The command, with all of its steps still to be performed.
    pub fn start(&self) -> (c: Command)
        ensures
            c.remaining() == self.steps(),
            c.position == 0,
            c.steps@ == self.steps(),
    {
        match self {
            MtkCommand::CutOffCharging => cut_off_charging(),
            MtkCommand::ResumeCharging => resume_charging(),
            MtkCommand::EnableThermalDelimiter => enable_thermal_delimiter(),
            MtkCommand::DisableThermalDelimiter => disable_thermal_delimiter(),
        }
    }
}

/// What the nodes hold after each command has been performed, given what they held before.
pub proof fn performed_commands_show_in_the_nodes(
    command: MtkCommand,
    nodes: Map<Seq<char>, Seq<char>>,
)
    ensures
        after_steps(nodes, command.steps()) == match command {
            MtkCommand::CutOffCharging => nodes.insert(EN_POWER_PATH@, "1"@).insert(
                CURRENT_CMD_PATH@,
                "1 1"@,
            ),
            MtkCommand::ResumeCharging => nodes.insert(EN_POWER_PATH@, "1"@).insert(
                CURRENT_CMD_PATH@,
                "0 0"@,
            ),
            MtkCommand::EnableThermalDelimiter => nodes.insert(DISABLE_NAFG_PATH@, "1"@).insert(
                NTC_DISABLE_NAFG_PATH@,
                "1"@,
            ),
            MtkCommand::DisableThermalDelimiter => nodes.insert(DISABLE_NAFG_PATH@, "0"@).insert(
                NTC_DISABLE_NAFG_PATH@,
                "0"@,
            ),
        },
{
    cut_off_leaves(nodes);
    resume_leaves(nodes);
    enable_leaves(nodes);
    disable_undoes_enable(nodes);
}

/// What came of reading a node.
#[derive(Debug)]
pub enum ReadOutcome {
    /// There is no such node.
    PathMissing,
    /// The node exists and could not be read; holds the text of the error.
    Failed(String),
    /// The node's content.
    Content(String),
}

/// Whether `r` is what reading the node at `path` gives: the trimmed content, or the error.
pub open spec fn is_node_value(
    path: Seq<char>,
    outcome: ReadOutcome,
    r: Result<String, MtkError>,
) -> bool {
    match outcome {
        ReadOutcome::PathMissing => r matches Err(MtkError::PathMissing(p)) && p@ == path,
        ReadOutcome::Failed(e) => r matches Err(MtkError::Io(f)) && f@ == e@,
        ReadOutcome::Content(s) => r matches Ok(v) && v@ == text::trimmed(s@),
    }
}

/// The trimmed content of the node at `path`, or why it could not be read.
pub fn read_sysctl(path: &str, outcome: ReadOutcome) -> (r: Result<String, MtkError>)
    ensures
        is_node_value(path@, outcome, r),
        match outcome {
            ReadOutcome::PathMissing => r matches Err(MtkError::PathMissing(p)) && p@ == path@,
            ReadOutcome::Failed(e) => r matches Err(MtkError::Io(f)) && f@ == e@,
            ReadOutcome::Content(s) => r matches Ok(v) && v@ == text::trimmed(s@),
        },
{
    match outcome {
        ReadOutcome::PathMissing => Err(MtkError::PathMissing(path.to_string())),
        ReadOutcome::Failed(e) => Err(MtkError::Io(e)),
        ReadOutcome::Content(s) => Ok(text::trim(s.as_str()).to_string()),
    }
}

/// The current command, from what came of reading [`CURRENT_CMD_PATH`]. It is usually `0 0`
/// after a resume and `1 1` after a cut.
pub fn read_current_cmd(outcome: ReadOutcome) -> (r: Result<String, MtkError>)
    ensures
        is_node_value(CURRENT_CMD_PATH@, outcome, r),
        match outcome {
            ReadOutcome::PathMissing => r matches Err(MtkError::PathMissing(p)) && p@
                == CURRENT_CMD_PATH@,
            ReadOutcome::Failed(e) => r matches Err(MtkError::Io(f)) && f@ == e@,
            ReadOutcome::Content(s) => r matches Ok(v) && v@ == text::trimmed(s@),
        },
{
    read_sysctl(CURRENT_CMD_PATH, outcome)
}

/// Whether a current command is one that a resume leaves: `0`, or any `0 ...` variant, since
/// drivers differ in the second field.
pub open spec fn is_resumed(cmd: Seq<char>) -> bool {
    cmd == "0"@ || text::begins_with(cmd, "0 "@)
}

/// Whether the current command reads back as one that a resume leaves. This looks at the node
/// alone: whether current flows again shows only in the capacity over time.
pub fn verify_resume_applied(outcome: ReadOutcome) -> (r: Result<bool, MtkError>)
    ensures
        match outcome {
            ReadOutcome::PathMissing => r matches Err(MtkError::PathMissing(p)) && p@
                == CURRENT_CMD_PATH@,
            ReadOutcome::Failed(e) => r matches Err(MtkError::Io(f)) && f@ == e@,
            ReadOutcome::Content(s) => r matches Ok(b) && b == is_resumed(text::trimmed(s@)),
        },
{
    match read_current_cmd(outcome) {
        Ok(cmd) => Ok(text::same(cmd.as_str(), "0") || text::starts_with(cmd.as_str(), "0 ")),
        Err(e) => Err(e),
    }
}

/// Which of the four nodes exist.
#[derive(Debug, Clone, Copy)]
pub struct PathsPresent {
    /// Whether [`EN_POWER_PATH`] exists.
    pub en_power_path: bool,
    /// Whether [`CURRENT_CMD_PATH`] exists.
    pub current_cmd: bool,
    /// Whether [`DISABLE_NAFG_PATH`] exists.
    pub disable_nafg: bool,
    /// Whether [`NTC_DISABLE_NAFG_PATH`] exists.
    pub ntc_disable_nafg: bool,
}

/// True if every node that the commands write exists.
pub fn paths_exist(present: PathsPresent) -> (r: bool)
    ensures
        r <==> present.en_power_path && present.current_cmd && present.disable_nafg
            && present.ntc_disable_nafg,
{
    present.en_power_path && present.current_cmd && present.disable_nafg
        && present.ntc_disable_nafg
}

/// The nodes' values after one step has been performed.
pub open spec fn after_step(nodes: Map<Seq<char>, Seq<char>>, op: SysOp) -> Map<
    Seq<char>,
    Seq<char>,
> {
    match op {
        SysOp::Write { path, value } => nodes.insert(path@, value@),
        SysOp::Sleep { millis } => nodes,
    }
}

/// The nodes' values after all steps have been performed.
pub open spec fn after_steps(nodes: Map<Seq<char>, Seq<char>>, steps: Seq<SysOp>) -> Map<
    Seq<char>,
    Seq<char>,
>
    decreases steps.len(),
{
    if steps.len() == 0 {
        nodes
    } else {
        after_step(after_steps(nodes, steps.drop_last()), steps.last())
    }
}

pub(crate) proof fn paths_differ()
    ensures
        EN_POWER_PATH@ != CURRENT_CMD_PATH@,
        EN_POWER_PATH@ != DISABLE_NAFG_PATH@,
        EN_POWER_PATH@ != NTC_DISABLE_NAFG_PATH@,
        CURRENT_CMD_PATH@ != DISABLE_NAFG_PATH@,
        CURRENT_CMD_PATH@ != NTC_DISABLE_NAFG_PATH@,
        DISABLE_NAFG_PATH@ != NTC_DISABLE_NAFG_PATH@,
{
    reveal_strlit("/proc/mtk_battery_cmd/en_power_path");
    reveal_strlit("/proc/mtk_battery_cmd/current_cmd");
    reveal_strlit("/sys/devices/platform/battery/disable_nafg");
    reveal_strlit("/sys/devices/platform/battery/ntc_disable_nafg");
    assert(EN_POWER_PATH@.len() == 35);
    assert(CURRENT_CMD_PATH@.len() == 33);
    assert(DISABLE_NAFG_PATH@.len() == 42);
    assert(NTC_DISABLE_NAFG_PATH@.len() == 46);
}

/// The nodes are those of the MediaTek battery driver.
pub proof fn nodes_are_the_drivers()
    ensures
        EN_POWER_PATH@ == "/proc/mtk_battery_cmd/en_power_path"@,
        CURRENT_CMD_PATH@ == "/proc/mtk_battery_cmd/current_cmd"@,
        DISABLE_NAFG_PATH@ == "/sys/devices/platform/battery/disable_nafg"@,
        NTC_DISABLE_NAFG_PATH@ == "/sys/devices/platform/battery/ntc_disable_nafg"@,
{
}

/// Each command writes its own nodes and values, in its own order. Enabling and disabling the
/// thermal delimiter differ in the value alone.
pub proof fn commands_write_their_nodes(command: MtkCommand)
    ensures
        command.steps() == match command {
            MtkCommand::CutOffCharging => seq![
                SysOp::Write { path: EN_POWER_PATH, value: "1" },
                SysOp::Write { path: CURRENT_CMD_PATH, value: "1 1" },
            ],
            MtkCommand::ResumeCharging => seq![
                SysOp::Write { path: EN_POWER_PATH, value: "0" },
                SysOp::Sleep { millis: 50 },
                SysOp::Write { path: EN_POWER_PATH, value: "1" },
                SysOp::Sleep { millis: 50 },
                SysOp::Write { path: CURRENT_CMD_PATH, value: "0 0" },
            ],
            MtkCommand::EnableThermalDelimiter => seq![
                SysOp::Write { path: DISABLE_NAFG_PATH, value: "1" },
                SysOp::Write { path: NTC_DISABLE_NAFG_PATH, value: "1" },
            ],
            MtkCommand::DisableThermalDelimiter => seq![
                SysOp::Write { path: DISABLE_NAFG_PATH, value: "0" },
                SysOp::Write { path: NTC_DISABLE_NAFG_PATH, value: "0" },
            ],
        },
{
}

/// What is still to be performed of a command is what lies behind its position.
pub proof fn rest_of_a_command(c: Command)
    ensures
        c.position == 0 ==> c.remaining() == c.steps@,
        c.position < c.steps@.len() ==> c.remaining().len() == c.steps@.len() - c.position,
        forall|i: int|
            0 <= i < c.remaining().len() ==> #[trigger] c.remaining()[i] == c.steps@[c.position
                + i],
        c.position >= c.steps@.len() ==> c.remaining().len() == 0,
{
}

/// A current command counts as resumed exactly if it is a lone `0`, or a `0` and a space with
/// anything behind them.
pub proof fn resumed_commands_begin_with_zero(cmd: Seq<char>)
    ensures
        is_resumed(cmd) <==> cmd.len() >= 1 && cmd[0] == '0' && (cmd.len() == 1 || cmd[1] == ' '),
{
    reveal_strlit("0");
    reveal_strlit("0 ");
    if cmd.len() == 1 && cmd[0] == '0' {
        assert(cmd =~= "0"@);
    }
    if cmd.len() >= 2 && cmd[0] == '0' && cmd[1] == ' ' {
        assert(cmd.take(2) =~= "0 "@);
    }
    if text::begins_with(cmd, "0 "@) {
        assert(cmd.take(2)[0] == '0' && cmd.take(2)[1] == ' ');
    }
}

/// A cut that has been performed leaves the power path at `1` and the current command at `1 1`,
/// and no other node changed.
pub proof fn cut_off_leaves(nodes: Map<Seq<char>, Seq<char>>)
    ensures
        after_steps(nodes, cut_off_steps()) == nodes.insert(EN_POWER_PATH@, "1"@).insert(
            CURRENT_CMD_PATH@,
            "1 1"@,
        ),
{
    reveal_with_fuel(after_steps, 3);
    assert(cut_off_steps().drop_last().drop_last() =~= Seq::empty());
}

/// A resume that has been performed leaves the power path at `1` and the current command at
/// `0 0`, and no other node changed.
pub proof fn resume_leaves(nodes: Map<Seq<char>, Seq<char>>)
    ensures
        after_steps(nodes, resume_steps()) == nodes.insert(EN_POWER_PATH@, "1"@).insert(
            CURRENT_CMD_PATH@,
            "0 0"@,
        ),
{
    reveal_with_fuel(after_steps, 6);
    let s = resume_steps();
    assert(s.drop_last().drop_last().drop_last().drop_last().drop_last() =~= Seq::empty());
    assert(after_steps(nodes, s) =~= nodes.insert(EN_POWER_PATH@, "1"@).insert(
        CURRENT_CMD_PATH@,
        "0 0"@,
    ));
}

/// A resume after a cut leaves the nodes as a resume without the cut does: nothing of the cut
/// stays behind.
pub proof fn resume_undoes_cut_off(nodes: Map<Seq<char>, Seq<char>>)
    ensures
        after_steps(after_steps(nodes, cut_off_steps()), resume_steps()) == after_steps(
            nodes,
            resume_steps(),
        ),
{
    cut_off_leaves(nodes);
    resume_leaves(nodes);
    resume_leaves(after_steps(nodes, cut_off_steps()));
    paths_differ();
    assert(after_steps(after_steps(nodes, cut_off_steps()), resume_steps()) =~= after_steps(
        nodes,
        resume_steps(),
    ));
}

/// The toggling resume ends with the nodes as the plain resume leaves them.
pub proof fn toggle_ends_like_resume(nodes: Map<Seq<char>, Seq<char>>)
    ensures
        after_steps(nodes, toggle_steps()) == after_steps(nodes, resume_steps()),
{
    reveal_with_fuel(after_steps, 5);
    let s = toggle_steps();
    assert(s.drop_last().drop_last().drop_last().drop_last() =~= Seq::empty());
    resume_leaves(nodes);
    assert(after_steps(nodes, s) =~= after_steps(nodes, resume_steps()));
}

/// Enabling the delimiter leaves both of its nodes at `1`, and no other node changed.
pub proof fn enable_leaves(nodes: Map<Seq<char>, Seq<char>>)
    ensures
        after_steps(nodes, thermal_steps("1")) == nodes.insert(DISABLE_NAFG_PATH@, "1"@).insert(
            NTC_DISABLE_NAFG_PATH@,
            "1"@,
        ),
{
    reveal_with_fuel(after_steps, 3);
    assert(thermal_steps("1").drop_last().drop_last() =~= Seq::empty());
}

/// Disabling the delimiter leaves both of its nodes at `0`, whether or not it was enabled
/// before, and no other node changed.
pub proof fn disable_undoes_enable(nodes: Map<Seq<char>, Seq<char>>)
    ensures
        after_steps(nodes, thermal_steps("0")) == nodes.insert(DISABLE_NAFG_PATH@, "0"@).insert(
            NTC_DISABLE_NAFG_PATH@,
            "0"@,
        ),
        after_steps(after_steps(nodes, thermal_steps("1")), thermal_steps("0")) == after_steps(
            nodes,
            thermal_steps("0"),
        ),
{
    reveal_with_fuel(after_steps, 3);
    assert(thermal_steps("0").drop_last().drop_last() =~= Seq::empty());
    assert(thermal_steps("1").drop_last().drop_last() =~= Seq::empty());
    assert(after_steps(after_steps(nodes, thermal_steps("1")), thermal_steps("0")) =~= after_steps(
        nodes,
        thermal_steps("0"),
    ));
}

/// After a resume the current command reads back as resumed, by either strategy; after a cut it
/// does not.
pub proof fn readback_tells_resume_from_cut(nodes: Map<Seq<char>, Seq<char>>)
    ensures
        is_resumed(after_steps(nodes, resume_steps())[CURRENT_CMD_PATH@]),
        is_resumed(after_steps(nodes, toggle_steps())[CURRENT_CMD_PATH@]),
        !is_resumed(after_steps(nodes, cut_off_steps())[CURRENT_CMD_PATH@]),
{
    cut_off_leaves(nodes);
    resume_leaves(nodes);
    toggle_ends_like_resume(nodes);
    reveal_strlit("0 0");
    reveal_strlit("1 1");
    reveal_strlit("0");
    reveal_strlit("0 ");
    assert("0 0"@.take(2) =~= "0 "@);
    assert("1 1"@.take(2)[0] == '1');
    assert("0 "@[0] == '0');
}

} // verus!
