//! What holds of the daemon over whole ticks, and of its commands over the nodes they write.

use vstd::prelude::*;
use crate::battery::ChargeState;
use crate::cleanup;
use crate::cleanup::CleanupEvent;
use crate::cleanup::NextView;
use crate::config;
use crate::daemon;
use crate::daemon::Pending;
use crate::daemon::Reading;
use crate::daemon::State;
use crate::daemon::TickNext;
use crate::logger;
use crate::mtk;
use crate::mtk::MtkCommand;
use crate::run;
use crate::run::Act;

verus! {

/// The state after a whole tick whose commands end as told: the thermal delimiter's command,
/// and the command for the charging path.
pub open spec fn after_tick(
    s: State,
    reading: Reading,
    now: u64,
    thermal_ok: bool,
    path_ok: bool,
) -> State {
    let observed = s.after_reading(reading, now);
    match s.reading_step(reading, now).next {
        TickNext::Done(_) => observed,
        TickNext::Run(Pending::Thermal { cap, charging }) => {
            let switched = observed.after_command(Pending::Thermal { cap, charging }, thermal_ok);
            match switched.path_step(cap, charging).next {
                TickNext::Done(_) => switched,
                TickNext::Run(pending) => switched.after_command(pending, path_ok),
            }
        },
        TickNext::Run(pending) => observed.after_command(pending, path_ok),
    }
}

/// Between the two thresholds the charging path stays as it is, whatever else happens.
pub proof fn hysteresis_band_keeps_the_path(
    s: State,
    cap: u8,
    state: ChargeState,
    now: u64,
    thermal_ok: bool,
    path_ok: bool,
)
    requires
        s.resume < cap < s.cutoff,
    ensures
        after_tick(s, Reading::Battery { cap, state }, now, thermal_ok, path_ok).cut == s.cut,
{
}

/// A tick cuts charging off exactly if the path was open, the battery was charging at or above
/// the cutoff, and the command succeeded. It resumes charging exactly if the path was cut, the
/// capacity was at or below the resume threshold, and the command succeeded; the charging
/// status plays no part in that.
pub proof fn path_changes_at_the_thresholds(
    s: State,
    cap: u8,
    state: ChargeState,
    now: u64,
    thermal_ok: bool,
    path_ok: bool,
)
    ensures
        ({
            let after = after_tick(s, Reading::Battery { cap, state }, now, thermal_ok, path_ok);
            &&& s.cut is Charging ==> (after.cut is CutOff <==> state.charging() && cap >= s.cutoff
                && path_ok)
            &&& s.cut is CutOff ==> (after.cut is Charging <==> cap <= s.resume && path_ok)
        }),
{
}

/// With valid thresholds the same capacity never undoes what a tick did to the charging path: a
/// tick that cut charging off is not followed by a resume, nor one that resumed it by a cut.
pub proof fn no_flapping_at_one_capacity(
    s: State,
    cap: u8,
    first: ChargeState,
    second: ChargeState,
    now: u64,
    later: u64,
)
    requires
        config::valid_range(s.cutoff, s.resume),
    ensures
        ({
            let once = after_tick(s, Reading::Battery { cap, state: first }, now, true, true);
            let twice = after_tick(
                once,
                Reading::Battery { cap, state: second },
                later,
                true,
                true,
            );
            once.cut != s.cut ==> twice.cut == once.cut
        }),
{
}

/// A command for the charging path that failed changes neither the path nor its counters nor the
/// decision: the next tick with the same reading asks for the same command.
pub proof fn failed_path_command_is_retried(
    s: State,
    cap: u8,
    state: ChargeState,
    now: u64,
    thermal_ok: bool,
)
    ensures
        ({
            let reading = Reading::Battery { cap, state };
            let after = after_tick(s, reading, now, thermal_ok, false);
            &&& after.cut == s.cut
            &&& after.stats.cut_events == s.stats.cut_events
            &&& after.stats.resume_events == s.stats.resume_events
            &&& after.path_step(cap, state.charging()).next == s.path_step(
                cap,
                state.charging(),
            ).next
            &&& after.cuts_off(cap, state.charging()) == s.cuts_off(cap, state.charging())
            &&& after.resumes(cap) == s.resumes(cap)
        }),
{
}

/// A command for the thermal delimiter that failed changes neither the delimiter nor its counter,
/// and is counted as an error. It does not keep the tick from deciding on the charging path. The
/// next tick with the same reading asks for it again, however soon that comes.
pub proof fn failed_thermal_command_is_retried(
    s: State,
    cap: u8,
    state: ChargeState,
    now: u64,
    later: u64,
    path_ok: bool,
)
    requires
        s.switches_thermal(state, now),
    ensures
        ({
            let reading = Reading::Battery { cap, state };
            let pending = Pending::Thermal { cap, charging: state.charging() };
            let failed = s.after_reading(reading, now).after_command(pending, false);
            let after = after_tick(s, reading, now, false, path_ok);
            &&& s.reading_step(reading, now).next == TickNext::Run(pending)
            &&& failed.stats.errors == logger::successor(s.stats.errors)
            &&& failed.path_step(cap, state.charging()).next == s.path_step(
                cap,
                state.charging(),
            ).next
            &&& after.thermal_on == s.thermal_on
            &&& after.stats.thermal_toggles == s.stats.thermal_toggles
            &&& after.cut == after_tick(s, reading, now, true, path_ok).cut
            &&& after.reading_step(reading, later).next == TickNext::Run(pending)
        }),
{
}

/// A tick whose reading failed leaves everything as it is but for the counters of ticks and
/// errors, and asks for no command.
pub proof fn failed_reading_changes_nothing(
    s: State,
    reading: Reading,
    now: u64,
    thermal_ok: bool,
    path_ok: bool,
)
    requires
        !(reading is Battery),
    ensures
        s.reading_step(reading, now).next == TickNext::Done(false),
        ({
            let after = after_tick(s, reading, now, thermal_ok, path_ok);
            after == State { stats: after.stats, ..s }
        }),
{
}

/// Unless a second change of the charging status is held back, the thermal delimiter is on after
/// a tick exactly if the battery is charging, provided its command, if there was one, succeeded.
pub proof fn thermal_follows_charging(
    s: State,
    cap: u8,
    state: ChargeState,
    now: u64,
    path_ok: bool,
)
    requires
        !s.holds_back(state, now),
    ensures
        after_tick(s, Reading::Battery { cap, state }, now, true, path_ok).thermal_on
            == state.charging(),
{
}

/// A tick at which the charging status changes within two seconds of its last change leaves the
/// thermal delimiter as it is and asks for no command about it.
pub proof fn debounce_keeps_thermal(
    s: State,
    cap: u8,
    state: ChargeState,
    now: u64,
    thermal_ok: bool,
    path_ok: bool,
)
    requires
        s.flips(state),
        s.debounces(now),
    ensures
        after_tick(s, Reading::Battery { cap, state }, now, thermal_ok, path_ok).thermal_on
            == s.thermal_on,
        !(s.reading_step(Reading::Battery { cap, state }, now).next matches TickNext::Run(
            Pending::Thermal { cap: c, charging },
        )),
{
}

/// A change of the charging status that follows another one within two seconds leaves the
/// thermal delimiter as it is. One that follows later does not, nor does a tick without a change.
pub proof fn second_flip_is_debounced(
    s: State,
    first: ChargeState,
    second: ChargeState,
    cap: u8,
    later_cap: u8,
    now: u64,
    later: u64,
    thermal_ok: bool,
    path_ok: bool,
)
    requires
        s.flips(first),
        now <= later,
    ensures
        ({
            let once = after_tick(
                s,
                Reading::Battery { cap, state: first },
                now,
                thermal_ok,
                path_ok,
            );
            let twice = after_tick(
                once,
                Reading::Battery { cap: later_cap, state: second },
                later,
                true,
                path_ok,
            );
            &&& once.flips(second) <==> first.charging() != second.charging()
            &&& twice.thermal_on == if once.flips(second) && later - now
                < daemon::CHARGE_FLIP_DEBOUNCE_NS {
                once.thermal_on
            } else {
                second.charging()
            }
        }),
{
}

/// Without debug lines a tick whose reading did not change, and that has nothing to do, logs
/// nothing.
pub proof fn unchanged_reading_is_not_logged(s: State, cap: u8, state: ChargeState, now: u64)
    requires
        !s.debug,
        !s.changes(cap, state),
        !s.switches_thermal(state, now),
        !s.cuts_off(cap, state.charging()),
        !s.resumes(cap),
    ensures
        s.reading_step(Reading::Battery { cap, state }, now).logs.len() == 0,
        s.reading_step(Reading::Battery { cap, state }, now).next == TickNext::Done(
            state.charging(),
        ),
{
}

/// A reading that was just ticked on is not logged as a change again.
pub proof fn reading_is_remembered(
    s: State,
    cap: u8,
    state: ChargeState,
    now: u64,
    thermal_ok: bool,
    path_ok: bool,
)
    ensures
        !after_tick(s, Reading::Battery { cap, state }, now, thermal_ok, path_ok).changes(
            cap,
            state,
        ),
{
}

/// Whether the daemon knows of what it did to the nodes, given by path: where it takes the
/// charging path to be open the cut is not in force, and where it takes the thermal delimiter to
/// be off the last of its nodes is not set.
pub open spec fn is_known(s: State, nodes: Map<Seq<char>, Seq<char>>) -> bool {
    &&& s.cut is Charging ==> nodes[mtk::CURRENT_CMD_PATH@] != "1 1"@
    &&& !s.thermal_on ==> nodes[mtk::NTC_DISABLE_NAFG_PATH@] != "1"@
}

/// Whether the cut is not in force and the last of the thermal delimiter's nodes is not set.
pub open spec fn is_safe(nodes: Map<Seq<char>, Seq<char>>) -> bool {
    &&& nodes[mtk::CURRENT_CMD_PATH@] != "1 1"@
    &&& nodes[mtk::NTC_DISABLE_NAFG_PATH@] != "1"@
}

pub(crate) proof fn values_differ()
    ensures
        "0 0"@ != "1 1"@,
        "0"@ != "1"@,
{
    reveal_strlit("0 0");
    reveal_strlit("1 1");
    reveal_strlit("0");
    reveal_strlit("1");
    assert("0 0"@[0] == '0');
    assert("1 1"@[0] == '1');
    assert("0"@[0] == '0');
    assert("1"@[0] == '1');
}

proof fn other_nodes_stay(
    nodes: Map<Seq<char>, Seq<char>>,
    steps: Seq<mtk::SysOp>,
    node: Seq<char>,
)
    requires
        forall|i: int|
            0 <= i < steps.len() ==> (#[trigger] steps[i] matches mtk::SysOp::Write { path, value }
                ==> path@ != node),
    ensures
        mtk::after_steps(nodes, steps)[node] == nodes[node],
    decreases steps.len(),
{
    if steps.len() > 0 {
        other_nodes_stay(nodes, steps.drop_last(), node);
    }
}

/// A daemon that starts on safe nodes knows of what was done to them.
pub proof fn fresh_daemon_knows_safe_nodes(s: State, nodes: Map<Seq<char>, Seq<char>>)
    requires
        s.cut is Charging,
        !s.thermal_on,
    ensures
        is_known(s, nodes) <==> is_safe(nodes),
{
}

/// However far a command gets, the daemon knows of what it did to the nodes: `done` steps were
/// performed, and the command succeeded if those are all of them.
pub proof fn commands_stay_known(
    s: State,
    nodes: Map<Seq<char>, Seq<char>>,
    pending: Pending,
    done: int,
)
    requires
        is_known(s, nodes),
        0 <= done <= pending.mtk_command().steps().len(),
    ensures
        is_known(
            s.after_command(pending, done == pending.mtk_command().steps().len()),
            mtk::after_steps(nodes, pending.mtk_command().steps().take(done)),
        ),
{
    let steps = pending.mtk_command().steps();
    values_differ();
    mtk::paths_differ();
    assert(steps.take(steps.len() as int) =~= steps);
    mtk::cut_off_leaves(nodes);
    mtk::resume_leaves(nodes);
    mtk::disable_undoes_enable(nodes);
    match pending {
        Pending::CutOff => {
            other_nodes_stay(nodes, steps.take(done), mtk::NTC_DISABLE_NAFG_PATH@);
            if done < steps.len() {
                other_nodes_stay(nodes, steps.take(done), mtk::CURRENT_CMD_PATH@);
            }
        },
        Pending::Resume { charging } => {
            other_nodes_stay(nodes, steps.take(done), mtk::NTC_DISABLE_NAFG_PATH@);
            if done < steps.len() {
                other_nodes_stay(nodes, steps.take(done), mtk::CURRENT_CMD_PATH@);
            }
        },
        Pending::Thermal { cap, charging } => {
            other_nodes_stay(nodes, steps.take(done), mtk::CURRENT_CMD_PATH@);
            if done < steps.len() {
                other_nodes_stay(nodes, steps.take(done), mtk::NTC_DISABLE_NAFG_PATH@);
            }
        },
    }
}

/// The nodes after all commands of a list have been performed.
pub open spec fn after_acts(nodes: Map<Seq<char>, Seq<char>>, acts: Seq<Act>) -> Map<
    Seq<char>,
    Seq<char>,
>
    decreases acts.len(),
{
    if acts.len() == 0 {
        nodes
    } else {
        let before = after_acts(nodes, acts.drop_last());
        match acts.last() {
            Act::Run(c) => mtk::after_steps(before, c.steps()),
            Act::Log(_) => before,
        }
    }
}

proof fn after_acts_in_turn(nodes: Map<Seq<char>, Seq<char>>, a: Seq<Act>, b: Seq<Act>)
    ensures
        after_acts(nodes, a + b) == after_acts(after_acts(nodes, a), b),
    decreases b.len(),
{
    if b.len() == 0 {
        assert(a + b =~= a);
    } else {
        assert((a + b).drop_last() =~= a + b.drop_last());
        after_acts_in_turn(nodes, a, b.drop_last());
    }
}

/// The nodes with the thermal delimiter's nodes at their defaults.
pub open spec fn thermal_off(nodes: Map<Seq<char>, Seq<char>>) -> Map<Seq<char>, Seq<char>> {
    nodes.insert(mtk::DISABLE_NAFG_PATH@, "0"@).insert(mtk::NTC_DISABLE_NAFG_PATH@, "0"@)
}

/// The nodes with the charging path's nodes at their defaults.
pub open spec fn open_path(nodes: Map<Seq<char>, Seq<char>>) -> Map<Seq<char>, Seq<char>> {
    nodes.insert(mtk::EN_POWER_PATH@, "1"@).insert(mtk::CURRENT_CMD_PATH@, "0 0"@)
}

/// A shutdown whose commands succeed sets the thermal delimiter's nodes to their defaults if it
/// was on, and the charging path's if it was cut, and changes no other node. So it leaves the
/// nodes safe where the daemon knows of what was done to them: it takes back what it did.
pub proof fn shutdown_restores_the_nodes(s: State, nodes: Map<Seq<char>, Seq<char>>)
    ensures
        ({
            let cooled = if s.thermal_on {
                thermal_off(nodes)
            } else {
                nodes
            };
            after_acts(nodes, run::shutdown_acts(s)) == if s.cut is CutOff {
                open_path(cooled)
            } else {
                cooled
            }
        }),
        is_known(s, nodes) ==> is_safe(after_acts(nodes, run::shutdown_acts(s))),
{
    values_differ();
    mtk::paths_differ();
    let all = run::shutdown_acts(s);
    let last = seq![all.last()];
    let first = seq![all.first()];
    let thermal = if s.thermal_on {
        all.subrange(1, 3)
    } else {
        Seq::empty()
    };
    let path = if s.cut is CutOff {
        all.subrange(all.len() - 3, all.len() - 1)
    } else {
        Seq::empty()
    };
    assert(all =~= first + thermal + path + last);
    after_acts_in_turn(nodes, first + thermal + path, last);
    after_acts_in_turn(nodes, first + thermal, path);
    after_acts_in_turn(nodes, first, thermal);
    reveal_with_fuel(after_acts, 3);
    assert(first.drop_last() =~= Seq::empty());
    assert(last.drop_last() =~= Seq::empty());
    assert(after_acts(nodes, first) == nodes);
    let n1 = after_acts(nodes, thermal);
    if s.thermal_on {
        assert(thermal.drop_last().drop_last() =~= Seq::empty());
        assert(n1 == mtk::after_steps(nodes, mtk::thermal_steps("0")));
        mtk::disable_undoes_enable(nodes);
    }
    let n2 = after_acts(n1, path);
    if s.cut is CutOff {
        assert(path.drop_last().drop_last() =~= Seq::empty());
        assert(n2 == mtk::after_steps(n1, mtk::resume_steps()));
        mtk::resume_leaves(n1);
    }
    assert(after_acts(n2, last) == n2);
}

/// A cleanup that finds the nodes restores them whatever comes of its commands: it disables the
/// thermal delimiter, then resumes charging. Where both succeed all four nodes have their
/// defaults, whatever they held before, and no other node changed; so the nodes are safe.
pub proof fn cleanup_restores_the_nodes(
    log: Seq<char>,
    thermal: Result<(), mtk::MtkError>,
    nodes: Map<Seq<char>, Seq<char>>,
)
    ensures
        cleanup::cleanup_next(log, CleanupEvent::PathsChecked(true)) == NextView::Run(
            MtkCommand::DisableThermalDelimiter,
        ),
        cleanup::cleanup_next(log, CleanupEvent::ThermalDone(thermal)) == NextView::Run(
            MtkCommand::ResumeCharging,
        ),
        ({
            let after = mtk::after_steps(
                mtk::after_steps(nodes, MtkCommand::DisableThermalDelimiter.steps()),
                MtkCommand::ResumeCharging.steps(),
            );
            &&& after == open_path(thermal_off(nodes))
            &&& is_safe(after)
        }),
{
    values_differ();
    mtk::paths_differ();
    mtk::disable_undoes_enable(nodes);
    mtk::resume_leaves(mtk::after_steps(nodes, MtkCommand::DisableThermalDelimiter.steps()));
}

/// The files that a cleanup leaves, by name, where every file operation that it asks for
/// succeeds and the event `event` has just come. There is none where it takes more than `fuel`
/// events.
pub open spec fn files_after_cleanup(
    log: Seq<char>,
    files: Map<Seq<char>, Seq<u8>>,
    nodes_exist: bool,
    event: CleanupEvent,
    fuel: nat,
) -> Option<Map<Seq<char>, Seq<u8>>>
    decreases fuel,
{
    if fuel == 0 {
        None
    } else {
        let more = (fuel - 1) as nat;
        match cleanup::cleanup_next(log, event) {
            NextView::CheckPaths => files_after_cleanup(
                log,
                files,
                nodes_exist,
                CleanupEvent::PathsChecked(nodes_exist),
                more,
            ),
            NextView::Run(MtkCommand::DisableThermalDelimiter) => files_after_cleanup(
                log,
                files,
                nodes_exist,
                CleanupEvent::ThermalDone(Ok(())),
                more,
            ),
            NextView::Run(_) => files_after_cleanup(
                log,
                files,
                nodes_exist,
                CleanupEvent::ResumeDone(Ok(())),
                more,
            ),
            NextView::CheckLog { path } => files_after_cleanup(
                log,
                files,
                nodes_exist,
                CleanupEvent::LogChecked(files.dom().contains(path)),
                more,
            ),
            NextView::CheckLastboot { path } => files_after_cleanup(
                log,
                files,
                nodes_exist,
                CleanupEvent::LastbootChecked(files.dom().contains(path)),
                more,
            ),
            NextView::Remove { path } => files_after_cleanup(
                log,
                files.remove(path),
                nodes_exist,
                CleanupEvent::LastbootRemoved,
                more,
            ),
            NextView::Rename { from, to } => files_after_cleanup(
                log,
                files.remove(from).insert(to, files[from]),
                nodes_exist,
                CleanupEvent::Renamed(Ok(())),
                more,
            ),
            NextView::CreateFresh { dir, path } => files_after_cleanup(
                log,
                files.insert(path, Seq::empty()),
                nodes_exist,
                CleanupEvent::FreshLog(true),
                more,
            ),
            NextView::Exit(_) => Some(files),
        }
    }
}

/// A cleanup leaves an empty log. The previous boot's log holds what the log held, and replaces
/// the one of an earlier boot; where there was no log, it stays as it was. No other file
/// changes.
pub proof fn cleanup_puts_the_log_aside(
    log: Seq<char>,
    files: Map<Seq<char>, Seq<u8>>,
    nodes_exist: bool,
    boot_id: String,
)
    ensures
        files_after_cleanup(log, files, nodes_exist, CleanupEvent::Started { boot_id }, 10) == Some(
            if files.dom().contains(log) {
                files.insert(cleanup::lastboot_path(log), files[log]).insert(log, Seq::empty())
            } else {
                files.insert(log, Seq::empty())
            },
        ),
{
    let last = cleanup::lastboot_path(log);
    cleanup::lastboot_is_another_file(log);
    reveal_with_fuel(files_after_cleanup, 10);
    if files.dom().contains(log) {
        let goal = files.insert(last, files[log]).insert(log, Seq::empty());
        if files.dom().contains(last) {
            assert(files.remove(last).remove(log).insert(last, files[log]).insert(
                log,
                Seq::empty(),
            ) =~= goal);
        } else {
            assert(files.remove(log).insert(last, files[log]).insert(log, Seq::empty()) =~= goal);
        }
    }
}

} // verus!
