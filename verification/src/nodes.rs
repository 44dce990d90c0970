//! What the MediaTek nodes hold while the daemon runs and its commands succeed.

use vstd::prelude::*;
use crate::battery::ChargeState;
use crate::daemon::Pending;
use crate::daemon::Reading;
use crate::daemon::State;
use crate::daemon::TickNext;
use crate::history;
use crate::history::Work;
use crate::history::World;
use crate::laws;
use crate::mtk;
use crate::mtk::MtkCommand;

verus! {

/// Whether every command of a tick is performed to its end: none has more than five steps.
pub open spec fn succeeds(work: Work) -> bool {
    work.thermal_steps >= 5 && work.path_steps >= 5
}

/// Whether the nodes hold what the daemon takes them to hold: the thermal delimiter's are both at
/// `1` if it is on and both at `0` if it is off, the current command is `1 1` if charging is cut
/// off and `0 0` if it is not, and the power path is on.
pub open spec fn nodes_agree(w: World) -> bool {
    &&& w.nodes[mtk::DISABLE_NAFG_PATH@] == if w.state.thermal_on {
        "1"@
    } else {
        "0"@
    }
    &&& w.nodes[mtk::NTC_DISABLE_NAFG_PATH@] == if w.state.thermal_on {
        "1"@
    } else {
        "0"@
    }
    &&& w.nodes[mtk::CURRENT_CMD_PATH@] == if w.state.cut is CutOff {
        "1 1"@
    } else {
        "0 0"@
    }
    &&& w.nodes[mtk::EN_POWER_PATH@] == "1"@
}

proof fn whole_command(w: World, pending: Pending, done: nat)
    requires
        done >= 5,
    ensures
        history::after_partial_command(w, pending, done) == (World {
            state: w.state.after_command(pending, true),
            nodes: mtk::after_steps(w.nodes, pending.mtk_command().steps()),
        }),
{
    let steps = pending.mtk_command().steps();
    assert(steps.len() <= 5);
    assert(steps.take(steps.len() as int) =~= steps);
}

proof fn thermal_command_in_the_nodes(w: World, cap: u8, charging: bool, done: nat)
    requires
        done >= 5,
    ensures
        ({
            let after = history::after_partial_command(
                w,
                Pending::Thermal { cap, charging },
                done,
            );
            let value = if charging {
                "1"@
            } else {
                "0"@
            };
            &&& after.state.thermal_on == charging
            &&& after.state.cut == w.state.cut
            &&& after.state.cutoff == w.state.cutoff && after.state.resume == w.state.resume
            &&& after.nodes == w.nodes.insert(mtk::DISABLE_NAFG_PATH@, value).insert(
                mtk::NTC_DISABLE_NAFG_PATH@,
                value,
            )
        }),
{
    whole_command(w, Pending::Thermal { cap, charging }, done);
    mtk::performed_commands_show_in_the_nodes(
        Pending::Thermal { cap, charging }.mtk_command(),
        w.nodes,
    );
}

proof fn path_command_in_the_nodes(w: World, cap: u8, charging: bool, done: nat)
    requires
        done >= 5,
    ensures
        w.state.path_step(cap, charging).next matches TickNext::Run(pending) ==> {
            let after = history::after_partial_command(w, pending, done);
            let cut = charging && w.state.cut is Charging && cap >= w.state.cutoff;
            &&& after.state.cut is CutOff <==> cut
            &&& after.state.thermal_on == w.state.thermal_on
            &&& after.nodes == w.nodes.insert(mtk::EN_POWER_PATH@, "1"@).insert(
                mtk::CURRENT_CMD_PATH@,
                if cut {
                    "1 1"@
                } else {
                    "0 0"@
                },
            )
        },
{
    if let TickNext::Run(pending) = w.state.path_step(cap, charging).next {
        whole_command(w, pending, done);
        mtk::performed_commands_show_in_the_nodes(pending.mtk_command(), w.nodes);
    }
}

/// A tick whose commands succeed writes exactly what it decides. Whatever the capacity is, if it
/// switches the thermal delimiter both of its nodes are at `1` afterwards where the battery is
/// charging, and at `0` where it is not; otherwise they stay. If it cuts charging off the current
/// command is `1 1` afterwards, if it resumes it is `0 0`; otherwise that stays.
pub proof fn ticks_write_what_they_decide(w: World, work: Work, cap: u8, state: ChargeState)
    requires
        succeeds(work),
        work.reading == (Reading::Battery { cap, state }),
    ensures
        ({
            let after = history::after_work(w, work);
            let charging = state is Charging;
            &&& after.state.thermal_on != w.state.thermal_on ==> {
                let value = if charging {
                    "1"@
                } else {
                    "0"@
                };
                &&& after.state.thermal_on == charging
                &&& after.nodes[mtk::DISABLE_NAFG_PATH@] == value
                &&& after.nodes[mtk::NTC_DISABLE_NAFG_PATH@] == value
            }
            &&& after.state.thermal_on == w.state.thermal_on ==> {
                &&& after.nodes[mtk::DISABLE_NAFG_PATH@] == w.nodes[mtk::DISABLE_NAFG_PATH@]
                &&& after.nodes[mtk::NTC_DISABLE_NAFG_PATH@]
                    == w.nodes[mtk::NTC_DISABLE_NAFG_PATH@]
            }
            &&& after.state.cut != w.state.cut ==> {
                &&& after.nodes[mtk::EN_POWER_PATH@] == "1"@
                &&& after.nodes[mtk::CURRENT_CMD_PATH@] == if after.state.cut is CutOff {
                    "1 1"@
                } else {
                    "0 0"@
                }
            }
            &&& after.state.cut == w.state.cut ==> {
                &&& after.nodes[mtk::EN_POWER_PATH@] == w.nodes[mtk::EN_POWER_PATH@]
                &&& after.nodes[mtk::CURRENT_CMD_PATH@] == w.nodes[mtk::CURRENT_CMD_PATH@]
            }
            &&& after.state.cut is CutOff <==> if w.state.cut is CutOff {
                cap > w.state.resume
            } else {
                charging && cap >= w.state.cutoff
            }
        }),
{
    mtk::paths_differ();
    let charging = state.charging();
    let observed = World {
        state: w.state.after_reading(work.reading, work.now),
        nodes: w.nodes,
    };
    path_command_in_the_nodes(observed, cap, charging, work.path_steps);
    assert(observed.state.path_step(cap, charging).next == w.state.path_step(cap, charging).next);
    if w.state.switches_thermal(state, work.now) {
        thermal_command_in_the_nodes(observed, cap, charging, work.thermal_steps);
        let switched = history::after_partial_command(
            observed,
            Pending::Thermal { cap, charging },
            work.thermal_steps,
        );
        path_command_in_the_nodes(switched, cap, charging, work.path_steps);
    }
}

/// A tick whose reading failed writes nothing.
pub proof fn failed_readings_write_nothing(w: World, work: Work)
    requires
        !(work.reading is Battery),
    ensures
        history::after_work(w, work).nodes == w.nodes,
        history::after_work(w, work).state.thermal_on == w.state.thermal_on,
        history::after_work(w, work).state.cut == w.state.cut,
{
}

/// As long as its commands succeed the daemon takes the nodes to hold what they hold, over any
/// number of ticks: the thermal delimiter is on exactly if its nodes are at `1`, and charging is
/// cut off exactly if the current command is `1 1`.
pub proof fn nodes_agree_all_along(w: World, works: Seq<Work>)
    requires
        nodes_agree(w),
        forall|i: int| 0 <= i < works.len() ==> succeeds(#[trigger] works[i]),
    ensures
        ({
            let after = history::after_works(w, works);
            &&& nodes_agree(after)
            &&& after.state.thermal_on <==> after.nodes[mtk::DISABLE_NAFG_PATH@] == "1"@
            &&& after.state.thermal_on <==> after.nodes[mtk::NTC_DISABLE_NAFG_PATH@] == "1"@
            &&& after.state.cut is CutOff <==> after.nodes[mtk::CURRENT_CMD_PATH@] == "1 1"@
        }),
    decreases works.len(),
{
    laws::values_differ();
    if works.len() > 0 {
        let earlier = works.drop_last();
        assert forall|i: int| 0 <= i < earlier.len() implies succeeds(#[trigger] earlier[i]) by {
            assert(earlier[i] == works[i]);
        }
        nodes_agree_all_along(w, earlier);
        let before = history::after_works(w, earlier);
        let work = works.last();
        assert(succeeds(works[works.len() - 1]));
        match work.reading {
            Reading::Battery { cap, state } => {
                ticks_write_what_they_decide(before, work, cap, state);
            },
            _ => {
                failed_readings_write_nothing(before, work);
            },
        }
    }
}

/// A daemon that starts after a cleanup that succeeded starts on nodes that hold what it takes
/// them to hold, whatever they held before the cleanup.
pub proof fn cleanup_makes_the_nodes_agree(state: State, nodes: Map<Seq<char>, Seq<char>>)
    requires
        state.cut is Charging,
        !state.thermal_on,
    ensures
        ({
            let restored = mtk::after_steps(
                mtk::after_steps(nodes, MtkCommand::DisableThermalDelimiter.steps()),
                MtkCommand::ResumeCharging.steps(),
            );
            nodes_agree(World { state, nodes: restored })
        }),
{
    mtk::paths_differ();
    let cooled = mtk::after_steps(nodes, MtkCommand::DisableThermalDelimiter.steps());
    mtk::performed_commands_show_in_the_nodes(MtkCommand::DisableThermalDelimiter, nodes);
    mtk::performed_commands_show_in_the_nodes(MtkCommand::ResumeCharging, cooled);
}

/// A pending switch of the thermal delimiter enables it while charging and disables it otherwise,
/// at every capacity; a pending cut cuts off, and a pending resume resumes.
pub proof fn pending_commands_do_what_they_say(cap: u8, charging: bool)
    ensures
        (Pending::Thermal { cap, charging: true }).mtk_command() is EnableThermalDelimiter,
        (Pending::Thermal { cap, charging: false }).mtk_command() is DisableThermalDelimiter,
        Pending::CutOff.mtk_command() is CutOffCharging,
        (Pending::Resume { charging }).mtk_command() is ResumeCharging,
{
}

} // verus!
