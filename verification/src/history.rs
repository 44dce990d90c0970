//! What holds of the daemon over any number of ticks and events.

use vstd::prelude::*;
use crate::battery::ChargeState;
use crate::daemon::Pending;
use crate::daemon::Reading;
use crate::daemon::State;
use crate::daemon::TickNext;
use crate::laws;
use crate::logger;
use crate::mtk;
use crate::mtk::MtkError;
use crate::run;
use crate::run::RunEvent;
use crate::run::RunNext;
use crate::uevent;

verus! {

/// What a daemon lives through between two points of its life.
pub enum Happening {
    /// A whole tick, whose commands end as told.
    Tick { reading: Reading, now: u64, thermal_ok: bool, path_ok: bool },
    /// An event of the daemon's life.
    Event(RunEvent),
}

/// The state after one of them.
pub open spec fn after_happening(s: State, h: Happening) -> State {
    match h {
        Happening::Tick { reading, now, thermal_ok, path_ok } => laws::after_tick(
            s,
            reading,
            now,
            thermal_ok,
            path_ok,
        ),
        Happening::Event(event) => State { stats: run::run_stats(s.stats, event), ..s },
    }
}

/// The state after all of them, in order.
pub open spec fn after_all(s: State, history: Seq<Happening>) -> State
    decreases history.len(),
{
    if history.len() == 0 {
        s
    } else {
        after_happening(after_all(s, history.drop_last()), history.last())
    }
}

/// Whether every capacity that was read is below `limit`.
pub open spec fn stays_below(history: Seq<Happening>, limit: u8) -> bool {
    forall|i: int|
        0 <= i < history.len() ==> (#[trigger] history[i] matches Happening::Tick {
            reading: Reading::Battery { cap, state },
            now,
            thermal_ok,
            path_ok,
        } ==> cap < limit)
}

/// Whether every capacity that was read is above `limit`.
pub open spec fn stays_above(history: Seq<Happening>, limit: u8) -> bool {
    forall|i: int|
        0 <= i < history.len() ==> (#[trigger] history[i] matches Happening::Tick {
            reading: Reading::Battery { cap, state },
            now,
            thermal_ok,
            path_ok,
        } ==> cap > limit)
}

/// Nothing that a daemon lives through changes its settings or its boot.
pub proof fn settings_stay(s: State, history: Seq<Happening>)
    ensures
        after_all(s, history).cutoff == s.cutoff,
        after_all(s, history).resume == s.resume,
        after_all(s, history).debug == s.debug,
        after_all(s, history).log_file == s.log_file,
        after_all(s, history).boot_id == s.boot_id,
    decreases history.len(),
{
    if history.len() > 0 {
        settings_stay(s, history.drop_last());
    }
}

/// As long as the capacity stays below the cutoff, an open charging path stays open.
pub proof fn path_stays_open_below_the_cutoff(s: State, history: Seq<Happening>)
    requires
        s.cut is Charging,
        stays_below(history, s.cutoff),
    ensures
        after_all(s, history).cut is Charging,
    decreases history.len(),
{
    if history.len() > 0 {
        let earlier = history.drop_last();
        assert(stays_below(earlier, s.cutoff)) by {
            assert forall|i: int| 0 <= i < earlier.len() implies (
            #[trigger] earlier[i] matches Happening::Tick {
                reading: Reading::Battery { cap, state },
                now,
                thermal_ok,
                path_ok,
            } ==> cap < s.cutoff) by {
                assert(earlier[i] == history[i]);
            }
        }
        path_stays_open_below_the_cutoff(s, earlier);
        settings_stay(s, earlier);
        assert(history[history.len() - 1] == history.last());
    }
}

/// Once charging is cut off it stays cut off as long as the capacity stays above the resume
/// threshold, however often the cutoff is passed meanwhile.
pub proof fn path_stays_cut_above_the_resume(s: State, history: Seq<Happening>)
    requires
        s.cut is CutOff,
        stays_above(history, s.resume),
    ensures
        after_all(s, history).cut is CutOff,
    decreases history.len(),
{
    if history.len() > 0 {
        let earlier = history.drop_last();
        assert(stays_above(earlier, s.resume)) by {
            assert forall|i: int| 0 <= i < earlier.len() implies (
            #[trigger] earlier[i] matches Happening::Tick {
                reading: Reading::Battery { cap, state },
                now,
                thermal_ok,
                path_ok,
            } ==> cap > s.resume) by {
                assert(earlier[i] == history[i]);
            }
        }
        path_stays_cut_above_the_resume(s, earlier);
        settings_stay(s, earlier);
        assert(history[history.len() - 1] == history.last());
    }
}

/// Whether the counters fit the state: every event received was either relevant or not, charging
/// was cut off once more than it was resumed if it is cut off now, and as often otherwise, and
/// the thermal delimiter was switched an odd number of times if it is on. The counters wrap
/// around, and so do their sums.
pub open spec fn counters_fit(s: State) -> bool {
    &&& s.stats.events_received == s.stats.events_relevant.wrapping_add(s.stats.events_irrelevant)
    &&& s.stats.cut_events == if s.cut is CutOff {
        logger::successor(s.stats.resume_events)
    } else {
        s.stats.resume_events
    }
    &&& s.stats.thermal_toggles % 2 == if s.thermal_on {
        1u64
    } else {
        0u64
    }
}

proof fn event_keeps_counters_fitting(s: State, event: RunEvent)
    requires
        counters_fit(s),
    ensures
        counters_fit(after_happening(s, Happening::Event(event))),
{
}

proof fn thermal_command_keeps_counters_fitting(s: State, cap: u8, charging: bool, ok: bool)
    requires
        counters_fit(s),
        charging != s.thermal_on,
    ensures
        counters_fit(s.after_command(Pending::Thermal { cap, charging }, ok)),
{
}

proof fn path_command_keeps_counters_fitting(s: State, cap: u8, charging: bool, ok: bool)
    requires
        counters_fit(s),
    ensures
        s.path_step(cap, charging).next matches TickNext::Run(pending) ==> counters_fit(
            s.after_command(pending, ok),
        ),
{
}

proof fn tick_keeps_counters_fitting(
    s: State,
    reading: Reading,
    now: u64,
    thermal_ok: bool,
    path_ok: bool,
)
    requires
        counters_fit(s),
    ensures
        counters_fit(laws::after_tick(s, reading, now, thermal_ok, path_ok)),
{
    let observed = s.after_reading(reading, now);
    assert(counters_fit(observed));
    if let Reading::Battery { cap, state } = reading {
        let charging = state.charging();
        path_command_keeps_counters_fitting(observed, cap, charging, path_ok);
        assert(observed.path_step(cap, charging).next == s.path_step(cap, charging).next);
        if s.switches_thermal(state, now) {
            let pending = Pending::Thermal { cap, charging };
            thermal_command_keeps_counters_fitting(observed, cap, charging, thermal_ok);
            path_command_keeps_counters_fitting(
                observed.after_command(pending, thermal_ok),
                cap,
                charging,
                path_ok,
            );
        }
    }
}

/// Counters that fit the state go on fitting it, whatever the daemon lives through.
pub proof fn counters_keep_fitting(s: State, history: Seq<Happening>)
    requires
        counters_fit(s),
    ensures
        counters_fit(after_all(s, history)),
    decreases history.len(),
{
    if history.len() > 0 {
        counters_keep_fitting(s, history.drop_last());
        let before = after_all(s, history.drop_last());
        match history.last() {
            Happening::Tick { reading, now, thermal_ok, path_ok } => {
                tick_keeps_counters_fitting(before, reading, now, thermal_ok, path_ok);
            },
            Happening::Event(event) => {
                event_keeps_counters_fitting(before, event);
            },
        }
    }
}

/// The counters of a fresh daemon fit its state.
pub proof fn fresh_counters_fit(s: State)
    requires
        s.cut is Charging,
        !s.thermal_on,
        s.stats.is_zero(),
    ensures
        counters_fit(s),
{
}

/// How many of them are ticks.
pub open spec fn tick_count(history: Seq<Happening>) -> nat
    decreases history.len(),
{
    if history.len() == 0 {
        0
    } else {
        tick_count(history.drop_last()) + if history.last() is Tick {
            1nat
        } else {
            0nat
        }
    }
}

/// Whether this is a kernel event about the battery.
pub open spec fn is_relevant_event(h: Happening) -> bool {
    h matches Happening::Event(RunEvent::Received { message }) && uevent::relevant(message@)
}

/// How many of them are kernel events about the battery.
pub open spec fn relevant_count(history: Seq<Happening>) -> nat
    decreases history.len(),
{
    if history.len() == 0 {
        0
    } else {
        relevant_count(history.drop_last()) + if is_relevant_event(history.last()) {
            1nat
        } else {
            0nat
        }
    }
}

proof fn successors_wrap_alike(n: int, range: int)
    requires
        range > 1,
    ensures
        (n + 1) % range == (n % range + 1) % range,
{
    vstd::arithmetic::div_mod::lemma_add_mod_noop(n, 1, range);
    vstd::arithmetic::div_mod::lemma_small_mod(1, range as nat);
}

proof fn successor_wraps(n: int, count: u64)
    requires
        count as int == n % (u64::MAX + 1),
    ensures
        logger::successor(count) as int == (n + 1) % (u64::MAX + 1),
{
    successors_wrap_alike(n, u64::MAX + 1);
}

proof fn one_happening_is_counted(s: State, h: Happening)
    ensures
        after_happening(s, h).stats.ticks == if h is Tick {
            logger::successor(s.stats.ticks)
        } else {
            s.stats.ticks
        },
        after_happening(s, h).stats.events_relevant == if is_relevant_event(h) {
            logger::successor(s.stats.events_relevant)
        } else {
            s.stats.events_relevant
        },
{
}

/// The counter of ticks counts the ticks, and that of relevant events the kernel events about the
/// battery; both wrap around.
pub proof fn ticks_and_relevant_events_are_counted(s: State, history: Seq<Happening>)
    ensures
        after_all(s, history).stats.ticks as int == (s.stats.ticks + tick_count(history)) % (
        u64::MAX + 1),
        after_all(s, history).stats.events_relevant as int == (s.stats.events_relevant
            + relevant_count(history)) % (u64::MAX + 1),
    decreases history.len(),
{
    if history.len() > 0 {
        let earlier = history.drop_last();
        let before = after_all(s, earlier);
        ticks_and_relevant_events_are_counted(s, earlier);
        one_happening_is_counted(before, history.last());
        successor_wraps(s.stats.ticks + tick_count(earlier), before.stats.ticks);
        successor_wraps(
            s.stats.events_relevant + relevant_count(earlier),
            before.stats.events_relevant,
        );
    }
}

/// Whether `h` is what comes of doing what is to be done next.
pub open spec fn answers(next: RunNext, h: Happening) -> bool {
    match next {
        RunNext::CheckPaths => h matches Happening::Event(e) && e is PathsChecked,
        RunNext::OpenListener => h matches Happening::Event(e) && e is ListenerOpened,
        RunNext::Tick => h is Tick,
        RunNext::CheckRunning => h matches Happening::Event(e) && e is Running,
        RunNext::Receive => h matches Happening::Event(e) && (e is Received || e is Interrupted
            || e is ReceiveFailed),
        RunNext::Drain => h matches Happening::Event(e) && e is Drained,
        RunNext::Sleep { millis } => h matches Happening::Event(e) && e is Retry,
        RunNext::Shutdown => false,
        RunNext::Exit(code) => false,
    }
}

/// Whether `h` can come right after `before`. The end of a tick is an event of its own.
pub open spec fn follows(before: Happening, h: Happening) -> bool {
    match before {
        Happening::Tick { reading, now, thermal_ok, path_ok } => h matches Happening::Event(e)
            && e is TickDone,
        Happening::Event(event) => answers(run::run_next(event), h),
    }
}

/// Whether this is a run of the daemon from its start on: each time what was asked for is done.
pub open spec fn is_run(history: Seq<Happening>) -> bool {
    &&& history.len() > 0
    &&& history[0] matches Happening::Event(e) && e is Started
    &&& forall|i: int|
        1 <= i < history.len() ==> follows(history[i - 1], #[trigger] history[i])
}

/// Whether the daemon is still starting: it has not come to its first tick.
pub open spec fn is_starting(h: Happening) -> bool {
    h matches Happening::Event(e) && (e is Started || e is PathsChecked || e is ListenerOpened)
}

/// Whether an event about the battery came and its tick is still to come.
pub open spec fn tick_is_due(h: Happening) -> bool {
    is_relevant_event(h) || (h matches Happening::Event(e) && e is Drained)
}

/// Over a run there is the first tick and then one for each kernel event about the battery. Until
/// the first tick there is neither; between such an event and its tick the tick is missing yet.
pub proof fn one_tick_for_each_relevant_event(history: Seq<Happening>)
    requires
        is_run(history),
    ensures
        tick_count(history) == if is_starting(history.last()) {
            0
        } else if tick_is_due(history.last()) {
            relevant_count(history)
        } else {
            relevant_count(history) + 1
        },
        is_starting(history.last()) ==> relevant_count(history) == 0,
    decreases history.len(),
{
    let earlier = history.drop_last();
    if earlier.len() == 0 {
        assert(history.last() == history[0]);
        assert(tick_count(earlier) == 0);
        assert(relevant_count(earlier) == 0);
    } else {
        assert forall|i: int| 1 <= i < earlier.len() implies follows(
            earlier[i - 1],
            #[trigger] earlier[i],
        ) by {
            assert(earlier[i] == history[i]);
            assert(earlier[i - 1] == history[i - 1]);
        }
        one_tick_for_each_relevant_event(earlier);
        assert(follows(history[history.len() - 2], history[history.len() - 1]));
        assert(earlier.last() == history[history.len() - 2]);
    }
}

/// When a daemon that started with all counters at zero is between two waits, its counter of
/// ticks is one ahead of that of relevant events.
pub proof fn ticks_are_one_ahead(s: State, history: Seq<Happening>)
    requires
        s.stats.is_zero(),
        is_run(history),
        !is_starting(history.last()),
        !tick_is_due(history.last()),
    ensures
        after_all(s, history).stats.ticks as int == (after_all(s, history).stats.events_relevant
            + 1) % (u64::MAX + 1),
{
    ticks_and_relevant_events_are_counted(s, history);
    one_tick_for_each_relevant_event(history);
    successors_wrap_alike(relevant_count(history) as int, u64::MAX + 1);
}

/// A tick takes two commands at most: one for the thermal delimiter, then one for the charging
/// path. It ends by telling whether the battery is charging.
pub proof fn tick_ends_within_two_commands(
    s: State,
    cap: u8,
    state: ChargeState,
    now: u64,
    first: Result<(), MtkError>,
    second: Result<(), MtkError>,
)
    ensures
        ({
            let reading = Reading::Battery { cap, state };
            let observed = s.after_reading(reading, now);
            match s.reading_step(reading, now).next {
                TickNext::Done(charging) => charging == state.charging(),
                TickNext::Run(one) => {
                    let once = observed.after_command(one, first is Ok);
                    match once.command_step(one, first).next {
                        TickNext::Done(charging) => charging == state.charging(),
                        TickNext::Run(two) => {
                            let twice = once.after_command(two, second is Ok);
                            &&& one is Thermal
                            &&& !(two is Thermal)
                            &&& twice.command_step(two, second).next == TickNext::Done(
                                state.charging(),
                            )
                        },
                    }
                },
            }
        }),
{
}

/// The daemon acts on events alone: apart from the first tick, each tick follows a kernel event
/// about the battery, whose successors in the queue have been passed over; other events change
/// counters only; and the only timed wait is the one after the event socket failed.
pub proof fn ticks_follow_kernel_events(event: RunEvent)
    ensures
        run::run_next(event) is Tick <==> event is Drained || (
        event matches RunEvent::ListenerOpened(r) && r is Ok),
        run::run_next(event) is Drain <==> (event matches RunEvent::Received { message }
            && uevent::relevant(message@)),
        run::run_next(event) is Sleep <==> event is ReceiveFailed,
        run::run_next(event) is Shutdown <==> event == RunEvent::Running(false),
{
}

/// Without the nodes or without the event socket the daemon exits at once, with code 1; it exits
/// so on nothing else.
pub proof fn startup_needs_nodes_and_socket(event: RunEvent)
    ensures
        run::run_next(event) is Exit <==> event == RunEvent::PathsChecked(false) || (
        event matches RunEvent::ListenerOpened(r) && r is Err),
        run::run_next(event) matches RunNext::Exit(code) ==> code == 1,
{
}

/// A daemon and the nodes that it writes, given by path.
pub struct World {
    /// What the daemon's decisions rest on.
    pub state: State,
    /// The nodes' values.
    pub nodes: Map<Seq<char>, Seq<char>>,
}

/// A tick in the world: what is read, when, and how many steps of each of its commands are
/// performed before one fails.
pub struct Work {
    /// What came of reading the battery's nodes.
    pub reading: Reading,
    /// The time.
    pub now: u64,
    /// The steps performed of the thermal delimiter's command.
    pub thermal_steps: nat,
    /// The steps performed of the command for the charging path.
    pub path_steps: nat,
}

/// The world after the first `done` steps of a command, or all of them if there are fewer. The
/// command succeeds if those are all.
pub open spec fn after_partial_command(w: World, pending: Pending, done: nat) -> World {
    let steps = pending.mtk_command().steps();
    let n = if done < steps.len() {
        done as int
    } else {
        steps.len() as int
    };
    World {
        state: w.state.after_command(pending, n == steps.len()),
        nodes: mtk::after_steps(w.nodes, steps.take(n)),
    }
}

/// The world after a whole tick.
pub open spec fn after_work(w: World, work: Work) -> World {
    let observed = World { state: w.state.after_reading(work.reading, work.now), nodes: w.nodes };
    match w.state.reading_step(work.reading, work.now).next {
        TickNext::Done(_) => observed,
        TickNext::Run(Pending::Thermal { cap, charging }) => {
            let switched = after_partial_command(
                observed,
                Pending::Thermal { cap, charging },
                work.thermal_steps,
            );
            match switched.state.path_step(cap, charging).next {
                TickNext::Done(_) => switched,
                TickNext::Run(pending) => after_partial_command(switched, pending, work.path_steps),
            }
        },
        TickNext::Run(pending) => after_partial_command(observed, pending, work.path_steps),
    }
}

/// The world after any number of ticks.
pub open spec fn after_works(w: World, works: Seq<Work>) -> World
    decreases works.len(),
{
    if works.len() == 0 {
        w
    } else {
        after_work(after_works(w, works.drop_last()), works.last())
    }
}

proof fn command_keeps_world_known(w: World, pending: Pending, done: nat)
    requires
        laws::is_known(w.state, w.nodes),
    ensures
        ({
            let after = after_partial_command(w, pending, done);
            laws::is_known(after.state, after.nodes)
        }),
{
    let steps = pending.mtk_command().steps();
    let n = if done < steps.len() {
        done as int
    } else {
        steps.len() as int
    };
    laws::commands_stay_known(w.state, w.nodes, pending, n);
}

proof fn work_keeps_world_known(w: World, work: Work)
    requires
        laws::is_known(w.state, w.nodes),
    ensures
        laws::is_known(after_work(w, work).state, after_work(w, work).nodes),
{
    let observed = World { state: w.state.after_reading(work.reading, work.now), nodes: w.nodes };
    match w.state.reading_step(work.reading, work.now).next {
        TickNext::Done(_) => {},
        TickNext::Run(first) => {
            command_keeps_world_known(observed, first, work.thermal_steps);
            command_keeps_world_known(observed, first, work.path_steps);
            if let Pending::Thermal { cap, charging } = first {
                let switched = after_partial_command(observed, first, work.thermal_steps);
                if let TickNext::Run(second) = switched.state.path_step(cap, charging).next {
                    command_keeps_world_known(switched, second, work.path_steps);
                }
            }
        },
    }
}

/// A daemon that starts on safe nodes knows of what it did to them all its life, however its
/// commands end; so a shutdown whose commands succeed leaves the nodes safe.
pub proof fn shutdown_takes_back_a_whole_life(w: World, works: Seq<Work>)
    requires
        w.state.cut is Charging,
        !w.state.thermal_on,
        laws::is_safe(w.nodes),
    ensures
        ({
            let end = after_works(w, works);
            &&& laws::is_known(end.state, end.nodes)
            &&& laws::is_safe(laws::after_acts(end.nodes, run::shutdown_acts(end.state)))
        }),
    decreases works.len(),
{
    if works.len() > 0 {
        shutdown_takes_back_a_whole_life(w, works.drop_last());
        work_keeps_world_known(after_works(w, works.drop_last()), works.last());
    }
    let end = after_works(w, works);
    laws::shutdown_restores_the_nodes(end.state, end.nodes);
}

} // verus!
