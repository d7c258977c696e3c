//! What holds of the manager of the child process over any number of steps.

use vstd::prelude::*;

use crate::command::{
    kill_by_name, kill_by_pid, launch_script, powershell_bypass, CommandLine, REMOVE_TUN_SCRIPT,
};
use crate::config_laws::{is_blank, law_white_space_around_is_trimmed};
use crate::manager::{
    launch_failed, manager_expects, manager_step, manager_wf, target_named, AppTarget, Ask,
    ChildCommand, DialogCommand, Effect, Event, IconCommand, InstallStatus, ManagerEvent,
    ManagerState, Phase, AUTO_START_ATTEMPTS,
};
use crate::path::law_stem_and_extension_of_a_name;
use crate::text::{decimal, law_decimal_is_digits, law_decimal_reads_back, number, trimmed};

verus! {

/// The flag that says whether the child runs is set whenever that changes, and never to
/// anything else than what is so. The tray is told that the child runs only when it does.
pub proof fn law_running_flag_is_true_to_the_child(m: ManagerState, event: ManagerEvent)
    requires
        manager_wf(m),
        manager_expects(m, event),
    ensures
        forall|i: int|
            0 <= i < manager_step(m, event).1.len() ==> match #[trigger] manager_step(
                m,
                event,
            ).1[i] {
                Effect::SetRunning(running) => running == (manager_step(m, event).0.child is Some),
                Effect::ShowRunning(running) => running ==> manager_step(m, event).0.child is Some,
                _ => true,
            },
        (m.child is Some) != (manager_step(m, event).0.child is Some) ==> manager_step(
            m,
            event,
        ).1.contains(Effect::SetRunning(manager_step(m, event).0.child is Some)),
{
    let next = manager_step(m, event);
    if (m.child is Some) != (next.0.child is Some) {
        if next.0.child is Some || m.phase is Watching {
            assert(next.1[1] == Effect::<Seq<char>>::SetRunning(next.0.child is Some));
        } else {
            assert(next.1[0] == Effect::<Seq<char>>::SetRunning(next.0.child is Some));
        }
    }
}

/// The child is launched, and kept, only when there is none.
pub proof fn law_there_is_one_child_at_most(m: ManagerState, event: ManagerEvent)
    requires
        manager_wf(m),
        manager_expects(m, event),
    ensures
        manager_step(m, event).2 is Launch ==> m.child is None,
        manager_step(m, event).1.contains(Effect::KeepLaunched) ==> m.child is None
            && manager_step(m, event).0.child is Some,
{
}

/// A process becomes the child only when it was launched and found alive.
pub proof fn law_only_a_live_process_becomes_the_child(
    m: ManagerState,
    event: ManagerEvent,
    pid: u32,
)
    requires
        manager_wf(m),
        manager_expects(m, event),
        manager_step(m, event).0.child == Some(pid),
    ensures
        m.child == Some(pid) || (m.phase == Phase::<Seq<char>>::Verifying(pid) && event
            == ManagerEvent::Alive(true)),
{
}

/// The user is asked whether to restart the child only if that was not asked before, and
/// then it counts as asked until the child runs again or was stopped.
pub proof fn law_restart_is_asked_for_once(m: ManagerState, event: ManagerEvent)
    requires
        manager_wf(m),
        manager_expects(m, event),
    ensures
        manager_step(m, event).1.contains(Effect::AskRestart) ==> !m.dialog_shown && manager_step(
            m,
            event,
        ).0.dialog_shown,
        m.dialog_shown && !manager_step(m, event).0.dialog_shown ==> manager_step(
            m,
            event,
        ).1.contains(Effect::SetRunning(manager_step(m, event).0.child is Some)),
{
    let next = manager_step(m, event);
    if m.dialog_shown && !next.0.dialog_shown {
        if next.0.child is Some {
            assert(next.1[1] == Effect::<Seq<char>>::SetRunning(true));
        } else {
            assert(next.1[0] == Effect::<Seq<char>>::SetRunning(false));
        }
    }
}

/// How many answers the manager waits for at most before it waits for a command again.
pub open spec fn steps_left(phase: Phase<Seq<char>>) -> nat {
    match phase {
        Phase::Idle => 0,
        Phase::Installing(_) => 1,
        Phase::Crashed => 1,
        Phase::Watching(_) => 2,
        Phase::Verifying(_) => 1,
        Phase::Launching => 2,
        Phase::RemovingAdapter => 3,
        Phase::ClearingByName => 4,
        Phase::CheckingConfig => 5,
        Phase::CheckingApp => 6,
        Phase::Vanishing { pid, left } => left as nat + 1,
        Phase::EndingAll => 16,
        Phase::ForcedPause => 17,
        Phase::Forced => 18,
        Phase::LastCheck(_) => 19,
        Phase::Grace { pid, left } => left as nat + 20,
        Phase::AskedToEnd(_) => 30,
    }
}

/// Whatever the answers are, every answer brings the manager nearer to waiting for a
/// command again.
pub proof fn law_every_command_comes_to_an_end(m: ManagerState, event: ManagerEvent)
    requires
        manager_wf(m),
        manager_expects(m, event),
        !(m.phase is Idle),
    ensures
        steps_left(manager_step(m, event).0.phase) < steps_left(m.phase),
{
}

/// The manager is about to stop the child.
pub open spec fn is_stopping(phase: Phase<Seq<char>>) -> bool {
    match phase {
        Phase::AskedToEnd(_) | Phase::Grace { .. } | Phase::LastCheck(_) | Phase::Forced
        | Phase::ForcedPause | Phase::EndingAll | Phase::Vanishing { .. } => true,
        _ => false,
    }
}

/// Events that a manager is waiting for, one after the other.
pub open spec fn is_run(m: ManagerState, events: Seq<ManagerEvent>) -> bool
    decreases events.len(),
{
    events.len() == 0 || (manager_expects(m, events[0]) && is_run(
        manager_step(m, events[0]).0,
        events.drop_first(),
    ))
}

/// The manager's state after a number of events.
pub open spec fn state_after(m: ManagerState, events: Seq<ManagerEvent>) -> ManagerState
    decreases events.len(),
{
    if events.len() == 0 {
        m
    } else {
        state_after(manager_step(m, events[0]).0, events.drop_first())
    }
}

/// All effects of a number of events.
pub open spec fn effects_of(m: ManagerState, events: Seq<ManagerEvent>) -> Seq<Effect<Seq<char>>>
    decreases events.len(),
{
    if events.len() == 0 {
        seq![]
    } else {
        manager_step(m, events[0]).1 + effects_of(manager_step(m, events[0]).0, events.drop_first())
    }
}

/// All that is asked for on a number of events.
pub open spec fn asks_of(m: ManagerState, events: Seq<ManagerEvent>) -> Seq<
    Ask<Seq<char>, CommandLine>,
>
    decreases events.len(),
{
    if events.len() == 0 {
        seq![]
    } else {
        seq![manager_step(m, events[0]).2] + asks_of(
            manager_step(m, events[0]).0,
            events.drop_first(),
        )
    }
}

/// One step keeps what holds of a manager at all times.
proof fn lemma_step_wf(m: ManagerState, event: ManagerEvent)
    requires
        manager_wf(m),
        manager_expects(m, event),
    ensures
        manager_wf(manager_step(m, event).0),
{
}

/// What holds of a manager at all times holds after any number of events.
pub proof fn law_manager_stays_well_formed(m: ManagerState, events: Seq<ManagerEvent>)
    requires
        manager_wf(m),
        is_run(m, events),
    ensures
        manager_wf(state_after(m, events)),
    decreases events.len(),
{
    if events.len() > 0 {
        lemma_step_wf(m, events[0]);
        law_manager_stays_well_formed(manager_step(m, events[0]).0, events.drop_first());
    }
}

/// What the flag that says whether the child runs is after these effects.
pub open spec fn flag_after(flag: bool, effects: Seq<Effect<Seq<char>>>) -> bool
    decreases effects.len(),
{
    if effects.len() == 0 {
        flag
    } else {
        match effects.last() {
            Effect::SetRunning(running) => running,
            _ => flag_after(flag, effects.drop_last()),
        }
    }
}

/// The flag after two groups of effects.
proof fn lemma_flag_concat(flag: bool, a: Seq<Effect<Seq<char>>>, b: Seq<Effect<Seq<char>>>)
    ensures
        flag_after(flag, a + b) == flag_after(flag_after(flag, a), b),
    decreases b.len(),
{
    if b.len() == 0 {
        assert(a + b =~= a);
    } else {
        assert((a + b).drop_last() =~= a + b.drop_last());
        lemma_flag_concat(flag, a, b.drop_last());
    }
}

/// The flag after effects of which each sets it to the same value or leaves it alone.
proof fn lemma_flag_agrees(flag: bool, effects: Seq<Effect<Seq<char>>>, value: bool)
    requires
        forall|i: int|
            0 <= i < effects.len() ==> match #[trigger] effects[i] {
                Effect::SetRunning(running) => running == value,
                _ => true,
            },
        flag == value || effects.contains(Effect::SetRunning(value)),
    ensures
        flag_after(flag, effects) == value,
    decreases effects.len(),
{
    if effects.len() > 0 && !(effects.last() is SetRunning) {
        let front = effects.drop_last();
        assert forall|i: int| 0 <= i < front.len() implies match #[trigger] front[i] {
            Effect::SetRunning(running) => running == value,
            _ => true,
        } by {
            assert(front[i] == effects[i]);
        }
        if flag != value {
            let at = choose|i: int|
                0 <= i < effects.len() && effects[i] == Effect::<Seq<char>>::SetRunning(value);
            assert(front[at] == Effect::<Seq<char>>::SetRunning(value));
        }
        lemma_flag_agrees(flag, front, value);
    }
}

/// Whatever happens, the flag that says whether the child runs is right at all times, if it
/// is right at first.
pub proof fn law_flag_follows_the_child(m: ManagerState, events: Seq<ManagerEvent>)
    requires
        manager_wf(m),
        is_run(m, events),
    ensures
        flag_after(m.child is Some, effects_of(m, events)) == (state_after(m, events).child is Some),
    decreases events.len(),
{
    if events.len() > 0 {
        let (next, effects, _) = manager_step(m, events[0]);
        let rest = events.drop_first();
        lemma_step_wf(m, events[0]);
        law_running_flag_is_true_to_the_child(m, events[0]);
        lemma_flag_agrees(m.child is Some, effects, next.child is Some);
        law_flag_follows_the_child(next, rest);
        lemma_flag_concat(m.child is Some, effects, effects_of(next, rest));
    }
}

/// A start without a child, of an application and with a configuration that exist, leads to
/// a child if the launch prints the number of a process that is alive. The tray is told. The
/// application and the configuration are looked for, other processes that run the
/// application are ended, and it is launched with the configuration. After that no automatic
/// start is going on, and the user counts as not asked about the child.
pub proof fn law_start_leads_to_a_child(
    m: ManagerState,
    output: Seq<char>,
    pid: u32,
    events: Seq<ManagerEvent>,
)
    requires
        manager_wf(m),
        m.phase is Idle,
        m.child is None,
        number(trimmed(output)) == Some(pid),
        events == seq![
            ManagerEvent::Command(ChildCommand::Start),
            ManagerEvent::Exists(true),
            ManagerEvent::Exists(true),
            ManagerEvent::Ran,
            ManagerEvent::Ran,
            ManagerEvent::Launched(Some(output)),
            ManagerEvent::Alive(true),
        ],
    ensures
        is_run(m, events),
        state_after(m, events).child == Some(pid),
        state_after(m, events).phase is Idle,
        !state_after(m, events).dialog_shown,
        !state_after(m, events).pending && state_after(m, events).attempts == 0,
        state_after(m, events).app == m.app && state_after(m, events).cfg_path == m.cfg_path,
        asks_of(m, events) == seq![
            Ask::<Seq<char>, CommandLine>::Exists(m.app.path),
            Ask::Exists(m.cfg_path),
            Ask::Run(kill_by_name(m.app.file_name)),
            Ask::Run(powershell_bypass(REMOVE_TUN_SCRIPT@)),
            Ask::Launch(powershell_bypass(launch_script(m.app.path, m.cfg_path))),
            Ask::Alive { pid, delay_ms: 0 },
            Ask::Nothing,
        ],
        effects_of(m, events) == seq![
            Effect::<Seq<char>>::Icon(IconCommand::StartRain),
            Effect::KeepLaunched,
            Effect::SetRunning(true),
            Effect::IconAfter(5, IconCommand::StopRain),
            Effect::ShowRunning(true),
        ],
{
    reveal_with_fuel(is_run, 8);
    reveal_with_fuel(state_after, 8);
    reveal_with_fuel(effects_of, 8);
    reveal_with_fuel(asks_of, 8);
    let e1 = events.drop_first();
    let e2 = e1.drop_first();
    let e3 = e2.drop_first();
    let e4 = e3.drop_first();
    let e5 = e4.drop_first();
    let e6 = e5.drop_first();
    assert(e6.drop_first().len() == 0);
    assert(e1[0] == events[1] && e2[0] == events[2] && e3[0] == events[3]);
    assert(e4[0] == events[4] && e5[0] == events[5] && e6[0] == events[6]);
}

/// A child that ended by itself is noticed the next time the manager looks after it: the
/// tray is told, and after a pause the user is asked whether to restart it, unless that was
/// asked before.
pub proof fn law_crash_is_noticed(m: ManagerState, pids: Seq<u32>, events: Seq<ManagerEvent>)
    requires
        manager_wf(m),
        m.phase is Idle,
        m.child is Some,
        !pids.contains(m.child->0),
        events == seq![ManagerEvent::Tick, ManagerEvent::Processes(pids), ManagerEvent::Slept],
    ensures
        is_run(m, events),
        state_after(m, events).child is None,
        state_after(m, events).phase is Idle,
        state_after(m, events).dialog_shown,
        state_after(m, events) == (ManagerState { child: None, dialog_shown: true, ..m }),
        asks_of(m, events) == seq![
            Ask::<Seq<char>, CommandLine>::Processes { delay_ms: 0 },
            Ask::Sleep { delay_ms: 1000 },
            Ask::Nothing,
        ],
        effects_of(m, events) == seq![
            Effect::<Seq<char>>::DropChild,
            Effect::SetRunning(false),
            Effect::ShowRunning(false),
        ] + if m.dialog_shown {
            seq![]
        } else {
            seq![Effect::<Seq<char>>::AskRestart]
        },
{
    reveal_with_fuel(is_run, 4);
    reveal_with_fuel(state_after, 4);
    reveal_with_fuel(effects_of, 4);
    reveal_with_fuel(asks_of, 4);
    let e1 = events.drop_first();
    let e2 = e1.drop_first();
    assert(e2.drop_first().len() == 0);
    assert(e1[0] == events[1] && e2[0] == events[2]);
}

/// Whatever the answers are, a command to stop ends without a child: what was launched is
/// ended, the flag is cleared, and the tray is told.
pub proof fn law_stop_leaves_no_child(m: ManagerState, events: Seq<ManagerEvent>)
    requires
        manager_wf(m),
        m.phase is Idle && events.len() > 0 && events[0] == ManagerEvent::Command(
            ChildCommand::Stop,
        ),
        is_run(m, events),
        state_after(m, events).phase is Idle,
        forall|i: int| 0 < i < events.len() ==> !(#[trigger] events[i] is Command),
        forall|i: int| 0 < i < events.len() ==> !(#[trigger] events[i] is Tick),
    ensures
        state_after(m, events).child is None,
        effects_of(m, events).contains(Effect::KillChild),
        effects_of(m, events).contains(Effect::SetRunning(false)),
        effects_of(m, events).contains(Effect::ShowRunning(false)),
{
    let rest = events.drop_first();
    assert forall|i: int| 0 <= i < rest.len() implies !(#[trigger] rest[i] is Command) by {
        assert(rest[i] == events[i + 1]);
    }
    assert forall|i: int| 0 <= i < rest.len() implies !(#[trigger] rest[i] is Tick) by {
        assert(rest[i] == events[i + 1]);
    }
    lemma_step_wf(m, events[0]);
    let (next, effects, _) = manager_step(m, events[0]);
    lemma_stopping_ends(next, rest);
    lemma_contains_later(effects, effects_of(next, rest));
    if m.child is None {
        assert(effects[1] == Effect::<Seq<char>>::KillChild);
    }
}

/// Effects among the first or the later ones are among all of them.
proof fn lemma_contains_later(a: Seq<Effect<Seq<char>>>, b: Seq<Effect<Seq<char>>>)
    ensures
        forall|e: Effect<Seq<char>>|
            #![trigger (a + b).contains(e)]
            (a + b).contains(e) == (a.contains(e) || b.contains(e)),
{
    assert forall|e: Effect<Seq<char>>|
        #![trigger (a + b).contains(e)]
        (a + b).contains(e) == (a.contains(e) || b.contains(e)) by {
        if a.contains(e) {
            let i = choose|i: int| 0 <= i < a.len() && a[i] == e;
            assert((a + b)[i] == e);
        }
        if b.contains(e) {
            let i = choose|i: int| 0 <= i < b.len() && b[i] == e;
            assert((a + b)[a.len() + i] == e);
        }
        if (a + b).contains(e) {
            let i = choose|i: int| 0 <= i < (a + b).len() && (a + b)[i] == e;
            if i < a.len() {
                assert(a[i] == e);
            } else {
                assert(b[i - a.len()] == e);
            }
        }
    }
}

/// While the child is being stopped, the manager waits for a command again only when
/// there is none.
proof fn lemma_stopping_ends(m: ManagerState, events: Seq<ManagerEvent>)
    requires
        manager_wf(m),
        is_stopping(m.phase) || (m.phase is Idle && m.child is None),
        is_run(m, events),
        state_after(m, events).phase is Idle,
        forall|i: int| 0 <= i < events.len() ==> !(#[trigger] events[i] is Command),
        forall|i: int| 0 <= i < events.len() ==> !(#[trigger] events[i] is Tick),
    ensures
        state_after(m, events).child is None,
        is_stopping(m.phase) ==> {
            &&& effects_of(m, events).contains(Effect::SetRunning(false))
            &&& effects_of(m, events).contains(Effect::ShowRunning(false))
            &&& m.phase is EndingAll || m.phase is Vanishing || effects_of(m, events).contains(
                Effect::KillChild,
            )
        },
    decreases events.len(),
{
    if events.len() > 0 {
        let rest = events.drop_first();
        assert(!(events[0] is Command) && !(events[0] is Tick));
        assert forall|i: int| 0 <= i < rest.len() implies !(#[trigger] rest[i] is Command) by {
            assert(rest[i] == events[i + 1]);
        }
        assert forall|i: int| 0 <= i < rest.len() implies !(#[trigger] rest[i] is Tick) by {
            assert(rest[i] == events[i + 1]);
        }
        lemma_step_wf(m, events[0]);
        let (next, effects, _) = manager_step(m, events[0]);
        lemma_stopping_ends(next, rest);
        lemma_contains_later(effects, effects_of(next, rest));
        if next.phase is Idle {
            assert(effects[0] == Effect::<Seq<char>>::SetRunning(false));
            assert(effects[2] == Effect::<Seq<char>>::ShowRunning(false));
        }
        if next.phase is EndingAll {
            assert(effects[0] == Effect::<Seq<char>>::KillChild);
        }
    }
}

/// After how many seconds the child is to be started again, for each time that it is.
pub open spec fn retry_delays(effects: Seq<Effect<Seq<char>>>) -> Seq<u64>
    decreases effects.len(),
{
    if effects.len() == 0 {
        seq![]
    } else {
        let rest = retry_delays(effects.drop_first());
        match effects[0] {
            Effect::StartAfter(secs) => seq![secs] + rest,
            _ => rest,
        }
    }
}

/// The delays of two groups of effects.
proof fn lemma_delays_concat(a: Seq<Effect<Seq<char>>>, b: Seq<Effect<Seq<char>>>)
    ensures
        retry_delays(a + b) == retry_delays(a) + retry_delays(b),
    decreases a.len(),
{
    if a.len() == 0 {
        assert(a + b =~= b);
        assert(retry_delays(a) + retry_delays(b) =~= retry_delays(b));
    } else {
        lemma_delays_concat(a.drop_first(), b);
        assert((a + b).drop_first() =~= a.drop_first() + b);
        assert(retry_delays(a + b) =~= retry_delays(a) + retry_delays(b));
    }
}

/// There is no delay among effects none of which starts the child again.
proof fn lemma_no_delays(effects: Seq<Effect<Seq<char>>>)
    requires
        forall|i: int| 0 <= i < effects.len() ==> !(#[trigger] effects[i] is StartAfter),
    ensures
        retry_delays(effects) == Seq::<u64>::empty(),
    decreases effects.len(),
{
    if effects.len() > 0 {
        let rest = effects.drop_first();
        assert(!(effects[0] is StartAfter));
        assert forall|i: int| 0 <= i < rest.len() implies !(#[trigger] rest[i] is StartAfter) by {
            assert(rest[i] == effects[i + 1]);
        }
        lemma_no_delays(rest);
    }
}

/// The delays of one step: one if a launch of an automatic start failed that has
/// attempts left, else none. Other steps leave the count of attempts alone while the
/// automatic start goes on.
proof fn lemma_step_delays(m: ManagerState, event: ManagerEvent)
    requires
        manager_wf(m),
        manager_expects(m, event),
        event != ManagerEvent::Command(ChildCommand::AutoStart),
    ensures
        ({
            let next = manager_step(m, event).0;
            let delays = retry_delays(manager_step(m, event).1);
            ||| delays == seq![(2 + m.attempts * 2) as u64] && m.pending && next.pending
                && next.attempts == m.attempts + 1
            ||| delays == Seq::<u64>::empty() && (next.pending ==> m.pending && next.attempts
                == m.attempts)
        }),
{
    let effects = manager_step(m, event).1;
    if effects.len() > 0 && effects[0] is StartAfter {
        let rest = effects.drop_first();
        assert(rest =~= seq![Effect::<Seq<char>>::DropLaunched]);
        lemma_no_delays(rest);
        assert(retry_delays(effects) =~= seq![(2 + m.attempts * 2) as u64]);
    } else {
        assert forall|i: int| 0 <= i < effects.len() implies !(#[trigger] effects[i] is StartAfter) by {}
        lemma_no_delays(effects);
    }
}

/// Whatever happens, an automatic start of which so many launches have failed starts the
/// child again only as often as it has attempts left: after two seconds the first time,
/// and each time after two seconds more than the time before. Without an automatic start
/// the child is not started again at all.
pub proof fn law_automatic_start_retries(m: ManagerState, events: Seq<ManagerEvent>)
    requires
        manager_wf(m),
        is_run(m, events),
        forall|i: int|
            0 <= i < events.len() ==> #[trigger] events[i] != ManagerEvent::Command(
                ChildCommand::AutoStart,
            ),
    ensures
        !m.pending ==> retry_delays(effects_of(m, events)).len() == 0,
        retry_delays(effects_of(m, events)).len() < AUTO_START_ATTEMPTS - m.attempts,
        forall|i: int|
            0 <= i < retry_delays(effects_of(m, events)).len() ==> #[trigger] retry_delays(
                effects_of(m, events),
            )[i] == 2 * (m.attempts + i + 1),
    decreases events.len(),
{
    if events.len() > 0 {
        let (next, effects, _) = manager_step(m, events[0]);
        let rest = events.drop_first();
        lemma_step_wf(m, events[0]);
        lemma_step_delays(m, events[0]);
        assert forall|i: int| 0 <= i < rest.len() implies #[trigger] rest[i]
            != ManagerEvent::Command(ChildCommand::AutoStart) by {
            assert(rest[i] == events[i + 1]);
        }
        law_automatic_start_retries(next, rest);
        lemma_delays_concat(effects, effects_of(next, rest));
        let later = retry_delays(effects_of(next, rest));
        let all = retry_delays(effects_of(m, events));
        if retry_delays(effects).len() == 0 {
            assert(all =~= later);
        } else {
            assert(all =~= retry_delays(effects) + later);
            assert forall|i: int| 0 <= i < all.len() implies #[trigger] all[i] == 2 * (m.attempts
                + i + 1) by {
                if i > 0 {
                    assert(all[i] == later[i - 1]);
                }
            }
        }
    } else {
        assert(effects_of(m, events) =~= seq![]);
        assert(retry_delays(effects_of(m, events)) =~= seq![]);
    }
}

/// The user is asked to decide on an automatic start exactly when its last attempt
/// failed; that ends it.
pub proof fn law_automatic_start_gives_up_after_its_attempts(m: ManagerState)
    requires
        manager_wf(m),
        m.pending,
    ensures
        launch_failed(m).1.contains(Effect::Dialog(DialogCommand::RetryAutoStart)) == (m.attempts
            + 1 == AUTO_START_ATTEMPTS),
        launch_failed(m).0.pending == (m.attempts + 1 < AUTO_START_ATTEMPTS),
{
    if m.attempts + 1 == AUTO_START_ATTEMPTS {
        assert(launch_failed(m).1[0] == Effect::<Seq<char>>::Dialog(DialogCommand::RetryAutoStart));
    }
}

/// While there is a child, the user was not asked whether to restart it: if that is so at
/// first, it is so after any number of events.
pub proof fn law_running_child_was_not_asked_about(m: ManagerState, events: Seq<ManagerEvent>)
    requires
        manager_wf(m),
        m.child is Some ==> !m.dialog_shown,
        is_run(m, events),
    ensures
        state_after(m, events).child is Some ==> !state_after(m, events).dialog_shown,
    decreases events.len(),
{
    if events.len() > 0 {
        lemma_step_wf(m, events[0]);
        law_running_child_was_not_asked_about(manager_step(m, events[0]).0, events.drop_first());
    }
}

/// Whatever happened before, however often the user was asked already: when a child ends by
/// itself, noticing it asks the user whether to restart it.
pub proof fn law_every_crash_is_asked_about(
    m: ManagerState,
    before: Seq<ManagerEvent>,
    pids: Seq<u32>,
    crash: Seq<ManagerEvent>,
)
    requires
        manager_wf(m),
        m.child is None,
        is_run(m, before),
        state_after(m, before).phase is Idle,
        state_after(m, before).child is Some,
        !pids.contains(state_after(m, before).child->0),
        crash == seq![ManagerEvent::Tick, ManagerEvent::Processes(pids), ManagerEvent::Slept],
    ensures
        is_run(state_after(m, before), crash),
        effects_of(state_after(m, before), crash).contains(Effect::AskRestart),
        effects_of(state_after(m, before), crash).contains(Effect::ShowRunning(false)),
        state_after(state_after(m, before), crash).child is None,
{
    law_running_child_was_not_asked_about(m, before);
    law_manager_stays_well_formed(m, before);
    let now = state_after(m, before);
    law_crash_is_noticed(now, pids, crash);
    assert(effects_of(now, crash)[2] == Effect::<Seq<char>>::ShowRunning(false));
    assert(effects_of(now, crash)[3] == Effect::<Seq<char>>::AskRestart);
}

/// A launch that succeeds ends whatever automatic start was going on, and clears that the user
/// was asked about an earlier child.
pub proof fn law_successful_launch_starts_afresh(m: ManagerState, pid: u32)
    requires
        manager_wf(m),
        m.phase == Phase::<Seq<char>>::Verifying(pid),
    ensures
        ({
            let next = manager_step(m, ManagerEvent::Alive(true)).0;
            &&& next.child == Some(pid)
            &&& next.phase is Idle
            &&& !next.dialog_shown
            &&& !next.pending
            &&& next.attempts == 0
            &&& next.app == m.app
            &&& next.cfg_path == m.cfg_path
        }),
{
}

/// Without the application or without the configuration nothing is launched and nothing is
/// ended. The tray is told, unless an automatic start is going on.
pub proof fn law_start_needs_both_files(
    m: ManagerState,
    app_missing: Seq<ManagerEvent>,
    cfg_missing: Seq<ManagerEvent>,
)
    requires
        manager_wf(m),
        m.phase is Idle,
        app_missing == seq![ManagerEvent::Command(ChildCommand::Start), ManagerEvent::Exists(false)],
        cfg_missing == seq![
            ManagerEvent::Command(ChildCommand::Start),
            ManagerEvent::Exists(true),
            ManagerEvent::Exists(false),
        ],
    ensures
        state_after(m, app_missing) == m,
        state_after(m, cfg_missing) == m,
        effects_of(m, app_missing) == effects_of(m, cfg_missing),
        effects_of(m, app_missing) == if m.pending {
            seq![]
        } else {
            seq![Effect::<Seq<char>>::ShowRunning(false)]
        },
        asks_of(m, app_missing) == seq![
            Ask::<Seq<char>, CommandLine>::Exists(m.app.path),
            Ask::Nothing,
        ],
        asks_of(m, cfg_missing) == seq![
            Ask::<Seq<char>, CommandLine>::Exists(m.app.path),
            Ask::Exists(m.cfg_path),
            Ask::Nothing,
        ],
{
    reveal_with_fuel(state_after, 4);
    reveal_with_fuel(effects_of, 4);
    reveal_with_fuel(asks_of, 4);
    let a1 = app_missing.drop_first();
    assert(a1.drop_first().len() == 0);
    assert(a1[0] == app_missing[1]);
    let c1 = cfg_missing.drop_first();
    let c2 = c1.drop_first();
    assert(c2.drop_first().len() == 0);
    assert(c1[0] == cfg_missing[1] && c2[0] == cfg_missing[2]);
}

/// A start while there is a child changes nothing and launches nothing.
pub proof fn law_running_child_is_not_started_again(m: ManagerState, events: Seq<ManagerEvent>)
    requires
        manager_wf(m),
        m.phase is Idle,
        m.child is Some,
        events == seq![
            ManagerEvent::Command(ChildCommand::Start),
            ManagerEvent::Exists(true),
            ManagerEvent::Exists(true),
        ],
    ensures
        state_after(m, events) == m,
        effects_of(m, events).len() == 0,
        asks_of(m, events).last() is Nothing,
{
    reveal_with_fuel(state_after, 4);
    reveal_with_fuel(effects_of, 4);
    reveal_with_fuel(asks_of, 4);
    let c1 = events.drop_first();
    let c2 = c1.drop_first();
    assert(c2.drop_first().len() == 0);
    assert(c1[0] == events[1] && c2[0] == events[2]);
}

/// A launch that could not be made leaves everything as it is. The tray is told, unless an
/// automatic start is going on.
pub proof fn law_launch_that_cannot_be_made(m: ManagerState)
    requires
        manager_wf(m),
        m.phase is Launching,
    ensures
        ({
            let (next, effects, ask) = manager_step(m, ManagerEvent::Launched(None));
            &&& next == (ManagerState { phase: Phase::Idle, ..m })
            &&& effects == if m.pending {
                seq![]
            } else {
                seq![Effect::<Seq<char>>::ShowRunning(false)]
            }
            &&& ask is Nothing
        }),
{
}

/// The launch failed: it printed no number, or the process with the number is not alive.
pub open spec fn is_failed_launch(m: ManagerState, event: ManagerEvent) -> bool {
    match (m.phase, event) {
        (Phase::Launching, Event::Launched(Some(output))) => number(trimmed(output)) is None,
        (Phase::Verifying(_), Event::Alive(alive)) => !alive,
        _ => false,
    }
}

/// After a launch that failed there is no child, and the manager waits for a command again.
/// A start by hand gives up: the tray is told and the icon stops. An automatic start is tried
/// again, after two seconds the first time and two more each time, as long as fewer than five
/// launches have failed; after the fifth it ends, and the user is asked.
pub proof fn law_failed_launch_is_tried_again_or_told(m: ManagerState, event: ManagerEvent)
    requires
        manager_wf(m),
        is_failed_launch(m, event),
    ensures
        ({
            let (next, effects, ask) = manager_step(m, event);
            let tries_left = m.pending && m.attempts < 4;
            &&& ask is Nothing
            &&& next.child is None
            &&& next.phase is Idle
            &&& next.pending == tries_left
            &&& next.attempts == if tries_left {
                m.attempts + 1
            } else if m.pending {
                0
            } else {
                m.attempts as int
            }
            &&& next.app == m.app && next.cfg_path == m.cfg_path && next.dialog_shown
                == m.dialog_shown
            &&& effects == if !m.pending {
                seq![
                    Effect::<Seq<char>>::Icon(IconCommand::StopRain),
                    Effect::ShowRunning(false),
                    Effect::DropLaunched,
                ]
            } else if m.attempts < 4 {
                seq![
                    Effect::<Seq<char>>::StartAfter((2 * (m.attempts + 1)) as u64),
                    Effect::DropLaunched,
                ]
            } else {
                seq![
                    Effect::<Seq<char>>::Dialog(DialogCommand::RetryAutoStart),
                    Effect::DropLaunched,
                ]
            }
        }),
{
}

/// An automatic start begins with a start that no launch has failed of yet.
pub proof fn law_automatic_start_begins(m: ManagerState)
    requires
        manager_wf(m),
        m.phase is Idle,
    ensures
        ({
            let (next, effects, ask) = manager_step(
                m,
                ManagerEvent::Command(ChildCommand::AutoStart),
            );
            &&& next == (ManagerState { pending: true, attempts: 0, ..m })
            &&& effects == seq![Effect::<Seq<char>>::Enqueue(ChildCommand::Start)]
            &&& ask is Nothing
        }),
{
}

/// A child that ends when it is asked to is not forced. It is asked first, then it is let go
/// of, all processes that run the application are ended, and the manager waits until the
/// child has vanished. Only the child is gone after that, and that the user was asked about
/// one.
pub proof fn law_obedient_child_is_not_forced(
    m: ManagerState,
    pids: Seq<u32>,
    events: Seq<ManagerEvent>,
)
    requires
        manager_wf(m),
        m.phase is Idle,
        m.child is Some,
        !pids.contains(m.child->0),
        events == seq![
            ManagerEvent::Command(ChildCommand::Stop),
            ManagerEvent::Ran,
            ManagerEvent::Alive(false),
            ManagerEvent::Alive(false),
            ManagerEvent::Ran,
            ManagerEvent::Processes(pids),
        ],
    ensures
        is_run(m, events),
        state_after(m, events) == (ManagerState { child: None, dialog_shown: false, ..m }),
        asks_of(m, events) == seq![
            Ask::<Seq<char>, CommandLine>::Run(kill_by_pid(m.child->0, false)),
            Ask::Alive { pid: m.child->0, delay_ms: 250 },
            Ask::Alive { pid: m.child->0, delay_ms: 0 },
            Ask::Run(kill_by_name(m.app.file_name)),
            Ask::Processes { delay_ms: 100 },
            Ask::Nothing,
        ],
        effects_of(m, events) == seq![
            Effect::<Seq<char>>::Icon(IconCommand::Glitch),
            Effect::KillChild,
            Effect::SetRunning(false),
            Effect::Icon(IconCommand::StopGlitch),
            Effect::ShowRunning(false),
        ],
{
    reveal_with_fuel(is_run, 7);
    reveal_with_fuel(state_after, 7);
    reveal_with_fuel(effects_of, 7);
    reveal_with_fuel(asks_of, 7);
    let e1 = events.drop_first();
    let e2 = e1.drop_first();
    let e3 = e2.drop_first();
    let e4 = e3.drop_first();
    let e5 = e4.drop_first();
    assert(e5.drop_first().len() == 0);
    assert(e1[0] == events[1] && e2[0] == events[2] && e3[0] == events[3]);
    assert(e4[0] == events[4] && e5[0] == events[5]);
}

/// A stop without a child ends all processes that run the application, and tells the tray.
pub proof fn law_stop_without_a_child(m: ManagerState, events: Seq<ManagerEvent>)
    requires
        manager_wf(m),
        m.phase is Idle,
        m.child is None,
        events == seq![ManagerEvent::Command(ChildCommand::Stop), ManagerEvent::Ran],
    ensures
        is_run(m, events),
        state_after(m, events) == (ManagerState { dialog_shown: false, ..m }),
        asks_of(m, events) == seq![
            Ask::<Seq<char>, CommandLine>::Run(kill_by_name(m.app.file_name)),
            Ask::Nothing,
        ],
        effects_of(m, events) == seq![
            Effect::<Seq<char>>::Icon(IconCommand::Glitch),
            Effect::KillChild,
            Effect::SetRunning(false),
            Effect::Icon(IconCommand::StopGlitch),
            Effect::ShowRunning(false),
        ],
{
    reveal_with_fuel(is_run, 3);
    reveal_with_fuel(state_after, 3);
    reveal_with_fuel(effects_of, 3);
    reveal_with_fuel(asks_of, 3);
    let e1 = events.drop_first();
    assert(e1.drop_first().len() == 0);
    assert(e1[0] == events[1]);
}

/// So many times the same answer.
pub open spec fn answers(event: ManagerEvent, count: nat) -> Seq<ManagerEvent> {
    Seq::new(count, |i: int| event)
}

/// A child that stays alive is looked at ten times after it was asked to end, and once more;
/// then it is ended by force, and after a pause let go of, with all processes that run the
/// application.
pub proof fn law_stubborn_child_is_forced(m: ManagerState, looks: nat)
    requires
        manager_wf(m),
        m.phase is AskedToEnd,
        looks < 10,
    ensures
        ({
            let pid = m.child->0;
            let asked = manager_step(m, ManagerEvent::Ran).0;
            let looked = state_after(asked, answers(ManagerEvent::Alive(true), looks));
            let last = manager_step(looked, ManagerEvent::Alive(true));
            &&& is_run(asked, answers(ManagerEvent::Alive(true), looks))
            &&& effects_of(asked, answers(ManagerEvent::Alive(true), looks)).len() == 0
            &&& manager_step(m, ManagerEvent::Ran).2 == Ask::<Seq<char>, CommandLine>::Alive {
                pid,
                delay_ms: 250,
            }
            &&& last.2 == Ask::<Seq<char>, CommandLine>::Alive {
                pid,
                delay_ms: if looks < 9 {
                    250
                } else {
                    0
                },
            }
            &&& looks == 9 ==> {
                let (forced, e1, ask) = manager_step(last.0, ManagerEvent::Alive(true));
                let (paused, e2, pause) = manager_step(forced, ManagerEvent::Ran);
                let (ended, e3, end) = manager_step(paused, ManagerEvent::Slept);
                &&& ask == Ask::<Seq<char>, CommandLine>::Run(kill_by_pid(pid, true))
                &&& pause == Ask::<Seq<char>, CommandLine>::Sleep { delay_ms: 1000 }
                &&& e1.len() == 0 && e2.len() == 0
                &&& e3 == seq![Effect::<Seq<char>>::KillChild]
                &&& end == Ask::<Seq<char>, CommandLine>::Run(kill_by_name(m.app.file_name))
                &&& ended.phase is EndingAll && ended.child == m.child
            }
        }),
{
    let asked = manager_step(m, ManagerEvent::Ran).0;
    lemma_grace(asked, looks);
}

/// A child that is looked at and alive is looked at again.
proof fn lemma_grace(m: ManagerState, looks: nat)
    requires
        manager_wf(m),
        m.phase matches Phase::Grace { pid, left } && looks <= left,
    ensures
        is_run(m, answers(ManagerEvent::Alive(true), looks)),
        effects_of(m, answers(ManagerEvent::Alive(true), looks)).len() == 0,
        state_after(m, answers(ManagerEvent::Alive(true), looks)) == (ManagerState {
            phase: Phase::Grace {
                pid: m.child->0,
                left: (m.phase->Grace_left - looks) as u32,
            },
            ..m
        }),
    decreases looks,
{
    let events = answers(ManagerEvent::Alive(true), looks);
    if looks > 0 {
        let less = (looks - 1) as nat;
        assert(events.drop_first() =~= answers(ManagerEvent::Alive(true), less));
        lemma_grace(manager_step(m, ManagerEvent::Alive(true)).0, less);
    }
}

/// While processes are looked for after all were ended, the manager looks fifteen times at
/// most; when the child is not among them, or at the last time, the stop is over.
pub proof fn law_ended_child_is_waited_for(m: ManagerState, pids: Seq<u32>)
    requires
        manager_wf(m),
        m.phase is Vanishing,
    ensures
        ({
            let (next, effects, ask) = manager_step(m, ManagerEvent::Processes(pids));
            &&& next.phase is Idle == (!pids.contains(m.child->0) || m.phase->Vanishing_left == 0)
            &&& next.phase is Idle ==> next == (ManagerState {
                child: None,
                dialog_shown: false,
                phase: Phase::Idle,
                ..m
            }) && ask is Nothing && effects == seq![
                Effect::<Seq<char>>::SetRunning(false),
                Effect::Icon(IconCommand::StopGlitch),
                Effect::ShowRunning(false),
            ]
            &&& !(next.phase is Idle) ==> next.child == m.child && effects.len() == 0 && ask
                == (Ask::<Seq<char>, CommandLine>::Processes { delay_ms: 100 })
                && next.phase->Vanishing_left == m.phase->Vanishing_left - 1
        }),
        forall|e: ManagerState|
            manager_wf(e) && e.phase is EndingAll && e.child is Some ==> #[trigger] manager_step(
                e,
                ManagerEvent::Ran,
            ).0.phase == (Phase::<Seq<char>>::Vanishing { pid: e.child->0, left: 14 }),
{
}

/// Looking after the child while it runs, or when there is none, changes nothing and tells
/// nothing.
pub proof fn law_looking_changes_nothing(
    m: ManagerState,
    pids: Seq<u32>,
    events: Seq<ManagerEvent>,
)
    requires
        manager_wf(m),
        m.phase is Idle,
        m.child is Some ==> pids.contains(m.child->0),
        events == if m.child is Some {
            seq![ManagerEvent::Tick, ManagerEvent::Processes(pids)]
        } else {
            seq![ManagerEvent::Tick]
        },
    ensures
        is_run(m, events),
        state_after(m, events) == m,
        effects_of(m, events).len() == 0,
        asks_of(m, events) == if m.child is Some {
            seq![Ask::<Seq<char>, CommandLine>::Processes { delay_ms: 0 }, Ask::Nothing]
        } else {
            seq![Ask::<Seq<char>, CommandLine>::Nothing]
        },
{
    reveal_with_fuel(is_run, 3);
    reveal_with_fuel(state_after, 3);
    reveal_with_fuel(effects_of, 3);
    reveal_with_fuel(asks_of, 3);
    let e1 = events.drop_first();
    if m.child is Some {
        assert(e1.drop_first().len() == 0);
        assert(e1[0] == events[1]);
    }
}

/// A new configuration is the one that is run with from then on, and nothing else changes.
/// The application is changed by an installation alone, and the configuration by a command
/// alone.
pub proof fn law_configuration_and_application_change_on_order(
    m: ManagerState,
    event: ManagerEvent,
    path: Seq<char>,
)
    requires
        manager_wf(m),
        manager_expects(m, event),
    ensures
        event == ManagerEvent::Command(ChildCommand::UpdateConfigPath(path)) ==> manager_step(
            m,
            event,
        ) == (ManagerState { cfg_path: path, ..m }, Seq::<Effect<Seq<char>>>::empty(), Ask::<
            Seq<char>,
            CommandLine,
        >::Nothing),
        !(event is Command) ==> manager_step(m, event).0.cfg_path == m.cfg_path,
        !(event is Installed) ==> manager_step(m, event).0.app == m.app,
{
}

/// An installation is of the application by the stem of its name. If it succeeds, the
/// installed application is the one to run from then on; if not, nothing changes. The tray is
/// told how it goes.
pub proof fn law_installed_application_is_taken(
    m: ManagerState,
    outcome: Result<AppTarget<Seq<char>>, Seq<char>>,
    events: Seq<ManagerEvent>,
)
    requires
        manager_wf(m),
        m.phase is Idle,
        events == seq![
            ManagerEvent::Command(ChildCommand::Install),
            ManagerEvent::Installed(outcome),
        ],
    ensures
        is_run(m, events),
        state_after(m, events) == match outcome {
            Ok(target) => ManagerState { app: target, ..m },
            Err(_) => m,
        },
        asks_of(m, events) == seq![
            Ask::<Seq<char>, CommandLine>::Install(m.app.file_stem),
            Ask::Nothing,
        ],
        effects_of(m, events) == seq![
            Effect::<Seq<char>>::Status(InstallStatus::Installing { app_name: m.app.file_stem }),
            Effect::Status(
                match outcome {
                    Ok(target) => InstallStatus::Installed {
                        path: target.path,
                        app_name: m.app.file_stem,
                    },
                    Err(error) => InstallStatus::Failed { app_name: m.app.file_stem, error },
                },
            ),
        ],
{
    reveal_with_fuel(is_run, 3);
    reveal_with_fuel(state_after, 3);
    reveal_with_fuel(effects_of, 3);
    reveal_with_fuel(asks_of, 3);
    let e1 = events.drop_first();
    assert(e1.drop_first().len() == 0);
    assert(e1[0] == events[1]);
}

/// The application at a path has this path, its last part as its name, and that without the
/// extension as its stem; all of it is empty but the path where there is no last part.
pub proof fn law_application_is_named_by_its_path(
    path: Seq<char>,
    stem: Seq<char>,
    extension: Seq<char>,
)
    requires
        stem.len() > 0,
        !extension.contains('.'),
    ensures
        target_named(path, Some(stem + seq!['.'] + extension)) == (AppTarget {
            path,
            file_name: stem + seq!['.'] + extension,
            file_stem: stem,
        }),
        target_named(path, Some(extension)) == (AppTarget {
            path,
            file_name: extension,
            file_stem: extension,
        }),
        target_named(path, None) == (AppTarget {
            path,
            file_name: Seq::<char>::empty(),
            file_stem: Seq::<char>::empty(),
        }),
{
    law_stem_and_extension_of_a_name(stem, extension);
}

/// The process that was launched is the one whose number was printed, white space around it
/// aside, and it is the one that is looked at.
pub proof fn law_launch_prints_the_number(
    m: ManagerState,
    left: Seq<char>,
    pid: u32,
    right: Seq<char>,
)
    requires
        manager_wf(m),
        m.phase is Launching,
        is_blank(left),
        is_blank(right),
    ensures
        ({
            let (next, effects, ask) = manager_step(
                m,
                ManagerEvent::Launched(Some(left + decimal(pid as nat) + right)),
            );
            &&& next == (ManagerState { phase: Phase::Verifying(pid), ..m })
            &&& effects.len() == 0
            &&& ask == (Ask::<Seq<char>, CommandLine>::Alive { pid, delay_ms: 0 })
        }),
{
    let digits = decimal(pid as nat);
    law_decimal_is_digits(pid as nat);
    law_decimal_reads_back(pid);
    assert('0' <= digits[0] <= '9');
    assert('0' <= digits[digits.len() - 1] <= '9');
    law_white_space_around_is_trimmed(left, digits, right);
}

/// A child that ended on the request is looked at once more without a pause, however often it
/// was looked at before. If it is gone then, it is let go of without force, and all processes
/// that run the application are ended.
pub proof fn law_child_that_ended_is_not_waited_for(m: ManagerState)
    requires
        manager_wf(m),
    ensures
        m.phase is Grace ==> manager_step(m, ManagerEvent::Alive(false)) == (
            ManagerState { phase: Phase::LastCheck(m.child->0), ..m },
            Seq::<Effect<Seq<char>>>::empty(),
            Ask::<Seq<char>, CommandLine>::Alive { pid: m.child->0, delay_ms: 0 },
        ),
        m.phase is LastCheck ==> manager_step(m, ManagerEvent::Alive(false)) == (
            ManagerState { phase: Phase::EndingAll, ..m },
            seq![Effect::<Seq<char>>::KillChild],
            Ask::<Seq<char>, CommandLine>::Run(kill_by_name(m.app.file_name)),
        ),
{
}

} // verus!
