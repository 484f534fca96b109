//! What holds of every run of the supervisor.
//!
//! A session is a sequence of commands, handed to the supervisor one after another by a
//! caller that performs what it is asked and reports how each launch has ended. The
//! functions here say which handle is held at the end and what has happened to the player
//! processes on the way; the lemmas state what is true of every session.

use crate::vlc_manager::{effects_of, next_held, Command, Effect, Occurrence};
use vstd::multiset::Multiset;
use vstd::prelude::*;

verus! {

broadcast use vstd::multiset::group_multiset_axioms;

/// One thing that has happened to a player process.
pub enum Record<H> {
    /// The process was killed.
    Killed(H),
    /// A launch was tried with these arguments; `handle` is the new process, where there
    /// is one.
    Launched { args: Seq<Seq<char>>, handle: Option<H> },
}

/// The event by which the caller reports how a launch has ended.
pub open spec fn report_of<H>(outcome: Option<H>) -> Occurrence<H> {
    match outcome {
        Some(handle) => Occurrence::Spawned(handle),
        None => Occurrence::SpawnFailed,
    }
}

/// What has happened once `effect` is performed, a launch ending as `outcome` says.
pub open spec fn performed<H>(effect: Effect<H>, outcome: Option<H>) -> Record<H> {
    match effect {
        Effect::Kill(handle) => Record::Killed(handle),
        Effect::Spawn(args) => Record::Launched { args, handle: outcome },
    }
}

/// What has happened once `effects` are performed in order.
pub open spec fn all_performed<H>(effects: Seq<Effect<H>>, outcome: Option<H>) -> Seq<Record<H>> {
    Seq::new(effects.len(), |i: int| performed(effects[i], outcome))
}

/// The handle held once `command` is dealt with: the supervisor takes the command and,
/// where it has asked for a launch, the report of how the launch ended.
pub open spec fn held_after<H>(held: Option<H>, command: Command, outcome: Option<H>) -> Option<H> {
    let emptied = next_held(held, Occurrence::Command(command));
    if command.is_play() {
        next_held(emptied, report_of(outcome))
    } else {
        emptied
    }
}

/// What happens to the player processes while `command` is dealt with.
pub open spec fn records_of<H>(
    held: Option<H>,
    command: Command,
    outcome: Option<H>,
    flags: Seq<Seq<char>>,
) -> Seq<Record<H>> {
    let emptied = next_held(held, Occurrence::Command(command));
    let asked = all_performed(effects_of(held, Occurrence::Command(command), flags), outcome);
    if command.is_play() {
        asked + all_performed(effects_of(emptied, report_of(outcome), flags), None)
    } else {
        asked
    }
}

/// The handle held at the end of a session that began with `held`. `outcomes[i]` says how
/// the launch for `commands[i]` ends, and counts only where that command plays.
pub open spec fn final_held<H>(
    held: Option<H>,
    commands: Seq<Command>,
    outcomes: Seq<Option<H>>,
) -> Option<H>
    decreases commands.len(),
{
    if commands.len() == 0 {
        held
    } else {
        held_after(
            final_held(held, commands.drop_last(), outcomes.drop_last()),
            commands.last(),
            outcomes.last(),
        )
    }
}

/// What happens to the player processes in the course of a session, in order.
pub open spec fn history<H>(
    held: Option<H>,
    commands: Seq<Command>,
    outcomes: Seq<Option<H>>,
    flags: Seq<Seq<char>>,
) -> Seq<Record<H>>
    decreases commands.len(),
{
    if commands.len() == 0 {
        Seq::empty()
    } else {
        history(held, commands.drop_last(), outcomes.drop_last(), flags) + records_of(
            final_held(held, commands.drop_last(), outcomes.drop_last()),
            commands.last(),
            outcomes.last(),
            flags,
        )
    }
}

/// The processes that a supervisor holding `held` answers for.
pub open spec fn held_processes<H>(held: Option<H>) -> Multiset<H> {
    match held {
        Some(handle) => Multiset::singleton(handle),
        None => Multiset::empty(),
    }
}

/// The processes that are alive after `records`, where `start` were alive before: a
/// successful launch adds its process, a kill takes its process away. A process counts as
/// alive from its launch to its kill, though it may have exited by itself in between.
pub open spec fn live_after<H>(start: Multiset<H>, records: Seq<Record<H>>) -> Multiset<H>
    decreases records.len(),
{
    if records.len() == 0 {
        start
    } else {
        let before = live_after(start, records.drop_last());
        match records.last() {
            Record::Killed(handle) => before.remove(handle),
            Record::Launched { handle: Some(handle), .. } => before.insert(handle),
            Record::Launched { handle: None, .. } => before,
        }
    }
}

/// The argument vectors of the launches in `records`, in order.
pub open spec fn launches<H>(records: Seq<Record<H>>) -> Seq<Seq<Seq<char>>>
    decreases records.len(),
{
    if records.len() == 0 {
        Seq::empty()
    } else {
        match records.last() {
            Record::Launched { args, .. } => launches(records.drop_last()).push(args),
            Record::Killed(_) => launches(records.drop_last()),
        }
    }
}

/// The argument vectors that the playing commands among `commands` ask for, in order.
pub open spec fn requested(commands: Seq<Command>, flags: Seq<Seq<char>>) -> Seq<Seq<Seq<char>>>
    decreases commands.len(),
{
    if commands.len() == 0 {
        Seq::empty()
    } else {
        match commands.last().args(flags) {
            Some(args) => requested(commands.drop_last(), flags).push(args),
            None => requested(commands.drop_last(), flags),
        }
    }
}

/// What is alive after `first + second` is what is alive after `second`, begun with what
/// is alive after `first`.
pub proof fn lemma_live_after_concat<H>(
    start: Multiset<H>,
    first: Seq<Record<H>>,
    second: Seq<Record<H>>,
)
    ensures
        live_after(start, first + second) == live_after(live_after(start, first), second),
    decreases second.len(),
{
    if second.len() == 0 {
    } else {
        lemma_live_after_concat(start, first, second.drop_last());
        assert((first + second).drop_last() =~= first + second.drop_last());
    }
}

/// The launches of `first + second` are those of `first` and then those of `second`.
pub proof fn lemma_launches_concat<H>(first: Seq<Record<H>>, second: Seq<Record<H>>)
    ensures
        launches(first + second) == launches(first) + launches(second),
    decreases second.len(),
{
    if second.len() == 0 {
    } else {
        lemma_launches_concat(first, second.drop_last());
        assert((first + second).drop_last() =~= first + second.drop_last());
    }
}

/// What one command does to the processes, spelled out: the held process is killed, and
/// then the player is launched where the command plays.
pub proof fn lemma_records_of<H>(
    held: Option<H>,
    command: Command,
    outcome: Option<H>,
    flags: Seq<Seq<char>>,
)
    ensures
        records_of(held, command, outcome, flags) == match (held, command.args(flags)) {
            (Some(old), Some(args)) => seq![
                Record::Killed(old),
                Record::Launched { args, handle: outcome },
            ],
            (Some(old), None) => seq![Record::Killed(old)],
            (None, Some(args)) => seq![Record::Launched { args, handle: outcome }],
            (None, None) => Seq::empty(),
        },
        held_after(held, command, outcome) == if command.is_play() {
            outcome
        } else {
            None
        },
{
    let shown = match (held, command.args(flags)) {
        (Some(old), Some(args)) => seq![
            Record::Killed(old),
            Record::Launched { args, handle: outcome },
        ],
        (Some(old), None) => seq![Record::Killed(old)],
        (None, Some(args)) => seq![Record::Launched { args, handle: outcome }],
        (None, None) => Seq::empty(),
    };
}

/// While one command is dealt with, at most one process is alive at any moment, a kill
/// hits the one process that is alive, and at the end the process that is alive is the
/// one that the supervisor holds.
proof fn lemma_one_command<H>(
    held: Option<H>,
    command: Command,
    outcome: Option<H>,
    flags: Seq<Seq<char>>,
    k: int,
)
    requires
        0 <= k <= records_of(held, command, outcome, flags).len(),
    ensures
        live_after(held_processes(held), records_of(held, command, outcome, flags).take(k)).len()
            <= 1,
        k == records_of(held, command, outcome, flags).len() ==> live_after(
            held_processes(held),
            records_of(held, command, outcome, flags).take(k),
        ) == held_processes(held_after(held, command, outcome)),
        k < records_of(held, command, outcome, flags).len() ==> (records_of(
            held,
            command,
            outcome,
            flags,
        )[k] matches Record::Killed(victim) ==> live_after(
            held_processes(held),
            records_of(held, command, outcome, flags).take(k),
        ) == Multiset::singleton(victim)),
{
    lemma_records_of(held, command, outcome, flags);
    let start = held_processes(held);
    let block = records_of(held, command, outcome, flags);
    let none = block.take(0);
    assert(live_after(start, none) == start);
    if block.len() >= 1 {
        let one = block.take(1);
        assert(one.drop_last() =~= none);
        if held is Some {
            assert(live_after(start, one) =~= Multiset::empty());
        }
        if block.len() >= 2 {
            assert(block.take(2) =~= block);
        }
    }
}

/// At the end of a session the processes that are alive are exactly what the supervisor
/// holds: nothing that it launched runs on unowned.
pub proof fn lemma_live_is_held<H>(
    held: Option<H>,
    commands: Seq<Command>,
    outcomes: Seq<Option<H>>,
    flags: Seq<Seq<char>>,
)
    requires
        commands.len() == outcomes.len(),
    ensures
        live_after(held_processes(held), history(held, commands, outcomes, flags))
            == held_processes(final_held(held, commands, outcomes)),
    decreases commands.len(),
{
    if commands.len() > 0 {
        let earlier = history(held, commands.drop_last(), outcomes.drop_last(), flags);
        let before = final_held(held, commands.drop_last(), outcomes.drop_last());
        let block = records_of(before, commands.last(), outcomes.last(), flags);
        lemma_live_is_held(held, commands.drop_last(), outcomes.drop_last(), flags);
        lemma_live_after_concat(held_processes(held), earlier, block);
        lemma_one_command(before, commands.last(), outcomes.last(), flags, block.len() as int);
        assert(block.take(block.len() as int) =~= block);
    }
}

/// Exclusivity. Whatever commands are sent and however their launches end, at every moment
/// of the session at most one player process is alive; and whenever a kill is asked for,
/// its target is the one process that is alive then.
pub proof fn lemma_exclusive<H>(
    held: Option<H>,
    commands: Seq<Command>,
    outcomes: Seq<Option<H>>,
    flags: Seq<Seq<char>>,
    k: int,
)
    requires
        commands.len() == outcomes.len(),
        0 <= k <= history(held, commands, outcomes, flags).len(),
    ensures
        live_after(held_processes(held), history(held, commands, outcomes, flags).take(k)).len()
            <= 1,
        k < history(held, commands, outcomes, flags).len() ==> (history(
            held,
            commands,
            outcomes,
            flags,
        )[k] matches Record::Killed(victim) ==> live_after(
            held_processes(held),
            history(held, commands, outcomes, flags).take(k),
        ) == Multiset::singleton(victim)),
    decreases commands.len(),
{
    let all = history(held, commands, outcomes, flags);
    if commands.len() > 0 {
        let earlier = history(held, commands.drop_last(), outcomes.drop_last(), flags);
        let before = final_held(held, commands.drop_last(), outcomes.drop_last());
        let block = records_of(before, commands.last(), outcomes.last(), flags);
        if k < earlier.len() {
            lemma_exclusive(held, commands.drop_last(), outcomes.drop_last(), flags, k);
            assert(all.take(k) =~= earlier.take(k));
        } else {
            let j = k - earlier.len();
            lemma_live_is_held(held, commands.drop_last(), outcomes.drop_last(), flags);
            lemma_live_after_concat(held_processes(held), earlier, block.take(j));
            lemma_one_command(before, commands.last(), outcomes.last(), flags, j);
            assert(all.take(k) =~= earlier + block.take(j));
        }
    }
}

/// Order preservation. The launches of a session are those that its playing commands ask
/// for, one for one and in the order in which the commands were sent.
pub proof fn lemma_order_preserved<H>(
    held: Option<H>,
    commands: Seq<Command>,
    outcomes: Seq<Option<H>>,
    flags: Seq<Seq<char>>,
)
    requires
        commands.len() == outcomes.len(),
    ensures
        launches(history(held, commands, outcomes, flags)) == requested(commands, flags),
    decreases commands.len(),
{
    if commands.len() > 0 {
        let earlier = history(held, commands.drop_last(), outcomes.drop_last(), flags);
        let before = final_held(held, commands.drop_last(), outcomes.drop_last());
        let block = records_of(before, commands.last(), outcomes.last(), flags);
        lemma_order_preserved(held, commands.drop_last(), outcomes.drop_last(), flags);
        lemma_launches_concat(earlier, block);
        lemma_records_of(before, commands.last(), outcomes.last(), flags);
        assert(launches(Seq::<Record<H>>::empty()) =~= Seq::<Seq<Seq<char>>>::empty());
        if block.len() >= 2 {
            let front = block.drop_last();
            assert(front.drop_last() =~= Seq::<Record<H>>::empty());
            assert(launches(front) =~= Seq::<Seq<Seq<char>>>::empty());
        } else if block.len() == 1 {
            assert(block.drop_last() =~= Seq::<Record<H>>::empty());
        }
    }
}

/// Commands are dealt with one after another: a session of `first` followed by `second` is
/// the session of `first`, and then the session of `second` begun with what the first one
/// left.
pub proof fn lemma_sessions_compose<H>(
    held: Option<H>,
    first: Seq<Command>,
    first_outcomes: Seq<Option<H>>,
    second: Seq<Command>,
    second_outcomes: Seq<Option<H>>,
    flags: Seq<Seq<char>>,
)
    requires
        first.len() == first_outcomes.len(),
        second.len() == second_outcomes.len(),
    ensures
        final_held(held, first + second, first_outcomes + second_outcomes) == final_held(
            final_held(held, first, first_outcomes),
            second,
            second_outcomes,
        ),
        history(held, first + second, first_outcomes + second_outcomes, flags) == history(
            held,
            first,
            first_outcomes,
            flags,
        ) + history(final_held(held, first, first_outcomes), second, second_outcomes, flags),
    decreases second.len(),
{
    let commands = first + second;
    let outcomes = first_outcomes + second_outcomes;
    if second.len() > 0 {
        lemma_sessions_compose(
            held,
            first,
            first_outcomes,
            second.drop_last(),
            second_outcomes.drop_last(),
            flags,
        );
        assert(commands.drop_last() =~= first + second.drop_last());
        assert(outcomes.drop_last() =~= first_outcomes + second_outcomes.drop_last());
    }
}

/// Stop, then idle. A session that ends with `Stop` leaves the supervisor holding nothing
/// and no process alive, whatever was playing before.
pub proof fn lemma_stop_then_idle<H>(
    held: Option<H>,
    commands: Seq<Command>,
    outcomes: Seq<Option<H>>,
    flags: Seq<Seq<char>>,
)
    requires
        commands.len() == outcomes.len(),
        commands.len() > 0,
        commands.last() is Stop,
    ensures
        final_held(held, commands, outcomes) is None,
        live_after(held_processes(held), history(held, commands, outcomes, flags))
            == Multiset::<H>::empty(),
{
    lemma_live_is_held(held, commands, outcomes, flags);
}

/// A failed launch costs one command and no more. After a playing command whose launch
/// fails the supervisor is idle; and the next playing command is launched with its own
/// arguments and, where that launch succeeds, is what plays: whatever came before, failed
/// launches included.
pub proof fn lemma_launch_survives_failures<H>(
    held: Option<H>,
    commands: Seq<Command>,
    outcomes: Seq<Option<H>>,
    flags: Seq<Seq<char>>,
)
    requires
        commands.len() == outcomes.len(),
        commands.len() > 0,
        commands.last().is_play(),
    ensures
        final_held(held, commands, outcomes) == outcomes.last(),
        history(held, commands, outcomes, flags).len() > 0,
        history(held, commands, outcomes, flags).last() == (Record::Launched {
            args: commands.last().args(flags)->0,
            handle: outcomes.last(),
        }),
{
    let before = final_held(held, commands.drop_last(), outcomes.drop_last());
    lemma_records_of(before, commands.last(), outcomes.last(), flags);
}

/// Spawn failure resilience. Where the launch for one playing command fails, the
/// supervisor is idle afterwards; and a second playing command whose launch succeeds is
/// then what plays. On the way the held process is killed, the first launch is tried and
/// fails, and the second launch is made with the arguments of the second command.
pub proof fn lemma_survives_failed_spawn<H>(
    held: Option<H>,
    first: Command,
    second: Command,
    handle: H,
    flags: Seq<Seq<char>>,
)
    requires
        first.is_play(),
        second.is_play(),
    ensures
        final_held(held, seq![first], seq![None::<H>]) is None,
        final_held(held, seq![first, second], seq![None, Some(handle)]) == Some(handle),
        history(held, seq![first, second], seq![None, Some(handle)], flags) == match held {
            Some(old) => seq![Record::Killed(old)],
            None => Seq::empty(),
        } + seq![
            Record::Launched { args: first.args(flags)->0, handle: None },
            Record::Launched { args: second.args(flags)->0, handle: Some(handle) },
        ],
{
    let one = seq![first];
    let one_outcome = seq![None::<H>];
    let two = seq![first, second];
    let two_outcomes = seq![None, Some(handle)];
    assert(one.drop_last() =~= Seq::<Command>::empty());
    assert(one_outcome.drop_last() =~= Seq::<Option<H>>::empty());
    assert(two.drop_last() =~= one);
    assert(two_outcomes.drop_last() =~= one_outcome);
    lemma_records_of(held, first, None, flags);
    lemma_records_of(None::<H>, second, Some(handle), flags);
    let nothing = Seq::<Command>::empty();
    let no_outcome = Seq::<Option<H>>::empty();
    assert(history(held, nothing, no_outcome, flags) =~= Seq::<Record<H>>::empty());
    assert(history(held, one, one_outcome, flags) =~= records_of(held, first, None, flags));
}

} // verus!
