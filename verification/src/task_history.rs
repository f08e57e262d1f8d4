//! What holds of a server of `blocking_task` over its whole life.
//!
//! A life is a sequence of events: the commands that the server reads from its clients, and the
//! messages that it reads from its workers, in the order in which it reads them.
use vstd::prelude::*;

use crate::blocking_task;
use crate::blocking_task::{
    ServerAction, ServerCommand, ServerCommandSuccess, ServerMessage, ServerModel, WorkerCommand,
    WorkerMessage,
};

verus! {

/// Something that the server reads: a command of the client at a place, or a message of the worker
/// of a task.
pub enum Event<I: Clone, Q, A, WS> {
    Command(usize, ServerCommand<I, Q, WS>),
    Message(I, WorkerMessage<Q, A>),
}

/// The event can come up. Only a worker that is there sends messages, and it stops only if it was
/// asked to.
pub open spec fn is_possible<I: Clone, Q, A, WS>(
    model: ServerModel<I>,
    event: Event<I, Q, A, WS>,
) -> bool {
    match event {
        Event::Command(_, _) => true,
        Event::Message(idx, message) => {
            &&& model.workers.contains(idx)
            &&& message is Bye ==> model.exiting.contains_key(idx)
        },
    }
}

/// What the server becomes by an event. A worker that a command asks for is started at once.
pub open spec fn after<I: Clone, Q, A, WS>(
    model: ServerModel<I>,
    event: Event<I, Q, A, WS>,
) -> ServerModel<I> {
    match event {
        Event::Command(client, command) => {
            let (next, action) = blocking_task::on_command(model, client, command);
            match action {
                ServerAction::Spawn(_, idx, _) => blocking_task::on_start(next, idx),
                _ => next,
            }
        },
        Event::Message(idx, WorkerMessage::Bye) => blocking_task::on_exit(model, idx),
        Event::Message(_, WorkerMessage::Done(_)) => model,
    }
}

/// Which client is told what because of an event.
pub open spec fn told<I: Clone, Q, A, WS>(
    model: ServerModel<I>,
    event: Event<I, Q, A, WS>,
) -> Option<(usize, ServerMessage<I>)> {
    match event {
        Event::Command(client, command) => match blocking_task::on_command(
            model,
            client,
            command,
        ).1 {
            ServerAction::Spawn(asker, idx, _) => Some(
                (asker, ServerMessage::Done(ServerCommandSuccess::Add(idx))),
            ),
            ServerAction::ToClient(asker, message) => Some((asker, message)),
            _ => None,
        },
        Event::Message(idx, WorkerMessage::Bye) => Some(
            (model.exiting[idx], ServerMessage::Done(ServerCommandSuccess::Delete(idx))),
        ),
        Event::Message(_, WorkerMessage::Done(_)) => None,
    }
}

/// Which worker is sent what because of an event.
pub open spec fn passed<I: Clone, Q, A, WS>(
    model: ServerModel<I>,
    event: Event<I, Q, A, WS>,
) -> Option<(I, WorkerCommand<Q>)> {
    match event {
        Event::Command(client, command) => match blocking_task::on_command(
            model,
            client,
            command,
        ).1 {
            ServerAction::ToWorker(idx, command) => Some((idx, command)),
            _ => None,
        },
        Event::Message(_, _) => None,
    }
}

/// What the server becomes by some events.
pub open spec fn run<I: Clone, Q, A, WS>(
    model: ServerModel<I>,
    events: Seq<Event<I, Q, A, WS>>,
) -> ServerModel<I>
    decreases events.len(),
{
    if events.len() == 0 {
        model
    } else {
        after(run(model, events.drop_last()), events.last())
    }
}

/// The events can come up one after the other.
pub open spec fn is_possible_run<I: Clone, Q, A, WS>(
    model: ServerModel<I>,
    events: Seq<Event<I, Q, A, WS>>,
) -> bool
    decreases events.len(),
{
    events.len() > 0 ==> {
        &&& is_possible_run(model, events.drop_last())
        &&& is_possible(run(model, events.drop_last()), events.last())
    }
}

/// All that clients are told because of some events, in its order.
pub open spec fn log<I: Clone, Q, A, WS>(
    model: ServerModel<I>,
    events: Seq<Event<I, Q, A, WS>>,
) -> Seq<(usize, ServerMessage<I>)>
    decreases events.len(),
{
    if events.len() == 0 {
        Seq::empty()
    } else {
        let earlier = log(model, events.drop_last());
        match told(run(model, events.drop_last()), events.last()) {
            Some(message) => earlier.push(message),
            None => earlier,
        }
    }
}

/// The last that was told about the presence of a task is that it was added.
pub open spec fn is_announced<I: Clone>(log: Seq<(usize, ServerMessage<I>)>, idx: I) -> bool {
    exists|k: int|
        {
            &&& 0 <= k < log.len()
            &&& (#[trigger] log[k]).1 == ServerMessage::Done(ServerCommandSuccess::Add(idx))
            &&& forall|j: int|
                k < j < log.len() ==> (#[trigger] log[j]).1 != ServerMessage::Done(
                    ServerCommandSuccess::Delete(idx),
                )
        }
}

/// What one more message changes.
proof fn lemma_announced_push<I: Clone>(
    log: Seq<(usize, ServerMessage<I>)>,
    message: (usize, ServerMessage<I>),
    idx: I,
)
    ensures
        is_announced(log.push(message), idx) <==> {
            ||| message.1 == ServerMessage::Done(ServerCommandSuccess::Add(idx))
            ||| is_announced(log, idx) && message.1 != ServerMessage::Done(
                ServerCommandSuccess::Delete(idx),
            )
        },
{
    let longer = log.push(message);
    if is_announced(longer, idx) {
        let k = choose|k: int|
            {
                &&& 0 <= k < longer.len()
                &&& (#[trigger] longer[k]).1 == ServerMessage::Done(ServerCommandSuccess::Add(idx))
                &&& forall|j: int|
                    k < j < longer.len() ==> (#[trigger] longer[j]).1 != ServerMessage::Done(
                        ServerCommandSuccess::Delete(idx),
                    )
            };
        if k < log.len() {
            assert(log[k] == longer[k]);
            assert forall|j: int| k < j < log.len() implies (#[trigger] log[j]).1
                != ServerMessage::Done(ServerCommandSuccess::Delete(idx)) by {
                assert(log[j] == longer[j]);
            }
            assert(longer[log.len() as int] == message);
        }
    }
    if message.1 == ServerMessage::Done(ServerCommandSuccess::Add(idx)) {
        assert(longer[log.len() as int] == message);
    } else if is_announced(log, idx) && message.1 != ServerMessage::Done(
        ServerCommandSuccess::Delete(idx),
    ) {
        let k = choose|k: int|
            {
                &&& 0 <= k < log.len()
                &&& (#[trigger] log[k]).1 == ServerMessage::Done(ServerCommandSuccess::Add(idx))
                &&& forall|j: int|
                    k < j < log.len() ==> (#[trigger] log[j]).1 != ServerMessage::Done(
                        ServerCommandSuccess::Delete(idx),
                    )
            };
        assert(longer[k] == log[k]);
        assert forall|j: int| k < j < longer.len() implies (#[trigger] longer[j]).1
            != ServerMessage::Done(ServerCommandSuccess::Delete(idx)) by {
            if j < log.len() {
                assert(longer[j] == log[j]);
            }
        }
    }
}

/// A task has a worker if and only if the last that was told about its presence is that it was
/// added: a task that was never added, or was deleted since, has none.
pub proof fn law_present_if_announced<I: Clone, Q, A, WS>(
    events: Seq<Event<I, Q, A, WS>>,
    idx: I,
)
    requires
        is_possible_run(blocking_task::no_workers(), events),
    ensures
        run(blocking_task::no_workers(), events).workers.contains(idx) <==> is_announced(
            log(blocking_task::no_workers(), events),
            idx,
        ),
    decreases events.len(),
{
    let start = blocking_task::no_workers::<I>();
    if events.len() > 0 {
        law_present_if_announced(events.drop_last(), idx);
        let model = run(start, events.drop_last());
        if let Some(message) = told(model, events.last()) {
            lemma_announced_push(log(start, events.drop_last()), message, idx);
        }
    }
}

/// A query is passed on to the worker of its task, and to no other, if the last that was told about
/// the presence of the task is that it was added. In every other case the client that sent the
/// query is told so, and no worker gets anything.
pub proof fn law_query_is_passed_on<I: Clone, Q, A, WS>(
    events: Seq<Event<I, Q, A, WS>>,
    client: usize,
    idx: I,
    query: Q,
)
    requires
        is_possible_run(blocking_task::no_workers(), events),
    ensures
        ({
            let model = run(blocking_task::no_workers(), events);
            let event = Event::<I, Q, A, WS>::Command(client, ServerCommand::Query((idx, query)));
            if is_announced(log(blocking_task::no_workers(), events), idx) {
                &&& passed(model, event) == Some((idx, WorkerCommand::Query(query)))
                &&& told(model, event) is None
            } else {
                &&& passed(model, event) is None
                &&& told(model, event) == Some((client, ServerMessage::WrongIndex(idx)))
            }
        }),
{
    law_present_if_announced(events, idx);
}

/// What a command leads to at once is told to the client that sent it, and to no other: that a task
/// was added to the client that added it, and that a task is unknown to the client that asked it
/// something. A deletion is told later.
pub proof fn law_asker_is_told<I: Clone, Q, A, WS>(
    model: ServerModel<I>,
    client: usize,
    command: ServerCommand<I, Q, WS>,
)
    ensures
        told(model, Event::<I, Q, A, WS>::Command(client, command)) == match command {
            ServerCommand::Add((idx, _)) => if model.workers.contains(idx) {
                None
            } else {
                Some((client, ServerMessage::Done(ServerCommandSuccess::Add(idx))))
            },
            ServerCommand::Query((idx, _)) => if model.workers.contains(idx) {
                None
            } else {
                Some((client, ServerMessage::WrongIndex(idx)))
            },
            _ => None,
        },
{
}

/// The event is a command to delete the task.
pub open spec fn deletes<I: Clone, Q, A, WS>(event: Event<I, Q, A, WS>, idx: I) -> bool {
    event matches Event::Command(_, ServerCommand::Delete(other)) && other == idx
}

/// The last command to delete the task, among some events, is the one of `client` at `k`.
pub open spec fn deletes_last<I: Clone, Q, A, WS>(
    events: Seq<Event<I, Q, A, WS>>,
    idx: I,
    client: usize,
    k: int,
) -> bool {
    &&& 0 <= k < events.len()
    &&& events[k] == Event::<I, Q, A, WS>::Command(client, ServerCommand::Delete(idx))
    &&& forall|j: int| k < j < events.len() ==> !deletes(#[trigger] events[j], idx)
}

/// If a worker is on its way out, then the client that is remembered for it sent the last command
/// to delete the task.
proof fn lemma_exit_was_asked<I: Clone, Q, A, WS>(events: Seq<Event<I, Q, A, WS>>, idx: I)
    requires
        is_possible_run(blocking_task::no_workers(), events),
        run(blocking_task::no_workers(), events).exiting.contains_key(idx),
    ensures
        run(blocking_task::no_workers(), events).workers.contains(idx),
        exists|k: int|
            deletes_last(
                events,
                idx,
                run(blocking_task::no_workers(), events).exiting[idx],
                k,
            ),
    decreases events.len(),
{
    let start = blocking_task::no_workers::<I>();
    if events.len() > 0 {
        let earlier = events.drop_last();
        let event = events.last();
        let before = run(start, earlier);
        let client = run(start, events).exiting[idx];
        let last = events.len() - 1;
        if deletes(event, idx) && before.workers.contains(idx) {
            assert(deletes_last(events, idx, client, last));
        } else {
            assert(before.exiting.contains_key(idx));
            lemma_exit_was_asked(earlier, idx);
            let k = choose|k: int| deletes_last(earlier, idx, before.exiting[idx], k);
            assert(events[k] == earlier[k]);
            assert forall|j: int| k < j < events.len() implies !deletes(
                #[trigger] events[j],
                idx,
            ) by {
                if j < last {
                    assert(events[j] == earlier[j]);
                }
            }
            assert(deletes_last(events, idx, client, k));
        }
    }
}

/// Once a worker has stopped, the client that sent the last command to delete its task is told so,
/// and no other. There is such a client, and if there was one such command, it is the one that
/// sent it.
pub proof fn law_deletion_is_told<I: Clone, Q, A, WS>(events: Seq<Event<I, Q, A, WS>>, idx: I)
    requires
        is_possible_run(blocking_task::no_workers(), events),
        is_possible(
            run(blocking_task::no_workers(), events),
            Event::<I, Q, A, WS>::Message(idx, WorkerMessage::Bye),
        ),
    ensures
        exists|client: usize, k: int| deletes_last(events, idx, client, k),
        forall|client: usize, k: int| #[trigger]
            deletes_last(events, idx, client, k) ==> told(
                run(blocking_task::no_workers(), events),
                Event::<I, Q, A, WS>::Message(idx, WorkerMessage::Bye),
            ) == Some((client, ServerMessage::Done(ServerCommandSuccess::Delete(idx)))),
{
    let model = run(blocking_task::no_workers(), events);
    lemma_exit_was_asked(events, idx);
    let asker = model.exiting[idx];
    let place = choose|k: int| deletes_last(events, idx, asker, k);
    assert forall|client: usize, k: int| #[trigger]
        deletes_last(events, idx, client, k) implies client == asker by {
        assert(deletes(events[k], idx));
        assert(deletes(events[place], idx));
        assert(k == place);
    }
}

/// The commands that the worker of a task is sent because of some events, in their order.
pub open spec fn sent_to<I: Clone, Q, A, WS>(
    model: ServerModel<I>,
    events: Seq<Event<I, Q, A, WS>>,
    idx: I,
) -> Seq<WorkerCommand<Q>>
    decreases events.len(),
{
    if events.len() == 0 {
        Seq::empty()
    } else {
        let earlier = sent_to(model, events.drop_last(), idx);
        match passed(run(model, events.drop_last()), events.last()) {
            Some((other, command)) => if other == idx {
                earlier.push(command)
            } else {
                earlier
            },
            None => earlier,
        }
    }
}

/// The queries of a task among some events, in the order in which the server reads them.
pub open spec fn queries_of<I: Clone, Q, A, WS>(events: Seq<Event<I, Q, A, WS>>, idx: I) -> Seq<Q>
    decreases events.len(),
{
    if events.len() == 0 {
        Seq::empty()
    } else {
        let earlier = queries_of(events.drop_last(), idx);
        match events.last() {
            Event::Command(_, ServerCommand::Query((other, query))) => if other == idx {
                earlier.push(query)
            } else {
                earlier
            },
            _ => earlier,
        }
    }
}

/// The messages of the worker of a task among some events, in the order in which the server reads
/// them.
pub open spec fn heard_from<I: Clone, Q, A, WS>(
    events: Seq<Event<I, Q, A, WS>>,
    idx: I,
) -> Seq<WorkerMessage<Q, A>>
    decreases events.len(),
{
    if events.len() == 0 {
        Seq::empty()
    } else {
        let earlier = heard_from(events.drop_last(), idx);
        match events.last() {
            Event::Message(other, message) => if other == idx {
                earlier.push(message)
            } else {
                earlier
            },
            _ => earlier,
        }
    }
}

/// The queries and answers that the operation of the server takes in for a task because of some
/// events, in the order of the calls.
pub open spec fn taken_in<I: Clone, Q, A, WS>(
    events: Seq<Event<I, Q, A, WS>>,
    idx: I,
) -> Seq<(Q, A)>
    decreases events.len(),
{
    if events.len() == 0 {
        Seq::empty()
    } else {
        let earlier = taken_in(events.drop_last(), idx);
        match events.last() {
            Event::Message(other, WorkerMessage::Done(answered)) => if other == idx {
                earlier.push(answered)
            } else {
                earlier
            },
            _ => earlier,
        }
    }
}

/// What a worker says to a command, where `answer` is what its operation gives if it is asked.
pub open spec fn reply_to<Q, A>(
    command: WorkerCommand<Q>,
    answer: Option<A>,
) -> WorkerMessage<Q, A> {
    match command {
        WorkerCommand::Query(query) => blocking_task::message_of(query, answer),
        WorkerCommand::Exit => WorkerMessage::Bye,
    }
}

/// The messages are what a worker says to the first of the commands, one after the other, where
/// `answers` is what its operation gives.
pub open spec fn are_replies<Q, A>(
    messages: Seq<WorkerMessage<Q, A>>,
    commands: Seq<WorkerCommand<Q>>,
    answers: Seq<Option<A>>,
) -> bool {
    &&& messages.len() <= commands.len()
    &&& forall|k: int|
        0 <= k < messages.len() ==> #[trigger] messages[k] == reply_to(commands[k], answers[k])
}

/// All that a worker says to some commands, one after the other, where `answers` is what its
/// operation gives. After the message `Bye` it says nothing more.
pub open spec fn says<Q, A>(
    commands: Seq<WorkerCommand<Q>>,
    answers: Seq<Option<A>>,
) -> Seq<WorkerMessage<Q, A>>
    decreases commands.len(),
{
    if commands.len() == 0 {
        Seq::empty()
    } else {
        let earlier = says(commands.drop_last(), answers);
        if earlier.len() > 0 && earlier.last() is Bye {
            earlier
        } else {
            earlier.push(reply_to(commands.last(), answers[commands.len() - 1]))
        }
    }
}

/// A worker replies to its commands one by one, in their order. Only its last message can be `Bye`,
/// and if it leaves commands without a reply, then its last message is `Bye`.
pub proof fn law_worker_replies_until_it_stops<Q, A>(
    commands: Seq<WorkerCommand<Q>>,
    answers: Seq<Option<A>>,
)
    ensures
        are_replies(says(commands, answers), commands, answers),
        forall|k: int|
            0 <= k < says(commands, answers).len() - 1 ==> (#[trigger] says(
                commands,
                answers,
            )[k]) is Done,
        says(commands, answers).len() < commands.len() ==> {
            &&& says(commands, answers).len() > 0
            &&& says(commands, answers).last() is Bye
        },
    decreases commands.len(),
{
    if commands.len() > 0 {
        let earlier = commands.drop_last();
        law_worker_replies_until_it_stops(earlier, answers);
        let said = says(commands, answers);
        let said_before = says(earlier, answers);
        assert forall|k: int| 0 <= k < said.len() implies #[trigger] said[k] == reply_to(
            commands[k],
            answers[k],
        ) by {
            if k < said_before.len() {
                assert(said[k] == said_before[k]);
                assert(commands[k] == earlier[k]);
            }
        }
        assert forall|k: int| 0 <= k < said.len() - 1 implies (#[trigger] said[k]) is Done by {
            assert(said[k] == said_before[k]);
        }
    }
}

/// The worker of a task does not stop among some events.
pub open spec fn keeps_running<I: Clone, Q, A, WS>(
    events: Seq<Event<I, Q, A, WS>>,
    idx: I,
) -> bool {
    forall|k: int|
        0 <= k < events.len() ==> #[trigger] events[k] != Event::<I, Q, A, WS>::Message(
            idx,
            WorkerMessage::Bye,
        )
}

/// A worker that keeps running among some events keeps running among all but the last of them.
proof fn lemma_kept_running<I: Clone, Q, A, WS>(events: Seq<Event<I, Q, A, WS>>, idx: I)
    requires
        keeps_running(events, idx),
        events.len() > 0,
    ensures
        keeps_running(events.drop_last(), idx),
        events.last() != Event::<I, Q, A, WS>::Message(idx, WorkerMessage::Bye),
{
    let earlier = events.drop_last();
    assert forall|k: int| 0 <= k < earlier.len() implies #[trigger] earlier[k] != Event::<
        I,
        Q,
        A,
        WS,
    >::Message(idx, WorkerMessage::Bye) by {
        assert(events[k] == earlier[k]);
    }
    assert(events[events.len() - 1] == events.last());
}

/// While a worker runs, every query of its task is sent to it.
proof fn lemma_queries_are_sent<I: Clone, Q, A, WS>(
    model: ServerModel<I>,
    events: Seq<Event<I, Q, A, WS>>,
    idx: I,
)
    requires
        model.workers.contains(idx),
        keeps_running(events, idx),
    ensures
        run(model, events).workers.contains(idx),
        queries_of(events, idx).len() <= sent_to(model, events, idx).len(),
    decreases events.len(),
{
    if events.len() > 0 {
        lemma_kept_running(events, idx);
        lemma_queries_are_sent(model, events.drop_last(), idx);
    }
}

/// As long as a worker was sent nothing but queries, they come in the order in which they were
/// read.
proof fn lemma_queries_are_sent_in_order<I: Clone, Q, A, WS>(
    model: ServerModel<I>,
    events: Seq<Event<I, Q, A, WS>>,
    idx: I,
    n: int,
)
    requires
        model.workers.contains(idx),
        keeps_running(events, idx),
        0 <= n <= sent_to(model, events, idx).len(),
        forall|k: int| 0 <= k < n ==> (#[trigger] sent_to(model, events, idx)[k]) is Query,
    ensures
        n <= queries_of(events, idx).len(),
        forall|k: int|
            0 <= k < n ==> #[trigger] sent_to(model, events, idx)[k] == WorkerCommand::Query(
                queries_of(events, idx)[k],
            ),
    decreases events.len(),
{
    if events.len() > 0 {
        let earlier = events.drop_last();
        let sent = sent_to(model, events, idx);
        let sent_before = sent_to(model, earlier, idx);
        let queries = queries_of(events, idx);
        let queries_before = queries_of(earlier, idx);
        lemma_kept_running(events, idx);
        lemma_queries_are_sent(model, earlier, idx);
        let m = if n <= sent_before.len() {
            n
        } else {
            sent_before.len() as int
        };
        assert forall|k: int| 0 <= k < m implies (#[trigger] sent_before[k]) is Query by {
            assert(sent[k] == sent_before[k]);
        }
        lemma_queries_are_sent_in_order(model, earlier, idx, m);
        if m < n {
            assert(n == sent.len());
            assert(sent[m] is Query);
            assert(queries_before.len() == m);
            assert(queries.len() == n);
            assert(sent[m] == WorkerCommand::Query(queries[m]));
        }
        assert forall|k: int| 0 <= k < n implies #[trigger] sent[k] == WorkerCommand::Query(
            queries[k],
        ) by {
            if k < m {
                assert(sent[k] == sent_before[k]);
                assert(queries[k] == queries_before[k]);
            }
        }
    }
}

/// While a worker runs, all that was heard from it was taken in.
proof fn lemma_heard_is_taken_in<I: Clone, Q, A, WS>(events: Seq<Event<I, Q, A, WS>>, idx: I)
    requires
        keeps_running(events, idx),
    ensures
        taken_in(events, idx).len() == heard_from(events, idx).len(),
        forall|k: int|
            0 <= k < heard_from(events, idx).len() ==> #[trigger] heard_from(events, idx)[k]
                == WorkerMessage::Done(taken_in(events, idx)[k]),
    decreases events.len(),
{
    if events.len() > 0 {
        lemma_kept_running(events, idx);
        lemma_heard_is_taken_in(events.drop_last(), idx);
    }
}

/// From when a worker has started until it stops, the operation of the server takes in the answers
/// to the queries of its task one by one, each once, in the order in which the queries were read,
/// and with the query that it answers. Once the worker has replied to all that it was sent, all
/// queries have been taken in. It is assumed that the worker gets its commands, and the server its
/// messages, in the order in which they were sent: what the server has heard is the beginning of
/// what the worker says to the commands that it was sent.
pub proof fn law_queries_are_taken_in_order<I: Clone, Q, A, WS>(
    model: ServerModel<I>,
    events: Seq<Event<I, Q, A, WS>>,
    idx: I,
    answers: Seq<Option<A>>,
)
    requires
        model.workers.contains(idx),
        keeps_running(events, idx),
        heard_from(events, idx).is_prefix_of(says(sent_to(model, events, idx), answers)),
    ensures
        taken_in(events, idx).len() <= queries_of(events, idx).len(),
        forall|k: int|
            0 <= k < taken_in(events, idx).len() ==> {
                &&& (#[trigger] taken_in(events, idx)[k]).0 == queries_of(events, idx)[k]
                &&& answers[k] == Some(taken_in(events, idx)[k].1)
            },
        heard_from(events, idx).len() == sent_to(model, events, idx).len() ==> taken_in(
            events,
            idx,
        ).len() == queries_of(events, idx).len(),
{
    let heard = heard_from(events, idx);
    let sent = sent_to(model, events, idx);
    law_worker_replies_until_it_stops(sent, answers);
    assert forall|k: int| 0 <= k < heard.len() implies #[trigger] heard[k] == reply_to(
        sent[k],
        answers[k],
    ) by {
        assert(heard[k] == says(sent, answers)[k]);
    }
    lemma_heard_is_taken_in(events, idx);
    lemma_queries_are_sent(model, events, idx);
    assert forall|k: int| 0 <= k < heard.len() implies (#[trigger] sent[k]) is Query by {
        assert(heard[k] == reply_to(sent[k], answers[k]));
        assert(heard[k] == WorkerMessage::<Q, A>::Done(taken_in(events, idx)[k]));
    }
    lemma_queries_are_sent_in_order(model, events, idx, heard.len() as int);
    assert forall|k: int| 0 <= k < taken_in(events, idx).len() implies {
        &&& (#[trigger] taken_in(events, idx)[k]).0 == queries_of(events, idx)[k]
        &&& answers[k] == Some(taken_in(events, idx)[k].1)
    } by {
        assert(heard[k] == reply_to(sent[k], answers[k]));
        assert(heard[k] == WorkerMessage::<Q, A>::Done(taken_in(events, idx)[k]));
        assert(sent[k] == WorkerCommand::Query(queries_of(events, idx)[k]));
    }
}

/// No client is told anything because of a query of a task that has a worker, nor because of the
/// answer to it.
pub proof fn law_queries_are_quiet<I: Clone, Q, A, WS>(
    model: ServerModel<I>,
    client: usize,
    idx: I,
    query: Q,
    answer: A,
)
    requires
        model.workers.contains(idx),
    ensures
        told(
            model,
            Event::<I, Q, A, WS>::Command(client, ServerCommand::Query((idx, query))),
        ) is None,
        told(
            model,
            Event::<I, Q, A, WS>::Message(idx, WorkerMessage::Done((query, answer))),
        ) is None,
{
}

} // verus!
