//! A server that runs one worker for each task, and passes the queries of its clients on to them.
use std::collections::HashMap;
use std::hash::Hash;

use vstd::prelude::*;
use vstd::std_specs::hash::obeys_key_model;

use crate::walk;

verus! {

broadcast use vstd::std_specs::hash::group_hash_axioms;

/// What the server asks of a worker.
#[derive(Debug, PartialEq, Eq)]
pub enum WorkerCommand<T> {
    Query(T),
    Exit,
}

impl<T> WorkerCommand<T> {
    /// Applies `fun` to the query, if the command is one.
    pub fn map<F, O>(self, fun: F) -> (command: WorkerCommand<O>)
        where
            F: Fn(T) -> O,
        requires
            self matches WorkerCommand::Query(x) ==> call_requires(fun, (x,)),
        ensures
            match self {
                WorkerCommand::Query(x) => command matches WorkerCommand::Query(y) && call_ensures(
                    fun,
                    (x,),
                    y,
                ),
                WorkerCommand::Exit => command is Exit,
            },
    {
        if let WorkerCommand::Query(x) = self {
            WorkerCommand::Query(fun(x))
        } else {
            WorkerCommand::Exit
        }
    }
}

/// What a worker tells the server.
#[derive(Debug, PartialEq, Eq)]
pub enum WorkerMessage<Q, V> {
    Done((Q, V)),
    Bye,
}

impl<Q, V> WorkerMessage<Q, V> {
    /// Whether this is the last message of a worker.
    pub fn is_bye(&self) -> (bye: bool)
        ensures
            bye == (self is Bye),
    {
        match self {
            WorkerMessage::Bye => true,
            WorkerMessage::Done(_) => false,
        }
    }
}

/// The work that a worker does.
pub trait TaskWorkerOperation<Q, A> {
    /// Answers `query`: `Some(x)` hands `x` to whoever asked, `None` stops the worker.
    fn op(&mut self, query: Q) -> Option<A>;
}

/// A worker.
pub struct TaskWorker<WS> {
    pub state: WS,
}

/// What a worker says after its operation gave `answer` to `query`.
pub open spec fn message_of<Q, A>(query: Q, answer: Option<A>) -> WorkerMessage<Q, A> {
    match answer {
        Some(x) => WorkerMessage::Done((query, x)),
        None => WorkerMessage::Bye,
    }
}

impl<WS> TaskWorker<WS> {
    /// Carries out one command. After the message `Bye` the worker stops.
    pub fn answer<Q: Clone, A>(&mut self, command: WorkerCommand<Q>) -> (message: WorkerMessage<Q, A>)
        where
            WS: TaskWorkerOperation<Q, A>,
        ensures
            match command {
                WorkerCommand::Query(q) => exists|state: &mut WS, copy: Q, answer: Option<A>| {
                    &&& cloned(q, copy)
                    &&& *state == old(self).state
                    &&& *final(state) == final(self).state
                    &&& #[trigger] call_ensures(
                        <WS as TaskWorkerOperation<Q, A>>::op,
                        (state, copy),
                        answer,
                    )
                    &&& message == message_of(q, answer)
                },
                WorkerCommand::Exit => {
                    &&& message is Bye
                    &&& final(self).state == old(self).state
                },
            },
    {
        match command {
            WorkerCommand::Query(q) => {
                let copy = q.clone();
                assert(cloned(q, copy));
                match self.state.op(copy) {
                    Some(x) => WorkerMessage::Done((q, x)),
                    None => WorkerMessage::Bye,
                }
            },
            WorkerCommand::Exit => WorkerMessage::Bye,
        }
    }
}

/// What a client asks of the server.
#[derive(Debug)]
pub enum ServerCommand<I: Clone, Q, WS> {
    Add((I, WS)),
    Query((I, Q)),
    Delete(I),
    Stop,
}

/// A command that the server has carried out.
#[derive(Debug, Clone, PartialEq, Eq)]
pub enum ServerCommandSuccess<I: Clone> {
    Add(I),
    Delete(I),
}

/// What the server tells a client.
#[derive(Debug, Clone, PartialEq, Eq)]
pub enum ServerMessage<I: Clone> {
    Done(ServerCommandSuccess<I>),
    WrongIndex(I),
    Bye,
}

/// What the server does with the answers of its workers.
pub trait TaskServerOperation<I, Q, A> {
    /// Takes in the answer `val` of the worker for `idx` to `query`.
    fn op(&mut self, idx: &I, query: &Q, val: A);

    /// Cleans up after the worker for `idx`, which has stopped.
    fn cleanup(&mut self, idx: &I);
}

/// What the server has to do after a command of a client.
#[derive(Debug)]
pub enum ServerAction<I: Clone, Q, WS> {
    /// Nothing.
    Nothing,
    /// Nothing: the task has a worker already.
    AlreadyRunning(I),
    /// Start a worker for the task, as this client wants.
    Spawn(usize, I, WS),
    /// Send a command to the worker of the task.
    ToWorker(I, WorkerCommand<Q>),
    /// Send a message to the client at this place.
    ToClient(usize, ServerMessage<I>),
}

/// The server. A client is known by its place in `clients`, a worker by the task that it is for;
/// `C` and `W` are what it takes to talk to a client and to a worker.
pub struct TaskServer<I, S, C, W> {
    pub state: S,
    pub workers: HashMap<I, W>,
    pub clients: Vec<C>,
    /// For each worker that was asked to exit, the client that wanted it.
    pub ongoing_operations: HashMap<I, usize>,
    /// For each place behind the clients, the worker whose messages were waited for there.
    pub selector_map: HashMap<usize, I>,
}

/// What decides on the answers of a server: the tasks that have a worker, and for each of those
/// whose worker was asked to exit, the client that wanted it.
#[verifier::reject_recursive_types(I)]
pub struct ServerModel<I> {
    pub workers: Set<I>,
    pub exiting: Map<I, usize>,
}

/// A server without workers.
pub open spec fn no_workers<I>() -> ServerModel<I> {
    ServerModel { workers: Set::empty(), exiting: Map::empty() }
}

/// What the server becomes, and what it has to do, after `client` has sent a command.
pub open spec fn on_command<I: Clone, Q, WS>(
    model: ServerModel<I>,
    client: usize,
    command: ServerCommand<I, Q, WS>,
) -> (ServerModel<I>, ServerAction<I, Q, WS>) {
    match command {
        ServerCommand::Add((idx, ws)) => (
            model,
            if model.workers.contains(idx) {
                ServerAction::AlreadyRunning(idx)
            } else {
                ServerAction::Spawn(client, idx, ws)
            },
        ),
        ServerCommand::Query((idx, query)) => (
            model,
            if model.workers.contains(idx) {
                ServerAction::ToWorker(idx, WorkerCommand::Query(query))
            } else {
                ServerAction::ToClient(client, ServerMessage::WrongIndex(idx))
            },
        ),
        ServerCommand::Delete(idx) => if model.workers.contains(idx) {
            (
                ServerModel { exiting: model.exiting.insert(idx, client), ..model },
                ServerAction::ToWorker(idx, WorkerCommand::Exit),
            )
        } else {
            (model, ServerAction::Nothing)
        },
        ServerCommand::Stop => (model, ServerAction::Nothing),
    }
}

/// What the server becomes once a worker for `idx` runs.
pub open spec fn on_start<I>(model: ServerModel<I>, idx: I) -> ServerModel<I> {
    ServerModel { workers: model.workers.insert(idx), ..model }
}

/// What the server becomes once the worker for `idx` has stopped.
pub open spec fn on_exit<I>(model: ServerModel<I>, idx: I) -> ServerModel<I> {
    ServerModel { workers: model.workers.remove(idx), exiting: model.exiting.remove(idx) }
}

/// Where a message came from.
#[derive(Debug, PartialEq, Eq)]
pub enum Source<I> {
    Client(usize),
    Worker(I),
}

impl<I, S, C, W> TaskServer<I, S, C, W> {
    /// The part of the server that decides on its answers.
    pub open spec fn model(&self) -> ServerModel<I> {
        ServerModel { workers: self.workers@.dom(), exiting: self.ongoing_operations@ }
    }

    /// Only workers that exist are on their way out, and the clients that wanted it are known.
    pub open spec fn wf(&self) -> bool {
        &&& self.ongoing_operations@.dom().subset_of(self.workers@.dom())
        &&& forall|idx: I| #[trigger]
            self.ongoing_operations@.contains_key(idx) ==> self.ongoing_operations@[idx]
                < self.clients@.len()
    }

    /// The places behind the clients are those of the workers in `order`.
    pub open spec fn waits_for(&self, order: Seq<I>) -> bool {
        forall|place: usize|
            self.clients@.len() <= place < self.clients@.len() + order.len() ==> {
                &&& #[trigger] self.selector_map@.contains_key(place)
                &&& self.selector_map@[place] == order[place - self.clients@.len()]
            }
    }
}

impl<I: Hash + Eq + Clone, S, C, W> TaskServer<I, S, C, W> {
    /// A server without clients and workers.
    pub fn new(state: S) -> (server: Self)
        ensures
            server.wf(),
            server.model() == no_workers::<I>(),
            server.state == state,
            server.workers@ == Map::<I, W>::empty(),
            server.clients@ == Seq::<C>::empty(),
            server.ongoing_operations@ == Map::<I, usize>::empty(),
            server.selector_map@ == Map::<usize, I>::empty(),
    {
        let server = TaskServer {
            state,
            workers: HashMap::new(),
            clients: Vec::new(),
            ongoing_operations: HashMap::new(),
            selector_map: HashMap::new(),
        };
        assert(server.model().workers =~= Set::<I>::empty());
        server
    }

    /// Registers a client, and tells its place.
    pub fn gen_client(&mut self, client: C) -> (place: usize)
        requires
            old(self).wf(),
        ensures
            final(self).wf(),
            place == old(self).clients@.len(),
            final(self).clients@ == old(self).clients@.push(client),
            final(self).state == old(self).state,
            final(self).workers == old(self).workers,
            final(self).ongoing_operations == old(self).ongoing_operations,
            final(self).selector_map == old(self).selector_map,
    {
        let place = self.clients.len();
        self.clients.push(client);
        place
    }

    /// Whether there is anything to do: a server without clients does not run.
    pub fn can_run(&self) -> (can: bool)
        ensures
            can == (self.clients@.len() != 0),
    {
        self.clients.len() != 0
    }

    /// Lists the workers whose messages are to be waited for, in the order in which they stand
    /// behind the clients, and takes down which worker stands where.
    pub fn register_workers(&mut self) -> (order: Vec<I>)
        requires
            obeys_key_model::<I>(),
            walk::clones_faithfully::<I>(),
            old(self).clients@.len() + old(self).workers@.len() <= usize::MAX,
        ensures
            walk::lists_keys(old(self).workers@, order@),
            final(self).waits_for(order@),
            forall|place: usize|
                place < old(self).clients@.len() || old(self).clients@.len() + order@.len() <= place
                    ==> {
                    &&& #[trigger] final(self).selector_map@.contains_key(place)
                        == old(self).selector_map@.contains_key(place)
                    &&& final(self).selector_map@[place] == old(self).selector_map@[place]
                },
            final(self).state == old(self).state,
            final(self).workers == old(self).workers,
            final(self).clients == old(self).clients,
            final(self).ongoing_operations == old(self).ongoing_operations,
    {
        let order = walk::walk_keys(&self.workers);
        let first = self.clients.len();
        let mut j: usize = 0;
        while j < order.len()
            invariant
                walk::clones_faithfully::<I>(),
                first == self.clients@.len(),
                first + order@.len() <= usize::MAX,
                j <= order.len(),
                forall|place: usize|
                    first <= place < first + j ==> {
                        &&& #[trigger] self.selector_map@.contains_key(place)
                        &&& self.selector_map@[place] == order@[place - first]
                    },
                forall|place: usize|
                    place < first || first + j <= place ==> {
                        &&& #[trigger] self.selector_map@.contains_key(place)
                            == old(self).selector_map@.contains_key(place)
                        &&& self.selector_map@[place] == old(self).selector_map@[place]
                    },
                self.state == old(self).state,
                self.workers == old(self).workers,
                self.clients == old(self).clients,
                self.ongoing_operations == old(self).ongoing_operations,
            decreases order.len() - j,
        {
            let idx = order[j].clone();
            assert(cloned(order@[j as int], idx));
            self.selector_map.insert(first + j, idx);
            j += 1;
        }
        order
    }

    /// Who the message at the place `val_index` is from.
    pub fn source(&self, val_index: usize) -> (source: Source<I>)
        requires
            walk::clones_faithfully::<I>(),
            val_index < self.clients@.len() || self.selector_map@.contains_key(val_index),
        ensures
            source == if val_index < self.clients@.len() {
                Source::Client(val_index)
            } else {
                Source::Worker(self.selector_map@[val_index])
            },
    {
        if val_index < self.clients.len() {
            Source::Client(val_index)
        } else {
            let idx = self.selector_map.get(&val_index).unwrap();
            let copy = idx.clone();
            assert(cloned(*idx, copy));
            Source::Worker(copy)
        }
    }

    /// Takes in a command of a client.
    pub fn take_command<Q, WS>(&mut self, client: usize, msg: ServerCommand<I, Q, WS>) -> (action:
        ServerAction<I, Q, WS>)
        requires
            obeys_key_model::<I>(),
            walk::clones_faithfully::<I>(),
            old(self).wf(),
            client < old(self).clients@.len(),
        ensures
            final(self).wf(),
            (final(self).model(), action) == on_command(old(self).model(), client, msg),
            final(self).state == old(self).state,
            final(self).workers == old(self).workers,
            final(self).clients == old(self).clients,
            final(self).selector_map == old(self).selector_map,
    {
        match msg {
            ServerCommand::Add((idx, ws)) => {
                if self.workers.contains_key(&idx) {
                    ServerAction::AlreadyRunning(idx)
                } else {
                    ServerAction::Spawn(client, idx, ws)
                }
            },
            ServerCommand::Query((idx, query)) => {
                if self.workers.contains_key(&idx) {
                    ServerAction::ToWorker(idx, WorkerCommand::Query(query))
                } else {
                    ServerAction::ToClient(client, ServerMessage::WrongIndex(idx))
                }
            },
            ServerCommand::Delete(idx) => {
                if self.workers.contains_key(&idx) {
                    let copy = idx.clone();
                    assert(cloned(idx, copy));
                    self.ongoing_operations.insert(copy, client);
                    ServerAction::ToWorker(idx, WorkerCommand::Exit)
                } else {
                    ServerAction::Nothing
                }
            },
            ServerCommand::Stop => ServerAction::Nothing,
        }
    }

    /// Takes in a worker that was started for `idx`, as `client` wanted. That client is told so.
    pub fn add_worker(&mut self, client: usize, idx: I, worker: W) -> (told: (
        usize,
        ServerMessage<I>,
    ))
        requires
            obeys_key_model::<I>(),
            walk::clones_faithfully::<I>(),
            old(self).wf(),
            !old(self).workers@.contains_key(idx),
        ensures
            final(self).wf(),
            final(self).model() == on_start(old(self).model(), idx),
            final(self).workers@ == old(self).workers@.insert(idx, worker),
            told == (client, ServerMessage::Done(ServerCommandSuccess::Add(idx))),
            final(self).state == old(self).state,
            final(self).clients == old(self).clients,
            final(self).selector_map == old(self).selector_map,
    {
        let copy = idx.clone();
        assert(cloned(idx, copy));
        self.workers.insert(copy, worker);
        assert(self.model().workers =~= on_start(old(self).model(), idx).workers);
        (client, ServerMessage::Done(ServerCommandSuccess::Add(idx)))
    }

    /// Takes in a message of the worker for `idx`, which came in at the place `val_index`. If the
    /// worker has stopped, the client that wanted it to is told so.
    pub fn take_message<Q, A>(&mut self, val_index: usize, idx: I, msg: WorkerMessage<Q, A>) -> (told:
        Option<(usize, ServerMessage<I>)>)
        where
            S: TaskServerOperation<I, Q, A>,
        requires
            obeys_key_model::<I>(),
            old(self).wf(),
            old(self).workers@.contains_key(idx),
            msg is Bye ==> old(self).ongoing_operations@.contains_key(idx),
        ensures
            final(self).wf(),
            final(self).clients == old(self).clients,
            match msg {
                WorkerMessage::Done((query, val)) => {
                    &&& told is None
                    &&& exists|state: &mut S| {
                        &&& *state == old(self).state
                        &&& *final(state) == final(self).state
                        &&& #[trigger] call_ensures(
                            <S as TaskServerOperation<I, Q, A>>::op,
                            (state, &idx, &query, val),
                            (),
                        )
                    }
                    &&& final(self).workers == old(self).workers
                    &&& final(self).ongoing_operations == old(self).ongoing_operations
                    &&& final(self).selector_map == old(self).selector_map
                },
                WorkerMessage::Bye => {
                    &&& told == Some(
                        (
                            old(self).ongoing_operations@[idx],
                            ServerMessage::Done(ServerCommandSuccess::Delete(idx)),
                        ),
                    )
                    &&& exists|state: &mut S| {
                        &&& *state == old(self).state
                        &&& *final(state) == final(self).state
                        &&& #[trigger] call_ensures(
                            <S as TaskServerOperation<I, Q, A>>::cleanup,
                            (state, &idx),
                            (),
                        )
                    }
                    &&& final(self).model() == on_exit(old(self).model(), idx)
                    &&& final(self).workers@ == old(self).workers@.remove(idx)
                    &&& final(self).selector_map@ == old(self).selector_map@.remove(val_index)
                },
            },
    {
        match msg {
            WorkerMessage::Done((k, v)) => {
                self.state.op(&idx, &k, v);
                None
            },
            WorkerMessage::Bye => {
                self.selector_map.remove(&val_index);
                self.state.cleanup(&idx);
                let client_idx = self.ongoing_operations.remove(&idx).unwrap();
                self.workers.remove(&idx);
                assert(self.model().workers =~= on_exit(old(self).model(), idx).workers);
                Some((client_idx, ServerMessage::Done(ServerCommandSuccess::Delete(idx))))
            },
        }
    }
}

/// A worker that a client asks to delete is told to exit, and once it has stopped, the answer goes
/// to that client, whatever was asked about other tasks meanwhile; from then on the task is
/// unknown.
pub proof fn law_delete_is_answered<I: Clone, Q, WS>(
    model: ServerModel<I>,
    client: usize,
    idx: I,
    other_client: usize,
    other: ServerCommand<I, Q, WS>,
    query: Q,
)
    requires
        model.workers.contains(idx),
        other != ServerCommand::<I, Q, WS>::Delete(idx),
    ensures
        ({
            let (asked, action) = on_command(
                model,
                client,
                ServerCommand::<I, Q, WS>::Delete(idx),
            );
            let (meanwhile, _) = on_command(asked, other_client, other);
            let gone = on_exit(meanwhile, idx);
            &&& action == ServerAction::<I, Q, WS>::ToWorker(idx, WorkerCommand::Exit)
            &&& meanwhile.exiting.contains_key(idx)
            &&& meanwhile.exiting[idx] == client
            &&& on_command(
                gone,
                other_client,
                ServerCommand::<I, Q, WS>::Query((idx, query)),
            ).1 == ServerAction::<I, Q, WS>::ToClient(other_client, ServerMessage::WrongIndex(idx))
        }),
{
}

/// If two clients ask to delete the same task, the last of them gets the answer.
pub proof fn law_last_delete_is_answered<I: Clone, Q, WS>(
    model: ServerModel<I>,
    first: usize,
    last: usize,
    idx: I,
)
    requires
        model.workers.contains(idx),
    ensures
        ({
            let delete = ServerCommand::<I, Q, WS>::Delete(idx);
            let asked = on_command(on_command(model, first, delete).0, last, delete).0;
            &&& asked.exiting.contains_key(idx)
            &&& asked.exiting[idx] == last
        }),
{
}

/// Once a worker was added for a task, adding another one has no effect, and queries are passed
/// on to that worker.
pub proof fn law_added_once<I: Clone, Q, WS>(
    model: ServerModel<I>,
    client: usize,
    idx: I,
    ws: WS,
    query: Q,
)
    ensures
        ({
            let running = on_start(model, idx);
            let (again, action) = on_command(
                running,
                client,
                ServerCommand::<I, Q, WS>::Add((idx, ws)),
            );
            &&& again == running
            &&& action == ServerAction::<I, Q, WS>::AlreadyRunning(idx)
            &&& on_command(
                running,
                client,
                ServerCommand::<I, Q, WS>::Query((idx, query)),
            ) == (
                running,
                ServerAction::<I, Q, WS>::ToWorker(idx, WorkerCommand::Query(query)),
            )
        }),
{
}

/// A command neither starts nor removes a worker by itself: workers come when they were started,
/// and go when they have said goodbye.
pub proof fn law_commands_keep_workers<I: Clone, Q, WS>(
    model: ServerModel<I>,
    client: usize,
    command: ServerCommand<I, Q, WS>,
)
    ensures
        on_command(model, client, command).0.workers == model.workers,
{
}

/// What each command leads to. A task that has no worker gets one if it is added, and a query of it
/// is answered with its name; a task that has one gets the queries, and is told to exit if it is
/// deleted. Nothing else comes of a command.
pub proof fn law_commands_are_carried_out<I: Clone, Q, WS>(
    model: ServerModel<I>,
    client: usize,
    idx: I,
    query: Q,
    ws: WS,
)
    ensures
        ({
            let add = on_command(model, client, ServerCommand::<I, Q, WS>::Add((idx, ws)));
            let ask = on_command(model, client, ServerCommand::<I, Q, WS>::Query((idx, query)));
            let delete = on_command(model, client, ServerCommand::<I, Q, WS>::Delete(idx));
            let stop = on_command(model, client, ServerCommand::<I, Q, WS>::Stop);
            &&& add.0 == model && ask.0 == model && stop.0 == model
            &&& stop.1 is Nothing
            &&& delete.0.workers == model.workers
            &&& if model.workers.contains(idx) {
                &&& add.1 == ServerAction::<I, Q, WS>::AlreadyRunning(idx)
                &&& ask.1 == ServerAction::<I, Q, WS>::ToWorker(idx, WorkerCommand::Query(query))
                &&& delete.1 == ServerAction::<I, Q, WS>::ToWorker(idx, WorkerCommand::Exit)
                &&& delete.0.exiting == model.exiting.insert(idx, client)
            } else {
                &&& add.1 == ServerAction::<I, Q, WS>::Spawn(client, idx, ws)
                &&& ask.1 == ServerAction::<I, Q, WS>::ToClient(
                    client,
                    ServerMessage::WrongIndex(idx),
                )
                &&& delete.1 is Nothing
                &&& delete.0 == model
            }
        }),
{
}

/// A worker that has started is there, one that has stopped is not and is no longer waited for, and
/// other tasks are not concerned.
pub proof fn law_workers_come_and_go<I>(model: ServerModel<I>, idx: I, other: I)
    ensures
        on_start(model, idx).workers.contains(idx),
        on_start(model, idx).exiting == model.exiting,
        !on_exit(model, idx).workers.contains(idx),
        !on_exit(model, idx).exiting.contains_key(idx),
        other != idx ==> {
            &&& on_start(model, idx).workers.contains(other) == model.workers.contains(other)
            &&& on_exit(model, idx).workers.contains(other) == model.workers.contains(other)
            &&& on_exit(model, idx).exiting.contains_key(other) == model.exiting.contains_key(other)
            &&& on_exit(model, idx).exiting[other] == model.exiting[other]
        },
        !no_workers::<I>().workers.contains(idx),
        !no_workers::<I>().exiting.contains_key(idx),
{
}

/// A worker hands on what its operation answered, together with the query, and says goodbye if it
/// answered nothing.
pub proof fn law_answers_are_handed_on<Q, A>(query: Q, answer: A)
    ensures
        message_of(query, Some(answer)) == WorkerMessage::Done((query, answer)),
        message_of(query, None::<A>) == WorkerMessage::<Q, A>::Bye,
{
}

/// What the server knows: the tasks that have a worker, and for each worker that was asked to exit,
/// which is one of them, the place of a client. And where the workers of a list stand: behind the
/// clients, in its order.
pub proof fn law_server_knows_its_workers<I, S, C, W>(
    server: TaskServer<I, S, C, W>,
    order: Seq<I>,
    idx: I,
    k: int,
)
    ensures
        server.model().workers.contains(idx) <==> server.workers@.contains_key(idx),
        server.model().exiting == server.ongoing_operations@,
        server.wf() && server.ongoing_operations@.contains_key(idx) ==> {
            &&& server.workers@.contains_key(idx)
            &&& server.ongoing_operations@[idx] < server.clients@.len()
        },
        server.waits_for(order) && 0 <= k < order.len() && server.clients@.len() + k <= usize::MAX
            ==> {
            let place = (server.clients@.len() + k) as usize;
            &&& server.selector_map@.contains_key(place)
            &&& server.selector_map@[place] == order[k]
        },
{
}

} // verus!
