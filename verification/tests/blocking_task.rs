use availcheck::blocking_task::{
    ServerAction, ServerCommand, ServerCommandSuccess, ServerMessage, Source, TaskServer,
    TaskServerOperation, TaskWorker, TaskWorkerOperation, WorkerCommand, WorkerMessage,
};

struct Adder {
    sum: u32,
}

impl TaskWorkerOperation<u32, u32> for Adder {
    fn op(&mut self, query: u32) -> Option<u32> {
        if query == 0 {
            return None;
        }
        self.sum += query;
        Some(self.sum)
    }
}

struct Log {
    lines: Vec<String>,
}

impl TaskServerOperation<u8, u32, u32> for Log {
    fn op(&mut self, idx: &u8, query: &u32, val: u32) {
        self.lines.push(format!("{}: {} -> {}", idx, query, val));
    }

    fn cleanup(&mut self, idx: &u8) {
        self.lines.push(format!("{}: gone", idx));
    }
}

type Server = TaskServer<u8, Log, &'static str, &'static str>;
type Action = ServerAction<u8, u32, Adder>;

fn server() -> Server {
    let mut server = TaskServer::new(Log { lines: vec![] });
    assert_eq!(server.gen_client("first"), 0);
    assert_eq!(server.gen_client("second"), 1);
    server
}

#[test]
fn a_worker_answers_queries_until_it_exits() {
    let mut worker = TaskWorker { state: Adder { sum: 0 } };
    assert_eq!(worker.answer(WorkerCommand::Query(2)), WorkerMessage::Done((2, 2)));
    let message = worker.answer(WorkerCommand::Query(3));
    assert_eq!(message, WorkerMessage::Done((3, 5)));
    assert!(!message.is_bye());
    let message = worker.answer(WorkerCommand::Exit);
    assert_eq!(message, WorkerMessage::Bye);
    assert!(message.is_bye());
    assert_eq!(worker.state.sum, 5);
}

#[test]
fn an_operation_can_stop_its_worker() {
    let mut worker = TaskWorker { state: Adder { sum: 1 } };
    assert_eq!(worker.answer(WorkerCommand::Query(0)), WorkerMessage::Bye);
}

#[test]
fn a_query_is_mapped() {
    assert_eq!(WorkerCommand::Query(2).map(|x: u8| x as u32 * 10), WorkerCommand::Query(20));
    assert_eq!(WorkerCommand::Exit.map(|x: u8| x as u32), WorkerCommand::Exit);
}

#[test]
fn a_server_without_clients_does_not_run() {
    let mut server: Server = TaskServer::new(Log { lines: vec![] });
    assert!(!server.can_run());
    server.gen_client("first");
    assert!(server.can_run());
}

#[test]
fn a_task_is_added_once() {
    let mut server = server();
    let action: Action = server.take_command(0, ServerCommand::Add((7, Adder { sum: 0 })));
    assert!(matches!(action, ServerAction::Spawn(0, 7, _)));
    assert_eq!(
        server.add_worker(0, 7, "worker"),
        (0, ServerMessage::Done(ServerCommandSuccess::Add(7)))
    );
    let action: Action = server.take_command(1, ServerCommand::Add((7, Adder { sum: 0 })));
    assert!(matches!(action, ServerAction::AlreadyRunning(7)));
    assert_eq!(server.workers[&7], "worker");
}

#[test]
fn queries_go_to_the_worker() {
    let mut server = server();
    server.add_worker(0, 7, "worker");
    let action: Action = server.take_command(0, ServerCommand::Query((7, 30)));
    assert!(matches!(action, ServerAction::ToWorker(7, WorkerCommand::Query(30))));
    let action: Action = server.take_command(1, ServerCommand::Query((8, 30)));
    assert!(matches!(action, ServerAction::ToClient(1, ServerMessage::WrongIndex(8))));
    let told = server.take_message(2, 7, WorkerMessage::Done((30, 31)));
    assert_eq!(told, None);
    assert_eq!(server.state.lines, vec!["7: 30 -> 31".to_string()]);
}

#[test]
fn stopping_does_nothing() {
    let mut server = server();
    server.add_worker(0, 7, "worker");
    let action: Action = server.take_command(0, ServerCommand::Stop);
    assert!(matches!(action, ServerAction::Nothing));
    assert_eq!(server.workers.len(), 1);
}

#[test]
fn deleting_an_unknown_task_does_nothing() {
    let mut server = server();
    let action: Action = server.take_command(0, ServerCommand::Delete(7));
    assert!(matches!(action, ServerAction::Nothing));
    assert!(server.ongoing_operations.is_empty());
}

#[test]
fn a_delete_is_answered_when_the_worker_has_stopped() {
    let mut server = server();
    server.add_worker(0, 7, "worker");
    assert_eq!(server.register_workers(), vec![7]);
    assert_eq!(server.source(0), Source::Client(0));
    assert_eq!(server.source(2), Source::Worker(7));
    let action: Action = server.take_command(1, ServerCommand::Delete(7));
    assert!(matches!(action, ServerAction::ToWorker(7, WorkerCommand::Exit)));
    assert_eq!(server.workers.len(), 1);
    let told = server.take_message(2, 7, WorkerMessage::Bye);
    assert_eq!(told, Some((1, ServerMessage::Done(ServerCommandSuccess::Delete(7)))));
    assert!(server.workers.is_empty());
    assert!(server.ongoing_operations.is_empty());
    assert!(server.selector_map.is_empty());
    assert_eq!(server.state.lines, vec!["7: gone".to_string()]);
    let action: Action = server.take_command(0, ServerCommand::Query((7, 1)));
    assert!(matches!(action, ServerAction::ToClient(0, ServerMessage::WrongIndex(7))));
}

#[test]
fn the_last_delete_gets_the_answer() {
    let mut server = server();
    server.add_worker(0, 7, "worker");
    let _: Action = server.take_command(0, ServerCommand::Delete(7));
    let _: Action = server.take_command(1, ServerCommand::Delete(7));
    let told = server.take_message(2, 7, WorkerMessage::Bye);
    assert_eq!(told, Some((1, ServerMessage::Done(ServerCommandSuccess::Delete(7)))));
}

#[test]
fn workers_stand_behind_the_clients() {
    let mut server = server();
    server.add_worker(0, 7, "seven");
    server.add_worker(0, 8, "eight");
    let order = server.register_workers();
    assert_eq!(order.len(), 2);
    assert_eq!(server.source(2), Source::Worker(order[0]));
    assert_eq!(server.source(3), Source::Worker(order[1]));
    assert_eq!(order[0] + order[1], 15);
}

#[test]
fn the_client_that_adds_a_task_is_told() {
    let mut server = server();
    let action: Action = server.take_command(1, ServerCommand::Add((7, Adder { sum: 0 })));
    match action {
        ServerAction::Spawn(client, idx, _) => assert_eq!(
            server.add_worker(client, idx, "worker"),
            (1, ServerMessage::Done(ServerCommandSuccess::Add(7)))
        ),
        _ => panic!("another action"),
    }
}

#[test]
fn queries_are_taken_in_one_by_one() {
    let mut server = server();
    server.add_worker(0, 7, "worker");
    let mut worker = TaskWorker { state: Adder { sum: 0 } };
    let mut sent = vec![];
    for (client, query) in vec![(0, 5), (1, 6), (0, 5)] {
        let action: Action = server.take_command(client, ServerCommand::Query((7, query)));
        match action {
            ServerAction::ToWorker(7, command) => sent.push(command),
            _ => panic!("another action"),
        }
    }
    for command in sent {
        let message: WorkerMessage<u32, u32> = worker.answer(command);
        assert_eq!(server.take_message(2, 7, message), None);
    }
    assert_eq!(
        server.state.lines,
        vec!["7: 5 -> 5".to_string(), "7: 6 -> 11".to_string(), "7: 5 -> 16".to_string()]
    );
}

#[test]
fn a_task_is_known_from_its_addition_to_its_deletion() {
    let mut server = server();
    for round in 0..2 {
        let action: Action = server.take_command(1, ServerCommand::Query((7, 1)));
        assert!(matches!(action, ServerAction::ToClient(1, ServerMessage::WrongIndex(7))));
        server.add_worker(0, 7, "worker");
        let action: Action = server.take_command(1, ServerCommand::Query((7, 1)));
        assert!(matches!(action, ServerAction::ToWorker(7, WorkerCommand::Query(1))));
        let _: Action = server.take_command(round, ServerCommand::Delete(7));
        let action: Action = server.take_command(1, ServerCommand::Query((7, 1)));
        assert!(matches!(action, ServerAction::ToWorker(7, WorkerCommand::Query(1))));
        assert_eq!(
            server.take_message(2, 7, WorkerMessage::Bye),
            Some((round, ServerMessage::Done(ServerCommandSuccess::Delete(7))))
        );
    }
}

#[test]
fn a_worker_replies_until_it_stops() {
    let mut worker = TaskWorker { state: Adder { sum: 0 } };
    let commands = vec![
        WorkerCommand::Query(1),
        WorkerCommand::Query(2),
        WorkerCommand::Exit,
        WorkerCommand::Query(3),
    ];
    let mut said: Vec<WorkerMessage<u32, u32>> = vec![];
    for command in commands {
        if said.iter().any(|message| message.is_bye()) {
            break;
        }
        said.push(worker.answer(command));
    }
    assert_eq!(
        said,
        vec![WorkerMessage::Done((1, 1)), WorkerMessage::Done((2, 3)), WorkerMessage::Bye]
    );
}
