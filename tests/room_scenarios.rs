use radix_server::chat::ChatMessage;
use radix_server::model::{Code, ConnId, Problem, PublicUser, RoomConfig, TestCase, User, UserId};
use radix_server::protocol::{ClientSentCommand, FailedTestCase, JudgingResults, ServerSentCommand, TestResponse};
use radix_server::room::{JudgeRequest, Room, RoomCommands, RoomEffect};

fn user(id: &str, name: &str) -> User {
    User { id: UserId(id.to_string()), email: format!("{}@example.com", name), name: name.to_string(), image: format!("{}.png", name) }
}

fn conn(id: &str) -> ConnId {
    ConnId(id.to_string())
}

fn config(name: &str, owner: User) -> RoomConfig {
    RoomConfig { name: name.to_string(), public: true, owner }
}

fn case(input: &str, output: &str) -> TestCase {
    TestCase { input: input.to_string(), output: output.to_string() }
}

fn problem(cases: Vec<TestCase>) -> Problem {
    Problem {
        id: "prob-0".to_string(),
        title: "Add".to_string(),
        author: PublicUser { id: UserId("a".to_string()), name: "author".to_string(), image: String::new() },
        description: "Add two numbers".to_string(),
        boilerplate_code: Code { python: "def solve(a, b):\n".to_string(), javascript: String::new() },
        test_cases: cases,
        difficulty: 1,
    }
}

fn targets(to: &[ConnId]) -> Vec<String> {
    to.iter().map(|c| c.0.clone()).collect()
}

fn user_names(us: &[PublicUser]) -> Vec<String> {
    us.iter().map(|u| u.name.clone()).collect()
}

fn chat_text(m: &ChatMessage) -> String {
    match m {
        ChatMessage::UserChat { content, .. } => content.clone(),
        ChatMessage::Connection { username } => format!("+{}", username),
        ChatMessage::Disconnection { username } => format!("-{}", username),
        ChatMessage::RoundBegin => "round".to_string(),
        ChatMessage::UserSubmitted { username } => format!("submitted {}", username),
        ChatMessage::UserProblemCompletion { username, problem_index } => format!("solved {} {}", username, problem_index),
        ChatMessage::UserFinished { username, place } => format!("finished {} {}", username, place),
        ChatMessage::RoundEnd => "end".to_string(),
        ChatMessage::Bad => "bad".to_string(),
    }
}

#[test]
fn join_leave_fan_out() {
    let u1 = user("u1", "U1");
    let u2 = user("u2", "U2");
    let mut room = Room::new(vec![], config("R", u1.clone()));

    let e = room.add_connection(conn("c1"), u1.clone());
    assert_eq!(e.len(), 5);
    assert!(matches!(e[0], RoomEffect::CancelDeletionTimer));
    match &e[1] {
        RoomEffect::Send { to, command: ServerSentCommand::ChatHistory(h) } => {
            assert_eq!(to.0, "c1");
            assert!(h.is_empty());
        }
        _ => panic!("expected the chat history"),
    }
    match &e[2] {
        RoomEffect::Send { to, command: ServerSentCommand::SetRoomConfig { name, public, owner } } => {
            assert_eq!(to.0, "c1");
            assert_eq!(name, "R");
            assert!(*public);
            assert_eq!(owner.name, "U1");
        }
        _ => panic!("expected the room settings"),
    }
    match &e[3] {
        RoomEffect::Broadcast { to, command: ServerSentCommand::ChatMessage(ChatMessage::Connection { username }) } => {
            assert_eq!(targets(to), vec!["c1"]);
            assert_eq!(username, "U1");
        }
        _ => panic!("expected the join message"),
    }
    match &e[4] {
        RoomEffect::Broadcast { to, command: ServerSentCommand::SetUsers(us) } => {
            assert_eq!(targets(to), vec!["c1"]);
            assert_eq!(user_names(us), vec!["U1"]);
        }
        _ => panic!("expected the member list"),
    }

    let e = room.add_connection(conn("c2"), u2.clone());
    assert_eq!(e.len(), 4);
    match &e[0] {
        RoomEffect::Send { to, command: ServerSentCommand::ChatHistory(h) } => {
            assert_eq!(to.0, "c2");
            assert_eq!(h.iter().map(chat_text).collect::<Vec<_>>(), vec!["+U1"]);
        }
        _ => panic!("expected the chat history"),
    }
    assert!(matches!(&e[1], RoomEffect::Send { to, command: ServerSentCommand::SetRoomConfig { .. } } if to.0 == "c2"));
    match &e[2] {
        RoomEffect::Broadcast { to, command: ServerSentCommand::ChatMessage(ChatMessage::Connection { username }) } => {
            assert_eq!(targets(to), vec!["c1", "c2"]);
            assert_eq!(username, "U2");
        }
        _ => panic!("expected the join message"),
    }
    match &e[3] {
        RoomEffect::Broadcast { to, command: ServerSentCommand::SetUsers(us) } => {
            assert_eq!(targets(to), vec!["c1", "c2"]);
            assert_eq!(user_names(us), vec!["U1", "U2"]);
        }
        _ => panic!("expected the member list"),
    }

    let e = room.remove_connection(&conn("c1"));
    assert_eq!(e.len(), 2);
    match &e[0] {
        RoomEffect::Broadcast { to, command: ServerSentCommand::ChatMessage(ChatMessage::Disconnection { username }) } => {
            assert_eq!(targets(to), vec!["c2"]);
            assert_eq!(username, "U1");
        }
        _ => panic!("expected the leave message"),
    }
    match &e[1] {
        RoomEffect::Broadcast { to, command: ServerSentCommand::SetUsers(us) } => {
            assert_eq!(targets(to), vec!["c2"]);
            assert_eq!(user_names(us), vec!["U2"]);
        }
        _ => panic!("expected the member list"),
    }
}

#[test]
fn deletion_timer_follows_membership() {
    let owner = user("o", "O");
    let mut room = Room::new(vec![], config("R", owner.clone()));
    // A new room starts with its timer running and no member.
    let e = room.add_connection(conn("c1"), owner.clone());
    assert!(matches!(e[0], RoomEffect::CancelDeletionTimer));
    let e = room.remove_connection(&conn("c1"));
    assert_eq!(e.len(), 3);
    assert!(matches!(e[2], RoomEffect::StartDeletionTimer));
    let e = room.add_connection(conn("c2"), owner);
    assert!(matches!(e[0], RoomEffect::CancelDeletionTimer));
}

#[test]
fn stop_command_ends_the_room() {
    let mut room = Room::new(vec![], config("R", user("o", "O")));
    let e = room.handle_command(RoomCommands::Stop);
    assert_eq!(e.len(), 1);
    assert!(matches!(e[0], RoomEffect::Stop));
}

#[test]
fn chat_ring_evicts_oldest() {
    let u = user("u1", "U1");
    let mut room = Room::new(vec![], config("R", u.clone()));
    room.add_connection(conn("c1"), u);
    for i in 0..251 {
        let e = room.client_sent(&conn("c1"), ClientSentCommand::SendChatMessage { content: format!("m{}", i) });
        assert_eq!(e.len(), 1);
    }
    let history: Vec<String> = room.chat_history().iter().map(chat_text).collect();
    let expected: Vec<String> = (1..251).map(|i| format!("m{}", i)).collect();
    assert_eq!(history, expected);

    let e = room.add_connection(conn("c2"), user("u2", "U2"));
    match &e[0] {
        RoomEffect::Send { command: ServerSentCommand::ChatHistory(h), .. } => {
            assert_eq!(h.iter().map(chat_text).collect::<Vec<_>>(), expected);
        }
        _ => panic!("expected the chat history"),
    }
}

fn judge_request(e: &RoomEffect) -> &JudgeRequest {
    match e {
        RoomEffect::Judge(req) => req,
        _ => panic!("expected a judge request"),
    }
}

fn copy_request(r: &JudgeRequest) -> JudgeRequest {
    JudgeRequest {
        conn: r.conn.clone(),
        user: r.user.clone(),
        username: r.username.clone(),
        language: r.language.clone(),
        code: r.code.clone(),
        test_cases: r.test_cases.clone(),
        problem_index: r.problem_index,
    }
}

#[test]
fn test_code_success_answers_submitter_only() {
    let u = user("u1", "U");
    let mut room = Room::new(vec![], config("R", u.clone()));
    room.add_connection(conn("c1"), u);
    let code = "def solve(a,b):\n    return a+b\n";
    room.client_sent(&conn("c1"), ClientSentCommand::SetEditorContent { content: code.to_string() });
    let cases = vec![case("[1,2]", "3"), case("[5,7]", "12")];
    let e = room.client_sent(
        &conn("c1"),
        ClientSentCommand::TestCode { test_cases: cases.clone(), language: "python".to_string() },
    );
    assert_eq!(e.len(), 1);
    let req = copy_request(judge_request(&e[0]));
    assert_eq!(req.code, code);
    assert_eq!(req.problem_index, None);
    assert_eq!(req.test_cases.len(), 2);

    let before = room.chat_history().len();
    let results = JudgingResults { failed_tests: vec![], okay_tests: cases, runtime: 4 };
    let e = room.judged(req, Ok(results));
    assert_eq!(e.len(), 1);
    match &e[0] {
        RoomEffect::Send { to, command: ServerSentCommand::SetTestResponse(TestResponse::Ran { failed_tests, okay_tests }) } => {
            assert_eq!(to.0, "c1");
            assert!(failed_tests.is_empty());
            assert_eq!(okay_tests.len(), 2);
            assert_eq!(okay_tests[1].output, "12");
        }
        _ => panic!("expected the run outcome"),
    }
    assert_eq!(room.chat_history().len(), before);
}

#[test]
fn test_code_in_unknown_language_is_dropped() {
    let u = user("u1", "U");
    let mut room = Room::new(vec![], config("R", u.clone()));
    room.add_connection(conn("c1"), u);
    let e = room.client_sent(&conn("c1"), ClientSentCommand::TestCode { test_cases: vec![], language: "rust".to_string() });
    assert!(e.is_empty());
    let e = room.client_sent(&conn("c1"), ClientSentCommand::SubmitCode { problem_index: 0, language: "cobol".to_string() });
    assert!(e.is_empty());
}

#[test]
fn submit_code_full_pass_finishes() {
    let u = user("u1", "U");
    let cases = vec![case("[1,2]", "3"), case("[5,7]", "12"), case("[0,0]", "0")];
    let mut room = Room::new(vec![problem(cases)], config("R", u.clone()));
    room.add_connection(conn("c1"), u);
    let e = room.client_sent(&conn("c1"), ClientSentCommand::SubmitCode { problem_index: 0, language: "python".to_string() });
    assert_eq!(e.len(), 2);
    let req = copy_request(judge_request(&e[1]));
    assert_eq!(req.test_cases.len(), 3);
    assert_eq!(req.problem_index, Some(0));

    let results = JudgingResults { failed_tests: vec![], okay_tests: req.test_cases.clone(), runtime: 17 };
    let e = room.judged(req, Ok(results));
    assert_eq!(e.len(), 3);
    match &e[0] {
        RoomEffect::Send { to, command: ServerSentCommand::SetTestResponse(TestResponse::AllTestsPassed { runtime }) } => {
            assert_eq!(to.0, "c1");
            assert_eq!(*runtime, 17);
        }
        _ => panic!("expected the pass"),
    }
    let history: Vec<String> = room.chat_history().iter().map(chat_text).collect();
    assert_eq!(history, vec!["+U", "submitted U", "solved U 0", "finished U 1"]);
}

#[test]
fn submit_with_failures_sends_first_failure_only() {
    let u = user("u1", "U");
    let mut room = Room::new(vec![problem(vec![case("[1,2]", "3")])], config("R", u.clone()));
    room.add_connection(conn("c1"), u);
    let e = room.client_sent(&conn("c1"), ClientSentCommand::SubmitCode { problem_index: 0, language: "javascript".to_string() });
    let req = copy_request(judge_request(&e[1]));
    let failed = vec![
        FailedTestCase { input: "[1,2]".to_string(), output: "4".to_string(), expected: "3".to_string() },
        FailedTestCase { input: "[2,2]".to_string(), output: "5".to_string(), expected: "4".to_string() },
    ];
    let e = room.judged(req, Ok(JudgingResults { failed_tests: failed, okay_tests: vec![], runtime: 1 }));
    assert_eq!(e.len(), 1);
    match &e[0] {
        RoomEffect::Send { command: ServerSentCommand::SetTestResponse(TestResponse::Ran { failed_tests, okay_tests }), .. } => {
            assert_eq!(failed_tests.len(), 1);
            assert_eq!(failed_tests[0].output, "4");
            assert!(okay_tests.is_empty());
        }
        _ => panic!("expected the run outcome"),
    }
}

#[test]
fn judge_error_goes_to_submitter() {
    let u = user("u1", "U");
    let mut room = Room::new(vec![], config("R", u.clone()));
    room.add_connection(conn("c1"), u);
    let e = room.client_sent(&conn("c1"), ClientSentCommand::TestCode { test_cases: vec![], language: "python".to_string() });
    let req = copy_request(judge_request(&e[0]));
    let e = room.judged(req, Err("boom".to_string()));
    assert_eq!(e.len(), 1);
    assert!(matches!(&e[0], RoomEffect::Send { command: ServerSentCommand::SetTestResponse(TestResponse::Error { message }), .. } if message == "boom"));
}

#[test]
fn second_pass_of_solved_problem_announces_nothing_more() {
    let u = user("u1", "U");
    let mut room = Room::new(vec![problem(vec![case("[1,2]", "3")])], config("R", u.clone()));
    room.add_connection(conn("c1"), u);
    for _ in 0..2 {
        let e = room.client_sent(&conn("c1"), ClientSentCommand::SubmitCode { problem_index: 0, language: "python".to_string() });
        let req = copy_request(judge_request(&e[1]));
        room.judged(req, Ok(JudgingResults { failed_tests: vec![], okay_tests: vec![], runtime: 2 }));
    }
    let finished = room.chat_history().iter().filter(|m| matches!(m, ChatMessage::UserFinished { .. })).count();
    assert_eq!(finished, 1);
}

#[test]
fn places_count_up_across_users() {
    let a = user("a", "A");
    let b = user("b", "B");
    let mut room = Room::new(vec![problem(vec![case("[1,2]", "3")])], config("R", a.clone()));
    room.add_connection(conn("ca"), a);
    room.add_connection(conn("cb"), b);
    for c in ["ca", "cb"] {
        let e = room.client_sent(&conn(c), ClientSentCommand::SubmitCode { problem_index: 0, language: "python".to_string() });
        let req = copy_request(judge_request(&e[1]));
        room.judged(req, Ok(JudgingResults { failed_tests: vec![], okay_tests: vec![], runtime: 2 }));
    }
    let places: Vec<String> = room.chat_history().iter().filter(|m| matches!(m, ChatMessage::UserFinished { .. })).map(chat_text).collect();
    assert_eq!(places, vec!["finished A 1", "finished B 2"]);
}

#[test]
fn editor_keeps_last_write() {
    let u = user("u1", "U");
    let mut room = Room::new(vec![], config("R", u.clone()));
    room.add_connection(conn("c1"), u);
    assert!(room.client_sent(&conn("c1"), ClientSentCommand::SetEditorContent { content: "a".to_string() }).is_empty());
    assert!(room.client_sent(&conn("c1"), ClientSentCommand::SetEditorContent { content: "b".to_string() }).is_empty());
    let e = room.client_sent(&conn("c1"), ClientSentCommand::TestCode { test_cases: vec![], language: "python".to_string() });
    assert_eq!(judge_request(&e[0]).code, "b");
}

#[test]
fn remove_twice_is_a_no_op() {
    let u = user("u1", "U");
    let mut room = Room::new(vec![], config("R", u.clone()));
    room.add_connection(conn("c1"), u);
    assert_eq!(room.remove_connection(&conn("c1")).len(), 3);
    assert!(!room.has_connection(&conn("c1")));
    assert!(room.remove_connection(&conn("c1")).is_empty());
}

#[test]
fn begin_round_twice_is_dropped() {
    let u = user("u1", "U");
    let mut room = Room::new(vec![problem(vec![case("1", "1"), case("2", "2"), case("3", "3"), case("4", "4")])], config("R", u.clone()));
    room.add_connection(conn("c1"), u);
    let e = room.client_sent(&conn("c1"), ClientSentCommand::BeginRound);
    assert_eq!(e.len(), 2);
    match &e[1] {
        RoomEffect::Broadcast { command: ServerSentCommand::SetProblems(Some(ps)), .. } => {
            assert_eq!(ps.len(), 1);
            assert_eq!(ps[0].default_test_cases.len(), 3);
            assert_eq!(ps[0].default_test_cases[2].input, "3");
        }
        _ => panic!("expected the problems"),
    }
    assert!(room.client_sent(&conn("c1"), ClientSentCommand::BeginRound).is_empty());
    // A late joiner gets the problems of the running round.
    let e = room.add_connection(conn("c2"), user("u2", "V"));
    assert_eq!(e.len(), 5);
    assert!(matches!(&e[4], RoomEffect::Send { to, command: ServerSentCommand::SetProblems(Some(_)) } if to.0 == "c2"));
}

#[test]
fn commands_from_unknown_connection_are_ignored() {
    let mut room = Room::new(vec![], config("R", user("o", "O")));
    assert!(room.client_sent(&conn("ghost"), ClientSentCommand::BeginRound).is_empty());
    assert!(room.handle_command(RoomCommands::ClientSent(conn("ghost"), ClientSentCommand::Ping)).is_empty());
}

#[test]
fn duplicate_join_is_not_admitted() {
    let u = user("u1", "U");
    let mut room = Room::new(vec![], config("R", u.clone()));
    assert_eq!(room.handle_command(RoomCommands::AddConnection(conn("c1"), u.clone())).len(), 5);
    assert!(room.handle_command(RoomCommands::AddConnection(conn("c2"), u)).is_empty());
    assert!(!room.has_connection(&conn("c2")));
    assert_eq!(room.name(), "R");
}
