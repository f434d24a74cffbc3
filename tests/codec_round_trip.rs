use radix_server::chat::ChatMessage;
use radix_server::codec::{decode_client, encode_client};
use radix_server::json::JsonValue;
use radix_server::model::{Code, PublicProblem, PublicUser, TestCase, UserId};
use radix_server::protocol::{ClientSentCommand, FailedTestCase, ServerSentCommand, TestResponse};
use radix_server::server_codec::{decode_server, encode_server};

fn field<'a>(v: &'a JsonValue, key: &str) -> Option<&'a JsonValue> {
    match v {
        JsonValue::Object(fs) => fs.iter().find(|(k, _)| k == key).map(|(_, v)| v),
        _ => None,
    }
}

fn str_of(v: Option<&JsonValue>) -> Option<String> {
    match v {
        Some(JsonValue::Str(s)) => Some(s.clone()),
        _ => None,
    }
}

fn pu(name: &str) -> PublicUser {
    PublicUser { id: UserId(format!("id-{}", name)), name: name.to_string(), image: format!("{}.png", name) }
}

#[test]
fn client_commands_round_trip() {
    let cmds = vec![
        ClientSentCommand::Ping,
        ClientSentCommand::SendChatMessage { content: "hi".to_string() },
        ClientSentCommand::BeginRound,
        ClientSentCommand::SetEditorContent { content: "x = 1".to_string() },
        ClientSentCommand::TestCode {
            test_cases: vec![TestCase { input: "[1,2]".to_string(), output: "3".to_string() }],
            language: "python".to_string(),
        },
        ClientSentCommand::SubmitCode { problem_index: 7, language: "javascript".to_string() },
    ];
    for c in &cmds {
        let back = decode_client(&encode_client(c)).expect("decodes");
        match (c, &back) {
            (ClientSentCommand::Ping, ClientSentCommand::Ping) => {}
            (ClientSentCommand::BeginRound, ClientSentCommand::BeginRound) => {}
            (ClientSentCommand::SendChatMessage { content: a }, ClientSentCommand::SendChatMessage { content: b }) => assert_eq!(a, b),
            (ClientSentCommand::SetEditorContent { content: a }, ClientSentCommand::SetEditorContent { content: b }) => assert_eq!(a, b),
            (ClientSentCommand::TestCode { test_cases: a, language: l }, ClientSentCommand::TestCode { test_cases: b, language: m }) => {
                assert_eq!(l, m);
                assert_eq!(a.len(), b.len());
                assert_eq!(a[0].input, b[0].input);
                assert_eq!(a[0].output, b[0].output);
            }
            (ClientSentCommand::SubmitCode { problem_index: a, language: l }, ClientSentCommand::SubmitCode { problem_index: b, language: m }) => {
                assert_eq!(a, b);
                assert_eq!(l, m);
            }
            _ => panic!("a different command came back"),
        }
    }
}

#[test]
fn client_envelope_shape() {
    let v = encode_client(&ClientSentCommand::SubmitCode { problem_index: 2, language: "python".to_string() });
    assert_eq!(str_of(field(&v, "t")), Some("SubmitCode".to_string()));
    let c = field(&v, "c").expect("content");
    assert!(matches!(field(c, "problemIndex"), Some(JsonValue::Number(2))));
    let v = encode_client(&ClientSentCommand::Ping);
    assert!(field(&v, "c").is_none());
}

#[test]
fn unknown_client_tag_is_rejected() {
    let v = JsonValue::Object(vec![("t".to_string(), JsonValue::Str("Dance".to_string()))]);
    assert!(decode_client(&v).is_none());
    let v = JsonValue::Object(vec![("t".to_string(), JsonValue::Str("SendChatMessage".to_string()))]);
    assert!(decode_client(&v).is_none());
    let v = JsonValue::Object(vec![
        ("c".to_string(), JsonValue::Object(vec![])),
        ("t".to_string(), JsonValue::Str("Ping".to_string())),
    ]);
    assert!(matches!(decode_client(&v), Some(ClientSentCommand::Ping)));
}

#[test]
fn server_commands_round_trip() {
    let problem = PublicProblem {
        id: "p".to_string(),
        title: "T".to_string(),
        author: pu("a"),
        description: "D".to_string(),
        boilerplate_code: Code { python: "py".to_string(), javascript: "js".to_string() },
        default_test_cases: vec![TestCase { input: "[1]".to_string(), output: "1".to_string() }],
        difficulty: 3,
    };
    let cmds = vec![
        ServerSentCommand::Error("bad".to_string()),
        ServerSentCommand::ChatHistory(vec![
            ChatMessage::UserChat { author: pu("u"), content: "hello".to_string() },
            ChatMessage::UserFinished { username: "u".to_string(), place: 2 },
            ChatMessage::RoundEnd,
        ]),
        ServerSentCommand::ChatMessage(ChatMessage::UserProblemCompletion { username: "u".to_string(), problem_index: 1 }),
        ServerSentCommand::SetUsers(vec![pu("x"), pu("y")]),
        ServerSentCommand::SetRoomConfig { name: "r".to_string(), public: false, owner: pu("o") },
        ServerSentCommand::SetProblems(None),
        ServerSentCommand::SetProblems(Some(vec![problem])),
        ServerSentCommand::SetTestResponse(TestResponse::Ran {
            failed_tests: vec![FailedTestCase { input: "[1]".to_string(), output: "2".to_string(), expected: "1".to_string() }],
            okay_tests: vec![],
        }),
        ServerSentCommand::SetTestResponse(TestResponse::AllTestsPassed { runtime: 12 }),
    ];
    for c in &cmds {
        let back = decode_server(&encode_server(c)).expect("decodes");
        let same = match (c, &back) {
            (ServerSentCommand::Error(a), ServerSentCommand::Error(b)) => a == b,
            (ServerSentCommand::ChatHistory(a), ServerSentCommand::ChatHistory(b)) => a.len() == b.len()
                && matches!(&b[1], ChatMessage::UserFinished { place: 2, .. }),
            (ServerSentCommand::ChatMessage(_), ServerSentCommand::ChatMessage(b)) =>
                matches!(b, ChatMessage::UserProblemCompletion { problem_index: 1, .. }),
            (ServerSentCommand::SetUsers(a), ServerSentCommand::SetUsers(b)) =>
                a.len() == b.len() && b[1].id.0 == "id-y" && b[1].image == "y.png",
            (ServerSentCommand::SetRoomConfig { name: a, public: p, .. }, ServerSentCommand::SetRoomConfig { name: b, public: q, owner }) =>
                a == b && p == q && owner.name == "o",
            (ServerSentCommand::SetProblems(None), ServerSentCommand::SetProblems(None)) => true,
            (ServerSentCommand::SetProblems(Some(_)), ServerSentCommand::SetProblems(Some(b))) =>
                b[0].difficulty == 3 && b[0].boilerplate_code.javascript == "js" && b[0].default_test_cases[0].output == "1",
            (ServerSentCommand::SetTestResponse(TestResponse::Ran { .. }), ServerSentCommand::SetTestResponse(TestResponse::Ran { failed_tests, okay_tests })) =>
                failed_tests[0].expected == "1" && okay_tests.is_empty(),
            (ServerSentCommand::SetTestResponse(TestResponse::AllTestsPassed { runtime: a }), ServerSentCommand::SetTestResponse(TestResponse::AllTestsPassed { runtime: b })) => a == b,
            _ => false,
        };
        assert!(same);
    }
}

#[test]
fn set_problems_none_is_null() {
    let v = encode_server(&ServerSentCommand::SetProblems(None));
    assert!(matches!(field(&v, "c"), Some(JsonValue::Null)));
    let v = encode_server(&ServerSentCommand::ChatMessage(ChatMessage::RoundBegin));
    let c = field(&v, "c").expect("content");
    assert_eq!(str_of(field(c, "t")), Some("RoundBegin".to_string()));
}
