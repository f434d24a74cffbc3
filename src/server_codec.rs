use vstd::prelude::*;
use vstd::string::StringExecFns;
use crate::chat::ChatMessage;
use crate::codec::{
    content_of, decode_test_cases, encode_test_cases, num_field, obj_at, obj_field, str_at, tag_of,
    test_case_json, test_cases_json,
};
use crate::json::{JsonValue, lemma_distinct_fields, text_is};
use crate::model::{Code, PublicProblem, PublicUser, UserId};
use crate::protocol::{FailedTestCase, ServerSentCommand, TestResponse};

verus! {

/// The string value stored under `key` in the object `v`.
pub open spec fn string_field(v: JsonValue, key: Seq<char>) -> Option<String> {
    match obj_field(v, key) {
        Some(JsonValue::Str(s)) => Some(s),
        _ => None,
    }
}

/// The boolean stored under `key` in the object `v`.
pub open spec fn bool_field(v: JsonValue, key: Seq<char>) -> Option<bool> {
    match obj_field(v, key) {
        Some(JsonValue::Bool(b)) => Some(b),
        _ => None,
    }
}

/// `v` is the JSON form of the user `u`.
pub open spec fn user_json(v: JsonValue, u: PublicUser) -> bool {
    &&& string_field(v, "id"@) == Some(u.id.0)
    &&& string_field(v, "name"@) == Some(u.name)
    &&& string_field(v, "image"@) == Some(u.image)
}

/// `v` is a JSON array of the forms of `us`.
pub open spec fn users_json(v: JsonValue, us: Seq<PublicUser>) -> bool {
    v matches JsonValue::Array(items) && items@.len() == us.len()
        && forall|i: int| 0 <= i < us.len() ==> user_json(#[trigger] items@[i], us[i])
}

/// `v` is the JSON form of the starting code `c`.
pub open spec fn code_json(v: JsonValue, c: Code) -> bool {
    &&& string_field(v, "python"@) == Some(c.python)
    &&& string_field(v, "javascript"@) == Some(c.javascript)
}

/// `v` is the JSON form of the problem `p`.
pub open spec fn problem_json(v: JsonValue, p: PublicProblem) -> bool {
    &&& string_field(v, "id"@) == Some(p.id)
    &&& string_field(v, "title"@) == Some(p.title)
    &&& obj_field(v, "author"@) matches Some(a) && user_json(a, p.author)
    &&& string_field(v, "description"@) == Some(p.description)
    &&& obj_field(v, "boilerplateCode"@) matches Some(c) && code_json(c, p.boilerplate_code)
    &&& obj_field(v, "defaultTestCases"@) matches Some(t) && test_cases_json(t, p.default_test_cases@)
    &&& num_field(v, "difficulty"@) == Some(p.difficulty as u64)
}

/// `v` is a JSON array of the forms of `ps`.
pub open spec fn problems_json(v: JsonValue, ps: Seq<PublicProblem>) -> bool {
    v matches JsonValue::Array(items) && items@.len() == ps.len()
        && forall|i: int| 0 <= i < ps.len() ==> problem_json(#[trigger] items@[i], ps[i])
}

/// `v` is the JSON form of the chat message `m`.
pub open spec fn chat_json(v: JsonValue, m: ChatMessage) -> bool {
    match m {
        ChatMessage::UserChat { author, content } => {
            &&& tag_of(v) == Some("UserChat"@)
            &&& content_of(v) matches Some(x) && (obj_field(x, "author"@) matches Some(a) && user_json(a, author)
                && string_field(x, "content"@) == Some(content))
        },
        ChatMessage::Connection { username } => {
            &&& tag_of(v) == Some("Connection"@)
            &&& content_of(v) matches Some(x) && string_field(x, "username"@) == Some(username)
        },
        ChatMessage::Disconnection { username } => {
            &&& tag_of(v) == Some("Disconnection"@)
            &&& content_of(v) matches Some(x) && string_field(x, "username"@) == Some(username)
        },
        ChatMessage::RoundBegin => tag_of(v) == Some("RoundBegin"@),
        ChatMessage::UserSubmitted { username } => {
            &&& tag_of(v) == Some("UserSubmitted"@)
            &&& content_of(v) matches Some(x) && string_field(x, "username"@) == Some(username)
        },
        ChatMessage::UserProblemCompletion { username, problem_index } => {
            &&& tag_of(v) == Some("UserProblemCompletion"@)
            &&& content_of(v) matches Some(x) && string_field(x, "username"@) == Some(username)
                && num_field(x, "problemIndex"@) == Some(problem_index as u64)
        },
        ChatMessage::UserFinished { username, place } => {
            &&& tag_of(v) == Some("UserFinished"@)
            &&& content_of(v) matches Some(x) && string_field(x, "username"@) == Some(username)
                && num_field(x, "place"@) == Some(place as u64)
        },
        ChatMessage::RoundEnd => tag_of(v) == Some("RoundEnd"@),
        ChatMessage::Bad => tag_of(v) == Some("Bad"@),
    }
}

/// `v` is a JSON array of the forms of `ms`.
pub open spec fn chats_json(v: JsonValue, ms: Seq<ChatMessage>) -> bool {
    v matches JsonValue::Array(items) && items@.len() == ms.len()
        && forall|i: int| 0 <= i < ms.len() ==> chat_json(#[trigger] items@[i], ms[i])
}

/// `v` is the JSON form of the failed test `f`.
pub open spec fn failed_json(v: JsonValue, f: FailedTestCase) -> bool {
    &&& string_field(v, "input"@) == Some(f.input)
    &&& string_field(v, "output"@) == Some(f.output)
    &&& string_field(v, "expected"@) == Some(f.expected)
}

/// `v` is a JSON array of the forms of `fs`.
pub open spec fn faileds_json(v: JsonValue, fs: Seq<FailedTestCase>) -> bool {
    v matches JsonValue::Array(items) && items@.len() == fs.len()
        && forall|i: int| 0 <= i < fs.len() ==> failed_json(#[trigger] items@[i], fs[i])
}

/// `v` is the JSON form of the run outcome `r`.
pub open spec fn response_json(v: JsonValue, r: TestResponse) -> bool {
    match r {
        TestResponse::Error { message } => {
            &&& tag_of(v) == Some("Error"@)
            &&& content_of(v) matches Some(x) && string_field(x, "message"@) == Some(message)
        },
        TestResponse::Ran { failed_tests, okay_tests } => {
            &&& tag_of(v) == Some("Ran"@)
            &&& content_of(v) matches Some(x) && (obj_field(x, "failedTests"@) matches Some(f)
                && faileds_json(f, failed_tests@) && (obj_field(x, "okayTests"@) matches Some(o)
                && test_cases_json(o, okay_tests@)))
        },
        TestResponse::AllTestsPassed { runtime } => {
            &&& tag_of(v) == Some("AllTestsPassed"@)
            &&& content_of(v) matches Some(x) && num_field(x, "runtime"@) == Some(runtime as u64)
        },
    }
}

/// `v` is the JSON form of the server command `c`.
pub open spec fn server_json(v: JsonValue, c: ServerSentCommand) -> bool {
    match c {
        ServerSentCommand::Error(m) => tag_of(v) == Some("Error"@) && content_of(v) == Some(JsonValue::Str(m)),
        ServerSentCommand::ChatHistory(ms) => {
            &&& tag_of(v) == Some("ChatHistory"@)
            &&& content_of(v) matches Some(x) && chats_json(x, ms@)
        },
        ServerSentCommand::ChatMessage(m) => {
            &&& tag_of(v) == Some("ChatMessage"@)
            &&& content_of(v) matches Some(x) && chat_json(x, m)
        },
        ServerSentCommand::SetUsers(us) => {
            &&& tag_of(v) == Some("SetUsers"@)
            &&& content_of(v) matches Some(x) && users_json(x, us@)
        },
        ServerSentCommand::SetRoomConfig { name, public, owner } => {
            &&& tag_of(v) == Some("SetRoomConfig"@)
            &&& content_of(v) matches Some(x) && string_field(x, "name"@) == Some(name)
                && bool_field(x, "public"@) == Some(public) && (obj_field(x, "owner"@) matches Some(o)
                && user_json(o, owner))
        },
        ServerSentCommand::SetProblems(ps) => {
            &&& tag_of(v) == Some("SetProblems"@)
            &&& content_of(v) matches Some(x) && match ps {
                None => x is Null,
                Some(ps) => problems_json(x, ps@),
            }
        },
        ServerSentCommand::SetTestResponse(r) => {
            &&& tag_of(v) == Some("SetTestResponse"@)
            &&& content_of(v) matches Some(x) && response_json(x, r)
        },
    }
}

/// Two public problems agree in every field.
pub open spec fn same_problem(a: PublicProblem, b: PublicProblem) -> bool {
    &&& a.id == b.id
    &&& a.title == b.title
    &&& a.author == b.author
    &&& a.description == b.description
    &&& a.boilerplate_code == b.boilerplate_code
    &&& a.default_test_cases@.len() == b.default_test_cases@.len()
    &&& forall|i: int| 0 <= i < a.default_test_cases@.len() ==> (#[trigger] a.default_test_cases@[i]).input@
        == b.default_test_cases@[i].input@ && a.default_test_cases@[i].output@ == b.default_test_cases@[i].output@
    &&& a.difficulty == b.difficulty
}

/// Two server commands agree in every field.
pub open spec fn same_server(a: ServerSentCommand, b: ServerSentCommand) -> bool {
    match (a, b) {
        (ServerSentCommand::Error(x), ServerSentCommand::Error(y)) => x == y,
        (ServerSentCommand::ChatHistory(x), ServerSentCommand::ChatHistory(y)) => x@ == y@,
        (ServerSentCommand::ChatMessage(x), ServerSentCommand::ChatMessage(y)) => x == y,
        (ServerSentCommand::SetUsers(x), ServerSentCommand::SetUsers(y)) => x@ == y@,
        (
            ServerSentCommand::SetRoomConfig { name: n1, public: pub_a, owner: o1 },
            ServerSentCommand::SetRoomConfig { name: n2, public: pub_b, owner: o2 },
        ) => n1 == n2 && pub_a == pub_b && o1 == o2,
        (ServerSentCommand::SetProblems(x), ServerSentCommand::SetProblems(y)) => match (x, y) {
            (None, None) => true,
            (Some(x), Some(y)) => x@.len() == y@.len() && forall|i: int|
                0 <= i < x@.len() ==> same_problem(#[trigger] x@[i], y@[i]),
            _ => false,
        },
        (ServerSentCommand::SetTestResponse(x), ServerSentCommand::SetTestResponse(y)) => match (x, y) {
            (TestResponse::Error { message: m1 }, TestResponse::Error { message: m2 }) => m1 == m2,
            (
                TestResponse::Ran { failed_tests: f1, okay_tests: o1 },
                TestResponse::Ran { failed_tests: f2, okay_tests: o2 },
            ) => f1@ == f2@ && o1@.len() == o2@.len() && forall|i: int|
                0 <= i < o1@.len() ==> (#[trigger] o1@[i]).input@ == o2@[i].input@ && o1@[i].output@ == o2@[i].output@,
            (TestResponse::AllTestsPassed { runtime: r1 }, TestResponse::AllTestsPassed { runtime: r2 }) => r1 == r2,
            _ => false,
        },
        _ => false,
    }
}


proof fn reveal_server_keys() -> (b: bool)
    ensures
        "id"@.len() == 2,
        "name"@.len() == 4,
        "image"@.len() == 5,
        "python"@.len() == 6,
        "javascript"@.len() == 10,
        "title"@.len() == 5,
        "author"@.len() == 6,
        "description"@.len() == 11,
        "boilerplateCode"@.len() == 15,
        "defaultTestCases"@.len() == 16,
        "difficulty"@.len() == 10,
        "content"@.len() == 7,
        "username"@.len() == 8,
        "problemIndex"@.len() == 12,
        "place"@.len() == 5,
        "input"@.len() == 5,
        "output"@.len() == 6,
        "expected"@.len() == 8,
        "message"@.len() == 7,
        "failedTests"@.len() == 11,
        "okayTests"@.len() == 9,
        "runtime"@.len() == 7,
        "public"@.len() == 6,
        "owner"@.len() == 5,
{
    reveal_strlit("id");
    reveal_strlit("name");
    reveal_strlit("image");
    reveal_strlit("python");
    reveal_strlit("javascript");
    reveal_strlit("title");
    reveal_strlit("author");
    reveal_strlit("description");
    reveal_strlit("boilerplateCode");
    reveal_strlit("defaultTestCases");
    reveal_strlit("difficulty");
    reveal_strlit("content");
    reveal_strlit("username");
    reveal_strlit("problemIndex");
    reveal_strlit("place");
    reveal_strlit("input");
    reveal_strlit("output");
    reveal_strlit("expected");
    reveal_strlit("message");
    reveal_strlit("failedTests");
    reveal_strlit("okayTests");
    reveal_strlit("runtime");
    reveal_strlit("public");
    reveal_strlit("owner");
    true
}

fn key(k: &str, v: JsonValue) -> (r: (String, JsonValue))
    ensures
        r.0@ == k@,
        r.1 == v,
{
    (String::from_str(k), v)
}

fn string(s: &String) -> (r: JsonValue)
    ensures
        r == JsonValue::Str(*s),
{
    JsonValue::Str(s.clone())
}

/// An object of `fs`, whose keys are pairwise distinct.
fn fields(fs: Vec<(String, JsonValue)>) -> (r: JsonValue)
    requires
        forall|i: int, j: int| 0 <= i < j < fs@.len() ==> fs@[i].0@ != fs@[j].0@,
    ensures
        r == JsonValue::Object(fs),
        forall|i: int| 0 <= i < fs@.len() ==> obj_field(r, (#[trigger] fs@[i]).0@) == Some(fs@[i].1),
{
    proof {
        lemma_distinct_fields(fs@);
    }
    JsonValue::Object(fs)
}

/// The envelope `{"t": tag}` or `{"t": tag, "c": content}`.
fn tagged(tag: &str, content: Option<JsonValue>) -> (r: JsonValue)
    ensures
        tag_of(r) == Some(tag@),
        match content {
            Some(c) => content_of(r) == Some(c),
            None => true,
        },
{
    proof {
        reveal_strlit("t");
        reveal_strlit("c");
        assert("t"@[0] != "c"@[0]);
    }
    let mut fs: Vec<(String, JsonValue)> = Vec::new();
    fs.push(key("t", JsonValue::Str(String::from_str(tag))));
    match content {
        Some(c) => {
            fs.push(key("c", c));
        },
        None => {},
    }
    let ghost gs = fs@;
    let r = fields(fs);
    assert(obj_field(r, gs[0].0@) == Some(gs[0].1));
    proof {
        if gs.len() == 2 {
            assert(obj_field(r, gs[1].0@) == Some(gs[1].1));
        }
    }
    r
}

/// The JSON form of a user.
pub fn encode_user(u: &PublicUser) -> (r: JsonValue)
    ensures
        user_json(r, *u),
{
    proof {
        reveal_server_keys();
    }
    let mut fs: Vec<(String, JsonValue)> = Vec::new();
    fs.push(key("id", string(&u.id.0)));
    fs.push(key("name", string(&u.name)));
    fs.push(key("image", string(&u.image)));
    let r = fields(fs);
    assert(obj_field(r, fs@[0].0@) == Some(fs@[0].1));
    assert(obj_field(r, fs@[1].0@) == Some(fs@[1].1));
    assert(obj_field(r, fs@[2].0@) == Some(fs@[2].1));
    r
}

/// The JSON form of a list of users.
pub fn encode_users(us: &Vec<PublicUser>) -> (r: JsonValue)
    ensures
        users_json(r, us@),
{
    let mut items: Vec<JsonValue> = Vec::new();
    let mut i: usize = 0;
    while i < us.len()
        invariant
            i <= us@.len(),
            items@.len() == i,
            forall|k: int| 0 <= k < i ==> user_json(#[trigger] items@[k], us@[k]),
        decreases us.len() - i,
    {
        items.push(encode_user(&us[i]));
        i = i + 1;
    }
    JsonValue::Array(items)
}

/// The JSON form of a problem.
pub fn encode_problem(p: &PublicProblem) -> (r: JsonValue)
    ensures
        problem_json(r, *p),
{
    proof {
        reveal_server_keys();
    }
    let mut cs: Vec<(String, JsonValue)> = Vec::new();
    cs.push(key("python", string(&p.boilerplate_code.python)));
    cs.push(key("javascript", string(&p.boilerplate_code.javascript)));
    let code = fields(cs);
    assert(obj_field(code, cs@[0].0@) == Some(cs@[0].1));
    assert(obj_field(code, cs@[1].0@) == Some(cs@[1].1));
    let mut fs: Vec<(String, JsonValue)> = Vec::new();
    fs.push(key("id", string(&p.id)));
    fs.push(key("title", string(&p.title)));
    fs.push(key("author", encode_user(&p.author)));
    fs.push(key("description", string(&p.description)));
    fs.push(key("boilerplateCode", code));
    fs.push(key("defaultTestCases", encode_test_cases(&p.default_test_cases)));
    fs.push(key("difficulty", JsonValue::Number(p.difficulty as u64)));
    let r = fields(fs);
    assert(obj_field(r, fs@[0].0@) == Some(fs@[0].1));
    assert(obj_field(r, fs@[1].0@) == Some(fs@[1].1));
    assert(obj_field(r, fs@[2].0@) == Some(fs@[2].1));
    assert(obj_field(r, fs@[3].0@) == Some(fs@[3].1));
    assert(obj_field(r, fs@[4].0@) == Some(fs@[4].1));
    assert(obj_field(r, fs@[5].0@) == Some(fs@[5].1));
    assert(obj_field(r, fs@[6].0@) == Some(fs@[6].1));
    r
}

/// The JSON form of a list of problems.
pub fn encode_problems(ps: &Vec<PublicProblem>) -> (r: JsonValue)
    ensures
        problems_json(r, ps@),
{
    let mut items: Vec<JsonValue> = Vec::new();
    let mut i: usize = 0;
    while i < ps.len()
        invariant
            i <= ps@.len(),
            items@.len() == i,
            forall|k: int| 0 <= k < i ==> problem_json(#[trigger] items@[k], ps@[k]),
        decreases ps.len() - i,
    {
        items.push(encode_problem(&ps[i]));
        i = i + 1;
    }
    JsonValue::Array(items)
}

fn username_object(username: &String) -> (r: JsonValue)
    ensures
        string_field(r, "username"@) == Some(*username),
{
    let mut fs: Vec<(String, JsonValue)> = Vec::new();
    fs.push(key("username", string(username)));
    let r = fields(fs);
    assert(obj_field(r, fs@[0].0@) == Some(fs@[0].1));
    r
}

fn username_number(username: &String, k: &str, n: u32) -> (r: JsonValue)
    requires
        k@.len() != "username"@.len(),
    ensures
        string_field(r, "username"@) == Some(*username),
        num_field(r, k@) == Some(n as u64),
{
    let mut fs: Vec<(String, JsonValue)> = Vec::new();
    fs.push(key("username", string(username)));
    fs.push(key(k, JsonValue::Number(n as u64)));
    let r = fields(fs);
    assert(obj_field(r, fs@[0].0@) == Some(fs@[0].1));
    assert(obj_field(r, fs@[1].0@) == Some(fs@[1].1));
    r
}

/// The JSON form of a chat message.
pub fn encode_chat(m: &ChatMessage) -> (r: JsonValue)
    ensures
        chat_json(r, *m),
{
    proof {
        reveal_server_keys();
    }
    match m {
        ChatMessage::UserChat { author, content } => {
            let mut fs: Vec<(String, JsonValue)> = Vec::new();
            fs.push(key("author", encode_user(author)));
            fs.push(key("content", string(content)));
            let x = fields(fs);
            assert(obj_field(x, fs@[0].0@) == Some(fs@[0].1));
            assert(obj_field(x, fs@[1].0@) == Some(fs@[1].1));
            tagged("UserChat", Some(x))
        },
        ChatMessage::Connection { username } => tagged("Connection", Some(username_object(username))),
        ChatMessage::Disconnection { username } => tagged("Disconnection", Some(username_object(username))),
        ChatMessage::RoundBegin => tagged("RoundBegin", None),
        ChatMessage::UserSubmitted { username } => tagged("UserSubmitted", Some(username_object(username))),
        ChatMessage::UserProblemCompletion { username, problem_index } => tagged(
            "UserProblemCompletion",
            Some(username_number(username, "problemIndex", *problem_index)),
        ),
        ChatMessage::UserFinished { username, place } => tagged(
            "UserFinished",
            Some(username_number(username, "place", *place)),
        ),
        ChatMessage::RoundEnd => tagged("RoundEnd", None),
        ChatMessage::Bad => tagged("Bad", None),
    }
}

/// The JSON form of a list of chat messages.
pub fn encode_chats(ms: &Vec<ChatMessage>) -> (r: JsonValue)
    ensures
        chats_json(r, ms@),
{
    let mut items: Vec<JsonValue> = Vec::new();
    let mut i: usize = 0;
    while i < ms.len()
        invariant
            i <= ms@.len(),
            items@.len() == i,
            forall|k: int| 0 <= k < i ==> chat_json(#[trigger] items@[k], ms@[k]),
        decreases ms.len() - i,
    {
        items.push(encode_chat(&ms[i]));
        i = i + 1;
    }
    JsonValue::Array(items)
}

/// The JSON form of a failed test.
pub fn encode_failed(f: &FailedTestCase) -> (r: JsonValue)
    ensures
        failed_json(r, *f),
{
    proof {
        reveal_server_keys();
    }
    let mut fs: Vec<(String, JsonValue)> = Vec::new();
    fs.push(key("input", string(&f.input)));
    fs.push(key("output", string(&f.output)));
    fs.push(key("expected", string(&f.expected)));
    let r = fields(fs);
    assert(obj_field(r, fs@[0].0@) == Some(fs@[0].1));
    assert(obj_field(r, fs@[1].0@) == Some(fs@[1].1));
    assert(obj_field(r, fs@[2].0@) == Some(fs@[2].1));
    r
}

/// The JSON form of a list of failed tests.
pub fn encode_faileds(fs: &Vec<FailedTestCase>) -> (r: JsonValue)
    ensures
        faileds_json(r, fs@),
{
    let mut items: Vec<JsonValue> = Vec::new();
    let mut i: usize = 0;
    while i < fs.len()
        invariant
            i <= fs@.len(),
            items@.len() == i,
            forall|k: int| 0 <= k < i ==> failed_json(#[trigger] items@[k], fs@[k]),
        decreases fs.len() - i,
    {
        items.push(encode_failed(&fs[i]));
        i = i + 1;
    }
    JsonValue::Array(items)
}

/// The JSON form of a run outcome.
pub fn encode_response(t: &TestResponse) -> (r: JsonValue)
    ensures
        response_json(r, *t),
{
    proof {
        reveal_server_keys();
    }
    match t {
        TestResponse::Error { message } => {
            let mut fs: Vec<(String, JsonValue)> = Vec::new();
            fs.push(key("message", string(message)));
            let x = fields(fs);
            assert(obj_field(x, fs@[0].0@) == Some(fs@[0].1));
            tagged("Error", Some(x))
        },
        TestResponse::Ran { failed_tests, okay_tests } => {
            let mut fs: Vec<(String, JsonValue)> = Vec::new();
            fs.push(key("failedTests", encode_faileds(failed_tests)));
            fs.push(key("okayTests", encode_test_cases(okay_tests)));
            let x = fields(fs);
            assert(obj_field(x, fs@[0].0@) == Some(fs@[0].1));
            assert(obj_field(x, fs@[1].0@) == Some(fs@[1].1));
            tagged("Ran", Some(x))
        },
        TestResponse::AllTestsPassed { runtime } => {
            let mut fs: Vec<(String, JsonValue)> = Vec::new();
            fs.push(key("runtime", JsonValue::Number(*runtime as u64)));
            let x = fields(fs);
            assert(obj_field(x, fs@[0].0@) == Some(fs@[0].1));
            tagged("AllTestsPassed", Some(x))
        },
    }
}

/// The JSON form of a server command.
pub fn encode_server(c: &ServerSentCommand) -> (r: JsonValue)
    ensures
        server_json(r, *c),
{
    proof {
        reveal_server_keys();
    }
    match c {
        ServerSentCommand::Error(m) => tagged("Error", Some(string(m))),
        ServerSentCommand::ChatHistory(ms) => tagged("ChatHistory", Some(encode_chats(ms))),
        ServerSentCommand::ChatMessage(m) => tagged("ChatMessage", Some(encode_chat(m))),
        ServerSentCommand::SetUsers(us) => tagged("SetUsers", Some(encode_users(us))),
        ServerSentCommand::SetRoomConfig { name, public, owner } => {
            let mut fs: Vec<(String, JsonValue)> = Vec::new();
            fs.push(key("name", string(name)));
            fs.push(key("public", JsonValue::Bool(*public)));
            fs.push(key("owner", encode_user(owner)));
            let x = fields(fs);
            assert(obj_field(x, fs@[0].0@) == Some(fs@[0].1));
            assert(obj_field(x, fs@[1].0@) == Some(fs@[1].1));
            assert(obj_field(x, fs@[2].0@) == Some(fs@[2].1));
            tagged("SetRoomConfig", Some(x))
        },
        ServerSentCommand::SetProblems(ps) => match ps {
            None => tagged("SetProblems", Some(JsonValue::Null)),
            Some(ps) => tagged("SetProblems", Some(encode_problems(ps))),
        },
        ServerSentCommand::SetTestResponse(t) => tagged("SetTestResponse", Some(encode_response(t))),
    }
}


proof fn reveal_tags() -> (b: bool)
    ensures
        "UserChat"@.len() == 8 && "UserChat"@[0] == 'U',
        "Connection"@.len() == 10 && "Connection"@[0] == 'C',
        "Disconnection"@.len() == 13 && "Disconnection"@[0] == 'D',
        "RoundBegin"@.len() == 10 && "RoundBegin"@[0] == 'R',
        "UserSubmitted"@.len() == 13 && "UserSubmitted"@[0] == 'U',
        "UserProblemCompletion"@.len() == 21,
        "UserFinished"@.len() == 12,
        "RoundEnd"@.len() == 8 && "RoundEnd"@[0] == 'R',
        "Bad"@.len() == 3,
        "Error"@.len() == 5,
        "Ran"@.len() == 3,
        "AllTestsPassed"@.len() == 14,
        "ChatHistory"@.len() == 11 && "ChatHistory"@[4] == 'H',
        "ChatMessage"@.len() == 11 && "ChatMessage"@[4] == 'M',
        "SetUsers"@.len() == 8,
        "SetRoomConfig"@.len() == 13,
        "SetProblems"@.len() == 11 && "SetProblems"@[4] == 'r',
        "SetTestResponse"@.len() == 15,
{
    reveal_strlit("UserChat");
    reveal_strlit("Connection");
    reveal_strlit("Disconnection");
    reveal_strlit("RoundBegin");
    reveal_strlit("UserSubmitted");
    reveal_strlit("UserProblemCompletion");
    reveal_strlit("UserFinished");
    reveal_strlit("RoundEnd");
    reveal_strlit("Bad");
    reveal_strlit("Error");
    reveal_strlit("Ran");
    reveal_strlit("AllTestsPassed");
    reveal_strlit("ChatHistory");
    reveal_strlit("ChatMessage");
    reveal_strlit("SetUsers");
    reveal_strlit("SetRoomConfig");
    reveal_strlit("SetProblems");
    reveal_strlit("SetTestResponse");
    true
}

fn string_at(v: &JsonValue, k: &str) -> (r: Option<String>)
    ensures
        r == string_field(*v, k@),
{
    match obj_at(v, k) {
        Some(JsonValue::Str(s)) => Some(s.clone()),
        _ => None,
    }
}

fn number_at(v: &JsonValue, k: &str) -> (r: Option<u64>)
    ensures
        r == num_field(*v, k@),
{
    match obj_at(v, k) {
        Some(JsonValue::Number(n)) => Some(*n),
        _ => None,
    }
}

fn bool_at(v: &JsonValue, k: &str) -> (r: Option<bool>)
    ensures
        r == bool_field(*v, k@),
{
    match obj_at(v, k) {
        Some(JsonValue::Bool(b)) => Some(*b),
        _ => None,
    }
}

/// Reads a user.
pub fn decode_user(v: &JsonValue) -> (r: Option<PublicUser>)
    ensures
        match r {
            Some(u) => user_json(*v, u),
            None => forall|u: PublicUser| !user_json(*v, u),
        },
{
    match (string_at(v, "id"), string_at(v, "name"), string_at(v, "image")) {
        (Some(id), Some(name), Some(image)) => Some(PublicUser { id: UserId(id), name, image }),
        _ => None,
    }
}

/// Reads a list of users.
pub fn decode_users(v: &JsonValue) -> (r: Option<Vec<PublicUser>>)
    ensures
        match r {
            Some(us) => users_json(*v, us@),
            None => forall|us: Seq<PublicUser>| !users_json(*v, us),
        },
{
    let items = match v {
        JsonValue::Array(items) => items,
        _ => return None,
    };
    let mut us: Vec<PublicUser> = Vec::new();
    let mut i: usize = 0;
    while i < items.len()
        invariant
            *v == JsonValue::Array(*items),
            i <= items@.len(),
            us@.len() == i,
            forall|k: int| 0 <= k < i ==> user_json(#[trigger] items@[k], us@[k]),
        decreases items.len() - i,
    {
        match decode_user(&items[i]) {
            Some(u) => us.push(u),
            None => {
                proof {
                    assert forall|xs: Seq<PublicUser>| !users_json(*v, xs) by {
                        if users_json(*v, xs) {
                            assert(user_json(v->Array_0@[i as int], xs[i as int]));
                        }
                    }
                }
                return None;
            },
        }
        i = i + 1;
    }
    Some(us)
}

/// Reads a problem.
pub fn decode_problem(v: &JsonValue) -> (r: Option<PublicProblem>)
    ensures
        match r {
            Some(p) => problem_json(*v, p),
            None => forall|p: PublicProblem| !problem_json(*v, p),
        },
{
    let author = match obj_at(v, "author") {
        Some(a) => decode_user(a),
        None => None,
    };
    let code = match obj_at(v, "boilerplateCode") {
        Some(c) => match (string_at(c, "python"), string_at(c, "javascript")) {
            (Some(python), Some(javascript)) => Some(Code { python, javascript }),
            _ => None,
        },
        None => None,
    };
    let cases = match obj_at(v, "defaultTestCases") {
        Some(t) => decode_test_cases(t),
        None => None,
    };
    let difficulty = match number_at(v, "difficulty") {
        Some(d) => if d <= 255 { Some(d as u8) } else { None },
        None => None,
    };
    match (string_at(v, "id"), string_at(v, "title"), string_at(v, "description")) {
        (Some(id), Some(title), Some(description)) => match (author, code, cases, difficulty) {
            (Some(author), Some(boilerplate_code), Some(default_test_cases), Some(difficulty)) => Some(
                PublicProblem { id, title, author, description, boilerplate_code, default_test_cases, difficulty },
            ),
            _ => None,
        },
        _ => None,
    }
}

/// Reads a list of problems.
pub fn decode_problems(v: &JsonValue) -> (r: Option<Vec<PublicProblem>>)
    ensures
        match r {
            Some(ps) => problems_json(*v, ps@),
            None => forall|ps: Seq<PublicProblem>| !problems_json(*v, ps),
        },
{
    let items = match v {
        JsonValue::Array(items) => items,
        _ => return None,
    };
    let mut ps: Vec<PublicProblem> = Vec::new();
    let mut i: usize = 0;
    while i < items.len()
        invariant
            *v == JsonValue::Array(*items),
            i <= items@.len(),
            ps@.len() == i,
            forall|k: int| 0 <= k < i ==> problem_json(#[trigger] items@[k], ps@[k]),
        decreases items.len() - i,
    {
        match decode_problem(&items[i]) {
            Some(p) => ps.push(p),
            None => {
                proof {
                    assert forall|xs: Seq<PublicProblem>| !problems_json(*v, xs) by {
                        if problems_json(*v, xs) {
                            assert(problem_json(v->Array_0@[i as int], xs[i as int]));
                        }
                    }
                }
                return None;
            },
        }
        i = i + 1;
    }
    Some(ps)
}

/// Reads a chat message.
pub fn decode_chat(v: &JsonValue) -> (r: Option<ChatMessage>)
    ensures
        match r {
            Some(m) => chat_json(*v, m),
            None => forall|m: ChatMessage| !chat_json(*v, m),
        },
{
    proof {
        reveal_tags();
    }
    let tag = match str_at(v, "t") {
        Some(t) => t,
        None => return None,
    };
    if text_is(tag.as_str(), "RoundBegin") {
        return Some(ChatMessage::RoundBegin);
    }
    if text_is(tag.as_str(), "RoundEnd") {
        return Some(ChatMessage::RoundEnd);
    }
    if text_is(tag.as_str(), "Bad") {
        return Some(ChatMessage::Bad);
    }
    let c = match obj_at(v, "c") {
        Some(c) => c,
        None => return None,
    };
    let username = string_at(c, "username");
    if text_is(tag.as_str(), "UserChat") {
        let author = match obj_at(c, "author") {
            Some(a) => decode_user(a),
            None => None,
        };
        return match (author, string_at(c, "content")) {
            (Some(author), Some(content)) => Some(ChatMessage::UserChat { author, content }),
            _ => None,
        };
    }
    if text_is(tag.as_str(), "Connection") {
        return match username {
            Some(username) => Some(ChatMessage::Connection { username }),
            None => None,
        };
    }
    if text_is(tag.as_str(), "Disconnection") {
        return match username {
            Some(username) => Some(ChatMessage::Disconnection { username }),
            None => None,
        };
    }
    if text_is(tag.as_str(), "UserSubmitted") {
        return match username {
            Some(username) => Some(ChatMessage::UserSubmitted { username }),
            None => None,
        };
    }
    if text_is(tag.as_str(), "UserProblemCompletion") {
        return match (username, number_at(c, "problemIndex")) {
            (Some(username), Some(n)) => if n <= u32::MAX as u64 {
                Some(ChatMessage::UserProblemCompletion { username, problem_index: n as u32 })
            } else {
                None
            },
            _ => None,
        };
    }
    if text_is(tag.as_str(), "UserFinished") {
        return match (username, number_at(c, "place")) {
            (Some(username), Some(n)) => if n <= u32::MAX as u64 {
                Some(ChatMessage::UserFinished { username, place: n as u32 })
            } else {
                None
            },
            _ => None,
        };
    }
    None
}

/// Reads a list of chat messages.
pub fn decode_chats(v: &JsonValue) -> (r: Option<Vec<ChatMessage>>)
    ensures
        match r {
            Some(ms) => chats_json(*v, ms@),
            None => forall|ms: Seq<ChatMessage>| !chats_json(*v, ms),
        },
{
    let items = match v {
        JsonValue::Array(items) => items,
        _ => return None,
    };
    let mut ms: Vec<ChatMessage> = Vec::new();
    let mut i: usize = 0;
    while i < items.len()
        invariant
            *v == JsonValue::Array(*items),
            i <= items@.len(),
            ms@.len() == i,
            forall|k: int| 0 <= k < i ==> chat_json(#[trigger] items@[k], ms@[k]),
        decreases items.len() - i,
    {
        match decode_chat(&items[i]) {
            Some(m) => ms.push(m),
            None => {
                proof {
                    assert forall|xs: Seq<ChatMessage>| !chats_json(*v, xs) by {
                        if chats_json(*v, xs) {
                            assert(chat_json(v->Array_0@[i as int], xs[i as int]));
                        }
                    }
                }
                return None;
            },
        }
        i = i + 1;
    }
    Some(ms)
}

/// Reads a failed test.
pub fn decode_failed(v: &JsonValue) -> (r: Option<FailedTestCase>)
    ensures
        match r {
            Some(f) => failed_json(*v, f),
            None => forall|f: FailedTestCase| !failed_json(*v, f),
        },
{
    match (string_at(v, "input"), string_at(v, "output"), string_at(v, "expected")) {
        (Some(input), Some(output), Some(expected)) => Some(FailedTestCase { input, output, expected }),
        _ => None,
    }
}

/// Reads a list of failed tests.
pub fn decode_faileds(v: &JsonValue) -> (r: Option<Vec<FailedTestCase>>)
    ensures
        match r {
            Some(fs) => faileds_json(*v, fs@),
            None => forall|fs: Seq<FailedTestCase>| !faileds_json(*v, fs),
        },
{
    let items = match v {
        JsonValue::Array(items) => items,
        _ => return None,
    };
    let mut fs: Vec<FailedTestCase> = Vec::new();
    let mut i: usize = 0;
    while i < items.len()
        invariant
            *v == JsonValue::Array(*items),
            i <= items@.len(),
            fs@.len() == i,
            forall|k: int| 0 <= k < i ==> failed_json(#[trigger] items@[k], fs@[k]),
        decreases items.len() - i,
    {
        match decode_failed(&items[i]) {
            Some(f) => fs.push(f),
            None => {
                proof {
                    assert forall|xs: Seq<FailedTestCase>| !faileds_json(*v, xs) by {
                        if faileds_json(*v, xs) {
                            assert(failed_json(v->Array_0@[i as int], xs[i as int]));
                        }
                    }
                }
                return None;
            },
        }
        i = i + 1;
    }
    Some(fs)
}

/// Reads a run outcome.
pub fn decode_response(v: &JsonValue) -> (r: Option<TestResponse>)
    ensures
        match r {
            Some(t) => response_json(*v, t),
            None => forall|t: TestResponse| !response_json(*v, t),
        },
{
    proof {
        reveal_tags();
    }
    let tag = match str_at(v, "t") {
        Some(t) => t,
        None => return None,
    };
    let c = match obj_at(v, "c") {
        Some(c) => c,
        None => return None,
    };
    if text_is(tag.as_str(), "Error") {
        return match string_at(c, "message") {
            Some(message) => Some(TestResponse::Error { message }),
            None => None,
        };
    }
    if text_is(tag.as_str(), "Ran") {
        let failed = match obj_at(c, "failedTests") {
            Some(f) => decode_faileds(f),
            None => None,
        };
        let okay = match obj_at(c, "okayTests") {
            Some(o) => decode_test_cases(o),
            None => None,
        };
        return match (failed, okay) {
            (Some(failed_tests), Some(okay_tests)) => Some(TestResponse::Ran { failed_tests, okay_tests }),
            _ => None,
        };
    }
    if text_is(tag.as_str(), "AllTestsPassed") {
        return match number_at(c, "runtime") {
            Some(n) => if n <= u32::MAX as u64 {
                Some(TestResponse::AllTestsPassed { runtime: n as u32 })
            } else {
                None
            },
            None => None,
        };
    }
    None
}

/// Reads a server command; `None` when `v` is the form of no command.
pub fn decode_server(v: &JsonValue) -> (r: Option<ServerSentCommand>)
    ensures
        match r {
            Some(c) => server_json(*v, c),
            None => forall|c: ServerSentCommand| !server_json(*v, c),
        },
{
    proof {
        reveal_tags();
    }
    let tag = match str_at(v, "t") {
        Some(t) => t,
        None => return None,
    };
    let c = match obj_at(v, "c") {
        Some(c) => c,
        None => return None,
    };
    if text_is(tag.as_str(), "Error") {
        return match c {
            JsonValue::Str(m) => Some(ServerSentCommand::Error(m.clone())),
            _ => None,
        };
    }
    if text_is(tag.as_str(), "ChatHistory") {
        return match decode_chats(c) {
            Some(ms) => Some(ServerSentCommand::ChatHistory(ms)),
            None => None,
        };
    }
    if text_is(tag.as_str(), "ChatMessage") {
        return match decode_chat(c) {
            Some(m) => Some(ServerSentCommand::ChatMessage(m)),
            None => None,
        };
    }
    if text_is(tag.as_str(), "SetUsers") {
        return match decode_users(c) {
            Some(us) => Some(ServerSentCommand::SetUsers(us)),
            None => None,
        };
    }
    if text_is(tag.as_str(), "SetRoomConfig") {
        let owner = match obj_at(c, "owner") {
            Some(o) => decode_user(o),
            None => None,
        };
        return match (string_at(c, "name"), bool_at(c, "public"), owner) {
            (Some(name), Some(public), Some(owner)) => Some(ServerSentCommand::SetRoomConfig { name, public, owner }),
            _ => None,
        };
    }
    if text_is(tag.as_str(), "SetProblems") {
        return match c {
            JsonValue::Null => Some(ServerSentCommand::SetProblems(None)),
            _ => match decode_problems(c) {
                Some(ps) => Some(ServerSentCommand::SetProblems(Some(ps))),
                None => None,
            },
        };
    }
    if text_is(tag.as_str(), "SetTestResponse") {
        return match decode_response(c) {
            Some(t) => Some(ServerSentCommand::SetTestResponse(t)),
            None => None,
        };
    }
    None
}


proof fn lemma_chat_unique(v: JsonValue, a: ChatMessage, b: ChatMessage)
    requires
        chat_json(v, a),
        chat_json(v, b),
    ensures
        a == b,
{
    reveal_tags();
    reveal_server_keys();
}

proof fn lemma_problem_unique(v: JsonValue, a: PublicProblem, b: PublicProblem)
    requires
        problem_json(v, a),
        problem_json(v, b),
    ensures
        same_problem(a, b),
{
    let items = obj_field(v, "defaultTestCases"@)->Some_0->Array_0;
    assert forall|i: int| 0 <= i < a.default_test_cases@.len() implies (#[trigger] a.default_test_cases@[i]).input@
        == b.default_test_cases@[i].input@ && a.default_test_cases@[i].output@ == b.default_test_cases@[i].output@ by {
        assert(test_case_json(items@[i], a.default_test_cases@[i]));
        assert(test_case_json(items@[i], b.default_test_cases@[i]));
    }
}

/// A JSON document is the form of at most one server command, so reading
/// back the form of a command gives that command.
pub proof fn lemma_server_round_trip(v: JsonValue, c: ServerSentCommand, d: ServerSentCommand)
    requires
        server_json(v, c),
        server_json(v, d),
    ensures
        same_server(c, d),
{
    reveal_tags();
    reveal_server_keys();
    let x = content_of(v)->Some_0;
    match (c, d) {
        (ServerSentCommand::ChatHistory(m1), ServerSentCommand::ChatHistory(m2)) => {
            assert forall|i: int| 0 <= i < m1@.len() implies m1@[i] == m2@[i] by {
                lemma_chat_unique(x->Array_0@[i], m1@[i], m2@[i]);
            }
            assert(m1@ =~= m2@);
        },
        (ServerSentCommand::ChatMessage(m1), ServerSentCommand::ChatMessage(m2)) => {
            lemma_chat_unique(x, m1, m2);
        },
        (ServerSentCommand::SetUsers(u1), ServerSentCommand::SetUsers(u2)) => {
            assert forall|i: int| 0 <= i < u1@.len() implies u1@[i] == u2@[i] by {
                assert(user_json(x->Array_0@[i], u1@[i]));
                assert(user_json(x->Array_0@[i], u2@[i]));
            }
            assert(u1@ =~= u2@);
        },
        (ServerSentCommand::SetProblems(Some(ps_a)), ServerSentCommand::SetProblems(Some(ps_b))) => {
            assert forall|i: int| 0 <= i < ps_a@.len() implies same_problem(#[trigger] ps_a@[i], ps_b@[i]) by {
                lemma_problem_unique(x->Array_0@[i], ps_a@[i], ps_b@[i]);
            }
        },
        (ServerSentCommand::SetTestResponse(t1), ServerSentCommand::SetTestResponse(t2)) => {
            match (t1, t2) {
                (
                    TestResponse::Ran { failed_tests: f1, okay_tests: o1 },
                    TestResponse::Ran { failed_tests: f2, okay_tests: o2 },
                ) => {
                    let inner = content_of(x)->Some_0;
                    let fa = obj_field(inner, "failedTests"@)->Some_0->Array_0;
                    let oa = obj_field(inner, "okayTests"@)->Some_0->Array_0;
                    assert forall|i: int| 0 <= i < f1@.len() implies f1@[i] == f2@[i] by {
                        assert(failed_json(fa@[i], f1@[i]));
                        assert(failed_json(fa@[i], f2@[i]));
                    }
                    assert(f1@ =~= f2@);
                    assert forall|i: int| 0 <= i < o1@.len() implies (#[trigger] o1@[i]).input@ == o2@[i].input@
                        && o1@[i].output@ == o2@[i].output@ by {
                        assert(test_case_json(oa@[i], o1@[i]));
                        assert(test_case_json(oa@[i], o2@[i]));
                    }
                },
                _ => {},
            }
        },
        _ => {},
    }
}

} // verus!
