use vstd::prelude::*;
use vstd::string::StringExecFns;
use crate::json::{JsonValue, field_of, get_field, lemma_field_at, text_is};
use crate::model::TestCase;
use crate::protocol::ClientSentCommand;

verus! {

/// The value stored under `key` in the object `v`.
pub open spec fn obj_field(v: JsonValue, key: Seq<char>) -> Option<JsonValue> {
    match v {
        JsonValue::Object(fs) => field_of(fs@, key),
        _ => None,
    }
}

/// The string stored under `key` in the object `v`.
pub open spec fn str_field(v: JsonValue, key: Seq<char>) -> Option<Seq<char>> {
    match obj_field(v, key) {
        Some(JsonValue::Str(s)) => Some(s@),
        _ => None,
    }
}

/// The number stored under `key` in the object `v`.
pub open spec fn num_field(v: JsonValue, key: Seq<char>) -> Option<u64> {
    match obj_field(v, key) {
        Some(JsonValue::Number(n)) => Some(n),
        _ => None,
    }
}

/// The tag of the envelope `v`.
pub open spec fn tag_of(v: JsonValue) -> Option<Seq<char>> {
    str_field(v, "t"@)
}

/// The content of the envelope `v`.
pub open spec fn content_of(v: JsonValue) -> Option<JsonValue> {
    obj_field(v, "c"@)
}

/// `v` is the JSON form of the test case `c`.
pub open spec fn test_case_json(v: JsonValue, c: TestCase) -> bool {
    &&& str_field(v, "input"@) == Some(c.input@)
    &&& str_field(v, "output"@) == Some(c.output@)
}

/// `v` is a JSON array of the forms of `cs`.
pub open spec fn test_cases_json(v: JsonValue, cs: Seq<TestCase>) -> bool {
    v matches JsonValue::Array(items) && items@.len() == cs.len()
        && forall|i: int| 0 <= i < cs.len() ==> test_case_json(#[trigger] items@[i], cs[i])
}

/// `v` is the JSON form of the client command `c`.
pub open spec fn client_json(v: JsonValue, c: ClientSentCommand) -> bool {
    match c {
        ClientSentCommand::Ping => tag_of(v) == Some("Ping"@),
        ClientSentCommand::SendChatMessage { content } => {
            &&& tag_of(v) == Some("SendChatMessage"@)
            &&& content_of(v) matches Some(x) && str_field(x, "content"@) == Some(content@)
        },
        ClientSentCommand::BeginRound => tag_of(v) == Some("BeginRound"@),
        ClientSentCommand::SetEditorContent { content } => {
            &&& tag_of(v) == Some("SetEditorContent"@)
            &&& content_of(v) matches Some(x) && str_field(x, "content"@) == Some(content@)
        },
        ClientSentCommand::TestCode { test_cases, language } => {
            &&& tag_of(v) == Some("TestCode"@)
            &&& content_of(v) matches Some(x) && obj_field(x, "testCases"@) matches Some(y)
                && test_cases_json(y, test_cases@) && str_field(x, "language"@) == Some(language@)
        },
        ClientSentCommand::SubmitCode { problem_index, language } => {
            &&& tag_of(v) == Some("SubmitCode"@)
            &&& content_of(v) matches Some(x) && num_field(x, "problemIndex"@) == Some(problem_index as u64)
                && str_field(x, "language"@) == Some(language@)
        },
    }
}

/// Two client commands agree in every field.
pub open spec fn same_client(a: ClientSentCommand, b: ClientSentCommand) -> bool {
    match (a, b) {
        (ClientSentCommand::Ping, ClientSentCommand::Ping) => true,
        (ClientSentCommand::SendChatMessage { content: x }, ClientSentCommand::SendChatMessage { content: y }) =>
            x@ == y@,
        (ClientSentCommand::BeginRound, ClientSentCommand::BeginRound) => true,
        (ClientSentCommand::SetEditorContent { content: x }, ClientSentCommand::SetEditorContent { content: y }) =>
            x@ == y@,
        (
            ClientSentCommand::TestCode { test_cases: x, language: l },
            ClientSentCommand::TestCode { test_cases: y, language: m },
        ) => l@ == m@ && x@.len() == y@.len() && forall|i: int|
            0 <= i < x@.len() ==> (#[trigger] x@[i]).input@ == y@[i].input@ && x@[i].output@ == y@[i].output@,
        (
            ClientSentCommand::SubmitCode { problem_index: x, language: l },
            ClientSentCommand::SubmitCode { problem_index: y, language: m },
        ) => x == y && l@ == m@,
        _ => false,
    }
}

fn text(s: &str) -> (r: JsonValue)
    ensures
        r matches JsonValue::Str(x) && x@ == s@,
{
    JsonValue::Str(String::from_str(s))
}

fn entry(key: &str, v: JsonValue) -> (r: (String, JsonValue))
    ensures
        r.0@ == key@,
        r.1 == v,
{
    (String::from_str(key), v)
}

/// The object of the fields `fs`.
fn object(fs: Vec<(String, JsonValue)>) -> (r: JsonValue)
    ensures
        r == JsonValue::Object(fs),
{
    JsonValue::Object(fs)
}

/// The envelope `{"t": tag}` or `{"t": tag, "c": content}`.
fn envelope(tag: &str, content: Option<JsonValue>) -> (r: JsonValue)
    ensures
        tag_of(r) == Some(tag@),
        match content {
            Some(c) => content_of(r) == Some(c),
            None => true,
        },
{
    proof {
        reveal_strlit("t");
        reveal_strlit("c");
    }
    let mut fs: Vec<(String, JsonValue)> = Vec::new();
    fs.push(entry("t", text(tag)));
    match content {
        Some(c) => {
            fs.push(entry("c", c));
            assert("t"@[0] != "c"@[0]);
            assert(fs@[0].0@ != "c"@);
            proof { lemma_field_at(fs@, "c"@, 1); }
            assert(fs@.drop_first().drop_first().len() == 0);
        },
        None => {},
    }
    object(fs)
}

fn copy_text(s: &String) -> (r: JsonValue)
    ensures
        r matches JsonValue::Str(x) && x@ == s@,
{
    JsonValue::Str(s.clone())
}

/// The JSON form of a test case.
pub fn encode_test_case(c: &TestCase) -> (r: JsonValue)
    ensures
        test_case_json(r, *c),
{
    proof {
        reveal_strlit("input");
        reveal_strlit("output");
    }
    let mut fs: Vec<(String, JsonValue)> = Vec::new();
    fs.push(entry("input", copy_text(&c.input)));
    fs.push(entry("output", copy_text(&c.output)));
    assert("input"@.len() != "output"@.len());
    assert(fs@[0].0@ != "output"@);
    proof { lemma_field_at(fs@, "output"@, 1); }
    assert(fs@.drop_first()[0] == fs@[1]);
    object(fs)
}

/// The JSON form of a list of test cases.
pub fn encode_test_cases(cs: &Vec<TestCase>) -> (r: JsonValue)
    ensures
        test_cases_json(r, cs@),
{
    let mut items: Vec<JsonValue> = Vec::new();
    let mut i: usize = 0;
    while i < cs.len()
        invariant
            i <= cs@.len(),
            items@.len() == i,
            forall|k: int| 0 <= k < i ==> test_case_json(#[trigger] items@[k], cs@[k]),
        decreases cs.len() - i,
    {
        items.push(encode_test_case(&cs[i]));
        i = i + 1;
    }
    JsonValue::Array(items)
}


/// The object stored under `key` in `v`.
pub(crate) fn obj_at<'a>(v: &'a JsonValue, key: &str) -> (r: Option<&'a JsonValue>)
    ensures
        match r {
            Some(x) => obj_field(*v, key@) == Some(*x),
            None => obj_field(*v, key@) is None,
        },
{
    match v {
        JsonValue::Object(fs) => get_field(fs, key),
        _ => None,
    }
}

/// The string stored under `key` in `v`.
pub(crate) fn str_at(v: &JsonValue, key: &str) -> (r: Option<String>)
    ensures
        match r {
            Some(s) => str_field(*v, key@) == Some(s@),
            None => str_field(*v, key@) is None,
        },
{
    match obj_at(v, key) {
        Some(JsonValue::Str(s)) => Some(s.clone()),
        _ => None,
    }
}

/// The number stored under `key` in `v`.
fn num_at(v: &JsonValue, key: &str) -> (r: Option<u64>)
    ensures
        r == num_field(*v, key@),
{
    match obj_at(v, key) {
        Some(JsonValue::Number(n)) => Some(*n),
        _ => None,
    }
}

/// Reads a test case.
pub fn decode_test_case(v: &JsonValue) -> (r: Option<TestCase>)
    ensures
        match r {
            Some(c) => test_case_json(*v, c),
            None => forall|c: TestCase| !test_case_json(*v, c),
        },
{
    let input = match str_at(v, "input") {
        Some(s) => s,
        None => return None,
    };
    let output = match str_at(v, "output") {
        Some(s) => s,
        None => return None,
    };
    Some(TestCase { input, output })
}

/// Reads a list of test cases.
pub fn decode_test_cases(v: &JsonValue) -> (r: Option<Vec<TestCase>>)
    ensures
        match r {
            Some(cs) => test_cases_json(*v, cs@),
            None => forall|cs: Seq<TestCase>| !test_cases_json(*v, cs),
        },
{
    let items = match v {
        JsonValue::Array(items) => items,
        _ => return None,
    };
    let mut cs: Vec<TestCase> = Vec::new();
    let mut i: usize = 0;
    while i < items.len()
        invariant
            *v == JsonValue::Array(*items),
            i <= items@.len(),
            cs@.len() == i,
            forall|k: int| 0 <= k < i ==> test_case_json(#[trigger] items@[k], cs@[k]),
        decreases items.len() - i,
    {
        match decode_test_case(&items[i]) {
            Some(c) => cs.push(c),
            None => {
                proof {
                    assert forall|xs: Seq<TestCase>| !test_cases_json(*v, xs) by {
                        if test_cases_json(*v, xs) {
                            assert(v->Array_0@[i as int] == items@[i as int]);
                            assert(test_case_json(v->Array_0@[i as int], xs[i as int]));
                        }
                    }
                }
                return None;
            },
        }
        i = i + 1;
    }
    Some(cs)
}

proof fn reveal_client_tags() -> (b: bool)
    ensures
        "Ping"@.len() == 4,
        "SendChatMessage"@.len() == 15,
        "BeginRound"@.len() == 10 && "BeginRound"@[0] == 'B',
        "SetEditorContent"@.len() == 16,
        "TestCode"@.len() == 8,
        "SubmitCode"@.len() == 10 && "SubmitCode"@[0] == 'S',
        "content"@.len() == 7,
        "testCases"@.len() == 9,
        "language"@.len() == 8,
        "problemIndex"@.len() == 12,
{
    reveal_strlit("Ping");
    reveal_strlit("SendChatMessage");
    reveal_strlit("BeginRound");
    reveal_strlit("SetEditorContent");
    reveal_strlit("TestCode");
    reveal_strlit("SubmitCode");
    reveal_strlit("content");
    reveal_strlit("testCases");
    reveal_strlit("language");
    reveal_strlit("problemIndex");
    true
}

/// Reads a client command; `None` when `v` is the form of no command.
pub fn decode_client(v: &JsonValue) -> (r: Option<ClientSentCommand>)
    ensures
        match r {
            Some(c) => client_json(*v, c),
            None => forall|c: ClientSentCommand| !client_json(*v, c),
        },
{
    proof {
        reveal_client_tags();
    }
    let tag = match str_at(v, "t") {
        Some(t) => t,
        None => return None,
    };
    if text_is(tag.as_str(), "Ping") {
        return Some(ClientSentCommand::Ping);
    }
    if text_is(tag.as_str(), "BeginRound") {
        return Some(ClientSentCommand::BeginRound);
    }
    let c = match obj_at(v, "c") {
        Some(c) => c,
        None => return None,
    };
    if text_is(tag.as_str(), "SendChatMessage") {
        return match str_at(c, "content") {
            Some(content) => Some(ClientSentCommand::SendChatMessage { content }),
            None => None,
        };
    }
    if text_is(tag.as_str(), "SetEditorContent") {
        return match str_at(c, "content") {
            Some(content) => Some(ClientSentCommand::SetEditorContent { content }),
            None => None,
        };
    }
    if text_is(tag.as_str(), "TestCode") {
        let cases = match obj_at(c, "testCases") {
            Some(x) => decode_test_cases(x),
            None => None,
        };
        return match (cases, str_at(c, "language")) {
            (Some(test_cases), Some(language)) => Some(ClientSentCommand::TestCode { test_cases, language }),
            _ => None,
        };
    }
    if text_is(tag.as_str(), "SubmitCode") {
        return match (num_at(c, "problemIndex"), str_at(c, "language")) {
            (Some(n), Some(language)) => if n <= u32::MAX as u64 {
                Some(ClientSentCommand::SubmitCode { problem_index: n as u32, language })
            } else {
                None
            },
            _ => None,
        };
    }
    None
}

/// The JSON form of a client command.
pub fn encode_client(c: &ClientSentCommand) -> (r: JsonValue)
    ensures
        client_json(r, *c),
{
    proof {
        reveal_client_tags();
    }
    match c {
        ClientSentCommand::Ping => envelope("Ping", None),
        ClientSentCommand::BeginRound => envelope("BeginRound", None),
        ClientSentCommand::SendChatMessage { content } => {
            let mut fs: Vec<(String, JsonValue)> = Vec::new();
            fs.push(entry("content", copy_text(content)));
            envelope("SendChatMessage", Some(object(fs)))
        },
        ClientSentCommand::SetEditorContent { content } => {
            let mut fs: Vec<(String, JsonValue)> = Vec::new();
            fs.push(entry("content", copy_text(content)));
            envelope("SetEditorContent", Some(object(fs)))
        },
        ClientSentCommand::TestCode { test_cases, language } => {
            let mut fs: Vec<(String, JsonValue)> = Vec::new();
            fs.push(entry("testCases", encode_test_cases(test_cases)));
            fs.push(entry("language", copy_text(language)));
            proof {
                lemma_field_at(fs@, "language"@, 1);
            }
            envelope("TestCode", Some(object(fs)))
        },
        ClientSentCommand::SubmitCode { problem_index, language } => {
            let mut fs: Vec<(String, JsonValue)> = Vec::new();
            fs.push(entry("problemIndex", JsonValue::Number(*problem_index as u64)));
            fs.push(entry("language", copy_text(language)));
            proof {
                lemma_field_at(fs@, "language"@, 1);
            }
            envelope("SubmitCode", Some(object(fs)))
        },
    }
}

/// A JSON document is the form of at most one client command, so reading
/// back the form of a command gives that command.
pub proof fn lemma_client_round_trip(v: JsonValue, c: ClientSentCommand, d: ClientSentCommand)
    requires
        client_json(v, c),
        client_json(v, d),
    ensures
        same_client(c, d),
{
    reveal_client_tags();
    match (c, d) {
        (
            ClientSentCommand::TestCode { test_cases: x, language: l },
            ClientSentCommand::TestCode { test_cases: y, language: m },
        ) => {
            assert forall|i: int| 0 <= i < x@.len() implies (#[trigger] x@[i]).input@ == y@[i].input@
                && x@[i].output@ == y@[i].output@ by {
                let items = obj_field(content_of(v)->Some_0, "testCases"@)->Some_0->Array_0;
                assert(test_case_json(items@[i], x@[i]));
                assert(test_case_json(items@[i], y@[i]));
            }
        },
        _ => {},
    }
}

} // verus!
