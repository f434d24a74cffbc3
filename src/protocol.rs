use vstd::prelude::*;
use crate::chat::ChatMessage;
use crate::model::{PublicProblem, PublicUser, TestCase};

verus! {

/// A test case that the program did not pass: what it was given, what it
/// returned and what was expected.
pub struct FailedTestCase {
    pub input: String,
    pub output: String,
    pub expected: String,
}

impl Clone for FailedTestCase {
    fn clone(&self) -> (r: Self)
        ensures
            r == *self,
    {
        FailedTestCase {
            input: self.input.clone(),
            output: self.output.clone(),
            expected: self.expected.clone(),
        }
    }
}

/// The outcome of judging a program against a list of test cases.
pub struct JudgingResults {
    pub failed_tests: Vec<FailedTestCase>,
    pub okay_tests: Vec<TestCase>,
    pub runtime: u32,
}

/// A command a member's client sends to its room.
pub enum ClientSentCommand {
    Ping,
    SendChatMessage { content: String },
    BeginRound,
    SetEditorContent { content: String },
    TestCode { test_cases: Vec<TestCase>, language: String },
    SubmitCode { problem_index: u32, language: String },
}

/// The answer to a member's run or submission.
pub enum TestResponse {
    Error { message: String },
    Ran { failed_tests: Vec<FailedTestCase>, okay_tests: Vec<TestCase> },
    AllTestsPassed { runtime: u32 },
}

/// A command the server sends to a member's client.
pub enum ServerSentCommand {
    Error(String),
    ChatHistory(Vec<ChatMessage>),
    ChatMessage(ChatMessage),
    SetUsers(Vec<PublicUser>),
    SetRoomConfig { name: String, public: bool, owner: PublicUser },
    SetProblems(Option<Vec<PublicProblem>>),
    SetTestResponse(TestResponse),
}

/// What a room asks of one connection's endpoint.
pub enum ConnectionCommands {
    Send(String),
    Stop,
}

} // verus!
