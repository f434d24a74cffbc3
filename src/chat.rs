use vstd::prelude::*;
use crate::model::PublicUser;

verus! {

/// One entry of a room's chat.
pub enum ChatMessage {
    UserChat { author: PublicUser, content: String },
    Connection { username: String },
    Disconnection { username: String },
    RoundBegin,
    UserSubmitted { username: String },
    UserProblemCompletion { username: String, problem_index: u32 },
    UserFinished { username: String, place: u32 },
    RoundEnd,
    Bad,
}

impl Clone for ChatMessage {
    fn clone(&self) -> (r: Self)
        ensures
            r == *self,
    {
        match self {
            ChatMessage::UserChat { author, content } => ChatMessage::UserChat {
                author: author.clone(),
                content: content.clone(),
            },
            ChatMessage::Connection { username } => ChatMessage::Connection {
                username: username.clone(),
            },
            ChatMessage::Disconnection { username } => ChatMessage::Disconnection {
                username: username.clone(),
            },
            ChatMessage::RoundBegin => ChatMessage::RoundBegin,
            ChatMessage::UserSubmitted { username } => ChatMessage::UserSubmitted {
                username: username.clone(),
            },
            ChatMessage::UserProblemCompletion { username, problem_index } =>
                ChatMessage::UserProblemCompletion {
                username: username.clone(),
                problem_index: *problem_index,
            },
            ChatMessage::UserFinished { username, place } => ChatMessage::UserFinished {
                username: username.clone(),
                place: *place,
            },
            ChatMessage::RoundEnd => ChatMessage::RoundEnd,
            ChatMessage::Bad => ChatMessage::Bad,
        }
    }
}

/// How many messages a room's chat keeps.
pub const CHAT_MAX_MESSAGES: usize = 250;

/// The chat after appending `m` to `s`: the oldest message leaves once more
/// than the capacity would be held.
pub open spec fn ring_push(s: Seq<ChatMessage>, m: ChatMessage) -> Seq<ChatMessage> {
    if s.len() + 1 > CHAT_MAX_MESSAGES {
        s.push(m).drop_first()
    } else {
        s.push(m)
    }
}

/// Copies a list of chat messages.
pub fn copy_messages(v: &Vec<ChatMessage>) -> (r: Vec<ChatMessage>)
    ensures
        r@ == v@,
{
    let mut r: Vec<ChatMessage> = Vec::new();
    let mut i: usize = 0;
    while i < v.len()
        invariant
            i <= v@.len(),
            r@ == v@.take(i as int),
        decreases v.len() - i,
    {
        r.push(v[i].clone());
        i = i + 1;
        assert(r@ =~= v@.take(i as int));
    }
    assert(v@.take(v@.len() as int) =~= v@);
    r
}

/// The bounded, oldest-first history of a room's chat.
pub struct Chat {
    messages: Vec<ChatMessage>,
}

impl View for Chat {
    type V = Seq<ChatMessage>;

    closed spec fn view(&self) -> Seq<ChatMessage> {
        self.messages@
    }
}

impl Chat {
    pub open spec fn wf(&self) -> bool {
        self@.len() <= CHAT_MAX_MESSAGES
    }

    pub fn new() -> (r: Chat)
        ensures
            r.wf(),
            r@ == Seq::<ChatMessage>::empty(),
    {
        Chat { messages: Vec::new() }
    }

    /// Appends a message, dropping the oldest one beyond the capacity.
    pub fn new_message(&mut self, m: ChatMessage)
        requires
            old(self).wf(),
        ensures
            final(self).wf(),
            final(self)@ == ring_push(old(self)@, m),
    {
        self.messages.push(m);
        if self.messages.len() > CHAT_MAX_MESSAGES {
            self.messages.remove(0);
        }
        assert(self.messages@ =~= ring_push(old(self)@, m));
    }

    /// A copy of every message held, oldest first.
    pub fn get_all_messages(&self) -> (r: Vec<ChatMessage>)
        ensures
            r@ == self@,
    {
        copy_messages(&self.messages)
    }
}

/// The chat never holds more than its capacity.
pub proof fn lemma_chat_bounded(c: Chat, m: ChatMessage)
    requires
        c.wf(),
    ensures
        ring_push(c@, m).len() <= CHAT_MAX_MESSAGES,
        c@.len() == CHAT_MAX_MESSAGES ==> ring_push(c@, m) == c@.drop_first().push(m),
{
    if c@.len() == CHAT_MAX_MESSAGES {
        assert(c@.push(m).drop_first() =~= c@.drop_first().push(m));
    }
}

} // verus!
