use vstd::prelude::*;
use crate::chat::{Chat, ChatMessage, ring_push};
use crate::json::text_is;
use crate::model::{
    ConnId, Problem, PublicProblem, PublicUser, RoomConfig, TestCase, User, UserId,
    is_public_problem, public_of,
};
use crate::protocol::{ClientSentCommand, FailedTestCase, JudgingResults, ServerSentCommand, TestResponse};

verus! {

/// A joined connection and the state the room keeps for its user.
pub struct Member {
    pub conn: ConnId,
    pub user: User,
    pub editor: String,
    pub completed: Vec<u32>,
}

/// A run of a member's code that the room asked for; `problem_index` is set
/// for a submission and empty for a test run.
pub struct JudgeRequest {
    pub conn: ConnId,
    pub user: UserId,
    pub username: String,
    pub language: String,
    pub code: String,
    pub test_cases: Vec<TestCase>,
    pub problem_index: Option<u32>,
}

/// What the room asks of the task that drives it.
#[allow(inconsistent_fields)]
pub enum RoomEffect {
    /// Deliver a command to one connection.
    Send { to: ConnId, command: ServerSentCommand },
    /// Deliver a command to each listed connection, in order.
    Broadcast { to: Vec<ConnId>, command: ServerSentCommand },
    /// Schedule the room's stop after the idle delay.
    StartDeletionTimer,
    /// Cancel the scheduled stop.
    CancelDeletionTimer,
    /// Run code through the judge and hand the outcome back with `Room::judged`.
    Judge(JudgeRequest),
    /// The room ends.
    Stop,
}

/// Commands a room accepts.
pub enum RoomCommands {
    Stop,
    AddConnection(ConnId, User),
    RemoveConnection(ConnId),
    ClientSent(ConnId, ClientSentCommand),
    Judged(JudgeRequest, Result<JudgingResults, String>),
}

/// Number of `UserFinished` messages in `s`.
pub open spec fn count_finished(s: Seq<ChatMessage>) -> nat
    decreases s.len(),
{
    if s.len() == 0 {
        0
    } else {
        count_finished(s.drop_last()) + if s.last() is UserFinished { 1nat } else { 0nat }
    }
}

/// Every `UserFinished` message of `log` carries its own rank among them.
pub open spec fn places_are_ranks(log: Seq<ChatMessage>) -> bool {
    forall|i: int|
        0 <= i < log.len() ==> (#[trigger] log[i] matches ChatMessage::UserFinished { place, .. }
            ==> place == count_finished(log.take(i + 1)))
}

/// `e` sends the chat history `h` to `to`.
pub open spec fn sends_history(e: RoomEffect, to: ConnId, h: Seq<ChatMessage>) -> bool {
    match e {
        RoomEffect::Send { to: t, command: ServerSentCommand::ChatHistory(v) } => t == to && v@ == h,
        _ => false,
    }
}

/// `e` sends the settings of `c` to `to`, with the owner's public projection.
pub open spec fn sends_config(e: RoomEffect, to: ConnId, c: RoomConfig) -> bool {
    match e {
        RoomEffect::Send { to: t, command: ServerSentCommand::SetRoomConfig { name, public, owner } } =>
            t == to && name == c.name && public == c.public && owner == public_of(c.owner),
        _ => false,
    }
}

/// `e` delivers chat message `m` to the connections `to`.
pub open spec fn broadcasts_message(e: RoomEffect, to: Seq<ConnId>, m: ChatMessage) -> bool {
    match e {
        RoomEffect::Broadcast { to: t, command: ServerSentCommand::ChatMessage(x) } => t@ == to && x == m,
        _ => false,
    }
}

/// `e` delivers the member list `us` to the connections `to`.
pub open spec fn broadcasts_users(e: RoomEffect, to: Seq<ConnId>, us: Seq<PublicUser>) -> bool {
    match e {
        RoomEffect::Broadcast { to: t, command: ServerSentCommand::SetUsers(v) } => t@ == to && v@ == us,
        _ => false,
    }
}

/// `cmd` shows the public projection of each of `ps`, in order.
pub open spec fn shows_problems(cmd: ServerSentCommand, ps: Seq<Problem>) -> bool {
    match cmd {
        ServerSentCommand::SetProblems(Some(v)) => v@.len() == ps.len() && forall|i: int|
            0 <= i < ps.len() ==> is_public_problem(#[trigger] v@[i], ps[i]),
        _ => false,
    }
}

/// `e` sends `to` the outcome `resp` of a run.
pub open spec fn sends_response(e: RoomEffect, to: ConnId, resp: TestResponse) -> bool {
    match e {
        RoomEffect::Send { to: t, command: ServerSentCommand::SetTestResponse(x) } => t == to && x == resp,
        _ => false,
    }
}

/// The two languages code can be judged in.
pub open spec fn is_language(l: Seq<char>) -> bool {
    l == "javascript"@ || l == "python"@
}

/// Count of finish announcements after appending `m` to `s`.
pub proof fn lemma_count_push(s: Seq<ChatMessage>, m: ChatMessage)
    ensures
        count_finished(s.push(m)) == count_finished(s) + if m is UserFinished { 1nat } else { 0nat },
        places_are_ranks(s) && (m matches ChatMessage::UserFinished { place, .. } ==> place
            == count_finished(s) + 1) ==> places_are_ranks(s.push(m)),
{
    assert(s.push(m).drop_last() =~= s);
    if places_are_ranks(s) && (m matches ChatMessage::UserFinished { place, .. } ==> place
        == count_finished(s) + 1) {
        let t = s.push(m);
        assert forall|i: int| 0 <= i < t.len() implies (#[trigger] t[i] matches ChatMessage::UserFinished { place, .. }
            ==> place == count_finished(t.take(i + 1))) by {
            if i < s.len() {
                assert(t.take(i + 1) =~= s.take(i + 1));
                assert(s[i] == t[i]);
            } else {
                assert(t.take(i + 1) =~= t);
            }
        }
    }
}

/// The effects of admitting connection `conn`: the timer is cancelled if it
/// ran, the joiner gets the history and the settings, everyone gets the join
/// message and the new member list, and during a round the joiner gets the
/// problems.
pub open spec fn add_effects(r: Seq<RoomEffect>, old: Room, new: Room, conn: ConnId) -> bool {
    let k: int = if old.timer_active() { 1 } else { 0 };
    let m = new.chat_log().last();
    &&& r.len() == k + 4 + if old.round_in_progress() { 1int } else { 0int }
    &&& old.timer_active() ==> r[0] is CancelDeletionTimer
    &&& sends_history(r[k], conn, old.chat())
    &&& sends_config(r[k + 1], conn, old.config())
    &&& broadcasts_message(r[k + 2], new.conn_ids(), m)
    &&& broadcasts_users(r[k + 3], new.conn_ids(), new.public_users())
    &&& old.round_in_progress() ==> (r[k + 4] matches RoomEffect::Send { to, command } && to == conn
        && shows_problems(command, old.problems()))
}

/// After removing connection `c` from `old`: its member is gone, the others
/// hear of it and get the new member list, and an emptied room starts its
/// deletion timer.
pub open spec fn remove_post(old: Room, new: Room, c: Seq<char>, r: Seq<RoomEffect>) -> bool {
    let i = old.conn_index(c);
    let msg = ChatMessage::Disconnection { username: old.members()[i].user.name };
    &&& new.members() == old.members().remove(i)
    &&& new.chat() == ring_push(old.chat(), msg)
    &&& new.chat_log() == old.chat_log().push(msg)
    &&& new.config() == old.config()
    &&& new.problems() == old.problems()
    &&& new.round_in_progress() == old.round_in_progress()
    &&& new.users_finished() == old.users_finished()
    &&& r.len() == 2 + if new.members().len() == 0 { 1int } else { 0int }
    &&& broadcasts_message(r[0], new.conn_ids(), msg)
    &&& broadcasts_users(r[1], new.conn_ids(), new.public_users())
    &&& new.members().len() == 0 ==> r[2] is StartDeletionTimer
}

/// `new` is `old` with `m` appended to the chat and nothing else changed.
pub open spec fn chat_appended(old: Room, new: Room, m: ChatMessage) -> bool {
    &&& new.members() == old.members()
    &&& new.chat() == ring_push(old.chat(), m)
    &&& new.chat_log() == old.chat_log().push(m)
    &&& new.config() == old.config()
    &&& new.problems() == old.problems()
    &&& new.users_finished() == old.users_finished()
    &&& new.timer_active() == old.timer_active()
}

/// `e` asks to judge the code in the editor of member `m` against `cases`.
pub open spec fn judges(e: RoomEffect, m: Member, language: String, cases: Seq<TestCase>, index: Option<u32>) -> bool {
    match e {
        RoomEffect::Judge(req) => {
            &&& req.conn == m.conn
            &&& req.user == m.user.id
            &&& req.username == m.user.name
            &&& req.language == language
            &&& req.code == m.editor
            &&& req.test_cases@ == cases
            &&& req.problem_index == index
        },
        _ => false,
    }
}

/// What handling `cmd` from connection `c` does.
pub open spec fn client_post(old: Room, new: Room, c: Seq<char>, cmd: ClientSentCommand, r: Seq<RoomEffect>) -> bool {
    if !old.has_conn(c) {
        new == old && r.len() == 0
    } else {
        let i = old.conn_index(c);
        let m = old.members()[i];
        match cmd {
            ClientSentCommand::Ping => new == old && r.len() == 0,
            ClientSentCommand::SendChatMessage { content } => {
                let msg = ChatMessage::UserChat { author: public_of(m.user), content };
                &&& chat_appended(old, new, msg)
                &&& new.round_in_progress() == old.round_in_progress()
                &&& r.len() == 1
                &&& broadcasts_message(r[0], old.conn_ids(), msg)
            },
            ClientSentCommand::BeginRound => if old.round_in_progress() {
                new == old && r.len() == 0
            } else {
                &&& chat_appended(old, new, ChatMessage::RoundBegin)
                &&& new.round_in_progress()
                &&& r.len() == 2
                &&& broadcasts_message(r[0], old.conn_ids(), ChatMessage::RoundBegin)
                &&& r[1] matches RoomEffect::Broadcast { to, command } && to@ == old.conn_ids()
                    && shows_problems(command, old.problems())
            },
            ClientSentCommand::SetEditorContent { content } => {
                &&& new.members() == old.members().update(i, Member { editor: content, ..m })
                &&& new.chat() == old.chat()
                &&& new.chat_log() == old.chat_log()
                &&& new.config() == old.config()
                &&& new.problems() == old.problems()
                &&& new.round_in_progress() == old.round_in_progress()
                &&& new.users_finished() == old.users_finished()
                &&& new.timer_active() == old.timer_active()
                &&& r.len() == 0
            },
            ClientSentCommand::TestCode { test_cases, language } => {
                &&& new == old
                &&& if is_language(language@) {
                    r.len() == 1 && judges(r[0], m, language, test_cases@, None)
                } else {
                    r.len() == 0
                }
            },
            ClientSentCommand::SubmitCode { problem_index, language } => {
                if is_language(language@) && problem_index < old.problems().len() {
                    let msg = ChatMessage::UserSubmitted { username: m.user.name };
                    &&& chat_appended(old, new, msg)
                    &&& new.round_in_progress() == old.round_in_progress()
                    &&& r.len() == 2
                    &&& broadcasts_message(r[0], old.conn_ids(), msg)
                    &&& judges(r[1], m, language, old.problems()[problem_index as int].test_cases@, Some(problem_index))
                } else {
                    new == old && r.len() == 0
                }
            },
        }
    }
}

/// `e` tells `to` that its submission passed every test in `runtime` ms.
pub open spec fn sends_all_passed(e: RoomEffect, to: ConnId, runtime: u32) -> bool {
    sends_response(e, to, TestResponse::AllTestsPassed { runtime })
}

/// `new` differs from `old` only in that member `j` has solved `index` too.
pub open spec fn adds_completion(old: Room, new: Room, j: int, index: u32) -> bool {
    &&& new.members().len() == old.members().len()
    &&& forall|k: int| 0 <= k < old.members().len() && k != j ==> new.members()[k] == old.members()[k]
    &&& new.members()[j].conn == old.members()[j].conn
    &&& new.members()[j].user == old.members()[j].user
    &&& new.members()[j].editor == old.members()[j].editor
    &&& new.members()[j].completed@ == old.members()[j].completed@.push(index)
}

/// What delivering `result` for `req` does.
pub open spec fn judged_post(
    old: Room,
    new: Room,
    req: JudgeRequest,
    result: Result<JudgingResults, String>,
    r: Seq<RoomEffect>,
) -> bool {
    match result {
        Err(message) => new == old && r.len() == 1
            && sends_response(r[0], req.conn, TestResponse::Error { message }),
        Ok(res) => match req.problem_index {
            None => new == old && r.len() == 1 && sends_response(
                r[0],
                req.conn,
                TestResponse::Ran { failed_tests: res.failed_tests, okay_tests: res.okay_tests },
            ),
            Some(index) => if res.failed_tests@.len() > 0 {
                &&& new == old
                &&& r.len() == 1
                &&& r[0] matches RoomEffect::Send {
                    to,
                    command: ServerSentCommand::SetTestResponse(TestResponse::Ran { failed_tests, okay_tests }),
                } && to == req.conn && failed_tests@ == res.failed_tests@.take(1) && okay_tests@.len() == 0
            } else {
                let msg = ChatMessage::UserProblemCompletion { username: req.username, problem_index: index };
                let j = old.user_index(req.user@);
                let counted = old.has_user(req.user@) && index < old.problems().len()
                    && !old.members()[j].completed@.contains(index);
                let finishes = counted && old.members()[j].completed@.len() + 1 == old.problems().len()
                    && old.users_finished() < u32::MAX;
                let fin = ChatMessage::UserFinished {
                    username: req.username,
                    place: (old.users_finished() + 1) as u32,
                };
                &&& sends_all_passed(r[0], req.conn, res.runtime)
                &&& broadcasts_message(r[1], old.conn_ids(), msg)
                &&& new.config() == old.config()
                &&& new.problems() == old.problems()
                &&& new.round_in_progress() == old.round_in_progress()
                &&& new.timer_active() == old.timer_active()
                &&& if counted {
                    adds_completion(old, new, j, index)
                } else {
                    new.members() == old.members()
                }
                &&& if finishes {
                    &&& r.len() == 3
                    &&& new.users_finished() == old.users_finished() + 1
                    &&& new.chat() == ring_push(ring_push(old.chat(), msg), fin)
                    &&& new.chat_log() == old.chat_log().push(msg).push(fin)
                    &&& broadcasts_message(r[2], old.conn_ids(), fin)
                } else {
                    &&& r.len() == 2
                    &&& new.users_finished() == old.users_finished()
                    &&& new.chat() == ring_push(old.chat(), msg)
                    &&& new.chat_log() == old.chat_log().push(msg)
                }
            },
        },
    }
}

/// Whether `v` holds `x`.
pub fn contains_index(v: &Vec<u32>, x: u32) -> (r: bool)
    ensures
        r == v@.contains(x),
{
    let mut i: usize = 0;
    while i < v.len()
        invariant
            i <= v@.len(),
            forall|k: int| 0 <= k < i ==> v@[k] != x,
        decreases v.len() - i,
    {
        if v[i] == x {
            return true;
        }
        i = i + 1;
    }
    false
}

/// What removing connection `c` does, whether or not it is there.
pub open spec fn remove_spec(old: Room, new: Room, c: Seq<char>, r: Seq<RoomEffect>) -> bool {
    &&& !old.has_conn(c) ==> new == old && r.len() == 0
    &&& old.has_conn(c) ==> remove_post(old, new, c, r)
}

/// What admitting connection `conn` of `user` does.
pub open spec fn add_post(old: Room, new: Room, conn: ConnId, user: User, r: Seq<RoomEffect>) -> bool {
    let msg = ChatMessage::Connection { username: user.name };
    &&& new.members().len() == old.members().len() + 1
    &&& new.members().take(old.members().len() as int) == old.members()
    &&& new.members().last().conn == conn
    &&& new.members().last().user == user
    &&& new.members().last().editor@.len() == 0
    &&& new.members().last().completed@.len() == 0
    &&& new.chat() == ring_push(old.chat(), msg)
    &&& new.chat_log() == old.chat_log().push(msg)
    &&& new.config() == old.config()
    &&& new.problems() == old.problems()
    &&& new.round_in_progress() == old.round_in_progress()
    &&& new.users_finished() == old.users_finished()
    &&& !new.timer_active()
    &&& add_effects(r, old, new, conn)
}

/// The state of one room, driven by one task.
pub struct Room {
    config: RoomConfig,
    members: Vec<Member>,
    chat: Chat,
    problems: Vec<Problem>,
    round_in_progress: bool,
    users_who_finished: u32,
    deletion_timer: bool,
    /// Every chat message ever appended, oldest first.
    log: Ghost<Seq<ChatMessage>>,
}

impl Room {
    pub closed spec fn config(&self) -> RoomConfig {
        self.config
    }

    pub closed spec fn members(&self) -> Seq<Member> {
        self.members@
    }

    pub closed spec fn chat(&self) -> Seq<ChatMessage> {
        self.chat@
    }

    /// Every chat message appended since the room was made.
    pub closed spec fn chat_log(&self) -> Seq<ChatMessage> {
        self.log@
    }

    pub closed spec fn problems(&self) -> Seq<Problem> {
        self.problems@
    }

    pub closed spec fn round_in_progress(&self) -> bool {
        self.round_in_progress
    }

    pub closed spec fn users_finished(&self) -> u32 {
        self.users_who_finished
    }

    pub closed spec fn timer_active(&self) -> bool {
        self.deletion_timer
    }

    pub open spec fn conn_ids(&self) -> Seq<ConnId> {
        self.members().map_values(|m: Member| m.conn)
    }

    pub open spec fn public_users(&self) -> Seq<PublicUser> {
        self.members().map_values(|m: Member| public_of(m.user))
    }

    pub open spec fn conn_index(&self, c: Seq<char>) -> int {
        choose|i: int| 0 <= i < self.members().len() && self.members()[i].conn@ == c
    }

    pub open spec fn user_index(&self, u: Seq<char>) -> int {
        choose|i: int| 0 <= i < self.members().len() && self.members()[i].user.id@ == u
    }

    pub open spec fn has_conn(&self, c: Seq<char>) -> bool {
        exists|i: int| 0 <= i < self.members().len() && self.members()[i].conn@ == c
    }

    pub open spec fn has_user(&self, u: Seq<char>) -> bool {
        exists|i: int| 0 <= i < self.members().len() && self.members()[i].user.id@ == u
    }

    /// Connection id to the id of its user.
    pub open spec fn connections(&self) -> Map<Seq<char>, Seq<char>> {
        Map::new(|c: Seq<char>| self.has_conn(c), |c: Seq<char>| self.members()[self.conn_index(c)].user.id@)
    }

    /// User id to its connection id and user.
    pub open spec fn users(&self) -> Map<Seq<char>, (Seq<char>, User)> {
        Map::new(
            |u: Seq<char>| self.has_user(u),
            |u: Seq<char>|
                (self.members()[self.user_index(u)].conn@, self.members()[self.user_index(u)].user),
        )
    }

    /// User id to the code in that user's editor.
    pub open spec fn editor_contents(&self) -> Map<Seq<char>, Seq<char>> {
        Map::new(|u: Seq<char>| self.has_user(u), |u: Seq<char>| self.members()[self.user_index(u)].editor@)
    }

    /// User id to the indices of the problems that user has solved.
    pub open spec fn problem_completion(&self) -> Map<Seq<char>, Set<u32>> {
        Map::new(
            |u: Seq<char>| self.has_user(u),
            |u: Seq<char>| self.members()[self.user_index(u)].completed@.to_set(),
        )
    }

    pub open spec fn wf(&self) -> bool {
        &&& forall|i: int, j: int|
            0 <= i < j < self.members().len() ==> self.members()[i].conn@ != self.members()[j].conn@
                && self.members()[i].user.id@ != self.members()[j].user.id@
        &&& forall|i: int|
            0 <= i < self.members().len() ==> {
                let c = #[trigger] self.members()[i].completed@;
                &&& c.no_duplicates()
                &&& forall|k: int| 0 <= k < c.len() ==> c[k] < self.problems().len()
            }
        &&& self.chat().len() <= crate::chat::CHAT_MAX_MESSAGES
        &&& self.timer_active() == (self.members().len() == 0)
        &&& self.users_finished() == count_finished(self.chat_log())
        &&& places_are_ranks(self.chat_log())
    }

    /// A new room with no members, whose deletion timer the driving task
    /// starts before it hands the room its first command.
    pub fn new(problems: Vec<Problem>, config: RoomConfig) -> (r: Room)
        ensures
            r.wf(),
            r.config() == config,
            r.problems() == problems@,
            r.members().len() == 0,
            r.chat().len() == 0,
            r.chat_log().len() == 0,
            !r.round_in_progress(),
            r.users_finished() == 0,
            r.timer_active(),
    {
        Room {
            config,
            members: Vec::new(),
            chat: Chat::new(),
            problems,
            round_in_progress: false,
            users_who_finished: 0,
            deletion_timer: true,
            log: Ghost(Seq::empty()),
        }
    }

    /// Appends `m` to the chat and to the log of appended messages, and
    /// delivers it to every member.
    fn append_chat(&mut self, m: ChatMessage) -> (e: RoomEffect)
        requires
            old(self).chat().len() <= crate::chat::CHAT_MAX_MESSAGES,
        ensures
            final(self).chat() == ring_push(old(self).chat(), m),
            final(self).chat_log() == old(self).chat_log().push(m),
            final(self).members() == old(self).members(),
            final(self).config() == old(self).config(),
            final(self).problems() == old(self).problems(),
            final(self).round_in_progress() == old(self).round_in_progress(),
            final(self).users_finished() == old(self).users_finished(),
            final(self).timer_active() == old(self).timer_active(),
            broadcasts_message(e, old(self).conn_ids(), m),
    {
        proof {
            self.log@ = self.log@.push(m);
        }
        let c = m.clone();
        self.chat.new_message(m);
        let to = self.all_conn_ids();
        RoomEffect::Broadcast { to, command: ServerSentCommand::ChatMessage(c) }
    }

    /// Admits a connection of a user not yet in the room.
    pub fn add_connection(&mut self, conn: ConnId, user: User) -> (r: Vec<RoomEffect>)
        requires
            old(self).wf(),
            !old(self).has_conn(conn@),
            !old(self).has_user(user.id@),
        ensures
            final(self).wf(),
            add_post(*old(self), *final(self), conn, user, r@),
    {
        let mut effects: Vec<RoomEffect> = Vec::new();
        if self.deletion_timer {
            self.deletion_timer = false;
            effects.push(RoomEffect::CancelDeletionTimer);
        }
        let username = user.name.clone();
        let history = self.chat.get_all_messages();
        self.members.push(
            Member { conn: conn.clone(), user, editor: String::new(), completed: Vec::new() },
        );
        proof {
            assert(self.members@.take(old(self).members@.len() as int) =~= old(self).members@);
            lemma_count_push(self.log@, ChatMessage::Connection { username });
        }
        effects.push(RoomEffect::Send { to: conn.clone(), command: ServerSentCommand::ChatHistory(history) });
        effects.push(
            RoomEffect::Send {
                to: conn.clone(),
                command: ServerSentCommand::SetRoomConfig {
                    name: self.config.name.clone(),
                    public: self.config.public,
                    owner: self.config.owner.to_public(),
                },
            },
        );
        let e = self.append_chat(ChatMessage::Connection { username });
        effects.push(e);
        let to = self.all_conn_ids();
        let users = self.all_public_users();
        effects.push(RoomEffect::Broadcast { to, command: ServerSentCommand::SetUsers(users) });
        if self.round_in_progress {
            let problems = self.public_problems();
            effects.push(
                RoomEffect::Send { to: conn, command: ServerSentCommand::SetProblems(Some(problems)) },
            );
        }
        effects
    }

    /// Removes the connection `conn`; a connection that is not there is left
    /// alone.
    pub fn remove_connection(&mut self, conn: &ConnId) -> (r: Vec<RoomEffect>)
        requires
            old(self).wf(),
        ensures
            final(self).wf(),
            remove_spec(*old(self), *final(self), conn@, r@),
    {
        match self.find_conn(conn) {
            None => Vec::new(),
            Some(i) => {
                proof {
                    self.lemma_conn_index(conn@, i as int);
                }
                let member = self.members.remove(i);
                let msg = ChatMessage::Disconnection { username: member.user.name };
                proof {
                    lemma_count_push(self.log@, msg);
                    assert forall|a: int, b: int| 0 <= a < b < self.members@.len() implies
                        self.members@[a].conn@ != self.members@[b].conn@
                        && self.members@[a].user.id@ != self.members@[b].user.id@ by {
                        let oa = if a < i { a } else { a + 1 };
                        let ob = if b < i { b } else { b + 1 };
                        assert(self.members@[a] == old(self).members@[oa]);
                        assert(self.members@[b] == old(self).members@[ob]);
                    }
                    assert forall|a: int| 0 <= a < self.members@.len() implies {
                        let c = #[trigger] self.members@[a].completed@;
                        &&& c.no_duplicates()
                        &&& forall|k: int| 0 <= k < c.len() ==> c[k] < self.problems@.len()
                    } by {
                        let oa = if a < i { a } else { a + 1 };
                        assert(self.members@[a] == old(self).members@[oa]);
                    }
                }
                let mut effects: Vec<RoomEffect> = Vec::new();
                let e = self.append_chat(msg);
                effects.push(e);
                let to = self.all_conn_ids();
                let users = self.all_public_users();
                effects.push(RoomEffect::Broadcast { to, command: ServerSentCommand::SetUsers(users) });
                if self.members.len() == 0 {
                    self.deletion_timer = true;
                    effects.push(RoomEffect::StartDeletionTimer);
                }
                effects
            },
        }
    }

    /// Handles a command that the client of connection `conn` sent; a
    /// connection that is no longer there is ignored.
    pub fn client_sent(&mut self, conn: &ConnId, cmd: ClientSentCommand) -> (r: Vec<RoomEffect>)
        requires
            old(self).wf(),
        ensures
            final(self).wf(),
            client_post(*old(self), *final(self), conn@, cmd, r@),
    {
        let i = match self.find_conn(conn) {
            None => return Vec::new(),
            Some(i) => i,
        };
        proof {
            self.lemma_conn_index(conn@, i as int);
        }
        let mut effects: Vec<RoomEffect> = Vec::new();
        match cmd {
            ClientSentCommand::Ping => {},
            ClientSentCommand::SendChatMessage { content } => {
                let msg = ChatMessage::UserChat { author: self.members[i].user.to_public(), content };
                proof {
                    lemma_count_push(self.log@, msg);
                }
                let e = self.append_chat(msg);
                effects.push(e);
            },
            ClientSentCommand::BeginRound => {
                if !self.round_in_progress {
                    self.round_in_progress = true;
                    proof {
                        lemma_count_push(self.log@, ChatMessage::RoundBegin);
                    }
                    let e = self.append_chat(ChatMessage::RoundBegin);
                    effects.push(e);
                    let to = self.all_conn_ids();
                    let problems = self.public_problems();
                    effects.push(
                        RoomEffect::Broadcast { to, command: ServerSentCommand::SetProblems(Some(problems)) },
                    );
                }
            },
            ClientSentCommand::SetEditorContent { content } => {
                let ghost m = self.members@[i as int];
                self.members[i].editor = content;
                proof {
                    assert(self.members@ =~= old(self).members@.update(i as int, Member { editor: content, ..m }));
                    assert forall|a: int, b: int| 0 <= a < b < self.members@.len() implies
                        self.members@[a].conn@ != self.members@[b].conn@
                        && self.members@[a].user.id@ != self.members@[b].user.id@ by {
                        assert(old(self).members@[a].conn@ != old(self).members@[b].conn@);
                    }
                    assert forall|a: int| 0 <= a < self.members@.len() implies {
                        let c = #[trigger] self.members@[a].completed@;
                        &&& c.no_duplicates()
                        &&& forall|k: int| 0 <= k < c.len() ==> c[k] < self.problems@.len()
                    } by {
                        assert(self.members@[a].completed == old(self).members@[a].completed);
                    }
                }
            },
            ClientSentCommand::TestCode { test_cases, language } => {
                if text_is(language.as_str(), "javascript") || text_is(language.as_str(), "python") {
                    let req = JudgeRequest {
                        conn: self.members[i].conn.clone(),
                        user: self.members[i].user.id.clone(),
                        username: self.members[i].user.name.clone(),
                        language,
                        code: self.members[i].editor.clone(),
                        test_cases,
                        problem_index: None,
                    };
                    effects.push(RoomEffect::Judge(req));
                }
            },
            ClientSentCommand::SubmitCode { problem_index, language } => {
                if (text_is(language.as_str(), "javascript") || text_is(language.as_str(), "python"))
                    && (problem_index as usize) < self.problems.len() {
                    let msg = ChatMessage::UserSubmitted { username: self.members[i].user.name.clone() };
                    let problem = self.problems[problem_index as usize].copy();
                    let req = JudgeRequest {
                        conn: self.members[i].conn.clone(),
                        user: self.members[i].user.id.clone(),
                        username: self.members[i].user.name.clone(),
                        language,
                        code: self.members[i].editor.clone(),
                        test_cases: problem.test_cases,
                        problem_index: Some(problem_index),
                    };
                    proof {
                        lemma_count_push(self.log@, msg);
                    }
                    let e = self.append_chat(msg);
                    effects.push(e);
                    effects.push(RoomEffect::Judge(req));
                }
            },
        }
        effects
    }

    /// Delivers the outcome of a run that this room asked for with
    /// `RoomEffect::Judge`; a passed submission records the problem as solved
    /// and announces the user's place once every problem is solved.
    pub fn judged(&mut self, req: JudgeRequest, result: Result<JudgingResults, String>) -> (r: Vec<RoomEffect>)
        requires
            old(self).wf(),
        ensures
            final(self).wf(),
            judged_post(*old(self), *final(self), req, result, r@),
    {
        let mut effects: Vec<RoomEffect> = Vec::new();
        let res = match result {
            Err(message) => {
                effects.push(RoomEffect::Send {
                    to: req.conn,
                    command: ServerSentCommand::SetTestResponse(TestResponse::Error { message }),
                });
                return effects;
            },
            Ok(res) => res,
        };
        let index = match req.problem_index {
            None => {
                effects.push(RoomEffect::Send {
                    to: req.conn,
                    command: ServerSentCommand::SetTestResponse(TestResponse::Ran {
                        failed_tests: res.failed_tests,
                        okay_tests: res.okay_tests,
                    }),
                });
                return effects;
            },
            Some(index) => index,
        };
        if res.failed_tests.len() > 0 {
            let mut first: Vec<FailedTestCase> = Vec::new();
            first.push(res.failed_tests[0].clone());
            assert(first@ =~= res.failed_tests@.take(1));
            effects.push(RoomEffect::Send {
                to: req.conn,
                command: ServerSentCommand::SetTestResponse(TestResponse::Ran {
                    failed_tests: first,
                    okay_tests: Vec::new(),
                }),
            });
            return effects;
        }
        effects.push(RoomEffect::Send {
            to: req.conn.clone(),
            command: ServerSentCommand::SetTestResponse(TestResponse::AllTestsPassed { runtime: res.runtime }),
        });
        let msg = ChatMessage::UserProblemCompletion { username: req.username.clone(), problem_index: index };
        proof {
            lemma_count_push(self.log@, msg);
        }
        let e = self.append_chat(msg);
        effects.push(e);
        let ghost mid = *self;
        let j = match self.find_user(&req.user) {
            None => return effects,
            Some(j) => j,
        };
        if (index as usize) >= self.problems.len() {
            return effects;
        }
        proof {
            self.lemma_user_index(req.user@, j as int);
        }
        if contains_index(&self.members[j].completed, index) {
            return effects;
        }
        let ghost before = self.members@[j as int];
        self.members[j].completed.push(index);
        let done = self.members[j].completed.len() == self.problems.len();
        proof {
            assert(self.members@[j as int].completed@ == before.completed@.push(index));
            assert forall|a: int, b: int| 0 <= a < b < self.members@.len() implies
                self.members@[a].conn@ != self.members@[b].conn@
                && self.members@[a].user.id@ != self.members@[b].user.id@ by {
                assert(mid.members@[a].conn@ != mid.members@[b].conn@);
            }
            assert forall|a: int| 0 <= a < self.members@.len() implies {
                let c = #[trigger] self.members@[a].completed@;
                &&& c.no_duplicates()
                &&& forall|k: int| 0 <= k < c.len() ==> c[k] < self.problems@.len()
            } by {
                if a != j {
                    assert(self.members@[a] == mid.members@[a]);
                } else {
                    let c0 = mid.members@[a].completed@;
                    assert(c0 == before.completed@);
                    assert(mid.members@[a].completed@.no_duplicates());
                    let c = self.members@[a].completed@;
                    assert forall|x: int, y: int| 0 <= x < y < c.len() implies c[x] != c[y] by {
                        if y == c.len() - 1 {
                            assert(c[x] == c0[x]);
                            assert(c0.contains(c0[x]));
                        } else {
                            assert(c[x] == c0[x] && c[y] == c0[y]);
                        }
                    }
                    assert forall|k: int| 0 <= k < c.len() implies c[k] < self.problems@.len() by {
                        if k < c0.len() {
                            assert(c[k] == c0[k]);
                        }
                    }
                }
            }
            assert(self.conn_ids() =~= mid.conn_ids());
            lemma_count_push(self.log@, ChatMessage::UserFinished {
                username: req.username,
                place: (self.users_who_finished as int + 1) as u32,
            });
        }
        if done && self.users_who_finished < u32::MAX {
            self.users_who_finished = self.users_who_finished + 1;
            let fin = ChatMessage::UserFinished { username: req.username, place: self.users_who_finished };
            let e = self.append_chat(fin);
            effects.push(e);
        }
        effects
    }

    /// Handles one command. A connection or user already in the room is not
    /// admitted a second time.
    pub fn handle_command(&mut self, cmd: RoomCommands) -> (r: Vec<RoomEffect>)
        requires
            old(self).wf(),
        ensures
            final(self).wf(),
            match cmd {
                RoomCommands::Stop => *final(self) == *old(self) && r@.len() == 1 && r@[0] is Stop,
                RoomCommands::AddConnection(conn, user) => if old(self).has_conn(conn@)
                    || old(self).has_user(user.id@) {
                    *final(self) == *old(self) && r@.len() == 0
                } else {
                    add_post(*old(self), *final(self), conn, user, r@)
                },
                RoomCommands::RemoveConnection(conn) => remove_spec(*old(self), *final(self), conn@, r@),
                RoomCommands::ClientSent(conn, c) => client_post(*old(self), *final(self), conn@, c, r@),
                RoomCommands::Judged(req, result) => judged_post(*old(self), *final(self), req, result, r@),
            },
    {
        match cmd {
            RoomCommands::Stop => {
                let mut effects: Vec<RoomEffect> = Vec::new();
                effects.push(RoomEffect::Stop);
                effects
            },
            RoomCommands::AddConnection(conn, user) => {
                if self.find_conn(&conn).is_some() || self.find_user(&user.id).is_some() {
                    return Vec::new();
                }
                self.add_connection(conn, user)
            },
            RoomCommands::RemoveConnection(conn) => self.remove_connection(&conn),
            RoomCommands::ClientSent(conn, c) => self.client_sent(&conn, c),
            RoomCommands::Judged(req, result) => self.judged(req, result),
        }
    }

    /// Whether connection `conn` is joined.
    pub fn has_connection(&self, conn: &ConnId) -> (r: bool)
        ensures
            r == self.has_conn(conn@),
    {
        self.find_conn(conn).is_some()
    }

    /// The room's name.
    pub fn name(&self) -> (r: &String)
        ensures
            *r == self.config().name,
    {
        &self.config.name
    }

    /// A copy of the chat history, oldest first.
    pub fn chat_history(&self) -> (r: Vec<ChatMessage>)
        ensures
            r@ == self.chat(),
    {
        self.chat.get_all_messages()
    }

    proof fn lemma_conn_index(&self, c: Seq<char>, i: int)
        requires
            self.wf(),
            0 <= i < self.members().len(),
            self.members()[i].conn@ == c,
        ensures
            self.has_conn(c),
            self.conn_index(c) == i,
    {
        let j = self.conn_index(c);
        assert(self.has_conn(c));
        if j != i {
            if j < i {
                assert(self.members()[j].conn@ != self.members()[i].conn@);
            } else {
                assert(self.members()[i].conn@ != self.members()[j].conn@);
            }
        }
    }

    proof fn lemma_user_index(&self, u: Seq<char>, i: int)
        requires
            self.wf(),
            0 <= i < self.members().len(),
            self.members()[i].user.id@ == u,
        ensures
            self.has_user(u),
            self.user_index(u) == i,
    {
        let j = self.user_index(u);
        assert(self.has_user(u));
        if j != i {
            if j < i {
                assert(self.members()[j].user.id@ != self.members()[i].user.id@);
            } else {
                assert(self.members()[i].user.id@ != self.members()[j].user.id@);
            }
        }
    }

    /// The position of the member joined through `conn`.
    fn find_conn(&self, conn: &ConnId) -> (r: Option<usize>)
        ensures
            match r {
                Some(i) => i < self.members().len() && self.members()[i as int].conn@ == conn@,
                None => !self.has_conn(conn@),
            },
    {
        let mut i: usize = 0;
        while i < self.members.len()
            invariant
                i <= self.members@.len(),
                forall|j: int| 0 <= j < i ==> self.members@[j].conn@ != conn@,
            decreases self.members.len() - i,
        {
            if self.members[i].conn.0 == conn.0 {
                return Some(i);
            }
            i = i + 1;
        }
        None
    }

    /// The position of the member for user `user`.
    fn find_user(&self, user: &UserId) -> (r: Option<usize>)
        ensures
            match r {
                Some(i) => i < self.members().len() && self.members()[i as int].user.id@ == user@,
                None => !self.has_user(user@),
            },
    {
        let mut i: usize = 0;
        while i < self.members.len()
            invariant
                i <= self.members@.len(),
                forall|j: int| 0 <= j < i ==> self.members@[j].user.id@ != user@,
            decreases self.members.len() - i,
        {
            if self.members[i].user.id.0 == user.0 {
                return Some(i);
            }
            i = i + 1;
        }
        None
    }

    fn all_conn_ids(&self) -> (r: Vec<ConnId>)
        ensures
            r@ == self.conn_ids(),
    {
        let mut r: Vec<ConnId> = Vec::new();
        let mut i: usize = 0;
        while i < self.members.len()
            invariant
                i <= self.members@.len(),
                r@ == self.conn_ids().take(i as int),
            decreases self.members.len() - i,
        {
            r.push(self.members[i].conn.clone());
            i = i + 1;
            assert(r@ =~= self.conn_ids().take(i as int));
        }
        assert(self.conn_ids().take(i as int) =~= self.conn_ids());
        r
    }

    fn all_public_users(&self) -> (r: Vec<PublicUser>)
        ensures
            r@ == self.public_users(),
    {
        let mut r: Vec<PublicUser> = Vec::new();
        let mut i: usize = 0;
        while i < self.members.len()
            invariant
                i <= self.members@.len(),
                r@ == self.public_users().take(i as int),
            decreases self.members.len() - i,
        {
            r.push(self.members[i].user.to_public());
            i = i + 1;
            assert(r@ =~= self.public_users().take(i as int));
        }
        assert(self.public_users().take(i as int) =~= self.public_users());
        r
    }

    fn public_problems(&self) -> (r: Vec<PublicProblem>)
        ensures
            r@.len() == self.problems().len(),
            forall|i: int| 0 <= i < r@.len() ==> is_public_problem(#[trigger] r@[i], self.problems()[i]),
    {
        let mut r: Vec<PublicProblem> = Vec::new();
        let mut i: usize = 0;
        while i < self.problems.len()
            invariant
                i <= self.problems@.len(),
                r@.len() == i,
                forall|k: int| 0 <= k < i ==> is_public_problem(#[trigger] r@[k], self.problems@[k]),
            decreases self.problems.len() - i,
        {
            r.push(self.problems[i].to_public());
            i = i + 1;
        }
        r
    }
}

} // verus!

verus! {

/// Every observable part of two room states agrees.
pub open spec fn same_state(a: Room, b: Room) -> bool {
    &&& a.members() == b.members()
    &&& a.chat() == b.chat()
    &&& a.chat_log() == b.chat_log()
    &&& a.config() == b.config()
    &&& a.problems() == b.problems()
    &&& a.round_in_progress() == b.round_in_progress()
    &&& a.users_finished() == b.users_finished()
    &&& a.timer_active() == b.timer_active()
}

/// A user is in the room exactly when exactly one connection of the room
/// belongs to that user.
pub proof fn lemma_users_are_connected_users(room: Room)
    requires
        room.wf(),
    ensures
        room.users().dom() == Set::new(
            |u: Seq<char>| exists|c: Seq<char>| room.connections().contains_key(c) && room.connections()[c] == u,
        ),
        forall|c1: Seq<char>, c2: Seq<char>|
            room.connections().contains_key(c1) && room.connections().contains_key(c2)
                && room.connections()[c1] == room.connections()[c2] ==> c1 == c2,
{
    let target = Set::new(
        |u: Seq<char>| exists|c: Seq<char>| room.connections().contains_key(c) && room.connections()[c] == u,
    );
    assert forall|u: Seq<char>| room.users().dom().contains(u) <==> target.contains(u) by {
        if room.users().dom().contains(u) {
            let i = room.user_index(u);
            let c = room.members()[i].conn@;
            room.lemma_conn_index(c, i);
            assert(room.connections().contains_key(c) && room.connections()[c] == u);
        }
        if target.contains(u) {
            let c = choose|c: Seq<char>| room.connections().contains_key(c) && room.connections()[c] == u;
            let i = room.conn_index(c);
            assert(room.members()[i].user.id@ == u);
        }
    }
    assert(room.users().dom() =~= target);
    assert forall|c1: Seq<char>, c2: Seq<char>|
        room.connections().contains_key(c1) && room.connections().contains_key(c2)
            && room.connections()[c1] == room.connections()[c2] implies c1 == c2 by {
        let i = room.conn_index(c1);
        let j = room.conn_index(c2);
        if i < j {
            assert(room.members()[i].user.id@ != room.members()[j].user.id@);
        } else if j < i {
            assert(room.members()[j].user.id@ != room.members()[i].user.id@);
        }
    }
}

/// Editor contents and problem completion are kept for exactly the users in
/// the room.
pub proof fn lemma_per_user_state_domains(room: Room)
    requires
        room.wf(),
    ensures
        room.editor_contents().dom() == room.users().dom(),
        room.problem_completion().dom() == room.users().dom(),
{
    assert(room.editor_contents().dom() =~= room.users().dom());
    assert(room.problem_completion().dom() =~= room.users().dom());
}

/// The chat never holds more than its capacity.
pub proof fn lemma_chat_within_capacity(room: Room)
    requires
        room.wf(),
    ensures
        room.chat().len() <= crate::chat::CHAT_MAX_MESSAGES,
{
}

/// The deletion timer runs exactly when no connection is joined.
pub proof fn lemma_timer_iff_empty(room: Room)
    requires
        room.wf(),
    ensures
        room.timer_active() <==> room.connections().dom() == Set::<Seq<char>>::empty(),
{
    if room.members().len() > 0 {
        let c = room.members()[0].conn@;
        assert(room.connections().dom().contains(c));
    } else {
        assert(room.connections().dom() =~= Set::<Seq<char>>::empty());
    }
}

/// Each announced finish carries its rank among all finishes announced in
/// the room, counting from one.
pub proof fn lemma_finish_places(room: Room, i: int)
    requires
        room.wf(),
        0 <= i < room.chat_log().len(),
        room.chat_log()[i] is UserFinished,
    ensures
        room.chat_log()[i] matches ChatMessage::UserFinished { place, .. }
            && place == count_finished(room.chat_log().take(i + 1)),
        count_finished(room.chat_log().take(i + 1)) >= 1,
{
    let s = room.chat_log().take(i + 1);
    assert(s.drop_last() =~= room.chat_log().take(i));
    assert(s.last() == room.chat_log()[i]);
}

/// A submission that passes every test leaves its problem among those the
/// submitter has solved.
pub proof fn lemma_passed_submission_recorded(
    old: Room,
    new: Room,
    req: JudgeRequest,
    res: JudgingResults,
    r: Seq<RoomEffect>,
    index: u32,
)
    requires
        old.wf(),
        new.wf(),
        judged_post(old, new, req, Ok(res), r),
        req.problem_index == Some(index),
        res.failed_tests@.len() == 0,
        old.has_user(req.user@),
        index < old.problems().len(),
    ensures
        new.problem_completion().contains_key(req.user@),
        new.problem_completion()[req.user@].contains(index),
{
    let j = old.user_index(req.user@);
    assert(new.members()[j].user.id@ == req.user@);
    new.lemma_user_index(req.user@, j);
    let c = new.members()[j].completed@;
    if old.members()[j].completed@.contains(index) {
        let k = choose|k: int| 0 <= k < old.members()[j].completed@.len() && old.members()[j].completed@[k] == index;
        assert(c[k] == index);
    } else {
        assert(c[c.len() - 1] == index);
    }
    assert(c.to_set().contains(index));
}

/// Setting the editor twice leaves the same state as setting it once with
/// the later content.
pub proof fn lemma_editor_last_write_wins(
    r0: Room,
    r1: Room,
    r2: Room,
    r3: Room,
    c: Seq<char>,
    a: String,
    b: String,
    e1: Seq<RoomEffect>,
    e2: Seq<RoomEffect>,
    e3: Seq<RoomEffect>,
)
    requires
        r0.wf(),
        client_post(r0, r1, c, ClientSentCommand::SetEditorContent { content: a }, e1),
        client_post(r1, r2, c, ClientSentCommand::SetEditorContent { content: b }, e2),
        client_post(r0, r3, c, ClientSentCommand::SetEditorContent { content: b }, e3),
    ensures
        same_state(r2, r3),
        e2 == e3,
{
    if r0.has_conn(c) {
        let i = r0.conn_index(c);
        assert(r1.members()[i].conn@ == c);
        assert(r1.has_conn(c));
        assert forall|x: int, y: int| 0 <= x < y < r1.members().len() implies
            r1.members()[x].conn@ != r1.members()[y].conn@ by {
            assert(r0.members()[x].conn@ != r0.members()[y].conn@);
        }
        let j = r1.conn_index(c);
        if j != i {
            if j < i {
                assert(r1.members()[j].conn@ != r1.members()[i].conn@);
            } else {
                assert(r1.members()[i].conn@ != r1.members()[j].conn@);
            }
        }
        assert(r2.members() =~= r3.members());
    }
    assert(e2 =~= e3);
}

/// Removing a connection a second time changes nothing and has no effect.
pub proof fn lemma_remove_idempotent(
    r0: Room,
    r1: Room,
    r2: Room,
    c: Seq<char>,
    e1: Seq<RoomEffect>,
    e2: Seq<RoomEffect>,
)
    requires
        r0.wf(),
        remove_spec(r0, r1, c, e1),
        remove_spec(r1, r2, c, e2),
    ensures
        r2 == r1,
        e2.len() == 0,
{
    if r0.has_conn(c) {
        let i = r0.conn_index(c);
        if r1.has_conn(c) {
            let k = r1.conn_index(c);
            let ok = if k < i { k } else { k + 1 };
            assert(r1.members()[k] == r0.members()[ok]);
            if ok < i {
                assert(r0.members()[ok].conn@ != r0.members()[i].conn@);
            } else {
                assert(r0.members()[i].conn@ != r0.members()[ok].conn@);
            }
        }
    }
}

/// Beginning a round while one is in progress changes nothing and has no
/// effect.
pub proof fn lemma_begin_round_idempotent(
    r0: Room,
    r1: Room,
    r2: Room,
    c: Seq<char>,
    e1: Seq<RoomEffect>,
    e2: Seq<RoomEffect>,
)
    requires
        r0.wf(),
        client_post(r0, r1, c, ClientSentCommand::BeginRound, e1),
        client_post(r1, r2, c, ClientSentCommand::BeginRound, e2),
    ensures
        r2 == r1,
        e2.len() == 0,
{
}

} // verus!
