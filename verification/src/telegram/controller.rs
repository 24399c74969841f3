//! How the bot answers a message: which steps follow which, and what each of them is given.
//! The steps themselves (sending, asking the other nodes) are carried out by the caller, who hands
//! back what came of each.
use vstd::prelude::*;
use crate::channel;
use crate::numeral;
use crate::telegram::state::{self, ChannelRec, ChannelState, InboundRec, MessageRing, NotifierState, RecordedInbound};
use crate::text::{self, Text};

verus! {

/// How many turns of a session go with a question to the model.
pub const HISTORY_TURNS: usize = 10;

/// What the controller needs of the channel's configuration.
#[derive(Debug, Clone)]
pub struct TelegramNodeConfig {
    /// Users that may talk to the bot; none named means everyone.
    pub allowed_users: Vec<i64>,
    /// The operator's chat; zero where there is none.
    pub operator_chat_id: i64,
    /// Path of the flow that a chat message starts.
    pub flow_template: String,
    /// Seconds between two polls for messages.
    pub poll_interval_secs: u64,
    /// Seconds between two polls for approvals.
    pub approval_poll_interval_secs: u64,
}

impl TelegramNodeConfig {
    /// Whether everyone may talk to the bot.
    pub open spec fn open_to_all(self) -> bool {
        self.allowed_users@.len() == 0
    }

    /// Whether a user may talk to the bot.
    pub open spec fn allows(self, user_id: i64) -> bool {
        self.open_to_all() || self.allowed_users@.contains(user_id)
    }

    /// Whether everyone may talk to the bot.
    pub fn allow_everyone(&self) -> (r: bool)
        ensures
            r == self.open_to_all(),
    {
        self.allowed_users.len() == 0
    }

    /// Whether a user may talk to the bot.
    pub fn user_is_allowed(&self, user_id: i64) -> (r: bool)
        ensures
            r == self.allows(user_id),
    {
        if self.allow_everyone() {
            return true;
        }
        let mut i: usize = 0;
        while i < self.allowed_users.len()
            invariant
                i <= self.allowed_users@.len(),
                self.allowed_users@.len() > 0,
                forall|k: int| 0 <= k < i ==> #[trigger] self.allowed_users@[k] != user_id,
            decreases self.allowed_users@.len() - i,
        {
            if self.allowed_users[i] == user_id {
                assert(self.allowed_users@.contains(user_id));
                return true;
            }
            i = i + 1;
        }
        assert(!self.allowed_users@.contains(user_id));
        false
    }

    /// Whether the operator is told of approvals.
    pub fn approval_notifications_enabled(&self) -> (r: bool)
        ensures
            r == (self.operator_chat_id != 0),
    {
        self.operator_chat_id != 0
    }

    /// Seconds to wait where there was no message: at least one.
    pub fn poll_delay_secs(&self) -> (r: u64)
        ensures
            r == if self.poll_interval_secs < 1 {
                1u64
            } else {
                self.poll_interval_secs
            },
    {
        if self.poll_interval_secs < 1 {
            1
        } else {
            self.poll_interval_secs
        }
    }

    /// Seconds between two polls for approvals: at least five.
    pub fn approval_delay_secs(&self) -> (r: u64)
        ensures
            r == if self.approval_poll_interval_secs < 5 {
                5u64
            } else {
                self.approval_poll_interval_secs
            },
    {
        if self.approval_poll_interval_secs < 5 {
            5
        } else {
            self.approval_poll_interval_secs
        }
    }
}

/// A message to the bot.
#[derive(Debug, Clone)]
pub struct IncomingMessage {
    pub update_id: i64,
    pub chat_id: i64,
    pub user_id: i64,
    pub message_id: i64,
    pub username: String,
    pub text: String,
}

/// What a message asks for.
#[derive(Debug, Clone, PartialEq, Eq)]
pub enum Command<S> {
    Start,
    Help,
    Status,
    Memory,
    Forget,
    Approve(S),
    Reject(S),
    Chat(S),
}

/// What the bot says.
#[derive(Debug, Clone, PartialEq, Eq)]
pub enum Said<S> {
    /// That the user may not talk to it.
    Unauthorised,
    Welcome,
    Help,
    /// Its status, in these words.
    Status(S),
    /// What it remembers.
    Memory { agent: S, user: S },
    /// That it cannot reach the model.
    BrainUnreachable,
    /// These words.
    Words(S),
}

/// A step to carry out.
#[derive(Debug, Clone, PartialEq, Eq)]
pub enum Action<S> {
    /// Answer the message.
    Say(Said<S>),
    /// Read what is remembered of the chat's subject.
    ReadMemory,
    /// Forget what is remembered of the chat's subject.
    ClearMemory,
    /// Hand a decision on an approval to the coordinator.
    Decide { approval_id: S, decision: S, decided_by: S, note: S },
    /// Show that the bot is typing.
    ShowTyping,
    /// Read the last turns of the session.
    Recall { turns: usize },
    /// Make a task.
    CreateTask { title: S, flow_template: S, params_json: S },
    /// Add an event to a task.
    LogTask { task_id: S, event_type: S, payload: S },
    /// Ask the model.
    Ask { prompt: S, history: S },
    /// Set a task's status.
    SetStatus { task_id: S, status: S, result: S },
    /// Add a turn to the session.
    Remember { role: S, text: S },
    /// Nothing is left to do.
    Stop,
}

/// What came of a step.
#[derive(Debug, Clone, PartialEq, Eq)]
pub enum Event<S, H> {
    /// It was carried out, or not; either way there is nothing to hand back.
    Finished,
    /// What is remembered.
    Memory { agent: S, user: S },
    /// The coordinator's answer to a decision.
    Decided(Option<S>),
    /// The last turns: role and text.
    Recalled(H),
    /// The id of the task that was made.
    Created(Option<S>),
    /// The model's reply.
    Answered(Option<S>),
}

/// A chat message on its way.
#[derive(Debug, Clone, PartialEq, Eq)]
pub struct ChatTurn<S> {
    pub text: S,
    pub flow_template: S,
    pub chat_id: i64,
}

/// Where the answer to a message stands.
#[derive(Debug, Clone, PartialEq, Eq)]
pub enum Stage<S> {
    /// The last step is being carried out.
    Closing,
    /// The memory is being read.
    Reading,
    /// The memory is being cleared.
    Clearing,
    /// A decision is on its way.
    Deciding { approval_id: S, approve: bool },
    /// Typing is being shown; then the message is answered, where the other nodes can be reached.
    Typing { turn: ChatTurn<S>, wired: bool },
    /// The session is being recalled.
    Recalling { turn: ChatTurn<S> },
    /// The task is being made.
    Creating { turn: ChatTurn<S>, history: S },
    /// The task's first event is being written.
    Logging { turn: ChatTurn<S>, history: S, task_id: S },
    /// The model is being asked.
    Asking { turn: ChatTurn<S>, task_id: Option<S> },
    /// The failure is being noted.
    Failing,
    /// The user's turn is being written.
    SavingQuestion { reply: S, task_id: Option<S> },
    /// The assistant's turn is being written.
    SavingReply { reply: S, task_id: Option<S> },
    /// The reply is being sent.
    Replying { task_id: Option<S> },
}

impl View for Command<String> {
    type V = Command<Text>;

    open spec fn view(&self) -> Command<Text> {
        match *self {
            Command::Start => Command::Start,
            Command::Help => Command::Help,
            Command::Status => Command::Status,
            Command::Memory => Command::Memory,
            Command::Forget => Command::Forget,
            Command::Approve(s) => Command::Approve(s@),
            Command::Reject(s) => Command::Reject(s@),
            Command::Chat(s) => Command::Chat(s@),
        }
    }
}

impl View for Said<String> {
    type V = Said<Text>;

    open spec fn view(&self) -> Said<Text> {
        match *self {
            Said::Unauthorised => Said::Unauthorised,
            Said::Welcome => Said::Welcome,
            Said::Help => Said::Help,
            Said::Status(s) => Said::Status(s@),
            Said::Memory { agent, user } => Said::Memory { agent: agent@, user: user@ },
            Said::BrainUnreachable => Said::BrainUnreachable,
            Said::Words(s) => Said::Words(s@),
        }
    }
}

impl View for Action<String> {
    type V = Action<Text>;

    open spec fn view(&self) -> Action<Text> {
        match *self {
            Action::Say(s) => Action::Say(s@),
            Action::ReadMemory => Action::ReadMemory,
            Action::ClearMemory => Action::ClearMemory,
            Action::Decide { approval_id, decision, decided_by, note } => Action::Decide {
                approval_id: approval_id@,
                decision: decision@,
                decided_by: decided_by@,
                note: note@,
            },
            Action::ShowTyping => Action::ShowTyping,
            Action::Recall { turns } => Action::Recall { turns },
            Action::CreateTask { title, flow_template, params_json } => Action::CreateTask {
                title: title@,
                flow_template: flow_template@,
                params_json: params_json@,
            },
            Action::LogTask { task_id, event_type, payload } => Action::LogTask {
                task_id: task_id@,
                event_type: event_type@,
                payload: payload@,
            },
            Action::Ask { prompt, history } => Action::Ask { prompt: prompt@, history: history@ },
            Action::SetStatus { task_id, status, result } => Action::SetStatus {
                task_id: task_id@,
                status: status@,
                result: result@,
            },
            Action::Remember { role, text } => Action::Remember { role: role@, text: text@ },
            Action::Stop => Action::Stop,
        }
    }
}

/// The texts of turns.
pub open spec fn turn_texts(v: Seq<(String, String)>) -> Seq<(Text, Text)> {
    v.map_values(|p: (String, String)| (p.0@, p.1@))
}

impl View for Event<String, Vec<(String, String)>> {
    type V = Event<Text, Seq<(Text, Text)>>;

    open spec fn view(&self) -> Event<Text, Seq<(Text, Text)>> {
        match *self {
            Event::Finished => Event::Finished,
            Event::Memory { agent, user } => Event::Memory { agent: agent@, user: user@ },
            Event::Decided(o) => Event::Decided(text::opt_text(o)),
            Event::Recalled(h) => Event::Recalled(turn_texts(h@)),
            Event::Created(o) => Event::Created(text::opt_text(o)),
            Event::Answered(o) => Event::Answered(text::opt_text(o)),
        }
    }
}

impl View for ChatTurn<String> {
    type V = ChatTurn<Text>;

    open spec fn view(&self) -> ChatTurn<Text> {
        ChatTurn { text: self.text@, flow_template: self.flow_template@, chat_id: self.chat_id }
    }
}

impl View for Stage<String> {
    type V = Stage<Text>;

    open spec fn view(&self) -> Stage<Text> {
        match *self {
            Stage::Closing => Stage::Closing,
            Stage::Reading => Stage::Reading,
            Stage::Clearing => Stage::Clearing,
            Stage::Deciding { approval_id, approve } => Stage::Deciding { approval_id: approval_id@, approve },
            Stage::Typing { turn, wired } => Stage::Typing { turn: turn@, wired },
            Stage::Recalling { turn } => Stage::Recalling { turn: turn@ },
            Stage::Creating { turn, history } => Stage::Creating { turn: turn@, history: history@ },
            Stage::Logging { turn, history, task_id } => Stage::Logging {
                turn: turn@,
                history: history@,
                task_id: task_id@,
            },
            Stage::Asking { turn, task_id } => Stage::Asking { turn: turn@, task_id: text::opt_text(task_id) },
            Stage::Failing => Stage::Failing,
            Stage::SavingQuestion { reply, task_id } => Stage::SavingQuestion {
                reply: reply@,
                task_id: text::opt_text(task_id),
            },
            Stage::SavingReply { reply, task_id } => Stage::SavingReply {
                reply: reply@,
                task_id: text::opt_text(task_id),
            },
            Stage::Replying { task_id } => Stage::Replying { task_id: text::opt_text(task_id) },
        }
    }
}

/// The status as the bot tells it in a chat.
pub open spec fn summary_text(c: ChannelRec, operator_chat_id: i64, allow_everyone: bool) -> Text {
    "bot=@"@ + c.identity.username + "\nuser_id="@ + numeral::dec(c.identity.user_id as int) + "\nonline="@
        + channel::bool_word(c.online) + "\nmessages_seen="@ + numeral::dec(c.messages_seen as int)
        + "\noperator_chat_id="@ + numeral::dec(operator_chat_id as int) + "\nallow_everyone="@ + channel::bool_word(
        allow_everyone,
    )
}

/// The status as the bot tells it in a chat.
pub fn render_status_summary(channel_state: &ChannelState, cfg: &TelegramNodeConfig) -> (r: String)
    ensures
        r@ == summary_text(channel_state@, cfg.operator_chat_id, cfg.open_to_all()),
{
    let id = channel_state.identity();
    let mut s = text::owned("bot=@");
    s.append(id.username.as_str());
    s.append("\nuser_id=");
    numeral::push_i64(&mut s, id.user_id);
    s.append("\nonline=");
    channel::push_bool(&mut s, channel_state.online());
    s.append("\nmessages_seen=");
    numeral::push_int(&mut s, channel_state.messages_seen() as i128);
    s.append("\noperator_chat_id=");
    numeral::push_i64(&mut s, cfg.operator_chat_id);
    s.append("\nallow_everyone=");
    channel::push_bool(&mut s, cfg.allow_everyone());
    s
}

/// The title of the task that a chat message makes: its first line, cut to eighty characters.
pub open spec fn title_text(t: Text) -> Text {
    let line = text::trim(t.take(text::index_of(t, '\n')));
    if line.len() == 0 {
        "telegram-message"@
    } else {
        "telegram: "@ + if line.len() > 80 {
            line.take(80)
        } else {
            line
        }
    }
}

/// The title of the task that a chat message makes.
pub fn message_title(s: &str) -> (r: String)
    ensures
        r@ == title_text(s@),
{
    let v = text::chars_of(s);
    let end = text::find_char(&v, '\n', 0);
    let first = text::text_of(&v, 0, end);
    assert(first@ =~= s@.take(end as int));
    let line = text::trimmed(first.as_str());
    if line.as_str().is_empty() {
        return text::owned("telegram-message");
    }
    let w = text::chars_of(line.as_str());
    let mut out = text::owned("telegram: ");
    if w.len() > 80 {
        let cut = text::text_of(&w, 0, 80);
        assert(cut@ =~= line@.take(80));
        out.append(cut.as_str());
    } else {
        out.append(line.as_str());
    }
    out
}

/// The path of the flow that a chat message starts.
pub fn flow_template_str(cfg: &TelegramNodeConfig) -> (r: String)
    ensures
        r@ == cfg.flow_template@,
{
    cfg.flow_template.clone()
}

/// Turns as lines of role and text.
pub open spec fn history_text(h: Seq<(Text, Text)>) -> Text {
    text::flat(h.map_values(|p: (Text, Text)| "["@ + p.0 + "] "@ + p.1 + "\n"@))
}

/// Turns as lines of role and text.
pub fn render_history(history: &Vec<(String, String)>) -> (r: String)
    ensures
        r@ == history_text(turn_texts(history@)),
{
    let ghost all = turn_texts(history@).map_values(|p: (Text, Text)| "["@ + p.0 + "] "@ + p.1 + "\n"@);
    let mut lines: Vec<String> = Vec::new();
    let mut i: usize = 0;
    while i < history.len()
        invariant
            i <= history@.len(),
            all == turn_texts(history@).map_values(|p: (Text, Text)| "["@ + p.0 + "] "@ + p.1 + "\n"@),
            lines@.len() == i,
            forall|k: int| 0 <= k < i ==> (#[trigger] lines@[k])@ == all[k],
        decreases history@.len() - i,
    {
        assert(all[i as int] == "["@ + history@[i as int].0@ + "] "@ + history@[i as int].1@ + "\n"@);
        let mut line = text::owned("[");
        line.append(history[i].0.as_str());
        line.append("] ");
        line.append(history[i].1.as_str());
        line.append("\n");
        lines.push(line);
        i = i + 1;
    }
    assert(text::texts(lines@) =~= all);
    text::concat_all(&lines)
}

/// Says some words, and that is all.
pub open spec fn closing(said: Said<Text>) -> (Stage<Text>, Action<Text>) {
    (Stage::Closing, Action::Say(said))
}

/// The first step towards a decision on an approval.
pub open spec fn decision_opened(cfg: TelegramNodeConfig, chat_id: i64, user_id: i64, raw: Text, approve: bool, wired: bool) -> (
    Stage<Text>,
    Action<Text>,
) {
    let id = text::trim(raw);
    if cfg.operator_chat_id == 0 || chat_id != cfg.operator_chat_id {
        closing(Said::Words("Approval commands are operator-only."@))
    } else if id.len() == 0 {
        closing(
            Said::Words(
                if approve {
                    "Usage: /approve <approval_id>"@
                } else {
                    "Usage: /reject <approval_id>"@
                },
            ),
        )
    } else if !wired {
        closing(Said::Words("⚠️ Coordinator unreachable."@))
    } else {
        (
            Stage::Deciding { approval_id: id, approve },
            Action::Decide {
                approval_id: id,
                decision: if approve {
                    "approved"@
                } else {
                    "rejected"@
                },
                decided_by: "telegram:"@ + numeral::dec(user_id as int),
                note: if approve {
                    Seq::empty()
                } else {
                    "via=telegram"@
                },
            },
        )
    }
}

/// The first step of the answer to a message. `wired` says whether the other nodes can be reached.
pub open spec fn opened(cfg: TelegramNodeConfig, c: ChannelRec, chat_id: i64, user_id: i64, cmd: Command<Text>, wired: bool) -> (
    Stage<Text>,
    Action<Text>,
) {
    if !cfg.allows(user_id) {
        closing(Said::Unauthorised)
    } else {
        match cmd {
            Command::Start => closing(Said::Welcome),
            Command::Help => closing(Said::Help),
            Command::Status => closing(Said::Status(summary_text(c, cfg.operator_chat_id, cfg.open_to_all()))),
            Command::Memory => if wired {
                (Stage::Reading, Action::ReadMemory)
            } else {
                closing(Said::Memory { agent: Seq::empty(), user: Seq::empty() })
            },
            Command::Forget => if wired {
                (Stage::Clearing, Action::ClearMemory)
            } else {
                closing(Said::Words("🧹 Memory cleared."@))
            },
            Command::Approve(raw) => decision_opened(cfg, chat_id, user_id, raw, true, wired),
            Command::Reject(raw) => decision_opened(cfg, chat_id, user_id, raw, false, wired),
            Command::Chat(t) => (
                Stage::Typing {
                    turn: ChatTurn { text: t, flow_template: cfg.flow_template@, chat_id },
                    wired,
                },
                Action::ShowTyping,
            ),
        }
    }
}

/// What the bot says of a decision.
pub open spec fn decision_text(id: Text, approve: bool, answer: Option<Text>) -> Text {
    match answer {
        None => "⚠️ Failed to decide approval "@ + id + "."@,
        Some(b) => if approve {
            let t = text::trim(b);
            if t.len() >= 3 && t.take(3) == "ok|"@ {
                "✅ Approved "@ + id + ".\nToken: "@ + t.skip(3)
            } else {
                "✅ Approved "@ + id + "."@
            }
        } else {
            "❌ Rejected "@ + id + "."@
        },
    }
}

/// The step behind the last one of a chat answer.
pub open spec fn completed(task_id: Option<Text>) -> (Stage<Text>, Action<Text>) {
    match task_id {
        Some(id) => (Stage::Closing, Action::SetStatus { task_id: id, status: "completed"@, result: "ok"@ }),
        None => (Stage::Closing, Action::Stop),
    }
}

/// The step after an event. An event that does not belong to a stage ends the answer.
pub open spec fn advanced(stage: Stage<Text>, event: Event<Text, Seq<(Text, Text)>>) -> (Stage<Text>, Action<Text>) {
    match (stage, event) {
        (Stage::Reading, Event::Memory { agent, user }) => closing(Said::Memory { agent, user }),
        (Stage::Clearing, Event::Finished) => closing(Said::Words("🧹 Memory cleared."@)),
        (Stage::Deciding { approval_id, approve }, Event::Decided(answer)) => closing(
            Said::Words(decision_text(approval_id, approve, answer)),
        ),
        (Stage::Typing { turn, wired }, Event::Finished) => if wired {
            (Stage::Recalling { turn }, Action::Recall { turns: HISTORY_TURNS })
        } else {
            closing(Said::BrainUnreachable)
        },
        (Stage::Recalling { turn }, Event::Recalled(h)) => (
            Stage::Creating { turn, history: history_text(h) },
            Action::CreateTask {
                title: title_text(turn.text),
                flow_template: turn.flow_template,
                params_json: Seq::empty(),
            },
        ),
        (Stage::Creating { turn, history }, Event::Created(task)) => match task {
            Some(id) => (
                Stage::Logging { turn, history, task_id: id },
                Action::LogTask {
                    task_id: id,
                    event_type: "task.telegram.inbound"@,
                    payload: "chat_id="@ + numeral::dec(turn.chat_id as int),
                },
            ),
            None => (Stage::Asking { turn, task_id: None }, Action::Ask { prompt: turn.text, history }),
        },
        (Stage::Logging { turn, history, task_id }, Event::Finished) => (
            Stage::Asking { turn, task_id: Some(task_id) },
            Action::Ask { prompt: turn.text, history },
        ),
        (Stage::Asking { turn, task_id }, Event::Answered(answer)) => if answer is Some && text::trim(
            answer->0,
        ).len() > 0 {
            (
                Stage::SavingQuestion { reply: answer->0, task_id },
                Action::Remember { role: "user"@, text: turn.text },
            )
        } else {
            match task_id {
                Some(id) => (
                    Stage::Failing,
                    Action::SetStatus { task_id: id, status: "failed"@, result: "ai_chat unreachable / empty"@ },
                ),
                None => closing(Said::BrainUnreachable),
            }
        },
        (Stage::Failing, Event::Finished) => closing(Said::BrainUnreachable),
        (Stage::SavingQuestion { reply, task_id }, Event::Finished) => (
            Stage::SavingReply { reply, task_id },
            Action::Remember { role: "assistant"@, text: reply },
        ),
        (Stage::SavingReply { reply, task_id }, Event::Finished) => (
            Stage::Replying { task_id },
            Action::Say(Said::Words(reply)),
        ),
        (Stage::Replying { task_id }, Event::Finished) => completed(task_id),
        _ => (Stage::Closing, Action::Stop),
    }
}

fn say(said: Said<String>) -> (r: (Stage<String>, Action<String>))
    ensures
        (r.0@, r.1@) == closing(said@),
{
    (Stage::Closing, Action::Say(said))
}

fn say_words(s: &str) -> (r: (Stage<String>, Action<String>))
    ensures
        (r.0@, r.1@) == closing(Said::Words(s@)),
{
    say(Said::Words(text::owned(s)))
}

fn open_decision(cfg: &TelegramNodeConfig, chat_id: i64, user_id: i64, raw: &str, approve: bool, wired: bool) -> (r: (
    Stage<String>,
    Action<String>,
))
    ensures
        (r.0@, r.1@) == decision_opened(*cfg, chat_id, user_id, raw@, approve, wired),
{
    if cfg.operator_chat_id == 0 || chat_id != cfg.operator_chat_id {
        return say_words("Approval commands are operator-only.");
    }
    let id = text::trimmed(raw);
    if id.as_str().is_empty() {
        return if approve {
            say_words("Usage: /approve <approval_id>")
        } else {
            say_words("Usage: /reject <approval_id>")
        };
    }
    if !wired {
        return say_words("⚠️ Coordinator unreachable.");
    }
    let mut by = text::owned("telegram:");
    numeral::push_i64(&mut by, user_id);
    let (decision, note) = if approve {
        (text::owned("approved"), String::new())
    } else {
        (text::owned("rejected"), text::owned("via=telegram"))
    };
    (
        Stage::Deciding { approval_id: id.clone(), approve },
        Action::Decide { approval_id: id, decision, decided_by: by, note },
    )
}

/// The first step of the answer to a message.
pub fn open_answer(
    cfg: &TelegramNodeConfig,
    channel_state: &ChannelState,
    chat_id: i64,
    user_id: i64,
    cmd: &Command<String>,
    wired: bool,
) -> (r: (Stage<String>, Action<String>))
    ensures
        (r.0@, r.1@) == opened(*cfg, channel_state@, chat_id, user_id, cmd@, wired),
{
    if !cfg.user_is_allowed(user_id) {
        return say(Said::Unauthorised);
    }
    match cmd {
        Command::Start => say(Said::Welcome),
        Command::Help => say(Said::Help),
        Command::Status => say(Said::Status(render_status_summary(channel_state, cfg))),
        Command::Memory => if wired {
            (Stage::Reading, Action::ReadMemory)
        } else {
            say(Said::Memory { agent: String::new(), user: String::new() })
        },
        Command::Forget => if wired {
            (Stage::Clearing, Action::ClearMemory)
        } else {
            say_words("🧹 Memory cleared.")
        },
        Command::Approve(raw) => open_decision(cfg, chat_id, user_id, raw.as_str(), true, wired),
        Command::Reject(raw) => open_decision(cfg, chat_id, user_id, raw.as_str(), false, wired),
        Command::Chat(t) => (
            Stage::Typing {
                turn: ChatTurn { text: t.clone(), flow_template: flow_template_str(cfg), chat_id },
                wired,
            },
            Action::ShowTyping,
        ),
    }
}

/// Takes a message in and gives the first step of its answer. Every message is counted and kept,
/// whoever sent it.
pub fn handle_one_update(
    channel_state: &mut ChannelState,
    ring: &mut MessageRing,
    cfg: &TelegramNodeConfig,
    msg: &IncomingMessage,
    cmd: &Command<String>,
    wired: bool,
    now: i64,
) -> (r: (Stage<String>, Action<String>))
    requires
        old(channel_state)@.messages_seen < u64::MAX,
    ensures
        final(channel_state)@ == old(channel_state)@.with_inbound(now),
        final(ring)@ == old(ring)@.with(
            (InboundRec {
                ts: now,
                user_id: msg.user_id,
                username: msg.username@,
                chat_id: msg.chat_id,
                text: msg.text@,
            }),
        ),
        (r.0@, r.1@) == opened(*cfg, final(channel_state)@, msg.chat_id, msg.user_id, cmd@, wired),
{
    channel_state.record_inbound(now);
    ring.record(
        RecordedInbound {
            ts: now,
            user_id: msg.user_id,
            username: msg.username.clone(),
            chat_id: msg.chat_id,
            text: msg.text.clone(),
        },
    );
    open_answer(cfg, channel_state, msg.chat_id, msg.user_id, cmd, wired)
}

fn decision_words(id: &str, approve: bool, answer: &Option<String>) -> (r: String)
    ensures
        r@ == decision_text(id@, approve, text::opt_text(*answer)),
{
    match answer {
        None => {
            let mut s = text::owned("⚠️ Failed to decide approval ");
            s.append(id);
            s.append(".");
            s
        },
        Some(b) => {
            if !approve {
                let mut s = text::owned("❌ Rejected ");
                s.append(id);
                s.append(".");
                return s;
            }
            let t = text::trimmed(b.as_str());
            let v = text::chars_of(t.as_str());
            let mut s = text::owned("✅ Approved ");
            s.append(id);
            if v.len() >= 3 {
                let head = text::text_of(&v, 0, 3);
                assert(head@ =~= t@.take(3));
                if text::same(head.as_str(), "ok|") {
                    let token = text::text_of(&v, 3, v.len());
                    assert(token@ =~= t@.skip(3));
                    s.append(".\nToken: ");
                    s.append(token.as_str());
                    return s;
                }
            }
            s.append(".");
            s
        },
    }
}

fn blank(s: &str) -> (r: bool)
    ensures
        r == (text::trim(s@).len() == 0),
{
    let t = text::trimmed(s);
    t.as_str().is_empty()
}

/// Gives the step after an event.
pub fn advance(stage: Stage<String>, event: Event<String, Vec<(String, String)>>) -> (r: (Stage<String>, Action<String>))
    ensures
        (r.0@, r.1@) == advanced(stage@, event@),
{
    match (stage, event) {
        (Stage::Reading, Event::Memory { agent, user }) => say(Said::Memory { agent, user }),
        (Stage::Clearing, Event::Finished) => say_words("🧹 Memory cleared."),
        (Stage::Deciding { approval_id, approve }, Event::Decided(answer)) => {
            let words = decision_words(approval_id.as_str(), approve, &answer);
            say(Said::Words(words))
        },
        (Stage::Typing { turn, wired }, Event::Finished) => if wired {
            (Stage::Recalling { turn }, Action::Recall { turns: HISTORY_TURNS })
        } else {
            say(Said::BrainUnreachable)
        },
        (Stage::Recalling { turn }, Event::Recalled(h)) => {
            let title = message_title(turn.text.as_str());
            let flow_template = turn.flow_template.clone();
            let history = render_history(&h);
            (
                Stage::Creating { turn, history },
                Action::CreateTask { title, flow_template, params_json: String::new() },
            )
        },
        (Stage::Creating { turn, history }, Event::Created(task)) => match task {
            Some(id) => {
                let mut payload = text::owned("chat_id=");
                numeral::push_i64(&mut payload, turn.chat_id);
                let task_id = id.clone();
                (
                    Stage::Logging { turn, history, task_id },
                    Action::LogTask { task_id: id, event_type: text::owned("task.telegram.inbound"), payload },
                )
            },
            None => {
                let prompt = turn.text.clone();
                (Stage::Asking { turn, task_id: None }, Action::Ask { prompt, history })
            },
        },
        (Stage::Logging { turn, history, task_id }, Event::Finished) => {
            let prompt = turn.text.clone();
            (Stage::Asking { turn, task_id: Some(task_id) }, Action::Ask { prompt, history })
        },
        (Stage::Asking { turn, task_id }, Event::Answered(answer)) => {
            if let Some(reply) = answer {
                if !blank(reply.as_str()) {
                    return (
                        Stage::SavingQuestion { reply, task_id },
                        Action::Remember { role: text::owned("user"), text: turn.text },
                    );
                }
            }
            match task_id {
                Some(id) => (
                    Stage::Failing,
                    Action::SetStatus {
                        task_id: id,
                        status: text::owned("failed"),
                        result: text::owned("ai_chat unreachable / empty"),
                    },
                ),
                None => say(Said::BrainUnreachable),
            }
        },
        (Stage::Failing, Event::Finished) => say(Said::BrainUnreachable),
        (Stage::SavingQuestion { reply, task_id }, Event::Finished) => {
            let said = reply.clone();
            (Stage::SavingReply { reply, task_id }, Action::Remember { role: text::owned("assistant"), text: said })
        },
        (Stage::SavingReply { reply, task_id }, Event::Finished) => (
            Stage::Replying { task_id },
            Action::Say(Said::Words(reply)),
        ),
        (Stage::Replying { task_id }, Event::Finished) => match task_id {
            Some(id) => (
                Stage::Closing,
                Action::SetStatus { task_id: id, status: text::owned("completed"), result: text::owned("ok") },
            ),
            None => (Stage::Closing, Action::Stop),
        },
        _ => (Stage::Closing, Action::Stop),
    }
}

/// How a text is marked up.
#[derive(Debug, Clone, Copy, PartialEq, Eq)]
pub enum ParseMode {
    MarkdownV2,
}

/// A message from the bot.
#[derive(Debug, Clone, PartialEq, Eq)]
pub struct OutgoingMessage {
    pub chat_id: i64,
    pub reply_to_message_id: i64,
    pub text: String,
    pub parse_mode: Option<ParseMode>,
}

/// The next step of sending a text.
#[derive(Debug, Clone, PartialEq, Eq)]
pub enum SendStep {
    /// Send this message.
    Send(OutgoingMessage),
    /// It is over; whether the text was sent.
    Over(bool),
}

/// The step of sending a text behind `failures` failed sends, or behind one that got through: first
/// the marked-up text, then once more the plain one.
pub fn send_text(chat_id: i64, reply_to: i64, plain: &str, formatted: &str, failures: u8, sent: bool) -> (r: SendStep)
    ensures
        match r {
            SendStep::Over(ok) => (sent || failures >= 2) && ok == sent,
            SendStep::Send(m) => !sent && failures < 2 && m.chat_id == chat_id && m.reply_to_message_id == reply_to && (
            if failures == 0 {
                m.text@ == formatted@ && m.parse_mode == Some(ParseMode::MarkdownV2)
            } else {
                m.text@ == plain@ && m.parse_mode is None
            }),
        },
{
    if sent {
        return SendStep::Over(true);
    }
    if failures == 0 {
        return SendStep::Send(
            OutgoingMessage {
                chat_id,
                reply_to_message_id: reply_to,
                text: text::owned(formatted),
                parse_mode: Some(ParseMode::MarkdownV2),
            },
        );
    }
    if failures == 1 {
        return SendStep::Send(
            OutgoingMessage { chat_id, reply_to_message_id: reply_to, text: text::owned(plain), parse_mode: None },
        );
    }
    SendStep::Over(false)
}

/// The place to poll from behind an update: past it, and never back.
pub fn next_offset(offset: i64, update_id: i64) -> (r: i64)
    requires
        update_id < i64::MAX,
    ensures
        r == if update_id + 1 > offset {
            update_id + 1
        } else {
            offset as int
        },
{
    if update_id + 1 > offset {
        update_id + 1
    } else {
        offset
    }
}

/// The approvals of a list that the operator is to be told of, and the ones they were told of then.
pub open spec fn notices(seen: Seq<Text>, ids: Seq<Text>, n: int) -> (Seq<Text>, Seq<int>)
    decreases n,
{
    if n <= 0 {
        (seen, Seq::empty())
    } else {
        let (s0, p0) = notices(seen, ids, n - 1);
        (
            state::notified(s0, ids[n - 1]),
            if s0.contains(ids[n - 1]) {
                p0
            } else {
                p0.push(n - 1)
            },
        )
    }
}

/// The places of indices as numbers.
pub open spec fn as_places(v: Seq<usize>) -> Seq<int> {
    v.map_values(|k: usize| k as int)
}

/// Notes the approvals of a list; gives the places of those that the operator was not told of.
pub fn pending_notices(notifier: &mut NotifierState, ids: &Vec<String>) -> (r: Vec<usize>)
    ensures
        (final(notifier)@, as_places(r@)) == notices(old(notifier)@, text::texts(ids@), ids@.len() as int),
{
    let ghost seen = notifier@;
    let ghost all = text::texts(ids@);
    let mut out: Vec<usize> = Vec::new();
    let mut i: usize = 0;
    assert(as_places(out@) =~= Seq::<int>::empty());
    while i < ids.len()
        invariant
            i <= ids@.len(),
            all == text::texts(ids@),
            (notifier@, as_places(out@)) == notices(seen, all, i as int),
        decreases ids@.len() - i,
    {
        assert(all[i as int] == ids@[i as int]@);
        let ghost before = as_places(out@);
        if notifier.mark_notified(ids[i].as_str()) {
            out.push(i);
            assert(as_places(out@) =~= before.push(i as int));
        }
        i = i + 1;
    }
    out
}

/// A user that may not talk to the bot hears that, and nothing else is done.
pub proof fn law_strangers_are_turned_away(
    cfg: TelegramNodeConfig,
    c: ChannelRec,
    chat_id: i64,
    user_id: i64,
    cmd: Command<Text>,
    wired: bool,
    event: Event<Text, Seq<(Text, Text)>>,
)
    requires
        !cfg.allows(user_id),
    ensures
        opened(cfg, c, chat_id, user_id, cmd, wired) == closing(Said::Unauthorised),
        advanced(Stage::Closing, event) == (Stage::<Text>::Closing, Action::<Text>::Stop),
{
}

/// A decision on an approval is handed on only for a command from the operator's chat.
pub proof fn law_only_the_operator_decides(
    cfg: TelegramNodeConfig,
    c: ChannelRec,
    chat_id: i64,
    user_id: i64,
    cmd: Command<Text>,
    wired: bool,
    stage: Stage<Text>,
    event: Event<Text, Seq<(Text, Text)>>,
)
    ensures
        opened(cfg, c, chat_id, user_id, cmd, wired).1 is Decide ==> cfg.operator_chat_id != 0 && chat_id
            == cfg.operator_chat_id && cfg.allows(user_id) && wired,
        !(advanced(stage, event).1 is Decide),
{
}

/// How many steps an answer may still take.
pub open spec fn steps_left(stage: Stage<Text>) -> int {
    match stage {
        Stage::Closing => 0,
        Stage::Reading | Stage::Clearing | Stage::Deciding { .. } | Stage::Failing | Stage::Replying { .. } => 1,
        Stage::SavingReply { .. } => 2,
        Stage::SavingQuestion { .. } => 3,
        Stage::Asking { .. } => 4,
        Stage::Logging { .. } => 5,
        Stage::Creating { .. } => 6,
        Stage::Recalling { .. } => 7,
        Stage::Typing { .. } => 8,
    }
}

/// Every event brings an answer closer to its end, and an answer that is over does nothing more.
pub proof fn law_answers_end(stage: Stage<Text>, event: Event<Text, Seq<(Text, Text)>>)
    ensures
        0 <= steps_left(stage) <= 8,
        !(stage is Closing) ==> steps_left(advanced(stage, event).0) < steps_left(stage),
        stage is Closing ==> advanced(stage, event) == (Stage::<Text>::Closing, Action::<Text>::Stop),
{
}

/// A question that the model answers: both turns are written, the user's first, then the reply is
/// sent, and a task is completed.
pub proof fn law_answered_questions(turn: ChatTurn<Text>, task_id: Option<Text>, reply: Text)
    requires
        text::trim(reply).len() > 0,
    ensures
        ({
            let done = Event::<Text, Seq<(Text, Text)>>::Finished;
            let (s1, a1) = advanced(Stage::Asking { turn, task_id }, Event::Answered(Some(reply)));
            let (s2, a2) = advanced(s1, done);
            let (s3, a3) = advanced(s2, done);
            let (s4, a4) = advanced(s3, done);
            &&& a1 == (Action::Remember { role: "user"@, text: turn.text })
            &&& a2 == (Action::Remember { role: "assistant"@, text: reply })
            &&& a3 == Action::Say(Said::Words(reply))
            &&& s4 is Closing
            &&& match task_id {
                Some(id) => a4 == (Action::SetStatus { task_id: id, status: "completed"@, result: "ok"@ }),
                None => a4 is Stop,
            }
        }),
{
}

/// A question that the model does not answer: nothing is written to the session, the user hears that
/// the model cannot be reached, and a task has failed.
pub proof fn law_unanswered_questions(turn: ChatTurn<Text>, task_id: Option<Text>, answer: Option<Text>)
    requires
        answer is Some ==> text::trim(answer->0).len() == 0,
    ensures
        ({
            let (s1, a1) = advanced(Stage::Asking { turn, task_id }, Event::Answered(answer));
            match task_id {
                Some(id) => a1 == (Action::SetStatus {
                    task_id: id,
                    status: "failed"@,
                    result: "ai_chat unreachable / empty"@,
                }) && advanced(s1, Event::Finished) == closing(Said::BrainUnreachable),
                None => (s1, a1) == closing(Said::BrainUnreachable),
            }
        }),
{
}

/// Of the approvals of a list the operator is told of those that they were not told of before, and
/// they count as told of from then on.
pub proof fn law_notices_are_new(seen: Seq<Text>, ids: Seq<Text>, n: int)
    requires
        0 <= n <= ids.len(),
    ensures
        forall|k: int|
            0 <= k < notices(seen, ids, n).1.len() ==> 0 <= #[trigger] notices(seen, ids, n).1[k] < n && !seen.contains(
                ids[notices(seen, ids, n).1[k]],
            ),
        forall|i: int| 0 <= i < n ==> notices(seen, ids, n).0.contains(#[trigger] ids[i]),
        forall|t: Text| seen.contains(t) ==> #[trigger] notices(seen, ids, n).0.contains(t),
    decreases n,
{
    if n > 0 {
        law_notices_are_new(seen, ids, n - 1);
        let (s0, p0) = notices(seen, ids, n - 1);
        let s1 = state::notified(s0, ids[n - 1]);
        assert forall|t: Text| s0.contains(t) implies #[trigger] s1.contains(t) by {
            let k = choose|k: int| 0 <= k < s0.len() && s0[k] == t;
            assert(s1[k] == t);
        }
        assert(s1.contains(ids[n - 1])) by {
            if !s0.contains(ids[n - 1]) {
                assert(s1[s0.len() as int] == ids[n - 1]);
            }
        }
        assert forall|i: int| 0 <= i < n implies notices(seen, ids, n).0.contains(#[trigger] ids[i]) by {
            if i < n - 1 {
                assert(s0.contains(ids[i]));
            }
        }
        assert forall|t: Text| seen.contains(t) implies #[trigger] notices(seen, ids, n).0.contains(t) by {
            assert(s0.contains(t));
        }
        if seen.contains(ids[n - 1]) {
            assert(s0.contains(ids[n - 1]));
        }
    }
}

} // verus!
