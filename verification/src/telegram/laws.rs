//! What holds of the answers of the bot as a whole, and of what the channel keeps.
use vstd::prelude::*;
use crate::channel;
use crate::numeral;
use crate::telegram::controller::{self, Action, ChatTurn, Command, Event, Said, Stage, TelegramNodeConfig};
use crate::telegram::render;
use crate::telegram::state::{ChannelRec, InboundRec, RingRec};
use crate::text::{self, Text};

verus! {

/// Whether a user may talk to the bot: everyone where no user is named, else those who are.
pub open spec fn welcome(cfg: TelegramNodeConfig, user_id: i64) -> bool {
    cfg.allowed_users@.len() == 0 || exists|k: int| 0 <= k < cfg.allowed_users@.len() && #[trigger] cfg.allowed_users@[k]
        == user_id
}

/// A user who may talk to the bot gets what the command asks for, and anyone else only hears that they may
/// not.
pub proof fn law_commands_are_answered(
    cfg: TelegramNodeConfig,
    c: ChannelRec,
    chat_id: i64,
    user_id: i64,
    t: Text,
    wired: bool,
)
    ensures
        welcome(cfg, user_id) ==> {
            &&& controller::opened(cfg, c, chat_id, user_id, Command::Start, wired).1 == Action::<Text>::Say(Said::Welcome)
            &&& controller::opened(cfg, c, chat_id, user_id, Command::Help, wired).1 == Action::<Text>::Say(Said::Help)
            &&& controller::opened(cfg, c, chat_id, user_id, Command::Status, wired).1 == Action::<Text>::Say(
                Said::Status(controller::summary_text(c, cfg.operator_chat_id, cfg.allowed_users@.len() == 0)),
            )
            &&& wired ==> controller::opened(cfg, c, chat_id, user_id, Command::Memory, wired).1 is ReadMemory
            &&& wired ==> controller::opened(cfg, c, chat_id, user_id, Command::Forget, wired).1 is ClearMemory
            &&& controller::opened(cfg, c, chat_id, user_id, Command::Chat(t), wired) == (
                Stage::Typing { turn: ChatTurn { text: t, flow_template: cfg.flow_template@, chat_id }, wired },
                Action::<Text>::ShowTyping,
            )
        },
        !welcome(cfg, user_id) ==> controller::opened(cfg, c, chat_id, user_id, Command::Chat(t), wired).1
            == Action::<Text>::Say(Said::Unauthorised) && controller::opened(
            cfg,
            c,
            chat_id,
            user_id,
            Command::Approve(t),
            wired,
        ).1 == Action::<Text>::Say(Said::Unauthorised) && controller::opened(
            cfg,
            c,
            chat_id,
            user_id,
            Command::Forget,
            wired,
        ).1 == Action::<Text>::Say(Said::Unauthorised),
{
    if welcome(cfg, user_id) && cfg.allowed_users@.len() > 0 {
        let k = choose|k: int| 0 <= k < cfg.allowed_users@.len() && #[trigger] cfg.allowed_users@[k] == user_id;
        assert(cfg.allowed_users@.contains(cfg.allowed_users@[k]));
    }
}

/// A decision is handed on exactly where the command comes from the operator's chat, names an approval,
/// and the coordinator can be reached. It names the approval, the decision and the user.
pub proof fn law_decisions_are_handed_on(
    cfg: TelegramNodeConfig,
    c: ChannelRec,
    chat_id: i64,
    user_id: i64,
    raw: Text,
    approve: bool,
    wired: bool,
)
    requires
        welcome(cfg, user_id),
    ensures
        ({
            let cmd = if approve {
                Command::Approve(raw)
            } else {
                Command::Reject(raw)
            };
            let (s, a) = controller::opened(cfg, c, chat_id, user_id, cmd, wired);
            let may = cfg.operator_chat_id != 0 && chat_id == cfg.operator_chat_id && text::trim(raw).len() > 0 && wired;
            &&& a is Decide <==> may
            &&& !may ==> a is Say && s is Closing
            &&& may ==> a->approval_id == text::trim(raw) && a->decision == (if approve {
                "approved"@
            } else {
                "rejected"@
            }) && a->decided_by == "telegram:"@ + numeral::dec(user_id as int) && s == (Stage::Deciding {
                approval_id: text::trim(raw),
                approve,
            })
        }),
{
    if cfg.allowed_users@.len() > 0 {
        let k = choose|k: int| 0 <= k < cfg.allowed_users@.len() && #[trigger] cfg.allowed_users@[k] == user_id;
        assert(cfg.allowed_users@.contains(cfg.allowed_users@[k]));
    }
}

/// A chat message goes its way: the last ten turns are recalled, a task is made and told of the chat, and
/// the model is asked the message with the turns that were recalled. Where the other nodes cannot be
/// reached, the user hears that the model cannot be.
pub proof fn law_chats_go_their_way(turn: ChatTurn<Text>, turns: Seq<(Text, Text)>, task_id: Text)
    ensures
        ({
            let done = Event::<Text, Seq<(Text, Text)>>::Finished;
            let (s1, a1) = controller::advanced(Stage::Typing { turn, wired: true }, done);
            let (s2, a2) = controller::advanced(s1, Event::Recalled(turns));
            let (s3, a3) = controller::advanced(s2, Event::Created(Some(task_id)));
            let (s4, a4) = controller::advanced(s3, done);
            let (t3, b3) = controller::advanced(s2, Event::Created(None));
            let ask = Action::Ask { prompt: turn.text, history: controller::history_text(turns) };
            &&& a1 == (Action::<Text>::Recall { turns: 10 })
            &&& a2 == (Action::CreateTask {
                title: controller::title_text(turn.text),
                flow_template: turn.flow_template,
                params_json: Seq::<char>::empty(),
            })
            &&& a3 == (Action::LogTask {
                task_id,
                event_type: "task.telegram.inbound"@,
                payload: "chat_id="@ + numeral::dec(turn.chat_id as int),
            })
            &&& a4 == ask
            &&& s4 == (Stage::Asking { turn, task_id: Some(task_id) })
            &&& b3 == ask
            &&& t3 == (Stage::Asking { turn, task_id: None::<Text> })
            &&& controller::advanced(Stage::Typing { turn, wired: false }, done).1 == Action::<Text>::Say(
                Said::BrainUnreachable,
            )
        }),
{
}

/// An answer is remembered behind its question, said, and then ends the task of the message, where it has
/// one; where no answer came, the task has failed and the bot says that it cannot think.
pub proof fn law_chats_come_to_an_end(turn: ChatTurn<Text>, reply: Text, task: Option<Text>)
    ensures
        ({
            let done = Event::<Text, Seq<(Text, Text)>>::Finished;
            let (s1, a1) = controller::advanced(Stage::Asking { turn, task_id: task }, Event::Answered(Some(reply)));
            let (s2, a2) = controller::advanced(s1, done);
            let (s3, a3) = controller::advanced(s2, done);
            let (s4, a4) = controller::advanced(s3, done);
            let (t1, b1) = controller::advanced(Stage::Asking { turn, task_id: task }, Event::Answered(None));
            let blank = text::trim(reply).len() == 0;
            &&& !blank ==> a1 == (Action::Remember { role: "user"@, text: turn.text })
            &&& !blank ==> a2 == (Action::Remember { role: "assistant"@, text: reply })
            &&& !blank ==> a3 == Action::Say(Said::Words(reply))
            &&& !blank ==> a4 == match task {
                Some(id) => Action::SetStatus { task_id: id, status: "completed"@, result: "ok"@ },
                None => Action::Stop,
            }
            &&& !blank ==> s4 == Stage::<Text>::Closing
            &&& blank ==> a1 == b1
            &&& b1 == match task {
                Some(id) => Action::SetStatus {
                    task_id: id,
                    status: "failed"@,
                    result: "ai_chat unreachable / empty"@,
                },
                None => Action::Say(Said::BrainUnreachable),
            }
            &&& task is Some ==> controller::advanced(t1, done).1 == Action::<Text>::Say(Said::BrainUnreachable)
        }),
{
}

/// What was read of the memory is what is said of it, and a decision is answered by what became of it.
pub proof fn law_answers_tell_what_came(agent: Text, user: Text, id: Text, approve: bool, answer: Option<Text>)
    ensures
        controller::advanced(Stage::Reading, Event::<Text, Seq<(Text, Text)>>::Memory { agent, user }).1 == Action::Say(
            Said::Memory { agent, user },
        ),
        ({
            let a = controller::advanced(
                Stage::Deciding { approval_id: id, approve },
                Event::<Text, Seq<(Text, Text)>>::Decided(answer),
            ).1;
            &&& answer is None ==> a == Action::Say(Said::Words("⚠️ Failed to decide approval "@ + id + "."@))
            &&& answer is Some && !approve ==> a == Action::Say(Said::Words("❌ Rejected "@ + id + "."@))
            &&& answer is Some && approve && (text::trim(answer->0).len() < 3 || text::trim(answer->0).take(3) != "ok|"@)
                ==> a == Action::Say(Said::Words("✅ Approved "@ + id + "."@))
            &&& answer is Some && approve && text::trim(answer->0).len() >= 3 && text::trim(answer->0).take(3) == "ok|"@
                ==> a == Action::Say(
                Said::Words("✅ Approved "@ + id + ".\nToken: "@ + text::trim(answer->0).skip(3)),
            )
        }),
{
}

/// The title of a task is the first line of the message without the space around it, cut to eighty
/// characters, under the name of the channel.
pub proof fn law_titles_are_first_lines(line: Text, rest: Text)
    requires
        !line.contains('\n'),
    ensures
        ({
            let t = controller::title_text(line + seq!['\n'] + rest);
            let shown = text::trim(line);
            &&& t == controller::title_text(line)
            &&& shown.len() == 0 ==> t == "telegram-message"@
            &&& 0 < shown.len() <= 80 ==> t == "telegram: "@ + shown
            &&& shown.len() > 80 ==> t == "telegram: "@ + shown.take(80)
        }),
{
    let all = line + seq!['\n'] + rest;
    text::lemma_index_from(all, '\n', 0);
    text::lemma_index_from(line, '\n', 0);
    let at = text::index_of(all, '\n');
    assert(all[line.len() as int] == '\n');
    if at < line.len() {
        assert(line[at] == all[at]);
        assert(line.contains('\n'));
    }
    assert(all.take(at) =~= line);
    let end = text::index_of(line, '\n');
    if end < line.len() {
        assert(line.contains(line[end]));
    }
    assert(line.take(end) =~= line);
}

/// A ring that is full drops its oldest message for a new one and keeps the others in their order.
pub proof fn law_full_rings_drop_the_oldest(ring: RingRec, m: InboundRec)
    requires
        ring.capacity >= 1,
        ring.items.len() == ring.capacity,
    ensures
        ring.with(m).items == ring.items.skip(1).push(m),
        ring.with(m).capacity == ring.capacity,
{
    assert(ring.with(m).items =~= ring.items.skip(1).push(m));
}

/// A message that comes in counts one up, is the last one, and changes neither the bot nor whether it is
/// online.
pub proof fn law_messages_are_counted(c: ChannelRec, ts: i64)
    requires
        c.messages_seen < u64::MAX,
    ensures
        c.with_inbound(ts).messages_seen == c.messages_seen + 1,
        c.with_inbound(ts).last_message_at == Some(ts),
        c.with_inbound(ts).online == c.online,
        c.with_inbound(ts).identity == c.identity,
{
}

/// The operator is told of every approval of a list that they were not told of, and of none twice.
pub proof fn law_every_new_approval_is_told_once(seen: Seq<Text>, ids: Seq<Text>, n: int)
    requires
        0 <= n <= ids.len(),
    ensures
        ({
            let at = controller::notices(seen, ids, n).1;
            &&& forall|i: int|
                0 <= i < n && !seen.contains(#[trigger] ids[i]) ==> exists|k: int|
                    0 <= k < at.len() && ids[#[trigger] at[k]] == ids[i]
            &&& forall|j: int, k: int|
                0 <= j < k < at.len() ==> #[trigger] at[j] < #[trigger] at[k] && ids[at[j]] != ids[at[k]]
            &&& forall|t: Text| #[trigger]
                controller::notices(seen, ids, n).0.contains(t) ==> seen.contains(t) || exists|i: int|
                    0 <= i < n && #[trigger] ids[i] == t
        }),
    decreases n,
{
    if n > 0 {
        law_every_new_approval_is_told_once(seen, ids, n - 1);
        controller::law_notices_are_new(seen, ids, n - 1);
        let (s0, p0) = controller::notices(seen, ids, n - 1);
        let (s1, p1) = controller::notices(seen, ids, n);
        let x = ids[n - 1];
        assert forall|t: Text| #[trigger] s1.contains(t) implies seen.contains(t) || exists|i: int|
            0 <= i < n && #[trigger] ids[i] == t by {
            if s0.contains(t) {
                if !seen.contains(t) {
                    let i = choose|i: int| 0 <= i < n - 1 && #[trigger] ids[i] == t;
                    assert(ids[i] == t);
                }
            } else {
                let k = choose|k: int| 0 <= k < s1.len() && s1[k] == t;
                if k < s0.len() {
                    assert(s0[k] == t);
                }
                assert(ids[n - 1] == t);
            }
        }
        if !s0.contains(x) {
            assert(p1 == p0.push(n - 1));
            assert forall|j: int, k: int| 0 <= j < k < p1.len() implies #[trigger] p1[j] < #[trigger] p1[k] && ids[p1[j]]
                != ids[p1[k]] by {
                assert(p1[j] == p0[j]);
                if k < p0.len() {
                    assert(p1[k] == p0[k]);
                } else {
                    assert(s0.contains(ids[p0[j]]));
                }
            }
        }
        assert forall|i: int| 0 <= i < n && !seen.contains(#[trigger] ids[i]) implies exists|k: int|
            0 <= k < p1.len() && ids[#[trigger] p1[k]] == ids[i] by {
            if i < n - 1 {
                let k = choose|k: int| 0 <= k < p0.len() && ids[#[trigger] p0[k]] == ids[i];
                assert(p1[k] == p0[k]);
            } else if s0.contains(x) {
                let i0 = choose|i0: int| 0 <= i0 < n - 1 && #[trigger] ids[i0] == x;
                assert(!seen.contains(ids[i0]));
                let k = choose|k: int| 0 <= k < p0.len() && ids[#[trigger] p0[k]] == ids[i0];
                assert(p1[k] == p0[k]);
            } else {
                assert(p1[p0.len() as int] == n - 1);
            }
        }
    }
}

/// The history of a chat is one line for each turn, oldest first, with the role in brackets.
pub proof fn law_histories_are_lines(h: Seq<(Text, Text)>, role: Text, said: Text)
    ensures
        controller::history_text(Seq::empty()) == Seq::<char>::empty(),
        controller::history_text(h.push((role, said))) == controller::history_text(h) + ("["@ + role + "] "@ + said + "\n"@),
{
    let f = |p: (Text, Text)| "["@ + p.0 + "] "@ + p.1 + "\n"@;
    let all = h.push((role, said)).map_values(f);
    assert(all.drop_last() =~= h.map_values(f));
    assert(all.last() == "["@ + role + "] "@ + said + "\n"@);
}

/// The status tells what the channel holds: whether it is online, who the bot is, how many messages came
/// in and when the last one did, with -1 before the first.
pub proof fn law_status_is_told(c: ChannelRec, operator: i64, open: bool)
    ensures
        render::status_text(c) == "online="@ + (if c.online {
            "true"@
        } else {
            "false"@
        }) + "|username="@ + c.identity.username + "|first_name="@ + c.identity.first_name + "|user_id="@ + numeral::dec(
            c.identity.user_id as int,
        ) + "|messages_seen="@ + numeral::dec(c.messages_seen as int) + "|last_message_at="@ + (match c.last_message_at {
            Some(t) => numeral::dec(t as int),
            None => numeral::dec(-1),
        }) + "\n"@,
        controller::summary_text(c, operator, open) == "bot=@"@ + c.identity.username + "\nuser_id="@ + numeral::dec(
            c.identity.user_id as int,
        ) + "\nonline="@ + (if c.online {
            "true"@
        } else {
            "false"@
        }) + "\nmessages_seen="@ + numeral::dec(c.messages_seen as int) + "\noperator_chat_id="@ + numeral::dec(
            operator as int,
        ) + "\nallow_everyone="@ + (if open {
            "true"@
        } else {
            "false"@
        }),
{
}

/// A message is a row of its time, user, name, chat and the first hundred characters of its text.
pub proof fn law_messages_are_rows(m: InboundRec)
    ensures
        render::message_row(m) == numeral::dec(m.ts as int) + "\t"@ + numeral::dec(m.user_id as int) + "\t"@ + m.username
            + "\t"@ + numeral::dec(m.chat_id as int) + "\t"@ + channel::preview(m.text, 100) + "\n"@,
{
}

/// A channel that was not started has seen nothing and is nobody.
pub proof fn law_channels_begin_empty()
    ensures
        !ChannelRec::idle().online,
        ChannelRec::idle().messages_seen == 0,
        ChannelRec::idle().last_message_at is None,
        ChannelRec::idle().identity.username.len() == 0,
        ChannelRec::idle().identity.user_id == 0,
{
}

} // verus!
