use vstd::prelude::*;
use vstd::string::StringExecFns;

use crate::bots::{text_param, text_params};
use crate::db::{
    calls_since, decode_rows, done_call, exec, extends, get_opt_text, get_text, is_query,
    opt_text_at, param_views, result_of, rows_of, select, text_at, unit_view, Db, ParamView,
    SqlCall, SqlField, SqlOutcome, SqlParam,
};
use crate::ids::{new_id, now_rfc3339};
use crate::models::{opt_view, Attachment, AttachmentView, Message, MessageView, SendMessageRequest};

verus! {

/// A message read from a row of `id, topic_id, sender_type, sender_bot_id, content,
/// created_at` (the sender's bot may be `NULL`), without attachments.
pub open spec fn message_of_row(row: Seq<SqlField>) -> Result<MessageView, Seq<char>> {
    match (text_at(row, 0), text_at(row, 1), text_at(row, 2), opt_text_at(row, 3), text_at(row, 4), text_at(row, 5)) {
        (Ok(id), Ok(topic_id), Ok(sender_type), Ok(sender_bot_id), Ok(content), Ok(created_at)) => Ok(
            MessageView { id, topic_id, sender_type, sender_bot_id, content, created_at, attachments: Seq::empty() },
        ),
        (Err(e), _, _, _, _, _) => Err(e),
        (_, Err(e), _, _, _, _) => Err(e),
        (_, _, Err(e), _, _, _) => Err(e),
        (_, _, _, Err(e), _, _) => Err(e),
        (_, _, _, _, Err(e), _) => Err(e),
        (_, _, _, _, _, Err(e)) => Err(e),
    }
}

/// An attachment read from a row of `id, message_id, file_name, file_path, file_type,
/// mime_type, created_at`.
pub open spec fn attachment_of_row(row: Seq<SqlField>) -> Result<AttachmentView, Seq<char>> {
    match (text_at(row, 0), text_at(row, 1), text_at(row, 2), text_at(row, 3), text_at(row, 4), text_at(row, 5), text_at(row, 6)) {
        (Ok(id), Ok(message_id), Ok(file_name), Ok(file_path), Ok(file_type), Ok(mime_type), Ok(created_at)) => Ok(
            AttachmentView { id, message_id, file_name, file_path, file_type, mime_type, created_at },
        ),
        (Err(e), _, _, _, _, _, _) => Err(e),
        (_, Err(e), _, _, _, _, _) => Err(e),
        (_, _, Err(e), _, _, _, _) => Err(e),
        (_, _, _, Err(e), _, _, _) => Err(e),
        (_, _, _, _, Err(e), _, _) => Err(e),
        (_, _, _, _, _, Err(e), _) => Err(e),
        (_, _, _, _, _, _, Err(e)) => Err(e),
    }
}

/// Reads a message (without attachments) from a row.
pub fn message_from_row(row: &Vec<SqlField>) -> (r: Result<Message, String>)
    ensures
        match (r, message_of_row(row@)) {
            (Ok(m), Ok(v)) => m@ == v,
            (Err(a), Err(e)) => a@ == e,
            _ => false,
        },
{
    let id = get_text(row, 0)?;
    let topic_id = get_text(row, 1)?;
    let sender_type = get_text(row, 2)?;
    let sender_bot_id = get_opt_text(row, 3)?;
    let content = get_text(row, 4)?;
    let created_at = get_text(row, 5)?;
    let m = Message { id, topic_id, sender_type, sender_bot_id, content, created_at, attachments: Vec::new() };
    assert(m@.attachments =~= Seq::<AttachmentView>::empty());
    Ok(m)
}

/// Reads an attachment from a row.
pub fn attachment_from_row(row: &Vec<SqlField>) -> (r: Result<Attachment, String>)
    ensures
        match (r, attachment_of_row(row@)) {
            (Ok(a), Ok(v)) => a@ == v,
            (Err(a), Err(e)) => a@ == e,
            _ => false,
        },
{
    let id = get_text(row, 0)?;
    let message_id = get_text(row, 1)?;
    let file_name = get_text(row, 2)?;
    let file_path = get_text(row, 3)?;
    let file_type = get_text(row, 4)?;
    let mime_type = get_text(row, 5)?;
    let created_at = get_text(row, 6)?;
    Ok(Attachment { id, message_id, file_name, file_path, file_type, mime_type, created_at })
}

/// The attachments that rows read as, stopping at the first row that does not read.
pub open spec fn attachments_of_rows(rows: Seq<Vec<SqlField>>) -> Result<Seq<AttachmentView>, Seq<char>> {
    decode_rows(rows, |row: Seq<SqlField>| attachment_of_row(row))
}

/// The attachments a query gave, or its error.
pub open spec fn attachments_of_query(q: Result<Seq<Vec<SqlField>>, Seq<char>>) -> Result<Seq<AttachmentView>, Seq<char>> {
    match q {
        Ok(rows) => attachments_of_rows(rows),
        Err(e) => Err(e),
    }
}

/// The messages (without attachments) that rows read as, stopping at the first row that does
/// not read.
pub open spec fn messages_of_rows(rows: Seq<Vec<SqlField>>) -> Result<Seq<MessageView>, Seq<char>> {
    decode_rows(rows, |row: Seq<SqlField>| message_of_row(row))
}

pub open spec fn attachments_result(r: Result<Vec<Attachment>, String>) -> Result<Seq<AttachmentView>, Seq<char>> {
    match r {
        Ok(a) => Ok(a@.map_values(|x: Attachment| x@)),
        Err(e) => Err(e@),
    }
}

pub open spec fn messages_result(r: Result<Vec<Message>, String>) -> Result<Seq<MessageView>, Seq<char>> {
    match r {
        Ok(m) => Ok(m@.map_values(|x: Message| x@)),
        Err(e) => Err(e@),
    }
}

pub open spec fn message_result(r: Result<Message, String>) -> Result<MessageView, Seq<char>> {
    match r {
        Ok(m) => Ok(m@),
        Err(e) => Err(e@),
    }
}

/// The query of a message's attachments, oldest first.
pub const LIST_ATTACHMENTS_SQL: &'static str = "SELECT id, message_id, file_name, file_path, file_type, mime_type, created_at
             FROM attachments
             WHERE message_id = ?1
             ORDER BY created_at ASC";

/// The query of a topic's messages, oldest first.
pub const LIST_MESSAGES_SQL: &'static str = "SELECT id, topic_id, sender_type, sender_bot_id, content, created_at
             FROM messages
             WHERE topic_id = ?1
             ORDER BY created_at ASC";

/// The insertion of a human message.
pub const INSERT_HUMAN_MESSAGE_SQL: &'static str = "INSERT INTO messages (id, topic_id, sender_type, sender_bot_id, content, created_at)
         VALUES (?1, ?2, 'human', NULL, ?3, ?4)";

/// The insertion of a bot's message.
pub const INSERT_BOT_MESSAGE_SQL: &'static str = "INSERT INTO messages (id, topic_id, sender_type, sender_bot_id, content, created_at)
         VALUES (?1, ?2, 'bot', ?3, ?4, ?5)";

/// The insertion of a message with all its fields.
pub const INSERT_MESSAGE_SQL: &'static str = "INSERT INTO messages (id, topic_id, sender_type, sender_bot_id, content, created_at)
             VALUES (?1, ?2, ?3, ?4, ?5, ?6)";

/// The calls of listing a message's attachments, and its result.
pub open spec fn list_attachments_calls(message_id: Seq<char>, s: Seq<SqlCall>, r: Result<Seq<AttachmentView>, Seq<char>>) -> bool {
    &&& s.len() == 1
    &&& is_query(s[0], LIST_ATTACHMENTS_SQL@, text_param(message_id))
    &&& r == attachments_of_query(rows_of(s[0]))
}

/// The attachments of one message, oldest first.
#[verifier::loop_isolation(false)]
pub(crate) fn db_list_attachments(db: &mut Db, message_id: &str) -> (r: Result<Vec<Attachment>, String>)
    ensures
        extends(old(db).calls(), final(db).calls()),
        list_attachments_calls(message_id@, calls_since(old(db).calls(), final(db).calls()), attachments_result(r)),
{
    let ghost before = db.calls();
    let found = select(db, LIST_ATTACHMENTS_SQL, text_params(message_id));
    assert(calls_since(before, db.calls()) =~= seq![db.calls().last()]);
    let rows = match found {
        Ok(rows) => rows,
        Err(e) => return Err(e),
    };
    let mut atts: Vec<Attachment> = Vec::new();
    let mut i: usize = 0;
    assert(rows@.take(0) =~= Seq::<Vec<SqlField>>::empty());
    assert(atts@.map_values(|x: Attachment| x@) =~= Seq::<AttachmentView>::empty());
    while i < rows.len()
        invariant
            i <= rows.len(),
            attachments_of_rows(rows@.take(i as int)) == Ok::<Seq<AttachmentView>, Seq<char>>(
                atts@.map_values(|x: Attachment| x@),
            ),
        decreases rows.len() - i,
    {
        assert(rows@.take(i + 1).drop_last() =~= rows@.take(i as int));
        assert(rows@.take(i + 1).last() == rows@[i as int]);
        match attachment_from_row(&rows[i]) {
            Ok(a) => {
                let ghost b0 = atts@;
                atts.push(a);
                assert(atts@.map_values(|x: Attachment| x@) =~= b0.map_values(|x: Attachment| x@).push(a@));
            },
            Err(e) => {
                proof {
                    crate::db::lemma_decode_rows_stops(rows@, i + 1, |row: Seq<SqlField>| attachment_of_row(row));
                }
                return Err(e);
            },
        }
        i += 1;
    }
    assert(rows@.take(rows.len() as int) =~= rows@);
    Ok(atts)
}

/// `m` with the attachments `atts`.
pub open spec fn with_attachments(m: MessageView, atts: Seq<AttachmentView>) -> MessageView {
    MessageView { attachments: atts, ..m }
}

/// Whether `t` are the attachment queries made for the messages `ms`, in order, stopping at
/// the first that fails or does not read, and `r` what came of them: the messages with their
/// attachments, or that error.
pub open spec fn attachments_read(ms: Seq<MessageView>, t: Seq<SqlCall>, r: Result<Seq<MessageView>, Seq<char>>) -> bool {
    &&& t.len() <= ms.len()
    &&& forall|k: int| 0 <= k < t.len() ==> is_query(#[trigger] t[k], LIST_ATTACHMENTS_SQL@, text_param(ms[k].id))
    &&& forall|k: int| 0 <= k < t.len() - 1 ==> (#[trigger] attachments_of_query(rows_of(t[k]))) is Ok
    &&& match r {
        Ok(out) => {
            &&& t.len() == ms.len()
            &&& out.len() == ms.len()
            &&& forall|k: int|
                0 <= k < ms.len() ==> attachments_of_query(rows_of(t[k])) == Ok::<Seq<AttachmentView>, Seq<char>>(
                    (#[trigger] out[k]).attachments,
                ) && out[k] == with_attachments(ms[k], out[k].attachments)
        },
        Err(e) => t.len() > 0 && attachments_of_query(rows_of(t.last())) == Err::<Seq<AttachmentView>, Seq<char>>(e),
    }
}

/// The calls of listing the messages of topic `topic_id`, and its result: the messages are
/// read, oldest first; then the attachments query is prepared (once, whether or not there are
/// messages); then the attachments of each message are read, in order. The first failure
/// ends it with its error.
pub open spec fn list_messages_calls(topic_id: Seq<char>, s: Seq<SqlCall>, r: Result<Seq<MessageView>, Seq<char>>) -> bool {
    &&& s.len() >= 1
    &&& is_query(s[0], LIST_MESSAGES_SQL@, text_param(topic_id))
    &&& match rows_of(s[0]) {
        Err(e) => s.len() == 1 && r == Err::<Seq<MessageView>, Seq<char>>(e),
        Ok(rows) => match messages_of_rows(rows) {
            Err(e) => s.len() == 1 && r == Err::<Seq<MessageView>, Seq<char>>(e),
            Ok(ms) => {
                &&& s.len() >= 2
                &&& s[1].sql == LIST_ATTACHMENTS_SQL@
                &&& s[1].params == Seq::<ParamView>::empty()
                &&& match s[1].outcome {
                    SqlOutcome::Prepared(Err(e)) => s.len() == 2 && r == Err::<Seq<MessageView>, Seq<char>>(e),
                    SqlOutcome::Prepared(Ok(_)) => attachments_read(ms, s.subrange(2, s.len() as int), r),
                    _ => false,
                }
            },
        },
    }
}

/// The messages of a topic, oldest first, each with its attachments, oldest first.
#[verifier::loop_isolation(false)]
#[verifier::rlimit(60)]
pub fn db_list_messages(db: &mut Db, topic_id: &str) -> (r: Result<Vec<Message>, String>)
    ensures
        extends(old(db).calls(), final(db).calls()),
        list_messages_calls(topic_id@, calls_since(old(db).calls(), final(db).calls()), messages_result(r)),
{
    let ghost before = db.calls();
    let found = select(db, LIST_MESSAGES_SQL, text_params(topic_id));
    let ghost a0 = db.calls();
    assert(calls_since(before, a0) =~= seq![a0.last()]);
    let rows = match found {
        Ok(rows) => rows,
        Err(e) => return Err(e),
    };
    let mut messages: Vec<Message> = Vec::new();
    let mut i: usize = 0;
    assert(rows@.take(0) =~= Seq::<Vec<SqlField>>::empty());
    assert(messages@.map_values(|x: Message| x@) =~= Seq::<MessageView>::empty());
    while i < rows.len()
        invariant
            i <= rows.len(),
            messages_of_rows(rows@.take(i as int)) == Ok::<Seq<MessageView>, Seq<char>>(
                messages@.map_values(|x: Message| x@),
            ),
        decreases rows.len() - i,
    {
        assert(rows@.take(i + 1).drop_last() =~= rows@.take(i as int));
        assert(rows@.take(i + 1).last() == rows@[i as int]);
        match message_from_row(&rows[i]) {
            Ok(m) => {
                let ghost b0 = messages@;
                messages.push(m);
                assert(messages@.map_values(|x: Message| x@) =~= b0.map_values(|x: Message| x@).push(m@));
            },
            Err(e) => {
                proof {
                    crate::db::lemma_decode_rows_stops(rows@, i + 1, |row: Seq<SqlField>| message_of_row(row));
                }
                return Err(e);
            },
        }
        i += 1;
    }
    assert(rows@.take(rows.len() as int) =~= rows@);
    let ghost ms = messages@.map_values(|x: Message| x@);
    let prepared = crate::db::prepare_only(db, LIST_ATTACHMENTS_SQL);
    let ghost a1 = db.calls();
    proof {
        crate::db::lemma_calls_since_chain(before, a0, a1);
    }
    assert(calls_since(before, a1) =~= seq![calls_since(before, a0)[0], a1.last()]);
    if let Err(e) = prepared {
        return Err(e);
    }
    let mut result: Vec<Message> = Vec::new();
    let mut k: usize = 0;
    while k < messages.len()
        invariant
            k <= messages@.len(),
            ms == messages@.map_values(|x: Message| x@),
            extends(a1, db.calls()),
            extends(before, a1),
            calls_since(before, a1).len() == 2,
            calls_since(a1, db.calls()).len() == k,
            result@.len() == k,
            forall|j: int| 0 <= j < k ==> is_query(
                #[trigger] calls_since(a1, db.calls())[j],
                LIST_ATTACHMENTS_SQL@,
                text_param(ms[j].id),
            ),
            forall|j: int|
                0 <= j < k ==> attachments_of_query(rows_of(#[trigger] calls_since(a1, db.calls())[j]))
                    == Ok::<Seq<AttachmentView>, Seq<char>>(result@[j]@.attachments) && result@[j]@
                    == with_attachments(ms[j], result@[j]@.attachments),
        decreases messages.len() - k,
    {
        let m = &messages[k];
        let ghost prev = db.calls();
        let found_atts = db_list_attachments(db, m.id.as_str());
        let ghost t = calls_since(a1, db.calls());
        assert(t =~= calls_since(a1, prev).push(db.calls().last()));
        assert(calls_since(prev, db.calls()) =~= seq![db.calls().last()]);
        assert(ms[k as int] == m@);
        let attachments = match found_atts {
            Ok(a) => a,
            Err(e) => {
                assert forall|j: int| 0 <= j < t.len() implies is_query(
                    #[trigger] t[j],
                    LIST_ATTACHMENTS_SQL@,
                    text_param(ms[j].id),
                ) by {
                    if j < k {
                        assert(t[j] == calls_since(a1, prev)[j]);
                    }
                }
                assert forall|j: int| 0 <= j < t.len() - 1 implies (#[trigger] attachments_of_query(
                    rows_of(t[j]),
                ))
                    is Ok by {
                    assert(t[j] == calls_since(a1, prev)[j]);
                }
                assert(calls_since(before, db.calls()).subrange(2, calls_since(before, db.calls()).len() as int) =~= t);
                return Err(e);
            },
        };
        let msg = Message {
            id: m.id.clone(),
            topic_id: m.topic_id.clone(),
            sender_type: m.sender_type.clone(),
            sender_bot_id: crate::models::copy_opt(&m.sender_bot_id),
            content: m.content.clone(),
            created_at: m.created_at.clone(),
            attachments,
        };
        assert(msg@ == with_attachments(ms[k as int], msg@.attachments));
        let ghost rprev = result@;
        result.push(msg);
        assert forall|j: int| 0 <= j < k + 1 implies is_query(
            #[trigger] t[j],
            LIST_ATTACHMENTS_SQL@,
            text_param(ms[j].id),
        ) by {
            if j < k {
                assert(t[j] == calls_since(a1, prev)[j]);
            }
        }
        assert forall|j: int| 0 <= j < k + 1 implies attachments_of_query(rows_of(#[trigger] t[j]))
            == Ok::<Seq<AttachmentView>, Seq<char>>(result@[j]@.attachments) && result@[j]@
            == with_attachments(ms[j], result@[j]@.attachments) by {
            if j < k {
                assert(t[j] == calls_since(a1, prev)[j]);
                assert(result@[j] == rprev[j]);
            }
        }
        k += 1;
    }
    let ghost s = calls_since(before, db.calls());
    let ghost t = calls_since(a1, db.calls());
    assert(s.subrange(2, s.len() as int) =~= t);
    assert(s[0] == calls_since(before, a1)[0]);
    assert(s[1] == calls_since(before, a1)[1]);
    let ghost out = result@.map_values(|x: Message| x@);
    assert forall|j: int| 0 <= j < ms.len() implies attachments_of_query(rows_of(t[j]))
        == Ok::<Seq<AttachmentView>, Seq<char>>((#[trigger] out[j]).attachments) && out[j]
        == with_attachments(ms[j], out[j].attachments) by {}
    assert forall|j: int| 0 <= j < t.len() - 1 implies (#[trigger] attachments_of_query(rows_of(t[j]))) is Ok by {
        assert(out[j] == result@[j]@);
    }
    Ok(result)
}

/// The parameters that mark topic `id` as updated at `now`.
pub open spec fn touch_params(now: Seq<char>, id: Seq<char>) -> Seq<ParamView> {
    seq![ParamView::Text(now), ParamView::Text(id)]
}

/// Whether `c` marks topic `id` as updated at some time.
pub open spec fn is_touch(c: SqlCall, id: Seq<char>) -> bool {
    &&& c.sql == crate::topics::TOUCH_TOPIC_SQL@
    &&& c.outcome is Done
    &&& exists|now: Seq<char>| now.len() > 0 && #[trigger] touch_params(now, id) == c.params
}

/// Marks a topic as updated now.
pub(crate) fn touch_topic(db: &mut Db, topic_id: &str) -> (r: Result<(), String>)
    ensures
        final(db).calls() == old(db).calls().push(final(db).calls().last()),
        is_touch(final(db).calls().last(), topic_id@),
        result_of(final(db).calls().last()) == unit_view(r),
{
    let now = now_rfc3339();
    let ps = vec![SqlParam::Text(now.clone()), SqlParam::Text(String::from_str(topic_id))];
    assert(param_views(ps@) =~= touch_params(now@, topic_id@));
    exec(db, crate::topics::TOUCH_TOPIC_SQL, ps)
}

/// The calls of storing a message: its insertion (with a fresh 36-character identifier and a
/// creation time, `params(id, created_at)` as parameters), then marking its topic as updated;
/// the stored message (`stored(id, created_at)`) when both succeed, else the first error.
pub open spec fn store_message_calls(
    sql: Seq<char>,
    topic_id: Seq<char>,
    params: spec_fn(Seq<char>, Seq<char>) -> Seq<ParamView>,
    stored: spec_fn(Seq<char>, Seq<char>) -> MessageView,
    s: Seq<SqlCall>,
    r: Result<MessageView, Seq<char>>,
) -> bool {
    &&& s.len() >= 1
    &&& s[0].sql == sql
    &&& s[0].outcome is Done
    &&& exists|id: Seq<char>, created_at: Seq<char>|
        #![trigger params(id, created_at)]
        {
            &&& id.len() == 36
            &&& created_at.len() > 0
            &&& s[0].params == params(id, created_at)
            &&& match result_of(s[0]) {
                Err(m) => s.len() == 1 && r == Err::<MessageView, Seq<char>>(m),
                Ok(_) => {
                    &&& s.len() == 2
                    &&& is_touch(s[1], topic_id)
                    &&& r == match result_of(s[1]) {
                        Ok(_) => Ok::<MessageView, Seq<char>>(stored(id, created_at)),
                        Err(m) => Err(m),
                    }
                },
            }
        }
}

/// The parameters of a human message.
pub open spec fn human_message_params(req: SendMessageRequest) -> spec_fn(Seq<char>, Seq<char>) -> Seq<ParamView> {
    |id: Seq<char>, created_at: Seq<char>|
        seq![
            ParamView::Text(id),
            ParamView::Text(req.topic_id@),
            ParamView::Text(req.content@),
            ParamView::Text(created_at),
        ]
}

/// The human message stored.
pub open spec fn human_message(req: SendMessageRequest) -> spec_fn(Seq<char>, Seq<char>) -> MessageView {
    |id: Seq<char>, created_at: Seq<char>|
        MessageView {
            id,
            topic_id: req.topic_id@,
            sender_type: "human"@,
            sender_bot_id: None,
            content: req.content@,
            created_at,
            attachments: Seq::empty(),
        }
}

/// Stores a message typed by the human and marks its topic as updated.
pub fn db_send_human_message(db: &mut Db, req: SendMessageRequest) -> (r: Result<Message, String>)
    ensures
        extends(old(db).calls(), final(db).calls()),
        store_message_calls(
            INSERT_HUMAN_MESSAGE_SQL@,
            req.topic_id@,
            human_message_params(req),
            human_message(req),
            calls_since(old(db).calls(), final(db).calls()),
            message_result(r),
        ),
{
    let ghost before = db.calls();
    let ghost r0 = req;
    let id = new_id();
    let created_at = now_rfc3339();
    let ps = vec![
        SqlParam::Text(id.clone()),
        SqlParam::Text(req.topic_id.clone()),
        SqlParam::Text(req.content.clone()),
        SqlParam::Text(created_at.clone()),
    ];
    assert(param_views(ps@) =~= (human_message_params(r0))(id@, created_at@));
    let inserted = exec(db, INSERT_HUMAN_MESSAGE_SQL, ps);
    let ghost a0 = db.calls();
    assert(calls_since(before, a0) =~= seq![a0.last()]);
    if let Err(e) = inserted {
        return Err(e);
    }
    let touched = touch_topic(db, req.topic_id.as_str());
    assert(calls_since(before, db.calls()) =~= seq![a0.last(), db.calls().last()]);
    if let Err(e) = touched {
        return Err(e);
    }
    let m = Message {
        id,
        topic_id: req.topic_id,
        sender_type: String::from_str("human"),
        sender_bot_id: None,
        content: req.content,
        created_at,
        attachments: Vec::new(),
    };
    assert(m@.attachments =~= Seq::<AttachmentView>::empty());
    assert(m@ == (human_message(r0))(m.id@, m.created_at@));
    Ok(m)
}

/// The parameters of a bot's message.
pub open spec fn bot_message_params(topic_id: Seq<char>, bot_id: Seq<char>, content: Seq<char>) -> spec_fn(Seq<char>, Seq<char>) -> Seq<ParamView> {
    |id: Seq<char>, created_at: Seq<char>|
        seq![
            ParamView::Text(id),
            ParamView::Text(topic_id),
            ParamView::Text(bot_id),
            ParamView::Text(content),
            ParamView::Text(created_at),
        ]
}

/// The bot's message stored.
pub open spec fn bot_message(topic_id: Seq<char>, bot_id: Seq<char>, content: Seq<char>) -> spec_fn(Seq<char>, Seq<char>) -> MessageView {
    |id: Seq<char>, created_at: Seq<char>|
        MessageView {
            id,
            topic_id,
            sender_type: "bot"@,
            sender_bot_id: Some(bot_id),
            content,
            created_at,
            attachments: Seq::empty(),
        }
}

/// Stores a bot's reply and marks its topic as updated.
pub fn db_save_bot_message(db: &mut Db, topic_id: &str, bot_id: &str, content: &str) -> (r: Result<Message, String>)
    ensures
        extends(old(db).calls(), final(db).calls()),
        store_message_calls(
            INSERT_BOT_MESSAGE_SQL@,
            topic_id@,
            bot_message_params(topic_id@, bot_id@, content@),
            bot_message(topic_id@, bot_id@, content@),
            calls_since(old(db).calls(), final(db).calls()),
            message_result(r),
        ),
{
    let ghost before = db.calls();
    let id = new_id();
    let created_at = now_rfc3339();
    let ps = vec![
        SqlParam::Text(id.clone()),
        SqlParam::Text(String::from_str(topic_id)),
        SqlParam::Text(String::from_str(bot_id)),
        SqlParam::Text(String::from_str(content)),
        SqlParam::Text(created_at.clone()),
    ];
    assert(param_views(ps@) =~= (bot_message_params(topic_id@, bot_id@, content@))(id@, created_at@));
    let inserted = exec(db, INSERT_BOT_MESSAGE_SQL, ps);
    let ghost a0 = db.calls();
    assert(calls_since(before, a0) =~= seq![a0.last()]);
    if let Err(e) = inserted {
        return Err(e);
    }
    let touched = touch_topic(db, topic_id);
    assert(calls_since(before, db.calls()) =~= seq![a0.last(), db.calls().last()]);
    if let Err(e) = touched {
        return Err(e);
    }
    let m = Message {
        id,
        topic_id: String::from_str(topic_id),
        sender_type: String::from_str("bot"),
        sender_bot_id: Some(String::from_str(bot_id)),
        content: String::from_str(content),
        created_at,
        attachments: Vec::new(),
    };
    assert(m@.attachments =~= Seq::<AttachmentView>::empty());
    assert(m@ == (bot_message(topic_id@, bot_id@, content@))(m.id@, m.created_at@));
    Ok(m)
}

/// The parameters that insert a message with all its fields.
pub open spec fn message_insert_params(
    id: Seq<char>,
    topic_id: Seq<char>,
    sender_type: Seq<char>,
    sender_bot_id: Option<Seq<char>>,
    content: Seq<char>,
    created_at: Seq<char>,
) -> Seq<ParamView> {
    seq![
        ParamView::Text(id),
        ParamView::Text(topic_id),
        ParamView::Text(sender_type),
        match sender_bot_id {
            Some(b) => ParamView::Text(b),
            None => ParamView::Null,
        },
        ParamView::Text(content),
        ParamView::Text(created_at),
    ]
}

/// Stores a message with the given fields as they are (used when a topic is imported).
pub(crate) fn db_insert_message(
    db: &mut Db,
    id: &str,
    topic_id: &str,
    sender_type: &str,
    sender_bot_id: &Option<String>,
    content: &str,
    created_at: &str,
) -> (r: Result<(), String>)
    ensures
        final(db).calls() == old(db).calls().push(
            done_call(
                INSERT_MESSAGE_SQL@,
                message_insert_params(id@, topic_id@, sender_type@, opt_view(*sender_bot_id), content@, created_at@),
                unit_view(r),
            ),
        ),
{
    let bot = match sender_bot_id {
        Some(b) => SqlParam::Text(b.clone()),
        None => SqlParam::Null,
    };
    let ps = vec![
        SqlParam::Text(String::from_str(id)),
        SqlParam::Text(String::from_str(topic_id)),
        SqlParam::Text(String::from_str(sender_type)),
        bot,
        SqlParam::Text(String::from_str(content)),
        SqlParam::Text(String::from_str(created_at)),
    ];
    assert(param_views(ps@) =~= message_insert_params(id@, topic_id@, sender_type@, opt_view(*sender_bot_id), content@, created_at@));
    exec(db, INSERT_MESSAGE_SQL, ps)
}

/// A message read from a row takes each field from its own column of `LIST_MESSAGES_SQL`
/// (`id, topic_id, sender_type, sender_bot_id, content, created_at`), without attachments;
/// an attachment likewise from `LIST_ATTACHMENTS_SQL`.
pub proof fn lemma_message_fields_from_their_columns(row: Seq<SqlField>, m: MessageView, arow: Seq<SqlField>, a: AttachmentView)
    requires
        message_of_row(row) == Ok::<MessageView, Seq<char>>(m),
        attachment_of_row(arow) == Ok::<AttachmentView, Seq<char>>(a),
    ensures
        text_at(row, 0) == Ok::<Seq<char>, Seq<char>>(m.id),
        text_at(row, 1) == Ok::<Seq<char>, Seq<char>>(m.topic_id),
        text_at(row, 2) == Ok::<Seq<char>, Seq<char>>(m.sender_type),
        opt_text_at(row, 3) == Ok::<Option<Seq<char>>, Seq<char>>(m.sender_bot_id),
        text_at(row, 4) == Ok::<Seq<char>, Seq<char>>(m.content),
        text_at(row, 5) == Ok::<Seq<char>, Seq<char>>(m.created_at),
        m.attachments.len() == 0,
        text_at(arow, 0) == Ok::<Seq<char>, Seq<char>>(a.id),
        text_at(arow, 1) == Ok::<Seq<char>, Seq<char>>(a.message_id),
        text_at(arow, 2) == Ok::<Seq<char>, Seq<char>>(a.file_name),
        text_at(arow, 3) == Ok::<Seq<char>, Seq<char>>(a.file_path),
        text_at(arow, 4) == Ok::<Seq<char>, Seq<char>>(a.file_type),
        text_at(arow, 5) == Ok::<Seq<char>, Seq<char>>(a.mime_type),
        text_at(arow, 6) == Ok::<Seq<char>, Seq<char>>(a.created_at),
{
}

/// A message inserted with all its fields is read back as itself (without attachments), and
/// an attachment's record as itself: a row holding, column by column, the parameters of the
/// insertion (in the order the listing query reads them) reads as the inserted value.
pub proof fn lemma_inserted_rows_read_back(
    row: Seq<SqlField>,
    id: Seq<char>,
    topic_id: Seq<char>,
    sender_type: Seq<char>,
    sender_bot_id: Option<Seq<char>>,
    content: Seq<char>,
    created_at: Seq<char>,
    arow: Seq<SqlField>,
    a: AttachmentView,
)
    requires
        crate::db::row_holds(row, message_insert_params(id, topic_id, sender_type, sender_bot_id, content, created_at)),
        crate::db::row_holds(arow, crate::attachments::attachment_params(a)),
    ensures
        message_of_row(row) == Ok::<MessageView, Seq<char>>(
            MessageView { id, topic_id, sender_type, sender_bot_id, content, created_at, attachments: Seq::empty() },
        ),
        attachment_of_row(arow) == Ok::<AttachmentView, Seq<char>>(a),
{
    let ps = message_insert_params(id, topic_id, sender_type, sender_bot_id, content, created_at);
    assert(crate::db::cell_holds(row[0].cell, ps[0]));
    assert(crate::db::cell_holds(row[1].cell, ps[1]));
    assert(crate::db::cell_holds(row[2].cell, ps[2]));
    assert(crate::db::cell_holds(row[3].cell, ps[3]));
    assert(crate::db::cell_holds(row[4].cell, ps[4]));
    assert(crate::db::cell_holds(row[5].cell, ps[5]));
    let qs = crate::attachments::attachment_params(a);
    assert(crate::db::cell_holds(arow[0].cell, qs[0]));
    assert(crate::db::cell_holds(arow[1].cell, qs[1]));
    assert(crate::db::cell_holds(arow[2].cell, qs[2]));
    assert(crate::db::cell_holds(arow[3].cell, qs[3]));
    assert(crate::db::cell_holds(arow[4].cell, qs[4]));
    assert(crate::db::cell_holds(arow[5].cell, qs[5]));
    assert(crate::db::cell_holds(arow[6].cell, qs[6]));
}

} // verus!
