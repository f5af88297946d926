use vstd::prelude::*;
use vstd::string::StringExecFns;

use crate::bots::{bots_from_rows, bots_of_query, not_found, text_param, text_params};
use crate::db::{
    calls_since, decode_rows, done_call, exec, extends, get_int, get_opt_text, get_text, int_at,
    is_query, is_statement, opt_text_at, param_views, result_of, rows_of, select, text_at,
    unit_view, Db, ParamView, SqlCall, SqlField, SqlParam,
};
use crate::ids::{new_id, now_rfc3339};
use crate::models::{CreateTopicRequest, Topic, TopicSummary, TopicView};

verus! {

pub struct TopicSummaryView {
    pub id: Seq<char>,
    pub title: Seq<char>,
    pub updated_at: Seq<char>,
    pub bot_count: usize,
    pub last_message_preview: Option<Seq<char>>,
}

/// A topic summary read from a row of `id, title, updated_at, bot count, last message`.
pub open spec fn summary_of_row(row: Seq<SqlField>) -> Result<TopicSummaryView, Seq<char>> {
    match (text_at(row, 0), text_at(row, 1), text_at(row, 2), int_at(row, 3), opt_text_at(row, 4)) {
        (Ok(id), Ok(title), Ok(updated_at), Ok(n), Ok(last)) => Ok(
            TopicSummaryView { id, title, updated_at, bot_count: n as usize, last_message_preview: last },
        ),
        (Err(e), _, _, _, _) => Err(e),
        (_, Err(e), _, _, _) => Err(e),
        (_, _, Err(e), _, _) => Err(e),
        (_, _, _, Err(e), _) => Err(e),
        (_, _, _, _, Err(e)) => Err(e),
    }
}

pub open spec fn summary_view(s: TopicSummary) -> TopicSummaryView {
    TopicSummaryView {
        id: s.id@,
        title: s.title@,
        updated_at: s.updated_at@,
        bot_count: s.bot_count,
        last_message_preview: crate::models::opt_view(s.last_message_preview),
    }
}

/// Reads a topic summary from a row.
pub fn summary_from_row(row: &Vec<SqlField>) -> (r: Result<TopicSummary, String>)
    ensures
        match (r, summary_of_row(row@)) {
            (Ok(s), Ok(v)) => summary_view(s) == v,
            (Err(a), Err(e)) => a@ == e,
            _ => false,
        },
{
    let id = get_text(row, 0)?;
    let title = get_text(row, 1)?;
    let updated_at = get_text(row, 2)?;
    let n = get_int(row, 3)?;
    let last = get_opt_text(row, 4)?;
    Ok(
        TopicSummary {
            id,
            title,
            updated_at,
            bot_count: #[verifier::truncate] (n as usize),
            last_message_preview: last,
        },
    )
}

/// The summaries that rows read as, stopping at the first row that does not read.
pub open spec fn summaries_of_rows(rows: Seq<Vec<SqlField>>) -> Result<Seq<TopicSummaryView>, Seq<char>> {
    decode_rows(rows, |row: Seq<SqlField>| summary_of_row(row))
}

pub open spec fn summaries_result(r: Result<Vec<TopicSummary>, String>) -> Result<Seq<TopicSummaryView>, Seq<char>> {
    match r {
        Ok(ts) => Ok(ts@.map_values(|t: TopicSummary| summary_view(t))),
        Err(e) => Err(e@),
    }
}

/// The query of all topics with their bot counts and latest messages.
pub const LIST_TOPICS_SQL: &'static str = "SELECT
                t.id,
                t.title,
                t.updated_at,
                (SELECT COUNT(*) FROM topic_bots tb WHERE tb.topic_id = t.id) AS bot_count,
                (SELECT m.content FROM messages m WHERE m.topic_id = t.id ORDER BY m.created_at DESC LIMIT 1) AS last_message_preview
            FROM topics t
            ORDER BY t.updated_at DESC";

/// The query of the topic with an identifier.
pub const SELECT_TOPIC_SQL: &'static str = "SELECT id, title, created_at, updated_at FROM topics WHERE id = ?1";

/// The query of a topic's bots, by name.
pub const TOPIC_BOTS_SQL: &'static str = "SELECT b.id, b.name, b.avatar_color, b.base_url, b.api_key, b.model, b.system_prompt, b.supports_vision, b.created_at
             FROM bots b
             INNER JOIN topic_bots tb ON tb.bot_id = b.id
             WHERE tb.topic_id = ?1
             ORDER BY b.name";

/// The insertion of a topic.
pub const INSERT_TOPIC_SQL: &'static str = "INSERT INTO topics (id, title, created_at, updated_at) VALUES (?1, ?2, ?3, ?4)";

/// The insertion of a topic's bot.
pub const LINK_BOT_SQL: &'static str = "INSERT INTO topic_bots (topic_id, bot_id) VALUES (?1, ?2)";

/// The deletion of a topic's bots.
pub const UNLINK_BOTS_SQL: &'static str = "DELETE FROM topic_bots WHERE topic_id = ?1";

/// The deletion of a topic.
pub const DELETE_TOPIC_SQL: &'static str = "DELETE FROM topics WHERE id = ?1";

/// The parameters that insert a topic.
pub open spec fn topic_insert_params(id: Seq<char>, title: Seq<char>, created_at: Seq<char>, updated_at: Seq<char>) -> Seq<ParamView> {
    seq![ParamView::Text(id), ParamView::Text(title), ParamView::Text(created_at), ParamView::Text(updated_at)]
}

/// The parameters that link a bot to a topic.
pub open spec fn link_params(topic_id: Seq<char>, bot_id: Seq<char>) -> Seq<ParamView> {
    seq![ParamView::Text(topic_id), ParamView::Text(bot_id)]
}

/// The calls of listing the topics, and its result.
pub open spec fn list_topics_calls(s: Seq<SqlCall>, r: Result<Seq<TopicSummaryView>, Seq<char>>) -> bool {
    &&& s.len() == 1
    &&& is_query(s[0], LIST_TOPICS_SQL@, Seq::empty())
    &&& r == match rows_of(s[0]) {
        Ok(rows) => summaries_of_rows(rows),
        Err(e) => Err(e),
    }
}

/// All topics, most recently updated first, each with its number of bots and the content of
/// its latest message.
#[verifier::loop_isolation(false)]
pub fn db_list_topics(db: &mut Db) -> (r: Result<Vec<TopicSummary>, String>)
    ensures
        extends(old(db).calls(), final(db).calls()),
        list_topics_calls(calls_since(old(db).calls(), final(db).calls()), summaries_result(r)),
{
    let ghost before = db.calls();
    let no_params: Vec<SqlParam> = Vec::new();
    assert(param_views(no_params@) =~= Seq::<ParamView>::empty());
    let found = select(db, LIST_TOPICS_SQL, no_params);
    assert(calls_since(before, db.calls()) =~= seq![db.calls().last()]);
    let rows = match found {
        Ok(rows) => rows,
        Err(e) => return Err(e),
    };
    let ghost f = |row: Seq<SqlField>| summary_of_row(row);
    let mut topics: Vec<TopicSummary> = Vec::new();
    let mut i: usize = 0;
    assert(rows@.take(0) =~= Seq::<Vec<SqlField>>::empty());
    assert(topics@.map_values(|t: TopicSummary| summary_view(t)) =~= Seq::<TopicSummaryView>::empty());
    while i < rows.len()
        invariant
            i <= rows.len(),
            summaries_of_rows(rows@.take(i as int)) == Ok::<Seq<TopicSummaryView>, Seq<char>>(
                topics@.map_values(|t: TopicSummary| summary_view(t)),
            ),
        decreases rows.len() - i,
    {
        assert(rows@.take(i + 1).drop_last() =~= rows@.take(i as int));
        assert(rows@.take(i + 1).last() == rows@[i as int]);
        match summary_from_row(&rows[i]) {
            Ok(t) => {
                let ghost before_t = topics@;
                topics.push(t);
                assert(topics@.map_values(|t: TopicSummary| summary_view(t)) =~= before_t.map_values(
                    |t: TopicSummary| summary_view(t),
                ).push(summary_view(t)));
            },
            Err(e) => {
                proof {
                    crate::db::lemma_decode_rows_stops(rows@, i + 1, |row: Seq<SqlField>| summary_of_row(row));
                }
                return Err(e);
            },
        }
        i += 1;
    }
    assert(rows@.take(rows.len() as int) =~= rows@);
    Ok(topics)
}

/// The identifier, title and times a topic row reads as (four text columns, in order).
pub open spec fn topic_head_of_row(row: Seq<SqlField>) -> Result<(Seq<char>, Seq<char>, Seq<char>, Seq<char>), Seq<char>> {
    match (text_at(row, 0), text_at(row, 1), text_at(row, 2), text_at(row, 3)) {
        (Ok(a), Ok(b), Ok(c), Ok(d)) => Ok((a, b, c, d)),
        (Err(e), _, _, _) => Err(e),
        (_, Err(e), _, _) => Err(e),
        (_, _, Err(e), _) => Err(e),
        (_, _, _, Err(e)) => Err(e),
    }
}

pub open spec fn topic_result(r: Result<Topic, String>) -> Result<TopicView, Seq<char>> {
    match r {
        Ok(t) => Ok(t@),
        Err(e) => Err(e@),
    }
}

/// The calls of reading the topic `id`, and its result: the topic is looked up by identifier
/// ("Topic not found: ..." when the query fails, finds no row, or its first row does not
/// read); then its bots are read, by name.
pub open spec fn get_topic_calls(id: Seq<char>, s: Seq<SqlCall>, r: Result<TopicView, Seq<char>>) -> bool {
    &&& s.len() >= 1
    &&& is_query(s[0], SELECT_TOPIC_SQL@, text_param(id))
    &&& match rows_of(s[0]) {
        Err(e) => s.len() == 1 && r == Err::<TopicView, Seq<char>>("Topic not found: "@ + e),
        Ok(rows) => if rows.len() == 0 {
            s.len() == 1 && r == Err::<TopicView, Seq<char>>("Topic not found: "@ + "Query returned no rows"@)
        } else {
            match topic_head_of_row(rows[0]@) {
                Err(e) => s.len() == 1 && r == Err::<TopicView, Seq<char>>("Topic not found: "@ + e),
                Ok((tid, title, created_at, updated_at)) => {
                    &&& s.len() == 2
                    &&& is_query(s[1], TOPIC_BOTS_SQL@, text_param(id))
                    &&& r == match bots_of_query(rows_of(s[1])) {
                        Ok(bots) => Ok::<TopicView, Seq<char>>(
                            TopicView { id: tid, title, created_at, updated_at, bots },
                        ),
                        Err(e) => Err(e),
                    }
                },
            }
        },
    }
}

/// A topic with its bots (ordered by name).
pub fn db_get_topic(db: &mut Db, id: &str) -> (r: Result<Topic, String>)
    ensures
        extends(old(db).calls(), final(db).calls()),
        get_topic_calls(id@, calls_since(old(db).calls(), final(db).calls()), topic_result(r)),
{
    let ghost before = db.calls();
    let found = select(db, SELECT_TOPIC_SQL, text_params(id));
    let ghost mid = db.calls();
    assert(calls_since(before, mid) =~= seq![mid.last()]);
    let rows = match found {
        Ok(rows) => rows,
        Err(e) => return Err(not_found("Topic not found: ", e)),
    };
    if rows.len() == 0 {
        return Err(not_found("Topic not found: ", crate::db::no_rows_message()));
    }
    let row = &rows[0];
    let (topic_id, title, created_at, updated_at) = match (get_text(row, 0), get_text(row, 1), get_text(row, 2), get_text(row, 3)) {
        (Ok(a), Ok(b), Ok(c), Ok(d)) => (a, b, c, d),
        (Err(e), _, _, _) => return Err(not_found("Topic not found: ", e)),
        (_, Err(e), _, _) => return Err(not_found("Topic not found: ", e)),
        (_, _, Err(e), _) => return Err(not_found("Topic not found: ", e)),
        (_, _, _, Err(e)) => return Err(not_found("Topic not found: ", e)),
    };
    let bot_rows = select(db, TOPIC_BOTS_SQL, text_params(id));
    assert(calls_since(before, db.calls()) =~= seq![mid.last(), db.calls().last()]);
    let bot_rows = match bot_rows {
        Ok(rows) => rows,
        Err(e) => return Err(e),
    };
    let bots = match bots_from_rows(&bot_rows) {
        Ok(b) => b,
        Err(e) => return Err(e),
    };
    Ok(Topic { id: topic_id, title, created_at, updated_at, bots })
}

/// Stores a topic row.
pub(crate) fn db_insert_topic(db: &mut Db, id: &str, title: &str, created_at: &str, updated_at: &str) -> (r: Result<(), String>)
    ensures
        final(db).calls() == old(db).calls().push(
            done_call(INSERT_TOPIC_SQL@, topic_insert_params(id@, title@, created_at@, updated_at@), unit_view(r)),
        ),
{
    let ps = vec![
        SqlParam::Text(String::from_str(id)),
        SqlParam::Text(String::from_str(title)),
        SqlParam::Text(String::from_str(created_at)),
        SqlParam::Text(String::from_str(updated_at)),
    ];
    assert(param_views(ps@) =~= topic_insert_params(id@, title@, created_at@, updated_at@));
    exec(db, INSERT_TOPIC_SQL, ps)
}

/// Adds a bot to a topic.
pub(crate) fn db_link_bot(db: &mut Db, topic_id: &str, bot_id: &str) -> (r: Result<(), String>)
    ensures
        final(db).calls() == old(db).calls().push(
            done_call(LINK_BOT_SQL@, link_params(topic_id@, bot_id@), unit_view(r)),
        ),
{
    let ps = vec![SqlParam::Text(String::from_str(topic_id)), SqlParam::Text(String::from_str(bot_id))];
    assert(param_views(ps@) =~= link_params(topic_id@, bot_id@));
    exec(db, LINK_BOT_SQL, ps)
}

/// Whether `s` are the calls that link `bot_ids` to `topic_id` in order, stopping at the
/// first that fails: `res` is what came of them.
pub open spec fn links_made(topic_id: Seq<char>, bot_ids: Seq<Seq<char>>, s: Seq<SqlCall>, res: Result<(), Seq<char>>) -> bool {
    &&& s.len() <= bot_ids.len()
    &&& forall|k: int| 0 <= k < s.len() ==> #[trigger] s[k] == done_call(LINK_BOT_SQL@, link_params(topic_id, bot_ids[k]), result_of(s[k]))
    &&& forall|k: int| 0 <= k < s.len() - 1 ==> (#[trigger] result_of(s[k])) is Ok
    &&& match res {
        Ok(_) => s.len() == bot_ids.len() && (s.len() > 0 ==> result_of(s.last()) is Ok),
        Err(m) => s.len() > 0 && result_of(s.last()) == Err::<(), Seq<char>>(m),
    }
}

/// Links each of `bot_ids` to a topic, in order, stopping at the first failure.
#[verifier::loop_isolation(false)]
pub(crate) fn link_all(db: &mut Db, topic_id: &str, bot_ids: &Vec<String>) -> (r: Result<(), String>)
    ensures
        extends(old(db).calls(), final(db).calls()),
        links_made(topic_id@, crate::urls::views(bot_ids@), calls_since(old(db).calls(), final(db).calls()), unit_view(r)),
{
    let ghost before = db.calls();
    let ghost ids = crate::urls::views(bot_ids@);
    let mut i: usize = 0;
    assert(calls_since(before, db.calls()) =~= Seq::<SqlCall>::empty());
    while i < bot_ids.len()
        invariant
            i <= bot_ids@.len(),
            ids == crate::urls::views(bot_ids@),
            extends(before, db.calls()),
            calls_since(before, db.calls()).len() == i,
            forall|k: int| 0 <= k < i ==> #[trigger] calls_since(before, db.calls())[k] == done_call(
                LINK_BOT_SQL@,
                link_params(topic_id@, ids[k]),
                Ok(()),
            ),
        decreases bot_ids.len() - i,
    {
        let ghost prev = db.calls();
        let r = db_link_bot(db, topic_id, bot_ids[i].as_str());
        assert(ids[i as int] == bot_ids@[i as int]@);
        assert(calls_since(before, db.calls()) =~= calls_since(before, prev).push(db.calls().last()));
        if r.is_err() {
            let ghost s = calls_since(before, db.calls());
            assert forall|k: int| 0 <= k < s.len() implies #[trigger] s[k] == done_call(
                LINK_BOT_SQL@,
                link_params(topic_id@, ids[k]),
                result_of(s[k]),
            ) by {
                if k < i {
                    assert(s[k] == calls_since(before, prev)[k]);
                }
            }
            return r;
        }
        i += 1;
    }
    let ghost s = calls_since(before, db.calls());
    assert forall|k: int| 0 <= k < s.len() implies #[trigger] s[k] == done_call(
        LINK_BOT_SQL@,
        link_params(topic_id@, ids[k]),
        result_of(s[k]),
    ) by {}
    Ok(())
}

/// The calls of creating a topic titled `title` with `bot_ids`, and its result: the topic is
/// inserted with a fresh 36-character identifier and the current time as both times; then
/// the bots are linked in order; then the topic is read back (see `get_topic_calls`). The
/// first failure ends it with its error.
pub open spec fn create_topic_calls(title: Seq<char>, bot_ids: Seq<Seq<char>>, s: Seq<SqlCall>, r: Result<TopicView, Seq<char>>) -> bool {
    &&& s.len() >= 1
    &&& s[0].sql == INSERT_TOPIC_SQL@
    &&& s[0].outcome is Done
    &&& exists|id: Seq<char>, now: Seq<char>|
        #![trigger topic_insert_params(id, title, now, now)]
        {
            &&& id.len() == 36
            &&& now.len() > 0
            &&& s[0].params == topic_insert_params(id, title, now, now)
            &&& match result_of(s[0]) {
                Err(m) => s.len() == 1 && r == Err::<TopicView, Seq<char>>(m),
                Ok(_) => exists|k: int, lr: Result<(), Seq<char>>|
                    #![trigger links_made(id, bot_ids, s.subrange(1, k), lr)]
                    {
                        &&& 1 <= k <= s.len()
                        &&& links_made(id, bot_ids, s.subrange(1, k), lr)
                        &&& match lr {
                            Err(m) => k == s.len() && r == Err::<TopicView, Seq<char>>(m),
                            Ok(_) => get_topic_calls(id, s.subrange(k, s.len() as int), r),
                        }
                    },
            }
        }
}

/// Creates a topic with the given bots and returns it as stored.
pub fn db_create_topic(db: &mut Db, req: CreateTopicRequest) -> (r: Result<Topic, String>)
    ensures
        extends(old(db).calls(), final(db).calls()),
        create_topic_calls(
            req.title@,
            crate::urls::views(req.bot_ids@),
            calls_since(old(db).calls(), final(db).calls()),
            topic_result(r),
        ),
{
    let ghost before = db.calls();
    let id = new_id();
    let now = now_rfc3339();
    let inserted = db_insert_topic(db, id.as_str(), req.title.as_str(), now.as_str(), now.as_str());
    let ghost after_insert = db.calls();
    let ghost s0 = calls_since(before, after_insert);
    assert(s0 =~= seq![after_insert.last()]);
    if let Err(e) = inserted {
        assert(topic_insert_params(id@, req.title@, now@, now@) == s0[0].params);
        return Err(e);
    }
    let linked = link_all(db, id.as_str(), &req.bot_ids);
    let ghost after_links = db.calls();
    let ghost k: int = 1 + calls_since(after_insert, after_links).len() as int;
    assert(calls_since(before, after_links).subrange(1, k) =~= calls_since(after_insert, after_links));
    assert(calls_since(before, after_links)[0] == s0[0]);
    if let Err(e) = linked {
        assert(calls_since(before, after_links).len() == k);
        assert(topic_insert_params(id@, req.title@, now@, now@) == calls_since(before, after_links)[0].params);
        assert(links_made(id@, crate::urls::views(req.bot_ids@), calls_since(before, after_links).subrange(1, k), unit_view(linked)));
        return Err(e);
    }
    let t = db_get_topic(db, id.as_str());
    let ghost s = calls_since(before, db.calls());
    assert(s.subrange(1, k) =~= calls_since(after_insert, after_links));
    assert(s.subrange(k, s.len() as int) =~= calls_since(after_links, db.calls()));
    assert(s[0] == s0[0]);
    assert(topic_insert_params(id@, req.title@, now@, now@) == s[0].params);
    assert(links_made(id@, crate::urls::views(req.bot_ids@), s.subrange(1, k), unit_view(linked)));
    t
}

/// The statement that marks a topic as updated.
pub const TOUCH_TOPIC_SQL: &'static str = "UPDATE topics SET updated_at = ?1 WHERE id = ?2";

/// The calls of replacing the bots of topic `topic_id` with `bot_ids`, and its result: its
/// bot links are deleted; the new ones made in order; the topic marked as updated at the
/// current time; and the topic read back. The first failure ends it with its error.
pub open spec fn update_topic_bots_calls(topic_id: Seq<char>, bot_ids: Seq<Seq<char>>, s: Seq<SqlCall>, r: Result<TopicView, Seq<char>>) -> bool {
    &&& s.len() >= 1
    &&& is_statement(s[0], UNLINK_BOTS_SQL@, text_param(topic_id))
    &&& match result_of(s[0]) {
        Err(m) => s.len() == 1 && r == Err::<TopicView, Seq<char>>(m),
        Ok(_) => exists|k: int, lr: Result<(), Seq<char>>|
            #![trigger links_made(topic_id, bot_ids, s.subrange(1, k), lr)]
            {
                &&& 1 <= k <= s.len()
                &&& links_made(topic_id, bot_ids, s.subrange(1, k), lr)
                &&& match lr {
                    Err(m) => k == s.len() && r == Err::<TopicView, Seq<char>>(m),
                    Ok(_) => {
                        &&& k < s.len()
                        &&& crate::messages::is_touch(s[k], topic_id)
                        &&& match result_of(s[k]) {
                            Err(m) => k + 1 == s.len() && r == Err::<TopicView, Seq<char>>(m),
                            Ok(_) => get_topic_calls(topic_id, s.subrange(k + 1, s.len() as int), r),
                        }
                    },
                }
            },
    }
}

/// Replaces the bots of a topic, marks it as updated, and returns it as stored.
pub fn db_update_topic_bots(db: &mut Db, topic_id: &str, bot_ids: Vec<String>) -> (r: Result<Topic, String>)
    ensures
        extends(old(db).calls(), final(db).calls()),
        update_topic_bots_calls(
            topic_id@,
            crate::urls::views(bot_ids@),
            calls_since(old(db).calls(), final(db).calls()),
            topic_result(r),
        ),
{
    let ghost before = db.calls();
    let unlinked = exec(db, UNLINK_BOTS_SQL, text_params(topic_id));
    let ghost a0 = db.calls();
    assert(calls_since(before, a0) =~= seq![a0.last()]);
    if let Err(e) = unlinked {
        return Err(e);
    }
    let linked = link_all(db, topic_id, &bot_ids);
    let ghost a1 = db.calls();
    let ghost k: int = 1 + calls_since(a0, a1).len() as int;
    assert(calls_since(before, a1).subrange(1, k) =~= calls_since(a0, a1));
    assert(calls_since(before, a1)[0] == a0.last());
    if let Err(e) = linked {
        assert(links_made(topic_id@, crate::urls::views(bot_ids@), calls_since(before, a1).subrange(1, k), unit_view(linked)));
        return Err(e);
    }
    let touched = crate::messages::touch_topic(db, topic_id);
    let ghost a2 = db.calls();
    assert(calls_since(before, a2).subrange(1, k) =~= calls_since(a0, a1));
    assert(calls_since(before, a2)[0] == a0.last());
    assert(calls_since(before, a2)[k] == a2.last());
    if let Err(e) = touched {
        assert(calls_since(before, a2).len() == k + 1);
        assert(links_made(topic_id@, crate::urls::views(bot_ids@), calls_since(before, a2).subrange(1, k), unit_view(linked)));
        return Err(e);
    }
    let t = db_get_topic(db, topic_id);
    let ghost s = calls_since(before, db.calls());
    assert(s.subrange(1, k) =~= calls_since(a0, a1));
    assert(s[0] == a0.last());
    assert(s[k] == a2.last());
    assert(s.subrange(k + 1, s.len() as int) =~= calls_since(a2, db.calls()));
    assert(links_made(topic_id@, crate::urls::views(bot_ids@), s.subrange(1, k), unit_view(linked)));
    t
}

/// Deletes a topic, with its messages and bot links: one statement, by identifier.
pub fn db_delete_topic(db: &mut Db, id: &str) -> (r: Result<(), String>)
    ensures
        final(db).calls() == old(db).calls().push(done_call(DELETE_TOPIC_SQL@, text_param(id@), unit_view(r))),
{
    exec(db, DELETE_TOPIC_SQL, text_params(id))
}

/// A topic read back takes its identifier, title, creation time and update time from
/// columns 0, 1, 2 and 3 of the first row of `SELECT_TOPIC_SQL` (`id, title, created_at,
/// updated_at`), each from its own column.
pub proof fn lemma_topic_fields_from_their_columns(id: Seq<char>, s: Seq<SqlCall>, t: TopicView)
    requires
        get_topic_calls(id, s, Ok(t)),
    ensures
        rows_of(s[0]) is Ok,
        rows_of(s[0])->Ok_0.len() > 0,
        text_at(rows_of(s[0])->Ok_0[0]@, 0) == Ok::<Seq<char>, Seq<char>>(t.id),
        text_at(rows_of(s[0])->Ok_0[0]@, 1) == Ok::<Seq<char>, Seq<char>>(t.title),
        text_at(rows_of(s[0])->Ok_0[0]@, 2) == Ok::<Seq<char>, Seq<char>>(t.created_at),
        text_at(rows_of(s[0])->Ok_0[0]@, 3) == Ok::<Seq<char>, Seq<char>>(t.updated_at),
{
}

/// A topic inserted is read back with its own identifier, title and times: a row holding,
/// column by column, the parameters of its insertion (in the order `SELECT_TOPIC_SQL` reads
/// them) reads as those four values.
pub proof fn lemma_inserted_topic_reads_back(
    row: Seq<SqlField>,
    id: Seq<char>,
    title: Seq<char>,
    created_at: Seq<char>,
    updated_at: Seq<char>,
)
    requires
        crate::db::row_holds(row, topic_insert_params(id, title, created_at, updated_at)),
    ensures
        topic_head_of_row(row) == Ok::<(Seq<char>, Seq<char>, Seq<char>, Seq<char>), Seq<char>>(
            (id, title, created_at, updated_at),
        ),
{
    let ps = topic_insert_params(id, title, created_at, updated_at);
    assert(crate::db::cell_holds(row[0].cell, ps[0]));
    assert(crate::db::cell_holds(row[1].cell, ps[1]));
    assert(crate::db::cell_holds(row[2].cell, ps[2]));
    assert(crate::db::cell_holds(row[3].cell, ps[3]));
}

/// A topic summary takes its identifier, title and update time from columns 0, 1 and 2 of a
/// row of `LIST_TOPICS_SQL`, its number of bots from column 3 and the preview of its last
/// message from column 4.
pub proof fn lemma_summary_fields_from_their_columns(row: Seq<SqlField>, t: TopicSummaryView)
    requires
        summary_of_row(row) == Ok::<TopicSummaryView, Seq<char>>(t),
    ensures
        text_at(row, 0) == Ok::<Seq<char>, Seq<char>>(t.id),
        text_at(row, 1) == Ok::<Seq<char>, Seq<char>>(t.title),
        text_at(row, 2) == Ok::<Seq<char>, Seq<char>>(t.updated_at),
        int_at(row, 3) matches Ok(n) && t.bot_count == n as usize,
        opt_text_at(row, 4) == Ok::<Option<Seq<char>>, Seq<char>>(t.last_message_preview),
{
}

} // verus!
