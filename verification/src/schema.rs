use vstd::prelude::*;
use vstd::string::StringExecFns;

use crate::db::{calls_since, exec_batch, exec_raw, extends, param_views, select_raw, Db, ParamView, SqlCall, SqlCell, SqlField, SqlOutcome, SqlParam};
use crate::ids::new_id;

verus! {

/// The tables: bots, topics, the bots of each topic, messages, and their attachments. Deleting
/// a topic deletes its messages and its bot links; deleting a message deletes its
/// attachments; deleting a bot unlinks it and clears it as the sender of its messages.
pub const MIGRATIONS: &'static str = "
        CREATE TABLE IF NOT EXISTS bots (
            id TEXT PRIMARY KEY,
            name TEXT NOT NULL,
            avatar_color TEXT NOT NULL DEFAULT '#6366f1',
            base_url TEXT NOT NULL,
            api_key TEXT NOT NULL DEFAULT '',
            model TEXT NOT NULL,
            system_prompt TEXT NOT NULL DEFAULT '',
            supports_vision INTEGER NOT NULL DEFAULT 0,
            created_at TEXT NOT NULL DEFAULT (datetime('now'))
        );

        CREATE TABLE IF NOT EXISTS topics (
            id TEXT PRIMARY KEY,
            title TEXT NOT NULL,
            created_at TEXT NOT NULL DEFAULT (datetime('now')),
            updated_at TEXT NOT NULL DEFAULT (datetime('now'))
        );

        CREATE TABLE IF NOT EXISTS topic_bots (
            topic_id TEXT NOT NULL REFERENCES topics(id) ON DELETE CASCADE,
            bot_id TEXT NOT NULL REFERENCES bots(id) ON DELETE CASCADE,
            PRIMARY KEY (topic_id, bot_id)
        );

        CREATE TABLE IF NOT EXISTS messages (
            id TEXT PRIMARY KEY,
            topic_id TEXT NOT NULL REFERENCES topics(id) ON DELETE CASCADE,
            sender_type TEXT NOT NULL CHECK(sender_type IN ('human', 'bot')),
            sender_bot_id TEXT REFERENCES bots(id) ON DELETE SET NULL,
            content TEXT NOT NULL DEFAULT '',
            created_at TEXT NOT NULL DEFAULT (datetime('now'))
        );

        CREATE TABLE IF NOT EXISTS attachments (
            id TEXT PRIMARY KEY,
            message_id TEXT NOT NULL REFERENCES messages(id) ON DELETE CASCADE,
            file_name TEXT NOT NULL,
            file_path TEXT NOT NULL,
            file_type TEXT NOT NULL CHECK(file_type IN ('image', 'file')),
            mime_type TEXT NOT NULL DEFAULT '',
            created_at TEXT NOT NULL DEFAULT (datetime('now'))
        );

        CREATE INDEX IF NOT EXISTS idx_messages_topic ON messages(topic_id, created_at);
        CREATE INDEX IF NOT EXISTS idx_attachments_message ON attachments(message_id);
    ";

/// Creates the tables and indexes that do not exist yet (each statement of `MIGRATIONS` says
/// `IF NOT EXISTS`): one batch, its error handed on as it is.
pub fn run_migrations(db: &mut Db) -> (r: Result<(), rusqlite::Error>)
    ensures
        final(db).calls() == old(db).calls().push(
            SqlCall { sql: MIGRATIONS@, params: Seq::empty(), outcome: SqlOutcome::Ran(r is Ok) },
        ),
{
    exec_batch(db, MIGRATIONS)
}

/// One of the bots a fresh database starts with.
pub struct DefaultBot {
    pub name: &'static str,
    pub avatar_color: &'static str,
    pub base_url: &'static str,
    pub api_key: &'static str,
    pub model: &'static str,
    pub system_prompt: &'static str,
}

/// The bots a fresh database starts with, all able to see images.
pub open spec fn default_bot_list() -> Seq<DefaultBot> {
    seq![
        DefaultBot {
            name: "Sonnet 4",
            avatar_color: "#8b5cf6",
            base_url: "http://127.0.0.1:8317/v1",
            api_key: "your-api-key-1",
            model: "sonnet-4-20250514",
            system_prompt: "You are Sonnet 4, a helpful AI assistant by Anthropic.",
        },
        DefaultBot {
            name: "Opus 4.6",
            avatar_color: "#6366f1",
            base_url: "http://127.0.0.1:8317/v1",
            api_key: "your-api-key-1",
            model: "opus-4-6",
            system_prompt: "You are Opus 4.6, the most capable AI assistant by Anthropic.",
        },
        DefaultBot {
            name: "Gemini 2.5 Pro",
            avatar_color: "#10b981",
            base_url: "http://127.0.0.1:8317/v1",
            api_key: "your-api-key-1",
            model: "gemini-2.5-pro",
            system_prompt: "You are Gemini 2.5 Pro, a helpful AI assistant by Google.",
        },
        DefaultBot {
            name: "Gemini 3.1 Pro",
            avatar_color: "#f97316",
            base_url: "http://127.0.0.1:8317/v1",
            api_key: "your-api-key-1",
            model: "gemini-3.1-pro-preview",
            system_prompt: "You are Gemini 3.1 Pro, a helpful AI assistant by Google.",
        },
    ]
}

/// The bots a fresh database starts with.
pub fn default_bots() -> (r: Vec<DefaultBot>)
    ensures
        r@ == default_bot_list(),
{
    let r = vec![
        DefaultBot {
            name: "Sonnet 4",
            avatar_color: "#8b5cf6",
            base_url: "http://127.0.0.1:8317/v1",
            api_key: "your-api-key-1",
            model: "sonnet-4-20250514",
            system_prompt: "You are Sonnet 4, a helpful AI assistant by Anthropic.",
        },
        DefaultBot {
            name: "Opus 4.6",
            avatar_color: "#6366f1",
            base_url: "http://127.0.0.1:8317/v1",
            api_key: "your-api-key-1",
            model: "opus-4-6",
            system_prompt: "You are Opus 4.6, the most capable AI assistant by Anthropic.",
        },
        DefaultBot {
            name: "Gemini 2.5 Pro",
            avatar_color: "#10b981",
            base_url: "http://127.0.0.1:8317/v1",
            api_key: "your-api-key-1",
            model: "gemini-2.5-pro",
            system_prompt: "You are Gemini 2.5 Pro, a helpful AI assistant by Google.",
        },
        DefaultBot {
            name: "Gemini 3.1 Pro",
            avatar_color: "#f97316",
            base_url: "http://127.0.0.1:8317/v1",
            api_key: "your-api-key-1",
            model: "gemini-3.1-pro-preview",
            system_prompt: "You are Gemini 3.1 Pro, a helpful AI assistant by Google.",
        },
    ];
    assert(r@ =~= default_bot_list());
    r
}

/// The row count a `SELECT COUNT(*)` result holds, if it holds one that fits an `i32`.
pub open spec fn count_of(rows: Seq<Seq<SqlField>>) -> Option<int> {
    if rows.len() > 0 && rows[0].len() > 0 {
        match rows[0][0].cell {
            SqlCell::Integer(n) => if i32::MIN <= n <= i32::MAX {
                Some(n as int)
            } else {
                None
            },
            _ => None,
        }
    } else {
        None
    }
}

fn read_count(rows: &Vec<Vec<SqlField>>) -> (r: Option<i64>)
    ensures
        match (r, count_of(rows@.map_values(|row: Vec<SqlField>| row@))) {
            (Some(a), Some(b)) => a == b,
            (None, None) => true,
            _ => false,
        },
{
    let ghost v = rows@.map_values(|row: Vec<SqlField>| row@);
    if rows.len() > 0 && rows[0].len() > 0 {
        assert(v[0] == rows@[0]@);
        match &rows[0][0].cell {
            SqlCell::Integer(n) => if *n >= i32::MIN as i64 && *n <= i32::MAX as i64 {
                Some(*n)
            } else {
                None
            },
            _ => None,
        }
    } else {
        None
    }
}

/// The query of the number of bots.
pub const COUNT_BOTS_SQL: &'static str = "SELECT COUNT(*) FROM bots";

/// The insertion of a default bot.
pub const INSERT_DEFAULT_BOT_SQL: &'static str = "INSERT INTO bots (id, name, avatar_color, base_url, api_key, model, system_prompt, supports_vision)
         VALUES (?1, ?2, ?3, ?4, ?5, ?6, ?7, ?8)";

/// The parameters that insert default bot `b` under identifier `id`, able to see images.
pub open spec fn default_bot_params(id: Seq<char>, b: DefaultBot) -> Seq<ParamView> {
    seq![
        ParamView::Text(id),
        ParamView::Text(b.name@),
        ParamView::Text(b.avatar_color@),
        ParamView::Text(b.base_url@),
        ParamView::Text(b.api_key@),
        ParamView::Text(b.model@),
        ParamView::Text(b.system_prompt@),
        ParamView::Integer(1),
    ]
}

/// Whether `c` inserts default bot `b` under a fresh 36-character identifier.
pub open spec fn inserts_default_bot(c: SqlCall, b: DefaultBot) -> bool {
    &&& c.sql == INSERT_DEFAULT_BOT_SQL@
    &&& c.outcome is Ran
    &&& exists|id: Seq<char>| id.len() == 36 && #[trigger] default_bot_params(id, b) == c.params
}

/// Whether the call ran without error.
pub open spec fn ran_ok(c: SqlCall) -> bool {
    c.outcome == SqlOutcome::Ran(true)
}

/// Whether `s` inserts the default bots in order, stopping at the first failure, and `ok`
/// says whether all of them were inserted.
pub open spec fn seed_inserts(s: Seq<SqlCall>, ok: bool) -> bool {
    &&& 1 <= s.len() <= default_bot_list().len()
    &&& forall|k: int| 0 <= k < s.len() ==> #[trigger] inserts_default_bot(s[k], default_bot_list()[k])
    &&& forall|k: int| 0 <= k < s.len() - 1 ==> #[trigger] ran_ok(s[k])
    &&& ok == (s.len() == default_bot_list().len() && ran_ok(s.last()))
    &&& (!ok ==> s.last().outcome == SqlOutcome::Ran(false))
}

/// The calls of seeding, and whether it succeeded: the bots are counted; when the count does
/// not read (no row, or not an `i32`) seeding fails; when there are bots nothing more is done;
/// otherwise the default bots are inserted.
pub open spec fn seed_calls(s: Seq<SqlCall>, ok: bool) -> bool {
    &&& s.len() >= 1
    &&& s[0].sql == COUNT_BOTS_SQL@
    &&& s[0].params == Seq::<ParamView>::empty()
    &&& match s[0].outcome {
        SqlOutcome::RowsRan(Some(rows)) => match count_of(rows.map_values(|row: Vec<SqlField>| row@)) {
            Some(n) => if n > 0 {
                s.len() == 1 && ok
            } else {
                seed_inserts(s.drop_first(), ok)
            },
            None => s.len() == 1 && !ok,
        },
        SqlOutcome::RowsRan(None) => s.len() == 1 && !ok,
        _ => false,
    }
}

/// Inserts one default bot under a fresh identifier, handing on the error as it is.
fn insert_default_bot(db: &mut Db, b: &DefaultBot) -> (r: Result<(), rusqlite::Error>)
    ensures
        final(db).calls() == old(db).calls().push(final(db).calls().last()),
        inserts_default_bot(final(db).calls().last(), *b),
        final(db).calls().last().outcome == SqlOutcome::Ran(r is Ok),
{
    let id = new_id();
    let ghost idv = id@;
    let params = vec![
        SqlParam::Text(id),
        SqlParam::Text(String::from_str(b.name)),
        SqlParam::Text(String::from_str(b.avatar_color)),
        SqlParam::Text(String::from_str(b.base_url)),
        SqlParam::Text(String::from_str(b.api_key)),
        SqlParam::Text(String::from_str(b.model)),
        SqlParam::Text(String::from_str(b.system_prompt)),
        SqlParam::Integer(1),
    ];
    assert(param_views(params@) =~= default_bot_params(idv, *b));
    exec_raw(db, INSERT_DEFAULT_BOT_SQL, params)
}

/// Inserts the default bots when the bot table is empty; a table with bots is left alone.
#[verifier::loop_isolation(false)]
pub fn seed_default_bots(db: &mut Db) -> (r: Result<(), rusqlite::Error>)
    ensures
        extends(old(db).calls(), final(db).calls()),
        seed_calls(calls_since(old(db).calls(), final(db).calls()), r is Ok),
{
    let ghost before = db.calls();
    let no_params: Vec<SqlParam> = Vec::new();
    assert(param_views(no_params@) =~= Seq::<ParamView>::empty());
    let found = select_raw(db, COUNT_BOTS_SQL, no_params);
    let ghost a0 = db.calls();
    assert(calls_since(before, a0) =~= seq![a0.last()]);
    let rows = match found {
        Ok(rows) => rows,
        Err(e) => return Err(e),
    };
    let count = match read_count(&rows) {
        Some(n) => n,
        None => return Err(crate::db::no_rows_error()),
    };
    if count > 0 {
        return Ok(());
    }
    let bots = default_bots();
    let mut i: usize = 0;
    while i < bots.len()
        invariant
            i <= bots@.len(),
            bots@ == default_bot_list(),
            extends(a0, db.calls()),
            calls_since(a0, db.calls()).len() == i,
            forall|k: int| 0 <= k < i ==> #[trigger] inserts_default_bot(calls_since(a0, db.calls())[k], default_bot_list()[k]),
            forall|k: int| 0 <= k < i ==> #[trigger] ran_ok(calls_since(a0, db.calls())[k]),
        decreases bots@.len() - i,
    {
        let ghost prev = db.calls();
        let inserted = insert_default_bot(db, &bots[i]);
        assert(calls_since(a0, db.calls()) =~= calls_since(a0, prev).push(db.calls().last()));
        if let Err(e) = inserted {
            let ghost s = calls_since(before, db.calls());
            assert(s.drop_first() =~= calls_since(a0, db.calls()));
            return Err(e);
        }
        i += 1;
    }
    let ghost s = calls_since(before, db.calls());
    assert(s.drop_first() =~= calls_since(a0, db.calls()));
    Ok(())
}

/// Seeding that succeeds either finds bots and inserts nothing, or finds none and inserts the
/// four default bots in order, each under a fresh identifier, with its own name, colour, base
/// URL ("http://127.0.0.1:8317/v1"), key, model and prompt, and able to see images.
pub proof fn lemma_seed(s: Seq<SqlCall>)
    requires
        seed_calls(s, true),
    ensures
        s.len() == 1 || s.len() == 5,
        s.len() == 5 ==> forall|k: int|
            0 <= k < 4 ==> (#[trigger] s[k + 1]).sql == INSERT_DEFAULT_BOT_SQL@ && exists|id: Seq<char>|
                id.len() == 36 && s[k + 1].params == seq![
                    ParamView::Text(id),
                    ParamView::Text(default_bot_list()[k].name@),
                    ParamView::Text(default_bot_list()[k].avatar_color@),
                    ParamView::Text("http://127.0.0.1:8317/v1"@),
                    ParamView::Text(default_bot_list()[k].api_key@),
                    ParamView::Text(default_bot_list()[k].model@),
                    ParamView::Text(default_bot_list()[k].system_prompt@),
                    ParamView::Integer(1),
                ],
        default_bot_list().len() == 4,
{
    if s.len() != 1 {
        assert(seed_inserts(s.drop_first(), true));
        assert forall|k: int| 0 <= k < 4 implies (#[trigger] s[k + 1]).sql == INSERT_DEFAULT_BOT_SQL@ && exists|id: Seq<char>|
            id.len() == 36 && s[k + 1].params == seq![
                ParamView::Text(id),
                ParamView::Text(default_bot_list()[k].name@),
                ParamView::Text(default_bot_list()[k].avatar_color@),
                ParamView::Text("http://127.0.0.1:8317/v1"@),
                ParamView::Text(default_bot_list()[k].api_key@),
                ParamView::Text(default_bot_list()[k].model@),
                ParamView::Text(default_bot_list()[k].system_prompt@),
                ParamView::Integer(1),
            ] by {
            assert(s.drop_first()[k] == s[k + 1]);
            assert(inserts_default_bot(s.drop_first()[k], default_bot_list()[k]));
            let id = choose|id: Seq<char>| id.len() == 36 && #[trigger] default_bot_params(id, default_bot_list()[k]) == s.drop_first()[k].params;
            assert(default_bot_params(id, default_bot_list()[k]) =~= seq![
                ParamView::Text(id),
                ParamView::Text(default_bot_list()[k].name@),
                ParamView::Text(default_bot_list()[k].avatar_color@),
                ParamView::Text("http://127.0.0.1:8317/v1"@),
                ParamView::Text(default_bot_list()[k].api_key@),
                ParamView::Text(default_bot_list()[k].model@),
                ParamView::Text(default_bot_list()[k].system_prompt@),
                ParamView::Integer(1),
            ]);
        }
    }
}

} // verus!
