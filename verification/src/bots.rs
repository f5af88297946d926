use vstd::prelude::*;
use vstd::string::StringExecFns;

use crate::db::{
    calls_since, decode_rows, done_call, exec, extends, get_int, get_text, int_at, is_query,
    is_statement, param_views, result_of, rows_of, select, text_at, unit_view, Db, ParamView,
    SqlCall, SqlField, SqlParam,
};
use crate::ids::{new_id, now_rfc3339};
use crate::models::{bot_views, Bot, BotView, CreateBotRequest, UpdateBotRequest};

verus! {

/// The color a bot gets when none is given.
pub const DEFAULT_AVATAR_COLOR: &'static str = "#6366f1";

/// An optional text, or `default` when it is absent.
pub open spec fn or_default(o: Option<String>, default: Seq<char>) -> Seq<char> {
    match o {
        Some(s) => s@,
        None => default,
    }
}

/// The bot that a create request makes, with the given identifier and creation time.
pub open spec fn created_bot(req: CreateBotRequest, id: Seq<char>, created_at: Seq<char>) -> BotView {
    BotView {
        id,
        name: req.name@,
        avatar_color: or_default(req.avatar_color, DEFAULT_AVATAR_COLOR@),
        base_url: req.base_url@,
        api_key: or_default(req.api_key, Seq::empty()),
        model: req.model@,
        system_prompt: or_default(req.system_prompt, Seq::empty()),
        supports_vision: match req.supports_vision {
            Some(b) => b,
            None => false,
        },
        created_at,
    }
}

/// Why a create request is refused, if it is: the name and the base URL must not be empty.
pub open spec fn create_bot_error(req: CreateBotRequest) -> Option<Seq<char>> {
    if req.name@.len() == 0 {
        Some("Bot name cannot be empty"@)
    } else if req.base_url@.len() == 0 {
        Some("Bot base_url cannot be empty"@)
    } else {
        None
    }
}

fn text_or(o: Option<String>, default: &str) -> (r: String)
    ensures
        r@ == or_default(o, default@),
{
    match o {
        Some(s) => s,
        None => String::from_str(default),
    }
}

/// Checks a create request and, when it is valid, builds the bot with its defaults applied.
pub fn new_bot(req: CreateBotRequest, id: String, created_at: String) -> (r: Result<Bot, String>)
    ensures
        match create_bot_error(req) {
            Some(e) => r matches Err(m) && m@ == e,
            None => r matches Ok(b) && b@ == created_bot(req, id@, created_at@),
        },
{
    if req.name.as_str().is_empty() {
        return Err(String::from_str("Bot name cannot be empty"));
    }
    if req.base_url.as_str().is_empty() {
        return Err(String::from_str("Bot base_url cannot be empty"));
    }
    let ghost r0 = req;
    let avatar_color = text_or(req.avatar_color, DEFAULT_AVATAR_COLOR);
    let api_key = text_or(req.api_key, "");
    let system_prompt = text_or(req.system_prompt, "");
    let supports_vision = match req.supports_vision {
        Some(b) => b,
        None => false,
    };
    proof {
        reveal_strlit("");
        assert(""@ =~= Seq::<char>::empty());
    }
    Ok(
        Bot {
            id,
            name: req.name,
            avatar_color,
            base_url: req.base_url,
            api_key,
            model: req.model,
            system_prompt,
            supports_vision,
            created_at,
        },
    )
}

/// The bot after an update: each field the request gives replaces the old one; the identifier
/// and the creation time stay.
pub open spec fn updated_bot(existing: BotView, req: UpdateBotRequest) -> BotView {
    BotView {
        id: existing.id,
        name: or_default(req.name, existing.name),
        avatar_color: or_default(req.avatar_color, existing.avatar_color),
        base_url: or_default(req.base_url, existing.base_url),
        api_key: or_default(req.api_key, existing.api_key),
        model: or_default(req.model, existing.model),
        system_prompt: or_default(req.system_prompt, existing.system_prompt),
        supports_vision: match req.supports_vision {
            Some(b) => b,
            None => existing.supports_vision,
        },
        created_at: existing.created_at,
    }
}

fn text_or_keep(o: Option<String>, keep: String) -> (r: String)
    ensures
        r@ == or_default(o, keep@),
{
    match o {
        Some(s) => s,
        None => keep,
    }
}

/// Merges a partial update into a bot.
pub fn merge_bot_update(existing: Bot, req: UpdateBotRequest) -> (r: Bot)
    ensures
        r@ == updated_bot(existing@, req),
{
    Bot {
        id: existing.id,
        name: text_or_keep(req.name, existing.name),
        avatar_color: text_or_keep(req.avatar_color, existing.avatar_color),
        base_url: text_or_keep(req.base_url, existing.base_url),
        api_key: text_or_keep(req.api_key, existing.api_key),
        model: text_or_keep(req.model, existing.model),
        system_prompt: text_or_keep(req.system_prompt, existing.system_prompt),
        supports_vision: match req.supports_vision {
            Some(b) => b,
            None => existing.supports_vision,
        },
        created_at: existing.created_at,
    }
}

// ---------------------------------------------------------------------------
// Rows
// ---------------------------------------------------------------------------

/// A bot read from a row of `BOT_COLUMNS`: the vision flag first, stored as an integer that
/// must fit in an `i32` and is true when non-zero, then the eight text columns in order.
pub open spec fn bot_of_row(row: Seq<SqlField>) -> Result<BotView, Seq<char>> {
    match int_at(row, 7) {
        Err(e) => Err(e),
        Ok(v) => if !(i32::MIN <= v <= i32::MAX) {
            Err(out_of_range_error(v, 7))
        } else {
            match (
                text_at(row, 0),
                text_at(row, 1),
                text_at(row, 2),
                text_at(row, 3),
                text_at(row, 4),
                text_at(row, 5),
                text_at(row, 6),
                text_at(row, 8),
            ) {
                (Ok(id), Ok(name), Ok(avatar_color), Ok(base_url), Ok(api_key), Ok(model), Ok(system_prompt), Ok(created_at)) => {
                    Ok(BotView { id, name, avatar_color, base_url, api_key, model, system_prompt, supports_vision: v != 0, created_at })
                }
                (Err(e), _, _, _, _, _, _, _) => Err(e),
                (_, Err(e), _, _, _, _, _, _) => Err(e),
                (_, _, Err(e), _, _, _, _, _) => Err(e),
                (_, _, _, Err(e), _, _, _, _) => Err(e),
                (_, _, _, _, Err(e), _, _, _) => Err(e),
                (_, _, _, _, _, Err(e), _, _) => Err(e),
                (_, _, _, _, _, _, Err(e), _) => Err(e),
                (_, _, _, _, _, _, _, Err(e)) => Err(e),
            }
        },
    }
}

/// The message for an integer that does not fit the column's type.
pub open spec fn out_of_range_error(v: i64, i: nat) -> Seq<char> {
    "Integer "@ + crate::text::signed_decimal(v as int) + " out of range at index "@ + crate::text::decimal(i)
}

fn out_of_range(v: i64, i: usize) -> (r: String)
    ensures
        r@ == out_of_range_error(v, i as nat),
{
    let mut r = String::from_str("Integer ");
    r.append(crate::text::signed_decimal_string(v).as_str());
    r.append(" out of range at index ");
    r.append(crate::text::decimal_string(i as u64).as_str());
    r
}

/// Reads a bot from a row of `BOT_COLUMNS`.
pub fn bot_from_row(row: &Vec<SqlField>) -> (r: Result<Bot, String>)
    ensures
        match (r, bot_of_row(row@)) {
            (Ok(b), Ok(v)) => b@ == v,
            (Err(a), Err(e)) => a@ == e,
            _ => false,
        },
{
    let v = get_int(row, 7)?;
    if v < i32::MIN as i64 || v > i32::MAX as i64 {
        return Err(out_of_range(v, 7));
    }
    let id = get_text(row, 0)?;
    let name = get_text(row, 1)?;
    let avatar_color = get_text(row, 2)?;
    let base_url = get_text(row, 3)?;
    let api_key = get_text(row, 4)?;
    let model = get_text(row, 5)?;
    let system_prompt = get_text(row, 6)?;
    let created_at = get_text(row, 8)?;
    Ok(
        Bot {
            id,
            name,
            avatar_color,
            base_url,
            api_key,
            model,
            system_prompt,
            supports_vision: v != 0,
            created_at,
        },
    )
}

/// The bots that rows read as, stopping at the first row that does not read.
pub open spec fn bots_of_rows(rows: Seq<Vec<SqlField>>) -> Result<Seq<BotView>, Seq<char>> {
    decode_rows(rows, |row: Seq<SqlField>| bot_of_row(row))
}

/// The bots a query gave, or its error.
pub open spec fn bots_of_query(q: Result<Seq<Vec<SqlField>>, Seq<char>>) -> Result<Seq<BotView>, Seq<char>> {
    match q {
        Ok(rows) => bots_of_rows(rows),
        Err(e) => Err(e),
    }
}

/// The view of a list of bots, or of an error.
pub open spec fn bots_result(r: Result<Vec<Bot>, String>) -> Result<Seq<BotView>, Seq<char>> {
    match r {
        Ok(bots) => Ok(bot_views(bots@)),
        Err(e) => Err(e@),
    }
}

/// The view of a bot, or of an error.
pub open spec fn bot_result(r: Result<Bot, String>) -> Result<BotView, Seq<char>> {
    match r {
        Ok(b) => Ok(b@),
        Err(e) => Err(e@),
    }
}

/// Reads bots from rows, stopping at the first row that does not read.
pub fn bots_from_rows(rows: &Vec<Vec<SqlField>>) -> (r: Result<Vec<Bot>, String>)
    ensures
        bots_result(r) == bots_of_rows(rows@),
{
    let mut bots: Vec<Bot> = Vec::new();
    let mut i: usize = 0;
    assert(rows@.take(0) =~= Seq::<Vec<SqlField>>::empty());
    assert(bot_views(bots@) =~= Seq::<BotView>::empty());
    while i < rows.len()
        invariant
            i <= rows.len(),
            bots_of_rows(rows@.take(i as int)) == Ok::<Seq<BotView>, Seq<char>>(bot_views(bots@)),
        decreases rows.len() - i,
    {
        assert(rows@.take(i + 1).drop_last() =~= rows@.take(i as int));
        assert(rows@.take(i + 1).last() == rows@[i as int]);
        match bot_from_row(&rows[i]) {
            Ok(b) => {
                let ghost before = bots@;
                bots.push(b);
                assert(bot_views(bots@) =~= bot_views(before).push(b@));
            },
            Err(e) => {
                proof {
                    crate::db::lemma_decode_rows_stops(
                        rows@,
                        i + 1,
                        |row: Seq<SqlField>| bot_of_row(row),
                    );
                }
                return Err(e);
            },
        }
        i += 1;
    }
    assert(rows@.take(rows.len() as int) =~= rows@);
    Ok(bots)
}

// ---------------------------------------------------------------------------
// Stored bots
// ---------------------------------------------------------------------------

/// The query of all bots, oldest first.
pub const LIST_BOTS_SQL: &'static str = "SELECT id, name, avatar_color, base_url, api_key, model, system_prompt, supports_vision, created_at FROM bots ORDER BY created_at";

/// The insertion of a bot.
pub const INSERT_BOT_SQL: &'static str = "INSERT INTO bots (id, name, avatar_color, base_url, api_key, model, system_prompt, supports_vision, created_at) VALUES (?1, ?2, ?3, ?4, ?5, ?6, ?7, ?8, ?9)";

/// The query of the bot with an identifier.
pub const SELECT_BOT_SQL: &'static str = "SELECT id, name, avatar_color, base_url, api_key, model, system_prompt, supports_vision, created_at FROM bots WHERE id = ?1";

/// The update of a bot's fields.
pub const UPDATE_BOT_SQL: &'static str = "UPDATE bots SET name = ?1, avatar_color = ?2, base_url = ?3, api_key = ?4, model = ?5, system_prompt = ?6, supports_vision = ?7 WHERE id = ?8";

/// The deletion of a bot.
pub const DELETE_BOT_SQL: &'static str = "DELETE FROM bots WHERE id = ?1";

/// The vision flag as stored: 1 or 0.
pub open spec fn flag(b: bool) -> i64 {
    if b {
        1
    } else {
        0
    }
}

/// The parameters that insert a bot.
pub open spec fn bot_insert_params(b: BotView) -> Seq<ParamView> {
    seq![
        ParamView::Text(b.id),
        ParamView::Text(b.name),
        ParamView::Text(b.avatar_color),
        ParamView::Text(b.base_url),
        ParamView::Text(b.api_key),
        ParamView::Text(b.model),
        ParamView::Text(b.system_prompt),
        ParamView::Integer(flag(b.supports_vision)),
        ParamView::Text(b.created_at),
    ]
}

/// The parameters that store a bot's fields under the identifier `id`.
pub open spec fn bot_update_params(b: BotView, id: Seq<char>) -> Seq<ParamView> {
    seq![
        ParamView::Text(b.name),
        ParamView::Text(b.avatar_color),
        ParamView::Text(b.base_url),
        ParamView::Text(b.api_key),
        ParamView::Text(b.model),
        ParamView::Text(b.system_prompt),
        ParamView::Integer(flag(b.supports_vision)),
        ParamView::Text(id),
    ]
}

/// A single text parameter.
pub open spec fn text_param(t: Seq<char>) -> Seq<ParamView> {
    seq![ParamView::Text(t)]
}

fn flag_param(b: bool) -> (p: SqlParam)
    ensures
        p@ == ParamView::Integer(flag(b)),
{
    SqlParam::Integer(if b { 1 } else { 0 })
}

fn bot_insert_param_list(b: &Bot) -> (ps: Vec<SqlParam>)
    ensures
        param_views(ps@) == bot_insert_params(b@),
{
    let ps = vec![
        SqlParam::Text(b.id.clone()),
        SqlParam::Text(b.name.clone()),
        SqlParam::Text(b.avatar_color.clone()),
        SqlParam::Text(b.base_url.clone()),
        SqlParam::Text(b.api_key.clone()),
        SqlParam::Text(b.model.clone()),
        SqlParam::Text(b.system_prompt.clone()),
        flag_param(b.supports_vision),
        SqlParam::Text(b.created_at.clone()),
    ];
    assert(param_views(ps@) =~= bot_insert_params(b@));
    ps
}

fn bot_update_param_list(b: &Bot, id: &str) -> (ps: Vec<SqlParam>)
    ensures
        param_views(ps@) == bot_update_params(b@, id@),
{
    let ps = vec![
        SqlParam::Text(b.name.clone()),
        SqlParam::Text(b.avatar_color.clone()),
        SqlParam::Text(b.base_url.clone()),
        SqlParam::Text(b.api_key.clone()),
        SqlParam::Text(b.model.clone()),
        SqlParam::Text(b.system_prompt.clone()),
        flag_param(b.supports_vision),
        SqlParam::Text(String::from_str(id)),
    ];
    assert(param_views(ps@) =~= bot_update_params(b@, id@));
    ps
}

/// A single text parameter, built.
pub(crate) fn text_params(t: &str) -> (ps: Vec<SqlParam>)
    ensures
        param_views(ps@) == text_param(t@),
{
    let ps = vec![SqlParam::Text(String::from_str(t))];
    assert(param_views(ps@) =~= text_param(t@));
    ps
}

/// The calls of listing the bots, and its result: one query, whose rows are read as bots.
pub open spec fn list_bots_calls(s: Seq<SqlCall>, r: Result<Seq<BotView>, Seq<char>>) -> bool {
    &&& s.len() == 1
    &&& is_query(s[0], LIST_BOTS_SQL@, Seq::empty())
    &&& r == bots_of_query(rows_of(s[0]))
}

/// All bots, oldest first.
pub fn db_list_bots(db: &mut Db) -> (r: Result<Vec<Bot>, String>)
    ensures
        extends(old(db).calls(), final(db).calls()),
        list_bots_calls(calls_since(old(db).calls(), final(db).calls()), bots_result(r)),
{
    let ghost before = db.calls();
    let no_params: Vec<SqlParam> = Vec::new();
    assert(param_views(no_params@) =~= Seq::<ParamView>::empty());
    let rows = select(db, LIST_BOTS_SQL, no_params);
    let ghost s = calls_since(before, db.calls());
    assert(s =~= seq![db.calls().last()]);
    match rows {
        Ok(rows) => bots_from_rows(&rows),
        Err(e) => Err(e),
    }
}

/// The calls of creating a bot from `req`, and its result: a request with an empty name or
/// base URL is refused with no call; otherwise one insertion of the bot made from the request
/// (a fresh 36-character identifier and a creation time), which is returned when the insertion
/// succeeds.
pub open spec fn create_bot_calls(req: CreateBotRequest, s: Seq<SqlCall>, r: Result<BotView, Seq<char>>) -> bool {
    match create_bot_error(req) {
        Some(e) => s.len() == 0 && r == Err::<BotView, Seq<char>>(e),
        None => {
            &&& s.len() == 1
            &&& s[0].sql == INSERT_BOT_SQL@
            &&& s[0].outcome is Done
            &&& exists|b: BotView|
                #![trigger bot_insert_params(b)]
                b == created_bot(req, b.id, b.created_at) && b.id.len() == 36 && b.created_at.len() > 0 && s[0].params
                    == bot_insert_params(b) && r == match result_of(s[0]) {
                    Ok(_) => Ok::<BotView, Seq<char>>(b),
                    Err(m) => Err(m),
                }
        },
    }
}

/// Creates and stores a bot. A request with an empty name or base URL is refused before
/// anything is stored; otherwise the stored bot is the request with its defaults applied, a
/// fresh identifier, and the current time.
pub fn db_create_bot(db: &mut Db, req: CreateBotRequest) -> (r: Result<Bot, String>)
    ensures
        extends(old(db).calls(), final(db).calls()),
        create_bot_calls(req, calls_since(old(db).calls(), final(db).calls()), bot_result(r)),
        create_bot_error(req) matches Some(e) ==> r matches Err(m) && m@ == e,
        r matches Ok(b) ==> create_bot_error(req) is None && b@ == created_bot(req, b.id@, b.created_at@)
            && b.id@.len() == 36 && b.created_at@.len() > 0,
{
    let ghost before = db.calls();
    let ghost r0 = req;
    let id = new_id();
    let created_at = now_rfc3339();
    let bot = match new_bot(req, id, created_at) {
        Ok(b) => b,
        Err(e) => {
            assert(calls_since(before, db.calls()) =~= Seq::<SqlCall>::empty());
            return Err(e);
        },
    };
    let params = bot_insert_param_list(&bot);
    let done = exec(db, INSERT_BOT_SQL, params);
    let ghost s = calls_since(before, db.calls());
    assert(s =~= seq![db.calls().last()]);
    assert(bot_insert_params(bot@) == s[0].params);
    match done {
        Ok(_) => Ok(bot),
        Err(e) => Err(e),
    }
}

/// The calls of updating the bot `id` with `req`, and its result: the bot is looked up by
/// identifier ("Bot not found: ..." when the query fails, finds no row, or its first row does
/// not read); then its fields are replaced by those the request gives, and the updated bot is
/// returned when that succeeds.
pub open spec fn update_bot_calls(id: Seq<char>, req: UpdateBotRequest, s: Seq<SqlCall>, r: Result<BotView, Seq<char>>) -> bool {
    &&& s.len() >= 1
    &&& is_query(s[0], SELECT_BOT_SQL@, text_param(id))
    &&& match rows_of(s[0]) {
        Err(e) => s.len() == 1 && r == Err::<BotView, Seq<char>>("Bot not found: "@ + e),
        Ok(rows) => if rows.len() == 0 {
            s.len() == 1 && r == Err::<BotView, Seq<char>>("Bot not found: "@ + "Query returned no rows"@)
        } else {
            match bot_of_row(rows[0]@) {
                Err(e) => s.len() == 1 && r == Err::<BotView, Seq<char>>("Bot not found: "@ + e),
                Ok(existing) => {
                    &&& s.len() == 2
                    &&& is_statement(s[1], UPDATE_BOT_SQL@, bot_update_params(updated_bot(existing, req), id))
                    &&& r == match result_of(s[1]) {
                        Ok(_) => Ok::<BotView, Seq<char>>(updated_bot(existing, req)),
                        Err(m) => Err(m),
                    }
                },
            }
        },
    }
}

/// Updates a stored bot: the fields the request gives replace the stored ones.
pub fn db_update_bot(db: &mut Db, id: &str, req: UpdateBotRequest) -> (r: Result<Bot, String>)
    ensures
        extends(old(db).calls(), final(db).calls()),
        update_bot_calls(id@, req, calls_since(old(db).calls(), final(db).calls()), bot_result(r)),
{
    let ghost before = db.calls();
    let ghost r0 = req;
    let found = select(db, SELECT_BOT_SQL, text_params(id));
    let ghost mid = db.calls();
    assert(calls_since(before, mid) =~= seq![mid.last()]);
    let rows = match found {
        Ok(rows) => rows,
        Err(e) => return Err(not_found("Bot not found: ", e)),
    };
    if rows.len() == 0 {
        return Err(not_found("Bot not found: ", crate::db::no_rows_message()));
    }
    let existing = match bot_from_row(&rows[0]) {
        Ok(b) => b,
        Err(e) => return Err(not_found("Bot not found: ", e)),
    };
    let bot = merge_bot_update(existing, req);
    let params = bot_update_param_list(&bot, id);
    let done = exec(db, UPDATE_BOT_SQL, params);
    assert(calls_since(before, db.calls()) =~= seq![mid.last(), db.calls().last()]);
    match done {
        Ok(_) => Ok(bot),
        Err(e) => Err(e),
    }
}

/// `prefix` followed by an error message.
pub fn not_found(prefix: &str, e: String) -> (r: String)
    ensures
        r@ == prefix@ + e@,
{
    let mut r = String::from_str(prefix);
    r.append(e.as_str());
    r
}

/// Deletes a bot; deleting one that does not exist is no error. One statement, by identifier.
pub fn db_delete_bot(db: &mut Db, id: &str) -> (r: Result<(), String>)
    ensures
        final(db).calls() == old(db).calls().push(done_call(DELETE_BOT_SQL@, text_param(id@), unit_view(r))),
{
    exec(db, DELETE_BOT_SQL, text_params(id))
}

// ---------------------------------------------------------------------------
// Laws
// ---------------------------------------------------------------------------

/// An update never changes a bot's identifier or creation time.
pub proof fn lemma_update_keeps_identity(existing: BotView, req: UpdateBotRequest)
    ensures
        updated_bot(existing, req).id == existing.id,
        updated_bot(existing, req).created_at == existing.created_at,
{
}

/// An update that gives no field leaves the bot as it was.
pub proof fn lemma_empty_update_keeps_bot(existing: BotView, req: UpdateBotRequest)
    requires
        req.name is None,
        req.avatar_color is None,
        req.base_url is None,
        req.api_key is None,
        req.model is None,
        req.system_prompt is None,
        req.supports_vision is None,
    ensures
        updated_bot(existing, req) == existing,
{
}

/// Applying the same update twice is the same as applying it once.
pub proof fn lemma_update_idempotent(existing: BotView, req: UpdateBotRequest)
    ensures
        updated_bot(updated_bot(existing, req), req) == updated_bot(existing, req),
{
}

/// A created bot keeps the name, base URL and model it was asked for, and is refused exactly
/// when its name or base URL is empty.
pub proof fn lemma_create_keeps_request(req: CreateBotRequest, id: Seq<char>, created_at: Seq<char>)
    ensures
        created_bot(req, id, created_at).name == req.name@,
        created_bot(req, id, created_at).base_url == req.base_url@,
        created_bot(req, id, created_at).model == req.model@,
        create_bot_error(req) is None <==> (req.name@.len() > 0 && req.base_url@.len() > 0),
{
}

/// A bot read from a row takes each field from its own column of `LIST_BOTS_SQL` (`id, name,
/// avatar_color, base_url, api_key, model, system_prompt, supports_vision, created_at`), and
/// sees images exactly when the stored flag is not zero.
pub proof fn lemma_bot_fields_from_their_columns(row: Seq<SqlField>, b: BotView)
    requires
        bot_of_row(row) == Ok::<BotView, Seq<char>>(b),
    ensures
        text_at(row, 0) == Ok::<Seq<char>, Seq<char>>(b.id),
        text_at(row, 1) == Ok::<Seq<char>, Seq<char>>(b.name),
        text_at(row, 2) == Ok::<Seq<char>, Seq<char>>(b.avatar_color),
        text_at(row, 3) == Ok::<Seq<char>, Seq<char>>(b.base_url),
        text_at(row, 4) == Ok::<Seq<char>, Seq<char>>(b.api_key),
        text_at(row, 5) == Ok::<Seq<char>, Seq<char>>(b.model),
        text_at(row, 6) == Ok::<Seq<char>, Seq<char>>(b.system_prompt),
        int_at(row, 7) matches Ok(v) && b.supports_vision == (v != 0),
        text_at(row, 8) == Ok::<Seq<char>, Seq<char>>(b.created_at),
{
}

/// A bot inserted is read back as itself: a row holding, column by column, the parameters of
/// its insertion (whose columns are listed in the order `LIST_BOTS_SQL` reads them) reads as
/// that bot.
pub proof fn lemma_inserted_bot_reads_back(row: Seq<SqlField>, b: BotView)
    requires
        crate::db::row_holds(row, bot_insert_params(b)),
    ensures
        bot_of_row(row) == Ok::<BotView, Seq<char>>(b),
{
    assert(crate::db::cell_holds(row[7].cell, bot_insert_params(b)[7]));
    assert(crate::db::cell_holds(row[0].cell, bot_insert_params(b)[0]));
    assert(crate::db::cell_holds(row[1].cell, bot_insert_params(b)[1]));
    assert(crate::db::cell_holds(row[2].cell, bot_insert_params(b)[2]));
    assert(crate::db::cell_holds(row[3].cell, bot_insert_params(b)[3]));
    assert(crate::db::cell_holds(row[4].cell, bot_insert_params(b)[4]));
    assert(crate::db::cell_holds(row[5].cell, bot_insert_params(b)[5]));
    assert(crate::db::cell_holds(row[6].cell, bot_insert_params(b)[6]));
    assert(crate::db::cell_holds(row[8].cell, bot_insert_params(b)[8]));
}

/// A created bot takes every field the request gives, and for the absent ones: the avatar
/// colour "#6366f1", an empty API key, an empty system prompt, and no vision.
pub proof fn lemma_create_defaults(req: CreateBotRequest, id: Seq<char>, created_at: Seq<char>)
    ensures
        ({
            let b = created_bot(req, id, created_at);
            &&& b.id == id
            &&& b.created_at == created_at
            &&& b.avatar_color == match req.avatar_color {
                Some(c) => c@,
                None => "#6366f1"@,
            }
            &&& b.api_key == match req.api_key {
                Some(k) => k@,
                None => Seq::<char>::empty(),
            }
            &&& b.system_prompt == match req.system_prompt {
                Some(p) => p@,
                None => Seq::<char>::empty(),
            }
            &&& b.supports_vision == (req.supports_vision == Some(true))
        }),
{
}

/// An update replaces each field that the request gives with the given value, and keeps each
/// field it does not give.
pub proof fn lemma_update_fields(existing: BotView, req: UpdateBotRequest)
    ensures
        ({
            let b = updated_bot(existing, req);
            &&& b.id == existing.id
            &&& b.created_at == existing.created_at
            &&& b.name == match req.name {
                Some(x) => x@,
                None => existing.name,
            }
            &&& b.avatar_color == match req.avatar_color {
                Some(x) => x@,
                None => existing.avatar_color,
            }
            &&& b.base_url == match req.base_url {
                Some(x) => x@,
                None => existing.base_url,
            }
            &&& b.api_key == match req.api_key {
                Some(x) => x@,
                None => existing.api_key,
            }
            &&& b.model == match req.model {
                Some(x) => x@,
                None => existing.model,
            }
            &&& b.system_prompt == match req.system_prompt {
                Some(x) => x@,
                None => existing.system_prompt,
            }
            &&& b.supports_vision == match req.supports_vision {
                Some(x) => x,
                None => existing.supports_vision,
            }
        }),
{
}

/// An update stores, under the bot's identifier, the fields of the updated bot in the order
/// `UPDATE_BOT_SQL` names them: name, avatar colour, base URL, API key, model, system prompt,
/// the vision flag (1 or 0), then the identifier.
pub proof fn lemma_update_params(b: BotView, id: Seq<char>)
    ensures
        bot_update_params(b, id).len() == 8,
        bot_update_params(b, id)[0] == ParamView::Text(b.name),
        bot_update_params(b, id)[1] == ParamView::Text(b.avatar_color),
        bot_update_params(b, id)[2] == ParamView::Text(b.base_url),
        bot_update_params(b, id)[3] == ParamView::Text(b.api_key),
        bot_update_params(b, id)[4] == ParamView::Text(b.model),
        bot_update_params(b, id)[5] == ParamView::Text(b.system_prompt),
        bot_update_params(b, id)[6] == ParamView::Integer(if b.supports_vision { 1 } else { 0 }),
        bot_update_params(b, id)[7] == ParamView::Text(id),
{
}

} // verus!
