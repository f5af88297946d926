use vstd::prelude::*;
use vstd::string::StringExecFns;

use crate::attachments::{attachment_params, db_save_attachment, new_attachment, stored_name, INSERT_ATTACHMENT_SQL};
use crate::bots::{bots_of_query, db_list_bots, list_bots_calls};
use crate::chat::{first_bot_name, first_bot_with_id};
use crate::encoding::{base64_decoded, base64_of, decode_base64, encode_base64};
use crate::db::{calls_since, done_call, extends, result_of, rows_of, unit_view, Db, SqlCall};
use crate::ids::{new_id, now_rfc3339};
use crate::messages::{db_insert_message, db_list_messages, list_messages_calls, message_insert_params, messages_result, INSERT_MESSAGE_SQL};
use crate::models::{TopicView, bot_views, opt_view, Attachment, AttachmentView, Bot, BotView, Message, MessageView, Topic};
use crate::text::{chars_eq, chars_of, decimal, decimal_string, digit_char, push_decimal, string_of};
use crate::topics::{db_get_topic, get_topic_calls, db_insert_topic, link_all, links_made, topic_insert_params, topic_result, INSERT_TOPIC_SQL};
use crate::urls::{dedup, views};

verus! {

/// The `format` marker of an exported topic.
pub const EXPORT_FORMAT: &'static str = "ai-group-chat-export";

/// The version of the export format.
pub const EXPORT_VERSION: u32 = 1;

/// The largest attachment embedded in an export, in bytes (10 MiB).
pub const MAX_ATTACHMENT_SIZE: u64 = 10485760;

/// An exported topic: its metadata, its bots (without their endpoints or keys), and its
/// messages with their attachments embedded.
#[derive(Debug)]
pub struct TopicExport {
    pub format: String,
    pub version: u32,
    pub exported_at: String,
    pub topic: TopicMeta,
    pub bots: Vec<BotExportMeta>,
    pub messages: Vec<MessageExport>,
}

#[derive(Debug)]
pub struct TopicMeta {
    pub title: String,
    pub created_at: String,
}

/// What is exported of a bot: how it looks and behaves, not where it runs or its key.
#[derive(Debug)]
pub struct BotExportMeta {
    pub name: String,
    pub avatar_color: String,
    pub model: String,
    pub system_prompt: String,
    pub supports_vision: bool,
}

#[derive(Debug)]
pub struct MessageExport {
    pub sender_type: String,
    pub sender_bot_name: Option<String>,
    pub content: String,
    pub created_at: String,
    pub attachments: Vec<AttachmentExport>,
}

/// An exported attachment: its data in base64, or why it was left out.
#[derive(Debug)]
pub struct AttachmentExport {
    pub file_name: String,
    pub file_type: String,
    pub mime_type: String,
    pub data_base64: Option<String>,
    pub skipped: bool,
    pub skip_reason: Option<String>,
}

// ---------------------------------------------------------------------------
// Export
// ---------------------------------------------------------------------------

/// What is exported of a bot.
pub fn bot_export_meta(bot: &Bot) -> (m: BotExportMeta)
    ensures
        m.name@ == bot.name@,
        m.avatar_color@ == bot.avatar_color@,
        m.model@ == bot.model@,
        m.system_prompt@ == bot.system_prompt@,
        m.supports_vision == bot.supports_vision,
{
    BotExportMeta {
        name: bot.name.clone(),
        avatar_color: bot.avatar_color.clone(),
        model: bot.model.clone(),
        system_prompt: bot.system_prompt.clone(),
        supports_vision: bot.supports_vision,
    }
}

/// What became of an attachment's file when it was looked at for export.
pub enum AttachmentProbe {
    /// Its metadata could not be read (the message of the error).
    Missing(String),
    /// It is larger than `MAX_ATTACHMENT_SIZE` (its size in bytes); it was not read.
    TooLarge(u64),
    /// Its contents.
    Read(Vec<u8>),
    /// It could not be read (the message of the error).
    Unreadable(String),
}

/// Whether a file of `size` bytes is small enough to be embedded.
pub fn attachment_needs_read(size: u64) -> (r: bool)
    ensures
        r == (size <= MAX_ATTACHMENT_SIZE),
{
    size <= MAX_ATTACHMENT_SIZE
}

/// `n` divided by `d`, rounded to the nearest integer, ties to the even one.
pub open spec fn round_half_even(n: nat, d: nat) -> nat
    recommends
        d > 0,
{
    let q = n / d;
    let r = n % d;
    if 2 * r > d || (2 * r == d && q % 2 == 1) {
        q + 1
    } else {
        q
    }
}

/// A size in mebibytes with one decimal: what `format!("{:.1}", size as f64 / 1048576.0)`
/// prints for the sizes an `f64` holds exactly (below 2^53 bytes).
pub open spec fn megabytes_label(size: nat) -> Seq<char> {
    let tenths = round_half_even(10 * size, 1048576);
    decimal(tenths / 10) + "."@ + seq![digit_char(tenths % 10)]
}

/// The size label of `megabytes_label`, computed with integers.
pub fn megabytes(size: u64) -> (s: String)
    ensures
        s@ == megabytes_label(size as nat),
{
    let n: u128 = 10 * (size as u128);
    let q: u128 = n / 1048576;
    let r: u128 = n % 1048576;
    let tenths: u128 = if 2 * r > 1048576 || (2 * r == 1048576 && q % 2 == 1) {
        q + 1
    } else {
        q
    };
    assert(tenths == round_half_even(10 * size as nat, 1048576));
    assert(tenths <= 10 * (size as u128) + 1) by (nonlinear_arith)
        requires
            q == n / 1048576,
            tenths <= q + 1,
            n == 10 * (size as u128),
    ;
    assert(tenths / 10 <= size as u128) by (nonlinear_arith)
        requires
            tenths <= 10 * (size as u128) + 1,
    ;
    let whole: u64 = (tenths / 10) as u64;
    let mut v: Vec<char> = Vec::new();
    push_decimal(&mut v, whole);
    v.push('.');
    let d = (tenths % 10) as u64;
    let mut last: Vec<char> = Vec::new();
    push_decimal(&mut last, d);
    assert(last@ =~= seq![digit_char(d as nat)]);
    v.push(last[0]);
    proof {
        reveal_strlit(".");
        assert(whole as nat == (tenths / 10) as nat);
        assert(d as nat == (tenths % 10) as nat);
    }
    assert(v@ =~= megabytes_label(size as nat));
    string_of(v.as_slice())
}

pub struct AttachmentExportView {
    pub file_name: Seq<char>,
    pub file_type: Seq<char>,
    pub mime_type: Seq<char>,
    pub data_base64: Option<Seq<char>>,
    pub skipped: bool,
    pub skip_reason: Option<Seq<char>>,
}

pub open spec fn attachment_export_view(a: AttachmentExport) -> AttachmentExportView {
    AttachmentExportView {
        file_name: a.file_name@,
        file_type: a.file_type@,
        mime_type: a.mime_type@,
        data_base64: opt_view(a.data_base64),
        skipped: a.skipped,
        skip_reason: opt_view(a.skip_reason),
    }
}

/// The view of a probe: the error message, size, or contents.
pub enum ProbeView {
    Missing(Seq<char>),
    TooLarge(nat),
    Read(Seq<u8>),
    Unreadable(Seq<char>),
}

pub open spec fn probe_view(p: AttachmentProbe) -> ProbeView {
    match p {
        AttachmentProbe::Missing(e) => ProbeView::Missing(e@),
        AttachmentProbe::TooLarge(n) => ProbeView::TooLarge(n as nat),
        AttachmentProbe::Read(b) => ProbeView::Read(b@),
        AttachmentProbe::Unreadable(e) => ProbeView::Unreadable(e@),
    }
}

/// An exported attachment: its name and types, and either its contents in base64 or why it
/// was skipped (not found, too large, or unreadable).
pub open spec fn exported_attachment(att: AttachmentView, probe: ProbeView) -> AttachmentExportView {
    let skipped_for = |reason: Seq<char>|
        AttachmentExportView {
            file_name: att.file_name,
            file_type: att.file_type,
            mime_type: att.mime_type,
            data_base64: None,
            skipped: true,
            skip_reason: Some(reason),
        };
    match probe {
        ProbeView::Missing(e) => skipped_for("File not found: "@ + e),
        ProbeView::TooLarge(n) => skipped_for(
            "File too large ("@ + megabytes_label(n) + "MB, max 10MB)"@,
        ),
        ProbeView::Read(b) => AttachmentExportView {
            file_name: att.file_name,
            file_type: att.file_type,
            mime_type: att.mime_type,
            data_base64: Some(base64_of(b)),
            skipped: false,
            skip_reason: None,
        },
        ProbeView::Unreadable(e) => skipped_for("Failed to read file: "@ + e),
    }
}

fn prefixed(prefix: &str, e: &str, suffix: &str) -> (r: String)
    ensures
        r@ == prefix@ + e@ + suffix@,
{
    let mut r = String::from_str(prefix);
    r.append(e);
    r.append(suffix);
    r
}

fn joined(prefix: &str, e: &str) -> (r: String)
    ensures
        r@ == prefix@ + e@,
{
    let mut r = String::from_str(prefix);
    r.append(e);
    r
}

fn skipped_export(att: &Attachment, reason: String) -> (r: AttachmentExport)
    ensures
        attachment_export_view(r) == (AttachmentExportView {
            file_name: att.file_name@,
            file_type: att.file_type@,
            mime_type: att.mime_type@,
            data_base64: None,
            skipped: true,
            skip_reason: Some(reason@),
        }),
{
    AttachmentExport {
        file_name: att.file_name.clone(),
        file_type: att.file_type.clone(),
        mime_type: att.mime_type.clone(),
        data_base64: None,
        skipped: true,
        skip_reason: Some(reason),
    }
}

/// Exports one attachment given what was found of its file.
pub fn attachment_export(att: &Attachment, probe: &AttachmentProbe) -> (r: AttachmentExport)
    ensures
        attachment_export_view(r) == exported_attachment(att@, probe_view(*probe)),
{
    match probe {
        AttachmentProbe::Missing(e) => skipped_export(att, joined("File not found: ", e.as_str())),
        AttachmentProbe::TooLarge(n) => skipped_export(
            att,
            prefixed("File too large (", megabytes(*n).as_str(), "MB, max 10MB)"),
        ),
        AttachmentProbe::Read(b) => AttachmentExport {
            file_name: att.file_name.clone(),
            file_type: att.file_type.clone(),
            mime_type: att.mime_type.clone(),
            data_base64: Some(encode_base64(b.as_slice())),
            skipped: false,
            skip_reason: None,
        },
        AttachmentProbe::Unreadable(e) => skipped_export(att, joined("Failed to read file: ", e.as_str())),
    }
}

pub struct MessageExportView {
    pub sender_type: Seq<char>,
    pub sender_bot_name: Option<Seq<char>>,
    pub content: Seq<char>,
    pub created_at: Seq<char>,
    pub attachments: Seq<AttachmentExportView>,
}

pub open spec fn message_export_view(m: MessageExport) -> MessageExportView {
    MessageExportView {
        sender_type: m.sender_type@,
        sender_bot_name: opt_view(m.sender_bot_name),
        content: m.content@,
        created_at: m.created_at@,
        attachments: m.attachments@.map_values(|a: AttachmentExport| attachment_export_view(a)),
    }
}

/// The name exported for a message's sender: the first of the topic's bots with the sender's
/// identifier; none for a human message or a bot no longer in the topic.
pub open spec fn exported_sender_name(sender: Option<Seq<char>>, topic_bots: Seq<BotView>) -> Option<Seq<char>> {
    match sender {
        Some(id) => match first_bot_with_id(topic_bots, id) {
            Some(b) => Some(b.name),
            None => None,
        },
        None => None,
    }
}

fn sender_name_in(topic_bots: &[Bot], sender: &Option<String>) -> (r: Option<String>)
    ensures
        opt_view(r) == exported_sender_name(opt_view(*sender), bot_views(topic_bots@)),
{
    match sender {
        None => None,
        Some(id) => match first_bot_name(topic_bots, &chars_of(id.as_str())) {
            Some(name) => Some(string_of(name.as_slice())),
            None => None,
        },
    }
}

/// The views of what was found of each attachment's file.
pub open spec fn probe_views(ps: Seq<AttachmentProbe>) -> Seq<ProbeView> {
    ps.map_values(|p: AttachmentProbe| probe_view(p))
}

/// An exported message: its sender's kind and, for a bot, the name of the first of the topic's
/// bots with the sender's identifier; its content and time; each attachment exported from what
/// was found of its file.
pub open spec fn exported_message(m: MessageView, topic_bots: Seq<BotView>, probes: Seq<ProbeView>) -> MessageExportView {
    MessageExportView {
        sender_type: m.sender_type,
        sender_bot_name: exported_sender_name(m.sender_bot_id, topic_bots),
        content: m.content,
        created_at: m.created_at,
        attachments: Seq::new(
            m.attachments.len(),
            |j: int| exported_attachment(m.attachments[j], probes[j]),
        ),
    }
}

/// Exports one message, given what was found of the file of each of its attachments.
pub fn message_export(msg: &Message, topic_bots: &[Bot], probes: &Vec<AttachmentProbe>) -> (r: MessageExport)
    requires
        probes@.len() == msg.attachments@.len(),
    ensures
        message_export_view(r) == exported_message(msg@, bot_views(topic_bots@), probe_views(probes@)),
{
    let ghost pv = probe_views(probes@);
    let mut atts: Vec<AttachmentExport> = Vec::new();
    let mut j: usize = 0;
    while j < msg.attachments.len()
        invariant
            j <= msg.attachments@.len(),
            probes@.len() == msg.attachments@.len(),
            pv == probe_views(probes@),
            atts@.len() == j,
            forall|k: int|
                0 <= k < j ==> attachment_export_view(#[trigger] atts@[k]) == exported_attachment(
                    msg@.attachments[k],
                    pv[k],
                ),
        decreases msg.attachments.len() - j,
    {
        atts.push(attachment_export(&msg.attachments[j], &probes[j]));
        j += 1;
    }
    let r = MessageExport {
        sender_type: msg.sender_type.clone(),
        sender_bot_name: sender_name_in(topic_bots, &msg.sender_bot_id),
        content: msg.content.clone(),
        created_at: msg.created_at.clone(),
        attachments: atts,
    };
    assert(message_export_view(r).attachments =~= exported_message(
        msg@,
        bot_views(topic_bots@),
        pv,
    ).attachments);
    r
}

/// The export of a topic, given its exported messages and the export time: the format marker
/// and version, the topic's title and creation time, and what is exported of each of its bots.
pub fn topic_export(topic: &Topic, messages: Vec<MessageExport>, exported_at: String) -> (r: TopicExport)
    ensures
        r.format@ == EXPORT_FORMAT@,
        r.version == EXPORT_VERSION,
        r.exported_at@ == exported_at@,
        r.topic.title@ == topic.title@,
        r.topic.created_at@ == topic.created_at@,
        r.bots@.len() == topic.bots@.len(),
        forall|i: int|
            0 <= i < r.bots@.len() ==> {
                &&& (#[trigger] r.bots@[i]).name@ == topic.bots@[i].name@
                &&& r.bots@[i].avatar_color@ == topic.bots@[i].avatar_color@
                &&& r.bots@[i].model@ == topic.bots@[i].model@
                &&& r.bots@[i].system_prompt@ == topic.bots@[i].system_prompt@
                &&& r.bots@[i].supports_vision == topic.bots@[i].supports_vision
            },
        r.messages@ == messages@,
{
    let mut bots: Vec<BotExportMeta> = Vec::new();
    let mut i: usize = 0;
    while i < topic.bots.len()
        invariant
            i <= topic.bots@.len(),
            bots@.len() == i,
            forall|k: int|
                0 <= k < i ==> {
                    &&& (#[trigger] bots@[k]).name@ == topic.bots@[k].name@
                    &&& bots@[k].avatar_color@ == topic.bots@[k].avatar_color@
                    &&& bots@[k].model@ == topic.bots@[k].model@
                    &&& bots@[k].system_prompt@ == topic.bots@[k].system_prompt@
                    &&& bots@[k].supports_vision == topic.bots@[k].supports_vision
                },
        decreases topic.bots.len() - i,
    {
        bots.push(bot_export_meta(&topic.bots[i]));
        i += 1;
    }
    TopicExport {
        format: String::from_str(EXPORT_FORMAT),
        version: EXPORT_VERSION,
        exported_at,
        topic: TopicMeta { title: topic.title.clone(), created_at: topic.created_at.clone() },
        bots,
        messages,
    }
}

/// Whether `p` is what looking at the file at `path` found, given what `file_size` and
/// `read_file` may answer for that path: the size's error; a size over `MAX_ATTACHMENT_SIZE`;
/// or, for a size within it, the contents or the error of reading them.
pub open spec fn probed<S, R>(path: String, file_size: S, read_file: R, p: AttachmentProbe) -> bool
    where
        S: Fn(String) -> Result<u64, String>,
        R: Fn(String) -> Result<Vec<u8>, String>,
{
    match p {
        AttachmentProbe::Missing(e) => file_size.ensures((path,), Err::<u64, String>(e)),
        AttachmentProbe::TooLarge(n) => file_size.ensures((path,), Ok::<u64, String>(n)) && n
            > MAX_ATTACHMENT_SIZE,
        AttachmentProbe::Read(b) => exists|n: u64|
            #![trigger file_size.ensures((path,), Ok::<u64, String>(n))]
            file_size.ensures((path,), Ok::<u64, String>(n)) && n <= MAX_ATTACHMENT_SIZE
                && read_file.ensures((path,), Ok::<Vec<u8>, String>(b)),
        AttachmentProbe::Unreadable(e) => exists|n: u64|
            #![trigger file_size.ensures((path,), Ok::<u64, String>(n))]
            file_size.ensures((path,), Ok::<u64, String>(n)) && n <= MAX_ATTACHMENT_SIZE
                && read_file.ensures((path,), Err::<Vec<u8>, String>(e)),
    }
}

/// Looks at an attachment's file for export: its size first, its contents only when it is
/// small enough to embed.
pub fn probe_attachment<S, R>(path: &String, file_size: &S, read_file: &R) -> (p: AttachmentProbe)
    where
        S: Fn(String) -> Result<u64, String>,
        R: Fn(String) -> Result<Vec<u8>, String>,
    requires
        forall|s: String| file_size.requires((s,)),
        forall|s: String| read_file.requires((s,)),
    ensures
        probed(*path, *file_size, *read_file, p),
{
    match file_size(path.clone()) {
        Err(e) => AttachmentProbe::Missing(e),
        Ok(n) => if attachment_needs_read(n) {
            match read_file(path.clone()) {
                Ok(b) => AttachmentProbe::Read(b),
                Err(e) => AttachmentProbe::Unreadable(e),
            }
        } else {
            AttachmentProbe::TooLarge(n)
        },
    }
}

/// The export of a topic with its messages (in order), given what was found of the file of
/// each attachment (`probes[i][j]` for attachment `j` of message `i`) and the export time.
pub fn export_topic_data(
    topic: &Topic,
    messages: &Vec<Message>,
    probes: &Vec<Vec<AttachmentProbe>>,
    exported_at: String,
) -> (r: TopicExport)
    requires
        probes@.len() == messages@.len(),
        forall|i: int| 0 <= i < messages@.len() ==> (#[trigger] probes@[i])@.len() == messages@[i].attachments@.len(),
    ensures
        r.format@ == EXPORT_FORMAT@,
        r.version == EXPORT_VERSION,
        r.exported_at@ == exported_at@,
        r.topic.title@ == topic.title@,
        r.topic.created_at@ == topic.created_at@,
        r.bots@.len() == topic.bots@.len(),
        forall|i: int|
            0 <= i < r.bots@.len() ==> {
                &&& (#[trigger] r.bots@[i]).name@ == topic.bots@[i].name@
                &&& r.bots@[i].avatar_color@ == topic.bots@[i].avatar_color@
                &&& r.bots@[i].model@ == topic.bots@[i].model@
                &&& r.bots@[i].system_prompt@ == topic.bots@[i].system_prompt@
                &&& r.bots@[i].supports_vision == topic.bots@[i].supports_vision
            },
        r.messages@.len() == messages@.len(),
        forall|i: int|
            0 <= i < messages@.len() ==> message_export_view(#[trigger] r.messages@[i])
                == exported_message(messages@[i]@, bot_views(topic.bots@), probe_views(probes@[i]@)),
{
    let mut exported: Vec<MessageExport> = Vec::new();
    let mut i: usize = 0;
    while i < messages.len()
        invariant
            i <= messages@.len(),
            probes@.len() == messages@.len(),
            forall|k: int| 0 <= k < messages@.len() ==> (#[trigger] probes@[k])@.len() == messages@[k].attachments@.len(),
            exported@.len() == i,
            forall|k: int|
                0 <= k < i ==> message_export_view(#[trigger] exported@[k]) == exported_message(
                    messages@[k]@,
                    bot_views(topic.bots@),
                    probe_views(probes@[k]@),
                ),
        decreases messages.len() - i,
    {
        assert(probes@[i as int]@.len() == messages@[i as int].attachments@.len());
        exported.push(message_export(&messages[i], topic.bots.as_slice(), &probes[i]));
        i += 1;
    }
    topic_export(topic, exported, exported_at)
}

/// Whether `e` is the export of `topic` and its `messages` (in order), each attachment
/// exported from what `file_size` and `read_file` found of its file (`probes[i][j]` for
/// attachment `j` of message `i`).
pub open spec fn export_reflects<S, R>(
    e: TopicExport,
    topic: Topic,
    messages: Seq<Message>,
    probes: Seq<Vec<AttachmentProbe>>,
    file_size: S,
    read_file: R,
) -> bool
    where
        S: Fn(String) -> Result<u64, String>,
        R: Fn(String) -> Result<Vec<u8>, String>,
{
    &&& probes.len() == messages.len()
    &&& forall|i: int| 0 <= i < messages.len() ==> (#[trigger] probes[i])@.len() == messages[i].attachments@.len()
    &&& forall|i: int, j: int|
        0 <= i < messages.len() && 0 <= j < messages[i].attachments@.len() ==> probed(
            messages[i].attachments@[j].file_path,
            file_size,
            read_file,
            #[trigger] probes[i]@[j],
        )
    &&& e.format@ == EXPORT_FORMAT@
    &&& e.version == EXPORT_VERSION
    &&& e.topic.title@ == topic.title@
    &&& e.topic.created_at@ == topic.created_at@
    &&& e.bots@.len() == topic.bots@.len()
    &&& forall|i: int|
        0 <= i < e.bots@.len() ==> {
            &&& (#[trigger] e.bots@[i]).name@ == topic.bots@[i].name@
            &&& e.bots@[i].avatar_color@ == topic.bots@[i].avatar_color@
            &&& e.bots@[i].model@ == topic.bots@[i].model@
            &&& e.bots@[i].system_prompt@ == topic.bots@[i].system_prompt@
            &&& e.bots@[i].supports_vision == topic.bots@[i].supports_vision
        }
    &&& e.messages@.len() == messages.len()
    &&& forall|i: int|
        0 <= i < messages.len() ==> message_export_view(#[trigger] e.messages@[i])
            == exported_message(messages[i]@, bot_views(topic.bots@), probe_views(probes[i]@))
}

/// The calls of exporting topic `topic_id`, and its result: the topic is read by identifier
/// (`get_topic_calls`, which gives "Topic not found: ..." when there is none), then its
/// messages (`list_messages_calls`); the first failure ends it with its error; otherwise the
/// export reflects the topic and the messages read.
pub open spec fn export_calls<S, R>(
    topic_id: Seq<char>,
    s: Seq<SqlCall>,
    r: Result<TopicExport, String>,
    file_size: S,
    read_file: R,
) -> bool
    where
        S: Fn(String) -> Result<u64, String>,
        R: Fn(String) -> Result<Vec<u8>, String>,
{
    exists|k: int, tr: Result<TopicView, Seq<char>>|
        #![trigger get_topic_calls(topic_id, s.subrange(0, k), tr)]
        {
            &&& 1 <= k <= s.len()
            &&& get_topic_calls(topic_id, s.subrange(0, k), tr)
            &&& match tr {
                Err(m) => k == s.len() && (r matches Err(x) && x@ == m),
                Ok(tv) => exists|mr: Result<Seq<MessageView>, Seq<char>>|
                    #![trigger list_messages_calls(topic_id, s.subrange(k, s.len() as int), mr)]
                    {
                        &&& list_messages_calls(topic_id, s.subrange(k, s.len() as int), mr)
                        &&& match mr {
                            Err(m) => (r matches Err(x) && x@ == m),
                            Ok(ms) => (r matches Ok(e) && exists|topic: Topic, messages: Seq<Message>, probes: Seq<Vec<AttachmentProbe>>|
                                #![trigger export_reflects(e, topic, messages, probes, file_size, read_file)]
                                {
                                    &&& topic@ == tv
                                    &&& messages.map_values(|x: Message| x@) == ms
                                    &&& export_reflects(e, topic, messages, probes, file_size, read_file)
                                }),
                        }
                    },
            }
        }
}

/// Exports a stored topic with its messages. `file_size` and `read_file` look at an
/// attachment's file by path (the size in bytes, the contents, or the message of the error);
/// the export is `export_topic_data` of the stored topic, its messages, what was found of each
/// file, and the current time.
#[verifier::loop_isolation(false)]
pub fn db_export_topic<S, R>(db: &mut Db, topic_id: &str, file_size: S, read_file: R) -> (r: Result<TopicExport, String>)
    where
        S: Fn(String) -> Result<u64, String>,
        R: Fn(String) -> Result<Vec<u8>, String>,
    requires
        forall|s: String| file_size.requires((s,)),
        forall|s: String| read_file.requires((s,)),
    ensures
        extends(old(db).calls(), final(db).calls()),
        export_calls(topic_id@, calls_since(old(db).calls(), final(db).calls()), r, file_size, read_file),
        r matches Ok(e) ==> e.format@ == EXPORT_FORMAT@ && e.version == EXPORT_VERSION,
{
    let ghost before = db.calls();
    let found = db_get_topic(db, topic_id);
    let ghost a0 = db.calls();
    let ghost k: int = calls_since(before, a0).len() as int;
    let ghost tr = topic_result(found);
    assert(calls_since(before, a0).subrange(0, k) =~= calls_since(before, a0));
    let topic = match found {
        Ok(t) => t,
        Err(e) => {
            let r: Result<TopicExport, String> = Err(e);
            assert(get_topic_calls(topic_id@, calls_since(before, a0).subrange(0, k), tr));
            return r;
        },
    };
    let listed = db_list_messages(db, topic_id);
    proof {
        crate::db::lemma_calls_since_chain(before, a0, db.calls());
    }
    let ghost s = calls_since(before, db.calls());
    let ghost mr = messages_result(listed);
    assert(s.subrange(0, k) =~= calls_since(before, a0));
    assert(s.subrange(k, s.len() as int) =~= calls_since(a0, db.calls()));
    assert(get_topic_calls(topic_id@, s.subrange(0, k), tr));
    assert(list_messages_calls(topic_id@, s.subrange(k, s.len() as int), mr));
    let messages = match listed {
        Ok(m) => m,
        Err(e) => {
            let r: Result<TopicExport, String> = Err(e);
            return r;
        },
    };
    let mut probes: Vec<Vec<AttachmentProbe>> = Vec::new();
    let mut i: usize = 0;
    while i < messages.len()
        invariant
            i <= messages@.len(),
            probes@.len() == i,
            forall|k: int| 0 <= k < i ==> (#[trigger] probes@[k])@.len() == messages@[k].attachments@.len(),
            forall|k: int, j: int|
                0 <= k < i && 0 <= j < messages@[k].attachments@.len() ==> probed(
                    messages@[k].attachments@[j].file_path,
                    file_size,
                    read_file,
                    #[trigger] probes@[k]@[j],
                ),
            forall|s: String| file_size.requires((s,)),
            forall|s: String| read_file.requires((s,)),
        decreases messages.len() - i,
    {
        let msg = &messages[i];
        let mut ps: Vec<AttachmentProbe> = Vec::new();
        let mut j: usize = 0;
        while j < msg.attachments.len()
            invariant
                j <= msg.attachments@.len(),
                ps@.len() == j,
                forall|t: int|
                    0 <= t < j ==> probed(
                        msg.attachments@[t].file_path,
                        file_size,
                        read_file,
                        #[trigger] ps@[t],
                    ),
                forall|s: String| file_size.requires((s,)),
                forall|s: String| read_file.requires((s,)),
            decreases msg.attachments.len() - j,
        {
            ps.push(probe_attachment(&msg.attachments[j].file_path, &file_size, &read_file));
            j += 1;
        }
        probes.push(ps);
        i += 1;
    }
    let e = export_topic_data(&topic, &messages, &probes, now_rfc3339());
    assert(export_reflects(e, topic, messages@, probes@, file_size, read_file));
    let r: Result<TopicExport, String> = Ok(e);
    assert(r matches Ok(x) && x == e);
    r
}

// ---------------------------------------------------------------------------
// Import
// ---------------------------------------------------------------------------

/// Why an export is refused, if it is: it must be of this format and of version 1.
pub open spec fn import_error(format: Seq<char>, version: u32) -> Option<Seq<char>> {
    if format != EXPORT_FORMAT@ {
        Some("Invalid format: expected 'ai-group-chat-export', got '"@ + format + "'"@)
    } else if version != EXPORT_VERSION {
        Some("Unsupported version: "@ + decimal(version as nat))
    } else {
        None
    }
}

/// Checks the format marker and version of an export.
pub fn validate_import(data: &TopicExport) -> (r: Result<(), String>)
    ensures
        match import_error(data.format@, data.version) {
            Some(e) => (r matches Err(m) && m@ == e),
            None => r is Ok,
        },
{
    if !chars_eq(&chars_of(data.format.as_str()), &chars_of(EXPORT_FORMAT)) {
        return Err(prefixed("Invalid format: expected 'ai-group-chat-export', got '", data.format.as_str(), "'"));
    }
    if data.version != EXPORT_VERSION {
        return Err(joined("Unsupported version: ", decimal_string(data.version as u64).as_str()));
    }
    Ok(())
}

/// The title of an imported topic: the exported one and ` (imported)`.
pub fn imported_title(title: &str) -> (r: String)
    ensures
        r@ == title@ + " (imported)"@,
{
    let mut r = String::from_str(title);
    r.append(" (imported)");
    r
}

/// The local bot an exported name stands for: of the local bots with that name, the last one
/// (names are looked up in a map filled in order, where a later bot replaces an earlier one).
pub open spec fn local_bot_id(local: Seq<BotView>, name: Seq<char>) -> Option<Seq<char>>
    decreases local.len(),
{
    if local.len() == 0 {
        None
    } else if local.last().name == name {
        Some(local.last().id)
    } else {
        local_bot_id(local.drop_last(), name)
    }
}

/// Finds the local bot for an exported bot name.
pub fn bot_id_for_name(local_bots: &[Bot], name: &str) -> (r: Option<String>)
    ensures
        opt_view(r) == local_bot_id(bot_views(local_bots@), name@),
{
    let ghost lv = bot_views(local_bots@);
    let n = chars_of(name);
    let mut i = local_bots.len();
    assert(lv.take(lv.len() as int) =~= lv);
    while i > 0
        invariant
            i <= local_bots@.len(),
            lv == bot_views(local_bots@),
            n@ == name@,
            local_bot_id(lv, name@) == local_bot_id(lv.take(i as int), name@),
        decreases i,
    {
        assert(lv.take(i as int).last() == local_bots@[i - 1]@);
        assert(lv.take(i as int).drop_last() =~= lv.take(i - 1));
        if chars_eq(&chars_of(local_bots[i - 1].name.as_str()), &n) {
            return Some(local_bots[i - 1].id.clone());
        }
        i -= 1;
    }
    None
}

/// The local bots an exported name list matches, in the order of the export, each once.
pub open spec fn matched_ids(local: Seq<BotView>, names: Seq<Seq<char>>) -> Seq<Seq<char>> {
    dedup(found_ids(local, names))
}

/// The local bots the names stand for, skipping names without one.
pub open spec fn found_ids(local: Seq<BotView>, names: Seq<Seq<char>>) -> Seq<Seq<char>>
    decreases names.len(),
{
    if names.len() == 0 {
        Seq::empty()
    } else {
        let r = found_ids(local, names.drop_last());
        match local_bot_id(local, names.last()) {
            Some(id) => r.push(id),
            None => r,
        }
    }
}

pub open spec fn export_names(bots: Seq<BotExportMeta>) -> Seq<Seq<char>> {
    bots.map_values(|b: BotExportMeta| b.name@)
}

fn list_has(list: &Vec<String>, x: &Vec<char>) -> (r: bool)
    ensures
        r == views(list@).contains(x@),
{
    let mut i: usize = 0;
    while i < list.len()
        invariant
            i <= list.len(),
            forall|j: int| 0 <= j < i ==> list@[j]@ != x@,
        decreases list.len() - i,
    {
        if chars_eq(&chars_of(list[i].as_str()), x) {
            assert(views(list@)[i as int] == x@);
            return true;
        }
        i += 1;
    }
    assert forall|j: int| 0 <= j < views(list@).len() implies views(list@)[j] != x@ by {
        assert(views(list@)[j] == list@[j]@);
    }
    false
}

/// The local bots to link to an imported topic: those whose names the export lists.
pub fn matched_bot_ids(local_bots: &[Bot], exported: &Vec<BotExportMeta>) -> (ids: Vec<String>)
    ensures
        views(ids@) == matched_ids(bot_views(local_bots@), export_names(exported@)),
{
    let ghost names = export_names(exported@);
    let ghost lv = bot_views(local_bots@);
    let mut ids: Vec<String> = Vec::new();
    let mut i: usize = 0;
    while i < exported.len()
        invariant
            i <= exported@.len(),
            names == export_names(exported@),
            lv == bot_views(local_bots@),
            views(ids@) == dedup(found_ids(lv, names.take(i as int))),
        decreases exported.len() - i,
    {
        assert(names.take(i + 1).drop_last() =~= names.take(i as int));
        assert(names.take(i + 1).last() == exported@[i as int].name@);
        let ghost prev = found_ids(lv, names.take(i as int));
        let ghost next = found_ids(lv, names.take(i + 1));
        match bot_id_for_name(local_bots, exported[i].name.as_str()) {
            Some(id) => {
                assert(next == prev.push(id@));
                assert(next.drop_last() =~= prev);
                let c = chars_of(id.as_str());
                if !list_has(&ids, &c) {
                    let ghost before = ids@;
                    ids.push(id);
                    assert(views(ids@) =~= views(before).push(c@));
                }
            },
            None => {
                assert(next == prev);
            },
        }
        i += 1;
    }
    assert(names.take(exported@.len() as int) =~= names);
    ids
}

/// The local bot for a message's exported sender name, if any.
pub fn sender_bot_id(local_bots: &[Bot], sender_bot_name: &Option<String>) -> (r: Option<String>)
    ensures
        opt_view(r) == match opt_view(*sender_bot_name) {
            Some(n) => local_bot_id(bot_views(local_bots@), n),
            None => None,
        },
{
    match sender_bot_name {
        Some(n) => bot_id_for_name(local_bots, n.as_str()),
        None => None,
    }
}

/// What an exported attachment gives on import: nothing when it was skipped or holds no data;
/// otherwise its decoded bytes, or an error when they are not valid base64.
pub open spec fn imported_attachment(
    skipped: bool,
    data: Option<Seq<char>>,
) -> Result<Option<Seq<u8>>, Seq<char>> {
    if skipped {
        Ok(None)
    } else {
        match data {
            Some(text) => match base64_decoded(text) {
                Ok(b) => Ok(Some(b)),
                Err(e) => Err("Failed to decode base64 attachment: "@ + e),
            },
            None => Ok(None),
        }
    }
}

/// Decodes an exported attachment for import.
pub fn attachment_to_import(att: &AttachmentExport) -> (r: Result<Option<Vec<u8>>, String>)
    ensures
        match (r, imported_attachment(att.skipped, opt_view(att.data_base64))) {
            (Ok(Some(a)), Ok(Some(b))) => a@ == b,
            (Ok(None), Ok(None)) => true,
            (Err(a), Err(b)) => a@ == b,
            _ => false,
        },
        forall|x: Seq<u8>|
            !att.skipped && opt_view(att.data_base64) == Some(base64_of(x)) ==> (r matches Ok(
                Some(b),
            ) && b@ == x),
{
    if att.skipped {
        return Ok(None);
    }
    match &att.data_base64 {
        Some(text) => match decode_base64(text.as_str()) {
            Ok(b) => Ok(Some(b)),
            Err(e) => Err(joined("Failed to decode base64 attachment: ", e.as_str())),
        },
        None => Ok(None),
    }
}

/// An attachment to import: its name and MIME type, and its bytes (none when it was skipped or
/// holds no data), or the error that decoding them gave.
pub struct ImportedAttachment {
    pub file_name: String,
    pub mime_type: String,
    pub data: Result<Option<Vec<u8>>, String>,
}

/// A message to import, its sender matched to a local bot by name.
pub struct ImportedMessage {
    pub sender_type: String,
    pub sender_bot_id: Option<String>,
    pub content: String,
    pub created_at: String,
    pub attachments: Vec<ImportedAttachment>,
}

/// What importing an export stores, once its topic exists: the local bots to link and the
/// messages in order.
pub struct ImportPlan {
    pub bot_ids: Vec<String>,
    pub messages: Vec<ImportedMessage>,
}

pub struct ImportedAttachmentView {
    pub file_name: Seq<char>,
    pub mime_type: Seq<char>,
    pub data: Result<Option<Seq<u8>>, Seq<char>>,
}

pub struct ImportedMessageView {
    pub sender_type: Seq<char>,
    pub sender_bot_id: Option<Seq<char>>,
    pub content: Seq<char>,
    pub created_at: Seq<char>,
    pub attachments: Seq<ImportedAttachmentView>,
}

pub open spec fn imported_attachment_view(a: ImportedAttachment) -> ImportedAttachmentView {
    ImportedAttachmentView {
        file_name: a.file_name@,
        mime_type: a.mime_type@,
        data: match a.data {
            Ok(Some(b)) => Ok(Some(b@)),
            Ok(None) => Ok(None),
            Err(e) => Err(e@),
        },
    }
}

pub open spec fn imported_message_view(m: ImportedMessage) -> ImportedMessageView {
    ImportedMessageView {
        sender_type: m.sender_type@,
        sender_bot_id: opt_view(m.sender_bot_id),
        content: m.content@,
        created_at: m.created_at@,
        attachments: m.attachments@.map_values(|a: ImportedAttachment| imported_attachment_view(a)),
    }
}

/// What is imported of an exported attachment.
pub open spec fn planned_attachment(a: AttachmentExportView) -> ImportedAttachmentView {
    ImportedAttachmentView {
        file_name: a.file_name,
        mime_type: a.mime_type,
        data: imported_attachment(a.skipped, a.data_base64),
    }
}

/// What is imported of an exported message, given the local bots.
pub open spec fn planned_message(m: MessageExportView, local: Seq<BotView>) -> ImportedMessageView {
    ImportedMessageView {
        sender_type: m.sender_type,
        sender_bot_id: match m.sender_bot_name {
            Some(n) => local_bot_id(local, n),
            None => None,
        },
        content: m.content,
        created_at: m.created_at,
        attachments: m.attachments.map_values(|a: AttachmentExportView| planned_attachment(a)),
    }
}

fn plan_attachment(a: &AttachmentExport) -> (r: ImportedAttachment)
    ensures
        imported_attachment_view(r) == planned_attachment(attachment_export_view(*a)),
        forall|x: Seq<u8>|
            !a.skipped && opt_view(a.data_base64) == Some(base64_of(x)) ==> imported_attachment_view(
                r,
            ).data == Ok::<Option<Seq<u8>>, Seq<char>>(Some(x)),
{
    ImportedAttachment {
        file_name: a.file_name.clone(),
        mime_type: a.mime_type.clone(),
        data: attachment_to_import(a),
    }
}

/// Whether importing `a` gives back `x`, when `a` carries the encoding of `x`.
pub open spec fn gives_back(a: AttachmentExport, imported: ImportedAttachment, x: Seq<u8>) -> bool {
    !a.skipped && opt_view(a.data_base64) == Some(base64_of(x)) ==> imported_attachment_view(
        imported,
    ).data == Ok::<Option<Seq<u8>>, Seq<char>>(Some(x))
}

fn plan_message(m: &MessageExport, local_bots: &[Bot]) -> (r: ImportedMessage)
    ensures
        imported_message_view(r) == planned_message(message_export_view(*m), bot_views(local_bots@)),
        r.attachments@.len() == m.attachments@.len(),
        forall|j: int, x: Seq<u8>|
            0 <= j < m.attachments@.len() ==> #[trigger] gives_back(m.attachments@[j], r.attachments@[j], x),
{
    let mut atts: Vec<ImportedAttachment> = Vec::new();
    let mut j: usize = 0;
    while j < m.attachments.len()
        invariant
            j <= m.attachments@.len(),
            atts@.len() == j,
            forall|k: int|
                0 <= k < j ==> imported_attachment_view(#[trigger] atts@[k]) == planned_attachment(
                    attachment_export_view(m.attachments@[k]),
                ),
            forall|k: int, x: Seq<u8>| 0 <= k < j ==> #[trigger] gives_back(m.attachments@[k], atts@[k], x),
        decreases m.attachments.len() - j,
    {
        atts.push(plan_attachment(&m.attachments[j]));
        j += 1;
    }
    let r = ImportedMessage {
        sender_type: m.sender_type.clone(),
        sender_bot_id: sender_bot_id(local_bots, &m.sender_bot_name),
        content: m.content.clone(),
        created_at: m.created_at.clone(),
        attachments: atts,
    };
    assert(imported_message_view(r).attachments =~= planned_message(
        message_export_view(*m),
        bot_views(local_bots@),
    ).attachments);
    r
}

/// What importing `data` stores once its topic exists, given the local bots: the bots whose
/// names the export lists (see `matched_ids`) and each message as `planned_message` says.
pub fn import_plan(data: &TopicExport, local_bots: &[Bot]) -> (p: ImportPlan)
    ensures
        views(p.bot_ids@) == matched_ids(bot_views(local_bots@), export_names(data.bots@)),
        p.messages@.len() == data.messages@.len(),
        forall|i: int|
            0 <= i < data.messages@.len() ==> imported_message_view(#[trigger] p.messages@[i])
                == planned_message(message_export_view(data.messages@[i]), bot_views(local_bots@)),
        forall|i: int, j: int, x: Seq<u8>|
            0 <= i < data.messages@.len() && 0 <= j < data.messages@[i].attachments@.len()
                ==> #[trigger] gives_back(
                data.messages@[i].attachments@[j],
                p.messages@[i].attachments@[j],
                x,
            ),
{
    let bot_ids = matched_bot_ids(local_bots, &data.bots);
    let mut messages: Vec<ImportedMessage> = Vec::new();
    let mut k: usize = 0;
    while k < data.messages.len()
        invariant
            k <= data.messages@.len(),
            messages@.len() == k,
            forall|i: int|
                0 <= i < k ==> imported_message_view(#[trigger] messages@[i]) == planned_message(
                    message_export_view(data.messages@[i]),
                    bot_views(local_bots@),
                ),
            forall|i: int, j: int, x: Seq<u8>|
                0 <= i < k && 0 <= j < data.messages@[i].attachments@.len() ==> #[trigger] gives_back(
                    data.messages@[i].attachments@[j],
                    messages@[i].attachments@[j],
                    x,
                ),
        decreases data.messages.len() - k,
    {
        messages.push(plan_message(&data.messages[k], local_bots));
        k += 1;
    }
    ImportPlan { bot_ids, messages }
}

/// Whether `c` inserts the record of a new attachment of message `mid`, imported as `a`, whose
/// `bytes` `store_file` was handed (under the attachment's stored name) and stored.
pub open spec fn saves_attachment<W>(mid: Seq<char>, a: ImportedAttachmentView, bytes: Seq<u8>, c: SqlCall, store_file: W) -> bool
    where
        W: Fn(String, Vec<u8>) -> Result<String, String>,
{
    exists|av: AttachmentView, n: String, d: Vec<u8>, path: String|
        #![trigger new_attachment(av, mid, a.file_name, a.mime_type), store_file.ensures((n, d), Ok::<String, String>(path))]
        {
            &&& new_attachment(av, mid, a.file_name, a.mime_type)
            &&& d@ == bytes
            &&& n@ == stored_name(av.id, a.file_name)
            &&& path@ == av.file_path
            &&& store_file.ensures((n, d), Ok::<String, String>(path))
            &&& c == done_call(INSERT_ATTACHMENT_SQL@, attachment_params(av), Ok(()))
        }
}

/// Whether `c` saves, in order, the attachments of `atts` that carry data, each as an
/// attachment of message `mid`.
pub open spec fn atts_saved<W>(mid: Seq<char>, atts: Seq<ImportedAttachmentView>, c: Seq<SqlCall>, store_file: W) -> bool
    where
        W: Fn(String, Vec<u8>) -> Result<String, String>,
    decreases atts.len(),
{
    if atts.len() == 0 {
        c.len() == 0
    } else {
        match atts.last().data {
            Ok(Some(bytes)) => {
                &&& c.len() >= 1
                &&& saves_attachment(mid, atts.last(), bytes, c.last(), store_file)
                &&& atts_saved(mid, atts.drop_last(), c.drop_last(), store_file)
            },
            _ => atts_saved(mid, atts.drop_last(), c, store_file),
        }
    }
}

/// Whether `c` is a failed attempt, with error `e`, to save attachment `a` of message `mid`,
/// carrying `bytes`: either `store_file`, handed the bytes under the attachment's stored name,
/// refused them (and no call was made), or the insertion of the record failed.
pub open spec fn attachment_failed<W>(mid: Seq<char>, a: ImportedAttachmentView, bytes: Seq<u8>, c: Seq<SqlCall>, e: Seq<char>, store_file: W) -> bool
    where
        W: Fn(String, Vec<u8>) -> Result<String, String>,
{
    ||| {
        &&& c.len() == 0
        &&& exists|n: String, d: Vec<u8>, id: Seq<char>, es: String|
            #![trigger store_file.ensures((n, d), Err::<String, String>(es)), stored_name(id, a.file_name)]
            {
                &&& id.len() == 36
                &&& n@ == stored_name(id, a.file_name)
                &&& d@ == bytes
                &&& es@ == e
                &&& store_file.ensures((n, d), Err::<String, String>(es))
            }
    }
    ||| {
        &&& c.len() == 1
        &&& exists|av: AttachmentView, n: String, d: Vec<u8>, path: String|
            #![trigger new_attachment(av, mid, a.file_name, a.mime_type), store_file.ensures((n, d), Ok::<String, String>(path))]
            {
                &&& new_attachment(av, mid, a.file_name, a.mime_type)
                &&& d@ == bytes
                &&& n@ == stored_name(av.id, a.file_name)
                &&& path@ == av.file_path
                &&& store_file.ensures((n, d), Ok::<String, String>(path))
                &&& c[0] == done_call(INSERT_ATTACHMENT_SQL@, attachment_params(av), Err(e))
            }
    }
}

/// Whether `c` saves the attachments `atts` of message `mid` in order, with result `res`: on
/// success each that carries data is saved (`atts_saved`) and none failed to decode; on
/// failure, those before attachment `k` are saved and attachment `k` either failed to decode,
/// with that error and no call, or failed to save (`attachment_failed`).
pub open spec fn atts_attempt<W>(mid: Seq<char>, atts: Seq<ImportedAttachmentView>, c: Seq<SqlCall>, res: Result<(), Seq<char>>, store_file: W) -> bool
    where
        W: Fn(String, Vec<u8>) -> Result<String, String>,
{
    match res {
        Ok(_) => {
            &&& atts_saved(mid, atts, c, store_file)
            &&& forall|t: int| 0 <= t < atts.len() ==> (#[trigger] atts[t]).data is Ok
        },
        Err(e) => exists|k: int, j: int|
            #![trigger atts_saved(mid, atts.take(k), c.take(j), store_file)]
            {
                &&& 0 <= k < atts.len()
                &&& 0 <= j <= c.len()
                &&& atts_saved(mid, atts.take(k), c.take(j), store_file)
                &&& forall|t: int| 0 <= t < k ==> (#[trigger] atts[t]).data is Ok
                &&& match atts[k].data {
                    Err(m) => m == e && j == c.len(),
                    Ok(Some(bytes)) => attachment_failed(mid, atts[k], bytes, c.skip(j), e, store_file),
                    Ok(None) => false,
                }
            },
    }
}

/// Whether `c` is the storing of message `m` in topic `topic_id`, with result `res`: its row
/// is inserted under a fresh 36-character identifier; if that fails, with its error; else its
/// attachments follow (`atts_attempt`).
pub open spec fn message_attempt<W>(topic_id: Seq<char>, m: ImportedMessageView, c: Seq<SqlCall>, res: Result<(), Seq<char>>, store_file: W) -> bool
    where
        W: Fn(String, Vec<u8>) -> Result<String, String>,
{
    &&& c.len() >= 1
    &&& c[0].sql == INSERT_MESSAGE_SQL@
    &&& c[0].outcome is Done
    &&& exists|mid: Seq<char>|
        #![trigger message_insert_params(mid, topic_id, m.sender_type, m.sender_bot_id, m.content, m.created_at)]
        {
            &&& mid.len() == 36
            &&& c[0].params == message_insert_params(mid, topic_id, m.sender_type, m.sender_bot_id, m.content, m.created_at)
            &&& match result_of(c[0]) {
                Err(e) => c.len() == 1 && res == Err::<(), Seq<char>>(e),
                Ok(_) => atts_attempt(mid, m.attachments, c.drop_first(), res, store_file),
            }
        }
}

/// Whether `c` stores the messages `ms` in topic `topic_id` one after another, with result
/// `res`: the first ones are stored; on success all of them, on failure the next one fails
/// with that error (`message_attempt`) and nothing follows.
pub open spec fn messages_attempt<W>(topic_id: Seq<char>, ms: Seq<ImportedMessageView>, c: Seq<SqlCall>, res: Result<(), Seq<char>>, store_file: W) -> bool
    where
        W: Fn(String, Vec<u8>) -> Result<String, String>,
{
    exists|bounds: Seq<int>|
        #![trigger bounds.len(), bounds.last()]
        {
            &&& 1 <= bounds.len() <= ms.len() + 1
            &&& bounds[0] == 0
            &&& bounds.last() <= c.len()
            &&& forall|i: int| 0 <= i < bounds.len() - 1 ==> bounds[i] <= #[trigger] bounds[i + 1]
            &&& forall|i: int|
                0 <= i < bounds.len() - 1 ==> #[trigger] message_attempt(
                    topic_id,
                    ms[i],
                    c.subrange(bounds[i], bounds[i + 1]),
                    Ok(()),
                    store_file,
                )
            &&& match res {
                Ok(_) => bounds.len() == ms.len() + 1 && bounds.last() == c.len(),
                Err(e) => bounds.len() <= ms.len() && message_attempt(
                    topic_id,
                    ms[bounds.len() - 1],
                    c.skip(bounds.last()),
                    Err(e),
                    store_file,
                ),
            }
        }
}

/// The messages importing `data` stores, given the local bots.
pub open spec fn planned_messages(data: TopicExport, local: Seq<BotView>) -> Seq<ImportedMessageView> {
    data.messages@.map_values(|m: MessageExport| planned_message(message_export_view(m), local))
}

/// The calls of importing `data` once its topic `id` is stored and the local bots `local` are
/// read: the local bots whose names the export lists are linked (`matched_ids`), a failure
/// ending it with its error; then the planned messages are stored (`messages_attempt`), and
/// the import returns `id`, or the error that stopped it.
pub open spec fn import_rest<W>(id: Seq<char>, data: TopicExport, local: Seq<BotView>, s: Seq<SqlCall>, r: Result<String, String>, store_file: W) -> bool
    where
        W: Fn(String, Vec<u8>) -> Result<String, String>,
{
    exists|k: int, lr: Result<(), Seq<char>>|
        #![trigger links_made(id, matched_ids(local, export_names(data.bots@)), s.subrange(0, k), lr)]
        {
            &&& 0 <= k <= s.len()
            &&& links_made(id, matched_ids(local, export_names(data.bots@)), s.subrange(0, k), lr)
            &&& match lr {
                Err(m) => k == s.len() && (r matches Err(x) && x@ == m),
                Ok(_) => exists|res: Result<(), Seq<char>>|
                    #![trigger messages_attempt(id, planned_messages(data, local), s.subrange(k, s.len() as int), res, store_file)]
                    {
                        &&& messages_attempt(id, planned_messages(data, local), s.subrange(k, s.len() as int), res, store_file)
                        &&& match res {
                            Ok(_) => r matches Ok(x) && x@ == id,
                            Err(e) => r matches Err(x) && x@ == e,
                        }
                    },
            }
        }
}

/// The calls of importing `data`, and its result: an export of another format or version is
/// refused before any call; otherwise the topic is inserted under a fresh 36-character
/// identifier, titled "<title> (imported)", with the export's creation time; the local bots
/// are read; then `import_rest`. A failure of the insertion or the read ends it with its error.
pub open spec fn import_calls<W>(data: TopicExport, s: Seq<SqlCall>, r: Result<String, String>, store_file: W) -> bool
    where
        W: Fn(String, Vec<u8>) -> Result<String, String>,
{
    match import_error(data.format@, data.version) {
        Some(e) => s.len() == 0 && (r matches Err(m) && m@ == e),
        None => {
            &&& s.len() >= 1
            &&& s[0].sql == INSERT_TOPIC_SQL@
            &&& s[0].outcome is Done
            &&& exists|id: Seq<char>, now: Seq<char>|
                #![trigger topic_insert_params(id, data.topic.title@ + " (imported)"@, data.topic.created_at@, now)]
                {
                    &&& id.len() == 36
                    &&& s[0].params == topic_insert_params(id, data.topic.title@ + " (imported)"@, data.topic.created_at@, now)
                    &&& match result_of(s[0]) {
                        Err(m) => s.len() == 1 && (r matches Err(x) && x@ == m),
                        Ok(_) => {
                            &&& s.len() >= 2
                            &&& list_bots_calls(s.subrange(1, 2), bots_of_query(rows_of(s[1])))
                            &&& match bots_of_query(rows_of(s[1])) {
                                Err(m) => s.len() == 2 && (r matches Err(x) && x@ == m),
                                Ok(local) => import_rest(id, data, local, s.subrange(2, s.len() as int), r, store_file),
                            }
                        },
                    }
                }
        },
    }
}

/// Stores one planned message in a topic, then its attachments that carry data; an
/// attachment that failed to decode, or a failure to store one, stops it with its error.
#[verifier::loop_isolation(false)]
fn store_imported_message<W>(db: &mut Db, topic_id: &str, m: &ImportedMessage, store_file: &W) -> (r: Result<(), String>)
    where
        W: Fn(String, Vec<u8>) -> Result<String, String>,
    requires
        forall|n: String, d: Vec<u8>| store_file.requires((n, d)),
    ensures
        extends(old(db).calls(), final(db).calls()),
        message_attempt(
            topic_id@,
            imported_message_view(*m),
            calls_since(old(db).calls(), final(db).calls()),
            unit_view(r),
            *store_file,
        ),
{
    let ghost before = db.calls();
    let ghost mv = imported_message_view(*m);
    let message_id = new_id();
    let inserted = db_insert_message(
        db,
        message_id.as_str(),
        topic_id,
        m.sender_type.as_str(),
        &m.sender_bot_id,
        m.content.as_str(),
        m.created_at.as_str(),
    );
    let ghost a0 = db.calls();
    assert(calls_since(before, a0) =~= seq![a0.last()]);
    assert(message_insert_params(message_id@, topic_id@, mv.sender_type, mv.sender_bot_id, mv.content, mv.created_at)
        == calls_since(before, a0)[0].params);
    if let Err(e) = inserted {
        return Err(e);
    }
    let ghost atts = mv.attachments;
    let mut j: usize = 0;
    assert(atts.take(0) =~= Seq::<ImportedAttachmentView>::empty());
    assert(calls_since(a0, a0) =~= Seq::<SqlCall>::empty());
    while j < m.attachments.len()
        invariant
            j <= m.attachments@.len(),
            atts == imported_message_view(*m).attachments,
            extends(a0, db.calls()),
            atts_saved(message_id@, atts.take(j as int), calls_since(a0, db.calls()), *store_file),
            forall|t: int| 0 <= t < j ==> (#[trigger] atts[t]).data is Ok,
            forall|n: String, d: Vec<u8>| store_file.requires((n, d)),
        decreases m.attachments.len() - j,
    {
        let att = &m.attachments[j];
        let ghost prev = db.calls();
        assert(atts[j as int] == imported_attachment_view(*att));
        assert(atts.take(j + 1).drop_last() =~= atts.take(j as int));
        assert(atts.take(j + 1).last() == atts[j as int]);
        match &att.data {
            Err(e) => {
                let r: Result<(), String> = Err(e.clone());
                proof {
                    crate::db::lemma_calls_since_chain(before, a0, db.calls());
                    let c = calls_since(before, db.calls());
                    let rest = calls_since(a0, db.calls());
                    assert(c.drop_first() =~= rest);
                    assert(rest.take(rest.len() as int) =~= rest);
                    assert(atts_saved(message_id@, atts.take(j as int), rest.take(rest.len() as int), *store_file));
                    assert(atts_attempt(message_id@, atts, rest, unit_view(r), *store_file));
                }
                return r;
            },
            Ok(Some(bytes)) => {
                let data = bytes.clone();
                assert(data@ =~= bytes@);
                let ghost dg = data;
                let saved = db_save_attachment(
                    db,
                    message_id.as_str(),
                    att.file_name.as_str(),
                    data,
                    att.mime_type.as_str(),
                    store_file,
                );
                proof {
                    crate::db::lemma_calls_since_chain(a0, prev, db.calls());
                }
                if let Err(e) = saved {
                    proof {
                        crate::db::lemma_calls_since_chain(before, a0, db.calls());
                        let c = calls_since(before, db.calls());
                        let rest = calls_since(a0, db.calls());
                        let jj = calls_since(a0, prev).len() as int;
                        let sv = calls_since(prev, db.calls());
                        assert(c.drop_first() =~= rest);
                        assert(rest.take(jj) =~= calls_since(a0, prev));
                        assert(rest.skip(jj) =~= sv);
                        if sv.len() == 0 {
                            let (n, id) = choose|n: String, id: Seq<char>|
                                #![trigger store_file.ensures((n, dg), Err::<String, String>(e)), stored_name(id, att.file_name@)]
                                {
                                    &&& id.len() == 36
                                    &&& n@ == stored_name(id, att.file_name@)
                                    &&& store_file.ensures((n, dg), Err::<String, String>(e))
                                };
                            assert((*store_file).ensures((n, dg), Err::<String, String>(e)));
                            assert(stored_name(id, atts[j as int].file_name) == n@);
                        } else {
                            let (a, n, path) = choose|a: AttachmentView, n: String, path: String|
                                #![trigger new_attachment(a, message_id@, att.file_name@, att.mime_type@), store_file.ensures((n, dg), Ok::<String, String>(path))]
                                {
                                    &&& new_attachment(a, message_id@, att.file_name@, att.mime_type@)
                                    &&& n@ == stored_name(a.id, att.file_name@)
                                    &&& path@ == a.file_path
                                    &&& store_file.ensures((n, dg), Ok::<String, String>(path))
                                    &&& sv == seq![done_call(INSERT_ATTACHMENT_SQL@, attachment_params(a), crate::attachments::saved_view(saved))]
                                };
                            assert((*store_file).ensures((n, dg), Ok::<String, String>(path)));
                            assert(new_attachment(a, message_id@, atts[j as int].file_name, atts[j as int].mime_type));
                        }
                        assert(attachment_failed(message_id@, atts[j as int], bytes@, rest.skip(jj), e@, *store_file));
                        assert(atts_saved(message_id@, atts.take(j as int), rest.take(jj), *store_file));
                        assert(atts_attempt(message_id@, atts, rest, Err::<(), Seq<char>>(e@), *store_file));
                    }
                    return Err(e);
                }
                proof {
                    let c = calls_since(a0, db.calls());
                    assert(c.drop_last() =~= calls_since(a0, prev));
                    assert(c.last() == calls_since(prev, db.calls())[0]);
                    let sv = calls_since(prev, db.calls());
                    assert(sv.len() != 0);
                    let (a, n, path) = choose|a: AttachmentView, n: String, path: String|
                        #![trigger new_attachment(a, message_id@, att.file_name@, att.mime_type@), store_file.ensures((n, dg), Ok::<String, String>(path))]
                        {
                            &&& new_attachment(a, message_id@, att.file_name@, att.mime_type@)
                            &&& n@ == stored_name(a.id, att.file_name@)
                            &&& path@ == a.file_path
                            &&& store_file.ensures((n, dg), Ok::<String, String>(path))
                            &&& sv == seq![done_call(INSERT_ATTACHMENT_SQL@, attachment_params(a), crate::attachments::saved_view(saved))]
                        };
                    assert((*store_file).ensures((n, dg), Ok::<String, String>(path)));
                    assert(c.last() == done_call(INSERT_ATTACHMENT_SQL@, attachment_params(a), Ok(())));
                    assert(new_attachment(a, message_id@, atts[j as int].file_name, atts[j as int].mime_type));
                    assert(dg@ == bytes@);
                    assert(n@ == stored_name(a.id, atts[j as int].file_name));
                    assert(saves_attachment(message_id@, atts[j as int], bytes@, c.last(), *store_file));
                }
            },
            Ok(None) => {},
        }
        j += 1;
    }
    proof {
        crate::db::lemma_calls_since_chain(before, a0, db.calls());
        let c = calls_since(before, db.calls());
        assert(c.drop_first() =~= calls_since(a0, db.calls()));
        assert(atts.take(atts.len() as int) =~= atts);
        assert(c[0] == a0.last());
        assert(atts_attempt(message_id@, atts, c.drop_first(), Ok(()), *store_file));
    }
    Ok(())
}

/// Imports an exported topic as a new topic titled "<title> (imported)": links the local bots
/// whose names the export lists, then stores the messages of `import_plan` in order, each
/// with its attachments (`db_save_attachment`, whose files `store_file` writes); an attachment
/// that does not decode stops the import with its error. An export of another format or
/// version is refused before anything is stored. Returns the new topic's identifier.
#[verifier::loop_isolation(false)]
pub fn db_import_topic<W>(db: &mut Db, data: &TopicExport, store_file: W) -> (r: Result<String, String>)
    where
        W: Fn(String, Vec<u8>) -> Result<String, String>,
    requires
        forall|n: String, d: Vec<u8>| store_file.requires((n, d)),
    ensures
        extends(old(db).calls(), final(db).calls()),
        import_calls(*data, calls_since(old(db).calls(), final(db).calls()), r, store_file),
{
    let ghost before = db.calls();
    assert(calls_since(before, before) =~= Seq::<SqlCall>::empty());
    if let Err(e) = validate_import(data) {
        return Err(e);
    }
    let topic_id = new_id();
    let now = now_rfc3339();
    let title = imported_title(data.topic.title.as_str());
    let inserted = db_insert_topic(db, topic_id.as_str(), title.as_str(), data.topic.created_at.as_str(), now.as_str());
    let ghost a0 = db.calls();
    assert(calls_since(before, a0) =~= seq![a0.last()]);
    assert(topic_insert_params(topic_id@, data.topic.title@ + " (imported)"@, data.topic.created_at@, now@) == calls_since(before, a0)[0].params);
    if let Err(e) = inserted {
        return Err(e);
    }
    let listed = db_list_bots(db);
    let ghost a1 = db.calls();
    proof {
        crate::db::lemma_calls_since_chain(before, a0, a1);
        assert(calls_since(before, a1).subrange(1, 2) =~= calls_since(a0, a1));
    }
    let local_bots = match listed {
        Ok(b) => b,
        Err(e) => return Err(e),
    };
    let ghost local = bot_views(local_bots@);
    let plan = import_plan(data, local_bots.as_slice());
    let linked = link_all(db, topic_id.as_str(), &plan.bot_ids);
    let ghost a2 = db.calls();
    let ghost k: int = calls_since(a1, a2).len() as int;
    proof {
        crate::db::lemma_calls_since_chain(before, a1, a2);
        assert(calls_since(before, a2).subrange(2, calls_since(before, a2).len() as int).subrange(0, k) =~= calls_since(a1, a2));
        assert(calls_since(before, a2).subrange(0, 2) =~= calls_since(before, a1));
    }
    if let Err(e) = linked {
        return Err(e);
    }
    let ghost ms = planned_messages(*data, local);
    let ghost mut bounds: Seq<int> = seq![0int];
    let mut i: usize = 0;
    assert(calls_since(a2, a2) =~= Seq::<SqlCall>::empty());
    while i < plan.messages.len()
        invariant
            i <= plan.messages@.len(),
            plan.messages@.len() == ms.len(),
            ms == planned_messages(*data, local),
            forall|t: int| 0 <= t < ms.len() ==> imported_message_view(#[trigger] plan.messages@[t]) == ms[t],
            extends(a2, db.calls()),
            bounds.len() == i + 1,
            bounds[0] == 0,
            bounds.last() == calls_since(a2, db.calls()).len(),
            forall|t: int| 0 <= t < bounds.len() ==> 0 <= #[trigger] bounds[t] <= bounds.last(),
            forall|t: int| 0 <= t < i ==> bounds[t] <= #[trigger] bounds[t + 1],
            forall|t: int|
                0 <= t < i ==> #[trigger] message_attempt(
                    topic_id@,
                    ms[t],
                    calls_since(a2, db.calls()).subrange(bounds[t], bounds[t + 1]),
                    Ok(()),
                    store_file,
                ),
            forall|n: String, d: Vec<u8>| store_file.requires((n, d)),
        decreases plan.messages.len() - i,
    {
        let ghost prev = db.calls();
        let stored = store_imported_message(db, topic_id.as_str(), &plan.messages[i], &store_file);
        if let Err(e) = stored {
            proof {
                crate::db::lemma_calls_since_chain(a2, prev, db.calls());
                crate::db::lemma_calls_since_chain(before, a2, db.calls());
                let s = calls_since(before, db.calls());
                let rest = s.subrange(2, s.len() as int);
                assert(rest.subrange(0, k) =~= calls_since(a1, a2));
                assert(s.subrange(1, 2) =~= calls_since(a0, a1));
                assert(s[0] == calls_since(before, a0)[0]);
                let c = calls_since(a2, db.calls());
                assert(rest.subrange(k, rest.len() as int) =~= c);
                assert(c.skip(bounds.last()) =~= calls_since(prev, db.calls()));
                assert forall|t: int| 0 <= t < i implies #[trigger] message_attempt(
                    topic_id@,
                    ms[t],
                    c.subrange(bounds[t], bounds[t + 1]),
                    Ok(()),
                    store_file,
                ) by {
                    assert(c.subrange(bounds[t], bounds[t + 1]) =~= calls_since(a2, prev).subrange(bounds[t], bounds[t + 1]));
                }
                assert(messages_attempt(topic_id@, ms, c, Err::<(), Seq<char>>(e@), store_file));
            }
            return Err(e);
        }
        proof {
            crate::db::lemma_calls_since_chain(a2, prev, db.calls());
            let c = calls_since(a2, db.calls());
            let old_b = bounds;
            bounds = bounds.push(c.len() as int);
            assert(c.subrange(old_b.last(), c.len() as int) =~= calls_since(prev, db.calls()));
            assert forall|t: int| 0 <= t < i + 1 implies #[trigger] message_attempt(
                topic_id@,
                ms[t],
                c.subrange(bounds[t], bounds[t + 1]),
                Ok(()),
                store_file,
            ) by {
                if t < i {
                    assert(c.subrange(bounds[t], bounds[t + 1]) =~= calls_since(a2, prev).subrange(bounds[t], bounds[t + 1]));
                }
            }
            assert forall|t: int| 0 <= t < i + 1 implies bounds[t] <= #[trigger] bounds[t + 1] by {}
        }
        i += 1;
    }
    proof {
        crate::db::lemma_calls_since_chain(before, a2, db.calls());
        let s = calls_since(before, db.calls());
        let rest = s.subrange(2, s.len() as int);
        assert(rest.subrange(0, k) =~= calls_since(a1, a2));
        assert(rest.subrange(k, rest.len() as int) =~= calls_since(a2, db.calls()));
        assert(s.subrange(1, 2) =~= calls_since(a0, a1));
        assert(s[0] == calls_since(before, a0)[0]);
        assert(messages_attempt(topic_id@, ms, calls_since(a2, db.calls()), Ok(()), store_file));
    }
    Ok(topic_id)
}

// ---------------------------------------------------------------------------
// Laws
// ---------------------------------------------------------------------------

/// Every export this library makes is of the format and version its import accepts.
pub proof fn lemma_exports_are_importable()
    ensures
        import_error(EXPORT_FORMAT@, EXPORT_VERSION) is None,
{
}

/// Any other format, or any other version, is refused.
pub proof fn lemma_foreign_exports_refused(format: Seq<char>, version: u32)
    ensures
        (import_error(format, version) is None) <==> (format == EXPORT_FORMAT@ && version
            == EXPORT_VERSION),
{
}

proof fn lemma_local_bot_id_unique(local: Seq<BotView>, k: int)
    requires
        0 <= k < local.len(),
        forall|j: int| 0 <= j < local.len() && j != k ==> local[j].name != local[k].name,
    ensures
        local_bot_id(local, local[k].name) == Some(local[k].id),
    decreases local.len(),
{
    if k < local.len() - 1 {
        let d = local.drop_last();
        assert forall|j: int| 0 <= j < d.len() && j != k implies #[trigger] d[j].name != d[k].name by {
            assert(d[j] == local[j]);
        }
        lemma_local_bot_id_unique(d, k);
    }
}

proof fn lemma_first_bot_found(all: Seq<BotView>, k: int)
    requires
        0 <= k < all.len(),
        forall|j: int| 0 <= j < all.len() && j != k ==> all[j].id != all[k].id,
    ensures
        first_bot_with_id(all, all[k].id) == Some(all[k]),
    decreases all.len(),
{
    if k > 0 {
        let d = all.drop_first();
        assert forall|j: int| 0 <= j < d.len() && j != k - 1 implies #[trigger] d[j].id != d[k - 1].id by {
            assert(d[j] == all[j + 1]);
        }
        lemma_first_bot_found(d, k - 1);
    }
}

/// A bot message survives export and import with its sender: when the sender is one of the
/// topic's bots (whose identifiers differ), and where it is imported exactly one local bot has
/// that bot's name, the imported message names that local bot.
pub proof fn lemma_sender_round_trip(topic_bots: Seq<BotView>, k: int, local: Seq<BotView>, m: int)
    requires
        0 <= k < topic_bots.len(),
        forall|j: int| 0 <= j < topic_bots.len() && j != k ==> topic_bots[j].id != topic_bots[k].id,
        0 <= m < local.len(),
        local[m].name == topic_bots[k].name,
        forall|j: int| 0 <= j < local.len() && j != m ==> local[j].name != local[m].name,
    ensures
        exported_sender_name(Some(topic_bots[k].id), topic_bots) == Some(topic_bots[k].name),
        local_bot_id(local, topic_bots[k].name) == Some(local[m].id),
{
    lemma_first_bot_found(topic_bots, k);
    lemma_local_bot_id_unique(local, m);
}

/// The bots linked to an imported topic are each linked once.
pub proof fn lemma_linked_bots_distinct(local: Seq<BotView>, names: Seq<Seq<char>>)
    ensures
        matched_ids(local, names).no_duplicates(),
{
    crate::urls::lemma_dedup(found_ids(local, names));
}

/// A message survives export and import: its sender's kind, content and time come back as
/// they were, and so does each attachment's name and MIME type; an attachment whose file was
/// read comes back as what the base64 engine decodes of what it encoded of the bytes, and one
/// that was skipped comes back without data.
pub proof fn lemma_message_round_trip(
    m: MessageView,
    topic_bots: Seq<BotView>,
    probes: Seq<ProbeView>,
    local: Seq<BotView>,
)
    requires
        probes.len() == m.attachments.len(),
    ensures
        ({
            let back = planned_message(exported_message(m, topic_bots, probes), local);
            &&& back.sender_type == m.sender_type
            &&& back.content == m.content
            &&& back.created_at == m.created_at
            &&& back.attachments.len() == m.attachments.len()
            &&& forall|j: int|
                0 <= j < m.attachments.len() ==> {
                    &&& (#[trigger] back.attachments[j]).file_name == m.attachments[j].file_name
                    &&& back.attachments[j].mime_type == m.attachments[j].mime_type
                    &&& back.attachments[j].data == match probes[j] {
                        ProbeView::Read(b) => match base64_decoded(base64_of(b)) {
                            Ok(d) => Ok(Some(d)),
                            Err(e) => Err("Failed to decode base64 attachment: "@ + e),
                        },
                        _ => Ok(None),
                    }
                }
        }),
{
}

/// Export then import: for an export that reflects a topic and its messages (as
/// `db_export_topic` produces it), the import plans, for each exported message in order, a
/// message with the original's sender kind, content and time, and each attachment with its
/// name and MIME type (its data as in `lemma_message_round_trip`); a bot sender comes back as
/// the local bot of the same name, when exactly one has it (`lemma_sender_round_trip`). The
/// export carries the topic's title and creation time, which the import stores (the title
/// followed by " (imported)", see `import_calls`).
pub proof fn lemma_export_import<S, R>(
    e: TopicExport,
    topic: Topic,
    messages: Seq<Message>,
    probes: Seq<Vec<AttachmentProbe>>,
    file_size: S,
    read_file: R,
    local: Seq<BotView>,
)
    where
        S: Fn(String) -> Result<u64, String>,
        R: Fn(String) -> Result<Vec<u8>, String>,
    requires
        export_reflects(e, topic, messages, probes, file_size, read_file),
    ensures
        e.topic.title@ == topic.title@,
        e.topic.created_at@ == topic.created_at@,
        planned_messages(e, local).len() == messages.len(),
        forall|i: int|
            0 <= i < messages.len() ==> {
                let back = #[trigger] planned_messages(e, local)[i];
                &&& back.sender_type == messages[i]@.sender_type
                &&& back.content == messages[i]@.content
                &&& back.created_at == messages[i]@.created_at
                &&& back.attachments.len() == messages[i]@.attachments.len()
                &&& forall|j: int|
                    0 <= j < back.attachments.len() ==> (#[trigger] back.attachments[j]).file_name
                        == messages[i]@.attachments[j].file_name && back.attachments[j].mime_type
                        == messages[i]@.attachments[j].mime_type
            },
{
    assert forall|i: int| 0 <= i < messages.len() implies {
        let back = #[trigger] planned_messages(e, local)[i];
        &&& back.sender_type == messages[i]@.sender_type
        &&& back.content == messages[i]@.content
        &&& back.created_at == messages[i]@.created_at
        &&& back.attachments.len() == messages[i]@.attachments.len()
        &&& forall|j: int|
            0 <= j < back.attachments.len() ==> (#[trigger] back.attachments[j]).file_name
                == messages[i]@.attachments[j].file_name && back.attachments[j].mime_type
                == messages[i]@.attachments[j].mime_type
    } by {
        let m = messages[i]@;
        let pv = probe_views(probes[i]@);
        assert(pv.len() == m.attachments.len());
        lemma_message_round_trip(m, bot_views(topic.bots@), pv, local);
        assert(planned_messages(e, local)[i] == planned_message(message_export_view(e.messages@[i]), local));
    }
}

/// An exported name stands for a local bot exactly when some local bot has that name, and then
/// for the last of them (in the order the local bots are listed).
pub proof fn lemma_local_bot_id(local: Seq<BotView>, name: Seq<char>)
    ensures
        (forall|k: int| 0 <= k < local.len() ==> local[k].name != name) <==> local_bot_id(local, name) is None,
        forall|k: int|
            0 <= k < local.len() && local[k].name == name && (forall|j: int| k < j < local.len() ==> local[j].name != name)
                ==> local_bot_id(local, name) == Some(#[trigger] local[k].id),
    decreases local.len(),
{
    if local.len() > 0 {
        let init = local.drop_last();
        lemma_local_bot_id(init, name);
        assert forall|k: int|
            0 <= k < local.len() && local[k].name == name && (forall|j: int| k < j < local.len() ==> local[j].name != name)
                implies local_bot_id(local, name) == Some(#[trigger] local[k].id) by {
            if k < local.len() - 1 {
                assert(local[local.len() - 1].name != name);
                assert(init[k] == local[k]);
                assert forall|j: int| k < j < init.len() implies init[j].name != name by {
                    assert(init[j] == local[j]);
                }
            }
        }
        if local_bot_id(local, name) is None {
            assert forall|k: int| 0 <= k < local.len() implies local[k].name != name by {
                if k < local.len() - 1 {
                    assert(init[k] == local[k]);
                }
            }
        }
        if forall|k: int| 0 <= k < local.len() ==> local[k].name != name {
            assert(local[local.len() - 1].name != name);
            assert forall|k: int| 0 <= k < init.len() implies init[k].name != name by {
                assert(init[k] == local[k]);
            }
        }
    }
}

/// The bots linked to an imported topic are exactly the local bots that some exported name
/// stands for, each once.
pub proof fn lemma_matched_ids(local: Seq<BotView>, names: Seq<Seq<char>>)
    ensures
        matched_ids(local, names).no_duplicates(),
        forall|id: Seq<char>|
            matched_ids(local, names).contains(id) <==> exists|i: int|
                0 <= i < names.len() && #[trigger] local_bot_id(local, names[i]) == Some(id),
{
    crate::urls::lemma_dedup(found_ids(local, names));
    lemma_found_ids(local, names);
    assert forall|id: Seq<char>|
        matched_ids(local, names).contains(id) <==> exists|i: int|
            0 <= i < names.len() && #[trigger] local_bot_id(local, names[i]) == Some(id) by {
        assert(matched_ids(local, names).contains(id) == found_ids(local, names).contains(id));
    }
}

proof fn lemma_found_ids(local: Seq<BotView>, names: Seq<Seq<char>>)
    ensures
        forall|id: Seq<char>|
            found_ids(local, names).contains(id) <==> exists|i: int|
                0 <= i < names.len() && #[trigger] local_bot_id(local, names[i]) == Some(id),
    decreases names.len(),
{
    if names.len() > 0 {
        let init = names.drop_last();
        lemma_found_ids(local, init);
        let r = found_ids(local, init);
        assert forall|id: Seq<char>|
            found_ids(local, names).contains(id) <==> exists|i: int|
                0 <= i < names.len() && #[trigger] local_bot_id(local, names[i]) == Some(id) by {
            if found_ids(local, names).contains(id) {
                let k = choose|k: int| 0 <= k < found_ids(local, names).len() && found_ids(local, names)[k] == id;
                if k < r.len() {
                    assert(r[k] == id);
                    assert(r.contains(id));
                    let i = choose|i: int| 0 <= i < init.len() && #[trigger] local_bot_id(local, init[i]) == Some(id);
                    assert(names[i] == init[i]);
                } else {
                    assert(local_bot_id(local, names[names.len() - 1]) == Some(id));
                }
            }
            if exists|i: int| 0 <= i < names.len() && #[trigger] local_bot_id(local, names[i]) == Some(id) {
                let i = choose|i: int| 0 <= i < names.len() && #[trigger] local_bot_id(local, names[i]) == Some(id);
                if i < names.len() - 1 {
                    assert(init[i] == names[i]);
                    assert(local_bot_id(local, init[i]) == Some(id));
                    assert(r.contains(id));
                    let k = choose|k: int| 0 <= k < r.len() && r[k] == id;
                    assert(found_ids(local, names)[k] == id);
                } else {
                    assert(found_ids(local, names) == r.push(id));
                    assert(found_ids(local, names)[r.len() as int] == id);
                }
            }
        }
    }
}

/// An exported attachment keeps its name and types; it carries data exactly when its file was
/// read, and then the base64 of the bytes read; otherwise it is marked skipped, with a reason.
pub proof fn lemma_exported_attachment(att: AttachmentView, probe: ProbeView)
    ensures
        ({
            let e = exported_attachment(att, probe);
            &&& e.file_name == att.file_name
            &&& e.file_type == att.file_type
            &&& e.mime_type == att.mime_type
            &&& (probe matches ProbeView::Read(b) ==> e.data_base64 == Some(base64_of(b)) && !e.skipped && e.skip_reason is None)
            &&& (!(probe is Read) ==> e.data_base64 is None && e.skipped && e.skip_reason is Some)
        }),
{
}

/// An imported attachment: a skipped one, or one without data, brings no bytes; any other
/// brings the bytes its base64 decodes to, or the error "Failed to decode base64 attachment: "
/// followed by the decoder's message.
pub proof fn lemma_imported_attachment(skipped: bool, data: Option<Seq<char>>)
    ensures
        skipped ==> imported_attachment(skipped, data) == Ok::<Option<Seq<u8>>, Seq<char>>(None),
        data is None ==> imported_attachment(skipped, data) == Ok::<Option<Seq<u8>>, Seq<char>>(None),
        !skipped && data is Some ==> imported_attachment(skipped, data) == match base64_decoded(data->Some_0) {
            Ok(b) => Ok::<Option<Seq<u8>>, Seq<char>>(Some(b)),
            Err(e) => Err("Failed to decode base64 attachment: "@ + e),
        },
{
}

/// The size label rounds to the nearest tenth of a MiB: the tenths it shows differ from the
/// exact size by at most half a tenth; a whole number of MiB shows as that number and ".0".
pub proof fn lemma_megabytes_rounding(size: nat)
    ensures
        ({
            let t = round_half_even(10 * size, 1048576);
            &&& 2 * (t * 1048576 - 10 * size) <= 1048576
            &&& 2 * (10 * size - t * 1048576) <= 1048576
        }),
        size % 1048576 == 0 ==> megabytes_label(size) == decimal(size / 1048576) + "."@ + seq!['0'],
{
    let n = 10 * size;
    let d: nat = 1048576;
    let q = n / d;
    let r = n % d;
    assert(n == q * d + r && 0 <= r < d) by (nonlinear_arith)
        requires
            d > 0,
            q == n / d,
            r == n % d,
    ;
    if size % 1048576 == 0 {
        let m = size / 1048576;
        assert(size == m * 1048576) by (nonlinear_arith)
            requires
                size % 1048576 == 0,
                m == size / 1048576,
        ;
        assert(n == (10 * m) * d + 0) by (nonlinear_arith)
            requires
                n == 10 * size,
                size == m * 1048576,
                d == 1048576,
        ;
        assert(q == 10 * m && r == 0) by (nonlinear_arith)
            requires
                n == (10 * m) * d + 0,
                n == q * d + r,
                0 <= r < d,
                d > 0,
        ;
        assert(round_half_even(n, d) == 10 * m);
        assert((10 * m) / 10 == m && (10 * m) % 10 == 0) by (nonlinear_arith);
    }
}

} // verus!
