use vstd::prelude::*;

use crate::client::{
    chat_views, ChatContent, ChatContentView, ChatMessage, ChatMessageView, ContentPart,
    ContentPartView, ImageUrl,
};
use crate::encoding::{base64_of, encode_base64, html_text, html_to_text, utf8_text};
use crate::fetch::UrlCache;
use crate::models::{bot_views, Attachment, AttachmentView, Bot, BotView, Message, MessageView};
use crate::text::{
    chars_eq, chars_of, contains_chars, slice_chars, contains_seq, decimal, ends_with, ends_with_chars,
    push_all, push_decimal, push_str, string_of, truncate_chars, truncated,
};
use crate::urls::{extract_urls, urls_in, views};
use vstd::string::StringExecFns;
use vstd::utf8::{decode_utf8, valid_utf8};

verus! {

/// The most characters of one attached file given to a bot.
pub const MAX_FILE_CONTENT_CHARS: usize = 15000;

/// What the system prompt says, before the names of the other bots, when there are any.
pub const GROUP_CHAT_INTRO: &'static str = "\n\nYou are in a group chat with a human user and other AI assistants: ";

/// What the system prompt says after the names of the other bots.
pub const GROUP_CHAT_RULES: &'static str = ". Messages from other AIs are prefixed with their name in brackets like [Name]: . You can see and respond to what they say. Be collaborative and refer to them by name when relevant.";

// ---------------------------------------------------------------------------
// Specification
// ---------------------------------------------------------------------------

/// `parts` with `sep` between each two (`[T]::join`).
pub open spec fn join(parts: Seq<Seq<char>>, sep: Seq<char>) -> Seq<char>
    decreases parts.len(),
{
    if parts.len() == 0 {
        Seq::empty()
    } else if parts.len() == 1 {
        parts[0]
    } else {
        join(parts.drop_last(), sep) + sep + parts.last()
    }
}

/// The names of the bots in `all` other than `bot` (told apart by identifier), in order.
pub open spec fn other_bot_names(bot: BotView, all: Seq<BotView>) -> Seq<Seq<char>>
    decreases all.len(),
{
    if all.len() == 0 {
        Seq::empty()
    } else {
        let r = other_bot_names(bot, all.drop_last());
        if all.last().id != bot.id {
            r.push(all.last().name)
        } else {
            r
        }
    }
}

/// The system prompt: the bot's own, then, when other bots take part, who they are and how
/// their messages look.
pub open spec fn system_text(bot: BotView, all: Seq<BotView>) -> Seq<char> {
    let names = other_bot_names(bot, all);
    bot.system_prompt + if names.len() > 0 {
        GROUP_CHAT_INTRO@ + join(names, ", "@) + GROUP_CHAT_RULES@
    } else {
        Seq::empty()
    }
}

/// The system message, when the system prompt is not empty.
pub open spec fn system_messages(bot: BotView, all: Seq<BotView>) -> Seq<ChatMessageView> {
    if system_text(bot, all).len() > 0 {
        seq![ChatMessageView { role: "system"@, content: ChatContentView::Text(system_text(bot, all)) }]
    } else {
        Seq::empty()
    }
}

/// What an attachment contributes: an image for the model to see, or a note in the text.
pub enum Piece {
    Image(Seq<char>),
    Note(Seq<char>),
}

pub open spec fn image_note(name: Seq<char>) -> Seq<char> {
    "[Image attached: "@ + name + "]"@
}

pub open spec fn file_note(name: Seq<char>) -> Seq<char> {
    "[File attached: "@ + name + "]"@
}

pub open spec fn html_note(name: Seq<char>, text: Seq<char>) -> Seq<char> {
    "[File: "@ + name + " (HTML converted to text)]\n"@ + truncated(text, MAX_FILE_CONTENT_CHARS as nat)
}

pub open spec fn text_file_note(name: Seq<char>, text: Seq<char>) -> Seq<char> {
    "[File: "@ + name + "]\n```\n"@ + truncated(text, MAX_FILE_CONTENT_CHARS as nat) + "\n```"@
}

pub open spec fn binary_note(name: Seq<char>, size: nat) -> Seq<char> {
    "[File attached: "@ + name + " ("@ + decimal(size) + " bytes)]"@
}

/// A file counts as HTML when its MIME type mentions `html` or its name ends in `.html`/`.htm`.
pub open spec fn is_html_file(att: AttachmentView) -> bool {
    contains_seq(att.mime_type, "html"@) || ends_with(att.file_name, ".html"@) || ends_with(
        att.file_name,
        ".htm"@,
    )
}

/// The text of an HTML file, rendered 80 columns wide, or a note that it did not render.
pub open spec fn html_or_failure(bytes: Seq<u8>) -> Seq<char> {
    match html_text(bytes, 80) {
        Ok(t) => t,
        Err(_) => "[Failed to parse HTML]"@,
    }
}

/// What an attachment becomes for a bot, given the bytes read from its file (`None` when it
/// could not be read): an image is sent as a `data:` URL to a bot that sees images and noted
/// by name otherwise; an HTML file as its rendered text; a UTF-8 file as its text in a code
/// block; any other file by name and size. Text is cut at `MAX_FILE_CONTENT_CHARS` characters.
pub open spec fn attachment_piece(att: AttachmentView, data: Option<Seq<u8>>, vision: bool) -> Piece {
    if att.file_type == "image"@ {
        if vision {
            match data {
                Some(b) => Piece::Image("data:"@ + att.mime_type + ";base64,"@ + base64_of(b)),
                None => Piece::Note(image_note(att.file_name)),
            }
        } else {
            Piece::Note(image_note(att.file_name))
        }
    } else if is_html_file(att) {
        match data {
            Some(b) => Piece::Note(html_note(att.file_name, html_or_failure(b))),
            None => Piece::Note(file_note(att.file_name)),
        }
    } else {
        match data {
            Some(b) => if valid_utf8(b) {
                Piece::Note(text_file_note(att.file_name, decode_utf8(b)))
            } else {
                Piece::Note(binary_note(att.file_name, b.len()))
            },
            None => Piece::Note(file_note(att.file_name)),
        }
    }
}

/// The bytes read for attachment `j`, if any were.
pub open spec fn data_at(data: Seq<Option<Seq<u8>>>, j: int) -> Option<Seq<u8>> {
    if 0 <= j < data.len() {
        data[j]
    } else {
        None
    }
}

/// The bytes read for the attachments of message `i`.
pub open spec fn files_at(files: Seq<Seq<Option<Seq<u8>>>>, i: int) -> Seq<Option<Seq<u8>>> {
    if 0 <= i < files.len() {
        files[i]
    } else {
        Seq::empty()
    }
}

/// The images among the attachments, in order.
pub open spec fn images_of(atts: Seq<AttachmentView>, data: Seq<Option<Seq<u8>>>, vision: bool) -> Seq<Seq<char>>
    decreases atts.len(),
{
    if atts.len() == 0 {
        Seq::empty()
    } else {
        let r = images_of(atts.drop_last(), data, vision);
        match attachment_piece(atts.last(), data_at(data, atts.len() - 1), vision) {
            Piece::Image(u) => r.push(u),
            Piece::Note(_) => r,
        }
    }
}

/// The notes about the attachments, in order.
pub open spec fn notes_of(atts: Seq<AttachmentView>, data: Seq<Option<Seq<u8>>>, vision: bool) -> Seq<Seq<char>>
    decreases atts.len(),
{
    if atts.len() == 0 {
        Seq::empty()
    } else {
        let r = notes_of(atts.drop_last(), data, vision);
        match attachment_piece(atts.last(), data_at(data, atts.len() - 1), vision) {
            Piece::Image(_) => r,
            Piece::Note(n) => r.push(n),
        }
    }
}

/// The fetched text of each link that the cache holds, in order.
pub open spec fn url_notes(urls: Seq<Seq<char>>, cache: Map<Seq<char>, Seq<char>>) -> Seq<Seq<char>>
    decreases urls.len(),
{
    if urls.len() == 0 {
        Seq::empty()
    } else {
        let r = url_notes(urls.drop_last(), cache);
        if cache.contains_key(urls.last()) {
            r.push("[Content from "@ + urls.last() + "]:\n"@ + cache[urls.last()])
        } else {
            r
        }
    }
}

/// The first bot in `all` with identifier `id`.
pub open spec fn first_bot_with_id(all: Seq<BotView>, id: Seq<char>) -> Option<BotView>
    decreases all.len(),
{
    if all.len() == 0 {
        None
    } else if all[0].id == id {
        Some(all[0])
    } else {
        first_bot_with_id(all.drop_first(), id)
    }
}

/// The name shown for the bot that sent a message: the first bot with its identifier, or
/// `Bot` when there is none.
pub open spec fn sender_name(sender: Option<Seq<char>>, all: Seq<BotView>) -> Seq<char> {
    match sender {
        Some(id) => match first_bot_with_id(all, id) {
            Some(b) => b.name,
            None => "Bot"@,
        },
        None => "Bot"@,
    }
}

/// Whether a message was written by `bot` itself.
pub open spec fn is_own_message(msg: MessageView, bot: BotView) -> bool {
    msg.sender_type == "bot"@ && msg.sender_bot_id == Some(bot.id)
}

/// What a message begins with: the sender's name in brackets for another bot's message.
pub open spec fn message_prefix(msg: MessageView, bot: BotView, all: Seq<BotView>) -> Seq<char> {
    if msg.sender_type == "bot"@ && !is_own_message(msg, bot) {
        "["@ + sender_name(msg.sender_bot_id, all) + "]: "@
    } else {
        Seq::empty()
    }
}

/// The notes of a message: its attachments', then, for a human message, the fetched text of
/// its links.
pub open spec fn message_notes(msg: MessageView, data: Seq<Option<Seq<u8>>>, vision: bool, cache: Map<Seq<char>, Seq<char>>) -> Seq<Seq<char>> {
    notes_of(msg.attachments, data, vision) + if msg.sender_type == "human"@ {
        url_notes(urls_in(msg.content), cache)
    } else {
        Seq::empty()
    }
}

/// One message of the conversation as `bot` sees it: its own messages are the assistant's,
/// all others are the user's; notes follow the text after a blank line, separated by blank
/// lines; images make it a multi-part message whose first part is the text.
pub open spec fn chat_message_for(
    msg: MessageView,
    data: Seq<Option<Seq<u8>>>,
    bot: BotView,
    all: Seq<BotView>,
    cache: Map<Seq<char>, Seq<char>>,
) -> ChatMessageView {
    let role = if is_own_message(msg, bot) {
        "assistant"@
    } else {
        "user"@
    };
    let images = images_of(msg.attachments, data, bot.supports_vision);
    let notes = message_notes(msg, data, bot.supports_vision, cache);
    let text = message_prefix(msg, bot, all) + msg.content;
    let full = if notes.len() > 0 {
        text + "\n\n"@ + join(notes, "\n\n"@)
    } else {
        text
    };
    if images.len() > 0 {
        ChatMessageView {
            role,
            content: ChatContentView::Parts(
                seq![ContentPartView::Text(full)] + images.map_values(|u: Seq<char>| ContentPartView::ImageUrl(u)),
            ),
        }
    } else {
        ChatMessageView { role, content: ChatContentView::Text(full) }
    }
}

/// The whole request body's messages for `bot`: the system message, if any, then each
/// message of the conversation in order.
pub open spec fn chat_messages_for(
    msgs: Seq<MessageView>,
    bot: BotView,
    all: Seq<BotView>,
    cache: Map<Seq<char>, Seq<char>>,
    files: Seq<Seq<Option<Seq<u8>>>>,
) -> Seq<ChatMessageView> {
    system_messages(bot, all) + Seq::new(
        msgs.len(),
        |i: int| chat_message_for(msgs[i], files_at(files, i), bot, all, cache),
    )
}

pub open spec fn bytes_view(o: Option<Vec<u8>>) -> Option<Seq<u8>> {
    match o {
        Some(b) => Some(b@),
        None => None,
    }
}

pub open spec fn data_views(d: Seq<Option<Vec<u8>>>) -> Seq<Option<Seq<u8>>> {
    d.map_values(|o: Option<Vec<u8>>| bytes_view(o))
}

pub open spec fn files_views(f: Seq<Vec<Option<Vec<u8>>>>) -> Seq<Seq<Option<Seq<u8>>>> {
    f.map_values(|d: Vec<Option<Vec<u8>>>| data_views(d@))
}

pub open spec fn message_views(msgs: Seq<Message>) -> Seq<MessageView> {
    msgs.map_values(|m: Message| m@)
}

// ---------------------------------------------------------------------------
// Implementation
// ---------------------------------------------------------------------------

enum PieceExec {
    Image(Vec<char>),
    Note(Vec<char>),
}

spec fn piece_view(p: PieceExec) -> Piece {
    match p {
        PieceExec::Image(u) => Piece::Image(u@),
        PieceExec::Note(n) => Piece::Note(n@),
    }
}

fn named_note(open: &str, name: &Vec<char>, close: &str) -> (r: Vec<char>)
    ensures
        r@ == open@ + name@ + close@,
{
    let mut r = chars_of(open);
    push_all(&mut r, name);
    push_str(&mut r, close);
    r
}

fn is_html(att: &Attachment) -> (r: bool)
    ensures
        r == is_html_file(att@),
{
    let mime = chars_of(att.mime_type.as_str());
    let name = chars_of(att.file_name.as_str());
    contains_chars(&mime, &chars_of("html")) || ends_with_chars(&name, &chars_of(".html"))
        || ends_with_chars(&name, &chars_of(".htm"))
}

fn attachment_piece_exec(att: &Attachment, data: &Option<Vec<u8>>, vision: bool) -> (p: PieceExec)
    ensures
        piece_view(p) == attachment_piece(att@, bytes_view(*data), vision),
{
    let name = chars_of(att.file_name.as_str());
    let file_type = chars_of(att.file_type.as_str());
    if chars_eq(&file_type, &chars_of("image")) {
        if vision {
            match data {
                Some(b) => {
                    let mut url = chars_of("data:");
                    push_str(&mut url, att.mime_type.as_str());
                    push_str(&mut url, ";base64,");
                    let encoded = encode_base64(b.as_slice());
                    push_str(&mut url, encoded.as_str());
                    PieceExec::Image(url)
                },
                None => PieceExec::Note(named_note("[Image attached: ", &name, "]")),
            }
        } else {
            PieceExec::Note(named_note("[Image attached: ", &name, "]"))
        }
    } else if is_html(att) {
        match data {
            Some(b) => {
                let text = match html_to_text(b.as_slice(), 80) {
                    Ok(t) => chars_of(t.as_str()),
                    Err(_) => chars_of("[Failed to parse HTML]"),
                };
                let mut note = named_note("[File: ", &name, " (HTML converted to text)]\n");
                let cut = truncate_chars(&text, MAX_FILE_CONTENT_CHARS);
                push_all(&mut note, &cut);
                PieceExec::Note(note)
            },
            None => PieceExec::Note(named_note("[File attached: ", &name, "]")),
        }
    } else {
        match data {
            Some(b) => match utf8_text(b.as_slice()) {
                Some(s) => {
                    let text = chars_of(s.as_str());
                    let mut note = named_note("[File: ", &name, "]\n```\n");
                    let cut = truncate_chars(&text, MAX_FILE_CONTENT_CHARS);
                    push_all(&mut note, &cut);
                    push_str(&mut note, "\n```");
                    PieceExec::Note(note)
                },
                None => {
                    let mut note = chars_of("[File attached: ");
                    push_all(&mut note, &name);
                    push_str(&mut note, " (");
                    push_decimal(&mut note, b.len() as u64);
                    push_str(&mut note, " bytes)]");
                    PieceExec::Note(note)
                },
            },
            None => PieceExec::Note(named_note("[File attached: ", &name, "]")),
        }
    }
}

/// Appends `parts` joined by `sep` to `out`.
fn push_joined(out: &mut Vec<char>, parts: &Vec<Vec<char>>, sep: &str)
    ensures
        final(out)@ == old(out)@ + join(crate::urls::char_views(parts@), sep@),
{
    let ghost pv = crate::urls::char_views(parts@);
    let ghost start = out@;
    let mut i: usize = 0;
    assert(pv.take(0) =~= Seq::<Seq<char>>::empty());
    assert(start + Seq::<char>::empty() =~= start);
    while i < parts.len()
        invariant
            i <= parts@.len(),
            pv == crate::urls::char_views(parts@),
            out@ == start + join(pv.take(i as int), sep@),
        decreases parts.len() - i,
    {
        let ghost before = out@;
        assert(pv.take(i + 1).drop_last() =~= pv.take(i as int));
        assert(pv.take(i + 1).last() == parts@[i as int]@);
        if i > 0 {
            push_str(out, sep);
            push_all(out, &parts[i]);
            assert(out@ =~= start + (join(pv.take(i as int), sep@) + sep@ + parts@[i as int]@));
        } else {
            push_all(out, &parts[i]);
            assert(pv.take(1)[0] == parts@[0]@);
            assert(out@ =~= start + join(pv.take(1), sep@));
        }
        i += 1;
    }
    assert(pv.take(parts.len() as int) =~= pv);
}

fn other_names(bot: &Bot, all_bots: &[Bot]) -> (names: Vec<Vec<char>>)
    ensures
        crate::urls::char_views(names@) == other_bot_names(bot@, bot_views(all_bots@)),
{
    let ghost av = bot_views(all_bots@);
    let bot_id = chars_of(bot.id.as_str());
    let mut names: Vec<Vec<char>> = Vec::new();
    let mut i: usize = 0;
    while i < all_bots.len()
        invariant
            i <= all_bots@.len(),
            av == bot_views(all_bots@),
            bot_id@ == bot.id@,
            crate::urls::char_views(names@) == other_bot_names(bot@, av.take(i as int)),
        decreases all_bots.len() - i,
    {
        assert(av.take(i + 1).drop_last() =~= av.take(i as int));
        assert(av.take(i + 1).last() == all_bots@[i as int]@);
        let id = chars_of(all_bots[i].id.as_str());
        if !chars_eq(&id, &bot_id) {
            let ghost before = names@;
            names.push(chars_of(all_bots[i].name.as_str()));
            assert(crate::urls::char_views(names@) =~= crate::urls::char_views(before).push(
                all_bots@[i as int].name@,
            ));
        }
        i += 1;
    }
    assert(av.take(all_bots@.len() as int) =~= av);
    names
}

/// The system prompt for a bot (see `system_text`).
pub fn system_prompt_for(bot: &Bot, all_bots: &[Bot]) -> (text: String)
    ensures
        text@ == system_text(bot@, bot_views(all_bots@)),
{
    let names = other_names(bot, all_bots);
    let mut t = chars_of(bot.system_prompt.as_str());
    if names.len() > 0 {
        let ghost base = t@;
        push_str(&mut t, GROUP_CHAT_INTRO);
        push_joined(&mut t, &names, ", ");
        push_str(&mut t, GROUP_CHAT_RULES);
        assert(t@ =~= base + (GROUP_CHAT_INTRO@ + join(
            crate::urls::char_views(names@),
            ", "@,
        ) + GROUP_CHAT_RULES@));
    } else {
        assert(t@ =~= t@ + Seq::<char>::empty());
    }
    string_of(t.as_slice())
}

pub(crate) fn first_bot_name(all_bots: &[Bot], id: &Vec<char>) -> (r: Option<Vec<char>>)
    ensures
        match (r, first_bot_with_id(bot_views(all_bots@), id@)) {
            (Some(n), Some(b)) => n@ == b.name,
            (None, None) => true,
            _ => false,
        },
{
    let ghost av = bot_views(all_bots@);
    let mut i: usize = 0;
    assert(av.subrange(0, av.len() as int) =~= av);
    while i < all_bots.len()
        invariant
            i <= all_bots@.len(),
            av == bot_views(all_bots@),
            first_bot_with_id(av, id@) == first_bot_with_id(av.subrange(i as int, av.len() as int), id@),
        decreases all_bots.len() - i,
    {
        let bid = chars_of(all_bots[i].id.as_str());
        let ghost rest = av.subrange(i as int, av.len() as int);
        assert(rest[0] == all_bots@[i as int]@);
        if chars_eq(&bid, id) {
            return Some(chars_of(all_bots[i].name.as_str()));
        }
        assert(rest.drop_first() =~= av.subrange(i + 1, av.len() as int));
        i += 1;
    }
    None
}

fn is_text(s: &String, lit: &str) -> (r: bool)
    ensures
        r == (s@ == lit@),
{
    chars_eq(&chars_of(s.as_str()), &chars_of(lit))
}

fn sender_is(msg: &Message, bot: &Bot) -> (r: bool)
    ensures
        r == (msg.sender_bot_id is Some && msg.sender_bot_id->0@ == bot.id@),
{
    match &msg.sender_bot_id {
        Some(id) => chars_eq(&chars_of(id.as_str()), &chars_of(bot.id.as_str())),
        None => false,
    }
}

fn prefix_for(msg: &Message, bot: &Bot, all_bots: &[Bot]) -> (r: Vec<char>)
    ensures
        r@ == message_prefix(msg@, bot@, bot_views(all_bots@)),
{
    let is_bot = is_text(&msg.sender_type, "bot");
    let own = is_bot && sender_is(msg, bot);
    if is_bot && !own {
        let name = match &msg.sender_bot_id {
            Some(id) => match first_bot_name(all_bots, &chars_of(id.as_str())) {
                Some(n) => n,
                None => chars_of("Bot"),
            },
            None => chars_of("Bot"),
        };
        named_note("[", &name, "]: ")
    } else {
        Vec::new()
    }
}

fn url_notes_exec(content: &String, url_cache: &UrlCache) -> (notes: Vec<Vec<char>>)
    requires
        url_cache.wf(),
    ensures
        crate::urls::char_views(notes@) == url_notes(urls_in(content@), url_cache@),
{
    let mut notes: Vec<Vec<char>> = Vec::new();
    if url_cache.is_empty() {
        proof {
            lemma_url_notes_of_empty_cache(urls_in(content@));
        }
        return notes;
    }
    let urls = extract_urls(content.as_str());
    let ghost uv = views(urls@);
    let mut i: usize = 0;
    while i < urls.len()
        invariant
            i <= urls@.len(),
            uv == views(urls@),
            url_cache.wf(),
            crate::urls::char_views(notes@) == url_notes(uv.take(i as int), url_cache@),
        decreases urls.len() - i,
    {
        assert(uv.take(i + 1).drop_last() =~= uv.take(i as int));
        assert(uv.take(i + 1).last() == urls@[i as int]@);
        match url_cache.get(urls[i].as_str()) {
            Some(content) => {
                let mut note = chars_of("[Content from ");
                push_str(&mut note, urls[i].as_str());
                push_str(&mut note, "]:\n");
                push_str(&mut note, content.as_str());
                let ghost before = notes@;
                notes.push(note);
                assert(crate::urls::char_views(notes@) =~= crate::urls::char_views(before).push(
                    note@,
                ));
            },
            None => {},
        }
        i += 1;
    }
    assert(uv.take(urls@.len() as int) =~= uv);
    notes
}

proof fn lemma_url_notes_of_empty_cache(urls: Seq<Seq<char>>)
    ensures
        url_notes(urls, Map::<Seq<char>, Seq<char>>::empty()) == Seq::<Seq<char>>::empty(),
    decreases urls.len(),
{
    if urls.len() > 0 {
        lemma_url_notes_of_empty_cache(urls.drop_last());
    }
}

/// One message as `bot` sees it (see `chat_message_for`).
pub fn chat_message_from(
    msg: &Message,
    data: &Vec<Option<Vec<u8>>>,
    bot: &Bot,
    all_bots: &[Bot],
    url_cache: &UrlCache,
) -> (m: ChatMessage)
    requires
        url_cache.wf(),
    ensures
        m@ == chat_message_for(msg@, data_views(data@), bot@, bot_views(all_bots@), url_cache@),
{
    let ghost dv = data_views(data@);
    let ghost atts = msg@.attachments;
    let vision = bot.supports_vision;
    let mut images: Vec<Vec<char>> = Vec::new();
    let mut notes: Vec<Vec<char>> = Vec::new();
    let mut j: usize = 0;
    while j < msg.attachments.len()
        invariant
            j <= msg.attachments@.len(),
            atts == msg@.attachments,
            dv == data_views(data@),
            vision == bot.supports_vision,
            crate::urls::char_views(images@) == images_of(atts.take(j as int), dv, vision),
            crate::urls::char_views(notes@) == notes_of(atts.take(j as int), dv, vision),
        decreases msg.attachments.len() - j,
    {
        assert(atts.take(j + 1).drop_last() =~= atts.take(j as int));
        assert(atts.take(j + 1).last() == msg.attachments@[j as int]@);
        let none: Option<Vec<u8>> = None;
        let d = if j < data.len() {
            &data[j]
        } else {
            &none
        };
        assert(bytes_view(*d) == crate::chat::data_at(dv, j as int));
        match attachment_piece_exec(&msg.attachments[j], d, vision) {
            PieceExec::Image(u) => {
                let ghost before = images@;
                images.push(u);
                assert(crate::urls::char_views(images@) =~= crate::urls::char_views(before).push(
                    u@,
                ));
            },
            PieceExec::Note(n) => {
                let ghost before = notes@;
                notes.push(n);
                assert(crate::urls::char_views(notes@) =~= crate::urls::char_views(before).push(
                    n@,
                ));
            },
        }
        j += 1;
    }
    assert(atts.take(msg.attachments@.len() as int) =~= atts);
    let is_human = is_text(&msg.sender_type, "human");
    if is_human {
        let extra = url_notes_exec(&msg.content, url_cache);
        let ghost before = notes@;
        let mut k: usize = 0;
        while k < extra.len()
            invariant
                k <= extra@.len(),
                crate::urls::char_views(notes@) == crate::urls::char_views(before)
                    + crate::urls::char_views(extra@).take(k as int),
            decreases extra.len() - k,
        {
            let ghost b2 = notes@;
            let copy = slice_chars(&extra[k], 0, extra[k].len());
            assert(copy@ =~= extra@[k as int]@);
            notes.push(copy);
            assert(crate::urls::char_views(notes@) =~= crate::urls::char_views(b2).push(extra@[k as int]@));
            assert(crate::urls::char_views(extra@).take(k + 1) =~= crate::urls::char_views(extra@).take(k as int).push(extra@[k as int]@));
            assert(crate::urls::char_views(notes@) =~= crate::urls::char_views(before)
                + crate::urls::char_views(extra@).take(k + 1));
            k += 1;
        }
        assert(crate::urls::char_views(extra@).take(extra@.len() as int) =~= crate::urls::char_views(
            extra@,
        ));
    } else {
        assert(crate::urls::char_views(notes@) + Seq::<Seq<char>>::empty() =~= crate::urls::char_views(
            notes@,
        ));
    }
    let is_bot = is_text(&msg.sender_type, "bot");
    let own = is_bot && sender_is(msg, bot);
    let role = if own {
        String::from_str("assistant")
    } else {
        String::from_str("user")
    };
    let mut text = prefix_for(msg, bot, all_bots);
    push_str(&mut text, msg.content.as_str());
    if notes.len() > 0 {
        push_str(&mut text, "\n\n");
        push_joined(&mut text, &notes, "\n\n");
    }
    let full = string_of(text.as_slice());
    if images.len() > 0 {
        let mut parts: Vec<ContentPart> = Vec::new();
        parts.push(ContentPart::Text { text: full });
        let mut k: usize = 0;
        while k < images.len()
            invariant
                k <= images@.len(),
                parts@.len() == k + 1,
                parts@[0]@ == ContentPartView::Text(text@),
                forall|t: int|
                    0 <= t < k ==> (#[trigger] parts@[t + 1])@ == ContentPartView::ImageUrl(
                        images@[t]@,
                    ),
            decreases images.len() - k,
        {
            parts.push(ContentPart::ImageUrl { image_url: ImageUrl { url: string_of(images[k].as_slice()) } });
            k += 1;
        }
        let ghost iv = crate::urls::char_views(images@);
        let ghost expected = seq![ContentPartView::Text(text@)] + iv.map_values(
            |u: Seq<char>| ContentPartView::ImageUrl(u),
        );
        assert forall|t: int| 0 <= t < parts@.len() implies parts@.map_values(
            |p: ContentPart| p@,
        )[t] == expected[t] by {
            if t > 0 {
                assert(parts@[(t - 1) + 1]@ == ContentPartView::ImageUrl(images@[t - 1]@));
            }
        }
        assert(parts@.map_values(|p: ContentPart| p@) =~= seq![ContentPartView::Text(text@)]
            + iv.map_values(|u: Seq<char>| ContentPartView::ImageUrl(u)));
        ChatMessage { role, content: ChatContent::Parts(parts) }
    } else {
        ChatMessage { role, content: ChatContent::Text(full) }
    }
}

/// Builds the OpenAI-compatible messages for `bot` from the conversation: a system message
/// with the bot's prompt and the other bots of `all_bots`, then each message as the bot sees
/// it (see `chat_messages_for`). `attachment_data[i][j]` holds the bytes read from the file of
/// attachment `j` of message `i` (`None` when it could not be read); `url_cache` holds the
/// fetched text of the links in human messages.
pub fn build_chat_messages(
    messages: &[Message],
    bot: &Bot,
    all_bots: &[Bot],
    url_cache: &UrlCache,
    attachment_data: &[Vec<Option<Vec<u8>>>],
) -> (r: Vec<ChatMessage>)
    requires
        url_cache.wf(),
    ensures
        chat_views(r@) == chat_messages_for(
            message_views(messages@),
            bot@,
            bot_views(all_bots@),
            url_cache@,
            files_views(attachment_data@),
        ),
{
    let ghost av = bot_views(all_bots@);
    let ghost mv = message_views(messages@);
    let ghost fv = files_views(attachment_data@);
    let mut r: Vec<ChatMessage> = Vec::new();
    let system = system_prompt_for(bot, all_bots);
    if !system.as_str().is_empty() {
        r.push(ChatMessage { role: String::from_str("system"), content: ChatContent::Text(system) });
    }
    let ghost sys = system_messages(bot@, av);
    assert(chat_views(r@) =~= sys);
    let empty: Vec<Option<Vec<u8>>> = Vec::new();
    let mut i: usize = 0;
    while i < messages.len()
        invariant
            i <= messages@.len(),
            av == bot_views(all_bots@),
            mv == message_views(messages@),
            fv == files_views(attachment_data@),
            sys == system_messages(bot@, av),
            url_cache.wf(),
            empty@.len() == 0,
            chat_views(r@) == sys + Seq::new(
                i as nat,
                |k: int| chat_message_for(mv[k], files_at(fv, k), bot@, av, url_cache@),
            ),
        decreases messages.len() - i,
    {
        let d = if i < attachment_data.len() {
            &attachment_data[i]
        } else {
            &empty
        };
        assert(data_views(d@) =~= files_at(fv, i as int));
        let m = chat_message_from(&messages[i], d, bot, all_bots, url_cache);
        assert(mv[i as int] == messages@[i as int]@);
        let ghost before = r@;
        r.push(m);
        assert(chat_views(r@) =~= chat_views(before).push(m@));
        assert(chat_views(r@) =~= sys + Seq::new(
            (i + 1) as nat,
            |k: int| chat_message_for(mv[k], files_at(fv, k), bot@, av, url_cache@),
        ));
        i += 1;
    }
    r
}

// ---------------------------------------------------------------------------
// Laws
// ---------------------------------------------------------------------------

/// A bot is sent one message per message of the conversation, after a system message exactly
/// when its system prompt (with the group context) is not empty.
pub proof fn lemma_chat_message_count(
    msgs: Seq<MessageView>,
    bot: BotView,
    all: Seq<BotView>,
    cache: Map<Seq<char>, Seq<char>>,
    files: Seq<Seq<Option<Seq<u8>>>>,
)
    ensures
        chat_messages_for(msgs, bot, all, cache, files).len() == msgs.len() + if system_text(
            bot,
            all,
        ).len() > 0 {
            1nat
        } else {
            0nat
        },
        forall|i: int|
            0 <= i < msgs.len() ==> #[trigger] chat_messages_for(msgs, bot, all, cache, files)[i
                + system_messages(bot, all).len()] == chat_message_for(
                msgs[i],
                files_at(files, i),
                bot,
                all,
                cache,
            ),
{
}

proof fn lemma_no_images_without_vision(atts: Seq<AttachmentView>, data: Seq<Option<Seq<u8>>>)
    ensures
        images_of(atts, data, false) == Seq::<Seq<char>>::empty(),
    decreases atts.len(),
{
    if atts.len() > 0 {
        lemma_no_images_without_vision(atts.drop_last(), data);
    }
}

/// A bot that does not see images is only ever sent plain text.
pub proof fn lemma_text_only_without_vision(
    msg: MessageView,
    data: Seq<Option<Seq<u8>>>,
    bot: BotView,
    all: Seq<BotView>,
    cache: Map<Seq<char>, Seq<char>>,
)
    requires
        !bot.supports_vision,
    ensures
        chat_message_for(msg, data, bot, all, cache).content is Text,
{
    lemma_no_images_without_vision(msg.attachments, data);
}

/// Fetched page text is added to human messages only: any other message reads the same
/// whatever the cache holds.
pub proof fn lemma_url_content_only_for_human(
    msg: MessageView,
    data: Seq<Option<Seq<u8>>>,
    bot: BotView,
    all: Seq<BotView>,
    cache: Map<Seq<char>, Seq<char>>,
)
    requires
        msg.sender_type != "human"@,
    ensures
        chat_message_for(msg, data, bot, all, cache) == chat_message_for(
            msg,
            data,
            bot,
            all,
            Map::empty(),
        ),
{
}

/// With an empty cache, a message's notes are those of its attachments alone.
pub proof fn lemma_empty_cache_adds_nothing(msg: MessageView, data: Seq<Option<Seq<u8>>>, vision: bool)
    ensures
        message_notes(msg, data, vision, Map::empty()) == notes_of(msg.attachments, data, vision),
{
    lemma_url_notes_of_empty_cache(urls_in(msg.content));
    assert(notes_of(msg.attachments, data, vision) + Seq::<Seq<char>>::empty() =~= notes_of(
        msg.attachments,
        data,
        vision,
    ));
}

/// The notes added to a message for its links: for every link the cache holds, in the order of
/// the links, one note "[Content from <link>]:\n" followed by the cached text, and nothing
/// for a link the cache does not hold. So there are as many notes as cached links.
pub proof fn lemma_url_notes_every_cached_link(urls: Seq<Seq<char>>, cache: Map<Seq<char>, Seq<char>>)
    ensures
        url_notes(urls, cache) == urls.filter(|u: Seq<char>| cache.contains_key(u)).map_values(
            |u: Seq<char>| "[Content from "@ + u + "]:\n"@ + cache[u],
        ),
        url_notes(urls, cache).len() == urls.filter(|u: Seq<char>| cache.contains_key(u)).len(),
    decreases urls.len(),
{
    reveal(Seq::filter);
    let f = |u: Seq<char>| "[Content from "@ + u + "]:\n"@ + cache[u];
    let pred = |u: Seq<char>| cache.contains_key(u);
    if urls.len() > 0 {
        lemma_url_notes_every_cached_link(urls.drop_last(), cache);
        let sub = urls.drop_last().filter(pred);
        if cache.contains_key(urls.last()) {
            assert(sub.push(urls.last()).map_values(f) =~= sub.map_values(f).push(f(urls.last())));
        }
    } else {
        assert(urls.filter(pred).map_values(f) =~= Seq::<Seq<char>>::empty());
    }
}

/// A bot sees its own messages as the assistant's and every other message (the human's, and
/// other bots') as the user's.
pub proof fn lemma_roles(
    msg: MessageView,
    data: Seq<Option<Seq<u8>>>,
    bot: BotView,
    all: Seq<BotView>,
    cache: Map<Seq<char>, Seq<char>>,
)
    ensures
        (msg.sender_type == "bot"@ && msg.sender_bot_id == Some(bot.id)) ==> chat_message_for(
            msg,
            data,
            bot,
            all,
            cache,
        ).role == "assistant"@,
        !(msg.sender_type == "bot"@ && msg.sender_bot_id == Some(bot.id)) ==> chat_message_for(
            msg,
            data,
            bot,
            all,
            cache,
        ).role == "user"@,
{
}

/// The text of a message as a bot sees it, when it carries no attachment and is not a human
/// message (so no note follows): another bot's message is its content after that bot's name
/// in brackets, "[<name>]: "; the bot's own message is its content alone.
pub proof fn lemma_bot_message_text(
    msg: MessageView,
    data: Seq<Option<Seq<u8>>>,
    bot: BotView,
    all: Seq<BotView>,
    cache: Map<Seq<char>, Seq<char>>,
)
    requires
        msg.sender_type == "bot"@,
        msg.attachments.len() == 0,
    ensures
        msg.sender_bot_id == Some(bot.id) ==> chat_message_for(msg, data, bot, all, cache).content
            == ChatContentView::Text(msg.content),
        msg.sender_bot_id != Some(bot.id) ==> chat_message_for(msg, data, bot, all, cache).content
            == ChatContentView::Text("["@ + sender_name(msg.sender_bot_id, all) + "]: "@ + msg.content),
{
    assert(notes_of(msg.attachments, data, bot.supports_vision) =~= Seq::<Seq<char>>::empty());
    assert(images_of(msg.attachments, data, bot.supports_vision) =~= Seq::<Seq<char>>::empty());
    reveal_strlit("bot");
    reveal_strlit("human");
    assert("bot"@[0] != "human"@[0]);
    assert(message_notes(msg, data, bot.supports_vision, cache) =~= Seq::<Seq<char>>::empty());
    assert(Seq::<char>::empty() + msg.content =~= msg.content);
}

/// A human message without attachments reads as its content; when the cache holds some of its
/// links, their notes follow after a blank line, separated by blank lines.
pub proof fn lemma_human_message_text(
    msg: MessageView,
    data: Seq<Option<Seq<u8>>>,
    bot: BotView,
    all: Seq<BotView>,
    cache: Map<Seq<char>, Seq<char>>,
)
    requires
        msg.sender_type == "human"@,
        msg.attachments.len() == 0,
    ensures
        ({
            let notes = url_notes(urls_in(msg.content), cache);
            &&& chat_message_for(msg, data, bot, all, cache).role == "user"@
            &&& notes.len() == 0 ==> chat_message_for(msg, data, bot, all, cache).content
                == ChatContentView::Text(msg.content)
            &&& notes.len() > 0 ==> chat_message_for(msg, data, bot, all, cache).content
                == ChatContentView::Text(msg.content + "\n\n"@ + join(notes, "\n\n"@))
        }),
{
    assert(notes_of(msg.attachments, data, bot.supports_vision) =~= Seq::<Seq<char>>::empty());
    assert(images_of(msg.attachments, data, bot.supports_vision) =~= Seq::<Seq<char>>::empty());
    reveal_strlit("bot");
    reveal_strlit("human");
    assert("bot"@[0] != "human"@[0]);
    let notes = url_notes(urls_in(msg.content), cache);
    assert(message_notes(msg, data, bot.supports_vision, cache) =~= notes);
    assert(Seq::<char>::empty() + msg.content =~= msg.content);
}

/// Joining puts the separator between each two parts and nowhere else: two parts join as the
/// first, the separator and the second; one more part adds the separator and that part.
pub proof fn lemma_join(parts: Seq<Seq<char>>, sep: Seq<char>, x: Seq<char>)
    ensures
        join(seq![x], sep) == x,
        parts.len() > 0 ==> join(parts.push(x), sep) == join(parts, sep) + sep + x,
        join(Seq::<Seq<char>>::empty(), sep) == Seq::<char>::empty(),
{
    assert(parts.push(x).drop_last() =~= parts);
}

/// The other bots named in the system prompt are the bots of the topic other than the bot
/// itself (told apart by identifier), in order; with no other bot the system prompt is the
/// bot's own.
pub proof fn lemma_other_bots(bot: BotView, all: Seq<BotView>)
    ensures
        other_bot_names(bot, all) == all.filter(|b: BotView| b.id != bot.id).map_values(|b: BotView| b.name),
        other_bot_names(bot, all).len() == 0 ==> system_text(bot, all) == bot.system_prompt,
    decreases all.len(),
{
    reveal(Seq::filter);
    let pred = |b: BotView| b.id != bot.id;
    let f = |b: BotView| b.name;
    if all.len() > 0 {
        lemma_other_bots(bot, all.drop_last());
        let sub = all.drop_last().filter(pred);
        if all.last().id != bot.id {
            assert(sub.push(all.last()).map_values(f) =~= sub.map_values(f).push(f(all.last())));
        }
    } else {
        assert(all.filter(pred).map_values(f) =~= Seq::<Seq<char>>::empty());
    }
    assert(bot.system_prompt + Seq::<char>::empty() =~= bot.system_prompt);
}

/// The name shown for another bot's message is that of the first bot of the topic with the
/// sender's identifier, and "Bot" when no bot has it.
pub proof fn lemma_sender_name(id: Seq<char>, all: Seq<BotView>)
    ensures
        (forall|k: int| 0 <= k < all.len() ==> all[k].id != id) ==> sender_name(Some(id), all) == "Bot"@,
        forall|k: int|
            0 <= k < all.len() && all[k].id == id && (forall|j: int| 0 <= j < k ==> all[j].id != id)
                ==> sender_name(Some(id), all) == (#[trigger] all[k]).name,
    decreases all.len(),
{
    if all.len() > 0 {
        lemma_sender_name(id, all.drop_first());
        assert forall|k: int|
            0 <= k < all.len() && all[k].id == id && (forall|j: int| 0 <= j < k ==> all[j].id != id)
                implies sender_name(Some(id), all) == (#[trigger] all[k]).name by {
            if k > 0 {
                assert(all.drop_first()[k - 1] == all[k]);
                assert forall|j: int| 0 <= j < k - 1 implies all.drop_first()[j].id != id by {
                    assert(all.drop_first()[j] == all[j + 1]);
                }
            }
        }
        if forall|k: int| 0 <= k < all.len() ==> all[k].id != id {
            assert forall|k: int| 0 <= k < all.drop_first().len() implies all.drop_first()[k].id != id by {
                assert(all.drop_first()[k] == all[k + 1]);
            }
        }
    }
}

/// Every attachment gives exactly one thing to the message: an image or a note.
pub proof fn lemma_each_attachment_counted(atts: Seq<AttachmentView>, data: Seq<Option<Seq<u8>>>, vision: bool)
    ensures
        images_of(atts, data, vision).len() + notes_of(atts, data, vision).len() == atts.len(),
    decreases atts.len(),
{
    if atts.len() > 0 {
        lemma_each_attachment_counted(atts.drop_last(), data, vision);
    }
}

/// What an attachment gives: an image file, to a bot that sees images, is sent as the URL
/// "data:<MIME type>;base64,<its bytes in base64>" when its bytes were read, and is named in a
/// note "[Image attached: <name>]" otherwise; a file that could not be read is named in a note
/// "[File attached: <name>]"; a read file that is neither an image nor HTML nor UTF-8 text
/// is named with its size in bytes.
pub proof fn lemma_attachment_piece(att: AttachmentView, data: Option<Seq<u8>>, vision: bool)
    ensures
        att.file_type == "image"@ && vision && data is Some ==> attachment_piece(att, data, vision)
            == Piece::Image("data:"@ + att.mime_type + ";base64,"@ + base64_of(data->Some_0)),
        att.file_type == "image"@ && !(vision && data is Some) ==> attachment_piece(att, data, vision)
            == Piece::Note("[Image attached: "@ + att.file_name + "]"@),
        att.file_type != "image"@ && data is None ==> attachment_piece(att, data, vision)
            == Piece::Note("[File attached: "@ + att.file_name + "]"@),
        att.file_type != "image"@ && !is_html_file(att) && data is Some && !valid_utf8(data->Some_0)
            ==> attachment_piece(att, data, vision) == Piece::Note(
            "[File attached: "@ + att.file_name + " ("@ + decimal(data->Some_0.len()) + " bytes)]"@,
        ),
        att.file_type != "image"@ && !is_html_file(att) && data is Some && valid_utf8(data->Some_0)
            ==> attachment_piece(att, data, vision) == Piece::Note(
            "[File: "@ + att.file_name + "]\n```\n"@ + truncated(decode_utf8(data->Some_0), 15000) + "\n```"@,
        ),
{
}

} // verus!
