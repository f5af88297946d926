use vstd::prelude::*;
use vstd::string::StringExecFns;

use crate::db::{calls_since, done_call, exec, extends, param_views, unit_view, Db, ParamView, SqlCall, SqlParam};
use crate::encoding::{base64_of, encode_base64};
use crate::ids::{new_id, now_rfc3339};
use crate::models::{Attachment, AttachmentView};
use crate::text::{chars_of, starts_with, starts_with_chars, string_of};

verus! {

/// What `char::is_alphanumeric` says of `c`.
pub uninterp spec fn char_is_alphanumeric(c: char) -> bool;

/// `char::is_alphanumeric`. Claimed: the result is `char_is_alphanumeric` of the character,
/// and for ASCII characters it holds exactly of letters and digits (the Unicode `Alphabetic`
/// and `Numeric` properties, as its documentation says).
#[verifier::external_body]
pub(crate) fn is_alphanumeric(c: char) -> (r: bool)
    ensures
        r == char_is_alphanumeric(c),
        (c as u32) < 128 ==> r == (('a' <= c && c <= 'z') || ('A' <= c && c <= 'Z') || ('0' <= c
            && c <= '9')),
{
    c.is_alphanumeric()
}

/// How an attachment is stored: "image" for an `image/` MIME type, "file" otherwise.
pub open spec fn file_type_of(mime: Seq<char>) -> Seq<char> {
    if starts_with(mime, "image/"@) {
        "image"@
    } else {
        "file"@
    }
}

/// The file type of an attachment with the given MIME type.
pub fn file_type_for_mime(mime_type: &str) -> (r: &'static str)
    ensures
        r@ == file_type_of(mime_type@),
{
    if starts_with_chars(&chars_of(mime_type), &chars_of("image/")) {
        "image"
    } else {
        "file"
    }
}

/// A character kept as it is in a stored file name.
pub open spec fn kept_in_file_name(c: char) -> bool {
    char_is_alphanumeric(c) || c == '.' || c == '-'
}

/// A file name made safe to store: every character other than a letter, a digit, `.` or `-`
/// becomes `_`.
pub open spec fn sanitized(name: Seq<char>) -> Seq<char> {
    name.map_values(|c: char| if kept_in_file_name(c) {
        c
    } else {
        '_'
    })
}

pub fn sanitize_file_name(file_name: &str) -> (r: String)
    ensures
        r@ == sanitized(file_name@),
{
    let cs = chars_of(file_name);
    let mut out: Vec<char> = Vec::new();
    let mut i: usize = 0;
    while i < cs.len()
        invariant
            i <= cs.len(),
            out@ == sanitized(cs@.take(i as int)),
        decreases cs.len() - i,
    {
        let c = cs[i];
        if is_alphanumeric(c) || c == '.' || c == '-' {
            out.push(c);
        } else {
            out.push('_');
        }
        i += 1;
        assert(out@ =~= sanitized(cs@.take(i as int)));
    }
    assert(cs@.take(cs.len() as int) =~= cs@);
    string_of(out.as_slice())
}

/// The name an attachment's file is stored under: its identifier, `_`, and its sanitized name.
pub open spec fn stored_name(id: Seq<char>, file_name: Seq<char>) -> Seq<char> {
    id + "_"@ + sanitized(file_name)
}

pub fn stored_file_name(id: &str, file_name: &str) -> (r: String)
    ensures
        r@ == stored_name(id@, file_name@),
{
    let mut r = String::from_str(id);
    r.append("_");
    r.append(sanitize_file_name(file_name).as_str());
    r
}

/// The record of an attachment saved at `file_path`.
pub fn attachment_record(
    id: String,
    message_id: &str,
    file_name: &str,
    file_path: String,
    mime_type: &str,
    created_at: String,
) -> (a: Attachment)
    ensures
        a@ == (AttachmentView {
            id: id@,
            message_id: message_id@,
            file_name: file_name@,
            file_path: file_path@,
            file_type: file_type_of(mime_type@),
            mime_type: mime_type@,
            created_at: created_at@,
        }),
{
    Attachment {
        id,
        message_id: String::from_str(message_id),
        file_name: String::from_str(file_name),
        file_path,
        file_type: String::from_str(file_type_for_mime(mime_type)),
        mime_type: String::from_str(mime_type),
        created_at,
    }
}

/// The insertion of an attachment's record.
pub const INSERT_ATTACHMENT_SQL: &'static str = "INSERT INTO attachments (id, message_id, file_name, file_path, file_type, mime_type, created_at)
         VALUES (?1, ?2, ?3, ?4, ?5, ?6, ?7)";

/// The parameters that insert an attachment's record: its fields in column order.
pub open spec fn attachment_params(a: AttachmentView) -> Seq<ParamView> {
    seq![
        ParamView::Text(a.id),
        ParamView::Text(a.message_id),
        ParamView::Text(a.file_name),
        ParamView::Text(a.file_path),
        ParamView::Text(a.file_type),
        ParamView::Text(a.mime_type),
        ParamView::Text(a.created_at),
    ]
}

/// Stores the record of an attachment.
pub(crate) fn db_insert_attachment(db: &mut Db, att: &Attachment) -> (r: Result<(), String>)
    ensures
        final(db).calls() == old(db).calls().push(done_call(INSERT_ATTACHMENT_SQL@, attachment_params(att@), unit_view(r))),
{
    let ps = vec![
        SqlParam::Text(att.id.clone()),
        SqlParam::Text(att.message_id.clone()),
        SqlParam::Text(att.file_name.clone()),
        SqlParam::Text(att.file_path.clone()),
        SqlParam::Text(att.file_type.clone()),
        SqlParam::Text(att.mime_type.clone()),
        SqlParam::Text(att.created_at.clone()),
    ];
    assert(param_views(ps@) =~= attachment_params(att@));
    exec(db, INSERT_ATTACHMENT_SQL, ps)
}

/// Whether `a` is the record of a new attachment of message `message_id` named `file_name`
/// with `mime_type`: a 36-character identifier, and the file type of the MIME type.
pub open spec fn new_attachment(a: AttachmentView, message_id: Seq<char>, file_name: Seq<char>, mime_type: Seq<char>) -> bool {
    &&& a.message_id == message_id
    &&& a.file_name == file_name
    &&& a.mime_type == mime_type
    &&& a.file_type == file_type_of(mime_type)
    &&& a.id.len() == 36
    &&& a.created_at.len() > 0
}

/// Whether saving succeeded, with the message of its error.
pub open spec fn saved_view(r: Result<Attachment, String>) -> Result<(), Seq<char>> {
    match r {
        Ok(_) => Ok(()),
        Err(e) => Err(e@),
    }
}

/// Saves an attachment of a message: hands its bytes to `store_file` with the name to store
/// them under (`stored_name` of a new identifier and the file name), which writes them and
/// gives back the path, then inserts the attachment's record, which is returned. A failure of
/// either step is returned as it is; nothing is inserted when the file is not stored.
pub fn db_save_attachment<W>(
    db: &mut Db,
    message_id: &str,
    file_name: &str,
    file_data: Vec<u8>,
    mime_type: &str,
    store_file: W,
) -> (r: Result<Attachment, String>)
    where
        W: Fn(String, Vec<u8>) -> Result<String, String>,
    requires
        forall|n: String, d: Vec<u8>| store_file.requires((n, d)),
    ensures
        extends(old(db).calls(), final(db).calls()),
        calls_since(old(db).calls(), final(db).calls()).len() == 0 ==> r is Err && exists|n: String, id: Seq<char>|
            #![trigger store_file.ensures((n, file_data), Err::<String, String>(r->Err_0)), stored_name(id, file_name@)]
            {
                &&& id.len() == 36
                &&& n@ == stored_name(id, file_name@)
                &&& store_file.ensures((n, file_data), Err::<String, String>(r->Err_0))
            },
        calls_since(old(db).calls(), final(db).calls()).len() != 0 ==> exists|a: AttachmentView, n: String, path: String|
            #![trigger new_attachment(a, message_id@, file_name@, mime_type@), store_file.ensures((n, file_data), Ok::<String, String>(path))]
            {
                &&& new_attachment(a, message_id@, file_name@, mime_type@)
                &&& n@ == stored_name(a.id, file_name@)
                &&& path@ == a.file_path
                &&& store_file.ensures((n, file_data), Ok::<String, String>(path))
                &&& calls_since(old(db).calls(), final(db).calls()) == seq![
                    done_call(INSERT_ATTACHMENT_SQL@, attachment_params(a), saved_view(r)),
                ]
                &&& (r matches Ok(x) ==> x@ == a)
            },
{
    let ghost before = db.calls();
    let id = new_id();
    let created_at = now_rfc3339();
    let name = stored_file_name(id.as_str(), file_name);
    let ghost n = name;
    let ghost d = file_data;
    let stored = store_file(name, file_data);
    assert(calls_since(before, db.calls()) =~= Seq::<SqlCall>::empty());
    let path = match stored {
        Ok(p) => p,
        Err(e) => {
            assert(stored_name(id@, file_name@) == n@);
            assert(store_file.ensures((n, d), Err::<String, String>(e)));
            let r: Result<Attachment, String> = Err(e);
            assert(r->Err_0 == e);
            assert(exists|n: String, id: Seq<char>|
                #![trigger store_file.ensures((n, file_data), Err::<String, String>(r->Err_0)), stored_name(id, file_name@)]
                {
                    &&& id.len() == 36
                    &&& n@ == stored_name(id, file_name@)
                    &&& store_file.ensures((n, file_data), Err::<String, String>(r->Err_0))
                });
            return r;
        },
    };
    assert(store_file.ensures((n, d), Ok::<String, String>(path)));
    let ghost p = path;
    let att = attachment_record(id, message_id, file_name, path, mime_type, created_at);
    assert(att.file_path@ == p@);
    let inserted = db_insert_attachment(db, &att);
    assert(calls_since(before, db.calls()) =~= seq![db.calls().last()]);
    assert(new_attachment(att@, message_id@, file_name@, mime_type@));
    match inserted {
        Ok(_) => {
            Ok(att)
        },
        Err(e) => {
            Err(e)
        },
    }
}

/// An attachment's contents as the frontend reads them: in standard base64.
pub fn attachment_data_base64(bytes: &[u8]) -> (s: String)
    ensures
        s@ == base64_of(bytes@),
{
    encode_base64(bytes)
}

/// Sanitizing keeps a name's length, and each of its characters is kept or becomes `_`.
pub proof fn lemma_sanitized_shape(name: Seq<char>)
    ensures
        sanitized(name).len() == name.len(),
        forall|i: int|
            0 <= i < name.len() ==> (kept_in_file_name(name[i]) && #[trigger] sanitized(name)[i]
                == name[i]) || (!kept_in_file_name(name[i]) && sanitized(name)[i] == '_'),
{
}

/// A stored file name begins with the attachment's identifier and `_`, so two attachments
/// with different identifiers of the same length never share a file.
pub proof fn lemma_stored_names_differ(id1: Seq<char>, id2: Seq<char>, n1: Seq<char>, n2: Seq<char>)
    requires
        id1.len() == id2.len(),
        id1 != id2,
    ensures
        stored_name(id1, n1) != stored_name(id2, n2),
{
    if forall|k: int| 0 <= k < id1.len() ==> id1[k] == id2[k] {
        assert(id1 =~= id2);
    }
    let k = choose|k: int| 0 <= k < id1.len() && id1[k] != id2[k];
    assert(stored_name(id1, n1)[k] == id1[k]);
    assert(stored_name(id2, n2)[k] == id2[k]);
}

/// An attachment is stored as an image exactly when its MIME type begins with "image/".
pub proof fn lemma_file_type(mime: Seq<char>)
    ensures
        starts_with(mime, "image/"@) ==> file_type_of(mime) == "image"@,
        !starts_with(mime, "image/"@) ==> file_type_of(mime) == "file"@,
{
}

/// A character of a file name is kept exactly when it is alphanumeric, '.' or '-'; any other
/// becomes '_'. A stored name is the identifier, '_' and the sanitized name.
pub proof fn lemma_sanitized_characters(id: Seq<char>, name: Seq<char>)
    ensures
        sanitized(name).len() == name.len(),
        forall|i: int|
            0 <= i < name.len() ==> (#[trigger] sanitized(name)[i] == name[i] <==> (char_is_alphanumeric(name[i])
                || name[i] == '.' || name[i] == '-' || name[i] == '_')),
        forall|i: int|
            0 <= i < name.len() && !(char_is_alphanumeric(name[i]) || name[i] == '.' || name[i] == '-')
                ==> #[trigger] sanitized(name)[i] == '_',
        stored_name(id, name).take(id.len() as int) == id,
        stored_name(id, name)[id.len() as int] == '_',
        stored_name(id, name).skip(id.len() as int + 1) == sanitized(name),
{
    reveal_strlit("_");
    assert(stored_name(id, name).take(id.len() as int) =~= id);
    assert(stored_name(id, name).skip(id.len() as int + 1) =~= sanitized(name));
}

} // verus!
