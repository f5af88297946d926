use vstd::prelude::*;
use vstd::string::StringExecFns;

use crate::text::{chars_of, slice_chars, string_of};

verus! {

/// A request to an OpenAI-compatible chat completions endpoint.
pub struct ChatRequest {
    pub model: String,
    pub messages: Vec<ChatMessage>,
    pub stream: bool,
}

/// One message of a chat request: a role ("system", "user", "assistant") and its content.
pub struct ChatMessage {
    pub role: String,
    pub content: ChatContent,
}

/// Plain text, or parts (text and images) for models that see images.
pub enum ChatContent {
    Text(String),
    Parts(Vec<ContentPart>),
}

/// One part of a multi-part message.
pub enum ContentPart {
    Text { text: String },
    ImageUrl { image_url: ImageUrl },
}

/// An image given by URL (here a `data:` URL).
pub struct ImageUrl {
    pub url: String,
}

pub enum ContentPartView {
    Text(Seq<char>),
    ImageUrl(Seq<char>),
}

pub enum ChatContentView {
    Text(Seq<char>),
    Parts(Seq<ContentPartView>),
}

pub struct ChatMessageView {
    pub role: Seq<char>,
    pub content: ChatContentView,
}

impl View for ContentPart {
    type V = ContentPartView;

    open spec fn view(&self) -> ContentPartView {
        match self {
            ContentPart::Text { text } => ContentPartView::Text(text@),
            ContentPart::ImageUrl { image_url } => ContentPartView::ImageUrl(image_url.url@),
        }
    }
}

impl View for ChatContent {
    type V = ChatContentView;

    open spec fn view(&self) -> ChatContentView {
        match self {
            ChatContent::Text(t) => ChatContentView::Text(t@),
            ChatContent::Parts(ps) => ChatContentView::Parts(ps@.map_values(|p: ContentPart| p@)),
        }
    }
}

impl View for ChatMessage {
    type V = ChatMessageView;

    open spec fn view(&self) -> ChatMessageView {
        ChatMessageView { role: self.role@, content: self.content@ }
    }
}

/// The views of a list of chat messages.
pub open spec fn chat_views(ms: Seq<ChatMessage>) -> Seq<ChatMessageView> {
    ms.map_values(|m: ChatMessage| m@)
}

/// `s` without its trailing `'/'` characters (`str::trim_end_matches('/')`).
pub open spec fn trim_trailing_slashes(s: Seq<char>) -> Seq<char>
    decreases s.len(),
{
    if s.len() > 0 && s.last() == '/' {
        trim_trailing_slashes(s.drop_last())
    } else {
        s
    }
}

/// The chat completions endpoint under a base URL.
pub open spec fn completions_url(base_url: Seq<char>) -> Seq<char> {
    trim_trailing_slashes(base_url) + "/chat/completions"@
}

/// The endpoint a chat request goes to: the base URL without trailing slashes, then
/// `/chat/completions`.
pub fn chat_completions_url(base_url: &str) -> (url: String)
    ensures
        url@ == completions_url(base_url@),
{
    let cs = chars_of(base_url);
    let mut end = cs.len();
    assert(cs@.subrange(0, end as int) =~= cs@);
    while end > 0 && cs[end - 1] == '/'
        invariant
            end <= cs.len(),
            trim_trailing_slashes(cs@) == trim_trailing_slashes(cs@.subrange(0, end as int)),
        decreases end,
    {
        assert(cs@.subrange(0, end as int).drop_last() =~= cs@.subrange(0, end - 1));
        end -= 1;
    }
    let kept = slice_chars(&cs, 0, end);
    let mut url = string_of(kept.as_slice());
    url.append("/chat/completions");
    url
}

/// The `Authorization` header value for an API key; none for an empty key.
pub open spec fn authorization_value(api_key: Seq<char>) -> Option<Seq<char>> {
    if api_key.len() == 0 {
        None
    } else {
        Some("Bearer "@ + api_key)
    }
}

/// The `Authorization` header to send with a key: `Bearer <key>`, or none when the key is empty.
pub fn authorization_header(api_key: &str) -> (r: Option<String>)
    ensures
        match (r, authorization_value(api_key@)) {
            (Some(a), Some(b)) => a@ == b,
            (None, None) => true,
            _ => false,
        },
{
    if api_key.is_empty() {
        None
    } else {
        let mut v = String::from_str("Bearer ");
        v.append(api_key);
        Some(v)
    }
}

/// The endpoint is the base URL with its trailing slashes taken off (and nothing else), then
/// "/chat/completions".
pub proof fn lemma_completions_url(base_url: Seq<char>)
    ensures
        exists|k: int|
            #![trigger base_url.take(k)]
            {
                &&& 0 <= k <= base_url.len()
                &&& completions_url(base_url) == base_url.take(k) + "/chat/completions"@
                &&& (k > 0 ==> base_url[k - 1] != '/')
                &&& forall|i: int| k <= i < base_url.len() ==> #[trigger] base_url[i] == '/'
            },
    decreases base_url.len(),
{
    if base_url.len() > 0 && base_url.last() == '/' {
        lemma_completions_url(base_url.drop_last());
        let k = choose|k: int|
            #![trigger base_url.drop_last().take(k)]
            {
                &&& 0 <= k <= base_url.drop_last().len()
                &&& completions_url(base_url.drop_last()) == base_url.drop_last().take(k) + "/chat/completions"@
                &&& (k > 0 ==> base_url.drop_last()[k - 1] != '/')
                &&& forall|i: int| k <= i < base_url.drop_last().len() ==> #[trigger] base_url.drop_last()[i] == '/'
            };
        assert(base_url.drop_last().take(k) =~= base_url.take(k));
        assert forall|i: int| k <= i < base_url.len() implies #[trigger] base_url[i] == '/' by {
            if i < base_url.len() - 1 {
                assert(base_url.drop_last()[i] == base_url[i]);
            }
        }
        if k > 0 {
            assert(base_url.drop_last()[k - 1] == base_url[k - 1]);
        }
    } else {
        assert(base_url.take(base_url.len() as int) =~= base_url);
    }
}

/// A key is sent as "Bearer <key>"; an empty key sends no header.
pub proof fn lemma_authorization(api_key: Seq<char>)
    ensures
        api_key.len() == 0 <==> authorization_value(api_key) is None,
        api_key.len() > 0 ==> authorization_value(api_key) == Some("Bearer "@ + api_key),
{
}

} // verus!
