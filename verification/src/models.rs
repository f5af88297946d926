use vstd::prelude::*;

verus! {

/// An AI participant: where to reach it and how it should behave.
#[derive(Debug, Clone)]
pub struct Bot {
    pub id: String,
    pub name: String,
    pub avatar_color: String,
    pub base_url: String,
    pub api_key: String,
    pub model: String,
    pub system_prompt: String,
    pub supports_vision: bool,
    pub created_at: String,
}

pub struct BotView {
    pub id: Seq<char>,
    pub name: Seq<char>,
    pub avatar_color: Seq<char>,
    pub base_url: Seq<char>,
    pub api_key: Seq<char>,
    pub model: Seq<char>,
    pub system_prompt: Seq<char>,
    pub supports_vision: bool,
    pub created_at: Seq<char>,
}

impl View for Bot {
    type V = BotView;

    open spec fn view(&self) -> BotView {
        BotView {
            id: self.id@,
            name: self.name@,
            avatar_color: self.avatar_color@,
            base_url: self.base_url@,
            api_key: self.api_key@,
            model: self.model@,
            system_prompt: self.system_prompt@,
            supports_vision: self.supports_vision,
            created_at: self.created_at@,
        }
    }
}

impl Bot {
    /// A field-by-field copy.
    pub fn duplicate(&self) -> (r: Bot)
        ensures
            r@ == self@,
    {
        Bot {
            id: self.id.clone(),
            name: self.name.clone(),
            avatar_color: self.avatar_color.clone(),
            base_url: self.base_url.clone(),
            api_key: self.api_key.clone(),
            model: self.model.clone(),
            system_prompt: self.system_prompt.clone(),
            supports_vision: self.supports_vision,
            created_at: self.created_at.clone(),
        }
    }
}

/// The views of a list of bots.
pub open spec fn bot_views(bots: Seq<Bot>) -> Seq<BotView> {
    bots.map_values(|b: Bot| b@)
}

/// What a new bot is made from; absent fields take their defaults.
#[derive(Debug)]
pub struct CreateBotRequest {
    pub name: String,
    pub avatar_color: Option<String>,
    pub base_url: String,
    pub api_key: Option<String>,
    pub model: String,
    pub system_prompt: Option<String>,
    pub supports_vision: Option<bool>,
}

/// A partial update of a bot; absent fields keep their values.
#[derive(Debug)]
pub struct UpdateBotRequest {
    pub name: Option<String>,
    pub avatar_color: Option<String>,
    pub base_url: Option<String>,
    pub api_key: Option<String>,
    pub model: Option<String>,
    pub system_prompt: Option<String>,
    pub supports_vision: Option<bool>,
}

/// A conversation thread and the bots that take part in it.
#[derive(Debug, Clone)]
pub struct Topic {
    pub id: String,
    pub title: String,
    pub created_at: String,
    pub updated_at: String,
    pub bots: Vec<Bot>,
}

pub struct TopicView {
    pub id: Seq<char>,
    pub title: Seq<char>,
    pub created_at: Seq<char>,
    pub updated_at: Seq<char>,
    pub bots: Seq<BotView>,
}

impl View for Topic {
    type V = TopicView;

    open spec fn view(&self) -> TopicView {
        TopicView {
            id: self.id@,
            title: self.title@,
            created_at: self.created_at@,
            updated_at: self.updated_at@,
            bots: bot_views(self.bots@),
        }
    }
}

/// What a new topic is made from.
#[derive(Debug)]
pub struct CreateTopicRequest {
    pub title: String,
    pub bot_ids: Vec<String>,
}

/// A topic as the topic list shows it.
#[derive(Debug, Clone)]
pub struct TopicSummary {
    pub id: String,
    pub title: String,
    pub updated_at: String,
    pub bot_count: usize,
    pub last_message_preview: Option<String>,
}

/// A file attached to a message and stored on disk.
#[derive(Debug, Clone)]
pub struct Attachment {
    pub id: String,
    pub message_id: String,
    pub file_name: String,
    pub file_path: String,
    pub file_type: String,
    pub mime_type: String,
    pub created_at: String,
}

pub struct AttachmentView {
    pub id: Seq<char>,
    pub message_id: Seq<char>,
    pub file_name: Seq<char>,
    pub file_path: Seq<char>,
    pub file_type: Seq<char>,
    pub mime_type: Seq<char>,
    pub created_at: Seq<char>,
}

impl View for Attachment {
    type V = AttachmentView;

    open spec fn view(&self) -> AttachmentView {
        AttachmentView {
            id: self.id@,
            message_id: self.message_id@,
            file_name: self.file_name@,
            file_path: self.file_path@,
            file_type: self.file_type@,
            mime_type: self.mime_type@,
            created_at: self.created_at@,
        }
    }
}

/// One message of a topic: from the human (`sender_type` "human") or from a bot ("bot").
#[derive(Debug, Clone)]
pub struct Message {
    pub id: String,
    pub topic_id: String,
    pub sender_type: String,
    pub sender_bot_id: Option<String>,
    pub content: String,
    pub created_at: String,
    pub attachments: Vec<Attachment>,
}

pub struct MessageView {
    pub id: Seq<char>,
    pub topic_id: Seq<char>,
    pub sender_type: Seq<char>,
    pub sender_bot_id: Option<Seq<char>>,
    pub content: Seq<char>,
    pub created_at: Seq<char>,
    pub attachments: Seq<AttachmentView>,
}

/// The view of an optional string.
pub open spec fn opt_view(s: Option<String>) -> Option<Seq<char>> {
    match s {
        Some(x) => Some(x@),
        None => None,
    }
}

impl View for Message {
    type V = MessageView;

    open spec fn view(&self) -> MessageView {
        MessageView {
            id: self.id@,
            topic_id: self.topic_id@,
            sender_type: self.sender_type@,
            sender_bot_id: opt_view(self.sender_bot_id),
            content: self.content@,
            created_at: self.created_at@,
            attachments: self.attachments@.map_values(|a: Attachment| a@),
        }
    }
}

/// A message typed by the human.
#[derive(Debug)]
pub struct SendMessageRequest {
    pub topic_id: String,
    pub content: String,
}

/// A copy of an optional string.
pub fn copy_opt(s: &Option<String>) -> (r: Option<String>)
    ensures
        opt_view(r) == opt_view(*s),
{
    match s {
        Some(x) => Some(x.clone()),
        None => None,
    }
}

} // verus!
