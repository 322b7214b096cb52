//! Conversation messages and the mathematical model that contracts speak of.

use vstd::prelude::*;
use vstd::string::*;

use crate::text::joined;

verus! {

/// Trusted: a JSON value that is carried through unread.
#[verifier::external_type_specification]
#[verifier::external_body]
pub struct ExJsonValue(serde_json::Value);

/// Who a message comes from.
#[derive(Clone, Copy, Debug, PartialEq, Eq, Structural)]
pub enum MessageRole {
    System,
    User,
    Assistant,
    Tool,
}

/// One piece of a message with several pieces.
#[derive(Debug)]
pub enum MessagePart {
    Text(String),
    Image { url: String, detail: Option<String> },
}

/// What a message holds.
#[derive(Debug)]
pub enum MessageContent {
    Text(String),
    Image { url: String, detail: Option<String> },
    Parts(Vec<MessagePart>),
}

/// A tool invocation that an assistant asks for.
#[derive(Debug)]
pub struct ToolCall {
    pub id: String,
    pub tool_name: String,
    pub arguments: serde_json::Value,
}

/// A message of a conversation.
#[derive(Debug)]
pub struct Message {
    pub role: MessageRole,
    pub content: MessageContent,
    pub id: Option<String>,
    pub tool_call_ids: Vec<String>,
    pub tool_calls: Option<Vec<ToolCall>>,
    pub reasoning: Option<String>,
    pub delegation_id: Option<String>,
    pub tool_error: bool,
    pub include_in_prompt: bool,
}

/// Model of a [`MessagePart`].
#[verifier::ext_equal]
pub enum PartModel {
    Text(Seq<char>),
    Image { url: Seq<char>, detail: Option<Seq<char>> },
}

/// Model of a [`MessageContent`].
#[verifier::ext_equal]
pub enum ContentModel {
    Text(Seq<char>),
    Image { url: Seq<char>, detail: Option<Seq<char>> },
    Parts(Seq<PartModel>),
}

/// Model of a [`ToolCall`].
#[verifier::ext_equal]
pub struct CallModel {
    pub id: Seq<char>,
    pub tool_name: Seq<char>,
    pub arguments: serde_json::Value,
}

/// Model of a [`Message`].
#[verifier::ext_equal]
pub struct MessageModel {
    pub role: MessageRole,
    pub content: ContentModel,
    pub id: Option<Seq<char>>,
    pub tool_call_ids: Seq<Seq<char>>,
    pub tool_calls: Option<Seq<CallModel>>,
    pub reasoning: Option<Seq<char>>,
    pub delegation_id: Option<Seq<char>>,
    pub tool_error: bool,
    pub include_in_prompt: bool,
}

impl DeepView for MessagePart {
    type V = PartModel;

    open spec fn deep_view(&self) -> PartModel {
        match self {
            MessagePart::Text(text) => PartModel::Text(text@),
            MessagePart::Image { url, detail } => PartModel::Image {
                url: url@,
                detail: detail.deep_view(),
            },
        }
    }
}

impl DeepView for MessageContent {
    type V = ContentModel;

    open spec fn deep_view(&self) -> ContentModel {
        match self {
            MessageContent::Text(text) => ContentModel::Text(text@),
            MessageContent::Image { url, detail } => ContentModel::Image {
                url: url@,
                detail: detail.deep_view(),
            },
            MessageContent::Parts(parts) => ContentModel::Parts(parts.deep_view()),
        }
    }
}

impl DeepView for ToolCall {
    type V = CallModel;

    open spec fn deep_view(&self) -> CallModel {
        CallModel { id: self.id@, tool_name: self.tool_name@, arguments: self.arguments }
    }
}

impl DeepView for Message {
    type V = MessageModel;

    open spec fn deep_view(&self) -> MessageModel {
        MessageModel {
            role: self.role,
            content: self.content.deep_view(),
            id: self.id.deep_view(),
            tool_call_ids: self.tool_call_ids.deep_view(),
            tool_calls: self.tool_calls.deep_view(),
            reasoning: self.reasoning.deep_view(),
            delegation_id: self.delegation_id.deep_view(),
            tool_error: self.tool_error,
            include_in_prompt: self.include_in_prompt,
        }
    }
}

/// The text of a text part; an image part has none.
pub open spec fn part_text(part: PartModel) -> Option<Seq<char>> {
    match part {
        PartModel::Text(text) => Some(text),
        PartModel::Image { .. } => None,
    }
}

/// The visible text of a message content: the text itself, the text parts one per line, or
/// nothing for an image.
pub open spec fn content_text(content: ContentModel) -> Seq<char> {
    match content {
        ContentModel::Text(text) => text,
        ContentModel::Image { .. } => Seq::empty(),
        ContentModel::Parts(parts) => joined(
            parts.filter_map(|part: PartModel| part_text(part)),
            "\n"@,
        ),
    }
}

impl MessageContent {
    /// The visible text: the text itself, the text parts one per line, or nothing for an image.
    pub fn to_text(&self) -> (text: String)
        ensures
            text@ == content_text(self.deep_view()),
    {
        match self {
            MessageContent::Text(text) => text.clone(),
            MessageContent::Image { .. } => String::new(),
            MessageContent::Parts(parts) => parts_text(parts),
        }
    }
}

fn parts_text(parts: &Vec<MessagePart>) -> (text: String)
    ensures
        text@ == content_text(ContentModel::Parts(parts.deep_view())),
{
    let ghost pick = |part: PartModel| part_text(part);
    let ghost model = parts.deep_view();
    let mut text = String::new();
    let mut started = false;
    let mut i: usize = 0;
    while i < parts.len()
        invariant
            i <= parts.len(),
            model == parts.deep_view(),
            pick == |part: PartModel| part_text(part),
            text@ == joined(model.take(i as int).filter_map(pick), "\n"@),
            started == (model.take(i as int).filter_map(pick).len() > 0),
        decreases parts.len() - i,
    {
        let ghost before = model.take(i as int).filter_map(pick);
        let ghost after = model.take(i + 1).filter_map(pick);
        proof {
            model.lemma_filter_map_take_succ(pick, i as int);
            assert(model[i as int] == parts[i as int].deep_view());
        }
        match &parts[i] {
            MessagePart::Text(piece) => {
                if started {
                    text.append("\n");
                }
                text.append(piece.as_str());
                started = true;
                proof {
                    assert(after =~= before.push(piece@));
                    assert(after.drop_last() =~= before);
                    assert(text@ =~= joined(after, "\n"@));
                }
            },
            MessagePart::Image { .. } => {},
        }
        i = i + 1;
    }
    assert(model.take(i as int) =~= model);
    text
}

/// A message with text content and nothing else set.
pub open spec fn text_message(role: MessageRole, text: Seq<char>) -> MessageModel {
    MessageModel {
        role,
        content: ContentModel::Text(text),
        id: None,
        tool_call_ids: Seq::empty(),
        tool_calls: None,
        reasoning: None,
        delegation_id: None,
        tool_error: false,
        include_in_prompt: true,
    }
}

impl Message {
    /// A message with text content and nothing else set.
    pub fn with_text(role: MessageRole, text: String) -> (message: Message)
        ensures
            message.deep_view() == text_message(role, text@),
    {
        let message = Message {
            role,
            content: MessageContent::Text(text),
            id: None,
            tool_call_ids: Vec::new(),
            tool_calls: None,
            reasoning: None,
            delegation_id: None,
            tool_error: false,
            include_in_prompt: true,
        };
        assert(message.deep_view() =~= text_message(role, text@));
        message
    }

    /// A user message with text content.
    pub fn user(text: &str) -> (message: Message)
        ensures
            message.deep_view() == text_message(MessageRole::User, text@),
    {
        Message::with_text(MessageRole::User, text.to_owned())
    }

    /// A system message with text content.
    pub fn system(text: &str) -> (message: Message)
        ensures
            message.deep_view() == text_message(MessageRole::System, text@),
    {
        Message::with_text(MessageRole::System, text.to_owned())
    }
}

} // verus!
