//! Laws of messages: what their models hold, and what their text is.

use vstd::prelude::*;

use crate::message::{
    content_text, part_text, text_message, ContentModel, Message, MessageContent, MessageModel,
    MessagePart, MessageRole, PartModel, ToolCall,
};
use crate::text::{is_blank, is_white_space, joined};

verus! {

/// What an optional text holds.
pub open spec fn optional_text(text: Option<String>) -> Option<Seq<char>> {
    match text {
        Some(text) => Some(text@),
        None => None,
    }
}

/// The model of a part holds the part's own text, or its own address and detail.
pub proof fn law_part_model(part: MessagePart)
    ensures
        match part {
            MessagePart::Text(text) => part.deep_view() == PartModel::Text(text@),
            MessagePart::Image { url, detail } => part.deep_view() == (PartModel::Image {
                url: url@,
                detail: optional_text(detail),
            }),
        },
{
}

/// The model of a content holds the content's own text, address and detail, or the models of its
/// own parts, in order.
pub proof fn law_content_model(content: MessageContent)
    ensures
        match content {
            MessageContent::Text(text) => content.deep_view() == ContentModel::Text(text@),
            MessageContent::Image { url, detail } => content.deep_view() == (ContentModel::Image {
                url: url@,
                detail: optional_text(detail),
            }),
            MessageContent::Parts(parts) => content.deep_view() == ContentModel::Parts(
                parts@.map_values(|part: MessagePart| part.deep_view()),
            ),
        },
{
    if let MessageContent::Parts(parts) = content {
        assert(parts.deep_view() =~= parts@.map_values(|part: MessagePart| part.deep_view()));
    }
}

/// The model of a tool call holds the call's own id, tool name and arguments.
pub proof fn law_call_model(call: ToolCall)
    ensures
        call.deep_view().id == call.id@,
        call.deep_view().tool_name == call.tool_name@,
        call.deep_view().arguments == call.arguments,
{
}

/// The model of a message holds every field of the message.
pub proof fn law_message_model(message: Message)
    ensures
        message.deep_view().role == message.role,
        message.deep_view().content == message.content.deep_view(),
        message.deep_view().id == optional_text(message.id),
        message.deep_view().tool_call_ids == message.tool_call_ids@.map_values(
            |id: String| id@,
        ),
        message.tool_calls is None ==> message.deep_view().tool_calls is None,
        message.tool_calls matches Some(calls) ==> message.deep_view().tool_calls == Some(
            calls@.map_values(|call: ToolCall| call.deep_view()),
        ),
        message.deep_view().reasoning == optional_text(message.reasoning),
        message.deep_view().delegation_id == optional_text(message.delegation_id),
        message.deep_view().tool_error == message.tool_error,
        message.deep_view().include_in_prompt == message.include_in_prompt,
{
    assert(message.tool_call_ids.deep_view() =~= message.tool_call_ids@.map_values(
        |id: String| id@,
    ));
    if let Some(calls) = message.tool_calls {
        assert(calls.deep_view() =~= calls@.map_values(|call: ToolCall| call.deep_view()));
    }
}

/// Whether a message is one with the given role and text and with nothing else set.
pub open spec fn holds_only_text(
    message: MessageModel,
    role: MessageRole,
    text: Seq<char>,
) -> bool {
    &&& message.role == role
    &&& message.content == ContentModel::Text(text)
    &&& message.id is None
    &&& message.tool_call_ids.len() == 0
    &&& message.tool_calls is None
    &&& message.reasoning is None
    &&& message.delegation_id is None
    &&& !message.tool_error
    &&& message.include_in_prompt
}

/// A text message has the given role and text, and nothing else set.
pub proof fn law_text_message(role: MessageRole, text: Seq<char>)
    ensures
        holds_only_text(text_message(role, text), role, text),
{
}

/// A text is its own visible text, an image has none, and neither has a list without parts.
pub proof fn law_content_text(content: ContentModel)
    ensures
        content matches ContentModel::Text(text) ==> content_text(content) == text,
        content is Image ==> content_text(content).len() == 0,
        content matches ContentModel::Parts(parts) ==> (parts.len() == 0 ==> content_text(
            content,
        ).len() == 0),
{
    if let ContentModel::Parts(parts) = content {
        reveal(Seq::filter_map);
        if parts.len() == 0 {
            assert(parts.filter_map(|part: PartModel| part_text(part)).len() == 0);
        }
    }
}

/// One more part changes the visible text as follows: an image part does not; a text part adds its
/// text, on a line of its own where there was a text part before.
pub proof fn law_content_text_next(parts: Seq<PartModel>, part: PartModel)
    ensures
        ({
            let before = content_text(ContentModel::Parts(parts));
            let after = content_text(ContentModel::Parts(parts.push(part)));
            match part {
                PartModel::Image { .. } => after == before,
                PartModel::Text(text) => if exists|i: int|
                    0 <= i < parts.len() && (#[trigger] parts[i]) is Text {
                    after == before + seq!['\n'] + text
                } else {
                    after == text
                },
            }
        }),
{
    let pick = |part: PartModel| part_text(part);
    let more = parts.push(part);
    let before = parts.filter_map(pick);
    let after = more.filter_map(pick);
    reveal(Seq::filter_map);
    reveal_strlit("\n");
    assert("\n"@ =~= seq!['\n']);
    assert(more.drop_last() =~= parts);
    lemma_texts_of_parts(parts);
    if let PartModel::Text(text) = part {
        assert(after =~= before.push(text));
        assert(after.drop_last() =~= before);
        assert(joined(after, "\n"@) =~= if before.len() > 0 {
            joined(before, "\n"@) + seq!['\n'] + text
        } else {
            text
        });
    }
}

proof fn lemma_texts_of_parts(parts: Seq<PartModel>)
    ensures
        parts.filter_map(|part: PartModel| part_text(part)).len() > 0 <==> exists|i: int|
            0 <= i < parts.len() && (#[trigger] parts[i]) is Text,
    decreases parts.len(),
{
    reveal(Seq::filter_map);
    if parts.len() > 0 {
        let init = parts.drop_last();
        lemma_texts_of_parts(init);
        if exists|i: int| 0 <= i < init.len() && (#[trigger] init[i]) is Text {
            let i = choose|i: int| 0 <= i < init.len() && (#[trigger] init[i]) is Text;
            assert(parts[i] is Text);
        }
        if exists|i: int| 0 <= i < parts.len() && (#[trigger] parts[i]) is Text {
            let i = choose|i: int| 0 <= i < parts.len() && (#[trigger] parts[i]) is Text;
            if i < init.len() {
                assert(init[i] is Text);
            }
        }
    }
}

/// The white space characters, by number: tab to carriage return, space, next line, the no-break
/// space, the Ogham space mark, the spaces of general punctuation, the line and paragraph
/// separators, the narrow no-break space, the mathematical space and the ideographic space.
pub open spec fn white_code(code: int) -> bool {
    ||| 9 <= code <= 13
    ||| code == 32
    ||| code == 133
    ||| code == 160
    ||| code == 5760
    ||| 8192 <= code <= 8202
    ||| 8232 <= code <= 8233
    ||| code == 8239
    ||| code == 8287
    ||| code == 12288
}

/// White space is exactly what these numbers say.
pub proof fn law_white_space(c: char)
    ensures
        is_white_space(c) <==> white_code(c as int),
{
}

/// A text is blank exactly where each of its characters is white space.
pub proof fn law_blank(text: Seq<char>)
    ensures
        is_blank(text) <==> forall|i: int|
            0 <= i < text.len() ==> white_code(#[trigger] text[i] as int),
{
    if is_blank(text) {
        assert forall|i: int| 0 <= i < text.len() implies white_code(#[trigger] text[i] as int) by {
            law_white_space(text[i]);
            assert(is_white_space(text[i]));
        }
    } else {
        let i = choose|i: int| 0 <= i < text.len() && !is_white_space(#[trigger] text[i]);
        law_white_space(text[i]);
    }
}

} // verus!
