//! Message sanitization: what a conversation goes through before it is sent to a model.
//!
//! 1. Assistant messages with neither visible text nor tool calls are dropped.
//! 2. Consecutive plain-text user messages before the last user message are merged.
//! 3. Assistant messages with only system messages between them are merged.

use vstd::prelude::*;
use vstd::string::*;

use crate::merge_laws::law_ascii_char;
use crate::message::{
    content_text, text_message, CallModel, ContentModel, Message, MessageContent, MessageModel,
    MessagePart, MessageRole, ToolCall,
};
use crate::selection::{chosen, lemma_chosen_same, lemma_filter_chosen};
use crate::text::{blank, is_blank, joined};

verus! {

/// Whether one of `calls` has the given id.
pub open spec fn has_call(calls: Seq<CallModel>, id: Seq<char>) -> bool {
    exists|i: int| 0 <= i < calls.len() && #[trigger] calls[i].id == id
}

/// `known` followed by those of `new`, in order, whose id has not occurred before.
pub open spec fn with_new_calls(known: Seq<CallModel>, new: Seq<CallModel>) -> Seq<CallModel>
    decreases new.len(),
{
    if new.len() == 0 {
        known
    } else {
        let so_far = with_new_calls(known, new.drop_last());
        if has_call(so_far, new.last().id) {
            so_far
        } else {
            so_far.push(new.last())
        }
    }
}

/// The tool calls of two merged messages: the later message adds those with a new id.
pub open spec fn merged_calls(
    first: Option<Seq<CallModel>>,
    second: Option<Seq<CallModel>>,
) -> Option<Seq<CallModel>> {
    match (first, second) {
        (Some(known), Some(new)) => Some(with_new_calls(known, new)),
        (None, Some(new)) => Some(new),
        (_, None) => first,
    }
}

/// The content of two merged messages: both texts on lines of their own, or the first content as
/// it is where the second has no text.
pub open spec fn merged_content(first: ContentModel, second: ContentModel) -> ContentModel {
    if content_text(second).len() == 0 {
        first
    } else {
        ContentModel::Text(content_text(first) + "\n"@ + content_text(second))
    }
}

/// The assistant message `first` with the assistant message `second` merged into it.
pub open spec fn merged_pair(first: MessageModel, second: MessageModel) -> MessageModel {
    MessageModel {
        content: merged_content(first.content, second.content),
        tool_calls: merged_calls(first.tool_calls, second.tool_calls),
        ..first
    }
}

/// The position of the last message that is not a system message, if that is an assistant
/// message.
pub open spec fn open_assistant(messages: Seq<MessageModel>) -> Option<int>
    decreases messages.len(),
{
    if messages.len() == 0 {
        None
    } else if messages.last().role == MessageRole::System {
        open_assistant(messages.drop_last())
    } else if messages.last().role == MessageRole::Assistant {
        Some(messages.len() - 1)
    } else {
        None
    }
}

/// `messages` with one more message: an assistant message goes into the open assistant message,
/// where there is one; any other message stands for itself.
pub open spec fn appended(messages: Seq<MessageModel>, next: MessageModel) -> Seq<MessageModel> {
    match open_assistant(messages) {
        Some(k) if next.role == MessageRole::Assistant => messages.update(
            k,
            merged_pair(messages[k], next),
        ),
        _ => messages.push(next),
    }
}

/// `messages` with each assistant message merged into the one before it, where only system
/// messages stand between.
pub open spec fn merged_assistants(messages: Seq<MessageModel>) -> Seq<MessageModel>
    decreases messages.len(),
{
    if messages.len() == 0 {
        Seq::empty()
    } else {
        appended(merged_assistants(messages.drop_last()), messages.last())
    }
}

fn call_known(calls: &Vec<ToolCall>, id: &String) -> (known: bool)
    ensures
        known == has_call(calls.deep_view(), id@),
{
    let ghost model = calls.deep_view();
    let mut i: usize = 0;
    while i < calls.len()
        invariant
            i <= calls.len(),
            model == calls.deep_view(),
            forall|j: int| 0 <= j < i ==> (#[trigger] model[j]).id != id@,
        decreases calls.len() - i,
    {
        assert(model[i as int] == calls[i as int].deep_view());
        if calls[i].id == *id {
            assert(model[i as int].id == id@);
            return true;
        }
        i = i + 1;
    }
    false
}

fn add_new_calls(known: &mut Vec<ToolCall>, new: Vec<ToolCall>)
    ensures
        final(known).deep_view() == with_new_calls(old(known).deep_view(), new.deep_view()),
{
    let ghost start = known.deep_view();
    let ghost model = new.deep_view();
    for call in it: new
        invariant
            it.seq() == new@,
            model == new.deep_view(),
            known.deep_view() == with_new_calls(start, model.take(it.index())),
    {
        let ghost before = known.deep_view();
        let ghost next = call.deep_view();
        proof {
            assert(model[it.index()] == next);
            assert(model.take(it.index() + 1).drop_last() =~= model.take(it.index()));
            assert(model.take(it.index() + 1).last() == next);
        }
        if !call_known(known, &call.id) {
            known.push(call);
            assert(known.deep_view() =~= before.push(next));
        }
    }
    assert(model.take(model.len() as int) =~= model);
}

/// Merges the assistant message `next` into `first`.
fn merge_pair(first: &mut Message, next: Message)
    ensures
        final(first).deep_view() == merged_pair(old(first).deep_view(), next.deep_view()),
{
    let ghost a = first.deep_view();
    let ghost b = next.deep_view();
    let new_text = next.content.to_text();
    if let Some(new) = next.tool_calls {
        match first.tool_calls.take() {
            Some(mut known) => {
                add_new_calls(&mut known, new);
                first.tool_calls = Some(known);
            },
            None => {
                first.tool_calls = Some(new);
            },
        }
    }
    assert(first.tool_calls.deep_view() == merged_calls(a.tool_calls, b.tool_calls));
    if !new_text.as_str().is_empty() {
        let mut text = first.content.to_text();
        text.append("\n");
        text.append(new_text.as_str());
        first.content = MessageContent::Text(text);
    }
    assert(first.deep_view() =~= merged_pair(a, b));
}

fn find_open_assistant(messages: &Vec<Message>) -> (found: Option<usize>)
    ensures
        found is Some <==> open_assistant(messages.deep_view()) is Some,
        found matches Some(k) ==> k < messages.len() && open_assistant(messages.deep_view())
            == Some(k as int),
{
    let ghost model = messages.deep_view();
    let mut n = messages.len();
    assert(model.take(n as int) =~= model);
    while n > 0
        invariant
            n <= messages.len(),
            model == messages.deep_view(),
            open_assistant(model) == open_assistant(model.take(n as int)),
        decreases n,
    {
        proof {
            assert(model.take(n as int).last() == messages[n - 1].deep_view());
            assert(model.take(n as int).drop_last() =~= model.take(n - 1));
        }
        match messages[n - 1].role {
            MessageRole::Assistant => {
                return Some(n - 1);
            },
            MessageRole::System => {
                n = n - 1;
            },
            _ => {
                return None;
            },
        }
    }
    None
}

/// Merges each assistant message into the one before it, where only system messages stand
/// between. This prevents a conversation from ending in two assistant messages.
pub fn merge_consecutive_assistant_messages(messages: &mut Vec<Message>)
    ensures
        final(messages).deep_view() == merged_assistants(old(messages).deep_view()),
{
    let ghost model = messages.deep_view();
    let mut list: Vec<Message> = Vec::new();
    std::mem::swap(&mut list, messages);
    let ghost source = list@;
    let mut merged: Vec<Message> = Vec::new();
    assert(merged.deep_view() =~= Seq::<MessageModel>::empty());
    for msg in it: list
        invariant
            it.seq() == source,
            model.len() == source.len(),
            forall|i: int| 0 <= i < source.len() ==> model[i] == (#[trigger] source[i]).deep_view(),
            merged.deep_view() == merged_assistants(model.take(it.index())),
    {
        let ghost before = merged.deep_view();
        let ghost next = msg.deep_view();
        proof {
            assert(model.take(it.index() + 1).drop_last() =~= model.take(it.index()));
            assert(model.take(it.index() + 1).last() == next);
        }
        let target = if msg.role == MessageRole::Assistant {
            find_open_assistant(&merged)
        } else {
            None
        };
        match target {
            Some(k) => {
                merge_pair(&mut merged[k], msg);
                assert(merged.deep_view() =~= before.update(
                    k as int,
                    merged_pair(before[k as int], next),
                ));
            },
            None => {
                merged.push(msg);
                assert(merged.deep_view() =~= before.push(next));
            },
        }
    }
    assert(model.take(model.len() as int) =~= model);
    *messages = merged;
}


/// Whether a message is "thinking-only": an assistant message with no visible text and no tool
/// calls.
pub open spec fn thinking_only(message: MessageModel) -> bool {
    &&& message.role == MessageRole::Assistant
    &&& is_blank(content_text(message.content))
    &&& !(message.tool_calls matches Some(calls) && calls.len() > 0)
}

/// `messages` without the thinking-only ones.
pub open spec fn without_thinking_only(messages: Seq<MessageModel>) -> Seq<MessageModel> {
    messages.filter(|message: MessageModel| !thinking_only(message))
}

/// Whether a message is an assistant message with neither visible text nor tool calls.
pub fn is_thinking_only_assistant(msg: &Message) -> (yes: bool)
    ensures
        yes == thinking_only(msg.deep_view()),
{
    if msg.role != MessageRole::Assistant {
        return false;
    }
    let text = msg.content.to_text();
    let is_empty = blank(text.as_str());
    let has_tool_calls = match &msg.tool_calls {
        Some(calls) => !calls.is_empty(),
        None => false,
    };
    is_empty && !has_tool_calls
}

/// Drops the assistant messages that have neither visible text nor tool calls. Providers that
/// turn reasoning into thinking blocks reject such messages.
pub fn drop_thinking_only_assistant(messages: &mut Vec<Message>)
    ensures
        final(messages).deep_view() == without_thinking_only(old(messages).deep_view()),
{
    let ghost model = messages.deep_view();
    let ghost keep = |message: MessageModel| !thinking_only(message);
    let mut list: Vec<Message> = Vec::new();
    std::mem::swap(&mut list, messages);
    let ghost source = list@;
    let mut kept: Vec<Message> = Vec::new();
    proof {
        reveal(Seq::filter);
        assert(kept.deep_view() =~= model.take(0).filter(keep));
    }
    for msg in it: list
        invariant
            it.seq() == source,
            model.len() == source.len(),
            forall|i: int| 0 <= i < source.len() ==> model[i] == (#[trigger] source[i]).deep_view(),
            keep == |message: MessageModel| !thinking_only(message),
            kept.deep_view() == model.take(it.index()).filter(keep),
    {
        let ghost before = kept.deep_view();
        let ghost next = msg.deep_view();
        proof {
            model.take(it.index()).lemma_filter_push(next, keep);
            assert(model.take(it.index() + 1) =~= model.take(it.index()).push(next));
        }
        if !is_thinking_only_assistant(&msg) {
            kept.push(msg);
            assert(kept.deep_view() =~= before.push(next));
        }
    }
    assert(model.take(model.len() as int) =~= model);
    *messages = kept;
}

/// Whether a content is an image or has an image among its parts.
pub open spec fn has_image(content: ContentModel) -> bool {
    match content {
        ContentModel::Text(_) => false,
        ContentModel::Image { .. } => true,
        ContentModel::Parts(parts) => exists|i: int|
            0 <= i < parts.len() && (#[trigger] parts[i]) is Image,
    }
}

/// Whether a message is a user message with plain text alone.
pub open spec fn plain_user(message: MessageModel) -> bool {
    message.role == MessageRole::User && !has_image(message.content)
}

/// The number of plain-text user messages that `messages` starts with.
pub open spec fn plain_run(messages: Seq<MessageModel>) -> nat
    decreases messages.len(),
{
    if messages.len() == 0 || !plain_user(messages[0]) {
        0
    } else {
        1 + plain_run(messages.skip(1))
    }
}

/// One user message with the texts of `run`, an empty line between neighbours.
pub open spec fn merged_run(run: Seq<MessageModel>) -> MessageModel {
    text_message(
        MessageRole::User,
        joined(run.map_values(|m: MessageModel| content_text(m.content)), "\n\n"@),
    )
}

/// `messages` with each maximal run of plain-text user messages replaced by one message.
pub open spec fn merged_runs(messages: Seq<MessageModel>) -> Seq<MessageModel>
    decreases messages.len(),
{
    if messages.len() == 0 {
        Seq::empty()
    } else if plain_user(messages[0]) {
        let n = plain_run(messages) as int;
        proof {
            lemma_plain_run_bounds(messages);
        }
        seq![merged_run(messages.take(n))] + merged_runs(messages.skip(n))
    } else {
        seq![messages[0]] + merged_runs(messages.skip(1))
    }
}

/// What merging user messages makes of `messages`: a single message stays as it is; of several,
/// each maximal run of plain-text user messages becomes one message.
pub open spec fn merged_users(messages: Seq<MessageModel>) -> Seq<MessageModel> {
    if messages.len() <= 1 {
        messages
    } else {
        merged_runs(messages)
    }
}

/// The leading run lies within the messages, and what follows it is not a plain-text user message.
pub proof fn lemma_plain_run_bounds(messages: Seq<MessageModel>)
    ensures
        plain_run(messages) <= messages.len(),
        forall|j: int| 0 <= j < plain_run(messages) ==> plain_user(#[trigger] messages[j]),
        plain_run(messages) < messages.len() ==> !plain_user(messages[plain_run(messages) as int]),
    decreases messages.len(),
{
    if messages.len() > 0 && plain_user(messages[0]) {
        let rest = messages.skip(1);
        lemma_plain_run_bounds(rest);
        assert forall|j: int| 0 <= j < plain_run(messages) implies plain_user(
            #[trigger] messages[j],
        ) by {
            if j > 0 {
                assert(rest[j - 1] == messages[j]);
            }
        }
    }
}

proof fn lemma_plain_run(messages: Seq<MessageModel>, n: int)
    requires
        0 <= n <= messages.len(),
        forall|j: int| 0 <= j < n ==> plain_user(#[trigger] messages[j]),
        n < messages.len() ==> !plain_user(messages[n]),
    ensures
        plain_run(messages) == n,
    decreases n,
{
    if n > 0 {
        let rest = messages.skip(1);
        assert forall|j: int| 0 <= j < n - 1 implies plain_user(#[trigger] rest[j]) by {
            assert(rest[j] == messages[j + 1]);
        }
        lemma_plain_run(rest, n - 1);
    }
}

/// A run that ends before position `end` contributes one merged message.
proof fn lemma_run_merged(messages: Seq<MessageModel>, start: int, end: int)
    requires
        0 <= start < end <= messages.len(),
        forall|j: int| start <= j < end ==> plain_user(#[trigger] messages[j]),
        end < messages.len() ==> !plain_user(messages[end]),
    ensures
        merged_runs(messages.skip(start)) == seq![merged_run(messages.subrange(start, end))]
            + merged_runs(messages.skip(end)),
{
    let tail = messages.skip(start);
    assert forall|j: int| 0 <= j < end - start implies plain_user(#[trigger] tail[j]) by {
        assert(tail[j] == messages[start + j]);
    }
    lemma_plain_run(tail, end - start);
    assert(tail[0] == messages[start]);
    assert(tail.take(end - start) =~= messages.subrange(start, end));
    assert(tail.skip(end - start) =~= messages.skip(end));
}

/// Whether a user message contains non-text content.
fn user_message_has_image(msg: &Message) -> (yes: bool)
    ensures
        yes == has_image(msg.deep_view().content),
{
    match &msg.content {
        MessageContent::Image { .. } => true,
        MessageContent::Parts(parts) => parts_have_image(parts),
        MessageContent::Text(_) => false,
    }
}

fn parts_have_image(parts: &Vec<MessagePart>) -> (yes: bool)
    ensures
        yes == has_image(ContentModel::Parts(parts.deep_view())),
{
    let ghost model = parts.deep_view();
    let mut i: usize = 0;
    while i < parts.len()
        invariant
            i <= parts.len(),
            model == parts.deep_view(),
            forall|j: int| 0 <= j < i ==> !((#[trigger] model[j]) is Image),
        decreases parts.len() - i,
    {
        assert(model[i as int] == parts[i as int].deep_view());
        if let MessagePart::Image { .. } = &parts[i] {
            assert(model[i as int] is Image);
            return true;
        }
        i = i + 1;
    }
    false
}

/// Appends the text gathered from a run of user messages as one user message.
fn flush_pending_user(merged: &mut Vec<Message>, pending_text: String)
    ensures
        final(merged).deep_view() == old(merged).deep_view().push(
            text_message(MessageRole::User, pending_text@),
        ),
{
    let ghost before = merged.deep_view();
    merged.push(Message::with_text(MessageRole::User, pending_text));
    assert(merged.deep_view() =~= before.push(text_message(MessageRole::User, pending_text@)));
}

/// Merges each run of consecutive plain-text user messages into one message.
///
/// User messages with images are kept as they are, so that no image data is lost. System messages
/// are kept as they are too. Both end a run.
pub fn merge_consecutive_user_messages(messages: &mut Vec<Message>)
    ensures
        final(messages).deep_view() == merged_users(old(messages).deep_view()),
{
    if messages.len() <= 1 {
        return;
    }
    let ghost model = messages.deep_view();
    let ghost texts = |m: MessageModel| content_text(m.content);
    let mut list: Vec<Message> = Vec::new();
    std::mem::swap(&mut list, messages);
    let ghost source = list@;
    let mut merged: Vec<Message> = Vec::new();
    let mut pending: Option<String> = None;
    let ghost mut start: int = 0;
    proof {
        assert(model.skip(0) =~= model);
        assert(merged.deep_view() + merged_runs(model) =~= merged_runs(model));
    }
    for msg in it: list
        invariant
            it.seq() == source,
            model.len() == source.len(),
            forall|i: int| 0 <= i < source.len() ==> model[i] == (#[trigger] source[i]).deep_view(),
            texts == |m: MessageModel| content_text(m.content),
            0 <= start <= it.index(),
            merged.deep_view() + merged_runs(model.skip(start)) == merged_runs(model),
            forall|j: int| start <= j < it.index() ==> plain_user(#[trigger] model[j]),
            pending is Some <==> start < it.index(),
            pending matches Some(text) ==> text@ == joined(
                model.subrange(start, it.index()).map_values(texts),
                "\n\n"@,
            ),
    {
        let ghost i = it.index();
        let ghost before = merged.deep_view();
        let ghost next = msg.deep_view();
        assert(model[i] == next);
        if msg.role == MessageRole::User && !user_message_has_image(&msg) {
            let text = msg.content.to_text();
            let ghost old_texts = model.subrange(start, i).map_values(texts);
            let ghost new_texts = model.subrange(start, i + 1).map_values(texts);
            proof {
                assert(new_texts =~= old_texts.push(text@));
                assert(new_texts.drop_last() =~= old_texts);
            }
            let gathered = match pending.take() {
                Some(mut so_far) => {
                    so_far.append("\n\n");
                    so_far.append(text.as_str());
                    so_far
                },
                None => text,
            };
            assert(gathered@ =~= joined(new_texts, "\n\n"@));
            pending = Some(gathered);
        } else {
            if let Some(text) = pending.take() {
                proof {
                    lemma_run_merged(model, start, i);
                }
                flush_pending_user(&mut merged, text);
                assert(merged.deep_view() + merged_runs(model.skip(i)) =~= before + merged_runs(
                    model.skip(start),
                ));
            }
            let ghost flushed = merged.deep_view();
            merged.push(msg);
            proof {
                assert(merged.deep_view() =~= flushed.push(next));
                assert(model.skip(i).skip(1) =~= model.skip(i + 1));
                assert(merged.deep_view() + merged_runs(model.skip(i + 1)) =~= flushed
                    + merged_runs(model.skip(i)));
                start = i + 1;
            }
        }
    }
    let ghost before = merged.deep_view();
    if let Some(text) = pending {
        proof {
            lemma_run_merged(model, start, model.len() as int);
        }
        flush_pending_user(&mut merged, text);
        assert(merged.deep_view() + merged_runs(model.skip(model.len() as int)) =~= before
            + merged_runs(model.skip(start)));
    }
    assert(merged.deep_view() =~= merged_runs(model));
    *messages = merged;
}

/// The position of the last user message.
pub open spec fn last_user(messages: Seq<MessageModel>) -> Option<int>
    decreases messages.len(),
{
    if messages.len() == 0 {
        None
    } else if messages.last().role == MessageRole::User {
        Some(messages.len() - 1)
    } else {
        last_user(messages.drop_last())
    }
}

/// `messages` with the user messages before the last one merged.
pub open spec fn merged_history(messages: Seq<MessageModel>) -> Seq<MessageModel> {
    match last_user(messages) {
        Some(k) => merged_users(messages.take(k)) + messages.skip(k),
        None => messages,
    }
}

/// What sanitization makes of a conversation.
pub open spec fn sanitized(messages: Seq<MessageModel>) -> Seq<MessageModel> {
    merged_assistants(merged_history(without_thinking_only(messages)))
}

fn find_last_user(messages: &Vec<Message>) -> (found: Option<usize>)
    ensures
        found is Some <==> last_user(messages.deep_view()) is Some,
        found matches Some(k) ==> k < messages.len() && last_user(messages.deep_view()) == Some(
            k as int,
        ),
{
    let ghost model = messages.deep_view();
    let mut n = messages.len();
    assert(model.take(n as int) =~= model);
    while n > 0
        invariant
            n <= messages.len(),
            model == messages.deep_view(),
            last_user(model) == last_user(model.take(n as int)),
        decreases n,
    {
        proof {
            assert(model.take(n as int).last() == messages[n - 1].deep_view());
            assert(model.take(n as int).drop_last() =~= model.take(n - 1));
        }
        if messages[n - 1].role == MessageRole::User {
            return Some(n - 1);
        }
        n = n - 1;
    }
    None
}

/// Runs the full sanitization pipeline on a conversation.
///
/// The last user message is preserved as it is: nothing is merged into it and none of its content
/// is lost.
pub fn sanitize_messages(messages: &mut Vec<Message>)
    ensures
        final(messages).deep_view() == sanitized(old(messages).deep_view()),
{
    drop_thinking_only_assistant(messages);
    let ghost kept = messages.deep_view();
    if let Some(k) = find_last_user(messages) {
        let mut remainder = messages.split_off(k);
        proof {
            assert(messages.deep_view() =~= kept.take(k as int));
            assert(remainder.deep_view() =~= kept.skip(k as int));
        }
        merge_consecutive_user_messages(messages);
        let ghost history = messages.deep_view();
        let ghost rest = remainder.deep_view();
        messages.append(&mut remainder);
        assert(messages.deep_view() =~= history + rest);
    }
    merge_consecutive_assistant_messages(messages);
}

/// Whether a character is a UTF-16 surrogate.
pub open spec fn is_surrogate(c: char) -> bool {
    0xd800 <= c as u32 <= 0xdfff
}

/// Whether a character is an ASCII character.
pub open spec fn is_ascii_char(c: char) -> bool {
    c as u32 <= 0x7f
}

/// Strips surrogate characters from a string. A string holds none, so nothing is lost.
pub fn strip_surrogates(text: &str) -> (out: String)
    ensures
        out@ == text@.filter(|c: char| !is_surrogate(c)),
        out@ == text@,
{
    let ghost keep = |c: char| !is_surrogate(c);
    let mut out = String::new();
    proof {
        reveal(Seq::filter);
    }
    for c in it: text.chars()
        invariant
            it.seq() == text@,
            keep == |c: char| !is_surrogate(c),
            out@ == text@.take(it.index()).filter(keep),
            out@ == text@.take(it.index()),
    {
        proof {
            vstd::utf8::char_is_scalar(c);
            text@.take(it.index()).lemma_filter_push(c, keep);
            assert(text@.take(it.index() + 1) =~= text@.take(it.index()).push(c));
        }
        let code: u32 = c as u32;
        if !(0xd800 <= code && code <= 0xdfff) {
            out.push(c);
        }
    }
    assert(text@.take(text@.len() as int) =~= text@);
    out
}

/// Strips non-ASCII characters from a string.
pub fn strip_non_ascii(text: &str) -> (out: String)
    ensures
        out@ == text@.filter(|c: char| is_ascii_char(c)),
        chosen(
            out@,
            text@.len() as int,
            |i: int| (text@[i] as int) < 128,
            |i: int| text@[i],
        ),
{
    let ghost keep = |c: char| is_ascii_char(c);
    let mut out = String::new();
    proof {
        reveal(Seq::filter);
    }
    for c in it: text.chars()
        invariant
            it.seq() == text@,
            keep == |c: char| is_ascii_char(c),
            out@ == text@.take(it.index()).filter(keep),
    {
        proof {
            text@.take(it.index()).lemma_filter_push(c, keep);
            assert(text@.take(it.index() + 1) =~= text@.take(it.index()).push(c));
        }
        if c as u32 <= 0x7f {
            out.push(c);
        }
    }
    assert(text@.take(text@.len() as int) =~= text@);
    proof {
        let wanted = |i: int| keep(text@[i]);
        let below = |i: int| (text@[i] as int) < 128;
        let at = |i: int| text@[i];
        lemma_filter_chosen(text@, keep);
        assert forall|i: int| 0 <= i < text@.len() implies #[trigger] wanted(i) == below(i) by {
            law_ascii_char(text@[i]);
        }
        lemma_chosen_same(out@, text@.len() as int, wanted, at, below, at);
    }
    out
}

} // verus!
