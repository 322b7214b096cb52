//! What sanitization means, message by message: which messages are dropped, which are merged, and
//! what the merged messages hold.

use vstd::prelude::*;

use crate::message::{content_text, CallModel, ContentModel, MessageModel, MessageRole};
use crate::message_laws::{holds_only_text, law_blank, law_text_message, white_code};
use crate::sanitize::{
    appended, has_call, has_image, is_ascii_char, lemma_plain_run_bounds, merged_assistants,
    merged_pair, merged_run, merged_runs, merged_users, open_assistant, plain_run, plain_user,
    sanitized, thinking_only, with_new_calls, without_thinking_only,
};
use crate::sanitize_laws::{
    ends_turn, is_user, law_call_ids, law_other_messages_kept, law_runs_merged,
    law_users_keep_others, lemma_last_user, lemma_last_user_unique, lemma_open_assistant,
    lemma_sanitized_parts,
};
use crate::selection::{
    chosen, lemma_chosen_empty, lemma_chosen_members, lemma_chosen_next, lemma_chosen_same,
    lemma_filter_chosen,
};
use crate::text::joined;

verus! {

/// Whether a message is an assistant message whose visible text is white space throughout and that
/// has no tool call. No other field matters.
pub open spec fn silent(message: MessageModel) -> bool {
    &&& message.role == MessageRole::Assistant
    &&& forall|i: int|
        0 <= i < content_text(message.content).len() ==> white_code(
            #[trigger] content_text(message.content)[i] as int,
        )
    &&& message.tool_calls is None || message.tool_calls->0.len() == 0
}

/// Thinking-only messages are exactly the silent ones.
pub proof fn law_thinking_only(message: MessageModel)
    ensures
        thinking_only(message) <==> silent(message),
{
    law_blank(content_text(message.content));
}

/// Dropping leaves the messages that are not silent, in order, and nothing else.
pub proof fn law_drop(messages: Seq<MessageModel>)
    ensures
        chosen(
            without_thinking_only(messages),
            messages.len() as int,
            |i: int| !silent(messages[i]),
            |i: int| messages[i],
        ),
{
    let p = |m: MessageModel| !thinking_only(m);
    lemma_filter_chosen(messages, p);
    assert forall|i: int| 0 <= i < messages.len() implies (#[trigger] p(messages[i])) == !silent(
        messages[i],
    ) by {
        law_thinking_only(messages[i]);
    }
    lemma_chosen_same(
        without_thinking_only(messages),
        messages.len() as int,
        |i: int| p(messages[i]),
        |i: int| messages[i],
        |i: int| !silent(messages[i]),
        |i: int| messages[i],
    );
}

/// A message that is no assistant message, or has a visible character, or has a tool call, is kept
/// by dropping, whatever its other fields hold.
pub proof fn law_spoken_kept(messages: Seq<MessageModel>, i: int)
    requires
        0 <= i < messages.len(),
        ({
            ||| messages[i].role != MessageRole::Assistant
            ||| exists|k: int|
                0 <= k < content_text(messages[i].content).len() && !white_code(
                    #[trigger] content_text(messages[i].content)[k] as int,
                )
            ||| messages[i].tool_calls matches Some(calls) && calls.len() > 0
        }),
    ensures
        without_thinking_only(messages).contains(messages[i]),
{
    let p = |m: MessageModel| !thinking_only(m);
    law_thinking_only(messages[i]);
    assert(p(messages[i]));
    messages.lemma_filter_contains(p, i);
}

/// A call of a later message that is new: its id is none of the earlier calls', and none of those
/// before it in its own message.
pub open spec fn fresh_call(known: Seq<CallModel>, new: Seq<CallModel>, j: int) -> bool {
    &&& forall|i: int| 0 <= i < known.len() ==> (#[trigger] known[i]).id != new[j].id
    &&& forall|i: int| 0 <= i < j ==> (#[trigger] new[i]).id != new[j].id
}

/// Merging calls keeps the earlier calls as they are and adds, unchanged and in order, exactly the
/// new calls of the later message.
pub proof fn law_merged_calls(known: Seq<CallModel>, new: Seq<CallModel>)
    ensures
        known.is_prefix_of(with_new_calls(known, new)),
        chosen(
            with_new_calls(known, new).skip(known.len() as int),
            new.len() as int,
            |j: int| fresh_call(known, new, j),
            |j: int| new[j],
        ),
    decreases new.len(),
{
    let keep = |j: int| fresh_call(known, new, j);
    let at = |j: int| new[j];
    let out = with_new_calls(known, new);
    if new.len() == 0 {
        lemma_chosen_empty(keep, at);
        assert(out.skip(known.len() as int) =~= Seq::empty());
    } else {
        let init = new.drop_last();
        let n = init.len() as int;
        let before = with_new_calls(known, init);
        law_merged_calls(known, init);
        let part = before.skip(known.len() as int);
        assert forall|j: int| 0 <= j < n implies #[trigger] fresh_call(known, init, j)
            == fresh_call(known, new, j) by {
            if fresh_call(known, init, j) {
                assert forall|i: int| 0 <= i < j implies (#[trigger] new[i]).id != new[j].id by {
                    assert(init[i].id != init[j].id);
                }
            }
            if fresh_call(known, new, j) {
                assert forall|i: int| 0 <= i < j implies (#[trigger] init[i]).id != init[j].id by {
                    assert(new[i].id != new[j].id);
                }
            }
        }
        lemma_chosen_same(
            part,
            n,
            |j: int| fresh_call(known, init, j),
            |j: int| init[j],
            keep,
            at,
        );
        lemma_chosen_next(part, n, keep, at);
        let id = new[n].id;
        law_call_ids(known, init, id);
        assert(has_call(before, id) <==> !keep(n)) by {
            if !fresh_call(known, new, n) {
                if exists|i: int| 0 <= i < known.len() && (#[trigger] known[i]).id == id {
                    assert(has_call(known, id));
                } else {
                    let i = choose|i: int| 0 <= i < n && (#[trigger] new[i]).id == id;
                    assert(init[i].id == id);
                    assert(has_call(init, id));
                }
            } else {
                if has_call(known, id) {
                    let i = choose|i: int| 0 <= i < known.len() && #[trigger] known[i].id == id;
                    assert(known[i].id == new[n].id);
                }
                if has_call(init, id) {
                    let i = choose|i: int| 0 <= i < init.len() && #[trigger] init[i].id == id;
                    assert(new[i].id == new[n].id);
                }
            }
        }
        if keep(n) {
            assert(out.skip(known.len() as int) =~= part.push(at(n)));
        }
    }
}

/// Every call of a merged message is one of the calls it was merged from, with its id, tool name
/// and arguments; and each new call of the later message is there unchanged.
pub proof fn law_calls_unchanged(known: Seq<CallModel>, new: Seq<CallModel>)
    ensures
        forall|i: int|
            0 <= i < with_new_calls(known, new).len() ==> known.contains(
                #[trigger] with_new_calls(known, new)[i],
            ) || new.contains(with_new_calls(known, new)[i]),
        forall|j: int|
            0 <= j < new.len() && #[trigger] fresh_call(known, new, j) ==> with_new_calls(
                known,
                new,
            ).contains(new[j]),
{
    law_merged_calls(known, new);
    let out = with_new_calls(known, new);
    let keep = |j: int| fresh_call(known, new, j);
    let at = |j: int| new[j];
    let added = out.skip(known.len() as int);
    lemma_chosen_members(added, new.len() as int, keep, at);
    assert forall|i: int| 0 <= i < out.len() implies known.contains(#[trigger] out[i])
        || new.contains(out[i]) by {
        if i < known.len() {
            assert(known[i] == out[i]);
        } else {
            assert(added[i - known.len()] == out[i]);
            let k = choose|k: int|
                0 <= k < new.len() && #[trigger] keep(k) && at(k) == added[i - known.len()];
            assert(new[k] == out[i]);
        }
    }
    assert forall|j: int|
        0 <= j < new.len() && #[trigger] fresh_call(known, new, j) implies out.contains(new[j]) by {
        assert(keep(j));
        assert(added.contains(at(j)));
        let i = choose|i: int| 0 <= i < added.len() && added[i] == at(j);
        assert(out[known.len() + i] == new[j]);
    }
}

/// Whether `merged` is the assistant message `first` with `second` merged into it: the text of
/// `second`, where it has any, follows on a line of its own; its calls are taken over where `first`
/// has none, else its new calls are added; everything else is that of `first`.
pub open spec fn merges(merged: MessageModel, first: MessageModel, second: MessageModel) -> bool {
    &&& merged.role == first.role
    &&& merged.id == first.id
    &&& merged.tool_call_ids == first.tool_call_ids
    &&& merged.reasoning == first.reasoning
    &&& merged.delegation_id == first.delegation_id
    &&& merged.tool_error == first.tool_error
    &&& merged.include_in_prompt == first.include_in_prompt
    &&& merged.content == if content_text(second.content).len() == 0 {
        first.content
    } else {
        ContentModel::Text(content_text(first.content) + seq!['\n'] + content_text(second.content))
    }
    &&& match (first.tool_calls, second.tool_calls) {
        (_, None) => merged.tool_calls == first.tool_calls,
        (None, Some(new)) => merged.tool_calls == Some(new),
        (Some(known), Some(new)) => {
            &&& merged.tool_calls is Some
            &&& known.is_prefix_of(merged.tool_calls->0)
            &&& chosen(
                merged.tool_calls->0.skip(known.len() as int),
                new.len() as int,
                |j: int| fresh_call(known, new, j),
                |j: int| new[j],
            )
        },
    }
}

proof fn lemma_pair_merges(first: MessageModel, second: MessageModel)
    ensures
        merges(merged_pair(first, second), first, second),
{
    reveal_strlit("\n");
    assert("\n"@ =~= seq!['\n']);
    if first.tool_calls is Some && second.tool_calls is Some {
        law_merged_calls(first.tool_calls->0, second.tool_calls->0);
    }
}

/// Whether an assistant message stands in `messages` with only assistant and system messages after
/// it.
pub open spec fn turn_open(messages: Seq<MessageModel>) -> bool {
    exists|i: int|
        0 <= i < messages.len() && (#[trigger] messages[i]).role == MessageRole::Assistant
            && only_turn_after(messages, i)
}

/// Whether only assistant and system messages stand after position `i`.
pub open spec fn only_turn_after(messages: Seq<MessageModel>, i: int) -> bool {
    forall|j: int|
        i < j < messages.len() ==> (#[trigger] messages[j]).role == MessageRole::Assistant
            || messages[j].role == MessageRole::System
}

proof fn lemma_turn_open(messages: Seq<MessageModel>)
    ensures
        turn_open(messages) <==> open_assistant(merged_assistants(messages)) is Some,
    decreases messages.len(),
{
    if messages.len() > 0 {
        let init = messages.drop_last();
        let last = messages.last();
        let before = merged_assistants(init);
        let out = merged_assistants(messages);
        lemma_turn_open(init);
        lemma_open_assistant(before);
        lemma_open_assistant(out);
        if turn_open(init) && (last.role == MessageRole::Assistant || last.role
            == MessageRole::System) {
            let i = choose|i: int|
                0 <= i < init.len() && (#[trigger] init[i]).role == MessageRole::Assistant
                    && only_turn_after(init, i);
            assert forall|j: int| i < j < messages.len() implies (#[trigger] messages[j]).role
                == MessageRole::Assistant || messages[j].role == MessageRole::System by {
                if j < init.len() {
                    assert(init[j] == messages[j]);
                }
            }
            assert(only_turn_after(messages, i));
            assert(messages[i].role == MessageRole::Assistant);
        }
        if last.role == MessageRole::Assistant {
            assert(messages[messages.len() - 1].role == MessageRole::Assistant);
            assert(only_turn_after(messages, messages.len() - 1));
            if let Some(k) = open_assistant(before) {
                assert(out[k].role == MessageRole::Assistant);
                if open_assistant(out) is None {
                    let t = choose|t: int|
                        k < t < out.len() && ends_turn(#[trigger] out[t]);
                    assert(before[t].role == MessageRole::System);
                }
            } else {
                assert(out.last() == last);
            }
        } else {
            assert(out =~= before.push(last));
            assert(out.drop_last() =~= before);
            if last.role == MessageRole::System {
                if turn_open(messages) {
                    let i = choose|i: int|
                        0 <= i < messages.len() && (#[trigger] messages[i]).role
                            == MessageRole::Assistant && only_turn_after(messages, i);
                    assert(init[i].role == MessageRole::Assistant);
                    assert forall|j: int| i < j < init.len() implies (#[trigger] init[j]).role
                        == MessageRole::Assistant || init[j].role == MessageRole::System by {
                        assert(messages[j] == init[j]);
                    }
                    assert(only_turn_after(init, i));
                }
            } else {
                if turn_open(messages) {
                    let i = choose|i: int|
                        0 <= i < messages.len() && (#[trigger] messages[i]).role
                            == MessageRole::Assistant && only_turn_after(messages, i);
                    assert(messages[messages.len() - 1] == last);
                }
            }
        }
    }
}

/// Merging assistant messages treats one more message as follows. A message that is no assistant
/// message, or one with no assistant message before it in its turn, is added as it is. Any other is
/// merged into the one assistant message of its turn, and everything else stays.
pub proof fn law_merge_next(messages: Seq<MessageModel>, next: MessageModel)
    ensures
        merged_assistants(Seq::empty()) == Seq::<MessageModel>::empty(),
        ({
            let before = merged_assistants(messages);
            let after = merged_assistants(messages.push(next));
            if next.role == MessageRole::Assistant && turn_open(messages) {
                exists|k: int|
                    {
                        &&& 0 <= k < before.len()
                        &&& before[k].role == MessageRole::Assistant
                        &&& forall|j: int|
                            k < j < before.len() ==> (#[trigger] before[j]).role
                                == MessageRole::System
                        &&& merges(#[trigger] after[k], before[k], next)
                        &&& after.len() == before.len()
                        &&& forall|j: int|
                            0 <= j < before.len() && j != k ==> #[trigger] after[j] == before[j]
                    }
            } else {
                after == before.push(next)
            }
        }),
{
    let before = merged_assistants(messages);
    let after = merged_assistants(messages.push(next));
    assert(messages.push(next).drop_last() =~= messages);
    assert(after == appended(before, next));
    lemma_turn_open(messages);
    lemma_open_assistant(before);
    if let Some(k) = open_assistant(before) {
        if next.role == MessageRole::Assistant {
            lemma_pair_merges(before[k], next);
            assert(merges(after[k], before[k], next));
        }
    }
}

/// Every tool call that comes out of merging assistant messages is, with its id, tool name and
/// arguments, a tool call of a message that went in.
pub proof fn law_merged_calls_come_from(messages: Seq<MessageModel>, o: int, c: int)
    requires
        0 <= o < merged_assistants(messages).len(),
        merged_assistants(messages)[o].tool_calls is Some,
        0 <= c < merged_assistants(messages)[o].tool_calls->0.len(),
    ensures
        exists|i: int|
            0 <= i < messages.len() && (#[trigger] messages[i]).tool_calls is Some
                && messages[i].tool_calls->0.contains(
                merged_assistants(messages)[o].tool_calls->0[c],
            ),
    decreases messages.len(),
{
    if messages.len() > 0 {
        let init = messages.drop_last();
        let last = messages.last();
        let before = merged_assistants(init);
        let out = merged_assistants(messages);
        let call = out[o].tool_calls->0[c];
        lemma_open_assistant(before);
        let merging = open_assistant(before) is Some && last.role == MessageRole::Assistant;
        let k = open_assistant(before)->0;
        if merging && o == k && last.tool_calls is Some && before[k].tool_calls is Some {
            law_calls_unchanged(before[k].tool_calls->0, last.tool_calls->0);
        }
        let old_calls = before[o].tool_calls;
        if o < before.len() && old_calls is Some && old_calls->0.contains(call) {
            let d = choose|d: int| 0 <= d < old_calls->0.len() && old_calls->0[d] == call;
            law_merged_calls_come_from(init, o, d);
            let i = choose|i: int|
                0 <= i < init.len() && (#[trigger] init[i]).tool_calls is Some
                    && init[i].tool_calls->0.contains(call);
            assert(messages[i] == init[i]);
        } else {
            if !(o < before.len()) || (merging && o == k) {
                if o >= before.len() {
                    assert(out[o] == last);
                    assert(last.tool_calls->0.contains(call));
                }
            } else {
                assert(out[o] == before[o]);
            }
            assert(messages[messages.len() - 1].tool_calls is Some);
        }
    }
}

/// Whether a content shows an image: it is one, or one stands at any position of its parts.
pub open spec fn shows_image(content: ContentModel) -> bool {
    ||| content is Image
    ||| content matches ContentModel::Parts(parts) && exists|i: int|
        0 <= i < parts.len() && (#[trigger] parts[i]) is Image
}

/// Whether a message is a user message that shows no image.
pub open spec fn text_user(message: MessageModel) -> bool {
    message.role == MessageRole::User && !shows_image(message.content)
}

/// The messages that are merged are exactly the user messages that show no image.
pub proof fn law_plain_user(message: MessageModel)
    ensures
        has_image(message.content) <==> shows_image(message.content),
        plain_user(message) <==> text_user(message),
{
}

/// A user message with an image at any position of its parts comes out of merging user messages as
/// it is, and so does a user message that is an image.
pub proof fn law_image_kept(messages: Seq<MessageModel>, k: int, i: int)
    requires
        0 <= k < messages.len(),
        ({
            ||| messages[k].content is Image
            ||| messages[k].content matches ContentModel::Parts(parts) && 0 <= i < parts.len()
                && parts[i] is Image
        }),
    ensures
        merged_users(messages).contains(messages[k]),
{
    law_plain_user(messages[k]);
    lemma_other_kept(messages, k);
}

/// A message of any role but user comes out of merging user messages as it is.
pub proof fn law_other_role_kept(messages: Seq<MessageModel>, k: int)
    requires
        0 <= k < messages.len(),
        messages[k].role != MessageRole::User,
    ensures
        merged_users(messages).contains(messages[k]),
{
    lemma_other_kept(messages, k);
}

proof fn lemma_other_kept(messages: Seq<MessageModel>, k: int)
    requires
        0 <= k < messages.len(),
        !plain_user(messages[k]),
    ensures
        merged_users(messages).contains(messages[k]),
{
    let p = |m: MessageModel| !plain_user(m);
    let out = merged_users(messages);
    law_users_keep_others(messages, p);
    assert(p(messages[k]));
    messages.lemma_filter_contains(p, k);
    out.lemma_filter_contains_rev(p, messages[k]);
}

/// Merging user messages keeps, in order, every message that is not a user message without images.
pub proof fn law_others_in_order(messages: Seq<MessageModel>, p: spec_fn(MessageModel) -> bool)
    requires
        forall|m: MessageModel| #[trigger] p(m) ==> !text_user(m),
    ensures
        merged_users(messages).filter(p) == messages.filter(p),
{
    law_users_keep_others(messages, p);
}

/// Whether `out` is what user merging makes of one stretch of a longer conversation: nothing of
/// nothing; of a single user message without images a message with its text alone; any other
/// single message itself.
pub open spec fn stretch_merged(stretch: Seq<MessageModel>, out: Seq<MessageModel>) -> bool {
    if stretch.len() == 0 {
        out.len() == 0
    } else if stretch.len() == 1 {
        &&& out.len() == 1
        &&& if text_user(stretch[0]) {
            holds_only_text(out[0], MessageRole::User, content_text(stretch[0].content))
        } else {
            out[0] == stretch[0]
        }
    } else {
        out == merged_users(stretch)
    }
}

proof fn lemma_stretch(stretch: Seq<MessageModel>)
    ensures
        stretch_merged(stretch, merged_runs(stretch)),
{
    if stretch.len() == 1 {
        lemma_plain_run_bounds(stretch);
        law_plain_user(stretch[0]);
        if plain_user(stretch[0]) {
            let texts = stretch.take(1).map_values(|m: MessageModel| content_text(m.content));
            assert(texts.len() == 1 && texts[0] == content_text(stretch[0].content));
            assert(plain_run(stretch) == 1);
            assert(merged_runs(stretch.skip(1)) =~= Seq::empty());
            law_text_message(MessageRole::User, content_text(stretch[0].content));
            assert(merged_runs(stretch) =~= seq![merged_run(stretch.take(1))]);
        } else {
            assert(merged_runs(stretch.skip(1)) =~= Seq::empty());
            assert(merged_runs(stretch) =~= stretch);
        }
    }
}

proof fn lemma_runs_split(head: Seq<MessageModel>, middle: MessageModel, tail: Seq<MessageModel>)
    requires
        !plain_user(middle),
    ensures
        merged_runs(head.push(middle) + tail) == merged_runs(head).push(middle) + merged_runs(tail),
    decreases head.len(),
{
    let whole = head.push(middle) + tail;
    if head.len() == 0 {
        assert(whole.skip(1) =~= tail);
        assert(merged_runs(whole) =~= merged_runs(head).push(middle) + merged_runs(tail));
    } else {
        let n: int = if plain_user(head[0]) {
            plain_run(head) as int
        } else {
            1
        };
        lemma_plain_run_bounds(head);
        lemma_plain_run_bounds(whole);
        assert(whole[0] == head[0]);
        if plain_user(head[0]) {
            let r = plain_run(whole) as int;
            if r < n {
                assert(plain_user(head[r]));
                assert(whole[r] == head[r]);
            } else if n < r {
                assert(plain_user(whole[n]));
                if n < head.len() {
                    assert(whole[n] == head[n]);
                } else {
                    assert(whole[n] == middle);
                }
            }
            assert(whole.take(n) =~= head.take(n));
        }
        lemma_runs_split(head.skip(n), middle, tail);
        assert(whole.skip(n) =~= head.skip(n).push(middle) + tail);
        assert(merged_runs(whole) =~= merged_runs(head).push(middle) + merged_runs(tail));
    }
}

/// A message that is not a user message without images ends a stretch of user messages: it stands
/// unchanged between what merging makes of the messages before it and of those after it.
pub proof fn law_users_split(
    head: Seq<MessageModel>,
    middle: MessageModel,
    tail: Seq<MessageModel>,
)
    requires
        !text_user(middle),
        head.len() + tail.len() > 0,
    ensures
        ({
            let out = merged_users(head.push(middle) + tail);
            exists|k: int|
                {
                    &&& 0 <= k < out.len()
                    &&& out[k] == middle
                    &&& stretch_merged(head, #[trigger] out.take(k))
                    &&& stretch_merged(tail, out.skip(k + 1))
                }
        }),
{
    let out = merged_users(head.push(middle) + tail);
    lemma_runs_split(head, middle, tail);
    lemma_stretch(head);
    lemma_stretch(tail);
    let k = merged_runs(head).len() as int;
    assert(out.take(k) =~= merged_runs(head));
    assert(out.skip(k + 1) =~= merged_runs(tail));
}

/// A conversation of at most one message comes out of merging user messages unchanged.
pub proof fn law_short_unchanged(messages: Seq<MessageModel>)
    requires
        messages.len() <= 1,
    ensures
        merged_users(messages) == messages,
{
}

/// Several user messages without images become one user message that holds nothing but their
/// texts, in order, with an empty line between neighbours.
pub proof fn law_users_merged(run: Seq<MessageModel>)
    requires
        run.len() >= 2,
        forall|i: int| 0 <= i < run.len() ==> text_user(#[trigger] run[i]),
    ensures
        merged_users(run).len() == 1,
        ({
            let last = content_text(run.last().content);
            let before = if run.len() == 2 {
                content_text(run[0].content)
            } else {
                content_text(merged_users(run.drop_last())[0].content)
            };
            holds_only_text(
                merged_users(run)[0],
                MessageRole::User,
                before + seq!['\n', '\n'] + last,
            )
        }),
{
    let f = |m: MessageModel| content_text(m.content);
    reveal_strlit("\n\n");
    assert("\n\n"@ =~= seq!['\n', '\n']);
    lemma_run_is_one(run);
    let init = run.drop_last();
    assert(run.map_values(f).drop_last() =~= init.map_values(f));
    law_text_message(MessageRole::User, joined(run.map_values(f), "\n\n"@));
    if run.len() == 2 {
        assert(init.map_values(f)[0] == content_text(run[0].content));
    } else {
        assert forall|i: int| 0 <= i < init.len() implies text_user(#[trigger] init[i]) by {
            assert(init[i] == run[i]);
        }
        lemma_run_is_one(init);
        law_text_message(MessageRole::User, joined(init.map_values(f), "\n\n"@));
    }
}

proof fn lemma_run_is_one(run: Seq<MessageModel>)
    requires
        run.len() >= 1,
        forall|i: int| 0 <= i < run.len() ==> text_user(#[trigger] run[i]),
    ensures
        merged_runs(run) == seq![merged_run(run)],
{
    lemma_plain_run_bounds(run);
    let n = plain_run(run) as int;
    assert(text_user(run[0]));
    if n < run.len() {
        assert(text_user(run[n]));
    }
    assert(run.take(n) =~= run);
    assert(merged_runs(run.skip(n)) =~= Seq::empty());
    assert(merged_runs(run) =~= seq![merged_run(run)]);
}

/// No two neighbours that come out of merging user messages are user messages without images.
pub proof fn law_no_text_neighbours(messages: Seq<MessageModel>, i: int)
    requires
        0 <= i,
        i + 1 < merged_users(messages).len(),
    ensures
        !(text_user(merged_users(messages)[i]) && text_user(merged_users(messages)[i + 1])),
{
    law_runs_merged(messages);
    law_plain_user(merged_users(messages)[i]);
    law_plain_user(merged_users(messages)[i + 1]);
}

proof fn lemma_no_user_left(messages: Seq<MessageModel>)
    requires
        forall|i: int| 0 <= i < messages.len() ==> (#[trigger] messages[i]).role
            != MessageRole::User,
    ensures
        forall|i: int|
            0 <= i < without_thinking_only(messages).len() ==> (
            #[trigger] without_thinking_only(messages)[i]).role != MessageRole::User,
{
    let kept = without_thinking_only(messages);
    let keep = |i: int| !silent(messages[i]);
    let at = |i: int| messages[i];
    law_drop(messages);
    lemma_chosen_members(kept, messages.len() as int, keep, at);
    assert forall|i: int| 0 <= i < kept.len() implies (#[trigger] kept[i]).role
        != MessageRole::User by {
        let k = choose|k: int| 0 <= k < messages.len() && #[trigger] keep(k) && at(k) == kept[i];
        assert(messages[k] == kept[i]);
    }
}

/// Sanitization leaves the last user message, here `user`, as it is. Before it stands what
/// dropping, merging user messages and merging assistant messages make of the messages before it;
/// after it, what dropping and merging assistant messages make of those after it.
pub proof fn law_sanitized_parts(
    head: Seq<MessageModel>,
    user: MessageModel,
    tail: Seq<MessageModel>,
)
    requires
        user.role == MessageRole::User,
        forall|i: int| 0 <= i < tail.len() ==> (#[trigger] tail[i]).role != MessageRole::User,
    ensures
        sanitized(head.push(user) + tail) == merged_assistants(
            merged_users(without_thinking_only(head)),
        ).push(user) + merged_assistants(without_thinking_only(tail)),
{
    broadcast use Seq::filter_distributes_over_add;

    let whole = head.push(user) + tail;
    let p = |m: MessageModel| !thinking_only(m);
    let kept = without_thinking_only(whole);
    let front = without_thinking_only(head);
    let back = without_thinking_only(tail);
    head.lemma_filter_push(user, p);
    assert(kept =~= front.push(user) + back);
    lemma_no_user_left(tail);
    let k = front.len() as int;
    assert forall|j: int| k < j < kept.len() implies !is_user(
        #[trigger] kept[j],
    ) by {
        assert(kept[j] == back[j - k - 1]);
    }
    lemma_last_user_unique(kept, k);
    lemma_sanitized_parts(whole);
    assert(kept.take(k) =~= front);
    assert(kept.skip(k + 1) =~= back);
}

/// Without user messages, sanitization drops and merges assistant messages, no more.
pub proof fn law_sanitized_without_user(messages: Seq<MessageModel>)
    requires
        forall|i: int| 0 <= i < messages.len() ==> (#[trigger] messages[i]).role
            != MessageRole::User,
    ensures
        sanitized(messages) == merged_assistants(without_thinking_only(messages)),
{
    let kept = without_thinking_only(messages);
    lemma_no_user_left(messages);
    lemma_last_user(kept);
    lemma_sanitized_parts(messages);
}

/// Sanitization keeps every system and tool message, and every user message that shows an image at
/// any position, as it is.
pub proof fn law_sanitized_keeps(messages: Seq<MessageModel>, k: int)
    requires
        0 <= k < messages.len(),
        ({
            ||| messages[k].role == MessageRole::System
            ||| messages[k].role == MessageRole::Tool
            ||| messages[k].role == MessageRole::User && shows_image(messages[k].content)
        }),
    ensures
        sanitized(messages).contains(messages[k]),
{
    let p = |m: MessageModel| m.role != MessageRole::Assistant && !plain_user(m);
    law_other_messages_kept(messages, p);
    assert(p(messages[k]));
    messages.lemma_filter_contains(p, k);
    sanitized(messages).lemma_filter_contains_rev(p, messages[k]);
}

/// A character is an ASCII character exactly where its number is below 128.
pub proof fn law_ascii_char(c: char)
    ensures
        is_ascii_char(c) <==> (c as int) < 128,
{
}

} // verus!
