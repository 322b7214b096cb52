//! Laws of message sanitization.

use vstd::prelude::*;

use crate::message::{content_text, text_message, CallModel, MessageModel, MessageRole};
use crate::sanitize::{
    appended, has_call, is_ascii_char, last_user, lemma_plain_run_bounds, merged_assistants,
    merged_history, merged_pair, merged_run, merged_runs, merged_users, open_assistant, plain_run,
    plain_user, sanitized, thinking_only, with_new_calls, without_thinking_only,
};
use crate::text::{is_blank, joined};

verus! {

/// Whether a message is a user message.
pub open spec fn is_user(message: MessageModel) -> bool {
    message.role == MessageRole::User
}

/// Whether a message is an assistant message.
pub open spec fn is_assistant(message: MessageModel) -> bool {
    message.role == MessageRole::Assistant
}

/// Whether between any two assistant messages stands a message that is neither an assistant nor a
/// system message.
pub open spec fn separated(messages: Seq<MessageModel>) -> bool {
    forall|i: int, j: int|
        #![trigger messages[i], messages[j]]
        0 <= i < j < messages.len() && is_assistant(messages[i]) && is_assistant(messages[j])
            ==> exists|k: int| i < k < j && ends_turn(#[trigger] messages[k])
}

/// Whether a message is neither an assistant nor a system message.
pub open spec fn ends_turn(message: MessageModel) -> bool {
    message.role != MessageRole::Assistant && message.role != MessageRole::System
}

/// Whether no two neighbours are plain-text user messages.
pub open spec fn no_plain_neighbours(messages: Seq<MessageModel>) -> bool {
    forall|i: int, j: int|
        #![trigger messages[i], messages[j]]
        0 <= i < j < messages.len() && j == i + 1 ==> !(plain_user(messages[i]) && plain_user(
            messages[j],
        ))
}

pub proof fn lemma_open_assistant(messages: Seq<MessageModel>)
    ensures
        match open_assistant(messages) {
            Some(k) => {
                &&& 0 <= k < messages.len()
                &&& is_assistant(messages[k])
                &&& forall|j: int|
                    k < j < messages.len() ==> (#[trigger] messages[j]).role == MessageRole::System
            },
            None => forall|i: int|
                0 <= i < messages.len() && is_assistant(#[trigger] messages[i]) ==> exists|k: int|
                    i < k < messages.len() && ends_turn(#[trigger] messages[k]),
        },
    decreases messages.len(),
{
    if messages.len() > 0 {
        let init = messages.drop_last();
        lemma_open_assistant(init);
        if messages.last().role == MessageRole::System {
            if open_assistant(messages) is None {
                assert forall|i: int|
                    0 <= i < messages.len() && is_assistant(#[trigger] messages[i]) implies exists|
                    k: int,
                | i < k < messages.len() && ends_turn(#[trigger] messages[k]) by {
                    assert(init[i] == messages[i]);
                    let k = choose|k: int| i < k < init.len() && ends_turn(#[trigger] init[k]);
                    assert(messages[k] == init[k]);
                }
            } else {
                let k = open_assistant(messages)->0;
                assert forall|j: int| k < j < messages.len() implies (
                #[trigger] messages[j]).role == MessageRole::System by {
                    if j < messages.len() - 1 {
                        assert(init[j] == messages[j]);
                    }
                }
            }
        } else if messages.last().role != MessageRole::Assistant {
            assert(ends_turn(messages[messages.len() - 1]));
        }
    }
}

/// After merging, some message other than a system message stands between any two assistant
/// messages; in particular no conversation ends in two assistant messages.
pub proof fn law_assistants_separated(messages: Seq<MessageModel>)
    ensures
        separated(merged_assistants(messages)),
    decreases messages.len(),
{
    if messages.len() > 0 {
        let before = merged_assistants(messages.drop_last());
        let next = messages.last();
        law_assistants_separated(messages.drop_last());
        lemma_open_assistant(before);
        let after = appended(before, next);
        assert forall|i: int, j: int|
            #![trigger after[i], after[j]]
            0 <= i < j < after.len() && is_assistant(after[i]) && is_assistant(
                after[j],
            ) implies exists|k: int| i < k < j && ends_turn(#[trigger] after[k]) by {
            assert(is_assistant(before[i]));
            if j < before.len() {
                assert(is_assistant(before[j]));
                let k = choose|k: int| i < k < j && ends_turn(#[trigger] before[k]);
                assert(after[k] == before[k]);
            } else {
                let k = choose|k: int| i < k < before.len() && ends_turn(#[trigger] before[k]);
                assert(after[k] == before[k]);
            }
        }
    }
}

/// Merging assistant messages changes nothing exactly where they are separated already.
pub proof fn law_separated_unchanged(messages: Seq<MessageModel>)
    ensures
        merged_assistants(messages) == messages <==> separated(messages),
{
    law_assistants_separated(messages);
    if separated(messages) {
        lemma_separated_unchanged(messages);
    }
}

proof fn lemma_separated_unchanged(messages: Seq<MessageModel>)
    requires
        separated(messages),
    ensures
        merged_assistants(messages) == messages,
    decreases messages.len(),
{
    if messages.len() > 0 {
        let init = messages.drop_last();
        let last = messages.last();
        assert forall|i: int, j: int|
            #![trigger init[i], init[j]]
            0 <= i < j < init.len() && is_assistant(init[i]) && is_assistant(
                init[j],
            ) implies exists|k: int| i < k < j && ends_turn(#[trigger] init[k]) by {
            assert(is_assistant(messages[i]) && is_assistant(messages[j]));
            let k = choose|k: int| i < k < j && ends_turn(#[trigger] messages[k]);
            assert(init[k] == messages[k]);
        }
        lemma_separated_unchanged(init);
        lemma_open_assistant(init);
        if let Some(k) = open_assistant(init) {
            if is_assistant(last) {
                assert(is_assistant(messages[k]) && is_assistant(messages[messages.len() - 1]));
                let m = choose|m: int|
                    k < m < messages.len() - 1 && ends_turn(#[trigger] messages[m]);
                assert(init[m] == messages[m]);
            }
        }
        assert(appended(init, last) =~= messages);
    }
}


proof fn lemma_filter_update(
    messages: Seq<MessageModel>,
    k: int,
    message: MessageModel,
    p: spec_fn(MessageModel) -> bool,
)
    requires
        0 <= k < messages.len(),
        !p(messages[k]),
        !p(message),
    ensures
        messages.update(k, message).filter(p) == messages.filter(p),
{
    broadcast use Seq::filter_distributes_over_add;

    let head = messages.take(k);
    let tail = messages.skip(k + 1);
    reveal(Seq::filter);
    assert(messages =~= head + seq![messages[k]] + tail);
    assert(messages.update(k, message) =~= head + seq![message] + tail);
    assert(seq![messages[k]].drop_last() =~= Seq::<MessageModel>::empty());
    assert(seq![message].drop_last() =~= Seq::<MessageModel>::empty());
    assert(seq![messages[k]].filter(p) =~= seq![message].filter(p));
}

proof fn lemma_filter_keeps_all<A>(items: Seq<A>, p: spec_fn(A) -> bool)
    requires
        forall|i: int| 0 <= i < items.len() ==> p(#[trigger] items[i]),
    ensures
        items.filter(p) == items,
    decreases items.len(),
{
    reveal(Seq::filter);
    if items.len() > 0 {
        let init = items.drop_last();
        assert forall|i: int| 0 <= i < init.len() implies p(#[trigger] init[i]) by {
            assert(init[i] == items[i]);
        }
        lemma_filter_keeps_all(init, p);
        assert(p(items[items.len() - 1]));
        assert(init.push(items.last()) =~= items);
    }
}

proof fn lemma_filter_drops_all(messages: Seq<MessageModel>, p: spec_fn(MessageModel) -> bool)
    requires
        forall|i: int| 0 <= i < messages.len() ==> !p(#[trigger] messages[i]),
    ensures
        messages.filter(p) == Seq::<MessageModel>::empty(),
{
    messages.lemma_all_neg_filter_empty(p);
    assert(messages.filter(p) =~= Seq::<MessageModel>::empty());
}

/// Dropping keeps every message that is not thinking-only, unchanged and in order.
pub proof fn law_drop_keeps_others(messages: Seq<MessageModel>, p: spec_fn(MessageModel) -> bool)
    requires
        forall|m: MessageModel| #[trigger] p(m) ==> !thinking_only(m),
    ensures
        without_thinking_only(messages).filter(p) == messages.filter(p),
    decreases messages.len(),
{
    reveal(Seq::filter);
    if messages.len() > 0 {
        let init = messages.drop_last();
        let last = messages.last();
        law_drop_keeps_others(init, p);
        without_thinking_only(init).lemma_filter_push(last, p);
    }
}

/// Merging assistant messages keeps every other message, unchanged and in order.
pub proof fn law_assistants_keep_others(
    messages: Seq<MessageModel>,
    p: spec_fn(MessageModel) -> bool,
)
    requires
        forall|m: MessageModel| #[trigger] p(m) ==> !is_assistant(m),
    ensures
        merged_assistants(messages).filter(p) == messages.filter(p),
    decreases messages.len(),
{
    reveal(Seq::filter);
    if messages.len() > 0 {
        let init = messages.drop_last();
        let next = messages.last();
        let before = merged_assistants(init);
        law_assistants_keep_others(init, p);
        lemma_open_assistant(before);
        before.lemma_filter_push(next, p);
        if let Some(k) = open_assistant(before) {
            if is_assistant(next) {
                assert(is_assistant(merged_pair(before[k], next)));
                lemma_filter_update(before, k, merged_pair(before[k], next), p);
            }
        }
    }
}

proof fn lemma_text_message_plain(text: Seq<char>)
    ensures
        plain_user(text_message(MessageRole::User, text)),
{
}

proof fn lemma_filter_after_runs(messages: Seq<MessageModel>, p: spec_fn(MessageModel) -> bool)
    requires
        forall|m: MessageModel| #[trigger] p(m) ==> !plain_user(m),
    ensures
        merged_runs(messages).filter(p) == messages.filter(p),
    decreases messages.len(),
{
    broadcast use Seq::filter_distributes_over_add;

    if messages.len() > 0 {
        let n: int = if plain_user(messages[0]) {
            plain_run(messages) as int
        } else {
            1
        };
        lemma_plain_run_bounds(messages);
        let head = messages.take(n);
        lemma_filter_after_runs(messages.skip(n), p);
        assert(messages =~= head + messages.skip(n));
        if plain_user(messages[0]) {
            assert forall|i: int| 0 <= i < head.len() implies !p(#[trigger] head[i]) by {
                assert(head[i] == messages[i]);
            }
            lemma_filter_drops_all(head, p);
            lemma_text_message_plain(
                joined(head.map_values(|m: MessageModel| content_text(m.content)), "\n\n"@),
            );
            lemma_filter_drops_all(seq![merged_run(head)], p);
        } else {
            assert(head =~= seq![messages[0]]);
        }
        assert(merged_runs(messages).filter(p) =~= messages.filter(p));
    }
}

/// Merging user messages keeps every message that is not a plain-text user message, unchanged and
/// in order.
pub proof fn law_users_keep_others(messages: Seq<MessageModel>, p: spec_fn(MessageModel) -> bool)
    requires
        forall|m: MessageModel| #[trigger] p(m) ==> !plain_user(m),
    ensures
        merged_users(messages).filter(p) == messages.filter(p),
{
    lemma_filter_after_runs(messages, p);
}

/// Sanitization keeps every message that is neither an assistant message nor a plain-text user
/// message, unchanged and in order. System messages, tool messages and user messages with images
/// are such messages, so `p` can single out any of these.
pub proof fn law_other_messages_kept(messages: Seq<MessageModel>, p: spec_fn(MessageModel) -> bool)
    requires
        forall|m: MessageModel| #[trigger] p(m) ==> !is_assistant(m) && !plain_user(m),
    ensures
        sanitized(messages).filter(p) == messages.filter(p),
{
    broadcast use Seq::filter_distributes_over_add;

    let kept = without_thinking_only(messages);
    law_drop_keeps_others(messages, p);
    law_assistants_keep_others(merged_history(kept), p);
    lemma_last_user(kept);
    if let Some(k) = last_user(kept) {
        law_users_keep_others(kept.take(k), p);
        assert(kept =~= kept.take(k) + kept.skip(k));
    }
}

pub proof fn lemma_last_user(messages: Seq<MessageModel>)
    ensures
        match last_user(messages) {
            Some(k) => {
                &&& 0 <= k < messages.len()
                &&& is_user(messages[k])
                &&& forall|j: int| k < j < messages.len() ==> !is_user(#[trigger] messages[j])
            },
            None => forall|j: int| 0 <= j < messages.len() ==> !is_user(#[trigger] messages[j]),
        },
    decreases messages.len(),
{
    if messages.len() > 0 && !is_user(messages.last()) {
        let init = messages.drop_last();
        lemma_last_user(init);
        assert forall|j: int|
            0 <= j < messages.len() && (last_user(init) matches Some(k) ==> k < j) implies !is_user(
            #[trigger] messages[j],
        ) by {
            if j < messages.len() - 1 {
                assert(init[j] == messages[j]);
            }
        }
    }
}

pub proof fn lemma_last_user_unique(messages: Seq<MessageModel>, k: int)
    requires
        0 <= k < messages.len(),
        is_user(messages[k]),
        forall|j: int| k < j < messages.len() ==> !is_user(#[trigger] messages[j]),
    ensures
        last_user(messages) == Some(k),
{
    lemma_last_user(messages);
    let j = last_user(messages)->0;
    assert(is_user(messages[j]));
    assert(is_user(messages[k]));
}

/// A message that ends a turn keeps the assistant messages before and after it apart.
proof fn lemma_turn_splits(
    head: Seq<MessageModel>,
    turn: MessageModel,
    tail: Seq<MessageModel>,
)
    requires
        ends_turn(turn),
    ensures
        merged_assistants(head.push(turn) + tail) == merged_assistants(head).push(turn)
            + merged_assistants(tail),
    decreases tail.len(),
{
    let whole = head.push(turn) + tail;
    if tail.len() == 0 {
        assert(whole.drop_last() =~= head);
        assert(merged_assistants(whole) =~= merged_assistants(head).push(turn)
            + merged_assistants(tail));
    } else {
        let front = merged_assistants(head).push(turn);
        let back = merged_assistants(tail.drop_last());
        let next = tail.last();
        lemma_turn_splits(head, turn, tail.drop_last());
        assert(whole.drop_last() =~= head.push(turn) + tail.drop_last());
        assert(whole.last() == next);
        lemma_open_after_turn(front, back);
        lemma_open_assistant(back);
        assert(appended(front + back, next) =~= front + appended(back, next));
    }
}

proof fn lemma_open_after_turn(front: Seq<MessageModel>, back: Seq<MessageModel>)
    requires
        front.len() > 0,
        ends_turn(front.last()),
    ensures
        open_assistant(front + back) == match open_assistant(back) {
            Some(k) => Some(front.len() + k),
            None => None,
        },
    decreases back.len(),
{
    if back.len() == 0 {
        assert(front + back =~= front);
    } else {
        lemma_open_after_turn(front, back.drop_last());
        assert((front + back).drop_last() =~= front + back.drop_last());
        assert((front + back).last() == back.last());
    }
}

proof fn lemma_assistants_add_no_user(messages: Seq<MessageModel>)
    requires
        forall|i: int| 0 <= i < messages.len() ==> !is_user(#[trigger] messages[i]),
    ensures
        forall|i: int|
            0 <= i < merged_assistants(messages).len() ==> !is_user(
                #[trigger] merged_assistants(messages)[i],
            ),
{
    broadcast use Seq::lemma_filter_contains;

    let p = |m: MessageModel| is_user(m);
    let out = merged_assistants(messages);
    law_assistants_keep_others(messages, p);
    lemma_filter_drops_all(messages, p);
    assert forall|i: int| 0 <= i < out.len() implies !is_user(#[trigger] out[i]) by {
        if p(out[i]) {
            assert(out.filter(p).contains(out[i]));
        }
    }
}

/// What sanitization makes of the parts before, at and after the last user message.
pub proof fn lemma_sanitized_parts(messages: Seq<MessageModel>)
    ensures
        ({
            let kept = without_thinking_only(messages);
            match last_user(kept) {
                Some(k) => {
                    let history = merged_assistants(merged_users(kept.take(k)));
                    &&& 0 <= k < kept.len()
                    &&& sanitized(messages) == history.push(kept[k]) + merged_assistants(
                        kept.skip(k + 1),
                    )
                    &&& last_user(sanitized(messages)) == Some(history.len() as int)
                },
                None => {
                    &&& sanitized(messages) == merged_assistants(kept)
                    &&& last_user(sanitized(messages)) is None
                },
            }
        }),
{
    let kept = without_thinking_only(messages);
    lemma_last_user(kept);
    if let Some(k) = last_user(kept) {
        let head = merged_users(kept.take(k));
        let tail = kept.skip(k + 1);
        assert(merged_history(kept) =~= head.push(kept[k]) + tail);
        lemma_turn_splits(head, kept[k], tail);
        assert forall|i: int| 0 <= i < tail.len() implies !is_user(#[trigger] tail[i]) by {
            assert(tail[i] == kept[k + 1 + i]);
        }
        lemma_assistants_add_no_user(tail);
        lemma_last_user_unique(sanitized(messages), merged_assistants(head).len() as int);
    } else {
        lemma_assistants_add_no_user(kept);
        lemma_last_user(merged_assistants(kept));
    }
}

/// The last user message of a conversation is preserved as it is and stays the last user message.
/// A conversation without user messages gets none.
pub proof fn law_last_user_preserved(messages: Seq<MessageModel>)
    ensures
        last_user(messages) is Some <==> last_user(sanitized(messages)) is Some,
        last_user(messages) matches Some(k) ==> sanitized(messages)[last_user(
            sanitized(messages),
        )->0] == messages[k],
{
    lemma_sanitized_parts(messages);
    lemma_last_user_kept(messages);
}

proof fn lemma_last_user_kept(messages: Seq<MessageModel>)
    ensures
        ({
            let kept = without_thinking_only(messages);
            &&& last_user(messages) is Some <==> last_user(kept) is Some
            &&& last_user(messages) matches Some(k) ==> kept[last_user(kept)->0] == messages[k]
        }),
    decreases messages.len(),
{
    reveal(Seq::filter);
    if messages.len() > 0 {
        let init = messages.drop_last();
        let kept = without_thinking_only(messages);
        lemma_last_user_kept(init);
        lemma_last_user(without_thinking_only(init));
        lemma_last_user(init);
        if kept.len() > without_thinking_only(init).len() {
            assert(kept.drop_last() =~= without_thinking_only(init));
        }
    }
}


/// Whether none of `messages` is thinking-only.
pub open spec fn none_thinking_only(messages: Seq<MessageModel>) -> bool {
    forall|i: int| 0 <= i < messages.len() ==> !thinking_only(#[trigger] messages[i])
}

proof fn lemma_new_calls_not_fewer(known: Seq<CallModel>, new: Seq<CallModel>)
    ensures
        with_new_calls(known, new).len() >= known.len(),
        new.len() > 0 ==> with_new_calls(known, new).len() > 0,
        known.is_prefix_of(with_new_calls(known, new)),
    decreases new.len(),
{
    if new.len() > 0 {
        lemma_new_calls_not_fewer(known, new.drop_last());
    }
}

proof fn lemma_blank_concat(a: Seq<char>, b: Seq<char>, c: Seq<char>)
    requires
        is_blank(a + b + c),
    ensures
        is_blank(a),
        is_blank(c),
{
    let whole = a + b + c;
    assert forall|i: int| 0 <= i < a.len() implies crate::text::is_white_space(#[trigger] a[i]) by {
        assert(whole[i] == a[i]);
    }
    assert forall|i: int| 0 <= i < c.len() implies crate::text::is_white_space(#[trigger] c[i]) by {
        assert(whole[a.len() + b.len() + i] == c[i]);
    }
}

proof fn lemma_pair_not_thinking_only(first: MessageModel, second: MessageModel)
    requires
        is_assistant(first),
        is_assistant(second),
        !thinking_only(first),
        !thinking_only(second),
    ensures
        !thinking_only(merged_pair(first, second)),
{
    let merged = merged_pair(first, second);
    if first.tool_calls is Some && second.tool_calls is Some {
        lemma_new_calls_not_fewer(first.tool_calls->0, second.tool_calls->0);
    }
    if is_blank(content_text(merged.content)) && content_text(second.content).len() > 0 {
        lemma_blank_concat(
            content_text(first.content),
            "\n"@,
            content_text(second.content),
        );
    }
}

proof fn lemma_assistants_none_thinking_only(messages: Seq<MessageModel>)
    requires
        none_thinking_only(messages),
    ensures
        none_thinking_only(merged_assistants(messages)),
    decreases messages.len(),
{
    if messages.len() > 0 {
        let init = messages.drop_last();
        let next = messages.last();
        assert forall|i: int| 0 <= i < init.len() implies !thinking_only(#[trigger] init[i]) by {
            assert(init[i] == messages[i]);
        }
        assert(!thinking_only(messages[messages.len() - 1]));
        lemma_assistants_none_thinking_only(init);
        let before = merged_assistants(init);
        lemma_open_assistant(before);
        if let Some(k) = open_assistant(before) {
            if is_assistant(next) {
                assert(!thinking_only(before[k]));
                lemma_pair_not_thinking_only(before[k], next);
            }
        }
    }
}

proof fn lemma_runs_none_thinking_only(messages: Seq<MessageModel>)
    requires
        none_thinking_only(messages),
    ensures
        none_thinking_only(merged_runs(messages)),
    decreases messages.len(),
{
    if messages.len() > 0 {
        let n: int = if plain_user(messages[0]) {
            plain_run(messages) as int
        } else {
            1
        };
        lemma_plain_run_bounds(messages);
        let rest = messages.skip(n);
        assert forall|i: int| 0 <= i < rest.len() implies !thinking_only(#[trigger] rest[i]) by {
            assert(rest[i] == messages[n + i]);
        }
        lemma_runs_none_thinking_only(rest);
        assert(!thinking_only(messages[0]));
    }
}

/// No thinking-only message is left after dropping, nor after sanitization.
pub proof fn law_none_thinking_only(messages: Seq<MessageModel>)
    ensures
        none_thinking_only(without_thinking_only(messages)),
        none_thinking_only(sanitized(messages)),
{
    let kept = without_thinking_only(messages);
    let keep = |m: MessageModel| !thinking_only(m);
    assert forall|i: int| 0 <= i < kept.len() implies !thinking_only(#[trigger] kept[i]) by {
        messages.lemma_filter_pred(keep, i);
    }
    lemma_last_user(kept);
    let history = merged_history(kept);
    if let Some(k) = last_user(kept) {
        let head = kept.take(k);
        assert forall|i: int| 0 <= i < head.len() implies !thinking_only(#[trigger] head[i]) by {
            assert(head[i] == kept[i]);
        }
        lemma_runs_none_thinking_only(head);
        let merged = merged_users(head);
        assert forall|i: int| 0 <= i < history.len() implies !thinking_only(
            #[trigger] history[i],
        ) by {
            if i < merged.len() {
                assert(history[i] == merged[i]);
            } else {
                assert(history[i] == kept[k + i - merged.len()]);
            }
        }
    }
    lemma_assistants_none_thinking_only(history);
}

/// Sanitization leaves the assistant messages of a conversation separated.
pub proof fn law_sanitized_separated(messages: Seq<MessageModel>)
    ensures
        separated(sanitized(messages)),
{
    law_assistants_separated(merged_history(without_thinking_only(messages)));
}

/// After merging user messages no two neighbours are plain-text user messages.
pub proof fn law_runs_merged(messages: Seq<MessageModel>)
    ensures
        no_plain_neighbours(merged_users(messages)),
{
    lemma_runs_no_neighbours(messages);
}

proof fn lemma_runs_no_neighbours(messages: Seq<MessageModel>)
    ensures
        no_plain_neighbours(merged_runs(messages)),
        messages.len() > 0 ==> merged_runs(messages).len() > 0,
        messages.len() > 0 ==> (plain_user(merged_runs(messages)[0]) <==> plain_user(messages[0])),
    decreases messages.len(),
{
    if messages.len() > 0 {
        let n: int = if plain_user(messages[0]) {
            plain_run(messages) as int
        } else {
            1
        };
        lemma_plain_run_bounds(messages);
        let rest = messages.skip(n);
        lemma_runs_no_neighbours(rest);
        let out = merged_runs(messages);
        let merged_rest = merged_runs(rest);
        if plain_user(messages[0]) {
            lemma_text_message_plain(
                joined(
                    messages.take(n).map_values(|m: MessageModel| content_text(m.content)),
                    "\n\n"@,
                ),
            );
        }
        assert forall|i: int, j: int|
            #![trigger out[i], out[j]]
            0 <= i < j < out.len() && j == i + 1 implies !(plain_user(out[i]) && plain_user(
            out[j],
        )) by {
            assert(out[j] == merged_rest[j - 1]);
            if i > 0 {
                assert(out[i] == merged_rest[i - 1]);
            } else {
                assert(rest[0] == messages[n]);
            }
        }
    }
}

proof fn lemma_assistants_no_neighbours(messages: Seq<MessageModel>)
    requires
        no_plain_neighbours(messages),
    ensures
        no_plain_neighbours(merged_assistants(messages)),
        merged_assistants(messages).len() > 0 && plain_user(merged_assistants(messages).last())
            ==> messages.len() > 0 && messages.last() == merged_assistants(messages).last(),
    decreases messages.len(),
{
    if messages.len() > 0 {
        let init = messages.drop_last();
        let next = messages.last();
        assert(no_plain_neighbours(init)) by {
            assert forall|i: int, j: int|
                #![trigger init[i], init[j]]
                0 <= i < j < init.len() && j == i + 1 implies !(plain_user(init[i]) && plain_user(
                init[j],
            )) by {
                assert(init[i] == messages[i] && init[j] == messages[j]);
            }
        }
        lemma_assistants_no_neighbours(init);
        let before = merged_assistants(init);
        let after = merged_assistants(messages);
        lemma_open_assistant(before);
        assert forall|i: int, j: int|
            #![trigger after[i], after[j]]
            0 <= i < j < after.len() && j == i + 1 implies !(plain_user(after[i]) && plain_user(
            after[j],
        )) by {
            if j < before.len() {
                assert(plain_user(after[i]) ==> plain_user(before[i]));
                assert(plain_user(after[j]) ==> plain_user(before[j]));
            } else if plain_user(after[i]) && plain_user(after[j]) {
                assert(after[i] == before.last());
                assert(init.last() == messages[messages.len() - 2]);
                assert(plain_user(messages[messages.len() - 2]));
                assert(plain_user(messages[messages.len() - 1]));
            }
        }
    }
}

/// After sanitization two plain-text user messages are neighbours only where the second is the
/// last user message.
pub proof fn law_plain_neighbours(messages: Seq<MessageModel>, i: int)
    requires
        0 <= i,
        i + 1 < sanitized(messages).len(),
        plain_user(sanitized(messages)[i]),
        plain_user(sanitized(messages)[i + 1]),
    ensures
        last_user(sanitized(messages)) == Some(i + 1),
{
    let kept = without_thinking_only(messages);
    lemma_sanitized_parts(messages);
    lemma_last_user(sanitized(messages));
    let j = last_user(sanitized(messages))->0;
    assert(is_user(sanitized(messages)[i + 1]));
    let k = last_user(kept)->0;
    law_runs_merged(kept.take(k));
    let head = merged_users(kept.take(k));
    lemma_assistants_no_neighbours(head);
    if i + 1 < j {
        assert(sanitized(messages)[i] == merged_assistants(head)[i]);
        assert(sanitized(messages)[i + 1] == merged_assistants(head)[i + 1]);
    }
}

/// Whether every plain-text user message is one that merging builds.
pub open spec fn plain_normal(messages: Seq<MessageModel>) -> bool {
    forall|i: int|
        0 <= i < messages.len() && plain_user(#[trigger] messages[i]) ==> messages[i]
            == text_message(MessageRole::User, content_text(messages[i].content))
}

/// Merging user messages changes nothing exactly where there is at most one message, or where no
/// two plain-text user messages are neighbours and each holds its text alone.
pub proof fn law_alternating_unchanged(messages: Seq<MessageModel>)
    ensures
        merged_users(messages) == messages <==> {
            ||| messages.len() <= 1
            ||| no_plain_neighbours(messages) && plain_normal(messages)
        },
{
    law_runs_merged(messages);
    lemma_runs_normal(messages);
    if no_plain_neighbours(messages) && plain_normal(messages) {
        lemma_alternating_runs(messages);
    }
}

proof fn lemma_alternating_runs(messages: Seq<MessageModel>)
    requires
        no_plain_neighbours(messages),
        plain_normal(messages),
    ensures
        merged_runs(messages) == messages,
    decreases messages.len(),
{
    if messages.len() > 0 {
        let rest = messages.skip(1);
        assert(no_plain_neighbours(rest)) by {
            assert forall|i: int, j: int|
                #![trigger rest[i], rest[j]]
                0 <= i < j < rest.len() && j == i + 1 implies !(plain_user(rest[i]) && plain_user(
                rest[j],
            )) by {
                assert(rest[i] == messages[i + 1] && rest[j] == messages[j + 1]);
            }
        }
        assert(plain_normal(rest)) by {
            assert forall|i: int|
                0 <= i < rest.len() && plain_user(#[trigger] rest[i]) implies rest[i]
                == text_message(MessageRole::User, content_text(rest[i].content)) by {
                assert(rest[i] == messages[i + 1]);
            }
        }
        lemma_alternating_runs(rest);
        lemma_plain_run_bounds(messages);
        if plain_user(messages[0]) {
            if plain_run(messages) > 1 {
                assert(plain_user(messages[0]) && plain_user(messages[1]));
            }
            let texts = messages.take(1).map_values(|m: MessageModel| content_text(m.content));
            assert(texts.len() == 1 && texts[0] == content_text(messages[0].content));
            assert(merged_run(messages.take(1)) == messages[0]);
        }
        assert(seq![messages[0]] + rest =~= messages);
    }
}

proof fn lemma_runs_normal(messages: Seq<MessageModel>)
    ensures
        plain_normal(merged_runs(messages)),
    decreases messages.len(),
{
    if messages.len() > 0 {
        let n: int = if plain_user(messages[0]) {
            plain_run(messages) as int
        } else {
            1
        };
        lemma_plain_run_bounds(messages);
        lemma_runs_normal(messages.skip(n));
        let out = merged_runs(messages);
        assert forall|i: int| 0 <= i < out.len() && plain_user(#[trigger] out[i]) implies out[i]
            == text_message(MessageRole::User, content_text(out[i].content)) by {
            if i > 0 {
                assert(out[i] == merged_runs(messages.skip(n))[i - 1]);
            }
        }
    }
}

proof fn lemma_assistants_normal(messages: Seq<MessageModel>)
    requires
        plain_normal(messages),
    ensures
        plain_normal(merged_assistants(messages)),
    decreases messages.len(),
{
    if messages.len() > 0 {
        let init = messages.drop_last();
        assert(plain_normal(init)) by {
            assert forall|i: int|
                0 <= i < init.len() && plain_user(#[trigger] init[i]) implies init[i]
                == text_message(MessageRole::User, content_text(init[i].content)) by {
                assert(init[i] == messages[i]);
            }
        }
        lemma_assistants_normal(init);
        let before = merged_assistants(init);
        let after = merged_assistants(messages);
        lemma_open_assistant(before);
        assert forall|i: int|
            0 <= i < after.len() && plain_user(#[trigger] after[i]) implies after[i]
            == text_message(MessageRole::User, content_text(after[i].content)) by {
            if i < before.len() {
                assert(after[i] == before[i]);
            } else {
                assert(after[i] == messages[messages.len() - 1]);
            }
        }
    }
}

/// No step of sanitization makes a conversation longer.
pub proof fn law_not_longer(messages: Seq<MessageModel>)
    ensures
        without_thinking_only(messages).len() <= messages.len(),
        merged_users(messages).len() <= messages.len(),
        merged_assistants(messages).len() <= messages.len(),
        sanitized(messages).len() <= messages.len(),
{
    let kept = without_thinking_only(messages);
    messages.lemma_filter_len(|m: MessageModel| !thinking_only(m));
    lemma_runs_not_longer(messages);
    lemma_assistants_not_longer(messages);
    lemma_assistants_not_longer(merged_history(kept));
    lemma_last_user(kept);
    if let Some(k) = last_user(kept) {
        lemma_runs_not_longer(kept.take(k));
    }
}

proof fn lemma_runs_not_longer(messages: Seq<MessageModel>)
    ensures
        merged_runs(messages).len() <= messages.len(),
    decreases messages.len(),
{
    if messages.len() > 0 {
        lemma_plain_run_bounds(messages);
        if plain_user(messages[0]) {
            lemma_runs_not_longer(messages.skip(plain_run(messages) as int));
        } else {
            lemma_runs_not_longer(messages.skip(1));
        }
    }
}

proof fn lemma_assistants_not_longer(messages: Seq<MessageModel>)
    ensures
        merged_assistants(messages).len() <= messages.len(),
    decreases messages.len(),
{
    if messages.len() > 0 {
        lemma_assistants_not_longer(messages.drop_last());
        lemma_open_assistant(merged_assistants(messages.drop_last()));
    }
}

/// Repeating a step of sanitization changes nothing.
pub proof fn law_steps_idempotent(messages: Seq<MessageModel>)
    ensures
        without_thinking_only(without_thinking_only(messages)) == without_thinking_only(messages),
        merged_users(merged_users(messages)) == merged_users(messages),
        merged_assistants(merged_assistants(messages)) == merged_assistants(messages),
{
    law_none_thinking_only(messages);
    lemma_filter_keeps_all(
        without_thinking_only(messages),
        |m: MessageModel| !thinking_only(m),
    );
    law_runs_merged(messages);
    if messages.len() > 1 {
        lemma_runs_normal(messages);
        law_alternating_unchanged(merged_users(messages));
    }
    law_assistants_separated(messages);
    law_separated_unchanged(merged_assistants(messages));
}

proof fn lemma_history_stable(history: Seq<MessageModel>)
    ensures
        merged_users(merged_assistants(merged_users(history))) == merged_assistants(
            merged_users(history),
        ),
{
    let head = merged_users(history);
    let out = merged_assistants(head);
    lemma_assistants_not_longer(head);
    if out.len() > 1 {
        lemma_runs_not_longer(history);
        law_runs_merged(history);
        lemma_runs_normal(history);
        lemma_assistants_no_neighbours(head);
        lemma_assistants_normal(head);
        law_alternating_unchanged(out);
    }
}

proof fn lemma_merged_history_stable(messages: Seq<MessageModel>)
    ensures
        merged_history(sanitized(messages)) == sanitized(messages),
{
    let kept = without_thinking_only(messages);
    let result = sanitized(messages);
    lemma_sanitized_parts(messages);
    if let Some(k) = last_user(kept) {
        let history = merged_assistants(merged_users(kept.take(k)));
        lemma_history_stable(kept.take(k));
        assert(result.take(history.len() as int) =~= history);
        assert(result.take(history.len() as int) + result.skip(history.len() as int) =~= result);
    }
}

/// Sanitizing a second time changes nothing.
pub proof fn law_sanitize_idempotent(messages: Seq<MessageModel>)
    ensures
        sanitized(sanitized(messages)) == sanitized(messages),
{
    let result = sanitized(messages);
    law_none_thinking_only(messages);
    lemma_filter_keeps_all(result, |m: MessageModel| !thinking_only(m));
    lemma_merged_history_stable(messages);
    law_sanitized_separated(messages);
    law_separated_unchanged(result);
}

/// Whether `needle` occurs in `text` as a contiguous piece.
pub open spec fn contains_text(text: Seq<char>, needle: Seq<char>) -> bool {
    exists|at: int| #[trigger] occurs_at(text, needle, at)
}

/// Whether `needle` stands in `text` at position `at`.
pub open spec fn occurs_at(text: Seq<char>, needle: Seq<char>, at: int) -> bool {
    &&& 0 <= at
    &&& at + needle.len() <= text.len()
    &&& text.subrange(at, at + needle.len()) == needle
}

/// Whether a message has a tool call with the given id.
pub open spec fn asks_for(message: MessageModel, id: Seq<char>) -> bool {
    message.tool_calls matches Some(calls) && has_call(calls, id)
}

/// Whether `holder` has the role of `message`, holds its text and, for an assistant message, all
/// ids of its tool calls.
pub open spec fn holds(holder: MessageModel, message: MessageModel) -> bool {
    &&& holder.role == message.role
    &&& contains_text(content_text(holder.content), content_text(message.content))
    &&& is_assistant(message) ==> forall|id: Seq<char>|
        #![trigger asks_for(message, id)]
        #![trigger asks_for(holder, id)]
        asks_for(message, id) ==> asks_for(holder, id)
}

/// Whether some message of `messages` holds `message`.
pub open spec fn held(messages: Seq<MessageModel>, message: MessageModel) -> bool {
    exists|i: int| 0 <= i < messages.len() && holds(#[trigger] messages[i], message)
}

proof fn lemma_contains_concat(a: Seq<char>, b: Seq<char>, c: Seq<char>, needle: Seq<char>)
    requires
        contains_text(a, needle) || contains_text(c, needle),
    ensures
        contains_text(a + b + c, needle),
{
    let whole = a + b + c;
    if contains_text(a, needle) {
        let at = choose|at: int| #[trigger] occurs_at(a, needle, at);
        assert(whole.subrange(at, at + needle.len()) =~= a.subrange(at, at + needle.len()));
        assert(occurs_at(whole, needle, at));
    } else {
        let at = choose|at: int| #[trigger] occurs_at(c, needle, at);
        let shifted = a.len() + b.len() + at;
        assert(whole.subrange(shifted, shifted + needle.len()) =~= c.subrange(
            at,
            at + needle.len(),
        ));
        assert(occurs_at(whole, needle, shifted));
    }
}

proof fn lemma_contains_self(text: Seq<char>)
    ensures
        contains_text(text, text),
{
    assert(text.subrange(0, text.len() as int) =~= text);
    assert(occurs_at(text, text, 0));
}

proof fn lemma_holds_self(message: MessageModel)
    ensures
        holds(message, message),
{
    lemma_contains_self(content_text(message.content));
}

proof fn lemma_contains_trans(a: Seq<char>, b: Seq<char>, c: Seq<char>)
    requires
        contains_text(a, b),
        contains_text(b, c),
    ensures
        contains_text(a, c),
{
    let i = choose|at: int| #[trigger] occurs_at(a, b, at);
    let j = choose|at: int| #[trigger] occurs_at(b, c, at);
    assert(a.subrange(i + j, i + j + c.len()) =~= a.subrange(i, i + b.len()).subrange(
        j,
        j + c.len(),
    ));
    assert(occurs_at(a, c, i + j));
}

proof fn lemma_holds_trans(a: MessageModel, b: MessageModel, c: MessageModel)
    requires
        holds(a, b),
        holds(b, c),
    ensures
        holds(a, c),
{
    lemma_contains_trans(
        content_text(a.content),
        content_text(b.content),
        content_text(c.content),
    );
}

/// The calls of a merged message have every id of the calls they were made from, and no id of
/// another call.
pub proof fn law_call_ids(known: Seq<CallModel>, new: Seq<CallModel>, id: Seq<char>)
    ensures
        has_call(with_new_calls(known, new), id) <==> has_call(known, id) || has_call(new, id),
    decreases new.len(),
{
    if new.len() > 0 {
        let init = new.drop_last();
        let last = new.last();
        law_call_ids(known, init, id);
        let before = with_new_calls(known, init);
        let after = with_new_calls(known, new);
        if has_call(init, id) {
            let i = choose|i: int| 0 <= i < init.len() && #[trigger] init[i].id == id;
            assert(new[i].id == id);
        }
        if has_call(new, id) {
            let i = choose|i: int| 0 <= i < new.len() && #[trigger] new[i].id == id;
            if i < init.len() {
                assert(init[i].id == id);
            }
        }
        if last.id == id {
            assert(new[new.len() - 1].id == id);
            if !has_call(before, id) {
                assert(after[after.len() - 1].id == id);
            }
        }
        if has_call(before, id) {
            let i = choose|i: int| 0 <= i < before.len() && #[trigger] before[i].id == id;
            assert(after[i].id == id);
        }
        if has_call(after, id) {
            let i = choose|i: int| 0 <= i < after.len() && #[trigger] after[i].id == id;
            if i < before.len() {
                assert(before[i].id == id);
            }
        }
    }
}

/// Whether no two calls have the same id.
pub open spec fn distinct_ids(calls: Seq<CallModel>) -> bool {
    forall|i: int, j: int|
        #![trigger calls[i], calls[j]]
        0 <= i < j < calls.len() ==> calls[i].id != calls[j].id
}

/// Merging calls keeps the earlier calls in front, and an id is repeated afterwards exactly where one
/// was repeated among the earlier calls.
pub proof fn law_calls_distinct(known: Seq<CallModel>, new: Seq<CallModel>)
    ensures
        known.is_prefix_of(with_new_calls(known, new)),
        distinct_ids(known) <==> distinct_ids(with_new_calls(known, new)),
    decreases new.len(),
{
    lemma_new_calls_not_fewer(known, new);
    if new.len() > 0 {
        law_calls_distinct(known, new.drop_last());
        let before = with_new_calls(known, new.drop_last());
        let after = with_new_calls(known, new);
        if distinct_ids(after) {
            assert forall|i: int, j: int|
                #![trigger before[i], before[j]]
                0 <= i < j < before.len() implies before[i].id != before[j].id by {
                assert(after[i] == before[i] && after[j] == before[j]);
            }
        }
        if distinct_ids(known) && !has_call(before, new.last().id) {
            assert forall|i: int, j: int|
                #![trigger after[i], after[j]]
                0 <= i < j < after.len() implies after[i].id != after[j].id by {
                assert(after[i] == before[i]);
                if j < before.len() {
                    assert(after[j] == before[j]);
                } else {
                    assert(before[i].id != new.last().id);
                }
            }
        }
    }
}

proof fn lemma_pair_holds(first: MessageModel, second: MessageModel)
    requires
        is_assistant(first),
        is_assistant(second),
    ensures
        holds(merged_pair(first, second), first),
        holds(merged_pair(first, second), second),
{
    let merged = merged_pair(first, second);
    let a = content_text(first.content);
    let b = content_text(second.content);
    let text = content_text(merged.content);
    lemma_contains_self(a);
    lemma_contains_self(b);
    if b.len() == 0 {
        assert(text.subrange(0, 0) =~= b);
        assert(occurs_at(text, b, 0));
    } else {
        lemma_contains_concat(a, "\n"@, b, a);
        lemma_contains_concat(a, "\n"@, b, b);
    }
    if first.tool_calls is Some && second.tool_calls is Some {
        assert forall|id: Seq<char>|
            #![trigger asks_for(merged, id)]
            asks_for(merged, id) == (asks_for(first, id) || asks_for(second, id)) by {
            law_call_ids(first.tool_calls->0, second.tool_calls->0, id);
        }
    }
}

/// Merging assistant messages loses no text and no tool call: each message is held by one that
/// comes out.
pub proof fn law_assistants_hold(messages: Seq<MessageModel>, i: int)
    requires
        0 <= i < messages.len(),
    ensures
        held(merged_assistants(messages), messages[i]),
    decreases messages.len(),
{
    let init = messages.drop_last();
    let next = messages.last();
    let before = merged_assistants(init);
    let after = merged_assistants(messages);
    lemma_open_assistant(before);
    let merges = open_assistant(before) is Some && is_assistant(next);
    let k = open_assistant(before)->0;
    if merges {
        lemma_pair_holds(before[k], next);
    }
    if i < init.len() {
        law_assistants_hold(init, i);
        let j = choose|j: int| 0 <= j < before.len() && holds(#[trigger] before[j], init[i]);
        if merges && j == k {
            lemma_holds_trans(after[k], before[k], messages[i]);
        }
        assert(holds(after[j], messages[i]));
    } else if merges {
        assert(holds(after[k], messages[i]));
    } else {
        lemma_holds_self(next);
        assert(holds(after[after.len() - 1], messages[i]));
    }
}

proof fn lemma_joined_contains(pieces: Seq<Seq<char>>, separator: Seq<char>, i: int)
    requires
        0 <= i < pieces.len(),
    ensures
        contains_text(joined(pieces, separator), pieces[i]),
    decreases pieces.len(),
{
    lemma_contains_self(pieces[i]);
    if pieces.len() > 1 {
        let init = pieces.drop_last();
        if i < init.len() {
            lemma_joined_contains(init, separator, i);
        }
        lemma_contains_concat(joined(init, separator), separator, pieces.last(), pieces[i]);
    }
}

proof fn lemma_runs_hold(messages: Seq<MessageModel>, i: int)
    requires
        0 <= i < messages.len(),
    ensures
        held(merged_runs(messages), messages[i]),
    decreases messages.len(),
{
    let n: int = if plain_user(messages[0]) {
        plain_run(messages) as int
    } else {
        1
    };
    lemma_plain_run_bounds(messages);
    let out = merged_runs(messages);
    let rest = merged_runs(messages.skip(n));
    if i >= n {
        lemma_runs_hold(messages.skip(n), i - n);
        let j = choose|j: int|
            0 <= j < rest.len() && holds(#[trigger] rest[j], messages.skip(n)[i - n]);
        assert(out[j + 1] == rest[j]);
        assert(holds(out[j + 1], messages[i]));
    } else if plain_user(messages[0]) {
        let texts = messages.take(n).map_values(|m: MessageModel| content_text(m.content));
        lemma_joined_contains(texts, "\n\n"@, i);
        assert(texts[i] == content_text(messages[i].content));
        assert(plain_user(messages[i]));
        assert(holds(out[0], messages[i]));
    } else {
        lemma_holds_self(messages[0]);
        assert(holds(out[0], messages[i]));
    }
}

/// Merging user messages loses no text: each message is held by one that comes out.
pub proof fn law_users_hold(messages: Seq<MessageModel>, i: int)
    requires
        0 <= i < messages.len(),
    ensures
        held(merged_users(messages), messages[i]),
{
    if messages.len() <= 1 {
        lemma_holds_self(messages[i]);
        assert(holds(merged_users(messages)[i], messages[i]));
    } else {
        lemma_runs_hold(messages, i);
    }
}

/// Sanitization loses nothing but thinking-only messages: the text and, for an assistant message,
/// the tool calls of every other message are held by a message of the same role that comes out.
pub proof fn law_nothing_lost(messages: Seq<MessageModel>, i: int)
    requires
        0 <= i < messages.len(),
        !thinking_only(messages[i]),
    ensures
        held(sanitized(messages), messages[i]),
{
    let keep = |m: MessageModel| !thinking_only(m);
    let kept = without_thinking_only(messages);
    let history = merged_history(kept);
    let out = sanitized(messages);
    assert(keep(messages[i]));
    messages.lemma_filter_contains(keep, i);
    let j = choose|j: int| 0 <= j < kept.len() && kept[j] == messages[i];
    lemma_last_user(kept);
    assert(held(history, kept[j])) by {
        lemma_holds_self(kept[j]);
        if let Some(k) = last_user(kept) {
            let head = merged_users(kept.take(k));
            if j < k {
                law_users_hold(kept.take(k), j);
                let a = choose|a: int|
                    0 <= a < head.len() && holds(#[trigger] head[a], kept.take(k)[j]);
                assert(history[a] == head[a]);
            } else {
                assert(history[head.len() + j - k] == kept[j]);
            }
        } else {
            assert(history[j] == kept[j]);
        }
    }
    let a = choose|a: int| 0 <= a < history.len() && holds(#[trigger] history[a], kept[j]);
    law_assistants_hold(history, a);
    let b = choose|b: int| 0 <= b < out.len() && holds(#[trigger] out[b], history[a]);
    lemma_holds_trans(out[b], history[a], kept[j]);
}


/// Stripping leaves nothing but ASCII characters, and it leaves exactly the ASCII texts unchanged; so
/// stripping a second time changes nothing.
pub proof fn law_strip_non_ascii(text: Seq<char>)
    ensures
        ({
            let stripped = text.filter(|c: char| is_ascii_char(c));
            &&& forall|i: int| 0 <= i < stripped.len() ==> is_ascii_char(#[trigger] stripped[i])
            &&& stripped.filter(|c: char| is_ascii_char(c)) == stripped
        }),
        text.filter(|c: char| is_ascii_char(c)) == text <==> forall|i: int|
            0 <= i < text.len() ==> is_ascii_char(#[trigger] text[i]),
{
    let keep = |c: char| is_ascii_char(c);
    let stripped = text.filter(keep);
    assert forall|i: int| 0 <= i < stripped.len() implies is_ascii_char(#[trigger] stripped[i]) by {
        text.lemma_filter_pred(keep, i);
    }
    lemma_filter_keeps_all(stripped, keep);
    if forall|i: int| 0 <= i < text.len() ==> is_ascii_char(#[trigger] text[i]) {
        lemma_filter_keeps_all(text, keep);
    }
}

} // verus!
