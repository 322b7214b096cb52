//! Laws of web search.

use vstd::prelude::*;

use crate::config::{provider_step, ConfiguredProvider, ProviderModel};
use crate::ddg::{is_tag, law_no_tags_left, law_plain_title_kept, title_of, without_tags};
use crate::protocol::{ErrorModel, IoModel, ResultModel, SearchEvent, StepModel};
use crate::providers::SearchProvider;
use crate::text::{joined, trimmed, without_leading_space, without_trailing_space};
use crate::web_search::{
    error_answer, rendered, result_line, result_lines, tool_step, valid_result,
    valid_results, SearchCall, ToolStepModel,
};

verus! {

/// A search begins with a request, if with any outside work at all; it reads one body once the
/// request is answered, as JSON only where the response was a success; and then it ends. A failure
/// or a response without success never leads to results.
pub proof fn law_search_ends(
    provider: ProviderModel,
    query: Seq<char>,
    max_results: usize,
    event: SearchEvent,
)
    ensures
        ({
            let step = provider_step(provider, query, max_results, event);
            match event {
                SearchEvent::Start => step matches StepModel::Perform(action) ==> action is Send,
                SearchEvent::Response { success, .. } => match step {
                    StepModel::Perform(action) => action == if success {
                        IoModel::ReadJson
                    } else {
                        IoModel::ReadBody
                    },
                    StepModel::Finish(outcome) => outcome is Err,
                },
                SearchEvent::Failed(_) | SearchEvent::ErrorBody { .. } => {
                    step matches StepModel::Finish(outcome) && outcome is Err
                },
                SearchEvent::Reply(_) => step is Finish,
            }
        }),
{
}

/// The error of a call that fails for the given reason, unless it names no query.
pub open spec fn error_of(call: SearchCall, reason: ErrorModel) -> ErrorModel {
    match call.query {
        Ok(_) => reason,
        Err(message) => ErrorModel::InvalidCall(message@),
    }
}

/// A switched-off provider never asks for outside work: every call that names a query is answered
/// with the same error, and every other call with what is wrong with it.
pub proof fn law_disabled_is_silent(
    provider: ConfiguredProvider,
    call: SearchCall,
    event: SearchEvent,
)
    requires
        provider.deep_view() == ProviderModel::Disabled,
    ensures
        tool_step(Some(provider), call, event) == ToolStepModel::Finish(
            error_answer(call.call_id@, error_of(call, ErrorModel::Disabled)),
        ),
{
}

/// A tool without a provider, such as a copy of another tool, never asks for outside work: every
/// call that names a query is answered with the same error, and every other call with what is wrong
/// with it.
pub proof fn law_no_provider_is_silent<P: SearchProvider>(call: SearchCall, event: SearchEvent)
    ensures
        tool_step(None::<P>, call, event) == ToolStepModel::Finish(
            error_answer(call.call_id@, error_of(call, ErrorModel::NoProvider)),
        ),
{
}

proof fn lemma_joined_longer(pieces: Seq<Seq<char>>, separator: Seq<char>)
    requires
        pieces.len() > 0,
    ensures
        joined(pieces, separator).len() >= pieces.last().len(),
{
}

proof fn lemma_rendered_not_empty(results: Seq<ResultModel>)
    requires
        results.len() > 0,
    ensures
        rendered(results).len() > 0,
{
    let lines = result_lines(results);
    let last = lines.last();
    assert(last == result_line(results.len(), results.last()));
    reveal_strlit(")");
    assert(last.len() > 0);
    lemma_joined_longer(lines, "\n"@);
}

/// Every answer carries the id of its call. It either shows results or reports an error, never
/// both and never neither: the output is empty exactly where there is an error.
pub proof fn law_answer_shape<P: SearchProvider>(
    provider: Option<P>,
    call: SearchCall,
    event: SearchEvent,
)
    ensures
        tool_step(provider, call, event) matches ToolStepModel::Finish(answer) ==> {
            &&& answer.call_id == call.call_id@
            &&& answer.error is Some <==> answer.output.len() == 0
        },
{
    if let (Ok(query), Some(provider)) = (call.query, provider) {
        if let StepModel::Finish(Ok(results)) = provider.next_step(
            query@,
            crate::web_search::wanted_results(call),
            event,
        ) {
            if valid_results(results).len() > 0 {
                lemma_rendered_not_empty(valid_results(results));
            }
        }
    }
}

/// Every result that an answer shows has a title and an address.
pub proof fn law_shown_results_valid(results: Seq<ResultModel>)
    ensures
        forall|i: int|
            0 <= i < valid_results(results).len() ==> valid_result(
                #[trigger] valid_results(results)[i],
            ),
{
    let keep = |result: ResultModel| valid_result(result);
    assert forall|i: int| 0 <= i < valid_results(results).len() implies valid_result(
        #[trigger] valid_results(results)[i],
    ) by {
        results.lemma_filter_pred(keep, i);
    }
}

proof fn lemma_trim_is_subrange(s: Seq<char>) -> (range: (int, int))
    ensures
        0 <= range.0 <= range.1 <= s.len(),
        trimmed(s) == s.subrange(range.0, range.1),
{
    let from = lemma_leading_is_suffix(s);
    let rest = without_leading_space(s);
    let len = lemma_trailing_is_prefix(rest);
    assert(trimmed(s) =~= s.subrange(from, from + len));
    (from, from + len)
}

proof fn lemma_leading_is_suffix(s: Seq<char>) -> (from: int)
    ensures
        0 <= from <= s.len(),
        without_leading_space(s) == s.skip(from),
    decreases s.len(),
{
    if s.len() > 0 && crate::text::is_white_space(s[0]) {
        let from = lemma_leading_is_suffix(s.skip(1));
        assert(s.skip(1).skip(from) =~= s.skip(from + 1));
        from + 1
    } else {
        assert(s.skip(0) =~= s);
        0
    }
}

proof fn lemma_trailing_is_prefix(s: Seq<char>) -> (len: int)
    ensures
        0 <= len <= s.len(),
        without_trailing_space(s) == s.take(len),
    decreases s.len(),
{
    if s.len() > 0 && crate::text::is_white_space(s.last()) {
        let len = lemma_trailing_is_prefix(s.drop_last());
        assert(s.drop_last().take(len) =~= s.take(len));
        len
    } else {
        assert(s.take(s.len() as int) =~= s);
        s.len() as int
    }
}

/// A title holds no tag.
pub proof fn law_title_has_no_tag(markup: Seq<char>, i: int, j: int)
    requires
        0 <= i <= j <= title_of(markup).len(),
    ensures
        !is_tag(title_of(markup).subrange(i, j)),
{
    let clean = without_tags(markup);
    let (from, to) = lemma_trim_is_subrange(clean);
    law_no_tags_left(markup, from + i, from + j);
    assert(title_of(markup).subrange(i, j) =~= clean.subrange(from + i, from + j));
}


proof fn lemma_leading_space_gone(s: Seq<char>)
    ensures
        ({
            let rest = without_leading_space(s);
            rest.len() > 0 ==> !crate::text::is_white_space(rest[0])
        }),
    decreases s.len(),
{
    if s.len() > 0 && crate::text::is_white_space(s[0]) {
        lemma_leading_space_gone(s.skip(1));
    }
}

proof fn lemma_trailing_space_gone(s: Seq<char>)
    ensures
        ({
            let rest = without_trailing_space(s);
            rest.len() > 0 ==> !crate::text::is_white_space(rest.last())
        }),
    decreases s.len(),
{
    if s.len() > 0 && crate::text::is_white_space(s.last()) {
        lemma_trailing_space_gone(s.drop_last());
    }
}

/// Trimming a second time changes nothing.
pub proof fn law_trim_idempotent(s: Seq<char>)
    ensures
        trimmed(trimmed(s)) == trimmed(s),
{
    let rest = without_leading_space(s);
    lemma_leading_space_gone(s);
    lemma_trailing_space_gone(rest);
    let len = lemma_trailing_is_prefix(rest);
    if trimmed(s).len() > 0 {
        assert(trimmed(s)[0] == rest[0]);
    }
}

/// Extracting a title from a title changes nothing.
pub proof fn law_title_idempotent(markup: Seq<char>)
    ensures
        title_of(title_of(markup)) == title_of(markup),
{
    let title = title_of(markup);
    assert forall|i: int, j: int| 0 <= i <= j <= title.len() implies !is_tag(
        #[trigger] title.subrange(i, j),
    ) by {
        law_title_has_no_tag(markup, i, j);
    }
    law_plain_title_kept(title);
    law_trim_idempotent(without_tags(markup));
}

} // verus!
