//! Reading the replies of DuckDuckGo.

use vstd::prelude::*;
use vstd::string::*;

use crate::json::{array_member, text_member, text_member_or_empty, Json};
use crate::protocol::{ResultModel, SearchResult};
use crate::text::{trim, trimmed};

verus! {

/// Whether `s` is a tag: an opening angle bracket, at least one character, and the first closing
/// angle bracket.
pub open spec fn is_tag(s: Seq<char>) -> bool {
    &&& s.len() >= 3
    &&& s[0] == '<'
    &&& s.last() == '>'
    &&& forall|i: int| 0 < i < s.len() - 1 ==> #[trigger] s[i] != '>'
}

/// The length of the tag that `s` starts with.
pub open spec fn leading_tag(s: Seq<char>) -> Option<int> {
    if exists|n: int| 0 < n <= s.len() && is_tag(#[trigger] s.take(n)) {
        Some(choose|n: int| 0 < n <= s.len() && is_tag(#[trigger] s.take(n)))
    } else {
        None
    }
}

/// `s` without its tags, which are found from left to right.
pub open spec fn without_tags(s: Seq<char>) -> Seq<char>
    decreases s.len(),
{
    if s.len() == 0 {
        s
    } else {
        match leading_tag(s) {
            Some(n) => without_tags(s.skip(n)),
            None => seq![s[0]] + without_tags(s.skip(1)),
        }
    }
}

/// Trusted: `regex::Regex::new` compiles the pattern of a tag, and `regex::Regex::replace_all`
/// replaces all its leftmost, non-overlapping matches by the replacement. The class `[^>]` matches
/// every character but `>`, line ends too, so the longest run of it that a closing bracket follows
/// ends at the first closing bracket. With an empty replacement the matches are removed.
#[verifier::external_body]
fn replace_all(pattern: &str, text: &str, replacement: &str) -> (out: String)
    requires
        pattern@ == "<[^>]+>"@,
        replacement@ == ""@,
    ensures
        out@ == without_tags(text@),
{
    regex::Regex::new(pattern).unwrap().replace_all(text, replacement).into_owned()
}

/// The title that a result's markup shows.
pub open spec fn title_of(markup: Seq<char>) -> Seq<char> {
    trimmed(without_tags(markup))
}

/// The title of a result: its markup without tags and without white space at the ends.
pub fn extract_ddg_title_from_json(text: &str) -> (title: String)
    ensures
        title@ == title_of(text@),
{
    let cleaned = replace_all("<[^>]+>", text, "");
    trim(cleaned.as_str()).to_owned()
}

/// The address of a result, as it is given.
pub fn extract_ddg_url_from_json(url: &str) -> (out: String)
    ensures
        out@ == url@,
{
    url.to_owned()
}

/// Whether one of `results` has the given address.
pub open spec fn url_seen(results: Seq<ResultModel>, url: Seq<char>) -> bool {
    exists|i: int| 0 <= i < results.len() && #[trigger] results[i].url == url
}

/// Whether one of `results` has the given address.
pub fn seen_url(results: &[SearchResult], url: &str) -> (seen: bool)
    ensures
        seen == url_seen(results.deep_view(), url@),
{
    let ghost model = results.deep_view();
    let mut i: usize = 0;
    while i < results.len()
        invariant
            i <= results.len(),
            model == results.deep_view(),
            forall|j: int| 0 <= j < i ==> (#[trigger] model[j]).url != url@,
        decreases results.len() - i,
    {
        assert(model[i as int] == results[i as int].deep_view());
        if *results[i].url.as_str() == *url {
            assert(model[i as int].url == url@);
            return true;
        }
        i = i + 1;
    }
    false
}

/// The result that a reply's abstract gives: it needs a heading, a text and an address.
pub open spec fn abstract_result(json: Json) -> Option<ResultModel> {
    match (text_member(json, "AbstractText"@), text_member(json, "AbstractURL"@)) {
        (Some(text), Some(url)) if text_member_or_empty(json, "Heading"@).len() > 0 => Some(
            ResultModel { title: text_member_or_empty(json, "Heading"@), url, snippet: text },
        ),
        _ => None,
    }
}

/// The result that a topic gives: it needs an address and a title.
pub open spec fn topic_result(topic: Json) -> Option<ResultModel> {
    match text_member(topic, "FirstURL"@) {
        Some(url) => {
            let title = title_of(text_member_or_empty(topic, "Result"@));
            if title.len() > 0 && url.len() > 0 {
                Some(ResultModel { title, url, snippet: text_member_or_empty(topic, "Text"@) })
            } else {
                None
            }
        },
        None => None,
    }
}

/// `results` with the result of one more topic, unless its address was seen before.
pub open spec fn with_topic(results: Seq<ResultModel>, topic: Json) -> Seq<ResultModel> {
    match topic_result(topic) {
        Some(result) if !url_seen(results, result.url) => results.push(result),
        _ => results,
    }
}

/// `results` with the results of `topics`, in order, up to the topic after which there are at least
/// `limit` results.
pub open spec fn with_topics(results: Seq<ResultModel>, topics: Seq<Json>, limit: nat) -> Seq<
    ResultModel,
>
    decreases topics.len(),
{
    if topics.len() == 0 {
        results
    } else {
        let next = with_topic(results, topics[0]);
        if next.len() >= limit {
            next
        } else {
            with_topics(next, topics.skip(1), limit)
        }
    }
}

/// `results` with the results of the topics under the given key, where there are any.
pub open spec fn with_topic_list(
    results: Seq<ResultModel>,
    json: Json,
    key: Seq<char>,
    limit: nat,
) -> Seq<ResultModel> {
    match array_member(json, key) {
        Some(topics) => with_topics(results, topics, limit),
        None => results,
    }
}

/// The result of the abstract, if there is one.
pub open spec fn abstract_results(json: Json) -> Seq<ResultModel> {
    match abstract_result(json) {
        Some(result) => seq![result],
        None => Seq::empty(),
    }
}

/// The results of a reply: its abstract, then its related topics, then its results.
pub open spec fn ddg_results(json: Json, limit: nat) -> Seq<ResultModel> {
    with_topic_list(
        with_topic_list(abstract_results(json), json, "RelatedTopics"@, limit),
        json,
        "Results"@,
        limit,
    )
}

/// Adds the result of one more topic, unless its address was seen before.
fn add_topic(results: &mut Vec<SearchResult>, topic: &Json)
    ensures
        final(results).deep_view() == with_topic(old(results).deep_view(), *topic),
{
    let ghost before = results.deep_view();
    if let Some(first_url) = topic.get_text("FirstURL") {
        let title = extract_ddg_title_from_json(topic.get_text_or_empty("Result"));
        let url = extract_ddg_url_from_json(first_url);
        let snippet = topic.get_text_or_empty("Text").to_owned();
        if !title.as_str().is_empty() && !url.as_str().is_empty() && !seen_url(
            results.as_slice(),
            url.as_str(),
        ) {
            results.push(SearchResult { title, url, snippet });
            assert(results.deep_view() =~= before.push(topic_result(*topic)->0));
        }
    }
}

/// Adds the results of `topics`, up to the topic after which there are at least `max_results`
/// results.
fn add_topics(results: &mut Vec<SearchResult>, topics: &Vec<Json>, max_results: usize)
    ensures
        final(results).deep_view() == with_topics(
            old(results).deep_view(),
            topics@,
            max_results as nat,
        ),
{
    let ghost start = results.deep_view();
    let mut i: usize = 0;
    assert(topics@.skip(0) =~= topics@);
    while i < topics.len()
        invariant
            i <= topics.len(),
            start == old(results).deep_view(),
            with_topics(start, topics@, max_results as nat) == with_topics(
                results.deep_view(),
                topics@.skip(i as int),
                max_results as nat,
            ),
        decreases topics.len() - i,
    {
        assert(topics@.skip(i as int).skip(1) =~= topics@.skip(i + 1));
        add_topic(results, &topics[i]);
        if results.len() >= max_results {
            return;
        }
        i = i + 1;
    }
}

/// Reads the results of a reply: its abstract, then its related topics, then its results.
pub fn parse_ddg_results(json: &Json, max_results: usize) -> (results: Vec<SearchResult>)
    ensures
        results.deep_view() == ddg_results(*json, max_results as nat),
{
    let mut results: Vec<SearchResult> = Vec::new();
    let title = json.get_text_or_empty("Heading");
    if !title.is_empty() {
        if let Some(text) = json.get_text("AbstractText") {
            if let Some(url) = json.get_text("AbstractURL") {
                results.push(
                    SearchResult {
                        title: title.to_owned(),
                        url: url.to_owned(),
                        snippet: text.to_owned(),
                    },
                );
            }
        }
    }
    assert(results.deep_view() =~= abstract_results(*json));
    if let Some(topics) = json.get_array("RelatedTopics") {
        add_topics(&mut results, topics, max_results);
    }
    if let Some(topics) = json.get_array("Results") {
        add_topics(&mut results, topics, max_results);
    }
    results
}


/// A text starts with at most one tag.
pub proof fn law_one_leading_tag(s: Seq<char>, n: int)
    requires
        0 < n <= s.len(),
        is_tag(s.take(n)),
    ensures
        leading_tag(s) == Some(n),
{
    let m = leading_tag(s)->0;
    assert(s.take(n).last() == s[n - 1]);
    assert(s.take(m).last() == s[m - 1]);
    if m < n {
        assert(s.take(n)[m - 1] == s[m - 1]);
    } else if n < m {
        assert(s.take(m)[n - 1] == s[n - 1]);
    }
}

pub proof fn lemma_leading_tag(s: Seq<char>)
    ensures
        match leading_tag(s) {
            Some(n) => 3 <= n <= s.len() && is_tag(s.take(n)),
            None => s.len() > 0 && s[0] == '<' && !(s.len() > 1 && s[1] == '>') ==> !s.contains('>'),
        },
{
    if leading_tag(s) is None && s.len() > 1 && s[0] == '<' && s[1] != '>' && s.contains('>') {
        let j = lemma_first_index(s, '>');
        let t = s.take(j + 1);
        assert forall|i: int| 0 < i < t.len() - 1 implies #[trigger] t[i] != '>' by {
            assert(t[i] == s[i]);
        }
        assert(is_tag(s.take(j + 1)));
    }
    if s.len() == 1 && s[0] == '<' {
        assert(!s.contains('>'));
    }
}

proof fn lemma_first_index(s: Seq<char>, c: char) -> (first: int)
    requires
        s.contains(c),
    ensures
        0 <= first < s.len(),
        s[first] == c,
        forall|i: int| 0 <= i < first ==> s[i] != c,
    decreases s.len(),
{
    if s[0] == c {
        0
    } else {
        let at = choose|i: int| 0 <= i < s.len() && s[i] == c;
        assert(s.skip(1)[at - 1] == c);
        let rest = lemma_first_index(s.skip(1), c);
        assert forall|i: int| 0 <= i < rest + 1 implies s[i] != c by {
            if i > 0 {
                assert(s.skip(1)[i - 1] == s[i]);
            }
        }
        rest + 1
    }
}

proof fn lemma_tags_subset(s: Seq<char>, c: char)
    requires
        without_tags(s).contains(c),
    ensures
        s.contains(c),
    decreases s.len(),
{
    if s.len() > 0 {
        lemma_leading_tag(s);
        let n: int = match leading_tag(s) {
            Some(n) => n,
            None => 1,
        };
        let out = without_tags(s);
        let rest = without_tags(s.skip(n));
        let i = choose|i: int| 0 <= i < out.len() && out[i] == c;
        if leading_tag(s) is None && i == 0 {
            assert(s[0] == c);
        } else {
            let j: int = if leading_tag(s) is None {
                i - 1
            } else {
                i
            };
            assert(rest[j] == c);
            lemma_tags_subset(s.skip(n), c);
            let k = choose|k: int| 0 <= k < s.skip(n).len() && s.skip(n)[k] == c;
            assert(s[n + k] == c);
        }
    }
}

/// No tag is left once the tags are removed.
pub proof fn law_no_tags_left(s: Seq<char>, i: int, j: int)
    requires
        0 <= i <= j <= without_tags(s).len(),
    ensures
        !is_tag(without_tags(s).subrange(i, j)),
    decreases s.len(),
{
    if s.len() > 0 {
        lemma_leading_tag(s);
        let out = without_tags(s);
        match leading_tag(s) {
            Some(n) => {
                law_no_tags_left(s.skip(n), i, j);
            },
            None => {
                let rest = without_tags(s.skip(1));
                if i > 0 {
                    law_no_tags_left(s.skip(1), i - 1, j - 1);
                    assert(out.subrange(i, j) =~= rest.subrange(i - 1, j - 1));
                } else if is_tag(out.subrange(0, j)) {
                    let t = out.subrange(0, j);
                    assert(t[0] == s[0]);
                    if s.len() > 1 && s[1] == '>' {
                        let u = s.skip(1);
                        assert(u[0] == '>');
                        lemma_leading_tag(u);
                        if let Some(n) = leading_tag(u) {
                            assert(u.take(n)[0] == '<');
                        }
                        assert(t[1] == rest[0]);
                        assert(rest[0] == '>');
                    } else {
                        assert(rest[j - 2] == t.last());
                        assert(rest.contains('>'));
                        lemma_tags_subset(s.skip(1), '>');
                        let k = choose|k: int| 0 <= k < s.skip(1).len() && s.skip(1)[k] == '>';
                        assert(s[k + 1] == '>');
                    }
                }
            },
        }
    }
}

/// A text loses nothing exactly where no piece of it is a tag: an empty pair of brackets and an
/// unclosed bracket stay.
pub proof fn law_plain_title_kept(s: Seq<char>)
    ensures
        without_tags(s) == s <==> forall|i: int, j: int|
            0 <= i <= j <= s.len() ==> !is_tag(#[trigger] s.subrange(i, j)),
{
    if without_tags(s) == s {
        assert forall|i: int, j: int| 0 <= i <= j <= s.len() implies !is_tag(
            #[trigger] s.subrange(i, j),
        ) by {
            law_no_tags_left(s, i, j);
        }
    } else if forall|i: int, j: int| 0 <= i <= j <= s.len() ==> !is_tag(#[trigger] s.subrange(i, j)) {
        lemma_no_tag_kept(s);
    }
}

proof fn lemma_no_tag_kept(s: Seq<char>)
    requires
        forall|i: int, j: int| 0 <= i <= j <= s.len() ==> !is_tag(#[trigger] s.subrange(i, j)),
    ensures
        without_tags(s) == s,
    decreases s.len(),
{
    if s.len() > 0 {
        lemma_leading_tag(s);
        if let Some(n) = leading_tag(s) {
            assert(s.take(n) =~= s.subrange(0, n));
        }
        let rest = s.skip(1);
        assert forall|i: int, j: int| 0 <= i <= j <= rest.len() implies !is_tag(
            #[trigger] rest.subrange(i, j),
        ) by {
            assert(rest.subrange(i, j) =~= s.subrange(i + 1, j + 1));
        }
        lemma_no_tag_kept(rest);
        assert(seq![s[0]] + rest =~= s);
    }
}

/// Whether no two results have the same address.
pub open spec fn distinct_urls(results: Seq<ResultModel>) -> bool {
    forall|i: int, j: int|
        #![trigger results[i], results[j]]
        0 <= i < j < results.len() ==> results[i].url != results[j].url
}

/// Whether every result has a title, and every result from position `from` on an address too.
pub open spec fn complete_from(results: Seq<ResultModel>, from: int) -> bool {
    forall|i: int|
        0 <= i < results.len() ==> (#[trigger] results[i]).title.len() > 0 && (i >= from
            ==> results[i].url.len() > 0)
}

proof fn lemma_with_topics(results: Seq<ResultModel>, topics: Seq<Json>, limit: nat)
    ensures
        ({
            let out = with_topics(results, topics, limit);
            &&& results.is_prefix_of(out)
            &&& out.len() <= limit || out.len() <= results.len() + 1
            &&& distinct_urls(results) ==> distinct_urls(out)
            &&& complete_from(results, 1) ==> complete_from(out, 1)
            &&& complete_from(results, 0) ==> complete_from(out, 0)
        }),
    decreases topics.len(),
{
    if topics.len() > 0 {
        let next = with_topic(results, topics[0]);
        if distinct_urls(results) {
            assert forall|i: int, j: int|
                #![trigger next[i], next[j]]
                0 <= i < j < next.len() implies next[i].url != next[j].url by {
                assert(next[i] == results[i]);
                if j < results.len() {
                    assert(next[j] == results[j]);
                } else {
                    assert(results[i].url != next[j].url);
                }
            }
        }
        if next.len() < limit {
            lemma_with_topics(next, topics.skip(1), limit);
        }
    }
}

proof fn lemma_with_topic_list(results: Seq<ResultModel>, json: Json, key: Seq<char>, limit: nat)
    ensures
        ({
            let out = with_topic_list(results, json, key, limit);
            &&& results.is_prefix_of(out)
            &&& out.len() <= limit || out.len() <= results.len() + 1
            &&& distinct_urls(results) ==> distinct_urls(out)
            &&& complete_from(results, 1) ==> complete_from(out, 1)
            &&& complete_from(results, 0) ==> complete_from(out, 0)
        }),
{
    if let Some(topics) = array_member(json, key) {
        lemma_with_topics(results, topics, limit);
    }
}

/// The results of a reply have distinct addresses; all have a title, and all but that of the
/// abstract, which comes first, have an address.
pub proof fn law_ddg_results_sound(json: Json, limit: nat)
    ensures
        abstract_results(json).is_prefix_of(ddg_results(json, limit)),
        distinct_urls(ddg_results(json, limit)),
        complete_from(ddg_results(json, limit), abstract_results(json).len() as int),
{
    let first = abstract_results(json);
    let second = with_topic_list(first, json, "RelatedTopics"@, limit);
    lemma_with_topic_list(first, json, "RelatedTopics"@, limit);
    lemma_with_topic_list(second, json, "Results"@, limit);
}

/// Each list of topics stops once the limit is reached, but its first topic is looked at in any
/// case. So there can be one result beyond the limit, and for a limit below two up to three
/// results; where the list of results is missing or empty, only a limit below two can be passed,
/// by at most two results in all.
pub proof fn law_ddg_results_limit(json: Json, limit: nat)
    ensures
        ddg_results(json, limit).len() <= limit + 1 || ddg_results(json, limit).len() <= 3,
        !(array_member(json, "Results"@) matches Some(topics) && topics.len() > 0) ==> ddg_results(
            json,
            limit,
        ).len() <= limit || ddg_results(json, limit).len() <= 2,
{
    let first = abstract_results(json);
    let second = with_topic_list(first, json, "RelatedTopics"@, limit);
    lemma_with_topic_list(first, json, "RelatedTopics"@, limit);
    lemma_with_topic_list(second, json, "Results"@, limit);
}

} // verus!
