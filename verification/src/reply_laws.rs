//! What reading a reply means: which members, titles and results are found in it, and which are
//! not.

use vstd::prelude::*;

use crate::ddg::{
    abstract_results, ddg_results, is_tag, law_one_leading_tag, leading_tag, lemma_leading_tag,
    title_of, topic_result, url_seen, with_topic, with_topic_list, with_topics, without_tags,
};
use crate::json::{array_member, entry, member, text_member, text_member_or_empty, Json};
use crate::message_laws::{law_white_space, white_code};
use crate::protocol::ResultModel;
use crate::providers::{
    bing_results, brave_results, capped, google_results, item_result, item_results,
};
use crate::selection::{
    chosen, lemma_chosen_empty, lemma_chosen_members, lemma_chosen_next, lemma_chosen_same,
    lemma_filter_map_chosen,
};
use crate::text::{trimmed, without_leading_space, without_trailing_space};

verus! {

/// Whether entry `i` of a document is the first one with the given key.
pub open spec fn first_entry(json: Json, key: Seq<char>, i: int) -> bool {
    json matches Json::Object(entries) && {
        &&& 0 <= i < entries@.len()
        &&& entries@[i].0@ == key
        &&& forall|j: int| 0 <= j < i ==> (#[trigger] entries@[j]).0@ != key
    }
}

/// Whether a document has no entry with the given key.
pub open spec fn lacks_entry(json: Json, key: Seq<char>) -> bool {
    json matches Json::Object(entries) ==> forall|j: int|
        0 <= j < entries@.len() ==> (#[trigger] entries@[j]).0@ != key
}

proof fn lemma_entry_at(entries: Seq<(String, Json)>, key: Seq<char>, i: int)
    requires
        0 <= i < entries.len(),
        entries[i].0@ == key,
        forall|j: int| 0 <= j < i ==> (#[trigger] entries[j]).0@ != key,
    ensures
        entry(entries, key) == Some(entries[i].1),
    decreases entries.len(),
{
    if i > 0 {
        assert(entries[0].0@ != key);
        let rest = entries.skip(1);
        assert forall|j: int| 0 <= j < i - 1 implies (#[trigger] rest[j]).0@ != key by {
            assert(rest[j] == entries[j + 1]);
        }
        lemma_entry_at(rest, key, i - 1);
    }
}

proof fn lemma_no_entry(entries: Seq<(String, Json)>, key: Seq<char>)
    requires
        forall|j: int| 0 <= j < entries.len() ==> (#[trigger] entries[j]).0@ != key,
    ensures
        entry(entries, key) is None,
    decreases entries.len(),
{
    if entries.len() > 0 {
        assert(entries[0].0@ != key);
        let rest = entries.skip(1);
        assert forall|j: int| 0 <= j < rest.len() implies (#[trigger] rest[j]).0@ != key by {
            assert(rest[j] == entries[j + 1]);
        }
        lemma_no_entry(rest, key);
    }
}

/// A member is the value of the first entry with its key. Its text is there where the value is a
/// text, and its items where it is an array.
pub proof fn law_member(json: Json, key: Seq<char>, i: int)
    requires
        first_entry(json, key, i),
    ensures
        ({
            let value = json->Object_0@[i].1;
            &&& member(json, key) == Some(value)
            &&& match value {
                Json::Text(text) => {
                    &&& text_member(json, key) == Some(text@)
                    &&& text_member_or_empty(json, key) == text@
                    &&& array_member(json, key) is None
                },
                Json::Array(items) => {
                    &&& text_member(json, key) is None
                    &&& text_member_or_empty(json, key).len() == 0
                    &&& array_member(json, key) == Some(items@)
                },
                _ => {
                    &&& text_member(json, key) is None
                    &&& text_member_or_empty(json, key).len() == 0
                    &&& array_member(json, key) is None
                },
            }
        }),
{
    lemma_entry_at(json->Object_0@, key, i);
}

/// Without an entry with the key there is no member, no text and there are no items.
pub proof fn law_no_member(json: Json, key: Seq<char>)
    requires
        lacks_entry(json, key),
    ensures
        member(json, key) is None,
        text_member(json, key) is None,
        text_member_or_empty(json, key).len() == 0,
        array_member(json, key) is None,
{
    if let Json::Object(entries) = json {
        lemma_no_entry(entries@, key);
    }
}

/// Whether a text is white space throughout.
pub open spec fn all_white(s: Seq<char>) -> bool {
    forall|i: int| 0 <= i < s.len() ==> white_code(#[trigger] s[i] as int)
}

/// Trimming takes the white space at both ends away, and nothing else.
pub proof fn law_trim(before: Seq<char>, middle: Seq<char>, after: Seq<char>)
    requires
        all_white(before),
        all_white(after),
        middle.len() > 0 ==> !white_code(middle[0] as int) && !white_code(middle.last() as int),
    ensures
        trimmed(before + middle + after) == middle,
{
    let s = before + middle + after;
    lemma_trim_start(before, middle + after);
    assert(s =~= before + (middle + after));
    if middle.len() > 0 {
        law_white_space(middle[0]);
        assert((middle + after)[0] == middle[0]);
        assert(without_leading_space(middle + after) == middle + after);
        lemma_trim_end(middle, after);
    } else {
        assert(middle + after =~= after);
        lemma_trim_start(after, middle);
        assert(after =~= after + middle);
        assert(without_leading_space(middle) == middle);
        assert(without_trailing_space(middle) == middle);
    }
}

proof fn lemma_trim_start(space: Seq<char>, rest: Seq<char>)
    requires
        all_white(space),
    ensures
        without_leading_space(space + rest) == without_leading_space(rest),
    decreases space.len(),
{
    let s = space + rest;
    if space.len() > 0 {
        law_white_space(space[0]);
        assert(s[0] == space[0]);
        assert(white_code(space[0] as int));
        let tail = space.skip(1);
        assert forall|i: int| 0 <= i < tail.len() implies white_code(#[trigger] tail[i] as int) by {
            assert(tail[i] == space[i + 1]);
        }
        assert(s.skip(1) =~= tail + rest);
        lemma_trim_start(tail, rest);
    } else {
        assert(s =~= rest);
    }
}

proof fn lemma_trim_end(text: Seq<char>, space: Seq<char>)
    requires
        all_white(space),
        text.len() > 0,
        !white_code(text.last() as int),
    ensures
        without_trailing_space(text + space) == text,
    decreases space.len(),
{
    let s = text + space;
    if space.len() > 0 {
        law_white_space(space.last());
        assert(s.last() == space.last());
        assert(white_code(space[space.len() - 1] as int));
        let init = space.drop_last();
        assert forall|i: int| 0 <= i < init.len() implies white_code(#[trigger] init[i] as int) by {
            assert(init[i] == space[i]);
        }
        assert(s.drop_last() =~= text + init);
        lemma_trim_end(text, init);
    } else {
        assert(s =~= text);
        law_white_space(text.last());
    }
}

/// Characters before the first opening angle bracket stay.
pub proof fn law_tags_after_text(text: Seq<char>, rest: Seq<char>)
    requires
        !text.contains('<'),
    ensures
        without_tags(text + rest) == text + without_tags(rest),
    decreases text.len(),
{
    let s = text + rest;
    if text.len() > 0 {
        let tail = text.skip(1);
        assert(text[0] != '<');
        lemma_leading_tag(s);
        if let Some(n) = leading_tag(s) {
            assert(s.take(n)[0] == s[0]);
        }
        if tail.contains('<') {
            let i = choose|i: int| 0 <= i < tail.len() && tail[i] == '<';
            assert(text[i + 1] == '<');
        }
        assert(s.skip(1) =~= tail + rest);
        law_tags_after_text(tail, rest);
        assert(s[0] == text[0]);
        assert(seq![s[0]] + (tail + without_tags(rest)) =~= text + without_tags(rest));
    } else {
        assert(s =~= rest);
        assert(text + without_tags(rest) =~= without_tags(rest));
    }
}

/// A tag goes: an opening angle bracket, at least one character other than a closing one, and a
/// closing one.
pub proof fn law_tag_removed(name: Seq<char>, rest: Seq<char>)
    requires
        name.len() > 0,
        !name.contains('>'),
    ensures
        without_tags(seq!['<'] + name + seq!['>'] + rest) == without_tags(rest),
{
    let s = seq!['<'] + name + seq!['>'] + rest;
    let n: int = name.len() as int + 2;
    let t = s.take(n);
    assert forall|i: int| 0 < i < t.len() - 1 implies #[trigger] t[i] != '>' by {
        assert(t[i] == name[i - 1]);
    }
    assert(t[0] == '<');
    assert(t.last() == '>');
    assert(is_tag(t));
    law_one_leading_tag(s, n);
    assert(s.skip(n) =~= rest);
}

/// An empty pair of angle brackets stays, and so does an opening one with no closing one behind it.
pub proof fn law_no_tag_stays(rest: Seq<char>)
    ensures
        without_tags(seq!['<', '>'] + rest) == seq!['<', '>'] + without_tags(rest),
        !rest.contains('>') ==> without_tags(seq!['<'] + rest) == seq!['<'] + without_tags(rest),
{
    let s = seq!['<', '>'] + rest;
    lemma_leading_tag(s);
    if let Some(n) = leading_tag(s) {
        assert(s.take(n)[1] == s[1]);
    }
    assert(s.skip(1) =~= seq!['>'] + rest);
    law_tags_after_text(seq!['>'], rest);
    assert(seq!['<'] + (seq!['>'] + without_tags(rest)) =~= seq!['<', '>'] + without_tags(rest));
    let u = seq!['<'] + rest;
    lemma_leading_tag(u);
    assert(u.skip(1) =~= rest);
    if let Some(n) = leading_tag(u) {
        assert(u.take(n).last() == u[n - 1]);
        assert(rest[n - 2] == '>');
    }
}

/// A title is what is left of its markup once the tags are gone and white space is trimmed.
pub proof fn law_title(
    markup: Seq<char>,
    before: Seq<char>,
    middle: Seq<char>,
    after: Seq<char>,
)
    requires
        without_tags(markup) == before + middle + after,
        all_white(before),
        all_white(after),
        middle.len() > 0 ==> !white_code(middle[0] as int) && !white_code(middle.last() as int),
    ensures
        title_of(markup) == middle,
{
    law_trim(before, middle, after);
}

/// Whether a topic has an address and a title, neither of them empty.
pub open spec fn usable(topic: Json) -> bool {
    &&& text_member(topic, "FirstURL"@) is Some
    &&& text_member(topic, "FirstURL"@)->0.len() > 0
    &&& title_of(text_member_or_empty(topic, "Result"@)).len() > 0
}

/// The address of a topic.
pub open spec fn address(topic: Json) -> Seq<char> {
    text_member(topic, "FirstURL"@)->0
}

/// What a topic with an address and a title shows.
pub open spec fn shown(topic: Json) -> ResultModel {
    ResultModel {
        title: title_of(text_member_or_empty(topic, "Result"@)),
        url: address(topic),
        snippet: text_member_or_empty(topic, "Text"@),
    }
}

/// Whether a usable topic's address is new: neither among the results before its list, nor that of
/// a usable topic before it.
pub open spec fn fresh_topic(before: Seq<ResultModel>, topics: Seq<Json>, i: int) -> bool {
    &&& usable(topics[i])
    &&& forall|j: int| 0 <= j < before.len() ==> (#[trigger] before[j]).url != address(topics[i])
    &&& forall|j: int|
        0 <= j < i && usable(#[trigger] topics[j]) ==> address(topics[j]) != address(topics[i])
}

/// Whether reading `topics` after the results `before` gives `after`, where exactly the first `n`
/// topics are looked at. The fresh ones are added in order. Reading ends with the list, or with the
/// first topic after which there are `limit` results or more.
pub open spec fn list_read(
    before: Seq<ResultModel>,
    topics: Seq<Json>,
    n: int,
    after: Seq<ResultModel>,
    limit: nat,
) -> bool {
    &&& 0 <= n <= topics.len()
    &&& before.is_prefix_of(after)
    &&& chosen(
        after.skip(before.len() as int),
        n,
        |i: int| fresh_topic(before, topics, i),
        |i: int| shown(topics[i]),
    )
    &&& n < topics.len() ==> n >= 1 && after.len() >= limit
    &&& n >= 2 ==> after.len() - (if fresh_topic(before, topics, n - 1) {
        1int
    } else {
        0int
    }) < limit
}

/// Whether some result has the given address.
pub open spec fn among(results: Seq<ResultModel>, url: Seq<char>) -> bool {
    exists|k: int| 0 <= k < results.len() && (#[trigger] results[k]).url == url
}

/// An address was seen exactly where some result has it.
pub proof fn law_url_seen(results: Seq<ResultModel>, url: Seq<char>)
    ensures
        url_seen(results, url) <==> among(results, url),
{
}

proof fn lemma_topic_seen(
    before: Seq<ResultModel>,
    topics: Seq<Json>,
    i: int,
    current: Seq<ResultModel>,
)
    requires
        0 <= i < topics.len(),
        before.is_prefix_of(current),
        chosen(
            current.skip(before.len() as int),
            i,
            |k: int| fresh_topic(before, topics, k),
            |k: int| shown(topics[k]),
        ),
        forall|j: int|
            0 <= j < i && usable(#[trigger] topics[j]) ==> among(current, address(topics[j])),
        usable(topics[i]),
    ensures
        url_seen(current, address(topics[i])) <==> !fresh_topic(before, topics, i),
{
    let url = address(topics[i]);
    let keep = |k: int| fresh_topic(before, topics, k);
    let at = |k: int| shown(topics[k]);
    let added = current.skip(before.len() as int);
    if url_seen(current, url) {
        let k = choose|k: int| 0 <= k < current.len() && #[trigger] current[k].url == url;
        if k < before.len() {
            assert(before[k].url == url);
        } else {
            lemma_chosen_members(added, i, keep, at);
            assert(added[k - before.len()] == current[k]);
            let j = choose|j: int|
                0 <= j < i && #[trigger] keep(j) && at(j) == added[k - before.len()];
            assert(usable(topics[j]) && address(topics[j]) == url);
        }
    } else if !fresh_topic(before, topics, i) {
        if exists|j: int| 0 <= j < before.len() && (#[trigger] before[j]).url == url {
            let j = choose|j: int| 0 <= j < before.len() && (#[trigger] before[j]).url == url;
            assert(current[j] == before[j]);
            assert(url_seen(current, url));
        } else {
            let j = choose|j: int|
                0 <= j < i && usable(#[trigger] topics[j]) && address(topics[j]) == url;
            assert(among(current, address(topics[j])));
            let k = choose|k: int| 0 <= k < current.len() && (#[trigger] current[k]).url == url;
            assert(current[k].url == url);
        }
    }
}

proof fn lemma_topics_read(
    before: Seq<ResultModel>,
    topics: Seq<Json>,
    limit: nat,
    i: int,
    current: Seq<ResultModel>,
) -> (n: int)
    requires
        0 <= i <= topics.len(),
        before.is_prefix_of(current),
        chosen(
            current.skip(before.len() as int),
            i,
            |k: int| fresh_topic(before, topics, k),
            |k: int| shown(topics[k]),
        ),
        forall|j: int|
            0 <= j < i && usable(#[trigger] topics[j]) ==> among(current, address(topics[j])),
        i > 0 ==> current.len() < limit,
    ensures
        list_read(before, topics, n, with_topics(current, topics.skip(i), limit), limit),
        forall|j: int|
            0 <= j < n && usable(#[trigger] topics[j]) ==> among(
                with_topics(current, topics.skip(i), limit),
                address(topics[j]),
            ),
    decreases topics.len() - i,
{
    let keep = |k: int| fresh_topic(before, topics, k);
    let at = |k: int| shown(topics[k]);
    let added = current.skip(before.len() as int);
    if i == topics.len() {
        i
    } else {
        let next = with_topic(current, topics[i]);
        assert(topics.skip(i)[0] == topics[i]);
        assert(topics.skip(i).skip(1) =~= topics.skip(i + 1));
        if usable(topics[i]) {
            lemma_topic_seen(before, topics, i, current);
            assert(topic_result(topics[i]) == Some(shown(topics[i])));
        }
        lemma_chosen_next(added, i, keep, at);
        if keep(i) {
            assert(next == current.push(at(i)));
            assert(next.skip(before.len() as int) =~= added.push(at(i)));
        } else {
            assert(next == current);
        }
        assert forall|j: int| 0 <= j < i + 1 && usable(#[trigger] topics[j]) implies among(
            next,
            address(topics[j]),
        ) by {
            if j < i {
                assert(among(current, address(topics[j])));
                let k = choose|k: int|
                    0 <= k < current.len() && (#[trigger] current[k]).url == address(topics[j]);
                assert(next[k] == current[k]);
            } else if keep(i) {
                assert(next[current.len() as int].url == address(topics[i]));
            } else {
                assert(url_seen(current, address(topics[i])));
                let k = choose|k: int|
                    0 <= k < current.len() && #[trigger] current[k].url == address(topics[i]);
                assert(next[k].url == address(topics[i]));
            }
        }
        if next.len() >= limit {
            i + 1
        } else {
            lemma_topics_read(before, topics, limit, i + 1, next)
        }
    }
}

/// The topics under a key; none where there is no list.
pub open spec fn topics_under(json: Json, key: Seq<char>) -> Seq<Json> {
    match array_member(json, key) {
        Some(topics) => topics,
        None => Seq::empty(),
    }
}

proof fn lemma_list_read(before: Seq<ResultModel>, json: Json, key: Seq<char>, limit: nat) -> (n:
    int)
    ensures
        list_read(
            before,
            topics_under(json, key),
            n,
            with_topic_list(before, json, key, limit),
            limit,
        ),
        forall|j: int|
            0 <= j < n && usable(#[trigger] topics_under(json, key)[j]) ==> among(
                with_topic_list(before, json, key, limit),
                address(topics_under(json, key)[j]),
            ),
{
    let topics = topics_under(json, key);
    lemma_chosen_empty(|k: int| fresh_topic(before, topics, k), |k: int| shown(topics[k]));
    assert(before.skip(before.len() as int) =~= Seq::empty());
    assert(topics.skip(0) =~= topics);
    lemma_topics_read(before, topics, limit, 0, before)
}

/// The abstract comes first: there is one where the heading is not empty and the abstract has a
/// text and an address.
pub proof fn law_abstract(json: Json)
    ensures
        ({
            let heading = text_member_or_empty(json, "Heading"@);
            let text = text_member(json, "AbstractText"@);
            let url = text_member(json, "AbstractURL"@);
            if heading.len() > 0 && text is Some && url is Some {
                &&& abstract_results(json).len() == 1
                &&& abstract_results(json)[0].title == heading
                &&& abstract_results(json)[0].url == url->0
                &&& abstract_results(json)[0].snippet == text->0
            } else {
                abstract_results(json).len() == 0
            }
        }),
{
}

/// A reply is read in three parts: the abstract, the related topics and the results, the two lists
/// one after the other.
pub proof fn law_ddg_read(json: Json, limit: nat)
    ensures
        exists|middle: Seq<ResultModel>, n: int, m: int|
            {
                &&& #[trigger] list_read(
                    abstract_results(json),
                    topics_under(json, "RelatedTopics"@),
                    n,
                    middle,
                    limit,
                )
                &&& #[trigger] list_read(
                    middle,
                    topics_under(json, "Results"@),
                    m,
                    ddg_results(json, limit),
                    limit,
                )
            },
{
    let first = abstract_results(json);
    let middle = with_topic_list(first, json, "RelatedTopics"@, limit);
    let n = lemma_list_read(first, json, "RelatedTopics"@, limit);
    let m = lemma_list_read(middle, json, "Results"@, limit);
    assert(list_read(first, topics_under(json, "RelatedTopics"@), n, middle, limit));
    assert(list_read(
        middle,
        topics_under(json, "Results"@),
        m,
        ddg_results(json, limit),
        limit,
    ));
}

/// Nothing is left out: where fewer results come out than were asked for, every related topic and
/// every result with an address and a title has its address among them. Reading stops early only
/// once the number is reached.
pub proof fn law_ddg_complete(json: Json, limit: nat)
    requires
        ddg_results(json, limit).len() < limit,
    ensures
        forall|j: int|
            0 <= j < topics_under(json, "RelatedTopics"@).len() && usable(
                #[trigger] topics_under(json, "RelatedTopics"@)[j],
            ) ==> among(
                ddg_results(json, limit),
                address(topics_under(json, "RelatedTopics"@)[j]),
            ),
        forall|j: int|
            0 <= j < topics_under(json, "Results"@).len() && usable(
                #[trigger] topics_under(json, "Results"@)[j],
            ) ==> among(ddg_results(json, limit), address(topics_under(json, "Results"@)[j])),
{
    let first = abstract_results(json);
    let middle = with_topic_list(first, json, "RelatedTopics"@, limit);
    let out = ddg_results(json, limit);
    let n = lemma_list_read(first, json, "RelatedTopics"@, limit);
    let m = lemma_list_read(middle, json, "Results"@, limit);
    let topics = topics_under(json, "RelatedTopics"@);
    assert forall|j: int| 0 <= j < topics.len() && usable(#[trigger] topics[j]) implies among(
        out,
        address(topics[j]),
    ) by {
        assert(among(middle, address(topics[j])));
        let k = choose|k: int|
            0 <= k < middle.len() && (#[trigger] middle[k]).url == address(topics[j]);
        assert(out[k] == middle[k]);
    }
}

/// Every result is the abstract, or what a usable topic of one of the two lists shows.
pub proof fn law_ddg_results_come_from(json: Json, limit: nat, k: int)
    requires
        0 <= k < ddg_results(json, limit).len(),
    ensures
        ({
            let result = ddg_results(json, limit)[k];
            ||| abstract_results(json).contains(result)
            ||| exists|j: int|
                0 <= j < topics_under(json, "RelatedTopics"@).len() && usable(
                    #[trigger] topics_under(json, "RelatedTopics"@)[j],
                ) && shown(topics_under(json, "RelatedTopics"@)[j]) == result
            ||| exists|j: int|
                0 <= j < topics_under(json, "Results"@).len() && usable(
                    #[trigger] topics_under(json, "Results"@)[j],
                ) && shown(topics_under(json, "Results"@)[j]) == result
        }),
{
    let first = abstract_results(json);
    let middle = with_topic_list(first, json, "RelatedTopics"@, limit);
    let out = ddg_results(json, limit);
    let n = lemma_list_read(first, json, "RelatedTopics"@, limit);
    let m = lemma_list_read(middle, json, "Results"@, limit);
    if k < first.len() {
        assert(first[k] == out[k]);
    } else if k < middle.len() {
        let topics = topics_under(json, "RelatedTopics"@);
        let keep = |i: int| fresh_topic(first, topics, i);
        let at = |i: int| shown(topics[i]);
        let added = middle.skip(first.len() as int);
        lemma_chosen_members(added, n, keep, at);
        assert(added[k - first.len()] == out[k]);
        let j = choose|j: int| 0 <= j < n && #[trigger] keep(j) && at(j) == added[k - first.len()];
        assert(usable(topics[j]));
    } else {
        let topics = topics_under(json, "Results"@);
        let keep = |i: int| fresh_topic(middle, topics, i);
        let at = |i: int| shown(topics[i]);
        let added = out.skip(middle.len() as int);
        lemma_chosen_members(added, m, keep, at);
        assert(added[k - middle.len()] == out[k]);
        let j = choose|j: int| 0 <= j < m && #[trigger] keep(j) && at(j) == added[k - middle.len()];
        assert(usable(topics[j]));
    }
}

/// Whether an item has a text under each of three keys.
pub open spec fn has_texts(item: Json, a: Seq<char>, b: Seq<char>, c: Seq<char>) -> bool {
    text_member(item, a) is Some && text_member(item, b) is Some && text_member(item, c) is Some
}

/// The result with the texts that an item has under three keys.
pub open spec fn of_texts(item: Json, a: Seq<char>, b: Seq<char>, c: Seq<char>) -> ResultModel {
    ResultModel {
        title: text_member(item, a)->0,
        url: text_member(item, b)->0,
        snippet: text_member(item, c)->0,
    }
}

/// Whether `results` are those of the first `limit` items, or of all where there are fewer: in
/// order, one for each item with a title, an address and a snippet under the given keys.
pub open spec fn items_read(
    results: Seq<ResultModel>,
    items: Seq<Json>,
    title_key: Seq<char>,
    url_key: Seq<char>,
    snippet_key: Seq<char>,
    limit: nat,
) -> bool {
    chosen(
        results,
        if items.len() < limit {
            items.len() as int
        } else {
            limit as int
        },
        |i: int| has_texts(items[i], title_key, url_key, snippet_key),
        |i: int| of_texts(items[i], title_key, url_key, snippet_key),
    )
}

proof fn lemma_items_read(
    items: Seq<Json>,
    title_key: Seq<char>,
    url_key: Seq<char>,
    snippet_key: Seq<char>,
    limit: nat,
)
    ensures
        items_read(
            item_results(items, title_key, url_key, snippet_key, limit),
            items,
            title_key,
            url_key,
            snippet_key,
            limit,
        ),
{
    let n = capped(items.len(), limit) as int;
    let taken = items.take(n);
    let f = |item: Json| item_result(item, title_key, url_key, snippet_key);
    lemma_filter_map_chosen(taken, f);
    let keep = |i: int| f(taken[i]) is Some;
    let at = |i: int| f(taken[i])->0;
    let wanted = |i: int| has_texts(items[i], title_key, url_key, snippet_key);
    let value = |i: int| of_texts(items[i], title_key, url_key, snippet_key);
    assert forall|i: int| 0 <= i < n implies #[trigger] keep(i) == wanted(i) && (keep(i) ==> at(i)
        == value(i)) by {
        assert(taken[i] == items[i]);
    }
    lemma_chosen_same(taken.filter_map(f), n, keep, at, wanted, value);
}

/// The items in an array under a key of a document that may be missing; none where there is no such
/// array.
pub open spec fn items_in(json: Option<Json>, key: Seq<char>) -> Seq<Json> {
    match json {
        Some(json) => match array_member(json, key) {
            Some(items) => items,
            None => Seq::empty(),
        },
        None => Seq::empty(),
    }
}

/// Brave's results are read from `web.results`, each from `title`, `url` and `description`.
pub proof fn law_brave_results(json: Json, limit: nat)
    ensures
        items_read(
            brave_results(json, limit),
            items_in(member(json, "web"@), "results"@),
            "title"@,
            "url"@,
            "description"@,
            limit,
        ),
{
    lemma_items_read(
        items_in(member(json, "web"@), "results"@),
        "title"@,
        "url"@,
        "description"@,
        limit,
    );
}

/// Bing's results are read from `webPages.value`, each from `name`, `url` and `snippet`.
pub proof fn law_bing_results(json: Json, limit: nat)
    ensures
        items_read(
            bing_results(json, limit),
            items_in(member(json, "webPages"@), "value"@),
            "name"@,
            "url"@,
            "snippet"@,
            limit,
        ),
{
    lemma_items_read(
        items_in(member(json, "webPages"@), "value"@),
        "name"@,
        "url"@,
        "snippet"@,
        limit,
    );
}

/// Google's results are read from `items`, each from `title`, `link` and `snippet`.
pub proof fn law_google_results(json: Json, limit: nat)
    ensures
        items_read(
            google_results(json, limit),
            items_in(Some(json), "items"@),
            "title"@,
            "link"@,
            "snippet"@,
            limit,
        ),
{
    lemma_items_read(items_in(Some(json), "items"@), "title"@, "link"@, "snippet"@, limit);
}

} // verus!
