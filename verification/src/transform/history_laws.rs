//! What holds of every history of tool calls.

use crate::json::JsonView;
use crate::lists;
use crate::transform::history;
use crate::transform::history::{
    CachedCallView, CachedResponseView, HistoryView, IndexEntryView, RebuiltView,
    MAX_CACHED_RESPONSES,
};
use vstd::prelude::*;

verus! {

/// Calls with different identifiers.
pub open spec fn distinct_calls(calls: Seq<CachedCallView>) -> bool {
    forall|i: int, j: int|
        0 <= i < j < calls.len() ==> (#[trigger] calls[i]).call_id != (#[trigger] calls[j]).call_id
}

/// Calls, each under the identifier that it carries.
pub open spec fn items_wf(calls: Seq<CachedCallView>) -> bool {
    forall|i: int| 0 <= i < calls.len() ==> call_wf(#[trigger] calls[i])
}

/// Calls with different identifiers, each under the identifier that it carries.
pub open spec fn calls_wf(calls: Seq<CachedCallView>) -> bool {
    distinct_calls(calls) && items_wf(calls)
}

pub open spec fn call_wf(call: CachedCallView) -> bool {
    history::kept_call(call.item) == Some(call)
}

pub open spec fn has_call(calls: Seq<CachedCallView>, call_id: Seq<char>) -> bool {
    exists|i: int| 0 <= i < calls.len() && (#[trigger] calls[i]).call_id == call_id
}

/// The responses have different identifiers, and the index names the calls that
/// they hold and no others.
pub open spec fn linked(h: HistoryView) -> bool {
    &&& forall|i: int, j: int|
        0 <= i < j < h.responses.len() ==> (#[trigger] h.responses[i]).id != (
        #[trigger] h.responses[j]).id
    &&& forall|i: int|
        0 <= i < h.responses.len() ==> distinct_calls((#[trigger] h.responses[i]).calls)
    &&& forall|k: int| 0 <= k < h.index.len() ==> names_call(h, #[trigger] h.index[k])
    &&& forall|i: int, call_id: Seq<char>|
        0 <= i < h.responses.len() && #[trigger] has_call(h.responses[i].calls, call_id)
            ==> h.index.contains(IndexEntryView { call_id, response_id: h.responses[i].id })
}

pub open spec fn names_call(h: HistoryView, entry: IndexEntryView) -> bool {
    exists|i: int|
        0 <= i < h.responses.len() && (#[trigger] h.responses[i]).id == entry.response_id
            && has_call(h.responses[i].calls, entry.call_id)
}

/// A history whose index is in step, and whose calls are each under the identifier
/// that it carries.
pub open spec fn consistent(h: HistoryView) -> bool {
    linked(h) && forall|i: int|
        0 <= i < h.responses.len() ==> items_wf((#[trigger] h.responses[i]).calls)
}

/// A history whose index is in step, and which is not too long.
pub open spec fn sound(h: HistoryView) -> bool {
    linked(h) && h.responses.len() <= MAX_CACHED_RESPONSES
}

/// A history that is consistent and not too long.
pub open spec fn wf(h: HistoryView) -> bool {
    consistent(h) && h.responses.len() <= MAX_CACHED_RESPONSES
}

/// A call is found under an identifier exactly where there is one.
proof fn lemma_call_in(calls: Seq<CachedCallView>, call_id: Seq<char>)
    ensures
        history::call_in(calls, call_id) is Some <==> has_call(calls, call_id),
        history::call_in(calls, call_id) matches Some(item) ==> calls.contains(
            CachedCallView { call_id, item },
        ),
{
    let wanted = |call: CachedCallView| call.call_id == call_id;
    lists::lemma_first_where_found(calls, wanted);
    let at = lists::first_where(calls, wanted);
    if at < calls.len() {
        assert(calls[at] == CachedCallView { call_id, item: calls[at].item });
    }
}

/// Where identifiers are different, a call is found at its place.
proof fn lemma_call_at(calls: Seq<CachedCallView>, i: int)
    requires
        0 <= i < calls.len(),
        distinct_calls(calls),
    ensures
        history::call_in(calls, calls[i].call_id) == Some(calls[i].item),
{
    let wanted = |call: CachedCallView| call.call_id == calls[i].call_id;
    lists::lemma_first_where(calls, wanted, i);
}

proof fn lemma_with_call(calls: Seq<CachedCallView>, call: CachedCallView)
    requires
        distinct_calls(calls),
    ensures
        distinct_calls(history::with_call(calls, call)),
        items_wf(calls) && call_wf(call) ==> items_wf(history::with_call(calls, call)),
        history::call_in(history::with_call(calls, call), call.call_id) == Some(call.item),
        forall|id: Seq<char>|
            #![trigger has_call(history::with_call(calls, call), id)]
            has_call(history::with_call(calls, call), id) <==> has_call(calls, id) || id
                == call.call_id,
        forall|id: Seq<char>|
            #![trigger history::call_in(history::with_call(calls, call), id)]
            id != call.call_id ==> history::call_in(history::with_call(calls, call), id)
                == history::call_in(calls, id),
{
    let wanted = |c: CachedCallView| c.call_id == call.call_id;
    let at = lists::first_where(calls, wanted);
    let more = history::with_call(calls, call);
    lists::lemma_first_where_found(calls, wanted);
    assert(more[at] == call);
    assert forall|i: int, j: int| 0 <= i < j < more.len() implies (#[trigger] more[i]).call_id != (
    #[trigger] more[j]).call_id by {
        if at < calls.len() {
            assert(more[i].call_id == calls[i].call_id);
            assert(more[j].call_id == calls[j].call_id);
        } else if j < calls.len() {
            assert(more[i] == calls[i] && more[j] == calls[j]);
        } else {
            assert(more[i] == calls[i] && !wanted(calls[i]));
        }
    }
    if items_wf(calls) && call_wf(call) {
        assert forall|i: int| 0 <= i < more.len() implies call_wf(#[trigger] more[i]) by {
            if i != at {
                assert(more[i] == calls[i]);
            }
        }
    }
    lemma_call_at(more, at);
    assert forall|id: Seq<char>| #[trigger] has_call(more, id) implies has_call(calls, id) || id
        == call.call_id by {
        let i = choose|i: int| 0 <= i < more.len() && (#[trigger] more[i]).call_id == id;
        if i != at {
            assert(calls[i] == more[i]);
        }
    }
    assert forall|id: Seq<char>| (has_call(calls, id) || id == call.call_id) implies
        #[trigger] has_call(more, id) by {
        if id == call.call_id {
            assert(more[at].call_id == id);
        } else {
            let i = choose|i: int| 0 <= i < calls.len() && (#[trigger] calls[i]).call_id == id;
            assert(more[i] == calls[i]);
        }
    }
    assert forall|id: Seq<char>| id != call.call_id implies #[trigger] history::call_in(more, id)
        == history::call_in(calls, id) by {
        lemma_call_in(calls, id);
        lemma_call_in(more, id);
        if has_call(calls, id) {
            let i = choose|i: int| 0 <= i < calls.len() && (#[trigger] calls[i]).call_id == id;
            assert(i != at);
            assert(more[i] == calls[i]);
            lemma_call_at(calls, i);
            lemma_call_at(more, i);
        } else {
            assert(!has_call(more, id));
        }
    }
}

proof fn lemma_with_calls(known: Seq<CachedCallView>, calls: Seq<CachedCallView>)
    requires
        distinct_calls(known),
    ensures
        distinct_calls(history::with_calls(known, calls)),
        items_wf(known) && items_wf(calls) ==> items_wf(history::with_calls(known, calls)),
        forall|id: Seq<char>|
            #![trigger has_call(history::with_calls(known, calls), id)]
            has_call(history::with_calls(known, calls), id) <==> has_call(known, id) || has_call(
                calls,
                id,
            ),
    decreases calls.len(),
{
    if calls.len() > 0 {
        let before = calls.drop_last();
        let last = calls.last();
        if items_wf(calls) {
            assert forall|i: int| 0 <= i < before.len() implies call_wf(#[trigger] before[i]) by {
                assert(before[i] == calls[i]);
            }
            assert(call_wf(calls[calls.len() - 1]));
        }
        lemma_with_calls(known, before);
        lemma_with_call(history::with_calls(known, before), last);
        assert forall|id: Seq<char>| #[trigger] has_call(calls, id) <==> has_call(before, id) || id
            == last.call_id by {
            if has_call(calls, id) {
                let i = choose|i: int| 0 <= i < calls.len() && (#[trigger] calls[i]).call_id == id;
                if i < calls.len() - 1 {
                    assert(before[i].call_id == id);
                }
            }
            if has_call(before, id) {
                let i = choose|i: int| 0 <= i < before.len() && (#[trigger] before[i]).call_id
                    == id;
                assert(calls[i].call_id == id);
            }
            if id == last.call_id {
                assert(calls[calls.len() - 1].call_id == id);
            }
        }
        let more = history::with_call(history::with_calls(known, before), last);
        assert(history::with_calls(known, calls) == more);
        assert forall|id: Seq<char>| #[trigger]
            has_call(history::with_calls(known, calls), id) <==> has_call(known, id) || has_call(
            calls,
            id,
        ) by {
            assert(has_call(more, id) <==> has_call(history::with_calls(known, before), id) || id
                == last.call_id);
        }
    } else {
        assert(history::with_calls(known, calls) == known);
        assert forall|id: Seq<char>| !#[trigger] has_call(calls, id) by {}
    }
}

/// Of several calls with one identifier, the last one is kept.
proof fn lemma_last_call_kept(known: Seq<CachedCallView>, calls: Seq<CachedCallView>, i: int)
    requires
        distinct_calls(known),
        0 <= i < calls.len(),
        forall|j: int| i < j < calls.len() ==> (#[trigger] calls[j]).call_id != calls[i].call_id,
    ensures
        history::call_in(history::with_calls(known, calls), calls[i].call_id) == Some(
            calls[i].item,
        ),
    decreases calls.len(),
{
    let before = calls.drop_last();
    lemma_with_calls(known, before);
    lemma_with_call(history::with_calls(known, before), calls.last());
    if i < calls.len() - 1 {
        assert forall|j: int| i < j < before.len() implies (#[trigger] before[j]).call_id
            != before[i].call_id by {
            assert(before[j] == calls[j]);
        }
        lemma_last_call_kept(known, before, i);
        assert(calls[calls.len() - 1].call_id != calls[i].call_id);
    }
}

pub proof fn lemma_position(h: HistoryView, id: Seq<char>)
    ensures
        0 <= h.position(id) <= h.responses.len(),
        forall|i: int| 0 <= i < h.position(id) ==> (#[trigger] h.responses[i]).id != id,
        h.position(id) < h.responses.len() ==> h.responses[h.position(id)].id == id,
{
    let wanted = |response: CachedResponseView| response.id == id;
    lists::lemma_first_where_found(h.responses, wanted);
    assert forall|i: int| 0 <= i < h.position(id) implies (#[trigger] h.responses[i]).id != id by {
        assert(!wanted(h.responses[i]));
    }
}

/// Where identifiers are different, a response is found at its place.
pub proof fn lemma_position_at(h: HistoryView, i: int)
    requires
        linked(h),
        0 <= i < h.responses.len(),
    ensures
        h.position(h.responses[i].id) == i,
{
    lemma_position(h, h.responses[i].id);
}

pub proof fn lemma_without_oldest(h: HistoryView)
    requires
        linked(h),
        h.responses.len() > 0,
    ensures
        linked(h.without_oldest()),
        consistent(h) ==> consistent(h.without_oldest()),
        forall|id: Seq<char>, call_id: Seq<char>|
            id != h.responses[0].id ==> #[trigger] h.without_oldest().held(id, call_id) == h.held(
                id,
                call_id,
            ),
{
    let oldest = h.responses[0].id;
    let kept = |entry: IndexEntryView| entry.response_id != oldest;
    let g = h.without_oldest();
    assert forall|i: int, j: int| 0 <= i < j < g.responses.len() implies (
    #[trigger] g.responses[i]).id != (#[trigger] g.responses[j]).id by {
        assert(g.responses[i] == h.responses[i + 1] && g.responses[j] == h.responses[j + 1]);
    }
    assert forall|i: int| 0 <= i < g.responses.len() implies distinct_calls(
        (#[trigger] g.responses[i]).calls,
    ) && (consistent(h) ==> items_wf(g.responses[i].calls)) by {
        assert(g.responses[i] == h.responses[i + 1]);
    }
    assert forall|k: int| 0 <= k < g.index.len() implies names_call(g, #[trigger] g.index[k]) by {
        let entry = g.index[k];
        h.index.lemma_filter_pred(kept, k);
        assert(g.index.contains(entry));
        h.index.lemma_filter_contains_rev(kept, entry);
        let m = choose|m: int| 0 <= m < h.index.len() && h.index[m] == entry;
        assert(names_call(h, h.index[m]));
        let i = choose|i: int|
            0 <= i < h.responses.len() && (#[trigger] h.responses[i]).id == entry.response_id
                && has_call(h.responses[i].calls, entry.call_id);
        assert(i != 0);
        assert(g.responses[i - 1] == h.responses[i]);
    }
    assert forall|i: int, call_id: Seq<char>|
        0 <= i < g.responses.len() && #[trigger] has_call(
            g.responses[i].calls,
            call_id,
        ) implies g.index.contains(IndexEntryView { call_id, response_id: g.responses[i].id }) by {
        assert(g.responses[i] == h.responses[i + 1]);
        assert(has_call(h.responses[i + 1].calls, call_id));
        let entry = IndexEntryView { call_id, response_id: g.responses[i].id };
        assert(h.index.contains(entry));
        let m = choose|m: int| 0 <= m < h.index.len() && h.index[m] == entry;
        assert(h.responses[0].id != h.responses[i + 1].id);
        assert(kept(h.index[m]));
        h.index.lemma_filter_contains(kept, m);
    }
    assert forall|id: Seq<char>, call_id: Seq<char>| id != oldest implies #[trigger] g.held(
        id,
        call_id,
    ) == h.held(id, call_id) by {
        lemma_position(h, id);
        lemma_position(g, id);
        if h.position(id) < h.responses.len() {
            let i = h.position(id);
            assert(i != 0);
            assert(g.responses[i - 1] == h.responses[i]);
            lemma_position_at(g, i - 1);
        } else if g.position(id) < g.responses.len() {
            assert(h.responses[g.position(id) + 1] == g.responses[g.position(id)]);
            assert(false);
        }
    }
}

proof fn lemma_bounded(h: HistoryView)
    requires
        linked(h),
    ensures
        sound(h.bounded()),
        consistent(h) ==> wf(h.bounded()),
    decreases h.responses.len(),
{
    if h.responses.len() > MAX_CACHED_RESPONSES {
        lemma_without_oldest(h);
        lemma_bounded(h.without_oldest());
    }
}

pub proof fn lemma_extended(h: HistoryView, id: Seq<char>, calls: Seq<CachedCallView>)
    requires
        linked(h),
    ensures
        linked(h.extended(id, calls)),
        consistent(h) && items_wf(calls) ==> consistent(h.extended(id, calls)),
{
    let at = h.position(id);
    let responses = if at < h.responses.len() {
        h.responses
    } else {
        h.responses.push(CachedResponseView { id, calls: Seq::empty() })
    };
    let known = responses[at].calls;
    let added = calls.map_values(
        |call: CachedCallView| IndexEntryView { call_id: call.call_id, response_id: id },
    );
    let g = h.extended(id, calls);
    lemma_position(h, id);
    lemma_with_calls(known, calls);
    assert(g.responses[at].calls == history::with_calls(known, calls));
    assert(g.index == h.index + added);
    assert forall|i: int| 0 <= i < h.responses.len() implies (#[trigger] g.responses[i]).id
        == h.responses[i].id by {}
    assert forall|i: int, j: int| 0 <= i < j < g.responses.len() implies (
    #[trigger] g.responses[i]).id != (#[trigger] g.responses[j]).id by {
        if j < h.responses.len() {
            assert(h.responses[i].id != h.responses[j].id);
        } else {
            assert(j == at && i < at);
            assert(h.responses[i].id != id);
        }
    }
    assert forall|i: int| 0 <= i < g.responses.len() implies distinct_calls(
        (#[trigger] g.responses[i]).calls,
    ) && (consistent(h) && items_wf(calls) ==> items_wf(g.responses[i].calls)) by {
        if i != at {
            assert(g.responses[i] == h.responses[i]);
        }
    }
    assert forall|k: int| 0 <= k < g.index.len() implies names_call(g, #[trigger] g.index[k]) by {
        let entry = g.index[k];
        if k < h.index.len() {
            assert(entry == h.index[k]);
            assert(names_call(h, h.index[k]));
            let i = choose|i: int|
                0 <= i < h.responses.len() && (#[trigger] h.responses[i]).id == entry.response_id
                    && has_call(h.responses[i].calls, entry.call_id);
            if i == at {
                assert(has_call(known, entry.call_id));
                assert(has_call(g.responses[at].calls, entry.call_id));
            } else {
                assert(g.responses[i] == h.responses[i]);
            }
            assert(g.responses[i].id == entry.response_id);
        } else {
            let m = k - h.index.len();
            assert(entry == added[m]);
            assert(calls[m].call_id == entry.call_id);
            assert(has_call(calls, entry.call_id));
            assert(has_call(g.responses[at].calls, entry.call_id));
            assert(g.responses[at].id == entry.response_id);
        }
    }
    assert forall|i: int, call_id: Seq<char>|
        0 <= i < g.responses.len() && #[trigger] has_call(
            g.responses[i].calls,
            call_id,
        ) implies g.index.contains(IndexEntryView { call_id, response_id: g.responses[i].id }) by {
        let entry = IndexEntryView { call_id, response_id: g.responses[i].id };
        if i == at && !has_call(known, call_id) {
            let m = choose|m: int| 0 <= m < calls.len() && (#[trigger] calls[m]).call_id
                == call_id;
            assert(added[m] == entry);
            assert(g.index[h.index.len() + m] == entry);
        } else {
            assert(i < h.responses.len());
            assert(has_call(h.responses[i].calls, call_id));
            assert(h.index.contains(
                IndexEntryView { call_id, response_id: h.responses[i].id },
            ));
            let m = choose|m: int| 0 <= m < h.index.len() && h.index[m] == entry;
            assert(g.index[m] == entry);
        }
    }
}

proof fn lemma_kept_calls(response: JsonView)
    ensures
        items_wf(history::calls_of(response)),
{
    let pick = |item: JsonView| history::kept_call(item);
    match response.array_at("output"@) {
        Some(items) => {
            assert forall|i: int| 0 <= i < history::calls_of(response).len() implies call_wf(
                #[trigger] history::calls_of(response)[i],
            ) by {
                let call = history::calls_of(response)[i];
                assert(items.filter_map(pick).contains(call));
                items.lemma_filter_map_contains(pick, call);
            }
        },
        None => {},
    }
}

/// A new history is well-formed.
pub proof fn lemma_empty_wf()
    ensures
        wf(HistoryView::empty()),
{
}

/// Recording a response keeps a history well-formed: it never holds more than
/// `MAX_CACHED_RESPONSES` responses, and its index stays in step with them.
pub proof fn lemma_recorded_wf(h: HistoryView, response: JsonView)
    requires
        wf(h),
    ensures
        wf(h.recorded(response)),
{
    let id = response.text_or("id"@, ""@);
    let calls = history::calls_of(response);
    if id.len() > 0 && calls.len() > 0 {
        lemma_kept_calls(response);
        lemma_extended(h, id, calls);
        lemma_bounded(h.extended(id, calls));
    }
}

/// A tool call of a recorded response is held under the response's identifier.
/// Of several calls with one identifier, the last one is.
pub proof fn lemma_recorded_call_held(h: HistoryView, response: JsonView, i: int)
    requires
        wf(h),
        response.text_or("id"@, ""@).len() > 0,
        0 <= i < history::calls_of(response).len(),
        forall|j: int|
            i < j < history::calls_of(response).len() ==> (#[trigger] history::calls_of(
                response,
            )[j]).call_id != history::calls_of(response)[i].call_id,
    ensures
        h.recorded(response).held(
            response.text_or("id"@, ""@),
            history::calls_of(response)[i].call_id,
        ) == Some(history::calls_of(response)[i].item),
{
    let id = response.text_or("id"@, ""@);
    let calls = history::calls_of(response);
    let at = h.position(id);
    let g = h.extended(id, calls);
    lemma_position(h, id);
    lemma_kept_calls(response);
    lemma_extended(h, id, calls);
    let known = if at < h.responses.len() {
        h.responses[at].calls
    } else {
        Seq::empty()
    };
    lemma_last_call_kept(known, calls, i);
    assert(g.responses[at].calls == history::with_calls(known, calls));
    lemma_position_at(g, at);
    assert(g.held(id, calls[i].call_id) == Some(calls[i].item));
    if g.responses.len() > MAX_CACHED_RESPONSES {
        assert(at > 0);
        assert(g.responses[0].id != g.responses[at].id);
        lemma_without_oldest(g);
        assert(g.without_oldest().responses.len() <= MAX_CACHED_RESPONSES);
        assert(g.bounded() == g.without_oldest().bounded());
        assert(g.without_oldest().bounded() == g.without_oldest());
    }
}

proof fn lemma_held_wf(h: HistoryView, response_id: Seq<char>, call_id: Seq<char>)
    requires
        consistent(h),
    ensures
        h.held(response_id, call_id) matches Some(item) ==> call_wf(
            CachedCallView { call_id, item },
        ),
{
    lemma_position(h, response_id);
    let at = h.position(response_id);
    if at < h.responses.len() {
        lemma_call_in(h.responses[at].calls, call_id);
    }
}

proof fn lemma_indexed_wf(h: HistoryView, call_id: Seq<char>)
    requires
        consistent(h),
    ensures
        h.indexed(call_id) matches Some(item) ==> call_wf(CachedCallView { call_id, item }),
{
    let wanted = |entry: IndexEntryView|
        entry.call_id == call_id && h.held(entry.response_id, call_id) is Some;
    let at = lists::first_where(h.index, wanted);
    lists::lemma_first_where_found(h.index, wanted);
    if at < h.index.len() {
        lemma_held_wf(h, h.index[at].response_id, call_id);
    }
}

proof fn lemma_previous_wf(h: HistoryView, body: JsonView)
    requires
        consistent(h),
    ensures
        h.previous(body) matches Some(calls) ==> calls_wf(calls),
{
    lemma_position(h, body.text_or("previous_response_id"@, ""@));
}

proof fn lemma_lookup_wf(h: HistoryView, body: JsonView, call_id: Seq<char>)
    requires
        consistent(h),
    ensures
        h.lookup(h.previous(body), call_id) matches Some(item) ==> call_wf(
            CachedCallView { call_id, item },
        ),
{
    lemma_previous_wf(h, body);
    lemma_indexed_wf(h, call_id);
    match h.previous(body) {
        Some(calls) => {
            lemma_call_in(calls, call_id);
        },
        None => {},
    }
}

/// The calls to put in are those that a lookup gives.
proof fn lemma_group_wf(h: HistoryView, body: JsonView, items: Seq<JsonView>)
    requires
        consistent(h),
    ensures
        forall|i: int|
            0 <= i < h.restore_group(h.previous(body), items).len() ==> call_wf(
                #[trigger] h.restore_group(h.previous(body), items)[i],
            ) && h.lookup(
                h.previous(body),
                h.restore_group(h.previous(body), items)[i].call_id,
            ) == Some(h.restore_group(h.previous(body), items)[i].item),
{
    let previous = h.previous(body);
    let group = h.restore_group(previous, items);
    lemma_previous_wf(h, body);
    assert forall|i: int| 0 <= i < group.len() implies call_wf(#[trigger] group[i]) && h.lookup(
        previous,
        group[i].call_id,
    ) == Some(group[i].item) by {
        let call = group[i];
        assert(group.contains(call));
        match previous {
            Some(calls) => {
                let wanted = |call: CachedCallView| history::is_missing(items, call.call_id);
                calls.lemma_filter_contains_rev(wanted, call);
                let j = choose|j: int| 0 <= j < calls.len() && calls[j] == call;
                lemma_call_at(calls, j);
            },
            None => {
                let pick = |id: Seq<char>| h.indexed_call(id);
                let ids = history::distinct(history::output_ids(items)).filter(
                    |id: Seq<char>| history::is_missing(items, id),
                );
                ids.lemma_filter_map_contains(pick, call);
                lemma_indexed_wf(h, call.call_id);
            },
        }
    }
}

/// A call that is filled in stays a call, and is about the same call.
proof fn lemma_filled_from(item: JsonView, cached: JsonView)
    requires
        history::is_call(item),
    ensures
        history::is_call(history::filled_from(item, cached)),
        history::call_id_of(history::filled_from(item, cached)) == history::call_id_of(item),
{
    reveal_strlit("type");
    reveal_strlit("call_id");
    reveal_strlit("name");
    reveal_strlit("arguments");
    assert("type"@.len() == 4 && "call_id"@.len() == 7 && "name"@.len() == 4);
    assert("arguments"@.len() == 9);
    assert("type"@[0] == 't' && "name"@[0] == 'n');
}

proof fn lemma_call_is_no_output(item: JsonView)
    requires
        history::is_call(item),
    ensures
        !history::is_output(item),
{
    reveal_strlit("function_call");
    reveal_strlit("function_call_output");
    assert("function_call"@.len() == 13 && "function_call_output"@.len() == 20);
}

pub open spec fn is_no_call(item: JsonView) -> bool {
    !history::is_call(item)
}

proof fn lemma_filter_none<A>(items: Seq<A>, more: Seq<A>, wanted: spec_fn(A) -> bool)
    requires
        forall|i: int| 0 <= i < more.len() ==> !wanted(#[trigger] more[i]),
    ensures
        (items + more).filter(wanted) == items.filter(wanted),
    decreases more.len(),
{
    if more.len() == 0 {
        assert(items + more =~= items);
    } else {
        lemma_filter_none(items, more.drop_last(), wanted);
        (items + more.drop_last()).lemma_filter_push(more.last(), wanted);
        assert((items + more.drop_last()).push(more.last()) =~= items + more);
        assert(!wanted(more[more.len() - 1]));
    }
}

/// The items after some of a request's items have been put together anew.
pub open spec fn partly_rebuilt(
    h: HistoryView,
    body: JsonView,
    items: Seq<JsonView>,
    n: int,
) -> RebuiltView {
    let previous = h.previous(body);
    items.take(n).fold_left(
        RebuiltView {
            items: Seq::empty(),
            seen: Seq::empty(),
            restored: 0,
            group: h.restore_group(previous, items),
        },
        |rebuilt: RebuiltView, item: JsonView| rebuilt.after(h, previous, item),
    )
}

proof fn lemma_rebuilt_step(h: HistoryView, body: JsonView, items: Seq<JsonView>, n: int)
    requires
        0 <= n < items.len(),
    ensures
        partly_rebuilt(h, body, items, n + 1) == partly_rebuilt(h, body, items, n).after(
            h,
            h.previous(body),
            items[n],
        ),
{
    assert(items.take(n + 1).drop_last() =~= items.take(n));
}

/// The calls still to be put in are among those of the group.
proof fn lemma_group_left(h: HistoryView, body: JsonView, items: Seq<JsonView>, n: int)
    requires
        0 <= n <= items.len(),
    ensures
        partly_rebuilt(h, body, items, n).group == h.restore_group(h.previous(body), items)
            || partly_rebuilt(h, body, items, n).group.len() == 0,
    decreases n,
{
    if n > 0 {
        lemma_group_left(h, body, items, n - 1);
        lemma_rebuilt_step(h, body, items, n - 1);
    } else {
        assert(items.take(0) =~= Seq::empty());
    }
}

proof fn lemma_rebuilt_items(h: HistoryView, body: JsonView, items: Seq<JsonView>, n: int)
    requires
        wf(h),
        0 <= n <= items.len(),
    ensures
        partly_rebuilt(h, body, items, n).restored >= 0,
        partly_rebuilt(h, body, items, n).items.len() == n + partly_rebuilt(
            h,
            body,
            items,
            n,
        ).restored,
        partly_rebuilt(h, body, items, n).items.filter(|item: JsonView| is_no_call(item))
            == items.take(n).filter(|item: JsonView| is_no_call(item)),
    decreases n,
{
    let wanted = |item: JsonView| is_no_call(item);
    if n == 0 {
        assert(items.take(0) =~= Seq::empty());
    } else {
        let item = items[n - 1];
        let before = partly_rebuilt(h, body, items, n - 1);
        let after = partly_rebuilt(h, body, items, n);
        let previous = h.previous(body);
        lemma_rebuilt_items(h, body, items, n - 1);
        lemma_rebuilt_step(h, body, items, n - 1);
        lemma_group_left(h, body, items, n - 1);
        lemma_group_wf(h, body, items);
        lists::lemma_filter_take_succ(items, wanted, n - 1);
        if history::is_call(item) {
            match history::call_id_of(item) {
                Some(id) => {
                    match h.lookup(previous, id) {
                        Some(cached) => {
                            lemma_filled_from(item, cached);
                        },
                        None => {},
                    }
                },
                None => {},
            }
            before.items.lemma_filter_push(after.items.last(), wanted);
            assert(after.items =~= before.items.push(after.items.last()));
        } else if history::is_output(item) {
            let grouped = before.with_group();
            let put = before.group.map_values(|call: CachedCallView| call.item);
            assert forall|i: int| 0 <= i < put.len() implies !wanted(#[trigger] put[i]) by {
                assert(call_wf(before.group[i]));
            }
            lemma_filter_none(before.items, put, wanted);
            match history::call_id_of(item) {
                Some(id) => {
                    lemma_lookup_wf(h, body, id);
                    match h.lookup(previous, id) {
                        Some(cached) => {
                            grouped.items.lemma_filter_push(cached, wanted);
                            grouped.items.push(cached).lemma_filter_push(item, wanted);
                        },
                        None => {},
                    }
                },
                None => {},
            }
            grouped.items.lemma_filter_push(item, wanted);
        } else {
            before.items.lemma_filter_push(item, wanted);
        }
    }
}

/// The items of an enriched request.
pub open spec fn enriched_items(h: HistoryView, body: JsonView) -> Seq<JsonView> {
    match history::request_items(h.enriched(body).0) {
        Some(items) => items,
        None => Seq::empty(),
    }
}

proof fn lemma_enriched_input(h: HistoryView, body: JsonView, items: Seq<JsonView>)
    requires
        history::request_items(body) == Some(items),
    ensures
        ({
            let rebuilt = partly_rebuilt(h, body, items, items.len() as int);
            &&& rebuilt == h.rebuilt(body, items)
            &&& rebuilt.restored > 0 ==> enriched_items(h, body) == rebuilt.items && h.enriched(
                body,
            ).1 == rebuilt.restored
            &&& rebuilt.restored <= 0 ==> enriched_items(h, body) == items && h.enriched(
                body,
            ).1 == 0
        }),
{
    assert(items.take(items.len() as int) =~= items);
}

/// Enriching a request adds tool calls to its input and takes nothing away: the
/// input grows by the number of calls put in, and the items that are no calls
/// stay as they are, in their order.
pub proof fn lemma_enriched_keeps_items(h: HistoryView, body: JsonView, items: Seq<JsonView>)
    requires
        wf(h),
        history::request_items(body) == Some(items),
    ensures
        h.enriched(body).1 >= 0,
        enriched_items(h, body).len() == items.len() + h.enriched(body).1,
        enriched_items(h, body).filter(|item: JsonView| is_no_call(item)) == items.filter(
            |item: JsonView| is_no_call(item),
        ),
{
    lemma_enriched_input(h, body, items);
    lemma_rebuilt_items(h, body, items, items.len() as int);
    assert(items.take(items.len() as int) =~= items);
}

/// Whether a call stands before each output of it.
pub open spec fn outputs_follow(
    items: Seq<JsonView>,
    call_id: Seq<char>,
    call: JsonView,
) -> bool {
    forall|q: int|
        0 <= q < items.len() && history::output_id(#[trigger] items[q]) == Some(call_id)
            ==> stands_before(items, call, q)
}

pub open spec fn stands_before(items: Seq<JsonView>, call: JsonView, q: int) -> bool {
    exists|p: int| 0 <= p < q && #[trigger] items[p] == call
}

proof fn lemma_outputs_follow_push(
    items: Seq<JsonView>,
    call_id: Seq<char>,
    call: JsonView,
    item: JsonView,
)
    requires
        outputs_follow(items, call_id, call),
        history::output_id(item) == Some(call_id) ==> items.contains(call),
    ensures
        outputs_follow(items.push(item), call_id, call),
{
    let more = items.push(item);
    assert forall|q: int|
        0 <= q < more.len() && history::output_id(#[trigger] more[q]) == Some(
            call_id,
        ) implies stands_before(more, call, q) by {
        if q < items.len() {
            assert(history::output_id(items[q]) == Some(call_id));
            assert(stands_before(items, call, q));
            let p = choose|p: int| 0 <= p < q && #[trigger] items[p] == call;
            assert(more[p] == call);
        } else {
            let p = choose|p: int| 0 <= p < items.len() && items[p] == call;
            assert(more[p] == call);
        }
    }
}

proof fn lemma_outputs_follow_calls(
    items: Seq<JsonView>,
    call_id: Seq<char>,
    call: JsonView,
    more: Seq<JsonView>,
)
    requires
        outputs_follow(items, call_id, call),
        forall|i: int| 0 <= i < more.len() ==> history::is_call(#[trigger] more[i]),
    ensures
        outputs_follow(items + more, call_id, call),
    decreases more.len(),
{
    if more.len() == 0 {
        assert(items + more =~= items);
    } else {
        lemma_outputs_follow_calls(items, call_id, call, more.drop_last());
        lemma_call_is_no_output(more[more.len() - 1]);
        lemma_outputs_follow_push(items + more.drop_last(), call_id, call, more.last());
        assert((items + more.drop_last()).push(more.last()) =~= items + more);
    }
}

proof fn lemma_calls_put_in(
    h: HistoryView,
    body: JsonView,
    items: Seq<JsonView>,
    call_id: Seq<char>,
    call: JsonView,
    n: int,
)
    requires
        wf(h),
        0 <= n <= items.len(),
        !history::existing_ids(items).contains(call_id),
        h.lookup(h.previous(body), call_id) == Some(call),
    ensures
        ({
            let r = partly_rebuilt(h, body, items, n);
            &&& outputs_follow(r.items, call_id, call)
            &&& r.seen.contains(call_id) ==> r.items.contains(call) && r.restored > 0
            &&& history::output_ids(items.take(n)).contains(call_id) ==> r.seen.contains(call_id)
            &&& r.restored >= 0
        }),
    decreases n,
{
    let pick = |item: JsonView| history::output_id(item);
    if n == 0 {
        assert(items.take(0) =~= Seq::empty());
        assert(history::output_ids(items.take(0)) =~= Seq::empty());
    } else {
        let item = items[n - 1];
        let before = partly_rebuilt(h, body, items, n - 1);
        let after = partly_rebuilt(h, body, items, n);
        let previous = h.previous(body);
        lemma_calls_put_in(h, body, items, call_id, call, n - 1);
        lemma_rebuilt_step(h, body, items, n - 1);
        lemma_group_left(h, body, items, n - 1);
        lemma_group_wf(h, body, items);
        items.lemma_filter_map_take_succ(pick, n - 1);
        if history::is_call(item) {
            lemma_call_is_no_output(item);
            let existing = |item: JsonView| history::existing_id(item);
            match history::call_id_of(item) {
                Some(id) => {
                    assert(id != call_id) by {
                        items.lemma_filter_map_take_succ(existing, n - 1);
                        lemma_filter_map_member(items, existing, n - 1);
                    }
                    assert forall|s: Seq<char>| after.seen.contains(s) && s != id implies
                        before.seen.contains(s) by {
                        let k = choose|k: int| 0 <= k < after.seen.len() && after.seen[k] == s;
                        assert(before.seen[k] == s);
                    }
                    match h.lookup(previous, id) {
                        Some(cached) => {
                            lemma_filled_from(item, cached);
                        },
                        None => {},
                    }
                    lemma_call_is_no_output(after.items.last());
                },
                None => {},
            }
            lemma_outputs_follow_push(before.items, call_id, call, after.items.last());
            assert(after.items =~= before.items.push(after.items.last()));
            lemma_contains_push(before.items, after.items.last());
            assert(before.seen.contains(call_id) ==> after.seen.contains(call_id)) by {
                if before.seen.contains(call_id) {
                    let k = choose|k: int| 0 <= k < before.seen.len() && before.seen[k] == call_id;
                    assert(after.seen[k] == call_id);
                }
            }
        } else if history::is_output(item) {
            let grouped = before.with_group();
            let put = before.group.map_values(|call: CachedCallView| call.item);
            let ids = before.group.map_values(|call: CachedCallView| call.call_id);
            assert forall|i: int| 0 <= i < put.len() implies history::is_call(
                #[trigger] put[i],
            ) by {
                assert(call_wf(before.group[i]));
            }
            lemma_outputs_follow_calls(before.items, call_id, call, put);
            assert(grouped.seen.contains(call_id) ==> grouped.items.contains(call)
                && grouped.restored > 0) by {
                if grouped.seen.contains(call_id) {
                    let k = choose|k: int| 0 <= k < grouped.seen.len() && grouped.seen[k]
                        == call_id;
                    if k < before.seen.len() {
                        assert(before.seen[k] == call_id);
                        let p = choose|p: int| 0 <= p < before.items.len() && before.items[p]
                            == call;
                        assert(grouped.items[p] == call);
                    } else {
                        let m = k - before.seen.len();
                        assert(before.group[m].call_id == call_id);
                        assert(before.group[m].item == call);
                        assert(grouped.items[before.items.len() + m] == call);
                    }
                }
            }
            assert(before.seen.contains(call_id) ==> grouped.seen.contains(call_id)) by {
                if before.seen.contains(call_id) {
                    let k = choose|k: int| 0 <= k < before.seen.len() && before.seen[k] == call_id;
                    assert(grouped.seen[k] == call_id);
                }
            }
            match history::call_id_of(item) {
                Some(id) => {
                    if !grouped.seen.contains(id) && h.lookup(previous, id) is Some {
                        let cached = h.lookup(previous, id)->0;
                        lemma_lookup_wf(h, body, id);
                        lemma_call_is_no_output(cached);
                        lemma_outputs_follow_push(grouped.items, call_id, call, cached);
                        lemma_contains_push(grouped.items, cached);
                        lemma_contains_push(grouped.seen, id);
                        lemma_outputs_follow_push(
                            grouped.items.push(cached),
                            call_id,
                            call,
                            item,
                        );
                        lemma_contains_push(grouped.items.push(cached), item);
                    } else {
                        lemma_outputs_follow_push(grouped.items, call_id, call, item);
                        lemma_contains_push(grouped.items, item);
                    }
                },
                None => {
                    lemma_outputs_follow_push(grouped.items, call_id, call, item);
                    lemma_contains_push(grouped.items, item);
                },
            }
            if history::output_id(item) is Some {
                lemma_contains_push(
                    history::output_ids(items.take(n - 1)),
                    history::output_id(item)->0,
                );
            }
        } else {
            lemma_outputs_follow_push(before.items, call_id, call, item);
            lemma_contains_push(before.items, item);
        }
    }
}

proof fn lemma_contains_push<A>(items: Seq<A>, item: A)
    ensures
        forall|a: A| #[trigger] items.push(item).contains(a) <==> items.contains(a) || a == item,
{
    assert forall|a: A| #[trigger] items.push(item).contains(a) <==> items.contains(a) || a
        == item by {
        if items.contains(a) {
            let k = choose|k: int| 0 <= k < items.len() && items[k] == a;
            assert(items.push(item)[k] == a);
        }
        assert(items.push(item)[items.len() as int] == item);
        if items.push(item).contains(a) {
            let k = choose|k: int| 0 <= k < items.push(item).len() && items.push(item)[k] == a;
            if k < items.len() {
                assert(items[k] == a);
            }
        }
    }
}

/// What a function gives for an item is among what it gives for all.
proof fn lemma_filter_map_member<A, B>(items: Seq<A>, pick: spec_fn(A) -> Option<B>, i: int)
    requires
        0 <= i < items.len(),
        pick(items[i]) is Some,
    ensures
        items.filter_map(pick).contains(pick(items[i])->0),
    decreases items.len(),
{
    let before = items.take(items.len() - 1);
    let done = before.filter_map(pick);
    let last = items[items.len() - 1];
    items.lemma_filter_map_take_succ(pick, items.len() - 1);
    assert(items.take(items.len() - 1 + 1) =~= items);
    if pick(last) is Some {
        assert(items.filter_map(pick) =~= done.push(pick(last)->0));
        lemma_contains_push(done, pick(last)->0);
    } else {
        assert(items.filter_map(pick) =~= done);
    }
    if i < items.len() - 1 {
        assert(before[i] == items[i]);
        lemma_filter_map_member(before, pick, i);
    }
}

/// Where a request holds the output of a tool call without the call, and the
/// history knows the call, enriching puts the call in before each output of it.
pub proof fn lemma_missing_call_restored(
    h: HistoryView,
    body: JsonView,
    items: Seq<JsonView>,
    call_id: Seq<char>,
    call: JsonView,
)
    requires
        wf(h),
        history::request_items(body) == Some(items),
        history::is_missing(items, call_id),
        h.lookup(h.previous(body), call_id) == Some(call),
    ensures
        h.enriched(body).1 > 0,
        outputs_follow(enriched_items(h, body), call_id, call),
{
    lemma_calls_put_in(h, body, items, call_id, call, items.len() as int);
    lemma_enriched_input(h, body, items);
    assert(items.take(items.len() as int) =~= items);
}

/// Recording a response and enriching the request that follows it puts the tool
/// calls of the response before their outputs.
pub proof fn lemma_recorded_call_restored(
    h: HistoryView,
    response: JsonView,
    i: int,
    body: JsonView,
    items: Seq<JsonView>,
)
    requires
        wf(h),
        response.text_or("id"@, ""@).len() > 0,
        0 <= i < history::calls_of(response).len(),
        forall|j: int|
            i < j < history::calls_of(response).len() ==> (#[trigger] history::calls_of(
                response,
            )[j]).call_id != history::calls_of(response)[i].call_id,
        body.text_at("previous_response_id"@) == Some(response.text_or("id"@, ""@)),
        history::request_items(body) == Some(items),
        history::is_missing(items, history::calls_of(response)[i].call_id),
    ensures
        h.recorded(response).enriched(body).1 > 0,
        outputs_follow(
            enriched_items(h.recorded(response), body),
            history::calls_of(response)[i].call_id,
            history::calls_of(response)[i].item,
        ),
{
    let g = h.recorded(response);
    let call = history::calls_of(response)[i];
    lemma_recorded_wf(h, response);
    lemma_recorded_call_held(h, response, i);
    assert(g.lookup(g.previous(body), call.call_id) == Some(call.item));
    lemma_missing_call_restored(g, body, items, call.call_id, call.item);
}

/// An empty history leaves every request as it is.
pub proof fn lemma_empty_history_restores_nothing(body: JsonView)
    ensures
        HistoryView::empty().enriched(body) == (body, 0int),
{
    let h = HistoryView::empty();
    match history::request_items(body) {
        Some(items) => {
            lemma_nothing_restored(body, items, items.len() as int);
            assert(items.take(items.len() as int) =~= items);
        },
        None => {},
    }
}

proof fn lemma_nothing_restored(body: JsonView, items: Seq<JsonView>, n: int)
    requires
        0 <= n <= items.len(),
    ensures
        partly_rebuilt(HistoryView::empty(), body, items, n).restored == 0,
    decreases n,
{
    let h = HistoryView::empty();
    let group = h.restore_group(h.previous(body), items);
    assert(group.len() == 0) by {
        lemma_group_wf(h, body, items);
        if group.len() > 0 {
            assert(call_wf(group[0]));
        }
    }
    if n > 0 {
        lemma_nothing_restored(body, items, n - 1);
        lemma_rebuilt_step(h, body, items, n - 1);
        lemma_group_left(h, body, items, n - 1);
    } else {
        assert(items.take(0) =~= Seq::empty());
    }
}

// ── What recording drops ───────────────────────────────────────────────────

/// The identifiers of the responses of a history, oldest first.
pub open spec fn response_ids(h: HistoryView) -> Seq<Seq<char>> {
    h.responses.map_values(|response: CachedResponseView| response.id)
}

/// Whether the index says anything about a response.
pub open spec fn index_names(h: HistoryView, response_id: Seq<char>) -> bool {
    exists|k: int| 0 <= k < h.index.len() && (#[trigger] h.index[k]).response_id == response_id
}

/// What putting calls of a response into a history does: it keeps all other
/// responses, unless the response is a new one and the history is full. Then the
/// oldest is dropped, and it alone: the index says nothing about it any more. A new
/// response stands last, a known one stays at its place, and it holds the calls.
pub open spec fn drops_oldest_only(
    h: HistoryView,
    id: Seq<char>,
    calls: Seq<CachedCallView>,
    g: HistoryView,
) -> bool {
    let known = h.position(id) < h.responses.len();
    let full = h.responses.len() == MAX_CACHED_RESPONSES;
    &&& response_ids(g) == if known {
        response_ids(h)
    } else if !full {
        response_ids(h).push(id)
    } else {
        response_ids(h).skip(1).push(id)
    }
    &&& !known && full ==> !index_names(g, h.responses[0].id)
    &&& forall|i: int|
        0 <= i < h.responses.len() && h.responses[i].id != id && !(i == 0 && !known && full)
            ==> g.responses.contains(#[trigger] h.responses[i])
    &&& forall|call_id: Seq<char>|
        #![trigger g.held(id, call_id)]
        has_call(calls, call_id) ==> g.held(id, call_id) is Some
}

/// Putting calls of a response into a history keeps the index in step and at most
/// `MAX_CACHED_RESPONSES` responses with different identifiers, and drops the
/// oldest response only, and only to make room for a new one.
pub proof fn lemma_inserted(h: HistoryView, id: Seq<char>, calls: Seq<CachedCallView>)
    requires
        sound(h),
    ensures
        sound(h.with_response(id, calls)),
        wf(h) && items_wf(calls) ==> wf(h.with_response(id, calls)),
        drops_oldest_only(h, id, calls, h.with_response(id, calls)),
{
    let at = h.position(id);
    let e = h.extended(id, calls);
    let g = h.with_response(id, calls);
    lemma_position(h, id);
    lemma_extended(h, id, calls);
    lemma_bounded(e);
    let start = if at < h.responses.len() {
        h.responses[at].calls
    } else {
        Seq::empty()
    };
    lemma_with_calls(start, calls);
    assert(e.responses[at].calls == history::with_calls(start, calls));
    assert(e.responses[at].id == id);
    lemma_position_at(e, at);
    assert forall|call_id: Seq<char>| has_call(calls, call_id) implies e.held(id, call_id) is Some by {
        assert(has_call(e.responses[at].calls, call_id));
        lemma_call_in(e.responses[at].calls, call_id);
    }
    if at < h.responses.len() {
        assert(g == e);
        assert(response_ids(g) =~= response_ids(h));
    } else {
        assert(response_ids(e) =~= response_ids(h).push(id));
        if h.responses.len() == MAX_CACHED_RESPONSES {
            let oldest = h.responses[0].id;
            assert(e.responses[0] == h.responses[0]);
            assert(e.responses[0].id != e.responses[at].id);
            lemma_without_oldest(e);
            let dropped = e.without_oldest();
            assert(dropped.responses.len() <= MAX_CACHED_RESPONSES);
            assert(dropped.bounded() == dropped);
            assert(g == dropped);
            assert(response_ids(g) =~= response_ids(h).skip(1).push(id));
            let kept = |entry: IndexEntryView| entry.response_id != oldest;
            assert forall|k: int| 0 <= k < g.index.len() implies (
            #[trigger] g.index[k]).response_id != oldest by {
                e.index.lemma_filter_pred(kept, k);
            }
        } else {
            assert(g == e);
        }
    }
    assert forall|i: int|
        0 <= i < h.responses.len() && h.responses[i].id != id && !(i == 0 && at
            >= h.responses.len() && h.responses.len() == MAX_CACHED_RESPONSES) implies
        g.responses.contains(#[trigger] h.responses[i]) by {
        assert(e.responses[i] == h.responses[i]);
        if at >= h.responses.len() && h.responses.len() == MAX_CACHED_RESPONSES {
            assert(g.responses[i - 1] == h.responses[i]);
        } else {
            assert(g.responses[i] == h.responses[i]);
        }
    }
}

/// Recording a response drops the oldest one only, and only to make room for a new
/// one.
pub proof fn lemma_recorded_drops_oldest(h: HistoryView, response: JsonView)
    requires
        wf(h),
        response.text_or("id"@, ""@).len() > 0,
        history::calls_of(response).len() > 0,
    ensures
        drops_oldest_only(
            h,
            response.text_or("id"@, ""@),
            history::calls_of(response),
            h.recorded(response),
        ),
{
    lemma_inserted(h, response.text_or("id"@, ""@), history::calls_of(response));
}

// ── Enriching twice ────────────────────────────────────────────────────────

/// Whether a call stands among some items.
pub open spec fn holds_call(items: Seq<JsonView>, call_id: Seq<char>) -> bool {
    exists|p: int| 0 <= p < items.len() && history::existing_id(#[trigger] items[p]) == Some(call_id)
}

/// Whether a call stands before an index.
pub open spec fn call_before(items: Seq<JsonView>, call_id: Seq<char>, q: int) -> bool {
    exists|p: int| 0 <= p < q && history::existing_id(#[trigger] items[p]) == Some(call_id)
}

/// Whether each output of a call that the history knows comes after a call with
/// its identifier.
pub open spec fn calls_precede(
    h: HistoryView,
    previous: Option<Seq<CachedCallView>>,
    items: Seq<JsonView>,
) -> bool {
    forall|q: int|
        0 <= q < items.len() && history::output_id(#[trigger] items[q]) is Some && h.lookup(
            previous,
            history::output_id(items[q])->0,
        ) is Some ==> call_before(items, history::output_id(items[q])->0, q)
}

/// A call that some response holds is known.
pub proof fn lemma_held_is_known(
    h: HistoryView,
    previous: Option<Seq<CachedCallView>>,
    i: int,
    call_id: Seq<char>,
)
    requires
        consistent(h),
        0 <= i < h.responses.len(),
        has_call(h.responses[i].calls, call_id),
    ensures
        h.lookup(previous, call_id) is Some,
{
    let id = h.responses[i].id;
    let entry = IndexEntryView { call_id, response_id: id };
    assert(h.index.contains(entry));
    let k = choose|k: int| 0 <= k < h.index.len() && h.index[k] == entry;
    lemma_position_at(h, i);
    lemma_call_in(h.responses[i].calls, call_id);
    let wanted = |entry: IndexEntryView|
        entry.call_id == call_id && h.held(entry.response_id, call_id) is Some;
    assert(wanted(h.index[k]));
    lists::lemma_first_where_found(h.index, wanted);
}

proof fn lemma_precede_push(
    h: HistoryView,
    previous: Option<Seq<CachedCallView>>,
    items: Seq<JsonView>,
    item: JsonView,
)
    requires
        calls_precede(h, previous, items),
        history::output_id(item) matches Some(c) ==> h.lookup(previous, c) is Some ==> holds_call(
            items,
            c,
        ),
    ensures
        calls_precede(h, previous, items.push(item)),
        forall|c: Seq<char>| holds_call(items, c) ==> #[trigger] holds_call(items.push(item), c),
        history::existing_id(item) matches Some(c) ==> holds_call(items.push(item), c),
{
    let more = items.push(item);
    assert forall|q: int|
        0 <= q < more.len() && history::output_id(#[trigger] more[q]) is Some && h.lookup(
            previous,
            history::output_id(more[q])->0,
        ) is Some implies call_before(more, history::output_id(more[q])->0, q) by {
        let c = history::output_id(more[q])->0;
        if q < items.len() {
            assert(more[q] == items[q]);
            assert(call_before(items, c, q));
            let p = choose|p: int|
                0 <= p < q && history::existing_id(#[trigger] items[p]) == Some(c);
            assert(more[p] == items[p]);
        } else {
            let p = choose|p: int|
                0 <= p < items.len() && history::existing_id(#[trigger] items[p]) == Some(c);
            assert(more[p] == items[p]);
        }
    }
    assert forall|c: Seq<char>| holds_call(items, c) implies #[trigger] holds_call(more, c) by {
        let p = choose|p: int|
            0 <= p < items.len() && history::existing_id(#[trigger] items[p]) == Some(c);
        assert(more[p] == items[p]);
    }
    if history::existing_id(item) is Some {
        assert(more[items.len() as int] == item);
    }
}

proof fn lemma_precede_group(
    h: HistoryView,
    previous: Option<Seq<CachedCallView>>,
    items: Seq<JsonView>,
    group: Seq<CachedCallView>,
)
    requires
        calls_precede(h, previous, items),
        forall|i: int| 0 <= i < group.len() ==> call_wf(#[trigger] group[i]),
    ensures
        ({
            let more = items + group.map_values(|call: CachedCallView| call.item);
            &&& calls_precede(h, previous, more)
            &&& forall|c: Seq<char>| holds_call(items, c) ==> #[trigger] holds_call(more, c)
            &&& forall|i: int| 0 <= i < group.len() ==> holds_call(more, (#[trigger] group[i]).call_id)
        }),
    decreases group.len(),
{
    let image = |call: CachedCallView| call.item;
    if group.len() == 0 {
        assert(items + group.map_values(image) =~= items);
    } else {
        let before = group.drop_last();
        let last = group.last();
        assert forall|i: int| 0 <= i < before.len() implies call_wf(#[trigger] before[i]) by {
            assert(before[i] == group[i]);
        }
        lemma_precede_group(h, previous, items, before);
        assert(call_wf(group[group.len() - 1]));
        lemma_call_is_no_output(last.item);
        let done = items + before.map_values(image);
        lemma_precede_push(h, previous, done, last.item);
        assert(items + group.map_values(image) =~= done.push(last.item));
        assert forall|i: int| 0 <= i < group.len() implies holds_call(
            done.push(last.item),
            (#[trigger] group[i]).call_id,
        ) by {
            if i < before.len() {
                assert(before[i] == group[i]);
                assert(holds_call(done, before[i].call_id));
            }
        }
    }
}

proof fn lemma_rebuilt_precede(h: HistoryView, body: JsonView, items: Seq<JsonView>, n: int)
    requires
        wf(h),
        0 <= n <= items.len(),
    ensures
        ({
            let r = partly_rebuilt(h, body, items, n);
            &&& calls_precede(h, h.previous(body), r.items)
            &&& forall|c: Seq<char>| #[trigger] r.seen.contains(c) ==> holds_call(r.items, c)
            &&& r.restored >= 0
            &&& r.restored == 0 ==> r.items.len() == n && forall|i: int|
                0 <= i < n ==> history::output_id(#[trigger] r.items[i]) == history::output_id(
                    items[i],
                ) && history::existing_id(r.items[i]) == history::existing_id(items[i])
        }),
    decreases n,
{
    if n == 0 {
        assert(items.take(0) =~= Seq::empty());
    } else {
        let item = items[n - 1];
        let before = partly_rebuilt(h, body, items, n - 1);
        let after = partly_rebuilt(h, body, items, n);
        let previous = h.previous(body);
        lemma_rebuilt_precede(h, body, items, n - 1);
        lemma_rebuilt_step(h, body, items, n - 1);
        lemma_group_left(h, body, items, n - 1);
        lemma_group_wf(h, body, items);
        if history::is_call(item) {
            lemma_call_is_no_output(item);
            match history::call_id_of(item) {
                Some(id) => {
                    match h.lookup(previous, id) {
                        Some(cached) => {
                            lemma_filled_from(item, cached);
                        },
                        None => {},
                    }
                    lemma_call_is_no_output(after.items.last());
                    lemma_contains_push(before.seen, id);
                },
                None => {},
            }
            assert(after.items =~= before.items.push(after.items.last()));
            lemma_precede_push(h, previous, before.items, after.items.last());
        } else if history::is_output(item) {
            let grouped = before.with_group();
            lemma_precede_group(h, previous, before.items, before.group);
            assert forall|c: Seq<char>| #[trigger] grouped.seen.contains(c) implies holds_call(
                grouped.items,
                c,
            ) by {
                let k = choose|k: int| 0 <= k < grouped.seen.len() && grouped.seen[k] == c;
                if k < before.seen.len() {
                    assert(before.seen[k] == c);
                    assert(before.seen.contains(c));
                } else {
                    assert(before.group[k - before.seen.len()].call_id == c);
                }
            }
            match history::call_id_of(item) {
                Some(id) => {
                    if !grouped.seen.contains(id) && h.lookup(previous, id) is Some {
                        let cached = h.lookup(previous, id)->0;
                        lemma_lookup_wf(h, body, id);
                        lemma_call_is_no_output(cached);
                        lemma_precede_push(h, previous, grouped.items, cached);
                        lemma_contains_push(grouped.seen, id);
                        lemma_precede_push(h, previous, grouped.items.push(cached), item);
                    } else {
                        lemma_precede_push(h, previous, grouped.items, item);
                    }
                },
                None => {
                    lemma_precede_push(h, previous, grouped.items, item);
                },
            }
            if after.restored == 0 {
                assert(before.group.len() == 0);
                assert(grouped.items =~= before.items);
            }
        } else {
            lemma_precede_push(h, previous, before.items, item);
        }
        if after.restored == 0 {
            assert(after.items.drop_last() =~= before.items);
            assert forall|i: int| 0 <= i < n implies history::output_id(#[trigger] after.items[i])
                == history::output_id(items[i]) && history::existing_id(after.items[i])
                == history::existing_id(items[i]) by {
                if i < n - 1 {
                    assert(after.items[i] == before.items[i]);
                }
            }
        }
    }
}

proof fn lemma_same_ids_precede(
    h: HistoryView,
    previous: Option<Seq<CachedCallView>>,
    items: Seq<JsonView>,
    others: Seq<JsonView>,
)
    requires
        calls_precede(h, previous, items),
        items.len() == others.len(),
        forall|i: int|
            0 <= i < items.len() ==> history::output_id(#[trigger] items[i]) == history::output_id(
                others[i],
            ) && history::existing_id(items[i]) == history::existing_id(others[i]),
    ensures
        calls_precede(h, previous, others),
{
    assert forall|q: int|
        0 <= q < others.len() && history::output_id(#[trigger] others[q]) is Some && h.lookup(
            previous,
            history::output_id(others[q])->0,
        ) is Some implies call_before(others, history::output_id(others[q])->0, q) by {
        let c = history::output_id(others[q])->0;
        assert(history::output_id(items[q]) == Some(c));
        assert(call_before(items, c, q));
        let p = choose|p: int| 0 <= p < q && history::existing_id(#[trigger] items[p]) == Some(c);
        assert(history::existing_id(others[p]) == Some(c));
    }
}

/// The calls to put in are missing.
proof fn lemma_group_missing(
    h: HistoryView,
    previous: Option<Seq<CachedCallView>>,
    items: Seq<JsonView>,
    i: int,
)
    requires
        0 <= i < h.restore_group(previous, items).len(),
    ensures
        history::is_missing(items, h.restore_group(previous, items)[i].call_id),
{
    let group = h.restore_group(previous, items);
    match previous {
        Some(calls) => {
            let wanted = |call: CachedCallView| history::is_missing(items, call.call_id);
            calls.lemma_filter_pred(wanted, i);
        },
        None => {
            let wanted = |id: Seq<char>| history::is_missing(items, id);
            let pick = |id: Seq<char>| h.indexed_call(id);
            let ids = history::distinct(history::output_ids(items)).filter(wanted);
            assert(group.contains(group[i]));
            ids.lemma_filter_map_contains(pick, group[i]);
            let id = choose|id: Seq<char>| #[trigger] ids.contains(id) && pick(id) == Some(group[i]);
            let k = choose|k: int| 0 <= k < ids.len() && ids[k] == id;
            history::distinct(history::output_ids(items)).lemma_filter_pred(wanted, k);
        },
    }
}

/// Where calls stand before their outputs, none is put in.
proof fn lemma_nothing_to_restore(h: HistoryView, body: JsonView, items: Seq<JsonView>, n: int)
    requires
        wf(h),
        0 <= n <= items.len(),
        calls_precede(h, h.previous(body), items),
    ensures
        ({
            let r = partly_rebuilt(h, body, items, n);
            &&& r.restored == 0
            &&& r.group.len() == 0
            &&& forall|i: int|
                0 <= i < n ==> (history::existing_id(#[trigger] items[i]) matches Some(c)
                    ==> r.seen.contains(c))
        }),
    decreases n,
{
    let previous = h.previous(body);
    let output = |item: JsonView| history::output_id(item);
    let existing = |item: JsonView| history::existing_id(item);
    if n == 0 {
        assert(items.take(0) =~= Seq::empty());
        let group = h.restore_group(previous, items);
        if group.len() > 0 {
            let c = group[0].call_id;
            lemma_group_wf(h, body, items);
            lemma_group_missing(h, previous, items, 0);
            items.lemma_filter_map_contains(output, c);
            let item = choose|item: JsonView| #[trigger] items.contains(item) && output(item)
                == Some(c);
            let q = choose|q: int| 0 <= q < items.len() && items[q] == item;
            assert(history::output_id(items[q]) == Some(c));
            assert(h.lookup(previous, c) == Some(group[0].item));
            assert(call_before(items, c, q));
            let p = choose|p: int|
                0 <= p < q && history::existing_id(#[trigger] items[p]) == Some(c);
            lemma_filter_map_member(items, existing, p);
            assert(false);
        }
    } else {
        let item = items[n - 1];
        let before = partly_rebuilt(h, body, items, n - 1);
        let after = partly_rebuilt(h, body, items, n);
        lemma_nothing_to_restore(h, body, items, n - 1);
        lemma_rebuilt_step(h, body, items, n - 1);
        let ids = before.group.map_values(|call: CachedCallView| call.call_id);
        assert(before.seen + ids =~= before.seen);
        if history::is_call(item) {
            lemma_call_is_no_output(item);
            if history::call_id_of(item) is Some {
                lemma_contains_push(before.seen, history::call_id_of(item)->0);
            }
        } else if history::is_output(item) {
            match history::call_id_of(item) {
                Some(id) => {
                    if h.lookup(previous, id) is Some {
                        assert(history::output_id(items[n - 1]) == Some(id));
                        assert(call_before(items, id, n - 1));
                        let p = choose|p: int|
                            0 <= p < n - 1 && history::existing_id(#[trigger] items[p]) == Some(
                                id,
                            );
                        assert(before.seen.contains(id));
                    }
                },
                None => {},
            }
        }
    }
}

proof fn lemma_input_key()
    ensures
        "previous_response_id"@ != "input"@,
{
    reveal_strlit("previous_response_id");
    reveal_strlit("input");
    assert("previous_response_id"@.len() == 20 && "input"@.len() == 5);
}

/// In an enriched request, each output of a call that the history knows comes
/// after a call with its identifier, wherever the call stood before.
pub proof fn lemma_enriched_calls_precede(h: HistoryView, body: JsonView, items: Seq<JsonView>)
    requires
        wf(h),
        history::request_items(body) == Some(items),
    ensures
        calls_precede(h, h.previous(body), enriched_items(h, body)),
{
    let n = items.len() as int;
    let r = partly_rebuilt(h, body, items, n);
    lemma_enriched_input(h, body, items);
    lemma_rebuilt_precede(h, body, items, n);
    if r.restored == 0 {
        lemma_same_ids_precede(h, h.previous(body), r.items, items);
    }
}

/// To enrich a request twice is to enrich it once: the second time no call is put
/// in, and the request stays as it is.
pub proof fn lemma_enriched_once(h: HistoryView, body: JsonView)
    requires
        wf(h),
    ensures
        h.enriched(h.enriched(body).0) == (h.enriched(body).0, 0int),
{
    match history::request_items(body) {
        Some(items) => {
            let once = h.enriched(body).0;
            let new_items = enriched_items(h, body);
            lemma_enriched_input(h, body, items);
            lemma_enriched_calls_precede(h, body, items);
            lemma_input_key();
            assert(h.previous(once) == h.previous(body));
            assert(history::request_items(once) == Some(new_items));
            lemma_nothing_to_restore(h, once, new_items, new_items.len() as int);
            lemma_enriched_input(h, once, new_items);
        },
        None => {},
    }
}

} // verus!
