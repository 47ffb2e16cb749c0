//! What a history remembers: the tool calls of a recorded response come back, item
//! for item, in the request that follows it.

use crate::json::JsonView;
use crate::lists;
use crate::literals;
use crate::transform::history;
use crate::transform::history::{CachedCallView, HistoryView, RebuiltView};
use crate::transform::history_laws;
use crate::transform::request_laws as entries;
use crate::transform::response_laws as told;
use vstd::prelude::*;

verus! {

/// Whether an item is a tool call with an identifier.
pub open spec fn calls_as(item: JsonView, call_id: Seq<char>) -> bool {
    told::is_type(item, "function_call"@) && told::says(item, "call_id"@, call_id)
}

/// Whether an item is the output of a tool call with an identifier.
pub open spec fn answers_to(item: JsonView, call_id: Seq<char>) -> bool {
    told::is_type(item, "function_call_output"@) && told::says(item, "call_id"@, call_id)
}

/// The items of the input of a request.
pub open spec fn input_of(body: JsonView) -> Seq<JsonView> {
    match body.field("input"@) {
        Some(JsonView::Array(items)) => items,
        Some(JsonView::Object(fields)) => seq![JsonView::Object(fields)],
        _ => Seq::empty(),
    }
}

/// Whether the last call with an identifier in the output of a response is the one
/// at a place.
pub open spec fn is_last_call(response: JsonView, k: int, call_id: Seq<char>) -> bool {
    let items = told::list(response, "output"@);
    &&& 0 <= k < items.len()
    &&& call_id.len() > 0
    &&& calls_as(items[k], call_id)
    &&& forall|j: int| k < j < items.len() ==> !calls_as(#[trigger] items[j], call_id)
}

/// Whether a request has the output of a call and not the call.
pub open spec fn lacks_call(body: JsonView, call_id: Seq<char>) -> bool {
    let items = input_of(body);
    &&& exists|i: int| 0 <= i < items.len() && answers_to(#[trigger] items[i], call_id)
    &&& forall|i: int| 0 <= i < items.len() ==> !calls_as(#[trigger] items[i], call_id)
}

/// Whether every output of a call in a request comes after an item.
pub open spec fn comes_before_outputs(body: JsonView, item: JsonView, call_id: Seq<char>) -> bool {
    let items = input_of(body);
    forall|q: int|
        0 <= q < items.len() && answers_to(#[trigger] items[q], call_id)
            ==> history_laws::stands_before(items, item, q)
}

proof fn lemma_filter_map_at<A, B>(items: Seq<A>, f: spec_fn(A) -> Option<B>, k: int)
    requires
        0 <= k < items.len(),
        f(items[k]) is Some,
    ensures
        ({
            let i = items.take(k).filter_map(f).len() as int;
            let all = items.filter_map(f);
            &&& 0 <= i < all.len()
            &&& Some(all[i]) == f(items[k])
            &&& forall|j: int|
                i < j < all.len() ==> exists|m: int|
                    k < m < items.len() && f(#[trigger] items[m]) == Some(#[trigger] all[j])
        }),
{
    let head = items.take(k);
    let rest = items.skip(k + 1);
    assert(items =~= head + seq![items[k]] + rest);
    entries::lemma_filter_map_add(head, seq![items[k]], f);
    entries::lemma_filter_map_add(head + seq![items[k]], rest, f);
    entries::lemma_filter_map_one(items[k], f);
    let all = items.filter_map(f);
    let i = head.filter_map(f).len() as int;
    assert(all =~= head.filter_map(f) + seq![f(items[k])->0] + rest.filter_map(f));
    assert forall|j: int| i < j < all.len() implies exists|m: int|
        k < m < items.len() && f(#[trigger] items[m]) == Some(#[trigger] all[j]) by {
        let b = all[j];
        assert(rest.filter_map(f)[j - i - 1] == b);
        rest.lemma_filter_map_contains(f, b);
        let a = choose|a: A| #[trigger] rest.contains(a) && f(a) == Some(b);
        let m = choose|m: int| 0 <= m < rest.len() && rest[m] == a;
        assert(items[k + 1 + m] == a);
    }
}

proof fn lemma_call_kept(response: JsonView, k: int, call_id: Seq<char>) -> (i: int)
    requires
        is_last_call(response, k, call_id),
    ensures
        0 <= i < history::calls_of(response).len(),
        history::calls_of(response)[i].call_id == call_id,
        history::calls_of(response)[i].item == told::list(response, "output"@)[k],
        forall|j: int|
            i < j < history::calls_of(response).len() ==> (#[trigger] history::calls_of(
                response,
            )[j]).call_id != call_id,
{
    literals::lemma_literals();
    let items = told::list(response, "output"@);
    let f = |item: JsonView| history::kept_call(item);
    lemma_filter_map_at(items, f, k);
    let i = items.take(k).filter_map(f).len() as int;
    let all = history::calls_of(response);
    assert(all == items.filter_map(f));
    assert forall|j: int| i < j < all.len() implies (#[trigger] all[j]).call_id != call_id by {
        let m = choose|m: int|
            k < m < items.len() && f(#[trigger] items[m]) == Some(#[trigger] all[j]);
        assert(!calls_as(items[m], call_id));
    }
    i
}

proof fn lemma_lacks(body: JsonView, call_id: Seq<char>)
    requires
        call_id.len() > 0,
        lacks_call(body, call_id),
    ensures
        history::request_items(body) == Some(input_of(body)),
        history::is_missing(input_of(body), call_id),
{
    literals::lemma_literals();
    let items = input_of(body);
    let outputs = |item: JsonView| history::output_id(item);
    let existing = |item: JsonView| history::existing_id(item);
    let at = choose|i: int| 0 <= i < items.len() && answers_to(#[trigger] items[i], call_id);
    lemma_filter_map_at(items, outputs, at);
    let i = items.take(at).filter_map(outputs).len() as int;
    assert(items.filter_map(outputs)[i] == call_id);
    assert(history::output_ids(items).contains(call_id));
    if history::existing_ids(items).contains(call_id) {
        items.lemma_filter_map_contains(existing, call_id);
        let item = choose|item: JsonView| #[trigger] items.contains(item) && existing(item) == Some(
            call_id,
        );
        let m = choose|m: int| 0 <= m < items.len() && items[m] == item;
        assert(!calls_as(items[m], call_id));
    }
}

/// A tool call of a recorded response comes back in the request that follows the
/// response: where the request has its output and not the call, the call stands
/// before the output, as the response had it.
pub proof fn lemma_call_comes_back(
    h: HistoryView,
    response: JsonView,
    k: int,
    call_id: Seq<char>,
    body: JsonView,
)
    requires
        history_laws::wf(h),
        told::said(response, "id"@, ""@).len() > 0,
        is_last_call(response, k, call_id),
        told::says(body, "previous_response_id"@, told::said(response, "id"@, ""@)),
        lacks_call(body, call_id),
    ensures
        ({
            let enriched = h.recorded(response).enriched(body);
            &&& enriched.1 > 0
            &&& comes_before_outputs(
                enriched.0,
                told::list(response, "output"@)[k],
                call_id,
            )
        }),
{
    let i = lemma_call_kept(response, k, call_id);
    lemma_lacks(body, call_id);
    history_laws::lemma_recorded_call_restored(h, response, i, body, input_of(body));
    lemma_enriched_follow(h.recorded(response), body, told::list(response, "output"@)[k], call_id);
}

proof fn lemma_enriched_follow(h: HistoryView, body: JsonView, item: JsonView, call_id: Seq<char>)
    requires
        call_id.len() > 0,
        history_laws::outputs_follow(history_laws::enriched_items(h, body), call_id, item),
    ensures
        comes_before_outputs(h.enriched(body).0, item, call_id),
{
    let enriched = h.enriched(body).0;
    let items = input_of(enriched);
    assert(items == history_laws::enriched_items(h, body));
    assert forall|q: int|
        0 <= q < items.len() && answers_to(#[trigger] items[q], call_id) implies
        history_laws::stands_before(items, item, q) by {
        assert(history::output_id(items[q]) == Some(call_id));
    }
}

/// A request that does not say which response it follows gets the call too, where
/// no other response has a call with that identifier.
pub proof fn lemma_call_comes_back_unnamed(
    h: HistoryView,
    response: JsonView,
    k: int,
    call_id: Seq<char>,
    body: JsonView,
)
    requires
        history_laws::wf(h),
        told::said(response, "id"@, ""@).len() > 0,
        is_last_call(response, k, call_id),
        body.field("previous_response_id"@) is None,
        lacks_call(body, call_id),
        forall|id: Seq<char>|
            id != told::said(response, "id"@, ""@) ==> (#[trigger] h.recorded(response).held(
                id,
                call_id,
            )) is None,
    ensures
        ({
            let enriched = h.recorded(response).enriched(body);
            &&& enriched.1 > 0
            &&& comes_before_outputs(
                enriched.0,
                told::list(response, "output"@)[k],
                call_id,
            )
        }),
{
    literals::lemma_literals();
    let after = h.recorded(response);
    let id = told::said(response, "id"@, ""@);
    let item = told::list(response, "output"@)[k];
    let i = lemma_call_kept(response, k, call_id);
    lemma_lacks(body, call_id);
    history_laws::lemma_recorded_call_held(h, response, i);
    history_laws::lemma_recorded_wf(h, response);
    assert(after.held(id, call_id) == Some(item));
    let at = after.position(id);
    let calls = after.responses[at].calls;
    lists::lemma_first_where_found(calls, |call: CachedCallView| call.call_id == call_id);
    lists::lemma_first_where_found(
        after.responses,
        |response: history::CachedResponseView| response.id == id,
    );
    history_laws::lemma_held_is_known(after, None, at, call_id);
    let known = |entry: history::IndexEntryView|
        entry.call_id == call_id && after.held(entry.response_id, call_id) is Some;
    lists::lemma_first_where_found(after.index, known);
    let found = lists::first_where(after.index, known);
    assert(known(after.index[found]));
    assert(after.index[found].response_id == id);
    assert(after.previous(body) is None);
    assert(after.lookup(after.previous(body), call_id) == Some(item));
    history_laws::lemma_missing_call_restored(after, body, input_of(body), call_id, item);
    lemma_enriched_follow(after, body, item, call_id);
}

/// A response without an identifier or without calls leaves a history as it is.
pub proof fn lemma_nothing_to_remember(h: HistoryView, response: JsonView)
    requires
        told::said(response, "id"@, ""@).len() == 0 || forall|i: int, call_id: Seq<char>|
            0 <= i < told::list(response, "output"@).len() && call_id.len() > 0 ==> !#[trigger]
                calls_as(told::list(response, "output"@)[i], call_id),
    ensures
        h.recorded(response) == h,
{
    literals::lemma_literals();
    let items = told::list(response, "output"@);
    let calls = history::calls_of(response);
    let f = |item: JsonView| history::kept_call(item);
    if told::said(response, "id"@, ""@).len() > 0 && calls.len() > 0 {
        assert(calls == items.filter_map(f));
        assert(items.filter_map(f).contains(calls[0]));
        items.lemma_filter_map_contains(f, calls[0]);
        let item = choose|item: JsonView| #[trigger] items.contains(item) && f(item) == Some(
            calls[0],
        );
        let m = choose|m: int| 0 <= m < items.len() && items[m] == item;
        assert(calls_as(items[m], calls[0].call_id));
    }
}

/// A request changes in its input at most, and only where calls are put in.
pub proof fn lemma_enriched_changes_input(h: HistoryView, body: JsonView, key: Seq<char>)
    ensures
        key != "input"@ ==> h.enriched(body).0.field(key) == body.field(key),
        h.enriched(body).1 == 0 ==> h.enriched(body).0 == body,
        !(told::at(body, "input"@) is Array) && !(told::at(body, "input"@) is Object)
            ==> h.enriched(body) == (body, 0int),
{
}

/// A call that the history knows is completed from it: it gets the name and the
/// arguments that it lacks, and keeps all that it has.
pub proof fn lemma_filled(item: JsonView, cached: JsonView, key: Seq<char>)
    requires
        item is Object,
    ensures
        ({
            let filled = history::filled_from(item, cached);
            &&& item.field(key) is Some ==> filled.field(key) == item.field(key)
            &&& key == "name"@ || key == "arguments"@ ==> item.field(key) is None ==> filled.field(
                key,
            ) == cached.field(key)
            &&& key != "name"@ && key != "arguments"@ ==> filled.field(key) == item.field(key)
        }),
{
    literals::lemma_literals();
}

/// Whether a call has what another has, and lacks nothing that a third has.
pub open spec fn is_completed(filled: JsonView, item: JsonView, cached: JsonView) -> bool {
    forall|key: Seq<char>| #[trigger] completes(filled, item, cached, key)
}

pub open spec fn completes(
    filled: JsonView,
    item: JsonView,
    cached: JsonView,
    key: Seq<char>,
) -> bool {
    filled.field(key) == if item.field(key) is None && (key == "name"@ || key == "arguments"@) {
        cached.field(key)
    } else {
        item.field(key)
    }
}

/// Where calls are put into a request, every call of it that the history knows is
/// completed.
pub proof fn lemma_known_call_completed(
    h: HistoryView,
    body: JsonView,
    k: int,
    call_id: Seq<char>,
    cached: JsonView,
)
    requires
        0 <= k < input_of(body).len(),
        call_id.len() > 0,
        calls_as(input_of(body)[k], call_id),
        h.lookup(h.previous(body), call_id) == Some(cached),
        h.enriched(body).1 > 0,
    ensures
        exists|m: int|
            0 <= m < input_of(h.enriched(body).0).len() && is_completed(
                #[trigger] input_of(h.enriched(body).0)[m],
                input_of(body)[k],
                cached,
            ),
{
    literals::lemma_literals();
    let items = input_of(body);
    let item = items[k];
    let previous = h.previous(body);
    let start = RebuiltView {
        items: Seq::empty(),
        seen: Seq::empty(),
        restored: 0,
        group: h.restore_group(previous, items),
    };
    let filled = history::filled_from(item, cached);
    assert forall|key: Seq<char>| #[trigger] completes(filled, item, cached, key) by {
        lemma_filled(item, cached, key);
    }
    lemma_rebuilt_holds(h, previous, start, items, k, call_id, cached);
    let made = input_of(h.enriched(body).0);
    assert(made == h.rebuilt(body, items).items);
    let m = choose|m: int| 0 <= m < made.len() && made[m] == filled;
    assert(is_completed(made[m], item, cached));
}

proof fn lemma_rebuilt_holds(
    h: HistoryView,
    previous: Option<Seq<CachedCallView>>,
    start: RebuiltView,
    items: Seq<JsonView>,
    k: int,
    call_id: Seq<char>,
    cached: JsonView,
)
    requires
        0 <= k < items.len(),
        call_id.len() > 0,
        calls_as(items[k], call_id),
        h.lookup(previous, call_id) == Some(cached),
    ensures
        items.fold_left(
            start,
            |rebuilt: RebuiltView, item: JsonView| rebuilt.after(h, previous, item),
        ).items.contains(history::filled_from(items[k], cached)),
    decreases items.len(),
{
    literals::lemma_literals();
    let step = |rebuilt: RebuiltView, item: JsonView| rebuilt.after(h, previous, item);
    let filled = history::filled_from(items[k], cached);
    let before = items.drop_last().fold_left(start, step);
    let after = before.after(h, previous, items.last());
    assert(items.fold_left(start, step) == after);
    if k == items.len() - 1 {
        assert(after.items.last() == filled);
        assert(after.items[after.items.len() - 1] == filled);
    } else {
        lemma_rebuilt_holds(h, previous, start, items.drop_last(), k, call_id, cached);
        let m = choose|m: int| 0 <= m < before.items.len() && before.items[m] == filled;
        assert(after.items[m] == filled);
    }
}

// ── Where calls come back ──────────────────────────────────────────────────

/// Whether an item is a call that a request has the output of and lacks.
pub open spec fn is_lacking(body: JsonView, item: JsonView) -> bool {
    told::is_type(item, "function_call"@) && (item.field("call_id"@) matches Some(
        JsonView::String(call_id),
    ) && call_id.len() > 0 && lacks_call(body, call_id))
}

/// Whether an item is the output of a call.
pub open spec fn is_answer(item: JsonView) -> bool {
    told::is_type(item, "function_call_output"@)
}

proof fn lemma_missing_lacks(body: JsonView, items: Seq<JsonView>, call_id: Seq<char>)
    requires
        history::request_items(body) == Some(items),
        call_id.len() > 0,
    ensures
        history::is_missing(items, call_id) <==> lacks_call(body, call_id),
{
    literals::lemma_literals();
    assert(input_of(body) =~= items);
    if lacks_call(body, call_id) {
        lemma_lacks(body, call_id);
    }
    if history::is_missing(items, call_id) {
        let outputs = |item: JsonView| history::output_id(item);
        let existing = |item: JsonView| history::existing_id(item);
        items.lemma_filter_map_contains(outputs, call_id);
        let item = choose|item: JsonView| #[trigger] items.contains(item) && outputs(item) == Some(
            call_id,
        );
        let m = choose|m: int| 0 <= m < items.len() && items[m] == item;
        assert(answers_to(items[m], call_id));
        assert forall|i: int| 0 <= i < items.len() implies !calls_as(
            #[trigger] items[i],
            call_id,
        ) by {
            if calls_as(items[i], call_id) {
                lemma_filter_map_at(items, existing, i);
                let j = items.take(i).filter_map(existing).len() as int;
                assert(items.filter_map(existing)[j] == call_id);
                assert(history::existing_ids(items).contains(call_id));
            }
        }
        assert(lacks_call(body, call_id)) by {
            assert(input_of(body) == items);
        }
    }
}

proof fn lemma_fold_grows(
    h: HistoryView,
    previous: Option<Seq<CachedCallView>>,
    start: RebuiltView,
    items: Seq<JsonView>,
)
    ensures
        ({
            let end = items.fold_left(
                start,
                |rebuilt: RebuiltView, item: JsonView| rebuilt.after(h, previous, item),
            );
            &&& end.items.len() >= start.items.len()
            &&& end.items.take(start.items.len() as int) == start.items
        }),
    decreases items.len(),
{
    let step = |rebuilt: RebuiltView, item: JsonView| rebuilt.after(h, previous, item);
    let n = start.items.len() as int;
    if items.len() == 0 {
        assert(start.items.take(n) =~= start.items);
    } else {
        lemma_fold_grows(h, previous, start, items.drop_last());
        let before = items.drop_last().fold_left(start, step);
        let after = before.after(h, previous, items.last());
        assert(after.items.take(n) =~= before.items.take(n));
    }
}

proof fn lemma_fold_waits(
    h: HistoryView,
    previous: Option<Seq<CachedCallView>>,
    start: RebuiltView,
    items: Seq<JsonView>,
)
    requires
        forall|i: int| 0 <= i < items.len() ==> !is_answer(#[trigger] items[i]),
        start.items.len() == 0,
    ensures
        ({
            let end = items.fold_left(
                start,
                |rebuilt: RebuiltView, item: JsonView| rebuilt.after(h, previous, item),
            );
            &&& end.group == start.group
            &&& end.items.len() == items.len()
            &&& forall|i: int|
                0 <= i < items.len() && !told::is_type(#[trigger] items[i], "function_call"@)
                    ==> end.items[i] == items[i]
        }),
    decreases items.len(),
{
    let step = |rebuilt: RebuiltView, item: JsonView| rebuilt.after(h, previous, item);
    if items.len() > 0 {
        let before = items.drop_last();
        assert forall|i: int| 0 <= i < before.len() implies !is_answer(#[trigger] before[i]) by {
            assert(before[i] == items[i]);
        }
        lemma_fold_waits(h, previous, start, before);
        let known = before.fold_left(start, step);
        let after = known.after(h, previous, items.last());
        assert(!is_answer(items[items.len() - 1]));
        assert forall|i: int|
            0 <= i < items.len() && !told::is_type(
                #[trigger] items[i],
                "function_call"@,
            ) implies after.items[i] == items[i] by {
            if i < before.len() {
                assert(before[i] == items[i]);
            }
        }
    }
}

proof fn lemma_fold_split<A, B>(
    a: Seq<A>,
    b: Seq<A>,
    start: B,
    step: spec_fn(B, A) -> B,
)
    ensures
        (a + b).fold_left(start, step) == b.fold_left(a.fold_left(start, step), step),
    decreases b.len(),
{
    if b.len() == 0 {
        assert(a + b =~= a);
    } else {
        assert((a + b).drop_last() =~= a + b.drop_last());
        lemma_fold_split(a, b.drop_last(), start, step);
    }
}

proof fn lemma_group_placed(h: HistoryView, body: JsonView, o: int)
    requires
        0 <= o < input_of(body).len(),
        is_answer(input_of(body)[o]),
        forall|i: int| 0 <= i < o ==> !is_answer(#[trigger] input_of(body)[i]),
        h.enriched(body).1 > 0,
    ensures
        ({
            let made = input_of(h.enriched(body).0);
            let group = h.restore_group(h.previous(body), input_of(body));
            &&& made.len() >= o + group.len()
            &&& made.subrange(o, o + group.len()) == group.map_values(
                |call: CachedCallView| call.item,
            )
            &&& forall|i: int|
                0 <= i < o && !told::is_type(#[trigger] input_of(body)[i], "function_call"@)
                    ==> made[i] == input_of(body)[i]
        }),
{
    literals::lemma_literals();
    let items = input_of(body);
    let previous = h.previous(body);
    let group = h.restore_group(previous, items);
    let step = |rebuilt: RebuiltView, item: JsonView| rebuilt.after(h, previous, item);
    let start = RebuiltView { items: Seq::empty(), seen: Seq::empty(), restored: 0, group };
    let head = items.take(o);
    let rest = items.skip(o + 1);
    assert forall|i: int| 0 <= i < head.len() implies !is_answer(#[trigger] head[i]) by {
        assert(head[i] == items[i]);
    }
    lemma_fold_waits(h, previous, start, head);
    let waited = head.fold_left(start, step);
    let placed = waited.after(h, previous, items[o]);
    assert(head + seq![items[o]] =~= items.take(o + 1));
    lemma_fold_split(head, seq![items[o]], start, step);
    assert(seq![items[o]].drop_last() =~= Seq::empty());
    assert(seq![items[o]].drop_last().fold_left(waited, step) == waited);
    assert(seq![items[o]].fold_left(waited, step) == placed);
    assert(items =~= items.take(o + 1) + rest);
    lemma_fold_split(items.take(o + 1), rest, start, step);
    lemma_fold_grows(h, previous, placed, rest);
    let made = h.rebuilt(body, items).items;
    assert(made == items.fold_left(start, step).items);
    assert(input_of(h.enriched(body).0) == made);
    let put = group.map_values(|call: CachedCallView| call.item);
    assert(waited.group == group);
    assert(placed.items.take(o + group.len()) =~= waited.items + put);
    assert(made.take(placed.items.len() as int) == placed.items);
    assert(made.take(o + group.len()) =~= placed.items.take(o + group.len()));
    assert(made.subrange(o, o + group.len()) =~= put) by {
        assert forall|i: int| 0 <= i < group.len() implies made[o + i] == put[i] by {
            assert(made.take(o + group.len())[o + i] == put[i]);
        }
    }
    assert forall|i: int|
        0 <= i < o && !told::is_type(#[trigger] items[i], "function_call"@) implies made[i]
        == items[i] by {
        assert(head[i] == items[i]);
        assert(made.take(o + group.len())[i] == waited.items[i]);
    }
}

proof fn lemma_new_calls(calls: Seq<CachedCallView>)
    requires
        forall|i: int, j: int|
            0 <= i < j < calls.len() ==> (#[trigger] calls[i]).call_id != (#[trigger]
            calls[j]).call_id,
    ensures
        history::with_calls(Seq::empty(), calls) == calls,
    decreases calls.len(),
{
    if calls.len() == 0 {
        assert(calls =~= Seq::empty());
    } else {
        let before = calls.drop_last();
        let last = calls.last();
        assert forall|i: int, j: int| 0 <= i < j < before.len() implies (#[trigger]
        before[i]).call_id != (#[trigger] before[j]).call_id by {
            assert(before[i] == calls[i] && before[j] == calls[j]);
        }
        lemma_new_calls(before);
        let wanted = |c: CachedCallView| c.call_id == last.call_id;
        lists::lemma_first_where_found(before, wanted);
        let at = lists::first_where(before, wanted);
        if at < before.len() {
            assert(wanted(before[at]));
            assert(before[at] == calls[at]);
            assert(calls[at].call_id != calls[calls.len() - 1].call_id);
        }
        assert(history::with_call(before, last) == before.push(last));
        assert(before.push(last) =~= calls);
    }
}

proof fn lemma_lacking_calls(body: JsonView, output: Seq<JsonView>, items: Seq<JsonView>)
    requires
        history::request_items(body) == Some(items),
    ensures
        output.filter_map(|item: JsonView| history::kept_call(item)).filter(
            |call: CachedCallView| history::is_missing(items, call.call_id),
        ).map_values(|call: CachedCallView| call.item) == output.filter(
            |item: JsonView| is_lacking(body, item),
        ),
    decreases output.len(),
{
    literals::lemma_literals();
    reveal(Seq::filter);
    let keep = |item: JsonView| history::kept_call(item);
    let missing = |call: CachedCallView| history::is_missing(items, call.call_id);
    let lacking = |item: JsonView| is_lacking(body, item);
    let item_of = |call: CachedCallView| call.item;
    if output.len() == 0 {
        assert(output.filter_map(keep) =~= Seq::empty());
        assert(output.filter_map(keep).filter(missing).map_values(item_of) =~= output.filter(
            lacking,
        ));
    } else {
        let n = output.len() - 1;
        let before = output.take(n);
        let last = output[n];
        lemma_lacking_calls(body, before, items);
        assert(before =~= output.drop_last());
        output.lemma_filter_map_take_succ(keep, n);
        assert(output.take(n + 1) =~= output);
        let kept = before.filter_map(keep);
        match keep(last) {
            Some(call) => {
                lemma_missing_lacks(body, items, call.call_id);
                assert(output.filter_map(keep) =~= kept.push(call));
                kept.lemma_filter_push(call, missing);
            },
            None => {
                assert(output.filter_map(keep) =~= kept);
            },
        }
        assert(output.filter_map(keep).filter(missing).map_values(item_of) =~= output.filter(
            lacking,
        ));
    }
}

/// Whether no two calls of a response have one identifier.
pub open spec fn calls_differ(response: JsonView) -> bool {
    let items = told::list(response, "output"@);
    forall|i: int, j: int, call_id: Seq<char>|
        0 <= i < j < items.len() && #[trigger] calls_as(items[i], call_id) ==> !#[trigger] calls_as(
            items[j],
            call_id,
        )
}

proof fn lemma_kept_differ(items: Seq<JsonView>)
    requires
        forall|i: int, j: int, call_id: Seq<char>|
            0 <= i < j < items.len() && #[trigger] calls_as(items[i], call_id) ==> !#[trigger]
            calls_as(items[j], call_id),
    ensures
        ({
            let calls = items.filter_map(|item: JsonView| history::kept_call(item));
            forall|i: int, j: int|
                0 <= i < j < calls.len() ==> (#[trigger] calls[i]).call_id != (#[trigger]
                calls[j]).call_id
        }),
    decreases items.len(),
{
    literals::lemma_literals();
    let keep = |item: JsonView| history::kept_call(item);
    let calls = items.filter_map(keep);
    if items.len() > 0 {
        let n = items.len() - 1;
        let before = items.take(n);
        let last = items[n];
        assert forall|i: int, j: int, call_id: Seq<char>|
            0 <= i < j < before.len() && #[trigger] calls_as(before[i], call_id) implies !#[trigger]
        calls_as(before[j], call_id) by {
            assert(before[i] == items[i] && before[j] == items[j]);
        }
        lemma_kept_differ(before);
        items.lemma_filter_map_take_succ(keep, n);
        assert(items.take(n + 1) =~= items);
        let kept = before.filter_map(keep);
        if let Some(call) = keep(last) {
            assert(calls =~= kept.push(call));
            assert forall|i: int| 0 <= i < kept.len() implies (#[trigger] kept[i]).call_id
                != call.call_id by {
                assert(kept.contains(kept[i]));
                before.lemma_filter_map_contains(keep, kept[i]);
                let item = choose|item: JsonView| #[trigger] before.contains(item) && keep(item)
                    == Some(kept[i]);
                let m = choose|m: int| 0 <= m < before.len() && before[m] == item;
                assert(calls_as(items[m], kept[i].call_id));
                assert(calls_as(items[n], call.call_id));
            }
        } else {
            assert(calls =~= kept);
        }
    }
}

/// The calls that a request lacks come back in the order in which the response made
/// them, all before the first output, and what comes before it keeps its place.
pub proof fn lemma_calls_come_back_in_order(
    h: HistoryView,
    response: JsonView,
    body: JsonView,
    o: int,
)
    requires
        history_laws::wf(h),
        told::said(response, "id"@, ""@).len() > 0,
        forall|i: int|
            0 <= i < h.responses.len() ==> (#[trigger] h.responses[i]).id != told::said(
                response,
                "id"@,
                ""@,
            ),
        calls_differ(response),
        told::says(body, "previous_response_id"@, told::said(response, "id"@, ""@)),
        0 <= o < input_of(body).len(),
        is_answer(input_of(body)[o]),
        forall|i: int| 0 <= i < o ==> !is_answer(#[trigger] input_of(body)[i]),
        told::list(response, "output"@).filter(|item: JsonView| is_lacking(body, item)).len() > 0,
    ensures
        ({
            let enriched = h.recorded(response).enriched(body);
            let made = input_of(enriched.0);
            let lacking = told::list(response, "output"@).filter(
                |item: JsonView| is_lacking(body, item),
            );
            &&& enriched.1 > 0
            &&& made.len() >= o + lacking.len()
            &&& made.subrange(o, o + lacking.len()) == lacking
            &&& forall|i: int|
                0 <= i < o && !told::is_type(#[trigger] input_of(body)[i], "function_call"@)
                    ==> made[i] == input_of(body)[i]
        }),
{
    literals::lemma_literals();
    let id = told::said(response, "id"@, ""@);
    let output = told::list(response, "output"@);
    let calls = history::calls_of(response);
    let items = input_of(body);
    let lacks = |item: JsonView| is_lacking(body, item);
    let lacking = output.filter(lacks);
    let after = h.recorded(response);
    assert(calls == output.filter_map(|item: JsonView| history::kept_call(item)));
    lemma_kept_differ(output);
    lemma_new_calls(calls);
    lemma_lacking_calls(body, output, items);
    assert(calls.len() > 0) by {
        if calls.len() == 0 {
            assert(calls.filter(
                |call: CachedCallView| history::is_missing(items, call.call_id),
            ).len() <= calls.len()) by {
                calls.lemma_filter_len(
                    |call: CachedCallView| history::is_missing(items, call.call_id),
                );
            }
        }
    }
    history_laws::lemma_position(h, id);
    let at = h.responses.len() as int;
    assert(h.position(id) == at);
    let g = h.extended(id, calls);
    assert(g.responses[at].calls == calls);
    assert(g.responses[at].id == id);
    history_laws::lemma_extended(h, id, calls);
    history_laws::lemma_position_at(g, at);
    assert(g.previous(body) == Some(calls));
    if g.responses.len() > history::MAX_CACHED_RESPONSES {
        history_laws::lemma_without_oldest(g);
        assert(g.without_oldest().responses.len() <= history::MAX_CACHED_RESPONSES);
        assert(g.bounded() == g.without_oldest().bounded());
        assert(g.without_oldest().bounded() == g.without_oldest());
        history_laws::lemma_position_at(g.without_oldest(), at - 1);
        assert(g.without_oldest().responses[at - 1] == g.responses[at]);
    }
    assert(after.previous(body) == Some(calls));
    let group = after.restore_group(after.previous(body), items);
    assert(group.map_values(|call: CachedCallView| call.item) == lacking);
    assert(group.len() == lacking.len());
    let item = lacking[0];
    output.lemma_filter_pred(lacks, 0);
    assert(lacks(item));
    let call_id = told::said(item, "call_id"@, ""@);
    let k = lemma_last_of(response, item, call_id, lacks);
    lemma_call_comes_back(h, response, k, call_id, body);
    lemma_group_placed(after, body, o);
}

proof fn lemma_last_of(
    response: JsonView,
    item: JsonView,
    call_id: Seq<char>,
    lacks: spec_fn(JsonView) -> bool,
) -> (k: int)
    requires
        calls_differ(response),
        call_id.len() > 0,
        calls_as(item, call_id),
        told::list(response, "output"@).filter(lacks).contains(item),
    ensures
        is_last_call(response, k, call_id),
{
    let output = told::list(response, "output"@);
    output.lemma_filter_contains_rev(lacks, item);
    let k = choose|k: int| 0 <= k < output.len() && output[k] == item;
    k
}

/// Identifiers without repetition: the first of each stays, in its place.
pub proof fn lemma_distinct(ids: Seq<Seq<char>>, id: Seq<char>)
    ensures
        history::distinct(Seq::empty()).len() == 0,
        history::distinct(ids).contains(id) <==> ids.contains(id),
        history::distinct(ids.push(id)) == if ids.contains(id) {
            history::distinct(ids)
        } else {
            history::distinct(ids).push(id)
        },
    decreases ids.len(),
{
    assert(ids.push(id).drop_last() =~= ids);
    if ids.len() > 0 {
        let before = ids.drop_last();
        lemma_distinct(before, ids.last());
        lemma_distinct(before, id);
        assert(before.push(ids.last()) =~= ids);
        let known = history::distinct(before);
        if ids.contains(id) {
            let i = choose|i: int| 0 <= i < ids.len() && ids[i] == id;
            if i < before.len() {
                assert(before[i] == id);
            } else {
                assert(known.push(id)[known.len() as int] == id);
            }
        }
        if history::distinct(ids).contains(id) {
            let i = choose|i: int|
                0 <= i < history::distinct(ids).len() && history::distinct(ids)[i] == id;
            if before.contains(id) {
                let j = choose|j: int| 0 <= j < before.len() && before[j] == id;
                assert(ids[j] == id);
            } else {
                assert(!known.contains(id));
                assert(ids[ids.len() - 1] == id);
            }
        }
        if known.contains(id) {
            let i = choose|i: int| 0 <= i < known.len() && known[i] == id;
            assert(known.push(ids.last())[i] == id);
        }
    }
}

/// A request that does not say which response it follows gets the calls that it
/// lacks in the order of their outputs, each once, all before the first output.
pub proof fn lemma_unnamed_calls_in_order(h: HistoryView, body: JsonView, o: int)
    requires
        body.field("previous_response_id"@) is None,
        0 <= o < input_of(body).len(),
        is_answer(input_of(body)[o]),
        forall|i: int| 0 <= i < o ==> !is_answer(#[trigger] input_of(body)[i]),
        h.enriched(body).1 > 0,
    ensures
        ({
            let items = input_of(body);
            let made = input_of(h.enriched(body).0);
            let ids = history::distinct(history::output_ids(items)).filter(
                |id: Seq<char>| history::is_missing(items, id),
            );
            let known = ids.filter_map(|id: Seq<char>| h.indexed_call(id)).map_values(
                |call: CachedCallView| call.item,
            );
            &&& made.len() >= o + known.len()
            &&& made.subrange(o, o + known.len()) == known
        }),
{
    literals::lemma_literals();
    lemma_group_placed(h, body, o);
}

/// Of several responses with one call, the one that comes first in the index and is
/// still held counts.
pub proof fn lemma_first_held_counts(h: HistoryView, call_id: Seq<char>, i: int)
    requires
        0 <= i < h.index.len(),
        h.index[i].call_id == call_id,
        h.held(h.index[i].response_id, call_id) is Some,
        forall|j: int|
            0 <= j < i ==> (#[trigger] h.index[j]).call_id != call_id || h.held(
                h.index[j].response_id,
                call_id,
            ) is None,
    ensures
        h.lookup(None, call_id) == h.held(h.index[i].response_id, call_id),
{
    lists::lemma_first_where(
        h.index,
        |entry: history::IndexEntryView|
            entry.call_id == call_id && h.held(entry.response_id, call_id) is Some,
        i,
    );
}

/// The response that a request follows is asked first, and the others only where it
/// does not hold the call.
pub proof fn lemma_previous_first(h: HistoryView, body: JsonView, id: Seq<char>, call_id: Seq<char>)
    requires
        id.len() > 0,
        told::says(body, "previous_response_id"@, id),
    ensures
        h.held(id, call_id) is Some ==> h.lookup(h.previous(body), call_id) == h.held(id, call_id),
        h.held(id, call_id) is None ==> h.lookup(h.previous(body), call_id) == h.lookup(
            None,
            call_id,
        ),
{
    literals::lemma_literals();
}

/// A history never holds more than a fixed number of responses.
pub proof fn lemma_few_responses(h: HistoryView, response: JsonView)
    requires
        history_laws::wf(h),
    ensures
        h.recorded(response).responses.len() <= 512,
{
    history_laws::lemma_recorded_wf(h, response);
}

/// A call with the identifier of a known one takes its place; another one comes
/// last.
pub proof fn lemma_call_added(calls: Seq<CachedCallView>, call: CachedCallView, at: int)
    requires
        0 <= at <= calls.len(),
        at < calls.len() ==> calls[at].call_id == call.call_id,
        forall|i: int| 0 <= i < at ==> (#[trigger] calls[i]).call_id != call.call_id,
    ensures
        history::with_call(calls, call) == if at < calls.len() {
            calls.update(at, call)
        } else {
            calls.push(call)
        },
        history::with_calls(calls, Seq::empty()) == calls,
        history::with_calls(calls, seq![call]) == history::with_call(calls, call),
{
    let wanted = |c: CachedCallView| c.call_id == call.call_id;
    if at < calls.len() {
        lists::lemma_first_where(calls, wanted, at);
    } else {
        lists::lemma_first_where_found(calls, wanted);
        let found = lists::first_where(calls, wanted);
        if found < calls.len() {
            assert(wanted(calls[found]));
        }
    }
    let step = |known: Seq<CachedCallView>, call: CachedCallView| history::with_call(known, call);
    assert(seq![call].drop_last() =~= Seq::empty());
    assert(seq![call].drop_last().fold_left(calls, step) == calls);
}

/// Calls are added one after the other.
pub proof fn lemma_calls_added(
    known: Seq<CachedCallView>,
    a: Seq<CachedCallView>,
    b: Seq<CachedCallView>,
)
    ensures
        history::with_calls(known, a + b) == history::with_calls(
            history::with_calls(known, a),
            b,
        ),
{
    lemma_fold_split(
        a,
        b,
        known,
        |known: Seq<CachedCallView>, call: CachedCallView| history::with_call(known, call),
    );
}

} // verus!
