//! Tool call history store for Responses→Chat conversion.
//!
//! When a client of the Responses API sends `previous_response_id` and a tool
//! output, the upstream Chat Completions API requires the original tool call to
//! appear before the tool output. This store caches tool calls from upstream
//! responses and enriches subsequent requests.

use crate::json;
use crate::json::{Json, JsonView};
use crate::lists;
use crate::text;
use crate::text::{contains_text, same_text};
use crate::transform::history_laws;
use vstd::prelude::*;

verus! {

broadcast use crate::json::group_json_views;

/// The number of responses that are kept at most.
pub const MAX_CACHED_RESPONSES: usize = 512;

/// A tool call of a response.
#[derive(Debug)]
pub struct CachedCall {
    pub call_id: String,
    pub item: Json,
}

/// The tool calls of a response, in the order in which they were first made.
#[derive(Debug)]
struct CachedResponse {
    id: String,
    calls: Vec<CachedCall>,
}

/// Says that a tool call was made in a response.
#[derive(Debug)]
struct IndexEntry {
    call_id: String,
    response_id: String,
}

/// Cross-request history store for tool call enrichment.
#[derive(Debug)]
pub struct ToolCallHistoryStore {
    /// Oldest first.
    responses: Vec<CachedResponse>,
    /// In the order of recording.
    index: Vec<IndexEntry>,
}

/// What a cached tool call is.
pub struct CachedCallView {
    pub call_id: Seq<char>,
    pub item: JsonView,
}

/// What a cached response is.
pub struct CachedResponseView {
    pub id: Seq<char>,
    pub calls: Seq<CachedCallView>,
}

pub struct IndexEntryView {
    pub call_id: Seq<char>,
    pub response_id: Seq<char>,
}

/// What a history is: responses, oldest first, and which call was made in which
/// response, in the order of recording.
pub struct HistoryView {
    pub responses: Seq<CachedResponseView>,
    pub index: Seq<IndexEntryView>,
}

impl View for CachedCall {
    type V = CachedCallView;

    open spec fn view(&self) -> CachedCallView {
        CachedCallView { call_id: self.call_id@, item: self.item@ }
    }
}

pub open spec fn call_views(calls: Seq<CachedCall>) -> Seq<CachedCallView> {
    calls.map_values(|call: CachedCall| call@)
}

impl View for CachedResponse {
    type V = CachedResponseView;

    closed spec fn view(&self) -> CachedResponseView {
        CachedResponseView { id: self.id@, calls: call_views(self.calls@) }
    }
}

impl View for IndexEntry {
    type V = IndexEntryView;

    closed spec fn view(&self) -> IndexEntryView {
        IndexEntryView { call_id: self.call_id@, response_id: self.response_id@ }
    }
}

spec fn response_views(responses: Seq<CachedResponse>) -> Seq<CachedResponseView> {
    responses.map_values(|response: CachedResponse| response@)
}

spec fn index_views(index: Seq<IndexEntry>) -> Seq<IndexEntryView> {
    index.map_values(|entry: IndexEntry| entry@)
}

impl View for ToolCallHistoryStore {
    type V = HistoryView;

    closed spec fn view(&self) -> HistoryView {
        HistoryView {
            responses: response_views(self.responses@),
            index: index_views(self.index@),
        }
    }
}

// ── Items ──────────────────────────────────────────────────────────────────

pub open spec fn is_call(item: JsonView) -> bool {
    item.text_at("type"@) == Some("function_call"@)
}

pub open spec fn is_output(item: JsonView) -> bool {
    item.text_at("type"@) == Some("function_call_output"@)
}

/// The identifier of the call that an item is about.
pub open spec fn call_id_of(item: JsonView) -> Option<Seq<char>> {
    match item.text_at("call_id"@) {
        Some(id) => if id.len() > 0 {
            Some(id)
        } else {
            None
        },
        None => None,
    }
}

/// The tool call to keep of an item of an output.
pub open spec fn kept_call(item: JsonView) -> Option<CachedCallView> {
    match call_id_of(item) {
        Some(call_id) => if is_call(item) {
            Some(CachedCallView { call_id, item })
        } else {
            None
        },
        None => None,
    }
}

pub fn is_tool_call_type(t: &str) -> (r: bool)
    ensures
        r == (t@ == "function_call"@),
{
    same_text(t, "function_call")
}

pub fn is_tool_output_type(t: &str) -> (r: bool)
    ensures
        r == (t@ == "function_call_output"@),
{
    same_text(t, "function_call_output")
}

fn is_call_item(item: &Json) -> (r: bool)
    ensures
        r == is_call(item@),
{
    match item.text_at("type") {
        Some(t) => is_tool_call_type(t),
        None => false,
    }
}

fn is_output_item(item: &Json) -> (r: bool)
    ensures
        r == is_output(item@),
{
    match item.text_at("type") {
        Some(t) => is_tool_output_type(t),
        None => false,
    }
}

/// The identifier of the call that an item is about.
pub fn response_item_call_id(item: &Json) -> (r: Option<String>)
    ensures
        json::string_of(r) == call_id_of(item@),
{
    match item.text_at("call_id") {
        Some(id) => if id.unicode_len() > 0 {
            Some(id.to_string())
        } else {
            None
        },
        None => None,
    }
}

/// Extracts a cached tool call from a Responses API output item.
fn cached_tool_call(item: &Json) -> (r: Option<CachedCall>)
    ensures
        match r {
            Some(call) => kept_call(item@) == Some(call@),
            None => kept_call(item@) is None,
        },
{
    if !is_call_item(item) {
        return None;
    }
    match response_item_call_id(item) {
        Some(call_id) => Some(CachedCall { call_id, item: item.clone() }),
        None => None,
    }
}

/// A tool call with the name and the arguments that it lacks and a cached one
/// has.
pub open spec fn filled_from(item: JsonView, cached: JsonView) -> JsonView {
    let named = match (item.field("name"@), cached.field("name"@)) {
        (None, Some(name)) => json::with_entry(item, "name"@, name),
        _ => item,
    };
    match (named.field("arguments"@), cached.field("arguments"@)) {
        (None, Some(arguments)) => json::with_entry(named, "arguments"@, arguments),
        _ => named,
    }
}

/// Fills in what a tool call lacks and a cached one has.
fn enrich_call_item_from_cache(item: Json, cached: &Json) -> (r: Json)
    ensures
        r@ == filled_from(item@, cached@),
{
    let mut item = item;
    if item.get("name").is_none() {
        match cached.get("name") {
            Some(name) => item = item.with_entry("name", name.clone()),
            None => {},
        }
    }
    if item.get("arguments").is_none() {
        match cached.get("arguments") {
            Some(arguments) => item = item.with_entry("arguments", arguments.clone()),
            None => {},
        }
    }
    item
}

// ── Recording ──────────────────────────────────────────────────────────────

/// Calls with one more. One with the same identifier is replaced in its place.
pub open spec fn with_call(calls: Seq<CachedCallView>, call: CachedCallView) -> Seq<
    CachedCallView,
> {
    let at = lists::first_where(calls, |c: CachedCallView| c.call_id == call.call_id);
    if at < calls.len() {
        calls.update(at, call)
    } else {
        calls.push(call)
    }
}

pub open spec fn with_calls(known: Seq<CachedCallView>, calls: Seq<CachedCallView>) -> Seq<
    CachedCallView,
> {
    calls.fold_left(
        known,
        |known: Seq<CachedCallView>, call: CachedCallView| with_call(known, call),
    )
}

impl HistoryView {
    pub open spec fn empty() -> HistoryView {
        HistoryView { responses: Seq::empty(), index: Seq::empty() }
    }

    /// Where a response stands, or the number of responses.
    pub open spec fn position(self, id: Seq<char>) -> int {
        lists::first_where(self.responses, |response: CachedResponseView| response.id == id)
    }

    /// The history without its oldest response.
    pub open spec fn without_oldest(self) -> HistoryView {
        let oldest = self.responses[0].id;
        HistoryView {
            responses: self.responses.skip(1),
            index: self.index.filter(|entry: IndexEntryView| entry.response_id != oldest),
        }
    }

    /// The history without its oldest responses, where it has too many.
    pub open spec fn bounded(self) -> HistoryView
        decreases self.responses.len(),
    {
        if self.responses.len() > MAX_CACHED_RESPONSES {
            self.without_oldest().bounded()
        } else {
            self
        }
    }

    /// The history with tool calls of a response, however long it gets.
    pub open spec fn extended(
        self,
        id: Seq<char>,
        calls: Seq<CachedCallView>,
    ) -> HistoryView {
        let at = self.position(id);
        let responses = if at < self.responses.len() {
            self.responses
        } else {
            self.responses.push(CachedResponseView { id, calls: Seq::empty() })
        };
        HistoryView {
            responses: responses.update(
                at,
                CachedResponseView { id, calls: with_calls(responses[at].calls, calls) },
            ),
            index: self.index + calls.map_values(
                |call: CachedCallView| IndexEntryView { call_id: call.call_id, response_id: id },
            ),
        }
    }

    /// The history with tool calls of a response.
    pub open spec fn with_response(
        self,
        id: Seq<char>,
        calls: Seq<CachedCallView>,
    ) -> HistoryView {
        self.extended(id, calls).bounded()
    }

    /// The history after a response. Only one with an identifier and tool calls
    /// is kept.
    pub open spec fn recorded(self, response: JsonView) -> HistoryView {
        let id = response.text_or("id"@, ""@);
        let calls = calls_of(response);
        if id.len() > 0 && calls.len() > 0 {
            self.with_response(id, calls)
        } else {
            self
        }
    }
}

/// The tool calls to keep of a response.
pub open spec fn calls_of(response: JsonView) -> Seq<CachedCallView> {
    match response.array_at("output"@) {
        Some(items) => items.filter_map(|item: JsonView| kept_call(item)),
        None => Seq::empty(),
    }
}

fn find_cached_call(calls: &Vec<CachedCall>, call_id: &str) -> (r: usize)
    ensures
        r <= calls.len(),
        r == lists::first_where(
            call_views(calls@),
            |call: CachedCallView| call.call_id == call_id@,
        ),
{
    let ghost wanted = |call: CachedCallView| call.call_id == call_id@;
    let mut i: usize = 0;
    while i < calls.len() && !same_text(calls[i].call_id.as_str(), call_id)
        invariant
            i <= calls.len(),
            wanted == (|call: CachedCallView| call.call_id == call_id@),
            forall|j: int| 0 <= j < i ==> !wanted(#[trigger] call_views(calls@)[j]),
        decreases calls.len() - i,
    {
        i = i + 1;
    }
    proof {
        lists::lemma_first_where(call_views(calls@), wanted, i as int);
    }
    i
}

/// Adds a call to those of a response.
fn insert_call(known: &mut Vec<CachedCall>, call: CachedCall)
    ensures
        call_views(final(known)@) == with_call(call_views(old(known)@), call@),
{
    let ghost before = known@;
    let at: usize = find_cached_call(known, call.call_id.as_str());
    if at < known.len() {
        known.set(at, call);
        assert(call_views(known@) =~= call_views(before).update(at as int, call@));
    } else {
        known.push(call);
        assert(call_views(known@) =~= call_views(before).push(call@));
    }
}

/// The tool calls to keep of a response.
fn collect_calls(response: &Json) -> (r: Vec<CachedCall>)
    ensures
        call_views(r@) == calls_of(response@),
{
    let mut r: Vec<CachedCall> = Vec::new();
    let ghost pick = |item: JsonView| kept_call(item);
    match response.array_at("output") {
        Some(items) => {
            let ghost views = json::json_views(items@);
            assert(call_views(r@) =~= views.take(0).filter_map(pick));
            for i in 0..items.len()
                invariant
                    views == json::json_views(items@),
                    pick == (|item: JsonView| kept_call(item)),
                    call_views(r@) == views.take(i as int).filter_map(pick),
            {
                proof {
                    views.lemma_filter_map_take_succ(pick, i as int);
                }
                match cached_tool_call(&items[i]) {
                    Some(call) => {
                        let ghost before = r@;
                        r.push(call);
                        assert(call_views(r@) =~= call_views(before).push(call@));
                    },
                    None => {},
                }
            }
            assert(views.take(views.len() as int) =~= views);
        },
        None => {
            assert(call_views(r@) =~= Seq::empty());
        },
    }
    r
}

/// The entries of an index that are not about a response.
fn without_response(index: Vec<IndexEntry>, response_id: &str) -> (r: Vec<IndexEntry>)
    ensures
        index_views(r@) == index_views(index@).filter(
            |entry: IndexEntryView| entry.response_id != response_id@,
        ),
{
    let ghost all = index@;
    let ghost views = index_views(all);
    let ghost kept = |entry: IndexEntryView| entry.response_id != response_id@;
    let mut r: Vec<IndexEntry> = Vec::new();
    proof {
        reveal(Seq::filter);
        assert(index_views(r@) =~= views.take(0).filter(kept));
    }
    for entry in it: index
        invariant
            it.seq() == all,
            views == index_views(all),
            kept == (|entry: IndexEntryView| entry.response_id != response_id@),
            index_views(r@) == views.take(it.index() as int).filter(kept),
    {
        proof {
            lists::lemma_filter_take_succ(views, kept, it.index() as int);
            assert(views[it.index() as int] == entry@);
        }
        if !same_text(entry.response_id.as_str(), response_id) {
            let ghost before = r@;
            r.push(entry);
            assert(index_views(r@) =~= index_views(before).push(entry@));
        }
    }
    assert(views.take(views.len() as int) =~= views);
    r
}

impl Default for ToolCallHistoryStore {
    fn default() -> (r: ToolCallHistoryStore)
        ensures
            r@ == HistoryView::empty(),
            history_laws::wf(r@),
            history_laws::sound(r@),
    {
        ToolCallHistoryStore::new()
    }
}

impl ToolCallHistoryStore {
    /// An empty history.
    pub fn new() -> (r: ToolCallHistoryStore)
        ensures
            r@ == HistoryView::empty(),
            history_laws::wf(r@),
            history_laws::sound(r@),
    {
        let r = ToolCallHistoryStore { responses: Vec::new(), index: Vec::new() };
        assert(r@.responses =~= Seq::empty());
        assert(r@.index =~= Seq::empty());
        r
    }

    /// Where a response stands, or the number of responses.
    fn position(&self, id: &str) -> (r: usize)
        ensures
            r <= self.responses.len(),
            r == self@.position(id@),
    {
        let ghost wanted = |response: CachedResponseView| response.id == id@;
        let mut i: usize = 0;
        while i < self.responses.len() && !same_text(self.responses[i].id.as_str(), id)
            invariant
                i <= self.responses.len(),
                wanted == (|response: CachedResponseView| response.id == id@),
                forall|j: int| 0 <= j < i ==> !wanted(#[trigger] self@.responses[j]),
            decreases self.responses.len() - i,
        {
            i = i + 1;
        }
        proof {
            lists::lemma_first_where(self@.responses, wanted, i as int);
        }
        i
    }

    /// Drops the oldest responses, where there are too many.
    fn evict(&mut self)
        ensures
            final(self)@ == old(self)@.bounded(),
    {
        let ghost start = self@;
        while self.responses.len() > MAX_CACHED_RESPONSES
            invariant
                self@.bounded() == start.bounded(),
            decreases self.responses.len(),
        {
            let ghost before = self@;
            let oldest = self.responses.remove(0);
            let mut index: Vec<IndexEntry> = Vec::new();
            index.append(&mut self.index);
            self.index = without_response(index, oldest.id.as_str());
            proof {
                assert(before.responses[0] == oldest@);
                assert(self@.responses =~= before.responses.skip(1));
            }
        }
    }

    /// Adds tool calls of a response. Where the history is full, the oldest
    /// response makes room for a new one.
    pub fn insert_calls(&mut self, response_id: &str, calls: Vec<CachedCall>)
        ensures
            final(self)@ == old(self)@.with_response(response_id@, call_views(calls@)),
            history_laws::sound(old(self)@) ==> {
                &&& history_laws::sound(final(self)@)
                &&& history_laws::drops_oldest_only(
                    old(self)@,
                    response_id@,
                    call_views(calls@),
                    final(self)@,
                )
            },
    {
        proof {
            if history_laws::sound(self@) {
                history_laws::lemma_inserted(self@, response_id@, call_views(calls@));
            }
        }
        let ghost start = self@;
        let ghost views = call_views(calls@);
        let ghost source = calls@;
        let at: usize = self.position(response_id);
        if at == self.responses.len() {
            let calls: Vec<CachedCall> = Vec::new();
            assert(call_views(calls@) =~= Seq::empty());
            self.responses.push(CachedResponse { id: response_id.to_string(), calls });
        }
        let ghost responses = if at < start.responses.len() {
            start.responses
        } else {
            start.responses.push(CachedResponseView { id: response_id@, calls: Seq::empty() })
        };
        assert(self@.responses =~= responses);
        let ghost step = |known: Seq<CachedCallView>, call: CachedCallView| with_call(known, call);
        let ghost entry_of = |call: CachedCallView|
            IndexEntryView { call_id: call.call_id, response_id: response_id@ };
        let mut cached = self.responses.remove(at);
        let ghost rest = self.responses@;
        assert(cached@ == responses[at as int]);
        proof {
            assert(views.take(0) =~= Seq::empty());
            assert(self@.index =~= start.index + views.take(0).map_values(entry_of));
        }
        for call in it: calls
            invariant
                it.seq() == source,
                views == call_views(source),
                step == (|known: Seq<CachedCallView>, call: CachedCallView|
                    with_call(known, call)),
                entry_of == (|call: CachedCallView|
                    IndexEntryView { call_id: call.call_id, response_id: response_id@ }),
                self.responses@ == rest,
                call_views(cached.calls@) == views.take(it.index() as int).fold_left(
                    responses[at as int].calls,
                    step,
                ),
                index_views(self.index@) == start.index + views.take(
                    it.index() as int,
                ).map_values(entry_of),
        {
            let ghost n = it.index() as int;
            let ghost before = self.index@;
            proof {
                assert(views.take(n + 1).drop_last() =~= views.take(n));
                assert(views[n] == call@);
            }
            let entry = IndexEntry {
                call_id: call.call_id.clone(),
                response_id: response_id.to_string(),
            };
            self.index.push(entry);
            proof {
                assert(entry@ == entry_of(call@));
                assert(index_views(self.index@) =~= index_views(before).push(entry@));
                assert(views.take(n + 1).map_values(entry_of) =~= views.take(n).map_values(
                    entry_of,
                ).push(entry@));
                assert(index_views(self.index@) =~= start.index + views.take(n + 1).map_values(
                    entry_of,
                ));
            }
            insert_call(&mut cached.calls, call);
        }
        let response = CachedResponse { id: response_id.to_string(), calls: cached.calls };
        self.responses.insert(at, response);
        proof {
            assert(views.take(views.len() as int) =~= views);
            assert(self@.responses =~= responses.update(at as int, response@));
        }
        self.evict();
    }

    /// Records tool calls from an upstream response (Responses format).
    /// Call this after receiving a response from the upstream.
    pub fn record_response(&mut self, response: &Json)
        ensures
            final(self)@ == old(self)@.recorded(response@),
            history_laws::wf(old(self)@) ==> history_laws::wf(final(self)@),
    {
        proof {
            if history_laws::wf(self@) {
                history_laws::lemma_recorded_wf(self@, response@);
            }
        }
        let id = response.text_or("id", "");
        if id.unicode_len() == 0 {
            return;
        }
        let calls = collect_calls(response);
        if calls.len() == 0 {
            return;
        }
        self.insert_calls(id, calls);
    }
}

// ── Enriching ──────────────────────────────────────────────────────────────

/// The call with an identifier.
pub open spec fn call_in(calls: Seq<CachedCallView>, call_id: Seq<char>) -> Option<JsonView> {
    let at = lists::first_where(calls, |call: CachedCallView| call.call_id == call_id);
    if at < calls.len() {
        Some(calls[at].item)
    } else {
        None
    }
}

/// The identifiers of the calls whose outputs are among some items.
pub open spec fn output_ids(items: Seq<JsonView>) -> Seq<Seq<char>> {
    items.filter_map(|item: JsonView| output_id(item))
}

/// The identifiers of the calls that are among some items.
pub open spec fn existing_ids(items: Seq<JsonView>) -> Seq<Seq<char>> {
    items.filter_map(|item: JsonView| existing_id(item))
}

pub open spec fn output_id(item: JsonView) -> Option<Seq<char>> {
    if is_output(item) {
        call_id_of(item)
    } else {
        None
    }
}

pub open spec fn existing_id(item: JsonView) -> Option<Seq<char>> {
    if is_call(item) {
        call_id_of(item)
    } else {
        None
    }
}

/// Whether the output of a call is among some items, and the call is not.
pub open spec fn is_missing(items: Seq<JsonView>, call_id: Seq<char>) -> bool {
    output_ids(items).contains(call_id) && !existing_ids(items).contains(call_id)
}

/// Texts without those that came before.
pub open spec fn distinct(ids: Seq<Seq<char>>) -> Seq<Seq<char>> {
    ids.fold_left(Seq::empty(), |seen: Seq<Seq<char>>, id: Seq<char>| with_text(seen, id))
}

pub open spec fn with_text(seen: Seq<Seq<char>>, id: Seq<char>) -> Seq<Seq<char>> {
    if seen.contains(id) {
        seen
    } else {
        seen.push(id)
    }
}

impl HistoryView {
    /// The call with an identifier in a response.
    pub open spec fn held(self, response_id: Seq<char>, call_id: Seq<char>) -> Option<JsonView> {
        let at = self.position(response_id);
        if at < self.responses.len() {
            call_in(self.responses[at].calls, call_id)
        } else {
            None
        }
    }

    /// The call with an identifier, in the response that made it first.
    pub open spec fn indexed(self, call_id: Seq<char>) -> Option<JsonView> {
        let at = lists::first_where(
            self.index,
            |entry: IndexEntryView|
                entry.call_id == call_id && self.held(entry.response_id, call_id) is Some,
        );
        if at < self.index.len() {
            self.held(self.index[at].response_id, call_id)
        } else {
            None
        }
    }

    /// The calls of the response that a request follows, where it is known.
    pub open spec fn previous(self, body: JsonView) -> Option<Seq<CachedCallView>> {
        let id = body.text_or("previous_response_id"@, ""@);
        let at = self.position(id);
        if id.len() > 0 && at < self.responses.len() {
            Some(self.responses[at].calls)
        } else {
            None
        }
    }

    /// The call with an identifier: in the previous response, or else in the
    /// response that made it first.
    pub open spec fn lookup(
        self,
        previous: Option<Seq<CachedCallView>>,
        call_id: Seq<char>,
    ) -> Option<JsonView> {
        match previous {
            Some(calls) => match call_in(calls, call_id) {
                Some(item) => Some(item),
                None => self.indexed(call_id),
            },
            None => self.indexed(call_id),
        }
    }

    pub open spec fn indexed_call(self, call_id: Seq<char>) -> Option<CachedCallView> {
        match self.indexed(call_id) {
            Some(item) => Some(CachedCallView { call_id, item }),
            None => None,
        }
    }

    /// The calls to put before the first output: those that the items miss, in
    /// the order of the previous response, or else of their outputs.
    pub open spec fn restore_group(
        self,
        previous: Option<Seq<CachedCallView>>,
        items: Seq<JsonView>,
    ) -> Seq<CachedCallView> {
        match previous {
            Some(calls) => calls.filter(|call: CachedCallView| is_missing(items, call.call_id)),
            None => distinct(output_ids(items)).filter(
                |id: Seq<char>| is_missing(items, id),
            ).filter_map(|id: Seq<char>| self.indexed_call(id)),
        }
    }

    /// A request with the calls that its outputs need, and the number of calls
    /// that were put in. Where none was, the request stays as it is.
    pub open spec fn enriched(self, body: JsonView) -> (JsonView, int) {
        match request_items(body) {
            Some(items) => {
                let rebuilt = self.rebuilt(body, items);
                if rebuilt.restored > 0 {
                    (
                        json::with_entry(body, "input"@, JsonView::Array(rebuilt.items)),
                        rebuilt.restored,
                    )
                } else {
                    (body, 0)
                }
            },
            None => (body, 0),
        }
    }

    /// The items of a request with the calls that its outputs need.
    pub open spec fn rebuilt(self, body: JsonView, items: Seq<JsonView>) -> RebuiltView {
        let previous = self.previous(body);
        let start = RebuiltView {
            items: Seq::empty(),
            seen: Seq::empty(),
            restored: 0,
            group: self.restore_group(previous, items),
        };
        items.fold_left(
            start,
            |rebuilt: RebuiltView, item: JsonView| rebuilt.after(self, previous, item),
        )
    }
}

/// The items of a Responses request, where it has any.
pub open spec fn request_items(body: JsonView) -> Option<Seq<JsonView>> {
    match body.field("input"@) {
        Some(JsonView::Array(items)) => Some(items),
        Some(JsonView::Object(entries)) => Some(seq![JsonView::Object(entries)]),
        _ => None,
    }
}

/// Items put together anew: the items so far, the identifiers of the calls among
/// them, the number of calls put in, and the calls to put before the first
/// output.
pub struct RebuiltView {
    pub items: Seq<JsonView>,
    pub seen: Seq<Seq<char>>,
    pub restored: int,
    pub group: Seq<CachedCallView>,
}

impl RebuiltView {
    /// The calls that were to be put in are put in.
    pub open spec fn with_group(self) -> RebuiltView {
        RebuiltView {
            items: self.items + self.group.map_values(|call: CachedCallView| call.item),
            seen: self.seen + self.group.map_values(|call: CachedCallView| call.call_id),
            restored: self.restored + self.group.len(),
            group: Seq::empty(),
        }
    }

    /// One item more. A call gets what it lacks from the history. Before an
    /// output stands its call.
    pub open spec fn after(
        self,
        history: HistoryView,
        previous: Option<Seq<CachedCallView>>,
        item: JsonView,
    ) -> RebuiltView {
        if is_call(item) {
            match call_id_of(item) {
                Some(id) => RebuiltView {
                    items: self.items.push(
                        match history.lookup(previous, id) {
                            Some(cached) => filled_from(item, cached),
                            None => item,
                        },
                    ),
                    seen: self.seen.push(id),
                    ..self
                },
                None => RebuiltView { items: self.items.push(item), ..self },
            }
        } else if is_output(item) {
            let grouped = self.with_group();
            let found = match call_id_of(item) {
                Some(id) => if grouped.seen.contains(id) {
                    None
                } else {
                    history.lookup(previous, id)
                },
                None => None,
            };
            match found {
                Some(cached) => RebuiltView {
                    items: grouped.items.push(cached).push(item),
                    seen: grouped.seen.push(call_id_of(item)->0),
                    restored: grouped.restored + 1,
                    group: grouped.group,
                },
                None => RebuiltView { items: grouped.items.push(item), ..grouped },
            }
        } else {
            RebuiltView { items: self.items.push(item), ..self }
        }
    }
}

/// Items put together anew.
struct Rebuilt {
    items: Vec<Json>,
    seen: Vec<String>,
    restored: usize,
    group: Vec<CachedCall>,
}

impl View for Rebuilt {
    type V = RebuiltView;

    closed spec fn view(&self) -> RebuiltView {
        RebuiltView {
            items: json::json_views(self.items@),
            seen: text::texts(self.seen@),
            restored: self.restored as int,
            group: call_views(self.group@),
        }
    }
}

fn output_id_in(item: &Json) -> (r: Option<String>)
    ensures
        json::string_of(r) == output_id(item@),
{
    if is_output_item(item) {
        response_item_call_id(item)
    } else {
        None
    }
}

fn existing_id_in(item: &Json) -> (r: Option<String>)
    ensures
        json::string_of(r) == existing_id(item@),
{
    if is_call_item(item) {
        response_item_call_id(item)
    } else {
        None
    }
}

fn find_call<'a>(calls: &'a Vec<CachedCall>, call_id: &str) -> (r: Option<&'a Json>)
    ensures
        json::view_of(r) == call_in(call_views(calls@), call_id@),
{
    let at: usize = find_cached_call(calls, call_id);
    if at < calls.len() {
        Some(&calls[at].item)
    } else {
        None
    }
}

spec fn calls_view(calls: Option<&Vec<CachedCall>>) -> Option<Seq<CachedCallView>> {
    match calls {
        Some(calls) => Some(call_views(calls@)),
        None => None,
    }
}

fn distinct_texts(ids: &Vec<String>) -> (r: Vec<String>)
    ensures
        text::texts(r@) == distinct(text::texts(ids@)),
{
    let mut r: Vec<String> = Vec::new();
    let ghost views = text::texts(ids@);
    let ghost step = |seen: Seq<Seq<char>>, id: Seq<char>| with_text(seen, id);
    proof {
        assert(views.take(0) =~= Seq::empty());
        assert(text::texts(r@) =~= Seq::empty());
    }
    for i in 0..ids.len()
        invariant
            views == text::texts(ids@),
            step == (|seen: Seq<Seq<char>>, id: Seq<char>| with_text(seen, id)),
            text::texts(r@) == views.take(i as int).fold_left(Seq::empty(), step),
    {
        assert(views.take(i + 1).drop_last() =~= views.take(i as int));
        if !contains_text(&r, ids[i].as_str()) {
            let ghost before = r@;
            r.push(ids[i].clone());
            assert(text::texts(r@) =~= text::texts(before).push(ids@[i as int]@));
        }
    }
    assert(views.take(views.len() as int) =~= views);
    r
}

impl ToolCallHistoryStore {
    fn held(&self, response_id: &str, call_id: &str) -> (r: Option<&Json>)
        ensures
            json::view_of(r) == self@.held(response_id@, call_id@),
    {
        let at: usize = self.position(response_id);
        if at < self.responses.len() {
            find_call(&self.responses[at].calls, call_id)
        } else {
            None
        }
    }

    /// The call with an identifier, in the response that made it first.
    fn unique_fallback_call(&self, call_id: &str) -> (r: Option<&Json>)
        ensures
            json::view_of(r) == self@.indexed(call_id@),
    {
        let ghost wanted = |entry: IndexEntryView|
            entry.call_id == call_id@ && self@.held(entry.response_id, call_id@) is Some;
        for i in 0..self.index.len()
            invariant
                wanted == (|entry: IndexEntryView|
                    entry.call_id == call_id@ && self@.held(entry.response_id, call_id@) is Some),
                forall|j: int| 0 <= j < i ==> !wanted(#[trigger] self@.index[j]),
        {
            if same_text(self.index[i].call_id.as_str(), call_id) {
                let found = self.held(self.index[i].response_id.as_str(), call_id);
                if found.is_some() {
                    proof {
                        lists::lemma_first_where(self@.index, wanted, i as int);
                    }
                    return found;
                }
            }
        }
        proof {
            lists::lemma_first_where(self@.index, wanted, self@.index.len() as int);
        }
        None
    }

    /// The calls of the response that a request follows.
    fn previous_calls(&self, body: &Json) -> (r: Option<&Vec<CachedCall>>)
        ensures
            calls_view(r) == self@.previous(body@),
    {
        let id = body.text_or("previous_response_id", "");
        if id.unicode_len() == 0 {
            return None;
        }
        let at: usize = self.position(id);
        if at < self.responses.len() {
            Some(&self.responses[at].calls)
        } else {
            None
        }
    }

    /// The call with an identifier: in the previous response, or else in the
    /// response that made it first.
    fn lookup<'a>(
        &'a self,
        previous: Option<&'a Vec<CachedCall>>,
        call_id: &str,
    ) -> (r: Option<&'a Json>)
        ensures
            json::view_of(r) == self@.lookup(calls_view(previous), call_id@),
    {
        match previous {
            Some(calls) => match find_call(calls, call_id) {
                Some(item) => Some(item),
                None => self.unique_fallback_call(call_id),
            },
            None => self.unique_fallback_call(call_id),
        }
    }

    /// The calls to put before the first output.
    fn restore_group(&self, previous: Option<&Vec<CachedCall>>, items: &Vec<Json>) -> (r: Vec<
        CachedCall,
    >)
        ensures
            call_views(r@) == self@.restore_group(
                calls_view(previous),
                json::json_views(items@),
            ),
    {
        let ghost views = json::json_views(items@);
        let outputs = json::select_texts(
            items,
            output_id_in,
            Ghost(|item: JsonView| output_id(item)),
        );
        let existing = json::select_texts(
            items,
            existing_id_in,
            Ghost(|item: JsonView| existing_id(item)),
        );
        let mut r: Vec<CachedCall> = Vec::new();
        match previous {
            Some(calls) => {
                let ghost known = call_views(calls@);
                let ghost wanted = |call: CachedCallView| is_missing(views, call.call_id);
                proof {
                    reveal(Seq::filter);
                    assert(call_views(r@) =~= known.take(0).filter(wanted));
                }
                for i in 0..calls.len()
                    invariant
                        known == call_views(calls@),
                        wanted == (|call: CachedCallView| is_missing(views, call.call_id)),
                        text::texts(outputs@) == output_ids(views),
                        text::texts(existing@) == existing_ids(views),
                        call_views(r@) == known.take(i as int).filter(wanted),
                {
                    proof {
                        lists::lemma_filter_take_succ(known, wanted, i as int);
                    }
                    let call_id = calls[i].call_id.as_str();
                    if contains_text(&outputs, call_id) && !contains_text(&existing, call_id) {
                        let ghost before = r@;
                        let call = CachedCall {
                            call_id: call_id.to_string(),
                            item: calls[i].item.clone(),
                        };
                        r.push(call);
                        assert(call_views(r@) =~= call_views(before).push(call@));
                    }
                }
                assert(known.take(known.len() as int) =~= known);
            },
            None => {
                let ids = distinct_texts(&outputs);
                let ghost all = text::texts(ids@);
                let ghost wanted = |id: Seq<char>| is_missing(views, id);
                let ghost pick = |id: Seq<char>| self@.indexed_call(id);
                proof {
                    reveal(Seq::filter);
                    assert(call_views(r@) =~= all.take(0).filter(wanted).filter_map(pick));
                }
                for i in 0..ids.len()
                    invariant
                        all == text::texts(ids@),
                        wanted == (|id: Seq<char>| is_missing(views, id)),
                        pick == (|id: Seq<char>| self@.indexed_call(id)),
                        text::texts(outputs@) == output_ids(views),
                        text::texts(existing@) == existing_ids(views),
                        call_views(r@) == all.take(i as int).filter(wanted).filter_map(pick),
                {
                    let ghost done = all.take(i as int).filter(wanted);
                    proof {
                        lists::lemma_filter_take_succ(all, wanted, i as int);
                        if wanted(all[i as int]) {
                            let more = done.push(all[i as int]);
                            more.lemma_filter_map_take_succ(pick, done.len() as int);
                            assert(more.take(done.len() as int) =~= done);
                            assert(more.take(more.len() as int) =~= more);
                        }
                    }
                    let call_id = ids[i].as_str();
                    if contains_text(&outputs, call_id) && !contains_text(&existing, call_id) {
                        match self.unique_fallback_call(call_id) {
                            Some(item) => {
                                let ghost before = r@;
                                let call = CachedCall {
                                    call_id: call_id.to_string(),
                                    item: item.clone(),
                                };
                                r.push(call);
                                assert(call_views(r@) =~= call_views(before).push(call@));
                            },
                            None => {},
                        }
                    }
                }
                assert(all.take(all.len() as int) =~= all);
            },
        }
        r
    }
}

impl Rebuilt {
    /// Puts in the calls that were to be put before the first output.
    fn put_group(&mut self)
        requires
            old(self).restored <= old(self).items.len(),
        ensures
            final(self)@ == old(self)@.with_group(),
            final(self).restored <= final(self).items.len(),
    {
        let ghost start = self@;
        let mut group: Vec<CachedCall> = Vec::new();
        group.append(&mut self.group);
        let ghost all = group@;
        let ghost views = call_views(all);
        proof {
            assert(views =~= start.group);
            assert(self@.group =~= Seq::empty());
            assert(views.take(0).map_values(|call: CachedCallView| call.item) =~= Seq::empty());
            assert(views.take(0).map_values(|call: CachedCallView| call.call_id) =~= Seq::empty());
        }
        for call in it: group
            invariant
                it.seq() == all,
                views == call_views(all),
                self.restored <= self.items.len(),
                self.restored == start.restored + it.index(),
                call_views(self.group@) == Seq::<CachedCallView>::empty(),
                json::json_views(self.items@) =~= start.items + views.take(
                    it.index() as int,
                ).map_values(|call: CachedCallView| call.item),
                text::texts(self.seen@) =~= start.seen + views.take(
                    it.index() as int,
                ).map_values(|call: CachedCallView| call.call_id),
        {
            let ghost n = it.index() as int;
            let ghost before = self.seen@;
            self.seen.push(call.call_id);
            self.items.push(call.item);
            proof {
                assert(views[n] == call@);
                assert(text::texts(self.seen@) =~= text::texts(before).push(call@.call_id));
                assert(views.take(n + 1) =~= views.take(n).push(call@));
                assert(self.restored < self.items.len());
            }
            self.restored = self.restored + 1;
        }
        assert(views.take(views.len() as int) =~= views);
    }

    /// Adds an item.
    fn push(
        &mut self,
        history: &ToolCallHistoryStore,
        previous: Option<&Vec<CachedCall>>,
        item: Json,
    )
        requires
            old(self).restored <= old(self).items.len(),
        ensures
            final(self)@ == old(self)@.after(history@, calls_view(previous), item@),
            final(self).restored <= final(self).items.len(),
    {
        if is_call_item(&item) {
            let mut item = item;
            match response_item_call_id(&item) {
                Some(call_id) => {
                    match history.lookup(previous, call_id.as_str()) {
                        Some(cached) => {
                            item = enrich_call_item_from_cache(item, cached);
                        },
                        None => {},
                    }
                    let ghost before = self.seen@;
                    self.seen.push(call_id);
                    assert(text::texts(self.seen@) =~= text::texts(before).push(call_id@));
                },
                None => {},
            }
            self.items.push(item);
        } else if is_output_item(&item) {
            self.put_group();
            match response_item_call_id(&item) {
                Some(call_id) => {
                    if !contains_text(&self.seen, call_id.as_str()) {
                        match history.lookup(previous, call_id.as_str()) {
                            Some(cached) => {
                                let ghost before = self.seen@;
                                self.seen.push(call_id);
                                assert(text::texts(self.seen@) =~= text::texts(before).push(
                                    call_id@,
                                ));
                                self.items.push(cached.clone());
                                assert(self.restored < self.items.len());
                                self.restored = self.restored + 1;
                            },
                            None => {},
                        }
                    }
                },
                None => {},
            }
            self.items.push(item);
        } else {
            self.items.push(item);
        }
    }
}

impl ToolCallHistoryStore {
    /// The items of a request with the calls that its outputs need.
    fn rebuild(&self, body: &Json, items: &Vec<Json>) -> (r: Rebuilt)
        ensures
            r@ == self@.rebuilt(body@, json::json_views(items@)),
    {
        let previous = self.previous_calls(body);
        let mut rebuilt = Rebuilt {
            items: Vec::new(),
            seen: Vec::new(),
            restored: 0,
            group: self.restore_group(previous, items),
        };
        let ghost views = json::json_views(items@);
        let ghost start = rebuilt@;
        let ghost step = |r: RebuiltView, item: JsonView|
            r.after(self@, calls_view(previous), item);
        proof {
            assert(start.items =~= Seq::empty());
            assert(start.seen =~= Seq::empty());
            assert(views.take(0) =~= Seq::empty());
        }
        for i in 0..items.len()
            invariant
                views == json::json_views(items@),
                step == (|r: RebuiltView, item: JsonView|
                    r.after(self@, calls_view(previous), item)),
                rebuilt.restored <= rebuilt.items.len(),
                rebuilt@ == views.take(i as int).fold_left(start, step),
        {
            assert(views.take(i + 1).drop_last() =~= views.take(i as int));
            rebuilt.push(self, previous, items[i].clone());
        }
        assert(views.take(views.len() as int) =~= views);
        rebuilt
    }

    /// Enriches a Responses API request body with cached tool calls.
    ///
    /// If the input has `function_call_output` items without preceding
    /// `function_call` items, this method inserts the cached function_call
    /// items, those of the response under `previous_response_id` before any
    /// others. Returns the number of items inserted.
    pub fn enrich_request(&self, body: &mut Json) -> (r: usize)
        ensures
            (final(body)@, r as int) == self@.enriched(old(body)@),
    {
        let rebuilt = match body.get("input") {
            Some(Json::Array(items)) => self.rebuild(body, items),
            Some(input) => match input {
                Json::Object(_) => {
                    let mut items = json::no_items();
                    items.push(input.clone());
                    self.rebuild(body, &items)
                },
                _ => return 0,
            },
            None => return 0,
        };
        if rebuilt.restored > 0 {
            let enriched = body.clone().with_entry("input", Json::Array(rebuilt.items));
            *body = enriched;
            rebuilt.restored
        } else {
            0
        }
    }
}

} // verus!
