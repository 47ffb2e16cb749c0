//! JSON values: the library's own type, its mathematical model, and the passage
//! from and to text, which `serde_json` performs.

use crate::text::same_text;
use vstd::prelude::*;

verus! {

/// `serde_json::Value`, taken as an opaque type.
#[verifier::external_type_specification]
#[verifier::external_body]
pub struct ExValue(serde_json::Value);

/// `serde_json::Number`, taken as an opaque type.
#[verifier::external_type_specification]
#[verifier::external_body]
pub struct ExNumber(serde_json::Number);

/// A JSON number that is not an integer of 64 bits. It is only ever carried
/// from a parsed text to a printed one.
#[derive(Debug)]
pub struct Fraction {
    number: serde_json::Number,
}

/// A JSON number.
#[derive(Debug)]
pub enum JsonNumber {
    Unsigned(u64),
    Signed(i64),
    Fraction(Fraction),
}

/// What a JSON number is: an integer, or a fraction that nothing looks into.
pub enum NumberView {
    Int(int),
    Fraction(Fraction),
}

impl View for JsonNumber {
    type V = NumberView;

    open spec fn view(&self) -> NumberView {
        match *self {
            JsonNumber::Unsigned(n) => NumberView::Int(n as int),
            JsonNumber::Signed(n) => NumberView::Int(n as int),
            JsonNumber::Fraction(f) => NumberView::Fraction(f),
        }
    }
}

/// A JSON value.
#[derive(Debug)]
pub enum Json {
    Null,
    Bool(bool),
    Number(JsonNumber),
    String(String),
    Array(Vec<Json>),
    Object(Object),
}

/// A JSON object: entries in the order in which their keys were first set.
#[derive(Debug)]
pub struct Object {
    entries: Vec<(String, Json)>,
}

/// What a JSON value is. An object is a map: its entries have no order.
pub enum JsonView {
    Null,
    Bool(bool),
    Number(NumberView),
    String(Seq<char>),
    Array(Seq<JsonView>),
    Object(Map<Seq<char>, JsonView>),
}

pub open spec fn json_view(j: Json) -> JsonView
    decreases j,
{
    match j {
        Json::Null => JsonView::Null,
        Json::Bool(b) => JsonView::Bool(b),
        Json::Number(n) => JsonView::Number(n@),
        Json::String(s) => JsonView::String(s@),
        Json::Array(items) => JsonView::Array(json_views(items@)),
        Json::Object(o) => JsonView::Object(object_view(o)),
    }
}

pub closed spec fn object_view(o: Object) -> Map<Seq<char>, JsonView>
    decreases o,
{
    entries_view(o.entries@)
}

pub closed spec fn json_views(items: Seq<Json>) -> Seq<JsonView>
    decreases items,
{
    Seq::new(items.len(), |i: int| if 0 <= i < items.len() { json_view(items[i]) } else { JsonView::Null })
}

/// The map that a list of entries stands for: of two entries with one key, the
/// later one counts.
pub closed spec fn entries_view(entries: Seq<(String, Json)>) -> Map<Seq<char>, JsonView>
    decreases entries,
{
    if entries.len() == 0 {
        Map::empty()
    } else {
        entries_view(entries.drop_last()).insert(entries.last().0@, json_view(entries.last().1))
    }
}

impl View for Json {
    type V = JsonView;

    open spec fn view(&self) -> JsonView {
        json_view(*self)
    }
}

impl View for Object {
    type V = Map<Seq<char>, JsonView>;

    open spec fn view(&self) -> Map<Seq<char>, JsonView> {
        object_view(*self)
    }
}

impl JsonView {
    /// A JSON string.
    pub open spec fn text(s: Seq<char>) -> JsonView {
        JsonView::String(s)
    }

    /// A JSON integer.
    pub open spec fn integer(n: int) -> JsonView {
        JsonView::Number(NumberView::Int(n))
    }

    /// The entry of an object under a key.
    pub open spec fn field(self, key: Seq<char>) -> Option<JsonView> {
        match self {
            JsonView::Object(m) => if m.dom().contains(key) {
                Some(m[key])
            } else {
                None
            },
            _ => None,
        }
    }

    /// The characters of a JSON string.
    pub open spec fn as_str(self) -> Option<Seq<char>> {
        match self {
            JsonView::String(s) => Some(s),
            _ => None,
        }
    }

    /// The items of a JSON array.
    pub open spec fn as_array(self) -> Option<Seq<JsonView>> {
        match self {
            JsonView::Array(items) => Some(items),
            _ => None,
        }
    }

    /// A JSON number as an unsigned integer of 64 bits, where it is one.
    pub open spec fn as_u64(self) -> Option<u64> {
        match self {
            JsonView::Number(NumberView::Int(n)) => if 0 <= n <= u64::MAX {
                Some(n as u64)
            } else {
                None
            },
            _ => None,
        }
    }

    pub open spec fn as_bool(self) -> Option<bool> {
        match self {
            JsonView::Bool(b) => Some(b),
            _ => None,
        }
    }

    /// The text of the entry under a key.
    pub open spec fn text_at(self, key: Seq<char>) -> Option<Seq<char>> {
        match self.field(key) {
            Some(v) => v.as_str(),
            None => None,
        }
    }

    /// The items of the entry under a key.
    pub open spec fn array_at(self, key: Seq<char>) -> Option<Seq<JsonView>> {
        match self.field(key) {
            Some(v) => v.as_array(),
            None => None,
        }
    }

    /// The entry under a key as an unsigned integer, 0 where it is none.
    pub open spec fn count_at(self, key: Seq<char>) -> u64 {
        match self.field(key) {
            Some(v) => match v.as_u64() {
                Some(n) => n,
                None => 0,
            },
            None => 0,
        }
    }

    /// The text of the entry under a key, or a default where there is no entry
    /// or the entry is no string.
    pub open spec fn text_or(self, key: Seq<char>, default: Seq<char>) -> Seq<char> {
        match self.field(key) {
            Some(JsonView::String(s)) => s,
            _ => default,
        }
    }

    /// The entry under a key, or a default where there is none.
    pub open spec fn field_or(self, key: Seq<char>, default: JsonView) -> JsonView {
        match self.field(key) {
            Some(v) => v,
            None => default,
        }
    }
}

/// No array or object stands inside more than `levels` others, itself counted.
pub open spec fn nested_within(v: JsonView, levels: nat) -> bool
    decreases levels,
{
    match v {
        JsonView::Array(items) => levels > 0 && forall|i: int|
            0 <= i < items.len() ==> nested_within(#[trigger] items[i], (levels - 1) as nat),
        JsonView::Object(m) => levels > 0 && forall|k: Seq<char>|
            m.dom().contains(k) ==> nested_within(#[trigger] m[k], (levels - 1) as nat),
        _ => true,
    }
}

/// The deepest nesting that the JSON parser accepts.
pub const MAX_NESTING: u8 = 127;

/// An object with an entry set; any other value stays as it is.
pub open spec fn with_entry(v: JsonView, key: Seq<char>, value: JsonView) -> JsonView {
    match v {
        JsonView::Object(m) => JsonView::Object(m.insert(key, value)),
        _ => v,
    }
}

/// A map with an entry added, where there is one to add.
pub open spec fn carried(
    m: Map<Seq<char>, JsonView>,
    key: Seq<char>,
    value: Option<JsonView>,
) -> Map<Seq<char>, JsonView> {
    match value {
        Some(v) => m.insert(key, v),
        None => m,
    }
}

pub open spec fn view_of(j: Option<&Json>) -> Option<JsonView> {
    match j {
        Some(v) => Some(v@),
        None => None,
    }
}

pub open spec fn value_of(j: Option<Json>) -> Option<JsonView> {
    match j {
        Some(v) => Some(v@),
        None => None,
    }
}

pub open spec fn string_of(s: Option<String>) -> Option<Seq<char>> {
    match s {
        Some(t) => Some(t@),
        None => None,
    }
}

pub open spec fn text_of(s: Option<&str>) -> Option<Seq<char>> {
    match s {
        Some(t) => Some(t@),
        None => None,
    }
}

pub broadcast proof fn lemma_json_views(items: Seq<Json>)
    ensures
        (#[trigger] json_views(items)).len() == items.len(),
        forall|i: int| 0 <= i < items.len() ==> #[trigger] json_views(items)[i] == items[i]@,
{
    assert forall|i: int| 0 <= i < items.len() implies #[trigger] json_views(items)[i] == items[i]@ by {}
}

pub broadcast proof fn lemma_json_views_push(items: Seq<Json>, item: Json)
    ensures
        #[trigger] json_views(items.push(item)) == json_views(items).push(item@),
{
    broadcast use lemma_json_views;

    assert(json_views(items.push(item)) =~= json_views(items).push(item@));
}

pub broadcast proof fn lemma_json_views_add(a: Seq<Json>, b: Seq<Json>)
    ensures
        #[trigger] json_views(a + b) == json_views(a) + json_views(b),
{
    broadcast use lemma_json_views;

    assert(json_views(a + b) =~= json_views(a) + json_views(b));
}

pub broadcast group group_json_views {
    lemma_json_views,
    lemma_json_views_push,
    lemma_json_views_add,
}

/// The last entry with a key decides what the map holds under it.
proof fn lemma_last_entry(entries: Seq<(String, Json)>, i: int)
    requires
        0 <= i < entries.len(),
        forall|j: int| i < j < entries.len() ==> entries[j].0@ != entries[i].0@,
    ensures
        entries_view(entries).dom().contains(entries[i].0@),
        entries_view(entries)[entries[i].0@] == entries[i].1@,
    decreases entries.len(),
{
    if i < entries.len() - 1 {
        lemma_last_entry(entries.drop_last(), i);
    }
}

proof fn lemma_no_entry(entries: Seq<(String, Json)>, key: Seq<char>)
    requires
        forall|j: int| 0 <= j < entries.len() ==> entries[j].0@ != key,
    ensures
        !entries_view(entries).dom().contains(key),
    decreases entries.len(),
{
    if entries.len() > 0 {
        lemma_no_entry(entries.drop_last(), key);
    }
}

/// To replace the last entry with a key is to insert into the map.
proof fn lemma_replace_entry(entries: Seq<(String, Json)>, i: int, entry: (String, Json))
    requires
        0 <= i < entries.len(),
        entry.0@ == entries[i].0@,
        forall|j: int| i < j < entries.len() ==> entries[j].0@ != entries[i].0@,
    ensures
        entries_view(entries.update(i, entry)) == entries_view(entries).insert(
            entry.0@,
            entry.1@,
        ),
    decreases entries.len(),
{
    let replaced = entries.update(i, entry);
    if i == entries.len() - 1 {
        assert(replaced.drop_last() =~= entries.drop_last());
        assert(entries_view(replaced) =~= entries_view(entries).insert(entry.0@, entry.1@));
    } else {
        lemma_replace_entry(entries.drop_last(), i, entry);
        assert(replaced.drop_last() =~= entries.drop_last().update(i, entry));
        assert(replaced.last() == entries.last());
        assert(entries_view(replaced) =~= entries_view(entries).insert(entry.0@, entry.1@));
    }
}

impl Object {
    pub fn new() -> (r: Object)
        ensures
            r@ == Map::<Seq<char>, JsonView>::empty(),
    {
        Object { entries: Vec::new() }
    }

    /// The index of the last entry under `key`, or the number of entries.
    fn position(&self, key: &str) -> (r: usize)
        ensures
            r <= self.entries.len(),
            r < self.entries.len() ==> self.entries@[r as int].0@ == key@,
            r < self.entries.len() ==> forall|j: int|
                r < j < self.entries.len() ==> (#[trigger] self.entries@[j]).0@ != key@,
            r == self.entries.len() ==> forall|j: int|
                0 <= j < self.entries.len() ==> (#[trigger] self.entries@[j]).0@ != key@,
    {
        let mut i: usize = self.entries.len();
        while i > 0
            invariant
                i <= self.entries.len(),
                forall|j: int|
                    i <= j < self.entries.len() ==> (#[trigger] self.entries@[j]).0@ != key@,
            decreases i,
        {
            i = i - 1;
            if same_text(self.entries[i].0.as_str(), key) {
                return i;
            }
        }
        self.entries.len()
    }

    /// The value under a key.
    pub fn get(&self, key: &str) -> (r: Option<&Json>)
        ensures
            view_of(r) == JsonView::Object(self@).field(key@),
    {
        let i: usize = self.position(key);
        if i < self.entries.len() {
            proof {
                lemma_last_entry(self.entries@, i as int);
            }
            Some(&self.entries[i].1)
        } else {
            proof {
                lemma_no_entry(self.entries@, key@);
            }
            None
        }
    }

    /// This object with a value set under a key.
    pub fn with(self, key: &str, value: Json) -> (r: Object)
        ensures
            r@ == self@.insert(key@, value@),
    {
        let mut r = self;
        r.set(key, value);
        r
    }

    /// Copies the entry of a value under `source`, where there is one, to `key`.
    pub fn carry(&mut self, key: &str, from: &Json, source: &str)
        ensures
            final(self)@ == carried(old(self)@, key@, from@.field(source@)),
    {
        match from.get(source) {
            Some(value) => self.set(key, value.clone()),
            None => {},
        }
    }

    /// Sets the value under a key, in place of any that stood there.
    pub fn set(&mut self, key: &str, value: Json)
        ensures
            final(self)@ == old(self)@.insert(key@, value@),
    {
        let i: usize = self.position(key);
        let entry = (key.to_string(), value);
        if i < self.entries.len() {
            proof {
                lemma_replace_entry(self.entries@, i as int, entry);
            }
            self.entries.set(i, entry);
        } else {
            let ghost before = self.entries@;
            self.entries.push(entry);
            assert(self.entries@.drop_last() =~= before);
        }
    }
}

impl Json {
    pub fn string(text: &str) -> (r: Json)
        ensures
            r@ == JsonView::String(text@),
    {
        Json::String(text.to_string())
    }

    pub fn empty_list() -> (r: Json)
        ensures
            r@ == JsonView::Array(Seq::empty()),
    {
        let items: Vec<Json> = Vec::new();
        assert(json_views(items@) =~= Seq::empty());
        Json::Array(items)
    }

    /// The list of one item.
    pub fn single(item: Json) -> (r: Json)
        ensures
            r@ == JsonView::Array(seq![item@]),
    {
        let mut items: Vec<Json> = Vec::new();
        items.push(item);
        proof {
            broadcast use group_json_views;

            assert(json_views(items@) =~= seq![item@]);
        }
        Json::Array(items)
    }

    pub fn empty_object() -> (r: Json)
        ensures
            r@ == JsonView::Object(Map::empty()),
    {
        Json::Object(Object::new())
    }

    pub fn unsigned(n: u64) -> (r: Json)
        ensures
            r@ == JsonView::Number(NumberView::Int(n as int)),
    {
        Json::Number(JsonNumber::Unsigned(n))
    }

    pub fn get(&self, key: &str) -> (r: Option<&Json>)
        ensures
            view_of(r) == self@.field(key@),
    {
        match self {
            Json::Object(o) => o.get(key),
            _ => None,
        }
    }

    pub fn as_str(&self) -> (r: Option<&str>)
        ensures
            text_of(r) == self@.as_str(),
    {
        match self {
            Json::String(s) => Some(s.as_str()),
            _ => None,
        }
    }

    pub fn as_array(&self) -> (r: Option<&Vec<Json>>)
        ensures
            match r {
                Some(items) => self@ == JsonView::Array(json_views(items@)),
                None => self@.as_array() is None,
            },
    {
        match self {
            Json::Array(items) => Some(items),
            _ => None,
        }
    }

    pub fn as_u64(&self) -> (r: Option<u64>)
        ensures
            r == self@.as_u64(),
    {
        match self {
            Json::Number(JsonNumber::Unsigned(n)) => Some(*n),
            Json::Number(JsonNumber::Signed(n)) => if *n >= 0 {
                Some(*n as u64)
            } else {
                None
            },
            _ => None,
        }
    }

    pub fn as_bool(&self) -> (r: Option<bool>)
        ensures
            r == self@.as_bool(),
    {
        match self {
            Json::Bool(b) => Some(*b),
            _ => None,
        }
    }

    /// This value with an entry set, where it is an object.
    pub fn with_entry(self, key: &str, value: Json) -> (r: Json)
        ensures
            r@ == with_entry(self@, key@, value@),
    {
        match self {
            Json::Object(o) => Json::Object(o.with(key, value)),
            other => other,
        }
    }

    pub fn text_at(&self, key: &str) -> (r: Option<&str>)
        ensures
            text_of(r) == self@.text_at(key@),
    {
        match self.get(key) {
            Some(value) => value.as_str(),
            None => None,
        }
    }

    pub fn array_at(&self, key: &str) -> (r: Option<&Vec<Json>>)
        ensures
            match r {
                Some(items) => self@.array_at(key@) == Some(json_views(items@)),
                None => self@.array_at(key@) is None,
            },
    {
        match self.get(key) {
            Some(value) => value.as_array(),
            None => None,
        }
    }

    pub fn count_at(&self, key: &str) -> (r: u64)
        ensures
            r == self@.count_at(key@),
    {
        match self.get(key) {
            Some(value) => match value.as_u64() {
                Some(n) => n,
                None => 0,
            },
            None => 0,
        }
    }

    /// Whether the entry under a key is a given string.
    pub fn has_text(&self, key: &str, expected: &str) -> (r: bool)
        ensures
            r == (self@.text_at(key@) == Some(expected@)),
    {
        match self.text_at(key) {
            Some(s) => same_text(s, expected),
            None => false,
        }
    }

    /// A copy of the entry under a key, or a default.
    pub fn field_or(&self, key: &str, default: Json) -> (r: Json)
        ensures
            r@ == self@.field_or(key@, default@),
    {
        match self.get(key) {
            Some(value) => value.clone(),
            None => default,
        }
    }

    /// The text under a key, or a default.
    pub fn text_or<'a>(&'a self, key: &str, default: &'a str) -> (r: &'a str)
        ensures
            r@ == self@.text_or(key@, default@),
    {
        match self.get(key) {
            Some(Json::String(s)) => s.as_str(),
            _ => default,
        }
    }
}

/// What a `serde_json::Value` holds.
pub uninterp spec fn value_json(value: serde_json::Value) -> JsonView;

/// The outcome of parsing a text: the value that it denotes, or the message
/// that says why it is no JSON text.
pub enum Parsed {
    Value(JsonView),
    Fault(Seq<char>),
}

/// What `serde_json::from_slice` makes of a text.
pub uninterp spec fn json_parse(text: Seq<u8>) -> Parsed;

/// What `serde_json::to_string` prints for a value.
pub uninterp spec fn json_text(v: JsonView) -> Seq<char>;

/// One layer of a `serde_json::Value`.
enum Layer {
    Null,
    Bool(bool),
    Number(JsonNumber),
    String(String),
    Array(Vec<serde_json::Value>),
    Object(Vec<(String, serde_json::Value)>),
}

spec fn layer_entries(entries: Seq<(String, serde_json::Value)>) -> Map<Seq<char>, JsonView>
    decreases entries.len(),
{
    if entries.len() == 0 {
        Map::empty()
    } else {
        layer_entries(entries.drop_last()).insert(
            entries.last().0@,
            value_json(entries.last().1),
        )
    }
}

spec fn distinct_keys(entries: Seq<(String, serde_json::Value)>) -> bool {
    forall|i: int, j: int|
        0 <= i < j < entries.len() ==> (#[trigger] entries[i]).0@ != (#[trigger] entries[j]).0@
}

proof fn lemma_layer_finite(entries: Seq<(String, serde_json::Value)>)
    ensures
        layer_entries(entries).dom().finite(),
    decreases entries.len(),
{
    if entries.len() > 0 {
        lemma_layer_finite(entries.drop_last());
    }
}

proof fn lemma_layer_entry(entries: Seq<(String, serde_json::Value)>, i: int)
    requires
        0 <= i < entries.len(),
        distinct_keys(entries),
    ensures
        layer_entries(entries).dom().contains(entries[i].0@),
        layer_entries(entries)[entries[i].0@] == value_json(entries[i].1),
    decreases entries.len(),
{
    if i < entries.len() - 1 {
        assert(entries.drop_last()[i] == entries[i]);
        lemma_layer_entry(entries.drop_last(), i);
    }
}

spec fn layer_view(layer: Layer) -> JsonView {
    match layer {
        Layer::Null => JsonView::Null,
        Layer::Bool(b) => JsonView::Bool(b),
        Layer::Number(n) => JsonView::Number(n@),
        Layer::String(s) => JsonView::String(s@),
        Layer::Array(items) => JsonView::Array(
            items@.map_values(|item: serde_json::Value| value_json(item)),
        ),
        Layer::Object(entries) => JsonView::Object(layer_entries(entries@)),
    }
}

/// Calls `serde_json::from_slice`: it parses a text, or reports why it is no
/// JSON text. The parser refuses a text that nests deeper than `MAX_NESTING`.
#[verifier::external_body]
fn parse_value(text: &[u8]) -> (r: Result<serde_json::Value, String>)
    ensures
        match r {
            Ok(value) => json_parse(text@) == Parsed::Value(value_json(value))
                && nested_within(value_json(value), MAX_NESTING as nat),
            Err(message) => json_parse(text@) == Parsed::Fault(message@),
        },
{
    serde_json::from_slice(text).map_err(|e| e.to_string())
}

/// A text without control characters, which neither begins nor ends with white
/// space.
pub open spec fn is_compact(s: Seq<char>) -> bool {
    &&& s.len() > 0
    &&& !crate::text::is_white_space(s[0])
    &&& !crate::text::is_white_space(s.last())
    &&& forall|i: int| 0 <= i < s.len() ==> #[trigger] s[i] >= ' '
}

/// Calls `serde_json::to_string`, which does not fail on a `Value`. It puts no
/// white space around the text or between its parts, and escapes control
/// characters. Parsing the printed text gives the value back, unless it nests
/// too deep to parse.
#[verifier::external_body]
fn print_value(value: &serde_json::Value) -> (r: String)
    ensures
        r@ == json_text(value_json(*value)),
        is_compact(r@),
        nested_within(value_json(*value), MAX_NESTING as nat) ==> json_parse(vstd::utf8::encode_utf8(r@))
            == Parsed::Value(value_json(*value)),
{
    serde_json::to_string(value).unwrap_or_default()
}

/// Tells the variants of `serde_json::Value` apart. The number of a value is
/// read with `as_u64` and `as_i64` of `serde_json::Number`.
#[verifier::external_body]
fn open_value(value: serde_json::Value) -> (r: Layer)
    ensures
        layer_view(r) == value_json(value),
        r matches Layer::Object(entries) ==> distinct_keys(entries@),
{
    match value {
        serde_json::Value::Null => Layer::Null,
        serde_json::Value::Bool(b) => Layer::Bool(b),
        serde_json::Value::Number(n) => Layer::Number(match (n.as_u64(), n.as_i64()) {
            (Some(u), _) => JsonNumber::Unsigned(u),
            (_, Some(i)) => JsonNumber::Signed(i),
            _ => JsonNumber::Fraction(Fraction { number: n }),
        }),
        serde_json::Value::String(s) => Layer::String(s),
        serde_json::Value::Array(items) => Layer::Array(items),
        serde_json::Value::Object(m) => Layer::Object(m.into_iter().collect()),
    }
}

/// Builds a `serde_json::Value` from one layer. Of two entries with one key, a
/// `serde_json::Map` keeps the later one.
#[verifier::external_body]
fn close_value(layer: Layer) -> (r: serde_json::Value)
    ensures
        value_json(r) == layer_view(layer),
{
    match layer {
        Layer::Null => serde_json::Value::Null,
        Layer::Bool(b) => serde_json::Value::Bool(b),
        Layer::Number(JsonNumber::Unsigned(n)) => serde_json::Value::from(n),
        Layer::Number(JsonNumber::Signed(n)) => serde_json::Value::from(n),
        Layer::Number(JsonNumber::Fraction(f)) => serde_json::Value::Number(f.number),
        Layer::String(s) => serde_json::Value::String(s),
        Layer::Array(items) => serde_json::Value::Array(items),
        Layer::Object(entries) => serde_json::Value::Object(entries.into_iter().collect()),
    }
}

/// `clone` of `serde_json::Number` gives an equal number.
pub assume_specification[ <serde_json::Number as Clone>::clone ](n: &serde_json::Number) -> (r: serde_json::Number)
    ensures
        r == *n,
;

fn import(value: serde_json::Value) -> (r: Json)
    ensures
        r@ == value_json(value),
    decreases value_json(value),
{
    match open_value(value) {
        Layer::Null => Json::Null,
        Layer::Bool(b) => Json::Bool(b),
        Layer::Number(n) => Json::Number(n),
        Layer::String(s) => Json::String(s),
        Layer::Array(values) => {
            let ghost all = values@;
            let mut items: Vec<Json> = Vec::new();
            for item in it: values
                invariant
                    it.seq() == all,
                    items@.len() == it.index(),
                    value_json(value) == JsonView::Array(all.map_values(|item: serde_json::Value| value_json(item))),
                    forall|i: int| 0 <= i < items@.len() ==> (#[trigger] items@[i])@ == value_json(all[i]),
            {
                proof {
                    let v = value_json(value);
                    let n = items@.len() as int;
                    assert(v->Array_0[n] == value_json(item));
                    assert(decreases_to!(v => v->Array_0));
                    assert(decreases_to!(v->Array_0 => v->Array_0[n]));
                }
                items.push(import(item));
            }
            proof {
                broadcast use group_json_views;
                assert(json_views(items@) =~= all.map_values(|item: serde_json::Value| value_json(item)));
            }
            Json::Array(items)
        },
        Layer::Object(values) => {
            let ghost all = values@;
            let mut entries: Vec<(String, Json)> = Vec::new();
            for entry in it: values
                invariant
                    it.seq() == all,
                    entries@.len() == it.index(),
                    value_json(value) == JsonView::Object(layer_entries(all)),
                    distinct_keys(all),
                    entries_view(entries@) == layer_entries(all.take(it.index() as int)),
            {
                let ghost before = entries@;
                let (key, item) = entry;
                proof {
                    lemma_layer_entry(all, it.index() as int);
                    lemma_layer_finite(all);
                    let v = value_json(value);
                    assert(decreases_to!(v => v->Object_0));
                    assert(decreases_to!(v->Object_0 => v->Object_0[key@]));
                }
                entries.push((key, import(item)));
                proof {
                    let n = it.index() as int;
                    assert(entries@.drop_last() =~= before);
                    assert(all.take(n + 1).last() == entry);
                    assert(all.take(n + 1).drop_last() =~= all.take(n));
                }
            }
            assert(all.take(all.len() as int) =~= all);
            Json::Object(Object { entries })
        },
    }
}

fn export(j: &Json) -> (r: serde_json::Value)
    ensures
        value_json(r) == j@,
    decreases j,
{
    match j {
        Json::Null => close_value(Layer::Null),
        Json::Bool(b) => close_value(Layer::Bool(*b)),
        Json::Number(n) => close_value(Layer::Number(n.clone())),
        Json::String(s) => close_value(Layer::String(s.clone())),
        Json::Array(items) => {
            let mut values: Vec<serde_json::Value> = Vec::new();
            for i in 0..items.len()
                invariant
                    *j matches Json::Array(all) && all == *items,
                    values@.len() == i,
                    forall|k: int| 0 <= k < i ==> value_json(#[trigger] values@[k]) == items@[k]@,
            {
                values.push(export(&items[i]));
            }
            proof {
                broadcast use group_json_views;

                assert(json_views(items@) =~= values@.map_values(
                    |item: serde_json::Value| value_json(item),
                ));
            }
            close_value(Layer::Array(values))
        },
        Json::Object(o) => {
            let mut values: Vec<(String, serde_json::Value)> = Vec::new();
            for i in 0..o.entries.len()
                invariant
                    *j matches Json::Object(all) && all == *o,
                    values@.len() == i,
                    layer_entries(values@) == entries_view(o.entries@.take(i as int)),
            {
                let ghost before = values@;
                values.push((o.entries[i].0.clone(), export(&o.entries[i].1)));
                proof {
                    assert(values@.drop_last() =~= before);
                    assert(o.entries@.take(i + 1).drop_last() =~= o.entries@.take(i as int));
                }
            }
            assert(o.entries@.take(o.entries@.len() as int) =~= o.entries@);
            close_value(Layer::Object(values))
        },
    }
}

impl Clone for JsonNumber {
    fn clone(&self) -> (r: JsonNumber)
        ensures
            r == *self,
    {
        match self {
            JsonNumber::Unsigned(n) => JsonNumber::Unsigned(*n),
            JsonNumber::Signed(n) => JsonNumber::Signed(*n),
            JsonNumber::Fraction(f) => JsonNumber::Fraction(Fraction { number: f.number.clone() }),
        }
    }
}

impl Clone for Json {
    fn clone(&self) -> (r: Json)
        ensures
            r@ == self@,
        decreases self,
    {
        match self {
            Json::Null => Json::Null,
            Json::Bool(b) => Json::Bool(*b),
            Json::Number(n) => Json::Number(n.clone()),
            Json::String(s) => Json::String(s.clone()),
            Json::Array(items) => {
                let mut copies: Vec<Json> = Vec::new();
                for i in 0..items.len()
                    invariant
                        *self matches Json::Array(all) && all == *items,
                        copies@.len() == i,
                        forall|k: int| 0 <= k < i ==> (#[trigger] copies@[k])@ == items@[k]@,
                {
                    copies.push(items[i].clone());
                }
                proof {
                    broadcast use group_json_views;

                    assert(json_views(items@) =~= json_views(copies@));
                }
                Json::Array(copies)
            },
            Json::Object(o) => {
                let mut copies: Vec<(String, Json)> = Vec::new();
                for i in 0..o.entries.len()
                    invariant
                        *self matches Json::Object(all) && all == *o,
                        copies@.len() == i,
                        entries_view(copies@) == entries_view(o.entries@.take(i as int)),
                {
                    let ghost before = copies@;
                    copies.push((o.entries[i].0.clone(), o.entries[i].1.clone()));
                    proof {
                        assert(copies@.drop_last() =~= before);
                        assert(o.entries@.take(i + 1).drop_last() =~= o.entries@.take(i as int));
                    }
                }
                assert(o.entries@.take(o.entries@.len() as int) =~= o.entries@);
                Json::Object(Object { entries: copies })
            },
        }
    }
}

/// An object with an entry set nests no deeper than the entry allows.
pub proof fn lemma_nested_with_entry(v: JsonView, key: Seq<char>, value: JsonView, levels: nat)
    requires
        nested_within(v, levels),
        levels > 0,
        nested_within(value, (levels - 1) as nat),
    ensures
        nested_within(with_entry(v, key, value), levels),
{
    match v {
        JsonView::Object(m) => {
            let more = m.insert(key, value);
            assert forall|k: Seq<char>| more.dom().contains(k) implies nested_within(
                #[trigger] more[k],
                (levels - 1) as nat,
            ) by {
                if k != key {
                    assert(m.dom().contains(k));
                    assert(nested_within(m[k], (levels - 1) as nat));
                }
            }
        },
        _ => {},
    }
}

/// Parses a JSON text.
pub fn parse_json(text: &[u8]) -> (r: Result<Json, String>)
    ensures
        match r {
            Ok(j) => json_parse(text@) == Parsed::Value(j@) && nested_within(
                j@,
                MAX_NESTING as nat,
            ),
            Err(message) => json_parse(text@) == Parsed::Fault(message@),
        },
{
    match parse_value(text) {
        Ok(value) => Ok(import(value)),
        Err(message) => Err(message),
    }
}

/// Prints a JSON value as a text without spaces or line breaks between its
/// parts. The text parses to the value again, unless the value nests too deep.
pub fn print_json(j: &Json) -> (r: String)
    ensures
        r@ == json_text(j@),
        is_compact(r@),
        nested_within(j@, MAX_NESTING as nat) ==> json_parse(vstd::utf8::encode_utf8(r@)) == Parsed::Value(j@),
{
    print_value(&export(j))
}

/// The list without items.
pub(crate) fn no_items() -> (r: Vec<Json>)
    ensures
        json_views(r@) == Seq::<JsonView>::empty(),
{
    let r: Vec<Json> = Vec::new();
    assert(json_views(r@) =~= Seq::<JsonView>::empty());
    r
}

/// What a function gives for the items of a list, where it gives something.
pub(crate) fn select<F: Fn(&Json) -> Option<Json>>(
    items: &Vec<Json>,
    f: F,
    Ghost(pick): Ghost<spec_fn(JsonView) -> Option<JsonView>>,
) -> (r: Vec<Json>)
    requires
        forall|item: &Json| #[trigger] f.requires((item,)),
        forall|item: &Json, given: Option<Json>| #[trigger]
            f.ensures((item,), given) ==> value_of(given) == pick(item@),
    ensures
        json_views(r@) == json_views(items@).filter_map(pick),
{
    broadcast use group_json_views;

    let mut r: Vec<Json> = Vec::new();
    let ghost views = json_views(items@);
    assert(json_views(r@) =~= views.take(0).filter_map(pick));
    for i in 0..items.len()
        invariant
            views == json_views(items@),
            forall|item: &Json| #[trigger] f.requires((item,)),
            forall|item: &Json, given: Option<Json>| #[trigger]
                f.ensures((item,), given) ==> value_of(given) == pick(item@),
            json_views(r@) == views.take(i as int).filter_map(pick),
    {
        broadcast use group_json_views;

        proof {
            views.lemma_filter_map_take_succ(pick, i as int);
        }
        match f(&items[i]) {
            Some(given) => r.push(given),
            None => {},
        }
    }
    assert(views.take(views.len() as int) =~= views);
    r
}

/// What a function gives for each item of a list.
pub(crate) fn convert<F: Fn(&Json) -> Json>(
    items: &Vec<Json>,
    f: F,
    Ghost(image): Ghost<spec_fn(JsonView) -> JsonView>,
) -> (r: Vec<Json>)
    requires
        forall|item: &Json| #[trigger] f.requires((item,)),
        forall|item: &Json, given: Json| #[trigger]
            f.ensures((item,), given) ==> given@ == image(item@),
    ensures
        json_views(r@) == json_views(items@).map_values(image),
{
    broadcast use group_json_views;

    let mut r: Vec<Json> = Vec::new();
    let ghost views = json_views(items@);
    for i in 0..items.len()
        invariant
            views == json_views(items@),
            forall|item: &Json| #[trigger] f.requires((item,)),
            forall|item: &Json, given: Json| #[trigger]
                f.ensures((item,), given) ==> given@ == image(item@),
            json_views(r@) =~= views.take(i as int).map_values(image),
    {
        broadcast use group_json_views;

        r.push(f(&items[i]));
    }
    assert(views.take(views.len() as int) =~= views);
    r
}

/// What a function gives for the items of a list, one after the other.
pub(crate) fn expand<F: Fn(&Json) -> Vec<Json>>(
    items: &Vec<Json>,
    f: F,
    Ghost(image): Ghost<spec_fn(JsonView) -> Seq<JsonView>>,
) -> (r: Vec<Json>)
    requires
        forall|item: &Json| #[trigger] f.requires((item,)),
        forall|item: &Json, given: Vec<Json>| #[trigger]
            f.ensures((item,), given) ==> json_views(given@) == image(item@),
    ensures
        json_views(r@) == json_views(items@).flat_map(image),
{
    broadcast use group_json_views;

    let mut r: Vec<Json> = Vec::new();
    let ghost views = json_views(items@);
    assert(json_views(r@) =~= views.take(0).flat_map(image));
    for i in 0..items.len()
        invariant
            views == json_views(items@),
            forall|item: &Json| #[trigger] f.requires((item,)),
            forall|item: &Json, given: Vec<Json>| #[trigger]
                f.ensures((item,), given) ==> json_views(given@) == image(item@),
            json_views(r@) == views.take(i as int).flat_map(image),
    {
        broadcast use group_json_views;

        proof {
            views.lemma_flat_map_take_append(image, i as int);
        }
        let mut more = f(&items[i]);
        r.append(&mut more);
    }
    assert(views.take(views.len() as int) =~= views);
    r
}

/// The texts that a function gives for the items of a list, one after the
/// other.
pub(crate) fn gather<F: Fn(&Json) -> String>(
    items: &Vec<Json>,
    f: F,
    Ghost(image): Ghost<spec_fn(JsonView) -> Seq<char>>,
) -> (r: String)
    requires
        forall|item: &Json| #[trigger] f.requires((item,)),
        forall|item: &Json, given: String| #[trigger]
            f.ensures((item,), given) ==> given@ == image(item@),
    ensures
        r@ == json_views(items@).flat_map(image),
{
    broadcast use group_json_views;

    let mut r = String::new();
    let ghost views = json_views(items@);
    assert(r@ =~= views.take(0).flat_map(image));
    for i in 0..items.len()
        invariant
            views == json_views(items@),
            forall|item: &Json| #[trigger] f.requires((item,)),
            forall|item: &Json, given: String| #[trigger]
                f.ensures((item,), given) ==> given@ == image(item@),
            r@ == views.take(i as int).flat_map(image),
    {
        broadcast use group_json_views;

        proof {
            views.lemma_flat_map_take_append(image, i as int);
        }
        r.append(f(&items[i]).as_str());
    }
    assert(views.take(views.len() as int) =~= views);
    r
}

/// The texts that a function gives for the items of a list, where it gives one.
pub(crate) fn select_texts<F: Fn(&Json) -> Option<String>>(
    items: &Vec<Json>,
    f: F,
    Ghost(pick): Ghost<spec_fn(JsonView) -> Option<Seq<char>>>,
) -> (r: Vec<String>)
    requires
        forall|item: &Json| #[trigger] f.requires((item,)),
        forall|item: &Json, given: Option<String>| #[trigger]
            f.ensures((item,), given) ==> string_of(given) == pick(item@),
    ensures
        crate::text::texts(r@) == json_views(items@).filter_map(pick),
{
    broadcast use group_json_views;

    let mut r: Vec<String> = Vec::new();
    let ghost views = json_views(items@);
    assert(crate::text::texts(r@) =~= views.take(0).filter_map(pick));
    for i in 0..items.len()
        invariant
            views == json_views(items@),
            forall|item: &Json| #[trigger] f.requires((item,)),
            forall|item: &Json, given: Option<String>| #[trigger]
                f.ensures((item,), given) ==> string_of(given) == pick(item@),
            crate::text::texts(r@) == views.take(i as int).filter_map(pick),
    {
        broadcast use group_json_views;

        proof {
            views.lemma_filter_map_take_succ(pick, i as int);
        }
        let ghost before = r@;
        match f(&items[i]) {
            Some(given) => {
                r.push(given);
                assert(crate::text::texts(r@) =~= crate::text::texts(before).push(given@));
            },
            None => {},
        }
    }
    assert(views.take(views.len() as int) =~= views);
    r
}

/// What is read of a value: an entry of an object under its key, the characters of
/// a string, the items of an array, an integer that fits; and nothing of a value of
/// another kind.
pub proof fn lemma_read(m: Map<Seq<char>, JsonView>, v: JsonView, key: Seq<char>, n: int)
    ensures
        m.dom().contains(key) ==> JsonView::Object(m).field(key) == Some(m[key]),
        !m.dom().contains(key) ==> JsonView::Object(m).field(key) is None,
        !(v is Object) ==> v.field(key) is None,
        v matches JsonView::String(s) ==> v.as_str() == Some(s),
        !(v is String) ==> v.as_str() is None,
        v matches JsonView::Array(items) ==> v.as_array() == Some(items),
        !(v is Array) ==> v.as_array() is None,
        v matches JsonView::Bool(b) ==> v.as_bool() == Some(b),
        !(v is Bool) ==> v.as_bool() is None,
        0 <= n <= u64::MAX ==> JsonView::Number(NumberView::Int(n)).as_u64() == Some(n as u64),
        n < 0 || n > u64::MAX ==> JsonView::Number(NumberView::Int(n)).as_u64() is None,
        !(v is Number) ==> v.as_u64() is None,
{
}

/// What is read of an entry under a key, where there is one of that kind and where
/// there is none.
pub proof fn lemma_read_entry(v: JsonView, key: Seq<char>, default: Seq<char>, other: JsonView)
    ensures
        v.field(key) matches Some(JsonView::String(s)) ==> v.text_at(key) == Some(s) && v.text_or(
            key,
            default,
        ) == s,
        !(v.field(key) is Some && v.field(key)->0 is String) ==> v.text_at(key) is None
            && v.text_or(key, default) == default,
        v.field(key) matches Some(JsonView::Array(items)) ==> v.array_at(key) == Some(items),
        !(v.field(key) is Some && v.field(key)->0 is Array) ==> v.array_at(key) is None,
        v.field(key) matches Some(JsonView::Number(NumberView::Int(n))) ==> 0 <= n <= u64::MAX
            ==> v.count_at(key) == n,
        !(v.field(key) is Some && v.field(key)->0 is Number) ==> v.count_at(key) == 0,
        v.field(key) matches Some(entry) ==> v.field_or(key, other) == entry,
        v.field(key) is None ==> v.field_or(key, other) == other,
{
}

/// What is written: a string with its characters, a number with its value, and an
/// object with one entry more, which counts from then on.
pub proof fn lemma_written(
    s: Seq<char>,
    n: int,
    m: Map<Seq<char>, JsonView>,
    key: Seq<char>,
    value: JsonView,
    other: Seq<char>,
)
    ensures
        JsonView::text(s) == JsonView::String(s),
        JsonView::integer(n) == JsonView::Number(NumberView::Int(n)),
        with_entry(JsonView::Object(m), key, value).field(key) == Some(value),
        other != key ==> with_entry(JsonView::Object(m), key, value).field(other)
            == JsonView::Object(m).field(other),
        JsonView::Object(carried(m, key, Some(value))).field(key) == Some(value),
        carried(m, key, None) == m,
{
}

/// What a JSON value is: each kind stands for its own, an array for its items, one
/// by one.
pub proof fn lemma_view(b: bool, n: u64, s: String, items: Vec<Json>)
    ensures
        Json::Null@ == JsonView::Null,
        Json::Bool(b)@ == JsonView::Bool(b),
        Json::Number(JsonNumber::Unsigned(n))@ == JsonView::Number(NumberView::Int(n as int)),
        Json::String(s)@ == JsonView::String(s@),
        Json::Array(items)@ matches JsonView::Array(views) && views.len() == items@.len()
            && forall|i: int| 0 <= i < items@.len() ==> #[trigger] views[i] == items@[i]@,
{
    broadcast use lemma_json_views;

}

} // verus!
