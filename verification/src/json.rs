//! JSON values, and their passage from and to text through `serde_json`.

use vstd::prelude::*;

use serde_json::{Number, Value};

use crate::text;

verus! {

/// A JSON value.
#[derive(Debug)]
pub enum Json {
    Null,
    Bool(bool),
    /// A non-negative integer.
    Unsigned(u64),
    /// An integer of either sign.
    Signed(i64),
    /// Any other number, carried as it was read.
    Number(Number),
    Text(String),
    Array(Vec<Json>),
    /// Members by name. Of two members with one name the later one counts.
    Object(Vec<(String, Json)>),
}

/// `serde_json::Number`, a JSON number.
#[verifier::external_type_specification]
#[verifier::external_body]
pub struct ExNumber(Number);

/// `serde_json::Value`, a JSON value.
#[verifier::external_type_specification]
#[verifier::external_body]
pub struct ExValue(Value);

/// `serde_json::Map`, the members of a JSON object.
#[verifier::external_type_specification]
#[verifier::external_body]
#[verifier::reject_recursive_types(K)]
#[verifier::reject_recursive_types(V)]
pub struct ExMap<K, V>(serde_json::Map<K, V>);

/// What a JSON value means: integers are numbers without a width, and an object is a map from
/// names to values.
pub enum JsonView {
    Null,
    Bool(bool),
    Integer(int),
    Number(Number),
    Text(Seq<char>),
    Array(Seq<JsonView>),
    Object(Map<Seq<char>, JsonView>),
}

/// The integer that `Number::as_i128` gives for a number, or `None` where the number is not an
/// integer.
pub uninterp spec fn number_integer(n: Number) -> Option<i128>;

/// What a number means: an integer where it is one, else the number itself.
pub open spec fn number_view(n: Number) -> JsonView {
    match number_integer(n) {
        Some(i) => JsonView::Integer(i as int),
        None => JsonView::Number(n),
    }
}

/// What a JSON value means.
pub open spec fn json_view(j: Json) -> JsonView
    decreases j,
{
    match j {
        Json::Null => JsonView::Null,
        Json::Bool(b) => JsonView::Bool(b),
        Json::Unsigned(u) => JsonView::Integer(u as int),
        Json::Signed(i) => JsonView::Integer(i as int),
        Json::Number(n) => number_view(n),
        Json::Text(s) => JsonView::Text(s@),
        Json::Array(items) => JsonView::Array(items_view(items@)),
        Json::Object(members) => JsonView::Object(members_view(members@)),
    }
}

/// What the items of an array mean, in order.
pub open spec fn items_view(items: Seq<Json>) -> Seq<JsonView>
    decreases items,
{
    if items.len() == 0 {
        Seq::empty()
    } else {
        items_view(items.drop_last()).push(json_view(items.last()))
    }
}

/// What the members of an object mean, as a map from names to values.
pub open spec fn members_view(members: Seq<(String, Json)>) -> Map<Seq<char>, JsonView>
    decreases members,
{
    if members.len() == 0 {
        Map::empty()
    } else {
        members_view(members.drop_last()).insert(members.last().0@, json_view(members.last().1))
    }
}

impl View for Json {
    type V = JsonView;

    open spec fn view(&self) -> JsonView {
        json_view(*self)
    }
}

/// What a `serde_json::Value` holds.
pub uninterp spec fn value_view(v: Value) -> JsonView;

/// What an array of `serde_json` values holds.
pub open spec fn values_view(items: Seq<Value>) -> Seq<JsonView> {
    items.map_values(|v: Value| value_view(v))
}

/// What named `serde_json` values hold, as a map from names to values; of two entries with one
/// name the later one counts.
pub open spec fn entries_view(entries: Seq<(String, Value)>) -> Map<Seq<char>, JsonView>
    decreases entries.len(),
{
    if entries.len() == 0 {
        Map::empty()
    } else {
        entries_view(entries.drop_last()).insert(entries.last().0@, value_view(entries.last().1))
    }
}

/// The outermost layer of a `serde_json::Value`.
pub enum Layer {
    Null,
    Bool(bool),
    Number(Number),
    Text(String),
    Array(Vec<Value>),
    Object(Vec<(String, Value)>),
}

/// What a value with the given outermost layer holds.
pub open spec fn layer_view(layer: Layer) -> JsonView {
    match layer {
        Layer::Null => JsonView::Null,
        Layer::Bool(b) => JsonView::Bool(b),
        Layer::Number(n) => number_view(n),
        Layer::Text(s) => JsonView::Text(s@),
        Layer::Array(items) => JsonView::Array(values_view(items@)),
        Layer::Object(entries) => JsonView::Object(entries_view(entries@)),
    }
}

/// No two entries have the same name.
pub open spec fn distinct_names(entries: Seq<(String, Value)>) -> bool {
    forall|i: int, k: int|
        0 <= i < k < entries.len() ==> #[trigger] entries[i].0@ != #[trigger] entries[k].0@
}

/// Finitely many entries give a finite map.
proof fn lemma_entries_finite(entries: Seq<(String, Value)>)
    ensures
        entries_view(entries).dom().finite(),
    decreases entries.len(),
{
    if entries.len() > 0 {
        lemma_entries_finite(entries.drop_last());
    }
}

/// Among entries with distinct names each one counts.
proof fn lemma_entry_counts(entries: Seq<(String, Value)>, i: int)
    requires
        distinct_names(entries),
        0 <= i < entries.len(),
    ensures
        entries_view(entries).contains_key(entries[i].0@),
        entries_view(entries)[entries[i].0@] == value_view(entries[i].1),
    decreases entries.len(),
{
    if i < entries.len() - 1 {
        assert(entries.drop_last()[i] == entries[i]);
        assert(distinct_names(entries.drop_last())) by {
            assert forall|a: int, b: int|
                0 <= a < b < entries.drop_last().len() implies #[trigger] entries.drop_last()[a].0@
                != #[trigger] entries.drop_last()[b].0@ by {
                assert(entries[a].0@ != entries[b].0@);
            }
        }
        lemma_entry_counts(entries.drop_last(), i);
    }
}

/// Tells the variants of a `serde_json::Value` apart. A value holds what its variant and the
/// fields of that variant say; an object's map is handed out as its entries,
/// one for each name.
#[verifier::external_body]
fn outer_layer(v: Value) -> (layer: Layer)
    ensures
        layer_view(layer) == value_view(v),
        layer matches Layer::Object(entries) ==> distinct_names(entries@),
{
    match v {
        Value::Null => Layer::Null,
        Value::Bool(b) => Layer::Bool(b),
        Value::Number(n) => Layer::Number(n),
        Value::String(s) => Layer::Text(s),
        Value::Array(items) => Layer::Array(items),
        Value::Object(members) => Layer::Object(members.into_iter().collect()),
    }
}

/// `Number::as_i128`: the number as an integer, where it is one.
#[verifier::external_body]
fn integer_of(n: &Number) -> (r: Option<i128>)
    ensures
        r == number_integer(*n),
{
    n.as_i128()
}

/// `Number::clone`: the same number.
pub assume_specification[ <serde_json::Number as Clone>::clone ](
    n: &serde_json::Number,
) -> (r: serde_json::Number)
    ensures
        r == *n,
;

/// Reads a whole `serde_json::Value` into a JSON value.
fn json_of_value(v: Value) -> (j: Json)
    ensures
        j@ == value_view(v),
    decreases value_view(v),
{
    let ghost whole = value_view(v);
    match outer_layer(v) {
        Layer::Null => Json::Null,
        Layer::Bool(b) => Json::Bool(b),
        Layer::Number(n) => match integer_of(&n) {
            Some(i) => if 0 <= i && i <= u64::MAX as i128 {
                Json::Unsigned(i as u64)
            } else if i64::MIN as i128 <= i && i < 0 {
                Json::Signed(i as i64)
            } else {
                Json::Number(n)
            },
            None => Json::Number(n),
        },
        Layer::Text(s) => Json::Text(s),
        Layer::Array(items) => {
            let ghost all = items@;
            let mut out: Vec<Json> = Vec::new();
            for item in it: items
                invariant
                    it.seq() == all,
                    whole == value_view(v),
                    whole == JsonView::Array(values_view(all)),
                    items_view(out@) == values_view(all).take(it.index()),
            {
                proof {
                    let parts = whole->Array_0;
                    assert(value_view(item) == parts[it.index()]);
                    assert(decreases_to!(whole => parts));
                    assert(decreases_to!(parts => parts[it.index()]));
                }
                let ghost before = out@;
                out.push(json_of_value(item));
                assert(out@.drop_last() =~= before);
                assert(values_view(all).take(it.index() + 1) =~= values_view(all).take(
                    it.index(),
                ).push(value_view(item)));
            }
            assert(values_view(all).take(all.len() as int) =~= values_view(all));
            Json::Array(out)
        },
        Layer::Object(entries) => {
            let ghost all = entries@;
            let mut out: Vec<(String, Json)> = Vec::new();
            for entry in it: entries
                invariant
                    it.seq() == all,
                    whole == value_view(v),
                    whole == JsonView::Object(entries_view(all)),
                    distinct_names(all),
                    members_view(out@) == entries_view(all.take(it.index())),
            {
                proof {
                    lemma_entry_counts(all, it.index());
                    lemma_entries_finite(all);
                    let parts = whole->Object_0;
                    assert(decreases_to!(whole => parts));
                    assert(decreases_to!(parts => parts[all[it.index()].0@]));
                }
                let ghost before = out@;
                let (name, value) = entry;
                out.push((name, json_of_value(value)));
                assert(out@.drop_last() =~= before);
                assert(all.take(it.index() + 1).drop_last() =~= all.take(it.index()));
            }
            assert(all.take(all.len() as int) =~= all);
            Json::Object(out)
        },
    }
}

/// `Value::Null` holds null.
#[verifier::external_body]
fn null_value() -> (v: Value)
    ensures
        value_view(v) == JsonView::Null,
{
    Value::Null
}

/// `Value::Bool` holds the given truth value.
#[verifier::external_body]
fn bool_value(b: bool) -> (v: Value)
    ensures
        value_view(v) == JsonView::Bool(b),
{
    Value::Bool(b)
}

/// `Value::from` on a `u64` holds that integer.
#[verifier::external_body]
fn unsigned_value(u: u64) -> (v: Value)
    ensures
        value_view(v) == JsonView::Integer(u as int),
{
    Value::from(u)
}

/// `Value::from` on an `i64` holds that integer.
#[verifier::external_body]
fn signed_value(i: i64) -> (v: Value)
    ensures
        value_view(v) == JsonView::Integer(i as int),
{
    Value::from(i)
}

/// `Value::Number` holds the given number.
#[verifier::external_body]
fn number_value(n: Number) -> (v: Value)
    ensures
        value_view(v) == number_view(n),
{
    Value::Number(n)
}

/// `Value::String` holds the given text.
#[verifier::external_body]
fn text_value(s: String) -> (v: Value)
    ensures
        value_view(v) == JsonView::Text(s@),
{
    Value::String(s)
}

/// `Value::Array` holds the given values in their order.
#[verifier::external_body]
fn array_value(items: Vec<Value>) -> (v: Value)
    ensures
        value_view(v) == JsonView::Array(values_view(items@)),
{
    Value::Array(items)
}

/// What the members of a `serde_json::Map` hold, by their names.
pub uninterp spec fn map_view(m: serde_json::Map<String, Value>) -> Map<Seq<char>, JsonView>;

/// The map without members.
pub open spec fn no_members() -> Map<Seq<char>, JsonView> {
    Map::empty()
}

/// `serde_json::Map::new` has no members.
#[verifier::external_body]
fn new_map() -> (m: serde_json::Map<String, Value>)
    ensures
        map_view(m) == no_members(),
{
    serde_json::Map::new()
}

/// `serde_json::Map::insert` gives the named member the value, in place of the one that it may
/// have had, and leaves the other members as they are.
#[verifier::external_body]
fn insert_member(m: &mut serde_json::Map<String, Value>, name: String, value: Value)
    ensures
        map_view(*final(m)) == map_view(*old(m)).insert(name@, value_view(value)),
{
    m.insert(name, value);
}

/// `Value::Object` holds the given members.
#[verifier::external_body]
fn object_value(m: serde_json::Map<String, Value>) -> (v: Value)
    ensures
        value_view(v) == JsonView::Object(map_view(m)),
{
    Value::Object(m)
}

/// Writes a JSON value as a `serde_json::Value`.
fn value_of_json(j: &Json) -> (v: Value)
    ensures
        value_view(v) == j@,
    decreases j,
{
    match j {
        Json::Null => null_value(),
        Json::Bool(b) => bool_value(*b),
        Json::Unsigned(u) => unsigned_value(*u),
        Json::Signed(i) => signed_value(*i),
        Json::Number(n) => number_value(n.clone()),
        Json::Text(s) => text_value(s.clone()),
        Json::Array(items) => {
            let mut out: Vec<Value> = Vec::new();
            let mut i: usize = 0;
            assert(items@.take(0) =~= Seq::empty());
            while i < items.len()
                invariant
                    *j == Json::Array(*items),
                    i <= items.len(),
                    values_view(out@) == items_view(items@.take(i as int)),
                decreases items.len() - i,
            {
                let ghost before = out@;
                assert(decreases_to!(*j => j->Array_0));
                assert(decreases_to!(*items => items[i as int]));
                out.push(value_of_json(&items[i]));
                assert(values_view(out@) =~= values_view(before).push(json_view(items@[i as int])));
                assert(items@.take(i + 1).drop_last() =~= items@.take(i as int));
                i += 1;
            }
            assert(items@.take(items.len() as int) =~= items@);
            array_value(out)
        },
        Json::Object(members) => {
            let mut out: serde_json::Map<String, Value> = new_map();
            let mut i: usize = 0;
            assert(members@.take(0) =~= Seq::empty());
            while i < members.len()
                invariant
                    *j == Json::Object(*members),
                    i <= members.len(),
                    map_view(out) == members_view(members@.take(i as int)),
                decreases members.len() - i,
            {
                let member: &(String, Json) = &members[i];
                assert(decreases_to!(*j => j->Object_0));
                assert(decreases_to!(*members => members[i as int]));
                assert(decreases_to!(members[i as int] => members[i as int].1));
                insert_member(&mut out, member.0.clone(), value_of_json(&member.1));
                assert(members@.take(i + 1).drop_last() =~= members@.take(i as int));
                i += 1;
            }
            assert(members@.take(members.len() as int) =~= members@);
            object_value(out)
        },
    }
}

/// What `serde_json::from_str` reads from a text as a `serde_json::Value`, or the message of
/// its error.
pub uninterp spec fn parsed_json(text: Seq<char>) -> Result<JsonView, Seq<char>>;

/// `serde_json::from_str` on a `serde_json::Value`: the value that the text denotes, or an
/// error, of which only its message is kept. What is read, and what the message says, depend
/// on the text alone.
#[verifier::external_body]
fn read_value(text: &str) -> (r: Result<Value, String>)
    ensures
        (match r {
            Ok(v) => Ok(value_view(v)),
            Err(e) => Err(e@),
        }) == parsed_json(text@),
{
    match serde_json::from_str::<Value>(text) {
        Ok(v) => Ok(v),
        Err(e) => Err(e.to_string()),
    }
}

/// The text that `serde_json::to_string` writes for a value.
pub uninterp spec fn rendered_json(value: JsonView) -> Seq<char>;

/// `serde_json::to_string` on a `serde_json::Value`. It writes every value, on one line: no
/// character below the space stands in the text, since the compact form has no layout and
/// strings have their control characters escaped.
#[verifier::external_body]
fn write_value(v: &Value) -> (r: Option<String>)
    ensures
        r is Some,
        r->0@ == rendered_json(value_view(*v)),
        forall|i: int| 0 <= i < r->0@.len() ==> #[trigger] r->0@[i] >= ' ',
{
    serde_json::to_string(v).ok()
}

/// Reads a text as JSON, or gives the message that says why it is none.
pub fn parse_json(text: &str) -> (r: Result<Json, String>)
    ensures
        (match r {
            Ok(j) => Ok(j@),
            Err(e) => Err(e@),
        }) == parsed_json(text@),
{
    match read_value(text) {
        Ok(v) => Ok(json_of_value(v)),
        Err(e) => Err(e),
    }
}

/// Writes a JSON value as one line of text.
pub fn render_json(j: &Json) -> (r: Option<String>)
    ensures
        r is Some,
        r->0@ == rendered_json(j@),
        forall|i: int| 0 <= i < r->0@.len() ==> #[trigger] r->0@[i] >= ' ',
{
    write_value(&value_of_json(j))
}

/// The member `name` of a value, where the value is an object that has one.
pub open spec fn member(v: JsonView, name: Seq<char>) -> Option<JsonView> {
    match v {
        JsonView::Object(members) => if members.contains_key(name) {
            Some(members[name])
        } else {
            None
        },
        _ => None,
    }
}

/// The text that a value is, where it is one.
pub open spec fn text_of(v: JsonView) -> Option<Seq<char>> {
    match v {
        JsonView::Text(s) => Some(s),
        _ => None,
    }
}

/// The value as an unsigned integer of 64 bits, where it is one.
pub open spec fn unsigned_of(v: JsonView) -> Option<u64> {
    match v {
        JsonView::Integer(i) => if 0 <= i <= u64::MAX {
            Some(i as u64)
        } else {
            None
        },
        _ => None,
    }
}

impl Clone for Json {
    fn clone(&self) -> (r: Self)
        ensures
            r@ == self@,
        decreases self,
    {
        match self {
            Json::Null => Json::Null,
            Json::Bool(b) => Json::Bool(*b),
            Json::Unsigned(u) => Json::Unsigned(*u),
            Json::Signed(i) => Json::Signed(*i),
            Json::Number(n) => Json::Number(n.clone()),
            Json::Text(s) => Json::Text(s.clone()),
            Json::Array(items) => {
                let mut out: Vec<Json> = Vec::new();
                let mut i: usize = 0;
                assert(items@.take(0) =~= Seq::empty());
                while i < items.len()
                    invariant
                        *self == Json::Array(*items),
                        i <= items.len(),
                        items_view(out@) == items_view(items@.take(i as int)),
                    decreases items.len() - i,
                {
                    let ghost before = out@;
                    let item: &Json = &items[i];
                    assert(decreases_to!(*self => self->Array_0));
                    assert(decreases_to!(*items => items[i as int]));
                    out.push(item.clone());
                    assert(out@.drop_last() =~= before);
                    assert(items@.take(i + 1).drop_last() =~= items@.take(i as int));
                    i += 1;
                }
                assert(items@.take(items.len() as int) =~= items@);
                Json::Array(out)
            },
            Json::Object(members) => {
                let mut out: Vec<(String, Json)> = Vec::new();
                let mut i: usize = 0;
                assert(members@.take(0) =~= Seq::empty());
                while i < members.len()
                    invariant
                        *self == Json::Object(*members),
                        i <= members.len(),
                        members_view(out@) == members_view(members@.take(i as int)),
                    decreases members.len() - i,
                {
                    let ghost before = out@;
                    let item: &(String, Json) = &members[i];
                    assert(decreases_to!(*self => self->Object_0));
                    assert(decreases_to!(*members => members[i as int]));
                    assert(decreases_to!(members[i as int] => members[i as int].1));
                    out.push((item.0.clone(), item.1.clone()));
                    assert(out@.drop_last() =~= before);
                    assert(members@.take(i + 1).drop_last() =~= members@.take(i as int));
                    i += 1;
                }
                assert(members@.take(members.len() as int) =~= members@);
                Json::Object(out)
            },
        }
    }
}

impl Json {
    /// The given text as a JSON value.
    pub fn text(s: &str) -> (r: Json)
        ensures
            r@ == JsonView::Text(s@),
    {
        Json::Text(s.to_owned())
    }

    /// The member `name`, where this is an object that has one.
    pub fn get(&self, name: &str) -> (r: Option<&Json>)
        ensures
            match r {
                Some(j) => member(self@, name@) == Some(j@),
                None => member(self@, name@) is None,
            },
    {
        match self {
            Json::Object(members) => {
                let mut i: usize = members.len();
                assert(members@.take(members.len() as int) =~= members@);
                while i > 0
                    invariant
                        *self == Json::Object(*members),
                        i <= members.len(),
                        members_view(members@).contains_key(name@) == members_view(
                            members@.take(i as int),
                        ).contains_key(name@),
                        members_view(members@).contains_key(name@) ==> members_view(
                            members@,
                        )[name@] == members_view(members@.take(i as int))[name@],
                    decreases i,
                {
                    i -= 1;
                    assert(members@.take(i + 1).drop_last() =~= members@.take(i as int));
                    if text::same_text(members[i].0.as_str(), name) {
                        return Some(&members[i].1);
                    }
                }
                assert(members@.take(0) =~= Seq::empty());
                None
            },
            _ => None,
        }
    }

    /// The text that this value is, where it is one.
    pub fn as_str(&self) -> (r: Option<&str>)
        ensures
            match r {
                Some(s) => text_of(self@) == Some(s@),
                None => text_of(self@) is None,
            },
    {
        match self {
            Json::Text(s) => Some(s.as_str()),
            _ => None,
        }
    }

    /// The value as an unsigned integer of 64 bits, where it is one.
    pub fn as_u64(&self) -> (r: Option<u64>)
        ensures
            r == unsigned_of(self@),
    {
        match self {
            Json::Unsigned(u) => Some(*u),
            Json::Signed(i) => if *i >= 0 {
                Some(*i as u64)
            } else {
                None
            },
            Json::Number(n) => match integer_of(n) {
                Some(i) => if 0 <= i && i <= u64::MAX as i128 {
                    Some(i as u64)
                } else {
                    None
                },
                None => None,
            },
            _ => None,
        }
    }
}

/// The members of an object under construction.
pub struct Members {
    list: Vec<(String, Json)>,
}

impl View for Members {
    type V = Map<Seq<char>, JsonView>;

    closed spec fn view(&self) -> Map<Seq<char>, JsonView> {
        members_view(self.list@)
    }
}

impl Members {
    /// No members.
    pub fn new() -> (r: Members)
        ensures
            r@ == Map::<Seq<char>, JsonView>::empty(),
    {
        Members { list: Vec::new() }
    }

    /// Gives the member `name` the value `value`.
    pub fn set(&mut self, name: &str, value: Json)
        ensures
            final(self)@ == old(self)@.insert(name@, value@),
    {
        let ghost before = self.list@;
        self.list.push((name.to_owned(), value));
        assert(self.list@.drop_last() =~= before);
    }

    /// The object with these members.
    pub fn object(self) -> (r: Json)
        ensures
            r@ == JsonView::Object(self@),
    {
        Json::Object(self.list)
    }
}

/// The items of an array under construction.
pub struct Items {
    list: Vec<Json>,
}

impl View for Items {
    type V = Seq<JsonView>;

    closed spec fn view(&self) -> Seq<JsonView> {
        items_view(self.list@)
    }
}

impl Items {
    /// No items.
    pub fn new() -> (r: Items)
        ensures
            r@ == Seq::<JsonView>::empty(),
    {
        Items { list: Vec::new() }
    }

    /// Puts `value` behind the items.
    pub fn push(&mut self, value: Json)
        ensures
            final(self)@ == old(self)@.push(value@),
    {
        let ghost before = self.list@;
        self.list.push(value);
        assert(self.list@.drop_last() =~= before);
    }

    /// The array with these items.
    pub fn array(self) -> (r: Json)
        ensures
            r@ == JsonView::Array(self@),
    {
        Json::Array(self.list)
    }
}

/// A value that is set under a name is the member of that name, and the members of other names
/// stay as they were. Nothing but an object has members.
pub proof fn law_members_go_by_name(
    members: Map<Seq<char>, JsonView>,
    name: Seq<char>,
    other: Seq<char>,
    v: JsonView,
)
    ensures
        member(JsonView::Object(members.insert(name, v)), name) == Some(v),
        other != name ==> member(JsonView::Object(members.insert(name, v)), other) == member(
            JsonView::Object(members),
            other,
        ),
        member(JsonView::Object(Map::empty()), name) is None,
        !(v is Object) ==> member(v, name) is None,
{
}

/// A value is a text only if it is that very text, and an unsigned integer only if it is that
/// very integer: a number in a text is no number, and neither is a negative one unsigned.
pub proof fn law_values_are_read_by_kind(v: JsonView, t: Seq<char>, u: u64)
    ensures
        text_of(v) == Some(t) <==> v == JsonView::Text(t),
        unsigned_of(v) == Some(u) <==> v == JsonView::Integer(u as int),
        text_of(v) is None <==> !(v is Text),
        unsigned_of(v) is None <==> !(v is Integer) || v->Integer_0 < 0 || v->Integer_0
            > u64::MAX,
{
}

/// What values mean, kind by kind. The width in which an integer is held does not matter. An
/// array means its items one by one, and of the members of an object the later one of a name
/// counts.
pub proof fn law_meaning_goes_by_kind(
    b: bool,
    u: u64,
    i: i64,
    n: Number,
    s: String,
    items: Vec<Json>,
    item: Json,
    members: Seq<(String, Json)>,
    other: Seq<char>,
)
    ensures
        Json::Null@ == JsonView::Null,
        Json::Bool(b)@ == JsonView::Bool(b),
        Json::Unsigned(u)@ == JsonView::Integer(u as int),
        Json::Signed(i)@ == JsonView::Integer(i as int),
        number_integer(n) matches Some(k) ==> Json::Number(n)@ == JsonView::Integer(k as int),
        number_integer(n) is None ==> Json::Number(n)@ == JsonView::Number(n),
        Json::Text(s)@ == JsonView::Text(s@),
        Json::Array(items)@ is Array,
        Json::Array(items)@->Array_0.len() == items@.len(),
        forall|k: int|
            0 <= k < items@.len() ==> #[trigger] Json::Array(items)@->Array_0[k] == items@[k]@,
        member(JsonView::Object(members_view(members.push((s, item)))), s@) == Some(item@),
        other != s@ ==> member(
            JsonView::Object(members_view(members.push((s, item)))),
            other,
        ) == member(JsonView::Object(members_view(members)), other),
        members_view(Seq::empty()) == Map::<Seq<char>, JsonView>::empty(),
{
    lemma_items_by_position(items@);
    assert(members.push((s, item)).drop_last() =~= members);
}

proof fn lemma_items_by_position(items: Seq<Json>)
    ensures
        items_view(items).len() == items.len(),
        forall|k: int| 0 <= k < items.len() ==> #[trigger] items_view(items)[k] == items[k]@,
    decreases items.len(),
{
    if items.len() > 0 {
        lemma_items_by_position(items.drop_last());
    }
}

/// What a `serde_json` value's entries hold goes by name, as the members of an object do: a
/// later entry takes the place of an earlier one of its name and leaves the others alone.
pub proof fn law_later_entries_count(
    entries: Seq<(String, Value)>,
    name: String,
    value: Value,
    other: Seq<char>,
)
    ensures
        entries_view(Seq::empty()) == Map::<Seq<char>, JsonView>::empty(),
        member(JsonView::Object(entries_view(entries.push((name, value)))), name@) == Some(
            value_view(value),
        ),
        other != name@ ==> member(
            JsonView::Object(entries_view(entries.push((name, value)))),
            other,
        ) == member(JsonView::Object(entries_view(entries)), other),
{
    assert(entries.push((name, value)).drop_last() =~= entries);
}

}
