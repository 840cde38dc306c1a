//! JSON values, what they hold, and the way to and from `serde_json`.

use vstd::prelude::*;
use crate::text;
use crate::text::{owned, same_text};

verus! {

/// A JSON number: a non-negative integer, a negative integer, or a float by
/// the text it is written as.
pub enum NumberView {
    Unsigned(u64),
    Negative(i64),
    Float(Seq<char>),
}

/// A JSON value as mathematics. An object is a map, so the order of its
/// entries is no part of the value.
pub enum JsonView {
    Null,
    Bool(bool),
    Number(NumberView),
    Str(Seq<char>),
    Array(Seq<JsonView>),
    Object(Map<Seq<char>, JsonView>),
}

impl JsonView {
    /// The entry of an object under `key`; nothing has entries but an object.
    pub open spec fn get(self, key: Seq<char>) -> Option<JsonView> {
        match self {
            JsonView::Object(map) => if map.dom().contains(key) {
                Some(map[key])
            } else {
                None
            },
            _ => None,
        }
    }

    /// The entry under `key`, or null.
    pub open spec fn get_or_null(self, key: Seq<char>) -> JsonView {
        match self.get(key) {
            Some(entry) => entry,
            None => JsonView::Null,
        }
    }

    /// The text of a string.
    pub open spec fn string(self) -> Option<Seq<char>> {
        match self {
            JsonView::Str(s) => Some(s),
            _ => None,
        }
    }

    /// The number, where it is a non-negative integer.
    pub open spec fn unsigned(self) -> Option<u64> {
        match self {
            JsonView::Number(NumberView::Unsigned(n)) => Some(n),
            _ => None,
        }
    }

    /// The elements of an array.
    pub open spec fn items(self) -> Option<Seq<JsonView>> {
        match self {
            JsonView::Array(items) => Some(items),
            _ => None,
        }
    }

    /// The text under `key`, where there is one.
    pub open spec fn string_at(self, key: Seq<char>) -> Option<Seq<char>> {
        match self.get(key) {
            Some(entry) => entry.string(),
            None => None,
        }
    }

    /// Whether the entry under `key` is `true`.
    pub open spec fn true_at(self, key: Seq<char>) -> bool {
        self.get(key) == Some(JsonView::Bool(true))
    }

    /// Whether arrays and objects stand at most `levels` deep inside one
    /// another.
    pub open spec fn nested_within(self, levels: nat) -> bool
        decreases levels,
    {
        match self {
            JsonView::Array(items) => levels > 0 && forall|i: int|
                0 <= i < items.len() ==> (#[trigger] items[i]).nested_within((levels - 1) as nat),
            JsonView::Object(map) => levels > 0 && forall|key: Seq<char>|
                map.dom().contains(key) ==> (#[trigger] map[key]).nested_within(
                    (levels - 1) as nat,
                ),
            _ => true,
        }
    }

    /// Whether every number in the value is an integer.
    pub open spec fn float_free(self) -> bool
        decreases self,
    {
        match self {
            JsonView::Number(NumberView::Float(_)) => false,
            JsonView::Array(items) => forall|i: int|
                0 <= i < items.len() ==> (#[trigger] items[i]).float_free(),
            JsonView::Object(map) => forall|key: Seq<char>|
                map.dom().contains(key) ==> (#[trigger] map[key]).float_free(),
            _ => true,
        }
    }
}

/// How many arrays and objects deep JSON text may nest for it to be read.
pub open spec fn nesting_limit() -> nat {
    127
}

/// A JSON value. In an object the last entry under a key is the one that
/// counts.
pub enum Json {
    Null,
    Bool(bool),
    Number(serde_json::Number),
    Str(String),
    Array(Vec<Json>),
    Object(Vec<(String, Json)>),
}

impl Json {
    /// What the value holds.
    pub open spec fn tree(self) -> JsonView
        decreases self,
    {
        match self {
            Json::Null => JsonView::Null,
            Json::Bool(b) => JsonView::Bool(b),
            Json::Number(number) => JsonView::Number(number_form(number)),
            Json::Str(s) => JsonView::Str(s@),
            Json::Array(items) => JsonView::Array(trees(items@)),
            Json::Object(entries) => JsonView::Object(entry_map(entries@)),
        }
    }
}

impl View for Json {
    type V = JsonView;

    open spec fn view(&self) -> JsonView {
        self.tree()
    }
}

/// What the elements of a list hold.
pub open spec fn trees(items: Seq<Json>) -> Seq<JsonView>
    decreases items,
{
    Seq::new(
        items.len(),
        |i: int|
            if 0 <= i < items.len() {
                items[i].tree()
            } else {
                JsonView::Null
            },
    )
}

/// The map that a list of entries stands for.
pub open spec fn entry_map(entries: Seq<(String, Json)>) -> Map<Seq<char>, JsonView>
    decreases entries,
{
    if entries.len() == 0 {
        Map::empty()
    } else {
        entry_map(entries.drop_last()).insert(entries.last().0@, entries.last().1.tree())
    }
}

/// `serde_json::Number`: an integer or a finite float.
#[verifier::external_type_specification]
#[verifier::external_body]
pub struct ExNumber(serde_json::Number);

/// `serde_json::Value`: any JSON value.
#[verifier::external_type_specification]
#[verifier::external_body]
pub struct ExValue(serde_json::Value);

/// What a `serde_json::Number` holds.
pub uninterp spec fn number_form(number: serde_json::Number) -> NumberView;

/// What a `serde_json::Value` holds.
pub uninterp spec fn value_tree(value: serde_json::Value) -> JsonView;

/// The value that `serde_json::from_str` reads from a text, if it reads one.
pub uninterp spec fn json_of_text(text: Seq<char>) -> Option<JsonView>;

/// The text that `serde_json::to_string_pretty` writes for a value, if it
/// writes one.
pub uninterp spec fn pretty_text(tree: JsonView) -> Option<Seq<char>>;

/// The line that a `serde_json::Value` is displayed as.
pub uninterp spec fn line_text(tree: JsonView) -> Seq<char>;

/// The form of a signed integer as a JSON number.
pub open spec fn signed_form(n: int) -> NumberView {
    if n >= 0 {
        NumberView::Unsigned(n as u64)
    } else {
        NumberView::Negative(n as i64)
    }
}

/// `serde_json::Number::as_u64`: the number, if it is a non-negative integer.
#[verifier::external_body]
fn number_as_u64(number: &serde_json::Number) -> (value: Option<u64>)
    ensures
        value == JsonView::Number(number_form(*number)).unsigned(),
{
    number.as_u64()
}

/// `serde_json::Number::from` on a `u64`: that integer.
#[verifier::external_body]
fn number_from_u64(n: u64) -> (number: serde_json::Number)
    ensures
        number_form(number) == NumberView::Unsigned(n),
{
    serde_json::Number::from(n)
}

/// `serde_json::Number::from` on an `i32`: that integer.
#[verifier::external_body]
fn number_from_i32(n: i32) -> (number: serde_json::Number)
    ensures
        number_form(number) == signed_form(n as int),
{
    serde_json::Number::from(n)
}

/// `serde_json::Number::clone`: the same number.
#[verifier::external_body]
fn number_clone(number: &serde_json::Number) -> (copy: serde_json::Number)
    ensures
        number_form(copy) == number_form(*number),
{
    number.clone()
}

/// The variants of a `serde_json::Value`, with what they hold.
enum Parts<'a> {
    Null,
    Bool(bool),
    Number(&'a serde_json::Number),
    Str(&'a String),
    Array(&'a Vec<serde_json::Value>),
    Object(Vec<(&'a String, &'a serde_json::Value)>),
}

/// The map that a list of `serde_json` entries stands for.
spec fn value_map(entries: Seq<(&String, &serde_json::Value)>) -> Map<Seq<char>, JsonView>
    decreases entries.len(),
{
    if entries.len() == 0 {
        Map::empty()
    } else {
        value_map(entries.drop_last()).insert(entries.last().0@, value_tree(*entries.last().1))
    }
}

impl<'a> Parts<'a> {
    spec fn tree(self) -> JsonView {
        match self {
            Parts::Null => JsonView::Null,
            Parts::Bool(b) => JsonView::Bool(b),
            Parts::Number(number) => JsonView::Number(number_form(*number)),
            Parts::Str(s) => JsonView::Str(s@),
            Parts::Array(items) => JsonView::Array(
                items@.map_values(|v: serde_json::Value| value_tree(v)),
            ),
            Parts::Object(entries) => JsonView::Object(value_map(entries@)),
        }
    }
}

/// The variants of `serde_json::Value` told apart. An object comes as the list
/// of its entries, no key twice.
#[verifier::external_body]
fn value_parts(value: &serde_json::Value) -> (parts: Parts<'_>)
    ensures
        parts.tree() == value_tree(*value),
        parts matches Parts::Object(entries) ==> forall|i: int, j: int|
            0 <= i < j < entries@.len() ==> (#[trigger] entries@[i]).0@ != (#[trigger] entries@[j]).0@,
{
    match value {
        serde_json::Value::Null => Parts::Null,
        serde_json::Value::Bool(b) => Parts::Bool(*b),
        serde_json::Value::Number(number) => Parts::Number(number),
        serde_json::Value::String(s) => Parts::Str(s),
        serde_json::Value::Array(items) => Parts::Array(items),
        serde_json::Value::Object(map) => Parts::Object(map.iter().collect()),
    }
}

/// `serde_json::Value::Null`.
#[verifier::external_body]
fn value_null() -> (value: serde_json::Value)
    ensures
        value_tree(value) == JsonView::Null,
{
    serde_json::Value::Null
}

/// `serde_json::Value::Bool`.
#[verifier::external_body]
fn value_bool(b: bool) -> (value: serde_json::Value)
    ensures
        value_tree(value) == JsonView::Bool(b),
{
    serde_json::Value::Bool(b)
}

/// `serde_json::Value::Number`.
#[verifier::external_body]
fn value_number(number: serde_json::Number) -> (value: serde_json::Value)
    ensures
        value_tree(value) == JsonView::Number(number_form(number)),
{
    serde_json::Value::Number(number)
}

/// `serde_json::Value::String`.
#[verifier::external_body]
fn value_string(s: String) -> (value: serde_json::Value)
    ensures
        value_tree(value) == JsonView::Str(s@),
{
    serde_json::Value::String(s)
}

/// `serde_json::Value::Array`.
#[verifier::external_body]
fn value_array(items: Vec<serde_json::Value>) -> (value: serde_json::Value)
    ensures
        value_tree(value) == JsonView::Array(
            items@.map_values(|v: serde_json::Value| value_tree(v)),
        ),
{
    serde_json::Value::Array(items)
}

/// `serde_json::Value::Object` on an empty `serde_json::Map`.
#[verifier::external_body]
fn value_object() -> (value: serde_json::Value)
    ensures
        value_tree(value) == JsonView::Object(Map::empty()),
{
    serde_json::Value::Object(serde_json::Map::new())
}

/// `IndexMut` of `serde_json::Value` with a string: the entry of an object
/// under `key` becomes `entry`, whether or not there was one before.
#[verifier::external_body]
fn value_set(value: &mut serde_json::Value, key: &str, entry: serde_json::Value)
    requires
        value_tree(*old(value)) is Object,
    ensures
        value_tree(*final(value)) == JsonView::Object(
            value_tree(*old(value))->Object_0.insert(key@, value_tree(entry)),
        ),
{
    value[key] = entry;
}

/// `serde_json::from_str` into a `serde_json::Value`: the value is a function
/// of the text, and text that nests too deep is refused.
#[verifier::external_body]
fn read_value(text: &str) -> (value: Option<serde_json::Value>)
    ensures
        match value {
            Some(v) => {
                &&& json_of_text(text@) == Some(value_tree(v))
                &&& value_tree(v).nested_within(nesting_limit())
            },
            None => json_of_text(text@) is None,
        },
{
    serde_json::from_str(text).ok()
}

/// `serde_json::to_string_pretty` of a `serde_json::Value`: it never fails, and
/// the text is a function of the value. Reading it gives the value back, if the value has no
/// floats and nests no deeper than can be read. In any case what is read back
/// of an object is an object with the same keys and the same strings.
#[verifier::external_body]
fn write_value(value: &serde_json::Value) -> (text: Option<String>)
    ensures
        text is Some,
        match text {
            Some(t) => {
                let tree = value_tree(*value);
                &&& pretty_text(tree) == Some(t@)
                &&& tree.float_free() && tree.nested_within(nesting_limit()) ==> json_of_text(t@)
                    == Some(tree)
                &&& tree is Object && json_of_text(t@) is Some ==> same_keys_and_strings(
                    tree,
                    json_of_text(t@)->0,
                )
            },
            None => pretty_text(value_tree(*value)) is None,
        },
{
    serde_json::to_string_pretty(value).ok()
}

/// `to_string` of a `serde_json::Value`, by its `Display`: the line is a
/// function of the value.
#[verifier::external_body]
fn value_line(value: &serde_json::Value) -> (line: String)
    ensures
        line@ == line_text(value_tree(*value)),
{
    value.to_string()
}

/// Whether two objects have the same keys, and under each key the same text or
/// both no text.
pub open spec fn same_keys_and_strings(a: JsonView, b: JsonView) -> bool {
    &&& a is Object
    &&& b is Object
    &&& a->Object_0.dom() == b->Object_0.dom()
    &&& forall|key: Seq<char>| a.string_at(key) == #[trigger] b.string_at(key)
}

/// A list of entries stands for a finite map.
proof fn lemma_value_map(entries: Seq<(&String, &serde_json::Value)>)
    requires
        forall|i: int, j: int|
            0 <= i < j < entries.len() ==> (#[trigger] entries[i]).0@ != (#[trigger] entries[j]).0@,
    ensures
        value_map(entries).dom().finite(),
        forall|key: Seq<char>|
            value_map(entries).dom().contains(key) ==> exists|i: int|
                0 <= i < entries.len() && (#[trigger] entries[i]).0@ == key,
        forall|i: int|
            0 <= i < entries.len() ==> value_map(entries).dom().contains(
                (#[trigger] entries[i]).0@,
            ) && value_map(entries)[entries[i].0@] == value_tree(*entries[i].1),
    decreases entries.len(),
{
    if entries.len() > 0 {
        let init = entries.drop_last();
        lemma_value_map(init);
        assert forall|i: int| 0 <= i < entries.len() implies value_map(entries).dom().contains(
            (#[trigger] entries[i]).0@,
        ) && value_map(entries)[entries[i].0@] == value_tree(*entries[i].1) by {
            if i < init.len() {
                assert(init[i] == entries[i]);
            }
        }
        assert forall|key: Seq<char>| value_map(entries).dom().contains(key) implies exists|i: int|
            0 <= i < entries.len() && (#[trigger] entries[i]).0@ == key by {
            if key == entries.last().0@ {
                assert(entries[entries.len() - 1].0@ == key);
            } else {
                assert(value_map(init).dom().contains(key));
                let i = choose|i: int| 0 <= i < init.len() && (#[trigger] init[i]).0@ == key;
                assert(entries[i].0@ == key);
            }
        }
    }
}

impl Json {
    /// The value that a `serde_json::Value` holds.
    pub fn from_value(value: &serde_json::Value) -> (json: Json)
        ensures
            json@ == value_tree(*value),
        decreases value_tree(*value),
    {
        match value_parts(value) {
            Parts::Null => Json::Null,
            Parts::Bool(b) => Json::Bool(b),
            Parts::Number(number) => Json::Number(number_clone(number)),
            Parts::Str(s) => Json::Str(owned(s.as_str())),
            Parts::Array(items) => {
                let mut copies: Vec<Json> = Vec::new();
                let mut i: usize = 0;
                let ghost all = items@.map_values(|v: serde_json::Value| value_tree(v));
                while i < items.len()
                    invariant
                        i <= items@.len(),
                        all == items@.map_values(|v: serde_json::Value| value_tree(v)),
                        value_tree(*value) == JsonView::Array(all),
                        copies@.len() == i,
                        forall|k: int| 0 <= k < i ==> (#[trigger] copies@[k]).tree() == all[k],
                    decreases items@.len() - i,
                {
                    assert(decreases_to!(value_tree(*value) => all[i as int])) by {
                        assert(decreases_to!(value_tree(*value) => value_tree(*value)->Array_0));
                    }
                    let copy: Json = Json::from_value(&items[i]);
                    copies.push(copy);
                    i = i + 1;
                }
                assert(trees(copies@) =~= all);
                Json::Array(copies)
            },
            Parts::Object(entries) => {
                let mut copies: Vec<(String, Json)> = Vec::new();
                let mut i: usize = 0;
                proof {
                    lemma_value_map(entries@);
                    assert(entries@.take(0) =~= Seq::empty());
                }
                while i < entries.len()
                    invariant
                        i <= entries@.len(),
                        value_tree(*value) == JsonView::Object(value_map(entries@)),
                        value_map(entries@).dom().finite(),
                        forall|k: int|
                            0 <= k < entries@.len() ==> value_map(entries@).dom().contains(
                                (#[trigger] entries@[k]).0@,
                            ) && value_map(entries@)[entries@[k].0@] == value_tree(*entries@[k].1),
                        entry_map(copies@) == value_map(entries@.take(i as int)),
                    decreases entries@.len() - i,
                {
                    let ghost key = entries@[i as int].0@;
                    assert(decreases_to!(value_tree(*value) => value_map(entries@)[key])) by {
                        assert(decreases_to!(value_tree(*value) => value_tree(*value)->Object_0));
                    }
                    let copy: Json = Json::from_value(entries[i].1);
                    let ghost before = copies@;
                    copies.push((owned(entries[i].0.as_str()), copy));
                    proof {
                        assert(copies@.drop_last() =~= before);
                        assert(entries@.take(i + 1).drop_last() =~= entries@.take(i as int));
                    }
                    i = i + 1;
                }
                assert(entries@.take(i as int) =~= entries@);
                Json::Object(copies)
            },
        }
    }

    /// The `serde_json::Value` that holds this value.
    pub fn to_value(&self) -> (value: serde_json::Value)
        ensures
            value_tree(value) == self@,
        decreases self,
    {
        match self {
            Json::Null => value_null(),
            Json::Bool(b) => value_bool(*b),
            Json::Number(number) => value_number(number_clone(number)),
            Json::Str(s) => value_string(owned(s.as_str())),
            Json::Array(items) => {
                let mut values: Vec<serde_json::Value> = Vec::new();
                let mut i: usize = 0;
                while i < items.len()
                    invariant
                        i <= items@.len(),
                        *self == Json::Array(*items),
                        values@.len() == i,
                        forall|k: int|
                            0 <= k < i ==> value_tree(#[trigger] values@[k]) == items@[k].tree(),
                    decreases items@.len() - i,
                {
                    assert(decreases_to!(self => items@[i as int])) by {
                        assert(decreases_to!(self => self->Array_0));
                        assert(decreases_to!(*items => items@));
                    }
                    let value: serde_json::Value = items[i].to_value();
                    values.push(value);
                    i = i + 1;
                }
                assert(values@.map_values(|v: serde_json::Value| value_tree(v)) =~= trees(items@));
                value_array(values)
            },
            Json::Object(entries) => {
                let mut value: serde_json::Value = value_object();
                let mut i: usize = 0;
                assert(entries@.take(0) =~= Seq::empty());
                while i < entries.len()
                    invariant
                        i <= entries@.len(),
                        *self == Json::Object(*entries),
                        value_tree(value) == JsonView::Object(entry_map(entries@.take(i as int))),
                    decreases entries@.len() - i,
                {
                    assert(decreases_to!(self => entries@[i as int].1)) by {
                        assert(decreases_to!(self => self->Object_0));
                        assert(decreases_to!(*entries => entries@));
                        assert(decreases_to!(entries@ => entries@[i as int]));
                    }
                    let entry: serde_json::Value = entries[i].1.to_value();
                    value_set(&mut value, entries[i].0.as_str(), entry);
                    assert(entries@.take(i + 1).drop_last() =~= entries@.take(i as int));
                    i = i + 1;
                }
                assert(entries@.take(i as int) =~= entries@);
                value
            },
        }
    }

    /// A copy of the value.
    pub fn copy(&self) -> (copy: Json)
        ensures
            copy@ == self@,
        decreases self,
    {
        match self {
            Json::Null => Json::Null,
            Json::Bool(b) => Json::Bool(*b),
            Json::Number(number) => Json::Number(number_clone(number)),
            Json::Str(s) => Json::Str(owned(s.as_str())),
            Json::Array(items) => {
                let mut copies: Vec<Json> = Vec::new();
                let mut i: usize = 0;
                while i < items.len()
                    invariant
                        i <= items@.len(),
                        *self == Json::Array(*items),
                        copies@.len() == i,
                        forall|k: int|
                            0 <= k < i ==> (#[trigger] copies@[k]).tree() == items@[k].tree(),
                    decreases items@.len() - i,
                {
                    assert(decreases_to!(self => items@[i as int])) by {
                        assert(decreases_to!(self => self->Array_0));
                        assert(decreases_to!(*items => items@));
                    }
                    let copy: Json = items[i].copy();
                    copies.push(copy);
                    i = i + 1;
                }
                assert(trees(copies@) =~= trees(items@));
                Json::Array(copies)
            },
            Json::Object(entries) => {
                let mut copies: Vec<(String, Json)> = Vec::new();
                let mut i: usize = 0;
                assert(entries@.take(0) =~= Seq::empty());
                while i < entries.len()
                    invariant
                        i <= entries@.len(),
                        *self == Json::Object(*entries),
                        entry_map(copies@) == entry_map(entries@.take(i as int)),
                    decreases entries@.len() - i,
                {
                    assert(decreases_to!(self => entries@[i as int].1)) by {
                        assert(decreases_to!(self => self->Object_0));
                        assert(decreases_to!(*entries => entries@));
                        assert(decreases_to!(entries@ => entries@[i as int]));
                    }
                    let copy: Json = entries[i].1.copy();
                    let ghost before = copies@;
                    copies.push((owned(entries[i].0.as_str()), copy));
                    proof {
                        assert(copies@.drop_last() =~= before);
                        assert(entries@.take(i + 1).drop_last() =~= entries@.take(i as int));
                    }
                    i = i + 1;
                }
                assert(entries@.take(i as int) =~= entries@);
                Json::Object(copies)
            },
        }
    }
}

/// Null, or a string.
pub open spec fn opt_string(value: Option<Seq<char>>) -> JsonView {
    match value {
        Some(s) => JsonView::Str(s),
        None => JsonView::Null,
    }
}

/// What a count looks like.
pub open spec fn count(n: int) -> JsonView {
    JsonView::Number(NumberView::Unsigned(n as u64))
}

/// What is under a key is what its last entry holds.
proof fn lemma_last_entry(entries: Seq<(String, Json)>, i: int)
    requires
        0 <= i < entries.len(),
        forall|k: int| i < k < entries.len() ==> (#[trigger] entries[k]).0@ != entries[i].0@,
    ensures
        entry_map(entries).dom().contains(entries[i].0@),
        entry_map(entries)[entries[i].0@] == entries[i].1.tree(),
    decreases entries.len(),
{
    if i < entries.len() - 1 {
        let init = entries.drop_last();
        assert forall|k: int| i < k < init.len() implies (#[trigger] init[k]).0@ != init[i].0@ by {
            assert(init[k] == entries[k]);
        }
        lemma_last_entry(init, i);
        assert(entries[entries.len() - 1].0@ != entries[i].0@);
    }
}

/// Nothing is under a key that no entry has.
proof fn lemma_no_entry(entries: Seq<(String, Json)>, key: Seq<char>)
    requires
        forall|k: int| 0 <= k < entries.len() ==> (#[trigger] entries[k]).0@ != key,
    ensures
        !entry_map(entries).dom().contains(key),
    decreases entries.len(),
{
    if entries.len() > 0 {
        let init = entries.drop_last();
        assert forall|k: int| 0 <= k < init.len() implies (#[trigger] init[k]).0@ != key by {
            assert(init[k] == entries[k]);
        }
        lemma_no_entry(init, key);
        assert(entries[entries.len() - 1].0@ != key);
    }
}

impl Json {
    /// The entry of an object under `key`.
    pub fn get(&self, key: &str) -> (entry: Option<&Json>)
        ensures
            match entry {
                Some(e) => self@.get(key@) == Some(e@),
                None => self@.get(key@) is None,
            },
    {
        match self {
            Json::Object(entries) => {
                let mut i: usize = entries.len();
                while i > 0
                    invariant
                        i <= entries@.len(),
                        *self == Json::Object(*entries),
                        forall|k: int|
                            i <= k < entries@.len() ==> (#[trigger] entries@[k]).0@ != key@,
                    decreases i,
                {
                    i = i - 1;
                    if same_text(entries[i].0.as_str(), key) {
                        proof {
                            lemma_last_entry(entries@, i as int);
                        }
                        return Some(&entries[i].1);
                    }
                }
                proof {
                    lemma_no_entry(entries@, key@);
                }
                None
            },
            _ => None,
        }
    }

    /// The text of a string.
    pub fn as_str(&self) -> (value: Option<&str>)
        ensures
            text::opt_str(value) == self@.string(),
    {
        match self {
            Json::Str(s) => Some(s.as_str()),
            _ => None,
        }
    }

    /// The number, if it is a non-negative integer.
    pub fn as_u64(&self) -> (value: Option<u64>)
        ensures
            value == self@.unsigned(),
    {
        match self {
            Json::Number(number) => number_as_u64(number),
            _ => None,
        }
    }

    /// The text under `key`.
    pub fn str_at(&self, key: &str) -> (value: Option<&str>)
        ensures
            text::opt_str(value) == self@.string_at(key@),
    {
        match self.get(key) {
            Some(entry) => entry.as_str(),
            None => None,
        }
    }

    /// Whether the entry under `key` is `true`.
    pub fn is_true_at(&self, key: &str) -> (value: bool)
        ensures
            value == self@.true_at(key@),
    {
        match self.get(key) {
            Some(Json::Bool(b)) => *b,
            _ => false,
        }
    }

    /// A copy of the entry under `key`, or null.
    pub fn copy_at(&self, key: &str) -> (copy: Json)
        ensures
            copy@ == self@.get_or_null(key@),
    {
        match self.get(key) {
            Some(entry) => entry.copy(),
            None => Json::Null,
        }
    }

    /// A string.
    pub fn text(value: &str) -> (json: Json)
        ensures
            json@ == JsonView::Str(value@),
    {
        Json::Str(owned(value))
    }

    /// A string, or null.
    pub fn opt_text(value: &Option<String>) -> (json: Json)
        ensures
            json@ == opt_string(text::opt_text(*value)),
    {
        match value {
            Some(s) => Json::text(s.as_str()),
            None => Json::Null,
        }
    }

    /// A non-negative integer.
    pub fn unsigned(n: u64) -> (json: Json)
        ensures
            json@ == count(n as int),
    {
        Json::Number(number_from_u64(n))
    }

    /// An integer.
    pub fn integer(n: i32) -> (json: Json)
        ensures
            json@ == JsonView::Number(signed_form(n as int)),
    {
        Json::Number(number_from_i32(n))
    }

    /// An object without entries.
    pub fn object() -> (json: Json)
        ensures
            json@ == JsonView::Object(Map::empty()),
    {
        Json::Object(Vec::new())
    }

    /// The object with the entry under `key` set to `entry`.
    pub fn with(self, key: &str, entry: Json) -> (json: Json)
        requires
            self@ is Object,
        ensures
            json@ == JsonView::Object(self@->Object_0.insert(key@, entry@)),
    {
        match self {
            Json::Object(entries) => {
                let mut all: Vec<(String, Json)> = entries;
                let ghost before = all@;
                all.push((owned(key), entry));
                assert(all@.drop_last() =~= before);
                Json::Object(all)
            },
            other => other,
        }
    }

    /// Reads JSON text.
    pub fn parse(source: &str) -> (json: Option<Json>)
        ensures
            match json {
                Some(j) => json_of_text(source@) == Some(j@) && j@.nested_within(nesting_limit()),
                None => json_of_text(source@) is None,
            },
    {
        match read_value(source) {
            Some(value) => Some(Json::from_value(&value)),
            None => None,
        }
    }

    /// Writes the value as indented text. What can be said of reading the text
    /// again is what `write_value` says.
    pub fn pretty(&self) -> (written: Option<String>)
        ensures
            written is Some,
            text::opt_text(written) == pretty_text(self@),
            self@.float_free() && self@.nested_within(nesting_limit()) ==> json_of_text(
                written->0@,
            ) == Some(self@),
            self@ is Object && json_of_text(written->0@) is Some ==> same_keys_and_strings(
                self@,
                json_of_text(written->0@)->0,
            ),
    {
        write_value(&self.to_value())
    }

    /// Writes the value on one line.
    pub fn line(&self) -> (written: String)
        ensures
            written@ == line_text(self@),
    {
        value_line(&self.to_value())
    }
}

/// What a command prints and the status it exits with.
pub struct Reply {
    pub text: String,
    pub code: i32,
}

impl Reply {
    /// Whether the reply shows `payload`, or `fallback` where the payload
    /// cannot be written, and exits with `code`.
    pub open spec fn shows(self, payload: JsonView, fallback: Seq<char>, code: int) -> bool {
        &&& self.code == code
        &&& self.text@ == match pretty_text(payload) {
            Some(t) => t,
            None => fallback,
        }
    }

    /// The reply that shows `payload`.
    pub fn new(payload: &Json, fallback: &str, code: i32) -> (reply: Reply)
        ensures
            reply.shows(payload@, fallback@, code as int),
    {
        match payload.pretty() {
            Some(text) => Reply { text, code },
            None => Reply { text: owned(fallback), code },
        }
    }
}

} // verus!
