//! JSON values as plain data, with serde_json for reading and writing text.
use crate::text::{same_text, views};
use vstd::prelude::*;

verus! {

/// `serde_json::Value`, taken apart and put together by the functions below.
#[verifier::external_type_specification]
#[verifier::external_body]
pub struct ExValue(serde_json::Value);

/// `serde_json::Number`, carried as it is.
#[verifier::external_type_specification]
#[verifier::external_body]
pub struct ExNumber(serde_json::Number);

/// A JSON number that is no 64-bit integer. Values of this type come from
/// serde_json alone.
#[derive(Debug)]
pub struct Fraction {
    number: serde_json::Number,
}

/// A JSON number.
#[derive(Debug)]
pub enum JsonNumber {
    Unsigned(u64),
    Signed(i64),
    Fraction(Fraction),
}

/// A JSON value.
#[derive(Debug)]
pub enum Json {
    Null,
    Bool(bool),
    Number(JsonNumber),
    Text(String),
    Array(Vec<Json>),
    /// The fields in the order in which they were set; of two fields with one
    /// name the later counts.
    Object(Vec<(String, Json)>),
}

/// What a [`Json`] value stands for: integers are numbers, and an object is a
/// map.
#[verifier::ext_equal]
pub enum JsonView {
    Null,
    Bool(bool),
    Int(int),
    Fraction(Fraction),
    Text(Seq<char>),
    Array(Seq<JsonView>),
    Object(Map<Seq<char>, JsonView>),
}

/// What a number stands for.
pub open spec fn number_view(n: JsonNumber) -> JsonView {
    match n {
        JsonNumber::Unsigned(u) => JsonView::Int(u as int),
        JsonNumber::Signed(i) => JsonView::Int(i as int),
        JsonNumber::Fraction(f) => JsonView::Fraction(f),
    }
}

/// What a value stands for.
pub open spec fn json_view(j: Json) -> JsonView
    decreases j,
{
    match j {
        Json::Null => JsonView::Null,
        Json::Bool(b) => JsonView::Bool(b),
        Json::Number(n) => number_view(n),
        Json::Text(s) => JsonView::Text(s@),
        Json::Array(items) => JsonView::Array(
            Seq::new(
                items@.len(),
                |i: int|
                    if 0 <= i < items@.len() {
                        json_view(items@[i])
                    } else {
                        JsonView::Null
                    },
            ),
        ),
        Json::Object(fields) => JsonView::Object(fields_view(fields@)),
    }
}

/// The map that a list of fields stands for.
pub open spec fn fields_view(fields: Seq<(String, Json)>) -> Map<Seq<char>, JsonView>
    decreases fields,
{
    if fields.len() == 0 {
        Map::empty()
    } else {
        fields_view(fields.drop_last()).insert(fields.last().0@, json_view(fields.last().1))
    }
}

impl View for Json {
    type V = JsonView;

    open spec fn view(&self) -> JsonView {
        json_view(*self)
    }
}

/// The field of an object; `None` where the value is no object or has no such
/// field.
pub open spec fn field_of(j: JsonView, key: Seq<char>) -> Option<JsonView> {
    match j {
        JsonView::Object(m) => if m.contains_key(key) {
            Some(m[key])
        } else {
            None
        },
        _ => None,
    }
}

/// Whether a value is an object with a field of the given value.
pub open spec fn has(j: JsonView, key: Seq<char>, value: JsonView) -> bool {
    match j {
        JsonView::Object(fields) => fields.contains_key(key) && fields[key] == value,
        _ => false,
    }
}

/// What a value says in a field, where that is a text.
pub open spec fn told(j: JsonView, key: Seq<char>) -> Option<Seq<char>> {
    match j {
        JsonView::Object(fields) => if fields.contains_key(key) && fields[key] is Text {
            Some(fields[key]->Text_0)
        } else {
            None
        },
        _ => None,
    }
}

/// What a value says in a field, or nothing.
pub open spec fn told_or_nothing(j: JsonView, key: Seq<char>) -> Seq<char> {
    match told(j, key) {
        Some(text) => text,
        None => Seq::empty(),
    }
}

/// The number that a value holds in a field, where it is an unsigned one.
pub open spec fn number_at(j: JsonView, key: Seq<char>) -> Option<int> {
    match j {
        JsonView::Object(fields) => if fields.contains_key(key) && fields[key] is Int && 0
            <= fields[key]->Int_0 <= u64::MAX {
            Some(fields[key]->Int_0)
        } else {
            None
        },
        _ => None,
    }
}

/// What a value holds in a field, or `null`.
pub open spec fn value_at(j: JsonView, key: Seq<char>) -> JsonView {
    match j {
        JsonView::Object(fields) => if fields.contains_key(key) {
            fields[key]
        } else {
            JsonView::Null
        },
        _ => JsonView::Null,
    }
}

/// Whether a value is an object without such a field.
pub open spec fn lacks(j: JsonView, key: Seq<char>) -> bool {
    match j {
        JsonView::Object(fields) => !fields.contains_key(key),
        _ => false,
    }
}

/// The text of a string value.
pub open spec fn text_of(j: JsonView) -> Option<Seq<char>> {
    match j {
        JsonView::Text(s) => Some(s),
        _ => None,
    }
}

/// The value as an unsigned 64-bit integer.
pub open spec fn u64_of(j: JsonView) -> Option<u64> {
    match j {
        JsonView::Int(i) => if 0 <= i <= u64::MAX {
            Some(i as u64)
        } else {
            None
        },
        _ => None,
    }
}

/// The items of an array.
pub open spec fn items_of(j: JsonView) -> Option<Seq<JsonView>> {
    match j {
        JsonView::Array(items) => Some(items),
        _ => None,
    }
}

/// What a serde_json value holds, as a tree of plain values.
pub uninterp spec fn value_view(value: serde_json::Value) -> JsonView;

/// What `serde_json::from_str` makes of a text: the value, or the message of
/// its error.
pub uninterp spec fn json_parsed(text: Seq<char>) -> Result<JsonView, Seq<char>>;

/// The compact text that serde_json writes for a value.
pub uninterp spec fn json_text(value: JsonView) -> Seq<char>;

/// What reading a text gave, over serde_json's value.
spec fn read_view(read: Result<serde_json::Value, String>) -> Result<
    JsonView,
    Seq<char>,
> {
    match read {
        Ok(value) => Ok(value_view(value)),
        Err(message) => Err(message@),
    }
}

/// What reading a text gave.
pub open spec fn parsed_view(parsed: Result<Json, String>) -> Result<JsonView, Seq<char>> {
    match parsed {
        Ok(value) => Ok(value@),
        Err(message) => Err(message@),
    }
}

/// One level of a serde_json value.
enum Parts {
    Null,
    Bool(bool),
    Number(JsonNumber),
    Text(String),
    Array(Vec<serde_json::Value>),
    Object(Vec<(String, serde_json::Value)>),
}

/// The map that a list of entries stands for; of two entries with one key the
/// later counts.
spec fn entries_view(entries: Seq<(String, serde_json::Value)>) -> Map<
    Seq<char>,
    JsonView,
>
    decreases entries.len(),
{
    if entries.len() == 0 {
        Map::empty()
    } else {
        entries_view(entries.drop_last()).insert(entries.last().0@, value_view(entries.last().1))
    }
}

/// What one level of a serde_json value stands for.
spec fn parts_view(parts: Parts) -> JsonView {
    match parts {
        Parts::Null => JsonView::Null,
        Parts::Bool(b) => JsonView::Bool(b),
        Parts::Number(n) => number_view(n),
        Parts::Text(s) => JsonView::Text(s@),
        Parts::Array(items) => JsonView::Array(
            Seq::new(items@.len(), |i: int| value_view(items@[i])),
        ),
        Parts::Object(entries) => JsonView::Object(entries_view(entries@)),
    }
}

/// Whether no key occurs twice among an object's entries.
spec fn keys_distinct(parts: Parts) -> bool {
    match parts {
        Parts::Object(entries) => forall|i: int, j: int|
            0 <= i < j < entries@.len() ==> (#[trigger] entries@[i]).0@ != (
            #[trigger] entries@[j]).0@,
        _ => true,
    }
}

/// Takes a `serde_json::Value` apart by one level: its variants are told
/// apart, a number's by `Number::as_u64` and `Number::as_i64`, and the fields
/// move out. An object's entries have distinct keys.
#[verifier::external_body]
fn value_parts(value: serde_json::Value) -> (parts: Parts)
    ensures
        parts_view(parts) == value_view(value),
        keys_distinct(parts),
{
    match value {
        serde_json::Value::Null => Parts::Null,
        serde_json::Value::Bool(b) => Parts::Bool(b),
        serde_json::Value::Number(n) => Parts::Number(match (n.as_u64(), n.as_i64()) {
            (Some(u), _) => JsonNumber::Unsigned(u),
            (None, Some(i)) => JsonNumber::Signed(i),
            (None, None) => JsonNumber::Fraction(Fraction { number: n }),
        }),
        serde_json::Value::String(s) => Parts::Text(s),
        serde_json::Value::Array(items) => Parts::Array(items),
        serde_json::Value::Object(map) => Parts::Object(map.into_iter().collect()),
    }
}

/// Makes a `serde_json::Value` of one level. Collecting entries into a
/// `serde_json::Map` keeps the last of two entries with one key.
#[verifier::external_body]
fn value_of_parts(parts: Parts) -> (value: serde_json::Value)
    ensures
        value_view(value) == parts_view(parts),
{
    match parts {
        Parts::Null => serde_json::Value::Null,
        Parts::Bool(b) => serde_json::Value::Bool(b),
        Parts::Number(JsonNumber::Unsigned(u)) => serde_json::Value::from(u),
        Parts::Number(JsonNumber::Signed(i)) => serde_json::Value::from(i),
        Parts::Number(JsonNumber::Fraction(f)) => serde_json::Value::Number(f.number),
        Parts::Text(s) => serde_json::Value::String(s),
        Parts::Array(items) => serde_json::Value::Array(items),
        Parts::Object(entries) => serde_json::Value::Object(entries.into_iter().collect()),
    }
}

/// `serde_json::from_str` into a `serde_json::Value`, an error taken by its
/// message: what comes back depends on the text alone, and is named by
/// [`json_parsed`].
#[verifier::external_body]
fn parse_value(text: &str) -> (read: Result<serde_json::Value, String>)
    ensures
        read_view(read) == json_parsed(text@),
{
    serde_json::from_str(text).map_err(|error: serde_json::Error| error.to_string())
}

/// `serde_json::Value::to_string`: the text depends on what the value holds
/// alone, and is named by [`json_text`].
#[verifier::external_body]
fn print_value(value: &serde_json::Value) -> (text: String)
    ensures
        text@ == json_text(value_view(*value)),
{
    value.to_string()
}

/// `Clone` of `serde_json::Number`: the copy is the same number.
#[verifier::external_body]
fn copy_number(number: &serde_json::Number) -> (copy: serde_json::Number)
    ensures
        copy == *number,
{
    number.clone()
}

proof fn entry_in_map(entries: Seq<(String, serde_json::Value)>, i: int)
    requires
        0 <= i < entries.len(),
        forall|i: int, j: int|
            0 <= i < j < entries.len() ==> (#[trigger] entries[i]).0@ != (
            #[trigger] entries[j]).0@,
    ensures
        entries_view(entries).contains_key(entries[i].0@),
        entries_view(entries)[entries[i].0@] == value_view(entries[i].1),
    decreases entries.len(),
{
    if i < entries.len() - 1 {
        entry_in_map(entries.drop_last(), i);
        assert(entries.drop_last()[i] == entries[i]);
    }
}

proof fn entries_finite(entries: Seq<(String, serde_json::Value)>)
    ensures
        entries_view(entries).dom().finite(),
    decreases entries.len(),
{
    if entries.len() > 0 {
        entries_finite(entries.drop_last());
    }
}

/// Setting one more field.
pub proof fn fields_view_push(fields: Seq<(String, Json)>, field: (String, Json))
    ensures
        fields_view(fields.push(field)) == fields_view(fields).insert(field.0@, field.1@),
{
    assert(fields.push(field).drop_last() =~= fields);
}

/// The fields with one more where there is a value for it.
pub open spec fn with_optional(
    fields: Map<Seq<char>, JsonView>,
    key: Seq<char>,
    value: Option<JsonView>,
) -> Map<Seq<char>, JsonView> {
    match value {
        Some(v) => fields.insert(key, v),
        None => fields,
    }
}

/// Adds a field to the fields of an object.
pub fn set_field(fields: &mut Vec<(String, Json)>, key: &str, value: Json)
    ensures
        fields_view(final(fields)@) == fields_view(old(fields)@).insert(key@, value@),
{
    let name: String = key.to_owned();
    proof {
        fields_view_push(fields@, (name, value));
    }
    fields.push((name, value));
}

impl Json {
    /// The number `n`.
    pub fn unsigned(n: u64) -> (r: Json)
        ensures
            r@ == JsonView::Int(n as int),
    {
        Json::Number(JsonNumber::Unsigned(n))
    }

    /// A string value.
    pub fn string(s: &str) -> (r: Json)
        ensures
            r@ == JsonView::Text(s@),
    {
        Json::Text(s.to_owned())
    }

    /// An array.
    pub fn array(items: Vec<Json>) -> (r: Json)
        ensures
            r@ == JsonView::Array(views(items@)),
    {
        let r: Json = Json::Array(items);
        assert(r@->Array_0 =~= views(items@));
        r
    }

    /// An object without fields.
    pub fn empty_object() -> (r: Json)
        ensures
            r@ == JsonView::Object(Map::empty()),
    {
        let fields: Vec<(String, Json)> = Vec::new();
        assert(fields_view(fields@) == Map::<Seq<char>, JsonView>::empty());
        Json::Object(fields)
    }

    /// The value that a serde_json value holds.
    pub fn from_value(value: serde_json::Value) -> (r: Json)
        ensures
            r@ == value_view(value),
        decreases value_view(value),
    {
        let parts: Parts = value_parts(value);
        match parts {
            Parts::Null => Json::Null,
            Parts::Bool(b) => Json::Bool(b),
            Parts::Number(n) => Json::Number(n),
            Parts::Text(s) => Json::Text(s),
            Parts::Array(items) => {
                let ghost all = items@;
                let mut out: Vec<Json> = Vec::new();
                for item in it: items
                    invariant
                        it.seq() == all,
                        value_view(value) == JsonView::Array(
                            Seq::new(all.len(), |i: int| value_view(all[i])),
                        ),
                        out.len() == it.index(),
                        forall|i: int|
                            0 <= i < out.len() ==> json_view(#[trigger] out@[i]) == value_view(
                                all[i],
                            ),
                {
                    proof {
                        let whole = value_view(value);
                        let at = it.index() as int;
                        assert(whole->Array_0[at] == value_view(item));
                        assert(decreases_to!(whole => whole->Array_0));
                        assert(decreases_to!(whole->Array_0 => whole->Array_0[at]));
                    }
                    out.push(Json::from_value(item));
                }
                proof {
                    let r = Json::Array(out);
                    assert(json_view(r)->Array_0 =~= Seq::new(
                        all.len(),
                        |i: int| value_view(all[i]),
                    ));
                }
                Json::Array(out)
            },
            Parts::Object(entries) => {
                let ghost all = entries@;
                let mut out: Vec<(String, Json)> = Vec::new();
                assert(all.take(0) =~= Seq::<(String, serde_json::Value)>::empty());
                for entry in it: entries
                    invariant
                        it.seq() == all,
                        value_view(value) == JsonView::Object(entries_view(all)),
                        forall|i: int, j: int|
                            0 <= i < j < all.len() ==> (#[trigger] all[i]).0@ != (
                            #[trigger] all[j]).0@,
                        fields_view(out@) == entries_view(all.take(it.index() as int)),
                {
                    let ghost at = it.index() as int;
                    proof {
                        assert(all[at] == entry);
                        entry_in_map(all, at);
                        entries_finite(all);
                        let whole = value_view(value);
                        assert(decreases_to!(whole => whole->Object_0));
                        assert(decreases_to!(whole->Object_0 => whole->Object_0[entry.0@]));
                        assert(all.take(at + 1).drop_last() =~= all.take(at));
                    }
                    let (key, item): (String, serde_json::Value) = entry;
                    let converted: Json = Json::from_value(item);
                    proof {
                        fields_view_push(out@, (key, converted));
                    }
                    out.push((key, converted));
                }
                assert(all.take(all.len() as int) =~= all);
                Json::Object(out)
            },
        }
    }

    /// The serde_json value that holds the same.
    pub fn to_value(&self) -> (r: serde_json::Value)
        ensures
            value_view(r) == self@,
        decreases self,
    {
        let parts: Parts = match self {
            Json::Null => Parts::Null,
            Json::Bool(b) => Parts::Bool(*b),
            Json::Number(n) => Parts::Number(n.copy()),
            Json::Text(s) => Parts::Text(s.clone()),
            Json::Array(items) => {
                let mut out: Vec<serde_json::Value> = Vec::new();
                let mut i: usize = 0;
                while i < items.len()
                    invariant
                        i <= items.len(),
                        out.len() == i,
                        *self == Json::Array(*items),
                        forall|k: int|
                            0 <= k < i ==> value_view(#[trigger] out@[k]) == json_view(items@[k]),
                    decreases items.len() - i,
                {
                    proof {
                        assert(decreases_to!(*self => self->Array_0));
                        assert(decreases_to!(*items => items@));
                        assert(decreases_to!(items@ => items@[i as int]));
                    }
                    out.push(items[i].to_value());
                    i = i + 1;
                }
                assert(parts_view(Parts::Array(out))->Array_0 =~= json_view(*self)->Array_0);
                Parts::Array(out)
            },
            Json::Object(fields) => {
                let mut out: Vec<(String, serde_json::Value)> = Vec::new();
                let mut i: usize = 0;
                assert(fields@.take(0) =~= Seq::<(String, Json)>::empty());
                while i < fields.len()
                    invariant
                        i <= fields.len(),
                        *self == Json::Object(*fields),
                        entries_view(out@) == fields_view(fields@.take(i as int)),
                    decreases fields.len() - i,
                {
                    proof {
                        assert(decreases_to!(*self => self->Object_0));
                        assert(decreases_to!(*fields => fields@));
                        assert(decreases_to!(fields@ => fields@[i as int]));
                        assert(decreases_to!(fields@[i as int] => fields@[i as int].1));
                        assert(fields@.take(i + 1).drop_last() =~= fields@.take(i as int));
                    }
                    let ghost before = out@;
                    out.push((fields[i].0.clone(), fields[i].1.to_value()));
                    assert(out@.drop_last() =~= before);
                    i = i + 1;
                }
                assert(fields@.take(i as int) =~= fields@);
                Parts::Object(out)
            },
        };
        value_of_parts(parts)
    }

    /// Reads a JSON text; the error is serde_json's message.
    pub fn parse(text: &str) -> (r: Result<Json, String>)
        ensures
            parsed_view(r) == json_parsed(text@),
    {
        match parse_value(text) {
            Ok(value) => Ok(Json::from_value(value)),
            Err(message) => Err(message),
        }
    }

    /// Writes the value as compact JSON text.
    pub fn to_text(&self) -> (r: String)
        ensures
            r@ == json_text(self@),
    {
        print_value(&self.to_value())
    }

    fn copy(&self) -> (r: Json)
        ensures
            r@ == self@,
        decreases self,
    {
        match self {
            Json::Null => Json::Null,
            Json::Bool(b) => Json::Bool(*b),
            Json::Number(n) => Json::Number(n.copy()),
            Json::Text(s) => Json::Text(s.clone()),
            Json::Array(items) => {
                let mut out: Vec<Json> = Vec::new();
                let mut i: usize = 0;
                while i < items.len()
                    invariant
                        i <= items.len(),
                        out.len() == i,
                        *self == Json::Array(*items),
                        forall|k: int|
                            0 <= k < i ==> json_view(#[trigger] out@[k]) == json_view(items@[k]),
                    decreases items.len() - i,
                {
                    proof {
                        assert(decreases_to!(*self => self->Array_0));
                        assert(decreases_to!(*items => items@));
                        assert(decreases_to!(items@ => items@[i as int]));
                    }
                    out.push(items[i].copy());
                    i = i + 1;
                }
                assert(json_view(Json::Array(out))->Array_0 =~= json_view(*self)->Array_0);
                Json::Array(out)
            },
            Json::Object(fields) => {
                let mut out: Vec<(String, Json)> = Vec::new();
                let mut i: usize = 0;
                assert(fields@.take(0) =~= Seq::<(String, Json)>::empty());
                while i < fields.len()
                    invariant
                        i <= fields.len(),
                        *self == Json::Object(*fields),
                        fields_view(out@) == fields_view(fields@.take(i as int)),
                    decreases fields.len() - i,
                {
                    proof {
                        assert(decreases_to!(*self => self->Object_0));
                        assert(decreases_to!(*fields => fields@));
                        assert(decreases_to!(fields@ => fields@[i as int]));
                        assert(decreases_to!(fields@[i as int] => fields@[i as int].1));
                        assert(fields@.take(i + 1).drop_last() =~= fields@.take(i as int));
                    }
                    let ghost before = out@;
                    out.push((fields[i].0.clone(), fields[i].1.copy()));
                    assert(out@.drop_last() =~= before);
                    i = i + 1;
                }
                assert(fields@.take(i as int) =~= fields@);
                Json::Object(out)
            },
        }
    }

    /// The text, where the value is a string.
    pub fn as_str(&self) -> (r: Option<&str>)
        ensures
            match r {
                Some(s) => text_of(self@) == Some(s@),
                None => text_of(self@) is None,
            },
    {
        match self {
            Json::Text(s) => Some(s.as_str()),
            _ => None,
        }
    }

    /// The number, where the value is an integer that fits.
    pub fn as_u64(&self) -> (r: Option<u64>)
        ensures
            r == u64_of(self@),
    {
        match self {
            Json::Number(JsonNumber::Unsigned(n)) => Some(*n),
            Json::Number(JsonNumber::Signed(n)) => if *n >= 0 {
                Some(*n as u64)
            } else {
                None
            },
            _ => None,
        }
    }

    /// The items, where the value is an array.
    pub fn as_array(&self) -> (r: Option<&Vec<Json>>)
        ensures
            match r {
                Some(items) => items_of(self@) is Some && items_of(self@)->0.len() == items@.len()
                    && forall|i: int|
                    0 <= i < items@.len() ==> (#[trigger] items@[i])@ == items_of(self@)->0[i],
                None => items_of(self@) is None,
            },
    {
        match self {
            Json::Array(items) => Some(items),
            _ => None,
        }
    }

    /// A field of an object.
    pub fn get(&self, key: &str) -> (r: Option<&Json>)
        ensures
            match r {
                Some(value) => field_of(self@, key@) == Some(value@),
                None => field_of(self@, key@) is None,
            },
    {
        match self {
            Json::Object(fields) => {
                let mut i: usize = fields.len();
                assert(fields@.take(i as int) =~= fields@);
                while 0 < i
                    invariant
                        i <= fields.len(),
                        self@ == JsonView::Object(fields_view(fields@)),
                        fields_view(fields@).contains_key(key@) == fields_view(
                            fields@.take(i as int),
                        ).contains_key(key@),
                        fields_view(fields@).contains_key(key@) ==> fields_view(fields@)[key@]
                            == fields_view(fields@.take(i as int))[key@],
                    decreases i,
                {
                    assert(fields@.take(i as int).drop_last() =~= fields@.take(i - 1));
                    if same_text(fields[i - 1].0.as_str(), key) {
                        return Some(&fields[i - 1].1);
                    }
                    i = i - 1;
                }
                None
            },
            _ => None,
        }
    }
}

impl Clone for Json {
    fn clone(&self) -> (r: Json)
        ensures
            r@ == self@,
    {
        self.copy()
    }
}

impl JsonNumber {
    /// An equal number.
    pub fn copy(&self) -> (r: JsonNumber)
        ensures
            r == *self,
    {
        match self {
            JsonNumber::Unsigned(n) => JsonNumber::Unsigned(*n),
            JsonNumber::Signed(n) => JsonNumber::Signed(*n),
            JsonNumber::Fraction(f) => JsonNumber::Fraction(
                Fraction { number: copy_number(&f.number) },
            ),
        }
    }
}

impl Clone for JsonNumber {
    fn clone(&self) -> (r: JsonNumber)
        ensures
            r == *self,
    {
        self.copy()
    }
}

} // verus!
