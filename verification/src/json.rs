//! JSON values, and the JSON text that `serde_json` reads and writes.

use vstd::prelude::*;

use crate::text::same;
use crate::words::texts;

verus! {

/// A JSON value as mathematics.
pub enum JsonView {
    Null,
    Bool(bool),
    Unsigned(u64),
    /// An integer below zero.
    Negative(i64),
    /// A finite number that is no integer in range, as the bits of its double.
    Float(u64),
    Text(Seq<char>),
    Array(Seq<JsonView>),
    Object(Map<Seq<char>, JsonView>),
}

/// The map that a list of pairs builds, a later pair replacing an earlier one.
pub open spec fn pairs_map<V>(pairs: Seq<(Seq<char>, V)>) -> Map<Seq<char>, V>
    decreases pairs.len(),
{
    if pairs.len() == 0 {
        Map::<Seq<char>, V>::empty()
    } else {
        pairs_map(pairs.drop_last()).insert(pairs.last().0, pairs.last().1)
    }
}

/// `serde_json::Value`.
#[verifier::external_type_specification]
#[verifier::external_body]
pub struct ExValue(serde_json::Value);

/// `serde_json::Error`.
#[verifier::external_type_specification]
#[verifier::external_body]
pub struct ExJsonError(serde_json::Error);

/// What a `serde_json::Value` holds.
pub uninterp spec fn value_view(v: serde_json::Value) -> JsonView;

/// A number that is no integer in range.
pub struct FloatNumber {
    bits: u64,
    value: serde_json::Value,
}

impl FloatNumber {
    #[verifier::type_invariant]
    spec fn agrees(self) -> bool {
        value_view(self.value) == JsonView::Float(self.bits)
    }

    /// The bits of the double.
    pub closed spec fn bits_view(self) -> u64 {
        self.bits
    }

    /// The bits of the double.
    pub fn bits(&self) -> (r: u64)
        ensures
            r == self.bits_view(),
    {
        self.bits
    }

    /// The same number.
    pub fn copy(&self) -> (r: FloatNumber)
        ensures
            r.bits_view() == self.bits_view(),
    {
        proof {
            use_type_invariant(self);
        }
        FloatNumber { bits: self.bits, value: self.value.clone() }
    }
}

/// A JSON value.
pub enum Json {
    Null,
    Bool(bool),
    Unsigned(u64),
    Signed(i64),
    Float(FloatNumber),
    Text(String),
    Array(Vec<Json>),
    /// Fields in the order in which they were written; of two with one name the later counts.
    Object(Vec<(String, Json)>),
}

/// What a [`Json`] holds.
pub open spec fn json_view(j: Json) -> JsonView
    decreases j,
{
    match j {
        Json::Null => JsonView::Null,
        Json::Bool(b) => JsonView::Bool(b),
        Json::Unsigned(n) => JsonView::Unsigned(n),
        Json::Signed(n) => if n >= 0 {
            JsonView::Unsigned(n as u64)
        } else {
            JsonView::Negative(n)
        },
        Json::Float(f) => JsonView::Float(f.bits_view()),
        Json::Text(s) => JsonView::Text(s@),
        Json::Array(items) => JsonView::Array(items_view(items@)),
        Json::Object(fields) => object(fields_view(fields@)),
    }
}

/// What the items of an array hold.
pub open spec fn items_view(items: Seq<Json>) -> Seq<JsonView>
    decreases items,
{
    Seq::new(
        items.len(),
        |i: int|
            if 0 <= i < items.len() {
                json_view(items[i])
            } else {
                JsonView::Null
            },
    )
}

/// What the fields of an object hold.
pub open spec fn fields_view(fields: Seq<(String, Json)>) -> Seq<(Seq<char>, JsonView)>
    decreases fields,
{
    Seq::new(
        fields.len(),
        |i: int|
            if 0 <= i < fields.len() {
                (fields[i].0@, json_view(fields[i].1))
            } else {
                (Seq::<char>::empty(), JsonView::Null)
            },
    )
}

impl View for Json {
    type V = JsonView;

    open spec fn view(&self) -> JsonView {
        json_view(*self)
    }
}

/// What the values of a list hold.
pub open spec fn values_view(items: Seq<serde_json::Value>) -> Seq<JsonView> {
    Seq::new(items.len(), |i: int| value_view(items[i]))
}

/// What a list of named values holds.
pub open spec fn named_view(fields: Seq<(String, serde_json::Value)>) -> Seq<
    (Seq<char>, JsonView),
> {
    Seq::new(fields.len(), |i: int| (fields[i].0@, value_view(fields[i].1)))
}

/// The object with the given fields.
pub open spec fn object(fields: Seq<(Seq<char>, JsonView)>) -> JsonView {
    JsonView::Object(pairs_map(fields))
}

/// No fields yet.
pub open spec fn fields() -> Seq<(Seq<char>, JsonView)> {
    Seq::empty()
}

/// Lists of fields that grow at the end.
pub trait FieldList: Sized {
    /// The list with one more field.
    spec fn and(self, name: Seq<char>, value: JsonView) -> Self;
}

impl FieldList for Seq<(Seq<char>, JsonView)> {
    open spec fn and(self, name: Seq<char>, value: JsonView) -> Self {
        self.push((name, value))
    }
}

/// No items yet.
pub open spec fn items() -> Seq<JsonView> {
    Seq::empty()
}

/// No two pairs share a name.
pub open spec fn distinct_names<V>(pairs: Seq<(Seq<char>, V)>) -> bool {
    forall|i: int, j: int|
        0 <= i < j < pairs.len() ==> (#[trigger] pairs[i]).0 != (#[trigger] pairs[j]).0
}

/// One level of a JSON value to be built.
pub enum Part {
    Null,
    Bool(bool),
    Unsigned(u64),
    Signed(i64),
    Text(String),
    Array(Vec<serde_json::Value>),
    Object(Vec<(String, serde_json::Value)>),
}

/// What a [`Part`] holds.
pub open spec fn part_view(p: Part) -> JsonView {
    match p {
        Part::Null => JsonView::Null,
        Part::Bool(b) => JsonView::Bool(b),
        Part::Unsigned(n) => JsonView::Unsigned(n),
        Part::Signed(n) => if n >= 0 {
            JsonView::Unsigned(n as u64)
        } else {
            JsonView::Negative(n)
        },
        Part::Text(s) => JsonView::Text(s@),
        Part::Array(items) => JsonView::Array(values_view(items@)),
        Part::Object(fields) => object(named_view(fields@)),
    }
}

/// Builds one level of a `serde_json::Value` from its variant. Claimed: the value holds what the
/// part holds; `serde_json` keeps the fields of an object in a map, so that of two with one name
/// the later stays, and turns a signed integer that is not below zero into an unsigned one.
#[verifier::external_body]
fn assemble(part: Part) -> (r: serde_json::Value)
    ensures
        value_view(r) == part_view(part),
{
    match part {
        Part::Null => serde_json::Value::Null,
        Part::Bool(b) => serde_json::Value::Bool(b),
        Part::Unsigned(n) => serde_json::Value::from(n),
        Part::Signed(n) => serde_json::Value::from(n),
        Part::Text(s) => serde_json::Value::String(s),
        Part::Array(items) => serde_json::Value::Array(items),
        Part::Object(fields) => serde_json::Value::Object(fields.into_iter().collect()),
    }
}

/// A number as `serde_json` describes it.
pub struct NumberFacts {
    pub unsigned: Option<u64>,
    pub signed: Option<i64>,
    pub bits: Option<u64>,
    pub value: serde_json::Value,
}

/// One level of a JSON value that was read.
pub enum Layer {
    Null,
    Bool(bool),
    Number(NumberFacts),
    Text(String),
    Array(Vec<serde_json::Value>),
    Object(Vec<(String, serde_json::Value)>),
}

/// `layer` is the top level of a value that holds `v`.
pub open spec fn layer_shows(layer: Layer, v: JsonView) -> bool {
    match v {
        JsonView::Null => layer is Null,
        JsonView::Bool(b) => layer == Layer::Bool(b),
        JsonView::Unsigned(n) => layer matches Layer::Number(x) && x.unsigned == Some(n),
        JsonView::Negative(n) => layer matches Layer::Number(x) && x.unsigned is None && x.signed
            == Some(n) && n < 0,
        JsonView::Float(bits) => layer matches Layer::Number(x) && x.unsigned is None
            && x.signed is None && x.bits == Some(bits) && value_view(x.value) == v,
        JsonView::Text(s) => layer matches Layer::Text(t) && t@ == s,
        JsonView::Array(items) => layer matches Layer::Array(l) && values_view(l@) == items,
        JsonView::Object(fields) => layer matches Layer::Object(l) && distinct_names(
            named_view(l@),
        ) && pairs_map(named_view(l@)) == fields,
    }
}

/// Takes one level of a `serde_json::Value` apart by its variant; a number is described by
/// `Number::as_u64`, `Number::as_i64` and the bits of `Number::as_f64`. Claimed: the level shows
/// what the value holds, and the names of an object's fields are distinct, since `serde_json`
/// keeps them in a map.
#[verifier::external_body]
fn peel(v: serde_json::Value) -> (r: Layer)
    ensures
        layer_shows(r, value_view(v)),
{
    match v {
        serde_json::Value::Null => Layer::Null,
        serde_json::Value::Bool(b) => Layer::Bool(b),
        serde_json::Value::Number(n) => Layer::Number(NumberFacts {
            unsigned: n.as_u64(),
            signed: n.as_i64(),
            bits: n.as_f64().map(|x| x.to_bits()),
            value: serde_json::Value::Number(n),
        }),
        serde_json::Value::String(s) => Layer::Text(s),
        serde_json::Value::Array(items) => Layer::Array(items),
        serde_json::Value::Object(fields) => Layer::Object(fields.into_iter().collect()),
    }
}

/// The value that a JSON text stands for, as `serde_json::from_str` reads it; `None` where it
/// reports an error.
pub uninterp spec fn json_text(text: Seq<char>) -> Option<JsonView>;

/// `serde_json::from_str` into a `serde_json::Value`. Claimed: whether it succeeds and what the
/// value holds depend on the text alone.
#[verifier::external_body]
fn read_value(text: &str) -> (r: Result<serde_json::Value, serde_json::Error>)
    ensures
        match r {
            Ok(v) => json_text(text@) == Some(value_view(v)),
            Err(_) => json_text(text@) is None,
        },
{
    serde_json::from_str(text)
}

/// The text that `serde_json::to_string_pretty` writes.
pub uninterp spec fn pretty_text(v: JsonView) -> Seq<char>;

/// `v` holds no float and nests at most `depth` arrays and objects in one another.
pub open spec fn plain_within(v: JsonView, depth: nat) -> bool
    decreases depth,
{
    match v {
        JsonView::Float(_) => false,
        JsonView::Array(items) => depth > 0 && forall|i: int|
            0 <= i < items.len() ==> plain_within(#[trigger] items[i], (depth - 1) as nat),
        JsonView::Object(fields) => depth > 0 && forall|k: Seq<char>|
            fields.contains_key(k) ==> plain_within(#[trigger] fields[k], (depth - 1) as nat),
        _ => true,
    }
}

/// `serde_json::to_string_pretty` on a `serde_json::Value`. Claimed: it succeeds, since every key
/// of such a value is a string; the text depends on what the value holds; and
/// `serde_json::from_str` reads the text back to the same value where that holds no float and
/// stays within the reader's nesting limit.
#[verifier::external_body]
fn write_value(v: &serde_json::Value) -> (r: Result<String, serde_json::Error>)
    ensures
        r is Ok,
        r->Ok_0@ == pretty_text(value_view(*v)),
        plain_within(value_view(*v), 127) ==> json_text(r->Ok_0@) == Some(value_view(*v)),
{
    serde_json::to_string_pretty(v)
}

/// The text of a value in Rust's debug format.
pub uninterp spec fn debug_text(v: JsonView) -> Seq<char>;

/// The `Debug` format of a `serde_json::Value`. Claimed: it depends on what the value holds alone.
#[verifier::external_body]
fn debug_value(v: &serde_json::Value) -> (r: String)
    ensures
        r@ == debug_text(value_view(*v)),
{
    format!("{:?}", v)
}

/// `Clone` of a `serde_json::Value`. Claimed: the copy equals the value.
pub assume_specification[ <serde_json::Value as Clone>::clone ](v: &serde_json::Value) -> (r:
    serde_json::Value)
    ensures
        r == *v,
;

/// With distinct names every pair stands in the map.
pub proof fn lemma_pairs_map_entry<V>(pairs: Seq<(Seq<char>, V)>, i: int)
    requires
        distinct_names(pairs),
        0 <= i < pairs.len(),
    ensures
        pairs_map(pairs).contains_key(pairs[i].0),
        pairs_map(pairs)[pairs[i].0] == pairs[i].1,
    decreases pairs.len(),
{
    let n = pairs.len() - 1;
    if i < n {
        assert(distinct_names(pairs.drop_last())) by {
            assert forall|a: int, b: int| 0 <= a < b < n implies (#[trigger] pairs.drop_last()[a]).0
                != (#[trigger] pairs.drop_last()[b]).0 by {
                assert(pairs[a].0 != pairs[b].0);
            }
        }
        lemma_pairs_map_entry(pairs.drop_last(), i);
        assert(pairs[i].0 != pairs[n].0);
    }
}

/// A name stands in the map where some pair has it.
pub proof fn lemma_pairs_map_key<V>(pairs: Seq<(Seq<char>, V)>, k: Seq<char>)
    ensures
        pairs_map(pairs).dom().finite(),
        pairs_map(pairs).contains_key(k) <==> exists|i: int|
            0 <= i < pairs.len() && (#[trigger] pairs[i]).0 == k,
    decreases pairs.len(),
{
    if pairs.len() > 0 {
        let front = pairs.drop_last();
        lemma_pairs_map_key(front, k);
        if pairs_map(front).contains_key(k) {
            let i = choose|i: int| 0 <= i < front.len() && (#[trigger] front[i]).0 == k;
            assert(pairs[i].0 == k);
        }
        if exists|i: int| 0 <= i < pairs.len() && (#[trigger] pairs[i]).0 == k {
            let i = choose|i: int| 0 <= i < pairs.len() && (#[trigger] pairs[i]).0 == k;
            if i < front.len() {
                assert(front[i].0 == k);
            }
        }
    }
}

/// The value of a name is that of its last pair.
pub proof fn lemma_pairs_map_last<V>(pairs: Seq<(Seq<char>, V)>, i: int)
    requires
        0 <= i < pairs.len(),
        forall|j: int| i < j < pairs.len() ==> (#[trigger] pairs[j]).0 != pairs[i].0,
    ensures
        pairs_map(pairs).contains_key(pairs[i].0),
        pairs_map(pairs)[pairs[i].0] == pairs[i].1,
    decreases pairs.len(),
{
    let n = pairs.len() - 1;
    if i < n {
        assert(pairs[n].0 != pairs[i].0);
        assert forall|j: int| i < j < n implies (#[trigger] pairs.drop_last()[j]).0
            != pairs.drop_last()[i].0 by {
            assert(pairs[j].0 != pairs[i].0);
        }
        lemma_pairs_map_last(pairs.drop_last(), i);
    }
}

impl Json {
    /// Takes a `serde_json::Value` over.
    pub fn from_value(v: serde_json::Value) -> (r: Json)
        ensures
            r@ == value_view(v),
        decreases value_view(v),
    {
        let ghost whole = value_view(v);
        match peel(v) {
            Layer::Null => Json::Null,
            Layer::Bool(b) => Json::Bool(b),
            Layer::Number(n) => {
                if let Some(u) = n.unsigned {
                    Json::Unsigned(u)
                } else if let Some(i) = n.signed {
                    Json::Signed(i)
                } else if let Some(bits) = n.bits {
                    Json::Float(FloatNumber { bits, value: n.value })
                } else {
                    Json::Null
                }
            },
            Layer::Text(s) => Json::Text(s),
            Layer::Array(items) => {
                let ghost views = values_view(items@);
                let mut out: Vec<Json> = Vec::new();
                for item in it: items.into_iter()
                    invariant
                        whole == value_view(v),
                        whole == JsonView::Array(views),
                        views == values_view(it.seq()),
                        out@.len() == it.index(),
                        items_view(out@) == views.take(it.index()),
                {
                    let ghost at = it.index();
                    assert(views[at] == value_view(item));
                    assert(whole->Array_0 == views);
                    assert(decreases_to!(whole => whole->Array_0));
                    assert(decreases_to!(views => views[at]));
                    let j = Json::from_value(item);
                    let ghost before = out@;
                    out.push(j);
                    assert(items_view(out@) =~= items_view(before).push(views[at]));
                    assert(views.take(at + 1) =~= views.take(at).push(views[at]));
                }
                assert(views.take(views.len() as int) =~= views);
                Json::Array(out)
            },
            Layer::Object(fields) => {
                let ghost views = named_view(fields@);
                let mut out: Vec<(String, Json)> = Vec::new();
                for field in it: fields.into_iter()
                    invariant
                        whole == value_view(v),
                        whole == object(views),
                        views == named_view(it.seq()),
                        distinct_names(views),
                        out@.len() == it.index(),
                        fields_view(out@) == views.take(it.index()),
                {
                    let ghost at = it.index();
                    assert(views[at] == (field.0@, value_view(field.1)));
                    proof {
                        lemma_pairs_map_entry(views, at);
                        lemma_pairs_map_key(views, field.0@);
                        assert(whole->Object_0 == pairs_map(views));
                        assert(decreases_to!(whole => whole->Object_0));
                        assert(decreases_to!(pairs_map(views) => pairs_map(views)[field.0@]));
                    }
                    let j = Json::from_value(field.1);
                    let ghost before = out@;
                    out.push((field.0, j));
                    assert(fields_view(out@) =~= fields_view(before).push(views[at]));
                    assert(views.take(at + 1) =~= views.take(at).push(views[at]));
                }
                assert(views.take(views.len() as int) =~= views);
                Json::Object(out)
            },
        }
    }

    /// The same value for `serde_json`.
    pub fn to_value(&self) -> (r: serde_json::Value)
        ensures
            value_view(r) == self@,
        decreases self,
    {
        match self {
            Json::Null => assemble(Part::Null),
            Json::Bool(b) => assemble(Part::Bool(*b)),
            Json::Unsigned(n) => assemble(Part::Unsigned(*n)),
            Json::Signed(n) => assemble(Part::Signed(*n)),
            Json::Float(f) => {
                proof {
                    use_type_invariant(f);
                }
                f.value.clone()
            },
            Json::Text(s) => assemble(Part::Text(s.clone())),
            Json::Array(items) => {
                let mut out: Vec<serde_json::Value> = Vec::new();
                let mut i: usize = 0;
                while i < items.len()
                    invariant
                        *self == Json::Array(*items),
                        i <= items@.len(),
                        values_view(out@) == items_view(items@).take(i as int),
                    decreases items@.len() - i,
                {
                    assert(decreases_to!(*self => self->Array_0));
                    assert(decreases_to!(*items => items@));
                    assert(decreases_to!(items@ => items@[i as int]));
                    let v = items[i].to_value();
                    let ghost before = out@;
                    out.push(v);
                    assert(values_view(out@) =~= values_view(before).push(
                        items_view(items@)[i as int],
                    ));
                    assert(items_view(items@).take(i + 1) =~= items_view(items@).take(
                        i as int,
                    ).push(items_view(items@)[i as int]));
                    i = i + 1;
                }
                assert(items_view(items@).take(i as int) =~= items_view(items@));
                assemble(Part::Array(out))
            },
            Json::Object(fields) => {
                let mut out: Vec<(String, serde_json::Value)> = Vec::new();
                let mut i: usize = 0;
                while i < fields.len()
                    invariant
                        *self == Json::Object(*fields),
                        i <= fields@.len(),
                        named_view(out@) == fields_view(fields@).take(i as int),
                    decreases fields@.len() - i,
                {
                    assert(decreases_to!(*self => self->Object_0));
                    assert(decreases_to!(*fields => fields@));
                    assert(decreases_to!(fields@ => fields@[i as int]));
                    assert(decreases_to!(fields@[i as int] => fields@[i as int].1));
                    let v = fields[i].1.to_value();
                    let ghost before = out@;
                    out.push((fields[i].0.clone(), v));
                    assert(named_view(out@) =~= named_view(before).push(
                        fields_view(fields@)[i as int],
                    ));
                    assert(fields_view(fields@).take(i + 1) =~= fields_view(fields@).take(
                        i as int,
                    ).push(fields_view(fields@)[i as int]));
                    i = i + 1;
                }
                assert(fields_view(fields@).take(i as int) =~= fields_view(fields@));
                assemble(Part::Object(out))
            },
        }
    }

    /// Reads a JSON text.
    pub fn parse(text: &str) -> (r: Result<Json, MalformedJson>)
        ensures
            match json_text(text@) {
                Some(v) => r is Ok && r->Ok_0@ == v,
                None => r is Err,
            },
    {
        match read_value(text) {
            Ok(v) => Ok(Json::from_value(v)),
            Err(_) => Err(MalformedJson),
        }
    }

    /// Writes the value over several lines.
    pub fn render(&self) -> (r: String)
        ensures
            r@ == pretty_text(self@),
            plain_within(self@, 127) ==> json_text(r@) == Some(self@),
    {
        let v = self.to_value();
        match write_value(&v) {
            Ok(text) => text,
            Err(_) => String::new(),
        }
    }

    /// A value that holds the same.
    pub fn copy(&self) -> (r: Json)
        ensures
            r@ == self@,
    {
        Json::from_value(self.to_value())
    }

    /// The value in Rust's debug format.
    pub fn debug(&self) -> (r: String)
        ensures
            r@ == debug_text(self@),
    {
        let v = self.to_value();
        debug_value(&v)
    }

    /// The field of an object with the given name.
    pub fn get(&self, name: &str) -> (r: Option<&Json>)
        ensures
            match r {
                Some(j) => j@ == field(self@, name@) && has_field(self@, name@),
                None => !has_field(self@, name@),
            },
    {
        match self {
            Json::Object(fields) => {
                let ghost pairs = fields_view(fields@);
                let mut i: usize = fields.len();
                while i > 0
                    invariant
                        pairs == fields_view(fields@),
                        self@ == object(pairs),
                        i <= fields@.len(),
                        forall|k: int| i <= k < pairs.len() ==> (#[trigger] pairs[k]).0 != name@,
                    decreases i,
                {
                    i = i - 1;
                    assert(pairs[i as int].0 == fields@[i as int].0@);
                    if same(fields[i].0.as_str(), name) {
                        proof {
                            lemma_pairs_map_last(pairs, i as int);
                        }
                        return Some(&fields[i].1);
                    }
                }
                proof {
                    lemma_pairs_map_key(pairs, name@);
                }
                None
            },
            _ => None,
        }
    }

    /// Whether the field is missing or null.
    pub fn lacks(&self, name: &str) -> (r: bool)
        ensures
            r == (field(self@, name@) is Null),
    {
        match self.get(name) {
            Some(Json::Null) => true,
            Some(_) => false,
            None => true,
        }
    }

    /// The text of a field, where that is a text.
    pub fn text_at(&self, name: &str) -> (r: Option<&str>)
        ensures
            match text_of(field(self@, name@)) {
                Some(s) => r is Some && r->Some_0@ == s,
                None => r is None,
            },
    {
        match self.get(name) {
            Some(Json::Text(s)) => Some(s.as_str()),
            _ => None,
        }
    }

    /// The text of a field, empty where it is no text.
    pub fn text_or_empty(&self, name: &str) -> (r: &str)
        ensures
            r@ == text_or_empty(field(self@, name@)),
    {
        match self.text_at(name) {
            Some(s) => s,
            None => {
                proof {
                    reveal_strlit("");
                    assert(""@ =~= Seq::<char>::empty());
                }
                ""
            },
        }
    }

    /// A field, null where there is none.
    pub fn at(&self, name: &str) -> (r: &Json)
        ensures
            r@ == field(self@, name@),
    {
        match self.get(name) {
            Some(j) => j,
            None => &Json::Null,
        }
    }

    /// The items of a field, where that is an array.
    pub fn array_at(&self, name: &str) -> (r: Option<&Vec<Json>>)
        ensures
            match field(self@, name@) {
                JsonView::Array(items) => r is Some && items_view(r->Some_0@) == items,
                _ => r is None,
            },
    {
        match self.get(name) {
            Some(Json::Array(items)) => Some(items),
            _ => None,
        }
    }

    /// A field as an unsigned integer.
    pub fn unsigned_at(&self, name: &str) -> (r: Option<u64>)
        ensures
            r == unsigned_of(field(self@, name@)),
    {
        match self.get(name) {
            Some(Json::Unsigned(n)) => Some(*n),
            Some(Json::Signed(n)) => {
                if *n >= 0 {
                    Some(*n as u64)
                } else {
                    None
                }
            },
            _ => None,
        }
    }

    /// A field as a signed integer.
    pub fn signed_at(&self, name: &str) -> (r: Option<i64>)
        ensures
            r == signed_of(field(self@, name@)),
    {
        match self.get(name) {
            Some(Json::Unsigned(n)) => {
                if *n <= 9223372036854775807 {
                    Some(*n as i64)
                } else {
                    None
                }
            },
            Some(Json::Signed(n)) => Some(*n),
            _ => None,
        }
    }

    /// Whether a field is the given text.
    pub fn is_text(&self, name: &str, expected: &str) -> (r: bool)
        ensures
            r == (field(self@, name@) == JsonView::Text(expected@)),
    {
        match self.text_at(name) {
            Some(s) => same(s, expected),
            None => false,
        }
    }

    /// A field in Rust's debug format, a missing one as null.
    pub fn debug_at(&self, name: &str) -> (r: String)
        ensures
            r@ == debug_text(field(self@, name@)),
    {
        match self.get(name) {
            Some(j) => j.debug(),
            None => Json::Null.debug(),
        }
    }

    /// A JSON text.
    pub fn text(s: &str) -> (r: Json)
        ensures
            r@ == JsonView::Text(s@),
    {
        Json::Text(s.to_owned())
    }

    /// An array of texts.
    pub fn texts(list: &Vec<String>) -> (r: Json)
        ensures
            r@ == text_array(texts(list@)),
    {
        let mut items: Vec<Json> = Vec::new();
        let mut i: usize = 0;
        while i < list.len()
            invariant
                i <= list@.len(),
                items@.len() == i,
                forall|k: int| 0 <= k < i ==> json_view(#[trigger] items@[k]) == JsonView::Text(
                    list@[k]@,
                ),
            decreases list@.len() - i,
        {
            items.push(Json::Text(list[i].clone()));
            i = i + 1;
        }
        assert(items_view(items@) =~= text_items(texts(list@)));
        Json::Array(items)
    }
}

/// The text is no JSON.
#[derive(Debug, Clone, Copy, PartialEq, Eq, Structural)]
pub struct MalformedJson;

/// An array of the given texts.
pub open spec fn text_items(list: Seq<Seq<char>>) -> Seq<JsonView> {
    Seq::new(list.len(), |i: int| JsonView::Text(list[i]))
}

/// An array of the given texts.
pub open spec fn text_array(list: Seq<Seq<char>>) -> JsonView {
    JsonView::Array(text_items(list))
}

/// `v` is an object with a field of that name.
pub open spec fn has_field(v: JsonView, name: Seq<char>) -> bool {
    v matches JsonView::Object(fields) && fields.contains_key(name)
}

/// The field of an object, `Null` where there is none.
pub open spec fn field(v: JsonView, name: Seq<char>) -> JsonView {
    match v {
        JsonView::Object(fields) => if fields.contains_key(name) {
            fields[name]
        } else {
            JsonView::Null
        },
        _ => JsonView::Null,
    }
}

/// The text that `v` is.
pub open spec fn text_of(v: JsonView) -> Option<Seq<char>> {
    match v {
        JsonView::Text(s) => Some(s),
        _ => None,
    }
}

/// The text that `v` is, empty where it is none.
pub open spec fn text_or_empty(v: JsonView) -> Seq<char> {
    match v {
        JsonView::Text(s) => s,
        _ => Seq::empty(),
    }
}

/// The unsigned integer that `v` is.
pub open spec fn unsigned_of(v: JsonView) -> Option<u64> {
    match v {
        JsonView::Unsigned(n) => Some(n),
        _ => None,
    }
}

/// The signed integer that `v` is.
pub open spec fn signed_of(v: JsonView) -> Option<i64> {
    match v {
        JsonView::Unsigned(n) => if n <= i64::MAX {
            Some(n as i64)
        } else {
            None
        },
        JsonView::Negative(n) => Some(n),
        _ => None,
    }
}

/// The fields of an object under construction.
pub struct Fields {
    entries: Vec<(String, Json)>,
}

impl Fields {
    /// The fields so far.
    pub closed spec fn list(self) -> Seq<(Seq<char>, JsonView)> {
        fields_view(self.entries@)
    }

    /// No fields.
    pub fn new() -> (r: Fields)
        ensures
            r.list() == Seq::<(Seq<char>, JsonView)>::empty(),
    {
        let r = Fields { entries: Vec::new() };
        assert(r.list() =~= Seq::<(Seq<char>, JsonView)>::empty());
        r
    }

    /// One more field.
    pub fn with(self, name: &str, value: Json) -> (r: Fields)
        ensures
            r.list() == self.list().push((name@, value@)),
    {
        let ghost before = self.list();
        let mut entries = self.entries;
        let ghost v = value@;
        entries.push((name.to_owned(), value));
        assert(fields_view(entries@) =~= before.push((name@, v)));
        Fields { entries }
    }

    /// One more field that is a text.
    pub fn with_text(self, name: &str, value: &str) -> (r: Fields)
        ensures
            r.list() == self.list().push((name@, JsonView::Text(value@))),
    {
        self.with(name, Json::Text(value.to_owned()))
    }

    /// The object.
    pub fn done(self) -> (r: Json)
        ensures
            r@ == object(self.list()),
    {
        Json::Object(self.entries)
    }
}

/// The items of an array under construction.
pub struct Items {
    entries: Vec<Json>,
}

impl Items {
    /// The items so far.
    pub closed spec fn list(self) -> Seq<JsonView> {
        items_view(self.entries@)
    }

    /// No items.
    pub fn new() -> (r: Items)
        ensures
            r.list() == Seq::<JsonView>::empty(),
    {
        let r = Items { entries: Vec::new() };
        assert(r.list() =~= Seq::<JsonView>::empty());
        r
    }

    /// One more item.
    pub fn with(self, value: Json) -> (r: Items)
        ensures
            r.list() == self.list().push(value@),
    {
        let ghost before = self.list();
        let mut entries = self.entries;
        let ghost v = value@;
        entries.push(value);
        assert(items_view(entries@) =~= before.push(v));
        Items { entries }
    }

    /// One more item that is a text.
    pub fn with_text(self, value: &str) -> (r: Items)
        ensures
            r.list() == self.list().push(JsonView::Text(value@)),
    {
        self.with(Json::Text(value.to_owned()))
    }

    /// Number of items.
    pub fn len(&self) -> (r: usize)
        ensures
            r == self.list().len(),
    {
        self.entries.len()
    }

    /// The array.
    pub fn done(self) -> (r: Json)
        ensures
            r@ == JsonView::Array(self.list()),
    {
        Json::Array(self.entries)
    }
}

/// What nests no deeper than `a` nests no deeper than a larger `b`.
pub proof fn lemma_plain_deeper(v: JsonView, a: nat, b: nat)
    requires
        plain_within(v, a),
        a <= b,
    ensures
        plain_within(v, b),
    decreases a,
{
    match v {
        JsonView::Array(items) => {
            assert forall|i: int| 0 <= i < items.len() implies plain_within(
                #[trigger] items[i],
                (b - 1) as nat,
            ) by {
                lemma_plain_deeper(items[i], (a - 1) as nat, (b - 1) as nat);
            }
        },
        JsonView::Object(fields) => {
            assert forall|k: Seq<char>| fields.contains_key(k) implies plain_within(
                #[trigger] fields[k],
                (b - 1) as nat,
            ) by {
                lemma_plain_deeper(fields[k], (a - 1) as nat, (b - 1) as nat);
            }
        },
        _ => {},
    }
}

/// The last field of a list is the one that counts under its name.
pub broadcast proof fn lemma_field_and(
    list: Seq<(Seq<char>, JsonView)>,
    name: Seq<char>,
    value: JsonView,
    k: Seq<char>,
)
    ensures
        #[trigger] field(object(list.and(name, value)), k) == (if k == name {
            value
        } else {
            field(object(list), k)
        }),
{
    assert(list.and(name, value).drop_last() =~= list);
}

/// The list without fields has none.
pub broadcast proof fn lemma_field_none(k: Seq<char>)
    ensures
        #[trigger] field(object(fields()), k) == JsonView::Null,
{
}

/// One more plain field leaves an object plain.
pub broadcast proof fn lemma_plain_and(
    list: Seq<(Seq<char>, JsonView)>,
    name: Seq<char>,
    value: JsonView,
    depth: nat,
)
    requires
        depth > 0,
        plain_within(object(list), depth),
        plain_within(value, (depth - 1) as nat),
    ensures
        #[trigger] plain_within(object(list.and(name, value)), depth),
{
    let longer = list.and(name, value);
    assert(longer.drop_last() =~= list);
    let earlier = object(list);
    let later = object(longer);
    assert forall|k: Seq<char>| later->Object_0.contains_key(k) implies plain_within(
        #[trigger] later->Object_0[k],
        (depth - 1) as nat,
    ) by {
        if k != name {
            assert(earlier->Object_0.contains_key(k));
            assert(later->Object_0[k] == earlier->Object_0[k]);
        }
    }
}

/// An object without fields is plain.
pub broadcast proof fn lemma_plain_none(depth: nat)
    requires
        depth > 0,
    ensures
        #[trigger] plain_within(object(fields()), depth),
{
}

/// One more plain item leaves an array plain.
pub broadcast proof fn lemma_plain_push(list: Seq<JsonView>, value: JsonView, depth: nat)
    requires
        depth > 0,
        plain_within(JsonView::Array(list), depth),
        plain_within(value, (depth - 1) as nat),
    ensures
        #[trigger] plain_within(JsonView::Array(list.push(value)), depth),
{
    let earlier = JsonView::Array(list);
    let later = JsonView::Array(list.push(value));
    assert forall|i: int| 0 <= i < list.push(value).len() implies plain_within(
        #[trigger] later->Array_0[i],
        (depth - 1) as nat,
    ) by {
        if i < list.len() {
            assert(later->Array_0[i] == earlier->Array_0[i]);
        }
    }
}

/// An array without items is plain.
pub broadcast proof fn lemma_plain_empty(depth: nat)
    requires
        depth > 0,
    ensures
        #[trigger] plain_within(JsonView::Array(items()), depth),
{
}

/// An array of texts is plain.
pub broadcast proof fn lemma_plain_texts(list: Seq<Seq<char>>, depth: nat)
    requires
        depth > 0,
    ensures
        #[trigger] plain_within(text_array(list), depth),
{
    let all = text_array(list);
    assert forall|i: int| 0 <= i < list.len() implies plain_within(
        #[trigger] all->Array_0[i],
        (depth - 1) as nat,
    ) by {
        assert(all->Array_0[i] is Text);
    }
}

pub broadcast group group_plain {
    lemma_plain_and,
    lemma_plain_none,
    lemma_plain_push,
    lemma_plain_empty,
    lemma_plain_texts,
}

pub broadcast group group_fields {
    lemma_field_and,
    lemma_field_none,
}

} // verus!
