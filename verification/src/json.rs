//! The JSON values that the state API answers with.

use vstd::prelude::*;

verus! {

/// A JSON value. A number that is no natural number is given by the bits of its
/// floating-point representation.
#[derive(Debug)]
pub enum Json {
    Null,
    Number(u64),
    Single(u32),
    Double(u64),
    Text(String),
    Array(Vec<Json>),
    Object(Vec<(&'static str, Json)>),
}

/// What a [`Json`] holds.
pub enum JsonView {
    Null,
    Number(u64),
    Single(u32),
    Double(u64),
    Text(Seq<char>),
    Array(Seq<JsonView>),
    Object(Seq<(Seq<char>, JsonView)>),
}

/// What a JSON value holds.
pub open spec fn json_view(j: Json) -> JsonView
    decreases j,
{
    match j {
        Json::Null => JsonView::Null,
        Json::Number(n) => JsonView::Number(n),
        Json::Single(n) => JsonView::Single(n),
        Json::Double(n) => JsonView::Double(n),
        Json::Text(s) => JsonView::Text(s@),
        Json::Array(v) => JsonView::Array(
            Seq::new(
                v@.len(),
                |i: int|
                    if 0 <= i < v@.len() {
                        json_view(v@[i])
                    } else {
                        JsonView::Null
                    },
            ),
        ),
        Json::Object(v) => JsonView::Object(
            Seq::new(
                v@.len(),
                |i: int|
                    if 0 <= i < v@.len() {
                        (v@[i].0@, json_view(v@[i].1))
                    } else {
                        (seq![], JsonView::Null)
                    },
            ),
        ),
    }
}

/// A view keeps every value, every item and every field in its place.
pub proof fn views_keep_values(n: u64, bits: u32, s: String, v: Vec<Json>, f: Vec<(&'static str, Json)>)
    ensures
        json_view(Json::Null) == JsonView::Null,
        json_view(Json::Number(n)) == JsonView::Number(n),
        json_view(Json::Single(bits)) == JsonView::Single(bits),
        json_view(Json::Double(n)) == JsonView::Double(n),
        json_view(Json::Text(s)) == JsonView::Text(s@),
        json_view(Json::Array(v)) matches JsonView::Array(items) && items.len() == v@.len()
            && forall|i: int| 0 <= i < v@.len() ==> #[trigger] items[i] == json_view(v@[i]),
        json_view(Json::Object(f)) matches JsonView::Object(fields) && fields.len() == f@.len()
            && forall|i: int|
            0 <= i < f@.len() ==> #[trigger] fields[i] == (f@[i].0@, json_view(f@[i].1)),
{
}

impl View for Json {
    type V = JsonView;

    open spec fn view(&self) -> JsonView {
        json_view(*self)
    }
}

impl Json {
    /// A natural number.
    pub fn number(n: u64) -> (r: Json)
        ensures
            r@ == JsonView::Number(n),
            r == Json::Number(n),
    {
        Json::Number(n)
    }

    /// A text.
    pub fn text(s: &str) -> (r: Json)
        ensures
            r@ == JsonView::Text(s@),
            r matches Json::Text(t) && t@ == s@,
    {
        Json::Text(s.to_owned())
    }

    /// A number or, where there is none, null.
    pub fn optional(n: Option<u64>) -> (r: Json)
        ensures
            r@ == (match n {
                Some(n) => JsonView::Number(n),
                None => JsonView::Null,
            }),
            n matches Some(k) ==> r == Json::Number(k),
            n is None ==> r == Json::Null,
    {
        match n {
            Some(n) => Json::Number(n),
            None => Json::Null,
        }
    }

    /// A single-precision number, by its bits.
    pub fn single(bits: u32) -> (r: Json)
        ensures
            r@ == JsonView::Single(bits),
            r == Json::Single(bits),
    {
        Json::Single(bits)
    }

    /// A double-precision number, by its bits.
    pub fn double(bits: u64) -> (r: Json)
        ensures
            r@ == JsonView::Double(bits),
            r == Json::Double(bits),
    {
        Json::Double(bits)
    }

    /// An array.
    pub fn array(items: Vec<Json>) -> (r: Json)
        ensures
            r@ == JsonView::Array(items@.map_values(|j: Json| j@)),
            r == Json::Array(items),
    {
        let r = Json::Array(items);
        proof {
            assert(r@->Array_0 == items@.map_values(|j: Json| j@));
        }
        r
    }

    /// An object.
    pub fn object(fields: Vec<(&'static str, Json)>) -> (r: Json)
        ensures
            r@ == JsonView::Object(
                fields@.map_values(|f: (&'static str, Json)| (f.0@, f.1@)),
            ),
            r == Json::Object(fields),
    {
        let r = Json::Object(fields);
        proof {
            assert(r@->Object_0 == fields@.map_values(|f: (&'static str, Json)| (f.0@, f.1@)));
        }
        r
    }
}

} // verus!
