//! JSON documents as trees of plain values.

use vstd::prelude::*;

verus! {

/// A number of a document, by what it is as an unsigned integer and as a
/// double. The double is kept as its IEEE-754 bit pattern. A number that
/// was read from a text has each of the two that it can be taken for; a
/// number that is to be written needs only one of them.
#[derive(Clone, Copy, Debug, PartialEq, Eq, Structural)]
pub struct JsonNumber {
    pub unsigned: Option<u64>,
    pub float_bits: Option<u64>,
}

/// A JSON value.
#[derive(Debug)]
pub enum Json {
    Null,
    Bool(bool),
    Number(JsonNumber),
    Text(String),
    List(Vec<Json>),
    Object(Vec<(String, Json)>),
}

/// The mathematical value of a [`Json`].
pub ghost enum JsonView {
    Null,
    Bool(bool),
    Number(JsonNumber),
    Text(Seq<char>),
    List(Seq<JsonView>),
    Object(Seq<(Seq<char>, JsonView)>),
}

/// The value of a [`Json`].
pub open spec fn json_view(j: Json) -> JsonView
    decreases j,
{
    match j {
        Json::Null => JsonView::Null,
        Json::Bool(b) => JsonView::Bool(b),
        Json::Number(n) => JsonView::Number(n),
        Json::Text(s) => JsonView::Text(s@),
        Json::List(items) => JsonView::List(list_view(items@)),
        Json::Object(members) => JsonView::Object(members_view(members@)),
    }
}

/// The values of the items of a list, in order.
pub open spec fn list_view(items: Seq<Json>) -> Seq<JsonView>
    decreases items,
{
    if items.len() == 0 {
        Seq::empty()
    } else {
        list_view(items.drop_last()).push(json_view(items.last()))
    }
}

/// The keys and values of the members of an object, in order.
pub open spec fn members_view(members: Seq<(String, Json)>) -> Seq<(Seq<char>, JsonView)>
    decreases members,
{
    if members.len() == 0 {
        Seq::empty()
    } else {
        members_view(members.drop_last()).push((members.last().0@, json_view(members.last().1)))
    }
}

impl View for Json {
    type V = JsonView;

    open spec fn view(&self) -> JsonView {
        json_view(*self)
    }
}

/// The value of a list, item by item.
pub proof fn lemma_list_view(items: Seq<Json>)
    ensures
        list_view(items).len() == items.len(),
        forall|i: int| 0 <= i < items.len() ==> #[trigger] list_view(items)[i] == items[i]@,
    decreases items.len(),
{
    if items.len() > 0 {
        lemma_list_view(items.drop_last());
    }
}

/// The value of an object, member by member.
pub proof fn lemma_members_view(members: Seq<(String, Json)>)
    ensures
        members_view(members).len() == members.len(),
        forall|i: int|
            0 <= i < members.len() ==> #[trigger] members_view(members)[i] == (
                members[i].0@,
                members[i].1@,
            ),
    decreases members.len(),
{
    if members.len() > 0 {
        lemma_members_view(members.drop_last());
    }
}

impl JsonView {
    /// The value of the first member `key` of an object; none for another
    /// value and for an object without such a member.
    pub open spec fn field(self, key: Seq<char>) -> Option<JsonView> {
        match self {
            JsonView::Object(members) => member_of(members, key),
            _ => None,
        }
    }
}

/// The value of the first of `members` whose key is `key`.
#[verifier::opaque]
pub open spec fn member_of(members: Seq<(Seq<char>, JsonView)>, key: Seq<char>) -> Option<
    JsonView,
> {
    if exists|i: int| 0 <= i < members.len() && (#[trigger] members[i]).0 == key {
        let first = choose|i: int|
            0 <= i < members.len() && (#[trigger] members[i]).0 == key && forall|j: int|
                0 <= j < i ==> (#[trigger] members[j]).0 != key;
        Some(members[first].1)
    } else {
        None
    }
}

/// `serde_json::Value`, carried as it is: what it holds is known only by
/// `json_content`.
#[verifier::external_type_specification]
#[verifier::external_body]
pub struct ExValue(serde_json::Value);

/// `serde_json::Error`, carried as it is: nothing is known of it.
#[verifier::external_type_specification]
#[verifier::external_body]
pub struct ExError(serde_json::Error);

/// What a `serde_json::Value` holds, as a tree of plain values.
pub uninterp spec fn json_content(value: serde_json::Value) -> JsonView;

/// What `serde_json::from_str` makes of a text: the content of the value
/// that it reads, or nothing where it refuses the text.
pub uninterp spec fn json_document(text: Seq<char>) -> Option<JsonView>;

/// Calls `serde_json::from_str` for a `serde_json::Value`. The contract
/// gives the outcome its name, `json_document`: the content of the value
/// on success, nothing on an error.
#[verifier::external_body]
fn value_from_str(text: &str) -> (r: Result<serde_json::Value, serde_json::Error>)
    ensures
        match r {
            Ok(value) => json_document(text@) == Some(json_content(value)),
            Err(_) => json_document(text@) is None,
        },
{
    serde_json::from_str(text)
}

/// The top of a `serde_json::Value`: which kind of value it is, and what
/// it is made of.
enum Piece<'a> {
    Null,
    Bool(bool),
    Number(JsonNumber),
    Text(&'a String),
    List(&'a Vec<serde_json::Value>),
    Object(Vec<(&'a String, &'a serde_json::Value)>),
}

/// The contents of the items of an array, in order.
spec fn contents_of(items: Seq<serde_json::Value>) -> Seq<JsonView> {
    items.map_values(|v: serde_json::Value| json_content(v))
}

/// The keys and contents of the members of an object, in order.
spec fn member_contents_of(members: Seq<(&String, &serde_json::Value)>) -> Seq<
    (Seq<char>, JsonView),
> {
    members.map_values(|m: (&String, &serde_json::Value)| (m.0@, json_content(*m.1)))
}

impl<'a> Piece<'a> {
    /// The tree that is made of the piece and the contents of its parts.
    spec fn content(self) -> JsonView {
        match self {
            Piece::Null => JsonView::Null,
            Piece::Bool(b) => JsonView::Bool(b),
            Piece::Number(n) => JsonView::Number(n),
            Piece::Text(s) => JsonView::Text(s@),
            Piece::List(items) => JsonView::List(contents_of(items@)),
            Piece::Object(members) => JsonView::Object(member_contents_of(members@)),
        }
    }
}

/// Tells the variants of a `serde_json::Value` apart and hands out what
/// the variant holds: a number by `Number::as_u64` and by the bits of
/// `Number::as_f64`, an array as it is, an object as the members that
/// `Map::iter` hands out, in its order. The contract says that the content
/// of the value, `json_content`, is made of the piece and the contents of
/// its parts.
#[verifier::external_body]
fn piece_of<'a>(value: &'a serde_json::Value) -> (r: Piece<'a>)
    ensures
        r.content() == json_content(*value),
{
    match value {
        serde_json::Value::Null => Piece::Null,
        serde_json::Value::Bool(b) => Piece::Bool(*b),
        serde_json::Value::Number(n) => Piece::Number(
            JsonNumber { unsigned: n.as_u64(), float_bits: n.as_f64().map(|x| x.to_bits()) },
        ),
        serde_json::Value::String(s) => Piece::Text(s),
        serde_json::Value::Array(a) => Piece::List(a),
        serde_json::Value::Object(m) => Piece::Object(m.iter().collect()),
    }
}

/// Copies what a `serde_json::Value` holds into a [`Json`].
fn json_of_value(value: &serde_json::Value) -> (r: Json)
    ensures
        r@ == json_content(*value),
    decreases json_content(*value),
{
    match piece_of(value) {
        Piece::Null => Json::Null,
        Piece::Bool(b) => Json::Bool(b),
        Piece::Number(n) => Json::Number(n),
        Piece::Text(s) => Json::Text(s.clone()),
        Piece::List(items) => {
            let ghost contents = contents_of(items@);
            let n = items.len();
            let mut out: Vec<Json> = Vec::new();
            let mut i: usize = 0;
            assert(list_view(out@) =~= contents.take(0));
            while i < n
                invariant
                    i <= n,
                    n == items@.len(),
                    contents == contents_of(items@),
                    json_content(*value) == JsonView::List(contents),
                    list_view(out@) == contents.take(i as int),
                decreases n - i,
            {
                proof {
                    assert(contents[i as int] == json_content(items@[i as int]));
                    let tree = json_content(*value);
                    assert(decreases_to!(tree => tree->List_0));
                    assert(decreases_to!(contents => contents[i as int]));
                }
                let item = json_of_value(&items[i]);
                let ghost before = out@;
                out.push(item);
                proof {
                    assert(out@.drop_last() =~= before);
                    assert(contents.take(i + 1) =~= contents.take(i as int).push(item@));
                }
                i += 1;
            }
            assert(contents.take(n as int) =~= contents);
            Json::List(out)
        },
        Piece::Object(members) => {
            let ghost contents = member_contents_of(members@);
            let n = members.len();
            let mut out: Vec<(String, Json)> = Vec::new();
            let mut i: usize = 0;
            assert(members_view(out@) =~= contents.take(0));
            while i < n
                invariant
                    i <= n,
                    n == members@.len(),
                    contents == member_contents_of(members@),
                    json_content(*value) == JsonView::Object(contents),
                    members_view(out@) == contents.take(i as int),
                decreases n - i,
            {
                proof {
                    assert(contents[i as int] == (
                        members@[i as int].0@,
                        json_content(*members@[i as int].1),
                    ));
                    let tree = json_content(*value);
                    assert(decreases_to!(tree => tree->Object_0));
                    assert(decreases_to!(contents => contents[i as int]));
                    assert(decreases_to!(contents[i as int] => contents[i as int].1));
                }
                let key = members[i].0.clone();
                let item = json_of_value(members[i].1);
                let ghost before = out@;
                out.push((key, item));
                proof {
                    assert(out@.drop_last() =~= before);
                    assert(contents.take(i + 1) =~= contents.take(i as int).push((key@, item@)));
                }
                i += 1;
            }
            assert(contents.take(n as int) =~= contents);
            Json::Object(out)
        },
    }
}

impl Json {
    /// Reads a JSON text.
    pub fn parse(text: &str) -> (r: Option<Json>)
        ensures
            match r {
                Some(doc) => json_document(text@) == Some(doc@),
                None => json_document(text@) is None,
            },
    {
        match value_from_str(text) {
            Ok(value) => Some(json_of_value(&value)),
            Err(_) => None,
        }
    }

    /// The value of the first member `key` of an object.
    pub fn get(&self, key: &str) -> (r: Option<&Json>)
        ensures
            match r {
                Some(value) => self@.field(key@) == Some(value@),
                None => self@.field(key@) is None,
            },
    {
        match self {
            Json::Object(members) => {
                let wanted = String::from_str(key);
                let ghost mv = members_view(members@);
                let n = members.len();
                proof {
                    lemma_members_view(members@);
                }
                let mut i: usize = 0;
                while i < n
                    invariant
                        i <= n,
                        n == members@.len(),
                        wanted@ == key@,
                        self@ == JsonView::Object(mv),
                        mv.len() == n,
                        forall|j: int|
                            0 <= j < n ==> #[trigger] mv[j] == (members@[j].0@, members@[j].1@),
                        forall|j: int| 0 <= j < i ==> (#[trigger] mv[j]).0 != key@,
                    decreases n - i,
                {
                    if members[i].0 == wanted {
                        proof {
                            reveal(member_of);
                            let k = i as int;
                            assert(mv[k].0 == key@);
                            let c = choose|c: int|
                                0 <= c < mv.len() && (#[trigger] mv[c]).0 == key@ && forall|j: int|
                                    0 <= j < c ==> (#[trigger] mv[j]).0 != key@;
                            assert(0 <= c < mv.len() && mv[c].0 == key@ && forall|j: int|
                                0 <= j < c ==> (#[trigger] mv[j]).0 != key@);
                            assert(c == k) by {
                                if c < k {
                                    assert(mv[c].0 != key@);
                                }
                                if k < c {
                                    assert(mv[k].0 != key@);
                                }
                            }
                        }
                        return Some(&members[i].1);
                    }
                    i += 1;
                }
                proof {
                    reveal(member_of);
                }
                None
            },
            _ => None,
        }
    }
}

} // verus!
