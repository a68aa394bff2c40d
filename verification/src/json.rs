//! Reading JSON replies. A document is modelled by its nodes: a map from the path of each value
//! inside it to what that value is.

use vstd::prelude::*;

verus! {

/// One step of a path into a JSON document.
pub enum JsonStep {
    Key(Seq<char>),
    Item(int),
}

/// What stands at one place of a JSON document. A number is known by the bit pattern of the
/// double that it is read as, a list by its length.
pub enum JsonNode {
    Null,
    Bool(bool),
    Number(u64),
    Text(Seq<char>),
    List(nat),
    Record,
}

/// The nodes of a document by their paths.
pub type JsonNodes = Map<Seq<JsonStep>, JsonNode>;

/// `serde_json::Value`, a JSON value of any kind.
#[verifier::external_type_specification]
#[verifier::external_body]
pub struct ExValue(serde_json::Value);

/// The nodes of a parsed value.
pub uninterp spec fn json_contents(v: serde_json::Value) -> Map<Seq<JsonStep>, JsonNode>;

/// The nodes of the document that `serde_json` reads from these bytes, if they are JSON.
pub uninterp spec fn json_document(bytes: Seq<u8>) -> Option<Map<Seq<JsonStep>, JsonNode>>;

/// The part of a document at `path` and below, with paths counted from there.
pub open spec fn below(doc: JsonNodes, path: Seq<JsonStep>) -> JsonNodes {
    Map::new(|p: Seq<JsonStep>| doc.contains_key(path + p), |p: Seq<JsonStep>| doc[path + p])
}

/// The document without any node.
pub open spec fn nothing() -> JsonNodes {
    Map::empty()
}

/// The nodes of a value that may be missing.
pub open spec fn contents_of(v: Option<&serde_json::Value>) -> JsonNodes {
    match v {
        Some(x) => json_contents(*x),
        None => nothing(),
    }
}

/// The text at a path, if a text stands there.
pub open spec fn text_at(doc: JsonNodes, path: Seq<JsonStep>) -> Option<Seq<char>> {
    if doc.contains_key(path) {
        match doc[path] {
            JsonNode::Text(t) => Some(t),
            _ => None,
        }
    } else {
        None
    }
}

/// The length of the list at a path, if a list stands there.
pub open spec fn list_at(doc: JsonNodes, path: Seq<JsonStep>) -> Option<nat> {
    if doc.contains_key(path) {
        match doc[path] {
            JsonNode::List(n) => Some(n),
            _ => None,
        }
    } else {
        None
    }
}

/// The number at a path, if a number stands there.
pub open spec fn number_at(doc: JsonNodes, path: Seq<JsonStep>) -> Option<u64> {
    if doc.contains_key(path) {
        match doc[path] {
            JsonNode::Number(bits) => Some(bits),
            _ => None,
        }
    } else {
        None
    }
}

/// The view of a text that may be missing.
pub open spec fn text_of(s: Option<String>) -> Option<Seq<char>> {
    match s {
        Some(t) => Some(t@),
        None => None,
    }
}

/// `serde_json::from_slice` into a `Value`: the document that the bytes hold, or nothing if they
/// are not JSON.
#[verifier::external_body]
fn from_slice(bytes: &[u8]) -> (r: Option<serde_json::Value>)
    ensures
        r is Some <==> json_document(bytes@) is Some,
        r matches Some(v) ==> json_contents(v) == json_document(bytes@)->0,
{
    serde_json::from_slice::<serde_json::Value>(bytes).ok()
}

/// `Value::get` with a key: the member of that name, if the value is an object that has one.
/// Without the member there is nothing below it.
#[verifier::external_body]
fn get_member<'a>(v: &'a serde_json::Value, key: &str) -> (r: Option<&'a serde_json::Value>)
    ensures
        contents_of(r) == below(json_contents(*v), seq![JsonStep::Key(key@)]),
        r is Some <==> json_contents(*v).contains_key(seq![JsonStep::Key(key@)]),
{
    v.get(key)
}

/// `Value::get` with an index: the element there, if the value is an array that has one. Without
/// the element there is nothing below it.
#[verifier::external_body]
fn get_item(v: &serde_json::Value, index: usize) -> (r: Option<&serde_json::Value>)
    ensures
        contents_of(r) == below(json_contents(*v), seq![JsonStep::Item(index as int)]),
        r is Some <==> json_contents(*v).contains_key(seq![JsonStep::Item(index as int)]),
{
    v.get(index)
}

/// `Value::as_str`: the text, if the value is a string.
#[verifier::external_body]
fn as_text(v: &serde_json::Value) -> (r: Option<String>)
    ensures
        text_of(r) == text_at(json_contents(*v), seq![]),
{
    v.as_str().map(|s| s.to_string())
}

/// `Value::as_array`: how many elements the value has, if it is an array.
#[verifier::external_body]
fn as_list(v: &serde_json::Value) -> (r: Option<usize>)
    ensures
        (match r {
            Some(n) => Some(n as nat),
            None => None,
        }) == list_at(json_contents(*v), seq![]),
{
    v.as_array().map(|a| a.len())
}

/// `Value::as_f64`: the bit pattern of the number, if the value is a number.
#[verifier::external_body]
fn as_number(v: &serde_json::Value) -> (r: Option<u64>)
    ensures
        r == number_at(json_contents(*v), seq![]),
{
    v.as_f64().map(|x| x.to_bits())
}

/// `Value::clone` keeps what the value holds.
#[verifier::external_body]
fn copy_value(v: &serde_json::Value) -> (r: serde_json::Value)
    ensures
        json_contents(r) == json_contents(*v),
{
    v.clone()
}

/// One step of a path, as the reading functions take it.
pub enum Step<'a> {
    Key(&'a str),
    Item(usize),
}

impl<'a> View for Step<'a> {
    type V = JsonStep;

    open spec fn view(&self) -> JsonStep {
        match self {
            Step::Key(k) => JsonStep::Key(k@),
            Step::Item(i) => JsonStep::Item(*i as int),
        }
    }
}

/// The path that a list of steps describes.
pub open spec fn path_of(steps: Seq<Step>) -> Seq<JsonStep> {
    Seq::new(steps.len(), |i: int| steps[i]@)
}

/// Reads a JSON document.
pub fn parse(bytes: &[u8]) -> (r: Option<serde_json::Value>)
    ensures
        r is Some <==> json_document(bytes@) is Some,
        r matches Some(v) ==> json_contents(v) == json_document(bytes@)->0,
{
    from_slice(bytes)
}

/// Follows a path into a value. Where a step leads nowhere, there is nothing to follow further.
pub fn reach<'a>(v: &'a serde_json::Value, steps: &Vec<Step>) -> (r: Option<&'a serde_json::Value>)
    ensures
        contents_of(r) == below(json_contents(*v), path_of(steps@)),
        steps.len() > 0 ==> (r is Some <==> json_contents(*v).contains_key(path_of(steps@))),
{
    let mut here: Option<&'a serde_json::Value> = Some(v);
    let mut i: usize = 0;
    let ghost doc = json_contents(*v);
    proof {
        assert(path_of(steps@).take(0) =~= seq![]);
        below_here(doc);
    }
    while i < steps.len()
        invariant
            i <= steps.len(),
            contents_of(here) == below(doc, path_of(steps@).take(i as int)),
            i > 0 ==> (here is Some <==> doc.contains_key(path_of(steps@).take(i as int))),
        decreases steps.len() - i,
    {
        let ghost before = path_of(steps@).take(i as int);
        proof {
            assert(path_of(steps@).take(i + 1) =~= before + seq![steps[i as int]@]);
            below_twice(doc, before, seq![steps[i as int]@]);
            below_nothing(seq![steps[i as int]@]);
            assert(below(doc, before).contains_key(seq![steps[i as int]@]) == doc.contains_key(
                before + seq![steps[i as int]@],
            ));
        }
        here = match here {
            None => None,
            Some(x) => match &steps[i] {
                Step::Key(k) => get_member(x, k),
                Step::Item(n) => get_item(x, *n),
            },
        };
        i += 1;
    }
    assert(path_of(steps@).take(i as int) =~= path_of(steps@));
    here
}

/// The text at a path, if a text stands there.
pub fn text_under(v: &serde_json::Value, steps: &Vec<Step>) -> (r: Option<String>)
    ensures
        text_of(r) == text_at(json_contents(*v), path_of(steps@)),
{
    let end = reach(v, steps);
    proof {
        root_below(json_contents(*v), path_of(steps@));
    }
    match end {
        Some(x) => as_text(x),
        None => None,
    }
}

/// The length of the list at a path, if a list stands there.
pub fn list_under(v: &serde_json::Value, steps: &Vec<Step>) -> (r: Option<usize>)
    ensures
        r is Some <==> list_at(json_contents(*v), path_of(steps@)) is Some,
        r matches Some(n) ==> list_at(json_contents(*v), path_of(steps@)) == Some(n as nat),
{
    let end = reach(v, steps);
    proof {
        root_below(json_contents(*v), path_of(steps@));
    }
    match end {
        Some(x) => as_list(x),
        None => None,
    }
}

/// The number at a path, if a number stands there.
pub fn number_under(v: &serde_json::Value, steps: &Vec<Step>) -> (r: Option<u64>)
    ensures
        r == number_at(json_contents(*v), path_of(steps@)),
{
    let end = reach(v, steps);
    proof {
        root_below(json_contents(*v), path_of(steps@));
    }
    match end {
        Some(x) => as_number(x),
        None => None,
    }
}

/// A copy of the value at a path, if there is one.
pub fn copy_under(v: &serde_json::Value, steps: &Vec<Step>) -> (r: Option<serde_json::Value>)
    ensures
        (match r {
            Some(x) => json_contents(x),
            None => nothing(),
        }) == below(json_contents(*v), path_of(steps@)),
{
    match reach(v, steps) {
        Some(x) => Some(copy_value(x)),
        None => None,
    }
}

/// Nothing was left out: below the empty path stands the whole document.
proof fn below_here(doc: JsonNodes)
    ensures
        below(doc, seq![]) == doc,
{
    assert forall|p: Seq<JsonStep>| #[trigger] below(doc, seq![]).contains_key(p) == doc.contains_key(p) by {
        assert(Seq::<JsonStep>::empty() + p =~= p);
    }
    assert forall|p: Seq<JsonStep>| doc.contains_key(p) implies #[trigger] below(doc, seq![])[p] == doc[p] by {
        assert(Seq::<JsonStep>::empty() + p =~= p);
        assert(below(doc, seq![]).contains_key(p));
    }
    assert(below(doc, seq![]) =~= doc);
}

/// Below nothing there is nothing.
proof fn below_nothing(path: Seq<JsonStep>)
    ensures
        below(nothing(), path) == nothing(),
{
    assert(below(nothing(), path) =~= nothing());
}

/// Going down twice is going down the joined path.
pub proof fn below_twice(doc: JsonNodes, first: Seq<JsonStep>, second: Seq<JsonStep>)
    ensures
        below(below(doc, first), second) == below(doc, first + second),
{
    let a = below(below(doc, first), second);
    let b = below(doc, first + second);
    assert forall|p: Seq<JsonStep>| #[trigger] a.contains_key(p) == b.contains_key(p) by {
        assert(first + (second + p) =~= (first + second) + p);
    }
    assert forall|p: Seq<JsonStep>| a.contains_key(p) implies #[trigger] a[p] == b[p] by {
        assert(first + (second + p) =~= (first + second) + p);
        assert(b.contains_key(p));
    }
    assert(a =~= b);
}

/// What stands at the top of a part is what stands at its path in the whole document.
pub proof fn root_below(doc: JsonNodes, path: Seq<JsonStep>)
    ensures
        text_at(below(doc, path), seq![]) == text_at(doc, path),
        list_at(below(doc, path), seq![]) == list_at(doc, path),
        number_at(below(doc, path), seq![]) == number_at(doc, path),
{
    assert(path + Seq::<JsonStep>::empty() =~= path);
}

/// What is read at a path is what stands there, if it is of the kind that is asked for, and nothing
/// else.
pub proof fn reading_gives_what_stands_there(
    doc: JsonNodes,
    path: Seq<JsonStep>,
    text: Seq<char>,
    n: nat,
    bits: u64,
)
    ensures
        text_at(doc, path) == Some(text) <==> doc.contains_key(path) && doc[path] == JsonNode::Text(
            text,
        ),
        list_at(doc, path) == Some(n) <==> doc.contains_key(path) && doc[path] == JsonNode::List(n),
        number_at(doc, path) == Some(bits) <==> doc.contains_key(path) && doc[path]
            == JsonNode::Number(bits),
{
}

/// A part of a document has all that stands below its path, and nothing else.
pub proof fn parts_are_whole(doc: JsonNodes, path: Seq<JsonStep>, further: Seq<JsonStep>)
    ensures
        below(doc, path).contains_key(further) <==> doc.contains_key(path + further),
        doc.contains_key(path + further) ==> below(doc, path)[further] == doc[path + further],
        !nothing().contains_key(path),
{
}

/// A path has all of its steps, in order, and a text that is there is viewed whole.
pub proof fn paths_have_all_their_steps(steps: Seq<Step>, i: int, s: String)
    ensures
        path_of(steps).len() == steps.len(),
        0 <= i < steps.len() ==> path_of(steps)[i] == steps[i]@,
        text_of(Some(s)) == Some(s@),
        text_of(None) is None,
{
}

} // verus!
