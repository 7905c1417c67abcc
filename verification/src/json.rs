//! JSON documents.
use vstd::prelude::*;

use crate::opcodes::opt_text;
use crate::order::{views, SortedSet};
use crate::text::text;

verus! {

/// A JSON document.
#[derive(Debug)]
pub enum Json {
    Null,
    Bool(bool),
    Num(u64),
    Str(String),
    Arr(Vec<Json>),
    Obj(Vec<Member>),
}

/// A member of an object.
#[derive(Debug)]
pub struct Member {
    pub key: String,
    pub value: Json,
}

/// What a document holds. Of members with one key the last one counts.
pub enum JsonView {
    Null,
    Bool(bool),
    Num(u64),
    /// A number that is no `u64`, by its text.
    Other(Seq<char>),
    Str(Seq<char>),
    Arr(Seq<JsonView>),
    Obj(Map<Seq<char>, JsonView>),
}

/// What a document holds.
pub open spec fn json_view(j: Json) -> JsonView
    decreases j, 0nat,
{
    match j {
        Json::Null => JsonView::Null,
        Json::Bool(b) => JsonView::Bool(b),
        Json::Num(n) => JsonView::Num(n),
        Json::Str(s) => JsonView::Str(s@),
        Json::Arr(v) => JsonView::Arr(arr_view(v@, v@.len())),
        Json::Obj(m) => JsonView::Obj(obj_view(m@, m@.len())),
    }
}

/// What the first `n` items hold.
pub open spec fn arr_view(v: Seq<Json>, n: nat) -> Seq<JsonView>
    decreases v, n,
{
    if n == 0 || n > v.len() {
        Seq::empty()
    } else {
        arr_view(v, (n - 1) as nat).push(json_view(v[n - 1]))
    }
}

/// What the first `n` members hold.
pub open spec fn obj_view(m: Seq<Member>, n: nat) -> Map<Seq<char>, JsonView>
    decreases m, n,
{
    if n == 0 || n > m.len() {
        Map::empty()
    } else {
        obj_view(m, (n - 1) as nat).insert(m[n - 1].key@, json_view(m[n - 1].value))
    }
}

impl View for Json {
    type V = JsonView;

    open spec fn view(&self) -> JsonView {
        json_view(*self)
    }
}


proof fn obj_view_prefix(a: Seq<Member>, b: Seq<Member>, n: nat)
    requires
        n <= a.len(),
        n <= b.len(),
        forall|i: int| 0 <= i < n ==> a[i] == b[i],
    ensures
        obj_view(a, n) == obj_view(b, n),
    decreases n,
{
    if n > 0 {
        obj_view_prefix(a, b, (n - 1) as nat);
    }
}

proof fn arr_view_prefix(a: Seq<Json>, b: Seq<Json>, n: nat)
    requires
        n <= a.len(),
        n <= b.len(),
        forall|i: int| 0 <= i < n ==> a[i] == b[i],
    ensures
        arr_view(a, n) == arr_view(b, n),
    decreases n,
{
    if n > 0 {
        arr_view_prefix(a, b, (n - 1) as nat);
    }
}

pub proof fn arr_view_items(v: Seq<Json>, n: nat)
    requires
        n <= v.len(),
    ensures
        arr_view(v, n).len() == n,
        forall|i: int| 0 <= i < n ==> #[trigger] arr_view(v, n)[i] == json_view(v[i]),
    decreases n,
{
    if n > 0 {
        arr_view_items(v, (n - 1) as nat);
    }
}

/// An object that is being written.
pub struct Fields {
    pub members: Vec<Member>,
}

impl View for Fields {
    type V = Map<Seq<char>, JsonView>;

    open spec fn view(&self) -> Map<Seq<char>, JsonView> {
        obj_view(self.members@, self.members@.len())
    }
}

impl Fields {
    /// An object without members.
    pub fn new() -> (r: Self)
        ensures
            r@ == Map::<Seq<char>, JsonView>::empty(),
    {
        Fields { members: Vec::new() }
    }

    /// Gives a member a value.
    pub fn put(&mut self, key: &str, value: Json)
        ensures
            final(self)@ == old(self)@.insert(key@, value@),
    {
        self.members.push(Member { key: key.to_owned(), value });
        proof {
            obj_view_prefix(self.members@, old(self).members@, old(self).members@.len());
        }
    }

    /// The document.
    pub fn done(self) -> (r: Json)
        ensures
            r@ == JsonView::Obj(self@),
    {
        Json::Obj(self.members)
    }
}

/// An array that is being written.
pub struct Items {
    pub items: Vec<Json>,
}

impl View for Items {
    type V = Seq<JsonView>;

    open spec fn view(&self) -> Seq<JsonView> {
        arr_view(self.items@, self.items@.len())
    }
}

impl Items {
    /// An array without items.
    pub fn new() -> (r: Self)
        ensures
            r@ == Seq::<JsonView>::empty(),
    {
        Items { items: Vec::new() }
    }

    /// Adds an item.
    pub fn push(&mut self, value: Json)
        ensures
            final(self)@ == old(self)@.push(value@),
    {
        self.items.push(value);
        proof {
            arr_view_prefix(self.items@, old(self).items@, old(self).items@.len());
        }
    }

    /// The document.
    pub fn done(self) -> (r: Json)
        ensures
            r@ == JsonView::Arr(self@),
    {
        Json::Arr(self.items)
    }
}

/// The text `s`.
pub fn str_json(s: &str) -> (r: Json)
    ensures
        r@ == JsonView::Str(s@),
{
    Json::Str(text(s))
}

/// The number `n`.
pub fn num_json(n: u32) -> (r: Json)
    ensures
        r@ == JsonView::Num(n as u64),
{
    Json::Num(n as u64)
}

/// A truth value.
pub fn bool_json(b: bool) -> (r: Json)
    ensures
        r@ == JsonView::Bool(b),
{
    Json::Bool(b)
}

/// Texts as an array.
pub open spec fn strs_view(v: Seq<Seq<char>>) -> JsonView {
    JsonView::Arr(Seq::new(v.len(), |i: int| JsonView::Str(v[i])))
}

/// Numbers as an array.
pub open spec fn nums_view(v: Seq<u32>) -> JsonView {
    JsonView::Arr(Seq::new(v.len(), |i: int| JsonView::Num(v[i] as u64)))
}

/// Texts as an array.
pub fn strs_json(v: &Vec<String>) -> (r: Json)
    ensures
        r@ == strs_view(views(v@)),
{
    let mut a = Items::new();
    let mut i: usize = 0;
    while i < v.len()
        invariant
            i <= v@.len(),
            a@.len() == i,
            forall|j: int| 0 <= j < i ==> #[trigger] a@[j] == JsonView::Str(v@[j]@),
        decreases v@.len() - i,
    {
        a.push(Json::Str(v[i].clone()));
        i = i + 1;
    }
    proof {
        assert(JsonView::Arr(a@) == strs_view(views(v@))) by {
            assert(a@ =~= strs_view(views(v@))->Arr_0);
        }
    }
    a.done()
}

/// Numbers as an array.
pub fn nums_json(v: &Vec<u32>) -> (r: Json)
    ensures
        r@ == nums_view(v@),
{
    let mut a = Items::new();
    let mut i: usize = 0;
    while i < v.len()
        invariant
            i <= v@.len(),
            a@.len() == i,
            forall|j: int| 0 <= j < i ==> #[trigger] a@[j] == JsonView::Num(v@[j] as u64),
        decreases v@.len() - i,
    {
        a.push(num_json(v[i]));
        i = i + 1;
    }
    proof {
        assert(a@ =~= nums_view(v@)->Arr_0);
    }
    a.done()
}

/// A member of a document, where there is one.
pub open spec fn member(j: JsonView, key: Seq<char>) -> Option<JsonView> {
    match j {
        JsonView::Obj(m) => if m.dom().contains(key) {
            Some(m[key])
        } else {
            None
        },
        _ => None,
    }
}

/// A member of what may be a document.
pub open spec fn down(j: Option<JsonView>, key: Seq<char>) -> Option<JsonView> {
    match j {
        Some(d) => member(d, key),
        None => None,
    }
}

/// What a reference to a document holds.
pub open spec fn opt_view(j: Option<&Json>) -> Option<JsonView> {
    match j {
        Some(d) => Some(d@),
        None => None,
    }
}

impl Json {
    /// A member, where there is one.
    pub fn get(&self, key: &str) -> (r: Option<&Json>)
        ensures
            opt_view(r) == member(self@, key@),
    {
        match self {
            Json::Obj(m) => {
                let k: String = text(key);
                let mut n: usize = m.len();
                while n > 0
                    invariant
                        n <= m@.len(),
                        k@ == key@,
                        member(self@, key@) == member(
                            JsonView::Obj(obj_view(m@, n as nat)),
                            key@,
                        ),
                    decreases n,
                {
                    if m[n - 1].key == k {
                        return Some(&m[n - 1].value);
                    }
                    n = n - 1;
                }
                None
            },
            _ => None,
        }
    }
}

/// A member of what may be a document.
pub fn get_in<'a>(j: Option<&'a Json>, key: &str) -> (r: Option<&'a Json>)
    ensures
        opt_view(r) == down(opt_view(j), key@),
{
    match j {
        Some(d) => d.get(key),
        None => None,
    }
}

/// Whether a document is there and is true.
pub fn is_true(j: Option<&Json>) -> (r: bool)
    ensures
        r == (opt_view(j) == Some(JsonView::Bool(true))),
{
    match j {
        Some(d) => match d {
            Json::Bool(b) => *b,
            _ => false,
        },
        None => false,
    }
}

/// The number that a document holds, where it is one.
pub open spec fn number(j: Option<JsonView>) -> Option<u64> {
    match j {
        Some(JsonView::Num(n)) => Some(n),
        _ => None,
    }
}

/// The number that a document holds, where it is one.
pub fn number_of(j: Option<&Json>) -> (r: Option<u64>)
    ensures
        r == number(opt_view(j)),
{
    match j {
        Some(d) => match d {
            Json::Num(n) => Some(*n),
            _ => None,
        },
        None => None,
    }
}

/// The text that a document holds, empty where it is none.
pub open spec fn text_or_empty(j: JsonView) -> Seq<char> {
    match j {
        JsonView::Str(s) => s,
        _ => Seq::empty(),
    }
}

/// The texts among the first `n` items.
pub open spec fn texts_upto(v: Seq<JsonView>, n: int) -> Seq<Seq<char>>
    decreases n,
{
    if n <= 0 {
        Seq::empty()
    } else {
        match v[n - 1] {
            JsonView::Str(s) => texts_upto(v, n - 1).push(s),
            _ => texts_upto(v, n - 1),
        }
    }
}

/// The texts that an array holds, leaving out what is none.
pub open spec fn texts_in(j: Option<JsonView>) -> Seq<Seq<char>> {
    match j {
        Some(JsonView::Arr(v)) => texts_upto(v, v.len() as int),
        _ => Seq::empty(),
    }
}

/// The texts that an array holds, leaving out what is none.
pub fn texts_of(j: Option<&Json>) -> (r: Vec<String>)
    ensures
        views(r@) == texts_in(opt_view(j)),
{
    let mut r: Vec<String> = Vec::new();
    proof {
        assert(views(r@) =~= Seq::<Seq<char>>::empty());
    }
    match j {
        Some(d) => match d {
            Json::Arr(v) => {
                proof {
                    arr_view_items(v@, v@.len());
                }
                let mut i: usize = 0;
                while i < v.len()
                    invariant
                        i <= v@.len(),
                        d@ == JsonView::Arr(arr_view(v@, v@.len())),
                        arr_view(v@, v@.len()).len() == v@.len(),
                        forall|k: int|
                            0 <= k < v@.len() ==> #[trigger] arr_view(v@, v@.len())[k]
                                == json_view(v@[k]),
                        views(r@) == texts_upto(arr_view(v@, v@.len()), i as int),
                    decreases v@.len() - i,
                {
                    let ghost before = r@;
                    let ghost x = arr_view(v@, v@.len())[i as int];
                    match &v[i] {
                        Json::Str(s) => {
                            r.push(s.clone());
                            proof {
                                assert(views(r@) =~= views(before).push(s@));
                            }
                        },
                        _ => {},
                    }
                    i = i + 1;
                }
            },
            _ => {},
        },
        None => {},
    }
    r
}

/// The keys of an object.
pub fn keys_of(m: &Vec<Member>) -> (r: SortedSet<String>)
    ensures
        r.wf(),
        r@ == obj_view(m@, m@.len()).dom(),
{
    let mut r: SortedSet<String> = SortedSet::new();
    let mut i: usize = 0;
    proof {
        assert(r@ =~= obj_view(m@, 0).dom());
    }
    while i < m.len()
        invariant
            i <= m@.len(),
            r.wf(),
            r@ == obj_view(m@, i as nat).dom(),
        decreases m@.len() - i,
    {
        r.insert(m[i].key.clone());
        i = i + 1;
        proof {
            assert(r@ =~= obj_view(m@, i as nat).dom());
        }
    }
    r
}

/// `serde_json::Value`, a document of the JSON crate.
#[verifier::external_type_specification]
#[verifier::external_body]
pub struct ExValue(serde_json::Value);

/// What a document of the JSON crate holds.
pub uninterp spec fn held(v: serde_json::Value) -> JsonView;

/// The compact text of a document, as the JSON crate writes it.
pub uninterp spec fn json_text(j: JsonView) -> Seq<char>;

/// Builds a `serde_json::Value` by its variants and by its `From` and `FromIterator`
/// conversions: it holds what the document holds, and of members with one key the last one.
#[verifier::external_body]
fn value_of(j: &Json) -> (r: serde_json::Value)
    ensures
        held(r) == j@,
{
    match j {
        Json::Null => serde_json::Value::Null,
        Json::Bool(b) => serde_json::Value::Bool(*b),
        Json::Num(n) => serde_json::Value::from(*n),
        Json::Str(s) => serde_json::Value::from(s.as_str()),
        Json::Arr(v) => v.iter().map(value_of).collect(),
        Json::Obj(m) => m.iter().map(|e| (e.key.clone(), value_of(&e.value))).collect(),
    }
}

/// Writes a `serde_json::Value` with its `Display`: the text is that of what the value holds.
#[verifier::external_body]
fn value_text(v: &serde_json::Value) -> (r: String)
    ensures
        r@ == json_text(held(*v)),
{
    v.to_string()
}

/// The compact text of a document.
pub fn render(j: &Json) -> (r: String)
    ensures
        r@ == json_text(j@),
{
    let v = value_of(j);
    value_text(&v)
}

/// The indented text of a document, as the JSON crate writes it, where it can.
pub uninterp spec fn pretty_text(j: JsonView) -> Option<Seq<u8>>;

/// Writes a `serde_json::Value` with `serde_json::to_vec_pretty`: the bytes are those of what the
/// value holds, and nothing where the crate reports an error.
#[verifier::external_body]
fn value_pretty(v: &serde_json::Value) -> (r: Option<Vec<u8>>)
    ensures
        (match r {
            Some(b) => Some(b@),
            None => None,
        }) == pretty_text(held(*v)),
{
    serde_json::to_vec_pretty(v).ok()
}

/// The indented text of a document.
pub fn render_pretty(j: &Json) -> (r: Option<Vec<u8>>)
    ensures
        (match r {
            Some(b) => Some(b@),
            None => None,
        }) == pretty_text(j@),
{
    let v = value_of(j);
    value_pretty(&v)
}

/// What bytes hold, as the JSON crate reads them; nothing where they are no document.
pub uninterp spec fn parsed(bytes: Seq<u8>) -> Option<JsonView>;

/// Reads bytes with `serde_json::from_slice`: the value holds what the bytes do, and there is none
/// where the crate reports an error.
#[verifier::external_body]
fn value_in(bytes: &Vec<u8>) -> (r: Option<serde_json::Value>)
    ensures
        (match r {
            Some(v) => Some(held(v)),
            None => None,
        }) == parsed(bytes@),
{
    serde_json::from_slice(bytes).ok()
}

/// The member that a document has under a key: none where it is no object.
pub open spec fn member_of(j: JsonView, key: Seq<char>) -> Option<JsonView> {
    match j {
        JsonView::Obj(m) => if m.dom().contains(key) { Some(m[key]) } else { None },
        _ => None,
    }
}

/// Looks a member up with `serde_json::Value::get`: an object's value of that key, and nothing of
/// any other value.
#[verifier::external_body]
fn value_member<'a>(v: &'a serde_json::Value, key: &str) -> (r: Option<&'a serde_json::Value>)
    ensures
        (match r {
            Some(m) => Some(held(*m)),
            None => None,
        }) == member_of(held(*v), key@),
{
    v.get(key)
}

/// The text that a document is, if any.
pub open spec fn text_in(j: JsonView) -> Option<Seq<char>> {
    match j {
        JsonView::Str(s) => Some(s),
        _ => None,
    }
}

/// Takes the text of a value with `serde_json::Value::as_str`: that of a string, and of nothing
/// else.
#[verifier::external_body]
fn value_str(v: &serde_json::Value) -> (r: Option<&str>)
    ensures
        (match r {
            Some(s) => Some(s@),
            None => None,
        }) == text_in(held(*v)),
{
    v.as_str()
}

/// The text that an object has under a key: nothing where the document is no object, it has no such
/// member, or that is no text.
pub open spec fn text_member(j: JsonView, key: Seq<char>) -> Option<Seq<char>> {
    match member_of(j, key) {
        Some(m) => text_in(m),
        None => None,
    }
}

/// The text that a document of the JSON crate has under a key.
pub fn take_text(v: &serde_json::Value, key: &str) -> (r: Option<String>)
    ensures
        opt_text(r) == text_member(held(*v), key@),
{
    match value_member(v, key) {
        Some(m) => match value_str(m) {
            Some(s) => Some(s.to_owned()),
            None => None,
        },
        None => None,
    }
}

/// The text under a key of what bytes hold: nothing where they are no document either.
pub open spec fn string_field(read: Option<JsonView>, key: Seq<char>) -> Option<Seq<char>> {
    match read {
        Some(j) => text_member(j, key),
        None => None,
    }
}

/// The text under a key of what bytes hold.
pub fn read_string_field(bytes: &Vec<u8>, key: &str) -> (r: Option<String>)
    ensures
        opt_text(r) == string_field(parsed(bytes@), key@),
{
    match value_in(bytes) {
        Some(v) => take_text(&v, key),
        None => None,
    }
}

} // verus!
