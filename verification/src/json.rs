//! JSON values.
//!
//! [`Json`] is what the crate reads and builds. Its model [`JsonModel`] is a
//! mathematical value: integers are unbounded, an object is a map from keys to
//! values. Reading and writing text is left to `serde_json`; its value type is
//! taken apart and put together one level at a time, and the recursion over a
//! whole value is verified.
use vstd::prelude::*;

use crate::text::{same, trim_of, views};

verus! {

/// A JSON value, mathematically.
#[verifier::ext_equal]
pub enum JsonModel {
    Null,
    Bool(bool),
    Int(int),
    /// A number that is no integer, carried unread.
    Float(serde_json::Number),
    Str(Seq<char>),
    Arr(Seq<JsonModel>),
    Obj(Map<Seq<char>, JsonModel>),
}

impl JsonModel {
    /// The member `key` of an object.
    pub open spec fn get(self, key: Seq<char>) -> Option<JsonModel> {
        match self {
            JsonModel::Obj(m) => if m.dom().contains(key) {
                Some(m[key])
            } else {
                None
            },
            _ => None,
        }
    }

    /// The member `key` of an object, null where there is none.
    pub open spec fn at(self, key: Seq<char>) -> JsonModel {
        match self.get(key) {
            Some(v) => v,
            None => JsonModel::Null,
        }
    }

    pub open spec fn items(self) -> Option<Seq<JsonModel>> {
        match self {
            JsonModel::Arr(s) => Some(s),
            _ => None,
        }
    }

    /// The first item of an array.
    pub open spec fn first(self) -> Option<JsonModel> {
        match self {
            JsonModel::Arr(s) => if s.len() > 0 {
                Some(s[0])
            } else {
                None
            },
            _ => None,
        }
    }

    pub open spec fn text(self) -> Option<Seq<char>> {
        match self {
            JsonModel::Str(s) => Some(s),
            _ => None,
        }
    }

    /// The text of a string, empty for anything else.
    pub open spec fn text_or_empty(self) -> Seq<char> {
        match self {
            JsonModel::Str(s) => s,
            _ => Seq::empty(),
        }
    }

    pub open spec fn uint(self) -> Option<u64> {
        match self {
            JsonModel::Int(n) => if 0 <= n <= u64::MAX {
                Some(n as u64)
            } else {
                None
            },
            _ => None,
        }
    }

    pub open spec fn sint(self) -> Option<i64> {
        match self {
            JsonModel::Int(n) => if i64::MIN <= n <= i64::MAX {
                Some(n as i64)
            } else {
                None
            },
            _ => None,
        }
    }

    pub open spec fn flag(self) -> Option<bool> {
        match self {
            JsonModel::Bool(b) => Some(b),
            _ => None,
        }
    }

    /// The member `key` of an object, unless it is missing or null.
    pub open spec fn non_null(self, key: Seq<char>) -> Option<JsonModel> {
        match self.get(key) {
            Some(v) => if v is Null {
                None
            } else {
                Some(v)
            },
            None => None,
        }
    }
}

/// `v` holds no number but integers, and nests at most `depth` arrays and
/// objects in one another.
pub open spec fn plain_within(v: JsonModel, depth: nat) -> bool
    decreases depth,
{
    match v {
        JsonModel::Float(_) => false,
        JsonModel::Arr(s) => depth > 0 && forall|i: int|
            0 <= i < s.len() ==> plain_within(#[trigger] s[i], (depth - 1) as nat),
        JsonModel::Obj(m) => depth > 0 && forall|k: Seq<char>|
            m.dom().contains(k) ==> plain_within(#[trigger] m[k], (depth - 1) as nat),
        _ => true,
    }
}

/// A number that is no integer, as `serde_json` holds it.
#[derive(Debug, PartialEq)]
pub struct Fraction {
    n: serde_json::Number,
}

impl Fraction {
    #[verifier::type_invariant]
    closed spec fn holds(self) -> bool {
        is_fraction(self.n)
    }

    pub closed spec fn number(self) -> serde_json::Number {
        self.n
    }
}

impl Clone for Fraction {
    fn clone(&self) -> (r: Fraction)
        ensures
            r == *self,
    {
        proof {
            use_type_invariant(self);
        }
        Fraction { n: same_number(&self.n) }
    }
}

/// A JSON value. In an object a later member hides an earlier one of the same key.
#[derive(Debug, PartialEq)]
pub enum Json {
    Null,
    Bool(bool),
    UInt(u64),
    Int(i64),
    /// A number that is no integer, carried unread.
    Float(Fraction),
    Str(String),
    Array(Vec<Json>),
    Object(Vec<(String, Json)>),
}

/// The values that the items of an array stand for.
pub open spec fn items_model(s: Seq<Json>) -> Seq<JsonModel>
    decreases s,
{
    Seq::new(
        s.len(),
        |i: int|
            if 0 <= i < s.len() {
                s[i].model()
            } else {
                JsonModel::Null
            },
    )
}

/// The map that the members of an object stand for.
pub open spec fn members_model(s: Seq<(String, Json)>) -> Map<Seq<char>, JsonModel>
    decreases s,
{
    if s.len() == 0 {
        Map::empty()
    } else {
        members_model(s.drop_last()).insert(s.last().0@, s.last().1.model())
    }
}

impl Json {
    pub open spec fn model(self) -> JsonModel
        decreases self,
    {
        match self {
            Json::Null => JsonModel::Null,
            Json::Bool(b) => JsonModel::Bool(b),
            Json::UInt(n) => JsonModel::Int(n as int),
            Json::Int(n) => JsonModel::Int(n as int),
            Json::Float(f) => JsonModel::Float(f.number()),
            Json::Str(s) => JsonModel::Str(s@),
            Json::Array(v) => JsonModel::Arr(items_model(v@)),
            Json::Object(v) => JsonModel::Obj(members_model(v@)),
        }
    }
}

impl View for Json {
    type V = JsonModel;

    open spec fn view(&self) -> JsonModel {
        self.model()
    }
}

pub broadcast proof fn lemma_items_views(s: Seq<Json>)
    ensures
        #[trigger] items_model(s) == views(s),
{
    assert(items_model(s) =~= views(s));
}

pub broadcast proof fn lemma_members_push(s: Seq<(String, Json)>, p: (String, Json))
    ensures
        #[trigger] members_model(s.push(p)) == members_model(s).insert(p.0@, p.1@),
{
    assert(s.push(p).drop_last() =~= s);
}

proof fn lemma_member_in(s: Seq<(String, Json)>, i: int)
    requires
        0 <= i < s.len(),
    ensures
        members_model(s).dom().contains(s[i].0@),
    decreases s.len(),
{
    if i < s.len() - 1 {
        lemma_member_in(s.drop_last(), i);
    }
}

/// The members of an object under construction.
pub struct Members {
    pairs: Vec<(String, Json)>,
}

impl View for Members {
    type V = Map<Seq<char>, JsonModel>;

    closed spec fn view(&self) -> Map<Seq<char>, JsonModel> {
        members_model(self.pairs@)
    }
}

impl Members {
    pub fn new() -> (r: Members)
        ensures
            r@ == Map::<Seq<char>, JsonModel>::empty(),
    {
        Members { pairs: Vec::new() }
    }

    /// Sets the member `key`.
    pub fn put(&mut self, key: &str, value: Json)
        ensures
            final(self)@ == old(self)@.insert(key@, value@),
    {
        broadcast use lemma_members_push;

        self.pairs.push((key.to_owned(), value));
    }

    /// Sets the member `key` to a string.
    pub fn put_text(&mut self, key: &str, value: &str)
        ensures
            final(self)@ == old(self)@.insert(key@, JsonModel::Str(value@)),
    {
        self.put(key, Json::Str(value.to_owned()));
    }

    pub fn done(self) -> (r: Json)
        ensures
            r@ == JsonModel::Obj(self@),
    {
        Json::Object(self.pairs)
    }
}

/// The array of the given values.
pub fn array(items: Vec<Json>) -> (r: Json)
    ensures
        r@ == JsonModel::Arr(views(items@)),
{
    proof {
        lemma_items_views(items@);
    }
    Json::Array(items)
}

impl Json {
    /// The member `key` of an object.
    pub fn get(&self, key: &str) -> (r: Option<&Json>)
        ensures
            match r {
                Some(v) => self@.get(key@) == Some(v@),
                None => self@.get(key@) is None,
            },
    {
        match self {
            Json::Object(pairs) => {
                let mut i: usize = pairs.len();
                assert(pairs@.take(i as int) =~= pairs@);
                while i > 0
                    invariant
                        *self == Json::Object(*pairs),
                        i <= pairs@.len(),
                        self@.get(key@) == JsonModel::Obj(members_model(pairs@.take(i as int))).get(
                            key@,
                        ),
                    decreases i,
                {
                    let ghost cur = pairs@.take(i as int);
                    assert(cur.last() == pairs@[i - 1]);
                    assert(cur.drop_last() =~= pairs@.take(i - 1));
                    if same(pairs[i - 1].0.as_str(), key) {
                        return Some(&pairs[i - 1].1);
                    }
                    i -= 1;
                }
                assert(pairs@.take(0) =~= Seq::empty());
                None
            },
            _ => None,
        }
    }

    /// The member `key` of an object that has no other.
    pub fn only(&self, key: &str) -> (r: Option<&Json>)
        ensures
            match r {
                Some(v) => self@ == JsonModel::Obj(map![key@ => v@]),
                None => forall|v: JsonModel| self@ != JsonModel::Obj(#[trigger] map![key@ => v]),
            },
    {
        match self {
            Json::Object(pairs) => {
                let ghost all = pairs@;
                let mut i: usize = 0;
                while i < pairs.len()
                    invariant
                        *self == Json::Object(*pairs),
                        all == pairs@,
                        i <= pairs@.len(),
                        i > 0 ==> members_model(all.take(i as int)) == map![
                            key@ => all[i - 1].1@,
                        ],
                    decreases pairs@.len() - i,
                {
                    if !same(pairs[i].0.as_str(), key) {
                        proof {
                            lemma_member_in(all, i as int);
                            assert forall|v: JsonModel| self@ != JsonModel::Obj(
                                #[trigger] map![key@ => v],
                            ) by {
                                assert(!map![key@ => v].dom().contains(all[i as int].0@));
                            }
                        }
                        return None;
                    }
                    proof {
                        lemma_members_push(all.take(i as int), all[i as int]);
                        assert(all.take(i as int).push(all[i as int]) =~= all.take(i + 1));
                        if i == 0 {
                            assert(all.take(0) =~= Seq::empty());
                            assert(members_model(all.take(0)) =~= Map::empty());
                        }
                    }
                    assert(members_model(all.take(i + 1)) =~= map![key@ => all[i as int].1@]);
                    i += 1;
                }
                assert(all.take(i as int) =~= all);
                if i > 0 {
                    Some(&pairs[i - 1].1)
                } else {
                    assert forall|v: JsonModel| self@ != JsonModel::Obj(
                        #[trigger] map![key@ => v],
                    ) by {
                        assert(map![key@ => v].dom().contains(key@));
                    }
                    None
                }
            },
            _ => None,
        }
    }

    /// The member `key` of an object, null where there is none.
    pub fn at(&self, key: &str) -> (r: &Json)
        ensures
            r@ == self@.at(key@),
    {
        match self.get(key) {
            Some(v) => v,
            None => &Json::Null,
        }
    }

    pub fn items(&self) -> (r: Option<&Vec<Json>>)
        ensures
            match r {
                Some(v) => self@.items() == Some(views(v@)),
                None => self@.items() is None,
            },
    {
        match self {
            Json::Array(v) => {
                proof {
                    lemma_items_views(v@);
                }
                Some(v)
            },
            _ => None,
        }
    }

    /// The first item of an array.
    pub fn first(&self) -> (r: Option<&Json>)
        ensures
            match r {
                Some(v) => self@.first() == Some(v@),
                None => self@.first() is None,
            },
    {
        match self.items() {
            Some(v) => if v.len() > 0 {
                Some(&v[0])
            } else {
                None
            },
            None => None,
        }
    }

    pub fn text(&self) -> (r: Option<&str>)
        ensures
            match r {
                Some(s) => self@.text() == Some(s@),
                None => self@.text() is None,
            },
    {
        match self {
            Json::Str(s) => Some(s.as_str()),
            _ => None,
        }
    }

    /// The text of a string, empty for anything else.
    pub fn text_or_empty(&self) -> (r: String)
        ensures
            r@ == self@.text_or_empty(),
    {
        match self {
            Json::Str(s) => s.clone(),
            _ => String::new(),
        }
    }

    pub fn uint(&self) -> (r: Option<u64>)
        ensures
            r == self@.uint(),
    {
        match self {
            Json::UInt(n) => Some(*n),
            Json::Int(n) => if *n >= 0 {
                Some(*n as u64)
            } else {
                None
            },
            _ => None,
        }
    }

    pub fn sint(&self) -> (r: Option<i64>)
        ensures
            r == self@.sint(),
    {
        match self {
            Json::UInt(n) => if *n <= 0x7fff_ffff_ffff_ffff {
                Some(*n as i64)
            } else {
                None
            },
            Json::Int(n) => Some(*n),
            _ => None,
        }
    }

    pub fn flag(&self) -> (r: Option<bool>)
        ensures
            r == self@.flag(),
    {
        match self {
            Json::Bool(b) => Some(*b),
            _ => None,
        }
    }

    pub fn is_null(&self) -> (r: bool)
        ensures
            r == (self@ is Null),
    {
        match self {
            Json::Null => true,
            _ => false,
        }
    }

    /// The member `key` of an object, unless it is missing or null.
    pub fn non_null(&self, key: &str) -> (r: Option<&Json>)
        ensures
            match r {
                Some(v) => self@.non_null(key@) == Some(v@),
                None => self@.non_null(key@) is None,
            },
    {
        match self.get(key) {
            Some(v) => if v.is_null() {
                None
            } else {
                Some(v)
            },
            None => None,
        }
    }
}

impl Clone for Json {
    fn clone(&self) -> (r: Json)
        ensures
            r@ == self@,
        decreases self,
    {
        match self {
            Json::Null => Json::Null,
            Json::Bool(b) => Json::Bool(*b),
            Json::UInt(n) => Json::UInt(*n),
            Json::Int(n) => Json::Int(*n),
            Json::Float(f) => Json::Float(f.clone()),
            Json::Str(s) => Json::Str(s.clone()),
            Json::Array(v) => {
                let mut out: Vec<Json> = Vec::new();
                let mut i: usize = 0;
                #[verifier::loop_isolation(false)]
                while i < v.len()
                    invariant
                        *self == Json::Array(*v),
                        i <= v@.len(),
                        out@.len() == i,
                        forall|k: int| 0 <= k < i ==> (#[trigger] out@[k])@ == v@[k]@,
                    decreases v@.len() - i,
                {
                    let item = v[i].clone();
                    out.push(item);
                    i += 1;
                }
                assert(items_model(out@) =~= items_model(v@));
                Json::Array(out)
            },
            Json::Object(v) => {
                let mut out: Vec<(String, Json)> = Vec::new();
                let mut i: usize = 0;
                #[verifier::loop_isolation(false)]
                while i < v.len()
                    invariant
                        *self == Json::Object(*v),
                        i <= v@.len(),
                        members_model(out@) == members_model(v@.take(i as int)),
                    decreases v@.len() - i,
                {
                    broadcast use lemma_members_push;

                    let item = v[i].1.clone();
                    assert(v@.take(i + 1).drop_last() =~= v@.take(i as int));
                    out.push((v[i].0.clone(), item));
                    i += 1;
                }
                assert(v@.take(i as int) =~= v@);
                Json::Object(out)
            },
        }
    }
}

/// `serde_json`'s number type. It is carried, never looked into.
#[verifier::external_type_specification]
#[verifier::external_body]
pub struct ExNumber(serde_json::Number);

/// `serde_json`'s value type, taken apart by [`open_value`] and put together by
/// [`close_value`].
#[verifier::external_type_specification]
#[verifier::external_body]
pub struct ExValue(serde_json::Value);

/// A `serde_json` number is no integer: it is held as a float.
pub uninterp spec fn is_fraction(n: serde_json::Number) -> bool;

/// The tree that a `serde_json` value holds.
pub uninterp spec fn value_model(v: serde_json::Value) -> JsonModel;

/// What `serde_json` reads from a text: the value, or the message of its error.
pub uninterp spec fn json_read(text: Seq<char>) -> Result<JsonModel, Seq<char>>;

/// The compact text that `serde_json` writes for a value.
pub uninterp spec fn json_text(v: JsonModel) -> Seq<char>;

/// A text that is all on one line, with no white space around it.
pub open spec fn is_one_line(s: Seq<char>) -> bool {
    &&& s.len() > 0
    &&& trim_of(s) == s
    &&& forall|i: int| 0 <= i < s.len() ==> s[i] != '\n'
}

/// One level of a `serde_json` value.
pub enum Node {
    Null,
    Bool(bool),
    UInt(u64),
    Int(i64),
    Float(serde_json::Number),
    Str(String),
    Array(Vec<serde_json::Value>),
    Object(Vec<(String, serde_json::Value)>),
}

pub open spec fn value_items(s: Seq<serde_json::Value>) -> Seq<JsonModel> {
    Seq::new(s.len(), |i: int| value_model(s[i]))
}

pub open spec fn value_members(s: Seq<(String, serde_json::Value)>) -> Map<Seq<char>, JsonModel>
    decreases s.len(),
{
    if s.len() == 0 {
        Map::empty()
    } else {
        value_members(s.drop_last()).insert(s.last().0@, value_model(s.last().1))
    }
}

pub open spec fn node_model(n: Node) -> JsonModel {
    match n {
        Node::Null => JsonModel::Null,
        Node::Bool(b) => JsonModel::Bool(b),
        Node::UInt(n) => JsonModel::Int(n as int),
        Node::Int(n) => JsonModel::Int(n as int),
        Node::Float(n) => JsonModel::Float(n),
        Node::Str(s) => JsonModel::Str(s@),
        Node::Array(v) => JsonModel::Arr(value_items(v@)),
        Node::Object(v) => JsonModel::Obj(value_members(v@)),
    }
}

/// No two members have the same key.
pub open spec fn keys_differ(s: Seq<(String, serde_json::Value)>) -> bool {
    forall|i: int, j: int| 0 <= i < j < s.len() ==> s[i].0@ != s[j].0@
}

/// A copy of a number (`serde_json::Number` as `Clone`): the same number.
#[verifier::external_body]
fn same_number(n: &serde_json::Number) -> (r: serde_json::Number)
    ensures
        r == *n,
{
    n.clone()
}

/// Takes a `serde_json::Value` apart, one level deep: the variant with its
/// fields. A number comes out as an integer where `as_u64` or `as_i64` gives
/// one; the members of an object have different keys.
#[verifier::external_body]
fn open_value(v: serde_json::Value) -> (r: Node)
    ensures
        node_model(r) == value_model(v),
        r matches Node::Float(n) ==> is_fraction(n),
        r matches Node::Object(m) ==> keys_differ(m@),
{
    match v {
        serde_json::Value::Null => Node::Null,
        serde_json::Value::Bool(b) => Node::Bool(b),
        serde_json::Value::Number(n) => match (n.as_u64(), n.as_i64()) {
            (Some(u), _) => Node::UInt(u),
            (None, Some(i)) => Node::Int(i),
            (None, None) => Node::Float(n),
        },
        serde_json::Value::String(s) => Node::Str(s),
        serde_json::Value::Array(a) => Node::Array(a),
        serde_json::Value::Object(m) => Node::Object(m.into_iter().collect()),
    }
}

/// Puts a `serde_json::Value` together, one level deep: the variant with its
/// fields. The members of an object have different keys.
#[verifier::external_body]
fn close_value(n: Node) -> (r: serde_json::Value)
    requires
        n matches Node::Float(x) ==> is_fraction(x),
        n matches Node::Object(m) ==> keys_differ(m@),
    ensures
        value_model(r) == node_model(n),
{
    match n {
        Node::Null => serde_json::Value::Null,
        Node::Bool(b) => serde_json::Value::Bool(b),
        Node::UInt(u) => serde_json::Value::from(u),
        Node::Int(i) => serde_json::Value::from(i),
        Node::Float(x) => serde_json::Value::Number(x),
        Node::Str(s) => serde_json::Value::String(s),
        Node::Array(a) => serde_json::Value::Array(a),
        Node::Object(m) => serde_json::Value::Object(m.into_iter().collect()),
    }
}

/// Reads a JSON text (`serde_json::from_str`): the value, or the message of the
/// error. Which texts are JSON, and what they say, is `serde_json`'s to decide.
#[verifier::external_body]
fn read_value(text: &str) -> (r: Result<serde_json::Value, String>)
    ensures
        match r {
            Ok(v) => json_read(text@) is Ok && json_read(text@)->Ok_0 == value_model(v),
            Err(e) => json_read(text@) is Err && json_read(text@)->Err_0 == e@,
        },
{
    serde_json::from_str(text).map_err(|e| e.to_string())
}

/// Writes a value as compact JSON (`serde_json::Value` as `Display`): on one line,
/// as line feeds in strings are escaped. Reading the text gives the value back, where
/// it holds no fraction and nests no deeper than the reader follows.
#[verifier::external_body]
fn write_value(v: &serde_json::Value) -> (r: String)
    ensures
        r@ == json_text(value_model(*v)),
        is_one_line(r@),
        plain_within(value_model(*v), 127) ==> json_read(r@) is Ok && json_read(r@)->Ok_0
            == value_model(*v),
{
    v.to_string()
}

proof fn lemma_value_members(s: Seq<(String, serde_json::Value)>, i: int)
    requires
        keys_differ(s),
        0 <= i < s.len(),
    ensures
        value_members(s).dom().finite(),
        value_members(s).dom().contains(s[i].0@),
        value_members(s)[s[i].0@] == value_model(s[i].1),
    decreases s.len(),
{
    let t = s.drop_last();
    lemma_value_members_finite(s);
    if i < t.len() {
        assert forall|a: int, b: int| 0 <= a < b < t.len() implies t[a].0@ != t[b].0@ by {
            assert(s[a].0@ != s[b].0@);
        }
        lemma_value_members(t, i);
        assert(s[i].0@ != s[s.len() - 1].0@);
    }
}

proof fn lemma_value_members_finite(s: Seq<(String, serde_json::Value)>)
    ensures
        value_members(s).dom().finite(),
    decreases s.len(),
{
    if s.len() > 0 {
        lemma_value_members_finite(s.drop_last());
    }
}

/// The keys of members are the keys of the map that they stand for.
proof fn lemma_value_keys(s: Seq<(String, serde_json::Value)>, key: Seq<char>)
    ensures
        value_members(s).dom().contains(key) <==> exists|i: int|
            0 <= i < s.len() && (#[trigger] s[i]).0@ == key,
    decreases s.len(),
{
    if s.len() > 0 {
        let t = s.drop_last();
        lemma_value_keys(t, key);
        if value_members(t).dom().contains(key) {
            let i = choose|i: int| 0 <= i < t.len() && (#[trigger] t[i]).0@ == key;
            assert(s[i].0@ == key);
        }
        if exists|i: int| 0 <= i < s.len() && (#[trigger] s[i]).0@ == key {
            let i = choose|i: int| 0 <= i < s.len() && (#[trigger] s[i]).0@ == key;
            if i < t.len() {
                assert(t[i].0@ == key);
            }
        }
    }
}

/// Without a member, the map is without its key.
proof fn lemma_value_members_remove(s: Seq<(String, serde_json::Value)>, j: int)
    requires
        keys_differ(s),
        0 <= j < s.len(),
    ensures
        value_members(s.remove(j)) == value_members(s).remove(s[j].0@),
    decreases s.len(),
{
    let t = s.drop_last();
    let key = s[j].0@;
    if j == s.len() - 1 {
        assert(s.remove(j) =~= t);
        lemma_value_keys(t, key);
        if value_members(t).dom().contains(key) {
            let i = choose|i: int| 0 <= i < t.len() && (#[trigger] t[i]).0@ == key;
            assert(s[i].0@ == s[j].0@);
        }
        assert(value_members(t) =~= value_members(s).remove(key));
    } else {
        assert forall|a: int, b: int| 0 <= a < b < t.len() implies t[a].0@ != t[b].0@ by {
            assert(s[a].0@ != s[b].0@);
        }
        lemma_value_members_remove(t, j);
        assert(s.remove(j).drop_last() =~= t.remove(j));
        assert(s.remove(j).last() == s.last());
        assert(s[j].0@ != s[s.len() - 1].0@);
        assert(value_members(s.remove(j)) =~= value_members(s).remove(key));
    }
}

/// Sets the member `key`, in place of one that is there already.
fn put_member(out: &mut Vec<(String, serde_json::Value)>, key: &str, value: serde_json::Value)
    requires
        keys_differ(old(out)@),
    ensures
        keys_differ(final(out)@),
        value_members(final(out)@) == value_members(old(out)@).insert(key@, value_model(value)),
{
    let ghost start = out@;
    let mut j: usize = 0;
    while j < out.len() && !same(out[j].0.as_str(), key)
        invariant
            out@ == start,
            j <= out@.len(),
            forall|k: int| 0 <= k < j ==> (#[trigger] out@[k]).0@ != key@,
        decreases out@.len() - j,
    {
        j += 1;
    }
    if j < out.len() {
        proof {
            lemma_value_members_remove(start, j as int);
        }
        out.remove(j);
    }
    let ghost kept = out@;
    assert forall|k: int| 0 <= k < kept.len() implies (#[trigger] kept[k]).0@ != key@ by {
        if j < start.len() {
            if k >= j {
                assert(kept[k] == start[k + 1]);
                assert(start[j as int].0@ != start[k + 1].0@);
            } else {
                assert(kept[k] == start[k]);
            }
        }
    }
    assert forall|a: int, b: int| 0 <= a < b < kept.len() implies kept[a].0@ != kept[b].0@ by {
        if j < start.len() {
            let x = if a < j {
                a
            } else {
                a + 1
            };
            let y = if b < j {
                b
            } else {
                b + 1
            };
            assert(kept[a] == start[x] && kept[b] == start[y]);
            assert(start[x].0@ != start[y].0@);
        }
    }
    out.push((key.to_owned(), value));
    assert(out@.drop_last() =~= kept);
    assert(value_members(out@) =~= value_members(start).insert(key@, value_model(value)));
}

impl Json {
    /// The value that a `serde_json` value holds.
    fn from_value(v: serde_json::Value) -> (r: Json)
        ensures
            r@ == value_model(v),
        decreases value_model(v),
    {
        let ghost m = value_model(v);
        match open_value(v) {
            Node::Null => Json::Null,
            Node::Bool(b) => Json::Bool(b),
            Node::UInt(n) => Json::UInt(n),
            Node::Int(n) => Json::Int(n),
            Node::Float(n) => Json::Float(Fraction { n }),
            Node::Str(s) => Json::Str(s),
            Node::Array(items) => {
                let ghost all = items@;
                let mut rest = reversed(items);
                let mut out: Vec<Json> = Vec::new();
                #[verifier::loop_isolation(false)]
                while rest.len() > 0
                    invariant
                        m == value_model(v),
                        m == JsonModel::Arr(value_items(all)),
                        out@.len() <= all.len(),
                        rest@ == all.skip(out@.len() as int).reverse(),
                        forall|k: int|
                            0 <= k < out@.len() ==> (#[trigger] out@[k])@ == value_model(all[k]),
                    decreases rest@.len(),
                {
                    let ghost k = out@.len() as int;
                    match rest.pop() {
                        Some(item) => {
                            assert(value_items(all)[k] == value_model(item));
                            assert(decreases_to!(m => m->Arr_0));
                            assert(decreases_to!(m->Arr_0 => (m->Arr_0)[k]));
                            out.push(Json::from_value(item));
                            assert(rest@ =~= all.skip(k + 1).reverse());
                        },
                        None => {},
                    }
                }
                assert(items_model(out@) =~= value_items(all));
                Json::Array(out)
            },
            Node::Object(members) => {
                let ghost all = members@;
                let mut rest = reversed(members);
                let mut out: Vec<(String, Json)> = Vec::new();
                #[verifier::loop_isolation(false)]
                while rest.len() > 0
                    invariant
                        m == value_model(v),
                        m == JsonModel::Obj(value_members(all)),
                        keys_differ(all),
                        out@.len() <= all.len(),
                        rest@ == all.skip(out@.len() as int).reverse(),
                        members_model(out@) == value_members(all.take(out@.len() as int)),
                    decreases rest@.len(),
                {
                    broadcast use lemma_members_push;

                    let ghost k = out@.len() as int;
                    match rest.pop() {
                        Some((key, item)) => {
                            proof {
                                assert((key, item) == all[k]);
                                lemma_value_members(all, k);
                                assert(decreases_to!(m => m->Obj_0));
                                assert(decreases_to!(m->Obj_0 => (m->Obj_0)[key@]));
                                assert(all.take(k + 1).drop_last() =~= all.take(k));
                            }
                            out.push((key, Json::from_value(item)));
                            assert(rest@ =~= all.skip(k + 1).reverse());
                        },
                        None => {},
                    }
                }
                assert(all.take(out@.len() as int) =~= all);
                Json::Object(out)
            },
        }
    }

    /// The `serde_json` value that holds this value.
    fn to_value(&self) -> (r: serde_json::Value)
        ensures
            value_model(r) == self@,
        decreases self,
    {
        match self {
            Json::Null => close_value(Node::Null),
            Json::Bool(b) => close_value(Node::Bool(*b)),
            Json::UInt(n) => close_value(Node::UInt(*n)),
            Json::Int(n) => close_value(Node::Int(*n)),
            Json::Float(f) => {
                proof {
                    use_type_invariant(f);
                }
                close_value(Node::Float(same_number(&f.n)))
            },
            Json::Str(s) => close_value(Node::Str(s.clone())),
            Json::Array(v) => {
                let mut out: Vec<serde_json::Value> = Vec::new();
                let mut i: usize = 0;
                #[verifier::loop_isolation(false)]
                while i < v.len()
                    invariant
                        *self == Json::Array(*v),
                        i <= v@.len(),
                        out@.len() == i,
                        forall|k: int| 0 <= k < i ==> value_model(#[trigger] out@[k]) == v@[k]@,
                    decreases v@.len() - i,
                {
                    out.push(v[i].to_value());
                    i += 1;
                }
                assert(value_items(out@) =~= items_model(v@));
                close_value(Node::Array(out))
            },
            Json::Object(v) => {
                let mut out: Vec<(String, serde_json::Value)> = Vec::new();
                let mut i: usize = 0;
                #[verifier::loop_isolation(false)]
                while i < v.len()
                    invariant
                        *self == Json::Object(*v),
                        i <= v@.len(),
                        keys_differ(out@),
                        value_members(out@) == members_model(v@.take(i as int)),
                    decreases v@.len() - i,
                {
                    assert(v@.take(i + 1).drop_last() =~= v@.take(i as int));
                    let item = v[i].1.to_value();
                    put_member(&mut out, v[i].0.as_str(), item);
                    i += 1;
                }
                assert(v@.take(i as int) =~= v@);
                close_value(Node::Object(out))
            },
        }
    }

    /// Reads a JSON text.
    pub fn parse(text: &str) -> (r: Result<Json, String>)
        ensures
            match r {
                Ok(v) => json_read(text@) is Ok && json_read(text@)->Ok_0 == v@,
                Err(e) => json_read(text@) is Err && json_read(text@)->Err_0 == e@,
            },
    {
        match read_value(text) {
            Ok(v) => Ok(Json::from_value(v)),
            Err(e) => Err(e),
        }
    }

    /// Writes the value as compact JSON text, on one line. Reading the text gives the
    /// value back, where it holds no fraction and is not nested too deeply.
    pub fn render(&self) -> (r: String)
        ensures
            r@ == json_text(self@),
            is_one_line(r@),
            plain_within(self@, 127) ==> json_read(r@) is Ok && json_read(r@)->Ok_0 == self@,
    {
        write_value(&self.to_value())
    }
}

/// The items of `v` in the opposite order.
fn reversed<T>(v: Vec<T>) -> (r: Vec<T>)
    ensures
        r@ == v@.reverse(),
{
    let ghost all = v@;
    let mut rest = v;
    let mut out: Vec<T> = Vec::new();
    while rest.len() > 0
        invariant
            rest@.len() <= all.len(),
            rest@ == all.take(rest@.len() as int),
            out@ == all.skip(rest@.len() as int).reverse(),
        decreases rest@.len(),
    {
        let ghost n = rest@.len() as int;
        match rest.pop() {
            Some(item) => {
                out.push(item);
                assert(rest@ =~= all.take(n - 1));
                assert(out@ =~= all.skip(n - 1).reverse());
            },
            None => {},
        }
    }
    assert(all.skip(0) =~= all);
    out
}

} // verus!
