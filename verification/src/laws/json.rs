//! What a JSON value gives when it is asked.
use vstd::prelude::*;

use crate::json::{items_model, members_model, Json, JsonModel};

verus! {

/// A member is what was put under its key last; other keys do not matter to it.
pub proof fn law_member(m: Map<Seq<char>, JsonModel>, k: Seq<char>, v: JsonModel, other: Seq<char>)
    ensures
        JsonModel::Obj(m.insert(k, v)).get(k) == Some(v),
        JsonModel::Obj(m.insert(k, v)).at(k) == v,
        other != k ==> JsonModel::Obj(m.insert(k, v)).get(other) == JsonModel::Obj(m).get(other),
        JsonModel::Obj(Map::empty()).get(k) is None,
        !(v is Null) ==> JsonModel::Obj(m.insert(k, v)).non_null(k) == Some(v),
        JsonModel::Obj(m.insert(k, JsonModel::Null)).non_null(k) is None,
        !m.dom().contains(k) ==> JsonModel::Obj(m).get(k) is None && JsonModel::Obj(m).at(k) is Null
            && JsonModel::Obj(m).non_null(k) is None,
        !(v is Obj) ==> v.get(k) is None && v.at(k) is Null && v.non_null(k) is None,
{
}

/// A value gives what it is, and nothing that it is not.
pub proof fn law_values(v: JsonModel, s: Seq<char>, a: Seq<JsonModel>, b: bool)
    ensures
        JsonModel::Str(s).text() == Some(s),
        JsonModel::Str(s).text_or_empty() == s,
        !(v is Str) ==> v.text() is None && v.text_or_empty().len() == 0,
        JsonModel::Arr(a).items() == Some(a),
        a.len() > 0 ==> JsonModel::Arr(a).first() == Some(a[0]),
        a.len() == 0 ==> JsonModel::Arr(a).first() is None,
        !(v is Arr) ==> v.items() is None && v.first() is None,
        JsonModel::Bool(b).flag() == Some(b),
        !(v is Bool) ==> v.flag() is None,
{
}

/// A number gives itself exactly if it fits.
pub proof fn law_numbers(n: int, v: JsonModel)
    ensures
        0 <= n <= u64::MAX ==> JsonModel::Int(n).uint() == Some(n as u64),
        n < 0 || n > u64::MAX ==> JsonModel::Int(n).uint() is None,
        i64::MIN <= n <= i64::MAX ==> JsonModel::Int(n).sint() == Some(n as i64),
        n < i64::MIN || n > i64::MAX ==> JsonModel::Int(n).sint() is None,
        !(v is Int) ==> v.uint() is None && v.sint() is None,
{
}

/// A value stands for what it holds: numbers for themselves, an array for its items in
/// order, an object for its members, of which a later one hides an earlier one.
pub proof fn law_models(n: u64, i: i64, b: bool, s: String, v: Vec<Json>, o: Vec<(String, Json)>)
    ensures
        Json::Null@ is Null,
        Json::Bool(b)@ == JsonModel::Bool(b),
        Json::UInt(n)@ == JsonModel::Int(n as int),
        Json::Int(i)@ == JsonModel::Int(i as int),
        Json::Str(s)@ == JsonModel::Str(s@),
        Json::Array(v)@ == JsonModel::Arr(items_model(v@)),
        Json::Object(o)@ == JsonModel::Obj(members_model(o@)),
        items_model(v@).len() == v@.len(),
        forall|k: int| 0 <= k < v@.len() ==> #[trigger] items_model(v@)[k] == v@[k]@,
{
}

/// The last member under a key is the one that counts.
pub proof fn law_last_member_counts(o: Seq<(String, Json)>, p: (String, Json), key: Seq<char>)
    ensures
        members_model(o.push(p)).dom().contains(p.0@),
        members_model(o.push(p))[p.0@] == p.1@,
        key != p.0@ ==> (members_model(o.push(p)).dom().contains(key) <==> members_model(
            o,
        ).dom().contains(key)),
        key != p.0@ && members_model(o).dom().contains(key) ==> members_model(o.push(p))[key]
            == members_model(o)[key],
        members_model(Seq::empty()) == Map::<Seq<char>, JsonModel>::empty(),
{
    assert(o.push(p).drop_last() =~= o);
}

} // verus!
