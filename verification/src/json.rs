//! The crate's own JSON tree: the exchange format between the typed GeoJSON
//! model and the outside world, together with its mathematical model.

use vstd::prelude::*;

verus! {

/// serde_json's number type. This crate never inspects a number's value; it
/// only carries numbers through conversions, so the type stays opaque.
#[verifier::external_type_specification]
#[verifier::external_body]
pub struct ExNumber(serde_json::Number);

/// Relies on serde_json::Number's derived Clone: a clone is the same number.
pub assume_specification[ <serde_json::Number as Clone>::clone ](n: &serde_json::Number) -> (r:
    serde_json::Number)
    ensures
        r == *n,
;

/// The mathematical shape of a JSON value: strings as character sequences,
/// arrays and objects as sequences of members in order. Contracts and laws
/// speak of this type; numbers stay opaque because nothing here reads them.
pub enum JsonModel {
    Null,
    Bool(bool),
    Number(serde_json::Number),
    String(Seq<char>),
    Array(Seq<JsonModel>),
    Object(Seq<(Seq<char>, JsonModel)>),
}

/// The model of a JSON object: its members, in order.
pub type ObjectModel = Seq<(Seq<char>, JsonModel)>;

/// The value of the first member with key `key` among the first `j` members
/// of `o`, if any.
pub open spec fn obj_lookup_upto(o: ObjectModel, key: Seq<char>, j: int) -> Option<JsonModel>
    decreases j,
{
    if j <= 0 {
        None
    } else {
        match obj_lookup_upto(o, key, j - 1) {
            Some(v) => Some(v),
            None => if j - 1 < o.len() && o[j - 1].0 == key {
                Some(o[j - 1].1)
            } else {
                None
            },
        }
    }
}

/// The value at `key` in `o`: the first member with that key, if any.
pub open spec fn obj_lookup(o: ObjectModel, key: Seq<char>) -> Option<JsonModel> {
    obj_lookup_upto(o, key, o.len() as int)
}

/// The members among the first `j` of `o` whose keys are not in `keys`, in
/// order.
pub open spec fn obj_foreign_upto(o: ObjectModel, keys: Set<Seq<char>>, j: int) -> ObjectModel
    decreases j,
{
    if j <= 0 {
        Seq::empty()
    } else {
        obj_foreign_upto(o, keys, j - 1) + (if j - 1 < o.len() && !keys.contains(o[j - 1].0) {
            seq![o[j - 1]]
        } else {
            Seq::empty()
        })
    }
}

/// The members of `o` whose keys are not in `keys`, in order.
pub open spec fn obj_without_keys(o: ObjectModel, keys: Set<Seq<char>>) -> ObjectModel {
    obj_foreign_upto(o, keys, o.len() as int)
}

/// The weight of a JSON value: every node and member counts. Parsers recurse
/// on it.
pub open spec fn jm_size(m: JsonModel) -> nat
    decreases m,
{
    match m {
        JsonModel::Array(s) => 1 + jm_list_size(s, s.len() as int),
        JsonModel::Object(o) => 1 + jm_entries_size(o, o.len() as int),
        _ => 1,
    }
}

/// The summed weight of the first `n` values of `s`.
pub open spec fn jm_list_size(s: Seq<JsonModel>, n: int) -> nat
    decreases s, n,
{
    if 0 < n <= s.len() {
        jm_list_size(s, n - 1) + 1 + jm_size(s[n - 1])
    } else {
        0
    }
}

/// The summed weight of the first `n` members of `o`.
pub open spec fn jm_entries_size(o: ObjectModel, n: int) -> nat
    decreases o, n,
    via jm_entries_size_decreases
{
    if 0 < n <= o.len() {
        jm_entries_size(o, n - 1) + 1 + jm_size(o[n - 1].1)
    } else {
        0
    }
}

#[via_fn]
proof fn jm_entries_size_decreases(o: ObjectModel, n: int) {
    if 0 < n <= o.len() {
        assert(decreases_to!(o => o[n - 1]));
        assert(decreases_to!(o[n - 1] => o[n - 1].1));
    }
}

/// Every value in a list weighs less than the list.
pub proof fn lemma_member_size(s: Seq<JsonModel>, i: int, n: int)
    requires
        0 <= i < n <= s.len(),
    ensures
        jm_size(s[i]) < jm_list_size(s, n),
    decreases n,
{
    if i < n - 1 {
        lemma_member_size(s, i, n - 1);
    }
}

/// Every member's value weighs less than the object.
pub proof fn lemma_member_entry_size(o: ObjectModel, i: int, n: int)
    requires
        0 <= i < n <= o.len(),
    ensures
        jm_size(o[i].1) < jm_entries_size(o, n),
    decreases n,
{
    if i < n - 1 {
        lemma_member_entry_size(o, i, n - 1);
    }
}

/// A value found by key lookup weighs less than the whole object.
pub proof fn lemma_lookup_size(o: ObjectModel, key: Seq<char>, j: int)
    requires
        0 <= j <= o.len(),
        obj_lookup_upto(o, key, j) is Some,
    ensures
        jm_size(obj_lookup_upto(o, key, j)->0) < jm_entries_size(o, o.len() as int),
    decreases j,
{
    if obj_lookup_upto(o, key, j - 1) is Some {
        lemma_lookup_size(o, key, j - 1);
    } else {
        lemma_member_entry_size(o, j - 1, o.len() as int);
    }
}

/// A JSON value as exchanged with the typed model: the six node kinds of the
/// JSON grammar.
#[derive(Debug, PartialEq)]
pub enum JsonValue {
    Null,
    Bool(bool),
    Number(serde_json::Number),
    String(String),
    Array(Vec<JsonValue>),
    Object(JsonObject),
}

/// A JSON object: a mapping from string keys to JSON values, kept in the
/// order the members were added.
#[derive(Debug, PartialEq)]
pub struct JsonObject {
    pub entries: Vec<(String, JsonValue)>,
}

impl JsonValue {
    /// The mathematical value of this JSON node.
    pub open spec fn model(self) -> JsonModel
        decreases self,
    {
        match self {
            JsonValue::Null => JsonModel::Null,
            JsonValue::Bool(b) => JsonModel::Bool(b),
            JsonValue::Number(n) => JsonModel::Number(n),
            JsonValue::String(s) => JsonModel::String(s@),
            JsonValue::Array(a) => JsonModel::Array(Self::model_list(a@, a@.len() as int)),
            JsonValue::Object(o) => JsonModel::Object(
                Self::model_entries(o.entries@, o.entries@.len() as int),
            ),
        }
    }

    /// The models of the first `n` values of `l`.
    pub open spec fn model_list(l: Seq<JsonValue>, n: int) -> Seq<JsonModel>
        decreases l, n,
    {
        if 0 < n <= l.len() {
            Self::model_list(l, n - 1).push(l[n - 1].model())
        } else {
            Seq::empty()
        }
    }

    /// The models of the first `n` members of `l`.
    pub open spec fn model_entries(l: Seq<(String, JsonValue)>, n: int) -> ObjectModel
        decreases l, n,
        via Self::model_entries_decreases
    {
        if 0 < n <= l.len() {
            Self::model_entries(l, n - 1).push((l[n - 1].0@, l[n - 1].1.model()))
        } else {
            Seq::empty()
        }
    }

    #[via_fn]
    proof fn model_entries_decreases(l: Seq<(String, JsonValue)>, n: int) {
        if n > 0 && n <= l.len() {
            assert(decreases_to!(l => l[n - 1]));
            assert(decreases_to!(l[n - 1] => l[n - 1].1));
        }
    }
}

impl View for JsonValue {
    type V = JsonModel;

    open spec fn view(&self) -> JsonModel {
        self.model()
    }
}

impl View for JsonObject {
    type V = ObjectModel;

    open spec fn view(&self) -> ObjectModel {
        JsonValue::model_entries(self.entries@, self.entries@.len() as int)
    }
}

/// The models of a value list are the models of its values, in order.
pub proof fn lemma_model_list_len(l: Seq<JsonValue>, n: int)
    requires
        0 <= n <= l.len(),
    ensures
        JsonValue::model_list(l, n).len() == n,
        forall|i: int| 0 <= i < n ==> #[trigger] JsonValue::model_list(l, n)[i] == l[i].model(),
    decreases n,
{
    if n > 0 {
        lemma_model_list_len(l, n - 1);
    }
}

/// The models of an object's members are the models of its members, in order.
pub proof fn lemma_model_entries_len(l: Seq<(String, JsonValue)>, n: int)
    requires
        0 <= n <= l.len(),
    ensures
        JsonValue::model_entries(l, n).len() == n,
        forall|i: int|
            0 <= i < n ==> #[trigger] JsonValue::model_entries(l, n)[i] == (
            l[i].0@,
            l[i].1.model(),
            ),
    decreases n,
{
    if n > 0 {
        lemma_model_entries_len(l, n - 1);
    }
}

impl JsonObject {
    /// An object with no members.
    pub fn new() -> (r: JsonObject)
        ensures
            r@ == Seq::<(Seq<char>, JsonModel)>::empty(),
    {
        let r = JsonObject { entries: Vec::new() };
        proof {
            assert(r@ =~= Seq::<(Seq<char>, JsonModel)>::empty());
        }
        r
    }

    /// Adds a member at the end.
    pub fn push(&mut self, key: String, value: JsonValue)
        ensures
            final(self)@ == old(self)@.push((key@, value@)),
    {
        let ghost n = self.entries@.len() as int;
        self.entries.push((key, value));
        proof {
            lemma_model_entries_len(self.entries@, n + 1);
            lemma_model_entries_len(old(self).entries@, n);
            assert(self@ =~= old(self)@.push((key@, value@)));
        }
    }

    /// How many members the object has.
    pub fn len(&self) -> (r: usize)
        ensures
            r == self@.len(),
    {
        proof {
            lemma_model_entries_len(self.entries@, self.entries@.len() as int);
        }
        self.entries.len()
    }

    /// Removes and returns the first member.
    pub fn take_first(&mut self) -> (r: (String, JsonValue))
        requires
            old(self)@.len() > 0,
        ensures
            final(self)@ == old(self)@.drop_first(),
            r.0@ == old(self)@[0].0,
            r.1@ == old(self)@[0].1,
    {
        proof {
            lemma_model_entries_len(self.entries@, self.entries@.len() as int);
        }
        let r = self.entries.remove(0);
        proof {
            lemma_model_entries_len(self.entries@, self.entries@.len() as int);
            lemma_model_entries_len(old(self).entries@, old(self).entries@.len() as int);
            assert(self@ =~= old(self)@.drop_first());
        }
        r
    }
}

/// Looking a key up in a concatenation only sees the left part while `j`
/// stays inside it.
pub proof fn lemma_lookup_upto_concat_left(a: ObjectModel, b: ObjectModel, k: Seq<char>, j: int)
    requires
        0 <= j <= a.len(),
    ensures
        obj_lookup_upto(a + b, k, j) == obj_lookup_upto(a, k, j),
    decreases j,
{
    if j > 0 {
        lemma_lookup_upto_concat_left(a, b, k, j - 1);
        assert((a + b)[j - 1] == a[j - 1]);
    }
}

proof fn lemma_lookup_upto_concat_right(a: ObjectModel, b: ObjectModel, k: Seq<char>, j: int)
    requires
        0 <= j <= b.len(),
    ensures
        obj_lookup_upto(a + b, k, a.len() + j) == (match obj_lookup(a, k) {
            Some(v) => Some(v),
            None => obj_lookup_upto(b, k, j),
        }),
    decreases j,
{
    if j == 0 {
        lemma_lookup_upto_concat_left(a, b, k, a.len() as int);
    } else {
        lemma_lookup_upto_concat_right(a, b, k, j - 1);
        assert((a + b)[a.len() + j - 1] == b[j - 1]);
    }
}

/// A lookup in a concatenation takes the left part's answer, else the right's.
pub proof fn lemma_lookup_concat(a: ObjectModel, b: ObjectModel, k: Seq<char>)
    ensures
        obj_lookup(a + b, k) == (match obj_lookup(a, k) {
            Some(v) => Some(v),
            None => obj_lookup(b, k),
        }),
{
    lemma_lookup_upto_concat_right(a, b, k, b.len() as int);
    assert((a + b).len() == a.len() + b.len());
}

/// Looking any key up in an empty object finds nothing.
pub proof fn lemma_lookup_empty(k: Seq<char>)
    ensures
        obj_lookup(Seq::<(Seq<char>, JsonModel)>::empty(), k) is None,
{
}

/// Looking a key up in a one-member object finds that member exactly on its
/// key.
pub proof fn lemma_lookup_single(p: (Seq<char>, JsonModel), k: Seq<char>)
    ensures
        obj_lookup(seq![p], k) == (if p.0 == k {
            Some(p.1)
        } else {
            None::<JsonModel>
        }),
{
    assert(obj_lookup_upto(seq![p], k, 0) is None);
    assert(seq![p][0] == p);
}

/// An object none of whose keys is `k` has nothing at `k`.
pub proof fn lemma_lookup_absent(o: ObjectModel, k: Seq<char>, j: int)
    requires
        0 <= j <= o.len(),
        forall|i: int| 0 <= i < o.len() ==> (#[trigger] o[i].0) != k,
    ensures
        obj_lookup_upto(o, k, j) is None,
    decreases j,
{
    if j > 0 {
        lemma_lookup_absent(o, k, j - 1);
    }
}

proof fn lemma_foreign_upto_concat_left(a: ObjectModel, b: ObjectModel, keys: Set<Seq<char>>, j: int)
    requires
        0 <= j <= a.len(),
    ensures
        obj_foreign_upto(a + b, keys, j) == obj_foreign_upto(a, keys, j),
    decreases j,
{
    if j > 0 {
        lemma_foreign_upto_concat_left(a, b, keys, j - 1);
        assert((a + b)[j - 1] == a[j - 1]);
    }
}

proof fn lemma_foreign_upto_concat_right(a: ObjectModel, b: ObjectModel, keys: Set<Seq<char>>, j: int)
    requires
        0 <= j <= b.len(),
    ensures
        obj_foreign_upto(a + b, keys, a.len() + j) == obj_foreign_upto(a, keys, a.len() as int)
            + obj_foreign_upto(b, keys, j),
    decreases j,
{
    if j == 0 {
        lemma_foreign_upto_concat_left(a, b, keys, a.len() as int);
        assert(obj_foreign_upto(a, keys, a.len() as int) + obj_foreign_upto(b, keys, 0) =~= obj_foreign_upto(
            a,
            keys,
            a.len() as int,
        ));
    } else {
        lemma_foreign_upto_concat_right(a, b, keys, j - 1);
        assert((a + b)[a.len() + j - 1] == b[j - 1]);
        assert(obj_foreign_upto(a + b, keys, a.len() + j) =~= obj_foreign_upto(a, keys, a.len() as int)
            + obj_foreign_upto(b, keys, j));
    }
}

/// The foreign members of a concatenation are those of its parts, in order.
pub proof fn lemma_without_keys_concat(a: ObjectModel, b: ObjectModel, keys: Set<Seq<char>>)
    ensures
        obj_without_keys(a + b, keys) == obj_without_keys(a, keys) + obj_without_keys(b, keys),
{
    lemma_foreign_upto_concat_right(a, b, keys, b.len() as int);
    assert((a + b).len() == a.len() + b.len());
}

/// An object all of whose keys are known contributes no foreign members.
pub proof fn lemma_foreign_all_known(o: ObjectModel, keys: Set<Seq<char>>, j: int)
    requires
        0 <= j <= o.len(),
        forall|i: int| 0 <= i < o.len() ==> keys.contains(#[trigger] o[i].0),
    ensures
        obj_foreign_upto(o, keys, j) == Seq::<(Seq<char>, JsonModel)>::empty(),
    decreases j,
{
    if j > 0 {
        lemma_foreign_all_known(o, keys, j - 1);
        assert(obj_foreign_upto(o, keys, j) =~= Seq::<(Seq<char>, JsonModel)>::empty());
    } else {
        assert(obj_foreign_upto(o, keys, 0) =~= Seq::<(Seq<char>, JsonModel)>::empty());
    }
}

/// An object none of whose keys is known is foreign members throughout.
pub proof fn lemma_foreign_none_known(o: ObjectModel, keys: Set<Seq<char>>, j: int)
    requires
        0 <= j <= o.len(),
        forall|i: int| 0 <= i < o.len() ==> !keys.contains(#[trigger] o[i].0),
    ensures
        obj_foreign_upto(o, keys, j) == o.take(j),
    decreases j,
{
    if j > 0 {
        lemma_foreign_none_known(o, keys, j - 1);
        assert(obj_foreign_upto(o, keys, j) =~= o.take(j));
    } else {
        assert(obj_foreign_upto(o, keys, 0) =~= o.take(0));
    }
}

/// Once a key is found among the first `j` members, looking further does not
/// change the result.
pub proof fn lemma_lookup_upto_mono(o: ObjectModel, key: Seq<char>, j: int, n: int)
    requires
        0 <= j <= n,
        obj_lookup_upto(o, key, j) is Some,
    ensures
        obj_lookup_upto(o, key, n) == obj_lookup_upto(o, key, j),
    decreases n,
{
    if j < n {
        lemma_lookup_upto_mono(o, key, j, n - 1);
    }
}

impl JsonObject {
    /// The value at `key`, if the object has that member.
    pub fn get<'a>(&'a self, key: &str) -> (r: Option<&'a JsonValue>)
        ensures
            r matches Some(v) ==> obj_lookup(self@, key@) == Some(v@),
            r is None ==> obj_lookup(self@, key@) is None,
    {
        proof {
            lemma_model_entries_len(self.entries@, self.entries@.len() as int);
        }
        let mut i: usize = 0;
        while i < self.entries.len()
            invariant
                0 <= i <= self.entries@.len(),
                self@.len() == self.entries@.len(),
                forall|k: int|
                    0 <= k < self.entries@.len() ==> #[trigger] self@[k] == (
                    self.entries@[k].0@,
                    self.entries@[k].1.model(),
                    ),
                obj_lookup_upto(self@, key@, i as int) is None,
            decreases self.entries@.len() - i,
        {
            if str_eq(self.entries[i].0.as_str(), key) {
                proof {
                    assert(obj_lookup_upto(self@, key@, i + 1) == Some(self@[i as int].1));
                    lemma_lookup_upto_mono(self@, key@, i as int + 1, self@.len() as int);
                }
                return Some(&self.entries[i].1);
            }
            i = i + 1;
        }
        None
    }
}

/// Clones every value of a list; a clone denotes the same values.
fn clone_values(a: &Vec<JsonValue>) -> (r: Vec<JsonValue>)
    ensures
        r@.len() == a@.len(),
        forall|k: int| 0 <= k < a@.len() ==> (#[trigger] r@[k])@ == a@[k]@,
    decreases *a, 1int,
{
    let mut out: Vec<JsonValue> = Vec::new();
    let mut i: usize = 0;
    while i < a.len()
        invariant
            0 <= i <= a@.len(),
            out@.len() == i,
            forall|k: int| 0 <= k < i ==> (#[trigger] out@[k])@ == a@[k]@,
        decreases a@.len() - i,
    {
        proof {
            assert(decreases_to!(*a => a@));
            assert(decreases_to!(a@ => a@[i as int]));
        }
        let v = a[i].clone();
        out.push(v);
        i = i + 1;
    }
    out
}

impl Clone for JsonValue {
    /// A clone denotes the same JSON value.
    fn clone(&self) -> (r: JsonValue)
        ensures
            r@ == self@,
        decreases *self, 0int,
    {
        match self {
            JsonValue::Null => JsonValue::Null,
            JsonValue::Bool(b) => JsonValue::Bool(*b),
            JsonValue::Number(n) => JsonValue::Number(n.clone()),
            JsonValue::String(s) => JsonValue::String(s.clone()),
            JsonValue::Array(a) => {
                proof {
                    assert(decreases_to!(*self => *a));
                }
                let out = clone_values(a);
                proof {
                    lemma_model_list_len(out@, out@.len() as int);
                    lemma_model_list_len(a@, a@.len() as int);
                    assert(JsonValue::model_list(out@, out@.len() as int) =~= JsonValue::model_list(
                        a@,
                        a@.len() as int,
                    ));
                }
                JsonValue::Array(out)
            },
            JsonValue::Object(o) => {
                proof {
                    assert(decreases_to!(*self => *o));
                }
                JsonValue::Object(o.clone())
            },
        }
    }
}

impl Clone for JsonObject {
    /// A clone denotes the same JSON object.
    fn clone(&self) -> (r: JsonObject)
        ensures
            r@ == self@,
        decreases *self, 1int,
    {
        let mut out: Vec<(String, JsonValue)> = Vec::new();
        let mut i: usize = 0;
        while i < self.entries.len()
            invariant
                0 <= i <= self.entries@.len(),
                out@.len() == i,
                forall|k: int|
                    0 <= k < i ==> (#[trigger] out@[k]).0@ == self.entries@[k].0@ && out@[k].1@
                        == self.entries@[k].1@,
            decreases self.entries@.len() - i,
        {
            proof {
                assert(decreases_to!(*self => self.entries));
                assert(decreases_to!(self.entries => self.entries@));
                assert(decreases_to!(self.entries@ => self.entries@[i as int]));
                assert(decreases_to!(self.entries@[i as int] => self.entries@[i as int].1));
            }
            let k = self.entries[i].0.clone();
            let v = self.entries[i].1.clone();
            out.push((k, v));
            i = i + 1;
        }
        proof {
            lemma_model_entries_len(out@, out@.len() as int);
            lemma_model_entries_len(self.entries@, self.entries@.len() as int);
            assert(JsonValue::model_entries(out@, out@.len() as int) =~= JsonValue::model_entries(
                self.entries@,
                self.entries@.len() as int,
            ));
        }
        JsonObject { entries: out }
    }
}

/// Whether the characters of `a` and `b` are the same.
pub fn str_eq(a: &str, b: &str) -> (r: bool)
    ensures
        r == (a@ == b@),
{
    let sa: String = a.to_owned();
    let sb: String = b.to_owned();
    sa == sb
}

} // verus!
