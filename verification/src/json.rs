//! A JSON value of the library's own, with its mathematical view.
use vstd::prelude::*;
use crate::text::{owned, str_eq};

verus! {

/// A JSON number as it was read: an integer, or a float held by its IEEE-754 bits.
#[derive(Clone, Copy, PartialEq, Eq, Debug)]
pub enum JsonNumber {
    PosInt(u64),
    NegInt(i64),
    Float(u64),
}

/// A JSON value; object members keep their order.
#[derive(Debug)]
pub enum Json {
    Null,
    Bool(bool),
    Number(JsonNumber),
    String(String),
    Array(Vec<Json>),
    Object(Vec<(String, Json)>),
}

/// The mathematical content of a JSON value.
pub enum JsonView {
    Null,
    Bool(bool),
    Number(JsonNumber),
    String(Seq<char>),
    Array(Seq<JsonView>),
    Object(Seq<(Seq<char>, JsonView)>),
}

/// The view of a JSON value.
pub open spec fn json_view(j: Json) -> JsonView
    decreases j,
{
    match j {
        Json::Null => JsonView::Null,
        Json::Bool(b) => JsonView::Bool(b),
        Json::Number(n) => JsonView::Number(n),
        Json::String(s) => JsonView::String(s@),
        Json::Array(v) => JsonView::Array(
            Seq::new(
                v@.len(),
                |i: int|
                    if 0 <= i < v@.len() {
                        json_view(v@[i])
                    } else {
                        JsonView::Null
                    },
            ),
        ),
        Json::Object(m) => JsonView::Object(
            Seq::new(
                m@.len(),
                |i: int|
                    if 0 <= i < m@.len() {
                        (m@[i].0@, json_view(m@[i].1))
                    } else {
                        (Seq::empty(), JsonView::Null)
                    },
            ),
        ),
    }
}

impl View for Json {
    type V = JsonView;

    open spec fn view(&self) -> JsonView {
        json_view(*self)
    }
}

/// The value of the first member named `k`.
pub open spec fn obj_get(m: Seq<(Seq<char>, JsonView)>, k: Seq<char>) -> Option<JsonView>
    decreases m.len(),
{
    if m.len() == 0 {
        None
    } else if m[0].0 == k {
        Some(m[0].1)
    } else {
        obj_get(m.drop_first(), k)
    }
}

/// Index of the first member named `k`.
pub open spec fn obj_find(m: Seq<(Seq<char>, JsonView)>, k: Seq<char>) -> Option<int>
    decreases m.len(),
{
    if m.len() == 0 {
        None
    } else if m[0].0 == k {
        Some(0)
    } else {
        match obj_find(m.drop_first(), k) {
            Some(i) => Some(i + 1),
            None => None,
        }
    }
}

/// Map insertion: replaces the value of an existing member, else appends one.
pub open spec fn obj_insert(m: Seq<(Seq<char>, JsonView)>, k: Seq<char>, v: JsonView) -> Seq<
    (Seq<char>, JsonView),
> {
    match obj_find(m, k) {
        Some(i) => m.update(i, (k, v)),
        None => m.push((k, v)),
    }
}

/// Collecting members into a map, one insertion after another.
pub open spec fn obj_collect(members: Seq<(Seq<char>, JsonView)>) -> Seq<(Seq<char>, JsonView)>
    decreases members.len(),
{
    if members.len() == 0 {
        Seq::empty()
    } else {
        obj_insert(obj_collect(members.drop_last()), members.last().0, members.last().1)
    }
}

/// The members of an object, by their views.
pub open spec fn members_view(m: Seq<(String, Json)>) -> Seq<(Seq<char>, JsonView)> {
    Seq::new(m.len(), |i: int| (m[i].0@, m[i].1@))
}

/// The views of the items of an array.
pub open spec fn items_view(v: Seq<Json>) -> Seq<JsonView> {
    Seq::new(v.len(), |i: int| v[i]@)
}

pub proof fn lemma_object_view(m: Vec<(String, Json)>)
    ensures
        Json::Object(m)@ == JsonView::Object(members_view(m@)),
{
    assert(Json::Object(m)@->Object_0 =~= members_view(m@));
}

pub proof fn lemma_array_view(v: Vec<Json>)
    ensures
        Json::Array(v)@ == JsonView::Array(items_view(v@)),
{
    assert(Json::Array(v)@->Array_0 =~= items_view(v@));
}

/// `obj_find` is the first member with the key.
pub proof fn lemma_obj_find(m: Seq<(Seq<char>, JsonView)>, k: Seq<char>)
    ensures
        match obj_find(m, k) {
            Some(i) => 0 <= i < m.len() && m[i].0 == k && forall|j: int|
                0 <= j < i ==> m[j].0 != k,
            None => forall|j: int| 0 <= j < m.len() ==> m[j].0 != k,
        },
        obj_get(m, k) == (match obj_find(m, k) {
            Some(i) => Some(m[i].1),
            None => None,
        }),
    decreases m.len(),
{
    if m.len() > 0 && m[0].0 != k {
        lemma_obj_find(m.drop_first(), k);
        assert forall|j: int| 0 < j < m.len() implies m[j].0 == m.drop_first()[j - 1].0 by {}
    }
}

/// A member's value is smaller than the members.
pub proof fn lemma_obj_get_decreases(m: Seq<(Seq<char>, JsonView)>, k: Seq<char>)
    requires
        obj_get(m, k) is Some,
    ensures
        decreases_to!(m => obj_get(m, k).unwrap()),
{
    lemma_obj_find(m, k);
    let i = obj_find(m, k).unwrap();
    assert(decreases_to!(m => m[i]));
    assert(decreases_to!(m[i] => m[i].1));
}

/// The concatenation of a sequence of sequences, appending at the back.
pub open spec fn flatten_back<A>(ss: Seq<Seq<A>>) -> Seq<A>
    decreases ss.len(),
{
    if ss.len() == 0 {
        Seq::empty()
    } else {
        flatten_back(ss.drop_last()) + ss.last()
    }
}

/// Index of the member named `k` in `m`, if any.
pub fn find_member(m: &Vec<(String, Json)>, k: &str) -> (r: Option<usize>)
    ensures
        r matches Some(i) ==> obj_find(members_view(m@), k@) == Some(i as int) && i < m@.len(),
        r is None ==> obj_find(members_view(m@), k@) is None,
{
    let ghost mv = members_view(m@);
    proof {
        lemma_obj_find(mv, k@);
    }
    let mut i: usize = 0;
    while i < m.len()
        invariant
            i <= m@.len(),
            mv == members_view(m@),
            forall|j: int| 0 <= j < i ==> mv[j].0 != k@,
            match obj_find(mv, k@) {
                Some(x) => 0 <= x < mv.len() && mv[x].0 == k@ && forall|j: int|
                    0 <= j < x ==> mv[j].0 != k@,
                None => forall|j: int| 0 <= j < mv.len() ==> mv[j].0 != k@,
            },
        decreases m.len() - i,
    {
        assert(mv[i as int].0 == m@[i as int].0@);
        if str_eq(m[i].0.as_str(), k) {
            return Some(i);
        }
        i = i + 1;
    }
    None
}

/// Map insertion into the members `m`.
pub fn insert_member(m: &mut Vec<(String, Json)>, k: String, v: Json)
    ensures
        members_view(final(m)@) == obj_insert(members_view(old(m)@), k@, v@),
{
    let ghost old_m = m@;
    match find_member(m, k.as_str()) {
        Some(i) => {
            proof {
                lemma_obj_find(members_view(old_m), k@);
            }
            m.set(i, (k, v));
            assert(members_view(m@) =~= members_view(old_m).update(i as int, (k@, v@)));
        },
        None => {
            m.push((k, v));
            assert(members_view(m@) =~= members_view(old_m).push((k@, v@)));
        },
    }
}

/// The value of the first member named `k`.
pub fn member_value<'a>(m: &'a Vec<(String, Json)>, k: &str) -> (r: Option<&'a Json>)
    ensures
        opt_json_view(r) == obj_get(members_view(m@), k@),
{
    proof {
        lemma_obj_find(members_view(m@), k@);
    }
    match find_member(m, k) {
        Some(i) => Some(&m[i].1),
        None => None,
    }
}

/// An object with the members `members`, in order.
pub fn object_of(members: Vec<(String, Json)>) -> (j: Json)
    ensures
        j@ == JsonView::Object(members_view(members@)),
{
    proof {
        lemma_object_view(members);
    }
    Json::Object(members)
}

/// An array of the items `items`, in order.
pub fn array_of(items: Vec<Json>) -> (j: Json)
    ensures
        j@ == JsonView::Array(items_view(items@)),
{
    proof {
        lemma_array_view(items);
    }
    Json::Array(items)
}

/// Appends the member `k: v`.
pub fn push_member(m: &mut Vec<(String, Json)>, k: &str, v: Json)
    ensures
        members_view(final(m)@) == members_view(old(m)@).push((k@, v@)),
{
    let ghost before = members_view(m@);
    let ghost vv = v@;
    m.push((owned(k), v));
    assert(members_view(m@) =~= before.push((k@, vv)));
}

/// Appends the item `v`.
pub fn push_item(a: &mut Vec<Json>, v: Json)
    ensures
        items_view(final(a)@) == items_view(old(a)@).push(v@),
{
    let ghost before = items_view(a@);
    let ghost vv = v@;
    a.push(v);
    assert(items_view(a@) =~= before.push(vv));
}

impl JsonView {
    /// `Value::get` with a key: the member's value, for objects.
    pub open spec fn get(self, k: Seq<char>) -> Option<JsonView> {
        match self {
            JsonView::Object(m) => obj_get(m, k),
            _ => None,
        }
    }

    pub open spec fn as_str(self) -> Option<Seq<char>> {
        match self {
            JsonView::String(s) => Some(s),
            _ => None,
        }
    }

    pub open spec fn as_array(self) -> Option<Seq<JsonView>> {
        match self {
            JsonView::Array(a) => Some(a),
            _ => None,
        }
    }

    pub open spec fn as_object(self) -> Option<Seq<(Seq<char>, JsonView)>> {
        match self {
            JsonView::Object(m) => Some(m),
            _ => None,
        }
    }

    pub open spec fn as_bool(self) -> Option<bool> {
        match self {
            JsonView::Bool(b) => Some(b),
            _ => None,
        }
    }

    /// `Value::as_i64`: integers that fit in an `i64`.
    pub open spec fn as_i64(self) -> Option<i64> {
        match self {
            JsonView::Number(JsonNumber::PosInt(u)) => if u <= i64::MAX {
                Some(u as i64)
            } else {
                None
            },
            JsonView::Number(JsonNumber::NegInt(i)) => Some(i),
            _ => None,
        }
    }
}

pub open spec fn opt_json_view(o: Option<&Json>) -> Option<JsonView> {
    match o {
        Some(j) => Some(j@),
        None => None,
    }
}

impl Json {
    /// The value of the first member named `key`, for objects.
    pub fn get<'a>(&'a self, key: &str) -> (r: Option<&'a Json>)
        ensures
            opt_json_view(r) == self@.get(key@),
    {
        match self {
            Json::Object(m) => {
                let mut i: usize = 0;
                assert(self@->Object_0.skip(0) =~= self@->Object_0);
                while i < m.len()
                    invariant
                        0 <= i <= m@.len(),
                        self@.get(key@) == obj_get(
                            self@->Object_0.skip(i as int),
                            key@,
                        ),
                        self@->Object_0.len() == m@.len(),
                        forall|j: int|
                            0 <= j < m@.len() ==> #[trigger] self@->Object_0[j] == (
                                m@[j].0@,
                                m@[j].1@,
                            ),
                    decreases m.len() - i,
                {
                    let ghost rest = self@->Object_0.skip(i as int);
                    if str_eq(m[i].0.as_str(), key) {
                        assert(rest[0] == self@->Object_0[i as int]);
                        return Some(&m[i].1);
                    }
                    assert(rest.drop_first() =~= self@->Object_0.skip(i + 1));
                    i = i + 1;
                }
                None
            },
            _ => None,
        }
    }

    pub fn as_str(&self) -> (r: Option<&str>)
        ensures
            r matches Some(s) ==> self@.as_str() == Some(s@),
            r is None ==> self@.as_str() is None,
    {
        match self {
            Json::String(s) => Some(s.as_str()),
            _ => None,
        }
    }

    pub fn as_array(&self) -> (r: Option<&Vec<Json>>)
        ensures
            r matches Some(a) ==> self@.as_array() == Some(Json::Array(*a)@->Array_0)
                && *self == Json::Array(*a),
            r is None ==> self@.as_array() is None,
    {
        match self {
            Json::Array(a) => Some(a),
            _ => None,
        }
    }

    pub fn as_object(&self) -> (r: Option<&Vec<(String, Json)>>)
        ensures
            r matches Some(m) ==> self@ == JsonView::Object(members_view(m@)),
            r is None ==> !(self@ is Object),
    {
        match self {
            Json::Object(m) => {
                proof {
                    lemma_object_view(*m);
                }
                Some(m)
            },
            _ => None,
        }
    }

    pub fn as_bool(&self) -> (r: Option<bool>)
        ensures
            r == self@.as_bool(),
    {
        match self {
            Json::Bool(b) => Some(*b),
            _ => None,
        }
    }

    pub fn as_i64(&self) -> (r: Option<i64>)
        ensures
            r == self@.as_i64(),
    {
        match self {
            Json::Number(JsonNumber::PosInt(u)) => if *u <= i64::MAX as u64 {
                Some(*u as i64)
            } else {
                None
            },
            Json::Number(JsonNumber::NegInt(i)) => Some(*i),
            _ => None,
        }
    }

    /// A copy of the value.
    pub fn deep_clone(&self) -> (r: Json)
        ensures
            r@ == self@,
        decreases self,
    {
        match self {
            Json::Null => Json::Null,
            Json::Bool(b) => Json::Bool(*b),
            Json::Number(n) => Json::Number(*n),
            Json::String(s) => Json::String(s.clone()),
            Json::Array(v) => {
                let mut out: Vec<Json> = Vec::new();
                let mut i: usize = 0;
                while i < v.len()
                    invariant
                        *self == Json::Array(*v),
                        0 <= i <= v@.len(),
                        out@.len() == i,
                        forall|j: int| 0 <= j < i ==> #[trigger] out@[j]@ == v@[j]@,
                    decreases v.len() - i,
                {
                    proof {
                        let ghost sj = *self;
                        let ghost sv = *v;
                        assert(sj == Json::Array(sv));
                        assert(decreases_to!(sj => sj->Array_0));
                        assert(decreases_to!(sj => sv));
                        assert(decreases_to!(sv => sv@));
                        assert(decreases_to!(sv@ => sv@[i as int]));
                        assert(decreases_to!(sj => sv@[i as int]));
                    }
                    let c = v[i].deep_clone();
                    out.push(c);
                    i = i + 1;
                }
                let r = Json::Array(out);
                assert forall|j: int| 0 <= j < v@.len() implies #[trigger] r@->Array_0[j]
                    == self@->Array_0[j] by {
                    assert(out@[j]@ == v@[j]@);
                }
                assert(r@->Array_0 =~= self@->Array_0);
                r
            },
            Json::Object(m) => {
                let mut out: Vec<(String, Json)> = Vec::new();
                let mut i: usize = 0;
                while i < m.len()
                    invariant
                        *self == Json::Object(*m),
                        0 <= i <= m@.len(),
                        out@.len() == i,
                        forall|j: int|
                            0 <= j < i ==> #[trigger] out@[j].0@ == m@[j].0@ && out@[j].1@
                                == m@[j].1@,
                    decreases m.len() - i,
                {
                    proof {
                        let ghost sj = *self;
                        let ghost sm = *m;
                        assert(sj == Json::Object(sm));
                        assert(decreases_to!(sj => sj->Object_0));
                        assert(decreases_to!(sj => sm));
                        assert(decreases_to!(sm => sm@));
                        assert(decreases_to!(sm@ => sm@[i as int]));
                        assert(decreases_to!(sm@[i as int] => sm@[i as int].1));
                        assert(decreases_to!(sj => sm@[i as int].1));
                    }
                    let c = m[i].1.deep_clone();
                    out.push((m[i].0.clone(), c));
                    i = i + 1;
                }
                let r = Json::Object(out);
                assert(r@->Object_0 =~= self@->Object_0);
                r
            },
        }
    }

    /// A string value.
    pub fn str(s: &str) -> (r: Json)
        ensures
            r@ == JsonView::String(s@),
    {
        Json::String(owned(s))
    }
}

} // verus!
