//! Turning an OpenAPI document into a strict structured-output JSON schema, and
//! reading the model's answer back into the domain's field names.
use vstd::prelude::*;
use crate::json::{
    find_member, flatten_back, insert_member, items_view, lemma_array_view, lemma_obj_find,
    lemma_obj_get_decreases, lemma_object_view, members_view, obj_collect, obj_get, obj_insert,
    Json, JsonView,
};
use crate::order::{lemma_str_lt_asymmetric, lemma_str_lt_transitive, sort_by_key, sorted_order, str_less, str_lt};
use crate::text::{append_str, has_prefix, owned, str_eq, strings_view, strip_prefix};

verus! {

// ---------------------------------------------------------------------------
// Renaming "attributes" back to "properties"
// ---------------------------------------------------------------------------

pub open spec fn renamed_key(k: Seq<char>) -> Seq<char> {
    if k == "attributes"@ {
        "properties"@
    } else {
        k
    }
}

/// `value` with every object member named "attributes" renamed to "properties",
/// at any depth; members are collected into a map in their order.
pub open spec fn renamed(j: JsonView) -> JsonView
    decreases j,
{
    match j {
        JsonView::Object(m) => JsonView::Object(obj_collect(renamed_members(m))),
        JsonView::Array(a) => JsonView::Array(renamed_items(a)),
        _ => j,
    }
}

pub open spec fn renamed_members(m: Seq<(Seq<char>, JsonView)>) -> Seq<(Seq<char>, JsonView)>
    decreases m,
{
    Seq::new(
        m.len(),
        |i: int|
            if 0 <= i < m.len() {
                (renamed_key(m[i].0), renamed(m[i].1))
            } else {
                (Seq::empty(), JsonView::Null)
            },
    )
}

pub open spec fn renamed_items(a: Seq<JsonView>) -> Seq<JsonView>
    decreases a,
{
    Seq::new(
        a.len(),
        |i: int|
            if 0 <= i < a.len() {
                renamed(a[i])
            } else {
                JsonView::Null
            },
    )
}

/// No object, at any depth of `j`, has a member named `k`.
pub open spec fn lacks_key_everywhere(j: JsonView, k: Seq<char>) -> bool
    decreases j,
{
    match j {
        JsonView::Object(m) => forall|i: int|
            0 <= i < m.len() ==> (#[trigger] m[i]).0 != k && lacks_key_everywhere(m[i].1, k),
        JsonView::Array(a) => forall|i: int|
            0 <= i < a.len() ==> lacks_key_everywhere(#[trigger] a[i], k),
        _ => true,
    }
}

fn rename_ref(value: &Json) -> (r: Json)
    ensures
        r@ == renamed(value@),
    decreases value,
{
    match value {
        Json::Object(m) => {
            let ghost src = members_view(m@);
            let ghost target = renamed_members(src);
            proof {
                lemma_object_view(*m);
            }
            let mut out: Vec<(String, Json)> = Vec::new();
            let mut i: usize = 0;
            while i < m.len()
                invariant
                    *value == Json::Object(*m),
                    src == members_view(m@),
                    target.len() == src.len(),
                    forall|j: int|
                        0 <= j < src.len() ==> #[trigger] target[j] == (
                            renamed_key(src[j].0),
                            renamed(src[j].1),
                        ),
                    i <= m.len(),
                    members_view(out@) == obj_collect(target.take(i as int)),
                decreases m.len() - i,
            {
                proof {
                    let ghost sj = *value;
                    let ghost sm = *m;
                    assert(decreases_to!(sj => sj->Object_0));
                    assert(decreases_to!(sm => sm@));
                    assert(decreases_to!(sm@ => sm@[i as int]));
                    assert(decreases_to!(sm@[i as int] => sm@[i as int].1));
                    assert(decreases_to!(sj => sm@[i as int].1));
                }
                let v = rename_ref(&m[i].1);
                let k = if str_eq(m[i].0.as_str(), "attributes") {
                    owned("properties")
                } else {
                    m[i].0.clone()
                };
                assert(k@ == renamed_key(src[i as int].0));
                insert_member(&mut out, k, v);
                assert(target.take(i + 1).drop_last() =~= target.take(i as int));
                i = i + 1;
            }
            assert(target.take(m.len() as int) =~= target);
            let r = Json::Object(out);
            proof {
                lemma_object_view(out);
            }
            r
        },
        Json::Array(a) => {
            let mut out: Vec<Json> = Vec::new();
            let mut i: usize = 0;
            proof {
                lemma_array_view(*a);
            }
            while i < a.len()
                invariant
                    *value == Json::Array(*a),
                    value@ == JsonView::Array(items_view(a@)),
                    i <= a.len(),
                    out@.len() == i,
                    forall|j: int| 0 <= j < i ==> #[trigger] out@[j]@ == renamed(a@[j]@),
                decreases a.len() - i,
            {
                proof {
                    let ghost sj = *value;
                    let ghost sa = *a;
                    assert(decreases_to!(sj => sj->Array_0));
                    assert(decreases_to!(sa => sa@));
                    assert(decreases_to!(sa@ => sa@[i as int]));
                    assert(decreases_to!(sj => sa@[i as int]));
                }
                let v = rename_ref(&a[i]);
                out.push(v);
                i = i + 1;
            }
            let r = Json::Array(out);
            proof {
                lemma_array_view(out);
                assert(items_view(out@) =~= renamed(value@)->Array_0);
            }
            r
        },
        _ => value.deep_clone(),
    }
}

/// Renames the schema field "attributes" back to the domain field "properties"
/// in a generated schema, at any depth.
pub fn rename_attributes_to_properties(value: Json) -> (r: Json)
    ensures
        r@ == renamed(value@),
{
    rename_ref(&value)
}

/// The members of an object collected into a map hold only keys of the members.
pub proof fn lemma_collect_keys(members: Seq<(Seq<char>, JsonView)>, i: int)
    requires
        0 <= i < obj_collect(members).len(),
    ensures
        exists|j: int|
            0 <= j < members.len() && #[trigger] members[j] == obj_collect(members)[i],
    decreases members.len(),
{
    let prev = obj_collect(members.drop_last());
    let last = members.last();
    lemma_obj_find(prev, last.0);
    match crate::json::obj_find(prev, last.0) {
        Some(x) => {
            if i == x {
                assert(members[members.len() - 1] == obj_collect(members)[i]);
            } else {
                lemma_collect_keys(members.drop_last(), i);
                let j = choose|j: int|
                    0 <= j < members.drop_last().len() && #[trigger] members.drop_last()[j]
                        == prev[i];
                assert(members[j] == obj_collect(members)[i]);
            }
        },
        None => {
            if i == prev.len() {
                assert(members[members.len() - 1] == obj_collect(members)[i]);
            } else {
                lemma_collect_keys(members.drop_last(), i);
                let j = choose|j: int|
                    0 <= j < members.drop_last().len() && #[trigger] members.drop_last()[j]
                        == prev[i];
                assert(members[j] == obj_collect(members)[i]);
            }
        },
    }
}

/// After renaming, no object at any depth has a member named "attributes".
pub proof fn law_renamed_has_no_attributes(j: JsonView)
    ensures
        lacks_key_everywhere(renamed(j), "attributes"@),
    decreases j,
{
    reveal_strlit("attributes");
    reveal_strlit("properties");
    assert("attributes"@[0] != "properties"@[0]);
    match j {
        JsonView::Object(m) => {
            let members = renamed_members(m);
            let out = obj_collect(members);
            assert(renamed(j) == JsonView::Object(out));
            assert forall|i: int| 0 <= i < out.len() implies (#[trigger] out[i]).0
                != "attributes"@ && lacks_key_everywhere(out[i].1, "attributes"@) by {
                lemma_collect_keys(members, i);
                let x = choose|x: int| 0 <= x < members.len() && #[trigger] members[x] == out[i];
                assert(decreases_to!(m => m[x]));
                assert(decreases_to!(m[x] => m[x].1));
                law_renamed_has_no_attributes(m[x].1);
            }
        },
        JsonView::Array(a) => {
            let out = renamed(j)->Array_0;
            assert forall|i: int| 0 <= i < out.len() implies lacks_key_everywhere(
                #[trigger] out[i],
                "attributes"@,
            ) by {
                assert(decreases_to!(a => a[i]));
                law_renamed_has_no_attributes(a[i]);
            }
        },
        _ => {},
    }
}

/// No two members share a key.
pub open spec fn keys_distinct(m: Seq<(Seq<char>, JsonView)>) -> bool {
    forall|a: int, b: int| 0 <= a < b < m.len() ==> m[a].0 != m[b].0
}

/// Collected members never share a key.
pub proof fn lemma_collect_distinct(members: Seq<(Seq<char>, JsonView)>)
    ensures
        keys_distinct(obj_collect(members)),
    decreases members.len(),
{
    if members.len() > 0 {
        let prev = obj_collect(members.drop_last());
        lemma_collect_distinct(members.drop_last());
        lemma_obj_find(prev, members.last().0);
        let out = obj_collect(members);
        match crate::json::obj_find(prev, members.last().0) {
            Some(i) => {
                assert forall|a: int, b: int| 0 <= a < b < out.len() implies out[a].0 != out[b].0 by {
                    assert(out[a].0 == prev[a].0);
                    assert(out[b].0 == prev[b].0);
                }
            },
            None => {
                assert forall|a: int, b: int| 0 <= a < b < out.len() implies out[a].0 != out[b].0 by {
                    if b < prev.len() {
                        assert(out[a] == prev[a] && out[b] == prev[b]);
                    }
                }
            },
        }
    }
}

/// Members that never share a key are collected as they are.
pub proof fn lemma_collect_distinct_unchanged(m: Seq<(Seq<char>, JsonView)>)
    requires
        keys_distinct(m),
    ensures
        obj_collect(m) == m,
    decreases m.len(),
{
    if m.len() > 0 {
        let prev = m.drop_last();
        lemma_collect_distinct_unchanged(prev);
        lemma_obj_find(prev, m.last().0);
        assert forall|j: int| 0 <= j < prev.len() implies prev[j].0 != m.last().0 by {
            assert(m[j].0 != m[m.len() - 1].0);
        }
        assert(obj_collect(m) =~= m);
    }
}

/// Renaming twice is renaming once.
pub proof fn law_renaming_is_idempotent(j: JsonView)
    ensures
        renamed(renamed(j)) == renamed(j),
    decreases j,
{
    reveal_strlit("attributes");
    reveal_strlit("properties");
    assert("attributes"@[0] != "properties"@[0]);
    match j {
        JsonView::Object(m) => {
            let members = renamed_members(m);
            let c = obj_collect(members);
            assert forall|i: int| 0 <= i < c.len() implies #[trigger] renamed_members(c)[i] == c[i] by {
                lemma_collect_keys(members, i);
                let x = choose|x: int| 0 <= x < members.len() && #[trigger] members[x] == c[i];
                assert(decreases_to!(m => m[x]));
                assert(decreases_to!(m[x] => m[x].1));
                law_renaming_is_idempotent(m[x].1);
                assert(renamed_key(renamed_key(m[x].0)) == renamed_key(m[x].0));
            }
            assert(renamed_members(c) =~= c);
            lemma_collect_distinct(members);
            lemma_collect_distinct_unchanged(c);
        },
        JsonView::Array(a) => {
            let out = renamed_items(a);
            assert forall|i: int| 0 <= i < out.len() implies #[trigger] renamed_items(out)[i] == out[i] by {
                assert(decreases_to!(a => a[i]));
                law_renaming_is_idempotent(a[i]);
            }
            assert(renamed_items(out) =~= out);
        },
        _ => {},
    }
}

/// Renaming keeps the shape of a value: a scalar is unchanged; an array stays
/// an array of the same length whose every item is its item renamed; an object
/// stays an object whose every member value is one of its member values
/// renamed. As each inner value is itself renamed, this holds at every depth.
pub proof fn law_renaming_keeps_shape(j: JsonView)
    ensures
        match j {
            JsonView::Object(m) => renamed(j) is Object && forall|i: int|
                #![trigger renamed(j)->Object_0[i]]
                0 <= i < renamed(j)->Object_0.len() ==> exists|x: int|
                    0 <= x < m.len() && renamed(j)->Object_0[i].1 == #[trigger] renamed(m[x].1),
            JsonView::Array(a) => renamed(j) is Array && renamed(j)->Array_0.len() == a.len() && forall|i: int|
                0 <= i < a.len() ==> renamed(j)->Array_0[i] == renamed(#[trigger] a[i]),
            _ => renamed(j) == j,
        },
{
    match j {
        JsonView::Object(m) => {
            let members = renamed_members(m);
            let out = obj_collect(members);
            let r = renamed(j);
            assert(r == JsonView::Object(out));
            assert forall|i: int| #![trigger r->Object_0[i]] 0 <= i < r->Object_0.len() implies exists|x: int|
                0 <= x < m.len() && r->Object_0[i].1 == #[trigger] renamed(m[x].1) by {
                lemma_collect_keys(members, i);
                let x = choose|x: int| 0 <= x < members.len() && #[trigger] members[x] == out[i];
                assert(r->Object_0[i].1 == renamed(m[x].1));
            }
        },
        JsonView::Array(a) => {},
        _ => {},
    }
}

// ---------------------------------------------------------------------------
// Schema references
// ---------------------------------------------------------------------------

pub open spec fn schema_ref_prefix() -> Seq<char> {
    "#/components/schemas/"@
}

/// The schema name that the `$ref` member of an object points to.
pub open spec fn ref_target(obj: Seq<(Seq<char>, JsonView)>) -> Option<Seq<char>> {
    match obj_get(obj, "$ref"@) {
        Some(JsonView::String(r)) => if has_prefix(r, schema_ref_prefix()) {
            Some(r.skip(schema_ref_prefix().len() as int))
        } else {
            None
        },
        _ => None,
    }
}

/// The schema names referenced in `j`, in the order of a depth-first walk.
pub open spec fn refs_in(j: JsonView) -> Seq<Seq<char>>
    decreases j,
{
    match j {
        JsonView::Object(m) => match ref_target(m) {
            Some(n) => seq![n] + flatten_back(member_refs(m)),
            None => flatten_back(member_refs(m)),
        },
        JsonView::Array(a) => flatten_back(item_refs(a)),
        _ => Seq::empty(),
    }
}

/// The references found in each member's value.
pub open spec fn member_refs(m: Seq<(Seq<char>, JsonView)>) -> Seq<Seq<Seq<char>>>
    decreases m,
{
    Seq::new(
        m.len(),
        |i: int|
            if 0 <= i < m.len() {
                refs_in(m[i].1)
            } else {
                Seq::empty()
            },
    )
}

/// The references found in each item.
pub open spec fn item_refs(a: Seq<JsonView>) -> Seq<Seq<Seq<char>>>
    decreases a,
{
    Seq::new(
        a.len(),
        |i: int|
            if 0 <= i < a.len() {
                refs_in(a[i])
            } else {
                Seq::empty()
            },
    )
}

/// The schema name that the `$ref` member of the members `m` points to.
fn ref_target_exec(m: &Vec<(String, Json)>) -> (r: Option<String>)
    ensures
        r matches Some(n) ==> ref_target(members_view(m@)) == Some(n@),
        r is None ==> ref_target(members_view(m@)) is None,
{
    proof {
        lemma_obj_find(members_view(m@), "$ref"@);
    }
    let ghost mv = members_view(m@);
    match find_member(m, "$ref") {
        Some(i) => {
            assert(mv[i as int].1 == m@[i as int].1@);
            assert(crate::json::obj_find(mv, "$ref"@) == Some(i as int));
            assert(obj_get(mv, "$ref"@) == Some(m@[i as int].1@));
            match m[i].1.as_str() {
                Some(r) => {
                    assert(m@[i as int].1@ == JsonView::String(r@));
                    strip_prefix(r, "#/components/schemas/")
                },
                None => {
                    assert(!(m@[i as int].1@ is String));
                    None
                },
            }
        },
        None => {
            assert(obj_get(mv, "$ref"@) is None);
            None
        },
    }
}

/// Appends to `refs` the schema names referenced in `value`.
fn collect_schema_refs(value: &Json, refs: &mut Vec<String>)
    ensures
        strings_view(final(refs)@) == strings_view(old(refs)@) + refs_in(value@),
    decreases value,
{
    let ghost start = strings_view(refs@);
    match value {
        Json::Object(m) => {
            proof {
                lemma_object_view(*m);
            }
            let ghost mv = members_view(m@);
            let ghost parts = member_refs(mv);
            let own = ref_target_exec(m);
            let ghost own_seq: Seq<Seq<char>> = match ref_target(mv) {
                Some(n) => seq![n],
                None => Seq::empty(),
            };
            match own {
                Some(n) => {
                    refs.push(n);
                },
                None => {},
            }
            assert(strings_view(refs@) =~= start + own_seq);
            let mut i: usize = 0;
            while i < m.len()
                invariant
                    *value == Json::Object(*m),
                    mv == members_view(m@),
                    parts.len() == mv.len(),
                    forall|j: int| 0 <= j < mv.len() ==> #[trigger] parts[j] == refs_in(mv[j].1),
                    i <= m.len(),
                    strings_view(refs@) == start + own_seq + flatten_back(parts.take(i as int)),
                decreases m.len() - i,
            {
                proof {
                    let ghost sj = *value;
                    let ghost sm = *m;
                    assert(decreases_to!(sj => sj->Object_0));
                    assert(decreases_to!(sm => sm@));
                    assert(decreases_to!(sm@ => sm@[i as int]));
                    assert(decreases_to!(sm@[i as int] => sm@[i as int].1));
                    assert(decreases_to!(sj => sm@[i as int].1));
                }
                collect_schema_refs(&m[i].1, refs);
                assert(parts.take(i + 1).drop_last() =~= parts.take(i as int));
                assert(strings_view(refs@) =~= start + own_seq + flatten_back(
                    parts.take(i + 1),
                ));
                i = i + 1;
            }
            assert(parts.take(m.len() as int) =~= parts);
            assert(strings_view(refs@) =~= start + refs_in(value@));
        },
        Json::Array(a) => {
            proof {
                lemma_array_view(*a);
            }
            let ghost av = items_view(a@);
            let ghost parts = item_refs(av);
            let mut i: usize = 0;
            assert(strings_view(refs@) =~= start + flatten_back(parts.take(0)));
            while i < a.len()
                invariant
                    *value == Json::Array(*a),
                    av == items_view(a@),
                    parts.len() == av.len(),
                    forall|j: int| 0 <= j < av.len() ==> #[trigger] parts[j] == refs_in(av[j]),
                    i <= a.len(),
                    strings_view(refs@) == start + flatten_back(parts.take(i as int)),
                decreases a.len() - i,
            {
                proof {
                    let ghost sj = *value;
                    let ghost sa = *a;
                    assert(decreases_to!(sj => sj->Array_0));
                    assert(decreases_to!(sa => sa@));
                    assert(decreases_to!(sa@ => sa@[i as int]));
                    assert(decreases_to!(sj => sa@[i as int]));
                }
                collect_schema_refs(&a[i], refs);
                assert(parts.take(i + 1).drop_last() =~= parts.take(i as int));
                assert(strings_view(refs@) =~= start + flatten_back(parts.take(i + 1)));
                i = i + 1;
            }
            assert(parts.take(a.len() as int) =~= parts);
            assert(strings_view(refs@) =~= start + refs_in(value@));
        },
        _ => {
            assert(strings_view(refs@) =~= start + refs_in(value@));
        },
    }
}

// ---------------------------------------------------------------------------
// Resolving a schema into a strict structured-output schema
// ---------------------------------------------------------------------------

/// The domain field "properties" is exposed to the model as "attributes", to keep
/// clear of the JSON Schema keyword.
pub open spec fn exposed_key(k: Seq<char>) -> Seq<char> {
    if k == "properties"@ {
        "attributes"@
    } else {
        k
    }
}

/// The strings among `a`, in order.
pub open spec fn string_items(a: Seq<JsonView>) -> Seq<Seq<char>>
    decreases a.len(),
{
    if a.len() == 0 {
        Seq::empty()
    } else {
        string_items(a.drop_last()) + match a.last() {
            JsonView::String(s) => seq![s],
            _ => Seq::empty(),
        }
    }
}

pub open spec fn member_keys(m: Seq<(Seq<char>, JsonView)>) -> Seq<Seq<char>> {
    Seq::new(m.len(), |i: int| m[i].0)
}

/// The keys of an object in key order, as a JSON map walks them.
pub open spec fn sorted_keys(m: Seq<(Seq<char>, JsonView)>) -> Seq<Seq<char>> {
    let ks = member_keys(m);
    let o = sorted_order(ks, ks.len());
    Seq::new(ks.len(), |i: int| ks[o[i]])
}

/// The properties that the resolved object keeps: those listed as required, or
/// all of them, in key order, when none are listed.
pub open spec fn required_keys(
    obj: Seq<(Seq<char>, JsonView)>,
    props: Seq<(Seq<char>, JsonView)>,
) -> Seq<Seq<char>> {
    match obj_get(obj, "required"@) {
        Some(JsonView::Array(req)) => string_items(req),
        _ => sorted_keys(props),
    }
}

pub open spec fn exposed_key_strings(keys: Seq<Seq<char>>) -> Seq<JsonView> {
    Seq::new(keys.len(), |i: int| JsonView::String(exposed_key(keys[i])))
}

pub open spec fn is_object_type(obj: Seq<(Seq<char>, JsonView)>) -> bool {
    obj_get(obj, "type"@) == Some(JsonView::String("object"@))
}

pub open spec fn object_base() -> Seq<(Seq<char>, JsonView)> {
    seq![("type"@, JsonView::String("object"@)), ("additionalProperties"@, JsonView::Bool(false))]
}

/// `s` with every `$ref` into `all` replaced by the referenced schema; object
/// schemas become closed (`additionalProperties: false`) and keep only their
/// required properties (all of them when none are listed), which all become
/// required; "example" members are dropped elsewhere. `fuel` bounds the number
/// of references followed; `None` when it runs out.
pub open spec fn resolve(s: JsonView, all: Seq<(Seq<char>, JsonView)>, fuel: nat) -> Option<
    JsonView,
>
    decreases fuel, s, 0nat,
{
    match s {
        JsonView::Object(obj) => {
            let target = ref_target(obj);
            if target is Some && obj_get(all, target->0) is Some {
                if fuel == 0 {
                    None
                } else {
                    resolve(obj_get(all, target->0)->0, all, (fuel - 1) as nat)
                }
            } else if is_object_type(obj) {
                match obj_get(obj, "properties"@) {
                    Some(JsonView::Object(props)) => {
                        proof {
                            lemma_obj_get_decreases(obj, "properties"@);
                            assert(decreases_to!(s => obj));
                            assert(decreases_to!(JsonView::Object(props) => props));
                            assert(decreases_to!(s => props));
                        }
                        let keys = required_keys(obj, props);
                        let with_req = obj_insert(
                            object_base(),
                            "required"@,
                            JsonView::Array(exposed_key_strings(keys)),
                        );
                        match resolve_props(keys, props, all, fuel) {
                            Some(rp) => Some(
                                JsonView::Object(
                                    obj_insert(with_req, "properties"@, JsonView::Object(rp)),
                                ),
                            ),
                            None => None,
                        }
                    },
                    _ => Some(JsonView::Object(object_base())),
                }
            } else {
                match resolve_members(obj, all, fuel) {
                    Some(ms) => Some(JsonView::Object(ms)),
                    None => None,
                }
            }
        },
        JsonView::Array(a) => match resolve_items(a, all, fuel) {
            Some(xs) => Some(JsonView::Array(xs)),
            None => None,
        },
        _ => Some(s),
    }
}

/// The resolved schemas of the properties named in `keys`, under their exposed names.
pub open spec fn resolve_props(
    keys: Seq<Seq<char>>,
    props: Seq<(Seq<char>, JsonView)>,
    all: Seq<(Seq<char>, JsonView)>,
    fuel: nat,
) -> Option<Seq<(Seq<char>, JsonView)>>
    decreases fuel, props, keys.len(),
{
    if keys.len() == 0 {
        Some(Seq::empty())
    } else {
        match resolve_props(keys.drop_last(), props, all, fuel) {
            Some(acc) => match obj_get(props, keys.last()) {
                Some(ps) => {
                    proof {
                        lemma_obj_get_decreases(props, keys.last());
                    }
                    match resolve(ps, all, fuel) {
                        Some(r) => Some(obj_insert(acc, exposed_key(keys.last()), r)),
                        None => None,
                    }
                },
                None => Some(acc),
            },
            None => None,
        }
    }
}

/// The members of a non-object schema, resolved, without "example".
pub open spec fn resolve_members(
    m: Seq<(Seq<char>, JsonView)>,
    all: Seq<(Seq<char>, JsonView)>,
    fuel: nat,
) -> Option<Seq<(Seq<char>, JsonView)>>
    decreases fuel, m, 0nat,
{
    if m.len() == 0 {
        Some(Seq::empty())
    } else {
        proof {
            assert(decreases_to!(m => m.subrange(0, m.len() - 1)));
            assert(decreases_to!(m => m[m.len() - 1]));
            assert(decreases_to!(m[m.len() - 1] => m[m.len() - 1].1));
        }
        match resolve_members(m.subrange(0, m.len() - 1), all, fuel) {
            Some(acc) => if m[m.len() - 1].0 == "example"@ {
                Some(acc)
            } else {
                match resolve(m[m.len() - 1].1, all, fuel) {
                    Some(r) => Some(obj_insert(acc, m[m.len() - 1].0, r)),
                    None => None,
                }
            },
            None => None,
        }
    }
}

/// The items of an array, resolved.
pub open spec fn resolve_items(
    a: Seq<JsonView>,
    all: Seq<(Seq<char>, JsonView)>,
    fuel: nat,
) -> Option<Seq<JsonView>>
    decreases fuel, a, 0nat,
{
    if a.len() == 0 {
        Some(Seq::empty())
    } else {
        proof {
            assert(decreases_to!(a => a.subrange(0, a.len() - 1)));
            assert(decreases_to!(a => a[a.len() - 1]));
        }
        match resolve_items(a.subrange(0, a.len() - 1), all, fuel) {
            Some(acc) => match resolve(a[a.len() - 1], all, fuel) {
                Some(r) => Some(acc.push(r)),
                None => None,
            },
            None => None,
        }
    }
}

/// More fuel changes nothing once the resolution ends.
pub proof fn lemma_resolve_fuel(s: JsonView, all: Seq<(Seq<char>, JsonView)>, fuel: nat)
    requires
        resolve(s, all, fuel) is Some,
    ensures
        resolve(s, all, fuel + 1) == resolve(s, all, fuel),
    decreases fuel, s, 0nat,
{
    match s {
        JsonView::Object(obj) => {
            let target = ref_target(obj);
            if target is Some && obj_get(all, target->0) is Some {
                lemma_resolve_fuel(obj_get(all, target->0)->0, all, (fuel - 1) as nat);
            } else if is_object_type(obj) {
                match obj_get(obj, "properties"@) {
                    Some(JsonView::Object(props)) => {
                        lemma_obj_get_decreases(obj, "properties"@);
                        assert(decreases_to!(s => obj));
                        assert(decreases_to!(JsonView::Object(props) => props));
                        assert(decreases_to!(s => props));
                        lemma_props_fuel(required_keys(obj, props), props, all, fuel);
                    },
                    _ => {},
                }
            } else {
                lemma_members_fuel(obj, all, fuel);
            }
        },
        JsonView::Array(a) => {
            lemma_items_fuel(a, all, fuel);
        },
        _ => {},
    }
}

pub proof fn lemma_props_fuel(
    keys: Seq<Seq<char>>,
    props: Seq<(Seq<char>, JsonView)>,
    all: Seq<(Seq<char>, JsonView)>,
    fuel: nat,
)
    requires
        resolve_props(keys, props, all, fuel) is Some,
    ensures
        resolve_props(keys, props, all, fuel + 1) == resolve_props(keys, props, all, fuel),
    decreases fuel, props, keys.len(),
{
    if keys.len() > 0 {
        lemma_props_fuel(keys.drop_last(), props, all, fuel);
        match obj_get(props, keys.last()) {
            Some(ps) => {
                lemma_obj_get_decreases(props, keys.last());
                lemma_resolve_fuel(ps, all, fuel);
            },
            None => {},
        }
    }
}

pub proof fn lemma_members_fuel(m: Seq<(Seq<char>, JsonView)>, all: Seq<(Seq<char>, JsonView)>, fuel: nat)
    requires
        resolve_members(m, all, fuel) is Some,
    ensures
        resolve_members(m, all, fuel + 1) == resolve_members(m, all, fuel),
    decreases fuel, m, 0nat,
{
    if m.len() > 0 {
        assert(decreases_to!(m => m.subrange(0, m.len() - 1)));
        assert(decreases_to!(m => m[m.len() - 1]));
        assert(decreases_to!(m[m.len() - 1] => m[m.len() - 1].1));
        lemma_members_fuel(m.subrange(0, m.len() - 1), all, fuel);
        if m[m.len() - 1].0 != "example"@ {
            lemma_resolve_fuel(m[m.len() - 1].1, all, fuel);
        }
    }
}

pub proof fn lemma_items_fuel(a: Seq<JsonView>, all: Seq<(Seq<char>, JsonView)>, fuel: nat)
    requires
        resolve_items(a, all, fuel) is Some,
    ensures
        resolve_items(a, all, fuel + 1) == resolve_items(a, all, fuel),
    decreases fuel, a, 0nat,
{
    if a.len() > 0 {
        assert(decreases_to!(a => a.subrange(0, a.len() - 1)));
        assert(decreases_to!(a => a[a.len() - 1]));
        lemma_items_fuel(a.subrange(0, a.len() - 1), all, fuel);
        lemma_resolve_fuel(a[a.len() - 1], all, fuel);
    }
}

/// Every reference in `s` to one of the named schemas `all` points to a schema
/// whose rank is under `bound`.
pub open spec fn refs_below(
    s: JsonView,
    all: Seq<(Seq<char>, JsonView)>,
    rank: spec_fn(Seq<char>) -> nat,
    bound: nat,
) -> bool {
    forall|r: Seq<char>| #[trigger] refs_in(s).contains(r) && obj_get(all, r) is Some ==> rank(r) < bound
}

/// Each named schema references only schemas of lower rank: the references
/// among the schemas are not cyclic.
pub open spec fn refs_ranked(all: Seq<(Seq<char>, JsonView)>, rank: spec_fn(Seq<char>) -> nat) -> bool {
    forall|k: int| 0 <= k < all.len() ==> refs_below(#[trigger] all[k].1, all, rank, rank(all[k].0))
}

pub proof fn lemma_flatten_contains<A>(ss: Seq<Seq<A>>, i: int, x: A)
    requires
        0 <= i < ss.len(),
        ss[i].contains(x),
    ensures
        flatten_back(ss).contains(x),
    decreases ss.len(),
{
    let f = flatten_back(ss.drop_last());
    if i == ss.len() - 1 {
        let j = choose|j: int| 0 <= j < ss[i].len() && ss[i][j] == x;
        assert((f + ss.last())[f.len() + j] == x);
    } else {
        assert(ss.drop_last()[i] == ss[i]);
        lemma_flatten_contains(ss.drop_last(), i, x);
        let j = choose|j: int| 0 <= j < f.len() && f[j] == x;
        assert((f + ss.last())[j] == x);
    }
}

/// The references below an object's members are below the object.
pub proof fn lemma_member_refs_below(
    m: Seq<(Seq<char>, JsonView)>,
    all: Seq<(Seq<char>, JsonView)>,
    rank: spec_fn(Seq<char>) -> nat,
    bound: nat,
)
    requires
        refs_below(JsonView::Object(m), all, rank, bound),
    ensures
        forall|i: int| 0 <= i < m.len() ==> refs_below(#[trigger] m[i].1, all, rank, bound),
{
    assert forall|i: int| 0 <= i < m.len() implies refs_below(#[trigger] m[i].1, all, rank, bound) by {
        assert forall|r: Seq<char>| #[trigger] refs_in(m[i].1).contains(r) && obj_get(all, r) is Some implies rank(r) < bound by {
            assert(member_refs(m)[i] == refs_in(m[i].1));
            lemma_flatten_contains(member_refs(m), i, r);
            let f = flatten_back(member_refs(m));
            let j = choose|j: int| 0 <= j < f.len() && f[j] == r;
            match ref_target(m) {
                Some(n) => {
                    assert((seq![n] + f)[j + 1] == r);
                    assert(refs_in(JsonView::Object(m)).contains(r));
                },
                None => {
                    assert(refs_in(JsonView::Object(m)).contains(r));
                },
            }
        }
    }
}

/// The references below an array's items are below the array.
pub proof fn lemma_item_refs_below(
    a: Seq<JsonView>,
    all: Seq<(Seq<char>, JsonView)>,
    rank: spec_fn(Seq<char>) -> nat,
    bound: nat,
)
    requires
        refs_below(JsonView::Array(a), all, rank, bound),
    ensures
        forall|i: int| 0 <= i < a.len() ==> refs_below(#[trigger] a[i], all, rank, bound),
{
    assert forall|i: int| 0 <= i < a.len() implies refs_below(#[trigger] a[i], all, rank, bound) by {
        assert forall|r: Seq<char>| #[trigger] refs_in(a[i]).contains(r) && obj_get(all, r) is Some implies rank(r) < bound by {
            assert(item_refs(a)[i] == refs_in(a[i]));
            lemma_flatten_contains(item_refs(a), i, r);
            assert(refs_in(JsonView::Array(a)).contains(r));
        }
    }
}

/// With ranked references, resolving ends once the fuel is above the rank of
/// every schema that `s` references.
pub proof fn lemma_resolve_ends(
    s: JsonView,
    all: Seq<(Seq<char>, JsonView)>,
    rank: spec_fn(Seq<char>) -> nat,
    fuel: nat,
)
    requires
        refs_ranked(all, rank),
        refs_below(s, all, rank, fuel),
    ensures
        resolve(s, all, fuel) is Some,
    decreases fuel, s, 0nat,
{
    match s {
        JsonView::Object(obj) => {
            let target = ref_target(obj);
            if target is Some && obj_get(all, target->0) is Some {
                let t = target->0;
                assert(refs_in(s)[0] == t);
                assert(refs_in(s).contains(t));
                lemma_obj_find(all, t);
                let k = crate::json::obj_find(all, t)->0;
                assert(refs_below(all[k].1, all, rank, rank(all[k].0)));
                assert(refs_below(all[k].1, all, rank, (fuel - 1) as nat));
                lemma_resolve_ends(all[k].1, all, rank, (fuel - 1) as nat);
            } else if is_object_type(obj) {
                match obj_get(obj, "properties"@) {
                    Some(JsonView::Object(props)) => {
                        lemma_member_refs_below(obj, all, rank, fuel);
                        lemma_obj_find(obj, "properties"@);
                        let p = crate::json::obj_find(obj, "properties"@)->0;
                        assert(refs_below(obj[p].1, all, rank, fuel));
                        lemma_member_refs_below(props, all, rank, fuel);
                        lemma_obj_get_decreases(obj, "properties"@);
                        assert(decreases_to!(s => obj));
                        assert(decreases_to!(JsonView::Object(props) => props));
                        assert(decreases_to!(s => props));
                        lemma_props_ends(required_keys(obj, props), props, all, rank, fuel);
                    },
                    _ => {},
                }
            } else {
                lemma_member_refs_below(obj, all, rank, fuel);
                lemma_members_ends(obj, all, rank, fuel);
            }
        },
        JsonView::Array(a) => {
            lemma_item_refs_below(a, all, rank, fuel);
            lemma_items_ends(a, all, rank, fuel);
        },
        _ => {},
    }
}

pub proof fn lemma_props_ends(
    keys: Seq<Seq<char>>,
    props: Seq<(Seq<char>, JsonView)>,
    all: Seq<(Seq<char>, JsonView)>,
    rank: spec_fn(Seq<char>) -> nat,
    fuel: nat,
)
    requires
        refs_ranked(all, rank),
        forall|i: int| 0 <= i < props.len() ==> refs_below(#[trigger] props[i].1, all, rank, fuel),
    ensures
        resolve_props(keys, props, all, fuel) is Some,
    decreases fuel, props, keys.len(),
{
    if keys.len() > 0 {
        lemma_props_ends(keys.drop_last(), props, all, rank, fuel);
        match obj_get(props, keys.last()) {
            Some(ps) => {
                lemma_obj_find(props, keys.last());
                let x = crate::json::obj_find(props, keys.last())->0;
                assert(refs_below(props[x].1, all, rank, fuel));
                lemma_obj_get_decreases(props, keys.last());
                lemma_resolve_ends(ps, all, rank, fuel);
            },
            None => {},
        }
    }
}

pub proof fn lemma_members_ends(
    m: Seq<(Seq<char>, JsonView)>,
    all: Seq<(Seq<char>, JsonView)>,
    rank: spec_fn(Seq<char>) -> nat,
    fuel: nat,
)
    requires
        refs_ranked(all, rank),
        forall|i: int| 0 <= i < m.len() ==> refs_below(#[trigger] m[i].1, all, rank, fuel),
    ensures
        resolve_members(m, all, fuel) is Some,
    decreases fuel, m, 0nat,
{
    if m.len() > 0 {
        let init = m.subrange(0, m.len() - 1);
        assert(decreases_to!(m => init));
        assert(decreases_to!(m => m[m.len() - 1]));
        assert(decreases_to!(m[m.len() - 1] => m[m.len() - 1].1));
        assert forall|i: int| 0 <= i < init.len() implies refs_below(#[trigger] init[i].1, all, rank, fuel) by {
            assert(init[i] == m[i]);
        }
        lemma_members_ends(init, all, rank, fuel);
        assert(refs_below(m[m.len() - 1].1, all, rank, fuel));
        lemma_resolve_ends(m[m.len() - 1].1, all, rank, fuel);
    }
}

pub proof fn lemma_items_ends(
    a: Seq<JsonView>,
    all: Seq<(Seq<char>, JsonView)>,
    rank: spec_fn(Seq<char>) -> nat,
    fuel: nat,
)
    requires
        refs_ranked(all, rank),
        forall|i: int| 0 <= i < a.len() ==> refs_below(#[trigger] a[i], all, rank, fuel),
    ensures
        resolve_items(a, all, fuel) is Some,
    decreases fuel, a, 0nat,
{
    if a.len() > 0 {
        let init = a.subrange(0, a.len() - 1);
        assert(decreases_to!(a => init));
        assert(decreases_to!(a => a[a.len() - 1]));
        assert forall|i: int| 0 <= i < init.len() implies refs_below(#[trigger] init[i], all, rank, fuel) by {
            assert(init[i] == a[i]);
        }
        lemma_items_ends(init, all, rank, fuel);
        assert(refs_below(a[a.len() - 1], all, rank, fuel));
        lemma_resolve_ends(a[a.len() - 1], all, rank, fuel);
    }
}

/// A document whose schema references are not cyclic (some ranking puts every
/// referenced schema below the schema that references it) has a
/// structured-output schema: its resolution ends.
pub proof fn law_acyclic_references_resolve(doc: JsonView, rank: spec_fn(Seq<char>) -> nat)
    requires
        refs_ranked(component_schemas(doc), rank),
    ensures
        structured_output_defined(doc),
{
    let schemas = component_schemas(doc);
    if schemas.len() > 0 {
        match root_pick(schemas, all_refs(schemas), schemas.len() as int) {
            Some(i) => {
                lemma_root_pick(schemas, all_refs(schemas), schemas.len() as int);
                let f = rank(schemas[i].0);
                assert(refs_below(schemas[i].1, schemas, rank, f));
                lemma_resolve_ends(schemas[i].1, schemas, rank, f);
                assert(structured_output_with(doc, f) is Some);
            },
            None => {
                assert(structured_output_with(doc, 0) is Some);
            },
        }
    } else {
        assert(structured_output_with(doc, 0) is Some);
    }
}

/// From fuel that suffices to more fuel, the structured-output schema stays.
pub proof fn lemma_more_fuel(doc: JsonView, f: nat, g: nat)
    requires
        structured_output_with(doc, f) is Some,
        f <= g,
    ensures
        structured_output_with(doc, g) == structured_output_with(doc, f),
    decreases g - f,
{
    if f < g {
        lemma_more_fuel(doc, f, (g - 1) as nat);
        let schemas = component_schemas(doc);
        if schemas.len() > 0 {
            match root_pick(schemas, all_refs(schemas), schemas.len() as int) {
                Some(i) => {
                    lemma_resolve_fuel(schemas[i].1, schemas, (g - 1) as nat);
                },
                None => {},
            }
        }
    }
}

/// Resolving with any fuel that suffices gives the same schema, so the
/// structured-output schema of a document is well defined.
pub proof fn law_resolution_ignores_fuel(doc: JsonView, f: nat, g: nat)
    requires
        structured_output_with(doc, f) is Some,
        f <= g,
    ensures
        structured_output_with(doc, g) == structured_output_with(doc, f),
        structured_output(doc) == structured_output_with(doc, f)->0,
{
    lemma_more_fuel(doc, f, g);
    let c = choose|x: nat| structured_output_with(doc, x) is Some;
    assert(structured_output_with(doc, c) is Some);
    if c <= f {
        lemma_more_fuel(doc, c, f);
    } else {
        lemma_more_fuel(doc, f, c);
    }
}

pub proof fn lemma_members_prefix(
    m: Seq<(Seq<char>, JsonView)>,
    all: Seq<(Seq<char>, JsonView)>,
    fuel: nat,
    i: int,
)
    requires
        resolve_members(m, all, fuel) is Some,
        0 <= i <= m.len(),
    ensures
        resolve_members(m.subrange(0, i), all, fuel) is Some,
    decreases m.len() - i,
{
    if i == m.len() {
        assert(m.subrange(0, i) =~= m);
    } else {
        lemma_members_prefix(m, all, fuel, i + 1);
        let p = m.subrange(0, i + 1);
        assert(p.subrange(0, p.len() - 1) =~= m.subrange(0, i));
    }
}

pub proof fn lemma_items_prefix(a: Seq<JsonView>, all: Seq<(Seq<char>, JsonView)>, fuel: nat, i: int)
    requires
        resolve_items(a, all, fuel) is Some,
        0 <= i <= a.len(),
    ensures
        resolve_items(a.subrange(0, i), all, fuel) is Some,
    decreases a.len() - i,
{
    if i == a.len() {
        assert(a.subrange(0, i) =~= a);
    } else {
        lemma_items_prefix(a, all, fuel, i + 1);
        let p = a.subrange(0, i + 1);
        assert(p.subrange(0, p.len() - 1) =~= a.subrange(0, i));
    }
}

pub proof fn lemma_props_prefix(
    keys: Seq<Seq<char>>,
    props: Seq<(Seq<char>, JsonView)>,
    all: Seq<(Seq<char>, JsonView)>,
    fuel: nat,
    i: int,
)
    requires
        resolve_props(keys, props, all, fuel) is Some,
        0 <= i <= keys.len(),
    ensures
        resolve_props(keys.subrange(0, i), props, all, fuel) is Some,
    decreases keys.len() - i,
{
    if i == keys.len() {
        assert(keys.subrange(0, i) =~= keys);
    } else {
        lemma_props_prefix(keys, props, all, fuel, i + 1);
        let p = keys.subrange(0, i + 1);
        assert(p.drop_last() =~= keys.subrange(0, i));
    }
}

fn is_object_type_exec(obj: &Vec<(String, Json)>) -> (b: bool)
    ensures
        b == is_object_type(members_view(obj@)),
{
    let ghost ov = members_view(obj@);
    proof {
        lemma_obj_find(ov, "type"@);
    }
    match find_member(obj, "type") {
        Some(i) => {
            assert(ov[i as int].1 == obj@[i as int].1@);
            match obj[i].1.as_str() {
                Some(t) => {
                    let b = str_eq(t, "object");
                    assert(b ==> obj_get(ov, "type"@) == Some(JsonView::String("object"@)));
                    b
                },
                None => false,
            }
        },
        None => false,
    }
}

fn required_keys_exec(obj: &Vec<(String, Json)>, props: &Vec<(String, Json)>) -> (keys: Vec<
    String,
>)
    ensures
        strings_view(keys@) == required_keys(members_view(obj@), members_view(props@)),
{
    let ghost ov = members_view(obj@);
    proof {
        lemma_obj_find(ov, "required"@);
    }
    let mut keys: Vec<String> = Vec::new();
    match find_member(obj, "required") {
        Some(i) => {
            assert(ov[i as int].1 == obj@[i as int].1@);
            match &obj[i].1 {
                Json::Array(req) => {
                    proof {
                        lemma_array_view(*req);
                    }
                    let ghost rv = items_view(req@);
                    let mut j: usize = 0;
                    while j < req.len()
                        invariant
                            rv == items_view(req@),
                            j <= req.len(),
                            strings_view(keys@) == string_items(rv.subrange(0, j as int)),
                        decreases req.len() - j,
                    {
                        let ghost before = keys@;
                        match req[j].as_str() {
                            Some(t) => {
                                keys.push(owned(t));
                            },
                            None => {},
                        }
                        let ghost p = rv.subrange(0, j + 1);
                        assert(p.drop_last() =~= rv.subrange(0, j as int));
                        assert(strings_view(keys@) =~= string_items(p));
                        j = j + 1;
                    }
                    assert(rv.subrange(0, req.len() as int) =~= rv);
                    return keys;
                },
                _ => {},
            }
        },
        None => {},
    }
    let ghost ks = member_keys(members_view(props@));
    let mut names: Vec<String> = Vec::new();
    let mut j: usize = 0;
    while j < props.len()
        invariant
            j <= props.len(),
            ks == member_keys(members_view(props@)),
            strings_view(names@) == ks.subrange(0, j as int),
        decreases props.len() - j,
    {
        let ghost before = strings_view(names@);
        names.push(props[j].0.clone());
        assert(strings_view(names@) =~= before.push(props@[j as int].0@));
        assert(strings_view(names@) =~= ks.subrange(0, j + 1));
        j = j + 1;
    }
    assert(ks.subrange(0, props.len() as int) =~= ks);
    assert(Seq::new(names@.len(), |i: int| names@[i]@) =~= ks);
    let order = sort_by_key(&names);
    let ghost o = sorted_order(ks, ks.len());
    let mut k: usize = 0;
    while k < order.len()
        invariant
            k <= order@.len(),
            order@.len() == names@.len(),
            ks == strings_view(names@),
            ks == member_keys(members_view(props@)),
            forall|x: int| 0 <= x < order@.len() ==> #[trigger] order@[x] < names@.len(),
            o == Seq::new(order@.len(), |x: int| order@[x] as int),
            o == sorted_order(ks, ks.len()),
            strings_view(keys@) == sorted_keys(members_view(props@)).take(k as int),
        decreases order.len() - k,
    {
        let ghost before = strings_view(keys@);
        let idx = order[k];
        assert(o[k as int] == idx as int);
        keys.push(names[idx].clone());
        assert(strings_view(keys@) =~= before.push(names@[idx as int]@));
        assert(sorted_keys(members_view(props@))[k as int] == names@[idx as int]@);
        assert(strings_view(keys@) =~= sorted_keys(members_view(props@)).take(k + 1));
        k = k + 1;
    }
    assert(sorted_keys(members_view(props@)).take(order.len() as int) =~= sorted_keys(members_view(props@)));
    keys
}

fn exposed_key_exec(k: &String) -> (r: String)
    ensures
        r@ == exposed_key(k@),
{
    if str_eq(k.as_str(), "properties") {
        owned("attributes")
    } else {
        k.clone()
    }
}

/// Resolves `schema` against the named schemas `all` (see `resolve`).
fn resolve_schema(schema: &Json, all: &Vec<(String, Json)>, Ghost(fuel): Ghost<nat>) -> (r: Json)
    requires
        resolve(schema@, members_view(all@), fuel) is Some,
    ensures
        r@ == resolve(schema@, members_view(all@), fuel).unwrap(),
    decreases fuel, schema,
{
    let ghost av = members_view(all@);
    match schema {
        Json::Object(obj) => {
            proof {
                lemma_object_view(*obj);
            }
            let ghost ov = members_view(obj@);
            match ref_target_exec(obj) {
                Some(name) => {
                    proof {
                        lemma_obj_find(av, name@);
                    }
                    match find_member(all, name.as_str()) {
                        Some(k) => {
                            assert(av[k as int].1 == all@[k as int].1@);
                            return resolve_schema(&all[k].1, all, Ghost((fuel - 1) as nat));
                        },
                        None => {},
                    }
                },
                None => {},
            }
            if is_object_type_exec(obj) {
                let mut out: Vec<(String, Json)> = Vec::new();
                out.push((owned("type"), Json::str("object")));
                out.push((owned("additionalProperties"), Json::Bool(false)));
                assert(members_view(out@) =~= object_base());
                proof {
                    lemma_obj_find(ov, "properties"@);
                }
                let pi = match find_member(obj, "properties") {
                    Some(pi) => pi,
                    None => {
                        proof {
                            lemma_object_view(out);
                        }
                        return Json::Object(out);
                    },
                };
                assert(ov[pi as int].1 == obj@[pi as int].1@);
                let props = match &obj[pi].1 {
                    Json::Object(props) => props,
                    _ => {
                        proof {
                            lemma_object_view(out);
                        }
                        return Json::Object(out);
                    },
                };
                proof {
                    lemma_object_view(*props);
                }
                let ghost pv = members_view(props@);
                let keys = required_keys_exec(obj, props);
                let ghost kv = strings_view(keys@);
                let mut req: Vec<Json> = Vec::new();
                let mut i: usize = 0;
                while i < keys.len()
                    invariant
                        kv == strings_view(keys@),
                        i <= keys.len(),
                        items_view(req@) == exposed_key_strings(kv).subrange(0, i as int),
                    decreases keys.len() - i,
                {
                    let e = exposed_key_exec(&keys[i]);
                    let ghost before = items_view(req@);
                    req.push(Json::String(e));
                    assert(items_view(req@) =~= before.push(JsonView::String(e@)));
                    assert(items_view(req@) =~= exposed_key_strings(kv).subrange(0, i + 1));
                    i = i + 1;
                }
                assert(exposed_key_strings(kv).subrange(0, keys.len() as int) =~= exposed_key_strings(kv));
                proof {
                    lemma_array_view(req);
                }
                insert_member(&mut out, owned("required"), Json::Array(req));
                proof {
                    lemma_props_prefix(kv, pv, av, fuel, 0);
                    assert(kv.subrange(0, 0) =~= Seq::<Seq<char>>::empty());
                }
                let mut rp: Vec<(String, Json)> = Vec::new();
                let mut i: usize = 0;
                while i < keys.len()
                    invariant
                        *schema == Json::Object(*obj),
                        obj@[pi as int].1 == Json::Object(*props),
                        pi < obj@.len(),
                        av == members_view(all@),
                        pv == members_view(props@),
                        kv == strings_view(keys@),
                        resolve_props(kv, pv, av, fuel) is Some,
                        i <= keys.len(),
                        resolve_props(kv.subrange(0, i as int), pv, av, fuel) == Some(
                            members_view(rp@),
                        ),
                    decreases keys.len() - i,
                {
                    proof {
                        lemma_props_prefix(kv, pv, av, fuel, i + 1);
                        lemma_obj_find(pv, kv[i as int]);
                    }
                    let ghost p = kv.subrange(0, i + 1);
                    assert(p.drop_last() =~= kv.subrange(0, i as int));
                    match find_member(props, keys[i].as_str()) {
                        Some(j) => {
                            assert(pv[j as int].1 == props@[j as int].1@);
                            proof {
                                let ghost sj = *schema;
                                let ghost so = *obj;
                                let ghost sp = *props;
                                assert(decreases_to!(sj => sj->Object_0));
                                assert(decreases_to!(so => so@));
                                assert(decreases_to!(so@ => so@[pi as int]));
                                assert(decreases_to!(so@[pi as int] => so@[pi as int].1));
                                let ghost ob = so@[pi as int].1;
                                assert(ob == Json::Object(sp));
                                assert(decreases_to!(ob => ob->Object_0));
                                assert(ob->Object_0 == sp);
                                assert(decreases_to!(sp => sp@));
                                assert(decreases_to!(sp@ => sp@[j as int]));
                                assert(decreases_to!(sp@[j as int] => sp@[j as int].1));
                                assert(decreases_to!(sj => sp@[j as int].1));
                            }
                            let v = resolve_schema(&props[j].1, all, Ghost(fuel));
                            let e = exposed_key_exec(&keys[i]);
                            insert_member(&mut rp, e, v);
                        },
                        None => {},
                    }
                    i = i + 1;
                }
                assert(kv.subrange(0, keys.len() as int) =~= kv);
                proof {
                    lemma_object_view(rp);
                }
                insert_member(&mut out, owned("properties"), Json::Object(rp));
                proof {
                    lemma_object_view(out);
                }
                Json::Object(out)
            } else {
                proof {
                    lemma_members_prefix(ov, av, fuel, 0);
                    assert(ov.subrange(0, 0) =~= Seq::<(Seq<char>, JsonView)>::empty());
                }
                let mut out: Vec<(String, Json)> = Vec::new();
                let mut i: usize = 0;
                while i < obj.len()
                    invariant
                        *schema == Json::Object(*obj),
                        av == members_view(all@),
                        ov == members_view(obj@),
                        resolve_members(ov, av, fuel) is Some,
                        i <= obj.len(),
                        resolve_members(ov.subrange(0, i as int), av, fuel) == Some(
                            members_view(out@),
                        ),
                    decreases obj.len() - i,
                {
                    proof {
                        lemma_members_prefix(ov, av, fuel, i + 1);
                    }
                    let ghost p = ov.subrange(0, i + 1);
                    assert(p.subrange(0, p.len() - 1) =~= ov.subrange(0, i as int));
                    assert(p[p.len() - 1] == ov[i as int]);
                    assert(ov[i as int].1 == obj@[i as int].1@);
                    if !str_eq(obj[i].0.as_str(), "example") {
                        proof {
                            let ghost sj = *schema;
                            let ghost so = *obj;
                            assert(decreases_to!(sj => sj->Object_0));
                            assert(decreases_to!(so => so@));
                            assert(decreases_to!(so@ => so@[i as int]));
                            assert(decreases_to!(so@[i as int] => so@[i as int].1));
                            assert(decreases_to!(sj => so@[i as int].1));
                        }
                        let v = resolve_schema(&obj[i].1, all, Ghost(fuel));
                        insert_member(&mut out, obj[i].0.clone(), v);
                    }
                    i = i + 1;
                }
                assert(ov.subrange(0, obj.len() as int) =~= ov);
                proof {
                    lemma_object_view(out);
                }
                Json::Object(out)
            }
        },
        Json::Array(a) => {
            proof {
                lemma_array_view(*a);
                lemma_items_prefix(items_view(a@), av, fuel, 0);
                assert(items_view(a@).subrange(0, 0) =~= Seq::<JsonView>::empty());
            }
            let ghost iv = items_view(a@);
            let mut out: Vec<Json> = Vec::new();
            let mut i: usize = 0;
            while i < a.len()
                invariant
                    *schema == Json::Array(*a),
                    av == members_view(all@),
                    iv == items_view(a@),
                    resolve_items(iv, av, fuel) is Some,
                    i <= a.len(),
                    resolve_items(iv.subrange(0, i as int), av, fuel) == Some(items_view(out@)),
                decreases a.len() - i,
            {
                proof {
                    lemma_items_prefix(iv, av, fuel, i + 1);
                    let ghost sj = *schema;
                    let ghost sa = *a;
                    assert(decreases_to!(sj => sj->Array_0));
                    assert(decreases_to!(sa => sa@));
                    assert(decreases_to!(sa@ => sa@[i as int]));
                    assert(decreases_to!(sj => sa@[i as int]));
                }
                let ghost p = iv.subrange(0, i + 1);
                assert(p.subrange(0, p.len() - 1) =~= iv.subrange(0, i as int));
                let v = resolve_schema(&a[i], all, Ghost(fuel));
                out.push(v);
                assert(items_view(out@) =~= resolve_items(p, av, fuel).unwrap());
                i = i + 1;
            }
            assert(iv.subrange(0, a.len() as int) =~= iv);
            proof {
                lemma_array_view(out);
            }
            Json::Array(out)
        },
        _ => schema.deep_clone(),
    }
}

/// The named schemas under `components.schemas` of an OpenAPI document.
pub open spec fn component_schemas(doc: JsonView) -> Seq<(Seq<char>, JsonView)> {
    match doc.get("components"@) {
        Some(c) => match c.get("schemas"@) {
            Some(JsonView::Object(m)) => m,
            _ => Seq::empty(),
        },
        None => Seq::empty(),
    }
}

/// Every schema name referenced by any of the named schemas.
pub open spec fn all_refs(schemas: Seq<(Seq<char>, JsonView)>) -> Seq<Seq<char>> {
    flatten_back(member_refs(schemas))
}

/// Among the first `n` named schemas, the index of the one with the least name
/// that no schema references (a name map is walked in key order, so this is
/// the first unreferenced one it meets).
pub open spec fn root_pick(schemas: Seq<(Seq<char>, JsonView)>, refs: Seq<Seq<char>>, n: int) -> Option<
    int,
>
    decreases n,
{
    if n <= 0 {
        None
    } else {
        let prev = root_pick(schemas, refs, n - 1);
        let i = n - 1;
        if refs.contains(schemas[i].0) {
            prev
        } else {
            match prev {
                None => Some(i),
                Some(b) => if str_lt(schemas[i].0, schemas[b].0) {
                    Some(i)
                } else {
                    Some(b)
                },
            }
        }
    }
}

/// The root is unreferenced, and no unreferenced schema has a smaller name;
/// without a root, every schema is referenced.
pub proof fn lemma_root_pick(schemas: Seq<(Seq<char>, JsonView)>, refs: Seq<Seq<char>>, n: int)
    requires
        0 <= n <= schemas.len(),
    ensures
        match root_pick(schemas, refs, n) {
            Some(b) => 0 <= b < n && !refs.contains(schemas[b].0) && forall|j: int|
                0 <= j < n && !refs.contains(#[trigger] schemas[j].0) ==> !str_lt(
                    schemas[j].0,
                    schemas[b].0,
                ),
            None => forall|j: int| 0 <= j < n ==> refs.contains(#[trigger] schemas[j].0),
        },
    decreases n,
{
    if n > 0 {
        lemma_root_pick(schemas, refs, n - 1);
        let i = n - 1;
        match root_pick(schemas, refs, n - 1) {
            Some(b) => {
                if !refs.contains(schemas[i].0) && str_lt(schemas[i].0, schemas[b].0) {
                    assert forall|j: int|
                        0 <= j < n && !refs.contains(#[trigger] schemas[j].0) implies !str_lt(
                        schemas[j].0,
                        schemas[i].0,
                    ) by {
                        if j < i && str_lt(schemas[j].0, schemas[i].0) {
                            lemma_str_lt_transitive(schemas[j].0, schemas[i].0, schemas[b].0);
                        }
                        if j == i {
                            crate::order::lemma_str_lt_irreflexive(schemas[i].0);
                        }
                    }
                }
            },
            None => {
                if !refs.contains(schemas[i].0) {
                    crate::order::lemma_str_lt_irreflexive(schemas[i].0);
                }
            },
        }
    }
}

/// The structured-output schema of an OpenAPI document, resolving with `fuel`:
/// the root schema (see `root_pick`) resolved; an empty object when there is no
/// schema or no root.
pub open spec fn structured_output_with(doc: JsonView, fuel: nat) -> Option<JsonView> {
    let schemas = component_schemas(doc);
    if schemas.len() == 0 {
        Some(JsonView::Object(Seq::empty()))
    } else {
        match root_pick(schemas, all_refs(schemas), schemas.len() as int) {
            Some(i) => resolve(schemas[i].1, schemas, fuel),
            None => Some(JsonView::Object(Seq::empty())),
        }
    }
}

/// The resolution of the document's root ends (its references are not cyclic).
pub open spec fn structured_output_defined(doc: JsonView) -> bool {
    exists|f: nat| structured_output_with(doc, f) is Some
}

pub open spec fn structured_output(doc: JsonView) -> JsonView {
    structured_output_with(doc, choose|f: nat| structured_output_with(doc, f) is Some).unwrap()
}

fn contains_string(v: &Vec<String>, k: &String) -> (b: bool)
    ensures
        b == strings_view(v@).contains(k@),
{
    let mut i: usize = 0;
    while i < v.len()
        invariant
            i <= v.len(),
            forall|j: int| 0 <= j < i ==> strings_view(v@)[j] != k@,
        decreases v.len() - i,
    {
        if v[i] == *k {
            assert(strings_view(v@)[i as int] == k@);
            return true;
        }
        i = i + 1;
    }
    false
}

/// Converts an OpenAPI document's component schemas into the strict JSON schema
/// that structured output takes: the root schema (the unreferenced one with the
/// least name), with every reference resolved, every object closed and every kept
/// property required; an empty object when the document has no schemas or no root.
pub fn openai_to_structured_output_schema(openapi_spec: &Json) -> (r: Json)
    requires
        structured_output_defined(openapi_spec@),
    ensures
        r@ == structured_output(openapi_spec@),
{
    let ghost fuel = choose|f: nat| structured_output_with(openapi_spec@, f) is Some;
    let empty: Vec<(String, Json)> = Vec::new();
    proof {
        lemma_object_view(empty);
        assert(members_view(empty@) =~= Seq::<(Seq<char>, JsonView)>::empty());
    }
    let schemas: &Vec<(String, Json)> = match openapi_spec.get("components") {
        Some(c) => match c.get("schemas") {
            Some(Json::Object(m)) => {
                proof {
                    lemma_object_view(*m);
                }
                m
            },
            _ => {
                return Json::Object(empty);
            },
        },
        None => {
            return Json::Object(empty);
        },
    };
    let ghost sv = members_view(schemas@);
    assert(sv == component_schemas(openapi_spec@));
    if schemas.len() == 0 {
        return Json::Object(empty);
    }
    let mut refs: Vec<String> = Vec::new();
    let ghost parts = member_refs(sv);
    let mut i: usize = 0;
    while i < schemas.len()
        invariant
            sv == members_view(schemas@),
            parts == member_refs(sv),
            i <= schemas.len(),
            strings_view(refs@) == flatten_back(parts.take(i as int)),
        decreases schemas.len() - i,
    {
        collect_schema_refs(&schemas[i].1, &mut refs);
        assert(parts.take(i + 1).drop_last() =~= parts.take(i as int));
        assert(parts[i as int] == refs_in(sv[i as int].1));
        assert(strings_view(refs@) =~= flatten_back(parts.take(i + 1)));
        i = i + 1;
    }
    assert(parts.take(schemas.len() as int) =~= parts);
    let ghost rv = strings_view(refs@);
    let mut best: Option<usize> = None;
    let mut k: usize = 0;
    while k < schemas.len()
        invariant
            sv == members_view(schemas@),
            rv == strings_view(refs@),
            k <= schemas.len(),
            match best {
                Some(b) => root_pick(sv, rv, k as int) == Some(b as int) && b < k,
                None => root_pick(sv, rv, k as int) is None,
            },
        decreases schemas.len() - k,
    {
        assert(sv[k as int].0 == schemas@[k as int].0@);
        if !contains_string(&refs, &schemas[k].0) {
            match best {
                None => {
                    best = Some(k);
                },
                Some(b) => {
                    assert(sv[b as int].0 == schemas@[b as int].0@);
                    if str_less(schemas[k].0.as_str(), schemas[b].0.as_str()) {
                        best = Some(k);
                    }
                },
            }
        }
        k = k + 1;
    }
    match best {
        Some(b) => {
            assert(sv[b as int].1 == schemas@[b as int].1@);
            resolve_schema(&schemas[b].1, schemas, Ghost(fuel))
        },
        None => Json::Object(empty),
    }
}

// ---------------------------------------------------------------------------
// The prompts of schema generation
// ---------------------------------------------------------------------------

pub const SCHEMA_SYSTEM_PROMPT: &'static str = "You are a graph schema generator assistant. Your task is to analyze data and generate a graph SCHEMA \u{2014} not the data itself.\n\nA graph schema defines the TYPES of entities and relationships, not specific instances.\n\nRules:\n- Nodes represent ENTITY TYPES (e.g., 'Person', 'Location', 'Company') \u{2014} not specific people or places\n- Edges represent RELATIONSHIP TYPES between node types (e.g., 'Friend Of', 'Born In') \u{2014} not specific relationships\n- Attributes define the PROPERTIES that instances of a node/edge type can have (e.g., 'Name', 'Eye Color', 'Birth Year') \u{2014} not the actual values\n- Colors must be a visually distinct hex color per node/edge type\n- If a property_type is Select, then metadata.options must be a non-empty list of possible values. Otherwise, metadata.options must be null.\n\nThink of it like defining a database schema, not inserting rows into it.";

pub const SCHEMA_USER_INTRO: &'static str = "Analyze the following data and generate a graph schema:\n\n";

pub const SCHEMA_USER_OUTRO: &'static str = "\n\nGenerate a complete graph schema with nodes, edges, and their attributes.";

pub const SCHEMA_CORRECTION_INTRO: &'static str = "Your previous response contained validation errors that must be fixed:\n\n";

pub const SCHEMA_CORRECTION_OUTRO: &'static str = "\n\nPlease return a corrected response that resolves all of these issues.";

/// The system prompt of schema generation.
pub fn build_system_prompt() -> (s: String)
    ensures
        s@ == SCHEMA_SYSTEM_PROMPT@,
{
    owned(SCHEMA_SYSTEM_PROMPT)
}

/// The user prompt of schema generation: the data between its instructions.
pub fn build_user_prompt(data: &str) -> (s: String)
    ensures
        s@ == SCHEMA_USER_INTRO@ + data@ + SCHEMA_USER_OUTRO@,
{
    let mut s = owned(SCHEMA_USER_INTRO);
    append_str(&mut s, data);
    append_str(&mut s, SCHEMA_USER_OUTRO);
    s
}

/// The prompt that asks the model to correct an invalid schema.
pub fn build_correction_prompt(errors: &str) -> (s: String)
    ensures
        s@ == SCHEMA_CORRECTION_INTRO@ + errors@ + SCHEMA_CORRECTION_OUTRO@,
{
    let mut s = owned(SCHEMA_CORRECTION_INTRO);
    append_str(&mut s, errors);
    append_str(&mut s, SCHEMA_CORRECTION_OUTRO);
    s
}

} // verus!
