use vstd::prelude::*;

verus! {

/// A JSON value, as this crate models the wire format.
///
/// A number is carried as its literal text, so that any numeric value read
/// from the wire can be held and written back without loss and without
/// floating-point arithmetic in the library. A number read from the wire
/// is always a literal serde_json accepts; a caller-constructed `Num`
/// whose text serde_json's number type rejects is serialized as null.
#[derive(Debug)]
pub enum Json {
    Null,
    Bool(bool),
    Num(String),
    Str(String),
    Arr(Vec<Json>),
    Obj(Vec<(String, Json)>),
}

/// The mathematical model of a [`Json`] value.
pub ghost enum JsonV {
    Null,
    Bool(bool),
    Num(Seq<char>),
    Str(Seq<char>),
    Arr(Seq<JsonV>),
    Obj(Seq<(Seq<char>, JsonV)>),
}

pub open spec fn json_view(j: Json) -> JsonV
    decreases j,
{
    match j {
        Json::Null => JsonV::Null,
        Json::Bool(b) => JsonV::Bool(b),
        Json::Num(s) => JsonV::Num(s@),
        Json::Str(s) => JsonV::Str(s@),
        Json::Arr(items) => JsonV::Arr(json_arr_view(items@)),
        Json::Obj(fields) => JsonV::Obj(json_obj_view(fields@)),
    }
}

pub open spec fn json_arr_view(s: Seq<Json>) -> Seq<JsonV>
    decreases s,
{
    if s.len() == 0 {
        Seq::empty()
    } else {
        json_arr_view(s.drop_last()).push(json_view(s.last()))
    }
}

pub open spec fn json_obj_view(s: Seq<(String, Json)>) -> Seq<(Seq<char>, JsonV)>
    decreases s,
{
    if s.len() == 0 {
        Seq::empty()
    } else {
        json_obj_view(s.drop_last()).push((s.last().0@, json_view(s.last().1)))
    }
}

impl View for Json {
    type V = JsonV;

    open spec fn view(&self) -> JsonV {
        json_view(*self)
    }
}

/// No two fields of an object share a key.
pub open spec fn obj_keys_distinct(fields: Seq<(Seq<char>, JsonV)>) -> bool {
    forall|i: int, j: int| 0 <= i < j < fields.len() ==> fields[i].0 != fields[j].0
}

/// A well-formed tree: every object in it has pairwise-distinct keys.
/// Parsed JSON always has this shape, since a JSON object is read into a
/// map.
pub open spec fn json_wf(j: JsonV) -> bool
    decreases j,
{
    match j {
        JsonV::Arr(items) => json_arr_wf(items),
        JsonV::Obj(fields) => obj_keys_distinct(fields) && json_obj_wf(fields),
        _ => true,
    }
}

pub open spec fn json_arr_wf(s: Seq<JsonV>) -> bool
    decreases s,
{
    if s.len() == 0 {
        true
    } else {
        json_arr_wf(s.drop_last()) && json_wf(s.last())
    }
}

pub open spec fn json_obj_wf(s: Seq<(Seq<char>, JsonV)>) -> bool
    decreases s,
{
    if s.len() == 0 {
        true
    } else {
        json_obj_wf(s.drop_last()) && json_wf(s.last().1)
    }
}

/// Each field's value of a well-formed object is itself well-formed.
pub broadcast proof fn lemma_json_obj_wf_index(s: Seq<(Seq<char>, JsonV)>)
    requires
        #[trigger] json_obj_wf(s),
    ensures
        forall|i: int| 0 <= i < s.len() ==> json_wf(#[trigger] s[i].1),
    decreases s,
{
    if s.len() > 0 {
        lemma_json_obj_wf_index(s.drop_last());
        assert forall|i: int| 0 <= i < s.len() implies json_wf(#[trigger] s[i].1) by {
            if i < s.len() - 1 {
                assert(s.drop_last()[i] == s[i]);
                assert(json_wf(s.drop_last()[i].1));
            } else {
                assert(json_wf(s.last().1));
            }
        }
    }
}

/// Each element of a well-formed array is itself well-formed.
pub broadcast proof fn lemma_json_arr_wf_index(s: Seq<JsonV>)
    requires
        #[trigger] json_arr_wf(s),
    ensures
        forall|i: int| 0 <= i < s.len() ==> json_wf(#[trigger] s[i]),
    decreases s,
{
    if s.len() > 0 {
        lemma_json_arr_wf_index(s.drop_last());
        assert forall|i: int| 0 <= i < s.len() implies json_wf(#[trigger] s[i]) by {
            if i < s.len() - 1 {
                assert(s.drop_last()[i] == s[i]);
                assert(json_wf(s.drop_last()[i]));
            } else {
                assert(json_wf(s.last()));
            }
        }
    }
}

/// The kind (JSON type) of a value.
pub open spec fn kind_of(j: JsonV) -> crate::error::JsonKind {
    match j {
        JsonV::Null => crate::error::JsonKind::NullKind,
        JsonV::Bool(_) => crate::error::JsonKind::BoolKind,
        JsonV::Num(_) => crate::error::JsonKind::NumKind,
        JsonV::Str(_) => crate::error::JsonKind::StrKind,
        JsonV::Arr(_) => crate::error::JsonKind::ArrKind,
        JsonV::Obj(_) => crate::error::JsonKind::ObjKind,
    }
}

impl Json {
    /// The kind (JSON type) of this value.
    pub fn kind(&self) -> (r: crate::error::JsonKind)
        ensures
            r == kind_of(self@),
    {
        match self {
            Json::Null => crate::error::JsonKind::NullKind,
            Json::Bool(_) => crate::error::JsonKind::BoolKind,
            Json::Num(_) => crate::error::JsonKind::NumKind,
            Json::Str(_) => crate::error::JsonKind::StrKind,
            Json::Arr(_) => crate::error::JsonKind::ArrKind,
            Json::Obj(_) => crate::error::JsonKind::ObjKind,
        }
    }

    /// An equal copy of this value.
    pub fn deep_clone(&self) -> (r: Json)
        ensures
            r@ == self@,
        decreases *self,
    {
        match self {
            Json::Null => Json::Null,
            Json::Bool(b) => Json::Bool(*b),
            Json::Num(s) => Json::Num(s.clone()),
            Json::Str(s) => Json::Str(s.clone()),
            Json::Arr(items) => {
                let mut out: Vec<Json> = Vec::new();
                let mut i: usize = 0;
                while i < items.len()
                    invariant
                        *self == Json::Arr(*items),
                        i <= items@.len(),
                        out@.len() == i,
                        forall|k: int| 0 <= k < i ==> json_view(out@[k]) == json_view(
                            items@[k],
                        ),
                    decreases items@.len() - i,
                {
                    proof {
                        assert(*self == Json::Arr(*items));
                        assert(decreases_to!(*self => (*self)->Arr_0));
                        assert(decreases_to!(*items => items@));
                        assert(decreases_to!(items@ => items@[i as int]));
                    }
                    let c = items[i].deep_clone();
                    out.push(c);
                    i = i + 1;
                }
                proof {
                    lemma_json_arr_view(out@);
                    lemma_json_arr_view(items@);
                    assert(json_arr_view(out@) =~= json_arr_view(items@));
                }
                Json::Arr(out)
            },
            Json::Obj(fields) => {
                let mut out: Vec<(String, Json)> = Vec::new();
                let mut i: usize = 0;
                while i < fields.len()
                    invariant
                        *self == Json::Obj(*fields),
                        i <= fields@.len(),
                        out@.len() == i,
                        forall|k: int|
                            0 <= k < i ==> out@[k].0@ == fields@[k].0@ && json_view(
                                out@[k].1,
                            ) == json_view(fields@[k].1),
                    decreases fields@.len() - i,
                {
                    proof {
                        assert(*self == Json::Obj(*fields));
                        assert(decreases_to!(*self => (*self)->Obj_0));
                        assert(decreases_to!(*fields => fields@));
                        assert(decreases_to!(fields@ => fields@[i as int]));
                        assert(decreases_to!(fields@[i as int] => fields@[i as int].1));
                    }
                    let name = fields[i].0.clone();
                    let c = fields[i].1.deep_clone();
                    out.push((name, c));
                    i = i + 1;
                }
                proof {
                    lemma_json_obj_view(out@);
                    lemma_json_obj_view(fields@);
                    assert(json_obj_view(out@) =~= json_obj_view(fields@));
                }
                Json::Obj(out)
            },
        }
    }
}

pub broadcast proof fn lemma_json_arr_view(s: Seq<Json>)
    ensures
        (#[trigger] json_arr_view(s)).len() == s.len(),
        forall|i: int| 0 <= i < s.len() ==> json_arr_view(s)[i] == json_view(s[i]),
    decreases s,
{
    if s.len() > 0 {
        lemma_json_arr_view(s.drop_last());
    }
}

pub broadcast proof fn lemma_json_obj_view(s: Seq<(String, Json)>)
    ensures
        (#[trigger] json_obj_view(s)).len() == s.len(),
        forall|i: int|
            0 <= i < s.len() ==> json_obj_view(s)[i] == (s[i].0@, json_view(s[i].1)),
    decreases s,
{
    if s.len() > 0 {
        lemma_json_obj_view(s.drop_last());
    }
}

} // verus!
