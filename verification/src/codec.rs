use vstd::prelude::*;

use crate::error::DecodeError;
use crate::error::JsonKind;
use crate::json::json_arr_view;
use crate::json::json_obj_view;
use crate::json::json_view;
use crate::json::kind_of;
use crate::json::obj_keys_distinct;
use crate::json::lemma_json_arr_view;
use crate::json::lemma_json_obj_view;
use crate::json::Json;
use crate::json::JsonV;
use crate::message::key_of_wire;
use crate::message::lemma_key_wire_round_trip;
use crate::message::strs_view;
use crate::message::wire_of;
use crate::message::AclAccountsMessageAccountsValueKey as Key;
use crate::message::AclAccountsMessageAccountsValueValue;
use crate::message::MessageV;
use crate::message::ValueV;

verus! {

// ---------------------------------------------------------------------
// What serialization produces, as a function on the models.
// ---------------------------------------------------------------------

pub open spec fn strs_to_jsonv(ss: Seq<Seq<char>>) -> Seq<JsonV> {
    ss.map_values(|s: Seq<char>| JsonV::Str(s))
}

/// An inner value is written in its native shape, with no tag.
pub open spec fn value_to_jsonv(v: ValueV) -> JsonV {
    match v {
        ValueV::Array(ss) => JsonV::Arr(strs_to_jsonv(ss)),
        ValueV::String(s) => JsonV::Str(s),
    }
}

pub open spec fn entries_to_jsonv(es: Seq<(Key, ValueV)>) -> Seq<(Seq<char>, JsonV)> {
    es.map_values(|kv: (Key, ValueV)| (wire_of(kv.0), value_to_jsonv(kv.1)))
}

pub open spec fn accounts_to_jsonv(s: Seq<(Seq<char>, Seq<(Key, ValueV)>)>) -> Seq<
    (Seq<char>, JsonV),
> {
    s.map_values(
        |nv: (Seq<char>, Seq<(Key, ValueV)>)| (nv.0, JsonV::Obj(entries_to_jsonv(nv.1))),
    )
}

/// The serialized shape of a message: `accounts` always, `metadata` only
/// when its bag is non-empty, and in that order.
pub open spec fn message_to_jsonv(m: MessageV) -> JsonV {
    if m.metadata.len() == 0 {
        JsonV::Obj(seq![("accounts"@, JsonV::Obj(accounts_to_jsonv(m.accounts)))])
    } else {
        JsonV::Obj(
            seq![
                ("accounts"@, JsonV::Obj(accounts_to_jsonv(m.accounts))),
                ("metadata"@, JsonV::Obj(m.metadata)),
            ],
        )
    }
}

// ---------------------------------------------------------------------
// What deserialization accepts and returns, as a function on the models.
// ---------------------------------------------------------------------

/// The value under `key`, at its first occurrence.
pub open spec fn obj_get(fields: Seq<(Seq<char>, JsonV)>, key: Seq<char>) -> Option<JsonV>
    decreases fields.len(),
{
    if fields.len() == 0 {
        None
    } else if fields.first().0 == key {
        Some(fields.first().1)
    } else {
        obj_get(fields.drop_first(), key)
    }
}

/// The first union alternative: an array whose elements are all strings.
pub open spec fn strings_from_jsonv(items: Seq<JsonV>) -> Result<Seq<Seq<char>>, DecodeError>
    decreases items.len(),
{
    if items.len() == 0 {
        Ok(Seq::empty())
    } else {
        match strings_from_jsonv(items.drop_last()) {
            Err(e) => Err(e),
            Ok(ss) => match items.last() {
                JsonV::Str(s) => Ok(ss.push(s)),
                _ => Err(DecodeError::NoMatchingVariant(JsonKind::ArrKind)),
            },
        }
    }
}

/// Untagged union resolution: the alternatives are tried in declared
/// order (array of strings, then bare string); a value matching neither
/// fails with the shape that was observed.
pub open spec fn value_from_jsonv(j: JsonV) -> Result<ValueV, DecodeError> {
    match j {
        JsonV::Arr(items) => match strings_from_jsonv(items) {
            Ok(ss) => Ok(ValueV::Array(ss)),
            Err(e) => Err(e),
        },
        JsonV::Str(s) => Ok(ValueV::String(s)),
        _ => Err(DecodeError::NoMatchingVariant(kind_of(j))),
    }
}

/// One account's object: each key must belong to the closed enum, each
/// value must resolve as a union; the first failure, in field order, wins.
pub open spec fn entries_from_jsonv(fields: Seq<(Seq<char>, JsonV)>) -> Result<
    Seq<(Key, ValueV)>,
    DecodeError,
>
    decreases fields.len(),
{
    if fields.len() == 0 {
        Ok(Seq::empty())
    } else {
        match entries_from_jsonv(fields.drop_last()) {
            Err(e) => Err(e),
            Ok(es) => match key_of_wire(fields.last().0) {
                None => Err(DecodeError::InvalidEnumValue),
                Some(k) => match value_from_jsonv(fields.last().1) {
                    Err(e) => Err(e),
                    Ok(v) => Ok(es.push((k, v))),
                },
            },
        }
    }
}

/// The `accounts` object: arbitrary account names, each value an object
/// of entries.
pub open spec fn accounts_from_jsonv(fields: Seq<(Seq<char>, JsonV)>) -> Result<
    Seq<(Seq<char>, Seq<(Key, ValueV)>)>,
    DecodeError,
>
    decreases fields.len(),
{
    if fields.len() == 0 {
        Ok(Seq::empty())
    } else {
        match accounts_from_jsonv(fields.drop_last()) {
            Err(e) => Err(e),
            Ok(accs) => match fields.last().1 {
                JsonV::Obj(inner) => match entries_from_jsonv(inner) {
                    Err(e) => Err(e),
                    Ok(es) => Ok(accs.push((fields.last().0, es))),
                },
                _ => Err(DecodeError::TypeMismatch),
            },
        }
    }
}

/// The whole message: a JSON object whose required `accounts` field is an
/// object of objects; `metadata`, if present, must be an object and is
/// captured verbatim, defaulting to the empty bag. Unknown top-level
/// fields are ignored.
pub open spec fn message_from_jsonv(j: JsonV) -> Result<MessageV, DecodeError> {
    match j {
        JsonV::Obj(fields) => match obj_get(fields, "accounts"@) {
            None => Err(DecodeError::MissingRequiredField),
            Some(av) => match av {
                JsonV::Obj(af) => match accounts_from_jsonv(af) {
                    Err(e) => Err(e),
                    Ok(accs) => match obj_get(fields, "metadata"@) {
                        None => Ok(MessageV { accounts: accs, metadata: Seq::empty() }),
                        Some(mv) => match mv {
                            JsonV::Obj(mf) => Ok(MessageV { accounts: accs, metadata: mf }),
                            _ => Err(DecodeError::TypeMismatch),
                        },
                    },
                },
                _ => Err(DecodeError::TypeMismatch),
            },
        },
        _ => Err(DecodeError::TypeMismatch),
    }
}

// ---------------------------------------------------------------------
// Round trip: deserializing a serialized message gives it back.
// ---------------------------------------------------------------------

proof fn lemma_strings_roundtrip(ss: Seq<Seq<char>>)
    ensures
        strings_from_jsonv(strs_to_jsonv(ss)) == Ok::<_, DecodeError>(ss),
    decreases ss.len(),
{
    if ss.len() > 0 {
        lemma_strings_roundtrip(ss.drop_last());
        assert(strs_to_jsonv(ss).drop_last() =~= strs_to_jsonv(ss.drop_last()));
        assert(ss.drop_last().push(ss.last()) =~= ss);
    } else {
        assert(strs_to_jsonv(ss) =~= Seq::<JsonV>::empty());
        assert(ss =~= Seq::<Seq<char>>::empty());
    }
}

proof fn lemma_value_roundtrip(v: ValueV)
    ensures
        value_from_jsonv(value_to_jsonv(v)) == Ok::<_, DecodeError>(v),
{
    match v {
        ValueV::Array(ss) => lemma_strings_roundtrip(ss),
        ValueV::String(_) => {},
    }
}

proof fn lemma_entries_roundtrip(es: Seq<(Key, ValueV)>)
    ensures
        entries_from_jsonv(entries_to_jsonv(es)) == Ok::<_, DecodeError>(es),
    decreases es.len(),
{
    lemma_key_wire_round_trip();
    if es.len() > 0 {
        lemma_entries_roundtrip(es.drop_last());
        lemma_value_roundtrip(es.last().1);
        assert(entries_to_jsonv(es).drop_last() =~= entries_to_jsonv(es.drop_last()));
        assert(es.drop_last().push(es.last()) =~= es);
    } else {
        assert(entries_to_jsonv(es) =~= Seq::<(Seq<char>, JsonV)>::empty());
        assert(es =~= Seq::<(Key, ValueV)>::empty());
    }
}

proof fn lemma_accounts_roundtrip(accs: Seq<(Seq<char>, Seq<(Key, ValueV)>)>)
    ensures
        accounts_from_jsonv(accounts_to_jsonv(accs)) == Ok::<_, DecodeError>(accs),
    decreases accs.len(),
{
    if accs.len() > 0 {
        lemma_accounts_roundtrip(accs.drop_last());
        lemma_entries_roundtrip(accs.last().1);
        assert(accounts_to_jsonv(accs).drop_last() =~= accounts_to_jsonv(accs.drop_last()));
        assert(accs.drop_last().push(accs.last()) =~= accs);
    } else {
        assert(accounts_to_jsonv(accs) =~= Seq::<(Seq<char>, JsonV)>::empty());
        assert(accs =~= Seq::<(Seq<char>, Seq<(Key, ValueV)>)>::empty());
    }
}

/// Round trip: for every message, deserializing its serialized form
/// gives back the message itself.
pub proof fn lemma_round_trip(m: MessageV)
    ensures
        message_from_jsonv(message_to_jsonv(m)) == Ok::<_, DecodeError>(m),
{
    reveal_strlit("accounts");
    reveal_strlit("metadata");
    assert("accounts"@.len() == 8 && "metadata"@.len() == 8);
    assert("accounts"@[0] == 'a' && "metadata"@[0] == 'm');
    lemma_accounts_roundtrip(m.accounts);
    let av = JsonV::Obj(accounts_to_jsonv(m.accounts));
    if m.metadata.len() == 0 {
        let fields = seq![("accounts"@, av)];
        assert(obj_get(fields, "accounts"@) == Some(av));
        assert(obj_get(fields.drop_first(), "metadata"@) is None);
        assert(obj_get(fields, "metadata"@) is None);
        assert(m.metadata =~= Seq::<(Seq<char>, JsonV)>::empty());
    } else {
        let mv = JsonV::Obj(m.metadata);
        let fields = seq![("accounts"@, av), ("metadata"@, mv)];
        assert(obj_get(fields, "accounts"@) == Some(av));
        assert(fields.drop_first() =~= seq![("metadata"@, mv)]);
        assert(obj_get(seq![("metadata"@, mv)], "metadata"@) == Some(mv));
        assert(obj_get(fields, "metadata"@) == obj_get(fields.drop_first(), "metadata"@));
    }
}

// ---------------------------------------------------------------------
// Shape failures, stated on their own.
// ---------------------------------------------------------------------

/// An inner value that is a JSON number or object matches neither union
/// alternative and fails with the observed shape.
pub proof fn lemma_union_mismatch(j: JsonV)
    requires
        j is Num || j is Obj,
    ensures
        value_from_jsonv(j) == Err::<ValueV, _>(DecodeError::NoMatchingVariant(kind_of(j))),
{
}

/// An account object whose first failure, in field order, is a key
/// outside the closed enum decodes to `InvalidEnumValue`.
pub proof fn lemma_unknown_enum_key(fields: Seq<(Seq<char>, JsonV)>, i: int)
    requires
        0 <= i < fields.len(),
        key_of_wire(fields[i].0) is None,
        forall|k: int|
            0 <= k < i ==> key_of_wire(#[trigger] fields[k].0) is Some && value_from_jsonv(
                fields[k].1,
            ) is Ok,
    ensures
        entries_from_jsonv(fields) == Err::<Seq<(Key, ValueV)>, _>(
            DecodeError::InvalidEnumValue,
        ),
    decreases fields.len(),
{
    if i + 1 < fields.len() {
        lemma_unknown_enum_key(fields.drop_last(), i);
    } else {
        lemma_entries_prefix_ok(fields.drop_last());
    }
}

proof fn lemma_entries_prefix_ok(fields: Seq<(Seq<char>, JsonV)>)
    requires
        forall|k: int|
            0 <= k < fields.len() ==> key_of_wire(#[trigger] fields[k].0) is Some
                && value_from_jsonv(fields[k].1) is Ok,
    ensures
        entries_from_jsonv(fields) is Ok,
    decreases fields.len(),
{
    if fields.len() > 0 {
        lemma_entries_prefix_ok(fields.drop_last());
    }
}

// ---------------------------------------------------------------------
// Decoding a well-formed tree gives a well-formed message.
// ---------------------------------------------------------------------

proof fn lemma_obj_get_index(s: Seq<(Seq<char>, JsonV)>, key: Seq<char>)
    requires
        obj_get(s, key) is Some,
    ensures
        exists|i: int|
            0 <= i < s.len() && #[trigger] s[i].0 == key && s[i].1 == obj_get(s, key)->0,
    decreases s.len(),
{
    if s.len() > 0 {
        if s.first().0 == key {
            assert(s[0].0 == key && s[0].1 == obj_get(s, key)->0);
        } else {
            lemma_obj_get_index(s.drop_first(), key);
            let j = choose|j: int|
                0 <= j < s.drop_first().len() && #[trigger] s.drop_first()[j].0 == key
                    && s.drop_first()[j].1 == obj_get(s.drop_first(), key)->0;
            assert(s[j + 1].0 == key && s[j + 1].1 == obj_get(s, key)->0);
        }
    }
}

proof fn lemma_entries_ok_keys(fields: Seq<(Seq<char>, JsonV)>)
    requires
        entries_from_jsonv(fields) is Ok,
    ensures
        entries_from_jsonv(fields)->Ok_0.len() == fields.len(),
        forall|i: int|
            0 <= i < fields.len() ==> key_of_wire(#[trigger] fields[i].0) == Some(
                entries_from_jsonv(fields)->Ok_0[i].0,
            ),
    decreases fields.len(),
{
    if fields.len() > 0 {
        lemma_entries_ok_keys(fields.drop_last());
        let es = entries_from_jsonv(fields)->Ok_0;
        let prev = entries_from_jsonv(fields.drop_last())->Ok_0;
        assert forall|i: int|
            0 <= i < fields.len() implies key_of_wire(#[trigger] fields[i].0) == Some(
            es[i].0,
        ) by {
            if i < fields.len() - 1 {
                assert(fields.drop_last()[i] == fields[i]);
                assert(key_of_wire(fields.drop_last()[i].0) == Some(prev[i].0));
            }
        }
    }
}

/// Decoding a well-formed account object gives pairwise-distinct enum
/// keys: parsing wire strings is injective where it succeeds.
proof fn lemma_entries_ok_distinct(fields: Seq<(Seq<char>, JsonV)>)
    requires
        obj_keys_distinct(fields),
        entries_from_jsonv(fields) is Ok,
    ensures
        crate::message::distinct_entry_keys(entries_from_jsonv(fields)->Ok_0),
{
    lemma_entries_ok_keys(fields);
    let es = entries_from_jsonv(fields)->Ok_0;
    assert forall|i: int, j: int| 0 <= i < j < es.len() implies es[i].0 != es[j].0 by {
        if es[i].0 == es[j].0 {
            assert(key_of_wire(fields[i].0) == key_of_wire(fields[j].0));
            assert(fields[i].0 == fields[j].0);
        }
    }
}

proof fn lemma_accounts_ok_shape(fields: Seq<(Seq<char>, JsonV)>)
    requires
        accounts_from_jsonv(fields) is Ok,
    ensures
        accounts_from_jsonv(fields)->Ok_0.len() == fields.len(),
        forall|i: int| #![all_triggers]
            0 <= i < fields.len() ==> accounts_from_jsonv(fields)->Ok_0[i].0 == fields[i].0
                && fields[i].1 is Obj && entries_from_jsonv(fields[i].1->Obj_0) == Ok::<
                _,
                DecodeError,
            >(accounts_from_jsonv(fields)->Ok_0[i].1),
    decreases fields.len(),
{
    if fields.len() > 0 {
        lemma_accounts_ok_shape(fields.drop_last());
        let accs = accounts_from_jsonv(fields)->Ok_0;
        let prev = accounts_from_jsonv(fields.drop_last())->Ok_0;
        assert forall|i: int| #![all_triggers]
            0 <= i < fields.len() implies accs[i].0 == fields[i].0 && fields[i].1 is Obj
            && entries_from_jsonv(fields[i].1->Obj_0) == Ok::<_, DecodeError>(accs[i].1) by {
            if i < fields.len() - 1 {
                assert(fields.drop_last()[i] == fields[i]);
                assert(prev[i] == accs[i]);
            }
        }
    }
}

/// Decoding a well-formed tree gives a well-formed message: account
/// names, the keys within each account, and metadata keys are each
/// pairwise distinct.
pub proof fn lemma_decode_wf(j: JsonV, m: MessageV)
    requires
        crate::json::json_wf(j),
        message_from_jsonv(j) == Ok::<MessageV, DecodeError>(m),
    ensures
        m.wf(),
{
    let fields = j->Obj_0;
    let av = obj_get(fields, "accounts"@)->0;
    lemma_obj_get_index(fields, "accounts"@);
    crate::json::lemma_json_obj_wf_index(fields);
    assert(crate::json::json_wf(av));
    let af = av->Obj_0;
    lemma_accounts_ok_shape(af);
    crate::json::lemma_json_obj_wf_index(af);
    assert(crate::message::distinct_string_keys(m.accounts));
    assert forall|i: int| 0 <= i < m.accounts.len() implies crate::message::distinct_entry_keys(
        #[trigger] m.accounts[i].1,
    ) by {
        lemma_entries_ok_distinct(af[i].1->Obj_0);
    }
    if obj_get(fields, "metadata"@) is Some {
        let mv = obj_get(fields, "metadata"@)->0;
        lemma_obj_get_index(fields, "metadata"@);
        assert(crate::json::json_wf(mv));
    }
}

// ---------------------------------------------------------------------
// A failed prefix decides the whole sequence.
// ---------------------------------------------------------------------

proof fn lemma_strings_err_persists(items: Seq<JsonV>, i: int)
    requires
        0 <= i <= items.len(),
        strings_from_jsonv(items.subrange(0, i)) is Err,
    ensures
        strings_from_jsonv(items) == strings_from_jsonv(items.subrange(0, i)),
    decreases items.len(),
{
    if i == items.len() {
        assert(items.subrange(0, i) =~= items);
    } else {
        assert(items.drop_last().subrange(0, i) =~= items.subrange(0, i));
        lemma_strings_err_persists(items.drop_last(), i);
    }
}

proof fn lemma_entries_err_persists(fields: Seq<(Seq<char>, JsonV)>, i: int)
    requires
        0 <= i <= fields.len(),
        entries_from_jsonv(fields.subrange(0, i)) is Err,
    ensures
        entries_from_jsonv(fields) == entries_from_jsonv(fields.subrange(0, i)),
    decreases fields.len(),
{
    if i == fields.len() {
        assert(fields.subrange(0, i) =~= fields);
    } else {
        assert(fields.drop_last().subrange(0, i) =~= fields.subrange(0, i));
        lemma_entries_err_persists(fields.drop_last(), i);
    }
}

proof fn lemma_accounts_err_persists(fields: Seq<(Seq<char>, JsonV)>, i: int)
    requires
        0 <= i <= fields.len(),
        accounts_from_jsonv(fields.subrange(0, i)) is Err,
    ensures
        accounts_from_jsonv(fields) == accounts_from_jsonv(fields.subrange(0, i)),
    decreases fields.len(),
{
    if i == fields.len() {
        assert(fields.subrange(0, i) =~= fields);
    } else {
        assert(fields.drop_last().subrange(0, i) =~= fields.subrange(0, i));
        lemma_accounts_err_persists(fields.drop_last(), i);
    }
}

// ---------------------------------------------------------------------
// The union type, executed.
// ---------------------------------------------------------------------

impl AclAccountsMessageAccountsValueValue {
    /// Resolves an arbitrary JSON value against the union's alternatives,
    /// in declared order.
    pub fn from_json(j: &Json) -> (r: Result<
        AclAccountsMessageAccountsValueValue,
        DecodeError,
    >)
        ensures
            r matches Ok(v) ==> value_from_jsonv(j@) == Ok::<ValueV, DecodeError>(v@),
            r matches Err(e) ==> value_from_jsonv(j@) == Err::<ValueV, DecodeError>(e),
    {
        match j {
            Json::Arr(items) => {
                let ghost iv = json_arr_view(items@);
                proof {
                    lemma_json_arr_view(items@);
                }
                let mut out: Vec<String> = Vec::new();
                let mut i: usize = 0;
                proof {
                    assert(iv.subrange(0, 0) =~= Seq::<JsonV>::empty());
                    assert(strs_view(out@) =~= Seq::<Seq<char>>::empty());
                }
                while i < items.len()
                    invariant
                        *j == Json::Arr(*items),
                        iv == json_arr_view(items@),
                        iv.len() == items@.len(),
                        forall|k: int| 0 <= k < items@.len() ==> iv[k] == json_view(
                            items@[k],
                        ),
                        i <= items@.len(),
                        out@.len() == i,
                        strings_from_jsonv(iv.subrange(0, i as int)) == Ok::<
                            _,
                            DecodeError,
                        >(strs_view(out@)),
                    decreases items@.len() - i,
                {
                    let ghost prev = iv.subrange(0, i as int);
                    proof {
                        assert(iv.subrange(0, i + 1).drop_last() =~= prev);
                        assert(iv.subrange(0, i + 1).last() == iv[i as int]);
                    }
                    match &items[i] {
                        Json::Str(s) => {
                            let ghost out0 = out@;
                            out.push(s.clone());
                            proof {
                                assert(out@ == out0.push(*s));
                                assert(strs_view(out@) =~= strs_view(out0).push(s@));
                                assert(strings_from_jsonv(iv.subrange(0, i + 1))
                                    == Ok::<_, DecodeError>(strs_view(out@)));
                            }
                        },
                        _ => {
                            proof {
                                assert(strings_from_jsonv(iv.subrange(0, i + 1))
                                    == Err::<Seq<Seq<char>>, _>(
                                    DecodeError::NoMatchingVariant(JsonKind::ArrKind),
                                ));
                                lemma_strings_err_persists(iv, i + 1);
                            }
                            return Err(DecodeError::NoMatchingVariant(JsonKind::ArrKind));
                        },
                    }
                    i = i + 1;
                }
                proof {
                    assert(iv.subrange(0, items@.len() as int) =~= iv);
                }
                Ok(AclAccountsMessageAccountsValueValue::Array(out))
            },
            Json::Str(s) => Ok(AclAccountsMessageAccountsValueValue::String(s.clone())),
            _ => Err(DecodeError::NoMatchingVariant(j.kind())),
        }
    }

    /// Writes this value in its native shape, with no tag.
    pub fn to_json(&self) -> (r: Json)
        ensures
            r@ == value_to_jsonv(self@),
    {
        match self {
            AclAccountsMessageAccountsValueValue::Array(items) => {
                let mut out: Vec<Json> = Vec::new();
                let mut i: usize = 0;
                while i < items.len()
                    invariant
                        *self == AclAccountsMessageAccountsValueValue::Array(*items),
                        i <= items@.len(),
                        out@.len() == i,
                        forall|k: int| 0 <= k < i ==> json_view(#[trigger] out@[k])
                            == JsonV::Str(items@[k]@),
                    decreases items@.len() - i,
                {
                    out.push(Json::Str(items[i].clone()));
                    i = i + 1;
                }
                proof {
                    lemma_json_arr_view(out@);
                    assert(json_arr_view(out@) =~= strs_to_jsonv(strs_view(items@)));
                }
                Json::Arr(out)
            },
            AclAccountsMessageAccountsValueValue::String(s) => Json::Str(s.clone()),
        }
    }
}

// ---------------------------------------------------------------------
// Objects, executed.
// ---------------------------------------------------------------------

/// The value under `key` in an object's fields, at its first occurrence.
fn obj_get_ref<'a>(fields: &'a Vec<(String, Json)>, key: &str) -> (r: Option<&'a Json>)
    ensures
        r matches Some(v) ==> obj_get(json_obj_view(fields@), key@) == Some(v@),
        r is None <==> obj_get(json_obj_view(fields@), key@) is None,
{
    let ghost ov = json_obj_view(fields@);
    proof {
        lemma_json_obj_view(fields@);
    }
    let k = key.to_owned();
    let mut i: usize = 0;
    proof {
        assert(ov.subrange(0, ov.len() as int) =~= ov);
    }
    while i < fields.len()
        invariant
            ov == json_obj_view(fields@),
            ov.len() == fields@.len(),
            forall|m: int| 0 <= m < fields@.len() ==> ov[m] == (
                fields@[m].0@,
                json_view(fields@[m].1),
            ),
            k@ == key@,
            i <= fields@.len(),
            obj_get(ov, key@) == obj_get(ov.subrange(i as int, ov.len() as int), key@),
        decreases fields@.len() - i,
    {
        let ghost rest = ov.subrange(i as int, ov.len() as int);
        proof {
            assert(rest.first() == ov[i as int]);
            assert(rest.drop_first() =~= ov.subrange(i + 1, ov.len() as int));
        }
        if fields[i].0 == k {
            return Some(&fields[i].1);
        }
        i = i + 1;
    }
    proof {
        assert(ov.subrange(ov.len() as int, ov.len() as int) =~= Seq::<
            (Seq<char>, JsonV),
        >::empty());
    }
    None
}

/// An equal copy of an object's fields.
fn clone_obj_fields(src: &Vec<(String, Json)>) -> (r: Vec<(String, Json)>)
    ensures
        json_obj_view(r@) == json_obj_view(src@),
{
    let mut out: Vec<(String, Json)> = Vec::new();
    let mut i: usize = 0;
    while i < src.len()
        invariant
            i <= src@.len(),
            out@.len() == i,
            forall|k: int|
                0 <= k < i ==> out@[k].0@ == src@[k].0@ && json_view(#[trigger] out@[k].1)
                    == json_view(src@[k].1),
        decreases src@.len() - i,
    {
        let name = src[i].0.clone();
        let val = src[i].1.deep_clone();
        out.push((name, val));
        i = i + 1;
    }
    proof {
        lemma_json_obj_view(out@);
        lemma_json_obj_view(src@);
        assert(json_obj_view(out@) =~= json_obj_view(src@));
    }
    out
}

/// One account's object: closed enum keys, union values, first failure
/// in field order wins.
fn entries_from_json(fields: &Vec<(String, Json)>) -> (r: Result<
    crate::message::AccountEntries,
    DecodeError,
>)
    ensures
        r matches Ok(v) ==> entries_from_jsonv(json_obj_view(fields@)) == Ok::<
            _,
            DecodeError,
        >(crate::message::entries_seq_view(v@)),
        r matches Err(e) ==> entries_from_jsonv(json_obj_view(fields@)) == Err::<
            Seq<(Key, ValueV)>,
            _,
        >(e),
{
    let ghost ov = json_obj_view(fields@);
    proof {
        lemma_json_obj_view(fields@);
    }
    let mut out: crate::message::AccountEntries = Vec::new();
    let mut i: usize = 0;
    proof {
        assert(ov.subrange(0, 0) =~= Seq::<(Seq<char>, JsonV)>::empty());
        assert(crate::message::entries_seq_view(out@) =~= Seq::<(Key, ValueV)>::empty());
    }
    while i < fields.len()
        invariant
            ov == json_obj_view(fields@),
            ov.len() == fields@.len(),
            forall|m: int| 0 <= m < fields@.len() ==> ov[m] == (
                fields@[m].0@,
                json_view(fields@[m].1),
            ),
            i <= fields@.len(),
            out@.len() == i,
            entries_from_jsonv(ov.subrange(0, i as int)) == Ok::<_, DecodeError>(
                crate::message::entries_seq_view(out@),
            ),
        decreases fields@.len() - i,
    {
        let ghost prev = ov.subrange(0, i as int);
        proof {
            assert(ov.subrange(0, i + 1).drop_last() =~= prev);
            assert(ov.subrange(0, i + 1).last() == ov[i as int]);
        }
        let key = match Key::from_str(&fields[i].0) {
            Ok(k) => k,
            Err(_) => {
                proof {
                    lemma_entries_err_persists(ov, i + 1);
                }
                return Err(DecodeError::InvalidEnumValue);
            },
        };
        let value = match AclAccountsMessageAccountsValueValue::from_json(&fields[i].1) {
            Ok(v) => v,
            Err(e) => {
                proof {
                    lemma_entries_err_persists(ov, i + 1);
                }
                return Err(e);
            },
        };
        let ghost out0 = out@;
        let ghost vv = value@;
        out.push((key, value));
        proof {
            assert(crate::message::entries_seq_view(out@) =~= crate::message::entries_seq_view(
                out0,
            ).push((key, vv)));
        }
        i = i + 1;
    }
    proof {
        assert(ov.subrange(0, ov.len() as int) =~= ov);
    }
    Ok(out)
}

/// The `accounts` object: arbitrary account names, each value an object
/// of entries.
fn accounts_from_json(fields: &Vec<(String, Json)>) -> (r: Result<
    Vec<(String, crate::message::AccountEntries)>,
    DecodeError,
>)
    ensures
        r matches Ok(v) ==> accounts_from_jsonv(json_obj_view(fields@)) == Ok::<
            _,
            DecodeError,
        >(crate::message::accounts_seq_view(v@)),
        r matches Err(e) ==> accounts_from_jsonv(json_obj_view(fields@)) == Err::<
            Seq<(Seq<char>, Seq<(Key, ValueV)>)>,
            _,
        >(e),
{
    let ghost ov = json_obj_view(fields@);
    proof {
        lemma_json_obj_view(fields@);
    }
    let mut out: Vec<(String, crate::message::AccountEntries)> = Vec::new();
    let mut i: usize = 0;
    proof {
        assert(ov.subrange(0, 0) =~= Seq::<(Seq<char>, JsonV)>::empty());
        assert(crate::message::accounts_seq_view(out@) =~= Seq::<
            (Seq<char>, Seq<(Key, ValueV)>),
        >::empty());
    }
    while i < fields.len()
        invariant
            ov == json_obj_view(fields@),
            ov.len() == fields@.len(),
            forall|m: int| 0 <= m < fields@.len() ==> ov[m] == (
                fields@[m].0@,
                json_view(fields@[m].1),
            ),
            i <= fields@.len(),
            out@.len() == i,
            accounts_from_jsonv(ov.subrange(0, i as int)) == Ok::<_, DecodeError>(
                crate::message::accounts_seq_view(out@),
            ),
        decreases fields@.len() - i,
    {
        let ghost prev = ov.subrange(0, i as int);
        proof {
            assert(ov.subrange(0, i + 1).drop_last() =~= prev);
            assert(ov.subrange(0, i + 1).last() == ov[i as int]);
        }
        match &fields[i].1 {
            Json::Obj(inner) => {
                match entries_from_json(inner) {
                    Ok(es) => {
                        let name = fields[i].0.clone();
                        let ghost out0 = out@;
                        let ghost esv = crate::message::entries_seq_view(es@);
                        out.push((name, es));
                        proof {
                            assert(crate::message::accounts_seq_view(out@)
                                =~= crate::message::accounts_seq_view(out0).push(
                                (fields@[i as int].0@, esv),
                            ));
                        }
                    },
                    Err(e) => {
                        proof {
                            lemma_accounts_err_persists(ov, i + 1);
                        }
                        return Err(e);
                    },
                }
            },
            _ => {
                proof {
                    lemma_accounts_err_persists(ov, i + 1);
                }
                return Err(DecodeError::TypeMismatch);
            },
        }
        i = i + 1;
    }
    proof {
        assert(ov.subrange(0, ov.len() as int) =~= ov);
    }
    Ok(out)
}

impl crate::message::AclAccountsMessage {
    /// Builds a message from a JSON value, checking the whole shape.
    pub fn from_json(j: &Json) -> (r: Result<
        crate::message::AclAccountsMessage,
        DecodeError,
    >)
        ensures
            r matches Ok(m) ==> message_from_jsonv(j@) == Ok::<MessageV, DecodeError>(m@),
            r matches Err(e) ==> message_from_jsonv(j@) == Err::<MessageV, DecodeError>(e),
    {
        match j {
            Json::Obj(fields) => match obj_get_ref(fields, "accounts") {
                None => Err(DecodeError::MissingRequiredField),
                Some(av) => match av {
                    Json::Obj(af) => match accounts_from_json(af) {
                        Err(e) => Err(e),
                        Ok(accounts) => match obj_get_ref(fields, "metadata") {
                            None => {
                                let m = crate::message::AclAccountsMessage {
                                    accounts,
                                    metadata: Vec::new(),
                                };
                                proof {
                                    assert(json_obj_view(m.metadata@) =~= Seq::<
                                        (Seq<char>, JsonV),
                                    >::empty());
                                }
                                Ok(m)
                            },
                            Some(mv) => match mv {
                                Json::Obj(mf) => {
                                    let metadata = clone_obj_fields(mf);
                                    Ok(
                                        crate::message::AclAccountsMessage {
                                            accounts,
                                            metadata,
                                        },
                                    )
                                },
                                _ => Err(DecodeError::TypeMismatch),
                            },
                        },
                    },
                    _ => Err(DecodeError::TypeMismatch),
                },
            },
            _ => Err(DecodeError::TypeMismatch),
        }
    }

    /// Writes this message: `accounts` always, `metadata` only when the
    /// bag is non-empty. Well-formedness keeps the emitted objects free
    /// of duplicate keys.
    pub fn to_json(&self) -> (r: Json)
        requires
            self@.wf(),
        ensures
            r@ == message_to_jsonv(self@),
    {
        let mut af: Vec<(String, Json)> = Vec::new();
        let mut i: usize = 0;
        while i < self.accounts.len()
            invariant
                i <= self.accounts@.len(),
                af@.len() == i,
                forall|k: int|
                    0 <= k < i ==> (#[trigger] af@[k]).0@ == self.accounts@[k].0@
                        && json_view(af@[k].1) == JsonV::Obj(
                        entries_to_jsonv(
                            crate::message::entries_seq_view(self.accounts@[k].1@),
                        ),
                    ),
            decreases self.accounts@.len() - i,
        {
            let name = self.accounts[i].0.clone();
            let entries = &self.accounts[i].1;
            let mut inner: Vec<(String, Json)> = Vec::new();
            let mut jj: usize = 0;
            while jj < entries.len()
                invariant
                    jj <= entries@.len(),
                    inner@.len() == jj,
                    forall|k: int|
                        0 <= k < jj ==> (#[trigger] inner@[k]).0@ == wire_of(entries@[k].0)
                            && json_view(inner@[k].1) == value_to_jsonv(entries@[k].1@),
                decreases entries@.len() - jj,
            {
                let ks = entries[jj].0.wire_str().to_owned();
                let vj = entries[jj].1.to_json();
                inner.push((ks, vj));
                jj = jj + 1;
            }
            proof {
                lemma_json_obj_view(inner@);
                assert(json_obj_view(inner@) =~= entries_to_jsonv(
                    crate::message::entries_seq_view(entries@),
                ));
            }
            af.push((name, Json::Obj(inner)));
            i = i + 1;
        }
        proof {
            lemma_json_obj_view(af@);
            assert(json_obj_view(af@) =~= accounts_to_jsonv(
                crate::message::accounts_seq_view(self.accounts@),
            ));
        }
        let mut fields: Vec<(String, Json)> = Vec::new();
        fields.push((String::from_str("accounts"), Json::Obj(af)));
        if self.metadata.len() > 0 {
            let md = clone_obj_fields(&self.metadata);
            fields.push((String::from_str("metadata"), Json::Obj(md)));
            proof {
                lemma_json_obj_view(fields@);
                assert(json_obj_view(fields@) =~= seq![
                    ("accounts"@, JsonV::Obj(accounts_to_jsonv(self@.accounts))),
                    ("metadata"@, JsonV::Obj(self@.metadata)),
                ]);
            }
            Json::Obj(fields)
        } else {
            proof {
                lemma_json_obj_view(fields@);
                assert(json_obj_view(fields@) =~= seq![
                    ("accounts"@, JsonV::Obj(accounts_to_jsonv(self@.accounts))),
                ]);
            }
            Json::Obj(fields)
        }
    }
}

/// A message with an empty metadata bag serializes with no `metadata`
/// key; a non-empty bag is written, verbatim, under `metadata`.
pub proof fn lemma_metadata_omission(m: MessageV)
    ensures
        message_to_jsonv(m) is Obj,
        obj_get(message_to_jsonv(m)->Obj_0, "metadata"@) is Some <==> m.metadata.len() > 0,
        m.metadata.len() > 0 ==> obj_get(message_to_jsonv(m)->Obj_0, "metadata"@) == Some(
            JsonV::Obj(m.metadata),
        ),
        obj_get(message_to_jsonv(m)->Obj_0, "accounts"@) == Some(
            JsonV::Obj(accounts_to_jsonv(m.accounts)),
        ),
{
    reveal_strlit("accounts");
    reveal_strlit("metadata");
    assert("accounts"@[0] == 'a' && "metadata"@[0] == 'm');
    let av = JsonV::Obj(accounts_to_jsonv(m.accounts));
    if m.metadata.len() == 0 {
        let fields = seq![("accounts"@, av)];
        assert(obj_get(fields, "accounts"@) == Some(av));
        assert(obj_get(fields.drop_first(), "metadata"@) is None);
    } else {
        let mv = JsonV::Obj(m.metadata);
        let fields = seq![("accounts"@, av), ("metadata"@, mv)];
        assert(obj_get(fields, "accounts"@) == Some(av));
        assert(fields.drop_first() =~= seq![("metadata"@, mv)]);
        assert(obj_get(seq![("metadata"@, mv)], "metadata"@) == Some(mv));
        assert(obj_get(fields, "metadata"@) == obj_get(fields.drop_first(), "metadata"@));
    }
}

/// The accounts field converted from one JSON value: it must be an
/// object of objects.
pub open spec fn accounts_field_from_jsonv(j: JsonV) -> Result<
    Seq<(Seq<char>, Seq<(Key, ValueV)>)>,
    DecodeError,
> {
    match j {
        JsonV::Obj(af) => accounts_from_jsonv(af),
        _ => Err(DecodeError::TypeMismatch),
    }
}

/// Converts a JSON value into the accounts map.
pub fn accounts_field_from_json(j: &Json) -> (r: Result<
    Vec<(String, crate::message::AccountEntries)>,
    DecodeError,
>)
    ensures
        r matches Ok(v) ==> accounts_field_from_jsonv(j@) == Ok::<_, DecodeError>(
            crate::message::accounts_seq_view(v@),
        ),
        r matches Err(e) ==> accounts_field_from_jsonv(j@) == Err::<
            Seq<(Seq<char>, Seq<(Key, ValueV)>)>,
            _,
        >(e),
{
    match j {
        Json::Obj(af) => accounts_from_json(af),
        _ => Err(DecodeError::TypeMismatch),
    }
}

/// The metadata field converted from one JSON value: it must be an
/// object, captured verbatim.
pub open spec fn metadata_field_from_jsonv(j: JsonV) -> Result<
    Seq<(Seq<char>, JsonV)>,
    DecodeError,
> {
    match j {
        JsonV::Obj(mf) => Ok(mf),
        _ => Err(DecodeError::TypeMismatch),
    }
}

/// Converts a JSON value into the metadata bag.
pub fn metadata_field_from_json(j: &Json) -> (r: Result<Vec<(String, Json)>, DecodeError>)
    ensures
        r matches Ok(v) ==> metadata_field_from_jsonv(j@) == Ok::<_, DecodeError>(
            json_obj_view(v@),
        ),
        r matches Err(e) ==> metadata_field_from_jsonv(j@) == Err::<
            Seq<(Seq<char>, JsonV)>,
            _,
        >(e),
{
    match j {
        Json::Obj(mf) => Ok(clone_obj_fields(mf)),
        _ => Err(DecodeError::TypeMismatch),
    }
}

// ---------------------------------------------------------------------
// The wire boundary: serde_json reads and writes the JSON text.
// ---------------------------------------------------------------------

#[verifier::external_type_specification]
#[verifier::external_body]
pub struct ExValue(serde_json::Value);

/// The tree a text parses to, if the text is valid JSON: the result of
/// `serde_json::from_str`, with object keys in serde_json's map order and
/// each number carried as its literal text.
pub uninterp spec fn json_parse(s: Seq<char>) -> Option<JsonV>;

/// The text `serde_json::to_string` writes for a tree.
pub uninterp spec fn json_text(v: JsonV) -> Seq<char>;

/// The tree a serde_json value converts to: a function of the value
/// alone (map order and number formatting are fixed).
pub uninterp spec fn value_tree(v: serde_json::Value) -> JsonV;

/// The serde_json value a tree converts to: a function of the tree alone.
pub uninterp spec fn value_of(j: JsonV) -> serde_json::Value;

/// Relies on serde_json::Value: moves one parsed value into the crate's
/// own tree, variant by variant, writing a number as its literal text.
/// The result is well-formed because a serde_json object is a map, whose
/// keys are distinct.
#[verifier::external_body]
fn json_of_value(v: serde_json::Value) -> (r: Json)
    ensures
        r@ == value_tree(v),
        crate::json::json_wf(r@),
{
    match v {
        serde_json::Value::Null => Json::Null,
        serde_json::Value::Bool(b) => Json::Bool(b),
        serde_json::Value::Number(n) => Json::Num(n.to_string()),
        serde_json::Value::String(s) => Json::Str(s),
        serde_json::Value::Array(items) => Json::Arr(
            items.into_iter().map(json_of_value).collect(),
        ),
        serde_json::Value::Object(fields) => Json::Obj(
            fields.into_iter().map(|f| (f.0, json_of_value(f.1))).collect(),
        ),
    }
}

/// Relies on serde_json::Value and serde_json::Number: rebuilds a
/// serde_json tree from the crate's own, variant by variant, parsing each
/// numeric literal back into serde_json's Number type; a literal that
/// Number rejects is written as null.
#[verifier::external_body]
fn json_to_value(j: &Json) -> (r: serde_json::Value)
    ensures
        r == value_of(j@),
{
    match j {
        Json::Null => serde_json::Value::Null,
        Json::Bool(b) => serde_json::Value::Bool(*b),
        Json::Num(s) => match s.parse::<serde_json::Number>() {
            Ok(n) => serde_json::Value::Number(n),
            Err(_) => serde_json::Value::Null,
        },
        Json::Str(s) => serde_json::Value::String(s.clone()),
        Json::Arr(items) => serde_json::Value::Array(items.iter().map(json_to_value).collect()),
        Json::Obj(fields) => serde_json::Value::Object(
            fields.iter().map(|f| (f.0.clone(), json_to_value(&f.1))).collect(),
        ),
    }
}

/// Relies on serde_json::from_str: whether a text is valid JSON, and the
/// tree it parses to, depend on the text alone. A parsed tree is
/// well-formed, because serde_json reads each object into a map, whose
/// keys are distinct.
#[verifier::external_body]
fn text_to_json(s: &str) -> (r: Option<Json>)
    ensures
        r matches Some(j) ==> json_parse(s@) == Some(j@) && crate::json::json_wf(j@),
        r is None <==> json_parse(s@) is None,
{
    match serde_json::from_str::<serde_json::Value>(s) {
        Ok(v) => Some(json_of_value(v)),
        Err(_) => None,
    }
}

/// Relies on serde_json::to_string: the text written for a tree depends
/// on the tree alone (serialization of a serde_json value cannot fail).
#[verifier::external_body]
fn json_to_text(j: &Json) -> (r: String)
    ensures
        r@ == json_text(j@),
{
    match serde_json::to_string(&json_to_value(j)) {
        Ok(s) => s,
        Err(_) => String::new(),
    }
}

impl crate::message::AclAccountsMessage {
    /// The message as JSON text: `accounts` always, `metadata` only when
    /// the bag is non-empty.
    ///
    /// The text is serde_json's canonical form: object keys inside
    /// `accounts` and `metadata` values come out in map order, and a
    /// numeric literal is re-formatted by serde_json's number type (one
    /// that type rejects is written as null; numbers read from the wire
    /// are always accepted). Deserializing the text gives back this
    /// message's tree exactly ([`lemma_round_trip`]); the text itself is
    /// canonical, so a second serialize of the result reproduces it.
    pub fn serialize(&self) -> (r: String)
        requires
            self@.wf(),
        ensures
            r@ == json_text(message_to_jsonv(self@)),
    {
        let tree = self.to_json();
        json_to_text(&tree)
    }

    /// Reads a message from JSON text, checking the whole shape.
    pub fn deserialize(s: &str) -> (r: Result<
        crate::message::AclAccountsMessage,
        DecodeError,
    >)
        ensures
            json_parse(s@) is None ==> r == Err::<crate::message::AclAccountsMessage, _>(
                DecodeError::InvalidJson,
            ),
            json_parse(s@) matches Some(j) ==> match r {
                Ok(m) => message_from_jsonv(j) == Ok::<MessageV, DecodeError>(m@),
                Err(e) => message_from_jsonv(j) == Err::<MessageV, DecodeError>(e),
            },
            r matches Ok(m) ==> m@.wf(),
    {
        match text_to_json(s) {
            None => Err(DecodeError::InvalidJson),
            Some(j) => {
                let r = Self::from_json(&j);
                proof {
                    if r is Ok {
                        lemma_decode_wf(j@, r->Ok_0@);
                    }
                }
                r
            },
        }
    }

    /// Reads a message from an already-parsed serde_json value.
    pub fn from_value(v: serde_json::Value) -> (r: Result<
        crate::message::AclAccountsMessage,
        DecodeError,
    >)
        ensures
            r matches Ok(m) ==> message_from_jsonv(value_tree(v)) == Ok::<
                MessageV,
                DecodeError,
            >(m@) && m@.wf(),
            r matches Err(e) ==> message_from_jsonv(value_tree(v)) == Err::<
                MessageV,
                DecodeError,
            >(e),
    {
        let tree = json_of_value(v);
        let r = Self::from_json(&tree);
        proof {
            if r is Ok {
                lemma_decode_wf(tree@, r->Ok_0@);
            }
        }
        r
    }

    /// The message as a serde_json value, shaped as [`Self::serialize`]
    /// writes it.
    pub fn to_value(&self) -> (r: serde_json::Value)
        requires
            self@.wf(),
        ensures
            r == value_of(message_to_jsonv(self@)),
    {
        let tree = self.to_json();
        json_to_value(&tree)
    }
}

} // verus!

