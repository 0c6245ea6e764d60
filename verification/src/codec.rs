//! The wire form of a watched object, and its decoder.
//!
//! A `DynamicObject` is carried on the wire as one JSON object: the type
//! descriptor's fields first (when present), then the metadata object, then
//! every payload key in order. The decoder inverts the encoder exactly:
//! encoding and then decoding preserves the type descriptor, every metadata
//! field and the whole payload.

use crate::object::{
    lemma_view_entry_seq_index, lemma_view_entry_seq_push, lemma_view_label_seq_index,
    lemma_view_label_seq_len, lemma_view_label_seq_push, view_entry_seq, view_json, view_label_seq,
    view_meta, view_opt_string, view_dyn, view_types, DynamicObject, JVal, JsonValue, MetaModel,
    ObjModel, ObjectMeta, TypeMeta, TypeModel,
};
use vstd::prelude::*;

verus! {

/// The entry a present optional string contributes; an absent one
/// contributes nothing.
pub open spec fn opt_str_entry(key: Seq<char>, v: Option<Seq<char>>) -> Seq<(Seq<char>, JVal)> {
    match v {
        Some(s) => seq![(key, JVal::Str(s))],
        None => Seq::empty(),
    }
}

/// Labels as a JSON object's entries.
pub open spec fn labels_jval(ls: Seq<(Seq<char>, Seq<char>)>) -> Seq<(Seq<char>, JVal)> {
    ls.map_values(|p: (Seq<char>, Seq<char>)| (p.0, JVal::Str(p.1)))
}

/// The JSON form of object metadata: the optional fields in a fixed order,
/// then the labels object.
pub open spec fn meta_jval(m: MetaModel) -> JVal {
    JVal::Obj(
        opt_str_entry("name"@, m.name) + opt_str_entry("namespace"@, m.namespace) + opt_str_entry(
            "resourceVersion"@,
            m.resource_version,
        ) + seq![("labels"@, JVal::Obj(labels_jval(m.labels)))],
    )
}

/// The JSON form of a whole watched object: type descriptor fields (when
/// present), the metadata object, then the payload keys in order.
pub open spec fn encode_obj(m: ObjModel) -> JVal {
    JVal::Obj(
        (match m.types {
            Some(t) => seq![
                ("apiVersion"@, JVal::Str(t.api_version)),
                ("kind"@, JVal::Str(t.kind)),
            ],
            None => Seq::empty(),
        }) + seq![("metadata"@, meta_jval(m.metadata))] + m.data,
    )
}

/// Take a leading `(key, string)` entry if it is there.
pub open spec fn take_opt_str(key: Seq<char>, es: Seq<(Seq<char>, JVal)>) -> (
    Option<Seq<char>>,
    Seq<(Seq<char>, JVal)>,
) {
    if es.len() >= 1 && es[0].0 == key && es[0].1 is Str {
        (Some(es[0].1->Str_0), es.skip(1))
    } else {
        (None, es)
    }
}

/// Every entry's value is a string.
pub open spec fn all_str_values(s: Seq<(Seq<char>, JVal)>) -> bool {
    forall|i: int| 0 <= i < s.len() ==> s[i].1 is Str
}

/// Labels back out of a JSON object's entries.
pub open spec fn decode_labels(s: Seq<(Seq<char>, JVal)>) -> Seq<(Seq<char>, Seq<char>)> {
    s.map_values(|q: (Seq<char>, JVal)| (q.0, q.1->Str_0))
}

/// Decode object metadata: the optional fields in their fixed order, then
/// exactly the labels object.
pub open spec fn decode_meta(j: JVal) -> Option<MetaModel> {
    if !(j is Obj) {
        None
    } else {
        let es = j->Obj_0;
        let s1 = take_opt_str("name"@, es);
        let s2 = take_opt_str("namespace"@, s1.1);
        let s3 = take_opt_str("resourceVersion"@, s2.1);
        if s3.1.len() == 1 && s3.1[0].0 == "labels"@ && s3.1[0].1 is Obj && all_str_values(
            s3.1[0].1->Obj_0,
        ) {
            Some(
                MetaModel {
                    name: s1.0,
                    namespace: s2.0,
                    resource_version: s3.0,
                    labels: decode_labels(s3.1[0].1->Obj_0),
                },
            )
        } else {
            None
        }
    }
}

/// Decode the metadata-then-payload tail of a watched object.
pub open spec fn decode_body(types: Option<TypeModel>, es: Seq<(Seq<char>, JVal)>) -> Option<
    ObjModel,
> {
    if es.len() >= 1 && es[0].0 == "metadata"@ && decode_meta(es[0].1) is Some {
        Some(ObjModel { types, metadata: decode_meta(es[0].1)->Some_0, data: es.skip(1) })
    } else {
        None
    }
}

/// Decode a whole watched object from its JSON form.
pub open spec fn decode_obj(j: JVal) -> Option<ObjModel> {
    if !(j is Obj) {
        None
    } else {
        let es = j->Obj_0;
        if es.len() >= 2 && es[0].0 == "apiVersion"@ {
            if es[0].1 is Str && es[1].0 == "kind"@ && es[1].1 is Str {
                decode_body(
                    Some(TypeModel { api_version: es[0].1->Str_0, kind: es[1].1->Str_0 }),
                    es.skip(2),
                )
            } else {
                None
            }
        } else {
            decode_body(None, es)
        }
    }
}

/// Taking a keyed optional entry undoes contributing it, as long as what
/// follows does not itself start with the key.
proof fn lemma_take_round(
    key: Seq<char>,
    v: Option<Seq<char>>,
    rest: Seq<(Seq<char>, JVal)>,
)
    requires
        rest.len() >= 1,
        rest[0].0 != key,
    ensures
        take_opt_str(key, opt_str_entry(key, v) + rest) == (v, rest),
{
    match v {
        Some(s) => {
            let es = opt_str_entry(key, v) + rest;
            assert(es[0] == (key, JVal::Str(s)));
            assert(es.skip(1) =~= rest);
        },
        None => {
            assert(opt_str_entry(key, v) + rest =~= rest);
        },
    }
}

/// Decoding undoes encoding for object metadata.
proof fn lemma_meta_round(m: MetaModel)
    ensures
        decode_meta(meta_jval(m)) == Some(m),
{
    reveal_strlit("name");
    reveal_strlit("namespace");
    reveal_strlit("resourceVersion");
    reveal_strlit("labels");
    assert("name"@.len() == 4);
    assert("namespace"@.len() == 9);
    assert("resourceVersion"@.len() == 15);
    assert("labels"@.len() == 6);
    let name_e = opt_str_entry("name"@, m.name);
    let ns_e = opt_str_entry("namespace"@, m.namespace);
    let rv_e = opt_str_entry("resourceVersion"@, m.resource_version);
    let lab = JVal::Obj(labels_jval(m.labels));
    let l_e: Seq<(Seq<char>, JVal)> = seq![("labels"@, lab)];
    let es = name_e + ns_e + rv_e + l_e;
    assert(meta_jval(m)->Obj_0 =~= es);

    let rest1 = ns_e + rv_e + l_e;
    assert(es =~= name_e + rest1);
    assert(rest1.len() >= 1);
    if m.namespace is Some {
        assert(rest1[0] == ("namespace"@, JVal::Str(m.namespace->Some_0)));
    } else if m.resource_version is Some {
        assert(rest1 =~= rv_e + l_e);
        assert(rest1[0] == ("resourceVersion"@, JVal::Str(m.resource_version->Some_0)));
    } else {
        assert(rest1 =~= l_e);
        assert(rest1[0] == ("labels"@, lab));
    }
    assert(rest1[0].0 != "name"@);
    lemma_take_round("name"@, m.name, rest1);
    assert(take_opt_str("name"@, es) == (m.name, rest1));

    let rest2 = rv_e + l_e;
    assert(rest1 =~= ns_e + rest2);
    if m.resource_version is Some {
        assert(rest2[0] == ("resourceVersion"@, JVal::Str(m.resource_version->Some_0)));
    } else {
        assert(rest2 =~= l_e);
        assert(rest2[0] == ("labels"@, lab));
    }
    assert(rest2[0].0 != "namespace"@);
    lemma_take_round("namespace"@, m.namespace, rest2);

    let rest3 = l_e;
    assert(rest2 =~= rv_e + rest3);
    assert(rest3[0] == ("labels"@, lab));
    assert(rest3[0].0 != "resourceVersion"@);
    lemma_take_round("resourceVersion"@, m.resource_version, rest3);

    assert(rest3.len() == 1 && rest3[0].0 == "labels"@ && rest3[0].1 is Obj);
    let encoded = labels_jval(m.labels);
    assert forall|i: int| 0 <= i < encoded.len() implies encoded[i].1 is Str by {
        assert(encoded[i] == (m.labels[i].0, JVal::Str(m.labels[i].1)));
    }
    assert(all_str_values(encoded));
    assert(decode_labels(encoded) =~= m.labels);
    assert(decode_meta(meta_jval(m))->Some_0 =~= m);
}

/// Encoding a watched object and then decoding it gives the object back:
/// the type descriptor, every metadata field and the whole payload survive
/// the round trip exactly.
pub proof fn lemma_codec_round_trip(m: ObjModel)
    ensures
        decode_obj(encode_obj(m)) == Some(m),
{
    reveal_strlit("apiVersion");
    reveal_strlit("kind");
    reveal_strlit("metadata");
    assert("apiVersion"@.len() == 10);
    assert("kind"@.len() == 4);
    assert("metadata"@.len() == 8);
    lemma_meta_round(m.metadata);
    let meta_e: Seq<(Seq<char>, JVal)> = seq![("metadata"@, meta_jval(m.metadata))];
    let tail = meta_e + m.data;
    assert(tail[0] == ("metadata"@, meta_jval(m.metadata)));
    assert(tail.skip(1) =~= m.data);
    assert(decode_body(m.types, tail) == Some(m));
    match m.types {
        Some(t) => {
            let t_e: Seq<(Seq<char>, JVal)> = seq![
                ("apiVersion"@, JVal::Str(t.api_version)),
                ("kind"@, JVal::Str(t.kind)),
            ];
            let es = t_e + meta_e + m.data;
            assert(encode_obj(m)->Obj_0 =~= es);
            assert(es[0] == ("apiVersion"@, JVal::Str(t.api_version)));
            assert(es[1] == ("kind"@, JVal::Str(t.kind)));
            assert(es.skip(2) =~= tail);
        },
        None => {
            let es = Seq::<(Seq<char>, JVal)>::empty() + meta_e + m.data;
            assert(encode_obj(m)->Obj_0 =~= es);
            assert(es =~= tail);
            assert(es[0].0 == "metadata"@);
            assert(es[0].0 != "apiVersion"@);
        },
    }
}

/// The view of a value is a string or object exactly when the value is,
/// with the matching payload.
proof fn lemma_view_json_variant(v: JsonValue)
    ensures
        view_json(v) is Str <==> v is Str,
        view_json(v) is Obj <==> v is Obj,
        v is Str ==> view_json(v)->Str_0 == v->Str_0@,
        v is Obj ==> view_json(v)->Obj_0 == view_entry_seq(v->Obj_0@),
{
    match v {
        JsonValue::Null => {},
        JsonValue::Bool(_) => {},
        JsonValue::Int(_) => {},
        JsonValue::Str(_) => {},
        JsonValue::Arr(_) => {},
        JsonValue::Obj(_) => {},
    }
}

/// The model of a non-empty entry sequence is its head's view followed by
/// the tail's model.
proof fn lemma_view_entry_seq_tail(s: Seq<(String, JsonValue)>)
    requires
        s.len() >= 1,
    ensures
        view_entry_seq(s).skip(1) == view_entry_seq(s.subrange(1, s.len() as int)),
{
    assert(view_entry_seq(s).skip(1) =~= view_entry_seq(s.subrange(1, s.len() as int)));
}

/// Turn object metadata into its JSON object.
pub fn meta_to_json(m: &ObjectMeta) -> (r: JsonValue)
    ensures
        view_json(r) == meta_jval(view_meta(*m)),
{
    let ghost mm = view_meta(*m);
    let mut entries: Vec<(String, JsonValue)> = Vec::new();
    match &m.name {
        Some(s) => {
            let e = (String::from_str("name"), JsonValue::Str(s.clone()));
            proof {
                lemma_view_entry_seq_push(entries@, e);
            }
            entries.push(e);
        },
        None => {},
    }
    proof {
        assert(view_entry_seq(entries@) =~= opt_str_entry("name"@, mm.name));
    }
    let ghost p1 = opt_str_entry("name"@, mm.name);
    match &m.namespace {
        Some(s) => {
            let e = (String::from_str("namespace"), JsonValue::Str(s.clone()));
            proof {
                lemma_view_entry_seq_push(entries@, e);
            }
            entries.push(e);
        },
        None => {},
    }
    proof {
        assert(view_entry_seq(entries@) =~= p1 + opt_str_entry("namespace"@, mm.namespace));
    }
    let ghost p2 = p1 + opt_str_entry("namespace"@, mm.namespace);
    match &m.resource_version {
        Some(s) => {
            let e = (String::from_str("resourceVersion"), JsonValue::Str(s.clone()));
            proof {
                lemma_view_entry_seq_push(entries@, e);
            }
            entries.push(e);
        },
        None => {},
    }
    proof {
        assert(view_entry_seq(entries@) =~= p2 + opt_str_entry("resourceVersion"@, mm.resource_version));
    }
    let ghost p3 = p2 + opt_str_entry("resourceVersion"@, mm.resource_version);

    let mut lentries: Vec<(String, JsonValue)> = Vec::new();
    let mut i: usize = 0;
    while i < m.labels.len()
        invariant
            i <= m.labels@.len(),
            view_entry_seq(lentries@) == labels_jval(view_label_seq(m.labels@.take(i as int))),
        decreases m.labels@.len() - i,
    {
        let k = m.labels[i].0.clone();
        let v = m.labels[i].1.clone();
        proof {
            lemma_view_entry_seq_push(lentries@, (k, JsonValue::Str(v)));
            assert(m.labels@.take(i as int + 1) =~= m.labels@.take(i as int).push(
                m.labels@[i as int],
            ));
            lemma_view_label_seq_push(m.labels@.take(i as int), m.labels@[i as int]);
            assert(labels_jval(view_label_seq(m.labels@.take(i as int)).push((k@, v@))) =~= labels_jval(
                view_label_seq(m.labels@.take(i as int)),
            ).push((k@, JVal::Str(v@))));
        }
        lentries.push((k, JsonValue::Str(v)));
        i = i + 1;
    }
    proof {
        assert(m.labels@.take(m.labels@.len() as int) =~= m.labels@);
    }
    let e = (String::from_str("labels"), JsonValue::Obj(lentries));
    proof {
        lemma_view_entry_seq_push(entries@, e);
    }
    entries.push(e);
    proof {
        assert(view_entry_seq(entries@) =~= meta_jval(mm)->Obj_0);
    }
    JsonValue::Obj(entries)
}

/// Turn a watched object into its wire JSON value.
pub fn to_json(o: &DynamicObject) -> (r: JsonValue)
    ensures
        view_json(r) == encode_obj(view_dyn(*o)),
{
    let ghost om = view_dyn(*o);
    let mut entries: Vec<(String, JsonValue)> = Vec::new();
    match &o.types {
        Some(t) => {
            let e0 = (String::from_str("apiVersion"), JsonValue::Str(t.api_version.clone()));
            proof {
                lemma_view_entry_seq_push(entries@, e0);
            }
            entries.push(e0);
            let e1 = (String::from_str("kind"), JsonValue::Str(t.kind.clone()));
            proof {
                lemma_view_entry_seq_push(entries@, e1);
            }
            entries.push(e1);
        },
        None => {},
    }
    let ghost prefix = view_entry_seq(entries@);
    proof {
        assert(prefix =~= (match om.types {
            Some(t) => seq![("apiVersion"@, JVal::Str(t.api_version)), ("kind"@, JVal::Str(t.kind))],
            None => Seq::<(Seq<char>, JVal)>::empty(),
        }));
    }
    let md = meta_to_json(&o.metadata);
    let em = (String::from_str("metadata"), md);
    proof {
        lemma_view_entry_seq_push(entries@, em);
    }
    entries.push(em);
    let ghost prefix2 = view_entry_seq(entries@);
    proof {
        assert(prefix2 =~= prefix + seq![("metadata"@, meta_jval(om.metadata))]);
    }
    let mut i: usize = 0;
    while i < o.data.len()
        invariant
            i <= o.data@.len(),
            view_entry_seq(entries@) == prefix2 + view_entry_seq(o.data@.take(i as int)),
        decreases o.data@.len() - i,
    {
        let k = o.data[i].0.clone();
        let v = o.data[i].1.deep_clone();
        proof {
            lemma_view_entry_seq_push(entries@, (k, v));
            assert(o.data@.take(i as int + 1) =~= o.data@.take(i as int).push(o.data@[i as int]));
            lemma_view_entry_seq_push(o.data@.take(i as int), o.data@[i as int]);
            assert(prefix2 + view_entry_seq(o.data@.take(i as int)).push((k@, view_json(v))) =~= (
            prefix2 + view_entry_seq(o.data@.take(i as int))).push((k@, view_json(v))));
        }
        entries.push((k, v));
        i = i + 1;
    }
    proof {
        assert(o.data@.take(o.data@.len() as int) =~= o.data@);
        assert(view_entry_seq(entries@) =~= encode_obj(om)->Obj_0);
    }
    JsonValue::Obj(entries)
}

/// Take a leading string field with the given key out of the entries, if it
/// is there.
fn take_str_field(es: &mut Vec<(String, JsonValue)>, key: String) -> (r: Option<String>)
    ensures
        view_opt_string(r) == take_opt_str(key@, view_entry_seq(old(es)@)).0,
        view_entry_seq(final(es)@) == take_opt_str(key@, view_entry_seq(old(es)@)).1,
{
    if es.len() >= 1 {
        proof {
            lemma_view_entry_seq_index(es@, 0);
            lemma_view_json_variant(es@[0].1);
        }
        let key_matches = es[0].0 == key;
        let is_str = matches!(&es[0].1, JsonValue::Str(_));
        if key_matches && is_str {
            proof {
                lemma_view_entry_seq_tail(es@);
                assert(es@.remove(0) =~= es@.subrange(1, es@.len() as int));
            }
            let kv = es.remove(0);
            match kv.1 {
                JsonValue::Str(s) => Some(s),
                _ => {
                    proof {
                        assert(false);
                    }
                    None
                },
            }
        } else {
            None
        }
    } else {
        None
    }
}

/// Decode object metadata from its JSON value.
#[verifier::loop_isolation(false)]
pub fn meta_from_json(v: JsonValue) -> (r: Option<ObjectMeta>)
    ensures
        match decode_meta(view_json(v)) {
            Some(mm) => r is Some && view_meta(r->Some_0) == mm,
            None => r is None,
        },
{
    proof {
        lemma_view_json_variant(v);
    }
    match v {
        JsonValue::Obj(mut es) => {
            let name = take_str_field(&mut es, String::from_str("name"));
            let namespace = take_str_field(&mut es, String::from_str("namespace"));
            let resource_version = take_str_field(&mut es, String::from_str("resourceVersion"));
            if es.len() != 1 {
                proof {
                    crate::object::lemma_view_entry_seq_len(es@);
                }
                return None;
            }
            proof {
                lemma_view_entry_seq_index(es@, 0);
                lemma_view_json_variant(es@[0].1);
            }
            let key_matches = es[0].0 == String::from_str("labels");
            let is_obj = matches!(&es[0].1, JsonValue::Obj(_));
            if !(key_matches && is_obj) {
                return None;
            }
            let kv = es.remove(0);
            match kv.1 {
                JsonValue::Obj(ls) => {
                    let ghost lv = view_entry_seq(ls@);
                    let mut labels: Vec<(String, String)> = Vec::new();
                    let mut i: usize = 0;
                    while i < ls.len()
                        invariant
                            i <= ls@.len(),
                            lv == view_entry_seq(ls@),
                            forall|j: int| 0 <= j < i ==> lv[j].1 is Str,
                            view_label_seq(labels@) == decode_labels(lv.take(i as int)),
                        decreases ls@.len() - i,
                    {
                        proof {
                            lemma_view_entry_seq_index(ls@, i as int);
                            lemma_view_json_variant(ls@[i as int].1);
                        }
                        let is_s = matches!(&ls[i].1, JsonValue::Str(_));
                        if !is_s {
                            proof {
                                crate::object::lemma_view_entry_seq_len(ls@);
                                assert(0 <= i < lv.len() && !(lv[i as int].1 is Str));
                                assert(!all_str_values(lv));
                            }
                            return None;
                        }
                        let k = ls[i].0.clone();
                        let sv = match &ls[i].1 {
                            JsonValue::Str(s) => s.clone(),
                            _ => {
                                proof {
                                    assert(false);
                                }
                                return None;
                            },
                        };
                        proof {
                            lemma_view_label_seq_push(labels@, (k, sv));
                            assert(decode_labels(lv.take(i as int + 1)) =~= decode_labels(lv.take(
                                i as int,
                            )).push((lv[i as int].0, lv[i as int].1->Str_0)));
                        }
                        labels.push((k, sv));
                        i = i + 1;
                    }
                    proof {
                        crate::object::lemma_view_entry_seq_len(ls@);
                        assert(lv.take(lv.len() as int) =~= lv);
                        assert(all_str_values(lv));
                    }
                    Some(ObjectMeta { name, namespace, resource_version, labels })
                },
                _ => {
                    proof {
                        assert(false);
                    }
                    None
                },
            }
        },
        _ => None,
    }
}

/// Decode a watched object from its wire JSON value. Succeeds exactly on
/// values the encoder produces.
pub fn from_json(v: JsonValue) -> (r: Option<DynamicObject>)
    ensures
        match decode_obj(view_json(v)) {
            Some(mm) => r is Some && view_dyn(r->Some_0) == mm,
            None => r is None,
        },
{
    proof {
        lemma_view_json_variant(v);
    }
    match v {
        JsonValue::Obj(mut es) => {
            let ghost es0 = view_entry_seq(es@);
            proof {
                crate::object::lemma_view_entry_seq_len(es@);
                if es@.len() >= 1 {
                    lemma_view_entry_seq_index(es@, 0);
                    lemma_view_json_variant(es@[0].1);
                }
                if es@.len() >= 2 {
                    lemma_view_entry_seq_index(es@, 1);
                    lemma_view_json_variant(es@[1].1);
                }
            }
            let head_av = es.len() >= 2 && es[0].0 == String::from_str("apiVersion");
            let mut types: Option<TypeMeta> = None;
            if head_av {
                let shapes = matches!(&es[0].1, JsonValue::Str(_)) && es[1].0 == String::from_str(
                    "kind",
                ) && matches!(&es[1].1, JsonValue::Str(_));
                if !shapes {
                    return None;
                }
                proof {
                    lemma_view_entry_seq_tail(es@);
                    assert(es@.remove(0) =~= es@.subrange(1, es@.len() as int));
                }
                let kv0 = es.remove(0);
                proof {
                    lemma_view_entry_seq_tail(es@);
                    assert(es@.remove(0) =~= es@.subrange(1, es@.len() as int));
                    assert(es0.skip(1).skip(1) =~= es0.skip(2));
                }
                let kv1 = es.remove(0);
                let av = match kv0.1 {
                    JsonValue::Str(s) => s,
                    _ => {
                        proof {
                            assert(false);
                        }
                        return None;
                    },
                };
                let kd = match kv1.1 {
                    JsonValue::Str(s) => s,
                    _ => {
                        proof {
                            assert(false);
                        }
                        return None;
                    },
                };
                types = Some(TypeMeta { api_version: av, kind: kd });
            }
            let ghost tailv = view_entry_seq(es@);
            proof {
                crate::object::lemma_view_entry_seq_len(es@);
                if es@.len() >= 1 {
                    lemma_view_entry_seq_index(es@, 0);
                }
            }
            let head_md = es.len() >= 1 && es[0].0 == String::from_str("metadata");
            if !head_md {
                return None;
            }
            proof {
                lemma_view_entry_seq_tail(es@);
                assert(es@.remove(0) =~= es@.subrange(1, es@.len() as int));
            }
            let kv = es.remove(0);
            let metadata = match meta_from_json(kv.1) {
                Some(mo) => mo,
                None => {
                    return None;
                },
            };
            Some(DynamicObject { types, metadata, data: es })
        },
        _ => None,
    }
}

} // verus!
