//! The structural snapshot of a watched cluster object, and its ghost model.
//!
//! A `DynamicObject` carries an optional explicit type descriptor, structured
//! metadata, and all remaining fields as a structured JSON-like value. Every
//! contract about object content is stated over the ghost model (`JVal`,
//! `ObjModel`), which mirrors the data with mathematical sequences.

use vstd::prelude::*;

verus! {

/// The explicit type descriptor of an object: apiVersion plus kind.
#[derive(Debug, Clone, PartialEq)]
pub struct TypeMeta {
    pub api_version: String,
    pub kind: String,
}

/// Structured object metadata.
#[derive(Debug, Clone, PartialEq)]
pub struct ObjectMeta {
    pub name: Option<String>,
    pub namespace: Option<String>,
    pub resource_version: Option<String>,
    pub labels: Vec<(String, String)>,
}

/// A structured JSON-like value: the opaque payload of a watched object.
/// Numbers are integral; the watch path never needs fractions.
#[derive(Debug, PartialEq)]
pub enum JsonValue {
    Null,
    Bool(bool),
    Int(i64),
    Str(String),
    Arr(Vec<JsonValue>),
    Obj(Vec<(String, JsonValue)>),
}

/// A dynamic representation of a watched cluster object. The payload `data`
/// holds all keys besides the type descriptor and the metadata.
#[derive(Debug, PartialEq)]
pub struct DynamicObject {
    pub types: Option<TypeMeta>,
    pub metadata: ObjectMeta,
    pub data: Vec<(String, JsonValue)>,
}

/// The ghost mirror of `JsonValue`.
pub enum JVal {
    Null,
    Bool(bool),
    Int(i64),
    Str(Seq<char>),
    Arr(Seq<JVal>),
    Obj(Seq<(Seq<char>, JVal)>),
}

/// The ghost mirror of `TypeMeta`.
pub struct TypeModel {
    pub api_version: Seq<char>,
    pub kind: Seq<char>,
}

/// The ghost mirror of `ObjectMeta`.
pub struct MetaModel {
    pub name: Option<Seq<char>>,
    pub namespace: Option<Seq<char>>,
    pub resource_version: Option<Seq<char>>,
    pub labels: Seq<(Seq<char>, Seq<char>)>,
}

/// The ghost mirror of `DynamicObject`.
pub struct ObjModel {
    pub types: Option<TypeModel>,
    pub metadata: MetaModel,
    pub data: Seq<(Seq<char>, JVal)>,
}

/// The model of a `JsonValue`.
pub open spec fn view_json(v: JsonValue) -> JVal
    decreases v,
{
    match v {
        JsonValue::Null => JVal::Null,
        JsonValue::Bool(b) => JVal::Bool(b),
        JsonValue::Int(i) => JVal::Int(i),
        JsonValue::Str(s) => JVal::Str(s@),
        JsonValue::Arr(es) => JVal::Arr(view_json_seq(es@)),
        JsonValue::Obj(es) => JVal::Obj(view_entry_seq(es@)),
    }
}

/// The models of a sequence of values.
pub open spec fn view_json_seq(s: Seq<JsonValue>) -> Seq<JVal>
    decreases s,
{
    if s.len() == 0 {
        Seq::empty()
    } else {
        seq![view_json(s[0])] + view_json_seq(s.subrange(1, s.len() as int))
    }
}

/// The models of a sequence of keyed values.
pub open spec fn view_entry_seq(s: Seq<(String, JsonValue)>) -> Seq<(Seq<char>, JVal)>
    decreases s,
{
    if s.len() == 0 {
        Seq::empty()
    } else {
        seq![(s[0].0@, view_json(s[0].1))] + view_entry_seq(s.subrange(1, s.len() as int))
    }
}

pub open spec fn view_opt_string(o: Option<String>) -> Option<Seq<char>> {
    match o {
        Some(s) => Some(s@),
        None => None,
    }
}

/// The model of a `TypeMeta`.
pub open spec fn view_types(t: TypeMeta) -> TypeModel {
    TypeModel { api_version: t.api_version@, kind: t.kind@ }
}

/// The model of an `ObjectMeta`.
pub open spec fn view_meta(m: ObjectMeta) -> MetaModel {
    MetaModel {
        name: view_opt_string(m.name),
        namespace: view_opt_string(m.namespace),
        resource_version: view_opt_string(m.resource_version),
        labels: view_label_seq(m.labels@),
    }
}

/// The models of a sequence of label pairs.
pub open spec fn view_label_seq(s: Seq<(String, String)>) -> Seq<(Seq<char>, Seq<char>)>
    decreases s,
{
    if s.len() == 0 {
        Seq::empty()
    } else {
        seq![(s[0].0@, s[0].1@)] + view_label_seq(s.subrange(1, s.len() as int))
    }
}

pub proof fn lemma_view_label_seq_len(s: Seq<(String, String)>)
    ensures
        view_label_seq(s).len() == s.len(),
    decreases s.len(),
{
    if s.len() > 0 {
        lemma_view_label_seq_len(s.subrange(1, s.len() as int));
    }
}

/// `view_label_seq` agrees with pointwise views.
pub proof fn lemma_view_label_seq_index(s: Seq<(String, String)>, i: int)
    requires
        0 <= i < s.len(),
    ensures
        view_label_seq(s).len() == s.len(),
        view_label_seq(s)[i] == (s[i].0@, s[i].1@),
    decreases s.len(),
{
    lemma_view_label_seq_len(s);
    if i > 0 {
        lemma_view_label_seq_index(s.subrange(1, s.len() as int), i - 1);
    }
}

/// Appending one label extends the model by its view.
pub proof fn lemma_view_label_seq_push(s: Seq<(String, String)>, e: (String, String))
    ensures
        view_label_seq(s.push(e)) == view_label_seq(s).push((e.0@, e.1@)),
{
    lemma_view_label_seq_len(s);
    lemma_view_label_seq_len(s.push(e));
    assert forall|i: int| 0 <= i < s.len() + 1 implies view_label_seq(s.push(e))[i]
        == view_label_seq(s).push((e.0@, e.1@))[i] by {
        lemma_view_label_seq_index(s.push(e), i);
        if i < s.len() {
            lemma_view_label_seq_index(s, i);
            assert(s.push(e)[i] == s[i]);
        }
    }
    assert(view_label_seq(s.push(e)) =~= view_label_seq(s).push((e.0@, e.1@)));
}

/// The model of a `DynamicObject`.
pub open spec fn view_dyn(o: DynamicObject) -> ObjModel {
    ObjModel {
        types: match o.types {
            Some(t) => Some(view_types(t)),
            None => None,
        },
        metadata: view_meta(o.metadata),
        data: view_entry_seq(o.data@),
    }
}

/// `view_json_seq` agrees with pointwise views.
pub proof fn lemma_view_json_seq_index(s: Seq<JsonValue>, i: int)
    requires
        0 <= i < s.len(),
    ensures
        view_json_seq(s).len() == s.len(),
        view_json_seq(s)[i] == view_json(s[i]),
    decreases s.len(),
{
    lemma_view_json_seq_len(s);
    if i > 0 {
        lemma_view_json_seq_index(s.subrange(1, s.len() as int), i - 1);
    }
}

pub proof fn lemma_view_json_seq_len(s: Seq<JsonValue>)
    ensures
        view_json_seq(s).len() == s.len(),
    decreases s.len(),
{
    if s.len() > 0 {
        lemma_view_json_seq_len(s.subrange(1, s.len() as int));
    }
}

/// `view_entry_seq` agrees with pointwise views.
pub proof fn lemma_view_entry_seq_index(s: Seq<(String, JsonValue)>, i: int)
    requires
        0 <= i < s.len(),
    ensures
        view_entry_seq(s).len() == s.len(),
        view_entry_seq(s)[i] == (s[i].0@, view_json(s[i].1)),
    decreases s.len(),
{
    lemma_view_entry_seq_len(s);
    if i > 0 {
        lemma_view_entry_seq_index(s.subrange(1, s.len() as int), i - 1);
    }
}

pub proof fn lemma_view_entry_seq_len(s: Seq<(String, JsonValue)>)
    ensures
        view_entry_seq(s).len() == s.len(),
    decreases s.len(),
{
    if s.len() > 0 {
        lemma_view_entry_seq_len(s.subrange(1, s.len() as int));
    }
}

/// Appending one element extends the model by its view.
pub proof fn lemma_view_entry_seq_push(s: Seq<(String, JsonValue)>, e: (String, JsonValue))
    ensures
        view_entry_seq(s.push(e)) == view_entry_seq(s).push((e.0@, view_json(e.1))),
{
    lemma_view_entry_seq_len(s);
    lemma_view_entry_seq_len(s.push(e));
    assert forall|i: int| 0 <= i < s.len() + 1 implies view_entry_seq(s.push(e))[i]
        == view_entry_seq(s).push((e.0@, view_json(e.1)))[i] by {
        lemma_view_entry_seq_index(s.push(e), i);
        if i < s.len() {
            lemma_view_entry_seq_index(s, i);
            assert(s.push(e)[i] == s[i]);
        }
    }
    assert(view_entry_seq(s.push(e)) =~= view_entry_seq(s).push((e.0@, view_json(e.1))));
}

/// Same for plain value sequences.
pub proof fn lemma_view_json_seq_push(s: Seq<JsonValue>, e: JsonValue)
    ensures
        view_json_seq(s.push(e)) == view_json_seq(s).push(view_json(e)),
{
    lemma_view_json_seq_len(s);
    lemma_view_json_seq_len(s.push(e));
    assert forall|i: int| 0 <= i < s.len() + 1 implies view_json_seq(s.push(e))[i]
        == view_json_seq(s).push(view_json(e))[i] by {
        lemma_view_json_seq_index(s.push(e), i);
        if i < s.len() {
            lemma_view_json_seq_index(s, i);
            assert(s.push(e)[i] == s[i]);
        }
    }
    assert(view_json_seq(s.push(e)) =~= view_json_seq(s).push(view_json(e)));
}

impl JsonValue {
    /// A structural copy: the copy has the same model as the original.
    pub fn deep_clone(&self) -> (r: JsonValue)
        ensures
            view_json(r) == view_json(*self),
        decreases *self,
    {
        match self {
            JsonValue::Null => JsonValue::Null,
            JsonValue::Bool(b) => JsonValue::Bool(*b),
            JsonValue::Int(i) => JsonValue::Int(*i),
            JsonValue::Str(s) => JsonValue::Str(s.clone()),
            JsonValue::Arr(es) => {
                let mut out: Vec<JsonValue> = Vec::new();
                let mut i: usize = 0;
                while i < es.len()
                    invariant
                        *self == JsonValue::Arr(*es),
                        i <= es@.len(),
                        view_json_seq(out@) == view_json_seq(es@.take(i as int)),
                    decreases es@.len() - i,
                {
                    proof {
                        assert(decreases_to!(*self => self->Arr_0));
                        assert(self->Arr_0 == *es);
                        assert(decreases_to!(*es => es@));
                        assert(decreases_to!(es@ => es@[i as int]));
                        assert(decreases_to!(*self => es@[i as int]));
                    }
                    let c = es[i].deep_clone();
                    proof {
                        lemma_view_json_seq_push(out@, c);
                        lemma_view_json_seq_take_push(es@, i as int);
                    }
                    out.push(c);
                    i = i + 1;
                }
                proof {
                    assert(es@.take(es@.len() as int) =~= es@);
                }
                JsonValue::Arr(out)
            },
            JsonValue::Obj(es) => {
                let mut out: Vec<(String, JsonValue)> = Vec::new();
                let mut i: usize = 0;
                while i < es.len()
                    invariant
                        *self == JsonValue::Obj(*es),
                        i <= es@.len(),
                        view_entry_seq(out@) == view_entry_seq(es@.take(i as int)),
                    decreases es@.len() - i,
                {
                    proof {
                        assert(decreases_to!(*self => self->Obj_0));
                        assert(self->Obj_0 == *es);
                        assert(decreases_to!(*es => es@));
                        assert(decreases_to!(es@ => es@[i as int]));
                        assert(decreases_to!(es@[i as int] => es@[i as int].1));
                        assert(decreases_to!(*self => es@[i as int].1));
                    }
                    let k = es[i].0.clone();
                    let v = es[i].1.deep_clone();
                    proof {
                        lemma_view_entry_seq_push(out@, (k, v));
                        lemma_view_entry_seq_take_push_pair(es@, i as int);
                    }
                    out.push((k, v));
                    i = i + 1;
                }
                proof {
                    assert(es@.take(es@.len() as int) =~= es@);
                }
                JsonValue::Obj(out)
            },
        }
    }
}

/// Views of a prefix grow one element at a time.
pub proof fn lemma_view_json_seq_take_push(s: Seq<JsonValue>, i: int)
    requires
        0 <= i < s.len(),
    ensures
        view_json_seq(s.take(i + 1)) == view_json_seq(s.take(i)).push(view_json(s[i])),
{
    assert(s.take(i + 1) =~= s.take(i).push(s[i]));
    lemma_view_json_seq_push(s.take(i), s[i]);
}

pub proof fn lemma_view_entry_seq_take_push_pair(s: Seq<(String, JsonValue)>, i: int)
    requires
        0 <= i < s.len(),
    ensures
        view_entry_seq(s.take(i + 1)) == view_entry_seq(s.take(i)).push((s[i].0@, view_json(
            s[i].1,
        ))),
{
    assert(s.take(i + 1) =~= s.take(i).push(s[i]));
    lemma_view_entry_seq_push(s.take(i), s[i]);
}

impl ObjectMeta {
    /// A structural copy: the copy has the same model as the original.
    pub fn deep_clone(&self) -> (r: ObjectMeta)
        ensures
            view_meta(r) == view_meta(*self),
    {
        let name = clone_opt_string(&self.name);
        let namespace = clone_opt_string(&self.namespace);
        let resource_version = clone_opt_string(&self.resource_version);
        let mut labels: Vec<(String, String)> = Vec::new();
        let mut i: usize = 0;
        while i < self.labels.len()
            invariant
                i <= self.labels@.len(),
                view_label_seq(labels@) == view_label_seq(self.labels@.take(i as int)),
            decreases self.labels@.len() - i,
        {
            let k = self.labels[i].0.clone();
            let v = self.labels[i].1.clone();
            proof {
                lemma_view_label_seq_push(labels@, (k, v));
                assert(self.labels@.take(i as int + 1) =~= self.labels@.take(i as int).push(
                    self.labels@[i as int],
                ));
                lemma_view_label_seq_push(self.labels@.take(i as int), self.labels@[i as int]);
            }
            labels.push((k, v));
            i = i + 1;
        }
        proof {
            assert(self.labels@.take(self.labels@.len() as int) =~= self.labels@);
        }
        ObjectMeta { name, namespace, resource_version, labels }
    }
}

impl DynamicObject {
    /// A structural copy: the copy has the same model as the original.
    pub fn deep_clone(&self) -> (r: DynamicObject)
        ensures
            view_dyn(r) == view_dyn(*self),
    {
        let types = match &self.types {
            Some(t) => Some(
                TypeMeta { api_version: t.api_version.clone(), kind: t.kind.clone() },
            ),
            None => None,
        };
        let metadata = self.metadata.deep_clone();
        let mut data: Vec<(String, JsonValue)> = Vec::new();
        let mut i: usize = 0;
        while i < self.data.len()
            invariant
                i <= self.data@.len(),
                view_entry_seq(data@) == view_entry_seq(self.data@.take(i as int)),
            decreases self.data@.len() - i,
        {
            let k = self.data[i].0.clone();
            let v = self.data[i].1.deep_clone();
            proof {
                lemma_view_entry_seq_push(data@, (k, v));
                lemma_view_entry_seq_take_push_pair(self.data@, i as int);
            }
            data.push((k, v));
            i = i + 1;
        }
        proof {
            assert(self.data@.take(self.data@.len() as int) =~= self.data@);
        }
        DynamicObject { types, metadata, data }
    }
}

/// Copy an optional string, preserving its model.
pub fn clone_opt_string(o: &Option<String>) -> (r: Option<String>)
    ensures
        view_opt_string(r) == view_opt_string(*o),
{
    match o {
        Some(s) => Some(s.clone()),
        None => None,
    }
}

} // verus!
