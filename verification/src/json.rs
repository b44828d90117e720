//! The JSON values that replies and events are made of.
use crate::text::same_text;
use vstd::prelude::*;

verus! {

/// A JSON value. A number is kept as it is written; the fields of an object
/// are kept in the order they were added.
#[derive(Debug)]
pub enum Json {
    Null,
    Bool(bool),
    Number(String),
    Text(String),
    List(Vec<Json>),
    Object(Vec<(String, Json)>),
}

#[verifier::ext_equal]
pub enum JsonV {
    Null,
    Bool(bool),
    Number(Seq<char>),
    Text(Seq<char>),
    List(Seq<JsonV>),
    Object(Seq<(Seq<char>, JsonV)>),
}

/// The value a JSON tree stands for.
pub open spec fn json_value(j: Json) -> JsonV
    decreases j,
{
    match j {
        Json::Null => JsonV::Null,
        Json::Bool(b) => JsonV::Bool(b),
        Json::Number(n) => JsonV::Number(n@),
        Json::Text(t) => JsonV::Text(t@),
        Json::List(items) => JsonV::List(list_value(items@)),
        Json::Object(fields) => JsonV::Object(fields_value(fields@)),
    }
}

pub open spec fn list_value(items: Seq<Json>) -> Seq<JsonV>
    decreases items,
{
    Seq::new(
        items.len(),
        |i: int|
            if 0 <= i < items.len() {
                json_value(items[i])
            } else {
                arbitrary()
            },
    )
}

pub open spec fn fields_value(fields: Seq<(String, Json)>) -> Seq<(Seq<char>, JsonV)>
    decreases fields,
{
    Seq::new(
        fields.len(),
        |i: int|
            if 0 <= i < fields.len() {
                (fields[i].0@, json_value(fields[i].1))
            } else {
                arbitrary()
            },
    )
}

impl View for Json {
    type V = JsonV;

    open spec fn view(&self) -> JsonV {
        json_value(*self)
    }
}

impl Json {
    /// A copy of the value.
    pub fn copy(&self) -> (r: Json)
        ensures
            r@ == self@,
            r is Object == *self is Object,
        decreases self,
    {
        match self {
            Json::Null => Json::Null,
            Json::Bool(b) => Json::Bool(*b),
            Json::Number(n) => Json::Number(n.clone()),
            Json::Text(t) => Json::Text(t.clone()),
            Json::List(items) => {
                let mut out: Vec<Json> = Vec::new();
                let mut i: usize = 0;
                while i < items.len()
                    invariant
                        *self == Json::List(*items),
                        i <= items@.len(),
                        out@.len() == i,
                        forall|j: int| 0 <= j < i ==> (#[trigger] out@[j])@ == items@[j]@,
                    decreases items@.len() - i,
                {
                    assert(decreases_to!(*self => (*self)->List_0@[i as int]));
                    out.push(items[i].copy());
                    i = i + 1;
                }
                assert forall|j: int| 0 <= j < out@.len() implies list_value(out@)[j] == list_value(
                    items@,
                )[j] by {
                    assert(out@[j]@ == items@[j]@);
                }
                assert(list_value(out@) =~= list_value(items@));
                Json::List(out)
            },
            Json::Object(fields) => {
                let mut out: Vec<(String, Json)> = Vec::new();
                let mut i: usize = 0;
                while i < fields.len()
                    invariant
                        *self == Json::Object(*fields),
                        i <= fields@.len(),
                        out@.len() == i,
                        forall|j: int|
                            0 <= j < i ==> (#[trigger] out@[j]).0@ == fields@[j].0@ && out@[j].1@
                                == fields@[j].1@,
                    decreases fields@.len() - i,
                {
                    assert(decreases_to!(*self => (*self)->Object_0@[i as int].1));
                    out.push((fields[i].0.clone(), fields[i].1.copy()));
                    i = i + 1;
                }
                assert forall|j: int| 0 <= j < out@.len() implies fields_value(out@)[j]
                    == fields_value(fields@)[j] by {
                    assert(out@[j].1@ == fields@[j].1@);
                }
                assert(fields_value(out@) =~= fields_value(fields@));
                Json::Object(out)
            },
        }
    }
}

/// A text value.
pub fn text(s: &str) -> (r: Json)
    ensures
        r@ == JsonV::Text(s@),
{
    Json::Text(s.to_owned())
}

/// A text value, or null.
pub fn text_or_null(s: &Option<String>) -> (r: Json)
    ensures
        r@ == opt_text(s.deep_view()),
{
    match s {
        Some(t) => Json::Text(t.clone()),
        None => Json::Null,
    }
}

/// A text value, or null.
pub open spec fn opt_text(s: Option<Seq<char>>) -> JsonV {
    match s {
        Some(t) => JsonV::Text(t),
        None => JsonV::Null,
    }
}

/// A list of text values.
pub open spec fn text_list(items: Seq<Seq<char>>) -> JsonV {
    JsonV::List(items.map_values(|t: Seq<char>| JsonV::Text(t)))
}

/// A list of text values.
pub fn texts(items: &Vec<String>) -> (r: Json)
    ensures
        r@ == text_list(items.deep_view()),
{
    let mut out: Vec<Json> = Vec::new();
    let mut i: usize = 0;
    while i < items.len()
        invariant
            i <= items@.len(),
            out@.len() == i,
            forall|j: int| 0 <= j < i ==> #[trigger] out@[j]@ == JsonV::Text(items@[j]@),
        decreases items@.len() - i,
    {
        out.push(Json::Text(items[i].clone()));
        i = i + 1;
    }
    let ghost want = items.deep_view().map_values(|t: Seq<char>| JsonV::Text(t));
    assert forall|j: int| 0 <= j < out@.len() implies list_value(out@)[j] == want[j] by {
        assert(out@[j]@ == JsonV::Text(items@[j]@));
    }
    assert(list_value(out@) =~= want);
    Json::List(out)
}

/// An object with one field.
pub open spec fn obj1(
    n1: Seq<char>,
    v1: JsonV,
) -> JsonV {
    JsonV::Object(Seq::empty().push((n1, v1)))
}

/// An object with two fields.
pub open spec fn obj2(
    n1: Seq<char>,
    v1: JsonV,
    n2: Seq<char>,
    v2: JsonV,
) -> JsonV {
    JsonV::Object(Seq::empty().push((n1, v1)).push((n2, v2)))
}

/// An object with three fields.
pub open spec fn obj3(
    n1: Seq<char>,
    v1: JsonV,
    n2: Seq<char>,
    v2: JsonV,
    n3: Seq<char>,
    v3: JsonV,
) -> JsonV {
    JsonV::Object(Seq::empty().push((n1, v1)).push((n2, v2)).push((n3, v3)))
}

/// An object with four fields.
pub open spec fn obj4(
    n1: Seq<char>,
    v1: JsonV,
    n2: Seq<char>,
    v2: JsonV,
    n3: Seq<char>,
    v3: JsonV,
    n4: Seq<char>,
    v4: JsonV,
) -> JsonV {
    JsonV::Object(Seq::empty().push((n1, v1)).push((n2, v2)).push((n3, v3)).push((n4, v4)))
}

/// An object with five fields.
pub open spec fn obj5(
    n1: Seq<char>,
    v1: JsonV,
    n2: Seq<char>,
    v2: JsonV,
    n3: Seq<char>,
    v3: JsonV,
    n4: Seq<char>,
    v4: JsonV,
    n5: Seq<char>,
    v5: JsonV,
) -> JsonV {
    JsonV::Object(Seq::empty().push((n1, v1)).push((n2, v2)).push((n3, v3)).push((n4, v4)).push((n5, v5)))
}

/// Some field is called `name`.
pub open spec fn has_field(fields: Seq<(Seq<char>, JsonV)>, name: Seq<char>) -> bool {
    exists|i: int| 0 <= i < fields.len() && (#[trigger] fields[i]).0 == name
}

/// Position `i` is the first field called `name`.
pub open spec fn is_first_field(
    fields: Seq<(Seq<char>, JsonV)>,
    name: Seq<char>,
    i: int,
) -> bool {
    &&& 0 <= i < fields.len()
    &&& fields[i].0 == name
    &&& forall|j: int| 0 <= j < i ==> (#[trigger] fields[j]).0 != name
}

/// The first field called `name`.
pub open spec fn first_field(fields: Seq<(Seq<char>, JsonV)>, name: Seq<char>) -> int {
    choose|i: int| is_first_field(fields, name, i)
}

/// The fields with `name` set to `value`.
pub open spec fn set_field(
    fields: Seq<(Seq<char>, JsonV)>,
    name: Seq<char>,
    value: JsonV,
) -> Seq<(Seq<char>, JsonV)> {
    if has_field(fields, name) {
        fields.update(first_field(fields, name), (name, value))
    } else {
        fields.push((name, value))
    }
}

proof fn lemma_first_field(fields: Seq<(Seq<char>, JsonV)>, name: Seq<char>, i: int)
    requires
        0 <= i < fields.len(),
        fields[i].0 == name,
        forall|j: int| 0 <= j < i ==> fields[j].0 != name,
    ensures
        first_field(fields, name) == i,
        has_field(fields, name),
{
    assert(is_first_field(fields, name, i));
    let k = first_field(fields, name);
    assert(is_first_field(fields, name, k));
    if k < i {
        assert(fields[k].0 == name);
    } else if k > i {
        assert(fields[i].0 != name);
    }
}

/// The fields of an object under construction.
pub struct Fields {
    list: Vec<(String, Json)>,
}

impl View for Fields {
    type V = Seq<(Seq<char>, JsonV)>;

    closed spec fn view(&self) -> Seq<(Seq<char>, JsonV)> {
        fields_value(self.list@)
    }
}

impl Fields {
    /// No fields.
    pub fn new() -> (r: Self)
        ensures
            r@ == Seq::<(Seq<char>, JsonV)>::empty(),
    {
        let r = Fields { list: Vec::new() };
        assert(r@ =~= Seq::empty());
        r
    }

    /// The fields of an existing object.
    pub fn of(list: Vec<(String, Json)>) -> (r: Self)
        ensures
            r@ == fields_value(list@),
    {
        Fields { list }
    }

    /// One more field, after the others.
    pub fn with(self, name: &str, value: Json) -> (r: Self)
        ensures
            r@ == self@.push((name@, value@)),
    {
        let ghost before = self@;
        let mut list = self.list;
        list.push((name.to_owned(), value));
        let r = Fields { list };
        assert(r@ =~= before.push((name@, value@)));
        r
    }

    /// The fields with `name` set to `value`: replaced where it is there,
    /// added after the others where it is not.
    pub fn set(self, name: &str, value: Json) -> (r: Self)
        ensures
            r@ == set_field(self@, name@, value@),
    {
        let ghost before = self@;
        let mut list = self.list;
        let ghost all = list@;
        let mut i: usize = 0;
        while i < list.len()
            invariant
                list@ == all,
                before == self@,
                before == fields_value(all),
                i <= all.len(),
                forall|j: int| 0 <= j < i ==> before[j].0 != name@,
            decreases all.len() - i,
        {
            if same_text(list[i].0.as_str(), name) {
                proof {
                    assert(before[i as int].0 == name@);
                    let k = first_field(before, name@);
                    assert(k == i) by {
                        lemma_first_field(before, name@, i as int);
                    }
                }
                list.set(i, (name.to_owned(), value));
                let r = Fields { list };
                assert(r@ =~= before.update(i as int, (name@, value@)));
                return r;
            }
            i = i + 1;
        }
        assert(!has_field(before, name@)) by {
            if has_field(before, name@) {
                let j = choose|j: int| 0 <= j < before.len() && (#[trigger] before[j]).0 == name@;
                assert(false);
            }
        }
        list.push((name.to_owned(), value));
        let r = Fields { list };
        assert(r@ =~= before.push((name@, value@)));
        r
    }

    /// The object with these fields.
    pub fn object(self) -> (r: Json)
        ensures
            r@ == JsonV::Object(self@),
            r is Object,
    {
        Json::Object(self.list)
    }
}

/// The value of a tree: each leaf is what it holds, and the parts of a list or
/// an object keep their number, their order and their names.
pub proof fn law_a_tree_is_seen_by_its_parts(j: Json, i: int)
    ensures
        j is Null ==> j@ == JsonV::Null,
        j matches Json::Bool(b) ==> j@ == JsonV::Bool(b),
        j matches Json::Number(n) ==> j@ == JsonV::Number(n@),
        j matches Json::Text(t) ==> j@ == JsonV::Text(t@),
        j matches Json::List(items) ==> j@ is List && j@->List_0.len() == items@.len() && (0 <= i
            < items@.len() ==> j@->List_0[i] == items@[i]@),
        j matches Json::Object(fields) ==> j@ is Object && j@->Object_0.len() == fields@.len() && (
        0 <= i < fields@.len() ==> j@->Object_0[i].0 == fields@[i].0@ && j@->Object_0[i].1
            == fields@[i].1@),
{
}

/// An object has the fields it was given, in that order.
pub proof fn law_objects_keep_their_fields(
    n: Seq<Seq<char>>,
    v: Seq<JsonV>,
)
    requires
        n.len() == 5,
        v.len() == 5,
    ensures
        obj1(n[0], v[0]) == JsonV::Object(Seq::new(1, |i: int| (n[i], v[i]))),
        obj2(n[0], v[0], n[1], v[1]) == JsonV::Object(Seq::new(2, |i: int| (n[i], v[i]))),
        obj3(n[0], v[0], n[1], v[1], n[2], v[2]) == JsonV::Object(
            Seq::new(3, |i: int| (n[i], v[i])),
        ),
        obj4(n[0], v[0], n[1], v[1], n[2], v[2], n[3], v[3]) == JsonV::Object(
            Seq::new(4, |i: int| (n[i], v[i])),
        ),
        obj5(n[0], v[0], n[1], v[1], n[2], v[2], n[3], v[3], n[4], v[4]) == JsonV::Object(
            Seq::new(5, |i: int| (n[i], v[i])),
        ),
{
    assert(obj1(n[0], v[0])->Object_0 =~= Seq::new(1, |i: int| (n[i], v[i])));
    assert(obj2(n[0], v[0], n[1], v[1])->Object_0 =~= Seq::new(2, |i: int| (n[i], v[i])));
    assert(obj3(n[0], v[0], n[1], v[1], n[2], v[2])->Object_0 =~= Seq::new(
        3,
        |i: int| (n[i], v[i]),
    ));
    assert(obj4(n[0], v[0], n[1], v[1], n[2], v[2], n[3], v[3])->Object_0 =~= Seq::new(
        4,
        |i: int| (n[i], v[i]),
    ));
    assert(obj5(n[0], v[0], n[1], v[1], n[2], v[2], n[3], v[3], n[4], v[4])->Object_0 =~= Seq::new(
        5,
        |i: int| (n[i], v[i]),
    ));
}

/// Setting a field changes that field alone: every other field keeps its place
/// and value, the first field of the name gets the value, and a name that was
/// not there is added at the end.
pub proof fn law_setting_a_field_changes_it_alone(
    fields: Seq<(Seq<char>, JsonV)>,
    name: Seq<char>,
    value: JsonV,
    i: int,
)
    ensures
        (forall|j: int| 0 <= j < fields.len() ==> (#[trigger] fields[j]).0 != name) ==> set_field(
            fields,
            name,
            value,
        ) == fields.push((name, value)),
        0 <= i < fields.len() && fields[i].0 == name && (forall|j: int|
            0 <= j < i ==> (#[trigger] fields[j]).0 != name) ==> set_field(fields, name, value)
            == fields.update(i, (name, value)),
{
    if 0 <= i < fields.len() && fields[i].0 == name && (forall|j: int|
        0 <= j < i ==> (#[trigger] fields[j]).0 != name) {
        lemma_first_field(fields, name, i);
    }
}

/// A list of texts has one text value for each text, in order, and a missing
/// text is null.
pub proof fn law_texts_become_text_values(items: Seq<Seq<char>>, i: int)
    ensures
        text_list(items) is List,
        text_list(items)->List_0.len() == items.len(),
        0 <= i < items.len() ==> text_list(items)->List_0[i] == JsonV::Text(items[i]),
        0 <= i < items.len() ==> opt_text(Some(items[i])) == JsonV::Text(items[i]),
        opt_text(None) == JsonV::Null,
{
}

} // verus!
