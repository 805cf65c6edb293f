use vstd::prelude::*;

verus! {

/// Mathematical model of a structured value: what a [`JsonValue`] denotes.
#[verifier::ext_equal]
pub enum JsonV {
    Null,
    Bool(bool),
    Int(int),
    Str(Seq<char>),
    Arr(Seq<JsonV>),
    Obj(Seq<(Seq<char>, JsonV)>),
}

/// A JSON-like structured value: the universal payload currency for step
/// arguments, step outputs, tool schemas, memory records and bus messages.
/// Numbers are integral; object fields keep their insertion order.
#[derive(Debug, PartialEq, Eq)]
pub enum JsonValue {
    Null,
    Bool(bool),
    Int(i64),
    Str(String),
    Arr(Vec<JsonValue>),
    Obj(Vec<(String, JsonValue)>),
}

pub open spec fn jv_view(v: JsonValue) -> JsonV
    decreases v,
{
    match v {
        JsonValue::Null => JsonV::Null,
        JsonValue::Bool(b) => JsonV::Bool(b),
        JsonValue::Int(i) => JsonV::Int(i as int),
        JsonValue::Str(s) => JsonV::Str(s@),
        JsonValue::Arr(a) => {
            proof {
                assert(decreases_to!(v => v->Arr_0));
            }
            JsonV::Arr(jv_seq_view(a@))
        },
        JsonValue::Obj(o) => {
            proof {
                assert(decreases_to!(v => v->Obj_0));
            }
            JsonV::Obj(jv_obj_view(o@))
        },
    }
}

pub open spec fn jv_seq_view(s: Seq<JsonValue>) -> Seq<JsonV>
    decreases s,
{
    if s.len() == 0 {
        Seq::empty()
    } else {
        jv_seq_view(s.subrange(0, s.len() - 1)).push(jv_view(s[s.len() - 1]))
    }
}

pub open spec fn jv_obj_view(s: Seq<(String, JsonValue)>) -> Seq<(Seq<char>, JsonV)>
    decreases s,
{
    if s.len() == 0 {
        Seq::empty()
    } else {
        jv_obj_view(s.subrange(0, s.len() - 1)).push(
            (s[s.len() - 1].0@, jv_view(s[s.len() - 1].1)),
        )
    }
}

impl View for JsonValue {
    type V = JsonV;

    open spec fn view(&self) -> JsonV {
        jv_view(*self)
    }
}

/// The sequence view is pointwise: element `i` denotes the view of element `i`.
pub proof fn lemma_jv_seq_view(s: Seq<JsonValue>)
    ensures
        jv_seq_view(s).len() == s.len(),
        forall|i: int| 0 <= i < s.len() ==> jv_seq_view(s)[i] == jv_view(s[i]),
    decreases s.len(),
{
    if s.len() > 0 {
        lemma_jv_seq_view(s.subrange(0, s.len() - 1));
        assert forall|i: int| 0 <= i < s.len() implies jv_seq_view(s)[i] == jv_view(s[i]) by {
            if i < s.len() - 1 {
                assert(s.subrange(0, s.len() - 1)[i] == s[i]);
            }
        }
    }
}

/// The object view is pointwise over keys and values alike.
pub proof fn lemma_jv_obj_view(s: Seq<(String, JsonValue)>)
    ensures
        jv_obj_view(s).len() == s.len(),
        forall|i: int|
            0 <= i < s.len() ==> jv_obj_view(s)[i] == (s[i].0@, jv_view(s[i].1)),
    decreases s.len(),
{
    if s.len() > 0 {
        lemma_jv_obj_view(s.subrange(0, s.len() - 1));
        assert forall|i: int|
            0 <= i < s.len() implies jv_obj_view(s)[i] == (s[i].0@, jv_view(s[i].1)) by {
            if i < s.len() - 1 {
                assert(s.subrange(0, s.len() - 1)[i] == s[i]);
            }
        }
    }
}

impl JsonValue {
    /// A deep copy; steps and outcomes are copied by value, never shared.
    pub fn duplicate(&self) -> (r: Self)
        ensures
            r@ == self@,
        decreases *self,
    {
        match self {
            JsonValue::Null => JsonValue::Null,
            JsonValue::Bool(b) => JsonValue::Bool(*b),
            JsonValue::Int(i) => JsonValue::Int(*i),
            JsonValue::Str(s) => JsonValue::Str(s.clone()),
            JsonValue::Arr(v) => {
                let out = duplicate_arr(v);
                proof {
                    lemma_jv_seq_view(out@);
                    lemma_jv_seq_view(v@);
                    assert(jv_seq_view(out@) =~= jv_seq_view(v@));
                }
                JsonValue::Arr(out)
            },
            JsonValue::Obj(v) => {
                let out = duplicate_obj(v);
                proof {
                    lemma_jv_obj_view(out@);
                    lemma_jv_obj_view(v@);
                    assert(jv_obj_view(out@) =~= jv_obj_view(v@));
                }
                JsonValue::Obj(out)
            },
        }
    }
}

/// What looking a key up in an object denotes: the first field with that
/// name, from the front; nothing on any value that is not an object.
pub open spec fn jv_lookup(v: JsonV, key: Seq<char>) -> Option<JsonV> {
    match v {
        JsonV::Obj(fields) => jv_fields_lookup(fields, key),
        _ => None,
    }
}

pub open spec fn jv_fields_lookup(fields: Seq<(Seq<char>, JsonV)>, key: Seq<char>) -> Option<
    JsonV,
>
    decreases fields.len(),
{
    if fields.len() == 0 {
        None
    } else if fields[0].0 == key {
        Some(fields[0].1)
    } else {
        jv_fields_lookup(fields.drop_first(), key)
    }
}

impl JsonValue {
    /// The field named `key`, if this value is an object that has one.
    pub fn get(&self, key: &str) -> (r: Option<&JsonValue>)
        ensures
            match r {
                Some(f) => jv_lookup(self@, key@) == Some(f@),
                None => jv_lookup(self@, key@) is None,
            },
    {
        match self {
            JsonValue::Obj(fields) => {
                let mut i: usize = 0;
                proof {
                    lemma_jv_obj_view(fields@);
                    assert(jv_obj_view(fields@).skip(0) == jv_obj_view(fields@));
                }
                loop
                    invariant
                        i <= fields@.len(),
                        self@ == JsonV::Obj(jv_obj_view(fields@)),
                        jv_obj_view(fields@).len() == fields@.len(),
                        forall|j: int|
                            0 <= j < fields@.len() ==> #[trigger] jv_obj_view(fields@)[j] == (
                            fields@[j].0@,
                            jv_view(fields@[j].1),
                            ),
                        jv_fields_lookup(jv_obj_view(fields@), key@) == jv_fields_lookup(
                            jv_obj_view(fields@).skip(i as int),
                            key@,
                        ),
                    decreases fields@.len() - i,
                {
                    if i == fields.len() {
                        proof {
                            assert(jv_obj_view(fields@).skip(i as int).len() == 0);
                        }
                        return None;
                    }
                    let ghost gv = jv_obj_view(fields@);
                    proof {
                        assert(gv.skip(i as int)[0] == gv[i as int]);
                    }
                    if crate::text::str_eq(fields[i].0.as_str(), key) {
                        return Some(&fields[i].1);
                    }
                    proof {
                        assert(gv.skip(i as int).drop_first() =~= gv.skip(i as int + 1));
                    }
                    i = i + 1;
                }
            },
            _ => None,
        }
    }

    /// The borrowed text of a string value.
    pub fn as_str(&self) -> (r: Option<&str>)
        ensures
            match r {
                Some(s) => self@ == JsonV::Str(s@),
                None => !(self@ is Str),
            },
    {
        match self {
            JsonValue::Str(s) => Some(s.as_str()),
            _ => None,
        }
    }

    /// The integral value of a number.
    pub fn as_int(&self) -> (r: Option<i64>)
        ensures
            match r {
                Some(n) => self@ == JsonV::Int(n as int),
                None => !(self@ is Int),
            },
    {
        match self {
            JsonValue::Int(n) => Some(*n),
            _ => None,
        }
    }

    pub fn is_object(&self) -> (r: bool)
        ensures
            r == (self@ is Obj),
    {
        matches!(self, JsonValue::Obj(_))
    }

    pub fn is_array(&self) -> (r: bool)
        ensures
            r == (self@ is Arr),
    {
        matches!(self, JsonValue::Arr(_))
    }

    /// An object with one field.
    pub fn obj1(k: &str, v: JsonValue) -> (r: JsonValue)
        ensures
            r@ == JsonV::Obj(seq![(k@, v@)]),
    {
        let fields: Vec<(String, JsonValue)> = vec![(k.to_owned(), v)];
        let r = JsonValue::Obj(fields);
        proof {
            lemma_jv_obj_view(r->Obj_0@);
            assert(jv_obj_view(r->Obj_0@) =~= seq![(k@, v@)]);
        }
        r
    }

    /// An object with two fields, in order.
    pub fn obj2(k1: &str, v1: JsonValue, k2: &str, v2: JsonValue) -> (r: JsonValue)
        ensures
            r@ == JsonV::Obj(seq![(k1@, v1@), (k2@, v2@)]),
    {
        let fields: Vec<(String, JsonValue)> = vec![(k1.to_owned(), v1), (k2.to_owned(), v2)];
        let r = JsonValue::Obj(fields);
        proof {
            lemma_jv_obj_view(r->Obj_0@);
            assert(jv_obj_view(r->Obj_0@) =~= seq![(k1@, v1@), (k2@, v2@)]);
        }
        r
    }

    /// A string value owning a copy of the given text.
    pub fn text(s: &str) -> (r: JsonValue)
        ensures
            r@ == JsonV::Str(s@),
    {
        JsonValue::Str(s.to_owned())
    }
}

fn duplicate_arr(v: &Vec<JsonValue>) -> (r: Vec<JsonValue>)
    ensures
        r@.len() == v@.len(),
        forall|j: int| 0 <= j < v@.len() ==> r@[j]@ == v@[j]@,
    decreases v@,
{
    let mut out: Vec<JsonValue> = Vec::new();
    let mut i: usize = 0;
    while i < v.len()
        invariant
            i <= v.len(),
            out@.len() == i as int,
            forall|j: int| 0 <= j < i as int ==> out@[j]@ == v@[j]@,
        decreases v.len() - i,
    {
        out.push(v[i].duplicate());
        i = i + 1;
    }
    out
}

fn duplicate_obj(v: &Vec<(String, JsonValue)>) -> (r: Vec<(String, JsonValue)>)
    ensures
        r@.len() == v@.len(),
        forall|j: int| 0 <= j < v@.len() ==> r@[j].0@ == v@[j].0@ && r@[j].1@ == v@[j].1@,
    decreases v@,
{
    let mut out: Vec<(String, JsonValue)> = Vec::new();
    let mut i: usize = 0;
    while i < v.len()
        invariant
            i <= v.len(),
            out@.len() == i as int,
            forall|j: int| 0 <= j < i as int ==> out@[j].0@ == v@[j].0@ && out@[j].1@ == v@[j].1@,
        decreases v.len() - i,
    {
        let pair = &v[i];
        out.push((pair.0.clone(), pair.1.duplicate()));
        i = i + 1;
    }
    out
}

/// The decimal text of an integer, with a leading minus when negative.
pub open spec fn int_text(i: int) -> Seq<char> {
    if i < 0 {
        seq!['-'] + crate::text::dec_rep((-i) as nat)
    } else {
        crate::text::dec_rep(i as nat)
    }
}

/// The compact textual rendering of a value. String contents appear
/// verbatim between their quotes: the rendering exists to be searched,
/// not to be parsed back.
pub open spec fn jv_text(v: JsonV) -> Seq<char>
    decreases v,
{
    match v {
        JsonV::Null => "null"@,
        JsonV::Bool(b) => if b {
            "true"@
        } else {
            "false"@
        },
        JsonV::Int(i) => int_text(i),
        JsonV::Str(s) => seq!['"'] + s + seq!['"'],
        JsonV::Arr(es) => "["@ + jv_text_list(es) + "]"@,
        JsonV::Obj(fs) => "{"@ + jv_text_fields(fs) + "}"@,
    }
}

pub open spec fn jv_text_list(es: Seq<JsonV>) -> Seq<char>
    decreases es,
{
    if es.len() == 0 {
        Seq::empty()
    } else {
        jv_text(es[0]) + jv_text_rest(es.drop_first())
    }
}

pub open spec fn jv_text_rest(es: Seq<JsonV>) -> Seq<char>
    decreases es,
{
    if es.len() == 0 {
        Seq::empty()
    } else {
        seq![','] + jv_text(es[0]) + jv_text_rest(es.drop_first())
    }
}

pub open spec fn jv_field_text(f: (Seq<char>, JsonV)) -> Seq<char>
    decreases f,
{
    seq!['"'] + f.0 + seq!['"'] + seq![':'] + jv_text(f.1)
}

pub open spec fn jv_text_fields(fs: Seq<(Seq<char>, JsonV)>) -> Seq<char>
    decreases fs,
{
    if fs.len() == 0 {
        Seq::empty()
    } else {
        jv_field_text(fs[0]) + jv_text_fields_rest(fs.drop_first())
    }
}

pub open spec fn jv_text_fields_rest(fs: Seq<(Seq<char>, JsonV)>) -> Seq<char>
    decreases fs,
{
    if fs.len() == 0 {
        Seq::empty()
    } else {
        seq![','] + jv_field_text(fs[0]) + jv_text_fields_rest(fs.drop_first())
    }
}

proof fn lemma_rest_snoc(es: Seq<JsonV>, x: JsonV)
    ensures
        jv_text_rest(es.push(x)) == jv_text_rest(es) + seq![','] + jv_text(x),
    decreases es.len(),
{
    if es.len() == 0 {
        assert(es.push(x).drop_first() =~= Seq::<JsonV>::empty());
        assert(es.push(x)[0] == x);
        assert(jv_text_rest(es) == Seq::<char>::empty());
        assert(jv_text_rest(es.push(x)) == seq![','] + jv_text(x) + jv_text_rest(
            es.push(x).drop_first(),
        ));
        assert(jv_text_rest(es.push(x).drop_first()) == Seq::<char>::empty());
        assert(jv_text_rest(es.push(x)) =~= jv_text_rest(es) + seq![','] + jv_text(x));
    } else {
        assert(es.push(x).drop_first() =~= es.drop_first().push(x));
        lemma_rest_snoc(es.drop_first(), x);
        assert(jv_text_rest(es.push(x)) =~= jv_text_rest(es) + seq![','] + jv_text(x));
    }
}

proof fn lemma_list_snoc(es: Seq<JsonV>, x: JsonV)
    ensures
        jv_text_list(es.push(x)) == if es.len() == 0 {
            jv_text(x)
        } else {
            jv_text_list(es) + seq![','] + jv_text(x)
        },
{
    if es.len() == 0 {
        assert(es.push(x).drop_first() =~= Seq::<JsonV>::empty());
        assert(jv_text_list(es.push(x)) =~= jv_text(x));
    } else {
        assert(es.push(x).drop_first() =~= es.drop_first().push(x));
        lemma_rest_snoc(es.drop_first(), x);
        assert(jv_text_list(es.push(x)) =~= jv_text_list(es) + seq![','] + jv_text(x));
    }
}

proof fn lemma_fields_rest_snoc(fs: Seq<(Seq<char>, JsonV)>, x: (Seq<char>, JsonV))
    ensures
        jv_text_fields_rest(fs.push(x)) == jv_text_fields_rest(fs) + seq![','] + jv_field_text(x),
    decreases fs.len(),
{
    if fs.len() == 0 {
        assert(fs.push(x).drop_first() =~= Seq::<(Seq<char>, JsonV)>::empty());
        assert(fs.push(x)[0] == x);
        assert(jv_text_fields_rest(fs) == Seq::<char>::empty());
        assert(jv_text_fields_rest(fs.push(x)) == seq![','] + jv_field_text(x)
            + jv_text_fields_rest(fs.push(x).drop_first()));
        assert(jv_text_fields_rest(fs.push(x).drop_first()) == Seq::<char>::empty());
        assert(jv_text_fields_rest(fs.push(x)) =~= jv_text_fields_rest(fs) + seq![',']
            + jv_field_text(x));
    } else {
        assert(fs.push(x).drop_first() =~= fs.drop_first().push(x));
        lemma_fields_rest_snoc(fs.drop_first(), x);
        assert(jv_text_fields_rest(fs.push(x)) =~= jv_text_fields_rest(fs) + seq![',']
            + jv_field_text(x));
    }
}

proof fn lemma_fields_snoc(fs: Seq<(Seq<char>, JsonV)>, x: (Seq<char>, JsonV))
    ensures
        jv_text_fields(fs.push(x)) == if fs.len() == 0 {
            jv_field_text(x)
        } else {
            jv_text_fields(fs) + seq![','] + jv_field_text(x)
        },
{
    if fs.len() == 0 {
        assert(fs.push(x).drop_first() =~= Seq::<(Seq<char>, JsonV)>::empty());
        assert(jv_text_fields(fs.push(x)) =~= jv_field_text(x));
    } else {
        assert(fs.push(x).drop_first() =~= fs.drop_first().push(x));
        lemma_fields_rest_snoc(fs.drop_first(), x);
        assert(jv_text_fields(fs.push(x)) =~= jv_text_fields(fs) + seq![','] + jv_field_text(x));
    }
}

impl JsonValue {
    /// Appends the value's textual rendering.
    pub fn append_text(&self, out: &mut String)
        ensures
            final(out)@ == old(out)@ + jv_text(self@),
        decreases *self,
    {
        match self {
            JsonValue::Null => {
                out.push_str("null");
            },
            JsonValue::Bool(b) => {
                if *b {
                    out.push_str("true");
                } else {
                    out.push_str("false");
                }
            },
            JsonValue::Int(i) => {
                let n = *i;
                if n < 0 {
                    out.push('-');
                    let mag: u64 = ((-(n + 1)) as u64) + 1;
                    crate::text::push_u64_dec(out, mag);
                    proof {
                        assert(mag as nat == (-(n as int)) as nat);
                        assert(final(out)@ =~= old(out)@ + int_text(n as int));
                    }
                } else {
                    crate::text::push_u64_dec(out, n as u64);
                }
            },
            JsonValue::Str(s) => {
                out.push('"');
                out.push_str(s.as_str());
                out.push('"');
                proof {
                    assert(final(out)@ =~= old(out)@ + (seq!['"'] + s@ + seq!['"']));
                }
            },
            JsonValue::Arr(v) => {
                out.push('[');
                append_arr_text(v, out);
                out.push(']');
                proof {
                    reveal_strlit("[");
                    reveal_strlit("]");
                    assert(final(out)@ =~= old(out)@ + ("["@ + jv_text_list(jv_seq_view(v@))
                        + "]"@));
                }
            },
            JsonValue::Obj(v) => {
                out.push('{');
                append_obj_text(v, out);
                out.push('}');
                proof {
                    reveal_strlit("{");
                    reveal_strlit("}");
                    assert(final(out)@ =~= old(out)@ + ("{"@ + jv_text_fields(jv_obj_view(v@))
                        + "}"@));
                }
            },
        }
    }

    /// The value's textual rendering.
    pub fn to_text(&self) -> (r: String)
        ensures
            r@ == jv_text(self@),
    {
        let mut out = String::new();
        self.append_text(&mut out);
        proof {
            assert(Seq::<char>::empty() + jv_text(self@) =~= jv_text(self@));
        }
        out
    }
}

fn append_arr_text(v: &Vec<JsonValue>, out: &mut String)
    ensures
        final(out)@ == old(out)@ + jv_text_list(jv_seq_view(v@)),
    decreases v@,
{
    let ghost es = jv_seq_view(v@);
    proof {
        lemma_jv_seq_view(v@);
    }
    let mut i: usize = 0;
    while i < v.len()
        invariant
            i <= v@.len(),
            es == jv_seq_view(v@),
            es.len() == v@.len(),
            forall|j: int| 0 <= j < v@.len() ==> #[trigger] es[j] == jv_view(v@[j]),
            out@ == old(out)@ + jv_text_list(es.take(i as int)),
        decreases v.len() - i,
    {
        if i > 0 {
            out.push(',');
        }
        v[i].append_text(out);
        proof {
            assert(es.take(i as int).push(es[i as int]) =~= es.take(i as int + 1));
            lemma_list_snoc(es.take(i as int), es[i as int]);
            if i == 0 {
                assert(out@ =~= old(out)@ + jv_text_list(es.take(i as int + 1)));
            } else {
                assert(out@ =~= old(out)@ + jv_text_list(es.take(i as int + 1)));
            }
        }
        i = i + 1;
    }
    proof {
        assert(es.take(v@.len() as int) =~= es);
        if v@.len() == 0 {
            assert(out@ =~= old(out)@ + jv_text_list(es));
        }
    }
}

fn append_obj_text(v: &Vec<(String, JsonValue)>, out: &mut String)
    ensures
        final(out)@ == old(out)@ + jv_text_fields(jv_obj_view(v@)),
    decreases v@,
{
    let ghost fs = jv_obj_view(v@);
    proof {
        lemma_jv_obj_view(v@);
    }
    let mut i: usize = 0;
    while i < v.len()
        invariant
            i <= v@.len(),
            fs == jv_obj_view(v@),
            fs.len() == v@.len(),
            forall|j: int|
                0 <= j < v@.len() ==> #[trigger] fs[j] == (v@[j].0@, jv_view(v@[j].1)),
            out@ == old(out)@ + jv_text_fields(fs.take(i as int)),
        decreases v.len() - i,
    {
        if i > 0 {
            out.push(',');
        }
        let ghost mark = out@;
        out.push('"');
        out.push_str(v[i].0.as_str());
        out.push('"');
        out.push(':');
        v[i].1.append_text(out);
        proof {
            assert(out@ =~= mark + jv_field_text(fs[i as int]));
            assert(fs.take(i as int).push(fs[i as int]) =~= fs.take(i as int + 1));
            lemma_fields_snoc(fs.take(i as int), fs[i as int]);
            assert(out@ =~= old(out)@ + jv_text_fields(fs.take(i as int + 1)));
        }
        i = i + 1;
    }
    proof {
        assert(fs.take(v@.len() as int) =~= fs);
        if v@.len() == 0 {
            assert(out@ =~= old(out)@ + jv_text_fields(fs));
        }
    }
}

} // verus!
