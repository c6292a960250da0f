//! JSON values as the binder exchanges them: the value tree, typed reads,
//! writes into objects and arrays, comparison and text rendering.

use vstd::prelude::*;
use crate::error::{AfbError, AfbErrorView, err_view, res_view};
use crate::text::{int_text, hex_char, push_char, push_str, push_i64, digit_char};

verus! {

/// The mathematical content of a JSON value. Object members keep their
/// insertion order; a floating point number is kept as its decimal text.
pub enum Jval {
    Null,
    Bool(bool),
    Int(i64),
    Float(Seq<char>),
    Str(Seq<char>),
    Array(Seq<Jval>),
    Object(Seq<(Seq<char>, Jval)>),
}

/// The type of a JSON value.
#[derive(Debug, Clone, Copy, PartialEq, Eq, Structural)]
pub enum Jtype {
    Array,
    String,
    Bool,
    Int,
    Float,
    Object,
    Null,
    Unknown,
}

/// How much of an expected object a received one must match.
#[derive(Debug, Clone, Copy, PartialEq, Eq, Structural)]
pub enum Jequal {
    Full,
    Partial,
}

/// A JSON text known when the binding is written.
pub struct JsonStr(pub &'static str);

/// One member of a JSON object.
#[derive(Debug)]
pub struct Jentry {
    pub key: String,
    pub obj: JsoncObj,
}

/// A JSON value.
#[derive(Debug)]
pub enum JsoncObj {
    Null,
    Bool(bool),
    Int(i64),
    /// A floating point number, as its decimal text.
    Float(String),
    Str(String),
    Array(Vec<JsoncObj>),
    Object(Vec<Jentry>),
}

impl JsoncObj {
    pub open spec fn json_view(self) -> Jval
        decreases self,
    {
        match self {
            JsoncObj::Null => Jval::Null,
            JsoncObj::Bool(b) => Jval::Bool(b),
            JsoncObj::Int(i) => Jval::Int(i),
            JsoncObj::Float(t) => Jval::Float(t@),
            JsoncObj::Str(s) => Jval::Str(s@),
            JsoncObj::Array(v) => Jval::Array(
                Seq::new(
                    v@.len(),
                    |i: int|
                        if 0 <= i < v@.len() {
                            v@[i].json_view()
                        } else {
                            Jval::Null
                        },
                ),
            ),
            JsoncObj::Object(v) => Jval::Object(
                Seq::new(
                    v@.len(),
                    |i: int|
                        if 0 <= i < v@.len() {
                            (v@[i].key@, v@[i].obj.json_view())
                        } else {
                            (Seq::empty(), Jval::Null)
                        },
                ),
            ),
        }
    }
}

impl View for JsoncObj {
    type V = Jval;

    open spec fn view(&self) -> Jval {
        self.json_view()
    }
}

impl View for Jentry {
    type V = (Seq<char>, Jval);

    open spec fn view(&self) -> (Seq<char>, Jval) {
        (self.key@, self.obj@)
    }
}

/// The views of a sequence of values.
pub open spec fn items_view(v: Seq<JsoncObj>) -> Seq<Jval> {
    Seq::new(v.len(), |i: int| v[i]@)
}

/// The views of a sequence of object members.
pub open spec fn entries_view(v: Seq<Jentry>) -> Seq<(Seq<char>, Jval)> {
    Seq::new(v.len(), |i: int| v[i]@)
}

pub broadcast proof fn lemma_array_view(v: Vec<JsoncObj>)
    ensures
        #[trigger] JsoncObj::Array(v)@ == Jval::Array(items_view(v@)),
{
    assert(JsoncObj::Array(v)@->Array_0 =~= items_view(v@));
}

pub broadcast proof fn lemma_object_view(v: Vec<Jentry>)
    ensures
        #[trigger] JsoncObj::Object(v)@ == Jval::Object(entries_view(v@)),
{
    assert(JsoncObj::Object(v)@->Object_0 =~= entries_view(v@));
}

/// The type of a value.
pub open spec fn jtype_of(v: Jval) -> Jtype {
    match v {
        Jval::Null => Jtype::Null,
        Jval::Bool(_) => Jtype::Bool,
        Jval::Int(_) => Jtype::Int,
        Jval::Float(_) => Jtype::Float,
        Jval::Str(_) => Jtype::String,
        Jval::Array(_) => Jtype::Array,
        Jval::Object(_) => Jtype::Object,
    }
}

/// The name a type is printed with.
pub open spec fn jtype_name(t: Jtype) -> Seq<char> {
    match t {
        Jtype::Array => "Array"@,
        Jtype::String => "String"@,
        Jtype::Bool => "Bool"@,
        Jtype::Int => "Int"@,
        Jtype::Float => "Float"@,
        Jtype::Object => "Object"@,
        Jtype::Null => "Null"@,
        Jtype::Unknown => "Unknown"@,
    }
}

// ---------------------------------------------------------------- text form

/// The escaped form of one character inside a JSON string.
pub open spec fn esc_char(c: char) -> Seq<char> {
    if c == '\u{8}' {
        seq!['\\', 'b']
    } else if c == '\n' {
        seq!['\\', 'n']
    } else if c == '\r' {
        seq!['\\', 'r']
    } else if c == '\t' {
        seq!['\\', 't']
    } else if c == '\u{c}' {
        seq!['\\', 'f']
    } else if c == '"' {
        seq!['\\', '"']
    } else if c == '\\' {
        seq!['\\', '\\']
    } else if (c as u32) < 0x20 {
        seq!['\\', 'u', '0', '0', hex_char((c as u32 / 16) as nat), hex_char((c as u32 % 16) as nat)]
    } else {
        seq![c]
    }
}

/// The escaped form of a string's characters.
pub open spec fn escape_text(s: Seq<char>) -> Seq<char>
    decreases s.len(),
{
    if s.len() == 0 {
        Seq::empty()
    } else {
        escape_text(s.drop_last()) + esc_char(s.last())
    }
}

/// A string between double quotes, escaped.
pub open spec fn quoted(s: Seq<char>) -> Seq<char> {
    seq!['"'] + escape_text(s) + seq!['"']
}

/// The compact JSON text of a value.
pub open spec fn json_text(v: Jval) -> Seq<char>
    decreases v,
{
    match v {
        Jval::Null => seq!['n', 'u', 'l', 'l'],
        Jval::Bool(b) => if b {
            seq!['t', 'r', 'u', 'e']
        } else {
            seq!['f', 'a', 'l', 's', 'e']
        },
        Jval::Int(i) => int_text(i as int),
        Jval::Float(t) => t,
        Jval::Str(s) => quoted(s),
        Jval::Array(items) => seq!['['] + items_text(items) + seq![']'],
        Jval::Object(es) => seq!['{'] + members_text(es) + seq!['}'],
    }
}

/// The texts of array items, separated by commas.
pub open spec fn items_text(items: Seq<Jval>) -> Seq<char>
    decreases items,
{
    if items.len() == 0 {
        Seq::empty()
    } else if items.len() == 1 {
        json_text(items[0])
    } else {
        items_text(items.drop_last()) + seq![','] + json_text(items.last())
    }
}

/// The text of one object member: quoted key, colon, value.
pub open spec fn member_text(e: (Seq<char>, Jval)) -> Seq<char>
    decreases e,
{
    quoted(e.0) + seq![':'] + json_text(e.1)
}

/// The texts of object members, separated by commas.
pub open spec fn members_text(es: Seq<(Seq<char>, Jval)>) -> Seq<char>
    decreases es,
{
    if es.len() == 0 {
        Seq::empty()
    } else if es.len() == 1 {
        member_text(es[0])
    } else {
        members_text(es.drop_last()) + seq![','] + member_text(es.last())
    }
}

proof fn lemma_items_text_step(items: Seq<Jval>, i: int)
    requires
        0 <= i < items.len(),
    ensures
        items_text(items.take(i + 1)) == items_text(items.take(i)) + (if i > 0 {
            seq![',']
        } else {
            Seq::empty()
        }) + json_text(items[i]),
{
    assert(items.take(i + 1).drop_last() =~= items.take(i));
    if i == 0 {
        assert(items_text(items.take(0)) =~= Seq::<char>::empty());
        assert(items.take(1)[0] == items[0]);
        assert(Seq::<char>::empty() + Seq::<char>::empty() + json_text(items[0]) =~= json_text(items[0]));
    } else {
        assert(items.take(i + 1).last() == items[i]);
    }
}

proof fn lemma_members_text_step(es: Seq<(Seq<char>, Jval)>, i: int)
    requires
        0 <= i < es.len(),
    ensures
        members_text(es.take(i + 1)) == members_text(es.take(i)) + (if i > 0 {
            seq![',']
        } else {
            Seq::empty()
        }) + member_text(es[i]),
{
    assert(es.take(i + 1).drop_last() =~= es.take(i));
    if i == 0 {
        assert(members_text(es.take(0)) =~= Seq::<char>::empty());
        assert(es.take(1)[0] == es[0]);
        assert(Seq::<char>::empty() + Seq::<char>::empty() + member_text(es[0]) =~= member_text(es[0]));
    } else {
        assert(es.take(i + 1).last() == es[i]);
    }
}

/// Appends a string, escaped, to a text.
pub fn push_escaped(out: &mut String, s: &str)
    ensures
        final(out)@ == old(out)@ + escape_text(s@),
{
    let n = s.unicode_len();
    let mut i: usize = 0;
    while i < n
        invariant
            n == s@.len(),
            i <= n,
            out@ == old(out)@ + escape_text(s@.take(i as int)),
        decreases n - i,
    {
        let c = s.get_char(i);
        let ghost before = out@;
        if c == '\u{8}' {
            push_str(out, "\\b");
        } else if c == '\n' {
            push_str(out, "\\n");
        } else if c == '\r' {
            push_str(out, "\\r");
        } else if c == '\t' {
            push_str(out, "\\t");
        } else if c == '\u{c}' {
            push_str(out, "\\f");
        } else if c == '"' {
            push_str(out, "\\\"");
        } else if c == '\\' {
            push_str(out, "\\\\");
        } else if (c as u32) < 0x20 {
            push_str(out, "\\u00");
            push_char(out, digit_char((c as u32 / 16) as u8));
            push_char(out, digit_char((c as u32 % 16) as u8));
        } else {
            push_char(out, c);
        }
        proof {
            reveal_strlit("\\b");
            reveal_strlit("\\n");
            reveal_strlit("\\r");
            reveal_strlit("\\t");
            reveal_strlit("\\f");
            reveal_strlit("\\\"");
            reveal_strlit("\\\\");
            reveal_strlit("\\u00");
            assert(out@ =~= before + esc_char(c));
            assert(s@.take(i + 1).drop_last() =~= s@.take(i as int));
        }
        i = i + 1;
    }
    assert(s@.take(n as int) =~= s@);
}


impl JsoncObj {
    /// Appends the compact JSON text of this value.
    pub fn write_json(&self, out: &mut String)
        ensures
            final(out)@ == old(out)@ + json_text(self@),
        decreases self,
    {
        broadcast use {lemma_array_view, lemma_object_view};
        match self {
            JsoncObj::Null => {
                push_str(out, "null");
                proof { reveal_strlit("null"); }
                assert(final(out)@ =~= old(out)@ + json_text(self@));
            },
            JsoncObj::Bool(b) => {
                if *b {
                    push_str(out, "true");
                    proof { reveal_strlit("true"); }
                } else {
                    push_str(out, "false");
                    proof { reveal_strlit("false"); }
                }
                assert(final(out)@ =~= old(out)@ + json_text(self@));
            },
            JsoncObj::Int(i) => {
                push_i64(out, *i);
            },
            JsoncObj::Float(t) => {
                push_str(out, t.as_str());
            },
            JsoncObj::Str(s) => {
                push_char(out, '"');
                push_escaped(out, s.as_str());
                push_char(out, '"');
                assert(final(out)@ =~= old(out)@ + json_text(self@));
            },
            JsoncObj::Array(v) => {
                let ghost items = items_view(v@);
                let ghost start = old(out)@;
                push_char(out, '[');
                let n = v.len();
                let mut i: usize = 0;
                while i < n
                    invariant
                        n == v@.len(),
                        i <= n,
                        items == items_view(v@),
                        *self == JsoncObj::Array(*v),
                        out@ == start + seq!['['] + items_text(items.take(i as int)),
                    decreases n - i,
                {
                    if i > 0 {
                        push_char(out, ',');
                    }
                    assert(decreases_to!(*self => self->Array_0));
                    assert(decreases_to!(self->Array_0 => self->Array_0@));
                    assert(decreases_to!(self->Array_0@ => v@[i as int]));
                    v[i].write_json(out);
                    proof {
                        lemma_items_text_step(items, i as int);
                        assert(out@ =~= start + seq!['['] + items_text(items.take(i + 1)));
                    }
                    i = i + 1;
                }
                push_char(out, ']');
                proof {
                    assert(items.take(n as int) =~= items);
                    assert(final(out)@ =~= old(out)@ + json_text(self@));
                }
            },
            JsoncObj::Object(v) => {
                let ghost es = entries_view(v@);
                let ghost start = old(out)@;
                push_char(out, '{');
                let n = v.len();
                let mut i: usize = 0;
                while i < n
                    invariant
                        n == v@.len(),
                        i <= n,
                        es == entries_view(v@),
                        *self == JsoncObj::Object(*v),
                        out@ == start + seq!['{'] + members_text(es.take(i as int)),
                    decreases n - i,
                {
                    if i > 0 {
                        push_char(out, ',');
                    }
                    push_char(out, '"');
                    push_escaped(out, v[i].key.as_str());
                    push_char(out, '"');
                    push_char(out, ':');
                    assert(decreases_to!(*self => self->Object_0));
                    assert(decreases_to!(self->Object_0 => self->Object_0@));
                    assert(decreases_to!(self->Object_0@ => v@[i as int]));
                    assert(decreases_to!(v@[i as int] => v@[i as int].obj));
                    v[i].obj.write_json(out);
                    proof {
                        lemma_members_text_step(es, i as int);
                        assert(out@ =~= start + seq!['{'] + members_text(es.take(i + 1)));
                    }
                    i = i + 1;
                }
                push_char(out, '}');
                proof {
                    assert(es.take(n as int) =~= es);
                    assert(final(out)@ =~= old(out)@ + json_text(self@));
                }
            },
        }
    }

    /// The compact JSON text of this value.
    pub fn to_json_text(&self) -> (r: String)
        ensures
            r@ == json_text(self@),
    {
        let mut out = String::new();
        self.write_json(&mut out);
        assert(out@ =~= json_text(self@));
        out
    }
}


// ------------------------------------------------------------ member lookup

/// `i` is the position of the first member named `key`.
pub open spec fn first_key_at(es: Seq<(Seq<char>, Jval)>, key: Seq<char>, i: int) -> bool {
    &&& 0 <= i < es.len()
    &&& es[i].0 == key
    &&& forall|j: int| 0 <= j < i ==> es[j].0 != key
}

/// Position of the first member named `key`, if any.
pub open spec fn key_pos(es: Seq<(Seq<char>, Jval)>, key: Seq<char>) -> Option<int> {
    if exists|i: int| first_key_at(es, key, i) {
        Some(choose|i: int| first_key_at(es, key, i))
    } else {
        None
    }
}

pub proof fn lemma_key_pos_found(es: Seq<(Seq<char>, Jval)>, key: Seq<char>, i: int)
    requires
        first_key_at(es, key, i),
    ensures
        key_pos(es, key) == Some(i),
{
    let k = choose|k: int| first_key_at(es, key, k);
    assert(first_key_at(es, key, k));
    if k < i {
        assert(es[k].0 != key);
    } else if i < k {
        assert(es[i].0 != key);
    }
}

pub proof fn lemma_key_pos_absent(es: Seq<(Seq<char>, Jval)>, key: Seq<char>)
    requires
        forall|j: int| 0 <= j < es.len() ==> es[j].0 != key,
    ensures
        key_pos(es, key) is None,
{
}

pub proof fn lemma_key_pos_range(es: Seq<(Seq<char>, Jval)>, key: Seq<char>)
    ensures
        key_pos(es, key) matches Some(i) ==> first_key_at(es, key, i),
{
}

/// The value of the member named `key`, when the value is an object that has one.
pub open spec fn jval_member(v: Jval, key: Seq<char>) -> Option<Jval> {
    match v {
        Jval::Object(es) => match key_pos(es, key) {
            Some(i) => Some(es[i].1),
            None => None,
        },
        _ => None,
    }
}

/// Members after setting `key` to `val`: the first member of that name gets
/// the new value in place, or a new member is added at the end.
pub open spec fn members_set(es: Seq<(Seq<char>, Jval)>, key: Seq<char>, val: Jval) -> Seq<(Seq<char>, Jval)> {
    match key_pos(es, key) {
        Some(i) => es.update(i, (key, val)),
        None => es.push((key, val)),
    }
}

/// Items after putting `val` at `idx`: replaced in place, or the array is
/// grown with nulls up to `idx`. The last possible index changes nothing.
pub open spec fn items_put(items: Seq<Jval>, idx: int, val: Jval) -> Seq<Jval> {
    if idx >= usize::MAX {
        items
    } else if idx < items.len() {
        items.update(idx, val)
    } else {
        items + Seq::new((idx - items.len()) as nat, |i: int| Jval::Null) + seq![val]
    }
}

/// No character of the text is NUL: it can cross into C strings.
pub open spec fn no_nul(s: Seq<char>) -> bool {
    forall|i: int| 0 <= i < s.len() ==> s[i] != '\0'
}

/// Error when a member is missing.
pub open spec fn key_missing(key: Seq<char>) -> AfbErrorView {
    err_view("jsonc-key-missing"@, key)
}

/// Error when an index is past the end of an array.
pub open spec fn index_out_of_bound() -> AfbErrorView {
    err_view("jsonc-array-size"@, "jsonc array index out of bound"@)
}

/// The value at `idx` of an array: past the end by one reads null,
/// further is an error.
pub open spec fn items_at(items: Seq<Jval>, idx: int) -> Result<Jval, AfbErrorView> {
    if idx > items.len() {
        Err(index_out_of_bound())
    } else if idx == items.len() {
        Ok(Jval::Null)
    } else {
        Ok(items[idx])
    }
}

/// Scans members for the first one named `key`.
fn find_key(v: &Vec<Jentry>, key: &String) -> (r: Option<usize>)
    ensures
        match r {
            Some(i) => key_pos(entries_view(v@), key@) == Some(i as int),
            None => key_pos(entries_view(v@), key@) is None,
        },
{
    let ghost es = entries_view(v@);
    let n = v.len();
    let mut i: usize = 0;
    while i < n
        invariant
            n == v@.len(),
            i <= n,
            es == entries_view(v@),
            forall|j: int| 0 <= j < i ==> es[j].0 != key@,
        decreases n - i,
    {
        if v[i].key == *key {
            proof {
                lemma_key_pos_found(es, key@, i as int);
            }
            return Some(i);
        }
        i = i + 1;
    }
    proof {
        lemma_key_pos_absent(es, key@);
    }
    None
}

// -------------------------------------------------------------- basic reads

impl Clone for Jentry {
    fn clone(&self) -> (r: Self)
        ensures
            r@ == self@,
    {
        Jentry { key: self.key.clone(), obj: self.obj.clone() }
    }
}

impl Clone for JsoncObj {
    fn clone(&self) -> (r: Self)
        ensures
            r@ == self@,
        decreases self,
    {
        broadcast use {lemma_array_view, lemma_object_view};
        match self {
            JsoncObj::Null => JsoncObj::Null,
            JsoncObj::Bool(b) => JsoncObj::Bool(*b),
            JsoncObj::Int(i) => JsoncObj::Int(*i),
            JsoncObj::Float(t) => JsoncObj::Float(t.clone()),
            JsoncObj::Str(s) => JsoncObj::Str(s.clone()),
            JsoncObj::Array(v) => {
                let mut out: Vec<JsoncObj> = Vec::new();
                let n = v.len();
                let mut i: usize = 0;
                while i < n
                    invariant
                        n == v@.len(),
                        i <= n,
                        *self == JsoncObj::Array(*v),
                        out@.len() == i,
                        forall|j: int| 0 <= j < i ==> #[trigger] out@[j]@ == v@[j]@,
                    decreases n - i,
                {
                    assert(decreases_to!(*self => self->Array_0));
                    assert(decreases_to!(self->Array_0 => self->Array_0@));
                    assert(decreases_to!(self->Array_0@ => v@[i as int]));
                    let c = v[i].clone();
                    out.push(c);
                    i = i + 1;
                }
                assert(items_view(out@) =~= items_view(v@));
                JsoncObj::Array(out)
            },
            JsoncObj::Object(v) => {
                let mut out: Vec<Jentry> = Vec::new();
                let n = v.len();
                let mut i: usize = 0;
                while i < n
                    invariant
                        n == v@.len(),
                        i <= n,
                        *self == JsoncObj::Object(*v),
                        out@.len() == i,
                        forall|j: int| 0 <= j < i ==> #[trigger] out@[j]@ == v@[j]@,
                    decreases n - i,
                {
                    assert(decreases_to!(*self => self->Object_0));
                    assert(decreases_to!(self->Object_0 => self->Object_0@));
                    assert(decreases_to!(self->Object_0@ => v@[i as int]));
                    assert(decreases_to!(v@[i as int] => v@[i as int].obj));
                    let c = v[i].obj.clone();
                    out.push(Jentry { key: v[i].key.clone(), obj: c });
                    i = i + 1;
                }
                assert(entries_view(out@) =~= entries_view(v@));
                JsoncObj::Object(out)
            },
        }
    }
}

impl JsoncObj {
    /// A new empty object.
    pub fn new() -> (r: JsoncObj)
        ensures
            r@ == Jval::Object(Seq::empty()),
    {
        let r = JsoncObj::Object(Vec::new());
        assert(r@->Object_0 =~= Seq::<(Seq<char>, Jval)>::empty());
        r
    }

    /// A new empty array.
    pub fn array() -> (r: JsoncObj)
        ensures
            r@ == Jval::Array(Seq::empty()),
    {
        let r = JsoncObj::Array(Vec::new());
        assert(r@->Array_0 =~= Seq::<Jval>::empty());
        r
    }

    /// Whether the value has the given type.
    pub fn is_type(&self, jtype: Jtype) -> (r: bool)
        ensures
            r == (jtype_of(self@) == jtype),
    {
        self.get_type() == jtype
    }

    /// The type of the value.
    pub fn get_type(&self) -> (r: Jtype)
        ensures
            r == jtype_of(self@),
    {
        match self {
            JsoncObj::Null => Jtype::Null,
            JsoncObj::Bool(_) => Jtype::Bool,
            JsoncObj::Int(_) => Jtype::Int,
            JsoncObj::Float(_) => Jtype::Float,
            JsoncObj::Str(_) => Jtype::String,
            JsoncObj::Array(_) => Jtype::Array,
            JsoncObj::Object(_) => Jtype::Object,
        }
    }

    /// Number of items of an array or of members of an object.
    pub fn count(&self) -> (r: Result<usize, AfbError>)
        ensures
            res_view(r) == match self@ {
                Jval::Array(items) => Ok(items.len() as usize),
                Jval::Object(es) => Ok(es.len() as usize),
                _ => Err(err_view("jsonc-count-fail"@, "jsonc is neither object or array"@)),
            },
    {
        broadcast use {lemma_array_view, lemma_object_view};
        match self {
            JsoncObj::Array(v) => Ok(v.len()),
            JsoncObj::Object(v) => Ok(v.len()),
            _ => Err(AfbError::msg("jsonc-count-fail", "jsonc is neither object or array")),
        }
    }

    /// Same as `count`.
    pub fn len(&self) -> (r: Result<usize, AfbError>)
        ensures
            res_view(r) == match self@ {
                Jval::Array(items) => Ok(items.len() as usize),
                Jval::Object(es) => Ok(es.len() as usize),
                _ => Err(err_view("jsonc-count-fail"@, "jsonc is neither object or array"@)),
            },
    {
        self.count()
    }

    /// The members of an object, in order; nothing for another value.
    pub fn expand(&self) -> (r: Result<Vec<Jentry>, AfbError>)
        ensures
            r matches Ok(v) && entries_view(v@) == match self@ {
                Jval::Object(es) => es,
                _ => Seq::empty(),
            },
    {
        broadcast use {lemma_array_view, lemma_object_view};
        match self {
            JsoncObj::Object(v) => {
                let mut out: Vec<Jentry> = Vec::new();
                let n = v.len();
                let mut i: usize = 0;
                while i < n
                    invariant
                        n == v@.len(),
                        i <= n,
                        out@.len() == i,
                        forall|j: int| 0 <= j < i ==> #[trigger] out@[j]@ == v@[j]@,
                    decreases n - i,
                {
                    out.push(v[i].clone());
                    i = i + 1;
                }
                assert(entries_view(out@) =~= entries_view(v@));
                Ok(out)
            },
            _ => {
                let out: Vec<Jentry> = Vec::new();
                assert(entries_view(out@) =~= Seq::<(Seq<char>, Jval)>::empty());
                Ok(out)
            },
        }
    }

    /// Whether two values are the same JSON value.
    pub fn same_value(&self, other: &JsoncObj) -> (r: bool)
        ensures
            r == (self@ == other@),
        decreases self,
    {
        broadcast use {lemma_array_view, lemma_object_view};
        match (self, other) {
            (JsoncObj::Null, JsoncObj::Null) => true,
            (JsoncObj::Bool(a), JsoncObj::Bool(b)) => *a == *b,
            (JsoncObj::Int(a), JsoncObj::Int(b)) => *a == *b,
            (JsoncObj::Float(a), JsoncObj::Float(b)) => *a == *b,
            (JsoncObj::Str(a), JsoncObj::Str(b)) => *a == *b,
            (JsoncObj::Array(a), JsoncObj::Array(b)) => {
                if a.len() != b.len() {
                    assert(items_view(a@).len() != items_view(b@).len());
                    return false;
                }
                let n = a.len();
                let mut i: usize = 0;
                while i < n
                    invariant
                        n == a@.len(),
                        n == b@.len(),
                        i <= n,
                        *self == JsoncObj::Array(*a),
                        *other == JsoncObj::Array(*b),
                        forall|j: int| 0 <= j < i ==> #[trigger] a@[j]@ == b@[j]@,
                    decreases n - i,
                {
                    assert(decreases_to!(*self => self->Array_0));
                    assert(decreases_to!(self->Array_0 => self->Array_0@));
                    assert(decreases_to!(self->Array_0@ => a@[i as int]));
                    if !a[i].same_value(&b[i]) {
                        proof {
                            lemma_array_view(*a);
                            lemma_array_view(*b);
                            assert(items_view(a@)[i as int] != items_view(b@)[i as int]);
                        }
                        return false;
                    }
                    i = i + 1;
                }
                assert(items_view(a@) =~= items_view(b@));
                true
            },
            (JsoncObj::Object(a), JsoncObj::Object(b)) => {
                if a.len() != b.len() {
                    assert(entries_view(a@).len() != entries_view(b@).len());
                    return false;
                }
                let n = a.len();
                let mut i: usize = 0;
                while i < n
                    invariant
                        n == a@.len(),
                        n == b@.len(),
                        i <= n,
                        *self == JsoncObj::Object(*a),
                        *other == JsoncObj::Object(*b),
                        forall|j: int| 0 <= j < i ==> #[trigger] a@[j]@ == b@[j]@,
                    decreases n - i,
                {
                    assert(decreases_to!(*self => self->Object_0));
                    assert(decreases_to!(self->Object_0 => self->Object_0@));
                    assert(decreases_to!(self->Object_0@ => a@[i as int]));
                    assert(decreases_to!(a@[i as int] => a@[i as int].obj));
                    if a[i].key != b[i].key || !a[i].obj.same_value(&b[i].obj) {
                        proof {
                            lemma_object_view(*a);
                            lemma_object_view(*b);
                            assert(entries_view(a@)[i as int] != entries_view(b@)[i as int]);
                        }
                        return false;
                    }
                    i = i + 1;
                }
                assert(entries_view(a@) =~= entries_view(b@));
                true
            },
            _ => false,
        }
    }
}


// ------------------------------------------------------------- typed reads

/// A JSON value split by its type.
#[derive(Debug)]
pub enum Jobject {
    String(String),
    Int(i64),
    Bool(bool),
    /// A floating point number, as its decimal text.
    Float(String),
    Object(JsoncObj),
    Array(JsoncObj),
    Null(),
    Unknown(&'static str),
}

/// What a split JSON value holds, variant by variant.
pub enum JobjectView {
    String(Seq<char>),
    Int(i64),
    Bool(bool),
    Float(Seq<char>),
    Object(Jval),
    Array(Jval),
    Null,
    Unknown(Seq<char>),
}

impl View for Jobject {
    type V = JobjectView;

    open spec fn view(&self) -> JobjectView {
        match self {
            Jobject::String(s) => JobjectView::String(s@),
            Jobject::Int(i) => JobjectView::Int(*i),
            Jobject::Bool(b) => JobjectView::Bool(*b),
            Jobject::Float(t) => JobjectView::Float(t@),
            Jobject::Object(o) => JobjectView::Object(o@),
            Jobject::Array(a) => JobjectView::Array(a@),
            Jobject::Null() => JobjectView::Null,
            Jobject::Unknown(t) => JobjectView::Unknown(t@),
        }
    }
}

/// A JSON value split by its type: each type in its own variant.
pub open spec fn split_value(v: Jval) -> JobjectView {
    match v {
        Jval::Null => JobjectView::Null,
        Jval::Bool(b) => JobjectView::Bool(b),
        Jval::Int(i) => JobjectView::Int(i),
        Jval::Float(t) => JobjectView::Float(t),
        Jval::Str(s) => JobjectView::String(s),
        Jval::Array(_) => JobjectView::Array(v),
        Jval::Object(_) => JobjectView::Object(v),
    }
}

/// A result holding an optional value, seen through the views.
pub open spec fn opt_res_view<T: View>(r: Result<Option<T>, AfbError>) -> Result<Option<T::V>, AfbErrorView> {
    match r {
        Ok(Some(t)) => Ok(Some(t@)),
        Ok(None) => Ok(None),
        Err(e) => Err(e@),
    }
}

/// What `json-c` reads as a 32 bit integer: the value, saturated.
pub open spec fn sat_i32(i: i64) -> i32 {
    if i <= i32::MIN {
        i32::MIN
    } else if i >= i32::MAX {
        i32::MAX
    } else {
        i as i32
    }
}

fn get_int(i: i64) -> (r: i32)
    ensures
        r == sat_i32(i),
{
    if i <= i32::MIN as i64 {
        i32::MIN
    } else if i >= i32::MAX as i64 {
        i32::MAX
    } else {
        i as i32
    }
}

/// Error when a value has another type than the one read.
pub open spec fn wrong_type(what: Seq<char>) -> AfbErrorView {
    err_view("jsonc-get-type"@, what)
}

/// Error when an integer does not fit the type read.
pub open spec fn out_of_range(label: Seq<char>, kind: Seq<char>, value: i32) -> AfbErrorView {
    err_view(label, "multiplier should be "@ + kind + " get:"@ + int_text(value as int))
}

fn range_error(label: &str, kind: &str, value: i32) -> (r: AfbError)
    ensures
        r@ == out_of_range(label@, kind@, value),
{
    let mut msg = String::new();
    push_str(&mut msg, "multiplier should be ");
    push_str(&mut msg, kind);
    push_str(&mut msg, " get:");
    push_i64(&mut msg, value as i64);
    assert(msg@ =~= "multiplier should be "@ + kind@ + " get:"@ + int_text(value as int));
    AfbError::msg_string(label, msg)
}

/// A JSON value read as a Rust value of type `T`.
pub trait JsoncExport<T: View>: Sized {
    spec fn export_spec(v: Jval) -> Result<T::V, AfbErrorView>;

    fn from_jso(jso: &JsoncObj) -> (r: Result<T, AfbError>)
        ensures
            res_view(r) == Self::export_spec(jso@),
    ;
}

impl JsoncExport<Jobject> for JsoncObj {
    open spec fn export_spec(v: Jval) -> Result<JobjectView, AfbErrorView> {
        match v {
            Jval::Null => Err(err_view("jsonc-get-key"@, "not object at key"@)),
            _ => Ok(split_value(v)),
        }
    }

    fn from_jso(jso: &JsoncObj) -> (r: Result<Jobject, AfbError>) {
        match jso {
            JsoncObj::Null => Err(AfbError::msg("jsonc-get-key", "not object at key")),
            _ => Ok(jso.get_jso_value()),
        }
    }
}

impl JsoncExport<&'static str> for JsoncObj {
    open spec fn export_spec(v: Jval) -> Result<Seq<char>, AfbErrorView> {
        match v {
            Jval::Str(s) => Ok(s),
            _ => Err(wrong_type("jsonc object is not a string"@)),
        }
    }

    fn from_jso(jso: &JsoncObj) -> (r: Result<&'static str, AfbError>) {
        match jso {
            JsoncObj::Str(s) => Ok(to_static_str(s.clone())),
            _ => Err(AfbError::msg("jsonc-get-type", "jsonc object is not a string")),
        }
    }
}

impl JsoncExport<String> for JsoncObj {
    open spec fn export_spec(v: Jval) -> Result<Seq<char>, AfbErrorView> {
        match v {
            Jval::Str(s) => Ok(s),
            _ => Err(wrong_type("jsonc object is not a string"@)),
        }
    }

    fn from_jso(jso: &JsoncObj) -> (r: Result<String, AfbError>) {
        match jso {
            JsoncObj::Str(s) => Ok(s.clone()),
            _ => Err(AfbError::msg("jsonc-get-type", "jsonc object is not a string")),
        }
    }
}

impl JsoncExport<Vec<u8>> for JsoncObj {
    open spec fn export_spec(v: Jval) -> Result<Seq<u8>, AfbErrorView> {
        match v {
            Jval::Str(s) => Ok(vstd::utf8::encode_utf8(s)),
            _ => Err(wrong_type("jsonc object is not a string"@)),
        }
    }

    fn from_jso(jso: &JsoncObj) -> (r: Result<Vec<u8>, AfbError>) {
        match jso {
            JsoncObj::Str(s) => Ok(vstd::slice::slice_to_vec(s.as_str().as_bytes())),
            _ => Err(AfbError::msg("jsonc-get-type", "jsonc object is not a string")),
        }
    }
}

impl JsoncExport<i64> for JsoncObj {
    open spec fn export_spec(v: Jval) -> Result<i64, AfbErrorView> {
        match v {
            Jval::Int(i) => Ok(i),
            _ => Err(wrong_type("jsonc object is not an integer"@)),
        }
    }

    fn from_jso(jso: &JsoncObj) -> (r: Result<i64, AfbError>) {
        match jso {
            JsoncObj::Int(i) => Ok(*i),
            _ => Err(AfbError::msg("jsonc-get-type", "jsonc object is not an integer")),
        }
    }
}

impl JsoncExport<u64> for JsoncObj {
    open spec fn export_spec(v: Jval) -> Result<u64, AfbErrorView> {
        match v {
            Jval::Int(i) => Ok(i as u64),
            _ => Err(wrong_type("jsonc object is not an unsigned"@)),
        }
    }

    fn from_jso(jso: &JsoncObj) -> (r: Result<u64, AfbError>) {
        match jso {
            JsoncObj::Int(i) => Ok(*i as u64),
            _ => Err(AfbError::msg("jsonc-get-type", "jsonc object is not an unsigned")),
        }
    }
}

impl JsoncExport<i32> for JsoncObj {
    open spec fn export_spec(v: Jval) -> Result<i32, AfbErrorView> {
        match v {
            Jval::Int(i) => Ok(sat_i32(i)),
            _ => Err(wrong_type("jsonc object is not an integer"@)),
        }
    }

    fn from_jso(jso: &JsoncObj) -> (r: Result<i32, AfbError>) {
        match jso {
            JsoncObj::Int(i) => Ok(get_int(*i)),
            _ => Err(AfbError::msg("jsonc-get-type", "jsonc object is not an integer")),
        }
    }
}

impl JsoncExport<u32> for JsoncObj {
    open spec fn export_spec(v: Jval) -> Result<u32, AfbErrorView> {
        match v {
            Jval::Int(i) => Ok(sat_i32(i) as u32),
            _ => Err(wrong_type("jsonc object is not integer"@)),
        }
    }

    fn from_jso(jso: &JsoncObj) -> (r: Result<u32, AfbError>) {
        match jso {
            JsoncObj::Int(i) => Ok(get_int(*i) as u32),
            _ => Err(AfbError::msg("jsonc-get-type", "jsonc object is not integer")),
        }
    }
}

impl JsoncExport<i16> for JsoncObj {
    open spec fn export_spec(v: Jval) -> Result<i16, AfbErrorView> {
        match v {
            Jval::Int(i) => if i16::MIN <= sat_i32(i) <= i16::MAX {
                Ok(sat_i32(i) as i16)
            } else {
                Err(out_of_range("jsonc::get<i16>"@, "i16"@, sat_i32(i)))
            },
            _ => Err(wrong_type("jsonc object is not an integer"@)),
        }
    }

    fn from_jso(jso: &JsoncObj) -> (r: Result<i16, AfbError>) {
        match jso {
            JsoncObj::Int(i) => {
                let value = get_int(*i);
                if value > i16::MAX as i32 || value < i16::MIN as i32 {
                    return Err(range_error("jsonc::get<i16>", "i16", value));
                }
                Ok(value as i16)
            },
            _ => Err(AfbError::msg("jsonc-get-type", "jsonc object is not an integer")),
        }
    }
}

impl JsoncExport<u16> for JsoncObj {
    open spec fn export_spec(v: Jval) -> Result<u16, AfbErrorView> {
        match v {
            Jval::Int(i) => if u16::MIN <= sat_i32(i) <= u16::MAX {
                Ok(sat_i32(i) as u16)
            } else {
                Err(out_of_range("jsonc::get<u16>"@, "u16"@, sat_i32(i)))
            },
            _ => Err(wrong_type("jsonc object is not an integer"@)),
        }
    }

    fn from_jso(jso: &JsoncObj) -> (r: Result<u16, AfbError>) {
        match jso {
            JsoncObj::Int(i) => {
                let value = get_int(*i);
                if value > u16::MAX as i32 || value < u16::MIN as i32 {
                    return Err(range_error("jsonc::get<u16>", "u16", value));
                }
                Ok(value as u16)
            },
            _ => Err(AfbError::msg("jsonc-get-type", "jsonc object is not an integer")),
        }
    }
}

impl JsoncExport<i8> for JsoncObj {
    open spec fn export_spec(v: Jval) -> Result<i8, AfbErrorView> {
        match v {
            Jval::Int(i) => if i8::MIN <= sat_i32(i) <= i8::MAX {
                Ok(sat_i32(i) as i8)
            } else {
                Err(out_of_range("jsonc::get<i8>"@, "i8"@, sat_i32(i)))
            },
            _ => Err(wrong_type("jsonc object is not an integer"@)),
        }
    }

    fn from_jso(jso: &JsoncObj) -> (r: Result<i8, AfbError>) {
        match jso {
            JsoncObj::Int(i) => {
                let value = get_int(*i);
                if value > i8::MAX as i32 || value < i8::MIN as i32 {
                    return Err(range_error("jsonc::get<i8>", "i8", value));
                }
                Ok(value as i8)
            },
            _ => Err(AfbError::msg("jsonc-get-type", "jsonc object is not an integer")),
        }
    }
}

impl JsoncExport<u8> for JsoncObj {
    open spec fn export_spec(v: Jval) -> Result<u8, AfbErrorView> {
        match v {
            Jval::Int(i) => if u8::MIN <= sat_i32(i) <= u8::MAX {
                Ok(sat_i32(i) as u8)
            } else {
                Err(out_of_range("jsonc::get<u8>"@, "u8"@, sat_i32(i)))
            },
            _ => Err(wrong_type("jsonc object is not an integer"@)),
        }
    }

    fn from_jso(jso: &JsoncObj) -> (r: Result<u8, AfbError>) {
        match jso {
            JsoncObj::Int(i) => {
                let value = get_int(*i);
                if value > u8::MAX as i32 || value < u8::MIN as i32 {
                    return Err(range_error("jsonc::get<u8>", "u8", value));
                }
                Ok(value as u8)
            },
            _ => Err(AfbError::msg("jsonc-get-type", "jsonc object is not an integer")),
        }
    }
}

impl JsoncExport<bool> for JsoncObj {
    open spec fn export_spec(v: Jval) -> Result<bool, AfbErrorView> {
        match v {
            Jval::Bool(b) => Ok(b),
            _ => Err(wrong_type("jsonc object is not boolean"@)),
        }
    }

    fn from_jso(jso: &JsoncObj) -> (r: Result<bool, AfbError>) {
        match jso {
            JsoncObj::Bool(b) => Ok(*b),
            _ => Err(AfbError::msg("jsonc-get-type", "jsonc object is not boolean")),
        }
    }
}

impl JsoncExport<JsoncObj> for JsoncObj {
    open spec fn export_spec(v: Jval) -> Result<Jval, AfbErrorView> {
        Ok(v)
    }

    fn from_jso(jso: &JsoncObj) -> (r: Result<JsoncObj, AfbError>) {
        Ok(jso.clone())
    }
}

/// Turns an owned string into a string that lives as long as the program.
#[verifier::external_body]
pub fn to_static_str(value: String) -> (r: &'static str)
    ensures
        r@ == value@,
{
    Box::leak(value.into_boxed_str())
}

/// A JSON value found in another one by a key of type `K`.
pub trait ImportJso<K: View>: Sized {
    spec fn get_allowed(key: K::V, v: Jval) -> bool;

    spec fn get_spec(key: K::V, v: Jval) -> Result<Jval, AfbErrorView>;

    fn get_jso(key: K, jso: &JsoncObj) -> (r: Result<JsoncObj, AfbError>)
        requires
            Self::get_allowed(key@, jso@),
        ensures
            res_view(r) == Self::get_spec(key@, jso@),
    ;
}

impl<'a> ImportJso<&'a str> for JsoncObj {
    open spec fn get_allowed(key: Seq<char>, v: Jval) -> bool {
        no_nul(key)
    }

    open spec fn get_spec(key: Seq<char>, v: Jval) -> Result<Jval, AfbErrorView> {
        match jval_member(v, key) {
            Some(m) => Ok(m),
            None => Err(key_missing(key)),
        }
    }

    fn get_jso(key: &'a str, jso: &JsoncObj) -> (r: Result<JsoncObj, AfbError>) {
        broadcast use lemma_object_view;
        match jso {
            JsoncObj::Object(v) => {
                let k = key.to_owned();
                match find_key(v, &k) {
                    Some(i) => Ok(v[i].obj.clone()),
                    None => Err(AfbError::msg("jsonc-key-missing", key)),
                }
            },
            _ => Err(AfbError::msg("jsonc-key-missing", key)),
        }
    }
}

impl ImportJso<usize> for JsoncObj {
    open spec fn get_allowed(key: usize, v: Jval) -> bool {
        v is Array
    }

    open spec fn get_spec(key: usize, v: Jval) -> Result<Jval, AfbErrorView> {
        items_at(v->Array_0, key as int)
    }

    fn get_jso(key: usize, jso: &JsoncObj) -> (r: Result<JsoncObj, AfbError>) {
        broadcast use lemma_array_view;
        match jso {
            JsoncObj::Array(v) => {
                if key > v.len() {
                    Err(AfbError::msg("jsonc-array-size", "jsonc array index out of bound"))
                } else if key == v.len() {
                    Ok(JsoncObj::Null)
                } else {
                    Ok(v[key].clone())
                }
            },
            _ => {
                assert(false);
                Err(AfbError::msg("jsonc-array-size", "jsonc array index out of bound"))
            },
        }
    }
}

impl JsoncObj {
    /// The value split by its type.
    pub fn get_jso_value(&self) -> (r: Jobject)
        ensures
            r@ == split_value(self@),
    {
        match self {
            JsoncObj::Null => Jobject::Null(),
            JsoncObj::Bool(b) => Jobject::Bool(*b),
            JsoncObj::Int(i) => Jobject::Int(*i),
            JsoncObj::Float(t) => Jobject::Float(t.clone()),
            JsoncObj::Str(s) => Jobject::String(s.clone()),
            JsoncObj::Array(_) => Jobject::Array(self.clone()),
            JsoncObj::Object(_) => Jobject::Object(self.clone()),
        }
    }

    /// The value read as a `T`.
    pub fn get_as<T: View>(&self) -> (r: Result<T, AfbError>)
        where JsoncObj: JsoncExport<T>,
        ensures
            res_view(r) == <JsoncObj as JsoncExport<T>>::export_spec(self@),
    {
        <JsoncObj as JsoncExport<T>>::from_jso(self)
    }

    /// The member `key`, read as a `T`.
    pub fn get<T: View>(&self, key: &str) -> (r: Result<T, AfbError>)
        where JsoncObj: JsoncExport<T>,
        requires
            no_nul(key@),
        ensures
            res_view(r) == match jval_member(self@, key@) {
                Some(m) => <JsoncObj as JsoncExport<T>>::export_spec(m),
                None => Err(key_missing(key@)),
            },
    {
        match <JsoncObj as ImportJso<&str>>::get_jso(key, self) {
            Err(error) => Err(error),
            Ok(jso) => <JsoncObj as JsoncExport<T>>::from_jso(&jso),
        }
    }

    /// The member `key` read as a `T`, or `default` when there is no such member.
    pub fn default<T: View>(&self, key: &str, default: T) -> (r: Result<T, AfbError>)
        where JsoncObj: JsoncExport<T>,
        requires
            no_nul(key@),
        ensures
            res_view(r) == match jval_member(self@, key@) {
                Some(m) => <JsoncObj as JsoncExport<T>>::export_spec(m),
                None => Ok(default@),
            },
    {
        match <JsoncObj as ImportJso<&str>>::get_jso(key, self) {
            Err(_error) => Ok(default),
            Ok(jso) => <JsoncObj as JsoncExport<T>>::from_jso(&jso),
        }
    }

    /// The member `key` read as a `T`, or nothing when there is no such member.
    pub fn optional<T: View>(&self, key: &str) -> (r: Result<Option<T>, AfbError>)
        where JsoncObj: JsoncExport<T>,
        requires
            no_nul(key@),
        ensures
            opt_res_view(r) == match jval_member(self@, key@) {
                Some(m) => match <JsoncObj as JsoncExport<T>>::export_spec(m) {
                    Ok(t) => Ok(Some(t)),
                    Err(e) => Err(e),
                },
                None => Ok(None),
            },
    {
        match <JsoncObj as ImportJso<&str>>::get_jso(key, self) {
            Err(_error) => Ok(None),
            Ok(jso) => match <JsoncObj as JsoncExport<T>>::from_jso(&jso) {
                Ok(t) => Ok(Some(t)),
                Err(e) => Err(e),
            },
        }
    }

    /// The item at `index` of an array, read as a `T`.
    pub fn index<T: View>(&self, index: usize) -> (r: Result<T, AfbError>)
        where JsoncObj: JsoncExport<T>,
        requires
            self@ is Array,
        ensures
            res_view(r) == match items_at(self@->Array_0, index as int) {
                Ok(m) => <JsoncObj as JsoncExport<T>>::export_spec(m),
                Err(e) => Err(e),
            },
    {
        match <JsoncObj as ImportJso<usize>>::get_jso(index, self) {
            Err(error) => Err(error),
            Ok(jso) => <JsoncObj as JsoncExport<T>>::from_jso(&jso),
        }
    }
}


// ------------------------------------------------------------------- writes

/// Reads UTF-8 bytes as text (`std::str::from_utf8`).
#[verifier::external_body]
fn str_from_utf8(data: &[u8]) -> (r: Option<&str>)
    ensures
        r is Some <==> vstd::utf8::valid_utf8(data@),
        r matches Some(s) ==> s@ == vstd::utf8::decode_utf8(data@),
{
    std::str::from_utf8(data).ok()
}

/// Bytes read as UTF-8 text.
pub fn bytes_to_str<'a>(data: &'a [u8]) -> (r: Result<&'a str, AfbError>)
    ensures
        r is Ok <==> vstd::utf8::valid_utf8(data@),
        r matches Ok(s) ==> s@ == vstd::utf8::decode_utf8(data@),
        r matches Err(e) ==> e@ == err_view("bytes_to_str"@, "not a valid UTF string"@),
{
    match str_from_utf8(data) {
        Some(text) => Ok(text),
        None => Err(AfbError::msg("bytes_to_str", "not a valid UTF string")),
    }
}

impl JsoncObj {
    /// Sets member `key` of an object.
    fn set_member(&mut self, key: &str, val: JsoncObj)
        requires
            old(self)@ is Object,
        ensures
            final(self)@ == Jval::Object(members_set(old(self)@->Object_0, key@, val@)),
    {
        broadcast use lemma_object_view;
        let mut tmp = JsoncObj::Null;
        std::mem::swap(self, &mut tmp);
        match tmp {
            JsoncObj::Object(mut v) => {
                let ghost es = entries_view(v@);
                let k = key.to_owned();
                match find_key(&v, &k) {
                    Some(i) => {
                        v.set(i, Jentry { key: k, obj: val });
                        assert(entries_view(v@) =~= es.update(i as int, (key@, val@)));
                    },
                    None => {
                        v.push(Jentry { key: k, obj: val });
                        assert(entries_view(v@) =~= es.push((key@, val@)));
                    },
                }
                *self = JsoncObj::Object(v);
            },
            _ => {
                assert(false);
            },
        }
    }

    /// Puts `val` at `idx` of an array.
    fn put_item(&mut self, idx: usize, val: JsoncObj)
        requires
            old(self)@ is Array,
        ensures
            final(self)@ == Jval::Array(items_put(old(self)@->Array_0, idx as int, val@)),
    {
        broadcast use lemma_array_view;
        let mut tmp = JsoncObj::Null;
        std::mem::swap(self, &mut tmp);
        match tmp {
            JsoncObj::Array(mut v) => {
                let ghost items = items_view(v@);
                if idx == usize::MAX {
                } else if idx < v.len() {
                    v.set(idx, val);
                    assert(items_view(v@) =~= items.update(idx as int, val@));
                } else {
                    let ghost n0 = v@.len();
                    while v.len() < idx
                        invariant
                            n0 <= v@.len() <= idx,
                            n0 == items.len(),
                            items_view(v@) =~= items + Seq::new((v@.len() - n0) as nat, |i: int| Jval::Null),
                        decreases idx - v.len(),
                    {
                        let ghost before = items_view(v@);
                        v.push(JsoncObj::Null);
                        assert(items_view(v@) =~= before.push(Jval::Null));
                        assert(items_view(v@) =~= items + Seq::new((v@.len() - n0) as nat, |i: int| Jval::Null));
                    }
                    v.push(val);
                    assert(items_view(v@) =~= items + Seq::new((idx - items.len()) as nat, |i: int| Jval::Null) + seq![val@]);
                }
                *self = JsoncObj::Array(v);
            },
            _ => {
                assert(false);
            },
        }
    }

    /// Appends `val` to an array.
    fn push_item(&mut self, val: JsoncObj)
        requires
            old(self)@ is Array,
        ensures
            final(self)@ == Jval::Array(old(self)@->Array_0.push(val@)),
    {
        broadcast use lemma_array_view;
        let mut tmp = JsoncObj::Null;
        std::mem::swap(self, &mut tmp);
        match tmp {
            JsoncObj::Array(mut v) => {
                let ghost items = items_view(v@);
                v.push(val);
                assert(items_view(v@) =~= items.push(val@));
                *self = JsoncObj::Array(v);
            },
            _ => {
                assert(false);
            },
        }
    }
}

/// A Rust value that can be stored into a JSON object or array.
pub trait JsonImport<T>: View<V = Jval> + Sized {
    /// The values that can be stored (no NUL inside a text).
    spec fn import_ok(value: T) -> bool;

    /// The JSON value a Rust value is stored as.
    spec fn import_view(value: T) -> Jval;

    fn add(&mut self, key: &str, value: T)
        requires
            old(self)@ is Object,
            no_nul(key@),
            Self::import_ok(value),
        ensures
            final(self)@ == Jval::Object(members_set(old(self)@->Object_0, key@, Self::import_view(value))),
    ;

    fn insert(&mut self, idx: usize, value: T)
        requires
            old(self)@ is Array,
            Self::import_ok(value),
        ensures
            final(self)@ == Jval::Array(items_put(old(self)@->Array_0, idx as int, Self::import_view(value))),
    ;

    fn append(&mut self, value: T)
        requires
            old(self)@ is Array,
            Self::import_ok(value),
        ensures
            final(self)@ == Jval::Array(old(self)@->Array_0.push(Self::import_view(value))),
    ;
}

/// Turns a Rust value into the JSON value it is stored as.
pub trait JsonValueOf: Sized {
    spec fn value_ok(self) -> bool;

    spec fn value_view(self) -> Jval;

    fn to_jsonc(self) -> (r: JsoncObj)
        requires
            self.value_ok(),
        ensures
            r@ == self.value_view(),
    ;
}

impl<'a> JsonValueOf for &'a JsoncObj {
    open spec fn value_ok(self) -> bool { true }
    open spec fn value_view(self) -> Jval { self@ }
    fn to_jsonc(self) -> (r: JsoncObj) { self.clone() }
}

impl JsonValueOf for JsoncObj {
    open spec fn value_ok(self) -> bool { true }
    open spec fn value_view(self) -> Jval { self@ }
    fn to_jsonc(self) -> (r: JsoncObj) { self }
}

impl JsonValueOf for bool {
    open spec fn value_ok(self) -> bool { true }
    open spec fn value_view(self) -> Jval { Jval::Bool(self) }
    fn to_jsonc(self) -> (r: JsoncObj) { JsoncObj::Bool(self) }
}

impl JsonValueOf for i64 {
    open spec fn value_ok(self) -> bool { true }
    open spec fn value_view(self) -> Jval { Jval::Int(self) }
    fn to_jsonc(self) -> (r: JsoncObj) { JsoncObj::Int(self) }
}

impl JsonValueOf for u64 {
    open spec fn value_ok(self) -> bool { true }
    open spec fn value_view(self) -> Jval { Jval::Int(self as i64) }
    fn to_jsonc(self) -> (r: JsoncObj) { JsoncObj::Int(self as i64) }
}

impl JsonValueOf for usize {
    open spec fn value_ok(self) -> bool { true }
    open spec fn value_view(self) -> Jval { Jval::Int(self as i64) }
    fn to_jsonc(self) -> (r: JsoncObj) { JsoncObj::Int(self as i64) }
}

impl JsonValueOf for i32 {
    open spec fn value_ok(self) -> bool { true }
    open spec fn value_view(self) -> Jval { Jval::Int(self as i64) }
    fn to_jsonc(self) -> (r: JsoncObj) { JsoncObj::Int(self as i64) }
}

impl JsonValueOf for u32 {
    open spec fn value_ok(self) -> bool { true }
    open spec fn value_view(self) -> Jval { Jval::Int(self as i64) }
    fn to_jsonc(self) -> (r: JsoncObj) { JsoncObj::Int(self as i64) }
}

impl JsonValueOf for i16 {
    open spec fn value_ok(self) -> bool { true }
    open spec fn value_view(self) -> Jval { Jval::Int(self as i64) }
    fn to_jsonc(self) -> (r: JsoncObj) { JsoncObj::Int(self as i64) }
}

impl JsonValueOf for u16 {
    open spec fn value_ok(self) -> bool { true }
    open spec fn value_view(self) -> Jval { Jval::Int(self as i64) }
    fn to_jsonc(self) -> (r: JsoncObj) { JsoncObj::Int(self as i64) }
}

impl JsonValueOf for i8 {
    open spec fn value_ok(self) -> bool { true }
    open spec fn value_view(self) -> Jval { Jval::Int(self as i64) }
    fn to_jsonc(self) -> (r: JsoncObj) { JsoncObj::Int(self as i64) }
}

impl JsonValueOf for u8 {
    open spec fn value_ok(self) -> bool { true }
    open spec fn value_view(self) -> Jval { Jval::Int(self as i64) }
    fn to_jsonc(self) -> (r: JsoncObj) { JsoncObj::Int(self as i64) }
}

impl<'a> JsonValueOf for &'a str {
    open spec fn value_ok(self) -> bool { no_nul(self@) }
    open spec fn value_view(self) -> Jval { Jval::Str(self@) }
    fn to_jsonc(self) -> (r: JsoncObj) { JsoncObj::Str(self.to_owned()) }
}

impl<'a> JsonValueOf for &'a String {
    open spec fn value_ok(self) -> bool { no_nul(self@) }
    open spec fn value_view(self) -> Jval { Jval::Str(self@) }
    fn to_jsonc(self) -> (r: JsoncObj) { JsoncObj::Str(self.clone()) }
}

impl<'a> JsonValueOf for &'a [u8] {
    open spec fn value_ok(self) -> bool {
        vstd::utf8::valid_utf8(self@) && no_nul(vstd::utf8::decode_utf8(self@))
    }
    open spec fn value_view(self) -> Jval { Jval::Str(vstd::utf8::decode_utf8(self@)) }
    fn to_jsonc(self) -> (r: JsoncObj) {
        match bytes_to_str(self) {
            Ok(text) => JsoncObj::Str(text.to_owned()),
            Err(_) => {
                assert(false);
                JsoncObj::Null
            },
        }
    }
}

impl<T: JsonValueOf> JsonImport<T> for JsoncObj {
    open spec fn import_ok(value: T) -> bool {
        value.value_ok()
    }

    open spec fn import_view(value: T) -> Jval {
        value.value_view()
    }

    fn add(&mut self, key: &str, value: T) {
        let v = value.to_jsonc();
        self.set_member(key, v);
    }

    fn insert(&mut self, idx: usize, value: T) {
        let v = value.to_jsonc();
        self.put_item(idx, v);
    }

    fn append(&mut self, value: T) {
        let v = value.to_jsonc();
        self.push_item(v);
    }
}

/// A Rust value that can become a JSON value of its own.
pub trait JsoncImport<T>: Sized {
    spec fn import_allowed(args: T) -> bool;

    spec fn import_spec(args: T) -> Jval;

    fn import(args: T) -> (r: Result<JsoncObj, AfbError>)
        requires
            Self::import_allowed(args),
        ensures
            r matches Ok(o) && o@ == Self::import_spec(args),
    ;
}

impl JsoncImport<JsoncObj> for JsoncObj {
    open spec fn import_allowed(args: JsoncObj) -> bool { true }
    open spec fn import_spec(args: JsoncObj) -> Jval { args@ }
    fn import(args: JsoncObj) -> (r: Result<JsoncObj, AfbError>) { Ok(args) }
}

impl JsoncImport<i64> for JsoncObj {
    open spec fn import_allowed(args: i64) -> bool { true }
    open spec fn import_spec(args: i64) -> Jval { Jval::Int(args) }
    fn import(args: i64) -> (r: Result<JsoncObj, AfbError>) { Ok(JsoncObj::Int(args)) }
}

impl<'a> JsoncImport<&'a String> for JsoncObj {
    open spec fn import_allowed(args: &'a String) -> bool { no_nul(args@) }
    open spec fn import_spec(args: &'a String) -> Jval { Jval::Str(args@) }
    fn import(args: &'a String) -> (r: Result<JsoncObj, AfbError>) { Ok(JsoncObj::Str(args.clone())) }
}

impl From<i64> for JsoncObj {
    fn from(value: i64) -> (r: JsoncObj) {
        JsoncObj::Int(value)
    }
}

impl vstd::std_specs::convert::FromSpecImpl<i64> for JsoncObj {
    open spec fn obeys_from_spec() -> bool {
        true
    }

    open spec fn from_spec(v: i64) -> JsoncObj {
        JsoncObj::Int(v)
    }
}

/// A Rust value a JSON value can be built from.
pub trait JsoncFrom<T>: Sized {
    /// The values that can be turned into JSON (no NUL inside a text).
    spec fn from_ok(value: T) -> bool;

    /// The JSON value built from a Rust value.
    spec fn from_view(value: T) -> Jval;

    fn make(value: T) -> (r: JsoncObj)
        requires
            Self::from_ok(value),
        ensures
            r@ == Self::from_view(value),
    ;
}

impl JsoncFrom<i64> for JsoncObj {
    open spec fn from_ok(value: i64) -> bool { true }
    open spec fn from_view(value: i64) -> Jval { Jval::Int(value) }
    fn make(value: i64) -> (r: JsoncObj) { JsoncObj::Int(value) }
}

impl<'a> JsoncFrom<&'a str> for JsoncObj {
    open spec fn from_ok(value: &'a str) -> bool { no_nul(value@) }
    open spec fn from_view(value: &'a str) -> Jval { Jval::Str(value@) }
    fn make(value: &'a str) -> (r: JsoncObj) { JsoncObj::Str(value.to_owned()) }
}

impl<'a> JsoncFrom<&'a String> for JsoncObj {
    open spec fn from_ok(value: &'a String) -> bool { no_nul(value@) }
    open spec fn from_view(value: &'a String) -> Jval { Jval::Str(value@) }
    fn make(value: &'a String) -> (r: JsoncObj) { JsoncObj::Str(value.clone()) }
}

impl JsoncObj {
    /// A JSON value built from a Rust value: an integer, or a text as a
    /// string.
    pub fn from<T>(args: T) -> (r: JsoncObj)
        where JsoncObj: JsoncFrom<T>,
        requires
            <JsoncObj as JsoncFrom<T>>::from_ok(args),
        ensures
            r@ == <JsoncObj as JsoncFrom<T>>::from_view(args),
    {
        <JsoncObj as JsoncFrom<T>>::make(args)
    }

    /// Sets member `key` of an object; an error when the value is no object.
    pub fn add<T>(&mut self, key: &str, value: T) -> (r: Result<(), AfbError>)
        where JsoncObj: JsonImport<T>,
        requires
            no_nul(key@),
            <JsoncObj as JsonImport<T>>::import_ok(value),
        ensures
            old(self)@ is Object ==> r is Ok && final(self)@ == Jval::Object(members_set(old(self)@->Object_0, key@, <JsoncObj as JsonImport<T>>::import_view(value))),
            !(old(self)@ is Object) ==> final(self)@ == old(self)@ && r is Err && r->Err_0@ == err_view("jsonc-add-fail"@, "jsonc target is not an object"@),
    {
        if !self.is_type(Jtype::Object) {
            return Err(AfbError::msg("jsonc-add-fail", "jsonc target is not an object"));
        }
        <JsoncObj as JsonImport<T>>::add(self, key, value);
        Ok(())
    }

    /// Puts a value at `idx` of an array; an error when the value is no array.
    pub fn insert<T>(&mut self, idx: usize, value: T) -> (r: Result<(), AfbError>)
        where JsoncObj: JsonImport<T>,
        requires
            <JsoncObj as JsonImport<T>>::import_ok(value),
        ensures
            old(self)@ is Array ==> r is Ok && final(self)@ == Jval::Array(items_put(old(self)@->Array_0, idx as int, <JsoncObj as JsonImport<T>>::import_view(value))),
            !(old(self)@ is Array) ==> final(self)@ == old(self)@ && r is Err && r->Err_0@ == err_view("jsonc-insert-fail"@, "jsonc target is not an array"@),
    {
        if !self.is_type(Jtype::Array) {
            return Err(AfbError::msg("jsonc-insert-fail", "jsonc target is not an array"));
        }
        <JsoncObj as JsonImport<T>>::insert(self, idx, value);
        Ok(())
    }

    /// Appends a value to an array; an error when the value is no array.
    pub fn append<T>(&mut self, value: T) -> (r: Result<(), AfbError>)
        where JsoncObj: JsonImport<T>,
        requires
            <JsoncObj as JsonImport<T>>::import_ok(value),
        ensures
            old(self)@ is Array ==> r is Ok && final(self)@ == Jval::Array(old(self)@->Array_0.push(<JsoncObj as JsonImport<T>>::import_view(value))),
            !(old(self)@ is Array) ==> final(self)@ == old(self)@ && r is Err && r->Err_0@ == err_view("jsonc-append-fail"@, "jsonc target is not an array"@),
    {
        if !self.is_type(Jtype::Array) {
            return Err(AfbError::msg("jsonc-append-fail", "jsonc target is not an array"));
        }
        <JsoncObj as JsonImport<T>>::append(self, value);
        Ok(())
    }
}


// ------------------------------------------------------------- comparisons

/// `i` is the first failing position of a sequence of checks.
pub open spec fn first_err_at(rs: Seq<Result<(), AfbErrorView>>, i: int) -> bool {
    &&& 0 <= i < rs.len()
    &&& rs[i] is Err
    &&& forall|j: int| 0 <= j < i ==> rs[j] is Ok
}

/// The outcome of checks made in order, stopping at the first failure.
pub open spec fn first_err(rs: Seq<Result<(), AfbErrorView>>) -> Result<(), AfbErrorView> {
    if exists|i: int| first_err_at(rs, i) {
        rs[choose|i: int| first_err_at(rs, i)]
    } else {
        Ok(())
    }
}

pub proof fn lemma_first_err_found(rs: Seq<Result<(), AfbErrorView>>, i: int)
    requires
        first_err_at(rs, i),
    ensures
        first_err(rs) == rs[i],
{
    let k = choose|k: int| first_err_at(rs, k);
    assert(first_err_at(rs, k));
    if k < i {
        assert(rs[k] is Ok);
    } else if i < k {
        assert(rs[i] is Ok);
    }
}

pub proof fn lemma_first_err_none(rs: Seq<Result<(), AfbErrorView>>)
    requires
        forall|j: int| 0 <= j < rs.len() ==> rs[j] is Ok,
    ensures
        first_err(rs) == Ok::<(), AfbErrorView>(()),
{
}

/// The check of member `j` of `tes` against `recv`.
pub open spec fn contains_check(recv: Jval, tes: Seq<(Seq<char>, Jval)>, j: int) -> Result<(), AfbErrorView> {
    match jval_member(recv, tes[j].0) {
        None => Err(key_missing(tes[j].0)),
        Some(m) => if json_text(m) == json_text(tes[j].1) {
            Ok(())
        } else {
            Err(err_view("jsonc-contains-fail"@, "json-token-not-found"@))
        },
    }
}

/// The checks of all members of `tes` against `recv`, in order.
pub open spec fn contains_checks(recv: Jval, tes: Seq<(Seq<char>, Jval)>) -> Seq<Result<(), AfbErrorView>> {
    Seq::new(tes.len(), |j: int| contains_check(recv, tes, j))
}

/// Outcome of checking that every member of `tok` is found in `recv`,
/// with a value of the same JSON text.
pub open spec fn contains_spec(recv: Jval, tok: Jval) -> Result<(), AfbErrorView> {
    match tok {
        Jval::Object(tes) => first_err(contains_checks(recv, tes)),
        _ => Ok(()),
    }
}

/// No member name of an object holds a NUL character.
pub open spec fn keys_no_nul(v: Jval) -> bool {
    match v {
        Jval::Object(es) => forall|j: int| 0 <= j < es.len() ==> no_nul(#[trigger] es[j].0),
        _ => true,
    }
}

impl JsoncObj {
    /// Checks that every member of `jtok` is a member of this value, with
    /// a value of the same JSON text.
    pub fn contains(&self, jtok: JsoncObj) -> (r: Result<(), AfbError>)
        requires
            keys_no_nul(jtok@),
        ensures
            res_view(r) == contains_spec(self@, jtok@),
    {
        broadcast use lemma_object_view;
        let jvec = match jtok.expand() {
            Ok(v) => v,
            Err(e) => return Err(e),
        };
        let ghost tes = entries_view(jvec@);
        let ghost rs = contains_checks(self@, tes);
        let n = jvec.len();
        let mut i: usize = 0;
        while i < n
            invariant
                n == jvec@.len(),
                i <= n,
                tes == entries_view(jvec@),
                tes == match jtok@ {
                    Jval::Object(es) => es,
                    _ => Seq::empty(),
                },
                keys_no_nul(jtok@),
                rs == contains_checks(self@, tes),
                forall|j: int| 0 <= j < i ==> #[trigger] rs[j] is Ok,
            decreases n - i,
        {
            let entry = &jvec[i];
            proof {
                assert(tes[i as int] == jvec@[i as int]@);
                assert(tes.len() == n);
                assert(jtok@ is Object);
                if let Jval::Object(es) = jtok@ {
                    assert(no_nul(es[i as int].0));
                }
                assert(no_nul(tes[i as int].0));
            }
            match self.get::<JsoncObj>(entry.key.as_str()) {
                Err(error) => {
                    proof {
                        assert(entry.key@ == tes[i as int].0);
                        assert(rs[i as int] is Err);
                        lemma_first_err_found(rs, i as int);
                    }
                    return Err(error);
                },
                Ok(value) => {
                    let kval = entry.obj.to_json_text();
                    let tval = value.to_json_text();
                    if kval != tval {
                        proof {
                            assert(entry.key@ == tes[i as int].0);
                            assert(entry.obj@ == tes[i as int].1);
                            lemma_first_err_found(rs, i as int);
                        }
                        return Err(AfbError::msg("jsonc-contains-fail", "json-token-not-found"));
                    }
                },
            }
            proof {
                assert(entry.key@ == tes[i as int].0);
                assert(entry.obj@ == tes[i as int].1);
                assert(rs[i as int] is Ok);
            }
            i = i + 1;
        }
        proof {
            lemma_first_err_none(rs);
        }
        Ok(())
    }
}


/// Error when a received value has another type than the expected one.
pub open spec fn type_mismatch(uid: Seq<char>, recv: Jval, exp: Jval) -> AfbErrorView {
    err_view(
        uid,
        "jsonc-match invalid type received:"@ + jtype_name(jtype_of(recv)) + " expected:"@ + jtype_name(jtype_of(exp)),
    )
}

/// Error when a received value differs from the expected one.
pub open spec fn value_mismatch(uid: Seq<char>, recv: Jval, exp: Jval) -> AfbErrorView {
    err_view(uid, "jsonc-match invalid value received:"@ + json_text(recv) + " expected:"@ + json_text(exp))
}

/// The label of the item at `idx` of an array labelled `uid`.
pub open spec fn slot_uid(uid: Seq<char>, idx: int) -> Seq<char> {
    uid + seq![':'] + int_text(idx)
}

/// Two values of the same scalar type that hold the same thing; never
/// true of nulls.
pub open spec fn scalar_same(recv: Jval, exp: Jval) -> bool {
    match (recv, exp) {
        (Jval::Bool(a), Jval::Bool(b)) => a == b,
        (Jval::Int(a), Jval::Int(b)) => a == b,
        (Jval::Float(a), Jval::Float(b)) => a == b,
        (Jval::Str(a), Jval::Str(b)) => a == b,
        _ => false,
    }
}

/// Outcome of matching a received value against an expected one.
pub open spec fn equal_spec(recv: Jval, uid: Seq<char>, exp: Jval, tag: Jequal) -> Result<(), AfbErrorView>
    decreases recv,
{
    match exp {
        Jval::Array(eitems) => match recv {
            Jval::Array(ritems) => first_err(array_checks(ritems, uid, eitems, tag)),
            _ => Err(type_mismatch(uid, recv, exp)),
        },
        Jval::Object(ees) => match recv {
            Jval::Object(res) => match tag {
                Jequal::Partial => first_err(partial_checks(res, json_text(recv), uid, ees, tag)),
                Jequal::Full => first_err(full_checks(res, uid, ees, json_text(exp), tag)),
            },
            _ => Err(type_mismatch(uid, recv, exp)),
        },
        _ => if jtype_of(exp) != jtype_of(recv) {
            Err(type_mismatch(uid, recv, exp))
        } else if scalar_same(recv, exp) {
            Ok(())
        } else {
            Err(value_mismatch(uid, recv, exp))
        },
    }
}

/// The checks of the received items, in order: item `i` against expected
/// item `i`, null one past the end, an error further.
pub open spec fn array_checks(ritems: Seq<Jval>, uid: Seq<char>, eitems: Seq<Jval>, tag: Jequal) -> Seq<Result<(), AfbErrorView>>
    decreases ritems,
{
    Seq::new(
        ritems.len(),
        |i: int|
            if 0 <= i < ritems.len() {
                if i > eitems.len() {
                    Err(index_out_of_bound())
                } else {
                    equal_spec(
                        ritems[i],
                        slot_uid(uid, i),
                        if i < eitems.len() {
                            eitems[i]
                        } else {
                            Jval::Null
                        },
                        tag,
                    )
                }
            } else {
                Ok(())
            },
    )
}

/// The checks of the expected members, in order, each against the first
/// received member of its name.
pub open spec fn partial_checks(
    res: Seq<(Seq<char>, Jval)>,
    recv_text: Seq<char>,
    uid: Seq<char>,
    ees: Seq<(Seq<char>, Jval)>,
    tag: Jequal,
) -> Seq<Result<(), AfbErrorView>>
    decreases res,
{
    Seq::new(
        ees.len(),
        |j: int|
            match key_pos(res, ees[j].0) {
                None => Err(err_view(uid, "jsonc-match fail to find key:"@ + ees[j].0 + " query:"@ + recv_text)),
                Some(k) => if 0 <= k < res.len() {
                    equal_spec(res[k].1, ees[j].0, ees[j].1, tag)
                } else {
                    Ok(())
                },
            },
    )
}

/// The checks of the received members, in order, each against the first
/// expected member of its name.
pub open spec fn full_checks(
    res: Seq<(Seq<char>, Jval)>,
    uid: Seq<char>,
    ees: Seq<(Seq<char>, Jval)>,
    exp_text: Seq<char>,
    tag: Jequal,
) -> Seq<Result<(), AfbErrorView>>
    decreases res,
{
    Seq::new(
        res.len(),
        |j: int|
            if 0 <= j < res.len() {
                match key_pos(ees, res[j].0) {
                    None => Err(err_view(uid, "jsonc-match fail to find key:"@ + res[j].0 + " expected:"@ + exp_text)),
                    Some(k) => equal_spec(res[j].1, ees[k].0, ees[k].1, tag),
                }
            } else {
                Ok(())
            },
    )
}

/// The name a type is printed with.
pub fn jtype_text(t: Jtype) -> (r: &'static str)
    ensures
        r@ == jtype_name(t),
{
    match t {
        Jtype::Array => "Array",
        Jtype::String => "String",
        Jtype::Bool => "Bool",
        Jtype::Int => "Int",
        Jtype::Float => "Float",
        Jtype::Object => "Object",
        Jtype::Null => "Null",
        Jtype::Unknown => "Unknown",
    }
}

fn type_error(uid: &str, recv: &JsoncObj, exp: &JsoncObj) -> (r: AfbError)
    ensures
        r@ == type_mismatch(uid@, recv@, exp@),
{
    let mut msg = String::new();
    push_str(&mut msg, "jsonc-match invalid type received:");
    push_str(&mut msg, jtype_text(recv.get_type()));
    push_str(&mut msg, " expected:");
    push_str(&mut msg, jtype_text(exp.get_type()));
    assert(msg@ =~= "jsonc-match invalid type received:"@ + jtype_name(jtype_of(recv@)) + " expected:"@
        + jtype_name(jtype_of(exp@)));
    AfbError::msg_string(uid, msg)
}

fn value_error(uid: &str, recv: &JsoncObj, exp: &JsoncObj) -> (r: AfbError)
    ensures
        r@ == value_mismatch(uid@, recv@, exp@),
{
    let mut msg = String::new();
    push_str(&mut msg, "jsonc-match invalid value received:");
    recv.write_json(&mut msg);
    push_str(&mut msg, " expected:");
    exp.write_json(&mut msg);
    assert(msg@ =~= "jsonc-match invalid value received:"@ + json_text(recv@) + " expected:"@ + json_text(exp@));
    AfbError::msg_string(uid, msg)
}

fn missing_member_error(uid: &str, key: &str, what: &str, text: &JsoncObj) -> (r: AfbError)
    ensures
        r@ == err_view(uid@, "jsonc-match fail to find key:"@ + key@ + what@ + json_text(text@)),
{
    let mut msg = String::new();
    push_str(&mut msg, "jsonc-match fail to find key:");
    push_str(&mut msg, key);
    push_str(&mut msg, what);
    text.write_json(&mut msg);
    assert(msg@ =~= "jsonc-match fail to find key:"@ + key@ + what@ + json_text(text@));
    AfbError::msg_string(uid, msg)
}

fn slot_label(uid: &str, idx: usize) -> (r: String)
    ensures
        r@ == slot_uid(uid@, idx as int),
{
    let mut s = uid.to_owned();
    push_char(&mut s, ':');
    crate::text::push_u64(&mut s, idx as u64);
    assert(s@ =~= slot_uid(uid@, idx as int));
    s
}

impl JsoncObj {
    fn equal_ref(&self, uid: &str, exp: &JsoncObj, tag: Jequal) -> (r: Result<(), AfbError>)
        ensures
            res_view(r) == equal_spec(self@, uid@, exp@, tag),
        decreases self,
    {
        broadcast use {lemma_array_view, lemma_object_view};
        match exp {
            JsoncObj::Array(ev) => {
                match self {
                    JsoncObj::Array(rv) => {
                        let ghost ritems = items_view(rv@);
                        let ghost eitems = items_view(ev@);
                        let ghost rs = array_checks(ritems, uid@, eitems, tag);
                        assert(equal_spec(self@, uid@, exp@, tag) == first_err(rs));
                        let n = rv.len();
                        let mut idx: usize = 0;
                        while idx < n
                            invariant
                                n == rv@.len(),
                                idx <= n,
                                *self == JsoncObj::Array(*rv),
                                *exp == JsoncObj::Array(*ev),
                                ritems == items_view(rv@),
                                eitems == items_view(ev@),
                                rs == array_checks(ritems, uid@, eitems, tag),
                                equal_spec(self@, uid@, exp@, tag) == first_err(rs),
                                forall|j: int| 0 <= j < idx ==> #[trigger] rs[j] is Ok,
                            decreases n - idx,
                        {
                            if idx > ev.len() {
                                proof {
                                    lemma_first_err_found(rs, idx as int);
                                }
                                return Err(AfbError::msg("jsonc-array-size", "jsonc array index out of bound"));
                            }
                            let uid_slot = slot_label(uid, idx);
                            let null = JsoncObj::Null;
                            let eslot: &JsoncObj = if idx < ev.len() {
                                &ev[idx]
                            } else {
                                &null
                            };
                            assert(decreases_to!(*self => self->Array_0));
                            assert(decreases_to!(self->Array_0 => self->Array_0@));
                            assert(decreases_to!(self->Array_0@ => rv@[idx as int]));
                            proof {
                                assert(ritems[idx as int] == rv@[idx as int]@);
                                if idx < ev.len() {
                                    assert(eitems[idx as int] == ev@[idx as int]@);
                                }
                                assert(rs[idx as int] == equal_spec(rv@[idx as int]@, uid_slot@, eslot@, tag));
                            }
                            match rv[idx].equal_ref(uid_slot.as_str(), eslot, tag) {
                                Err(e) => {
                                    proof {
                                        lemma_first_err_found(rs, idx as int);
                                    }
                                    return Err(e);
                                },
                                Ok(()) => {},
                            }
                            idx = idx + 1;
                        }
                        proof {
                            lemma_first_err_none(rs);
                        }
                        Ok(())
                    },
                    _ => Err(type_error(uid, self, exp)),
                }
            },
            JsoncObj::Object(ev) => {
                match self {
                    JsoncObj::Object(rv) => {
                        let ghost res = entries_view(rv@);
                        let ghost ees = entries_view(ev@);
                        match tag {
                            Jequal::Partial => {
                                let ghost rs = partial_checks(res, json_text(self@), uid@, ees, tag);
                                assert(equal_spec(self@, uid@, exp@, tag) == first_err(rs));
                                let n = ev.len();
                                let mut j: usize = 0;
                                while j < n
                                    invariant
                                        n == ev@.len(),
                                        j <= n,
                                        *self == JsoncObj::Object(*rv),
                                        *exp == JsoncObj::Object(*ev),
                                        res == entries_view(rv@),
                                        ees == entries_view(ev@),
                                        tag == Jequal::Partial,
                                        rs == partial_checks(res, json_text(self@), uid@, ees, tag),
                                        equal_spec(self@, uid@, exp@, tag) == first_err(rs),
                                        forall|i: int| 0 <= i < j ==> #[trigger] rs[i] is Ok,
                                    decreases n - j,
                                {
                                    let ghost gj = j as int;
                                    assert(ees[gj] == ev@[gj]@);
                                    match find_key(rv, &ev[j].key) {
                                        None => {
                                            proof {
                                                lemma_first_err_found(rs, gj);
                                            }
                                            return Err(missing_member_error(uid, ev[j].key.as_str(), " query:", self));
                                        },
                                        Some(k) => {
                                            proof {
                                                lemma_key_pos_range(res, ees[gj].0);
                                                assert(res[k as int] == rv@[k as int]@);
                                            }
                                            assert(decreases_to!(*self => self->Object_0));
                                            assert(decreases_to!(self->Object_0 => self->Object_0@));
                                            assert(decreases_to!(self->Object_0@ => rv@[k as int]));
                                            assert(decreases_to!(rv@[k as int] => rv@[k as int].obj));
                                            match rv[k].obj.equal_ref(ev[j].key.as_str(), &ev[j].obj, tag) {
                                                Err(e) => {
                                                    proof {
                                                        lemma_first_err_found(rs, gj);
                                                    }
                                                    return Err(e);
                                                },
                                                Ok(()) => {},
                                            }
                                        },
                                    }
                                    j = j + 1;
                                }
                                proof {
                                    lemma_first_err_none(rs);
                                }
                                Ok(())
                            },
                            Jequal::Full => {
                                let ghost rs = full_checks(res, uid@, ees, json_text(exp@), tag);
                                assert(equal_spec(self@, uid@, exp@, tag) == first_err(rs));
                                let n = rv.len();
                                let mut j: usize = 0;
                                while j < n
                                    invariant
                                        n == rv@.len(),
                                        j <= n,
                                        *self == JsoncObj::Object(*rv),
                                        *exp == JsoncObj::Object(*ev),
                                        res == entries_view(rv@),
                                        ees == entries_view(ev@),
                                        tag == Jequal::Full,
                                        rs == full_checks(res, uid@, ees, json_text(exp@), tag),
                                        equal_spec(self@, uid@, exp@, tag) == first_err(rs),
                                        forall|i: int| 0 <= i < j ==> #[trigger] rs[i] is Ok,
                                    decreases n - j,
                                {
                                    let ghost gj = j as int;
                                    assert(res[gj] == rv@[gj]@);
                                    match find_key(ev, &rv[j].key) {
                                        None => {
                                            proof {
                                                lemma_first_err_found(rs, gj);
                                            }
                                            return Err(missing_member_error(uid, rv[j].key.as_str(), " expected:", exp));
                                        },
                                        Some(k) => {
                                            proof {
                                                lemma_key_pos_range(ees, res[gj].0);
                                                assert(ees[k as int] == ev@[k as int]@);
                                            }
                                            assert(decreases_to!(*self => self->Object_0));
                                            assert(decreases_to!(self->Object_0 => self->Object_0@));
                                            assert(decreases_to!(self->Object_0@ => rv@[gj]));
                                            assert(decreases_to!(rv@[gj] => rv@[gj].obj));
                                            match rv[j].obj.equal_ref(ev[k].key.as_str(), &ev[k].obj, tag) {
                                                Err(e) => {
                                                    proof {
                                                        lemma_first_err_found(rs, gj);
                                                    }
                                                    return Err(e);
                                                },
                                                Ok(()) => {},
                                            }
                                        },
                                    }
                                    j = j + 1;
                                }
                                proof {
                                    lemma_first_err_none(rs);
                                }
                                Ok(())
                            },
                        }
                    },
                    _ => Err(type_error(uid, self, exp)),
                }
            },
            _ => {
                if exp.get_type() != self.get_type() {
                    return Err(type_error(uid, self, exp));
                }
                let equal = match (self, exp) {
                    (JsoncObj::Bool(a), JsoncObj::Bool(b)) => *a == *b,
                    (JsoncObj::Int(a), JsoncObj::Int(b)) => *a == *b,
                    (JsoncObj::Float(a), JsoncObj::Float(b)) => *a == *b,
                    (JsoncObj::Str(a), JsoncObj::Str(b)) => *a == *b,
                    _ => false,
                };
                if !equal {
                    return Err(value_error(uid, self, exp));
                }
                Ok(())
            },
        }
    }

    /// Matches this received value against an expected one: arrays item by
    /// item, objects member by member (`Partial`: the expected members must
    /// be found; `Full`: the received ones must be expected), and other
    /// values by type and content. The first mismatch is the error.
    pub fn equal(&self, uid: &str, jexpected: JsoncObj, tag: Jequal) -> (r: Result<(), AfbError>)
        ensures
            res_view(r) == equal_spec(self@, uid@, jexpected@, tag),
    {
        self.equal_ref(uid, &jexpected, tag)
    }
}


impl AfbError {
    /// The error as a JSON object: `{"uid":..,"info":..}`.
    pub fn to_jsonc(&self) -> (r: Result<JsoncObj, AfbError>)
        requires
            no_nul(self@.uid),
            no_nul(self@.info),
        ensures
            r matches Ok(o) && o@ == Jval::Object(seq![("uid"@, Jval::Str(self@.uid)), ("info"@, Jval::Str(self@.info))]),
    {
        let mut jobject = JsoncObj::new();
        let uid = self.get_uid();
        let info = self.get_info();
        proof {
            reveal_strlit("uid");
            reveal_strlit("info");
            lemma_key_pos_absent(Seq::empty(), "uid"@);
            assert("uid"@.len() != "info"@.len());
            assert(seq![("uid"@, Jval::Str(self@.uid))][0].0 != "info"@);
            lemma_key_pos_absent(seq![("uid"@, Jval::Str(self@.uid))], "info"@);
        }
        match jobject.add("uid", &uid) {
            Ok(()) => {},
            Err(e) => return Err(e),
        }
        match jobject.add("info", &info) {
            Ok(()) => {},
            Err(e) => return Err(e),
        }
        assert(jobject@->Object_0 =~= seq![("uid"@, Jval::Str(self@.uid)), ("info"@, Jval::Str(self@.info))]);
        Ok(jobject)
    }
}

/// A text handed to a JSON import is JSON text to parse when it starts
/// with `{` or `[`; any other text is taken as a string value.
pub open spec fn json_text_shape(value: Seq<char>) -> bool {
    value.len() > 0 && (value[0] == '{' || value[0] == '[')
}

/// Tells a text to parse from a text to take as a string value.
pub fn is_json_text(value: &str) -> (r: bool)
    ensures
        r == json_text_shape(value@),
{
    if value.unicode_len() == 0 {
        return false;
    }
    let c = value.get_char(0);
    c == '{' || c == '['
}

/// The string value a text that is no JSON text is imported as.
pub fn import_plain_text(value: &str) -> (r: Result<JsoncObj, AfbError>)
    requires
        no_nul(value@),
    ensures
        r matches Ok(o) && o@ == Jval::Str(value@),
{
    Ok(JsoncObj::Str(value.to_owned()))
}

/// Reads a JSON value as a Rust value of type `T`.
pub trait DoPutJso<T: View>: JsoncExport<T> {
    fn put_jso(jso: &JsoncObj) -> (r: Result<T, AfbError>)
        ensures
            res_view(r) == Self::export_spec(jso@),
    ;
}

impl<T: View> DoPutJso<T> for JsoncObj where JsoncObj: JsoncExport<T> {
    fn put_jso(jso: &JsoncObj) -> (r: Result<T, AfbError>) {
        <JsoncObj as JsoncExport<T>>::from_jso(jso)
    }
}

/// Error when an object has no member of the key asked for, as the
/// member lookup of `DoGetJso` reports it.
pub open spec fn member_missing(key: Seq<char>) -> AfbErrorView {
    err_view("jconc-key-missing"@, key)
}

/// Finds a JSON value inside another one by a key of type `K`.
pub trait DoGetJso<K: View>: Sized {
    spec fn lookup_allowed(key: K::V, v: Jval) -> bool;

    spec fn lookup_spec(key: K::V, v: Jval) -> Result<Jval, AfbErrorView>;

    fn get_jso(key: K, jso: &JsoncObj) -> (r: Result<JsoncObj, AfbError>)
        requires
            Self::lookup_allowed(key@, jso@),
        ensures
            res_view(r) == Self::lookup_spec(key@, jso@),
    ;
}

impl<'a> DoGetJso<&'a str> for JsoncObj {
    open spec fn lookup_allowed(key: Seq<char>, v: Jval) -> bool {
        no_nul(key)
    }

    open spec fn lookup_spec(key: Seq<char>, v: Jval) -> Result<Jval, AfbErrorView> {
        match jval_member(v, key) {
            Some(m) => Ok(m),
            None => Err(member_missing(key)),
        }
    }

    fn get_jso(key: &'a str, jso: &JsoncObj) -> (r: Result<JsoncObj, AfbError>) {
        match <JsoncObj as ImportJso<&'a str>>::get_jso(key, jso) {
            Ok(found) => Ok(found),
            Err(_) => Err(AfbError::msg("jconc-key-missing", key)),
        }
    }
}

impl DoGetJso<usize> for JsoncObj {
    open spec fn lookup_allowed(key: usize, v: Jval) -> bool {
        v is Array
    }

    open spec fn lookup_spec(key: usize, v: Jval) -> Result<Jval, AfbErrorView> {
        items_at(v->Array_0, key as int)
    }

    fn get_jso(key: usize, jso: &JsoncObj) -> (r: Result<JsoncObj, AfbError>) {
        <JsoncObj as ImportJso<usize>>::get_jso(key, jso)
    }
}

/// Stores a Rust value into a JSON object under a key, or at the end of a
/// JSON array.
pub trait DoAddon<T>: JsonImport<T> {
    fn add(&mut self, key: &str, value: T)
        requires
            old(self)@ is Object,
            no_nul(key@),
            Self::import_ok(value),
        ensures
            final(self)@ == Jval::Object(members_set(old(self)@->Object_0, key@, Self::import_view(value))),
    ;

    fn insert(&mut self, value: T)
        requires
            old(self)@ is Array,
            Self::import_ok(value),
        ensures
            final(self)@ == Jval::Array(old(self)@->Array_0.push(Self::import_view(value))),
    ;
}

impl<T> DoAddon<T> for JsoncObj where JsoncObj: JsonImport<T> {
    fn add(&mut self, key: &str, value: T) {
        <JsoncObj as JsonImport<T>>::add(self, key, value);
    }

    fn insert(&mut self, value: T) {
        <JsoncObj as JsonImport<T>>::append(self, value);
    }
}

} // verus!
