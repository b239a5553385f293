//! JSON values, and the text that `rustc_serialize` reads and writes for them.
use vstd::prelude::*;
use crate::text::str_eq;
use rustc_serialize::json::Json as RustcJson;

verus! {

/// A JSON value as the library reads and builds it.
#[derive(Debug, PartialEq)]
pub enum JsonValue {
    Null,
    Boolean(bool),
    I64(i64),
    U64(u64),
    /// A number that is no integer, held as the text that Rust's `to_string`
    /// gives for the `f64` value.
    F64(String),
    Str(String),
    Array(Vec<JsonValue>),
    /// An object's entries. Each key stands once in an object that was read from
    /// text; where one stands twice, the last entry counts, for `get` as for the
    /// written text.
    Object(Vec<(String, JsonValue)>),
}

/// The mathematical value of a `JsonValue`.
#[verifier::ext_equal]
pub enum JsonView {
    Null,
    Boolean(bool),
    I64(i64),
    U64(u64),
    F64(Seq<char>),
    Str(Seq<char>),
    Array(Seq<JsonView>),
    Object(Seq<(Seq<char>, JsonView)>),
}

impl JsonValue {
    /// The value's view, node by node.
    pub open spec fn view_json(&self) -> JsonView
        decreases self,
    {
        match self {
            JsonValue::Null => JsonView::Null,
            JsonValue::Boolean(b) => JsonView::Boolean(*b),
            JsonValue::I64(n) => JsonView::I64(*n),
            JsonValue::U64(n) => JsonView::U64(*n),
            JsonValue::F64(t) => JsonView::F64(t@),
            JsonValue::Str(s) => JsonView::Str(s@),
            JsonValue::Array(items) => JsonView::Array(
                Seq::new(items@.len(), |i: int| if 0 <= i < items@.len() { items@[i].view_json() } else { JsonView::Null }),
            ),
            JsonValue::Object(fields) => JsonView::Object(
                Seq::new(fields@.len(), |i: int| if 0 <= i < fields@.len() { (fields@[i].0@, fields@[i].1.view_json()) } else { (Seq::empty(), JsonView::Null) }),
            ),
        }
    }
}

/// The keys and values of a list of entries, as the object's view holds them.
pub open spec fn entries_view(entries: Seq<(String, JsonValue)>) -> Seq<(Seq<char>, JsonView)> {
    Seq::new(entries.len(), |i: int| (entries[i].0@, entries[i].1@))
}

/// An object's view is the view of its entries.
pub proof fn lemma_object_view(entries: Vec<(String, JsonValue)>)
    ensures
        JsonValue::Object(entries)@ == JsonView::Object(entries_view(entries@)),
{
    let o = JsonValue::Object(entries);
    assert(o@->Object_0 =~= entries_view(entries@));
}

/// The views of a list of values.
pub open spec fn items_view(items: Seq<JsonValue>) -> Seq<JsonView> {
    Seq::new(items.len(), |i: int| items[i]@)
}

/// An array's view is the view of its items.
pub proof fn lemma_array_view(items: Vec<JsonValue>)
    ensures
        JsonValue::Array(items)@ == JsonView::Array(items_view(items@)),
{
    let a = JsonValue::Array(items);
    assert(a@->Array_0 =~= items_view(items@));
}

/// Adds an entry at the end of a list of entries.
pub fn push_field(fields: &mut Vec<(String, JsonValue)>, key: &str, value: JsonValue)
    ensures
        entries_view(final(fields)@) == entries_view(old(fields)@).push((key@, value@)),
{
    let k = key.to_owned();
    fields.push((k, value));
    assert(entries_view(fields@) =~= entries_view(old(fields)@).push((key@, value@)));
}

/// The value of the last entry of `fields` whose key is `key`, the one that counts
/// where a key stands twice.
pub open spec fn get_field(fields: Seq<(Seq<char>, JsonView)>, key: Seq<char>) -> Option<JsonView> {
    if exists|i: int| is_last_key(fields, key, i) {
        Some(fields[choose|i: int| is_last_key(fields, key, i)].1)
    } else {
        None
    }
}

/// `i` is the last place where `fields` has the key `key`.
pub open spec fn is_last_key(fields: Seq<(Seq<char>, JsonView)>, key: Seq<char>, i: int) -> bool {
    &&& 0 <= i < fields.len()
    &&& fields[i].0 == key
    &&& forall|j: int| i < j < fields.len() ==> fields[j].0 != key
}

/// The last entry with a key is the one that `get_field` finds.
pub proof fn lemma_last_key_unique(fields: Seq<(Seq<char>, JsonView)>, key: Seq<char>, i: int)
    requires
        is_last_key(fields, key, i),
    ensures
        get_field(fields, key) == Some(fields[i].1),
{
    let k = choose|k: int| is_last_key(fields, key, k);
    assert(is_last_key(fields, key, k));
    if k < i {
        assert(fields[k].0 != key);
    }
    if i < k {
        assert(fields[i].0 != key);
    }
}

/// Where no later entry has its key, an entry is what `get_field` finds for it.
pub proof fn lemma_get_field_at(fields: Seq<(Seq<char>, JsonView)>, i: int)
    requires
        0 <= i < fields.len(),
        forall|j: int| i < j < fields.len() ==> fields[j].0 != fields[i].0,
    ensures
        get_field(fields, fields[i].0) == Some(fields[i].1),
{
    assert(is_last_key(fields, fields[i].0, i));
    lemma_last_key_unique(fields, fields[i].0, i);
}

/// An entry with another key leaves what `get_field` finds as it was.
pub proof fn lemma_get_field_other_entry(
    fields: Seq<(Seq<char>, JsonView)>,
    p: int,
    entry: (Seq<char>, JsonView),
    key: Seq<char>,
)
    requires
        0 <= p <= fields.len(),
        entry.0 != key,
    ensures
        get_field(fields.insert(p, entry), key) == get_field(fields, key),
{
    let nf = fields.insert(p, entry);
    fields.insert_ensures(p, entry);
    if exists|i: int| is_last_key(fields, key, i) {
        let i = choose|i: int| is_last_key(fields, key, i);
        lemma_last_key_unique(fields, key, i);
        let ni = if i < p { i } else { i + 1 };
        assert forall|j: int| ni < j < nf.len() implies nf[j].0 != key by {
            if j != p {
                let oj = if j < p { j } else { j - 1 };
                assert(nf[j] == fields[oj]);
            }
        }
        assert(is_last_key(nf, key, ni));
        lemma_last_key_unique(nf, key, ni);
    } else {
        if exists|i: int| is_last_key(nf, key, i) {
            let i = choose|i: int| is_last_key(nf, key, i);
            let oi = if i < p { i } else { i - 1 };
            assert(i != p);
            assert(fields[oi] == nf[i]);
            assert forall|j: int| oi < j < fields.len() implies fields[j].0 != key by {
                let nj = if j < p { j } else { j + 1 };
                assert(nf[nj] == fields[j]);
            }
            assert(is_last_key(fields, key, oi));
        }
    }
}

/// A JSON string, or `null` for `None`.
pub open spec fn opt_str(s: Option<Seq<char>>) -> JsonView {
    match s {
        Some(t) => JsonView::Str(t),
        None => JsonView::Null,
    }
}

/// What `rustc_serialize` reads from a text: `None` where the text is no JSON.
pub uninterp spec fn json_parse(text: Seq<char>) -> Option<JsonView>;

/// The compact text that `rustc_serialize` writes for a value.
pub uninterp spec fn json_encode(value: JsonView) -> Seq<char>;

#[verifier::external_type_specification]
#[verifier::external_body]
pub struct ExRustcJson(rustc_serialize::json::Json);

/// Turns a value of `rustc_serialize` into the library's, one node for one node.
#[verifier::external_body]
fn from_rustc(j: &RustcJson) -> JsonValue {
    match j {
        RustcJson::I64(n) => JsonValue::I64(*n),
        RustcJson::U64(n) => JsonValue::U64(*n),
        RustcJson::F64(x) => JsonValue::F64(x.to_string()),
        RustcJson::String(s) => JsonValue::Str(s.clone()),
        RustcJson::Boolean(b) => JsonValue::Boolean(*b),
        RustcJson::Array(a) => JsonValue::Array(a.iter().map(from_rustc).collect()),
        RustcJson::Object(o) => JsonValue::Object(o.iter().map(|(k, v)| (k.clone(), from_rustc(v))).collect()),
        RustcJson::Null => JsonValue::Null,
    }
}

/// Turns a value of the library into `rustc_serialize`'s, one node for one node. A
/// number's text that does not read as an `f64`, which `from_rustc` never makes,
/// becomes `null`; of two entries with one key, the last stays.
#[verifier::external_body]
fn to_rustc(j: &JsonValue) -> RustcJson {
    match j {
        JsonValue::I64(n) => RustcJson::I64(*n),
        JsonValue::U64(n) => RustcJson::U64(*n),
        JsonValue::F64(t) => t.parse().map(RustcJson::F64).unwrap_or(RustcJson::Null),
        JsonValue::Str(s) => RustcJson::String(s.clone()),
        JsonValue::Boolean(b) => RustcJson::Boolean(*b),
        JsonValue::Array(a) => RustcJson::Array(a.iter().map(to_rustc).collect()),
        JsonValue::Object(o) => RustcJson::Object(o.iter().map(|(k, v)| (k.clone(), to_rustc(v))).collect()),
        JsonValue::Null => RustcJson::Null,
    }
}

/// `rustc_serialize::json::Json::from_str`: reads a JSON text. What it gives is named
/// `json_parse` of the text; `None` stands for its `BuilderError`.
#[verifier::external_body]
fn read_json(text: &str) -> (r: Option<JsonValue>)
    ensures
        match r {
            Some(j) => json_parse(text@) == Some(j@),
            None => json_parse(text@) is None,
        },
{
    match RustcJson::from_str(text) {
        Ok(j) => Some(from_rustc(&j)),
        Err(_) => None,
    }
}

/// `rustc_serialize`'s `Display` for `JsonValue` (its `Encoder`): the compact text of a value,
/// named `json_encode` of the value.
#[verifier::external_body]
fn write_json(j: &JsonValue) -> (r: String)
    ensures
        r@ == json_encode(j@),
{
    to_rustc(j).to_string()
}

impl JsonValue {
    /// Reads a JSON text; `None` where it is no JSON.
    pub fn from_str(text: &str) -> (r: Option<JsonValue>)
        ensures
            match r {
                Some(j) => json_parse(text@) == Some(j@),
                None => json_parse(text@) is None,
            },
    {
        read_json(text)
    }

    /// The compact JSON text of the value.
    pub fn to_string(&self) -> (r: String)
        ensures
            r@ == json_encode(self@),
    {
        write_json(self)
    }

    /// The value of the last entry with key `key`, where the value is an object.
    pub fn get(&self, key: &str) -> (r: Option<&JsonValue>)
        ensures
            match self@ {
                JsonView::Object(fields) => match r {
                    Some(v) => get_field(fields, key@) == Some(v@),
                    None => get_field(fields, key@) is None,
                },
                _ => r is None,
            },
    {
        match self {
            JsonValue::Object(fields) => {
                proof {
                    lemma_object_view(*fields);
                }
                find_field(fields, key)
            },
            _ => None,
        }
    }
}

/// The entries of a JSON object, as `rustc_serialize` calls them.
pub type Object = Vec<(String, JsonValue)>;

/// The value of the last entry of `fields` with key `key`.
pub fn find_field<'a>(fields: &'a Object, key: &str) -> (r: Option<&'a JsonValue>)
    ensures
        match r {
            Some(v) => get_field(entries_view(fields@), key@) == Some(v@),
            None => get_field(entries_view(fields@), key@) is None,
        },
{
    let n = fields.len();
    let mut i: usize = n;
    let ghost fv = entries_view(fields@);
    while i > 0
        invariant
            n == fields@.len(),
            fv == entries_view(fields@),
            i <= n,
            forall|j: int| i <= j < n ==> fv[j].0 != key@,
        decreases i,
    {
        i = i - 1;
        if str_eq(fields[i].0.as_str(), key) {
            proof {
                assert(is_last_key(fv, key@, i as int));
                lemma_last_key_unique(fv, key@, i as int);
            }
            return Some(&fields[i].1);
        }
    }
    proof {
        if exists|k: int| is_last_key(fv, key@, k) {
            let k = choose|k: int| is_last_key(fv, key@, k);
            assert(fv[k].0 != key@);
        }
    }
    None
}

impl View for JsonValue {
    type V = JsonView;

    open spec fn view(&self) -> JsonView {
        self.view_json()
    }
}

impl Clone for JsonValue {
    fn clone(&self) -> (res: Self)
        ensures
            res@ == self@,
        decreases self,
    {
        match self {
            JsonValue::Null => JsonValue::Null,
            JsonValue::Boolean(b) => JsonValue::Boolean(*b),
            JsonValue::I64(n) => JsonValue::I64(*n),
            JsonValue::U64(n) => JsonValue::U64(*n),
            JsonValue::F64(t) => JsonValue::F64(t.clone()),
            JsonValue::Str(s) => JsonValue::Str(s.clone()),
            JsonValue::Array(items) => {
                let mut out: Vec<JsonValue> = Vec::new();
                let mut i: usize = 0;
                while i < items.len()
                    invariant
                        i <= items@.len(),
                        out@.len() == i,
                        forall|k: int| 0 <= k < i ==> #[trigger] out@[k]@ == items@[k]@,
                        *self == JsonValue::Array(*items),
                    decreases items@.len() - i,
                {
                    proof {
                        assert(decreases_to!(*self => self->Array_0));
                        assert(decreases_to!(*items => items@));
                        assert(decreases_to!(items@ => items@[i as int]));
                    }
                    out.push(items[i].clone());
                    i = i + 1;
                }
                proof {
                    let ghost result = JsonValue::Array(out);
                    assert(result@->Array_0.len() == self@->Array_0.len());
                    assert forall|k: int| 0 <= k < out@.len() implies result@->Array_0[k] == self@->Array_0[k] by {
                        assert(out@[k]@ == items@[k]@);
                    }
                    assert(result@->Array_0 =~= self@->Array_0);
                }
                JsonValue::Array(out)
            },
            JsonValue::Object(fields) => {
                let mut out: Vec<(String, JsonValue)> = Vec::new();
                let mut i: usize = 0;
                while i < fields.len()
                    invariant
                        i <= fields@.len(),
                        out@.len() == i,
                        forall|k: int| 0 <= k < i ==> #[trigger] out@[k].0@ == fields@[k].0@ && out@[k].1@ == fields@[k].1@,
                        *self == JsonValue::Object(*fields),
                    decreases fields@.len() - i,
                {
                    proof {
                        assert(decreases_to!(*self => self->Object_0));
                        assert(decreases_to!(*fields => fields@));
                        assert(decreases_to!(fields@ => fields@[i as int]));
                        assert(decreases_to!(fields@[i as int] => fields@[i as int].1));
                    }
                    let key = fields[i].0.clone();
                    let value = fields[i].1.clone();
                    out.push((key, value));
                    i = i + 1;
                }
                proof {
                    assert(JsonValue::Object(out)@->Object_0 =~= self@->Object_0);
                }
                JsonValue::Object(out)
            },
        }
    }
}

}
