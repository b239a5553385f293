//! The peers that are connected, each with its connection.
use vstd::prelude::*;
use crate::json::{
    JsonValue, JsonView, Object, entries_view, get_field, json_encode, lemma_get_field_at, lemma_object_view,
    opt_str, push_field,
};
use crate::objectid::ObjectId;
use crate::strmap::{StrMap, sorted_strictly};
use crate::text::str_eq;

verus! {

/// The JSON of a time held as the text that Rust writes for an `f64`: a number, or
/// `null` for a value that is not a number or is infinite, as `rustc_serialize`
/// writes an `f64`.
pub open spec fn time_json(t: Seq<char>) -> JsonView {
    if t == "NaN"@ || t == "inf"@ || t == "-inf"@ {
        JsonView::Null
    } else {
        JsonView::F64(t)
    }
}

/// The JSON of a time held as the text of an `f64`.
pub fn time_to_json(t: &String) -> (r: JsonValue)
    ensures
        r@ == time_json(t@),
{
    if str_eq(t.as_str(), "NaN") || str_eq(t.as_str(), "inf") || str_eq(t.as_str(), "-inf") {
        JsonValue::Null
    } else {
        JsonValue::F64(t.clone())
    }
}

/// A connected peer. `C` is its connection; `ctime` and `utime` hold the times of
/// creation and update as the text that Rust writes for an `f64`, and `addr` the
/// socket address as text.
#[derive(Debug)]
pub struct Peer<C> {
    id: ObjectId,
    token: usize,
    name: String,
    info: Option<String>,
    addr: Option<String>,
    conn: C,
    ctime: String,
    utime: String,
}

/// The mathematical value of a `Peer`.
pub struct PeerView<C> {
    pub id: ObjectId,
    pub token: usize,
    pub name: Seq<char>,
    pub info: Option<Seq<char>>,
    pub addr: Option<Seq<char>>,
    pub conn: C,
    pub ctime: Seq<char>,
    pub utime: Seq<char>,
}

/// The view of an optional string.
pub open spec fn opt_string_view(s: Option<String>) -> Option<Seq<char>> {
    match s {
        Some(t) => Some(t@),
        None => None,
    }
}

impl<C> View for Peer<C> {
    type V = PeerView<C>;

    closed spec fn view(&self) -> PeerView<C> {
        PeerView {
            id: self.id,
            token: self.token,
            name: self.name@,
            info: opt_string_view(self.info),
            addr: opt_string_view(self.addr),
            conn: self.conn,
            ctime: self.ctime@,
            utime: self.utime@,
        }
    }
}

/// The JSON object of a peer: `ctime`, `id`, `info`, `name` and `utime`, in key
/// order; the token, address and connection stay out.
pub open spec fn peer_json<C>(p: PeerView<C>) -> JsonView {
    JsonView::Object(
        seq![
            ("ctime"@, time_json(p.ctime)),
            ("id"@, JsonView::Str(p.id.hex())),
            ("info"@, opt_str(p.info)),
            ("name"@, JsonView::Str(p.name)),
            ("utime"@, time_json(p.utime)),
        ],
    )
}

/// Each field of a peer's JSON object holds what the peer's getter gives: its
/// times, the text of its identifier, its information (`null` where it has none)
/// and its name; the token, address and connection have no field.
pub proof fn lemma_peer_json_fields<C>(p: Peer<C>)
    ensures
        peer_json(p@) is Object,
        get_field(peer_json(p@)->Object_0, "ctime"@) == Some(time_json(p@.ctime)),
        get_field(peer_json(p@)->Object_0, "id"@) == Some(JsonView::Str(p@.id.hex())),
        get_field(peer_json(p@)->Object_0, "info"@) == Some(opt_str(p@.info)),
        get_field(peer_json(p@)->Object_0, "name"@) == Some(JsonView::Str(p@.name)),
        get_field(peer_json(p@)->Object_0, "utime"@) == Some(time_json(p@.utime)),
        get_field(peer_json(p@)->Object_0, "token"@) is None,
        get_field(peer_json(p@)->Object_0, "addr"@) is None,
        get_field(peer_json(p@)->Object_0, "conn"@) is None,
{
    reveal_strlit("ctime");
    reveal_strlit("id");
    reveal_strlit("info");
    reveal_strlit("name");
    reveal_strlit("utime");
    reveal_strlit("token");
    reveal_strlit("addr");
    reveal_strlit("conn");
    let f = peer_json(p@)->Object_0;
    assert(f.len() == 5);
    assert(f[0].0 == "ctime"@ && f[1].0 == "id"@ && f[2].0 == "info"@ && f[3].0 == "name"@ && f[4].0 == "utime"@);
    assert("ctime"@[0] == 'c' && "id"@[0] == 'i' && "info"@[0] == 'i' && "name"@[0] == 'n' && "utime"@[0] == 'u');
    assert("id"@.len() == 2 && "info"@.len() == 4);
    assert("token"@[0] == 't' && "addr"@[0] == 'a' && "conn"@[0] == 'c' && "conn"@.len() == 4 && "ctime"@.len() == 5);
    lemma_get_field_at(f, 0);
    lemma_get_field_at(f, 1);
    lemma_get_field_at(f, 2);
    lemma_get_field_at(f, 3);
    lemma_get_field_at(f, 4);
    assert forall|i: int| 0 <= i < f.len() implies f[i].0 != "token"@ && f[i].0 != "addr"@ && f[i].0 != "conn"@ by {
        assert(f[i].0[0] != "token"@[0] && f[i].0[0] != "addr"@[0]);
        if f[i].0[0] == 'c' {
            assert(i == 0);
        }
    }
}

fn optional_string(s: &Option<String>) -> (r: JsonValue)
    ensures
        r@ == opt_str(opt_string_view(*s)),
{
    match s {
        Some(t) => JsonValue::Str(t.clone()),
        None => JsonValue::Null,
    }
}

impl<C> Peer<C> {
    /// A peer with a fresh identifier.
    pub fn new(
        token: usize,
        name: String,
        info: Option<String>,
        addr: Option<String>,
        conn: C,
        ctime: String,
        utime: String,
    ) -> (r: Result<Peer<C>, ()>)
        ensures
            r is Ok,
            r matches Ok(p) ==> p@.token == token && p@.name == name@ && p@.info == opt_string_view(info)
                && p@.addr == opt_string_view(addr) && p@.conn == conn && p@.ctime == ctime@
                && p@.utime == utime@,
    {
        match ObjectId::new() {
            Ok(id) => Ok(Peer::with_id(id, token, name, info, addr, conn, ctime, utime)),
            Err(_) => Err(()),
        }
    }

    /// A peer with the identifier `id`; `new` gives it a fresh one.
    pub fn with_id(
        id: ObjectId,
        token: usize,
        name: String,
        info: Option<String>,
        addr: Option<String>,
        conn: C,
        ctime: String,
        utime: String,
    ) -> (p: Peer<C>)
        ensures
            p@.id == id && p@.token == token && p@.name == name@ && p@.info == opt_string_view(info)
                && p@.addr == opt_string_view(addr) && p@.conn == conn && p@.ctime == ctime@
                && p@.utime == utime@,
    {
        Peer { id, token, name, info, addr, conn, ctime, utime }
    }

    /// The peer's identifier.
    pub fn id(&self) -> (r: ObjectId)
        ensures
            r == self@.id,
    {
        self.id
    }

    /// The token of the peer's connection.
    pub fn token(&self) -> (r: usize)
        ensures
            r == self@.token,
    {
        self.token
    }

    /// The peer's name.
    pub fn name(&self) -> (r: String)
        ensures
            r@ == self@.name,
    {
        self.name.clone()
    }

    /// What the peer tells of itself, if anything.
    pub fn info(&self) -> (r: Option<String>)
        ensures
            opt_string_view(r) == self@.info,
    {
        self.info.clone()
    }

    /// The peer's socket address, as text.
    pub fn addr(&self) -> (r: Option<String>)
        ensures
            opt_string_view(r) == self@.addr,
    {
        self.addr.clone()
    }

    /// The peer's connection.
    pub fn conn(&self) -> (r: &C)
        ensures
            *r == self@.conn,
    {
        &self.conn
    }

    /// When the peer was made.
    pub fn ctime(&self) -> (r: String)
        ensures
            r@ == self@.ctime,
    {
        self.ctime.clone()
    }

    /// When the peer was last updated.
    pub fn utime(&self) -> (r: String)
        ensures
            r@ == self@.utime,
    {
        self.utime.clone()
    }

    /// The peer's JSON object.
    pub fn to_json(&self) -> (r: JsonValue)
        ensures
            r@ == peer_json(self@),
    {
        let mut json: Object = Vec::new();
        push_field(&mut json, "ctime", time_to_json(&self.ctime));
        push_field(&mut json, "id", self.id.to_json());
        push_field(&mut json, "info", optional_string(&self.info));
        push_field(&mut json, "name", JsonValue::Str(self.name.clone()));
        push_field(&mut json, "utime", time_to_json(&self.utime));
        proof {
            lemma_object_view(json);
            assert(entries_view(json@) =~= peer_json(self@)->Object_0);
        }
        JsonValue::Object(json)
    }

    /// The text of the peer's JSON object.
    pub fn to_string(&self) -> (r: String)
        ensures
            r@ == json_encode(peer_json(self@)),
    {
        self.to_json().to_string()
    }
}

/// The JSON object of a collection: for each key, in the order given, the JSON of
/// its value.
pub open spec fn collection_json<T>(keys: Seq<Seq<char>>, m: Map<Seq<char>, T>, to_json: spec_fn(T) -> JsonView) -> JsonView {
    JsonView::Object(Seq::new(keys.len(), |i: int| (keys[i], to_json(m[keys[i]]))))
}

/// The peers, each under the text of its identifier, in the order of those texts.
#[derive(Debug)]
pub struct Peers<C> {
    map: StrMap<Peer<C>>,
}

impl<C> View for Peers<C> {
    type V = Map<Seq<char>, Peer<C>>;

    closed spec fn view(&self) -> Map<Seq<char>, Peer<C>> {
        self.map@
    }
}

impl<C> Peers<C> {
    /// The keys in the order in which the peers are kept: the order of strings.
    pub closed spec fn key_order(&self) -> Seq<Seq<char>> {
        self.map.key_seq()
    }

    #[verifier::type_invariant]
    closed spec fn keyed_by_id(&self) -> bool {
        forall|k: Seq<char>| #[trigger] self.map@.contains_key(k) ==> self.map@[k]@.id.hex() == k
    }

    /// No peers.
    pub fn new() -> (r: Result<Peers<C>, ()>)
        ensures
            r matches Ok(p) && p@ == Map::<Seq<char>, Peer<C>>::empty(),
    {
        Ok(Peers::empty())
    }

    /// No peers.
    pub fn empty() -> (r: Peers<C>)
        ensures
            r@ == Map::<Seq<char>, Peer<C>>::empty(),
    {
        Peers { map: StrMap::new() }
    }

    /// The peer whose identifier has the text `oid`.
    pub fn get(&self, oid: &str) -> (r: Option<&Peer<C>>)
        ensures
            match r {
                Some(p) => self@.contains_key(oid@) && *p == self@[oid@] && p@.id.hex() == oid@,
                None => !self@.contains_key(oid@),
            },
    {
        proof {
            use_type_invariant(self);
        }
        self.map.get(oid)
    }

    /// Whether a peer's identifier has the text `oid`.
    pub fn contains_key(&self, oid: &str) -> (r: bool)
        ensures
            r == self@.contains_key(oid@),
    {
        self.map.contains_key(oid)
    }

    /// Adds a peer under the text of its identifier; where a peer was there, it is
    /// replaced and comes back.
    pub fn insert(&mut self, peer: Peer<C>) -> (r: Option<Peer<C>>)
        ensures
            final(self)@ == old(self)@.insert(peer@.id.hex(), peer),
            r == (if old(self)@.contains_key(peer@.id.hex()) {
                Some(old(self)@[peer@.id.hex()])
            } else {
                None::<Peer<C>>
            }),
    {
        proof {
            use_type_invariant(&*self);
        }
        let oid = peer.id().to_string();
        let mut map: StrMap<Peer<C>> = StrMap::new();
        std::mem::swap(&mut map, &mut self.map);
        let r = map.insert(oid, peer);
        self.map = map;
        r
    }

    /// Takes out the peer whose identifier has the text `oid`.
    pub fn remove(&mut self, oid: &str) -> (r: Option<Peer<C>>)
        ensures
            final(self)@ == old(self)@.remove(oid@),
            r == (if old(self)@.contains_key(oid@) { Some(old(self)@[oid@]) } else { None::<Peer<C>> }),
    {
        proof {
            use_type_invariant(&*self);
        }
        let mut map: StrMap<Peer<C>> = StrMap::new();
        std::mem::swap(&mut map, &mut self.map);
        let r = map.remove(oid);
        self.map = map;
        r
    }

    /// The texts of the identifiers, in string order.
    pub fn keys(&self) -> (r: Vec<String>)
        ensures
            r@.map_values(|s: String| s@) == self.key_order(),
            sorted_strictly(self.key_order()),
            forall|k: Seq<char>| self@.contains_key(k) <==> self.key_order().contains(k),
    {
        self.map.keys()
    }

    /// The peers, in the order of their keys.
    pub fn values(&self) -> (r: Vec<&Peer<C>>)
        ensures
            r@.len() == self.key_order().len(),
            forall|i: int| 0 <= i < r@.len() ==> *#[trigger] r@[i] == self@[self.key_order()[i]],
            sorted_strictly(self.key_order()),
            forall|k: Seq<char>| self@.contains_key(k) <==> self.key_order().contains(k),
    {
        self.map.values()
    }

    /// The peers, in the order of their keys.
    pub fn to_vec(&self) -> (r: Vec<&Peer<C>>)
        ensures
            r@.len() == self.key_order().len(),
            forall|i: int| 0 <= i < r@.len() ==> *#[trigger] r@[i] == self@[self.key_order()[i]],
    {
        self.values()
    }

    /// The JSON object of the peers: each peer's object under its key.
    pub fn to_json(&self) -> (r: JsonValue)
        ensures
            r@ == collection_json(self.key_order(), self@, |p: Peer<C>| peer_json(p@)),
    {
        let keys = self.map.keys();
        let values = self.map.values();
        let mut json: Object = Vec::new();
        let n = keys.len();
        let ghost ks = self.key_order();
        let mut i: usize = 0;
        while i < n
            invariant
                n == keys@.len(),
                n == values@.len(),
                ks == self.key_order(),
                ks.len() == n,
                keys@.map_values(|s: String| s@) == ks,
                forall|j: int| 0 <= j < n ==> *#[trigger] values@[j] == self@[ks[j]],
                i <= n,
                entries_view(json@) == Seq::new(i as nat, |j: int| (ks[j], peer_json(self@[ks[j]]@))),
            decreases n - i,
        {
            let v = values[i].to_json();
            push_field(&mut json, keys[i].as_str(), v);
            proof {
                assert(keys@[i as int]@ == keys@.map_values(|s: String| s@)[i as int]);
                assert(entries_view(json@) =~= Seq::new((i + 1) as nat, |j: int| (ks[j], peer_json(self@[ks[j]]@))));
            }
            i = i + 1;
        }
        proof {
            lemma_object_view(json);
            assert(entries_view(json@) =~= collection_json(ks, self@, |p: Peer<C>| peer_json(p@))->Object_0);
        }
        JsonValue::Object(json)
    }

    /// The text of the peers' JSON object.
    pub fn to_string(&self) -> (r: String)
        ensures
            r@ == json_encode(collection_json(self.key_order(), self@, |p: Peer<C>| peer_json(p@))),
    {
        self.to_json().to_string()
    }
}

} // verus!
