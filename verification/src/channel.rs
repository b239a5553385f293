//! Channels: named rooms that peers join, each under the text of its identifier.
use vstd::prelude::*;
use crate::json::{
    JsonValue, JsonView, Object, entries_view, get_field, json_encode, lemma_get_field_at, lemma_object_view,
    opt_str, push_field,
};
use crate::objectid::ObjectId;
use crate::peer::{Peer, Peers, collection_json, opt_string_view, peer_json, time_json, time_to_json};
use crate::strmap::{StrMap, sorted_strictly};

verus! {

/// A channel. `token` is the password a peer must give to join, where there is one;
/// `uid` is the identifier of the peer that made the channel; `ctime` and `utime`
/// hold the times of creation and update as the text that Rust writes for an `f64`.
#[derive(Debug)]
pub struct Channel<C> {
    id: ObjectId,
    token: Option<String>,
    name: Option<String>,
    descp: Option<String>,
    info: Option<String>,
    peers: Peers<C>,
    uid: ObjectId,
    ctime: String,
    utime: String,
}

/// The mathematical value of a `Channel`; the peers by their keys and the order
/// of those keys.
pub struct ChannelView<C> {
    pub id: ObjectId,
    pub token: Option<Seq<char>>,
    pub name: Option<Seq<char>>,
    pub descp: Option<Seq<char>>,
    pub info: Option<Seq<char>>,
    pub peers: Map<Seq<char>, Peer<C>>,
    pub peer_order: Seq<Seq<char>>,
    pub uid: ObjectId,
    pub ctime: Seq<char>,
    pub utime: Seq<char>,
}

impl<C> View for Channel<C> {
    type V = ChannelView<C>;

    closed spec fn view(&self) -> ChannelView<C> {
        ChannelView {
            id: self.id,
            token: opt_string_view(self.token),
            name: opt_string_view(self.name),
            descp: opt_string_view(self.descp),
            info: opt_string_view(self.info),
            peers: self.peers@,
            peer_order: self.peers.key_order(),
            uid: self.uid,
            ctime: self.ctime@,
            utime: self.utime@,
        }
    }
}

/// The JSON object of a channel: `ctime`, `descp`, `id`, `info`, `name`, `peers`,
/// `uid` and `utime`, in key order; the password stays out.
pub open spec fn channel_json<C>(c: ChannelView<C>) -> JsonView {
    JsonView::Object(
        seq![
            ("ctime"@, time_json(c.ctime)),
            ("descp"@, opt_str(c.descp)),
            ("id"@, JsonView::Str(c.id.hex())),
            ("info"@, opt_str(c.info)),
            ("name"@, opt_str(c.name)),
            ("peers"@, collection_json(c.peer_order, c.peers, |p: Peer<C>| peer_json(p@))),
            ("uid"@, JsonView::Str(c.uid.hex())),
            ("utime"@, time_json(c.utime)),
        ],
    )
}

/// Each field of a channel's JSON object holds what the channel's getter gives: its
/// times, its description, name and other text (`null` where it has none), the text
/// of its identifier and of its maker's, and the JSON of its peers; the password
/// has no field.
pub proof fn lemma_channel_json_fields<C>(c: Channel<C>)
    ensures
        channel_json(c@) is Object,
        get_field(channel_json(c@)->Object_0, "ctime"@) == Some(time_json(c@.ctime)),
        get_field(channel_json(c@)->Object_0, "descp"@) == Some(opt_str(c@.descp)),
        get_field(channel_json(c@)->Object_0, "id"@) == Some(JsonView::Str(c@.id.hex())),
        get_field(channel_json(c@)->Object_0, "info"@) == Some(opt_str(c@.info)),
        get_field(channel_json(c@)->Object_0, "name"@) == Some(opt_str(c@.name)),
        get_field(channel_json(c@)->Object_0, "peers"@) == Some(
            collection_json(c@.peer_order, c@.peers, |p: Peer<C>| peer_json(p@)),
        ),
        get_field(channel_json(c@)->Object_0, "uid"@) == Some(JsonView::Str(c@.uid.hex())),
        get_field(channel_json(c@)->Object_0, "utime"@) == Some(time_json(c@.utime)),
        get_field(channel_json(c@)->Object_0, "token"@) is None,
{
    reveal_strlit("ctime");
    reveal_strlit("descp");
    reveal_strlit("id");
    reveal_strlit("info");
    reveal_strlit("name");
    reveal_strlit("peers");
    reveal_strlit("uid");
    reveal_strlit("utime");
    reveal_strlit("token");
    let f = channel_json(c@)->Object_0;
    assert(f.len() == 8);
    assert(f[0].0 == "ctime"@ && f[1].0 == "descp"@ && f[2].0 == "id"@ && f[3].0 == "info"@);
    assert(f[4].0 == "name"@ && f[5].0 == "peers"@ && f[6].0 == "uid"@ && f[7].0 == "utime"@);
    assert("ctime"@[0] == 'c' && "descp"@[0] == 'd' && "id"@[0] == 'i' && "info"@[0] == 'i');
    assert("name"@[0] == 'n' && "peers"@[0] == 'p' && "uid"@[0] == 'u' && "utime"@[0] == 'u');
    assert("id"@.len() == 2 && "info"@.len() == 4 && "uid"@.len() == 3 && "utime"@.len() == 5);
    assert("token"@[0] == 't');
    lemma_get_field_at(f, 0);
    lemma_get_field_at(f, 1);
    lemma_get_field_at(f, 2);
    lemma_get_field_at(f, 3);
    lemma_get_field_at(f, 4);
    lemma_get_field_at(f, 5);
    lemma_get_field_at(f, 6);
    lemma_get_field_at(f, 7);
    assert forall|i: int| 0 <= i < f.len() implies f[i].0 != "token"@ by {
        assert(f[i].0[0] != "token"@[0]);
    }
}

fn optional_string(s: &Option<String>) -> (r: JsonValue)
    ensures
        r@ == opt_str(opt_string_view(*s)),
{
    match s {
        Some(t) => JsonValue::Str(t.clone()),
        None => JsonValue::Null,
    }
}

impl<C> Channel<C> {
    /// A channel without peers, with a fresh identifier.
    pub fn new(
        token: Option<String>,
        name: Option<String>,
        descp: Option<String>,
        info: Option<String>,
        uid: ObjectId,
        ctime: String,
        utime: String,
    ) -> (r: Result<Channel<C>, ()>)
        ensures
            r is Ok,
            r matches Ok(c) ==> c@.token == opt_string_view(token) && c@.name == opt_string_view(name)
                && c@.descp == opt_string_view(descp) && c@.info == opt_string_view(info)
                && c@.peers == Map::<Seq<char>, Peer<C>>::empty() && c@.uid == uid
                && c@.ctime == ctime@ && c@.utime == utime@,
    {
        match ObjectId::new() {
            Ok(id) => Ok(Channel::with_id(id, token, name, descp, info, uid, ctime, utime)),
            Err(_) => Err(()),
        }
    }

    /// A channel without peers, with the identifier `id`; `new` gives it a fresh one.
    pub fn with_id(
        id: ObjectId,
        token: Option<String>,
        name: Option<String>,
        descp: Option<String>,
        info: Option<String>,
        uid: ObjectId,
        ctime: String,
        utime: String,
    ) -> (c: Channel<C>)
        ensures
            c@.id == id && c@.token == opt_string_view(token) && c@.name == opt_string_view(name)
                && c@.descp == opt_string_view(descp) && c@.info == opt_string_view(info)
                && c@.peers == Map::<Seq<char>, Peer<C>>::empty() && c@.uid == uid
                && c@.ctime == ctime@ && c@.utime == utime@,
    {
        Channel { id, token, name, descp, info, peers: Peers::empty(), uid, ctime, utime }
    }

    /// The channel's identifier.
    pub fn id(&self) -> (r: ObjectId)
        ensures
            r == self@.id,
    {
        self.id
    }

    /// The channel's password, if it has one.
    pub fn token(&self) -> (r: Option<String>)
        ensures
            opt_string_view(r) == self@.token,
    {
        self.token.clone()
    }

    /// The channel's name, if it has one.
    pub fn name(&self) -> (r: Option<String>)
        ensures
            opt_string_view(r) == self@.name,
    {
        self.name.clone()
    }

    /// The channel's description, if it has one.
    pub fn descp(&self) -> (r: Option<String>)
        ensures
            opt_string_view(r) == self@.descp,
    {
        self.descp.clone()
    }

    /// More about the channel, if anything.
    pub fn info(&self) -> (r: Option<String>)
        ensures
            opt_string_view(r) == self@.info,
    {
        self.info.clone()
    }

    /// The identifier of the peer that made the channel.
    pub fn uid(&self) -> (r: ObjectId)
        ensures
            r == self@.uid,
    {
        self.uid
    }

    /// When the channel was made.
    pub fn ctime(&self) -> (r: String)
        ensures
            r@ == self@.ctime,
    {
        self.ctime.clone()
    }

    /// When the channel was last updated.
    pub fn utime(&self) -> (r: String)
        ensures
            r@ == self@.utime,
    {
        self.utime.clone()
    }

    /// The channel's JSON object.
    pub fn to_json(&self) -> (r: JsonValue)
        ensures
            r@ == channel_json(self@),
    {
        let mut json: Object = Vec::new();
        push_field(&mut json, "ctime", time_to_json(&self.ctime));
        push_field(&mut json, "descp", optional_string(&self.descp));
        push_field(&mut json, "id", self.id.to_json());
        push_field(&mut json, "info", optional_string(&self.info));
        push_field(&mut json, "name", optional_string(&self.name));
        push_field(&mut json, "peers", self.peers.to_json());
        push_field(&mut json, "uid", self.uid.to_json());
        push_field(&mut json, "utime", time_to_json(&self.utime));
        proof {
            lemma_object_view(json);
            assert(entries_view(json@) =~= channel_json(self@)->Object_0);
        }
        JsonValue::Object(json)
    }

    /// The text of the channel's JSON object.
    pub fn to_string(&self) -> (r: String)
        ensures
            r@ == json_encode(channel_json(self@)),
    {
        self.to_json().to_string()
    }
}

/// The channels, each under the text of its identifier, in the order of those texts.
#[derive(Debug)]
pub struct Channels<C> {
    map: StrMap<Channel<C>>,
}

impl<C> View for Channels<C> {
    type V = Map<Seq<char>, Channel<C>>;

    closed spec fn view(&self) -> Map<Seq<char>, Channel<C>> {
        self.map@
    }
}

impl<C> Channels<C> {
    /// The keys in the order in which the channels are kept: the order of strings.
    pub closed spec fn key_order(&self) -> Seq<Seq<char>> {
        self.map.key_seq()
    }

    #[verifier::type_invariant]
    closed spec fn keyed_by_id(&self) -> bool {
        forall|k: Seq<char>| #[trigger] self.map@.contains_key(k) ==> self.map@[k]@.id.hex() == k
    }

    /// No channels.
    pub fn new() -> (r: Result<Channels<C>, ()>)
        ensures
            r matches Ok(c) && c@ == Map::<Seq<char>, Channel<C>>::empty(),
    {
        Ok(Channels::empty())
    }

    /// No channels.
    pub fn empty() -> (r: Channels<C>)
        ensures
            r@ == Map::<Seq<char>, Channel<C>>::empty(),
    {
        Channels { map: StrMap::new() }
    }

    /// The channel whose identifier has the text `oid`.
    pub fn get(&self, oid: &str) -> (r: Option<&Channel<C>>)
        ensures
            match r {
                Some(c) => self@.contains_key(oid@) && *c == self@[oid@] && c@.id.hex() == oid@,
                None => !self@.contains_key(oid@),
            },
    {
        proof {
            use_type_invariant(self);
        }
        self.map.get(oid)
    }

    /// Whether a channel's identifier has the text `oid`.
    pub fn contains_key(&self, oid: &str) -> (r: bool)
        ensures
            r == self@.contains_key(oid@),
    {
        self.map.contains_key(oid)
    }

    /// Adds a channel under the text of its identifier; where a channel was there,
    /// it is replaced and comes back.
    pub fn insert(&mut self, channel: Channel<C>) -> (r: Option<Channel<C>>)
        ensures
            final(self)@ == old(self)@.insert(channel@.id.hex(), channel),
            r == (if old(self)@.contains_key(channel@.id.hex()) {
                Some(old(self)@[channel@.id.hex()])
            } else {
                None::<Channel<C>>
            }),
    {
        proof {
            use_type_invariant(&*self);
        }
        let oid = channel.id().to_string();
        let mut map: StrMap<Channel<C>> = StrMap::new();
        std::mem::swap(&mut map, &mut self.map);
        let r = map.insert(oid, channel);
        self.map = map;
        r
    }

    /// Takes out the channel whose identifier has the text `oid`.
    pub fn remove(&mut self, oid: &str) -> (r: Option<Channel<C>>)
        ensures
            final(self)@ == old(self)@.remove(oid@),
            r == (if old(self)@.contains_key(oid@) { Some(old(self)@[oid@]) } else { None::<Channel<C>> }),
    {
        proof {
            use_type_invariant(&*self);
        }
        let mut map: StrMap<Channel<C>> = StrMap::new();
        std::mem::swap(&mut map, &mut self.map);
        let r = map.remove(oid);
        self.map = map;
        r
    }

    /// The texts of the identifiers, in string order.
    pub fn keys(&self) -> (r: Vec<String>)
        ensures
            r@.map_values(|s: String| s@) == self.key_order(),
            sorted_strictly(self.key_order()),
            forall|k: Seq<char>| self@.contains_key(k) <==> self.key_order().contains(k),
    {
        self.map.keys()
    }

    /// The channels, in the order of their keys.
    pub fn values(&self) -> (r: Vec<&Channel<C>>)
        ensures
            r@.len() == self.key_order().len(),
            forall|i: int| 0 <= i < r@.len() ==> *#[trigger] r@[i] == self@[self.key_order()[i]],
            sorted_strictly(self.key_order()),
            forall|k: Seq<char>| self@.contains_key(k) <==> self.key_order().contains(k),
    {
        self.map.values()
    }

    /// The channels, in the order of their keys.
    pub fn to_vec(&self) -> (r: Vec<&Channel<C>>)
        ensures
            r@.len() == self.key_order().len(),
            forall|i: int| 0 <= i < r@.len() ==> *#[trigger] r@[i] == self@[self.key_order()[i]],
    {
        self.values()
    }

    /// The JSON object of the channels: each channel's object under its key.
    pub fn to_json(&self) -> (r: JsonValue)
        ensures
            r@ == collection_json(self.key_order(), self@, |c: Channel<C>| channel_json(c@)),
    {
        let keys = self.map.keys();
        let values = self.map.values();
        let mut json: Object = Vec::new();
        let n = keys.len();
        let ghost ks = self.key_order();
        let mut i: usize = 0;
        while i < n
            invariant
                n == keys@.len(),
                n == values@.len(),
                ks == self.key_order(),
                ks.len() == n,
                keys@.map_values(|s: String| s@) == ks,
                forall|j: int| 0 <= j < n ==> *#[trigger] values@[j] == self@[ks[j]],
                i <= n,
                entries_view(json@) == Seq::new(i as nat, |j: int| (ks[j], channel_json(self@[ks[j]]@))),
            decreases n - i,
        {
            let v = values[i].to_json();
            push_field(&mut json, keys[i].as_str(), v);
            proof {
                assert(keys@[i as int]@ == keys@.map_values(|s: String| s@)[i as int]);
                assert(entries_view(json@) =~= Seq::new((i + 1) as nat, |j: int| (ks[j], channel_json(self@[ks[j]]@))));
            }
            i = i + 1;
        }
        proof {
            lemma_object_view(json);
            assert(entries_view(json@) =~= collection_json(ks, self@, |c: Channel<C>| channel_json(c@))->Object_0);
        }
        JsonValue::Object(json)
    }

    /// The text of the channels' JSON object.
    pub fn to_string(&self) -> (r: String)
        ensures
            r@ == json_encode(collection_json(self.key_order(), self@, |c: Channel<C>| channel_json(c@))),
    {
        self.to_json().to_string()
    }
}

} // verus!
