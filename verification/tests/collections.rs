use signaling::channel::{Channel, Channels};
use signaling::objectid::ObjectId;
use signaling::peer::{Peer, Peers};
use signaling::strmap::StrMap;

#[test]
fn strmap_insert_get_remove() {
    let mut m: StrMap<u32> = StrMap::new();
    assert_eq!(m.insert("b".to_string(), 2), None);
    assert_eq!(m.insert("a".to_string(), 1), None);
    assert_eq!(m.insert("c".to_string(), 3), None);
    assert_eq!(m.insert("b".to_string(), 20), Some(2));
    assert_eq!(m.get("b"), Some(&20));
    assert!(m.contains_key("a"));
    assert!(!m.contains_key("d"));
    assert_eq!(m.keys(), vec!["a".to_string(), "b".to_string(), "c".to_string()]);
    assert_eq!(m.values(), vec![&1, &20, &3]);
    assert_eq!(m.remove("a"), Some(1));
    assert_eq!(m.remove("a"), None);
    assert_eq!(m.keys(), vec!["b".to_string(), "c".to_string()]);
}

#[test]
fn strmap_orders_by_code_point() {
    let mut m: StrMap<()> = StrMap::new();
    for k in ["é", "z", "Z", "ab", "a", ""] {
        m.insert(k.to_string(), ());
    }
    assert_eq!(m.keys(), vec!["", "Z", "a", "ab", "z", "é"]);
}

fn peer(name: &str) -> Peer<u32> {
    Peer::new(7, name.to_string(), Some("info".to_string()), Some("127.0.0.1:9".to_string()), 42, "1.5".to_string(), "2".to_string())
        .unwrap()
}

#[test]
fn peer_getters() {
    let p = peer("alice");
    assert_eq!(p.token(), 7);
    assert_eq!(p.name(), "alice");
    assert_eq!(p.info(), Some("info".to_string()));
    assert_eq!(p.addr(), Some("127.0.0.1:9".to_string()));
    assert_eq!(*p.conn(), 42);
    assert_eq!(p.ctime(), "1.5");
    assert_eq!(p.utime(), "2");
}

#[test]
fn peer_to_json_text() {
    let p = peer("alice");
    assert_eq!(
        p.to_string(),
        format!(r#"{{"ctime":1.5,"id":"{}","info":"info","name":"alice","utime":2.0}}"#, p.id().to_hex())
    );
}

#[test]
fn peer_time_that_is_no_number_is_null() {
    let p: Peer<()> = Peer::new(1, "b".to_string(), None, None, (), "NaN".to_string(), "inf".to_string()).unwrap();
    assert_eq!(
        p.to_string(),
        format!(r#"{{"ctime":null,"id":"{}","info":null,"name":"b","utime":null}}"#, p.id().to_hex())
    );
}

#[test]
fn peers_keyed_by_identifier_text() {
    let mut peers: Peers<u32> = Peers::new().unwrap();
    let a = peer("a");
    let b = peer("b");
    let (ka, kb) = (a.id().to_hex(), b.id().to_hex());
    assert!(peers.insert(a).is_none());
    assert!(peers.insert(b).is_none());
    assert_eq!(peers.get(&ka).unwrap().name(), "a");
    assert!(peers.contains_key(&kb));
    let mut sorted = vec![ka.clone(), kb.clone()];
    sorted.sort();
    assert_eq!(peers.keys(), sorted);
    assert_eq!(peers.values().len(), 2);
    assert_eq!(peers.to_vec().len(), 2);
    assert_eq!(peers.remove(&ka).unwrap().name(), "a");
    assert!(!peers.contains_key(&ka));
    assert_eq!(peers.to_string(), format!(r#"{{"{}":{}}}"#, kb, peers.get(&kb).unwrap().to_string()));
}

#[test]
fn peers_empty_json() {
    let peers: Peers<u32> = Peers::empty();
    assert_eq!(peers.to_string(), "{}");
    assert!(peers.keys().is_empty());
}

#[test]
fn channel_fields_and_json() {
    let uid = ObjectId::with_string("0123456789abcdef01234567").unwrap();
    let c: Channel<u32> = Channel::new(
        Some("secret".to_string()),
        Some("room".to_string()),
        None,
        Some("i".to_string()),
        uid,
        "10.25".to_string(),
        "-inf".to_string(),
    )
    .unwrap();
    assert_eq!(c.token(), Some("secret".to_string()));
    assert_eq!(c.name(), Some("room".to_string()));
    assert_eq!(c.descp(), None);
    assert_eq!(c.info(), Some("i".to_string()));
    assert!(c.uid().same_as(&uid));
    assert_eq!(c.ctime(), "10.25");
    assert_eq!(c.utime(), "-inf");
    assert_eq!(
        c.to_string(),
        format!(
            r#"{{"ctime":10.25,"descp":null,"id":"{}","info":"i","name":"room","peers":{{}},"uid":"0123456789abcdef01234567","utime":null}}"#,
            c.id().to_hex()
        )
    );
}

#[test]
fn channels_insert_and_remove() {
    let uid = ObjectId::with_string("0123456789abcdef01234567").unwrap();
    let mut channels: Channels<u32> = Channels::new().unwrap();
    let c: Channel<u32> = Channel::new(None, None, None, None, uid, "1".to_string(), "1".to_string()).unwrap();
    let key = c.id().to_hex();
    assert!(channels.insert(c).is_none());
    assert!(channels.contains_key(&key));
    assert_eq!(channels.keys(), vec![key.clone()]);
    assert_eq!(channels.values().len(), 1);
    assert_eq!(channels.to_vec().len(), 1);
    assert!(channels.get(&key).unwrap().uid().same_as(&uid));
    assert_eq!(channels.to_string(), format!(r#"{{"{}":{}}}"#, key, channels.get(&key).unwrap().to_string()));
    assert!(channels.remove(&key).is_some());
    assert!(channels.get(&key).is_none());
    assert_eq!(Channels::<u32>::empty().to_string(), "{}");
}

#[test]
fn strmap_insert_then_remove_restores() {
    let mut m: StrMap<u8> = StrMap::new();
    m.insert("x".to_string(), 1);
    m.insert("y".to_string(), 2);
    assert_eq!(m.insert("new".to_string(), 9), None);
    assert_eq!(m.remove("new"), Some(9));
    assert_eq!(m.keys(), vec!["x".to_string(), "y".to_string()]);
    assert_eq!(m.values(), vec![&1, &2]);
}

#[test]
fn peer_with_id_keeps_the_identifier() {
    let id = ObjectId::with_string("00112233445566778899aabb").unwrap();
    let p: Peer<u8> = Peer::with_id(id, 3, "n".to_string(), None, None, 1, "0.5".to_string(), "0.5".to_string());
    assert!(p.id().same_as(&id));
    assert_eq!(p.token(), 3);
    assert_eq!(p.to_string(), r#"{"ctime":0.5,"id":"00112233445566778899aabb","info":null,"name":"n","utime":0.5}"#);
}

#[test]
fn channel_with_id_keeps_the_identifier() {
    let id = ObjectId::with_string("00112233445566778899aabb").unwrap();
    let uid = ObjectId::with_string("0123456789abcdef01234567").unwrap();
    let c: Channel<u8> = Channel::with_id(id, None, Some("r".to_string()), None, None, uid, "1".to_string(), "2".to_string());
    assert!(c.id().same_as(&id));
    assert_eq!(c.name(), Some("r".to_string()));
}
