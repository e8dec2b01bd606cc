//! Behaviour of the store and the dispatch service.

use key_value_store::Command;
use key_value_store::KVResponse;
use key_value_store::KVService;
use key_value_store::KeyValueStore;

#[test]
fn test_set_get() {
    let tests = [
        ("foo".to_string(), "bar".to_string()),
        ("cake".to_string(), "strawberry".to_string()),
    ];

    let mut kv = KeyValueStore::new();
    for &(ref key, ref value) in tests.iter() {
        kv.set(key.clone(), value.clone());
        assert_eq!(kv.get(key).unwrap(), value.to_string());
    }
}

#[test]
fn unwritten_key_is_absent() {
    let kv = KeyValueStore::new();
    assert!(kv.get(&"never".to_string()).is_none());
    let mut kv = kv;
    kv.set("other".to_string(), "value".to_string());
    assert!(kv.get(&"never".to_string()).is_none());
}

#[test]
fn last_write_wins() {
    let mut kv = KeyValueStore::new();
    kv.set("k".to_string(), "v1".to_string());
    kv.set("k".to_string(), "v2".to_string());
    assert_eq!(kv.get(&"k".to_string()).unwrap(), "v2");
}

#[test]
fn dispatch_covers_every_command() {
    let mut svc = KVService::new(KeyValueStore::new());
    let put = Command::Put("a".to_string(), "1".to_string());
    assert!(matches!(svc.handle_req(&put), KVResponse::Okay));
    let get = Command::Get("a".to_string());
    assert!(matches!(svc.handle_req(&get), KVResponse::SimpleStr(ref v) if v == "1"));
    let miss = Command::Get("b".to_string());
    assert!(matches!(svc.handle_req(&miss), KVResponse::Nil));
    match svc.handle_req(&Command::Unknown) {
        KVResponse::Error(kind, msg) => {
            assert_eq!(kind, "ERR");
            assert_eq!(msg, "unknown command");
        }
        _ => panic!("expected an error response"),
    }
}

#[test]
fn service_view_is_shared_per_instance() {
    let mut svc = KVService::new(KeyValueStore::new());
    assert!(matches!(svc.call("set a 1".to_string()), KVResponse::Okay));
    assert!(matches!(svc.call("set a 2".to_string()), KVResponse::Okay));
    assert!(matches!(svc.call("get a".to_string()), KVResponse::SimpleStr(ref v) if v == "2"));
}
