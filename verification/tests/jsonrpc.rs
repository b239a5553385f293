use signaling::json::JsonValue;
use signaling::jsonrpc::{id_is_too_large, respond, JsonRpc, RpcHandle, RpcRequest, RpcResult};

fn service() -> JsonRpc<RpcHandle> {
    let mut rpc: JsonRpc<RpcHandle> = JsonRpc::new();
    rpc.register("hello", Box::new(|_p: &Option<JsonValue>| -> RpcResult { Ok(JsonValue::Str("world".to_string())) }));
    rpc.register("echo", Box::new(|p: &Option<JsonValue>| -> RpcResult {
        match p {
            Some(v) => Ok(v.clone()),
            None => Err("no params"),
        }
    }));
    rpc
}

fn answer(rpc: &JsonRpc<RpcHandle>, text: &str) -> String {
    let req = RpcRequest::new(text).unwrap();
    rpc.call(&req).to_json().to_string()
}

fn error_text(text: &str) -> String {
    match RpcRequest::new(text) {
        Ok(_) => panic!("the request was read"),
        Err(e) => e.to_json().to_string(),
    }
}

#[test]
fn rpc_call_registered_method() {
    let rpc = service();
    assert_eq!(
        answer(&rpc, r#"{"jsonrpc":"2.0","method":"hello","params":null,"id":1}"#),
        r#"{"id":1,"jsonrpc":"2.0","result":"world"}"#
    );
}

#[test]
fn rpc_call_passes_params() {
    let rpc = service();
    assert_eq!(
        answer(&rpc, r#"{"jsonrpc":"2","method":"echo","params":["参数1","param 2"],"id":-4}"#),
        r#"{"id":-4,"jsonrpc":"2.0","result":["参数1","param 2"]}"#
    );
}

#[test]
fn rpc_handler_error_is_internal_error() {
    let rpc = service();
    assert_eq!(
        answer(&rpc, r#"{"jsonrpc":"2.0","method":"echo","params":null,"id":null}"#),
        r#"{"error":{"code":-32603,"data":null,"message":"no params"},"id":null,"jsonrpc":"2.0"}"#
    );
}

#[test]
fn rpc_unknown_method() {
    let rpc = service();
    assert_eq!(
        answer(&rpc, r#"{"jsonrpc":"2.0","method":"nope","params":{},"id":3}"#),
        r#"{"error":{"code":-32601,"data":null,"message":"Method not found"},"id":3,"jsonrpc":"2.0"}"#
    );
}

#[test]
fn rpc_register_replaces_handler() {
    let mut rpc = service();
    rpc.register("hello", Box::new(|_p: &Option<JsonValue>| -> RpcResult { Ok(JsonValue::U64(2)) }));
    assert_eq!(
        answer(&rpc, r#"{"jsonrpc":"2.0","method":"hello","params":null,"id":1}"#),
        r#"{"id":1,"jsonrpc":"2.0","result":2}"#
    );
    assert_eq!(rpc.methods().keys(), vec!["echo".to_string(), "hello".to_string()]);
}

#[test]
fn rpc_text_that_is_no_json() {
    assert_eq!(error_text("{\"jsonrpc\""), r#"{"code":-32700,"data":null,"message":"Parse error"}"#);
}

#[test]
fn rpc_json_that_is_no_object() {
    assert_eq!(error_text("[1,2]"), r#"{"code":-32600,"data":null,"message":"Invalid Request"}"#);
}

#[test]
fn rpc_invalid_requests() {
    let invalid = r#"{"code":-32600,"data":null,"message":"Invalid Request"}"#;
    assert_eq!(error_text(r#"{"jsonrpc":"1.0","method":"a","params":null,"id":1}"#), invalid);
    assert_eq!(error_text(r#"{"method":"a","params":null,"id":1}"#), invalid);
    assert_eq!(error_text(r#"{"jsonrpc":"2.0","method":3,"params":null,"id":1}"#), invalid);
    assert_eq!(error_text(r#"{"jsonrpc":"2.0","method":"a","id":1}"#), invalid);
    assert_eq!(error_text(r#"{"jsonrpc":"2.0","method":"a","params":5,"id":1}"#), invalid);
    assert_eq!(error_text(r#"{"jsonrpc":"2.0","method":"a","params":null}"#), invalid);
    assert_eq!(error_text(r#"{"jsonrpc":"2.0","method":"a","params":null,"id":"x"}"#), invalid);
    assert_eq!(error_text(r#"{"jsonrpc":"2.0","method":"a","params":null,"id":1.5}"#), invalid);
}

#[test]
fn rpc_parse_non_object_is_invalid_request() {
    assert!(matches!(
        RpcRequest::parse(JsonValue::Null),
        Err(signaling::jsonrpc::RpcErrorCode::InvalidRequest)
    ));
}

#[test]
fn rpc_new_checked_refuses_huge_id() {
    assert!(RpcRequest::new_checked(r#"{"jsonrpc":"2.0","method":"a","params":null,"id":9223372036854775807}"#).is_none());
    assert!(RpcRequest::new_checked(r#"{"jsonrpc":"2.0","method":"a","params":null,"id":9223372036854775806}"#).unwrap().is_ok());
    assert!(RpcRequest::new_checked("oops").unwrap().is_err());
}

#[test]
fn rpc_large_id_below_limit() {
    let rpc = service();
    assert_eq!(
        answer(&rpc, r#"{"jsonrpc":"2.0","method":"hello","params":null,"id":9223372036854775806}"#),
        r#"{"id":9223372036854775806,"jsonrpc":"2.0","result":"world"}"#
    );
}

#[test]
fn rpc_respond_without_handler() {
    let req = RpcRequest::new(r#"{"jsonrpc":"2.0","method":"a","params":null,"id":2}"#).unwrap();
    assert_eq!(
        respond(&req, None).to_json().to_string(),
        r#"{"error":{"code":-32601,"data":null,"message":"Method not found"},"id":2,"jsonrpc":"2.0"}"#
    );
    assert_eq!(
        respond(&req, Some(Ok(JsonValue::Boolean(true)))).to_json().to_string(),
        r#"{"id":2,"jsonrpc":"2.0","result":true}"#
    );
}

#[test]
fn rpc_methods_come_out_in_order_with_last_handler() {
    let mut rpc: JsonRpc<RpcHandle> = JsonRpc::new();
    for (name, n) in [("zeta", 1u64), ("alpha", 2), ("mid", 3), ("alpha", 4)] {
        rpc.register(name, Box::new(move |_p: &Option<JsonValue>| -> RpcResult { Ok(JsonValue::U64(n)) }));
    }
    assert_eq!(rpc.methods().keys(), vec!["alpha".to_string(), "mid".to_string(), "zeta".to_string()]);
    assert_eq!(
        answer(&rpc, r#"{"jsonrpc":"2.0","method":"alpha","params":null,"id":1}"#),
        r#"{"id":1,"jsonrpc":"2.0","result":4}"#
    );
}

#[test]
fn rpc_echo_handler_gets_the_params() {
    let mut rpc: JsonRpc<RpcHandle> = JsonRpc::new();
    rpc.register("echo", Box::new(|p: &Option<JsonValue>| -> RpcResult { Ok(p.clone().unwrap_or(JsonValue::Null)) }));
    assert_eq!(
        answer(&rpc, r#"{"jsonrpc":"2","method":"echo","params":[1,"a"],"id":7}"#),
        r#"{"id":7,"jsonrpc":"2.0","result":[1,"a"]}"#
    );
}

#[test]
fn rpc_parse_ignores_other_fields() {
    let rpc = service();
    assert_eq!(
        answer(&rpc, r#"{"jsonrpc":"2.0","extra":[1],"method":"hello","params":null,"id":5,"zz":null}"#),
        r#"{"id":5,"jsonrpc":"2.0","result":"world"}"#
    );
}

#[test]
fn rpc_id_too_large_is_tested() {

    let big = JsonValue::from_str(r#"{"id":9223372036854775807}"#).unwrap();
    let small = JsonValue::from_str(r#"{"id":9223372036854775806}"#).unwrap();
    assert!(id_is_too_large(&big));
    assert!(!id_is_too_large(&small));
    assert!(!id_is_too_large(&JsonValue::Null));
}
