use bitcoin_node_manager::rpc::{
    cookie_credentials, interpret_reply, request_body, rpc_port_from_conf,
    static_credentials_from_conf, RpcAuth, RpcError,
};

#[test]
fn cookie_splits_at_first_colon() {
    assert_eq!(
        cookie_credentials("  __cookie__:abc:def\n"),
        Some(("__cookie__".to_string(), "abc:def".to_string()))
    );
    assert_eq!(cookie_credentials("no-colon-here"), None);
    assert_eq!(cookie_credentials(":"), Some((String::new(), String::new())));
}

#[test]
fn port_from_first_rpcport_line() {
    assert_eq!(rpc_port_from_conf("server=1\n  rpcport= 18332 \r\nrpcport=1"), Some(18332));
    assert_eq!(rpc_port_from_conf("rpcport=abc\nrpcport=8000"), None);
    assert_eq!(rpc_port_from_conf("rpcport=70000"), None);
    assert_eq!(rpc_port_from_conf("server=1\ntxindex=1"), None);
    assert_eq!(rpc_port_from_conf("#rpcport=1234"), None);
    assert_eq!(rpc_port_from_conf(""), None);
}

#[test]
fn static_credentials_use_last_values() {
    let conf = "rpcuser=alice\nrpcpassword= one \nrpcuser=bob\n";
    assert_eq!(
        static_credentials_from_conf(conf),
        Some(("bob".to_string(), "one".to_string()))
    );
    assert_eq!(static_credentials_from_conf("rpcuser=alice\n"), None);
}

#[test]
fn credential_resolution_order() {
    let conf = "rpcport=18443\nrpcuser=u\nrpcpassword=p\n";
    let a = RpcAuth::from_sources(Some("c1:p1"), Some("c2:p2"), Some(conf));
    assert_eq!((a.user.as_str(), a.password.as_str(), a.port), ("c1", "p1", 18443));
    let b = RpcAuth::from_sources(Some("garbage"), Some("c2:p2"), Some(conf));
    assert_eq!((b.user.as_str(), b.password.as_str()), ("c2", "p2"));
    let c = RpcAuth::from_sources(None, None, Some(conf));
    assert_eq!((c.user.as_str(), c.password.as_str()), ("u", "p"));
    let d = RpcAuth::from_sources(None, None, None);
    assert_eq!((d.user.as_str(), d.password.as_str(), d.port), ("bitcoin", "bitcoinrpc", 8332));
    let e = RpcAuth::from_sources(None, None, Some("rpcport=x\n"));
    assert_eq!(e.port, 8332);
}

#[test]
fn request_body_is_json_rpc_envelope() {
    assert_eq!(
        request_body("getblockchaininfo", "[]"),
        r#"{"jsonrpc":"1.0","id":"bnm","method":"getblockchaininfo","params":[]}"#
    );
    assert_eq!(
        request_body("a\"b", "[1,\"x\"]"),
        r#"{"jsonrpc":"1.0","id":"bnm","method":"a\"b","params":[1,"x"]}"#
    );
}

#[test]
fn request_body_escapes_method() {
    assert_eq!(
        request_body("a\\b\u{1}\u{1f}\n\té/", "[]"),
        r#"{"jsonrpc":"1.0","id":"bnm","method":"a\\b\u0001\u001f\n\té/","params":[]}"#
    );
}

#[test]
fn reply_outcomes() {
    let r: Result<u32, RpcError> = interpret_reply(401, Ok((None, Some(1))));
    assert!(matches!(r, Err(RpcError::AuthenticationFailed)));
    let r: Result<u32, RpcError> = interpret_reply(500, Ok((Some("{\"code\":-1}".into()), Some(1))));
    match r {
        Err(RpcError::Node(e)) => assert_eq!(e, "{\"code\":-1}"),
        other => panic!("unexpected {:?}", other),
    }
    let r: Result<u32, RpcError> = interpret_reply(200, Ok((None, Some(5))));
    assert_eq!(r.unwrap(), 5);
    let r: Result<u32, RpcError> = interpret_reply(200, Ok((None, None)));
    assert!(matches!(r, Err(RpcError::EmptyResult)));
    let r: Result<u32, RpcError> = interpret_reply(200, Err("bad json".into()));
    match r {
        Err(RpcError::Malformed(m)) => assert_eq!(m, "bad json"),
        other => panic!("unexpected {:?}", other),
    }
}
