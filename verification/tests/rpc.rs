use btc_lottery_miner::rpc::{
    after_submit, basic_auth_header, normalize_url, rpc_reply, submit_outcome, AfterSubmit,
    RpcReplyError, SubmitReply,
};

#[test]
fn basic_auth() {
    assert_eq!(basic_auth_header("miner", "pass"), "Basic bWluZXI6cGFzcw==");
    assert_eq!(basic_auth_header("", ""), "Basic Og==");
    assert_eq!(basic_auth_header("ab", "c"), "Basic YWI6Yw==");
    assert_eq!(basic_auth_header("abc", "de"), "Basic YWJjOmRl");
}

#[test]
fn url_normalization() {
    assert_eq!(normalize_url("http://127.0.0.1:18443/"), "http://127.0.0.1:18443");
    assert_eq!(normalize_url("http://node//"), "http://node");
    assert_eq!(normalize_url("http://node"), "http://node");
    assert_eq!(normalize_url("///"), "");
}

#[test]
fn submit_replies() {
    assert_eq!(submit_outcome(SubmitReply::Null), None);
    assert_eq!(submit_outcome(SubmitReply::Text(String::new())), None);
    assert_eq!(
        submit_outcome(SubmitReply::Text("inconclusive".to_string())),
        Some("inconclusive".to_string())
    );
    assert_eq!(submit_outcome(SubmitReply::Other("true".to_string())), Some("true".to_string()));
}

#[test]
fn rpc_reply_reading() {
    assert!(matches!(rpc_reply(None, Some(7u32)), Ok(7)));
    assert!(matches!(rpc_reply::<u32>(None, None), Err(RpcReplyError::MissingResult)));
    match rpc_reply(Some("{\"code\":-8}".to_string()), Some(7u32)) {
        Err(RpcReplyError::Node(t)) => assert_eq!(t, "{\"code\":-8}"),
        _ => panic!("a node error must win over the result"),
    }
}

#[test]
fn only_an_accepted_block_stops_the_miner() {
    assert!(matches!(after_submit(&Ok(None)), AfterSubmit::Stop));
    assert!(matches!(after_submit(&Ok(Some("high-hash".to_string()))), AfterSubmit::KeepMining));
    assert!(matches!(after_submit(&Err("connection refused".to_string())), AfterSubmit::KeepMining));
}
