use clob_websocket::backoff::{next_backoff, Reconnect};
use clob_websocket::config::{
    DEFAULT_MARKET_WS_URL, DEFAULT_USER_WS_URL, INITIAL_BACKOFF_SECS, MAX_BACKOFF_SECS,
};
use clob_websocket::error::{Error, Failure};
use clob_websocket::frame::{read_step, Incoming, ReadStep};
use clob_websocket::json::{auth_message, subscription_message};
use clob_websocket::market::{market_batch, market_frame, DecodedFrame, MarketSession};
use clob_websocket::user::{Credentials, UserAttempt, UserSession};

fn strings(items: &[&str]) -> Vec<String> {
    items.iter().map(|s| (*s).to_owned()).collect()
}

fn serde_subscription(items: &[&str]) -> String {
    let mut map = serde_json::Map::new();
    let values = items.iter().map(|s| serde_json::Value::String((*s).to_owned())).collect();
    map.insert("assets_ids".to_owned(), serde_json::Value::Array(values));
    serde_json::Value::Object(map).to_string()
}

fn serde_auth(key: &str, secret: &str, passphrase: &str) -> String {
    let mut auth = serde_json::Map::new();
    auth.insert("apiKey".to_owned(), serde_json::Value::String(key.to_owned()));
    auth.insert("secret".to_owned(), serde_json::Value::String(secret.to_owned()));
    auth.insert("passphrase".to_owned(), serde_json::Value::String(passphrase.to_owned()));
    let mut outer = serde_json::Map::new();
    outer.insert("type".to_owned(), serde_json::Value::String("user".to_owned()));
    outer.insert("auth".to_owned(), serde_json::Value::Object(auth));
    serde_json::Value::Object(outer).to_string()
}

#[test]
fn constants_should_be_defined() {
    assert_ne!(DEFAULT_MARKET_WS_URL, "");
    assert_ne!(DEFAULT_USER_WS_URL, "");
    assert_eq!(MAX_BACKOFF_SECS, 30);
    assert_eq!(INITIAL_BACKOFF_SECS, 1);
}

#[test]
fn next_backoff_doubles_then_caps() {
    assert_eq!(next_backoff(1), 2);
    assert_eq!(next_backoff(8), 16);
    assert_eq!(next_backoff(16), 30);
    assert_eq!(next_backoff(30), 30);
    assert_eq!(next_backoff(0), 0);
}

#[test]
fn reconnect_delays_follow_capped_powers_of_two() {
    let mut round = Reconnect::start();
    let mut delays = Vec::new();
    for _ in 0..8 {
        delays.push(round.delay_secs());
        assert!(!round.on_attempt(false));
    }
    assert_eq!(delays, vec![1, 2, 4, 8, 16, 30, 30, 30]);
}

#[test]
fn reconnect_ends_on_first_success() {
    let mut round = Reconnect::start();
    assert!(!round.on_attempt(false));
    assert!(round.on_attempt(true));
    assert_eq!(round.delay_secs(), 2);
}

#[test]
fn subscription_message_matches_serde_json() {
    for items in [
        &["a", "b"][..],
        &["51338236787729560681434534660841415073585974762690814047670810862722808070955"][..],
        &[][..],
        &["quote\"and\\backslash", "line\nbreak\ttab", "ünïcode"][..],
    ] {
        assert_eq!(subscription_message(&strings(items)), serde_subscription(items));
    }
}

#[test]
fn subscription_message_exact_text() {
    assert_eq!(subscription_message(&strings(&["a", "b"])), "{\"assets_ids\":[\"a\",\"b\"]}");
    assert_eq!(subscription_message(&strings(&["x\"y"])), "{\"assets_ids\":[\"x\\\"y\"]}");
    assert_eq!(
        subscription_message(&strings(&["a\u{1}b\u{1f}\n\\"])),
        "{\"assets_ids\":[\"a\\u0001b\\u001f\\n\\\\\"]}"
    );
    assert_eq!(subscription_message(&strings(&[])), "{\"assets_ids\":[]}");
}

#[test]
fn auth_message_matches_serde_json() {
    assert_eq!(auth_message("key-1", "s3cr3t", "pass"), serde_auth("key-1", "s3cr3t", "pass"));
    assert_eq!(
        auth_message("k\"", "s\\", "p\n"),
        serde_auth("k\"", "s\\", "p\n")
    );
    assert_eq!(
        auth_message("k", "s", "p"),
        "{\"auth\":{\"apiKey\":\"k\",\"passphrase\":\"p\",\"secret\":\"s\"},\"type\":\"user\"}"
    );
    assert_eq!(
        auth_message("k\u{7}", "s", "p"),
        "{\"auth\":{\"apiKey\":\"k\\u0007\",\"passphrase\":\"p\",\"secret\":\"s\"},\"type\":\"user\"}"
    );
}

#[test]
fn error_messages() {
    let e = Error::from_failure(Failure::MarketConnect, "refused");
    assert_eq!(e.message(), "Failed to connect to market WebSocket: refused");
    let e = Error::from_failure(Failure::UserConnect, "refused");
    assert_eq!(e.message(), "Failed to connect to user WebSocket: refused");
    let e = Error::from_failure(Failure::Authenticate, "x");
    assert_eq!(e.message(), "Failed to authenticate: x");
    let e = Error::from_failure(Failure::SendSubscription, "x");
    assert_eq!(e.message(), "Failed to send subscription: x");
    let e = Error::from_failure(Failure::Close, "x");
    assert_eq!(e.message(), "Failed to close WebSocket: x");
    let e = Error::from_failure(Failure::MarketParse, "x");
    assert_eq!(e.message(), "Failed to parse market message: x");
    let e = Error::from_failure(Failure::UserParse, "x");
    assert_eq!(e.message(), "Failed to parse user message: x");
    assert_eq!(Error::not_connected().message(), "WebSocket not connected");
    assert_eq!(Error::validation("anything").message(), "anything");
}

#[test]
fn check_maps_outcomes() {
    assert!(Error::check(Failure::Close, Ok(())).is_ok());
    let e = Error::check(Failure::Close, Err("broken pipe".to_owned())).unwrap_err();
    assert_eq!(e.message(), "Failed to close WebSocket: broken pipe");
}

#[test]
fn read_step_decisions() {
    match read_step(Incoming::Text("hello".to_owned())) {
        ReadStep::Deliver(text) => assert_eq!(text, "hello"),
        other => panic!("unexpected {other:?}"),
    }
    match read_step(Incoming::Ping(vec![1, 2, 3])) {
        ReadStep::SendPong(payload) => assert_eq!(payload, vec![1, 2, 3]),
        other => panic!("unexpected {other:?}"),
    }
    assert!(matches!(read_step(Incoming::Other), ReadStep::Skip));
}

#[test]
fn lost_connection_ends_the_stream() {
    assert!(matches!(read_step(Incoming::Closed), ReadStep::Finish));
    assert!(matches!(read_step(Incoming::NoReader), ReadStep::Finish));
}

#[test]
fn reads_in_order_until_the_connection_is_lost() {
    let reads = vec![
        Incoming::Ping(vec![7]),
        Incoming::Text("first".to_owned()),
        Incoming::Other,
        Incoming::Ping(vec![8, 9]),
        Incoming::Text("second".to_owned()),
        Incoming::Closed,
        Incoming::Text("never".to_owned()),
    ];
    let mut delivered = Vec::new();
    let mut pongs = Vec::new();
    let mut finished = false;
    for incoming in reads {
        match read_step(incoming) {
            ReadStep::Deliver(text) => delivered.push(text),
            ReadStep::SendPong(payload) => pongs.push(payload),
            ReadStep::Skip => {}
            ReadStep::Finish => {
                finished = true;
                break;
            }
        }
    }
    assert_eq!(delivered, vec!["first".to_owned(), "second".to_owned()]);
    assert_eq!(pongs, vec![vec![7], vec![8, 9]]);
    assert!(finished);
}

#[test]
fn close_outcome_without_writer_is_ok() {
    assert!(Error::close_outcome(None).is_ok());
    assert!(Error::close_outcome(Some(Ok(()))).is_ok());
    let e = Error::close_outcome(Some(Err("reset".to_owned()))).unwrap_err();
    assert_eq!(e.message(), "Failed to close WebSocket: reset");
}

#[test]
fn market_batch_is_all_or_nothing() {
    let ok: Vec<Result<u32, String>> = vec![Ok(1), Ok(2), Ok(3)];
    assert_eq!(market_batch(ok).unwrap(), vec![1, 2, 3]);
    let single: Vec<Result<u32, String>> = vec![Ok(5)];
    assert_eq!(market_batch(single).unwrap(), vec![5]);
    let empty: Vec<Result<u32, String>> = vec![];
    assert!(market_batch(empty).unwrap().is_empty());
    let bad: Vec<Result<u32, String>> =
        vec![Ok(1), Err("missing field".to_owned()), Err("later".to_owned())];
    let e = market_batch(bad).unwrap_err();
    assert_eq!(e.message(), "Failed to parse market message: missing field");
}

#[test]
fn lone_message_is_a_batch_of_one() {
    assert_eq!(market_frame(DecodedFrame::Single(Ok::<u32, String>(4))).unwrap(), vec![4]);
    assert_eq!(market_frame(DecodedFrame::Batch(vec![Ok::<u32, String>(4)])).unwrap(), vec![4]);
    let single = market_frame(DecodedFrame::<u32>::Single(Err("bad".to_owned()))).unwrap_err();
    let batch = market_frame(DecodedFrame::<u32>::Batch(vec![Err("bad".to_owned())])).unwrap_err();
    assert_eq!(single.message(), "Failed to parse market message: bad");
    assert_eq!(single.message(), batch.message());
    let many = market_frame(DecodedFrame::Batch(vec![Ok::<u32, String>(1), Ok(2)])).unwrap();
    assert_eq!(many, vec![1, 2]);
}

#[test]
fn user_attempt_succeeds_only_when_authenticated() {
    let mut round = Reconnect::start();
    assert!(!UserSession::record_attempt(&mut round, UserAttempt::ConnectFailed));
    assert_eq!(round.delay_secs(), 2);
    assert!(!UserSession::record_attempt(&mut round, UserAttempt::AuthSendFailed));
    assert_eq!(round.delay_secs(), 4);
    assert!(UserSession::record_attempt(&mut round, UserAttempt::Authenticated));
    assert_eq!(round.delay_secs(), 4);
}

#[test]
fn close_turns_off_reconnection() {
    let mut session = MarketSession::new(DEFAULT_MARKET_WS_URL);
    assert!(session.auto_reconnect());
    session.close();
    assert!(!session.auto_reconnect());
}

#[test]
fn market_session_records_only_sent_subscriptions() {
    let mut session = MarketSession::new("wss://example.test/ws");
    assert_eq!(session.url(), "wss://example.test/ws");
    assert!(session.auto_reconnect());
    assert!(session.subscribed_assets().is_empty());
    assert!(session.resubscription().is_none());

    let err = session
        .record_subscription(strings(&["a"]), Err("connection reset".to_owned()))
        .unwrap_err();
    assert_eq!(err.message(), "Failed to send subscription: connection reset");
    assert!(session.subscribed_assets().is_empty());

    assert!(session.record_subscription(strings(&["a", "b"]), Ok(())).is_ok());
    assert!(session.record_subscription(strings(&["c"]), Ok(())).is_ok());
    assert_eq!(session.subscribed_assets(), &strings(&["a", "b", "c"]));
}

#[test]
fn subscription_request_needs_a_writer() {
    let ids = strings(&["a"]);
    assert_eq!(MarketSession::subscription_request(true, &ids).unwrap(), "{\"assets_ids\":[\"a\"]}");
    let err = MarketSession::subscription_request(false, &ids).unwrap_err();
    assert_eq!(err.message(), "WebSocket not connected");
}

#[test]
fn resubscription_repeats_the_list() {
    let mut session = MarketSession::new("wss://example.test/ws");
    assert!(session.record_subscription(strings(&["a", "b"]), Ok(())).is_ok());
    let again = session.resubscription().unwrap();
    assert_eq!(again, strings(&["a", "b"]));
    assert!(session.record_subscription(again, Ok(())).is_ok());
    assert_eq!(session.subscribed_assets(), &strings(&["a", "b", "a", "b"]));
}

#[test]
fn market_close_only_turns_off_reconnection() {
    let mut session = MarketSession::new("wss://example.test/ws");
    assert!(session.record_subscription(strings(&["a"]), Ok(())).is_ok());
    session.close();
    assert!(!session.auto_reconnect());
    assert_eq!(session.url(), "wss://example.test/ws");
    assert_eq!(session.subscribed_assets(), &strings(&["a"]));
}

#[test]
fn user_session_authenticates_with_its_credentials() {
    let credentials = Credentials::new("key".to_owned(), "secret".to_owned(), "phrase".to_owned());
    assert_eq!(credentials.key(), "key");
    assert_eq!(credentials.secret(), "secret");
    assert_eq!(credentials.passphrase(), "phrase");
    let mut session = UserSession::new(DEFAULT_USER_WS_URL, credentials);
    assert_eq!(session.url(), DEFAULT_USER_WS_URL);
    assert_eq!(session.credentials().key(), "key");
    assert!(session.auto_reconnect());
    assert_eq!(session.auth_request(), serde_auth("key", "secret", "phrase"));
    session.close();
    assert!(!session.auto_reconnect());
    assert_eq!(session.auth_request(), serde_auth("key", "secret", "phrase"));
}
