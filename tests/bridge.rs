use messenger_bridge::bridge::{
    bridge_address, on_server_ready, parse_frame, should_start, BridgeState, ReadyAction,
};
use messenger_bridge::config::Config;

fn config() -> Config {
    Config {
        discord_server: "home".to_string(),
        discord_channel: "general".to_string(),
        discord_webhook_id: 7,
        discord_token: "SECRET-REDACTED".to_string(),
        messenger_host: "127.0.0.1".to_string(),
        messenger_port: 8080,
    }
}

#[test]
fn bridge_frame() {
    let f = parse_frame("Carol:see you at 5:00");
    assert_eq!(f.author, "Carol");
    assert_eq!(f.body, "see you at 5:00");
}

#[test]
fn frame_rejoins() {
    for frame in ["a:b", ":", "x::y:z", ":lead", "tail:"] {
        let f = parse_frame(frame);
        assert_eq!(format!("{}:{}", f.author, f.body), frame);
        assert!(!f.author.contains(':'));
    }
}

#[test]
fn frame_without_colon_is_all_author() {
    let f = parse_frame("nobody");
    assert_eq!(f.author, "nobody");
    assert_eq!(f.body, "");
    let f = parse_frame("");
    assert_eq!(f.author, "");
    assert_eq!(f.body, "");
}

#[test]
fn listen_address() {
    assert_eq!(bridge_address(&config()), "127.0.0.1:8080");
    let mut c = config();
    c.messenger_port = 0;
    c.messenger_host = "::1".to_string();
    assert_eq!(bridge_address(&c), "::1:0");
    c.messenger_port = 65535;
    assert_eq!(bridge_address(&c), "::1:65535");
}

#[test]
fn ready_starts_bridge_once() {
    let c = config();
    let mut state = BridgeState::AwaitingServerReady;
    let other = "elsewhere".to_string();
    let home = "home".to_string();
    assert!(!should_start(&state, &c, &other));
    assert!(should_start(&state, &c, &home));
    assert_eq!(on_server_ready(&mut state, &c, &other, &vec![7]), ReadyAction::Ignore);
    assert_eq!(state, BridgeState::AwaitingServerReady);
    assert_eq!(on_server_ready(&mut state, &c, &home, &vec![3, 7, 7]), ReadyAction::StartBridge(1));
    assert_eq!(state, BridgeState::BridgeRunning);
    assert!(!should_start(&state, &c, &home));
    assert_eq!(on_server_ready(&mut state, &c, &home, &vec![7]), ReadyAction::Ignore);
}

#[test]
fn ready_without_webhook_is_an_error() {
    let c = config();
    let mut state = BridgeState::AwaitingServerReady;
    let home = "home".to_string();
    assert_eq!(on_server_ready(&mut state, &c, &home, &vec![1, 2]), ReadyAction::WebhookMissing);
    assert_eq!(state, BridgeState::AwaitingServerReady);
    assert_eq!(on_server_ready(&mut state, &c, &home, &vec![]), ReadyAction::WebhookMissing);
}
