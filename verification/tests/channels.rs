use mosaic::channels::{
    gateway_step, identify_payload, list, message_content, outbound_path, reconnect_delay,
    switch_bot, validate_channel, validate_gateway_url, GatewayAction, GatewayEvent, GatewaySession,
    QQ_INTENTS,
};
use mosaic::model::{BotChannel, BotPlatform, BotTargetKind, Json, PopoConfig, PopoPeer};

fn qq_channel() -> BotChannel {
    BotChannel {
        id: "qq-test".into(),
        name: "测试 QQ".into(),
        platform: BotPlatform::Qq,
        app_id: "102123456".into(),
        enabled: false,
        target_kind: BotTargetKind::Group,
        target: "group_openid-1".into(),
        created_at: String::new(),
    }
}

#[test]
fn qq_config_rejects_webhooks_and_invalid_targets() {
    let mut channel = qq_channel();
    assert!(validate_channel(&mut channel, Some("secret-value")).is_ok());
    channel.target = "https://example.com/webhook".into();
    assert!(validate_channel(&mut channel, Some("secret-value")).is_err());
}

#[test]
fn gateway_is_restricted_to_qq_wss() {
    assert!(validate_gateway_url("wss://gateway.qq.com/").is_ok());
    assert!(validate_gateway_url("ws://gateway.qq.com/").is_err());
    assert!(validate_gateway_url("wss://gateway.qq.com.example.org/").is_err());
}

fn member<'a>(v: &'a Json, key: &str) -> Option<&'a Json> {
    match v {
        Json::Object(es) => es.iter().find(|(k, _)| k == key).map(|(_, v)| v),
        _ => None,
    }
}

#[test]
fn identify_shape_matches_official_gateway_contract() {
    let payload = identify_payload("token");
    assert!(matches!(member(&payload, "op"), Some(Json::Number(n)) if n == "2"));
    let d = member(&payload, "d").unwrap();
    assert!(matches!(member(d, "intents"), Some(Json::Number(n)) if n == "1174409216"));
    assert!(matches!(member(d, "token"), Some(Json::Str(t)) if t == "QQBot token"));
    assert_eq!(QQ_INTENTS, 1_174_409_216_u64);
}

#[test]
fn secrets_and_app_ids_are_checked() {
    let mut channel = qq_channel();
    assert_eq!(validate_channel(&mut channel, Some("short")).unwrap_err(), "QQ AppSecret 格式无效");
    assert_eq!(validate_channel(&mut channel, Some("has space inside")).unwrap_err(), "QQ AppSecret 格式无效");
    let mut bad = qq_channel();
    bad.app_id = "  12 ".into();
    assert_eq!(validate_channel(&mut bad, None).unwrap_err(), "请填写有效的 QQ 开放平台 AppID");
    let mut other = qq_channel();
    other.platform = BotPlatform::Slack;
    assert!(validate_channel(&mut other, None).is_err());
    let mut padded = qq_channel();
    padded.name = "  机器人  ".into();
    assert!(validate_channel(&mut padded, None).is_ok());
    assert_eq!(padded.name, "机器人");
}

#[test]
fn hello_starts_heartbeats_and_ready_goes_online() {
    let mut session = GatewaySession { last_sequence: None, heartbeat_ms: None, ready: false };
    let hello = GatewayEvent::Text {
        sequence: None,
        op: Some(10),
        heartbeat_interval: Some(41250),
        event_type: None,
        username: None,
    };
    assert!(matches!(gateway_step(&mut session, hello), GatewayAction::Identify));
    assert_eq!(session.heartbeat_ms, Some(33000));
    let ready = GatewayEvent::Text {
        sequence: Some(1),
        op: Some(0),
        heartbeat_interval: None,
        event_type: Some("READY".into()),
        username: Some("小助手".into()),
    };
    match gateway_step(&mut session, ready) {
        GatewayAction::Online(detail) => assert_eq!(detail, "小助手 · WebSocket 在线"),
        _ => panic!("expected online"),
    }
    assert!(session.ready);
    assert_eq!(session.last_sequence, Some(1));
    let reconnect = GatewayEvent::Text { sequence: None, op: Some(7), heartbeat_interval: None, event_type: None, username: None };
    assert!(matches!(gateway_step(&mut session, reconnect), GatewayAction::Fail(e) if e == "QQ 要求重新连接"));
    assert_eq!(session.last_sequence, Some(1));
    let short = GatewayEvent::Text { sequence: None, op: Some(10), heartbeat_interval: Some(500), event_type: None, username: None };
    gateway_step(&mut session, short);
    assert_eq!(session.heartbeat_ms, Some(1000));
    let closed = GatewayEvent::Close(Some((4009, "session timed out".into())));
    assert!(matches!(gateway_step(&mut session, closed), GatewayAction::Fail(e) if e == "QQ WebSocket 已关闭：4009 session timed out"));
}

#[test]
fn reconnect_backs_off() {
    let delays: Vec<u64> = (0..7).map(reconnect_delay).collect();
    assert_eq!(delays, vec![2, 5, 10, 30, 60, 60, 60]);
}

#[test]
fn messages_are_routed_and_capped() {
    assert_eq!(outbound_path(BotTargetKind::Group, "g1"), "/v2/groups/g1/messages");
    assert_eq!(outbound_path(BotTargetKind::C2c, "u1"), "/v2/users/u1/messages");
    let long: String = "字".repeat(4005);
    assert_eq!(message_content(&long).chars().count(), 4000);
    assert_eq!(message_content("hi"), "hi");
}

#[test]
fn channel_list_reports_configuration() {
    let popo = PopoConfig {
        enabled: true,
        alias: "Mosaic".into(),
        fingerprint: "fp".into(),
        target: Some(PopoPeer { ip: "192.168.1.5".into(), port: 53317, alias: "Desk".into(), fingerprint: "x".into() }),
    };
    let mut bot = qq_channel();
    bot.enabled = true;
    let items = list(&popo, &vec![bot], &vec![true]);
    assert_eq!(items.len(), 3);
    assert_eq!(items[0].id, "notify");
    assert_eq!(items[1].note, "发送到 Desk (192.168.1.5)");
    assert!(items[1].configured);
    assert_eq!(items[2].id, "bot:qq-test");
    assert!(items[2].configured);
    assert_eq!(items[2].note, "QQ · 本地 WebSocket");
}

#[test]
fn switching_a_robot_needs_its_secret() {
    let mut bots = vec![qq_channel()];
    assert_eq!(switch_bot(&mut bots, "qq-test", true, false).unwrap_err(), "机器人凭据缺失，请先编辑并保存");
    assert_eq!(switch_bot(&mut bots, "qq-test", true, true).unwrap(), 0);
    assert!(bots[0].enabled);
    assert_eq!(switch_bot(&mut bots, "missing", false, true).unwrap_err(), "找不到这个机器人");
}
