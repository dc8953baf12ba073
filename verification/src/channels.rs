//! Delivery channels: the list the task editor offers, the QQ robot
//! channels (their validation, their status, the gateway session protocol
//! and its reconnect schedule) and the robot records in the database.
use vstd::prelude::*;

use crate::community::{byte_len, utf8_len};
use crate::model::{BotChannel, BotPlatform, BotTargetKind, Json, PopoConfig, Task};
use crate::popo::num_at;
use crate::runner::{get, lemma_entry_get_at, str_at};
use crate::runner;
use crate::text;
use crate::text::trim;
use crate::urls;
use crate::urls::ov;

verus! {

/// A channel a task can push its summary to.
#[derive(Debug, Clone)]
pub struct ChannelInfo {
    pub id: String,
    pub name: String,
    pub configured: bool,
    pub note: String,
}

#[derive(Debug, Clone, Copy, PartialEq, Eq, Structural)]
pub enum BotConnectionStatus {
    Stopped,
    Connecting,
    Online,
    Error,
}

/// What the connection worker of a robot reports.
#[derive(Debug, Clone)]
pub struct BotConnectionState {
    pub status: BotConnectionStatus,
    pub detail: String,
}

/// A robot channel as the settings page shows it; never its secret.
#[derive(Debug, Clone)]
pub struct BotChannelView {
    pub id: String,
    pub name: String,
    pub platform: BotPlatform,
    pub app_id: String,
    pub enabled: bool,
    pub target_kind: BotTargetKind,
    pub target: String,
    pub created_at: String,
    pub secret_configured: bool,
    pub status: BotConnectionStatus,
    pub status_detail: String,
}

/// The vault key under which a robot's secret is kept.
pub fn bot_channel_key(id: &str) -> (res: String)
    ensures
        res@ == "bot-channel:"@ + id@,
{
    text::concat("bot-channel:", id)
}

pub open spec fn platform_name_spec(p: BotPlatform) -> Seq<char> {
    match p {
        BotPlatform::Qq => "QQ"@,
        BotPlatform::Telegram => "Telegram（旧版未适配）"@,
        BotPlatform::Discord => "Discord（旧版未适配）"@,
        BotPlatform::Slack => "Slack（旧版未适配）"@,
        BotPlatform::Feishu => "飞书（旧版未适配）"@,
        BotPlatform::DingTalk => "钉钉（旧版未适配）"@,
        BotPlatform::WeCom => "企业微信（旧版未适配）"@,
    }
}

/// The display name of a robot platform; only QQ has a desktop adapter.
pub fn platform_name(platform: BotPlatform) -> (res: &'static str)
    ensures
        res@ == platform_name_spec(platform),
{
    match platform {
        BotPlatform::Qq => "QQ",
        BotPlatform::Telegram => "Telegram（旧版未适配）",
        BotPlatform::Discord => "Discord（旧版未适配）",
        BotPlatform::Slack => "Slack（旧版未适配）",
        BotPlatform::Feishu => "飞书（旧版未适配）",
        BotPlatform::DingTalk => "钉钉（旧版未适配）",
        BotPlatform::WeCom => "企业微信（旧版未适配）",
    }
}

pub open spec fn route_char(c: char) -> bool {
    text::is_ascii_alnum(c) || c == '_' || c == '-'
}

/// An openid that can stand in a request path: 1 to 160 ASCII letters,
/// digits, `_` and `-`.
pub open spec fn route_component(v: Seq<char>) -> bool {
    &&& v.len() > 0
    &&& utf8_len(v) <= 160
    &&& forall|i: int| 0 <= i < v.len() ==> route_char(#[trigger] v[i])
}

fn all_chars(v: &Vec<char>, route: bool) -> (res: bool)
    ensures
        route ==> res == forall|i: int| 0 <= i < v@.len() ==> route_char(#[trigger] v@[i]),
        !route ==> res == forall|i: int| 0 <= i < v@.len() ==> text::is_ascii_alnum(#[trigger] v@[i]),
{
    let mut i: usize = 0;
    while i < v.len()
        invariant
            i <= v@.len(),
            route ==> forall|k: int| 0 <= k < i ==> route_char(#[trigger] v@[k]),
            !route ==> forall|k: int| 0 <= k < i ==> text::is_ascii_alnum(#[trigger] v@[k]),
        decreases v.len() - i,
    {
        let c = v[i];
        let ok = if route {
            text::is_alnum(c) || c == '_' || c == '-'
        } else {
            text::is_alnum(c)
        };
        if !ok {
            return false;
        }
        i += 1;
    }
    true
}

pub fn is_route_component(value: &str) -> (res: bool)
    ensures
        res == route_component(value@),
{
    let v = text::chars_of(value);
    v.len() > 0 && byte_len(value) <= 160 && all_chars(&v, true)
}

/// A robot as it is saved: name, AppID and target trimmed.
pub open spec fn trimmed_channel(old: BotChannel, new: BotChannel) -> bool {
    &&& new.name@ == trim(old.name@)
    &&& new.app_id@ == trim(old.app_id@)
    &&& new.target@ == trim(old.target@)
    &&& new.id == old.id
    &&& new.platform == old.platform
    &&& new.enabled == old.enabled
    &&& new.target_kind == old.target_kind
    &&& new.created_at == old.created_at
}

/// The verdict on a robot's settings (after trimming) and, where one is
/// given, its new secret.
pub open spec fn channel_check(c: BotChannel, secret: Option<Seq<char>>) -> Result<(), Seq<char>> {
    let name = trim(c.name@);
    let app_id = trim(c.app_id@);
    let target = trim(c.target@);
    if c.platform != BotPlatform::Qq {
        Err("该平台的桌面端协议尚未适配，不能作为已支持机器人保存"@)
    } else if name.len() == 0 || name.len() > 60 {
        Err("机器人名称不能为空且不能超过 60 个字符"@)
    } else if utf8_len(app_id) < 4 || utf8_len(app_id) > 80 || !(forall|i: int|
        0 <= i < app_id.len() ==> text::is_ascii_alnum(#[trigger] app_id[i])) {
        Err("请填写有效的 QQ 开放平台 AppID"@)
    } else if !route_component(target) {
        Err("请填写有效的群 openid 或用户 openid"@)
    } else {
        match secret {
            Some(v) => {
                let s = trim(v);
                if utf8_len(s) < 8 || utf8_len(s) > 512 || text::has_ws(s) {
                    Err("QQ AppSecret 格式无效"@)
                } else {
                    Ok(())
                }
            },
            None => Ok(()),
        }
    }
}

pub open spec fn err_is<T>(r: Result<T, String>, m: Seq<char>) -> bool {
    match r {
        Err(e) => e@ == m,
        Ok(_) => false,
    }
}

pub open spec fn unit_view(r: Result<(), String>) -> Result<(), Seq<char>> {
    match r {
        Ok(()) => Ok(()),
        Err(e) => Err(e@),
    }
}

fn has_whitespace(v: &Vec<char>) -> (res: bool)
    ensures
        res == text::has_ws(v@),
{
    let mut i: usize = 0;
    while i < v.len()
        invariant
            i <= v@.len(),
            forall|k: int| 0 <= k < i ==> !text::is_ws(#[trigger] v@[k]),
        decreases v.len() - i,
    {
        if text::is_whitespace(v[i]) {
            return true;
        }
        i += 1;
    }
    false
}

/// Trims a QQ robot's name, AppID and target and checks them, and the new
/// secret where one is given.
pub fn validate_channel(channel: &mut BotChannel, secret: Option<&str>) -> (res: Result<(), String>)
    ensures
        trimmed_channel(*old(channel), *final(channel)),
        unit_view(res) == channel_check(*old(channel), match secret {
            Some(s) => Some(s@),
            None => None,
        }),
{
    channel.name = text::string_of(&text::trim_str(channel.name.as_str()));
    channel.app_id = text::string_of(&text::trim_str(channel.app_id.as_str()));
    channel.target = text::string_of(&text::trim_str(channel.target.as_str()));
    if channel.platform != BotPlatform::Qq {
        return Err(text::string_from("该平台的桌面端协议尚未适配，不能作为已支持机器人保存"));
    }
    let name = text::chars_of(channel.name.as_str());
    if name.len() == 0 || name.len() > 60 {
        return Err(text::string_from("机器人名称不能为空且不能超过 60 个字符"));
    }
    let app_id = text::chars_of(channel.app_id.as_str());
    let app_len = byte_len(channel.app_id.as_str());
    if app_len < 4 || app_len > 80 || !all_chars(&app_id, false) {
        return Err(text::string_from("请填写有效的 QQ 开放平台 AppID"));
    }
    if !is_route_component(channel.target.as_str()) {
        return Err(text::string_from("请填写有效的群 openid 或用户 openid"));
    }
    match secret {
        Some(value) => {
            let t = text::trim_str(value);
            let ts = text::string_of(&t);
            let n = byte_len(ts.as_str());
            if n < 8 || n > 512 || has_whitespace(&t) {
                return Err(text::string_from("QQ AppSecret 格式无效"));
            }
        },
        None => {},
    }
    Ok(())
}

/// The gateway QQ hands out must be a WSS address on qq.com or a subdomain.
pub open spec fn gateway_check(gateway: Seq<char>) -> Result<(), Seq<char>> {
    match urls::url_parse_spec(gateway) {
        None => Err("QQ 返回了无效的 WebSocket 地址"@),
        Some(u) => {
            let host = text::ascii_lower(
                match u.host {
                    Some(h) => h,
                    None => Seq::empty(),
                },
            );
            if u.scheme != "wss"@ || !(host == "qq.com"@ || text::ends_with(host, ".qq.com"@)) {
                Err("QQ 返回的网关不在受信任的 qq.com WSS 域名下"@)
            } else {
                Ok(())
            }
        },
    }
}

pub fn validate_gateway_url(gateway: &str) -> (res: Result<(), String>)
    ensures
        unit_view(res) == gateway_check(gateway@),
{
    let url = match urls::parse(gateway) {
        Ok(u) => u,
        Err(_) => return Err(text::string_from("QQ 返回了无效的 WebSocket 地址")),
    };
    let raw = match &url.host {
        Some(h) => text::chars_of(h.as_str()),
        None => Vec::new(),
    };
    let host = text::ascii_lowercase(&raw);
    if !text::str_eq(url.scheme.as_str(), "wss") || !(text::eq_str(&host, "qq.com")
        || text::ends_with_str(&host, ".qq.com")) {
        return Err(text::string_from("QQ 返回的网关不在受信任的 qq.com WSS 域名下"));
    }
    Ok(())
}

// ---------------------------------------------------------------------------
// The channel list
// ---------------------------------------------------------------------------

pub open spec fn info_view(c: ChannelInfo) -> (Seq<char>, Seq<char>, bool, Seq<char>) {
    (c.id@, c.name@, c.configured, c.note@)
}

pub open spec fn popo_note_spec(popo: PopoConfig) -> Seq<char> {
    match popo.target {
        Some(t) => if popo.enabled {
            "发送到 "@ + t.alias@ + " ("@ + t.ip@ + ")"@
        } else {
            "已选 "@ + t.alias@ + "（已收纳）"@
        },
        None => "已收纳；启用后可扫描局域网 PoPo 设备"@,
    }
}

/// The entry of a robot channel: configured when it is switched on, is a
/// QQ robot and its secret is in the vault.
pub open spec fn bot_info(b: BotChannel, stored: bool) -> (Seq<char>, Seq<char>, bool, Seq<char>) {
    (
        "bot:"@ + b.id@,
        b.name@,
        b.enabled && b.platform == BotPlatform::Qq && stored,
        platform_name_spec(b.platform) + " · 本地 WebSocket"@,
    )
}

/// The channels a task can push to: system notifications, PoPo, then each
/// robot. `stored[i]` says whether the vault holds robot `i`'s secret.
pub fn list(popo: &PopoConfig, bots: &Vec<BotChannel>, stored: &Vec<bool>) -> (res: Vec<ChannelInfo>)
    requires
        stored@.len() == bots@.len(),
    ensures
        res@.len() == bots@.len() + 2,
        info_view(res@[0]) == ("notify"@, "系统通知"@, true, "本地通知中心"@),
        info_view(res@[1]) == ("popo"@, "PoPo"@, popo.enabled && popo.target is Some, popo_note_spec(*popo)),
        forall|i: int| 0 <= i < bots@.len() ==> info_view(#[trigger] res@[i + 2]) == bot_info(bots@[i], stored@[i]),
{
    let note = match &popo.target {
        Some(t) => if popo.enabled {
            let mut v = text::chars_of("发送到 ");
            text::append_str(&mut v, t.alias.as_str());
            text::append_str(&mut v, " (");
            text::append_str(&mut v, t.ip.as_str());
            text::append_str(&mut v, ")");
            text::string_of(&v)
        } else {
            let mut v = text::chars_of("已选 ");
            text::append_str(&mut v, t.alias.as_str());
            text::append_str(&mut v, "（已收纳）");
            text::string_of(&v)
        },
        None => text::string_from("已收纳；启用后可扫描局域网 PoPo 设备"),
    };
    let mut items: Vec<ChannelInfo> = Vec::new();
    items.push(
        ChannelInfo {
            id: text::string_from("notify"),
            name: text::string_from("系统通知"),
            configured: true,
            note: text::string_from("本地通知中心"),
        },
    );
    items.push(
        ChannelInfo {
            id: text::string_from("popo"),
            name: text::string_from("PoPo"),
            configured: popo.enabled && popo.target.is_some(),
            note,
        },
    );
    let mut i: usize = 0;
    while i < bots.len()
        invariant
            i <= bots@.len(),
            stored@.len() == bots@.len(),
            items@.len() == i + 2,
            info_view(items@[0]) == ("notify"@, "系统通知"@, true, "本地通知中心"@),
            info_view(items@[1]) == ("popo"@, "PoPo"@, popo.enabled && popo.target is Some, popo_note_spec(*popo)),
            forall|k: int| 0 <= k < i ==> info_view(#[trigger] items@[k + 2]) == bot_info(bots@[k], stored@[k]),
        decreases bots.len() - i,
    {
        let b = &bots[i];
        let mut note = text::chars_of(platform_name(b.platform));
        text::append_str(&mut note, " · 本地 WebSocket");
        items.push(
            ChannelInfo {
                id: text::concat("bot:", b.id.as_str()),
                name: text::copy_string(&b.name),
                configured: b.enabled && b.platform == BotPlatform::Qq && stored[i],
                note: text::string_of(&note),
            },
        );
        i += 1;
    }
    items
}

/// A robot's status: what its worker reports, or, without a worker,
/// "connecting" when switched on and "stopped" otherwise.
pub open spec fn bot_status(b: BotChannel, runtime: Option<(BotConnectionStatus, Seq<char>)>) -> (
    BotConnectionStatus,
    Seq<char>,
) {
    match runtime {
        Some(r) => r,
        None => if b.enabled {
            (BotConnectionStatus::Connecting, "等待本地连接进程启动"@)
        } else {
            (BotConnectionStatus::Stopped, "已停止并收纳"@)
        },
    }
}

pub open spec fn state_view(s: Option<BotConnectionState>) -> Option<(BotConnectionStatus, Seq<char>)> {
    match s {
        Some(st) => Some((st.status, st.detail@)),
        None => None,
    }
}

/// The settings page's view of one robot. `runtime` is what its worker
/// reports, if it has one; `stored` whether the vault holds its secret.
pub fn bot_view(channel: &BotChannel, runtime: Option<BotConnectionState>, stored: bool) -> (res: BotChannelView)
    ensures
        res.id@ == channel.id@,
        res.name@ == channel.name@,
        res.platform == channel.platform,
        res.app_id@ == channel.app_id@,
        res.enabled == channel.enabled,
        res.target_kind == channel.target_kind,
        res.target@ == channel.target@,
        res.created_at@ == channel.created_at@,
        res.secret_configured == stored,
        (res.status, res.status_detail@) == bot_status(*channel, state_view(runtime)),
{
    let (status, status_detail) = match runtime {
        Some(r) => (r.status, r.detail),
        None => if channel.enabled {
            (BotConnectionStatus::Connecting, text::string_from("等待本地连接进程启动"))
        } else {
            (BotConnectionStatus::Stopped, text::string_from("已停止并收纳"))
        },
    };
    BotChannelView {
        id: text::copy_string(&channel.id),
        name: text::copy_string(&channel.name),
        platform: channel.platform,
        app_id: text::copy_string(&channel.app_id),
        enabled: channel.enabled,
        target_kind: channel.target_kind,
        target: text::copy_string(&channel.target),
        created_at: text::copy_string(&channel.created_at),
        secret_configured: stored,
        status,
        status_detail,
    }
}

// ---------------------------------------------------------------------------
// The QQ gateway session
// ---------------------------------------------------------------------------

/// The gateway intents Mosaic subscribes to: guild messages, direct
/// messages, group and C2C events and public guild messages.
pub const QQ_INTENTS: u64 = 1174409216;

/// What the session loop keeps between messages.
#[derive(Debug, Clone, Copy)]
pub struct GatewaySession {
    /// The last sequence number the gateway sent.
    pub last_sequence: Option<i64>,
    /// The heartbeat period in milliseconds, once the gateway said hello.
    pub heartbeat_ms: Option<u64>,
    /// Whether the session reached READY or RESUMED.
    pub ready: bool,
}

/// One thing read from the gateway socket. A text frame is given by the
/// members of its JSON payload that the protocol uses.
pub enum GatewayEvent {
    Text {
        /// `s`, where it is an integer.
        sequence: Option<i64>,
        /// `op`, where it is an integer.
        op: Option<i64>,
        /// `d.heartbeat_interval`, where it is an unsigned integer.
        heartbeat_interval: Option<u64>,
        /// `t`, where it is a string.
        event_type: Option<String>,
        /// `d.user.username`, where it is a string.
        username: Option<String>,
    },
    /// A frame whose text is not JSON.
    InvalidJson,
    Ping,
    /// A close frame with its code and reason, if it had any.
    Close(Option<(u16, String)>),
    /// A frame the session ignores.
    Other,
    /// The read timed out; nothing arrived.
    Idle,
    /// The connection broke.
    Broken,
}

/// What the session loop does with an event.
pub enum GatewayAction {
    Nothing,
    /// Send the Identify payload (op 2) and start heartbeats.
    Identify,
    /// Report the session online with this detail.
    Online(String),
    /// Answer a ping.
    Pong,
    /// End the session with this error.
    Fail(String),
}

pub open spec fn heartbeat_period(interval_ms: u64) -> u64 {
    let scaled = (vstd::wrapping::u64_specs::wrapping_mul(interval_ms, 8) / 10) as u64;
    if scaled < 1000 {
        1000
    } else {
        scaled
    }
}

pub open spec fn action_view(a: GatewayAction) -> (int, Seq<char>) {
    match a {
        GatewayAction::Nothing => (0, Seq::empty()),
        GatewayAction::Identify => (1, Seq::empty()),
        GatewayAction::Online(d) => (2, d@),
        GatewayAction::Pong => (3, Seq::empty()),
        GatewayAction::Fail(e) => (4, e@),
    }
}

/// The gateway protocol: every payload's sequence number is remembered;
/// Hello (op 10) sets the heartbeat to 80% of the advertised interval (at
/// least one second) and asks for Identify; READY and RESUMED dispatches
/// (op 0) put the session online; Reconnect (op 7), Invalid Session (op 9),
/// a close frame, a broken connection or a payload that is not JSON end it.
pub open spec fn gateway_step_spec(s: GatewaySession, e: GatewayEvent, new: GatewaySession, a: (int, Seq<char>)) -> bool {
    match e {
        GatewayEvent::Text { sequence, op, heartbeat_interval, event_type, username } => {
            let seq_after = if sequence is Some {
                sequence
            } else {
                s.last_sequence
            };
            &&& new.last_sequence == seq_after
            &&& if op == Some(10i64) {
                match heartbeat_interval {
                    Some(ms) => new.heartbeat_ms == Some(heartbeat_period(ms)) && new.ready == s.ready
                        && a == (1int, Seq::<char>::empty()),
                    None => new.heartbeat_ms == s.heartbeat_ms && new.ready == s.ready && a == (
                        4int,
                        "QQ Hello 缺少心跳间隔"@,
                    ),
                }
            } else if op == Some(0i64) && ov(event_type) == Some("READY"@) {
                new.heartbeat_ms == s.heartbeat_ms && new.ready && a == (
                    2int,
                    match ov(username) {
                        Some(n) => n,
                        None => "QQ 机器人"@,
                    } + " · WebSocket 在线"@,
                )
            } else if op == Some(0i64) && ov(event_type) == Some("RESUMED"@) {
                new.heartbeat_ms == s.heartbeat_ms && new.ready && a == (2int, "QQ WebSocket 会话已恢复"@)
            } else if op == Some(7i64) {
                new.heartbeat_ms == s.heartbeat_ms && new.ready == s.ready && a == (4int, "QQ 要求重新连接"@)
            } else if op == Some(9i64) {
                new.heartbeat_ms == s.heartbeat_ms && new.ready == s.ready && a == (4int, "QQ WebSocket 会话失效"@)
            } else {
                new.heartbeat_ms == s.heartbeat_ms && new.ready == s.ready && a == (0int, Seq::<char>::empty())
            }
        },
        GatewayEvent::InvalidJson => new == s && a == (4int, "QQ WebSocket 返回了无效 JSON"@),
        GatewayEvent::Ping => new == s && a == (3int, Seq::<char>::empty()),
        GatewayEvent::Close(frame) => new == s && a == (
            4int,
            "QQ WebSocket 已关闭："@ + match frame {
                Some((code, reason)) => text::decimal(code as nat) + " "@ + reason@,
                None => "无关闭原因"@,
            },
        ),
        GatewayEvent::Broken => new == s && a == (4int, "QQ WebSocket 连接中断"@),
        _ => new == s && a == (0int, Seq::<char>::empty()),
    }
}

/// One step of a gateway session.
pub fn gateway_step(session: &mut GatewaySession, event: GatewayEvent) -> (res: GatewayAction)
    ensures
        gateway_step_spec(*old(session), event, *final(session), action_view(res)),
{
    match event {
        GatewayEvent::Text { sequence, op, heartbeat_interval, event_type, username } => {
            if sequence.is_some() {
                session.last_sequence = sequence;
            }
            if op == Some(10i64) {
                match heartbeat_interval {
                    Some(ms) => {
                        let scaled = ms.wrapping_mul(8) / 10;
                        session.heartbeat_ms = Some(
                            if scaled < 1000 {
                                1000
                            } else {
                                scaled
                            },
                        );
                        GatewayAction::Identify
                    },
                    None => GatewayAction::Fail(text::string_from("QQ Hello 缺少心跳间隔")),
                }
            } else if op == Some(0i64) {
                let kind = match &event_type {
                    Some(t) => text::chars_of(t.as_str()),
                    None => Vec::new(),
                };
                let is_ready = event_type.is_some() && text::eq_str(&kind, "READY");
                let is_resumed = event_type.is_some() && text::eq_str(&kind, "RESUMED");
                if is_ready {
                    session.ready = true;
                    let mut d = match &username {
                        Some(n) => text::chars_of(n.as_str()),
                        None => text::chars_of("QQ 机器人"),
                    };
                    text::append_str(&mut d, " · WebSocket 在线");
                    GatewayAction::Online(text::string_of(&d))
                } else if is_resumed {
                    session.ready = true;
                    GatewayAction::Online(text::string_from("QQ WebSocket 会话已恢复"))
                } else {
                    GatewayAction::Nothing
                }
            } else if op == Some(7i64) {
                GatewayAction::Fail(text::string_from("QQ 要求重新连接"))
            } else if op == Some(9i64) {
                GatewayAction::Fail(text::string_from("QQ WebSocket 会话失效"))
            } else {
                GatewayAction::Nothing
            }
        },
        GatewayEvent::InvalidJson => GatewayAction::Fail(text::string_from("QQ WebSocket 返回了无效 JSON")),
        GatewayEvent::Ping => GatewayAction::Pong,
        GatewayEvent::Close(frame) => {
            let mut m = text::chars_of("QQ WebSocket 已关闭：");
            match &frame {
                Some((code, reason)) => {
                    text::push_decimal(&mut m, *code as u64);
                    text::append_str(&mut m, " ");
                    text::append_str(&mut m, reason.as_str());
                    assert(m@ =~= "QQ WebSocket 已关闭："@ + (text::decimal(*code as nat) + " "@ + reason@));
                },
                None => text::append_str(&mut m, "无关闭原因"),
            }
            GatewayAction::Fail(text::string_of(&m))
        },
        GatewayEvent::Broken => GatewayAction::Fail(text::string_from("QQ WebSocket 连接中断")),
        GatewayEvent::Other => GatewayAction::Nothing,
        GatewayEvent::Idle => GatewayAction::Nothing,
    }
}

/// The seconds the worker waits before reconnecting after its n-th failed
/// attempt in a row: 2, 5, 10, 30, then 60.
pub open spec fn reconnect_delay_spec(attempt: usize) -> u64 {
    if attempt == 0 {
        2
    } else if attempt == 1 {
        5
    } else if attempt == 2 {
        10
    } else if attempt == 3 {
        30
    } else {
        60
    }
}

pub fn reconnect_delay(attempt: usize) -> (res: u64)
    ensures
        res == reconnect_delay_spec(attempt),
{
    let backoff: [u64; 5] = [2, 5, 10, 30, 60];
    let k = if attempt < 4 {
        attempt
    } else {
        4
    };
    backoff[k]
}

/// The status detail while the worker waits to reconnect.
pub fn retry_detail(error: &str, delay: u64) -> (res: String)
    ensures
        res@ == error@ + "；"@ + text::decimal(delay as nat) + " 秒后重连"@,
{
    let mut v = text::chars_of(error);
    text::append_str(&mut v, "；");
    text::push_decimal(&mut v, delay);
    text::append_str(&mut v, " 秒后重连");
    text::string_of(&v)
}

// ---------------------------------------------------------------------------
// Talking to the QQ open platform
// ---------------------------------------------------------------------------

/// The token the token service answered with, if it is a non-empty string.
pub fn token_from_reply(access_token: Option<String>) -> (res: Result<String, String>)
    ensures
        match ov(access_token) {
            Some(t) => if t.len() > 0 {
                res == Ok::<String, String>(access_token->Some_0)
            } else {
                err_is(res, "QQ 凭据无效：响应中没有 access_token"@)
            },
            None => err_is(res, "QQ 凭据无效：响应中没有 access_token"@),
        },
{
    match access_token {
        Some(t) => if text::chars_of(t.as_str()).len() > 0 {
            Ok(t)
        } else {
            Err(text::string_from("QQ 凭据无效：响应中没有 access_token"))
        },
        None => Err(text::string_from("QQ 凭据无效：响应中没有 access_token")),
    }
}

/// The message for a failed HTTP call: the status code where the server
/// answered with one, else the transport failure.
pub open spec fn http_error_spec(status: Option<u16>, rejected: Seq<char>, suffix: Seq<char>, unreachable: Seq<char>) -> Seq<char> {
    match status {
        Some(code) => rejected + text::decimal(code as nat) + suffix,
        None => unreachable,
    }
}

pub fn http_error(status: Option<u16>, rejected: &str, suffix: &str, unreachable: &str) -> (res: String)
    ensures
        res@ == http_error_spec(status, rejected@, suffix@, unreachable@),
{
    match status {
        Some(code) => {
            let mut v = text::chars_of(rejected);
            text::push_decimal(&mut v, code as u64);
            text::append_str(&mut v, suffix);
            text::string_of(&v)
        },
        None => text::string_from(unreachable),
    }
}

/// The gateway address from the gateway service's reply, where it is there
/// and trusted.
pub fn gateway_from_reply(url: Option<String>) -> (res: Result<String, String>)
    ensures
        match ov(url) {
            Some(g) => match gateway_check(g) {
                Ok(()) => res is Ok && res->Ok_0@ == g,
                Err(e) => err_is(res, e),
            },
            None => err_is(res, "QQ 网关响应中没有 WebSocket 地址"@),
        },
{
    match url {
        Some(g) => match validate_gateway_url(g.as_str()) {
            Ok(()) => Ok(g),
            Err(e) => Err(e),
        },
        None => Err(text::string_from("QQ 网关响应中没有 WebSocket 地址")),
    }
}

/// Where an active message to the robot's target is posted.
pub open spec fn outbound_path_spec(kind: BotTargetKind, target: Seq<char>) -> Seq<char> {
    match kind {
        BotTargetKind::Group => "/v2/groups/"@ + target + "/messages"@,
        BotTargetKind::C2c => "/v2/users/"@ + target + "/messages"@,
    }
}

pub fn outbound_path(kind: BotTargetKind, target: &str) -> (res: String)
    ensures
        res@ == outbound_path_spec(kind, target@),
{
    let mut v = match kind {
        BotTargetKind::Group => text::chars_of("/v2/groups/"),
        BotTargetKind::C2c => text::chars_of("/v2/users/"),
    };
    text::append_str(&mut v, target);
    text::append_str(&mut v, "/messages");
    text::string_of(&v)
}

/// A message's content: its first 4000 characters.
pub fn message_content(message: &str) -> (res: String)
    ensures
        res@ == runner::first_n(message@, 4000),
{
    let v = text::chars_of(message);
    let mut out: Vec<char> = Vec::new();
    let mut i: usize = 0;
    while i < v.len() && i < 4000
        invariant
            i <= v@.len(),
            i <= 4000,
            out@ == v@.take(i as int),
        decreases v.len() - i,
    {
        out.push(v[i]);
        assert(v@.take(i + 1) =~= v@.take(i as int).push(v@[i as int]));
        i += 1;
    }
    assert(out@ =~= runner::first_n(v@, 4000));
    text::string_of(&out)
}

/// The message sequence number: the sub-second nanoseconds of the clock,
/// modulo 65536.
pub fn message_seq(subsec_nanos: u32) -> (res: u32)
    ensures
        res == subsec_nanos % 65536,
{
    subsec_nanos % 65536
}

/// A task message goes out only through a switched-on robot whose session
/// is online.
pub fn send_check(enabled: bool, online: bool) -> (res: Result<(), String>)
    ensures
        !enabled ==> err_is(res, "机器人仍在收纳区，请先启用"@),
        enabled && !online ==> err_is(res, "QQ WebSocket 尚未在线，未发送任务消息"@),
        enabled && online ==> res is Ok,
{
    if !enabled {
        return Err(text::string_from("机器人仍在收纳区，请先启用"));
    }
    if !online {
        return Err(text::string_from("QQ WebSocket 尚未在线，未发送任务消息"));
    }
    Ok(())
}

// ---------------------------------------------------------------------------
// Robot records
// ---------------------------------------------------------------------------

/// A robot record as it is saved. A new robot (no id) gets the fresh id,
/// starts switched off and is stamped with `now`; an edit keeps the stored
/// switch and creation time, and changing the platform needs a new secret.
/// Without a new secret the vault must already hold one (`stored`).
pub open spec fn prepare_bot_spec(
    c: BotChannel,
    secret: Seq<char>,
    bots: Seq<BotChannel>,
    new_id: Seq<char>,
    now: Seq<char>,
    stored: bool,
) -> Result<BotChannel, Seq<char>> {
    let s = trim(secret);
    let base = if c.id@.len() == 0 {
        Some(BotChannel { enabled: false, ..c })
    } else {
        match runner::bot_index(bots, c.id@) {
            Some(k) => Some(BotChannel { enabled: bots[k].enabled, ..c }),
            None => None,
        }
    };
    match base {
        None => Err("找不到要编辑的机器人"@),
        Some(b) => if c.id@.len() > 0 && bots[runner::bot_index(bots, c.id@)->Some_0].platform != c.platform
            && s.len() == 0 {
            Err("更换平台时必须重新填写机器人凭据"@)
        } else if s.len() == 0 && !stored {
            Err("请填写 QQ AppSecret"@)
        } else {
            match channel_check(b, if s.len() > 0 {
                Some(s)
            } else {
                None
            }) {
                Err(e) => Err(e),
                Ok(()) => Ok(b),
            }
        },
    }
}

/// The record that is saved, given the checked result: the trimmed fields,
/// with the id and creation time settled as above.
pub open spec fn saved_bot(
    c: BotChannel,
    bots: Seq<BotChannel>,
    new_id: Seq<char>,
    now: Seq<char>,
    res: BotChannel,
) -> bool {
    &&& res.id@ == (if c.id@.len() == 0 {
        new_id
    } else {
        c.id@
    })
    &&& res.created_at@ == (if c.id@.len() == 0 {
        now
    } else {
        match runner::bot_index(bots, c.id@) {
            Some(k) => bots[k].created_at@,
            None => c.created_at@,
        }
    })
    &&& res.name@ == trim(c.name@)
    &&& res.app_id@ == trim(c.app_id@)
    &&& res.target@ == trim(c.target@)
    &&& res.platform == c.platform
    &&& res.target_kind == c.target_kind
}

pub open spec fn bot_result_ok(r: Result<BotChannel, String>, spec_r: Result<BotChannel, Seq<char>>) -> bool {
    match (r, spec_r) {
        (Ok(b), Ok(s)) => b.enabled == s.enabled,
        (Err(e), Err(m)) => e@ == m,
        _ => false,
    }
}

pub fn prepare_bot_channel(
    channel: BotChannel,
    secret: &str,
    bots: &Vec<BotChannel>,
    new_id: String,
    now: String,
    stored: bool,
) -> (res: Result<BotChannel, String>)
    ensures
        bot_result_ok(res, prepare_bot_spec(channel, secret@, bots@, new_id@, now@, stored)),
        res matches Ok(b) ==> saved_bot(channel, bots@, new_id@, now@, b),
{
    let s = text::trim_str(secret);
    let mut c = channel;
    let is_new = text::chars_of(c.id.as_str()).len() == 0;
    if is_new {
        c.id = new_id;
        c.enabled = false;
        c.created_at = now;
    } else {
        match runner::find_bot(bots, c.id.as_str()) {
            Some(k) => {
                c.enabled = bots[k].enabled;
                c.created_at = text::copy_string(&bots[k].created_at);
                if bots[k].platform != c.platform && s.len() == 0 {
                    return Err(text::string_from("更换平台时必须重新填写机器人凭据"));
                }
            },
            None => {
                return Err(text::string_from("找不到要编辑的机器人"));
            },
        }
    }
    if s.len() == 0 && !stored {
        return Err(text::string_from("请填写 QQ AppSecret"));
    }
    let secret_s = text::string_of(&s);
    let checked = if s.len() > 0 {
        validate_channel(&mut c, Some(secret_s.as_str()))
    } else {
        validate_channel(&mut c, None)
    };
    proof {
        assert(trim(trim(secret@)) == trim(secret@)) by {
            crate::update::lemma_trim_idempotent(secret@);
        }
    }
    match checked {
        Err(e) => Err(e),
        Ok(()) => Ok(c),
    }
}

/// Saves a robot record, replacing any with the same id; it goes last.
pub fn store_bot(bots: &mut Vec<BotChannel>, channel: BotChannel)
    ensures
        final(bots)@ == old(bots)@.filter(|b: BotChannel| b.id@ != channel.id@).push(channel),
{
    remove_bots(bots, channel.id.as_str());
    bots.push(channel);
}

fn remove_bots(bots: &mut Vec<BotChannel>, id: &str)
    ensures
        final(bots)@ == old(bots)@.filter(|b: BotChannel| b.id@ != id@),
{
    let ghost keep = |b: BotChannel| b.id@ != id@;
    let mut rest: Vec<BotChannel> = Vec::new();
    std::mem::swap(bots, &mut rest);
    let ghost orig = rest@;
    assert(orig.len() == rest.len());
    let mut i: usize = 0;
    proof {
        reveal(Seq::filter);
        assert(orig.take(0) =~= Seq::<BotChannel>::empty());
    }
    while rest.len() > 0
        invariant
            i + rest@.len() == orig.len(),
            orig.len() <= usize::MAX,
            rest@ == orig.skip(i as int),
            keep == |b: BotChannel| b.id@ != id@,
            bots@ == orig.take(i as int).filter(keep),
        decreases rest.len(),
    {
        let b = rest.remove(0);
        proof {
            assert(b == orig[i as int]);
            assert(orig.take(i + 1) =~= orig.take(i as int).push(orig[i as int]));
            assert(rest@ =~= orig.skip(i + 1));
            text::lemma_filter_push(orig.take(i as int), keep, orig[i as int]);
        }
        if !text::str_eq(b.id.as_str(), id) {
            bots.push(b);
        }
        i += 1;
    }
    assert(orig.take(orig.len() as int) =~= orig);
}

/// A task that pushed to a deleted robot pushes nowhere.
pub open spec fn unrouted(t: Task, channel_id: Seq<char>, new: Task) -> bool {
    if ov(t.push_channel) == Some(channel_id) {
        new == Task { push_channel: None, ..t }
    } else {
        new == t
    }
}

/// Deletes a robot record and the routes to it; reports whether there was
/// such a robot.
pub fn delete_bot(bots: &mut Vec<BotChannel>, tasks: &mut Vec<Task>, id: &str) -> (existed: bool)
    ensures
        final(bots)@ == old(bots)@.filter(|b: BotChannel| b.id@ != id@),
        existed == (final(bots)@.len() != old(bots)@.len()),
        final(tasks)@.len() == old(tasks)@.len(),
        forall|i: int|
            0 <= i < old(tasks)@.len() ==> unrouted(old(tasks)@[i], "bot:"@ + id@, #[trigger] final(tasks)@[i]),
{
    let channel_id = text::concat("bot:", id);
    let before = bots.len();
    remove_bots(bots, id);
    let mut i: usize = 0;
    while i < tasks.len()
        invariant
            i <= tasks@.len(),
            tasks@.len() == old(tasks)@.len(),
            channel_id@ == "bot:"@ + id@,
            forall|k: int| 0 <= k < i ==> unrouted(old(tasks)@[k], channel_id@, #[trigger] tasks@[k]),
            forall|k: int| i <= k < tasks@.len() ==> #[trigger] tasks@[k] == old(tasks)@[k],
        decreases tasks.len() - i,
    {
        let routed = match &tasks[i].push_channel {
            Some(c) => text::str_eq(c.as_str(), channel_id.as_str()),
            None => false,
        };
        if routed {
            let mut t = tasks.remove(i);
            t.push_channel = None;
            tasks.insert(i, t);
        }
        i += 1;
    }
    bots.len() != before
}

/// Flips a robot's switch. Switching on needs the secret in the vault
/// (`stored`). Returns the robot's position.
pub fn switch_bot(bots: &mut Vec<BotChannel>, id: &str, enabled: bool, stored: bool) -> (res: Result<usize, String>)
    ensures
        enabled && !stored ==> err_is(res, "机器人凭据缺失，请先编辑并保存"@) && final(bots)@ == old(bots)@,
        !(enabled && !stored) ==> match runner::bot_index(old(bots)@, id@) {
            Some(k) => res == Ok::<usize, String>(k as usize) && final(bots)@ == old(bots)@.update(k, BotChannel { enabled, ..old(bots)@[k] }),
            None => err_is(res, "找不到这个机器人"@) && final(bots)@ == old(bots)@,
        },
{
    if enabled && !stored {
        return Err(text::string_from("机器人凭据缺失，请先编辑并保存"));
    }
    match runner::find_bot(bots, id) {
        Some(k) => {
            let mut b = bots.remove(k);
            b.enabled = enabled;
            bots.insert(k, b);
            assert(bots@ =~= old(bots)@.update(k as int, BotChannel { enabled, ..old(bots)@[k as int] }));
            Ok(k)
        },
        None => Err(text::string_from("找不到这个机器人")),
    }
}

/// What a successful robot test reports.
pub fn test_report(online: bool) -> (res: String)
    ensures
        online ==> res@ == "WebSocket 在线，测试消息已发送"@,
        !online ==> res@ == "凭据有效，已取得官方 WebSocket 网关；启用后将建立长连接"@,
{
    if online {
        text::string_from("WebSocket 在线，测试消息已发送")
    } else {
        text::string_from("凭据有效，已取得官方 WebSocket 网关；启用后将建立长连接")
    }
}

/// Gives the PoPo configuration its stable fingerprint on first use.
/// Returns the alias and fingerprint to advertise.
pub fn ensure_fingerprint(popo: &mut PopoConfig, fresh: String) -> (res: (String, String))
    ensures
        old(popo).fingerprint@.len() == 0 ==> final(popo).fingerprint == fresh,
        old(popo).fingerprint@.len() > 0 ==> final(popo).fingerprint == old(popo).fingerprint,
        final(popo).enabled == old(popo).enabled,
        final(popo).alias == old(popo).alias,
        final(popo).target == old(popo).target,
        res.0@ == final(popo).alias@,
        res.1@ == final(popo).fingerprint@,
{
    if text::chars_of(popo.fingerprint.as_str()).len() == 0 {
        popo.fingerprint = fresh;
    }
    (text::copy_string(&popo.alias), text::copy_string(&popo.fingerprint))
}

/// The Identify payload (op 2): the bot token, the intents, shard 0 of 1
/// and the client properties.
pub open spec fn is_identify(j: Json, token: Seq<char>) -> bool {
    &&& j is Object
    &&& num_at(j, "op"@) == Some("2"@)
    &&& match get(j, "d"@) {
        Some(d) => {
            &&& d is Object
            &&& str_at(d, "token"@) == Some("QQBot "@ + token)
            &&& num_at(d, "intents"@) == Some(text::decimal(QQ_INTENTS as nat))
            &&& get(d, "shard"@) matches Some(Json::Array(xs)) && xs@.len() == 2
            &&& get(d, "properties"@) matches Some(p) && str_at(p, "$os"@) == Some("windows"@)
                && str_at(p, "$browser"@) == Some("mosaic"@) && str_at(p, "$device"@) == Some("mosaic"@)
        },
        None => false,
    }
}

fn kv(key: &str, value: Json) -> (res: (String, Json))
    ensures
        res.0@ == key@,
        res.1 == value,
{
    (text::string_from(key), value)
}

pub fn identify_payload(token: &str) -> (res: Json)
    ensures
        is_identify(res, token@),
{
    proof {
        reveal_strlit("$browser");
        reveal_strlit("$device");
        reveal_strlit("$os");
        reveal_strlit("intents");
        reveal_strlit("properties");
        reveal_strlit("shard");
        reveal_strlit("token");
        reveal_strlit("d");
        reveal_strlit("op");
    }
    let props = vec![
        kv("$browser", Json::Str(text::string_from("mosaic"))),
        kv("$device", Json::Str(text::string_from("mosaic"))),
        kv("$os", Json::Str(text::string_from("windows"))),
    ];
    proof {
        let s = props@;
        assert(s[0].0@ == "$browser"@ && s[1].0@ == "$device"@ && s[2].0@ == "$os"@);
        assert("$browser"@.len() == 8 && "$device"@.len() == 7 && "$os"@.len() == 3);
        lemma_entry_get_at(s, 0, "$browser"@);
        lemma_entry_get_at(s, 1, "$device"@);
        lemma_entry_get_at(s, 2, "$os"@);
    }
    let shard = Json::Array(vec![Json::Number(text::string_from("0")), Json::Number(text::string_from("1"))]);
    let mut tok = text::chars_of("QQBot ");
    text::append_str(&mut tok, token);
    let d = vec![
        kv("intents", Json::Number(text::decimal_string(QQ_INTENTS))),
        kv("properties", Json::Object(props)),
        kv("shard", shard),
        kv("token", Json::Str(text::string_of(&tok))),
    ];
    proof {
        let s = d@;
        assert(s[0].0@ == "intents"@ && s[1].0@ == "properties"@ && s[2].0@ == "shard"@ && s[3].0@ == "token"@);
        assert("intents"@.len() == 7 && "properties"@.len() == 10 && "shard"@.len() == 5 && "token"@.len() == 5);
        assert("shard"@[0] != "token"@[0]);
        lemma_entry_get_at(s, 0, "intents"@);
        lemma_entry_get_at(s, 1, "properties"@);
        lemma_entry_get_at(s, 2, "shard"@);
        lemma_entry_get_at(s, 3, "token"@);
    }
    let top = vec![kv("d", Json::Object(d)), kv("op", Json::Number(text::string_from("2")))];
    proof {
        let s = top@;
        assert(s[0].0@ == "d"@ && s[1].0@ == "op"@);
        assert("d"@.len() == 1 && "op"@.len() == 2);
        lemma_entry_get_at(s, 0, "d"@);
        lemma_entry_get_at(s, 1, "op"@);
    }
    Json::Object(top)
}

/// The heartbeat payload (op 1) with the last sequence number, `null`
/// before any.
pub fn heartbeat_payload(last_sequence: Option<i64>) -> (res: Json)
    ensures
        res is Object,
        num_at(res, "op"@) == Some("1"@),
        match last_sequence {
            Some(n) => get(res, "d"@) matches Some(Json::Number(t)) && t@ == crate::text::signed_decimal(n as int),
            None => get(res, "d"@) == Some(Json::Null),
        },
{
    proof {
        reveal_strlit("d");
        reveal_strlit("op");
    }
    let d = match last_sequence {
        Some(n) => Json::Number(text::signed_decimal_string(n)),
        None => Json::Null,
    };
    let top = vec![kv("d", d), kv("op", Json::Number(text::string_from("1")))];
    proof {
        let s = top@;
        assert(s[0].0@ == "d"@ && s[1].0@ == "op"@);
        assert("d"@.len() == 1 && "op"@.len() == 2);
        lemma_entry_get_at(s, 0, "d"@);
        lemma_entry_get_at(s, 1, "op"@);
    }
    Json::Object(top)
}

/// The robots whose connection is restored when Mosaic starts: switched on
/// QQ robots.
pub open spec fn startable_positions(bots: Seq<BotChannel>, n: int) -> Seq<usize>
    decreases n,
{
    if n <= 0 {
        Seq::empty()
    } else {
        let init = startable_positions(bots, n - 1);
        if bots[n - 1].enabled && bots[n - 1].platform == BotPlatform::Qq {
            init.push((n - 1) as usize)
        } else {
            init
        }
    }
}

pub fn startable_bots(bots: &Vec<BotChannel>) -> (res: Vec<usize>)
    ensures
        res@ == startable_positions(bots@, bots@.len() as int),
{
    let mut out: Vec<usize> = Vec::new();
    let mut i: usize = 0;
    while i < bots.len()
        invariant
            i <= bots@.len(),
            out@ == startable_positions(bots@, i as int),
        decreases bots.len() - i,
    {
        if bots[i].enabled && bots[i].platform == BotPlatform::Qq {
            out.push(i);
        }
        i += 1;
    }
    out
}

/// The robot secret a request needs: what the vault holds, or the error
/// that asks the user to save it again.
pub fn required_secret(secret: Option<String>) -> (res: Result<String, String>)
    ensures
        match secret {
            Some(s) => res == Ok::<String, String>(s),
            None => err_is(res, "QQ AppSecret 缺失，请重新编辑保存"@),
        },
{
    match secret {
        Some(s) => Ok(s),
        None => Err(text::string_from("QQ AppSecret 缺失，请重新编辑保存")),
    }
}

/// Starting a robot's connection: only QQ robots have an adapter, and the
/// secret must be in the vault (`secret` is what the vault holds).
pub fn start_check(platform: BotPlatform, secret: Option<String>) -> (res: Result<String, String>)
    ensures
        platform != BotPlatform::Qq ==> err_is(res, "这个旧版渠道没有可启动的桌面端适配器"@),
        platform == BotPlatform::Qq ==> match secret {
            Some(s) => res == Ok::<String, String>(s),
            None => err_is(res, "QQ AppSecret 缺失，请重新编辑保存"@),
        },
{
    if platform != BotPlatform::Qq {
        return Err(text::string_from("这个旧版渠道没有可启动的桌面端适配器"));
    }
    match secret {
        Some(s) => Ok(s),
        None => Err(text::string_from("QQ AppSecret 缺失，请重新编辑保存")),
    }
}

/// Once a robot is deleted no task pushes to it any more.
pub proof fn lemma_no_route_after_delete(old_tasks: Seq<Task>, new_tasks: Seq<Task>, channel_id: Seq<char>)
    requires
        new_tasks.len() == old_tasks.len(),
        forall|i: int| 0 <= i < old_tasks.len() ==> unrouted(old_tasks[i], channel_id, #[trigger] new_tasks[i]),
    ensures
        forall|i: int| 0 <= i < new_tasks.len() ==> ov(#[trigger] new_tasks[i].push_channel) != Some(channel_id),
{
    assert forall|i: int| 0 <= i < new_tasks.len() implies ov(#[trigger] new_tasks[i].push_channel) != Some(channel_id) by {
        assert(unrouted(old_tasks[i], channel_id, new_tasks[i]));
    }
}

} // verus!
