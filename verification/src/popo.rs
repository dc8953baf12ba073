//! PoPo over its own wire protocol (LocalSend v2): the `/register`
//! handshake that finds peers on the local /24, and the prepare-upload and
//! upload requests that send them a file. The HTTP exchanges stay with the
//! shell; these are the messages and the decisions.
use vstd::prelude::*;

use crate::model::{Json, PopoPeer};
use crate::order;
use crate::runner::{get, str_at};
use crate::text;
use crate::urls::ov;

verus! {

pub const DEFAULT_PORT: u16 = 53317;

pub const PROTOCOL_VERSION: &'static str = "2.1";

/// The number member `key` of `v`, by its text.
pub open spec fn num_at(v: Json, key: Seq<char>) -> Option<Seq<char>> {
    match get(v, key) {
        Some(Json::Number(n)) => Some(n@),
        _ => None,
    }
}

fn entry(key: &str, value: Json) -> (res: (String, Json))
    ensures
        res.0@ == key@,
        res.1 == value,
{
    (text::string_from(key), value)
}

fn text_value(s: &str) -> (res: Json)
    ensures
        res matches Json::Str(t) && t@ == s@,
{
    Json::Str(text::string_from(s))
}

/// The device description Mosaic announces: alias, protocol version,
/// desktop device type, fingerprint (as `token`), port and HTTP.
pub open spec fn is_device_info(j: Json, alias: Seq<char>, fingerprint: Seq<char>) -> bool {
    &&& j is Object
    &&& str_at(j, "alias"@) == Some(alias)
    &&& str_at(j, "version"@) == Some(PROTOCOL_VERSION@)
    &&& str_at(j, "deviceType"@) == Some("DESKTOP"@)
    &&& str_at(j, "token"@) == Some(fingerprint)
    &&& num_at(j, "port"@) == Some(text::decimal(DEFAULT_PORT as nat))
    &&& str_at(j, "protocol"@) == Some("HTTP"@)
}

/// The body of a `/register` request.
pub fn register_body(alias: &str, fingerprint: &str) -> (res: Json)
    ensures
        is_device_info(res, alias@, fingerprint@),
{
    let es = vec![
        entry("alias", text_value(alias)),
        entry("deviceType", text_value("DESKTOP")),
        entry("port", Json::Number(text::decimal_string(DEFAULT_PORT as u64))),
        entry("protocol", text_value("HTTP")),
        entry("token", text_value(fingerprint)),
        entry("version", text_value(PROTOCOL_VERSION)),
    ];
    proof {
        reveal_strlit("alias");
        reveal_strlit("deviceType");
        reveal_strlit("port");
        reveal_strlit("protocol");
        reveal_strlit("token");
        reveal_strlit("version");
    }
    proof {
        let s = es@;
        assert("alias"@[0] != "token"@[0]);
        crate::runner::lemma_entry_get_at(s, 0, "alias"@);
        crate::runner::lemma_entry_get_at(s, 1, "deviceType"@);
        assert(s[0].0@ == "alias"@);
        assert(s[1].0@ == "deviceType"@);
        assert(s[2].0@ == "port"@);
        assert(s[3].0@ == "protocol"@);
        assert(s[4].0@ == "token"@);
        assert(s[5].0@ == "version"@);
        assert("alias"@.len() == 5 && "deviceType"@.len() == 10 && "port"@.len() == 4);
        assert("protocol"@.len() == 8 && "token"@.len() == 5 && "version"@.len() == 7);
        assert(s[0].0@ != "port"@ && s[1].0@ != "port"@);
        crate::runner::lemma_entry_get_at(s, 2, "port"@);
        assert("port"@[1] != "protocol"@[1]);
        assert(s[0].0@ != "protocol"@ && s[1].0@ != "protocol"@ && s[2].0@ != "protocol"@);
        crate::runner::lemma_entry_get_at(s, 3, "protocol"@);
        crate::runner::lemma_entry_get_at(s, 4, "token"@);
        crate::runner::lemma_entry_get_at(s, 5, "version"@);
    }
    Json::Object(es)
}

/// The hosts of the own /24 that are probed: 1 to 254, except the own one.
pub fn scan_hosts(own_last_octet: u8) -> (res: Vec<u8>)
    ensures
        forall|h: u8| res@.contains(h) <==> (1 <= h <= 254 && h != own_last_octet),
        forall|i: int, j: int| 0 <= i < j < res@.len() ==> res@[i] < res@[j],
{
    let mut out: Vec<u8> = Vec::new();
    let mut h: u8 = 1;
    while h <= 254
        invariant
            1 <= h <= 255,
            forall|x: u8| out@.contains(x) <==> (1 <= x < h && x != own_last_octet),
            forall|i: int, j: int| 0 <= i < j < out@.len() ==> out@[i] < out@[j],
            forall|i: int| 0 <= i < out@.len() ==> out@[i] < h,
        decreases 255 - h,
    {
        if h != own_last_octet {
            let ghost before = out@;
            out.push(h);
            assert forall|x: u8| out@.contains(x) <==> (1 <= x < h + 1 && x != own_last_octet) by {
                if out@.contains(x) {
                    let k = choose|k: int| 0 <= k < out@.len() && out@[k] == x;
                    if k < before.len() {
                        assert(before.contains(x));
                    }
                }
                if 1 <= x < h + 1 && x != own_last_octet {
                    if x < h {
                        assert(before.contains(x));
                        let k = choose|k: int| 0 <= k < before.len() && before[k] == x;
                        assert(out@[k] == x);
                    } else {
                        assert(out@[before.len() as int] == x);
                    }
                }
            }
        } else {
            assert forall|x: u8| out@.contains(x) <==> (1 <= x < h + 1 && x != own_last_octet) by {}
        }
        h += 1;
    }
    out
}

/// The peer a `/register` reply describes: it must name an alias and
/// carry a fingerprint (its `token`, else its `fingerprint`) that is not
/// empty and not Mosaic's own.
pub open spec fn peer_spec(
    alias: Option<Seq<char>>,
    token: Option<Seq<char>>,
    fingerprint: Option<Seq<char>>,
    own: Seq<char>,
) -> Option<(Seq<char>, Seq<char>)> {
    let fp = match token {
        Some(t) => t,
        None => match fingerprint {
            Some(f) => f,
            None => Seq::empty(),
        },
    };
    match alias {
        None => None,
        Some(a) => if fp.len() == 0 || fp == own {
            None
        } else {
            Some((a, fp))
        },
    }
}

/// Reads a `/register` reply from `ip`: its string members `alias`,
/// `token` and `fingerprint`, where present.
pub fn peer_from_reply(
    ip: String,
    alias: Option<String>,
    token: Option<String>,
    fingerprint: Option<String>,
    own: &str,
) -> (res: Option<PopoPeer>)
    ensures
        match peer_spec(ov(alias), ov(token), ov(fingerprint), own@) {
            Some((a, fp)) => res matches Some(p) && p.ip == ip && p.port == DEFAULT_PORT && p.alias@ == a
                && p.fingerprint@ == fp,
            None => res is None,
        },
{
    let fp = match token {
        Some(t) => t,
        None => match fingerprint {
            Some(f) => f,
            None => String::new(),
        },
    };
    match alias {
        None => None,
        Some(a) => {
            if text::chars_of(fp.as_str()).len() == 0 || text::str_eq(fp.as_str(), own) {
                None
            } else {
                Some(PopoPeer { ip, port: DEFAULT_PORT, alias: a, fingerprint: fp })
            }
        },
    }
}

/// Peers found more than once in a row (same fingerprint) count once.
pub open spec fn dedup_fingerprints(s: Seq<PopoPeer>) -> Seq<PopoPeer>
    decreases s.len(),
{
    if s.len() == 0 {
        s
    } else {
        let init = dedup_fingerprints(s.drop_last());
        if init.len() > 0 && init.last().fingerprint@ == s.last().fingerprint@ {
            init
        } else {
            init.push(s.last())
        }
    }
}

pub open spec fn ip_keys(peers: Seq<PopoPeer>) -> Seq<Seq<char>> {
    peers.map_values(|p: PopoPeer| p.ip@)
}

/// The scan's result: the peers sorted by address text (stably), then
/// consecutive duplicates of a fingerprint dropped.
pub fn arrange_peers(peers: Vec<PopoPeer>) -> (res: Vec<PopoPeer>)
    ensures
        exists|order: Seq<usize>|
            #[trigger] order::stably_sorted(ip_keys(peers@), order) && res@ == dedup_fingerprints(
                Seq::new(peers@.len(), |i: int| peers@[order[i] as int]),
            ),
{
    let ghost orig = peers@;
    let mut keys: Vec<Vec<char>> = Vec::new();
    let mut i: usize = 0;
    while i < peers.len()
        invariant
            i <= peers@.len(),
            peers@ == orig,
            keys@.len() == i,
            forall|k: int| 0 <= k < i ==> #[trigger] keys@[k]@ == orig[k].ip@,
        decreases peers.len() - i,
    {
        keys.push(text::chars_of(peers[i].ip.as_str()));
        i += 1;
    }
    let order = order::stable_order(&keys);
    assert(keys@.map_values(|k: Vec<char>| k@) =~= ip_keys(orig));
    let sorted = order::permute(peers, &order);
    let ghost ss = Seq::new(orig.len(), |i: int| orig[order@[i] as int]);
    assert(sorted@ =~= ss);
    let mut out: Vec<PopoPeer> = Vec::new();
    let mut rest = sorted;
    let mut j: usize = 0;
    assert(ss.skip(0) =~= ss);
    assert(ss.take(0) =~= Seq::<PopoPeer>::empty());
    while rest.len() > 0
        invariant
            j + rest@.len() == ss.len(),
            ss.len() <= usize::MAX,
            rest@ == ss.skip(j as int),
            out@ == dedup_fingerprints(ss.take(j as int)),
        decreases rest.len(),
    {
        let p = rest.remove(0);
        assert(p == ss[j as int]);
        assert(rest@ =~= ss.skip(j + 1));
        assert(ss.take(j + 1).drop_last() =~= ss.take(j as int));
        let dup = out.len() > 0 && text::str_eq(out[out.len() - 1].fingerprint.as_str(), p.fingerprint.as_str());
        if !dup {
            out.push(p);
        }
        j += 1;
    }
    assert(ss.take(ss.len() as int) =~= ss);
    out
}

// ---------------------------------------------------------------------------
// Sending a file
// ---------------------------------------------------------------------------

/// The API base of a peer: `http://<ip>:<port>/api/localsend/v2`.
pub open spec fn api_base(peer: PopoPeer) -> Seq<char> {
    "http://"@ + peer.ip@ + ":"@ + text::decimal(peer.port as nat) + "/api/localsend/v2"@
}

pub fn base_url(peer: &PopoPeer) -> (res: String)
    ensures
        res@ == api_base(*peer),
{
    let mut v = text::chars_of("http://");
    text::append_str(&mut v, peer.ip.as_str());
    text::append_str(&mut v, ":");
    text::push_decimal(&mut v, peer.port as u64);
    text::append_str(&mut v, "/api/localsend/v2");
    text::string_of(&v)
}

/// The prepare-upload request: Mosaic's device description and one file,
/// `file-1`, with its name, size, type and SHA-256.
pub open spec fn is_prepare_body(j: Json, alias: Seq<char>, fingerprint: Seq<char>, file_name: Seq<char>, size: u64, sha: Seq<char>) -> bool {
    &&& j is Object
    &&& get(j, "info"@) matches Some(info) && is_device_info(info, alias, fingerprint)
    &&& match get(j, "files"@) {
        Some(files) => files is Object && match get(files, "file-1"@) {
            Some(f) => is_file_info(f, file_name, size, sha),
            None => false,
        },
        None => false,
    }
}

pub open spec fn is_file_info(f: Json, file_name: Seq<char>, size: u64, sha: Seq<char>) -> bool {
    &&& f is Object
    &&& str_at(f, "id"@) == Some("file-1"@)
    &&& str_at(f, "fileName"@) == Some(file_name)
    &&& num_at(f, "size"@) == Some(text::decimal(size as nat))
    &&& str_at(f, "fileType"@) == Some("application/octet-stream"@)
    &&& str_at(f, "sha256"@) == Some(sha)
}

pub fn prepare_body(alias: &str, fingerprint: &str, file_name: &str, size: u64, sha: &str) -> (res: Json)
    ensures
        is_prepare_body(res, alias@, fingerprint@, file_name@, size, sha@),
{
    proof {
        reveal_strlit("fileName");
        reveal_strlit("fileType");
        reveal_strlit("id");
        reveal_strlit("sha256");
        reveal_strlit("size");
        reveal_strlit("files");
        reveal_strlit("info");
        reveal_strlit("file-1");
    }
    let fes = vec![
        entry("fileName", text_value(file_name)),
        entry("fileType", text_value("application/octet-stream")),
        entry("id", text_value("file-1")),
        entry("sha256", text_value(sha)),
        entry("size", Json::Number(text::decimal_string(size))),
    ];
    proof {
        let s = fes@;
        crate::runner::lemma_entry_get_at(s, 0, "fileName"@);
        assert(s[0].0@ == "fileName"@);
        assert(s[1].0@ == "fileType"@);
        assert(s[2].0@ == "id"@);
        assert(s[3].0@ == "sha256"@);
        assert(s[4].0@ == "size"@);
        assert("fileName"@.len() == 8 && "fileType"@.len() == 8 && "id"@.len() == 2);
        assert("sha256"@.len() == 6 && "size"@.len() == 4);
        assert("fileName"@[4] != "fileType"@[4]);
        assert(s[0].0@ != "fileType"@);
        crate::runner::lemma_entry_get_at(s, 1, "fileType"@);
        assert(s[0].0@ != "id"@ && s[1].0@ != "id"@);
        crate::runner::lemma_entry_get_at(s, 2, "id"@);
        crate::runner::lemma_entry_get_at(s, 3, "sha256"@);
        crate::runner::lemma_entry_get_at(s, 4, "size"@);
    }
    let file = Json::Object(fes);
    let fs = vec![entry("file-1", file)];
    proof {
        crate::runner::lemma_entry_get_at(fs@, 0, "file-1"@);
    }
    let files = Json::Object(fs);
    let info = register_body(alias, fingerprint);
    let es = vec![entry("files", files), entry("info", info)];
    proof {
        assert(es@[0].0@ == "files"@ && es@[1].0@ == "info"@);
        assert("files"@.len() == 5 && "info"@.len() == 4);
        crate::runner::lemma_entry_get_at(es@, 0, "files"@);
        crate::runner::lemma_entry_get_at(es@, 1, "info"@);
    }
    Json::Object(es)
}

/// The prepare-upload request for a file with these contents: its size is
/// their length and its digest their SHA-256.
pub fn upload_request(alias: &str, fingerprint: &str, file_name: &str, contents: &[u8]) -> (res: Json)
    ensures
        is_prepare_body(
            res,
            alias@,
            fingerprint@,
            file_name@,
            contents@.len() as u64,
            crate::digest::sha256_hex_spec(contents@),
        ),
{
    let sha = crate::digest::sha256_hex(contents);
    prepare_body(alias, fingerprint, file_name, contents.len() as u64, sha.as_str())
}

/// The upload URL for a prepared session.
pub open spec fn upload_url_spec(base: Seq<char>, session: Seq<char>, token: Seq<char>) -> Seq<char> {
    base + "/upload?sessionId="@ + session + "&fileId=file-1&token="@ + token
}

pub fn upload_url(base: &str, session: &str, token: &str) -> (res: String)
    ensures
        res@ == upload_url_spec(base@, session@, token@),
{
    let mut v = text::chars_of(base);
    text::append_str(&mut v, "/upload?sessionId=");
    text::append_str(&mut v, session);
    text::append_str(&mut v, "&fileId=file-1&token=");
    text::append_str(&mut v, token);
    text::string_of(&v)
}

/// Reads the prepare-upload reply: PoPo must hand out a session and a
/// token for `file-1`; it refuses by leaving them out.
pub fn upload_ticket(reply: &Json) -> (res: Result<(String, String), String>)
    ensures
        match str_at(*reply, "sessionId"@) {
            None => res matches Err(e) && e@ == "PoPo 未返回 sessionId（可能在 PoPo 里拒绝了接收）"@,
            Some(s) => match get(*reply, "files"@) {
                Some(files) => match str_at(files, "file-1"@) {
                    Some(t) => res matches Ok((a, b)) && a@ == s && b@ == t,
                    None => res matches Err(e) && e@ == "PoPo 未接受该文件"@,
                },
                None => res matches Err(e) && e@ == "PoPo 未接受该文件"@,
            },
        },
{
    let session = match crate::runner::json_str_at(reply, "sessionId") {
        Some(s) => s,
        None => return Err(text::string_from("PoPo 未返回 sessionId（可能在 PoPo 里拒绝了接收）")),
    };
    let token = match crate::runner::json_get(reply, "files") {
        Some(files) => crate::runner::json_str_at(files, "file-1"),
        None => None,
    };
    match token {
        Some(t) => Ok((session, t)),
        None => Err(text::string_from("PoPo 未接受该文件")),
    }
}

/// The message of a failed PoPo request: the status PoPo answered with, or
/// why it could not be reached.
pub fn popo_error(status: Option<u16>, transport: &str) -> (res: String)
    ensures
        match status {
            Some(code) => res@ == "PoPo 返回 "@ + text::decimal(code as nat) + "（在 PoPo 里确认允许接收）"@,
            None => res@ == "连不上 PoPo："@ + transport@ + "（确认 PoPo 在运行、与本机同一局域网）"@,
        },
{
    match status {
        Some(code) => {
            let mut v = text::chars_of("PoPo 返回 ");
            text::push_decimal(&mut v, code as u64);
            text::append_str(&mut v, "（在 PoPo 里确认允许接收）");
            text::string_of(&v)
        },
        None => {
            let mut v = text::chars_of("连不上 PoPo：");
            text::append_str(&mut v, transport);
            text::append_str(&mut v, "（确认 PoPo 在运行、与本机同一局域网）");
            text::string_of(&v)
        },
    }
}

} // verus!
