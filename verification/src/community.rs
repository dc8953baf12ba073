//! Community registries: which sources may be used, which registry entries
//! and package archives are acceptable, and the task an installed package
//! becomes. Fetching, unpacking and the file system stay with the shell.
use vstd::prelude::*;

use crate::digest;
use crate::model::{
    CommunityTaskSource, DisplayForm, Lifecycle, PackageRuntime, RegistryDocument,
    RegistryPackage, Task, TaskKind, Trigger,
};
use crate::order;
use crate::paths;
use crate::text;
use crate::text::{decimal, views};
use crate::update;
use crate::urls::{self, UrlParts, UrlView};

verus! {

pub const MAX_REGISTRY_BYTES: u64 = 2097152;

pub const MAX_PACKAGE_BYTES: u64 = 52428800;

pub const MAX_UNPACKED_BYTES: u64 = 134217728;

pub const MAX_FILES: usize = 512;

pub open spec fn unit_view(r: Result<(), String>) -> Result<(), Seq<char>> {
    match r {
        Ok(_) => Ok(()),
        Err(e) => Err(e@),
    }
}

pub open spec fn str_res_view(r: Result<String, String>) -> Result<Seq<char>, Seq<char>> {
    match r {
        Ok(s) => Ok(s@),
        Err(e) => Err(e@),
    }
}

pub open spec fn url_view(r: Result<UrlParts, String>) -> Result<UrlView, Seq<char>> {
    match r {
        Ok(u) => Ok(u@),
        Err(e) => Err(e@),
    }
}

pub open spec fn utf8_len(s: Seq<char>) -> nat {
    vstd::utf8::encode_utf8(s).len()
}

pub fn byte_len(s: &str) -> (res: usize)
    ensures
        res == utf8_len(s@),
{
    s.as_bytes().len()
}

// ---------------------------------------------------------------------------
// Identifiers and paths inside packages
// ---------------------------------------------------------------------------

pub open spec fn slug_char(c: char) -> bool {
    text::is_ascii_alnum(c) || c == '.' || c == '_' || c == '-'
}

/// A package id or version: 2 to 64 bytes of ASCII letters, digits, `.`,
/// `_` and `-`; the error names the field by `label`.
pub open spec fn safe_slug_spec(v: Seq<char>, label: Seq<char>) -> Result<(), Seq<char>> {
    if utf8_len(v) < 2 || utf8_len(v) > 64 {
        Err(label + "长度必须在 2 到 64 个字符之间"@)
    } else if !(forall|i: int| 0 <= i < v.len() ==> slug_char(#[trigger] v[i])) {
        Err(label + "只能包含英文字母、数字、点、下划线和连字符"@)
    } else {
        Ok(())
    }
}

pub fn safe_slug(value: &str, label: &str) -> (res: Result<(), String>)
    ensures
        unit_view(res) == safe_slug_spec(value@, label@),
{
    let n = byte_len(value);
    if n < 2 || n > 64 {
        return Err(text::concat(label, "长度必须在 2 到 64 个字符之间"));
    }
    let v = text::chars_of(value);
    let mut i: usize = 0;
    while i < v.len()
        invariant
            i <= v.len(),
            v@ == value@,
            2 <= utf8_len(value@) <= 64,
            forall|k: int| 0 <= k < i ==> slug_char(#[trigger] v@[k]),
        decreases v.len() - i,
    {
        let c = v[i];
        if !(text::is_alnum(c) || c == '.' || c == '_' || c == '-') {
            assert(!slug_char(v@[i as int]));
            return Err(text::concat(label, "只能包含英文字母、数字、点、下划线和连字符"));
        }
        i += 1;
    }
    Ok(())
}

/// A non-empty relative path whose every component is a plain name (no
/// root, drive, `.` or `..`).
pub open spec fn relative_ok(v: Seq<char>) -> bool {
    &&& v.len() > 0
    &&& !paths::path_is_absolute(v)
    &&& forall|k: int|
        0 <= k < paths::path_component_kinds(v).len() ==> #[trigger] paths::path_component_kinds(
            v,
        )[k] == paths::ComponentKind::Normal
}

pub open spec fn safe_relative_spec(v: Seq<char>, label: Seq<char>) -> Result<Seq<char>, Seq<char>> {
    if relative_ok(v) {
        Ok(v)
    } else {
        Err(label + "必须是包内的安全相对路径"@)
    }
}

pub fn safe_relative(value: &str, label: &str) -> (res: Result<String, String>)
    ensures
        str_res_view(res) == safe_relative_spec(value@, label@),
{
    let err = text::concat(label, "必须是包内的安全相对路径");
    let v = text::chars_of(value);
    if v.len() == 0 || paths::is_absolute(value) {
        return Err(err);
    }
    let kinds = paths::component_kinds(value);
    let mut i: usize = 0;
    while i < kinds.len()
        invariant
            i <= kinds.len(),
            kinds@ == paths::path_component_kinds(value@),
            err@ == label@ + "必须是包内的安全相对路径"@,
            value@.len() > 0,
            !paths::path_is_absolute(value@),
            forall|k: int| 0 <= k < i ==> #[trigger] kinds@[k] == paths::ComponentKind::Normal,
        decreases kinds.len() - i,
    {
        if kinds[i] != paths::ComponentKind::Normal {
            return Err(err);
        }
        i += 1;
    }
    Ok(text::string_from(value))
}

// ---------------------------------------------------------------------------
// Registry sources
// ---------------------------------------------------------------------------

pub open spec fn is_loopback(host: Option<Seq<char>>) -> bool {
    match host {
        Some(h) => text::ascii_lower(h) == text::ascii_lower("localhost"@) || h == "127.0.0.1"@
            || h == "::1"@,
        None => false,
    }
}

/// A registry source: HTTPS, or plain HTTP to the local machine, without
/// credentials.
pub open spec fn parse_source_url_spec(value: Seq<char>) -> Result<UrlView, Seq<char>> {
    match urls::url_parse_spec(text::trim(value)) {
        None => Err("社区源 URL 无效"@),
        Some(u) => if u.username.len() > 0 || u.password.is_some() {
            Err("社区源 URL 不能包含用户名或密码"@)
        } else if u.scheme != "https"@ && !(u.scheme == "http"@ && is_loopback(u.host)) {
            Err("社区源必须使用 HTTPS（本机测试可使用 localhost）"@)
        } else {
            Ok(u)
        },
    }
}

fn loopback_exec(host: &Option<String>) -> (res: bool)
    ensures
        res == is_loopback(urls::ov(*host)),
{
    match host {
        Some(h) => {
            let v = text::chars_of(h.as_str());
            let lower = text::ascii_lowercase(&v);
            let local = text::chars_of("localhost");
            let local_lower = text::ascii_lowercase(&local);
            text::eq_chars(&lower, &local_lower) || text::eq_str(&v, "127.0.0.1") || text::eq_str(
                &v,
                "::1",
            )
        },
        None => false,
    }
}

pub fn parse_source_url(value: &str) -> (res: Result<UrlParts, String>)
    ensures
        url_view(res) == parse_source_url_spec(value@),
{
    let trimmed = text::string_of(&text::trim_str(value));
    let parsed = match urls::parse(trimmed.as_str()) {
        Ok(u) => u,
        Err(_) => return Err(text::string_from("社区源 URL 无效")),
    };
    let user = text::chars_of(parsed.username.as_str());
    if user.len() > 0 || parsed.password.is_some() {
        return Err(text::string_from("社区源 URL 不能包含用户名或密码"));
    }
    let https = text::str_eq(parsed.scheme.as_str(), "https");
    let http = text::str_eq(parsed.scheme.as_str(), "http");
    if !https && !(http && loopback_exec(&parsed.host)) {
        return Err(text::string_from("社区源必须使用 HTTPS（本机测试可使用 localhost）"));
    }
    Ok(parsed)
}

pub open spec fn same_origin_spec(a: UrlView, b: UrlView) -> bool {
    a.scheme == b.scheme && a.host == b.host && a.port == b.port
}

fn opt_str_eq(a: &Option<String>, b: &Option<String>) -> (res: bool)
    ensures
        res == (urls::ov(*a) == urls::ov(*b)),
{
    match (a, b) {
        (Some(x), Some(y)) => text::str_eq(x.as_str(), y.as_str()),
        (None, None) => true,
        _ => false,
    }
}

/// Same scheme, host and (default) port.
pub fn same_origin(left: &UrlParts, right: &UrlParts) -> (res: bool)
    ensures
        res == same_origin_spec(left@, right@),
{
    text::str_eq(left.scheme.as_str(), right.scheme.as_str()) && opt_str_eq(&left.host, &right.host)
        && left.port == right.port
}

/// The configured registry sources: at most eight, each normalised to its
/// URL serialisation, duplicates dropped.
pub open spec fn normalize_sources_spec(sources: Seq<Seq<char>>) -> Result<Seq<Seq<char>>, Seq<char>> {
    if sources.len() > 8 {
        Err("最多添加 8 个社区源"@)
    } else {
        normalize_prefix(sources, sources.len() as int)
    }
}

pub open spec fn normalize_prefix(sources: Seq<Seq<char>>, n: int) -> Result<Seq<Seq<char>>, Seq<char>>
    decreases n,
{
    if n <= 0 {
        Ok(Seq::empty())
    } else {
        match normalize_prefix(sources, n - 1) {
            Err(e) => Err(e),
            Ok(done) => match parse_source_url_spec(sources[n - 1]) {
                Err(e) => Err(e),
                Ok(u) => if done.contains(u.serialized) {
                    Ok(done)
                } else {
                    Ok(done.push(u.serialized))
                },
            },
        }
    }
}

pub open spec fn strings_res_view(r: Result<Vec<String>, String>) -> Result<Seq<Seq<char>>, Seq<char>> {
    match r {
        Ok(v) => Ok(views(v@)),
        Err(e) => Err(e@),
    }
}

fn contains_text(v: &Vec<String>, s: &String) -> (res: bool)
    ensures
        res == views(v@).contains(s@),
{
    let mut i: usize = 0;
    while i < v.len()
        invariant
            i <= v.len(),
            forall|k: int| 0 <= k < i ==> views(v@)[k] != s@,
        decreases v.len() - i,
    {
        if text::str_eq(v[i].as_str(), s.as_str()) {
            assert(views(v@)[i as int] == s@);
            return true;
        }
        i += 1;
    }
    false
}

/// Normalises the registry sources the user saves.
pub fn normalize_sources(sources: &Vec<String>) -> (res: Result<Vec<String>, String>)
    ensures
        strings_res_view(res) == normalize_sources_spec(views(sources@)),
{
    if sources.len() > 8 {
        return Err(text::string_from("最多添加 8 个社区源"));
    }
    let ghost s = views(sources@);
    let mut out: Vec<String> = Vec::new();
    let mut i: usize = 0;
    assert(views(out@) =~= Seq::<Seq<char>>::empty());
    while i < sources.len()
        invariant
            i <= sources.len(),
            sources.len() <= 8,
            s == views(sources@),
            normalize_prefix(s, i as int) == Ok::<Seq<Seq<char>>, Seq<char>>(views(out@)),
        decreases sources.len() - i,
    {
        let parsed = match parse_source_url(sources[i].as_str()) {
            Ok(u) => u,
            Err(e) => {
                assert(normalize_prefix(s, i + 1) == Err::<Seq<Seq<char>>, Seq<char>>(e@));
                proof {
                    lemma_normalize_err_sticks(s, i + 1, sources.len() as int, e@);
                }
                return Err(e);
            },
        };
        let value = parsed.serialized;
        if !contains_text(&out, &value) {
            let ghost before = out@;
            out.push(value);
            assert(views(out@) =~= views(before).push(parsed@.serialized));
        }
        i += 1;
    }
    Ok(out)
}

proof fn lemma_normalize_err_sticks(s: Seq<Seq<char>>, i: int, n: int, e: Seq<char>)
    requires
        0 <= i <= n,
        normalize_prefix(s, i) == Err::<Seq<Seq<char>>, Seq<char>>(e),
    ensures
        normalize_prefix(s, n) == Err::<Seq<Seq<char>>, Seq<char>>(e),
    decreases n - i,
{
    if i < n {
        lemma_normalize_err_sticks(s, i + 1, n, e);
    }
}

/// Whether the source is one the user configured.
pub fn is_configured(sources: &Vec<String>, source: &str) -> (res: bool)
    ensures
        res == views(sources@).contains(source@),
{
    let s = text::string_from(source);
    contains_text(sources, &s)
}

// ---------------------------------------------------------------------------
// Registry documents
// ---------------------------------------------------------------------------

/// The checks a registry entry must pass, in order; on success the
/// normalised digest and the absolute download URL.
pub open spec fn package_check(p: RegistryPackage, source: UrlView) -> Result<(Seq<char>, Seq<char>), Seq<char>> {
    let hash = text::ascii_lower(text::trim(p.sha256@));
    match safe_slug_spec(p.id@, "包 ID"@) {
        Err(e) => Err(e),
        Ok(_) => match safe_slug_spec(p.version@, "版本"@) {
            Err(e) => Err(e),
            Ok(_) => if text::trim(p.name@).len() == 0 || utf8_len(p.name@) > 80 {
                Err("包名称不能为空且不能超过 80 个字符"@)
            } else if text::trim(p.author@).len() == 0 || utf8_len(p.author@) > 80 {
                Err("作者不能为空且不能超过 80 个字符"@)
            } else if !relative_ok(p.entry@) {
                Err("入口文件"@ + "必须是包内的安全相对路径"@)
            } else if p.args@.len() > 32 || exists|i: int|
                0 <= i < p.args@.len() && utf8_len(#[trigger] p.args@[i]@) > 1024 {
                Err("启动参数数量或长度超过限制"@)
            } else if !update::is_sha256_spec(hash) {
                Err("包 SHA-256 必须是 64 位十六进制字符串"@)
            } else {
                match urls::url_join_spec(source.serialized, text::trim(p.package_url@)) {
                    None => Err("包下载 URL 无效"@),
                    Some(u) => if !same_origin_spec(source, u) {
                        Err("包文件必须与社区注册表同源，禁止跨域下载"@)
                    } else {
                        Ok((hash, u.serialized))
                    },
                }
            },
        },
    }
}

/// What an accepted registry entry is: id and version are safe slugs, the
/// digest kept is the trimmed, lower-cased registered one and is 64 hex
/// digits, and the download URL kept is the registered one joined to the
/// registry's URL, on the registry's own origin.
pub proof fn lemma_accepted_package(p: RegistryPackage, source: UrlView)
    requires
        package_check(p, source) is Ok,
    ensures
        safe_slug_spec(p.id@, "包 ID"@) is Ok,
        safe_slug_spec(p.version@, "版本"@) is Ok,
        package_check(p, source)->Ok_0.0 == text::ascii_lower(text::trim(p.sha256@)),
        update::is_sha256_spec(package_check(p, source)->Ok_0.0),
        urls::url_join_spec(source.serialized, text::trim(p.package_url@)) matches Some(u)
            && same_origin_spec(source, u) && package_check(p, source)->Ok_0.1 == u.serialized,
{
}

/// `p` after a successful check: digest and download URL replaced.
pub open spec fn checked_package(before: RegistryPackage, after: RegistryPackage, sha: Seq<char>, url: Seq<char>) -> bool {
    &&& after.sha256@ == sha
    &&& after.package_url@ == url
    &&& after == (RegistryPackage { sha256: after.sha256, package_url: after.package_url, ..before })
}

fn args_within_limits(args: &Vec<String>) -> (res: bool)
    ensures
        res == !(args@.len() > 32 || exists|i: int|
            0 <= i < args@.len() && utf8_len(#[trigger] args@[i]@) > 1024),
{
    if args.len() > 32 {
        return false;
    }
    let mut i: usize = 0;
    while i < args.len()
        invariant
            i <= args.len(),
            forall|k: int| 0 <= k < i ==> utf8_len(#[trigger] args@[k]@) <= 1024,
        decreases args.len() - i,
    {
        if byte_len(args[i].as_str()) > 1024 {
            return false;
        }
        i += 1;
    }
    true
}

/// Checks one registry entry against the registry's own URL; on success the
/// digest is normalised and the package URL made absolute.
pub fn validate_package(package: &mut RegistryPackage, source: &UrlParts) -> (res: Result<(), String>)
    ensures
        match package_check(*old(package), source@) {
            Ok((sha, url)) => res.is_ok() && checked_package(*old(package), *final(package), sha, url),
            Err(e) => unit_view(res) == Err::<(), Seq<char>>(e),
        },
{
    match safe_slug(package.id.as_str(), "包 ID") {
        Err(e) => return Err(e),
        Ok(_) => {},
    }
    match safe_slug(package.version.as_str(), "版本") {
        Err(e) => return Err(e),
        Ok(_) => {},
    }
    let name = text::trim_str(package.name.as_str());
    if name.len() == 0 || byte_len(package.name.as_str()) > 80 {
        return Err(text::string_from("包名称不能为空且不能超过 80 个字符"));
    }
    let author = text::trim_str(package.author.as_str());
    if author.len() == 0 || byte_len(package.author.as_str()) > 80 {
        return Err(text::string_from("作者不能为空且不能超过 80 个字符"));
    }
    match safe_relative(package.entry.as_str(), "入口文件") {
        Err(e) => return Err(e),
        Ok(_) => {},
    }
    if !args_within_limits(&package.args) {
        return Err(text::string_from("启动参数数量或长度超过限制"));
    }
    let trimmed = text::trim_str(package.sha256.as_str());
    let hash = text::ascii_lowercase(&trimmed);
    let hash_text = text::string_of(&hash);
    if !update::is_sha256(hash_text.as_str()) {
        return Err(text::string_from("包 SHA-256 必须是 64 位十六进制字符串"));
    }
    let link = text::string_of(&text::trim_str(package.package_url.as_str()));
    let joined = match urls::join(source, link.as_str()) {
        Ok(u) => u,
        Err(_) => return Err(text::string_from("包下载 URL 无效")),
    };
    if !same_origin(source, &joined) {
        return Err(text::string_from("包文件必须与社区注册表同源，禁止跨域下载"));
    }
    package.sha256 = hash_text;
    package.package_url = joined.serialized;
    Ok(())
}

pub open spec fn package_ids(ps: Seq<RegistryPackage>) -> Seq<Seq<char>> {
    ps.map_values(|p: RegistryPackage| p.id@)
}

/// Every entry in order: its checks, then its id must not repeat an earlier one.
pub open spec fn entries_check(ps: Seq<RegistryPackage>, source: UrlView) -> Result<(), Seq<char>>
    decreases ps.len(),
{
    if ps.len() == 0 {
        Ok(())
    } else {
        match entries_check(ps.drop_last(), source) {
            Err(e) => Err(e),
            Ok(_) => match package_check(ps.last(), source) {
                Err(e) => Err(e),
                Ok(_) => if package_ids(ps.drop_last()).contains(ps.last().id@) {
                    Err("包 ID "@ + ps.last().id@ + " 重复登记；一个源只保留当前版本"@)
                } else {
                    Ok(())
                },
            },
        }
    }
}

/// The verdict on a registry document fetched from `source`.
pub open spec fn registry_check(schema_version: u32, ps: Seq<RegistryPackage>, source: UrlView) -> Result<(), Seq<char>> {
    if schema_version != 1 {
        Err("不支持的注册表版本 "@ + decimal(schema_version as nat))
    } else if ps.len() > 500 {
        Err("单个社区源最多登记 500 个包"@)
    } else {
        entries_check(ps, source)
    }
}

/// `after` holds `before`'s entries, each with its digest and URL normalised.
pub open spec fn all_checked(before: Seq<RegistryPackage>, after: Seq<RegistryPackage>, source: UrlView) -> bool {
    &&& after.len() == before.len()
    &&& forall|i: int|
        0 <= i < before.len() ==> #[trigger] package_check(before[i], source) is Ok
            && checked_package(
            before[i],
            after[i],
            package_check(before[i], source)->Ok_0.0,
            package_check(before[i], source)->Ok_0.1,
        )
}

proof fn lemma_entries_prefix_ok(ps: Seq<RegistryPackage>, source: UrlView, i: int)
    requires
        0 <= i <= ps.len(),
        entries_check(ps, source) is Ok,
    ensures
        entries_check(ps.take(i), source) is Ok,
    decreases ps.len() - i,
{
    if i < ps.len() {
        assert(ps.drop_last().take(i) =~= ps.take(i));
        lemma_entries_prefix_ok(ps.drop_last(), source, i);
    } else {
        assert(ps.take(i) =~= ps);
    }
}

proof fn lemma_entries_err_sticks(ps: Seq<RegistryPackage>, source: UrlView, i: int, e: Seq<char>)
    requires
        0 <= i <= ps.len(),
        entries_check(ps.take(i), source) == Err::<(), Seq<char>>(e),
    ensures
        entries_check(ps, source) == Err::<(), Seq<char>>(e),
    decreases ps.len() - i,
{
    if i < ps.len() {
        assert(ps.take(i + 1).drop_last() =~= ps.take(i));
        lemma_entries_err_sticks(ps, source, i + 1, e);
    } else {
        assert(ps.take(i) =~= ps);
    }
}

fn id_seen(done: &Vec<RegistryPackage>, id: &String) -> (res: bool)
    ensures
        res == package_ids(done@).contains(id@),
{
    let mut i: usize = 0;
    while i < done.len()
        invariant
            i <= done.len(),
            forall|k: int| 0 <= k < i ==> package_ids(done@)[k] != id@,
        decreases done.len() - i,
    {
        if text::str_eq(done[i].id.as_str(), id.as_str()) {
            assert(package_ids(done@)[i as int] == id@);
            return true;
        }
        i += 1;
    }
    false
}

/// Checks a registry document fetched from `source`: schema version 1, at
/// most 500 entries, every entry valid and ids unique. On success every
/// entry's digest and package URL are normalised.
pub fn validate_registry(document: &mut RegistryDocument, source: &UrlParts) -> (res: Result<(), String>)
    ensures
        unit_view(res) == registry_check(
            old(document).schema_version,
            old(document).packages@,
            source@,
        ),
        res.is_ok() ==> all_checked(old(document).packages@, final(document).packages@, source@),
        final(document).schema_version == old(document).schema_version,
        final(document).name == old(document).name,
{
    if document.schema_version != 1 {
        let mut msg = text::chars_of("不支持的注册表版本 ");
        text::push_decimal(&mut msg, document.schema_version as u64);
        return Err(text::string_of(&msg));
    }
    if document.packages.len() > 500 {
        return Err(text::string_from("单个社区源最多登记 500 个包"));
    }
    let ghost orig = document.packages@;
    let mut rest: Vec<RegistryPackage> = Vec::new();
    std::mem::swap(&mut rest, &mut document.packages);
    let mut done: Vec<RegistryPackage> = Vec::new();
    let mut i: usize = 0;
    assert(orig.take(0) =~= Seq::<RegistryPackage>::empty());
    assert(orig.len() == rest.len());
    while rest.len() > 0
        invariant
            i + rest@.len() == orig.len(),
            orig.len() <= usize::MAX,
            rest@ == orig.skip(i as int),
            done@.len() == i,
            package_ids(done@) == package_ids(orig.take(i as int)),
            entries_check(orig.take(i as int), source@) is Ok,
            all_checked(orig.take(i as int), done@, source@),
            document.schema_version == old(document).schema_version,
            document.name == old(document).name,
            orig == old(document).packages@,
            old(document).schema_version == 1,
            orig.len() <= 500,
        decreases rest.len(),
    {
        let mut p = rest.remove(0);
        let ghost before = p;
        proof {
            assert(before == orig[i as int]);
            assert(rest@ =~= orig.skip(i + 1));
            assert(orig.take(i + 1).drop_last() =~= orig.take(i as int));
            assert(orig.take(i + 1).last() == orig[i as int]);
        }
        match validate_package(&mut p, source) {
            Err(e) => {
                assert(entries_check(orig.take(i + 1), source@) == Err::<(), Seq<char>>(e@));
                proof {
                    lemma_entries_err_sticks(orig, source@, i + 1, e@);
                }
                document.packages = done;
                return Err(e);
            },
            Ok(_) => {},
        }
        if id_seen(&done, &p.id) {
            let mut msg = text::chars_of("包 ID ");
            text::append_str(&mut msg, p.id.as_str());
            text::append_str(&mut msg, " 重复登记；一个源只保留当前版本");
            let e = text::string_of(&msg);
            assert(entries_check(orig.take(i + 1), source@) == Err::<(), Seq<char>>(e@));
            proof {
                lemma_entries_err_sticks(orig, source@, i + 1, e@);
            }
            document.packages = done;
            return Err(e);
        }
        let ghost done_before = done@;
        done.push(p);
        proof {
            assert(package_check(before, source@) is Ok);
            assert(p.id == before.id);
            assert(orig.take(i + 1) =~= orig.take(i as int).push(orig[i as int]));
            assert(package_ids(done@) =~= package_ids(done_before).push(before.id@));
            assert(package_ids(orig.take(i + 1)) =~= package_ids(orig.take(i as int)).push(
                before.id@,
            ));
            assert forall|k: int| 0 <= k < i + 1 implies #[trigger] package_check(orig.take(i + 1)[k], source@) is Ok
                && checked_package(
                orig.take(i + 1)[k],
                done@[k],
                package_check(orig.take(i + 1)[k], source@)->Ok_0.0,
                package_check(orig.take(i + 1)[k], source@)->Ok_0.1,
            ) by {
                if k < i {
                    assert(orig.take(i + 1)[k] == orig.take(i as int)[k]);
                    assert(done@[k] == done_before[k]);
                }
            }
        }
        i += 1;
    }
    assert(orig.take(orig.len() as int) =~= orig);
    document.packages = done;
    Ok(())
}

/// The error for a download larger than `max` bytes.
pub open spec fn too_large_error(max: u64) -> Seq<char> {
    "下载内容超过 "@ + decimal((max / 1024 / 1024) as nat) + " MB 限制"@
}

/// Checks a download's announced or actual size against its limit.
pub fn check_download_size(size: u64, max: u64) -> (res: Result<(), String>)
    ensures
        size > max ==> unit_view(res) == Err::<(), Seq<char>>(too_large_error(max)),
        size <= max ==> res.is_ok(),
{
    if size > max {
        let mut msg = text::chars_of("下载内容超过 ");
        text::push_decimal(&mut msg, max / 1024 / 1024);
        text::append_str(&mut msg, " MB 限制");
        return Err(text::string_of(&msg));
    }
    Ok(())
}


// ---------------------------------------------------------------------------
// Installing a package
// ---------------------------------------------------------------------------

/// The registry entry with this id and version (the first one listed).
pub open spec fn find_package_spec(ps: Seq<RegistryPackage>, id: Seq<char>, version: Seq<char>) -> Option<int>
    decreases ps.len(),
{
    if ps.len() == 0 {
        None
    } else if ps[0].id@ == id && ps[0].version@ == version {
        Some(0)
    } else {
        match find_package_spec(ps.drop_first(), id, version) {
            Some(k) => Some(k + 1),
            None => None,
        }
    }
}

proof fn lemma_find_package_bound(ps: Seq<RegistryPackage>, id: Seq<char>, version: Seq<char>)
    ensures
        find_package_spec(ps, id, version) matches Some(k) ==> 0 <= k < ps.len(),
    decreases ps.len(),
{
    if ps.len() > 0 {
        lemma_find_package_bound(ps.drop_first(), id, version);
    }
}

/// Takes the registry entry with this id and version out of a document.
pub fn find_package(document: RegistryDocument, package_id: &str, version: &str) -> (res: Result<RegistryPackage, String>)
    ensures
        match find_package_spec(document.packages@, package_id@, version@) {
            Some(k) => res == Ok::<RegistryPackage, String>(document.packages@[k]),
            None => unit_or_err(res) == Err::<(), Seq<char>>("社区源中找不到这个版本"@),
        },
{
    let ghost orig = document.packages@;
    let mut rest = document.packages;
    let mut i: usize = 0;
    assert(orig.skip(0) =~= orig);
    assert(orig.len() == rest.len());
    while rest.len() > 0
        invariant
            orig == document.packages@,
            i + rest@.len() == orig.len(),
            orig.len() <= usize::MAX,
            rest@ == orig.skip(i as int),
            find_package_spec(orig, package_id@, version@) == (match find_package_spec(
                orig.skip(i as int),
                package_id@,
                version@,
            ) {
                Some(k) => Some(k + i),
                None => None::<int>,
            }),
        decreases rest.len(),
    {
        let p = rest.remove(0);
        proof {
            let t = orig.skip(i as int);
            assert(t[0] == p);
            assert(t.drop_first() =~= orig.skip(i + 1));
            assert(rest@ =~= orig.skip(i + 1));
        }
        if text::str_eq(p.id.as_str(), package_id) && text::str_eq(p.version.as_str(), version) {
            proof {
                assert(orig.skip(i as int)[0] == orig[i as int]);
                assert(find_package_spec(orig.skip(i as int), package_id@, version@) == Some(0int));
                assert(find_package_spec(orig, package_id@, version@) == Some(i as int));
                assert(p == orig[i as int]);
            }
            return Ok(p);
        }
        i += 1;
    }
    Err(text::string_from("社区源中找不到这个版本"))
}

pub open spec fn unit_or_err<T>(r: Result<T, String>) -> Result<(), Seq<char>> {
    match r {
        Ok(_) => Ok(()),
        Err(e) => Err(e@),
    }
}

/// The package archive must come from the registry's own origin.
pub open spec fn package_origin_spec(source: UrlView, package_url: Seq<char>) -> Result<UrlView, Seq<char>> {
    match urls::url_parse_spec(package_url) {
        None => Err("包下载 URL 无效"@),
        Some(u) => if !same_origin_spec(source, u) {
            Err("包文件与社区注册表不同源"@)
        } else {
            Ok(u)
        },
    }
}

pub fn package_origin(source: &UrlParts, package_url: &str) -> (res: Result<UrlParts, String>)
    ensures
        url_view(res) == package_origin_spec(source@, package_url@),
{
    let parsed = match urls::parse(package_url) {
        Ok(u) => u,
        Err(_) => return Err(text::string_from("包下载 URL 无效")),
    };
    if !same_origin(source, &parsed) {
        return Err(text::string_from("包文件与社区注册表不同源"));
    }
    Ok(parsed)
}

/// The downloaded archive must hash to the registered digest.
pub fn verify_package_hash(bytes: &[u8], expected: &str) -> (res: Result<(), String>)
    ensures
        digest::sha256_hex_spec(bytes@) == expected@ ==> res.is_ok(),
        digest::sha256_hex_spec(bytes@) != expected@ ==> unit_view(res) == Err::<(), Seq<char>>(
            "SHA-256 校验失败：登记值 "@ + expected@ + "，实际值 "@ + digest::sha256_hex_spec(bytes@),
        ),
{
    let actual = digest::sha256_hex(bytes);
    if !text::str_eq(actual.as_str(), expected) {
        let mut msg = text::chars_of("SHA-256 校验失败：登记值 ");
        text::append_str(&mut msg, expected);
        text::append_str(&mut msg, "，实际值 ");
        text::append_str(&mut msg, actual.as_str());
        return Err(text::string_of(&msg));
    }
    Ok(())
}

/// `mosaic-package.json` at the root of a package archive.
#[derive(Debug, Clone)]
pub struct PackageManifest {
    pub schema_version: u32,
    pub id: String,
    pub version: String,
    pub runtime: PackageRuntime,
    pub entry: String,
}

pub open spec fn manifest_agrees(m: PackageManifest, p: RegistryPackage) -> bool {
    m.schema_version == 1 && m.id@ == p.id@ && m.version@ == p.version@ && m.runtime == p.runtime
        && m.entry@ == p.entry@
}

/// The manifest inside the archive must agree with the registry entry.
pub fn check_manifest(manifest: &PackageManifest, package: &RegistryPackage) -> (res: Result<(), String>)
    ensures
        manifest_agrees(*manifest, *package) ==> res.is_ok(),
        !manifest_agrees(*manifest, *package) ==> unit_view(res) == Err::<(), Seq<char>>(
            "包内清单与社区登记信息不一致"@,
        ),
{
    if manifest.schema_version != 1 || !text::str_eq(manifest.id.as_str(), package.id.as_str())
        || !text::str_eq(manifest.version.as_str(), package.version.as_str()) || manifest.runtime
        != package.runtime || !text::str_eq(manifest.entry.as_str(), package.entry.as_str()) {
        return Err(text::string_from("包内清单与社区登记信息不一致"));
    }
    Ok(())
}

/// How a package's entry file is started.
pub open spec fn launch_spec(runtime: PackageRuntime, entry: Seq<char>) -> (Seq<char>, Seq<Seq<char>>) {
    match runtime {
        PackageRuntime::Node => ("node"@, seq![entry]),
        PackageRuntime::Python => ("python"@, seq![entry]),
        PackageRuntime::PowerShell => (
            "powershell.exe"@,
            seq!["-NoProfile"@, "-ExecutionPolicy"@, "Bypass"@, "-File"@, entry],
        ),
        PackageRuntime::Executable => (entry, Seq::empty()),
    }
}

/// The command line of an installed package: the runtime's launcher for the
/// entry file, followed by the registered arguments.
pub fn launch_command(runtime: PackageRuntime, entry: &str, extra: &Vec<String>) -> (res: (String, Vec<String>))
    ensures
        res.0@ == launch_spec(runtime, entry@).0,
        views(res.1@) == launch_spec(runtime, entry@).1 + views(extra@),
{
    let (command, mut args) = match runtime {
        PackageRuntime::Node => (text::string_from("node"), vec![text::string_from(entry)]),
        PackageRuntime::Python => (text::string_from("python"), vec![text::string_from(entry)]),
        PackageRuntime::PowerShell => (
            text::string_from("powershell.exe"),
            vec![
                text::string_from("-NoProfile"),
                text::string_from("-ExecutionPolicy"),
                text::string_from("Bypass"),
                text::string_from("-File"),
                text::string_from(entry),
            ],
        ),
        PackageRuntime::Executable => (text::string_from(entry), Vec::new()),
    };
    assert(views(args@) =~= launch_spec(runtime, entry@).1);
    let ghost first = views(args@);
    let mut more = text::copy_strings(extra);
    args.append(&mut more);
    assert(views(args@) =~= first + views(extra@));
    (command, args)
}

/// The task an installed package becomes. It starts outside the working
/// library and switched off; plugins are resident and have no timeout.
pub open spec fn community_task_spec(
    t: Task,
    p: RegistryPackage,
    registry_url: Seq<char>,
    package_dir: Seq<char>,
    command: Seq<char>,
    args: Seq<Seq<char>>,
    risk: Seq<char>,
    previous_id: Option<Seq<char>>,
    created_at: Seq<char>,
) -> bool {
    &&& t.id@ == (match previous_id {
        Some(id) => id,
        None => "community:"@ + p.id@,
    })
    &&& t.nickname@ == p.name@
    &&& t.command@ == command
    &&& t.kind == p.kind
    &&& views(t.args@) == args
    &&& urls::ov(t.cwd) == Some(package_dir)
    &&& t.trigger is Manual
    &&& t.display == DisplayForm::Card
    &&& t.lifecycle == (if p.kind == TaskKind::Plugin {
        Lifecycle::Resident
    } else {
        p.lifecycle
    })
    &&& !t.active
    &&& !t.enabled
    &&& t.timeout_secs == (if p.kind == TaskKind::Plugin {
        0u64
    } else {
        60u64
    })
    &&& t.push_channel.is_none()
    &&& !t.on_dashboard
    &&& t.order == 0
    &&& t.col_span == 1
    &&& t.row_span == 1
    &&& t.output_dir.is_none()
    &&& t.stdin.is_none()
    &&& t.created_at@ == created_at
    &&& t.community matches Some(c) && {
        &&& c.package_id@ == p.id@
        &&& c.version@ == p.version@
        &&& c.registry_url@ == registry_url
        &&& c.package_dir@ == package_dir
        &&& c.sha256@ == p.sha256@
        &&& c.author@ == p.author@
        &&& c.runtime == p.runtime
        &&& c.risk@ == risk
    }
}

pub fn community_task(
    package: &RegistryPackage,
    registry_url: &str,
    package_dir: &str,
    command: String,
    args: Vec<String>,
    risk: String,
    previous_id: Option<String>,
    created_at: &str,
) -> (t: Task)
    ensures
        community_task_spec(
            t,
            *package,
            registry_url@,
            package_dir@,
            command@,
            views(args@),
            risk@,
            urls::ov(previous_id),
            created_at@,
        ),
{
    let id = match previous_id {
        Some(id) => id,
        None => text::concat("community:", package.id.as_str()),
    };
    let plugin = package.kind == TaskKind::Plugin;
    Task {
        id,
        nickname: text::copy_string(&package.name),
        command,
        kind: package.kind,
        args,
        cwd: Some(text::string_from(package_dir)),
        trigger: Trigger::Manual,
        display: DisplayForm::Card,
        lifecycle: if plugin {
            Lifecycle::Resident
        } else {
            package.lifecycle
        },
        active: false,
        enabled: false,
        timeout_secs: if plugin {
            0
        } else {
            60
        },
        push_channel: None,
        on_dashboard: false,
        order: 0,
        col_span: 1,
        row_span: 1,
        output_dir: None,
        stdin: None,
        community: Some(
            CommunityTaskSource {
                package_id: text::copy_string(&package.id),
                version: text::copy_string(&package.version),
                registry_url: text::string_from(registry_url),
                package_dir: text::string_from(package_dir),
                sha256: text::copy_string(&package.sha256),
                author: text::copy_string(&package.author),
                runtime: package.runtime,
                risk,
            },
        ),
        created_at: text::string_from(created_at),
    }
}

/// The first task installed from the package with this id.
pub open spec fn installed_index(tasks: Seq<Task>, package_id: Seq<char>) -> Option<int>
    decreases tasks.len(),
{
    if tasks.len() == 0 {
        None
    } else if tasks[0].community matches Some(c) && c.package_id@ == package_id {
        Some(0)
    } else {
        match installed_index(tasks.drop_first(), package_id) {
            Some(k) => Some(k + 1),
            None => None,
        }
    }
}

proof fn lemma_installed_index_bound(tasks: Seq<Task>, package_id: Seq<char>)
    ensures
        installed_index(tasks, package_id) matches Some(k) ==> 0 <= k < tasks.len() && tasks[k].community is Some,
    decreases tasks.len(),
{
    if tasks.len() > 0 {
        lemma_installed_index_bound(tasks.drop_first(), package_id);
        match installed_index(tasks, package_id) {
            Some(k) => {
                if k > 0 {
                    assert(tasks[k] == tasks.drop_first()[k - 1]);
                }
            },
            None => {},
        }
    }
}

pub fn find_installed(tasks: &Vec<Task>, package_id: &str) -> (res: Option<usize>)
    ensures
        match res {
            Some(i) => installed_index(tasks@, package_id@) == Some(i as int) && i < tasks@.len(),
            None => installed_index(tasks@, package_id@).is_none(),
        },
{
    proof {
        lemma_installed_index_bound(tasks@, package_id@);
    }
    let mut i: usize = 0;
    assert(tasks@.skip(0) =~= tasks@);
    while i < tasks.len()
        invariant
            i <= tasks.len(),
            installed_index(tasks@, package_id@) == (match installed_index(
                tasks@.skip(i as int),
                package_id@,
            ) {
                Some(k) => Some(k + i),
                None => None::<int>,
            }),
        decreases tasks.len() - i,
    {
        proof {
            let t = tasks@.skip(i as int);
            assert(t[0] == tasks@[i as int]);
            assert(t.drop_first() =~= tasks@.skip(i + 1));
        }
        match &tasks[i].community {
            Some(c) => {
                if text::str_eq(c.package_id.as_str(), package_id) {
                    return Some(i);
                }
            },
            None => {},
        }
        i += 1;
    }
    None
}

// ---------------------------------------------------------------------------
// Package archives
// ---------------------------------------------------------------------------

/// What the archive reports of one entry.
#[derive(Debug, Clone)]
pub struct ArchiveEntry {
    pub unix_mode: Option<u32>,
    pub size: u64,
    /// The entry's path if it stays inside the extraction directory.
    pub enclosed_name: Option<String>,
    pub is_dir: bool,
}

/// An entry as plain values: (unix mode, size, enclosed name, is a directory).
pub type EntryView = (Option<u32>, u64, Option<Seq<char>>, bool);

pub open spec fn entry_view(e: ArchiveEntry) -> EntryView {
    (e.unix_mode, e.size, urls::ov(e.enclosed_name), e.is_dir)
}

pub open spec fn entries_view(es: Seq<ArchiveEntry>) -> Seq<EntryView> {
    es.map_values(|e: ArchiveEntry| entry_view(e))
}

pub open spec fn is_symlink(mode: Option<u32>) -> bool {
    match mode {
        Some(m) => (m as int) % 65536 / 4096 == 10,
        None => false,
    }
}

/// The key under which duplicate paths are detected: `\` as `/`, ASCII
/// lower case.
pub open spec fn path_key(path: Seq<char>) -> Seq<char> {
    text::ascii_lower(path.map_values(|c: char| if c == '\\' { '/' } else { c }))
}

pub open spec fn sat_add(a: u64, b: u64) -> u64 {
    if a + b > u64::MAX {
        u64::MAX
    } else {
        (a + b) as u64
    }
}

/// The verdict on the first `n` entries, with the running total of sizes
/// and the path keys seen.
pub open spec fn archive_scan(es: Seq<EntryView>, n: int) -> Result<(u64, Seq<Seq<char>>), Seq<char>>
    decreases n,
{
    if n <= 0 {
        Ok((0u64, Seq::empty()))
    } else {
        match archive_scan(es, n - 1) {
            Err(e) => Err(e),
            Ok((total, keys)) => {
                let e = es[n - 1];
                if is_symlink(e.0) {
                    Err("社区包不能包含符号链接"@)
                } else if sat_add(total, e.1) > MAX_UNPACKED_BYTES {
                    Err("解包后内容超过 128 MB 限制"@)
                } else {
                    match e.2 {
                        None => Err("社区包包含越界路径"@),
                        Some(name) => if keys.contains(path_key(name)) {
                            Err("社区包包含重复路径"@)
                        } else {
                            Ok((sat_add(total, e.1), keys.push(path_key(name))))
                        },
                    }
                }
            },
        }
    }
}

pub open spec fn archive_check(es: Seq<EntryView>) -> Result<(), Seq<char>> {
    if es.len() > MAX_FILES {
        Err("包内文件超过 512 个限制"@)
    } else {
        match archive_scan(es, es.len() as int) {
            Err(e) => Err(e),
            Ok(_) => Ok(()),
        }
    }
}

fn path_key_exec(path: &str) -> (res: Vec<char>)
    ensures
        res@ == path_key(path@),
{
    let v = text::chars_of(path);
    let mut out: Vec<char> = Vec::new();
    let mut i: usize = 0;
    while i < v.len()
        invariant
            i <= v.len(),
            out@ == v@.take(i as int).map_values(|c: char| if c == '\\' { '/' } else { c }),
        decreases v.len() - i,
    {
        let c = v[i];
        out.push(if c == '\\' { '/' } else { c });
        assert(v@.take(i + 1) =~= v@.take(i as int).push(c));
        assert(out@ =~= v@.take(i + 1).map_values(|c: char| if c == '\\' { '/' } else { c }));
        i += 1;
    }
    assert(v@.take(v.len() as int) =~= v@);
    text::ascii_lowercase(&out)
}

fn contains_key(keys: &Vec<Vec<char>>, k: &Vec<char>) -> (res: bool)
    ensures
        res == text::char_views(keys@).contains(k@),
{
    let mut i: usize = 0;
    while i < keys.len()
        invariant
            i <= keys.len(),
            forall|j: int| 0 <= j < i ==> text::char_views(keys@)[j] != k@,
        decreases keys.len() - i,
    {
        if text::eq_chars(&keys[i], k) {
            assert(text::char_views(keys@)[i as int] == k@);
            return true;
        }
        i += 1;
    }
    false
}

proof fn lemma_archive_err_sticks(es: Seq<EntryView>, i: int, n: int, e: Seq<char>)
    requires
        0 <= i <= n,
        archive_scan(es, i) == Err::<(u64, Seq<Seq<char>>), Seq<char>>(e),
    ensures
        archive_scan(es, n) == Err::<(u64, Seq<Seq<char>>), Seq<char>>(e),
    decreases n - i,
{
    if i < n {
        lemma_archive_err_sticks(es, i + 1, n, e);
    }
}

/// The total unpacked size of the first `n` entries.
pub open spec fn size_sum(es: Seq<EntryView>, n: int) -> int
    decreases n,
{
    if n <= 0 {
        0
    } else {
        size_sum(es, n - 1) + es[n - 1].1
    }
}

proof fn lemma_scan_accepted(es: Seq<EntryView>, n: int)
    requires
        0 <= n <= es.len(),
        archive_scan(es, n) is Ok,
    ensures
        archive_scan(es, n)->Ok_0.0 == size_sum(es, n),
        size_sum(es, n) <= MAX_UNPACKED_BYTES,
        archive_scan(es, n)->Ok_0.1.len() == n,
        forall|i: int|
            0 <= i < n ==> !is_symlink(#[trigger] es[i].0) && es[i].2 is Some && archive_scan(es, n)->Ok_0.1[i]
                == path_key(es[i].2->0),
        forall|i: int, j: int|
            0 <= i < j < n ==> path_key(#[trigger] es[i].2->0) != path_key(#[trigger] es[j].2->0),
    decreases n,
{
    if n > 0 {
        lemma_scan_accepted(es, n - 1);
        let keys = archive_scan(es, n - 1)->Ok_0.1;
        assert forall|i: int, j: int| 0 <= i < j < n implies path_key(#[trigger] es[i].2->0) != path_key(
            #[trigger] es[j].2->0,
        ) by {
            if j == n - 1 {
                assert(!is_symlink(es[i].0));
                assert(keys[i] == path_key(es[i].2->0));
                assert(keys.contains(keys[i]));
            }
        }
    }
}

/// What an accepted archive is: at most 512 entries, at most 128 MB
/// unpacked in all, no symbolic link, every entry's path inside the target
/// directory, and no path twice (ignoring case and separators).
pub proof fn lemma_accepted_archive(es: Seq<EntryView>)
    requires
        archive_check(es) is Ok,
    ensures
        es.len() <= MAX_FILES,
        size_sum(es, es.len() as int) <= MAX_UNPACKED_BYTES,
        forall|i: int| 0 <= i < es.len() ==> !is_symlink(#[trigger] es[i].0) && es[i].2 is Some,
        forall|i: int, j: int|
            0 <= i < j < es.len() ==> path_key(#[trigger] es[i].2->0) != path_key(#[trigger] es[j].2->0),
{
    lemma_scan_accepted(es, es.len() as int);
}

/// Checks a package archive's entries before anything is extracted: at most
/// 512 entries, no symbolic links, at most 128 MB in all, every path inside
/// the target directory and no path twice (ignoring case and separators).
pub fn check_archive(entries: &Vec<ArchiveEntry>) -> (res: Result<(), String>)
    ensures
        unit_view(res) == archive_check(entries_view(entries@)),
{
    let ghost ev = entries_view(entries@);
    if entries.len() > MAX_FILES {
        return Err(text::string_from("包内文件超过 512 个限制"));
    }
    let mut total: u64 = 0;
    let mut keys: Vec<Vec<char>> = Vec::new();
    let mut i: usize = 0;
    assert(text::char_views(keys@) =~= Seq::<Seq<char>>::empty());
    while i < entries.len()
        invariant
            i <= entries.len(),
            entries.len() <= MAX_FILES,
            ev == entries_view(entries@),
            archive_scan(ev, i as int) == Ok::<(u64, Seq<Seq<char>>), Seq<char>>(
                (total, text::char_views(keys@)),
            ),
        decreases entries.len() - i,
    {
        let e = &entries[i];
        assert(ev[i as int] == entry_view(*e));
        let symlink = match e.unix_mode {
            Some(m) => m % 65536 / 4096 == 10,
            None => false,
        };
        if symlink {
            let err = text::string_from("社区包不能包含符号链接");
            proof {
                lemma_archive_err_sticks(ev, i + 1, entries.len() as int, err@);
            }
            return Err(err);
        }
        let next = if total > u64::MAX - e.size {
            u64::MAX
        } else {
            total + e.size
        };
        if next > MAX_UNPACKED_BYTES {
            let err = text::string_from("解包后内容超过 128 MB 限制");
            proof {
                lemma_archive_err_sticks(ev, i + 1, entries.len() as int, err@);
            }
            return Err(err);
        }
        let key = match &e.enclosed_name {
            Some(name) => path_key_exec(name.as_str()),
            None => {
                let err = text::string_from("社区包包含越界路径");
                proof {
                    lemma_archive_err_sticks(ev, i + 1, entries.len() as int, err@);
                }
                return Err(err);
            },
        };
        if contains_key(&keys, &key) {
            let err = text::string_from("社区包包含重复路径");
            proof {
                lemma_archive_err_sticks(ev, i + 1, entries.len() as int, err@);
            }
            return Err(err);
        }
        let ghost before = keys@;
        keys.push(key);
        assert(text::char_views(keys@) =~= text::char_views(before).push(
            path_key(e.enclosed_name->Some_0@),
        ));
        total = next;
        i += 1;
    }
    Ok(())
}
// ---------------------------------------------------------------------------
// Reading a package archive
// ---------------------------------------------------------------------------

/// The number of entries `zip::ZipArchive` reports for some bytes: `None`
/// where they do not open as a ZIP archive.
pub uninterp spec fn zip_len_spec(bytes: Seq<u8>) -> Option<nat>;

/// What `zip::ZipArchive` reports of every entry, by index: `None` where the
/// bytes do not open as a ZIP archive or an entry cannot be read.
pub uninterp spec fn zip_entries_spec(bytes: Seq<u8>) -> Option<Seq<EntryView>>;

/// Calls `zip::ZipArchive::new` on the bytes and `len` on the archive.
/// Claimed: the outcome depends on the bytes only.
#[verifier::external_body]
fn zip_len(bytes: &[u8]) -> (res: Option<usize>)
    ensures
        match res {
            Some(n) => zip_len_spec(bytes@) == Some(n as nat),
            None => zip_len_spec(bytes@) is None,
        },
{
    zip::ZipArchive::new(std::io::Cursor::new(bytes)).ok().map(|archive| archive.len())
}

/// Calls `zip::ZipArchive::new` on the bytes, then `by_index` for every
/// entry, and hands out each entry's `unix_mode`, `size`, `enclosed_name`
/// (as text) and `is_dir`. Claimed: the outcome depends on the bytes only.
#[verifier::external_body]
fn zip_entries(bytes: &[u8]) -> (res: Option<Vec<ArchiveEntry>>)
    ensures
        res is Some <==> zip_entries_spec(bytes@) is Some,
        res matches Some(v) ==> entries_view(v@) == zip_entries_spec(bytes@)->0,
{
    let mut archive = zip::ZipArchive::new(std::io::Cursor::new(bytes)).ok()?;
    (0..archive.len())
        .map(|i| {
            archive.by_index(i).ok().map(|f| ArchiveEntry {
                unix_mode: f.unix_mode(),
                size: f.size(),
                enclosed_name: f.enclosed_name().map(|p| p.to_string_lossy().into_owned()),
                is_dir: f.is_dir(),
            })
        })
        .collect()
}

pub open spec fn invalid_zip_error() -> Seq<char> {
    "包不是有效的 ZIP"@
}

/// The verdict on a downloaded package archive: it must open as a ZIP with
/// at most 512 entries (counted before any entry is read), and its entries
/// must pass `archive_check`; then they are what is extracted.
pub open spec fn inspect_archive_spec(bytes: Seq<u8>) -> Result<Seq<EntryView>, Seq<char>> {
    match zip_len_spec(bytes) {
        None => Err(invalid_zip_error()),
        Some(n) => if n > MAX_FILES {
            Err("包内文件超过 512 个限制"@)
        } else {
            match zip_entries_spec(bytes) {
                None => Err(invalid_zip_error()),
                Some(es) => match archive_check(es) {
                    Err(e) => Err(e),
                    Ok(()) => Ok(es),
                },
            }
        },
    }
}

/// Reads and checks a package archive's entries before anything is
/// extracted.
pub fn inspect_archive(bytes: &[u8]) -> (res: Result<Vec<ArchiveEntry>, String>)
    ensures
        match res {
            Ok(v) => inspect_archive_spec(bytes@) == Ok::<Seq<EntryView>, Seq<char>>(entries_view(v@)),
            Err(e) => inspect_archive_spec(bytes@) == Err::<Seq<EntryView>, Seq<char>>(e@),
        },
{
    let n = match zip_len(bytes) {
        Some(n) => n,
        None => return Err(text::string_from("包不是有效的 ZIP")),
    };
    if n > MAX_FILES {
        return Err(text::string_from("包内文件超过 512 个限制"));
    }
    let entries = match zip_entries(bytes) {
        Some(v) => v,
        None => return Err(text::string_from("包不是有效的 ZIP")),
    };
    match check_archive(&entries) {
        Ok(()) => Ok(entries),
        Err(e) => Err(e),
    }
}

// ---------------------------------------------------------------------------
// The catalog
// ---------------------------------------------------------------------------

/// A package offered by a configured source, with what is installed of it.
#[derive(Debug, Clone)]
pub struct CommunityCatalogItem {
    pub package: RegistryPackage,
    pub source_url: String,
    pub installed_version: Option<String>,
    pub installed_task_id: Option<String>,
}

/// A source that could not be read, with the reason.
#[derive(Debug, Clone)]
pub struct CommunitySourceError {
    pub source_url: String,
    pub message: String,
}

#[derive(Debug, Clone)]
pub struct CommunityCatalog {
    pub items: Vec<CommunityCatalogItem>,
    pub errors: Vec<CommunitySourceError>,
}

pub struct CatalogEntryView {
    pub package: RegistryPackage,
    pub source_url: Seq<char>,
    pub installed_version: Option<Seq<char>>,
    pub installed_task_id: Option<Seq<char>>,
}

pub open spec fn item_view(i: CommunityCatalogItem) -> CatalogEntryView {
    CatalogEntryView {
        package: i.package,
        source_url: i.source_url@,
        installed_version: urls::ov(i.installed_version),
        installed_task_id: urls::ov(i.installed_task_id),
    }
}

/// A registry entry as the catalog lists it: with the version and task of
/// the installed package of the same id, if there is one.
pub open spec fn catalog_entry(p: RegistryPackage, source_url: Seq<char>, tasks: Seq<Task>) -> CatalogEntryView {
    match installed_index(tasks, p.id@) {
        Some(k) => CatalogEntryView {
            package: p,
            source_url,
            installed_version: Some(tasks[k].community->Some_0.version@),
            installed_task_id: Some(tasks[k].id@),
        },
        None => CatalogEntryView { package: p, source_url, installed_version: None, installed_task_id: None },
    }
}

pub open spec fn source_entries(source_url: Seq<char>, packages: Seq<RegistryPackage>, tasks: Seq<Task>) -> Seq<CatalogEntryView>
    decreases packages.len(),
{
    if packages.len() == 0 {
        Seq::empty()
    } else {
        source_entries(source_url, packages.drop_last(), tasks).push(
            catalog_entry(packages.last(), source_url, tasks),
        )
    }
}

/// One source as it was fetched: its configured URL and either the source's
/// URL with its checked registry, or why it could not be read.
pub type Fetched = (String, Result<(UrlParts, RegistryDocument), String>);

/// The entries of all readable sources, source by source.
pub open spec fn catalog_entries(fetched: Seq<Fetched>, tasks: Seq<Task>) -> Seq<CatalogEntryView>
    decreases fetched.len(),
{
    if fetched.len() == 0 {
        Seq::empty()
    } else {
        catalog_entries(fetched.drop_last(), tasks) + match fetched.last().1 {
            Ok((u, doc)) => source_entries(u.serialized@, doc.packages@, tasks),
            Err(_) => Seq::empty(),
        }
    }
}

/// The sources that could not be read, with their reasons.
pub open spec fn catalog_errors(fetched: Seq<Fetched>) -> Seq<(Seq<char>, Seq<char>)>
    decreases fetched.len(),
{
    if fetched.len() == 0 {
        Seq::empty()
    } else {
        let init = catalog_errors(fetched.drop_last());
        match fetched.last().1 {
            Ok(_) => init,
            Err(m) => init.push((fetched.last().0@, m@)),
        }
    }
}

/// The catalog is listed by name, ignoring case, in a stable order.
pub open spec fn name_key(e: CatalogEntryView) -> Seq<char> {
    text::unicode_lowercase(e.package.name@)
}

pub open spec fn catalog_keys(entries: Seq<CatalogEntryView>) -> Seq<Seq<char>> {
    entries.map_values(|e: CatalogEntryView| name_key(e))
}

fn catalog_item(package: RegistryPackage, source_url: &String, tasks: &Vec<Task>) -> (res: CommunityCatalogItem)
    ensures
        item_view(res) == catalog_entry(package, source_url@, tasks@),
{
    proof {
        lemma_installed_index_bound(tasks@, package.id@);
    }
    match find_installed(tasks, package.id.as_str()) {
        Some(k) => {
            let (version, task_id) = match &tasks[k].community {
                Some(c) => (Some(text::copy_string(&c.version)), Some(text::copy_string(&tasks[k].id))),
                None => (None, None),
            };
            CommunityCatalogItem {
                package,
                source_url: text::copy_string(source_url),
                installed_version: version,
                installed_task_id: task_id,
            }
        },
        None => CommunityCatalogItem {
            package,
            source_url: text::copy_string(source_url),
            installed_version: None,
            installed_task_id: None,
        },
    }
}

/// The plugin centre's catalog: every package of every readable source,
/// sorted by name ignoring case (stably, so equal names keep their source
/// order), each with what is installed of it, and the sources that failed.
pub fn build_catalog(fetched: Vec<Fetched>, tasks: &Vec<Task>) -> (res: CommunityCatalog)
    ensures
        res.errors@.map_values(|e: CommunitySourceError| (e.source_url@, e.message@)) == catalog_errors(fetched@),
        ({
            let entries = catalog_entries(fetched@, tasks@);
            exists|order: Seq<usize>|
                #[trigger] order::stably_sorted(catalog_keys(entries), order)
                    && res.items@.len() == entries.len() && forall|i: int|
                    0 <= i < res.items@.len() ==> item_view(#[trigger] res.items@[i]) == entries[order[i] as int]
        }),
{
    let ghost orig = fetched@;
    let mut rest = fetched;
    let mut items: Vec<CommunityCatalogItem> = Vec::new();
    let mut keys: Vec<Vec<char>> = Vec::new();
    let mut errors: Vec<CommunitySourceError> = Vec::new();
    let mut i: usize = 0;
    assert(orig.skip(0) =~= orig);
    assert(orig.len() == rest.len());
    assert(orig.take(0) =~= Seq::<Fetched>::empty());
    while rest.len() > 0
        invariant
            i + rest@.len() == orig.len(),
            orig.len() <= usize::MAX,
            rest@ == orig.skip(i as int),
            items@.map_values(|it: CommunityCatalogItem| item_view(it)) == catalog_entries(orig.take(i as int), tasks@),
            keys@.len() == items@.len(),
            forall|k: int| 0 <= k < keys@.len() ==> #[trigger] keys@[k]@ == name_key(item_view(items@[k])),
            errors@.map_values(|e: CommunitySourceError| (e.source_url@, e.message@)) == catalog_errors(orig.take(i as int)),
        decreases rest.len(),
    {
        let (source_url, outcome) = rest.remove(0);
        proof {
            assert((source_url, outcome) == orig[i as int]);
            assert(rest@ =~= orig.skip(i + 1));
            assert(orig.take(i + 1).drop_last() =~= orig.take(i as int));
            assert(orig.take(i + 1).last() == orig[i as int]);
        }
        match outcome {
            Ok((source, document)) => {
                let ghost pkgs = document.packages@;
                let ghost base = items@.map_values(|it: CommunityCatalogItem| item_view(it));
                let url = text::copy_string(&source.serialized);
                let mut ps = document.packages;
                let mut j: usize = 0;
                assert(pkgs.skip(0) =~= pkgs);
                assert(pkgs.take(0) =~= Seq::<RegistryPackage>::empty());
                assert(pkgs.len() == ps.len());
                while ps.len() > 0
                    invariant
                        j + ps@.len() == pkgs.len(),
                        pkgs.len() <= usize::MAX,
                        ps@ == pkgs.skip(j as int),
                        url@ == source.serialized@,
                        items@.map_values(|it: CommunityCatalogItem| item_view(it)) == base + source_entries(
                            url@,
                            pkgs.take(j as int),
                            tasks@,
                        ),
                        keys@.len() == items@.len(),
                        forall|k: int| 0 <= k < keys@.len() ==> #[trigger] keys@[k]@ == name_key(item_view(items@[k])),
                    decreases ps.len(),
                {
                    let p = ps.remove(0);
                    proof {
                        assert(p == pkgs[j as int]);
                        assert(ps@ =~= pkgs.skip(j + 1));
                        assert(pkgs.take(j + 1).drop_last() =~= pkgs.take(j as int));
                        assert(pkgs.take(j + 1).last() == pkgs[j as int]);
                    }
                    let key = text::chars_of(text::to_lowercase(p.name.as_str()).as_str());
                    let item = catalog_item(p, &url, tasks);
                    let ghost before = items@;
                    items.push(item);
                    keys.push(key);
                    assert(items@.map_values(|it: CommunityCatalogItem| item_view(it)) =~= before.map_values(
                        |it: CommunityCatalogItem| item_view(it),
                    ).push(item_view(item)));
                    j += 1;
                }
                assert(pkgs.take(pkgs.len() as int) =~= pkgs);
            },
            Err(message) => {
                let ghost before = errors@;
                errors.push(CommunitySourceError { source_url, message });
                assert(errors@.map_values(|e: CommunitySourceError| (e.source_url@, e.message@)) =~= before.map_values(
                    |e: CommunitySourceError| (e.source_url@, e.message@),
                ).push((orig[i as int].0@, orig[i as int].1->Err_0@)));
            },
        }
        i += 1;
    }
    assert(orig.take(orig.len() as int) =~= orig);
    let ghost entries = catalog_entries(orig, tasks@);
    let ghost views_before = items@;
    let order = order::stable_order(&keys);
    proof {
        assert(keys@.map_values(|k: Vec<char>| k@) =~= catalog_keys(entries));
    }
    let sorted = order::permute(items, &order);
    proof {
        assert(order::stably_sorted(catalog_keys(entries), order@));
        assert forall|k: int| 0 <= k < sorted@.len() implies item_view(#[trigger] sorted@[k]) == entries[order@[k] as int] by {
            assert(views_before.map_values(|it: CommunityCatalogItem| item_view(it))[order@[k] as int] == item_view(views_before[order@[k] as int]));
        }
    }
    CommunityCatalog { items: sorted, errors }
}

// ---------------------------------------------------------------------------
// Installing and uninstalling
// ---------------------------------------------------------------------------

/// The task of an installed package, for uninstalling it.
pub fn installed_task(tasks: &Vec<Task>, package_id: &str) -> (res: Result<usize, String>)
    ensures
        match installed_index(tasks@, package_id@) {
            Some(k) => res == Ok::<usize, String>(k as usize),
            None => res matches Err(e) && e@ == "这个社区包尚未安装"@,
        },
        res matches Ok(k) ==> k < tasks@.len() && tasks@[k as int].community is Some,
{
    proof {
        lemma_installed_index_bound(tasks@, package_id@);
    }
    match find_installed(tasks, package_id) {
        Some(k) => Ok(k),
        None => Err(text::string_from("这个社区包尚未安装")),
    }
}

/// The notification an installation leaves: the package stays switched off
/// until its permissions have been read.
pub fn installed_notice(name: &str, task_id: &str, id: String, at: String) -> (n: crate::model::Notification)
    ensures
        crate::runner::notice(
            n,
            id@,
            "info"@,
            name@ + " 已安装"@,
            Some("第三方代码保持未启用；请阅读权限说明后再启用。"@),
            at@,
            Some(task_id@),
        ),
{
    crate::runner::make_notice(
        id,
        "info",
        text::concat(name, " 已安装"),
        Some(text::string_from("第三方代码保持未启用；请阅读权限说明后再启用。")),
        at,
        Some(text::string_from(task_id)),
    )
}

} // verus!
