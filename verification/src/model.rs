//! The persistent data model: tasks and their triggers, execution records,
//! notifications, delivery channels and the community registry documents.
//! Serialisation lives outside the library; these are the plain values the
//! engine reasons about.
use vstd::prelude::*;

use crate::text;

verus! {

pub type Id = String;

#[derive(Debug, Clone)]
pub struct Task {
    pub id: Id,
    pub nickname: String,
    pub command: String,
    pub kind: TaskKind,
    pub args: Vec<String>,
    pub cwd: Option<String>,
    pub trigger: Trigger,
    pub display: DisplayForm,
    pub lifecycle: Lifecycle,
    /// Whether the item is enabled in the user's working library.
    pub active: bool,
    /// Runtime switch: scheduling for scripts, the live process for plugins.
    pub enabled: bool,
    pub timeout_secs: u64,
    /// Channel that receives the task's summary after a successful run.
    pub push_channel: Option<String>,
    pub on_dashboard: bool,
    /// Sort position on the dashboard (lower = earlier).
    pub order: i32,
    pub col_span: u8,
    pub row_span: u8,
    /// Directory whose newest files are the task's products.
    pub output_dir: Option<String>,
    /// Canned answers fed to the script's standard input.
    pub stdin: Option<String>,
    /// Provenance of tasks installed from a community registry.
    pub community: Option<CommunityTaskSource>,
    pub created_at: String,
}

pub fn default_display() -> (res: DisplayForm)
    ensures
        res == DisplayForm::Card,
{
    DisplayForm::Card
}

pub fn default_lifecycle() -> (res: Lifecycle)
    ensures
        res == Lifecycle::Ephemeral,
{
    Lifecycle::Ephemeral
}

pub fn default_timeout() -> (res: u64)
    ensures
        res == 60,
{
    60
}

pub fn default_true() -> (res: bool)
    ensures
        res,
{
    true
}

pub fn default_one() -> (res: u8)
    ensures
        res == 1,
{
    1
}

#[derive(Debug, Clone)]
pub enum Trigger {
    Manual,
    Interval { every_secs: u64 },
    Daily { at: String },
    /// Weekdays to run on, 0 = Sunday .. 6 = Saturday.
    Weekly { days: Vec<u8>, at: String },
    /// Day of month 1..31, clamped to the month's length.
    Monthly { day: u8, at: String },
    Watch { path: String, pattern: String, recursive: bool },
}

/// The default watch pattern.
pub fn star() -> (res: String)
    ensures
        res@ == "*"@,
{
    text::string_from("*")
}

#[derive(Debug, Clone, Copy, PartialEq, Eq, Structural)]
pub enum DisplayForm {
    Strip,
    Card,
    Metric,
}

#[derive(Debug, Clone, Copy, PartialEq, Eq, Structural)]
pub enum Lifecycle {
    Ephemeral,
    Resident,
}

#[derive(Debug, Clone, Copy, PartialEq, Eq, Structural)]
pub enum TaskKind {
    Script,
    Plugin,
}

#[derive(Debug, Clone)]
pub struct Permissions {
    pub read_paths: Vec<String>,
    pub write_paths: Vec<String>,
    pub allow_hosts: Vec<String>,
    pub channels: Vec<String>,
}

#[derive(Debug, Clone)]
pub struct CommunityTaskSource {
    pub package_id: String,
    pub version: String,
    pub registry_url: String,
    pub package_dir: String,
    pub sha256: String,
    pub author: String,
    pub runtime: PackageRuntime,
    pub risk: String,
}

#[derive(Debug, Clone, Copy, PartialEq, Eq, Structural)]
pub enum PackageRuntime {
    Node,
    Python,
    PowerShell,
    Executable,
}

#[derive(Debug, Clone)]
pub struct RegistryPackage {
    pub id: String,
    pub name: String,
    pub version: String,
    pub summary: String,
    pub description: String,
    pub author: String,
    pub license: String,
    pub repository: String,
    pub homepage: String,
    pub tags: Vec<String>,
    pub kind: TaskKind,
    pub runtime: PackageRuntime,
    pub entry: String,
    pub args: Vec<String>,
    pub lifecycle: Lifecycle,
    pub permissions: Permissions,
    pub package_url: String,
    pub sha256: String,
}

#[derive(Debug, Clone)]
pub struct RegistryDocument {
    pub schema_version: u32,
    pub name: String,
    pub packages: Vec<RegistryPackage>,
}

#[derive(Debug, Clone)]
pub struct CommunityConfig {
    pub sources: Vec<String>,
}

/// The registry that fresh installs start with.
pub const OFFICIAL_COMMUNITY_SOURCE: &'static str =
    "https://raw.githubusercontent.com/Quill-00/mosaic-desktop-automation/main/community/registry.json";

pub fn official_community_source() -> (res: String)
    ensures
        res@ == OFFICIAL_COMMUNITY_SOURCE@,
{
    text::string_from(OFFICIAL_COMMUNITY_SOURCE)
}

#[derive(Debug, Clone)]
pub struct Summary {
    pub headline: String,
    pub count: Option<i64>,
    pub note: Option<String>,
}

#[derive(Debug, Clone)]
pub struct DetailItem {
    pub id: Option<String>,
    pub title: String,
    pub subtitle: Option<String>,
    pub at: Option<String>,
    /// "image" / "file" / source-defined; drives how the detail view renders it.
    pub kind: Option<String>,
    /// Absolute file path for file products.
    pub path: Option<String>,
}

/// A JSON document as the engine sees it. Numbers keep their textual form.
#[derive(Debug)]
pub enum Json {
    Null,
    Bool(bool),
    Number(String),
    Str(String),
    Array(Vec<Json>),
    Object(Vec<(String, Json)>),
}

#[derive(Debug)]
pub struct TaskOutput {
    pub summary: Option<Summary>,
    pub card: Option<Json>,
    pub items: Vec<DetailItem>,
    /// Checkpoint the script reports; fed back next run.
    pub cursor: Option<String>,
}

#[derive(Debug)]
pub struct TaskResultState {
    pub summary: Option<Summary>,
    pub card: Option<Json>,
    pub timeline: Vec<DetailItem>,
    pub updated_at: Option<String>,
    /// Last checkpoint the script reported.
    pub cursor: Option<String>,
}

#[derive(Debug, Clone, Copy, PartialEq, Eq, Structural)]
pub enum ExecStatus {
    Running,
    Success,
    Failed,
    TimedOut,
    Killed,
}

#[derive(Debug, Clone)]
pub struct Execution {
    pub id: Id,
    pub task_id: Id,
    pub nickname: String,
    pub started_at: String,
    pub finished_at: Option<String>,
    pub status: ExecStatus,
    pub exit_code: Option<i32>,
    pub trigger: String,
    pub error: Option<String>,
    pub item_count: usize,
    /// Products of this specific run.
    pub items: Vec<DetailItem>,
}

#[derive(Debug, Clone)]
pub struct Notification {
    pub id: Id,
    pub level: String,
    pub title: String,
    pub body: Option<String>,
    pub at: String,
    pub read: bool,
    pub task_id: Option<Id>,
}

#[derive(Debug, Clone, Copy, PartialEq, Eq, Structural)]
pub enum ProviderKind {
    Codex,
    OpenaiCompatible,
}

impl ProviderKind {
    pub fn default_kind() -> (res: ProviderKind)
        ensures
            res == ProviderKind::OpenaiCompatible,
    {
        ProviderKind::OpenaiCompatible
    }
}

#[derive(Debug, Clone, Copy, PartialEq, Eq, Structural)]
pub enum AuthMode {
    ApiKey,
    DeviceCode,
}

impl AuthMode {
    pub fn default_mode() -> (res: AuthMode)
        ensures
            res == AuthMode::ApiKey,
    {
        AuthMode::ApiKey
    }
}

/// The default OAuth scope of a provider.
pub fn openid_scope() -> (res: String)
    ensures
        res@ == "openid profile"@,
{
    text::string_from("openid profile")
}

/// An LLM provider; its secrets live only in the credential vault.
#[derive(Debug, Clone)]
pub struct AiProvider {
    pub id: Id,
    pub display_name: String,
    pub kind: ProviderKind,
    pub base_url: String,
    pub model: String,
    pub auth_mode: AuthMode,
    pub device_auth_url: String,
    pub token_url: String,
    pub client_id: String,
    pub scope: String,
}

/// The name Mosaic advertises to PoPo peers by default.
pub fn default_alias() -> (res: String)
    ensures
        res@ == "Mosaic"@,
{
    text::string_from("Mosaic")
}

/// A PoPo peer found on the local network.
#[derive(Debug, Clone)]
pub struct PopoPeer {
    pub ip: String,
    pub port: u16,
    pub alias: String,
    pub fingerprint: String,
}

#[derive(Debug, Clone)]
pub struct PopoConfig {
    pub enabled: bool,
    pub alias: String,
    /// Stable per-install identifier advertised to peers.
    pub fingerprint: String,
    /// The chosen PoPo device to send to.
    pub target: Option<PopoPeer>,
}

impl PopoConfig {
    pub fn default_config() -> (res: PopoConfig)
        ensures
            !res.enabled,
            res.alias@ == "Mosaic"@,
            res.fingerprint@.len() == 0,
            res.target.is_none(),
    {
        PopoConfig {
            enabled: false,
            alias: default_alias(),
            fingerprint: String::new(),
            target: None,
        }
    }
}

#[derive(Debug, Clone, Copy, PartialEq, Eq, Structural)]
pub enum BotPlatform {
    Qq,
    Telegram,
    Discord,
    Slack,
    Feishu,
    DingTalk,
    WeCom,
}

#[derive(Debug, Clone, Copy, PartialEq, Eq, Structural)]
pub enum BotTargetKind {
    Group,
    C2c,
}

/// A platform robot channel. Secrets are never held here.
#[derive(Debug, Clone)]
pub struct BotChannel {
    pub id: Id,
    pub name: String,
    pub platform: BotPlatform,
    /// Public application id; the secret stays in the credential vault.
    pub app_id: String,
    pub enabled: bool,
    pub target_kind: BotTargetKind,
    pub target: String,
    pub created_at: String,
}

#[derive(Debug, Clone, Copy, PartialEq, Eq, Structural)]
pub enum WidgetEdge {
    Left,
    Right,
}

/// Everything that is persisted, except the window geometry preferences
/// (which carry floating-point coordinates and stay with the desktop shell).
#[derive(Debug)]
pub struct Db {
    pub tasks: Vec<Task>,
    pub executions: Vec<Execution>,
    pub results: Vec<(Id, TaskResultState)>,
    pub notifications: Vec<Notification>,
    pub providers: Vec<AiProvider>,
    pub active_provider: Option<Id>,
    pub popo: PopoConfig,
    pub bot_channels: Vec<BotChannel>,
    pub community: CommunityConfig,
    pub migrated_v1: bool,
    pub migrated_v2: bool,
    pub migrated_v3: bool,
    pub migrated_v4: bool,
    pub migrated_v5: bool,
    pub migrated_v6: bool,
    pub migrated_v7: bool,
}

} // verus!
