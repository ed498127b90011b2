//! The application's data records: configuration, catalog entries, session
//! state and the results control operations report.  String-keyed registries
//! are held as ordered pairs.

use vstd::prelude::*;

verus! {

#[derive(Debug, Clone)]
pub struct GlobalConfig {
    pub models_directory: String,
    pub additional_models_directories: Vec<String>,
    pub executable_folder: String,
    pub active_executable_folder: Option<String>,
    pub active_executable_version: Option<String>,
    pub theme_color: String,
    pub background_color: String,
    pub theme_is_synced: bool,
    pub openai_proxy_enabled: bool,
    pub openai_proxy_port: u16,
    pub network_server_host: String,
    pub network_server_port: u16,
    pub mcp_servers: Vec<McpServerConfig>,
}

#[derive(Debug, Clone, Copy, PartialEq, Eq, Structural)]
pub enum McpTransport {
    Stdio,
    Sse,
    Http,
    Json,
    StreamableHttp,
}

impl Default for McpTransport {
    fn default() -> (r: Self)
        ensures
            r == McpTransport::Sse,
    {
        McpTransport::Sse
    }
}

#[derive(Debug, Clone)]
pub struct McpToolInfo {
    pub name: String,
    pub description: Option<String>,
    /// Serialized JSON schema text.
    pub input_schema: Option<String>,
    pub output_schema: Option<String>,
}

#[derive(Debug, Clone)]
pub struct McpServerConfig {
    pub id: String,
    pub name: String,
    pub enabled: bool,
    pub transport: McpTransport,
    pub url: String,
    pub command: String,
    pub json_payload: String,
    pub args: Vec<String>,
    pub env_vars: Vec<(String, String)>,
    pub headers: Vec<(String, String)>,
    pub timeout_seconds: u64,
    pub last_test_at: Option<String>,
    pub last_test_status: Option<String>,
    pub last_test_message: Option<String>,
    pub tools: Vec<McpToolInfo>,
    pub tools_last_refresh_at: Option<String>,
    pub tools_last_status: Option<String>,
    pub tools_last_message: Option<String>,
    pub tools_last_error: Option<String>,
}

impl McpServerConfig {
    /// A fresh connection with nothing configured but its name.
    pub fn new_blank(name: String) -> (r: McpServerConfig)
        ensures
            r.id@ == Seq::<char>::empty(),
            r.name == name,
            r.enabled,
            r.transport == McpTransport::Sse,
            r.url@ == Seq::<char>::empty(),
            r.command@ == Seq::<char>::empty(),
            r.json_payload@ == Seq::<char>::empty(),
            r.args@.len() == 0,
            r.env_vars@.len() == 0,
            r.headers@.len() == 0,
            r.timeout_seconds == 10,
            r.last_test_at is None,
            r.last_test_status is None,
            r.last_test_message is None,
            r.tools@.len() == 0,
            r.tools_last_refresh_at is None,
            r.tools_last_status is None,
            r.tools_last_message is None,
            r.tools_last_error is None,
    {
        McpServerConfig {
            id: String::new(),
            name,
            enabled: true,
            transport: McpTransport::Sse,
            url: String::new(),
            command: String::new(),
            json_payload: String::new(),
            args: Vec::new(),
            env_vars: Vec::new(),
            headers: Vec::new(),
            timeout_seconds: 10,
            last_test_at: None,
            last_test_status: None,
            last_test_message: None,
            tools: Vec::new(),
            tools_last_refresh_at: None,
            tools_last_status: None,
            tools_last_message: None,
            tools_last_error: None,
        }
    }
}

#[derive(Debug, Clone)]
pub struct McpTestResult {
    pub success: bool,
    pub latency_ms: i64,
    pub message: String,
    pub status_code: Option<u16>,
    pub exit_code: Option<i32>,
    pub error: Option<String>,
}

#[derive(Debug, Clone)]
pub struct McpToolsResult {
    pub success: bool,
    pub latency_ms: i64,
    pub message: String,
    pub tool_count: usize,
    pub tools: Vec<McpToolInfo>,
    pub status_code: Option<u16>,
    pub error: Option<String>,
}

/// The accept header an MCP request sends: plain JSON for the JSON
/// transport, JSON or an event stream for the others.
pub fn mcp_accept_header(transport: &McpTransport) -> (r: &'static str)
    ensures
        *transport == McpTransport::Json ==> r@ == "application/json"@,
        *transport != McpTransport::Json ==> r@ == "application/json, text/event-stream"@,
{
    match transport {
        McpTransport::Json => "application/json",
        _ => "application/json, text/event-stream",
    }
}

pub fn default_background_color() -> (r: String)
    ensures
        r@ == "dark-gray"@,
{
    "dark-gray".to_owned()
}

pub fn default_theme_is_synced() -> (r: bool)
    ensures
        r,
{
    true
}

pub fn default_network_server_host() -> (r: String)
    ensures
        r@ == "127.0.0.1"@,
{
    "127.0.0.1".to_owned()
}

#[derive(Debug, Clone)]
pub struct ModelPreset {
    pub id: String,
    pub name: String,
    pub custom_args: String,
    pub is_default: bool,
    pub env_vars: Vec<(String, String)>,
}

#[derive(Debug, Clone)]
pub struct ModelConfig {
    pub custom_args: String,
    pub server_host: String,
    pub server_port: u16,
    pub model_path: String,
    pub presets: Vec<ModelPreset>,
    pub default_preset_id: Option<String>,
    pub env_vars: Vec<(String, String)>,
    pub hf_model_id: Option<String>,
    pub hf_link_source: Option<String>,
    pub local_file_modified: Option<i64>,
    pub file_size_bytes: Option<i64>,
    pub last_hf_check: Option<i64>,
    pub hf_file_modified: Option<i64>,
    pub hf_file_size: Option<i64>,
    pub update_available: bool,
    pub hf_metadata: Option<HfMetadata>,
}

impl ModelConfig {
    /// The settings a model starts with: loopback host, port 8080, no
    /// custom arguments, no catalog link.
    pub fn new(model_path: String) -> (r: ModelConfig)
        ensures
            r.custom_args@ == Seq::<char>::empty(),
            r.server_host@ == "127.0.0.1"@,
            r.server_port == 8080,
            r.model_path == model_path,
            r.presets@.len() == 0,
            r.default_preset_id is None,
            r.env_vars@.len() == 0,
            r.hf_model_id is None,
            r.hf_link_source is None,
            r.local_file_modified is None,
            r.file_size_bytes is None,
            r.last_hf_check is None,
            r.hf_file_modified is None,
            r.hf_file_size is None,
            !r.update_available,
            r.hf_metadata is None,
    {
        ModelConfig {
            custom_args: String::new(),
            server_host: "127.0.0.1".to_owned(),
            server_port: 8080,
            model_path,
            presets: Vec::new(),
            default_preset_id: None,
            env_vars: Vec::new(),
            hf_model_id: None,
            hf_link_source: None,
            local_file_modified: None,
            file_size_bytes: None,
            last_hf_check: None,
            hf_file_modified: None,
            hf_file_size: None,
            update_available: false,
            hf_metadata: None,
        }
    }
}

#[derive(Debug, Clone)]
pub struct GgufMetadata {
    pub architecture: String,
    pub name: String,
    pub quantization: Option<String>,
}

#[derive(Debug, Clone)]
pub struct HfMetadata {
    pub model_id: String,
    pub filename: String,
    pub commit_date: Option<String>,
    /// ISO 8601 text recorded when the link was created.
    pub linked_at: String,
}

#[derive(Debug, Clone)]
pub struct UpdateCheckResult {
    pub status: UpdateStatus,
    pub local_date: Option<String>,
    pub remote_date: Option<String>,
    pub message: String,
}

#[derive(Debug, Clone)]
pub enum UpdateStatus {
    UpToDate,
    UpdateAvailable,
    Unknown,
    NotLinked,
    Error(String),
}

#[derive(Debug, Clone)]
pub struct SessionState {
    pub windows: Vec<(String, WindowState)>,
    pub terminals: Vec<(String, TerminalState)>,
    pub desktop_state: DesktopState,
}

impl Default for SessionState {
    fn default() -> (r: Self)
        ensures
            r.windows@.len() == 0,
            r.terminals@.len() == 0,
    {
        SessionState { windows: Vec::new(), terminals: Vec::new(), desktop_state: DesktopState::default() }
    }
}

#[derive(Debug, Clone)]
pub struct WindowState {
    pub window_type: String,
    pub title: String,
    pub content: String,
    pub position: Position,
    pub size: Size,
    pub visible: bool,
    pub z_index: u32,
}

#[derive(Debug, Clone, Copy, PartialEq, Eq, Structural)]
pub struct Position {
    pub x: i32,
    pub y: i32,
}

#[derive(Debug, Clone, Copy, PartialEq, Eq, Structural)]
pub struct Size {
    pub width: u32,
    pub height: u32,
}

#[derive(Debug, Clone)]
pub struct TerminalState {
    pub process_id: String,
    pub model_name: String,
    pub model_path: String,
    pub host: String,
    pub port: u16,
    pub status: String,
    pub output: Vec<String>,
}

#[derive(Debug, Clone)]
pub struct DesktopState {
    pub icon_positions: Vec<(String, Position)>,
    pub sort_type: Option<String>,
    pub sort_direction: String,
    pub theme: String,
    pub background: String,
    pub theme_synced: bool,
}

impl Default for DesktopState {
    fn default() -> (r: Self)
        ensures
            r.icon_positions@.len() == 0,
            r.sort_type is None,
            r.sort_direction@ == "asc"@,
            r.theme@ == "dark-gray"@,
            r.background@ == "dark-gray"@,
            r.theme_synced,
    {
        DesktopState {
            icon_positions: Vec::new(),
            sort_type: None,
            sort_direction: "asc".to_owned(),
            theme: "dark-gray".to_owned(),
            background: "dark-gray".to_owned(),
            theme_synced: true,
        }
    }
}

#[derive(Debug, Clone)]
pub struct SearchResult {
    pub success: bool,
    pub models: Vec<ModelBasic>,
    pub total: usize,
}

#[derive(Debug, Clone)]
pub struct ModelBasic {
    pub id: String,
    pub name: String,
    pub author: String,
    pub downloads: u64,
    pub likes: u64,
    pub last_modified: Option<String>,
}

#[derive(Debug, Clone)]
pub struct ModelDetails {
    pub id: String,
    pub name: String,
    pub author: String,
    pub description: Option<String>,
    pub downloads: u64,
    pub likes: u64,
    pub total_files: u32,
    pub gguf_files: Vec<(String, GgufFileInfo)>,
}

#[derive(Debug, Clone)]
pub struct GgufFileInfo {
    pub filename: String,
    pub path: String,
    pub size: u64,
    pub quantization_type: Option<String>,
}

#[derive(Debug, Clone)]
pub struct DownloadStartResult {
    pub download_id: String,
    pub message: String,
}

#[derive(Debug, Clone)]
pub struct InitialScanResult {
    pub success: bool,
    pub models_processed: usize,
    pub models_linked: usize,
    pub errors: Vec<String>,
}

#[derive(Debug, Clone)]
pub struct HFLinkResult {
    pub success: bool,
    pub message: String,
    pub files: Vec<HFFileInfo>,
}

#[derive(Debug, Clone)]
pub struct HFFileInfo {
    pub filename: String,
    pub size: i64,
    pub last_modified: i64,
}

#[derive(Debug, Clone)]
pub struct TrackerStats {
    pub total_models: u32,
    pub chinese_models: u32,
    pub gguf_models: u32,
    pub categories: Vec<(String, u32)>,
}

} // verus!
