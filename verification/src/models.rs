//! Data model: container records, service categories, statuses, and
//! the flowchart/topology shapes, together with the category
//! classifier and the status parser.
//!
//! Case-insensitive checks fold ASCII letters only.

use vstd::prelude::*;

use crate::stats::ContainerStats;
use crate::strutil::{contains_seq_ci, contains_str_ci, eq_ci, prefix_ci, starts_with_ci, str_eq_ci};

verus! {

/// Container status, mirroring the runtime's states plus the two
/// health-derived ones.
#[derive(Clone, Copy, Debug, PartialEq, Eq, Structural)]
pub enum ContainerStatus {
    Running,
    Healthy,
    Unhealthy,
    Exited,
    Created,
    Paused,
    Restarting,
    Dead,
}

/// Service category: a pure function of the container name.
#[derive(Clone, Copy, Debug, PartialEq, Eq, Structural)]
pub enum ServiceCategory {
    Aiml,
    Application,
    Infrastructure,
    Frontend,
    Monitoring,
    Game,
    Val,
    Blockchain,
    Other,
}

/// Node kind in a flowchart.
#[derive(Clone, Copy, Debug, PartialEq, Eq, Structural)]
pub enum NodeType {
    Service,
    Group,
}

/// Kind of a connection between flowchart nodes.
#[derive(Clone, Copy, Debug, PartialEq, Eq, Structural)]
pub enum ConnectionType {
    Primary,
    Secondary,
    Data,
    Control,
    Network,
    Volume,
    Depends,
}

/// One port mapping of a container.
#[derive(Clone, Debug)]
pub struct PortMapping {
    /// Host port, absent for unpublished ports.
    pub host_port: Option<u16>,
    /// Port inside the container.
    pub container_port: u16,
    /// Lower-case protocol name, `"tcp"` by default.
    pub protocol: String,
}

/// Canonical container record, constructed fresh on every listing and
/// never mutated afterwards.
#[derive(Clone, Debug)]
pub struct ContainerInfo {
    /// 12-character stable prefix of the runtime-assigned id.
    pub id: String,
    /// First listed name with its leading slashes stripped; the
    /// 12-character id when the runtime lists no name.
    pub name: String,
    /// Image reference.
    pub image: String,
    /// Status derived from the status text and the raw state.
    pub status: ContainerStatus,
    /// `"healthy"`/`"unhealthy"` mirrored from the status text, else absent.
    pub health: Option<String>,
    /// Category classified from the name.
    pub category: ServiceCategory,
    /// Port mappings, in runtime order.
    pub ports: Vec<PortMapping>,
    /// Names of the attached networks, in runtime order.
    pub networks: Vec<String>,
    /// Creation time, in seconds since the Unix epoch.
    pub created: i64,
    /// Label key/value pairs, in runtime order.
    pub labels: Vec<(String, String)>,
    /// Advisory paired-variant name hint; not verified against inventory.
    pub rust_equivalent: Option<String>,
    /// Live resource sample, present only on a "with stats" listing.
    pub stats: Option<ContainerStats>,
    /// Image size in MB hundredths, present only when enriched.
    pub image_size_mb_hundredths: Option<u64>,
}

/// A node in a flowchart.
#[derive(Clone, Debug)]
pub struct FlowchartNode {
    pub id: String,
    pub name: String,
    pub description: String,
    pub status: ContainerStatus,
    pub node_type: NodeType,
    pub category: ServiceCategory,
    /// First published host port, when any.
    pub port: Option<u16>,
    /// Navigation pointer to a child view, when any.
    pub child_flowchart: Option<String>,
    /// Live resource sample, when enriched.
    pub stats: Option<ContainerStats>,
}

/// A directed connection between two flowchart nodes.
#[derive(Clone, Debug)]
pub struct FlowchartConnection {
    pub id: String,
    pub source: String,
    pub target: String,
    pub label: Option<String>,
    pub connection_type: ConnectionType,
}

/// A complete navigable flowchart.
#[derive(Clone, Debug)]
pub struct Flowchart {
    pub id: String,
    pub name: String,
    pub description: String,
    pub nodes: Vec<FlowchartNode>,
    pub connections: Vec<FlowchartConnection>,
    /// Navigation pointer to the parent view, when any.
    pub parent_id: Option<String>,
}

/// Summary of one navigable view in the topology overview.
#[derive(Clone, Debug)]
pub struct FlowchartSummary {
    pub id: String,
    pub name: String,
    pub node_count: usize,
    pub category: ServiceCategory,
}

/// Number of containers in one category, keyed by the category's
/// lower-case tag.
#[derive(Clone, Debug)]
pub struct CategoryCount {
    pub category: String,
    pub count: usize,
}

/// System topology overview, recomputed on every call.
#[derive(Clone, Debug)]
pub struct SystemTopology {
    pub total_containers: usize,
    pub running_containers: usize,
    pub healthy_containers: usize,
    pub unhealthy_containers: usize,
    /// Non-empty categories with their sizes, in the fixed category order.
    pub categories: Vec<CategoryCount>,
    pub flowcharts: Vec<FlowchartSummary>,
    /// Generation time, in seconds since the Unix epoch.
    pub generated_at: i64,
}

/// Network with its attached containers.
#[derive(Clone, Debug)]
pub struct NetworkInfo {
    pub id: String,
    pub name: String,
    pub driver: String,
    pub containers: Vec<String>,
}

/// One volume mount of a container.
#[derive(Clone, Debug)]
pub struct VolumeMount {
    pub source: String,
    pub destination: String,
    pub mode: String,
}

/// Health check configuration of a container.
#[derive(Clone, Debug)]
pub struct HealthCheckConfig {
    pub test: Vec<String>,
    pub interval_seconds: u64,
    pub timeout_seconds: u64,
    pub retries: u32,
    pub start_period_seconds: u64,
}

/// Log lines fetched for a container.
#[derive(Clone, Debug)]
pub struct ContainerLogs {
    pub container_id: String,
    pub container_name: String,
    pub logs: Vec<String>,
    pub tail: usize,
    pub since: Option<String>,
}

/// Detailed container information: the record plus its inspected
/// configuration.
#[derive(Clone, Debug)]
pub struct ContainerDetail {
    pub info: ContainerInfo,
    pub environment: Vec<String>,
    pub command: Option<String>,
    pub entrypoint: Option<Vec<String>>,
    pub working_dir: Option<String>,
    pub volumes: Vec<VolumeMount>,
    pub health_check: Option<HealthCheckConfig>,
}

/// Outcome of a lifecycle action, returned as a success envelope even
/// when the daemon rejects the command.
#[derive(Clone, Debug)]
pub struct ActionResult {
    pub success: bool,
    pub container_id: String,
    pub container_name: String,
    pub action: String,
    pub message: String,
}

/// Query parameters of a log request.
#[derive(Clone, Copy, Debug, PartialEq, Eq, Structural)]
pub struct LogsQuery {
    /// Number of log lines to fetch from the tail.
    pub tail: usize,
}

/// Default number of log lines fetched when a request names none.
pub fn default_tail() -> (r: usize)
    ensures
        r == 100,
{
    100
}

/// The classification rules, first match wins: a fixed list of
/// case-insensitive name prefixes, then the blockchain rule
/// (a validator-prefix token or `"chain"` anywhere in the name),
/// and `Other` as the default.
pub open spec fn spec_classify(name: Seq<char>) -> ServiceCategory {
    if prefix_ci(name, "aiml-"@) {
        ServiceCategory::Aiml
    } else if prefix_ci(name, "application-"@) {
        ServiceCategory::Application
    } else if prefix_ci(name, "infrastructure-"@) {
        ServiceCategory::Infrastructure
    } else if prefix_ci(name, "frontend-"@) {
        ServiceCategory::Frontend
    } else if prefix_ci(name, "monitoring-"@) {
        ServiceCategory::Monitoring
    } else if prefix_ci(name, "game-"@) {
        ServiceCategory::Game
    } else if prefix_ci(name, "val-"@) {
        ServiceCategory::Val
    } else if prefix_ci(name, "valina-validator"@) || contains_seq_ci(name, "chain"@) {
        ServiceCategory::Blockchain
    } else {
        ServiceCategory::Other
    }
}

/// The runtime state string mapped to a status; anything unrecognized
/// maps to `Exited`.
pub open spec fn spec_status_of_state(s: Seq<char>) -> ContainerStatus {
    if eq_ci(s, "running"@) {
        ContainerStatus::Running
    } else if eq_ci(s, "healthy"@) {
        ContainerStatus::Healthy
    } else if eq_ci(s, "unhealthy"@) {
        ContainerStatus::Unhealthy
    } else if eq_ci(s, "exited"@) {
        ContainerStatus::Exited
    } else if eq_ci(s, "created"@) {
        ContainerStatus::Created
    } else if eq_ci(s, "paused"@) {
        ContainerStatus::Paused
    } else if eq_ci(s, "restarting"@) {
        ContainerStatus::Restarting
    } else if eq_ci(s, "dead"@) {
        ContainerStatus::Dead
    } else {
        ContainerStatus::Exited
    }
}

impl ServiceCategory {
    /// Classify a container name. Total and deterministic: the result
    /// is a function of the name alone.
    pub fn from_name(name: &str) -> (r: ServiceCategory)
        ensures
            r == spec_classify(name@),
    {
        if starts_with_ci(name, "aiml-") {
            ServiceCategory::Aiml
        } else if starts_with_ci(name, "application-") {
            ServiceCategory::Application
        } else if starts_with_ci(name, "infrastructure-") {
            ServiceCategory::Infrastructure
        } else if starts_with_ci(name, "frontend-") {
            ServiceCategory::Frontend
        } else if starts_with_ci(name, "monitoring-") {
            ServiceCategory::Monitoring
        } else if starts_with_ci(name, "game-") {
            ServiceCategory::Game
        } else if starts_with_ci(name, "val-") {
            ServiceCategory::Val
        } else if starts_with_ci(name, "valina-validator") || contains_str_ci(name, "chain") {
            ServiceCategory::Blockchain
        } else {
            ServiceCategory::Other
        }
    }
}

/// A name matched by none of the recognition rules is always
/// classified `Other`.
pub proof fn lemma_classify_unrecognized(name: Seq<char>)
    requires
        !prefix_ci(name, "aiml-"@),
        !prefix_ci(name, "application-"@),
        !prefix_ci(name, "infrastructure-"@),
        !prefix_ci(name, "frontend-"@),
        !prefix_ci(name, "monitoring-"@),
        !prefix_ci(name, "game-"@),
        !prefix_ci(name, "val-"@),
        !prefix_ci(name, "valina-validator"@),
        !contains_seq_ci(name, "chain"@),
    ensures
        spec_classify(name) == ServiceCategory::Other,
{
}

/// A name with a recognized prefix is never classified `Other`.
pub proof fn lemma_classify_recognized(name: Seq<char>)
    requires
        prefix_ci(name, "aiml-"@) || prefix_ci(name, "application-"@) || prefix_ci(
            name,
            "infrastructure-"@,
        ) || prefix_ci(name, "frontend-"@) || prefix_ci(name, "monitoring-"@) || prefix_ci(
            name,
            "game-"@,
        ) || prefix_ci(name, "val-"@) || prefix_ci(name, "valina-validator"@) || contains_seq_ci(
            name,
            "chain"@,
        ),
    ensures
        spec_classify(name) != ServiceCategory::Other,
{
}

impl ContainerStatus {
    /// Map a raw runtime state string to a status.
    pub fn from_state(s: &str) -> (r: ContainerStatus)
        ensures
            r == spec_status_of_state(s@),
    {
        if str_eq_ci(s, "running") {
            ContainerStatus::Running
        } else if str_eq_ci(s, "healthy") {
            ContainerStatus::Healthy
        } else if str_eq_ci(s, "unhealthy") {
            ContainerStatus::Unhealthy
        } else if str_eq_ci(s, "exited") {
            ContainerStatus::Exited
        } else if str_eq_ci(s, "created") {
            ContainerStatus::Created
        } else if str_eq_ci(s, "paused") {
            ContainerStatus::Paused
        } else if str_eq_ci(s, "restarting") {
            ContainerStatus::Restarting
        } else if str_eq_ci(s, "dead") {
            ContainerStatus::Dead
        } else {
            ContainerStatus::Exited
        }
    }

    /// The status counts as "up": the container is running or healthy.
    pub open spec fn spec_is_up(self) -> bool {
        self == ContainerStatus::Running || self == ContainerStatus::Healthy
    }

    /// Whether the status counts as "up" (running or healthy).
    pub fn is_up(&self) -> (r: bool)
        ensures
            r == self.spec_is_up(),
    {
        match self {
            ContainerStatus::Running => true,
            ContainerStatus::Healthy => true,
            _ => false,
        }
    }
}

/// Lower-case tag of a category, the key used in view identifiers and
/// per-category counts.
pub open spec fn spec_category_tag(c: ServiceCategory) -> Seq<char> {
    match c {
        ServiceCategory::Aiml => "aiml"@,
        ServiceCategory::Application => "application"@,
        ServiceCategory::Infrastructure => "infrastructure"@,
        ServiceCategory::Frontend => "frontend"@,
        ServiceCategory::Monitoring => "monitoring"@,
        ServiceCategory::Game => "game"@,
        ServiceCategory::Val => "val"@,
        ServiceCategory::Blockchain => "blockchain"@,
        ServiceCategory::Other => "other"@,
    }
}

/// Lower-case tag of a category.
pub fn category_tag(c: &ServiceCategory) -> (r: &'static str)
    ensures
        r@ == spec_category_tag(*c),
{
    match c {
        ServiceCategory::Aiml => "aiml",
        ServiceCategory::Application => "application",
        ServiceCategory::Infrastructure => "infrastructure",
        ServiceCategory::Frontend => "frontend",
        ServiceCategory::Monitoring => "monitoring",
        ServiceCategory::Game => "game",
        ServiceCategory::Val => "val",
        ServiceCategory::Blockchain => "blockchain",
        ServiceCategory::Other => "other",
    }
}

/// Human-readable display name of a category.
pub open spec fn spec_category_display(c: ServiceCategory) -> Seq<char> {
    match c {
        ServiceCategory::Aiml => "AI/ML"@,
        ServiceCategory::Application => "Application"@,
        ServiceCategory::Infrastructure => "Infrastructure"@,
        ServiceCategory::Frontend => "Frontend"@,
        ServiceCategory::Monitoring => "Monitoring"@,
        ServiceCategory::Game => "Game"@,
        ServiceCategory::Val => "Val Autonomy"@,
        ServiceCategory::Blockchain => "Blockchain"@,
        ServiceCategory::Other => "Other"@,
    }
}

/// Human-readable display name of a category.
pub fn category_display_name(c: &ServiceCategory) -> (r: &'static str)
    ensures
        r@ == spec_category_display(*c),
{
    match c {
        ServiceCategory::Aiml => "AI/ML",
        ServiceCategory::Application => "Application",
        ServiceCategory::Infrastructure => "Infrastructure",
        ServiceCategory::Frontend => "Frontend",
        ServiceCategory::Monitoring => "Monitoring",
        ServiceCategory::Game => "Game",
        ServiceCategory::Val => "Val Autonomy",
        ServiceCategory::Blockchain => "Blockchain",
        ServiceCategory::Other => "Other",
    }
}

/// The category recognized from a view-id tag: exactly the eight
/// categories that have overview views; `Other` has none.
pub open spec fn spec_category_of_tag(t: Seq<char>) -> Option<ServiceCategory> {
    if t == "aiml"@ {
        Some(ServiceCategory::Aiml)
    } else if t == "application"@ {
        Some(ServiceCategory::Application)
    } else if t == "infrastructure"@ {
        Some(ServiceCategory::Infrastructure)
    } else if t == "frontend"@ {
        Some(ServiceCategory::Frontend)
    } else if t == "monitoring"@ {
        Some(ServiceCategory::Monitoring)
    } else if t == "game"@ {
        Some(ServiceCategory::Game)
    } else if t == "val"@ {
        Some(ServiceCategory::Val)
    } else if t == "blockchain"@ {
        Some(ServiceCategory::Blockchain)
    } else {
        None
    }
}

/// Recognize a category from a view-id tag.
pub fn category_of_tag(t: &str) -> (r: Option<ServiceCategory>)
    ensures
        r == spec_category_of_tag(t@),
{
    if crate::strutil::str_eq(t, "aiml") {
        Some(ServiceCategory::Aiml)
    } else if crate::strutil::str_eq(t, "application") {
        Some(ServiceCategory::Application)
    } else if crate::strutil::str_eq(t, "infrastructure") {
        Some(ServiceCategory::Infrastructure)
    } else if crate::strutil::str_eq(t, "frontend") {
        Some(ServiceCategory::Frontend)
    } else if crate::strutil::str_eq(t, "monitoring") {
        Some(ServiceCategory::Monitoring)
    } else if crate::strutil::str_eq(t, "game") {
        Some(ServiceCategory::Game)
    } else if crate::strutil::str_eq(t, "val") {
        Some(ServiceCategory::Val)
    } else if crate::strutil::str_eq(t, "blockchain") {
        Some(ServiceCategory::Blockchain)
    } else {
        None
    }
}

} // verus!
