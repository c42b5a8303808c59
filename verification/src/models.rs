//! The records that the desktop client exchanges with its user interface and
//! with the server.

use vstd::prelude::*;

verus! {

/// Where the client finds its server and how it behaves.
#[derive(Debug)]
pub struct AppConfig {
    pub server_url: String,
    pub auto_connect_devices: bool,
    pub max_concurrent_tasks: u32,
    pub log_level: String,
}

impl Default for AppConfig {
    fn default() -> (config: Self)
        ensures
            config.server_url@.len() == 0,
            !config.auto_connect_devices,
            config.max_concurrent_tasks == 0,
            config.log_level@.len() == 0,
    {
        AppConfig {
            server_url: String::new(),
            auto_connect_devices: false,
            max_concurrent_tasks: 0,
            log_level: String::new(),
        }
    }
}

/// What a user sends to log in.
#[derive(Debug)]
pub struct LoginRequest {
    pub username: String,
    pub password: String,
}

/// A file of contacts and what was read from it.
#[derive(Debug)]
pub struct ContactFile {
    pub path: String,
    pub contacts: Vec<Contact>,
}

/// A contact to follow on a platform.
#[derive(Debug)]
pub struct Contact {
    pub name: String,
    pub phone: String,
    pub platform_id: Option<String>,
}

/// A contact, as mathematical values.
pub ghost struct ContactView {
    pub name: Seq<char>,
    pub phone: Seq<char>,
    pub platform_id: Option<Seq<char>>,
}

impl View for Contact {
    type V = ContactView;

    open spec fn view(&self) -> ContactView {
        ContactView {
            name: self.name@,
            phone: self.phone@,
            platform_id: match self.platform_id {
                Some(id) => Some(id@),
                None => None,
            },
        }
    }
}

/// The views of a list of contacts.
pub open spec fn contact_views(contacts: Seq<Contact>) -> Seq<ContactView> {
    contacts.map_values(|c: Contact| c@)
}

/// An account to watch, and what to watch it for.
#[derive(Debug)]
pub struct MonitorTarget {
    pub account: String,
    pub platform: String,
    pub keywords: Vec<String>,
    pub target_count: u32,
}

/// How far a task has come.
#[derive(Debug)]
pub struct TaskProgress {
    pub task_id: String,
    pub total: u32,
    pub completed: u32,
    pub failed: u32,
    pub current_status: String,
}

/// One thing that a device can or cannot do.
#[derive(Debug)]
pub struct DeviceCapability {
    pub name: String,
    pub version: String,
    pub supported: bool,
}

/// How one platform is to be used.
#[derive(Debug)]
pub struct PlatformConfig {
    pub platform: String,
    pub enabled: bool,
    /// How many operations an hour are allowed.
    pub rate_limit: u32,
    /// The shortest and the longest pause between two operations, in seconds.
    pub delay_range: (u32, u32),
}

/// What the user has chosen for the client.
#[derive(Debug)]
pub struct AppSettings {
    pub auto_start: bool,
    pub minimize_to_tray: bool,
    pub notification_enabled: bool,
    pub log_level: String,
    pub theme: String,
}

/// What the server answers.
#[derive(Debug)]
pub struct ApiResponse<T> {
    pub success: bool,
    pub data: Option<T>,
    pub message: String,
    pub code: u32,
}

/// One page of a longer list.
#[derive(Debug)]
pub struct PaginatedResponse<T> {
    pub items: Vec<T>,
    pub total: u32,
    pub page: u32,
    pub page_size: u32,
    pub total_pages: u32,
}

} // verus!
