//! The records of the server's interface: what it is asked and what it
//! answers.

use vstd::prelude::*;

verus! {

/// What a user may do.
#[derive(Clone, Copy, Debug, PartialEq, Eq, Structural)]
pub enum UserRole {
    SystemAdmin,
    UserAdmin,
    Employee,
}

/// The name under which a role is stored.
pub open spec fn role_name(role: UserRole) -> Seq<char> {
    match role {
        UserRole::SystemAdmin => "system_admin"@,
        UserRole::UserAdmin => "user_admin"@,
        UserRole::Employee => "employee"@,
    }
}

impl UserRole {
    /// The name under which the role is stored.
    pub fn as_str(&self) -> (name: &'static str)
        ensures
            name@ == role_name(*self),
    {
        match self {
            UserRole::SystemAdmin => "system_admin",
            UserRole::UserAdmin => "user_admin",
            UserRole::Employee => "employee",
        }
    }

    /// The name under which the role is stored.
    pub fn to_string(&self) -> (name: String)
        ensures
            name@ == role_name(*self),
    {
        self.as_str().to_owned()
    }
}

/// What is sent to create a user.
#[derive(Debug)]
pub struct CreateUserRequest {
    pub username: String,
    pub email: Option<String>,
    pub password: String,
    pub role: String,
    pub phone: Option<String>,
    pub full_name: Option<String>,
    pub company: Option<String>,
    pub max_employees: Option<i32>,
}

/// What is sent to change a user; only what is given is changed.
#[derive(Debug)]
pub struct UpdateUserRequest {
    pub username: Option<String>,
    pub email: Option<String>,
    pub password: Option<String>,
    pub phone: Option<String>,
    pub full_name: Option<String>,
    pub company: Option<String>,
    pub max_employees: Option<i32>,
    pub is_active: Option<bool>,
}

/// What a user sends to log in.
#[derive(Debug)]
pub struct LoginRequest {
    pub username: String,
    pub password: String,
}

/// What the server tells about a user.
#[derive(Debug)]
pub struct UserInfo {
    pub id: i32,
    pub username: String,
    pub email: Option<String>,
    pub full_name: Option<String>,
    pub phone: Option<String>,
    pub company: Option<String>,
    pub role: String,
    pub is_active: bool,
    pub is_verified: bool,
    pub current_employees: i32,
    pub max_employees: i32,
    pub parent_id: Option<i32>,
    pub created_at: String,
    pub last_login: Option<String>,
}

/// What is sent to register a device.
#[derive(Debug)]
pub struct CreateDeviceRequest {
    pub device_name: String,
    pub device_type: String,
    pub adb_id: Option<String>,
}

/// What is sent to open a work record.
#[derive(Debug)]
pub struct CreateWorkRecordRequest {
    pub device_id: String,
    pub platform: String,
    pub action_type: String,
    pub target_count: i32,
}

/// Which billing records are asked for.
#[derive(Debug)]
pub struct BillingQuery {
    pub page: Option<i32>,
    pub limit: Option<i32>,
    pub user_id: Option<String>,
}

/// Which data is to be exported, and how.
#[derive(Debug)]
pub struct ExportQuery {
    pub format: Option<String>,
    pub start_date: Option<String>,
    pub end_date: Option<String>,
    pub user_id: Option<String>,
}

/// Which users are asked for.
#[derive(Debug)]
pub struct ListUsersQuery {
    pub page: Option<i32>,
    pub limit: Option<i32>,
    pub role: Option<String>,
}

/// What the server answers.
#[derive(Debug)]
pub struct ApiResponse<T> {
    pub success: bool,
    pub message: String,
    pub data: Option<T>,
}

impl<T> ApiResponse<T> {
    /// The answer to a request that was carried out.
    pub fn success(data: T) -> (r: Self)
        ensures
            r.success,
            r.message@ == "操作成功"@,
            r.data == Some(data),
    {
        Self { success: true, message: "操作成功".to_owned(), data: Some(data) }
    }

    /// The answer to a request that failed, with the reason.
    pub fn error(message: String) -> (r: Self)
        ensures
            !r.success,
            r.message == message,
            r.data is None,
    {
        Self { success: false, message, data: None }
    }
}

} // verus!
