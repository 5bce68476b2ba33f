//! Data exchanged with the PezMax server (its JSON is camelCase on the wire).

use vstd::prelude::*;

verus! {

/// The server's uniform answer.
#[derive(Debug, Clone)]
pub struct ApiResponse<T> {
    pub code: i32,
    pub msg: String,
    pub data: Option<T>,
}

/// The server's paged answer.
#[derive(Debug, Clone)]
pub struct PageResponse<T> {
    pub code: i32,
    pub msg: String,
    pub rows: Vec<T>,
    pub total: i64,
}

/// Paging request parameters.
#[derive(Debug, Clone)]
pub struct PageParams {
    pub page_num: i32,
    pub page_size: i32,
    pub order_by_column: Option<String>,
    pub is_asc: Option<String>,
}

/// Page number used when the request names none.
pub fn default_page_num() -> (r: i32)
    ensures
        r == 1,
{
    1
}

/// Page size used when the request names none.
pub fn default_page_size() -> (r: i32)
    ensures
        r == 20,
{
    20
}

/// Captchas are on unless the server says otherwise.
pub fn default_true() -> (r: bool)
    ensures
        r,
{
    true
}

impl Default for PageParams {
    /// First page of 20, unordered.
    fn default() -> (r: Self)
        ensures
            r.page_num == 1,
            r.page_size == 20,
            r.order_by_column is None,
            r.is_asc is None,
    {
        PageParams { page_num: 1, page_size: 20, order_by_column: None, is_asc: None }
    }
}

/// Login request body.
#[derive(Debug, Clone)]
pub struct LoginRequest {
    pub username: String,
    pub password: String,
    pub code: Option<String>,
    pub uuid: Option<String>,
}

/// Login answer of the desktop endpoint.
#[derive(Debug, Clone)]
pub struct LoginResponse {
    pub token: String,
    pub user: UserInfo,
}

/// A user as the server describes it.
#[derive(Debug, Clone)]
pub struct UserInfo {
    pub user_id: i64,
    pub user_name: String,
    pub nick_name: String,
    pub avatar: String,
    pub email: String,
    pub phonenumber: String,
    pub sex: String,
    pub status: String,
}

/// Answer of `getInfo`: the user with roles and account flags.
#[derive(Debug, Clone)]
pub struct UserInfoResponse {
    pub user: UserInfo,
    pub roles: Vec<String>,
    pub permissions: Vec<String>,
    pub is_default_modify_pwd: bool,
    pub is_password_expired: bool,
}

/// Captcha answer; `img` is base64.
#[derive(Debug, Clone)]
pub struct CaptchaResponse {
    pub captcha_enabled: bool,
    pub uuid: String,
    pub img: String,
}

/// Registration request with its security questions.
#[derive(Debug, Clone)]
pub struct RegisterRequest {
    pub username: String,
    pub password: String,
    pub nickname: String,
    pub code: Option<String>,
    pub uuid: Option<String>,
    pub security_questions: Vec<SecurityQuestion>,
}

/// A security question and its answer.
#[derive(Debug, Clone)]
pub struct SecurityQuestion {
    pub question: String,
    pub answer: String,
}

/// An exam paper file. `file_status`: 0 pending, 1 approved, 2 rejected, 3 reported; absent means visible.
#[derive(Debug, Clone)]
pub struct PaperFile {
    pub file_id: i64,
    pub file_name: String,
    pub file_format: String,
    pub file_size: i64,
    pub file_url: String,
    pub file_subject: String,
    pub file_year: i64,
    pub school_name: String,
    pub create_by: String,
    pub create_time: String,
    pub file_cover: String,
    pub file_status: Option<i64>,
}

impl Default for PaperFile {
    /// Every number 0, every text empty.
    fn default() -> (r: Self)
        ensures
            r.file_id == 0,
            r.file_name@.len() == 0,
            r.file_format@.len() == 0,
            r.file_size == 0,
            r.file_url@.len() == 0,
            r.file_subject@.len() == 0,
            r.file_year == 0,
            r.school_name@.len() == 0,
            r.create_by@.len() == 0,
            r.create_time@.len() == 0,
            r.file_cover@.len() == 0,
            r.file_status is None,
    {
        PaperFile { file_id: 0, file_name: String::new(), file_format: String::new(), file_size: 0, file_url: String::new(), file_subject: String::new(), file_year: 0, school_name: String::new(), create_by: String::new(), create_time: String::new(), file_cover: String::new(), file_status: None }
    }
}

/// A node of the file tree.
#[derive(Debug)]
pub struct FileTreeNode {
    pub id: i64,
    pub label: String,
    pub children: Vec<FileTreeNode>,
    pub node_type: String,
}

/// A bookmark.
#[derive(Debug, Clone)]
pub struct Bookmark {
    pub id: i64,
    pub title: String,
    pub description: String,
    pub resource_type: String,
    pub cover_url: String,
    pub create_by: String,
    pub create_time: String,
    pub collection: String,
    pub status: i64,
}

impl Default for Bookmark {
    /// Every number 0, every text empty.
    fn default() -> (r: Self)
        ensures
            r.id == 0,
            r.title@.len() == 0,
            r.description@.len() == 0,
            r.resource_type@.len() == 0,
            r.cover_url@.len() == 0,
            r.create_by@.len() == 0,
            r.create_time@.len() == 0,
            r.collection@.len() == 0,
            r.status == 0,
    {
        Bookmark { id: 0, title: String::new(), description: String::new(), resource_type: String::new(), cover_url: String::new(), create_by: String::new(), create_time: String::new(), collection: String::new(), status: 0 }
    }
}

/// A notification.
#[derive(Debug, Clone)]
pub struct Notification {
    pub notify_id: i64,
    pub title: String,
    pub content: String,
    pub notify_type: String,
    pub status: String,
    pub create_time: String,
}

/// A download record.
#[derive(Debug, Clone)]
pub struct DownloadRecord {
    pub download_id: i64,
    pub file_id: i64,
    pub file_name: String,
    pub user_id: i64,
    pub download_time: String,
    pub file_format: String,
}

impl Default for DownloadRecord {
    /// Every number 0, every text empty.
    fn default() -> (r: Self)
        ensures
            r.download_id == 0,
            r.file_id == 0,
            r.file_name@.len() == 0,
            r.user_id == 0,
            r.download_time@.len() == 0,
            r.file_format@.len() == 0,
    {
        DownloadRecord { download_id: 0, file_id: 0, file_name: String::new(), user_id: 0, download_time: String::new(), file_format: String::new() }
    }
}

/// A favorite record.
#[derive(Debug, Clone)]
pub struct FavoriteRecord {
    pub file_id: i64,
    pub file_name: String,
    pub file_subject: String,
    pub create_time: String,
}

impl Default for FavoriteRecord {
    /// Every number 0, every text empty.
    fn default() -> (r: Self)
        ensures
            r.file_id == 0,
            r.file_name@.len() == 0,
            r.file_subject@.len() == 0,
            r.create_time@.len() == 0,
    {
        FavoriteRecord { file_id: 0, file_name: String::new(), file_subject: String::new(), create_time: String::new() }
    }
}

/// Per-user counts.
#[derive(Debug, Clone)]
pub struct UserStats {
    pub favorite_count: i64,
    pub download_count: i64,
    pub upload_count: i64,
}

/// A report filed by the user.
#[derive(Debug, Clone)]
pub struct Report {
    pub report_id: i64,
    pub report_type: String,
    pub content: String,
    pub status: String,
    pub create_time: String,
}

impl Default for Report {
    /// Every number 0, every text empty.
    fn default() -> (r: Self)
        ensures
            r.report_id == 0,
            r.report_type@.len() == 0,
            r.content@.len() == 0,
            r.status@.len() == 0,
            r.create_time@.len() == 0,
    {
        Report { report_id: 0, report_type: String::new(), content: String::new(), status: String::new(), create_time: String::new() }
    }
}

/// An entry of the user ranking.
#[derive(Debug, Clone)]
pub struct UserRankItem {
    pub user_id: i64,
    pub user_name: String,
    pub nick_name: String,
    pub upload_count: i64,
    pub download_count: i64,
    pub avatar: String,
    pub years: i64,
}

impl Default for UserRankItem {
    /// Every number 0, every text empty.
    fn default() -> (r: Self)
        ensures
            r.user_id == 0,
            r.user_name@.len() == 0,
            r.nick_name@.len() == 0,
            r.upload_count == 0,
            r.download_count == 0,
            r.avatar@.len() == 0,
            r.years == 0,
    {
        UserRankItem { user_id: 0, user_name: String::new(), nick_name: String::new(), upload_count: 0, download_count: 0, avatar: String::new(), years: 0 }
    }
}

impl UserRankItem {
    /// The nickname, or the user name when the nickname is empty.
    pub fn display_name(&self) -> (r: &str)
        ensures
            r@ == if self.nick_name@.len() > 0 { self.nick_name@ } else { self.user_name@ },
    {
        if !self.nick_name.as_str().is_empty() {
            self.nick_name.as_str()
        } else {
            self.user_name.as_str()
        }
    }
}

} // verus!
