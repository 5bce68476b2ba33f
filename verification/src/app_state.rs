//! The state of the main window apart from its widgets and animations: the
//! authentication forms, the session, navigation, toasts, account editing,
//! reports, contributions and the settings. The window starts from
//! `initial_state`, hands every finished background request to `app_step`,
//! and mirrors its settings with `sync_settings`.

use vstd::prelude::*;
use crate::cache::{default_download_dir, is_default_download_dir, SavedCredentials};
use crate::menu::ThemeMode;
use crate::models::{Bookmark, CaptchaResponse, SecurityQuestion, UserInfo, UserStats};
use crate::nav::{add_toast, AccountEditSection, AuthPage, LoginResult, NavState, Section, Subsection, ToastLevel, MAX_TOASTS};
use crate::session::{captcha_field, login_request, opt_seq, questions_view, register_request};
use crate::models::{LoginRequest, RegisterRequest};
use crate::community::{parse_i64, parsed_i64};
use crate::distro::{trim_whitespace, trim_ws};
use crate::text::{chars_of, string_from_chars};
use crate::text::str_eq;
use crate::toast::AnimatedToast;

verus! {

/// How the paper viewer lays out pages.
#[derive(Debug, Clone, Copy, PartialEq, Eq, Structural)]
pub enum PdfViewMode {
    /// Thumbnail grid.
    Grid,
    /// One continuous column.
    Line,
}

/// The settings saved on disk. The PDF zoom is kept in percent.
pub struct Settings {
    pub theme_mode: ThemeMode,
    pub accent_idx: usize,
    pub setting_auto_launch: bool,
    pub setting_silent_download: bool,
    pub pdf_view_mode: PdfViewMode,
    pub pdf_scale_pct: u32,
    pub download_dir: Option<String>,
}

/// The settings as the settings page edits them.
pub struct UiSettings {
    pub theme_mode: ThemeMode,
    pub accent_idx: usize,
    pub setting_auto_launch: bool,
    pub setting_silent_download: bool,
    pub pdf_view_mode: PdfViewMode,
    pub pdf_scale_pct: u32,
    pub download_dir: String,
}

/// Mathematical form of saved settings.
pub open spec fn settings_view(s: Settings) -> (ThemeMode, usize, bool, bool, PdfViewMode, u32, Option<Seq<char>>) {
    (s.theme_mode, s.accent_idx, s.setting_auto_launch, s.setting_silent_download, s.pdf_view_mode, s.pdf_scale_pct,
        opt_seq(s.download_dir))
}

/// The saved settings that mirror what the settings page shows.
pub open spec fn mirrored(ui: UiSettings) -> (ThemeMode, usize, bool, bool, PdfViewMode, u32, Option<Seq<char>>) {
    (ui.theme_mode, ui.accent_idx, ui.setting_auto_launch, ui.setting_silent_download, ui.pdf_view_mode, ui.pdf_scale_pct,
        Some(ui.download_dir@))
}

/// Mirror the settings page into the saved settings. Also says whether they
/// changed (then they are written to disk) and whether the start-up setting
/// changed (then the system registration is updated).
pub fn sync_settings(saved: &Settings, ui: &UiSettings) -> (r: (Settings, bool, bool))
    ensures
        settings_view(r.0) == mirrored(*ui),
        r.1 == (settings_view(r.0) != settings_view(*saved)),
        r.2 == (saved.setting_auto_launch != ui.setting_auto_launch),
{
    let dir_changed = match &saved.download_dir {
        Some(d) => !str_eq(d.as_str(), ui.download_dir.as_str()),
        None => true,
    };
    let auto_launch_changed = saved.setting_auto_launch != ui.setting_auto_launch;
    let changed = saved.theme_mode != ui.theme_mode || saved.accent_idx != ui.accent_idx || auto_launch_changed
        || saved.setting_silent_download != ui.setting_silent_download || saved.pdf_view_mode != ui.pdf_view_mode
        || saved.pdf_scale_pct != ui.pdf_scale_pct || dir_changed;
    let next = Settings {
        theme_mode: ui.theme_mode,
        accent_idx: ui.accent_idx,
        setting_auto_launch: ui.setting_auto_launch,
        setting_silent_download: ui.setting_silent_download,
        pdf_view_mode: ui.pdf_view_mode,
        pdf_scale_pct: ui.pdf_scale_pct,
        download_dir: Some(ui.download_dir.clone()),
    };
    (next, changed, auto_launch_changed)
}

/// A toast as a value: message, level, creation time, fading out, fade-out start.
pub open spec fn toast_model(t: AnimatedToast) -> (Seq<char>, ToastLevel, u64, bool, u64) {
    (t.message@, t.level, t.created_at_ms, t.exit_triggered, t.exit_started_ms)
}

/// A list of toasts as values.
pub open spec fn toasts_model(ts: Seq<AnimatedToast>) -> Seq<(Seq<char>, ToastLevel, u64, bool, u64)> {
    ts.map_values(|t: AnimatedToast| toast_model(t))
}

/// The toasts after adding one created at `now`: at most `MAX_TOASTS`, the oldest dropped.
pub open spec fn toasts_with(
    ts: Seq<(Seq<char>, ToastLevel, u64, bool, u64)>,
    msg: Seq<char>,
    level: ToastLevel,
    now: u64,
) -> Seq<(Seq<char>, ToastLevel, u64, bool, u64)> {
    let p = ts.push((msg, level, now, false, 0u64));
    if p.len() > MAX_TOASTS {
        p.drop_first()
    } else {
        p
    }
}

/// The login form.
pub struct LoginForm {
    pub username: String,
    pub password: String,
    pub captcha: String,
    pub captcha_uuid: String,
    pub captcha_img: String,
    pub captcha_enabled: bool,
    pub loading: bool,
    pub error: String,
    pub remember: bool,
    pub captcha_loaded: bool,
}

/// The registration flow: step 1 account, 2 security questions, 3 nickname,
/// 4 captcha and disclaimer.
pub struct RegisterForm {
    pub step: i32,
    pub username: String,
    pub password: String,
    pub confirm_password: String,
    pub nickname: String,
    pub captcha: String,
    pub captcha_uuid: String,
    pub captcha_img: String,
    pub captcha_enabled: bool,
    pub security_questions: Vec<SecurityQuestion>,
    pub loading: bool,
    pub error: String,
    pub disclaimer_open: bool,
}

/// The password recovery flow: step 1 user name and captcha, 2 answers, 3 new password.
pub struct ForgetForm {
    pub step: i32,
    pub username: String,
    pub captcha: String,
    pub captcha_uuid: String,
    pub captcha_img: String,
    pub captcha_enabled: bool,
    /// Questions from the server, answers from the user.
    pub questions: Vec<SecurityQuestion>,
    pub new_password: String,
    pub confirm_password: String,
    pub loading: bool,
    pub error: String,
}

/// Who is logged in and where the window is.
pub struct Session {
    pub is_logged_in: bool,
    pub auth_page: AuthPage,
    pub token: Option<String>,
    pub current_user: Option<UserInfo>,
    pub user_stats: Option<UserStats>,
    pub nav: NavState,
}

/// The account settings page.
pub struct AccountEdit {
    pub section: AccountEditSection,
    pub loading: bool,
    pub error: String,
    pub success: String,
    /// Milliseconds the message stays up.
    pub message_ms: u32,
    pub security_questions: Vec<SecurityQuestion>,
    /// 0 check the old password, 1 set the new one.
    pub password_verify_step: u8,
    /// 0 check the password, 1 edit the questions.
    pub security_verify_step: u8,
}

/// Favorites and the opened bookmark.
pub struct Favorites {
    pub file_ids: Vec<i64>,
    pub ids_loaded: bool,
    pub bookmark_ids: Vec<i64>,
    pub selected_bookmark: Option<Bookmark>,
}

/// The report dialog and the report list.
pub struct Reports {
    pub show_dialog: bool,
    pub reason: String,
    pub remark: String,
    pub page_num: i64,
    pub show_timeline: bool,
}

/// The file-contribution form.
pub struct ContributeForm {
    pub subject: String,
    pub school: String,
    pub year: String,
    pub file_path: Option<String>,
    pub file_name: Option<String>,
    pub file_format: Option<String>,
    pub file_size: Option<u64>,
    pub uploading: bool,
}

/// The state of the window.
pub struct AppState {
    pub login: LoginForm,
    pub register: RegisterForm,
    pub forget: ForgetForm,
    pub session: Session,
    pub toasts: Vec<AnimatedToast>,
    pub account: AccountEdit,
    pub favorites: Favorites,
    pub reports: Reports,
    pub contribute: ContributeForm,
    pub pdf_loading: bool,
    pub pdf_error: Option<String>,
    /// The settings as edited.
    pub ui: UiSettings,
    /// The settings as saved.
    pub settings: Settings,
}

pub struct LoginModel {
    pub username: Seq<char>,
    pub password: Seq<char>,
    pub captcha: Seq<char>,
    pub captcha_uuid: Seq<char>,
    pub captcha_img: Seq<char>,
    pub captcha_enabled: bool,
    pub loading: bool,
    pub error: Seq<char>,
    pub remember: bool,
    pub captcha_loaded: bool,
}

pub struct RegisterModel {
    pub step: i32,
    pub username: Seq<char>,
    pub password: Seq<char>,
    pub confirm_password: Seq<char>,
    pub nickname: Seq<char>,
    pub captcha: Seq<char>,
    pub captcha_uuid: Seq<char>,
    pub captcha_img: Seq<char>,
    pub captcha_enabled: bool,
    pub security_questions: Seq<(Seq<char>, Seq<char>)>,
    pub loading: bool,
    pub error: Seq<char>,
    pub disclaimer_open: bool,
}

pub struct ForgetModel {
    pub step: i32,
    pub username: Seq<char>,
    pub captcha: Seq<char>,
    pub captcha_uuid: Seq<char>,
    pub captcha_img: Seq<char>,
    pub captcha_enabled: bool,
    pub questions: Seq<(Seq<char>, Seq<char>)>,
    pub new_password: Seq<char>,
    pub confirm_password: Seq<char>,
    pub loading: bool,
    pub error: Seq<char>,
}

pub struct SessionModel {
    pub is_logged_in: bool,
    pub auth_page: AuthPage,
    pub token: Option<Seq<char>>,
    pub current_user: Option<UserInfo>,
    pub user_stats: Option<UserStats>,
    pub nav: NavState,
}

pub struct AccountModel {
    pub section: AccountEditSection,
    pub loading: bool,
    pub error: Seq<char>,
    pub success: Seq<char>,
    pub message_ms: u32,
    pub security_questions: Seq<(Seq<char>, Seq<char>)>,
    pub password_verify_step: u8,
    pub security_verify_step: u8,
}

pub struct FavoritesModel {
    pub file_ids: Seq<i64>,
    pub ids_loaded: bool,
    pub bookmark_ids: Seq<i64>,
    pub selected_bookmark: Option<Bookmark>,
}

pub struct ReportsModel {
    pub show_dialog: bool,
    pub reason: Seq<char>,
    pub remark: Seq<char>,
    pub page_num: i64,
    pub show_timeline: bool,
}

pub struct ContributeModel {
    pub subject: Seq<char>,
    pub school: Seq<char>,
    pub year: Seq<char>,
    pub file_path: Option<Seq<char>>,
    pub file_name: Option<Seq<char>>,
    pub file_format: Option<Seq<char>>,
    pub file_size: Option<u64>,
    pub uploading: bool,
}

/// Mathematical form of the window state: texts as character sequences.
pub struct AppModel {
    pub login: LoginModel,
    pub register: RegisterModel,
    pub forget: ForgetModel,
    pub session: SessionModel,
    pub toasts: Seq<(Seq<char>, ToastLevel, u64, bool, u64)>,
    pub account: AccountModel,
    pub favorites: FavoritesModel,
    pub reports: ReportsModel,
    pub contribute: ContributeModel,
    pub pdf_loading: bool,
    pub pdf_error: Option<Seq<char>>,
    pub ui: (ThemeMode, usize, bool, bool, PdfViewMode, u32, Seq<char>),
    pub settings: (ThemeMode, usize, bool, bool, PdfViewMode, u32, Option<Seq<char>>),
}

impl View for LoginForm {
    type V = LoginModel;

    open spec fn view(&self) -> LoginModel {
        LoginModel {
            username: self.username@,
            password: self.password@,
            captcha: self.captcha@,
            captcha_uuid: self.captcha_uuid@,
            captcha_img: self.captcha_img@,
            captcha_enabled: self.captcha_enabled,
            loading: self.loading,
            error: self.error@,
            remember: self.remember,
            captcha_loaded: self.captcha_loaded,
        }
    }
}

impl View for RegisterForm {
    type V = RegisterModel;

    open spec fn view(&self) -> RegisterModel {
        RegisterModel {
            step: self.step,
            username: self.username@,
            password: self.password@,
            confirm_password: self.confirm_password@,
            nickname: self.nickname@,
            captcha: self.captcha@,
            captcha_uuid: self.captcha_uuid@,
            captcha_img: self.captcha_img@,
            captcha_enabled: self.captcha_enabled,
            security_questions: questions_view(self.security_questions@),
            loading: self.loading,
            error: self.error@,
            disclaimer_open: self.disclaimer_open,
        }
    }
}

impl View for ForgetForm {
    type V = ForgetModel;

    open spec fn view(&self) -> ForgetModel {
        ForgetModel {
            step: self.step,
            username: self.username@,
            captcha: self.captcha@,
            captcha_uuid: self.captcha_uuid@,
            captcha_img: self.captcha_img@,
            captcha_enabled: self.captcha_enabled,
            questions: questions_view(self.questions@),
            new_password: self.new_password@,
            confirm_password: self.confirm_password@,
            loading: self.loading,
            error: self.error@,
        }
    }
}

impl View for Session {
    type V = SessionModel;

    open spec fn view(&self) -> SessionModel {
        SessionModel {
            is_logged_in: self.is_logged_in,
            auth_page: self.auth_page,
            token: opt_seq(self.token),
            current_user: self.current_user,
            user_stats: self.user_stats,
            nav: self.nav,
        }
    }
}

impl View for AccountEdit {
    type V = AccountModel;

    open spec fn view(&self) -> AccountModel {
        AccountModel {
            section: self.section,
            loading: self.loading,
            error: self.error@,
            success: self.success@,
            message_ms: self.message_ms,
            security_questions: questions_view(self.security_questions@),
            password_verify_step: self.password_verify_step,
            security_verify_step: self.security_verify_step,
        }
    }
}

impl View for Favorites {
    type V = FavoritesModel;

    open spec fn view(&self) -> FavoritesModel {
        FavoritesModel {
            file_ids: self.file_ids@,
            ids_loaded: self.ids_loaded,
            bookmark_ids: self.bookmark_ids@,
            selected_bookmark: self.selected_bookmark,
        }
    }
}

impl View for Reports {
    type V = ReportsModel;

    open spec fn view(&self) -> ReportsModel {
        ReportsModel {
            show_dialog: self.show_dialog,
            reason: self.reason@,
            remark: self.remark@,
            page_num: self.page_num,
            show_timeline: self.show_timeline,
        }
    }
}

impl View for ContributeForm {
    type V = ContributeModel;

    open spec fn view(&self) -> ContributeModel {
        ContributeModel {
            subject: self.subject@,
            school: self.school@,
            year: self.year@,
            file_path: opt_seq(self.file_path),
            file_name: opt_seq(self.file_name),
            file_format: opt_seq(self.file_format),
            file_size: self.file_size,
            uploading: self.uploading,
        }
    }
}

/// The settings page as values.
pub open spec fn ui_view(ui: UiSettings) -> (ThemeMode, usize, bool, bool, PdfViewMode, u32, Seq<char>) {
    (ui.theme_mode, ui.accent_idx, ui.setting_auto_launch, ui.setting_silent_download, ui.pdf_view_mode, ui.pdf_scale_pct,
        ui.download_dir@)
}

impl View for AppState {
    type V = AppModel;

    open spec fn view(&self) -> AppModel {
        AppModel {
            login: self.login@,
            register: self.register@,
            forget: self.forget@,
            session: self.session@,
            toasts: toasts_model(self.toasts@),
            account: self.account@,
            favorites: self.favorites@,
            reports: self.reports@,
            contribute: self.contribute@,
            pdf_loading: self.pdf_loading,
            pdf_error: opt_seq(self.pdf_error),
            ui: ui_view(self.ui),
            settings: settings_view(self.settings),
        }
    }
}

/// Three empty security questions.
pub open spec fn blank_questions() -> Seq<(Seq<char>, Seq<char>)> {
    seq![(Seq::<char>::empty(), Seq::<char>::empty()); 3]
}

/// The state the window starts in, from the saved session, the saved
/// settings, the cached statistics, and the download directory it shows.
pub open spec fn initial_model(
    saved: Option<SavedCredentials>,
    settings: Settings,
    cached_stats: Option<UserStats>,
    dir: Seq<char>,
) -> AppModel {
    AppModel {
        login: LoginModel {
            username: match saved { Some(c) => c.username@, None => Seq::empty() },
            password: Seq::empty(),
            captcha: Seq::empty(),
            captcha_uuid: Seq::empty(),
            captcha_img: Seq::empty(),
            captcha_enabled: true,
            loading: false,
            error: Seq::empty(),
            remember: match saved { Some(c) => c.remember_me, None => false },
            captcha_loaded: false,
        },
        register: RegisterModel {
            step: 1,
            username: Seq::empty(),
            password: Seq::empty(),
            confirm_password: Seq::empty(),
            nickname: Seq::empty(),
            captcha: Seq::empty(),
            captcha_uuid: Seq::empty(),
            captcha_img: Seq::empty(),
            captcha_enabled: true,
            security_questions: blank_questions(),
            loading: false,
            error: Seq::empty(),
            disclaimer_open: false,
        },
        forget: ForgetModel {
            step: 1,
            username: Seq::empty(),
            captcha: Seq::empty(),
            captcha_uuid: Seq::empty(),
            captcha_img: Seq::empty(),
            captcha_enabled: true,
            questions: Seq::empty(),
            new_password: Seq::empty(),
            confirm_password: Seq::empty(),
            loading: false,
            error: Seq::empty(),
        },
        session: SessionModel {
            is_logged_in: saved is Some,
            auth_page: AuthPage::Login,
            token: None,
            current_user: None,
            user_stats: cached_stats,
            nav: NavState { section: Section::Home, subsection: Subsection::Blank },
        },
        toasts: Seq::empty(),
        account: AccountModel {
            section: AccountEditSection::Blank,
            loading: false,
            error: Seq::empty(),
            success: Seq::empty(),
            message_ms: 0,
            security_questions: Seq::empty(),
            password_verify_step: 0,
            security_verify_step: 0,
        },
        favorites: FavoritesModel {
            file_ids: Seq::empty(),
            ids_loaded: false,
            bookmark_ids: Seq::empty(),
            selected_bookmark: None,
        },
        reports: ReportsModel {
            show_dialog: false,
            reason: Seq::empty(),
            remark: Seq::empty(),
            page_num: 1,
            show_timeline: false,
        },
        contribute: ContributeModel {
            subject: Seq::empty(),
            school: Seq::empty(),
            year: Seq::empty(),
            file_path: None,
            file_name: None,
            file_format: None,
            file_size: None,
            uploading: false,
        },
        pdf_loading: false,
        pdf_error: None,
        ui: (settings.theme_mode, settings.accent_idx, settings.setting_auto_launch, settings.setting_silent_download,
            settings.pdf_view_mode, settings.pdf_scale_pct, dir),
        settings: settings_view(settings),
    }
}

fn blank_question() -> (q: SecurityQuestion)
    ensures
        q.question@ == Seq::<char>::empty(),
        q.answer@ == Seq::<char>::empty(),
{
    SecurityQuestion { question: String::new(), answer: String::new() }
}

/// The state the window starts in. With saved credentials the user name and
/// "remember me" are filled in and the window counts as logged in while the
/// saved token is checked (the token to check is returned); without them it
/// shows the login page. The settings page starts from the saved settings,
/// the download directory from the saved one or the default under `home`.
pub fn initial_state(
    saved: Option<SavedCredentials>,
    settings: Settings,
    cached_stats: Option<UserStats>,
    home: Option<&str>,
) -> (r: (AppState, Option<String>))
    ensures
        r.0@ == initial_model(saved, settings, cached_stats, r.0.ui.download_dir@),
        match settings.download_dir {
            Some(d) => r.0.ui.download_dir@ == d@,
            None => is_default_download_dir(home, r.0.ui.download_dir@),
        },
        opt_seq(r.1) == (match saved { Some(c) => Some(c.token@), None => None::<Seq<char>> }),
{
    let dir = match &settings.download_dir {
        Some(d) => d.clone(),
        None => default_download_dir(home),
    };
    let (username, remember, check_token, logged_in) = match saved {
        Some(c) => (c.username, c.remember_me, Some(c.token), true),
        None => (String::new(), false, None, false),
    };
    let mut questions: Vec<SecurityQuestion> = Vec::new();
    questions.push(blank_question());
    questions.push(blank_question());
    questions.push(blank_question());
    proof { assert(questions_view(questions@) =~= blank_questions()); }
    let login = LoginForm {
        username,
        password: String::new(),
        captcha: String::new(),
        captcha_uuid: String::new(),
        captcha_img: String::new(),
        captcha_enabled: true,
        loading: false,
        error: String::new(),
        remember,
        captcha_loaded: false,
    };
    let register = RegisterForm {
        step: 1,
        username: String::new(),
        password: String::new(),
        confirm_password: String::new(),
        nickname: String::new(),
        captcha: String::new(),
        captcha_uuid: String::new(),
        captcha_img: String::new(),
        captcha_enabled: true,
        security_questions: questions,
        loading: false,
        error: String::new(),
        disclaimer_open: false,
    };
    let forget = ForgetForm {
        step: 1,
        username: String::new(),
        captcha: String::new(),
        captcha_uuid: String::new(),
        captcha_img: String::new(),
        captcha_enabled: true,
        questions: Vec::new(),
        new_password: String::new(),
        confirm_password: String::new(),
        loading: false,
        error: String::new(),
    };
    proof { assert(questions_view(forget.questions@) =~= Seq::empty()); }
    let session = Session {
        is_logged_in: logged_in,
        auth_page: AuthPage::Login,
        token: None,
        current_user: None,
        user_stats: cached_stats,
        nav: NavState::new(),
    };
    let account = AccountEdit {
        section: AccountEditSection::Blank,
        loading: false,
        error: String::new(),
        success: String::new(),
        message_ms: 0,
        security_questions: Vec::new(),
        password_verify_step: 0,
        security_verify_step: 0,
    };
    proof { assert(questions_view(account.security_questions@) =~= Seq::empty()); }
    let favorites = Favorites { file_ids: Vec::new(), ids_loaded: false, bookmark_ids: Vec::new(), selected_bookmark: None };
    let reports = Reports { show_dialog: false, reason: String::new(), remark: String::new(), page_num: 1, show_timeline: false };
    let contribute = ContributeForm {
        subject: String::new(),
        school: String::new(),
        year: String::new(),
        file_path: None,
        file_name: None,
        file_format: None,
        file_size: None,
        uploading: false,
    };
    let ui = UiSettings {
        theme_mode: settings.theme_mode,
        accent_idx: settings.accent_idx,
        setting_auto_launch: settings.setting_auto_launch,
        setting_silent_download: settings.setting_silent_download,
        pdf_view_mode: settings.pdf_view_mode,
        pdf_scale_pct: settings.pdf_scale_pct,
        download_dir: dir,
    };
    let toasts: Vec<AnimatedToast> = Vec::new();
    proof { assert(toasts_model(toasts@) =~= Seq::empty()); }
    let st = AppState {
        login,
        register,
        forget,
        session,
        toasts,
        account,
        favorites,
        reports,
        contribute,
        pdf_loading: false,
        pdf_error: None,
        ui,
        settings,
    };
    (st, check_token)
}

/// What the window does outside its state after a step: disk, requests,
/// textures and animations.
pub struct AppEffects {
    /// Write these credentials to disk.
    pub save_credentials: Option<SavedCredentials>,
    /// Remove the saved credentials.
    pub clear_credentials: bool,
    /// Play the page-enter animation and point the sidebar at Home.
    pub enter_home: bool,
    pub load_user_stats: bool,
    pub load_recent_files: bool,
    pub load_favorite_ids: bool,
    pub load_bookmark_favorite_ids: bool,
    pub load_avatar: bool,
    pub drop_avatar_texture: bool,
    pub load_register_captcha: bool,
    pub load_forget_captcha: bool,
    pub preload_security: bool,
    /// Decode the captcha image just received into a texture.
    pub decode_login_captcha: bool,
    pub decode_register_captcha: bool,
    pub decode_forget_captcha: bool,
    pub drop_login_captcha_texture: bool,
    pub drop_register_captcha_texture: bool,
    pub drop_forget_captcha_texture: bool,
    pub reset_disclaimer_countdown: bool,
    /// Move the step indicator of the auth pages to this step (0-based).
    pub auth_step_target: Option<u8>,
    /// Forget the loaded list of the user's reports.
    pub reset_my_reports: bool,
    pub play_report_timeline: bool,
    /// Open the paper whose bytes just arrived.
    pub load_pdf_document: bool,
    /// Forget what belonged to the session: the client's token, the loaded
    /// lists, counters and avatar pictures.
    pub drop_session_data: bool,
}

/// Mathematical form of the effects: the credentials as texts.
pub struct EffectsModel {
    pub save_credentials: Option<(Seq<char>, Seq<char>, bool)>,
    pub clear_credentials: bool,
    pub enter_home: bool,
    pub load_user_stats: bool,
    pub load_recent_files: bool,
    pub load_favorite_ids: bool,
    pub load_bookmark_favorite_ids: bool,
    pub load_avatar: bool,
    pub drop_avatar_texture: bool,
    pub load_register_captcha: bool,
    pub load_forget_captcha: bool,
    pub preload_security: bool,
    pub decode_login_captcha: bool,
    pub decode_register_captcha: bool,
    pub decode_forget_captcha: bool,
    pub drop_login_captcha_texture: bool,
    pub drop_register_captcha_texture: bool,
    pub drop_forget_captcha_texture: bool,
    pub reset_disclaimer_countdown: bool,
    pub auth_step_target: Option<u8>,
    pub reset_my_reports: bool,
    pub play_report_timeline: bool,
    pub load_pdf_document: bool,
    pub drop_session_data: bool,
}

impl View for AppEffects {
    type V = EffectsModel;

    open spec fn view(&self) -> EffectsModel {
        EffectsModel {
            save_credentials: match self.save_credentials {
                Some(c) => Some((c.token@, c.username@, c.remember_me)),
                None => None,
            },
            clear_credentials: self.clear_credentials,
            enter_home: self.enter_home,
            load_user_stats: self.load_user_stats,
            load_recent_files: self.load_recent_files,
            load_favorite_ids: self.load_favorite_ids,
            load_bookmark_favorite_ids: self.load_bookmark_favorite_ids,
            load_avatar: self.load_avatar,
            drop_avatar_texture: self.drop_avatar_texture,
            load_register_captcha: self.load_register_captcha,
            load_forget_captcha: self.load_forget_captcha,
            preload_security: self.preload_security,
            decode_login_captcha: self.decode_login_captcha,
            decode_register_captcha: self.decode_register_captcha,
            decode_forget_captcha: self.decode_forget_captcha,
            drop_login_captcha_texture: self.drop_login_captcha_texture,
            drop_register_captcha_texture: self.drop_register_captcha_texture,
            drop_forget_captcha_texture: self.drop_forget_captcha_texture,
            reset_disclaimer_countdown: self.reset_disclaimer_countdown,
            auth_step_target: self.auth_step_target,
            reset_my_reports: self.reset_my_reports,
            play_report_timeline: self.play_report_timeline,
            load_pdf_document: self.load_pdf_document,
            drop_session_data: self.drop_session_data,
        }
    }
}

/// Nothing to do.
pub open spec fn no_effects() -> EffectsModel {
    EffectsModel {
        save_credentials: None,
        clear_credentials: false,
        enter_home: false,
        load_user_stats: false,
        load_recent_files: false,
        load_favorite_ids: false,
        load_bookmark_favorite_ids: false,
        load_avatar: false,
        drop_avatar_texture: false,
        load_register_captcha: false,
        load_forget_captcha: false,
        preload_security: false,
        decode_login_captcha: false,
        decode_register_captcha: false,
        decode_forget_captcha: false,
        drop_login_captcha_texture: false,
        drop_register_captcha_texture: false,
        drop_forget_captcha_texture: false,
        reset_disclaimer_countdown: false,
        auth_step_target: None,
        reset_my_reports: false,
        play_report_timeline: false,
        load_pdf_document: false,
        drop_session_data: false,
    }
}

fn nothing() -> (r: AppEffects)
    ensures
        r@ == no_effects(),
{
    AppEffects {
        save_credentials: None,
        clear_credentials: false,
        enter_home: false,
        load_user_stats: false,
        load_recent_files: false,
        load_favorite_ids: false,
        load_bookmark_favorite_ids: false,
        load_avatar: false,
        drop_avatar_texture: false,
        load_register_captcha: false,
        load_forget_captcha: false,
        preload_security: false,
        decode_login_captcha: false,
        decode_register_captcha: false,
        decode_forget_captcha: false,
        drop_login_captcha_texture: false,
        drop_register_captcha_texture: false,
        drop_forget_captcha_texture: false,
        reset_disclaimer_countdown: false,
        auth_step_target: None,
        reset_my_reports: false,
        play_report_timeline: false,
        load_pdf_document: false,
        drop_session_data: false,
    }
}

/// A background request that finished; errors carry their message.
pub enum AppEvent {
    CaptchaLoaded(Result<CaptchaResponse, String>),
    RegisterCaptchaLoaded(Result<CaptchaResponse, String>),
    RegisterDone(Result<(), String>),
    ForgetCaptchaLoaded(Result<CaptchaResponse, String>),
    ForgetQuestionsLoaded(Result<Vec<SecurityQuestion>, String>),
    /// Whether the old password was right.
    PasswordVerified(Result<bool, String>),
    SecurityPreloaded(Result<Vec<SecurityQuestion>, String>),
    ReportSubmitted(Result<(), String>),
    /// The timeline itself stays with the window.
    ReportTimelineLoaded(Result<(), String>),
    ContributeUploaded(Result<(), String>),
    ForgetResetDone(Result<(), String>),
    LoginDone(Result<LoginResult, String>),
    /// Check of the saved token: the user and the token.
    AutoLoginDone(Result<(UserInfo, String), String>),
    /// A new avatar: the updated user, or nothing when the user cancelled.
    AvatarUploaded(Result<Option<UserInfo>, String>),
    FavoriteIdsLoaded(Result<Vec<i64>, String>),
    BookmarkFavoriteIdsLoaded(Result<Vec<i64>, String>),
    BookmarkDetailLoaded(Result<Bookmark, String>),
    /// The paper's bytes stay with the window.
    PdfBytesLoaded(Result<(), String>),
}

/// Id of the current user, 0 without one.
pub open spec fn user_id_of(u: Option<UserInfo>) -> i64 {
    match u {
        Some(x) => x.user_id,
        None => 0,
    }
}

/// Avatar address of the current user, empty without one.
pub open spec fn avatar_of(u: Option<UserInfo>) -> Seq<char> {
    match u {
        Some(x) => x.avatar@,
        None => Seq::empty(),
    }
}

/// The questions with their answers emptied.
pub open spec fn answers_cleared(q: Seq<(Seq<char>, Seq<char>)>) -> Seq<(Seq<char>, Seq<char>)> {
    q.map_values(|p: (Seq<char>, Seq<char>)| (p.0, Seq::<char>::empty()))
}

/// As many questions, all empty.
pub open spec fn all_cleared(q: Seq<(Seq<char>, Seq<char>)>) -> Seq<(Seq<char>, Seq<char>)> {
    q.map_values(|p: (Seq<char>, Seq<char>)| (Seq::<char>::empty(), Seq::<char>::empty()))
}

/// The state with a toast added at `now`.
pub open spec fn with_toast(s: AppModel, msg: Seq<char>, level: ToastLevel, now: u64) -> AppModel {
    AppModel { toasts: toasts_with(s.toasts, msg, level, now), ..s }
}

/// An account-settings error shown for 3 s; the request is over.
pub open spec fn account_error(a: AccountModel, msg: Seq<char>) -> AccountModel {
    AccountModel { loading: false, error: msg, message_ms: 3000, ..a }
}

/// Entering the app after a login: Home, the login form emptied.
pub open spec fn login_success_model(s: AppModel) -> AppModel {
    AppModel {
        session: SessionModel {
            is_logged_in: true,
            nav: NavState { section: Section::Home, subsection: Subsection::Blank },
            ..s.session
        },
        login: LoginModel {
            username: Seq::empty(),
            password: Seq::empty(),
            captcha: Seq::empty(),
            captcha_uuid: Seq::empty(),
            captcha_img: Seq::empty(),
            error: Seq::empty(),
            captcha_loaded: false,
            ..s.login
        },
        ..s
    }
}

/// Effects of entering the app: the credentials kept when "remember me" is
/// on (and a token is known) and removed when it is off, then the home data
/// of a known user and the avatar when the user has one.
pub open spec fn login_success_fx(s: AppModel) -> EffectsModel {
    EffectsModel {
        save_credentials: if s.login.remember {
            match s.session.token {
                Some(t) => Some((t, s.login.username, true)),
                None => None,
            }
        } else {
            None
        },
        clear_credentials: !s.login.remember,
        enter_home: true,
        load_user_stats: user_id_of(s.session.current_user) != 0,
        load_recent_files: true,
        load_favorite_ids: user_id_of(s.session.current_user) != 0,
        load_bookmark_favorite_ids: user_id_of(s.session.current_user) != 0,
        load_avatar: avatar_of(s.session.current_user).len() > 0,
        drop_login_captcha_texture: true,
        ..no_effects()
    }
}

/// Registration back at its first step with every field empty (the
/// questions keep their number; the captcha settings stay).
pub open spec fn register_reset(r: RegisterModel) -> RegisterModel {
    RegisterModel {
        step: 1,
        username: Seq::empty(),
        password: Seq::empty(),
        confirm_password: Seq::empty(),
        nickname: Seq::empty(),
        captcha: Seq::empty(),
        captcha_uuid: Seq::empty(),
        security_questions: all_cleared(r.security_questions),
        error: Seq::empty(),
        disclaimer_open: false,
        ..r
    }
}

/// Recovery back at its first step with every field empty.
pub open spec fn forget_reset(f: ForgetModel) -> ForgetModel {
    ForgetModel {
        step: 1,
        username: Seq::empty(),
        captcha: Seq::empty(),
        captcha_uuid: Seq::empty(),
        questions: Seq::empty(),
        new_password: Seq::empty(),
        confirm_password: Seq::empty(),
        error: Seq::empty(),
        ..f
    }
}

/// The login form after a captcha answer.
pub open spec fn login_captcha_model(l: LoginModel, r: Result<CaptchaResponse, String>) -> LoginModel {
    match r {
        Ok(c) => LoginModel { captcha_enabled: c.captcha_enabled, captcha_uuid: c.uuid@, captcha_img: c.img@, captcha_loaded: true, ..l },
        Err(m) => LoginModel { error: "验证码加载失败: "@ + m@, captcha_loaded: true, ..l },
    }
}

/// The registration form after a captcha answer.
pub open spec fn register_captcha_model(g: RegisterModel, r: Result<CaptchaResponse, String>) -> RegisterModel {
    match r {
        Ok(c) => RegisterModel { captcha_enabled: c.captcha_enabled, captcha_uuid: c.uuid@, captcha_img: c.img@, ..g },
        Err(m) => RegisterModel { error: "验证码加载失败: "@ + m@, ..g },
    }
}

/// The recovery form after a captcha answer.
pub open spec fn forget_captcha_model(f: ForgetModel, r: Result<CaptchaResponse, String>) -> ForgetModel {
    match r {
        Ok(c) => ForgetModel { captcha_enabled: c.captcha_enabled, captcha_uuid: c.uuid@, captcha_img: c.img@, ..f },
        Err(m) => ForgetModel { error: "验证码加载失败: "@ + m@, ..f },
    }
}

/// The state after a step.
pub open spec fn step_model(s: AppModel, e: AppEvent, now: u64) -> AppModel {
    match e {
        AppEvent::CaptchaLoaded(r) => AppModel { login: login_captcha_model(s.login, r), ..s },
        AppEvent::RegisterCaptchaLoaded(r) => AppModel { register: register_captcha_model(s.register, r), ..s },
        AppEvent::ForgetCaptchaLoaded(r) => AppModel { forget: forget_captcha_model(s.forget, r), ..s },
        AppEvent::RegisterDone(Ok(())) => AppModel {
            register: register_reset(RegisterModel { loading: false, ..s.register }),
            session: SessionModel { auth_page: AuthPage::Login, ..s.session },
            ..with_toast(s, "注册成功，请登录"@, ToastLevel::Success, now)
        },
        AppEvent::RegisterDone(Err(m)) => AppModel {
            register: RegisterModel { loading: false, error: m@, captcha: Seq::empty(), captcha_uuid: Seq::empty(), ..s.register },
            ..s
        },
        AppEvent::ForgetQuestionsLoaded(Ok(qs)) => AppModel {
            forget: ForgetModel { loading: false, questions: answers_cleared(questions_view(qs@)), step: 2, ..s.forget },
            ..s
        },
        AppEvent::ForgetQuestionsLoaded(Err(m)) => AppModel {
            forget: ForgetModel { loading: false, error: m@, captcha: Seq::empty(), captcha_uuid: Seq::empty(), ..s.forget },
            ..s
        },
        AppEvent::PasswordVerified(Ok(true)) => AppModel {
            account: if s.account.section == AccountEditSection::Security {
                AccountModel { loading: false, error: Seq::empty(), ..s.account }
            } else {
                AccountModel { loading: false, error: Seq::empty(), password_verify_step: 1, ..s.account }
            },
            ..s
        },
        AppEvent::PasswordVerified(Ok(false)) => AppModel { account: account_error(s.account, "旧密码不正确"@), ..s },
        AppEvent::PasswordVerified(Err(m)) => AppModel { account: account_error(s.account, "验证失败: "@ + m@), ..s },
        AppEvent::SecurityPreloaded(Ok(qs)) => AppModel {
            account: AccountModel { loading: false, security_questions: questions_view(qs@), security_verify_step: 1, ..s.account },
            ..s
        },
        AppEvent::SecurityPreloaded(Err(m)) => AppModel { account: account_error(s.account, "加载密保失败: "@ + m@), ..s },
        AppEvent::ReportSubmitted(Ok(())) => AppModel {
            reports: ReportsModel { show_dialog: false, reason: Seq::empty(), remark: Seq::empty(), ..s.reports },
            ..with_toast(s, "举报已提交，请等待审核"@, ToastLevel::Success, now)
        },
        AppEvent::ReportSubmitted(Err(m)) => with_toast(s, "提交失败: "@ + m@, ToastLevel::Error, now),
        AppEvent::ReportTimelineLoaded(Ok(())) => AppModel { reports: ReportsModel { show_timeline: true, ..s.reports }, ..s },
        AppEvent::ReportTimelineLoaded(Err(m)) => with_toast(s, "加载时间线失败: "@ + m@, ToastLevel::Error, now),
        AppEvent::ContributeUploaded(Ok(())) => AppModel {
            contribute: ContributeModel {
                subject: Seq::empty(),
                school: Seq::empty(),
                year: Seq::empty(),
                file_path: None,
                file_name: None,
                file_format: None,
                file_size: None,
                uploading: false,
            },
            session: SessionModel {
                user_stats: match s.session.user_stats {
                    Some(st) => Some(UserStats { upload_count: (st.upload_count + 1) as i64, ..st }),
                    None => None,
                },
                ..s.session
            },
            ..with_toast(s, "上传成功，等待审核"@, ToastLevel::Success, now)
        },
        AppEvent::ContributeUploaded(Err(m)) => AppModel {
            contribute: ContributeModel { uploading: false, ..s.contribute },
            ..with_toast(s, "上传失败: "@ + m@, ToastLevel::Error, now)
        },
        AppEvent::ForgetResetDone(Ok(())) => AppModel {
            forget: forget_reset(ForgetModel { loading: false, ..s.forget }),
            session: SessionModel { auth_page: AuthPage::Login, ..s.session },
            ..with_toast(s, "密码重置成功，请用新密码登录"@, ToastLevel::Success, now)
        },
        AppEvent::ForgetResetDone(Err(m)) => AppModel { forget: ForgetModel { loading: false, error: m@, ..s.forget }, ..s },
        AppEvent::LoginDone(Ok(r)) => with_toast(
            login_success_model(AppModel {
                login: LoginModel { loading: false, ..s.login },
                session: SessionModel { token: Some(r.token@), current_user: Some(r.user), ..s.session },
                ..s
            }),
            "登录成功，欢迎回来！"@,
            ToastLevel::Success,
            now,
        ),
        AppEvent::LoginDone(Err(m)) => AppModel {
            login: LoginModel {
                loading: false,
                error: m@,
                captcha: Seq::empty(),
                captcha_uuid: Seq::empty(),
                captcha_loaded: false,
                ..s.login
            },
            ..s
        },
        AppEvent::AutoLoginDone(r) => if !s.session.is_logged_in {
            s
        } else {
            match r {
                Ok((u, t)) => login_success_model(AppModel {
                    session: SessionModel { current_user: Some(u), token: Some(t@), ..s.session },
                    ..s
                }),
                Err(_) => AppModel {
                    session: SessionModel { token: None, current_user: None, is_logged_in: false, auth_page: AuthPage::Login, ..s.session },
                    ..s
                },
            }
        },
        AppEvent::AvatarUploaded(Ok(Some(u))) => AppModel {
            account: AccountModel {
                loading: false,
                success: "头像上传成功"@,
                message_ms: 3000,
                section: AccountEditSection::Blank,
                ..s.account
            },
            session: SessionModel { current_user: Some(u), ..s.session },
            ..s
        },
        AppEvent::AvatarUploaded(Ok(None)) => AppModel { account: AccountModel { loading: false, ..s.account }, ..s },
        AppEvent::AvatarUploaded(Err(m)) => AppModel { account: account_error(s.account, "头像上传失败: "@ + m@), ..s },
        AppEvent::FavoriteIdsLoaded(Ok(ids)) => AppModel {
            favorites: FavoritesModel { file_ids: ids@, ids_loaded: true, ..s.favorites },
            ..s
        },
        AppEvent::FavoriteIdsLoaded(Err(_)) => s,
        AppEvent::BookmarkFavoriteIdsLoaded(Ok(ids)) => AppModel {
            favorites: FavoritesModel { bookmark_ids: ids@, ..s.favorites },
            ..s
        },
        AppEvent::BookmarkFavoriteIdsLoaded(Err(_)) => s,
        AppEvent::BookmarkDetailLoaded(Ok(b)) => if s.session.is_logged_in {
            AppModel { favorites: FavoritesModel { selected_bookmark: Some(b), ..s.favorites }, ..s }
        } else {
            s
        },
        AppEvent::BookmarkDetailLoaded(Err(_)) => s,
        AppEvent::PdfBytesLoaded(Ok(())) => AppModel { pdf_loading: false, ..s },
        AppEvent::PdfBytesLoaded(Err(m)) => AppModel { pdf_loading: false, pdf_error: Some(m@), ..s },
    }
}

/// What a step asks of the window besides its new state.
pub open spec fn step_effects(s: AppModel, e: AppEvent) -> EffectsModel {
    match e {
        AppEvent::CaptchaLoaded(Ok(c)) => EffectsModel { decode_login_captcha: c.img@.len() > 0, ..no_effects() },
        AppEvent::RegisterCaptchaLoaded(Ok(c)) => EffectsModel { decode_register_captcha: c.img@.len() > 0, ..no_effects() },
        AppEvent::ForgetCaptchaLoaded(Ok(c)) => EffectsModel { decode_forget_captcha: c.img@.len() > 0, ..no_effects() },
        AppEvent::RegisterDone(Ok(())) => EffectsModel {
            drop_register_captcha_texture: true,
            reset_disclaimer_countdown: true,
            auth_step_target: Some(0u8),
            ..no_effects()
        },
        AppEvent::RegisterDone(Err(_)) => EffectsModel {
            drop_register_captcha_texture: true,
            load_register_captcha: true,
            ..no_effects()
        },
        AppEvent::ForgetQuestionsLoaded(Ok(_)) => EffectsModel { auth_step_target: Some(1u8), ..no_effects() },
        AppEvent::ForgetQuestionsLoaded(Err(_)) => EffectsModel {
            drop_forget_captcha_texture: true,
            load_forget_captcha: true,
            ..no_effects()
        },
        AppEvent::PasswordVerified(Ok(true)) => EffectsModel {
            preload_security: s.account.section == AccountEditSection::Security,
            ..no_effects()
        },
        AppEvent::ReportSubmitted(Ok(())) => EffectsModel { reset_my_reports: true, ..no_effects() },
        AppEvent::ReportTimelineLoaded(Ok(())) => EffectsModel { play_report_timeline: true, ..no_effects() },
        AppEvent::ContributeUploaded(Ok(())) => EffectsModel {
            load_user_stats: user_id_of(s.session.current_user) != 0,
            ..no_effects()
        },
        AppEvent::ForgetResetDone(Ok(())) => EffectsModel {
            drop_forget_captcha_texture: true,
            auth_step_target: Some(0u8),
            ..no_effects()
        },
        AppEvent::LoginDone(Ok(r)) => login_success_fx(AppModel {
            login: LoginModel { loading: false, ..s.login },
            session: SessionModel { token: Some(r.token@), current_user: Some(r.user), ..s.session },
            ..s
        }),
        AppEvent::LoginDone(Err(_)) => EffectsModel { drop_login_captcha_texture: true, ..no_effects() },
        AppEvent::AutoLoginDone(r) => if !s.session.is_logged_in {
            no_effects()
        } else {
            match r {
                Ok((u, t)) => login_success_fx(AppModel {
                    session: SessionModel { current_user: Some(u), token: Some(t@), ..s.session },
                    ..s
                }),
                Err(_) => EffectsModel { clear_credentials: true, ..no_effects() },
            }
        },
        AppEvent::AvatarUploaded(Ok(Some(u))) => EffectsModel {
            drop_avatar_texture: true,
            load_avatar: u.avatar@.len() > 0,
            ..no_effects()
        },
        AppEvent::PdfBytesLoaded(Ok(())) => EffectsModel { load_pdf_document: true, ..no_effects() },
        _ => no_effects(),
    }
}

/// The state after logging out: back to the login page with no session and
/// no favorites.
pub open spec fn logout_model(s: AppModel) -> AppModel {
    AppModel {
        session: SessionModel {
            is_logged_in: false,
            auth_page: AuthPage::Login,
            token: None,
            current_user: None,
            user_stats: None,
            ..s.session
        },
        favorites: FavoritesModel { file_ids: Seq::empty(), ids_loaded: false, ..s.favorites },
        ..s
    }
}

/// An upload of a picked paper with its details.
pub struct UploadJob {
    pub path: String,
    pub file_name: String,
    pub file_format: String,
    pub file_size: i64,
    pub subject: String,
    pub school: String,
    pub year: i64,
    pub create_by: String,
}

/// The year typed in the contribution form: its trimmed text as a number, 0
/// when that is not one.
pub open spec fn year_of(text: Seq<char>) -> i64 {
    match parsed_i64(trim_ws(text)) {
        Some(y) => y,
        None => 0,
    }
}

/// No step ever shows more than `MAX_TOASTS` toasts.
pub proof fn lemma_step_keeps_toasts_bounded(s: AppModel, e: AppEvent, now: u64)
    requires
        s.toasts.len() <= MAX_TOASTS,
    ensures
        step_model(s, e, now).toasts.len() <= MAX_TOASTS,
{
}

/// No step changes how many security questions the registration form has,
/// so the three it starts with stay three.
pub proof fn lemma_step_keeps_register_questions(s: AppModel, e: AppEvent, now: u64)
    ensures
        step_model(s, e, now).register.security_questions.len() == s.register.security_questions.len(),
{
}

/// The newest toast after a step that shows `msg` at `level`.
pub open spec fn last_toast_is(s: AppModel, msg: Seq<char>, level: ToastLevel, now: u64) -> bool {
    s.toasts.len() > 0 && s.toasts.last() == (msg, level, now, false, 0u64)
}

/// A submitted report closes the dialog, empties its fields, confirms with a
/// success toast and drops the loaded report list; a failed one keeps the
/// dialog as it was and shows the error.
pub proof fn lemma_report_submission(s: AppModel, m: String, now: u64)
    ensures
        ({
            let t = step_model(s, AppEvent::ReportSubmitted(Ok(())), now);
            &&& !t.reports.show_dialog
            &&& t.reports.reason.len() == 0
            &&& t.reports.remark.len() == 0
            &&& t.reports.page_num == s.reports.page_num
            &&& last_toast_is(t, "举报已提交，请等待审核"@, ToastLevel::Success, now)
            &&& step_effects(s, AppEvent::ReportSubmitted(Ok(()))).reset_my_reports
            &&& t.session == s.session
        }),
        ({
            let t = step_model(s, AppEvent::ReportSubmitted(Err(m)), now);
            &&& t.reports == s.reports
            &&& last_toast_is(t, "提交失败: "@ + m@, ToastLevel::Error, now)
            &&& !step_effects(s, AppEvent::ReportSubmitted(Err(m))).reset_my_reports
        }),
{
}

/// A successful login enters the app at Home with the token and user it
/// brought, the login form emptied, and a welcome toast; a failed one stays
/// logged out as before and shows the error with a fresh captcha.
pub proof fn lemma_login_outcome(s: AppModel, r: LoginResult, m: String, now: u64)
    ensures
        ({
            let t = step_model(s, AppEvent::LoginDone(Ok(r)), now);
            &&& t.session.is_logged_in
            &&& t.session.token == Some(r.token@)
            &&& t.session.current_user == Some(r.user)
            &&& t.session.nav == NavState { section: Section::Home, subsection: Subsection::Blank }
            &&& !t.login.loading
            &&& t.login.username.len() == 0 && t.login.password.len() == 0 && t.login.error.len() == 0
            &&& last_toast_is(t, "登录成功，欢迎回来！"@, ToastLevel::Success, now)
        }),
        ({
            let fx = step_effects(s, AppEvent::LoginDone(Ok(r)));
            &&& fx.enter_home && fx.load_recent_files
            &&& (s.login.remember ==> fx.save_credentials == Some((r.token@, s.login.username, true)) && !fx.clear_credentials)
            &&& (!s.login.remember ==> fx.save_credentials is None && fx.clear_credentials)
            &&& fx.load_user_stats == (r.user.user_id != 0)
        }),
        ({
            let t = step_model(s, AppEvent::LoginDone(Err(m)), now);
            &&& t.session == s.session
            &&& !t.login.loading
            &&& t.login.error == m@
            &&& t.login.captcha.len() == 0 && t.login.captcha_uuid.len() == 0 && !t.login.captcha_loaded
            &&& t.toasts == s.toasts
        }),
{
}

/// Checking a saved session: while logged in, a valid token enters the app
/// and a rejected one logs out and removes the saved credentials; a check
/// arriving after logout changes nothing.
pub proof fn lemma_auto_login_outcome(s: AppModel, u: UserInfo, tok: String, m: String, now: u64)
    ensures
        s.session.is_logged_in ==> ({
            let t = step_model(s, AppEvent::AutoLoginDone(Ok((u, tok))), now);
            &&& t.session.is_logged_in && t.session.current_user == Some(u) && t.session.token == Some(tok@)
            &&& t.session.nav.section == Section::Home
            &&& t.toasts == s.toasts
        }),
        s.session.is_logged_in ==> ({
            let t = step_model(s, AppEvent::AutoLoginDone(Err(m)), now);
            &&& !t.session.is_logged_in && t.session.token is None && t.session.current_user is None
            &&& t.session.auth_page == AuthPage::Login
            &&& step_effects(s, AppEvent::AutoLoginDone(Err(m))).clear_credentials
        }),
        !s.session.is_logged_in ==> step_model(s, AppEvent::AutoLoginDone(Ok((u, tok))), now) == s
            && step_model(s, AppEvent::AutoLoginDone(Err(m)), now) == s,
{
}

/// A completed registration or password reset returns to the login page
/// with its flow back at the first step and a success toast; a failure
/// keeps the page and step and shows the error.
pub proof fn lemma_auth_flows(s: AppModel, m: String, now: u64)
    ensures
        ({
            let t = step_model(s, AppEvent::RegisterDone(Ok(())), now);
            &&& t.session.auth_page == AuthPage::Login
            &&& t.register.step == 1 && !t.register.loading && t.register.username.len() == 0
            &&& t.register.password.len() == 0 && t.register.error.len() == 0
            &&& t.register.security_questions.len() == s.register.security_questions.len()
            &&& (forall|i: int| 0 <= i < t.register.security_questions.len() ==>
                (#[trigger] t.register.security_questions[i]).0.len() == 0 && t.register.security_questions[i].1.len() == 0)
            &&& last_toast_is(t, "注册成功，请登录"@, ToastLevel::Success, now)
        }),
        ({
            let t = step_model(s, AppEvent::RegisterDone(Err(m)), now);
            &&& t.session.auth_page == s.session.auth_page && t.register.step == s.register.step
            &&& t.register.error == m@ && !t.register.loading
            &&& step_effects(s, AppEvent::RegisterDone(Err(m))).load_register_captcha
        }),
        ({
            let t = step_model(s, AppEvent::ForgetResetDone(Ok(())), now);
            &&& t.session.auth_page == AuthPage::Login
            &&& t.forget.step == 1 && !t.forget.loading && t.forget.questions.len() == 0
            &&& t.forget.new_password.len() == 0 && t.forget.confirm_password.len() == 0
            &&& last_toast_is(t, "密码重置成功，请用新密码登录"@, ToastLevel::Success, now)
        }),
        ({
            let t = step_model(s, AppEvent::ForgetResetDone(Err(m)), now);
            &&& t.session == s.session && t.forget.step == s.forget.step
            &&& t.forget.error == m@ && !t.forget.loading
        }),
{
}

/// Security questions for recovery arrive with their texts and without
/// answers, and move the flow to the answering step.
pub proof fn lemma_forget_questions(s: AppModel, qs: Vec<SecurityQuestion>, now: u64)
    ensures
        ({
            let t = step_model(s, AppEvent::ForgetQuestionsLoaded(Ok(qs)), now);
            &&& t.forget.step == 2 && !t.forget.loading
            &&& t.forget.questions.len() == qs@.len()
            &&& (forall|i: int| 0 <= i < qs@.len() ==> (#[trigger] t.forget.questions[i]).0 == qs@[i].question@
                && t.forget.questions[i].1.len() == 0)
        }),
{
    let t = step_model(s, AppEvent::ForgetQuestionsLoaded(Ok(qs)), now);
    assert forall|i: int| 0 <= i < qs@.len() implies (#[trigger] t.forget.questions[i]).0 == qs@[i].question@
        && t.forget.questions[i].1.len() == 0 by {
        assert(questions_view(qs@)[i] == (qs@[i].question@, qs@[i].answer@));
    }
}

/// A finished upload empties the form, stops the upload, counts one more
/// upload and confirms with a toast; a failed one keeps the form.
pub proof fn lemma_upload_outcome(s: AppModel, m: String, now: u64)
    ensures
        ({
            let t = step_model(s, AppEvent::ContributeUploaded(Ok(())), now);
            &&& !t.contribute.uploading
            &&& t.contribute.subject.len() == 0 && t.contribute.school.len() == 0 && t.contribute.year.len() == 0
            &&& t.contribute.file_path is None
            &&& (s.session.user_stats matches Some(st) ==> (t.session.user_stats matches Some(nt)
                && (st.upload_count < i64::MAX ==> nt.upload_count == st.upload_count + 1)
                && nt.favorite_count == st.favorite_count
                && nt.download_count == st.download_count))
            &&& (s.session.user_stats is None ==> t.session.user_stats is None)
            &&& last_toast_is(t, "上传成功，等待审核"@, ToastLevel::Success, now)
        }),
        ({
            let t = step_model(s, AppEvent::ContributeUploaded(Err(m)), now);
            &&& !t.contribute.uploading
            &&& t.contribute.subject == s.contribute.subject && t.contribute.file_path == s.contribute.file_path
            &&& last_toast_is(t, "上传失败: "@ + m@, ToastLevel::Error, now)
        }),
{
}

/// Account checks: a wrong old password or a failed request shows an error
/// for 3 s; a right one moves on (to loading the questions when editing them).
pub proof fn lemma_password_check(s: AppModel, m: String, now: u64)
    ensures
        ({
            let t = step_model(s, AppEvent::PasswordVerified(Ok(false)), now);
            &&& t.account.error == "旧密码不正确"@ && t.account.message_ms == 3000 && !t.account.loading
            &&& t.account.password_verify_step == s.account.password_verify_step
        }),
        ({
            let t = step_model(s, AppEvent::PasswordVerified(Ok(true)), now);
            &&& t.account.error.len() == 0 && !t.account.loading
            &&& (s.account.section == AccountEditSection::Security ==>
                step_effects(s, AppEvent::PasswordVerified(Ok(true))).preload_security)
            &&& (s.account.section != AccountEditSection::Security ==> t.account.password_verify_step == 1)
        }),
        ({
            let t = step_model(s, AppEvent::PasswordVerified(Err(m)), now);
            &&& t.account.error == "验证失败: "@ + m@ && t.account.message_ms == 3000
        }),
{
}

/// Logging out always ends logged out on the login page, without token,
/// user, statistics or favorites.
pub proof fn lemma_logout(s: AppModel)
    ensures
        ({
            let t = logout_model(s);
            &&& !t.session.is_logged_in && t.session.auth_page == AuthPage::Login
            &&& t.session.token is None && t.session.current_user is None && t.session.user_stats is None
            &&& t.favorites.file_ids.len() == 0 && !t.favorites.ids_loaded
        }),
{
}

/// Saved settings mirror the settings page exactly when every setting
/// agrees, the download directory included.
pub proof fn lemma_mirror_means_equal(saved: Settings, ui: UiSettings)
    ensures
        settings_view(saved) == mirrored(ui) <==> (saved.theme_mode == ui.theme_mode && saved.accent_idx == ui.accent_idx
            && saved.setting_auto_launch == ui.setting_auto_launch
            && saved.setting_silent_download == ui.setting_silent_download
            && saved.pdf_view_mode == ui.pdf_view_mode && saved.pdf_scale_pct == ui.pdf_scale_pct
            && (saved.download_dir matches Some(d) && d@ == ui.download_dir@)),
{
}

/// A step can be taken: a successful upload does not push the upload count
/// past the largest `i64`.
pub open spec fn step_allowed(s: AppModel, e: AppEvent) -> bool {
    match e {
        AppEvent::ContributeUploaded(Ok(())) => match s.session.user_stats {
            Some(st) => st.upload_count < i64::MAX,
            None => true,
        },
        _ => true,
    }
}

/// The state after `elapsed` milliseconds of the account message: once its
/// time is up the error and success texts are cleared.
pub open spec fn tick_model(a: AccountModel, elapsed: u32) -> AccountModel {
    if a.message_ms == 0 {
        a
    } else if elapsed >= a.message_ms {
        AccountModel { message_ms: 0, error: Seq::empty(), success: Seq::empty(), ..a }
    } else {
        AccountModel { message_ms: (a.message_ms - elapsed) as u32, ..a }
    }
}

fn text(lit: &str) -> (r: String)
    ensures
        r@ == lit@,
{
    lit.to_string()
}

fn prefixed(prefix: &str, m: &str) -> (r: String)
    ensures
        r@ == prefix@ + m@,
{
    let mut s = prefix.to_string();
    s.append(m);
    s
}

fn clear_answers(qs: &Vec<SecurityQuestion>) -> (r: Vec<SecurityQuestion>)
    ensures
        questions_view(r@) == answers_cleared(questions_view(qs@)),
{
    let mut out: Vec<SecurityQuestion> = Vec::new();
    let mut i: usize = 0;
    while i < qs.len()
        invariant
            i <= qs.len(),
            out@.len() == i,
            forall|k: int| 0 <= k < i ==> (#[trigger] out@[k]).question@ == qs@[k].question@
                && out@[k].answer@ == Seq::<char>::empty(),
        decreases qs.len() - i,
    {
        out.push(SecurityQuestion { question: qs[i].question.clone(), answer: String::new() });
        i = i + 1;
    }
    assert(questions_view(out@) =~= answers_cleared(questions_view(qs@)));
    out
}

fn blank_like(qs: &Vec<SecurityQuestion>) -> (r: Vec<SecurityQuestion>)
    ensures
        questions_view(r@) == all_cleared(questions_view(qs@)),
{
    let mut out: Vec<SecurityQuestion> = Vec::new();
    let mut i: usize = 0;
    while i < qs.len()
        invariant
            i <= qs.len(),
            out@.len() == i,
            forall|k: int| 0 <= k < i ==> (#[trigger] out@[k]).question@ == Seq::<char>::empty()
                && out@[k].answer@ == Seq::<char>::empty(),
        decreases qs.len() - i,
    {
        out.push(blank_question());
        i = i + 1;
    }
    assert(questions_view(out@) =~= all_cleared(questions_view(qs@)));
    out
}

impl LoginForm {
    fn on_captcha(&mut self, r: Result<CaptchaResponse, String>) -> (decode: bool)
        ensures
            final(self)@ == login_captcha_model(old(self)@, r),
            decode == (match r { Ok(c) => c.img@.len() > 0, Err(_) => false }),
    {
        match r {
            Ok(c) => {
                    let decode = !c.img.as_str().is_empty();
                    self.captcha_enabled = c.captcha_enabled;
                    self.captcha_uuid = c.uuid;
                    self.captcha_img = c.img;
                    self.captcha_loaded = true;
                    decode
            },
            Err(m) => {
                    self.error = prefixed("验证码加载失败: ", m.as_str());
                    self.captcha_loaded = true;
                    false
            },
        }
    }
}

impl RegisterForm {
    fn on_captcha(&mut self, r: Result<CaptchaResponse, String>) -> (decode: bool)
        ensures
            final(self)@ == register_captcha_model(old(self)@, r),
            decode == (match r { Ok(c) => c.img@.len() > 0, Err(_) => false }),
    {
        match r {
            Ok(c) => {
                    let decode = !c.img.as_str().is_empty();
                    self.captcha_enabled = c.captcha_enabled;
                    self.captcha_uuid = c.uuid;
                    self.captcha_img = c.img;
                    decode
            },
            Err(m) => {
                    self.error = prefixed("验证码加载失败: ", m.as_str());
                    false
            },
        }
    }

    fn reset(&mut self)
        ensures
            final(self)@ == register_reset(old(self)@),
    {
        self.step = 1;
        self.username = String::new();
        self.password = String::new();
        self.confirm_password = String::new();
        self.nickname = String::new();
        self.captcha = String::new();
        self.captcha_uuid = String::new();
        self.security_questions = blank_like(&self.security_questions);
        self.error = String::new();
        self.disclaimer_open = false;
    }
}

impl ForgetForm {
    fn on_captcha(&mut self, r: Result<CaptchaResponse, String>) -> (decode: bool)
        ensures
            final(self)@ == forget_captcha_model(old(self)@, r),
            decode == (match r { Ok(c) => c.img@.len() > 0, Err(_) => false }),
    {
        match r {
            Ok(c) => {
                    let decode = !c.img.as_str().is_empty();
                    self.captcha_enabled = c.captcha_enabled;
                    self.captcha_uuid = c.uuid;
                    self.captcha_img = c.img;
                    decode
            },
            Err(m) => {
                    self.error = prefixed("验证码加载失败: ", m.as_str());
                    false
            },
        }
    }

    fn reset(&mut self)
        ensures
            final(self)@ == forget_reset(old(self)@),
    {
        self.step = 1;
        self.username = String::new();
        self.captcha = String::new();
        self.captcha_uuid = String::new();
        self.questions = Vec::new();
        self.new_password = String::new();
        self.confirm_password = String::new();
        self.error = String::new();
        proof { assert(questions_view(self.questions@) =~= Seq::empty()); }
    }
}

impl AccountEdit {
    fn fail(&mut self, msg: String)
        ensures
            final(self)@ == account_error(old(self)@, msg@),
    {
        self.loading = false;
        self.error = msg;
        self.message_ms = 3000;
    }

    /// Let `elapsed_ms` pass for the message: once its time is up the error
    /// and success texts are cleared.
    pub fn tick(&mut self, elapsed_ms: u32)
        ensures
            final(self)@ == tick_model(old(self)@, elapsed_ms),
    {
        if self.message_ms > 0 {
            if elapsed_ms >= self.message_ms {
                self.message_ms = 0;
                self.error = String::new();
                self.success = String::new();
            } else {
                self.message_ms = self.message_ms - elapsed_ms;
            }
        }
    }
}

impl AppState {
    fn push_toast(&mut self, msg: String, level: ToastLevel, now: u64)
        ensures
            final(self)@ == with_toast(old(self)@, msg@, level, now),
    {
        let t = AnimatedToast::new(msg, level, now);
        let ghost before = self.toasts@;
        add_toast(&mut self.toasts, t);
        proof {
            assert(toasts_model(before.push(t)) =~= toasts_model(before).push(toast_model(t)));
            if before.len() + 1 > MAX_TOASTS {
                assert(toasts_model(before.push(t).drop_first()) =~= toasts_model(before.push(t)).drop_first());
            }
        }
    }

    fn login_success(&mut self) -> (fx: AppEffects)
        ensures
            final(self)@ == login_success_model(old(self)@),
            fx@ == login_success_fx(old(self)@),
    {
        let mut fx = nothing();
        fx.enter_home = true;
        if self.login.remember {
            match &self.session.token {
                Some(t) => {
                    fx.save_credentials = Some(SavedCredentials {
                        token: t.clone(),
                        username: self.login.username.clone(),
                        remember_me: true,
                    });
                },
                None => {},
            }
        } else {
            fx.clear_credentials = true;
        }
        self.session.is_logged_in = true;
        self.session.nav = NavState::new();
        self.login.username = String::new();
        self.login.password = String::new();
        self.login.captcha = String::new();
        self.login.captcha_uuid = String::new();
        self.login.captcha_img = String::new();
        fx.drop_login_captcha_texture = true;
        self.login.error = String::new();
        self.login.captcha_loaded = false;
        let (uid, has_avatar) = match &self.session.current_user {
            Some(u) => (u.user_id, !u.avatar.as_str().is_empty()),
            None => (0, false),
        };
        fx.load_user_stats = uid != 0;
        fx.load_recent_files = true;
        fx.load_favorite_ids = uid != 0;
        fx.load_bookmark_favorite_ids = uid != 0;
        fx.load_avatar = has_avatar;
        fx
    }

    fn on_register_done(&mut self, r: Result<(), String>, now_ms: u64) -> (fx: AppEffects)
        ensures
            final(self)@ == step_model(old(self)@, AppEvent::RegisterDone(r), now_ms),
            fx@ == step_effects(old(self)@, AppEvent::RegisterDone(r)),
    {
        let mut fx = nothing();
        match r {
            Ok(()) => {
                self.register.loading = false;
                self.push_toast(text("注册成功，请登录"), ToastLevel::Success, now_ms);
                self.register.reset();
                fx.drop_register_captcha_texture = true;
                fx.reset_disclaimer_countdown = true;
                fx.auth_step_target = Some(0);
                self.session.auth_page = AuthPage::Login;
            },
            Err(m) => {
                self.register.loading = false;
                self.register.error = m;
                self.register.captcha = String::new();
                self.register.captcha_uuid = String::new();
                fx.drop_register_captcha_texture = true;
                fx.load_register_captcha = true;
            },
        }
        fx
    }

    fn on_forget_questions_loaded(&mut self, r: Result<Vec<SecurityQuestion>, String>, now_ms: u64) -> (fx: AppEffects)
        ensures
            final(self)@ == step_model(old(self)@, AppEvent::ForgetQuestionsLoaded(r), now_ms),
            fx@ == step_effects(old(self)@, AppEvent::ForgetQuestionsLoaded(r)),
    {
        let mut fx = nothing();
        match r {
            Ok(qs) => {
                self.forget.loading = false;
                self.forget.questions = clear_answers(&qs);
                self.forget.step = 2;
                fx.auth_step_target = Some(1);
            },
            Err(m) => {
                self.forget.loading = false;
                self.forget.error = m;
                self.forget.captcha = String::new();
                self.forget.captcha_uuid = String::new();
                fx.drop_forget_captcha_texture = true;
                fx.load_forget_captcha = true;
            },
        }
        fx
    }

    fn on_password_verified(&mut self, r: Result<bool, String>, now_ms: u64) -> (fx: AppEffects)
        ensures
            final(self)@ == step_model(old(self)@, AppEvent::PasswordVerified(r), now_ms),
            fx@ == step_effects(old(self)@, AppEvent::PasswordVerified(r)),
    {
        let mut fx = nothing();
        match r {
            Ok(ok) => {
                if ok {
                    self.account.loading = false;
                    self.account.error = String::new();
                    if self.account.section == AccountEditSection::Security {
                        fx.preload_security = true;
                    } else {
                        self.account.password_verify_step = 1;
                    }
                } else {
                    self.account.fail(text("旧密码不正确"));
                }
            },
            Err(m) => {
                self.account.fail(prefixed("验证失败: ", m.as_str()));
            },
        }
        fx
    }

    fn on_security_preloaded(&mut self, r: Result<Vec<SecurityQuestion>, String>, now_ms: u64) -> (fx: AppEffects)
        ensures
            final(self)@ == step_model(old(self)@, AppEvent::SecurityPreloaded(r), now_ms),
            fx@ == step_effects(old(self)@, AppEvent::SecurityPreloaded(r)),
    {
        let mut fx = nothing();
        match r {
            Ok(qs) => {
                self.account.loading = false;
                self.account.security_questions = qs;
                self.account.security_verify_step = 1;
            },
            Err(m) => {
                self.account.fail(prefixed("加载密保失败: ", m.as_str()));
            },
        }
        fx
    }

    fn on_report_submitted(&mut self, r: Result<(), String>, now_ms: u64) -> (fx: AppEffects)
        ensures
            final(self)@ == step_model(old(self)@, AppEvent::ReportSubmitted(r), now_ms),
            fx@ == step_effects(old(self)@, AppEvent::ReportSubmitted(r)),
    {
        let mut fx = nothing();
        match r {
            Ok(()) => {
                self.push_toast(text("举报已提交，请等待审核"), ToastLevel::Success, now_ms);
                self.reports.show_dialog = false;
                self.reports.reason = String::new();
                self.reports.remark = String::new();
                fx.reset_my_reports = true;
            },
            Err(m) => {
                self.push_toast(prefixed("提交失败: ", m.as_str()), ToastLevel::Error, now_ms);
            },
        }
        fx
    }

    fn on_report_timeline_loaded(&mut self, r: Result<(), String>, now_ms: u64) -> (fx: AppEffects)
        ensures
            final(self)@ == step_model(old(self)@, AppEvent::ReportTimelineLoaded(r), now_ms),
            fx@ == step_effects(old(self)@, AppEvent::ReportTimelineLoaded(r)),
    {
        let mut fx = nothing();
        match r {
            Ok(()) => {
                self.reports.show_timeline = true;
                fx.play_report_timeline = true;
            },
            Err(m) => {
                self.push_toast(prefixed("加载时间线失败: ", m.as_str()), ToastLevel::Error, now_ms);
            },
        }
        fx
    }

    fn on_contribute_uploaded(&mut self, r: Result<(), String>, now_ms: u64) -> (fx: AppEffects)
        requires
            step_allowed(old(self)@, AppEvent::ContributeUploaded(r)),
        ensures
            final(self)@ == step_model(old(self)@, AppEvent::ContributeUploaded(r), now_ms),
            fx@ == step_effects(old(self)@, AppEvent::ContributeUploaded(r)),
    {
        let mut fx = nothing();
        match r {
            Ok(()) => {
                self.push_toast(text("上传成功，等待审核"), ToastLevel::Success, now_ms);
                self.contribute = ContributeForm {
                    subject: String::new(),
                    school: String::new(),
                    year: String::new(),
                    file_path: None,
                    file_name: None,
                    file_format: None,
                    file_size: None,
                    uploading: false,
                };
                match &self.session.user_stats {
                    Some(st) => {
                        self.session.user_stats = Some(UserStats {
                            favorite_count: st.favorite_count,
                            download_count: st.download_count,
                            upload_count: st.upload_count + 1,
                        });
                    },
                    None => {},
                }
                fx.load_user_stats = match &self.session.current_user {
                    Some(u) => u.user_id != 0,
                    None => false,
                };
            },
            Err(m) => {
                self.contribute.uploading = false;
                self.push_toast(prefixed("上传失败: ", m.as_str()), ToastLevel::Error, now_ms);
            },
        }
        fx
    }

    fn on_forget_reset_done(&mut self, r: Result<(), String>, now_ms: u64) -> (fx: AppEffects)
        ensures
            final(self)@ == step_model(old(self)@, AppEvent::ForgetResetDone(r), now_ms),
            fx@ == step_effects(old(self)@, AppEvent::ForgetResetDone(r)),
    {
        let mut fx = nothing();
        match r {
            Ok(()) => {
                self.forget.loading = false;
                self.push_toast(text("密码重置成功，请用新密码登录"), ToastLevel::Success, now_ms);
                self.forget.reset();
                fx.drop_forget_captcha_texture = true;
                fx.auth_step_target = Some(0);
                self.session.auth_page = AuthPage::Login;
            },
            Err(m) => {
                self.forget.loading = false;
                self.forget.error = m;
            },
        }
        fx
    }

    fn on_login_done(&mut self, r: Result<LoginResult, String>, now_ms: u64) -> (fx: AppEffects)
        ensures
            final(self)@ == step_model(old(self)@, AppEvent::LoginDone(r), now_ms),
            fx@ == step_effects(old(self)@, AppEvent::LoginDone(r)),
    {
        let mut fx = nothing();
        match r {
            Ok(r) => {
                self.login.loading = false;
                self.session.token = Some(r.token);
                self.session.current_user = Some(r.user);
                fx = self.login_success();
                self.push_toast(text("登录成功，欢迎回来！"), ToastLevel::Success, now_ms);
            },
            Err(m) => {
                self.login.loading = false;
                self.login.error = m;
                self.login.captcha = String::new();
                self.login.captcha_uuid = String::new();
                self.login.captcha_loaded = false;
                fx.drop_login_captcha_texture = true;
            },
        }
        fx
    }

    fn on_avatar_uploaded(&mut self, r: Result<Option<UserInfo>, String>, now_ms: u64) -> (fx: AppEffects)
        ensures
            final(self)@ == step_model(old(self)@, AppEvent::AvatarUploaded(r), now_ms),
            fx@ == step_effects(old(self)@, AppEvent::AvatarUploaded(r)),
    {
        let mut fx = nothing();
        match r {
            Ok(Some(u)) => {
                self.account.loading = false;
                fx.drop_avatar_texture = true;
                fx.load_avatar = !u.avatar.as_str().is_empty();
                self.session.current_user = Some(u);
                self.account.success = text("头像上传成功");
                self.account.message_ms = 3000;
                self.account.section = AccountEditSection::Blank;
            },
            Ok(None) => {
                self.account.loading = false;
            },
            Err(m) => {
                self.account.fail(prefixed("头像上传失败: ", m.as_str()));
            },
        }
        fx
    }

    fn on_favorite_ids_loaded(&mut self, r: Result<Vec<i64>, String>, now_ms: u64) -> (fx: AppEffects)
        ensures
            final(self)@ == step_model(old(self)@, AppEvent::FavoriteIdsLoaded(r), now_ms),
            fx@ == step_effects(old(self)@, AppEvent::FavoriteIdsLoaded(r)),
    {
        let mut fx = nothing();
        match r {
            Ok(ids) => {
                self.favorites.file_ids = ids;
                self.favorites.ids_loaded = true;
            },
            Err(_) => {

            },
        }
        fx
    }

    fn on_bookmark_favorite_ids_loaded(&mut self, r: Result<Vec<i64>, String>, now_ms: u64) -> (fx: AppEffects)
        ensures
            final(self)@ == step_model(old(self)@, AppEvent::BookmarkFavoriteIdsLoaded(r), now_ms),
            fx@ == step_effects(old(self)@, AppEvent::BookmarkFavoriteIdsLoaded(r)),
    {
        let mut fx = nothing();
        match r {
            Ok(ids) => {
                self.favorites.bookmark_ids = ids;
            },
            Err(_) => {

            },
        }
        fx
    }

    fn on_bookmark_detail_loaded(&mut self, r: Result<Bookmark, String>, now_ms: u64) -> (fx: AppEffects)
        ensures
            final(self)@ == step_model(old(self)@, AppEvent::BookmarkDetailLoaded(r), now_ms),
            fx@ == step_effects(old(self)@, AppEvent::BookmarkDetailLoaded(r)),
    {
        let mut fx = nothing();
        match r {
            Ok(b) => {
                if self.session.is_logged_in {
                    self.favorites.selected_bookmark = Some(b);
                }
            },
            Err(_) => {

            },
        }
        fx
    }

    fn on_pdf_bytes_loaded(&mut self, r: Result<(), String>, now_ms: u64) -> (fx: AppEffects)
        ensures
            final(self)@ == step_model(old(self)@, AppEvent::PdfBytesLoaded(r), now_ms),
            fx@ == step_effects(old(self)@, AppEvent::PdfBytesLoaded(r)),
    {
        let mut fx = nothing();
        match r {
            Ok(()) => {
                self.pdf_loading = false;
                fx.load_pdf_document = true;
            },
            Err(m) => {
                self.pdf_loading = false;
                self.pdf_error = Some(m);
            },
        }
        fx
    }

    /// Start logging in, unless a login is running: the form turns to
    /// loading with its error cleared, and the request to send is returned.
    pub fn begin_login(&mut self) -> (r: Option<LoginRequest>)
        ensures
            old(self).login.loading ==> r is None && final(self)@ == old(self)@,
            !old(self).login.loading ==> final(self)@ == (AppModel {
                login: LoginModel { loading: true, error: Seq::empty(), ..old(self)@.login },
                ..old(self)@
            }),
            !old(self).login.loading ==> (r matches Some(req) && req.username@ == old(self).login.username@
                && req.password@ == old(self).login.password@
                && opt_seq(req.code) == captcha_field(old(self).login.captcha_enabled, old(self).login.captcha@)
                && opt_seq(req.uuid) == captcha_field(old(self).login.captcha_enabled, old(self).login.captcha_uuid@)),
    {
        if self.login.loading {
            return None;
        }
        self.login.loading = true;
        self.login.error = String::new();
        Some(login_request(
            self.login.username.as_str(),
            self.login.password.as_str(),
            self.login.captcha_enabled,
            self.login.captcha.as_str(),
            self.login.captcha_uuid.as_str(),
        ))
    }

    /// Start registering, unless a registration is running: the form turns
    /// to loading with its error cleared, and the request is returned (the
    /// nickname defaults to the user name, questions and answers are trimmed).
    pub fn begin_register(&mut self) -> (r: Option<RegisterRequest>)
        requires
            old(self).register.security_questions@.len() >= 3,
        ensures
            old(self).register.loading ==> r is None && final(self)@ == old(self)@,
            !old(self).register.loading ==> final(self)@ == (AppModel {
                register: RegisterModel { loading: true, error: Seq::empty(), ..old(self)@.register },
                ..old(self)@
            }),
            !old(self).register.loading ==> (r matches Some(req)
                && req.username@ == old(self).register.username@
                && req.password@ == old(self).register.password@
                && req.nickname@ == (if old(self).register.nickname@.len() == 0 {
                    old(self).register.username@
                } else {
                    old(self).register.nickname@
                })
                && opt_seq(req.code) == captcha_field(old(self).register.captcha_enabled, old(self).register.captcha@)
                && opt_seq(req.uuid) == captcha_field(old(self).register.captcha_enabled, old(self).register.captcha_uuid@)
                && questions_view(req.security_questions@) == Seq::new(3, |i: int|
                    (trim_ws(old(self).register.security_questions@[i].question@),
                        trim_ws(old(self).register.security_questions@[i].answer@)))),
    {
        if self.register.loading {
            return None;
        }
        let req = register_request(
            self.register.username.as_str(),
            self.register.password.as_str(),
            self.register.nickname.as_str(),
            self.register.captcha_enabled,
            self.register.captcha.as_str(),
            self.register.captcha_uuid.as_str(),
            self.register.security_questions.as_slice(),
        );
        self.register.loading = true;
        self.register.error = String::new();
        Some(req)
    }

    /// Ask for the security questions of the typed user name, unless a
    /// request is running: the form turns to loading with its error cleared.
    pub fn begin_forget_questions(&mut self) -> (r: Option<String>)
        ensures
            old(self).forget.loading ==> r is None && final(self)@ == old(self)@,
            !old(self).forget.loading ==> final(self)@ == (AppModel {
                forget: ForgetModel { loading: true, error: Seq::empty(), ..old(self)@.forget },
                ..old(self)@
            }),
            !old(self).forget.loading ==> (r matches Some(u) && u@ == old(self).forget.username@),
    {
        if self.forget.loading {
            return None;
        }
        self.forget.loading = true;
        self.forget.error = String::new();
        Some(self.forget.username.clone())
    }

    /// Start uploading the picked paper, unless an upload is running. Without
    /// a picked file an error toast is shown instead. The job carries the
    /// file's details (format `pdf` and size 0 when unknown), the form's
    /// subject and school, its year as a number (0 when it is not one) and the
    /// current user's name.
    pub fn begin_contribute_upload(&mut self, now_ms: u64) -> (r: Option<UploadJob>)
        ensures
            old(self).contribute.uploading ==> r is None && final(self)@ == old(self)@,
            !old(self).contribute.uploading && !(old(self)@.contribute.file_path matches Some(p) && p.len() > 0) ==> (
                r is None && final(self)@ == with_toast(old(self)@, "请先选择文件"@, ToastLevel::Error, now_ms)),
            !old(self).contribute.uploading && (old(self)@.contribute.file_path matches Some(p) && p.len() > 0) ==> (
                final(self)@ == (AppModel {
                    contribute: ContributeModel { uploading: true, ..old(self)@.contribute },
                    ..old(self)@
                })
                && (r matches Some(job)
                && Some(job.path@) == old(self)@.contribute.file_path
                && job.file_name@ == (match old(self)@.contribute.file_name { Some(n) => n, None => Seq::empty() })
                && job.file_format@ == (match old(self)@.contribute.file_format { Some(f) => f, None => "pdf"@ })
                && job.file_size == (match old(self).contribute.file_size { Some(z) => z as i64, None => 0i64 })
                && job.subject@ == old(self).contribute.subject@
                && job.school@ == old(self).contribute.school@
                && job.year == year_of(old(self).contribute.year@)
                && job.create_by@ == (match old(self).session.current_user { Some(u) => u.user_name@, None => Seq::empty() }))),
    {
        if self.contribute.uploading {
            return None;
        }
        let path = match &self.contribute.file_path {
            Some(p) => {
                if p.as_str().is_empty() {
                    None
                } else {
                    Some(p.clone())
                }
            },
            None => None,
        };
        match path {
            None => {
                self.push_toast(text("请先选择文件"), ToastLevel::Error, now_ms);
                None
            },
            Some(path) => {
                let file_name = match &self.contribute.file_name {
                    Some(n) => n.clone(),
                    None => String::new(),
                };
                let file_format = match &self.contribute.file_format {
                    Some(f) => f.clone(),
                    None => text("pdf"),
                };
                let file_size: i64 = match self.contribute.file_size {
                    Some(z) => z as i64,
                    None => 0,
                };
                let year_text = string_from_chars(trim_whitespace(chars_of(self.contribute.year.as_str()).as_slice()).as_slice());
                let year: i64 = match parse_i64(year_text.as_str()) {
                    Some(y) => y,
                    None => 0,
                };
                let create_by = match &self.session.current_user {
                    Some(u) => u.user_name.clone(),
                    None => String::new(),
                };
                self.contribute.uploading = true;
                Some(UploadJob {
                    path,
                    file_name,
                    file_format,
                    file_size,
                    subject: self.contribute.subject.clone(),
                    school: self.contribute.school.clone(),
                    year,
                    create_by,
                })
            },
        }
    }

    /// Log out: the session and the favorites are dropped, the saved
    /// credentials removed, and the window goes back to the login page.
    pub fn logout(&mut self) -> (fx: AppEffects)
        ensures
            final(self)@ == logout_model(old(self)@),
            fx@ == (EffectsModel { clear_credentials: true, drop_avatar_texture: true, drop_session_data: true, ..no_effects() }),
    {
        self.session.is_logged_in = false;
        self.session.auth_page = AuthPage::Login;
        self.session.token = None;
        self.session.current_user = None;
        self.session.user_stats = None;
        self.favorites.file_ids = Vec::new();
        self.favorites.ids_loaded = false;
        let mut fx = nothing();
        fx.clear_credentials = true;
        fx.drop_avatar_texture = true;
        fx.drop_session_data = true;
        fx
    }

    /// Take in a finished background request: the new state is `step_model`
    /// of the old one and the returned effects are `step_effects`; toasts are
    /// stamped with `now_ms`.
    pub fn app_step(&mut self, event: AppEvent, now_ms: u64) -> (fx: AppEffects)
        requires
            step_allowed(old(self)@, event),
        ensures
            final(self)@ == step_model(old(self)@, event, now_ms),
            fx@ == step_effects(old(self)@, event),
    {
        match event {
            AppEvent::CaptchaLoaded(r) => {
                let mut fx = nothing();
                fx.decode_login_captcha = self.login.on_captcha(r);
                fx
            },
            AppEvent::RegisterCaptchaLoaded(r) => {
                let mut fx = nothing();
                fx.decode_register_captcha = self.register.on_captcha(r);
                fx
            },
            AppEvent::ForgetCaptchaLoaded(r) => {
                let mut fx = nothing();
                fx.decode_forget_captcha = self.forget.on_captcha(r);
                fx
            },
            AppEvent::RegisterDone(r) => self.on_register_done(r, now_ms),
            AppEvent::ForgetQuestionsLoaded(r) => self.on_forget_questions_loaded(r, now_ms),
            AppEvent::PasswordVerified(r) => self.on_password_verified(r, now_ms),
            AppEvent::SecurityPreloaded(r) => self.on_security_preloaded(r, now_ms),
            AppEvent::ReportSubmitted(r) => self.on_report_submitted(r, now_ms),
            AppEvent::ReportTimelineLoaded(r) => self.on_report_timeline_loaded(r, now_ms),
            AppEvent::ContributeUploaded(r) => self.on_contribute_uploaded(r, now_ms),
            AppEvent::ForgetResetDone(r) => self.on_forget_reset_done(r, now_ms),
            AppEvent::LoginDone(r) => self.on_login_done(r, now_ms),
            AppEvent::AutoLoginDone(r) => {
                let mut fx = nothing();
                if self.session.is_logged_in {
                    match r {
                        Ok((u, t)) => {
                            self.session.current_user = Some(u);
                            self.session.token = Some(t);
                            fx = self.login_success();
                        },
                        Err(_) => {
                            fx.clear_credentials = true;
                            self.session.token = None;
                            self.session.current_user = None;
                            self.session.is_logged_in = false;
                            self.session.auth_page = AuthPage::Login;
                        },
                    }
                }
                fx
            },
            AppEvent::AvatarUploaded(r) => self.on_avatar_uploaded(r, now_ms),
            AppEvent::FavoriteIdsLoaded(r) => self.on_favorite_ids_loaded(r, now_ms),
            AppEvent::BookmarkFavoriteIdsLoaded(r) => self.on_bookmark_favorite_ids_loaded(r, now_ms),
            AppEvent::BookmarkDetailLoaded(r) => self.on_bookmark_detail_loaded(r, now_ms),
            AppEvent::PdfBytesLoaded(r) => self.on_pdf_bytes_loaded(r, now_ms),
        }
    }
}

} // verus!
