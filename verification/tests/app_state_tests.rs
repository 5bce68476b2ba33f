use pezmax::app_state::{initial_state, sync_settings, AppEvent, AppState, PdfViewMode, Settings, UiSettings};
use pezmax::search::SearchState;
use pezmax::loaders::{cover_step, select_requests, vec_has};
use pezmax::cache::SavedCredentials;
use pezmax::menu::ThemeMode;
use pezmax::models::{CaptchaResponse, SecurityQuestion, UserInfo, UserStats};
use pezmax::nav::{AccountEditSection, AuthPage, LoginResult, Section, Subsection, ToastLevel};

fn settings(dir: Option<&str>) -> Settings {
    Settings {
        theme_mode: ThemeMode::Dark,
        accent_idx: 2,
        setting_auto_launch: false,
        setting_silent_download: true,
        pdf_view_mode: PdfViewMode::Line,
        pdf_scale_pct: 150,
        download_dir: dir.map(|d| d.to_string()),
    }
}

fn user(id: i64, avatar: &str) -> UserInfo {
    UserInfo {
        user_id: id,
        user_name: "alice".to_string(),
        nick_name: "Alice".to_string(),
        avatar: avatar.to_string(),
        email: String::new(),
        phonenumber: String::new(),
        sex: String::new(),
        status: "1".to_string(),
    }
}

fn fresh() -> AppState {
    initial_state(None, settings(None), None, Some("/home/u")).0
}

#[test]
fn fresh_start_shows_login_page() {
    let (st, token) = initial_state(None, settings(None), None, Some("/home/u"));
    assert!(token.is_none());
    assert!(!st.session.is_logged_in);
    assert_eq!(st.session.auth_page, AuthPage::Login);
    assert!(st.session.token.is_none());
    assert!(st.session.current_user.is_none());
    assert_eq!(st.session.nav.section, Section::Home);
    assert_eq!(st.register.step, 1);
    assert_eq!(st.register.security_questions.len(), 3);
    assert!(st.register.security_questions.iter().all(|q| q.question.is_empty() && q.answer.is_empty()));
    assert_eq!(st.forget.step, 1);
    assert!(st.toasts.is_empty());
    assert_eq!(st.reports.page_num, 1);
    assert!(st.login.captcha_enabled);
    assert_eq!(st.ui.download_dir, "/home/u/Downloads/PezMax");
    assert_eq!(st.ui.pdf_scale_pct, 150);
    assert_eq!(st.ui.theme_mode, ThemeMode::Dark);
}

#[test]
fn saved_session_is_checked_at_start() {
    let saved = SavedCredentials { token: "tok".to_string(), username: "alice".to_string(), remember_me: true };
    let cached = UserStats { favorite_count: 1, download_count: 2, upload_count: 3 };
    let (st, token) = initial_state(Some(saved), settings(Some("/data/dl")), Some(cached), None);
    assert_eq!(token.as_deref(), Some("tok"));
    assert!(st.session.is_logged_in);
    assert_eq!(st.login.username, "alice");
    assert!(st.login.remember);
    assert_eq!(st.session.user_stats.as_ref().unwrap().upload_count, 3);
    assert_eq!(st.ui.download_dir, "/data/dl");
    assert_eq!(initial_state(None, settings(None), None, None).0.ui.download_dir, "~/Downloads/PezMax");
}

#[test]
fn login_success_enters_home_and_saves_credentials() {
    let mut st = fresh();
    st.login.username = "alice".to_string();
    st.login.password = "secret".to_string();
    st.login.remember = true;
    st.login.loading = true;
    st.session.nav.section = Section::Profile;
    let fx = st.app_step(AppEvent::LoginDone(Ok(LoginResult { token: "t1".to_string(), user: user(7, "a.png") })), 1000);
    assert!(st.session.is_logged_in);
    assert!(!st.login.loading);
    assert_eq!(st.session.token.as_deref(), Some("t1"));
    assert_eq!(st.session.nav.section, Section::Home);
    assert_eq!(st.session.nav.subsection, Subsection::Blank);
    assert!(st.login.username.is_empty() && st.login.password.is_empty());
    let saved = fx.save_credentials.unwrap();
    assert_eq!((saved.token.as_str(), saved.username.as_str(), saved.remember_me), ("t1", "alice", true));
    assert!(!fx.clear_credentials);
    assert!(fx.load_user_stats && fx.load_recent_files && fx.load_favorite_ids && fx.load_avatar && fx.enter_home);
    assert_eq!(st.toasts.len(), 1);
    assert_eq!(st.toasts[0].message, "登录成功，欢迎回来！");
    assert_eq!(st.toasts[0].level, ToastLevel::Success);
    assert_eq!(st.toasts[0].created_at_ms, 1000);
}

#[test]
fn login_without_remember_clears_credentials() {
    let mut st = fresh();
    let fx = st.app_step(AppEvent::LoginDone(Ok(LoginResult { token: "t1".to_string(), user: user(0, "") })), 5);
    assert!(fx.save_credentials.is_none());
    assert!(fx.clear_credentials);
    assert!(!fx.load_user_stats && !fx.load_avatar && fx.load_recent_files);
}

#[test]
fn login_failure_refreshes_captcha() {
    let mut st = fresh();
    st.login.captcha = "abcd".to_string();
    st.login.captcha_uuid = "u1".to_string();
    st.login.captcha_loaded = true;
    let fx = st.app_step(AppEvent::LoginDone(Err("账号已被封禁，无法登录".to_string())), 0);
    assert_eq!(st.login.error, "账号已被封禁，无法登录");
    assert!(st.login.captcha.is_empty() && st.login.captcha_uuid.is_empty());
    assert!(!st.login.captcha_loaded);
    assert!(fx.drop_login_captcha_texture);
    assert!(!st.session.is_logged_in);
}

#[test]
fn captcha_answers_fill_the_forms() {
    let mut st = fresh();
    let c = CaptchaResponse { captcha_enabled: false, uuid: "u9".to_string(), img: "aGk=".to_string() };
    let fx = st.app_step(AppEvent::CaptchaLoaded(Ok(c)), 0);
    assert!(fx.decode_login_captcha);
    assert!(!st.login.captcha_enabled);
    assert_eq!(st.login.captcha_uuid, "u9");
    assert!(st.login.captcha_loaded);
    st.app_step(AppEvent::RegisterCaptchaLoaded(Err("timeout".to_string())), 0);
    assert_eq!(st.register.error, "验证码加载失败: timeout");
}

#[test]
fn registration_success_returns_to_login() {
    let mut st = fresh();
    st.session.auth_page = AuthPage::Register;
    st.register.step = 4;
    st.register.username = "bob".to_string();
    st.register.security_questions[0].question = "q".to_string();
    let fx = st.app_step(AppEvent::RegisterDone(Ok(())), 10);
    assert_eq!(st.session.auth_page, AuthPage::Login);
    assert_eq!(st.register.step, 1);
    assert!(st.register.username.is_empty());
    assert_eq!(st.register.security_questions.len(), 3);
    assert!(st.register.security_questions[0].question.is_empty());
    assert_eq!(st.toasts[0].message, "注册成功，请登录");
    assert_eq!(fx.auth_step_target, Some(0));
    let fx = st.app_step(AppEvent::RegisterDone(Err("用户名已存在".to_string())), 11);
    assert_eq!(st.register.error, "用户名已存在");
    assert!(fx.load_register_captcha);
}

#[test]
fn recovery_questions_arrive_without_answers() {
    let mut st = fresh();
    st.forget.loading = true;
    let qs = vec![
        SecurityQuestion { question: "q1".to_string(), answer: "leak".to_string() },
        SecurityQuestion { question: "q2".to_string(), answer: String::new() },
    ];
    let fx = st.app_step(AppEvent::ForgetQuestionsLoaded(Ok(qs)), 0);
    assert_eq!(st.forget.step, 2);
    assert!(!st.forget.loading);
    assert_eq!(st.forget.questions[0].question, "q1");
    assert!(st.forget.questions[0].answer.is_empty());
    assert_eq!(fx.auth_step_target, Some(1));
    st.forget.new_password = "newpass".to_string();
    st.session.auth_page = AuthPage::ForgetPassword;
    st.app_step(AppEvent::ForgetResetDone(Ok(())), 0);
    assert_eq!(st.forget.step, 1);
    assert!(st.forget.questions.is_empty() && st.forget.new_password.is_empty());
    assert_eq!(st.session.auth_page, AuthPage::Login);
}

#[test]
fn account_messages_expire() {
    let mut st = fresh();
    st.account.loading = true;
    st.app_step(AppEvent::PasswordVerified(Ok(false)), 0);
    assert_eq!(st.account.error, "旧密码不正确");
    assert_eq!(st.account.message_ms, 3000);
    assert!(!st.account.loading);
    st.account.tick(1000);
    assert_eq!(st.account.message_ms, 2000);
    assert_eq!(st.account.error, "旧密码不正确");
    st.account.tick(5000);
    assert_eq!(st.account.message_ms, 0);
    assert!(st.account.error.is_empty());
    st.account.section = AccountEditSection::Security;
    let fx = st.app_step(AppEvent::PasswordVerified(Ok(true)), 0);
    assert!(fx.preload_security);
    assert_eq!(st.account.password_verify_step, 0);
    st.account.section = AccountEditSection::Password;
    st.app_step(AppEvent::PasswordVerified(Ok(true)), 0);
    assert_eq!(st.account.password_verify_step, 1);
}

#[test]
fn upload_success_counts_and_clears_form() {
    let mut st = fresh();
    st.session.current_user = Some(user(3, ""));
    st.session.user_stats = Some(UserStats { favorite_count: 0, download_count: 0, upload_count: 4 });
    st.contribute.subject = "数学".to_string();
    st.contribute.uploading = true;
    let fx = st.app_step(AppEvent::ContributeUploaded(Ok(())), 0);
    assert_eq!(st.session.user_stats.as_ref().unwrap().upload_count, 5);
    assert!(st.contribute.subject.is_empty() && !st.contribute.uploading);
    assert!(fx.load_user_stats);
    st.contribute.uploading = true;
    st.app_step(AppEvent::ContributeUploaded(Err("网络错误".to_string())), 0);
    assert!(!st.contribute.uploading);
    assert_eq!(st.toasts.last().unwrap().message, "上传失败: 网络错误");
    assert_eq!(st.toasts.last().unwrap().level, ToastLevel::Error);
}

#[test]
fn at_most_three_toasts() {
    let mut st = fresh();
    for i in 0..5 {
        st.app_step(AppEvent::ReportSubmitted(Err(format!("e{}", i))), i);
    }
    assert_eq!(st.toasts.len(), 3);
    assert_eq!(st.toasts[0].message, "提交失败: e2");
    assert_eq!(st.toasts[2].message, "提交失败: e4");
}

#[test]
fn failed_auto_login_logs_out() {
    let saved = SavedCredentials { token: "old".to_string(), username: "alice".to_string(), remember_me: false };
    let (mut st, _) = initial_state(Some(saved), settings(None), None, None);
    let fx = st.app_step(AppEvent::AutoLoginDone(Err("401".to_string())), 0);
    assert!(!st.session.is_logged_in);
    assert_eq!(st.session.auth_page, AuthPage::Login);
    assert!(fx.clear_credentials);
    let mut st2 = fresh();
    let fx2 = st2.app_step(AppEvent::AutoLoginDone(Ok((user(1, ""), "t".to_string()))), 0);
    assert!(!st2.session.is_logged_in);
    assert!(!fx2.enter_home);
}

#[test]
fn pdf_and_favorites_results() {
    let mut st = fresh();
    st.pdf_loading = true;
    let fx = st.app_step(AppEvent::PdfBytesLoaded(Ok(())), 0);
    assert!(fx.load_pdf_document && !st.pdf_loading);
    st.app_step(AppEvent::PdfBytesLoaded(Err("下载 PDF 失败: 404".to_string())), 0);
    assert_eq!(st.pdf_error.as_deref(), Some("下载 PDF 失败: 404"));
    st.app_step(AppEvent::FavoriteIdsLoaded(Ok(vec![3, 9])), 0);
    assert_eq!(st.favorites.file_ids, vec![3, 9]);
    assert!(st.favorites.ids_loaded);
}

fn ui_from(s: &Settings, dir: &str) -> UiSettings {
    UiSettings {
        theme_mode: s.theme_mode,
        accent_idx: s.accent_idx,
        setting_auto_launch: s.setting_auto_launch,
        setting_silent_download: s.setting_silent_download,
        pdf_view_mode: s.pdf_view_mode,
        pdf_scale_pct: s.pdf_scale_pct,
        download_dir: dir.to_string(),
    }
}

#[test]
fn settings_saved_only_when_changed() {
    let saved = settings(Some("/d"));
    let ui = ui_from(&saved, "/d");
    let (next, save, autostart) = sync_settings(&saved, &ui);
    assert!(!save && !autostart);
    assert_eq!(next.download_dir.as_deref(), Some("/d"));
    let mut ui2 = ui_from(&saved, "/d");
    ui2.setting_auto_launch = true;
    let (next2, save2, autostart2) = sync_settings(&saved, &ui2);
    assert!(save2 && autostart2);
    assert!(next2.setting_auto_launch);
    let mut ui3 = ui_from(&saved, "/d");
    ui3.pdf_scale_pct = 200;
    let (_, save3, autostart3) = sync_settings(&saved, &ui3);
    assert!(save3 && !autostart3);
    let (next4, save4, _) = sync_settings(&settings(None), &ui_from(&settings(None), "/x"));
    assert!(save4);
    assert_eq!(next4.download_dir.as_deref(), Some("/x"));
}

#[test]
fn search_waits_for_typing_to_pause() {
    let mut s = SearchState::new();
    s.edit("数学".to_string(), 1000);
    assert_eq!(s.tick(1100), Some(210));
    assert_eq!(s.debounced, "");
    assert_eq!(s.tick(1300), None);
    assert_eq!(s.debounced, "数学");
    assert!(s.changed_at_ms.is_none());
    s.query = "英语".to_string();
    assert_eq!(s.tick(1400), None);
    assert_eq!(s.debounced, "英语");
}

#[test]
fn logout_returns_to_login() {
    let mut st = fresh();
    st.app_step(AppEvent::LoginDone(Ok(LoginResult { token: "t".to_string(), user: user(4, "") })), 0);
    st.app_step(AppEvent::FavoriteIdsLoaded(Ok(vec![1])), 0);
    let fx = st.logout();
    assert!(!st.session.is_logged_in);
    assert_eq!(st.session.auth_page, AuthPage::Login);
    assert!(st.session.token.is_none() && st.session.current_user.is_none());
    assert!(st.favorites.file_ids.is_empty() && !st.favorites.ids_loaded);
    assert!(fx.clear_credentials && fx.drop_session_data);
}

#[test]
fn pictures_requested_once_per_id() {
    let items = vec![
        (1, "a.png".to_string()),
        (2, String::new()),
        (3, "c.png".to_string()),
        (1, "a2.png".to_string()),
        (4, "d.png".to_string()),
    ];
    let r = select_requests(&items, &vec![3]);
    assert_eq!(r, vec![(1, "a.png".to_string()), (4, "d.png".to_string())]);
    assert!(vec_has(&vec![5, 6], 6));
    assert!(!vec_has(&vec![], 6));
    assert_eq!(cover_step(false, false, true), (false, true, false));
    assert_eq!(cover_step(false, true, false), (true, false, true));
    assert_eq!(cover_step(false, true, true), (true, false, false));
    assert_eq!(cover_step(true, false, true), (true, false, false));
}

#[test]
fn requests_start_once() {
    let mut st = fresh();
    st.login.username = "alice".to_string();
    st.login.password = "pw123456".to_string();
    st.login.captcha = "ab12".to_string();
    st.login.captcha_uuid = "u".to_string();
    st.login.error = "old".to_string();
    let req = st.begin_login().unwrap();
    assert_eq!(req.username, "alice");
    assert_eq!(req.code.as_deref(), Some("ab12"));
    assert!(st.login.loading && st.login.error.is_empty());
    assert!(st.begin_login().is_none());

    st.register.username = "bob".to_string();
    st.register.security_questions[0].question = "  q1 ".to_string();
    let reg = st.begin_register().unwrap();
    assert_eq!(reg.nickname, "bob");
    assert_eq!(reg.security_questions[0].question, "q1");
    assert!(st.begin_register().is_none());

    st.forget.username = "carol".to_string();
    assert_eq!(st.begin_forget_questions().as_deref(), Some("carol"));
    assert!(st.forget.loading);
    assert!(st.begin_forget_questions().is_none());
}

#[test]
fn upload_needs_a_picked_file() {
    let mut st = fresh();
    assert!(st.begin_contribute_upload(7).is_none());
    assert_eq!(st.toasts[0].message, "请先选择文件");
    assert_eq!(st.toasts[0].level, ToastLevel::Error);
    assert!(!st.contribute.uploading);
    st.contribute.file_path = Some("/p/a.pdf".to_string());
    st.contribute.file_name = Some("a.pdf".to_string());
    st.contribute.file_size = Some(2048);
    st.contribute.subject = "数学".to_string();
    st.contribute.year = " 2024 ".to_string();
    st.session.current_user = Some(user(2, ""));
    let job = st.begin_contribute_upload(8).unwrap();
    assert_eq!(job.path, "/p/a.pdf");
    assert_eq!(job.file_format, "pdf");
    assert_eq!(job.file_size, 2048);
    assert_eq!(job.year, 2024);
    assert_eq!(job.create_by, "alice");
    assert!(st.contribute.uploading);
    assert!(st.begin_contribute_upload(9).is_none());
    st.contribute.uploading = false;
    st.contribute.year = "二〇二四".to_string();
    assert_eq!(st.begin_contribute_upload(10).unwrap().year, 0);
}
