use pezmax::browse::{file_matches, filter_files};
use pezmax::community::{complete_field, filter_reports, parse_i64, report_badge, report_status, Completion};
use pezmax::autostart::auto_launch_args;
use pezmax::models::{ApiResponse, LoginResponse, PaperFile, Report, SecurityQuestion, UserInfo, UserInfoResponse};
use pezmax::session::{login_request, login_result, login_token, register_outcome, register_request, LoginFailure};
use pezmax::nav::FilterState;
use pezmax::api::{
    base_url_or_default, bearer_value, download_list_path, endpoint, favorite_list_path, hide_download_path,
    page_query, remove_favorite_path, request_headers, resolve_raw_url, UrlError,
};
use pezmax::cache::{default_db_path, encode_rgba_cache, i64_to_decimal, parse_rgba_cache, CacheManager};
use pezmax::community::{
    avatar_color, avatar_initial, extract_timeline, status_label, timeline_nodes, JsonObject, JsonScalar,
};
use pezmax::counter::{AnimatedCounter, DigitAnim, ANIM_DURATION_US};
use pezmax::crypto::{derive_key, deobfuscate, deobfuscate_with_key, machine_seed, obfuscate, obfuscate_with_key};
use pezmax::distro::{detect_linux_distro, trim_whitespace};
use pezmax::forms::{
    validate_account, validate_answers, validate_final, validate_login, validate_new_password,
    validate_recovery_user, validate_security, FormError,
};
use pezmax::models::{default_page_num, default_page_size, default_true, PageParams, UserRankItem};
use pezmax::nav::{add_toast, AsyncData, NavState, Section, Subsection};
use pezmax::toast::{cleanup_toasts, AnimatedToast};
use pezmax::nav::ToastLevel;
use pezmax::update::{
    classify_release_status, current_arch, is_newer, name_contains_os, name_matches_arch, pick_asset, GhAsset,
    GhRelease, PickError, ReleaseReply, TargetOs,
};

fn asset(name: &str) -> GhAsset {
    GhAsset { name: name.to_string(), browser_download_url: format!("https://dl/{name}"), size: 1 }
}

fn release(names: &[&str]) -> GhRelease {
    GhRelease {
        tag_name: "v1.2.0".to_string(),
        name: String::new(),
        body: String::new(),
        html_url: String::new(),
        assets: names.iter().map(|n| asset(n)).collect(),
    }
}

#[test]
fn navigation_tabs() {
    let mut nav = NavState::new();
    assert_eq!(nav.section, Section::Home);
    let e = nav.navigate_section(Section::Community);
    assert!(e.section_changed);
    assert_eq!(nav.subsection, Subsection::UserRanking);
    assert_eq!(e.tab_indicator, Some(0));
    assert!(!e.refresh_stats);
    let e = nav.navigate_subsection(Subsection::ReportRecord);
    assert_eq!(e.tab_indicator, Some(2));
    assert_eq!(e.slide_forward, Some(true));
    let e = nav.navigate_subsection(Subsection::UserRanking);
    assert_eq!(e.slide_forward, Some(false));
    let e = nav.navigate_to(Section::Profile, Subsection::DownloadHistory);
    assert!(e.section_changed);
    assert_eq!(e.tab_indicator, Some(2));
    assert_eq!(e.slide_forward, None);
    assert!(e.refresh_stats);
    let e = nav.navigate_section(Section::Profile);
    assert!(!e.section_changed);
    assert_eq!(e.tab_indicator, None);
    assert_eq!(nav.subsection, Subsection::PersonalCenter);
    assert_eq!(Section::Browse.default_subsection(), Subsection::ResourceManager);
    assert_eq!(Section::Profile.subsections().len(), 4);
    assert_eq!(Section::Home.subsections().len(), 0);
    assert_eq!(Section::Community.index(), 2);
    assert_eq!(Section::Browse.title(), "浏览");
}

#[test]
fn toasts_keep_three_newest() {
    let mut v: Vec<u32> = Vec::new();
    for i in 0..5 {
        add_toast(&mut v, i);
        assert!(v.len() <= 3);
        assert_eq!(*v.last().unwrap(), i);
    }
    assert_eq!(v, vec![2, 3, 4]);
}

#[test]
fn toast_lifecycle() {
    let mut ts = vec![
        AnimatedToast::new("a".to_string(), ToastLevel::Info, 1_000),
        AnimatedToast::new("b".to_string(), ToastLevel::Error, 3_000),
        AnimatedToast::new("c".to_string(), ToastLevel::Success, 6_000),
    ];
    cleanup_toasts(&mut ts, 5_800);
    assert_eq!(ts.len(), 2);
    assert_eq!(ts[0].message, "b");
    assert!(!ts[0].exit_triggered);
    assert!(!ts[1].exit_triggered);
    cleanup_toasts(&mut ts, 7_100);
    assert_eq!(ts.len(), 2);
    assert!(ts[0].exit_triggered);
    assert_eq!(ts[0].exit_started_ms, 7_100);
    cleanup_toasts(&mut ts, 7_800);
    assert_eq!(ts.len(), 1);
    assert_eq!(ts[0].message, "c");
}

#[test]
fn async_data_loads_once() {
    let mut d: AsyncData<u32> = AsyncData::new();
    assert!(d.load());
    assert!(!d.load());
    d.complete(Ok(7));
    assert!(d.is_loaded());
    assert!(!d.load());
    assert_eq!(d.data, Some(7));
    assert!(d.reload());
    assert_eq!(d.data, None);
    d.complete(Err("boom".to_string()));
    assert_eq!(d.error, Some("boom".to_string()));
    let mut idle: AsyncData<u32> = AsyncData::new();
    idle.complete(Ok(1));
    assert!(!idle.is_loaded());
    assert_eq!(idle.data, None);
}

#[test]
fn counter_first_set_jumps_then_rolls() {
    let mut c = AnimatedCounter::new();
    assert_eq!(c.value(), 0);
    assert_eq!(c.digit_count(), 1);
    c.set_target(42);
    assert_eq!(c.value(), 42);
    assert!(c.is_steady());
    let info = c.digit_info();
    assert_eq!((info[0].from, info[0].to, info[1].to), (2, 2, 4));
    c.set_target(47);
    assert!(!c.is_steady());
    let info = c.digit_info();
    assert_eq!((info[0].from, info[0].to, info[0].elapsed_us), (2, 7, 0));
    assert_eq!((info[1].from, info[1].to, info[1].elapsed_us), (4, 4, ANIM_DURATION_US));
    c.update(100_000);
    assert!(!c.is_steady());
    c.update(250_000);
    assert!(c.is_steady());
    c.set_target(1005);
    assert_eq!(c.digit_count(), 4);
    let tos: Vec<u8> = c.digit_info().iter().map(|d| d.to).collect();
    let froms: Vec<u8> = c.digit_info().iter().map(|d| d.from).collect();
    assert_eq!(tos, vec![5, 0, 0, 1]);
    assert_eq!(froms, vec![7, 4, 0, 0]);
    c.set_target(1005);
    assert_eq!(c.digit_count(), 4);
}

#[test]
fn counter_jump_and_negative() {
    let mut c = AnimatedCounter::new();
    c.jump_to(-12);
    assert_eq!(c.value(), -12);
    let tos: Vec<u8> = c.digit_info().iter().map(|d| d.to).collect();
    assert_eq!(tos, vec![2, 1, 0]);
    c.set_target(9);
    assert_eq!(c.digit_count(), 1);
    assert!(c.is_steady());
    let s = DigitAnim::steady(3);
    assert_eq!((s.from, s.to, s.elapsed_us), (3, 3, ANIM_DURATION_US));
}

#[test]
fn forms_checks() {
    assert_eq!(validate_login("", "x", false, ""), Err(FormError::MissingCredentials));
    assert_eq!(validate_login("u", "x", true, ""), Err(FormError::MissingCaptcha));
    assert_eq!(validate_login("u", "x", true, "ab"), Ok(()));
    assert_eq!(validate_account(" a ", "123456", "123456"), Err(FormError::UsernameLength));
    assert_eq!(validate_account("张三", "123456", "123456"), Ok(()));
    assert_eq!(validate_account("abcdefghijklmnopqrstu", "123456", "123456"), Err(FormError::UsernameLength));
    assert_eq!(validate_account("张三李四王五赵", "abcdef", "abcdef"), Ok(()));
    assert_eq!(validate_account("张三李四王五赵钱孙李周吴郑王冯陈褚卫蒋沈韩", "abcdef", "abcdef"), Err(FormError::UsernameLength));
    assert_eq!(validate_account("bob", "12345", "12345"), Err(FormError::PasswordTooShort));
    assert_eq!(validate_account("bob", "密码", "密码"), Err(FormError::PasswordTooShort));
    assert_eq!(validate_account("bob", "六位密码正确", "六位密码正确"), Ok(()));
    assert_eq!(validate_account("bob", "1234567", "1234568"), Err(FormError::PasswordMismatch));
    assert_eq!(validate_security("  ", "x"), Err(FormError::SecurityBlank));
    assert_eq!(validate_security("q", "a"), Ok(()));
    assert_eq!(validate_final("q", "a", true, " \t"), Err(FormError::MissingCaptcha));
    assert_eq!(validate_final("q", "", true, ""), Err(FormError::SecurityBlank));
    assert_eq!(validate_final("q", "a", false, ""), Ok(()));
    assert_eq!(validate_recovery_user(" ", false, ""), Err(FormError::MissingUsername));
    assert_eq!(validate_recovery_user("bob", true, ""), Err(FormError::MissingCaptcha));
    assert_eq!(validate_answers(&["a".to_string(), " ".to_string()]), Err(FormError::AnswersMissing));
    assert_eq!(validate_answers(&["a".to_string(), "b".to_string()]), Ok(()));
    assert_eq!(validate_new_password(" 12345 ", "12345"), Err(FormError::PasswordTooShort));
    assert_eq!(validate_new_password(" 123456 ", "123456"), Ok(()));
    assert_eq!(validate_new_password("123456", "123457"), Err(FormError::PasswordMismatch));
    assert_eq!(FormError::PasswordMismatch.message(), "两次输入的密码不一致");
    let t: String = trim_whitespace(&['\u{3000}', 'a', ' ', 'b', '\n']).into_iter().collect();
    assert_eq!(t, "a b");
}

#[test]
fn avatars_and_timeline() {
    assert_eq!(avatar_color(0), (0x3B, 0x82, 0xF6));
    assert_eq!(avatar_color(13), (0x1D, 0xB9, 0x54));
    assert_eq!(avatar_color(-1), avatar_color(3));
    assert_eq!(avatar_color(5), avatar_color(17));
    assert_eq!(avatar_color(-20), avatar_color(-8));
    assert_eq!(avatar_initial("alice"), "A");
    assert_eq!(avatar_initial("ß"), "SS");
    assert_eq!(avatar_initial("张三"), "张");
    assert_eq!(avatar_initial(""), "?");
    assert_eq!(status_label(1), "已通过 · 处理完成");
    assert_eq!(status_label(9), "已处理");
    let obj = JsonObject {
        fields: vec![
            ("createTime".to_string(), JsonScalar::Str("2024-01-01".to_string())),
            ("reviewTime".to_string(), JsonScalar::Other),
            ("handleTime".to_string(), JsonScalar::Str("2024-01-03".to_string())),
            ("result".to_string(), JsonScalar::Int(3)),
            ("remark".to_string(), JsonScalar::Str("重复".to_string())),
        ],
    };
    let t = extract_timeline(&Some(obj));
    assert_eq!(t.submit_time.as_deref(), Some("2024-01-01"));
    assert_eq!(t.review_time, None);
    assert_eq!(t.resolve_time.as_deref(), Some("2024-01-03"));
    assert_eq!(t.status, 3);
    assert_eq!(t.remark, "重复");
    let nodes = timeline_nodes(&t);
    assert_eq!(nodes[1].time, "—");
    assert!(!nodes[1].done);
    assert_eq!(nodes[2].title, "已驳回");
    let empty = extract_timeline(&None);
    assert_eq!(empty.status, 0);
    assert_eq!(empty.remark, "");
}

#[test]
fn api_request_shapes() {
    assert_eq!(base_url_or_default(None), "http://154.8.139.48:8080");
    assert_eq!(base_url_or_default(Some("http://x".to_string())), "http://x");
    assert_eq!(endpoint("http://h", "/a"), "http://h/a");
    assert_eq!(bearer_value("tok"), "Bearer tok");
    let h = request_headers(Some("tok"));
    assert_eq!(h.len(), 2);
    assert_eq!(h[1].1, "Bearer tok");
    assert_eq!(request_headers(None).len(), 1);
    assert_eq!(resolve_raw_url("http://h", ""), Err(UrlError::Empty));
    assert_eq!(resolve_raw_url("http://h", "https://cdn/x.png").unwrap(), "https://cdn/x.png");
    assert_eq!(resolve_raw_url("http://h", "/profile/a.png").unwrap(), "http://h/profile/a.png");
    let q = page_query(&PageParams::default());
    assert_eq!(q, vec![("pageNum".to_string(), "1".to_string()), ("pageSize".to_string(), "20".to_string())]);
    assert_eq!(download_list_path(7), "/datum/desktop/download/list/7");
    assert_eq!(hide_download_path(7, -2), "/datum/desktop/download/7/-2");
    assert_eq!(favorite_list_path(12), "/datum/desktop/favorite/list/12");
    assert_eq!(remove_favorite_path(1, 2), "/datum/desktop/favorite/1/2");
    assert_eq!((default_page_num(), default_page_size(), default_true()), (1, 20, true));
    let mut item = UserRankItem::default();
    item.user_name = "bob".to_string();
    assert_eq!(item.display_name(), "bob");
    item.nick_name = "Bobby".to_string();
    assert_eq!(item.display_name(), "Bobby");
}

#[test]
fn release_selection() {
    assert!(is_newer("1.0.0", "v1.2.0"));
    assert!(!is_newer("1.2.0", "v1.2.0"));
    assert!(!is_newer("1.2.0", "1.2.0"));
    assert!(!is_newer("1.10.0", "1.9.0"));
    assert!(is_newer("dev", "nightly"));
    assert!(!is_newer("dev", "vdev"));
    assert_eq!(release(&[]).version(), "1.2.0");
    assert_eq!(current_arch("arm64"), "aarch64");
    assert_eq!(current_arch("riscv64"), "riscv64");
    assert!(name_matches_arch("PezMax-One-1.0-Windows-AMD64.msi", "x86_64"));
    assert!(!name_matches_arch("pezmax-one-1.0-windows-aarch64.msi", "x86_64"));
    assert!(name_contains_os("PezMax-Darwin.dmg", "macos"));
    let r = release(&[
        "pezmax-one-1.2.0-linux-amd64.deb",
        "pezmax-one-1.2.0-linux-x86_64.pkg.tar.zst",
        "pezmax-one-1.2.0-windows-x86_64.msi",
        "pezmax-one-1.2.0-macos-aarch64.dmg",
        "pezmax-one-1.2.0-macos-universal.dmg",
    ]);
    assert_eq!(pick_asset(&r, TargetOs::Windows, "x86_64", "n/a").unwrap().name, "pezmax-one-1.2.0-windows-x86_64.msi");
    assert_eq!(pick_asset(&r, TargetOs::MacOs, "aarch64", "n/a").unwrap().name, "pezmax-one-1.2.0-macos-universal.dmg");
    assert_eq!(pick_asset(&r, TargetOs::Linux, "x86_64", "debian").unwrap().name, "pezmax-one-1.2.0-linux-amd64.deb");
    assert_eq!(pick_asset(&r, TargetOs::Linux, "x86_64", "arch").unwrap().name, "pezmax-one-1.2.0-linux-x86_64.pkg.tar.zst");
    let e = pick_asset(&r, TargetOs::Linux, "aarch64", "debian").unwrap_err();
    assert_eq!(e, PickError::NoLinuxPackage { distro: "debian".to_string(), arch: "aarch64".to_string() });
    assert_eq!(e.message(), "release 中没有匹配的 Linux 安装包（发行版=debian 架构=aarch64）");
    assert_eq!(pick_asset(&release(&["a.deb"]), TargetOs::Windows, "x86_64", "n/a").unwrap_err(), PickError::NoWindowsInstaller);
    assert_eq!(classify_release_status(404), ReleaseReply::NoRelease);
    assert_eq!(classify_release_status(204), ReleaseReply::Body);
    assert_eq!(classify_release_status(403), ReleaseReply::HttpError(403));
}

#[test]
fn distro_detection() {
    assert_eq!(detect_linux_distro(true, true, None), "arch");
    assert_eq!(detect_linux_distro(false, true, None), "debian");
    assert_eq!(detect_linux_distro(false, false, Some("NAME=\"Ubuntu\"\nID=ubuntu\nID_LIKE=debian\n")), "debian");
    assert_eq!(detect_linux_distro(false, false, Some("ID=\"EndeavourOS\"\n")), "arch");
    assert_eq!(detect_linux_distro(false, false, Some("ID=fedora\nID_LIKE=\"rhel centos\"\n")), "unknown");
    assert_eq!(detect_linux_distro(false, false, Some("ID=nixos\nID_LIKE=\"foo pop\"\n")), "debian");
    assert_eq!(detect_linux_distro(false, false, None), "unknown");
}

#[test]
fn credential_obfuscation() {
    let key = derive_key(b"host:alice");
    assert_eq!(key[..4], [194, 202, 203, 205]);
    assert_eq!(key.len(), 32);
    assert_eq!(obfuscate_with_key("secret", &key), "sa-ov_20");
    assert_eq!(obfuscate_with_key("密码", &key), "J2VNKjhB");
    assert_eq!(obfuscate_with_key("", &key), "");
    assert_eq!(deobfuscate_with_key("sa-ov_20", &key), Some("secret".to_string()));
    assert_eq!(deobfuscate_with_key("!!", &key), None);
    assert_eq!(machine_seed(None, Some("host".to_string()), "alice"), "host:alice");
    assert_eq!(machine_seed(Some("uuid".to_string()), Some("host".to_string()), "alice"), "uuid");
    assert_eq!(machine_seed(Some(String::new()), None, ""), "pezmax-fallback-key");
    let c = obfuscate("hunter2", "alice");
    assert_eq!(deobfuscate(&c, "alice"), Some("hunter2".to_string()));
}

#[test]
fn cache_layout() {
    let cm = CacheManager::with_data_dir("/home/u/.local/share/PezMax".to_string());
    assert_eq!(cm.cache_dir(), "/home/u/.local/share/PezMax/.cache");
    assert_eq!(cm.settings_path(), "/home/u/.local/share/PezMax/settings.json");
    assert_eq!(cm.avatar_cache_path(42), "/home/u/.local/share/PezMax/.cache/avatar/42.cache");
    assert_eq!(
        cm.bookmark_cover_cache_path(-3),
        "/home/u/.local/share/PezMax/.cache/bookmark_cover/bm_cover_-3.cache"
    );
    assert_eq!(cm.pdf_file_dir(9), "/home/u/.local/share/PezMax/.cache/pdf/9");
    assert_ne!(cm.avatar_cache_path(1), cm.avatar_cache_path(11));
    assert_ne!(cm.avatar_cache_path(-1), cm.avatar_cache_path(1));
    assert_eq!(cm.credentials_path(), "/home/u/.local/share/PezMax/credentials.json");
    assert!(!cm.credentials_path().starts_with(cm.cache_dir()));
    assert_eq!(default_db_path(cm.cache_dir()), "/home/u/.local/share/PezMax/.cache/downloads.db");
    assert_eq!(CacheManager::with_data_dir(String::new()).cache_dir(), ".cache");
    assert_eq!(CacheManager::with_data_dir("/".to_string()).cache_dir(), "/.cache");
    assert_eq!(i64_to_decimal(i64::MIN), "-9223372036854775808");
    let enc = encode_rgba_cache(&[1, 2, 3, 4, 5, 6, 7, 8], 2, 1);
    assert_eq!(enc, vec![2, 0, 0, 0, 1, 0, 0, 0, 1, 2, 3, 4, 5, 6, 7, 8]);
    assert_eq!(parse_rgba_cache(&enc), Some((vec![1, 2, 3, 4, 5, 6, 7, 8], 2, 1)));
    assert_eq!(parse_rgba_cache(&enc[..15]), None);
    assert_eq!(parse_rgba_cache(&[1, 0, 0]), None);
}

#[test]
fn report_status_and_filter() {
    assert_eq!(parse_i64("42"), Some(42));
    assert_eq!(parse_i64("-007"), Some(-7));
    assert_eq!(parse_i64("+3"), Some(3));
    assert_eq!(parse_i64("-9223372036854775808"), Some(i64::MIN));
    assert_eq!(parse_i64("9223372036854775808"), None);
    assert_eq!(parse_i64("1a"), None);
    assert_eq!(parse_i64("-"), None);
    assert_eq!(parse_i64(""), None);
    assert_eq!(parse_i64(" 1"), None);
    let mk = |id: i64, status: &str| Report {
        report_id: id,
        report_type: String::new(),
        content: String::new(),
        status: status.to_string(),
        create_time: String::new(),
    };
    assert_eq!(report_status(&mk(1, "2")), 2);
    assert_eq!(report_status(&mk(1, "done")), 0);
    let rs = vec![mk(1, "0"), mk(2, "3"), mk(3, "x"), mk(4, "3")];
    let kept: Vec<i64> = filter_reports(rs, Some(3)).iter().map(|r| r.report_id).collect();
    assert_eq!(kept, vec![2, 4]);
    let rs = vec![mk(1, "0"), mk(2, "3"), mk(3, "x")];
    let zero: Vec<i64> = filter_reports(rs, Some(0)).iter().map(|r| r.report_id).collect();
    assert_eq!(zero, vec![1, 3]);
    assert_eq!(filter_reports(vec![mk(5, "1")], None).len(), 1);
    assert_eq!(report_badge(3), "已驳回");
    assert_eq!(report_badge(7), "未知");
}

#[test]
fn browse_filters() {
    let mut a = PaperFile::default();
    a.file_name = "Math Final".to_string();
    a.file_subject = "数学".to_string();
    a.file_year = 2024;
    a.school_name = "一中".to_string();
    let mut b = PaperFile::default();
    b.file_name = "物理期中".to_string();
    b.file_subject = "Physics".to_string();
    b.file_year = 2023;
    b.school_name = "二中".to_string();
    let files = vec![a, b];
    let all = FilterState::new();
    assert_eq!(filter_files(&files, &all, None, "").len(), 2);
    assert_eq!(filter_files(&files, &all, Some(2023), "")[0].file_name, "物理期中");
    assert_eq!(filter_files(&files, &all, None, "FINAL")[0].file_name, "Math Final");
    assert_eq!(filter_files(&files, &all, None, "phys").len(), 1);
    let math = FilterState { subject: Some("数学".to_string()), school: None };
    assert!(file_matches(&files[0], &math, Some(2024), ""));
    assert!(!file_matches(&files[1], &math, None, ""));
    let school = FilterState { subject: None, school: Some("二中".to_string()) };
    assert_eq!(filter_files(&files, &school, None, "")[0].file_year, 2023);
    assert!(filter_files(&files, &school, Some(2024), "").is_empty());
}

#[test]
fn page_render_cache_path() {
    let cm = CacheManager::with_data_dir("/d".to_string());
    assert_eq!(cm.pdf_page_cache_path(5, 3, 150), "/d/.cache/pdf/5/p0003_s00150.rgba");
    assert_eq!(cm.pdf_page_cache_path(5, 12345, 1234567), "/d/.cache/pdf/5/p12345_s1234567.rgba");
}

#[test]
fn contribute_completion() {
    let opts: Vec<String> = ["数学", "Math II", "Mathematics", "物理"].iter().map(|s| s.to_string()).collect();
    match complete_field(" math ", &opts) {
        Completion::Suggest { candidates, new_name } => {
            assert_eq!(candidates, vec!["Math II".to_string(), "Mathematics".to_string()]);
            assert_eq!(new_name, "math");
        }
        _ => panic!("expected suggestions"),
    }
    assert!(matches!(complete_field("MATHEMATICS", &opts), Completion::Existing));
    assert!(matches!(complete_field("数学", &opts), Completion::Existing));
    assert!(matches!(complete_field("  ", &opts), Completion::Nothing));
    let many: Vec<String> = (0..8).map(|i| format!("a{i}")).collect();
    match complete_field("A", &many) {
        Completion::Suggest { candidates, .. } => {
            assert_eq!(candidates.len(), 6);
            assert_eq!(candidates[5], "a5");
        }
        _ => panic!("expected suggestions"),
    }
    match complete_field("化学", &opts) {
        Completion::Suggest { candidates, new_name } => {
            assert!(candidates.is_empty());
            assert_eq!(new_name, "化学");
        }
        _ => panic!("expected a new entry"),
    }
}

#[test]
fn login_and_register_exchanges() {
    let req = login_request("bob", "pw", true, "1234", "u-1");
    assert_eq!(req.code.as_deref(), Some("1234"));
    assert_eq!(req.uuid.as_deref(), Some("u-1"));
    let req = login_request("bob", "pw", false, "1234", "u-1");
    assert!(req.code.is_none() && req.uuid.is_none());
    let none: ApiResponse<LoginResponse> = ApiResponse { code: 500, msg: "x".to_string(), data: None };
    assert_eq!(login_token(&none), Err(LoginFailure::MissingToken));
    let user = UserInfo {
        user_id: 1,
        user_name: "bob".to_string(),
        nick_name: String::new(),
        avatar: String::new(),
        email: String::new(),
        phonenumber: String::new(),
        sex: String::new(),
        status: "1".to_string(),
    };
    let some = ApiResponse {
        code: 200,
        msg: String::new(),
        data: Some(LoginResponse { token: "tok".to_string(), user: user.clone() }),
    };
    assert_eq!(login_token(&some), Ok("tok".to_string()));
    let info = |status: &str| ApiResponse {
        code: 200,
        msg: String::new(),
        data: Some(UserInfoResponse {
            user: UserInfo { status: status.to_string(), ..user.clone() },
            roles: vec![],
            permissions: vec![],
            is_default_modify_pwd: false,
            is_password_expired: false,
        }),
    };
    let ok = login_result("tok".to_string(), info("1")).unwrap();
    assert_eq!(ok.token, "tok");
    assert_eq!(ok.user.user_name, "bob");
    assert_eq!(login_result("tok".to_string(), info("0")).err(), Some(LoginFailure::Banned));
    let empty: ApiResponse<UserInfoResponse> = ApiResponse { code: 401, msg: String::new(), data: None };
    assert_eq!(login_result("tok".to_string(), empty).err(), Some(LoginFailure::NoUserInfo));
    assert_eq!(LoginFailure::Banned.message(), "账号已被封禁，无法登录");
    let qs: Vec<SecurityQuestion> = (0..3)
        .map(|i| SecurityQuestion { question: format!(" q{i} "), answer: format!("\ta{i}") })
        .collect();
    let reg = register_request("bob", "secret", "", false, "", "", &qs);
    assert_eq!(reg.nickname, "bob");
    assert_eq!(reg.security_questions.len(), 3);
    assert_eq!(reg.security_questions[2].question, "q2");
    assert_eq!(reg.security_questions[0].answer, "a0");
    assert!(reg.code.is_none());
    assert_eq!(register_request("bob", "s", "Bobby", true, "c", "u", &qs).nickname, "Bobby");
    assert_eq!(register_outcome(200, "ok".to_string()), Ok(()));
    assert_eq!(register_outcome(500, "用户名已存在".to_string()), Err("用户名已存在".to_string()));
}

#[test]
fn autostart_arguments() {
    assert_eq!(auto_launch_args(true, None), None);
    let add = auto_launch_args(true, Some("C:\\PezMax\\pezmax.exe")).unwrap();
    assert_eq!(add[0], "add");
    assert_eq!(add[1], "HKCU\\Software\\Microsoft\\Windows\\CurrentVersion\\Run");
    assert_eq!(add[7], "C:\\PezMax\\pezmax.exe");
    assert_eq!(add.len(), 9);
    let del = auto_launch_args(false, Some("x")).unwrap();
    assert_eq!(del, vec!["delete", "HKCU\\Software\\Microsoft\\Windows\\CurrentVersion\\Run", "/v", "PezMax", "/f"]);
}

#[test]
fn download_dir_and_medals() {
    assert_eq!(pezmax::cache::default_download_dir(Some("/home/bob")), "/home/bob/Downloads/PezMax");
    assert_eq!(pezmax::cache::default_download_dir(None), "~/Downloads/PezMax");
    assert_eq!(pezmax::community::medal_bar_color(1), Some((0xFF, 0xBF, 0x00)));
    assert_eq!(pezmax::community::medal_bar_color(3), Some((0xCD, 0x7F, 0x32)));
    assert_eq!(pezmax::community::medal_bar_color(4), None);
}
