//! The menu tree and its stable item ids (id = section * 100 + index; File=1,
//! View=3, Go=4, Help=5), and the mapping from clicked ids to commands.

use vstd::prelude::*;
use crate::menu::{MenuItem, MenuCommand, ThemeMode, ToggleType};
use crate::nav::Section;

verus! {

pub const ROOT_ID: i32 = 0;
pub const ID_FILE: i32 = 100;
pub const ID_OPEN_DL_DIR: i32 = 101;
pub const ID_CLEAR_CACHE: i32 = 102;
pub const ID_FILE_SEP_1: i32 = 103;
pub const ID_QUIT: i32 = 104;
pub const ID_VIEW: i32 = 300;
pub const ID_TOGGLE_SIDEBAR: i32 = 301;
pub const ID_VIEW_SEP_1: i32 = 302;
pub const ID_THEME_SUBMENU: i32 = 310;
pub const ID_THEME_SYSTEM: i32 = 311;
pub const ID_THEME_LIGHT: i32 = 312;
pub const ID_THEME_DARK: i32 = 313;
pub const ID_ACCENT_SUBMENU: i32 = 320;
/// Accent item `i` has id `ID_ACCENT_BASE + i`.
pub const ID_ACCENT_BASE: i32 = 321;
pub const ID_GO: i32 = 400;
pub const ID_GO_HOME: i32 = 401;
pub const ID_GO_BROWSE: i32 = 402;
pub const ID_GO_COMMUNITY: i32 = 403;
pub const ID_GO_PROFILE: i32 = 404;
pub const ID_HELP: i32 = 500;
pub const ID_ABOUT: i32 = 501;
pub const ID_HOMEPAGE: i32 = 502;
pub const ID_LOG_DIR: i32 = 503;

/// Most accent presets an accent menu can list (ids stay below the Go menu).
pub const MAX_ACCENTS: usize = 79;

/// A node with the given head and no toggle, enabled and visible.
pub open spec fn plain_head(m: MenuItem, id: i32, label: Seq<char>, sep: bool) -> bool {
    &&& m.id == id
    &&& m.label@ == label
    &&& m.is_separator == sep
    &&& m.enabled
    &&& m.visible
    &&& m.toggle_type == ToggleType::Plain
    &&& !m.toggle_state
}

pub open spec fn is_standard(m: MenuItem, id: i32, label: Seq<char>) -> bool {
    plain_head(m, id, label, false) && m.children@.len() == 0
}

pub open spec fn is_separator_item(m: MenuItem, id: i32) -> bool {
    &&& m.id == id
    &&& m.label@.len() == 0
    &&& m.is_separator
    &&& m.enabled
    &&& m.visible
    &&& m.toggle_type == ToggleType::Plain
    &&& !m.toggle_state
    &&& m.children@.len() == 0
}

pub open spec fn is_radio(m: MenuItem, id: i32, label: Seq<char>, checked: bool) -> bool {
    &&& m.id == id
    &&& m.label@ == label
    &&& !m.is_separator
    &&& m.enabled
    &&& m.visible
    &&& m.toggle_type == ToggleType::Radio
    &&& m.toggle_state == checked
    &&& m.children@.len() == 0
}

pub open spec fn file_menu(m: MenuItem) -> bool {
    &&& plain_head(m, ID_FILE, "文件"@, false)
    &&& m.children@.len() == 4
    &&& is_standard(m.children@[0], ID_OPEN_DL_DIR, "打开下载目录…"@)
    &&& is_standard(m.children@[1], ID_CLEAR_CACHE, "清理缓存"@)
    &&& is_separator_item(m.children@[2], ID_FILE_SEP_1)
    &&& is_standard(m.children@[3], ID_QUIT, "退出"@)
}

/// The theme submenu, whose three radios carry the check states `tf`.
pub open spec fn theme_shape(m: MenuItem, tf: Seq<bool>) -> bool {
    &&& tf.len() == 3
    &&& plain_head(m, ID_THEME_SUBMENU, "主题"@, false)
    &&& m.children@.len() == 3
    &&& is_radio(m.children@[0], ID_THEME_SYSTEM, "跟随系统"@, tf[0])
    &&& is_radio(m.children@[1], ID_THEME_LIGHT, "浅色"@, tf[1])
    &&& is_radio(m.children@[2], ID_THEME_DARK, "深色"@, tf[2])
}

/// The accent submenu: radio `i` has id `ID_ACCENT_BASE + i`, label `names[i]`
/// and check state `af[i]`.
pub open spec fn accent_shape(m: MenuItem, af: Seq<bool>, names: Seq<Seq<char>>) -> bool {
    &&& af.len() == names.len()
    &&& names.len() <= MAX_ACCENTS
    &&& plain_head(m, ID_ACCENT_SUBMENU, "强调色"@, false)
    &&& m.children@.len() == names.len()
    &&& forall|i: int| #![trigger m.children@[i]] 0 <= i < names.len() ==>
        is_radio(m.children@[i], (ID_ACCENT_BASE + i) as i32, names[i], af[i])
}

/// Check states of the theme radios when `mode` is selected.
pub open spec fn theme_flags(mode: ThemeMode) -> Seq<bool> {
    seq![mode == ThemeMode::System, mode == ThemeMode::Light, mode == ThemeMode::Dark]
}

/// Check states of `n` accent radios when preset `idx` is selected.
pub open spec fn accent_flags(idx: usize, n: nat) -> Seq<bool> {
    Seq::new(n, |i: int| i == idx)
}

pub open spec fn view_shape(m: MenuItem, tf: Seq<bool>, af: Seq<bool>, names: Seq<Seq<char>>) -> bool {
    &&& plain_head(m, ID_VIEW, "视图"@, false)
    &&& m.children@.len() == 4
    &&& is_standard(m.children@[0], ID_TOGGLE_SIDEBAR, "折叠/展开侧栏"@)
    &&& is_separator_item(m.children@[1], ID_VIEW_SEP_1)
    &&& theme_shape(m.children@[2], tf)
    &&& accent_shape(m.children@[3], af, names)
}

pub open spec fn go_menu(m: MenuItem) -> bool {
    &&& plain_head(m, ID_GO, "转到"@, false)
    &&& m.children@.len() == 4
    &&& is_standard(m.children@[0], ID_GO_HOME, "首页"@)
    &&& is_standard(m.children@[1], ID_GO_BROWSE, "浏览"@)
    &&& is_standard(m.children@[2], ID_GO_COMMUNITY, "社区"@)
    &&& is_standard(m.children@[3], ID_GO_PROFILE, "个人"@)
}

pub open spec fn help_menu(m: MenuItem) -> bool {
    &&& plain_head(m, ID_HELP, "帮助"@, false)
    &&& m.children@.len() == 3
    &&& is_standard(m.children@[0], ID_ABOUT, "关于 PezMax One"@)
    &&& is_standard(m.children@[1], ID_HOMEPAGE, "项目主页"@)
    &&& is_standard(m.children@[2], ID_LOG_DIR, "打开日志目录"@)
}

/// The whole menu: File, View, Go and Help under the root (id 0), with the
/// theme radios checked as `tf` and the accent radios as `af`.
pub open spec fn menu_shape(m: MenuItem, tf: Seq<bool>, af: Seq<bool>, names: Seq<Seq<char>>) -> bool {
    &&& m.id == ROOT_ID
    &&& m.label@.len() == 0
    &&& !m.is_separator
    &&& m.enabled
    &&& m.visible
    &&& m.toggle_type == ToggleType::Plain
    &&& !m.toggle_state
    &&& m.children@.len() == 4
    &&& file_menu(m.children@[0])
    &&& view_shape(m.children@[1], tf, af, names)
    &&& go_menu(m.children@[2])
    &&& help_menu(m.children@[3])
}

/// The menu with exactly the radio of `mode` and the accent radio `accent_idx` checked.
pub open spec fn menu_tree(m: MenuItem, mode: ThemeMode, accent_idx: usize, names: Seq<Seq<char>>) -> bool {
    menu_shape(m, theme_flags(mode), accent_flags(accent_idx, names.len()), names)
}

pub open spec fn names_view(names: Seq<&'static str>) -> Seq<Seq<char>> {
    names.map_values(|n: &'static str| n@)
}

/// Build the menu tree; the theme radio of `mode` and the accent radio
/// `accent_idx` start checked. `accent_names` are the accent presets in order.
pub fn build(mode: ThemeMode, accent_idx: usize, accent_names: &[&'static str]) -> (r: MenuItem)
    requires
        accent_names@.len() <= MAX_ACCENTS,
    ensures
        menu_tree(r, mode, accent_idx, names_view(accent_names@)),
{
    let mut root = MenuItem::submenu(ROOT_ID, "");
    proof { reveal_strlit(""); }
    root.push_child(build_file());
    root.push_child(build_view(mode, accent_idx, accent_names));
    root.push_child(build_go());
    root.push_child(build_help());
    root
}

fn build_file() -> (r: MenuItem)
    ensures
        file_menu(r),
{
    let mut m = MenuItem::submenu(ID_FILE, "文件");
    m.push_child(MenuItem::standard(ID_OPEN_DL_DIR, "打开下载目录…"));
    m.push_child(MenuItem::standard(ID_CLEAR_CACHE, "清理缓存"));
    m.push_child(MenuItem::separator(ID_FILE_SEP_1));
    m.push_child(MenuItem::standard(ID_QUIT, "退出"));
    m
}

fn build_view(mode: ThemeMode, accent_idx: usize, accent_names: &[&'static str]) -> (r: MenuItem)
    requires
        accent_names@.len() <= MAX_ACCENTS,
    ensures
        view_shape(r, theme_flags(mode), accent_flags(accent_idx, accent_names@.len()), names_view(accent_names@)),
{
    let mut m = MenuItem::submenu(ID_VIEW, "视图");
    m.push_child(MenuItem::standard(ID_TOGGLE_SIDEBAR, "折叠/展开侧栏"));
    m.push_child(MenuItem::separator(ID_VIEW_SEP_1));

    let mut theme_sub = MenuItem::submenu(ID_THEME_SUBMENU, "主题");
    theme_sub.push_child(MenuItem::radio(ID_THEME_SYSTEM, "跟随系统", mode == ThemeMode::System));
    theme_sub.push_child(MenuItem::radio(ID_THEME_LIGHT, "浅色", mode == ThemeMode::Light));
    theme_sub.push_child(MenuItem::radio(ID_THEME_DARK, "深色", mode == ThemeMode::Dark));
    m.push_child(theme_sub);

    let mut accent_sub = MenuItem::submenu(ID_ACCENT_SUBMENU, "强调色");
    let mut i: usize = 0;
    while i < accent_names.len()
        invariant
            accent_names@.len() <= MAX_ACCENTS,
            0 <= i <= accent_names@.len(),
            plain_head(accent_sub, ID_ACCENT_SUBMENU, "强调色"@, false),
            accent_sub.children@.len() == i,
            forall|k: int| #![trigger accent_sub.children@[k]] 0 <= k < i ==>
                is_radio(accent_sub.children@[k], (ID_ACCENT_BASE + k) as i32, accent_names@[k]@, k == accent_idx),
        decreases accent_names.len() - i,
    {
        accent_sub.push_child(MenuItem::radio(ID_ACCENT_BASE + i as i32, accent_names[i], i == accent_idx));
        i = i + 1;
    }
    proof {
        let names = names_view(accent_names@);
        let af = accent_flags(accent_idx, accent_names@.len());
        assert forall|k: int| #![trigger accent_sub.children@[k]] 0 <= k < names.len() implies
            is_radio(accent_sub.children@[k], (ID_ACCENT_BASE + k) as i32, names[k], af[k]) by {
            assert(names[k] == accent_names@[k]@);
        }
        assert(accent_shape(accent_sub, af, names));
    }
    m.push_child(accent_sub);
    m
}

fn build_go() -> (r: MenuItem)
    ensures
        go_menu(r),
{
    let mut m = MenuItem::submenu(ID_GO, "转到");
    m.push_child(MenuItem::standard(ID_GO_HOME, "首页"));
    m.push_child(MenuItem::standard(ID_GO_BROWSE, "浏览"));
    m.push_child(MenuItem::standard(ID_GO_COMMUNITY, "社区"));
    m.push_child(MenuItem::standard(ID_GO_PROFILE, "个人"));
    m
}

fn build_help() -> (r: MenuItem)
    ensures
        help_menu(r),
{
    let mut m = MenuItem::submenu(ID_HELP, "帮助");
    m.push_child(MenuItem::standard(ID_ABOUT, "关于 PezMax One"));
    m.push_child(MenuItem::standard(ID_HOMEPAGE, "项目主页"));
    m.push_child(MenuItem::standard(ID_LOG_DIR, "打开日志目录"));
    m
}

/// The command a click on item `id` stands for, given the number of accent
/// presets; `None` for separators, submenu heads and unknown ids.
pub open spec fn command_of(id: i32, accent_count: nat) -> Option<MenuCommand> {
    if id == ID_OPEN_DL_DIR {
        Some(MenuCommand::OpenDownloadDir)
    } else if id == ID_CLEAR_CACHE {
        Some(MenuCommand::ClearCache)
    } else if id == ID_QUIT {
        Some(MenuCommand::Quit)
    } else if id == ID_TOGGLE_SIDEBAR {
        Some(MenuCommand::ToggleSidebar)
    } else if id == ID_THEME_SYSTEM {
        Some(MenuCommand::SetThemeMode(ThemeMode::System))
    } else if id == ID_THEME_LIGHT {
        Some(MenuCommand::SetThemeMode(ThemeMode::Light))
    } else if id == ID_THEME_DARK {
        Some(MenuCommand::SetThemeMode(ThemeMode::Dark))
    } else if id == ID_GO_HOME {
        Some(MenuCommand::NavigateTo(Section::Home))
    } else if id == ID_GO_BROWSE {
        Some(MenuCommand::NavigateTo(Section::Browse))
    } else if id == ID_GO_COMMUNITY {
        Some(MenuCommand::NavigateTo(Section::Community))
    } else if id == ID_GO_PROFILE {
        Some(MenuCommand::NavigateTo(Section::Profile))
    } else if id == ID_ABOUT {
        Some(MenuCommand::About)
    } else if id == ID_HOMEPAGE {
        Some(MenuCommand::OpenHomepage)
    } else if id == ID_LOG_DIR {
        Some(MenuCommand::OpenLogDir)
    } else if ID_ACCENT_BASE <= id < ID_ACCENT_BASE + accent_count {
        Some(MenuCommand::SetAccent((id - ID_ACCENT_BASE) as usize))
    } else {
        None
    }
}

/// Map a clicked item id to its command.
pub fn id_to_command(id: i32, accent_count: usize) -> (r: Option<MenuCommand>)
    requires
        accent_count <= MAX_ACCENTS,
    ensures
        r == command_of(id, accent_count as nat),
{
    if id == ID_OPEN_DL_DIR {
        Some(MenuCommand::OpenDownloadDir)
    } else if id == ID_CLEAR_CACHE {
        Some(MenuCommand::ClearCache)
    } else if id == ID_QUIT {
        Some(MenuCommand::Quit)
    } else if id == ID_TOGGLE_SIDEBAR {
        Some(MenuCommand::ToggleSidebar)
    } else if id == ID_THEME_SYSTEM {
        Some(MenuCommand::SetThemeMode(ThemeMode::System))
    } else if id == ID_THEME_LIGHT {
        Some(MenuCommand::SetThemeMode(ThemeMode::Light))
    } else if id == ID_THEME_DARK {
        Some(MenuCommand::SetThemeMode(ThemeMode::Dark))
    } else if id == ID_GO_HOME {
        Some(MenuCommand::NavigateTo(Section::Home))
    } else if id == ID_GO_BROWSE {
        Some(MenuCommand::NavigateTo(Section::Browse))
    } else if id == ID_GO_COMMUNITY {
        Some(MenuCommand::NavigateTo(Section::Community))
    } else if id == ID_GO_PROFILE {
        Some(MenuCommand::NavigateTo(Section::Profile))
    } else if id == ID_ABOUT {
        Some(MenuCommand::About)
    } else if id == ID_HOMEPAGE {
        Some(MenuCommand::OpenHomepage)
    } else if id == ID_LOG_DIR {
        Some(MenuCommand::OpenLogDir)
    } else if ID_ACCENT_BASE <= id && id < ID_ACCENT_BASE + accent_count as i32 {
        Some(MenuCommand::SetAccent((id - ID_ACCENT_BASE) as usize))
    } else {
        None
    }
}

/// Item id of a theme mode.
pub open spec fn theme_id(mode: ThemeMode) -> i32 {
    match mode {
        ThemeMode::System => ID_THEME_SYSTEM,
        ThemeMode::Light => ID_THEME_LIGHT,
        ThemeMode::Dark => ID_THEME_DARK,
    }
}

pub fn theme_mode_id(mode: ThemeMode) -> (r: i32)
    ensures
        r == theme_id(mode),
{
    match mode {
        ThemeMode::System => ID_THEME_SYSTEM,
        ThemeMode::Light => ID_THEME_LIGHT,
        ThemeMode::Dark => ID_THEME_DARK,
    }
}

/// The ids of all theme items.
pub fn theme_all_ids() -> (r: [i32; 3])
    ensures
        r@ == seq![ID_THEME_SYSTEM, ID_THEME_LIGHT, ID_THEME_DARK],
{
    [ID_THEME_SYSTEM, ID_THEME_LIGHT, ID_THEME_DARK]
}

/// Clicking the theme radio of a mode asks for that mode.
pub proof fn lemma_theme_item_command(mode: ThemeMode, accent_count: nat)
    requires
        accent_count <= MAX_ACCENTS,
    ensures
        command_of(theme_id(mode), accent_count) == Some(MenuCommand::SetThemeMode(mode)),
{
}

/// Clicking accent radio `i` asks for accent preset `i`, and only the ids of
/// existing presets do.
pub proof fn lemma_accent_item_command(i: int, accent_count: nat)
    requires
        accent_count <= MAX_ACCENTS,
    ensures
        0 <= i < accent_count ==> command_of((ID_ACCENT_BASE + i) as i32, accent_count)
            == Some(MenuCommand::SetAccent(i as usize)),
        accent_count <= i < MAX_ACCENTS ==> command_of((ID_ACCENT_BASE + i) as i32, accent_count) is None,
{
}

} // verus!
