//! Sections, sub-tabs and navigation decisions of the main window.

use vstd::prelude::*;
use crate::models::UserInfo;

verus! {

/// Sub-page shown while the user is not logged in.
#[derive(Debug, Clone, Copy, PartialEq, Eq, Structural)]
pub enum AuthPage {
    Login,
    Register,
    ForgetPassword,
}

/// Top-level area of the sidebar.
#[derive(Debug, Clone, Copy, PartialEq, Eq, Structural)]
pub enum Section {
    Home,
    Browse,
    Community,
    Profile,
}

/// Tab inside a section.
#[derive(Debug, Clone, Copy, PartialEq, Eq, Structural)]
pub enum Subsection {
    Blank,
    ResourceManager,
    ExternalBookmarks,
    MyFavorites,
    UserRanking,
    ContributeFile,
    ReportRecord,
    PersonalCenter,
    Notifications,
    DownloadHistory,
    AppSettings,
}

/// Part of the account settings that is being edited.
#[derive(Debug, Clone, Copy, PartialEq, Eq, Structural)]
pub enum AccountEditSection {
    Blank,
    Avatar,
    Username,
    Security,
    Password,
}

/// What a click on the bottom bar of the paper view asks for.
#[derive(Debug, Clone, Copy, PartialEq, Eq, Structural)]
pub enum Action {
    NoAction,
    Back,
    Download,
    Favorite,
    Report,
    ToggleInfo,
}

/// Result of a successful login: the session token and the user.
pub struct LoginResult {
    pub token: String,
    pub user: UserInfo,
}

/// Severity of a toast message.
#[derive(Debug, Clone, Copy, PartialEq, Eq, Structural)]
pub enum ToastLevel {
    Info,
    Success,
    Warning,
    Error,
}

/// The title a section is shown with.
pub open spec fn section_title(s: Section) -> Seq<char> {
    match s {
        Section::Home => "首页"@,
        Section::Browse => "浏览"@,
        Section::Community => "社区"@,
        Section::Profile => "个人"@,
    }
}

/// Position of a section in the sidebar, top to bottom.
pub open spec fn section_index(s: Section) -> nat {
    match s {
        Section::Home => 0,
        Section::Browse => 1,
        Section::Community => 2,
        Section::Profile => 3,
    }
}

/// The tabs of a section, in display order (Home has none).
pub open spec fn section_tabs(s: Section) -> Seq<Subsection> {
    match s {
        Section::Home => seq![],
        Section::Browse => seq![
            Subsection::ResourceManager,
            Subsection::ExternalBookmarks,
            Subsection::MyFavorites,
        ],
        Section::Community => seq![
            Subsection::UserRanking,
            Subsection::ContributeFile,
            Subsection::ReportRecord,
        ],
        Section::Profile => seq![
            Subsection::PersonalCenter,
            Subsection::Notifications,
            Subsection::DownloadHistory,
            Subsection::AppSettings,
        ],
    }
}

/// The tab a section opens on.
pub open spec fn default_tab(s: Section) -> Subsection {
    match s {
        Section::Home => Subsection::Blank,
        Section::Browse => Subsection::ResourceManager,
        Section::Community => Subsection::UserRanking,
        Section::Profile => Subsection::PersonalCenter,
    }
}

/// Index of the first occurrence of `sub` in `tabs`, if any.
pub open spec fn tab_position(tabs: Seq<Subsection>, sub: Subsection) -> Option<nat>
    decreases tabs.len(),
{
    if tabs.len() == 0 {
        None
    } else if tabs[0] == sub {
        Some(0)
    } else {
        match tab_position(tabs.drop_first(), sub) {
            Some(i) => Some(i + 1),
            None => None,
        }
    }
}

impl Section {
    pub fn index(self) -> (r: usize)
        ensures
            r == section_index(self),
    {
        match self {
            Section::Home => 0,
            Section::Browse => 1,
            Section::Community => 2,
            Section::Profile => 3,
        }
    }

    pub fn title(self) -> (r: &'static str)
        ensures
            r@ == section_title(self),
    {
        match self {
            Section::Home => "首页",
            Section::Browse => "浏览",
            Section::Community => "社区",
            Section::Profile => "个人",
        }
    }

    pub fn icon(self) -> (r: &'static str)
        ensures
            r@ == match self {
                Section::Home => "🏠"@,
                Section::Browse => "📂"@,
                Section::Community => "👥"@,
                Section::Profile => "👤"@,
            },
    {
        match self {
            Section::Home => "🏠",
            Section::Browse => "📂",
            Section::Community => "👥",
            Section::Profile => "👤",
        }
    }

    pub fn default_subsection(self) -> (r: Subsection)
        ensures
            r == default_tab(self),
    {
        match self {
            Section::Home => Subsection::Blank,
            Section::Browse => Subsection::ResourceManager,
            Section::Community => Subsection::UserRanking,
            Section::Profile => Subsection::PersonalCenter,
        }
    }

    /// The tabs of this section with their labels, in display order.
    pub fn subsections(self) -> (r: Vec<(Subsection, &'static str)>)
        ensures
            r@.len() == section_tabs(self).len(),
            forall|i: int| 0 <= i < r@.len() ==> #[trigger] r@[i].0 == section_tabs(self)[i],
            forall|i: int| 0 <= i < r@.len() ==> #[trigger] r@[i].1@ == tab_label(r@[i].0),
    {
        match self {
            Section::Home => vec![],
            Section::Browse => vec![
                (Subsection::ResourceManager, "资源管理"),
                (Subsection::ExternalBookmarks, "外部书签"),
                (Subsection::MyFavorites, "我的收藏"),
            ],
            Section::Community => vec![
                (Subsection::UserRanking, "用户排行"),
                (Subsection::ContributeFile, "贡献文件"),
                (Subsection::ReportRecord, "举报记录"),
            ],
            Section::Profile => vec![
                (Subsection::PersonalCenter, "个人中心"),
                (Subsection::Notifications, "通知"),
                (Subsection::DownloadHistory, "下载记录"),
                (Subsection::AppSettings, "设置"),
            ],
        }
    }
}

/// Label shown on a tab.
pub open spec fn tab_label(sub: Subsection) -> Seq<char> {
    match sub {
        Subsection::Blank => seq![],
        Subsection::ResourceManager => "资源管理"@,
        Subsection::ExternalBookmarks => "外部书签"@,
        Subsection::MyFavorites => "我的收藏"@,
        Subsection::UserRanking => "用户排行"@,
        Subsection::ContributeFile => "贡献文件"@,
        Subsection::ReportRecord => "举报记录"@,
        Subsection::PersonalCenter => "个人中心"@,
        Subsection::Notifications => "通知"@,
        Subsection::DownloadHistory => "下载记录"@,
        Subsection::AppSettings => "设置"@,
    }
}


/// Exec form of `tab_position` over the tabs of `section`.
fn position_in(section: Section, sub: Subsection) -> (r: Option<usize>)
    ensures
        r is Some ==> tab_position(section_tabs(section), sub) == Some(r->0 as nat),
        r is None ==> tab_position(section_tabs(section), sub) is None,
{
    let tabs = section.subsections();
    let ghost t = section_tabs(section);
    let mut i: usize = 0;
    while i < tabs.len()
        invariant
            t == section_tabs(section),
            tabs@.len() == t.len(),
            forall|k: int| 0 <= k < tabs@.len() ==> #[trigger] tabs@[k].0 == t[k],
            0 <= i <= tabs.len(),
            forall|k: int| 0 <= k < i ==> t[k] != sub,
        decreases tabs.len() - i,
    {
        if tabs[i].0 == sub {
            assert(tabs@[i as int].0 == t[i as int]);
            proof { lemma_tab_position_first(t, sub, i as int); }
            return Some(i);
        }
        assert(tabs@[i as int].0 == t[i as int]);
        i = i + 1;
    }
    proof { lemma_tab_position_absent(t, sub); }
    None
}

proof fn lemma_tab_position_first(t: Seq<Subsection>, sub: Subsection, i: int)
    requires
        0 <= i < t.len(),
        t[i] == sub,
        forall|k: int| 0 <= k < i ==> t[k] != sub,
    ensures
        tab_position(t, sub) == Some(i as nat),
    decreases t.len(),
{
    if i > 0 {
        lemma_tab_position_first(t.drop_first(), sub, i - 1);
    }
}

proof fn lemma_tab_position_absent(t: Seq<Subsection>, sub: Subsection)
    requires
        forall|k: int| 0 <= k < t.len() ==> t[k] != sub,
    ensures
        tab_position(t, sub) is None,
    decreases t.len(),
{
    if t.len() > 0 {
        lemma_tab_position_absent(t.drop_first(), sub);
    }
}

/// The section and tab currently shown.
#[derive(Debug, Clone, Copy, PartialEq, Eq, Structural)]
pub struct NavState {
    pub section: Section,
    pub subsection: Subsection,
}

/// What the window has to do after a navigation step.
#[derive(Debug, Clone, Copy, PartialEq, Eq, Structural)]
pub struct NavEffect {
    /// The section changed: restart the page-enter animation and move the sidebar indicator.
    pub section_changed: bool,
    /// New target index of the tab indicator, if it moves.
    pub tab_indicator: Option<usize>,
    /// Slide the content: `Some(true)` forward (to a later tab), `Some(false)` backward.
    pub slide_forward: Option<bool>,
    /// Reload the user statistics (home and profile pages show them).
    pub refresh_stats: bool,
}

/// Home and Profile display the user's statistics.
pub open spec fn shows_stats(s: Section) -> bool {
    s == Section::Home || s == Section::Profile
}

/// Slide direction when moving from tab `old` to tab `new` inside a section.
pub open spec fn slide_between(old: Option<nat>, new: nat) -> Option<bool> {
    match old {
        Some(o) => if o != new { Some(new > o) } else { None },
        None => None,
    }
}

/// Index of `sub` among the tabs of `s`, 0 when it is not one of them.
pub open spec fn tab_index_or_first(s: Section, sub: Subsection) -> nat {
    match tab_position(section_tabs(s), sub) {
        Some(i) => i,
        None => 0,
    }
}

impl NavState {
    /// The state the window starts in.
    pub fn new() -> (r: NavState)
        ensures
            r.section == Section::Home,
            r.subsection == Subsection::Blank,
    {
        NavState { section: Section::Home, subsection: Subsection::Blank }
    }

    /// Switch to a section and open its default tab.
    pub fn navigate_section(&mut self, section: Section) -> (e: NavEffect)
        ensures
            final(self).section == section,
            final(self).subsection == default_tab(section),
            e.section_changed == (old(self).section != section),
            e.tab_indicator == (if old(self).section != section { Some(0usize) } else { None::<usize> }),
            e.slide_forward is None,
            e.refresh_stats == shows_stats(section),
    {
        let changed = self.section != section;
        self.section = section;
        self.subsection = section.default_subsection();
        NavEffect {
            section_changed: changed,
            tab_indicator: if changed { Some(0) } else { None },
            slide_forward: None,
            refresh_stats: section == Section::Home || section == Section::Profile,
        }
    }

    /// Jump to a given section and tab.
    pub fn navigate_to(&mut self, section: Section, sub: Subsection) -> (e: NavEffect)
        ensures
            final(self).section == section,
            final(self).subsection == sub,
            e.section_changed == (old(self).section != section),
            e.tab_indicator matches Some(i) && i as nat == tab_index_or_first(section, sub),
            e.slide_forward == (if old(self).section == section {
                slide_between(
                    tab_position(section_tabs(section), old(self).subsection),
                    tab_index_or_first(section, sub),
                )
            } else {
                None::<bool>
            }),
            e.refresh_stats == shows_stats(section),
    {
        let same = self.section == section;
        let new_idx = match position_in(section, sub) {
            Some(i) => i,
            None => 0,
        };
        let mut slide: Option<bool> = None;
        if same {
            match position_in(section, self.subsection) {
                Some(o) => {
                    if o != new_idx {
                        slide = Some(new_idx > o);
                    }
                },
                None => {},
            }
        }
        self.section = section;
        self.subsection = sub;
        NavEffect {
            section_changed: !same,
            tab_indicator: Some(new_idx),
            slide_forward: slide,
            refresh_stats: section == Section::Home || section == Section::Profile,
        }
    }

    /// Switch tabs inside the current section.
    pub fn navigate_subsection(&mut self, sub: Subsection) -> (e: NavEffect)
        ensures
            final(self).section == old(self).section,
            final(self).subsection == sub,
            e.section_changed == false,
            e.tab_indicator matches Some(i) && i as nat == tab_index_or_first(old(self).section, sub),
            e.slide_forward == slide_between(
                tab_position(section_tabs(old(self).section), old(self).subsection),
                tab_index_or_first(old(self).section, sub),
            ),
            e.refresh_stats == shows_stats(old(self).section),
    {
        let section = self.section;
        let new_idx = match position_in(section, sub) {
            Some(i) => i,
            None => 0,
        };
        let mut slide: Option<bool> = None;
        match position_in(section, self.subsection) {
            Some(o) => {
                if o != new_idx {
                    slide = Some(new_idx > o);
                }
            },
            None => {},
        }
        self.subsection = sub;
        NavEffect {
            section_changed: false,
            tab_indicator: Some(new_idx),
            slide_forward: slide,
            refresh_stats: section == Section::Home || section == Section::Profile,
        }
    }
}

/// Most toasts shown at the same time.
pub const MAX_TOASTS: usize = 3;

/// Append a toast, dropping the oldest one when more than `MAX_TOASTS` would be shown.
pub fn add_toast<T>(toasts: &mut Vec<T>, toast: T)
    ensures
        final(toasts)@ == (if old(toasts)@.len() + 1 > MAX_TOASTS {
            old(toasts)@.push(toast).drop_first()
        } else {
            old(toasts)@.push(toast)
        }),
{
    toasts.push(toast);
    if toasts.len() > MAX_TOASTS {
        toasts.remove(0);
    }
}

/// Loading state of a piece of data fetched in the background.
pub struct AsyncData<T> {
    pub data: Option<T>,
    pub error: Option<String>,
    pub loading: bool,
    pub loaded: bool,
}

impl<T> AsyncData<T> {
    /// Never loading and loaded at once.
    pub open spec fn wf(&self) -> bool {
        !(self.loading && self.loaded)
    }

    pub fn new() -> (r: AsyncData<T>)
        ensures
            r.wf(),
            r.data is None,
            r.error is None,
            !r.loading,
            !r.loaded,
    {
        AsyncData { data: None, error: None, loading: false, loaded: false }
    }

    /// Ask to start a load. Returns whether the caller must start the fetch:
    /// a load that is running or finished is never started twice.
    pub fn load(&mut self) -> (started: bool)
        ensures
            old(self).wf() ==> final(self).wf(),
            started == (!old(self).loading && !old(self).loaded),
            final(self).loading == (old(self).loading || started),
            final(self).loaded == old(self).loaded,
            final(self).data == old(self).data,
            final(self).error == old(self).error,
    {
        if self.loading || self.loaded {
            return false;
        }
        self.loading = true;
        true
    }

    /// Record the outcome of the fetch that is running; an outcome that
    /// arrives when no fetch is running (it was reset meanwhile) is dropped.
    pub fn complete(&mut self, result: Result<T, String>)
        ensures
            old(self).wf() ==> final(self).wf(),
            !old(self).loading ==> *final(self) == *old(self),
            old(self).loading ==> {
                &&& !final(self).loading
                &&& final(self).loaded
                &&& match result {
                    Ok(d) => final(self).data == Some(d) && final(self).error == old(self).error,
                    Err(e) => final(self).error == Some(e) && final(self).data == old(self).data,
                }
            },
    {
        if !self.loading {
            return;
        }
        self.loading = false;
        match result {
            Ok(d) => {
                self.data = Some(d);
                self.loaded = true;
            },
            Err(e) => {
                self.error = Some(e);
                self.loaded = true;
            },
        }
    }

    /// Forget everything and start over; returns whether a fetch must start (always).
    pub fn reload(&mut self) -> (started: bool)
        ensures
            final(self).wf(),
            started,
            final(self).loading,
            !final(self).loaded,
            final(self).data is None,
            final(self).error is None,
    {
        self.reset();
        self.load()
    }

    pub fn is_loaded(&self) -> (r: bool)
        ensures
            r == self.loaded,
    {
        self.loaded
    }

    pub fn is_loading(&self) -> (r: bool)
        ensures
            r == self.loading,
    {
        self.loading
    }

    pub fn reset(&mut self)
        ensures
            final(self).wf(),
            final(self).data is None,
            final(self).error is None,
            !final(self).loading,
            !final(self).loaded,
    {
        self.data = None;
        self.error = None;
        self.loading = false;
        self.loaded = false;
    }
}

/// Filters of the browse page.
pub struct FilterState {
    pub subject: Option<String>,
    pub school: Option<String>,
}

impl FilterState {
    pub fn new() -> (r: FilterState)
        ensures
            r.subject is None,
            r.school is None,
    {
        FilterState { subject: None, school: None }
    }
}

/// A section with tabs opens on its first tab; Home has none.
pub proof fn lemma_default_tab_first(s: Section)
    ensures
        s == Section::Home ==> section_tabs(s).len() == 0 && default_tab(s) == Subsection::Blank,
        s != Section::Home ==> section_tabs(s).len() > 0 && default_tab(s) == section_tabs(s)[0]
            && tab_index_or_first(s, default_tab(s)) == 0,
{
}

/// Adding a toast never shows more than `MAX_TOASTS`, and the new toast is the last one shown.
pub proof fn lemma_toasts_bounded<T>(old_toasts: Seq<T>, toast: T)
    requires
        old_toasts.len() <= MAX_TOASTS,
    ensures
        ({
            let n = if old_toasts.len() + 1 > MAX_TOASTS {
                old_toasts.push(toast).drop_first()
            } else {
                old_toasts.push(toast)
            };
            n.len() <= MAX_TOASTS && n.last() == toast
        }),
{
}

} // verus!
