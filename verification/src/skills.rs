//! Skills: spoken commands that open programs and pages, press shortcuts or
//! change settings.
use vstd::prelude::*;

use crate::storage;
use crate::storage::{ProfileModel, PromptProfile};
use crate::text;

verus! {

/// How the browser skill finds the page for a spoken name.
pub struct BrowserOptions {
    pub llm_site_resolution_enabled: bool,
    pub search_fallback_enabled: bool,
    pub search_url_template: String,
}

/// How the Windows skill finds the target for a spoken name.
pub struct WindowsOptions {
    pub llm_target_resolution_enabled: bool,
}

/// One skill as the user has configured it.
pub struct SkillConfig {
    pub id: String,
    pub name: String,
    pub keywords: String,
    pub enabled: bool,
    pub browser_options: Option<BrowserOptions>,
    pub windows_options: Option<WindowsOptions>,
}

impl Clone for BrowserOptions {
    fn clone(&self) -> (r: Self)
        ensures
            r == *self,
    {
        BrowserOptions {
            llm_site_resolution_enabled: self.llm_site_resolution_enabled,
            search_fallback_enabled: self.search_fallback_enabled,
            search_url_template: self.search_url_template.clone(),
        }
    }
}

impl Clone for WindowsOptions {
    fn clone(&self) -> (r: Self)
        ensures
            r == *self,
    {
        WindowsOptions { llm_target_resolution_enabled: self.llm_target_resolution_enabled }
    }
}

impl Clone for SkillConfig {
    fn clone(&self) -> (r: Self)
        ensures
            r == *self,
    {
        SkillConfig {
            id: self.id.clone(),
            name: self.name.clone(),
            keywords: self.keywords.clone(),
            enabled: self.enabled,
            browser_options: self.browser_options.clone(),
            windows_options: self.windows_options.clone(),
        }
    }
}

/// The ids of skills that are no longer offered.
pub open spec fn is_retired(id: Seq<char>) -> bool {
    id == "enable_polish"@ || id == "disable_polish"@
}

/// Some skill of `skills` has the id.
pub open spec fn has_skill(skills: Seq<SkillConfig>, id: Seq<char>) -> bool {
    exists|i: int| 0 <= i < skills.len() && (#[trigger] skills[i]).id@ == id
}

/// The skills that are still offered, in their order.
pub open spec fn still_offered(skills: Seq<SkillConfig>) -> Seq<SkillConfig>
    decreases skills.len(),
{
    if skills.len() == 0 {
        seq![]
    } else {
        let rest = still_offered(skills.drop_last());
        if is_retired(skills.last().id@) {
            rest
        } else {
            rest.push(skills.last())
        }
    }
}

/// The skills of the catalogue whose ids do not occur in `skills`, in their order.
pub open spec fn missing_from(skills: Seq<SkillConfig>, catalogue: Seq<SkillConfig>) -> Seq<
    SkillConfig,
>
    decreases catalogue.len(),
{
    if catalogue.len() == 0 {
        seq![]
    } else {
        let rest = missing_from(skills, catalogue.drop_last());
        if has_skill(skills, catalogue.last().id@) {
            rest
        } else {
            rest.push(catalogue.last())
        }
    }
}

/// The configured skills that are still offered, and behind them what the catalogue has
/// besides.
pub open spec fn merged_skills(existing: Seq<SkillConfig>, catalogue: Seq<SkillConfig>) -> Seq<
    SkillConfig,
> {
    still_offered(existing) + missing_from(still_offered(existing), catalogue)
}

/// Merging takes a skill away or adds one.
pub open spec fn merging_changes(existing: Seq<SkillConfig>, catalogue: Seq<SkillConfig>) -> bool {
    ||| still_offered(existing).len() != existing.len()
    ||| missing_from(still_offered(existing), catalogue).len() != 0
}

fn find_skill(skills: &Vec<SkillConfig>, upto: usize, id: &str) -> (r: bool)
    requires
        upto <= skills@.len(),
    ensures
        r == has_skill(skills@.take(upto as int), id@),
{
    for i in 0..upto
        invariant
            upto <= skills@.len(),
            forall|k: int| 0 <= k < i ==> (#[trigger] skills@[k]).id@ != id@,
    {
        if text::str_eq(skills[i].id.as_str(), id) {
            assert(skills@.take(upto as int)[i as int].id@ == id@);
            return true;
        }
    }
    assert forall|k: int| 0 <= k < upto implies (#[trigger] skills@.take(upto as int)[k]).id@
        != id@ by {
        assert(skills@.take(upto as int)[k] == skills@[k]);
    }
    false
}

/// The configured skills brought up to date with the catalogue, and whether that
/// changed them.
pub fn merge_with_default_skills(
    existing: Vec<SkillConfig>,
    default_skills: Vec<SkillConfig>,
) -> (r: (Vec<SkillConfig>, bool))
    ensures
        r.0@ == merged_skills(existing@, default_skills@),
        r.1 == merging_changes(existing@, default_skills@),
{
    let mut merged: Vec<SkillConfig> = Vec::new();
    let mut changed = false;
    let ghost all = existing@;
    assert(all.take(0) =~= seq![]);
    for i in 0..existing.len()
        invariant
            all == existing@,
            merged@ == still_offered(all.take(i as int)),
            merged@.len() <= i,
            changed == (merged@.len() != i),
    {
        assert(all.take(i + 1).drop_last() =~= all.take(i as int));
        assert(all.take(i + 1).last() == all[i as int]);
        let skill = &existing[i];
        let id = skill.id.as_str();
        if text::str_eq(id, "enable_polish") || text::str_eq(id, "disable_polish") {
            changed = true;
        } else {
            merged.push(skill.clone());
        }
    }
    assert(all.take(all.len() as int) =~= all);
    let ghost base = merged@;
    let kept: usize = merged.len();
    let ghost catalogue = default_skills@;
    assert(catalogue.take(0) =~= seq![]);
    assert(base + missing_from(base, catalogue.take(0)) =~= base);
    for i in 0..default_skills.len()
        invariant
            catalogue == default_skills@,
            base == still_offered(all),
            kept == base.len(),
            merged@ == base + missing_from(base, catalogue.take(i as int)),
            changed == (base.len() != all.len() || missing_from(
                base,
                catalogue.take(i as int),
            ).len() != 0),
    {
        let ghost before = missing_from(base, catalogue.take(i as int));
        assert(catalogue.take(i + 1).drop_last() =~= catalogue.take(i as int));
        assert(catalogue.take(i + 1).last() == catalogue[i as int]);
        assert(merged@.take(kept as int) =~= base);
        let skill = &default_skills[i];
        if !find_skill(&merged, kept, skill.id.as_str()) {
            merged.push(skill.clone());
            assert(merged@ =~= base + before.push(catalogue[i as int]));
            changed = true;
        }
    }
    assert(catalogue.take(catalogue.len() as int) =~= catalogue);
    (merged, changed)
}

proof fn lemma_offered_not_retired(skills: Seq<SkillConfig>, i: int)
    requires
        0 <= i < still_offered(skills).len(),
    ensures
        !is_retired(still_offered(skills)[i].id@),
    decreases skills.len(),
{
    let rest = still_offered(skills.drop_last());
    if i < rest.len() {
        lemma_offered_not_retired(skills.drop_last(), i);
    }
}

proof fn lemma_offered_settles(skills: Seq<SkillConfig>)
    requires
        forall|i: int| 0 <= i < skills.len() ==> !is_retired((#[trigger] skills[i]).id@),
    ensures
        still_offered(skills) == skills,
    decreases skills.len(),
{
    if skills.len() > 0 {
        assert forall|i: int| 0 <= i < skills.drop_last().len() implies !is_retired(
            (#[trigger] skills.drop_last()[i]).id@,
        ) by {
            assert(skills.drop_last()[i] == skills[i]);
        }
        lemma_offered_settles(skills.drop_last());
        assert(skills.drop_last().push(skills.last()) =~= skills);
        assert(skills.last() == skills[skills.len() - 1]);
    }
}

proof fn lemma_missing_is_catalogue(
    skills: Seq<SkillConfig>,
    catalogue: Seq<SkillConfig>,
    i: int,
)
    requires
        0 <= i < missing_from(skills, catalogue).len(),
    ensures
        exists|j: int|
            0 <= j < catalogue.len() && #[trigger] catalogue[j] == missing_from(
                skills,
                catalogue,
            )[i],
    decreases catalogue.len(),
{
    let rest = missing_from(skills, catalogue.drop_last());
    if i < rest.len() {
        lemma_missing_is_catalogue(skills, catalogue.drop_last(), i);
        let j = choose|j: int|
            0 <= j < catalogue.drop_last().len() && #[trigger] catalogue.drop_last()[j] == rest[i];
        assert(catalogue[j] == rest[i]);
    } else {
        assert(catalogue[catalogue.len() - 1] == missing_from(skills, catalogue)[i]);
    }
}

proof fn lemma_missing_covers(skills: Seq<SkillConfig>, catalogue: Seq<SkillConfig>, j: int)
    requires
        0 <= j < catalogue.len(),
    ensures
        has_skill(skills + missing_from(skills, catalogue), catalogue[j].id@),
    decreases catalogue.len(),
{
    let id = catalogue[j].id@;
    let missing = missing_from(skills, catalogue);
    let all = skills + missing;
    if has_skill(skills, id) {
        let i = choose|i: int| 0 <= i < skills.len() && (#[trigger] skills[i]).id@ == id;
        assert(all[i].id@ == id);
    } else if j == catalogue.len() - 1 {
        assert(missing.last() == catalogue.last());
        assert(all[all.len() - 1].id@ == id);
    } else {
        let shorter = missing_from(skills, catalogue.drop_last());
        lemma_missing_covers(skills, catalogue.drop_last(), j);
        assert(catalogue.drop_last()[j] == catalogue[j]);
        let before = skills + shorter;
        let i = choose|i: int| 0 <= i < before.len() && (#[trigger] before[i]).id@ == id;
        assert(all[i] == before[i]);
        assert(all[i].id@ == id);
    }
}

proof fn lemma_nothing_missing(skills: Seq<SkillConfig>, catalogue: Seq<SkillConfig>)
    requires
        forall|j: int| 0 <= j < catalogue.len() ==> has_skill(skills, (#[trigger] catalogue[j]).id@),
    ensures
        missing_from(skills, catalogue).len() == 0,
    decreases catalogue.len(),
{
    if catalogue.len() > 0 {
        assert forall|j: int| 0 <= j < catalogue.drop_last().len() implies has_skill(
            skills,
            (#[trigger] catalogue.drop_last()[j]).id@,
        ) by {
            assert(catalogue.drop_last()[j] == catalogue[j]);
        }
        lemma_nothing_missing(skills, catalogue.drop_last());
        assert(has_skill(skills, catalogue[catalogue.len() - 1].id@));
    }
}

/// A catalogue is merged in once: with one that offers no retired skill, merging again
/// changes nothing, every skill of the catalogue is there, and no retired one is.
pub proof fn law_merging_settles(existing: Seq<SkillConfig>, catalogue: Seq<SkillConfig>)
    requires
        forall|j: int| 0 <= j < catalogue.len() ==> !is_retired((#[trigger] catalogue[j]).id@),
    ensures
        !merging_changes(merged_skills(existing, catalogue), catalogue),
        merged_skills(merged_skills(existing, catalogue), catalogue) == merged_skills(
            existing,
            catalogue,
        ),
        forall|j: int|
            0 <= j < catalogue.len() ==> has_skill(
                merged_skills(existing, catalogue),
                (#[trigger] catalogue[j]).id@,
            ),
        forall|i: int|
            0 <= i < merged_skills(existing, catalogue).len() ==> !is_retired(
                (#[trigger] merged_skills(existing, catalogue)[i]).id@,
            ),
{
    let kept = still_offered(existing);
    let missing = missing_from(kept, catalogue);
    let merged = merged_skills(existing, catalogue);
    assert forall|i: int| 0 <= i < merged.len() implies !is_retired((#[trigger] merged[i]).id@) by {
        if i < kept.len() {
            lemma_offered_not_retired(existing, i);
        } else {
            lemma_missing_is_catalogue(kept, catalogue, i - kept.len());
        }
    }
    lemma_offered_settles(merged);
    assert forall|j: int| 0 <= j < catalogue.len() implies has_skill(
        merged,
        (#[trigger] catalogue[j]).id@,
    ) by {
        lemma_missing_covers(kept, catalogue, j);
    }
    lemma_nothing_missing(merged, catalogue);
    assert(merged + missing_from(merged, catalogue) =~= merged);
}

/// What can be asked of the browser.
#[allow(inconsistent_fields)]
pub enum BrowserAction {
    /// Open the page that the spoken name stands for.
    OpenTarget { query: String },
    /// Go to the tab with the given number.
    SwitchTabIndex { index: usize },
    /// Search in the page.
    Find { query: Option<String> },
    NewTab,
    CloseTab,
    NextTab,
    PreviousTab,
    ReopenTab,
    GoBack,
    GoForward,
    Refresh,
    HardRefresh,
    StopLoading,
    GoHome,
    ScrollUp,
    ScrollDown,
    ScrollTop,
    ScrollBottom,
    PageUp,
    PageDown,
    Fullscreen,
    CopyUrl,
    OpenHistory,
    OpenDownloads,
    OpenDevtools,
    MinimizeWindow,
    MaximizeWindow,
    NewPrivateWindow,
    CloseOtherTabs,
    CloseTabsToRight,
}

/// What can be asked of the desktop.
pub enum WindowsAction {
    /// Open what the spoken name stands for.
    OpenTarget { query: String },
    ShowDesktop,
    LockScreen,
    OpenRunDialog,
    OpenClipboardHistory,
    OpenQuickSettings,
    OpenNotifications,
}

impl Clone for BrowserAction {
    fn clone(&self) -> (r: Self)
        ensures
            r == *self,
    {
        match self {
            BrowserAction::OpenTarget { query } => BrowserAction::OpenTarget {
                query: query.clone(),
            },
            BrowserAction::SwitchTabIndex { index } => BrowserAction::SwitchTabIndex { index: *index },
            BrowserAction::Find { query } => BrowserAction::Find { query: query.clone() },
            BrowserAction::NewTab => BrowserAction::NewTab,
            BrowserAction::CloseTab => BrowserAction::CloseTab,
            BrowserAction::NextTab => BrowserAction::NextTab,
            BrowserAction::PreviousTab => BrowserAction::PreviousTab,
            BrowserAction::ReopenTab => BrowserAction::ReopenTab,
            BrowserAction::GoBack => BrowserAction::GoBack,
            BrowserAction::GoForward => BrowserAction::GoForward,
            BrowserAction::Refresh => BrowserAction::Refresh,
            BrowserAction::HardRefresh => BrowserAction::HardRefresh,
            BrowserAction::StopLoading => BrowserAction::StopLoading,
            BrowserAction::GoHome => BrowserAction::GoHome,
            BrowserAction::ScrollUp => BrowserAction::ScrollUp,
            BrowserAction::ScrollDown => BrowserAction::ScrollDown,
            BrowserAction::ScrollTop => BrowserAction::ScrollTop,
            BrowserAction::ScrollBottom => BrowserAction::ScrollBottom,
            BrowserAction::PageUp => BrowserAction::PageUp,
            BrowserAction::PageDown => BrowserAction::PageDown,
            BrowserAction::Fullscreen => BrowserAction::Fullscreen,
            BrowserAction::CopyUrl => BrowserAction::CopyUrl,
            BrowserAction::OpenHistory => BrowserAction::OpenHistory,
            BrowserAction::OpenDownloads => BrowserAction::OpenDownloads,
            BrowserAction::OpenDevtools => BrowserAction::OpenDevtools,
            BrowserAction::MinimizeWindow => BrowserAction::MinimizeWindow,
            BrowserAction::MaximizeWindow => BrowserAction::MaximizeWindow,
            BrowserAction::NewPrivateWindow => BrowserAction::NewPrivateWindow,
            BrowserAction::CloseOtherTabs => BrowserAction::CloseOtherTabs,
            BrowserAction::CloseTabsToRight => BrowserAction::CloseTabsToRight,
        }
    }
}

impl Clone for WindowsAction {
    fn clone(&self) -> (r: Self)
        ensures
            r == *self,
    {
        match self {
            WindowsAction::OpenTarget { query } => WindowsAction::OpenTarget {
                query: query.clone(),
            },
            WindowsAction::ShowDesktop => WindowsAction::ShowDesktop,
            WindowsAction::LockScreen => WindowsAction::LockScreen,
            WindowsAction::OpenRunDialog => WindowsAction::OpenRunDialog,
            WindowsAction::OpenClipboardHistory => WindowsAction::OpenClipboardHistory,
            WindowsAction::OpenQuickSettings => WindowsAction::OpenQuickSettings,
            WindowsAction::OpenNotifications => WindowsAction::OpenNotifications,
        }
    }
}

impl BrowserAction {
    /// The name of the action.
    pub open spec fn variant_text(self) -> Seq<char> {
        match self {
            BrowserAction::OpenTarget { .. } => "OpenTarget"@,
            BrowserAction::SwitchTabIndex { .. } => "SwitchTabIndex"@,
            BrowserAction::Find { .. } => "Find"@,
            BrowserAction::NewTab => "NewTab"@,
            BrowserAction::CloseTab => "CloseTab"@,
            BrowserAction::NextTab => "NextTab"@,
            BrowserAction::PreviousTab => "PreviousTab"@,
            BrowserAction::ReopenTab => "ReopenTab"@,
            BrowserAction::GoBack => "GoBack"@,
            BrowserAction::GoForward => "GoForward"@,
            BrowserAction::Refresh => "Refresh"@,
            BrowserAction::HardRefresh => "HardRefresh"@,
            BrowserAction::StopLoading => "StopLoading"@,
            BrowserAction::GoHome => "GoHome"@,
            BrowserAction::ScrollUp => "ScrollUp"@,
            BrowserAction::ScrollDown => "ScrollDown"@,
            BrowserAction::ScrollTop => "ScrollTop"@,
            BrowserAction::ScrollBottom => "ScrollBottom"@,
            BrowserAction::PageUp => "PageUp"@,
            BrowserAction::PageDown => "PageDown"@,
            BrowserAction::Fullscreen => "Fullscreen"@,
            BrowserAction::CopyUrl => "CopyUrl"@,
            BrowserAction::OpenHistory => "OpenHistory"@,
            BrowserAction::OpenDownloads => "OpenDownloads"@,
            BrowserAction::OpenDevtools => "OpenDevtools"@,
            BrowserAction::MinimizeWindow => "MinimizeWindow"@,
            BrowserAction::MaximizeWindow => "MaximizeWindow"@,
            BrowserAction::NewPrivateWindow => "NewPrivateWindow"@,
            BrowserAction::CloseOtherTabs => "CloseOtherTabs"@,
            BrowserAction::CloseTabsToRight => "CloseTabsToRight"@,
        }
    }

    pub fn variant_name(&self) -> (r: &'static str)
        ensures
            r@ == self.variant_text(),
    {
        match self {
            BrowserAction::OpenTarget { .. } => "OpenTarget",
            BrowserAction::SwitchTabIndex { .. } => "SwitchTabIndex",
            BrowserAction::Find { .. } => "Find",
            BrowserAction::NewTab => "NewTab",
            BrowserAction::CloseTab => "CloseTab",
            BrowserAction::NextTab => "NextTab",
            BrowserAction::PreviousTab => "PreviousTab",
            BrowserAction::ReopenTab => "ReopenTab",
            BrowserAction::GoBack => "GoBack",
            BrowserAction::GoForward => "GoForward",
            BrowserAction::Refresh => "Refresh",
            BrowserAction::HardRefresh => "HardRefresh",
            BrowserAction::StopLoading => "StopLoading",
            BrowserAction::GoHome => "GoHome",
            BrowserAction::ScrollUp => "ScrollUp",
            BrowserAction::ScrollDown => "ScrollDown",
            BrowserAction::ScrollTop => "ScrollTop",
            BrowserAction::ScrollBottom => "ScrollBottom",
            BrowserAction::PageUp => "PageUp",
            BrowserAction::PageDown => "PageDown",
            BrowserAction::Fullscreen => "Fullscreen",
            BrowserAction::CopyUrl => "CopyUrl",
            BrowserAction::OpenHistory => "OpenHistory",
            BrowserAction::OpenDownloads => "OpenDownloads",
            BrowserAction::OpenDevtools => "OpenDevtools",
            BrowserAction::MinimizeWindow => "MinimizeWindow",
            BrowserAction::MaximizeWindow => "MaximizeWindow",
            BrowserAction::NewPrivateWindow => "NewPrivateWindow",
            BrowserAction::CloseOtherTabs => "CloseOtherTabs",
            BrowserAction::CloseTabsToRight => "CloseTabsToRight",
        }
    }

    /// What the user is told once the action has been carried out. Opening a target
    /// has a message of its own, which depends on how the target was found.
    pub open spec fn done_text(self) -> Seq<char> {
        match self {
            BrowserAction::OpenTarget { .. } => seq![],
            BrowserAction::SwitchTabIndex { index } => "已切换到第 "@ + text::decimal(index as nat)
                + " 个页面"@,
            BrowserAction::Find { query } => match query {
                Some(q) => if q@.len() > 0 {
                    "已打开查找并输入："@ + q@
                } else {
                    "已打开页面查找"@
                },
                None => "已打开页面查找"@,
            },
            BrowserAction::NewTab => "已新建浏览器页面"@,
            BrowserAction::CloseTab => "已关闭当前浏览器页面"@,
            BrowserAction::NextTab => "已切换到下一个页面"@,
            BrowserAction::PreviousTab => "已切换到上一个页面"@,
            BrowserAction::ReopenTab => "已重新打开最近关闭的页面"@,
            BrowserAction::GoBack => "已后退"@,
            BrowserAction::GoForward => "已前进"@,
            BrowserAction::Refresh => "已刷新页面"@,
            BrowserAction::HardRefresh => "已强制刷新页面"@,
            BrowserAction::StopLoading => "已停止页面加载"@,
            BrowserAction::GoHome => "已返回主页"@,
            BrowserAction::ScrollUp => "已向上滚动"@,
            BrowserAction::ScrollDown => "已向下滚动"@,
            BrowserAction::ScrollTop => "已滚动到顶部"@,
            BrowserAction::ScrollBottom => "已滚动到底部"@,
            BrowserAction::PageUp => "已向上翻页"@,
            BrowserAction::PageDown => "已向下翻页"@,
            BrowserAction::Fullscreen => "已切换全屏"@,
            BrowserAction::CopyUrl => "已复制当前网址"@,
            BrowserAction::OpenHistory => "已打开历史记录"@,
            BrowserAction::OpenDownloads => "已打开下载列表"@,
            BrowserAction::OpenDevtools => "已打开开发者工具"@,
            BrowserAction::MinimizeWindow => "已最小化浏览器窗口"@,
            BrowserAction::MaximizeWindow => "已最大化浏览器窗口"@,
            BrowserAction::NewPrivateWindow => "已新建隐私窗口"@,
            BrowserAction::CloseOtherTabs => "已执行关闭其他页面"@,
            BrowserAction::CloseTabsToRight => "已执行关闭右侧页面"@,
        }
    }

    pub fn done_message(&self) -> (r: String)
        ensures
            r@ == self.done_text(),
    {
        match self {
            BrowserAction::OpenTarget { .. } => String::new(),
            BrowserAction::SwitchTabIndex { index } => {
                let number = text::to_decimal(*index as u64);
                text::concat3("已切换到第 ", number.as_str(), " 个页面")
            },
            BrowserAction::Find { query } => match query {
                Some(q) => if q.as_str().is_empty() {
                    "已打开页面查找".to_string()
                } else {
                    text::concat2("已打开查找并输入：", q.as_str())
                },
                None => "已打开页面查找".to_string(),
            },
            BrowserAction::NewTab => "已新建浏览器页面".to_string(),
            BrowserAction::CloseTab => "已关闭当前浏览器页面".to_string(),
            BrowserAction::NextTab => "已切换到下一个页面".to_string(),
            BrowserAction::PreviousTab => "已切换到上一个页面".to_string(),
            BrowserAction::ReopenTab => "已重新打开最近关闭的页面".to_string(),
            BrowserAction::GoBack => "已后退".to_string(),
            BrowserAction::GoForward => "已前进".to_string(),
            BrowserAction::Refresh => "已刷新页面".to_string(),
            BrowserAction::HardRefresh => "已强制刷新页面".to_string(),
            BrowserAction::StopLoading => "已停止页面加载".to_string(),
            BrowserAction::GoHome => "已返回主页".to_string(),
            BrowserAction::ScrollUp => "已向上滚动".to_string(),
            BrowserAction::ScrollDown => "已向下滚动".to_string(),
            BrowserAction::ScrollTop => "已滚动到顶部".to_string(),
            BrowserAction::ScrollBottom => "已滚动到底部".to_string(),
            BrowserAction::PageUp => "已向上翻页".to_string(),
            BrowserAction::PageDown => "已向下翻页".to_string(),
            BrowserAction::Fullscreen => "已切换全屏".to_string(),
            BrowserAction::CopyUrl => "已复制当前网址".to_string(),
            BrowserAction::OpenHistory => "已打开历史记录".to_string(),
            BrowserAction::OpenDownloads => "已打开下载列表".to_string(),
            BrowserAction::OpenDevtools => "已打开开发者工具".to_string(),
            BrowserAction::MinimizeWindow => "已最小化浏览器窗口".to_string(),
            BrowserAction::MaximizeWindow => "已最大化浏览器窗口".to_string(),
            BrowserAction::NewPrivateWindow => "已新建隐私窗口".to_string(),
            BrowserAction::CloseOtherTabs => "已执行关闭其他页面".to_string(),
            BrowserAction::CloseTabsToRight => "已执行关闭右侧页面".to_string(),
        }
    }
}

impl WindowsAction {
    /// The name of the action.
    pub open spec fn variant_text(self) -> Seq<char> {
        match self {
            WindowsAction::OpenTarget { .. } => "OpenTarget"@,
            WindowsAction::ShowDesktop => "ShowDesktop"@,
            WindowsAction::LockScreen => "LockScreen"@,
            WindowsAction::OpenRunDialog => "OpenRunDialog"@,
            WindowsAction::OpenClipboardHistory => "OpenClipboardHistory"@,
            WindowsAction::OpenQuickSettings => "OpenQuickSettings"@,
            WindowsAction::OpenNotifications => "OpenNotifications"@,
        }
    }

    pub fn variant_name(&self) -> (r: &'static str)
        ensures
            r@ == self.variant_text(),
    {
        match self {
            WindowsAction::OpenTarget { .. } => "OpenTarget",
            WindowsAction::ShowDesktop => "ShowDesktop",
            WindowsAction::LockScreen => "LockScreen",
            WindowsAction::OpenRunDialog => "OpenRunDialog",
            WindowsAction::OpenClipboardHistory => "OpenClipboardHistory",
            WindowsAction::OpenQuickSettings => "OpenQuickSettings",
            WindowsAction::OpenNotifications => "OpenNotifications",
        }
    }

    /// What the user is told once the action has been carried out. Opening a target
    /// has a message of its own, which depends on how the target was found.
    pub open spec fn done_text(self) -> Seq<char> {
        match self {
            WindowsAction::OpenTarget { .. } => seq![],
            WindowsAction::ShowDesktop => "Showed the desktop"@,
            WindowsAction::LockScreen => "Locked the screen"@,
            WindowsAction::OpenRunDialog => "Opened the Run dialog"@,
            WindowsAction::OpenClipboardHistory => "Opened clipboard history"@,
            WindowsAction::OpenQuickSettings => "Opened quick settings"@,
            WindowsAction::OpenNotifications => "Opened notification center"@,
        }
    }

    pub fn done_message(&self) -> (r: String)
        ensures
            r@ == self.done_text(),
    {
        match self {
            WindowsAction::OpenTarget { .. } => String::new(),
            WindowsAction::ShowDesktop => "Showed the desktop".to_string(),
            WindowsAction::LockScreen => "Locked the screen".to_string(),
            WindowsAction::OpenRunDialog => "Opened the Run dialog".to_string(),
            WindowsAction::OpenClipboardHistory => "Opened clipboard history".to_string(),
            WindowsAction::OpenQuickSettings => "Opened quick settings".to_string(),
            WindowsAction::OpenNotifications => "Opened notification center".to_string(),
        }
    }
}

/// An action on the browser that a transcript asks for.
pub struct BrowserActionPlan {
    pub action: BrowserAction,
    pub action_name: String,
    /// Something to tell the user besides the success.
    pub note: Option<String>,
    /// Number of bytes of the transcript that the plan uses up.
    pub consumed_end: usize,
}

impl Clone for BrowserActionPlan {
    fn clone(&self) -> (r: Self)
        ensures
            r == *self,
    {
        BrowserActionPlan {
            action: self.action.clone(),
            action_name: self.action_name.clone(),
            note: self.note.clone(),
            consumed_end: self.consumed_end,
        }
    }
}

/// An action on the desktop that a transcript asks for.
pub struct WindowsActionPlan {
    pub action: WindowsAction,
    pub action_name: String,
    /// Something to tell the user besides the success.
    pub note: Option<String>,
    /// Number of bytes of the transcript that the plan uses up.
    pub consumed_end: usize,
}

impl Clone for WindowsActionPlan {
    fn clone(&self) -> (r: Self)
        ensures
            r == *self,
    {
        WindowsActionPlan {
            action: self.action.clone(),
            action_name: self.action_name.clone(),
            note: self.note.clone(),
            consumed_end: self.consumed_end,
        }
    }
}

/// What planning an action on the browser led to.
pub enum BrowserPlanResult {
    /// The transcript asks for nothing of the kind.
    Unmatched,
    /// It does, but not in a way that can be carried out.
    Feedback(String),
    Action(BrowserActionPlan),
}

/// What planning an action on the desktop led to.
pub enum WindowsPlanResult {
    /// The transcript asks for nothing of the kind.
    Unmatched,
    /// It does, but not in a way that can be carried out.
    Feedback(String),
    Action(WindowsActionPlan),
}

pub const SWITCH_POLISH_SCENE_SKILL_ID: &'static str = "switch_polish_scene";

pub const OPEN_BROWSER_SKILL_ID: &'static str = "open_browser";

pub const OPEN_WINDOWS_SKILL_ID: &'static str = "open_windows";

/// A keyword of a skill that stands in a transcript, from byte `start` to byte
/// `end`.
pub struct SkillMatch {
    pub skill_id: String,
    pub keyword: String,
    pub start: usize,
    pub end: usize,
}

/// The skill changes settings instead of acting on the computer.
pub open spec fn is_config_id(id: Seq<char>) -> bool {
    id == SWITCH_POLISH_SCENE_SKILL_ID@
}

pub fn is_config_skill(id: &str) -> (r: bool)
    ensures
        r == is_config_id(id@),
{
    text::str_eq(id, SWITCH_POLISH_SCENE_SKILL_ID)
}

// ---------------------------------------------------------------------------
// Scenes by their spoken names
// ---------------------------------------------------------------------------

/// The byte at which the words that belong to a match end: where the next match
/// starts, or at the end of the transcript.
pub open spec fn match_end(transcript: Seq<char>, next_match: Option<SkillMatch>) -> nat {
    match next_match {
        Some(n) => n.start as nat,
        None => text::byte_len(transcript),
    }
}

/// A spoken name without the word for `mode` or `scene` at its end.
pub open spec fn without_scene_suffix(s: Seq<char>) -> Seq<char> {
    if "模式"@.is_suffix_of(s) {
        text::trim(s.take(s.len() - "模式"@.len()))
    } else if "场景"@.is_suffix_of(s) {
        text::trim(s.take(s.len() - "场景"@.len()))
    } else {
        s
    }
}

/// The name of a scene that is spoken after the keyword of a match: empty where
/// the offsets do not delimit a part of the transcript.
pub open spec fn scene_query(
    transcript: Seq<char>,
    skill_match: SkillMatch,
    next_match: Option<SkillMatch>,
) -> Seq<char> {
    let from = skill_match.end as nat;
    let to = match_end(transcript, next_match);
    if text::is_boundary(transcript, from) && text::is_boundary(transcript, to) && from <= to {
        without_scene_suffix(
            text::trim_class(
                transcript.subrange(
                    text::char_index(transcript, from),
                    text::char_index(transcript, to),
                ),
                text::CharClass::TranscriptLead,
            ),
        )
    } else {
        seq![]
    }
}

pub fn extract_scene_query(
    transcript: &str,
    skill_match: &SkillMatch,
    next_match: Option<&SkillMatch>,
) -> (r: String)
    ensures
        r@ == scene_query(
            transcript@,
            *skill_match,
            match next_match {
                Some(n) => Some(*n),
                None => None,
            },
        ),
{
    let to: usize = match next_match {
        Some(n) => n.start,
        None => text::byte_count(transcript),
    };
    let (a, b) = match (text::char_position(transcript, skill_match.end), text::char_position(transcript, to)) {
        (Some(a), Some(b)) => (a, b),
        _ => return String::new(),
    };
    if skill_match.end > to {
        return String::new();
    }
    proof {
        text::lemma_char_index(transcript@, a as int);
        text::lemma_char_index(transcript@, b as int);
        if b < a {
            text::lemma_byte_len_prefix(transcript@, b as int, a as int);
        }
    }
    let spoken = text::trim_class_str(transcript.substring_char(a, b), text::CharClass::TranscriptLead);
    if let Some(rest) = text::strip_suffix(spoken, "模式") {
        return text::trim_str(rest).to_string();
    }
    if let Some(rest) = text::strip_suffix(spoken, "场景") {
        return text::trim_str(rest).to_string();
    }
    spoken.to_string()
}

/// What a spoken name of a scene stands for.
pub enum SceneResolveResult {
    Unique { profile_id: String, profile_name: String },
    Unknown,
    /// Several scenes go by the name; these are theirs.
    Ambiguous(Vec<String>),
}

/// The scene can be called `query` by one of its aliases.
pub open spec fn has_alias(p: ProfileModel, query: Seq<char>) -> bool {
    p.voice_aliases.contains(query)
}

/// The scenes that go by `query`, by an alias or by their name.
pub open spec fn is_called(query: Seq<char>, by_alias: bool) -> spec_fn(ProfileModel) -> bool {
    |p: ProfileModel|
        if by_alias {
            has_alias(p, query)
        } else {
            p.name == query
        }
}

/// The scenes that `query` stands for: those with such an alias, and where there
/// are none, those with that name.
pub open spec fn scene_candidates(profiles: Seq<ProfileModel>, query: Seq<char>) -> Seq<
    ProfileModel,
> {
    let by_alias = profiles.filter(is_called(query, true));
    if by_alias.len() > 0 {
        by_alias
    } else {
        profiles.filter(is_called(query, false))
    }
}

/// `r` says what `query` stands for.
pub open spec fn is_scene_resolution(
    profiles: Seq<ProfileModel>,
    query: Seq<char>,
    r: SceneResolveResult,
) -> bool {
    let found = scene_candidates(profiles, query);
    match r {
        SceneResolveResult::Unknown => found.len() == 0,
        SceneResolveResult::Unique { profile_id, profile_name } => found.len() == 1
            && profile_id@ == found[0].id && profile_name@ == found[0].name,
        SceneResolveResult::Ambiguous(names) => found.len() > 1 && text::views(names@)
            == found.map_values(|p: ProfileModel| p.name),
    }
}

fn contains_text(v: &Vec<String>, s: &str) -> (r: bool)
    ensures
        r == text::views(v@).contains(s@),
{
    let ghost all = text::views(v@);
    for i in 0..v.len()
        invariant
            all == text::views(v@),
            forall|j: int| 0 <= j < i ==> #[trigger] all[j] != s@,
    {
        if text::str_eq(v[i].as_str(), s) {
            assert(all[i as int] == s@);
            return true;
        }
        assert(all[i as int] != s@);
    }
    false
}

fn scenes_called(profiles: &Vec<PromptProfile>, query: &str, by_alias: bool) -> (r: Vec<usize>)
    ensures
        forall|k: int| 0 <= k < r@.len() ==> (#[trigger] r@[k]) < profiles@.len(),
        r@.map_values(|i: usize| profiles@[i as int]@) == storage::profile_views(
            profiles@,
        ).filter(is_called(query@, by_alias)),
{
    let mut out: Vec<usize> = Vec::new();
    let ghost keep = is_called(query@, by_alias);
    let ghost all = storage::profile_views(profiles@);
    let ghost show = |i: usize| profiles@[i as int]@;
    reveal(Seq::filter);
    assert(out@.map_values(show) =~= all.take(0).filter(keep));
    for i in 0..profiles.len()
        invariant
            all == storage::profile_views(profiles@),
            keep == is_called(query@, by_alias),
            show == (|i: usize| profiles@[i as int]@),
            forall|k: int| 0 <= k < out@.len() ==> (#[trigger] out@[k]) < profiles@.len(),
            out@.map_values(show) == all.take(i as int).filter(keep),
    {
        proof {
            reveal(Seq::filter);
            assert(all.take(i + 1).drop_last() =~= all.take(i as int));
            assert(all.take(i + 1).last() == profiles@[i as int]@);
        }
        let called = if by_alias {
            contains_text(&profiles[i].voice_aliases, query)
        } else {
            text::str_eq(profiles[i].name.as_str(), query)
        };
        if called {
            let ghost before = out@;
            out.push(i);
            assert(out@.map_values(show) =~= before.map_values(show).push(show(i)));
        }
    }
    assert(all.take(all.len() as int) =~= all);
    out
}

/// What the spoken name `query` stands for among the scenes.
pub fn resolve_scene(profiles: &Vec<PromptProfile>, query: &str) -> (r: SceneResolveResult)
    ensures
        is_scene_resolution(storage::profile_views(profiles@), query@, r),
{
    let ghost all = storage::profile_views(profiles@);
    let by_alias = scenes_called(profiles, query, true);
    let ghost show = |i: usize| profiles@[i as int]@;
    let found = if by_alias.len() > 0 {
        by_alias
    } else {
        scenes_called(profiles, query, false)
    };
    let ghost candidates = scene_candidates(all, query@);
    assert(found@.map_values(show) =~= candidates);
    if found.len() == 0 {
        return SceneResolveResult::Unknown;
    }
    if found.len() == 1 {
        let i: usize = found[0];
        assert(candidates[0] == profiles@[i as int]@);
        return SceneResolveResult::Unique {
            profile_id: profiles[i].id.clone(),
            profile_name: profiles[i].name.clone(),
        };
    }
    let mut names: Vec<String> = Vec::new();
    for k in 0..found.len()
        invariant
            show == (|i: usize| profiles@[i as int]@),
            forall|k: int| 0 <= k < found@.len() ==> (#[trigger] found@[k]) < profiles@.len(),
            found@.map_values(show) == candidates,
            names@.len() == k,
            forall|j: int| 0 <= j < k ==> (#[trigger] names@[j])@ == candidates[j].name,
    {
        assert(candidates[k as int] == profiles@[found@[k as int] as int]@);
        names.push(profiles[found[k]].name.clone());
    }
    assert(text::views(names@) =~= candidates.map_values(|p: ProfileModel| p.name));
    SceneResolveResult::Ambiguous(names)
}

/// Actions on the browser of different kinds have different names, which begin with a capital.
pub proof fn lemma_browser_names(a: BrowserAction, b: BrowserAction)
    ensures
        a.variant_text() == b.variant_text() ==> match a {
            BrowserAction::OpenTarget { .. } => b is OpenTarget,
            BrowserAction::SwitchTabIndex { .. } => b is SwitchTabIndex,
            BrowserAction::Find { .. } => b is Find,
            _ => a == b,
        },
        a.variant_text().len() > 0,
        'A' <= a.variant_text()[0] <= 'Z',
{
    reveal_strlit("OpenTarget");
    reveal_strlit("SwitchTabIndex");
    reveal_strlit("Find");
    reveal_strlit("NewTab");
    reveal_strlit("CloseTab");
    reveal_strlit("NextTab");
    reveal_strlit("PreviousTab");
    reveal_strlit("ReopenTab");
    reveal_strlit("GoBack");
    reveal_strlit("GoForward");
    reveal_strlit("Refresh");
    reveal_strlit("HardRefresh");
    reveal_strlit("StopLoading");
    reveal_strlit("GoHome");
    reveal_strlit("ScrollUp");
    reveal_strlit("ScrollDown");
    reveal_strlit("ScrollTop");
    reveal_strlit("ScrollBottom");
    reveal_strlit("PageUp");
    reveal_strlit("PageDown");
    reveal_strlit("Fullscreen");
    reveal_strlit("CopyUrl");
    reveal_strlit("OpenHistory");
    reveal_strlit("OpenDownloads");
    reveal_strlit("OpenDevtools");
    reveal_strlit("MinimizeWindow");
    reveal_strlit("MaximizeWindow");
    reveal_strlit("NewPrivateWindow");
    reveal_strlit("CloseOtherTabs");
    reveal_strlit("CloseTabsToRight");
    assert("OpenTarget"@.len() == 10);
    assert("SwitchTabIndex"@.len() == 14);
    assert("Find"@.len() == 4);
    assert("NewTab"@.len() == 6);
    assert("CloseTab"@.len() == 8);
    assert("NextTab"@.len() == 7);
    assert("PreviousTab"@.len() == 11);
    assert("ReopenTab"@.len() == 9);
    assert("GoBack"@.len() == 6);
    assert("GoForward"@.len() == 9);
    assert("Refresh"@.len() == 7);
    assert("HardRefresh"@.len() == 11);
    assert("StopLoading"@.len() == 11);
    assert("GoHome"@.len() == 6);
    assert("ScrollUp"@.len() == 8);
    assert("ScrollDown"@.len() == 10);
    assert("ScrollTop"@.len() == 9);
    assert("ScrollBottom"@.len() == 12);
    assert("PageUp"@.len() == 6);
    assert("PageDown"@.len() == 8);
    assert("Fullscreen"@.len() == 10);
    assert("CopyUrl"@.len() == 7);
    assert("OpenHistory"@.len() == 11);
    assert("OpenDownloads"@.len() == 13);
    assert("OpenDevtools"@.len() == 12);
    assert("MinimizeWindow"@.len() == 14);
    assert("MaximizeWindow"@.len() == 14);
    assert("NewPrivateWindow"@.len() == 16);
    assert("CloseOtherTabs"@.len() == 14);
    assert("CloseTabsToRight"@.len() == 16);
    assert("OpenTarget"@[0] == 'O');
    assert("ScrollDown"@[0] == 'S');
    assert("Fullscreen"@[0] == 'F');
    assert("SwitchTabIndex"@[1] == 'w');
    assert("MinimizeWindow"@[1] == 'i');
    assert("MaximizeWindow"@[1] == 'a');
    assert("CloseOtherTabs"@[1] == 'l');
    assert("NewTab"@[2] == 'w');
    assert("GoBack"@[2] == 'B');
    assert("GoHome"@[2] == 'H');
    assert("PageUp"@[2] == 'g');
    assert("CloseTab"@[0] == 'C');
    assert("ScrollUp"@[0] == 'S');
    assert("PageDown"@[0] == 'P');
    assert("NextTab"@[0] == 'N');
    assert("Refresh"@[0] == 'R');
    assert("CopyUrl"@[0] == 'C');
    assert("PreviousTab"@[0] == 'P');
    assert("HardRefresh"@[0] == 'H');
    assert("StopLoading"@[0] == 'S');
    assert("OpenHistory"@[0] == 'O');
    assert("ReopenTab"@[0] == 'R');
    assert("GoForward"@[0] == 'G');
    assert("ScrollTop"@[0] == 'S');
    assert("ScrollBottom"@[0] == 'S');
    assert("OpenDevtools"@[0] == 'O');
    assert("NewPrivateWindow"@[0] == 'N');
    assert("CloseTabsToRight"@[0] == 'C');
}

/// Actions on the desktop of different kinds have different names, which begin with a capital.
pub proof fn lemma_windows_names(a: WindowsAction, b: WindowsAction)
    ensures
        a.variant_text() == b.variant_text() ==> match a {
            WindowsAction::OpenTarget { .. } => b is OpenTarget,
            _ => a == b,
        },
        a.variant_text().len() > 0,
        'A' <= a.variant_text()[0] <= 'Z',
{
    reveal_strlit("OpenTarget");
    reveal_strlit("ShowDesktop");
    reveal_strlit("LockScreen");
    reveal_strlit("OpenRunDialog");
    reveal_strlit("OpenClipboardHistory");
    reveal_strlit("OpenQuickSettings");
    reveal_strlit("OpenNotifications");
    assert("OpenTarget"@.len() == 10);
    assert("ShowDesktop"@.len() == 11);
    assert("LockScreen"@.len() == 10);
    assert("OpenRunDialog"@.len() == 13);
    assert("OpenClipboardHistory"@.len() == 20);
    assert("OpenQuickSettings"@.len() == 17);
    assert("OpenNotifications"@.len() == 17);
    assert("OpenTarget"@[0] == 'O');
    assert("LockScreen"@[0] == 'L');
    assert("OpenQuickSettings"@[4] == 'Q');
    assert("OpenNotifications"@[4] == 'N');
}

// ---------------------------------------------------------------------------
// Laws of the catalogue and of the scenes
// ---------------------------------------------------------------------------

proof fn lemma_still_offered(skills: Seq<SkillConfig>)
    ensures
        forall|i: int|
            0 <= i < skills.len() && !is_retired((#[trigger] skills[i]).id@) ==> still_offered(
                skills,
            ).contains(skills[i]),
        forall|k: int|
            0 <= k < still_offered(skills).len() ==> skills.contains(
                #[trigger] still_offered(skills)[k],
            ) && !is_retired(still_offered(skills)[k].id@),
    decreases skills.len(),
{
    if skills.len() > 0 {
        let rest = skills.drop_last();
        lemma_still_offered(rest);
        let before = still_offered(rest);
        let all = still_offered(skills);
        assert forall|i: int| 0 <= i < skills.len() && !is_retired((#[trigger] skills[i]).id@)
            implies all.contains(skills[i]) by {
            if i < rest.len() {
                assert(rest[i] == skills[i]);
                let k = choose|k: int| 0 <= k < before.len() && before[k] == skills[i];
                assert(all[k] == skills[i]);
            } else {
                assert(all[all.len() - 1] == skills[i]);
            }
        }
        assert forall|k: int| 0 <= k < all.len() implies skills.contains(#[trigger] all[k])
            && !is_retired(all[k].id@) by {
            if k < before.len() {
                assert(all[k] == before[k]);
                let i = choose|i: int| 0 <= i < rest.len() && rest[i] == before[k];
                assert(skills[i] == all[k]);
            } else {
                assert(all[k] == skills[skills.len() - 1]);
            }
        }
    }
}

proof fn lemma_missing_from(skills: Seq<SkillConfig>, catalogue: Seq<SkillConfig>)
    ensures
        forall|i: int|
            0 <= i < catalogue.len() && !has_skill(skills, (#[trigger] catalogue[i]).id@)
                ==> missing_from(skills, catalogue).contains(catalogue[i]),
        forall|k: int|
            0 <= k < missing_from(skills, catalogue).len() ==> catalogue.contains(
                #[trigger] missing_from(skills, catalogue)[k],
            ) && !has_skill(skills, missing_from(skills, catalogue)[k].id@),
    decreases catalogue.len(),
{
    if catalogue.len() > 0 {
        let rest = catalogue.drop_last();
        lemma_missing_from(skills, rest);
        let before = missing_from(skills, rest);
        let all = missing_from(skills, catalogue);
        assert forall|i: int|
            0 <= i < catalogue.len() && !has_skill(
                skills,
                (#[trigger] catalogue[i]).id@,
            ) implies all.contains(catalogue[i]) by {
            if i < rest.len() {
                assert(rest[i] == catalogue[i]);
                let k = choose|k: int| 0 <= k < before.len() && before[k] == catalogue[i];
                assert(all[k] == catalogue[i]);
            } else {
                assert(all[all.len() - 1] == catalogue[i]);
            }
        }
        assert forall|k: int| 0 <= k < all.len() implies catalogue.contains(#[trigger] all[k])
            && !has_skill(skills, all[k].id@) by {
            if k < before.len() {
                assert(all[k] == before[k]);
                let i = choose|i: int| 0 <= i < rest.len() && rest[i] == before[k];
                assert(catalogue[i] == all[k]);
            } else {
                assert(all[k] == catalogue[catalogue.len() - 1]);
            }
        }
    }
}

/// The user's own skills are kept as they are, unless they are no longer offered; every skill
/// of the catalogue is then there; and there is none that neither the user nor the catalogue
/// has.
pub proof fn law_own_skills_are_kept_and_new_ones_added(
    existing: Seq<SkillConfig>,
    catalogue: Seq<SkillConfig>,
    i: int,
)
    ensures
        0 <= i < existing.len() && existing[i].id@ != "enable_polish"@ && existing[i].id@
            != "disable_polish"@ ==> merged_skills(existing, catalogue).contains(existing[i]),
        0 <= i < catalogue.len() ==> has_skill(
            merged_skills(existing, catalogue),
            catalogue[i].id@,
        ),
        0 <= i < merged_skills(existing, catalogue).len() ==> existing.contains(
            merged_skills(existing, catalogue)[i],
        ) || catalogue.contains(merged_skills(existing, catalogue)[i]),
{
    let kept = still_offered(existing);
    let added = missing_from(kept, catalogue);
    let all = merged_skills(existing, catalogue);
    lemma_still_offered(existing);
    lemma_missing_from(kept, catalogue);
    if 0 <= i < existing.len() && !is_retired(existing[i].id@) {
        assert(kept.contains(existing[i]));
        let k = choose|k: int| 0 <= k < kept.len() && kept[k] == existing[i];
        assert(all[k] == existing[i]);
    }
    if 0 <= i < catalogue.len() {
        let id = catalogue[i].id@;
        if has_skill(kept, id) {
            let k = choose|k: int| 0 <= k < kept.len() && (#[trigger] kept[k]).id@ == id;
            assert(all[k].id@ == id);
        } else {
            assert(added.contains(catalogue[i]));
            let k = choose|k: int| 0 <= k < added.len() && added[k] == catalogue[i];
            assert(all[kept.len() + k].id@ == id);
        }
    }
    if 0 <= i < all.len() {
        if i < kept.len() {
            assert(all[i] == kept[i]);
        } else {
            assert(all[i] == added[i - kept.len()]);
        }
    }
}

/// A spoken name stands for the scenes that have it as an alias; where none has, for those
/// that are called so.
pub proof fn law_scenes_are_found_by_what_they_are_called(
    profiles: Seq<ProfileModel>,
    query: Seq<char>,
    i: int,
)
    ensures
        0 <= i < profiles.len() && profiles[i].voice_aliases.contains(query) ==> scene_candidates(
            profiles,
            query,
        ).contains(profiles[i]),
        0 <= i < profiles.len() && profiles[i].name == query && (forall|k: int|
            0 <= k < profiles.len() ==> !(#[trigger] profiles[k]).voice_aliases.contains(query))
            ==> scene_candidates(profiles, query).contains(profiles[i]),
        0 <= i < scene_candidates(profiles, query).len() ==> scene_candidates(
            profiles,
            query,
        )[i].voice_aliases.contains(query) || scene_candidates(profiles, query)[i].name == query,
        0 <= i < scene_candidates(profiles, query).len() ==> profiles.contains(
            scene_candidates(profiles, query)[i],
        ),
{
    let by_alias = is_called(query, true);
    let by_name = is_called(query, false);
    let a = profiles.filter(by_alias);
    let n = profiles.filter(by_name);
    let found = scene_candidates(profiles, query);
    lemma_filter_is_of(profiles, by_alias);
    lemma_filter_is_of(profiles, by_name);
    if 0 <= i < profiles.len() {
        if by_alias(profiles[i]) {
            profiles.lemma_filter_contains(by_alias, i);
            assert(a.len() > 0);
        }
        if by_name(profiles[i]) {
            profiles.lemma_filter_contains(by_name, i);
        }
    }
    if forall|k: int|
        0 <= k < profiles.len() ==> !(#[trigger] profiles[k]).voice_aliases.contains(query) {
        if a.len() > 0 {
            profiles.lemma_filter_pred(by_alias, 0);
            assert(profiles.contains(a[0]));
            let k = choose|k: int| 0 <= k < profiles.len() && profiles[k] == a[0];
            assert(!profiles[k].voice_aliases.contains(query));
        }
    }
    if 0 <= i < found.len() {
        if a.len() > 0 {
            profiles.lemma_filter_pred(by_alias, i);
        } else {
            profiles.lemma_filter_pred(by_name, i);
        }
    }
}

proof fn lemma_filter_is_of<A>(s: Seq<A>, keep: spec_fn(A) -> bool)
    ensures
        forall|k: int| 0 <= k < s.filter(keep).len() ==> s.contains(#[trigger] s.filter(keep)[k]),
    decreases s.len(),
{
    reveal(Seq::filter);
    if s.len() > 0 {
        let rest = s.drop_last();
        lemma_filter_is_of(rest, keep);
        assert forall|k: int| 0 <= k < s.filter(keep).len() implies s.contains(
            #[trigger] s.filter(keep)[k],
        ) by {
            if k < rest.filter(keep).len() {
                assert(s.filter(keep)[k] == rest.filter(keep)[k]);
                let i = choose|i: int| 0 <= i < rest.len() && rest[i] == rest.filter(keep)[k];
                assert(s[i] == s.filter(keep)[k]);
            } else {
                assert(s.filter(keep)[k] == s[s.len() - 1]);
            }
        }
    }
}

/// The word for mode or scene behind a name is no part of the name.
pub proof fn law_the_word_for_mode_is_no_part_of_the_name(name: Seq<char>)
    ensures
        without_scene_suffix(name + "模式"@) == text::trim(name),
        without_scene_suffix(name + "场景"@) == text::trim(name),
        !"模式"@.is_suffix_of(name) && !"场景"@.is_suffix_of(name) ==> without_scene_suffix(name)
            == name,
{
    reveal_strlit("模式");
    reveal_strlit("场景");
    let a = name + "模式"@;
    let b = name + "场景"@;
    assert("模式"@.len() == 2);
    assert("场景"@.len() == 2);
    assert(a.subrange(a.len() - 2, a.len() as int) =~= "模式"@);
    assert(b.subrange(b.len() - 2, b.len() as int) =~= "场景"@);
    assert(a.take(a.len() - 2) =~= name);
    assert(b.take(b.len() - 2) =~= name);
    assert("模式"@[0] == '模');
    assert("场景"@[0] == '场');
    assert(b[b.len() - 2] == '场');
    assert(!"模式"@.is_suffix_of(b));
}

/// The scene that is meant is named behind the keyword, up to the next keyword or to the end.
pub proof fn law_the_scene_is_named_behind_the_keyword(
    before: Seq<char>,
    name: Seq<char>,
    rest: Seq<char>,
    m: SkillMatch,
    next: SkillMatch,
)
    requires
        m.end == text::byte_len(before),
        next.start == text::byte_len(before + name),
    ensures
        scene_query(before + name, m, None) == without_scene_suffix(
            text::trim_class(name, text::CharClass::TranscriptLead),
        ),
        scene_query(before + name + rest, m, Some(next)) == without_scene_suffix(
            text::trim_class(name, text::CharClass::TranscriptLead),
        ),
{
    let b = before.len() as int;
    let e = b + name.len();
    let short = before + name;
    let long = before + name + rest;
    assert(short.take(b) =~= before);
    assert(short.take(e) =~= short);
    assert(long.take(b) =~= before);
    assert(long.take(e) =~= short);
    text::lemma_char_index(short, b);
    text::lemma_char_index(short, e);
    text::lemma_char_index(long, b);
    text::lemma_char_index(long, e);
    text::lemma_byte_len_prefix(short, b, e);
    assert(short.subrange(b, e) =~= name);
    assert(long.subrange(b, e) =~= name);
}

/// The user is told what was looked for.
pub proof fn law_the_user_is_told_what_was_looked_for(q: String)
    requires
        q@.len() > 0,
    ensures
        q@.is_suffix_of((BrowserAction::Find { query: Some(q) }).done_text()),
{
    let told = BrowserAction::Find { query: Some(q) }.done_text();
    assert(told.subrange(told.len() - q@.len(), told.len() as int) =~= q@);
}

} // verus!
