//! The sections of the main window's sidebar.
use vstd::prelude::*;

verus! {

#[derive(Clone, Copy, Debug, PartialEq, Eq, Structural)]
pub enum NavItem {
    Dashboard,
    Browsers,
    Applications,
    CustomDirectories,
    StorageAnalyzer,
    System,
    Settings,
    Diagnostics,
    Help,
}

impl NavItem {
    pub open spec fn spec_icon_name(self) -> Seq<char> {
        match self {
            NavItem::Dashboard => "view-grid-symbolic"@,
            NavItem::Browsers => "web-browser-symbolic"@,
            NavItem::Applications => "application-x-executable-symbolic"@,
            NavItem::CustomDirectories => "folder-symbolic"@,
            NavItem::StorageAnalyzer => "drive-harddisk-symbolic"@,
            NavItem::System => "computer-symbolic"@,
            NavItem::Settings => "preferences-system-symbolic"@,
            NavItem::Diagnostics => "dialog-information-symbolic"@,
            NavItem::Help => "help-about-symbolic"@,
        }
    }

    pub open spec fn spec_title(self) -> Seq<char> {
        match self {
            NavItem::Dashboard => "Dashboard"@,
            NavItem::Browsers => "Browsers"@,
            NavItem::Applications => "Applications"@,
            NavItem::CustomDirectories => "Custom Directories"@,
            NavItem::StorageAnalyzer => "Storage Analyzer"@,
            NavItem::System => "System"@,
            NavItem::Settings => "Settings"@,
            NavItem::Diagnostics => "Diagnostics"@,
            NavItem::Help => "Help"@,
        }
    }

    pub open spec fn spec_stack_name(self) -> Seq<char> {
        match self {
            NavItem::Dashboard => "dashboard"@,
            NavItem::Browsers => "browsers"@,
            NavItem::Applications => "applications"@,
            NavItem::CustomDirectories => "custom"@,
            NavItem::StorageAnalyzer => "storage-analyzer"@,
            NavItem::System => "system"@,
            NavItem::Settings => "settings"@,
            NavItem::Diagnostics => "diagnostics"@,
            NavItem::Help => "help"@,
        }
    }

    /// The section's symbolic icon.
    pub fn icon_name(&self) -> (r: &'static str)
        ensures
            r@ == self.spec_icon_name(),
    {
        match self {
            NavItem::Dashboard => "view-grid-symbolic",
            NavItem::Browsers => "web-browser-symbolic",
            NavItem::Applications => "application-x-executable-symbolic",
            NavItem::CustomDirectories => "folder-symbolic",
            NavItem::StorageAnalyzer => "drive-harddisk-symbolic",
            NavItem::System => "computer-symbolic",
            NavItem::Settings => "preferences-system-symbolic",
            NavItem::Diagnostics => "dialog-information-symbolic",
            NavItem::Help => "help-about-symbolic",
        }
    }

    /// The section's title (untranslated).
    pub fn title(&self) -> (r: &'static str)
        ensures
            r@ == self.spec_title(),
    {
        match self {
            NavItem::Dashboard => "Dashboard",
            NavItem::Browsers => "Browsers",
            NavItem::Applications => "Applications",
            NavItem::CustomDirectories => "Custom Directories",
            NavItem::StorageAnalyzer => "Storage Analyzer",
            NavItem::System => "System",
            NavItem::Settings => "Settings",
            NavItem::Diagnostics => "Diagnostics",
            NavItem::Help => "Help",
        }
    }

    /// The name of the section's page in the content stack.
    pub fn stack_name(&self) -> (r: &'static str)
        ensures
            r@ == self.spec_stack_name(),
    {
        match self {
            NavItem::Dashboard => "dashboard",
            NavItem::Browsers => "browsers",
            NavItem::Applications => "applications",
            NavItem::CustomDirectories => "custom",
            NavItem::StorageAnalyzer => "storage-analyzer",
            NavItem::System => "system",
            NavItem::Settings => "settings",
            NavItem::Diagnostics => "diagnostics",
            NavItem::Help => "help",
        }
    }

    /// The sections in sidebar order.
    pub fn all() -> (r: Vec<NavItem>)
        ensures
            r@ == seq![
                NavItem::Dashboard,
                NavItem::Browsers,
                NavItem::Applications,
                NavItem::CustomDirectories,
                NavItem::StorageAnalyzer,
                NavItem::System,
                NavItem::Settings,
                NavItem::Diagnostics,
                NavItem::Help,
            ],
    {
        let mut r: Vec<NavItem> = Vec::new();
        r.push(NavItem::Dashboard);
        r.push(NavItem::Browsers);
        r.push(NavItem::Applications);
        r.push(NavItem::CustomDirectories);
        r.push(NavItem::StorageAnalyzer);
        r.push(NavItem::System);
        r.push(NavItem::Settings);
        r.push(NavItem::Diagnostics);
        r.push(NavItem::Help);
        assert(r@ =~= seq![
            NavItem::Dashboard,
            NavItem::Browsers,
            NavItem::Applications,
            NavItem::CustomDirectories,
            NavItem::StorageAnalyzer,
            NavItem::System,
            NavItem::Settings,
            NavItem::Diagnostics,
            NavItem::Help,
        ]);
        r
    }
}

/// Every section has its own page: no two share a stack name.
pub proof fn lemma_stack_names_distinct(a: NavItem, b: NavItem)
    ensures
        a.spec_stack_name() == b.spec_stack_name() ==> a == b,
{
    reveal_strlit("dashboard");
    reveal_strlit("browsers");
    reveal_strlit("applications");
    reveal_strlit("custom");
    reveal_strlit("storage-analyzer");
    reveal_strlit("system");
    reveal_strlit("settings");
    reveal_strlit("diagnostics");
    reveal_strlit("help");
    if a != b && a.spec_stack_name() == b.spec_stack_name() {
        let x = a.spec_stack_name();
        let y = b.spec_stack_name();
        assert(x.len() == y.len());
        assert(x[0] == y[0]);
        assert(x[1] == y[1]);
    }
}

} // verus!
