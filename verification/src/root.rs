//! The main window: a column of tab buttons and the selected tab's page.
use vstd::prelude::*;

verus! {

/// The tabs of the main window.
#[derive(PartialEq, Eq, Structural, Clone, Copy, Debug)]
pub enum SelectedTab {
    Saves,
    Templates,
    Settings,
}

impl Default for SelectedTab {
    fn default() -> (res: Self)
        ensures
            res == SelectedTab::Saves,
    {
        SelectedTab::Saves
    }
}

/// Messages of the main window.
#[derive(PartialEq, Eq, Structural, Clone, Copy, Debug)]
pub enum RootMsg {
    SetTab(SelectedTab),
}

/// State of the main window: which tab is selected.
pub struct RootState {
    selected_tab: SelectedTab,
}

impl RootState {
    /// The selected tab.
    pub closed spec fn tab(&self) -> SelectedTab {
        self.selected_tab
    }

    /// A main window with the default tab, `Saves`, selected.
    pub fn new() -> (res: Self)
        ensures
            res.tab() == SelectedTab::Saves,
    {
        RootState { selected_tab: SelectedTab::default() }
    }

    /// The selected tab.
    pub fn selected_tab(&self) -> (res: SelectedTab)
        ensures
            res == self.tab(),
    {
        self.selected_tab
    }

    /// Applies a message: `SetTab` selects its tab.
    pub fn update(&mut self, msg: RootMsg)
        ensures
            final(self).tab() == match msg {
                RootMsg::SetTab(t) => t,
            },
    {
        match msg {
            RootMsg::SetTab(tab) => {
                self.selected_tab = tab;
            },
        }
    }
}

/// The icons of the tab buttons.
#[derive(PartialEq, Eq, Structural, Clone, Copy, Debug)]
pub enum TabIcon {
    Person,
    Group,
    Settings,
}

/// What a tab button shows and does.
pub struct SideButton {
    /// The button's icon.
    pub icon: TabIcon,
    /// The tooltip shown to the right of the button.
    pub tooltip: &'static str,
    /// Whether the button is drawn in the primary style, as the selected tab.
    pub primary: bool,
    /// The message that pressing the button sends; `None` disables it.
    pub on_press: Option<RootMsg>,
}

/// The icon of the button for `tab`.
pub open spec fn tab_icon(tab: SelectedTab) -> TabIcon {
    match tab {
        SelectedTab::Saves => TabIcon::Person,
        SelectedTab::Templates => TabIcon::Group,
        SelectedTab::Settings => TabIcon::Settings,
    }
}

/// The tooltip of the button for `tab`.
pub open spec fn tab_tooltip(tab: SelectedTab) -> Seq<char> {
    match tab {
        SelectedTab::Saves => "Saves"@,
        SelectedTab::Templates => "Templates"@,
        SelectedTab::Settings => "Settings"@,
    }
}

/// The button for `for_tab` while `selected_tab` is selected: highlighted and
/// disabled on the selected tab, otherwise pressing it selects `for_tab`.
pub fn side_button(selected_tab: SelectedTab, for_tab: SelectedTab) -> (res: SideButton)
    ensures
        res.icon == tab_icon(for_tab),
        res.tooltip@ == tab_tooltip(for_tab),
        res.primary == (selected_tab == for_tab),
        res.on_press == if selected_tab == for_tab {
            None
        } else {
            Some(RootMsg::SetTab(for_tab))
        },
{
    let (icon, tooltip) = match for_tab {
        SelectedTab::Saves => (TabIcon::Person, "Saves"),
        SelectedTab::Templates => (TabIcon::Group, "Templates"),
        SelectedTab::Settings => (TabIcon::Settings, "Settings"),
    };
    let selected = selected_tab == for_tab;
    SideButton {
        icon,
        tooltip,
        primary: selected,
        on_press: if selected {
            None
        } else {
            Some(RootMsg::SetTab(for_tab))
        },
    }
}

} // verus!
