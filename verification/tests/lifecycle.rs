use avisaver::app::{
    ASAction, ASMsg, ASState, ShutdownTask, StartupTask, StartupTaskSet, WindowContent,
};
use avisaver::root::{side_button, RootMsg, RootState, SelectedTab, TabIcon};
use avisaver::settings::{find_vrchat_pictures_dir, SettingsData};
use avisaver::settings_page::SettingsState;

#[test]
fn main_window_opens_after_both_startup_tasks() {
    let mut s = ASState::new(1);
    assert_eq!(s.update(ASMsg::StartupTaskFinished(StartupTask::LoadSettings)), ASAction::Nothing);
    assert_eq!(s.update(ASMsg::OSCQueryStarted(true)), ASAction::OpenMainWindow);

    let mut t = ASState::new(1);
    assert_eq!(t.update(ASMsg::OSCQueryStarted(true)), ASAction::Nothing);
    assert_eq!(t.update(ASMsg::StartupTaskFinished(StartupTask::LoadSettings)), ASAction::OpenMainWindow);
}

#[test]
fn splash_progress_and_titles() {
    let mut s = ASState::new(1);
    assert_eq!(s.view(1), WindowContent::Splash { task_count: 2, finished: 0 });
    s.update(ASMsg::StartupTaskFinished(StartupTask::LoadSettings));
    assert_eq!(s.view(1), WindowContent::Splash { task_count: 2, finished: 1 });
    assert_eq!(s.title(1), "AviSaver Starting...");
    assert_eq!(s.title(2), "");
    assert_eq!(s.view(2), WindowContent::Blank);
    assert_eq!(s.update(ASMsg::OSCQueryStarted(true)), ASAction::OpenMainWindow);
    s.set_root_window(2);
    assert_eq!(s.title(2), "AviSaver");
    assert_eq!(s.view(2), WindowContent::Root);
    assert_eq!(s.view(1), WindowContent::Splash { task_count: 2, finished: 2 });
}

#[test]
fn splash_closes_after_main_window_opens() {
    let mut s = ASState::new(1);
    s.update(ASMsg::StartupTaskFinished(StartupTask::LoadSettings));
    s.update(ASMsg::OSCQueryStarted(true));
    s.set_root_window(2);
    assert_eq!(s.update(ASMsg::WindowOpened(3)), ASAction::Nothing);
    assert_eq!(s.update(ASMsg::WindowOpened(2)), ASAction::CloseSplashAfterDelay(1));
    assert_eq!(s.update(ASMsg::SplashClose(1)), ASAction::CloseWindow(1));
    assert_eq!(s.update(ASMsg::WindowClosed(1)), ASAction::Nothing);
    assert_eq!(s.update(ASMsg::WindowOpened(2)), ASAction::Nothing);
    assert_eq!(s.title(1), "");
}

#[test]
fn closing_waits_for_osc_shutdown() {
    let mut s = ASState::new(1);
    s.update(ASMsg::OSCQueryStarted(true));
    assert_eq!(s.update(ASMsg::WindowClosed(1)), ASAction::ShutdownOsc);
    assert_eq!(s.update(ASMsg::WindowClosed(1)), ASAction::Nothing);
    assert_eq!(s.update(ASMsg::ShutdownTaskFinished(ShutdownTask::OSCShutdown)), ASAction::Exit);
}

#[test]
fn closing_without_osc_exits_at_once() {
    let mut s = ASState::new(1);
    assert_eq!(s.update(ASMsg::WindowClosed(5)), ASAction::Nothing);
    assert_eq!(s.update(ASMsg::WindowClosed(1)), ASAction::Exit);
}

#[test]
fn failed_osc_start_shuts_down() {
    let mut s = ASState::new(1);
    assert_eq!(s.update(ASMsg::OSCQueryStarted(false)), ASAction::Exit);
    assert_eq!(s.update(ASMsg::OSCPacket), ASAction::Nothing);
}

#[test]
fn root_messages_select_tabs() {
    let mut s = ASState::new(1);
    assert_eq!(s.root().selected_tab(), SelectedTab::Saves);
    assert_eq!(s.update(ASMsg::Root(RootMsg::SetTab(SelectedTab::Settings))), ASAction::Nothing);
    assert_eq!(s.root().selected_tab(), SelectedTab::Settings);

    let mut r = RootState::new();
    assert_eq!(r.selected_tab(), SelectedTab::Saves);
    r.update(RootMsg::SetTab(SelectedTab::Templates));
    assert_eq!(r.selected_tab(), SelectedTab::Templates);
    assert_eq!(SelectedTab::default(), SelectedTab::Saves);
}

#[test]
fn side_buttons() {
    let b = side_button(SelectedTab::Saves, SelectedTab::Saves);
    assert_eq!(b.icon, TabIcon::Person);
    assert_eq!(b.tooltip, "Saves");
    assert!(b.primary);
    assert_eq!(b.on_press, None);
    let b = side_button(SelectedTab::Saves, SelectedTab::Templates);
    assert_eq!(b.icon, TabIcon::Group);
    assert_eq!(b.tooltip, "Templates");
    assert!(!b.primary);
    assert_eq!(b.on_press, Some(RootMsg::SetTab(SelectedTab::Templates)));
    let b = side_button(SelectedTab::Templates, SelectedTab::Settings);
    assert_eq!(b.icon, TabIcon::Settings);
    assert_eq!(b.tooltip, "Settings");
}

#[test]
fn task_set_counts() {
    let mut all = StartupTaskSet::all();
    assert_eq!(all.len(), 2);
    assert!(!all.is_empty());
    all.remove(StartupTask::StartOSCQuery);
    assert_eq!(all.len(), 1);
    all.remove(StartupTask::StartOSCQuery);
    assert_eq!(all.len(), 1);
    all.remove(StartupTask::LoadSettings);
    assert!(all.is_empty());
}

#[test]
fn pictures_dir_choice_and_settings() {
    assert_eq!(
        find_vrchat_pictures_dir("/proton/VRChat".to_string(), true, None),
        "/proton/VRChat"
    );
    assert_eq!(
        find_vrchat_pictures_dir("/proton/VRChat".to_string(), false, Some("/home/u/Pictures/VRChat".to_string())),
        "/home/u/Pictures/VRChat"
    );
    let s = SettingsData::new("/pics".to_string());
    assert_eq!(s.vrchat_pictures_path(), "/pics");
    let _ = SettingsState::new();
}

#[test]
fn main_window_opens_once_among_other_events() {
    let mut s = ASState::new(1);
    let events = [
        ASMsg::OSCPacket,
        ASMsg::WindowOpened(1),
        ASMsg::StartupTaskFinished(StartupTask::LoadSettings),
        ASMsg::Root(RootMsg::SetTab(SelectedTab::Templates)),
        ASMsg::WindowClosed(7),
        ASMsg::OSCQueryStarted(true),
        ASMsg::OSCPacket,
    ];
    let mut opened = Vec::new();
    for (i, e) in events.iter().enumerate() {
        if s.update(*e) == ASAction::OpenMainWindow {
            opened.push(i);
            s.set_root_window(2);
        }
    }
    assert_eq!(opened, vec![5]);
    assert_eq!(s.title(2), "AviSaver");
}
