//! The application's lifecycle: a splash window while the startup tasks run,
//! the main window once they are all done, and an orderly shutdown that waits
//! for the OSCQuery host to stop before the application exits.
//!
//! Windows are known by numbers that the caller assigns to them.
use vstd::prelude::*;
use crate::core_info::APPLICATION_TITLE;
use crate::root::{RootMsg, RootState, SelectedTab};

verus! {

/// The tasks that must finish before the main window opens.
#[derive(PartialEq, Eq, Structural, Clone, Copy, Debug)]
pub enum StartupTask {
    LoadSettings,
    StartOSCQuery,
}

/// The tasks that must finish before the application exits.
#[derive(PartialEq, Eq, Structural, Clone, Copy, Debug)]
pub enum ShutdownTask {
    OSCShutdown,
}

/// A set of startup tasks.
pub struct StartupTaskSet {
    load_settings: bool,
    start_osc_query: bool,
}

impl View for StartupTaskSet {
    type V = Set<StartupTask>;

    closed spec fn view(&self) -> Set<StartupTask> {
        Set::new(
            |t: StartupTask|
                match t {
                    StartupTask::LoadSettings => self.load_settings,
                    StartupTask::StartOSCQuery => self.start_osc_query,
                },
        )
    }
}

/// Every startup task.
pub open spec fn all_startup_tasks() -> Set<StartupTask> {
    set![StartupTask::LoadSettings, StartupTask::StartOSCQuery]
}

/// The number of startup tasks.
pub open spec fn startup_task_count() -> nat {
    2
}

impl StartupTaskSet {
    /// The set of every startup task.
    pub fn all() -> (res: Self)
        ensures
            res@ == all_startup_tasks(),
    {
        let res = StartupTaskSet { load_settings: true, start_osc_query: true };
        assert(res@ =~= all_startup_tasks());
        res
    }

    /// Takes `task` out of the set.
    pub fn remove(&mut self, task: StartupTask)
        ensures
            final(self)@ == old(self)@.remove(task),
    {
        match task {
            StartupTask::LoadSettings => self.load_settings = false,
            StartupTask::StartOSCQuery => self.start_osc_query = false,
        }
        assert(self@ =~= old(self)@.remove(task));
    }

    /// Whether the set holds no task.
    pub fn is_empty(&self) -> (res: bool)
        ensures
            res == (self@ == Set::<StartupTask>::empty()),
    {
        let res = !self.load_settings && !self.start_osc_query;
        if res {
            assert(self@ =~= Set::<StartupTask>::empty());
        } else if self.load_settings {
            assert(self@.contains(StartupTask::LoadSettings));
        } else {
            assert(self@.contains(StartupTask::StartOSCQuery));
        }
        res
    }

    /// The number of tasks in the set.
    pub fn len(&self) -> (res: u32)
        ensures
            res as nat == self@.len(),
            self@.subset_of(all_startup_tasks()),
    {
        let a = StartupTask::LoadSettings;
        let b = StartupTask::StartOSCQuery;
        proof {
            assert(self@.subset_of(all_startup_tasks()));
            assert(all_startup_tasks().len() == 2) by {
                assert(set![a].len() == 1);
            }
        }
        if self.load_settings && self.start_osc_query {
            assert(self@ =~= set![a, b]);
            2
        } else if self.load_settings {
            assert(self@ =~= set![a]);
            1
        } else if self.start_osc_query {
            assert(self@ =~= set![b]);
            1
        } else {
            assert(self@ =~= Set::<StartupTask>::empty());
            0
        }
    }
}

/// A set of shutdown tasks.
pub struct ShutdownTaskSet {
    osc_shutdown: bool,
}

impl View for ShutdownTaskSet {
    type V = Set<ShutdownTask>;

    closed spec fn view(&self) -> Set<ShutdownTask> {
        Set::new(|t: ShutdownTask| self.osc_shutdown)
    }
}

impl ShutdownTaskSet {
    /// The empty set.
    pub fn new() -> (res: Self)
        ensures
            res@ == Set::<ShutdownTask>::empty(),
    {
        let res = ShutdownTaskSet { osc_shutdown: false };
        assert(res@ =~= Set::<ShutdownTask>::empty());
        res
    }

    /// Adds `task` to the set.
    pub fn insert(&mut self, task: ShutdownTask)
        ensures
            final(self)@ == old(self)@.insert(task),
    {
        self.osc_shutdown = true;
        assert(self@ =~= old(self)@.insert(task));
    }

    /// Takes `task` out of the set.
    pub fn remove(&mut self, task: ShutdownTask)
        ensures
            final(self)@ == old(self)@.remove(task),
    {
        self.osc_shutdown = false;
        assert(self@ =~= old(self)@.remove(task));
    }

    /// Whether the set holds no task.
    pub fn is_empty(&self) -> (res: bool)
        ensures
            res == (self@ == Set::<ShutdownTask>::empty()),
    {
        if self.osc_shutdown {
            assert(self@.contains(ShutdownTask::OSCShutdown));
        } else {
            assert(self@ =~= Set::<ShutdownTask>::empty());
        }
        !self.osc_shutdown
    }
}

/// The events the application reacts to.
#[derive(PartialEq, Eq, Structural, Clone, Copy, Debug)]
pub enum ASMsg {
    /// The OSCQuery host finished starting: `true` if it runs, `false` if it
    /// failed to start.
    OSCQueryStarted(bool),
    /// An OSC packet arrived.
    OSCPacket,
    WindowOpened(u64),
    WindowClosed(u64),
    /// The delay after the main window opened has passed; close the splash
    /// window.
    SplashClose(u64),
    StartupTaskFinished(StartupTask),
    ShutdownTaskFinished(ShutdownTask),
    Root(RootMsg),
}

/// What the application is to do after an event.
#[derive(PartialEq, Eq, Structural, Clone, Copy, Debug)]
pub enum ASAction {
    Nothing,
    /// Wait 100 ms, then deliver `SplashClose` of this window.
    CloseSplashAfterDelay(u64),
    CloseWindow(u64),
    /// Open the main window and record it with `ASState::set_root_window`.
    OpenMainWindow,
    /// Shut the OSCQuery host down, then deliver
    /// `ShutdownTaskFinished(OSCShutdown)`.
    ShutdownOsc,
    Exit,
}

/// The state of the application as plain values.
#[verifier::ext_equal]
pub struct ASModel {
    pub splash_window: Option<u64>,
    pub root_window: Option<u64>,
    pub running_startup_tasks: Set<StartupTask>,
    pub running_shutdown_tasks: Set<ShutdownTask>,
    /// Whether the application holds a running OSCQuery host.
    pub osc_running: bool,
    pub selected_tab: SelectedTab,
}

/// The state just after launch with the splash window `splash`.
pub open spec fn initial_model(splash: u64) -> ASModel {
    ASModel {
        splash_window: Some(splash),
        root_window: None,
        running_startup_tasks: all_startup_tasks(),
        running_shutdown_tasks: Set::empty(),
        osc_running: false,
        selected_tab: SelectedTab::Saves,
    }
}

/// `completed` is done: when no startup task remains, open the main window.
pub open spec fn check_startup(m: ASModel, completed: StartupTask) -> (ASModel, ASAction) {
    let m2 = ASModel { running_startup_tasks: m.running_startup_tasks.remove(completed), ..m };
    if m2.running_startup_tasks == Set::<StartupTask>::empty() {
        (m2, ASAction::OpenMainWindow)
    } else {
        (m2, ASAction::Nothing)
    }
}

/// Begin shutting down: stop a running OSCQuery host and wait for it, or exit
/// at once when nothing needs to finish.
pub open spec fn start_shutdown(m: ASModel) -> (ASModel, ASAction) {
    if m.osc_running {
        (
            ASModel {
                osc_running: false,
                running_shutdown_tasks: m.running_shutdown_tasks.insert(ShutdownTask::OSCShutdown),
                ..m
            },
            ASAction::ShutdownOsc,
        )
    } else if m.running_shutdown_tasks == Set::<ShutdownTask>::empty() {
        (m, ASAction::Exit)
    } else {
        (m, ASAction::Nothing)
    }
}

/// The state and action after the event `msg` in the state `m`.
pub open spec fn model_next(m: ASModel, msg: ASMsg) -> (ASModel, ASAction) {
    match msg {
        ASMsg::WindowClosed(id) => if m.splash_window == Some(id) || m.root_window == Some(id) {
            start_shutdown(m)
        } else {
            (m, ASAction::Nothing)
        },
        ASMsg::WindowOpened(id) => if m.root_window == Some(id) {
            match m.splash_window {
                Some(splash) => (m, ASAction::CloseSplashAfterDelay(splash)),
                None => (m, ASAction::Nothing),
            }
        } else {
            (m, ASAction::Nothing)
        },
        ASMsg::SplashClose(id) => (ASModel { splash_window: None, ..m }, ASAction::CloseWindow(id)),
        ASMsg::StartupTaskFinished(task) => check_startup(m, task),
        ASMsg::ShutdownTaskFinished(task) => {
            let m2 = ASModel {
                running_shutdown_tasks: m.running_shutdown_tasks.remove(task),
                ..m
            };
            if m2.running_shutdown_tasks == Set::<ShutdownTask>::empty() {
                (m2, ASAction::Exit)
            } else {
                (m2, ASAction::Nothing)
            }
        },
        ASMsg::OSCQueryStarted(ok) => if ok {
            check_startup(ASModel { osc_running: true, ..m }, StartupTask::StartOSCQuery)
        } else {
            start_shutdown(m)
        },
        ASMsg::Root(RootMsg::SetTab(tab)) => (ASModel { selected_tab: tab, ..m }, ASAction::Nothing),
        ASMsg::OSCPacket => (m, ASAction::Nothing),
    }
}

/// What a window shows.
#[derive(PartialEq, Eq, Structural, Clone, Copy, Debug)]
pub enum WindowContent {
    /// The splash screen, with a progress bar of `finished` out of
    /// `task_count` startup tasks.
    Splash { task_count: u32, finished: u32 },
    /// The main window's tabs.
    Root,
    /// Nothing.
    Blank,
}

/// The state of the application.
pub struct ASState {
    splash_window: Option<u64>,
    root_window: Option<u64>,
    running_startup_tasks: StartupTaskSet,
    running_shutdown_tasks: ShutdownTaskSet,
    osc_running: bool,
    root: RootState,
}

/// The title of the splash window.
pub const APPLICATION_SPLASH_TITLE: &'static str = "AviSaver Starting...";

impl ASState {
    /// The state as plain values.
    pub closed spec fn model(&self) -> ASModel {
        ASModel {
            splash_window: self.splash_window,
            root_window: self.root_window,
            running_startup_tasks: self.running_startup_tasks@,
            running_shutdown_tasks: self.running_shutdown_tasks@,
            osc_running: self.osc_running,
            selected_tab: self.root.tab(),
        }
    }

    /// The state just after launch, with the splash window `splash_window`
    /// open and every startup task running.
    pub fn new(splash_window: u64) -> (res: Self)
        ensures
            res.model() == initial_model(splash_window),
    {
        ASState {
            splash_window: Some(splash_window),
            root_window: None,
            running_startup_tasks: StartupTaskSet::all(),
            running_shutdown_tasks: ShutdownTaskSet::new(),
            osc_running: false,
            root: RootState::new(),
        }
    }

    /// The main window's state.
    pub fn root(&self) -> (res: &RootState)
        ensures
            res.tab() == self.model().selected_tab,
    {
        &self.root
    }

    fn check_startup(&mut self, completed: StartupTask) -> (res: ASAction)
        ensures
            (final(self).model(), res) == check_startup(old(self).model(), completed),
    {
        self.running_startup_tasks.remove(completed);
        if self.running_startup_tasks.is_empty() {
            ASAction::OpenMainWindow
        } else {
            ASAction::Nothing
        }
    }

    fn start_shutdown(&mut self) -> (res: ASAction)
        ensures
            (final(self).model(), res) == start_shutdown(old(self).model()),
    {
        if self.osc_running {
            self.osc_running = false;
            self.running_shutdown_tasks.insert(ShutdownTask::OSCShutdown);
            return ASAction::ShutdownOsc;
        }
        if self.running_shutdown_tasks.is_empty() {
            ASAction::Exit
        } else {
            ASAction::Nothing
        }
    }

    /// Reacts to the event `msg`, as `model_next` says.
    pub fn update(&mut self, msg: ASMsg) -> (res: ASAction)
        ensures
            (final(self).model(), res) == model_next(old(self).model(), msg),
    {
        match msg {
            ASMsg::WindowClosed(id) => {
                if self.splash_window == Some(id) || self.root_window == Some(id) {
                    self.start_shutdown()
                } else {
                    ASAction::Nothing
                }
            },
            ASMsg::WindowOpened(id) => {
                if self.root_window == Some(id) {
                    match self.splash_window {
                        Some(splash) => ASAction::CloseSplashAfterDelay(splash),
                        None => ASAction::Nothing,
                    }
                } else {
                    ASAction::Nothing
                }
            },
            ASMsg::SplashClose(id) => {
                self.splash_window = None;
                ASAction::CloseWindow(id)
            },
            ASMsg::StartupTaskFinished(task) => self.check_startup(task),
            ASMsg::ShutdownTaskFinished(task) => {
                self.running_shutdown_tasks.remove(task);
                if self.running_shutdown_tasks.is_empty() {
                    ASAction::Exit
                } else {
                    ASAction::Nothing
                }
            },
            ASMsg::OSCQueryStarted(ok) => {
                if ok {
                    self.osc_running = true;
                    self.check_startup(StartupTask::StartOSCQuery)
                } else {
                    self.start_shutdown()
                }
            },
            ASMsg::Root(root_msg) => {
                self.root.update(root_msg);
                ASAction::Nothing
            },
            ASMsg::OSCPacket => ASAction::Nothing,
        }
    }

    /// Records that the main window was opened as `id`.
    pub fn set_root_window(&mut self, id: u64)
        ensures
            final(self).model() == (ASModel { root_window: Some(id), ..old(self).model() }),
    {
        self.root_window = Some(id);
    }

    /// What the window `window_id` shows: the splash screen with the startup
    /// progress, the main window's tabs, or nothing.
    pub fn view(&self, window_id: u64) -> (res: WindowContent)
        ensures
            res == if self.model().splash_window == Some(window_id) {
                WindowContent::Splash {
                    task_count: startup_task_count() as u32,
                    finished: (startup_task_count() - self.model().running_startup_tasks.len()) as u32,
                }
            } else if self.model().root_window == Some(window_id) {
                WindowContent::Root
            } else {
                WindowContent::Blank
            },
            res matches WindowContent::Splash { task_count, finished } ==> finished <= task_count,
    {
        if self.splash_window == Some(window_id) {
            let task_count: u32 = 2;
            let running = self.running_startup_tasks.len();
            proof {
                assert(all_startup_tasks().len() == 2) by {
                    assert(set![StartupTask::LoadSettings].len() == 1);
                }
                vstd::set_lib::lemma_len_subset(self.running_startup_tasks@, all_startup_tasks());
            }
            WindowContent::Splash { task_count, finished: task_count - running }
        } else if self.root_window == Some(window_id) {
            WindowContent::Root
        } else {
            WindowContent::Blank
        }
    }

    /// The title of the window `window_id`.
    pub fn title(&self, window_id: u64) -> (res: String)
        ensures
            res@ == if self.model().splash_window == Some(window_id) {
                APPLICATION_SPLASH_TITLE@
            } else if self.model().root_window == Some(window_id) {
                APPLICATION_TITLE@
            } else {
                ""@
            },
    {
        if self.splash_window == Some(window_id) {
            APPLICATION_SPLASH_TITLE.to_owned()
        } else if self.root_window == Some(window_id) {
            APPLICATION_TITLE.to_owned()
        } else {
            "".to_owned()
        }
    }
}

/// The main window opens when the last startup task finishes, whichever of
/// loading the settings and starting the OSCQuery host finishes first; the
/// first to finish opens nothing.
pub proof fn startup_opens_main_window_after_both_tasks(splash: u64)
    ensures
        ({
            let (m1, a1) = model_next(initial_model(splash), ASMsg::StartupTaskFinished(StartupTask::LoadSettings));
            let (m2, a2) = model_next(m1, ASMsg::OSCQueryStarted(true));
            a1 == ASAction::Nothing && a2 == ASAction::OpenMainWindow && m2.osc_running
        }),
        ({
            let (m1, a1) = model_next(initial_model(splash), ASMsg::OSCQueryStarted(true));
            let (m2, a2) = model_next(m1, ASMsg::StartupTaskFinished(StartupTask::LoadSettings));
            a1 == ASAction::Nothing && a2 == ASAction::OpenMainWindow && m2.osc_running
        }),
{
    let all = all_startup_tasks();
    let l = StartupTask::LoadSettings;
    let o = StartupTask::StartOSCQuery;
    assert(all.remove(l).contains(o));
    assert(all.remove(o).contains(l));
    assert(all.remove(l).remove(o) =~= Set::<StartupTask>::empty());
    assert(all.remove(o).remove(l) =~= Set::<StartupTask>::empty());
}

/// The application exits only when no shutdown task is left running.
pub proof fn exit_only_after_cleanup(m: ASModel, msg: ASMsg)
    ensures
        model_next(m, msg).1 == ASAction::Exit ==> model_next(m, msg).0.running_shutdown_tasks
            == Set::<ShutdownTask>::empty(),
{
}

/// Once the OSCQuery host has been handed over for shutdown, no later event
/// asks for it to be shut down again, unless a host starts anew.
pub proof fn osc_shutdown_requested_once(m: ASModel, msg: ASMsg)
    requires
        !m.osc_running,
        msg != ASMsg::OSCQueryStarted(true),
    ensures
        model_next(m, msg).1 != ASAction::ShutdownOsc,
        !model_next(m, msg).0.osc_running,
{
}

/// Closing the splash or main window while the OSCQuery host runs shuts the
/// host down first, and the application exits when that shutdown finishes.
pub proof fn close_waits_for_osc_shutdown(m: ASModel, id: u64)
    requires
        m.osc_running,
        m.running_shutdown_tasks == Set::<ShutdownTask>::empty(),
        m.splash_window == Some(id) || m.root_window == Some(id),
    ensures
        ({
            let (m1, a1) = model_next(m, ASMsg::WindowClosed(id));
            let (m2, a2) = model_next(m1, ASMsg::ShutdownTaskFinished(ShutdownTask::OSCShutdown));
            a1 == ASAction::ShutdownOsc && a2 == ASAction::Exit && !m2.osc_running
        }),
{
    let t = ShutdownTask::OSCShutdown;
    assert(Set::<ShutdownTask>::empty().insert(t).remove(t) =~= Set::<ShutdownTask>::empty());
}

/// When the main window opens, the splash window is closed after a delay, and
/// closing it then does not shut the application down.
pub proof fn splash_closes_after_main_window_opens(m: ASModel, splash: u64, main: u64)
    requires
        m.splash_window == Some(splash),
        m.root_window == Some(main),
        splash != main,
    ensures
        model_next(m, ASMsg::WindowOpened(main)).1 == ASAction::CloseSplashAfterDelay(splash),
        ({
            let (m1, a1) = model_next(m, ASMsg::SplashClose(splash));
            let (m2, a2) = model_next(m1, ASMsg::WindowClosed(splash));
            a1 == ASAction::CloseWindow(splash) && m1.splash_window is None && a2
                == ASAction::Nothing && m2 == m1
        }),
{
}

/// The startup task that an event reports finished: loading the settings, or
/// starting the OSCQuery host when it started.
pub open spec fn reported_task(msg: ASMsg) -> Option<StartupTask> {
    match msg {
        ASMsg::StartupTaskFinished(StartupTask::LoadSettings) => Some(StartupTask::LoadSettings),
        ASMsg::OSCQueryStarted(true) => Some(StartupTask::StartOSCQuery),
        _ => None,
    }
}

/// The startup tasks that the events report finished.
pub open spec fn reported_tasks(events: Seq<ASMsg>) -> Set<StartupTask>
    decreases events.len(),
{
    if events.len() == 0 {
        Set::empty()
    } else {
        let before = reported_tasks(events.drop_last());
        match reported_task(events.last()) {
            Some(t) => before.insert(t),
            None => before,
        }
    }
}

/// The state and the actions after the events, one after another, from `m`,
/// where the application records the main window it opens at step `i` as
/// `main_windows[i]`.
pub open spec fn run(m: ASModel, events: Seq<ASMsg>, main_windows: Seq<u64>) -> (ASModel, Seq<ASAction>)
    decreases events.len(),
{
    if events.len() == 0 {
        (m, Seq::empty())
    } else {
        let (m1, actions) = run(m, events.drop_last(), main_windows.drop_last());
        let (m2, action) = model_next(m1, events.last());
        let m3 = if action == ASAction::OpenMainWindow {
            ASModel { root_window: Some(main_windows.last()), ..m2 }
        } else {
            m2
        };
        (m3, actions.push(action))
    }
}

/// Each startup task is reported finished at most once, and the start of the
/// OSCQuery host is reported only by its own event.
pub open spec fn startup_reported_once(events: Seq<ASMsg>) -> bool {
    &&& forall|i: int, j: int|
        0 <= i < j < events.len() && #[trigger] reported_task(events[i]) is Some
            ==> reported_task(events[i]) != #[trigger] reported_task(events[j])
    &&& forall|i: int|
        0 <= i < events.len() ==> #[trigger] events[i] != ASMsg::StartupTaskFinished(
            StartupTask::StartOSCQuery,
        )
}

proof fn lemma_reported_has_event(events: Seq<ASMsg>, t: StartupTask)
    requires
        reported_tasks(events).contains(t),
    ensures
        exists|i: int| 0 <= i < events.len() && #[trigger] reported_task(events[i]) == Some(t),
    decreases events.len(),
{
    if reported_task(events.last()) == Some(t) {
        assert(reported_task(events[events.len() - 1]) == Some(t));
    } else {
        lemma_reported_has_event(events.drop_last(), t);
        let i = choose|i: int| 0 <= i < events.len() - 1 && #[trigger] reported_task(events.drop_last()[i]) == Some(t);
        assert(events.drop_last()[i] == events[i]);
    }
}

proof fn lemma_run_startup(splash: u64, events: Seq<ASMsg>, main_windows: Seq<u64>)
    requires
        main_windows.len() == events.len(),
        startup_reported_once(events),
    ensures
        ({
            let (m, actions) = run(initial_model(splash), events, main_windows);
            &&& m.running_startup_tasks == all_startup_tasks().difference(reported_tasks(events))
            &&& (m.root_window is Some <==> reported_tasks(events) == all_startup_tasks())
            &&& actions.len() == events.len()
            &&& forall|i: int|
                0 <= i < events.len() ==> (#[trigger] actions[i] == ASAction::OpenMainWindow <==> (
                reported_tasks(events.take(i)) != all_startup_tasks() && reported_tasks(
                    events.take(i + 1),
                ) == all_startup_tasks()))
        }),
    decreases events.len(),
{
    let all = all_startup_tasks();
    if events.len() == 0 {
        assert(all.difference(Set::<StartupTask>::empty()) =~= all);
        assert(Set::<StartupTask>::empty() != all) by {
            assert(all.contains(StartupTask::LoadSettings));
        }
    } else {
        let prev = events.drop_last();
        let pw = main_windows.drop_last();
        assert forall|i: int, j: int|
            0 <= i < j < prev.len() && #[trigger] reported_task(prev[i]) is Some
                implies reported_task(prev[i]) != #[trigger] reported_task(prev[j]) by {
            assert(prev[i] == events[i] && prev[j] == events[j]);
        }
        assert forall|i: int| 0 <= i < prev.len() implies #[trigger] prev[i]
            != ASMsg::StartupTaskFinished(StartupTask::StartOSCQuery) by {
            assert(prev[i] == events[i]);
        }
        lemma_run_startup(splash, prev, pw);
        let (m1, acts1) = run(initial_model(splash), prev, pw);
        let r0 = reported_tasks(prev);
        let r1 = reported_tasks(events);
        let last = events.last();
        assert(last == events[events.len() - 1]);
        assert(events.take(events.len() - 1) =~= prev);
        assert(events.take(events.len() as int) =~= events);
        match reported_task(last) {
            Some(t) => {
                assert(!r0.contains(t)) by {
                    if r0.contains(t) {
                        lemma_reported_has_event(prev, t);
                        let i = choose|i: int| 0 <= i < prev.len() && #[trigger] reported_task(prev[i]) == Some(t);
                        assert(prev[i] == events[i]);
                        assert(reported_task(events[i]) != reported_task(events[events.len() - 1]));
                    }
                }
                assert(r1 == r0.insert(t));
                assert(all.difference(r0).remove(t) =~= all.difference(r1));
                if r1 == all {
                    assert(r0 != all) by {
                        assert(!r0.contains(t));
                    }
                } else {
                    assert(r0 != all) by {
                        if r0 == all {
                            assert(r0.insert(t) =~= all);
                        }
                    }
                }
                assert(all.difference(r1) == Set::<StartupTask>::empty() <==> r1 == all) by {
                    if all.difference(r1) == Set::<StartupTask>::empty() {
                        assert forall|u: StartupTask| r1.contains(u) <==> all.contains(u) by {
                            assert(!all.difference(r1).contains(u));
                            if r1.contains(u) {
                                match u {
                                    StartupTask::LoadSettings => {},
                                    StartupTask::StartOSCQuery => {},
                                }
                            }
                        }
                        assert(r1 =~= all);
                    }
                    if r1 == all {
                        assert(all.difference(r1) =~= Set::<StartupTask>::empty());
                    }
                }
            },
            None => {
                assert(r1 == r0);
            },
        }
        let (m, actions) = run(initial_model(splash), events, main_windows);
        assert(actions == acts1.push(model_next(m1, last).1));
        assert forall|i: int| 0 <= i < events.len() implies (#[trigger] actions[i]
            == ASAction::OpenMainWindow <==> (reported_tasks(events.take(i)) != all
            && reported_tasks(events.take(i + 1)) == all)) by {
            if i < prev.len() {
                assert(events.take(i) =~= prev.take(i));
                assert(events.take(i + 1) =~= prev.take(i + 1));
                assert(actions[i] == acts1[i]);
            }
        }
    }
}

/// From launch, over any sequence of events in which each startup task is
/// reported finished at most once (and the start of the OSCQuery host only by
/// its own event), the running startup tasks after every step are all of them
/// less those reported so far; the main window is opened exactly once, at the
/// step that reports the last of them; and a main window is recorded exactly
/// when both have been reported.
pub proof fn startup_opens_main_window_once(splash: u64, events: Seq<ASMsg>, main_windows: Seq<u64>)
    requires
        main_windows.len() == events.len(),
        startup_reported_once(events),
    ensures
        ({
            let (m, actions) = run(initial_model(splash), events, main_windows);
            &&& m.running_startup_tasks == all_startup_tasks().difference(reported_tasks(events))
            &&& (m.root_window is Some <==> reported_tasks(events) == all_startup_tasks())
            &&& actions.len() == events.len()
            &&& forall|i: int|
                0 <= i < events.len() ==> (#[trigger] actions[i] == ASAction::OpenMainWindow <==> (
                reported_tasks(events.take(i)) != all_startup_tasks() && reported_tasks(
                    events.take(i + 1),
                ) == all_startup_tasks()))
        }),
{
    lemma_run_startup(splash, events, main_windows);
}

/// When the OSCQuery host fails to start, the application begins to shut
/// down, whatever startup tasks remain: a running host is handed over for
/// shutdown; with no host running and no shutdown task pending it exits at
/// once; otherwise it waits. The startup tasks and windows are untouched.
pub proof fn failed_osc_start_shuts_down(m: ASModel)
    ensures
        ({
            let (m2, a) = model_next(m, ASMsg::OSCQueryStarted(false));
            &&& !m2.osc_running
            &&& m2.running_startup_tasks == m.running_startup_tasks
            &&& m2.splash_window == m.splash_window
            &&& m2.root_window == m.root_window
            &&& m2.selected_tab == m.selected_tab
            &&& (a == ASAction::ShutdownOsc <==> m.osc_running)
            &&& (m.osc_running ==> m2.running_shutdown_tasks == m.running_shutdown_tasks.insert(
                ShutdownTask::OSCShutdown,
            ))
            &&& (!m.osc_running ==> m2.running_shutdown_tasks == m.running_shutdown_tasks)
            &&& (a == ASAction::Exit <==> (!m.osc_running && m.running_shutdown_tasks
                == Set::<ShutdownTask>::empty()))
            &&& (a == ASAction::ShutdownOsc || a == ASAction::Exit || a == ASAction::Nothing)
        }),
{
}

/// Selecting a tab in the main window makes it the selected tab, whichever
/// tab it is, asks for nothing, and changes nothing else.
pub proof fn set_tab_selects_it(m: ASModel, t: SelectedTab)
    ensures
        model_next(m, ASMsg::Root(RootMsg::SetTab(t))).0 == (ASModel { selected_tab: t, ..m }),
        model_next(m, ASMsg::Root(RootMsg::SetTab(t))).0.selected_tab == t,
        model_next(m, ASMsg::Root(RootMsg::SetTab(t))).1 == ASAction::Nothing,
{
}

} // verus!
