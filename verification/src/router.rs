//! Routing window commands to one host process per application.
//!
//! In multiplex mode the compositor owns no native windows. Each application, told
//! apart by its key, has a host process, and every command goes to the host that owns
//! the window. Window ids are unique over all hosts.

use crate::cmd::WinCmd;
use crate::idmap::IdMap;
use crate::text::{decimal, digits};
use vstd::prelude::*;
use vstd::string::*;

verus! {

/// Whom a command concerns.
#[derive(Clone, Copy, PartialEq, Eq, Debug, Structural)]
pub enum Target {
    Window { id: u32 },
    Broadcast,
}

/// Cursor commands and the end of a grab concern every host; a popup concerns its
/// parent's window; all others concern the window that they name.
pub open spec fn target_of(cmd: WinCmd) -> Target {
    match cmd {
        WinCmd::SetCursor { .. } => Target::Broadcast,
        WinCmd::SetCursorImage { .. } => Target::Broadcast,
        WinCmd::HideCursor => Target::Broadcast,
        WinCmd::SetGrab { window } => match window {
            Some(id) => Target::Window { id },
            None => Target::Broadcast,
        },
        WinCmd::Create { id, .. } => Target::Window { id },
        WinCmd::Frame { id, .. } => Target::Window { id },
        WinCmd::Title { id, .. } => Target::Window { id },
        WinCmd::StartMove { id } => Target::Window { id },
        WinCmd::Move { id, .. } => Target::Window { id },
        WinCmd::StartResize { id, .. } => Target::Window { id },
        WinCmd::CreatePopup { parent_id, .. } => Target::Window { id: parent_id },
        WinCmd::SubFrame { window_id, .. } => Target::Window { id: window_id },
        WinCmd::SubDestroy { window_id, .. } => Target::Window { id: window_id },
        WinCmd::Maximize { id, .. } => Target::Window { id },
        WinCmd::Fullscreen { id, .. } => Target::Window { id },
        WinCmd::Minimize { id } => Target::Window { id },
        WinCmd::SetMinSize { id, .. } => Target::Window { id },
        WinCmd::SetMaxSize { id, .. } => Target::Window { id },
        WinCmd::Activate { id } => Target::Window { id },
        WinCmd::SetModal { id, .. } => Target::Window { id },
        WinCmd::SetIcon { id, .. } => Target::Window { id },
        WinCmd::Destroy { id } => Target::Window { id },
        WinCmd::CreateLayer { id, .. } => Target::Window { id },
    }
}

/// Whom a command concerns.
pub fn target(cmd: &WinCmd) -> (t: Target)
    ensures
        t == target_of(*cmd),
{
    match cmd {
        WinCmd::SetCursor { .. } => Target::Broadcast,
        WinCmd::SetCursorImage { .. } => Target::Broadcast,
        WinCmd::HideCursor => Target::Broadcast,
        WinCmd::SetGrab { window } => match window {
            Some(id) => Target::Window { id: *id },
            None => Target::Broadcast,
        },
        WinCmd::Create { id, .. } => Target::Window { id: *id },
        WinCmd::Frame { id, .. } => Target::Window { id: *id },
        WinCmd::Title { id, .. } => Target::Window { id: *id },
        WinCmd::StartMove { id } => Target::Window { id: *id },
        WinCmd::Move { id, .. } => Target::Window { id: *id },
        WinCmd::StartResize { id, .. } => Target::Window { id: *id },
        WinCmd::CreatePopup { parent_id, .. } => Target::Window { id: *parent_id },
        WinCmd::SubFrame { window_id, .. } => Target::Window { id: *window_id },
        WinCmd::SubDestroy { window_id, .. } => Target::Window { id: *window_id },
        WinCmd::Maximize { id, .. } => Target::Window { id: *id },
        WinCmd::Fullscreen { id, .. } => Target::Window { id: *id },
        WinCmd::Minimize { id } => Target::Window { id: *id },
        WinCmd::SetMinSize { id, .. } => Target::Window { id: *id },
        WinCmd::SetMaxSize { id, .. } => Target::Window { id: *id },
        WinCmd::Activate { id } => Target::Window { id: *id },
        WinCmd::SetModal { id, .. } => Target::Window { id: *id },
        WinCmd::SetIcon { id, .. } => Target::Window { id: *id },
        WinCmd::Destroy { id } => Target::Window { id: *id },
        WinCmd::CreateLayer { id, .. } => Target::Window { id: *id },
    }
}

/// What is to be done about a host.
#[derive(Clone, Copy, PartialEq, Eq, Debug, Structural)]
pub enum HostAction {
    /// Send the frame at hand.
    Send { app: u32 },
    /// Tell the host to end, end it, and clear up behind it.
    ShutDown { app: u32 },
}

/// What the router knows.
pub struct RouterView {
    pub scale: i32,
    pub out_w: i32,
    pub out_h: i32,
    pub insets: (i32, i32, i32, i32),
    /// The applications that have a host.
    pub helpers: Map<u64, ()>,
    /// The application of each window.
    pub win_to_app: Map<u64, u32>,
}

/// The state and what is to be done.
pub struct Routed {
    pub state: RouterView,
    pub actions: Seq<HostAction>,
}

/// The frame at hand goes to every host, by ascending key.
pub open spec fn to_all(helpers: Map<u64, ()>) -> Seq<HostAction> {
    crate::idmap::ascending(helpers.dom()).map_values(|k: u64| HostAction::Send { app: k as u32 })
}

impl RouterView {
    /// Every window's application has a host, and keys fit.
    pub open spec fn wf(self) -> bool {
        &&& forall|w: u64| #[trigger]
            self.win_to_app.contains_key(w) ==> self.helpers.contains_key(
                self.win_to_app[w] as u64,
            )
        &&& forall|a: u64| #[trigger] self.helpers.contains_key(a) ==> a <= u32::MAX
    }

    /// A window belongs to an application. Where the application has no host yet and
    /// none could be started, nothing is recorded.
    pub open spec fn assigned(self, win_id: u32, app_key: u32, spawned: bool) -> RouterView {
        if self.helpers.contains_key(app_key as u64) || spawned {
            RouterView {
                helpers: self.helpers.insert(app_key as u64, ()),
                win_to_app: self.win_to_app.insert(win_id as u64, app_key),
                ..self
            }
        } else {
            self
        }
    }

    /// New insets, which every host is told.
    pub open spec fn set_insets(
        self,
        top: i32,
        right: i32,
        bottom: i32,
        left: i32,
        encodes: bool,
    ) -> Routed {
        Routed {
            state: RouterView { insets: (top, right, bottom, left), ..self },
            actions: if encodes {
                to_all(self.helpers)
            } else {
                Seq::empty()
            },
        }
    }

    /// What a new host is told first.
    pub open spec fn environment(self) -> Environment {
        Environment {
            scale: self.scale,
            out_w: self.out_w,
            out_h: self.out_h,
            insets: self.insets,
        }
    }

    /// A popup goes where its parent is.
    pub open spec fn popup_noted(self, cmd: WinCmd) -> RouterView {
        match cmd {
            WinCmd::CreatePopup { id, parent_id, .. } => if self.win_to_app.contains_key(
                parent_id as u64,
            ) {
                RouterView {
                    win_to_app: self.win_to_app.insert(
                        id as u64,
                        self.win_to_app[parent_id as u64],
                    ),
                    ..self
                }
            } else {
                self
            },
            _ => self,
        }
    }

    /// The application still has a window.
    pub open spec fn in_use(self, app: u32) -> bool {
        exists|w: u64| #[trigger] self.win_to_app.contains_key(w) && self.win_to_app[w] == app
    }

    /// Where a command goes. `encodes` says that it could be put into a frame; one that
    /// could not goes nowhere. With an application's last window its host goes too.
    pub open spec fn route(self, cmd: WinCmd, encodes: bool) -> Routed {
        match target_of(cmd) {
            Target::Broadcast => Routed {
                state: self,
                actions: if encodes {
                    to_all(self.helpers)
                } else {
                    Seq::empty()
                },
            },
            Target::Window { id } => {
                let s = self.popup_noted(cmd);
                if !encodes || !s.win_to_app.contains_key(id as u64) {
                    Routed { state: s, actions: Seq::empty() }
                } else {
                    let app = s.win_to_app[id as u64];
                    let send = seq![HostAction::Send { app }];
                    if cmd is Destroy {
                        let left = RouterView {
                            win_to_app: s.win_to_app.remove(id as u64),
                            ..s
                        };
                        if left.in_use(app) {
                            Routed { state: left, actions: send }
                        } else {
                            Routed {
                                state: RouterView {
                                    helpers: left.helpers.remove(app as u64),
                                    ..left
                                },
                                actions: send.push(HostAction::ShutDown { app }),
                            }
                        }
                    } else {
                        Routed { state: s, actions: send }
                    }
                }
            },
        }
    }
}

/// The router of a compositor in multiplex mode.
pub struct Router {
    scale: i32,
    out_w: i32,
    out_h: i32,
    insets: (i32, i32, i32, i32),
    helpers: IdMap<()>,
    win_to_app: IdMap<u32>,
}

impl View for Router {
    type V = RouterView;

    closed spec fn view(&self) -> RouterView {
        RouterView {
            scale: self.scale,
            out_w: self.out_w,
            out_h: self.out_h,
            insets: self.insets,
            helpers: self.helpers@,
            win_to_app: self.win_to_app@,
        }
    }
}

/// What a new host is told first.
#[derive(Clone, Copy, PartialEq, Eq, Debug)]
pub struct Environment {
    pub scale: i32,
    pub out_w: i32,
    pub out_h: i32,
    pub insets: (i32, i32, i32, i32),
}

impl Router {
    /// The tables are sound and fit together.
    pub closed spec fn wf(&self) -> bool {
        self.helpers.wf() && self.win_to_app.wf() && self@.wf()
    }

    /// What `wf` says of the view.
    pub proof fn lemma_wf(&self)
        requires
            self.wf(),
        ensures
            self@.wf(),
    {
    }

    /// A router without hosts.
    pub fn new(scale: i32, out_w: i32, out_h: i32, insets: (i32, i32, i32, i32)) -> (r: Self)
        ensures
            r.wf(),
            r@ == (RouterView {
                scale,
                out_w,
                out_h,
                insets,
                helpers: Map::empty(),
                win_to_app: Map::empty(),
            }),
    {
        Router {
            scale,
            out_w,
            out_h,
            insets,
            helpers: IdMap::new(),
            win_to_app: IdMap::new(),
        }
    }

    /// What a new host is told first.
    pub fn environment(&self) -> (e: Environment)
        ensures
            e == self@.environment(),
    {
        Environment {
            scale: self.scale,
            out_w: self.out_w,
            out_h: self.out_h,
            insets: self.insets,
        }
    }

    /// Whether a host has to be started before a window of this application is assigned.
    pub fn needs_host(&self, app_key: u32) -> (b: bool)
        requires
            self.wf(),
        ensures
            b == !self@.helpers.contains_key(app_key as u64),
    {
        !self.helpers.contains(app_key as u64)
    }

    fn all_hosts(&self) -> (r: Vec<HostAction>)
        requires
            self.wf(),
        ensures
            r@ == to_all(self@.helpers),
    {
        let mut r: Vec<HostAction> = Vec::new();
        let n: usize = self.helpers.len();
        proof {
            self.helpers.lemma_ids();
        }
        let ghost ids = self.helpers.ids();
        let mut i: usize = 0;
        while i < n
            invariant
                self.wf(),
                ids == self.helpers.ids(),
                i <= n == ids.len(),
                r@ =~= ids.take(i as int).map_values(|k: u64| HostAction::Send { app: k as u32 }),
            decreases n - i,
        {
            let k: u64 = self.helpers.id_at(i);
            assert(self@.helpers.contains_key(k));
            r.push(HostAction::Send { app: k as u32 });
            i = i + 1;
        }
        assert(ids.take(i as int) =~= ids);
        assert(r@ =~= to_all(self@.helpers));
        r
    }

    fn has_window(&self, app: u32) -> (b: bool)
        requires
            self.win_to_app.wf(),
        ensures
            b == self@.in_use(app),
    {
        let n: usize = self.win_to_app.len();
        proof {
            self.win_to_app.lemma_ids();
        }
        let mut i: usize = 0;
        while i < n
            invariant
                self.win_to_app.wf(),
                i <= n == self.win_to_app.ids().len(),
                forall|j: int|
                    0 <= j < i ==> self@.win_to_app[#[trigger] self.win_to_app.ids()[j]] != app,
            decreases n - i,
        {
            if *self.win_to_app.value_at(i) == app {
                let w: u64 = self.win_to_app.id_at(i);
                assert(self@.win_to_app.contains_key(w) && self@.win_to_app[w] == app);
                return true;
            }
            i = i + 1;
        }
        false
    }

    /// Records that a window belongs to an application. Where `needs_host` holds,
    /// `spawned` says whether its host could be started.
    pub fn assign(&mut self, win_id: u32, app_key: u32, spawned: bool)
        requires
            old(self).wf(),
        ensures
            final(self).wf(),
            final(self)@ == old(self)@.assigned(win_id, app_key, spawned),
    {
        let known: bool = self.helpers.contains(app_key as u64);
        if known || spawned {
            self.helpers.insert(app_key as u64, ());
            self.win_to_app.insert(win_id as u64, app_key);
            proof {
                let before = old(self)@;
                assert(before.wf());
                assert forall|w: u64| #[trigger]
                    self@.win_to_app.contains_key(w) implies self@.helpers.contains_key(
                    self@.win_to_app[w] as u64,
                ) by {
                    if w != win_id as u64 {
                        assert(before.win_to_app.contains_key(w));
                    }
                }
                assert forall|a: u64| #[trigger] self@.helpers.contains_key(a) implies a
                    <= u32::MAX by {
                    if a != app_key as u64 {
                        assert(before.helpers.contains_key(a));
                    }
                }
                assert(self@ == before.assigned(win_id, app_key, spawned));
            }
        }
    }

    /// Where a command goes.
    pub fn route(&mut self, cmd: &WinCmd, encodes: bool) -> (actions: Vec<HostAction>)
        requires
            old(self).wf(),
        ensures
            final(self).wf(),
            (Routed { state: final(self)@, actions: actions@ }) == old(self)@.route(*cmd, encodes),
    {
        let ghost want = old(self)@.route(*cmd, encodes);
        let ghost noted = old(self)@.popup_noted(*cmd);
        proof {
            assert(old(self)@.wf());
            assert(noted.wf()) by {
                assert forall|w: u64| #[trigger]
                    noted.win_to_app.contains_key(w) implies noted.helpers.contains_key(
                    noted.win_to_app[w] as u64,
                ) by {
                    match *cmd {
                        WinCmd::CreatePopup { id, parent_id, .. } => {
                            if w != id as u64 {
                                assert(old(self)@.win_to_app.contains_key(w));
                            } else if old(self)@.win_to_app.contains_key(parent_id as u64) {
                            } else {
                                assert(old(self)@.win_to_app.contains_key(w));
                            }
                        },
                        _ => {
                            assert(old(self)@.win_to_app.contains_key(w));
                        },
                    }
                }
            }
        }
        let mut out: Vec<HostAction> = Vec::new();
        match target(cmd) {
            Target::Broadcast => {
                if encodes {
                    out = self.all_hosts();
                }
                assert(out@ =~= want.actions);
                out
            },
            Target::Window { id } => {
                if let WinCmd::CreatePopup { id: popup, parent_id, .. } = cmd {
                    let parent_app: Option<u32> = match self.win_to_app.get(*parent_id as u64) {
                        Some(a) => Some(*a),
                        None => None,
                    };
                    if let Some(a) = parent_app {
                        self.win_to_app.insert(*popup as u64, a);
                    }
                }
                assert(self@ == noted);
                let app: Option<u32> = match self.win_to_app.get(id as u64) {
                    Some(a) => Some(*a),
                    None => None,
                };
                if !encodes {
                    assert(out@ =~= want.actions);
                    return out;
                }
                if let Some(app) = app {
                    out.push(HostAction::Send { app });
                    let is_destroy: bool = match cmd {
                        WinCmd::Destroy { .. } => true,
                        _ => false,
                    };
                    if is_destroy {
                        let _ = self.win_to_app.remove(id as u64);
                        let ghost left = self@;
                        if !self.has_window(app) {
                            let _ = self.helpers.remove(app as u64);
                            out.push(HostAction::ShutDown { app });
                        }
                        proof {
                            assert forall|w: u64| #[trigger]
                                self@.win_to_app.contains_key(w) implies self@.helpers.contains_key(
                                self@.win_to_app[w] as u64,
                            ) by {
                                assert(noted.win_to_app.contains_key(w));
                                if !left.in_use(app) {
                                    assert(left.win_to_app.contains_key(w));
                                }
                            }
                            assert(self@.wf());
                        }
                    }
                }
                assert(out@ =~= want.actions);
                out
            },
        }
    }

    /// New insets, which go to every host.
    pub fn set_insets(
        &mut self,
        top: i32,
        right: i32,
        bottom: i32,
        left: i32,
        encodes: bool,
    ) -> (actions: Vec<HostAction>)
        requires
            old(self).wf(),
        ensures
            final(self).wf(),
            (Routed { state: final(self)@, actions: actions@ }) == old(self)@.set_insets(
                top,
                right,
                bottom,
                left,
                encodes,
            ),
    {
        self.insets = (top, right, bottom, left);
        proof {
            assert(old(self)@.wf());
            assert(self@.win_to_app == old(self)@.win_to_app);
            assert(self@.helpers == old(self)@.helpers);
            assert(self@.wf());
        }
        if encodes {
            self.all_hosts()
        } else {
            Vec::new()
        }
    }
}

/// The router, once multiplex mode is on.
pub struct Multiplex {
    pub router: Option<Router>,
}

impl Multiplex {
    /// The router is sound.
    pub open spec fn wf(&self) -> bool {
        self.router is Some ==> self.router->0.wf()
    }

    /// Multiplex mode is off.
    pub fn new() -> (m: Self)
        ensures
            m.wf(),
            m.router is None,
    {
        Multiplex { router: None }
    }
}

/// Whether multiplex mode is on.
pub fn is_enabled(m: &Multiplex) -> (b: bool)
    ensures
        b == (m.router is Some),
{
    m.router.is_some()
}

/// Turns multiplex mode on; the first call counts.
pub fn enable(m: &mut Multiplex, scale: i32, out_w: i32, out_h: i32, insets: (i32, i32, i32, i32))
    requires
        old(m).wf(),
    ensures
        final(m).wf(),
        final(m).router is Some,
        old(m).router is Some ==> *final(m) == *old(m),
        old(m).router is None ==> final(m).router->0@ == (RouterView {
            scale,
            out_w,
            out_h,
            insets,
            helpers: Map::empty(),
            win_to_app: Map::empty(),
        }),
{
    if m.router.is_none() {
        m.router = Some(Router::new(scale, out_w, out_h, insets));
    }
}

/// Tells which application a window that is about to be created belongs to. Does
/// nothing unless multiplex mode is on. Where the application has no host yet, `spawned`
/// says whether one could be started.
pub fn assign_window(m: &mut Multiplex, win_id: u32, app_key: u32, spawned: bool)
    requires
        old(m).wf(),
    ensures
        final(m).wf(),
        final(m).router is Some == old(m).router is Some,
        old(m).router is Some ==> final(m).router->0@ == old(m).router->0@.assigned(
            win_id,
            app_key,
            spawned,
        ),
{
    if let Some(r) = m.router.as_mut() {
        r.assign(win_id, app_key, spawned);
    }
}

/// Hands new insets to every host. Does nothing unless multiplex mode is on.
pub fn broadcast_insets(
    m: &mut Multiplex,
    top: i32,
    right: i32,
    bottom: i32,
    left: i32,
    encodes: bool,
) -> (actions: Vec<HostAction>)
    requires
        old(m).wf(),
    ensures
        final(m).wf(),
        final(m).router is Some == old(m).router is Some,
        old(m).router is Some ==> final(m).router->0@ == (RouterView {
            insets: (top, right, bottom, left),
            ..old(m).router->0@
        }),
        actions@ == if old(m).router is Some && encodes {
            to_all(old(m).router->0@.helpers)
        } else {
            Seq::empty()
        },
{
    match m.router.as_mut() {
        Some(r) => r.set_insets(top, right, bottom, left, encodes),
        None => Vec::new(),
    }
}

/// The name of a host's socket.
pub open spec fn socket_name(pid: u32, app_key: u32) -> Seq<char> {
    "wl-macos-host-"@ + digits(pid as nat) + "-"@ + digits(app_key as nat) + ".sock"@
}

/// The name of an application's directory.
pub open spec fn dir_name(pid: u32, app_key: u32) -> Seq<char> {
    "wl-macos-apps-"@ + digits(pid as nat) + "/"@ + digits(app_key as nat)
}

/// The name of the socket that a host connects to.
pub fn host_socket_name(pid: u32, app_key: u32) -> (r: String)
    ensures
        r@ == socket_name(pid, app_key),
{
    let mut r: String = String::from_str("wl-macos-host-");
    let p = decimal(pid);
    let k = decimal(app_key);
    r.append(p.as_str());
    r.append("-");
    r.append(k.as_str());
    r.append(".sock");
    r
}

/// The name of the directory that holds an application's launcher.
pub fn app_dir_name(pid: u32, app_key: u32) -> (r: String)
    ensures
        r@ == dir_name(pid, app_key),
{
    let mut r: String = String::from_str("wl-macos-apps-");
    let p = decimal(pid);
    let k = decimal(app_key);
    r.append(p.as_str());
    r.append("/");
    r.append(k.as_str());
    r
}

/// A broadcast reaches every host exactly once, and nothing else.
pub proof fn lemma_broadcast_reaches_every_host_once(r: RouterView, cmd: WinCmd, app: u32)
    requires
        r.wf(),
        target_of(cmd) == Target::Broadcast,
    ensures
        r.route(cmd, true).actions == to_all(r.helpers),
        to_all(r.helpers).contains(HostAction::Send { app }) == r.helpers.contains_key(app as u64),
        to_all(r.helpers).no_duplicates(),
        !to_all(r.helpers).contains(HostAction::ShutDown { app }),
{
    let ids = crate::idmap::ascending(r.helpers.dom());
    let all = to_all(r.helpers);
    crate::idmap::lemma_ascending_lists(r.helpers.dom());
    assert forall|i: int| 0 <= i < ids.len() implies r.helpers.contains_key(#[trigger] ids[i]) by {
        assert(ids.to_set().contains(ids[i]));
    }
    if r.helpers.contains_key(app as u64) {
        assert(ids.to_set().contains(app as u64));
        let i = choose|i: int| 0 <= i < ids.len() && ids[i] == app as u64;
        assert(all[i] == (HostAction::Send { app }));
    }
    if all.contains(HostAction::Send { app }) {
        let i = choose|i: int| 0 <= i < all.len() && all[i] == (HostAction::Send { app });
        assert(r.helpers.contains_key(ids[i]));
    }
    assert forall|i: int, j: int| 0 <= i < j < all.len() implies all[i] != all[j] by {
        assert(r.helpers.contains_key(ids[i]) && r.helpers.contains_key(ids[j]));
        assert(ids[i] < ids[j]);
    }
}

/// A command for one window goes to the host of its application and to no other.
pub proof fn lemma_window_commands_go_to_one_host(r: RouterView, cmd: WinCmd, id: u32)
    requires
        r.wf(),
        target_of(cmd) == (Target::Window { id }),
        !(cmd is CreatePopup),
    ensures
        ({
            let t = r.route(cmd, true);
            if r.win_to_app.contains_key(id as u64) {
                &&& t.actions.len() > 0
                &&& t.actions[0] == (HostAction::Send { app: r.win_to_app[id as u64] })
                &&& forall|i: int|
                    1 <= i < t.actions.len() ==> #[trigger] t.actions[i] == (HostAction::ShutDown {
                        app: r.win_to_app[id as u64],
                    })
            } else {
                t.actions == Seq::<HostAction>::empty()
            }
        }),
{
}

/// A popup belongs to the application of its parent: later commands for it go to the
/// same host.
pub proof fn lemma_popup_shares_its_parents_host(r: RouterView, cmd: WinCmd, popup: u32, parent: u32)
    requires
        r.wf(),
        cmd matches WinCmd::CreatePopup { id, parent_id, .. } && id == popup && parent_id == parent,
        r.win_to_app.contains_key(parent as u64),
    ensures
        r.route(cmd, true).state.win_to_app.contains_key(popup as u64),
        r.route(cmd, true).state.win_to_app[popup as u64] == r.win_to_app[parent as u64],
        popup != parent ==> r.route(cmd, true).actions == seq![
            HostAction::Send { app: r.win_to_app[parent as u64] },
        ],
{
}

/// A host lives as long as its application has a window: it is shut down with the last
/// one, and not before.
pub proof fn lemma_host_ends_with_its_last_window(r: RouterView, id: u32)
    requires
        r.wf(),
        r.win_to_app.contains_key(id as u64),
    ensures
        ({
            let app = r.win_to_app[id as u64];
            let t = r.route(WinCmd::Destroy { id }, true);
            let last = forall|w: u64| #[trigger]
                r.win_to_app.contains_key(w) && r.win_to_app[w] == app ==> w == id as u64;
            &&& !t.state.win_to_app.contains_key(id as u64)
            &&& last == !t.state.helpers.contains_key(app as u64)
            &&& last == (t.actions.last() == (HostAction::ShutDown { app }))
            &&& forall|a: u64|
                a != app as u64 ==> #[trigger] t.state.helpers.contains_key(a)
                    == r.helpers.contains_key(a)
        }),
{
    let app = r.win_to_app[id as u64];
    let left = RouterView { win_to_app: r.win_to_app.remove(id as u64), ..r };
    assert(r.helpers.contains_key(app as u64));
    if left.in_use(app) {
        let w = choose|w: u64| #[trigger]
            left.win_to_app.contains_key(w) && left.win_to_app[w] == app;
        assert(r.win_to_app.contains_key(w) && r.win_to_app[w] == app && w != id as u64);
    } else {
        assert forall|w: u64| #[trigger]
            r.win_to_app.contains_key(w) && r.win_to_app[w] == app implies w == id as u64 by {
            if w != id as u64 {
                assert(left.win_to_app.contains_key(w));
            }
        }
    }
}

/// A window whose host could not be started gets no commands.
pub proof fn lemma_failed_host_drops_window(r: RouterView, win_id: u32, app_key: u32)
    requires
        r.wf(),
        !r.helpers.contains_key(app_key as u64),
    ensures
        r.assigned(win_id, app_key, false) == r,
{
}

/// A command concerns every host: the cursor changes, or a grab ends.
pub open spec fn concerns_everyone(cmd: WinCmd) -> bool {
    ||| cmd is SetCursor
    ||| cmd is SetCursorImage
    ||| cmd is HideCursor
    ||| cmd == (WinCmd::SetGrab { window: None })
}

/// A command is about a window of its own naming; a popup is about its parent.
pub open spec fn is_about(cmd: WinCmd, w: u32) -> bool {
    ||| (cmd matches WinCmd::Create { id, .. } && id == w)
    ||| (cmd matches WinCmd::Frame { id, .. } && id == w)
    ||| (cmd matches WinCmd::Title { id, .. } && id == w)
    ||| (cmd matches WinCmd::StartMove { id } && id == w)
    ||| (cmd matches WinCmd::Move { id, .. } && id == w)
    ||| (cmd matches WinCmd::StartResize { id, .. } && id == w)
    ||| (cmd matches WinCmd::CreatePopup { parent_id, .. } && parent_id == w)
    ||| (cmd matches WinCmd::SubFrame { window_id, .. } && window_id == w)
    ||| (cmd matches WinCmd::SubDestroy { window_id, .. } && window_id == w)
    ||| (cmd matches WinCmd::Maximize { id, .. } && id == w)
    ||| (cmd matches WinCmd::Fullscreen { id, .. } && id == w)
    ||| (cmd matches WinCmd::Minimize { id } && id == w)
    ||| (cmd matches WinCmd::SetMinSize { id, .. } && id == w)
    ||| (cmd matches WinCmd::SetMaxSize { id, .. } && id == w)
    ||| (cmd matches WinCmd::Activate { id } && id == w)
    ||| (cmd matches WinCmd::SetModal { id, .. } && id == w)
    ||| (cmd matches WinCmd::SetIcon { id, .. } && id == w)
    ||| (cmd matches WinCmd::Destroy { id } && id == w)
    ||| (cmd matches WinCmd::CreateLayer { id, .. } && id == w)
    ||| cmd == (WinCmd::SetGrab { window: Some(w) })
}

/// A command about a window reaches the host of that window's application, first of
/// all, and no other host ever; only the end of a window can end its host after that.
pub proof fn lemma_only_the_owner_hears_of_a_window(r: RouterView, cmd: WinCmd, w: u32, app: u32)
    requires
        is_about(cmd, w),
        r.win_to_app.contains_key(w as u64),
        r.win_to_app[w as u64] == app,
        !(cmd matches WinCmd::CreatePopup { id, .. } && id == w),
    ensures
        ({
            let t = r.route(cmd, true);
            &&& t.actions.len() >= 1
            &&& t.actions[0] == (HostAction::Send { app })
            &&& !(cmd is Destroy) ==> t.actions.len() == 1
            &&& forall|i: int|
                1 <= i < t.actions.len() ==> #[trigger] t.actions[i] == (HostAction::ShutDown {
                    app,
                })
        }),
{
}

/// A command about a window that belongs to no application reaches nobody, and neither
/// does one that could not be put into a frame.
pub proof fn lemma_strays_reach_nobody(r: RouterView, cmd: WinCmd, w: u32)
    requires
        is_about(cmd, w),
    ensures
        !r.win_to_app.contains_key(w as u64) ==> r.route(cmd, true).actions == Seq::<
            HostAction,
        >::empty(),
        r.route(cmd, false).actions == Seq::<HostAction>::empty(),
{
}

/// A command that concerns every host reaches every host, each once, and changes nothing.
pub proof fn lemma_common_commands_reach_every_host(r: RouterView, cmd: WinCmd, app: u32)
    requires
        r.wf(),
        concerns_everyone(cmd),
    ensures
        ({
            let t = r.route(cmd, true);
            &&& t.actions.contains(HostAction::Send { app }) == r.helpers.contains_key(app as u64)
            &&& t.actions.no_duplicates()
            &&& !t.actions.contains(HostAction::ShutDown { app })
            &&& t.state == r
        }),
{
    lemma_broadcast_reaches_every_host_once(r, cmd, app);
}

/// Every command either concerns every host or is about one window.
pub proof fn lemma_commands_are_of_two_kinds(cmd: WinCmd)
    ensures
        concerns_everyone(cmd) || exists|w: u32| is_about(cmd, w),
{
    match cmd {
        WinCmd::Create { id, .. } => assert(is_about(cmd, id)),
        WinCmd::Frame { id, .. } => assert(is_about(cmd, id)),
        WinCmd::Title { id, .. } => assert(is_about(cmd, id)),
        WinCmd::StartMove { id } => assert(is_about(cmd, id)),
        WinCmd::Move { id, .. } => assert(is_about(cmd, id)),
        WinCmd::StartResize { id, .. } => assert(is_about(cmd, id)),
        WinCmd::CreatePopup { parent_id, .. } => assert(is_about(cmd, parent_id)),
        WinCmd::SubFrame { window_id, .. } => assert(is_about(cmd, window_id)),
        WinCmd::SubDestroy { window_id, .. } => assert(is_about(cmd, window_id)),
        WinCmd::Maximize { id, .. } => assert(is_about(cmd, id)),
        WinCmd::Fullscreen { id, .. } => assert(is_about(cmd, id)),
        WinCmd::Minimize { id } => assert(is_about(cmd, id)),
        WinCmd::SetMinSize { id, .. } => assert(is_about(cmd, id)),
        WinCmd::SetMaxSize { id, .. } => assert(is_about(cmd, id)),
        WinCmd::Activate { id } => assert(is_about(cmd, id)),
        WinCmd::SetModal { id, .. } => assert(is_about(cmd, id)),
        WinCmd::SetIcon { id, .. } => assert(is_about(cmd, id)),
        WinCmd::Destroy { id } => assert(is_about(cmd, id)),
        WinCmd::CreateLayer { id, .. } => assert(is_about(cmd, id)),
        WinCmd::SetGrab { window } => {
            if window is Some {
                assert(is_about(cmd, window->0));
            }
        },
        _ => {},
    }
}

/// A window that is assigned to an application stays with it: commands about it go to
/// that application's host, and those about other windows go where they went.
pub proof fn lemma_assigned_window_is_routed(
    r: RouterView,
    win_id: u32,
    app_key: u32,
    other: u64,
)
    requires
        other != win_id as u64,
    ensures
        ({
            let t = r.assigned(win_id, app_key, true);
            &&& t.win_to_app.contains_key(win_id as u64)
            &&& t.win_to_app[win_id as u64] == app_key
            &&& t.helpers.contains_key(app_key as u64)
            &&& t.win_to_app.contains_key(other) == r.win_to_app.contains_key(other)
            &&& r.win_to_app.contains_key(other) ==> t.win_to_app[other] == r.win_to_app[other]
            &&& t.insets == r.insets && t.scale == r.scale
            &&& r.helpers.contains_key(app_key as u64) ==> r.assigned(win_id, app_key, false) == t
        }),
{
}

/// Only commands that create popups or destroy windows change who owns what.
pub proof fn lemma_plain_commands_change_no_owner(r: RouterView, cmd: WinCmd, encodes: bool)
    requires
        !(cmd is CreatePopup),
        !(cmd is Destroy),
    ensures
        r.route(cmd, encodes).state == r,
{
}

/// A host that starts later is told the insets that were told last, each in its place, and
/// the running hosts are all told at once.
pub proof fn lemma_late_host_learns_the_insets(
    r: RouterView,
    top: i32,
    right: i32,
    bottom: i32,
    left: i32,
)
    ensures
        ({
            let t = r.set_insets(top, right, bottom, left, true);
            let e = t.state.environment();
            &&& e.insets == (top, right, bottom, left)
            &&& e.scale == r.scale && e.out_w == r.out_w && e.out_h == r.out_h
            &&& t.actions == to_all(r.helpers)
            &&& t.state == (RouterView { insets: t.state.insets, ..r })
        }),
{
}

/// No two applications share a socket or a directory.
pub proof fn lemma_hosts_share_no_file(pid: u32, a: u32, b: u32)
    requires
        socket_name(pid, a) == socket_name(pid, b) || dir_name(pid, a) == dir_name(pid, b),
    ensures
        a == b,
{
    let da = digits(a as nat);
    let db = digits(b as nat);
    crate::text::lemma_reading_undoes_writing(a as nat);
    crate::text::lemma_reading_undoes_writing(b as nat);
    if socket_name(pid, a) == socket_name(pid, b) {
        let p = "wl-macos-host-"@ + digits(pid as nat) + "-"@;
        let z = ".sock"@;
        assert((p + da + z).len() == p.len() + da.len() + z.len());
        assert((p + db + z).len() == p.len() + db.len() + z.len());
        assert forall|i: int| 0 <= i < da.len() implies da[i] == db[i] by {
            assert((p + da + z)[p.len() + i] == da[i]);
            assert((p + db + z)[p.len() + i] == db[i]);
        }
    } else {
        let p = "wl-macos-apps-"@ + digits(pid as nat) + "/"@;
        assert((p + da).len() == p.len() + da.len());
        assert((p + db).len() == p.len() + db.len());
        assert forall|i: int| 0 <= i < da.len() implies da[i] == db[i] by {
            assert((p + da)[p.len() + i] == da[i]);
            assert((p + db)[p.len() + i] == db[i]);
        }
    }
    assert(da =~= db);
}

} // verus!
