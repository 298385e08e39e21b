//! Windows by way of the `zwlr_foreign_toplevel_management_v1` protocol: minimized is hidden,
//! restored is shown, activated is focused.

use crate::backend;
use crate::backend::Win;
use crate::backend::WinView;
use crate::config::Pad;
use crate::config::PadView;
use crate::text;
use vstd::prelude::*;

verus! {

/// The newest version of the protocol that is used.
pub const MANAGER_MAX_VERSION: u32 = 3;

/// The version of a seat that is enough to activate a window.
pub const SEAT_VERSION: u32 = 1;

/// How many rounds windows have to report what they are.
pub const COLLECT_ROUNDS: u32 = 10;

/// The rest between two looks for a window that has been launched.
pub const WAIT_REST_MS: u64 = 30;

/// The numbers by which the protocol names the states of a window.
pub const STATE_MINIMIZED: u32 = 1;

pub const STATE_ACTIVATED: u32 = 2;

/// What a global of the compositor is good for.
#[derive(Debug, Clone, Copy, PartialEq, Eq, Structural)]
pub enum Role {
    /// It lists the windows.
    Manager,
    /// It lets windows be activated.
    Seat,
}

/// A global to bind: its place among the globals, its role, and the versions that will do.
#[derive(Debug, Clone, Copy, PartialEq, Eq, Structural)]
pub struct Binding {
    pub index: usize,
    pub role: Role,
    pub min_version: u32,
    pub max_version: u32,
}

/// What a global with this interface is good for.
pub open spec fn role_of(interface: Seq<char>) -> Option<Role> {
    if interface == "zwlr_foreign_toplevel_manager_v1"@ {
        Some(Role::Manager)
    } else if interface == "wl_seat"@ {
        Some(Role::Seat)
    } else {
        None
    }
}

/// The globals to bind among those with these interfaces, in their order.
pub open spec fn bindings(interfaces: Seq<Seq<char>>) -> Seq<Binding>
    decreases interfaces.len(),
{
    if interfaces.len() == 0 {
        Seq::empty()
    } else {
        let front = bindings(interfaces.drop_last());
        let index = (interfaces.len() - 1) as usize;
        match role_of(interfaces.last()) {
            Some(Role::Manager) => front.push(
                Binding { index, role: Role::Manager, min_version: 1, max_version: 3 },
            ),
            Some(Role::Seat) => front.push(
                Binding { index, role: Role::Seat, min_version: 1, max_version: 1 },
            ),
            None => front,
        }
    }
}

/// Whether one of the globals has this role.
pub open spec fn offered(interfaces: Seq<Seq<char>>, role: Role) -> bool {
    exists|i: int| 0 <= i < interfaces.len() && role_of(#[trigger] interfaces[i]) == Some(role)
}

/// A window of the compositor.
#[derive(Debug)]
pub struct Toplevel {
    /// The number of the protocol object.
    pub handle: u32,
    pub app_id: String,
    pub title: String,
    pub minimized: bool,
    pub activated: bool,
    /// Whether the window has reported all that it is.
    pub done: bool,
    pub closed: bool,
}

pub struct ToplevelView {
    pub handle: u32,
    pub app_id: Seq<char>,
    pub title: Seq<char>,
    pub minimized: bool,
    pub activated: bool,
    pub done: bool,
    pub closed: bool,
}

impl View for Toplevel {
    type V = ToplevelView;

    open spec fn view(&self) -> ToplevelView {
        ToplevelView {
            handle: self.handle,
            app_id: self.app_id@,
            title: self.title@,
            minimized: self.minimized,
            activated: self.activated,
            done: self.done,
            closed: self.closed,
        }
    }
}

/// The order of the bytes of a number.
#[derive(Debug, Clone, Copy, PartialEq, Eq, Structural)]
pub enum ByteOrder {
    Little,
    Big,
}

/// What the compositor tells of a window.
#[derive(Debug)]
pub enum HandleEvent {
    Title(String),
    AppId(String),
    /// All states of the window at once: an array of four-byte numbers.
    State { bytes: Vec<u8>, order: ByteOrder },
    Done,
    Closed,
    /// Anything else.
    Other,
}

pub enum HandleEventView {
    Title(Seq<char>),
    AppId(Seq<char>),
    State { bytes: Seq<u8>, order: ByteOrder },
    Done,
    Closed,
    Other,
}

impl View for HandleEvent {
    type V = HandleEventView;

    open spec fn view(&self) -> HandleEventView {
        match *self {
            HandleEvent::Title(title) => HandleEventView::Title(title@),
            HandleEvent::AppId(app_id) => HandleEventView::AppId(app_id@),
            HandleEvent::State { bytes, order } => HandleEventView::State { bytes: bytes@, order },
            HandleEvent::Done => HandleEventView::Done,
            HandleEvent::Closed => HandleEventView::Closed,
            HandleEvent::Other => HandleEventView::Other,
        }
    }
}

/// The number in the four bytes from `at` on.
pub open spec fn number_at(bytes: Seq<u8>, at: int, order: ByteOrder) -> int {
    match order {
        ByteOrder::Little => bytes[at] + 0x100 * bytes[at + 1] + 0x1_0000 * bytes[at + 2]
            + 0x100_0000 * bytes[at + 3],
        ByteOrder::Big => bytes[at + 3] + 0x100 * bytes[at + 2] + 0x1_0000 * bytes[at + 1]
            + 0x100_0000 * bytes[at],
    }
}

/// Whether a number is in an array of four-byte numbers. Bytes that do not fill a number do not
/// count.
pub open spec fn in_array(bytes: Seq<u8>, order: ByteOrder, number: int) -> bool {
    exists|k: int| 0 <= k < bytes.len() / 4 && #[trigger] number_at(bytes, 4 * k, order) == number
}

impl ToplevelView {
    /// A window of which only the handle is known.
    pub open spec fn fresh(handle: u32) -> ToplevelView {
        ToplevelView {
            handle,
            app_id: Seq::empty(),
            title: Seq::empty(),
            minimized: false,
            activated: false,
            done: false,
            closed: false,
        }
    }

    /// The window after an event. An array of states replaces all states before it.
    pub open spec fn told(self, event: HandleEventView) -> ToplevelView {
        match event {
            HandleEventView::Title(title) => ToplevelView { title, ..self },
            HandleEventView::AppId(app_id) => ToplevelView { app_id, ..self },
            HandleEventView::State { bytes, order } => ToplevelView {
                minimized: in_array(bytes, order, STATE_MINIMIZED as int),
                activated: in_array(bytes, order, STATE_ACTIVATED as int),
                ..self
            },
            HandleEventView::Done => ToplevelView { done: true, ..self },
            HandleEventView::Closed => ToplevelView { closed: true, ..self },
            HandleEventView::Other => self,
        }
    }

    /// The window as seen by the operations.
    pub open spec fn as_win<F>(self) -> WinView<F> {
        WinView {
            key: text::decimal(self.handle as nat),
            app_id: self.app_id,
            title: self.title,
            hidden: self.minimized,
            focused: self.activated,
            position: None,
        }
    }
}

/// The views of a vector of windows.
pub open spec fn toplevel_views(v: Seq<Toplevel>) -> Seq<ToplevelView> {
    v.map_values(|t: Toplevel| t@)
}

/// The index of the first window with this handle.
pub open spec fn place_of(list: Seq<ToplevelView>, handle: u32) -> Option<int>
    decreases list.len(),
{
    if list.len() == 0 {
        None
    } else {
        match place_of(list.drop_last(), handle) {
            Some(i) => Some(i),
            None => if list.last().handle == handle {
                Some(list.len() - 1)
            } else {
                None
            },
        }
    }
}

/// A list of windows after an event about one of them: the first with the handle is changed;
/// without one, nothing is.
pub open spec fn list_told(
    list: Seq<ToplevelView>,
    handle: u32,
    event: HandleEventView,
) -> Seq<ToplevelView> {
    match place_of(list, handle) {
        Some(i) => list.update(i, list[i].told(event)),
        None => list,
    }
}

proof fn lemma_place_of(list: Seq<ToplevelView>, handle: u32, i: int)
    requires
        0 <= i < list.len(),
        list[i].handle == handle,
        forall|k: int| 0 <= k < i ==> (#[trigger] list[k]).handle != handle,
    ensures
        place_of(list, handle) == Some(i),
    decreases list.len(),
{
    let front = list.drop_last();
    if i < front.len() {
        assert(front[i] == list[i]);
        assert forall|k: int| 0 <= k < i implies (#[trigger] front[k]).handle != handle by {
            assert(front[k] == list[k]);
        }
        lemma_place_of(front, handle, i);
    } else {
        assert forall|k: int| 0 <= k < front.len() implies (#[trigger] front[k]).handle
            != handle by {
            assert(front[k] == list[k]);
        }
        lemma_no_place(front, handle);
    }
}

proof fn lemma_no_place(list: Seq<ToplevelView>, handle: u32)
    ensures
        place_of(list, handle) is None <==> forall|k: int|
            0 <= k < list.len() ==> (#[trigger] list[k]).handle != handle,
        place_of(list, handle) matches Some(i) ==> 0 <= i < list.len() && list[i].handle == handle,
    decreases list.len(),
{
    if list.len() > 0 {
        let front = list.drop_last();
        lemma_no_place(front, handle);
        if place_of(list, handle) is None {
            assert forall|k: int| 0 <= k < list.len() implies (#[trigger] list[k]).handle
                != handle by {
                if k < front.len() {
                    assert(front[k] == list[k]);
                }
            }
        } else {
            let i = place_of(list, handle)->0;
            if i < front.len() {
                assert(front[i] == list[i]);
            }
        }
    }
}

fn read_number(bytes: &Vec<u8>, at: usize, order: ByteOrder) -> (r: u32)
    requires
        at + 4 <= bytes.len(),
    ensures
        r == number_at(bytes@, at as int, order),
{
    let (a, b, c, d) = match order {
        ByteOrder::Little => (bytes[at], bytes[at + 1], bytes[at + 2], bytes[at + 3]),
        ByteOrder::Big => (bytes[at + 3], bytes[at + 2], bytes[at + 1], bytes[at]),
    };
    a as u32 + 0x100 * b as u32 + 0x1_0000 * c as u32 + 0x100_0000 * d as u32
}

/// Whether a number is in an array of four-byte numbers.
fn array_has(bytes: &Vec<u8>, order: ByteOrder, number: u32) -> (r: bool)
    ensures
        r == in_array(bytes@, order, number as int),
{
    let n: usize = bytes.len() / 4;
    let mut k: usize = 0;
    while k < n
        invariant
            k <= n,
            n == bytes.len() / 4,
            forall|j: int| 0 <= j < k ==> #[trigger] number_at(bytes@, 4 * j, order) != number,
        decreases n - k,
    {
        if read_number(bytes, 4 * k, order) == number {
            return true;
        }
        k += 1;
    }
    false
}

impl Toplevel {
    /// A window of which only the handle is known.
    pub fn new(handle: u32) -> (r: Self)
        ensures
            r@ == ToplevelView::fresh(handle),
    {
        Toplevel {
            handle,
            app_id: String::new(),
            title: String::new(),
            minimized: false,
            activated: false,
            done: false,
            closed: false,
        }
    }

    /// Takes in an event.
    pub fn tell(&mut self, event: HandleEvent)
        ensures
            final(self)@ == old(self)@.told(event@),
    {
        match event {
            HandleEvent::Title(title) => {
                self.title = title;
            },
            HandleEvent::AppId(app_id) => {
                self.app_id = app_id;
            },
            HandleEvent::State { bytes, order } => {
                self.minimized = array_has(&bytes, order, STATE_MINIMIZED);
                self.activated = array_has(&bytes, order, STATE_ACTIVATED);
            },
            HandleEvent::Done => {
                self.done = true;
            },
            HandleEvent::Closed => {
                self.closed = true;
            },
            HandleEvent::Other => {},
        }
    }

    /// The window as seen by the operations.
    fn to_win<F>(&self) -> (r: Win<F>)
        ensures
            r@ == self@.as_win::<F>(),
    {
        Win {
            key: text::decimal_text(self.handle as u64),
            app_id: self.app_id.clone(),
            title: self.title.clone(),
            hidden: self.minimized,
            focused: self.activated,
            position: None,
        }
    }
}

/// One thing to ask of a window of the compositor.
#[derive(Debug, Clone, Copy, PartialEq, Eq, Structural)]
pub enum HandleRequest {
    SetMinimized,
    UnsetMinimized,
    Activate,
    Close,
}

/// What is known of the compositor and its windows.
#[derive(Debug)]
pub struct Session {
    pub toplevels: Vec<Toplevel>,
    pub has_seat: bool,
    pub has_manager: bool,
}

/// What to do while windows report what they are.
#[derive(Debug, Clone, Copy, PartialEq, Eq, Structural)]
pub enum Collecting {
    /// Let the compositor say more.
    Roundtrip,
    /// That is all.
    Ready,
}

/// What to do while waiting for a window.
#[derive(Debug, Clone, Copy, PartialEq, Eq, Structural)]
pub enum Waiting {
    /// It is there.
    Found,
    /// The time is over.
    TimedOut,
    /// Let the compositor say more, then rest.
    Roundtrip { rest_ms: u64 },
}

/// The windows that are still there.
pub open spec fn alive(list: Seq<ToplevelView>) -> Seq<ToplevelView> {
    list.filter(|t: ToplevelView| !t.closed)
}

/// The first window that is still there and belongs to a pad.
pub open spec fn first_alive(list: Seq<ToplevelView>, pad: PadView) -> Option<ToplevelView>
    decreases list.len(),
{
    if list.len() == 0 {
        None
    } else if !list[0].closed && pad.matches(list[0].app_id, list[0].title) {
        Some(list[0])
    } else {
        first_alive(list.drop_first(), pad)
    }
}

/// Whether there are windows and all have reported what they are.
pub open spec fn is_settled(list: Seq<ToplevelView>) -> bool {
    list.len() > 0 && forall|i: int| 0 <= i < list.len() ==> (#[trigger] list[i]).done
}

/// What to do after this many rounds in which windows reported what they are.
pub open spec fn after_rounds(list: Seq<ToplevelView>, rounds: u32) -> Collecting {
    if rounds >= COLLECT_ROUNDS || (rounds > 0 && is_settled(list)) {
        Collecting::Ready
    } else {
        Collecting::Roundtrip
    }
}

/// What to do while something is waited for.
pub open spec fn while_waiting(found: bool, expired: bool) -> Waiting {
    if found {
        Waiting::Found
    } else if expired {
        Waiting::TimedOut
    } else {
        Waiting::Roundtrip { rest_ms: WAIT_REST_MS }
    }
}

/// The requests that show a window, and focus it where a seat lets it be activated.
pub open spec fn restore_requests(activate: bool, has_seat: bool) -> Seq<HandleRequest> {
    if activate && has_seat {
        seq![HandleRequest::UnsetMinimized, HandleRequest::Activate]
    } else {
        seq![HandleRequest::UnsetMinimized]
    }
}

/// The handle of the first window with this key.
pub open spec fn handle_of(list: Seq<ToplevelView>, key: Seq<char>) -> Option<u32>
    decreases list.len(),
{
    if list.len() == 0 {
        None
    } else if text::decimal(list[0].handle as nat) == key {
        Some(list[0].handle)
    } else {
        handle_of(list.drop_first(), key)
    }
}

/// Whom to ask, and for what, to hide the window with this key.
pub open spec fn hiding(list: Seq<ToplevelView>, key: Seq<char>) -> Option<(u32, HandleRequest)> {
    match handle_of(list, key) {
        Some(handle) => Some((handle, HandleRequest::SetMinimized)),
        None => None,
    }
}

/// Whom to ask, and for what, to close the window with this key.
pub open spec fn closing(list: Seq<ToplevelView>, key: Seq<char>) -> Option<(u32, HandleRequest)> {
    match handle_of(list, key) {
        Some(handle) => Some((handle, HandleRequest::Close)),
        None => None,
    }
}

impl Session {
    /// The windows, by views.
    pub open spec fn list(self) -> Seq<ToplevelView> {
        toplevel_views(self.toplevels@)
    }

    /// A session with a compositor that offers globals with these interfaces, and the globals to
    /// bind. Where several have the same role, all are bound and the last one counts.
    pub fn connect(interfaces: &Vec<String>) -> (r: (Self, Vec<Binding>))
        ensures
            r.0.list() == Seq::<ToplevelView>::empty(),
            r.0.has_manager == offered(text::texts(interfaces@), Role::Manager),
            r.0.has_seat == offered(text::texts(interfaces@), Role::Seat),
            r.1@ == bindings(text::texts(interfaces@)),
    {
        let mut wanted: Vec<Binding> = Vec::new();
        let mut has_manager = false;
        let mut has_seat = false;
        let mut i: usize = 0;
        let ghost names = text::texts(interfaces@);
        while i < interfaces.len()
            invariant
                i <= interfaces.len(),
                names == text::texts(interfaces@),
                wanted@ == bindings(names.take(i as int)),
                has_manager == offered(names.take(i as int), Role::Manager),
                has_seat == offered(names.take(i as int), Role::Seat),
            decreases interfaces.len() - i,
        {
            let name = interfaces[i].as_str();
            let ghost front = names.take(i as int);
            let ghost more = names.take(i + 1);
            proof {
                assert(more.drop_last() =~= front);
                assert(more.last() == name@);
                lemma_offered(front, name@, Role::Manager);
                lemma_offered(front, name@, Role::Seat);
                assert(front.push(name@) =~= more);
                if "zwlr_foreign_toplevel_manager_v1"@ == "wl_seat"@ {
                    reveal_strlit("zwlr_foreign_toplevel_manager_v1");
                    reveal_strlit("wl_seat");
                    assert("zwlr_foreign_toplevel_manager_v1"@.len() != "wl_seat"@.len());
                }
            }
            if text::same_text(name, "zwlr_foreign_toplevel_manager_v1") {
                has_manager = true;
                wanted.push(
                    Binding {
                        index: i,
                        role: Role::Manager,
                        min_version: 1,
                        max_version: MANAGER_MAX_VERSION,
                    },
                );
            } else if text::same_text(name, "wl_seat") {
                has_seat = true;
                wanted.push(
                    Binding { index: i, role: Role::Seat, min_version: 1, max_version: SEAT_VERSION },
                );
            }
            i += 1;
        }
        assert(names.take(i as int) =~= names);
        let session = Session { toplevels: Vec::new(), has_seat, has_manager };
        assert(session.list() =~= Seq::<ToplevelView>::empty());
        (session, wanted)
    }

    /// Whether the compositor can do what is asked of it.
    pub fn supported(&self) -> (r: bool)
        ensures
            r == self.has_manager,
    {
        self.has_manager
    }

    /// Takes in a new window.
    pub fn toplevel(&mut self, handle: u32)
        ensures
            final(self).list() == old(self).list().push(ToplevelView::fresh(handle)),
            final(self).has_seat == old(self).has_seat,
            final(self).has_manager == old(self).has_manager,
    {
        self.toplevels.push(Toplevel::new(handle));
        assert(self.list() =~= old(self).list().push(ToplevelView::fresh(handle)));
    }

    /// Takes in what the compositor tells of a window.
    pub fn event(&mut self, handle: u32, event: HandleEvent)
        ensures
            final(self).list() == list_told(old(self).list(), handle, event@),
            final(self).has_seat == old(self).has_seat,
            final(self).has_manager == old(self).has_manager,
    {
        let ghost list = self.list();
        let mut i: usize = 0;
        while i < self.toplevels.len()
            invariant
                i <= self.toplevels.len(),
                *self == *old(self),
                list == self.list(),
                forall|k: int| 0 <= k < i ==> (#[trigger] list[k]).handle != handle,
            decreases self.toplevels.len() - i,
        {
            if self.toplevels[i].handle == handle {
                proof {
                    lemma_place_of(list, handle, i as int);
                }
                self.toplevels[i].tell(event);
                assert(self.list() =~= list_told(list, handle, event@));
                return;
            }
            assert(list[i as int].handle != handle);
            i += 1;
        }
        proof {
            lemma_no_place(list, handle);
        }
    }

    fn settled(&self) -> (r: bool)
        ensures
            r == is_settled(self.list()),
    {
        if self.toplevels.len() == 0 {
            return false;
        }
        let mut i: usize = 0;
        while i < self.toplevels.len()
            invariant
                i <= self.toplevels.len(),
                forall|k: int| 0 <= k < i ==> (#[trigger] self.list()[k]).done,
            decreases self.toplevels.len() - i,
        {
            assert(self.list()[i as int] == self.toplevels@[i as int]@);
            if !self.toplevels[i].done {
                return false;
            }
            i += 1;
        }
        true
    }

    /// What to do after this many rounds in which windows reported what they are: at least one
    /// round, then until all have, but no more than there are rounds for it.
    pub fn collect(&self, rounds: u32) -> (r: Collecting)
        ensures
            r == if rounds >= COLLECT_ROUNDS || (rounds > 0 && is_settled(self.list())) {
                Collecting::Ready
            } else {
                Collecting::Roundtrip
            },
            r == after_rounds(self.list(), rounds),
    {
        if rounds >= COLLECT_ROUNDS || (rounds > 0 && self.settled()) {
            Collecting::Ready
        } else {
            Collecting::Roundtrip
        }
    }

    /// What to do while something is waited for. What has come counts even when the time is over.
    pub fn wait_until(found: bool, expired: bool) -> (r: Waiting)
        ensures
            r == if found {
                Waiting::Found
            } else if expired {
                Waiting::TimedOut
            } else {
                Waiting::Roundtrip { rest_ms: 30 }
            },
            r == while_waiting(found, expired),
    {
        if found {
            Waiting::Found
        } else if expired {
            Waiting::TimedOut
        } else {
            Waiting::Roundtrip { rest_ms: WAIT_REST_MS }
        }
    }

    /// The windows that are still there.
    pub fn live(&self) -> (r: Vec<&Toplevel>)
        ensures
            r@.map_values(|t: &Toplevel| t@) == alive(self.list()),
    {
        let mut found: Vec<&Toplevel> = Vec::new();
        let mut i: usize = 0;
        let ghost list = self.list();
        let ghost view = |t: &Toplevel| t@;
        proof {
            reveal(Seq::filter);
            assert(alive(list.take(0)) =~= Seq::empty());
            assert(found@.map_values(view) =~= Seq::empty());
        }
        while i < self.toplevels.len()
            invariant
                i <= self.toplevels.len(),
                list == self.list(),
                view == (|t: &Toplevel| t@),
                found@.map_values(view) == alive(list.take(i as int)),
            decreases self.toplevels.len() - i,
        {
            proof {
                reveal(Seq::filter);
                assert(list.take(i + 1).drop_last() =~= list.take(i as int));
            }
            let t = &self.toplevels[i];
            let ghost before = found@;
            if !t.closed {
                found.push(t);
                assert(found@.map_values(view) =~= before.map_values(view).push(t@));
            }
            i += 1;
        }
        assert(list.take(i as int) =~= list);
        found
    }

    /// The windows that are still there, as seen by the operations.
    pub fn snapshot<F>(&self) -> (r: Vec<Win<F>>)
        ensures
            backend::win_views(r@) == alive(self.list()).map_values(
                |t: ToplevelView| t.as_win::<F>(),
            ),
    {
        let live = self.live();
        let mut wins: Vec<Win<F>> = Vec::new();
        let mut i: usize = 0;
        let ghost list = alive(self.list());
        let ghost seen = |t: ToplevelView| t.as_win::<F>();
        assert(list.len() == live.len());
        while i < live.len()
            invariant
                i <= live.len(),
                list.len() == live.len(),
                live@.map_values(|t: &Toplevel| t@) == list,
                seen == (|t: ToplevelView| t.as_win::<F>()),
                backend::win_views(wins@) =~= list.take(i as int).map_values(seen),
            decreases live.len() - i,
        {
            assert(live@.map_values(|t: &Toplevel| t@)[i as int] == live@[i as int]@);
            let t = live[i];
            let win = t.to_win();
            let ghost before = wins@;
            wins.push(win);
            assert(backend::win_views(wins@) =~= backend::win_views(before).push(
                seen(list[i as int]),
            ));
            assert(list.take(i + 1).map_values(seen) =~= list.take(i as int).map_values(seen).push(
                seen(list[i as int]),
            ));
            i += 1;
        }
        assert(list.take(i as int) =~= list);
        wins
    }

    /// The requests that show a window, and focus it where that is asked for and possible.
    pub fn restore(&self, activate: bool) -> (r: Vec<HandleRequest>)
        ensures
            r@ == restore_requests(activate, self.has_seat),
    {
        let mut requests: Vec<HandleRequest> = Vec::new();
        requests.push(HandleRequest::UnsetMinimized);
        if activate && self.has_seat {
            requests.push(HandleRequest::Activate);
        }
        assert(requests@ =~= restore_requests(activate, self.has_seat));
        requests
    }

    /// The handle of the window with this key.
    pub fn find_by_key(&self, key: &str) -> (r: Option<u32>)
        ensures
            r == handle_of(self.list(), key@),
    {
        let mut i: usize = 0;
        let ghost list = self.list();
        assert(list.skip(0) =~= list);
        while i < self.toplevels.len()
            invariant
                i <= self.toplevels.len(),
                list == self.list(),
                handle_of(list, key@) == handle_of(list.skip(i as int), key@),
            decreases self.toplevels.len() - i,
        {
            let handle = self.toplevels[i].handle;
            assert(list.skip(i as int)[0].handle == handle);
            if text::same_text(text::decimal_text(handle as u64).as_str(), key) {
                return Some(handle);
            }
            assert(list.skip(i as int).drop_first() =~= list.skip(i + 1));
            i += 1;
        }
        None
    }

    /// Whom to ask, and for what, to hide a window; nobody where it is unknown.
    pub fn hide_window<F>(&self, win: &Win<F>) -> (r: Option<(u32, HandleRequest)>)
        ensures
            r == match handle_of(self.list(), win.key@) {
                Some(handle) => Some((handle, HandleRequest::SetMinimized)),
                None => None,
            },
            r == hiding(self.list(), win@.key),
    {
        match self.find_by_key(win.key.as_str()) {
            Some(handle) => Some((handle, HandleRequest::SetMinimized)),
            None => None,
        }
    }

    /// Whom to ask, and for what, to show a window; nobody where it is unknown.
    pub fn reveal_window<F>(&self, win: &Win<F>, focus: bool) -> (r: Option<
        (u32, Vec<HandleRequest>),
    >)
        ensures
            match r {
                Some((handle, requests)) => {
                    &&& handle_of(self.list(), win.key@) == Some(handle)
                    &&& requests@ == restore_requests(focus, self.has_seat)
                },
                None => handle_of(self.list(), win.key@) is None,
            },
    {
        match self.find_by_key(win.key.as_str()) {
            Some(handle) => Some((handle, self.restore(focus))),
            None => None,
        }
    }

    /// Whom to ask, and for what, to close a window; nobody where it is unknown.
    pub fn close_window<F>(&self, win: &Win<F>) -> (r: Option<(u32, HandleRequest)>)
        ensures
            r == match handle_of(self.list(), win.key@) {
                Some(handle) => Some((handle, HandleRequest::Close)),
                None => None,
            },
            r == closing(self.list(), win@.key),
    {
        match self.find_by_key(win.key.as_str()) {
            Some(handle) => Some((handle, HandleRequest::Close)),
            None => None,
        }
    }

    /// What to do while a window is waited for, where `come` is the handle of one that has come:
    /// whom to ask for what to show it.
    pub fn wait_with(&self, come: Option<u32>, focus: bool, expired: bool) -> (r: (
        Waiting,
        Option<(u32, Vec<HandleRequest>)>,
    ))
        ensures
            match come {
                Some(handle) => {
                    &&& r.0 == Waiting::Found
                    &&& r.1 matches Some((h, requests)) && h == handle && requests@
                        == restore_requests(focus, self.has_seat)
                },
                None => {
                    &&& r.1 is None
                    &&& r.0 == if expired {
                        Waiting::TimedOut
                    } else {
                        Waiting::Roundtrip { rest_ms: 30 }
                    }
                },
            },
            r.0 == while_waiting(come is Some, expired),
    {
        match come {
            Some(handle) => (
                Self::wait_until(true, expired),
                Some((handle, self.restore(focus))),
            ),
            None => (Self::wait_until(false, expired), None),
        }
    }

    /// What to do while a window of a pad is waited for, and, when it has come, whom to ask for
    /// what to show it.
    pub fn wait_for(&self, pad: &Pad, expired: bool) -> (r: (
        Waiting,
        Option<(u32, Vec<HandleRequest>)>,
    ))
        ensures
            match first_alive(self.list(), pad@) {
                Some(t) => {
                    &&& r.0 == Waiting::Found
                    &&& r.1 matches Some((handle, requests)) && handle == t.handle && requests@
                        == restore_requests(pad@.spec.focus_on_show, self.has_seat)
                },
                None => {
                    &&& r.1 is None
                    &&& r.0 == if expired {
                        Waiting::TimedOut
                    } else {
                        Waiting::Roundtrip { rest_ms: 30 }
                    }
                },
            },
            r.0 == while_waiting(first_alive(self.list(), pad@) is Some, expired),
    {
        let mut i: usize = 0;
        let ghost list = self.list();
        assert(list.skip(0) =~= list);
        while i < self.toplevels.len()
            invariant
                i <= self.toplevels.len(),
                list == self.list(),
                first_alive(list, pad@) == first_alive(list.skip(i as int), pad@),
            decreases self.toplevels.len() - i,
        {
            let t = &self.toplevels[i];
            assert(list.skip(i as int)[0] == t@);
            if !t.closed && pad.matches(t.app_id.as_str(), t.title.as_str()) {
                return self.wait_with(Some(t.handle), pad.spec.focus_on_show, expired);
            }
            assert(list.skip(i as int).drop_first() =~= list.skip(i + 1));
            i += 1;
        }
        self.wait_with(None, pad.spec.focus_on_show, expired)
    }
}

proof fn lemma_offered(front: Seq<Seq<char>>, name: Seq<char>, role: Role)
    ensures
        offered(front.push(name), role) <==> offered(front, role) || role_of(name) == Some(role),
{
    let more = front.push(name);
    if offered(more, role) {
        let i = choose|i: int| 0 <= i < more.len() && role_of(#[trigger] more[i]) == Some(role);
        if i < front.len() {
            assert(role_of(front[i]) == Some(role));
        }
    }
    if offered(front, role) {
        let i = choose|i: int| 0 <= i < front.len() && role_of(#[trigger] front[i]) == Some(role);
        assert(role_of(more[i]) == Some(role));
    }
    if role_of(name) == Some(role) {
        assert(role_of(more[front.len() as int]) == Some(role));
    }
}

/// A window that was closed stays closed, and one that has reported what it is stays so, whatever
/// the compositor tells later; no event changes the handle.
pub proof fn law_closed_windows_stay_closed(t: ToplevelView, event: HandleEventView)
    ensures
        t.closed ==> t.told(event).closed,
        t.done ==> t.told(event).done,
        t.told(event).handle == t.handle,
{
}

/// Only the last array of states counts.
pub proof fn law_last_states_count(
    t: ToplevelView,
    first: Seq<u8>,
    second: Seq<u8>,
    order: ByteOrder,
)
    ensures
        t.told(HandleEventView::State { bytes: first, order }).told(
            HandleEventView::State { bytes: second, order },
        ) == t.told(HandleEventView::State { bytes: second, order }),
{
}

/// What is told of one window leaves all others as they were.
pub proof fn law_events_touch_one_window(
    list: Seq<ToplevelView>,
    handle: u32,
    event: HandleEventView,
    i: int,
)
    requires
        0 <= i < list.len(),
        list[i].handle != handle,
    ensures
        list_told(list, handle, event).len() == list.len(),
        list_told(list, handle, event)[i] == list[i],
{
    lemma_no_place(list, handle);
}

/// The key under which a window appears in a snapshot leads back to its handle.
pub proof fn law_keys_lead_back(list: Seq<ToplevelView>, i: int)
    requires
        0 <= i < list.len(),
    ensures
        handle_of(list, text::decimal(list[i].handle as nat)) == Some(list[i].handle),
    decreases list.len(),
{
    let key = text::decimal(list[i].handle as nat);
    if text::decimal(list[0].handle as nat) == key {
        text::law_decimal_is_unambiguous(list[0].handle as nat, list[i].handle as nat);
    } else {
        assert(list.drop_first()[i - 1] == list[i]);
        law_keys_lead_back(list.drop_first(), i - 1);
    }
}

} // verus!
