//! Laws of windows by way of the foreign-toplevel protocol.

use crate::backend::WinView;
use crate::config::PadView;
use crate::text;
use crate::toplevel;
use crate::toplevel::Binding;
use crate::toplevel::ByteOrder;
use crate::toplevel::Collecting;
use crate::toplevel::HandleEvent;
use crate::toplevel::HandleEventView;
use crate::toplevel::HandleRequest;
use crate::toplevel::Role;
use crate::toplevel::Session;
use crate::toplevel::Toplevel;
use crate::toplevel::ToplevelView;
use crate::toplevel::Waiting;
use vstd::prelude::*;

verus! {

proof fn lemma_interfaces_differ()
    ensures
        "zwlr_foreign_toplevel_manager_v1"@ != "wl_seat"@,
{
    reveal_strlit("zwlr_foreign_toplevel_manager_v1");
    reveal_strlit("wl_seat");
    assert("zwlr_foreign_toplevel_manager_v1"@.len() != "wl_seat"@.len());
}

/// Globals are bound by their interfaces, in their order and under their place: the window manager
/// from version 1 to 3, seats in version 1, nothing else.
pub proof fn law_globals_are_bound_by_interface(front: Seq<Seq<char>>, name: Seq<char>)
    requires
        front.len() <= usize::MAX,
    ensures
        toplevel::bindings(Seq::empty()) == Seq::<Binding>::empty(),
        ({
            let before = toplevel::bindings(front);
            let after = toplevel::bindings(front.push(name));
            &&& name == "zwlr_foreign_toplevel_manager_v1"@ ==> after == before.push(
                Binding {
                    index: front.len() as usize,
                    role: Role::Manager,
                    min_version: 1,
                    max_version: 3,
                },
            )
            &&& name == "wl_seat"@ ==> after == before.push(
                Binding {
                    index: front.len() as usize,
                    role: Role::Seat,
                    min_version: 1,
                    max_version: 1,
                },
            )
            &&& name != "zwlr_foreign_toplevel_manager_v1"@ && name != "wl_seat"@ ==> after
                == before
        }),
{
    lemma_interfaces_differ();
    assert(front.push(name).drop_last() =~= front);
}

/// The compositor offers window management where one of its globals has this interface, and a seat
/// where one has that.
pub proof fn law_offers_go_by_interface(interfaces: Seq<Seq<char>>)
    ensures
        toplevel::offered(interfaces, Role::Manager) <==> interfaces.contains(
            "zwlr_foreign_toplevel_manager_v1"@,
        ),
        toplevel::offered(interfaces, Role::Seat) <==> interfaces.contains("wl_seat"@),
{
    lemma_interfaces_differ();
    if toplevel::offered(interfaces, Role::Manager) {
        let i = choose|i: int|
            0 <= i < interfaces.len() && toplevel::role_of(#[trigger] interfaces[i]) == Some(
                Role::Manager,
            );
        assert(interfaces[i] == "zwlr_foreign_toplevel_manager_v1"@);
    }
    if interfaces.contains("zwlr_foreign_toplevel_manager_v1"@) {
        let i = choose|i: int|
            0 <= i < interfaces.len() && interfaces[i] == "zwlr_foreign_toplevel_manager_v1"@;
        assert(toplevel::role_of(interfaces[i]) == Some(Role::Manager));
    }
    if toplevel::offered(interfaces, Role::Seat) {
        let i = choose|i: int|
            0 <= i < interfaces.len() && toplevel::role_of(#[trigger] interfaces[i]) == Some(
                Role::Seat,
            );
        assert(interfaces[i] == "wl_seat"@);
    }
    if interfaces.contains("wl_seat"@) {
        let i = choose|i: int| 0 <= i < interfaces.len() && interfaces[i] == "wl_seat"@;
        assert(toplevel::role_of(interfaces[i]) == Some(Role::Seat));
    }
}

/// An array of four-byte numbers has those that were put into it: four more bytes put in the number
/// that they make, lowest byte first or last by their order; fewer than four put in none.
pub proof fn law_arrays_have_the_numbers_put_into_them(
    front: Seq<u8>,
    a: u8,
    b: u8,
    c: u8,
    d: u8,
    order: ByteOrder,
    number: int,
)
    requires
        front.len() % 4 == 0,
    ensures
        !toplevel::in_array(Seq::empty(), order, number),
        toplevel::in_array(front + seq![a, b, c, d], order, number) <==> {
            ||| toplevel::in_array(front, order, number)
            ||| number == match order {
                ByteOrder::Little => a + 256 * b + 65536 * c + 16777216 * d,
                ByteOrder::Big => d + 256 * c + 65536 * b + 16777216 * a,
            }
        },
        toplevel::in_array(front + seq![a, b, c], order, number) <==> toplevel::in_array(
            front,
            order,
            number,
        ),
        toplevel::in_array(front + seq![a, b], order, number) <==> toplevel::in_array(
            front,
            order,
            number,
        ),
        toplevel::in_array(front + seq![a], order, number) <==> toplevel::in_array(
            front,
            order,
            number,
        ),
{
    let n = front.len() / 4;
    lemma_same_numbers(front, front + seq![a, b, c], order, number);
    lemma_same_numbers(front, front + seq![a, b], order, number);
    lemma_same_numbers(front, front + seq![a], order, number);
    let more = front + seq![a, b, c, d];
    assert(more.len() / 4 == n + 1);
    assert forall|k: int| 0 <= k < n implies #[trigger] toplevel::number_at(more, 4 * k, order)
        == toplevel::number_at(front, 4 * k, order) by {
        assert(4 * k + 3 < front.len());
    }
    let last = toplevel::number_at(more, 4 * n as int, order);
    assert(4 * n == front.len());
    let at = front.len() as int;
    assert(more[at] == a && more[at + 1] == b && more[at + 2] == c && more[at + 3] == d);
    if toplevel::in_array(more, order, number) {
        let k = choose|k: int|
            0 <= k < more.len() / 4 && #[trigger] toplevel::number_at(more, 4 * k, order) == number;
        if k < n {
            assert(toplevel::number_at(front, 4 * k, order) == number);
        }
    }
    if toplevel::in_array(front, order, number) {
        let k = choose|k: int|
            0 <= k < front.len() / 4 && #[trigger] toplevel::number_at(front, 4 * k, order)
                == number;
        assert(toplevel::number_at(more, 4 * k, order) == number);
    }
    if last == number {
        assert(toplevel::number_at(more, 4 * n as int, order) == number);
    }
}

proof fn lemma_same_numbers(front: Seq<u8>, more: Seq<u8>, order: ByteOrder, number: int)
    requires
        front.len() <= more.len(),
        front.len() / 4 == more.len() / 4,
        more.take(front.len() as int) =~= front,
    ensures
        toplevel::in_array(more, order, number) <==> toplevel::in_array(front, order, number),
{
    assert forall|k: int| 0 <= k < front.len() / 4 implies #[trigger] toplevel::number_at(
        more,
        4 * k,
        order,
    ) == toplevel::number_at(front, 4 * k, order) by {
        assert(4 * k + 3 < front.len());
        assert(more.take(front.len() as int)[4 * k] == more[4 * k]);
        assert(more.take(front.len() as int)[4 * k + 1] == more[4 * k + 1]);
        assert(more.take(front.len() as int)[4 * k + 2] == more[4 * k + 2]);
        assert(more.take(front.len() as int)[4 * k + 3] == more[4 * k + 3]);
    }
    if toplevel::in_array(more, order, number) {
        let k = choose|k: int|
            0 <= k < more.len() / 4 && #[trigger] toplevel::number_at(more, 4 * k, order) == number;
        assert(toplevel::number_at(front, 4 * k, order) == number);
    }
    if toplevel::in_array(front, order, number) {
        let k = choose|k: int|
            0 <= k < front.len() / 4 && #[trigger] toplevel::number_at(front, 4 * k, order)
                == number;
        assert(toplevel::number_at(more, 4 * k, order) == number);
    }
}

/// An event changes what it tells of and nothing else: a title the title, an application id the
/// application id, an array of states whether the window is minimized (state 1) and activated
/// (state 2), the end of a report that it is done, closing that it is closed.
pub proof fn law_events_change_what_they_tell_of(
    t: ToplevelView,
    words: Seq<char>,
    bytes: Seq<u8>,
    order: ByteOrder,
)
    ensures
        ({
            let after = t.told(HandleEventView::Title(words));
            &&& after.title == words
            &&& after.handle == t.handle && after.app_id == t.app_id && after.minimized
                == t.minimized && after.activated == t.activated && after.done == t.done
                && after.closed == t.closed
        }),
        ({
            let after = t.told(HandleEventView::AppId(words));
            &&& after.app_id == words
            &&& after.handle == t.handle && after.title == t.title && after.minimized
                == t.minimized && after.activated == t.activated && after.done == t.done
                && after.closed == t.closed
        }),
        ({
            let after = t.told(HandleEventView::State { bytes, order });
            &&& after.minimized <==> toplevel::in_array(bytes, order, 1)
            &&& after.activated <==> toplevel::in_array(bytes, order, 2)
            &&& after.handle == t.handle && after.app_id == t.app_id && after.title == t.title
                && after.done == t.done && after.closed == t.closed
        }),
        ({
            let after = t.told(HandleEventView::Done);
            &&& after.done
            &&& after.handle == t.handle && after.app_id == t.app_id && after.title == t.title
                && after.minimized == t.minimized && after.activated == t.activated && after.closed
                == t.closed
        }),
        ({
            let after = t.told(HandleEventView::Closed);
            &&& after.closed
            &&& after.handle == t.handle && after.app_id == t.app_id && after.title == t.title
                && after.minimized == t.minimized && after.activated == t.activated && after.done
                == t.done
        }),
        t.told(HandleEventView::Other) == t,
{
}

/// Of a new window nothing is known but its handle.
pub proof fn law_new_windows_are_blank(handle: u32)
    ensures
        ({
            let t = ToplevelView::fresh(handle);
            &&& t.handle == handle
            &&& t.app_id.len() == 0
            &&& t.title.len() == 0
            &&& !t.minimized && !t.activated && !t.done && !t.closed
        }),
{
}

/// An event reaches the first window with the handle; where none has it, nothing changes.
pub proof fn law_events_reach_the_first_with_the_handle(
    list: Seq<ToplevelView>,
    handle: u32,
    event: HandleEventView,
    i: int,
)
    requires
        0 <= i < list.len(),
        list[i].handle == handle,
        forall|k: int| 0 <= k < i ==> (#[trigger] list[k]).handle != handle,
    ensures
        toplevel::list_told(list, handle, event) == list.update(i, list[i].told(event)),
    decreases list.len(),
{
    lemma_place(list, handle, i);
}

proof fn lemma_place(list: Seq<ToplevelView>, handle: u32, i: int)
    requires
        0 <= i < list.len(),
        list[i].handle == handle,
        forall|k: int| 0 <= k < i ==> (#[trigger] list[k]).handle != handle,
    ensures
        toplevel::place_of(list, handle) == Some(i),
    decreases list.len(),
{
    let front = list.drop_last();
    if i < front.len() {
        assert forall|k: int| 0 <= k < i implies (#[trigger] front[k]).handle != handle by {
            assert(front[k] == list[k]);
        }
        lemma_place(front, handle, i);
    } else {
        assert forall|k: int| 0 <= k < front.len() implies (#[trigger] front[k]).handle
            != handle by {
            assert(front[k] == list[k]);
        }
        lemma_no_place(front, handle);
    }
}

proof fn lemma_no_place(list: Seq<ToplevelView>, handle: u32)
    requires
        forall|k: int| 0 <= k < list.len() ==> (#[trigger] list[k]).handle != handle,
    ensures
        toplevel::place_of(list, handle) is None,
    decreases list.len(),
{
    if list.len() > 0 {
        let front = list.drop_last();
        assert forall|k: int| 0 <= k < front.len() implies (#[trigger] front[k]).handle
            != handle by {
            assert(front[k] == list[k]);
        }
        lemma_no_place(front, handle);
        assert(list[list.len() - 1].handle != handle);
    }
}

/// What is told of a handle that no window has changes nothing.
pub proof fn law_events_for_nobody_change_nothing(
    list: Seq<ToplevelView>,
    handle: u32,
    event: HandleEventView,
)
    requires
        forall|k: int| 0 <= k < list.len() ==> (#[trigger] list[k]).handle != handle,
    ensures
        toplevel::list_told(list, handle, event) == list,
{
    lemma_no_place(list, handle);
}

/// The windows that are there are those that were not closed, each once and in their order, and a
/// snapshot has each with its own handle, application id, title and states: minimized is hidden,
/// activated is focused. There are no positions.
pub proof fn law_open_windows_are_seen_as_they_are<F>(front: Seq<ToplevelView>, t: ToplevelView)
    ensures
        toplevel::alive(Seq::empty()) == Seq::<ToplevelView>::empty(),
        t.closed ==> toplevel::alive(front.push(t)) == toplevel::alive(front),
        !t.closed ==> toplevel::alive(front.push(t)) == toplevel::alive(front).push(t),
        ({
            let win: WinView<F> = t.as_win::<F>();
            &&& win.key == text::decimal(t.handle as nat)
            &&& win.app_id == t.app_id
            &&& win.title == t.title
            &&& win.hidden == t.minimized
            &&& win.focused == t.activated
            &&& win.position is None
        }),
{
    reveal(Seq::filter);
    assert(front.push(t).drop_last() =~= front);
    assert(toplevel::alive(Seq::empty()) =~= Seq::<ToplevelView>::empty());
}

/// The window that is shown after a launch is the first that is there and matches the pad by its
/// application id and title.
pub proof fn law_the_first_open_match_is_shown(list: Seq<ToplevelView>, pad: PadView)
    ensures
        match toplevel::first_alive(list, pad) {
            Some(t) => exists|i: int|
                #![trigger list[i]]
                0 <= i < list.len() && list[i] == t && !t.closed && pad.matches(t.app_id, t.title)
                    && forall|k: int|
                    0 <= k < i ==> (#[trigger] list[k]).closed || !pad.matches(
                        list[k].app_id,
                        list[k].title,
                    ),
            None => forall|k: int|
                0 <= k < list.len() ==> (#[trigger] list[k]).closed || !pad.matches(
                    list[k].app_id,
                    list[k].title,
                ),
        },
    decreases list.len(),
{
    if list.len() > 0 {
        let rest = list.drop_first();
        if !list[0].closed && pad.matches(list[0].app_id, list[0].title) {
            assert(list[0] == list[0]);
        } else {
            law_the_first_open_match_is_shown(rest, pad);
            match toplevel::first_alive(rest, pad) {
                Some(t) => {
                    let i = choose|i: int|
                        #![trigger rest[i]]
                        0 <= i < rest.len() && rest[i] == t && !t.closed && pad.matches(
                            t.app_id,
                            t.title,
                        ) && forall|k: int|
                            0 <= k < i ==> (#[trigger] rest[k]).closed || !pad.matches(
                                rest[k].app_id,
                                rest[k].title,
                            );
                    assert(list[i + 1] == t);
                    assert forall|k: int| 0 <= k < i + 1 implies (#[trigger] list[k]).closed
                        || !pad.matches(list[k].app_id, list[k].title) by {
                        if k > 0 {
                            assert(rest[k - 1] == list[k]);
                        }
                    }
                },
                None => {
                    assert forall|k: int| 0 <= k < list.len() implies (#[trigger] list[k]).closed
                        || !pad.matches(list[k].app_id, list[k].title) by {
                        if k > 0 {
                            assert(rest[k - 1] == list[k]);
                        }
                    }
                },
            }
        }
    }
}

/// Windows have settled where there are some and each has reported what it is.
pub proof fn law_windows_settle_when_all_have_reported(list: Seq<ToplevelView>, i: int)
    ensures
        toplevel::is_settled(list) ==> list.len() > 0 && (0 <= i < list.len() ==> list[i].done),
        list.len() > 0 && (forall|k: int| 0 <= k < list.len() ==> (#[trigger] list[k]).done)
            ==> toplevel::is_settled(list),
{
}

/// Windows have at least one round to report what they are and at most ten; in between, the rounds
/// end as soon as all have.
pub proof fn law_rounds_end_when_windows_have_reported(list: Seq<ToplevelView>, rounds: u32)
    ensures
        rounds == 0 ==> toplevel::after_rounds(list, rounds) == Collecting::Roundtrip,
        rounds >= 10 ==> toplevel::after_rounds(list, rounds) == Collecting::Ready,
        0 < rounds < 10 ==> (toplevel::after_rounds(list, rounds) == Collecting::Ready <==> {
            &&& list.len() > 0
            &&& forall|k: int| 0 <= k < list.len() ==> (#[trigger] list[k]).done
        }),
{
}

/// What has come counts even when the time is over; what has not come is waited for in rounds of 30
/// ms as long as there is time.
pub proof fn law_waiting_ends_with_the_time(expired: bool)
    ensures
        toplevel::while_waiting(true, expired) == Waiting::Found,
        toplevel::while_waiting(false, true) == Waiting::TimedOut,
        toplevel::while_waiting(false, false) == (Waiting::Roundtrip { rest_ms: 30 }),
{
}

/// A window is shown by restoring it, and then focused exactly where that is asked for and there is
/// a seat.
pub proof fn law_restored_windows_are_focused_by_a_seat(activate: bool, has_seat: bool)
    ensures
        ({
            let requests = toplevel::restore_requests(activate, has_seat);
            &&& requests[0] == HandleRequest::UnsetMinimized
            &&& activate && has_seat ==> requests.len() == 2 && requests[1]
                == HandleRequest::Activate
            &&& !(activate && has_seat) ==> requests.len() == 1
        }),
{
}

/// A key leads to the handle that is written so, and to none where no window has such a handle.
pub proof fn law_keys_lead_to_handles_written_so(list: Seq<ToplevelView>, key: Seq<char>)
    ensures
        match toplevel::handle_of(list, key) {
            Some(handle) => text::decimal(handle as nat) == key && exists|i: int|
                0 <= i < list.len() && (#[trigger] list[i]).handle == handle,
            None => forall|k: int|
                0 <= k < list.len() ==> text::decimal((#[trigger] list[k]).handle as nat) != key,
        },
    decreases list.len(),
{
    if list.len() > 0 {
        let rest = list.drop_first();
        if text::decimal(list[0].handle as nat) == key {
            assert(list[0].handle == list[0].handle);
        } else {
            law_keys_lead_to_handles_written_so(rest, key);
            match toplevel::handle_of(rest, key) {
                Some(handle) => {
                    let i = choose|i: int|
                        0 <= i < rest.len() && (#[trigger] rest[i]).handle == handle;
                    assert(list[i + 1].handle == handle);
                },
                None => {
                    assert forall|k: int| 0 <= k < list.len() implies text::decimal(
                        (#[trigger] list[k]).handle as nat,
                    ) != key by {
                        if k > 0 {
                            assert(rest[k - 1] == list[k]);
                        }
                    }
                },
            }
        }
    }
}

/// The window of a snapshot is hidden by asking its own handle to be minimized, and closed by asking
/// its own handle to close; a key that no window has is nobody's.
pub proof fn law_windows_are_asked_themselves<F>(
    list: Seq<ToplevelView>,
    i: int,
    key: Seq<char>,
)
    requires
        0 <= i < list.len(),
    ensures
        toplevel::hiding(list, list[i].as_win::<F>().key) == Some(
            (list[i].handle, HandleRequest::SetMinimized),
        ),
        toplevel::closing(list, list[i].as_win::<F>().key) == Some(
            (list[i].handle, HandleRequest::Close),
        ),
        (forall|k: int|
            0 <= k < list.len() ==> text::decimal((#[trigger] list[k]).handle as nat) != key)
            ==> toplevel::hiding(list, key) is None && toplevel::closing(list, key) is None,
{
    toplevel::law_keys_lead_back(list, i);
    law_keys_lead_to_handles_written_so(list, key);
}

/// The views of windows and events have all that these have.
pub proof fn law_views_of_windows_keep_everything(
    t: Toplevel,
    event: HandleEvent,
    session: Session,
    i: int,
)
    ensures
        t@.handle == t.handle,
        t@.app_id == t.app_id@,
        t@.title == t.title@,
        t@.minimized == t.minimized,
        t@.activated == t.activated,
        t@.done == t.done,
        t@.closed == t.closed,
        match event {
            HandleEvent::Title(title) => event@ == HandleEventView::Title(title@),
            HandleEvent::AppId(app_id) => event@ == HandleEventView::AppId(app_id@),
            HandleEvent::State { bytes, order } => event@ == (HandleEventView::State {
                bytes: bytes@,
                order,
            }),
            HandleEvent::Done => event@ == HandleEventView::Done,
            HandleEvent::Closed => event@ == HandleEventView::Closed,
            HandleEvent::Other => event@ == HandleEventView::Other,
        },
        session.list().len() == session.toplevels@.len(),
        0 <= i < session.toplevels@.len() ==> session.list()[i] == session.toplevels@[i]@,
{
}

} // verus!
