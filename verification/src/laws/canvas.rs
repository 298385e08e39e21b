//! Laws of windows on the canvas of driftwm.

use super::texts;
use crate::backend::WinView;
use crate::config::Edge;
use crate::config::Extent;
use crate::config::HideMode;
use crate::config::PadSpecView;
use crate::config::PadView;
use crate::config::SizeFault;
use crate::config::SizeView;
use crate::driftwm::session;
use crate::driftwm::session::DriftStep;
use crate::driftwm::session::Hiding;
use crate::driftwm::session::Place;
use crate::driftwm::session::Revealing;
use crate::driftwm::session::Side;
use crate::driftwm::session::Span;
use crate::driftwm::session::Stop;
use crate::driftwm::waiting;
use crate::driftwm::waiting::CameraAction;
use crate::driftwm::waiting::CameraHold;
use crate::driftwm::waiting::Look;
use crate::driftwm::waiting::WaitAction;
use crate::driftwm::waiting::WaitActionView;
use crate::driftwm::waiting::WaitFor;
use crate::driftwm::waiting::WaitView;
use crate::driftwm::wire;
use crate::driftwm::wire::DriftError;
use crate::driftwm::wire::DriftFault;
use crate::driftwm::wire::DriftWindow;
use crate::outside;
use crate::positions;
use crate::positions::PadWinState;
use crate::positions::WinUpdate;
use crate::text;
use vstd::prelude::*;

verus! {

/// Whether the sizes that a pad gives can be used.
pub open spec fn usable(spec: PadSpecView) -> bool {
    &&& spec.width matches Some(w) ==> w.extent() is Ok
    &&& spec.height matches Some(h) ==> h.extent() is Ok
}

/// A window whose extent is known docks where its pad says: at the edge of the pad, with the margin
/// of the pad. A pad that gives a size or a margin but no edge docks at the top. Docking is the last
/// step.
pub proof fn law_windows_dock_where_the_pad_says<F>(
    spec: PadSpecView,
    focus: bool,
    current: Option<DriftWindow<F>>,
    saved: Option<(F, F)>,
    saved_in_view: bool,
    zero: F,
    e: Edge,
)
    requires
        !spec.fullscreen,
        usable(spec),
        spec.edge == Some(e) || (spec.edge is None && e == Edge::Top && (spec.width is Some
            || spec.height is Some || spec.margin != 0)),
    ensures
        session::reveal_plan(
            HideMode::Move,
            spec,
            focus,
            current,
            saved,
            true,
            saved_in_view,
            zero,
        ) matches Ok(plan) && {
            &&& plan.target == Place::<F>::Docked { edge: e, margin: spec.margin }
            &&& plan.steps.last() == DriftStep::<F>::Move(
                Place::Docked { edge: e, margin: spec.margin },
            )
        },
{
}

/// A window that is not docked, because its pad gives no geometry or its extent is not known, goes
/// back to where it was where this is in the view, else to the centre of the view; and this is the
/// last step.
pub proof fn law_undocked_windows_return_or_come_to_the_centre<F>(
    spec: PadSpecView,
    focus: bool,
    current: Option<DriftWindow<F>>,
    saved: Option<(F, F)>,
    sized: bool,
    saved_in_view: bool,
    zero: F,
)
    requires
        !spec.fullscreen,
        usable(spec),
        !sized || (spec.edge is None && spec.width is None && spec.height is None && spec.margin
            == 0),
    ensures
        session::reveal_plan(
            HideMode::Move,
            spec,
            focus,
            current,
            saved,
            sized,
            saved_in_view,
            zero,
        ) matches Ok(plan) && {
            &&& saved is Some && saved_in_view ==> plan.target == Place::At(saved->0)
            &&& saved is None || !saved_in_view ==> plan.target == Place::<F>::Camera
            &&& plan.steps.last() == DriftStep::Move(plan.target)
        },
{
}

/// The steps that show a moved window: it comes to the centre of the view first, is resized exactly
/// where its pad gives a size and it is there, is focused exactly where asked for, and goes where it
/// belongs last. Nothing is remembered and nothing else is done.
pub proof fn law_shown_windows_take_these_steps<F>(
    spec: PadSpecView,
    focus: bool,
    current: Option<DriftWindow<F>>,
    saved: Option<(F, F)>,
    sized: bool,
    saved_in_view: bool,
    zero: F,
)
    requires
        !spec.fullscreen,
        usable(spec),
    ensures
        session::reveal_plan(
            HideMode::Move,
            spec,
            focus,
            current,
            saved,
            sized,
            saved_in_view,
            zero,
        ) matches Ok(plan) && {
            let resize = (spec.width is Some || spec.height is Some) && current is Some;
            let n = plan.steps.len();
            &&& plan.record is None
            &&& n == 2 + (if resize {
                1int
            } else {
                0
            }) + (if focus {
                1int
            } else {
                0
            })
            &&& plan.steps[0] == DriftStep::<F>::Move(Place::Camera)
            &&& resize ==> plan.steps[1] == DriftStep::<F>::Resize(Span::Wanted)
            &&& focus ==> plan.steps[n - 2] == DriftStep::<F>::Focus
            &&& plan.steps[n - 1] == DriftStep::Move(plan.target)
        },
{
}

/// A window that fills the view comes to its centre and gets its size, whatever else the pad says,
/// and is focused exactly where asked for.
pub proof fn law_full_screen_fills_the_view<F>(
    spec: PadSpecView,
    focus: bool,
    current: Option<DriftWindow<F>>,
    saved: Option<(F, F)>,
    sized: bool,
    saved_in_view: bool,
    zero: F,
)
    requires
        spec.fullscreen,
    ensures
        session::reveal_plan(
            HideMode::Move,
            spec,
            focus,
            current,
            saved,
            sized,
            saved_in_view,
            zero,
        ) matches Ok(plan) && {
            &&& plan.record is None
            &&& plan.target == Place::<F>::Camera
            &&& plan.steps.len() == if focus {
                3int
            } else {
                2
            }
            &&& plan.steps[0] == DriftStep::<F>::Move(Place::Camera)
            &&& plan.steps[1] == DriftStep::<F>::Resize(Span::View)
            &&& focus ==> plan.steps[2] == DriftStep::<F>::Focus
        },
{
}

/// A transparent window becomes opaque where it is, whatever its pad says of size and place, is no
/// longer remembered as transparent, and is focused exactly where asked for.
pub proof fn law_transparent_windows_become_opaque_in_place<F>(
    spec: PadSpecView,
    focus: bool,
    current: Option<DriftWindow<F>>,
    saved: Option<(F, F)>,
    sized: bool,
    saved_in_view: bool,
    zero: F,
)
    ensures
        session::reveal_plan(
            HideMode::Opacity,
            spec,
            focus,
            current,
            saved,
            sized,
            saved_in_view,
            zero,
        ) matches Ok(plan) && {
            &&& plan.record == Some(WinUpdate::<F>::Opacity(false))
            &&& plan.steps.len() == if focus {
                2int
            } else {
                1
            }
            &&& plan.steps[0] == DriftStep::<F>::Opacity(1)
            &&& focus ==> plan.steps[1] == DriftStep::<F>::Focus
            &&& current matches Some(w) ==> (w.position@.len() >= 2 ==> plan.target == Place::At(
                (w.position@[0], w.position@[1]),
            ))
            &&& current is None ==> plan.target == Place::At((zero, zero))
        },
{
}

/// Showing fails exactly where a moved window that does not fill the view has a size that cannot be
/// used; the width is reported before the height.
pub proof fn law_showing_fails_on_unusable_sizes<F>(
    mode: HideMode,
    spec: PadSpecView,
    focus: bool,
    current: Option<DriftWindow<F>>,
    saved: Option<(F, F)>,
    sized: bool,
    saved_in_view: bool,
    zero: F,
)
    ensures
        ({
            let plan = session::reveal_plan(
                mode,
                spec,
                focus,
                current,
                saved,
                sized,
                saved_in_view,
                zero,
            );
            &&& plan is Err <==> mode == HideMode::Move && !spec.fullscreen && !usable(spec)
            &&& plan matches Err(fault) ==> {
                ||| spec.width is Some && spec.width->0.extent() == Err::<Extent, SizeFault>(fault)
                ||| (spec.width matches Some(w) ==> w.extent() is Ok) && spec.height is Some
                    && spec.height->0.extent() == Err::<Extent, SizeFault>(fault)
            }
        }),
{
}

/// Hiding moves a visible window to the hiding spot and remembers where it was, or makes it
/// transparent and remembers that it is; one step does it. A hidden window is left alone, so that
/// what is remembered of it stays.
pub proof fn law_hiding_takes_windows_out_of_sight<F: Copy>(
    win: WinView<F>,
    all: Map<Seq<char>, Map<Seq<char>, PadWinState<F>>>,
    pad: Seq<char>,
)
    ensures
        win.hidden ==> session::hide_plan(HideMode::Move, win) is None && session::hide_plan(
            HideMode::Opacity,
            win,
        ) is None,
        !win.hidden ==> {
            &&& session::hide_plan(HideMode::Move, win) matches Some(plan) && {
                let after = positions::updated(all, pad, win.key, plan.record);
                &&& plan.steps.len() == 1
                &&& plan.steps[0] == DriftStep::<F>::Move(Place::HideSpot)
                &&& after[pad][win.key].pos == win.position
                &&& !after[pad][win.key].opacity_hidden
            }
            &&& session::hide_plan(HideMode::Opacity, win) matches Some(plan) && {
                let after = positions::updated(all, pad, win.key, plan.record);
                &&& plan.steps.len() == 1
                &&& plan.steps[0] == DriftStep::<F>::Opacity(0)
                &&& after[pad][win.key].opacity_hidden
            }
        },
{
}

/// A window that is hidden by moving and then shown goes back to where it was, as long as this is in
/// the view and its pad gives no geometry.
pub proof fn law_showing_undoes_hiding<F: Copy>(
    win: WinView<F>,
    pos: (F, F),
    all: Map<Seq<char>, Map<Seq<char>, PadWinState<F>>>,
    pad: Seq<char>,
    spec: PadSpecView,
    focus: bool,
    current: Option<DriftWindow<F>>,
    sized: bool,
    zero: F,
)
    requires
        !win.hidden,
        win.position == Some(pos),
        spec.edge is None && spec.width is None && spec.height is None && spec.margin == 0
            && !spec.fullscreen,
    ensures
        session::hide_plan(HideMode::Move, win) matches Some(hiding) && session::reveal_plan(
            HideMode::Move,
            spec,
            focus,
            current,
            session::saved_of(
                positions::updated(all, pad, win.key, hiding.record),
                pad,
                win.key,
            ),
            sized,
            true,
            zero,
        ) matches Ok(plan) && {
            &&& plan.target == Place::At(pos)
            &&& plan.steps.last() == DriftStep::Move(Place::At(pos))
        },
{
}

/// The extent of a window is what its pad gives for each side and, for a side that it does not give,
/// the window's own width or height; a window that is not there has none.
pub proof fn law_windows_keep_the_sides_that_are_not_given<F>(
    spec: PadSpecView,
    current: Option<DriftWindow<F>>,
    zero: F,
)
    ensures
        session::wanted_extent(spec, current, zero) is Ok <==> usable(spec),
        session::wanted_extent(spec, current, zero) matches Ok(sides) ==> {
            &&& spec.width matches Some(w) ==> sides.0 == Side::<F>::Screen(w.extent()->Ok_0)
            &&& spec.height matches Some(h) ==> sides.1 == Side::<F>::Screen(h.extent()->Ok_0)
            &&& current matches Some(c) ==> (c.size@.len() >= 2 ==> {
                &&& spec.width is None ==> sides.0 == Side::Canvas(c.size@[0])
                &&& spec.height is None ==> sides.1 == Side::Canvas(c.size@[1])
            })
            &&& current is None ==> {
                &&& spec.width is None ==> sides.0 == Side::Canvas(zero)
                &&& spec.height is None ==> sides.1 == Side::Canvas(zero)
            }
        },
        session::wanted_extent(spec, current, zero) matches Err(fault) ==> {
            ||| spec.width is Some && spec.width->0.extent() == Err::<Extent, SizeFault>(fault)
            ||| (spec.width matches Some(w) ==> w.extent() is Ok) && spec.height is Some
                && spec.height->0.extent() == Err::<Extent, SizeFault>(fault)
        },
{
}

/// A side that the pad gives is the pad's, any other the window's own.
pub proof fn law_given_sides_are_the_pads<F>(size: SizeView, own: F)
    ensures
        session::wanted_side::<F>(None, own) == Ok::<Side<F>, SizeFault>(Side::Canvas(own)),
        size.extent() matches Ok(extent) ==> session::wanted_side(Some(size), own) == Ok::<
            Side<F>,
            SizeFault,
        >(Side::Screen(extent)),
        size.extent() matches Err(fault) ==> session::wanted_side(Some(size), own) == Err::<
            Side<F>,
            SizeFault,
        >(fault),
{
}

/// The vertical axis points upwards: the top is its high end and the bottom its low end. The
/// horizontal axis points to the right.
pub proof fn law_edges_lie_where_they_are_called(edge: Edge)
    ensures
        edge.stops().1 == Stop::High <==> edge == Edge::Top,
        edge.stops().1 == Stop::Low <==> edge == Edge::Bottom,
        edge.stops().0 == Stop::High <==> edge == Edge::Right,
        edge.stops().0 == Stop::Low <==> edge == Edge::Left,
{
}

/// Whether some pad remembers the window with this key as transparent.
pub open spec fn marked<F>(
    all: Map<Seq<char>, Map<Seq<char>, PadWinState<F>>>,
    pad: Seq<char>,
    key: Seq<char>,
) -> bool {
    all.contains_key(pad) && all[pad].contains_key(key) && all[pad][key].opacity_hidden
}

/// A snapshot has every window but widgets and placeholders, each once and in its order: one more
/// window on the canvas is one more at the end of the snapshot, with its own id, application id,
/// title, focus and position. It is hidden where it is at the hiding spot or, where windows are
/// hidden by transparency, where a pad remembers it as transparent.
pub proof fn law_snapshots_have_windows_as_they_are<F>(
    mode: HideMode,
    front: Seq<DriftWindow<F>>,
    w: DriftWindow<F>,
    all: Map<Seq<char>, Map<Seq<char>, PadWinState<F>>>,
    zero: F,
)
    ensures
        session::proper_windows(mode, Seq::<DriftWindow<F>>::empty(), all, zero) == Seq::<
            WinView<F>,
        >::empty(),
        ({
            let before = session::proper_windows(mode, front, all, zero);
            let after = session::proper_windows(mode, front.push(w), all, zero);
            let key = text::signed_decimal(w.id as int);
            &&& w.is_widget || w.suspended ==> after == before
            &&& !w.is_widget && !w.suspended ==> {
                &&& after.len() == before.len() + 1
                &&& after.drop_last() == before
                &&& after.last().key == key
                &&& after.last().app_id == w.app_id@
                &&& after.last().title == w.title@
                &&& after.last().focused == w.is_focused
                &&& w.position@.len() >= 2 ==> after.last().position == Some(
                    (w.position@[0], w.position@[1]),
                )
                &&& w.position@.len() == 1 ==> after.last().position == Some(
                    (w.position@[0], zero),
                )
                &&& w.position@.len() == 0 ==> after.last().position == Some((zero, zero))
                &&& after.last().hidden <==> w.stashed || (mode == HideMode::Opacity && exists|
                    pad: Seq<char>,
                | #[trigger] marked(all, pad, key))
            }
        }),
{
    reveal(Seq::filter);
    let proper = |d: DriftWindow<F>| session::is_proper(d);
    let seen = |d: DriftWindow<F>|
        session::as_win(d, session::seen_through(mode, all, d.id), zero);
    let key = text::signed_decimal(w.id as int);
    assert(front.push(w).drop_last() =~= front);
    assert(session::proper_windows(mode, Seq::<DriftWindow<F>>::empty(), all, zero)
        =~= Seq::empty());
    assert(front.filter(proper).push(w).map_values(seen) =~= front.filter(proper).map_values(
        seen,
    ).push(seen(w)));
    let after = session::proper_windows(mode, front.push(w), all, zero);
    if !w.is_widget && !w.suspended {
        assert(after.drop_last() =~= session::proper_windows(mode, front, all, zero));
        if positions::transparent(all, key) {
            let pad = choose|pad: Seq<char>|
                (#[trigger] positions::memory_of(all, pad, key)) matches Some(s)
                    && s.opacity_hidden;
            assert(marked(all, pad, key));
        }
        if exists|pad: Seq<char>| #[trigger] marked(all, pad, key) {
            let pad = choose|pad: Seq<char>| #[trigger] marked(all, pad, key);
            assert(positions::memory_of(all, pad, key) is Some);
        }
    }
}

/// A window of the canvas that is neither widget nor placeholder is among the windows of a pad
/// exactly where the patterns of the pad match its own application id and its own title.
pub proof fn law_pads_match_windows_by_what_they_are<F>(
    mode: HideMode,
    windows: Seq<DriftWindow<F>>,
    all: Map<Seq<char>, Map<Seq<char>, PadWinState<F>>>,
    zero: F,
    pad: PadView,
    i: int,
)
    requires
        0 <= i < windows.len(),
        !windows[i].is_widget,
        !windows[i].suspended,
    ensures
        exists|k: int|
            #![trigger session::proper_windows(mode, windows, all, zero)[k]]
            0 <= k < session::proper_windows(mode, windows, all, zero).len() && {
                let win = session::proper_windows(mode, windows, all, zero)[k];
                &&& win.key == text::signed_decimal(windows[i].id as int)
                &&& win.app_id == windows[i].app_id@
                &&& win.title == windows[i].title@
                &&& pad.matches(win.app_id, win.title) <==> {
                    &&& outside::regex_fault(pad.app_id) is None
                    &&& outside::regex_matches(pad.app_id, windows[i].app_id@)
                    &&& pad.title matches Some(pattern) ==> {
                        &&& outside::regex_fault(pattern) is None
                        &&& outside::regex_matches(pattern, windows[i].title@)
                    }
                }
            },
    decreases windows.len(),
{
    let front = windows.drop_last();
    let w = windows.last();
    let snapshot = session::proper_windows(mode, windows, all, zero);
    let before = session::proper_windows(mode, front, all, zero);
    assert(front.push(w) =~= windows);
    law_snapshots_have_windows_as_they_are(mode, front, w, all, zero);
    if i < front.len() {
        assert(front[i] == windows[i]);
        law_pads_match_windows_by_what_they_are(mode, front, all, zero, pad, i);
        let k = choose|k: int|
            #![trigger before[k]]
            0 <= k < before.len() && before[k].key == text::signed_decimal(windows[i].id as int)
                && before[k].app_id == windows[i].app_id@ && before[k].title == windows[i].title@;
        if !w.is_widget && !w.suspended {
            assert(snapshot.drop_last()[k] == snapshot[k]);
        }
        assert(snapshot[k] == before[k]);
    } else {
        assert(snapshot[snapshot.len() - 1] == snapshot.last());
    }
}

/// What is remembered of where a window was is what its pad remembers of it.
pub proof fn law_saved_positions_are_those_remembered<F>(
    all: Map<Seq<char>, Map<Seq<char>, PadWinState<F>>>,
    pad: Seq<char>,
    key: Seq<char>,
)
    ensures
        all.contains_key(pad) && all[pad].contains_key(key) ==> session::saved_of(all, pad, key)
            == all[pad][key].pos,
        !(all.contains_key(pad) && all[pad].contains_key(key)) ==> session::saved_of(
            all,
            pad,
            key,
        ) is None,
{
}

/// The window with a key is the first whose id is written so; its place is its first two
/// coordinates.
pub proof fn law_windows_are_found_by_their_ids<F>(
    windows: Seq<DriftWindow<F>>,
    key: Seq<char>,
    zero: F,
)
    ensures
        match wire::find_window(windows, key) {
            Some(w) => {
                &&& exists|i: int|
                    #![trigger windows[i]]
                    0 <= i < windows.len() && windows[i] == w && text::signed_decimal(w.id as int)
                        == key && forall|k: int|
                        0 <= k < i ==> text::signed_decimal((#[trigger] windows[k]).id as int)
                            != key
                &&& w.position@.len() >= 2 ==> wire::place_in(windows, key, zero) == Some(
                    (w.position@[0], w.position@[1]),
                )
                &&& w.position@.len() == 1 ==> wire::place_in(windows, key, zero) == Some(
                    (w.position@[0], zero),
                )
                &&& w.position@.len() == 0 ==> wire::place_in(windows, key, zero) == Some(
                    (zero, zero),
                )
            },
            None => {
                &&& forall|k: int|
                    0 <= k < windows.len() ==> text::signed_decimal(
                        (#[trigger] windows[k]).id as int,
                    ) != key
                &&& wire::place_in(windows, key, zero) is None
            },
        },
    decreases windows.len(),
{
    if windows.len() > 0 {
        let rest = windows.drop_first();
        if text::signed_decimal(windows[0].id as int) == key {
            assert(windows[0] == windows[0]);
        } else {
            law_windows_are_found_by_their_ids(rest, key, zero);
            match wire::find_window(rest, key) {
                Some(w) => {
                    let i = choose|i: int|
                        #![trigger rest[i]]
                        0 <= i < rest.len() && rest[i] == w && text::signed_decimal(w.id as int)
                            == key && forall|k: int|
                            0 <= k < i ==> text::signed_decimal((#[trigger] rest[k]).id as int)
                                != key;
                    assert(windows[i + 1] == w);
                    assert forall|k: int| 0 <= k < i + 1 implies text::signed_decimal(
                        (#[trigger] windows[k]).id as int,
                    ) != key by {
                        if k > 0 {
                            assert(rest[k - 1] == windows[k]);
                        }
                    }
                },
                None => {
                    assert forall|k: int| 0 <= k < windows.len() implies text::signed_decimal(
                        (#[trigger] windows[k]).id as int,
                    ) != key by {
                        if k > 0 {
                            assert(rest[k - 1] == windows[k]);
                        }
                    }
                },
            }
        }
    }
}

/// Missing coordinates are zero, and those behind the first two do not count.
pub proof fn law_points_are_two_coordinates<F>(v: Seq<F>, zero: F)
    ensures
        v.len() == 0 ==> wire::point(v, zero) == (zero, zero),
        v.len() == 1 ==> wire::point(v, zero) == (v[0], zero),
        v.len() >= 2 ==> wire::point(v, zero) == (v[0], v[1]),
{
}

/// A camera that was focused away is looked at, and moved back where it is not in its place, three
/// times and no more; after each move it is looked at again but for the last.
pub proof fn law_a_camera_drawn_away_is_moved_back(corrections: u32)
    requires
        corrections < 3,
    ensures
        CameraHold::Focusing.wants() == CameraAction::Focus,
        CameraHold::Focusing.after(true) == CameraHold::Focusing.after(false),
        CameraHold::Focusing.after(true) == (CameraHold::Checking { corrections: 0 }),
        ({
            let checking = CameraHold::Checking { corrections };
            let moving = checking.after(false);
            let moved = moving.after(true);
            &&& checking.wants() == (CameraAction::Look {
                after_ms: if corrections == 0 {
                    320
                } else {
                    120
                },
            })
            &&& checking.after(true).wants() == CameraAction::Done
            &&& moving.wants() == CameraAction::SetCamera
            &&& moving.after(false) == moved
            &&& corrections < 2 ==> moved == (CameraHold::Checking {
                corrections: (corrections + 1) as u32,
            })
            &&& corrections == 2 ==> moved.wants() == (CameraAction::Rest { ms: 120 })
                && moved.after(true).wants() == CameraAction::Done && moved.after(false).wants()
                == CameraAction::Done
        }),
{
}

/// A hold that is over stays over.
pub proof fn law_a_hold_that_is_over_stays_over(in_place: bool)
    ensures
        CameraHold::Over.after(in_place) == CameraHold::Over,
        CameraHold::Over.wants() == CameraAction::Done,
        CameraHold::Resting.after(in_place) == CameraHold::Over,
{
}

/// The first window of a pad is the first that matches it by its application id and title.
pub proof fn law_the_first_match_is_waited_for<F>(windows: Seq<DriftWindow<F>>, pad: PadView)
    ensures
        match waiting::first_of(windows, pad) {
            Some(w) => exists|i: int|
                #![trigger windows[i]]
                0 <= i < windows.len() && windows[i] == w && pad.matches(w.app_id@, w.title@)
                    && forall|k: int|
                    0 <= k < i ==> !pad.matches(
                        (#[trigger] windows[k]).app_id@,
                        windows[k].title@,
                    ),
            None => forall|k: int|
                0 <= k < windows.len() ==> !pad.matches(
                    (#[trigger] windows[k]).app_id@,
                    windows[k].title@,
                ),
        },
    decreases windows.len(),
{
    if windows.len() > 0 {
        let rest = windows.drop_first();
        if pad.matches(windows[0].app_id@, windows[0].title@) {
            assert(windows[0] == windows[0]);
        } else {
            law_the_first_match_is_waited_for(rest, pad);
            match waiting::first_of(rest, pad) {
                Some(w) => {
                    let i = choose|i: int|
                        #![trigger rest[i]]
                        0 <= i < rest.len() && rest[i] == w && pad.matches(w.app_id@, w.title@)
                            && forall|k: int|
                            0 <= k < i ==> !pad.matches(
                                (#[trigger] rest[k]).app_id@,
                                rest[k].title@,
                            );
                    assert(windows[i + 1] == w);
                    assert forall|k: int| 0 <= k < i + 1 implies !pad.matches(
                        (#[trigger] windows[k]).app_id@,
                        windows[k].title@,
                    ) by {
                        if k > 0 {
                            assert(rest[k - 1] == windows[k]);
                        }
                    }
                },
                None => {
                    assert forall|k: int| 0 <= k < windows.len() implies !pad.matches(
                        (#[trigger] windows[k]).app_id@,
                        windows[k].title@,
                    ) by {
                        if k > 0 {
                            assert(rest[k - 1] == windows[k]);
                        }
                    }
                },
            }
        }
    }
}

/// A window that has come is waited for as it is, neither hidden nor focused. Until then the canvas
/// is looked at every 120 ms, as long as there is time.
pub proof fn law_newcomers_are_taken_as_they_are<F>(
    rest_ms: u64,
    pad: PadView,
    look: Look<F>,
    zero: F,
    focus_on_show: bool,
)
    ensures
        ({
            let polling = WaitView::<F>::Polling { rest_ms };
            let next = polling.after_look(pad, look, zero);
            &&& polling.wants(focus_on_show) == (WaitActionView::<F>::Look { after_ms: rest_ms })
            &&& waiting::first_of(look.state.windows@, pad) matches Some(w) ==> (
            next matches WaitView::Settling { win, looks, before } && {
                &&& looks == 0
                &&& before is None
                &&& win.key == text::signed_decimal(w.id as int)
                &&& win.app_id == w.app_id@
                &&& win.title == w.title@
                &&& !win.hidden
                &&& !win.focused
                &&& w.position@.len() >= 2 ==> win.position == Some(
                    (w.position@[0], w.position@[1]),
                )
            })
            &&& waiting::first_of(look.state.windows@, pad) is None ==> next == if look.expired {
                WaitView::<F>::Over { found: false }
            } else {
                WaitView::<F>::Polling { rest_ms: 120 }
            }
        }),
{
}

/// A window that has come is looked at every 150 ms until it stands still, but no more than twelve
/// times, and is then shown, with the focus where its pad wants it.
pub proof fn law_newcomers_are_shown_when_they_stand_still<F>(
    win: WinView<F>,
    looks: u32,
    before: Option<(F, F)>,
    pad: PadView,
    look: Look<F>,
    zero: F,
    focus_on_show: bool,
)
    requires
        looks < 12,
    ensures
        ({
            let settling = WaitView::Settling { win, looks, before };
            let next = settling.after_look(pad, look, zero);
            &&& settling.wants(focus_on_show) == (WaitActionView::<F>::Look { after_ms: 150 })
            &&& settling.expects() == before
            &&& look.same_place || looks == 11 ==> next.wants(focus_on_show) == (
            WaitActionView::Reveal { win, focus: focus_on_show })
            &&& !look.same_place && looks < 11 ==> next == (WaitView::Settling {
                win,
                looks: (looks + 1) as u32,
                before: wire::place_in(look.state.windows@, win.key, zero),
            })
        }),
{
}

/// A window that was shown is looked at every 150 ms; where it is not where it was put, it is shown
/// again without the focus, three times and no more. However it ends, it was found.
pub proof fn law_shown_newcomers_are_held_to_their_place<F>(
    win: WinView<F>,
    looks: u32,
    target: (F, F),
    pad: PadView,
    look: Look<F>,
    zero: F,
    focus_on_show: bool,
    shown: (F, F),
)
    requires
        looks < 3,
    ensures
        ({
            let placing = WaitView::Placing { win };
            let checking = WaitView::Checking { win, looks, target };
            let next = checking.after_look(pad, look, zero);
            &&& placing.wants(focus_on_show) == (WaitActionView::Reveal {
                win,
                focus: focus_on_show,
            })
            &&& placing.after_reveal(shown) == (WaitView::Checking { win, looks: 0, target: shown })
            &&& checking.wants(focus_on_show) == (WaitActionView::<F>::Look { after_ms: 150 })
            &&& checking.expects() == Some(target)
            &&& look.on_target ==> next.wants(focus_on_show) == (WaitActionView::<F>::Finish {
                found: true,
            })
            &&& !look.on_target ==> {
                &&& next.wants(focus_on_show) == (WaitActionView::Reveal { win, focus: false })
                &&& looks < 2 ==> next.after_reveal(shown) == (WaitView::Checking {
                    win,
                    looks: (looks + 1) as u32,
                    target,
                })
                &&& looks == 2 ==> next.after_reveal(shown).wants(focus_on_show) == (
                WaitActionView::<F>::Finish { found: true })
            }
        }),
{
}

/// A look changes nothing in a phase that wants the window shown, and showing it changes nothing in
/// a phase that wants a look.
pub proof fn law_phases_wait_for_what_they_want<F>(
    phase: WaitView<F>,
    pad: PadView,
    look: Look<F>,
    zero: F,
    focus_on_show: bool,
    shown: (F, F),
)
    ensures
        phase.wants(focus_on_show) is Reveal ==> phase.after_look(pad, look, zero) == phase,
        phase.wants(focus_on_show) is Look ==> phase.after_reveal(shown) == phase,
        phase.after_look(pad, look, zero) == phase.after_seeing(
            waiting::first_of(look.state.windows@, pad),
            look,
            zero,
        ),
{
}

/// Waiting that is over says whether a window was found, and stays over.
pub proof fn law_waiting_that_is_over_stays_over<F>(
    found: bool,
    pad: PadView,
    look: Look<F>,
    zero: F,
    focus_on_show: bool,
    shown: (F, F),
)
    ensures
        ({
            let over = WaitView::<F>::Over { found };
            &&& over.wants(focus_on_show) == (WaitActionView::<F>::Finish { found })
            &&& over.after_look(pad, look, zero) == over
            &&& over.after_reveal(shown) == over
        }),
{
}

/// The views of plans, phases and actions have all that these have.
pub proof fn law_views_of_plans_keep_everything<F>(
    r: Revealing<F>,
    h: Hiding<F>,
    phase: WaitFor<F>,
    action: WaitAction<F>,
    e: DriftError,
)
    ensures
        h@.record == h.record,
        h@.steps == h.steps@,
        r@.record == r.record,
        r@.steps == r.steps@,
        r@.target == r.target,
        match phase {
            WaitFor::Polling { rest_ms } => phase@ == (WaitView::<F>::Polling { rest_ms }),
            WaitFor::Settling { win, looks, before } => phase@ == (WaitView::Settling {
                win: win@,
                looks,
                before,
            }),
            WaitFor::Placing { win } => phase@ == (WaitView::Placing { win: win@ }),
            WaitFor::Checking { win, looks, target } => phase@ == (WaitView::Checking {
                win: win@,
                looks,
                target,
            }),
            WaitFor::Correcting { win, looks, target } => phase@ == (WaitView::Correcting {
                win: win@,
                looks,
                target,
            }),
            WaitFor::Over { found } => phase@ == (WaitView::<F>::Over { found }),
        },
        match action {
            WaitAction::Look { after_ms } => action@ == (WaitActionView::<F>::Look { after_ms }),
            WaitAction::Reveal { win, focus } => action@ == (WaitActionView::Reveal {
                win: win@,
                focus,
            }),
            WaitAction::Finish { found } => action@ == (WaitActionView::<F>::Finish { found }),
        },
        match e {
            DriftError::Refused { complaint } => e@ == (DriftFault::Refused {
                complaint: complaint@,
            }),
            DriftError::NoState => e@ == DriftFault::NoState,
            DriftError::NoCacheDir => e@ == DriftFault::NoCacheDir,
            DriftError::Failed { command, complaint } => e@ == (DriftFault::Failed {
                command: command@,
                complaint: complaint@,
            }),
        },
{
}

/// What the user is told of a refusal has the complaint of driftwm, and the command that failed.
pub proof fn law_complaints_are_told(command: Seq<char>, complaint: Seq<char>)
    ensures
        text::occurs(complaint, (DriftFault::Refused { complaint }).words()),
        text::occurs(complaint, (DriftFault::Failed { command, complaint }).words()),
        text::occurs(command, (DriftFault::Failed { command, complaint }).words()),
{
    let e = Seq::<char>::empty();
    let a = (DriftFault::Refused { complaint }).words();
    texts::lemma_within(a, "driftwm msg state 失败: "@, complaint, e);
    let b = (DriftFault::Failed { command, complaint }).words();
    let f = "driftwm msg "@;
    let m = " 失败: "@;
    texts::lemma_within(b, f, command, m + complaint);
    texts::lemma_within(b, f + command + m, complaint, e);
}

} // verus!
