//! Waiting: for the camera to stay where it is, and for a launched window to come and stand still.

use super::wire;
use super::wire::DriftState;
use super::wire::DriftWindow;
use crate::backend::Win;
use crate::backend::WinView;
use crate::config::Pad;
use crate::config::PadView;
use crate::text;
use vstd::prelude::*;

verus! {

/// The rest between two looks for a window that has been launched.
pub const POLL_INTERVAL_MS: u64 = 120;

/// The rest between two looks at a window that is being placed.
pub const PLACEMENT_SETTLE_MS: u64 = 150;

/// How long the camera takes to glide to a focused window.
pub const FOCUS_CAMERA_ANIMATION_MS: u64 = 320;

/// The rest after the camera was moved back.
pub const CAMERA_RETRY_MS: u64 = 120;

/// How often to look whether a new window stands still.
pub const SETTLE_LOOKS: u32 = 12;

/// How often to look whether a window or the camera is where it was put.
pub const CHECK_LOOKS: u32 = 3;

/// How far from its place, on either axis, the camera may be.
pub const CAMERA_TOLERANCE: u32 = 1;

/// How far from where it was put, on either axis, a window may be.
pub const TARGET_TOLERANCE: u32 = 5;

/// Focusing a window without losing sight of the view. The camera glides to the focused window;
/// where it has been drawn away from its place, it is moved back.
#[derive(Debug, Clone, Copy, PartialEq, Eq, Structural)]
pub enum CameraHold {
    /// The window is to be focused.
    Focusing,
    /// The camera is to be looked at; it has been moved back this many times.
    Checking { corrections: u32 },
    /// The camera is to be moved back, for this time.
    Correcting { corrections: u32 },
    /// A last rest.
    Resting,
    Over,
}

/// What to do for a `CameraHold`.
#[derive(Debug, Clone, Copy, PartialEq, Eq, Structural)]
pub enum CameraAction {
    Focus,
    /// Rest, then see whether the camera is in its place.
    Look { after_ms: u64 },
    /// Move the camera back to its place.
    SetCamera,
    Rest { ms: u64 },
    Done,
}

impl CameraHold {
    /// What to do in this phase.
    pub open spec fn wants(self) -> CameraAction {
        match self {
            CameraHold::Focusing => CameraAction::Focus,
            CameraHold::Checking { corrections } => CameraAction::Look {
                after_ms: if corrections == 0 {
                    FOCUS_CAMERA_ANIMATION_MS
                } else {
                    CAMERA_RETRY_MS
                },
            },
            CameraHold::Correcting { .. } => CameraAction::SetCamera,
            CameraHold::Resting => CameraAction::Rest { ms: CAMERA_RETRY_MS },
            CameraHold::Over => CameraAction::Done,
        }
    }

    /// The phase that follows when this is done. `in_place` is what the look found.
    pub open spec fn after(self, in_place: bool) -> CameraHold {
        match self {
            CameraHold::Focusing => CameraHold::Checking { corrections: 0 },
            CameraHold::Checking { corrections } => if in_place || corrections >= CHECK_LOOKS {
                CameraHold::Over
            } else {
                CameraHold::Correcting { corrections: (corrections + 1) as u32 }
            },
            CameraHold::Correcting { corrections } => if corrections < CHECK_LOOKS {
                CameraHold::Checking { corrections }
            } else {
                CameraHold::Resting
            },
            CameraHold::Resting => CameraHold::Over,
            CameraHold::Over => CameraHold::Over,
        }
    }

    /// What to do in this phase.
    pub fn action(&self) -> (r: CameraAction)
        ensures
            r == self.wants(),
    {
        match *self {
            CameraHold::Focusing => CameraAction::Focus,
            CameraHold::Checking { corrections } => CameraAction::Look {
                after_ms: if corrections == 0 {
                    FOCUS_CAMERA_ANIMATION_MS
                } else {
                    CAMERA_RETRY_MS
                },
            },
            CameraHold::Correcting { corrections: _ } => CameraAction::SetCamera,
            CameraHold::Resting => CameraAction::Rest { ms: CAMERA_RETRY_MS },
            CameraHold::Over => CameraAction::Done,
        }
    }

    /// The phase that follows when this is done. `in_place` is what the look found; after anything
    /// but a look it does not count.
    pub fn next(self, in_place: bool) -> (r: CameraHold)
        ensures
            r == self.after(in_place),
    {
        match self {
            CameraHold::Focusing => CameraHold::Checking { corrections: 0 },
            CameraHold::Checking { corrections } => if in_place || corrections >= CHECK_LOOKS {
                CameraHold::Over
            } else {
                CameraHold::Correcting { corrections: corrections + 1 }
            },
            CameraHold::Correcting { corrections } => if corrections < CHECK_LOOKS {
                CameraHold::Checking { corrections }
            } else {
                CameraHold::Resting
            },
            CameraHold::Resting => CameraHold::Over,
            CameraHold::Over => CameraHold::Over,
        }
    }

    /// How far a phase is from the end.
    pub open spec fn distance(self) -> nat {
        match self {
            CameraHold::Focusing => 10,
            CameraHold::Checking { corrections } => if corrections >= CHECK_LOOKS {
                1
            } else {
                (9 - 2 * corrections) as nat
            },
            CameraHold::Correcting { corrections } => if corrections < CHECK_LOOKS {
                (10 - 2 * corrections) as nat
            } else {
                2
            },
            CameraHold::Resting => 1,
            CameraHold::Over => 0,
        }
    }
}

/// Keeping the camera in its place comes to an end: every step leads closer to it, and only the
/// last phase is done.
pub proof fn law_camera_hold_ends(phase: CameraHold, in_place: bool)
    ensures
        phase != CameraHold::Over ==> phase.after(in_place).distance() < phase.distance(),
        phase.distance() <= 10,
        phase.wants() == CameraAction::Done <==> phase == CameraHold::Over,
{
}

/// A camera that is found in its place is not moved.
pub proof fn law_camera_in_place_is_left_alone(phase: CameraHold)
    requires
        phase.wants() is Look,
    ensures
        phase.after(true).wants() == CameraAction::Done,
{
}

/// Waiting for the window of a launched command, and placing it when it has come.
#[derive(Debug)]
pub enum WaitFor<F> {
    /// No window of the pad yet; look after this rest.
    Polling { rest_ms: u64 },
    /// The window is there. The compositor still places it, which would undo anything done to it:
    /// look until it stands still, or so often. `before` is where it was at the last of `looks`
    /// looks.
    Settling { win: Win<F>, looks: u32, before: Option<(F, F)> },
    /// The window is to be shown.
    Placing { win: Win<F> },
    /// The window was shown; see whether it is where it was put.
    Checking { win: Win<F>, looks: u32, target: (F, F) },
    /// It is not: it is to be shown again.
    Correcting { win: Win<F>, looks: u32, target: (F, F) },
    Over { found: bool },
}

pub enum WaitView<F> {
    Polling { rest_ms: u64 },
    Settling { win: WinView<F>, looks: u32, before: Option<(F, F)> },
    Placing { win: WinView<F> },
    Checking { win: WinView<F>, looks: u32, target: (F, F) },
    Correcting { win: WinView<F>, looks: u32, target: (F, F) },
    Over { found: bool },
}

impl<F> View for WaitFor<F> {
    type V = WaitView<F>;

    open spec fn view(&self) -> WaitView<F> {
        match *self {
            WaitFor::Polling { rest_ms } => WaitView::Polling { rest_ms },
            WaitFor::Settling { win, looks, before } => WaitView::Settling {
                win: win@,
                looks,
                before,
            },
            WaitFor::Placing { win } => WaitView::Placing { win: win@ },
            WaitFor::Checking { win, looks, target } => WaitView::Checking {
                win: win@,
                looks,
                target,
            },
            WaitFor::Correcting { win, looks, target } => WaitView::Correcting {
                win: win@,
                looks,
                target,
            },
            WaitFor::Over { found } => WaitView::Over { found },
        }
    }
}

/// What to do for a `WaitFor`.
#[derive(Debug)]
pub enum WaitAction<F> {
    /// Rest, then look at the canvas.
    Look { after_ms: u64 },
    Reveal { win: Win<F>, focus: bool },
    Finish { found: bool },
}

pub enum WaitActionView<F> {
    Look { after_ms: u64 },
    Reveal { win: WinView<F>, focus: bool },
    Finish { found: bool },
}

impl<F> View for WaitAction<F> {
    type V = WaitActionView<F>;

    open spec fn view(&self) -> WaitActionView<F> {
        match *self {
            WaitAction::Look { after_ms } => WaitActionView::Look { after_ms },
            WaitAction::Reveal { win, focus } => WaitActionView::Reveal { win: win@, focus },
            WaitAction::Finish { found } => WaitActionView::Finish { found },
        }
    }
}

/// A window of driftwm that has just come: neither hidden nor focused.
pub open spec fn newcomer<F>(w: DriftWindow<F>, zero: F) -> WinView<F> {
    WinView {
        key: text::signed_decimal(w.id as int),
        app_id: w.app_id@,
        title: w.title@,
        hidden: false,
        focused: false,
        position: Some(wire::point(w.position@, zero)),
    }
}

/// The first window that matches a pad. Unlike in a snapshot, widgets and the placeholders of
/// suspended windows count here too.
pub open spec fn first_of<F>(windows: Seq<DriftWindow<F>>, pad: PadView) -> Option<DriftWindow<F>>
    decreases windows.len(),
{
    if windows.len() == 0 {
        None
    } else if pad.matches(windows[0].app_id@, windows[0].title@) {
        Some(windows[0])
    } else {
        first_of(windows.drop_first(), pad)
    }
}

/// What a look at the canvas found. `F` is the number type of canvas coordinates.
#[derive(Debug)]
pub struct Look<F> {
    pub state: DriftState<F>,
    /// The waiting time is over.
    pub expired: bool,
    /// The window is there, in the same place as at the look before; see `WaitFor::expected`.
    pub same_place: bool,
    /// The window is there, where it was put; see `WaitFor::expected`.
    pub on_target: bool,
}

impl<F> WaitView<F> {
    /// What to do in this phase. Only the first time is the window focused.
    pub open spec fn wants(self, focus_on_show: bool) -> WaitActionView<F> {
        match self {
            WaitView::Polling { rest_ms } => WaitActionView::Look { after_ms: rest_ms },
            WaitView::Settling { .. } => WaitActionView::Look { after_ms: PLACEMENT_SETTLE_MS },
            WaitView::Placing { win } => WaitActionView::Reveal { win, focus: focus_on_show },
            WaitView::Checking { .. } => WaitActionView::Look { after_ms: PLACEMENT_SETTLE_MS },
            WaitView::Correcting { win, .. } => WaitActionView::Reveal { win, focus: false },
            WaitView::Over { found } => WaitActionView::Finish { found },
        }
    }

    /// The phase after a look, where `come` is a window of the pad that was seen.
    pub open spec fn after_seeing(
        self,
        come: Option<DriftWindow<F>>,
        look: Look<F>,
        zero: F,
    ) -> WaitView<F> {
        match self {
            WaitView::Polling { .. } => match come {
                Some(w) => WaitView::Settling { win: newcomer(w, zero), looks: 0, before: None },
                None => if look.expired {
                    WaitView::Over { found: false }
                } else {
                    WaitView::Polling { rest_ms: POLL_INTERVAL_MS }
                },
            },
            WaitView::Settling { win, looks, .. } => if look.same_place || looks + 1
                >= SETTLE_LOOKS {
                WaitView::Placing { win }
            } else {
                WaitView::Settling {
                    win,
                    looks: (looks + 1) as u32,
                    before: wire::place_in(look.state.windows@, win.key, zero),
                }
            },
            WaitView::Checking { win, looks, target } => if look.on_target || looks
                >= CHECK_LOOKS {
                WaitView::Over { found: true }
            } else {
                WaitView::Correcting { win, looks: (looks + 1) as u32, target }
            },
            _ => self,
        }
    }

    /// The phase after a look.
    pub open spec fn after_look(self, pad: PadView, look: Look<F>, zero: F) -> WaitView<F> {
        self.after_seeing(first_of(look.state.windows@, pad), look, zero)
    }

    /// The phase after the window was shown and put at `shown`. It is held to where it was put the
    /// first time.
    pub open spec fn after_reveal(self, shown: (F, F)) -> WaitView<F> {
        match self {
            WaitView::Placing { win } => WaitView::Checking { win, looks: 0, target: shown },
            WaitView::Correcting { win, looks, target } => if looks < CHECK_LOOKS {
                WaitView::Checking { win, looks, target }
            } else {
                WaitView::Over { found: true }
            },
            _ => self,
        }
    }

    /// Where the window should be found by the next look.
    pub open spec fn expects(self) -> Option<(F, F)> {
        match self {
            WaitView::Settling { before, .. } => before,
            WaitView::Checking { target, .. } => Some(target),
            _ => None,
        }
    }

    /// How far a phase in which the window has come is from the end.
    pub open spec fn distance(self) -> nat {
        match self {
            WaitView::Polling { .. } => 21,
            WaitView::Settling { looks, .. } => if looks >= SETTLE_LOOKS {
                9
            } else {
                (20 - looks) as nat
            },
            WaitView::Placing { .. } => 8,
            WaitView::Checking { looks, .. } => if looks >= CHECK_LOOKS {
                1
            } else {
                (7 - 2 * looks) as nat
            },
            WaitView::Correcting { looks, .. } => if looks < CHECK_LOOKS {
                (8 - 2 * looks) as nat
            } else {
                1
            },
            WaitView::Over { .. } => 0,
        }
    }
}

impl<F: Copy> WaitFor<F> {
    /// The start of waiting: look at once.
    pub fn start() -> (r: Self)
        ensures
            r@ == (WaitView::<F>::Polling { rest_ms: 0 }),
    {
        WaitFor::Polling { rest_ms: 0 }
    }

    /// What to do in this phase.
    pub fn action(&self, pad: &Pad) -> (r: WaitAction<F>)
        ensures
            r@ == self@.wants(pad@.spec.focus_on_show),
    {
        match self {
            WaitFor::Polling { rest_ms } => WaitAction::Look { after_ms: *rest_ms },
            WaitFor::Settling { win: _, looks: _, before: _ } => WaitAction::Look {
                after_ms: PLACEMENT_SETTLE_MS,
            },
            WaitFor::Placing { win } => WaitAction::Reveal {
                win: win.clone(),
                focus: pad.spec.focus_on_show,
            },
            WaitFor::Checking { win: _, looks: _, target: _ } => WaitAction::Look {
                after_ms: PLACEMENT_SETTLE_MS,
            },
            WaitFor::Correcting { win, looks: _, target: _ } => WaitAction::Reveal {
                win: win.clone(),
                focus: false,
            },
            WaitFor::Over { found } => WaitAction::Finish { found: *found },
        }
    }

    /// The phase after a look.
    pub fn looked(self, pad: &Pad, look: &Look<F>, zero: F) -> (r: Self)
        ensures
            r@ == self@.after_look(pad@, *look, zero),
    {
        self.saw(first_match(&look.state, pad), look, zero)
    }

    /// The phase after a look, where `come` is a window of the pad that was seen.
    pub fn saw(self, come: Option<&DriftWindow<F>>, look: &Look<F>, zero: F) -> (r: Self)
        ensures
            r@ == self@.after_seeing(
                match come {
                    Some(w) => Some(*w),
                    None => None,
                },
                *look,
                zero,
            ),
    {
        match self {
            WaitFor::Polling { rest_ms: _ } => match come {
                Some(w) => WaitFor::Settling {
                    win: Win {
                        key: text::signed_text(w.id),
                        app_id: w.app_id.clone(),
                        title: w.title.clone(),
                        hidden: false,
                        focused: false,
                        position: Some(wire::xy(&w.position, zero)),
                    },
                    looks: 0,
                    before: None,
                },
                None => if look.expired {
                    WaitFor::Over { found: false }
                } else {
                    WaitFor::Polling { rest_ms: POLL_INTERVAL_MS }
                },
            },
            WaitFor::Settling { win, looks, before: _ } => if look.same_place || looks
                >= SETTLE_LOOKS - 1 {
                WaitFor::Placing { win }
            } else {
                let before = look.state.position_of(win.key.as_str(), zero);
                WaitFor::Settling { win, looks: looks + 1, before }
            },
            WaitFor::Checking { win, looks, target } => if look.on_target || looks >= CHECK_LOOKS {
                WaitFor::Over { found: true }
            } else {
                WaitFor::Correcting { win, looks: looks + 1, target }
            },
            WaitFor::Placing { win } => WaitFor::Placing { win },
            WaitFor::Correcting { win, looks, target } => WaitFor::Correcting {
                win,
                looks,
                target,
            },
            WaitFor::Over { found } => WaitFor::Over { found },
        }
    }

    /// The phase after the window was shown and put at `shown`. It is held to where it was put the
    /// first time.
    pub fn revealed(self, shown: (F, F)) -> (r: Self)
        ensures
            r@ == self@.after_reveal(shown),
    {
        match self {
            WaitFor::Placing { win } => WaitFor::Checking { win, looks: 0, target: shown },
            WaitFor::Correcting { win, looks, target } => if looks < CHECK_LOOKS {
                WaitFor::Checking { win, looks, target }
            } else {
                WaitFor::Over { found: true }
            },
            WaitFor::Polling { rest_ms } => WaitFor::Polling { rest_ms },
            WaitFor::Settling { win, looks, before } => WaitFor::Settling { win, looks, before },
            WaitFor::Checking { win, looks, target } => WaitFor::Checking { win, looks, target },
            WaitFor::Over { found } => WaitFor::Over { found },
        }
    }

    /// Where the window should be found by the next look: where it was at the look before, or where
    /// it was put.
    pub fn expected(&self) -> (r: Option<(F, F)>)
        ensures
            r == self@.expects(),
    {
        match self {
            WaitFor::Settling { win: _, looks: _, before } => *before,
            WaitFor::Checking { win: _, looks: _, target } => Some(*target),
            WaitFor::Polling { rest_ms: _ } => None,
            WaitFor::Placing { win: _ } => None,
            WaitFor::Correcting { win: _, looks: _, target: _ } => None,
            WaitFor::Over { found: _ } => None,
        }
    }

    /// The window that is being placed.
    pub fn window(&self) -> (r: Option<&Win<F>>)
        ensures
            match r {
                Some(win) => match self@ {
                    WaitView::Settling { win: w, .. } => w == win@,
                    WaitView::Placing { win: w } => w == win@,
                    WaitView::Checking { win: w, .. } => w == win@,
                    WaitView::Correcting { win: w, .. } => w == win@,
                    _ => false,
                },
                None => self@ is Polling || self@ is Over,
            },
    {
        match self {
            WaitFor::Settling { win, looks: _, before: _ } => Some(win),
            WaitFor::Placing { win } => Some(win),
            WaitFor::Checking { win, looks: _, target: _ } => Some(win),
            WaitFor::Correcting { win, looks: _, target: _ } => Some(win),
            WaitFor::Polling { rest_ms: _ } => None,
            WaitFor::Over { found: _ } => None,
        }
    }
}

fn first_match<'a, F>(state: &'a DriftState<F>, pad: &Pad) -> (r: Option<&'a DriftWindow<F>>)
    ensures
        match r {
            Some(w) => first_of(state.windows@, pad@) == Some(*w),
            None => first_of(state.windows@, pad@) is None,
        },
{
    let mut i: usize = 0;
    assert(state.windows@.skip(0) =~= state.windows@);
    while i < state.windows.len()
        invariant
            i <= state.windows.len(),
            first_of(state.windows@, pad@) == first_of(state.windows@.skip(i as int), pad@),
        decreases state.windows.len() - i,
    {
        let w = &state.windows[i];
        if pad.matches(w.app_id.as_str(), w.title.as_str()) {
            return Some(w);
        }
        assert(state.windows@.skip(i as int).drop_first() =~= state.windows@.skip(i + 1));
        i += 1;
    }
    None
}

/// Once the window has come, waiting ends after a bounded number of looks and of showings, and it
/// ends well: every step that a phase asks for leads closer to the end, and none gives up.
pub proof fn law_a_window_that_came_is_placed<F>(
    phase: WaitView<F>,
    pad: PadView,
    look: Look<F>,
    zero: F,
    focus_on_show: bool,
    shown: (F, F),
)
    requires
        !(phase is Polling),
        !(phase is Over),
    ensures
        phase.distance() <= 20,
        phase.wants(focus_on_show) is Look ==> phase.after_look(pad, look, zero).distance()
            < phase.distance(),
        phase.wants(focus_on_show) is Reveal ==> phase.after_reveal(shown).distance()
            < phase.distance(),
        phase.after_look(pad, look, zero) != (WaitView::<F>::Over { found: false }),
        phase.after_reveal(shown) != (WaitView::<F>::Over { found: false }),
        !(phase.after_look(pad, look, zero) is Polling),
        !(phase.after_reveal(shown) is Polling),
{
}

/// A window that is shown again is held to where it was put the first time.
pub proof fn law_first_target_stands<F>(
    win: WinView<F>,
    first: (F, F),
    pad: PadView,
    look: Look<F>,
    zero: F,
    again: (F, F),
)
    ensures
        ({
            let checking = (WaitView::Placing { win }).after_reveal(first);
            let next = checking.after_look(pad, look, zero);
            &&& checking.expects() == Some(first)
            &&& next is Over <==> look.on_target
            &&& !look.on_target ==> next.after_reveal(again).expects() == Some(first)
        }),
{
}

/// Waiting gives up only when the time is over and no window of the pad has come.
pub proof fn law_giving_up_takes_the_whole_time<F>(
    rest_ms: u64,
    pad: PadView,
    look: Look<F>,
    zero: F,
)
    ensures
        (WaitView::<F>::Polling { rest_ms }).after_look(pad, look, zero) == (WaitView::<F>::Over {
            found: false,
        }) <==> look.expired && first_of(look.state.windows@, pad) is None,
{
}

} // verus!
