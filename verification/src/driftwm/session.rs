//! How windows are hidden on the canvas and shown again.

use super::wire;
use super::wire::DriftError;
use super::wire::DriftFault;
use super::wire::DriftState;
use super::wire::DriftWindow;
use crate::backend;
use crate::backend::Win;
use crate::backend::WinView;
use crate::config::Edge;
use crate::config::Extent;
use crate::config::HideMode;
use crate::config::Pad;
use crate::config::PadSpecView;
use crate::config::Size;
use crate::config::SizeError;
use crate::config::SizeFault;
use crate::config::SizeView;
use crate::paths;
use crate::positions;
use crate::positions::PadWinState;
use crate::positions::Positions;
use crate::positions::WinUpdate;
use crate::size;
use crate::text;
use vstd::prelude::*;

verus! {

/// The hiding spot, the same on both axes. It has to be far from everything in use: driftwm puts
/// new windows next to those that are there.
pub const HIDE_SPOT: i64 = 100_000_000;

/// How far from the hiding spot, on either axis, a window still counts as hidden.
pub const HIDE_SPOT_TOLERANCE: u32 = 5000;

/// The screen that is taken for granted where the configuration gives none.
pub const STANDARD_WIDTH: u32 = 1920;

pub const STANDARD_HEIGHT: u32 = 1080;

/// Whether a snapshot has the window: widgets and the placeholders of suspended windows are left
/// out. While a launched window is waited for, they do count; see `first_of`.
pub open spec fn is_proper<F>(w: DriftWindow<F>) -> bool {
    !w.is_widget && !w.suspended
}

/// A window of driftwm as seen by the operations.
pub open spec fn as_win<F>(w: DriftWindow<F>, transparent: bool, zero: F) -> WinView<F> {
    WinView {
        key: text::signed_decimal(w.id as int),
        app_id: w.app_id@,
        title: w.title@,
        hidden: w.stashed || transparent,
        focused: w.is_focused,
        position: Some(wire::point(w.position@, zero)),
    }
}

/// How large the screen is.
#[derive(Debug)]
pub enum Screen<F> {
    /// The configuration gives width and height.
    Given(F, F),
    /// It does not.
    Standard { width: u32, height: u32 },
}

/// How driftwm is to be used.
#[derive(Debug)]
pub struct DriftSession<F> {
    /// Where positions are remembered between runs.
    pub positions_path: String,
    pub viewport: Screen<F>,
    pub hide_mode: HideMode,
}

/// Where on the canvas.
#[derive(Debug)]
pub enum Place<F> {
    /// Where the camera looks: the centre of the view.
    Camera,
    /// The hiding spot.
    HideSpot,
    /// Here.
    At((F, F)),
    /// At an edge of the view, `margin` screen pixels away from it.
    Docked { edge: Edge, margin: u32 },
}

/// How large.
#[derive(Debug, Clone, Copy, PartialEq, Eq, Structural)]
pub enum Span {
    /// As large as the view.
    View,
    /// As large as the pad wants it.
    Wanted,
}

/// One thing to ask of driftwm about a window.
#[derive(Debug)]
pub enum DriftStep<F> {
    Move(Place<F>),
    Resize(Span),
    /// 0 is transparent, 1 opaque.
    Opacity(u32),
    /// Focus the window and keep the camera where it is; see `CameraHold`.
    Focus,
    /// Leave or enter full screen.
    ToggleFullscreen,
}

/// What to remember, and then what to ask of driftwm, to hide a window.
#[derive(Debug)]
pub struct Hiding<F> {
    pub record: WinUpdate<F>,
    pub steps: Vec<DriftStep<F>>,
}

pub struct HidingView<F> {
    pub record: WinUpdate<F>,
    pub steps: Seq<DriftStep<F>>,
}

impl<F> View for Hiding<F> {
    type V = HidingView<F>;

    open spec fn view(&self) -> HidingView<F> {
        HidingView { record: self.record, steps: self.steps@ }
    }
}

/// What to remember, and then what to ask of driftwm, to show a window; and where it then is.
#[derive(Debug)]
pub struct Revealing<F> {
    pub record: Option<WinUpdate<F>>,
    pub steps: Vec<DriftStep<F>>,
    pub target: Place<F>,
}

pub struct RevealingView<F> {
    pub record: Option<WinUpdate<F>>,
    pub steps: Seq<DriftStep<F>>,
    pub target: Place<F>,
}

impl<F> View for Revealing<F> {
    type V = RevealingView<F>;

    open spec fn view(&self) -> RevealingView<F> {
        RevealingView { record: self.record, steps: self.steps@, target: self.target }
    }
}

/// The extent of a window along one side, in screen pixels once it is computed.
#[derive(Debug)]
pub enum Side<F> {
    /// As the pad says.
    Screen(Extent),
    /// As it is now, measured on the canvas.
    Canvas(F),
}

/// The side that a pad wants, or that the window keeps.
pub open spec fn wanted_side<F>(size: Option<SizeView>, own: F) -> Result<Side<F>, SizeFault> {
    match size {
        None => Ok(Side::Canvas(own)),
        Some(size) => match size.extent() {
            Ok(extent) => Ok(Side::Screen(extent)),
            Err(fault) => Err(fault),
        },
    }
}

impl<F: Copy> Place<F> {
    /// A copy of the place.
    pub fn copy(&self) -> (r: Self)
        ensures
            r == *self,
    {
        match self {
            Place::Camera => Place::Camera,
            Place::HideSpot => Place::HideSpot,
            Place::At(p) => Place::At(*p),
            Place::Docked { edge, margin } => Place::Docked { edge: *edge, margin: *margin },
        }
    }
}

/// The step of focusing, where it is asked for.
pub open spec fn focus_steps<F>(focus: bool) -> Seq<DriftStep<F>> {
    if focus {
        seq![DriftStep::Focus]
    } else {
        Seq::empty()
    }
}

/// Where a window is shown. A pad with a geometry docks it, provided that its extent is known.
/// Without one it goes back to where it was before it was hidden, but only into the view: else it
/// comes to the centre of the view.
pub open spec fn reveal_target<F>(
    spec: PadSpecView,
    saved: Option<(F, F)>,
    sized: bool,
    saved_in_view: bool,
) -> Place<F> {
    if spec.has_geometry() && sized {
        Place::Docked {
            edge: match spec.edge {
                Some(edge) => edge,
                None => Edge::Top,
            },
            margin: spec.margin,
        }
    } else {
        match saved {
            Some(pos) if saved_in_view => Place::At(pos),
            _ => Place::Camera,
        }
    }
}

/// How a window is shown.
/// - One that is transparent becomes opaque where it is.
/// - One that is to fill the view is moved to its centre and resized.
/// - Any other is first moved to the centre of the view, where focusing it does not draw the
///   camera away, is resized and focused there, and only then moved to where it belongs.
pub open spec fn reveal_plan<F>(
    mode: HideMode,
    spec: PadSpecView,
    focus: bool,
    current: Option<DriftWindow<F>>,
    saved: Option<(F, F)>,
    sized: bool,
    saved_in_view: bool,
    zero: F,
) -> Result<RevealingView<F>, SizeFault> {
    if mode == HideMode::Opacity {
        Ok(
            RevealingView {
                record: Some(WinUpdate::Opacity(false)),
                steps: seq![DriftStep::Opacity(1)] + focus_steps(focus),
                target: Place::At(
                    match current {
                        Some(w) => wire::point(w.position@, zero),
                        None => (zero, zero),
                    },
                ),
            },
        )
    } else if spec.fullscreen {
        Ok(
            RevealingView {
                record: None,
                steps: seq![DriftStep::Move(Place::Camera), DriftStep::Resize(Span::View)]
                    + focus_steps(focus),
                target: Place::Camera,
            },
        )
    } else {
        match (wanted_side(spec.width, zero), wanted_side(spec.height, zero)) {
            (Err(fault), _) => Err(fault),
            (_, Err(fault)) => Err(fault),
            _ => {
                let target = reveal_target(spec, saved, sized, saved_in_view);
                Ok(
                    RevealingView {
                        record: None,
                        steps: seq![DriftStep::Move(Place::Camera)] + (if (spec.width is Some
                            || spec.height is Some) && current is Some {
                            seq![DriftStep::Resize(Span::Wanted)]
                        } else {
                            Seq::empty()
                        }) + focus_steps(focus) + seq![DriftStep::Move(target)],
                        target,
                    },
                )
            },
        }
    }
}

/// How a window is hidden: one that is hidden already is left alone.
pub open spec fn hide_plan<F>(mode: HideMode, win: WinView<F>) -> Option<HidingView<F>> {
    if win.hidden {
        None
    } else if mode == HideMode::Opacity {
        Some(HidingView { record: WinUpdate::Opacity(true), steps: seq![DriftStep::Opacity(0)] })
    } else {
        Some(
            HidingView {
                record: WinUpdate::Stash(win.position),
                steps: seq![DriftStep::Move(Place::HideSpot)],
            },
        )
    }
}

/// Width and height that a pad wants for a window, or that the window keeps.
pub open spec fn wanted_extent<F>(
    spec: PadSpecView,
    current: Option<DriftWindow<F>>,
    zero: F,
) -> Result<(Side<F>, Side<F>), SizeFault> {
    let own = match current {
        Some(w) => wire::point(w.size@, zero),
        None => (zero, zero),
    };
    match (wanted_side(spec.width, own.0), wanted_side(spec.height, own.1)) {
        (Err(fault), _) => Err(fault),
        (_, Err(fault)) => Err(fault),
        (Ok(width), Ok(height)) => Ok((width, height)),
    }
}

/// Whether windows are hidden by transparency and the one with this id is.
pub open spec fn seen_through<F>(
    mode: HideMode,
    all: Map<Seq<char>, Map<Seq<char>, PadWinState<F>>>,
    id: i64,
) -> bool {
    mode == HideMode::Opacity && positions::transparent(all, text::signed_decimal(id as int))
}

/// The windows that operations see, in the order of driftwm.
pub open spec fn proper_windows<F>(
    mode: HideMode,
    windows: Seq<DriftWindow<F>>,
    all: Map<Seq<char>, Map<Seq<char>, PadWinState<F>>>,
    zero: F,
) -> Seq<WinView<F>> {
    windows.filter(|w: DriftWindow<F>| is_proper(w)).map_values(
        |w: DriftWindow<F>| as_win(w, seen_through(mode, all, w.id), zero),
    )
}

fn side_of<F: Copy>(size: &Option<Size>, own: F) -> (r: Result<Side<F>, SizeError>)
    ensures
        match r {
            Ok(side) => wanted_side(size::optional_size(*size), own) == Ok::<
                Side<F>,
                SizeFault,
            >(side),
            Err(e) => wanted_side(size::optional_size(*size), own) == Err::<
                Side<F>,
                SizeFault,
            >(e@),
        },
{
    match size {
        None => Ok(Side::Canvas(own)),
        Some(size) => match size.resolve_px() {
            Ok(extent) => Ok(Side::Screen(extent)),
            Err(e) => Err(e),
        },
    }
}

/// Width and height that a pad wants for a window, or that the window keeps. A window that is not
/// there keeps nothing.
pub fn wanted_sides<F: Copy>(
    pad: &Pad,
    state: &DriftState<F>,
    key: &str,
    zero: F,
) -> (r: Result<(Side<F>, Side<F>), SizeError>)
    ensures
        ({
            let own = match wire::find_window(state.windows@, key@) {
                Some(w) => wire::point(w.size@, zero),
                None => (zero, zero),
            };
            let width = wanted_side(pad@.spec.width, own.0);
            let height = wanted_side(pad@.spec.height, own.1);
            match r {
                Ok(sides) => width == Ok::<Side<F>, SizeFault>(sides.0) && height == Ok::<
                    Side<F>,
                    SizeFault,
                >(sides.1),
                Err(e) => width == Err::<Side<F>, SizeFault>(e@) || (width is Ok && height == Err::<
                    Side<F>,
                    SizeFault,
                >(e@)),
            }
        }),
        ({
            let wanted = wanted_extent(
                pad@.spec,
                wire::find_window(state.windows@, key@),
                zero,
            );
            match r {
                Ok(sides) => wanted == Ok::<(Side<F>, Side<F>), SizeFault>(sides),
                Err(e) => wanted == Err::<(Side<F>, Side<F>), SizeFault>(e@),
            }
        }),
{
    let own = match state.find(key) {
        Some(w) => wire::xy(&w.size, zero),
        None => (zero, zero),
    };
    match side_of(&pad.spec.width, own.0) {
        Err(e) => Err(e),
        Ok(width) => match side_of(&pad.spec.height, own.1) {
            Err(e) => Err(e),
            Ok(height) => Ok((width, height)),
        },
    }
}

fn key_listed(list: &Vec<(String, Vec<String>)>, key: &str) -> (r: bool)
    ensures
        r == exists|pad: Seq<char>| #[trigger] positions::listed(list@, pad, key@),
{
    let mut i: usize = 0;
    while i < list.len()
        invariant
            i <= list.len(),
            forall|k: int, j: int|
                0 <= k < i && 0 <= j < list@[k].1@.len() ==> (#[trigger] list@[k].1@[j])@ != key@,
        decreases list.len() - i,
    {
        let keys = &list[i].1;
        let mut j: usize = 0;
        while j < keys.len()
            invariant
                i < list.len(),
                keys == list@[i as int].1,
                j <= keys.len(),
                forall|k: int| 0 <= k < j ==> (#[trigger] keys@[k])@ != key@,
            decreases keys.len() - j,
        {
            if text::same_text(keys[j].as_str(), key) {
                assert(list@[i as int].1@[j as int]@ == key@);
                assert(positions::listed(list@, list@[i as int].0@, key@));
                return true;
            }
            j += 1;
        }
        i += 1;
    }
    false
}

impl<F: Copy> DriftSession<F> {
    /// A session by the configuration and the environment.
    pub fn new(
        viewport: Option<(F, F)>,
        hide_mode: HideMode,
        xdg_cache_home: Option<&str>,
        home: Option<&str>,
    ) -> (r: Result<Self, DriftError>)
        ensures
            match r {
                Ok(session) => {
                    &&& paths::cache_by_environment(xdg_cache_home, home) is Some
                    &&& session.positions_path@ == paths::below(
                        paths::cache_by_environment(xdg_cache_home, home)->0,
                        "positions.json"@,
                    )
                    &&& session.viewport == match viewport {
                        Some((width, height)) => Screen::Given(width, height),
                        None => Screen::Standard { width: 1920, height: 1080 },
                    }
                    &&& session.hide_mode == hide_mode
                },
                Err(e) => {
                    &&& paths::cache_by_environment(xdg_cache_home, home) is None
                    &&& e@ == DriftFault::NoCacheDir
                },
            },
    {
        match paths::cache_dir(xdg_cache_home, home) {
            Some(dir) => Ok(
                DriftSession {
                    positions_path: paths::join_path(dir.as_str(), "positions.json"),
                    viewport: match viewport {
                        Some((width, height)) => Screen::Given(width, height),
                        None => Screen::Standard { width: STANDARD_WIDTH, height: STANDARD_HEIGHT },
                    },
                    hide_mode,
                },
            ),
            None => Err(DriftError::NoCacheDir),
        }
    }

    /// The windows of the canvas but for widgets and placeholders. Hidden are those at the hiding
    /// spot and, where windows are hidden by transparency, those that are remembered as
    /// transparent.
    pub fn snapshot(&self, state: &DriftState<F>, positions: &Positions<F>, zero: F) -> (r: Vec<
        Win<F>,
    >)
        ensures
            backend::win_views(r@) == proper_windows(
                self.hide_mode,
                state.windows@,
                positions@,
                zero,
            ),
    {
        let transparent = if self.hide_mode == HideMode::Opacity {
            positions.opacity_hidden_keys()
        } else {
            Vec::new()
        };
        let ghost proper = |w: DriftWindow<F>| is_proper(w);
        let ghost seen = |w: DriftWindow<F>|
            as_win(w, seen_through(self.hide_mode, positions@, w.id), zero);
        let mut wins: Vec<Win<F>> = Vec::new();
        let mut i: usize = 0;
        proof {
            reveal(Seq::filter);
            assert(proper_windows(self.hide_mode, state.windows@.take(0), positions@, zero)
                =~= Seq::empty());
            assert(backend::win_views(wins@) =~= Seq::empty());
        }
        while i < state.windows.len()
            invariant
                i <= state.windows.len(),
                proper == (|w: DriftWindow<F>| is_proper(w)),
                seen == (|w: DriftWindow<F>|
                    as_win(w, seen_through(self.hide_mode, positions@, w.id), zero)),
                backend::win_views(wins@) == proper_windows(
                    self.hide_mode,
                    state.windows@.take(i as int),
                    positions@,
                    zero,
                ),
                self.hide_mode == HideMode::Opacity ==> forall|pad: Seq<char>, key: Seq<char>|
                    #![trigger positions::listed(transparent@, pad, key)]
                    #![trigger positions::memory_of(positions@, pad, key)]
                    positions::listed(transparent@, pad, key) <==> (positions::memory_of(
                        positions@,
                        pad,
                        key,
                    ) matches Some(s) && s.opacity_hidden),
                self.hide_mode == HideMode::Move ==> transparent.len() == 0,
            decreases state.windows.len() - i,
        {
            let w = &state.windows[i];
            let ghost front = state.windows@.take(i as int);
            proof {
                reveal(Seq::filter);
                assert(state.windows@.take(i + 1).drop_last() =~= front);
            }
            if !w.is_widget && !w.suspended {
                let key = text::signed_text(w.id);
                let see_through = key_listed(&transparent, key.as_str());
                proof {
                    if self.hide_mode == HideMode::Opacity {
                        if see_through {
                            let pad = choose|pad: Seq<char>| #[trigger]
                                positions::listed(transparent@, pad, key@);
                            assert(positions::memory_of(positions@, pad, key@) is Some);
                        }
                        if positions::transparent(positions@, key@) {
                            let pad = choose|pad: Seq<char>|
                                (#[trigger] positions::memory_of(positions@, pad, key@)) matches Some(
                                    s,
                                ) && s.opacity_hidden;
                            assert(positions::listed(transparent@, pad, key@));
                        }
                    }
                    assert(see_through == seen_through(self.hide_mode, positions@, w.id));
                }
                let win = Win {
                    key,
                    app_id: w.app_id.clone(),
                    title: w.title.clone(),
                    hidden: w.stashed || see_through,
                    focused: w.is_focused,
                    position: Some(wire::xy(&w.position, zero)),
                };
                let ghost before = wins@;
                wins.push(win);
                assert(backend::win_views(wins@) =~= backend::win_views(before).push(seen(*w)));
                assert(front.filter(proper).push(*w).map_values(seen) =~= front.filter(
                    proper,
                ).map_values(seen).push(seen(*w)));
            }
            i += 1;
        }
        assert(state.windows@.take(i as int) =~= state.windows@);
        wins
    }

    /// How to hide a window. One that is hidden is left alone: what is remembered of it is where
    /// it was before.
    pub fn hide_window(&self, win: &Win<F>) -> (r: Option<Hiding<F>>)
        ensures
            match r {
                None => win.hidden,
                Some(hiding) => !win.hidden && match self.hide_mode {
                    HideMode::Opacity => {
                        &&& hiding.record == WinUpdate::<F>::Opacity(true)
                        &&& hiding.steps@ == seq![DriftStep::<F>::Opacity(0)]
                    },
                    HideMode::Move => {
                        &&& hiding.record == WinUpdate::Stash(win.position)
                        &&& hiding.steps@ == seq![DriftStep::<F>::Move(Place::HideSpot)]
                    },
                },
            },
            match r {
                None => hide_plan(self.hide_mode, win@) is None,
                Some(hiding) => hide_plan(self.hide_mode, win@) == Some(hiding@),
            },
    {
        if win.hidden {
            return None;
        }
        let mut steps: Vec<DriftStep<F>> = Vec::new();
        match self.hide_mode {
            HideMode::Opacity => {
                steps.push(DriftStep::Opacity(0));
                assert(steps@ =~= seq![DriftStep::<F>::Opacity(0)]);
                Some(Hiding { record: WinUpdate::Opacity(true), steps })
            },
            HideMode::Move => {
                steps.push(DriftStep::Move(Place::HideSpot));
                assert(steps@ =~= seq![DriftStep::<F>::Move(Place::HideSpot)]);
                Some(Hiding { record: WinUpdate::Stash(win.position), steps })
            },
        }
    }

    /// What to do where the step that hides a window fails: a window in full screen cannot be
    /// moved, and the complaint is all that tells of it. It is focused, taken out of full screen
    /// and moved. Any other complaint stands.
    pub fn hide_after_failure(&self, complaint: &str) -> (r: Option<Vec<DriftStep<F>>>)
        ensures
            match r {
                Some(steps) => {
                    &&& self.hide_mode == HideMode::Move && text::occurs("fullscreen"@, complaint@)
                    &&& steps@ == seq![
                        DriftStep::<F>::Focus,
                        DriftStep::ToggleFullscreen,
                        DriftStep::Move(Place::HideSpot),
                    ]
                },
                None => self.hide_mode == HideMode::Opacity || !text::occurs(
                    "fullscreen"@,
                    complaint@,
                ),
            },
    {
        if self.hide_mode == HideMode::Opacity || !text::contains(complaint, "fullscreen") {
            return None;
        }
        let mut steps: Vec<DriftStep<F>> = Vec::new();
        steps.push(DriftStep::Focus);
        steps.push(DriftStep::ToggleFullscreen);
        steps.push(DriftStep::Move(Place::HideSpot));
        assert(steps@ =~= seq![
            DriftStep::<F>::Focus,
            DriftStep::ToggleFullscreen,
            DriftStep::Move(Place::HideSpot),
        ]);
        Some(steps)
    }

    /// Where a window was before it was hidden.
    pub fn saved_position(&self, pad: &Pad, win: &Win<F>, positions: &Positions<F>) -> (r: Option<
        (F, F),
    >)
        ensures
            r == saved_of(positions@, pad@.name, win.key@),
    {
        match positions.memory(pad.name.as_str(), win.key.as_str()) {
            Some(state) => state.pos,
            None => None,
        }
    }

    /// How to show a window. `sized` says whether both sides of `wanted_sides` are more than
    /// nothing, `saved_in_view` whether the saved position is in the view.
    pub fn reveal_window(
        &self,
        pad: &Pad,
        win: &Win<F>,
        focus: bool,
        state: &DriftState<F>,
        positions: &Positions<F>,
        sized: bool,
        saved_in_view: bool,
        zero: F,
    ) -> (r: Result<Revealing<F>, SizeError>)
        ensures
            ({
                let plan = reveal_plan(
                    self.hide_mode,
                    pad@.spec,
                    focus,
                    wire::find_window(state.windows@, win.key@),
                    saved_of(positions@, pad@.name, win.key@),
                    sized,
                    saved_in_view,
                    zero,
                );
                match r {
                    Ok(revealing) => plan == Ok::<RevealingView<F>, SizeFault>(revealing@),
                    Err(e) => plan == Err::<RevealingView<F>, SizeFault>(e@),
                }
            }),
    {
        let current = state.find(win.key.as_str());
        let mut steps: Vec<DriftStep<F>> = Vec::new();
        if self.hide_mode == HideMode::Opacity {
            steps.push(DriftStep::Opacity(1));
            if focus {
                steps.push(DriftStep::Focus);
            }
            assert(steps@ =~= seq![DriftStep::<F>::Opacity(1)] + focus_steps(focus));
            let at = match current {
                Some(w) => wire::xy(&w.position, zero),
                None => (zero, zero),
            };
            return Ok(
                Revealing {
                    record: Some(WinUpdate::Opacity(false)),
                    steps,
                    target: Place::At(at),
                },
            );
        }
        steps.push(DriftStep::Move(Place::Camera));
        if pad.spec.fullscreen {
            steps.push(DriftStep::Resize(Span::View));
            if focus {
                steps.push(DriftStep::Focus);
            }
            assert(steps@ =~= seq![
                DriftStep::<F>::Move(Place::Camera),
                DriftStep::Resize(Span::View),
            ] + focus_steps(focus));
            return Ok(Revealing { record: None, steps, target: Place::Camera });
        }
        if let Err(e) = side_of(&pad.spec.width, zero) {
            return Err(e);
        }
        if let Err(e) = side_of(&pad.spec.height, zero) {
            return Err(e);
        }
        let target = if pad.has_geometry() && sized {
            Place::Docked {
                edge: match pad.spec.edge {
                    Some(edge) => edge,
                    None => Edge::Top,
                },
                margin: pad.spec.margin,
            }
        } else {
            match self.saved_position(pad, win, positions) {
                Some(pos) => if saved_in_view {
                    Place::At(pos)
                } else {
                    Place::Camera
                },
                None => Place::Camera,
            }
        };
        let resize = (pad.spec.width.is_some() || pad.spec.height.is_some()) && current.is_some();
        if resize {
            steps.push(DriftStep::Resize(Span::Wanted));
        }
        if focus {
            steps.push(DriftStep::Focus);
        }
        steps.push(DriftStep::Move(target.copy()));
        assert(steps@ =~= seq![DriftStep::<F>::Move(Place::Camera)] + (if resize {
            seq![DriftStep::<F>::Resize(Span::Wanted)]
        } else {
            Seq::empty()
        }) + focus_steps(focus) + seq![DriftStep::Move(target)]);
        Ok(Revealing { record: None, steps, target })
    }
}

/// Where a window of a pad was before it was hidden.
pub open spec fn saved_of<F>(
    all: Map<Seq<char>, Map<Seq<char>, PadWinState<F>>>,
    pad: Seq<char>,
    key: Seq<char>,
) -> Option<(F, F)> {
    match positions::memory_of(all, pad, key) {
        Some(state) => state.pos,
        None => None,
    }
}

/// Where a docked window lies along one axis of the view.
#[derive(Debug, Clone, Copy, PartialEq, Eq, Structural)]
pub enum Stop {
    /// At the left or lower edge, the margin away from it.
    Low,
    /// In the middle; the margin does not count.
    Middle,
    /// At the right or upper edge, the margin away from it.
    High,
}

impl Stop {
    /// The same place seen from the other end.
    pub open spec fn mirrored(self) -> Stop {
        match self {
            Stop::Low => Stop::High,
            Stop::Middle => Stop::Middle,
            Stop::High => Stop::Low,
        }
    }
}

impl Edge {
    /// Where a window that docks here lies along the horizontal and the vertical axis. The vertical
    /// axis points upwards.
    pub open spec fn stops(self) -> (Stop, Stop) {
        match self {
            Edge::Top => (Stop::Middle, Stop::High),
            Edge::Bottom => (Stop::Middle, Stop::Low),
            Edge::Left => (Stop::Low, Stop::Middle),
            Edge::Right => (Stop::High, Stop::Middle),
            Edge::Center => (Stop::Middle, Stop::Middle),
        }
    }

    /// The edge across.
    pub open spec fn opposite(self) -> Edge {
        match self {
            Edge::Top => Edge::Bottom,
            Edge::Bottom => Edge::Top,
            Edge::Left => Edge::Right,
            Edge::Right => Edge::Left,
            Edge::Center => Edge::Center,
        }
    }
}

/// Where a window that docks at an edge lies along the horizontal and the vertical axis.
pub fn edge_position(edge: Edge) -> (r: (Stop, Stop))
    ensures
        r == edge.stops(),
{
    match edge {
        Edge::Top => (Stop::Middle, Stop::High),
        Edge::Bottom => (Stop::Middle, Stop::Low),
        Edge::Left => (Stop::Low, Stop::Middle),
        Edge::Right => (Stop::High, Stop::Middle),
        Edge::Center => (Stop::Middle, Stop::Middle),
    }
}

/// Docking at opposite edges mirrors the window about the centre of the view, and no edge but the
/// centre leaves both axes in the middle.
pub proof fn law_opposite_edges_mirror(edge: Edge)
    ensures
        edge.opposite().stops().0 == edge.stops().0.mirrored(),
        edge.opposite().stops().1 == edge.stops().1.mirrored(),
        edge.stops() == (Stop::Middle, Stop::Middle) <==> edge == Edge::Center,
{
}

/// A window that was hidden by moving goes back to where it was, as long as this is in the view and
/// its pad gives it no geometry.
pub proof fn law_hidden_windows_return<F: Copy>(
    all: Map<Seq<char>, Map<Seq<char>, PadWinState<F>>>,
    pad: Seq<char>,
    spec: PadSpecView,
    key: Seq<char>,
    pos: (F, F),
    focus: bool,
    current: Option<DriftWindow<F>>,
    sized: bool,
    zero: F,
)
    requires
        !spec.has_geometry(),
    ensures
        ({
            let after = positions::updated(all, pad, key, WinUpdate::Stash(Some(pos)));
            let plan = reveal_plan(
                HideMode::Move,
                spec,
                focus,
                current,
                saved_of(after, pad, key),
                sized,
                true,
                zero,
            );
            &&& plan is Ok
            &&& plan->Ok_0.target == Place::At(pos)
            &&& plan->Ok_0.steps.last() == DriftStep::Move(Place::At(pos))
        }),
{
    positions::law_changes_are_remembered(all, pad, key, WinUpdate::Stash(Some(pos)), pad, key);
}

/// A shown window always comes into the view: it is docked there, goes to its centre, or goes back
/// to a saved position that is in it.
pub proof fn law_shown_windows_are_in_view<F>(
    spec: PadSpecView,
    focus: bool,
    current: Option<DriftWindow<F>>,
    saved: Option<(F, F)>,
    sized: bool,
    saved_in_view: bool,
    zero: F,
)
    ensures
        ({
            let plan = reveal_plan(
                HideMode::Move,
                spec,
                focus,
                current,
                saved,
                sized,
                saved_in_view,
                zero,
            );
            plan matches Ok(plan) ==> {
                &&& plan.target != Place::<F>::HideSpot
                &&& plan.target matches Place::At(pos) ==> saved_in_view && saved == Some(pos)
                &&& !spec.fullscreen ==> plan.steps.last() == DriftStep::Move(plan.target)
            }
        }),
{
}

/// A window is at the centre of the view when it gets the focus, so that focusing it does not draw
/// the camera away; it goes where it belongs only afterwards.
pub proof fn law_focus_comes_before_docking<F>(
    spec: PadSpecView,
    focus: bool,
    current: Option<DriftWindow<F>>,
    saved: Option<(F, F)>,
    sized: bool,
    saved_in_view: bool,
    zero: F,
)
    ensures
        ({
            let plan = reveal_plan(
                HideMode::Move,
                spec,
                focus,
                current,
                saved,
                sized,
                saved_in_view,
                zero,
            );
            plan matches Ok(plan) ==> {
                &&& plan.steps[0] == DriftStep::<F>::Move(Place::Camera)
                &&& forall|i: int, j: int|
                    #![trigger plan.steps[i], plan.steps[j]]
                    0 <= i < j < plan.steps.len() && plan.steps[j] == DriftStep::<F>::Focus
                        && plan.steps[i] is Move ==> plan.steps[i] == DriftStep::<F>::Move(
                        Place::Camera,
                    )
                &&& focus <==> plan.steps.contains(DriftStep::<F>::Focus)
            }
        }),
{
    let plan = reveal_plan(
        HideMode::Move,
        spec,
        focus,
        current,
        saved,
        sized,
        saved_in_view,
        zero,
    );
    if let Ok(plan) = plan {
        if focus {
            let at = if spec.fullscreen || ((spec.width is Some || spec.height is Some)
                && current is Some) {
                2int
            } else {
                1int
            };
            assert(plan.steps[at] == DriftStep::<F>::Focus);
        }
    }
}

/// For a window that fills the view, width, height, edge and margin do not count.
pub proof fn law_fullscreen_ignores_geometry<F>(
    a: PadSpecView,
    b: PadSpecView,
    focus: bool,
    current: Option<DriftWindow<F>>,
    saved: Option<(F, F)>,
    sized: (bool, bool),
    saved_in_view: (bool, bool),
    zero: F,
)
    requires
        a.fullscreen,
        b.fullscreen,
    ensures
        reveal_plan(HideMode::Move, a, focus, current, saved, sized.0, saved_in_view.0, zero)
            == reveal_plan(
            HideMode::Move,
            b,
            focus,
            current,
            saved,
            sized.1,
            saved_in_view.1,
            zero,
        ),
{
}

/// A window that a pad hides by transparency counts as hidden until the pad shows it again.
pub proof fn law_transparency_is_undone<F: Copy>(
    all: Map<Seq<char>, Map<Seq<char>, PadWinState<F>>>,
    pad: Seq<char>,
    key: Seq<char>,
)
    requires
        !positions::transparent(all, key),
    ensures
        ({
            let hidden = positions::updated(all, pad, key, WinUpdate::Opacity(true));
            &&& positions::transparent(hidden, key)
            &&& !positions::transparent(
                positions::updated(hidden, pad, key, WinUpdate::Opacity(false)),
                key,
            )
        }),
{
    let hidden = positions::updated(all, pad, key, WinUpdate::Opacity(true));
    let shown = positions::updated(hidden, pad, key, WinUpdate::Opacity(false));
    positions::law_changes_are_remembered(all, pad, key, WinUpdate::Opacity(true), pad, key);
    assert(positions::memory_of(hidden, pad, key)->0.opacity_hidden);
    assert forall|p: Seq<char>|
        (#[trigger] positions::memory_of(shown, p, key)) is Some implies !positions::memory_of(
            shown,
            p,
            key,
        )->0.opacity_hidden by {
        positions::law_changes_are_remembered(
            hidden,
            pad,
            key,
            WinUpdate::Opacity(false),
            p,
            key,
        );
        positions::law_changes_are_remembered(all, pad, key, WinUpdate::Opacity(true), p, key);
        if p != pad {
            assert(positions::memory_of(shown, p, key) == positions::memory_of(all, p, key));
        }
    }
}

} // verus!
