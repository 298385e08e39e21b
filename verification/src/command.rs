//! From what the user asks for to what is done: backends, waiting times and operations.

use crate::backend::Win;
use crate::config;
use crate::config::BackendKind;
use crate::config::Config;
use crate::config::ConfigError;
use crate::config::ConfigFault;
use crate::config::HideMode;
use crate::config::Pad;
use crate::config::PadView;
use crate::ops;
use crate::ops::OpError;
use crate::ops::OpFault;
use crate::ops::Request;
use crate::ops::Step;
use crate::ops::StepView;
use crate::pad;
use vstd::prelude::*;

verus! {

/// What can be done with a pad.
#[derive(Debug, Clone, Copy, PartialEq, Eq, Structural)]
pub enum PadCommand {
    Toggle,
    Show,
    Hide,
    Close,
}

impl PadCommand {
    /// Whether the command can show windows.
    pub open spec fn shows(self) -> bool {
        self == PadCommand::Toggle || self == PadCommand::Show
    }
}

/// The next step of a command, by the windows of a snapshot.
pub open spec fn next_step<F>(
    command: PadCommand,
    pad: PadView,
    wins: Seq<Win<F>>,
    second_look: bool,
) -> Result<StepView<F>, OpFault> {
    match command {
        PadCommand::Toggle => ops::toggle_step(pad, wins, second_look),
        PadCommand::Show => ops::show_group_step(
            pad,
            ops::belonging(wins, pad),
            second_look,
        ),
        PadCommand::Hide => Ok(ops::hide_group_step(pad, ops::belonging(wins, pad))),
        PadCommand::Close => Ok(ops::close_group_step(pad, ops::belonging(wins, pad))),
    }
}

/// Finds the next step of a command, by the windows of a snapshot.
pub fn run<F: Copy>(command: PadCommand, pad: &Pad, wins: &Vec<Win<F>>, second_look: bool) -> (r:
    Result<Step<F>, OpError>)
    ensures
        ops::outcome(r) == next_step(command, pad@, wins@, second_look),
{
    match command {
        PadCommand::Toggle => ops::toggle(pad, wins, second_look),
        PadCommand::Show => ops::show(pad, wins, second_look),
        PadCommand::Hide => Ok(ops::hide_windows(pad, wins)),
        PadCommand::Close => Ok(ops::close(pad, wins)),
    }
}

/// No command looks more than twice: at the second look it acts, launches or fails.
pub proof fn law_two_looks_are_enough<F>(command: PadCommand, pad: PadView, wins: Seq<Win<F>>)
    ensures
        next_step(command, pad, wins, true) matches Ok(step) ==> !(step is LookAgain),
{
}

/// A command touches no window of another pad, and treats all windows of its own pad as one group:
/// where it acts, its requests are about exactly the windows of the snapshot that belong to the
/// pad.
pub proof fn law_commands_act_on_the_whole_group<F>(
    command: PadCommand,
    pad: PadView,
    wins: Seq<Win<F>>,
    second_look: bool,
    requests: Seq<Request<F>>,
    report: Seq<char>,
    win: Win<F>,
)
    requires
        next_step(command, pad, wins, second_look) == Ok::<StepView<F>, OpFault>(
            StepView::Act { requests, report },
        ),
    ensures
        (exists|i: int|
            0 <= i < requests.len() && ops::subject(#[trigger] requests[i]) == Some(win)) <==> (
        wins.contains(win) && ops::belongs(win, pad)),
{
    let mine = ops::belonging(wins, pad);
    ops::lemma_belonging(wins, pad, win);
    if mine.contains(win) {
        let i = choose|i: int| 0 <= i < mine.len() && mine[i] == win;
        assert(ops::subject(requests[i]) == Some(win));
    }
    if exists|i: int| 0 <= i < requests.len() && ops::subject(#[trigger] requests[i]) == Some(win) {
        let i = choose|i: int|
            0 <= i < requests.len() && ops::subject(#[trigger] requests[i]) == Some(win);
        assert(i < mine.len());
        assert(mine[i] == win);
    }
}

/// What to warn of before a command is run: that the backend cannot size and place windows,
/// where the command shows them and the pad wants it.
pub fn warning(command: PadCommand, backend: &str, pad: &Pad) -> (r: Option<String>)
    ensures
        match r {
            Some(w) => command.shows() && ops::geometry_warning(backend@, pad@) == Some(w@),
            None => !command.shows() || ops::geometry_warning(backend@, pad@) is None,
        },
{
    match command {
        PadCommand::Toggle => ops::warn_unsupported_geometry(backend, pad),
        PadCommand::Show => ops::warn_unsupported_geometry(backend, pad),
        PadCommand::Hide => None,
        PadCommand::Close => None,
    }
}

/// How long to wait for a launched window, by what the user, the pad and the configuration say.
pub open spec fn waiting_time(asked: Option<u64>, own: Option<u64>, general: u64) -> u64 {
    match (asked, own) {
        (Some(ms), _) => ms,
        (None, Some(ms)) => ms,
        (None, None) => general,
    }
}

/// How long to wait for a launched window. What the user says on the command line counts first,
/// then the pad, then the configuration.
pub fn wait<F: Copy>(asked: Option<u64>, config: &Config<F>, pad: &Pad) -> (r: u64)
    ensures
        r == match (asked, pad.spec.launch_wait_ms) {
            (Some(ms), _) => ms,
            (None, Some(ms)) => ms,
            (None, None) => config.launch_wait_ms,
        },
        r == waiting_time(asked, pad@.spec.launch_wait_ms, config.launch_wait_ms),
{
    match asked {
        Some(ms) => ms,
        None => pad.launch_wait_ms(config.launch_wait_ms),
    }
}

/// A backend.
#[derive(Debug, Clone, Copy, PartialEq, Eq, Structural)]
pub enum Chosen {
    Driftwm,
    ForeignToplevel,
}

impl Chosen {
    /// The name of the backend.
    pub open spec fn known_as(self) -> Seq<char> {
        match self {
            Chosen::Driftwm => ops::PLACING_BACKEND@,
            Chosen::ForeignToplevel => "foreign-toplevel"@,
        }
    }

    /// The name of the backend.
    pub fn backend_name(&self) -> (r: &'static str)
        ensures
            r@ == self.known_as(),
    {
        match *self {
            Chosen::Driftwm => ops::PLACING_BACKEND,
            Chosen::ForeignToplevel => "foreign-toplevel",
        }
    }
}

/// Why no backend can be used.
#[derive(Debug, Clone, Copy, PartialEq, Eq, Structural)]
pub enum OpenError {
    /// driftwm was asked for and does not answer.
    NoDriftwm,
    /// The compositor does not speak the protocol.
    NoProtocol,
}

impl OpenError {
    /// The words for the fault.
    pub open spec fn words(self) -> Seq<char> {
        match self {
            OpenError::NoDriftwm => "driftwm IPC 不可用（driftwm msg state 失败），无法使用 driftwm 后端"@,
            OpenError::NoProtocol => "合成器不支持 zwlr_foreign_toplevel_management_v1，way-pad 无法显示/隐藏窗口；请确认运行于 driftwm 或其他支持该协议的合成器"@,
        }
    }

    /// What to tell the user.
    pub fn message(&self) -> (r: String)
        ensures
            r@ == self.words(),
    {
        match *self {
            OpenError::NoDriftwm => "driftwm IPC 不可用（driftwm msg state 失败），无法使用 driftwm 后端".to_owned(),
            OpenError::NoProtocol => "合成器不支持 zwlr_foreign_toplevel_management_v1，way-pad 无法显示/隐藏窗口；请确认运行于 driftwm 或其他支持该协议的合成器".to_owned(),
        }
    }
}

/// Whether the choice of a backend depends on whether driftwm answers.
pub fn probes_driftwm(kind: BackendKind) -> (r: bool)
    ensures
        r == (kind != BackendKind::ForeignToplevel),
{
    match kind {
        BackendKind::ForeignToplevel => false,
        _ => true,
    }
}

/// The backend that is used.
pub open spec fn choice(kind: BackendKind, driftwm_answers: bool) -> Result<Chosen, OpenError> {
    if kind != BackendKind::ForeignToplevel && driftwm_answers {
        Ok(Chosen::Driftwm)
    } else if kind == BackendKind::Driftwm {
        Err(OpenError::NoDriftwm)
    } else {
        Ok(Chosen::ForeignToplevel)
    }
}

/// Whether a backend cannot hide windows as is wanted.
pub open spec fn falls_short(chosen: Chosen, hide_mode: HideMode) -> bool {
    chosen == Chosen::ForeignToplevel && hide_mode == HideMode::Opacity
}

/// Chooses a backend. driftwm is used where it answers, unless the protocol is asked for; asking
/// for driftwm where it does not answer is a mistake. The protocol cannot make windows
/// transparent: where it is used although this is wanted, there is a warning.
pub fn open_backend(kind: BackendKind, hide_mode: HideMode, driftwm_answers: bool) -> (r: Result<
    (Chosen, Option<&'static str>),
    OpenError,
>)
    ensures
        match r {
            Ok((Chosen::Driftwm, warning)) => {
                &&& kind != BackendKind::ForeignToplevel && driftwm_answers
                &&& warning is None
            },
            Ok((Chosen::ForeignToplevel, warning)) => {
                &&& kind == BackendKind::ForeignToplevel || (kind == BackendKind::Auto
                    && !driftwm_answers)
                &&& warning is Some <==> hide_mode == HideMode::Opacity
                &&& warning matches Some(w) ==> w@
                    == "hide_mode = \"opacity\" 仅 driftwm 后端支持，将使用 move 方式"@
            },
            Err(e) => {
                &&& kind == BackendKind::Driftwm && !driftwm_answers
                &&& e == OpenError::NoDriftwm
            },
        },
        match r {
            Ok((chosen, warning)) => {
                &&& choice(kind, driftwm_answers) == Ok::<Chosen, OpenError>(chosen)
                &&& warning is Some <==> falls_short(chosen, hide_mode)
            },
            Err(e) => choice(kind, driftwm_answers) == Err::<Chosen, OpenError>(e),
        },
{
    match kind {
        BackendKind::Driftwm => if driftwm_answers {
            Ok((Chosen::Driftwm, None))
        } else {
            Err(OpenError::NoDriftwm)
        },
        BackendKind::ForeignToplevel => Ok((Chosen::ForeignToplevel, opacity_warning(hide_mode))),
        BackendKind::Auto => if driftwm_answers {
            Ok((Chosen::Driftwm, None))
        } else {
            Ok((Chosen::ForeignToplevel, opacity_warning(hide_mode)))
        },
    }
}

fn opacity_warning(hide_mode: HideMode) -> (r: Option<&'static str>)
    ensures
        r is Some <==> hide_mode == HideMode::Opacity,
        r matches Some(w) ==> w@ == "hide_mode = \"opacity\" 仅 driftwm 后端支持，将使用 move 方式"@,
{
    if hide_mode == HideMode::Opacity {
        Some("hide_mode = \"opacity\" 仅 driftwm 后端支持，将使用 move 方式")
    } else {
        None
    }
}

/// Whether a compositor can be used by way of the protocol.
pub fn open_toplevel(supported: bool) -> (r: Result<(), OpenError>)
    ensures
        match r {
            Ok(()) => supported,
            Err(e) => !supported && e == OpenError::NoProtocol,
        },
{
    if supported {
        Ok(())
    } else {
        Err(OpenError::NoProtocol)
    }
}

/// What a listing needs to know of the configuration.
#[derive(Debug)]
pub struct Settings<F> {
    pub pads: Vec<Pad>,
    pub backend: BackendKind,
    pub viewport: Option<(F, F)>,
    pub hide_mode: HideMode,
}

/// What a listing goes by. Without a configuration it lists the windows, with no pads and the
/// defaults for everything else.
pub fn list_settings<F: Copy>(config: Option<&Config<F>>) -> (r: Result<Settings<F>, ConfigError>)
    ensures
        match config {
            None => r matches Ok(s) && {
                &&& s.pads.len() == 0
                &&& s.backend == BackendKind::Auto
                &&& s.viewport is None
                &&& s.hide_mode == HideMode::Move
            },
            Some(c) => match r {
                Ok(s) => {
                    &&& config::all_compiled(c.entries()) == Ok::<Seq<PadView>, ConfigFault>(
                        pad::pad_views(s.pads@),
                    )
                    &&& s.backend == c.backend
                    &&& s.viewport == c.viewport
                    &&& s.hide_mode == c.hide_mode
                },
                Err(e) => config::all_compiled(c.entries()) == Err::<Seq<PadView>, ConfigFault>(e@),
            },
        },
{
    match config {
        None => Ok(
            Settings {
                pads: Vec::new(),
                backend: BackendKind::default(),
                viewport: None,
                hide_mode: HideMode::default(),
            },
        ),
        Some(c) => match c.all_pads() {
            Ok(pads) => Ok(
                Settings {
                    pads,
                    backend: c.backend,
                    viewport: c.viewport,
                    hide_mode: c.hide_mode,
                },
            ),
            Err(e) => Err(e),
        },
    }
}

} // verus!
