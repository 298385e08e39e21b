//! What to do with the windows of a pad.
//!
//! Each operation looks at a snapshot and answers with the next step; carrying the step out is
//! left to the caller.

use crate::backend::Win;
use crate::config::Pad;
use crate::config::PadView;
use crate::pad;
use crate::text;
use vstd::prelude::*;
use vstd::string::*;

verus! {

/// How long to rest before a second look. A window that changes its state can be missing from a
/// snapshot for a moment.
pub const LOOK_AGAIN_MS: u64 = 250;

/// The backend that can size and place windows.
pub const PLACING_BACKEND: &'static str = "driftwm";

/// One thing to ask of a backend.
#[derive(Debug)]
pub enum Request<F> {
    Hide(Win<F>),
    Reveal { win: Win<F>, focus: bool },
    Close(Win<F>),
    /// See that the requests so far have arrived.
    Sync,
}

/// What an operation does next.
#[derive(Debug)]
pub enum Step<F> {
    /// Rest, then take another snapshot.
    LookAgain { after_ms: u64 },
    /// Make these requests in their order, then report.
    Act { requests: Vec<Request<F>>, report: String },
    /// Run a command, then wait for a window of the pad.
    Launch { command: String },
}

pub enum StepView<F> {
    LookAgain { after_ms: u64 },
    Act { requests: Seq<Request<F>>, report: Seq<char> },
    Launch { command: Seq<char> },
}

impl<F> View for Step<F> {
    type V = StepView<F>;

    open spec fn view(&self) -> StepView<F> {
        match *self {
            Step::LookAgain { after_ms } => StepView::LookAgain { after_ms },
            Step::Act { requests, report } => StepView::Act {
                requests: requests@,
                report: report@,
            },
            Step::Launch { command } => StepView::Launch { command: command@ },
        }
    }
}

/// Why an operation fails.
#[derive(Debug)]
pub enum OpError {
    /// There is no window, and the pad has no command that would bring one.
    NoLaunch { pad: String },
    /// The command ran, but no window came in time.
    NoWindow { pad: String, wait_ms: u64 },
}

pub enum OpFault {
    NoLaunch { pad: Seq<char> },
    NoWindow { pad: Seq<char>, wait_ms: u64 },
}

impl View for OpError {
    type V = OpFault;

    open spec fn view(&self) -> OpFault {
        match *self {
            OpError::NoLaunch { pad } => OpFault::NoLaunch { pad: pad@ },
            OpError::NoWindow { pad, wait_ms } => OpFault::NoWindow { pad: pad@, wait_ms },
        }
    }
}

impl OpFault {
    /// The words for the fault.
    pub open spec fn words(self) -> Seq<char> {
        match self {
            OpFault::NoLaunch { pad } => "没有匹配 '"@ + pad
                + "' 的窗口，且配置里也没有为它设置 launch 命令"@,
            OpFault::NoWindow { pad, wait_ms } => "已启动 '"@ + pad + "'，但 "@ + text::decimal(
                wait_ms as nat,
            ) + "ms 内未出现匹配窗口"@,
        }
    }
}

impl OpError {
    /// What to tell the user.
    pub fn message(&self) -> (r: String)
        ensures
            r@ == self@.words(),
    {
        match self {
            OpError::NoLaunch { pad } => {
                let mut s = "没有匹配 '".to_owned();
                s.append(pad.as_str());
                s.append("' 的窗口，且配置里也没有为它设置 launch 命令");
                s
            },
            OpError::NoWindow { pad, wait_ms } => {
                let mut s = "已启动 '".to_owned();
                s.append(pad.as_str());
                s.append("'，但 ");
                s.append(text::decimal_text(*wait_ms).as_str());
                s.append("ms 内未出现匹配窗口");
                s
            },
        }
    }
}

/// The result of an operation, by views.
pub open spec fn outcome<F>(r: Result<Step<F>, OpError>) -> Result<StepView<F>, OpFault> {
    match r {
        Ok(step) => Ok(step@),
        Err(e) => Err(e@),
    }
}

/// Whether a window belongs to a pad.
pub open spec fn belongs<F>(win: Win<F>, pad: PadView) -> bool {
    pad.matches(win.app_id@, win.title@)
}

/// The windows of a snapshot that belong to a pad, in their order.
pub open spec fn belonging<F>(wins: Seq<Win<F>>, pad: PadView) -> Seq<Win<F>> {
    wins.filter(|w: Win<F>| belongs(w, pad))
}

/// Whether one of the windows can be seen.
pub open spec fn any_visible<F>(wins: Seq<Win<F>>) -> bool {
    exists|i: int| 0 <= i < wins.len() && !(#[trigger] wins[i]).hidden
}

/// A sentence that starts with `front` and says which pad it is about, and how many windows.
pub open spec fn counted(front: Seq<char>, pad: PadView, n: nat) -> Seq<char> {
    front + pad.name + "'（"@ + text::decimal(n) + " 个窗口）"@
}

/// Hiding all of these windows.
pub open spec fn hide_step<F>(pad: PadView, mine: Seq<Win<F>>) -> StepView<F> {
    StepView::Act {
        requests: mine.map_values(|w: Win<F>| Request::Hide(w)).push(Request::Sync),
        report: counted("已隐藏 '"@, pad, mine.len()),
    }
}

/// Showing all of these windows.
pub open spec fn show_step<F>(pad: PadView, mine: Seq<Win<F>>) -> StepView<F> {
    let focus = pad.spec.focus_on_show;
    StepView::Act {
        requests: mine.map_values(|w: Win<F>| Request::Reveal { win: w, focus }).push(
            Request::Sync,
        ),
        report: counted("已显示 '"@, pad, mine.len()),
    }
}

/// What to do without a window: look a second time, then launch one.
pub open spec fn absent_step<F>(pad: PadView, second_look: bool) -> Result<StepView<F>, OpFault> {
    if !second_look {
        Ok(StepView::LookAgain { after_ms: LOOK_AGAIN_MS })
    } else {
        match pad.spec.launch {
            Some(command) => Ok(StepView::Launch { command }),
            None => Err(OpFault::NoLaunch { pad: pad.name }),
        }
    }
}

/// Toggling these windows of a pad: if one of them can be seen all are hidden, else all are shown.
pub open spec fn toggle_group_step<F>(pad: PadView, mine: Seq<Win<F>>, second_look: bool) -> Result<
    StepView<F>,
    OpFault,
> {
    if mine.len() == 0 {
        absent_step(pad, second_look)
    } else if any_visible(mine) {
        Ok(hide_step(pad, mine))
    } else {
        Ok(show_step(pad, mine))
    }
}

/// Showing these windows of a pad.
pub open spec fn show_group_step<F>(pad: PadView, mine: Seq<Win<F>>, second_look: bool) -> Result<
    StepView<F>,
    OpFault,
> {
    if mine.len() == 0 {
        absent_step(pad, second_look)
    } else {
        Ok(show_step(pad, mine))
    }
}

/// Hiding these windows of a pad.
pub open spec fn hide_group_step<F>(pad: PadView, mine: Seq<Win<F>>) -> StepView<F> {
    if mine.len() == 0 {
        StepView::Act {
            requests: Seq::empty(),
            report: "'"@ + pad.name + "' 没有匹配的窗口，无需隐藏"@,
        }
    } else {
        hide_step(pad, mine)
    }
}

/// Closing these windows of a pad.
pub open spec fn close_group_step<F>(pad: PadView, mine: Seq<Win<F>>) -> StepView<F> {
    if mine.len() == 0 {
        StepView::Act {
            requests: Seq::empty(),
            report: "'"@ + pad.name + "' 没有匹配的窗口，无需关闭"@,
        }
    } else {
        StepView::Act {
            requests: mine.map_values(|w: Win<F>| Request::Close(w)),
            report: counted("已关闭 '"@, pad, mine.len()),
        }
    }
}

/// Toggling the windows of a snapshot that belong to a pad.
pub open spec fn toggle_step<F>(pad: PadView, wins: Seq<Win<F>>, second_look: bool) -> Result<
    StepView<F>,
    OpFault,
> {
    toggle_group_step(pad, belonging(wins, pad), second_look)
}

/// The warning for a pad that gives a size or place to a backend that cannot follow it.
pub open spec fn geometry_warning(backend: Seq<char>, pad: PadView) -> Option<Seq<char>> {
    if pad.spec.has_geometry() && backend != PLACING_BACKEND@ {
        Some(
            "pad '"@ + pad.name
                + "' 配置了窗口几何（width/height/edge/margin/fullscreen），仅 driftwm 后端支持，当前后端 "@
                + backend + " 将忽略"@,
        )
    } else {
        None
    }
}

proof fn lemma_filter_next<F>(wins: Seq<Win<F>>, pad: PadView, i: int)
    requires
        0 <= i < wins.len(),
    ensures
        belonging(wins.take(i + 1), pad) == if belongs(wins[i], pad) {
            belonging(wins.take(i), pad).push(wins[i])
        } else {
            belonging(wins.take(i), pad)
        },
{
    reveal(Seq::filter);
    assert(wins.take(i + 1).drop_last() =~= wins.take(i));
}

/// The windows of a snapshot that belong to a pad.
pub fn matching<F: Copy>(wins: &Vec<Win<F>>, pad: &Pad) -> (r: Vec<Win<F>>)
    ensures
        r@ == belonging(wins@, pad@),
{
    let mut mine: Vec<Win<F>> = Vec::new();
    let mut i: usize = 0;
    proof {
        reveal(Seq::filter);
        assert(belonging(wins@.take(0), pad@) =~= Seq::empty());
    }
    while i < wins.len()
        invariant
            i <= wins.len(),
            mine@ == belonging(wins@.take(i as int), pad@),
        decreases wins.len() - i,
    {
        proof {
            lemma_filter_next(wins@, pad@, i as int);
        }
        let w = &wins[i];
        if pad.matches(w.app_id.as_str(), w.title.as_str()) {
            mine.push(w.clone());
        }
        i += 1;
    }
    assert(wins@.take(i as int) =~= wins@);
    mine
}

fn count_report(front: &str, pad: &Pad, n: usize) -> (r: String)
    ensures
        r@ == counted(front@, pad@, n as nat),
{
    let mut s = front.to_owned();
    s.append(pad.name.as_str());
    s.append("'（");
    s.append(text::decimal_text(n as u64).as_str());
    s.append(" 个窗口）");
    s
}

fn hide_all<F: Copy>(pad: &Pad, mine: &Vec<Win<F>>) -> (r: Step<F>)
    ensures
        r@ == hide_step(pad@, mine@),
{
    let mut requests: Vec<Request<F>> = Vec::new();
    let mut i: usize = 0;
    while i < mine.len()
        invariant
            i <= mine.len(),
            requests@ =~= mine@.take(i as int).map_values(|w: Win<F>| Request::Hide(w)),
        decreases mine.len() - i,
    {
        requests.push(Request::Hide(mine[i].clone()));
        i += 1;
    }
    requests.push(Request::Sync);
    assert(mine@.take(i as int) =~= mine@);
    Step::Act { requests, report: count_report("已隐藏 '", pad, mine.len()) }
}

fn show_all<F: Copy>(pad: &Pad, mine: &Vec<Win<F>>) -> (r: Step<F>)
    ensures
        r@ == show_step(pad@, mine@),
{
    let focus = pad.spec.focus_on_show;
    let mut requests: Vec<Request<F>> = Vec::new();
    let mut i: usize = 0;
    while i < mine.len()
        invariant
            i <= mine.len(),
            requests@ =~= mine@.take(i as int).map_values(
                |w: Win<F>| Request::Reveal { win: w, focus },
            ),
        decreases mine.len() - i,
    {
        requests.push(Request::Reveal { win: mine[i].clone(), focus });
        i += 1;
    }
    requests.push(Request::Sync);
    assert(mine@.take(i as int) =~= mine@);
    Step::Act { requests, report: count_report("已显示 '", pad, mine.len()) }
}

fn without_windows<F>(pad: &Pad, second_look: bool) -> (r: Result<Step<F>, OpError>)
    ensures
        outcome(r) == absent_step::<F>(pad@, second_look),
{
    if !second_look {
        return Ok(Step::LookAgain { after_ms: LOOK_AGAIN_MS });
    }
    match &pad.spec.launch {
        Some(command) => Ok(Step::Launch { command: command.clone() }),
        None => Err(OpError::NoLaunch { pad: pad.name.clone() }),
    }
}

/// Hides these windows of a pad where one of them can be seen, else shows them; where there is
/// none, even at a second look, launches one.
pub fn toggle_group<F: Copy>(pad: &Pad, mine: &Vec<Win<F>>, second_look: bool) -> (r: Result<
    Step<F>,
    OpError,
>)
    ensures
        outcome(r) == toggle_group_step(pad@, mine@, second_look),
{
    if mine.len() == 0 {
        return without_windows(pad, second_look);
    }
    let mut i: usize = 0;
    while i < mine.len()
        invariant
            i <= mine.len(),
            mine.len() > 0,
            forall|k: int| 0 <= k < i ==> (#[trigger] mine@[k]).hidden,
        decreases mine.len() - i,
    {
        if !mine[i].hidden {
            assert(any_visible(mine@));
            return Ok(hide_all(pad, mine));
        }
        i += 1;
    }
    Ok(show_all(pad, mine))
}

/// Hides the windows of the pad where one of them can be seen, else shows them; where there is
/// none, even at a second look, launches one.
pub fn toggle<F: Copy>(pad: &Pad, wins: &Vec<Win<F>>, second_look: bool) -> (r: Result<
    Step<F>,
    OpError,
>)
    ensures
        outcome(r) == toggle_step(pad@, wins@, second_look),
{
    toggle_group(pad, &matching(wins, pad), second_look)
}

/// Shows these windows of a pad; where there is none, even at a second look, launches one.
pub fn show_group<F: Copy>(pad: &Pad, mine: &Vec<Win<F>>, second_look: bool) -> (r: Result<
    Step<F>,
    OpError,
>)
    ensures
        outcome(r) == show_group_step(pad@, mine@, second_look),
{
    if mine.len() == 0 {
        without_windows(pad, second_look)
    } else {
        Ok(show_all(pad, mine))
    }
}

/// Shows the windows of the pad; where there is none, even at a second look, launches one.
pub fn show<F: Copy>(pad: &Pad, wins: &Vec<Win<F>>, second_look: bool) -> (r: Result<
    Step<F>,
    OpError,
>)
    ensures
        outcome(r) == show_group_step(pad@, belonging(wins@, pad@), second_look),
{
    show_group(pad, &matching(wins, pad), second_look)
}

/// Hides these windows of a pad; where there is none, says so.
pub fn hide_group<F: Copy>(pad: &Pad, mine: &Vec<Win<F>>) -> (r: Step<F>)
    ensures
        r@ == hide_group_step(pad@, mine@),
{
    if mine.len() == 0 {
        let mut s = "'".to_owned();
        s.append(pad.name.as_str());
        s.append("' 没有匹配的窗口，无需隐藏");
        Step::Act { requests: Vec::new(), report: s }
    } else {
        hide_all(pad, mine)
    }
}

/// Hides the windows of the pad; where there is none, says so.
pub fn hide_windows<F: Copy>(pad: &Pad, wins: &Vec<Win<F>>) -> (r: Step<F>)
    ensures
        r@ == hide_group_step(pad@, belonging(wins@, pad@)),
{
    hide_group(pad, &matching(wins, pad))
}

/// Closes these windows of a pad; where there is none, says so.
pub fn close_group<F: Copy>(pad: &Pad, mine: &Vec<Win<F>>) -> (r: Step<F>)
    ensures
        r@ == close_group_step(pad@, mine@),
{
    if mine.len() == 0 {
        let mut s = "'".to_owned();
        s.append(pad.name.as_str());
        s.append("' 没有匹配的窗口，无需关闭");
        return Step::Act { requests: Vec::new(), report: s };
    }
    let mut requests: Vec<Request<F>> = Vec::new();
    let mut i: usize = 0;
    while i < mine.len()
        invariant
            i <= mine.len(),
            requests@ =~= mine@.take(i as int).map_values(|w: Win<F>| Request::Close(w)),
        decreases mine.len() - i,
    {
        requests.push(Request::Close(mine[i].clone()));
        i += 1;
    }
    assert(mine@.take(i as int) =~= mine@);
    Step::Act { requests, report: count_report("已关闭 '", pad, mine.len()) }
}

/// Closes the windows of the pad; where there is none, says so.
pub fn close<F: Copy>(pad: &Pad, wins: &Vec<Win<F>>) -> (r: Step<F>)
    ensures
        r@ == close_group_step(pad@, belonging(wins@, pad@)),
{
    close_group(pad, &matching(wins, pad))
}

/// What to say after a launch, when a window of the pad was `found` or the waiting time is over.
/// A window that does not come in time is a failure.
pub fn launch_and_wait(pad: &Pad, found: bool, wait_ms: u64) -> (r: Result<String, OpError>)
    ensures
        match r {
            Ok(report) => found && report@ == "已启动并显示 '"@ + pad@.name + "'"@,
            Err(e) => !found && e@ == (OpFault::NoWindow { pad: pad@.name, wait_ms }),
        },
{
    if found {
        let mut s = "已启动并显示 '".to_owned();
        s.append(pad.name.as_str());
        s.append("'");
        Ok(s)
    } else {
        Err(OpError::NoWindow { pad: pad.name.clone(), wait_ms })
    }
}

/// The warning for a pad that gives a size or place to a backend that cannot follow it.
pub fn warn_unsupported_geometry(backend: &str, pad: &Pad) -> (r: Option<String>)
    ensures
        match r {
            Some(warning) => geometry_warning(backend@, pad@) == Some(warning@),
            None => geometry_warning(backend@, pad@) is None,
        },
{
    if pad.has_geometry() && !text::same_text(backend, PLACING_BACKEND) {
        let mut s = "pad '".to_owned();
        s.append(pad.name.as_str());
        s.append(
            "' 配置了窗口几何（width/height/edge/margin/fullscreen），仅 driftwm 后端支持，当前后端 ",
        );
        s.append(backend);
        s.append(" 将忽略");
        Some(s)
    } else {
        None
    }
}

/// A window together with the words by which its backend describes it.
#[derive(Debug)]
pub struct Listed<F> {
    pub win: Win<F>,
    pub label: String,
}

/// The line of a pad in a listing.
pub open spec fn pad_line(pad: PadView) -> Seq<char> {
    "  "@ + text::padded(pad.name, 16) + " app_id='"@ + pad.spec.app_id + "'"@ + (if pad.spec.title.len()
        == 0 {
        Seq::empty()
    } else {
        " title='"@ + pad.spec.title + "'"@
    }) + "  launch="@ + (match pad.spec.launch {
        Some(command) => command,
        None => "-"@,
    }) + "\n"@
}

/// The lines of a list of pads.
pub open spec fn pad_lines(pads: Seq<PadView>) -> Seq<char>
    decreases pads.len(),
{
    if pads.len() == 0 {
        Seq::empty()
    } else {
        pad_lines(pads.drop_last()) + pad_line(pads.last())
    }
}

/// The marks of a window in a listing.
pub open spec fn marks<F>(win: Win<F>) -> Seq<char> {
    if win.hidden && win.focused {
        " [hidden,focused] "@
    } else if win.hidden {
        " [hidden] "@
    } else if win.focused {
        " [focused] "@
    } else {
        Seq::empty()
    }
}

/// The names of the pads to which a window belongs, in the order of the pads.
pub open spec fn owners<F>(pads: Seq<PadView>, win: Win<F>) -> Seq<Seq<char>> {
    pads.filter(|p: PadView| belongs(win, p)).map_values(|p: PadView| p.name)
}

/// The tags of the pads to which a window belongs, in the order of the pads.
pub open spec fn tags<F>(pads: Seq<PadView>, win: Win<F>) -> Seq<Seq<char>> {
    owners(pads, win).map_values(|name: Seq<char>| "pad:"@ + name)
}

/// The line of a window in a listing, with the tags of its pads.
pub open spec fn window_line<F>(listed: Listed<F>, tags: Seq<Seq<char>>) -> Seq<char> {
    "  "@ + text::padded(listed.label@, 22) + " app_id='"@ + listed.win.app_id@ + "' title='"@
        + listed.win.title@ + "'"@ + marks(listed.win) + (if tags.len() == 0 {
        Seq::empty()
    } else {
        " "@ + text::joined(tags, " "@)
    }) + "\n"@
}

/// The lines of a list of windows.
pub open spec fn window_lines<F>(wins: Seq<Listed<F>>, tags: Seq<Seq<Seq<char>>>) -> Seq<char>
    decreases wins.len(),
{
    if wins.len() == 0 {
        Seq::empty()
    } else {
        window_lines(wins.drop_last(), tags) + window_line(wins.last(), tags[wins.len() - 1])
    }
}

/// The listing of pads and windows, where `tags` has the tags of each window.
pub open spec fn listing_with<F>(
    backend: Seq<char>,
    pads: Seq<PadView>,
    wins: Seq<Listed<F>>,
    tags: Seq<Seq<Seq<char>>>,
) -> Seq<char> {
    "backend: "@ + backend + "\n\n"@ + (if pads.len() == 0 {
        "Pads: （配置中没有定义 pad）\n"@
    } else {
        "Pads:\n"@ + pad_lines(pads)
    }) + "\nWindows:\n"@ + (if wins.len() == 0 {
        "  （没有窗口）\n"@
    } else {
        window_lines(wins, tags)
    })
}

/// The tags of each window of a list.
pub open spec fn tags_of<F>(pads: Seq<PadView>, wins: Seq<Listed<F>>) -> Seq<Seq<Seq<char>>> {
    wins.map_values(|l: Listed<F>| tags(pads, l.win))
}

/// The listing of pads and windows.
pub open spec fn listing<F>(backend: Seq<char>, pads: Seq<PadView>, wins: Seq<Listed<F>>) -> Seq<
    char,
> {
    listing_with(backend, pads, wins, tags_of(pads, wins))
}

/// The texts of a vector of vectors of strings.
pub open spec fn tag_texts(tags: Seq<Vec<String>>) -> Seq<Seq<Seq<char>>> {
    tags.map_values(|t: Vec<String>| text::texts(t@))
}

fn pad_entry(pad: &Pad) -> (r: String)
    ensures
        r@ == pad_line(pad@),
{
    let mut s = "  ".to_owned();
    s.append(text::pad_right(pad.name.as_str(), 16).as_str());
    s.append(" app_id='");
    s.append(pad.spec.app_id.as_str());
    s.append("'");
    let mut title = String::new();
    if !pad.spec.title.as_str().is_empty() {
        title = " title='".to_owned();
        title.append(pad.spec.title.as_str());
        title.append("'");
    }
    s.append(title.as_str());
    s.append("  launch=");
    match &pad.spec.launch {
        Some(command) => s.append(command.as_str()),
        None => s.append("-"),
    }
    s.append("\n");
    s
}

fn window_marks<F>(win: &Win<F>) -> (r: String)
    ensures
        r@ == marks(*win),
{
    if win.hidden && win.focused {
        " [hidden,focused] ".to_owned()
    } else if win.hidden {
        " [hidden] ".to_owned()
    } else if win.focused {
        " [focused] ".to_owned()
    } else {
        String::new()
    }
}

/// The names of the pads to which a window belongs.
pub fn pad_names<F>(pads: &Vec<Pad>, win: &Win<F>) -> (r: Vec<String>)
    ensures
        text::texts(r@) == owners(pad::pad_views(pads@), *win),
{
    let mut found: Vec<String> = Vec::new();
    let mut i: usize = 0;
    let ghost views = pad::pad_views(pads@);
    proof {
        reveal(Seq::filter);
        assert(owners(views.take(0), *win) =~= Seq::empty());
        assert(text::texts(found@) =~= Seq::empty());
    }
    while i < pads.len()
        invariant
            i <= pads.len(),
            views == pad::pad_views(pads@),
            text::texts(found@) == owners(views.take(i as int), *win),
        decreases pads.len() - i,
    {
        let pad = &pads[i];
        let ghost before = found@;
        let ghost mine = |p: PadView| belongs(*win, p);
        let ghost named = |p: PadView| p.name;
        proof {
            reveal(Seq::filter);
            assert(views.take(i + 1).drop_last() =~= views.take(i as int));
        }
        if pad.matches(win.app_id.as_str(), win.title.as_str()) {
            found.push(pad.name.clone());
            assert(text::texts(found@) =~= text::texts(before).push(pad@.name));
            assert(views.take(i as int).filter(mine).push(pad@).map_values(named) =~= views.take(
                i as int,
            ).filter(mine).map_values(named).push(pad@.name));
        }
        i += 1;
    }
    assert(views.take(i as int) =~= views);
    found
}

/// The tags of the pads to which a window belongs.
pub fn pad_tags<F>(pads: &Vec<Pad>, win: &Win<F>) -> (r: Vec<String>)
    ensures
        text::texts(r@) == tags(pad::pad_views(pads@), *win),
{
    let names = pad_names(pads, win);
    let mut found: Vec<String> = Vec::new();
    let mut i: usize = 0;
    while i < names.len()
        invariant
            i <= names.len(),
            text::texts(found@) =~= text::texts(names@).take(i as int).map_values(
                |name: Seq<char>| "pad:"@ + name,
            ),
        decreases names.len() - i,
    {
        let mut tag = "pad:".to_owned();
        tag.append(names[i].as_str());
        let ghost before = found@;
        found.push(tag);
        assert(text::texts(found@) =~= text::texts(before).push(tag@));
        i += 1;
    }
    assert(text::texts(names@).take(i as int) =~= text::texts(names@));
    found
}

fn window_entry<F>(listed: &Listed<F>, tags: &Vec<String>) -> (r: String)
    ensures
        r@ == window_line(*listed, text::texts(tags@)),
{
    let win = &listed.win;
    let mut matched = String::new();
    assert(text::texts(tags@).len() == tags.len());
    if tags.len() > 0 {
        matched = " ".to_owned();
        matched.append(text::join(tags, " ").as_str());
    }
    let mut s = "  ".to_owned();
    s.append(text::pad_right(listed.label.as_str(), 22).as_str());
    s.append(" app_id='");
    s.append(win.app_id.as_str());
    s.append("' title='");
    s.append(win.title.as_str());
    s.append("'");
    s.append(window_marks(win).as_str());
    s.append(matched.as_str());
    s.append("\n");
    s
}

/// Lists the pads and the windows, where `tags` has the tags of each window.
pub fn list_with<F>(
    backend: &str,
    pads: &Vec<Pad>,
    wins: &Vec<Listed<F>>,
    tags: &Vec<Vec<String>>,
) -> (r: String)
    requires
        tags.len() == wins.len(),
    ensures
        r@ == listing_with(backend@, pad::pad_views(pads@), wins@, tag_texts(tags@)),
{
    let ghost views = pad::pad_views(pads@);
    let mut out = "backend: ".to_owned();
    out.append(backend);
    out.append("\n\n");
    if pads.len() == 0 {
        out.append("Pads: （配置中没有定义 pad）\n");
    } else {
        let mut lines = "Pads:\n".to_owned();
        let mut i: usize = 0;
        assert("Pads:\n"@ + pad_lines(views.take(0)) =~= "Pads:\n"@);
        while i < pads.len()
            invariant
                i <= pads.len(),
                views == pad::pad_views(pads@),
                lines@ == "Pads:\n"@ + pad_lines(views.take(i as int)),
            decreases pads.len() - i,
        {
            lines.append(pad_entry(&pads[i]).as_str());
            assert(views.take(i + 1).drop_last() =~= views.take(i as int));
            assert(lines@ =~= "Pads:\n"@ + pad_lines(views.take(i + 1)));
            i += 1;
        }
        assert(views.take(i as int) =~= views);
        out.append(lines.as_str());
    }
    out.append("\nWindows:\n");
    if wins.len() == 0 {
        out.append("  （没有窗口）\n");
    } else {
        let mut lines = String::new();
        let mut i: usize = 0;
        while i < wins.len()
            invariant
                i <= wins.len(),
                tags.len() == wins.len(),
                lines@ == window_lines(wins@.take(i as int), tag_texts(tags@)),
            decreases wins.len() - i,
        {
            lines.append(window_entry(&wins[i], &tags[i]).as_str());
            assert(wins@.take(i + 1).drop_last() =~= wins@.take(i as int));
            i += 1;
        }
        assert(wins@.take(i as int) =~= wins@);
        out.append(lines.as_str());
    }
    out
}

/// Lists the pads and the windows, each window with the pads to which it belongs.
pub fn list<F>(backend: &str, pads: &Vec<Pad>, wins: &Vec<Listed<F>>) -> (r: String)
    ensures
        r@ == listing(backend@, pad::pad_views(pads@), wins@),
{
    let mut all: Vec<Vec<String>> = Vec::new();
    let mut i: usize = 0;
    let ghost views = pad::pad_views(pads@);
    while i < wins.len()
        invariant
            i <= wins.len(),
            all.len() == i,
            views == pad::pad_views(pads@),
            tag_texts(all@) =~= tags_of(views, wins@.take(i as int)),
        decreases wins.len() - i,
    {
        let ghost before = all@;
        let found = pad_tags(pads, &wins[i].win);
        all.push(found);
        assert(tag_texts(all@) =~= tag_texts(before).push(text::texts(found@)));
        i += 1;
    }
    assert(wins@.take(i as int) =~= wins@);
    list_with(backend, pads, wins, &all)
}

/// The lines that say how many windows each pad has.
pub open spec fn count_lines(pads: Seq<PadView>, counts: Seq<nat>) -> Seq<char>
    decreases pads.len(),
{
    if pads.len() == 0 {
        Seq::empty()
    } else {
        count_lines(pads.drop_last(), counts) + ("  "@ + text::padded(pads.last().name, 16) + " "@
            + text::decimal(counts[pads.len() - 1]) + " 个窗口\n"@)
    }
}

/// The report on a backend, where the configuration was found, and how many windows each pad has.
pub open spec fn diagnosis(
    backend: Seq<char>,
    config: Seq<char>,
    pads: Seq<PadView>,
    counts: Seq<nat>,
) -> Seq<char> {
    "backend: "@ + backend + "\n"@ + "config: "@ + config + "\n"@ + "Pads:\n"@ + count_lines(
        pads,
        counts,
    )
}

/// Reports the backend, where the configuration was found, and how many windows each pad has.
pub fn doctor_with(backend: &str, config: &str, pads: &Vec<Pad>, counts: &Vec<usize>) -> (r: String)
    requires
        counts.len() == pads.len(),
    ensures
        r@ == diagnosis(
            backend@,
            config@,
            pad::pad_views(pads@),
            counts@.map_values(|n: usize| n as nat),
        ),
{
    let ghost numbers = counts@.map_values(|n: usize| n as nat);
    let ghost views = pad::pad_views(pads@);
    let mut lines = String::new();
    let mut i: usize = 0;
    while i < pads.len()
        invariant
            i <= pads.len(),
            counts.len() == pads.len(),
            views == pad::pad_views(pads@),
            numbers == counts@.map_values(|n: usize| n as nat),
            lines@ == count_lines(views.take(i as int), numbers),
        decreases pads.len() - i,
    {
        let mut line = "  ".to_owned();
        line.append(text::pad_right(pads[i].name.as_str(), 16).as_str());
        line.append(" ");
        line.append(text::decimal_text(counts[i] as u64).as_str());
        line.append(" 个窗口\n");
        lines.append(line.as_str());
        assert(views.take(i + 1).drop_last() =~= views.take(i as int));
        i += 1;
    }
    assert(views.take(i as int) =~= views);
    let mut out = "backend: ".to_owned();
    out.append(backend);
    out.append("\n");
    out.append("config: ");
    out.append(config);
    out.append("\n");
    out.append("Pads:\n");
    out.append(lines.as_str());
    out
}

/// Reports the backend, where the configuration was found, and how many of the windows belong to
/// each pad.
pub fn doctor<F: Copy>(backend: &str, config: &str, pads: &Vec<Pad>, wins: &Vec<Win<F>>) -> (r:
    String)
    ensures
        r@ == diagnosis(
            backend@,
            config@,
            pad::pad_views(pads@),
            pad::pad_views(pads@).map_values(|p: PadView| belonging(wins@, p).len()),
        ),
{
    let mut counts: Vec<usize> = Vec::new();
    let mut i: usize = 0;
    while i < pads.len()
        invariant
            i <= pads.len(),
            counts.len() == i,
            forall|k: int|
                0 <= k < i ==> #[trigger] counts@[k] == belonging(wins@, pads@[k]@).len(),
        decreases pads.len() - i,
    {
        counts.push(matching(wins, &pads[i]).len());
        i += 1;
    }
    assert(counts@.map_values(|n: usize| n as nat) =~= pad::pad_views(pads@).map_values(
        |p: PadView| belonging(wins@, p).len(),
    ));
    doctor_with(backend, config, pads, &counts)
}

/// A window that is now hidden, or now shown.
pub open spec fn turned<F>(win: Win<F>, hidden: bool) -> Win<F> {
    Win { hidden, ..win }
}

/// A snapshot after the windows of a pad were all hidden, or all shown.
pub open spec fn group_turned<F>(wins: Seq<Win<F>>, pad: PadView, hidden: bool) -> Seq<Win<F>> {
    wins.map_values(
        |w: Win<F>|
            if belongs(w, pad) {
                turned(w, hidden)
            } else {
                w
            },
    )
}

proof fn lemma_group_turned<F>(wins: Seq<Win<F>>, pad: PadView, hidden: bool)
    ensures
        belonging(group_turned(wins, pad, hidden), pad) == belonging(wins, pad).map_values(
            |w: Win<F>| turned(w, hidden),
        ),
    decreases wins.len(),
{
    reveal(Seq::filter);
    let turn = |w: Win<F>| turned(w, hidden);
    if wins.len() == 0 {
        assert(belonging(wins, pad).map_values(turn) =~= Seq::empty());
        assert(belonging(group_turned(wins, pad, hidden), pad) =~= Seq::empty());
    } else {
        let front = wins.drop_last();
        lemma_group_turned(front, pad, hidden);
        assert(group_turned(wins, pad, hidden).drop_last() =~= group_turned(front, pad, hidden));
        if belongs(wins.last(), pad) {
            assert(belonging(front, pad).push(wins.last()).map_values(turn) =~= belonging(
                front,
                pad,
            ).map_values(turn).push(turn(wins.last())));
        }
    }
}

/// A toggle that hides is undone by the next: once the windows of the pad are hidden, toggling
/// shows the same windows again.
pub proof fn law_toggle_shows_what_it_hid<F>(
    pad: PadView,
    wins: Seq<Win<F>>,
    first: bool,
    second: bool,
)
    requires
        any_visible(belonging(wins, pad)),
    ensures
        toggle_step(pad, wins, first) == Ok::<StepView<F>, OpFault>(
            hide_step(pad, belonging(wins, pad)),
        ),
        toggle_step(pad, group_turned(wins, pad, true), second) == Ok::<StepView<F>, OpFault>(
            show_step(pad, belonging(wins, pad).map_values(|w: Win<F>| turned(w, true))),
        ),
{
    lemma_group_turned(wins, pad, true);
}

/// A toggle that shows is undone by the next: once the windows of the pad are shown, toggling
/// hides the same windows again.
pub proof fn law_toggle_hides_what_it_showed<F>(
    pad: PadView,
    wins: Seq<Win<F>>,
    first: bool,
    second: bool,
)
    requires
        belonging(wins, pad).len() > 0,
        !any_visible(belonging(wins, pad)),
    ensures
        toggle_step(pad, wins, first) == Ok::<StepView<F>, OpFault>(
            show_step(pad, belonging(wins, pad)),
        ),
        toggle_step(pad, group_turned(wins, pad, false), second) == Ok::<StepView<F>, OpFault>(
            hide_step(pad, belonging(wins, pad).map_values(|w: Win<F>| turned(w, false))),
        ),
{
    lemma_group_turned(wins, pad, false);
    let after = belonging(group_turned(wins, pad, false), pad);
    assert(!after[0].hidden);
}

/// The window that a request is about.
pub open spec fn subject<F>(request: Request<F>) -> Option<Win<F>> {
    match request {
        Request::Hide(win) => Some(win),
        Request::Reveal { win, focus } => Some(win),
        Request::Close(win) => Some(win),
        Request::Sync => None,
    }
}

/// The windows that belong to a pad are those of the snapshot that match it.
pub proof fn lemma_belonging<F>(wins: Seq<Win<F>>, pad: PadView, win: Win<F>)
    ensures
        belonging(wins, pad).contains(win) <==> wins.contains(win) && belongs(win, pad),
    decreases wins.len(),
{
    reveal(Seq::filter);
    if wins.len() > 0 {
        let front = wins.drop_last();
        let mine = belonging(front, pad);
        lemma_belonging(front, pad, win);
        assert(wins.contains(win) <==> front.contains(win) || wins.last() == win) by {
            if wins.contains(win) {
                let i = choose|i: int| 0 <= i < wins.len() && wins[i] == win;
                if i < front.len() {
                    assert(front[i] == win);
                }
            }
            if front.contains(win) {
                let i = choose|i: int| 0 <= i < front.len() && front[i] == win;
                assert(wins[i] == win);
            }
            if wins.last() == win {
                assert(wins[wins.len() - 1] == win);
            }
        }
        let with_last = mine.push(wins.last());
        assert(with_last.contains(win) <==> mine.contains(win) || wins.last() == win) by {
            if with_last.contains(win) {
                let i = choose|i: int| 0 <= i < with_last.len() && with_last[i] == win;
                if i < mine.len() {
                    assert(mine[i] == win);
                }
            }
            if mine.contains(win) {
                let i = choose|i: int| 0 <= i < mine.len() && mine[i] == win;
                assert(with_last[i] == win);
            }
            if wins.last() == win {
                assert(with_last[mine.len() as int] == win);
            }
        }
    }
}

} // verus!
