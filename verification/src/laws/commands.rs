//! Laws of the commands and of what they report.

use super::texts;
use crate::backend;
use crate::backend::Win;
use crate::command;
use crate::command::Chosen;
use crate::command::OpenError;
use crate::command::PadCommand;
use crate::config::BackendKind;
use crate::config::HideMode;
use crate::config::PadView;
use crate::ops;
use crate::ops::Listed;
use crate::ops::OpError;
use crate::ops::OpFault;
use crate::ops::Request;
use crate::ops::Step;
use crate::ops::StepView;
use crate::text;
use vstd::prelude::*;

verus! {

/// Whether a window of the snapshot belongs to the pad, by its own application id and title.
pub open spec fn mine<F>(wins: Seq<Win<F>>, pad: PadView, k: int) -> bool {
    0 <= k < wins.len() && pad.matches(wins[k].app_id@, wins[k].title@)
}

/// Whether no window of the snapshot belongs to the pad.
pub open spec fn none_mine<F>(wins: Seq<Win<F>>, pad: PadView) -> bool {
    forall|k: int| !#[trigger] mine(wins, pad, k)
}

/// The windows of a pad are those that match it, each once and in the order of the snapshot: one
/// more window adds itself at the end where it matches by its application id and its title, and
/// changes nothing where it does not.
pub proof fn law_windows_of_a_pad_are_those_that_match<F>(
    front: Seq<Win<F>>,
    win: Win<F>,
    pad: PadView,
)
    ensures
        ops::belonging(Seq::<Win<F>>::empty(), pad) == Seq::<Win<F>>::empty(),
        pad.matches(win.app_id@, win.title@) ==> ops::belonging(front.push(win), pad)
            == ops::belonging(front, pad).push(win),
        !pad.matches(win.app_id@, win.title@) ==> ops::belonging(front.push(win), pad)
            == ops::belonging(front, pad),
{
    reveal(Seq::filter);
    assert(front.push(win).drop_last() =~= front);
    assert(ops::belonging(Seq::<Win<F>>::empty(), pad) =~= Seq::empty());
}

proof fn lemma_none_belongs<F>(wins: Seq<Win<F>>, pad: PadView)
    ensures
        ops::belonging(wins, pad).len() == 0 <==> none_mine(wins, pad),
{
    let list = ops::belonging(wins, pad);
    if list.len() > 0 {
        ops::lemma_belonging(wins, pad, list[0]);
        let k = choose|k: int| 0 <= k < wins.len() && wins[k] == list[0];
        assert(mine(wins, pad, k));
    } else {
        assert forall|k: int| !#[trigger] mine(wins, pad, k) by {
            if mine(wins, pad, k) {
                ops::lemma_belonging(wins, pad, wins[k]);
                assert(wins.contains(wins[k]));
            }
        }
    }
}

/// Windows are shown with the focus exactly where their pad wants it, whichever of them are hidden.
pub proof fn law_the_pad_decides_on_the_focus<F>(
    command: PadCommand,
    pad: PadView,
    wins: Seq<Win<F>>,
    second_look: bool,
    requests: Seq<Request<F>>,
    report: Seq<char>,
    i: int,
)
    requires
        command::next_step(command, pad, wins, second_look) == Ok::<StepView<F>, OpFault>(
            StepView::Act { requests, report },
        ),
        0 <= i < requests.len(),
    ensures
        requests[i] matches Request::Reveal { win, focus } ==> focus == pad.spec.focus_on_show,
{
}

/// Each command makes its own requests, one for each window of the pad in their order: hiding hides,
/// showing shows, closing closes, and toggling either hides all or shows all. All but closing end
/// with a sync, which occurs nowhere else.
pub proof fn law_each_command_makes_its_own_requests<F>(
    command: PadCommand,
    pad: PadView,
    wins: Seq<Win<F>>,
    second_look: bool,
    requests: Seq<Request<F>>,
    report: Seq<char>,
    i: int,
)
    requires
        command::next_step(command, pad, wins, second_look) == Ok::<StepView<F>, OpFault>(
            StepView::Act { requests, report },
        ),
        0 <= i < requests.len(),
    ensures
        ({
            let list = ops::belonging(wins, pad);
            &&& !none_mine(wins, pad)
            &&& requests.len() == if command == PadCommand::Close {
                list.len()
            } else {
                list.len() + 1
            }
            &&& requests[i] == Request::<F>::Sync <==> i == list.len()
            &&& i < list.len() ==> match command {
                PadCommand::Hide => requests[i] == Request::Hide(list[i]),
                PadCommand::Close => requests[i] == Request::Close(list[i]),
                PadCommand::Show => requests[i] matches Request::Reveal { win, focus } && win
                    == list[i],
                PadCommand::Toggle => {
                    ||| requests[i] == Request::Hide(list[i])
                    ||| (requests[i] matches Request::Reveal { win, focus } && win == list[i])
                },
            }
            &&& i < list.len() ==> (requests[i] is Reveal <==> requests[0] is Reveal)
            &&& i < list.len() ==> (requests[i] is Hide <==> requests[0] is Hide)
        }),
{
    lemma_none_belongs(wins, pad);
    let list = ops::belonging(wins, pad);
    assert(list.len() > 0);
}

/// Toggling goes by what can be seen: where one window of the pad is visible, all are hidden; where
/// there are windows and all are hidden, all are shown.
pub proof fn law_toggle_goes_by_what_can_be_seen<F>(
    pad: PadView,
    wins: Seq<Win<F>>,
    second_look: bool,
    k: int,
)
    requires
        mine(wins, pad, k),
    ensures
        command::next_step(PadCommand::Toggle, pad, wins, second_look) matches Ok(StepView::Act {
            requests,
            report,
        }) && {
            &&& requests.len() > 0
            &&& requests[0] is Hide || requests[0] is Reveal
            &&& requests[0] is Hide <==> exists|j: int| #[trigger]
                mine(wins, pad, j) && !wins[j].hidden
        },
{
    lemma_none_belongs(wins, pad);
    let list = ops::belonging(wins, pad);
    assert(list.len() > 0);
    if ops::any_visible(list) {
        let i = choose|i: int| 0 <= i < list.len() && !(#[trigger] list[i]).hidden;
        ops::lemma_belonging(wins, pad, list[i]);
        assert(list.contains(list[i]));
        let j = choose|j: int| 0 <= j < wins.len() && wins[j] == list[i];
        assert(mine(wins, pad, j) && !wins[j].hidden);
    }
    if exists|j: int| #[trigger] mine(wins, pad, j) && !wins[j].hidden {
        let j = choose|j: int| #[trigger] mine(wins, pad, j) && !wins[j].hidden;
        ops::lemma_belonging(wins, pad, wins[j]);
        assert(wins.contains(wins[j]));
        let i = choose|i: int| 0 <= i < list.len() && list[i] == wins[j];
        assert(!list[i].hidden);
    }
}

/// Where there are windows of the pad, every command acts at once.
pub proof fn law_windows_are_acted_on_at_once<F>(
    command: PadCommand,
    pad: PadView,
    wins: Seq<Win<F>>,
    second_look: bool,
    k: int,
)
    requires
        mine(wins, pad, k),
    ensures
        command::next_step(command, pad, wins, second_look) matches Ok(StepView::Act {
            requests,
            report,
        }) && requests.len() > 0,
{
    lemma_none_belongs(wins, pad);
}

/// Without a window of the pad, toggling and showing look again after 250 ms; at the second look they
/// launch the command of the pad, or fail where it has none. Hiding and closing have nothing to do.
pub proof fn law_without_windows_the_pad_is_launched<F>(
    command: PadCommand,
    pad: PadView,
    wins: Seq<Win<F>>,
    second_look: bool,
)
    requires
        none_mine(wins, pad),
    ensures
        ({
            let step = command::next_step(command, pad, wins, second_look);
            match command {
                PadCommand::Toggle | PadCommand::Show => {
                    &&& !second_look ==> step == Ok::<StepView<F>, OpFault>(
                        StepView::LookAgain { after_ms: 250 },
                    )
                    &&& second_look && pad.spec.launch is Some ==> step == Ok::<
                        StepView<F>,
                        OpFault,
                    >(StepView::Launch { command: pad.spec.launch->0 })
                    &&& second_look && pad.spec.launch is None ==> step == Err::<
                        StepView<F>,
                        OpFault,
                    >(OpFault::NoLaunch { pad: pad.name })
                },
                PadCommand::Hide | PadCommand::Close => step matches Ok(StepView::Act {
                    requests,
                    report,
                }) && requests.len() == 0,
            }
        }),
{
    lemma_none_belongs(wins, pad);
}

/// Whether these are requests to do one thing to each window of a group, in their order.
pub open spec fn one_each<F>(
    requests: Seq<Request<F>>,
    group: Seq<Win<F>>,
    wish: spec_fn(Win<F>) -> Request<F>,
    sync: bool,
) -> bool {
    &&& requests.len() == group.len() + (if sync {
        1int
    } else {
        0
    })
    &&& forall|i: int| 0 <= i < group.len() ==> #[trigger] requests[i] == wish(group[i])
    &&& sync ==> requests.last() == Request::<F>::Sync
}

/// A group of windows is acted on as it is given, whatever its windows are called: all are hidden,
/// all shown with the focus where the pad wants it, or all closed.
pub proof fn law_groups_are_acted_on_as_given<F>(
    pad: PadView,
    group: Seq<Win<F>>,
    second_look: bool,
)
    requires
        group.len() > 0,
    ensures
        ({
            let hiding = |w: Win<F>| Request::Hide(w);
            let showing = |w: Win<F>|
                Request::Reveal { win: w, focus: pad.spec.focus_on_show };
            let closing = |w: Win<F>| Request::Close(w);
            let visible = exists|i: int| 0 <= i < group.len() && !(#[trigger] group[i]).hidden;
            &&& ops::hide_group_step(pad, group) matches StepView::Act { requests, report }
                && one_each(requests, group, hiding, true)
            &&& ops::close_group_step(pad, group) matches StepView::Act { requests, report }
                && one_each(requests, group, closing, false)
            &&& ops::show_group_step(pad, group, second_look) matches Ok(
                StepView::Act { requests, report },
            ) && one_each(requests, group, showing, true)
            &&& ops::toggle_group_step(pad, group, second_look) matches Ok(
                StepView::Act { requests, report },
            ) && {
                &&& visible ==> one_each(requests, group, hiding, true)
                &&& !visible ==> one_each(requests, group, showing, true)
            }
        }),
{
}

/// driftwm is used where it answers, unless the protocol is asked for; asking for driftwm where it
/// does not answer fails, and in every other case the protocol is used. Transparency that is wanted
/// falls short there and nowhere else.
pub proof fn law_backends_are_chosen_by_wish_and_answer(
    kind: BackendKind,
    answers: bool,
    mode: HideMode,
)
    ensures
        command::choice(BackendKind::ForeignToplevel, answers) == Ok::<Chosen, OpenError>(
            Chosen::ForeignToplevel,
        ),
        command::choice(kind, true) == Ok::<Chosen, OpenError>(Chosen::Driftwm) <==> kind
            != BackendKind::ForeignToplevel,
        command::choice(kind, false) != Ok::<Chosen, OpenError>(Chosen::Driftwm),
        command::choice(kind, answers) is Err <==> kind == BackendKind::Driftwm && !answers,
        command::choice(BackendKind::Driftwm, false) == Err::<Chosen, OpenError>(
            OpenError::NoDriftwm,
        ),
        command::falls_short(Chosen::ForeignToplevel, mode) <==> mode != HideMode::Move,
        !command::falls_short(Chosen::Driftwm, mode),
{
}

/// The command line decides how long to wait, then the pad, then the configuration.
pub proof fn law_the_nearest_waiting_time_counts(asked: u64, own: Option<u64>, ms: u64, general: u64)
    ensures
        command::waiting_time(Some(asked), own, general) == asked,
        command::waiting_time(None, Some(ms), general) == ms,
        command::waiting_time(None, None, general) == general,
{
}

/// What a command reports names the pad and, where it acted on windows, says how many.
pub proof fn law_reports_name_and_count<F>(
    command: PadCommand,
    pad: PadView,
    wins: Seq<Win<F>>,
    second_look: bool,
    requests: Seq<Request<F>>,
    report: Seq<char>,
)
    requires
        command::next_step(command, pad, wins, second_look) == Ok::<StepView<F>, OpFault>(
            StepView::Act { requests, report },
        ),
    ensures
        text::occurs(pad.name, report),
        requests.len() > 0 ==> text::occurs(
            text::decimal(ops::belonging(wins, pad).len()),
            report,
        ),
        requests.len() > 0 && requests[0] is Hide ==> text::occurs("已隐藏"@, report),
        requests.len() > 0 && requests[0] is Reveal ==> text::occurs("已显示"@, report),
        requests.len() > 0 && requests[0] is Close ==> text::occurs("已关闭"@, report),
{
    let list = ops::belonging(wins, pad);
    let e = Seq::<char>::empty();
    let n = text::decimal(list.len());
    let m = "'（"@;
    let end = " 个窗口）"@;
    if list.len() == 0 {
        let back = if command == PadCommand::Hide {
            "' 没有匹配的窗口，无需隐藏"@
        } else {
            "' 没有匹配的窗口，无需关闭"@
        };
        texts::lemma_within(report, "'"@, pad.name, back);
    } else {
        reveal_strlit("已隐藏 '");
        reveal_strlit("已隐藏");
        reveal_strlit("已显示 '");
        reveal_strlit("已显示");
        reveal_strlit("已关闭 '");
        reveal_strlit("已关闭");
        let (front, verb) = if requests[0] is Hide {
            ("已隐藏 '"@, "已隐藏"@)
        } else if requests[0] is Reveal {
            ("已显示 '"@, "已显示"@)
        } else {
            ("已关闭 '"@, "已关闭"@)
        };
        assert(report == front + pad.name + m + n + end);
        texts::lemma_within(report, front, pad.name, m + n + end);
        texts::lemma_within(report, front + pad.name + m, n, end);
        assert(front =~= verb + front.skip(3));
        texts::lemma_within(report, e, verb, front.skip(3) + pad.name + m + n + end);
    }
}

/// What the user is told where nothing could be shown names the pad and, after a launch, how long was
/// waited.
pub proof fn law_failures_name_the_pad(pad: Seq<char>, wait_ms: u64)
    ensures
        text::occurs(pad, (OpFault::NoLaunch { pad }).words()),
        text::occurs(pad, (OpFault::NoWindow { pad, wait_ms }).words()),
        text::occurs(
            text::decimal(wait_ms as nat),
            (OpFault::NoWindow { pad, wait_ms }).words(),
        ),
{
    let a = (OpFault::NoLaunch { pad }).words();
    texts::lemma_within(a, "没有匹配 '"@, pad, "' 的窗口，且配置里也没有为它设置 launch 命令"@);
    let b = (OpFault::NoWindow { pad, wait_ms }).words();
    let n = text::decimal(wait_ms as nat);
    let f = "已启动 '"@;
    let m = "'，但 "@;
    let end = "ms 内未出现匹配窗口"@;
    texts::lemma_within(b, f, pad, m + n + end);
    texts::lemma_within(b, f + pad + m, n, end);
}

/// There is a warning exactly where the pad says anything about size or place and the backend is not
/// driftwm; it names the pad and the backend. Only commands that show windows warn.
pub proof fn law_geometry_is_warned_of_where_it_is_ignored(
    command: PadCommand,
    backend: Seq<char>,
    pad: PadView,
)
    ensures
        ops::geometry_warning(backend, pad) is Some <==> {
            &&& backend != "driftwm"@
            &&& pad.spec.width is Some || pad.spec.height is Some || pad.spec.edge is Some
                || pad.spec.margin != 0 || pad.spec.fullscreen
        },
        ops::geometry_warning(backend, pad) matches Some(w) ==> text::occurs(pad.name, w)
            && text::occurs(backend, w),
        command.shows() <==> match command {
            PadCommand::Toggle | PadCommand::Show => true,
            PadCommand::Hide | PadCommand::Close => false,
        },
{
    if let Some(w) = ops::geometry_warning(backend, pad) {
        let f = "pad '"@;
        let m = "' 配置了窗口几何（width/height/edge/margin/fullscreen），仅 driftwm 后端支持，当前后端 "@;
        let end = " 将忽略"@;
        texts::lemma_within(w, f, pad.name, m + backend + end);
        texts::lemma_within(w, f + pad.name + m, backend, end);
    }
}

/// The tags of a window are those of the pads that match it, each once and in the order of the pads.
pub proof fn law_windows_are_tagged_by_their_pads<F>(
    front: Seq<PadView>,
    pad: PadView,
    win: Win<F>,
    i: int,
)
    ensures
        ops::owners(Seq::<PadView>::empty(), win) == Seq::<Seq<char>>::empty(),
        pad.matches(win.app_id@, win.title@) ==> ops::owners(front.push(pad), win) == ops::owners(
            front,
            win,
        ).push(pad.name),
        !pad.matches(win.app_id@, win.title@) ==> ops::owners(front.push(pad), win) == ops::owners(
            front,
            win,
        ),
        ops::tags(front, win).len() == ops::owners(front, win).len(),
        0 <= i < ops::tags(front, win).len() ==> ops::tags(front, win)[i] == "pad:"@ + ops::owners(
            front,
            win,
        )[i],
{
    reveal(Seq::filter);
    let own = |p: PadView| ops::belongs(win, p);
    let named = |p: PadView| p.name;
    assert(front.push(pad).drop_last() =~= front);
    assert(ops::owners(Seq::<PadView>::empty(), win) =~= Seq::empty());
    assert(front.filter(own).push(pad).map_values(named) =~= front.filter(own).map_values(
        named,
    ).push(pad.name));
}

/// A window is marked as hidden where it is, and as focused where it is; no two of these look alike.
pub proof fn law_marks_tell_states_apart<F>(a: Win<F>, b: Win<F>)
    ensures
        ops::marks(a) == ops::marks(b) <==> a.hidden == b.hidden && a.focused == b.focused,
        a.hidden ==> text::occurs("hidden"@, ops::marks(a)),
        a.focused ==> text::occurs("focused"@, ops::marks(a)),
        !a.hidden && !a.focused ==> ops::marks(a).len() == 0,
{
    reveal_strlit(" [hidden,focused] ");
    reveal_strlit(" [hidden] ");
    reveal_strlit(" [focused] ");
    reveal_strlit("hidden");
    reveal_strlit("focused");
    let m = ops::marks(a);
    if a.hidden {
        texts::lemma_within(m, m.take(2), "hidden"@, m.skip(8));
    }
    if a.focused {
        let at: int = if a.hidden {
            9
        } else {
            2
        };
        texts::lemma_within(m, m.take(at), "focused"@, m.skip(at + 7));
    }
}

/// The line of a window has its label, its application id, its title, its marks and all its tags.
pub proof fn law_window_lines_are_complete<F>(listed: Listed<F>, tags: Seq<Seq<char>>)
    ensures
        ({
            let line = ops::window_line(listed, tags);
            &&& text::occurs(listed.label@, line)
            &&& text::occurs(
                " app_id='"@ + listed.win.app_id@ + "' title='"@ + listed.win.title@ + "'"@
                    + ops::marks(listed.win),
                line,
            )
            &&& tags.len() > 0 ==> text::occurs(" "@ + text::joined(tags, " "@), line)
            &&& text::occurs("\n"@, line)
        }),
{
    let e = Seq::<char>::empty();
    let line = ops::window_line(listed, tags);
    let label = listed.label@;
    let wide = text::padded(label, 22);
    let spaces = wide.skip(label.len() as int);
    texts::law_padding_is_spaces_behind(label, 22);
    assert(wide =~= label + spaces);
    let fields = " app_id='"@ + listed.win.app_id@ + "' title='"@ + listed.win.title@ + "'"@
        + ops::marks(listed.win);
    let tail = if tags.len() == 0 {
        e
    } else {
        " "@ + text::joined(tags, " "@)
    };
    assert(line =~= "  "@ + wide + fields + tail + "\n"@);
    lemma_parts(line, "  "@, label, spaces, fields, tail, "\n"@);
}

/// The line of a pad has its name, its patterns and its command.
pub proof fn law_pad_lines_are_complete(pad: PadView)
    ensures
        ({
            let line = ops::pad_line(pad);
            &&& text::occurs(pad.name, line)
            &&& text::occurs(" app_id='"@ + pad.spec.app_id + "'"@, line)
            &&& pad.spec.title.len() > 0 ==> text::occurs(
                " title='"@ + pad.spec.title + "'"@,
                line,
            )
            &&& pad.spec.launch matches Some(c) ==> text::occurs("  launch="@ + c + "\n"@, line)
            &&& pad.spec.launch is None ==> text::occurs("  launch="@ + "-"@ + "\n"@, line)
        }),
{
    let line = ops::pad_line(pad);
    let e = Seq::<char>::empty();
    let wide = text::padded(pad.name, 16);
    let spaces = wide.skip(pad.name.len() as int);
    texts::law_padding_is_spaces_behind(pad.name, 16);
    assert(wide =~= pad.name + spaces);
    let id = " app_id='"@ + pad.spec.app_id + "'"@;
    let title = if pad.spec.title.len() == 0 {
        e
    } else {
        " title='"@ + pad.spec.title + "'"@
    };
    let command = "  launch="@ + (match pad.spec.launch {
        Some(c) => c,
        None => "-"@,
    }) + "\n"@;
    assert(line =~= "  "@ + wide + id + title + command);
    lemma_parts(line, "  "@, pad.name, spaces, id, title, command);
}

proof fn lemma_parts(
    line: Seq<char>,
    indent: Seq<char>,
    name: Seq<char>,
    spaces: Seq<char>,
    a: Seq<char>,
    b: Seq<char>,
    c: Seq<char>,
)
    requires
        line == indent + (name + spaces) + a + b + c,
    ensures
        text::occurs(name, line),
        text::occurs(a, line),
        text::occurs(b, line),
        text::occurs(c, line),
{
    texts::lemma_within(line, indent, name, spaces + a + b + c);
    texts::lemma_within(line, indent + (name + spaces), a, b + c);
    texts::lemma_within(line, indent + (name + spaces) + a, b, c);
    texts::lemma_within(line, indent + (name + spaces) + a + b, c, Seq::empty());
}

/// A listing has a line for every pad and for every window, and names the backend.
pub proof fn law_listings_are_complete<F>(
    backend: Seq<char>,
    pads: Seq<PadView>,
    wins: Seq<Listed<F>>,
    i: int,
)
    ensures
        ({
            let listing = ops::listing(backend, pads, wins);
            &&& text::occurs(backend, listing)
            &&& 0 <= i < pads.len() ==> text::occurs(ops::pad_line(pads[i]), listing)
            &&& 0 <= i < wins.len() ==> text::occurs(
                ops::window_line(wins[i], ops::tags(pads, wins[i].win)),
                listing,
            )
        }),
{
    let listing = ops::listing(backend, pads, wins);
    let tags = ops::tags_of(pads, wins);
    let e = Seq::<char>::empty();
    let upper = if pads.len() == 0 {
        "Pads: （配置中没有定义 pad）\n"@
    } else {
        "Pads:\n"@ + ops::pad_lines(pads)
    };
    let lower = if wins.len() == 0 {
        "  （没有窗口）\n"@
    } else {
        ops::window_lines(wins, tags)
    };
    let head = "backend: "@ + backend + "\n\n"@;
    let mid = "\nWindows:\n"@;
    assert(listing == head + upper + mid + lower);
    lemma_halves(listing, head, upper, mid, lower);
    texts::lemma_within_part(listing, e, head, upper + (mid + lower), "backend: "@, backend, "\n\n"@);
    if 0 <= i < pads.len() {
        let (a, b) = lemma_pad_lines(pads, i);
        lemma_behind("Pads:\n"@, ops::pad_lines(pads), a, ops::pad_line(pads[i]), b);
        texts::lemma_within_part(
            listing,
            head,
            upper,
            mid + lower,
            "Pads:\n"@ + a,
            ops::pad_line(pads[i]),
            b,
        );
    }
    if 0 <= i < wins.len() {
        let (a, b) = lemma_window_lines(wins, tags, i);
        assert(tags[i] == ops::tags(pads, wins[i].win));
        texts::lemma_within_part(
            listing,
            head + upper + mid,
            lower,
            e,
            a,
            ops::window_line(wins[i], tags[i]),
            b,
        );
    }
}

proof fn lemma_halves(
    whole: Seq<char>,
    head: Seq<char>,
    upper: Seq<char>,
    mid: Seq<char>,
    lower: Seq<char>,
)
    requires
        whole == head + upper + mid + lower,
    ensures
        whole == Seq::<char>::empty() + head + (upper + (mid + lower)),
        whole == head + upper + (mid + lower),
        whole == head + upper + mid + lower + Seq::<char>::empty(),
{
    assert(whole =~= Seq::<char>::empty() + head + (upper + (mid + lower)));
    assert(whole =~= head + upper + (mid + lower));
    assert(whole =~= head + upper + mid + lower + Seq::<char>::empty());
}

proof fn lemma_behind(
    title: Seq<char>,
    lines: Seq<char>,
    a: Seq<char>,
    line: Seq<char>,
    b: Seq<char>,
)
    requires
        lines == a + line + b,
    ensures
        title + lines == title + a + line + b,
{
    assert(title + lines =~= title + a + line + b);
}

proof fn lemma_pad_lines(pads: Seq<PadView>, i: int) -> (r: (Seq<char>, Seq<char>))
    requires
        0 <= i < pads.len(),
    ensures
        ops::pad_lines(pads) == r.0 + ops::pad_line(pads[i]) + r.1,
    decreases pads.len(),
{
    let front = pads.drop_last();
    let last = ops::pad_line(pads.last());
    if i < front.len() {
        let (a, b) = lemma_pad_lines(front, i);
        assert(ops::pad_lines(pads) =~= a + ops::pad_line(pads[i]) + (b + last));
        (a, b + last)
    } else {
        assert(ops::pad_lines(pads) =~= ops::pad_lines(front) + last + Seq::empty());
        (ops::pad_lines(front), Seq::empty())
    }
}

proof fn lemma_window_lines<F>(wins: Seq<Listed<F>>, tags: Seq<Seq<Seq<char>>>, i: int) -> (r: (
    Seq<char>,
    Seq<char>,
))
    requires
        0 <= i < wins.len(),
    ensures
        ops::window_lines(wins, tags) == r.0 + ops::window_line(wins[i], tags[i]) + r.1,
    decreases wins.len(),
{
    let front = wins.drop_last();
    let last = ops::window_line(wins.last(), tags[wins.len() - 1]);
    if i < front.len() {
        let (a, b) = lemma_window_lines(front, tags, i);
        assert(ops::window_lines(wins, tags) =~= a + ops::window_line(wins[i], tags[i]) + (b
            + last));
        (a, b + last)
    } else {
        assert(ops::window_lines(wins, tags) =~= ops::window_lines(front, tags) + last
            + Seq::empty());
        (ops::window_lines(front, tags), Seq::empty())
    }
}

/// Listings and diagnoses grow line by line, in the order of pads and windows.
pub proof fn law_reports_grow_line_by_line<F>(
    pads: Seq<PadView>,
    pad: PadView,
    wins: Seq<Listed<F>>,
    win: Listed<F>,
    tags: Seq<Seq<Seq<char>>>,
    own: Seq<Seq<char>>,
    counts: Seq<nat>,
    n: nat,
    strings: Seq<Vec<String>>,
    i: int,
)
    requires
        tags.len() == wins.len(),
        counts.len() == pads.len(),
    ensures
        ops::pad_lines(Seq::empty()) == Seq::<char>::empty(),
        ops::pad_lines(pads.push(pad)) == ops::pad_lines(pads) + ops::pad_line(pad),
        ops::window_lines(Seq::<Listed<F>>::empty(), tags) == Seq::<char>::empty(),
        ops::window_lines(wins.push(win), tags.push(own)) == ops::window_lines(wins, tags)
            + ops::window_line(win, own),
        ops::count_lines(pads.push(pad), counts.push(n)) == ops::count_lines(pads, counts) + ("  "@
            + text::padded(pad.name, 16) + " "@ + text::decimal(n) + " 个窗口\n"@),
        ops::tag_texts(strings).len() == strings.len(),
        0 <= i < strings.len() ==> ops::tag_texts(strings)[i] == text::texts(strings[i]@),
{
    assert(pads.push(pad).drop_last() =~= pads);
    assert(wins.push(win).drop_last() =~= wins);
    lemma_more_tags(wins, tags, tags.push(own));
    lemma_more_counts(pads, counts, counts.push(n));
}

proof fn lemma_more_tags<F>(
    wins: Seq<Listed<F>>,
    a: Seq<Seq<Seq<char>>>,
    b: Seq<Seq<Seq<char>>>,
)
    requires
        forall|i: int| 0 <= i < wins.len() ==> #[trigger] a[i] == b[i],
    ensures
        ops::window_lines(wins, a) == ops::window_lines(wins, b),
    decreases wins.len(),
{
    if wins.len() > 0 {
        lemma_more_tags(wins.drop_last(), a, b);
        assert(a[wins.len() - 1] == b[wins.len() - 1]);
    }
}

proof fn lemma_more_counts(pads: Seq<PadView>, a: Seq<nat>, b: Seq<nat>)
    requires
        forall|i: int| 0 <= i < pads.len() ==> #[trigger] a[i] == b[i],
    ensures
        ops::count_lines(pads, a) == ops::count_lines(pads, b),
    decreases pads.len(),
{
    if pads.len() > 0 {
        lemma_more_counts(pads.drop_last(), a, b);
        assert(a[pads.len() - 1] == b[pads.len() - 1]);
    }
}

/// A diagnosis names the backend and the configuration and has, for every pad, its name and the
/// number of its windows.
pub proof fn law_diagnoses_are_complete(
    backend: Seq<char>,
    config: Seq<char>,
    pads: Seq<PadView>,
    counts: Seq<nat>,
    i: int,
)
    requires
        0 <= i < pads.len(),
    ensures
        ({
            let report = ops::diagnosis(backend, config, pads, counts);
            &&& text::occurs("backend: "@ + backend + "\n"@, report)
            &&& text::occurs("config: "@ + config + "\n"@, report)
            &&& text::occurs(
                text::padded(pads[i].name, 16) + " "@ + text::decimal(counts[i]) + " 个窗口\n"@,
                report,
            )
        }),
{
    let report = ops::diagnosis(backend, config, pads, counts);
    let e = Seq::<char>::empty();
    let lines = ops::count_lines(pads, counts);
    let first = "backend: "@ + backend + "\n"@;
    let second = "config: "@ + config + "\n"@;
    let head = "Pads:\n"@;
    assert(report =~= first + second + head + lines);
    texts::lemma_within(report, e, first, second + head + lines);
    texts::lemma_within(report, first, second, head + lines);
    let line = text::padded(pads[i].name, 16) + " "@ + text::decimal(counts[i]) + " 个窗口\n"@;
    let (a, b) = lemma_count_lines(pads, counts, i);
    texts::lemma_within(report, first + second + head + a, line, b);
}

proof fn lemma_count_lines(pads: Seq<PadView>, counts: Seq<nat>, i: int) -> (r: (
    Seq<char>,
    Seq<char>,
))
    requires
        0 <= i < pads.len(),
    ensures
        ops::count_lines(pads, counts) == r.0 + (text::padded(pads[i].name, 16) + " "@
            + text::decimal(counts[i]) + " 个窗口\n"@) + r.1,
    decreases pads.len(),
{
    let front = pads.drop_last();
    let all = ops::count_lines(pads, counts);
    let k = pads.len() - 1;
    let last = text::padded(pads[k].name, 16) + " "@ + text::decimal(counts[k]) + " 个窗口\n"@;
    assert(all =~= ops::count_lines(front, counts) + "  "@ + last);
    if i < front.len() {
        let (a, b) = lemma_count_lines(front, counts, i);
        let mine = text::padded(pads[i].name, 16) + " "@ + text::decimal(counts[i]) + " 个窗口\n"@;
        assert(all =~= a + mine + (b + "  "@ + last));
        (a, b + "  "@ + last)
    } else {
        assert(all =~= (ops::count_lines(front, counts) + "  "@) + last + Seq::empty());
        (ops::count_lines(front, counts) + "  "@, Seq::empty())
    }
}

/// The views of windows, steps and failures have all that these have.
pub proof fn law_views_of_steps_keep_everything<F>(
    win: Win<F>,
    step: Step<F>,
    e: OpError,
    r: Result<Step<F>, OpError>,
    wins: Seq<Win<F>>,
    i: int,
)
    ensures
        win@.key == win.key@,
        win@.app_id == win.app_id@,
        win@.title == win.title@,
        win@.hidden == win.hidden,
        win@.focused == win.focused,
        win@.position == win.position,
        backend::win_views(wins).len() == wins.len(),
        0 <= i < wins.len() ==> backend::win_views(wins)[i] == wins[i]@,
        match step {
            Step::LookAgain { after_ms } => step@ == (StepView::<F>::LookAgain { after_ms }),
            Step::Act { requests, report } => step@ == (StepView::Act {
                requests: requests@,
                report: report@,
            }),
            Step::Launch { command } => step@ == (StepView::<F>::Launch { command: command@ }),
        },
        match e {
            OpError::NoLaunch { pad } => e@ == (OpFault::NoLaunch { pad: pad@ }),
            OpError::NoWindow { pad, wait_ms } => e@ == (OpFault::NoWindow { pad: pad@, wait_ms }),
        },
        match r {
            Ok(s) => ops::outcome(r) == Ok::<StepView<F>, OpFault>(s@),
            Err(f) => ops::outcome(r) == Err::<StepView<F>, OpFault>(f@),
        },
{
}

} // verus!
