//! Laws of the configuration: what is written counts, faults are found, pads are found.

use super::texts;
use crate::config;
use crate::config::BackendKind;
use crate::config::Config;
use crate::config::ConfigError;
use crate::config::ConfigFault;
use crate::config::ConfigFields;
use crate::config::Extent;
use crate::config::HideMode;
use crate::config::Pad;
use crate::config::PadFields;
use crate::config::PadSpec;
use crate::config::PadSpecView;
use crate::config::PadView;
use crate::config::Size;
use crate::config::SizeError;
use crate::config::SizeFault;
use crate::config::SizeView;
use crate::outside;
use crate::pad;
use crate::size;
use crate::size::Number;
use crate::size::NumberView;
use crate::text;
use vstd::prelude::*;

verus! {

/// Whether a size, as it is written, has this view.
pub open spec fn reads_as(written: Size, read: SizeView) -> bool {
    match written {
        Size::Px(v) => read == SizeView::Px(v),
        Size::Percent { text, number } => {
            &&& read matches SizeView::Percent { text: t, number: n } && t == text@ && match number {
                Number::Invalid { reason } => n == (NumberView::Invalid { reason: reason@ }),
                Number::Outside => n == NumberView::Outside,
                Number::Within { bits } => n == (NumberView::Within { bits }),
            }
        },
    }
}

/// Whether a size that may be left out has this view.
pub open spec fn may_read_as(written: Option<Size>, read: Option<SizeView>) -> bool {
    match written {
        Some(size) => read matches Some(r) && reads_as(size, r),
        None => read is None,
    }
}

/// Whether a pad says what was written, with a default only where nothing was.
pub open spec fn says(spec: PadSpecView, written: PadFields) -> bool {
    &&& spec.app_id == written.app_id@
    &&& written.title matches Some(title) ==> spec.title == title@
    &&& written.title is None ==> spec.title.len() == 0
    &&& written.launch matches Some(command) ==> spec.launch == Some(command@)
    &&& written.launch is None ==> spec.launch is None
    &&& written.focus_on_show matches Some(focus) ==> spec.focus_on_show == focus
    &&& written.focus_on_show is None ==> spec.focus_on_show
    &&& spec.launch_wait_ms == written.launch_wait_ms
    &&& may_read_as(written.width, spec.width)
    &&& may_read_as(written.height, spec.height)
    &&& written.margin matches Some(margin) ==> spec.margin == margin
    &&& written.margin is None ==> spec.margin == 0
    &&& spec.edge == written.edge
    &&& written.fullscreen matches Some(fullscreen) ==> spec.fullscreen == fullscreen
    &&& written.fullscreen is None ==> !spec.fullscreen
}

/// Whatever a pad says where it is written, it says when it is found by its name; a default stands
/// only where nothing was written. Of two pads of one name the later counts.
pub proof fn law_what_is_written_counts(pads: Seq<(String, PadFields)>, i: int)
    requires
        0 <= i < pads.len(),
        forall|j: int| i < j < pads.len() ==> (#[trigger] pads[j]).0@ != pads[i].0@,
    ensures
        outside::lookup(config::written(pads), pads[i].0@) matches Some(spec) && says(
            spec,
            pads[i].1,
        ),
        config::config_fault(config::written(pads)) is None ==> {
            config::pad_asked(config::written(pads), Some(pads[i].0@)) matches Ok(found) && {
                let written = pads[i].1;
                &&& says(found.spec, written)
                &&& found.name == pads[i].0@
                &&& found.app_id == written.app_id@
                &&& written.title matches Some(title) ==> (title@.len() > 0 ==> found.title == Some(
                    title@,
                ))
                &&& written.title matches Some(title) ==> (title@.len() == 0
                    ==> found.title is None)
                &&& written.title is None ==> found.title is None
            }
        },
{
    lemma_last_written_counts(pads, i);
    if config::config_fault(config::written(pads)) is None {
        config::law_valid_pads_resolve(config::written(pads), pads[i].0@);
    }
}

proof fn lemma_last_written_counts(pads: Seq<(String, PadFields)>, i: int)
    requires
        0 <= i < pads.len(),
        forall|j: int| i < j < pads.len() ==> (#[trigger] pads[j]).0@ != pads[i].0@,
    ensures
        outside::lookup(config::written(pads), pads[i].0@) == Some(pads[i].1.filled()),
    decreases pads.len(),
{
    let front = pads.drop_last();
    let last = pads.last();
    lemma_entry_is_found(config::written(front), last.0@, last.1.filled(), pads[i].0@);
    if i < front.len() {
        assert(pads[pads.len() - 1].0@ != pads[i].0@);
        assert forall|j: int| i < j < front.len() implies (#[trigger] front[j]).0@
            != front[i].0@ by {
            assert(front[j] == pads[j]);
        }
        lemma_last_written_counts(front, i);
    }
}

proof fn lemma_entry_is_found(
    list: Seq<(Seq<char>, PadSpecView)>,
    key: Seq<char>,
    value: PadSpecView,
    other: Seq<char>,
)
    ensures
        outside::lookup(outside::with_entry(list, key, value), other) == if other == key {
            Some(value)
        } else {
            outside::lookup(list, other)
        },
    decreases list.len(),
{
    let more = outside::with_entry(list, key, value);
    if list.len() == 0 {
        assert(more == seq![(key, value)]);
        assert(more.drop_first() =~= Seq::empty());
        assert(outside::lookup(more.drop_first(), other) is None);
    } else if list[0].0 == key {
        assert(more[0] == (key, value));
        assert(more.drop_first() =~= list.drop_first());
    } else {
        let rest = list.drop_first();
        lemma_entry_is_found(rest, key, value, other);
        assert(more == seq![list[0]] + outside::with_entry(rest, key, value));
        assert(more[0] == list[0]);
        assert(more.drop_first() =~= outside::with_entry(rest, key, value));
    }
}

/// Whatever a configuration says apart from its pads, it says when it has been loaded; where nothing
/// is written, the backend is chosen automatically, windows are hidden by moving, no screen is given
/// and launched windows have 1500 ms.
pub proof fn law_what_is_written_in_general_counts<F: Copy>(fields: ConfigFields<F>, c: Config<F>)
    ensures
        ({
            let g = config::general(fields);
            &&& fields.backend matches Some(backend) ==> g.backend == backend
            &&& fields.backend is None ==> g.backend == BackendKind::Auto
            &&& fields.hide_mode matches Some(mode) ==> g.hide_mode == mode
            &&& fields.hide_mode is None ==> g.hide_mode == HideMode::Move
            &&& g.viewport == fields.viewport
            &&& fields.launch_wait_ms matches Some(ms) ==> g.launch_wait_ms == ms
            &&& fields.launch_wait_ms is None ==> g.launch_wait_ms == 1500
        }),
        c.general().backend == c.backend,
        c.general().hide_mode == c.hide_mode,
        c.general().viewport == c.viewport,
        c.general().launch_wait_ms == c.launch_wait_ms,
        c.entries() == outside::entries(c.pads),
{
}

/// An entry is found under its key: it is the first that has it, and none is found where none has.
pub proof fn law_entries_are_found_by_key(list: Seq<(Seq<char>, PadSpecView)>, key: Seq<char>)
    ensures
        match outside::lookup(list, key) {
            Some(value) => exists|i: int|
                #![trigger list[i]]
                0 <= i < list.len() && list[i] == (key, value) && forall|k: int|
                    0 <= k < i ==> (#[trigger] list[k]).0 != key,
            None => forall|k: int| 0 <= k < list.len() ==> (#[trigger] list[k]).0 != key,
        },
    decreases list.len(),
{
    if list.len() > 0 {
        let rest = list.drop_first();
        if list[0].0 == key {
            assert(list[0] == (key, list[0].1));
        } else {
            law_entries_are_found_by_key(rest, key);
            match outside::lookup(rest, key) {
                Some(value) => {
                    let i = choose|i: int|
                        #![trigger rest[i]]
                        0 <= i < rest.len() && rest[i] == (key, value) && forall|k: int|
                            0 <= k < i ==> (#[trigger] rest[k]).0 != key;
                    assert(list[i + 1] == (key, value));
                    assert forall|k: int| 0 <= k < i + 1 implies (#[trigger] list[k]).0 != key by {
                        if k > 0 {
                            assert(rest[k - 1] == list[k]);
                        }
                    }
                },
                None => {
                    assert forall|k: int| 0 <= k < list.len() implies (#[trigger] list[k]).0
                        != key by {
                        if k > 0 {
                            assert(rest[k - 1] == list[k]);
                        }
                    }
                },
            }
        }
    }
}

/// A configuration is accepted where it has pads and nothing is wrong with any of them; else what is
/// reported is what is wrong with the first pad that has a fault.
pub proof fn law_the_first_faulty_pad_is_reported(list: Seq<(Seq<char>, PadSpecView)>)
    ensures
        list.len() == 0 ==> config::config_fault(list) == Some(ConfigFault::NoPads),
        list.len() > 0 ==> match config::config_fault(list) {
            None => forall|i: int|
                0 <= i < list.len() ==> (#[trigger] list[i]).1.fault(list[i].0) is None,
            Some(fault) => exists|i: int|
                #![trigger list[i]]
                0 <= i < list.len() && list[i].1.fault(list[i].0) == Some(fault) && forall|k: int|
                    0 <= k < i ==> (#[trigger] list[k]).1.fault(list[k].0) is None,
        },
{
    lemma_first_fault(list);
}

proof fn lemma_first_fault(list: Seq<(Seq<char>, PadSpecView)>)
    ensures
        match config::first_fault(list) {
            None => forall|i: int|
                0 <= i < list.len() ==> (#[trigger] list[i]).1.fault(list[i].0) is None,
            Some(fault) => exists|i: int|
                #![trigger list[i]]
                0 <= i < list.len() && list[i].1.fault(list[i].0) == Some(fault) && forall|k: int|
                    0 <= k < i ==> (#[trigger] list[k]).1.fault(list[k].0) is None,
        },
    decreases list.len(),
{
    if list.len() > 0 {
        let rest = list.drop_first();
        if list[0].1.fault(list[0].0) is None {
            lemma_first_fault(rest);
            match config::first_fault(rest) {
                None => {
                    assert forall|i: int| 0 <= i < list.len() implies (#[trigger] list[i]).1.fault(
                        list[i].0,
                    ) is None by {
                        if i > 0 {
                            assert(rest[i - 1] == list[i]);
                        }
                    }
                },
                Some(fault) => {
                    let i = choose|i: int|
                        #![trigger rest[i]]
                        0 <= i < rest.len() && rest[i].1.fault(rest[i].0) == Some(fault)
                            && forall|k: int|
                            0 <= k < i ==> (#[trigger] rest[k]).1.fault(rest[k].0) is None;
                    assert(list[i + 1] == rest[i]);
                    assert forall|k: int| 0 <= k < i + 1 implies (#[trigger] list[k]).1.fault(
                        list[k].0,
                    ) is None by {
                        if k > 0 {
                            assert(rest[k - 1] == list[k]);
                        }
                    }
                },
            }
        } else {
            assert(list[0].1.fault(list[0].0) is Some);
        }
    }
}

/// A pad is accepted where it has an application id, patterns that compile and sizes that can be
/// used. An empty title needs no pattern that compiles. Else the first of these that is amiss is
/// reported, with the name of the pad and the reason.
pub proof fn law_pads_are_checked_in_order(
    spec: PadSpecView,
    name: Seq<char>,
    app_id_fault: Option<Seq<char>>,
    title_fault: Option<Seq<char>>,
)
    ensures
        spec.fault(name) == spec.fault_given(
            name,
            outside::regex_fault(spec.app_id),
            outside::regex_fault(spec.title),
        ),
        ({
            let fault = spec.fault_given(name, app_id_fault, title_fault);
            let patterns = app_id_fault is None && (spec.title.len() == 0 || title_fault is None);
            &&& fault is None <==> {
                &&& spec.app_id.len() > 0
                &&& patterns
                &&& spec.width matches Some(w) ==> w.extent() is Ok
                &&& spec.height matches Some(h) ==> h.extent() is Ok
            }
            &&& spec.app_id.len() == 0 ==> fault == Some(ConfigFault::NoAppId { pad: name })
            &&& spec.app_id.len() > 0 && app_id_fault is Some ==> fault == Some(
                ConfigFault::BadAppId { pad: name, reason: app_id_fault->0 },
            )
            &&& spec.app_id.len() > 0 && app_id_fault is None && spec.title.len() > 0
                && title_fault is Some ==> fault == Some(
                ConfigFault::BadTitle { pad: name, reason: title_fault->0 },
            )
            &&& spec.app_id.len() > 0 && patterns && spec.width is Some
                && spec.width->0.extent() is Err ==> fault == Some(
                ConfigFault::BadSize(spec.width->0.extent()->Err_0),
            )
            &&& spec.app_id.len() > 0 && patterns && (spec.width matches Some(w)
                ==> w.extent() is Ok) && spec.height is Some && spec.height->0.extent() is Err
                ==> fault == Some(ConfigFault::BadSize(spec.height->0.extent()->Err_0))
        }),
{
}

/// A pad is made where its patterns compile, whatever else is wrong with it; it then has its name,
/// its definition and its patterns. Else the pattern that does not compile is reported.
pub proof fn law_pads_are_made_of_their_definition(
    spec: PadSpecView,
    name: Seq<char>,
    app_id_fault: Option<Seq<char>>,
    title_fault: Option<Seq<char>>,
)
    ensures
        spec.compiled(name) == spec.compiled_given(
            name,
            outside::regex_fault(spec.app_id),
            outside::regex_fault(spec.title),
        ),
        match spec.compiled_given(name, app_id_fault, title_fault) {
            Ok(made) => {
                &&& app_id_fault is None
                &&& spec.title.len() > 0 ==> title_fault is None
                &&& made == spec.named(name)
                &&& made.name == name
                &&& made.spec == spec
                &&& made.app_id == spec.app_id
                &&& spec.title.len() > 0 ==> made.title == Some(spec.title)
                &&& spec.title.len() == 0 ==> made.title is None
            },
            Err(fault) => {
                ||| app_id_fault matches Some(reason) && fault == (ConfigFault::BadAppId {
                    pad: name,
                    reason,
                })
                ||| app_id_fault is None && spec.title.len() > 0 && title_fault is Some && fault == (
                ConfigFault::BadTitle { pad: name, reason: title_fault->0 })
            },
        },
{
}

/// All pads are handed out where each can be made, in their order; else what keeps the first bad one
/// from being made is reported.
pub proof fn law_all_pads_or_the_first_bad_one(list: Seq<(Seq<char>, PadSpecView)>)
    ensures
        match config::all_compiled(list) {
            Ok(all) => {
                &&& all.len() == list.len()
                &&& forall|i: int|
                    #![trigger all[i]]
                    0 <= i < list.len() ==> list[i].1.compiled(list[i].0) == Ok::<
                        PadView,
                        ConfigFault,
                    >(all[i])
            },
            Err(fault) => exists|i: int|
                #![trigger list[i]]
                0 <= i < list.len() && list[i].1.compiled(list[i].0) == Err::<PadView, ConfigFault>(
                    fault,
                ) && forall|k: int|
                    0 <= k < i ==> (#[trigger] list[k]).1.compiled(list[k].0) is Ok,
        },
    decreases list.len(),
{
    if list.len() > 0 {
        let front = list.drop_last();
        law_all_pads_or_the_first_bad_one(front);
        match config::all_compiled(front) {
            Ok(pads) => {
                assert forall|k: int| 0 <= k < front.len() implies (#[trigger] list[k]).1.compiled(
                    list[k].0,
                ) == Ok::<PadView, ConfigFault>(pads[k]) by {
                    assert(front[k] == list[k]);
                    assert(front[k].1.compiled(front[k].0) == Ok::<PadView, ConfigFault>(pads[k]));
                }
                assert(list[list.len() - 1] == list.last());
            },
            Err(fault) => {
                let i = choose|i: int|
                    #![trigger front[i]]
                    0 <= i < front.len() && front[i].1.compiled(front[i].0) == Err::<
                        PadView,
                        ConfigFault,
                    >(fault) && forall|k: int|
                        0 <= k < i ==> (#[trigger] front[k]).1.compiled(front[k].0) is Ok;
                assert(list[i] == front[i]);
                assert forall|k: int| 0 <= k < i implies (#[trigger] list[k]).1.compiled(
                    list[k].0,
                ) is Ok by {
                    assert(front[k] == list[k]);
                }
            },
        }
    }
}

/// A name that no pad has is reported together with the names that there are, in their order; so is
/// a missing name, unless there is exactly one pad.
pub proof fn law_unknown_pads_are_reported_with_the_known(
    list: Seq<(Seq<char>, PadSpecView)>,
    name: Seq<char>,
    i: int,
)
    ensures
        config::names_of(list).len() == list.len(),
        0 <= i < list.len() ==> config::names_of(list)[i] == list[i].0,
        ({
            let known = text::joined(config::names_of(list), ", "@);
            &&& outside::lookup(list, name) is None ==> config::pad_asked(list, Some(name)) == Err::<
                PadView,
                ConfigFault,
            >(ConfigFault::UnknownPad { pad: name, known })
            &&& outside::lookup(list, name) matches Some(spec) ==> config::pad_asked(
                list,
                Some(name),
            ) == spec.compiled(name)
            &&& list.len() != 1 ==> config::pad_asked(list, None) == Err::<PadView, ConfigFault>(
                ConfigFault::PadNotGiven { known },
            )
            &&& list.len() == 1 ==> config::pad_asked(list, None) == config::pad_asked(
                list,
                Some(list[0].0),
            )
        }),
{
}

/// A window belongs to a pad where the pattern for application ids matches its application id and
/// the pattern for titles, where the pad has one, matches its title.
pub proof fn law_both_patterns_decide(pad: PadView, app_id: Seq<char>, title: Seq<char>)
    ensures
        pad.matches(app_id, title) <==> {
            &&& outside::regex_fault(pad.app_id) is None
            &&& outside::regex_matches(pad.app_id, app_id)
            &&& pad.title matches Some(pattern) ==> {
                &&& outside::regex_fault(pattern) is None
                &&& outside::regex_matches(pattern, title)
            }
        },
{
}

/// A pad has no geometry exactly where it leaves out width, height and edge, has no margin and does
/// not fill the view. Nothing else counts.
pub proof fn law_any_geometry_counts(spec: PadSpecView)
    ensures
        !spec.has_geometry() <==> {
            &&& spec.width is None
            &&& spec.height is None
            &&& spec.edge is None
            &&& spec.margin == 0
            &&& !spec.fullscreen
        },
{
}

/// Where a percent sign ends a text, the number is the trimmed text in front of it; else there is
/// none.
pub proof fn law_percentages_end_in_a_percent_sign(s: Seq<char>, c: char)
    ensures
        size::percent_part(s.push('%')) == Some(text::trimmed(s)),
        c != '%' ==> size::percent_part(s.push(c)) is None,
        size::percent_part(Seq::empty()) is None,
{
    assert(s.push('%').drop_last() =~= s);
}

/// Pixels stand for themselves; a percentage whose number is from 0 to 100 stands for this number.
/// Any other text is refused, and the fault says which and why.
pub proof fn law_sizes_are_read_as_they_are_written(
    v: u32,
    s: Seq<char>,
    reason: Seq<char>,
    bits: u64,
    number: NumberView,
)
    ensures
        SizeView::Px(v).extent() == Ok::<Extent, SizeFault>(Extent::Px(v)),
        size::percent_part(s) is None ==> (SizeView::Percent { text: s, number }).extent() == Err::<
            Extent,
            SizeFault,
        >(SizeFault::Format { text: s, reason: None }),
        size::percent_part(s) is Some ==> {
            &&& (SizeView::Percent { text: s, number: NumberView::Invalid { reason } }).extent()
                == Err::<Extent, SizeFault>(SizeFault::Format { text: s, reason: Some(reason) })
            &&& (SizeView::Percent { text: s, number: NumberView::Outside }).extent() == Err::<
                Extent,
                SizeFault,
            >(SizeFault::Range { text: s })
            &&& (SizeView::Percent { text: s, number: NumberView::Within { bits } }).extent() == Ok::<
                Extent,
                SizeFault,
            >(Extent::Hundredths(bits))
        },
{
}

/// What the user is told of a pad names it, says whether the application id or the title is at
/// fault, and gives the reason.
pub proof fn law_faulty_pads_are_named(name: Seq<char>, reason: Seq<char>)
    ensures
        text::occurs(name, (ConfigFault::NoAppId { pad: name }).words()),
        text::occurs(name, (ConfigFault::BadAppId { pad: name, reason }).words()),
        text::occurs(reason, (ConfigFault::BadAppId { pad: name, reason }).words()),
        text::occurs(name, (ConfigFault::BadTitle { pad: name, reason }).words()),
        text::occurs(reason, (ConfigFault::BadTitle { pad: name, reason }).words()),
        (ConfigFault::BadTitle { pad: name, reason }).words() != (ConfigFault::BadAppId {
            pad: name,
            reason,
        }).words(),
{
    let e = Seq::<char>::empty();
    let p = "pad '"@;
    let w = (ConfigFault::NoAppId { pad: name }).words();
    texts::lemma_within(w, p, name, "' 缺少 app_id"@);
    let by_id = (ConfigFault::BadAppId { pad: name, reason }).words();
    let m = "' 的 app_id 不是合法正则表达式: "@;
    texts::lemma_within(by_id, p, name, m + reason);
    texts::lemma_within(by_id, p + name + m, reason, e);
    let by_title = (ConfigFault::BadTitle { pad: name, reason }).words();
    let n = "' 的 title 不是合法正则表达式: "@;
    texts::lemma_within(by_title, p, name, n + reason);
    texts::lemma_within(by_title, p + name + n, reason, e);
    reveal_strlit("' 的 app_id 不是合法正则表达式: ");
    reveal_strlit("' 的 title 不是合法正则表达式: ");
    assert(by_id.len() != by_title.len());
}

/// What the user is told of a name that no pad has gives this name and those that there are.
pub proof fn law_known_names_are_told(name: Seq<char>, known: Seq<char>)
    ensures
        text::occurs(name, (ConfigFault::UnknownPad { pad: name, known }).words()),
        text::occurs(known, (ConfigFault::UnknownPad { pad: name, known }).words()),
        text::occurs(known, (ConfigFault::PadNotGiven { known }).words()),
{
    let w = (ConfigFault::UnknownPad { pad: name, known }).words();
    let f = "配置中没有名为 '"@;
    let m = "' 的 pad（可用: "@;
    texts::lemma_within(w, f, name, m + known + "）"@);
    texts::lemma_within(w, f + name + m, known, "）"@);
    let v = (ConfigFault::PadNotGiven { known }).words();
    texts::lemma_within(v, "未指定 pad 名（可用: "@, known, "）"@);
}

/// What the user is told of a size shows the text at fault, in quotes, and gives the reason where
/// there is one.
pub proof fn law_faulty_sizes_are_shown(fault: SizeFault, shown: Seq<char>)
    ensures
        ConfigFault::BadSize(fault).words() == fault.words_with(
            outside::quoted(
                match fault {
                    SizeFault::Format { text: t, reason: _ } => t,
                    SizeFault::Range { text: t } => t,
                },
            ),
        ),
        text::occurs(shown, fault.words_with(shown)),
        fault matches SizeFault::Format { text: _, reason: Some(why) } ==> text::occurs(
            why,
            fault.words_with(shown),
        ),
{
    let e = Seq::<char>::empty();
    let w = fault.words_with(shown);
    let f = "百分比尺寸格式错误: "@;
    let m = "（示例 \"90%\"）"@;
    match fault {
        SizeFault::Format { text: _, reason: None } => {
            texts::lemma_within(w, f, shown, m);
        },
        SizeFault::Format { text: _, reason: Some(why) } => {
            texts::lemma_within(w, f, shown, m + ": "@ + why);
            texts::lemma_within(w, f + shown + m + ": "@, why, e);
        },
        SizeFault::Range { text: _ } => {
            texts::lemma_within(w, "百分比尺寸超出 0-100%: "@, shown, e);
        },
    }
}

/// The views that contracts speak of have all that the values have.
pub proof fn law_views_keep_everything(
    pad: Pad,
    spec: PadSpec,
    sized: Size,
    pads: Seq<Pad>,
    i: int,
)
    ensures
        pad@.name == pad.name@,
        pad@.spec == pad.spec@,
        pad@.app_id == pad.app_id@,
        pad.title matches Some(t) ==> pad@.title == Some(t@),
        pad.title is None ==> pad@.title is None,
        spec@.app_id == spec.app_id@,
        spec@.title == spec.title@,
        spec.launch matches Some(t) ==> spec@.launch == Some(t@),
        spec.launch is None ==> spec@.launch is None,
        spec@.focus_on_show == spec.focus_on_show,
        spec@.launch_wait_ms == spec.launch_wait_ms,
        may_read_as(spec.width, spec@.width),
        may_read_as(spec.height, spec@.height),
        spec@.margin == spec.margin,
        spec@.edge == spec.edge,
        spec@.fullscreen == spec.fullscreen,
        reads_as(sized, sized@),
        pad::pad_views(pads).len() == pads.len(),
        0 <= i < pads.len() ==> pad::pad_views(pads)[i] == pads[i]@,
{
}

/// The views of errors say which error it is, and have all that it has.
pub proof fn law_views_of_errors_keep_everything(
    e: ConfigError,
    s: SizeError,
    r: Result<Pad, ConfigError>,
)
    ensures
        match e {
            ConfigError::NoPads => e@ == ConfigFault::NoPads,
            ConfigError::NoAppId { pad } => e@ == (ConfigFault::NoAppId { pad: pad@ }),
            ConfigError::BadAppId { pad, reason } => e@ == (ConfigFault::BadAppId {
                pad: pad@,
                reason: reason@,
            }),
            ConfigError::BadTitle { pad, reason } => e@ == (ConfigFault::BadTitle {
                pad: pad@,
                reason: reason@,
            }),
            ConfigError::BadSize(fault) => e@ == ConfigFault::BadSize(fault@),
            ConfigError::UnknownPad { pad, known } => e@ == (ConfigFault::UnknownPad {
                pad: pad@,
                known: known@,
            }),
            ConfigError::PadNotGiven { known } => e@ == (ConfigFault::PadNotGiven { known: known@ }),
            ConfigError::NoHome => e@ == ConfigFault::NoHome,
        },
        match s {
            SizeError::Format { text, reason: Some(why) } => s@ == (SizeFault::Format {
                text: text@,
                reason: Some(why@),
            }),
            SizeError::Format { text, reason: None } => s@ == (SizeFault::Format {
                text: text@,
                reason: None,
            }),
            SizeError::Range { text } => s@ == (SizeFault::Range { text: text@ }),
        },
        match r {
            Ok(pad) => pad::outcome(r) == Ok::<PadView, ConfigFault>(pad@),
            Err(fault) => pad::outcome(r) == Err::<PadView, ConfigFault>(fault@),
        },
{
}

} // verus!
