//! Laws of what is remembered of windows.

use crate::positions;
use crate::positions::PadWinState;
use crate::positions::WinUpdate;
use vstd::prelude::*;

verus! {

/// What is remembered of a window of a pad is what stands under the pad and the window.
pub proof fn law_memory_stands_under_pad_and_window<F>(
    all: Map<Seq<char>, Map<Seq<char>, PadWinState<F>>>,
    pad: Seq<char>,
    key: Seq<char>,
)
    ensures
        all.contains_key(pad) && all[pad].contains_key(key) ==> positions::memory_of(all, pad, key)
            == Some(all[pad][key]),
        !(all.contains_key(pad) && all[pad].contains_key(key)) ==> positions::memory_of(
            all,
            pad,
            key,
        ) is None,
{
}

/// A window that is moved away is remembered with where it was, and no longer as transparent.
pub proof fn law_moved_windows_keep_where_they_were<F: Copy>(
    all: Map<Seq<char>, Map<Seq<char>, PadWinState<F>>>,
    pad: Seq<char>,
    key: Seq<char>,
    pos: Option<(F, F)>,
)
    ensures
        ({
            let after = positions::updated(all, pad, key, WinUpdate::Stash(pos));
            &&& after.contains_key(pad)
            &&& after[pad].contains_key(key)
            &&& after[pad][key].pos == pos
            &&& !after[pad][key].opacity_hidden
        }),
{
}

/// A window that becomes transparent or opaque is remembered so, and keeps where it was.
pub proof fn law_transparency_keeps_where_windows_were<F: Copy>(
    all: Map<Seq<char>, Map<Seq<char>, PadWinState<F>>>,
    pad: Seq<char>,
    key: Seq<char>,
    on: bool,
)
    ensures
        ({
            let after = positions::updated(all, pad, key, WinUpdate::Opacity(on));
            let known = all.contains_key(pad) && all[pad].contains_key(key);
            &&& after.contains_key(pad)
            &&& after[pad].contains_key(key)
            &&& after[pad][key].opacity_hidden == on
            &&& known ==> after[pad][key].pos == all[pad][key].pos
            &&& !known ==> after[pad][key].pos is None
        }),
{
}

/// A change touches the one window of the one pad: every other stays, and none comes or goes.
pub proof fn law_changes_touch_one_window<F: Copy>(
    all: Map<Seq<char>, Map<Seq<char>, PadWinState<F>>>,
    pad: Seq<char>,
    key: Seq<char>,
    update: WinUpdate<F>,
    state: PadWinState<F>,
    p: Seq<char>,
    k: Seq<char>,
)
    ensures
        positions::remembering(all, pad, key, state)[pad][key] == state,
        forall|after: Map<Seq<char>, Map<Seq<char>, PadWinState<F>>>|
            after == positions::updated(all, pad, key, update) || after == positions::remembering(
                all,
                pad,
                key,
                state,
            ) ==> {
                &&& #[trigger] after.contains_key(p) <==> all.contains_key(p) || p == pad
                &&& all.contains_key(p) && p != pad ==> after[p] == all[p]
                &&& all.contains_key(pad) && k != key ==> (after[pad].contains_key(k)
                    <==> all[pad].contains_key(k))
                &&& all.contains_key(pad) && all[pad].contains_key(k) && k != key
                    ==> after[pad][k] == all[pad][k]
                &&& !all.contains_key(pad) && k != key ==> !after[pad].contains_key(k)
            },
{
}

/// A forgotten window is gone from every pad; all pads and all other windows stay.
pub proof fn law_forgetting_takes_one_window_from_all_pads<F>(
    all: Map<Seq<char>, Map<Seq<char>, PadWinState<F>>>,
    key: Seq<char>,
    p: Seq<char>,
    k: Seq<char>,
)
    ensures
        ({
            let after = positions::forgotten(all, key);
            &&& after.contains_key(p) <==> all.contains_key(p)
            &&& all.contains_key(p) ==> !after[p].contains_key(key)
            &&& all.contains_key(p) && k != key ==> (after[p].contains_key(k)
                <==> all[p].contains_key(k))
            &&& all.contains_key(p) && all[p].contains_key(k) && k != key ==> after[p][k]
                == all[p][k]
        }),
{
}

/// A window is transparent where some pad remembers it so.
pub proof fn law_one_pad_is_enough_for_transparency<F>(
    all: Map<Seq<char>, Map<Seq<char>, PadWinState<F>>>,
    pad: Seq<char>,
    key: Seq<char>,
)
    ensures
        all.contains_key(pad) && all[pad].contains_key(key) && all[pad][key].opacity_hidden
            ==> positions::transparent(all, key),
        positions::transparent(all, key) ==> exists|p: Seq<char>|
            #![trigger all.contains_key(p)]
            all.contains_key(p) && all[p].contains_key(key) && all[p][key].opacity_hidden,
{
    if all.contains_key(pad) && all[pad].contains_key(key) && all[pad][key].opacity_hidden {
        assert(positions::memory_of(all, pad, key) is Some);
    }
    if positions::transparent(all, key) {
        let p = choose|p: Seq<char>|
            (#[trigger] positions::memory_of(all, p, key)) matches Some(s) && s.opacity_hidden;
        assert(all.contains_key(p));
    }
}

/// A list of windows by pads lists what stands in it.
pub proof fn law_lists_by_pads_hold_what_stands_in_them(
    list: Seq<(String, Vec<String>)>,
    i: int,
    j: int,
    pad: Seq<char>,
    key: Seq<char>,
)
    ensures
        positions::listed_pads(list).len() == list.len(),
        0 <= i < list.len() ==> positions::listed_pads(list)[i] == list[i].0@,
        0 <= i < list.len() && 0 <= j < list[i].1@.len() ==> positions::listed(
            list,
            list[i].0@,
            list[i].1@[j]@,
        ),
        positions::listed(list, pad, key) ==> exists|a: int, b: int|
            0 <= a < list.len() && 0 <= b < list[a].1@.len() && list[a].0@ == pad && (
            #[trigger] list[a].1@[b])@ == key,
{
    if 0 <= i < list.len() && 0 <= j < list[i].1@.len() {
        assert(list[i].1@[j]@ == list[i].1@[j]@);
    }
}

} // verus!
