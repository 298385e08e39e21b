//! What is remembered of windows while they are hidden.

use crate::text;
use vstd::prelude::*;

verus! {

/// Values under names, in the order of the names; no name occurs twice.
#[derive(Debug)]
pub struct Table<V> {
    items: Vec<(String, V)>,
}

/// The index of a name in a list without repetition.
spec fn index_of<V>(items: Seq<(String, V)>, key: Seq<char>) -> int {
    choose|i: int| 0 <= i < items.len() && (#[trigger] items[i]).0@ == key
}

spec fn holds<V>(items: Seq<(String, V)>, key: Seq<char>) -> bool {
    exists|i: int| 0 <= i < items.len() && (#[trigger] items[i]).0@ == key
}

spec fn names<V>(items: Seq<(String, V)>) -> Seq<Seq<char>> {
    items.map_values(|e: (String, V)| e.0@)
}

spec fn sorted<V>(items: Seq<(String, V)>) -> bool {
    text::ascending(names(items))
}

spec fn mapping<V>(items: Seq<(String, V)>) -> Map<Seq<char>, V> {
    Map::new(|k: Seq<char>| holds(items, k), |k: Seq<char>| items[index_of(items, k)].1)
}

proof fn lemma_entry<V>(items: Seq<(String, V)>, i: int)
    requires
        sorted(items),
        0 <= i < items.len(),
    ensures
        mapping(items).contains_key(items[i].0@),
        mapping(items)[items[i].0@] == items[i].1,
{
    let j = index_of(items, items[i].0@);
    assert(0 <= j < items.len() && items[j].0@ == items[i].0@);
    assert(names(items)[i] == names(items)[j]);
    text::law_texts_are_ordered(items[i].0@, items[i].0@, items[i].0@);
    assert(i == j);
}

proof fn lemma_insert<V>(items: Seq<(String, V)>, at: int, key: String, value: V)
    requires
        sorted(items),
        !holds(items, key@),
        0 <= at <= items.len(),
        forall|k: int| 0 <= k < at ==> text::precedes((#[trigger] items[k]).0@, key@),
        at < items.len() ==> !text::precedes(items[at].0@, key@),
    ensures
        sorted(items.insert(at, (key, value))),
        mapping(items.insert(at, (key, value))) == mapping(items).insert(key@, value),
{
    let more = items.insert(at, (key, value));
    assert forall|i: int, j: int| 0 <= i < j < more.len() implies text::precedes(
        #[trigger] names(more)[i],
        #[trigger] names(more)[j],
    ) by {
        if i == at {
            let first = items[at].0@;
            let other = items[j - 1].0@;
            text::law_texts_are_ordered(first, key@, key@);
            if j - 1 > at {
                assert(text::precedes(names(items)[at], names(items)[j - 1]));
                text::law_texts_are_ordered(key@, first, other);
            }
        } else {
            let a = if i < at {
                i
            } else {
                i - 1
            };
            if j != at {
                let b = if j < at {
                    j
                } else {
                    j - 1
                };
                assert(text::precedes(names(items)[a], names(items)[b]));
            }
        }
    }
    assert forall|k: Seq<char>| holds(more, k) <==> holds(items, k) || k == key@ by {
        if holds(more, k) {
            let i = index_of(more, k);
            if i < at {
                assert(items[i].0@ == k);
            } else if i > at {
                assert(items[i - 1].0@ == k);
            }
        }
        if holds(items, k) {
            let i = index_of(items, k);
            let moved = if i < at {
                i
            } else {
                i + 1
            };
            assert(more[moved].0@ == k);
        }
        if k == key@ {
            assert(more[at].0@ == k);
        }
    }
    assert forall|k: Seq<char>| #[trigger] mapping(more).contains_key(k) implies mapping(more)[k]
        == mapping(items).insert(key@, value)[k] by {
        if k == key@ {
            lemma_entry(more, at);
        } else {
            let i = index_of(items, k);
            let moved = if i < at {
                i
            } else {
                i + 1
            };
            lemma_entry(more, moved);
            assert(more[moved] == items[i]);
        }
    }
    assert(mapping(more) =~= mapping(items).insert(key@, value));
}

proof fn lemma_remove<V>(items: Seq<(String, V)>, i: int)
    requires
        sorted(items),
        0 <= i < items.len(),
    ensures
        sorted(items.remove(i)),
        mapping(items.remove(i)) == mapping(items).remove(items[i].0@),
        !holds(items.remove(i), items[i].0@),
{
    let fewer = items.remove(i);
    let key = items[i].0@;
    assert forall|j: int| 0 <= j < fewer.len() implies #[trigger] fewer[j] == items[if j < i {
        j
    } else {
        j + 1
    }] by {}
    assert forall|j: int, l: int| 0 <= j < l < fewer.len() implies text::precedes(
        #[trigger] names(fewer)[j],
        #[trigger] names(fewer)[l],
    ) by {
        let a = if j < i {
            j
        } else {
            j + 1
        };
        let b = if l < i {
            l
        } else {
            l + 1
        };
        assert(text::precedes(names(items)[a], names(items)[b]));
    }
    assert forall|k: Seq<char>| holds(fewer, k) <==> holds(items, k) && k != key by {
        if holds(fewer, k) {
            let j = index_of(fewer, k);
            let at = if j < i {
                j
            } else {
                j + 1
            };
            assert(items[at].0@ == k);
            assert(names(items)[at] == k && names(items)[i] == key);
            text::law_texts_are_ordered(k, k, k);
        }
        if holds(items, k) && k != key {
            let j = index_of(items, k);
            let at = if j < i {
                j
            } else {
                j - 1
            };
            assert(fewer[at].0@ == k);
        }
    }
    assert forall|k: Seq<char>| #[trigger] mapping(fewer).contains_key(k) implies mapping(fewer)[k]
        == mapping(items)[k] by {
        let j = index_of(fewer, k);
        lemma_entry(fewer, j);
        lemma_entry(
            items,
            if j < i {
                j
            } else {
                j + 1
            },
        );
    }
    assert(mapping(fewer) =~= mapping(items).remove(key));
}

impl<V> View for Table<V> {
    type V = Map<Seq<char>, V>;

    closed spec fn view(&self) -> Map<Seq<char>, V> {
        mapping(self.items@)
    }
}

impl<V> Table<V> {
    #[verifier::type_invariant]
    spec fn in_order(self) -> bool {
        sorted(self.items@)
    }

    /// The names in their order.
    pub closed spec fn keys(self) -> Seq<Seq<char>> {
        names(self.items@)
    }

    /// An empty table.
    pub fn new() -> (r: Self)
        ensures
            r@ == Map::<Seq<char>, V>::empty(),
    {
        let r = Table { items: Vec::new() };
        assert(r@ =~= Map::<Seq<char>, V>::empty());
        r
    }

    /// How many names there are.
    pub fn len(&self) -> (r: usize)
        ensures
            r == self.keys().len(),
            text::ascending(self.keys()),
    {
        proof {
            use_type_invariant(self);
        }
        self.items.len()
    }

    /// The name and the value in one place of the order.
    pub fn entry(&self, i: usize) -> (r: (&String, &V))
        requires
            i < self.keys().len(),
        ensures
            r.0@ == self.keys()[i as int],
            self@.contains_key(r.0@),
            self@[r.0@] == *r.1,
    {
        proof {
            use_type_invariant(self);
            lemma_entry(self.items@, i as int);
        }
        let e = &self.items[i];
        (&e.0, &e.1)
    }

    /// Each name that has a value has a place.
    pub proof fn lemma_keys(&self, key: Seq<char>)
        ensures
            self@.contains_key(key) <==> self.keys().contains(key),
    {
        if self@.contains_key(key) {
            let i = index_of(self.items@, key);
            assert(self.keys()[i] == key);
        }
        if self.keys().contains(key) {
            let i = choose|i: int| 0 <= i < self.keys().len() && self.keys()[i] == key;
            assert(self.items@[i].0@ == key);
        }
    }

    /// The table without the last of its names, and what stood under it.
    pub fn pop(self) -> (r: (Self, Option<(String, V)>))
        ensures
            match r.1 {
                Some((key, value)) => {
                    &&& self@.contains_key(key@)
                    &&& self@[key@] == value
                    &&& r.0@ == self@.remove(key@)
                    &&& self.keys() == r.0.keys().push(key@)
                },
                None => {
                    &&& r.0@ == self@
                    &&& self@ == Map::<Seq<char>, V>::empty()
                    &&& self.keys().len() == 0
                },
            },
    {
        proof {
            use_type_invariant(&self);
        }
        let mut items = self.items;
        proof {
            if items.len() > 0 {
                let last = items.len() - 1;
                lemma_entry(items@, last);
                lemma_remove(items@, last);
                assert(items@.remove(last) =~= items@.drop_last());
            } else {
                assert(self@ =~= Map::<Seq<char>, V>::empty());
            }
        }
        let last = items.pop();
        assert(last matches Some(e) ==> names(self.items@) =~= names(items@).push(e.0@));
        (Table { items }, last)
    }

    /// The value under a name.
    pub fn get(&self, key: &str) -> (r: Option<&V>)
        ensures
            match r {
                Some(value) => self@.contains_key(key@) && self@[key@] == *value,
                None => !self@.contains_key(key@),
            },
    {
        proof {
            use_type_invariant(self);
        }
        let mut i: usize = 0;
        while i < self.items.len()
            invariant
                i <= self.items.len(),
                sorted(self.items@),
                forall|k: int| 0 <= k < i ==> (#[trigger] self.items@[k]).0@ != key@,
            decreases self.items.len() - i,
        {
            if text::same_text(self.items[i].0.as_str(), key) {
                proof {
                    lemma_entry(self.items@, i as int);
                }
                return Some(&self.items[i].1);
            }
            i += 1;
        }
        None
    }

    /// The table without a name, and the value that stood under it.
    pub fn take(self, key: &str) -> (r: (Self, Option<V>))
        ensures
            r.0@ == self@.remove(key@),
            match r.1 {
                Some(value) => self@.contains_key(key@) && self@[key@] == value,
                None => !self@.contains_key(key@),
            },
    {
        proof {
            use_type_invariant(&self);
        }
        let mut items = self.items;
        let mut i: usize = 0;
        while i < items.len()
            invariant
                i <= items.len(),
                items == self.items,
                sorted(items@),
                forall|k: int| 0 <= k < i ==> (#[trigger] items@[k]).0@ != key@,
            decreases items.len() - i,
        {
            if text::same_text(items[i].0.as_str(), key) {
                proof {
                    lemma_entry(items@, i as int);
                    lemma_remove(items@, i as int);
                }
                let found = items.remove(i);
                return (Table { items }, Some(found.1));
            }
            i += 1;
        }
        assert(mapping(items@) =~= mapping(items@).remove(key@));
        (Table { items }, None)
    }

    /// The table with a value under a name.
    pub fn with(self, key: &str, value: V) -> (r: Self)
        ensures
            r@ == self@.insert(key@, value),
    {
        let (rest, _) = self.take(key);
        proof {
            use_type_invariant(&rest);
        }
        let mut items = rest.items;
        let name = key.to_owned();
        let mut at: usize = 0;
        while at < items.len() && text::comes_before(items[at].0.as_str(), key)
            invariant
                at <= items.len(),
                forall|k: int| 0 <= k < at ==> text::precedes((#[trigger] items@[k]).0@, key@),
            decreases items.len() - at,
        {
            at += 1;
        }
        proof {
            if holds(items@, key@) {
                assert(rest@.contains_key(key@));
            }
            lemma_insert(items@, at as int, name, value);
        }
        items.insert(at, (name, value));
        let r = Table { items };
        assert(r@ =~= self@.insert(key@, value));
        r
    }
}

/// What is remembered of one window.
#[derive(Debug)]
pub struct PadWinState<F> {
    /// Where the window was before it was moved out of sight.
    pub pos: Option<(F, F)>,
    /// Whether the window is hidden by transparency.
    pub opacity_hidden: bool,
}

impl<F: Copy> PadWinState<F> {
    /// Nothing remembered yet.
    pub open spec fn blank() -> PadWinState<F> {
        PadWinState { pos: None, opacity_hidden: false }
    }
}

/// A change to what is remembered of a window.
#[derive(Debug)]
pub enum WinUpdate<F> {
    /// The window is now hidden by transparency, or no longer.
    Opacity(bool),
    /// The window is about to be moved out of sight from here.
    Stash(Option<(F, F)>),
}

impl<F: Copy> WinUpdate<F> {
    /// What is remembered after the change.
    pub open spec fn applied(self, state: PadWinState<F>) -> PadWinState<F> {
        match self {
            WinUpdate::Opacity(on) => PadWinState { opacity_hidden: on, ..state },
            WinUpdate::Stash(pos) => PadWinState { pos, opacity_hidden: false },
        }
    }
}

/// What is remembered of the windows of each pad, by the name of the pad and the key of the window.
#[derive(Debug)]
pub struct Positions<F> {
    pads: Table<Table<PadWinState<F>>>,
}

/// The windows of a pad of which something is remembered.
pub open spec fn windows_of<F>(
    all: Map<Seq<char>, Map<Seq<char>, PadWinState<F>>>,
    pad: Seq<char>,
) -> Map<Seq<char>, PadWinState<F>> {
    if all.contains_key(pad) {
        all[pad]
    } else {
        Map::empty()
    }
}

/// What is remembered of a window of a pad.
pub open spec fn memory_of<F>(
    all: Map<Seq<char>, Map<Seq<char>, PadWinState<F>>>,
    pad: Seq<char>,
    key: Seq<char>,
) -> Option<PadWinState<F>> {
    if windows_of(all, pad).contains_key(key) {
        Some(windows_of(all, pad)[key])
    } else {
        None
    }
}

/// Everything remembered, with the memory of one window replaced.
pub open spec fn remembering<F>(
    all: Map<Seq<char>, Map<Seq<char>, PadWinState<F>>>,
    pad: Seq<char>,
    key: Seq<char>,
    state: PadWinState<F>,
) -> Map<Seq<char>, Map<Seq<char>, PadWinState<F>>> {
    all.insert(pad, windows_of(all, pad).insert(key, state))
}

/// Everything remembered, with one window changed; a window of which nothing was remembered
/// starts blank.
pub open spec fn updated<F: Copy>(
    all: Map<Seq<char>, Map<Seq<char>, PadWinState<F>>>,
    pad: Seq<char>,
    key: Seq<char>,
    update: WinUpdate<F>,
) -> Map<Seq<char>, Map<Seq<char>, PadWinState<F>>> {
    remembering(
        all,
        pad,
        key,
        update.applied(
            match memory_of(all, pad, key) {
                Some(state) => state,
                None => PadWinState::<F>::blank(),
            },
        ),
    )
}

/// Everything remembered but of one window.
pub open spec fn forgotten<F>(
    all: Map<Seq<char>, Map<Seq<char>, PadWinState<F>>>,
    key: Seq<char>,
) -> Map<Seq<char>, Map<Seq<char>, PadWinState<F>>> {
    all.map_values(|wins: Map<Seq<char>, PadWinState<F>>| wins.remove(key))
}

/// Whether some pad has hidden a window by transparency.
pub open spec fn transparent<F>(
    all: Map<Seq<char>, Map<Seq<char>, PadWinState<F>>>,
    key: Seq<char>,
) -> bool {
    exists|pad: Seq<char>|
        (#[trigger] memory_of(all, pad, key)) matches Some(state) && state.opacity_hidden
}

impl<F> View for Positions<F> {
    type V = Map<Seq<char>, Map<Seq<char>, PadWinState<F>>>;

    closed spec fn view(&self) -> Map<Seq<char>, Map<Seq<char>, PadWinState<F>>> {
        self.pads@.map_values(|wins: Table<PadWinState<F>>| wins@)
    }
}

/// The pads of a list of windows by pads.
pub open spec fn listed_pads(list: Seq<(String, Vec<String>)>) -> Seq<Seq<char>> {
    list.map_values(|e: (String, Vec<String>)| e.0@)
}

/// Whether a window stands in a list of windows by pads.
pub open spec fn listed(list: Seq<(String, Vec<String>)>, pad: Seq<char>, key: Seq<char>) -> bool {
    exists|i: int, j: int|
        0 <= i < list.len() && 0 <= j < list[i].1@.len() && list[i].0@ == pad && (
        #[trigger] list[i].1@[j])@ == key
}

impl<F: Copy> Positions<F> {
    /// Nothing remembered.
    pub fn new() -> (r: Self)
        ensures
            r@ == Map::<Seq<char>, Map<Seq<char>, PadWinState<F>>>::empty(),
    {
        let r = Positions { pads: Table::new() };
        assert(r@ =~= Map::<Seq<char>, Map<Seq<char>, PadWinState<F>>>::empty());
        r
    }

    /// The tables behind the memory: one of pads, in each place one of windows.
    pub fn tables(&self) -> (r: &Table<Table<PadWinState<F>>>)
        ensures
            self@ == r@.map_values(|wins: Table<PadWinState<F>>| wins@),
            text::ascending(r.keys()),
    {
        proof {
            use_type_invariant(&self.pads);
        }
        &self.pads
    }

    /// What is remembered of a window of a pad.
    pub fn memory(&self, pad: &str, key: &str) -> (r: Option<PadWinState<F>>)
        ensures
            r == memory_of(self@, pad@, key@),
    {
        match self.pads.get(pad) {
            Some(wins) => match wins.get(key) {
                Some(state) => Some(
                    PadWinState { pos: state.pos, opacity_hidden: state.opacity_hidden },
                ),
                None => None,
            },
            None => None,
        }
    }

    /// Replaces what is remembered of a window of a pad.
    pub fn remember(self, pad: &str, key: &str, state: PadWinState<F>) -> (r: Self)
        ensures
            r@ == remembering(self@, pad@, key@, state),
    {
        let (rest, wins) = self.pads.take(pad);
        let wins = match wins {
            Some(wins) => wins,
            None => Table::new(),
        };
        let r = Positions { pads: rest.with(pad, wins.with(key, state)) };
        assert(r@ =~= remembering(self@, pad@, key@, state));
        r
    }

    /// Changes what is remembered of a window of a pad.
    pub fn update_win_state(self, pad: &str, key: &str, update: WinUpdate<F>) -> (r: Self)
        ensures
            r@ == updated(self@, pad@, key@, update),
    {
        let state = match self.memory(pad, key) {
            Some(state) => state,
            None => PadWinState { pos: None, opacity_hidden: false },
        };
        let state = match update {
            WinUpdate::Opacity(on) => PadWinState { pos: state.pos, opacity_hidden: on },
            WinUpdate::Stash(pos) => PadWinState { pos, opacity_hidden: false },
        };
        self.remember(pad, key, state)
    }

    /// Forgets a window, whatever pads it belonged to.
    pub fn forget(self, key: &str) -> (r: Self)
        ensures
            r@ == forgotten(self@, key@),
    {
        let mut rest = self.pads;
        let mut done: Table<Table<PadWinState<F>>> = Table::new();
        let ghost all = rest@;
        loop
            invariant
                rest@.dom().disjoint(done@.dom()),
                forall|pad: Seq<char>|
                    #![trigger all.contains_key(pad)]
                    all.contains_key(pad) <==> rest@.contains_key(pad) || done@.contains_key(pad),
                forall|pad: Seq<char>| #[trigger]
                    rest@.contains_key(pad) ==> rest@[pad] == all[pad],
                forall|pad: Seq<char>| #[trigger]
                    done@.contains_key(pad) ==> done@[pad]@ == all[pad]@.remove(key@),
            ensures
                rest@ == Map::<Seq<char>, Table<PadWinState<F>>>::empty(),
            decreases rest.keys().len(),
        {
            let (fewer, last) = rest.pop();
            rest = fewer;
            match last {
                Some((pad, wins)) => {
                    let (wins, _) = wins.take(key);
                    done = done.with(pad.as_str(), wins);
                },
                None => {
                    break;
                },
            }
        }
        let r = Positions { pads: done };
        assert(r@ =~= forgotten(self@, key@));
        r
    }

    /// The windows that are hidden by transparency, by their pads. The pads, and the windows of
    /// each, come in their order; a pad without such windows is not in the list.
    pub fn opacity_hidden_keys(&self) -> (r: Vec<(String, Vec<String>)>)
        ensures
            forall|i: int| 0 <= i < r.len() ==> (#[trigger] r@[i]).1.len() > 0,
            forall|i: int|
                0 <= i < r.len() ==> text::ascending(text::texts((#[trigger] r@[i]).1@)),
            text::ascending(listed_pads(r@)),
            forall|pad: Seq<char>, key: Seq<char>|
                #![trigger listed(r@, pad, key)]
                #![trigger memory_of(self@, pad, key)]
                listed(r@, pad, key) <==> (memory_of(self@, pad, key) matches Some(state)
                    && state.opacity_hidden),
    {
        let mut list: Vec<(String, Vec<String>)> = Vec::new();
        let mut i: usize = 0;
        let n: usize = self.pads.len();
        while i < n
            invariant
                i <= n,
                n == self.pads.keys().len(),
                text::ascending(self.pads.keys()),
                forall|k: int| 0 <= k < list.len() ==> (#[trigger] list@[k]).1.len() > 0,
                forall|k: int|
                    0 <= k < list.len() ==> text::ascending(text::texts((#[trigger] list@[k]).1@)),
                text::ascending(listed_pads(list@)),
                forall|k: int|
                    0 <= k < list.len() ==> self.pads.keys().take(i as int).contains(
                        (#[trigger] list@[k]).0@,
                    ),
                forall|pad: Seq<char>, key: Seq<char>|
                    #![trigger listed(list@, pad, key)]
                    listed(list@, pad, key) <==> self.pads.keys().take(i as int).contains(pad) && (
                    memory_of(self@, pad, key) matches Some(state) && state.opacity_hidden),
            decreases n - i,
        {
            let (pad, wins) = self.pads.entry(i);
            let mut keys: Vec<String> = Vec::new();
            let mut j: usize = 0;
            let m: usize = wins.len();
            while j < m
                invariant
                    j <= m,
                    m == wins.keys().len(),
                    text::ascending(wins.keys()),
                    text::ascending(text::texts(keys@)),
                    forall|key: Seq<char>|
                        #![trigger text::texts(keys@).contains(key)]
                        text::texts(keys@).contains(key) <==> wins.keys().take(j as int).contains(
                            key,
                        ) && wins@.contains_key(key) && wins@[key].opacity_hidden,
                decreases m - j,
            {
                let (key, state) = wins.entry(j);
                let ghost before = keys@;
                if state.opacity_hidden {
                    keys.push(key.clone());
                }
                proof {
                    let done = wins.keys().take(j as int);
                    assert(wins.keys().take(j + 1) =~= done.push(key@));
                    if state.opacity_hidden {
                        assert(text::texts(keys@) =~= text::texts(before).push(key@));
                        lemma_push_ascending(text::texts(before), wins.keys(), j as int);
                    }
                    assert forall|k: Seq<char>|
                        text::texts(keys@).contains(k) <==> wins.keys().take(j + 1).contains(k)
                            && wins@.contains_key(k) && wins@[k].opacity_hidden by {
                        lemma_push_contains(done, key@, k);
                        lemma_push_contains(text::texts(before), key@, k);
                    }
                }
                j += 1;
            }
            let ghost before = list@;
            let name = pad.clone();
            if keys.len() > 0 {
                list.push((name, keys));
            }
            proof {
                let done = self.pads.keys().take(i as int);
                assert(self.pads.keys().take(i + 1) =~= done.push(pad@));
                if keys.len() > 0 {
                    assert forall|x: Seq<char>| #[trigger]
                        listed_pads(before).contains(x) implies done.contains(x) by {
                        let k = choose|k: int|
                            0 <= k < before.len() && listed_pads(before)[k] == x;
                        assert(before[k].0@ == x);
                    }
                    lemma_push_ascending(listed_pads(before), self.pads.keys(), i as int);
                    assert(listed_pads(list@) =~= listed_pads(before).push(pad@));
                }
                assert forall|k: int| 0 <= k < list.len() implies done.push(pad@).contains(
                    (#[trigger] list@[k]).0@,
                ) by {
                    lemma_push_contains(done, pad@, list@[k].0@);
                    if k < before.len() {
                        assert(list@[k] == before[k]);
                    }
                }
                assert(wins.keys().take(j as int) =~= wins.keys());
                assert forall|p: Seq<char>, k: Seq<char>|
                    listed(list@, p, k) <==> self.pads.keys().take(i + 1).contains(p) && (memory_of(
                        self@,
                        p,
                        k,
                    ) matches Some(state) && state.opacity_hidden) by {
                    lemma_push_contains(done, pad@, p);
                    if keys.len() > 0 {
                        lemma_push_listed(before, (name, keys), p, k);
                    }
                    assert(listed(before, p, k) <==> done.contains(p) && (memory_of(
                        self@,
                        p,
                        k,
                    ) matches Some(state) && state.opacity_hidden));
                    if p == pad@ {
                        wins.lemma_keys(k);
                        assert(text::texts(keys@).contains(k) <==> (memory_of(
                            self@,
                            p,
                            k,
                        ) matches Some(state) && state.opacity_hidden));
                    }
                }
            }
            i += 1;
        }
        proof {
            assert(self.pads.keys().take(i as int) =~= self.pads.keys());
            assert forall|pad: Seq<char>, key: Seq<char>|
                listed(list@, pad, key) <==> (memory_of(self@, pad, key) matches Some(state)
                    && state.opacity_hidden) by {
                self.pads.lemma_keys(pad);
            }
        }
        list
    }
}

proof fn lemma_push_contains<A>(s: Seq<A>, last: A, x: A)
    ensures
        s.push(last).contains(x) <==> s.contains(x) || x == last,
{
    let more = s.push(last);
    if more.contains(x) {
        let i = choose|i: int| 0 <= i < more.len() && more[i] == x;
        if i < s.len() {
            assert(s[i] == x);
        }
    }
    if s.contains(x) {
        let i = choose|i: int| 0 <= i < s.len() && s[i] == x;
        assert(more[i] == x);
    }
    if x == last {
        assert(more[s.len() as int] == x);
    }
}

proof fn lemma_push_ascending(s: Seq<Seq<char>>, all: Seq<Seq<char>>, i: int)
    requires
        text::ascending(s),
        text::ascending(all),
        0 <= i < all.len(),
        forall|x: Seq<char>| #[trigger] s.contains(x) ==> all.take(i).contains(x),
    ensures
        text::ascending(s.push(all[i])),
{
    let more = s.push(all[i]);
    assert forall|a: int, b: int| 0 <= a < b < more.len() implies text::precedes(
        #[trigger] more[a],
        #[trigger] more[b],
    ) by {
        if b < s.len() {
            assert(text::precedes(s[a], s[b]));
        } else {
            assert(s.contains(s[a]));
            let k = choose|k: int| 0 <= k < i && all.take(i)[k] == s[a];
            assert(text::precedes(all[k], all[i]));
        }
    }
}

proof fn lemma_push_listed(
    list: Seq<(String, Vec<String>)>,
    last: (String, Vec<String>),
    pad: Seq<char>,
    key: Seq<char>,
)
    ensures
        listed(list.push(last), pad, key) <==> listed(list, pad, key) || (last.0@ == pad
            && text::texts(last.1@).contains(key)),
{
    let more = list.push(last);
    if listed(more, pad, key) {
        let (i, j) = choose|i: int, j: int|
            0 <= i < more.len() && 0 <= j < more[i].1@.len() && more[i].0@ == pad && (
            #[trigger] more[i].1@[j])@ == key;
        if i < list.len() {
            assert(list[i].1@[j]@ == key);
        } else {
            assert(text::texts(last.1@)[j] == key);
        }
    }
    if listed(list, pad, key) {
        let (i, j) = choose|i: int, j: int|
            0 <= i < list.len() && 0 <= j < list[i].1@.len() && list[i].0@ == pad && (
            #[trigger] list[i].1@[j])@ == key;
        assert(more[i].1@[j]@ == key);
    }
    if last.0@ == pad && text::texts(last.1@).contains(key) {
        let t = text::texts(last.1@);
        let j = choose|j: int| 0 <= j < t.len() && t[j] == key;
        assert(more[list.len() as int].1@[j]@ == key);
    }
}

/// What is remembered of a window is what the last change left; no other window is touched.
pub proof fn law_changes_are_remembered<F: Copy>(
    all: Map<Seq<char>, Map<Seq<char>, PadWinState<F>>>,
    pad: Seq<char>,
    key: Seq<char>,
    update: WinUpdate<F>,
    other_pad: Seq<char>,
    other_key: Seq<char>,
)
    ensures
        memory_of(updated(all, pad, key, update), pad, key) == Some(
            update.applied(
                match memory_of(all, pad, key) {
                    Some(state) => state,
                    None => PadWinState::<F>::blank(),
                },
            ),
        ),
        other_pad != pad || other_key != key ==> memory_of(
            updated(all, pad, key, update),
            other_pad,
            other_key,
        ) == memory_of(all, other_pad, other_key),
{
}

/// Of a forgotten window no pad remembers anything; all other windows are remembered as before.
pub proof fn law_forgotten_windows_leave_no_trace<F>(
    all: Map<Seq<char>, Map<Seq<char>, PadWinState<F>>>,
    key: Seq<char>,
    pad: Seq<char>,
    other_key: Seq<char>,
)
    ensures
        memory_of(forgotten(all, key), pad, key) is None,
        other_key != key ==> memory_of(forgotten(all, key), pad, other_key) == memory_of(
            all,
            pad,
            other_key,
        ),
{
}

} // verus!
