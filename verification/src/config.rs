//! The configuration: pads, their window patterns and their geometry.

use crate::outside;
use crate::pad;
use crate::text;
use indexmap::IndexMap;
use std::hash::RandomState;
pub use crate::config_error::ConfigError;
pub use crate::config_error::ConfigFault;
pub use crate::pad::Edge;
pub use crate::pad::Pad;
pub use crate::pad::PadFields;
pub use crate::pad::PadSpec;
pub use crate::pad::PadSpecView;
pub use crate::pad::PadView;
pub use crate::size::Extent;
pub use crate::size::Size;
pub use crate::size::SizeError;
pub use crate::size::SizeFault;
pub use crate::size::SizeView;
use vstd::prelude::*;

verus! {

/// How long a launched command may take to show its window, where nothing else is said.
pub const DEFAULT_LAUNCH_WAIT_MS: u64 = 1500;

/// Which mechanism hides and shows windows.
#[derive(Debug, Clone, Copy, PartialEq, Eq, Structural)]
pub enum BackendKind {
    /// The IPC of driftwm where it answers, else the foreign-toplevel protocol.
    Auto,
    /// Minimizing through `zwlr_foreign_toplevel_management_v1`.
    ForeignToplevel,
    /// Moving windows about the canvas of driftwm.
    Driftwm,
}

impl Default for BackendKind {
    fn default() -> (r: Self)
        ensures
            r == BackendKind::Auto,
    {
        BackendKind::Auto
    }
}

/// How driftwm hides a window.
#[derive(Debug, Clone, Copy, PartialEq, Eq, Structural)]
pub enum HideMode {
    /// Move it to a far spot of the canvas.
    Move,
    /// Leave it where it is, fully transparent.
    Opacity,
}

impl Default for HideMode {
    fn default() -> (r: Self)
        ensures
            r == HideMode::Move,
    {
        HideMode::Move
    }
}

/// The waiting time of a configuration that gives none.
pub fn default_launch_wait_ms() -> (r: u64)
    ensures
        r == 1500,
{
    DEFAULT_LAUNCH_WAIT_MS
}

/// A configuration as it is written down. `F` is the number type of screen measures.
#[derive(Debug)]
pub struct ConfigFields<F> {
    pub backend: Option<BackendKind>,
    pub hide_mode: Option<HideMode>,
    pub viewport: Option<(F, F)>,
    pub launch_wait_ms: Option<u64>,
    pub pads: Vec<(String, PadFields)>,
}

/// What a configuration says apart from its pads.
pub struct General<F> {
    pub backend: BackendKind,
    pub hide_mode: HideMode,
    pub viewport: Option<(F, F)>,
    pub launch_wait_ms: u64,
}

/// What a written configuration says apart from its pads, with everything filled in.
pub open spec fn general<F>(fields: ConfigFields<F>) -> General<F> {
    General {
        backend: match fields.backend {
            Some(backend) => backend,
            None => BackendKind::Auto,
        },
        hide_mode: match fields.hide_mode {
            Some(hide_mode) => hide_mode,
            None => HideMode::Move,
        },
        viewport: fields.viewport,
        launch_wait_ms: match fields.launch_wait_ms {
            Some(ms) => ms,
            None => DEFAULT_LAUNCH_WAIT_MS,
        },
    }
}

/// The entries that a list of written pads comes to.
pub open spec fn written(pads: Seq<(String, PadFields)>) -> Seq<(Seq<char>, PadSpecView)>
    decreases pads.len(),
{
    if pads.len() == 0 {
        Seq::empty()
    } else {
        outside::with_entry(written(pads.drop_last()), pads.last().0@, pads.last().1.filled())
    }
}

/// A configuration. `F` is the number type of screen measures.
#[derive(Debug)]
pub struct Config<F> {
    pub backend: BackendKind,
    pub hide_mode: HideMode,
    /// Width and height of the screen, in pixels.
    pub viewport: Option<(F, F)>,
    /// How long to wait for the window of a launched command, for pads that do not say.
    pub launch_wait_ms: u64,
    /// The pads under their names, in the order in which they were written.
    pub pads: IndexMap<String, PadSpec, RandomState>,
}

/// The names in a list of entries.
pub open spec fn names_of(list: Seq<(Seq<char>, PadSpecView)>) -> Seq<Seq<char>> {
    list.map_values(|e: (Seq<char>, PadSpecView)| e.0)
}

/// The names in a list of entries, as shown to the user.
pub open spec fn known_names(list: Seq<(Seq<char>, PadSpecView)>) -> Seq<char> {
    text::joined(names_of(list), ", "@)
}

/// The first thing that is wrong with the pads of a list.
pub open spec fn first_fault(list: Seq<(Seq<char>, PadSpecView)>) -> Option<ConfigFault>
    decreases list.len(),
{
    if list.len() == 0 {
        None
    } else if list[0].1.fault(list[0].0) is Some {
        list[0].1.fault(list[0].0)
    } else {
        first_fault(list.drop_first())
    }
}

/// The first thing that is wrong with a configuration that has these pads.
pub open spec fn config_fault(list: Seq<(Seq<char>, PadSpecView)>) -> Option<ConfigFault> {
    if list.len() == 0 {
        Some(ConfigFault::NoPads)
    } else {
        first_fault(list)
    }
}

/// The pad of this name.
pub open spec fn pad_named(list: Seq<(Seq<char>, PadSpecView)>, name: Seq<char>) -> Result<
    PadView,
    ConfigFault,
> {
    match outside::lookup(list, name) {
        Some(spec) => spec.compiled(name),
        None => Err(ConfigFault::UnknownPad { pad: name, known: known_names(list) }),
    }
}

/// The pad that is asked for: by name, or without one where there is a single pad.
pub open spec fn pad_asked(
    list: Seq<(Seq<char>, PadSpecView)>,
    name: Option<Seq<char>>,
) -> Result<PadView, ConfigFault> {
    match name {
        Some(n) => pad_named(list, n),
        None => if list.len() == 1 {
            pad_named(list, list[0].0)
        } else {
            Err(ConfigFault::PadNotGiven { known: known_names(list) })
        },
    }
}

/// All pads in their order, or what keeps the first bad one from being compiled.
pub open spec fn all_compiled(list: Seq<(Seq<char>, PadSpecView)>) -> Result<
    Seq<PadView>,
    ConfigFault,
>
    decreases list.len(),
{
    if list.len() == 0 {
        Ok(Seq::empty())
    } else {
        match all_compiled(list.drop_last()) {
            Err(fault) => Err(fault),
            Ok(pads) => match list.last().1.compiled(list.last().0) {
                Err(fault) => Err(fault),
                Ok(pad) => Ok(pads.push(pad)),
            },
        }
    }
}

/// Takes a configuration as it was written down, fills in what was left out, and checks it.
pub fn load<F: Copy>(fields: &ConfigFields<F>) -> (r: Result<Config<F>, ConfigError>)
    ensures
        match r {
            Ok(config) => {
                &&& config_fault(written(fields.pads@)) is None
                &&& config.entries() == written(fields.pads@)
                &&& names_of(config.entries()).no_duplicates()
                &&& config.backend == match fields.backend {
                    Some(backend) => backend,
                    None => BackendKind::Auto,
                }
                &&& config.hide_mode == match fields.hide_mode {
                    Some(hide_mode) => hide_mode,
                    None => HideMode::Move,
                }
                &&& config.viewport == fields.viewport
                &&& config.launch_wait_ms == match fields.launch_wait_ms {
                    Some(ms) => ms,
                    None => 1500,
                }
                &&& config.general() == general(*fields)
            },
            Err(e) => config_fault(written(fields.pads@)) == Some(e@),
        },
{
    let config = Config::from_fields(fields);
    match config.validate() {
        Ok(()) => Ok(config),
        Err(e) => Err(e),
    }
}

impl<F: Copy> Config<F> {
    /// The pads under their names, in their order.
    pub open spec fn entries(self) -> Seq<(Seq<char>, PadSpecView)> {
        outside::entries(self.pads)
    }

    /// What the configuration says apart from its pads.
    pub open spec fn general(self) -> General<F> {
        General {
            backend: self.backend,
            hide_mode: self.hide_mode,
            viewport: self.viewport,
            launch_wait_ms: self.launch_wait_ms,
        }
    }

    /// Fills in what was left out: the backend is chosen automatically, windows are hidden by
    /// moving, and launched windows have the default waiting time.
    pub fn from_fields(fields: &ConfigFields<F>) -> (r: Self)
        ensures
            r.entries() == written(fields.pads@),
            names_of(r.entries()).no_duplicates(),
            r.backend == match fields.backend {
                Some(backend) => backend,
                None => BackendKind::Auto,
            },
            r.hide_mode == match fields.hide_mode {
                Some(hide_mode) => hide_mode,
                None => HideMode::Move,
            },
            r.viewport == fields.viewport,
            r.launch_wait_ms == match fields.launch_wait_ms {
                Some(ms) => ms,
                None => 1500,
            },
            r.general() == general(*fields),
    {
        let mut pads = outside::new_map();
        let mut i: usize = 0;
        assert(fields.pads@.take(0) =~= Seq::empty());
        while i < fields.pads.len()
            invariant
                i <= fields.pads.len(),
                outside::entries(pads) == written(fields.pads@.take(i as int)),
            decreases fields.pads.len() - i,
        {
            let entry = &fields.pads[i];
            outside::map_insert(&mut pads, entry.0.clone(), entry.1.fill());
            assert(fields.pads@.take(i + 1).drop_last() =~= fields.pads@.take(i as int));
            i += 1;
        }
        assert(fields.pads@.take(i as int) =~= fields.pads@);
        proof {
            law_names_occur_once(fields.pads@);
        }
        Config {
            backend: match fields.backend {
                Some(backend) => backend,
                None => BackendKind::default(),
            },
            hide_mode: match fields.hide_mode {
                Some(hide_mode) => hide_mode,
                None => HideMode::default(),
            },
            viewport: fields.viewport,
            launch_wait_ms: match fields.launch_wait_ms {
                Some(ms) => ms,
                None => default_launch_wait_ms(),
            },
            pads,
        }
    }

    /// Checks that there are pads and that each has an application id, patterns that compile
    /// and sizes that can be used. The first fault, in the order of the pads, is reported.
    pub fn validate(&self) -> (r: Result<(), ConfigError>)
        ensures
            match r {
                Ok(()) => config_fault(self.entries()) is None,
                Err(e) => config_fault(self.entries()) == Some(e@),
            },
    {
        let n: usize = outside::map_len(&self.pads);
        if n == 0 {
            return Err(ConfigError::NoPads);
        }
        let mut i: usize = 0;
        assert(self.entries().skip(0) =~= self.entries());
        while i < n
            invariant
                i <= n,
                n == self.entries().len(),
                n > 0,
                first_fault(self.entries()) == first_fault(self.entries().skip(i as int)),
            decreases n - i,
        {
            if let Some((name, spec)) = outside::map_entry(&self.pads, i) {
                assert(self.entries().skip(i as int)[0] == (name@, spec@));
                if let Err(e) = spec.check(name.as_str()) {
                    return Err(e);
                }
            }
            assert(self.entries().skip(i as int).drop_first() =~= self.entries().skip(i + 1));
            i += 1;
        }
        Ok(())
    }

    /// The names of the pads, as shown to the user.
    fn names(&self) -> (r: String)
        ensures
            r@ == known_names(self.entries()),
    {
        let mut names: Vec<String> = Vec::new();
        let mut i: usize = 0;
        let n: usize = outside::map_len(&self.pads);
        while i < n
            invariant
                i <= n,
                n == self.entries().len(),
                names.len() == i,
                text::texts(names@) =~= names_of(self.entries()).take(i as int),
            decreases n - i,
        {
            if let Some((name, _)) = outside::map_entry(&self.pads, i) {
                names.push(name.clone());
            }
            i += 1;
        }
        assert(names_of(self.entries()).take(i as int) =~= names_of(self.entries()));
        text::join(&names, ", ")
    }

    /// The pad of this name.
    pub fn pad(&self, name: &str) -> (r: Result<Pad, ConfigError>)
        ensures
            pad::outcome(r) == pad_named(self.entries(), name@),
    {
        match outside::map_get(&self.pads, name) {
            Some(spec) => Pad::compile(name, spec),
            None => Err(ConfigError::UnknownPad { pad: name.to_owned(), known: self.names() }),
        }
    }

    /// The pad that is asked for: by name, or without one where there is a single pad.
    pub fn resolve(&self, name: Option<&str>) -> (r: Result<Pad, ConfigError>)
        ensures
            pad::outcome(r) == pad_asked(
                self.entries(),
                match name {
                    Some(n) => Some(n@),
                    None => None,
                },
            ),
    {
        match name {
            Some(n) => self.pad(n),
            None => {
                if outside::map_len(&self.pads) == 1 {
                    if let Some((only, _)) = outside::map_entry(&self.pads, 0) {
                        return self.pad(only.as_str());
                    }
                }
                Err(ConfigError::PadNotGiven { known: self.names() })
            },
        }
    }

    /// All pads, in their order.
    pub fn all_pads(&self) -> (r: Result<Vec<Pad>, ConfigError>)
        ensures
            match r {
                Ok(pads) => {
                    &&& all_compiled(self.entries()) == Ok::<Seq<PadView>, ConfigFault>(
                        pad::pad_views(pads@),
                    )
                    &&& pad::pad_views(pads@) == self.entries().map_values(
                        |e: (Seq<char>, PadSpecView)| e.1.named(e.0),
                    )
                },
                Err(e) => all_compiled(self.entries()) == Err::<Seq<PadView>, ConfigFault>(e@),
            },
    {
        let mut pads: Vec<Pad> = Vec::new();
        let mut i: usize = 0;
        let n: usize = outside::map_len(&self.pads);
        assert(pad::pad_views(pads@) =~= Seq::empty());
        while i < n
            invariant
                i <= n,
                n == self.entries().len(),
                pads.len() == i,
                forall|k: int|
                    0 <= k < i ==> (#[trigger] pads@[k])@ == self.entries()[k].1.named(
                        self.entries()[k].0,
                    ),
                all_compiled(self.entries().take(i as int)) == Ok::<Seq<PadView>, ConfigFault>(
                    pad::pad_views(pads@),
                ),
            decreases n - i,
        {
            if let Some((name, spec)) = outside::map_entry(&self.pads, i) {
                let ghost list = self.entries();
                assert(list.take(i + 1).drop_last() =~= list.take(i as int));
                assert(list.take(i + 1).last() == (name@, spec@));
                match Pad::compile(name.as_str(), spec) {
                    Ok(pad) => {
                        let ghost before = pads@;
                        pads.push(pad);
                        assert(pad::pad_views(pads@) =~= pad::pad_views(before).push(pad@));
                    },
                    Err(e) => {
                        proof {
                            lemma_fault_stays(list, i as int + 1);
                        }
                        return Err(e);
                    },
                }
            }
            i += 1;
        }
        assert(self.entries().take(i as int) =~= self.entries());
        Ok(pads)
    }
}

proof fn lemma_fault_stays(list: Seq<(Seq<char>, PadSpecView)>, n: int)
    requires
        0 <= n <= list.len(),
        all_compiled(list.take(n)) is Err,
    ensures
        all_compiled(list) == all_compiled(list.take(n)),
    decreases list.len(),
{
    if n < list.len() {
        assert(list.drop_last().take(n) =~= list.take(n));
        lemma_fault_stays(list.drop_last(), n);
    } else {
        assert(list.take(n) =~= list);
    }
}

proof fn lemma_first_fault(list: Seq<(Seq<char>, PadSpecView)>)
    ensures
        first_fault(list) is None <==> forall|i: int|
            0 <= i < list.len() ==> (#[trigger] list[i]).1.fault(list[i].0) is None,
    decreases list.len(),
{
    if list.len() > 0 {
        let rest = list.drop_first();
        lemma_first_fault(rest);
        if first_fault(list) is None {
            assert forall|i: int| 0 <= i < list.len() implies (#[trigger] list[i]).1.fault(
                list[i].0,
            ) is None by {
                if i > 0 {
                    assert(list[i] == rest[i - 1]);
                }
            }
        } else if list[0].1.fault(list[0].0) is None {
            let i = choose|i: int|
                0 <= i < rest.len() && (#[trigger] rest[i]).1.fault(rest[i].0) is Some;
            assert(list[i + 1] == rest[i]);
        }
    }
}

/// In a configuration that passes the check, every name that is there gives its pad.
pub proof fn law_valid_pads_resolve(list: Seq<(Seq<char>, PadSpecView)>, name: Seq<char>)
    requires
        config_fault(list) is None,
        outside::lookup(list, name) is Some,
    ensures
        pad_asked(list, Some(name)) == Ok::<PadView, ConfigFault>(
            outside::lookup(list, name)->0.named(name),
        ),
    decreases list.len(),
{
    if list[0].0 != name {
        let rest = list.drop_first();
        assert(outside::lookup(list, name) == outside::lookup(rest, name));
        assert(rest.len() > 0);
        law_valid_pads_resolve(rest, name);
    }
}

/// A configuration with a single pad that passes the check gives this pad without a name.
pub proof fn law_single_pad_needs_no_name(list: Seq<(Seq<char>, PadSpecView)>)
    requires
        config_fault(list) is None,
        list.len() == 1,
    ensures
        pad_asked(list, None) == Ok::<PadView, ConfigFault>(list[0].1.named(list[0].0)),
{
    law_valid_pads_resolve(list, list[0].0);
}

/// A configuration that passes the check hands out all its pads, in the order of its entries.
pub proof fn law_valid_pads_all_compile(list: Seq<(Seq<char>, PadSpecView)>)
    requires
        config_fault(list) is None,
    ensures
        all_compiled(list) == Ok::<Seq<PadView>, ConfigFault>(
            list.map_values(|e: (Seq<char>, PadSpecView)| e.1.named(e.0)),
        ),
{
    lemma_first_fault(list);
    lemma_faultless_compile(list);
}

proof fn lemma_faultless_compile(list: Seq<(Seq<char>, PadSpecView)>)
    requires
        forall|i: int| 0 <= i < list.len() ==> (#[trigger] list[i]).1.fault(list[i].0) is None,
    ensures
        all_compiled(list) == Ok::<Seq<PadView>, ConfigFault>(
            list.map_values(|e: (Seq<char>, PadSpecView)| e.1.named(e.0)),
        ),
    decreases list.len(),
{
    let f = |e: (Seq<char>, PadSpecView)| e.1.named(e.0);
    if list.len() == 0 {
        assert(list.map_values(f) =~= Seq::empty());
    } else {
        let front = list.drop_last();
        assert forall|i: int| 0 <= i < front.len() implies (#[trigger] front[i]).1.fault(
            front[i].0,
        ) is None by {
            assert(front[i] == list[i]);
        }
        lemma_faultless_compile(front);
        assert(list[list.len() - 1].1.fault(list[list.len() - 1].0) is None);
        assert(list.map_values(f) =~= front.map_values(f).push(f(list.last())));
    }
}

proof fn lemma_new_entry_goes_last(
    list: Seq<(Seq<char>, PadSpecView)>,
    key: Seq<char>,
    value: PadSpecView,
)
    requires
        forall|i: int| 0 <= i < list.len() ==> (#[trigger] list[i]).0 != key,
    ensures
        outside::with_entry(list, key, value) == list.push((key, value)),
    decreases list.len(),
{
    if list.len() > 0 {
        let rest = list.drop_first();
        assert forall|i: int| 0 <= i < rest.len() implies (#[trigger] rest[i]).0 != key by {
            assert(rest[i] == list[i + 1]);
        }
        lemma_new_entry_goes_last(rest, key, value);
        assert(seq![list[0]] + rest.push((key, value)) =~= list.push((key, value)));
    } else {
        assert(seq![(key, value)] =~= list.push((key, value)));
    }
}

proof fn lemma_entry_keeps_names_apart(
    list: Seq<(Seq<char>, PadSpecView)>,
    key: Seq<char>,
    value: PadSpecView,
)
    requires
        names_of(list).no_duplicates(),
    ensures
        names_of(outside::with_entry(list, key, value)).no_duplicates(),
        forall|k: Seq<char>|
            #![trigger names_of(outside::with_entry(list, key, value)).contains(k)]
            names_of(outside::with_entry(list, key, value)).contains(k) ==> k == key || names_of(
                list,
            ).contains(k),
    decreases list.len(),
{
    let more = outside::with_entry(list, key, value);
    if list.len() == 0 {
        assert(more =~= seq![(key, value)]);
    } else if list[0].0 == key {
        assert(names_of(more) =~= names_of(list));
    } else {
        let rest = list.drop_first();
        let tail = outside::with_entry(rest, key, value);
        let first = list[0].0;
        assert forall|i: int, j: int|
            0 <= i < names_of(rest).len() && 0 <= j < names_of(rest).len() && i
                != j implies names_of(rest)[i] != names_of(rest)[j] by {
            assert(names_of(list)[i + 1] != names_of(list)[j + 1]);
        }
        lemma_entry_keeps_names_apart(rest, key, value);
        assert(!names_of(rest).contains(first)) by {
            if names_of(rest).contains(first) {
                let i = choose|i: int| 0 <= i < rest.len() && names_of(rest)[i] == first;
                assert(names_of(list)[i + 1] == first && names_of(list)[0] == first);
            }
        }
        assert(names_of(more) =~= seq![first] + names_of(tail));
        assert forall|i: int, j: int|
            0 <= i < more.len() && 0 <= j < more.len() && i != j implies names_of(more)[i]
            != names_of(more)[j] by {
            if i > 0 {
                assert(names_of(tail).contains(names_of(tail)[i - 1]));
            }
            if j > 0 {
                assert(names_of(tail).contains(names_of(tail)[j - 1]));
            }
        }
        assert forall|k: Seq<char>| #[trigger] names_of(more).contains(k) implies k == key
            || names_of(list).contains(k) by {
            let i = choose|i: int| 0 <= i < more.len() && names_of(more)[i] == k;
            if i == 0 {
                assert(names_of(list)[0] == k);
            } else {
                assert(names_of(tail)[i - 1] == k);
                assert(names_of(tail).contains(k));
                if k != key {
                    let j = choose|j: int| 0 <= j < rest.len() && names_of(rest)[j] == k;
                    assert(names_of(list)[j + 1] == k);
                }
            }
        }
    }
}

/// However pads are written, no name occurs twice in the configuration.
pub proof fn law_names_occur_once(pads: Seq<(String, PadFields)>)
    ensures
        names_of(written(pads)).no_duplicates(),
        forall|i: int, j: int|
            0 <= i < j < written(pads).len() ==> (#[trigger] written(pads)[i]).0 != (
            #[trigger] written(pads)[j]).0,
    decreases pads.len(),
{
    if pads.len() > 0 {
        law_names_occur_once(pads.drop_last());
        lemma_entry_keeps_names_apart(
            written(pads.drop_last()),
            pads.last().0@,
            pads.last().1.filled(),
        );
    }
    assert forall|i: int, j: int| 0 <= i < j < written(pads).len() implies (
    #[trigger] written(pads)[i]).0 != (#[trigger] written(pads)[j]).0 by {
        assert(names_of(written(pads))[i] != names_of(written(pads))[j]);
    }
}

proof fn lemma_lookup_finds_entry(list: Seq<(Seq<char>, PadSpecView)>, i: int)
    requires
        names_of(list).no_duplicates(),
        0 <= i < list.len(),
    ensures
        outside::lookup(list, list[i].0) == Some(list[i].1),
    decreases list.len(),
{
    if i > 0 {
        let rest = list.drop_first();
        assert(names_of(list)[0] != names_of(list)[i]);
        assert forall|a: int, b: int|
            0 <= a < names_of(rest).len() && 0 <= b < names_of(rest).len() && a
                != b implies names_of(rest)[a] != names_of(rest)[b] by {
            assert(names_of(list)[a + 1] != names_of(list)[b + 1]);
        }
        lemma_lookup_finds_entry(rest, i - 1);
    }
}

/// A configuration that passes the check hands out all its pads, in the order of its entries, and
/// each is the pad that its name gives: it has the name and the definition of its entry, and it
/// takes the same windows.
pub proof fn law_all_pads_are_found_by_name(
    pads: Seq<(String, PadFields)>,
    i: int,
    app_id: Seq<char>,
    title: Seq<char>,
)
    requires
        config_fault(written(pads)) is None,
        0 <= i < written(pads).len(),
    ensures
        all_compiled(written(pads)) matches Ok(all) && {
            &&& all.len() == written(pads).len()
            &&& all[i].name == written(pads)[i].0
            &&& outside::lookup(written(pads), all[i].name) == Some(all[i].spec)
            &&& pad_asked(written(pads), Some(all[i].name)) matches Ok(found) && {
                &&& found == all[i]
                &&& found.matches(app_id, title) == all[i].matches(app_id, title)
            }
        },
{
    let list = written(pads);
    law_names_occur_once(pads);
    law_valid_pads_all_compile(list);
    lemma_lookup_finds_entry(list, i);
    law_valid_pads_resolve(list, list[i].0);
}

/// Pads keep the order in which they are written, as long as no name is written twice.
pub proof fn law_pads_keep_their_order(pads: Seq<(String, PadFields)>)
    requires
        forall|i: int, j: int|
            0 <= i < j < pads.len() ==> (#[trigger] pads[i]).0@ != (#[trigger] pads[j]).0@,
    ensures
        written(pads) == pads.map_values(|p: (String, PadFields)| (p.0@, p.1.filled())),
    decreases pads.len(),
{
    let f = |p: (String, PadFields)| (p.0@, p.1.filled());
    if pads.len() == 0 {
        assert(pads.map_values(f) =~= Seq::empty());
    } else {
        let front = pads.drop_last();
        assert forall|i: int, j: int| 0 <= i < j < front.len() implies (#[trigger] front[i]).0@
            != (#[trigger] front[j]).0@ by {
            assert(front[i] == pads[i] && front[j] == pads[j]);
        }
        law_pads_keep_their_order(front);
        let last = f(pads.last());
        assert forall|i: int| 0 <= i < front.len() implies (#[trigger] front.map_values(f)[i]).0
            != last.0 by {
            assert(pads[i].0@ != pads[pads.len() - 1].0@);
        }
        lemma_new_entry_goes_last(front.map_values(f), last.0, last.1);
        assert(pads.map_values(f) =~= front.map_values(f).push(last));
    }
}

} // verus!
