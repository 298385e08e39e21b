//! Pads: windows that are hidden and shown together.

use crate::config_error::ConfigError;
use crate::config_error::ConfigFault;
use crate::outside;
use crate::size;
use crate::size::Size;
use crate::size::SizeView;
use crate::text;
use vstd::prelude::*;

verus! {

/// The side of the view at which a shown window docks.
#[derive(Debug, Clone, Copy, PartialEq, Eq, Structural)]
pub enum Edge {
    Top,
    Bottom,
    Left,
    Right,
    Center,
}

/// One pad: which windows it stands for, how to launch them, where to show them.
#[derive(Debug)]
pub struct PadSpec {
    /// The pattern for the application id of a window.
    pub app_id: String,
    /// The pattern for the title of a window; the empty pattern admits every title.
    pub title: String,
    /// The command to run where no window matches.
    pub launch: Option<String>,
    /// Whether a shown window gets the focus.
    pub focus_on_show: bool,
    /// How long to wait for the window of the command; where not given, the general value holds.
    pub launch_wait_ms: Option<u64>,
    /// The width of a shown window; where not given, it keeps its own.
    pub width: Option<Size>,
    /// The height of a shown window; where not given, it keeps its own.
    pub height: Option<Size>,
    /// Screen pixels between the window and the edge of the view.
    pub margin: u32,
    /// Where a shown window docks.
    pub edge: Option<Edge>,
    /// Whether a shown window fills the view; width, height, edge and margin then do not count.
    pub fullscreen: bool,
}

pub struct PadSpecView {
    pub app_id: Seq<char>,
    pub title: Seq<char>,
    pub launch: Option<Seq<char>>,
    pub focus_on_show: bool,
    pub launch_wait_ms: Option<u64>,
    pub width: Option<SizeView>,
    pub height: Option<SizeView>,
    pub margin: u32,
    pub edge: Option<Edge>,
    pub fullscreen: bool,
}

impl View for PadSpec {
    type V = PadSpecView;

    open spec fn view(&self) -> PadSpecView {
        PadSpecView {
            app_id: self.app_id@,
            title: self.title@,
            launch: text::optional_text(self.launch),
            focus_on_show: self.focus_on_show,
            launch_wait_ms: self.launch_wait_ms,
            width: size::optional_size(self.width),
            height: size::optional_size(self.height),
            margin: self.margin,
            edge: self.edge,
            fullscreen: self.fullscreen,
        }
    }
}

/// What a switch that is on unless told otherwise starts from.
pub fn default_true() -> (r: bool)
    ensures
        r,
{
    true
}

impl Default for PadSpec {
    fn default() -> (r: Self)
        ensures
            r@ == (PadSpecView {
                app_id: Seq::empty(),
                title: Seq::empty(),
                launch: None,
                focus_on_show: true,
                launch_wait_ms: None,
                width: None,
                height: None,
                margin: 0,
                edge: None,
                fullscreen: false,
            }),
    {
        PadSpec {
            app_id: String::new(),
            title: String::new(),
            launch: None,
            focus_on_show: true,
            launch_wait_ms: None,
            width: None,
            height: None,
            margin: 0,
            edge: None,
            fullscreen: false,
        }
    }
}

impl PadSpec {
    /// A copy of the pad.
    pub fn copy(&self) -> (r: Self)
        ensures
            r@ == self@,
    {
        PadSpec {
            app_id: self.app_id.clone(),
            title: self.title.clone(),
            launch: match &self.launch {
                Some(command) => Some(command.clone()),
                None => None,
            },
            focus_on_show: self.focus_on_show,
            launch_wait_ms: self.launch_wait_ms,
            width: size::copy_size(&self.width),
            height: size::copy_size(&self.height),
            margin: self.margin,
            edge: self.edge,
            fullscreen: self.fullscreen,
        }
    }

    /// Checks that the pad has an application id, patterns that compile and sizes that can be used.
    pub fn check(&self, name: &str) -> (r: Result<(), ConfigError>)
        ensures
            match r {
                Ok(()) => self@.fault(name@) is None,
                Err(e) => self@.fault(name@) == Some(e@),
            },
    {
        self.check_given(
            name,
            outside::compile_fault(self.app_id.as_str()),
            outside::compile_fault(self.title.as_str()),
        )
    }

    /// Checks the pad, by what keeps its patterns from being compiled.
    pub fn check_given(
        &self,
        name: &str,
        app_id_fault: Option<String>,
        title_fault: Option<String>,
    ) -> (r: Result<(), ConfigError>)
        ensures
            ({
                let fault = self@.fault_given(
                    name@,
                    text::optional_text(app_id_fault),
                    text::optional_text(title_fault),
                );
                match r {
                    Ok(()) => fault is None,
                    Err(e) => fault == Some(e@),
                }
            }),
    {
        if self.app_id.as_str().is_empty() {
            return Err(ConfigError::NoAppId { pad: name.to_owned() });
        }
        if let Some(reason) = app_id_fault {
            return Err(ConfigError::BadAppId { pad: name.to_owned(), reason });
        }
        if !self.title.as_str().is_empty() {
            if let Some(reason) = title_fault {
                return Err(ConfigError::BadTitle { pad: name.to_owned(), reason });
            }
        }
        if let Some(width) = &self.width {
            if let Err(e) = width.resolve_px() {
                return Err(ConfigError::BadSize(e));
            }
        }
        if let Some(height) = &self.height {
            if let Err(e) = height.resolve_px() {
                return Err(ConfigError::BadSize(e));
            }
        }
        Ok(())
    }
}

/// A pad under its name, ready to be matched against windows.
#[derive(Debug)]
pub struct Pad {
    pub name: String,
    pub spec: PadSpec,
    /// The pattern for application ids.
    pub app_id: String,
    /// The pattern for titles; `None` admits every title.
    pub title: Option<String>,
}

pub struct PadView {
    pub name: Seq<char>,
    pub spec: PadSpecView,
    pub app_id: Seq<char>,
    pub title: Option<Seq<char>>,
}

impl View for Pad {
    type V = PadView;

    open spec fn view(&self) -> PadView {
        PadView {
            name: self.name@,
            spec: self.spec@,
            app_id: self.app_id@,
            title: text::optional_text(self.title),
        }
    }
}

/// Whether a compiled pattern matches a text; a pattern that does not compile matches none.
pub open spec fn fits(pattern: Seq<char>, text: Seq<char>) -> bool {
    outside::regex_fault(pattern) is None && outside::regex_matches(pattern, text)
}

/// Whether a window belongs to a pad, by whether its application id and, where the pad has a
/// pattern for it, its title fit.
pub open spec fn admitted(by_app_id: bool, by_title: Option<bool>) -> bool {
    by_app_id && by_title != Some(false)
}

impl PadView {
    /// Whether a window with this application id and title belongs to the pad.
    pub open spec fn matches(self, app_id: Seq<char>, title: Seq<char>) -> bool {
        admitted(
            fits(self.app_id, app_id),
            match self.title {
                Some(pattern) => Some(fits(pattern, title)),
                None => None,
            },
        )
    }
}

impl PadSpecView {
    /// Whether the pad says anything about size or place.
    pub open spec fn has_geometry(self) -> bool {
        self.fullscreen || self.width is Some || self.height is Some || self.margin != 0
            || self.edge is Some
    }

    /// The pad under a name.
    pub open spec fn named(self, name: Seq<char>) -> PadView {
        PadView {
            name,
            spec: self,
            app_id: self.app_id,
            title: if self.title.len() == 0 {
                None
            } else {
                Some(self.title)
            },
        }
    }

    /// What keeps the pad from being compiled, by what keeps each of its patterns from it. The
    /// empty pattern for titles is not compiled.
    pub open spec fn pattern_fault_given(
        self,
        name: Seq<char>,
        app_id_fault: Option<Seq<char>>,
        title_fault: Option<Seq<char>>,
    ) -> Option<ConfigFault> {
        match app_id_fault {
            Some(reason) => Some(ConfigFault::BadAppId { pad: name, reason }),
            None => if self.title.len() == 0 {
                None
            } else {
                match title_fault {
                    Some(reason) => Some(ConfigFault::BadTitle { pad: name, reason }),
                    None => None,
                }
            },
        }
    }

    /// What is wrong with the sizes of the pad.
    pub open spec fn size_fault(self) -> Option<ConfigFault> {
        match (self.width, self.height) {
            (Some(width), _) if width.extent() is Err => Some(
                ConfigFault::BadSize(width.extent()->Err_0),
            ),
            (_, Some(height)) if height.extent() is Err => Some(
                ConfigFault::BadSize(height.extent()->Err_0),
            ),
            _ => None,
        }
    }

    /// The first thing that is wrong with the pad, by what keeps its patterns from being compiled.
    pub open spec fn fault_given(
        self,
        name: Seq<char>,
        app_id_fault: Option<Seq<char>>,
        title_fault: Option<Seq<char>>,
    ) -> Option<ConfigFault> {
        let by_patterns = self.pattern_fault_given(name, app_id_fault, title_fault);
        if self.app_id.len() == 0 {
            Some(ConfigFault::NoAppId { pad: name })
        } else if by_patterns is Some {
            by_patterns
        } else {
            self.size_fault()
        }
    }

    /// The first thing that is wrong with the pad.
    pub open spec fn fault(self, name: Seq<char>) -> Option<ConfigFault> {
        self.fault_given(
            name,
            outside::regex_fault(self.app_id),
            outside::regex_fault(self.title),
        )
    }

    /// The pad under a name, or why there is none, by what keeps its patterns from being compiled.
    pub open spec fn compiled_given(
        self,
        name: Seq<char>,
        app_id_fault: Option<Seq<char>>,
        title_fault: Option<Seq<char>>,
    ) -> Result<PadView, ConfigFault> {
        match self.pattern_fault_given(name, app_id_fault, title_fault) {
            Some(fault) => Err(fault),
            None => Ok(self.named(name)),
        }
    }

    /// The pad under a name, or why there is none.
    pub open spec fn compiled(self, name: Seq<char>) -> Result<PadView, ConfigFault> {
        self.compiled_given(
            name,
            outside::regex_fault(self.app_id),
            outside::regex_fault(self.title),
        )
    }
}

/// The result of an operation that hands out a pad, by views.
pub open spec fn outcome(r: Result<Pad, ConfigError>) -> Result<PadView, ConfigFault> {
    match r {
        Ok(pad) => Ok(pad@),
        Err(e) => Err(e@),
    }
}

impl Pad {
    /// Whether a window with this application id and title belongs to the pad.
    pub fn matches(&self, app_id: &str, title: &str) -> (r: bool)
        ensures
            r == self@.matches(app_id@, title@),
    {
        let by_app_id = pattern_fits(self.app_id.as_str(), app_id);
        let by_title = match &self.title {
            Some(pattern) => Some(pattern_fits(pattern.as_str(), title)),
            None => None,
        };
        Pad::admits(by_app_id, by_title)
    }

    /// Whether a window belongs to a pad, by whether its application id and, where the pad has a
    /// pattern for it, its title fit.
    pub fn admits(by_app_id: bool, by_title: Option<bool>) -> (r: bool)
        ensures
            r == admitted(by_app_id, by_title),
    {
        match by_title {
            Some(fit) => by_app_id && fit,
            None => by_app_id,
        }
    }

    /// Whether the pad says anything about size or place.
    pub fn has_geometry(&self) -> (r: bool)
        ensures
            r == self@.spec.has_geometry(),
    {
        let s = &self.spec;
        s.fullscreen || s.width.is_some() || s.height.is_some() || s.margin != 0 || s.edge.is_some()
    }

    /// How long to wait for the window of the pad, where `global` is the general value.
    pub fn launch_wait_ms(&self, global: u64) -> (r: u64)
        ensures
            r == match self.spec.launch_wait_ms {
                Some(own) => own,
                None => global,
            },
    {
        match self.spec.launch_wait_ms {
            Some(own) => own,
            None => global,
        }
    }

    /// Compiles the patterns of a pad, that for application ids first.
    pub fn compile(name: &str, spec: &PadSpec) -> (r: Result<Pad, ConfigError>)
        ensures
            outcome(r) == spec@.compiled(name@),
    {
        Pad::compile_given(
            name,
            spec,
            outside::compile_fault(spec.app_id.as_str()),
            outside::compile_fault(spec.title.as_str()),
        )
    }

    /// Makes the pad, by what keeps its patterns from being compiled.
    pub fn compile_given(
        name: &str,
        spec: &PadSpec,
        app_id_fault: Option<String>,
        title_fault: Option<String>,
    ) -> (r: Result<Pad, ConfigError>)
        ensures
            outcome(r) == spec@.compiled_given(
                name@,
                text::optional_text(app_id_fault),
                text::optional_text(title_fault),
            ),
    {
        if let Some(reason) = app_id_fault {
            return Err(ConfigError::BadAppId { pad: name.to_owned(), reason });
        }
        let title = if spec.title.as_str().is_empty() {
            None
        } else {
            if let Some(reason) = title_fault {
                return Err(ConfigError::BadTitle { pad: name.to_owned(), reason });
            }
            Some(spec.title.clone())
        };
        Ok(Pad { name: name.to_owned(), spec: spec.copy(), app_id: spec.app_id.clone(), title })
    }
}

fn pattern_fits(pattern: &str, text: &str) -> (r: bool)
    ensures
        r == fits(pattern@, text@),
{
    match outside::is_match(pattern, text) {
        Some(b) => b,
        None => false,
    }
}

/// The views of a vector of pads.
pub open spec fn pad_views(pads: Seq<Pad>) -> Seq<PadView> {
    pads.map_values(|p: Pad| p@)
}

/// A pad as it is written down: what is left out has yet to be filled in.
#[derive(Debug)]
pub struct PadFields {
    pub app_id: String,
    pub title: Option<String>,
    pub launch: Option<String>,
    pub focus_on_show: Option<bool>,
    pub launch_wait_ms: Option<u64>,
    pub width: Option<Size>,
    pub height: Option<Size>,
    pub margin: Option<u32>,
    pub edge: Option<Edge>,
    pub fullscreen: Option<bool>,
}

impl PadFields {
    /// The pad with everything filled in: no title pattern, focus on show, no margin and no
    /// full screen where nothing is said of them.
    pub open spec fn filled(self) -> PadSpecView {
        PadSpecView {
            app_id: self.app_id@,
            title: match self.title {
                Some(title) => title@,
                None => Seq::empty(),
            },
            launch: text::optional_text(self.launch),
            focus_on_show: self.focus_on_show != Some(false),
            launch_wait_ms: self.launch_wait_ms,
            width: size::optional_size(self.width),
            height: size::optional_size(self.height),
            margin: match self.margin {
                Some(margin) => margin,
                None => 0,
            },
            edge: self.edge,
            fullscreen: self.fullscreen == Some(true),
        }
    }

    /// Fills in what was left out.
    pub fn fill(&self) -> (r: PadSpec)
        ensures
            r@ == self.filled(),
    {
        PadSpec {
            app_id: self.app_id.clone(),
            title: match &self.title {
                Some(title) => title.clone(),
                None => String::new(),
            },
            launch: match &self.launch {
                Some(command) => Some(command.clone()),
                None => None,
            },
            focus_on_show: match self.focus_on_show {
                Some(focus) => focus,
                None => default_true(),
            },
            launch_wait_ms: self.launch_wait_ms,
            width: size::copy_size(&self.width),
            height: size::copy_size(&self.height),
            margin: match self.margin {
                Some(margin) => margin,
                None => 0,
            },
            edge: self.edge,
            fullscreen: match self.fullscreen {
                Some(fullscreen) => fullscreen,
                None => false,
            },
        }
    }
}

/// A pad without a title pattern takes windows by their application id alone.
pub proof fn law_empty_title_admits_every_title(
    spec: PadSpecView,
    name: Seq<char>,
    app_id: Seq<char>,
    title: Seq<char>,
)
    requires
        spec.title.len() == 0,
    ensures
        spec.named(name).matches(app_id, title) == fits(spec.app_id, app_id),
{
}

} // verus!
