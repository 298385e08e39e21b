//! What driftwm reports.

use crate::text;
use vstd::prelude::*;
use vstd::string::*;

verus! {

/// A window as driftwm reports it.
#[derive(Debug)]
pub struct DriftWindow<F> {
    pub id: i64,
    pub app_id: String,
    pub title: String,
    pub position: Vec<F>,
    pub size: Vec<F>,
    pub is_focused: bool,
    pub is_widget: bool,
    pub suspended: bool,
    /// Whether the position is the hiding spot, up to the tolerance.
    pub stashed: bool,
}

/// The state of the canvas as driftwm reports it.
#[derive(Debug)]
pub struct DriftState<F> {
    pub camera: Vec<F>,
    pub zoom: F,
    pub windows: Vec<DriftWindow<F>>,
}

/// What driftwm answers where all went well.
#[derive(Debug)]
pub struct OkPayload<F> {
    pub state: Option<DriftState<F>>,
}

/// An answer of driftwm. `err` holds its complaint as JSON.
#[derive(Debug)]
pub struct Envelope<F> {
    pub ok: Option<OkPayload<F>>,
    pub err: Option<String>,
}

/// Why driftwm cannot be used.
#[derive(Debug)]
pub enum DriftError {
    /// It complained.
    Refused { complaint: String },
    /// It answered without a state.
    NoState,
    /// There is no directory to remember positions in.
    NoCacheDir,
    /// A command failed.
    Failed { command: String, complaint: String },
}

pub enum DriftFault {
    Refused { complaint: Seq<char> },
    NoState,
    NoCacheDir,
    Failed { command: Seq<char>, complaint: Seq<char> },
}

impl View for DriftError {
    type V = DriftFault;

    open spec fn view(&self) -> DriftFault {
        match *self {
            DriftError::Refused { complaint } => DriftFault::Refused { complaint: complaint@ },
            DriftError::NoState => DriftFault::NoState,
            DriftError::NoCacheDir => DriftFault::NoCacheDir,
            DriftError::Failed { command, complaint } => DriftFault::Failed {
                command: command@,
                complaint: complaint@,
            },
        }
    }
}

impl DriftFault {
    /// The words for the fault.
    pub open spec fn words(self) -> Seq<char> {
        match self {
            DriftFault::Refused { complaint } => "driftwm msg state 失败: "@ + complaint,
            DriftFault::NoState => "driftwm msg state 返回缺少 State 字段"@,
            DriftFault::NoCacheDir => "无法确定缓存目录（XDG_CACHE_HOME/HOME 未设置）"@,
            DriftFault::Failed { command, complaint } => "driftwm msg "@ + command + " 失败: "@
                + complaint,
        }
    }
}

impl DriftError {
    /// What to tell the user.
    pub fn message(&self) -> (r: String)
        ensures
            r@ == self@.words(),
    {
        match self {
            DriftError::Refused { complaint } => {
                let mut s = "driftwm msg state 失败: ".to_owned();
                s.append(complaint.as_str());
                s
            },
            DriftError::NoState => "driftwm msg state 返回缺少 State 字段".to_owned(),
            DriftError::NoCacheDir => "无法确定缓存目录（XDG_CACHE_HOME/HOME 未设置）".to_owned(),
            DriftError::Failed { command, complaint } => {
                let mut s = "driftwm msg ".to_owned();
                s.append(command.as_str());
                s.append(" 失败: ");
                s.append(complaint.as_str());
                s
            },
        }
    }
}

/// The state in an answer: a complaint counts before anything else.
pub fn fetch_state<F>(answer: Envelope<F>) -> (r: Result<DriftState<F>, DriftError>)
    ensures
        match r {
            Ok(state) => {
                &&& answer.err is None
                &&& answer.ok matches Some(payload) && payload.state == Some(state)
            },
            Err(e) => match answer.err {
                Some(complaint) => e@ == (DriftFault::Refused { complaint: complaint@ }),
                None => {
                    &&& answer.ok matches Some(payload) ==> payload.state is None
                    &&& e@ == DriftFault::NoState
                },
            },
        },
{
    if let Some(complaint) = answer.err {
        return Err(DriftError::Refused { complaint });
    }
    match answer.ok {
        Some(payload) => match payload.state {
            Some(state) => Ok(state),
            None => Err(DriftError::NoState),
        },
        None => Err(DriftError::NoState),
    }
}

/// The first two coordinates of a list; `zero` stands for those that are missing.
pub open spec fn point<F>(v: Seq<F>, zero: F) -> (F, F) {
    (
        if v.len() > 0 {
            v[0]
        } else {
            zero
        },
        if v.len() > 1 {
            v[1]
        } else {
            zero
        },
    )
}

/// Takes the first two coordinates of a list; `zero` stands for those that are missing.
pub fn xy<F: Copy>(v: &Vec<F>, zero: F) -> (r: (F, F))
    ensures
        r == point(v@, zero),
{
    (
        if v.len() > 0 {
            v[0]
        } else {
            zero
        },
        if v.len() > 1 {
            v[1]
        } else {
            zero
        },
    )
}

/// The first window with this key in a list.
pub open spec fn find_window<F>(windows: Seq<DriftWindow<F>>, key: Seq<char>) -> Option<
    DriftWindow<F>,
>
    decreases windows.len(),
{
    if windows.len() == 0 {
        None
    } else if text::signed_decimal(windows[0].id as int) == key {
        Some(windows[0])
    } else {
        find_window(windows.drop_first(), key)
    }
}

/// Where the window with this key is in a list.
pub open spec fn place_in<F>(windows: Seq<DriftWindow<F>>, key: Seq<char>, zero: F) -> Option<
    (F, F),
> {
    match find_window(windows, key) {
        Some(w) => Some(point(w.position@, zero)),
        None => None,
    }
}

impl<F: Copy> DriftState<F> {
    /// The window with this key.
    pub fn find(&self, key: &str) -> (r: Option<&DriftWindow<F>>)
        ensures
            match r {
                Some(w) => find_window(self.windows@, key@) == Some(*w),
                None => find_window(self.windows@, key@) is None,
            },
    {
        let mut i: usize = 0;
        assert(self.windows@.skip(0) =~= self.windows@);
        while i < self.windows.len()
            invariant
                i <= self.windows.len(),
                find_window(self.windows@, key@) == find_window(
                    self.windows@.skip(i as int),
                    key@,
                ),
            decreases self.windows.len() - i,
        {
            let w = &self.windows[i];
            if text::same_text(text::signed_text(w.id).as_str(), key) {
                return Some(w);
            }
            assert(self.windows@.skip(i as int).drop_first() =~= self.windows@.skip(i + 1));
            i += 1;
        }
        None
    }

    /// Where the window with this key is.
    pub fn position_of(&self, key: &str, zero: F) -> (r: Option<(F, F)>)
        ensures
            r == place_in(self.windows@, key@, zero),
    {
        match self.find(key) {
            Some(w) => Some(xy(&w.position, zero)),
            None => None,
        }
    }
}

/// The key of a window leads back to a window with its id.
pub proof fn law_keys_lead_back<F>(windows: Seq<DriftWindow<F>>, i: int)
    requires
        0 <= i < windows.len(),
    ensures
        find_window(windows, text::signed_decimal(windows[i].id as int)) matches Some(w) && w.id
            == windows[i].id,
    decreases windows.len(),
{
    let key = text::signed_decimal(windows[i].id as int);
    if text::signed_decimal(windows[0].id as int) == key {
        text::law_signed_decimal_is_unambiguous(windows[0].id as int, windows[i].id as int);
    } else {
        assert(windows.drop_first()[i - 1] == windows[i]);
        law_keys_lead_back(windows.drop_first(), i - 1);
    }
}

} // verus!
