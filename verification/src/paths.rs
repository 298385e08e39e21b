//! Where files are: the configuration, the cache and the locks.

use crate::config::ConfigError;
use crate::config::ConfigFault;
use vstd::prelude::*;
use vstd::string::*;

verus! {

/// Below which name everything of this program lies.
pub const PROGRAM_DIR: &'static str = "way-pad";

/// `name` below `base`, by the rules of Unix paths: a name that starts at the root stands for
/// itself, and a slash goes in between where `base` has a last character and it is no slash.
pub open spec fn below(base: Seq<char>, name: Seq<char>) -> Seq<char> {
    if name.len() > 0 && name[0] == '/' {
        name
    } else if base.len() > 0 && base.last() != '/' {
        base + "/"@ + name
    } else {
        base + name
    }
}

/// `name` below `base`, by the rules of Unix paths.
pub fn join_path(base: &str, name: &str) -> (r: String)
    ensures
        r@ == below(base@, name@),
{
    if !name.is_empty() && name.get_char(0) == '/' {
        return name.to_owned();
    }
    let len: usize = base.unicode_len();
    let mut s = base.to_owned();
    if len > 0 && base.get_char(len - 1) != '/' {
        s.append("/");
    }
    s.append(name);
    s
}

/// A value of the environment that is set and not empty.
pub open spec fn set_value(value: Option<&str>) -> Option<Seq<char>> {
    match value {
        Some(v) => if v@.len() == 0 {
            None
        } else {
            Some(v@)
        },
        None => None,
    }
}

fn is_set(value: Option<&str>) -> (r: bool)
    ensures
        r == set_value(value) is Some,
{
    match value {
        Some(v) => !v.is_empty(),
        None => false,
    }
}

/// Where the configuration is. `P` is the type of a path that the user gave.
#[derive(Debug)]
pub enum ConfigLocation<P> {
    /// Where the user said.
    Given(P),
    /// Where the environment says.
    Found(String),
}

/// The path of the configuration by the environment alone.
pub open spec fn config_by_environment(
    way_pad_config: Option<&str>,
    xdg_config_home: Option<&str>,
    home: Option<&str>,
) -> Option<Seq<char>> {
    match set_value(way_pad_config) {
        Some(path) => Some(path),
        None => {
            let base = match set_value(xdg_config_home) {
                Some(dir) => Some(dir),
                None => match home {
                    Some(dir) => Some(below(dir@, ".config"@)),
                    None => None,
                },
            };
            match base {
                Some(dir) => Some(below(below(dir, PROGRAM_DIR@), "config.toml"@)),
                None => None,
            }
        },
    }
}

/// Finds the configuration. A path that the user gave counts first, then `WAY_PAD_CONFIG`, then
/// `config.toml` in the directory of the program below `XDG_CONFIG_HOME` or, where that is not
/// set, below `.config` in the home directory.
pub fn config_path<P>(
    explicit: Option<P>,
    way_pad_config: Option<&str>,
    xdg_config_home: Option<&str>,
    home: Option<&str>,
) -> (r: Result<ConfigLocation<P>, ConfigError>)
    ensures
        match r {
            Ok(ConfigLocation::Given(path)) => explicit == Some(path),
            Ok(ConfigLocation::Found(path)) => explicit is None && config_by_environment(
                way_pad_config,
                xdg_config_home,
                home,
            ) == Some(path@),
            Err(e) => {
                &&& explicit is None
                &&& config_by_environment(way_pad_config, xdg_config_home, home) is None
                &&& e@ == ConfigFault::NoHome
            },
        },
{
    if let Some(path) = explicit {
        return Ok(ConfigLocation::Given(path));
    }
    if is_set(way_pad_config) {
        if let Some(path) = way_pad_config {
            return Ok(ConfigLocation::Found(path.to_owned()));
        }
    }
    let mut base = String::new();
    if is_set(xdg_config_home) {
        if let Some(dir) = xdg_config_home {
            base = dir.to_owned();
        }
    } else {
        match home {
            Some(dir) => {
                base = join_path(dir, ".config");
            },
            None => {
                return Err(ConfigError::NoHome);
            },
        }
    }
    let dir = join_path(base.as_str(), PROGRAM_DIR);
    Ok(ConfigLocation::Found(join_path(dir.as_str(), "config.toml")))
}

/// The directory in which the program keeps what it remembers.
pub open spec fn cache_by_environment(xdg_cache_home: Option<&str>, home: Option<&str>) -> Option<
    Seq<char>,
> {
    match set_value(xdg_cache_home) {
        Some(dir) => Some(below(dir, PROGRAM_DIR@)),
        None => match home {
            Some(dir) => Some(below(dir@ + "/.cache"@, PROGRAM_DIR@)),
            None => None,
        },
    }
}

/// Finds the directory in which the program keeps what it remembers: below `XDG_CACHE_HOME` or,
/// where that is not set, below `.cache` in the home directory.
pub fn cache_dir(xdg_cache_home: Option<&str>, home: Option<&str>) -> (r: Option<String>)
    ensures
        match r {
            Some(dir) => cache_by_environment(xdg_cache_home, home) == Some(dir@),
            None => cache_by_environment(xdg_cache_home, home) is None,
        },
{
    if is_set(xdg_cache_home) {
        if let Some(dir) = xdg_cache_home {
            return Some(join_path(dir, PROGRAM_DIR));
        }
    }
    match home {
        Some(dir) => {
            let mut base = dir.to_owned();
            base.append("/.cache");
            Some(join_path(base.as_str(), PROGRAM_DIR))
        },
        None => None,
    }
}

/// The directory of the locks.
pub open spec fn locks_by_environment(xdg_runtime_dir: Option<&str>) -> Seq<char> {
    match set_value(xdg_runtime_dir) {
        Some(dir) => below(dir, PROGRAM_DIR@),
        None => below("/tmp"@, PROGRAM_DIR@),
    }
}

/// Finds the directory of the locks: below `XDG_RUNTIME_DIR` or, where that is not set, `/tmp`.
pub fn lock_dir(xdg_runtime_dir: Option<&str>) -> (r: String)
    ensures
        r@ == locks_by_environment(xdg_runtime_dir),
{
    if is_set(xdg_runtime_dir) {
        if let Some(dir) = xdg_runtime_dir {
            return join_path(dir, PROGRAM_DIR);
        }
    }
    join_path("/tmp", PROGRAM_DIR)
}

/// The lock file of a pad in the directory of the locks.
pub fn lock_file(dir: &str, pad: &str) -> (r: String)
    ensures
        r@ == below(dir@, pad@ + ".lock"@),
{
    let mut name = pad.to_owned();
    name.append(".lock");
    join_path(dir, name.as_str())
}

/// Whether the lock of a pad was got, by what the system call answered: zero where it was. A pad
/// is in the hands of one process at a time; who comes second has to give up.
pub fn acquire_pad_lock(pad: &str, answer: i32) -> (r: Result<(), String>)
    ensures
        match r {
            Ok(()) => answer == 0,
            Err(message) => answer != 0 && message@ == "'"@ + pad@
                + "' 已有另一个 way-pad 正在处理（按键重复？），本次已忽略"@,
        },
{
    if answer == 0 {
        return Ok(());
    }
    let mut s = "'".to_owned();
    s.append(pad);
    s.append("' 已有另一个 way-pad 正在处理（按键重复？），本次已忽略");
    Err(s)
}

/// Whether a name starts at the root.
pub open spec fn at_root(name: Seq<char>) -> bool {
    name.len() > 0 && name[0] == '/'
}

/// Pads with different names have different locks, unless the name of one starts at the root and
/// is the very path that the name of the other has in the directory of the locks.
pub proof fn law_locks_are_apart(dir: Seq<char>, a: Seq<char>, b: Seq<char>)
    requires
        a != b,
        at_root(a) && !at_root(b) ==> a != below(dir, b),
        at_root(b) && !at_root(a) ==> b != below(dir, a),
    ensures
        below(dir, a + ".lock"@) != below(dir, b + ".lock"@),
{
    lemma_lock_of(dir, a);
    lemma_lock_of(dir, b);
    if below(dir, a) + ".lock"@ == below(dir, b) + ".lock"@ {
        lemma_same_end(below(dir, a), below(dir, b), ".lock"@);
        if !at_root(a) && !at_root(b) {
            let front = if dir.len() > 0 && dir.last() != '/' {
                dir + "/"@
            } else {
                dir
            };
            assert(front + a == front + b);
            assert((front + a).skip(front.len() as int) =~= a);
            assert((front + b).skip(front.len() as int) =~= b);
        }
    }
}

proof fn lemma_lock_of(dir: Seq<char>, name: Seq<char>)
    ensures
        below(dir, name + ".lock"@) == below(dir, name) + ".lock"@,
{
    reveal_strlit(".lock");
    assert(at_root(name + ".lock"@) == at_root(name));
    assert(below(dir, name + ".lock"@) =~= below(dir, name) + ".lock"@);
}

proof fn lemma_same_end(x: Seq<char>, y: Seq<char>, end: Seq<char>)
    requires
        x + end == y + end,
    ensures
        x == y,
{
    assert(x.len() == (x + end).len() - end.len());
    assert(y.len() == (y + end).len() - end.len());
    assert(x =~= (x + end).take(x.len() as int));
    assert(y =~= (y + end).take(y.len() as int));
}

} // verus!
