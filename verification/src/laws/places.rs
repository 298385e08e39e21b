//! Laws of where files are.

use crate::paths;
use vstd::prelude::*;

verus! {

/// A name below a directory is the directory, one slash and the name; the slash is not doubled, and
/// there is none where there is no directory. A name that starts at the root stands for itself.
pub proof fn law_names_go_below_directories(base: Seq<char>, name: Seq<char>)
    ensures
        paths::at_root(name) <==> name.len() > 0 && name[0] == '/',
        name.len() > 0 && name[0] == '/' ==> paths::below(base, name) == name,
        !(name.len() > 0 && name[0] == '/') ==> {
            &&& base.len() == 0 ==> paths::below(base, name) == name
            &&& base.len() > 0 && base.last() == '/' ==> paths::below(base, name) == base + name
            &&& base.len() > 0 && base.last() != '/' ==> paths::below(base, name) == base.push('/')
                + name
        },
{
    reveal_strlit("/");
    assert(base + "/"@ =~= base.push('/'));
    if base.len() == 0 {
        assert(base + name =~= name);
    }
}

/// The configuration is where `WAY_PAD_CONFIG` says; where that is not set or empty, below
/// `XDG_CONFIG_HOME`; where that is not set or empty either, below `.config` in the home directory.
pub proof fn law_the_configuration_is_looked_for_in_order(
    way_pad_config: Option<&str>,
    xdg_config_home: Option<&str>,
    home: Option<&str>,
)
    ensures
        ({
            let found = paths::config_by_environment(way_pad_config, xdg_config_home, home);
            let given = way_pad_config is Some && way_pad_config->0@.len() > 0;
            let xdg = xdg_config_home is Some && xdg_config_home->0@.len() > 0;
            &&& given ==> found == Some(way_pad_config->0@)
            &&& !given && xdg ==> found == Some(
                paths::below(paths::below(xdg_config_home->0@, "way-pad"@), "config.toml"@),
            )
            &&& !given && !xdg && home is Some ==> found == Some(
                paths::below(
                    paths::below(paths::below(home->0@, ".config"@), "way-pad"@),
                    "config.toml"@,
                ),
            )
            &&& !given && !xdg && home is None ==> found is None
        }),
{
}

/// The cache is below `XDG_CACHE_HOME` or, where that is not set or empty, below `.cache` in the home
/// directory; the locks are below `XDG_RUNTIME_DIR` or, where that is not set or empty, `/tmp`.
pub proof fn law_cache_and_locks_follow_the_environment(
    xdg_cache_home: Option<&str>,
    home: Option<&str>,
    xdg_runtime_dir: Option<&str>,
)
    ensures
        ({
            let cache = paths::cache_by_environment(xdg_cache_home, home);
            let xdg = xdg_cache_home is Some && xdg_cache_home->0@.len() > 0;
            &&& xdg ==> cache == Some(paths::below(xdg_cache_home->0@, "way-pad"@))
            &&& !xdg && home is Some ==> cache == Some(
                paths::below(home->0@ + "/.cache"@, "way-pad"@),
            )
            &&& !xdg && home is None ==> cache is None
        }),
        ({
            let locks = paths::locks_by_environment(xdg_runtime_dir);
            let xdg = xdg_runtime_dir is Some && xdg_runtime_dir->0@.len() > 0;
            &&& xdg ==> locks == paths::below(xdg_runtime_dir->0@, "way-pad"@)
            &&& !xdg ==> locks == paths::below("/tmp"@, "way-pad"@)
        }),
{
}

} // verus!
