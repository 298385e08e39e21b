use std::path::{Path, PathBuf};
use way_pad::config::ConfigError;
use way_pad::paths::{
    acquire_pad_lock, cache_dir, config_path, join_path, lock_dir, lock_file, ConfigLocation,
};

fn found(way_pad: Option<&str>, xdg: Option<&str>, home: Option<&str>) -> Option<String> {
    match config_path::<PathBuf>(None, way_pad, xdg, home) {
        Ok(ConfigLocation::Found(path)) => Some(path),
        _ => None,
    }
}

#[test]
fn paths_are_joined_as_the_standard_library_does() {
    for base in ["", "/", "/a", "/a/", "a", "a/b//"] {
        for name in ["", "b", "/b", "b/c", "."] {
            let expected = PathBuf::from(base).join(name).display().to_string();
            assert_eq!(join_path(base, name), expected, "{base:?} {name:?}");
        }
    }
}

#[test]
fn the_given_configuration_counts_first() {
    let given = Path::new("other.toml").to_path_buf();
    match config_path(Some(given.clone()), Some("/env.toml"), Some("/x"), Some("/h")) {
        Ok(ConfigLocation::Given(path)) => assert_eq!(path, given),
        other => panic!("{other:?}"),
    }
}

#[test]
fn the_environment_says_where_the_configuration_is() {
    let (env, xdg, home) = (Some("/env.toml"), Some("/x"), Some("/home/u"));
    assert_eq!(found(env, xdg, home).as_deref(), Some("/env.toml"));
    assert_eq!(found(Some(""), xdg, home).as_deref(), Some("/x/way-pad/config.toml"));
    assert_eq!(found(None, xdg, None).as_deref(), Some("/x/way-pad/config.toml"));
    let by_home = Some("/home/u/.config/way-pad/config.toml");
    assert_eq!(found(None, Some(""), home).as_deref(), by_home);
    assert_eq!(found(None, None, home).as_deref(), by_home);
    assert_eq!(found(None, None, Some("")).as_deref(), Some(".config/way-pad/config.toml"));
}

#[test]
fn without_a_home_there_is_no_configuration() {
    let r = config_path::<PathBuf>(None, None, Some(""), None);
    assert!(matches!(r, Err(ConfigError::NoHome)));
}

#[test]
fn the_cache_lies_below_the_home_directory() {
    assert_eq!(cache_dir(Some("/c"), Some("/h")).as_deref(), Some("/c/way-pad"));
    assert_eq!(cache_dir(Some(""), Some("/h")).as_deref(), Some("/h/.cache/way-pad"));
    assert_eq!(cache_dir(None, Some("/h/")).as_deref(), Some("/h//.cache/way-pad"));
    assert_eq!(cache_dir(None, None), None);
}

#[test]
fn locks_lie_in_the_runtime_directory() {
    assert_eq!(lock_dir(Some("/run/user/1000")), "/run/user/1000/way-pad");
    assert_eq!(lock_dir(Some("")), "/tmp/way-pad");
    assert_eq!(lock_dir(None), "/tmp/way-pad");
    assert_eq!(lock_file("/tmp/way-pad", "term"), "/tmp/way-pad/term.lock");
}

#[test]
fn different_pads_have_different_locks() {
    let names = ["", "a", "b", "ab", "a.lock", "终端", "/", "/a", "/d/y", "/q.lock"];
    for a in names {
        for b in names {
            assert_eq!(lock_file("/d", a) == lock_file("/d", b), a == b);
        }
    }
    // A name that starts at the root stands for itself, and can be the path of another.
    assert_eq!(lock_file("/d", "/d/z"), lock_file("/d", "z"));
}

#[test]
fn a_pad_is_in_the_hands_of_one_process() {
    assert!(acquire_pad_lock("term", 0).is_ok());
    assert_eq!(
        acquire_pad_lock("term", -1).unwrap_err(),
        "'term' 已有另一个 way-pad 正在处理（按键重复？），本次已忽略"
    );
}
