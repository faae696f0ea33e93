use ra_common::config::{
    join_path, lines, load_all, load_from_args, parse_properties, trim, Properties, SystemSettings,
};
use ra_common::RaError;

#[test]
fn args_parsing() {
    let args = vec!["a=1".to_string(), "b=2".to_string(), "ignored".to_string()];
    let p = load_from_args(&args, '=');
    assert_eq!(p.get("a").map(String::as_str), Some("1"));
    assert_eq!(p.get("b").map(String::as_str), Some("2"));
    assert_eq!(p.len(), 2);
}

#[test]
fn properties_parsing() {
    let p = parse_properties("# comment\nra.version = 1.2.0\n\nempty:\nx = y = z\n");
    assert_eq!(p.get("ra.version").map(String::as_str), Some("1.2.0"));
    assert_eq!(p.get("x").map(String::as_str), Some("y = z"));
}

#[test]
fn load_all_precedence() {
    let mut env = Properties::new();
    env.insert("RA_COMMON_TEST_KEY".into(), "from-env".into());
    let mut client = Properties::new();
    client.insert("RA_COMMON_TEST_KEY".into(), "from-client".into());
    let merged = load_all(&client, env, None);
    assert_eq!(merged.get("RA_COMMON_TEST_KEY").map(String::as_str), Some("from-client"));
}

#[test]
fn file_properties_sit_between_env_and_client() {
    let mut env = Properties::new();
    env.insert("a".into(), "env".into());
    env.insert("b".into(), "env".into());
    env.insert("c".into(), "env".into());
    let file = parse_properties("b=file\nc=file\n");
    let mut client = Properties::new();
    client.insert("c".into(), "client".into());
    let merged = load_all(&client, env, Some(file));
    assert_eq!(merged.get("a").map(String::as_str), Some("env"));
    assert_eq!(merged.get("b").map(String::as_str), Some("file"));
    assert_eq!(merged.get("c").map(String::as_str), Some("client"));
}

#[test]
fn comment_and_colon_lines() {
    let p = parse_properties("! bang\r\n  key : value  \r\nnokey\n#x=y");
    assert_eq!(p.len(), 1);
    assert_eq!(p.get("key").map(String::as_str), Some("value"));
}

#[test]
fn lines_and_trim() {
    assert_eq!(lines("a\r\nb\n\nc"), vec!["a", "b", "", "c"]);
    assert_eq!(lines("a\n"), vec!["a"]);
    assert!(lines("").is_empty());
    assert_eq!(lines("x\r"), vec!["x\r"]);
    assert_eq!(trim(" \t a b \u{3000}"), "a b");
    assert_eq!(trim("   "), "");
}

#[test]
fn paths_join_like_path_join() {
    assert_eq!(join_path("/home/u", ".config"), "/home/u/.config");
    assert_eq!(join_path("/home/u/", ".config"), "/home/u/.config");
    assert_eq!(join_path("", "x"), "x");
    assert_eq!(join_path("/a", "/b"), "/b");
    assert_eq!(
        SystemSettings::app_dir("/data", "ra", "app"),
        std::path::Path::new("/data").join("ra").join("app").to_string_lossy()
    );
}

#[test]
fn user_directories_follow_xdg_then_home() {
    let mut env = Properties::new();
    env.insert("HOME".into(), "/home/u".into());
    assert_eq!(SystemSettings::user_data_dir(&env).as_deref(), Some("/home/u/.local/share"));
    assert_eq!(SystemSettings::user_config_dir(&env).as_deref(), Some("/home/u/.config"));
    env.insert("XDG_CACHE_HOME".into(), "/tmp/cache".into());
    assert_eq!(SystemSettings::user_cache_dir(&env).as_deref(), Some("/tmp/cache"));
    assert_eq!(
        SystemSettings::user_app_cache_dir(&env, "ra", "app").unwrap(),
        "/tmp/cache/ra/app"
    );
    let empty = Properties::new();
    assert!(matches!(
        SystemSettings::user_app_data_dir(&empty, "ra", "app"),
        Err(RaError::FileCreationFailed(_))
    ));
    let mut win = Properties::new();
    win.insert("USERPROFILE".into(), "C:/Users/u".into());
    assert_eq!(SystemSettings::user_home_dir(&win).as_deref(), Some("C:/Users/u"));
}
