//! Configuration model: rules, path selection, and error wording.

use portproxy::config::{get_config_path, Config, Error, Proxy};

#[test]
fn proxy_keeps_its_addresses() {
    let p = Proxy::new("127.0.0.1:18001".to_string(), "127.0.0.1:18000".to_string());
    assert_eq!(p.listen().as_str(), "127.0.0.1:18001");
    assert_eq!(p.connect().as_str(), "127.0.0.1:18000");
}

#[test]
fn config_keeps_its_rules() {
    let p = Proxy::new("a:1".to_string(), "b:2".to_string());
    let cfg = Config::new(Some(vec![p]));
    match cfg.proxy() {
        Some(rules) => {
            assert_eq!(rules.len(), 1);
            assert_eq!(rules[0].listen().as_str(), "a:1");
        }
        None => panic!("rules were lost"),
    }
}

#[test]
fn environment_value_wins_over_home() {
    let r = get_config_path(Some("/etc/pp.toml".to_string()), Some("/home/u".to_string()));
    assert_eq!(r, Some("/etc/pp.toml".to_string()));
}

#[test]
fn home_supplies_the_default_path() {
    let r = get_config_path(None, Some("/home/u".to_string()));
    assert_eq!(r, Some("/home/u/.config/portproxy.toml".to_string()));
}

#[test]
fn no_environment_and_no_home_is_no_path() {
    let r = get_config_path(None, None);
    assert_eq!(r, None);
}

#[test]
fn error_messages_are_exact() {
    assert_eq!(Error::ConfigPathNotFound.message(), "Failed to get config path");
    assert_eq!(
        Error::Io { path: "/x/y.toml".to_string() }.message(),
        "Can not open file \"/x/y.toml\""
    );
    assert_eq!(
        Error::Parse { path: "/x/y.toml".to_string() }.message(),
        "Parsing config file \"/x/y.toml\" failed"
    );
    assert_eq!(Error::NoProxies.message(), "No proxies defined in config");
}
