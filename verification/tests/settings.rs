use shery::{Arguments, Config, IPType, ParseError, Settings};

fn owned(items: &[&str]) -> Vec<String> {
    items.iter().map(|s| s.to_string()).collect()
}

fn args() -> Arguments {
    Arguments {
        inputfile: None,
        host_ip: None,
        allow_ip: None,
        premiscuous: false,
        secure_connection: false,
    }
}

fn conf(host: &str) -> Config {
    Config { host_ip: host.to_string(), allow_ip: None, premiscuous: false, secure: false }
}

#[test]
fn command_line_host_wins() {
    let cli = Arguments { host_ip: Some("10.0.0.1:9090".to_string()), ..args() };
    let settings = Settings::combine(cli, conf("192.168.0.1")).unwrap();
    assert_eq!(settings.host_ip.ip, "10.0.0.1");
    assert_eq!(settings.host_ip.port, Some(9090));
    assert_eq!(settings.host_ip.iptype, IPType::IPV4);
}

#[test]
fn configuration_host_is_the_fallback() {
    let settings = Settings::combine(args(), conf("127.0.0.1")).unwrap();
    assert_eq!(settings.host_ip.ip, "127.0.0.1");
    assert_eq!(settings.host_ip.port, None);
    assert_eq!(settings.host_ip.iptype, IPType::IPV4);
}

#[test]
fn empty_command_line_allow_list_shadows_configuration() {
    let cli = Arguments { allow_ip: Some(Vec::new()), ..args() };
    let cfg = Config { allow_ip: Some(owned(&["1.2.3.4"])), ..conf("127.0.0.1") };
    let settings = Settings::combine(cli, cfg).unwrap();
    let allow = settings.allow_ip.unwrap();
    assert!(allow.is_empty());
}

#[test]
fn bad_port_on_command_line_host_fails() {
    let cli = Arguments { host_ip: Some("10.0.0.1:notaport".to_string()), ..args() };
    let err = Settings::combine(cli, conf("192.168.0.1")).unwrap_err();
    assert_eq!(err, ParseError::InvalidPort);
}

#[test]
fn bad_configuration_host_fails_when_it_is_used() {
    let err = Settings::combine(args(), conf("127.0.0.1:http")).unwrap_err();
    assert_eq!(err, ParseError::InvalidPort);
}

#[test]
fn bad_configuration_host_is_ignored_when_shadowed() {
    let cli = Arguments { host_ip: Some("10.0.0.1".to_string()), ..args() };
    let settings = Settings::combine(cli, conf("127.0.0.1:http")).unwrap();
    assert_eq!(settings.host_ip.ip, "10.0.0.1");
}

#[test]
fn command_line_allow_list_replaces_configuration() {
    let cli = Arguments { allow_ip: Some(owned(&["5.5.5.5:55", "6.6.6.6"])), ..args() };
    let cfg = Config { allow_ip: Some(owned(&["1.2.3.4", "bad:port"])), ..conf("127.0.0.1") };
    let settings = Settings::combine(cli, cfg).unwrap();
    let allow = settings.allow_ip.unwrap();
    assert_eq!(allow.len(), 2);
    assert_eq!(allow[0].ip, "5.5.5.5");
    assert_eq!(allow[0].port, Some(55));
    assert_eq!(allow[1].ip, "6.6.6.6");
    assert_eq!(allow[1].port, None);
}

#[test]
fn configuration_allow_list_is_the_fallback() {
    let cfg = Config { allow_ip: Some(owned(&["1.2.3.4", "4.3.2.1:21"])), ..conf("127.0.0.1") };
    let settings = Settings::combine(args(), cfg).unwrap();
    let allow = settings.allow_ip.unwrap();
    assert_eq!(allow.len(), 2);
    assert_eq!(allow[0].ip, "1.2.3.4");
    assert_eq!(allow[0].port, None);
    assert_eq!(allow[1].ip, "4.3.2.1");
    assert_eq!(allow[1].port, Some(21));
}

#[test]
fn no_allow_list_anywhere_gives_none() {
    let settings = Settings::combine(args(), conf("127.0.0.1")).unwrap();
    assert!(settings.allow_ip.is_none());
}

#[test]
fn bad_allow_entry_fails_the_whole_resolution() {
    let cli = Arguments { allow_ip: Some(owned(&["5.5.5.5", "6.6.6.6:x"])), ..args() };
    let err = Settings::combine(cli, conf("127.0.0.1")).unwrap_err();
    assert_eq!(err, ParseError::InvalidPort);

    let cfg = Config { allow_ip: Some(owned(&["1.2.3.4:99999"])), ..conf("127.0.0.1") };
    let err = Settings::combine(args(), cfg).unwrap_err();
    assert_eq!(err, ParseError::InvalidPort);
}

#[test]
fn input_path_comes_from_the_command_line_only() {
    let cli = Arguments { inputfile: Some("/srv/share".to_string()), ..args() };
    let settings = Settings::combine(cli, conf("127.0.0.1")).unwrap();
    assert_eq!(settings.inputpath.as_deref(), Some("/srv/share"));

    let settings = Settings::combine(args(), conf("127.0.0.1")).unwrap();
    assert_eq!(settings.inputpath, None);
}

#[test]
fn a_flag_set_on_either_source_is_set() {
    for cli_p in [false, true] {
        for cfg_p in [false, true] {
            for cli_s in [false, true] {
                for cfg_s in [false, true] {
                    let cli = Arguments { premiscuous: cli_p, secure_connection: cli_s, ..args() };
                    let cfg = Config { premiscuous: cfg_p, secure: cfg_s, ..conf("127.0.0.1") };
                    let settings = Settings::combine(cli, cfg).unwrap();
                    assert_eq!(settings.permiscuous, cli_p || cfg_p);
                    assert_eq!(settings.secure, cli_s || cfg_s);
                }
            }
        }
    }
}

#[test]
fn default_settings_are_empty() {
    let settings = Settings::default();
    assert_eq!(settings.host_ip.ip, "");
    assert_eq!(settings.host_ip.port, None);
    assert_eq!(settings.host_ip.iptype, IPType::IPV4);
    assert!(settings.allow_ip.is_none());
    assert!(settings.inputpath.is_none());
    assert!(!settings.permiscuous);
    assert!(!settings.secure);
}
