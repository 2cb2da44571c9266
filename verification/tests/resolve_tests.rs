use quick_copy::config::{Config, Defaults, Host, Shares, ZipDefaults};
use quick_copy::resolve::{parse_destination, resolve, ResolveError, ResolvedDest};

fn host(addr: &str, paths: Vec<(&str, &str)>) -> Host {
    Host {
        host: addr.to_string(),
        user: None,
        port: None,
        identity_file: None,
        role: None,
        paths: paths
            .into_iter()
            .map(|(a, p)| (a.to_string(), p.to_string()))
            .collect(),
    }
}

fn test_config() -> Config {
    Config {
        version: 1,
        defaults: Defaults {
            user: "chris".to_string(),
            port: 22,
            default_path_alias: "scratch".to_string(),
            zip: ZipDefaults {
                exclude: vec![],
                follow_symlinks: false,
            },
            staging_dir: "/tmp".to_string(),
        },
        hosts: vec![
            (
                "andromeda".to_string(),
                host(
                    "andromeda.example.net",
                    vec![("scratch", "/data/scratch"), ("www", "/var/www")],
                ),
            ),
            ("ganymede".to_string(), host("ganymede.example.net", vec![("dumps", "/srv/dumps")])),
        ],
        shares: Shares {
            default: "ganymede:dumps".to_string(),
            layout: "{source}/{date}".to_string(),
        },
    }
}

#[test]
fn test_parse_destination() {
    assert_eq!(parse_destination("andromeda"), ("andromeda".to_string(), None));
    assert_eq!(
        parse_destination("andromeda:scratch"),
        ("andromeda".to_string(), Some("scratch".to_string()))
    );
    assert_eq!(
        parse_destination("andromeda:/home/chris"),
        ("andromeda".to_string(), Some("/home/chris".to_string()))
    );
}

#[test]
fn parse_splits_at_first_colon_only() {
    assert_eq!(
        parse_destination("h:a:b:/c"),
        ("h".to_string(), Some("a:b:/c".to_string()))
    );
    assert_eq!(parse_destination(""), ("".to_string(), None));
    assert_eq!(parse_destination("h:"), ("h".to_string(), Some("".to_string())));
}

#[test]
fn resolve_uses_default_alias() {
    let config = test_config();
    let d = resolve("andromeda", &config).unwrap();
    assert_eq!(d.user, "chris");
    assert_eq!(d.host, "andromeda.example.net");
    assert_eq!(d.port, 22);
    assert_eq!(d.path, "/data/scratch");
    assert!(d.identity_file.is_none());
}

#[test]
fn resolve_named_alias() {
    let config = test_config();
    let d = resolve("andromeda:www", &config).unwrap();
    assert_eq!(d.path, "/var/www");
}

#[test]
fn resolve_absolute_path_ignores_aliases() {
    let config = test_config();
    let d = resolve("andromeda:/home/chris", &config).unwrap();
    assert_eq!(d.path, "/home/chris");
    // Even a path that shadows an alias name stays verbatim.
    let d2 = resolve("andromeda:/var/www", &config).unwrap();
    assert_eq!(d2.path, "/var/www");
}

#[test]
fn resolve_unknown_host_with_suggestion() {
    let config = test_config();
    match resolve("ANDRO", &config) {
        Err(ResolveError::UnknownHost { name, suggestion }) => {
            assert_eq!(name, "ANDRO");
            assert_eq!(suggestion, Some("andromeda".to_string()));
        }
        other => panic!("expected UnknownHost, got {:?}", other.is_ok()),
    }
}

#[test]
fn resolve_unknown_host_without_suggestion() {
    let config = test_config();
    match resolve("saturn", &config) {
        Err(ResolveError::UnknownHost { name, suggestion }) => {
            assert_eq!(name, "saturn");
            assert_eq!(suggestion, None);
        }
        other => panic!("expected UnknownHost, got {:?}", other.is_ok()),
    }
}

#[test]
fn resolve_unknown_alias_names_host_and_alias() {
    let config = test_config();
    match resolve("andromeda:backups", &config) {
        Err(ResolveError::UnknownAlias { host, alias }) => {
            assert_eq!(host, "andromeda.example.net");
            assert_eq!(alias, "backups");
        }
        other => panic!("expected UnknownAlias, got {:?}", other.is_ok()),
    }
    // The default alias can be missing too.
    match resolve("ganymede", &config) {
        Err(ResolveError::UnknownAlias { host, alias }) => {
            assert_eq!(host, "ganymede.example.net");
            assert_eq!(alias, "scratch");
        }
        other => panic!("expected UnknownAlias, got {:?}", other.is_ok()),
    }
}

#[test]
fn resolve_host_overrides() {
    let mut config = test_config();
    config.hosts[0].1.user = Some("deploy".to_string());
    config.hosts[0].1.port = Some(2222);
    config.hosts[0].1.identity_file = Some("/home/chris/.ssh/id_andromeda".to_string());
    let d = resolve("andromeda", &config).unwrap();
    assert_eq!(d.user, "deploy");
    assert_eq!(d.port, 2222);
    assert_eq!(d.identity_file, Some("/home/chris/.ssh/id_andromeda".to_string()));
}

#[test]
fn targets_and_args() {
    let d = ResolvedDest {
        user: "chris".to_string(),
        host: "andromeda.example.net".to_string(),
        port: 22,
        path: "/data/scratch".to_string(),
        identity_file: None,
    };
    assert_eq!(d.scp_target(), "chris@andromeda.example.net:/data/scratch");
    assert_eq!(d.ssh_target(), "chris@andromeda.example.net");
    assert_eq!(
        d.remote_target("/data/scratch/a.zip"),
        "chris@andromeda.example.net:/data/scratch/a.zip"
    );
    assert!(d.ssh_args().is_empty());
    assert!(d.scp_args().is_empty());

    let d2 = ResolvedDest {
        port: 2222,
        identity_file: Some("/home/chris/.ssh/id".to_string()),
        ..d
    };
    assert_eq!(d2.ssh_args(), vec!["-p", "2222", "-i", "/home/chris/.ssh/id"]);
    assert_eq!(d2.scp_args(), vec!["-P", "2222", "-i", "/home/chris/.ssh/id"]);
}

#[test]
fn host_lookup_and_names() {
    let config = test_config();
    assert!(config.get_host("andromeda").is_some());
    assert!(config.get_host("Andromeda").is_none());
    let names: Vec<String> = config.host_names().into_iter().cloned().collect();
    assert_eq!(names, vec!["andromeda", "ganymede"]);
}

#[test]
fn similar_host_is_case_insensitive_prefix() {
    let config = test_config();
    assert_eq!(config.find_similar_host("GANY"), Some(&"ganymede".to_string()));
    assert_eq!(
        config.find_similar_host("andromeda-prod"),
        Some(&"andromeda".to_string())
    );
    assert_eq!(config.find_similar_host("neptune"), None);
}
