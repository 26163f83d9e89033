use sshdb::app::App;
use sshdb::bastion::build_bastion_string;
use sshdb::model::{Config, Host};

fn sample() -> Config {
    Config::sample()
}

#[test]
fn rejects_self_bastion() {
    let mut config = sample();
    if let Some(host) = config.hosts.first_mut() {
        host.bastion = Some(host.name.clone());
    }
    let err = App::validate_bastions(&config).unwrap_err();
    assert!(err.message().contains("cannot use itself as bastion"));
}

#[test]
fn rejects_circular_bastions() {
    let mut config = sample();
    if let Some(jump) = config.hosts.iter_mut().find(|h| h.name == "jump-eu") {
        jump.bastion = Some("staging-db".into());
    }
    let err = App::validate_bastions(&config).unwrap_err();
    assert!(err.message().to_lowercase().contains("circular bastion reference"));
}

#[test]
fn allows_unknown_bastion_name() {
    let mut config = sample();
    if let Some(host) = config.hosts.first_mut() {
        host.bastion = Some("external.example.com".into());
    }
    App::validate_bastions(&config).unwrap();
}

#[test]
fn resolves_single_hop_chain() {
    let config = sample();
    // staging-db's bastion is jump-eu: ops@52.17.9.3, no port.
    let chain = build_bastion_string(&config, "jump-eu").unwrap();
    assert_eq!(chain, "ops@52.17.9.3");
}

#[test]
fn resolves_nested_chain_outermost_first() {
    let mut config = sample();
    // jump-eu itself goes through prod-web; resolving staging-db's chain
    // from jump-eu must list the outermost hop first.
    if let Some(jump) = config.hosts.iter_mut().find(|h| h.name == "jump-eu") {
        jump.bastion = Some("prod-web".into());
    }
    let chain = build_bastion_string(&config, "jump-eu").unwrap();
    assert_eq!(chain, "deploy@52.14.33.10:22,ops@52.17.9.3");
}

#[test]
fn resolve_reports_unknown_name() {
    let config = sample();
    let err = build_bastion_string(&config, "nowhere").unwrap_err();
    assert!(err.message().contains("'nowhere' not found"));
}

#[test]
fn resolve_reports_cycle() {
    let mut config = sample();
    if let Some(jump) = config.hosts.iter_mut().find(|h| h.name == "jump-eu") {
        jump.bastion = Some("staging-db".into());
    }
    // staging-db -> jump-eu -> staging-db revisits.
    let err = build_bastion_string(&config, "staging-db").unwrap_err();
    assert!(err.message().contains("circular bastion reference detected"));
}

#[test]
fn validate_accepts_untouched_sample() {
    App::validate_bastions(&sample()).unwrap();
    let _ = Host {
        name: "n".into(),
        address: "a".into(),
        user: None,
        port: None,
        key_path: None,
        tags: Vec::new(),
        options: Vec::new(),
        remote_command: None,
        bastion: None,
        description: None,
    };
}
