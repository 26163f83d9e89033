use sshdb::model::{Config, Host};
use sshdb::ssh::{command_preview, expand_tilde, EnvInfo};

fn host(name: &str) -> Host {
    Host {
        name: name.into(),
        address: "example.com".into(),
        user: None,
        port: None,
        key_path: None,
        tags: Vec::new(),
        options: Vec::new(),
        remote_command: None,
        bastion: None,
        description: None,
    }
}

fn no_env() -> EnvInfo {
    EnvInfo { agent_sock: None, home: None }
}

#[test]
fn builds_preview_with_defaults() {
    let config = Config::default();
    let h = Host {
        name: "prod".into(),
        address: "10.0.0.1".into(),
        user: Some("deploy".into()),
        port: Some(2222),
        key_path: None,
        tags: vec![],
        options: vec!["-L".into(), "8080:localhost:80".into()],
        remote_command: None,
        bastion: None,
        description: None,
    };
    let preview = command_preview(&h, &config, Some("~/.ssh/id_ed25519"), Some("uptime"), &no_env());
    assert!(preview.contains("-p 2222"));
    assert!(preview.contains("-i"));
    assert!(preview.contains("deploy@10.0.0.1"));
    assert!(preview.ends_with("uptime"));
    assert!(preview.contains("-L 8080:localhost:80"));
}

#[test]
fn expands_tilde() {
    let out = expand_tilde("~/abc", &Some("/home/me".to_string()));
    assert!(out.contains("/home/me"));
    assert_eq!(out, "/home/me/abc");
    // Without a home directory the path stays as written.
    assert_eq!(expand_tilde("~/abc", &None), "~/abc");
    assert_eq!(expand_tilde("/etc/x", &Some("/home/me".to_string())), "/etc/x");
}

#[test]
fn uses_fallback_key() {
    let config = Config::default();
    let h = host("fallback");
    // No host key, no default key, no agent socket: the conventional key.
    let env = EnvInfo { agent_sock: None, home: None };
    let preview = command_preview(&h, &config, None, None, &env);
    assert!(preview.contains("-i"));
    assert!(preview.contains("~/.ssh/id_ed25519"));
}

#[test]
fn respects_agent_when_available() {
    let config = Config::default();
    let h = host("agent");
    let env = EnvInfo { agent_sock: Some("/tmp/agent.sock".to_string()), home: None };
    let preview = command_preview(&h, &config, None, None, &env);
    assert!(!preview.contains("-i"), "agent mode should not add -i");
}

#[test]
fn agent_sentinel_suppresses_key() {
    let config = Config::default();
    let h = host("sentinel");
    let preview = command_preview(&h, &config, Some("agent"), None, &no_env());
    assert!(!preview.contains("-i"));
}

#[test]
fn preview_marks_unresolvable_bastion() {
    let config = Config::default();
    let mut h = host("lost");
    h.bastion = Some("missing".into());
    let preview = command_preview(&h, &config, Some("agent"), None, &no_env());
    assert!(preview.contains("-J <error: bastion 'missing' not found>"));
}
