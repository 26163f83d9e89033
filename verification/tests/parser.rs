use sshdb::parser::parse_ssh_spec;

#[test]
fn parses_ssh_string() {
    let spec = parse_ssh_spec("ssh -p 2201 -i ~/.ssh/key deploy@1.2.3.4").unwrap();
    assert_eq!(spec.address, "1.2.3.4");
    assert_eq!(spec.user.as_deref(), Some("deploy"));
    assert_eq!(spec.port, Some(2201));
    assert_eq!(spec.key_path.as_deref(), Some("~/.ssh/key"));
}

#[test]
fn parses_options_after_host() {
    // A port flag after the host is parsed as a flag, not a remote command.
    let spec = parse_ssh_spec("host -p 3333").unwrap();
    assert_eq!(spec.address, "host");
    assert_eq!(spec.port, Some(3333));
    assert_eq!(spec.remote_command, None);

    // Any option after the host is parsed as an option, not a remote command.
    let spec = parse_ssh_spec("host -L 8080:localhost:80").unwrap();
    assert_eq!(spec.address, "host");
    assert!(spec.options.contains(&"-L".to_string()));
    assert!(spec.options.contains(&"8080:localhost:80".to_string()));
    assert_eq!(spec.remote_command, None);

    // Multiple options after the host are all collected.
    let spec = parse_ssh_spec("host -o StrictHostKeyChecking=no -v").unwrap();
    assert_eq!(spec.address, "host");
    assert!(spec.options.contains(&"-o".to_string()));
    assert!(spec.options.contains(&"StrictHostKeyChecking=no".to_string()));
    assert!(spec.options.contains(&"-v".to_string()));
    assert_eq!(spec.remote_command, None);

    // An unrecognized token after options starts the remote command.
    let spec = parse_ssh_spec("host -p 2222 uptime").unwrap();
    assert_eq!(spec.address, "host");
    assert_eq!(spec.port, Some(2222));
    assert_eq!(spec.remote_command.as_deref(), Some("uptime"));
}

#[test]
fn rejects_missing_target() {
    let err = parse_ssh_spec("").unwrap_err();
    assert!(err.message().contains("target missing"));
    let err = parse_ssh_spec("ssh -p 22").unwrap_err();
    assert!(err.message().contains("target missing"));
}

#[test]
fn joins_remote_command_words() {
    let spec = parse_ssh_spec("ssh deploy@1.2.3.4 tail -f /var/log/syslog").unwrap();
    // Everything from the first unrecognized token on, space-joined.
    assert_eq!(spec.remote_command.as_deref(), Some("tail -f /var/log/syslog"));
}

#[test]
fn parses_jump_flag_as_bastion() {
    let spec = parse_ssh_spec("ssh -J hop1 admin@target").unwrap();
    assert_eq!(spec.bastion.as_deref(), Some("hop1"));
    assert_eq!(spec.user.as_deref(), Some("admin"));
    assert_eq!(spec.address, "target");
}

#[test]
fn bad_port_value_clears_port() {
    // An unparseable port value consumes the token and leaves no port.
    let spec = parse_ssh_spec("ssh -p nine host").unwrap();
    assert_eq!(spec.port, None);
    assert_eq!(spec.address, "host");
}
