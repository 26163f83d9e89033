use sshdb::app::{App, Mode, StatusKind};
use sshdb::form::{FormKind, FormState};
use sshdb::keys::{Key, KeyInput};
use sshdb::model::Config;
use sshdb::parser::parse_ssh_spec;
use sshdb::ssh::EnvInfo;

fn no_env() -> EnvInfo {
    EnvInfo { agent_sock: None, home: None }
}

fn test_app() -> App {
    App::new(Config::sample(), no_env())
}

fn plain(code: Key) -> KeyInput {
    KeyInput { code, ctrl: false, nomod: true, plain: true }
}

#[test]
fn filters_hosts_with_search() {
    let mut app = test_app();
    app.filter = "prod".chars().collect();
    app.rebuild_filter();
    assert!(!app.filtered_indices.is_empty());
    let first = app.filtered_indices[0];
    assert_eq!(app.config.hosts[first].name, "prod-web");
}

#[test]
fn quick_connect_adds_or_reuses() {
    let mut app = test_app();
    app.dry_run = true; // avoid asking to launch anything real
    let spec = parse_ssh_spec("ssh deploy@10.1.2.3").unwrap();
    let initial = app.config.hosts.len();
    let fx = app.quick_connect(spec.clone());
    assert_eq!(app.config.hosts.len(), initial + 1);
    assert!(fx.persist);

    // An identical spec reuses the created host.
    let fx2 = app.quick_connect(spec);
    assert_eq!(app.config.hosts.len(), initial + 1);
    assert!(!fx2.persist);
}

#[test]
fn bastion_dropdown_excludes_current_host() {
    let config = Config::sample();
    let host = config.hosts[0].clone();
    let mut form = FormState::new(FormKind::Edit, Some(&host), &config, &no_env());
    form.open_bastion_dropdown(&config);
    let dropdown = form.bastion_dropdown.as_ref().expect("dropdown opened");
    assert!(dropdown.filtered_indices.iter().all(|i| config.hosts[*i].name != host.name));
}

#[test]
fn undo_restores_registry_before_each_mutation() {
    let mut app = test_app();
    let before = app.config.hosts.len();
    // Two committing mutations: two quick-connect creations.
    app.dry_run = true;
    let s1 = parse_ssh_spec("ssh a@1.1.1.1").unwrap();
    let s2 = parse_ssh_spec("ssh b@2.2.2.2").unwrap();
    app.quick_connect(s1);
    app.quick_connect(s2);
    assert_eq!(app.config.hosts.len(), before + 2);
    assert!(app.undo());
    assert_eq!(app.config.hosts.len(), before + 1);
    assert!(app.undo());
    assert_eq!(app.config.hosts.len(), before);
}

#[test]
fn undo_on_empty_history_is_noop() {
    let mut app = test_app();
    let names: Vec<String> = app.config.hosts.iter().map(|h| h.name.clone()).collect();
    assert!(!app.undo());
    let after: Vec<String> = app.config.hosts.iter().map(|h| h.name.clone()).collect();
    assert_eq!(names, after);
}

#[test]
fn duplicate_generates_fresh_suffixes() {
    let mut app = test_app();
    let host = app.config.hosts[0].clone();
    app.duplicate_host(host.clone());
    app.duplicate_host(host.clone());
    let names: Vec<&str> = app.config.hosts.iter().map(|h| h.name.as_str()).collect();
    assert!(names.contains(&"prod-web-copy"));
    assert!(names.contains(&"prod-web-copy-2"));
    // Never a collision with an existing name.
    let mut sorted = names.clone();
    sorted.sort();
    sorted.dedup();
    assert_eq!(sorted.len(), names.len());
}

#[test]
fn search_mode_narrows_and_escape_clears_status() {
    let mut app = test_app();
    let fx = app.on_key(plain(Key::Char('/')));
    assert!(fx.action.is_none());
    assert_eq!(app.mode, Mode::Search);
    app.on_key(plain(Key::Char('p')));
    app.on_key(plain(Key::Char('r')));
    app.on_key(plain(Key::Char('o')));
    app.on_key(plain(Key::Char('d')));
    assert_eq!(app.filter.iter().collect::<String>(), "prod");
    assert_eq!(app.filtered_indices.len(), 1);
    app.on_key(plain(Key::Esc));
    assert_eq!(app.mode, Mode::Normal);
    assert!(app.status.is_none());
}

#[test]
fn dry_run_toggle_reports_state() {
    let mut app = test_app();
    app.on_key(plain(Key::Char('C')));
    assert!(app.dry_run);
    let st = app.status.as_ref().unwrap();
    assert_eq!(st.text, "Dry-run toggled ON.");
    assert!(matches!(st.kind, StatusKind::Info));
    app.on_key(plain(Key::Char('C')));
    assert!(!app.dry_run);
}

#[test]
fn ctrl_c_quits_from_any_mode() {
    let ctrl_c = KeyInput { code: Key::Char('c'), ctrl: true, nomod: false, plain: false };
    let mut app = test_app();
    app.on_key(plain(Key::Char('/')));
    let fx = app.on_key(ctrl_c);
    assert!(matches!(fx.action, Some(sshdb::app::AppAction::Quit)));
    // The global accelerator also wins over both overlays.
    let mut app = test_app();
    app.on_key(plain(Key::Char('a')));
    assert!(app.show_about);
    let fx = app.on_key(ctrl_c);
    assert!(matches!(fx.action, Some(sshdb::app::AppAction::Quit)));
    let mut app = test_app();
    app.on_key(plain(Key::Char('?')));
    assert!(app.show_help);
    let fx = app.on_key(ctrl_c);
    assert!(matches!(fx.action, Some(sshdb::app::AppAction::Quit)));
}

#[test]
fn picker_escape_keeps_form_and_text() {
    let mut app = test_app();
    let pos = app.config.hosts.iter().position(|h| h.name == "prod-web").unwrap();
    app.selected = app.filtered_indices.iter().position(|i| *i == pos).unwrap();
    app.on_key(plain(Key::Char('e')));
    assert_eq!(app.mode, Mode::Form);
    // Move to the Bastion field (index 5 in Edit mode), type, open the picker.
    for _ in 0..5 {
        app.on_key(plain(Key::Tab));
    }
    app.on_key(plain(Key::Char('j')));
    app.on_key(plain(Key::Char(' ')));
    assert!(app.form.as_ref().unwrap().bastion_dropdown.is_some());
    // Escape closes only the picker: the form stays, the field keeps its text.
    app.on_key(plain(Key::Esc));
    assert_eq!(app.mode, Mode::Form, "the form must survive a picker escape");
    let form = app.form.as_ref().unwrap();
    assert!(form.bastion_dropdown.is_none());
    let value: String = form.fields[5].value.iter().collect();
    assert_eq!(value, "j");
    // A second Escape, with the picker closed, discards the form.
    app.on_key(plain(Key::Esc));
    assert_eq!(app.mode, Mode::Normal);
    assert!(app.form.is_none());
}

#[test]
fn quick_connect_selects_and_connects_to_target() {
    let mut app = test_app();
    app.dry_run = true;
    // Creation: the new host is selected and the dry-run preview names it.
    let spec = parse_ssh_spec("ssh root@7.7.7.7").unwrap();
    app.quick_connect(spec.clone());
    let created = app.config.hosts.len() - 1;
    assert_eq!(app.filtered_indices[app.selected], created);
    let st = app.status.as_ref().unwrap();
    assert!(st.text.starts_with("Dry-run: "));
    assert!(st.text.contains("root@7.7.7.7"));
    // Reuse: the selection moves back to the first structural match.
    app.selected = 0;
    app.quick_connect(spec);
    assert_eq!(app.filtered_indices[app.selected], created);
}

#[test]
fn form_submission_rejects_blank_name_and_host() {
    let mut app = test_app();
    app.on_key(plain(Key::Char('n')));
    assert_eq!(app.mode, Mode::Form);
    let fx = app.on_key(plain(Key::Enter));
    assert!(!fx.persist);
    assert_eq!(app.mode, Mode::Form, "a failed submission keeps the form open");
    let st = app.status.as_ref().unwrap();
    assert_eq!(st.text, "name and host cannot be empty");
    assert!(matches!(st.kind, StatusKind::Error));
}

#[test]
fn form_add_commits_and_undo_restores() {
    let mut app = test_app();
    let before = app.config.hosts.len();
    app.on_key(plain(Key::Char('n')));
    // Type an ssh command into the leading field; parsing syncs the rest.
    for c in "ssh root@9.9.9.9".chars() {
        app.on_key(plain(Key::Char(c)));
    }
    let fx = app.on_key(plain(Key::Enter));
    assert!(fx.persist);
    assert_eq!(app.mode, Mode::Normal);
    assert_eq!(app.config.hosts.len(), before + 1);
    let added = app.config.hosts.last().unwrap();
    assert_eq!(added.address, "9.9.9.9");
    assert_eq!(added.user.as_deref(), Some("root"));
    // Undo restores the registry to just before the commit.
    assert!(app.undo());
    assert_eq!(app.config.hosts.len(), before);
}

#[test]
fn delete_confirmation_removes_selected_host() {
    let mut app = test_app();
    let before = app.config.hosts.len();
    let first = app.config.hosts[0].name.clone();
    app.on_key(plain(Key::Char('d')));
    assert_eq!(app.mode, Mode::Confirm);
    let fx = app.on_key(plain(Key::Char('y')));
    assert!(fx.persist);
    assert_eq!(app.config.hosts.len(), before - 1);
    assert!(app.config.hosts.iter().all(|h| h.name != first));
    assert_eq!(app.mode, Mode::Normal);
}

#[test]
fn save_rejects_cycle_anywhere_in_registry() {
    let mut app = test_app();
    // Edit jump-eu to point at staging-db, closing a cycle with
    // staging-db's existing bastion. The commit must be blocked.
    let pos = app.config.hosts.iter().position(|h| h.name == "jump-eu").unwrap();
    app.selected = app.filtered_indices.iter().position(|i| *i == pos).unwrap();
    app.on_key(plain(Key::Char('e')));
    assert_eq!(app.mode, Mode::Form);
    if let Some(form) = app.form.as_mut() {
        form.set_field_value("Bastion", "staging-db".to_string());
    }
    let before: Vec<String> = app.config.hosts.iter().map(|h| h.name.clone()).collect();
    let fx = app.on_key(plain(Key::Enter));
    assert!(!fx.persist);
    let st = app.status.as_ref().unwrap();
    assert!(st.text.to_lowercase().contains("circular bastion reference"));
    let after: Vec<String> = app.config.hosts.iter().map(|h| h.name.clone()).collect();
    assert_eq!(before, after, "the registry must be left unmodified");
}

#[test]
fn help_overlay_swallows_keys() {
    let mut app = test_app();
    app.on_key(plain(Key::Char('?')));
    assert!(app.show_help);
    // While help is open, ordinary commands do nothing.
    let fx = app.on_key(plain(Key::Char('d')));
    assert!(fx.action.is_none());
    assert_eq!(app.mode, Mode::Normal);
    app.on_key(plain(Key::Esc));
    assert!(!app.show_help);
}

#[test]
fn help_entries_cover_all_bindings() {
    assert_eq!(App::help_entries().len(), 17);
}

#[test]
fn empty_registry_commands_are_safe_noops() {
    let mut app = App::new(Config::default(), no_env());
    assert!(app.filtered_indices.is_empty());
    // Selection movement, edit, delete and connect have nothing to act on.
    app.on_key(plain(Key::Down));
    assert_eq!(app.selected, 0);
    app.on_key(plain(Key::Char('d')));
    assert_eq!(app.mode, Mode::Normal);
    let fx = app.on_key(plain(Key::Enter));
    assert!(fx.action.is_none());
    app.on_key(plain(Key::Char('e')));
    assert_eq!(app.mode, Mode::Normal);
    let st = app.status.as_ref().unwrap();
    assert_eq!(st.text, "No host selected to edit.");
}

#[test]
fn history_is_bounded_to_twenty_snapshots() {
    let mut app = test_app();
    app.dry_run = true;
    let host = app.config.hosts[0].clone();
    for _ in 0..25 {
        app.duplicate_host(host.clone());
    }
    assert_eq!(app.history.len(), 20);
    // Undo works exactly twenty times, then reports nothing to undo.
    let mut undone = 0;
    while app.undo() {
        undone += 1;
    }
    assert_eq!(undone, 20);
}

#[test]
fn picker_commits_highlighted_host_into_field() {
    let config = Config::sample();
    let mut form = FormState::new(FormKind::Add, None, &config, &no_env());
    // Move to the bastion field (index 6 in Add mode) and open the picker.
    for _ in 0..6 {
        form.next();
    }
    form.handle_input(plain(Key::Char(' ')), &config);
    assert!(form.bastion_dropdown.is_some());
    form.handle_input(plain(Key::Down), &config);
    form.handle_input(plain(Key::Enter), &config);
    assert!(form.bastion_dropdown.is_none(), "committing closes the picker");
    let value: String = form.fields[6].value.iter().collect();
    assert_eq!(value, config.hosts[1].name);
}

#[test]
fn picker_space_closes_without_inserting() {
    let config = Config::sample();
    let mut form = FormState::new(FormKind::Add, None, &config, &no_env());
    for _ in 0..6 {
        form.next();
    }
    form.handle_input(plain(Key::Char(' ')), &config);
    assert!(form.bastion_dropdown.is_some());
    form.handle_input(plain(Key::Char(' ')), &config);
    assert!(form.bastion_dropdown.is_none());
    assert!(form.fields[6].value.is_empty(), "space must not be typed into the field");
}

#[test]
fn command_field_syncs_structured_fields() {
    let config = Config::default();
    let mut form = FormState::new(FormKind::Add, None, &config, &no_env());
    for c in "ssh -p 2201 deploy@1.2.3.4".chars() {
        form.handle_input(plain(Key::Char(c)), &config);
    }
    let get = |label: &str| -> String {
        form.fields
            .iter()
            .find(|f| f.label == label)
            .map(|f| f.value.iter().collect())
            .unwrap_or_default()
    };
    assert_eq!(get("Host / IP"), "1.2.3.4");
    assert_eq!(get("User"), "deploy");
    assert_eq!(get("Port"), "2201");
    // The name fills in only while still blank, so it holds the label as
    // it stood at the keystroke that first produced a user: `deploy@`.
    assert_eq!(get("Name"), "deploy@");
}

#[test]
fn form_port_must_be_numeric() {
    let config = Config::default();
    let mut app = App::new(Config::sample(), no_env());
    app.on_key(plain(Key::Char('n')));
    if let Some(form) = app.form.as_mut() {
        form.set_field_value("Name", "box".to_string());
        form.set_field_value("Host / IP", "10.0.0.9".to_string());
        form.set_field_value("Port", "http".to_string());
    }
    let fx = app.on_key(plain(Key::Enter));
    assert!(!fx.persist);
    let st = app.status.as_ref().unwrap();
    assert_eq!(st.text, "port must be numeric");
    let _ = config;
}
