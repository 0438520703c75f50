use logman::connection::{
    restrict_port, AuthKind, ConnectionDialog, ConnectionDialogEvent, Field, FormRow, KeychainStep, SshAuth, StatusLevel,
};
use logman::profile::{AuthMethod, ProfileStore, SessionProfile};
use logman::ui::theme::Slot;

fn profile(id: u128, name: &str, auth: AuthMethod, save_secret: bool) -> SessionProfile {
    let mut profile =
        SessionProfile::with_id(id, name.to_owned(), "example.org".to_owned(), 2200, "alice".to_owned(), auth);
    profile.save_secret = save_secret;
    profile
}

fn store() -> ProfileStore {
    ProfileStore::from_profiles(vec![
        profile(1, "box", AuthMethod::Password, true),
        profile(2, "key box", AuthMethod::PublicKey { key_path: "/k".to_owned() }, false),
        profile(3, "agent box", AuthMethod::Agent, true),
    ])
}

fn opened() -> ConnectionDialog {
    let mut dialog = ConnectionDialog::new(store());
    dialog.open_new(None);
    dialog
}

fn strip(dialog: &ConnectionDialog) -> Option<(StatusLevel, String)> {
    dialog.status.as_ref().map(|status| (status.level, status.message.clone()))
}

#[test]
fn a_new_connection_starts_with_an_empty_form() {
    let mut dialog = opened();
    assert!(dialog.is_open());
    assert_eq!(dialog.port, "22");
    assert!(dialog.host.is_empty());
    assert_eq!(dialog.auth_kind, AuthKind::Password);
    assert_eq!(dialog.apply_pending_focus(), Some(Field::Host));
    assert_eq!(dialog.apply_pending_focus(), None);
    assert_eq!(dialog.profiles().len(), 3);
}

#[test]
fn a_saved_profile_fills_the_form() {
    let mut dialog = ConnectionDialog::new(store());
    dialog.open_profile(1, None);
    assert_eq!(dialog.name, "box");
    assert_eq!(dialog.host, "example.org");
    assert_eq!(dialog.port, "2200");
    assert!(dialog.password.is_empty());
    assert!(matches!(strip(&dialog), Some((StatusLevel::Info, text)) if text.contains("keychain")));
    assert_eq!(dialog.apply_pending_focus(), Some(Field::Password));
    dialog.open_profile(3, None);
    assert!(matches!(strip(&dialog), Some((StatusLevel::Warning, text)) if text.contains("not supported")));
    dialog.open_profile(99, None);
    assert!(dialog.host.is_empty());
    assert!(dialog.editing.is_none());
}

#[test]
fn an_incomplete_form_is_explained() {
    let mut dialog = opened();
    assert!(!dialog.can_connect());
    assert!(dialog.connect_as(9).is_none());
    assert_eq!(strip(&dialog), Some((StatusLevel::Error, "Enter the host to connect to.".to_owned())));
    dialog.host = "example.org".to_owned();
    dialog.explain_incomplete();
    assert_eq!(strip(&dialog), Some((StatusLevel::Error, "Enter the user to log in as.".to_owned())));
    dialog.username = "alice".to_owned();
    dialog.port = "0".to_owned();
    dialog.explain_incomplete();
    assert_eq!(strip(&dialog), Some((StatusLevel::Error, "Enter a port between 1 and 65535.".to_owned())));
    dialog.set_auth_kind(AuthKind::PrivateKey);
    dialog.explain_incomplete();
    assert_eq!(
        strip(&dialog),
        Some((StatusLevel::Error, "Choose the private key file to authenticate with.".to_owned()))
    );
    dialog.set_auth_kind(AuthKind::Agent);
    dialog.explain_incomplete();
    assert_eq!(
        strip(&dialog),
        Some((StatusLevel::Error, "SSH agent authentication is not supported yet.".to_owned()))
    );
}

#[test]
fn ports_are_numbers_below_the_limit() {
    let mut dialog = opened();
    for (text, port) in [("", Some(22)), (" 22 ", Some(22)), ("65535", Some(65535)), ("65536", None), ("0", None), ("x", None)] {
        dialog.port = text.to_owned();
        assert_eq!(dialog.port(), port, "{text}");
    }
    assert_eq!(restrict_port("2a2b00000").as_deref(), Some("22000"));
    assert_eq!(restrict_port("22"), None);
}

#[test]
fn a_new_profile_is_saved_and_connected() {
    let mut dialog = opened();
    dialog.host = " example.net ".to_owned();
    dialog.username = "bob".to_owned();
    dialog.password = "hunter2".to_owned();
    dialog.set_save_secret(true);
    let mut pending = dialog.connect_as(9).expect("a complete form");
    assert_eq!(pending.profile.id, 9);
    assert_eq!(pending.profile.name, "example.net");
    assert!(!pending.look_up);
    dialog.store_profile(&mut pending, Ok(None));
    assert_eq!(dialog.profiles().len(), 4);
    assert!(matches!(ConnectionDialog::keychain_step(&pending), KeychainStep::Save(secret) if secret == "hunter2"));
    match dialog.finish_connect(pending, Ok(()), Ok(())) {
        ConnectionDialogEvent::Connect { profile, auth } => {
            assert_eq!(profile.host, "example.net");
            assert!(matches!(auth, SshAuth::Password(password) if password == "hunter2"));
        }
        ConnectionDialogEvent::Dismissed => panic!("a complete form connects"),
    }
    assert!(!dialog.is_open());
    assert!(dialog.password.is_empty());
}

#[test]
fn a_random_identifier_has_its_version() {
    let mut dialog = opened();
    dialog.host = "h".to_owned();
    dialog.username = "u".to_owned();
    let one = dialog.connect().expect("a complete form").profile.id;
    let other = dialog.connect().expect("a complete form").profile.id;
    assert_ne!(one, other);
    assert_eq!(one >> 76 & 0xf, 4);
    assert_eq!(one >> 62 & 3, 2);
}

#[test]
fn an_empty_field_falls_back_to_the_keychain() {
    let mut dialog = ConnectionDialog::new(store());
    dialog.open_profile(1, None);
    let mut pending = dialog.connect_as(9).expect("a complete form");
    assert_eq!(pending.profile.id, 1);
    assert!(pending.look_up);
    dialog.store_profile(&mut pending, Ok(Some("stored".to_owned())));
    assert_eq!(pending.secret, "stored");
    assert_eq!(dialog.profiles().len(), 3);
}

#[test]
fn storage_problems_do_not_block_the_connection() {
    let mut dialog = ConnectionDialog::new(store());
    dialog.open_profile(1, None);
    let mut pending = dialog.connect_as(9).expect("a complete form");
    dialog.store_profile(&mut pending, Err("locked".to_owned()));
    let event = dialog.finish_connect(pending, Err("disk full".to_owned()), Ok(()));
    assert!(matches!(event, ConnectionDialogEvent::Connect { .. }));
    assert!(dialog.is_open());
    let (level, text) = strip(&dialog).expect("a warning");
    assert_eq!(level, StatusLevel::Warning);
    assert!(text.starts_with("Connecting, but "), "{text}");
    assert!(text.contains("locked") && text.contains("disk full"), "{text}");
    assert!(text.contains("there was no secret to put in the keychain"), "{text}");
}

#[test]
fn a_key_without_a_passphrase_has_none() {
    let mut dialog = ConnectionDialog::new(store());
    dialog.open_profile(2, None);
    let mut pending = dialog.connect_as(9).expect("a complete form");
    dialog.store_profile(&mut pending, Ok(None));
    assert!(matches!(ConnectionDialog::keychain_step(&pending), KeychainStep::Delete));
    match dialog.finish_connect(pending, Ok(()), Ok(())) {
        ConnectionDialogEvent::Connect { auth: SshAuth::PrivateKeyFile { path, passphrase }, .. } => {
            assert_eq!(path, "/k");
            assert_eq!(passphrase, None);
        }
        _ => panic!("a key file"),
    }
}

#[test]
fn changing_the_method_forgets_the_secret() {
    let mut dialog = opened();
    dialog.password = "hunter2".to_owned();
    dialog.set_auth_kind(AuthKind::PrivateKey);
    assert!(dialog.password.is_empty());
    assert_eq!(AuthKind::from_index(AuthKind::Agent.index()), AuthKind::Agent);
    assert_eq!(AuthKind::from_index(7), AuthKind::Password);
}

#[test]
fn deleting_a_profile_reports_what_was_left() {
    let mut dialog = ConnectionDialog::new(store());
    dialog.open_profile(1, None);
    assert!(dialog.delete_profile(1));
    assert!(!dialog.delete_profile(1));
    dialog.profile_deleted(1, Err("disk full".to_owned()), Err("locked".to_owned()));
    let (_, text) = strip(&dialog).expect("a report");
    assert!(text.contains("disk full") && text.contains("locked"), "{text}");
    assert_eq!(dialog.profiles().len(), 2);
}

#[test]
fn rows_and_titles_follow_the_form() {
    let mut dialog = opened();
    assert!(dialog.render_form().contains(&FormRow::Password));
    dialog.set_auth_kind(AuthKind::PrivateKey);
    assert!(dialog.render_form().contains(&FormRow::KeyFile));
    assert!(!dialog.render_form().contains(&FormRow::Password));
    dialog.set_auth_kind(AuthKind::Agent);
    assert!(dialog.render_form().contains(&FormRow::AgentNote));
    let title = dialog.title();
    dialog.open_profile(1, None);
    assert_ne!(dialog.title(), title);
    let list = dialog.render_profile_list();
    assert_eq!(list.rows[0].label, "alice@example.org");
    assert!(list.rows[0].selected && !list.rows[1].selected);
    assert!(list.hint.is_none());
    assert!(ConnectionDialog::new(ProfileStore::from_profiles(Vec::new())).render_profile_list().hint.is_some());
}

#[test]
fn escape_dismisses_the_dialog() {
    let mut dialog = opened();
    dialog.password = "hunter2".to_owned();
    assert!(dialog.on_key_down("enter").is_none());
    assert!(matches!(dialog.on_key_down("escape"), Some(ConnectionDialogEvent::Dismissed)));
    assert!(!dialog.is_open());
    assert!(dialog.password.is_empty());
    assert!(dialog.on_key_down("escape").is_none());
}

#[test]
fn a_double_click_connects() {
    let mut dialog = opened();
    assert!(!dialog.row_clicked(2, 1));
    assert_eq!(dialog.name, "key box");
    assert!(dialog.row_clicked(2, 2));
    assert!(dialog.render_footer().connectable);
    assert_eq!(StatusLevel::Error.color(), Slot::Danger);
}

#[test]
fn editing_a_row_goes_to_the_host() {
    let mut dialog = ConnectionDialog::new(store());
    dialog.open_new(None);
    dialog.edit_profile(2);
    assert_eq!(dialog.name, "key box");
    assert_eq!(dialog.apply_pending_focus(), Some(Field::Host));
    dialog.set_key_path("/other".to_owned());
    assert_eq!(dialog.key_path, "/other");
    dialog.edit_profile(9);
    assert_eq!(dialog.name, "key box");
    assert_eq!(dialog.apply_pending_focus(), Some(Field::Host));
}

#[test]
fn a_deletion_joins_its_problems() {
    let mut dialog = ConnectionDialog::new(store());
    assert!(dialog.delete_profile(1));
    dialog.profile_deleted(1, Err("disk full".to_owned()), Err("locked".to_owned()));
    assert_eq!(
        strip(&dialog),
        Some((
            StatusLevel::Error,
            "Profile deleted, but the profile list could not be written (disk full) and its keychain entry could not be \
             removed (locked)."
                .to_owned()
        ))
    );
}
