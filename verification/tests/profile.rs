use logman::profile::{AuthMethod, ProfileStore, SessionProfile};
use logman::ssh_event::{SshErrorKind, SshEvent};

fn profile(id: u128, name: &str) -> SessionProfile {
    SessionProfile::with_id(id, name.to_owned(), "host".to_owned(), 22, "alice".to_owned(), AuthMethod::Password)
}

#[test]
fn a_saved_profile_is_found() {
    let mut store = ProfileStore::from_profiles(vec![profile(1, "one")]);
    store.upsert(profile(2, "two"));
    assert_eq!(store.get(2).map(|profile| profile.name.as_str()), Some("two"));
    store.upsert(profile(1, "renamed"));
    assert_eq!(store.profiles().len(), 2);
    assert_eq!(store.profiles()[0].name, "renamed");
    assert_eq!(store.remove(1).map(|profile| profile.name), Some("renamed".to_owned()));
    assert!(store.remove(1).is_none());
    assert!(store.get(1).is_none());
}

#[test]
fn a_new_profile_has_an_identifier_of_its_own() {
    let new = || {
        SessionProfile::new("n".to_owned(), "h".to_owned(), 22, "u".to_owned(), AuthMethod::Password)
    };
    let (one, other) = (new(), new());
    assert_ne!(one.id, other.id);
    assert_eq!(one.label(), "u@h");
    assert!(!one.save_secret);
}

#[test]
fn failures_read_as_sentences() {
    for (kind, text, name) in [
        (SshErrorKind::Connect, "connection failed", "Connect"),
        (SshErrorKind::HostKeyRejected, "host key rejected", "HostKeyRejected"),
        (SshErrorKind::Auth, "authentication failed", "Auth"),
        (SshErrorKind::KeyLoad, "private key could not be loaded", "KeyLoad"),
        (SshErrorKind::Channel, "channel request failed", "Channel"),
        (SshErrorKind::Io, "i/o error", "Io"),
    ] {
        assert_eq!(kind.text(), text);
        assert_eq!(kind.name(), name);
    }
}

#[test]
fn payloads_are_never_written_out() {
    let text = SshEvent::Data(b"secret output".to_vec()).text();
    assert!(!text.contains("secret"), "{text}");
    assert!(text.contains("13"), "{text}");
    let text = SshEvent::Disconnected { reason: "it \"broke\"".to_owned() }.text();
    assert!(text.contains("\"it \\\"broke\\\"\""), "{text}");
}
