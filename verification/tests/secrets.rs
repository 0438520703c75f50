use logman::secrets::{init, Access, KeychainError, KeychainFailure, SecretStore, SERVICE};

const ID: u128 = 0x0123_4567_89ab_4def_8123_4567_89ab_cdef;

fn failure(failure: KeychainFailure) -> KeychainError {
    KeychainError { failure, text: "the words of the keychain".to_owned() }
}

#[test]
fn service_namespace_matches_the_project_id() {
    assert_eq!(SERVICE, "dev.logman.logman");
}

#[test]
fn the_account_is_the_hyphenated_identifier() {
    assert_eq!(SecretStore::account(ID), "01234567-89ab-4def-8123-456789abcdef");
}

#[test]
fn a_saved_secret_is_read_back() {
    let read = SecretStore::get(ID, Access::Answered(Ok("hunter2".to_owned())));
    assert_eq!(read, Ok(Some("hunter2".to_owned())));
}

#[test]
fn a_missing_entry_reads_as_no_secret() {
    let read = SecretStore::get(ID, Access::Answered(Err(failure(KeychainFailure::NoEntry))));
    assert_eq!(read, Ok(None));
}

#[test]
fn a_machine_without_a_keychain_has_no_secrets() {
    let read = SecretStore::get(ID, Access::NoStore("no keychain".to_owned()));
    assert_eq!(read, Ok(None));
    assert!(SecretStore::set(ID, Access::NoStore("no keychain".to_owned())).is_err());
    assert!(SecretStore::delete(ID, Access::NoStore("no keychain".to_owned())).is_ok());
}

#[test]
fn a_failed_access_is_explained() {
    let read = SecretStore::get(ID, Access::Answered(Err(failure(KeychainFailure::Other))));
    let text = read.expect_err("a failed read");
    assert!(text.contains("01234567-89ab-4def-8123-456789abcdef"), "{text}");
    assert!(text.contains("the words of the keychain"), "{text}");
}

#[test]
fn deleting_a_missing_entry_is_fine() {
    assert!(SecretStore::delete(ID, Access::Answered(Err(failure(KeychainFailure::NoEntry)))).is_ok());
    assert!(SecretStore::delete(ID, Access::Answered(Err(failure(KeychainFailure::Other)))).is_err());
    assert!(SecretStore::delete(ID, Access::Answered(Ok(()))).is_ok());
}

#[test]
fn saving_needs_an_answer() {
    assert!(SecretStore::set(ID, Access::Answered(Ok(()))).is_ok());
    assert!(SecretStore::set(ID, Access::Answered(Err(failure(KeychainFailure::Other)))).is_err());
    assert!(SecretStore::set(ID, Access::NotAddressed(failure(KeychainFailure::Other))).is_err());
}

#[test]
fn the_store_reports_how_it_came_up() {
    assert!(init(None).is_ok());
    assert!(init(Some("locked".to_owned())).is_err());
}

/// A keychain in memory.
struct Keychain(Vec<(u128, String)>);

impl Keychain {
    fn read(&self, id: u128) -> Result<Option<String>, String> {
        let found = self.0.iter().find(|entry| entry.0 == id).map(|entry| entry.1.clone());
        SecretStore::get(id, Access::Answered(found.ok_or_else(|| failure(KeychainFailure::NoEntry))))
    }

    fn save(&mut self, id: u128, secret: &str) {
        self.0.retain(|entry| entry.0 != id);
        self.0.push((id, secret.to_owned()));
        assert_eq!(SecretStore::set(id, Access::Answered(Ok(()))), Ok(()));
    }

    fn delete(&mut self, id: u128) {
        let before = self.0.len();
        self.0.retain(|entry| entry.0 != id);
        let answer = if self.0.len() < before { Ok(()) } else { Err(failure(KeychainFailure::NoEntry)) };
        assert_eq!(SecretStore::delete(id, Access::Answered(answer)), Ok(()));
    }
}

#[test]
fn a_read_gives_what_was_last_saved() {
    let mut keychain = Keychain(Vec::new());
    assert_eq!(keychain.read(ID), Ok(None));
    keychain.save(ID, "first");
    keychain.save(ID + 1, "other");
    keychain.save(ID, "second");
    assert_eq!(keychain.read(ID), Ok(Some("second".to_owned())));
    keychain.delete(ID);
    keychain.delete(ID);
    assert_eq!(keychain.read(ID), Ok(None));
    assert_eq!(keychain.read(ID + 1), Ok(Some("other".to_owned())));
}
