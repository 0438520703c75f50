//! Connection secrets in the operating system keychain.
//!
//! Secrets are keyed by the profile identifier inside one service namespace, so
//! the profile file never holds a password. A machine without a keychain is
//! supported in a degraded mode: reading then behaves as if no secret had ever
//! been saved.
use vstd::prelude::*;

use crate::profile::{id_chars, id_text};
use crate::text::{join2, join3, option_text};

verus! {

/// Service namespace used for every credential.
pub const SERVICE: &'static str = "dev.logman.logman";

/// Account name that makes the credential store load. Addressing an entry never
/// creates a credential, so this leaves no trace in the keychain.
pub const INIT_PROBE_ACCOUNT: &'static str = "__logman_store_probe__";

/// What went wrong in the keychain, as far as it matters.
#[derive(Debug, Clone, Copy, PartialEq, Eq, Structural)]
pub enum KeychainFailure {
    /// No credential store is installed.
    NoDefaultStore,
    /// The store has no such entry.
    NoEntry,
    /// Anything else.
    Other,
}

/// An error of the keychain, with its own words.
#[derive(Debug)]
pub struct KeychainError {
    pub failure: KeychainFailure,
    pub text: String,
}

/// How far an access to the keychain got.
#[derive(Debug)]
pub enum Access<T> {
    /// The machine has no usable credential store.
    NoStore(String),
    /// The entry could not be addressed.
    NotAddressed(KeychainError),
    /// The keychain answered.
    Answered(Result<T, KeychainError>),
}

/// A complaint about the entry of a profile.
pub open spec fn complaint(what: Seq<char>, id: u128, error: KeychainError) -> Seq<char> {
    what + id_chars(id) + (": "@ + error.text@)
}

/// Word a complaint about the entry of a profile.
fn complain(what: &str, id: u128, error: &KeychainError) -> (text: String)
    ensures
        text@ == complaint(what@, id, *error),
{
    let account = id_text(id);
    let reason = join2(": ", error.text.as_str());
    join3(what, account.as_str(), reason.as_str())
}

/// What reading the secret of a profile comes to.
pub open spec fn reads(id: u128, access: Access<String>, secret: Result<Option<String>, String>) -> bool {
    match access {
        Access::NoStore(text) => secret == Ok::<Option<String>, String>(None),
        Access::NotAddressed(error) => if error.failure is NoDefaultStore {
            secret == Ok::<Option<String>, String>(None)
        } else {
            secret matches Err(text) && text@ == complaint("failed to address keychain entry for "@, id, error)
        },
        Access::Answered(Ok(found)) => secret == Ok::<Option<String>, String>(Some(found)),
        Access::Answered(Err(error)) => if error.failure is NoEntry {
            secret == Ok::<Option<String>, String>(None)
        } else {
            secret matches Err(text) && text@ == complaint("failed to read keychain entry for "@, id, error)
        },
    }
}

/// A secret was saved.
pub open spec fn saves(access: Access<()>) -> bool {
    access matches Access::Answered(Ok(_))
}

/// A secret is gone, or was never there.
pub open spec fn removes(access: Access<()>) -> bool {
    match access {
        Access::NoStore(_) => true,
        Access::NotAddressed(error) => error.failure is NoDefaultStore,
        Access::Answered(Ok(_)) => true,
        Access::Answered(Err(error)) => error.failure is NoEntry,
    }
}

/// Whether the platform credential store was installed.
///
/// A caller may ignore the error and keep running: [`SecretStore::get`] then
/// finds nothing, and [`SecretStore::set`] reports the failure.
pub fn init(failure: Option<String>) -> (outcome: Result<(), String>)
    ensures
        match failure {
            None => outcome is Ok,
            Some(text) => outcome matches Err(error) && error@ == "no usable credential store on this system: "@
                + text@,
        },
{
    match failure {
        None => Ok(()),
        Some(text) => Err(join2("no usable credential store on this system: ", text.as_str())),
    }
}

/// Accessor for the OS keychain, keyed by profile identifier.
pub struct SecretStore;

impl SecretStore {
    /// The account that holds the secret of a profile.
    pub fn account(id: u128) -> (account: String)
        ensures
            account@ == id_chars(id),
    {
        id_text(id)
    }

    /// The secret saved for the profile `id`, given how the read went.
    ///
    /// Nothing is found when nothing is stored, and also when the platform has no
    /// usable keychain at all. Only a working keychain that refuses the read is
    /// an error.
    pub fn get(id: u128, access: Access<String>) -> (secret: Result<Option<String>, String>)
        ensures
            reads(id, access, secret),
    {
        match access {
            Access::NoStore(_) => Ok(None),
            Access::NotAddressed(error) => match error.failure {
                KeychainFailure::NoDefaultStore => Ok(None),
                _ => Err(complain("failed to address keychain entry for ", id, &error)),
            },
            Access::Answered(Ok(found)) => Ok(Some(found)),
            Access::Answered(Err(error)) => match error.failure {
                KeychainFailure::NoEntry => Ok(None),
                _ => Err(complain("failed to read keychain entry for ", id, &error)),
            },
        }
    }

    /// Whether the secret of the profile `id` was saved, given how the write went.
    ///
    /// Never fails silently: a secret that was to be saved must not vanish
    /// unnoticed.
    pub fn set(id: u128, access: Access<()>) -> (saved: Result<(), String>)
        ensures
            saved is Ok == saves(access),
            match access {
                Access::NoStore(text) => saved matches Err(error) && error@
                    == "no usable credential store on this system: "@ + text@,
                Access::NotAddressed(error) => if error.failure is NoDefaultStore {
                    saved matches Err(text) && text@ == "no credential store available to save the secret for "@
                        + id_chars(id)
                } else {
                    saved matches Err(text) && text@ == complaint(
                        "failed to address keychain entry for "@,
                        id,
                        error,
                    )
                },
                Access::Answered(Ok(_)) => saved is Ok,
                Access::Answered(Err(error)) => saved matches Err(text) && text@ == complaint(
                    "failed to save keychain entry for "@,
                    id,
                    error,
                ),
            },
    {
        match access {
            Access::NoStore(text) => Err(join2("no usable credential store on this system: ", text.as_str())),
            Access::NotAddressed(error) => match error.failure {
                KeychainFailure::NoDefaultStore => {
                    let account = id_text(id);
                    Err(join2("no credential store available to save the secret for ", account.as_str()))
                },
                _ => Err(complain("failed to address keychain entry for ", id, &error)),
            },
            Access::Answered(Ok(_)) => Ok(()),
            Access::Answered(Err(error)) => Err(complain("failed to save keychain entry for ", id, &error)),
        }
    }

    /// Whether the secret of the profile `id` is gone, given how the deletion went.
    ///
    /// Deleting a secret that does not exist succeeds, as does deleting on a
    /// machine without a credential store: in both cases nothing is left behind.
    pub fn delete(id: u128, access: Access<()>) -> (deleted: Result<(), String>)
        ensures
            deleted is Ok == removes(access),
            match access {
                Access::NoStore(text) => deleted is Ok,
                Access::NotAddressed(error) => if error.failure is NoDefaultStore {
                    deleted is Ok
                } else {
                    deleted matches Err(text) && text@ == complaint(
                        "failed to address keychain entry for "@,
                        id,
                        error,
                    )
                },
                Access::Answered(Ok(_)) => deleted is Ok,
                Access::Answered(Err(error)) => if error.failure is NoEntry {
                    deleted is Ok
                } else {
                    deleted matches Err(text) && text@ == complaint(
                        "failed to delete keychain entry for "@,
                        id,
                        error,
                    )
                },
            },
    {
        match access {
            Access::NoStore(_) => Ok(()),
            Access::NotAddressed(error) => match error.failure {
                KeychainFailure::NoDefaultStore => Ok(()),
                _ => Err(complain("failed to address keychain entry for ", id, &error)),
            },
            Access::Answered(Ok(_)) => Ok(()),
            Access::Answered(Err(error)) => match error.failure {
                KeychainFailure::NoEntry => Ok(()),
                _ => Err(complain("failed to delete keychain entry for ", id, &error)),
            },
        }
    }
}

/// Something done to the keychain, and how it went.
pub enum KeychainStep {
    Save { id: u128, secret: Seq<char>, access: Access<()> },
    Delete { id: u128, access: Access<()> },
}

impl KeychainStep {
    /// The profile it was for.
    pub open spec fn profile(self) -> u128 {
        match self {
            KeychainStep::Save { id, .. } => id,
            KeychainStep::Delete { id, .. } => id,
        }
    }

    /// How it went.
    pub open spec fn access(self) -> Access<()> {
        match self {
            KeychainStep::Save { access, .. } => access,
            KeychainStep::Delete { access, .. } => access,
        }
    }

    /// It was reported as done.
    pub open spec fn succeeds(self) -> bool {
        match self {
            KeychainStep::Save { access, .. } => saves(access),
            KeychainStep::Delete { access, .. } => removes(access),
        }
    }
}

/// The machine has a credential store.
pub open spec fn has_store<T>(access: Access<T>) -> bool {
    match access {
        Access::NoStore(_) => false,
        Access::NotAddressed(error) => !(error.failure is NoDefaultStore),
        Access::Answered(_) => true,
    }
}

/// What a keychain holds after steps: what was answered with success was done, and
/// nothing else was.
pub open spec fn keychain_after(steps: Seq<KeychainStep>) -> Map<u128, Seq<char>>
    decreases steps.len(),
{
    if steps.len() == 0 {
        Map::empty()
    } else {
        let before = keychain_after(steps.drop_last());
        match steps.last() {
            KeychainStep::Save { id, secret, access: Access::Answered(Ok(_)) } => before.insert(id, secret),
            KeychainStep::Delete { id, access: Access::Answered(Ok(_)) } => before.remove(id),
            _ => before,
        }
    }
}

/// There is a store at every step, and it denies an entry only when it has none.
pub open spec fn answers_truly(steps: Seq<KeychainStep>) -> bool
    decreases steps.len(),
{
    steps.len() > 0 ==> {
        &&& answers_truly(steps.drop_last())
        &&& has_store(steps.last().access())
        &&& match steps.last() {
            KeychainStep::Delete { id, access: Access::Answered(Err(error)) } => error.failure is NoEntry
                ==> !keychain_after(steps.drop_last()).dom().contains(id),
            _ => true,
        }
    }
}

/// The store lets a read through: it hands out the entry, or says that it has none.
pub open spec fn answers_read(keychain: Map<u128, Seq<char>>, id: u128, access: Access<String>) -> bool {
    match access {
        Access::Answered(Ok(found)) => keychain.dom().contains(id) && found@ == keychain[id],
        Access::Answered(Err(error)) => error.failure is NoEntry && !keychain.dom().contains(id),
        _ => false,
    }
}

/// The secret that the last successful step for a profile leaves it with.
pub open spec fn last_secret(steps: Seq<KeychainStep>, id: u128) -> Option<Seq<char>>
    decreases steps.len(),
{
    if steps.len() == 0 {
        None
    } else if steps.last().profile() == id && steps.last().succeeds() {
        match steps.last() {
            KeychainStep::Save { secret, .. } => Some(secret),
            KeychainStep::Delete { .. } => None,
        }
    } else {
        last_secret(steps.drop_last(), id)
    }
}

/// A read gives back what was last saved for that profile, and nothing after a
/// deletion or when nothing was ever saved. What was done for other profiles makes
/// no difference.
pub proof fn a_read_gives_what_was_last_saved(
    steps: Seq<KeychainStep>,
    id: u128,
    access: Access<String>,
    secret: Result<Option<String>, String>,
)
    requires
        answers_truly(steps),
        answers_read(keychain_after(steps), id, access),
        reads(id, access, secret),
    ensures
        secret matches Ok(found) && option_text(found) == last_secret(steps, id),
{
    lemma_last_secret(steps, id);
}

proof fn lemma_last_secret(steps: Seq<KeychainStep>, id: u128)
    requires
        answers_truly(steps),
    ensures
        last_secret(steps, id) == (if keychain_after(steps).dom().contains(id) {
            Some(keychain_after(steps)[id])
        } else {
            None
        }),
    decreases steps.len(),
{
    if steps.len() > 0 {
        lemma_last_secret(steps.drop_last(), id);
    }
}

/// A keychain that is not there holds nothing, which is no failure; one that has no
/// entry holds nothing either. Any other failure is told.
pub proof fn a_missing_keychain_holds_nothing(
    id: u128,
    text: String,
    error: KeychainError,
    secret: Result<Option<String>, String>,
)
    ensures
        reads(id, Access::NoStore(text), secret) <==> secret == Ok::<Option<String>, String>(None),
        error.failure is NoDefaultStore ==> (reads(id, Access::NotAddressed(error), secret) <==> secret == Ok::<
            Option<String>,
            String,
        >(None)),
        !(error.failure is NoDefaultStore) && reads(id, Access::NotAddressed(error), secret) ==> secret is Err,
        error.failure is NoEntry ==> (reads(id, Access::Answered(Err(error)), secret) <==> secret == Ok::<
            Option<String>,
            String,
        >(None)),
        !(error.failure is NoEntry) && reads(id, Access::Answered(Err(error)), secret) ==> secret is Err,
        reads(id, Access::Answered(Ok(text)), secret) <==> secret == Ok::<Option<String>, String>(Some(text)),
{
}

/// Saving works only where the keychain took the secret; deleting also where there was
/// nothing to delete.
pub proof fn deleting_nothing_is_no_failure(text: String, error: KeychainError)
    ensures
        saves(Access::Answered(Ok(()))) && removes(Access::Answered(Ok(()))),
        !saves(Access::NoStore(text)) && !saves(Access::NotAddressed(error)) && !saves(Access::Answered(Err(error))),
        removes(Access::NoStore(text)),
        removes(Access::NotAddressed(error)) <==> error.failure is NoDefaultStore,
        removes(Access::Answered(Err(error))) <==> error.failure is NoEntry,
{
}

/// A complaint names what was done, the account and what the keychain said.
pub proof fn complaints_name_the_account(what: Seq<char>, id: u128, error: KeychainError)
    ensures
        complaint(what, id, error) == what + id_chars(id) + seq![':', ' '] + error.text@,
{
    reveal_strlit(": ");
    assert(": "@ =~= seq![':', ' ']);
    assert(complaint(what, id, error) =~= what + id_chars(id) + seq![':', ' '] + error.text@);
}

} // verus!
