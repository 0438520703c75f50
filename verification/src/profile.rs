//! Saved connections.
use vstd::prelude::*;

use crate::text::join3;

verus! {

/// How a host is logged in to.
pub enum AuthMethod {
    Password,
    PublicKey { key_path: String },
    Agent,
}

impl Clone for AuthMethod {
    fn clone(&self) -> (method: AuthMethod)
        ensures
            method == *self,
    {
        match self {
            AuthMethod::Password => AuthMethod::Password,
            AuthMethod::PublicKey { key_path } => AuthMethod::PublicKey { key_path: key_path.clone() },
            AuthMethod::Agent => AuthMethod::Agent,
        }
    }
}

/// Settings of one session that take the place of the global ones.
pub struct SessionOverrides {
    pub scheme: Option<String>,
    pub scrollback_lines: Option<u64>,
    pub term: Option<String>,
    /// Font size in ten-thousandths.
    pub font_size: Option<u64>,
    pub copy_on_select: Option<bool>,
}

/// A copy of an optional text.
pub fn copy_option(text: &Option<String>) -> (copied: Option<String>)
    ensures
        copied == *text,
{
    match text {
        Some(text) => Some(text.clone()),
        None => None,
    }
}

impl Clone for SessionOverrides {
    fn clone(&self) -> (overrides: SessionOverrides)
        ensures
            overrides == *self,
    {
        SessionOverrides {
            scheme: copy_option(&self.scheme),
            scrollback_lines: self.scrollback_lines,
            term: copy_option(&self.term),
            font_size: self.font_size,
            copy_on_select: self.copy_on_select,
        }
    }
}

impl Default for SessionOverrides {
    fn default() -> (overrides: SessionOverrides)
        ensures
            overrides == no_overrides(),
    {
        SessionOverrides {
            scheme: None,
            scrollback_lines: None,
            term: None,
            font_size: None,
            copy_on_select: None,
        }
    }
}

/// Overrides that change nothing.
pub open spec fn no_overrides() -> SessionOverrides {
    SessionOverrides {
        scheme: None,
        scrollback_lines: None,
        term: None,
        font_size: None,
        copy_on_select: None,
    }
}

/// A saved connection.
pub struct SessionProfile {
    /// Identifier, under which the keychain holds the secret too.
    pub id: u128,
    pub name: String,
    pub host: String,
    pub port: u16,
    pub username: String,
    pub auth: AuthMethod,
    /// Whether the secret is kept in the OS keychain.
    pub save_secret: bool,
    pub overrides: SessionOverrides,
}

impl Clone for SessionProfile {
    fn clone(&self) -> (profile: SessionProfile)
        ensures
            profile == *self,
    {
        SessionProfile {
            id: self.id,
            name: self.name.clone(),
            host: self.host.clone(),
            port: self.port,
            username: self.username.clone(),
            auth: self.auth.clone(),
            save_secret: self.save_secret,
            overrides: self.overrides.clone(),
        }
    }
}

/// An identifier is a random one: version 4, variant 1.
pub open spec fn is_random_id(id: u128) -> bool {
    &&& id / 0x1000_0000_0000_0000_0000u128 % 16 == 4
    &&& id / 0x4000_0000_0000_0000u128 % 4 == 2
}

/// Draws an identifier: `Uuid::new_v4` of `uuid`. Claims the version and the
/// variant bits; the others are chance.
#[verifier::external_body]
pub(crate) fn random_id() -> (id: u128)
    ensures
        is_random_id(id),
{
    uuid::Uuid::new_v4().as_u128()
}

/// The hexadecimal digit of a number below sixteen.
pub open spec fn hex_char(digit: int) -> char {
    if digit < 10 {
        (0x30 + digit) as char
    } else {
        (0x57 + digit) as char
    }
}

/// How many of the first `at` characters of an identifier are hyphens.
pub open spec fn hyphens_before(at: int) -> int {
    if at <= 8 {
        0
    } else if at <= 13 {
        1
    } else if at <= 18 {
        2
    } else if at <= 23 {
        3
    } else {
        4
    }
}

/// An identifier as 32 hexadecimal digits in five groups.
pub open spec fn id_chars(id: u128) -> Seq<char> {
    Seq::new(
        36,
        |at: int|
            if at == 8 || at == 13 || at == 18 || at == 23 {
                '-'
            } else {
                let place = (31 - (at - hyphens_before(at))) as nat;
                hex_char(id as int / vstd::arithmetic::power::pow(16, place) % 16)
            },
    )
}

/// Writes an identifier: `Uuid::from_u128` and `Display` of `uuid`. Claims the
/// hyphenated form in small letters.
#[verifier::external_body]
pub(crate) fn id_text(id: u128) -> (text: String)
    ensures
        text@ == id_chars(id),
{
    uuid::Uuid::from_u128(id).to_string()
}

impl SessionProfile {
    /// A profile with an identifier of its own.
    pub fn new(name: String, host: String, port: u16, username: String, auth: AuthMethod) -> (profile: SessionProfile)
        ensures
            is_random_id(profile.id),
            profile == new_profile(profile.id, name, host, port, username, auth),
    {
        SessionProfile::with_id(random_id(), name, host, port, username, auth)
    }

    /// A profile with a given identifier.
    pub fn with_id(
        id: u128,
        name: String,
        host: String,
        port: u16,
        username: String,
        auth: AuthMethod,
    ) -> (profile: SessionProfile)
        ensures
            profile == new_profile(id, name, host, port, username, auth),
    {
        SessionProfile {
            id,
            name,
            host,
            port,
            username,
            auth,
            save_secret: false,
            overrides: SessionOverrides::default(),
        }
    }

    /// What the profile connects to: `user@host`.
    pub fn label(&self) -> (label: String)
        ensures
            label@ == self.label_text(),
    {
        join3(self.username.as_str(), "@", self.host.as_str())
    }

    /// What the profile connects to: `user@host`.
    pub open spec fn label_text(self) -> Seq<char> {
        self.username@ + "@"@ + self.host@
    }
}

/// A profile that was just made: its secret is not saved, nothing is overridden.
pub open spec fn new_profile(
    id: u128,
    name: String,
    host: String,
    port: u16,
    username: String,
    auth: AuthMethod,
) -> SessionProfile {
    SessionProfile { id, name, host, port, username, auth, save_secret: false, overrides: no_overrides() }
}

/// The saved profiles, in stored order. No identifier occurs twice.
pub struct ProfileStore {
    profiles: Vec<SessionProfile>,
}

/// Where the profile with an identifier stands.
pub open spec fn position_of(profiles: Seq<SessionProfile>, id: u128) -> Option<int>
    decreases profiles.len(),
{
    if profiles.len() == 0 {
        None
    } else {
        match position_of(profiles.drop_last(), id) {
            Some(i) => Some(i),
            None => if profiles.last().id == id {
                Some(profiles.len() - 1)
            } else {
                None
            },
        }
    }
}

/// No identifier occurs twice.
pub open spec fn distinct_ids(profiles: Seq<SessionProfile>) -> bool {
    forall|i: int, j: int| 0 <= i < j < profiles.len() ==> (#[trigger] profiles[i]).id != (#[trigger] profiles[j]).id
}

/// The profiles with one put in: in place of the one with its identifier, or at
/// the end.
pub open spec fn upserted(profiles: Seq<SessionProfile>, profile: SessionProfile) -> Seq<SessionProfile> {
    match position_of(profiles, profile.id) {
        Some(i) => profiles.update(i, profile),
        None => profiles.push(profile),
    }
}

/// The profiles without the one with an identifier.
pub open spec fn without(profiles: Seq<SessionProfile>, id: u128) -> Seq<SessionProfile> {
    match position_of(profiles, id) {
        Some(i) => profiles.remove(i),
        None => profiles,
    }
}

proof fn lemma_position(profiles: Seq<SessionProfile>, id: u128)
    ensures
        match position_of(profiles, id) {
            Some(i) => 0 <= i < profiles.len() && profiles[i].id == id,
            None => forall|k: int| 0 <= k < profiles.len() ==> (#[trigger] profiles[k]).id != id,
        },
    decreases profiles.len(),
{
    if profiles.len() > 0 {
        lemma_position(profiles.drop_last(), id);
        assert forall|k: int| position_of(profiles, id) is None && 0 <= k < profiles.len() implies (
        #[trigger] profiles[k]).id != id by {
            if k < profiles.len() - 1 {
                assert(profiles.drop_last()[k] == profiles[k]);
            }
        }
    }
}

impl View for ProfileStore {
    type V = Seq<SessionProfile>;

    closed spec fn view(&self) -> Seq<SessionProfile> {
        self.profiles@
    }
}

impl Default for ProfileStore {
    fn default() -> (store: ProfileStore)
        ensures
            store@.len() == 0,
            distinct_ids(store@),
    {
        ProfileStore { profiles: Vec::new() }
    }
}

impl ProfileStore {
    /// A store holding what a profile file held. A profile whose identifier
    /// occurs again later gives way to the later one.
    pub fn from_profiles(profiles: Vec<SessionProfile>) -> (store: ProfileStore)
        ensures
            store@ == collected(profiles@),
            distinct_ids(store@),
    {
        let mut store = ProfileStore { profiles: Vec::new() };
        let mut i: usize = 0;
        proof {
            assert(store@ =~= collected(profiles@.take(0)));
        }
        while i < profiles.len()
            invariant
                i <= profiles@.len(),
                store@ == collected(profiles@.take(i as int)),
                distinct_ids(store@),
            decreases profiles@.len() - i,
        {
            proof {
                assert(profiles@.take(i + 1).drop_last() =~= profiles@.take(i as int));
                assert(profiles@.take(i + 1).last() == profiles@[i as int]);
            }
            store.upsert(profiles[i].clone());
            i += 1;
        }
        proof {
            assert(profiles@.take(i as int) =~= profiles@);
        }
        store
    }

    /// The profiles, in stored order.
    pub fn profiles(&self) -> (profiles: &Vec<SessionProfile>)
        ensures
            profiles@ == self@,
    {
        &self.profiles
    }

    /// Where the profile with an identifier stands.
    fn find(&self, id: u128) -> (found: Option<usize>)
        ensures
            match found {
                Some(i) => position_of(self@, id) == Some(i as int) && i < self@.len(),
                None => position_of(self@, id) is None,
            },
    {
        let mut i: usize = 0;
        while i < self.profiles.len()
            invariant
                i <= self.profiles@.len(),
                forall|k: int| 0 <= k < i ==> (#[trigger] self.profiles@[k]).id != id,
            decreases self.profiles@.len() - i,
        {
            if self.profiles[i].id == id {
                proof {
                    lemma_first(self@, id, i as int);
                }
                return Some(i);
            }
            i += 1;
        }
        proof {
            lemma_position(self@, id);
        }
        None
    }

    /// The profile with an identifier.
    pub fn get(&self, id: u128) -> (profile: Option<&SessionProfile>)
        ensures
            match profile {
                Some(profile) => position_of(self@, id) matches Some(i) && *profile == self@[i] && profile.id == id,
                None => position_of(self@, id) is None,
            },
    {
        proof {
            lemma_position(self@, id);
        }
        match self.find(id) {
            Some(i) => Some(&self.profiles[i]),
            None => None,
        }
    }

    /// Put a profile in, in place of the one with its identifier.
    pub fn upsert(&mut self, profile: SessionProfile)
        ensures
            final(self)@ == upserted(old(self)@, profile),
            distinct_ids(old(self)@) ==> distinct_ids(final(self)@),
    {
        proof {
            lemma_position(self@, profile.id);
        }
        match self.find(profile.id) {
            Some(i) => {
                self.profiles.set(i, profile);
            },
            None => {
                self.profiles.push(profile);
            },
        }
    }

    /// Take the profile with an identifier out.
    pub fn remove(&mut self, id: u128) -> (removed: Option<SessionProfile>)
        ensures
            final(self)@ == without(old(self)@, id),
            distinct_ids(old(self)@) ==> distinct_ids(final(self)@),
            match removed {
                Some(profile) => position_of(old(self)@, id) matches Some(i) && profile == old(self)@[i],
                None => position_of(old(self)@, id) is None,
            },
    {
        match self.find(id) {
            Some(i) => {
                let ghost before = self@;
                let removed = self.profiles.remove(i);
                proof {
                    assert(self@ =~= before.remove(i as int));
                    if distinct_ids(before) {
                        assert forall|a: int, b: int| 0 <= a < b < self@.len() implies (#[trigger] self@[a]).id != (
                        #[trigger] self@[b]).id by {
                            let x = if a < i {
                                a
                            } else {
                                a + 1
                            };
                            let y = if b < i {
                                b
                            } else {
                                b + 1
                            };
                            assert(before[x].id != before[y].id);
                        }
                    }
                }
                Some(removed)
            },
            None => None,
        }
    }
}

/// What a list of profiles comes to when each is put in after the other.
pub open spec fn collected(profiles: Seq<SessionProfile>) -> Seq<SessionProfile>
    decreases profiles.len(),
{
    if profiles.len() == 0 {
        Seq::empty()
    } else {
        upserted(collected(profiles.drop_last()), profiles.last())
    }
}

proof fn lemma_first(profiles: Seq<SessionProfile>, id: u128, i: int)
    requires
        0 <= i < profiles.len(),
        profiles[i].id == id,
        forall|k: int| 0 <= k < i ==> (#[trigger] profiles[k]).id != id,
    ensures
        position_of(profiles, id) == Some(i),
    decreases profiles.len(),
{
    let front = profiles.drop_last();
    if i < profiles.len() - 1 {
        assert forall|k: int| 0 <= k < i implies (#[trigger] front[k]).id != id by {
            assert(front[k] == profiles[k]);
        }
        lemma_first(front, id, i);
    } else {
        lemma_position(front, id);
        if position_of(front, id) is Some {
            let k = position_of(front, id).unwrap();
            assert(front[k] == profiles[k]);
        }
    }
}

/// A profile that was put in is found again, and no other is disturbed.
pub proof fn saved_profiles_are_found(profiles: Seq<SessionProfile>, profile: SessionProfile, other: u128)
    requires
        distinct_ids(profiles),
        other != profile.id,
    ensures
        position_of(upserted(profiles, profile), profile.id) matches Some(i) && upserted(profiles, profile)[i] == profile,
        position_of(profiles, other) matches Some(i) ==> position_of(upserted(profiles, profile), other) == Some(i)
            && upserted(profiles, profile)[i] == profiles[i],
        position_of(profiles, other) is None ==> position_of(upserted(profiles, profile), other) is None,
{
    let after = upserted(profiles, profile);
    lemma_position(profiles, profile.id);
    lemma_position(profiles, other);
    lemma_position(after, other);
    match position_of(profiles, profile.id) {
        Some(i) => {
            assert forall|k: int| 0 <= k < i implies (#[trigger] after[k]).id != profile.id by {
                assert(profiles[k].id != profiles[i].id);
            }
            lemma_first(after, profile.id, i);
        },
        None => {
            lemma_first(after, profile.id, profiles.len() as int);
        },
    }
    match position_of(profiles, other) {
        Some(j) => {
            assert forall|k: int| 0 <= k < j implies (#[trigger] after[k]).id != other by {
                assert(profiles[k].id != profiles[j].id);
            }
            assert(after[j] == profiles[j]);
            lemma_first(after, other, j);
        },
        None => {
            if position_of(after, other) is Some {
                let k = position_of(after, other).unwrap();
                if k < profiles.len() {
                    assert(after[k] == profiles[k] || after[k] == profile);
                }
            }
        },
    }
}

/// A profile is found by its identifier, wherever it stands, and nothing else is.
pub proof fn profiles_are_found_by_identifier(profiles: Seq<SessionProfile>, i: int)
    requires
        distinct_ids(profiles),
        0 <= i < profiles.len(),
    ensures
        position_of(profiles, profiles[i].id) == Some(i),
{
    assert forall|k: int| 0 <= k < i implies (#[trigger] profiles[k]).id != profiles[i].id by {}
    lemma_first(profiles, profiles[i].id, i);
}

/// Saving a profile that is there replaces it where it stands; a new one goes to the
/// end. All others stay where they are.
pub proof fn saving_replaces_or_appends(profiles: Seq<SessionProfile>, profile: SessionProfile)
    ensures
        ({
            let after = upserted(profiles, profile);
            &&& position_of(profiles, profile.id) is None ==> after == profiles.push(profile)
            &&& position_of(profiles, profile.id) matches Some(at) ==> {
                &&& after.len() == profiles.len()
                &&& after[at] == profile
                &&& forall|k: int| 0 <= k < profiles.len() && k != at ==> #[trigger] after[k] == profiles[k]
            }
            &&& position_of(profiles, profile.id) is None ==> forall|k: int|
                0 <= k < profiles.len() ==> (#[trigger] profiles[k]).id != profile.id
        }),
{
    lemma_position(profiles, profile.id);
}

/// Deleting a profile takes that one out and leaves the others in their order.
pub proof fn deleting_takes_one_profile_out(profiles: Seq<SessionProfile>, id: u128, other: int)
    requires
        distinct_ids(profiles),
        0 <= other < profiles.len(),
    ensures
        forall|k: int| 0 <= k < without(profiles, id).len() ==> (#[trigger] without(profiles, id)[k]).id != id,
        profiles[other].id != id ==> without(profiles, id).contains(profiles[other]),
        without(profiles, id).len() + (if position_of(profiles, id) is Some {
            1int
        } else {
            0int
        }) == profiles.len(),
{
    lemma_position(profiles, id);
    let after = without(profiles, id);
    match position_of(profiles, id) {
        Some(at) => {
            assert forall|k: int| 0 <= k < after.len() implies (#[trigger] after[k]).id != id by {
                let from = if k < at {
                    k
                } else {
                    k + 1
                };
                assert(after[k] == profiles[from]);
                assert(profiles[from].id != profiles[at].id);
            }
            if profiles[other].id != id {
                let to = if other < at {
                    other
                } else {
                    other - 1
                };
                assert(after[to] == profiles[other]);
            }
        },
        None => {
            assert(after[other] == profiles[other]);
        },
    }
}

/// A profile is labelled by the user and the host, with an at sign between them.
pub proof fn labels_name_user_and_host(profile: SessionProfile)
    ensures
        profile.label_text() == profile.username@ + seq!['@'] + profile.host@,
{
    reveal_strlit("@");
    assert("@"@ =~= seq!['@']);
}

/// A profile that was just made holds what it was made of, saves no secret and
/// overrides nothing.
pub proof fn new_profiles_hold_what_they_are_made_of(
    id: u128,
    name: String,
    host: String,
    port: u16,
    username: String,
    auth: AuthMethod,
)
    ensures
        ({
            let profile = new_profile(id, name, host, port, username, auth);
            &&& profile.id == id
            &&& profile.name == name
            &&& profile.host == host
            &&& profile.port == port
            &&& profile.username == username
            &&& profile.auth == auth
            &&& !profile.save_secret
            &&& profile.overrides.scheme is None
            &&& profile.overrides.scrollback_lines is None
            &&& profile.overrides.term is None
            &&& profile.overrides.font_size is None
            &&& profile.overrides.copy_on_select is None
        }),
{
}

} // verus!
