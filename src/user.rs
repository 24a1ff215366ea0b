use vstd::prelude::*;

use crate::credential::{
    base64_decoded, derived_key, encode_salt, fits, pbkdf2_derive, pbkdf2_verify, random_salt, base64_of,
    CREDENTIAL_LEN, SALT_LEN,
};

verus! {

/// Rounds of key derivation for stored credentials. This is far below current
/// advice (100 000 and more); it is kept so that stored hashes stay readable.
pub const ITERATIONS: u32 = 5;

/// The collection under which users are stored.
pub const PATH: &'static str = "users";

/// A derived credential.
pub type Credential = [u8; CREDENTIAL_LEN];

/// An account: an opaque identifier, a login handle, the base64 text of its
/// salt, the credential derived from its secret, and whether it administers.
#[derive(Debug)]
pub struct User {
    pub uuid: String,
    pub key: String,
    pub salt: String,
    pub hash: Credential,
    pub is_admin: bool,
}

impl User {
    /// Whether `secret` is the secret this user's credential was derived from.
    pub open spec fn accepts(&self, secret: Seq<char>) -> bool {
        self.hash@ == derived_key(ITERATIONS, self.salt@, secret)
    }

    /// A user whose salt is the base64 text of `salt` and whose credential is
    /// derived from `secret` under it.
    pub fn new_with_salt(
        uuid: String,
        key: String,
        salt: &[u8; SALT_LEN],
        secret: &str,
        is_admin: bool,
    ) -> (r: User)
        requires
            fits(secret@),
        ensures
            r.uuid@ == uuid@,
            r.key@ == key@,
            r.salt@ == base64_of(salt@),
            r.salt@.len() == 24,
            base64_decoded(r.salt@) == Some(salt@),
            r.is_admin == is_admin,
            r.accepts(secret@),
    {
        let salt_text = encode_salt(salt);
        let hash = User::generate_hash(salt_text.as_str(), secret);
        User { uuid: uuid, key: key, salt: salt_text, hash: hash, is_admin: is_admin }
    }

    /// A user with a fresh random salt; fails only when the system's random
    /// source does.
    pub fn new(uuid: String, key: String, secret: String, is_admin: bool) -> (r: Result<User, ()>)
        requires
            fits(secret@),
        ensures
            r matches Ok(u) ==> u.uuid@ == uuid@ && u.key@ == key@ && u.salt@.len() == 24
                && u.is_admin == is_admin && u.accepts(secret@),
            r matches Ok(u) ==> exists|b: Seq<u8>| b.len() == SALT_LEN && u.salt@ == #[trigger] base64_of(b),
            r matches Ok(u) ==> (base64_decoded(u.salt@) matches Some(b) && b.len() == SALT_LEN),
    {
        match random_salt() {
            Some(salt) => Ok(User::new_with_salt(uuid, key, &salt, secret.as_str(), is_admin)),
            None => Err(()),
        }
    }

    pub fn set_key(&mut self, key: String)
        ensures
            final(self).key@ == key@,
            final(self).uuid == old(self).uuid,
            final(self).salt == old(self).salt,
            final(self).hash == old(self).hash,
            final(self).is_admin == old(self).is_admin,
    {
        self.key = key;
    }

    pub fn is_admin(&self) -> (r: bool)
        ensures
            r == self.is_admin,
    {
        self.is_admin
    }

    pub fn set_admin_status(&mut self, status: bool)
        ensures
            final(self).is_admin == status,
            final(self).uuid == old(self).uuid,
            final(self).key == old(self).key,
            final(self).salt == old(self).salt,
            final(self).hash == old(self).hash,
    {
        self.is_admin = status;
    }

    /// Derives the credential anew from `secret`, under the same salt.
    pub fn update_secret(&mut self, secret: &str)
        requires
            fits(old(self).salt@),
            fits(secret@),
        ensures
            final(self).accepts(secret@),
            final(self).uuid == old(self).uuid,
            final(self).key == old(self).key,
            final(self).salt == old(self).salt,
            final(self).is_admin == old(self).is_admin,
    {
        self.hash = User::generate_hash(self.salt.as_str(), secret);
    }

    /// Takes a new salt, the base64 text of `salt`, and derives the credential
    /// of `secret` under it.
    pub fn reset_secret(&mut self, salt: &[u8; SALT_LEN], secret: &str)
        requires
            fits(secret@),
        ensures
            final(self).salt@ == base64_of(salt@),
            final(self).salt@.len() == 24,
            final(self).accepts(secret@),
            final(self).uuid == old(self).uuid,
            final(self).key == old(self).key,
            final(self).is_admin == old(self).is_admin,
    {
        let salt_text = encode_salt(salt);
        self.hash = User::generate_hash(salt_text.as_str(), secret);
        self.salt = salt_text;
    }

    /// The credential of `secret` under the salt text `salt`.
    pub fn generate_hash(salt: &str, secret: &str) -> (r: Credential)
        requires
            fits(salt@),
            fits(secret@),
        ensures
            r@ == derived_key(ITERATIONS, salt@, secret@),
    {
        pbkdf2_derive(ITERATIONS, salt, secret)
    }

    /// Whether `secret` derives this user's credential (compared in constant
    /// time).
    pub fn verify_secret(&self, secret: &str) -> (r: bool)
        requires
            fits(self.salt@),
            fits(secret@),
        ensures
            r == self.accepts(secret@),
    {
        pbkdf2_verify(ITERATIONS, self.salt.as_str(), secret, &self.hash)
    }
}

impl Clone for User {
    fn clone(&self) -> (r: User)
        ensures
            r.uuid@ == self.uuid@,
            r.key@ == self.key@,
            r.salt@ == self.salt@,
            r.hash == self.hash,
            r.is_admin == self.is_admin,
    {
        User {
            uuid: self.uuid.clone(),
            key: self.key.clone(),
            salt: self.salt.clone(),
            hash: self.hash,
            is_admin: self.is_admin,
        }
    }
}

/// A user holds the secret it was made with: a user made from `secret`, or
/// given it by `update_secret`, is accepted by `verify_secret` with it.
pub proof fn lemma_accepts_own_secret(u: User, secret: Seq<char>)
    requires
        u.hash@ == derived_key(ITERATIONS, u.salt@, secret),
    ensures
        u.accepts(secret),
{
}


/// Login handle of the administrator made on first start.
pub const DEFAULT_USER: &'static str = "masquerade";

/// Secret of the administrator made on first start; it should be changed.
pub const DEFAULT_PASS: &'static str = "facade";

/// What start-up does about the default administrator.
#[derive(Debug, Clone, Copy, PartialEq, Eq, Structural)]
pub enum Seed {
    /// No such user is stored: create it.
    Create,
    /// It is stored and still has the default secret: warn.
    WarnDefaultSecret,
    /// It is stored with a changed secret.
    Keep,
}

/// Decides about the default administrator from what the store holds under
/// its handle.
pub fn seed_default(stored: Option<&User>) -> (r: Seed)
    ensures
        stored is None <==> r == Seed::Create,
        r == Seed::WarnDefaultSecret <==> (stored matches Some(u) && fits(u.salt@) && u.accepts(
            DEFAULT_PASS@,
        )),
{
    match stored {
        None => Seed::Create,
        Some(u) => {
            proof {
                reveal_strlit("facade");
            }
            if u.salt.unicode_len() < crate::credential::MAX_INPUT_CHARS && u.verify_secret(DEFAULT_PASS) {
                Seed::WarnDefaultSecret
            } else {
                Seed::Keep
            }
        },
    }
}

} // verus!
