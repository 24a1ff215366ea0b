use vstd::prelude::*;

use crate::api_error::{APIError, StoreElements};
use crate::credential::{base64_of, fits, random_salt, MAX_INPUT_CHARS, SALT_LEN};
use crate::flag::{Flag, FlagPath};
use crate::order::Keyed;
use crate::store::all_key;
use crate::user::User;

verus! {

/// Opens every event of the flag stream.
pub const EVENT_HEADER: &'static str = "event:data\n";

/// The scope and, for a single flag, the key a flag request is about. The
/// owner of the scope is always the user making the request.
#[derive(Debug)]
pub struct FlagReq {
    pub path: FlagPath,
    pub key: Option<String>,
}

impl FlagReq {
    pub fn parts(self) -> (r: (FlagPath, Option<String>))
        ensures
            r.0 == self.path,
            r.1 == self.key,
    {
        (self.path, self.key)
    }
}

/// Holds for the scopes whose owner is `owner`.
pub open spec fn owned_by(owner: Seq<char>) -> spec_fn(FlagPath) -> bool {
    |p: FlagPath| p.owner@ == owner
}

/// The scopes that `owner` created, in the order given.
pub fn paths_of(paths: &Vec<FlagPath>, owner: &str) -> (r: Vec<FlagPath>)
    ensures
        r@ == paths@.filter(owned_by(owner@)),
{
    let mut r: Vec<FlagPath> = Vec::new();
    let mut i: usize = 0;
    while i < paths.len()
        invariant
            i <= paths@.len(),
            r@ == paths@.subrange(0, i as int).filter(owned_by(owner@)),
        decreases paths@.len() - i,
    {
        proof {
            reveal(Seq::filter);
            assert(paths@.subrange(0, i + 1).drop_last() =~= paths@.subrange(0, i as int));
        }
        if crate::str_map::str_eq(paths[i].owner.as_str(), owner) {
            r.push(paths[i].clone());
        }
        i = i + 1;
    }
    assert(paths@.subrange(0, i as int) =~= paths@);
    r
}

/// Path parameters of a request on a whole scope.
#[derive(Debug, Clone)]
pub struct FlagCreateReq {
    pub app: String,
    pub env: String,
}

impl FlagCreateReq {
    pub fn to_flag_req(self, user: &User) -> (r: FlagReq)
        ensures
            r.path.wf(),
            r.path.owner@ == user.uuid@,
            r.path.app@ == self.app@,
            r.path.env@ == self.env@,
            r.key is None,
    {
        FlagReq { path: FlagPath::new(user.uuid.clone(), self.app, self.env), key: None }
    }
}

/// Path parameters of a request on one flag.
#[derive(Debug, Clone)]
pub struct FlagTouchReq {
    pub app: String,
    pub env: String,
    pub key: String,
}

impl FlagTouchReq {
    pub fn to_flag_req(self, user: &User) -> (r: FlagReq)
        ensures
            r.path.wf(),
            r.path.owner@ == user.uuid@,
            r.path.app@ == self.app@,
            r.path.env@ == self.env@,
            r.key matches Some(k) && k@ == self.key@,
    {
        FlagReq { path: FlagPath::new(user.uuid.clone(), self.app, self.env), key: Some(self.key) }
    }
}

/// A new flag must have a key.
pub fn check_new_flag(flag: &Flag) -> (r: Result<(), APIError>)
    ensures
        r is Ok <==> flag.spec_key().len() > 0,
        r matches Err(e) ==> e is InvalidFlag,
{
    if flag.key().unicode_len() == 0 {
        Err(APIError::InvalidFlag)
    } else {
        Ok(())
    }
}

/// A record may be created only where none is stored yet.
pub fn check_absent<T>(existing: &Option<T>) -> (r: Result<(), APIError>)
    ensures
        r is Ok <==> existing is None,
        r matches Err(e) ==> e is AlreadyExists,
{
    match existing {
        Some(_) => Err(APIError::AlreadyExists),
        None => Ok(()),
    }
}

/// The stored record, or a not-found failure naming its kind.
pub fn found<T>(item: Option<T>, what: StoreElements) -> (r: Result<T, APIError>)
    ensures
        item matches Some(v) ==> r == Ok::<T, APIError>(v),
        item is None ==> (r matches Err(APIError::FailedToFind(w)) && w == what),
{
    match item {
        Some(v) => Ok(v),
        None => Err(APIError::FailedToFind(what)),
    }
}

/// A stored flag after an update request at `now`: it takes the requested
/// value and state; its key and creation time stay; its version grows only when
/// the value changes; its update time moves only when something changes.
pub fn apply_update(stored: Flag, requested: &Flag, now: u64) -> (r: Flag)
    requires
        stored.spec_version() < u64::MAX,
    ensures
        r.spec_key() == stored.spec_key(),
        r.spec_created() == stored.spec_created(),
        r.spec_value() == requested.spec_value(),
        r.spec_enabled() == requested.spec_enabled(),
        r.spec_version() == if requested.spec_value() == stored.spec_value() {
            stored.spec_version()
        } else {
            (stored.spec_version() + 1) as u64
        },
        r.spec_updated() == if requested.spec_value() == stored.spec_value()
            && requested.spec_enabled() == stored.spec_enabled() {
            stored.spec_updated()
        } else {
            now
        },
        stored.valid() && now >= stored.spec_updated() ==> r.valid(),
{
    let mut flag = stored;
    flag.set_value_at(requested.value(), now);
    flag.toggle_at(requested.is_enabled(), now);
    flag
}

/// One event of the flag stream carrying the JSON list of a scope's flags.
pub fn event_frame(json: &str) -> (r: String)
    ensures
        r@ == EVENT_HEADER@ + "data:"@ + json@ + "\n\n"@,
{
    let mut r = EVENT_HEADER.to_owned();
    r.append("data:");
    r.append(json);
    r.append("\n\n");
    r
}

/// Whether a notice concerns the flags of `path`: every write to a scope
/// publishes its collection key.
pub fn stream_wants(message: &str, path: &FlagPath) -> (r: bool)
    ensures
        r == (message@ == all_key(path.path@)),
{
    let k = crate::store::TieredStore::all_key(path.as_str());
    crate::str_map::str_eq(message, k.as_str())
}

/// What the flag stream does next.
#[derive(Debug, Clone, Copy, PartialEq, Eq, Structural)]
pub enum StreamAction {
    /// Send the scope's current flags.
    Snapshot,
    /// Drop the cached entries the notice names, then send the current flags.
    EvictAndSnapshot,
    /// Wait for the next notice.
    Skip,
    /// The notices have ended: close the stream.
    End,
}

/// One step of the flag stream of `path`: on its first poll it sends a
/// snapshot; afterwards a notice about the scope leads to a fresh snapshot,
/// any other notice is skipped, and the end of the notices ends the stream.
pub fn stream_step(first: bool, notice: Option<&str>, path: &FlagPath) -> (r: StreamAction)
    ensures
        first ==> r == StreamAction::Snapshot,
        !first && notice is None ==> r == StreamAction::End,
        !first ==> (notice matches Some(m) ==> (r == if m@ == all_key(path.path@) {
            StreamAction::EvictAndSnapshot
        } else {
            StreamAction::Skip
        })),
{
    if first {
        return StreamAction::Snapshot;
    }
    match notice {
        None => StreamAction::End,
        Some(m) => if stream_wants(m, path) {
            StreamAction::EvictAndSnapshot
        } else {
            StreamAction::Skip
        },
    }
}

impl Keyed for Flag {
    open spec fn sort_key(&self) -> Seq<char> {
        self.spec_key()
    }

    fn key_str(&self) -> (r: &str) {
        self.key()
    }
}

/// A user as the API shows it: handle and role, and a secret only on the way
/// in.
#[derive(Debug)]
pub struct APIUser {
    pub key: String,
    pub secret: Option<String>,
    pub is_admin: bool,
}

impl APIUser {
    /// A new user with identifier `uuid` from a request that carries a secret.
    pub fn into_user(&self, uuid: String) -> (r: Result<User, ()>)
        ensures
            r matches Ok(u) ==> (self.secret matches Some(s) && u.accepts(s@)) && u.uuid@ == uuid@
                && u.key@ == self.key@ && u.is_admin == self.is_admin,
            self.secret is None ==> r is Err,
            self.secret matches Some(s) && !fits(s@) ==> r is Err,
    {
        match &self.secret {
            Some(secret) => {
                if secret.unicode_len() < MAX_INPUT_CHARS {
                    User::new(uuid, self.key.clone(), secret.clone(), self.is_admin)
                } else {
                    Err(())
                }
            },
            None => Err(()),
        }
    }

    /// The API form of a stored user: never its secret.
    pub fn from_user(user: &User) -> (r: APIUser)
        ensures
            r.key@ == user.key@,
            r.secret is None,
            r.is_admin == user.is_admin,
    {
        APIUser { key: user.key.clone(), secret: None, is_admin: user.is_admin() }
    }
}

impl Keyed for APIUser {
    open spec fn sort_key(&self) -> Seq<char> {
        self.key@
    }

    fn key_str(&self) -> (r: &str) {
        self.key.as_str()
    }
}

/// Whether an update request carries a new secret: a non-empty one.
pub open spec fn new_secret(requested: &APIUser) -> bool {
    requested.secret matches Some(s) && s@.len() > 0
}

/// A stored user after an update request, with `salt` as the random bytes of
/// a new salt: it takes the requested handle and role; a non-empty secret
/// gets the new salt and a credential derived under it; otherwise salt and
/// credential stay. A secret too long to derive from is refused.
pub fn update_user_with_salt(stored: User, requested: &APIUser, salt: &[u8; SALT_LEN]) -> (r: Result<
    User,
    APIError,
>)
    ensures
        r matches Ok(u) ==> u.uuid == stored.uuid && u.key@ == requested.key@ && u.is_admin
            == requested.is_admin,
        r matches Ok(u) ==> if new_secret(requested) {
            u.salt@ == base64_of(salt@) && u.salt@.len() == 24 && u.accepts(requested.secret.unwrap()@)
        } else {
            u.salt == stored.salt && u.hash == stored.hash
        },
        r is Err <==> (requested.secret matches Some(s) && s@.len() > 0 && !fits(s@)),
        r matches Err(e) ==> e is InvalidPayload,
{
    let mut user = stored;
    user.set_key(requested.key.clone());
    user.set_admin_status(requested.is_admin);
    if let Some(secret) = &requested.secret {
        let n = secret.unicode_len();
        if n != 0 {
            if n < MAX_INPUT_CHARS {
                user.reset_secret(salt, secret.as_str());
            } else {
                return Err(APIError::InvalidPayload);
            }
        }
    }
    Ok(user)
}

/// A stored user after an update request, drawing a fresh salt when a new
/// secret is given. Fails with `SystemFailure` only when the random source
/// fails for such a secret.
pub fn update_user(stored: User, requested: &APIUser) -> (r: Result<User, APIError>)
    ensures
        r matches Ok(u) ==> u.uuid == stored.uuid && u.key@ == requested.key@ && u.is_admin
            == requested.is_admin,
        r matches Ok(u) ==> if new_secret(requested) {
            u.accepts(requested.secret.unwrap()@) && u.salt@.len() == 24 && exists|b: Seq<u8>|
                b.len() == SALT_LEN && u.salt@ == #[trigger] base64_of(b)
        } else {
            u.salt == stored.salt && u.hash == stored.hash
        },
        !new_secret(requested) ==> r is Ok,
        requested.secret matches Some(s) && s@.len() > 0 && !fits(s@) ==> (r matches Err(e)
            && e is InvalidPayload),
        r matches Err(e) ==> (e is InvalidPayload || e is SystemFailure),
        r matches Err(e) && e is SystemFailure ==> new_secret(requested),
{
    let needs_salt = match &requested.secret {
        Some(s) => s.unicode_len() != 0 && s.unicode_len() < MAX_INPUT_CHARS,
        None => false,
    };
    if needs_salt {
        match random_salt() {
            Some(b) => {
                let r = update_user_with_salt(stored, requested, &b);
                assert(r matches Ok(u) ==> u.salt@ == base64_of(b@));
                r
            },
            None => Err(APIError::SystemFailure),
        }
    } else {
        update_user_with_salt(stored, requested, &[0u8; SALT_LEN])
    }
}

/// Whether an update moved the user to another handle, so that the record
/// under the old one must go.
pub fn renamed(old_key: &str, user: &User) -> (r: bool)
    ensures
        r == (old_key@ != user.key@),
{
    !crate::str_map::str_eq(old_key, user.key.as_str())
}

/// The key of a user named in a request path.
#[derive(Debug)]
pub struct UserReq {
    pub key: String,
}

} // verus!
