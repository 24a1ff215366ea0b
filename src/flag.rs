use vstd::prelude::*;

use crate::clock::now_millis;
use crate::error::Error;
use crate::str_map::find_char;

verus! {

/// The separator between the parts of a flat path.
pub const PATH_SEP: char = ':';

/// The flat form `owner:app:env`.
pub open spec fn flat(owner: Seq<char>, app: Seq<char>, env: Seq<char>) -> Seq<char> {
    owner + seq![PATH_SEP] + app + seq![PATH_SEP] + env
}

/// A part of a path: non-empty, without the separator.
pub open spec fn part(x: Seq<char>) -> bool {
    x.len() > 0 && !x.contains(PATH_SEP)
}

/// Whether `s` is the flat form of three parts.
pub open spec fn splits(s: Seq<char>) -> bool {
    exists|o: Seq<char>, a: Seq<char>, e: Seq<char>|
        part(o) && part(a) && part(e) && s == #[trigger] flat(o, a, e)
}

/// In the flat form of three parts, the separators stand exactly after the
/// owner and after the app.
pub proof fn lemma_flat_seps(o: Seq<char>, a: Seq<char>, e: Seq<char>)
    requires
        part(o),
        part(a),
        part(e),
    ensures
        flat(o, a, e).len() == o.len() + a.len() + e.len() + 2,
        flat(o, a, e)[o.len() as int] == PATH_SEP,
        flat(o, a, e)[(o.len() + a.len() + 1) as int] == PATH_SEP,
        forall|j: int|
            0 <= j < flat(o, a, e).len() && j != o.len() && j != o.len() + a.len() + 1
                ==> flat(o, a, e)[j] != PATH_SEP,
{
    let s = flat(o, a, e);
    assert forall|j: int|
        0 <= j < s.len() && j != o.len() && j != o.len() + a.len() + 1 implies s[j] != PATH_SEP by {
        if j < o.len() {
            assert(s[j] == o[j]);
        } else if j < o.len() + a.len() + 1 {
            assert(s[j] == a[j - o.len() - 1]);
        } else {
            assert(s[j] == e[j - o.len() - a.len() - 2]);
        }
    }
}

/// Three parts are recovered from their flat form.
pub proof fn lemma_flat_injective(
    o1: Seq<char>,
    a1: Seq<char>,
    e1: Seq<char>,
    o2: Seq<char>,
    a2: Seq<char>,
    e2: Seq<char>,
)
    requires
        part(o1),
        part(a1),
        part(e1),
        part(o2),
        part(a2),
        part(e2),
        flat(o1, a1, e1) == flat(o2, a2, e2),
    ensures
        o1 == o2,
        a1 == a2,
        e1 == e2,
{
    lemma_flat_seps(o1, a1, e1);
    lemma_flat_seps(o2, a2, e2);
    let s = flat(o1, a1, e1);
    assert(o1.len() == o2.len());
    assert(a1.len() == a2.len());
    assert(o1 =~= s.subrange(0, o1.len() as int));
    assert(o2 =~= s.subrange(0, o1.len() as int));
    assert(a1 =~= s.subrange((o1.len() + 1) as int, (o1.len() + a1.len() + 1) as int));
    assert(a2 =~= s.subrange((o1.len() + 1) as int, (o1.len() + a1.len() + 1) as int));
    assert(e1 =~= s.subrange((o1.len() + a1.len() + 2) as int, s.len() as int));
    assert(e2 =~= s.subrange((o1.len() + a1.len() + 2) as int, s.len() as int));
}

/// The scope of a set of flags: owner, application and environment, with the
/// flat form `owner:app:env` that names the scope in the backing store.
#[derive(Debug)]
pub struct FlagPath {
    pub owner: String,
    pub app: String,
    pub env: String,
    pub path: String,
}

impl FlagPath {
    /// The flat form agrees with the three parts.
    pub open spec fn wf(&self) -> bool {
        self.path@ == flat(self.owner@, self.app@, self.env@)
    }

    pub fn new(owner: String, app: String, env: String) -> (r: FlagPath)
        ensures
            r.wf(),
            r.owner@ == owner@,
            r.app@ == app@,
            r.env@ == env@,
    {
        let path = FlagPath::make_path(owner.as_str(), app.as_str(), env.as_str());
        FlagPath { owner: owner, app: app, env: env, path: path }
    }

    /// The flat form of three parts.
    pub fn make_path(owner: &str, app: &str, env: &str) -> (r: String)
        ensures
            r@ == flat(owner@, app@, env@),
    {
        let mut r = owner.to_owned();
        r.append(":");
        r.append(app);
        r.append(":");
        r.append(env);
        proof {
            reveal_strlit(":");
        }
        assert(r@ =~= flat(owner@, app@, env@));
        r
    }

    /// The flat form.
    pub fn as_str(&self) -> (r: &str)
        ensures
            r@ == self.path@,
    {
        self.path.as_str()
    }

    /// Reads a flat path: exactly three non-empty parts between two separators.
    pub fn parse(s: &str) -> (r: Result<FlagPath, Error>)
        ensures
            r is Ok <==> splits(s@),
            r matches Ok(p) ==> p.wf() && part(p.owner@) && part(p.app@) && part(p.env@) && s@
                == flat(p.owner@, p.app@, p.env@),
            r matches Err(e) ==> e == Error::FailedToParsePath,
    {
        let n = s.unicode_len();
        let p1 = find_char(s, PATH_SEP, 0);
        if p1 == n || p1 == 0 {
            proof {
                assert forall|o: Seq<char>, a: Seq<char>, e: Seq<char>|
                    part(o) && part(a) && part(e) implies s@ != #[trigger] flat(o, a, e) by {
                    if s@ == flat(o, a, e) {
                        lemma_flat_seps(o, a, e);
                        assert(s@[o.len() as int] == PATH_SEP);
                    }
                }
            }
            return Err(Error::FailedToParsePath);
        }
        let p2 = find_char(s, PATH_SEP, p1 + 1);
        if p2 == n || p2 == p1 + 1 {
            proof {
                assert forall|o: Seq<char>, a: Seq<char>, e: Seq<char>|
                    part(o) && part(a) && part(e) implies s@ != #[trigger] flat(o, a, e) by {
                    if s@ == flat(o, a, e) {
                        lemma_flat_seps(o, a, e);
                        assert(p1 == o.len());
                        assert(s@[(o.len() + a.len() + 1) as int] == PATH_SEP);
                    }
                }
            }
            return Err(Error::FailedToParsePath);
        }
        let p3 = find_char(s, PATH_SEP, p2 + 1);
        if p3 != n || p2 + 1 == n {
            proof {
                assert forall|o: Seq<char>, a: Seq<char>, e: Seq<char>|
                    part(o) && part(a) && part(e) implies s@ != #[trigger] flat(o, a, e) by {
                    if s@ == flat(o, a, e) {
                        lemma_flat_seps(o, a, e);
                        assert(p1 == o.len());
                        assert(s@[(o.len() + a.len() + 1) as int] == PATH_SEP);
                        assert(p2 == (o.len() + a.len() + 1) as int);
                    }
                }
            }
            return Err(Error::FailedToParsePath);
        }
        let owner = s.substring_char(0, p1).to_owned();
        let app = s.substring_char(p1 + 1, p2).to_owned();
        let env = s.substring_char(p2 + 1, n).to_owned();
        proof {
            assert(!owner@.contains(PATH_SEP)) by {
                assert forall|j: int| 0 <= j < owner@.len() implies owner@[j] != PATH_SEP by {
                    assert(owner@[j] == s@[j]);
                }
            }
            assert(!app@.contains(PATH_SEP)) by {
                assert forall|j: int| 0 <= j < app@.len() implies app@[j] != PATH_SEP by {
                    assert(app@[j] == s@[j + p1 + 1]);
                }
            }
            assert(!env@.contains(PATH_SEP)) by {
                assert forall|j: int| 0 <= j < env@.len() implies env@[j] != PATH_SEP by {
                    assert(env@[j] == s@[j + p2 + 1]);
                }
            }
            assert(s@ =~= flat(owner@, app@, env@));
        }
        Ok(FlagPath::new(owner, app, env))
    }
}

impl Clone for FlagPath {
    fn clone(&self) -> (r: FlagPath)
        ensures
            r == *self,
    {
        FlagPath {
            owner: self.owner.clone(),
            app: self.app.clone(),
            env: self.env.clone(),
            path: self.path.clone(),
        }
    }
}

impl std::str::FromStr for FlagPath {
    type Err = Error;

    fn from_str(s: &str) -> Result<FlagPath, Error> {
        FlagPath::parse(s)
    }
}

/// A flat path read back gives the parts it was made of.
pub proof fn lemma_path_round_trip(o: Seq<char>, a: Seq<char>, e: Seq<char>, p: FlagPath)
    requires
        part(o),
        part(a),
        part(e),
        part(p.owner@),
        part(p.app@),
        part(p.env@),
        flat(p.owner@, p.app@, p.env@) == flat(o, a, e),
    ensures
        splits(flat(o, a, e)),
        p.owner@ == o,
        p.app@ == a,
        p.env@ == e,
{
    lemma_flat_injective(p.owner@, p.app@, p.env@, o, a, e);
}

/// The value a flag carries.
#[derive(Debug, Clone, Copy, PartialEq, Eq, Structural)]
pub enum FlagValue {
    Bool(bool),
}

/// The current time in whole seconds since the Unix epoch.
pub fn current_time() -> (r: u64) {
    now_millis() / 1000
}

/// A named boolean flag with its version, state and timestamps (seconds).
#[derive(Debug, Clone)]
pub struct Flag {
    key: String,
    value: FlagValue,
    version: u64,
    enabled: bool,
    created: u64,
    updated: u64,
}

impl Flag {
    pub closed spec fn spec_key(&self) -> Seq<char> {
        self.key@
    }

    pub closed spec fn spec_value(&self) -> FlagValue {
        self.value
    }

    pub closed spec fn spec_version(&self) -> u64 {
        self.version
    }

    pub closed spec fn spec_enabled(&self) -> bool {
        self.enabled
    }

    pub closed spec fn spec_created(&self) -> u64 {
        self.created
    }

    pub closed spec fn spec_updated(&self) -> u64 {
        self.updated
    }

    /// A version of at least 1, and no update before creation.
    pub open spec fn valid(&self) -> bool {
        self.spec_version() >= 1 && self.spec_updated() >= self.spec_created()
    }

    /// A flag created and updated at `now`.
    pub fn new_at(key: String, value: FlagValue, version: u64, enabled: bool, now: u64) -> (r: Flag)
        ensures
            r.spec_key() == key@,
            r.spec_value() == value,
            r.spec_version() == version,
            r.spec_enabled() == enabled,
            r.spec_created() == now,
            r.spec_updated() == now,
            version >= 1 ==> r.valid(),
    {
        Flag { key: key, value: value, version: version, enabled: enabled, created: now, updated: now }
    }

    /// A flag created and updated now, by the clock.
    pub fn new(key: String, value: FlagValue, version: u64, enabled: bool) -> (r: Flag)
        ensures
            r.spec_key() == key@,
            r.spec_value() == value,
            r.spec_version() == version,
            r.spec_enabled() == enabled,
            r.spec_created() == r.spec_updated(),
            version >= 1 ==> r.valid(),
    {
        Flag::new_at(key, value, version, enabled, current_time())
    }

    /// A flag with every field given, as read back from the store.
    pub fn from_parts(
        key: String,
        value: FlagValue,
        version: u64,
        enabled: bool,
        created: u64,
        updated: u64,
    ) -> (r: Flag)
        ensures
            r.spec_key() == key@,
            r.spec_value() == value,
            r.spec_version() == version,
            r.spec_enabled() == enabled,
            r.spec_created() == created,
            r.spec_updated() == updated,
    {
        Flag { key, value, version, enabled, created, updated }
    }

    /// The value when the flag is enabled, else nothing.
    pub fn eval(&self) -> (r: Option<&FlagValue>)
        ensures
            r matches Some(v) ==> self.spec_enabled() && *v == self.spec_value(),
            r is None <==> !self.spec_enabled(),
    {
        if self.enabled {
            Some(&self.value)
        } else {
            None
        }
    }

    pub fn value(&self) -> (r: &FlagValue)
        ensures
            *r == self.spec_value(),
    {
        &self.value
    }

    pub fn is_enabled(&self) -> (r: bool)
        ensures
            r == self.spec_enabled(),
    {
        self.enabled
    }

    pub fn is_ver(&self, ver: u64) -> (r: bool)
        ensures
            r == (self.spec_version() == ver),
    {
        self.version == ver
    }

    pub fn key(&self) -> (r: &str)
        ensures
            r@ == self.spec_key(),
    {
        self.key.as_str()
    }

    pub fn version(&self) -> (r: u64)
        ensures
            r == self.spec_version(),
    {
        self.version
    }

    pub fn created(&self) -> (r: u64)
        ensures
            r == self.spec_created(),
    {
        self.created
    }

    pub fn updated(&self) -> (r: u64)
        ensures
            r == self.spec_updated(),
    {
        self.updated
    }

    /// Assigns a new value at `now`: a different value bumps the version and
    /// the update time; an equal value changes nothing.
    pub fn set_value_at(&mut self, val: &FlagValue, now: u64)
        requires
            old(self).spec_version() < u64::MAX,
        ensures
            final(self).spec_key() == old(self).spec_key(),
            final(self).spec_enabled() == old(self).spec_enabled(),
            final(self).spec_created() == old(self).spec_created(),
            final(self).spec_value() == *val,
            *val == old(self).spec_value() ==> *final(self) == *old(self),
            *val != old(self).spec_value() ==> final(self).spec_version() == old(self).spec_version()
                + 1 && final(self).spec_updated() == now,
            old(self).valid() && now >= old(self).spec_updated() ==> final(self).valid(),
    {
        let new_val = *val;
        if self.value != new_val {
            self.version = self.version + 1;
            self.value = new_val;
            self.updated = now;
        }
    }

    /// Assigns a new value now, by the clock.
    pub fn set_value(&mut self, val: &FlagValue)
        requires
            old(self).spec_version() < u64::MAX,
        ensures
            final(self).spec_key() == old(self).spec_key(),
            final(self).spec_enabled() == old(self).spec_enabled(),
            final(self).spec_created() == old(self).spec_created(),
            final(self).spec_value() == *val,
            *val == old(self).spec_value() ==> *final(self) == *old(self),
            *val != old(self).spec_value() ==> final(self).spec_version() == old(self).spec_version()
                + 1,
    {
        self.set_value_at(val, current_time());
    }

    /// Sets the enabled state at `now`: a change moves the update time; the
    /// same state changes nothing.
    pub fn toggle_at(&mut self, state: bool, now: u64)
        ensures
            final(self).spec_key() == old(self).spec_key(),
            final(self).spec_value() == old(self).spec_value(),
            final(self).spec_version() == old(self).spec_version(),
            final(self).spec_created() == old(self).spec_created(),
            final(self).spec_enabled() == state,
            state == old(self).spec_enabled() ==> *final(self) == *old(self),
            state != old(self).spec_enabled() ==> final(self).spec_updated() == now,
            old(self).valid() && now >= old(self).spec_updated() ==> final(self).valid(),
    {
        if self.enabled != state {
            self.enabled = !self.enabled;
            self.updated = now;
        }
    }

    /// Sets the enabled state now, by the clock.
    pub fn toggle(&mut self, state: bool)
        ensures
            final(self).spec_key() == old(self).spec_key(),
            final(self).spec_value() == old(self).spec_value(),
            final(self).spec_version() == old(self).spec_version(),
            final(self).spec_created() == old(self).spec_created(),
            final(self).spec_enabled() == state,
            state == old(self).spec_enabled() ==> *final(self) == *old(self),
    {
        self.toggle_at(state, current_time());
    }
}

} // verus!
