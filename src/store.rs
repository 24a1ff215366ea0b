use vstd::prelude::*;

use crate::clock::now_millis;
use crate::error::Error;
use crate::hash_cache::{fresh, HashCache};
use crate::str_map::{str_eq, StrMap};

verus! {

/// The prefix of backing-store keys when none is configured.
pub const DEFAULT_PREFIX: &'static str = "masquerade";

/// Suffix of the collection-cache key of a path.
pub const ALL_CACHE: &'static str = ":all_flags$";

/// The wire text that stands for a value that could not be encoded.
pub const FAIL: &'static str = "fail";

/// `{prefix}:{path}`: the backing-store hash of a path.
pub open spec fn full_path(prefix: Seq<char>, path: Seq<char>) -> Seq<char> {
    prefix + seq![':'] + path
}

/// `{prefix}:{path}/{key}`: the item-cache key of a field.
pub open spec fn full_key(prefix: Seq<char>, path: Seq<char>, key: Seq<char>) -> Seq<char> {
    prefix + seq![':'] + path + seq!['/'] + key
}

/// `{path}:all_flags$`: the collection-cache key of a path.
pub open spec fn all_key(path: Seq<char>) -> Seq<char> {
    path + ALL_CACHE@
}

/// A command for the backing hash server.
#[derive(Debug)]
pub enum Command {
    HGet { hash: String, field: String },
    HGetAll { hash: String },
    HSet { hash: String, field: String, value: String },
    HDel { hash: String, field: String },
    Publish { topic: String, message: String },
    Subscribe { topic: String },
}

/// What a read needs: a value the caches already hold, or a command whose
/// answer completes the read.
#[derive(Debug)]
pub enum Fetch<T> {
    Cached(T),
    Send(Command),
}

/// The state of a store as the laws see it: its prefix and topic, the
/// freshness window (seconds), and the two caches with their stamps.
pub struct StoreView {
    pub prefix: Seq<char>,
    pub topic: Seq<char>,
    pub window: u64,
    pub items: Map<Seq<char>, (String, u64)>,
    pub collections: Map<Seq<char>, (StrMap<String>, u64)>,
}

impl StoreView {
    /// The item cache serves `(path, key)` at `now`.
    pub open spec fn item_live(self, path: Seq<char>, key: Seq<char>, now: u64) -> bool {
        let k = full_key(self.prefix, path, key);
        self.items.contains_key(k) && fresh(self.window, self.items[k].1, now)
    }

    /// The collection cache serves `path` at `now`.
    pub open spec fn collection_live(self, path: Seq<char>, now: u64) -> bool {
        let k = all_key(path);
        self.collections.contains_key(k) && fresh(self.window, self.collections[k].1, now)
    }

    /// After a write to `(path, key)`: every collection dropped, the item dropped.
    pub open spec fn written(self, path: Seq<char>, key: Seq<char>) -> StoreView {
        StoreView {
            items: self.items.remove(full_key(self.prefix, path, key)),
            collections: Map::empty(),
            ..self
        }
    }

    /// After a notice: both caches drop the key it names.
    pub open spec fn evicted(self, message: Seq<char>) -> StoreView {
        StoreView {
            items: self.items.remove(message),
            collections: self.collections.remove(message),
            ..self
        }
    }

    /// The two notices a write to `(path, key)` publishes: the collection key and
    /// the item key.
    pub open spec fn notices(self, path: Seq<char>, key: Seq<char>) -> (Seq<char>, Seq<char>) {
        (all_key(path), full_key(self.prefix, path, key))
    }
}

/// The cache-coherent store of wire values under `(path, key)`: an item cache
/// and a collection cache in front of a shared hash server, kept coherent
/// across instances by notices on a topic. It decides; its caller talks to the
/// server and hands the answers back.
pub struct TieredStore {
    key: String,
    topic: String,
    cache: HashCache<String>,
    all_cache: HashCache<StrMap<String>>,
}

impl View for TieredStore {
    type V = StoreView;

    closed spec fn view(&self) -> StoreView {
        StoreView {
            prefix: self.key@,
            topic: self.topic@,
            window: self.cache.window(),
            items: self.cache.entries(),
            collections: self.all_cache.entries(),
        }
    }
}

impl TieredStore {
    pub closed spec fn wf(&self) -> bool {
        &&& self.cache.wf()
        &&& self.all_cache.wf()
        &&& self.cache.window() == self.all_cache.window()
        &&& forall|k: Seq<char>|
            #[trigger] self.all_cache.entries().contains_key(k) ==> self.all_cache.entries()[k].0.wf()
    }

    /// A store with empty caches whose entries stay fresh for `duration`
    /// seconds (0: until evicted), under `prefix` or the default one.
    pub fn open(topic: String, prefix: Option<String>, duration: u64) -> (r: TieredStore)
        ensures
            r.wf(),
            r@.topic == topic@,
            r@.prefix == match prefix {
                Some(p) => p@,
                None => DEFAULT_PREFIX@,
            },
            r@.window == duration,
            r@.items == Map::<Seq<char>, (String, u64)>::empty(),
            r@.collections == Map::<Seq<char>, (StrMap<String>, u64)>::empty(),
    {
        let key = match prefix {
            Some(p) => p,
            None => DEFAULT_PREFIX.to_owned(),
        };
        TieredStore {
            key: key,
            topic: topic,
            cache: HashCache::new(duration),
            all_cache: HashCache::new(duration),
        }
    }

    pub fn prefix(&self) -> (r: &str)
        ensures
            r@ == self@.prefix,
    {
        self.key.as_str()
    }

    pub fn topic(&self) -> (r: &str)
        ensures
            r@ == self@.topic,
    {
        self.topic.as_str()
    }

    /// The backing-store hash of `path`.
    pub fn full_path(&self, path: &str) -> (r: String)
        ensures
            r@ == full_path(self@.prefix, path@),
    {
        let mut r = self.key.clone();
        r.append(":");
        r.append(path);
        proof {
            reveal_strlit(":");
        }
        assert(r@ =~= full_path(self@.prefix, path@));
        r
    }

    /// The item-cache key of `(path, key)`.
    pub fn full_key(&self, path: &str, key: &str) -> (r: String)
        ensures
            r@ == full_key(self@.prefix, path@, key@),
    {
        let mut r = self.key.clone();
        r.append(":");
        r.append(path);
        r.append("/");
        r.append(key);
        proof {
            reveal_strlit(":");
            reveal_strlit("/");
        }
        assert(r@ =~= full_key(self@.prefix, path@, key@));
        r
    }

    /// The collection-cache key of `path`.
    pub fn all_key(path: &str) -> (r: String)
        ensures
            r@ == all_key(path@),
    {
        let mut r = path.to_owned();
        r.append(ALL_CACHE);
        r
    }

    /// First step of a read of `(path, key)` at `now`: the cached value if the
    /// item cache serves it, else the `HGET` to send.
    pub fn begin_get_at(&self, path: &str, key: &str, now: u64) -> (r: Result<Fetch<String>, Error>)
        requires
            self.wf(),
        ensures
            key@.len() == 0 <==> r matches Err(Error::EmptyKey),
            r is Err ==> key@.len() == 0,
            r matches Ok(Fetch::Cached(v)) ==> self@.item_live(path@, key@, now)
                && v == self@.items[full_key(self@.prefix, path@, key@)].0,
            r matches Ok(Fetch::Send(c)) ==> !self@.item_live(path@, key@, now) && (c matches Command::HGet { hash, field }
                && hash@ == full_path(self@.prefix, path@) && field@ == key@),            key@.len() > 0 && self@.window == 0 && self@.items.contains_key(full_key(self@.prefix, path@, key@))
                ==> r matches Ok(Fetch::Cached(_)),
    {
        if key.unicode_len() == 0 {
            return Err(Error::EmptyKey);
        }
        let item_key = self.full_key(path, key);
        match self.cache.get_at(item_key.as_str(), now) {
            Some(v) => Ok(Fetch::Cached(v)),
            None => Ok(Fetch::Send(Command::HGet { hash: self.full_path(path), field: key.to_owned() })),
        }
    }

    /// First step of a read by the clock.
    pub fn begin_get(&self, path: &str, key: &str) -> (r: Result<Fetch<String>, Error>)
        requires
            self.wf(),
        ensures
            key@.len() == 0 <==> r matches Err(Error::EmptyKey),
            r is Err ==> key@.len() == 0,
            r matches Ok(Fetch::Cached(v)) ==> self@.items.contains_key(full_key(self@.prefix, path@, key@))
                && v == self@.items[full_key(self@.prefix, path@, key@)].0,
            r matches Ok(Fetch::Send(c)) ==> c matches Command::HGet { hash, field }
                && hash@ == full_path(self@.prefix, path@) && field@ == key@,
            key@.len() > 0 ==> exists|t: u64| (r matches Ok(Fetch::Cached(_)) <==> #[trigger] self@.item_live(path@, key@, t)),
            key@.len() > 0 && self@.window == 0 && self@.items.contains_key(full_key(self@.prefix, path@, key@))
                ==> r matches Ok(Fetch::Cached(_)),
    {
        let now = now_millis();
        let r = self.begin_get_at(path, key, now);
        assert(key@.len() > 0 ==> (r matches Ok(Fetch::Cached(_)) <==> self@.item_live(path@, key@, now)));
        r
    }

    /// Last step of a read: the server's answer is kept in the item cache,
    /// stamped `now`, when there is one, and is the result.
    pub fn finish_get_at(&mut self, path: &str, key: &str, reply: Option<String>, now: u64) -> (r: Option<String>)
        requires
            old(self).wf(),
        ensures
            final(self).wf(),
            r == reply,
            final(self)@.collections == old(self)@.collections,
            final(self)@.prefix == old(self)@.prefix,
            final(self)@.topic == old(self)@.topic,
            final(self)@.window == old(self)@.window,
            reply is None ==> final(self)@.items == old(self)@.items,
            reply matches Some(v) ==> final(self)@.items == old(self)@.items.insert(
                full_key(old(self)@.prefix, path@, key@),
                (v, now),
            ),
    {
        if let Some(v) = &reply {
            let item_key = self.full_key(path, key);
            self.cache.insert_at(item_key.as_str(), v, now);
            assert(self@.items =~= old(self)@.items.insert(item_key@, (*v, now)));
        }
        reply
    }

    /// Last step of a read, stamped by the clock.
    pub fn finish_get(&mut self, path: &str, key: &str, reply: Option<String>) -> (r: Option<String>)
        requires
            old(self).wf(),
        ensures
            final(self).wf(),
            r == reply,
            final(self)@.collections == old(self)@.collections,
            final(self)@.prefix == old(self)@.prefix,
            final(self)@.topic == old(self)@.topic,
            final(self)@.window == old(self)@.window,
            reply is None ==> final(self)@.items == old(self)@.items,
            reply matches Some(v) ==> exists|t: u64| final(self)@.items == #[trigger] old(self)@.items.insert(
                full_key(old(self)@.prefix, path@, key@),
                (v, t),
            ),
    {
        let now = now_millis();
        self.finish_get_at(path, key, reply, now)
    }

    /// First step of reading the whole collection of `path` at `now`: a clone of
    /// the cached mapping if the collection cache serves it, else the `HGETALL`
    /// to send.
    pub fn begin_get_all_at(&self, path: &str, now: u64) -> (r: Fetch<StrMap<String>>)
        requires
            self.wf(),
        ensures
            r matches Fetch::Cached(m) ==> self@.collection_live(path@, now) && m.wf()
                && m@ == self@.collections[all_key(path@)].0@,
            r matches Fetch::Send(c) ==> !self@.collection_live(path@, now) && (c matches Command::HGetAll { hash }
                && hash@ == full_path(self@.prefix, path@)),            self@.window == 0 && self@.collections.contains_key(all_key(path@)) ==> r is Cached,
    {
        let k = TieredStore::all_key(path);
        match self.all_cache.get_at(k.as_str(), now) {
            Some(m) => {
                assert(m@ =~= self@.collections[all_key(path@)].0@);
                Fetch::Cached(m)
            },
            None => Fetch::Send(Command::HGetAll { hash: self.full_path(path) }),
        }
    }

    /// First step of reading a collection by the clock.
    pub fn begin_get_all(&self, path: &str) -> (r: Fetch<StrMap<String>>)
        requires
            self.wf(),
        ensures
            r matches Fetch::Cached(m) ==> self@.collections.contains_key(all_key(path@)) && m.wf()
                && m@ == self@.collections[all_key(path@)].0@,
            r matches Fetch::Send(c) ==> c matches Command::HGetAll { hash }
                && hash@ == full_path(self@.prefix, path@),
            exists|t: u64| (r is Cached <==> #[trigger] self@.collection_live(path@, t)),
            self@.window == 0 && self@.collections.contains_key(all_key(path@)) ==> r is Cached,
    {
        let now = now_millis();
        let r = self.begin_get_all_at(path, now);
        assert(r is Cached <==> self@.collection_live(path@, now));
        r
    }

    /// Last step of reading a collection: the server's mapping is kept in the
    /// collection cache, stamped `now`, and is the result.
    pub fn finish_get_all_at(&mut self, path: &str, reply: StrMap<String>, now: u64) -> (r: StrMap<String>)
        requires
            old(self).wf(),
            reply.wf(),
        ensures
            final(self).wf(),
            r == reply,
            final(self)@.items == old(self)@.items,
            final(self)@.prefix == old(self)@.prefix,
            final(self)@.topic == old(self)@.topic,
            final(self)@.window == old(self)@.window,
            final(self)@.collections.dom() == old(self)@.collections.dom().insert(all_key(path@)),
            final(self)@.collections[all_key(path@)].0@ == reply@,
            final(self)@.collections[all_key(path@)].1 == now,
    {
        let k = TieredStore::all_key(path);
        self.all_cache.insert_at(k.as_str(), &reply, now);
        reply
    }

    /// The checks a write makes before it touches the server: the key must not
    /// be empty and the encoded value must not be the failure text.
    fn check_write(key: &str, encoded: &str) -> (r: Result<(), Error>)
        ensures
            key@.len() == 0 ==> r == Err::<(), Error>(Error::EmptyKey),
            key@.len() > 0 && encoded@ == FAIL@ ==> r == Err::<(), Error>(Error::FailedToSerializeItem),
            key@.len() > 0 && encoded@ != FAIL@ ==> r is Ok,
    {
        if key.unicode_len() == 0 {
            Err(Error::EmptyKey)
        } else if str_eq(encoded, FAIL) {
            Err(Error::FailedToSerializeItem)
        } else {
            Ok(())
        }
    }

    /// The commands of an upsert of the encoded value under `(path, key)`: read
    /// the prior value, then store the new one. An empty key or an encoding
    /// failure refuses the write before any command.
    pub fn begin_upsert(&self, path: &str, key: &str, encoded: &str) -> (r: Result<(Command, Command), Error>)
        ensures
            key@.len() == 0 ==> r == Err::<(Command, Command), Error>(Error::EmptyKey),
            key@.len() > 0 && encoded@ == FAIL@ ==> r == Err::<(Command, Command), Error>(
                Error::FailedToSerializeItem,
            ),
            key@.len() > 0 && encoded@ != FAIL@ ==> r is Ok,
            r matches Ok((c1, c2)) ==> (c1 matches Command::HGet { hash, field } && hash@ == full_path(
                self@.prefix,
                path@,
            ) && field@ == key@) && (c2 matches Command::HSet { hash, field, value } && hash@
                == full_path(self@.prefix, path@) && field@ == key@ && value@ == encoded@),
    {
        match TieredStore::check_write(key, encoded) {
            Err(e) => Err(e),
            Ok(()) => Ok((
                Command::HGet { hash: self.full_path(path), field: key.to_owned() },
                Command::HSet { hash: self.full_path(path), field: key.to_owned(), value: encoded.to_owned() },
            )),
        }
    }

    /// The commands of a delete of `(path, key)`: read the prior value, then
    /// remove the field. An empty key is refused before any command.
    pub fn begin_delete(&self, path: &str, key: &str) -> (r: Result<(Command, Command), Error>)
        ensures
            key@.len() == 0 <==> r == Err::<(Command, Command), Error>(Error::EmptyKey),
            key@.len() > 0 ==> r is Ok,
            r matches Ok((c1, c2)) ==> (c1 matches Command::HGet { hash, field } && hash@ == full_path(
                self@.prefix,
                path@,
            ) && field@ == key@) && (c2 matches Command::HDel { hash, field } && hash@ == full_path(
                self@.prefix,
                path@,
            ) && field@ == key@),
    {
        if key.unicode_len() == 0 {
            Err(Error::EmptyKey)
        } else {
            Ok((
                Command::HGet { hash: self.full_path(path), field: key.to_owned() },
                Command::HDel { hash: self.full_path(path), field: key.to_owned() },
            ))
        }
    }

    /// The two notices about `(path, key)`: the collection key and the item
    /// key, each published on the topic.
    pub fn notify(&self, path: &str, key: &str) -> (r: (Command, Command))
        ensures
            r.0 matches Command::Publish { topic, message } && topic@ == self@.topic && message@
                == self@.notices(path@, key@).0,
            r.1 matches Command::Publish { topic, message } && topic@ == self@.topic && message@
                == self@.notices(path@, key@).1,
    {
        (
            Command::Publish { topic: self.topic.clone(), message: TieredStore::all_key(path) },
            Command::Publish { topic: self.topic.clone(), message: self.full_key(path, key) },
        )
    }

    /// Once the server has taken a write to `(path, key)`: every cached
    /// collection and the cached item are dropped, and the notices to publish
    /// are handed back.
    pub fn finish_write(&mut self, path: &str, key: &str) -> (r: (Command, Command))
        requires
            old(self).wf(),
        ensures
            final(self).wf(),
            final(self)@ == old(self)@.written(path@, key@),
            r.0 matches Command::Publish { topic, message } && topic@ == old(self)@.topic && message@
                == old(self)@.notices(path@, key@).0,
            r.1 matches Command::Publish { topic, message } && topic@ == old(self)@.topic && message@
                == old(self)@.notices(path@, key@).1,
    {
        self.all_cache.clear();
        let item_key = self.full_key(path, key);
        self.cache.remove(item_key.as_str());
        assert(self@ == old(self)@.written(path@, key@));
        self.notify(path, key)
    }

    /// A notice from the topic: both caches drop the key it names.
    pub fn apply_notice(&mut self, message: &str)
        requires
            old(self).wf(),
        ensures
            final(self).wf(),
            final(self)@ == old(self)@.evicted(message@),
    {
        self.all_cache.remove(message);
        self.cache.remove(message);
        assert(self@ == old(self)@.evicted(message@));
    }

    /// The subscription to the topic on which notices arrive.
    pub fn subscription(&self) -> (r: Command)
        ensures
            r matches Command::Subscribe { topic } && topic@ == self@.topic,
    {
        Command::Subscribe { topic: self.topic.clone() }
    }
}

/// A write is visible to the instance that made it: once `finish_write` has
/// run, neither the item nor the collection of the path is served from cache,
/// so the next read goes to the server and returns its answer.
pub proof fn lemma_write_invalidates(v: StoreView, path: Seq<char>, key: Seq<char>, now: u64)
    ensures
        !v.written(path, key).item_live(path, key, now),
        !v.written(path, key).collection_live(path, now),
{
}

/// A write reaches every instance that shares the prefix and topic: once both
/// of its notices have been applied there, in either order, neither the item
/// nor the collection of the path is served from that instance's cache.
pub proof fn lemma_notices_converge(
    writer: StoreView,
    other: StoreView,
    path: Seq<char>,
    key: Seq<char>,
    now: u64,
)
    requires
        other.prefix == writer.prefix,
    ensures
        !other.evicted(writer.notices(path, key).0).evicted(writer.notices(path, key).1).item_live(
            path,
            key,
            now,
        ),
        !other.evicted(writer.notices(path, key).0).evicted(writer.notices(path, key).1).collection_live(
            path,
            now,
        ),
        !other.evicted(writer.notices(path, key).1).evicted(writer.notices(path, key).0).item_live(
            path,
            key,
            now,
        ),
        !other.evicted(writer.notices(path, key).1).evicted(writer.notices(path, key).0).collection_live(
            path,
            now,
        ),
{
}


/// A write to one field of a server hash: `HSET` of a wire value or `HDEL`.
pub enum Mutation {
    Upsert(Seq<char>, Seq<char>),
    Delete(Seq<char>),
}

/// A server hash after one write.
pub open spec fn mutated(h: Map<Seq<char>, Seq<char>>, m: Mutation) -> Map<Seq<char>, Seq<char>> {
    match m {
        Mutation::Upsert(k, v) => h.insert(k, v),
        Mutation::Delete(k) => h.remove(k),
    }
}

/// A server hash after a sequence of writes, oldest first.
pub open spec fn replay(h: Map<Seq<char>, Seq<char>>, ms: Seq<Mutation>) -> Map<Seq<char>, Seq<char>>
    decreases ms.len(),
{
    if ms.len() == 0 {
        h
    } else {
        mutated(replay(h, ms.drop_last()), ms.last())
    }
}

/// The field a write touches.
pub open spec fn field_of(m: Mutation) -> Seq<char> {
    match m {
        Mutation::Upsert(k, _) => k,
        Mutation::Delete(k) => k,
    }
}

/// Whether the most recent write to `k` in `ms` is an upsert.
pub open spec fn last_is_upsert(ms: Seq<Mutation>, k: Seq<char>) -> bool
    decreases ms.len(),
{
    if ms.len() == 0 {
        false
    } else if field_of(ms.last()) == k {
        ms.last() is Upsert
    } else {
        last_is_upsert(ms.drop_last(), k)
    }
}

/// What a full read of a path returns once its caches are invalidated is the
/// server's hash; starting from an empty hash, its keys are exactly the fields
/// whose most recent write was an upsert.
pub proof fn lemma_collection_keys(ms: Seq<Mutation>)
    ensures
        replay(Map::empty(), ms).dom() == Set::new(|k: Seq<char>| last_is_upsert(ms, k)),
    decreases ms.len(),
{
    if ms.len() > 0 {
        lemma_collection_keys(ms.drop_last());
    }
    assert(replay(Map::empty(), ms).dom() =~= Set::new(|k: Seq<char>| last_is_upsert(ms, k)));
}

/// What a read of `(path, key)` at `now` returns when the server's hash of
/// `path` holds `h`: the cached value if the item cache serves it, else the
/// server's answer. This is what `begin_get_at` followed, on a miss, by
/// `finish_get_at` with the `HGET` answer return.
pub open spec fn read_result(
    v: StoreView,
    h: Map<Seq<char>, Seq<char>>,
    path: Seq<char>,
    key: Seq<char>,
    now: u64,
) -> Option<Seq<char>> {
    if v.item_live(path, key, now) {
        Some(v.items[full_key(v.prefix, path, key)].0@)
    } else if h.contains_key(key) {
        Some(h[key])
    } else {
        None
    }
}

/// What a read of the collection of `path` at `now` returns when the server's
/// hash holds `h`: the cached mapping's keys if the collection cache serves
/// it, else the server's keys.
pub open spec fn read_all_keys(v: StoreView, h: Map<Seq<char>, Seq<char>>, path: Seq<char>, now: u64) -> Set<
    Seq<char>,
> {
    if v.collection_live(path, now) {
        v.collections[all_key(path)].0@.dom()
    } else {
        h.dom()
    }
}

/// Read after write, on every instance: once a write of `(path, key)` has
/// reached the server hash, a read of it returns the upserted value (or
/// nothing after a delete) on the writer, and on any instance sharing the
/// prefix once it has applied both notices, in either order, whatever their
/// caches held before.
pub proof fn lemma_read_after_write(
    writer: StoreView,
    other: StoreView,
    h: Map<Seq<char>, Seq<char>>,
    path: Seq<char>,
    key: Seq<char>,
    m: Mutation,
    now: u64,
)
    requires
        other.prefix == writer.prefix,
        field_of(m) == key,
    ensures
        ({
            let n = writer.notices(path, key);
            let after = mutated(h, m);
            let expected = match m {
                Mutation::Upsert(_, value) => Some(value),
                Mutation::Delete(_) => None::<Seq<char>>,
            };
            &&& read_result(writer.written(path, key), after, path, key, now) == expected
            &&& read_result(other.evicted(n.0).evicted(n.1), after, path, key, now) == expected
            &&& read_result(other.evicted(n.1).evicted(n.0), after, path, key, now) == expected
        }),
{
    lemma_write_invalidates(writer, path, key, now);
    lemma_notices_converge(writer, other, path, key, now);
}

/// The keys of a collection, on every instance: after a history of writes to
/// the hash of `path` (oldest first, starting from an empty hash), once the
/// last write's invalidation has reached an instance (it made the write, or
/// applied both notices), a full read there returns exactly the keys whose most
/// recent write was an upsert.
pub proof fn lemma_collection_after_writes(
    writer: StoreView,
    other: StoreView,
    path: Seq<char>,
    ms: Seq<Mutation>,
    now: u64,
)
    requires
        other.prefix == writer.prefix,
        ms.len() > 0,
    ensures
        ({
            let key = field_of(ms.last());
            let n = writer.notices(path, key);
            let h = replay(Map::empty(), ms);
            let expected = Set::new(|k: Seq<char>| last_is_upsert(ms, k));
            &&& read_all_keys(writer.written(path, key), h, path, now) == expected
            &&& read_all_keys(other.evicted(n.0).evicted(n.1), h, path, now) == expected
            &&& read_all_keys(other.evicted(n.1).evicted(n.0), h, path, now) == expected
        }),
{
    let key = field_of(ms.last());
    lemma_collection_keys(ms);
    lemma_write_invalidates(writer, path, key, now);
    lemma_notices_converge(writer, other, path, key, now);
}

/// The mapping that a flat `HGETALL` answer `[k1, v1, k2, v2, ...]` stands
/// for; a later pair wins over an earlier one with the same key.
pub open spec fn pairs_map(s: Seq<String>) -> Map<Seq<char>, String>
    decreases s.len(),
{
    if s.len() < 2 {
        Map::empty()
    } else {
        pairs_map(s.subrange(0, s.len() - 2)).insert(s[s.len() - 2]@, s[s.len() - 1])
    }
}

/// Reads a flat `HGETALL` answer into a mapping; an odd number of items is a
/// malformed answer.
pub fn decode_pairs(items: &Vec<String>) -> (r: Result<StrMap<String>, Error>)
    ensures
        r is Ok <==> items@.len() % 2 == 0,
        r matches Ok(m) ==> m.wf() && m@ == pairs_map(items@),
        r matches Err(e) ==> e is RedisAsyncFailure,
{
    if items.len() % 2 != 0 {
        return Err(Error::RedisAsyncFailure("Cannot convert an odd number of elements into a hashmap".to_owned()));
    }
    let mut m: StrMap<String> = StrMap::new();
    let mut i: usize = 0;
    while i < items.len()
        invariant
            items@.len() % 2 == 0,
            i % 2 == 0,
            i <= items@.len(),
            m.wf(),
            m@ == pairs_map(items@.subrange(0, i as int)),
        decreases items@.len() - i,
    {
        let k = items[i].clone();
        let v = items[i + 1].clone();
        m.insert(k, v);
        proof {
            let next = items@.subrange(0, i + 2);
            assert(next.subrange(0, next.len() - 2) =~= items@.subrange(0, i as int));
        }
        i = i + 2;
    }
    assert(items@.subrange(0, i as int) =~= items@);
    Ok(m)
}

} // verus!
