use vstd::prelude::*;
use std::sync::Arc;
use crate::json::{JsonValue, JsonV, jv_text};
use crate::text::{str_eq, str_contains, is_sub};
use vstd::utf8::encode_utf8;

verus! {

/// Why a memory operation failed.
#[derive(Debug)]
pub enum MemoryError {
    NotFound(String),
    Backend(String),
    Unsupported(String),
}

/// The key/value memory capability agents program against.
/// Implementations take care of their own synchronization, so one
/// handle can be shared between concurrent runs.
pub trait MemoryStore {
    fn put(&self, key: &str, value: &JsonValue) -> Result<(), MemoryError>;

    fn get(&self, key: &str) -> Result<Option<JsonValue>, MemoryError>;

    fn search(&self, query: &str) -> Result<Vec<JsonValue>, MemoryError>;
}

/// One memory store behind a shared-ownership cell; agents under a
/// shared topology all hold the same cell.
pub struct StoreCell {
    pub store: Box<dyn MemoryStore>,
}

/// A shared-ownership handle to one memory store.
pub type MemoryHandle = Arc<StoreCell>;

/// Relies on `Arc::clone`: the returned handle is to the same cell.
#[verifier::external_body]
pub fn clone_handle(h: &MemoryHandle) -> (r: MemoryHandle)
    ensures
        r == *h,
{
    Arc::clone(h)
}

/// The view of a record list: keys with the values they carry, in order.
pub open spec fn kv_view(s: Seq<(String, JsonValue)>) -> Seq<(Seq<char>, JsonV)> {
    Seq::new(s.len(), |i: int| (s[i].0@, s[i].1@))
}

/// The position of the first record stored under `key`.
pub open spec fn entry_for(s: Seq<(Seq<char>, JsonV)>, key: Seq<char>) -> Option<int>
    decreases s.len(),
{
    if s.len() == 0 {
        None
    } else if s[0].0 == key {
        Some(0)
    } else {
        match entry_for(s.drop_first(), key) {
            Some(i) => Some(i + 1),
            None => None,
        }
    }
}

/// Whether a record answers a query: the query's text occurs in the key
/// or in the value's rendering, compared on UTF-8 bytes.
pub open spec fn record_matches(k: Seq<char>, v: JsonV, q: Seq<char>) -> bool {
    is_sub(encode_utf8(q), encode_utf8(k)) || is_sub(encode_utf8(q), encode_utf8(jv_text(v)))
}

/// The values of every record answering a query, in storage order.
pub open spec fn search_spec(s: Seq<(Seq<char>, JsonV)>, q: Seq<char>) -> Seq<JsonV>
    decreases s.len(),
{
    if s.len() == 0 {
        Seq::empty()
    } else {
        search_spec(s.drop_last(), q) + (if record_matches(s.last().0, s.last().1, q) {
            seq![s.last().1]
        } else {
            Seq::empty()
        })
    }
}

/// Replaces the first record under `key`, or appends a new one.
fn kv_put(entries: &mut Vec<(String, JsonValue)>, key: &str, value: &JsonValue)
    ensures
        kv_view(final(entries)@) == match entry_for(kv_view(old(entries)@), key@) {
            Some(i) => kv_view(old(entries)@).update(i, (key@, value@)),
            None => kv_view(old(entries)@).push((key@, value@)),
        },
{
    let ghost g0 = kv_view(entries@);
    let mut i: usize = 0;
    proof {
        assert(g0.skip(0) == g0);
    }
    loop
        invariant
            entries@ == old(entries)@,
            g0 == kv_view(entries@),
            i <= entries@.len(),
            entry_for(g0, key@) == match entry_for(g0.skip(i as int), key@) {
                Some(k) => Some(k + i),
                None => None::<int>,
            },
        decreases entries@.len() - i,
    {
        if i == entries.len() {
            proof {
                assert(g0.skip(i as int).len() == 0);
            }
            entries.push((key.to_owned(), value.duplicate()));
            proof {
                assert(kv_view(final(entries)@) =~~= g0.push((key@, value@)));
            }
            return;
        }
        proof {
            assert(g0.skip(i as int)[0] == g0[i as int]);
            assert(g0[i as int] == (entries@[i as int].0@, entries@[i as int].1@));
        }
        if str_eq(entries[i].0.as_str(), key) {
            let _old_pair = entries.remove(i);
            entries.insert(i, (key.to_owned(), value.duplicate()));
            proof {
                assert(kv_view(final(entries)@) =~~= g0.update(i as int, (key@, value@)));
            }
            return;
        }
        proof {
            assert(g0.skip(i as int).drop_first() =~= g0.skip(i as int + 1));
        }
        i = i + 1;
    }
}

/// Appends a record, keeping any earlier ones under the same key.
fn kv_append(entries: &mut Vec<(String, JsonValue)>, key: &str, value: &JsonValue)
    ensures
        kv_view(final(entries)@) == kv_view(old(entries)@).push((key@, value@)),
{
    entries.push((key.to_owned(), value.duplicate()));
    proof {
        assert(kv_view(final(entries)@) =~~= kv_view(old(entries)@).push((key@, value@)));
    }
}

/// A copy of the value under the first record for `key`, if any.
fn kv_get(entries: &Vec<(String, JsonValue)>, key: &str) -> (r: Option<JsonValue>)
    ensures
        match entry_for(kv_view(entries@), key@) {
            Some(i) => r matches Some(v) && v@ == kv_view(entries@)[i].1,
            None => r is None,
        },
{
    let ghost g0 = kv_view(entries@);
    let mut i: usize = 0;
    proof {
        assert(g0.skip(0) == g0);
    }
    loop
        invariant
            g0 == kv_view(entries@),
            i <= entries@.len(),
            entry_for(g0, key@) == match entry_for(g0.skip(i as int), key@) {
                Some(k) => Some(k + i),
                None => None::<int>,
            },
        decreases entries@.len() - i,
    {
        if i == entries.len() {
            proof {
                assert(g0.skip(i as int).len() == 0);
            }
            return None;
        }
        proof {
            assert(g0.skip(i as int)[0] == g0[i as int]);
            assert(g0[i as int] == (entries@[i as int].0@, entries@[i as int].1@));
        }
        if str_eq(entries[i].0.as_str(), key) {
            return Some(entries[i].1.duplicate());
        }
        proof {
            assert(g0.skip(i as int).drop_first() =~= g0.skip(i as int + 1));
        }
        i = i + 1;
    }
}

/// Copies of every value whose record answers the query, in order.
fn kv_search(entries: &Vec<(String, JsonValue)>, query: &str) -> (r: Vec<JsonValue>)
    ensures
        crate::json::jv_seq_view(r@) == search_spec(kv_view(entries@), query@),
{
    let ghost g0 = kv_view(entries@);
    let mut out: Vec<JsonValue> = Vec::new();
    let mut i: usize = 0;
    proof {
        crate::json::lemma_jv_seq_view(out@);
        assert(g0.take(0) =~= Seq::<(Seq<char>, JsonV)>::empty());
        assert(crate::json::jv_seq_view(out@) =~= search_spec(g0.take(0), query@));
    }
    while i < entries.len()
        invariant
            g0 == kv_view(entries@),
            i <= entries@.len(),
            crate::json::jv_seq_view(out@) == search_spec(g0.take(i as int), query@),
        decreases entries@.len() - i,
    {
        proof {
            assert(g0[i as int] == (entries@[i as int].0@, entries@[i as int].1@));
        }
        let rendered = entries[i].1.to_text();
        let hit = str_contains(entries[i].0.as_str(), query) || str_contains(
            rendered.as_str(),
            query,
        );
        let ghost pre = out@;
        if hit {
            out.push(entries[i].1.duplicate());
        }
        proof {
            assert(g0.take(i as int + 1).drop_last() =~= g0.take(i as int));
            assert(g0.take(i as int + 1).last() == g0[i as int]);
            crate::json::lemma_jv_seq_view(out@);
            crate::json::lemma_jv_seq_view(pre);
            if hit {
                assert(crate::json::jv_seq_view(out@) =~= crate::json::jv_seq_view(pre).push(
                    entries@[i as int].1@,
                ));
            } else {
                assert(crate::json::jv_seq_view(out@) =~= crate::json::jv_seq_view(pre));
            }
            assert(crate::json::jv_seq_view(out@) =~= search_spec(g0.take(i as int + 1), query@));
        }
        i = i + 1;
    }
    proof {
        assert(g0.take(entries@.len() as int) =~= g0);
    }
    out
}

/// A plain in-memory store: the first record under a key is the live
/// one, and putting a key again replaces it.
#[derive(Debug)]
pub struct InMemoryStore {
    entries: Vec<(String, JsonValue)>,
}

impl View for InMemoryStore {
    type V = Seq<(Seq<char>, JsonV)>;

    closed spec fn view(&self) -> Seq<(Seq<char>, JsonV)> {
        kv_view(self.entries@)
    }
}

impl InMemoryStore {
    pub fn new() -> (r: Self)
        ensures
            r@.len() == 0,
    {
        let r = InMemoryStore { entries: Vec::new() };
        proof {
            assert(r@ =~= Seq::<(Seq<char>, JsonV)>::empty());
        }
        r
    }

    pub fn put(&mut self, key: &str, value: &JsonValue) -> (r: Result<(), MemoryError>)
        ensures
            r is Ok,
            final(self)@ == match entry_for(old(self)@, key@) {
                Some(i) => old(self)@.update(i, (key@, value@)),
                None => old(self)@.push((key@, value@)),
            },
    {
        kv_put(&mut self.entries, key, value);
        Ok(())
    }

    pub fn get(&self, key: &str) -> (r: Result<Option<JsonValue>, MemoryError>)
        ensures
            r matches Ok(o) && match entry_for(self@, key@) {
                Some(i) => o matches Some(v) && v@ == self@[i].1,
                None => o is None,
            },
    {
        Ok(kv_get(&self.entries, key))
    }

    pub fn search(&self, query: &str) -> (r: Result<Vec<JsonValue>, MemoryError>)
        ensures
            r matches Ok(vs) && crate::json::jv_seq_view(vs@) == search_spec(self@, query@),
    {
        Ok(kv_search(&self.entries, query))
    }
}

impl Default for InMemoryStore {
    fn default() -> (r: Self)
        ensures
            r@.len() == 0,
    {
        InMemoryStore::new()
    }
}

/// A store that accepts everything and remembers nothing.
#[derive(Debug)]
pub struct NullStore;

impl MemoryStore for NullStore {
    fn put(&self, key: &str, value: &JsonValue) -> Result<(), MemoryError> {
        Ok(())
    }

    fn get(&self, key: &str) -> Result<Option<JsonValue>, MemoryError> {
        Ok(None)
    }

    fn search(&self, query: &str) -> Result<Vec<JsonValue>, MemoryError> {
        Ok(Vec::new())
    }
}

/// Which vector database a vector store stages its records for.
#[derive(Debug, Clone, Copy, PartialEq, Eq, Structural)]
pub enum VectorBackend {
    Qdrant,
    Milvus,
    LocalHnsw,
}

/// A staging area for a vector backend: records append in arrival
/// order, and the first record under a key is the one reads see.
#[derive(Debug)]
pub struct VectorStore {
    backend: VectorBackend,
    buffer: Vec<(String, JsonValue)>,
}

impl View for VectorStore {
    type V = Seq<(Seq<char>, JsonV)>;

    closed spec fn view(&self) -> Seq<(Seq<char>, JsonV)> {
        kv_view(self.buffer@)
    }
}

impl VectorStore {
    pub fn new(backend: VectorBackend) -> (r: Self)
        ensures
            r@.len() == 0,
            r.backend_kind() == backend,
    {
        let r = VectorStore { backend, buffer: Vec::new() };
        proof {
            assert(r@ =~= Seq::<(Seq<char>, JsonV)>::empty());
        }
        r
    }

    pub closed spec fn backend_kind(&self) -> VectorBackend {
        self.backend
    }

    pub fn put(&mut self, key: &str, value: &JsonValue) -> (r: Result<(), MemoryError>)
        ensures
            r is Ok,
            final(self)@ == old(self)@.push((key@, value@)),
    {
        kv_append(&mut self.buffer, key, value);
        Ok(())
    }

    pub fn get(&self, key: &str) -> (r: Result<Option<JsonValue>, MemoryError>)
        ensures
            r matches Ok(o) && match entry_for(self@, key@) {
                Some(i) => o matches Some(v) && v@ == self@[i].1,
                None => o is None,
            },
    {
        Ok(kv_get(&self.buffer, key))
    }

    pub fn search(&self, query: &str) -> (r: Result<Vec<JsonValue>, MemoryError>)
        ensures
            r matches Ok(vs) && crate::json::jv_seq_view(vs@) == search_spec(self@, query@),
    {
        Ok(kv_search(&self.buffer, query))
    }
}

/// A relational-backend cache: what would sit in front of a database
/// file, with the put-replaces semantics of the in-memory store.
#[derive(Debug)]
pub struct SqliteStore {
    connection_string: String,
    cache: Vec<(String, JsonValue)>,
}

impl View for SqliteStore {
    type V = Seq<(Seq<char>, JsonV)>;

    closed spec fn view(&self) -> Seq<(Seq<char>, JsonV)> {
        kv_view(self.cache@)
    }
}

impl SqliteStore {
    pub fn new(connection_string: String) -> (r: Self)
        ensures
            r@.len() == 0,
            r.connection() == connection_string@,
    {
        let r = SqliteStore { connection_string, cache: Vec::new() };
        proof {
            assert(r@ =~= Seq::<(Seq<char>, JsonV)>::empty());
        }
        r
    }

    pub closed spec fn connection(&self) -> Seq<char> {
        self.connection_string@
    }

    pub fn put(&mut self, key: &str, value: &JsonValue) -> (r: Result<(), MemoryError>)
        ensures
            r is Ok,
            final(self).connection() == old(self).connection(),
            final(self)@ == match entry_for(old(self)@, key@) {
                Some(i) => old(self)@.update(i, (key@, value@)),
                None => old(self)@.push((key@, value@)),
            },
    {
        kv_put(&mut self.cache, key, value);
        Ok(())
    }

    pub fn get(&self, key: &str) -> (r: Result<Option<JsonValue>, MemoryError>)
        ensures
            r matches Ok(o) && match entry_for(self@, key@) {
                Some(i) => o matches Some(v) && v@ == self@[i].1,
                None => o is None,
            },
    {
        Ok(kv_get(&self.cache, key))
    }

    pub fn search(&self, query: &str) -> (r: Result<Vec<JsonValue>, MemoryError>)
        ensures
            r matches Ok(vs) && crate::json::jv_seq_view(vs@) == search_spec(self@, query@),
    {
        Ok(kv_search(&self.cache, query))
    }
}

/// A cache-backend store with the same record semantics as the
/// in-memory store.
#[derive(Debug)]
pub struct RedisStore {
    connection_string: String,
    cache: Vec<(String, JsonValue)>,
}

impl View for RedisStore {
    type V = Seq<(Seq<char>, JsonV)>;

    closed spec fn view(&self) -> Seq<(Seq<char>, JsonV)> {
        kv_view(self.cache@)
    }
}

impl RedisStore {
    pub fn new(connection_string: String) -> (r: Self)
        ensures
            r@.len() == 0,
            r.connection() == connection_string@,
    {
        let r = RedisStore { connection_string, cache: Vec::new() };
        proof {
            assert(r@ =~= Seq::<(Seq<char>, JsonV)>::empty());
        }
        r
    }

    pub closed spec fn connection(&self) -> Seq<char> {
        self.connection_string@
    }

    pub fn put(&mut self, key: &str, value: &JsonValue) -> (r: Result<(), MemoryError>)
        ensures
            r is Ok,
            final(self).connection() == old(self).connection(),
            final(self)@ == match entry_for(old(self)@, key@) {
                Some(i) => old(self)@.update(i, (key@, value@)),
                None => old(self)@.push((key@, value@)),
            },
    {
        kv_put(&mut self.cache, key, value);
        Ok(())
    }

    pub fn get(&self, key: &str) -> (r: Result<Option<JsonValue>, MemoryError>)
        ensures
            r matches Ok(o) && match entry_for(self@, key@) {
                Some(i) => o matches Some(v) && v@ == self@[i].1,
                None => o is None,
            },
    {
        Ok(kv_get(&self.cache, key))
    }

    pub fn search(&self, query: &str) -> (r: Result<Vec<JsonValue>, MemoryError>)
        ensures
            r matches Ok(vs) && crate::json::jv_seq_view(vs@) == search_spec(self@, query@),
    {
        Ok(kv_search(&self.cache, query))
    }
}

/// The refusal text a relational store that is not wired up reports.
pub open spec fn postgres_refusal(op: Seq<char>, conn: Seq<char>) -> Seq<char> {
    op + " not implemented for Postgres store ("@ + conn + ")"@
}

/// A placeholder for a relational backend that is not wired up: every
/// operation reports that it is unsupported, naming the connection.
#[derive(Debug)]
pub struct PostgresStore {
    connection_string: String,
}

impl PostgresStore {
    pub fn new(connection_string: String) -> (r: Self)
        ensures
            r.connection() == connection_string@,
    {
        PostgresStore { connection_string }
    }

    pub closed spec fn connection(&self) -> Seq<char> {
        self.connection_string@
    }

    fn refusal(&self, op: &str) -> (r: String)
        ensures
            r@ == postgres_refusal(op@, self.connection()),
    {
        let mut s = String::new();
        s.push_str(op);
        s.push_str(" not implemented for Postgres store (");
        s.push_str(self.connection_string.as_str());
        s.push_str(")");
        proof {
            assert(s@ =~= postgres_refusal(op@, self.connection()));
        }
        s
    }

    pub fn put(&self, key: &str, value: &JsonValue) -> (r: Result<(), MemoryError>)
        ensures
            r matches Err(MemoryError::Unsupported(m)) && m@ == postgres_refusal(
                "write"@,
                self.connection(),
            ),
    {
        Err(MemoryError::Unsupported(self.refusal("write")))
    }

    pub fn get(&self, key: &str) -> (r: Result<Option<JsonValue>, MemoryError>)
        ensures
            r matches Err(MemoryError::Unsupported(m)) && m@ == postgres_refusal(
                "read"@,
                self.connection(),
            ),
    {
        Err(MemoryError::Unsupported(self.refusal("read")))
    }

    pub fn search(&self, query: &str) -> (r: Result<Vec<JsonValue>, MemoryError>)
        ensures
            r matches Err(MemoryError::Unsupported(m)) && m@ == postgres_refusal(
                "search"@,
                self.connection(),
            ),
    {
        Err(MemoryError::Unsupported(self.refusal("search")))
    }
}

} // verus!
