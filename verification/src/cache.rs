//! Cache Store Actor: the sole owner of the embedded key-value store.
//!
//! Every other component reaches the store only through [`ConnAgent`], whose
//! worker serves one request at a time, so reads and writes are never
//! interleaved. The store maps 64-bit fingerprints to complete audio
//! containers; an empty stored value means "known-empty result".

use vstd::prelude::*;

verus! {

/// Storage engine failure, carrying the engine's own status message.
#[derive(Debug, Clone)]
pub struct StorageError {
    pub message: String,
}

/// rusty_leveldb's database handle, used here as an opaque key-value store.
#[verifier::external_type_specification]
#[verifier::external_body]
pub struct ExDb(rusty_leveldb::DB);

/// The entries the store holds, as later reads observe them: each 64-bit
/// fingerprint (stored under its big-endian byte form) maps to the byte
/// sequence last written for it. The contracts below describe the engine
/// while its writes succeed; a failed write can leave an uncommitted entry
/// behind that a later write would expose, so after the first storage
/// failure nothing more is promised of the store and the actor takes it
/// out of service.
pub uninterp spec fn db_contents(db: rusty_leveldb::DB) -> Map<u64, Seq<u8>>;

/// Relies on rusty_leveldb::DB::open with rusty_leveldb::in_memory(): a
/// freshly created, purely in-memory database holds no entries.
#[verifier::external_body]
fn db_open_in_memory(name: &str) -> (r: Result<rusty_leveldb::DB, StorageError>)
    ensures
        match r {
            Ok(db) => db_contents(db) == Map::<u64, Seq<u8>>::empty(),
            Err(_) => true,
        },
{
    match rusty_leveldb::DB::open(name, rusty_leveldb::in_memory()) {
        Ok(db) => Ok(db),
        Err(e) => Err(StorageError { message: e.err }),
    }
}

/// Relies on rusty_leveldb::DB::open with the default options, whose
/// `create_if_missing` is set: it opens or creates the database directory at
/// `path`. The entries are whatever the disk holds, so nothing is promised
/// of the contents; all later operations are stated relative to them.
#[verifier::external_body]
fn db_open_file(path: &str) -> (r: Result<rusty_leveldb::DB, StorageError>) {
    match rusty_leveldb::DB::open(path, rusty_leveldb::Options::default()) {
        Ok(db) => Ok(db),
        Err(e) => Err(StorageError { message: e.err }),
    }
}

/// Relies on rusty_leveldb::DB::put: on success the entry is recorded
/// under the key. Of a failed write nothing is promised — the engine does
/// not commit the batch's sequence number, so the entry is not yet
/// visible, but it may surface once that number is reused.
#[verifier::external_body]
fn db_put(db: &mut rusty_leveldb::DB, key: u64, value: &[u8]) -> (r: Result<(), StorageError>)
    ensures
        r is Ok ==> db_contents(*final(db)) == db_contents(*old(db)).insert(key, value@),
{
    match db.put(&key.to_be_bytes(), value) {
        Ok(()) => Ok(()),
        Err(e) => Err(StorageError { message: e.err }),
    }
}

/// Relies on rusty_leveldb::DB::delete: on success the key is gone; as
/// with `put`, nothing is promised of a failed write.
#[verifier::external_body]
fn db_delete(db: &mut rusty_leveldb::DB, key: u64) -> (r: Result<(), StorageError>)
    ensures
        r is Ok ==> db_contents(*final(db)) == db_contents(*old(db)).remove(key),
{
    match db.delete(&key.to_be_bytes()) {
        Ok(()) => Ok(()),
        Err(e) => Err(StorageError { message: e.err }),
    }
}

/// Relies on rusty_leveldb::DB::flush: it forces buffered log records to the
/// environment and never changes which entries the store holds.
#[verifier::external_body]
fn db_flush(db: &mut rusty_leveldb::DB) -> (r: Result<(), StorageError>)
    ensures
        db_contents(*final(db)) == db_contents(*old(db)),
{
    match db.flush() {
        Ok(()) => Ok(()),
        Err(e) => Err(StorageError { message: e.err }),
    }
}

/// Relies on rusty_leveldb::DB::get: it returns the value last stored under
/// the key, or `None` when the key is absent or deleted. The engine reports
/// a faulted disk read as absent too; this contract states the fault-free
/// reading, which is exact for the in-memory environment.
#[verifier::external_body]
fn db_get(db: &mut rusty_leveldb::DB, key: u64) -> (r: Option<Vec<u8>>)
    ensures
        db_contents(*final(db)) == db_contents(*old(db)),
        r matches Some(v) ==> db_contents(*old(db)).contains_key(key) && v@ == db_contents(
            *old(db),
        )[key],
        r is None ==> !db_contents(*old(db)).contains_key(key),
{
    db.get(&key.to_be_bytes()).map(|b| b.to_vec())
}

/// What a `get` of `key` reports when the store holds `m`: the stored bytes,
/// unless the key is absent or its record is the empty "known-empty" marker.
pub open spec fn lookup(m: Map<u64, Seq<u8>>, key: u64) -> Option<Seq<u8>> {
    if m.contains_key(key) && m[key].len() > 0 {
        Some(m[key])
    } else {
        None
    }
}

/// How `set` with `value` under `key` may move the store from `pre` to
/// `post`, and what it then returns: empty bytes touch nothing and report
/// `Ok(None)`; otherwise success records exactly this entry, flushed. Of a
/// storage failure nothing is said beyond the error itself; the actor then
/// stops serving.
pub open spec fn set_transition(
    pre: Map<u64, Seq<u8>>,
    post: Map<u64, Seq<u8>>,
    key: u64,
    value: Seq<u8>,
    r: Result<Option<()>, StorageError>,
) -> bool {
    &&& value.len() == 0 ==> post == pre && (r matches Ok(o) && o is None)
    &&& value.len() > 0 && r is Ok ==> post == pre.insert(key, value) && (r matches Ok(o)
        && o is Some)
}

/// How `delete` of `key` may move the store from `pre` to `post`: success
/// removes the entry, flushed (removing an absent key is a no-op, not an
/// error). Of a storage failure nothing is said beyond the error itself.
pub open spec fn delete_transition(
    pre: Map<u64, Seq<u8>>,
    post: Map<u64, Seq<u8>>,
    key: u64,
    r: Result<(), StorageError>,
) -> bool {
    r is Ok ==> post == pre.remove(key)
}

/// The store handle. The actor's worker owns exactly one of these for its
/// whole lifetime and serves requests strictly one at a time, which is what
/// makes the sequential contracts below the whole truth about the store.
///
/// The first storage failure poisons the handle: every operation requires a
/// healthy handle, so a store the engine no longer models cannot be used
/// further — the discipline the engine's failure behavior asks for.
pub struct ConnAgent {
    db: rusty_leveldb::DB,
    poisoned: bool,
}

impl View for ConnAgent {
    type V = Map<u64, Seq<u8>>;

    closed spec fn view(&self) -> Map<u64, Seq<u8>> {
        db_contents(self.db)
    }
}

impl ConnAgent {
    /// No storage failure has struck this handle yet; operations demand it.
    pub closed spec fn healthy(&self) -> bool {
        !self.poisoned
    }

    /// Whether the handle is still in service.
    pub fn is_healthy(&self) -> (r: bool)
        ensures
            r == self.healthy(),
    {
        !self.poisoned
    }

    /// Open (or create) the on-disk store at `path`; its entries are
    /// whatever earlier runs left there.
    pub fn open(path: &str) -> (r: Result<ConnAgent, StorageError>)
        ensures
            r matches Ok(agent) ==> agent.healthy(),
    {
        match db_open_file(path) {
            Ok(db) => Ok(ConnAgent { db, poisoned: false }),
            Err(e) => Err(e),
        }
    }

    /// Open a store that lives purely in memory and starts empty.
    pub fn open_in_memory(name: &str) -> (r: Result<ConnAgent, StorageError>)
        ensures
            r matches Ok(agent) ==> agent@ == Map::<u64, Seq<u8>>::empty() && agent.healthy(),
    {
        match db_open_in_memory(name) {
            Ok(db) => Ok(ConnAgent { db, poisoned: false }),
            Err(e) => Err(e),
        }
    }

    /// Record `value` under `key` and flush durably before reporting
    /// `Ok(Some(()))`. Empty bytes are never persisted: the call returns
    /// `Ok(None)` and leaves the store untouched, so a key that was absent
    /// stays absent.
    pub fn set(&mut self, key: u64, value: Vec<u8>) -> (r: Result<Option<()>, StorageError>)
        requires
            old(self).healthy(),
        ensures
            set_transition(old(self)@, final(self)@, key, value@, r),
            final(self).healthy() == !(r is Err),
    {
        if value.len() == 0 {
            return Ok(None);
        }
        match db_put(&mut self.db, key, value.as_slice()) {
            Ok(()) => {},
            Err(e) => {
                self.poisoned = true;
                return Err(e);
            },
        }
        match db_flush(&mut self.db) {
            Ok(()) => Ok(Some(())),
            Err(e) => {
                self.poisoned = true;
                Err(e)
            },
        }
    }

    /// Report the bytes stored under `key`: `None` when the key was never
    /// written, was deleted, or holds the empty "known-empty" marker.
    pub fn get(&mut self, key: u64) -> (r: Option<Vec<u8>>)
        requires
            old(self).healthy(),
        ensures
            final(self).healthy(),
            final(self)@ == old(self)@,
            match r {
                Some(v) => lookup(old(self)@, key) == Some(v@),
                None => lookup(old(self)@, key) is None,
            },
    {
        let ret = match db_get(&mut self.db, key) {
            Some(v) => v,
            None => {
                return None;
            },
        };
        if ret.len() == 0 {
            return None;
        }
        Some(ret)
    }

    /// Remove the entry for `key`, if any, and flush durably; an absent key
    /// is not an error.
    pub fn delete(&mut self, key: u64) -> (r: Result<(), StorageError>)
        requires
            old(self).healthy(),
        ensures
            delete_transition(old(self)@, final(self)@, key, r),
            final(self).healthy() == (r is Ok),
    {
        match db_delete(&mut self.db, key) {
            Ok(()) => {},
            Err(e) => {
                self.poisoned = true;
                return Err(e);
            },
        }
        match db_flush(&mut self.db) {
            Ok(()) => Ok(()),
            Err(e) => {
                self.poisoned = true;
                Err(e)
            },
        }
    }
}

/// One request to the Cache Store Actor's worker.
pub enum DatabaseEvent {
    Store(u64, Vec<u8>),
    Fetch(u64),
    Remove(u64),
    Exit,
}

/// The worker's answer to one request; `Exit` is answered by silence.
pub enum DatabaseReply {
    Stored(Result<Option<()>, StorageError>),
    Fetched(Option<Vec<u8>>),
    Removed(Result<(), StorageError>),
}

impl ConnAgent {
    /// Serve one request of the actor's mailbox. Returns the reply owed to
    /// the requester, and whether the processing loop keeps running: an
    /// explicit `Exit` stops it, and so does a storage failure — the error
    /// is still replied to its requester, but the store is taken out of
    /// service and the failure surfaces at the worker's join point.
    pub fn apply(&mut self, event: DatabaseEvent) -> (r: (Option<DatabaseReply>, bool))
        requires
            old(self).healthy(),
        ensures
            r.1 ==> final(self).healthy(),
            match event {
                DatabaseEvent::Store(key, value) => {
                    &&& r.0 matches Some(DatabaseReply::Stored(res)) && set_transition(
                        old(self)@,
                        final(self)@,
                        key,
                        value@,
                        res,
                    ) && r.1 == (res is Ok)
                },
                DatabaseEvent::Fetch(key) => {
                    &&& r.1 == true
                    &&& final(self)@ == old(self)@
                    &&& r.0 matches Some(DatabaseReply::Fetched(res)) && match res {
                        Some(v) => lookup(old(self)@, key) == Some(v@),
                        None => lookup(old(self)@, key) is None,
                    }
                },
                DatabaseEvent::Remove(key) => {
                    &&& r.0 matches Some(DatabaseReply::Removed(res)) && delete_transition(
                        old(self)@,
                        final(self)@,
                        key,
                        res,
                    ) && r.1 == (res is Ok)
                },
                DatabaseEvent::Exit => r.0 is None && r.1 == false && final(self)@ == old(self)@
                    && final(self).healthy(),
            },
    {
        match event {
            DatabaseEvent::Store(key, value) => {
                let res = self.set(key, value);
                let keep_running = res.is_ok();
                (Some(DatabaseReply::Stored(res)), keep_running)
            },
            DatabaseEvent::Fetch(key) => {
                let res = self.get(key);
                (Some(DatabaseReply::Fetched(res)), true)
            },
            DatabaseEvent::Remove(key) => {
                let res = self.delete(key);
                let keep_running = res.is_ok();
                (Some(DatabaseReply::Removed(res)), keep_running)
            },
            DatabaseEvent::Exit => (None, false),
        }
    }
}

/// Storing the same non-empty bytes twice is the same as storing them once,
/// and a `get` of that key afterwards yields exactly those bytes.
pub proof fn lemma_set_idempotent(m: Map<u64, Seq<u8>>, key: u64, value: Seq<u8>)
    requires
        value.len() > 0,
    ensures
        m.insert(key, value).insert(key, value) == m.insert(key, value),
        lookup(m.insert(key, value).insert(key, value), key) == Some(value),
{
    assert(m.insert(key, value).insert(key, value) =~= m.insert(key, value));
}

/// After a `delete` of a key, a `get` of that key reports it absent.
pub proof fn lemma_delete_then_absent(m: Map<u64, Seq<u8>>, key: u64)
    ensures
        lookup(m.remove(key), key) is None,
{
}

/// A fingerprint that was never written reads back as absent — not as an
/// error, and not as an empty record.
pub proof fn lemma_never_written_reads_absent(m: Map<u64, Seq<u8>>, key: u64)
    requires
        !m.contains_key(key),
    ensures
        lookup(m, key) is None,
{
}

} // verus!
