//! The shadow store: the authoritative path-to-row table over an
//! embedded keyed backing store, with per-path lock tokens.
//!
//! Rows are serialized with the fixed binary encoding of `codec` before
//! insertion; a read decodes and must consume exactly the stored byte
//! length, anything else being an integrity error fatal to that read.
//! The backing store is reached only through the trusted wrappers of
//! `StoreDb`, whose contracts speak of the abstract map `db_view`.

use vstd::prelude::*;
use vstd::string::StringExecFns;
use crate::codec::{dec_signal, enc_signal, decode_signal, encode_signal};
use crate::error::VehicleShadowError;
use crate::signal::{Signal, SignalModel, StateModel};

verus! {

/// A handle on the embedded keyed backing store. Holds the open
/// database; all access goes through the trusted wrappers below, whose
/// contracts speak of `db_view`.
#[verifier::external_body]
pub struct StoreDb {
    db: sled::Db,
}

/// What the backing store holds: a map from path to stored bytes.
pub uninterp spec fn db_view(db: StoreDb) -> Map<Seq<char>, Seq<u8>>;

impl StoreDb {
    /// Relies on sled::Config::temporary(true).open(): a temporary
    /// database starts empty and is removed when dropped.
    #[verifier::external_body]
    fn open_temp() -> (r: Result<StoreDb, VehicleShadowError>)
        ensures
            (r matches Result::Ok(db) ==> db_view(db) == Map::<Seq<char>, Seq<u8>>::empty()),
    {
        match sled::Config::new().temporary(true).open() {
            Ok(db) => Ok(StoreDb { db }),
            Err(e) => Err(VehicleShadowError::Database(e.to_string())),
        }
    }

    /// Relies on sled::Config::path(..).open(): opens or creates the
    /// database at the given directory. What an existing database holds
    /// is whatever was last written there, so nothing is promised of the
    /// contents.
    #[verifier::external_body]
    fn open_at(path: &str) -> (r: Result<StoreDb, VehicleShadowError>)
    {
        match sled::Config::new().path(path).open() {
            Ok(db) => Ok(StoreDb { db }),
            Err(e) => Err(VehicleShadowError::Database(e.to_string())),
        }
    }

    /// Relies on sled::Tree::insert: on success the key maps to the
    /// given value and nothing else changes; an error commits no write.
    #[verifier::external_body]
    fn insert(&mut self, key: &String, value: &Vec<u8>) -> (r: Result<(), VehicleShadowError>)
        ensures
            (r matches Result::Ok(()) ==> db_view(*final(self)) == db_view(*old(self)).insert(
                key@,
                value@,
            )),
            (r is Err ==> db_view(*final(self)) == db_view(*old(self))),
            (r matches Result::Err(e) ==> e is Database),
    {
        match self.db.insert(key.as_bytes(), value.as_slice()) {
            Ok(_) => Ok(()),
            Err(e) => Err(VehicleShadowError::Database(e.to_string())),
        }
    }

    /// Relies on sled::Tree::get: returns the value stored under the
    /// key, or nothing where the key is absent.
    #[verifier::external_body]
    fn get(&self, key: &String) -> (r: Result<Option<Vec<u8>>, VehicleShadowError>)
        ensures
            (r matches Result::Ok(o) ==> match o {
                Option::Some(v) => db_view(*self).contains_key(key@) && v@ == db_view(*self)[key@],
                Option::None => !db_view(*self).contains_key(key@),
            }),
            (r matches Result::Err(e) ==> e is Database),
    {
        match self.db.get(key.as_bytes()) {
            Ok(Some(v)) => Ok(Some(v.to_vec())),
            Ok(None) => Ok(None),
            Err(e) => Err(VehicleShadowError::Database(e.to_string())),
        }
    }

    /// Relies on sled::Tree::remove: on success the key is absent and
    /// nothing else changes; an error commits no write.
    #[verifier::external_body]
    fn remove(&mut self, key: &String) -> (r: Result<(), VehicleShadowError>)
        ensures
            (r matches Result::Ok(()) ==> db_view(*final(self)) == db_view(*old(self)).remove(
                key@,
            )),
            (r is Err ==> db_view(*final(self)) == db_view(*old(self))),
            (r matches Result::Err(e) ==> e is Database),
    {
        match self.db.remove(key.as_bytes()) {
            Ok(_) => Ok(()),
            Err(e) => Err(VehicleShadowError::Database(e.to_string())),
        }
    }

    /// Relies on sled::Tree::clear: on success the store holds nothing.
    #[verifier::external_body]
    fn clear(&mut self) -> (r: Result<(), VehicleShadowError>)
        ensures
            (r matches Result::Ok(()) ==> db_view(*final(self)) == Map::<
                Seq<char>,
                Seq<u8>,
            >::empty()),
            (r matches Result::Err(e) ==> e is Database),
    {
        match self.db.clear() {
            Ok(()) => Ok(()),
            Err(e) => Err(VehicleShadowError::Database(e.to_string())),
        }
    }

    /// Relies on sled::Tree::iter: yields every stored pair exactly
    /// once, in ascending key order (the tree iterates its keys in byte
    /// order, which on UTF-8 text is scalar order). A key that is not a
    /// text fails the read.
    #[verifier::external_body]
    fn entries(&self) -> (r: Result<Vec<(String, Vec<u8>)>, VehicleShadowError>)
        ensures
            (r matches Result::Ok(v) ==> {
                &&& forall|i: int| #![trigger v@[i]] 0 <= i < v@.len() ==> db_view(
                    *self,
                ).contains_pair(v@[i].0@, v@[i].1@)
                &&& forall|i: int, j: int| 0 <= i < j < v@.len() ==> v@[i].0@ != v@[j].0@
                &&& forall|i: int, j: int| 0 <= i < j < v@.len() ==> lex_before(
                    v@[i].0@,
                    v@[j].0@,
                )
                &&& forall|k: Seq<char>| db_view(*self).contains_key(k) ==> exists|i: int|
                    0 <= i < v@.len() && (#[trigger] v@[i].0)@ == k
            }),
            (r matches Result::Err(e) ==> e is Database || e is Serialization),
    {
        let mut out = Vec::new();
        for item in self.db.iter() {
            let (k, v) = item.map_err(|e| VehicleShadowError::Database(e.to_string()))?;
            let key = String::from_utf8(k.to_vec()).map_err(
                |e| VehicleShadowError::Serialization(e.to_string()),
            )?;
            out.push((key, v.to_vec()));
        }
        Ok(out)
    }
}

/// Strict lexicographic order on texts by character scalar value: the
/// order the backing store keeps its keys in, since ascending UTF-8
/// byte order coincides with ascending scalar order.
pub open spec fn lex_before(a: Seq<char>, b: Seq<char>) -> bool
    decreases a.len(),
{
    if b.len() == 0 {
        false
    } else if a.len() == 0 {
        true
    } else if (a[0] as u32) < (b[0] as u32) {
        true
    } else if (a[0] as u32) > (b[0] as u32) {
        false
    } else {
        lex_before(a.drop_first(), b.drop_first())
    }
}

/// The row stored in a byte string, where the bytes are a row encoding
/// consumed exactly; `None` where they are anything else.
pub open spec fn row_of(bytes: Seq<u8>) -> Option<SignalModel> {
    match dec_signal(bytes, 0) {
        Option::Some((sm, n)) => if n == bytes.len() {
            Option::Some(sm)
        } else {
            Option::None
        },
        Option::None => Option::None,
    }
}

/// A row with its lock token replaced.
pub open spec fn with_lock(sm: SignalModel, lock: Option<Seq<char>>) -> SignalModel {
    SignalModel {
        state: StateModel { lock_token: lock, ..sm.state },
        ..sm
    }
}

/// Whether a write carrying the given token is refused by the stored
/// row's lock: only a tokened write against a row locked under a
/// different token conflicts. A write with no token is accepted
/// unconditionally, an explicit administrative override.
pub open spec fn lock_conflict(stored: Option<SignalModel>, token: Option<Seq<char>>) -> bool {
    match (stored, token) {
        (Option::Some(sm), Option::Some(t)) => match sm.state.lock_token {
            Option::Some(x) => x != t,
            Option::None => false,
        },
        _ => false,
    }
}

/// Whether a sequence of paths names the keys of the map exactly: each
/// entry is a stored key, no key repeats, and every stored key appears.
pub open spec fn path_listing(m: Map<Seq<char>, Seq<u8>>, v: Seq<String>) -> bool {
    &&& forall|i: int| 0 <= i < v.len() ==> m.contains_key((#[trigger] v[i])@)
    &&& forall|i: int, j: int| 0 <= i < j < v.len() ==> v[i]@ != v[j]@
    &&& forall|key: Seq<char>| m.contains_key(key) ==> exists|i: int| 0 <= i < v.len() && (
    #[trigger] v[i])@ == key
}

/// A freshly encoded row reads back as itself, consuming its exact
/// length.
pub proof fn lemma_row_of_enc(sm: SignalModel)
    requires
        crate::codec::wf_signal(sm),
    ensures
        row_of(enc_signal(sm)) == Option::Some(sm),
{
    let b = enc_signal(sm);
    assert(b.skip(0) =~= b + Seq::<u8>::empty());
    crate::codec::lemma_dec_signal(b, 0, sm, Seq::<u8>::empty());
}

/// Writes are not deduplicated: storing the same signal twice leaves
/// exactly the store that one write leaves, and the row reads back as
/// the written signal after either write; each write is a full
/// overwrite in its own right, so each one also reaches subscribers as
/// a notification of its own.
pub proof fn lemma_set_idempotent(m: Map<Seq<char>, Seq<u8>>, sm: SignalModel)
    requires
        crate::codec::wf_signal(sm),
    ensures
        ({
            let once = m.insert(sm.path, enc_signal(sm));
            let twice = once.insert(sm.path, enc_signal(sm));
            &&& twice == once
            &&& row_of(once[sm.path]) == Option::Some(sm)
        }),
{
    let once = m.insert(sm.path, enc_signal(sm));
    let twice = once.insert(sm.path, enc_signal(sm));
    assert(twice =~= once);
    lemma_row_of_enc(sm);
}

/// The shadow store: one signal per path, mutated in place.
pub struct VehicleShadow {
    db: StoreDb,
}

impl View for VehicleShadow {
    type V = Map<Seq<char>, Seq<u8>>;

    closed spec fn view(&self) -> Map<Seq<char>, Seq<u8>> {
        db_view(self.db)
    }
}

/// Decodes a stored row, enforcing that the row occupies the stored
/// byte length exactly: a shorter parse is an integrity error.
fn decode_row(bytes: &Vec<u8>) -> (r: Result<Signal, VehicleShadowError>)
    ensures
        (r matches Result::Ok(sig) ==> row_of(bytes@) == Option::Some(sig@)),
        (r matches Result::Err(e) ==> row_of(bytes@) is None && (e is Serialization || e
            is Database)),
{
    match decode_signal(bytes) {
        Result::Ok((sig, used)) => {
            if used == bytes.len() {
                Result::Ok(sig)
            } else {
                Result::Err(
                    VehicleShadowError::Database("stored row length mismatch".to_owned()),
                )
            }
        },
        Result::Err(_) => Result::Err(
            VehicleShadowError::Serialization("malformed stored row".to_owned()),
        ),
    }
}

impl VehicleShadow {
    /// Opens a fresh, empty, temporary store.
    pub fn create() -> (r: Result<VehicleShadow, VehicleShadowError>)
        ensures
            (r matches Result::Ok(s) ==> s@ == Map::<Seq<char>, Seq<u8>>::empty()),
    {
        match StoreDb::open_temp() {
            Result::Ok(db) => Result::Ok(VehicleShadow { db }),
            Result::Err(e) => Result::Err(e),
        }
    }

    /// Opens the store persisted at the given directory. An existing
    /// database keeps whatever rows were last written there.
    pub fn create_with_path(path: &str) -> (r: Result<VehicleShadow, VehicleShadowError>) {
        match StoreDb::open_at(path) {
            Result::Ok(db) => Result::Ok(VehicleShadow { db }),
            Result::Err(e) => Result::Err(e),
        }
    }

    /// Overwrites the full row under the signal's path.
    ///
    /// A write carrying a token is checked against the stored row's
    /// lock: it is refused where the row is locked under another token
    /// (the refusal's own message reads `lock conflict`, though the
    /// contract pins only the kind, since the variant is shared with
    /// backing-store failures), and fails where the row is absent or
    /// unreadable. A write with no token never checks the lock and may
    /// create the row.
    pub fn set_signal(&mut self, signal: Signal, token: &Option<String>) -> (r: Result<
        (),
        VehicleShadowError,
    >)
        ensures
            (r matches Result::Ok(()) ==> final(self)@ == old(self)@.insert(
                signal.path@,
                enc_signal(signal@),
            ) && row_of(enc_signal(signal@)) == Option::Some(signal@) && !lock_conflict(
                match old(self)@.contains_key(signal.path@) {
                    true => row_of(old(self)@[signal.path@]),
                    false => Option::None,
                },
                crate::signal::opt_str_view(*token),
            )),
            (r is Err ==> final(self)@ == old(self)@),
            (r matches Result::Err(e) && e is NotFound ==> token is Some && !old(self)@.contains_key(signal.path@)),
            (token is Some && old(self)@.contains_key(signal.path@) && lock_conflict(
                row_of(old(self)@[signal.path@]),
                crate::signal::opt_str_view(*token),
            ) ==> (r matches Result::Err(e) && e is Database)),
    {
        if let Option::Some(t) = token {
            let current = match self.get_signal(signal.path.clone()) {
                Result::Ok(sig) => sig,
                Result::Err(e) => {
                    return Result::Err(e);
                },
            };
            let conflict = match &current.state.lock_token {
                Option::Some(x) => !x.eq(t),
                Option::None => false,
            };
            if conflict {
                return Result::Err(
                    VehicleShadowError::Database("lock conflict".to_owned()),
                );
            }
        }
        let encoded = encode_signal(&signal);
        proof {
            lemma_row_of_enc(signal@);
        }
        self.db.insert(&signal.path, &encoded)
    }

    /// Reads the row under a path. Fails as not found where the path is
    /// absent; an unreadable stored row is an integrity error.
    pub fn get_signal(&self, path: String) -> (r: Result<Signal, VehicleShadowError>)
        ensures
            (r matches Result::Ok(sig) ==> self@.contains_key(path@) && row_of(self@[path@])
                == Option::Some(sig@)),
            (r matches Result::Err(e) ==> (e matches VehicleShadowError::NotFound(m)
                ==> !self@.contains_key(path@) && m@ == "Signal not found: "@ + path@)),
            (r matches Result::Err(e) && e is Serialization ==> self@.contains_key(path@)
                && row_of(self@[path@]) is None),
            (!self@.contains_key(path@) ==> r is Err),
            (self@.contains_key(path@) ==> (row_of(self@[path@]) matches Option::Some(sm) ==> ((
            r matches Result::Ok(sig) && sig@ == sm) || (r matches Result::Err(e) && e
                is Database)))),
            (r matches Result::Err(e) ==> e is NotFound || e is Serialization || e is Database),
    {
        match self.db.get(&path) {
            Result::Ok(Option::Some(bytes)) => decode_row(&bytes),
            Result::Ok(Option::None) => {
                let mut m = "Signal not found: ".to_owned();
                m.append(path.as_str());
                Result::Err(VehicleShadowError::NotFound(m))
            },
            Result::Err(e) => Result::Err(e),
        }
    }

    /// Decides whether the row under a path is locked under any token.
    /// Fails as not found where the path is absent.
    pub fn is_locked(&self, path: String) -> (r: Result<bool, VehicleShadowError>)
        ensures
            (r matches Result::Ok(b) ==> self@.contains_key(path@) && (row_of(self@[path@])
                matches Option::Some(sm) && b == (sm.state.lock_token is Some))),
            (r matches Result::Err(e) ==> (e matches VehicleShadowError::NotFound(m)
                ==> !self@.contains_key(path@) && m@ == "Signal not found: "@ + path@)),
            (r matches Result::Err(e) && e is Serialization ==> self@.contains_key(path@)
                && row_of(self@[path@]) is None),
            (!self@.contains_key(path@) ==> r is Err),
    {
        match self.get_signal(path) {
            Result::Ok(sig) => Result::Ok(
                match &sig.state.lock_token {
                    Option::Some(_) => true,
                    Option::None => false,
                },
            ),
            Result::Err(e) => Result::Err(e),
        }
    }

    /// Locks the row under a path for the given token.
    ///
    /// The lock is not reentrant: a row already locked under any token,
    /// the same one included, refuses. An absent path fails as not
    /// found. On success the stored row carries the token as its lock.
    pub fn try_lock(&mut self, path: String, lock_uuid: &String) -> (r: Result<
        (),
        VehicleShadowError,
    >)
        ensures
            (r matches Result::Ok(()) ==> {
                &&& old(self)@.contains_key(path@)
                &&& row_of(old(self)@[path@]) matches Option::Some(sm) && sm.state.lock_token
                    is None && final(self)@ == old(self)@.insert(
                    path@,
                    enc_signal(with_lock(sm, Option::Some(lock_uuid@))),
                ) && row_of(enc_signal(with_lock(sm, Option::Some(lock_uuid@))))
                    == Option::Some(with_lock(sm, Option::Some(lock_uuid@)))
            }),
            (r is Err ==> final(self)@ == old(self)@),
            (r matches Result::Err(e) && e is NotFound ==> !old(self)@.contains_key(path@)),
            (old(self)@.contains_key(path@) && (row_of(old(self)@[path@])
                matches Option::Some(sm) && sm.state.lock_token is Some) ==> r is Err),
    {
        let current = match self.get_signal(path.clone()) {
            Result::Ok(sig) => sig,
            Result::Err(e) => {
                return Result::Err(e);
            },
        };
        if let Option::Some(_) = &current.state.lock_token {
            let mut m = "Signal already locked: ".to_owned();
            m.append(path.as_str());
            return Result::Err(VehicleShadowError::Database(m));
        }
        let locked = Signal {
            path: current.path,
            state: crate::signal::State {
                value: current.state.value,
                capability: current.state.capability,
                availability: current.state.availability,
                lock_token: Option::Some(lock_uuid.clone()),
                reserved: current.state.reserved,
            },
            config: current.config,
        };
        let encoded = encode_signal(&locked);
        let r = self.db.insert(&path, &encoded);
        proof {
            if r is Ok {
                assert(locked@ =~= with_lock(
                    row_of(old(self)@[path@])->Some_0,
                    Option::Some(lock_uuid@),
                ));
                lemma_row_of_enc(locked@);
            }
        }
        r
    }

    /// Locks every given path for the token, or none on a failed
    /// pre-check.
    ///
    /// All paths are probed first; if any is already locked or cannot be
    /// read, the whole batch fails with nothing acquired. Acquisition
    /// after a passing probe is not atomic: a failure partway leaves the
    /// locks taken so far in place, as does a race between probe and
    /// acquire.
    #[verifier::rlimit(100)]
    #[verifier::spinoff_prover]
    pub fn try_locks(&mut self, paths: Vec<String>, lock_uuid: &String) -> (r: Result<
        (),
        VehicleShadowError,
    >)
        ensures
            (r matches Result::Ok(()) ==> {
                &&& final(self)@.dom() == old(self)@.dom()
                &&& forall|k: int| 0 <= k < paths@.len() ==> old(self)@.contains_key(
                    (#[trigger] paths@[k])@,
                ) && (row_of(old(self)@[paths@[k]@]) matches Option::Some(osm)
                    && osm.state.lock_token is None && row_of(final(self)@[paths@[k]@])
                    == Option::Some(with_lock(osm, Option::Some(lock_uuid@))))
                &&& forall|key: Seq<char>| old(self)@.contains_key(key) && (forall|k: int|
                    0 <= k < paths@.len() ==> (#[trigger] paths@[k])@ != key) ==> final(self)@[key] == old(self)@[key]
            }),
            ((exists|k: int| 0 <= k < paths@.len() && old(self)@.contains_key(
                (#[trigger] paths@[k])@,
            ) && (row_of(old(self)@[paths@[k]@]) matches Option::Some(sm)
                && sm.state.lock_token is Some)) ==> r is Err && final(self)@ == old(self)@),
            ((exists|k: int| 0 <= k < paths@.len() && !old(self)@.contains_key(
                (#[trigger] paths@[k])@,
            )) ==> r is Err && final(self)@ == old(self)@),
    {
        let n = paths.len();
        let mut i: usize = 0;
        while i < n
            invariant
                n == paths@.len(),
                i <= n,
                self@ == old(self)@,
                forall|j: int| 0 <= j < i ==> !(old(self)@.contains_key((#[trigger] paths@[j])@)
                    && (row_of(old(self)@[paths@[j]@]) matches Option::Some(sm)
                    && sm.state.lock_token is Some)),
                forall|j: int| 0 <= j < i ==> old(self)@.contains_key((#[trigger] paths@[j])@),
            decreases n - i,
        {
            let locked = match self.is_locked(paths[i].clone()) {
                Result::Ok(b) => b,
                Result::Err(_) => true,
            };
            if locked {
                return Result::Err(
                    VehicleShadowError::NotFound(
                        "Some of signals are already locked".to_owned(),
                    ),
                );
            }
            i = i + 1;
        }
        proof {
            assert(forall|k: int| 0 <= k < paths@.len() ==> !(old(self)@.contains_key(
                (#[trigger] paths@[k])@,
            ) && (row_of(old(self)@[paths@[k]@]) matches Option::Some(sm)
                && sm.state.lock_token is Some)));
            assert(forall|k: int| 0 <= k < paths@.len() ==> old(self)@.contains_key(
                (#[trigger] paths@[k])@,
            ));
        }
        let mut i: usize = 0;
        while i < n
            invariant
                n == paths@.len(),
                i <= n,
                self@.dom() == old(self)@.dom(),
                forall|k: int| 0 <= k < n ==> !(old(self)@.contains_key(
                    (#[trigger] paths@[k])@,
                ) && (row_of(old(self)@[paths@[k]@]) matches Option::Some(sm)
                    && sm.state.lock_token is Some)),
                forall|k: int| 0 <= k < n ==> old(self)@.contains_key((#[trigger] paths@[k])@),
                forall|k: int| 0 <= k < i ==> old(self)@.contains_key((#[trigger] paths@[k])@)
                    && (row_of(old(self)@[paths@[k]@]) matches Option::Some(osm)
                    && osm.state.lock_token is None && row_of(self@[paths@[k]@]) == Option::Some(
                    with_lock(osm, Option::Some(lock_uuid@)),
                )),
                forall|key: Seq<char>| old(self)@.contains_key(key) && (forall|k: int|
                    0 <= k < i ==> (#[trigger] paths@[k])@ != key) ==> self@[key] == old(self)@[key],
            decreases n - i,
        {
            let ghost prev = self@;
            match self.try_lock(paths[i].clone(), lock_uuid) {
                Result::Ok(()) => {
                    proof {
                        assert(self@.dom() =~= prev.dom());
                        let pk = paths@[i as int]@;
                        assert forall|j: int| 0 <= j < i implies (#[trigger] paths@[j])@
                            != pk by {
                            if paths@[j]@ == pk {
                                assert(row_of(prev[pk]) == Option::Some(
                                    with_lock(
                                        row_of(old(self)@[pk])->Some_0,
                                        Option::Some(lock_uuid@),
                                    ),
                                ));
                            }
                        }
                        assert(prev[pk] == old(self)@[pk]);
                    }
                },
                Result::Err(e) => {
                    return Result::Err(e);
                },
            }
            i = i + 1;
        }
        Result::Ok(())
    }

    /// Clears the lock on every row held under the given token; rows
    /// held under other tokens, and unlocked rows, are untouched.
    ///
    /// Every stored row must be readable; an unreadable row fails the
    /// sweep partway, leaving rows already swept cleared.
    pub fn release_lock(&mut self, lock_uuid: &String) -> (r: Result<(), VehicleShadowError>)
        ensures
            (r matches Result::Ok(()) ==> {
                &&& final(self)@.dom() == old(self)@.dom()
                &&& forall|key: Seq<char>| #![trigger old(self)@.contains_key(key)] old(self)@.contains_key(key) ==> (row_of(old(self)@[key]) matches Option::Some(sm) && (
                (sm.state.lock_token == Option::Some(lock_uuid@) && row_of(final(self)@[key])
                    == Option::Some(with_lock(sm, Option::None))) || (sm.state.lock_token
                    != Option::Some(lock_uuid@) && final(self)@[key] == old(self)@[key])))
            }),
    {
        let items = match self.db.entries() {
            Result::Ok(v) => v,
            Result::Err(e) => {
                return Result::Err(e);
            },
        };
        let n = items.len();
        let mut i: usize = 0;
        while i < n
            invariant
                n == items@.len(),
                i <= n,
                self@.dom() == old(self)@.dom(),
                forall|j: int| #![trigger items@[j]] 0 <= j < n ==> old(self)@.contains_pair(
                    items@[j].0@,
                    items@[j].1@,
                ),
                forall|j: int, k: int| 0 <= j < k < n ==> items@[j].0@ != items@[k].0@,
                forall|key: Seq<char>| old(self)@.contains_key(key) ==> exists|j: int|
                    0 <= j < n && (#[trigger] items@[j].0)@ == key,
                forall|j: int| #![trigger items@[j]] 0 <= j < i ==> (row_of(items@[j].1@)
                    matches Option::Some(sm) && ((sm.state.lock_token == Option::Some(lock_uuid@)
                    && row_of(self@[items@[j].0@]) == Option::Some(with_lock(sm, Option::None)))
                    || (sm.state.lock_token != Option::Some(lock_uuid@) && self@[items@[j].0@]
                    == old(self)@[items@[j].0@]))),
                forall|j: int| #![trigger items@[j]] i <= j < n ==> self@[items@[j].0@] == old(self)@[items@[j].0@],
            decreases n - i,
        {
            let bytes = clone_bytes(&items[i].1);
            let current = match decode_row(&bytes) {
                Result::Ok(sig) => sig,
                Result::Err(e) => {
                    return Result::Err(e);
                },
            };
            let matches_token = match &current.state.lock_token {
                Option::Some(x) => x.eq(lock_uuid),
                Option::None => false,
            };
            if matches_token {
                let cleared = Signal {
                    path: current.path,
                    state: crate::signal::State {
                        value: current.state.value,
                        capability: current.state.capability,
                        availability: current.state.availability,
                        lock_token: Option::None,
                        reserved: current.state.reserved,
                    },
                    config: current.config,
                };
                let encoded = encode_signal(&cleared);
                let ghost prev = self@;
                match self.db.insert(&items[i].0, &encoded) {
                    Result::Ok(()) => {
                        proof {
                            assert(self@.dom() =~= prev.dom());
                            assert(cleared@ =~= with_lock(
                                row_of(items@[i as int].1@)->Some_0,
                                Option::None,
                            ));
                            lemma_row_of_enc(cleared@);
                        }
                    },
                    Result::Err(e) => {
                        return Result::Err(e);
                    },
                }
            }
            i = i + 1;
        }
        Result::Ok(())
    }

    /// Lists the stored paths, in ascending lexicographic order: every
    /// stored path exactly once, so the listing is stable for a given
    /// store content.
    #[verifier::rlimit(100)]
    #[verifier::spinoff_prover]
    pub fn list_signals(&self) -> (r: Result<Vec<String>, VehicleShadowError>)
        ensures
            (r matches Result::Ok(v) ==> path_listing(self@, v@)),
            (r matches Result::Ok(v) ==> forall|i: int, j: int|
                0 <= i < j < v@.len() ==> lex_before((#[trigger] v@[i])@, (#[trigger] v@[j])@)),
    {
        let items = match self.db.entries() {
            Result::Ok(v) => v,
            Result::Err(e) => {
                return Result::Err(e);
            },
        };
        let mut paths: Vec<String> = Vec::new();
        let n = items.len();
        let mut i: usize = 0;
        while i < n
            invariant
                n == items@.len(),
                i <= n,
                paths@.len() == i,
                forall|j: int| #![trigger items@[j]] 0 <= j < n ==> self@.contains_pair(
                    items@[j].0@,
                    items@[j].1@,
                ),
                forall|j: int, k: int| 0 <= j < k < n ==> items@[j].0@ != items@[k].0@,
                forall|key: Seq<char>| self@.contains_key(key) ==> exists|j: int|
                    0 <= j < n && (#[trigger] items@[j].0)@ == key,
                forall|j: int| 0 <= j < i ==> (#[trigger] paths@[j])@ == items@[j].0@,
            decreases n - i,
        {
            paths.push(items[i].0.clone());
            i = i + 1;
        }
        proof {
            assert forall|i: int| 0 <= i < paths@.len() implies self@.contains_key(
                (#[trigger] paths@[i])@,
            ) by {
                assert(self@.contains_pair(items@[i].0@, items@[i].1@));
            }
            assert forall|i: int, j: int| 0 <= i < j < paths@.len() implies paths@[i]@
                != paths@[j]@ by {
                assert(paths@[i]@ == items@[i].0@);
                assert(paths@[j]@ == items@[j].0@);
            }
            assert forall|key: Seq<char>| self@.contains_key(key) implies exists|i: int|
                0 <= i < paths@.len() && (#[trigger] paths@[i])@ == key by {
                let j = choose|j: int| 0 <= j < n && (#[trigger] items@[j].0)@ == key;
                assert(paths@[j]@ == key);
            }
            assert(path_listing(self@, paths@));
            assert forall|i: int, j: int| 0 <= i < j < paths@.len() implies lex_before(
                (#[trigger] paths@[i])@,
                (#[trigger] paths@[j])@,
            ) by {
                assert(paths@[i]@ == items@[i].0@);
                assert(paths@[j]@ == items@[j].0@);
            }
        }
        Result::Ok(paths)
    }

    /// Removes the row under a path; removing an absent path is a
    /// no-op.
    pub fn delete_signal(&mut self, path: &str) -> (r: Result<(), VehicleShadowError>)
        ensures
            (r matches Result::Ok(()) ==> final(self)@ == old(self)@.remove(path@)),
            (r is Err ==> final(self)@ == old(self)@),
    {
        let key = path.to_owned();
        self.db.remove(&key)
    }

    /// Removes every row.
    pub fn clear(&mut self) -> (r: Result<(), VehicleShadowError>)
        ensures
            (r matches Result::Ok(()) ==> final(self)@ == Map::<Seq<char>, Seq<u8>>::empty()),
    {
        self.db.clear()
    }
}

/// Copies a byte vector.
fn clone_bytes(v: &Vec<u8>) -> (r: Vec<u8>)
    ensures
        r@ == v@,
{
    crate::signal::clone_prim_vec(v)
}

} // verus!
