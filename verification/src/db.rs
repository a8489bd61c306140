use vstd::prelude::*;
use vstd::string::StringSliceAdditionalSpecFns;
use core::marker::PhantomData;
use crate::codec::{self, Record, record_bytes, is_record_bytes, read_value};
use crate::keys::{self, AuthToken, LinkToken, OrgKey, SectionKey, UserKey};
use crate::store::{self, bytes_lt, db_contents};

verus! {

/// A failure of the database.
#[derive(Debug)]
pub enum StoreError {
    DeserializeError(Box<bincode::ErrorKind>),
    /// The stored bytes decode to numbers and texts that denote no value.
    SerializeError(Box<bincode::ErrorKind>),
    DbError(sled::Error),
}

/// A key under which values are stored, and the bytes it is stored as.
pub trait StoreKey {
    /// The bytes of the key.
    spec fn key_bytes(&self) -> Seq<u8>;

    /// The bytes of the key.
    fn to_key_bytes(&self) -> (res: Vec<u8>)
        ensures
            res@ == self.key_bytes(),
    ;
}

impl StoreKey for str {
    open spec fn key_bytes(&self) -> Seq<u8> {
        self.spec_bytes()
    }

    fn to_key_bytes(&self) -> (res: Vec<u8>) {
        vstd::slice::slice_to_vec(self.as_bytes())
    }
}

impl StoreKey for UserKey {
    open spec fn key_bytes(&self) -> Seq<u8> {
        keys::be_bytes(self.0)
    }

    fn to_key_bytes(&self) -> (res: Vec<u8>) {
        self.as_bytes()
    }
}

impl StoreKey for OrgKey {
    open spec fn key_bytes(&self) -> Seq<u8> {
        keys::be_bytes(self.0)
    }

    fn to_key_bytes(&self) -> (res: Vec<u8>) {
        self.as_bytes()
    }
}

impl StoreKey for SectionKey {
    open spec fn key_bytes(&self) -> Seq<u8> {
        keys::be_bytes(self.0)
    }

    fn to_key_bytes(&self) -> (res: Vec<u8>) {
        self.as_bytes()
    }
}

impl StoreKey for AuthToken {
    open spec fn key_bytes(&self) -> Seq<u8> {
        keys::be_bytes(self.0)
    }

    fn to_key_bytes(&self) -> (res: Vec<u8>) {
        self.as_bytes()
    }
}

impl StoreKey for LinkToken {
    open spec fn key_bytes(&self) -> Seq<u8> {
        keys::be_bytes(self.0)
    }

    fn to_key_bytes(&self) -> (res: Vec<u8>) {
        self.as_bytes()
    }
}

/// What a fetch of the bytes `stored` (if any) may return: nothing when
/// nothing is stored; the value read from the bytes when they can be read,
/// which is the value they are the bytes of where there is one; a
/// deserialisation error exactly when they cannot be read (and then they
/// are no value's bytes).
pub open spec fn fetched<V: Record>(stored: Option<Seq<u8>>, res: Result<Option<V>, StoreError>) -> bool {
    match res {
        Ok(Some(v)) => stored is Some && read_value::<V>(stored->Some_0) == Some(v@) && forall|r: V::V|
            V::valid_view(r) && #[trigger] record_bytes::<V>(r) == stored->Some_0 ==> v@ == r,
        Ok(None) => stored is None,
        Err(StoreError::DeserializeError(_)) => stored is Some && read_value::<V>(stored->Some_0) is None
            && !is_record_bytes::<V>(stored->Some_0),
        Err(StoreError::SerializeError(_)) => false,
        Err(StoreError::DbError(_)) => true,
    }
}

/// A read gives back what a write stored: when the bytes stored under a
/// key are those of a value, a fetch that the database does not fail
/// returns that value.
pub proof fn law_read_back_write<V: Record>(stored: Option<Seq<u8>>, v: V::V, res: Result<Option<V>, StoreError>)
    requires
        V::valid_view(v),
        stored == Some(record_bytes::<V>(v)),
        fetched(stored, res),
        !(res matches Err(StoreError::DbError(_))),
    ensures
        res matches Ok(Some(w)) && w@ == v,
{
    assert(is_record_bytes::<V>(record_bytes::<V>(v)));
}

/// The byte strings held in a list of buffers.
pub open spec fn byte_views(v: Seq<Vec<u8>>) -> Seq<Seq<u8>> {
    v.map_values(|d: Vec<u8>| d@)
}

/// The first `n` byte strings of a list, as a set.
pub open spec fn first_keys(keys: Seq<Seq<u8>>, n: int) -> Set<Seq<u8>> {
    Set::new(|q: Seq<u8>| exists|t: int| 0 <= t < n && keys[t] == q)
}

/// Values of type `V` stored under keys of type `K` in a `sled` database.
/// Not every stored value need be readable as a `V`.
pub struct Database<K: StoreKey + ?Sized, V: Record> {
    db: sled::Db,
    /// How many operations on the store have failed so far.
    failed: Ghost<nat>,
    _key: PhantomData<K>,
    _value: PhantomData<V>,
}

impl<K: StoreKey + ?Sized, V: Record> Database<K, V> {
    /// The stored bytes, by the bytes of their keys.
    pub closed spec fn contents(&self) -> Map<Seq<u8>, Seq<u8>> {
        db_contents(self.db)
    }

    /// How many operations on the store have failed so far: writes that
    /// could not be serialised or stored, and store failures met otherwise.
    pub closed spec fn failures(&self) -> nat {
        self.failed@
    }

    /// Records a store failure met while reading, as the error the store
    /// reported shows.
    pub fn note_failure(&mut self, error: &sled::Error)
        ensures
            final(self).contents() == old(self).contents(),
            final(self).failures() == old(self).failures() + 1,
    {
        self.failed = Ghost(self.failed@ + 1);
    }

    /// The bytes stored under a key, if any.
    pub open spec fn stored(&self, key: Seq<u8>) -> Option<Seq<u8>> {
        if self.contents().contains_key(key) {
            Some(self.contents()[key])
        } else {
            None
        }
    }

    /// Opens the database stored at the path.
    pub fn open(path: &str) -> (res: Result<Self, sled::Error>) {
        match store::store_open(path) {
            Ok(db) => Ok(Database { db, failed: Ghost(0), _key: PhantomData, _value: PhantomData }),
            Err(e) => Err(e),
        }
    }

    /// Stores the value under the key.
    pub fn insert(&mut self, key: &K, value: &V) -> (res: Result<(), StoreError>)
        ensures
            final(self).failures() == old(self).failures() + if res is Ok {
                0nat
            } else {
                1nat
            },
            V::valid_view(value@),
            res is Ok ==> final(self).contents() == old(self).contents().insert(
                key.key_bytes(),
                record_bytes::<V>(value@),
            ),
            res is Err ==> res->Err_0 is DbError,
    {
        match codec::encode(value) {
            Ok(bytes) => {
                let k = key.to_key_bytes();
                match store::store_insert(&mut self.db, k.as_slice(), bytes.as_slice()) {
                    Ok(_) => Ok(()),
                    Err(e) => {
                        self.note_failure(&e);
                        Err(StoreError::DbError(e))
                    },
                }
            },
            Err(e) => Err(StoreError::SerializeError(e)),
        }
    }

    /// Stores the value under the key given by its bytes.
    pub fn insert_raw(&mut self, key_bytes: &[u8], value: &V) -> (res: Result<(), StoreError>)
        ensures
            final(self).failures() == old(self).failures() + if res is Ok {
                0nat
            } else {
                1nat
            },
            V::valid_view(value@),
            res is Ok ==> final(self).contents() == old(self).contents().insert(key_bytes@, record_bytes::<V>(value@)),
            res is Err ==> res->Err_0 is DbError,
    {
        match codec::encode(value) {
            Ok(bytes) => match store::store_insert(&mut self.db, key_bytes, bytes.as_slice()) {
                Ok(_) => Ok(()),
                Err(e) => {
                    self.note_failure(&e);
                    Err(StoreError::DbError(e))
                },
            },
            Err(e) => Err(StoreError::SerializeError(e)),
        }
    }

    /// The value stored under the key, if any.
    pub fn fetch(&self, key: &K) -> (res: Result<Option<V>, StoreError>)
        ensures
            fetched(self.stored(key.key_bytes()), res),
    {
        let k = key.to_key_bytes();
        match store::store_get(&self.db, k.as_slice()) {
            Ok(Some(bytes)) => match codec::decode::<V>(bytes.as_slice()) {
                Ok(Some(v)) => Ok(Some(v)),
                Ok(None) => Err(StoreError::DeserializeError(codec::custom_error("the bytes hold no value of this type".to_owned()))),
                Err(e) => Err(StoreError::DeserializeError(e)),
            },
            Ok(None) => Ok(None),
            Err(e) => Err(StoreError::DbError(e)),
        }
    }

    /// Removes what is stored under the key.
    pub fn remove_silent(&mut self, key: &K) -> (res: Result<(), sled::Error>)
        ensures
            final(self).failures() == old(self).failures() + if res is Ok {
                0nat
            } else {
                1nat
            },
            res is Ok ==> final(self).contents() == old(self).contents().remove(key.key_bytes()),
    {
        let k = key.to_key_bytes();
        match store::store_remove(&mut self.db, k.as_slice()) {
            Ok(_) => Ok(()),
            Err(e) => {
                self.note_failure(&e);
                Err(e)
            },
        }
    }

    /// Removes what is stored under the key and returns it.
    pub fn remove(&mut self, key: &K) -> (res: Result<Option<V>, StoreError>)
        ensures
            final(self).failures() == old(self).failures() + if res matches Err(StoreError::DbError(_)) {
                1nat
            } else {
                0nat
            },
            fetched(old(self).stored(key.key_bytes()), res),
            !(res matches Err(StoreError::DbError(_))) ==> final(self).contents() == old(self).contents().remove(
                key.key_bytes(),
            ),
    {
        let k = key.to_key_bytes();
        match store::store_remove(&mut self.db, k.as_slice()) {
            Ok(Some(bytes)) => match codec::decode::<V>(bytes.as_slice()) {
                Ok(Some(v)) => Ok(Some(v)),
                Ok(None) => Err(StoreError::DeserializeError(codec::custom_error("the bytes hold no value of this type".to_owned()))),
                Err(e) => Err(StoreError::DeserializeError(e)),
            },
            Ok(None) => Ok(None),
            Err(e) => {
                self.note_failure(&e);
                Err(StoreError::DbError(e))
            },
        }
    }

    /// Whether something is stored under the key.
    pub fn contains_key(&self, key: &K) -> (res: Result<bool, sled::Error>)
        ensures
            res is Ok ==> res->Ok_0 == self.contents().contains_key(key.key_bytes()),
    {
        let k = key.to_key_bytes();
        store::store_contains_key(&self.db, k.as_slice())
    }

    /// Reads the entries a walk of this store yielded.
    fn read_walk(&self, raw: &Vec<Result<(Vec<u8>, Vec<u8>), sled::Error>>) -> (res: (Vec<(Vec<u8>, Option<V>)>, bool))
        requires
            forall|i: int|
                0 <= i < raw@.len() && #[trigger] raw@[i] is Ok ==> self.contents().contains_key(raw@[i]->Ok_0.0@)
                    && self.contents()[raw@[i]->Ok_0.0@] == raw@[i]->Ok_0.1@,
            forall|i: int, j: int|
                0 <= i < j < raw@.len() && #[trigger] raw@[i] is Ok && #[trigger] raw@[j] is Ok ==> raw@[i]->Ok_0.0@
                    != raw@[j]->Ok_0.0@ && bytes_lt(raw@[i]->Ok_0.0@, raw@[j]->Ok_0.0@),
            (forall|i: int| 0 <= i < raw@.len() ==> #[trigger] raw@[i] is Ok) ==> forall|k: Seq<u8>|
                #[trigger] self.contents().contains_key(k) ==> exists|i: int|
                    0 <= i < raw@.len() && raw@[i]->Ok_0.0@ == k,
        ensures
            forall|i: int|
                0 <= i < res.0@.len() ==> #[trigger] self.contents().contains_key(res.0@[i].0@) && match res.0@[i].1 {
                    Some(v) => forall|r: V::V|
                        V::valid_view(r) && #[trigger] record_bytes::<V>(r) == self.contents()[res.0@[i].0@] ==> v@ == r,
                    None => !is_record_bytes::<V>(self.contents()[res.0@[i].0@]),
                },
            forall|i: int|
                0 <= i < res.0@.len() ==> match #[trigger] res.0@[i].1 {
                    Some(v) => read_value::<V>(self.contents()[res.0@[i].0@]) == Some(v@),
                    None => read_value::<V>(self.contents()[res.0@[i].0@]) is None,
                },
            forall|i: int, j: int|
                0 <= i < j < res.0@.len() ==> #[trigger] res.0@[i].0@ != #[trigger] res.0@[j].0@,
            forall|i: int, j: int| 0 <= i < j < res.0@.len() ==> bytes_lt(#[trigger] res.0@[i].0@, #[trigger] res.0@[j].0@),
            res.1 ==> forall|k: Seq<u8>|
                #[trigger] self.contents().contains_key(k) ==> exists|i: int|
                    0 <= i < res.0@.len() && res.0@[i].0@ == k,
            res.1 == forall|a: int| 0 <= a < raw@.len() ==> #[trigger] raw@[a] is Ok,
            entries_read::<V>(self.contents(), res.0@, res.1),
    {
        let (out, complete) = decode_entries::<V>(raw);
        proof {
            assert forall|j: int| 0 <= j < out@.len() implies #[trigger] self.contents().contains_key(out@[j].0@) && match out@[j].1 {
                Some(v) => forall|r: V::V|
                    V::valid_view(r) && #[trigger] record_bytes::<V>(r) == self.contents()[out@[j].0@] ==> v@ == r,
                None => !is_record_bytes::<V>(self.contents()[out@[j].0@]),
            } by {
                let a = choose|a: int|
                    0 <= a < raw@.len() && #[trigger] raw@[a] is Ok && raw@[a]->Ok_0.0@ == out@[j].0@ && value_read_as(
                        out@[j].1,
                        raw@[a]->Ok_0.1@,
                    );
            }
            assert forall|j: int| 0 <= j < out@.len() implies match #[trigger] out@[j].1 {
                Some(v) => read_value::<V>(self.contents()[out@[j].0@]) == Some(v@),
                None => read_value::<V>(self.contents()[out@[j].0@]) is None,
            } by {
                let a = choose|a: int|
                    0 <= a < raw@.len() && #[trigger] raw@[a] is Ok && raw@[a]->Ok_0.0@ == out@[j].0@ && value_read_as(
                        out@[j].1,
                        raw@[a]->Ok_0.1@,
                    );
            }
            if complete {
                assert forall|k: Seq<u8>| #[trigger] self.contents().contains_key(k) implies exists|j: int|
                    0 <= j < out@.len() && out@[j].0@ == k by {
                    let a = choose|a: int| 0 <= a < raw@.len() && raw@[a]->Ok_0.0@ == k;
                    assert(raw@[a] is Ok);
                }
            }
        }
        proof {
            assert forall|j: int| 0 <= j < out@.len() implies #[trigger] self.contents().contains_key(out@[j].0@) && value_read_as(
                out@[j].1,
                self.contents()[out@[j].0@],
            ) by {
                let a = choose|a: int|
                    0 <= a < raw@.len() && #[trigger] raw@[a] is Ok && raw@[a]->Ok_0.0@ == out@[j].0@ && value_read_as(
                        out@[j].1,
                        raw@[a]->Ok_0.1@,
                    );
            }
        }
        (out, complete)
    }

    /// The stored entries, each as its key's bytes and its value (`None`
    /// when the bytes are no value's), and whether the store yielded every
    /// entry.
    pub fn entries(&self) -> (res: (Vec<(Vec<u8>, Option<V>)>, bool))
        ensures
            entries_read::<V>(self.contents(), res.0@, res.1),
            forall|i: int|
                0 <= i < res.0@.len() ==> #[trigger] self.contents().contains_key(res.0@[i].0@) && match res.0@[i].1 {
                    Some(v) => forall|r: V::V|
                        V::valid_view(r) && #[trigger] record_bytes::<V>(r) == self.contents()[res.0@[i].0@] ==> v@ == r,
                    None => !is_record_bytes::<V>(self.contents()[res.0@[i].0@]),
                },
            forall|i: int|
                0 <= i < res.0@.len() ==> match #[trigger] res.0@[i].1 {
                    Some(v) => read_value::<V>(self.contents()[res.0@[i].0@]) == Some(v@),
                    None => read_value::<V>(self.contents()[res.0@[i].0@]) is None,
                },
            forall|i: int, j: int|
                0 <= i < j < res.0@.len() ==> #[trigger] res.0@[i].0@ != #[trigger] res.0@[j].0@,
            forall|i: int, j: int| 0 <= i < j < res.0@.len() ==> bytes_lt(#[trigger] res.0@[i].0@, #[trigger] res.0@[j].0@),
            res.1 ==> forall|k: Seq<u8>|
                #[trigger] self.contents().contains_key(k) ==> exists|i: int|
                    0 <= i < res.0@.len() && res.0@[i].0@ == k,
    {
        let raw = store::store_entries(&self.db);
        let res = self.read_walk(&raw);
        proof {
            assert forall|i: int| 0 <= i < res.0@.len() implies #[trigger] self.contents().contains_key(res.0@[i].0@) && match res.0@[i].1 {
                Some(v) => forall|r: V::V|
                    V::valid_view(r) && #[trigger] record_bytes::<V>(r) == self.contents()[res.0@[i].0@] ==> v@ == r,
                None => !is_record_bytes::<V>(self.contents()[res.0@[i].0@]),
            } by {
                assert(self.contents().contains_key(res.0@[i].0@));
            }
        }
        res
    }

    /// The stored entries as `entries` reads them, recording each step of
    /// the walk that the store failed: every entry was yielded exactly when
    /// no failure was recorded.
    pub fn walk(&mut self) -> (res: (Vec<(Vec<u8>, Option<V>)>, bool))
        ensures
            entries_read::<V>(old(self).contents(), res.0@, res.1),
            forall|i: int|
                0 <= i < res.0@.len() ==> #[trigger] old(self).contents().contains_key(res.0@[i].0@) && match res.0@[i].1 {
                    Some(v) => forall|r: V::V|
                        V::valid_view(r) && #[trigger] record_bytes::<V>(r) == old(self).contents()[res.0@[i].0@] ==> v@ == r,
                    None => !is_record_bytes::<V>(old(self).contents()[res.0@[i].0@]),
                },
            forall|i: int|
                0 <= i < res.0@.len() ==> match #[trigger] res.0@[i].1 {
                    Some(v) => read_value::<V>(old(self).contents()[res.0@[i].0@]) == Some(v@),
                    None => read_value::<V>(old(self).contents()[res.0@[i].0@]) is None,
                },
            forall|i: int, j: int|
                0 <= i < j < res.0@.len() ==> #[trigger] res.0@[i].0@ != #[trigger] res.0@[j].0@,
            forall|i: int, j: int| 0 <= i < j < res.0@.len() ==> bytes_lt(#[trigger] res.0@[i].0@, #[trigger] res.0@[j].0@),
            res.1 ==> forall|k: Seq<u8>|
                #[trigger] old(self).contents().contains_key(k) ==> exists|i: int|
                    0 <= i < res.0@.len() && res.0@[i].0@ == k,
            final(self).contents() == old(self).contents(),
            final(self).failures() >= old(self).failures(),
            res.1 <==> final(self).failures() == old(self).failures(),
    {
        let raw = store::store_entries(&self.db);
        let ghost f0 = self.failures();
        let ghost c0 = self.contents();
        let mut i: usize = 0;
        while i < raw.len()
            invariant
                i <= raw@.len(),
                self.contents() == c0,
                self.failures() >= f0,
                (exists|a: int| 0 <= a < i && #[trigger] raw@[a] is Err) ==> self.failures() > f0,
                (forall|a: int| 0 <= a < i ==> #[trigger] raw@[a] is Ok) ==> self.failures() == f0,
            decreases raw@.len() - i,
        {
            match &raw[i] {
                Ok(_) => {},
                Err(e) => {
                    self.note_failure(e);
                },
            }
            proof {
                assert forall|a: int| 0 <= a < i + 1 && (forall|b: int| 0 <= b < i + 1 ==> #[trigger] raw@[b] is Ok) implies #[trigger] raw@[a] is Ok by {}
                if raw@[i as int] is Err {
                    assert(exists|a: int| 0 <= a < i + 1 && #[trigger] raw@[a] is Err);
                }
            }
            i = i + 1;
        }
        proof {
            if exists|a: int| 0 <= a < raw@.len() && #[trigger] raw@[a] is Err {
                assert(!(forall|a: int| 0 <= a < raw@.len() ==> #[trigger] raw@[a] is Ok));
            }
        }
        self.read_walk(&raw)
    }

    /// Keeps the values `f` accepts and removes the others; entries that
    /// cannot be read are kept when `retain_undeserializable` holds. Returns
    /// whether the store yielded every entry and every removal succeeded;
    /// then nothing was added or changed, and each stored value is gone
    /// exactly when `f` rejected it.
    pub fn retain<F: Fn(&V) -> bool>(&mut self, retain_undeserializable: bool, f: F) -> (complete: bool)
        requires
            forall|v: &V| #[trigger] f.requires((v,)),
        ensures
            complete ==> forall|k: Seq<u8>|
                #[trigger] final(self).contents().contains_key(k) ==> old(self).contents().contains_key(k)
                    && final(self).contents()[k] == old(self).contents()[k],
            complete ==> forall|k: Seq<u8>, r: V::V|
                #[trigger] old(self).contents().contains_key(k) && V::valid_view(r) && old(self).contents()[k]
                    == #[trigger] record_bytes::<V>(r) ==> (exists|v: V|
                    v@ == r && f.ensures((&v,), final(self).contents().contains_key(k))),
            complete ==> forall|k: Seq<u8>|
                #[trigger] old(self).contents().contains_key(k) ==> match read_value::<V>(old(self).contents()[k]) {
                    Some(r) => exists|v: V| v@ == r && f.ensures((&v,), final(self).contents().contains_key(k)),
                    None => final(self).contents().contains_key(k) == retain_undeserializable,
                },
            final(self).failures() >= old(self).failures(),
            complete <==> final(self).failures() == old(self).failures(),
    {
        let ghost old_contents = self.contents();
        let ghost f0 = self.failures();
        let (es, complete0) = self.walk();
        let ghost f1 = self.failures();
        let mut delete: Vec<Vec<u8>> = Vec::new();
        let ghost mut kept: Seq<bool> = Seq::empty();
        let mut i: usize = 0;
        while i < es.len()
            invariant
                self.contents() == old_contents,
                self.failures() == f1,
                i <= es@.len(),
                kept.len() == i,
                forall|v: &V| #[trigger] f.requires((v,)),
                forall|a: int|
                    0 <= a < i ==> match #[trigger] es@[a].1 {
                        Some(v) => f.ensures((&v,), kept[a]),
                        None => kept[a] == retain_undeserializable,
                    },
                forall|q: Seq<u8>|
                    #[trigger] byte_views(delete@).contains(q) <==> exists|a: int|
                        0 <= a < i && es@[a].0@ == q && !kept[a],
                byte_views(delete@).no_duplicates(),
                forall|a: int, b: int| 0 <= a < b < es@.len() ==> #[trigger] es@[a].0@ != #[trigger] es@[b].0@,
            decreases es@.len() - i,
        {
            let keep = match &es[i].1 {
                Some(v) => f(v),
                None => retain_undeserializable,
            };
            let ghost old_del = byte_views(delete@);
            let ghost old_kept = kept;
            if !keep {
                delete.push(es[i].0.clone());
            }
            proof {
                let new_del = byte_views(delete@);
                kept = kept.push(keep);
                assert forall|a: int| 0 <= a < i implies kept[a] == old_kept[a] by {}
                if !keep {
                    assert(new_del =~= old_del.push(es@[i as int].0@));
                    assert(!old_del.contains(es@[i as int].0@)) by {
                        if old_del.contains(es@[i as int].0@) {
                            let a = choose|a: int| 0 <= a < i && es@[a].0@ == es@[i as int].0@ && !old_kept[a];
                        }
                    }
                } else {
                    assert(new_del =~= old_del);
                }
                assert forall|q: Seq<u8>| #[trigger] new_del.contains(q) <==> exists|a: int|
                    0 <= a < i + 1 && es@[a].0@ == q && !kept[a] by {
                    if new_del.contains(q) {
                        let t = choose|t: int| 0 <= t < new_del.len() && new_del[t] == q;
                        if t < old_del.len() {
                            assert(old_del[t] == q);
                            assert(old_del.contains(q));
                            let a = choose|a: int| 0 <= a < i && es@[a].0@ == q && !old_kept[a];
                            assert(!kept[a]);
                        } else {
                            assert(!kept[i as int]);
                        }
                    }
                    if exists|a: int| 0 <= a < i + 1 && es@[a].0@ == q && !kept[a] {
                        let a = choose|a: int| 0 <= a < i + 1 && es@[a].0@ == q && !kept[a];
                        if a < i {
                            assert(!old_kept[a]);
                            assert(old_del.contains(q));
                            let t = choose|t: int| 0 <= t < old_del.len() && old_del[t] == q;
                            assert(new_del[t] == q);
                        } else {
                            assert(new_del[new_del.len() - 1] == q);
                        }
                    }
                }
            }
            i = i + 1;
        }
        let ghost dk = byte_views(delete@);
        let mut complete = complete0;
        let mut j: usize = 0;
        while j < delete.len()
            invariant
                j <= delete@.len(),
                dk == byte_views(delete@),
                complete ==> complete0,
                complete ==> self.contents() == old_contents.remove_keys(first_keys(dk, j as int)),
                f1 >= f0,
                complete0 <==> f1 == f0,
                self.failures() >= f1,
                complete ==> self.failures() == f1,
                !complete ==> self.failures() > f0,
            decreases delete@.len() - j,
        {
            match store::store_remove(&mut self.db, delete[j].as_slice()) {
                Ok(_) => {
                    proof {
                        assert(first_keys(dk, j + 1) =~= first_keys(dk, j as int).insert(dk[j as int]));
                        assert(old_contents.remove_keys(first_keys(dk, j + 1)) =~= old_contents.remove_keys(
                            first_keys(dk, j as int),
                        ).remove(dk[j as int]));
                    }
                },
                Err(e) => {
                    self.note_failure(&e);
                    complete = false;
                },
            }
            j = j + 1;
        }
        proof {
            if complete {
                assert(complete0);
                assert forall|k: Seq<u8>| #[trigger] old_contents.contains_key(k) implies match read_value::<V>(old_contents[k]) {
                    Some(r) => exists|v: V| v@ == r && f.ensures((&v,), self.contents().contains_key(k)),
                    None => self.contents().contains_key(k) == retain_undeserializable,
                } by {
                    let a = choose|a: int| 0 <= a < es@.len() && es@[a].0@ == k;
                    if dk.contains(k) {
                        let b = choose|b: int| 0 <= b < es@.len() && es@[b].0@ == k && !kept[b];
                        assert(a == b);
                        let t = choose|t: int| 0 <= t < dk.len() && dk[t] == k;
                        assert(first_keys(dk, dk.len() as int).contains(k));
                    } else {
                        assert(kept[a]);
                        assert(!first_keys(dk, dk.len() as int).contains(k));
                    }
                    match es@[a].1 {
                        Some(v) => {
                            assert(read_value::<V>(old_contents[k]) == Some(v@));
                        },
                        None => {},
                    }
                }
                assert forall|k: Seq<u8>, r: V::V|
                    #[trigger] old_contents.contains_key(k) && V::valid_view(r) && old_contents[k] == #[trigger] record_bytes::<V>(r)
                        implies (exists|v: V| v@ == r && f.ensures((&v,), self.contents().contains_key(k))) by {
                    let a = choose|a: int| 0 <= a < es@.len() && es@[a].0@ == k;
                    assert(es@[a].1 is Some);
                    let v = es@[a].1->Some_0;
                    assert(v@ == r);
                    if dk.contains(k) {
                        let b = choose|b: int| 0 <= b < es@.len() && es@[b].0@ == k && !kept[b];
                        assert(a == b);
                        let t = choose|t: int| 0 <= t < dk.len() && dk[t] == k;
                        assert(first_keys(dk, dk.len() as int).contains(k));
                    } else {
                        assert(kept[a]);
                        assert(!first_keys(dk, dk.len() as int).contains(k));
                    }
                }
            }
        }
        complete
    }
}

/// Whether `es` lists entries of the store contents `c`, each key once and
/// with its value as read from the bytes stored under it; and, when the
/// walk was complete, every stored key.
pub open spec fn entries_read<V: Record>(c: Map<Seq<u8>, Seq<u8>>, es: Seq<(Vec<u8>, Option<V>)>, complete: bool) -> bool {
    &&& forall|i: int| 0 <= i < es.len() ==> #[trigger] c.contains_key(es[i].0@) && value_read_as(es[i].1, c[es[i].0@])
    &&& forall|i: int, j: int| 0 <= i < j < es.len() ==> #[trigger] es[i].0@ != #[trigger] es[j].0@
    &&& complete ==> forall|k: Seq<u8>| #[trigger] c.contains_key(k) ==> exists|i: int| 0 <= i < es.len() && es[i].0@ == k
}

/// Whether `v` is what reading `bytes` gives: the one value stored as them
/// when found, and bytes that are no value's when not.
pub open spec fn value_read_as<V: Record>(v: Option<V>, bytes: Seq<u8>) -> bool {
    match v {
        Some(v) => read_value::<V>(bytes) == Some(v@) && forall|r: V::V|
            V::valid_view(r) && #[trigger] record_bytes::<V>(r) == bytes ==> v@ == r,
        None => read_value::<V>(bytes) is None && !is_record_bytes::<V>(bytes),
    }
}

/// The keys and values a store's walk yielded, in order, leaving out the
/// steps that failed.
pub open spec fn yielded(raw: Seq<Result<(Vec<u8>, Vec<u8>), sled::Error>>) -> Seq<(Seq<u8>, Seq<u8>)>
    decreases raw.len(),
{
    if raw.len() == 0 {
        Seq::empty()
    } else {
        match raw.last() {
            Ok((k, v)) => yielded(raw.drop_last()).push((k@, v@)),
            Err(_) => yielded(raw.drop_last()),
        }
    }
}

/// Reads the entries a store's walk yielded, each as its key and its value
/// (`None` when its bytes are no value's), in order; and whether no step of
/// the walk failed.
#[verifier::spinoff_prover]
#[verifier::rlimit(80)]
pub fn decode_entries<V: Record>(raw: &Vec<Result<(Vec<u8>, Vec<u8>), sled::Error>>) -> (res: (Vec<(Vec<u8>, Option<V>)>, bool))
    ensures
        res.1 == forall|a: int| 0 <= a < raw@.len() ==> #[trigger] raw@[a] is Ok,
        res.0@.len() == yielded(raw@).len(),
        forall|j: int|
            0 <= j < res.0@.len() ==> #[trigger] res.0@[j].0@ == yielded(raw@)[j].0 && value_read_as(
                res.0@[j].1,
                yielded(raw@)[j].1,
            ),
        forall|j: int|
            0 <= j < res.0@.len() ==> exists|a: int|
                0 <= a < raw@.len() && #[trigger] raw@[a] is Ok && raw@[a]->Ok_0.0@ == res.0@[j].0@
                    && value_read_as(#[trigger] res.0@[j].1, raw@[a]->Ok_0.1@),
        (forall|a: int, b: int|
            0 <= a < b < raw@.len() && #[trigger] raw@[a] is Ok && #[trigger] raw@[b] is Ok
                ==> raw@[a]->Ok_0.0@ != raw@[b]->Ok_0.0@) ==> forall|j: int, l: int|
            0 <= j < l < res.0@.len() ==> #[trigger] res.0@[j].0@ != #[trigger] res.0@[l].0@,
        (forall|a: int, b: int|
            0 <= a < b < raw@.len() && #[trigger] raw@[a] is Ok && #[trigger] raw@[b] is Ok
                ==> bytes_lt(raw@[a]->Ok_0.0@, raw@[b]->Ok_0.0@)) ==> forall|j: int, l: int|
            0 <= j < l < res.0@.len() ==> bytes_lt(#[trigger] res.0@[j].0@, #[trigger] res.0@[l].0@),
        forall|a: int| 0 <= a < raw@.len() && #[trigger] raw@[a] is Ok ==> exists|j: int|
            0 <= j < res.0@.len() && res.0@[j].0@ == raw@[a]->Ok_0.0@,
{
    let mut out: Vec<(Vec<u8>, Option<V>)> = Vec::new();
    let mut complete = true;
    let mut i: usize = 0;
    let ghost mut idx: Seq<int> = Seq::empty();
    while i < raw.len()
        invariant
            i <= raw@.len(),
            complete == forall|a: int| 0 <= a < i ==> #[trigger] raw@[a] is Ok,
            out@.len() == yielded(raw@.take(i as int)).len(),
            forall|j: int|
                0 <= j < out@.len() ==> #[trigger] out@[j].0@ == yielded(raw@.take(i as int))[j].0 && value_read_as(
                    out@[j].1,
                    yielded(raw@.take(i as int))[j].1,
                ),
            idx.len() == out@.len(),
            forall|j: int| 0 <= j < out@.len() ==> 0 <= #[trigger] idx[j] < i && raw@[idx[j]] is Ok
                && raw@[idx[j]]->Ok_0.0@ == out@[j].0@ && value_read_as(out@[j].1, raw@[idx[j]]->Ok_0.1@),
            forall|j: int, l: int| 0 <= j < l < out@.len() ==> #[trigger] idx[j] < #[trigger] idx[l],
            forall|a: int| 0 <= a < i && #[trigger] raw@[a] is Ok ==> exists|j: int|
                0 <= j < out@.len() && #[trigger] idx[j] == a,
        decreases raw@.len() - i,
    {
        proof {
            assert(raw@.take(i + 1).drop_last() =~= raw@.take(i as int));
            assert(raw@.take(i + 1).last() == raw@[i as int]);
        }
        let ghost old_out = out@;
        let ghost old_idx = idx;
        match &raw[i] {
            Ok((k, bytes)) => {
                let decoded = codec::decode::<V>(bytes.as_slice());
                let v = match decoded {
                    Ok(Some(v)) => Some(v),
                    _ => None,
                };
                let key = k.clone();
                proof {
                    if v is None {
                        if is_record_bytes::<V>(bytes@) {
                            let r = choose|r: V::V| V::valid_view(r) && #[trigger] record_bytes::<V>(r) == bytes@;
                            assert(decoded is Ok && decoded->Ok_0 is Some);
                        }
                    }
                    assert(value_read_as(v, bytes@));
                }
                proof {
                    assert(yielded(raw@.take(i + 1)) == yielded(raw@.take(i as int)).push((k@, bytes@)));
                }
                out.push((key, v));
                proof {
                    idx = idx.push(i as int);
                    assert forall|j: int| 0 <= j < out@.len() implies #[trigger] out@[j].0@ == yielded(raw@.take(i + 1))[j].0
                        && value_read_as(out@[j].1, yielded(raw@.take(i + 1))[j].1) by {
                        if j < old_out.len() {
                            assert(out@[j] == old_out[j]);
                        }
                    }
                    assert forall|j: int| 0 <= j < out@.len() implies 0 <= #[trigger] idx[j] < i + 1 && raw@[idx[j]] is Ok
                        && raw@[idx[j]]->Ok_0.0@ == out@[j].0@ && value_read_as(out@[j].1, raw@[idx[j]]->Ok_0.1@) by {
                        if j < old_out.len() {
                            assert(out@[j] == old_out[j]);
                            assert(idx[j] == old_idx[j]);
                        }
                    }
                    assert forall|a: int| 0 <= a < i + 1 && #[trigger] raw@[a] is Ok implies exists|j: int|
                        0 <= j < out@.len() && #[trigger] idx[j] == a by {
                        if a == i {
                            assert(idx[idx.len() - 1] == a);
                        } else {
                            let j = choose|j: int| 0 <= j < old_out.len() && #[trigger] old_idx[j] == a;
                            assert(idx[j] == old_idx[j]);
                        }
                    }
                }
            },
            Err(_) => {
                proof {
                    assert(yielded(raw@.take(i + 1)) == yielded(raw@.take(i as int)));
                }
                complete = false;
            },
        }
        i = i + 1;
    }
    proof {
        assert(raw@.take(raw@.len() as int) =~= raw@);
    }
    let res = (out, complete);
    proof {
        assert(res.0@ == out@);
        assert forall|j: int| 0 <= j < res.0@.len() implies exists|a: int|
            0 <= a < raw@.len() && #[trigger] raw@[a] is Ok && raw@[a]->Ok_0.0@ == res.0@[j].0@ && value_read_as(
                #[trigger] res.0@[j].1,
                raw@[a]->Ok_0.1@,
            ) by {
            assert(raw@[idx[j]] is Ok);
        }
        assert forall|a: int| 0 <= a < raw@.len() && #[trigger] raw@[a] is Ok implies exists|j: int|
            0 <= j < res.0@.len() && res.0@[j].0@ == raw@[a]->Ok_0.0@ by {
            let j = choose|j: int| 0 <= j < out@.len() && #[trigger] idx[j] == a;
            assert(res.0@[j].0@ == raw@[a]->Ok_0.0@);
        }
        if forall|a: int, b: int|
            0 <= a < b < raw@.len() && #[trigger] raw@[a] is Ok && #[trigger] raw@[b] is Ok
                ==> bytes_lt(raw@[a]->Ok_0.0@, raw@[b]->Ok_0.0@) {
            assert forall|j: int, l: int| 0 <= j < l < res.0@.len() implies bytes_lt(#[trigger] res.0@[j].0@, #[trigger] res.0@[l].0@) by {
                assert(idx[j] < idx[l]);
                assert(raw@[idx[j]] is Ok && raw@[idx[l]] is Ok);
            }
        }
        if forall|a: int, b: int|
            0 <= a < b < raw@.len() && #[trigger] raw@[a] is Ok && #[trigger] raw@[b] is Ok
                ==> raw@[a]->Ok_0.0@ != raw@[b]->Ok_0.0@ {
            assert forall|j: int, l: int| 0 <= j < l < res.0@.len() implies #[trigger] res.0@[j].0@ != #[trigger] res.0@[l].0@ by {
                assert(idx[j] < idx[l]);
                assert(raw@[idx[j]] is Ok && raw@[idx[l]] is Ok);
            }
        }
    }
    res
}

/// What a read tells: the value found, if any, and whether the store
/// answered; a store failure finds nothing and is the only failure, bytes
/// that are no value's finding nothing as well.
pub open spec fn read_outcome_spec<V>(read: Result<Option<V>, StoreError>) -> (Option<V>, bool) {
    match read {
        Ok(v) => (v, true),
        Err(StoreError::DbError(_)) => (None, false),
        Err(_) => (None, true),
    }
}

/// The value a read found, if any, and whether the store answered.
pub fn read_outcome<V>(read: Result<Option<V>, StoreError>) -> (res: (Option<V>, bool))
    ensures
        res == read_outcome_spec(read),
{
    match read {
        Ok(v) => (v, true),
        Err(StoreError::DbError(_)) => (None, false),
        Err(_) => (None, true),
    }
}

} // verus!
