use vstd::prelude::*;

verus! {

/// A `sled` database.
#[verifier::external_type_specification]
#[verifier::external_body]
pub struct ExDb(sled::Db);

/// The error `sled` reports.
#[verifier::external_type_specification]
#[verifier::external_body]
pub struct ExSledError(sled::Error);

/// What a `sled` database holds: its keys and their values.
pub uninterp spec fn db_contents(db: sled::Db) -> Map<Seq<u8>, Seq<u8>>;

/// `sled::open(path)`: opens, or creates, the database stored at the path.
/// What it holds comes from the disk, so nothing is said of it.
#[verifier::external_body]
pub(crate) fn store_open(path: &str) -> (res: Result<sled::Db, sled::Error>) {
    sled::open(path)
}

/// `Tree::get`: the value stored under the key, if any.
#[verifier::external_body]
pub(crate) fn store_get(db: &sled::Db, key: &[u8]) -> (res: Result<Option<Vec<u8>>, sled::Error>)
    ensures
        res is Ok ==> match res->Ok_0 {
            Some(v) => db_contents(*db).contains_key(key@) && db_contents(*db)[key@] == v@,
            None => !db_contents(*db).contains_key(key@),
        },
{
    match db.get(key) {
        Ok(Some(v)) => Ok(Some(v.to_vec())),
        Ok(None) => Ok(None),
        Err(e) => Err(e),
    }
}

/// `Tree::insert`: stores the value under the key and returns the value it
/// replaces. After an error nothing is said of what the database holds.
#[verifier::external_body]
pub(crate) fn store_insert(db: &mut sled::Db, key: &[u8], value: &[u8]) -> (res: Result<Option<Vec<u8>>, sled::Error>)
    ensures
        res is Ok ==> db_contents(*final(db)) == db_contents(*old(db)).insert(key@, value@),
        res is Ok ==> match res->Ok_0 {
            Some(v) => db_contents(*old(db)).contains_key(key@) && db_contents(*old(db))[key@] == v@,
            None => !db_contents(*old(db)).contains_key(key@),
        },
{
    match db.insert(key, value) {
        Ok(Some(v)) => Ok(Some(v.to_vec())),
        Ok(None) => Ok(None),
        Err(e) => Err(e),
    }
}

/// `Tree::remove`: removes the key and returns the value it held. After an
/// error nothing is said of what the database holds.
#[verifier::external_body]
pub(crate) fn store_remove(db: &mut sled::Db, key: &[u8]) -> (res: Result<Option<Vec<u8>>, sled::Error>)
    ensures
        res is Ok ==> db_contents(*final(db)) == db_contents(*old(db)).remove(key@),
        res is Ok ==> match res->Ok_0 {
            Some(v) => db_contents(*old(db)).contains_key(key@) && db_contents(*old(db))[key@] == v@,
            None => !db_contents(*old(db)).contains_key(key@),
        },
{
    match db.remove(key) {
        Ok(Some(v)) => Ok(Some(v.to_vec())),
        Ok(None) => Ok(None),
        Err(e) => Err(e),
    }
}

/// `Tree::contains_key`: whether a value is stored under the key.
#[verifier::external_body]
pub(crate) fn store_contains_key(db: &sled::Db, key: &[u8]) -> (res: Result<bool, sled::Error>)
    ensures
        res is Ok ==> res->Ok_0 == db_contents(*db).contains_key(key@),
{
    db.contains_key(key)
}

/// Whether the bytes `a` come before the bytes `b` in lexicographic order.
pub open spec fn bytes_lt(a: Seq<u8>, b: Seq<u8>) -> bool
    decreases a.len(),
{
    if a.len() == 0 {
        b.len() > 0
    } else if b.len() == 0 {
        false
    } else if a[0] < b[0] {
        true
    } else if a[0] == b[0] {
        bytes_lt(a.drop_first(), b.drop_first())
    } else {
        false
    }
}

/// `Tree::iter`, collected: each step yields a stored key with its value,
/// each key once and in ascending lexicographic order of the keys (sled is
/// an ordered map of byte strings), or the error the store reported. When
/// no step fails, every stored key is yielded.
#[verifier::external_body]
pub(crate) fn store_entries(db: &sled::Db) -> (res: Vec<Result<(Vec<u8>, Vec<u8>), sled::Error>>)
    ensures
        forall|i: int|
            0 <= i < res@.len() && #[trigger] res@[i] is Ok ==> db_contents(*db).contains_key(
                res@[i]->Ok_0.0@,
            ) && db_contents(*db)[res@[i]->Ok_0.0@] == res@[i]->Ok_0.1@,
        forall|i: int, j: int|
            0 <= i < j < res@.len() && #[trigger] res@[i] is Ok && #[trigger] res@[j] is Ok
                ==> res@[i]->Ok_0.0@ != res@[j]->Ok_0.0@ && bytes_lt(res@[i]->Ok_0.0@, res@[j]->Ok_0.0@),
        (forall|i: int| 0 <= i < res@.len() ==> #[trigger] res@[i] is Ok) ==> forall|k: Seq<u8>|
            #[trigger] db_contents(*db).contains_key(k) ==> exists|i: int|
                0 <= i < res@.len() && res@[i]->Ok_0.0@ == k,
{
    db.iter().map(|item| match item {
        Ok((k, v)) => Ok((k.to_vec(), v.to_vec())),
        Err(e) => Err(e),
    }).collect()
}

} // verus!
