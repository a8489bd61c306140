use vstd::prelude::*;
use vstd::utf8::encode_utf8;
use crate::section::texts;

verus! {

/// The `n` lowest bytes of `v`, least significant first.
pub open spec fn le_bytes(v: int, n: nat) -> Seq<u8>
    decreases n,
{
    if n == 0 {
        Seq::empty()
    } else {
        seq![(v % 256) as u8] + le_bytes(v / 256, (n - 1) as nat)
    }
}

/// The bytes of a list of 128-bit numbers, each in sixteen bytes.
pub open spec fn nums_bytes(nums: Seq<u128>) -> Seq<u8>
    decreases nums.len(),
{
    if nums.len() == 0 {
        Seq::empty()
    } else {
        nums_bytes(nums.drop_last()) + le_bytes(nums.last() as int, 16)
    }
}

/// The bytes of a list of texts, each as its UTF-8 length in eight bytes
/// followed by its UTF-8 bytes.
pub open spec fn texts_bytes(ts: Seq<Seq<char>>) -> Seq<u8>
    decreases ts.len(),
{
    if ts.len() == 0 {
        Seq::empty()
    } else {
        texts_bytes(ts.drop_last()) + le_bytes(encode_utf8(ts.last()).len() as int, 8)
            + encode_utf8(ts.last())
    }
}

/// The bytes of a list of lists of 128-bit numbers, each as its length in
/// eight bytes followed by its numbers.
pub open spec fn lists_bytes(ls: Seq<Seq<u128>>) -> Seq<u8>
    decreases ls.len(),
{
    if ls.len() == 0 {
        Seq::empty()
    } else {
        lists_bytes(ls.drop_last()) + le_bytes(ls.last().len() as int, 8) + nums_bytes(ls.last())
    }
}

/// The contents of a list of number lists.
pub open spec fn lists(v: Seq<Vec<u128>>) -> Seq<Seq<u128>> {
    v.map_values(|l: Vec<u128>| l@)
}

/// How `bincode` (with its default options: fixed-width little-endian
/// integers, lengths as `u64`) writes a triple of a list of `u128`, a list
/// of strings and a list of lists of `u128`: each list's length in eight
/// bytes, then its elements.
pub open spec fn fields_encoding(nums: Seq<u128>, ts: Seq<Seq<char>>, ls: Seq<Seq<u128>>) -> Seq<u8> {
    le_bytes(nums.len() as int, 8) + nums_bytes(nums) + le_bytes(ts.len() as int, 8)
        + texts_bytes(ts) + le_bytes(ls.len() as int, 8) + lists_bytes(ls)
}

/// The numbers, texts and number lists a value is stored as.
pub type Fields = (Seq<u128>, Seq<Seq<char>>, Seq<Seq<u128>>);

/// The error `bincode` reports.
#[verifier::external_type_specification]
#[verifier::external_body]
pub struct ExBincodeErrorKind(bincode::ErrorKind);

/// `bincode::serialize(&(nums, texts, lists))`. With the crate's default
/// options (fixed-width integers, no size limit) the bytes are those of
/// `fields_encoding`, and writing lists of known length, strings and `u128`
/// numbers into a `Vec` has no way to fail, so the result is always `Ok`.
#[verifier::external_body]
fn bincode_serialize(nums: &Vec<u128>, ts: &Vec<String>, ls: &Vec<Vec<u128>>) -> (res: Result<Vec<u8>, Box<bincode::ErrorKind>>)
    ensures
        res is Ok,
        res is Ok ==> res->Ok_0@ == fields_encoding(nums@, texts(ts@), lists(ls@)),
{
    bincode::serialize(&(nums, ts, ls))
}

/// The triple `bincode` reads from bytes, or `None` where it rejects them.
pub uninterp spec fn fields_read(bytes: Seq<u8>) -> Option<(Seq<u128>, Seq<Seq<char>>, Seq<Seq<u128>>)>;

/// `bincode::deserialize::<(Vec<u128>, Vec<String>, Vec<Vec<u128>>)>(bytes)`.
/// Its result is a function of the bytes alone, named `fields_read`; what
/// the crate reads back from bytes it wrote is the triple it wrote. Of other
/// bytes nothing more is said: the crate may reject them or read some triple
/// from them.
#[verifier::external_body]
fn bincode_deserialize(bytes: &[u8]) -> (res: Result<(Vec<u128>, Vec<String>, Vec<Vec<u128>>), Box<bincode::ErrorKind>>)
    ensures
        res is Ok <==> fields_read(bytes@) is Some,
        res is Ok ==> fields_read(bytes@) == Some((res->Ok_0.0@, texts(res->Ok_0.1@), lists(res->Ok_0.2@))),
        forall|nums: Seq<u128>, ts: Seq<Seq<char>>, ls: Seq<Seq<u128>>|
            #[trigger] fields_encoding(nums, ts, ls) == bytes@ ==> (res is Ok && res->Ok_0.0@ == nums
                && texts(res->Ok_0.1@) == ts && lists(res->Ok_0.2@) == ls),
{
    bincode::deserialize(bytes)
}

/// `bincode::ErrorKind::Custom(message)`, boxed as `bincode` reports its
/// errors.
#[verifier::external_body]
pub(crate) fn custom_error(message: String) -> (res: Box<bincode::ErrorKind>) {
    Box::new(bincode::ErrorKind::Custom(message))
}

/// A value stored as a list of numbers, a list of texts and a list of
/// number lists.
pub trait Record: Sized + View {
    /// The numbers, texts and number lists a value is stored as.
    spec fn field_values(v: Self::V) -> Fields;

    /// The value that numbers, texts and number lists denote, if any.
    spec fn from_field_values(f: Fields) -> Option<Self::V>;

    /// The models that values of the type have.
    spec fn valid_view(v: Self::V) -> bool;

    /// Every value has a valid model.
    proof fn lemma_valid_view(&self)
        ensures
            Self::valid_view(self@),
    ;

    /// A value is read back from the numbers and texts it is stored as.
    proof fn lemma_fields_round_trip(v: Self::V)
        requires
            Self::valid_view(v),
        ensures
            Self::from_field_values(Self::field_values(v)) == Some(v),
    ;

    /// The numbers, texts and number lists this value is stored as.
    fn to_fields(&self) -> (res: (Vec<u128>, Vec<String>, Vec<Vec<u128>>))
        ensures
            (res.0@, texts(res.1@), lists(res.2@)) == Self::field_values(self@),
    ;

    /// The value the numbers, texts and number lists denote, if any.
    fn from_fields(nums: &Vec<u128>, ts: &Vec<String>, ls: &Vec<Vec<u128>>) -> (res: Option<Self>)
        ensures
            match Self::from_field_values((nums@, texts(ts@), lists(ls@))) {
                Some(v) => res is Some && res->Some_0@ == v,
                None => res is None,
            },
    ;
}

/// The bytes a value is stored as.
pub open spec fn record_bytes<V: Record>(v: V::V) -> Seq<u8> {
    fields_encoding(V::field_values(v).0, V::field_values(v).1, V::field_values(v).2)
}

/// Whether the bytes are those of some value.
pub open spec fn is_record_bytes<V: Record>(b: Seq<u8>) -> bool {
    exists|r: V::V| V::valid_view(r) && #[trigger] record_bytes::<V>(r) == b
}

/// The value read from bytes: the triple `bincode` reads from them, taken
/// as a value of the type; `None` where either step fails.
pub open spec fn read_value<V: Record>(b: Seq<u8>) -> Option<V::V> {
    match fields_read(b) {
        Some(f) => V::from_field_values(f),
        None => None,
    }
}

/// Whether reading the bytes `b` gives `v`: `v` is the one valid value
/// stored as them.
pub open spec fn decodes_to<V: Record>(b: Seq<u8>, v: V::V) -> bool {
    forall|r: V::V| V::valid_view(r) && #[trigger] record_bytes::<V>(r) == b ==> r == v
}

/// Writes a value as bytes.
pub fn encode<V: Record>(v: &V) -> (res: Result<Vec<u8>, Box<bincode::ErrorKind>>)
    ensures
        V::valid_view(v@),
        res is Ok,
        res is Ok ==> res->Ok_0@ == record_bytes::<V>(v@),
{
    proof {
        v.lemma_valid_view();
    }
    let (nums, ts, ls) = v.to_fields();
    bincode_serialize(&nums, &ts, &ls)
}

/// Reads a value from bytes: `Ok(None)` when the bytes hold numbers and
/// texts that denote no value.
pub fn decode<V: Record>(bytes: &[u8]) -> (res: Result<Option<V>, Box<bincode::ErrorKind>>)
    ensures
        match read_value::<V>(bytes@) {
            Some(v) => res is Ok && res->Ok_0 is Some && res->Ok_0->Some_0@ == v,
            None => res is Err || res->Ok_0 is None,
        },
        forall|r: V::V| V::valid_view(r) && #[trigger] record_bytes::<V>(r) == bytes@ ==> (res is Ok
            && res->Ok_0 is Some && res->Ok_0->Some_0@ == r),
{
    match bincode_deserialize(bytes) {
        Ok((nums, ts, ls)) => {
            let res = V::from_fields(&nums, &ts, &ls);
            proof {
                assert forall|r: V::V| V::valid_view(r) && #[trigger] record_bytes::<V>(r) == bytes@ implies (res is Some
                    && res->Some_0@ == r) by {
                    V::lemma_fields_round_trip(r);
                    assert(fields_encoding(V::field_values(r).0, V::field_values(r).1, V::field_values(r).2) == bytes@);
                }
            }
            Ok(res)
        },
        Err(e) => Err(e),
    }
}

} // verus!
