use vstd::prelude::*;

verus! {

/// The value of a hexadecimal digit, written in lower case.
pub open spec fn hex_digit(n: int) -> char {
    if n < 10 {
        ((48 + n) as u32) as char
    } else {
        ((87 + n) as u32) as char
    }
}

/// The lowest `count` hexadecimal digits of `v`, most significant first.
pub open spec fn hex_digits(v: int, count: nat) -> Seq<char>
    decreases count,
{
    if count == 0 {
        Seq::empty()
    } else {
        hex_digits(v / 16, (count - 1) as nat).push(hex_digit(v % 16))
    }
}

/// The hyphenated lower-case text of a 128-bit identifier: groups of
/// 8, 4, 4, 4 and 12 hexadecimal digits joined by `-`.
pub open spec fn uuid_text(v: u128) -> Seq<char> {
    let x = v as int;
    hex_digits(x / 0x1_0000_0000_0000_0000_0000_0000, 8) + seq!['-']
        + hex_digits(x / 0x1_0000_0000_0000_0000_0000, 4) + seq!['-']
        + hex_digits(x / 0x1_0000_0000_0000_0000, 4) + seq!['-']
        + hex_digits(x / 0x1_0000_0000_0000, 4) + seq!['-']
        + hex_digits(x, 12)
}

/// Sixteen to the power `n`: how many values `n` hexadecimal digits tell
/// apart.
pub open spec fn hex_span(n: nat) -> int
    decreases n,
{
    if n == 0 {
        1
    } else {
        16 * hex_span((n - 1) as nat)
    }
}

proof fn lemma_hex_span_positive(n: nat)
    ensures
        hex_span(n) > 0,
    decreases n,
{
    if n > 0 {
        lemma_hex_span_positive((n - 1) as nat);
    }
}

proof fn lemma_hex_digits_len(v: int, n: nat)
    ensures
        hex_digits(v, n).len() == n,
    decreases n,
{
    if n > 0 {
        lemma_hex_digits_len(v / 16, (n - 1) as nat);
    }
}

proof fn lemma_hex_digit_injective(a: int, b: int)
    requires
        0 <= a < 16,
        0 <= b < 16,
        hex_digit(a) == hex_digit(b),
    ensures
        a == b,
{
    assert(hex_digit(a) as u32 == if a < 10 { 48 + a } else { 87 + a });
    assert(hex_digit(b) as u32 == if b < 10 { 48 + b } else { 87 + b });
}

/// The lowest `n` hexadecimal digits of two numbers are the same text only
/// when the numbers agree modulo sixteen to the power `n`.
proof fn lemma_hex_digits_determine(v: int, w: int, n: nat)
    requires
        0 <= v,
        0 <= w,
        hex_digits(v, n) == hex_digits(w, n),
    ensures
        v % hex_span(n) == w % hex_span(n),
    decreases n,
{
    if n == 0 {
        assert(v % 1 == 0 && w % 1 == 0) by (nonlinear_arith);
    } else {
        let m = (n - 1) as nat;
        assert(hex_digits(v, n).last() == hex_digit(v % 16));
        assert(hex_digits(w, n).last() == hex_digit(w % 16));
        lemma_hex_digit_injective(v % 16, w % 16);
        assert(hex_digits(v, n).drop_last() == hex_digits(v / 16, m));
        assert(hex_digits(w, n).drop_last() == hex_digits(w / 16, m));
        lemma_hex_digits_determine(v / 16, w / 16, m);
        lemma_hex_span_positive(m);
        vstd::arithmetic::div_mod::lemma_mod_breakdown(v, 16, hex_span(m));
        vstd::arithmetic::div_mod::lemma_mod_breakdown(w, 16, hex_span(m));
    }
}

proof fn lemma_uuid_fields_determine(a: u128, b: u128)
    by (bit_vector)
    requires
        a / 0x1_0000_0000_0000_0000_0000_0000u128 == b / 0x1_0000_0000_0000_0000_0000_0000u128,
        (a / 0x1_0000_0000_0000_0000_0000u128) % 0x1_0000u128 == (b / 0x1_0000_0000_0000_0000_0000u128) % 0x1_0000u128,
        (a / 0x1_0000_0000_0000_0000u128) % 0x1_0000u128 == (b / 0x1_0000_0000_0000_0000u128) % 0x1_0000u128,
        (a / 0x1_0000_0000_0000u128) % 0x1_0000u128 == (b / 0x1_0000_0000_0000u128) % 0x1_0000u128,
        a % 0x1_0000_0000_0000u128 == b % 0x1_0000_0000_0000u128,
    ensures
        a == b,
{
}

/// Two identifiers with the same text are the same identifier.
pub proof fn lemma_uuid_text_injective(a: u128, b: u128)
    requires
        uuid_text(a) == uuid_text(b),
    ensures
        a == b,
        uuid_text(a).len() == 36,
{
    let x = a as int;
    let y = b as int;
    let h = |v: int| {
        seq![
            hex_digits(v / 0x1_0000_0000_0000_0000_0000_0000, 8),
            hex_digits(v / 0x1_0000_0000_0000_0000_0000, 4),
            hex_digits(v / 0x1_0000_0000_0000_0000, 4),
            hex_digits(v / 0x1_0000_0000_0000, 4),
            hex_digits(v, 12),
        ]
    };
    lemma_hex_digits_len(x / 0x1_0000_0000_0000_0000_0000_0000, 8);
    lemma_hex_digits_len(x / 0x1_0000_0000_0000_0000_0000, 4);
    lemma_hex_digits_len(x / 0x1_0000_0000_0000_0000, 4);
    lemma_hex_digits_len(x / 0x1_0000_0000_0000, 4);
    lemma_hex_digits_len(x, 12);
    lemma_hex_digits_len(y / 0x1_0000_0000_0000_0000_0000_0000, 8);
    lemma_hex_digits_len(y / 0x1_0000_0000_0000_0000_0000, 4);
    lemma_hex_digits_len(y / 0x1_0000_0000_0000_0000, 4);
    lemma_hex_digits_len(y / 0x1_0000_0000_0000, 4);
    lemma_hex_digits_len(y, 12);
    let ta = uuid_text(a);
    let tb = uuid_text(b);
    assert(ta.subrange(0, 8) =~= h(x)[0]);
    assert(tb.subrange(0, 8) =~= h(y)[0]);
    assert(ta.subrange(9, 13) =~= h(x)[1]);
    assert(tb.subrange(9, 13) =~= h(y)[1]);
    assert(ta.subrange(14, 18) =~= h(x)[2]);
    assert(tb.subrange(14, 18) =~= h(y)[2]);
    assert(ta.subrange(19, 23) =~= h(x)[3]);
    assert(tb.subrange(19, 23) =~= h(y)[3]);
    assert(ta.subrange(24, 36) =~= h(x)[4]);
    assert(tb.subrange(24, 36) =~= h(y)[4]);
    lemma_hex_digits_determine(x / 0x1_0000_0000_0000_0000_0000_0000, y / 0x1_0000_0000_0000_0000_0000_0000, 8);
    lemma_hex_digits_determine(x / 0x1_0000_0000_0000_0000_0000, y / 0x1_0000_0000_0000_0000_0000, 4);
    lemma_hex_digits_determine(x / 0x1_0000_0000_0000_0000, y / 0x1_0000_0000_0000_0000, 4);
    lemma_hex_digits_determine(x / 0x1_0000_0000_0000, y / 0x1_0000_0000_0000, 4);
    lemma_hex_digits_determine(x, y, 12);
    assert(hex_span(4) == 0x1_0000) by {
        reveal_with_fuel(hex_span, 5);
    }
    assert(hex_span(8) == 0x1_0000_0000) by {
        reveal_with_fuel(hex_span, 9);
    }
    assert(hex_span(12) == 0x1_0000_0000_0000) by {
        reveal_with_fuel(hex_span, 13);
    }
    assert(x / 0x1_0000_0000_0000_0000_0000_0000 < 0x1_0000_0000);
    assert(y / 0x1_0000_0000_0000_0000_0000_0000 < 0x1_0000_0000);
    vstd::arithmetic::div_mod::lemma_small_mod(
        (x / 0x1_0000_0000_0000_0000_0000_0000) as nat,
        0x1_0000_0000,
    );
    vstd::arithmetic::div_mod::lemma_small_mod(
        (y / 0x1_0000_0000_0000_0000_0000_0000) as nat,
        0x1_0000_0000,
    );
    lemma_uuid_fields_determine(a, b);
}

/// `uuid::Uuid::from_u128(v).to_string()`: per the `uuid` crate, a UUID is
/// displayed in its hyphenated lower-case form.
#[verifier::external_body]
fn uuid_to_text(v: u128) -> (res: String)
    ensures
        res@ == uuid_text(v),
{
    uuid::Uuid::from_u128(v).to_string()
}


/// What `uuid::Uuid::parse_str` makes of a text: the 128-bit value it
/// denotes, or nothing when the text is not a UUID.
pub uninterp spec fn uuid_parse(text: Seq<char>) -> Option<u128>;

/// The error `uuid::Uuid::parse_str` reports.
#[verifier::external_type_specification]
#[verifier::external_body]
pub struct ExUuidError(uuid::Error);

/// `uuid::Uuid::parse_str(s)`, taken as its 128-bit value. The result is the
/// named `uuid_parse` of the text; the hyphenated lower-case text of a value,
/// which `uuid` writes itself, parses back to that value.
#[verifier::external_body]
fn uuid_from_text(s: &str) -> (res: Result<u128, uuid::Error>)
    ensures
        res is Ok <==> uuid_parse(s@) is Some,
        res is Ok ==> uuid_parse(s@) == Some(res->Ok_0),
        forall|v: u128| #[trigger] uuid_text(v) == s@ ==> (res is Ok && res->Ok_0 == v),
{
    match uuid::Uuid::parse_str(s) {
        Ok(u) => Ok(u.as_u128()),
        Err(e) => Err(e),
    }
}

/// The bits that mark a random (version 4, RFC 4122 variant) UUID.
pub open spec fn is_random_uuid(v: u128) -> bool {
    &&& (v as int / 0x1_0000_0000_0000_0000_000) % 16 == 4
    &&& (v as int / 0x4000_0000_0000_0000) % 4 == 2
}

/// `uuid::Uuid::new_v4()`, taken as its 128-bit value. The value is random;
/// the crate sets the version nibble to 4 and the variant bits to `10`.
#[verifier::external_body]
fn uuid_random() -> (res: u128)
    ensures
        is_random_uuid(res),
{
    uuid::Uuid::new_v4().as_u128()
}

/// The big-endian bytes of a 128-bit value, as `uuid::Uuid::as_bytes` lays
/// them out.
pub open spec fn be_bytes(v: u128) -> Seq<u8> {
    Seq::new(16, |i: int| ((v as int / vstd::arithmetic::power::pow(256, (15 - i) as nat)) % 256) as u8)
}

/// `u128::to_be_bytes`: the value's bytes, most significant first.
#[verifier::external_body]
fn u128_to_be_bytes(v: u128) -> (res: [u8; 16])
    ensures
        res@ == be_bytes(v),
{
    v.to_be_bytes()
}

/// `u128::from_be_bytes`: the value whose bytes, most significant first,
/// are the given ones.
#[verifier::external_body]
fn u128_from_be_bytes(b: [u8; 16]) -> (res: u128)
    ensures
        be_bytes(res) == b@,
{
    u128::from_be_bytes(b)
}

/// The value whose sixteen bytes, most significant first, are `b`, when
/// `b` holds sixteen bytes.
fn value_of_key_bytes(b: &Vec<u8>) -> (res: Option<u128>)
    ensures
        res is Some <==> b@.len() == 16,
        res matches Some(v) ==> be_bytes(v) == b@,
{
    if b.len() != 16 {
        return None;
    }
    let arr: [u8; 16] = [
        b[0], b[1], b[2], b[3], b[4], b[5], b[6], b[7], b[8], b[9], b[10], b[11], b[12], b[13], b[14], b[15],
    ];
    assert(arr@ =~= b@);
    Some(u128_from_be_bytes(arr))
}

/// The error of a text that is no identifier.
#[derive(Debug, Clone, Copy, PartialEq, Eq, Structural)]
pub struct KeyParseError;

/// The identifier of a user: a 128-bit UUID.
#[derive(Debug, Clone, Copy, PartialEq, Eq, Structural)]
pub struct UserKey(pub u128);

impl UserKey {
    /// The identifier whose bytes, as stored, are `b`: sixteen bytes are
    /// needed.
    pub fn from_key_bytes(b: &Vec<u8>) -> (res: Option<Self>)
        ensures
            res is Some <==> b@.len() == 16,
            res matches Some(k) ==> be_bytes(k.0) == b@,
    {
        match value_of_key_bytes(b) {
            Some(v) => Some(UserKey(v)),
            None => None,
        }
    }

    /// A fresh random identifier.
    pub fn generate() -> (res: Self)
        ensures
            is_random_uuid(res.0),
    {
        UserKey(uuid_random())
    }

    /// Reads an identifier from its text.
    pub fn from_str(s: &str) -> (res: Result<Self, KeyParseError>)
        ensures
            res is Ok <==> uuid_parse(s@) is Some,
            res matches Ok(k) ==> uuid_parse(s@) == Some(k.0),
            forall|v: u128| #[trigger] uuid_text(v) == s@ ==> res == Ok::<Self, KeyParseError>(UserKey(v)),
    {
        match uuid_from_text(s) {
            Ok(v) => Ok(UserKey(v)),
            Err(_) => Err(KeyParseError),
        }
    }

    /// The hyphenated lower-case text of the identifier.
    pub fn to_string(&self) -> (res: String)
        ensures
            res@ == uuid_text(self.0),
    {
        uuid_to_text(self.0)
    }

    /// The identifier's sixteen bytes, most significant first.
    pub fn as_bytes(&self) -> (res: Vec<u8>)
        ensures
            res@ == be_bytes(self.0),
    {
        let b = u128_to_be_bytes(self.0);
        let mut out: Vec<u8> = Vec::new();
        let mut i: usize = 0;
        while i < 16
            invariant
                i <= 16,
                b@ == be_bytes(self.0),
                out@ == b@.take(i as int),
            decreases 16 - i,
        {
            out.push(b[i]);
            i = i + 1;
            assert(out@ =~= b@.take(i as int));
        }
        assert(b@.take(16) =~= b@);
        out
    }
}

/// The identifier of an organisation: a 128-bit UUID.
#[derive(Debug, Clone, Copy, PartialEq, Eq, Structural)]
pub struct OrgKey(pub u128);

impl OrgKey {
    /// The identifier whose bytes, as stored, are `b`: sixteen bytes are
    /// needed.
    pub fn from_key_bytes(b: &Vec<u8>) -> (res: Option<Self>)
        ensures
            res is Some <==> b@.len() == 16,
            res matches Some(k) ==> be_bytes(k.0) == b@,
    {
        match value_of_key_bytes(b) {
            Some(v) => Some(OrgKey(v)),
            None => None,
        }
    }

    /// A fresh random identifier.
    pub fn generate() -> (res: Self)
        ensures
            is_random_uuid(res.0),
    {
        OrgKey(uuid_random())
    }

    /// Reads an identifier from its text.
    pub fn from_str(s: &str) -> (res: Result<Self, KeyParseError>)
        ensures
            res is Ok <==> uuid_parse(s@) is Some,
            res matches Ok(k) ==> uuid_parse(s@) == Some(k.0),
            forall|v: u128| #[trigger] uuid_text(v) == s@ ==> res == Ok::<Self, KeyParseError>(OrgKey(v)),
    {
        match uuid_from_text(s) {
            Ok(v) => Ok(OrgKey(v)),
            Err(_) => Err(KeyParseError),
        }
    }

    /// The hyphenated lower-case text of the identifier.
    pub fn to_string(&self) -> (res: String)
        ensures
            res@ == uuid_text(self.0),
    {
        uuid_to_text(self.0)
    }

    /// The identifier's sixteen bytes, most significant first.
    pub fn as_bytes(&self) -> (res: Vec<u8>)
        ensures
            res@ == be_bytes(self.0),
    {
        let b = u128_to_be_bytes(self.0);
        let mut out: Vec<u8> = Vec::new();
        let mut i: usize = 0;
        while i < 16
            invariant
                i <= 16,
                b@ == be_bytes(self.0),
                out@ == b@.take(i as int),
            decreases 16 - i,
        {
            out.push(b[i]);
            i = i + 1;
            assert(out@ =~= b@.take(i as int));
        }
        assert(b@.take(16) =~= b@);
        out
    }
}

/// The identifier of a section a pupil works on: a 128-bit UUID.
#[derive(Debug, Clone, Copy, PartialEq, Eq, Structural)]
pub struct SectionKey(pub u128);

impl SectionKey {
    /// The identifier whose bytes, as stored, are `b`: sixteen bytes are
    /// needed.
    pub fn from_key_bytes(b: &Vec<u8>) -> (res: Option<Self>)
        ensures
            res is Some <==> b@.len() == 16,
            res matches Some(k) ==> be_bytes(k.0) == b@,
    {
        match value_of_key_bytes(b) {
            Some(v) => Some(SectionKey(v)),
            None => None,
        }
    }

    /// A fresh random identifier.
    pub fn generate() -> (res: Self)
        ensures
            is_random_uuid(res.0),
    {
        SectionKey(uuid_random())
    }

    /// Reads an identifier from its text.
    pub fn from_str(s: &str) -> (res: Result<Self, KeyParseError>)
        ensures
            res is Ok <==> uuid_parse(s@) is Some,
            res matches Ok(k) ==> uuid_parse(s@) == Some(k.0),
            forall|v: u128| #[trigger] uuid_text(v) == s@ ==> res == Ok::<Self, KeyParseError>(SectionKey(v)),
    {
        match uuid_from_text(s) {
            Ok(v) => Ok(SectionKey(v)),
            Err(_) => Err(KeyParseError),
        }
    }

    /// The hyphenated lower-case text of the identifier.
    pub fn to_string(&self) -> (res: String)
        ensures
            res@ == uuid_text(self.0),
    {
        uuid_to_text(self.0)
    }

    /// The identifier's sixteen bytes, most significant first.
    pub fn as_bytes(&self) -> (res: Vec<u8>)
        ensures
            res@ == be_bytes(self.0),
    {
        let b = u128_to_be_bytes(self.0);
        let mut out: Vec<u8> = Vec::new();
        let mut i: usize = 0;
        while i < 16
            invariant
                i <= 16,
                b@ == be_bytes(self.0),
                out@ == b@.take(i as int),
            decreases 16 - i,
        {
            out.push(b[i]);
            i = i + 1;
            assert(out@ =~= b@.take(i as int));
        }
        assert(b@.take(16) =~= b@);
        out
    }
}

/// The identifier of a login session: a 128-bit UUID.
#[derive(Debug, Clone, Copy, PartialEq, Eq, Structural)]
pub struct AuthToken(pub u128);

impl AuthToken {
    /// A fresh random identifier.
    pub fn generate() -> (res: Self)
        ensures
            is_random_uuid(res.0),
    {
        AuthToken(uuid_random())
    }

    /// Reads an identifier from its text.
    pub fn from_str(s: &str) -> (res: Result<Self, KeyParseError>)
        ensures
            res is Ok <==> uuid_parse(s@) is Some,
            res matches Ok(k) ==> uuid_parse(s@) == Some(k.0),
            forall|v: u128| #[trigger] uuid_text(v) == s@ ==> res == Ok::<Self, KeyParseError>(AuthToken(v)),
    {
        match uuid_from_text(s) {
            Ok(v) => Ok(AuthToken(v)),
            Err(_) => Err(KeyParseError),
        }
    }

    /// The hyphenated lower-case text of the identifier.
    pub fn to_string(&self) -> (res: String)
        ensures
            res@ == uuid_text(self.0),
    {
        uuid_to_text(self.0)
    }

    /// The identifier's sixteen bytes, most significant first.
    pub fn as_bytes(&self) -> (res: Vec<u8>)
        ensures
            res@ == be_bytes(self.0),
    {
        let b = u128_to_be_bytes(self.0);
        let mut out: Vec<u8> = Vec::new();
        let mut i: usize = 0;
        while i < 16
            invariant
                i <= 16,
                b@ == be_bytes(self.0),
                out@ == b@.take(i as int),
            decreases 16 - i,
        {
            out.push(b[i]);
            i = i + 1;
            assert(out@ =~= b@.take(i as int));
        }
        assert(b@.take(16) =~= b@);
        out
    }
}

/// The identifier of an emailed link: a 128-bit UUID.
#[derive(Debug, Clone, Copy, PartialEq, Eq, Structural)]
pub struct LinkToken(pub u128);

impl LinkToken {
    /// A fresh random identifier.
    pub fn generate() -> (res: Self)
        ensures
            is_random_uuid(res.0),
    {
        LinkToken(uuid_random())
    }

    /// Reads an identifier from its text.
    pub fn from_str(s: &str) -> (res: Result<Self, KeyParseError>)
        ensures
            res is Ok <==> uuid_parse(s@) is Some,
            res matches Ok(k) ==> uuid_parse(s@) == Some(k.0),
            forall|v: u128| #[trigger] uuid_text(v) == s@ ==> res == Ok::<Self, KeyParseError>(LinkToken(v)),
    {
        match uuid_from_text(s) {
            Ok(v) => Ok(LinkToken(v)),
            Err(_) => Err(KeyParseError),
        }
    }

    /// The hyphenated lower-case text of the identifier.
    pub fn to_string(&self) -> (res: String)
        ensures
            res@ == uuid_text(self.0),
    {
        uuid_to_text(self.0)
    }

    /// The identifier's sixteen bytes, most significant first.
    pub fn as_bytes(&self) -> (res: Vec<u8>)
        ensures
            res@ == be_bytes(self.0),
    {
        let b = u128_to_be_bytes(self.0);
        let mut out: Vec<u8> = Vec::new();
        let mut i: usize = 0;
        while i < 16
            invariant
                i <= 16,
                b@ == be_bytes(self.0),
                out@ == b@.take(i as int),
            decreases 16 - i,
        {
            out.push(b[i]);
            i = i + 1;
            assert(out@ =~= b@.take(i as int));
        }
        assert(b@.take(16) =~= b@);
        out
    }
}

} // verus!
