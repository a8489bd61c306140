use vstd::prelude::*;
use rand::Rng;
use vstd::string::StringSliceAdditionalSpecFns;

verus! {

/// An ASCII letter or digit.
pub open spec fn is_ascii_alphanumeric(c: char) -> bool {
    ('a' <= c && c <= 'z') || ('A' <= c && c <= 'Z') || ('0' <= c && c <= '9')
}

/// What `char::is_alphanumeric` answers for a character.
pub uninterp spec fn char_alphanumeric(c: char) -> bool;

/// What `char::is_whitespace` answers for a character.
pub uninterp spec fn char_whitespace(c: char) -> bool;

/// Whether a character is alphabetic or numeric: among ASCII characters
/// exactly the letters and the digits.
pub open spec fn alphanumeric(c: char) -> bool {
    if (c as u32) < 128 {
        is_ascii_alphanumeric(c)
    } else {
        char_alphanumeric(c)
    }
}

/// Whether a character is white space: among ASCII characters exactly tab,
/// line feed, vertical tab, form feed, carriage return and space.
pub open spec fn whitespace(c: char) -> bool {
    if (c as u32) < 128 {
        c == ' ' || ('\t' <= c && c <= '\r')
    } else {
        char_whitespace(c)
    }
}

/// `char::is_alphanumeric`: whether the character is alphabetic or numeric
/// in Unicode. std documents that among ASCII characters these are exactly
/// the letters and the digits.
#[verifier::external_body]
fn char_is_alphanumeric(c: char) -> (res: bool)
    ensures
        res == char_alphanumeric(c),
        res == alphanumeric(c),
{
    c.is_alphanumeric()
}

/// `char::is_whitespace`: whether the character has the Unicode
/// `White_Space` property. Among ASCII characters these are tab, line feed,
/// vertical tab, form feed, carriage return and space.
#[verifier::external_body]
fn char_is_whitespace(c: char) -> (res: bool)
    ensures
        res == char_whitespace(c),
        res == whitespace(c),
{
    c.is_whitespace()
}

/// A character that may appear in text the server stores and shows.
pub open spec fn is_server_char(c: char) -> bool {
    alphanumeric(c) || c == '@' || c == '.' || c == '-' || c == '_' || c == '!' || c == ' '
}

/// Text made only of characters the server accepts (it may be empty).
pub open spec fn optional_string_server_valid(s: Seq<char>) -> bool {
    forall|i: int| 0 <= i < s.len() ==> #[trigger] is_server_char(s[i])
}

/// Text that is empty once surrounding white space is trimmed.
pub open spec fn is_blank(s: Seq<char>) -> bool {
    forall|i: int| 0 <= i < s.len() ==> #[trigger] whitespace(s[i])
}

/// Text that is not blank and holds only accepted characters.
pub open spec fn string_server_valid(s: Seq<char>) -> bool {
    !is_blank(s) && optional_string_server_valid(s)
}

/// Text of the form `user@host`: one `@`, something before it, and after it
/// a host holding a `.`.
pub open spec fn email_shaped(s: Seq<char>) -> bool {
    exists|a: int|
        0 < a && a + 1 < s.len() && #[trigger] s[a] == '@' && (forall|j: int|
            0 <= j < s.len() && j != a ==> s[j] != '@') && (exists|d: int|
            a < d < s.len() && s[d] == '.')
}

/// A valid email: accepted text that is shaped like an email address.
pub open spec fn email_valid(s: Seq<char>) -> bool {
    string_server_valid(s) && email_shaped(s)
}

/// Whether the text, once trimmed of white space, is empty.
pub(crate) fn is_blank_text(s: &str) -> (res: bool)
    ensures
        res == is_blank(s@),
{
    let n = s.unicode_len();
    let mut i: usize = 0;
    while i < n
        invariant
            n == s@.len(),
            i <= n,
            forall|j: int| 0 <= j < i ==> #[trigger] whitespace(s@[j]),
        decreases n - i,
    {
        if !char_is_whitespace(s.get_char(i)) {
            return false;
        }
        i = i + 1;
    }
    true
}

/// Whether the text is accepted by the server and not blank.
pub fn is_string_server_valid(s: &str) -> (res: bool)
    ensures
        res == string_server_valid(s@),
{
    if is_blank_text(s) {
        return false;
    }
    is_optional_string_server_valid(s)
}

/// Whether every character of the text is one the server accepts: a letter
/// or digit, or one of `@ . - _ !` and space.
pub fn is_optional_string_server_valid(s: &str) -> (res: bool)
    ensures
        res == optional_string_server_valid(s@),
{
    let n = s.unicode_len();
    let mut i: usize = 0;
    while i < n
        invariant
            n == s@.len(),
            i <= n,
            forall|j: int| 0 <= j < i ==> #[trigger] is_server_char(s@[j]),
        decreases n - i,
    {
        let c = s.get_char(i);
        if !(char_is_alphanumeric(c) || c == '@' || c == '.' || c == '-' || c == '_' || c == '!'
            || c == ' ') {
            assert(!is_server_char(s@[i as int]));
            return false;
        }
        i = i + 1;
    }
    true
}

/// Whether the text is a valid email address: accepted text with a single
/// `@`, a non-empty user before it and a host after it that holds a `.`.
pub fn is_email_valid(s: &str) -> (res: bool)
    ensures
        res == email_valid(s@),
{
    if !is_string_server_valid(s) {
        return false;
    }
    let n = s.unicode_len();
    // Find the first `@`.
    let mut a: usize = 0;
    while a < n && s.get_char(a) != '@'
        invariant
            n == s@.len(),
            a <= n,
            forall|j: int| 0 <= j < a ==> s@[j] != '@',
        decreases n - a,
    {
        a = a + 1;
    }
    if a == n || a == 0 || a + 1 == n {
        assert(!email_shaped(s@)) by {
            if email_shaped(s@) {
                let w = choose|w: int|
                    0 < w && w + 1 < s@.len() && #[trigger] s@[w] == '@' && (forall|j: int|
                        0 <= j < s@.len() && j != w ==> s@[j] != '@') && (exists|d: int|
                        w < d < s@.len() && s@[d] == '.');
                if a < n {
                    assert(w == a);
                }
            }
        }
        return false;
    }
    // The host must hold no further `@` and at least one `.`.
    let mut k: usize = a + 1;
    let mut has_dot = false;
    while k < n
        invariant
            n == s@.len(),
            a < k <= n,
            s@[a as int] == '@',
            forall|j: int| a < j < k ==> s@[j] != '@',
            has_dot <==> exists|d: int| a < d < k && s@[d] == '.',
        decreases n - k,
    {
        let c = s.get_char(k);
        if c == '@' {
            assert(!email_shaped(s@)) by {
                if email_shaped(s@) {
                    let w = choose|w: int|
                        0 < w && w + 1 < s@.len() && #[trigger] s@[w] == '@' && (forall|j: int|
                            0 <= j < s@.len() && j != w ==> s@[j] != '@') && (exists|d: int|
                            w < d < s@.len() && s@[d] == '.');
                    assert(s@[a as int] == '@');
                    assert(s@[k as int] == '@');
                }
            }
            return false;
        }
        if c == '.' {
            has_dot = true;
        }
        k = k + 1;
    }
    if has_dot {
        assert(s@[a as int] == '@');
        assert(email_shaped(s@));
    } else {
        assert(!email_shaped(s@)) by {
            if email_shaped(s@) {
                let w = choose|w: int|
                    0 < w && w + 1 < s@.len() && #[trigger] s@[w] == '@' && (forall|j: int|
                        0 <= j < s@.len() && j != w ==> s@[j] != '@') && (exists|d: int|
                        w < d < s@.len() && s@[d] == '.');
                assert(s@[a as int] == '@');
                assert(w == a);
            }
        }
    }
    has_dot
}

/// Whether a password is long enough: its UTF-8 encoding (whose length std
/// reports as a `usize`) has at least six bytes.
pub fn is_password_valid(p: &str) -> (res: bool)
    ensures
        res == (p.spec_bytes().len() as usize >= 6),
{
    if p.len() >= 6 {
        true
    } else {
        false
    }
}

/// `rand`'s `Alphanumeric` distribution sampled `len` times from the thread's
/// generator: random characters drawn from `A-Z`, `a-z` and `0-9`.
#[verifier::external_body]
fn random_alphanumeric(len: usize) -> (res: String)
    ensures
        res@.len() == len,
        forall|i: int| 0 <= i < len ==> #[trigger] is_ascii_alphanumeric(res@[i]),
{
    rand::thread_rng().sample_iter(&rand::distributions::Alphanumeric).take(len).map(char::from).collect()
}

/// A random password of `len` ASCII letters and digits.
pub fn gen_password(len: usize) -> (res: String)
    ensures
        res@.len() == len,
        forall|i: int| 0 <= i < len ==> #[trigger] is_ascii_alphanumeric(res@[i]),
{
    random_alphanumeric(len)
}

/// Whether two texts hold the same characters.
pub fn same_text(a: &str, b: &str) -> (res: bool)
    ensures
        res == (a@ == b@),
{
    let n = a.unicode_len();
    if n != b.unicode_len() {
        return false;
    }
    let mut i: usize = 0;
    while i < n
        invariant
            n == a@.len(),
            n == b@.len(),
            i <= n,
            forall|j: int| 0 <= j < i ==> a@[j] == b@[j],
        decreases n - i,
    {
        if a.get_char(i) != b.get_char(i) {
            return false;
        }
        i = i + 1;
    }
    assert(a@ =~= b@);
    true
}

/// The decimal digits of a number, without leading zeros ("0" for zero).
pub open spec fn decimal(n: nat) -> Seq<char>
    decreases n,
{
    if n < 10 {
        seq![((48 + n) as u32) as char]
    } else {
        decimal(n / 10).push(((48 + n % 10) as u32) as char)
    }
}

/// `usize::to_string`: std writes an unsigned number as its decimal digits.
#[verifier::external_body]
fn usize_to_text(n: usize) -> (res: String)
    ensures
        res@ == decimal(n as nat),
{
    n.to_string()
}

/// The decimal text of a count.
pub fn count_text(n: usize) -> (res: String)
    ensures
        res@ == decimal(n as nat),
{
    usize_to_text(n)
}

} // verus!
