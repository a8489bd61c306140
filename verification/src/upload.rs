use vstd::prelude::*;
use vstd::utf8::encode_utf8;
use crate::section::Section;
use crate::util::{self, decimal, is_blank, whitespace};

verus! {

/// The text without its leading white space.
pub open spec fn trim_start(s: Seq<char>) -> Seq<char>
    decreases s.len(),
{
    if s.len() > 0 && whitespace(s[0]) {
        trim_start(s.drop_first())
    } else {
        s
    }
}

/// The text without its trailing white space.
pub open spec fn trim_end(s: Seq<char>) -> Seq<char>
    decreases s.len(),
{
    if s.len() > 0 && whitespace(s.last()) {
        trim_end(s.drop_last())
    } else {
        s
    }
}

/// The text without its leading and trailing white space.
pub open spec fn trimmed(s: Seq<char>) -> Seq<char> {
    trim_end(trim_start(s))
}

/// `str::trim`: std removes the leading and trailing characters that are
/// white space (as `char::is_whitespace` tells).
#[verifier::external_body]
fn trim_text(s: &str) -> (res: String)
    ensures
        res@ == trimmed(s@),
{
    s.trim().to_owned()
}

/// Whether a character is one `sanitize_filename` removes on every
/// platform: a path separator, one of `? < > : * | "`, or a control
/// character.
pub open spec fn is_unsafe_file_char(c: char) -> bool {
    c == '/' || c == '\\' || c == '?' || c == '<' || c == '>' || c == ':' || c == '*' || c == '|' || c == '"'
        || (c as u32) <= 0x1f || (0x80 <= (c as u32) && (c as u32) <= 0x9f)
}

/// The name without the characters of `is_unsafe_file_char`.
pub open spec fn safe_chars(name: Seq<char>) -> Seq<char> {
    name.filter(|c: char| !is_unsafe_file_char(c))
}

/// Whether a name is made only of dots (and is not empty).
pub open spec fn only_dots(name: Seq<char>) -> bool {
    name.len() > 0 && forall|i: int| 0 <= i < name.len() ==> name[i] == '.'
}

/// The character in lower case, for the letters A to Z.
pub open spec fn ascii_lower(c: char) -> char {
    if 'A' <= c && c <= 'Z' {
        ((c as u32) + 32) as char
    } else {
        c
    }
}

/// Whether a name begins, in any case, like one of the device names that
/// Windows reserves (`con`, `prn`, `aux`, `nul`, `com`.., `lpt`..).
pub open spec fn device_like(name: Seq<char>) -> bool {
    name.len() >= 3 && {
        let w = seq![ascii_lower(name[0]), ascii_lower(name[1]), ascii_lower(name[2])];
        w == "con"@ || w == "prn"@ || w == "aux"@ || w == "nul"@ || w == "com"@ || w == "lpt"@
    }
}

/// `sanitize_filename::sanitize`. Its source removes the characters of
/// `is_unsafe_file_char`, then a name made only of dots, on Windows also a
/// reserved device name, and cuts what is left to at most 255 bytes at a
/// character's boundary. So the result is a beginning of the name without
/// those characters, of at most 255 bytes, and is that whole name when it is
/// short enough, not only dots and not like a device name. Which of the
/// other names the platform empties, and where a longer name is cut, is not
/// said.
#[verifier::external_body]
fn sanitize_name(name: &str) -> (res: String)
    ensures
        forall|i: int| 0 <= i < res@.len() ==> !is_unsafe_file_char(#[trigger] res@[i]),
        res@.len() <= safe_chars(name@).len(),
        res@ == safe_chars(name@).take(res@.len() as int),
        encode_utf8(res@).len() <= 255,
        encode_utf8(safe_chars(name@)).len() <= 255 && !only_dots(safe_chars(name@)) && !device_like(
            safe_chars(name@),
        ) ==> res@ == safe_chars(name@),
{
    sanitize_filename::sanitize(name)
}

/// The name under which an uploaded file is stored: nothing for a blank
/// name, else the name made safe: a beginning of the name without unsafe
/// characters, of at most 255 bytes, and all of it when it is short enough,
/// not only dots and not like a device name.
pub fn upload_filename(fname: &str) -> (res: Option<String>)
    ensures
        is_blank(fname@) ==> res is None,
        !is_blank(fname@) ==> res is Some,
        res matches Some(n) ==> (forall|i: int| 0 <= i < n@.len() ==> !is_unsafe_file_char(#[trigger] n@[i]))
            && encode_utf8(n@).len() <= 255,
        res matches Some(n) ==> n@.len() <= safe_chars(fname@).len() && n@ == safe_chars(fname@).take(n@.len() as int),
        res matches Some(n) ==> (encode_utf8(safe_chars(fname@)).len() <= 255 && !only_dots(safe_chars(fname@))
            && !device_like(safe_chars(fname@)) ==> n@ == safe_chars(fname@)),
{
    if util::is_blank_text(fname) {
        None
    } else {
        let n = sanitize_name(fname);
        Some(n)
    }
}

/// The name tried for an uploaded file whose name is taken: its stem, a
/// number, a dot and its extension.
pub fn numbered_filename(stem: &str, number: usize, extension: &str) -> (res: String)
    ensures
        res@ == stem@ + decimal(number as nat) + "."@ + extension@,
{
    let n = util::count_text(number);
    stem.to_owned().concat(n.as_str()).concat(".").concat(extension)
}

/// What the upload of a section's form field asks for besides storing.
#[derive(Debug, Clone, PartialEq)]
pub enum FieldAction {
    /// Nothing more.
    Nothing,
    /// The file of that name is to be deleted.
    DeleteFile(String),
}

impl Section {
    /// Applies a form field of a section's upload, its value trimmed: the
    /// plan and reflection are replaced, and a `delete` field that is not
    /// blank names a file to delete. Other fields are ignored.
    pub fn apply_field(&mut self, name: &str, value: &str) -> (res: FieldAction)
        ensures
            name@ == "plan"@ ==> final(self).plan@ == trimmed(value@) && res == FieldAction::Nothing,
            name@ == "reflection"@ ==> final(self).reflection@ == trimmed(value@) && res == FieldAction::Nothing,
            name@ != "plan"@ ==> final(self).plan == old(self).plan,
            name@ != "reflection"@ ==> final(self).reflection == old(self).reflection,
            final(self).section_index == old(self).section_index,
            final(self).award == old(self).award,
            final(self).activity == old(self).activity,
            final(self).user_id == old(self).user_id,
            final(self).input_data == old(self).input_data,
            final(self).state == old(self).state,
            final(self).outstanding == old(self).outstanding,
            name@ == "delete"@ && is_blank(trimmed(value@)) ==> res == FieldAction::Nothing,
            name@ == "delete"@ && !is_blank(trimmed(value@)) ==> res is DeleteFile,
            res matches FieldAction::DeleteFile(f) ==> name@ == "delete"@ && f@ == trimmed(value@),
            name@ != "plan"@ && name@ != "reflection"@ && name@ != "delete"@ ==> res == FieldAction::Nothing,
    {
        proof {
            reveal_strlit("plan");
            reveal_strlit("reflection");
            reveal_strlit("delete");
            assert("reflection"@ != "plan"@) by {
                assert("reflection"@.len() != "plan"@.len());
            }
            assert("delete"@ != "plan"@) by {
                assert("delete"@[0] != "plan"@[0]);
            }
            assert("delete"@ != "reflection"@) by {
                assert("delete"@.len() != "reflection"@.len());
            }
        }
        let value = trim_text(value);
        if util::same_text(name, "plan") {
            self.plan = value;
            FieldAction::Nothing
        } else if util::same_text(name, "reflection") {
            self.reflection = value;
            FieldAction::Nothing
        } else if util::same_text(name, "delete") {
            if !util::is_blank_text(value.as_str()) {
                FieldAction::DeleteFile(value)
            } else {
                FieldAction::Nothing
            }
        } else {
            FieldAction::Nothing
        }
    }
}

/// Whether a file with this extension is shown as a picture: `png`, `jpg`
/// or `jpeg`.
pub fn is_image_extension(extension: &str) -> (res: bool)
    ensures
        res == (extension@ == "png"@ || extension@ == "jpg"@ || extension@ == "jpeg"@),
{
    util::same_text(extension, "png") || util::same_text(extension, "jpg") || util::same_text(extension, "jpeg")
}

} // verus!
