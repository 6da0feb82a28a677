//! What the text of an image source says about the image.
//!
//! A source is either a remote URL (`http://` or `https://`) or a data URI
//! (`data:<mime>;base64,<payload>`). The functions here tell the two apart
//! and read the MIME type, the payload and the file extension off the text.

use crate::text::{
    ascii_lower, ascii_lowered, begins_with, chars_of, equals_str, find, find_from, lower,
    push_all, push_range, push_str, starts_with, string_of,
};
use vstd::prelude::*;

verus! {

/// The source is a remote URL.
pub open spec fn is_remote_url(s: Seq<char>) -> bool {
    starts_with(s, "http://"@) || starts_with(s, "https://"@)
}

/// The source is a data URI of an image.
pub open spec fn is_data_image(s: Seq<char>) -> bool {
    starts_with(s, "data:image/"@)
}

/// The source is a data URI.
pub open spec fn is_data_uri(s: Seq<char>) -> bool {
    starts_with(s, "data:"@)
}

/// First index at or after `i` that holds `;` or `,` (`s.len()` if none).
pub open spec fn mime_end(s: Seq<char>, i: int) -> int
    decreases s.len() - i,
{
    if 0 <= i < s.len() && s[i] != ';' && s[i] != ',' {
        mime_end(s, i + 1)
    } else {
        i
    }
}

/// The MIME type that a data URI names: what stands between `data:` and
/// the first `;` or `,`, if that is not empty.
pub open spec fn embedded_mime(s: Seq<char>) -> Option<Seq<char>> {
    let end = mime_end(s, 5);
    if is_data_uri(s) && 5 < end < s.len() {
        Some(s.subrange(5, end))
    } else {
        None
    }
}

/// The payload of a data URI: what follows its first comma.
pub open spec fn payload_of(s: Seq<char>) -> Option<Seq<char>> {
    if is_data_uri(s) {
        match find_from(s, 0, seq![',']) {
            Some(comma) => Some(s.subrange(comma + 1, s.len() as int)),
            None => None,
        }
    } else {
        None
    }
}

/// File extension for a MIME type; `png` for one that is not known.
pub open spec fn extension_for_mime(mime: Seq<char>) -> Seq<char> {
    let m = ascii_lowered(mime);
    if m == "image/jpeg"@ || m == "image/jpg"@ {
        "jpg"@
    } else if m == "image/gif"@ {
        "gif"@
    } else if m == "image/webp"@ {
        "webp"@
    } else if m == "image/bmp"@ {
        "bmp"@
    } else if m == "image/svg+xml"@ {
        "svg"@
    } else {
        "png"@
    }
}

/// MIME type for a file extension; `image/png` for one that is not known.
pub open spec fn mime_for_extension(ext: Seq<char>) -> Seq<char> {
    let e = ascii_lowered(ext);
    if e == "jpg"@ || e == "jpeg"@ {
        "image/jpeg"@
    } else if e == "gif"@ {
        "image/gif"@
    } else if e == "webp"@ {
        "image/webp"@
    } else if e == "bmp"@ {
        "image/bmp"@
    } else if e == "svg"@ {
        "image/svg+xml"@
    } else {
        "image/png"@
    }
}

/// The extension is one of the image formats that are known by name.
pub open spec fn is_image_extension(ext: Seq<char>) -> bool {
    let e = ascii_lowered(ext);
    e == "png"@ || e == "jpg"@ || e == "jpeg"@ || e == "gif"@ || e == "webp"@ || e == "bmp"@ || e
        == "svg"@
}

/// First index at or after `i` that holds `?` or `#` (`s.len()` if none).
pub open spec fn path_end(s: Seq<char>, i: int) -> int
    decreases s.len() - i,
{
    if 0 <= i < s.len() && s[i] != '?' && s[i] != '#' {
        path_end(s, i + 1)
    } else {
        i
    }
}

/// A character that separates the components of a path.
pub open spec fn is_separator(c: char) -> bool {
    c == '/' || c == '\\'
}

/// Start of the last component of `s[..end]`: the index behind the last
/// separator before `end`, or 0.
pub open spec fn name_start(s: Seq<char>, end: int) -> int
    decreases end,
{
    if 0 < end <= s.len() && !is_separator(s[end - 1]) {
        name_start(s, end - 1)
    } else if end < 0 {
        0
    } else {
        end
    }
}

/// Index of the last `.` in `s[lo + 1..end]`, or `end` if there is none.
/// The dot of a name that starts with a dot does not count.
pub open spec fn dot_index(s: Seq<char>, lo: int, end: int) -> int {
    last_dot(s, lo, end, end)
}

/// Worker of `dot_index`: looks below `j`.
pub open spec fn last_dot(s: Seq<char>, lo: int, end: int, j: int) -> int
    decreases j,
{
    if 0 <= lo && lo + 1 < j <= s.len() {
        if s[j - 1] == '.' {
            j - 1
        } else {
            last_dot(s, lo, end, j - 1)
        }
    } else {
        end
    }
}

/// Extension of the last component of `s[..end]`, without the dot; empty
/// if it has none.
pub open spec fn extension_in(s: Seq<char>, end: int) -> Seq<char> {
    let lo = name_start(s, end);
    let dot = dot_index(s, lo, end);
    if 0 <= dot < end <= s.len() {
        s.subrange(dot + 1, end)
    } else {
        Seq::empty()
    }
}

/// Last component of the path `s` without its extension.
pub open spec fn file_stem(s: Seq<char>) -> Seq<char> {
    let end = s.len() as int;
    let lo = name_start(s, end);
    let dot = dot_index(s, lo, end);
    if 0 <= lo <= dot <= end {
        s.subrange(lo, dot)
    } else {
        Seq::empty()
    }
}

/// Extension of the path `s`, without the dot; empty if it has none.
pub open spec fn path_extension(s: Seq<char>) -> Seq<char> {
    extension_in(s, s.len() as int)
}

/// File extension under which the image of a source is stored.
///
/// A data URI decides by its MIME type. A URL decides by the extension of
/// its path, where that names an image format. Anything else is stored as
/// `png`.
pub open spec fn extension_for_source(s: Seq<char>) -> Seq<char> {
    if is_data_uri(s) {
        match embedded_mime(s) {
            Some(mime) => extension_for_mime(mime),
            None => "png"@,
        }
    } else {
        let ext = extension_in(s, path_end(s, 0));
        if is_image_extension(ext) {
            ascii_lowered(ext)
        } else {
            "png"@
        }
    }
}

/// The path of the entry `name` of the directory `dir`.
pub open spec fn joined_path(dir: Seq<char>, name: Seq<char>) -> Seq<char> {
    if dir.len() == 0 {
        name
    } else if is_separator(dir.last()) {
        dir + name
    } else {
        dir + seq!['/'] + name
    }
}

/// The text of the data URI that carries `encoded` as base64 of type `mime`.
pub open spec fn data_uri_text(mime: Seq<char>, encoded: Seq<char>) -> Seq<char> {
    "data:"@ + mime + ";base64,"@ + encoded
}

proof fn lemma_mime_end_bounds(s: Seq<char>, i: int)
    requires
        0 <= i <= s.len(),
    ensures
        i <= mime_end(s, i) <= s.len(),
    decreases s.len() - i,
{
    if i < s.len() && s[i] != ';' && s[i] != ',' {
        lemma_mime_end_bounds(s, i + 1);
    }
}

proof fn lemma_path_end_bounds(s: Seq<char>, i: int)
    requires
        0 <= i <= s.len(),
    ensures
        i <= path_end(s, i) <= s.len(),
    decreases s.len() - i,
{
    if i < s.len() && s[i] != '?' && s[i] != '#' {
        lemma_path_end_bounds(s, i + 1);
    }
}

/// The path of the entry `name` of the directory `dir`.
pub fn join_path(dir: &Vec<char>, name: &Vec<char>) -> (r: Vec<char>)
    ensures
        r@ == joined_path(dir@, name@),
{
    let mut r: Vec<char> = Vec::new();
    push_all(&mut r, dir);
    if dir.len() > 0 && dir[dir.len() - 1] != '/' && dir[dir.len() - 1] != '\\' {
        r.push('/');
    }
    push_all(&mut r, name);
    assert(r@ =~= joined_path(dir@, name@));
    r
}

/// The data URI that carries `encoded` as base64 of type `mime`.
pub fn data_uri(mime: &Vec<char>, encoded: &str) -> (r: String)
    ensures
        r@ == data_uri_text(mime@, encoded@),
{
    let mut r: Vec<char> = Vec::new();
    push_str(&mut r, "data:");
    push_all(&mut r, mime);
    push_str(&mut r, ";base64,");
    push_str(&mut r, encoded);
    string_of(&r)
}

/// Whether the source is a remote URL.
pub fn source_is_remote(s: &Vec<char>) -> (r: bool)
    ensures
        r == is_remote_url(s@),
{
    begins_with(s, "http://") || begins_with(s, "https://")
}

/// Whether the source is a data URI of an image.
pub fn source_is_data_image(s: &Vec<char>) -> (r: bool)
    ensures
        r == is_data_image(s@),
{
    begins_with(s, "data:image/")
}

/// Whether the source is a data URI.
pub fn source_is_data_uri(s: &Vec<char>) -> (r: bool)
    ensures
        r == is_data_uri(s@),
{
    begins_with(s, "data:")
}

/// The MIME type that a data URI names.
pub fn mime_of_source(s: &Vec<char>) -> (r: Option<Vec<char>>)
    ensures
        match r {
            Some(m) => embedded_mime(s@) == Some(m@),
            None => embedded_mime(s@) is None,
        },
{
    if !source_is_data_uri(s) {
        return None;
    }
    proof {
        reveal_strlit("data:");
        assert(s@.len() >= "data:"@.len());
        lemma_mime_end_bounds(s@, 5);
    }
    let mut end: usize = 5;
    while end < s.len() && s[end] != ';' && s[end] != ','
        invariant
            5 <= end <= s.len(),
            mime_end(s@, 5) == mime_end(s@, end as int),
        decreases s.len() - end,
    {
        end = end + 1;
    }
    if 5 < end && end < s.len() {
        let mut m: Vec<char> = Vec::new();
        push_range(&mut m, s, 5, end);
        Some(m)
    } else {
        None
    }
}

/// The payload of a data URI.
pub fn payload_of_source(s: &Vec<char>) -> (r: Option<Vec<char>>)
    ensures
        match r {
            Some(p) => payload_of(s@) == Some(p@),
            None => payload_of(s@) is None,
        },
{
    if !source_is_data_uri(s) {
        return None;
    }
    let comma: Vec<char> = vec![','];
    assert(comma@ =~= seq![',']);
    match find(s, 0, &comma) {
        Some(at) => {
            proof {
                crate::text::lemma_find_from(s@, 0, seq![',']);
                assert(at + comma@.len() <= s.len());
            }
            let mut p: Vec<char> = Vec::new();
            push_range(&mut p, s, at + 1, s.len());
            Some(p)
        },
        None => None,
    }
}

/// `s` with every ASCII letter in lower case.
pub fn lowered(s: &Vec<char>) -> (r: Vec<char>)
    ensures
        r@ == ascii_lowered(s@),
{
    let mut r: Vec<char> = Vec::new();
    let mut i: usize = 0;
    while i < s.len()
        invariant
            i <= s.len(),
            r@ == ascii_lowered(s@).take(i as int),
        decreases s.len() - i,
    {
        r.push(lower(s[i]));
        assert(ascii_lowered(s@)[i as int] == ascii_lower(s@[i as int]));
        assert(r@ =~= ascii_lowered(s@).take(i + 1));
        i = i + 1;
    }
    assert(ascii_lowered(s@).take(s.len() as int) =~= ascii_lowered(s@));
    r
}

/// File extension for a MIME type.
pub fn extension_of_mime(mime: &Vec<char>) -> (r: Vec<char>)
    ensures
        r@ == extension_for_mime(mime@),
{
    let m = lowered(mime);
    if equals_str(&m, "image/jpeg") || equals_str(&m, "image/jpg") {
        chars_of("jpg")
    } else if equals_str(&m, "image/gif") {
        chars_of("gif")
    } else if equals_str(&m, "image/webp") {
        chars_of("webp")
    } else if equals_str(&m, "image/bmp") {
        chars_of("bmp")
    } else if equals_str(&m, "image/svg+xml") {
        chars_of("svg")
    } else {
        chars_of("png")
    }
}

/// MIME type for a file extension.
pub fn mime_of_extension(ext: &Vec<char>) -> (r: Vec<char>)
    ensures
        r@ == mime_for_extension(ext@),
{
    let e = lowered(ext);
    if equals_str(&e, "jpg") || equals_str(&e, "jpeg") {
        chars_of("image/jpeg")
    } else if equals_str(&e, "gif") {
        chars_of("image/gif")
    } else if equals_str(&e, "webp") {
        chars_of("image/webp")
    } else if equals_str(&e, "bmp") {
        chars_of("image/bmp")
    } else if equals_str(&e, "svg") {
        chars_of("image/svg+xml")
    } else {
        chars_of("image/png")
    }
}

/// Whether the extension names a known image format.
pub fn extension_is_image(ext: &Vec<char>) -> (r: bool)
    ensures
        r == is_image_extension(ext@),
{
    let e = lowered(ext);
    equals_str(&e, "png") || equals_str(&e, "jpg") || equals_str(&e, "jpeg") || equals_str(
        &e,
        "gif",
    ) || equals_str(&e, "webp") || equals_str(&e, "bmp") || equals_str(&e, "svg")
}

/// Start of the last component of `s[..end]`.
fn find_name_start(s: &Vec<char>, end: usize) -> (r: usize)
    requires
        end <= s.len(),
    ensures
        r == name_start(s@, end as int),
        r <= end,
{
    let mut j: usize = end;
    while j > 0 && s[j - 1] != '/' && s[j - 1] != '\\'
        invariant
            j <= end <= s.len(),
            name_start(s@, end as int) == name_start(s@, j as int),
        decreases j,
    {
        j = j - 1;
    }
    j
}

/// Index of the dot that starts the extension of `s[lo..end]`, or `end`.
fn find_dot(s: &Vec<char>, lo: usize, end: usize) -> (r: usize)
    requires
        lo <= end <= s.len(),
    ensures
        r == dot_index(s@, lo as int, end as int),
        lo <= r <= end,
{
    let mut j: usize = end;
    while j > lo && j - lo > 1
        invariant
            lo <= j <= end <= s.len(),
            dot_index(s@, lo as int, end as int) == last_dot(s@, lo as int, end as int, j as int),
        decreases j,
    {
        if s[j - 1] == '.' {
            return j - 1;
        }
        j = j - 1;
    }
    end
}

/// Extension of the last component of `s[..end]`, without the dot.
fn extension_before(s: &Vec<char>, end: usize) -> (r: Vec<char>)
    requires
        end <= s.len(),
    ensures
        r@ == extension_in(s@, end as int),
{
    let lo = find_name_start(s, end);
    let dot = find_dot(s, lo, end);
    let mut r: Vec<char> = Vec::new();
    if dot < end {
        push_range(&mut r, s, dot + 1, end);
    }
    r
}

/// Last component of the path `s` without its extension.
pub fn stem_of_path(s: &Vec<char>) -> (r: Vec<char>)
    ensures
        r@ == file_stem(s@),
{
    let end = s.len();
    let lo = find_name_start(s, end);
    let dot = find_dot(s, lo, end);
    let mut r: Vec<char> = Vec::new();
    push_range(&mut r, s, lo, dot);
    r
}

/// Extension of the path `s`, without the dot.
pub fn extension_of_path(s: &Vec<char>) -> (r: Vec<char>)
    ensures
        r@ == path_extension(s@),
{
    extension_before(s, s.len())
}

/// File extension under which the image of a source is stored.
pub fn extension_of_source(s: &Vec<char>) -> (r: Vec<char>)
    ensures
        r@ == extension_for_source(s@),
{
    if source_is_data_uri(s) {
        match mime_of_source(s) {
            Some(mime) => extension_of_mime(&mime),
            None => chars_of("png"),
        }
    } else {
        proof {
            lemma_path_end_bounds(s@, 0);
        }
        let mut end: usize = 0;
        while end < s.len() && s[end] != '?' && s[end] != '#'
            invariant
                end <= s.len(),
                path_end(s@, 0) == path_end(s@, end as int),
            decreases s.len() - end,
        {
            end = end + 1;
        }
        let ext = extension_before(s, end);
        if extension_is_image(&ext) {
            lowered(&ext)
        } else {
            chars_of("png")
        }
    }
}

} // verus!
