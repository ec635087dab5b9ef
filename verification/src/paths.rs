//! Paths and names: the last component of a path, joining, extensions,
//! which names are pictures, and the cleaning of names that a user typed.
//!
//! Paths are plain strings here. What the platform decides (where a path is
//! cut into components, how one is adjoined to another) is asked of the
//! standard library and appears in contracts under a name; what the
//! library decides itself is stated in full.
use vstd::prelude::*;
use vstd::string::*;
use crate::text::{opt_text, same_text};

verus! {

/// The final component of `path` as `std::path::Path::file_name` reads it on
/// the platform the library is built for; `None` where it has none.
pub uninterp spec fn file_name_of(path: Seq<char>) -> Option<Seq<char>>;

/// `part` adjoined to `base` as `std::path::Path::join` does it on the
/// platform the library is built for.
pub uninterp spec fn joined(base: Seq<char>, part: Seq<char>) -> Seq<char>;

/// The lower-case form of a string as `str::to_lowercase` gives it.
pub uninterp spec fn lowercase_of(s: Seq<char>) -> Seq<char>;

/// Whether a character is whitespace: whether it has the Unicode property
/// White_Space, which is what `char::is_whitespace` tells. These are the
/// code points 9 to 13, the space, U+0085, U+00A0, U+1680, U+2000 to
/// U+200A, U+2028, U+2029, U+202F, U+205F and U+3000.
pub open spec fn is_whitespace(c: char) -> bool {
    let code = c as u32;
    ||| 0x09 <= code <= 0x0d
    ||| code == 0x20
    ||| code == 0x85
    ||| code == 0xa0
    ||| code == 0x1680
    ||| 0x2000 <= code <= 0x200a
    ||| code == 0x2028
    ||| code == 0x2029
    ||| code == 0x202f
    ||| code == 0x205f
    ||| code == 0x3000
}

/// Trusted: calls `std::path::Path::file_name` on `path` and hands the
/// component back as an owned string. The contract only gives the result its
/// name, `file_name_of`. A path that came from a string has a component that
/// is a string too, so nothing is lost in the conversion.
#[verifier::external_body]
pub(crate) fn path_component(path: &str) -> (name: Option<String>)
    ensures
        opt_text(name) == file_name_of(path@),
{
    std::path::Path::new(path).file_name().and_then(|n| n.to_str()).map(|n| n.to_string())
}

/// Trusted: calls `std::path::Path::join` and hands the new path back as a
/// string. The contract only gives the result its name, `joined`.
#[verifier::external_body]
pub(crate) fn path_join(base: &str, part: &str) -> (path: String)
    ensures
        path@ == joined(base@, part@),
{
    std::path::Path::new(base).join(part).to_string_lossy().into_owned()
}

/// Trusted: calls `str::to_lowercase`. The contract only gives the result
/// its name, `lowercase_of`.
#[verifier::external_body]
pub(crate) fn lowercase(s: &str) -> (lower: String)
    ensures
        lower@ == lowercase_of(s@),
{
    s.to_lowercase()
}

/// Trusted: calls `char::is_whitespace`, which std documents as telling
/// whether a character has the Unicode property White_Space. The contract
/// states the result by the code points that have the property.
#[verifier::external_body]
fn char_is_whitespace(c: char) -> (white: bool)
    ensures
        white == is_whitespace(c),
{
    c.is_whitespace()
}

/// Position of the last `.` in a name, or -1 where it has none.
pub open spec fn last_dot(name: Seq<char>) -> int
    decreases name.len(),
{
    if name.len() == 0 {
        -1
    } else if name.last() == '.' {
        name.len() - 1
    } else {
        last_dot(name.drop_last())
    }
}

/// Whether a file name splits into a stem and an extension: it has a `.`
/// that is not its first character, and it is not `..`.
pub open spec fn splits_at_dot(name: Seq<char>) -> bool {
    last_dot(name) > 0 && name != seq!['.', '.']
}

/// The extension of a file name: what follows its last `.`, where the name
/// splits at one.
pub open spec fn extension_of(name: Seq<char>) -> Option<Seq<char>> {
    if splits_at_dot(name) {
        Some(name.subrange(last_dot(name) + 1, name.len() as int))
    } else {
        None
    }
}

/// The stem of a file name: what precedes its last `.`, where the name
/// splits at one, and the whole name otherwise.
pub open spec fn stem_of(name: Seq<char>) -> Seq<char> {
    if splits_at_dot(name) {
        name.subrange(0, last_dot(name))
    } else {
        name
    }
}

/// Where the last dot is, the name holds a dot, and none after it.
pub proof fn last_dot_is_last(name: Seq<char>)
    ensures
        -1 <= last_dot(name) < name.len(),
        last_dot(name) >= 0 ==> name[last_dot(name)] == '.',
        forall|i: int| last_dot(name) < i < name.len() ==> name[i] != '.',
    decreases name.len(),
{
    if name.len() > 0 && name.last() != '.' {
        let front = name.drop_last();
        last_dot_is_last(front);
        assert forall|i: int| last_dot(name) < i < name.len() implies name[i] != '.' by {
            if i < front.len() {
                assert(front[i] == name[i]);
            }
        }
        if last_dot(name) >= 0 {
            assert(front[last_dot(front)] == name[last_dot(name)]);
        }
    }
}

/// Splits a file name into stem and extension.
pub fn split_extension(name: &str) -> (parts: (String, Option<String>))
    ensures
        parts.0@ == stem_of(name@),
        opt_text(parts.1) == extension_of(name@),
{
    let n = name.unicode_len();
    let mut i: usize = n;
    proof {
        assert(name@.take(n as int) =~= name@);
    }
    while i > 0 && name.get_char(i - 1) != '.'
        invariant
            i <= n,
            n == name@.len(),
            last_dot(name@) == last_dot(name@.take(i as int)),
        decreases i,
    {
        proof {
            assert(name@.take(i as int).drop_last() =~= name@.take(i as int - 1));
        }
        i -= 1;
    }
    proof {
        assert(name@.take(n as int) =~= name@);
        if i > 0 {
            assert(name@.take(i as int).last() == '.');
        }
        reveal_strlit("..");
        assert(".."@ =~= seq!['.', '.']);
    }
    if i <= 1 || same_text(name, "..") {
        (String::from_str(name), None)
    } else {
        let stem = String::from_str(name.substring_char(0, i - 1));
        let ext = String::from_str(name.substring_char(i, n));
        (stem, Some(ext))
    }
}

/// The extensions, in lower case, of the files that count as pictures.
pub open spec fn is_supported_extension(ext: Seq<char>) -> bool {
    ext == "png"@ || ext == "jpg"@ || ext == "jpeg"@ || ext == "webp"@ || ext == "gif"@ || ext
        == "bmp"@
}

/// Whether a lower-case extension is one of a picture.
pub fn supported_extension(ext: &str) -> (supported: bool)
    ensures
        supported == is_supported_extension(ext@),
{
    same_text(ext, "png") || same_text(ext, "jpg") || same_text(ext, "jpeg") || same_text(
        ext,
        "webp",
    ) || same_text(ext, "gif") || same_text(ext, "bmp")
}

/// Whether a file name is that of a picture: it has an extension which, in
/// lower case, is a supported one.
pub open spec fn image_name(name: Seq<char>) -> bool {
    match extension_of(name) {
        Some(ext) => is_supported_extension(lowercase_of(ext)),
        None => false,
    }
}

/// Whether a file name is that of a picture.
pub fn has_image_extension(name: &str) -> (image: bool)
    ensures
        image == image_name(name@),
{
    let (_, ext) = split_extension(name);
    match ext {
        Some(e) => {
            let lower = lowercase(e.as_str());
            supported_extension(lower.as_str())
        },
        None => false,
    }
}

/// Whether a path is that of a picture: it has a final component, and that
/// is the name of a picture.
pub open spec fn image_path(path: Seq<char>) -> bool {
    match file_name_of(path) {
        Some(name) => image_name(name),
        None => false,
    }
}

/// Whether the final component that was read off a path is the name of a
/// picture.
pub fn is_image_component(name: &Option<String>) -> (image: bool)
    ensures
        image == match opt_text(*name) {
            Some(n) => image_name(n),
            None => false,
        },
{
    match name {
        Some(n) => has_image_extension(n.as_str()),
        None => false,
    }
}

/// Whether `path` names a picture, judged by its extension alone.
pub fn is_image_file(path: &str) -> (image: bool)
    ensures
        image == image_path(path@),
{
    let name = path_component(path);
    is_image_component(&name)
}

/// The name under which a source folder appears in a project: the final
/// component of its path, or `unnamed` where the path has none.
pub open spec fn folder_name_of(path: Seq<char>) -> Seq<char> {
    match file_name_of(path) {
        Some(name) => name,
        None => "unnamed"@,
    }
}

/// The folder name for a final component that was read off a path.
pub fn folder_name_from(component: Option<String>) -> (name: String)
    ensures
        name@ == match opt_text(component) {
            Some(n) => n,
            None => "unnamed"@,
        },
{
    match component {
        Some(n) => n,
        None => String::from_str("unnamed"),
    }
}

/// The name under which the source folder at `path` appears in a project.
pub fn get_folder_name(path: &str) -> (name: String)
    ensures
        name@ == folder_name_of(path@),
{
    folder_name_from(path_component(path))
}

/// The characters that may not stand in a project name.
pub open spec fn is_forbidden(c: char) -> bool {
    c == '/' || c == '\\' || c == ':' || c == '*' || c == '?' || c == '"' || c == '<' || c == '>'
        || c == '|' || c == '\0'
}

/// A string without its forbidden characters.
pub open spec fn without_forbidden(s: Seq<char>) -> Seq<char> {
    s.filter(|c: char| !is_forbidden(c))
}

/// How many whitespace characters a string starts with.
pub open spec fn leading_whitespace(s: Seq<char>) -> nat
    decreases s.len(),
{
    if s.len() > 0 && is_whitespace(s.first()) {
        1 + leading_whitespace(s.drop_first())
    } else {
        0
    }
}

/// How many whitespace characters a string ends with.
pub open spec fn trailing_whitespace(s: Seq<char>) -> nat
    decreases s.len(),
{
    if s.len() > 0 && is_whitespace(s.last()) {
        1 + trailing_whitespace(s.drop_last())
    } else {
        0
    }
}

/// A string without the whitespace at its two ends.
pub open spec fn trimmed(s: Seq<char>) -> Seq<char> {
    let start = leading_whitespace(s) as int;
    if start == s.len() {
        Seq::empty()
    } else {
        s.subrange(start, s.len() - trailing_whitespace(s))
    }
}

/// A project name made safe: forbidden characters dropped, then the
/// whitespace at the two ends.
pub open spec fn sanitized(name: Seq<char>) -> Seq<char> {
    trimmed(without_forbidden(name))
}

/// Leading and trailing whitespace never overlap unless all is whitespace.
pub proof fn whitespace_counts_bounded(s: Seq<char>)
    ensures
        leading_whitespace(s) <= s.len(),
        trailing_whitespace(s) <= s.len(),
        leading_whitespace(s) < s.len() ==> leading_whitespace(s) + trailing_whitespace(s)
            <= s.len(),
        leading_whitespace(s) < s.len() ==> !is_whitespace(s[leading_whitespace(s) as int]),
    decreases s.len(),
{
    if s.len() > 0 {
        if is_whitespace(s.first()) {
            whitespace_counts_bounded(s.drop_first());
            let t = s.drop_first();
            if leading_whitespace(t) < t.len() {
                assert(t[leading_whitespace(t) as int] == s[leading_whitespace(s) as int]);
                trailing_stops_at(t, leading_whitespace(t) as int);
                trailing_stops_at(s, leading_whitespace(s) as int);
            }
        } else {
            trailing_stops_at(s, 0);
        }
        if is_whitespace(s.last()) {
            whitespace_counts_bounded(s.drop_last());
        }
    }
}

/// The trailing whitespace ends after any character that is none.
proof fn trailing_stops_at(s: Seq<char>, i: int)
    requires
        0 <= i < s.len(),
        !is_whitespace(s[i]),
    ensures
        trailing_whitespace(s) <= s.len() - 1 - i,
    decreases s.len(),
{
    if is_whitespace(s.last()) {
        assert(i < s.len() - 1);
        assert(s.drop_last()[i] == s[i]);
        trailing_stops_at(s.drop_last(), i);
    }
}

fn is_forbidden_char(c: char) -> (forbidden: bool)
    ensures
        forbidden == is_forbidden(c),
{
    c == '/' || c == '\\' || c == ':' || c == '*' || c == '?' || c == '"' || c == '<' || c == '>'
        || c == '|' || c == '\0'
}

/// Drops the forbidden characters from a string.
pub fn strip_forbidden(name: &str) -> (clean: String)
    ensures
        clean@ == without_forbidden(name@),
{
    let n = name.unicode_len();
    let mut clean = String::new();
    let mut i: usize = 0;
    proof {
        reveal(Seq::filter);
        assert(name@.take(0) =~= Seq::<char>::empty());
    }
    while i < n
        invariant
            i <= n,
            n == name@.len(),
            clean@ == without_forbidden(name@.take(i as int)),
        decreases n - i,
    {
        let c = name.get_char(i);
        proof {
            reveal(Seq::filter);
            assert(name@.take(i as int + 1).drop_last() =~= name@.take(i as int));
            assert(name@.take(i as int + 1).last() == c);
        }
        if !is_forbidden_char(c) {
            clean.append(name.substring_char(i, i + 1));
            assert(name@.subrange(i as int, i as int + 1) =~= seq![c]);
            assert(clean@ =~= without_forbidden(name@.take(i as int)).push(c));
        }
        i += 1;
    }
    proof {
        assert(name@.take(n as int) =~= name@);
    }
    clean
}

/// Drops the whitespace at the two ends of a string.
pub fn trim(s: &str) -> (t: String)
    ensures
        t@ == trimmed(s@),
{
    let n = s.unicode_len();
    let mut start: usize = 0;
    proof {
        assert(s@.subrange(0, n as int) =~= s@);
    }
    while start < n && char_is_whitespace(s.get_char(start))
        invariant
            start <= n,
            n == s@.len(),
            leading_whitespace(s@) == start + leading_whitespace(s@.subrange(start as int, n as int)),
        decreases n - start,
    {
        proof {
            assert(s@.subrange(start as int, n as int).drop_first() =~= s@.subrange(
                start as int + 1,
                n as int,
            ));
        }
        start += 1;
    }
    proof {
        assert(s@.subrange(0, n as int) =~= s@);
        whitespace_counts_bounded(s@);
    }
    if start == n {
        return String::new();
    }
    let mut end: usize = n;
    proof {
        assert(s@.take(n as int) =~= s@);
    }
    while end > 0 && char_is_whitespace(s.get_char(end - 1))
        invariant
            end <= n,
            n == s@.len(),
            trailing_whitespace(s@) == (n - end) + trailing_whitespace(s@.take(end as int)),
        decreases end,
    {
        proof {
            assert(s@.take(end as int).drop_last() =~= s@.take(end as int - 1));
        }
        end -= 1;
    }
    String::from_str(s.substring_char(start, end))
}

/// Makes a project name safe to use as a directory name.
pub fn sanitize_name(name: &str) -> (clean: String)
    ensures
        clean@ == sanitized(name@),
{
    let stripped = strip_forbidden(name);
    trim(stripped.as_str())
}

/// A name that was made safe holds no forbidden character, and neither
/// begins nor ends with whitespace.
pub proof fn sanitized_is_safe(name: Seq<char>)
    ensures
        forall|i: int|
            0 <= i < sanitized(name).len() ==> !is_forbidden(#[trigger] sanitized(name)[i]),
        sanitized(name).len() > 0 ==> !is_whitespace(sanitized(name).first()) && !is_whitespace(
            sanitized(name).last(),
        ),
{
    let clean = without_forbidden(name);
    let safe = sanitized(name);
    whitespace_counts_bounded(clean);
    assert forall|i: int| 0 <= i < clean.len() implies !is_forbidden(#[trigger] clean[i]) by {
        clean_has_no_forbidden(name, i);
    }
    if safe.len() > 0 {
        let start = leading_whitespace(clean) as int;
        let end = clean.len() - trailing_whitespace(clean);
        assert(safe == clean.subrange(start, end));
        assert(safe.first() == clean[start]);
        assert(safe.last() == clean[end - 1]);
        trailing_ends_at_text(clean);
    }
}

/// What is left of a name holds no forbidden character.
proof fn clean_has_no_forbidden(name: Seq<char>, i: int)
    requires
        0 <= i < without_forbidden(name).len(),
    ensures
        !is_forbidden(without_forbidden(name)[i]),
{
    let keep = |c: char| !is_forbidden(c);
    name.lemma_filter_pred(keep, i);
}

/// Before the trailing whitespace stands a character that is none.
proof fn trailing_ends_at_text(s: Seq<char>)
    ensures
        trailing_whitespace(s) < s.len() ==> !is_whitespace(
            s[s.len() - trailing_whitespace(s) - 1],
        ),
    decreases s.len(),
{
    if s.len() > 0 && is_whitespace(s.last()) {
        trailing_ends_at_text(s.drop_last());
        let t = s.drop_last();
        if trailing_whitespace(t) < t.len() {
            assert(t[t.len() - trailing_whitespace(t) - 1] == s[s.len() - trailing_whitespace(s)
                - 1]);
        }
    }
}

} // verus!
