//! File names and storage locations: turning user titles into safe path
//! components, and where uploaded knowledge files are placed.
use std::path::PathBuf;
use vstd::prelude::*;
use vstd::utf8::encode_utf8;
use vstd::utf8::is_char_boundary;
use crate::text::{
    CharClass, chars_to_string, in_class, lemma_strip_keeps_clean_ends, lemma_strip_leading_shape,
    lemma_strip_trailing_shape,
    str_chars, strip, strip_chars, strip_leading, trim,
};

verus! {

/// `std::path::PathBuf`, carried through as an opaque value.
#[verifier::external_type_specification]
#[verifier::external_body]
pub struct ExPathBuf(PathBuf);

/// Where the knowledge base keeps uploaded files.
pub const KNOWLEDGE_ROOT: &'static str = "E:\\朝暮数据\\knowledge";

/// The longest file-name component, in characters, that `safe_name` produces.
pub const MAX_NAME_CHARS: usize = 80;

/// Characters that may not appear in a file name on the platforms the planner runs on.
pub open spec fn is_reserved_char(c: char) -> bool {
    c == '<' || c == '>' || c == ':' || c == '"' || c == '/' || c == '\\' || c == '|' || c == '?'
        || c == '*'
}

pub open spec fn sanitize_char(c: char) -> char {
    if is_reserved_char(c) {
        '_'
    } else {
        c
    }
}

/// The name used when a title leaves nothing usable.
pub open spec fn unnamed() -> Seq<char> {
    seq!['未', '命', '名']
}

/// The title with reserved characters replaced, surrounding whitespace and
/// then surrounding dots removed.
pub open spec fn cleaned_name(title: Seq<char>) -> Seq<char> {
    strip(trim(sanitized(title)), CharClass::Exactly('.'))
}

/// The title with each reserved character replaced.
pub open spec fn sanitized(title: Seq<char>) -> Seq<char> {
    title.map_values(|c: char| sanitize_char(c))
}

/// The file-name component made of a title: its cleaned form, cut to 80
/// characters, or the fallback name when nothing is left.
pub open spec fn safe_name_of(title: Seq<char>) -> Seq<char> {
    let cleaned = cleaned_name(title);
    if cleaned.len() == 0 {
        unnamed()
    } else if cleaned.len() <= MAX_NAME_CHARS {
        cleaned
    } else {
        cleaned.take(MAX_NAME_CHARS as int)
    }
}

/// A path component that cannot name another directory: not empty, at
/// most 80 characters, free of reserved characters and separators, and not
/// starting with a dot (so never `.` or `..`).
pub open spec fn is_safe_component(name: Seq<char>) -> bool {
    &&& 1 <= name.len() <= MAX_NAME_CHARS
    &&& forall|i: int| 0 <= i < name.len() ==> !is_reserved_char(#[trigger] name[i])
    &&& name[0] != '.'
}

/// Every character of `strip(s, cls)` is a character of `s`, and its first
/// character (if any) is not of class `cls`.
proof fn lemma_strip_within(s: Seq<char>, cls: CharClass)
    ensures
        forall|k: int|
            0 <= k < strip(s, cls).len() ==> exists|m: int|
                0 <= m < s.len() && s[m] == #[trigger] strip(s, cls)[k],
        strip(s, cls).len() > 0 ==> !in_class(cls, strip(s, cls)[0]),
{
    let l = strip_leading(s, cls);
    lemma_strip_leading_shape(s, cls);
    lemma_strip_trailing_shape(l, cls);
    assert forall|k: int| 0 <= k < strip(s, cls).len() implies exists|m: int|
        0 <= m < s.len() && s[m] == #[trigger] strip(s, cls)[k] by {
        let m = k + s.len() - l.len();
        assert(strip(s, cls)[k] == l[k]);
        assert(s[m] == l[k]);
    }
    if strip(s, cls).len() > 0 {
        assert(strip(s, cls)[0] == l[0]);
    }
}

/// What `safe_name` produces is always a safe path component.
pub proof fn lemma_safe_name_is_safe_component(title: Seq<char>)
    ensures
        is_safe_component(safe_name_of(title)),
{
    let mapped = title.map_values(|c: char| sanitize_char(c));
    let t = trim(mapped);
    let cleaned = cleaned_name(title);
    lemma_strip_within(mapped, CharClass::Whitespace);
    lemma_strip_within(t, CharClass::Exactly('.'));
    assert forall|i: int| 0 <= i < cleaned.len() implies !is_reserved_char(#[trigger] cleaned[i]) by {
        let m = choose|m: int| 0 <= m < t.len() && t[m] == cleaned[i];
        let m2 = choose|m2: int| 0 <= m2 < mapped.len() && mapped[m2] == t[m];
        assert(mapped[m2] == sanitize_char(title[m2]));
    }
    let r = safe_name_of(title);
    if cleaned.len() == 0 {
        assert(r[0] == '未');
    } else {
        assert forall|i: int| 0 <= i < r.len() implies !is_reserved_char(#[trigger] r[i]) by {
            assert(r[i] == cleaned[i]);
        }
        assert(r[0] == cleaned[0]);
    }
}

/// Only `<`, `>`, `:`, `"`, `/`, `\\`, `|`, `?` and `*` are replaced, each by
/// `_`; every other character of a title is kept where it was.
pub proof fn lemma_only_reserved_replaced(title: Seq<char>)
    ensures
        sanitized(title).len() == title.len(),
        forall|i: int|
            0 <= i < title.len() ==> {
                let c = title[i];
                let d = #[trigger] sanitized(title)[i];
                &&& (c == '<' || c == '>' || c == ':' || c == '"' || c == '/' || c == '\\' || c
                    == '|' || c == '?' || c == '*') ==> d == '_'
                &&& !(c == '<' || c == '>' || c == ':' || c == '"' || c == '/' || c == '\\' || c
                    == '|' || c == '?' || c == '*') ==> d == c
            },
{
}

/// A title free of `<>:"/\\|?*` is cleaned only by trimming: its whitespace,
/// then its dots, are removed from both ends, and nothing inside changes.
pub proof fn lemma_unreserved_title_kept(title: Seq<char>)
    requires
        forall|i: int|
            0 <= i < title.len() ==> {
                let c = #[trigger] title[i];
                !(c == '<' || c == '>' || c == ':' || c == '"' || c == '/' || c == '\\' || c == '|'
                    || c == '?' || c == '*')
            },
    ensures
        cleaned_name(title) == strip(trim(title), CharClass::Exactly('.')),
{
    assert(sanitized(title) =~= title);
}

/// A title that is already a clean name is its own file name: one of at
/// most 80 characters, free of `<>:"/\\|?*`, and neither starting nor ending
/// with whitespace or a dot (such as `C++ 入门`).
pub proof fn lemma_clean_title_is_its_own_name(title: Seq<char>)
    requires
        1 <= title.len() <= MAX_NAME_CHARS,
        forall|i: int|
            0 <= i < title.len() ==> {
                let c = #[trigger] title[i];
                !(c == '<' || c == '>' || c == ':' || c == '"' || c == '/' || c == '\\' || c == '|'
                    || c == '?' || c == '*')
            },
        !in_class(CharClass::Whitespace, title[0]),
        !in_class(CharClass::Whitespace, title[title.len() - 1]),
        title[0] != '.',
        title[title.len() - 1] != '.',
    ensures
        safe_name_of(title) == title,
{
    lemma_unreserved_title_kept(title);
    lemma_strip_keeps_clean_ends(title, CharClass::Whitespace);
    lemma_strip_keeps_clean_ends(title, CharClass::Exactly('.'));
}

fn sanitize(v: &Vec<char>) -> (r: Vec<char>)
    ensures
        r@ == v@.map_values(|c: char| sanitize_char(c)),
{
    let mut r: Vec<char> = Vec::new();
    let mut k: usize = 0;
    while k < v.len()
        invariant
            k <= v.len(),
            r@ == v@.take(k as int).map_values(|c: char| sanitize_char(c)),
        decreases v.len() - k,
    {
        let c = v[k];
        let d = if c == '<' || c == '>' || c == ':' || c == '"' || c == '/' || c == '\\' || c
            == '|' || c == '?' || c == '*' {
            '_'
        } else {
            c
        };
        r.push(d);
        assert(v@.take(k + 1).map_values(|c: char| sanitize_char(c)) =~= v@.take(
            k as int,
        ).map_values(|c: char| sanitize_char(c)).push(d));
        k = k + 1;
    }
    assert(v@.take(v.len() as int) =~= v@);
    r
}

fn unnamed_string() -> (s: String)
    ensures
        s@ == unnamed(),
{
    let v: Vec<char> = vec!['未', '命', '名'];
    assert(v@ =~= unnamed());
    chars_to_string(&v, 0, 3)
}

/// Turns a title into a file-name component: reserved characters become
/// `_`, surrounding whitespace and then surrounding dots are removed, the
/// rest is cut to 80 characters, and an empty result becomes `未命名`.
pub fn safe_name(value: &str) -> (name: String)
    ensures
        name@ == safe_name_of(value@),
        is_safe_component(name@),
{
    proof {
        lemma_safe_name_is_safe_component(value@);
    }
    let chars = str_chars(value);
    let mapped = sanitize(&chars);
    let trimmed = strip_chars(&mapped, CharClass::Whitespace);
    let cleaned = strip_chars(&trimmed, CharClass::Exactly('.'));
    if cleaned.len() == 0 {
        unnamed_string()
    } else if cleaned.len() <= MAX_NAME_CHARS {
        chars_to_string(&cleaned, 0, cleaned.len())
    } else {
        chars_to_string(&cleaned, 0, MAX_NAME_CHARS)
    }
}

/// The path that `PathBuf::from` makes of a text.
pub uninterp spec fn path_of_text(text: Seq<char>) -> PathBuf;

/// What `Path::to_string_lossy` gives for a path: its text, with any
/// sequence that is not Unicode replaced by U+FFFD.
pub uninterp spec fn path_lossy_text(path: PathBuf) -> Seq<char>;

/// `PathBuf::from(&str)`: the path that holds the given text. Its result is
/// named; since a path made from a `&str` holds only Unicode, reading it
/// back with `to_string_lossy` gives the text unchanged.
#[verifier::external_body]
fn path_from_text(text: &str) -> (path: PathBuf)
    ensures
        path == path_of_text(text@),
        path_lossy_text(path) == text@,
{
    PathBuf::from(text)
}

/// `Path::to_string_lossy`: the path's text, with non-Unicode sequences
/// replaced by U+FFFD; the result is named, not spelled out.
#[verifier::external_body]
fn path_text_lossy(path: &PathBuf) -> (text: String)
    ensures
        text@ == path_lossy_text(*path),
{
    path.to_string_lossy().into_owned()
}

/// The directory that holds the knowledge base's uploaded files: the path
/// made of `KNOWLEDGE_ROOT`, whose text is `KNOWLEDGE_ROOT`.
pub fn knowledge_root() -> (root: PathBuf)
    ensures
        root == path_of_text(KNOWLEDGE_ROOT@),
        path_lossy_text(root) == KNOWLEDGE_ROOT@,
{
    path_from_text(KNOWLEDGE_ROOT)
}

/// The path that holds `text`. Reading it back with `path_to_string`
/// gives `text` unchanged: a path made from text holds only Unicode.
pub fn text_path(text: &str) -> (path: PathBuf)
    ensures
        path == path_of_text(text@),
        path_lossy_text(path) == text@,
{
    path_from_text(text)
}

/// The text of a path, with anything that is not Unicode replaced.
pub fn path_to_string(path: PathBuf) -> (text: String)
    ensures
        text@ == path_lossy_text(path),
{
    path_text_lossy(&path)
}

/// Where an uploaded knowledge file goes, relative to the knowledge root:
/// `<big>/<small>/<file>`.
pub struct KnowledgeFileLocation {
    /// The directory of the top-level category.
    pub big: String,
    /// The directory of the sub-category.
    pub small: String,
    /// The first eight bytes of the file's id.
    pub id_prefix: String,
    /// The file's safe name, stored as its title.
    pub clean_name: String,
    /// `<id_prefix>-<clean_name>`.
    pub file: String,
}

/// The location of an uploaded file: the category titles and the file name
/// made safe, and the file prefixed by the first eight bytes of its id.
pub fn knowledge_file_location(big_title: &str, small_title: &str, id: &str, file_name: &str) -> (loc:
    KnowledgeFileLocation)
    requires
        is_char_boundary(encode_utf8(id@), 8),
    ensures
        loc.big@ == safe_name_of(big_title@),
        loc.small@ == safe_name_of(small_title@),
        loc.clean_name@ == safe_name_of(file_name@),
        encode_utf8(loc.id_prefix@) == encode_utf8(id@).subrange(0, 8),
        loc.file@ == loc.id_prefix@ + seq!['-'] + loc.clean_name@,
{
    let big = safe_name(big_title);
    let small = safe_name(small_title);
    let clean_name = safe_name(file_name);
    let (head, _rest) = id.split_at(8);
    let id_prefix = head.to_owned();
    let mut file = id_prefix.clone();
    file.append("-");
    file.append(clean_name.as_str());
    proof {
        reveal_strlit("-");
    }
    assert(file@ =~= id_prefix@ + seq!['-'] + clean_name@);
    KnowledgeFileLocation { big, small, id_prefix, clean_name, file }
}

} // verus!
