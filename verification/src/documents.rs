//! Notes on disk: where a new document or folder is placed, daily notes,
//! pasted images, and which directory holds the notes.
use std::path::Path;
use vstd::prelude::*;
use crate::errors::PlannerError;
use crate::names::{safe_name, safe_name_of};
use crate::tasks::text_or;
use crate::text::{
    chars_to_string, split_chars, split_on, str_chars, str_eq, trim, trim_str, views_of,
};

verus! {

/// The largest image that may be pasted into a note: 25 MiB.
pub const MAX_IMAGE_BYTES: usize = 26214400;

/// Where a new document goes and what it starts with.
pub struct DocumentPlan {
    /// `note` unless the request names another kind.
    pub kind: String,
    /// The trimmed title, as stored.
    pub title: String,
    /// Whether a directory is made rather than a Markdown file.
    pub is_folder: bool,
    /// The path relative to the notes directory.
    pub relative_path: String,
    /// The text a new Markdown file starts with.
    pub initial_content: String,
}

pub open spec fn document_kind(kind: Option<String>) -> Seq<char> {
    text_or(kind, "note"@)
}

/// A folder is named by the title alone, a note by the title and `.md`;
/// either sits under its parent's path when it has a parent.
pub open spec fn document_relative_path(
    parent_path: Option<String>,
    is_folder: bool,
    name: Seq<char>,
) -> Seq<char> {
    let file = if is_folder {
        name
    } else {
        name + ".md"@
    };
    match parent_path {
        Some(p) => p@ + "/"@ + file,
        None => file,
    }
}

/// Where a new document goes: its name is the title made safe, placed
/// under the parent's path (when the parent was found); a note starts with
/// its title as a heading.
pub fn document_plan(title: &str, kind: Option<String>, parent_path: Option<String>) -> (plan:
    DocumentPlan)
    ensures
        plan.kind@ == document_kind(kind),
        plan.title@ == trim(title@),
        plan.is_folder == (document_kind(kind) == "folder"@),
        plan.relative_path@ == document_relative_path(
            parent_path,
            plan.is_folder,
            safe_name_of(title@),
        ),
        plan.initial_content@ == "# "@ + trim(title@) + "\n\n"@,
{
    let kind = match kind {
        Some(k) => k,
        None => "note".to_owned(),
    };
    let is_folder = str_eq(kind.as_str(), "folder");
    let name = safe_name(title);
    let mut file = name;
    if !is_folder {
        file.append(".md");
    }
    let relative_path = match parent_path {
        Some(p) => {
            let mut r = p;
            r.append("/");
            r.append(file.as_str());
            r
        },
        None => file,
    };
    let trimmed = trim_str(title);
    let mut initial_content = "# ".to_owned();
    initial_content.append(trimmed.as_str());
    initial_content.append("\n\n");
    DocumentPlan { kind, title: trimmed, is_folder, relative_path, initial_content }
}

/// Whether `c` separates path components on some platform.
pub open spec fn is_separator(c: char) -> bool {
    c == '/' || c == '\\'
}

/// Whether a `..` component starts at position `i` of `p`.
pub open spec fn parent_component_at(p: Seq<char>, i: int) -> bool {
    &&& 0 <= i && i + 2 <= p.len()
    &&& p[i] == '.' && p[i + 1] == '.'
    &&& (i == 0 || is_separator(p[i - 1]))
    &&& (i + 2 == p.len() || is_separator(p[i + 2]))
}

/// A document path, relative to the notes directory, that stays inside it:
/// not empty, not starting at a root, free of drive or stream colons, and
/// with no `..` component.
pub open spec fn stays_inside(p: Seq<char>) -> bool {
    &&& p.len() > 0
    &&& !is_separator(p[0])
    &&& !p.contains(':')
    &&& forall|i: int| !#[trigger] parent_component_at(p, i)
}

/// Refuses a stored document path that would lead out of the notes
/// directory, before the document is read or written.
pub fn check_document_path(relative: &str) -> (r: Result<(), PlannerError>)
    ensures
        r is Ok <==> stays_inside(relative@),
        r matches Err(e) ==> e == PlannerError::DocumentPathOutside,
{
    let chars = str_chars(relative);
    let n = chars.len();
    if n == 0 || chars[0] == '/' || chars[0] == '\\' || has_char(&chars, ':') {
        return Err(PlannerError::DocumentPathOutside);
    }
    let mut i: usize = 0;
    while i < n
        invariant
            n == chars.len(),
            chars@ == relative@,
            i <= n,
            forall|k: int| 0 <= k < i ==> !parent_component_at(chars@, k),
        decreases n - i,
    {
        if i + 1 < n && chars[i] == '.' && chars[i + 1] == '.' && (i == 0 || chars[i - 1] == '/' || chars[i
            - 1] == '\\') && (i + 2 == n || chars[i + 2] == '/' || chars[i + 2] == '\\') {
            assert(parent_component_at(chars@, i as int));
            return Err(PlannerError::DocumentPathOutside);
        }
        i = i + 1;
    }
    assert forall|k: int| !#[trigger] parent_component_at(chars@, k) by {
        if 0 <= k < i {
        }
    }
    Ok(())
}

/// The texts of a list of path components.
pub open spec fn component_views(parts: Seq<String>) -> Seq<Seq<char>> {
    parts.map_values(|p: String| p@)
}

/// A path lies inside a directory when, with every symbolic link on both
/// followed, the directory's components lead the path's.
pub open spec fn resolved_inside(root: Seq<Seq<char>>, resolved: Seq<Seq<char>>) -> bool {
    root.len() <= resolved.len() && resolved.take(root.len() as int) == root
}

/// Refuses a document whose path leads out of the notes directory through
/// a symbolic link. `root` holds the components of the notes directory and
/// `resolved` those of the document's path, each with its links followed.
pub fn check_resolved_path(root: &Vec<String>, resolved: &Vec<String>) -> (r: Result<
    (),
    PlannerError,
>)
    ensures
        r is Ok <==> resolved_inside(component_views(root@), component_views(resolved@)),
        r matches Err(e) ==> e == PlannerError::DocumentPathOutside,
{
    let ghost rv = component_views(root@);
    let ghost pv = component_views(resolved@);
    if root.len() > resolved.len() {
        return Err(PlannerError::DocumentPathOutside);
    }
    let mut k: usize = 0;
    while k < root.len()
        invariant
            root.len() <= resolved.len(),
            k <= root.len(),
            rv == component_views(root@),
            pv == component_views(resolved@),
            forall|m: int| 0 <= m < k ==> pv[m] == rv[m],
        decreases root.len() - k,
    {
        if !str_eq(root[k].as_str(), resolved[k].as_str()) {
            proof {
                assert(pv.take(rv.len() as int)[k as int] == pv[k as int]);
                assert(pv[k as int] != rv[k as int]);
            }
            return Err(PlannerError::DocumentPathOutside);
        }
        k = k + 1;
    }
    assert(pv.take(rv.len() as int) =~= rv);
    Ok(())
}

/// A new document placed under a parent whose path stays inside the notes
/// directory (or under none) stays inside it too: its own name is a safe
/// component, which is never `..` and holds no separator or colon.
pub proof fn lemma_new_document_stays_inside(
    parent_path: Option<String>,
    is_folder: bool,
    title: Seq<char>,
)
    requires
        parent_path matches Some(p) ==> stays_inside(p@),
    ensures
        stays_inside(document_relative_path(parent_path, is_folder, safe_name_of(title))),
{
    crate::names::lemma_safe_name_is_safe_component(title);
    let name = safe_name_of(title);
    let file = if is_folder {
        name
    } else {
        name + ".md"@
    };
    assert(".md"@ == seq!['.', 'm', 'd']) by {
        reveal_strlit(".md");
    }
    assert forall|j: int| 0 <= j < file.len() implies !is_separator(#[trigger] file[j]) && file[j]
        != ':' by {
        if j < name.len() {
            assert(file[j] == name[j]);
            assert(!crate::names::is_reserved_char(name[j]));
        }
    }
    assert(file.len() >= 1 && file[0] == name[0] && name[0] != '.');
    let full = document_relative_path(parent_path, is_folder, name);
    match parent_path {
        None => {
            assert(full == file);
            assert(!full.contains(':'));
            assert forall|i: int| !#[trigger] parent_component_at(full, i) by {
                if parent_component_at(full, i) && i > 0 {
                    assert(!is_separator(file[i - 1]));
                }
            }
        },
        Some(p) => {
            let pv = p@;
            assert("/"@ == seq!['/']) by {
                reveal_strlit("/");
            }
            assert(full == pv + seq!['/'] + file);
            assert(full.len() == pv.len() + 1 + file.len());
            assert forall|k: int| 0 <= k < full.len() implies #[trigger] full[k] != ':' by {
                if k < pv.len() {
                    assert(full[k] == pv[k]);
                } else if k > pv.len() {
                    assert(full[k] == file[k - pv.len() - 1]);
                }
            }
            assert(full[0] == pv[0]);
            assert forall|i: int| !#[trigger] parent_component_at(full, i) by {
                if parent_component_at(full, i) {
                    if i + 2 <= pv.len() {
                        assert(full[i] == pv[i] && full[i + 1] == pv[i + 1]);
                        if i > 0 {
                            assert(full[i - 1] == pv[i - 1]);
                        }
                        if i + 2 < pv.len() {
                            assert(full[i + 2] == pv[i + 2]);
                        }
                        assert(parent_component_at(pv, i));
                    } else if i + 1 == pv.len() {
                        assert(full[i + 1] == '/');
                    } else if i == pv.len() {
                        assert(full[i] == '/');
                    } else {
                        let j = i - pv.len() - 1;
                        assert(full[i] == file[j]);
                        if j == 0 {
                            assert(file[0] != '.');
                        } else {
                            assert(full[i - 1] == file[j - 1]);
                        }
                    }
                }
            }
        },
    }
}

/// Where the daily note of a date lives, below the daily-notes directory:
/// `<year>/<month>/<date>.md`.
pub struct DailyNoteLocation {
    pub year: String,
    pub month: String,
    pub file_name: String,
    /// `<year>/<month>/<date>.md`.
    pub relative_path: String,
}

/// Where the daily note of a date sits below the daily-notes directory.
pub open spec fn daily_note_path(year: Seq<char>, month: Seq<char>, file: Seq<char>) -> Seq<char> {
    year + "/"@ + month + "/"@ + file
}

/// A date is split at `-` and must have exactly three parts; the first two
/// name the year and month directories, and the note is `<date>.md` in the
/// month's. A date whose note would not stay inside the daily-notes
/// directory (`stays_inside`) is refused too.
pub open spec fn daily_note_location_of(date: Seq<char>) -> Option<(Seq<char>, Seq<char>, Seq<char>)> {
    let parts = split_on(date, '-');
    if parts.len() == 3 && stays_inside(daily_note_path(parts[0], parts[1], date + ".md"@)) {
        Some((parts[0], parts[1], date + ".md"@))
    } else {
        None
    }
}

/// Whether `c` occurs in `v`.
fn has_char(v: &Vec<char>, c: char) -> (r: bool)
    ensures
        r == v@.contains(c),
{
    let mut k: usize = 0;
    while k < v.len()
        invariant
            k <= v.len(),
            forall|m: int| 0 <= m < k ==> v@[m] != c,
        decreases v.len() - k,
    {
        if v[k] == c {
            return true;
        }
        k = k + 1;
    }
    false
}

/// The location of the daily note of `date` (written `YYYY-MM-DD`).
pub fn daily_note_location(date: &str) -> (r: Result<DailyNoteLocation, PlannerError>)
    ensures
        match daily_note_location_of(date@) {
            None => r == Err::<DailyNoteLocation, PlannerError>(PlannerError::DateFormatInvalid),
            Some((year, month, file)) => r matches Ok(loc) && loc.year@ == year && loc.month@
                == month && loc.file_name@ == file && loc.relative_path@ == daily_note_path(
                year,
                month,
                file,
            ),
        },
{
    let chars = str_chars(date);
    let parts = split_chars(&chars, '-');
    proof {
        assert(views_of(parts@).len() == parts@.len());
    }
    if parts.len() != 3 {
        return Err(PlannerError::DateFormatInvalid);
    }
    proof {
        assert(views_of(parts@)[0] == parts@[0]@);
        assert(views_of(parts@)[1] == parts@[1]@);
    }
    let year = chars_to_string(&parts[0], 0, parts[0].len());
    let month = chars_to_string(&parts[1], 0, parts[1].len());
    proof {
        assert(parts@[0]@.subrange(0, parts@[0]@.len() as int) =~= parts@[0]@);
        assert(parts@[1]@.subrange(0, parts@[1]@.len() as int) =~= parts@[1]@);
    }
    let mut file_name = date.to_owned();
    file_name.append(".md");
    let mut relative_path = year.clone();
    relative_path.append("/");
    relative_path.append(month.as_str());
    relative_path.append("/");
    relative_path.append(file_name.as_str());
    if check_document_path(relative_path.as_str()).is_err() {
        return Err(PlannerError::DateFormatInvalid);
    }
    Ok(DailyNoteLocation { year, month, file_name, relative_path })
}

/// A daily note that is accepted stays inside the daily-notes directory.
pub proof fn lemma_daily_note_stays_inside(date: Seq<char>)
    ensures
        daily_note_location_of(date) matches Some((year, month, file)) ==> stays_inside(
            daily_note_path(year, month, file),
        ),
{
}

/// The headings a new daily note starts with, after its title line.
pub open spec fn daily_note_sections() -> Seq<char> {
    "\n\n## 今日计划\n\n- [ ] \n\n## 今日学习\n\n## 今天学到了什么\n\n## 遇到的问题\n\n## 今日总结\n\n## 明日计划\n"@
}

/// The text a new daily note starts with: the date as its title, then the
/// sections of the day.
pub fn daily_note_template(date: &str) -> (t: String)
    ensures
        t@ == "# "@ + date@ + daily_note_sections(),
{
    let mut t = "# ".to_owned();
    t.append(date);
    t.append(
        "\n\n## 今日计划\n\n- [ ] \n\n## 今日学习\n\n## 今天学到了什么\n\n## 遇到的问题\n\n## 今日总结\n\n## 明日计划\n",
    );
    t
}

/// What opening the daily note of `date` shows, given what its file holds
/// (`None` when there is no file): the saved text, or the template, which
/// is written only when there is no file.
pub open spec fn daily_note_shown(stored: Option<Seq<char>>, date: Seq<char>) -> Seq<char> {
    match stored {
        Some(text) => text,
        None => "# "@ + date + daily_note_sections(),
    }
}

/// Opening the daily note of `date`, given what its file holds (`None`
/// when there is no file): the text shown, and whether the template must
/// be written first, which happens only when there is no file.
pub fn open_daily_note(stored: Option<String>, date: &str) -> (r: (String, bool))
    ensures
        r.0@ == daily_note_shown(
            match stored {
                Some(s) => Some(s@),
                None => None,
            },
            date@,
        ),
        r.1 == (stored is None),
{
    match stored {
        Some(text) => (text, false),
        None => (daily_note_template(date), true),
    }
}

/// A daily note that was saved is what opening it shows: the template
/// never replaces it, and nothing is written.
pub proof fn lemma_saved_daily_note_is_kept(saved: Seq<char>, date: Seq<char>)
    ensures
        daily_note_shown(Some(saved), date) == saved,
{
}

pub open spec fn ascii_lower_char(c: char) -> char {
    if 65 <= (c as u32) <= 90 {
        ((c as u32) + 32) as char
    } else {
        c
    }
}

/// ASCII letters made lower case, other characters kept (`to_ascii_lowercase`).
pub open spec fn ascii_lower(s: Seq<char>) -> Seq<char> {
    s.map_values(|c: char| ascii_lower_char(c))
}

fn lower_char(c: char) -> (r: char)
    ensures
        r == ascii_lower_char(c),
{
    let u = c as u32;
    if 65 <= u && u <= 90 {
        let l = (u as u8) + 32;
        proof {
            assert((l as char) == ((c as u32) + 32) as char);
        }
        l as char
    } else {
        c
    }
}

/// The text with ASCII letters made lower case.
pub fn ascii_lowercase(s: &str) -> (r: String)
    ensures
        r@ == ascii_lower(s@),
{
    let v = str_chars(s);
    let mut out: Vec<char> = Vec::new();
    let mut k: usize = 0;
    while k < v.len()
        invariant
            k <= v.len(),
            out@ == ascii_lower(v@.take(k as int)),
        decreases v.len() - k,
    {
        out.push(lower_char(v[k]));
        assert(ascii_lower(v@.take(k + 1)) =~= ascii_lower(v@.take(k as int)).push(
            ascii_lower_char(v@[k as int]),
        ));
        k = k + 1;
    }
    assert(v@.take(v.len() as int) =~= v@);
    chars_to_string(&out, 0, out.len())
}

pub open spec fn is_image_extension(ext: Seq<char>) -> bool {
    ext == "png"@ || ext == "jpg"@ || ext == "jpeg"@ || ext == "gif"@ || ext == "webp"@
}

/// The text of an extension, when there is one.
pub open spec fn extension_view(extension: Option<String>) -> Option<Seq<char>> {
    match extension {
        Some(e) => Some(e@),
        None => None,
    }
}

/// What pasting an image of `byte_len` bytes whose name has the extension
/// `extension` gives: the refusal, or the extension in lower case
/// (`png` when the name has none).
pub open spec fn note_image_format_of(byte_len: nat, extension: Option<Seq<char>>) -> Result<
    Seq<char>,
    PlannerError,
> {
    let ext = ascii_lower(
        match extension {
            Some(e) => e,
            None => "png"@,
        },
    );
    if byte_len == 0 || byte_len > MAX_IMAGE_BYTES {
        Err(PlannerError::ImageSizeInvalid)
    } else if !is_image_extension(ext) {
        Err(PlannerError::ImageFormatUnsupported)
    } else {
        Ok(ext)
    }
}

/// `r` is the result that `expected` describes.
pub open spec fn image_result_is(expected: Result<Seq<char>, PlannerError>, r: Result<
    String,
    PlannerError,
>) -> bool {
    match expected {
        Ok(ext) => r matches Ok(e) && e@ == ext,
        Err(err) => r == Err::<String, PlannerError>(err),
    }
}

/// Checks a pasted image: it must be non-empty and at most 25 MiB, and its
/// extension (taken as `png` when missing, compared in lower case) must be
/// `png`, `jpg`, `jpeg`, `gif` or `webp`. Gives the lower-case extension.
pub fn note_image_format(byte_len: usize, extension: Option<String>) -> (r: Result<
    String,
    PlannerError,
>)
    ensures
        image_result_is(note_image_format_of(byte_len as nat, extension_view(extension)), r),
{
    if byte_len == 0 || byte_len > MAX_IMAGE_BYTES {
        return Err(PlannerError::ImageSizeInvalid);
    }
    let raw = match extension {
        Some(e) => e,
        None => "png".to_owned(),
    };
    let ext = ascii_lowercase(raw.as_str());
    if str_eq(ext.as_str(), "png") || str_eq(ext.as_str(), "jpg") || str_eq(ext.as_str(), "jpeg")
        || str_eq(ext.as_str(), "gif") || str_eq(ext.as_str(), "webp") {
        Ok(ext)
    } else {
        Err(PlannerError::ImageFormatUnsupported)
    }
}

/// A name that every platform splits into components the same way: it
/// holds no `\\` or `:` (no Windows separator or prefix of its own) and
/// does not start with `//` (a network share on Windows).
pub open spec fn is_portable_name(name: Seq<char>) -> bool {
    &&& !name.contains('\\')
    &&& !name.contains(':')
    &&& !(name.len() >= 2 && name[0] == '/' && name[1] == '/')
}

/// The components of a name split at `/` that name something: the empty
/// ones and `.` are skipped, as `Path::components` skips them.
pub open spec fn named_components(name: Seq<char>) -> Seq<Seq<char>> {
    split_on(name, '/').filter(|p: Seq<char>| p.len() > 0 && p != seq!['.'])
}

/// `Path::file_name` of a portable name: its last named component, unless
/// there is none or it is `..`.
pub open spec fn file_name_of(name: Seq<char>) -> Option<Seq<char>> {
    let parts = named_components(name);
    if parts.len() == 0 || parts.last() == seq!['.', '.'] {
        None
    } else {
        Some(parts.last())
    }
}

/// `Path::extension` of a portable name: that of its file name.
pub open spec fn file_extension_of(name: Seq<char>) -> Option<Seq<char>> {
    match file_name_of(name) {
        Some(file) => extension_of(file),
        None => None,
    }
}

/// The position of the last dot in `name`, or -1 when it has none.
pub open spec fn last_dot(name: Seq<char>) -> int
    decreases name.len(),
{
    if name.len() == 0 {
        -1
    } else if name.last() == '.' {
        name.len() - 1
    } else {
        last_dot(name.drop_last())
    }
}

/// The extension of a file name (`Path::extension`): the text after its
/// last dot, unless it has no dot or its only dot leads the name.
pub open spec fn extension_of(name: Seq<char>) -> Option<Seq<char>> {
    if last_dot(name) <= 0 {
        None
    } else {
        Some(name.skip(last_dot(name) + 1))
    }
}

/// `name` ends in a dot and then `e`: `e` is not empty and holds no dot,
/// separator or colon, the dot follows a character that is neither a
/// separator nor a colon, and the name does not start with two separators
/// (a network or device path on Windows). Whichever characters separate
/// components, the file name of such a name ends in that dot and `e`, with
/// something before the dot, so every platform finds the extension `e`.
pub open spec fn has_clear_extension(name: Seq<char>, e: Seq<char>) -> bool {
    let n = name.len();
    let k = e.len();
    &&& k > 0 && n >= k + 2
    &&& name.skip(n - k) == e
    &&& name[n - k - 1] == '.'
    &&& forall|i: int| 0 <= i < k ==> #[trigger] e[i] != '.' && !is_separator(e[i]) && e[i] != ':'
    &&& !is_separator(name[n - k - 2]) && name[n - k - 2] != ':'
    &&& !(is_separator(name[0]) && is_separator(name[1]))
}

/// A name made of a stem and then a dot and an extension has that clear
/// extension, whatever separators and colons the stem holds, when the
/// extension holds none of them nor a dot, the stem does not end in a
/// separator or colon, and the stem does not start with two separators:
/// `C:\\Users\\me\\dance.gif` and `photos/cat.png` both qualify.
pub proof fn lemma_clear_extension_of_stem(stem: Seq<char>, e: Seq<char>)
    requires
        stem.len() > 0,
        e.len() > 0,
        forall|i: int| 0 <= i < e.len() ==> #[trigger] e[i] != '.' && !is_separator(e[i]) && e[i] != ':',
        !is_separator(stem.last()) && stem.last() != ':',
        stem.len() >= 2 ==> !(is_separator(stem[0]) && is_separator(stem[1])),
    ensures
        has_clear_extension(stem + seq!['.'] + e, e),
{
    let name = stem + seq!['.'] + e;
    assert(name.skip(name.len() - e.len()) =~= e);
    assert(name[name.len() - e.len() - 1] == '.');
    assert(name[name.len() - e.len() - 2] == stem.last());
    assert(name[0] == stem[0]);
    if stem.len() < 2 {
        assert(name[1] == '.');
    } else {
        assert(name[1] == stem[1]);
    }
}

/// What holds on every platform of the extension `Path::extension` finds in
/// `name`: it holds no dot; a name without a dot has none; the extension
/// of a portable name is `file_extension_of` it; and a name that ends in a
/// clear extension has that one.
pub open spec fn extension_fits(name: Seq<char>, extension: Option<Seq<char>>) -> bool {
    &&& extension matches Some(e) ==> !e.contains('.')
    &&& !name.contains('.') ==> extension is None
    &&& is_portable_name(name) ==> extension == file_extension_of(name)
    &&& forall|e: Seq<char>| #[trigger] has_clear_extension(name, e) ==> extension == Some(e)
}

/// `Path::extension` followed by `OsStr::to_str`: the part of the file
/// name after its last dot. Which characters separate path components, and
/// which prefixes a path may have, depends on the platform; it is stated
/// exactly for portable names (split at `/` alone everywhere) and bounded
/// for the others.
#[verifier::external_body]
fn path_extension(file_name: &str) -> (ext: Option<String>)
    ensures
        extension_fits(file_name@, extension_view(ext)),
{
    Path::new(file_name).extension().and_then(|x| x.to_str()).map(|x| x.to_owned())
}

/// Checks a pasted image named `file_name` of `byte_len` bytes, as
/// `note_image_format` does with the extension of the name: it is refused
/// as too large or empty exactly when its size is out of bounds, and
/// otherwise judged by an extension that fits the name, which for a
/// portable name is its `file_extension_of`.
pub fn check_note_image(byte_len: usize, file_name: &str) -> (r: Result<String, PlannerError>)
    ensures
        (r == Err::<String, PlannerError>(PlannerError::ImageSizeInvalid)) <==> (byte_len == 0
            || byte_len > MAX_IMAGE_BYTES),
        !(byte_len == 0 || byte_len > MAX_IMAGE_BYTES) ==> exists|ext: Option<Seq<char>>|
            extension_fits(file_name@, ext) && #[trigger] image_result_is(
                note_image_format_of(byte_len as nat, ext),
                r,
            ),
        is_portable_name(file_name@) ==> image_result_is(
            note_image_format_of(byte_len as nat, file_extension_of(file_name@)),
            r,
        ),
        forall|e: Seq<char>|
            #[trigger] has_clear_extension(file_name@, e) ==> image_result_is(
                note_image_format_of(byte_len as nat, Some(e)),
                r,
            ),
{
    if byte_len == 0 || byte_len > MAX_IMAGE_BYTES {
        return Err(PlannerError::ImageSizeInvalid);
    }
    let extension = path_extension(file_name);
    let ghost ext = extension_view(extension);
    let r = note_image_format(byte_len, extension);
    assert(extension_fits(file_name@, ext) && image_result_is(
        note_image_format_of(byte_len as nat, ext),
        r,
    ));
    r
}

/// The file name of a pasted image: the date it was pasted, a unique id
/// and its extension (`<date>-<id>.<ext>`).
pub open spec fn image_file_name(date: Seq<char>, id: Seq<char>, extension: Seq<char>) -> Seq<char> {
    date + "-"@ + id + "."@ + extension
}

/// The names of a pasted image saved on `date` under the unique `id`: its
/// file name, and the link a note uses for it.
pub fn note_image_names(date: &str, id: &str, extension: &str) -> (names: (String, String))
    ensures
        names.0@ == image_file_name(date@, id@, extension@),
        names.1@ == "../assets/images/"@ + names.0@,
{
    let mut name = date.to_owned();
    name.append("-");
    name.append(id);
    name.append(".");
    name.append(extension);
    let mut link = "../assets/images/".to_owned();
    link.append(name.as_str());
    (name, link)
}

/// Images pasted under different ids get different file names, whatever
/// their extensions, when dates and ids are written with fixed lengths.
pub proof fn lemma_image_names_distinct(
    date1: Seq<char>,
    id1: Seq<char>,
    ext1: Seq<char>,
    date2: Seq<char>,
    id2: Seq<char>,
    ext2: Seq<char>,
)
    requires
        date1.len() == date2.len(),
        id1.len() == id2.len(),
        id1 != id2,
    ensures
        image_file_name(date1, id1, ext1) != image_file_name(date2, id2, ext2),
{
    let n1 = image_file_name(date1, id1, ext1);
    let n2 = image_file_name(date2, id2, ext2);
    let start: int = (date1.len() + "-"@.len()) as int;
    if n1 == n2 {
        assert(n1.subrange(start, start + id1.len()) =~= id1);
        assert(n2.subrange(start, start + id2.len()) =~= id2);
    }
}

/// The notes directory a stored setting names: the setting itself unless it
/// is blank (`None` then: the default directory is used).
pub open spec fn notes_root_of(setting: Option<String>) -> Option<String> {
    match setting {
        Some(s) => if trim(s@).len() > 0 {
            Some(s)
        } else {
            None::<String>
        },
        None => None::<String>,
    }
}

/// The notes directory a stored setting names, when it names one.
pub fn custom_notes_root(setting: Option<String>) -> (r: Option<String>)
    ensures
        r == notes_root_of(setting),
{
    match setting {
        Some(s) => {
            let t = trim_str(s.as_str());
            if t.as_str().is_empty() {
                None
            } else {
                Some(s)
            }
        },
        None => None,
    }
}

/// A new notes directory must be an absolute path; `path` is the trimmed
/// text the user entered and `is_absolute` whether the platform takes it
/// as absolute.
pub fn accept_notes_root(path: String, is_absolute: bool) -> (r: Result<String, PlannerError>)
    ensures
        r == (if is_absolute {
            Ok::<String, PlannerError>(path)
        } else {
            Err::<String, PlannerError>(PlannerError::PathNotAbsolute)
        }),
{
    if is_absolute {
        Ok(path)
    } else {
        Err(PlannerError::PathNotAbsolute)
    }
}

/// A notes directory that was accepted and stored is the one used from then on.
pub proof fn lemma_accepted_notes_root_is_used(entered: Seq<char>, stored: String)
    requires
        stored@ == trim(entered),
        stored@.len() > 0,
    ensures
        notes_root_of(Some(stored)) == Some(stored),
{
    crate::text::lemma_strip_idempotent(entered, crate::text::CharClass::Whitespace);
}

/// A text free of `/`, `\` and `:` has neither a root nor a Windows
/// prefix, so no platform takes it as an absolute path.
pub open spec fn cannot_be_absolute(path: Seq<char>) -> bool {
    !path.contains('/') && !path.contains('\\') && !path.contains(':')
}

/// `Path::is_absolute`: whether the platform takes the path as absolute.
/// The rule differs between platforms (a leading `/` on Unix; a prefix such
/// as `C:` or `\\server` followed by a root on Windows); only what holds
/// everywhere is stated: a text without `/`, `\` or `:` is not absolute.
#[verifier::external_body]
fn path_is_absolute(path: &str) -> (absolute: bool)
    ensures
        cannot_be_absolute(path@) ==> !absolute,
{
    Path::new(path).is_absolute()
}

/// The notes directory the user entered: the trimmed text, when the
/// platform takes it as an absolute path.
pub fn notes_root_target(path: &str) -> (r: Result<String, PlannerError>)
    ensures
        r matches Ok(t) ==> t@ == trim(path@),
        r matches Err(e) ==> e == PlannerError::PathNotAbsolute,
        cannot_be_absolute(trim(path@)) ==> r == Err::<String, PlannerError>(
            PlannerError::PathNotAbsolute,
        ),
{
    let trimmed = trim_str(path);
    let absolute = path_is_absolute(trimmed.as_str());
    accept_notes_root(trimmed, absolute)
}

} // verus!
