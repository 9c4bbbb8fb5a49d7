//! Character-level text handling: Unicode whitespace, trimming, substring
//! search and splitting, all stated over `Seq<char>`.
use vstd::prelude::*;

verus! {

/// A class of characters that trimming strips from the ends of a text.
#[derive(Clone, Copy)]
pub enum CharClass {
    /// Characters with the Unicode `White_Space` property.
    Whitespace,
    /// One given character.
    Exactly(char),
}

/// The Unicode `White_Space` property, the set that `char::is_whitespace` tests.
pub open spec fn is_unicode_whitespace(c: char) -> bool {
    let u = c as u32;
    ||| 0x9 <= u <= 0xd
    ||| u == 0x20
    ||| u == 0x85
    ||| u == 0xa0
    ||| u == 0x1680
    ||| 0x2000 <= u <= 0x200a
    ||| u == 0x2028
    ||| u == 0x2029
    ||| u == 0x202f
    ||| u == 0x205f
    ||| u == 0x3000
}

pub open spec fn in_class(cls: CharClass, c: char) -> bool {
    match cls {
        CharClass::Whitespace => is_unicode_whitespace(c),
        CharClass::Exactly(x) => c == x,
    }
}

/// `s` without its leading characters of class `cls`.
pub open spec fn strip_leading(s: Seq<char>, cls: CharClass) -> Seq<char>
    decreases s.len(),
{
    if s.len() > 0 && in_class(cls, s[0]) {
        strip_leading(s.drop_first(), cls)
    } else {
        s
    }
}

/// `s` without its trailing characters of class `cls`.
pub open spec fn strip_trailing(s: Seq<char>, cls: CharClass) -> Seq<char>
    decreases s.len(),
{
    if s.len() > 0 && in_class(cls, s.last()) {
        strip_trailing(s.drop_last(), cls)
    } else {
        s
    }
}

/// `s` without leading and trailing characters of class `cls`
/// (`str::trim` for whitespace, `str::trim_matches` for one character).
pub open spec fn strip(s: Seq<char>, cls: CharClass) -> Seq<char> {
    strip_trailing(strip_leading(s, cls), cls)
}

pub open spec fn trim(s: Seq<char>) -> Seq<char> {
    strip(s, CharClass::Whitespace)
}

/// `needle` occurs in `hay` as a contiguous run.
pub open spec fn contains_seq(hay: Seq<char>, needle: Seq<char>) -> bool {
    exists|i: int|
        0 <= i && i + needle.len() <= hay.len() && #[trigger] hay.subrange(i, i + needle.len())
            == needle
}

/// The pieces of `s` between occurrences of `sep` (`str::split` on a char):
/// always at least one piece, empty pieces kept.
pub open spec fn split_on(s: Seq<char>, sep: char) -> Seq<Seq<char>>
    decreases s.len(),
{
    if s.len() == 0 {
        seq![Seq::<char>::empty()]
    } else {
        let rest = split_on(s.drop_last(), sep);
        if s.last() == sep {
            rest.push(Seq::<char>::empty())
        } else {
            rest.update(rest.len() - 1, rest.last().push(s.last()))
        }
    }
}

pub proof fn lemma_strip_leading_skip(s: Seq<char>, cls: CharClass, i: int)
    requires
        0 <= i <= s.len(),
        forall|k: int| 0 <= k < i ==> in_class(cls, #[trigger] s[k]),
        i == s.len() || !in_class(cls, s[i]),
    ensures
        strip_leading(s, cls) == s.skip(i),
    decreases i,
{
    if i == 0 {
        assert(s.skip(0) =~= s);
    } else {
        assert(in_class(cls, s[0]));
        let t = s.drop_first();
        assert forall|k: int| 0 <= k < i - 1 implies in_class(cls, #[trigger] t[k]) by {
            assert(t[k] == s[k + 1]);
        }
        lemma_strip_leading_skip(t, cls, i - 1);
        assert(t.skip(i - 1) =~= s.skip(i));
    }
}

pub proof fn lemma_strip_trailing_take(s: Seq<char>, cls: CharClass, j: int)
    requires
        0 <= j <= s.len(),
        forall|k: int| j <= k < s.len() ==> in_class(cls, #[trigger] s[k]),
        j == 0 || !in_class(cls, s[j - 1]),
    ensures
        strip_trailing(s, cls) == s.take(j),
    decreases s.len() - j,
{
    if j == s.len() {
        assert(s.take(j) =~= s);
    } else {
        assert(in_class(cls, s[s.len() - 1]));
        let t = s.drop_last();
        assert forall|k: int| j <= k < t.len() implies in_class(cls, #[trigger] t[k]) by {
            assert(t[k] == s[k]);
        }
        lemma_strip_trailing_take(t, cls, j);
        assert(t.take(j) =~= s.take(j));
    }
}

/// `strip_leading` keeps a suffix of the text, which does not start with
/// a character of the class.
pub proof fn lemma_strip_leading_shape(s: Seq<char>, cls: CharClass)
    ensures
        strip_leading(s, cls).len() <= s.len(),
        strip_leading(s, cls) == s.skip(s.len() - strip_leading(s, cls).len()),
        strip_leading(s, cls).len() > 0 ==> !in_class(cls, strip_leading(s, cls)[0]),
    decreases s.len(),
{
    if s.len() > 0 && in_class(cls, s[0]) {
        lemma_strip_leading_shape(s.drop_first(), cls);
        let l = strip_leading(s, cls);
        assert(s.drop_first().skip(s.drop_first().len() - l.len()) =~= s.skip(s.len() - l.len()));
    } else {
        assert(s.skip(0) =~= s);
    }
}

/// `strip_trailing` keeps a prefix of the text, which does not end with a
/// character of the class.
pub proof fn lemma_strip_trailing_shape(s: Seq<char>, cls: CharClass)
    ensures
        strip_trailing(s, cls).len() <= s.len(),
        strip_trailing(s, cls) == s.take(strip_trailing(s, cls).len() as int),
        strip_trailing(s, cls).len() > 0 ==> !in_class(
            cls,
            strip_trailing(s, cls)[strip_trailing(s, cls).len() - 1],
        ),
    decreases s.len(),
{
    if s.len() > 0 && in_class(cls, s.last()) {
        lemma_strip_trailing_shape(s.drop_last(), cls);
        let t = strip_trailing(s, cls);
        assert(s.drop_last().take(t.len() as int) =~= s.take(t.len() as int));
    } else {
        assert(s.take(s.len() as int) =~= s);
    }
}

/// A text that neither starts nor ends with a character of the class is
/// left as it is.
pub proof fn lemma_strip_keeps_clean_ends(s: Seq<char>, cls: CharClass)
    requires
        s.len() > 0 ==> !in_class(cls, s[0]) && !in_class(cls, s[s.len() - 1]),
    ensures
        strip(s, cls) == s,
{
    lemma_strip_leading_skip(s, cls, 0);
    assert(s.skip(0) =~= s);
    lemma_strip_trailing_take(s, cls, s.len() as int);
    assert(s.take(s.len() as int) =~= s);
}

/// Stripping twice strips nothing more (trimming is idempotent).
pub proof fn lemma_strip_idempotent(s: Seq<char>, cls: CharClass)
    ensures
        strip(strip(s, cls), cls) == strip(s, cls),
{
    let l = strip_leading(s, cls);
    let t = strip(s, cls);
    lemma_strip_leading_shape(s, cls);
    lemma_strip_trailing_shape(l, cls);
    if t.len() > 0 {
        assert(t[0] == l[0]);
    }
    assert(strip_leading(t, cls) == t);
    lemma_strip_trailing_shape(t, cls);
    if t.len() > 0 {
        assert(!in_class(cls, t[t.len() - 1]));
    }
    assert(strip_trailing(t, cls) == t);
}

/// Whether `c` has the Unicode `White_Space` property.
pub fn is_whitespace(c: char) -> (r: bool)
    ensures
        r == is_unicode_whitespace(c),
{
    let u = c as u32;
    (0x9 <= u && u <= 0xd) || u == 0x20 || u == 0x85 || u == 0xa0 || u == 0x1680 || (0x2000 <= u
        && u <= 0x200a) || u == 0x2028 || u == 0x2029 || u == 0x202f || u == 0x205f || u == 0x3000
}

fn class_has(cls: CharClass, c: char) -> (r: bool)
    ensures
        r == in_class(cls, c),
{
    match cls {
        CharClass::Whitespace => is_whitespace(c),
        CharClass::Exactly(x) => c == x,
    }
}

/// The characters of `s`, in order.
pub fn str_chars(s: &str) -> (v: Vec<char>)
    ensures
        v@ == s@,
{
    let mut v: Vec<char> = Vec::new();
    for c in it: s.chars()
        invariant
            v@ == it.seq().take(it.index() as int),
    {
        v.push(c);
    }
    v
}

/// `String::push`: appends one character.
#[verifier::external_body]
fn string_push(s: &mut String, c: char)
    ensures
        final(s)@ == old(s)@.push(c),
{
    s.push(c);
}

/// The text made of the characters `v[from..to]`.
pub fn chars_to_string(v: &Vec<char>, from: usize, to: usize) -> (s: String)
    requires
        from <= to <= v.len(),
    ensures
        s@ == v@.subrange(from as int, to as int),
{
    let mut s = String::new();
    let mut k = from;
    while k < to
        invariant
            from <= k <= to <= v.len(),
            s@ == v@.subrange(from as int, k as int),
        decreases to - k,
    {
        string_push(&mut s, v[k]);
        assert(v@.subrange(from as int, k + 1) =~= v@.subrange(from as int, k as int).push(v@[k as int]));
        k = k + 1;
    }
    s
}

/// Copy of `v[from..to]`.
pub fn sub_chars(v: &Vec<char>, from: usize, to: usize) -> (r: Vec<char>)
    requires
        from <= to <= v.len(),
    ensures
        r@ == v@.subrange(from as int, to as int),
{
    let mut r: Vec<char> = Vec::new();
    let mut k = from;
    while k < to
        invariant
            from <= k <= to <= v.len(),
            r@ == v@.subrange(from as int, k as int),
        decreases to - k,
    {
        r.push(v[k]);
        assert(v@.subrange(from as int, k + 1) =~= v@.subrange(from as int, k as int).push(v@[k as int]));
        k = k + 1;
    }
    r
}

/// `v` without leading and trailing characters of class `cls`.
pub fn strip_chars(v: &Vec<char>, cls: CharClass) -> (r: Vec<char>)
    ensures
        r@ == strip(v@, cls),
{
    let n = v.len();
    let mut i: usize = 0;
    while i < n && class_has(cls, v[i])
        invariant
            i <= n == v.len(),
            forall|k: int| 0 <= k < i ==> in_class(cls, #[trigger] v@[k]),
        decreases n - i,
    {
        i = i + 1;
    }
    proof {
        lemma_strip_leading_skip(v@, cls, i as int);
    }
    let mut j: usize = n;
    while j > i && class_has(cls, v[j - 1])
        invariant
            i <= j <= n == v.len(),
            forall|k: int| j <= k < n ==> in_class(cls, #[trigger] v@[k]),
        decreases j,
    {
        j = j - 1;
    }
    let ghost t = v@.skip(i as int);
    proof {
        assert forall|k: int| j - i <= k < t.len() implies in_class(cls, #[trigger] t[k]) by {
            assert(t[k] == v@[k + i]);
        }
        if j > i {
            assert(t[j - i - 1] == v@[j - 1]);
        }
        lemma_strip_trailing_take(t, cls, j - i);
        assert(t.take(j - i) =~= v@.subrange(i as int, j as int));
    }
    sub_chars(v, i, j)
}

/// `v` without trailing characters of class `cls`.
pub fn strip_end_chars(v: &Vec<char>, cls: CharClass) -> (r: Vec<char>)
    ensures
        r@ == strip_trailing(v@, cls),
{
    let n = v.len();
    let mut j: usize = n;
    while j > 0 && class_has(cls, v[j - 1])
        invariant
            j <= n == v.len(),
            forall|k: int| j <= k < n ==> in_class(cls, #[trigger] v@[k]),
        decreases j,
    {
        j = j - 1;
    }
    proof {
        lemma_strip_trailing_take(v@, cls, j as int);
        assert(v@.take(j as int) =~= v@.subrange(0, j as int));
    }
    sub_chars(v, 0, j)
}

/// The text `s` without leading and trailing whitespace (`str::trim`).
pub fn trim_str(s: &str) -> (r: String)
    ensures
        r@ == trim(s@),
{
    let v = str_chars(s);
    let t = strip_chars(&v, CharClass::Whitespace);
    chars_to_string(&t, 0, t.len())
}

/// Whether `needle` equals `hay[at..at + needle.len()]`.
fn matches_at(hay: &Vec<char>, needle: &Vec<char>, at: usize) -> (r: bool)
    requires
        at + needle.len() <= hay.len(),
    ensures
        r == (hay@.subrange(at as int, at + needle.len()) == needle@),
{
    let mut k: usize = 0;
    while k < needle.len()
        invariant
            k <= needle.len(),
            at + needle.len() <= hay.len(),
            forall|m: int| 0 <= m < k ==> hay@[at + m] == needle@[m],
        decreases needle.len() - k,
    {
        if hay[at + k] != needle[k] {
            assert(hay@.subrange(at as int, at + needle.len())[k as int] != needle@[k as int]);
            return false;
        }
        k = k + 1;
    }
    assert(hay@.subrange(at as int, at + needle.len()) =~= needle@);
    true
}

/// Whether `needle` occurs in `hay` (`str::contains` on a text).
pub fn contains_chars(hay: &Vec<char>, needle: &Vec<char>) -> (r: bool)
    ensures
        r == contains_seq(hay@, needle@),
{
    if needle.len() > hay.len() {
        return false;
    }
    let last = hay.len() - needle.len();
    let mut at: usize = 0;
    loop
        invariant
            at <= last,
            last + needle.len() == hay.len(),
            forall|i: int|
                0 <= i < at ==> #[trigger] hay@.subrange(i, i + needle.len()) != needle@,
        decreases last - at,
    {
        if matches_at(hay, needle, at) {
            return true;
        }
        if at == last {
            return false;
        }
        at = at + 1;
    }
}

/// Whether `hay` ends with `suffix` (`str::ends_with`).
pub fn ends_with_chars(hay: &Vec<char>, suffix: &Vec<char>) -> (r: bool)
    ensures
        r == suffix@.is_suffix_of(hay@),
{
    if suffix.len() > hay.len() {
        return false;
    }
    let at = hay.len() - suffix.len();
    let r = matches_at(hay, suffix, at);
    proof {
        if r {
            assert forall|i: int| 0 <= i < suffix@.len() implies suffix@[i] == hay@[hay@.len()
                - suffix@.len() + i] by {
                assert(hay@.subrange(at as int, at + suffix.len())[i] == hay@[at + i]);
            }
        } else {
            assert(!(hay@.subrange(at as int, at + suffix.len()) =~= suffix@));
        }
    }
    r
}

/// Whether two texts are equal.
pub fn chars_eq(a: &Vec<char>, b: &Vec<char>) -> (r: bool)
    ensures
        r == (a@ == b@),
{
    if a.len() != b.len() {
        return false;
    }
    let r = matches_at(a, b, 0);
    proof {
        assert(a@.subrange(0, b.len() as int) =~= a@);
    }
    r
}

/// Whether the text `s` equals the text `t`.
pub fn str_eq(s: &str, t: &str) -> (r: bool)
    ensures
        r == (s@ == t@),
{
    let a = str_chars(s);
    let b = str_chars(t);
    chars_eq(&a, &b)
}

/// The texts of `parts`, in order.
pub open spec fn views_of(parts: Seq<Vec<char>>) -> Seq<Seq<char>> {
    parts.map_values(|p: Vec<char>| p@)
}

/// The pieces of `v` between occurrences of `sep` (`str::split` on a char).
pub fn split_chars(v: &Vec<char>, sep: char) -> (parts: Vec<Vec<char>>)
    ensures
        views_of(parts@) == split_on(v@, sep),
{
    let mut done: Vec<Vec<char>> = Vec::new();
    let mut cur: Vec<char> = Vec::new();
    let mut k: usize = 0;
    assert(v@.take(0) =~= Seq::<char>::empty());
    assert(views_of(done@).push(cur@) =~= seq![Seq::<char>::empty()]);
    while k < v.len()
        invariant
            k <= v.len(),
            views_of(done@).push(cur@) == split_on(v@.take(k as int), sep),
        decreases v.len() - k,
    {
        let ghost before = v@.take(k as int);
        let c = v[k];
        assert(v@.take(k + 1).drop_last() =~= before);
        assert(v@.take(k + 1).last() == c);
        let ghost dv = views_of(done@);
        let ghost cv = cur@;
        if c == sep {
            done.push(cur);
            cur = Vec::new();
            assert(views_of(done@) =~= dv.push(cv));
            assert(views_of(done@).push(cur@) =~= split_on(before, sep).push(Seq::<char>::empty()));
        } else {
            cur.push(c);
            assert(views_of(done@).push(cur@) =~= split_on(before, sep).update(
                split_on(before, sep).len() - 1,
                split_on(before, sep).last().push(c),
            ));
        }
        k = k + 1;
    }
    assert(v@.take(v.len() as int) =~= v@);
    let ghost dv = views_of(done@);
    let ghost cv = cur@;
    done.push(cur);
    assert(views_of(done@) =~= dv.push(cv));
    done
}

} // verus!
