//! Global search: the terms a query is turned into, and how note bodies
//! that match are merged into the list of results.
use vstd::prelude::*;
use crate::text::{contains_chars, contains_seq, str_chars, str_eq, trim, trim_str};

verus! {

/// The most results the first round of the search returns; the merge stops
/// looking at notes once the list holds this many.
pub const SEARCH_LIMIT: usize = 30;

/// What `str::to_lowercase` makes of a text (full Unicode lower-casing).
pub uninterp spec fn unicode_lowercase(s: Seq<char>) -> Seq<char>;

/// `str::to_lowercase`: the text in lower case by the Unicode case tables;
/// the result is named, not spelled out.
#[verifier::external_body]
fn to_lowercase(s: &str) -> (r: String)
    ensures
        r@ == unicode_lowercase(s@),
{
    s.to_lowercase()
}

/// The terms a query is searched by.
pub struct SearchTerms {
    /// The trimmed query in lower case, looked for in note bodies.
    pub needle: String,
    /// `%<trimmed query>%`, matched against titles and descriptions.
    pub like: String,
}

pub fn search_terms(query: &str) -> (terms: SearchTerms)
    ensures
        terms.needle@ == unicode_lowercase(trim(query@)),
        terms.like@ == "%"@ + trim(query@) + "%"@,
{
    let trimmed = trim_str(query);
    let needle = to_lowercase(trimmed.as_str());
    let mut like = "%".to_owned();
    like.append(trimmed.as_str());
    like.append("%");
    SearchTerms { needle, like }
}

/// Whether a note's body, in lower case, contains the needle.
pub fn note_body_matches(body: &str, needle: &str) -> (r: bool)
    ensures
        r == contains_seq(unicode_lowercase(body@), needle@),
{
    let lower = to_lowercase(body);
    let hay = str_chars(lower.as_str());
    let pattern = str_chars(needle);
    contains_chars(&hay, &pattern)
}

/// One search result.
pub struct SearchHit {
    /// `task`, `plan` or `note`.
    pub kind: String,
    pub id: String,
    pub title: String,
    /// A description or a note's path.
    pub subtitle: String,
}

pub open spec fn hit_view(h: SearchHit) -> (Seq<char>, Seq<char>, Seq<char>, Seq<char>) {
    (h.kind@, h.id@, h.title@, h.subtitle@)
}

pub open spec fn hit_views(hits: Seq<SearchHit>) -> Seq<(Seq<char>, Seq<char>, Seq<char>, Seq<char>)> {
    hits.map_values(|h: SearchHit| hit_view(h))
}

/// The results after a note was looked at: it joins them when its body
/// matched.
pub open spec fn after_offer(
    hits: Seq<(Seq<char>, Seq<char>, Seq<char>, Seq<char>)>,
    note: (Seq<char>, Seq<char>, Seq<char>, Seq<char>),
    matched: bool,
) -> Seq<(Seq<char>, Seq<char>, Seq<char>, Seq<char>)> {
    if matched {
        hits.push(note)
    } else {
        hits
    }
}

/// A note whose body matched is appended, after every earlier result, as a
/// `note` hit with its own id, title and path; one that did not match
/// leaves the results as they were.
pub proof fn lemma_matched_note_appended(
    hits: Seq<(Seq<char>, Seq<char>, Seq<char>, Seq<char>)>,
    id: Seq<char>,
    title: Seq<char>,
    path: Seq<char>,
)
    ensures
        after_offer(hits, ("note"@, id, title, path), true).len() == hits.len() + 1,
        after_offer(hits, ("note"@, id, title, path), true).take(hits.len() as int) == hits,
        after_offer(hits, ("note"@, id, title, path), true).last().0 == "note"@,
        after_offer(hits, ("note"@, id, title, path), true).last().1 == id,
        after_offer(hits, ("note"@, id, title, path), true).last().2 == title,
        after_offer(hits, ("note"@, id, title, path), true).last().3 == path,
        after_offer(hits, ("note"@, id, title, path), false) == hits,
{
    assert(after_offer(hits, ("note"@, id, title, path), true).take(hits.len() as int) =~= hits);
}

/// The results after the notes offered to the merge were looked at in
/// turn, each with whether its body matched; the search stops as soon as
/// the results hold `SEARCH_LIMIT` entries.
pub open spec fn after_offers(
    hits: Seq<(Seq<char>, Seq<char>, Seq<char>, Seq<char>)>,
    notes: Seq<((Seq<char>, Seq<char>, Seq<char>, Seq<char>), bool)>,
) -> Seq<(Seq<char>, Seq<char>, Seq<char>, Seq<char>)>
    decreases notes.len(),
{
    if notes.len() == 0 {
        hits
    } else {
        let next = after_offer(hits, notes[0].0, notes[0].1);
        if next.len() < SEARCH_LIMIT {
            after_offers(next, notes.drop_first())
        } else {
            next
        }
    }
}

/// A search whose first round found at most `SEARCH_LIMIT` results ends
/// with at most one more, however many notes match; one whose first round
/// found fewer ends with at most `SEARCH_LIMIT`.
pub proof fn lemma_search_results_bounded(
    first: Seq<(Seq<char>, Seq<char>, Seq<char>, Seq<char>)>,
    notes: Seq<((Seq<char>, Seq<char>, Seq<char>, Seq<char>), bool)>,
)
    requires
        first.len() <= SEARCH_LIMIT,
    ensures
        after_offers(first, notes).len() <= SEARCH_LIMIT + 1,
        first.len() < SEARCH_LIMIT ==> after_offers(first, notes).len() <= SEARCH_LIMIT,
    decreases notes.len(),
{
    if notes.len() > 0 {
        let next = after_offer(first, notes[0].0, notes[0].1);
        if next.len() < SEARCH_LIMIT {
            lemma_search_results_bounded(next, notes.drop_first());
        }
    }
}

/// The results of a search while note bodies are being looked through: the
/// first round's results, then the notes whose bodies matched.
pub struct SearchMerge {
    hits: Vec<SearchHit>,
    first_ids: Vec<String>,
}

impl SearchMerge {
    /// The results so far.
    pub closed spec fn hits(&self) -> Seq<(Seq<char>, Seq<char>, Seq<char>, Seq<char>)> {
        hit_views(self.hits@)
    }

    /// The ids among the first round's results.
    pub closed spec fn first_ids(&self) -> Seq<Seq<char>> {
        self.first_ids@.map_values(|s: String| s@)
    }

    /// Starts from the first round's results.
    pub fn new(first: Vec<SearchHit>) -> (m: SearchMerge)
        ensures
            m.hits() == hit_views(first@),
            m.hits().len() == first.len(),
            forall|i: int|
                0 <= i < first.len() ==> {
                    &&& #[trigger] m.hits()[i].0 == first@[i].kind@
                    &&& m.hits()[i].1 == first@[i].id@
                    &&& m.hits()[i].2 == first@[i].title@
                    &&& m.hits()[i].3 == first@[i].subtitle@
                },
            m.first_ids() == first@.map_values(|h: SearchHit| h.id@),
    {
        let mut first_ids: Vec<String> = Vec::new();
        let mut k: usize = 0;
        while k < first.len()
            invariant
                k <= first.len(),
                first_ids.len() == k,
                first_ids@.map_values(|s: String| s@) == first@.take(k as int).map_values(
                    |h: SearchHit| h.id@,
                ),
            decreases first.len() - k,
        {
            let id = first[k].id.clone();
            let ghost prev = first_ids@;
            first_ids.push(id);
            assert forall|i: int| 0 <= i < k implies first_ids@[i]@ == first@[i].id@ by {
                assert(first_ids@[i] == prev[i]);
                assert(prev.map_values(|s: String| s@)[i] == first@.take(k as int).map_values(
                    |h: SearchHit| h.id@,
                )[i]);
            }
            assert(first_ids@.map_values(|s: String| s@) =~= first@.take(k + 1).map_values(
                |h: SearchHit| h.id@,
            ));
            k = k + 1;
        }
        assert(first@.take(first.len() as int) =~= first@);
        SearchMerge { hits: first, first_ids }
    }

    /// Whether a note still has to be looked at: notes that the first round
    /// already found are skipped.
    pub fn wants(&self, id: &str) -> (r: bool)
        ensures
            r == !self.first_ids().contains(id@),
    {
        let mut k: usize = 0;
        while k < self.first_ids.len()
            invariant
                k <= self.first_ids.len(),
                forall|m: int| 0 <= m < k ==> self.first_ids@[m]@ != id@,
            decreases self.first_ids.len() - k,
        {
            if str_eq(self.first_ids[k].as_str(), id) {
                assert(self.first_ids()[k as int] == id@);
                return false;
            }
            k = k + 1;
        }
        proof {
            if self.first_ids().contains(id@) {
                let w = choose|w: int| 0 <= w < self.first_ids().len() && self.first_ids()[w] == id@;
                assert(self.first_ids@[w]@ == id@);
            }
        }
        true
    }

    /// Takes in a note that was looked at: it joins the results when its
    /// body matched. Tells whether to go on, which is while fewer than 30
    /// results are held.
    pub fn offer_note(&mut self, id: String, title: String, path: String, matched: bool) -> (go_on:
        bool)
        ensures
            final(self).first_ids() == old(self).first_ids(),
            final(self).hits() == after_offer(
                old(self).hits(),
                ("note"@, id@, title@, path@),
                matched,
            ),
            matched ==> final(self).hits() == old(self).hits().push(("note"@, id@, title@, path@)),
            !matched ==> final(self).hits() == old(self).hits(),
            go_on == (final(self).hits().len() < SEARCH_LIMIT),
    {
        if matched {
            let hit = SearchHit { kind: "note".to_owned(), id, title, subtitle: path };
            let ghost before = self.hits@;
            self.hits.push(hit);
            assert(hit_views(self.hits@) =~= hit_views(before).push(hit_view(hit)));
        }
        self.hits.len() < SEARCH_LIMIT
    }

    /// The results, in order.
    pub fn into_hits(self) -> (hits: Vec<SearchHit>)
        ensures
            hit_views(hits@) == self.hits(),
            hits.len() == self.hits().len(),
            forall|i: int|
                0 <= i < hits.len() ==> {
                    &&& #[trigger] hits@[i].kind@ == self.hits()[i].0
                    &&& hits@[i].id@ == self.hits()[i].1
                    &&& hits@[i].title@ == self.hits()[i].2
                    &&& hits@[i].subtitle@ == self.hits()[i].3
                },
    {
        self.hits
    }
}

} // verus!
