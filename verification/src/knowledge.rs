//! The two-level knowledge base: top-level categories hold sub-categories,
//! and files are uploaded into sub-categories only.
use vstd::prelude::*;
use crate::errors::PlannerError;

verus! {

/// The largest file the knowledge base accepts: 100 MiB.
pub const MAX_UPLOAD_BYTES: usize = 104857600;

/// A new category may sit under a top-level category only. `parent_lookup`
/// is what looking the parent up found: `None` when there is no such live
/// category, otherwise that category's own parent.
pub fn check_category_parent(parent_lookup: Option<Option<String>>) -> (r: Result<(), PlannerError>)
    ensures
        r == (match parent_lookup {
            None => Err::<(), PlannerError>(PlannerError::ParentCategoryMissing),
            Some(Some(_)) => Err::<(), PlannerError>(PlannerError::CategoryTooDeep),
            Some(None) => Ok::<(), PlannerError>(()),
        }),
{
    match parent_lookup {
        None => Err(PlannerError::ParentCategoryMissing),
        Some(Some(_)) => Err(PlannerError::CategoryTooDeep),
        Some(None) => Ok(()),
    }
}

/// An upload may hold at most 100 MiB.
pub fn check_upload_size(byte_len: usize) -> (r: Result<(), PlannerError>)
    ensures
        r == (if byte_len > MAX_UPLOAD_BYTES {
            Err::<(), PlannerError>(PlannerError::FileTooLarge)
        } else {
            Ok::<(), PlannerError>(())
        }),
{
    if byte_len > MAX_UPLOAD_BYTES {
        Err(PlannerError::FileTooLarge)
    } else {
        Ok(())
    }
}

/// The category an upload goes to, given what looking it up found (its
/// title and its parent): it must exist and be a sub-category. Gives the
/// sub-category's title and its parent's id.
pub fn upload_category(found: Option<(String, Option<String>)>) -> (r: Result<
    (String, String),
    PlannerError,
>)
    ensures
        match found {
            None => r == Err::<(String, String), PlannerError>(PlannerError::UploadCategoryMissing),
            Some((_, None)) => r == Err::<(String, String), PlannerError>(
                PlannerError::UploadNeedsSubcategory,
            ),
            Some((title, Some(parent))) => r == Ok::<(String, String), PlannerError>((title, parent)),
        },
{
    match found {
        None => Err(PlannerError::UploadCategoryMissing),
        Some((_, None)) => Err(PlannerError::UploadNeedsSubcategory),
        Some((title, Some(parent))) => Ok((title, parent)),
    }
}

/// The live categories, each id mapped to its parent's id (`None` for a
/// top-level category), form two levels: every parent is a top-level category.
pub open spec fn is_two_level(categories: Map<Seq<char>, Option<Seq<char>>>) -> bool {
    forall|id: Seq<char>|
        #[trigger] categories.contains_key(id) ==> match categories[id] {
            Some(p) => categories.contains_key(p) && categories[p] is None,
            None => true,
        }
}

/// What looking a parent up finds among the live categories: `None` when
/// there is no such category, otherwise its own parent.
pub open spec fn parent_lookup(categories: Map<Seq<char>, Option<Seq<char>>>, parent: Seq<char>) -> Option<Option<Seq<char>>> {
    if categories.contains_key(parent) {
        Some(categories[parent])
    } else {
        None
    }
}

/// A category that `check_category_parent` accepts keeps the categories in
/// two levels: adding it under an accepted parent, or at the top, keeps
/// every parent a top-level category.
pub proof fn lemma_new_category_keeps_two_levels(
    categories: Map<Seq<char>, Option<Seq<char>>>,
    id: Seq<char>,
    parent: Option<Seq<char>>,
)
    requires
        is_two_level(categories),
        !categories.contains_key(id),
        parent matches Some(p) ==> parent_lookup(categories, p) == Some(None::<Seq<char>>),
    ensures
        is_two_level(categories.insert(id, parent)),
{
    let after = categories.insert(id, parent);
    assert forall|c: Seq<char>| #[trigger] after.contains_key(c) implies match after[c] {
        Some(p) => after.contains_key(p) && after[p] is None,
        None => true,
    } by {
        if c != id {
            assert(categories.contains_key(c));
            if let Some(p) = categories[c] {
                assert(categories.contains_key(p));
                assert(p != id);
            }
        }
    }
}

} // verus!
