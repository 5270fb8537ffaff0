//! What a command asks for, decided before anything is sent.

use crate::text::optional_text;
use vstd::prelude::*;

verus! {

/// The users that a delete command names.
#[derive(Debug)]
pub enum DeleteTarget {
    /// The one user with this id.
    Id(String),
    /// Every user that this pattern selects.
    Pattern(String),
}

/// The mathematical value of a [`DeleteTarget`].
pub enum DeleteTargetView {
    Id(Seq<char>),
    Pattern(Seq<char>),
}

impl View for DeleteTarget {
    type V = DeleteTargetView;

    open spec fn view(&self) -> DeleteTargetView {
        match self {
            DeleteTarget::Id(id) => DeleteTargetView::Id(id@),
            DeleteTarget::Pattern(pattern) => DeleteTargetView::Pattern(pattern@),
        }
    }
}

/// Why a delete command names no users.
#[derive(Debug, Clone, Copy, PartialEq, Eq, Structural)]
pub enum AmbiguousDelete {
    /// Both an id and a pattern were given.
    IdAndPattern,
    /// Neither an id nor a pattern was given.
    NeitherIdNorPattern,
}

/// A delete command names users by an id or by a pattern, and by exactly
/// one of the two.
pub open spec fn named_by(id: Option<Seq<char>>, pattern: Option<Seq<char>>) -> Result<
    DeleteTargetView,
    AmbiguousDelete,
> {
    match (id, pattern) {
        (Some(id), None) => Ok(DeleteTargetView::Id(id)),
        (None, Some(pattern)) => Ok(DeleteTargetView::Pattern(pattern)),
        (Some(_), Some(_)) => Err(AmbiguousDelete::IdAndPattern),
        (None, None) => Err(AmbiguousDelete::NeitherIdNorPattern),
    }
}

/// The users that a delete command with the arguments `id` and `pattern`
/// names. A command with both or with neither is refused.
pub fn delete_target(id: Option<String>, pattern: Option<String>) -> (target: Result<
    DeleteTarget,
    AmbiguousDelete,
>)
    ensures
        match target {
            Ok(named) => named_by(optional_text(id), optional_text(pattern)) == Ok::<
                DeleteTargetView,
                AmbiguousDelete,
            >(named@),
            Err(error) => named_by(optional_text(id), optional_text(pattern)) == Err::<
                DeleteTargetView,
                AmbiguousDelete,
            >(error),
        },
{
    match (id, pattern) {
        (Some(id), None) => Ok(DeleteTarget::Id(id)),
        (None, Some(pattern)) => Ok(DeleteTarget::Pattern(pattern)),
        (Some(_), Some(_)) => Err(AmbiguousDelete::IdAndPattern),
        (None, None) => Err(AmbiguousDelete::NeitherIdNorPattern),
    }
}

} // verus!
