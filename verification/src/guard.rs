//! The destination has to be safe to write into before anything is fetched.

use crate::error::{ErrorView, RetrievalError};
use vstd::prelude::*;

verus! {

/// What stands at the destination path.
#[derive(Debug, Clone, Copy, PartialEq, Eq)]
pub enum DestinationState {
    /// Nothing.
    Absent,
    /// Something that is not a directory.
    File,
    /// A directory with so many direct entries, hidden ones included.
    Directory { entries: usize },
}

/// The verdict on a destination: nothing there and an empty directory pass.
pub open spec fn destination_verdict(state: DestinationState, dest: Seq<char>) -> Result<
    (),
    ErrorView,
> {
    match state {
        DestinationState::Absent => Ok(()),
        DestinationState::File => Err(ErrorView::DestinationIsFile { path: dest }),
        DestinationState::Directory { entries } => if entries == 0 {
            Ok(())
        } else {
            Err(ErrorView::DestinationNotEmpty { path: dest })
        },
    }
}

/// Refuses a destination that is a file or a directory with entries, so
/// that nothing that exists is overwritten.
pub fn check_dest_path_safety(state: DestinationState, dest_str: &str) -> (r: Result<
    (),
    RetrievalError,
>)
    ensures
        match r {
            Ok(()) => destination_verdict(state, dest_str@) == Ok::<(), ErrorView>(()),
            Err(e) => destination_verdict(state, dest_str@) == Err::<(), ErrorView>(e@),
        },
        r is Ok <==> state is Absent || state == (DestinationState::Directory { entries: 0 }),
{
    match state {
        DestinationState::Absent => Ok(()),
        DestinationState::File => Err(
            RetrievalError::DestinationIsFile { path: dest_str.to_owned() },
        ),
        DestinationState::Directory { entries } => {
            if entries > 0 {
                Err(RetrievalError::DestinationNotEmpty { path: dest_str.to_owned() })
            } else {
                Ok(())
            }
        },
    }
}

} // verus!
