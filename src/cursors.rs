use vstd::prelude::*;

use crate::error::TesseractError;

verus! {

/// What to do with the two cursors requested together after recognition.
pub struct CursorPairPlan {
    /// Release the layout cursor, which was obtained, before reporting failure.
    pub release_layout: bool,
    /// Release the result cursor, which was obtained, before reporting failure.
    pub release_result: bool,
    /// Whether the pair is handed out, or the failure reported.
    pub outcome: Result<(), TesseractError>,
}

/// Decides the outcome of requesting a layout cursor and a result cursor
/// together: both are handed out only when both were obtained; otherwise the
/// one that was obtained is released, so that nothing leaks, and
/// `NullPointerError` is reported.
pub fn cursor_pair(layout_present: bool, result_present: bool) -> (r: CursorPairPlan)
    ensures
        r.outcome == if layout_present && result_present {
            Ok(())
        } else {
            Err(TesseractError::NullPointerError)
        },
        r.release_layout == (layout_present && !result_present),
        r.release_result == (result_present && !layout_present),
{
    if layout_present && result_present {
        CursorPairPlan { release_layout: false, release_result: false, outcome: Ok(()) }
    } else {
        CursorPairPlan {
            release_layout: layout_present,
            release_result: result_present,
            outcome: Err(TesseractError::NullPointerError),
        }
    }
}

/// The engine calls made when a manager is destroyed.
#[derive(Clone, Copy, PartialEq, Eq, Structural)]
pub enum Teardown {
    /// There is no engine object: nothing is called.
    Nothing,
    /// The engine is ended, then destroyed.
    EndThenDelete,
}

/// The calls that release an engine when its manager is destroyed: `End` and
/// then `Delete` when the engine object exists, nothing on a null one.
pub fn teardown(handle_present: bool) -> (r: Teardown)
    ensures
        r == if handle_present {
            Teardown::EndThenDelete
        } else {
            Teardown::Nothing
        },
{
    if handle_present {
        Teardown::EndThenDelete
    } else {
        Teardown::Nothing
    }
}

} // verus!
