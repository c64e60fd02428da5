use vstd::prelude::*;

use crate::error::EditorError;

verus! {

/// Judges how the editor process ended: only a successful exit lets the
/// edited list be trusted. `code` is the process's exit code, if it has one.
pub fn check_editor_status(success: bool, code: Option<i32>) -> (r: Result<(), EditorError>)
    ensures
        success <==> r is Ok,
        !success ==> (r matches Err(EditorError::Status(c)) && c == code),
{
    if !success {
        return Err(EditorError::Status(code));
    }
    Ok(())
}

} // verus!
