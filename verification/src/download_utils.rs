//! Judging the answer to a download request.

use vstd::prelude::*;
use crate::error::GdvmError;

verus! {

/// The verdict on the status of a download: 200 carries the file, 404
/// means that there is no such file, anything else is a failed download
/// with that status.
pub fn check_download_status(status: u16) -> (r: Result<(), GdvmError>)
    ensures
        status == 200 ==> r is Ok,
        status == 404 ==> r is Err && r->Err_0 is NotFound,
        status != 200 && status != 404 ==> r is Err && r->Err_0 == GdvmError::DownloadFailed(
            status,
        ),
{
    if status == 200 {
        Ok(())
    } else if status == 404 {
        Err(GdvmError::NotFound)
    } else {
        Err(GdvmError::DownloadFailed(status))
    }
}

} // verus!
