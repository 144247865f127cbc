//! Request guards shared by the mate HTTP and WebSocket handlers.

use vstd::prelude::*;
use crate::api::ApiError;
use crate::mate::{layout_supported, MATE_MIN_LED_COUNT};

verus! {

/// `400 Bad Request`: mate mode cannot run on this layout.
pub fn unsupported_layout_response(layout_id: &str) -> (r: ApiError)
    ensures
        r.status == 400,
        r.error@ == "mate mode is not supported for layout "@ + layout_id@,
{
    let mut error = String::from_str("mate mode is not supported for layout ");
    error.append(layout_id);
    ApiError { status: 400, error }
}

/// Admits a mate request only for a layout whose compiled LED count (`led_count`,
/// `None` when unreadable) is large enough for a face.
pub fn guard_mate_layout(led_count: Option<u16>, layout_id: &str) -> (r: Result<(), ApiError>)
    ensures
        (led_count matches Some(n) && n >= MATE_MIN_LED_COUNT) ==> r is Ok,
        !(led_count matches Some(n) && n >= MATE_MIN_LED_COUNT) ==> (r matches Err(e) && e.status == 400
            && e.error@ == "mate mode is not supported for layout "@ + layout_id@),
{
    if layout_supported(led_count) {
        Ok(())
    } else {
        Err(unsupported_layout_response(layout_id))
    }
}

} // verus!
