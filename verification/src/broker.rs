use vstd::prelude::*;

use crate::error::VcamError;
use crate::feed::{
    read_state_locked, reset_feed_session, spec_read_state, spec_reset_data_size, spec_start_session,
    spec_stop_session, start_feed_session, stop_feed_session, VcamSharedFeedControl, VCAM_FEED_CONFIG,
    VCAM_FEED_STATE,
};

verus! {

/// The session broker that producers talk to. It holds no state of its own:
/// each call works on the control header that the caller read under the
/// feed mutex, and hands back what is to be written there.
pub struct FrameBroker {
    _private: (),
}

impl FrameBroker {
    pub fn create() -> (b: Self) {
        FrameBroker { _private: () }
    }

    /// Starts a session with `config` (`None` when the caller passed no
    /// config); see `start_feed_session`.
    pub fn start_session(
        &self,
        config: Option<VCAM_FEED_CONFIG>,
        force_reset: bool,
        existing: VcamSharedFeedControl,
        now_ms: u64,
    ) -> (r: Result<VcamSharedFeedControl, VcamError>)
        ensures
            match config {
                None => r == Err::<VcamSharedFeedControl, VcamError>(VcamError::NullPointer),
                Some(c) => r == spec_start_session(c, force_reset, existing, now_ms),
            },
    {
        match config {
            None => Err(VcamError::NullPointer),
            Some(c) => start_feed_session(c, force_reset, existing, now_ms),
        }
    }

    /// Stops the session; see `stop_feed_session`.
    pub fn stop_session(&self, control: VcamSharedFeedControl) -> (c: VcamSharedFeedControl)
        ensures
            c == spec_stop_session(control),
    {
        stop_feed_session(control)
    }

    /// The session state, and the header as it stands after a stale session
    /// was deactivated; refused when the caller gave no place for the state.
    pub fn session_state(
        &self,
        state_requested: bool,
        control: Option<VcamSharedFeedControl>,
        now_ms: u64,
    ) -> (r: Result<(VCAM_FEED_STATE, Option<VcamSharedFeedControl>), VcamError>)
        ensures
            !state_requested ==> r == Err::<(VCAM_FEED_STATE, Option<VcamSharedFeedControl>), VcamError>(
                VcamError::NullPointer),
            state_requested ==> r == Ok::<(VCAM_FEED_STATE, Option<VcamSharedFeedControl>), VcamError>(
                spec_read_state(control, now_ms)),
    {
        if !state_requested {
            return Err(VcamError::NullPointer);
        }
        Ok(read_state_locked(control, now_ms))
    }

    /// Bytes of the slot ring to clear on a reset; see `reset_feed_session`.
    pub fn reset_session(&self, control: VcamSharedFeedControl) -> (r: Result<usize, VcamError>)
        ensures
            r == spec_reset_data_size(control),
    {
        reset_feed_session(control)
    }
}

} // verus!
