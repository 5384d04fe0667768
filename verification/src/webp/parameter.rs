use vstd::prelude::*;

use crate::webp::{DEFAULT_QUALITY, MAX_QUALITY, MIN_QUALITY};

verus! {

/// The quality a request stands for: the default when nothing is requested,
/// otherwise the requested value moved into the range the encoder accepts.
pub open spec fn effective_quality(quality: Option<u8>) -> u8 {
    match quality {
        None => DEFAULT_QUALITY,
        Some(q) => if q > MAX_QUALITY {
            MAX_QUALITY
        } else if q < MIN_QUALITY {
            MIN_QUALITY
        } else {
            q
        },
    }
}

/// The parameters that are passed to the WebP encoder.
#[derive(Clone, Copy, Debug)]
pub struct WebpParameter {
    pub quality: u8,
}

impl WebpParameter {
    /// Whether the quality lies in the range the encoder accepts.
    pub open spec fn wf(&self) -> bool {
        MIN_QUALITY <= self.quality <= MAX_QUALITY
    }

    /// Creates the parameters for a requested quality. Out-of-range requests
    /// are clamped, never rejected.
    pub fn new(quality: Option<u8>) -> (r: Self)
        ensures
            r.quality == effective_quality(quality),
            r.wf(),
    {
        let quality = Self::parameter_check_quality(quality);
        Self { quality }
    }

    /// Clamps a requested quality into `[MIN_QUALITY, MAX_QUALITY]` and
    /// supplies the default for a missing one.
    pub fn parameter_check_quality(quality: Option<u8>) -> (r: u8)
        ensures
            r == effective_quality(quality),
            MIN_QUALITY <= r <= MAX_QUALITY,
    {
        match quality {
            None => DEFAULT_QUALITY,
            Some(q) => {
                if q > MAX_QUALITY {
                    MAX_QUALITY
                } else if q < MIN_QUALITY {
                    MIN_QUALITY
                } else {
                    q
                }
            },
        }
    }
}

} // verus!
