//! The processors that drive the single and the batch conversion.

use vstd::prelude::*;

use crate::webp::WebpParameter;

pub mod batch;
pub mod single;

pub use batch::{BatchParameter, BatchProcessor};
pub use single::SingleProcessor;

verus! {

/// A job as the contracts speak of it.
pub struct Job {
    pub input: Seq<char>,
    pub output_dir: Seq<char>,
    pub quality: u8,
    pub scale_count: nat,
    pub single_threaded: bool,
}

/// The parameter required for `SingleProcessor` to run: the complete input
/// of one job.
#[derive(Clone, Debug)]
pub struct Parameter {
    pub webp_parameter: WebpParameter,
    pub input: String,
    pub output_dir: String,
    pub scaled_images_count: Option<u8>,
    pub single_threaded: bool,
}

/// The number of scaled derivatives a request stands for: none where
/// nothing is requested.
pub open spec fn requested_scales(scaled_images_count: Option<u8>) -> nat {
    match scaled_images_count {
        Some(count) => count as nat,
        None => 0,
    }
}

impl View for Parameter {
    type V = Job;

    open spec fn view(&self) -> Job {
        Job {
            input: self.input@,
            output_dir: self.output_dir@,
            quality: self.webp_parameter.quality,
            scale_count: requested_scales(self.scaled_images_count),
            single_threaded: self.single_threaded,
        }
    }
}

impl Parameter {
    /// The number of scaled derivatives the job asks for.
    pub fn scale_count(&self) -> (r: u8)
        ensures
            r as nat == self@.scale_count,
    {
        match self.scaled_images_count {
            Some(count) => count,
            None => 0,
        }
    }

    /// The number of files the job writes when it succeeds: the full-scale
    /// derivative and one file for each scaled derivative.
    pub fn output_count(&self) -> (r: u64)
        ensures
            r == self@.scale_count + 1,
    {
        self.scale_count() as u64 + 1
    }

    /// A copy of the parameter.
    pub fn duplicate(&self) -> (r: Self)
        ensures
            r == *self,
    {
        Parameter {
            webp_parameter: self.webp_parameter,
            input: self.input.clone(),
            output_dir: self.output_dir.clone(),
            scaled_images_count: self.scaled_images_count,
            single_threaded: self.single_threaded,
        }
    }
}

} // verus!
