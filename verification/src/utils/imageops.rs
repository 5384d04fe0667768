//! Arithmetic on image dimensions.
//!
//! All of it is exact integer arithmetic: a quotient is rounded once, where
//! the result is formed, and nowhere in between.

use vstd::arithmetic::div_mod::{lemma_div_is_ordered, lemma_fundamental_div_mod};
use vstd::arithmetic::mul::{lemma_mul_inequality, lemma_mul_is_commutative};
use vstd::prelude::*;

use crate::error::{ErrorKind, ProcessingError};

verus! {

/// The height that keeps the aspect ratio of a source at the given width:
/// `width / source_width * source_height`, rounded down.
pub open spec fn aspect_height(source_width: nat, source_height: nat, width: nat) -> nat
    recommends
        source_width > 0,
{
    (width * source_height) / source_width
}

/// A number as a `u32`, the largest `u32` standing for all that are larger.
pub open spec fn saturated(n: nat) -> u32 {
    if n > u32::MAX {
        u32::MAX
    } else {
        n as u32
    }
}

/// The message of the error for a source without width.
pub open spec fn zero_width_message() -> Seq<char> {
    "The image has a width of zero!"@
}

/// `aspect_height` is the floor of the exact quotient: the largest height
/// `h` with `h * source_width <= width * source_height`.
pub proof fn lemma_aspect_height_is_floor(source_width: nat, source_height: nat, width: nat)
    requires
        source_width > 0,
    ensures
        aspect_height(source_width, source_height, width) * source_width <= width * source_height,
        width * source_height < (aspect_height(source_width, source_height, width) + 1)
            * source_width,
{
    let product = (width * source_height) as int;
    let divisor = source_width as int;
    lemma_fundamental_div_mod(product, divisor);
    lemma_mul_is_commutative(divisor, product / divisor);
    assert((product / divisor + 1) * divisor == (product / divisor) * divisor + divisor)
        by (nonlinear_arith);
}

/// A derivative that is no wider than its source is no higher either.
pub proof fn lemma_aspect_height_bounded(source_width: nat, source_height: nat, width: nat)
    requires
        source_width > 0,
        width <= source_width,
    ensures
        aspect_height(source_width, source_height, width) <= source_height,
{
    lemma_mul_inequality(width as int, source_width as int, source_height as int);
    lemma_div_is_ordered(
        (width * source_height) as int,
        (source_width * source_height) as int,
        source_width as int,
    );
    assert((source_width * source_height) as int / (source_width as int) == source_height)
        by (nonlinear_arith)
        requires
            source_width > 0,
    ;
}

/// A wider derivative of the same source is at least as high.
pub proof fn lemma_aspect_height_monotonic(
    source_width: nat,
    source_height: nat,
    narrow: nat,
    wide: nat,
)
    requires
        source_width > 0,
        narrow <= wide,
    ensures
        aspect_height(source_width, source_height, narrow) <= aspect_height(
            source_width,
            source_height,
            wide,
        ),
{
    lemma_mul_inequality(narrow as int, wide as int, source_height as int);
    lemma_div_is_ordered(
        (narrow * source_height) as int,
        (wide * source_height) as int,
        source_width as int,
    );
}

/// Computes the height of a derivative of the given width that preserves the
/// aspect ratio of the source. The quotient is rounded down; a height beyond
/// the range of `u32` is reported as `u32::MAX`. A source without width has
/// no aspect ratio and is an `InvalidImage` error.
pub fn calculate_height_preserve_aspect_ratio(
    source_width: u32,
    source_height: u32,
    width: u32,
) -> (r: Result<u32, ProcessingError>)
    ensures
        match r {
            Ok(height) => source_width > 0 && height == saturated(
                aspect_height(source_width as nat, source_height as nat, width as nat),
            ),
            Err(e) => source_width == 0 && e.kind == ErrorKind::InvalidImage && e.message@
                == zero_width_message(),
        },
{
    if source_width == 0 {
        return Err(ProcessingError::new(ErrorKind::InvalidImage, "The image has a width of zero!"));
    }
    assert((width as u64) * (source_height as u64) <= 0xffff_ffff * 0xffff_ffff)
        by (nonlinear_arith)
        requires
            width <= 0xffff_ffff,
            source_height <= 0xffff_ffff,
    ;
    let product: u64 = (width as u64) * (source_height as u64);
    let height: u64 = product / (source_width as u64);
    if height > u32::MAX as u64 {
        Ok(u32::MAX)
    } else {
        Ok(height as u32)
    }
}

} // verus!
