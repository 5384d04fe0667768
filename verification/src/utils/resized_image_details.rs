//! The derivative planner: which scaled derivatives an image gets.

use vstd::arithmetic::div_mod::{
    lemma_basic_div,
    lemma_div_is_ordered,
    lemma_fundamental_div_mod,
};
use vstd::arithmetic::mul::lemma_mul_inequality;
use vstd::prelude::*;

use crate::error::{ErrorKind, Failure, ProcessingError};
use crate::path::{file_stem, file_stem_of};
use crate::utils::imageops::{
    aspect_height,
    calculate_height_preserve_aspect_ratio,
    lemma_aspect_height_bounded,
    zero_width_message,
};
use crate::utils::text::{decimal, to_decimal};

verus! {

/// A derivative as the contracts speak of it.
pub struct Derivative {
    pub file_name: Seq<char>,
    pub width: nat,
    pub height: nat,
}

/// Contains the determined image details required for conversion.
#[derive(Debug)]
pub struct ResizedImageDetails {
    pub output_file_name: String,
    pub width: u32,
    pub height: u32,
}

impl View for ResizedImageDetails {
    type V = Derivative;

    open spec fn view(&self) -> Derivative {
        Derivative {
            file_name: self.output_file_name@,
            width: self.width as nat,
            height: self.height as nat,
        }
    }
}

/// The derivatives that a sequence of details stands for.
pub open spec fn derivatives(details: Seq<ResizedImageDetails>) -> Seq<Derivative> {
    details.map_values(|d: ResizedImageDetails| d@)
}

/// The width of the scaled derivative with the given index, counted from 0:
/// `(index + 1) * source_width / (scale_count + 1)`, rounded up.
pub open spec fn scaled_width(source_width: nat, scale_count: nat, index: nat) -> nat {
    ((index + 1) * source_width + scale_count) / (scale_count + 1)
}

/// The file name of a scaled derivative: the source's stem, `-w`, the width
/// and the extension.
pub open spec fn resized_name(stem: Seq<char>, width: nat) -> Seq<char> {
    stem + "-w"@ + decimal(width) + ".webp"@
}

/// The scaled derivative with the given index.
pub open spec fn planned(
    stem: Seq<char>,
    source_width: nat,
    source_height: nat,
    scale_count: nat,
    index: nat,
) -> Derivative {
    Derivative {
        file_name: resized_name(stem, scaled_width(source_width, scale_count, index)),
        width: scaled_width(source_width, scale_count, index),
        height: aspect_height(
            source_width,
            source_height,
            scaled_width(source_width, scale_count, index),
        ),
    }
}

/// The scaled derivatives of a source, narrowest first.
pub open spec fn plan(
    stem: Seq<char>,
    source_width: nat,
    source_height: nat,
    scale_count: nat,
) -> Seq<Derivative> {
    Seq::new(
        scale_count,
        |i: int| planned(stem, source_width, source_height, scale_count, i as nat),
    )
}

/// The message of the error for a path without a file name.
pub open spec fn no_file_name_message() -> Seq<char> {
    "No filename given!"@
}

/// What planning yields: nothing to do for a scale count of zero, an error
/// for a source without width or a path without a file name, and else the
/// plan.
pub open spec fn planning(
    image_file_name: Seq<char>,
    source_width: nat,
    source_height: nat,
    scale_count: nat,
) -> Result<Seq<Derivative>, Failure> {
    if scale_count == 0 {
        Ok(Seq::empty())
    } else if source_width == 0 {
        Err(Failure { kind: ErrorKind::InvalidImage, message: zero_width_message() })
    } else {
        match file_stem_of(image_file_name) {
            Some(stem) => Ok(plan(stem, source_width, source_height, scale_count)),
            None => Err(Failure { kind: ErrorKind::NotAFile, message: no_file_name_message() }),
        }
    }
}

/// What a planning result stands for.
pub open spec fn planning_view(r: Result<Vec<ResizedImageDetails>, ProcessingError>) -> Result<
    Seq<Derivative>,
    Failure,
> {
    match r {
        Ok(details) => Ok(derivatives(details@)),
        Err(e) => Err(e@),
    }
}

/// `scaled_width` is the ceiling of the exact quotient: the least width `w`
/// with `w * (scale_count + 1) >= (index + 1) * source_width`.
pub proof fn lemma_scaled_width_is_ceiling(source_width: nat, scale_count: nat, index: nat)
    ensures
        (index + 1) * source_width <= scaled_width(source_width, scale_count, index) * (scale_count
            + 1),
        (scaled_width(source_width, scale_count, index) - 1) * (scale_count + 1) < (index + 1)
            * source_width,
{
    let numerator = ((index + 1) * source_width + scale_count) as int;
    let divisor = (scale_count + 1) as int;
    let width = numerator / divisor;
    lemma_fundamental_div_mod(numerator, divisor);
    assert(divisor * width == width * divisor) by (nonlinear_arith);
    assert((width - 1) * divisor == width * divisor - divisor) by (nonlinear_arith);
}

/// The widths of a plan never decrease from one derivative to the next.
pub proof fn lemma_scaled_width_monotonic(
    source_width: nat,
    scale_count: nat,
    first: nat,
    second: nat,
)
    requires
        first <= second,
    ensures
        scaled_width(source_width, scale_count, first) <= scaled_width(
            source_width,
            scale_count,
            second,
        ),
{
    lemma_mul_inequality((first + 1) as int, (second + 1) as int, source_width as int);
    lemma_div_is_ordered(
        ((first + 1) * source_width + scale_count) as int,
        ((second + 1) * source_width + scale_count) as int,
        (scale_count + 1) as int,
    );
}

/// Where the source has at least one pixel column per step, the widths of a
/// plan strictly increase.
pub proof fn lemma_scaled_width_increasing(
    source_width: nat,
    scale_count: nat,
    first: nat,
    second: nat,
)
    requires
        first < second,
        source_width >= scale_count + 1,
    ensures
        scaled_width(source_width, scale_count, first) < scaled_width(
            source_width,
            scale_count,
            second,
        ),
{
    let divisor = (scale_count + 1) as int;
    let low = ((first + 1) * source_width + scale_count) as int;
    let high = ((second + 1) * source_width + scale_count) as int;
    assert(low + divisor <= high) by (nonlinear_arith)
        requires
            low == (first + 1) * source_width + scale_count,
            high == (second + 1) * source_width + scale_count,
            first < second,
            source_width >= divisor,
    ;
    lemma_div_is_ordered(low + divisor, high, divisor);
    lemma_fundamental_div_mod(low, divisor);
    lemma_fundamental_div_mod(low + divisor, divisor);
    assert((low + divisor) / divisor == low / divisor + 1) by (nonlinear_arith)
        requires
            divisor > 0,
    ;
}

/// Every scaled derivative is at least one pixel wide and no wider than its
/// source, and narrower than it where the source has a pixel column per step.
pub proof fn lemma_scaled_width_bounds(source_width: nat, scale_count: nat, index: nat)
    requires
        source_width > 0,
        index < scale_count,
    ensures
        1 <= scaled_width(source_width, scale_count, index) <= source_width,
        source_width > scale_count ==> scaled_width(source_width, scale_count, index)
            < source_width,
{
    let divisor = (scale_count + 1) as int;
    let numerator = ((index + 1) * source_width + scale_count) as int;
    lemma_fundamental_div_mod(numerator, divisor);
    let width = numerator / divisor;
    assert(divisor * width == width * divisor) by (nonlinear_arith);
    assert(numerator >= divisor) by (nonlinear_arith)
        requires
            numerator == (index + 1) * source_width + scale_count,
            divisor == scale_count + 1,
            source_width >= 1,
            index >= 0,
    ;
    assert(width >= 1) by (nonlinear_arith)
        requires
            numerator == divisor * width + numerator % divisor,
            0 <= numerator % divisor < divisor,
            numerator >= divisor,
            divisor > 0,
    ;
    assert(numerator <= scale_count * source_width + scale_count) by (nonlinear_arith)
        requires
            numerator == (index + 1) * source_width + scale_count,
            index + 1 <= scale_count,
            source_width >= 0,
    ;
    assert(width <= source_width) by (nonlinear_arith)
        requires
            numerator == divisor * width + numerator % divisor,
            0 <= numerator % divisor,
            numerator <= scale_count * source_width + scale_count,
            divisor == scale_count + 1,
            source_width >= 0,
            width >= 0,
    ;
    if source_width > scale_count {
        assert(width < source_width) by (nonlinear_arith)
            requires
                numerator == divisor * width + numerator % divisor,
                0 <= numerator % divisor,
                numerator <= scale_count * source_width + scale_count,
                divisor == scale_count + 1,
                source_width > scale_count,
                width >= 0,
        ;
    }
}

impl ResizedImageDetails {
    /// Creates a new instance.
    pub fn new(output_file_name: String, width: u32, height: u32) -> (r: Self)
        ensures
            r.output_file_name == output_file_name,
            r.width == width,
            r.height == height,
    {
        Self { output_file_name, width, height }
    }

    /// Computes the width of the scaled derivative with the given index.
    pub fn width_at(source_width: u32, scaled_images_count: u8, index: u8) -> (r: u32)
        requires
            index < scaled_images_count,
        ensures
            r == scaled_width(source_width as nat, scaled_images_count as nat, index as nat),
            r <= source_width,
    {
        let steps: u64 = index as u64 + 1;
        assert(steps * (source_width as u64) <= 255 * 0xffff_ffff) by (nonlinear_arith)
            requires
                steps <= 255,
                source_width <= 0xffff_ffff,
        ;
        let numerator: u64 = steps * (source_width as u64) + scaled_images_count as u64;
        let width: u64 = numerator / (scaled_images_count as u64 + 1);
        proof {
            if source_width > 0 {
                lemma_scaled_width_bounds(
                    source_width as nat,
                    scaled_images_count as nat,
                    index as nat,
                );
            } else {
                assert(steps * (source_width as u64) == 0) by (nonlinear_arith)
                    requires
                        source_width == 0,
                ;
                lemma_basic_div(numerator as int, scaled_images_count as int + 1);
            }
        }
        width as u32
    }

    /// Calculates height, width and output file names for the scaled images
    /// of a source with the given dimensions, narrowest first.
    ///
    /// The width of number `i` of `n` is `i * source_width / (n + 1)`
    /// rounded up, the height keeps the aspect ratio and is rounded down.
    /// Equal widths, which a narrow source can give, are not merged. A scale
    /// count of zero yields no derivative. Otherwise a source without width
    /// is an `InvalidImage` error, and a path without a file name a
    /// `NotAFile` error.
    pub fn from(
        image_file_name: &str,
        source_width: u32,
        source_height: u32,
        scaled_images_count: u8,
    ) -> (r: Result<Vec<ResizedImageDetails>, ProcessingError>)
        ensures
            planning_view(r) == planning(
                image_file_name@,
                source_width as nat,
                source_height as nat,
                scaled_images_count as nat,
            ),
            source_width > 0 && file_stem_of(image_file_name@) is Some ==> r is Ok,
            r matches Ok(details) ==> details.len() == scaled_images_count,
            r matches Ok(details) ==> forall|i: int|
                0 <= i < details.len() ==> (#[trigger] details[i])@ == planned(
                    file_stem_of(image_file_name@)->Some_0,
                    source_width as nat,
                    source_height as nat,
                    scaled_images_count as nat,
                    i as nat,
                ),
            r matches Ok(details) ==> forall|i: int, j: int|
                0 <= i <= j < details.len() ==> details[i].width <= details[j].width,
    {
        let mut resized_details: Vec<ResizedImageDetails> = Vec::new();
        if scaled_images_count == 0 {
            assert(derivatives(resized_details@) =~= Seq::<Derivative>::empty());
            return Ok(resized_details);
        }
        if source_width == 0 {
            return Err(
                ProcessingError::new(ErrorKind::InvalidImage, "The image has a width of zero!"),
            );
        }
        let stem = match file_stem(image_file_name) {
            Some(stem) => stem,
            None => {
                return Err(ProcessingError::new(ErrorKind::NotAFile, "No filename given!"));
            },
        };
        let mut idx: u8 = 0;
        while idx < scaled_images_count
            invariant
                idx <= scaled_images_count,
                source_width > 0,
                resized_details.len() == idx,
                forall|i: int|
                    0 <= i < idx ==> (#[trigger] resized_details[i])@ == planned(
                        stem@,
                        source_width as nat,
                        source_height as nat,
                        scaled_images_count as nat,
                        i as nat,
                    ),
            decreases scaled_images_count - idx,
        {
            let new_width = Self::width_at(source_width, scaled_images_count, idx);
            proof {
                lemma_aspect_height_bounded(
                    source_width as nat,
                    source_height as nat,
                    new_width as nat,
                );
            }
            let new_height = match calculate_height_preserve_aspect_ratio(
                source_width,
                source_height,
                new_width,
            ) {
                Ok(height) => height,
                Err(e) => {
                    return Err(e);
                },
            };
            let output_file_name = Self::resized_file_name(stem.as_str(), new_width);
            resized_details.push(ResizedImageDetails::new(output_file_name, new_width, new_height));
            idx += 1;
        }
        proof {
            assert(derivatives(resized_details@) =~= plan(
                stem@,
                source_width as nat,
                source_height as nat,
                scaled_images_count as nat,
            ));
            assert forall|i: int, j: int| 0 <= i <= j < resized_details.len() implies resized_details[i].width
                <= resized_details[j].width by {
                lemma_scaled_width_monotonic(
                    source_width as nat,
                    scaled_images_count as nat,
                    i as nat,
                    j as nat,
                );
                assert(resized_details[i]@.width == scaled_width(
                    source_width as nat,
                    scaled_images_count as nat,
                    i as nat,
                ));
                assert(resized_details[j]@.width == scaled_width(
                    source_width as nat,
                    scaled_images_count as nat,
                    j as nat,
                ));
            }
        }
        Ok(resized_details)
    }

    /// Puts the file name of a scaled derivative together from the stem of
    /// its source and its width.
    pub fn resized_file_name(stem: &str, width: u32) -> (r: String)
        ensures
            r@ == resized_name(stem@, width as nat),
    {
        let mut name = stem.to_owned();
        name.append("-w");
        name.append(to_decimal(width as u64).as_str());
        name.append(".webp");
        name
    }

    /// Constructs the file name for a resized image: the stem of the source's
    /// file name, `-w`, the width and the extension `webp`. A path without a
    /// file name is a `NotAFile` error.
    pub fn get_resized_file_name(image_file_name: &str, width: u32) -> (r: Result<
        String,
        ProcessingError,
    >)
        ensures
            match file_stem_of(image_file_name@) {
                Some(stem) => r matches Ok(name) && name@ == resized_name(stem, width as nat),
                None => r matches Err(e) && e@ == (Failure {
                    kind: ErrorKind::NotAFile,
                    message: no_file_name_message(),
                }),
            },
    {
        match file_stem(image_file_name) {
            Some(stem) => Ok(Self::resized_file_name(stem.as_str(), width)),
            None => Err(ProcessingError::new(ErrorKind::NotAFile, "No filename given!")),
        }
    }
}

} // verus!
