//! Plans and tracks the conversion of a tree of raster images into scaled
//! WebP derivatives, and renders the `<picture>` markup that refers to them.
//!
//! Everything in this library is a computation on plain values: which
//! derivatives an image gets, what they are called, in which order the steps
//! of a conversion follow each other and how a batch is accounted for. The
//! file system, the image codecs and the terminal belong to the caller.

use vstd::prelude::*;

use crate::utils::text::texts;

pub mod error;
pub mod fs;
pub mod html5;
pub mod path;
pub mod pipeline;
pub mod utils;
pub mod webp;

verus! {

/// The names among `entries` that are names of png files, in their order.
pub open spec fn png_names(entries: Seq<Seq<char>>) -> Seq<Seq<char>>
    decreases entries.len(),
{
    if entries.len() == 0 {
        Seq::empty()
    } else if path::extension_of(entries.last()) == Some("png"@) {
        png_names(entries.drop_last()).push(entries.last())
    } else {
        png_names(entries.drop_last())
    }
}

/// Determines if the given input filename has the extension `png`.
pub fn is_png(input: &str) -> (r: bool)
    ensures
        r == (path::extension_of(input@) == Some("png"@)),
{
    match path::extension(input) {
        Some(extension) => extension == "png".to_owned(),
        None => false,
    }
}

/// Picks the png files among the entries of the input folder: those whose
/// extension is `png`, in the order of the entries.
pub fn collect_png_file_names(entries: &Vec<String>) -> (r: Vec<String>)
    ensures
        texts(r@) == png_names(texts(entries@)),
{
    let mut file_names: Vec<String> = Vec::new();
    let mut i: usize = 0;
    assert(texts(entries@).subrange(0, 0) =~= Seq::<Seq<char>>::empty());
    assert(texts(file_names@) =~= Seq::<Seq<char>>::empty());
    while i < entries.len()
        invariant
            i <= entries.len(),
            texts(file_names@) == png_names(texts(entries@).subrange(0, i as int)),
        decreases entries.len() - i,
    {
        let ghost before = texts(file_names@);
        proof {
            let next = texts(entries@).subrange(0, i + 1);
            assert(next.drop_last() =~= texts(entries@).subrange(0, i as int));
            assert(next.last() == entries[i as int]@);
        }
        if is_png(entries[i].as_str()) {
            file_names.push(entries[i].clone());
            assert(texts(file_names@) =~= before.push(entries[i as int]@));
        }
        i += 1;
    }
    assert(texts(entries@).subrange(0, i as int) =~= texts(entries@));
    file_names
}

} // verus!
