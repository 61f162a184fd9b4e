//! A small gallery-and-catalog library.
//!
//! Two read models live here: a filesystem-backed gallery store (directory
//! listings, URL-safe identifier encoding, path-escape protection, highlight
//! selection) and a relational service catalog (templated SQL construction,
//! row decoding, and a verified in-memory model of its create/list
//! operations). All I/O stays with the caller: every function in this crate
//! computes over plain values.

use vstd::prelude::*;

pub mod catalog;
pub mod codec;
pub mod errors;
pub mod gallery;
pub mod rows;
pub mod sql;

verus! {

/// A gallery assembled by hand: a set of images and an optional highlight.
pub struct Gallery {
    pub images: Vec<Image>,
    pub highlight: Option<Image>,
}

/// One image: its file name and the path it can be read from.
pub struct Image {
    pub name: String,
    pub path: String,
}

impl Gallery {
    /// An empty gallery: no images, no highlight.
    pub fn new() -> (g: Gallery)
        ensures
            g.images@.len() == 0,
            g.highlight is None,
    {
        Gallery { images: Vec::new(), highlight: None }
    }

    /// Appends one image, leaving the highlight as it was.
    pub fn add_image(&mut self, image: Image)
        ensures
            final(self).images@ == old(self).images@.push(image),
            final(self).highlight == old(self).highlight,
    {
        self.images.push(image);
    }

    /// Replaces the highlight, leaving the images as they were.
    pub fn set_highlight(&mut self, image: Image)
        ensures
            final(self).highlight == Some(image),
            final(self).images@ == old(self).images@,
    {
        self.highlight = Some(image);
    }

    /// The current highlight, if one was set.
    pub fn get_highlight(&self) -> (r: Option<&Image>)
        ensures
            match r {
                Some(i) => self.highlight == Some(*i),
                None => self.highlight is None,
            },
    {
        self.highlight.as_ref()
    }
}

} // verus!
