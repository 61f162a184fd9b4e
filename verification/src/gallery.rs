//! The gallery store's logic: turning a one-level directory scan into
//! gallery entries, guarding resolved paths against escape from the root,
//! and choosing a highlight image.
//!
//! All filesystem reads stay with the caller. It hands in what a depth-one
//! scan saw — directory names and the file names directly inside each —
//! and receives entries, or a safe relative location to read, back.

use vstd::prelude::*;

use crate::codec::{decode, encode, spec_decode, spec_encode};
use crate::errors::StoreError;
use vstd::string::StringExecFns;

verus! {

/// The reserved suffix of filesystem metadata files, which listings hide.
pub open spec fn metadata_suffix() -> Seq<char> {
    seq!['.', 'd', 'b']
}

/// True when a file name ends in the reserved metadata suffix.
pub open spec fn is_metadata_name(s: Seq<char>) -> bool {
    s.len() >= 3 && s.subrange(s.len() - 3, s.len() as int) == metadata_suffix()
}

/// The file names a listing shows: everything but metadata files, in the
/// order the scan yielded them.
pub open spec fn visible_images(files: Seq<Seq<char>>) -> Seq<Seq<char>> {
    files.filter(|f: Seq<char>| !is_metadata_name(f))
}

/// One subdirectory of the photo root, as the API presents it.
#[derive(Debug)]
pub struct GalleryEntry {
    /// The raw directory name.
    pub name: String,
    /// The URL-safe identifier used in API paths.
    pub external_id: String,
    /// The visible file names directly inside the directory.
    pub images: Vec<String>,
}

/// Whether a file name ends in the reserved metadata suffix.
pub fn is_metadata_file(name: &str) -> (r: bool)
    ensures
        r == is_metadata_name(name@),
{
    let n = name.unicode_len();
    if n < 3 {
        return false;
    }
    let c0 = name.get_char(n - 3);
    let c1 = name.get_char(n - 2);
    let c2 = name.get_char(n - 1);
    let m = c0 == '.' && c1 == 'd' && c2 == 'b';
    proof {
        let tail = name@.subrange(name@.len() - 3, name@.len() as int);
        assert(tail.len() == 3);
        assert(tail[0] == c0 && tail[1] == c1 && tail[2] == c2);
        if m {
            assert(tail =~= metadata_suffix());
        } else {
            assert(metadata_suffix()[0] == '.' && metadata_suffix()[1] == 'd'
                && metadata_suffix()[2] == 'b');
            assert(tail != metadata_suffix());
        }
    }
    m
}

/// Builds one gallery entry: the raw name, its encoded identifier, and the
/// files it holds with metadata files left out.
pub fn gallery_entry(name: &str, files: &Vec<String>) -> (r: GalleryEntry)
    ensures
        r.name@ == name@,
        r.external_id@ == spec_encode(name@),
        r.images.deep_view() == visible_images(files.deep_view()),
{
    let mut images: Vec<String> = Vec::new();
    let ghost dv = files.deep_view();
    let mut i: usize = 0;
    proof {
        assert(dv.take(0) =~= Seq::<Seq<char>>::empty());
        reveal(Seq::filter);
        assert(images.deep_view() =~= visible_images(dv.take(0)));
    }
    while i < files.len()
        invariant
            i <= files.len(),
            dv == files.deep_view(),
            dv.len() == files@.len(),
            images.deep_view() == visible_images(dv.take(i as int)),
        decreases files@.len() - i,
    {
        let f = &files[i];
        let keep = !is_metadata_file(f.as_str());
        let ghost before = images.deep_view();
        if keep {
            images.push(f.clone());
        }
        proof {
            let t1 = dv.take(i + 1 as int);
            assert(t1.drop_last() =~= dv.take(i as int));
            assert(t1.last() == dv[i as int]);
            assert(dv[i as int] == files@[i as int]@);
            reveal(Seq::filter);
            if keep {
                assert(images.deep_view() =~= before.push(files@[i as int]@));
                assert(visible_images(t1) =~= visible_images(dv.take(i as int)).push(
                    dv[i as int],
                ));
            } else {
                assert(visible_images(t1) =~= visible_images(dv.take(i as int)));
            }
        }
        i = i + 1;
    }
    proof {
        assert(dv.take(dv.len() as int) =~= dv);
    }
    GalleryEntry { name: String::from_str(name), external_id: encode(name), images }
}

/// Builds the full listing from a depth-one scan of the root: one entry
/// for each subdirectory, in scan order, each holding only its visible
/// files.
pub fn list_galleries(scan: &Vec<(String, Vec<String>)>) -> (r: Vec<GalleryEntry>)
    ensures
        r@.len() == scan@.len(),
        forall|i: int|
            0 <= i < scan@.len() ==> {
                &&& (#[trigger] r@[i]).name@ == scan@[i].0@
                &&& r@[i].external_id@ == spec_encode(scan@[i].0@)
                &&& r@[i].images.deep_view() == visible_images(scan@[i].1.deep_view())
            },
{
    let mut out: Vec<GalleryEntry> = Vec::new();
    let mut i: usize = 0;
    while i < scan.len()
        invariant
            i <= scan@.len(),
            out@.len() == i,
            forall|j: int|
                0 <= j < i ==> {
                    &&& (#[trigger] out@[j]).name@ == scan@[j].0@
                    &&& out@[j].external_id@ == spec_encode(scan@[j].0@)
                    &&& out@[j].images.deep_view() == visible_images(scan@[j].1.deep_view())
                },
        decreases scan@.len() - i,
    {
        let pair = &scan[i];
        let entry = gallery_entry(pair.0.as_str(), &pair.1);
        out.push(entry);
        i = i + 1;
    }
    out
}

/// True when a decoded name or file name is usable as one safe path
/// segment: non-empty, not a dot navigation, and free of separators and
/// NUL.
pub open spec fn is_safe_segment(s: Seq<char>) -> bool {
    &&& s.len() > 0
    &&& s != seq!['.']
    &&& s != seq!['.', '.']
    &&& forall|i: int| 0 <= i < s.len() ==> s[i] != '/' && s[i] != '\\' && s[i] != '\0'
}

/// Whether a string can stand as one safe path segment.
pub fn check_segment(s: &str) -> (r: bool)
    ensures
        r == is_safe_segment(s@),
{
    let n = s.unicode_len();
    if n == 0 {
        return false;
    }
    if n == 1 && s.get_char(0) == '.' {
        proof {
            assert(s@ =~= seq!['.']);
        }
        return false;
    }
    if n == 2 && s.get_char(0) == '.' && s.get_char(1) == '.' {
        proof {
            assert(s@ =~= seq!['.', '.']);
        }
        return false;
    }
    let mut i: usize = 0;
    while i < n
        invariant
            i <= n,
            n == s@.len(),
            forall|j: int| 0 <= j < i ==> s@[j] != '/' && s@[j] != '\\' && s@[j] != '\0',
        decreases n - i,
    {
        let c = s.get_char(i);
        if c == '/' || c == '\\' || c == '\0' {
            return false;
        }
        i = i + 1;
    }
    proof {
        if s@ == seq!['.'] {
            assert(s@.len() == 1 && s@[0] == '.');
        }
        if s@ == seq!['.', '.'] {
            assert(s@.len() == 2 && s@[0] == '.' && s@[1] == '.');
        }
    }
    true
}

/// A gallery and image pair that has passed decoding and the path-escape
/// guard: both components are safe single segments, to be joined under the
/// root by the caller.
#[derive(Debug)]
pub struct ImageRef {
    /// The raw gallery directory name.
    pub gallery: String,
    /// The image file name inside it.
    pub image: String,
}

/// What resolving a gallery identifier alone yields: the decoded directory
/// name, invalid input when decoding fails, or a path violation when the
/// name cannot stand as one safe segment.
pub open spec fn spec_resolve_gallery(gid: Seq<char>) -> Result<Seq<char>, StoreError> {
    match spec_decode(gid) {
        None => Err(StoreError::InvalidInput),
        Some(g) => if is_safe_segment(g) {
            Ok(g)
        } else {
            Err(StoreError::PathViolation)
        },
    }
}

/// What resolving a gallery identifier and image name yields: both safe
/// segments, or the first applicable failure.
pub open spec fn spec_resolve_image(gid: Seq<char>, img: Seq<char>) -> Result<
    (Seq<char>, Seq<char>),
    StoreError,
> {
    match spec_resolve_gallery(gid) {
        Err(e) => Err(e),
        Ok(g) => if is_safe_segment(img) {
            Ok((g, img))
        } else {
            Err(StoreError::PathViolation)
        },
    }
}

/// Decodes a gallery identifier and rejects any name that could escape
/// the root.
pub fn resolve_gallery(gallery_id: &str) -> (r: Result<String, StoreError>)
    ensures
        match r {
            Ok(g) => spec_resolve_gallery(gallery_id@) == Ok::<_, StoreError>(g@),
            Err(e) => spec_resolve_gallery(gallery_id@) == Err::<Seq<char>, _>(e),
        },
{
    match decode(gallery_id) {
        Err(_) => Err(StoreError::InvalidInput),
        Ok(name) => {
            if check_segment(name.as_str()) {
                Ok(name)
            } else {
                Err(StoreError::PathViolation)
            }
        },
    }
}

/// Decodes a gallery identifier, takes an image file name, and rejects
/// any pair that could escape the root; what it returns is safe to join
/// under the root and read.
pub fn resolve_image(gallery_id: &str, image_name: &str) -> (r: Result<ImageRef, StoreError>)
    ensures
        match r {
            Ok(ir) => spec_resolve_image(gallery_id@, image_name@) == Ok::<_, StoreError>(
                (ir.gallery@, ir.image@),
            ),
            Err(e) => spec_resolve_image(gallery_id@, image_name@) == Err::<
                (Seq<char>, Seq<char>),
                _,
            >(e),
        },
{
    match resolve_gallery(gallery_id) {
        Err(e) => Err(e),
        Ok(gallery) => {
            if check_segment(image_name) {
                Ok(ImageRef { gallery, image: String::from_str(image_name) })
            } else {
                Err(StoreError::PathViolation)
            }
        },
    }
}

/// The highlight of a gallery is the first file the scan yielded; an
/// empty gallery has none.
pub fn choose_highlight(files: &Vec<String>) -> (r: Result<&String, StoreError>)
    ensures
        match r {
            Ok(f) => files@.len() > 0 && f@ == files@[0]@,
            Err(e) => e == StoreError::NotFound && files@.len() == 0,
        },
{
    if files.len() == 0 {
        Err(StoreError::NotFound)
    } else {
        Ok(&files[0])
    }
}

/// A listing never shows a metadata file: every file name among the
/// visible images lacks the reserved suffix, whatever the scan held.
pub proof fn lemma_no_metadata_listed(files: Seq<Seq<char>>, i: int)
    requires
        0 <= i < visible_images(files).len(),
    ensures
        !is_metadata_name(visible_images(files)[i]),
{
    files.lemma_filter_pred(|f: Seq<char>| !is_metadata_name(f), i);
}

/// Any input whose decoded gallery name or image name holds a path-escape
/// sequence — a separator, a dot navigation, or an empty segment — resolves
/// to a path violation, never to a readable location.
pub proof fn lemma_path_escape_rejected(gid: Seq<char>, img: Seq<char>)
    requires
        spec_decode(gid) is Some,
        !is_safe_segment(spec_decode(gid)->0) || !is_safe_segment(img),
    ensures
        spec_resolve_image(gid, img) == Err::<(Seq<char>, Seq<char>), _>(
            StoreError::PathViolation,
        ),
{
}

} // verus!
