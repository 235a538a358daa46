//! Single-slot memoized source cache: the most recently used source path and
//! its decoded image. Resolving the same path again must not decode again;
//! resolving a different path replaces the (path, image) pair wholesale, so
//! a reader never observes a buffer paired with another path's key.
//!
//! The slot itself is plain data with exclusive-access (`&mut`) methods; the
//! caller wraps it in a mutual-exclusion primitive and keeps the whole
//! read-then-maybe-replace sequence inside one critical section. A failed
//! decode installs nothing, leaving the previous pair untouched.

use vstd::prelude::*;

verus! {

/// At most one (path, decoded image) pair, replaced as a unit. `T` is the
/// image handle (typically shared and reference-counted, so repeated hits
/// never copy pixel data).
pub struct ImageCache<T> {
    path: Option<String>,
    image: Option<T>,
}

impl<T> ImageCache<T> {
    /// A path is cached exactly when an image is: the pair is never torn.
    pub closed spec fn wf(self) -> bool {
        self.path is Some <==> self.image is Some
    }

    /// The cached path, as a character sequence.
    pub closed spec fn spec_path(self) -> Option<Seq<char>> {
        match self.path {
            Some(p) => Some(p@),
            None => None,
        }
    }

    /// The cached image handle.
    pub closed spec fn spec_image(self) -> Option<T> {
        self.image
    }

    /// Would a request for `path` hit the slot?
    pub open spec fn hits(self, path: Seq<char>) -> bool {
        self.spec_path() == Some(path)
    }

    /// A fresh, empty slot.
    pub fn empty() -> (r: Self)
        ensures
            r.wf(),
            r.spec_path() is None,
            r.spec_image() is None,
    {
        ImageCache { path: None, image: None }
    }

    /// Whether resolving `path` requires a fresh decode: exactly when the
    /// stored path differs (or nothing is stored).
    pub fn needs_decode(&self, path: &String) -> (r: bool)
        ensures
            r == !self.hits(path@),
    {
        match &self.path {
            Some(p) => !(*p == *path),
            None => true,
        }
    }

    /// The cached image handle, if `path` hits the slot; never a buffer
    /// paired with a different path.
    pub fn lookup(&self, path: &String) -> (r: Option<&T>)
        requires
            self.wf(),
        ensures
            match r {
                Some(img) => self.hits(path@) && self.spec_image() == Some(*img),
                None => !self.hits(path@),
            },
    {
        match &self.path {
            Some(p) => {
                if *p == *path {
                    match &self.image {
                        Some(img) => Some(img),
                        None => {
                            proof {
                                assert(false);
                            }
                            None
                        },
                    }
                } else {
                    None
                }
            },
            None => None,
        }
    }

    /// Replaces the cached pair wholesale ("last write wins"); the previous
    /// image is no longer reachable from the slot.
    pub fn install(&mut self, path: String, image: T)
        ensures
            final(self).wf(),
            final(self).spec_path() == Some(path@),
            final(self).spec_image() == Some(image),
    {
        self.path = Some(path);
        self.image = Some(image);
    }
}

/// Cache correctness. After a first request for path `p` decoded `img1` and
/// installed the pair, a second request for `p` hits — no second decode (by
/// `needs_decode`'s contract, a hit is exactly when no decode happens). A
/// later request for a different path `q` misses, so it decodes; once it
/// installs `(q, img2)`, the slot no longer reaches the first buffer: its
/// path and image are exactly the new pair's.
pub proof fn lemma_cache_single_decode<T>(
    c1: ImageCache<T>,
    c2: ImageCache<T>,
    p: Seq<char>,
    q: Seq<char>,
    img1: T,
    img2: T,
)
    requires
        p != q,
        c1.wf(),
        c1.spec_path() == Some(p),
        c1.spec_image() == Some(img1),
        c2.wf(),
        c2.spec_path() == Some(q),
        c2.spec_image() == Some(img2),
    ensures
        c1.hits(p),
        !c1.hits(q),
        !c2.hits(p),
        c2.spec_image() == Some(img2),
{
}

} // verus!
