//! Resolving a destination path into an image container format.
//!
//! A recognized extension of the path's file name picks the format
//! (`png`, `jpg`, `jpeg`, `bmp`); an unrecognized or missing extension
//! falls back to PNG, and `.png` is then appended to the path.
//! Paths are handled as byte strings, with `/` (byte 47) separating
//! components and `.` (byte 46) starting an extension.

use vstd::prelude::*;

verus! {

/// The byte `/`, separating path components.
pub const SEPARATOR: u8 = 47;

/// The byte `.`, starting an extension.
pub const DOT: u8 = 46;

/// An image container format the saved file can use.
#[derive(Clone, Copy, PartialEq, Eq, Structural, Debug)]
pub enum ImageFormat {
    Png,
    Jpeg,
    Bmp,
}

impl ImageFormat {
    /// A small-integer code for each format, used where a spec speaks of
    /// a format as a plain value.
    pub open spec fn code(self) -> int {
        match self {
            ImageFormat::Png => 0,
            ImageFormat::Jpeg => 1,
            ImageFormat::Bmp => 2,
        }
    }
}

/// The bytes of `png`.
pub open spec fn ext_png() -> Seq<u8> {
    seq![112u8, 110u8, 103u8]
}

/// The bytes of `jpg`.
pub open spec fn ext_jpg() -> Seq<u8> {
    seq![106u8, 112u8, 103u8]
}

/// The bytes of `jpeg`.
pub open spec fn ext_jpeg() -> Seq<u8> {
    seq![106u8, 112u8, 101u8, 103u8]
}

/// The bytes of `bmp`.
pub open spec fn ext_bmp() -> Seq<u8> {
    seq![98u8, 109u8, 112u8]
}

/// The bytes of `.png`.
pub open spec fn dot_png() -> Seq<u8> {
    seq![46u8, 112u8, 110u8, 103u8]
}

/// Index just after the last separator of `s`; 0 when `s` has none.
/// The file name of the path is `s` from this index on.
pub open spec fn file_name_start(s: Seq<u8>) -> int
    decreases s.len(),
{
    if s.len() == 0 {
        0
    } else if s[s.len() - 1] == SEPARATOR {
        s.len() as int
    } else {
        file_name_start(s.drop_last())
    }
}

/// Index of the dot that starts the extension of `s`'s file name, or -1
/// when the file name has no extension: the last dot of the file name,
/// unless it is the file name's first byte.
pub open spec fn ext_dot(s: Seq<u8>) -> int
    decreases s.len(),
{
    if s.len() == 0 {
        -1
    } else if s[s.len() - 1] == SEPARATOR {
        -1
    } else if s[s.len() - 1] == DOT {
        if s.len() - 1 > file_name_start(s) {
            s.len() - 1
        } else {
            -1
        }
    } else {
        ext_dot(s.drop_last())
    }
}

/// The extension of `s`'s file name: the bytes after its last dot.
pub open spec fn spec_extension(s: Seq<u8>) -> Option<Seq<u8>> {
    if ext_dot(s) >= 0 {
        Some(s.subrange(ext_dot(s) + 1, s.len() as int))
    } else {
        None
    }
}

/// The format a recognized extension names.
pub open spec fn spec_format_of_extension(e: Seq<u8>) -> Option<ImageFormat> {
    if e == ext_png() {
        Some(ImageFormat::Png)
    } else if e == ext_jpg() || e == ext_jpeg() {
        Some(ImageFormat::Jpeg)
    } else if e == ext_bmp() {
        Some(ImageFormat::Bmp)
    } else {
        None
    }
}

/// The format the path `s` names, when its extension is recognized.
pub open spec fn spec_recognized_format(s: Seq<u8>) -> Option<ImageFormat> {
    match spec_extension(s) {
        Some(e) => spec_format_of_extension(e),
        None => None,
    }
}

/// The format a save to path `s` uses: the recognized one, or PNG.
pub open spec fn spec_resolved_format(s: Seq<u8>) -> ImageFormat {
    match spec_recognized_format(s) {
        Some(f) => f,
        None => ImageFormat::Png,
    }
}

/// The path a save to `s` writes: `s` itself when its extension is
/// recognized; otherwise `s` with `.png` appended.
pub open spec fn spec_resolved_path(s: Seq<u8>) -> Seq<u8> {
    if spec_recognized_format(s) is Some {
        s
    } else {
        s + dot_png()
    }
}

/// The file name of `s` starts after its separators: no byte from
/// `file_name_start(s)` on is a separator, and the byte before it, if
/// there is one, is a separator.
pub proof fn lemma_file_name_start_props(s: Seq<u8>)
    ensures
        0 <= file_name_start(s) <= s.len(),
        forall|j: int| file_name_start(s) <= j < s.len() ==> s[j] != SEPARATOR,
        file_name_start(s) > 0 ==> s[file_name_start(s) - 1] == SEPARATOR,
    decreases s.len(),
{
    if s.len() == 0 {
    } else if s[s.len() - 1] == SEPARATOR {
    } else {
        lemma_file_name_start_props(s.drop_last());
        assert forall|j: int| file_name_start(s) <= j < s.len() implies s[j] != SEPARATOR by {
            if j < s.len() - 1 {
                assert(s.drop_last()[j] == s[j]);
            }
        }
    }
}

/// Finds the dot that starts the path's extension, if there is one.
fn find_ext_dot(path: &Vec<u8>) -> (r: Option<usize>)
    ensures
        r is Some <==> ext_dot(path@) >= 0,
        r is Some ==> r->0 == ext_dot(path@),
{
    let ghost s = path@;
    let mut i = path.len();
    proof {
        assert(s.take(i as int) =~= s);
    }
    while i > 0
        invariant
            i <= path.len(),
            s == path@,
            ext_dot(s) == ext_dot(s.take(i as int)),
        decreases i,
    {
        let b = path[i - 1];
        proof {
            assert(s.take(i as int).drop_last() =~= s.take(i as int - 1));
        }
        if b == SEPARATOR {
            proof {
                assert(ext_dot(s.take(i as int)) == -1);
            }
            return None;
        }
        if b == DOT {
            let p = i - 1;
            proof {
                assert(file_name_start(s.take(i as int)) == file_name_start(s.take(p as int)));
                lemma_file_name_start_props(s.take(p as int));
            }
            if p > 0 && path[p - 1] != SEPARATOR {
                proof {
                    let fns = file_name_start(s.take(p as int));
                    if fns == p {
                        assert(s.take(p as int)[p - 1] == SEPARATOR);
                    }
                    assert(fns < p);
                    assert(ext_dot(s.take(i as int)) == p);
                }
                return Some(p);
            } else {
                proof {
                    if p > 0 {
                        assert(s.take(p as int)[p - 1] == SEPARATOR);
                        assert(file_name_start(s.take(p as int)) == p);
                    }
                    assert(ext_dot(s.take(i as int)) == -1);
                }
                return None;
            }
        }
        i = i - 1;
    }
    proof {
        assert(s.take(0) =~= Seq::<u8>::empty());
    }
    None
}

/// Whether the bytes of `path` from `start` on are exactly `pat`.
fn suffix_is(path: &Vec<u8>, start: usize, pat: &Vec<u8>) -> (r: bool)
    requires
        start <= path@.len(),
    ensures
        r == (path@.subrange(start as int, path@.len() as int) == pat@),
{
    let n = path.len() - start;
    if n != pat.len() {
        proof {
            assert(path@.subrange(start as int, path@.len() as int).len() == n);
        }
        return false;
    }
    let mut i: usize = 0;
    while i < n
        invariant
            start + n == path.len(),
            start + n == path@.len(),
            n == pat@.len(),
            i <= n,
            forall|j: int| 0 <= j < i ==> path@[start + j] == pat@[j],
        decreases n - i,
    {
        if path[start + i] != pat[i] {
            proof {
                assert(path@.subrange(start as int, path@.len() as int)[i as int]
                    != pat@[i as int]);
            }
            return false;
        }
        i = i + 1;
    }
    proof {
        assert(path@.subrange(start as int, path@.len() as int) =~= pat@);
    }
    true
}

/// Copies the first `n` bytes of `path` into a fresh vector.
fn vec_prefix(path: &Vec<u8>, n: usize) -> (v: Vec<u8>)
    requires
        n <= path@.len(),
    ensures
        v@ == path@.take(n as int),
{
    let mut v: Vec<u8> = Vec::new();
    let mut i: usize = 0;
    while i < n
        invariant
            n <= path@.len(),
            i <= n,
            v@.len() == i,
            forall|j: int| 0 <= j < i ==> v@[j] == path@[j],
        decreases n - i,
    {
        v.push(path[i]);
        i = i + 1;
    }
    proof {
        assert(v@ =~= path@.take(n as int));
    }
    v
}

/// Resolves a destination path: returns the path actually written and
/// the container format to encode, per [`spec_resolved_path`] and
/// [`spec_resolved_format`].
pub fn resolve_save_path(path: &Vec<u8>) -> (r: (Vec<u8>, ImageFormat))
    requires
        path@.len() + 4 <= usize::MAX,
    ensures
        r.0@ == spec_resolved_path(path@),
        r.1 == spec_resolved_format(path@),
{
    let dot = find_ext_dot(path);
    let recognized: Option<ImageFormat> = match dot {
        Some(p) => {
            proof {
                lemma_ext_dot_in_range(path@);
                assert(p < path.len());
            }
            let start = p + 1;
            let png = vec![112u8, 110u8, 103u8];
            let jpg = vec![106u8, 112u8, 103u8];
            let jpeg = vec![106u8, 112u8, 101u8, 103u8];
            let bmp = vec![98u8, 109u8, 112u8];
            if suffix_is(path, start, &png) {
                Some(ImageFormat::Png)
            } else if suffix_is(path, start, &jpg) || suffix_is(path, start, &jpeg) {
                Some(ImageFormat::Jpeg)
            } else if suffix_is(path, start, &bmp) {
                Some(ImageFormat::Bmp)
            } else {
                None
            }
        },
        None => None,
    };
    match recognized {
        Some(f) => {
            let full = vec_prefix(path, path.len());
            proof {
                assert(path@.take(path@.len() as int) =~= path@);
            }
            (full, f)
        },
        None => {
            let mut out = vec_prefix(path, path.len());
            out.push(DOT);
            out.push(112);
            out.push(110);
            out.push(103);
            proof {
                assert(path@.take(path@.len() as int) =~= path@);
                assert(out@ =~= path@ + dot_png());
            }
            (out, ImageFormat::Png)
        },
    }
}

/// An extension dot, when there is one, lies inside the path.
pub proof fn lemma_ext_dot_in_range(s: Seq<u8>)
    ensures
        -1 <= ext_dot(s) < s.len(),
    decreases s.len(),
{
    if s.len() == 0 {
    } else if s[s.len() - 1] == SEPARATOR {
    } else if s[s.len() - 1] == DOT {
        lemma_file_name_start_props(s);
    } else {
        lemma_ext_dot_in_range(s.drop_last());
    }
}

} // verus!
