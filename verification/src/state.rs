//! The displayed-image state and the regeneration and save handlers.

use vstd::prelude::*;
use crate::codec::{encode_pixels, encoded_image_of, image_encode_ok, SaveError};
use crate::level::EcLevel;
use crate::matrix::lemma_grid_matches_unique;
use crate::qr::{encode_modules, qr_encode_error_of, qr_modules_of, QrGenError};
use crate::render::{render, spec_dim, spec_render_data, spec_total_modules, lemma_dim_upper};
use crate::save::{resolve_save_path, spec_resolved_format, spec_resolved_path};
use crate::render::PixelBuffer;

verus! {

/// The state behind the window: the image most recently rendered from a
/// successful encode, and the text of the status label (empty when the
/// last attempt succeeded).
pub struct AppState {
    pub image: Option<PixelBuffer>,
    pub status: String,
}

impl AppState {
    /// A held image is well formed and small enough to hand to the
    /// image library.
    pub open spec fn wf(self) -> bool {
        match self.image {
            Some(p) => p.wf() && p.width <= u32::MAX && p.height <= u32::MAX,
            None => true,
        }
    }

    /// A fresh state: no image yet, no status message.
    pub fn new() -> (s: AppState)
        ensures
            s.wf(),
            s.image is None,
            s.status@ == Seq::<char>::empty(),
    {
        AppState { image: None, status: String::new() }
    }
}

/// Re-encodes the text at the given level and replaces the displayed
/// image with its rendering, at least `min_size` pixels on each side.
/// On failure the previous image stays and the status label carries the
/// error's message; on success the status label is empty.
pub fn regenerate(
    state: &mut AppState,
    text: &Vec<u8>,
    level: EcLevel,
    min_size: usize,
) -> (r: Result<(), QrGenError>)
    requires
        old(state).wf(),
        3 * (min_size + 185) * (min_size + 185) <= usize::MAX,
    ensures
        final(state).wf(),
        final(state).image is Some ==> final(state).image->0.wf(),
        r is Ok <==> qr_encode_error_of(text@, level.code()) is None,
        r is Err ==> qr_encode_error_of(text@, level.code()) == Some(r->Err_0),
        r is Ok ==> {
            let g = qr_modules_of(text@, level.code());
            &&& final(state).image is Some
            &&& final(state).image->0.width == spec_dim(g.len() as int, min_size as int)
            &&& final(state).image->0.height == final(state).image->0.width
            &&& min_size <= final(state).image->0.width
            &&& final(state).image->0.data@ == spec_render_data(g, min_size as int)
            &&& final(state).status@ == Seq::<char>::empty()
        },
        r is Err ==> {
            &&& final(state).image == old(state).image
            &&& final(state).status@ == r->Err_0.spec_message()
            &&& final(state).status@.len() > 0
        },
{
    state.status = String::new();
    match encode_modules(text, level) {
        Ok(m) => {
            let ghost g = qr_modules_of(text@, level.code());
            proof {
                lemma_grid_matches_unique(m, g);
                lemma_dim_upper(m.width as int, min_size as int);
                assert(spec_total_modules(m.width as int) <= 185);
                let d = spec_dim(m.width as int, min_size as int);
                assert(3 * d * d <= 3 * ((min_size + 185) * (min_size + 185)))
                    by (nonlinear_arith)
                    requires
                        0 <= d <= min_size + 185,
                ;
                assert(3 * ((min_size + 185) * (min_size + 185)) == 3 * (min_size + 185) * (
                min_size + 185)) by (nonlinear_arith);
            }
            let p = render(&m, min_size);
            proof {
                let d = spec_dim(m.width as int, min_size as int);
                assert(p.width <= u32::MAX) by (nonlinear_arith)
                    requires
                        0 <= p.width as int == d,
                        3 * d * d <= usize::MAX,
                        usize::MAX <= u64::MAX,
                ;
                assert(m.grid() == g);
            }
            state.image = Some(p);
            Ok(())
        },
        Err(e) => {
            state.status = e.message();
            Err(e)
        },
    }
}

/// Resolves the destination path and encodes the displayed image into
/// the container format the path names. Returns the path to write and
/// the encoded bytes; with no image yet, reports the missing image and
/// produces no bytes.
pub fn save_image(state: &AppState, path: &Vec<u8>) -> (r: Result<(Vec<u8>, Vec<u8>), SaveError>)
    requires
        state.wf(),
        path@.len() + 4 <= usize::MAX,
    ensures
        (r is Err && r->Err_0 == SaveError::MissingImage) <==> state.image is None,
        state.image is Some ==> {
            let img = state.image->0;
            r is Ok <==> image_encode_ok(
                spec_resolved_format(path@).code(),
                img.width as int,
                img.height as int,
                img.data@,
            )
        },
        r is Ok ==> {
            let img = state.image->0;
            &&& r->Ok_0.0@ == spec_resolved_path(path@)
            &&& r->Ok_0.1@ == encoded_image_of(
                spec_resolved_format(path@).code(),
                img.width as int,
                img.height as int,
                img.data@,
            )
        },
{
    match &state.image {
        None => Err(SaveError::MissingImage),
        Some(img) => {
            let (resolved, format) = resolve_save_path(path);
            match encode_pixels(&img.data, img.width as u32, img.height as u32, format) {
                Some(bytes) => Ok((resolved, bytes)),
                None => Err(SaveError::EncodingFailed),
            }
        },
    }
}

} // verus!
