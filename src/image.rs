use vstd::prelude::*;

use crate::error::DiffusionError;
use crate::resolution::{LATENT_FACTOR, ResolutionBucket};
use crate::tensor::{element_count, shape_size};

verus! {

/// Channels of a decoded image: red, green, blue.
pub const IMAGE_CHANNELS: usize = 3;

/// Decoded images, one packed RGB8 buffer per batch element, rows top to bottom.
pub struct ImageResult {
    pub buffer: Vec<Vec<u8>>,
    pub width: usize,
    pub height: usize,
}

/// The decoder output for a latent of shape `latent` has shape `decoded`: same batch,
/// three channels, and each spatial side upsampled by the latent factor.
pub open spec fn decoded_shape_fits(latent: Seq<usize>, decoded: Seq<usize>) -> bool {
    &&& latent.len() == 4
    &&& decoded.len() == 4
    &&& decoded[0] == latent[0]
    &&& decoded[1] == IMAGE_CHANNELS
    &&& decoded[2] == latent[2] * LATENT_FACTOR
    &&& decoded[3] == latent[3] * LATENT_FACTOR
}

/// Decoding a latent shaped for a well-formed bucket gives back the bucket's own size:
/// the one decoder output shape that fits the latent has the batch, three channels,
/// and the bucket's height and width, so each packed image that `latent_to_image`
/// returns for it holds `3 * width * height` bytes.
pub proof fn lemma_decoded_size_is_bucket(bucket: ResolutionBucket, batch: usize, decoded: Seq<usize>)
    requires
        bucket.wf(),
    ensures
        decoded_shape_fits(
            bucket.latent_shape_spec(batch as nat),
            seq![batch, IMAGE_CHANNELS, bucket.height as usize, bucket.width as usize],
        ),
        decoded_shape_fits(bucket.latent_shape_spec(batch as nat), decoded) ==> {
            &&& decoded == seq![batch, IMAGE_CHANNELS, bucket.height as usize, bucket.width as usize]
            &&& 3 * (decoded[2] * decoded[3]) == 3 * (bucket.width * bucket.height)
        },
{
    if decoded_shape_fits(bucket.latent_shape_spec(batch as nat), decoded) {
        assert(decoded =~= seq![batch, IMAGE_CHANNELS, bucket.height as usize, bucket.width as usize]);
        assert(decoded[2] * decoded[3] == bucket.width * bucket.height) by (nonlinear_arith)
            requires decoded[2] == bucket.height, decoded[3] == bucket.width;
    }
}

/// Where byte `j` of packed image `n` comes from in a channel-major buffer whose planes
/// hold `hw` pixels each.
pub open spec fn source_index(n: int, j: int, hw: int) -> int {
    (n * 3 + j % 3) * hw + j / 3
}

proof fn lemma_size4(s: Seq<usize>)
    requires
        s.len() == 4,
    ensures
        shape_size(s) == s[0] * s[1] * s[2] * s[3],
{
    let s3 = s.drop_last();
    let s2 = s3.drop_last();
    let s1 = s2.drop_last();
    let s0 = s1.drop_last();
    assert(s0.len() == 0);
    assert(s1.last() == s[0] && s2.last() == s[1] && s3.last() == s[2]);
    assert(shape_size(s1) == shape_size(s0) * (s[0] as nat));
    assert(shape_size(s2) == shape_size(s1) * (s[1] as nat));
    assert(shape_size(s3) == shape_size(s2) * (s[2] as nat));
    assert(shape_size(s) == shape_size(s3) * (s[3] as nat));
    assert(shape_size(s0) == 1);
    let (a, b, c, d) = (s[0] as nat, s[1] as nat, s[2] as nat, s[3] as nat);
    assert(((1 * a) * b) * c * d == a * b * c * d) by (nonlinear_arith);
}

proof fn lemma_source_in_bounds(n: int, j: int, b: int, hw: int)
    requires
        0 <= n < b,
        0 <= j < 3 * hw,
    ensures
        0 <= source_index(n, j, hw) < b * 3 * hw,
        (n * 3 + j % 3) * hw <= source_index(n, j, hw),
        n * 3 + j % 3 < b * 3,
        b * 3 <= b * 3 * hw,
{
    let c = j % 3;
    let p = j / 3;
    assert(0 <= c < 3);
    assert(0 <= p < hw);
    assert(n * 3 + c <= b * 3 - 1);
    assert((n * 3 + c) * hw <= (b * 3 - 1) * hw) by (nonlinear_arith)
        requires n * 3 + c <= b * 3 - 1, hw >= 0;
    assert((b * 3 - 1) * hw + hw == b * 3 * hw) by (nonlinear_arith);
    assert(0 <= (n * 3 + c) * hw) by (nonlinear_arith)
        requires n * 3 + c >= 0, hw >= 0;
    assert(b * 3 <= b * 3 * hw) by (nonlinear_arith)
        requires b >= 1, hw >= 1;
}

proof fn lemma_plane_fits(b: int, hw: int)
    requires
        b >= 1,
        hw >= 0,
    ensures
        3 * hw <= b * 3 * hw,
{
    assert(3 * hw <= b * (3 * hw)) by (nonlinear_arith)
        requires b >= 1, hw >= 0;
    assert(b * (3 * hw) == b * 3 * hw) by (nonlinear_arith);
}

/// Packs decoder output into images. `decoded_shape` is the decoder output's shape for
/// a latent of shape `latent_shape`, and `pixels` its values, already quantised to bytes,
/// in batch x channel x row x column order. Each image interleaves the three channels
/// per pixel. An output of another shape or size is a shape mismatch.
pub fn latent_to_image(latent_shape: &Vec<usize>, decoded_shape: &Vec<usize>, pixels: &Vec<u8>) -> (r:
    Result<ImageResult, DiffusionError>)
    ensures
        r.is_ok() <==> (decoded_shape_fits(latent_shape@, decoded_shape@) && pixels@.len()
            == shape_size(decoded_shape@)),
        !r.is_ok() ==> r->Err_0 == DiffusionError::ShapeMismatch,
        r.is_ok() ==> ({
            let img = r->Ok_0;
            let hw = decoded_shape@[2] * decoded_shape@[3];
            &&& img.height == decoded_shape@[2]
            &&& img.width == decoded_shape@[3]
            &&& img.buffer@.len() == decoded_shape@[0]
            &&& forall|n: int|
                0 <= n < img.buffer@.len() ==> (#[trigger] img.buffer@[n])@.len() == 3 * hw
            &&& forall|n: int, j: int|
                0 <= n < img.buffer@.len() && 0 <= j < 3 * hw ==> (#[trigger] img.buffer@[n]@[j])
                    == pixels@[source_index(n, j, hw)]
        }),
{
    if latent_shape.len() != 4 || decoded_shape.len() != 4 {
        return Err(DiffusionError::ShapeMismatch);
    }
    let h_expected = latent_shape[2].checked_mul(LATENT_FACTOR);
    let w_expected = latent_shape[3].checked_mul(LATENT_FACTOR);
    let fits = match (h_expected, w_expected) {
        (Some(h), Some(w)) => decoded_shape[0] == latent_shape[0] && decoded_shape[1]
            == IMAGE_CHANNELS && decoded_shape[2] == h && decoded_shape[3] == w,
        _ => false,
    };
    if !fits {
        return Err(DiffusionError::ShapeMismatch);
    }
    match element_count(decoded_shape) {
        Some(total) => {
            if total != pixels.len() {
                return Err(DiffusionError::ShapeMismatch);
            }
        },
        None => {
            let n = pixels.len();
            assert(n == pixels@.len());
            return Err(DiffusionError::ShapeMismatch);
        },
    }
    let total_len = pixels.len();
    assert(total_len == pixels@.len());
    let b = decoded_shape[0];
    let h = decoded_shape[2];
    let w = decoded_shape[3];
    proof {
        lemma_size4(decoded_shape@);
    }
    let mut buffer: Vec<Vec<u8>> = Vec::new();
    if b == 0 {
        return Ok(ImageResult { buffer, width: w, height: h });
    }
    assert(h * w <= b * 3 * h * w) by (nonlinear_arith)
        requires b >= 1, h >= 0, w >= 0;
    let hw = h * w;
    proof {
        lemma_plane_fits(b as int, hw as int);
        assert(b * 3 * hw == b * 3 * h * w) by (nonlinear_arith)
            requires hw == h * w;
    }
    let plane = 3 * hw;
    let mut n: usize = 0;
    while n < b
        invariant
            n <= b,
            b >= 1,
            hw == h * w,
            plane == 3 * hw,
            pixels@.len() == b * 3 * hw,
            pixels@.len() <= usize::MAX,
            buffer@.len() == n,
            forall|m: int| 0 <= m < n ==> (#[trigger] buffer@[m])@.len() == plane,
            forall|m: int, j: int|
                0 <= m < n && 0 <= j < plane ==> (#[trigger] buffer@[m]@[j]) == pixels@[source_index(
                    m,
                    j,
                    hw as int,
                )],
        decreases b - n,
    {
        let mut img: Vec<u8> = Vec::new();
        let mut j: usize = 0;
        while j < plane
            invariant
                n < b,
                j <= plane,
                hw == h * w,
                plane == 3 * hw,
                pixels@.len() == b * 3 * hw,
                pixels@.len() <= usize::MAX,
                img@.len() == j,
                forall|i: int| 0 <= i < j ==> #[trigger] img@[i] == pixels@[source_index(n as int, i, hw as int)],
            decreases plane - j,
        {
            proof {
                lemma_source_in_bounds(n as int, j as int, b as int, hw as int);
            }
            let base = (n * 3 + j % 3) * hw;
            let idx = base + j / 3;
            img.push(pixels[idx]);
            j = j + 1;
        }
        buffer.push(img);
        n = n + 1;
    }
    Ok(ImageResult { buffer, width: w, height: h })
}

} // verus!
