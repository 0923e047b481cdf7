use image::ImageEncoder;
use vstd::arithmetic::div_mod::{
    lemma_fundamental_div_mod, lemma_fundamental_div_mod_converse, lemma_mod_pos_bound,
};
use vstd::prelude::*;

verus! {

/// The human-readable name of each of the ten clothing classes.
pub open spec fn label_desc(label: u8) -> Seq<char> {
    if label == 0 {
        "T-shirt/top"@
    } else if label == 1 {
        "Trouser"@
    } else if label == 2 {
        "Pullover"@
    } else if label == 3 {
        "Dress"@
    } else if label == 4 {
        "Coat"@
    } else if label == 5 {
        "Sandal"@
    } else if label == 6 {
        "Shirt"@
    } else if label == 7 {
        "Sneaker"@
    } else if label == 8 {
        "Bag"@
    } else if label == 9 {
        "Ankle boot"@
    } else {
        "Unknown"@
    }
}

/// Describes a class index; indices past the last class read "Unknown".
pub fn get_label_desc(label: u8) -> (r: String)
    ensures
        r@ == label_desc(label),
{
    let desc: &str = match label {
        0 => "T-shirt/top",
        1 => "Trouser",
        2 => "Pullover",
        3 => "Dress",
        4 => "Coat",
        5 => "Sandal",
        6 => "Shirt",
        7 => "Sneaker",
        8 => "Bag",
        9 => "Ankle boot",
        _ => "Unknown",
    };
    desc.to_owned()
}

/// Failures of the neuron-image codec.
#[derive(Clone, Debug, PartialEq, Eq)]
pub enum ImageCodecError {
    /// The square nearest to the weight count needs more pixels than there are weights.
    TooFewWeights { weights: usize, side: u64 },
    /// The bitmap could not be encoded.
    Encoding,
    /// The bytes are not a PNG image that could be decoded.
    Decoding,
    /// A decoded bitmap that is not a square of one gray byte per pixel.
    NotSquare { width: u32, height: u32 },
}

/// `side` is `sqrt(n)` rounded to the nearest integer: `|side - sqrt(n)| < 1/2`,
/// written without roots (no integer `n` lies exactly half-way).
pub open spec fn is_nearest_side(n: nat, side: nat) -> bool {
    &&& 4 * n < (2 * side + 1) * (2 * side + 1)
    &&& (side == 0 || (2 * side - 1) * (2 * side - 1) <= 4 * n)
}

/// The integer nearest to `sqrt(n)`.
pub open spec fn nearest_side(n: nat) -> nat {
    choose|side: nat| is_nearest_side(n, side)
}

/// At most one integer lies within 1/2 of `sqrt(n)`.
proof fn lemma_nearest_side_unique(n: nat, a: nat)
    requires
        is_nearest_side(n, a),
    ensures
        a == nearest_side(n),
{
    let b = nearest_side(n);
    assert(is_nearest_side(n, b));
    if a < b {
        assert(false) by (nonlinear_arith)
            requires
                4 * n < (2 * a + 1) * (2 * a + 1),
                (2 * b - 1) * (2 * b - 1) <= 4 * n,
                a < b,
        ;
    } else if b < a {
        assert(false) by (nonlinear_arith)
            requires
                4 * n < (2 * b + 1) * (2 * b + 1),
                (2 * a - 1) * (2 * a - 1) <= 4 * n,
                b < a,
        ;
    }
}

/// Side of the square bitmap that shows a weight vector of length `n`.
pub fn neuron_image_side(n: usize) -> (r: u64)
    ensures
        is_nearest_side(n as nat, r as nat),
        r == nearest_side(n as nat),
        r <= 0x1_0000_0000,
{
    let target: u128 = n as u128;
    let mut d: u128 = 0;
    let mut next_square: u128 = 1;
    while next_square <= target
        invariant
            d * d <= target,
            next_square == (d + 1) * (d + 1),
            target <= u64::MAX,
            d < 0x1_0000_0000,
        decreases 0x1_0000_0000 - d,
    {
        assert(d + 1 < 0x1_0000_0000) by (nonlinear_arith)
            requires
                (d + 1) * (d + 1) <= target,
                target <= u64::MAX,
        ;
        assert((d + 2) * (d + 2) == (d + 1) * (d + 1) + 2 * (d + 1) + 1) by (nonlinear_arith);
        d = d + 1;
        next_square = next_square + 2 * d + 1;
    }
    let r: u128 = if target - d * d > d {
        d + 1
    } else {
        d
    };
    assert(is_nearest_side(n as nat, r as nat)) by (nonlinear_arith)
        requires
            d * d <= target,
            target < (d + 1) * (d + 1),
            target == n,
            target - d * d > d ==> r == d + 1,
            target - d * d <= d ==> r == d,
    ;
    proof {
        lemma_nearest_side_unique(n as nat, r as nat);
    }
    r as u64
}

/// The square bitmap read as rows: the entry at row `y`, column `x` of a
/// `side`-by-`side` grid is the entry at row `x`, column `y` of `s`.
pub open spec fn transposed(s: Seq<u8>, side: nat) -> Seq<u8> {
    Seq::new(side * side, |i: int| s[(i % side as int) * side + i / side as int])
}

/// Positions inside a square stay inside it when rows and columns swap.
proof fn lemma_transposed_index(i: int, side: int)
    requires
        0 <= i < side * side,
        side >= 0,
    ensures
        side > 0,
        0 <= (i % side) * side + i / side < side * side,
        ((i % side) * side + i / side) % side == i / side,
        ((i % side) * side + i / side) / side == i % side,
{
    assert(side > 0) by (nonlinear_arith)
        requires
            0 <= i < side * side,
            side >= 0,
    ;
    lemma_fundamental_div_mod(i, side);
    lemma_mod_pos_bound(i, side);
    let x = i % side;
    let y = i / side;
    assert(0 <= y < side) by (nonlinear_arith)
        requires
            i == side * y + x,
            0 <= x < side,
            0 <= i < side * side,
    ;
    assert(0 <= x * side + y < side * side) by (nonlinear_arith)
        requires
            0 <= x < side,
            0 <= y < side,
    ;
    lemma_fundamental_div_mod_converse(x * side + y, side, x, y);
}

/// Swaps rows and columns of the leading `side * side` entries.
fn transpose_square(s: &Vec<u8>, side: usize) -> (r: Vec<u8>)
    requires
        side * side <= s@.len(),
    ensures
        r@ == transposed(s@, side as nat),
{
    let len: usize = s.len();
    let total: usize = side * side;
    let mut out: Vec<u8> = Vec::new();
    let mut i: usize = 0;
    while i < total
        invariant
            total == side * side,
            total <= s@.len(),
            i <= total,
            out@.len() == i,
            forall|k: int| 0 <= k < i ==> out@[k] == transposed(s@, side as nat)[k],
        decreases total - i,
    {
        proof {
            lemma_transposed_index(i as int, side as int);
        }
        let j: usize = (i % side) * side + i / side;
        out.push(s[j]);
        i = i + 1;
    }
    assert(out@ =~= transposed(s@, side as nat));
    out
}

/// Bitmap of a neuron: its weights, already quantised to gray levels, laid out
/// so that the pixel in column `x`, row `y` shows weight `x * side + y`.
/// Weights past the square are not shown.
pub fn neuron_image_pixels(levels: &Vec<u8>) -> (r: Result<(u32, Vec<u8>), ImageCodecError>)
    ensures
        ({
            let side = nearest_side(levels@.len());
            &&& side * side <= levels@.len() ==> (r matches Ok((s, px)) && s == side
                && px@ == transposed(levels@, side))
            &&& side * side > levels@.len() ==> r == Err::<(u32, Vec<u8>), ImageCodecError>(
                ImageCodecError::TooFewWeights { weights: levels.len(), side: side as u64 },
            )
        }),
{
    let side = neuron_image_side(levels.len());
    assert((side as u128) * (side as u128) <= 0x1_0000_0000 * 0x1_0000_0000) by (nonlinear_arith)
        requires
            side <= 0x1_0000_0000,
    ;
    if (side as u128) * (side as u128) > levels.len() as u128 {
        return Err(ImageCodecError::TooFewWeights { weights: levels.len(), side });
    }
    assert(side < 0x1_0000_0000) by (nonlinear_arith)
        requires
            side * side <= levels@.len(),
            levels@.len() <= usize::MAX,
            usize::MAX <= u64::MAX,
    ;
    let pixels = transpose_square(levels, side as usize);
    Ok((side as u32, pixels))
}

/// Weights shown by a decoded bitmap of `width` by `height` gray pixels, in the
/// order that `neuron_image_pixels` lays them out.
pub fn neuron_levels_from_pixels(width: u32, height: u32, pixels: &Vec<u8>) -> (r: Result<
    Vec<u8>,
    ImageCodecError,
>)
    ensures
        width == height && pixels@.len() == width * height ==> (r matches Ok(levels)
            && levels@ == transposed(pixels@, width as nat)),
        !(width == height && pixels@.len() == width * height) ==> r == Err::<
            Vec<u8>,
            ImageCodecError,
        >(ImageCodecError::NotSquare { width, height }),
{
    assert((width as u128) * (height as u128) <= 0xffff_ffff * 0xffff_ffff) by (nonlinear_arith)
        requires
            width <= 0xffff_ffff,
            height <= 0xffff_ffff,
    ;
    if width != height || (width as u128) * (height as u128) != pixels.len() as u128 {
        return Err(ImageCodecError::NotSquare { width, height });
    }
    let levels = transpose_square(pixels, width as usize);
    Ok(levels)
}

/// Laying a neuron's levels out as a bitmap and reading the bitmap back gives
/// the levels that the square shows, unchanged.
pub proof fn lemma_neuron_layout_round_trip(levels: Seq<u8>, side: nat)
    requires
        side * side <= levels.len(),
    ensures
        transposed(transposed(levels, side), side) == levels.subrange(0, (side * side) as int),
{
    let shown = transposed(levels, side);
    let back = transposed(shown, side);
    assert forall|k: int| 0 <= k < side * side implies back[k] == levels[k] by {
        lemma_transposed_index(k, side as int);
        let j = (k % side as int) * side + k / side as int;
        lemma_transposed_index(j, side as int);
        lemma_fundamental_div_mod(k, side as int);
    }
    assert(back =~= levels.subrange(0, (side * side) as int));
}

#[verifier::external_type_specification]
#[verifier::external_body]
pub struct ExImageError(image::ImageError);

/// The PNG file that `image`'s encoder writes for a `side` by `side` bitmap of
/// 8-bit gray pixels given row by row.
pub uninterp spec fn png_gray8(side: nat, pixels: Seq<u8>) -> Seq<u8>;

/// Width, height and row-major 8-bit gray pixels that `image` reads from PNG
/// bytes; none where it cannot read them.
pub uninterp spec fn png_gray8_decoded(png: Seq<u8>) -> Option<(nat, nat, Seq<u8>)>;

/// Bitmaps of at most 2^24 pixels: far below the chunk-size limit of the PNG
/// writer and the default allocation limit (512 MiB) of `image`'s decoders.
pub open spec fn is_small_bitmap(pixels: nat) -> bool {
    pixels <= 0x100_0000
}

/// Relies on `image::codecs::png::PngEncoder::write_image` with the `L8` color
/// type: it panics unless the buffer holds exactly `side * side` bytes, fails
/// only on a zero width or height or on data too large for a PNG chunk (the
/// in-memory writer cannot fail), and writes 8-bit grayscale that the PNG
/// decoder reads back as `L8`, losslessly.
#[verifier::external_body]
fn encode_png_gray8(side: u32, pixels: &Vec<u8>) -> (r: Result<Vec<u8>, image::ImageError>)
    requires
        pixels@.len() == side * side,
    ensures
        r matches Ok(png) ==> png@ == png_gray8(side as nat, pixels@),
        r is Ok && is_small_bitmap(pixels@.len()) ==> png_gray8_decoded(r->Ok_0@) == Some(
            (side as nat, side as nat, pixels@),
        ),
        side > 0 && is_small_bitmap(pixels@.len()) ==> r is Ok,
{
    let mut png: Vec<u8> = Vec::new();
    let written = image::codecs::png::PngEncoder::new(&mut png).write_image(
        pixels,
        side,
        side,
        image::ExtendedColorType::L8,
    );
    match written {
        Ok(()) => Ok(png),
        Err(e) => Err(e),
    }
}

/// Relies on `image::load_from_memory_with_format` with the PNG format, and on
/// `DynamicImage::to_luma8` to read the result as 8-bit gray pixels.
#[verifier::external_body]
fn decode_png_gray8(png: &Vec<u8>) -> (r: Result<(u32, u32, Vec<u8>), image::ImageError>)
    ensures
        r is Ok <==> png_gray8_decoded(png@) is Some,
        r matches Ok(img) ==> png_gray8_decoded(png@) == Some(
            (img.0 as nat, img.1 as nat, img.2@),
        ),
{
    match image::load_from_memory_with_format(png, image::ImageFormat::Png) {
        Ok(img) => {
            let gray = img.to_luma8();
            Ok((gray.width(), gray.height(), gray.into_raw()))
        },
        Err(e) => Err(e),
    }
}

/// A neuron's weights, quantised to gray levels, as a PNG file of the bitmap
/// that `neuron_image_pixels` lays out.
pub fn encode_neuron_png(levels: &Vec<u8>) -> (r: Result<Vec<u8>, ImageCodecError>)
    ensures
        ({
            let side = nearest_side(levels@.len());
            let pixels = transposed(levels@, side);
            &&& side * side > levels@.len() ==> r == Err::<Vec<u8>, ImageCodecError>(
                ImageCodecError::TooFewWeights { weights: levels.len(), side: side as u64 },
            )
            &&& side * side <= levels@.len() && r is Err ==> r == Err::<Vec<u8>, ImageCodecError>(
                ImageCodecError::Encoding,
            )
            &&& side * side <= levels@.len() && r is Ok ==> r->Ok_0@ == png_gray8(side, pixels)
            &&& side * side <= levels@.len() && r is Ok && is_small_bitmap(side * side)
                ==> png_gray8_decoded(r->Ok_0@) == Some((side, side, pixels))
            &&& 0 < side && side * side <= levels@.len() && is_small_bitmap(side * side) ==> r is Ok
        }),
{
    let (side, pixels) = match neuron_image_pixels(levels) {
        Ok(laid_out) => laid_out,
        Err(e) => {
            return Err(e);
        },
    };
    match encode_png_gray8(side, &pixels) {
        Ok(png) => Ok(png),
        Err(_) => Err(ImageCodecError::Encoding),
    }
}

/// The gray levels of a neuron read back from a PNG file of its bitmap.
pub fn decode_neuron_png(png: &Vec<u8>) -> (r: Result<Vec<u8>, ImageCodecError>)
    ensures
        png_gray8_decoded(png@) is None ==> r == Err::<Vec<u8>, ImageCodecError>(
            ImageCodecError::Decoding,
        ),
        png_gray8_decoded(png@) matches Some((width, height, pixels)) ==> (
        if width == height && pixels.len() == width * height {
            r matches Ok(levels) && levels@ == transposed(pixels, width)
        } else {
            r == Err::<Vec<u8>, ImageCodecError>(
                ImageCodecError::NotSquare { width: width as u32, height: height as u32 },
            )
        }),
{
    match decode_png_gray8(png) {
        Ok((width, height, pixels)) => neuron_levels_from_pixels(width, height, &pixels),
        Err(_) => Err(ImageCodecError::Decoding),
    }
}

/// A PNG file that `encode_neuron_png` wrote for a small bitmap decodes to a
/// square whose levels, read back, are the levels that the square shows.
pub proof fn lemma_neuron_png_round_trip(levels: Seq<u8>, png: Seq<u8>)
    requires
        nearest_side(levels.len()) * nearest_side(levels.len()) <= levels.len(),
        png_gray8_decoded(png) == Some(
            (
                nearest_side(levels.len()),
                nearest_side(levels.len()),
                transposed(levels, nearest_side(levels.len())),
            ),
        ),
    ensures
        png_gray8_decoded(png) matches Some((width, height, pixels)) && width == height
            && pixels.len() == width * height && transposed(pixels, width) == levels.subrange(
            0,
            (width * width) as int,
        ),
{
    let side = nearest_side(levels.len());
    lemma_neuron_layout_round_trip(levels, side);
}

} // verus!
