//! The tray icon: decoding it and recolouring its bright pixels.

use vstd::prelude::*;

verus! {

/// The colour that stands for a running application; the transparency stays.
pub const GREEN: [u8; 4] = [0, 255, 0, 255];

/// The colour that stands for an installation in progress.
pub const BLUE: [u8; 4] = [0x42, 0xaa, 0xff, 255];

/// A picture of `image`: an `image::RgbaImage`.
#[verifier::external_body]
pub struct Raster {
    image: image::RgbaImage,
}

/// The width and height of a picture.
pub uninterp spec fn raster_size(raster: Raster) -> (u32, u32);

/// The bytes behind a picture: four to a pixel, row by row, and what may follow them.
pub uninterp spec fn raster_bytes(raster: Raster) -> Seq<u8>;

/// The width, height and bytes of the picture in an image file, or the error in words.
pub uninterp spec fn decoded_image(file: Seq<u8>) -> Result<(u32, u32, Seq<u8>), Seq<char>>;

/// A buffer of `len` bytes is large enough for a picture of this size.
pub open spec fn fits(len: nat, width: u32, height: u32) -> bool {
    4 * width <= usize::MAX && 4 * width * height <= len
}

/// Where the pixel at column `x` and row `y` starts.
pub open spec fn pixel_start(width: u32, x: u32, y: u32) -> int {
    4 * (y * width + x)
}

/// Calls `image::RgbaImage::from_raw`: the picture has the given size and bytes, and
/// there is one if and only if there are enough bytes.
#[verifier::external_body]
fn raster_from_raw(width: u32, height: u32, bytes: Vec<u8>) -> (r: Option<Raster>)
    ensures
        r is Some == fits(bytes@.len(), width, height),
        r is Some ==> raster_size(r->0) == (width, height) && raster_bytes(r->0) == bytes@,
{
    image::RgbaImage::from_raw(width, height, bytes).map(|image| Raster { image })
}

/// Calls `image::RgbaImage::get_pixel_mut`: a borrow of the four bytes of the pixel at
/// column `x` and row `y`. Nothing else of the picture changes through it.
#[verifier::external_body]
fn raster_pixel_mut(raster: &mut Raster, x: u32, y: u32) -> (pixel: &mut [u8; 4])
    requires
        x < raster_size(*old(raster)).0,
        y < raster_size(*old(raster)).1,
    ensures
        pixel@ == raster_bytes(*old(raster)).subrange(
            pixel_start(raster_size(*old(raster)).0, x, y),
            pixel_start(raster_size(*old(raster)).0, x, y) + 4,
        ),
        raster_size(*final(raster)) == raster_size(*old(raster)),
        raster_bytes(*final(raster)) == raster_bytes(*old(raster)).take(
            pixel_start(raster_size(*old(raster)).0, x, y),
        ) + final(pixel)@ + raster_bytes(*old(raster)).skip(
            pixel_start(raster_size(*old(raster)).0, x, y) + 4,
        ),
{
    &mut raster.image.get_pixel_mut(x, y).0
}

/// Calls `image::RgbaImage::dimensions`: the picture's width and height.
#[verifier::external_body]
fn raster_dimensions(raster: &Raster) -> (r: (u32, u32))
    ensures
        r == raster_size(*raster),
{
    raster.image.dimensions()
}

/// Calls `image::RgbaImage::into_raw`: the picture's bytes.
#[verifier::external_body]
fn raster_into_raw(raster: Raster) -> (r: Vec<u8>)
    ensures
        r@ == raster_bytes(raster),
{
    raster.image.into_raw()
}

/// Reads an image file with `image::ImageReader`: guesses its format, decodes it, and
/// turns it into a picture with `DynamicImage::into_rgba8`. The result depends on the
/// file's bytes alone; an error is handed on as its message. A picture has enough bytes
/// for its size.
#[verifier::external_body]
fn raster_decode(file: &[u8]) -> (r: Result<Raster, String>)
    ensures
        match r {
            Ok(raster) => decoded_image(file@) == Ok::<(u32, u32, Seq<u8>), Seq<char>>(
                (raster_size(raster).0, raster_size(raster).1, raster_bytes(raster)),
            ),
            Err(message) => decoded_image(file@) == Err::<(u32, u32, Seq<u8>), Seq<char>>(
                message@,
            ),
        },
        r is Ok ==> fits(
            raster_bytes(r->Ok_0).len(),
            raster_size(r->Ok_0).0,
            raster_size(r->Ok_0).1,
        ),
{
    let reader = image::ImageReader::new(std::io::Cursor::new(file));
    let reader = reader.with_guessed_format().map_err(|e| format!("{}", e))?;
    let decoded = reader.decode().map_err(|e| format!("{}", e))?;
    Ok(Raster { image: decoded.into_rgba8() })
}

/// A pixel that is visible and nearly white.
pub open spec fn is_bright(pixel: Seq<u8>) -> bool {
    pixel[3] != 0 && pixel[0] > 200 && pixel[1] > 200 && pixel[2] > 200
}

/// A pixel after recolouring: a bright one gets the colour, with its own transparency
/// or with the colour's.
pub open spec fn recoloured_pixel(pixel: Seq<u8>, colour: Seq<u8>, keep_alpha: bool) -> Seq<u8> {
    if !is_bright(pixel) {
        pixel
    } else if keep_alpha {
        seq![colour[0], colour[1], colour[2], pixel[3]]
    } else {
        colour
    }
}

/// The bytes after the first `count` pixels were recoloured.
pub open spec fn recoloured_until(
    bytes: Seq<u8>,
    count: int,
    colour: Seq<u8>,
    keep_alpha: bool,
) -> Seq<u8> {
    Seq::new(
        bytes.len(),
        |i: int|
            if i < 4 * count {
                recoloured_pixel(
                    bytes.subrange(i - i % 4, i - i % 4 + 4),
                    colour,
                    keep_alpha,
                )[i % 4]
            } else {
                bytes[i]
            },
    )
}

/// The bytes after all pixels of a picture of this size were recoloured.
pub open spec fn recoloured(
    bytes: Seq<u8>,
    width: u32,
    height: u32,
    colour: Seq<u8>,
    keep_alpha: bool,
) -> Seq<u8> {
    recoloured_until(bytes, width * height, colour, keep_alpha)
}

/// Recolouring one pixel more.
proof fn lemma_recolour_next(
    bytes: Seq<u8>,
    count: int,
    total: int,
    colour: Seq<u8>,
    keep_alpha: bool,
    next: Seq<u8>,
)
    requires
        0 <= count < total,
        4 * total <= bytes.len(),
        colour.len() == 4,
        next == recoloured_pixel(
            bytes.subrange(4 * count, 4 * count + 4),
            colour,
            keep_alpha,
        ),
    ensures
        recoloured_until(bytes, count, colour, keep_alpha).subrange(4 * count, 4 * count + 4)
            == bytes.subrange(4 * count, 4 * count + 4),
        recoloured_until(bytes, count, colour, keep_alpha).take(4 * count) + next
            + recoloured_until(bytes, count, colour, keep_alpha).skip(4 * count + 4)
            == recoloured_until(bytes, count + 1, colour, keep_alpha),
{
    let before = recoloured_until(bytes, count, colour, keep_alpha);
    let after = recoloured_until(bytes, count + 1, colour, keep_alpha);
    assert(before.subrange(4 * count, 4 * count + 4) =~= bytes.subrange(
        4 * count,
        4 * count + 4,
    ));
    let made = before.take(4 * count) + next + before.skip(4 * count + 4);
    assert(next.len() == 4);
    assert forall|i: int| 0 <= i < after.len() implies made[i] == after[i] by {
        if 4 * count <= i < 4 * count + 4 {
            assert(i - i % 4 == 4 * count);
            assert(made[i] == next[i - 4 * count]);
        }
    }
    assert(made =~= after);
}

/// A pixel inside a picture is one of its pixels.
proof fn lemma_pixel_inside(width: u32, height: u32, x: u32, y: u32)
    requires
        x < width,
        y < height,
    ensures
        0 <= y * width + x < width * height,
        (y + 1) * width <= width * height,
        (y + 1) * width == y * width + width,
{
    assert(y * width + x < width * height && (y + 1) * width <= width * height && (y + 1) * width
        == y * width + width && y * width >= 0) by (nonlinear_arith)
        requires
            0 <= x < width,
            0 <= y < height,
    ;
}

/// Recolours the bright pixels of a picture.
fn recolour(
    original_rgba: &[u8],
    width: u32,
    height: u32,
    colour: [u8; 4],
    keep_alpha: bool,
) -> (r: Vec<u8>)
    requires
        fits(original_rgba@.len(), width, height),
    ensures
        r@ == recoloured(original_rgba@, width, height, colour@, keep_alpha),
{
    let ghost bytes = original_rgba@;
    let mut raster = match raster_from_raw(width, height, vstd::slice::slice_to_vec(original_rgba)) {
        Some(raster) => raster,
        None => {
            assert(false);
            return Vec::new();
        },
    };
    assert(recoloured_until(bytes, 0, colour@, keep_alpha) =~= bytes);
    assert(0 * width == 0) by (nonlinear_arith);
    assert(4 * width * height == 4 * (width * height)) by (nonlinear_arith);
    let mut y: u32 = 0;
    while y < height
        invariant
            y <= height,
            bytes.len() >= 4 * (width * height),
            raster_size(raster) == (width, height),
            raster_bytes(raster) == recoloured_until(bytes, y * width, colour@, keep_alpha),
        decreases height - y,
    {
        let mut x: u32 = 0;
        while x < width
            invariant
                x <= width,
                y < height,
                bytes.len() >= 4 * (width * height),
                raster_size(raster) == (width, height),
                raster_bytes(raster) == recoloured_until(bytes, y * width + x, colour@, keep_alpha),
            decreases width - x,
        {
            proof {
                lemma_pixel_inside(width, height, x, y);
            }
            let ghost count: int = y * width + x;
            let ghost old_pixel = bytes.subrange(4 * count, 4 * count + 4);
            let ghost next = recoloured_pixel(old_pixel, colour@, keep_alpha);
            proof {
                lemma_recolour_next(bytes, count, width * height, colour@, keep_alpha, next);
            }
            let pixel = raster_pixel_mut(&mut raster, x, y);
            assert(pixel@ == old_pixel);
            let r: u8 = pixel[0];
            let g: u8 = pixel[1];
            let b: u8 = pixel[2];
            let a: u8 = pixel[3];
            if a != 0 && r > 200 && g > 200 && b > 200 {
                if keep_alpha {
                    *pixel = [colour[0], colour[1], colour[2], a];
                } else {
                    *pixel = colour;
                }
            }
            assert(pixel@ =~= next);
            x = x + 1;
        }
        proof {
            if width > 0 {
                lemma_pixel_inside(width, height, 0, y);
            } else {
                assert(y * width == 0 && (y + 1) * width == 0) by (nonlinear_arith)
                    requires
                        width == 0,
                ;
            }
        }
        y = y + 1;
    }
    assert(height * width == width * height) by (nonlinear_arith);
    raster_into_raw(raster)
}

/// The picture with its bright pixels in green; they keep their transparency.
pub fn create_green_icon(original_rgba: &[u8], width: u32, height: u32) -> (r: Vec<u8>)
    requires
        fits(original_rgba@.len(), width, height),
    ensures
        r@ == recoloured(original_rgba@, width, height, GREEN@, true),
{
    recolour(original_rgba, width, height, GREEN, true)
}

/// The picture with its bright pixels in the given colour.
pub fn create_colored_icon(
    original_rgba: &[u8],
    width: u32,
    height: u32,
    color: [u8; 4],
) -> (r: Vec<u8>)
    requires
        fits(original_rgba@.len(), width, height),
    ensures
        r@ == recoloured(original_rgba@, width, height, color@, false),
{
    recolour(original_rgba, width, height, color, false)
}

/// The picture with its bright pixels in blue.
pub fn create_blue_icon(original_rgba: &[u8], width: u32, height: u32) -> (r: Vec<u8>)
    requires
        fits(original_rgba@.len(), width, height),
    ensures
        r@ == recoloured(original_rgba@, width, height, BLUE@, false),
{
    create_colored_icon(original_rgba, width, height, BLUE)
}

/// A picture as plain values: four bytes to a pixel, row by row.
#[derive(Debug, PartialEq, Eq)]
pub struct IconImage {
    pub width: u32,
    pub height: u32,
    pub rgba: Vec<u8>,
}

/// Decodes the picture in an image file. It has enough bytes to be recoloured.
pub fn decode_icon(file: &[u8]) -> (r: Result<IconImage, String>)
    ensures
        match r {
            Ok(icon) => decoded_image(file@) == Ok::<(u32, u32, Seq<u8>), Seq<char>>(
                (icon.width, icon.height, icon.rgba@),
            ) && fits(icon.rgba@.len(), icon.width, icon.height),
            Err(message) => decoded_image(file@) == Err::<(u32, u32, Seq<u8>), Seq<char>>(
                message@,
            ),
        },
{
    match raster_decode(file) {
        Ok(raster) => {
            let (width, height) = raster_dimensions(&raster);
            let rgba = raster_into_raw(raster);
            Ok(IconImage { width, height, rgba })
        },
        Err(message) => Err(message),
    }
}

/// The bytes of the pictures that the tray shows.
#[derive(Debug, PartialEq, Eq)]
pub struct IconSet {
    /// The picture as it is, for an application that does not run.
    pub original: Vec<u8>,
    /// The picture in green, for one that runs.
    pub green: Vec<u8>,
    /// The picture in blue, for one that is being installed.
    pub blue: Vec<u8>,
}

/// The pictures that the tray shows, or nothing if the icon has fewer bytes than its
/// size needs.
pub fn icon_set(icon: &IconImage) -> (r: Option<IconSet>)
    ensures
        match r {
            Some(set) => {
                &&& fits(icon.rgba@.len(), icon.width, icon.height)
                &&& set.original@ == icon.rgba@
                &&& set.green@ == recoloured(icon.rgba@, icon.width, icon.height, GREEN@, true)
                &&& set.blue@ == recoloured(icon.rgba@, icon.width, icon.height, BLUE@, false)
            },
            None => !fits(icon.rgba@.len(), icon.width, icon.height),
        },
{
    let row: u64 = 4 * icon.width as u64;
    assert(row * icon.height <= u128::MAX) by (nonlinear_arith)
        requires
            row <= 4 * u32::MAX,
            icon.height <= u32::MAX,
    ;
    let needed: u128 = row as u128 * icon.height as u128;
    if row as u128 > usize::MAX as u128 || needed > icon.rgba.len() as u128 {
        return None;
    }
    let rgba = icon.rgba.as_slice();
    Some(
        IconSet {
            original: vstd::slice::slice_to_vec(rgba),
            green: create_green_icon(rgba, icon.width, icon.height),
            blue: create_blue_icon(rgba, icon.width, icon.height),
        },
    )
}

/// Recolouring a picture a second time, in a colour that is not bright itself, changes
/// nothing.
pub proof fn law_recolouring_twice_is_recolouring_once(
    bytes: Seq<u8>,
    width: u32,
    height: u32,
    colour: Seq<u8>,
    keep_alpha: bool,
)
    requires
        fits(bytes.len(), width, height),
        colour.len() == 4,
        colour[0] <= 200 || colour[1] <= 200 || colour[2] <= 200,
    ensures
        recoloured(
            recoloured(bytes, width, height, colour, keep_alpha),
            width,
            height,
            colour,
            keep_alpha,
        ) == recoloured(bytes, width, height, colour, keep_alpha),
{
    let once = recoloured(bytes, width, height, colour, keep_alpha);
    let twice = recoloured(once, width, height, colour, keep_alpha);
    assert(4 * width * height == 4 * (width * height)) by (nonlinear_arith);
    assert forall|i: int| 0 <= i < once.len() implies twice[i] == once[i] by {
        if i < 4 * (width * height) {
            let start = i - i % 4;
            let pixel = bytes.subrange(start, start + 4);
            assert(start + 4 <= 4 * (width * height));
            assert(once.subrange(start, start + 4) =~= recoloured_pixel(pixel, colour, keep_alpha));
        }
    }
    assert(twice =~= once);
}

/// Recolouring leaves every pixel alone that is transparent or not bright.
pub proof fn law_recolouring_keeps_other_pixels(
    bytes: Seq<u8>,
    width: u32,
    height: u32,
    colour: Seq<u8>,
    keep_alpha: bool,
    x: u32,
    y: u32,
)
    requires
        fits(bytes.len(), width, height),
        x < width,
        y < height,
        !is_bright(bytes.subrange(pixel_start(width, x, y), pixel_start(width, x, y) + 4)),
    ensures
        recoloured(bytes, width, height, colour, keep_alpha).subrange(
            pixel_start(width, x, y),
            pixel_start(width, x, y) + 4,
        ) == bytes.subrange(pixel_start(width, x, y), pixel_start(width, x, y) + 4),
{
    let start = pixel_start(width, x, y);
    lemma_pixel_inside(width, height, x, y);
    assert(4 * width * height == 4 * (width * height)) by (nonlinear_arith);
    let after = recoloured(bytes, width, height, colour, keep_alpha);
    assert forall|i: int| start <= i < start + 4 implies after[i] == bytes[i] by {
        assert(i - i % 4 == start);
    }
    assert(after.subrange(start, start + 4) =~= bytes.subrange(start, start + 4));
}

/// In the green picture a visible pixel with red, green and blue all above 200 is green and
/// keeps its transparency; in the blue picture it is blue and opaque. Every other pixel is as
/// it was in both, and so is what follows the picture.
pub proof fn law_bright_pixels_are_recoloured(
    bytes: Seq<u8>,
    width: u32,
    height: u32,
    x: u32,
    y: u32,
    i: int,
)
    requires
        fits(bytes.len(), width, height),
        x < width,
        y < height,
    ensures
        ({
            let green = recoloured(bytes, width, height, GREEN@, true);
            let blue = recoloured(bytes, width, height, BLUE@, false);
            let at = 4 * (y * width + x);
            let (r, g, b, a) = (bytes[at], bytes[at + 1], bytes[at + 2], bytes[at + 3]);
            let bright = a > 0 && r > 200 && g > 200 && b > 200;
            &&& green.len() == bytes.len() && blue.len() == bytes.len()
            &&& (green[at], green[at + 1], green[at + 2], green[at + 3]) == if bright {
                (0u8, 255u8, 0u8, a)
            } else {
                (r, g, b, a)
            }
            &&& (blue[at], blue[at + 1], blue[at + 2], blue[at + 3]) == if bright {
                (66u8, 170u8, 255u8, 255u8)
            } else {
                (r, g, b, a)
            }
            &&& 4 * (width * height) <= i < bytes.len() ==> green[i] == bytes[i] && blue[i]
                == bytes[i]
        }),
{
    let at: int = 4 * (y * width + x);
    lemma_pixel_inside(width, height, x, y);
    assert(4 * width * height == 4 * (width * height)) by (nonlinear_arith);
    let pixel = bytes.subrange(at, at + 4);
    assert(at % 4 == 0 && (at + 1) % 4 == 1 && (at + 2) % 4 == 2 && (at + 3) % 4 == 3);
    assert(pixel[0] == bytes[at] && pixel[1] == bytes[at + 1] && pixel[2] == bytes[at + 2]
        && pixel[3] == bytes[at + 3]);
    assert(bytes.subrange(at + 1 - 1, at + 1 - 1 + 4) =~= pixel);
    assert(bytes.subrange(at + 2 - 2, at + 2 - 2 + 4) =~= pixel);
    assert(bytes.subrange(at + 3 - 3, at + 3 - 3 + 4) =~= pixel);
}

} // verus!
