//! Icons: the state marks of the menu and the icon of the tray.

use vstd::prelude::*;

verus! {

/// The width and the height of a state mark, in pixels.
pub const MARK_SIZE: u32 = 32;

/// A picture of 32 bits per pixel: red, green, blue and alpha of each pixel, row after row.
#[derive(Debug)]
pub struct IconImage {
    pub rgba: Vec<u8>,
    pub width: u32,
    pub height: u32,
}

/// The contents of an [`IconImage`].
pub struct IconView {
    pub rgba: Seq<u8>,
    pub width: u32,
    pub height: u32,
}

impl View for IconImage {
    type V = IconView;

    open spec fn view(&self) -> IconView {
        IconView { rgba: self.rgba@, width: self.width, height: self.height }
    }
}

impl IconView {
    /// Whether there are four bytes for each pixel, no more and no fewer.
    pub open spec fn complete(self) -> bool {
        self.rgba.len() == 4 * self.width * self.height
    }
}

/// The contents of a picture that may be missing.
pub open spec fn icon_view(icon: Option<IconImage>) -> Option<IconView> {
    match icon {
        Some(image) => Some(image@),
        None => None,
    }
}

/// Bytes and dimensions as a picture, if they fit together.
pub open spec fn picture(rgba: Seq<u8>, width: u32, height: u32) -> Option<IconView> {
    let image = IconView { rgba, width, height };
    if image.complete() {
        Some(image)
    } else {
        None
    }
}

impl IconImage {
    /// Makes a picture of bytes and dimensions, if they fit together.
    pub fn from_rgba(rgba: Vec<u8>, width: u32, height: u32) -> (icon: Option<IconImage>)
        ensures
            icon_view(icon) == picture(rgba@, width, height),
            icon is Some <==> rgba@.len() == 4 * width * height,
            icon matches Some(image) ==> image.rgba@ == rgba@ && image.width == width
                && image.height == height,
    {
        proof {
            assert(4 * (width as u128 * height as u128) <= u128::MAX && width as u128
                * height as u128 <= u128::MAX) by (nonlinear_arith)
                requires
                    width <= u32::MAX,
                    height <= u32::MAX,
            ;
            assert(4 * width * height == 4 * (width * height)) by (nonlinear_arith);
        }
        let bytes: u128 = 4 * (width as u128 * height as u128);
        if rgba.len() as u128 == bytes {
            Some(IconImage { rgba, width, height })
        } else {
            None
        }
    }
}

/// Whether a pixel of a state mark lies on the disc: nearer than 14 pixels to the middle.
pub open spec fn on_disc(x: int, y: int) -> bool {
    (x - 16) * (x - 16) + (y - 16) * (y - 16) < 14 * 14
}

/// One byte of a state mark: of channel `k % 4` of pixel `k / 4`.
pub open spec fn disc_byte(k: int, r: u8, g: u8, b: u8) -> u8 {
    if !on_disc(k / 4 % 32, k / 4 / 32) {
        0
    } else if k % 4 == 0 {
        r
    } else if k % 4 == 1 {
        g
    } else if k % 4 == 2 {
        b
    } else {
        255
    }
}

/// The bytes of a state mark: an opaque disc of the given colour, transparent around it.
pub open spec fn disc(r: u8, g: u8, b: u8) -> Seq<u8> {
    Seq::new(32 * 32 * 4, |k: int| disc_byte(k, r, g, b))
}

/// A disc shows its colour and nothing else: of the 32 by 32 pixels, row after row, those nearer
/// than 14 pixels to the middle are of the given colour and opaque, and the others are black and
/// transparent.
pub proof fn law_disc_shows_its_colour(r: u8, g: u8, b: u8, x: int, y: int)
    requires
        0 <= x < 32,
        0 <= y < 32,
    ensures
        disc(r, g, b).len() == 4096,
        ({
            let at = (y * 32 + x) * 4;
            disc(r, g, b).subrange(at, at + 4) == (if (x - 16) * (x - 16) + (y - 16) * (y - 16)
                < 196 {
                seq![r, g, b, 255u8]
            } else {
                seq![0u8, 0u8, 0u8, 0u8]
            })
        }),
{
    let at = (y * 32 + x) * 4;
    let pixel = disc(r, g, b).subrange(at, at + 4);
    assert(forall|c: int| 0 <= c < 4 ==> #[trigger] ((at + c) / 4) == y * 32 + x);
    assert((y * 32 + x) % 32 == x && (y * 32 + x) / 32 == y);
    assert(forall|c: int|
        0 <= c < 4 ==> #[trigger] pixel[c] == disc_byte(at + c, r, g, b));
    if (x - 16) * (x - 16) + (y - 16) * (y - 16) < 196 {
        assert(pixel =~= seq![r, g, b, 255u8]);
    } else {
        assert(pixel =~= seq![0u8, 0u8, 0u8, 0u8]);
    }
}

/// Draws a disc of the given colour.
pub fn circle_rgba(r: u8, g: u8, b: u8) -> (pixels: Vec<u8>)
    ensures
        pixels@ == disc(r, g, b),
        pixels@.len() == 4096,
        forall|x: int, y: int|
            0 <= x < 32 && 0 <= y < 32 ==> #[trigger] pixels@.subrange(
                (y * 32 + x) * 4,
                (y * 32 + x) * 4 + 4,
            ) == (if (x - 16) * (x - 16) + (y - 16) * (y - 16) < 196 {
                seq![r, g, b, 255u8]
            } else {
                seq![0u8, 0u8, 0u8, 0u8]
            }),
{
    let mut pixels: Vec<u8> = Vec::new();
    for y in 0i32..32
        invariant
            pixels@.len() == y * 128,
            forall|k: int| 0 <= k < pixels@.len() ==> #[trigger] pixels@[k] == disc_byte(k, r, g, b),
    {
        for x in 0i32..32
            invariant
                0 <= y < 32,
                pixels@.len() == y * 128 + x * 4,
                forall|k: int|
                    0 <= k < pixels@.len() ==> #[trigger] pixels@[k] == disc_byte(k, r, g, b),
        {
            let dx: i32 = x - 16;
            let dy: i32 = y - 16;
            proof {
                assert(0 <= dx * dx <= 256 && 0 <= dy * dy <= 256) by (nonlinear_arith)
                    requires
                        -16 <= dx <= 16,
                        -16 <= dy <= 16,
                ;
                let k = pixels@.len() as int;
                assert(k / 4 == y * 32 + x);
                assert(forall|c: int| 0 <= c < 4 ==> #[trigger] ((k + c) / 4) == y * 32 + x);
                assert((y * 32 + x) % 32 == x && (y * 32 + x) / 32 == y);
            }
            if dx * dx + dy * dy < 196 {
                pixels.push(r);
                pixels.push(g);
                pixels.push(b);
                pixels.push(255);
            } else {
                pixels.push(0);
                pixels.push(0);
                pixels.push(0);
                pixels.push(0);
            }
        }
    }
    proof {
        assert forall|x: int, y: int|
            0 <= x < 32 && 0 <= y < 32 implies #[trigger] pixels@.subrange(
            (y * 32 + x) * 4,
            (y * 32 + x) * 4 + 4,
        ) == (if (x - 16) * (x - 16) + (y - 16) * (y - 16) < 196 {
            seq![r, g, b, 255u8]
        } else {
            seq![0u8, 0u8, 0u8, 0u8]
        }) by {
            assert(pixels@ =~= disc(r, g, b));
            law_disc_shows_its_colour(r, g, b, x, y);
        }
    }
    pixels
}

/// The mark of an application's state: a green disc when it is running, a red one when not.
pub open spec fn menu_icon(running: bool) -> IconView {
    IconView {
        rgba: if running {
            disc(0, 200, 0)
        } else {
            disc(200, 0, 0)
        },
        width: MARK_SIZE,
        height: MARK_SIZE,
    }
}

/// The mark of a running application is green and that of another one red, in every pixel nearer
/// than 14 pixels to the middle; around that a mark is transparent.
pub proof fn law_marks_are_green_and_red(running: bool, x: int, y: int)
    requires
        0 <= x < 32,
        0 <= y < 32,
    ensures
        menu_icon(running).width == 32,
        menu_icon(running).height == 32,
        menu_icon(running).rgba.len() == 4096,
        ({
            let at = (y * 32 + x) * 4;
            menu_icon(running).rgba.subrange(at, at + 4) == (if (x - 16) * (x - 16) + (y - 16) * (y
                - 16) >= 196 {
                seq![0u8, 0u8, 0u8, 0u8]
            } else if running {
                seq![0u8, 200u8, 0u8, 255u8]
            } else {
                seq![200u8, 0u8, 0u8, 255u8]
            })
        }),
{
    if running {
        law_disc_shows_its_colour(0, 200, 0, x, y);
    } else {
        law_disc_shows_its_colour(200, 0, 0, x, y);
    }
}

/// Draws the mark of an application's state.
pub fn get_menu_icon(running: bool) -> (icon: IconImage)
    ensures
        icon@ == menu_icon(running),
        icon@.complete(),
        icon.width == 32,
        icon.height == 32,
        icon.rgba@.len() == 4096,
        forall|x: int, y: int|
            0 <= x < 32 && 0 <= y < 32 ==> #[trigger] icon.rgba@.subrange(
                (y * 32 + x) * 4,
                (y * 32 + x) * 4 + 4,
            ) == (if (x - 16) * (x - 16) + (y - 16) * (y - 16) >= 196 {
                seq![0u8, 0u8, 0u8, 0u8]
            } else if running {
                seq![0u8, 200u8, 0u8, 255u8]
            } else {
                seq![200u8, 0u8, 0u8, 255u8]
            }),
{
    let rgba = if running {
        circle_rgba(0, 200, 0)
    } else {
        circle_rgba(200, 0, 0)
    };
    proof {
        assert(4 * MARK_SIZE * MARK_SIZE == 32 * 32 * 4);
    }
    IconImage { rgba, width: MARK_SIZE, height: MARK_SIZE }
}

/// Whether a character stands between the components of a path on some system.
pub open spec fn is_slash(c: char) -> bool {
    c == '/' || c == '\\'
}

/// Whether a character stands between the parts of a path on some system, the drive included.
pub open spec fn parts_paths(c: char) -> bool {
    is_slash(c) || c == ':'
}

/// Whether a path begins as the name of a share does.
pub open spec fn begins_as_share(path: Seq<char>) -> bool {
    path.len() >= 2 && is_slash(path[0]) && is_slash(path[1])
}

/// Whether a path begins with the name of a share up to `end`: two slashes, a server, a slash, a
/// directory and the slash at `end`. A server named `?` or `.` is none: such a path has another
/// meaning.
pub open spec fn share_ends_at(path: Seq<char>, end: int) -> bool {
    exists|mid: int|
        {
            &&& 2 < mid
            &&& mid + 1 < end < path.len()
            &&& begins_as_share(path)
            &&& #[trigger] is_slash(path[mid])
            &&& is_slash(path[end])
            &&& forall|i: int| 2 <= i < end && i != mid ==> !is_slash(#[trigger] path[i])
            &&& !(mid == 3 && (path[2] == '?' || path[2] == '.'))
        }
}

/// Whether what stands at `at` in a path is not part of the name of a share.
pub open spec fn outside_share(path: Seq<char>, at: int) -> bool {
    begins_as_share(path) ==> exists|end: int| end < at && #[trigger] share_ends_at(path, end)
}

/// A path without the slashes, and the slashes followed by a dot alone, at its end.
pub open spec fn trimmed(path: Seq<char>) -> Seq<char>
    decreases path.len(),
{
    let last = path.len() - 1;
    if last >= 0 && path[last] == '/' {
        trimmed(path.take(last))
    } else if last >= 1 && path[last] == '.' && path[last - 1] == '/' {
        trimmed(path.take(last - 1))
    } else {
        path
    }
}

/// The part of a path that tells its file name: the path without what means nothing at its end.
/// Of a path that begins as the name of a share but holds none it is the whole path.
pub open spec fn telling_part(path: Seq<char>) -> Seq<char> {
    if outside_share(path, path.len() as int) {
        trimmed(path)
    } else {
        path
    }
}

/// Whether a path ends in a name, a dot and the extension `ext`, so that every system reads the
/// extension in the same way. The extension may be empty if the name does not end in a dot.
pub open spec fn ends_in_extension(path: Seq<char>, ext: Seq<char>) -> bool {
    let dot = path.len() - ext.len() - 1;
    &&& forall|i: int| 0 <= i < ext.len() ==> #[trigger] ext[i] != '.' && !parts_paths(ext[i])
    &&& dot > 0
    &&& path[dot] == '.'
    &&& !parts_paths(path[dot - 1])
    &&& ext.len() == 0 ==> path[dot - 1] != '.'
    &&& path.skip(dot + 1) == ext
    &&& outside_share(path, dot - 1)
}

/// Whether a path ends in a name without an extension, which begins at `start`: a name without a
/// dot, or with one only at its beginning, so that every system reads it in the same way. A dot
/// alone is no name.
pub open spec fn bare_name_at(path: Seq<char>, start: int) -> bool {
    &&& 0 <= start < path.len()
    &&& start > 0 ==> path[start - 1] == '/'
    &&& path[start] != '.' || start + 1 < path.len()
    &&& forall|i: int| start <= i < path.len() ==> !parts_paths(#[trigger] path[i])
    &&& forall|i: int| start < i < path.len() ==> #[trigger] path[i] != '.'
    &&& outside_share(path, start)
}

/// Whether a path ends in no name at all: it is the current directory, or ends in the parent of
/// a directory.
pub open spec fn ends_in_dots(path: Seq<char>) -> bool {
    let start = path.len() - 2;
    ||| path == seq!['.']
    ||| start >= 0 && path.skip(start) == seq!['.', '.'] && (start > 0 ==> path[start - 1] == '/')
        && outside_share(path, start)
}

/// Whether an extension, or that there is none, goes with a path. Of other paths nothing is
/// said: systems differ in them, or the directories in them are named in an uncommon way.
pub open spec fn extension_fits(path: Seq<char>, ext: Option<Seq<char>>) -> bool {
    let path = telling_part(path);
    &&& forall|e: Seq<char>| #[trigger] ends_in_extension(path, e) ==> ext == Some(e)
    &&& forall|start: int| #[trigger] bare_name_at(path, start) ==> ext is None
    &&& ends_in_dots(path) ==> ext is None
    &&& !path.contains('.') ==> ext is None
}

/// The contents of an extension that may be missing.
pub open spec fn extension_view(ext: Option<String>) -> Option<Seq<char>> {
    match ext {
        Some(text) => Some(text@),
        None => None,
    }
}

/// `std::path::Path::extension`: the part of a path's file name after the final dot, and nothing
/// where there is no dot. Systems differ in what they take for the file name; claimed is only
/// what holds on all of them.
#[verifier::external_body]
fn path_extension(path: &str) -> (ext: Option<String>)
    ensures
        extension_fits(path@, extension_view(ext)),
{
    Some(std::path::Path::new(path).extension()?.to_str()?.to_owned())
}

/// Whether a call that asked the system for the extension of a path was told this one, or none.
pub closed spec fn told_extension(path: Seq<char>, ext: Option<Seq<char>>) -> bool {
    exists|p: &str, e: Option<String>|
        p@ == path && extension_view(e) == ext && #[trigger] call_ensures(path_extension, (p,), e)
}

/// An extension was told if and only if a call that asked for it can have returned it.
proof fn lemma_told_extension(path: &str, ext: Option<String>)
    ensures
        call_ensures(path_extension, (path,), ext) ==> told_extension(path@, extension_view(ext)),
        told_extension(path@, extension_view(ext)) ==> exists|p: &str, e: Option<String>|
            p@ == path@ && extension_view(e) == extension_view(ext) && #[trigger] call_ensures(
                path_extension,
                (p,),
                e,
            ),
{
}

/// What a system tells of the extension of a path fits the path, on every system.
pub proof fn law_told_extensions_fit(path: Seq<char>, ext: Option<Seq<char>>)
    requires
        told_extension(path, ext),
    ensures
        extension_fits(path, ext),
{
}

/// Reads the extension of a path as the system does.
pub fn extension_of(path: &str) -> (ext: Option<String>)
    ensures
        told_extension(path@, extension_view(ext)),
        extension_fits(path@, extension_view(ext)),
{
    let ext = path_extension(path);
    proof {
        lemma_told_extension(path, ext);
    }
    ext
}

/// What a decoder gives: the bytes, the width and the height of a picture, if there is one.
pub type Decoded = Option<(Vec<u8>, u32, u32)>;

/// The contents of [`Decoded`].
pub type DecodedView = Option<(Seq<u8>, u32, u32)>;

/// The contents of a decoded picture.
pub open spec fn decoded_view(decoded: Decoded) -> DecodedView {
    match decoded {
        Some((rgba, width, height)) => Some((rgba@, width, height)),
        None => None,
    }
}

/// Whether a decoded picture, if there is one, has four bytes for each of its pixels.
pub open spec fn fits_together(decoded: DecodedView) -> bool {
    decoded matches Some((rgba, width, height)) ==> rgba.len() == 4 * width * height
}

/// Whether a PNG picture begins at a place in a file.
pub open spec fn png_begins_at(data: Seq<u8>, at: int) -> bool {
    &&& 0 <= at && at + 8 <= data.len()
    &&& data[at] == 137 && data[at + 1] == 80 && data[at + 2] == 78 && data[at + 3] == 71
    &&& data[at + 4] == 13 && data[at + 5] == 10 && data[at + 6] == 26 && data[at + 7] == 10
}

/// Whether the palette of a PNG picture begins at a place in a file and ends within a colour: its
/// length, of which only 3 to 768 bytes are in order, and the word `PLTE`. A colour has 3 bytes.
pub open spec fn broken_palette_at(data: Seq<u8>, at: int) -> bool {
    let bytes = data[at + 2] * 256 + data[at + 3];
    &&& 0 <= at && at + 8 <= data.len()
    &&& data[at] == 0 && data[at + 1] == 0
    &&& 3 <= bytes <= 768 && bytes % 3 != 0
    &&& data[at + 4] == 80 && data[at + 5] == 76 && data[at + 6] == 84 && data[at + 7] == 69
}

/// Whether a file holds a PNG picture, alone or within another one, with a broken palette.
pub open spec fn holds_broken_palette(data: Seq<u8>) -> bool {
    exists|i: int, j: int|
        i < j && #[trigger] png_begins_at(data, i) && #[trigger] broken_palette_at(data, j)
}

/// A file holds a broken palette if and only if somewhere behind the eight bytes that begin a PNG
/// picture there are a length of 3 to 768 bytes that is no multiple of 3, in four bytes with the
/// highest first, and the letters `PLTE`.
pub proof fn law_broken_palettes(data: Seq<u8>)
    ensures
        holds_broken_palette(data) <==> exists|i: int, j: int|
            {
                let length = data[j + 2] * 256 + data[j + 3];
                &&& 0 <= i < j <= data.len() - 8
                &&& #[trigger] data.subrange(i, i + 8) == seq![
                    137u8,
                    80u8,
                    78u8,
                    71u8,
                    13u8,
                    10u8,
                    26u8,
                    10u8,
                ]
                &&& data[j] == 0 && data[j + 1] == 0
                &&& 3 <= length <= 768 && length % 3 != 0
                &&& #[trigger] data.subrange(j + 4, j + 8) == seq![80u8, 76u8, 84u8, 69u8]
            },
{
    let begin = seq![137u8, 80u8, 78u8, 71u8, 13u8, 10u8, 26u8, 10u8];
    let word = seq![80u8, 76u8, 84u8, 69u8];
    if holds_broken_palette(data) {
        let (i, j) = choose|i: int, j: int|
            i < j && #[trigger] png_begins_at(data, i) && #[trigger] broken_palette_at(data, j);
        assert(data.subrange(i, i + 8) =~= begin);
        assert(data.subrange(j + 4, j + 8) =~= word);
    }
    assert forall|i: int|
        0 <= i <= data.len() - 8 && #[trigger] data.subrange(i, i + 8)
            == begin implies png_begins_at(data, i) by {
        assert(forall|c: int| 0 <= c < 8 ==> data[i + c] == #[trigger] begin[c]);
        assert(begin[0] == 137 && begin[1] == 80 && begin[2] == 78 && begin[3] == 71);
        assert(begin[4] == 13 && begin[5] == 10 && begin[6] == 26 && begin[7] == 10);
    }
    assert forall|j: int|
        {
            let length = data[j + 2] * 256 + data[j + 3];
            &&& 0 <= j <= data.len() - 8
            &&& data[j] == 0 && data[j + 1] == 0
            &&& 3 <= length <= 768 && length % 3 != 0
            &&& #[trigger] data.subrange(j + 4, j + 8) == word
        } implies broken_palette_at(data, j) by {
        let found = data.subrange(j + 4, j + 8);
        assert(found[0] == 80 && found[1] == 76 && found[2] == 84 && found[3] == 69);
    }
}

/// Looks for a PNG picture with a broken palette in a file.
pub fn has_broken_palette(data: &[u8]) -> (broken: bool)
    ensures
        broken == holds_broken_palette(data@),
{
    let mut png = false;
    let mut at: usize = 0;
    while at < data.len() && data.len() - at >= 8
        invariant
            at <= data.len(),
            png == exists|i: int| i < at && #[trigger] png_begins_at(data@, i),
            forall|i: int, j: int|
                i < j < at && #[trigger] png_begins_at(data@, i)
                    ==> !#[trigger] broken_palette_at(data@, j),
        decreases data.len() - at,
    {
        let bytes: u32 = data[at + 2] as u32 * 256 + data[at + 3] as u32;
        if png && data[at] == 0 && data[at + 1] == 0 && 3 <= bytes && bytes <= 768 && bytes % 3 != 0
            && data[at + 4] == 80 && data[at + 5] == 76 && data[at + 6] == 84 && data[at + 7] == 69
        {
            assert(broken_palette_at(data@, at as int));
            return true;
        }
        if data[at] == 137 && data[at + 1] == 80 && data[at + 2] == 78 && data[at + 3] == 71
            && data[at + 4] == 13 && data[at + 5] == 10 && data[at + 6] == 26 && data[at + 7] == 10
        {
            assert(png_begins_at(data@, at as int));
            png = true;
        }
        at += 1;
    }
    false
}

/// What decoding the bytes of a file gives when the extension of its path tells the format. See
/// [`decode_by_extension`].
pub uninterp spec fn decoded_by_extension(ext: Seq<char>, data: Seq<u8>) -> Option<
    (Seq<u8>, u32, u32),
>;

/// What decoding bytes gives when their beginning tells the format. See [`decode_by_content`].
pub uninterp spec fn decoded_by_content(data: Seq<u8>) -> Option<(Seq<u8>, u32, u32)>;

/// `image::load_from_memory_with_format` under the format that `image::ImageFormat::from_extension`
/// finds for the extension, converted by `to_rgba8`. A picture that comes out has four bytes for
/// each pixel. What comes out depends on the extension and the bytes alone. Nothing is claimed of
/// what comes out, or of which formats are understood. The decoder of PNG pictures panics on a
/// broken palette, so a file that holds one must not be handed in.
#[verifier::external_body]
fn decode_by_extension(ext: &str, data: &[u8]) -> (decoded: Decoded)
    requires
        !holds_broken_palette(data@),
    ensures
        decoded_view(decoded) == decoded_by_extension(ext@, data@),
        fits_together(decoded_view(decoded)),
{
    let format = image::ImageFormat::from_extension(ext)?;
    let image = image::load_from_memory_with_format(data, format).ok()?.to_rgba8();
    let (width, height) = image.dimensions();
    Some((image.into_raw(), width, height))
}

/// `image::load_from_memory_with_format` under the format that `image::guess_format` finds in
/// the bytes, converted by `to_rgba8`. A picture that comes out has four bytes for each pixel.
/// What comes out depends on the bytes alone. Nothing is claimed of what comes out, or of which
/// formats are understood. The decoder of PNG pictures panics on a broken palette, so bytes that
/// hold one must not be handed in.
#[verifier::external_body]
fn decode_by_content(data: &[u8]) -> (decoded: Decoded)
    requires
        !holds_broken_palette(data@),
    ensures
        decoded_view(decoded) == decoded_by_content(data@),
        fits_together(decoded_view(decoded)),
{
    let format = image::guess_format(data).ok()?;
    let image = image::load_from_memory_with_format(data, format).ok()?.to_rgba8();
    let (width, height) = image.dimensions();
    Some((image.into_raw(), width, height))
}

/// What a file gives under an extension: nothing without an extension, as then nothing tells the
/// format, and nothing if a palette in it is broken.
pub open spec fn decoded_file(ext: Option<Seq<char>>, data: Seq<u8>) -> DecodedView {
    match ext {
        Some(ext) => if holds_broken_palette(data) {
            None
        } else {
            decoded_by_extension(ext, data)
        },
        None => None,
    }
}

/// What bytes give by their content: nothing if a palette in them is broken.
pub open spec fn decoded_content(data: Seq<u8>) -> DecodedView {
    if holds_broken_palette(data) {
        None
    } else {
        decoded_by_content(data)
    }
}

/// Decodes a file under an extension.
pub fn decode_file(ext: Option<String>, data: &[u8]) -> (decoded: Decoded)
    ensures
        decoded_view(decoded) == decoded_file(extension_view(ext), data@),
        fits_together(decoded_view(decoded)),
        ext is None ==> decoded is None,
        holds_broken_palette(data@) ==> decoded is None,
        ext matches Some(text) ==> !holds_broken_palette(data@) ==> decoded_view(decoded)
            == decoded_by_extension(text@, data@),
{
    match ext {
        Some(ext) => if has_broken_palette(data) {
            None
        } else {
            decode_by_extension(ext.as_str(), data)
        },
        None => None,
    }
}

/// The picture that a decoded file gives, if it was decoded and its parts fit together.
pub open spec fn decoded_icon(decoded: DecodedView) -> Option<IconView> {
    match decoded {
        Some((rgba, width, height)) => picture(rgba, width, height),
        None => None,
    }
}

/// Makes a picture of what a decoder gave.
pub fn icon_from_decoded(decoded: Decoded) -> (icon: Option<IconImage>)
    ensures
        icon_view(icon) == decoded_icon(decoded_view(decoded)),
        decoded is None ==> icon is None,
        decoded matches Some((rgba, width, height)) ==> {
            &&& icon is Some <==> rgba@.len() == 4 * width * height
            &&& icon matches Some(image) ==> image.rgba@ == rgba@ && image.width == width
                && image.height == height
        },
{
    match decoded {
        Some((rgba, width, height)) => IconImage::from_rgba(rgba, width, height),
        None => None,
    }
}

/// Decodes the icon that is built in: whenever its bytes can be decoded, there is an icon.
pub fn load_icon(data: &[u8]) -> (icon: Option<IconImage>)
    ensures
        icon_view(icon) == decoded_icon(decoded_content(data@)),
        icon is Some <==> decoded_content(data@) is Some,
        holds_broken_palette(data@) ==> icon is None,
        !holds_broken_palette(data@) ==> match decoded_by_content(data@) {
            Some((rgba, width, height)) => icon matches Some(image) && image.rgba@ == rgba
                && image.width == width && image.height == height,
            None => icon is None,
        },
{
    if has_broken_palette(data) {
        return None;
    }
    icon_from_decoded(decode_by_content(data))
}

} // verus!
