//! The resource archive and what stands in it: where it comes from, its entries, the texts and the
//! images that the entries hold.

use vstd::prelude::*;
use vstd::string::StringExecFns;
use vstd::utf8;

use crate::text;

verus! {

pub const RESOURCES_ARCHIVE_RELATIVE: &'static str = "resources.zip";

pub const WEB_WASM_RELATIVE: &'static str = "mcse_web_bg.wasm";

/// Where an asset is read from: a file, by the bytes of its path, or the program itself.
#[derive(Clone, Debug)]
pub enum AssetSource {
    Path(Vec<u8>),
    Embedded(&'static [u8]),
}

/// An asset source as contracts speak of it.
pub enum SourceView {
    Path(Seq<u8>),
    Embedded(Seq<u8>),
}

impl View for AssetSource {
    type V = SourceView;

    open spec fn view(&self) -> SourceView {
        match *self {
            AssetSource::Path(path) => SourceView::Path(path@),
            AssetSource::Embedded(bytes) => SourceView::Embedded(bytes@),
        }
    }
}

/// The path that `relative` names below `root`. An absolute path stays what it is, and a slash
/// stands between the two unless `root` is empty or ends in one.
pub open spec fn joined(root: Seq<u8>, relative: Seq<u8>) -> Seq<u8> {
    if relative.len() > 0 && relative[0] == 47 {
        relative
    } else if root.len() == 0 || root.last() == 47 {
        root + relative
    } else {
        root.push(47) + relative
    }
}

pub open spec fn path_view(path: Option<Vec<u8>>) -> Option<Seq<u8>> {
    match path {
        Some(path) => Some(path@),
        None => None,
    }
}

pub open spec fn bytes_view(bytes: Option<&'static [u8]>) -> Option<Seq<u8>> {
    match bytes {
        Some(bytes) => Some(bytes@),
        None => None,
    }
}

/// The first source that is there: the path configured for this asset, its path below the
/// configured assets root, the embedded bytes, and at last its path below `assets` in the
/// current directory.
pub open spec fn source_of(
    dedicated: Option<Seq<u8>>,
    assets: Option<Seq<u8>>,
    embedded: Option<Seq<u8>>,
    relative: Seq<char>,
) -> SourceView {
    match (dedicated, assets, embedded) {
        (Some(path), _, _) => SourceView::Path(path),
        (None, Some(path), _) => SourceView::Path(path),
        (None, None, Some(bytes)) => SourceView::Embedded(bytes),
        (None, None, None) => SourceView::Path(
            joined(utf8::encode_utf8("assets"@), utf8::encode_utf8(relative)),
        ),
    }
}

fn append(bytes: &mut Vec<u8>, more: &[u8])
    ensures
        final(bytes)@ == old(bytes)@ + more@,
{
    let mut index: usize = 0;
    while index < more.len()
        invariant
            index <= more@.len(),
            bytes@ == old(bytes)@ + more@.take(index as int),
        decreases more@.len() - index,
    {
        assert(more@.take(index + 1) == more@.take(index as int).push(more@[index as int]));
        bytes.push(more[index]);
        index = index + 1;
    }
    assert(more@.take(more@.len() as int) == more@);
}

/// Joins a relative path to a directory.
pub fn join_path(root: &[u8], relative: &str) -> (path: Vec<u8>)
    ensures
        path@ == joined(root@, utf8::encode_utf8(relative@)),
{
    let tail = relative.as_bytes();
    let mut path: Vec<u8> = Vec::new();
    if tail.len() > 0 && tail[0] == 47 {
        append(&mut path, tail);
        return path;
    }
    append(&mut path, root);
    if root.len() > 0 && root[root.len() - 1] != 47 {
        path.push(47);
    }
    append(&mut path, tail);
    path
}

/// Chooses where an asset is read from.
pub fn select_source(
    dedicated_path: Option<Vec<u8>>,
    assets_path: Option<Vec<u8>>,
    embedded: Option<&'static [u8]>,
    relative_path: &str,
) -> (source: AssetSource)
    ensures
        source@ == source_of(
            path_view(dedicated_path),
            path_view(assets_path),
            bytes_view(embedded),
            relative_path@,
        ),
{
    if let Some(path) = dedicated_path {
        AssetSource::Path(path)
    } else if let Some(path) = assets_path {
        AssetSource::Path(path)
    } else if let Some(bytes) = embedded {
        AssetSource::Embedded(bytes)
    } else {
        AssetSource::Path(join_path("assets".as_bytes(), relative_path))
    }
}

/// The path of an asset below a configured assets root.
pub open spec fn below_root(root: Option<Seq<u8>>, relative: Seq<char>) -> Option<Seq<u8>> {
    match root {
        Some(root) => Some(joined(root, utf8::encode_utf8(relative))),
        None => None,
    }
}

/// Chooses where an asset is read from, given the assets root instead of the path below it.
pub fn asset_source(
    dedicated_path: Option<Vec<u8>>,
    assets_root: &Option<Vec<u8>>,
    embedded: Option<&'static [u8]>,
    relative_path: &str,
) -> (source: AssetSource)
    ensures
        source@ == source_of(
            path_view(dedicated_path),
            below_root(path_view(*assets_root), relative_path@),
            bytes_view(embedded),
            relative_path@,
        ),
{
    let assets_path = match assets_root {
        Some(root) => Some(join_path(root.as_slice(), relative_path)),
        None => None,
    };
    select_source(dedicated_path, assets_path, embedded, relative_path)
}

#[verifier::external_type_specification]
#[verifier::external_body]
pub struct ExZipError(zip::result::ZipError);

#[verifier::external_type_specification]
#[verifier::external_body]
pub struct ExImageError(image::ImageError);

/// Why a resource could not be loaded.
#[derive(Debug)]
pub enum ResourceError {
    Archive(zip::result::ZipError),
    Image(image::ImageError),
    /// The entry is no UTF-8.
    Text,
    /// The image has these dimensions, which are not the wanted ones.
    Dimensions { width: u32, height: u32, wanted_width: u32, wanted_height: u32 },
}

/// An image of eight-bit red, green, blue and alpha samples, row by row.
#[derive(Clone, Debug, PartialEq, Eq)]
pub struct RgbaImage {
    pub width: u32,
    pub height: u32,
    pub pixels: Vec<u8>,
}

#[verifier::ext_equal]
pub struct ImageView {
    pub width: u32,
    pub height: u32,
    pub pixels: Seq<u8>,
}

impl View for RgbaImage {
    type V = ImageView;

    open spec fn view(&self) -> ImageView {
        ImageView { width: self.width, height: self.height, pixels: self.pixels@ }
    }
}

impl ImageView {
    /// Every pixel has its four samples, and there are no others.
    pub open spec fn wf(self) -> bool {
        self.pixels.len() == 4 * self.width * self.height
    }
}

/// The contents of an entry of a ZIP archive, where the archive can be read and has the entry.
pub uninterp spec fn zip_entry(archive: Seq<u8>, name: Seq<char>) -> Option<Seq<u8>>;

/// Reads an entry with `zip::ZipArchive::new`, `by_name` and `read_to_end`. The result depends on
/// the archive's bytes and the name alone, and is an error where one of the three fails.
#[verifier::external_body]
pub(crate) fn read_entry(archive: &[u8], name: &str) -> (entry: Result<
    Vec<u8>,
    zip::result::ZipError,
>)
    ensures
        match entry {
            Ok(contents) => zip_entry(archive@, name@) == Some(contents@),
            Err(_) => zip_entry(archive@, name@) is None,
        },
{
    let mut archive = zip::ZipArchive::new(std::io::Cursor::new(archive))?;
    let mut entry = archive.by_name(name)?;
    let mut contents = Vec::new();
    std::io::Read::read_to_end(&mut entry, &mut contents)?;
    Ok(contents)
}

/// The image that a PNG file decodes to, where it does.
pub uninterp spec fn png_image(encoded: Seq<u8>) -> Option<ImageView>;

/// Decodes a PNG file with `image::load_from_memory_with_format` and converts it with
/// `DynamicImage::to_rgba8`. The result depends on the file's bytes alone. The buffer is made for
/// the dimensions, with four samples for each pixel.
#[verifier::external_body]
pub(crate) fn decode_png(encoded: &[u8]) -> (decoded: Result<RgbaImage, image::ImageError>)
    ensures
        match decoded {
            Ok(image) => png_image(encoded@) == Some(image@) && image@.wf(),
            Err(_) => png_image(encoded@) is None,
        },
{
    let decoded = image::load_from_memory_with_format(encoded, image::ImageFormat::Png)?.to_rgba8();
    let (width, height) = decoded.dimensions();
    Ok(RgbaImage { width, height, pixels: decoded.into_raw() })
}

/// Reads one resource from the archive.
pub fn load_resource(archive: &[u8], resource_name: &str) -> (contents: Result<
    Vec<u8>,
    ResourceError,
>)
    ensures
        match contents {
            Ok(contents) => zip_entry(archive@, resource_name@) == Some(contents@),
            Err(error) => error is Archive && zip_entry(archive@, resource_name@) is None,
        },
{
    match read_entry(archive, resource_name) {
        Ok(contents) => Ok(contents),
        Err(error) => Err(ResourceError::Archive(error)),
    }
}

/// Decodes a PNG file.
pub fn decode_rgba_png(encoded: &[u8]) -> (decoded: Result<RgbaImage, ResourceError>)
    ensures
        match decoded {
            Ok(image) => png_image(encoded@) == Some(image@) && image@.wf(),
            Err(error) => error is Image && png_image(encoded@) is None,
        },
{
    match decode_png(encoded) {
        Ok(image) => Ok(image),
        Err(error) => Err(ResourceError::Image(error)),
    }
}

/// What decoding a resource as an image comes to, given what the archive holds.
pub open spec fn decodes(
    entry: Option<Seq<u8>>,
    decoded: Result<RgbaImage, ResourceError>,
) -> bool {
    match (entry, decoded) {
        (None, Err(error)) => error is Archive,
        (Some(encoded), Err(error)) => error is Image && png_image(encoded) is None,
        (Some(encoded), Ok(image)) => png_image(encoded) == Some(image@) && image@.wf(),
        (None, Ok(_)) => false,
    }
}

/// Decodes a PNG resource of the archive.
pub fn load_rgba_png(archive: &[u8], resource_name: &str) -> (image: Result<
    RgbaImage,
    ResourceError,
>)
    ensures
        decodes(zip_entry(archive@, resource_name@), image),
{
    match load_resource(archive, resource_name) {
        Ok(encoded) => decode_rgba_png(encoded.as_slice()),
        Err(error) => Err(error),
    }
}

/// What reading a resource as a text comes to, given what the archive holds.
pub open spec fn reads(entry: Option<Seq<u8>>, text: Result<String, ResourceError>) -> bool {
    match (entry, text) {
        (None, Err(error)) => error is Archive,
        (Some(bytes), Err(error)) => error is Text && !utf8::valid_utf8(bytes),
        (Some(bytes), Ok(text)) => utf8::valid_utf8(bytes) && text@ == utf8::decode_utf8(bytes),
        (None, Ok(_)) => false,
    }
}

/// Reads a UTF-8 text resource of the archive.
pub fn load_utf8(archive: &[u8], resource_name: &str) -> (contents: Result<String, ResourceError>)
    ensures
        reads(zip_entry(archive@, resource_name@), contents),
{
    match load_resource(archive, resource_name) {
        Ok(bytes) => match text::decode(bytes) {
            Some(contents) => Ok(contents),
            None => Err(ResourceError::Text),
        },
        Err(error) => Err(error),
    }
}

/// Accepts an image of exactly the required dimensions.
pub fn require_dimensions(image: &RgbaImage, width: u32, height: u32) -> (checked: Result<
    (),
    ResourceError,
>)
    ensures
        checked == if image.width == width && image.height == height {
            Ok::<(), ResourceError>(())
        } else {
            Err(
                ResourceError::Dimensions {
                    width: image.width,
                    height: image.height,
                    wanted_width: width,
                    wanted_height: height,
                },
            )
        },
{
    if image.width == width && image.height == height {
        Ok(())
    } else {
        Err(
            ResourceError::Dimensions {
                width: image.width,
                height: image.height,
                wanted_width: width,
                wanted_height: height,
            },
        )
    }
}

/// What is said of an image whose dimensions are not the wanted ones.
pub open spec fn dimensions_text(
    name: Seq<char>,
    width: u32,
    height: u32,
    wanted_width: u32,
    wanted_height: u32,
) -> Seq<char> {
    name + " must be "@ + text::decimal_text(wanted_width as nat) + "x"@ + text::decimal_text(
        wanted_height as nat,
    ) + ", got "@ + text::decimal_text(width as nat) + "x"@ + text::decimal_text(height as nat)
}

/// Says what is wrong with the dimensions of an image.
pub fn dimensions_message(
    name: &str,
    width: u32,
    height: u32,
    wanted_width: u32,
    wanted_height: u32,
) -> (message: String)
    ensures
        message@ == dimensions_text(name@, width, height, wanted_width, wanted_height),
{
    let mut message = name.to_owned();
    message.append(" must be ");
    message.append(text::decimal_string(wanted_width as u64).as_str());
    message.append("x");
    message.append(text::decimal_string(wanted_height as u64).as_str());
    message.append(", got ");
    message.append(text::decimal_string(width as u64).as_str());
    message.append("x");
    message.append(text::decimal_string(height as u64).as_str());
    message
}

/// What loading a resource as an image of fixed dimensions comes to.
pub open spec fn decodes_to_size(
    entry: Option<Seq<u8>>,
    width: u32,
    height: u32,
    loaded: Result<RgbaImage, ResourceError>,
) -> bool {
    match (entry, loaded) {
        (None, Err(error)) => error is Archive,
        (Some(encoded), loaded) => match (png_image(encoded), loaded) {
            (None, Err(error)) => error is Image,
            (Some(decoded), Err(error)) => {
                &&& (decoded.width, decoded.height) != (width, height)
                &&& error == ResourceError::Dimensions {
                    width: decoded.width,
                    height: decoded.height,
                    wanted_width: width,
                    wanted_height: height,
                }
            },
            (Some(decoded), Ok(image)) => {
                &&& (decoded.width, decoded.height) == (width, height)
                &&& image@ == decoded
                &&& image@.wf()
            },
            (None, Ok(_)) => false,
        },
        (None, Ok(_)) => false,
    }
}

/// Decodes a PNG resource that must have the given dimensions.
pub fn load_sized_png(archive: &[u8], resource_name: &str, width: u32, height: u32) -> (loaded:
    Result<RgbaImage, ResourceError>)
    ensures
        decodes_to_size(zip_entry(archive@, resource_name@), width, height, loaded),
{
    let image = match load_rgba_png(archive, resource_name) {
        Ok(image) => image,
        Err(error) => return Err(error),
    };
    match require_dimensions(&image, width, height) {
        Ok(()) => Ok(image),
        Err(error) => Err(error),
    }
}

/// The text that an entry holds, where it is there and holds one.
pub open spec fn text_entry(entry: Option<Seq<u8>>) -> Option<Seq<char>> {
    match entry {
        None => None,
        Some(bytes) => if utf8::valid_utf8(bytes) {
            Some(utf8::decode_utf8(bytes))
        } else {
            None
        },
    }
}

/// Whether an entry is there and decodes to an image of the given dimensions.
pub open spec fn sized_entry(entry: Option<Seq<u8>>, width: u32, height: u32) -> bool {
    match entry {
        None => false,
        Some(encoded) => match png_image(encoded) {
            None => false,
            Some(image) => image.width == width && image.height == height,
        },
    }
}

/// The image with its rows in the opposite order.
pub open spec fn flipped(image: ImageView) -> ImageView {
    let stride = 4 * image.width;
    ImageView {
        pixels: Seq::new(
            image.pixels.len(),
            |i: int| image.pixels[(image.height - 1 - i / stride) * stride + i % stride],
        ),
        ..image
    }
}

proof fn lemma_row(width: int, height: int, row: int, column: int)
    requires
        0 <= row < height,
        0 <= column < 4 * width,
    ensures
        0 <= row * (4 * width) + column < 4 * width * height,
        (row * (4 * width) + column) / (4 * width) == row,
        (row * (4 * width) + column) % (4 * width) == column,
{
    let stride = 4 * width;
    assert(row * stride + column < stride * height) by (nonlinear_arith)
        requires
            0 <= row < height,
            0 <= column < stride,
    ;
    assert(0 <= row * stride) by (nonlinear_arith)
        requires
            0 <= row,
            0 <= stride,
    ;
    vstd::arithmetic::div_mod::lemma_fundamental_div_mod_converse(
        row * stride + column,
        stride,
        row,
        column,
    );
}

/// Turns an image upside down.
pub fn flip_vertical(image: RgbaImage) -> (turned: RgbaImage)
    requires
        image@.wf(),
    ensures
        turned@ == flipped(image@),
        turned@.wf(),
{
    let mut pixels: Vec<u8> = Vec::new();
    let count: usize = image.pixels.len();
    let ghost stride = 4 * image.width;
    let mut row: u32 = image.height;
    let row_bytes: u64 = 4 * image.width as u64;
    while row > 0
        invariant
            row <= image.height,
            image@.wf(),
            stride == 4 * image.width,
            row_bytes == stride,
            count == image.pixels@.len(),
            pixels@.len() == (image.height - row) * stride,
            forall|i: int|
                0 <= i < pixels@.len() ==> #[trigger] pixels@[i] == flipped(image@).pixels[i],
        decreases row,
    {
        let ghost done = pixels@.len() as int;
        row = row - 1;
        let mut column: u64 = 0;
        assert(row * stride <= stride * image.height && row * stride + stride <= stride
            * image.height && stride * image.height == 4 * image.width * image.height)
            by (nonlinear_arith)
            requires
                0 <= row < image.height,
                0 <= stride,
                stride == 4 * image.width,
        ;
        while column < row_bytes
            invariant
                row < image.height,
                image@.wf(),
                stride == 4 * image.width,
                row_bytes == stride,
                column <= row_bytes,
                count == image.pixels@.len(),
                count <= usize::MAX,
                row * stride + stride <= image.pixels@.len(),
                done == (image.height - 1 - row) * stride,
                pixels@.len() == done + column,
                forall|i: int|
                    0 <= i < pixels@.len() ==> #[trigger] pixels@[i] == flipped(image@).pixels[i],
            decreases row_bytes - column,
        {
            proof {
                lemma_row(image.width as int, image.height as int, row as int, column as int);
                lemma_row(
                    image.width as int,
                    image.height as int,
                    image.height - 1 - row,
                    column as int,
                );
            }
            let at: usize = (row as u64 * row_bytes + column) as usize;
            pixels.push(image.pixels[at]);
            column = column + 1;
        }
        assert(done + stride == (image.height - row) * stride) by (nonlinear_arith)
            requires
                done == (image.height - 1 - row) * stride,
        ;
    }
    assert(image.height * stride == 4 * image.width * image.height) by (nonlinear_arith)
        requires
            stride == 4 * image.width,
    ;
    assert(pixels@ == flipped(image@).pixels);
    RgbaImage { width: image.width, height: image.height, pixels }
}

/// Turning an image upside down twice gives it back.
pub proof fn lemma_flipping_twice(image: ImageView)
    requires
        image.wf(),
    ensures
        flipped(flipped(image)) == image,
{
    let stride = 4 * image.width;
    let width = image.width as int;
    let height = image.height as int;
    assert forall|i: int| 0 <= i < image.pixels.len() implies #[trigger] flipped(
        flipped(image),
    ).pixels[i] == image.pixels[i] by {
        if stride == 0 {
            assert(4 * width * height == 0) by (nonlinear_arith)
                requires
                    4 * width == 0,
            ;
        }
        let row = i / stride;
        let column = i % stride;
        vstd::arithmetic::div_mod::lemma_fundamental_div_mod(i, stride);
        assert(0 <= row < height && i == row * stride + column) by (nonlinear_arith)
            requires
                i == stride * row + column,
                0 <= column < stride,
                0 <= i < 4 * width * height,
                stride == 4 * width,
                stride > 0,
        ;
        lemma_row(width, height, row, column);
        lemma_row(width, height, height - 1 - row, column);
    }
    assert(flipped(flipped(image)).pixels == image.pixels);
}

} // verus!
