//! Where the assets come from, and what is read of them.

use vstd::prelude::*;
use vstd::utf8;

use crate::resources;
use crate::resources::{AssetSource, ResourceError, RgbaImage};

verus! {

/// A relative path comes below its directory, with exactly one slash added where the directory does
/// not end in one and is not empty. An absolute path stays what it is.
pub proof fn lemma_a_path_comes_below_its_directory(
    root: &[u8],
    relative: &str,
    path: Vec<u8>,
)
    requires
        call_ensures(resources::join_path, (root, relative), path),
    ensures
        ({
            let tail = utf8::encode_utf8(relative@);
            &&& tail.len() > 0 && tail[0] == 47 ==> path@ == tail
            &&& !(tail.len() > 0 && tail[0] == 47) ==> path@.len() >= root@.len() + tail.len()
                && path@.take(root@.len() as int) == root@ && path@.skip(path@.len() - tail.len())
                == tail
            &&& !(tail.len() > 0 && tail[0] == 47) && root@.len() > 0 && root@[root@.len() - 1]
                != 47 ==> path@.len() == root@.len() + 1 + tail.len() && path@[root@.len() as int]
                == 47
            &&& !(tail.len() > 0 && tail[0] == 47) && (root@.len() == 0 || root@[root@.len() - 1]
                == 47) ==> path@.len() == root@.len() + tail.len()
        }),
{
    let tail = utf8::encode_utf8(relative@);
    if !(tail.len() > 0 && tail[0] == 47) {
        assert(path@.take(root@.len() as int) =~= root@);
        assert(path@.skip(path@.len() - tail.len()) =~= tail);
    }
}

/// The path that is configured for an asset goes before the assets root, the root before what is
/// embedded, and what is embedded before the directory `assets`. What goes before decides alone.
pub proof fn lemma_which_source_goes_first(
    dedicated: Option<Vec<u8>>,
    root: Option<Vec<u8>>,
    embedded: Option<&'static [u8]>,
    relative: &str,
    source: AssetSource,
    directory: &[u8],
    below: Vec<u8>,
    fallback_directory: &[u8],
    fallback: Vec<u8>,
)
    requires
        call_ensures(resources::asset_source, (dedicated, &root, embedded, relative), source),
        root is Some ==> directory@ == root->0@,
        call_ensures(resources::join_path, (directory, relative), below),
        fallback_directory@ == utf8::encode_utf8("assets"@),
        call_ensures(resources::join_path, (fallback_directory, relative), fallback),
    ensures
        dedicated is Some ==> source is Path && source->Path_0@ == dedicated->0@,
        dedicated is None && root is Some ==> source is Path && source->Path_0@ == below@,
        dedicated is None && root is None && embedded is Some ==> source is Embedded
            && source->Embedded_0@ == embedded->0@,
        dedicated is None && root is None && embedded is None ==> source is Path
            && source->Path_0@ == fallback@,
{
}

/// With the paths already joined, the same order holds.
pub proof fn lemma_which_path_goes_first(
    dedicated: Option<Vec<u8>>,
    assets: Option<Vec<u8>>,
    embedded: Option<&'static [u8]>,
    relative: &str,
    source: AssetSource,
    fallback_directory: &[u8],
    fallback: Vec<u8>,
)
    requires
        call_ensures(resources::select_source, (dedicated, assets, embedded, relative), source),
        fallback_directory@ == utf8::encode_utf8("assets"@),
        call_ensures(resources::join_path, (fallback_directory, relative), fallback),
    ensures
        dedicated is Some ==> source is Path && source->Path_0@ == dedicated->0@,
        dedicated is None && assets is Some ==> source is Path && source->Path_0@ == assets->0@,
        dedicated is None && assets is None && embedded is Some ==> source is Embedded
            && source->Embedded_0@ == embedded->0@,
        dedicated is None && assets is None && embedded is None ==> source is Path
            && source->Path_0@ == fallback@,
{
}

/// An image of an entry is the image that the entry's bytes decode to. It is taken exactly if both
/// of its dimensions are the wanted ones, and refused with both otherwise.
pub proof fn lemma_an_image_must_have_its_size(
    archive: &[u8],
    name: &str,
    width: u32,
    height: u32,
    entry: Result<Vec<u8>, ResourceError>,
    encoded: &[u8],
    decoded: Result<RgbaImage, ResourceError>,
    loaded: Result<RgbaImage, ResourceError>,
    sized: Result<RgbaImage, ResourceError>,
)
    requires
        call_ensures(resources::load_resource, (archive, name), entry),
        entry is Ok ==> encoded@ == entry->Ok_0@,
        call_ensures(resources::decode_rgba_png, (encoded,), decoded),
        call_ensures(resources::load_rgba_png, (archive, name), loaded),
        call_ensures(resources::load_sized_png, (archive, name, width, height), sized),
    ensures
        entry is Err ==> loaded is Err && loaded->Err_0 is Archive && sized is Err
            && sized->Err_0 is Archive,
        entry is Ok && decoded is Err ==> loaded is Err && loaded->Err_0 is Image && sized is Err
            && sized->Err_0 is Image,
        entry is Ok && decoded is Ok ==> loaded is Ok && loaded->Ok_0@ == decoded->Ok_0@,
        entry is Ok && decoded is Ok ==> (sized is Ok <==> decoded->Ok_0.width == width
            && decoded->Ok_0.height == height),
        sized is Ok ==> sized->Ok_0@ == decoded->Ok_0@,
        entry is Ok && decoded is Ok && sized is Err ==> sized->Err_0 == (
        ResourceError::Dimensions {
            width: decoded->Ok_0.width,
            height: decoded->Ok_0.height,
            wanted_width: width,
            wanted_height: height,
        }),
        decoded is Ok ==> decoded->Ok_0.pixels@.len() == 4 * decoded->Ok_0.width
            * decoded->Ok_0.height,
{
}

/// The check of the dimensions looks at both, each against its own.
pub proof fn lemma_both_dimensions_are_checked(
    image: RgbaImage,
    width: u32,
    height: u32,
    checked: Result<(), ResourceError>,
)
    requires
        call_ensures(resources::require_dimensions, (&image, width, height), checked),
    ensures
        checked is Ok <==> image.width == width && image.height == height,
        checked is Err ==> checked->Err_0 == (ResourceError::Dimensions {
            width: image.width,
            height: image.height,
            wanted_width: width,
            wanted_height: height,
        }),
{
}

/// A text entry is read exactly if its bytes are UTF-8, and encoding it gives the bytes again.
pub proof fn lemma_a_text_entry_encodes_to_its_bytes(
    archive: &[u8],
    name: &str,
    entry: Result<Vec<u8>, ResourceError>,
    loaded: Result<String, ResourceError>,
)
    requires
        call_ensures(resources::load_resource, (archive, name), entry),
        call_ensures(resources::load_utf8, (archive, name), loaded),
    ensures
        entry is Err ==> loaded is Err && loaded->Err_0 is Archive,
        entry is Ok ==> (loaded is Ok <==> utf8::valid_utf8(entry->Ok_0@)),
        entry is Ok && loaded is Err ==> loaded->Err_0 is Text,
        loaded is Ok ==> utf8::encode_utf8(loaded->Ok_0@) == entry->Ok_0@,
{
    if entry is Ok && utf8::valid_utf8(entry->Ok_0@) {
        utf8::decode_utf8_encode_utf8(entry->Ok_0@);
    }
}

/// Turning an image upside down puts every row where its mirror row was and leaves the order within
/// the row. Turned twice, the image is as it was.
pub proof fn lemma_a_flip_mirrors_the_rows(
    image: RgbaImage,
    turned: RgbaImage,
    again: RgbaImage,
    row: int,
    column: int,
)
    requires
        image@.wf(),
        call_ensures(resources::flip_vertical, (image,), turned),
        call_ensures(resources::flip_vertical, (turned,), again),
        0 <= row < image.height,
        0 <= column < 4 * image.width,
    ensures
        turned.width == image.width && turned.height == image.height,
        turned.pixels@.len() == image.pixels@.len(),
        turned.pixels@[row * (4 * image.width) + column] == image.pixels@[(image.height - 1 - row)
            * (4 * image.width) + column],
        again@ == image@,
{
    let stride = 4 * image.width;
    assert(0 <= row * stride + column < 4 * image.width * image.height) by (nonlinear_arith)
        requires
            0 <= row < image.height,
            0 <= column < stride,
            stride == 4 * image.width,
    ;
    vstd::arithmetic::div_mod::lemma_fundamental_div_mod_converse(
        row * stride + column,
        stride,
        row,
        column,
    );
    resources::lemma_flipping_twice(image@);
}

} // verus!
