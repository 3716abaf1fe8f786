//! A panorama that turns around the viewer: which one, and the images of its six faces.

use vstd::prelude::*;
use vstd::string::StringExecFns;

use crate::random;
use crate::resources;
use crate::resources::{ResourceError, RgbaImage};
use crate::text;

verus! {

pub const CUBEMAP_FACE_COUNT: usize = 6;

pub const CUBEMAP_FACE_SIZE: u32 = 1_024;

#[derive(Clone, Copy, Debug, PartialEq, Eq, Structural)]
pub enum PanoramaError {
    NoNames,
    InvalidName,
}

/// What is said of an error.
pub open spec fn panorama_text(error: PanoramaError) -> Seq<char> {
    match error {
        PanoramaError::NoNames => "panoramas.txt contains no panorama names"@,
        PanoramaError::InvalidName => "panoramas.txt contains an invalid panorama name"@,
    }
}

impl PanoramaError {
    /// What is said of the error.
    pub fn message(self) -> (message: String)
        ensures
            message@ == panorama_text(self),
    {
        match self {
            PanoramaError::NoNames => "panoramas.txt contains no panorama names".to_owned(),
            PanoramaError::InvalidName => {
                "panoramas.txt contains an invalid panorama name".to_owned()
            },
        }
    }
}

/// The names that stand in lines of their own, without the white space around them.
pub open spec fn names_of(lines: Seq<Seq<char>>) -> Seq<Seq<char>>
    decreases lines.len(),
{
    if lines.len() == 0 {
        Seq::empty()
    } else {
        let before = names_of(lines.drop_last());
        if text::trimmed(lines.last()).len() > 0 {
            before.push(text::trimmed(lines.last()))
        } else {
            before
        }
    }
}

/// A name that stays within its directory.
pub open spec fn is_plain(name: Seq<char>) -> bool {
    forall|i: int| 0 <= i < name.len() ==> #[trigger] name[i] != '/' && name[i] != '\\'
}

/// The panoramas of a list.
pub open spec fn listed_names(list: Seq<char>) -> Result<Seq<Seq<char>>, PanoramaError> {
    let names = names_of(text::lines(list));
    if names.len() == 0 {
        Err(PanoramaError::NoNames)
    } else if exists|i: int| 0 <= i < names.len() && !is_plain(#[trigger] names[i]) {
        Err(PanoramaError::InvalidName)
    } else {
        Ok(names)
    }
}

fn has_plain_name(name: &Vec<char>) -> (plain: bool)
    ensures
        plain == is_plain(name@),
{
    let mut index: usize = 0;
    while index < name.len()
        invariant
            index <= name@.len(),
            forall|i: int| 0 <= i < index ==> #[trigger] name@[i] != '/' && name@[i] != '\\',
        decreases name@.len() - index,
    {
        if name[index] == '/' || name[index] == '\\' {
            return false;
        }
        index = index + 1;
    }
    true
}

/// Reads the list of panoramas.
pub fn panorama_names(list: &str) -> (names: Result<Vec<String>, PanoramaError>)
    ensures
        match (names, listed_names(list@)) {
            (Ok(names), Ok(listed)) => names@.map_values(|name: String| name@) == listed,
            (Err(error), Err(fault)) => error == fault,
            _ => false,
        },
{
    let lines = text::split_lines(list);
    let ghost all = text::texts(lines@);
    assert(all.len() == lines@.len());
    let mut names: Vec<String> = Vec::new();
    let mut plain = true;
    let mut index: usize = 0;
    assert(all.take(0) == Seq::<Seq<char>>::empty());
    assert(names@.map_values(|name: String| name@) == names_of(all.take(0)));
    while index < lines.len()
        invariant
            index <= lines@.len(),
            all == text::texts(lines@),
            all.len() == lines@.len(),
            names@.map_values(|name: String| name@) == names_of(all.take(index as int)),
            plain == forall|i: int|
                0 <= i < names@.len() ==> is_plain(
                    #[trigger] names_of(all.take(index as int))[i],
                ),
        decreases lines@.len() - index,
    {
        let ghost before = names@;
        let ghost known = names_of(all.take(index as int));
        proof {
            assert(all.take(index + 1).drop_last() == all.take(index as int));
            assert(all.take(index + 1).last() == lines@[index as int]@);
        }
        let name = text::trim(&lines[index]);
        if name.len() > 0 {
            let ghost found = names_of(all.take(index + 1));
            let is_plain_name = has_plain_name(&name);
            let spelled = text::string_of(name.as_slice());
            names.push(spelled);
            proof {
                assert(names@.map_values(|name: String| name@) == before.map_values(
                    |name: String| name@,
                ).push(name@));
                assert(found == known.push(name@));
                assert(forall|i: int| 0 <= i < known.len() ==> found[i] == known[i]);
                assert(found[known.len() as int] == name@);
                assert(known.len() == before.len());
            }
            plain = plain && is_plain_name;
        }
        index = index + 1;
    }
    assert(all.take(all.len() as int) == all);
    assert(names@.map_values(|name: String| name@).len() == names@.len());
    if names.len() == 0 {
        return Err(PanoramaError::NoNames);
    }
    if !plain {
        return Err(PanoramaError::InvalidName);
    }
    Ok(names)
}

/// Draws one of the panoramas. Nothing can be drawn where there are none.
pub fn choose_panorama(names: &Vec<String>) -> (chosen: Option<&String>)
    ensures
        match chosen {
            Some(name) => names@.contains(*name),
            None => names@.len() == 0,
        },
{
    if names.len() == 0 {
        return None;
    }
    Some(&names[random::below(names.len())])
}

/// The number of the file that holds the face of a cube map layer: the files count four sides, the
/// top and the bottom, the layers right, left, top, bottom, front and back.
pub open spec fn source_face(layer: int) -> nat {
    if layer == 0 {
        1
    } else if layer == 1 {
        3
    } else if layer == 2 {
        4
    } else if layer == 3 {
        5
    } else if layer == 4 {
        0
    } else {
        2
    }
}

/// The resource that holds a face of a panorama.
pub open spec fn face_name(panorama: Seq<char>, layer: int) -> Seq<char> {
    "panoramas/"@ + panorama + "/panorama_"@ + text::decimal_text(source_face(layer)) + ".png"@
}

/// Spells the name of the resource that holds a face of a panorama.
pub fn face_resource(panorama: &str, layer: usize) -> (name: String)
    requires
        layer < CUBEMAP_FACE_COUNT,
    ensures
        name@ == face_name(panorama@, layer as int),
{
    let source: u64 = if layer == 0 {
        1
    } else if layer == 1 {
        3
    } else if layer == 2 {
        4
    } else if layer == 3 {
        5
    } else if layer == 4 {
        0
    } else {
        2
    };
    let mut name: String = "panoramas/".to_owned();
    name.append(panorama);
    name.append("/panorama_");
    let number = text::decimal_string(source);
    name.append(number.as_str());
    name.append(".png");
    name
}

/// Every file of a panorama belongs to exactly one layer.
pub proof fn lemma_every_face_is_used_once(first: int, second: int)
    requires
        0 <= first < second < CUBEMAP_FACE_COUNT,
    ensures
        source_face(first) < CUBEMAP_FACE_COUNT,
        source_face(second) < CUBEMAP_FACE_COUNT,
        source_face(first) != source_face(second),
{
}

/// The face that could not be loaded, and why.
#[derive(Debug)]
pub struct FaceError {
    pub layer: usize,
    pub resource: String,
    pub error: ResourceError,
}

/// What loading the face of a layer comes to.
pub open spec fn loads_face(
    archive: Seq<u8>,
    panorama: Seq<char>,
    layer: int,
    loaded: Result<RgbaImage, ResourceError>,
) -> bool {
    resources::decodes_to_size(
        resources::zip_entry(archive, face_name(panorama, layer)),
        CUBEMAP_FACE_SIZE,
        CUBEMAP_FACE_SIZE,
        loaded,
    )
}

/// Loads the six faces of a panorama in the order of the layers. The first face that cannot be
/// loaded ends it.
pub fn load_faces(archive: &[u8], panorama: &str) -> (faces: Result<Vec<RgbaImage>, FaceError>)
    ensures
        match faces {
            Ok(faces) => {
                &&& faces@.len() == CUBEMAP_FACE_COUNT
                &&& forall|layer: int|
                    0 <= layer < CUBEMAP_FACE_COUNT ==> loads_face(
                        archive@,
                        panorama@,
                        layer,
                        Ok(#[trigger] faces@[layer]),
                    )
            },
            Err(fault) => {
                &&& fault.layer < CUBEMAP_FACE_COUNT
                &&& fault.resource@ == face_name(panorama@, fault.layer as int)
                &&& loads_face(archive@, panorama@, fault.layer as int, Err(fault.error))
                &&& forall|layer: int|
                    0 <= layer < fault.layer ==> #[trigger] has_face(archive@, panorama@, layer)
            },
        },
{
    let mut faces: Vec<RgbaImage> = Vec::new();
    let mut layer: usize = 0;
    while layer < CUBEMAP_FACE_COUNT
        invariant
            layer <= CUBEMAP_FACE_COUNT,
            faces@.len() == layer,
            forall|i: int|
                0 <= i < layer ==> loads_face(archive@, panorama@, i, Ok(#[trigger] faces@[i])),
            forall|i: int| 0 <= i < layer ==> #[trigger] has_face(archive@, panorama@, i),
        decreases CUBEMAP_FACE_COUNT - layer,
    {
        let name = face_resource(panorama, layer);
        match resources::load_sized_png(
            archive,
            name.as_str(),
            CUBEMAP_FACE_SIZE,
            CUBEMAP_FACE_SIZE,
        ) {
            Ok(image) => faces.push(image),
            Err(error) => return Err(FaceError { layer, resource: name, error }),
        }
        layer = layer + 1;
    }
    Ok(faces)
}

/// Whether the archive has the face of a layer, with the required dimensions.
pub open spec fn has_face(archive: Seq<u8>, panorama: Seq<char>, layer: int) -> bool {
    resources::sized_entry(
        resources::zip_entry(archive, face_name(panorama, layer)),
        CUBEMAP_FACE_SIZE,
        CUBEMAP_FACE_SIZE,
    )
}

/// What the GPU draws, after [`crate::modules::SRGB_TO_LINEAR`].
pub const SHADER: &'static str = r#"
struct CameraUniforms {
    view: mat4x4<f32>,
};

struct VertexOutput {
    @builtin(position) position: vec4<f32>,
    @location(0) beam: vec3<f32>,
};

@group(0) @binding(0) var<uniform> uniforms: CameraUniforms;
@group(0) @binding(1) var panorama: texture_cube<f32>;
@group(0) @binding(2) var panorama_sampler: sampler;

@vertex
fn vs_main(@builtin(vertex_index) vertex_index: u32) -> VertexOutput {
    let positions = array<vec2<f32>, 6>(
        vec2<f32>(-1.0, -1.0), vec2<f32>(1.0, -1.0), vec2<f32>(-1.0, 1.0),
        vec2<f32>(1.0, -1.0), vec2<f32>(1.0, 1.0), vec2<f32>(-1.0, 1.0),
    );
    let position = positions[vertex_index];
    var output: VertexOutput;
    output.position = vec4<f32>(position, 0.0, 1.0);
    output.beam = (uniforms.view * vec4<f32>(position, 1.0, 1.0)).xyz;
    return output;
}

@fragment
fn fs_srgb(input: VertexOutput) -> @location(0) vec4<f32> {
    let color = textureSample(panorama, panorama_sampler, input.beam);
    return vec4<f32>(to_linear(color.rgb), 1.0);
}

@fragment
fn fs_unorm(input: VertexOutput) -> @location(0) vec4<f32> {
    return vec4<f32>(textureSample(panorama, panorama_sampler, input.beam).rgb, 1.0);
}
"#;

} // verus!
