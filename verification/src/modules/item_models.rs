//! The item models: their list, their files, and the triangles that a file describes.

use vstd::prelude::*;
use vstd::slice::{slice_subrange, slice_to_vec};
use vstd::utf8;

use crate::bytes;
use crate::text;

verus! {

pub const MODEL_COUNT: usize = 1_044;

pub const MODEL_ATLAS_DIMENSION: u32 = 1_024;

/// The lines that are not empty.
pub open spec fn nonempty(lines: Seq<Seq<char>>) -> Seq<Seq<char>>
    decreases lines.len(),
{
    if lines.len() == 0 {
        Seq::empty()
    } else {
        let before = nonempty(lines.drop_last());
        if lines.last().len() > 0 {
            before.push(lines.last())
        } else {
            before
        }
    }
}

/// The directory in which every model stands.
pub open spec fn model_directory() -> Seq<char> {
    "item_models/"@
}

pub open spec fn in_model_directory(name: Seq<char>) -> bool {
    name.len() >= model_directory().len() && name.take(model_directory().len() as int)
        == model_directory()
}

/// Whether the names are those of the expected number of different models.
pub open spec fn valid_names(names: Seq<Seq<char>>) -> bool {
    &&& names.len() == MODEL_COUNT
    &&& names.no_duplicates()
    &&& forall|i: int| 0 <= i < names.len() ==> in_model_directory(#[trigger] names[i])
}

fn same_chars(left: &Vec<char>, right: &Vec<char>) -> (same: bool)
    ensures
        same == (left@ == right@),
{
    if left.len() != right.len() {
        return false;
    }
    let mut index: usize = 0;
    while index < left.len()
        invariant
            index <= left@.len(),
            left@.len() == right@.len(),
            forall|i: int| 0 <= i < index ==> left@[i] == right@[i],
        decreases left@.len() - index,
    {
        if left[index] != right[index] {
            return false;
        }
        index = index + 1;
    }
    assert(left@ == right@);
    true
}

fn stands_in_directory(name: &Vec<char>, directory: &Vec<char>) -> (stands: bool)
    requires
        directory@ == model_directory(),
    ensures
        stands == in_model_directory(name@),
{
    if name.len() < directory.len() {
        return false;
    }
    let mut index: usize = 0;
    while index < directory.len()
        invariant
            index <= directory@.len() <= name@.len(),
            directory@ == model_directory(),
            forall|i: int| 0 <= i < index ==> name@[i] == directory@[i],
        decreases directory@.len() - index,
    {
        if name[index] != directory[index] {
            assert(name@.take(directory@.len() as int)[index as int] != directory@[index as int]);
            return false;
        }
        index = index + 1;
    }
    assert(name@.take(directory@.len() as int) == directory@);
    true
}

fn occurs_before(names: &Vec<Vec<char>>, index: usize) -> (occurs: bool)
    requires
        index < names@.len(),
    ensures
        occurs == exists|i: int| 0 <= i < index && (#[trigger] names@[i])@ == names@[index as int]@,
{
    let mut other: usize = 0;
    while other < index
        invariant
            other <= index < names@.len(),
            forall|i: int| 0 <= i < other ==> (#[trigger] names@[i])@ != names@[index as int]@,
        decreases index - other,
    {
        if same_chars(&names[other], &names[index]) {
            return true;
        }
        other = other + 1;
    }
    false
}

/// Who reads the list of models. Each says in its own words that the list is not valid.
#[derive(Clone, Copy, Debug, PartialEq, Eq, Structural)]
pub enum ItemReader {
    Pop,
    Bounce,
}

/// What a reader says of a list that is not valid.
pub open spec fn manifest_text(reader: ItemReader) -> Seq<char> {
    match reader {
        ItemReader::Pop => "invalid pop_items.txt manifest"@,
        ItemReader::Bounce => "pop_items.txt must contain 1044 unique item_models paths"@,
    }
}

impl ItemReader {
    /// What the reader says of a list that is not valid.
    pub fn manifest_message(self) -> (message: &'static str)
        ensures
            message@ == manifest_text(self),
    {
        match self {
            ItemReader::Pop => "invalid pop_items.txt manifest",
            ItemReader::Bounce => "pop_items.txt must contain 1044 unique item_models paths",
        }
    }
}

/// Reads the list of models. Nothing comes back where the list is not valid.
pub fn load_manifest(list: &str) -> (names: Option<Vec<String>>)
    ensures
        match names {
            Some(names) => {
                &&& valid_names(nonempty(text::lines(list@)))
                &&& names@.map_values(|name: String| name@) == nonempty(text::lines(list@))
            },
            None => !valid_names(nonempty(text::lines(list@))),
        },
{
    let lines = text::split_lines(list);
    let ghost all = text::texts(lines@);
    assert(all.len() == lines@.len());
    let directory = text::chars_of("item_models/");
    let mut kept: Vec<Vec<char>> = Vec::new();
    let mut index: usize = 0;
    assert(text::texts(kept@) == nonempty(all.take(0)));
    while index < lines.len()
        invariant
            index <= lines@.len(),
            all == text::texts(lines@),
            all.len() == lines@.len(),
            text::texts(kept@) == nonempty(all.take(index as int)),
        decreases lines@.len() - index,
    {
        let ghost before = kept@;
        proof {
            assert(all.take(index + 1).drop_last() == all.take(index as int));
            assert(all.take(index + 1).last() == lines@[index as int]@);
        }
        if lines[index].len() > 0 {
            let line = slice_to_vec(lines[index].as_slice());
            kept.push(line);
            assert(text::texts(kept@) == text::texts(before).push(line@));
        }
        index = index + 1;
    }
    assert(all.take(all.len() as int) == all);
    let ghost found = text::texts(kept@);
    assert(found.len() == kept@.len());
    if kept.len() != MODEL_COUNT {
        return None;
    }
    let mut names: Vec<String> = Vec::new();
    let mut place: usize = 0;
    while place < kept.len()
        invariant
            place <= kept@.len(),
            found == text::texts(kept@),
            found.len() == kept@.len(),
            found == nonempty(text::lines(list@)),
            directory@ == model_directory(),
            names@.len() == place,
            forall|i: int| 0 <= i < place ==> (#[trigger] names@[i])@ == found[i],
            forall|i: int| 0 <= i < place ==> in_model_directory(#[trigger] found[i]),
            forall|i: int, j: int| 0 <= i < j < place ==> found[i] != found[j],
        decreases kept@.len() - place,
    {
        assert(found[place as int] == kept@[place as int]@);
        if !stands_in_directory(&kept[place], &directory) {
            return None;
        }
        if occurs_before(&kept, place) {
            proof {
                let i = choose|i: int|
                    0 <= i < place && (#[trigger] kept@[i])@ == kept@[place as int]@;
                assert(found[i] == found[place as int]);
            }
            return None;
        }
        proof {
            assert forall|i: int| 0 <= i < place implies found[i] != found[place as int] by {
                assert(kept@[i]@ != kept@[place as int]@);
            }
        }
        names.push(text::string_of(kept[place].as_slice()));
        place = place + 1;
    }
    assert(names@.map_values(|name: String| name@) == found);
    Some(names)
}

/// A corner of a face: the place of its position, and those of its texture coordinates and its
/// normal where it has them.
pub type Corner = (usize, Option<usize>, Option<usize>);

/// What a model file describes: positions, texture coordinates and normals, each scalar by its
/// bits, and the faces of the groups of its objects.
pub struct ObjMesh {
    pub positions: Vec<(u32, u32, u32)>,
    pub textures: Vec<(u32, u32)>,
    pub normals: Vec<(u32, u32, u32)>,
    pub objects: Vec<Vec<Vec<Vec<Corner>>>>,
}

#[verifier::ext_equal]
pub struct MeshView {
    pub positions: Seq<(u32, u32, u32)>,
    pub textures: Seq<(u32, u32)>,
    pub normals: Seq<(u32, u32, u32)>,
    pub objects: Seq<Seq<Seq<Seq<Corner>>>>,
}

impl View for ObjMesh {
    type V = MeshView;

    open spec fn view(&self) -> MeshView {
        MeshView {
            positions: self.positions@,
            textures: self.textures@,
            normals: self.normals@,
            objects: self.objects.deep_view(),
        }
    }
}

#[verifier::external_type_specification]
#[verifier::external_body]
pub struct ExObjError(obj::ObjError);

#[verifier::external_type_specification]
#[verifier::external_body]
pub struct ExObjData(obj::ObjData);

/// The mesh that a model file describes, where it can be parsed.
pub uninterp spec fn obj_mesh(source: Seq<u8>) -> Option<MeshView>;

/// The mesh that parsed data holds.
pub uninterp spec fn mesh_in(data: obj::ObjData) -> MeshView;

/// Whether a byte continues a character.
pub open spec fn continues(byte: u8) -> bool {
    0x80 <= byte < 0xc0
}

/// Whether a line stands between two places of a file, without the newlines around it.
pub open spec fn is_line(source: Seq<u8>, start: int, end: int) -> bool {
    &&& 0 <= start <= end <= source.len()
    &&& start == 0 || source[start - 1] == 10
    &&& end == source.len() || source[end] == 10
    &&& forall|i: int| start <= i < end ==> #[trigger] source[i] != 10
}

/// Whether a line names an object whose name begins inside its first character, or a group whose
/// name begins inside one of its first two characters. White space that takes several bytes makes
/// such lines.
pub open spec fn cuts_a_character(line: Seq<u8>) -> bool {
    let words = text::words(utf8::decode_utf8(line));
    &&& utf8::valid_utf8(line)
    &&& line.len() > 2 && words.len() > 0
    &&& (words[0] == "o"@ && continues(line[1])) || (words[0] == "g"@ && continues(line[2]))
}

/// Whether the name of every group and every object can be cut out of its line.
pub open spec fn has_clean_lines(source: Seq<u8>) -> bool {
    forall|start: int, end: int| #[trigger]
        is_line(source, start, end) ==> !cuts_a_character(source.subrange(start, end))
}

/// Parses a model file with `obj::ObjData::load_buf`. The result depends on the bytes alone. The
/// parser cuts the names of groups and objects out of their lines by bytes and panics where it
/// would cut through a character, so such lines are left out.
#[verifier::external_body]
fn parse_obj(source: &[u8]) -> (parsed: Result<obj::ObjData, obj::ObjError>)
    requires
        has_clean_lines(source@),
    ensures
        match parsed {
            Ok(data) => obj_mesh(source@) == Some(mesh_in(data)),
            Err(_) => obj_mesh(source@) is None,
        },
{
    obj::ObjData::load_buf(source)
}

/// Reads the fields `position`, `texture` and `normal` of `obj::ObjData`, each scalar by its bits.
#[verifier::external_body]
fn mesh_points(data: &obj::ObjData) -> (points: (
    Vec<(u32, u32, u32)>,
    Vec<(u32, u32)>,
    Vec<(u32, u32, u32)>,
))
    ensures
        points.0@ == mesh_in(*data).positions,
        points.1@ == mesh_in(*data).textures,
        points.2@ == mesh_in(*data).normals,
{
    (
        data.position.iter().map(|p| p.map(|x| x.to_bits()).into()).collect(),
        data.texture.iter().map(|t| t.map(|x| x.to_bits()).into()).collect(),
        data.normal.iter().map(|n| n.map(|x| x.to_bits()).into()).collect(),
    )
}

/// Reads the field `objects` of `obj::ObjData`: the corners of the faces of their groups.
#[verifier::external_body]
fn mesh_faces(data: &obj::ObjData) -> (objects: Vec<Vec<Vec<Vec<Corner>>>>)
    ensures
        objects.deep_view() == mesh_in(*data).objects,
{
    let face = |f: &obj::SimplePolygon| f.0.iter().map(|c| (c.0, c.1, c.2)).collect();
    let group = |g: &obj::Group| g.polys.iter().map(face).collect();
    let object = |o: &obj::Object| o.groups.iter().map(group).collect();
    data.objects.iter().map(object).collect()
}

/// Why a model file cannot be used.
#[derive(Debug)]
pub enum ModelError {
    Parse(obj::ObjError),
    Mesh(MeshError),
}

/// What is wrong with the faces of a mesh.
#[derive(Clone, Copy, Debug, PartialEq, Eq, Structural)]
pub enum MeshError {
    /// A face has fewer than three corners.
    ShortFace,
    MissingTexture,
    MissingNormal,
    /// A corner names a position, texture coordinates or a normal that is not there.
    OutOfRange,
    NoFaces,
}

/// What is said of an error.
pub open spec fn mesh_text(error: MeshError) -> Seq<char> {
    match error {
        MeshError::ShortFace => "face has fewer than three vertices"@,
        MeshError::MissingTexture => "missing texture index"@,
        MeshError::MissingNormal => "missing normal index"@,
        MeshError::OutOfRange => "index out of range"@,
        MeshError::NoFaces => "no triangle faces"@,
    }
}

impl MeshError {
    /// What is said of the error.
    pub fn message(self) -> (message: String)
        ensures
            message@ == mesh_text(self),
    {
        match self {
            MeshError::ShortFace => "face has fewer than three vertices".to_owned(),
            MeshError::MissingTexture => "missing texture index".to_owned(),
            MeshError::MissingNormal => "missing normal index".to_owned(),
            MeshError::OutOfRange => "index out of range".to_owned(),
            MeshError::NoFaces => "no triangle faces".to_owned(),
        }
    }
}

/// Parses a model file.
pub fn load_obj(source: &[u8]) -> (parsed: Result<ObjMesh, ModelError>)
    requires
        has_clean_lines(source@),
    ensures
        match parsed {
            Ok(mesh) => obj_mesh(source@) == Some(mesh@),
            Err(error) => error is Parse && obj_mesh(source@) is None,
        },
{
    match parse_obj(source) {
        Ok(data) => {
            let (positions, textures, normals) = mesh_points(&data);
            let objects = mesh_faces(&data);
            Ok(ObjMesh { positions, textures, normals, objects })
        },
        Err(error) => Err(ModelError::Parse(error)),
    }
}

fn is_continuation(byte: u8) -> (is: bool)
    ensures
        is == continues(byte),
{
    0x80 <= byte && byte < 0xc0
}

fn is_cut(line: &[u8]) -> (cut: bool)
    ensures
        cut == cuts_a_character(line@),
{
    if line.len() <= 2 || !(is_continuation(line[1]) || is_continuation(line[2])) {
        return false;
    }
    let decoded = match text::decode(slice_to_vec(line)) {
        Some(decoded) => decoded,
        None => return false,
    };
    let words = text::split_words(&text::chars_of(decoded.as_str()));
    let ghost spelled = text::texts(words@);
    assert(spelled.len() == words@.len());
    if words.len() == 0 {
        return false;
    }
    assert(spelled[0] == words@[0]@);
    let names_object = same_chars(&words[0], &text::chars_of("o"));
    let names_group = same_chars(&words[0], &text::chars_of("g"));
    (names_object && is_continuation(line[1])) || (names_group && is_continuation(line[2]))
}

/// Whether a model file can be handed to the parser.
pub fn can_parse(source: &[u8]) -> (clean: bool)
    ensures
        clean == has_clean_lines(source@),
{
    let total: usize = source.len();
    let mut start: usize = 0;
    loop
        invariant
            start <= total == source@.len(),
            start == 0 || source@[start - 1] == 10,
            forall|before: int, end: int| #[trigger]
                is_line(source@, before, end) && before < start ==> !cuts_a_character(
                    source@.subrange(before, end),
                ),
        decreases total - start,
    {
        let mut end: usize = start;
        while end < total && source[end] != 10
            invariant
                start <= end <= total == source@.len(),
                forall|i: int| start <= i < end ==> #[trigger] source@[i] != 10,
            decreases total - end,
        {
            end = end + 1;
        }
        assert(is_line(source@, start as int, end as int));
        if is_cut(slice_subrange(source, start, end)) {
            return false;
        }
        proof {
            assert forall|before: int, last: int| #[trigger]
                is_line(source@, before, last) && before <= end implies !cuts_a_character(
                source@.subrange(before, last),
            ) by {
                if before >= start {
                    if before > start {
                        assert(source@[before - 1] == 10);
                    }
                    if last < end {
                        assert(source@[last] == 10);
                    }
                    if end < last {
                        assert(source@[end as int] == 10);
                    }
                    assert(before == start && last == end);
                }
            }
        }
        if end >= total {
            return true;
        }
        start = end + 1;
    }
}

/// The elements of sequences, one sequence after the other.
pub open spec fn flattened<A>(nested: Seq<Seq<A>>) -> Seq<A>
    decreases nested.len(),
{
    if nested.len() == 0 {
        Seq::empty()
    } else {
        flattened(nested.drop_last()) + nested.last()
    }
}

impl MeshView {
    /// The faces of all groups of all objects.
    pub open spec fn faces(self) -> Seq<Seq<Corner>> {
        flattened(flattened(self.objects))
    }
}

/// A corner with what its places name, each scalar by its bits. The normal is zero where none is
/// asked for.
#[derive(Clone, Copy, Debug, PartialEq, Eq)]
pub struct Vertex {
    pub position: (u32, u32, u32),
    pub uv: (u32, u32),
    pub normal: (u32, u32, u32),
}

/// The vertex that a corner stands for.
pub open spec fn vertex_of(mesh: MeshView, corner: Corner, with_normals: bool) -> Result<
    Vertex,
    MeshError,
> {
    match corner.1 {
        None => Err(MeshError::MissingTexture),
        Some(texture) => if with_normals && corner.2 is None {
            Err(MeshError::MissingNormal)
        } else if corner.0 >= mesh.positions.len() || texture >= mesh.textures.len() || (with_normals
            && corner.2->0 >= mesh.normals.len()) {
            Err(MeshError::OutOfRange)
        } else {
            Ok(
                Vertex {
                    position: mesh.positions[corner.0 as int],
                    uv: mesh.textures[texture as int],
                    normal: if with_normals {
                        mesh.normals[corner.2->0 as int]
                    } else {
                        (0, 0, 0)
                    },
                },
            )
        },
    }
}

/// The corners of the triangles that fan out from the first corner of a face.
pub open spec fn fan(face: Seq<Corner>) -> Seq<Corner> {
    Seq::new(
        (3 * (face.len() - 2)) as nat,
        |i: int|
            if i % 3 == 0 {
                face[0]
            } else {
                face[i / 3 + i % 3]
            },
    )
}

/// The vertices of the first `count` corners, or the first fault among them.
pub open spec fn corner_vertices(
    mesh: MeshView,
    corners: Seq<Corner>,
    with_normals: bool,
    count: int,
) -> Result<Seq<Vertex>, MeshError>
    decreases count,
{
    if count <= 0 {
        Ok(Seq::empty())
    } else {
        match corner_vertices(mesh, corners, with_normals, count - 1) {
            Err(error) => Err(error),
            Ok(vertices) => match vertex_of(mesh, corners[count - 1], with_normals) {
                Err(error) => Err(error),
                Ok(vertex) => Ok(vertices.push(vertex)),
            },
        }
    }
}

/// The vertices of the triangles of a face.
pub open spec fn face_vertices(mesh: MeshView, face: Seq<Corner>, with_normals: bool) -> Result<
    Seq<Vertex>,
    MeshError,
> {
    if face.len() < 3 {
        Err(MeshError::ShortFace)
    } else {
        corner_vertices(mesh, fan(face), with_normals, fan(face).len() as int)
    }
}

/// The vertices of the first `count` faces, or the first fault among them.
pub open spec fn mesh_vertices(
    mesh: MeshView,
    faces: Seq<Seq<Corner>>,
    with_normals: bool,
    count: int,
) -> Result<Seq<Vertex>, MeshError>
    decreases count,
{
    if count <= 0 {
        Ok(Seq::empty())
    } else {
        match mesh_vertices(mesh, faces, with_normals, count - 1) {
            Err(error) => Err(error),
            Ok(vertices) => match face_vertices(mesh, faces[count - 1], with_normals) {
                Err(error) => Err(error),
                Ok(more) => Ok(vertices + more),
            },
        }
    }
}

/// The vertices of a mesh, three for each triangle.
pub open spec fn deindexed(mesh: MeshView, with_normals: bool) -> Result<Seq<Vertex>, MeshError> {
    match mesh_vertices(mesh, mesh.faces(), with_normals, mesh.faces().len() as int) {
        Err(error) => Err(error),
        Ok(vertices) => if vertices.len() == 0 {
            Err(MeshError::NoFaces)
        } else {
            Ok(vertices)
        },
    }
}

proof fn lemma_flattened_parts<A>(first: Seq<Seq<A>>, second: Seq<Seq<A>>)
    ensures
        flattened(first + second) == flattened(first) + flattened(second),
    decreases second.len(),
{
    if second.len() == 0 {
        assert(first + second == first);
        assert(flattened(first) + flattened(second) == flattened(first));
    } else {
        lemma_flattened_parts(first, second.drop_last());
        assert((first + second).drop_last() == first + second.drop_last());
        assert((first + second).last() == second.last());
        assert(flattened(first) + (flattened(second.drop_last()) + second.last()) == (flattened(
            first,
        ) + flattened(second.drop_last())) + second.last());
    }
}

proof fn lemma_flattened_step<A>(nested: Seq<Seq<A>>, count: int)
    requires
        0 <= count < nested.len(),
    ensures
        flattened(nested.take(count + 1)) == flattened(nested.take(count)) + nested[count],
{
    assert(nested.take(count + 1).drop_last() == nested.take(count));
}

spec fn borrowed(faces: Seq<&Vec<Corner>>) -> Seq<Seq<Corner>> {
    faces.map_values(|face: &Vec<Corner>| face@)
}

proof fn lemma_corners(face: &Vec<Corner>)
    ensures
        face.deep_view() == face@,
{
    assert forall|i: int| 0 <= i < face@.len() implies #[trigger] face.deep_view()[i]
        == face@[i] by {
        assert(face@[i].deep_view() == face@[i]);
    }
    assert(face.deep_view() =~= face@);
}

fn list_faces<'a>(objects: &'a Vec<Vec<Vec<Vec<Corner>>>>) -> (faces: Vec<&'a Vec<Corner>>)
    ensures
        borrowed(faces@) == flattened(flattened(objects.deep_view())),
{
    let ghost all = objects.deep_view();
    let mut faces: Vec<&'a Vec<Corner>> = Vec::new();
    let mut i: usize = 0;
    assert(all.take(0) == Seq::<Seq<Seq<Seq<Corner>>>>::empty());
    assert(borrowed(faces@) == flattened(flattened(all.take(0))));
    while i < objects.len()
        invariant
            i <= objects@.len(),
            all == objects.deep_view(),
            borrowed(faces@) == flattened(flattened(all.take(i as int))),
        decreases objects@.len() - i,
    {
        let groups = &objects[i];
        let ghost here = groups.deep_view();
        let ghost done = borrowed(faces@);
        assert(all[i as int] == here);
        let mut j: usize = 0;
        assert(here.take(0) == Seq::<Seq<Seq<Corner>>>::empty());
        assert(done + flattened(here.take(0)) == done);
        while j < groups.len()
            invariant
                j <= groups@.len(),
                here == groups.deep_view(),
                borrowed(faces@) == done + flattened(here.take(j as int)),
            decreases groups@.len() - j,
        {
            let group = &groups[j];
            let ghost listed = group.deep_view();
            let ghost before = borrowed(faces@);
            assert(here[j as int] == listed);
            let mut k: usize = 0;
            assert(before + listed.take(0) == before);
            while k < group.len()
                invariant
                    k <= group@.len(),
                    listed == group.deep_view(),
                    borrowed(faces@) == before + listed.take(k as int),
                decreases group@.len() - k,
            {
                let ghost earlier = faces@;
                let face = &group[k];
                faces.push(face);
                proof {
                    lemma_corners(face);
                    assert(listed[k as int] == face@);
                    assert(borrowed(faces@) == borrowed(earlier).push(face@));
                    assert(listed.take(k + 1) == listed.take(k as int).push(face@));
                    assert((before + listed.take(k as int)).push(face@) == before + listed.take(
                        k + 1,
                    ));
                }
                k = k + 1;
            }
            proof {
                assert(listed.take(listed.len() as int) == listed);
                lemma_flattened_step(here, j as int);
                assert((done + flattened(here.take(j as int))) + listed == done + (flattened(
                    here.take(j as int),
                ) + listed));
            }
            j = j + 1;
        }
        proof {
            assert(here.take(here.len() as int) == here);
            lemma_flattened_step(all, i as int);
            lemma_flattened_parts(flattened(all.take(i as int)), here);
        }
        i = i + 1;
    }
    assert(all.take(all.len() as int) == all);
    faces
}

fn expand_corner(mesh: &ObjMesh, corner: Corner, with_normals: bool) -> (vertex: Result<
    Vertex,
    MeshError,
>)
    ensures
        vertex == vertex_of(mesh@, corner, with_normals),
{
    let texture = match corner.1 {
        Some(texture) => texture,
        None => return Err(MeshError::MissingTexture),
    };
    let normal = match corner.2 {
        Some(normal) => normal,
        None => {
            if with_normals {
                return Err(MeshError::MissingNormal);
            }
            0
        },
    };
    if corner.0 >= mesh.positions.len() || texture >= mesh.textures.len() || (with_normals && normal
        >= mesh.normals.len()) {
        return Err(MeshError::OutOfRange);
    }
    let read: (u32, u32, u32) = if with_normals {
        mesh.normals[normal]
    } else {
        (0, 0, 0)
    };
    Ok(Vertex { position: mesh.positions[corner.0], uv: mesh.textures[texture], normal: read })
}

proof fn lemma_corner_fault(
    mesh: MeshView,
    corners: Seq<Corner>,
    with_normals: bool,
    upto: int,
    count: int,
)
    requires
        upto <= count,
        corner_vertices(mesh, corners, with_normals, upto) is Err,
    ensures
        corner_vertices(mesh, corners, with_normals, count) == corner_vertices(
            mesh,
            corners,
            with_normals,
            upto,
        ),
    decreases count - upto,
{
    if upto < count {
        lemma_corner_fault(mesh, corners, with_normals, upto, count - 1);
    }
}

proof fn lemma_face_fault(
    mesh: MeshView,
    faces: Seq<Seq<Corner>>,
    with_normals: bool,
    upto: int,
    count: int,
)
    requires
        upto <= count,
        mesh_vertices(mesh, faces, with_normals, upto) is Err,
    ensures
        mesh_vertices(mesh, faces, with_normals, count) == mesh_vertices(
            mesh,
            faces,
            with_normals,
            upto,
        ),
    decreases count - upto,
{
    if upto < count {
        lemma_face_fault(mesh, faces, with_normals, upto, count - 1);
    }
}

fn expand_face(
    mesh: &ObjMesh,
    face: &Vec<Corner>,
    with_normals: bool,
    vertices: &mut Vec<Vertex>,
) -> (expanded: Result<(), MeshError>)
    ensures
        match (expanded, face_vertices(mesh@, face@, with_normals)) {
            (Ok(()), Ok(more)) => final(vertices)@ == old(vertices)@ + more,
            (Err(error), Err(fault)) => error == fault,
            _ => false,
        },
{
    if face.len() < 3 {
        return Err(MeshError::ShortFace);
    }
    let ghost corners = fan(face@);
    let ghost start = vertices@;
    let mut triangle: usize = 0;
    let count: usize = face.len();
    let triangles: usize = count - 2;
    assert(start + Seq::<Vertex>::empty() == start);
    while triangle < triangles
        invariant
            triangle <= triangles,
            triangles + 2 == count,
            count == face@.len(),
            corners == fan(face@),
            start == old(vertices)@,
            corner_vertices(mesh@, corners, with_normals, 3 * triangle) is Ok,
            vertices@ == start + corner_vertices(mesh@, corners, with_normals, 3 * triangle)->Ok_0,
        decreases triangles - triangle,
    {
        let mut corner: usize = 0;
        while corner < 3
            invariant
                corner <= 3,
                triangle < triangles,
                triangles + 2 == count,
            count == face@.len(),
                corners == fan(face@),
                start == old(vertices)@,
                corner_vertices(mesh@, corners, with_normals, 3 * triangle + corner) is Ok,
                vertices@ == start + corner_vertices(
                    mesh@,
                    corners,
                    with_normals,
                    3 * triangle + corner,
                )->Ok_0,
            decreases 3 - corner,
        {
            let place: usize = if corner == 0 {
                0
            } else {
                triangle + corner
            };
            let ghost at = 3 * triangle + corner;
            assert(at / 3 == triangle && at % 3 == corner);
            assert(corners[at] == face@[place as int]);
            let ghost before = corner_vertices(mesh@, corners, with_normals, at)->Ok_0;
            match expand_corner(mesh, face[place], with_normals) {
                Ok(vertex) => {
                    vertices.push(vertex);
                    assert((start + before).push(vertex) == start + before.push(vertex));
                },
                Err(error) => {
                    proof {
                        lemma_corner_fault(
                            mesh@,
                            corners,
                            with_normals,
                            at + 1,
                            corners.len() as int,
                        );
                    }
                    return Err(error);
                },
            }
            corner = corner + 1;
        }
        triangle = triangle + 1;
    }
    Ok(())
}

/// Expands the faces of a mesh into triangles.
pub fn deindex_obj(mesh: &ObjMesh, with_normals: bool) -> (vertices: Result<Vec<Vertex>, MeshError>)
    ensures
        match vertices {
            Ok(vertices) => deindexed(mesh@, with_normals) == Ok::<Seq<Vertex>, MeshError>(
                vertices@,
            ),
            Err(error) => deindexed(mesh@, with_normals) == Err::<Seq<Vertex>, MeshError>(error),
        },
{
    let faces = list_faces(&mesh.objects);
    let ghost listed = borrowed(faces@);
    assert(listed == mesh@.faces());
    assert(listed.len() == faces@.len());
    let mut vertices: Vec<Vertex> = Vec::new();
    let mut index: usize = 0;
    while index < faces.len()
        invariant
            index <= faces@.len(),
            listed == borrowed(faces@),
            listed == mesh@.faces(),
            listed.len() == faces@.len(),
            mesh_vertices(mesh@, listed, with_normals, index as int) == Ok::<
                Seq<Vertex>,
                MeshError,
            >(vertices@),
        decreases faces@.len() - index,
    {
        assert(listed[index as int] == faces@[index as int]@);
        match expand_face(mesh, faces[index], with_normals, &mut vertices) {
            Ok(()) => {},
            Err(error) => {
                proof {
                    lemma_face_fault(
                        mesh@,
                        listed,
                        with_normals,
                        index + 1,
                        listed.len() as int,
                    );
                }
                return Err(error);
            },
        }
        index = index + 1;
    }
    if vertices.len() == 0 {
        return Err(MeshError::NoFaces);
    }
    Ok(vertices)
}

/// Reads the triangles of a model file.
pub fn load_model(source: &[u8], with_normals: bool) -> (vertices: Result<Vec<Vertex>, ModelError>)
    requires
        has_clean_lines(source@),
    ensures
        match obj_mesh(source@) {
            None => vertices matches Err(error) && error is Parse,
            Some(mesh) => match deindexed(mesh, with_normals) {
                Ok(triangles) => vertices matches Ok(vertices) && vertices@ == triangles,
                Err(fault) => vertices == Err::<Vec<Vertex>, ModelError>(ModelError::Mesh(fault)),
            },
        },
{
    let mesh = load_obj(source)?;
    match deindex_obj(&mesh, with_normals) {
        Ok(vertices) => Ok(vertices),
        Err(fault) => Err(ModelError::Mesh(fault)),
    }
}

/// The words of a vertex buffer: position and texture coordinates, and the normal where it is asked
/// for.
pub open spec fn vertex_words(vertices: Seq<Vertex>, with_normals: bool) -> Seq<u32>
    decreases vertices.len(),
{
    if vertices.len() == 0 {
        Seq::empty()
    } else {
        let vertex = vertices.last();
        let plain = seq![
            vertex.position.0,
            vertex.position.1,
            vertex.position.2,
            vertex.uv.0,
            vertex.uv.1,
        ];
        vertex_words(vertices.drop_last(), with_normals) + if with_normals {
            plain + seq![vertex.normal.0, vertex.normal.1, vertex.normal.2]
        } else {
            plain
        }
    }
}

/// Lays out a vertex buffer.
pub fn vertex_bytes(vertices: &Vec<Vertex>, with_normals: bool) -> (encoded: Vec<u8>)
    requires
        32 * vertices@.len() <= usize::MAX,
    ensures
        bytes::holds_words(encoded@, vertex_words(vertices@, with_normals)),
        encoded@.len() == vertices@.len() * if with_normals {
            32int
        } else {
            20
        },
{
    let mut words: Vec<u32> = Vec::new();
    let mut index: usize = 0;
    assert(vertices@.take(0) == Seq::<Vertex>::empty());
    while index < vertices.len()
        invariant
            index <= vertices@.len(),
            words@ == vertex_words(vertices@.take(index as int), with_normals),
            words@.len() == index * if with_normals {
                8int
            } else {
                5
            },
        decreases vertices@.len() - index,
    {
        let vertex = vertices[index];
        assert(vertices@.take(index + 1).drop_last() == vertices@.take(index as int));
        words.push(vertex.position.0);
        words.push(vertex.position.1);
        words.push(vertex.position.2);
        words.push(vertex.uv.0);
        words.push(vertex.uv.1);
        if with_normals {
            words.push(vertex.normal.0);
            words.push(vertex.normal.1);
            words.push(vertex.normal.2);
        }
        index = index + 1;
        assert(words@ == vertex_words(vertices@.take(index as int), with_normals));
    }
    assert(vertices@.take(vertices@.len() as int) == vertices@);
    bytes::encode_words(words.as_slice())
}

/// The vertices of an accepted mesh make up whole triangles.
pub proof fn lemma_vertices_make_triangles(mesh: MeshView, with_normals: bool)
    requires
        deindexed(mesh, with_normals) is Ok,
    ensures
        deindexed(mesh, with_normals)->Ok_0.len() > 0,
        deindexed(mesh, with_normals)->Ok_0.len() % 3 == 0,
{
    lemma_whole_faces(mesh, mesh.faces(), with_normals, mesh.faces().len() as int);
}

proof fn lemma_whole_faces(
    mesh: MeshView,
    faces: Seq<Seq<Corner>>,
    with_normals: bool,
    count: int,
)
    requires
        mesh_vertices(mesh, faces, with_normals, count) is Ok,
    ensures
        mesh_vertices(mesh, faces, with_normals, count)->Ok_0.len() % 3 == 0,
    decreases count,
{
    if count > 0 {
        lemma_whole_faces(mesh, faces, with_normals, count - 1);
        let face = faces[count - 1];
        lemma_corner_count(mesh, fan(face), with_normals, fan(face).len() as int);
    }
}

proof fn lemma_corner_count(
    mesh: MeshView,
    corners: Seq<Corner>,
    with_normals: bool,
    count: int,
)
    requires
        0 <= count,
        corner_vertices(mesh, corners, with_normals, count) is Ok,
    ensures
        corner_vertices(mesh, corners, with_normals, count)->Ok_0.len() == count,
    decreases count,
{
    if count > 0 {
        lemma_corner_count(mesh, corners, with_normals, count - 1);
    }
}

} // verus!
