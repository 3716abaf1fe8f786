//! The item models: what a vertex carries, in what order the triangles come, and which models and
//! lists are accepted.

use vstd::prelude::*;

use crate::modules::item_models;
use crate::modules::item_models::{
    Corner, MeshError, MeshView, ModelError, ObjMesh, Vertex,
};
use crate::text;

verus! {

/// How many triangles the first faces fan out into, two fewer than the corners of each.
pub open spec fn triangles_before(faces: Seq<Seq<Corner>>, count: int) -> int
    decreases count,
{
    if count <= 0 {
        0
    } else {
        triangles_before(faces, count - 1) + faces[count - 1].len() - 2
    }
}

/// Whether a corner names a position, texture coordinates and, where they are asked for, a normal
/// that are there.
pub open spec fn names_what_is_there(mesh: MeshView, corner: Corner, with_normals: bool) -> bool {
    &&& corner.0 < mesh.positions.len()
    &&& corner.1 is Some && corner.1->0 < mesh.textures.len()
    &&& with_normals ==> corner.2 is Some && corner.2->0 < mesh.normals.len()
}

proof fn lemma_corner_at(
    mesh: MeshView,
    corners: Seq<Corner>,
    with_normals: bool,
    count: int,
    place: int,
)
    requires
        0 <= place < count,
        item_models::corner_vertices(mesh, corners, with_normals, count) is Ok,
    ensures
        item_models::corner_vertices(mesh, corners, with_normals, count)->Ok_0.len() == count,
        item_models::vertex_of(mesh, corners[place], with_normals) == Ok::<Vertex, MeshError>(
            item_models::corner_vertices(mesh, corners, with_normals, count)->Ok_0[place],
        ),
    decreases count,
{
    if place < count - 1 {
        lemma_corner_at(mesh, corners, with_normals, count - 1, place);
    } else if count > 1 {
        lemma_corner_at(mesh, corners, with_normals, count - 1, 0);
    }
}

proof fn lemma_vertex_count(
    mesh: MeshView,
    faces: Seq<Seq<Corner>>,
    with_normals: bool,
    count: int,
)
    requires
        0 <= count,
        item_models::mesh_vertices(mesh, faces, with_normals, count) is Ok,
    ensures
        item_models::mesh_vertices(mesh, faces, with_normals, count)->Ok_0.len() == 3
            * triangles_before(faces, count),
        forall|i: int| 0 <= i < count ==> (#[trigger] faces[i]).len() >= 3,
    decreases count,
{
    if count > 0 {
        lemma_vertex_count(mesh, faces, with_normals, count - 1);
        let corners = item_models::fan(faces[count - 1]);
        lemma_corner_at(mesh, corners, with_normals, corners.len() as int, 0);
    }
}

proof fn lemma_vertex_at(
    mesh: MeshView,
    faces: Seq<Seq<Corner>>,
    with_normals: bool,
    count: int,
    face: int,
    place: int,
)
    requires
        0 <= face < count,
        0 <= place < 3 * (faces[face].len() - 2),
        item_models::mesh_vertices(mesh, faces, with_normals, count) is Ok,
    ensures
        3 * triangles_before(faces, face) + place < item_models::mesh_vertices(
            mesh,
            faces,
            with_normals,
            count,
        )->Ok_0.len(),
        0 <= triangles_before(faces, face),
        item_models::vertex_of(mesh, item_models::fan(faces[face])[place], with_normals) == Ok::<
            Vertex,
            MeshError,
        >(
            item_models::mesh_vertices(mesh, faces, with_normals, count)->Ok_0[3
                * triangles_before(faces, face) + place],
        ),
    decreases count,
{
    lemma_vertex_count(mesh, faces, with_normals, count);
    lemma_vertex_count(mesh, faces, with_normals, count - 1);
    if face < count - 1 {
        lemma_vertex_at(mesh, faces, with_normals, count - 1, face, place);
    } else {
        let corners = item_models::fan(faces[face]);
        lemma_corner_at(mesh, corners, with_normals, corners.len() as int, place);
    }
}

/// Each vertex of an accepted model carries, for its corner, exactly the position, the texture
/// coordinates and, where asked for, the normal that the corner's own places name, each in its own
/// list. The triangles of a face fan out from its first corner, in order, after those of the faces
/// before it, and there are no others.
pub proof fn lemma_a_vertex_carries_what_its_corner_names(
    mesh: ObjMesh,
    with_normals: bool,
    vertices: Vec<Vertex>,
    face: int,
    triangle: int,
    which: int,
)
    requires
        call_ensures(
            item_models::deindex_obj,
            (&mesh, with_normals),
            Ok::<Vec<Vertex>, MeshError>(vertices),
        ),
        0 <= face < mesh@.faces().len(),
        0 <= triangle < mesh@.faces()[face].len() - 2,
        0 <= which < 3,
    ensures
        ({
            let corner = if which == 0 {
                mesh@.faces()[face][0]
            } else {
                mesh@.faces()[face][triangle + which]
            };
            let vertex = vertices@[3 * (triangles_before(mesh@.faces(), face) + triangle) + which];
            &&& names_what_is_there(mesh@, corner, with_normals)
            &&& vertex.position == mesh.positions@[corner.0 as int]
            &&& vertex.uv == mesh.textures@[corner.1->0 as int]
            &&& with_normals ==> vertex.normal == mesh.normals@[corner.2->0 as int]
            &&& !with_normals ==> vertex.normal == (0u32, 0u32, 0u32)
        }),
        vertices@.len() == 3 * triangles_before(mesh@.faces(), mesh@.faces().len() as int),
        0 <= 3 * (triangles_before(mesh@.faces(), face) + triangle) + which < vertices@.len(),
{
    let faces = mesh@.faces();
    let place = 3 * triangle + which;
    assert(place % 3 == which && place / 3 == triangle);
    lemma_vertex_at(mesh@, faces, with_normals, faces.len() as int, face, place);
    lemma_vertex_count(mesh@, faces, with_normals, faces.len() as int);
    assert(3 * triangles_before(faces, face) + place == 3 * (triangles_before(faces, face)
        + triangle) + which);
}

/// Whether two meshes have the same faces and agree on everything that a corner of them names.
pub open spec fn agree_on_what_is_named(first: MeshView, second: MeshView) -> bool {
    &&& first.objects == second.objects
    &&& first.positions.len() == second.positions.len()
    &&& first.textures.len() == second.textures.len()
    &&& first.normals.len() == second.normals.len()
    &&& forall|face: int, place: int|
        0 <= face < first.faces().len() && 0 <= place < first.faces()[face].len()
            ==> same_at_corner(first, second, #[trigger] first.faces()[face][place])
}

pub open spec fn same_at_corner(first: MeshView, second: MeshView, corner: Corner) -> bool {
    &&& corner.0 < first.positions.len() ==> first.positions[corner.0 as int]
        == second.positions[corner.0 as int]
    &&& corner.1 is Some && corner.1->0 < first.textures.len()
        ==> first.textures[corner.1->0 as int] == second.textures[corner.1->0 as int]
    &&& corner.2 is Some && corner.2->0 < first.normals.len()
        ==> first.normals[corner.2->0 as int] == second.normals[corner.2->0 as int]
}

proof fn lemma_same_corners(
    first: MeshView,
    second: MeshView,
    corners: Seq<Corner>,
    with_normals: bool,
    count: int,
)
    requires
        count <= corners.len(),
        first.positions.len() == second.positions.len(),
        first.textures.len() == second.textures.len(),
        first.normals.len() == second.normals.len(),
        forall|i: int| 0 <= i < count ==> same_at_corner(first, second, #[trigger] corners[i]),
    ensures
        item_models::corner_vertices(first, corners, with_normals, count)
            == item_models::corner_vertices(second, corners, with_normals, count),
    decreases count,
{
    if count > 0 {
        lemma_same_corners(first, second, corners, with_normals, count - 1);
        assert(same_at_corner(first, second, corners[count - 1]));
    }
}

proof fn lemma_same_faces(first: MeshView, second: MeshView, with_normals: bool, count: int)
    requires
        agree_on_what_is_named(first, second),
        count <= first.faces().len(),
    ensures
        item_models::mesh_vertices(first, first.faces(), with_normals, count)
            == item_models::mesh_vertices(second, second.faces(), with_normals, count),
    decreases count,
{
    if count > 0 {
        lemma_same_faces(first, second, with_normals, count - 1);
        let face = first.faces()[count - 1];
        if face.len() >= 3 {
            let corners = item_models::fan(face);
            assert forall|i: int| 0 <= i < corners.len() implies same_at_corner(
                first,
                second,
                #[trigger] corners[i],
            ) by {
                let place = if i % 3 == 0 {
                    0
                } else {
                    i / 3 + i % 3
                };
                assert(corners[i] == first.faces()[count - 1][place]);
            }
            lemma_same_corners(first, second, corners, with_normals, corners.len() as int);
        }
    }
}

/// What no corner names does not matter: changing a position, texture coordinates or a normal at a
/// place that no corner names for that list changes no vertex and no refusal.
pub proof fn lemma_what_no_corner_names_does_not_matter(
    first: ObjMesh,
    second: ObjMesh,
    with_normals: bool,
    expanded: Result<Vec<Vertex>, MeshError>,
    expanded_second: Result<Vec<Vertex>, MeshError>,
)
    requires
        agree_on_what_is_named(first@, second@),
        call_ensures(item_models::deindex_obj, (&first, with_normals), expanded),
        call_ensures(item_models::deindex_obj, (&second, with_normals), expanded_second),
    ensures
        expanded is Ok <==> expanded_second is Ok,
        expanded is Ok ==> expanded->Ok_0@ == expanded_second->Ok_0@,
        expanded is Err ==> expanded->Err_0 == expanded_second->Err_0,
{
    lemma_same_faces(first@, second@, with_normals, first@.faces().len() as int);
}

proof fn lemma_corners_accepted(
    mesh: MeshView,
    corners: Seq<Corner>,
    with_normals: bool,
    count: int,
)
    requires
        count <= corners.len(),
    ensures
        item_models::corner_vertices(mesh, corners, with_normals, count) is Ok <==> forall|i: int|
            0 <= i < count ==> names_what_is_there(mesh, #[trigger] corners[i], with_normals),
    decreases count,
{
    if count > 0 {
        lemma_corners_accepted(mesh, corners, with_normals, count - 1);
        assert(names_what_is_there(mesh, corners[count - 1], with_normals) <==> (
        item_models::vertex_of(mesh, corners[count - 1], with_normals) is Ok));
    }
}

/// Whether every corner of a face names what is there, and there are three or more.
pub open spec fn is_whole_face(mesh: MeshView, face: Seq<Corner>, with_normals: bool) -> bool {
    &&& face.len() >= 3
    &&& forall|i: int|
        0 <= i < face.len() ==> names_what_is_there(mesh, #[trigger] face[i], with_normals)
}

proof fn lemma_face_accepted(mesh: MeshView, face: Seq<Corner>, with_normals: bool)
    ensures
        item_models::face_vertices(mesh, face, with_normals) is Ok <==> is_whole_face(
            mesh,
            face,
            with_normals,
        ),
{
    if face.len() >= 3 {
        let corners = item_models::fan(face);
        lemma_corners_accepted(mesh, corners, with_normals, corners.len() as int);
        if item_models::face_vertices(mesh, face, with_normals) is Ok {
            assert forall|i: int| 0 <= i < face.len() implies names_what_is_there(
                mesh,
                #[trigger] face[i],
                with_normals,
            ) by {
                if i == 0 {
                    assert(corners[0] == face[0]);
                } else if i == 1 {
                    assert(corners[1] == face[1]);
                } else {
                    let place = 3 * (i - 2) + 2;
                    assert(place % 3 == 2 && place / 3 == i - 2);
                    assert(corners[place] == face[i]);
                }
            }
        }
        if is_whole_face(mesh, face, with_normals) {
            assert forall|i: int| 0 <= i < corners.len() implies names_what_is_there(
                mesh,
                #[trigger] corners[i],
                with_normals,
            ) by {
                let place = if i % 3 == 0 {
                    0
                } else {
                    i / 3 + i % 3
                };
                assert(corners[i] == face[place]);
            }
        }
    }
}

proof fn lemma_faces_accepted(
    mesh: MeshView,
    faces: Seq<Seq<Corner>>,
    with_normals: bool,
    count: int,
)
    requires
        count <= faces.len(),
    ensures
        item_models::mesh_vertices(mesh, faces, with_normals, count) is Ok <==> forall|i: int|
            0 <= i < count ==> is_whole_face(mesh, #[trigger] faces[i], with_normals),
    decreases count,
{
    if count > 0 {
        lemma_faces_accepted(mesh, faces, with_normals, count - 1);
        lemma_face_accepted(mesh, faces[count - 1], with_normals);
    }
}

proof fn lemma_triangles_grow(faces: Seq<Seq<Corner>>, count: int)
    requires
        forall|i: int| 0 <= i < count ==> (#[trigger] faces[i]).len() >= 3,
    ensures
        triangles_before(faces, count) >= count,
    decreases count,
{
    if count > 0 {
        lemma_triangles_grow(faces, count - 1);
    }
}

/// A model is accepted exactly if it has a face, every face has three corners or more, and every
/// corner names places in range of their own lists. The length of one list never decides about a
/// place in another.
pub proof fn lemma_a_model_in_range_is_accepted(
    mesh: ObjMesh,
    with_normals: bool,
    expanded: Result<Vec<Vertex>, MeshError>,
)
    requires
        call_ensures(item_models::deindex_obj, (&mesh, with_normals), expanded),
    ensures
        expanded is Ok <==> mesh@.faces().len() > 0 && forall|i: int|
            0 <= i < mesh@.faces().len() ==> is_whole_face(
                mesh@,
                #[trigger] mesh@.faces()[i],
                with_normals,
            ),
        mesh@.faces().len() == 0 ==> expanded == Err::<Vec<Vertex>, MeshError>(MeshError::NoFaces),
        expanded is Err && expanded->Err_0 is NoFaces ==> mesh@.faces().len() == 0,
{
    let faces = mesh@.faces();
    let count = faces.len() as int;
    lemma_faces_accepted(mesh@, faces, with_normals, count);
    lemma_faults(mesh@, faces, with_normals, count);
    if item_models::mesh_vertices(mesh@, faces, with_normals, count) is Ok {
        lemma_vertex_count(mesh@, faces, with_normals, count);
        lemma_triangles_grow(faces, count);
    }
}

/// Whether an error says what is wrong with a corner.
pub open spec fn says_of_corner(
    mesh: MeshView,
    corner: Corner,
    with_normals: bool,
    error: MeshError,
) -> bool {
    match error {
        MeshError::MissingTexture => corner.1 is None,
        MeshError::MissingNormal => with_normals && corner.2 is None,
        MeshError::OutOfRange => corner.0 >= mesh.positions.len() || (corner.1 is Some && corner.1->0
            >= mesh.textures.len()) || (with_normals && corner.2 is Some && corner.2->0
            >= mesh.normals.len()),
        _ => false,
    }
}

/// Whether an error says what is wrong with a face.
pub open spec fn says_of_face(
    mesh: MeshView,
    face: Seq<Corner>,
    with_normals: bool,
    error: MeshError,
) -> bool {
    if error is ShortFace {
        face.len() < 3
    } else {
        exists|i: int|
            0 <= i < face.len() && says_of_corner(mesh, #[trigger] face[i], with_normals, error)
    }
}

proof fn lemma_corner_faults(
    mesh: MeshView,
    corners: Seq<Corner>,
    with_normals: bool,
    count: int,
)
    requires
        count <= corners.len(),
        item_models::corner_vertices(mesh, corners, with_normals, count) is Err,
    ensures
        exists|i: int|
            0 <= i < count && says_of_corner(
                mesh,
                #[trigger] corners[i],
                with_normals,
                item_models::corner_vertices(mesh, corners, with_normals, count)->Err_0,
            ),
    decreases count,
{
    if count > 0 {
        if item_models::corner_vertices(mesh, corners, with_normals, count - 1) is Err {
            lemma_corner_faults(mesh, corners, with_normals, count - 1);
        } else {
            assert(says_of_corner(
                mesh,
                corners[count - 1],
                with_normals,
                item_models::corner_vertices(mesh, corners, with_normals, count)->Err_0,
            ));
        }
    }
}

proof fn lemma_faults(
    mesh: MeshView,
    faces: Seq<Seq<Corner>>,
    with_normals: bool,
    count: int,
)
    requires
        count <= faces.len(),
    ensures
        item_models::mesh_vertices(mesh, faces, with_normals, count) is Err ==> exists|i: int|
            0 <= i < count && says_of_face(
                mesh,
                #[trigger] faces[i],
                with_normals,
                item_models::mesh_vertices(mesh, faces, with_normals, count)->Err_0,
            ),
    decreases count,
{
    if count > 0 {
        lemma_faults(mesh, faces, with_normals, count - 1);
        let face = faces[count - 1];
        if item_models::mesh_vertices(mesh, faces, with_normals, count - 1) is Ok
            && item_models::face_vertices(mesh, face, with_normals) is Err {
            let error = item_models::face_vertices(mesh, face, with_normals)->Err_0;
            if face.len() >= 3 {
                let corners = item_models::fan(face);
                lemma_corner_faults(mesh, corners, with_normals, corners.len() as int);
                let i = choose|i: int|
                    0 <= i < corners.len() && says_of_corner(
                        mesh,
                        #[trigger] corners[i],
                        with_normals,
                        error,
                    );
                let place = if i % 3 == 0 {
                    0
                } else {
                    i / 3 + i % 3
                };
                assert(corners[i] == face[place]);
                assert(says_of_corner(mesh, face[place], with_normals, error));
            }
            assert(says_of_face(mesh, face, with_normals, error));
        }
    }
}

/// A refusal names a fault that is there: a face that is too short, a corner without texture
/// coordinates, one without the normal that is asked for, or one that names a place beyond the end
/// of a list.
pub proof fn lemma_a_refusal_names_a_fault(
    mesh: ObjMesh,
    with_normals: bool,
    error: MeshError,
)
    requires
        call_ensures(
            item_models::deindex_obj,
            (&mesh, with_normals),
            Err::<Vec<Vertex>, MeshError>(error),
        ),
        !(error is NoFaces),
    ensures
        exists|i: int|
            0 <= i < mesh@.faces().len() && says_of_face(
                mesh@,
                #[trigger] mesh@.faces()[i],
                with_normals,
                error,
            ),
{
    lemma_faults(mesh@, mesh@.faces(), with_normals, mesh@.faces().len() as int);
}

proof fn lemma_flattened<A>(first: Seq<Seq<A>>, second: Seq<Seq<A>>)
    ensures
        item_models::flattened(first + second) == item_models::flattened(first)
            + item_models::flattened(second),
    decreases second.len(),
{
    if second.len() == 0 {
        assert(first + second == first);
        assert(item_models::flattened(first) + item_models::flattened(second)
            == item_models::flattened(first));
    } else {
        lemma_flattened(first, second.drop_last());
        assert((first + second).drop_last() == first + second.drop_last());
        assert((first + second).last() == second.last());
        assert(item_models::flattened(first + second) == item_models::flattened(first)
            + item_models::flattened(second));
    }
}

proof fn lemma_flattened_one<A>(one: Seq<A>)
    ensures
        item_models::flattened(seq![one]) == one,
{
    reveal_with_fuel(item_models::flattened, 2);
    assert(seq![one].drop_last() == Seq::<Seq<A>>::empty());
    assert(Seq::<A>::empty() + one == one);
}

/// The faces of a model are those of its objects in order, those of an object are those of its
/// groups in order, and those of a group are its own, in order.
pub proof fn lemma_faces_come_in_order(
    first: MeshView,
    second: MeshView,
    both: MeshView,
    group: Seq<Seq<Corner>>,
    single: MeshView,
    groups: Seq<Seq<Seq<Corner>>>,
    more_groups: Seq<Seq<Seq<Corner>>>,
    object: MeshView,
)
    requires
        both.objects == first.objects + second.objects,
        single.objects == seq![seq![group]],
        object.objects == seq![groups + more_groups],
    ensures
        both.faces() == first.faces() + second.faces(),
        single.faces() == group,
        object.faces() == (MeshView { objects: seq![groups], ..object }).faces() + (MeshView {
            objects: seq![more_groups],
            ..object
        }).faces(),
{
    lemma_flattened(first.objects, second.objects);
    lemma_flattened(
        item_models::flattened(first.objects),
        item_models::flattened(second.objects),
    );
    lemma_flattened_one(seq![group]);
    lemma_flattened_one(group);
    lemma_flattened_one(groups + more_groups);
    lemma_flattened_one(groups);
    lemma_flattened_one(more_groups);
    lemma_flattened(groups, more_groups);
}

/// Reading a model file is parsing it and expanding what was parsed: the same triangles, the same
/// refusals.
pub proof fn lemma_a_model_is_what_its_file_describes(
    source: &[u8],
    with_normals: bool,
    parsed: Result<ObjMesh, ModelError>,
    expanded: Result<Vec<Vertex>, MeshError>,
    loaded: Result<Vec<Vertex>, ModelError>,
)
    requires
        item_models::has_clean_lines(source@),
        call_ensures(item_models::load_obj, (source,), parsed),
        parsed is Ok ==> call_ensures(
            item_models::deindex_obj,
            (&parsed->Ok_0, with_normals),
            expanded,
        ),
        call_ensures(item_models::load_model, (source, with_normals), loaded),
    ensures
        parsed is Err ==> loaded is Err && loaded->Err_0 is Parse,
        parsed is Ok && expanded is Ok ==> loaded is Ok && loaded->Ok_0@ == expanded->Ok_0@,
        parsed is Ok && expanded is Err ==> loaded is Err && loaded->Err_0 == ModelError::Mesh(
            expanded->Err_0,
        ),
{
}

proof fn lemma_nonempty(first: Seq<Seq<char>>, second: Seq<Seq<char>>)
    ensures
        item_models::nonempty(first + second) == item_models::nonempty(first)
            + item_models::nonempty(second),
    decreases second.len(),
{
    if second.len() == 0 {
        assert(first + second == first);
        assert(item_models::nonempty(first) + item_models::nonempty(second)
            == item_models::nonempty(first));
    } else {
        lemma_nonempty(first, second.drop_last());
        assert((first + second).drop_last() == first + second.drop_last());
        assert((first + second).last() == second.last());
        assert(item_models::nonempty(first + second) == item_models::nonempty(first)
            + item_models::nonempty(second));
    }
}

proof fn lemma_all_kept(lines: Seq<Seq<char>>)
    requires
        forall|i: int| 0 <= i < lines.len() ==> (#[trigger] lines[i]).len() > 0,
    ensures
        item_models::nonempty(lines) == lines,
    decreases lines.len(),
{
    if lines.len() > 0 {
        lemma_all_kept(lines.drop_last());
        assert(lines.drop_last().push(lines.last()) == lines);
    }
}

/// A list without empty lines is accepted exactly if it has 1044 lines, all different and each in
/// the directory of the models. The names are then its lines, in order.
pub proof fn lemma_an_accepted_list_names_every_model_once(
    list: &str,
    names: Option<Vec<String>>,
)
    requires
        call_ensures(item_models::load_manifest, (list,), names),
        forall|i: int| 0 <= i < text::lines(list@).len() ==> (#[trigger] text::lines(list@)[i]).len() > 0,
    ensures
        names is Some ==> names->0@.len() == 1044 && text::lines(list@).len() == 1044,
        names is Some ==> forall|i: int|
            0 <= i < 1044 ==> (#[trigger] names->0@[i])@ == text::lines(list@)[i],
        names is Some <==> {
            &&& text::lines(list@).len() == 1044
            &&& forall|i: int, j: int|
                0 <= i < j < 1044 ==> #[trigger] text::lines(list@)[i] != #[trigger] text::lines(
                    list@,
                )[j]
            &&& forall|i: int|
                0 <= i < 1044 ==> starts_with(#[trigger] text::lines(list@)[i], "item_models/"@)
        },
{
    let lines = text::lines(list@);
    lemma_all_kept(lines);
    assert(item_models::model_directory() == "item_models/"@);
    assert forall|i: int| 0 <= i < lines.len() implies starts_with(
        #[trigger] lines[i],
        "item_models/"@,
    ) == item_models::in_model_directory(lines[i]) by {
    }
    if let Some(names) = names {
        let texts = names@.map_values(|name: String| name@);
        assert(texts == lines);
        assert(texts.len() == names@.len());
        assert forall|i: int| 0 <= i < 1044 implies (#[trigger] names@[i])@ == lines[i] by {
            assert(texts[i] == names@[i]@);
        }
        assert forall|i: int| 0 <= i < 1044 implies starts_with(
            #[trigger] lines[i],
            "item_models/"@,
        ) by {
            assert(item_models::in_model_directory(lines[i]));
        }
    } else if lines.len() == 1044 && (forall|i: int, j: int|
        0 <= i < j < 1044 ==> #[trigger] lines[i] != #[trigger] lines[j]) && (forall|i: int|
        0 <= i < 1044 ==> starts_with(#[trigger] lines[i], "item_models/"@)) {
        assert(lines.no_duplicates());
        assert forall|i: int| 0 <= i < lines.len() implies item_models::in_model_directory(
            #[trigger] lines[i],
        ) by {
            assert(starts_with(lines[i], "item_models/"@));
        }
        assert(item_models::valid_names(lines));
    }
}

pub open spec fn starts_with(line: Seq<char>, start: Seq<char>) -> bool {
    line.len() >= start.len() && line.take(start.len() as int) == start
}

/// An empty line anywhere in a list of models changes nothing.
pub proof fn lemma_empty_lines_do_not_matter(
    list: &str,
    other: &str,
    before: Seq<Seq<char>>,
    after: Seq<Seq<char>>,
    names: Option<Vec<String>>,
    other_names: Option<Vec<String>>,
)
    requires
        text::lines(list@) == before + after,
        text::lines(other@) == before + (seq![Seq::<char>::empty()] + after),
        call_ensures(item_models::load_manifest, (list,), names),
        call_ensures(item_models::load_manifest, (other,), other_names),
    ensures
        names is Some <==> other_names is Some,
        names is Some ==> names->0@.map_values(|name: String| name@) == other_names->0@.map_values(
            |name: String| name@,
        ),
{
    let gap = seq![Seq::<char>::empty()];
    lemma_nonempty(before, after);
    lemma_nonempty(before, gap + after);
    lemma_nonempty(gap, after);
    reveal_with_fuel(item_models::nonempty, 2);
    assert(gap.drop_last() == Seq::<Seq<char>>::empty());
    assert(item_models::nonempty(gap) == Seq::<Seq<char>>::empty());
    assert(item_models::nonempty(gap) + item_models::nonempty(after)
        == item_models::nonempty(after));
}

/// A file without a byte beyond ASCII can always be given to the parser.
pub proof fn lemma_plain_files_can_be_parsed(source: &[u8], clean: bool)
    requires
        call_ensures(item_models::can_parse, (source,), clean),
        forall|i: int| 0 <= i < source@.len() ==> #[trigger] source@[i] < 128,
    ensures
        clean,
{
    assert forall|start: int, end: int| #[trigger]
        item_models::is_line(source@, start, end) implies !item_models::cuts_a_character(
        source@.subrange(start, end),
    ) by {
        let line = source@.subrange(start, end);
        if line.len() > 2 {
            assert(line[1] == source@[start + 1] && line[2] == source@[start + 2]);
        }
    }
}

} // verus!
