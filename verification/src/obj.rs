//! The geometric data model: vectors kept as numeric tokens, face index
//! pairs, groups, objects, and lazy iteration over a group's faces.

use vstd::prelude::*;

use crate::mtl::{Material, MaterialView};

verus! {

/// A three-component vector whose components are numeric source tokens.
#[derive(Debug, PartialEq, Eq)]
pub struct Vec3 {
    pub x: String,
    pub y: String,
    pub z: String,
}

/// The mathematical value of a [`Vec3`]: its three component tokens.
#[verifier::ext_equal]
pub struct Vec3View {
    pub x: Seq<char>,
    pub y: Seq<char>,
    pub z: Seq<char>,
}

impl View for Vec3 {
    type V = Vec3View;

    open spec fn view(&self) -> Vec3View {
        Vec3View { x: self.x@, y: self.y@, z: self.z@ }
    }
}

impl Clone for Vec3 {
    fn clone(&self) -> (r: Self)
        ensures
            r == *self,
    {
        Vec3 { x: self.x.clone(), y: self.y.clone(), z: self.z.clone() }
    }
}

/// A two-component vector whose components are numeric source tokens.
#[derive(Debug, PartialEq, Eq)]
pub struct Vec2 {
    pub u: String,
    pub v: String,
}

/// The mathematical value of a [`Vec2`]: its two component tokens.
#[verifier::ext_equal]
pub struct Vec2View {
    pub u: Seq<char>,
    pub v: Seq<char>,
}

impl View for Vec2 {
    type V = Vec2View;

    open spec fn view(&self) -> Vec2View {
        Vec2View { u: self.u@, v: self.v@ }
    }
}

impl Clone for Vec2 {
    fn clone(&self) -> (r: Self)
        ensures
            r == *self,
    {
        Vec2 { u: self.u.clone(), v: self.v.clone() }
    }
}

/// One corner of a face: a vertex index, an optional texture coordinate
/// index and an optional normal index, all zero-based and local to the
/// owning group's arrays.
#[derive(Debug, Clone, Copy, PartialEq, Eq, Hash)]
pub struct FaceIndexPair(pub usize, pub Option<usize>, pub Option<usize>);

/// One face: its corners and the material selected when it was declared,
/// as an index into the document's material table.
#[verifier::ext_equal]
pub struct FaceView {
    pub pairs: Seq<FaceIndexPair>,
    pub material: Option<usize>,
}

/// A group of geometry inside an object.
///
/// Vertex positions, texture coordinates and normals are local to the
/// group: the indices stored in its faces count from zero within these
/// arrays.
#[derive(Debug, Clone)]
pub struct Group {
    pub name: Option<String>,
    pub vertices: Vec<Vec3>,
    pub texture_uvs: Vec<Vec2>,
    pub normals: Vec<Vec3>,
    pub face_index_pairs: Vec<(Vec<FaceIndexPair>, Option<usize>)>,
}

/// The mathematical value of a [`Group`].
#[verifier::ext_equal]
pub struct GroupView {
    pub name: Option<Seq<char>>,
    pub vertices: Seq<Vec3View>,
    pub texture_uvs: Seq<Vec2View>,
    pub normals: Seq<Vec3View>,
    pub faces: Seq<FaceView>,
}

impl View for Group {
    type V = GroupView;

    open spec fn view(&self) -> GroupView {
        GroupView {
            name: match self.name {
                Some(n) => Some(n@),
                None => None,
            },
            vertices: self.vertices@.map_values(|v: Vec3| v@),
            texture_uvs: self.texture_uvs@.map_values(|v: Vec2| v@),
            normals: self.normals@.map_values(|v: Vec3| v@),
            faces: self.face_index_pairs@.map_values(
                |f: (Vec<FaceIndexPair>, Option<usize>)| FaceView { pairs: f.0@, material: f.1 },
            ),
        }
    }
}

/// Whether the indices of `p` are valid offsets into the arrays of `g`.
pub open spec fn pair_in_bounds(p: FaceIndexPair, g: GroupView) -> bool {
    &&& p.0 < g.vertices.len()
    &&& (p.1 matches Some(t) ==> t < g.texture_uvs.len())
    &&& (p.2 matches Some(m) ==> m < g.normals.len())
}

/// Whether every face of `g` references only data that `g` holds.
pub open spec fn group_wf(g: GroupView) -> bool {
    forall|i: int, j: int|
        0 <= i < g.faces.len() && 0 <= j < g.faces[i].pairs.len() ==> pair_in_bounds(
            #[trigger] g.faces[i].pairs[j],
            g,
        )
}

impl Group {
    /// The name of this group.
    pub fn name(&self) -> (r: Option<&String>)
        ensures
            match r {
                Some(n) => self@.name == Some(n@),
                None => self@.name is None,
            },
    {
        self.name.as_ref()
    }

    /// The vertex position tokens of this group.
    pub fn vertices(&self) -> (r: &Vec<Vec3>)
        ensures
            r@.map_values(|v: Vec3| v@) == self@.vertices,
    {
        &self.vertices
    }

    /// The texture coordinate tokens of this group.
    pub fn texture_uvs(&self) -> (r: &Vec<Vec2>)
        ensures
            r@.map_values(|v: Vec2| v@) == self@.texture_uvs,
    {
        &self.texture_uvs
    }

    /// The normal tokens of this group.
    pub fn normals(&self) -> (r: &Vec<Vec3>)
        ensures
            r@.map_values(|v: Vec3| v@) == self@.normals,
    {
        &self.normals
    }

    /// The faces of this group: for each face, its corner index pairs and
    /// its material reference.
    pub fn face_index_pairs(&self) -> (r: &Vec<(Vec<FaceIndexPair>, Option<usize>)>)
        ensures
            r@.map_values(
                |f: (Vec<FaceIndexPair>, Option<usize>)| FaceView { pairs: f.0@, material: f.1 },
            ) == self@.faces,
    {
        &self.face_index_pairs
    }

    /// A cursor over the faces of this group, starting at the first face.
    pub fn faces(&self) -> (r: GroupFaces)
        ensures
            r.position() == 0,
    {
        GroupFaces { next_face: 0 }
    }
}

/// What a stored index pair dereferences to inside `g`: the vertex
/// position, and the optional texture coordinates and normal; nothing when
/// an index lies outside the group's arrays.
pub open spec fn resolve_pair(g: GroupView, p: FaceIndexPair) -> Option<
    (Vec3View, Option<Vec2View>, Option<Vec3View>),
> {
    if pair_in_bounds(p, g) {
        Some(
            (
                g.vertices[p.0 as int],
                match p.1 {
                    Some(t) => Some(g.texture_uvs[t as int]),
                    None => None,
                },
                match p.2 {
                    Some(m) => Some(g.normals[m as int]),
                    None => None,
                },
            ),
        )
    } else {
        None
    }
}

/// The vertex data of one face corner: position, optional texture
/// coordinates, optional normal.
pub type FaceVertexPair = (Vec3, Option<Vec2>, Option<Vec3>);

/// A restartable cursor over the faces of a group.
#[derive(Debug, Clone, PartialEq, Eq)]
pub struct GroupFaces {
    next_face: usize,
}

impl GroupFaces {
    /// The index of the face that the next call will yield.
    pub closed spec fn position(&self) -> int {
        self.next_face as int
    }

    /// Yields a cursor over the vertices of the next face together with the
    /// face's material reference, or nothing when every face has been
    /// yielded.
    pub fn next(&mut self, group: &Group) -> (r: Option<(FaceVertices, Option<usize>)>)
        ensures
            old(self).position() < group@.faces.len() ==> {
                &&& final(self).position() == old(self).position() + 1
                &&& r matches Some((fv, m)) && fv.face() == old(self).position() && fv.position()
                    == 0 && m == group@.faces[old(self).position()].material
            },
            old(self).position() >= group@.faces.len() ==> r is None && *final(self) == *old(self),
    {
        if self.next_face < group.face_index_pairs.len() {
            let face = self.next_face;
            let material = group.face_index_pairs[face].1;
            self.next_face = face + 1;
            Some((FaceVertices { face, next_vertex: 0 }, material))
        } else {
            None
        }
    }
}

/// A restartable cursor over the vertex data of one face of a group.
#[derive(Debug, Clone, PartialEq, Eq)]
pub struct FaceVertices {
    face: usize,
    next_vertex: usize,
}

impl FaceVertices {
    /// The index of the face this cursor walks.
    pub closed spec fn face(&self) -> int {
        self.face as int
    }

    /// The index of the corner that the next call will yield.
    pub closed spec fn position(&self) -> int {
        self.next_vertex as int
    }

    /// Resolves and yields the vertex data of the next corner of the face:
    /// nothing when every corner has been yielded, when the face index lies
    /// outside `group`, or when a stored index is not a valid offset into
    /// the group's arrays (which a group assembled by this crate never
    /// holds).
    pub fn next(&mut self, group: &Group) -> (r: Option<FaceVertexPair>)
        ensures
            ({
                let faces = group@.faces;
                if old(self).face() < faces.len() && old(self).position()
                    < faces[old(self).face()].pairs.len() {
                    let p = faces[old(self).face()].pairs[old(self).position()];
                    match resolve_pair(group@, p) {
                        Some(resolved) => {
                            &&& final(self).face() == old(self).face()
                            &&& final(self).position() == old(self).position() + 1
                            &&& r matches Some(out) && resolved == (
                                out.0@,
                                match out.1 {
                                    Some(uv) => Some(uv@),
                                    None => None,
                                },
                                match out.2 {
                                    Some(nm) => Some(nm@),
                                    None => None,
                                },
                            )
                        },
                        None => r is None && *final(self) == *old(self),
                    }
                } else {
                    r is None && *final(self) == *old(self)
                }
            }),
    {
        if self.face >= group.face_index_pairs.len() {
            return None;
        }
        let pairs = &group.face_index_pairs[self.face].0;
        if self.next_vertex >= pairs.len() {
            return None;
        }
        let p = pairs[self.next_vertex];
        if p.0 >= group.vertices.len() {
            return None;
        }
        let position = group.vertices[p.0].clone();
        let uv = match p.1 {
            Some(t) => {
                if t >= group.texture_uvs.len() {
                    return None;
                }
                Some(group.texture_uvs[t].clone())
            },
            None => None,
        };
        let normal = match p.2 {
            Some(m) => {
                if m >= group.normals.len() {
                    return None;
                }
                Some(group.normals[m].clone())
            },
            None => None,
        };
        self.next_vertex = self.next_vertex + 1;
        Some((position, uv, normal))
    }
}

/// A named object: an ordered sequence of groups.
#[derive(Debug, Clone)]
pub struct Object {
    pub name: Option<String>,
    pub groups: Vec<Group>,
}

/// The mathematical value of an [`Object`].
#[verifier::ext_equal]
pub struct ObjectView {
    pub name: Option<Seq<char>>,
    pub groups: Seq<GroupView>,
}

impl View for Object {
    type V = ObjectView;

    open spec fn view(&self) -> ObjectView {
        ObjectView {
            name: match self.name {
                Some(n) => Some(n@),
                None => None,
            },
            groups: self.groups@.map_values(|g: Group| g@),
        }
    }
}

impl Object {
    /// The name of this object.
    pub fn name(&self) -> (r: Option<&String>)
        ensures
            match r {
                Some(n) => self@.name == Some(n@),
                None => self@.name is None,
            },
    {
        self.name.as_ref()
    }

    /// The groups of this object.
    pub fn groups(&self) -> (r: &Vec<Group>)
        ensures
            r@.map_values(|g: Group| g@) == self@.groups,
    {
        &self.groups
    }

    /// Takes the groups of this object.
    pub fn into_groups(self) -> (r: Vec<Group>)
        ensures
            r@.map_values(|g: Group| g@) == self@.groups,
    {
        self.groups
    }
}

/// The content of one OBJ document and its material library.
#[derive(Debug, Clone)]
pub struct WavefrontObj {
    pub objects: Vec<Object>,
    pub materials: Vec<Material>,
}

/// The mathematical value of a [`WavefrontObj`].
#[verifier::ext_equal]
pub struct WavefrontObjView {
    pub objects: Seq<ObjectView>,
    pub materials: Seq<MaterialView>,
}

impl View for WavefrontObj {
    type V = WavefrontObjView;

    open spec fn view(&self) -> WavefrontObjView {
        WavefrontObjView {
            objects: self.objects@.map_values(|o: Object| o@),
            materials: self.materials@.map_values(|m: Material| m@),
        }
    }
}

impl WavefrontObj {
    /// The objects of this document.
    pub fn objects(&self) -> (r: &Vec<Object>)
        ensures
            r@.map_values(|o: Object| o@) == self@.objects,
    {
        &self.objects
    }

    /// The materials of this document.
    pub fn materials(&self) -> (r: &Vec<Material>)
        ensures
            r@.map_values(|m: Material| m@) == self@.materials,
    {
        &self.materials
    }

    /// Splits this document into its objects and its materials.
    pub fn split(self) -> (r: (Vec<Object>, Vec<Material>))
        ensures
            r.0@.map_values(|o: Object| o@) == self@.objects,
            r.1@.map_values(|m: Material| m@) == self@.materials,
    {
        (self.objects, self.materials)
    }
}

} // verus!
