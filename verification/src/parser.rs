//! The OBJ assembly state machine and the MTL accumulator.
//!
//! [`Parser`] consumes OBJ text line by line.  Vertex data accumulates in
//! the current group; `g` and `o` directives commit groups and objects,
//! dropping empty ones; face indices are rebased from the document-wide
//! numbering to each group's own arrays.  A `mtllib` directive is handed
//! back to the caller, who resolves the named library, parses it with
//! [`parse_mtl`], and supplies the table through
//! [`Parser::supply_materials`].

use vstd::prelude::*;

use crate::classify::{
    parse_mtl_line, parse_obj_line, spec_mtl_line, spec_obj_line, MtlCommand, MtlCommandView,
    ObjCommand, ObjCommandView,
};
use crate::error::Error;
use crate::mtl::{insert_property, spec_insert, Material, MaterialProperty, MaterialView,
    PropertyView};
use crate::obj::{
    FaceIndexPair, FaceView, Group, GroupView, Object, ObjectView, Vec2, Vec3, WavefrontObj,
    WavefrontObjView,
};
use crate::text::{content_tokens, line_skipped, split_on, split_seq, str_eq, tokens_of};

verus! {

/// Addition on `usize` that stops at the top of the type's range.  The
/// running offsets below use it; a document large enough to reach the cap
/// can no longer hold indices that reference its own data, so every face
/// fed past that point is rejected by the rebasing bounds check.
pub open spec fn sat_add(a: usize, b: nat) -> usize {
    if a + b <= usize::MAX {
        (a + b) as usize
    } else {
        usize::MAX
    }
}

/// Saturating addition on `usize`.
fn sat_add_usize(a: usize, b: usize) -> (r: usize)
    ensures
        r == sat_add(a, b as nat),
{
    if b <= usize::MAX - a {
        a + b
    } else {
        usize::MAX
    }
}

/// The mathematical state of a [`Parser`]: the material table, the
/// documents and groups committed so far, the buffers of the group being
/// accumulated, and the running offsets of data committed in earlier
/// groups.
#[verifier::ext_equal]
pub struct ParserView {
    pub materials: Seq<MaterialView>,
    pub current_material: Option<usize>,
    pub objects: Seq<ObjectView>,
    pub object_name: Option<Seq<char>>,
    pub groups: Seq<GroupView>,
    pub group_name: Option<Seq<char>>,
    pub vertices: Seq<crate::obj::Vec3View>,
    pub texture_uvs: Seq<crate::obj::Vec2View>,
    pub normals: Seq<crate::obj::Vec3View>,
    pub faces: Seq<FaceView>,
    pub v_offset: usize,
    pub t_offset: usize,
    pub n_offset: usize,
}

/// The state of a parser that has consumed nothing.
pub open spec fn initial_parser() -> ParserView {
    ParserView {
        materials: Seq::empty(),
        current_material: None,
        objects: Seq::empty(),
        object_name: None,
        groups: Seq::empty(),
        group_name: None,
        vertices: Seq::empty(),
        texture_uvs: Seq::empty(),
        normals: Seq::empty(),
        faces: Seq::empty(),
        v_offset: 0,
        t_offset: 0,
        n_offset: 0,
    }
}

/// The group under construction: the current buffers seen as a group.
pub open spec fn accumulating_group(st: ParserView) -> GroupView {
    GroupView {
        name: st.group_name,
        vertices: st.vertices,
        texture_uvs: st.texture_uvs,
        normals: st.normals,
        faces: st.faces,
    }
}

/// Committing the accumulating group: the running offsets advance by the
/// sizes of its buffers, the buffers clear, `name` becomes the new group
/// name, and the group joins the pending list only when it holds at least
/// one face.
pub open spec fn spec_commit_group(st: ParserView, name: Option<Seq<char>>) -> ParserView {
    let g = accumulating_group(st);
    ParserView {
        groups: if st.faces.len() > 0 {
            st.groups.push(g)
        } else {
            st.groups
        },
        group_name: name,
        vertices: Seq::empty(),
        texture_uvs: Seq::empty(),
        normals: Seq::empty(),
        faces: Seq::empty(),
        v_offset: sat_add(st.v_offset, st.vertices.len()),
        t_offset: sat_add(st.t_offset, st.texture_uvs.len()),
        n_offset: sat_add(st.n_offset, st.normals.len()),
        ..st
    }
}

/// Committing the accumulating object: `name` becomes the new object
/// name, the pending group list clears, and the object joins the document
/// only when it holds at least one group.
pub open spec fn spec_commit_object(st: ParserView, name: Option<Seq<char>>) -> ParserView {
    let ob = ObjectView { name: st.object_name, groups: st.groups };
    ParserView {
        objects: if st.groups.len() > 0 {
            st.objects.push(ob)
        } else {
            st.objects
        },
        object_name: name,
        groups: Seq::empty(),
        ..st
    }
}

/// The index of the first material of `ms` named `name`, if any.
pub open spec fn find_material_index(ms: Seq<MaterialView>, name: Seq<char>) -> Option<int>
    decreases ms.len(),
{
    if ms.len() == 0 {
        None
    } else if ms[0].name == name {
        Some(0int)
    } else {
        match find_material_index(ms.skip(1), name) {
            None => None,
            Some(i) => Some(i + 1),
        }
    }
}

/// The material reference that selecting `name` yields: the index of the
/// first material with that name, or none when the table holds no such
/// name.
pub open spec fn spec_find_material(ms: Seq<MaterialView>, name: Seq<char>) -> Option<usize> {
    match find_material_index(ms, name) {
        None => None,
        Some(i) => Some(i as usize),
    }
}

/// The index of the first material of `materials` named `name`, if any.
/// Selecting a name that the table does not hold yields no reference, and
/// the faces declared under it carry no material.
pub fn find_material(materials: &Vec<Material>, name: &str) -> (r: Option<usize>)
    ensures
        r == spec_find_material(materials@.map_values(|m: Material| m@), name@),
{
    let ghost ms = materials@.map_values(|m: Material| m@);
    let mut i: usize = 0;
    proof {
        assert(ms.skip(0) =~= ms);
    }
    while i < materials.len()
        invariant
            i <= materials@.len(),
            ms == materials@.map_values(|m: Material| m@),
            match find_material_index(ms.skip(i as int), name@) {
                None => find_material_index(ms, name@) is None,
                Some(j) => find_material_index(ms, name@) == Some(j + i),
            },
        decreases materials@.len() - i,
    {
        proof {
            assert(ms.skip(i as int)[0] == ms[i as int]);
            assert(ms.skip(i as int).skip(1) =~= ms.skip(i as int + 1));
        }
        if str_eq(materials[i].name.as_str(), name) {
            return Some(i);
        }
        i = i + 1;
    }
    proof {
        assert(ms.skip(i as int) =~= Seq::<MaterialView>::empty());
    }
    None
}

/// Rebasing one index: the document-wide zero-based index `raw` becomes
/// local to the current group by subtracting `offset`, and must land
/// inside the `len` entries the group holds so far; anything else
/// references data outside the group.
pub open spec fn rebase_index(raw: usize, offset: usize, len: nat) -> Result<usize, Error> {
    if raw >= offset && raw - offset < len {
        Ok((raw - offset) as usize)
    } else {
        Err(Error::InvalidFaceVertex)
    }
}

/// Rebasing one face corner against the state `st`.
pub open spec fn spec_rebase_pair(p: FaceIndexPair, st: ParserView) -> Result<
    FaceIndexPair,
    Error,
> {
    match rebase_index(p.0, st.v_offset, st.vertices.len()) {
        Err(e) => Err(e),
        Ok(v) => {
            let uv = match p.1 {
                None => Ok(None),
                Some(x) => match rebase_index(x, st.t_offset, st.texture_uvs.len()) {
                    Ok(y) => Ok(Some(y)),
                    Err(e) => Err(e),
                },
            };
            match uv {
                Err(e) => Err(e),
                Ok(ti) => {
                    let nm = match p.2 {
                        None => Ok(None),
                        Some(x) => match rebase_index(x, st.n_offset, st.normals.len()) {
                            Ok(y) => Ok(Some(y)),
                            Err(e) => Err(e),
                        },
                    };
                    match nm {
                        Err(e) => Err(e),
                        Ok(ni) => Ok(FaceIndexPair(v, ti, ni)),
                    }
                },
            }
        },
    }
}

/// Rebasing every corner of a face, left to right; the first corner that
/// references data outside the group aborts the face.
pub open spec fn spec_rebase(ps: Seq<FaceIndexPair>, st: ParserView) -> Result<
    Seq<FaceIndexPair>,
    Error,
>
    decreases ps.len(),
{
    if ps.len() == 0 {
        Ok(Seq::empty())
    } else {
        match spec_rebase_pair(ps[0], st) {
            Err(e) => Err(e),
            Ok(p) => match spec_rebase(ps.skip(1), st) {
                Err(e) => Err(e),
                Ok(rest) => Ok(seq![p] + rest),
            },
        }
    }
}

/// What the caller of [`Parser::feed_line`] is told after a line is
/// consumed.
#[derive(Debug, PartialEq, Eq)]
pub enum FeedEvent {
    /// The line was processed; feed the next one.
    Accepted,
    /// A `mtllib` directive named this library.  Resolve it, parse the
    /// text with [`parse_mtl`], and hand the result to
    /// [`Parser::supply_materials`] before feeding further lines.
    MaterialLibraryNeeded(String),
}

/// The mathematical value of a [`FeedEvent`].
pub enum FeedEventView {
    Accepted,
    MaterialLibraryNeeded(Seq<char>),
}

impl View for FeedEvent {
    type V = FeedEventView;

    open spec fn view(&self) -> FeedEventView {
        match self {
            FeedEvent::Accepted => FeedEventView::Accepted,
            FeedEvent::MaterialLibraryNeeded(p) => FeedEventView::MaterialLibraryNeeded(p@),
        }
    }
}

/// The transition that one classified directive makes on the parser
/// state, and what the caller is told.  Only a face can fail, when a
/// corner references data outside the current group.
pub open spec fn spec_apply(st: ParserView, cmd: ObjCommandView) -> Result<
    (ParserView, FeedEventView),
    Error,
> {
    match cmd {
        ObjCommandView::MaterialLibrary(p) => Ok((st, FeedEventView::MaterialLibraryNeeded(p))),
        ObjCommandView::UseMaterial(n) => Ok(
            (
                ParserView { current_material: spec_find_material(st.materials, n), ..st },
                FeedEventView::Accepted,
            ),
        ),
        ObjCommandView::Object(n) => Ok(
            (spec_commit_object(spec_commit_group(st, None), n), FeedEventView::Accepted),
        ),
        ObjCommandView::Group(n) => Ok((spec_commit_group(st, n), FeedEventView::Accepted)),
        ObjCommandView::Vertex(v) => Ok(
            (ParserView { vertices: st.vertices.push(v), ..st }, FeedEventView::Accepted),
        ),
        ObjCommandView::VertexUv(v) => Ok(
            (ParserView { texture_uvs: st.texture_uvs.push(v), ..st }, FeedEventView::Accepted),
        ),
        ObjCommandView::VertexNormal(v) => Ok(
            (ParserView { normals: st.normals.push(v), ..st }, FeedEventView::Accepted),
        ),
        ObjCommandView::Face(ps) => match spec_rebase(ps, st) {
            Err(e) => Err(e),
            Ok(rs) => Ok(
                (
                    ParserView {
                        faces: st.faces.push(
                            FaceView { pairs: rs, material: st.current_material },
                        ),
                        ..st
                    },
                    FeedEventView::Accepted,
                ),
            ),
        },
        ObjCommandView::Unknown(_, _) => Ok((st, FeedEventView::Accepted)),
    }
}

/// What feeding one raw line does: a blank or comment line changes
/// nothing; otherwise the line is tokenized, classified, and applied.
pub open spec fn spec_feed(st: ParserView, line: Seq<char>) -> Result<
    (ParserView, FeedEventView),
    Error,
> {
    if line_skipped(line) {
        Ok((st, FeedEventView::Accepted))
    } else {
        let toks = tokens_of(line);
        match spec_obj_line(toks[0], toks.skip(1)) {
            Err(e) => Err(e),
            Ok(cmd) => spec_apply(st, cmd),
        }
    }
}

/// What ending the input does: the accumulating group and object are
/// committed as if trailing `g` and `o` directives without names had been
/// seen, and the document is the committed objects with the material
/// table.
pub open spec fn spec_finish(st: ParserView) -> WavefrontObjView {
    let st1 = spec_commit_object(spec_commit_group(st, None), None);
    WavefrontObjView { objects: st1.objects, materials: st1.materials }
}

/// The OBJ assembly state machine.
///
/// Feed raw lines with [`Parser::feed_line`]; resolve material libraries
/// when asked; take the finished document with [`Parser::finish`].  The
/// fields are the accumulation state and are meant to be read, not
/// written, between calls.
#[derive(Debug)]
pub struct Parser {
    pub materials: Vec<Material>,
    pub current_material: Option<usize>,
    pub objects: Vec<Object>,
    pub object_name: Option<String>,
    pub groups: Vec<Group>,
    pub group_name: Option<String>,
    pub vertices: Vec<Vec3>,
    pub texture_uvs: Vec<Vec2>,
    pub normals: Vec<Vec3>,
    pub faces: Vec<(Vec<FaceIndexPair>, Option<usize>)>,
    pub v_offset: usize,
    pub t_offset: usize,
    pub n_offset: usize,
}

impl View for Parser {
    type V = ParserView;

    open spec fn view(&self) -> ParserView {
        ParserView {
            materials: self.materials@.map_values(|m: Material| m@),
            current_material: self.current_material,
            objects: self.objects@.map_values(|o: Object| o@),
            object_name: match self.object_name {
                Some(n) => Some(n@),
                None => None,
            },
            groups: self.groups@.map_values(|g: Group| g@),
            group_name: match self.group_name {
                Some(n) => Some(n@),
                None => None,
            },
            vertices: self.vertices@.map_values(|v: Vec3| v@),
            texture_uvs: self.texture_uvs@.map_values(|v: Vec2| v@),
            normals: self.normals@.map_values(|v: Vec3| v@),
            faces: self.faces@.map_values(
                |f: (Vec<FaceIndexPair>, Option<usize>)| FaceView { pairs: f.0@, material: f.1 },
            ),
            v_offset: self.v_offset,
            t_offset: self.t_offset,
            n_offset: self.n_offset,
        }
    }
}

impl Parser {
    /// A parser that has consumed nothing.
    pub fn new() -> (r: Parser)
        ensures
            r@ == initial_parser(),
    {
        let r = Parser {
            materials: Vec::new(),
            current_material: None,
            objects: Vec::new(),
            object_name: None,
            groups: Vec::new(),
            group_name: None,
            vertices: Vec::new(),
            texture_uvs: Vec::new(),
            normals: Vec::new(),
            faces: Vec::new(),
            v_offset: 0,
            t_offset: 0,
            n_offset: 0,
        };
        proof {
            assert(r@ =~~= initial_parser());
        }
        r
    }

    /// Replaces the whole material table, as a `mtllib` resolution does:
    /// a later library fully replaces an earlier one.  The current
    /// material selection is left as it stands until the next `usemtl`.
    pub fn supply_materials(&mut self, materials: Vec<Material>)
        ensures
            final(self)@ == (ParserView {
                materials: materials@.map_values(|m: Material| m@),
                ..old(self)@
            }),
    {
        self.materials = materials;
        proof {
            assert(final(self)@ =~~= (ParserView {
                materials: self.materials@.map_values(|m: Material| m@),
                ..old(self)@
            }));
        }
    }

    /// Commits the accumulating group, adopting `name` for the next one.
    fn commit_group(&mut self, name: Option<String>)
        ensures
            final(self)@ == spec_commit_group(
                old(self)@,
                match name {
                    Some(n) => Some(n@),
                    None => None,
                },
            ),
    {
        self.v_offset = sat_add_usize(self.v_offset, self.vertices.len());
        self.t_offset = sat_add_usize(self.t_offset, self.texture_uvs.len());
        self.n_offset = sat_add_usize(self.n_offset, self.normals.len());
        let committed_name = self.group_name.take();
        self.group_name = name;
        let mut vertices: Vec<Vec3> = Vec::new();
        core::mem::swap(&mut self.vertices, &mut vertices);
        let mut texture_uvs: Vec<Vec2> = Vec::new();
        core::mem::swap(&mut self.texture_uvs, &mut texture_uvs);
        let mut normals: Vec<Vec3> = Vec::new();
        core::mem::swap(&mut self.normals, &mut normals);
        let mut faces: Vec<(Vec<FaceIndexPair>, Option<usize>)> = Vec::new();
        core::mem::swap(&mut self.faces, &mut faces);
        let group = Group {
            name: committed_name,
            vertices,
            texture_uvs,
            normals,
            face_index_pairs: faces,
        };
        if group.face_index_pairs.len() > 0 {
            proof {
                let st = old(self)@;
                assert(group@ =~~= (GroupView {
                    name: st.group_name,
                    vertices: st.vertices,
                    texture_uvs: st.texture_uvs,
                    normals: st.normals,
                    faces: st.faces,
                }));
            }
            self.groups.push(group);
            proof {
                assert(final(self)@ =~~= spec_commit_group(
                    old(self)@,
                    match name {
                        Some(n) => Some(n@),
                        None => None,
                    },
                ));
            }
        } else {
            proof {
                assert(final(self)@ =~~= spec_commit_group(
                    old(self)@,
                    match name {
                        Some(n) => Some(n@),
                        None => None,
                    },
                ));
            }
        }
    }

    /// Commits the accumulating object, adopting `name` for the next one.
    fn commit_object(&mut self, name: Option<String>)
        ensures
            final(self)@ == spec_commit_object(
                old(self)@,
                match name {
                    Some(n) => Some(n@),
                    None => None,
                },
            ),
    {
        let committed_name = self.object_name.take();
        self.object_name = name;
        let mut groups: Vec<Group> = Vec::new();
        core::mem::swap(&mut self.groups, &mut groups);
        let object = Object { name: committed_name, groups };
        if object.groups.len() > 0 {
            proof {
                let st = old(self)@;
                assert(object@ =~~= (ObjectView { name: st.object_name, groups: st.groups }));
            }
            self.objects.push(object);
            proof {
                assert(final(self)@ =~~= spec_commit_object(
                    old(self)@,
                    match name {
                        Some(n) => Some(n@),
                        None => None,
                    },
                ));
            }
        } else {
            proof {
                assert(final(self)@ =~~= spec_commit_object(
                    old(self)@,
                    match name {
                        Some(n) => Some(n@),
                        None => None,
                    },
                ));
            }
        }
    }

    /// Rebases one face against the current state.
    fn rebase_face(&self, pairs: &Vec<FaceIndexPair>) -> (r: Result<Vec<FaceIndexPair>, Error>)
        ensures
            r is Ok <==> spec_rebase(pairs@, self@) is Ok,
            r matches Ok(rs) ==> spec_rebase(pairs@, self@) == Ok::<_, Error>(rs@),
            r matches Err(e) ==> spec_rebase(pairs@, self@) == Err::<Seq<FaceIndexPair>, _>(e),
    {
        let ghost ps = pairs@;
        let ghost st = self@;
        let mut out: Vec<FaceIndexPair> = Vec::new();
        let mut k: usize = 0;
        proof {
            assert(ps.skip(0) =~= ps);
            if spec_rebase(ps, st) is Ok {
                assert(out@ + spec_rebase(ps, st)->Ok_0 =~= spec_rebase(ps, st)->Ok_0);
            }
        }
        while k < pairs.len()
            invariant
                k <= ps.len(),
                ps == pairs@,
                st == self@,
                st.vertices.len() == self.vertices@.len(),
                st.texture_uvs.len() == self.texture_uvs@.len(),
                st.normals.len() == self.normals@.len(),
                match spec_rebase(ps.skip(k as int), st) {
                    Ok(rest) => spec_rebase(ps, st) matches Ok(all) && all == out@ + rest,
                    Err(e) => spec_rebase(ps, st) == Err::<Seq<FaceIndexPair>, Error>(e),
                },
            decreases ps.len() - k,
        {
            proof {
                assert(ps.skip(k as int)[0] == ps[k as int]);
                assert(ps.skip(k as int).skip(1) =~= ps.skip(k as int + 1));
            }
            let p = pairs[k];
            if !(p.0 >= self.v_offset && p.0 - self.v_offset < self.vertices.len()) {
                return Err(Error::InvalidFaceVertex);
            }
            let v = p.0 - self.v_offset;
            let ti = match p.1 {
                None => None,
                Some(x) => {
                    if !(x >= self.t_offset && x - self.t_offset < self.texture_uvs.len()) {
                        return Err(Error::InvalidFaceVertex);
                    }
                    Some(x - self.t_offset)
                },
            };
            let ni = match p.2 {
                None => None,
                Some(x) => {
                    if !(x >= self.n_offset && x - self.n_offset < self.normals.len()) {
                        return Err(Error::InvalidFaceVertex);
                    }
                    Some(x - self.n_offset)
                },
            };
            let ghost before = out@;
            out.push(FaceIndexPair(v, ti, ni));
            proof {
                assert(spec_rebase_pair(ps[k as int], st) == Ok::<_, Error>(
                    FaceIndexPair(v, ti, ni),
                ));
                if spec_rebase(ps.skip(k as int + 1), st) is Ok {
                    assert(out@ + spec_rebase(ps.skip(k as int + 1), st)->Ok_0 =~= before
                        + spec_rebase(ps.skip(k as int), st)->Ok_0);
                }
            }
            k = k + 1;
        }
        proof {
            assert(ps.skip(ps.len() as int) =~= Seq::<FaceIndexPair>::empty());
            assert(out@ + Seq::<FaceIndexPair>::empty() =~= out@);
        }
        Ok(out)
    }

    /// Applies one classified directive to the state.
    fn apply(&mut self, cmd: ObjCommand) -> (r: Result<FeedEvent, Error>)
        ensures
            match (r, spec_apply(old(self)@, cmd@)) {
                (Ok(ev), Ok(sa)) => final(self)@ == sa.0 && ev@ == sa.1,
                (Err(e1), Err(e2)) => e1 == e2 && final(self)@ == old(self)@,
                _ => false,
            },
    {
        match cmd {
            ObjCommand::MaterialLibrary(p) => Ok(FeedEvent::MaterialLibraryNeeded(p)),
            ObjCommand::UseMaterial(n) => {
                let idx = find_material(&self.materials, n.as_str());
                self.current_material = idx;
                proof {
                    assert(final(self)@ =~~= (ParserView {
                        current_material: spec_find_material(old(self)@.materials, n@),
                        ..old(self)@
                    }));
                }
                Ok(FeedEvent::Accepted)
            },
            ObjCommand::Object(n) => {
                self.commit_group(None);
                self.commit_object(n);
                Ok(FeedEvent::Accepted)
            },
            ObjCommand::Group(n) => {
                self.commit_group(n);
                Ok(FeedEvent::Accepted)
            },
            ObjCommand::Vertex(v) => {
                self.vertices.push(v);
                proof {
                    assert(final(self)@ =~~= (ParserView {
                        vertices: old(self)@.vertices.push(v@),
                        ..old(self)@
                    }));
                }
                Ok(FeedEvent::Accepted)
            },
            ObjCommand::VertexUv(v) => {
                self.texture_uvs.push(v);
                proof {
                    assert(final(self)@ =~~= (ParserView {
                        texture_uvs: old(self)@.texture_uvs.push(v@),
                        ..old(self)@
                    }));
                }
                Ok(FeedEvent::Accepted)
            },
            ObjCommand::VertexNormal(v) => {
                self.normals.push(v);
                proof {
                    assert(final(self)@ =~~= (ParserView {
                        normals: old(self)@.normals.push(v@),
                        ..old(self)@
                    }));
                }
                Ok(FeedEvent::Accepted)
            },
            ObjCommand::Face(ps) => {
                match self.rebase_face(&ps) {
                    Ok(rs) => {
                        let material = self.current_material;
                        self.faces.push((rs, material));
                        proof {
                            let st = old(self)@;
                            assert(final(self)@ =~~= (ParserView {
                                faces: st.faces.push(
                                    FaceView {
                                        pairs: spec_rebase(ps@, st)->Ok_0,
                                        material: st.current_material,
                                    },
                                ),
                                ..st
                            }));
                        }
                        Ok(FeedEvent::Accepted)
                    },
                    Err(e) => Err(e),
                }
            },
            ObjCommand::Unknown(_, _) => Ok(FeedEvent::Accepted),
        }
    }

    /// Feeds one raw line of OBJ text.  Blank lines and comments are
    /// skipped; anything else is tokenized, classified and applied.  On an
    /// error the state is left as it was, and the caller abandons the
    /// parse; there is no partial recovery.
    pub fn feed_line(&mut self, line: &str) -> (r: Result<FeedEvent, Error>)
        ensures
            match (r, spec_feed(old(self)@, line@)) {
                (Ok(ev), Ok(sa)) => final(self)@ == sa.0 && ev@ == sa.1,
                (Err(e1), Err(e2)) => e1 == e2 && final(self)@ == old(self)@,
                _ => false,
            },
    {
        let tokens = match content_tokens(line) {
            None => {
                return Ok(FeedEvent::Accepted);
            },
            Some(t) => t,
        };
        let data = clone_tail(&tokens, 1);
        let cmd = match parse_obj_line(tokens[0].as_str(), &data) {
            Ok(c) => c,
            Err(e) => {
                proof {
                    assert(tokens.deep_view()[0] == tokens_of(line@)[0]);
                }
                return Err(e);
            },
        };
        proof {
            assert(tokens.deep_view()[0] == tokens_of(line@)[0]);
        }
        self.apply(cmd)
    }

    /// Ends the input: commits the trailing group and object exactly as
    /// unnamed `g` and `o` directives would, and returns the document.
    pub fn finish(self) -> (r: WavefrontObj)
        ensures
            r@ == spec_finish(self@),
    {
        let mut p = self;
        p.commit_group(None);
        p.commit_object(None);
        let r = WavefrontObj { objects: p.objects, materials: p.materials };
        proof {
            assert(r@ =~~= spec_finish(self@));
        }
        r
    }
}

/// The mathematical state of the MTL accumulator: the materials committed
/// so far, and the name and property table of the record under
/// construction.
#[verifier::ext_equal]
pub struct MtlState {
    pub finished: Seq<MaterialView>,
    pub name: Seq<char>,
    pub properties: Seq<(Seq<char>, PropertyView)>,
}

/// The accumulator state before any line: no materials, an unnamed record
/// with no properties.
pub open spec fn initial_mtl_state() -> MtlState {
    MtlState { finished: Seq::empty(), name: Seq::empty(), properties: Seq::empty() }
}

/// The transition that one classified MTL directive makes.  `newmtl`
/// commits the record under construction only when it has accumulated at
/// least one property; property directives store into the record's table;
/// unknown directives change nothing.
pub open spec fn spec_mtl_apply(st: MtlState, cmd: MtlCommandView) -> MtlState {
    match cmd {
        MtlCommandView::NewMaterial(next) => MtlState {
            finished: if st.properties.len() > 0 {
                st.finished.push(MaterialView { name: st.name, properties: st.properties })
            } else {
                st.finished
            },
            name: next,
            properties: Seq::empty(),
        },
        MtlCommandView::Integer(k, v) => MtlState {
            properties: spec_insert(st.properties, k, PropertyView::Integer(v)),
            ..st
        },
        MtlCommandView::Float(k, t) => MtlState {
            properties: spec_insert(st.properties, k, PropertyView::Float(t)),
            ..st
        },
        MtlCommandView::Vector(k, v) => MtlState {
            properties: spec_insert(st.properties, k, PropertyView::Vector(v)),
            ..st
        },
        MtlCommandView::Path(k, p) => MtlState {
            properties: spec_insert(st.properties, k, PropertyView::Path(p)),
            ..st
        },
        MtlCommandView::Unknown(_, _) => st,
    }
}

/// What feeding one raw MTL line does: a blank or comment line changes
/// nothing; otherwise the line is tokenized, classified and applied.
pub open spec fn spec_mtl_step(st: MtlState, line: Seq<char>) -> Result<MtlState, Error> {
    if line_skipped(line) {
        Ok(st)
    } else {
        let toks = tokens_of(line);
        match spec_mtl_line(toks[0], toks.skip(1)) {
            Err(e) => Err(e),
            Ok(cmd) => Ok(spec_mtl_apply(st, cmd)),
        }
    }
}

/// Feeding a sequence of MTL lines in order; the first error aborts.
pub open spec fn spec_mtl_fold(st: MtlState, lines: Seq<Seq<char>>) -> Result<MtlState, Error>
    decreases lines.len(),
{
    if lines.len() == 0 {
        Ok(st)
    } else {
        match spec_mtl_step(st, lines[0]) {
            Err(e) => Err(e),
            Ok(st2) => spec_mtl_fold(st2, lines.skip(1)),
        }
    }
}

/// What parsing whole MTL text yields: the committed materials, with the
/// final record under construction always committed, even when it has no
/// properties.
pub open spec fn spec_parse_mtl(source: Seq<char>) -> Result<Seq<MaterialView>, Error> {
    match spec_mtl_fold(initial_mtl_state(), split_seq(source, '\n')) {
        Err(e) => Err(e),
        Ok(st) => Ok(st.finished.push(MaterialView { name: st.name, properties: st.properties })),
    }
}

/// Parses MTL text into its material table.  The text is split into
/// lines; blank lines and comments are skipped; `newmtl` commits the
/// previous record when it has accumulated at least one property, and the
/// record in progress at the end of the text is always committed.
pub fn parse_mtl(source: &str) -> (r: Result<Vec<Material>, Error>)
    ensures
        r is Ok <==> spec_parse_mtl(source@) is Ok,
        r matches Ok(ms) ==> spec_parse_mtl(source@) == Ok::<_, Error>(
            ms@.map_values(|m: Material| m@),
        ),
        r matches Err(e) ==> spec_parse_mtl(source@) == Err::<Seq<MaterialView>, _>(e),
{
    let ghost lv = split_seq(source@, '\n');
    let lines = split_on(source, '\n');
    let mut materials: Vec<Material> = Vec::new();
    let mut name: String = String::new();
    let mut properties: Vec<(String, MaterialProperty)> = Vec::new();
    let mut i: usize = 0;
    proof {
        assert(lv.skip(0) =~= lv);
        assert((MtlState {
            finished: materials@.map_values(|m: Material| m@),
            name: name@,
            properties: properties@.map_values(|p: (String, MaterialProperty)| (p.0@, p.1@)),
        }) =~~= initial_mtl_state());
    }
    while i < lines.len()
        invariant
            i <= lines@.len(),
            lv == split_seq(source@, '\n'),
            lines.deep_view() == lv,
            spec_mtl_fold(initial_mtl_state(), lv) == spec_mtl_fold(
                MtlState {
                    finished: materials@.map_values(|m: Material| m@),
                    name: name@,
                    properties: properties@.map_values(
                        |p: (String, MaterialProperty)| (p.0@, p.1@),
                    ),
                },
                lv.skip(i as int),
            ),
        decreases lines@.len() - i,
    {
        let ghost cur = MtlState {
            finished: materials@.map_values(|m: Material| m@),
            name: name@,
            properties: properties@.map_values(|p: (String, MaterialProperty)| (p.0@, p.1@)),
        };
        proof {
            assert(lv.skip(i as int)[0] == lv[i as int]);
            assert(lv.skip(i as int).skip(1) =~= lv.skip(i as int + 1));
            assert(lines.deep_view()[i as int] == lines@[i as int]@);
        }
        let line = lines[i].as_str();
        let tokens = match content_tokens(line) {
            None => {
                i = i + 1;
                continue;
            },
            Some(t) => t,
        };
        proof {
            assert(tokens.deep_view()[0] == tokens_of(line@)[0]);
        }
        let data = clone_tail(&tokens, 1);
        let cmd = match parse_mtl_line(tokens[0].as_str(), &data) {
            Ok(c) => c,
            Err(e) => {
                return Err(e);
            },
        };
        match cmd {
            MtlCommand::NewMaterial(next) => {
                if properties.len() > 0 {
                    let mut finished_props: Vec<(String, MaterialProperty)> = Vec::new();
                    core::mem::swap(&mut properties, &mut finished_props);
                    let finished = Material { name, properties: finished_props };
                    name = next;
                    materials.push(finished);
                } else {
                    name = next;
                }
            },
            MtlCommand::Integer(k, v) => {
                insert_property(&mut properties, k, MaterialProperty::Integer(v));
            },
            MtlCommand::Float(k, t) => {
                insert_property(&mut properties, k, MaterialProperty::Float(t));
            },
            MtlCommand::Vector(k, v) => {
                insert_property(&mut properties, k, MaterialProperty::Vector(v));
            },
            MtlCommand::Path(k, p) => {
                insert_property(&mut properties, k, MaterialProperty::Path(p));
            },
            MtlCommand::Unknown(_, _) => {},
        }
        proof {
            assert((MtlState {
                finished: materials@.map_values(|m: Material| m@),
                name: name@,
                properties: properties@.map_values(|p: (String, MaterialProperty)| (p.0@, p.1@)),
            }) =~~= spec_mtl_step(cur, lv[i as int])->Ok_0);
        }
        i = i + 1;
    }
    proof {
        assert(lv.skip(lines@.len() as int) =~= Seq::<Seq<char>>::empty());
    }
    let last = Material { name, properties };
    materials.push(last);
    proof {
        assert(spec_parse_mtl(source@) matches Ok(ms) && ms =~~= materials@.map_values(
            |m: Material| m@,
        ));
    }
    Ok(materials)
}

/// The tokens of `data` from position `start` on, cloned.
fn clone_tail(data: &Vec<String>, start: usize) -> (r: Vec<String>)
    requires
        start <= data@.len(),
    ensures
        r.deep_view() == data.deep_view().skip(start as int),
{
    let mut out: Vec<String> = Vec::new();
    let mut i: usize = start;
    proof {
        assert(out.deep_view() =~~= data.deep_view().subrange(start as int, start as int));
    }
    while i < data.len()
        invariant
            start <= i <= data@.len(),
            out@.len() == i - start,
            out.deep_view() == data.deep_view().subrange(start as int, i as int),
        decreases data@.len() - i,
    {
        out.push(data[i].clone());
        proof {
            assert(out.deep_view() =~~= data.deep_view().subrange(start as int, i as int + 1));
        }
        i = i + 1;
    }
    proof {
        assert(data.deep_view().subrange(start as int, data@.len() as int) =~~= data.deep_view()
            .skip(start as int));
    }
    out
}

} // verus!
