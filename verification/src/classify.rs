//! Classification of tokenized lines into typed OBJ and MTL commands,
//! including the resolution of compound face-vertex tokens.

use vstd::prelude::*;

use crate::error::Error;
use crate::numbers::{dec_val, is_float_token, is_uint_token, uint_digits, all_digits, is_float,
    parse_u64, parse_u32, scan_all_digits};
use crate::obj::{FaceIndexPair, Vec2, Vec2View, Vec3, Vec3View};
use crate::text::{has_prefix, split_on, split_seq, str_eq, unescape, unescape_seq};

verus! {

/// A typed OBJ directive.
#[derive(Debug, PartialEq, Eq)]
pub enum ObjCommand {
    /// `mtllib`: load the named material library.
    MaterialLibrary(String),
    /// `usemtl`: select the named material for the faces that follow.
    UseMaterial(String),
    /// `o`: close the current object and open a new one.
    Object(Option<String>),
    /// `g`: close the current group and open a new one.
    Group(Option<String>),
    /// `v`: a vertex position.
    Vertex(Vec3),
    /// `vt`: a texture coordinate.
    VertexUv(Vec2),
    /// `vn`: a normal.
    VertexNormal(Vec3),
    /// `f`: a face, as zero-based global index pairs.
    Face(Vec<FaceIndexPair>),
    /// Any other keyword, with its arguments; ignored by the assembler.
    Unknown(String, Vec<String>),
}

/// The mathematical value of an [`ObjCommand`].
pub enum ObjCommandView {
    MaterialLibrary(Seq<char>),
    UseMaterial(Seq<char>),
    Object(Option<Seq<char>>),
    Group(Option<Seq<char>>),
    Vertex(Vec3View),
    VertexUv(Vec2View),
    VertexNormal(Vec3View),
    Face(Seq<FaceIndexPair>),
    Unknown(Seq<char>, Seq<Seq<char>>),
}

impl View for ObjCommand {
    type V = ObjCommandView;

    open spec fn view(&self) -> ObjCommandView {
        match self {
            ObjCommand::MaterialLibrary(p) => ObjCommandView::MaterialLibrary(p@),
            ObjCommand::UseMaterial(n) => ObjCommandView::UseMaterial(n@),
            ObjCommand::Object(n) => ObjCommandView::Object(
                match n {
                    Some(s) => Some(s@),
                    None => None,
                },
            ),
            ObjCommand::Group(n) => ObjCommandView::Group(
                match n {
                    Some(s) => Some(s@),
                    None => None,
                },
            ),
            ObjCommand::Vertex(v) => ObjCommandView::Vertex(v@),
            ObjCommand::VertexUv(v) => ObjCommandView::VertexUv(v@),
            ObjCommand::VertexNormal(v) => ObjCommandView::VertexNormal(v@),
            ObjCommand::Face(ps) => ObjCommandView::Face(ps@),
            ObjCommand::Unknown(k, data) => ObjCommandView::Unknown(k@, data.deep_view()),
        }
    }
}

/// A typed MTL directive.
#[derive(Debug, PartialEq, Eq)]
pub enum MtlCommand {
    /// `newmtl`: commit the material under construction and start a new one.
    NewMaterial(String),
    /// An integer property: the keyword and its value.
    Integer(String, u32),
    /// A float property: the keyword and the value's source token.
    Float(String, String),
    /// A vector property: the keyword and its three tokens.
    Vector(String, Vec3),
    /// A path property: the keyword and the unescaped path.
    Path(String, String),
    /// Any other keyword, with its arguments; ignored by the accumulator.
    Unknown(String, Vec<String>),
}

/// The mathematical value of an [`MtlCommand`].
pub enum MtlCommandView {
    NewMaterial(Seq<char>),
    Integer(Seq<char>, u32),
    Float(Seq<char>, Seq<char>),
    Vector(Seq<char>, Vec3View),
    Path(Seq<char>, Seq<char>),
    Unknown(Seq<char>, Seq<Seq<char>>),
}

impl View for MtlCommand {
    type V = MtlCommandView;

    open spec fn view(&self) -> MtlCommandView {
        match self {
            MtlCommand::NewMaterial(n) => MtlCommandView::NewMaterial(n@),
            MtlCommand::Integer(k, v) => MtlCommandView::Integer(k@, *v),
            MtlCommand::Float(k, t) => MtlCommandView::Float(k@, t@),
            MtlCommand::Vector(k, v) => MtlCommandView::Vector(k@, v@),
            MtlCommand::Path(k, p) => MtlCommandView::Path(k@, p@),
            MtlCommand::Unknown(k, data) => MtlCommandView::Unknown(k@, data.deep_view()),
        }
    }
}

/// What reading one face index field yields: the zero-based index, or the
/// error mandated for the field.  A zero or negative source index is an
/// invalid index; anything else that is not an unsigned integer within
/// `usize`, a parse failure.
pub open spec fn spec_index_field(f: Seq<char>) -> Result<usize, Error> {
    if f.len() > 1 && f[0] == '-' && all_digits(f.skip(1)) {
        Err(Error::InvalidIndex)
    } else if is_uint_token(f) {
        if dec_val(uint_digits(f)) == 0 {
            Err(Error::InvalidIndex)
        } else if dec_val(uint_digits(f)) > usize::MAX {
            Err(Error::ParseError)
        } else {
            Ok((dec_val(uint_digits(f)) - 1) as usize)
        }
    } else {
        Err(Error::ParseError)
    }
}

/// Reads one face index field: a one-based source index becomes zero-based.
fn parse_index_field(f: &str) -> (r: Result<usize, Error>)
    ensures
        r == spec_index_field(f@),
{
    let n = f.unicode_len();
    if n > 1 && f.get_char(0) == '-' {
        if scan_all_digits(f, 1, n) {
            return Err(Error::InvalidIndex);
        }
    }
    match parse_u64(f) {
        Some(v) => {
            if v == 0 {
                Err(Error::InvalidIndex)
            } else if v > usize::MAX as u64 {
                Err(Error::ParseError)
            } else {
                Ok((v - 1) as usize)
            }
        },
        None => {
            proof {
                if is_uint_token(f@) {
                    assert(dec_val(uint_digits(f@)) > u64::MAX >= usize::MAX);
                }
            }
            Err(Error::ParseError)
        },
    }
}

/// What reading one face-vertex token yields: the three indices, the
/// optional ones absent where their field is missing or empty, or the
/// error of the leftmost offending field.  An empty vertex field is a
/// malformed face vertex.
pub open spec fn spec_face_pair(t: Seq<char>) -> Result<FaceIndexPair, Error> {
    let fields = split_seq(t, '/');
    if fields[0].len() == 0 {
        Err(Error::InvalidFaceVertex)
    } else {
        match spec_index_field(fields[0]) {
            Err(e) => Err(e),
            Ok(vi) => {
                let uv = if fields.len() < 2 || fields[1].len() == 0 {
                    Ok(None)
                } else {
                    match spec_index_field(fields[1]) {
                        Ok(x) => Ok(Some(x)),
                        Err(e) => Err(e),
                    }
                };
                match uv {
                    Err(e) => Err(e),
                    Ok(ti) => {
                        let nm = if fields.len() < 3 || fields[2].len() == 0 {
                            Ok(None)
                        } else {
                            match spec_index_field(fields[2]) {
                                Ok(x) => Ok(Some(x)),
                                Err(e) => Err(e),
                            }
                        };
                        match nm {
                            Err(e) => Err(e),
                            Ok(ni) => Ok(FaceIndexPair(vi, ti, ni)),
                        }
                    },
                }
            },
        }
    }
}

/// Reads one face-vertex token of the form `v`, `v/t`, `v//n` or `v/t/n`.
pub fn face_pair(t: &str) -> (r: Result<FaceIndexPair, Error>)
    ensures
        r == spec_face_pair(t@),
{
    let fields = split_on(t, '/');
    let first = &fields[0];
    if first.as_str().unicode_len() == 0 {
        return Err(Error::InvalidFaceVertex);
    }
    let vi = match parse_index_field(first.as_str()) {
        Ok(v) => v,
        Err(e) => {
            return Err(e);
        },
    };
    let ti = if fields.len() < 2 || fields[1].as_str().unicode_len() == 0 {
        None
    } else {
        match parse_index_field(fields[1].as_str()) {
            Ok(v) => Some(v),
            Err(e) => {
                return Err(e);
            },
        }
    };
    let ni = if fields.len() < 3 || fields[2].as_str().unicode_len() == 0 {
        None
    } else {
        match parse_index_field(fields[2].as_str()) {
            Ok(v) => Some(v),
            Err(e) => {
                return Err(e);
            },
        }
    };
    Ok(FaceIndexPair(vi, ti, ni))
}

/// What reading a whole face line yields: the index pair of each token in
/// order, or the error of the leftmost offending token.
pub open spec fn spec_face_pairs(data: Seq<Seq<char>>) -> Result<Seq<FaceIndexPair>, Error>
    decreases data.len(),
{
    if data.len() == 0 {
        Ok(Seq::empty())
    } else {
        match spec_face_pair(data[0]) {
            Err(e) => Err(e),
            Ok(p) => match spec_face_pairs(data.skip(1)) {
                Err(e) => Err(e),
                Ok(rest) => Ok(seq![p] + rest),
            },
        }
    }
}

/// Reads the tokens of a face line into index pairs.
pub fn parse_face(data: &Vec<String>) -> (r: Result<Vec<FaceIndexPair>, Error>)
    ensures
        r is Ok <==> spec_face_pairs(data.deep_view()) is Ok,
        r matches Ok(ps) ==> spec_face_pairs(data.deep_view()) == Ok::<_, Error>(ps@),
        r matches Err(e) ==> spec_face_pairs(data.deep_view()) == Err::<Seq<FaceIndexPair>, _>(e),
{
    let ghost dv = data.deep_view();
    let mut pairs: Vec<FaceIndexPair> = Vec::new();
    let mut k: usize = 0;
    proof {
        assert(dv.skip(0) =~= dv);
        if spec_face_pairs(dv) is Ok {
            assert(pairs@ + spec_face_pairs(dv)->Ok_0 =~= spec_face_pairs(dv)->Ok_0);
        }
    }
    while k < data.len()
        invariant
            k <= data.len(),
            dv == data.deep_view(),
            match spec_face_pairs(dv.skip(k as int)) {
                Ok(rest) => spec_face_pairs(dv) matches Ok(all) && all == pairs@ + rest,
                Err(e) => spec_face_pairs(dv) == Err::<Seq<FaceIndexPair>, Error>(e),
            },
        decreases data.len() - k,
    {
        let ghost suffix = dv.skip(k as int);
        proof {
            assert(suffix[0] == dv[k as int]);
            assert(suffix.skip(1) =~= dv.skip(k as int + 1));
        }
        match face_pair(data[k].as_str()) {
            Ok(p) => {
                let ghost before = pairs@;
                pairs.push(p);
                proof {
                    if spec_face_pairs(dv.skip(k as int + 1)) is Ok {
                        assert(pairs@ + spec_face_pairs(dv.skip(k as int + 1))->Ok_0 =~= before
                            + spec_face_pairs(suffix)->Ok_0);
                    }
                }
            },
            Err(e) => {
                return Err(e);
            },
        }
        k = k + 1;
    }
    proof {
        assert(dv.skip(data.len() as int) =~= Seq::<Seq<char>>::empty());
        assert(pairs@ + Seq::<FaceIndexPair>::empty() =~= pairs@);
    }
    Ok(pairs)
}

/// What reading exactly three float tokens yields: the three tokens, a
/// count error naming how many tokens were found, or a parse failure for
/// the leftmost malformed token.  Extra tokens are ignored.
pub open spec fn spec_take_vec3(data: Seq<Seq<char>>) -> Result<Vec3View, Error> {
    if data.len() < 1 {
        Err(Error::NotEnoughData { found: data.len() as usize, expected: 3 })
    } else if !is_float_token(data[0]) {
        Err(Error::ParseError)
    } else if data.len() < 2 {
        Err(Error::NotEnoughData { found: data.len() as usize, expected: 3 })
    } else if !is_float_token(data[1]) {
        Err(Error::ParseError)
    } else if data.len() < 3 {
        Err(Error::NotEnoughData { found: data.len() as usize, expected: 3 })
    } else if !is_float_token(data[2]) {
        Err(Error::ParseError)
    } else {
        Ok(Vec3View { x: data[0], y: data[1], z: data[2] })
    }
}

/// Reads the first three tokens as float tokens.
pub fn take_vec3(data: &Vec<String>) -> (r: Result<Vec3, Error>)
    ensures
        r is Ok <==> spec_take_vec3(data.deep_view()) is Ok,
        r matches Ok(v) ==> spec_take_vec3(data.deep_view()) == Ok::<_, Error>(v@),
        r matches Err(e) ==> spec_take_vec3(data.deep_view()) == Err::<Vec3View, _>(e),
{
    if data.len() < 1 {
        return Err(Error::NotEnoughData { found: data.len(), expected: 3 });
    }
    if !is_float(data[0].as_str()) {
        return Err(Error::ParseError);
    }
    if data.len() < 2 {
        return Err(Error::NotEnoughData { found: data.len(), expected: 3 });
    }
    if !is_float(data[1].as_str()) {
        return Err(Error::ParseError);
    }
    if data.len() < 3 {
        return Err(Error::NotEnoughData { found: data.len(), expected: 3 });
    }
    if !is_float(data[2].as_str()) {
        return Err(Error::ParseError);
    }
    Ok(Vec3 { x: data[0].clone(), y: data[1].clone(), z: data[2].clone() })
}

/// What reading exactly two float tokens yields, as for three.
pub open spec fn spec_take_vec2(data: Seq<Seq<char>>) -> Result<Vec2View, Error> {
    if data.len() < 1 {
        Err(Error::NotEnoughData { found: data.len() as usize, expected: 2 })
    } else if !is_float_token(data[0]) {
        Err(Error::ParseError)
    } else if data.len() < 2 {
        Err(Error::NotEnoughData { found: data.len() as usize, expected: 2 })
    } else if !is_float_token(data[1]) {
        Err(Error::ParseError)
    } else {
        Ok(Vec2View { u: data[0], v: data[1] })
    }
}

/// Reads the first two tokens as float tokens.
pub fn take_vec2(data: &Vec<String>) -> (r: Result<Vec2, Error>)
    ensures
        r is Ok <==> spec_take_vec2(data.deep_view()) is Ok,
        r matches Ok(v) ==> spec_take_vec2(data.deep_view()) == Ok::<_, Error>(v@),
        r matches Err(e) ==> spec_take_vec2(data.deep_view()) == Err::<Vec2View, _>(e),
{
    if data.len() < 1 {
        return Err(Error::NotEnoughData { found: data.len(), expected: 2 });
    }
    if !is_float(data[0].as_str()) {
        return Err(Error::ParseError);
    }
    if data.len() < 2 {
        return Err(Error::NotEnoughData { found: data.len(), expected: 2 });
    }
    if !is_float(data[1].as_str()) {
        return Err(Error::ParseError);
    }
    Ok(Vec2 { u: data[0].clone(), v: data[1].clone() })
}

/// What reading one unsigned integer token yields: its value, a count
/// error when no token is present, or a parse failure.
pub open spec fn spec_take_u32(data: Seq<Seq<char>>) -> Result<u32, Error> {
    if data.len() < 1 {
        Err(Error::NotEnoughData { found: 0, expected: 1 })
    } else if is_uint_token(data[0]) && dec_val(uint_digits(data[0])) <= u32::MAX {
        Ok(dec_val(uint_digits(data[0])) as u32)
    } else {
        Err(Error::ParseError)
    }
}

/// Reads the first token as an unsigned integer.
pub fn take_single(data: &Vec<String>) -> (r: Result<u32, Error>)
    ensures
        r == spec_take_u32(data.deep_view()),
{
    if data.len() < 1 {
        return Err(Error::NotEnoughData { found: 0, expected: 1 });
    }
    match parse_u32(data[0].as_str()) {
        Some(v) => Ok(v),
        None => Err(Error::ParseError),
    }
}

/// What reading one float token yields: the token itself, a count error
/// when no token is present, or a parse failure.
pub open spec fn spec_take_float(data: Seq<Seq<char>>) -> Result<Seq<char>, Error> {
    if data.len() < 1 {
        Err(Error::NotEnoughData { found: 0, expected: 1 })
    } else if is_float_token(data[0]) {
        Ok(data[0])
    } else {
        Err(Error::ParseError)
    }
}

/// Reads the first token as a float token.
pub fn take_float(data: &Vec<String>) -> (r: Result<String, Error>)
    ensures
        r is Ok <==> spec_take_float(data.deep_view()) is Ok,
        r matches Ok(t) ==> spec_take_float(data.deep_view()) == Ok::<_, Error>(t@),
        r matches Err(e) ==> spec_take_float(data.deep_view()) == Err::<Seq<char>, _>(e),
{
    if data.len() < 1 {
        return Err(Error::NotEnoughData { found: 0, expected: 1 });
    }
    if !is_float(data[0].as_str()) {
        return Err(Error::ParseError);
    }
    Ok(data[0].clone())
}

/// Clones a token list.
fn clone_tokens(data: &Vec<String>) -> (r: Vec<String>)
    ensures
        r.deep_view() == data.deep_view(),
{
    let mut out: Vec<String> = Vec::new();
    let mut i: usize = 0;
    proof {
        assert(out.deep_view() =~~= data.deep_view().subrange(0, 0));
    }
    while i < data.len()
        invariant
            i <= data.len(),
            out@.len() == i,
            out.deep_view() == data.deep_view().subrange(0, i as int),
        decreases data.len() - i,
    {
        out.push(data[i].clone());
        proof {
            assert(out.deep_view() =~~= data.deep_view().subrange(0, i as int + 1));
        }
        i = i + 1;
    }
    proof {
        assert(data.deep_view().subrange(0, data.len() as int) =~~= data.deep_view());
    }
    out
}

/// What classifying an OBJ line yields: the typed command for its keyword
/// and arguments, or the error of the offending argument.  A keyword that
/// is none of the recognized ones becomes an unknown command, not an
/// error.
pub open spec fn spec_obj_line(kw: Seq<char>, data: Seq<Seq<char>>) -> Result<
    ObjCommandView,
    Error,
> {
    if kw == "mtllib"@ {
        let raw = if data.len() >= 1 {
            data[0]
        } else {
            Seq::empty()
        };
        Ok(ObjCommandView::MaterialLibrary(unescape_seq(raw)))
    } else if kw == "usemtl"@ {
        if data.len() >= 1 {
            Ok(ObjCommandView::UseMaterial(data[0]))
        } else {
            Err(Error::NotEnoughData { found: 0, expected: 1 })
        }
    } else if kw == "o"@ {
        Ok(
            ObjCommandView::Object(
                if data.len() >= 1 {
                    Some(data[0])
                } else {
                    None
                },
            ),
        )
    } else if kw == "g"@ {
        Ok(
            ObjCommandView::Group(
                if data.len() >= 1 {
                    Some(data[0])
                } else {
                    None
                },
            ),
        )
    } else if kw == "v"@ {
        match spec_take_vec3(data) {
            Ok(v) => Ok(ObjCommandView::Vertex(v)),
            Err(e) => Err(e),
        }
    } else if kw == "vt"@ {
        match spec_take_vec2(data) {
            Ok(v) => Ok(ObjCommandView::VertexUv(v)),
            Err(e) => Err(e),
        }
    } else if kw == "vn"@ {
        match spec_take_vec3(data) {
            Ok(v) => Ok(ObjCommandView::VertexNormal(v)),
            Err(e) => Err(e),
        }
    } else if kw == "f"@ {
        match spec_face_pairs(data) {
            Ok(ps) => Ok(ObjCommandView::Face(ps)),
            Err(e) => Err(e),
        }
    } else {
        Ok(ObjCommandView::Unknown(kw, data))
    }
}

/// Classifies one OBJ line, given its keyword and argument tokens.
pub fn parse_obj_line(keyword: &str, data: &Vec<String>) -> (r: Result<ObjCommand, Error>)
    ensures
        r is Ok <==> spec_obj_line(keyword@, data.deep_view()) is Ok,
        r matches Ok(c) ==> spec_obj_line(keyword@, data.deep_view()) == Ok::<_, Error>(c@),
        r matches Err(e) ==> spec_obj_line(keyword@, data.deep_view()) == Err::<
            ObjCommandView,
            _,
        >(e),
{
    if str_eq(keyword, "mtllib") {
        let path = if data.len() >= 1 {
            unescape(data[0].as_str())
        } else {
            proof {
                assert(unescape_seq(Seq::<char>::empty()) =~= Seq::<char>::empty());
            }
            String::new()
        };
        Ok(ObjCommand::MaterialLibrary(path))
    } else if str_eq(keyword, "usemtl") {
        if data.len() >= 1 {
            Ok(ObjCommand::UseMaterial(data[0].clone()))
        } else {
            Err(Error::NotEnoughData { found: 0, expected: 1 })
        }
    } else if str_eq(keyword, "o") {
        let name = if data.len() >= 1 {
            Some(data[0].clone())
        } else {
            None
        };
        Ok(ObjCommand::Object(name))
    } else if str_eq(keyword, "g") {
        let name = if data.len() >= 1 {
            Some(data[0].clone())
        } else {
            None
        };
        Ok(ObjCommand::Group(name))
    } else if str_eq(keyword, "v") {
        match take_vec3(data) {
            Ok(v) => Ok(ObjCommand::Vertex(v)),
            Err(e) => Err(e),
        }
    } else if str_eq(keyword, "vt") {
        match take_vec2(data) {
            Ok(v) => Ok(ObjCommand::VertexUv(v)),
            Err(e) => Err(e),
        }
    } else if str_eq(keyword, "vn") {
        match take_vec3(data) {
            Ok(v) => Ok(ObjCommand::VertexNormal(v)),
            Err(e) => Err(e),
        }
    } else if str_eq(keyword, "f") {
        match parse_face(data) {
            Ok(ps) => Ok(ObjCommand::Face(ps)),
            Err(e) => Err(e),
        }
    } else {
        Ok(ObjCommand::Unknown(String::from_str(keyword), clone_tokens(data)))
    }
}

/// What classifying an MTL line yields.  `newmtl` starts a material;
/// `illum` carries an integer; keywords starting with `K` carry vectors,
/// those starting with `N` floats, and those starting with `map_` paths.
/// Anything else becomes an unknown command, not an error.
pub open spec fn spec_mtl_line(kw: Seq<char>, data: Seq<Seq<char>>) -> Result<
    MtlCommandView,
    Error,
> {
    if kw == "newmtl"@ {
        let name = if data.len() >= 1 {
            data[0]
        } else {
            Seq::empty()
        };
        Ok(MtlCommandView::NewMaterial(name))
    } else if kw == "illum"@ {
        match spec_take_u32(data) {
            Ok(v) => Ok(MtlCommandView::Integer(kw, v)),
            Err(e) => Err(e),
        }
    } else if kw.len() > 0 && kw[0] == 'K' {
        match spec_take_vec3(data) {
            Ok(v) => Ok(MtlCommandView::Vector(kw, v)),
            Err(e) => Err(e),
        }
    } else if kw.len() > 0 && kw[0] == 'N' {
        match spec_take_float(data) {
            Ok(t) => Ok(MtlCommandView::Float(kw, t)),
            Err(e) => Err(e),
        }
    } else if kw.len() >= "map_"@.len() && kw.subrange(0, "map_"@.len() as int) == "map_"@ {
        let raw = if data.len() >= 1 {
            data[0]
        } else {
            Seq::empty()
        };
        Ok(MtlCommandView::Path(kw, unescape_seq(raw)))
    } else {
        Ok(MtlCommandView::Unknown(kw, data))
    }
}

/// Classifies one MTL line, given its keyword and argument tokens.
pub fn parse_mtl_line(keyword: &str, data: &Vec<String>) -> (r: Result<MtlCommand, Error>)
    ensures
        r is Ok <==> spec_mtl_line(keyword@, data.deep_view()) is Ok,
        r matches Ok(c) ==> spec_mtl_line(keyword@, data.deep_view()) == Ok::<_, Error>(c@),
        r matches Err(e) ==> spec_mtl_line(keyword@, data.deep_view()) == Err::<
            MtlCommandView,
            _,
        >(e),
{
    if str_eq(keyword, "newmtl") {
        let name = if data.len() >= 1 {
            data[0].clone()
        } else {
            String::new()
        };
        Ok(MtlCommand::NewMaterial(name))
    } else if str_eq(keyword, "illum") {
        match take_single(data) {
            Ok(v) => Ok(MtlCommand::Integer(String::from_str(keyword), v)),
            Err(e) => Err(e),
        }
    } else if keyword.unicode_len() > 0 && keyword.get_char(0) == 'K' {
        match take_vec3(data) {
            Ok(v) => Ok(MtlCommand::Vector(String::from_str(keyword), v)),
            Err(e) => Err(e),
        }
    } else if keyword.unicode_len() > 0 && keyword.get_char(0) == 'N' {
        match take_float(data) {
            Ok(t) => Ok(MtlCommand::Float(String::from_str(keyword), t)),
            Err(e) => Err(e),
        }
    } else if has_prefix(keyword, "map_") {
        let path = if data.len() >= 1 {
            unescape(data[0].as_str())
        } else {
            proof {
                assert(unescape_seq(Seq::<char>::empty()) =~= Seq::<char>::empty());
            }
            String::new()
        };
        Ok(MtlCommand::Path(String::from_str(keyword), path))
    } else {
        Ok(MtlCommand::Unknown(String::from_str(keyword), clone_tokens(data)))
    }
}

} // verus!
