//! The line-by-line loader: directives, the state they act on, and the
//! models that come out.

use vstd::prelude::*;
use vstd::slice::slice_subrange;
use vstd::utf8::{decode_utf8, valid_utf8};
use crate::obj::error::ObjError;
use crate::obj::export::export_faces;
use crate::obj::face::{face_views, parse_face, parse_face_spec, Face, FaceView};
use crate::obj::mesh::{export_spec, Mesh, MeshView, Model, ModelView};
use crate::obj::scalar::{decode_text, read_scalar};
use crate::obj::text::{
    fields, fields_from, find_byte, lemma_fields_of_suffix, lemma_sep_pos, lines, next_field,
    pieces_from, skip_whitespace, skip_word, spaces_end, trim_end, trimmed_from, word_end,
    LINE_FEED,
};

verus! {

/// What the first field of a line asks for.
#[derive(Debug, Clone, Copy, PartialEq, Eq, Structural)]
pub enum Keyword {
    /// `#`: the line is a comment.
    Comment,
    /// `v`: a position of three scalars.
    Position,
    /// `vn`: a normal of three scalars.
    Normal,
    /// `vt`: a texture coordinate of two scalars.
    TexCoord,
    /// `f` or `l`: a face.
    Face,
    /// `o` or `g`: a new object or group begins.
    Group,
    /// `mtllib`: a material library, which is recognised and not read.
    MaterialLib,
    /// Anything else; such a line is passed over.
    Unknown,
}

/// The keyword that the field `word` is.
pub open spec fn keyword_of(word: Seq<u8>) -> Keyword {
    if word == seq![35u8] {
        Keyword::Comment
    } else if word == seq![118u8] {
        Keyword::Position
    } else if word == seq![118u8, 110u8] {
        Keyword::Normal
    } else if word == seq![118u8, 116u8] {
        Keyword::TexCoord
    } else if word == seq![102u8] || word == seq![108u8] {
        Keyword::Face
    } else if word == seq![111u8] || word == seq![103u8] {
        Keyword::Group
    } else if word == seq![109u8, 116u8, 108u8, 108u8, 105u8, 98u8] {
        Keyword::MaterialLib
    } else {
        Keyword::Unknown
    }
}

/// Classifies the first field of a line.
pub fn keyword(word: &[u8]) -> (k: Keyword)
    ensures
        k == keyword_of(word@),
{
    let n = word.len();
    if n == 1 {
        let c = word[0];
        if c == 35 {
            assert(word@ =~= seq![35u8]);
            Keyword::Comment
        } else if c == 118 {
            assert(word@ =~= seq![118u8]);
            Keyword::Position
        } else if c == 102 {
            assert(word@ =~= seq![102u8]);
            Keyword::Face
        } else if c == 108 {
            assert(word@ =~= seq![108u8]);
            Keyword::Face
        } else if c == 111 {
            assert(word@ =~= seq![111u8]);
            Keyword::Group
        } else if c == 103 {
            assert(word@ =~= seq![103u8]);
            Keyword::Group
        } else {
            assert(seq![35u8][0] != c && seq![118u8][0] != c && seq![102u8][0] != c && seq![
                108u8,
            ][0] != c && seq![111u8][0] != c && seq![103u8][0] != c);
            Keyword::Unknown
        }
    } else if n == 2 {
        if word[0] == 118 && word[1] == 110 {
            assert(word@ =~= seq![118u8, 110u8]);
            Keyword::Normal
        } else if word[0] == 118 && word[1] == 116 {
            assert(word@ =~= seq![118u8, 116u8]);
            Keyword::TexCoord
        } else {
            assert(seq![118u8, 110u8][0] == 118 && seq![118u8, 110u8][1] == 110);
            assert(seq![118u8, 116u8][0] == 118 && seq![118u8, 116u8][1] == 116);
            Keyword::Unknown
        }
    } else if n == 6 {
        let ghost lib = seq![109u8, 116u8, 108u8, 108u8, 105u8, 98u8];
        if word[0] == 109 && word[1] == 116 && word[2] == 108 && word[3] == 108 && word[4] == 105
            && word[5] == 98 {
            assert(word@ =~= lib);
            Keyword::MaterialLib
        } else {
            assert(lib[0] == 109 && lib[1] == 116 && lib[2] == 108 && lib[3] == 108 && lib[4]
                == 105 && lib[5] == 98);
            Keyword::Unknown
        }
    } else {
        Keyword::Unknown
    }
}

/// What the loader has gathered so far.
#[verifier::ext_equal]
pub ghost struct LoaderState<T> {
    /// The models that are complete.
    pub models: Seq<ModelView<T>>,
    /// The name of the object or group that is being read.
    pub name: Seq<char>,
    /// All position scalars declared so far.
    pub positions: Seq<T>,
    /// All normal scalars declared so far.
    pub normals: Seq<T>,
    /// All texture scalars declared so far.
    pub tex_coords: Seq<T>,
    /// The faces of the object or group that is being read.
    pub faces: Seq<FaceView>,
}

/// The name of an object or group that gives none.
pub open spec fn default_name() -> Seq<char> {
    "undefined"@
}

/// An attribute array after a vertex directive of `nfields` numeric fields
/// that asked for `size` scalars. Where the directive has enough fields and
/// all of the first `size` were read, `reading` holds their values and they
/// are appended; otherwise the directive is dropped as a whole.
pub open spec fn with_vertex_data<T>(
    before: Seq<T>,
    nfields: nat,
    reading: Option<Seq<T>>,
    size: nat,
) -> Seq<T> {
    match reading {
        Some(values) => if nfields >= size && values.len() == size {
            before + values
        } else {
            before
        },
        None => before,
    }
}

/// The name that an `o` or `g` line gives: what follows the keyword,
/// without the whitespace around it, or [`default_name`] when nothing
/// follows. `None` when the name is not valid UTF-8.
pub open spec fn group_name(line: Seq<u8>) -> Option<Seq<char>> {
    let keyword_end = word_end(line, spaces_end(line, 0));
    let bytes = trimmed_from(line, keyword_end);
    if bytes.len() == 0 {
        Some(default_name())
    } else if valid_utf8(bytes) {
        Some(decode_utf8(bytes))
    } else {
        None
    }
}

impl<T> LoaderState<T> {
    /// The state before the first line.
    pub open spec fn initial() -> LoaderState<T> {
        LoaderState {
            models: Seq::empty(),
            name: default_name(),
            positions: Seq::empty(),
            normals: Seq::empty(),
            tex_coords: Seq::empty(),
            faces: Seq::empty(),
        }
    }

    /// Closes the object or group that is being read. With no face gathered
    /// nothing happens; otherwise the faces are exported to a mesh, which
    /// becomes a model under the current name, and the face list is
    /// emptied.
    pub open spec fn flush(self) -> Result<LoaderState<T>, ObjError> {
        if self.faces.len() == 0 {
            Ok(self)
        } else {
            match export_spec(self.positions, self.tex_coords, self.normals, self.faces, None) {
                Ok(mesh) => Ok(
                    LoaderState {
                        models: self.models.push(ModelView { name: self.name, mesh }),
                        faces: Seq::empty(),
                        ..self
                    },
                ),
                Err(e) => Err(e),
            }
        }
    }

    /// The state after one more line. `reading` is what the scalar type made
    /// of the numeric fields, for a line that has any: their values, or
    /// `None` where one of them was not read.
    pub open spec fn step(self, line: Seq<u8>, reading: Option<Seq<T>>) -> Result<
        LoaderState<T>,
        ObjError,
    > {
        let fs = fields(line);
        if fs.len() == 0 {
            Ok(self)
        } else {
            let nfields = (fs.len() - 1) as nat;
            match keyword_of(fs[0]) {
                Keyword::Position => Ok(
                    LoaderState {
                        positions: with_vertex_data(self.positions, nfields, reading, 3),
                        ..self
                    },
                ),
                Keyword::Normal => Ok(
                    LoaderState {
                        normals: with_vertex_data(self.normals, nfields, reading, 3),
                        ..self
                    },
                ),
                Keyword::TexCoord => Ok(
                    LoaderState {
                        tex_coords: with_vertex_data(self.tex_coords, nfields, reading, 2),
                        ..self
                    },
                ),
                Keyword::Face => match parse_face_spec(
                    fs.skip(1),
                    (self.positions.len() / 3) as usize,
                    (self.tex_coords.len() / 2) as usize,
                    (self.normals.len() / 3) as usize,
                ) {
                    Some(face) => Ok(LoaderState { faces: self.faces.push(face), ..self }),
                    None => Err(ObjError::FaceParseError),
                },
                Keyword::Group => match self.flush() {
                    Ok(flushed) => match group_name(line) {
                        Some(name) => Ok(LoaderState { name, ..flushed }),
                        None => Err(ObjError::InvalidObjectName),
                    },
                    Err(e) => Err(e),
                },
                _ => Ok(self),
            }
        }
    }

    /// The models of a text that ends in this state: those that are
    /// complete, and one more for the faces that are still open.
    pub open spec fn finish(self) -> Result<Seq<ModelView<T>>, ObjError> {
        match self.flush() {
            Ok(flushed) => Ok(flushed.models),
            Err(e) => Err(e),
        }
    }
}

/// The state after the first `n` of the lines `lines`, where `readings[i]`
/// is what was read of the numeric fields of line `i`. The first line that
/// fails decides the error.
pub open spec fn state_after<T>(
    lines: Seq<Seq<u8>>,
    readings: Seq<Option<Seq<T>>>,
    n: nat,
) -> Result<LoaderState<T>, ObjError>
    decreases n,
{
    if n == 0 {
        Ok(LoaderState::initial())
    } else {
        match state_after(lines, readings, (n - 1) as nat) {
            Ok(state) => state.step(lines[n - 1], readings[n - 1]),
            Err(e) => Err(e),
        }
    }
}

/// The models that the lines `lines` declare, where `readings[i]` is what
/// was read of the numeric fields of line `i`.
pub open spec fn load_spec<T>(lines: Seq<Seq<u8>>, readings: Seq<Option<Seq<T>>>) -> Result<
    Seq<ModelView<T>>,
    ObjError,
> {
    match state_after(lines, readings, lines.len()) {
        Ok(state) => state.finish(),
        Err(e) => Err(e),
    }
}

/// The values of a sequence of models.
pub open spec fn model_views<T>(models: Seq<Model<T>>) -> Seq<ModelView<T>> {
    models.map_values(|m: Model<T>| m@)
}

/// The state after `n` lines depends on the readings of those lines only.
pub proof fn lemma_state_after_frame<T>(
    lines: Seq<Seq<u8>>,
    r1: Seq<Option<Seq<T>>>,
    r2: Seq<Option<Seq<T>>>,
    n: nat,
)
    requires
        forall|i: int| 0 <= i < n ==> r1[i] == r2[i],
    ensures
        state_after(lines, r1, n) == state_after(lines, r2, n),
    decreases n,
{
    if n > 0 {
        lemma_state_after_frame(lines, r1, r2, (n - 1) as nat);
    }
}

/// Once a line has failed, the lines that follow do not change the error.
pub proof fn lemma_state_after_error_stays<T>(
    lines: Seq<Seq<u8>>,
    readings: Seq<Option<Seq<T>>>,
    n: nat,
    m: nat,
)
    requires
        n <= m,
        state_after(lines, readings, n) is Err,
    ensures
        state_after(lines, readings, m) == state_after(lines, readings, n),
    decreases m,
{
    if n < m {
        lemma_state_after_error_stays(lines, readings, n, (m - 1) as nat);
    }
}

/// The values of the readings `readings`, if every one of them succeeded.
pub open spec fn all_read<T>(readings: Seq<Option<T>>) -> Option<Seq<T>> {
    if forall|i: int| 0 <= i < readings.len() ==> (#[trigger] readings[i]) is Some {
        Some(Seq::new(readings.len(), |i: int| readings[i]->0))
    } else {
        None
    }
}

/// Appends the scalars of one vertex directive to `target`, given what was
/// read of its numeric fields: the values are appended when there are
/// exactly `size` readings and all succeeded, and `target` is left as it
/// was otherwise.
pub fn append_vertex_data<T: Copy>(target: &mut Vec<T>, readings: &Vec<Option<T>>, size: usize)
    ensures
        final(target)@ == with_vertex_data(
            old(target)@,
            readings@.len(),
            all_read(readings@),
            size as nat,
        ),
{
    if readings.len() != size {
        return ;
    }
    let old_len = target.len();
    let mut i: usize = 0;
    while i < size
        invariant
            i <= size == readings@.len(),
            old_len == old(target)@.len(),
            target@.len() == old_len + i,
            target@.take(old_len as int) == old(target)@,
            forall|j: int| 0 <= j < i ==> (#[trigger] readings@[j]) is Some,
            forall|j: int| 0 <= j < i ==> target@[old_len + j] == readings@[j]->0,
        decreases size - i,
    {
        match readings[i] {
            Some(x) => {
                target.push(x);
            },
            None => {
                target.truncate(old_len);
                assert(target@ =~= old(target)@);
                return ;
            },
        }
        i += 1;
    }
    assert(target@ =~= old(target)@ + all_read(readings@)->0);
}

/// Reads the numeric fields of a vertex directive from `fields_text`, the
/// text that follows its keyword, and appends `size` scalars to `target`.
/// A directive with fewer than `size` fields, or with a field among the
/// first `size` that the scalar type does not read, leaves `target` as it
/// was. Fields beyond the first `size` are not looked at.
pub fn parse_vertex_data<T: core::str::FromStr + Copy>(
    fields_text: &[u8],
    target: &mut Vec<T>,
    size: usize,
)
    ensures
        exists|reading: Option<Seq<T>>|
            final(target)@ == #[trigger] with_vertex_data(
                old(target)@,
                fields(fields_text@).len(),
                reading,
                size as nat,
            ),
{
    let mut readings: Vec<Option<T>> = Vec::new();
    let mut pos: usize = 0;
    let ghost all = fields(fields_text@);
    let ghost mut seen: int = 0;
    assert(all =~= all.take(0) + fields_from(fields_text@, 0));
    while readings.len() < size
        invariant
            pos <= fields_text@.len(),
            readings@.len() <= size,
            seen == readings@.len(),
            0 <= seen <= all.len(),
            all == fields(fields_text@),
            all == all.take(seen) + fields_from(fields_text@, pos as int),
            *target == *old(target),
        decreases size - readings@.len(),
    {
        match next_field(fields_text, pos) {
            None => {
                assert(all =~= all.take(seen));
                assert(all.len() < size);
                assert(target@ == with_vertex_data(
                    old(target)@,
                    all.len(),
                    None::<Seq<T>>,
                    size as nat,
                ));
                return ;
            },
            Some((a, b)) => {
                let field = slice_subrange(fields_text, a, b);
                readings.push(read_scalar(field));
                proof {
                    let rest = fields_from(fields_text@, b as int);
                    assert(all.len() == seen + 1 + rest.len());
                    assert(all =~= all.take(seen + 1) + rest) by {
                        assert forall|i: int| 0 <= i < all.len() implies all[i] == (all.take(
                            seen + 1,
                        ) + rest)[i] by {
                            if i > seen {
                                assert(all[i] == (seq![field@] + rest)[i - seen]);
                            }
                        }
                    }
                    seen = seen + 1;
                }
                pos = b;
            },
        }
    }
    append_vertex_data(target, &readings, size);
    assert(target@ == with_vertex_data(
        old(target)@,
        all.len(),
        all_read(readings@),
        size as nat,
    ));
}

/// Reads the name that an `o` or `g` line gives.
pub fn read_group_name(line: &[u8]) -> (r: Option<String>)
    ensures
        match r {
            Some(name) => group_name(line@) == Some(name@),
            None => group_name(line@) is None,
        },
{
    let keyword_start = skip_whitespace(line, 0);
    let keyword_end = skip_word(line, keyword_start);
    let start = skip_whitespace(line, keyword_end);
    let end = trim_end(line);
    if start < end {
        decode_text(slice_subrange(line, start, end))
    } else {
        Some("undefined".to_owned())
    }
}

/// A loader that is fed the lines of an OBJ text one by one and gives the
/// models at the end.
pub struct ObjLoader<T> {
    models: Vec<Model<T>>,
    current_name: String,
    current_pos: Vec<T>,
    current_normals: Vec<T>,
    current_tex_coords: Vec<T>,
    current_faces: Vec<Face>,
}

impl<T> View for ObjLoader<T> {
    type V = LoaderState<T>;

    closed spec fn view(&self) -> LoaderState<T> {
        LoaderState {
            models: model_views(self.models@),
            name: self.current_name@,
            positions: self.current_pos@,
            normals: self.current_normals@,
            tex_coords: self.current_tex_coords@,
            faces: face_views(self.current_faces@),
        }
    }
}

impl<T: core::str::FromStr + Copy> ObjLoader<T> {
    /// A loader that has seen no line.
    pub fn new() -> (r: Self)
        ensures
            r@ == LoaderState::<T>::initial(),
    {
        let r = ObjLoader {
            models: Vec::new(),
            current_name: "undefined".to_owned(),
            current_pos: Vec::new(),
            current_normals: Vec::new(),
            current_tex_coords: Vec::new(),
            current_faces: Vec::new(),
        };
        assert(r@ =~= LoaderState::<T>::initial());
        r
    }

    /// Exports the faces gathered so far, if there are any.
    fn export_open_faces(&self) -> (r: Result<Option<Mesh<T>>, ObjError>)
        ensures
            match r {
                Ok(Some(mesh)) => self@.faces.len() > 0 && export_spec(
                    self@.positions,
                    self@.tex_coords,
                    self@.normals,
                    self@.faces,
                    None,
                ) == Ok::<MeshView<T>, ObjError>(mesh@),
                Ok(None) => self@.faces.len() == 0,
                Err(e) => self@.faces.len() > 0 && export_spec(
                    self@.positions,
                    self@.tex_coords,
                    self@.normals,
                    self@.faces,
                    None,
                ) == Err::<MeshView<T>, ObjError>(e),
            },
    {
        if self.current_faces.len() == 0 {
            Ok(None)
        } else {
            match export_faces(
                self.current_pos.as_slice(),
                self.current_tex_coords.as_slice(),
                self.current_normals.as_slice(),
                self.current_faces.as_slice(),
                None,
            ) {
                Ok(mesh) => Ok(Some(mesh)),
                Err(e) => Err(e),
            }
        }
    }

    /// Takes one line of the text. Lines without a field, comments and
    /// lines with a keyword that is not known are passed over.
    ///
    /// On an error the loader is as it was before the line.
    pub fn feed_line(&mut self, line: &[u8]) -> (r: Result<(), ObjError>)
        ensures
            exists|reading: Option<Seq<T>>|
                match #[trigger] old(self)@.step(line@, reading) {
                    Ok(state) => r is Ok && final(self)@ == state,
                    Err(e) => r == Err::<(), ObjError>(e) && final(self)@ == old(self)@,
                },
    {
        let ghost before = self@;
        let (a, b) = match next_field(line, 0) {
            None => {
                assert(before.step(line@, None) == Ok::<LoaderState<T>, ObjError>(before));
                return Ok(());
            },
            Some(range) => range,
        };
        let word = slice_subrange(line, a, b);
        let rest = slice_subrange(line, b, line.len());
        proof {
            lemma_fields_of_suffix(line@, b as int);
            assert(fields(line@)[0] == word@);
            assert(fields(line@).skip(1) =~= fields(rest@));
        }
        match keyword(word) {
            Keyword::Position => {
                parse_vertex_data(rest, &mut self.current_pos, 3);
                proof {
                    let reading = choose|reading: Option<Seq<T>>|
                        self.current_pos@ == #[trigger] with_vertex_data(
                            before.positions,
                            fields(rest@).len(),
                            reading,
                            3,
                        );
                    assert(self@ =~= before.step(line@, reading)->Ok_0);
                }
                Ok(())
            },
            Keyword::Normal => {
                parse_vertex_data(rest, &mut self.current_normals, 3);
                proof {
                    let reading = choose|reading: Option<Seq<T>>|
                        self.current_normals@ == #[trigger] with_vertex_data(
                            before.normals,
                            fields(rest@).len(),
                            reading,
                            3,
                        );
                    assert(self@ =~= before.step(line@, reading)->Ok_0);
                }
                Ok(())
            },
            Keyword::TexCoord => {
                parse_vertex_data(rest, &mut self.current_tex_coords, 2);
                proof {
                    let reading = choose|reading: Option<Seq<T>>|
                        self.current_tex_coords@ == #[trigger] with_vertex_data(
                            before.tex_coords,
                            fields(rest@).len(),
                            reading,
                            2,
                        );
                    assert(self@ =~= before.step(line@, reading)->Ok_0);
                }
                Ok(())
            },
            Keyword::Face => {
                let pos_sz = self.current_pos.len() / 3;
                let tex_sz = self.current_tex_coords.len() / 2;
                let norm_sz = self.current_normals.len() / 3;
                if parse_face(rest, &mut self.current_faces, pos_sz, tex_sz, norm_sz) {
                    proof {
                        let face = parse_face_spec(fields(rest@), pos_sz, tex_sz, norm_sz)->0;
                        assert(face_views(self.current_faces@) =~= before.faces.push(face));
                        assert(self@ =~= before.step(line@, None)->Ok_0);
                    }
                    Ok(())
                } else {
                    assert(before.step(line@, None) == Err::<LoaderState<T>, ObjError>(
                        ObjError::FaceParseError,
                    ));
                    Err(ObjError::FaceParseError)
                }
            },
            Keyword::Group => {
                let name = read_group_name(line);
                let mesh = match self.export_open_faces() {
                    Ok(mesh) => mesh,
                    Err(e) => {
                        assert(before.step(line@, None) == Err::<LoaderState<T>, ObjError>(e));
                        return Err(e);
                    },
                };
                let mut name = match name {
                    Some(name) => name,
                    None => {
                        assert(before.step(line@, None) == Err::<LoaderState<T>, ObjError>(
                            ObjError::InvalidObjectName,
                        ));
                        return Err(ObjError::InvalidObjectName);
                    },
                };
                core::mem::swap(&mut self.current_name, &mut name);
                match mesh {
                    Some(mesh) => {
                        self.models.push(Model::new(name, mesh));
                        self.current_faces.clear();
                    },
                    None => {},
                }
                proof {
                    assert(self@ =~= before.step(line@, None)->Ok_0);
                }
                Ok(())
            },
            _ => {
                assert(before.step(line@, None) == Ok::<LoaderState<T>, ObjError>(before));
                Ok(())
            },
        }
    }

    /// Ends the text: closes the object or group that is being read and
    /// gives the models.
    pub fn finish(self) -> (r: Result<Vec<Model<T>>, ObjError>)
        ensures
            match r {
                Ok(models) => self@.finish() == Ok::<Seq<ModelView<T>>, ObjError>(
                    model_views(models@),
                ),
                Err(e) => self@.finish() == Err::<Seq<ModelView<T>>, ObjError>(e),
            },
    {
        let mesh = match self.export_open_faces() {
            Ok(mesh) => mesh,
            Err(e) => {
                return Err(e);
            },
        };
        let ghost before = self@;
        let ObjLoader { models, current_name, .. } = self;
        let mut models = models;
        match mesh {
            Some(mesh) => {
                models.push(Model::new(current_name, mesh));
                assert(model_views(models@) =~= before.flush()->Ok_0.models);
            },
            None => {},
        }
        Ok(models)
    }
}

/// Loads the models of an OBJ text.
///
/// The text is taken line by line. Positions, normals and texture
/// coordinates are gathered over the whole text; faces are gathered until
/// the next `o` or `g` line, or the end of the text, makes a model of them.
/// A face that cannot be read or exported ends the load with its error;
/// a vertex directive that cannot be read is dropped and the load goes on.
///
/// The numeric fields are read by the scalar type, so the contract speaks
/// of the outcome for some reading of each line.
pub fn parse_obj<T: core::str::FromStr + Copy>(text: &[u8]) -> (r: Result<Vec<Model<T>>, ObjError>)
    ensures
        exists|readings: Seq<Option<Seq<T>>>|
            readings.len() == lines(text@).len() && match #[trigger] load_spec(
                lines(text@),
                readings,
            ) {
                Ok(models) => r is Ok && model_views(r->Ok_0@) == models,
                Err(e) => r == Err::<Vec<Model<T>>, ObjError>(e),
            },
{
    let mut loader: ObjLoader<T> = ObjLoader::new();
    let n = text.len();
    let mut start: usize = 0;
    let ghost all = lines(text@);
    let ghost mut readings: Seq<Option<Seq<T>>> = Seq::empty();
    assert(all =~= all.take(0) + pieces_from(text@, LINE_FEED, 0));
    loop
        invariant_except_break
            all == all.take(readings.len() as int) + pieces_from(text@, LINE_FEED, start as int),
            readings.len() < all.len(),
        invariant
            n == text@.len(),
            start <= n,
            all == lines(text@),
            readings.len() <= all.len(),
            state_after(all, readings, readings.len()) == Ok::<LoaderState<T>, ObjError>(loader@),
        ensures
            readings.len() == all.len(),
        decreases n - start,
    {
        let end = find_byte(text, LINE_FEED, start);
        let line = slice_subrange(text, start, end);
        let ghost k = readings.len() as int;
        proof {
            lemma_sep_pos(text@, LINE_FEED, start as int);
            assert(pieces_from(text@, LINE_FEED, start as int)[0] == line@);
            assert(all[k] == line@);
        }
        let ghost state = loader@;
        let fed = loader.feed_line(line);
        proof {
            let reading = choose|reading: Option<Seq<T>>|
                match #[trigger] state.step(line@, reading) {
                    Ok(next) => fed is Ok && loader@ == next,
                    Err(e) => fed == Err::<(), ObjError>(e) && loader@ == state,
                };
            let longer = readings.push(reading);
            lemma_state_after_frame(all, readings, longer, k as nat);
            readings = longer;
        }
        match fed {
            Err(e) => {
                proof {
                    let padded = Seq::new(
                        all.len(),
                        |i: int|
                            if i < readings.len() {
                                readings[i]
                            } else {
                                None
                            },
                    );
                    lemma_state_after_frame(all, readings, padded, readings.len());
                    lemma_state_after_error_stays(all, padded, readings.len(), all.len());
                    assert(load_spec(all, padded) == Err::<Seq<ModelView<T>>, ObjError>(e));
                }
                return Err(e);
            },
            Ok(()) => {},
        }
        if end >= n {
            assert(all.len() == k + 1);
            break ;
        }
        proof {
            let rest = pieces_from(text@, LINE_FEED, end + 1);
            assert(all.len() == k + 1 + rest.len());
            assert(all =~= all.take(k + 1) + rest) by {
                assert forall|i: int| 0 <= i < all.len() implies all[i] == (all.take(k + 1)
                    + rest)[i] by {
                    if i > k {
                        assert(all[i] == (seq![line@] + rest)[i - k]);
                    }
                }
            }
        }
        start = end + 1;
    }
    let ghost state = loader@;
    let r = loader.finish();
    proof {
        assert(load_spec(all, readings) == state.finish());
    }
    r
}

} // verus!
