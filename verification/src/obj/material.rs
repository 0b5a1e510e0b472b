//! Material libraries: the names of the materials and their parameters as
//! text. None of the parameters is interpreted.

use vstd::prelude::*;
use vstd::slice::slice_subrange;
use vstd::utf8::{decode_utf8, valid_utf8};
use crate::obj::error::ObjError;
use crate::obj::scalar::decode_text;
use crate::obj::text::{
    fields, find_byte, lemma_sep_pos, lines, next_field, pieces_from, skip_whitespace,
    spaces_end, trim_end, trimmed_from, word_end, LINE_FEED,
};

verus! {

/// A material: its name and the parameters that its lines give, each the
/// keyword of a line and the text that follows it, in the order of the
/// lines.
#[derive(Debug, Clone)]
pub struct Material {
    pub name: String,
    pub unknown_param: Vec<(String, String)>,
}

/// The mathematical value of a [`Material`].
#[verifier::ext_equal]
pub ghost struct MaterialView {
    pub name: Seq<char>,
    pub params: Seq<(Seq<char>, Seq<char>)>,
}

/// The values of a list of parameters.
pub open spec fn param_views(params: Seq<(String, String)>) -> Seq<(Seq<char>, Seq<char>)> {
    params.map_values(|p: (String, String)| (p.0@, p.1@))
}

impl View for Material {
    type V = MaterialView;

    open spec fn view(&self) -> MaterialView {
        MaterialView { name: self.name@, params: param_views(self.unknown_param@) }
    }
}

/// The values of a list of materials.
pub open spec fn material_views(materials: Seq<Material>) -> Seq<MaterialView> {
    materials.map_values(|m: Material| m@)
}

/// What a material library has declared so far: the materials that are
/// complete and the one that is being read.
#[verifier::ext_equal]
pub ghost struct LibraryState {
    pub done: Seq<MaterialView>,
    pub open: Option<MaterialView>,
}

/// The keyword that begins a material.
pub open spec fn material_keyword() -> Seq<u8> {
    seq![109u8, 116u8, 108u8, 108u8, 105u8, 98u8]
}

/// The keyword that begins a comment.
pub open spec fn comment_keyword() -> Seq<u8> {
    seq![35u8]
}

impl LibraryState {
    /// The state before the first line.
    pub open spec fn initial() -> LibraryState {
        LibraryState { done: Seq::empty(), open: None }
    }

    /// The state after one more line.
    ///
    /// A line without a field and a comment change nothing. A `mtllib` line
    /// completes the material that is being read and begins the one that it
    /// names; the name is what follows the keyword, without the whitespace
    /// around it, and must not be empty. Any other line adds its keyword
    /// and what follows it to the material that is being read, if there is
    /// one.
    pub open spec fn step(self, line: Seq<u8>) -> Result<LibraryState, ObjError> {
        let fs = fields(line);
        if fs.len() == 0 || fs[0] == comment_keyword() {
            Ok(self)
        } else {
            let rest = trimmed_from(line, word_end(line, spaces_end(line, 0)));
            if fs[0] == material_keyword() {
                if rest.len() == 0 || !valid_utf8(rest) {
                    Err(ObjError::InvalidMaterialName)
                } else {
                    Ok(
                        LibraryState {
                            done: match self.open {
                                Some(material) => self.done.push(material),
                                None => self.done,
                            },
                            open: Some(
                                MaterialView { name: decode_utf8(rest), params: Seq::empty() },
                            ),
                        },
                    )
                }
            } else {
                match self.open {
                    None => Ok(self),
                    Some(material) => if valid_utf8(fs[0]) && valid_utf8(rest) {
                        Ok(
                            LibraryState {
                                open: Some(
                                    MaterialView {
                                        params: material.params.push(
                                            (decode_utf8(fs[0]), decode_utf8(rest)),
                                        ),
                                        ..material
                                    },
                                ),
                                ..self
                            },
                        )
                    } else {
                        Err(ObjError::ParseFailed)
                    },
                }
            }
        }
    }
}

/// The state after the first `n` of the lines `lines`. The first line that
/// fails decides the error.
pub open spec fn library_after(lines: Seq<Seq<u8>>, n: nat) -> Result<LibraryState, ObjError>
    decreases n,
{
    if n == 0 {
        Ok(LibraryState::initial())
    } else {
        match library_after(lines, (n - 1) as nat) {
            Ok(state) => state.step(lines[n - 1]),
            Err(e) => Err(e),
        }
    }
}

/// The materials that the lines `lines` declare: those that another
/// `mtllib` line has completed. The material that is being read when the
/// text ends is not among them.
pub open spec fn library_spec(lines: Seq<Seq<u8>>) -> Result<Seq<MaterialView>, ObjError> {
    match library_after(lines, lines.len()) {
        Ok(state) => Ok(state.done),
        Err(e) => Err(e),
    }
}

/// Once a line has failed, the lines that follow do not change the error.
pub proof fn lemma_library_error_stays(lines: Seq<Seq<u8>>, n: nat, m: nat)
    requires
        n <= m,
        library_after(lines, n) is Err,
    ensures
        library_after(lines, m) == library_after(lines, n),
    decreases m,
{
    if n < m {
        lemma_library_error_stays(lines, n, (m - 1) as nat);
    }
}

/// Whether the field `word` is the keyword `mtllib`.
fn is_material_keyword(word: &[u8]) -> (r: bool)
    ensures
        r == (word@ == material_keyword()),
{
    let ghost lib = material_keyword();
    if word.len() == 6 && word[0] == 109 && word[1] == 116 && word[2] == 108 && word[3] == 108
        && word[4] == 105 && word[5] == 98 {
        assert(word@ =~= lib);
        true
    } else {
        assert(lib.len() == 6 && lib[0] == 109 && lib[1] == 116 && lib[2] == 108 && lib[3] == 108
            && lib[4] == 105 && lib[5] == 98);
        false
    }
}

/// Whether the field `word` is the keyword `#`.
fn is_comment_keyword(word: &[u8]) -> (r: bool)
    ensures
        r == (word@ == comment_keyword()),
{
    if word.len() == 1 && word[0] == 35 {
        assert(word@ =~= comment_keyword());
        true
    } else {
        assert(comment_keyword().len() == 1 && comment_keyword()[0] == 35);
        false
    }
}

/// A material library while it is read.
struct Library {
    done: Vec<Material>,
    open: bool,
    name: String,
    params: Vec<(String, String)>,
}

impl View for Library {
    type V = LibraryState;

    closed spec fn view(&self) -> LibraryState {
        LibraryState {
            done: material_views(self.done@),
            open: if self.open {
                Some(MaterialView { name: self.name@, params: param_views(self.params@) })
            } else {
                None
            },
        }
    }
}

impl Library {
    /// Takes one line of the library.
    fn feed_line(&mut self, line: &[u8]) -> (r: Result<(), ObjError>)
        ensures
            match old(self)@.step(line@) {
                Ok(state) => r is Ok && final(self)@ == state,
                Err(e) => r == Err::<(), ObjError>(e),
            },
    {
        let ghost before = self@;
        let (a, b) = match next_field(line, 0) {
            None => {
                return Ok(());
            },
            Some(range) => range,
        };
        let word = slice_subrange(line, a, b);
        assert(fields(line@)[0] == word@);
        if is_comment_keyword(word) {
            return Ok(());
        }
        let start = skip_whitespace(line, b);
        let end = trim_end(line);
        let rest: &[u8] = if start < end {
            slice_subrange(line, start, end)
        } else {
            slice_subrange(line, 0, 0)
        };
        assert(rest@ =~= trimmed_from(line@, b as int));
        if is_material_keyword(word) {
            if rest.len() == 0 {
                return Err(ObjError::InvalidMaterialName);
            }
            let mut name = match decode_text(rest) {
                Some(text) => text,
                None => {
                    return Err(ObjError::InvalidMaterialName);
                },
            };
            let mut params: Vec<(String, String)> = Vec::new();
            core::mem::swap(&mut self.name, &mut name);
            core::mem::swap(&mut self.params, &mut params);
            if self.open {
                self.done.push(Material { name, unknown_param: params });
            }
            self.open = true;
            assert(self@ =~= before.step(line@)->Ok_0);
            Ok(())
        } else if self.open {
            let key = match decode_text(word) {
                Some(text) => text,
                None => {
                    return Err(ObjError::ParseFailed);
                },
            };
            let value = match decode_text(rest) {
                Some(text) => text,
                None => {
                    return Err(ObjError::ParseFailed);
                },
            };
            self.params.push((key, value));
            assert(self@ =~= before.step(line@)->Ok_0);
            Ok(())
        } else {
            Ok(())
        }
    }
}

/// Reads a material library.
///
/// Each `mtllib` line begins a material and completes the one before it;
/// the lines in between are kept as the parameters of the material, keyword
/// and text, without being interpreted. The result holds the materials that
/// were completed, in order.
pub fn parse_mtl(text: &[u8]) -> (r: Result<Vec<Material>, ObjError>)
    ensures
        match library_spec(lines(text@)) {
            Ok(materials) => r is Ok && material_views(r->Ok_0@) == materials,
            Err(e) => r == Err::<Vec<Material>, ObjError>(e),
        },
{
    let mut library = Library {
        done: Vec::new(),
        open: false,
        name: String::new(),
        params: Vec::new(),
    };
    assert(library@ =~= LibraryState::initial());
    let n = text.len();
    let mut start: usize = 0;
    let ghost all = lines(text@);
    let ghost mut seen: int = 0;
    assert(all =~= all.take(0) + pieces_from(text@, LINE_FEED, 0));
    loop
        invariant_except_break
            all == all.take(seen) + pieces_from(text@, LINE_FEED, start as int),
            seen < all.len(),
        invariant
            n == text@.len(),
            start <= n,
            all == lines(text@),
            0 <= seen <= all.len(),
            library_after(all, seen as nat) == Ok::<LibraryState, ObjError>(library@),
        ensures
            seen == all.len(),
        decreases n - start,
    {
        let end = find_byte(text, LINE_FEED, start);
        let line = slice_subrange(text, start, end);
        proof {
            lemma_sep_pos(text@, LINE_FEED, start as int);
            assert(pieces_from(text@, LINE_FEED, start as int)[0] == line@);
            assert(all[seen] == line@);
        }
        let fed = library.feed_line(line);
        proof {
            seen = seen + 1;
        }
        match fed {
            Err(e) => {
                proof {
                    lemma_library_error_stays(all, seen as nat, all.len());
                }
                return Err(e);
            },
            Ok(()) => {},
        }
        if end >= n {
            break ;
        }
        proof {
            let rest = pieces_from(text@, LINE_FEED, end + 1);
            assert(all.len() == seen + rest.len());
            assert(all =~= all.take(seen) + rest) by {
                assert forall|i: int| 0 <= i < all.len() implies all[i] == (all.take(seen)
                    + rest)[i] by {
                    if i >= seen {
                        assert(all[i] == (seq![line@] + rest)[i - seen + 1]);
                    }
                }
            }
        }
        start = end + 1;
    }
    let Library { done, .. } = library;
    Ok(done)
}

} // verus!
