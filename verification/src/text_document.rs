//! One editable document: its identity, its rope-backed content, and the
//! conversions between protocol positions and byte offsets.

use vstd::prelude::*;

use crate::rope_ops::rope_char_to_byte;
use crate::rope_ops::rope_char_to_line;
use crate::rope_ops::rope_char_to_utf16;
use crate::rope_ops::rope_clone;
use crate::rope_ops::rope_from_str;
use crate::rope_ops::rope_insert;
use crate::rope_ops::rope_len_chars;
use crate::rope_ops::rope_len_lines;
use crate::rope_ops::rope_line_to_char;
use crate::rope_ops::rope_remove;
use crate::rope_ops::rope_slice_to_string;
use crate::rope_ops::rope_text;
use crate::rope_ops::rope_to_string;
use crate::rope_ops::rope_utf16_to_char;
use crate::rope_ops::rope_byte_to_char;
use crate::text_model::byte_of;
use crate::text_model::byte_to_character;
use crate::text_model::byte_to_line;
use crate::text_model::char_at_byte_floor;
use crate::text_model::char_at_cu_floor;
use crate::text_model::is_byte_boundary;
use crate::text_model::lemma_byte_floor;
use crate::text_model::lemma_byte_floor_unique;
use crate::text_model::lemma_counts_le;
use crate::text_model::lemma_cu_floor;
use crate::text_model::lemma_cu_floor_unique;
use crate::text_model::lemma_line_start;
use crate::text_model::lemma_line_start_le;
use crate::text_model::lemma_line_start_unique;
use crate::text_model::lemma_measures_mono;
use crate::text_model::line_end_char;
use crate::text_model::line_start_char;
use crate::text_model::pos_to_byte;
use crate::text_model::pos_to_char;
use crate::text_model::pos_valid;
use crate::text_model::text_cus;
use crate::DocumentError;

verus! {

/// A protocol position: zero-based line, zero-based offset within the line
/// counted in UTF-16 code units.
#[derive(Clone, Copy, PartialEq, Eq, Structural, Debug)]
pub struct Position {
    pub line: u32,
    pub character: u32,
}

/// A half-open span between two protocol positions.
#[derive(Clone, Copy, PartialEq, Eq, Structural, Debug)]
pub struct Range {
    pub start: Position,
    pub end: Position,
}

/// One incremental change: replace `range` (the whole document when absent)
/// with `text`.
pub struct ChangeEvent {
    pub range: Option<Range>,
    pub text: String,
}

/// What a document is to the contracts: its metadata and its text.
pub ghost struct DocView {
    pub version: int,
    pub uri: Seq<char>,
    pub language_id: Seq<char>,
    pub text: Seq<char>,
}

/// A document: identity metadata plus rope-backed content.
pub struct TextDocument {
    version: i32,
    uri: String,
    language_id: String,
    content: ropey::Rope,
}

impl View for TextDocument {
    type V = DocView;

    closed spec fn view(&self) -> DocView {
        DocView {
            version: self.version as int,
            uri: self.uri@,
            language_id: self.language_id@,
            text: rope_text(self.content),
        }
    }
}

/// `p` addresses the buffer `s`.
pub open spec fn position_valid(s: Seq<char>, p: Position) -> bool {
    pos_valid(s, p.line as nat, p.character as nat)
}

/// The scalar index `p` resolves to in `s`.
pub open spec fn position_char(s: Seq<char>, p: Position) -> nat {
    pos_to_char(s, p.line as nat, p.character as nat)
}

/// The buffer left by one change, or the error that refuses it: an absent
/// range replaces the whole buffer; a present range must address the buffer
/// (else `CoordinateOutOfRange`) with its end not before its start (else
/// `InvalidRange`), and splices the change's text over the span.
pub open spec fn change_result(s: Seq<char>, c: ChangeEvent) -> Result<Seq<char>, DocumentError> {
    match c.range {
        Option::None => Ok(c.text@),
        Option::Some(r) => if !position_valid(s, r.start) || !position_valid(s, r.end) {
            Err(DocumentError::CoordinateOutOfRange)
        } else if position_char(s, r.end) < position_char(s, r.start) {
            Err(DocumentError::InvalidRange)
        } else {
            Ok(
                s.take(position_char(s, r.start) as int) + c.text@ + s.skip(
                    position_char(s, r.end) as int,
                ),
            )
        },
    }
}

/// The buffer left by a batch of changes applied in order, stopping at the
/// first refused change (which leaves the buffer as the changes before it
/// made it).
pub open spec fn changes_text(s: Seq<char>, cs: Seq<ChangeEvent>) -> Seq<char>
    decreases cs.len(),
{
    if cs.len() == 0 {
        s
    } else {
        match change_result(s, cs[0]) {
            Ok(t) => changes_text(t, cs.skip(1)),
            Err(_) => s,
        }
    }
}

/// Whether a batch of changes is accepted whole, or the error of the first
/// refused change.
pub open spec fn changes_result(s: Seq<char>, cs: Seq<ChangeEvent>) -> Result<
    (),
    DocumentError,
>
    decreases cs.len(),
{
    if cs.len() == 0 {
        Ok(())
    } else {
        match change_result(s, cs[0]) {
            Ok(t) => changes_result(t, cs.skip(1)),
            Err(e) => Err(e),
        }
    }
}

/// Sequential application determinism: the buffer an ordered change batch
/// leaves, and whether the batch is accepted, are functions of the initial
/// buffer and the batch alone — two equal buffers given the same batch end
/// equal, wherever each runs.
pub proof fn lemma_changes_deterministic(t1: Seq<char>, t2: Seq<char>, cs: Seq<ChangeEvent>)
    requires
        t1 == t2,
    ensures
        changes_text(t1, cs) == changes_text(t2, cs),
        changes_result(t1, cs) == changes_result(t2, cs),
{
}

/// The text between two positions, or nothing where the pair does not
/// address the buffer in order.
pub open spec fn region_text(s: Seq<char>, start: Position, end: Position) -> Option<Seq<char>> {
    if !position_valid(s, start) || !position_valid(s, end) {
        Option::None
    } else if position_char(s, end) < position_char(s, start) {
        Option::None
    } else {
        Option::Some(s.subrange(position_char(s, start) as int, position_char(s, end) as int))
    }
}

/// Resolves a protocol position to a scalar index: the start of its line,
/// advanced by the position's UTF-16 character offset. Returns
/// `CoordinateOutOfRange` exactly when the position does not address the
/// buffer.
pub(crate) fn position_to_char_index(rope: &ropey::Rope, position: Position) -> (r: Result<
    usize,
    DocumentError,
>)
    ensures
        position_valid(rope_text(*rope), position) ==> (r matches Ok(ci) && ci as nat
            == position_char(rope_text(*rope), position) && ci as nat <= rope_text(*rope).len()),
        !position_valid(rope_text(*rope), position) ==> r == Err::<usize, DocumentError>(
            DocumentError::CoordinateOutOfRange,
        ),
{
    let ghost s = rope_text(*rope);
    let total_lines = rope_len_lines(rope);
    let line = position.line as usize;
    if line >= total_lines {
        return Err(DocumentError::CoordinateOutOfRange);
    }
    let ls = rope_line_to_char(rope, line);
    proof {
        lemma_line_start(s, line as nat);
        lemma_line_start_unique(s, line as nat, ls as nat, line_start_char(s, line as nat));
    }
    let le = if line + 1 == total_lines {
        rope_len_chars(rope)
    } else {
        let next = rope_line_to_char(rope, line + 1);
        proof {
            lemma_line_start(s, (line + 1) as nat);
            lemma_line_start_unique(
                s,
                (line + 1) as nat,
                next as nat,
                line_start_char(s, (line + 1) as nat),
            );
        }
        next
    };
    proof {
        assert(le as nat == line_end_char(s, line as nat));
        if (le as nat) < (ls as nat) {
            lemma_measures_mono(s, le as nat, ls as nat);
            assert(false);
        }
        lemma_measures_mono(s, ls as nat, le as nat);
        lemma_measures_mono(s, le as nat, s.len());
    }
    let cu_ls = rope_char_to_utf16(rope, ls);
    let cu_le = rope_char_to_utf16(rope, le);
    let character = position.character as usize;
    if character > cu_le - cu_ls {
        return Err(DocumentError::CoordinateOutOfRange);
    }
    let target = cu_ls + character;
    let ci = rope_utf16_to_char(rope, target);
    proof {
        lemma_cu_floor(s, target as nat);
        lemma_cu_floor_unique(s, target as nat, ci as nat, char_at_cu_floor(s, target as nat));
    }
    Ok(ci)
}

/// Resolves a protocol position to an absolute byte offset into the buffer,
/// `CoordinateOutOfRange` exactly when the position does not address it.
pub fn position_to_byte_index(rope: &ropey::Rope, position: Position) -> (r: Result<
    usize,
    DocumentError,
>)
    ensures
        position_valid(rope_text(*rope), position) ==> (r matches Ok(b) && b as nat == pos_to_byte(
            rope_text(*rope),
            position.line as nat,
            position.character as nat,
        )),
        !position_valid(rope_text(*rope), position) ==> r == Err::<usize, DocumentError>(
            DocumentError::CoordinateOutOfRange,
        ),
{
    match position_to_char_index(rope, position) {
        Ok(ci) => Ok(rope_char_to_byte(rope, ci)),
        Err(e) => Err(e),
    }
}

/// The protocol position of a byte offset: the line holding the byte, and
/// the UTF-16 distance from that line's start. The offset must lie on a
/// scalar boundary of the buffer (inverse offsets always do), and the
/// buffer must fit the protocol's 32-bit coordinates.
pub fn byte_index_to_position(rope: &ropey::Rope, byte_index: usize) -> (r: Position)
    requires
        is_byte_boundary(rope_text(*rope), byte_index as nat),
        text_cus(rope_text(*rope)) <= u32::MAX,
    ensures
        r.line as nat == byte_to_line(rope_text(*rope), byte_index as nat),
        r.character as nat == byte_to_character(rope_text(*rope), byte_index as nat),
{
    let ghost s = rope_text(*rope);
    proof {
        let w = choose|c: nat| c <= s.len() && byte_of(s, c) == byte_index as nat;
        lemma_measures_mono(s, w, s.len());
    }
    let ci = rope_byte_to_char(rope, byte_index);
    proof {
        lemma_byte_floor(s, byte_index as nat);
        lemma_byte_floor_unique(
            s,
            byte_index as nat,
            ci as nat,
            char_at_byte_floor(s, byte_index as nat),
        );
        lemma_line_start_le(s, ci as nat);
    }
    let line = rope_char_to_line(rope, ci);
    let ls = rope_line_to_char(rope, line);
    proof {
        lemma_line_start_unique(s, line as nat, ls as nat, line_start_char(s, line as nat));
        lemma_measures_mono(s, ls as nat, ci as nat);
        lemma_measures_mono(s, ci as nat, s.len());
        lemma_counts_le(s, ci as nat);
    }
    let cu_ci = rope_char_to_utf16(rope, ci);
    let cu_ls = rope_char_to_utf16(rope, ls);
    Position { line: line as u32, character: (cu_ci - cu_ls) as u32 }
}

impl TextDocument {
    /// A new document holding `content` verbatim.
    pub fn new(version: i32, uri: String, language_id: String, content: &str) -> (r: Self)
        ensures
            r@ == (DocView {
                version: version as int,
                uri: uri@,
                language_id: language_id@,
                text: content@,
            }),
    {
        TextDocument { version, uri, language_id, content: rope_from_str(content) }
    }

    /// The version the client last supplied for this document.
    pub fn version(&self) -> (r: i32)
        ensures
            r as int == self@.version,
    {
        self.version
    }

    /// The complete current content as one string.
    pub fn get_text(&self) -> (r: String)
        ensures
            r@ == self@.text,
    {
        rope_to_string(&self.content)
    }

    /// Applies one incremental change, atomically: on an error the content
    /// is left untouched.
    pub fn apply_change(&mut self, change: &ChangeEvent) -> (r: Result<(), DocumentError>)
        ensures
            change_result(old(self)@.text, *change) matches Ok(t) ==> r == Ok::<(), DocumentError>(
                (),
            ) && final(self)@ == (DocView { text: t, ..old(self)@ }),
            change_result(old(self)@.text, *change) matches Err(e) ==> r == Err::<
                (),
                DocumentError,
            >(e) && final(self)@ == old(self)@,
    {
        match &change.range {
            Option::None => {
                self.content = rope_from_str(change.text.as_str());
                Ok(())
            },
            Option::Some(range) => {
                let start = match position_to_char_index(&self.content, range.start) {
                    Ok(v) => v,
                    Err(e) => {
                        return Err(e);
                    },
                };
                let end = match position_to_char_index(&self.content, range.end) {
                    Ok(v) => v,
                    Err(e) => {
                        return Err(e);
                    },
                };
                if end < start {
                    return Err(DocumentError::InvalidRange);
                }
                let ghost t0 = rope_text(self.content);
                rope_remove(&mut self.content, start, end);
                proof {
                    assert(rope_text(self.content).take(start as int) =~= t0.take(start as int));
                    assert(rope_text(self.content).skip(start as int) =~= t0.skip(end as int));
                }
                rope_insert(&mut self.content, start, change.text.as_str());
                Ok(())
            },
        }
    }

    /// Applies a batch of changes strictly in order, each against the buffer
    /// the previous ones left; stops at the first refused change and
    /// reports its error.
    pub fn apply_changes(&mut self, changes: &Vec<ChangeEvent>) -> (r: Result<(), DocumentError>)
        ensures
            final(self)@ == (DocView {
                text: changes_text(old(self)@.text, changes@),
                ..old(self)@
            }),
            r == changes_result(old(self)@.text, changes@),
    {
        let ghost v0 = old(self)@;
        proof {
            assert(changes@.skip(0) =~= changes@);
        }
        let mut i: usize = 0;
        while i < changes.len()
            invariant
                i <= changes.len(),
                old(self)@ == v0,
                self@.version == v0.version,
                self@.uri == v0.uri,
                self@.language_id == v0.language_id,
                changes_text(v0.text, changes@) == changes_text(self@.text, changes@.skip(i as int)),
                changes_result(v0.text, changes@) == changes_result(
                    self@.text,
                    changes@.skip(i as int),
                ),
            decreases changes.len() - i,
        {
            let ghost pre = self@.text;
            let ghost rest = changes@.skip(i as int);
            proof {
                assert(rest[0] == changes@[i as int]);
                assert(rest.skip(1) =~= changes@.skip(i as int + 1));
            }
            let r = self.apply_change(&changes[i]);
            if let Err(e) = r {
                proof {
                    assert(changes_text(pre, rest) == pre);
                    assert(changes_result(pre, rest) == Err::<(), DocumentError>(e));
                }
                return Err(e);
            }
            i = i + 1;
        }
        proof {
            assert(changes@.skip(changes@.len() as int) =~= Seq::<ChangeEvent>::empty());
        }
        Ok(())
    }

    /// Copies out the text strictly between two positions; `InvalidRange`
    /// when the pair does not address the buffer in order.
    pub fn get_text_region(&self, start: Position, end: Position) -> (r: Result<
        String,
        DocumentError,
    >)
        ensures
            region_text(self@.text, start, end) matches Some(t) ==> (r matches Ok(out) && out@
                == t),
            region_text(self@.text, start, end) is None ==> r == Err::<String, DocumentError>(
                DocumentError::InvalidRange,
            ),
    {
        let sc = match position_to_char_index(&self.content, start) {
            Ok(v) => v,
            Err(_) => {
                return Err(DocumentError::InvalidRange);
            },
        };
        let ec = match position_to_char_index(&self.content, end) {
            Ok(v) => v,
            Err(_) => {
                return Err(DocumentError::InvalidRange);
            },
        };
        if ec < sc {
            return Err(DocumentError::InvalidRange);
        }
        Ok(rope_slice_to_string(&self.content, sc, ec))
    }
}

impl Clone for TextDocument {
    /// A clone holds the same metadata and the same text.
    fn clone(&self) -> (r: Self)
        ensures
            r@ == self@,
    {
        TextDocument {
            version: self.version,
            uri: self.uri.clone(),
            language_id: self.language_id.clone(),
            content: rope_clone(&self.content),
        }
    }
}

} // verus!
