//! The values that the decoder hands to the classifier.

use vstd::prelude::*;

verus! {

/// What an import brings into the module.
#[derive(Clone, Copy, Debug, PartialEq, Eq, Structural)]
pub enum ImportKind {
    Function,
    Table,
    Memory,
    Global,
}

/// Why a byte sequence could not be read as a module's import list.
#[derive(Clone, Copy, Debug, PartialEq, Eq, Structural)]
pub enum DecodeError {
    /// Fewer than eight bytes, or a wrong magic number or version.
    BadHeader,
    /// A section declares more bytes than the buffer still holds.
    TruncatedSection,
    /// A read inside the header framing or the import section ran out of bytes.
    UnexpectedEndOfInput,
    /// The import section's entries did not end exactly where the section does.
    SectionLengthMismatch,
    /// A name's bytes are not valid UTF-8.
    InvalidText,
    /// An import-kind tag other than 0, 1, 2 or 3.
    UnknownImportKind,
    /// A variable-length integer longer than five bytes or above `u32::MAX`.
    IntegerTooLarge,
}

/// One entry of the import section, in file order.
#[derive(Debug, PartialEq, Eq)]
pub struct ImportRecord {
    pub namespace: String,
    pub symbol: String,
    pub kind: ImportKind,
}

/// The mathematical value of an import record: namespace, symbol and kind.
pub type ImportModel = (Seq<char>, Seq<char>, ImportKind);

impl View for ImportRecord {
    type V = ImportModel;

    open spec fn view(&self) -> ImportModel {
        (self.namespace@, self.symbol@, self.kind)
    }
}

/// The models of a sequence of records, in the same order.
pub open spec fn models(v: Seq<ImportRecord>) -> Seq<ImportModel> {
    v.map_values(|r: ImportRecord| r@)
}

pub proof fn lemma_models_push(v: Seq<ImportRecord>, r: ImportRecord)
    ensures
        models(v.push(r)) == models(v).push(r@),
{
    assert(models(v.push(r)) =~= models(v).push(r@));
}

} // verus!
