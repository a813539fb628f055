//! Decoding the import section of a WebAssembly binary.
//!
//! The `*_at` spec functions read the format from a byte sequence `b`, never
//! past the limit `lim`, starting at `pos`; each gives the value read and the
//! position just after it. The executable readers are proved to agree with them.

use vstd::prelude::*;
use vstd::utf8::{decode_utf8, valid_utf8};
use crate::record::{DecodeError, ImportKind, ImportModel, ImportRecord, models, lemma_models_push};
use crate::text::string_from_utf8;

verus! {

/// The id of the import section.
pub const IMPORT_SECTION_ID: u8 = 2;

/// The eight-byte header: the magic `\0asm` and version 1, little-endian.
pub open spec fn header_ok(b: Seq<u8>) -> bool {
    &&& b.len() >= 8
    &&& b[0] == 0x00 && b[1] == 0x61 && b[2] == 0x73 && b[3] == 0x6d
    &&& b[4] == 0x01 && b[5] == 0x00 && b[6] == 0x00 && b[7] == 0x00
}

/// One byte.
pub open spec fn byte_at(b: Seq<u8>, lim: int, pos: int) -> Result<(u8, int), DecodeError> {
    if 0 <= pos < lim {
        Ok((b[pos], pos + 1))
    } else {
        Err(DecodeError::UnexpectedEndOfInput)
    }
}

/// The rest of an unsigned LEB128 integer after `k` groups of seven bits,
/// worth `acc`, have been read; `scale` is `128^k`. The low seven bits of each
/// byte are data, least significant group first, and a byte of 128 or more
/// says that another follows. At most five bytes, and the value fits in `u32`.
pub open spec fn leb_from(
    b: Seq<u8>,
    lim: int,
    pos: int,
    k: nat,
    acc: nat,
    scale: nat,
) -> Result<(nat, int), DecodeError>
    decreases 5 - k,
{
    if !(0 <= pos < lim) {
        Err(DecodeError::UnexpectedEndOfInput)
    } else {
        let byte = b[pos];
        let v = acc + (byte % 128) as nat * scale;
        if byte < 128 {
            if v > u32::MAX {
                Err(DecodeError::IntegerTooLarge)
            } else {
                Ok((v, pos + 1))
            }
        } else if k + 1 >= 5 {
            Err(DecodeError::IntegerTooLarge)
        } else {
            leb_from(b, lim, pos + 1, k + 1, v, scale * 128)
        }
    }
}

/// An unsigned LEB128 integer.
pub open spec fn leb_at(b: Seq<u8>, lim: int, pos: int) -> Result<(nat, int), DecodeError> {
    leb_from(b, lim, pos, 0, 0, 1)
}

/// A name: its byte length as LEB128, then that many bytes of UTF-8.
pub open spec fn name_at(b: Seq<u8>, lim: int, pos: int) -> Result<(Seq<char>, int), DecodeError> {
    match leb_at(b, lim, pos) {
        Err(e) => Err(e),
        Ok((n, p)) => {
            if p + n > lim {
                Err(DecodeError::UnexpectedEndOfInput)
            } else if valid_utf8(b.subrange(p, p + n)) {
                Ok((decode_utf8(b.subrange(p, p + n)), p + n))
            } else {
                Err(DecodeError::InvalidText)
            }
        }
    }
}

/// Limits: a flag byte, a minimum, and a maximum when the flag's low bit is set.
pub open spec fn limits_at(b: Seq<u8>, lim: int, pos: int) -> Result<int, DecodeError> {
    match byte_at(b, lim, pos) {
        Err(e) => Err(e),
        Ok((flag, p)) => match leb_at(b, lim, p) {
            Err(e) => Err(e),
            Ok((_, q)) => if flag % 2 == 1 {
                match leb_at(b, lim, q) {
                    Err(e) => Err(e),
                    Ok((_, r)) => Ok(r),
                }
            } else {
                Ok(q)
            },
        },
    }
}

/// The kind that an import-kind tag stands for.
pub open spec fn kind_of(tag: u8) -> Option<ImportKind> {
    if tag == 0 {
        Some(ImportKind::Function)
    } else if tag == 1 {
        Some(ImportKind::Table)
    } else if tag == 2 {
        Some(ImportKind::Memory)
    } else if tag == 3 {
        Some(ImportKind::Global)
    } else {
        None
    }
}

/// Where the payload of an import of kind `kind` ends: a type index for a
/// function, an element type and limits for a table, limits for a memory, and a
/// value type and a mutability byte for a global.
pub open spec fn payload_at(b: Seq<u8>, lim: int, pos: int, kind: ImportKind) -> Result<int, DecodeError> {
    match kind {
        ImportKind::Function => match leb_at(b, lim, pos) {
            Err(e) => Err(e),
            Ok((_, p)) => Ok(p),
        },
        ImportKind::Table => match byte_at(b, lim, pos) {
            Err(e) => Err(e),
            Ok((_, p)) => limits_at(b, lim, p),
        },
        ImportKind::Memory => limits_at(b, lim, pos),
        ImportKind::Global => match byte_at(b, lim, pos) {
            Err(e) => Err(e),
            Ok((_, p)) => match byte_at(b, lim, p) {
                Err(e) => Err(e),
                Ok((_, q)) => Ok(q),
            },
        },
    }
}

/// One import entry: namespace, symbol, kind tag and payload.
pub open spec fn entry_at(b: Seq<u8>, lim: int, pos: int) -> Result<(ImportModel, int), DecodeError> {
    match name_at(b, lim, pos) {
        Err(e) => Err(e),
        Ok((ns, p)) => match name_at(b, lim, p) {
            Err(e) => Err(e),
            Ok((sym, q)) => match byte_at(b, lim, q) {
                Err(e) => Err(e),
                Ok((tag, t)) => match kind_of(tag) {
                    None => Err(DecodeError::UnknownImportKind),
                    Some(kind) => match payload_at(b, lim, t, kind) {
                        Err(e) => Err(e),
                        Ok(end) => Ok(((ns, sym, kind), end)),
                    },
                },
            },
        },
    }
}

/// `n` more entries, appended to `acc`.
pub open spec fn entries_from(
    b: Seq<u8>,
    lim: int,
    pos: int,
    n: nat,
    acc: Seq<ImportModel>,
) -> Result<(Seq<ImportModel>, int), DecodeError>
    decreases n,
{
    if n == 0 {
        Ok((acc, pos))
    } else {
        match entry_at(b, lim, pos) {
            Err(e) => Err(e),
            Ok((m, p)) => entries_from(b, lim, p, (n - 1) as nat, acc.push(m)),
        }
    }
}

/// An import section's body: a count, then that many entries, appended to `acc`.
pub open spec fn import_body_at(
    b: Seq<u8>,
    lim: int,
    pos: int,
    acc: Seq<ImportModel>,
) -> Result<(Seq<ImportModel>, int), DecodeError> {
    match leb_at(b, lim, pos) {
        Err(e) => Err(e),
        Ok((n, p)) => entries_from(b, lim, p, n, acc),
    }
}

/// A LEB128 integer that was read takes at least one byte and ends within the limit.
pub proof fn lemma_leb_from_advances(b: Seq<u8>, lim: int, pos: int, k: nat, acc: nat, scale: nat)
    ensures
        leb_from(b, lim, pos, k, acc, scale) matches Ok((_, p)) ==> pos < p <= lim,
    decreases 5 - k,
{
    if 0 <= pos < lim && b[pos] >= 128 && k + 1 < 5 {
        let v = acc + (b[pos] % 128) as nat * scale;
        lemma_leb_from_advances(b, lim, pos + 1, k + 1, v, scale * 128);
    }
}

/// The sections from `pos` to the end of `b`, with the entries of every import
/// section appended to `acc`; other sections are skipped by their length.
pub open spec fn sections_from(b: Seq<u8>, pos: int, acc: Seq<ImportModel>) -> Result<
    Seq<ImportModel>,
    DecodeError,
>
    decreases b.len() - pos,
    via sections_from_decreases
{
    if pos >= b.len() {
        Ok(acc)
    } else {
        match leb_at(b, b.len() as int, pos + 1) {
            Err(e) => Err(e),
            Ok((len, p)) => {
                let end = p + len;
                if end > b.len() {
                    Err(DecodeError::TruncatedSection)
                } else if b[pos] == IMPORT_SECTION_ID {
                    match import_body_at(b, end, p, acc) {
                        Err(e) => Err(e),
                        Ok((acc2, q)) => if q != end {
                            Err(DecodeError::SectionLengthMismatch)
                        } else {
                            sections_from(b, end, acc2)
                        },
                    }
                } else {
                    sections_from(b, end, acc)
                }
            },
        }
    }
}

#[via_fn]
proof fn sections_from_decreases(b: Seq<u8>, pos: int, acc: Seq<ImportModel>) {
    lemma_leb_from_advances(b, b.len() as int, pos + 1, 0, 0, 1);
}

/// The imports that the module `b` declares, in file order.
pub open spec fn decode_spec(b: Seq<u8>) -> Result<Seq<ImportModel>, DecodeError> {
    if !header_ok(b) {
        Err(DecodeError::BadHeader)
    } else {
        sections_from(b, 8, seq![])
    }
}

/// Reads one byte at `pos`, below `lim`.
pub fn read_byte(bytes: &[u8], lim: usize, pos: usize) -> (r: Result<(u8, usize), DecodeError>)
    requires
        lim <= bytes@.len(),
    ensures
        r matches Ok((v, p)) ==> byte_at(bytes@, lim as int, pos as int) == Ok::<(u8, int), DecodeError>((v, p as int)),
        r matches Err(e) ==> byte_at(bytes@, lim as int, pos as int) == Err::<(u8, int), DecodeError>(e),
{
    if pos < lim {
        Ok((bytes[pos], pos + 1))
    } else {
        Err(DecodeError::UnexpectedEndOfInput)
    }
}

/// Reads an unsigned LEB128 integer at `pos`, below `lim`.
pub fn read_leb(bytes: &[u8], lim: usize, pos: usize) -> (r: Result<(u32, usize), DecodeError>)
    requires
        lim <= bytes@.len(),
    ensures
        r matches Ok((v, p)) ==> leb_at(bytes@, lim as int, pos as int) == Ok::<(nat, int), DecodeError>((v as nat, p as int)),
        r matches Err(e) ==> leb_at(bytes@, lim as int, pos as int) == Err::<(nat, int), DecodeError>(e),
{
    let mut p: usize = pos;
    let mut k: usize = 0;
    let mut acc: u64 = 0;
    let mut scale: u64 = 1;
    loop
        invariant
            lim <= bytes@.len(),
            k < 5,
            (k == 0 && scale == 1) || (k == 1 && scale == 128) || (k == 2 && scale == 16384) || (k
                == 3 && scale == 2097152) || (k == 4 && scale == 268435456),
            acc < scale,
            leb_from(bytes@, lim as int, p as int, k as nat, acc as nat, scale as nat) == leb_at(
                bytes@,
                lim as int,
                pos as int,
            ),
        decreases 5 - k,
    {
        if p >= lim {
            return Err(DecodeError::UnexpectedEndOfInput);
        }
        let byte = bytes[p];
        let low = (byte % 128) as u64;
        assert(low * scale <= 127 * scale) by (nonlinear_arith)
            requires
                low <= 127,
        ;
        let v = acc + low * scale;
        if byte < 128 {
            if v > 0xFFFF_FFFF {
                return Err(DecodeError::IntegerTooLarge);
            }
            return Ok((v as u32, p + 1));
        }
        if k + 1 >= 5 {
            return Err(DecodeError::IntegerTooLarge);
        }
        p = p + 1;
        k = k + 1;
        acc = v;
        scale = scale * 128;
    }
}

/// Reads a length-prefixed UTF-8 name at `pos`, below `lim`. The length is
/// checked against the limit before any byte is copied.
pub fn read_name(bytes: &[u8], lim: usize, pos: usize) -> (r: Result<(String, usize), DecodeError>)
    requires
        lim <= bytes@.len(),
    ensures
        r matches Ok((s, p)) ==> name_at(bytes@, lim as int, pos as int) == Ok::<(Seq<char>, int), DecodeError>((s@, p as int)),
        r matches Err(e) ==> name_at(bytes@, lim as int, pos as int) == Err::<(Seq<char>, int), DecodeError>(e),
{
    let (n, p) = match read_leb(bytes, lim, pos) {
        Ok(x) => x,
        Err(e) => return Err(e),
    };
    proof {
        lemma_leb_from_advances(bytes@, lim as int, pos as int, 0, 0, 1);
    }
    if n as usize > lim - p {
        return Err(DecodeError::UnexpectedEndOfInput);
    }
    let end = p + n as usize;
    let mut raw: Vec<u8> = Vec::new();
    let mut i: usize = p;
    while i < end
        invariant
            lim <= bytes@.len(),
            p <= i <= end <= lim,
            raw@ == bytes@.subrange(p as int, i as int),
        decreases end - i,
    {
        raw.push(bytes[i]);
        i = i + 1;
        assert(raw@ =~= bytes@.subrange(p as int, i as int));
    }
    match string_from_utf8(raw) {
        Some(s) => Ok((s, end)),
        None => Err(DecodeError::InvalidText),
    }
}

/// Skips a limits structure at `pos`, below `lim`.
pub fn read_limits(bytes: &[u8], lim: usize, pos: usize) -> (r: Result<usize, DecodeError>)
    requires
        lim <= bytes@.len(),
    ensures
        r matches Ok(p) ==> limits_at(bytes@, lim as int, pos as int) == Ok::<int, DecodeError>(p as int),
        r matches Err(e) ==> limits_at(bytes@, lim as int, pos as int) == Err::<int, DecodeError>(e),
{
    let (flag, p) = match read_byte(bytes, lim, pos) {
        Ok(x) => x,
        Err(e) => return Err(e),
    };
    let (_, q) = match read_leb(bytes, lim, p) {
        Ok(x) => x,
        Err(e) => return Err(e),
    };
    if flag % 2 == 1 {
        match read_leb(bytes, lim, q) {
            Ok((_, r)) => Ok(r),
            Err(e) => Err(e),
        }
    } else {
        Ok(q)
    }
}

/// Skips the payload of an import of kind `kind` at `pos`, below `lim`.
pub fn read_payload(bytes: &[u8], lim: usize, pos: usize, kind: ImportKind) -> (r: Result<usize, DecodeError>)
    requires
        lim <= bytes@.len(),
    ensures
        r matches Ok(p) ==> payload_at(bytes@, lim as int, pos as int, kind) == Ok::<int, DecodeError>(p as int),
        r matches Err(e) ==> payload_at(bytes@, lim as int, pos as int, kind) == Err::<int, DecodeError>(e),
{
    match kind {
        ImportKind::Function => match read_leb(bytes, lim, pos) {
            Ok((_, p)) => Ok(p),
            Err(e) => Err(e),
        },
        ImportKind::Table => match read_byte(bytes, lim, pos) {
            Ok((_, p)) => read_limits(bytes, lim, p),
            Err(e) => Err(e),
        },
        ImportKind::Memory => read_limits(bytes, lim, pos),
        ImportKind::Global => match read_byte(bytes, lim, pos) {
            Ok((_, p)) => match read_byte(bytes, lim, p) {
                Ok((_, q)) => Ok(q),
                Err(e) => Err(e),
            },
            Err(e) => Err(e),
        },
    }
}

/// The kind that an import-kind tag stands for, if any.
pub fn import_kind_from_tag(tag: u8) -> (r: Option<ImportKind>)
    ensures
        r == kind_of(tag),
{
    if tag == 0 {
        Some(ImportKind::Function)
    } else if tag == 1 {
        Some(ImportKind::Table)
    } else if tag == 2 {
        Some(ImportKind::Memory)
    } else if tag == 3 {
        Some(ImportKind::Global)
    } else {
        None
    }
}

/// Reads one import entry at `pos`, below `lim`.
pub fn read_entry(bytes: &[u8], lim: usize, pos: usize) -> (r: Result<(ImportRecord, usize), DecodeError>)
    requires
        lim <= bytes@.len(),
    ensures
        r matches Ok((rec, p)) ==> entry_at(bytes@, lim as int, pos as int) == Ok::<(ImportModel, int), DecodeError>((rec@, p as int)),
        r matches Err(e) ==> entry_at(bytes@, lim as int, pos as int) == Err::<(ImportModel, int), DecodeError>(e),
{
    let (namespace, p) = match read_name(bytes, lim, pos) {
        Ok(x) => x,
        Err(e) => return Err(e),
    };
    let (symbol, q) = match read_name(bytes, lim, p) {
        Ok(x) => x,
        Err(e) => return Err(e),
    };
    let (tag, t) = match read_byte(bytes, lim, q) {
        Ok(x) => x,
        Err(e) => return Err(e),
    };
    let kind = match import_kind_from_tag(tag) {
        Some(k) => k,
        None => return Err(DecodeError::UnknownImportKind),
    };
    match read_payload(bytes, lim, t, kind) {
        Ok(end) => Ok((ImportRecord { namespace, symbol, kind }, end)),
        Err(e) => Err(e),
    }
}

/// Reads an import section's body at `pos`, below `lim`, appending its entries
/// to `out`; gives the position after the last entry.
pub fn read_import_body(bytes: &[u8], lim: usize, pos: usize, out: &mut Vec<ImportRecord>) -> (r:
    Result<usize, DecodeError>)
    requires
        lim <= bytes@.len(),
    ensures
        r matches Ok(q) ==> import_body_at(bytes@, lim as int, pos as int, models(old(out)@))
            == Ok::<(Seq<ImportModel>, int), DecodeError>((models(final(out)@), q as int)),
        r matches Err(e) ==> import_body_at(bytes@, lim as int, pos as int, models(old(out)@))
            == Err::<(Seq<ImportModel>, int), DecodeError>(e),
{
    let ghost whole = import_body_at(bytes@, lim as int, pos as int, models(out@));
    let (n, mut p) = match read_leb(bytes, lim, pos) {
        Ok(x) => x,
        Err(e) => return Err(e),
    };
    let mut i: u32 = 0;
    while i < n
        invariant
            lim <= bytes@.len(),
            i <= n,
            whole == import_body_at(bytes@, lim as int, pos as int, models(old(out)@)),
            entries_from(bytes@, lim as int, p as int, (n - i) as nat, models(out@)) == whole,
        decreases n - i,
    {
        match read_entry(bytes, lim, p) {
            Ok((rec, q)) => {
                proof {
                    lemma_models_push(out@, rec);
                }
                out.push(rec);
                p = q;
            },
            Err(e) => {
                assert(entries_from(bytes@, lim as int, p as int, (n - i) as nat, models(out@))
                    == Err::<(Seq<ImportModel>, int), DecodeError>(e));
                return Err(e);
            },
        }
        i = i + 1;
    }
    Ok(p)
}

/// Decodes the import records of the module `bytes`, in file order. Sections
/// other than the import section are skipped by their declared length.
pub fn decode_imports(bytes: &[u8]) -> (r: Result<Vec<ImportRecord>, DecodeError>)
    ensures
        r matches Ok(v) ==> decode_spec(bytes@) == Ok::<Seq<ImportModel>, DecodeError>(models(v@)),
        r matches Err(e) ==> decode_spec(bytes@) == Err::<Seq<ImportModel>, DecodeError>(e),
{
    if bytes.len() < 8 || bytes[0] != 0x00 || bytes[1] != 0x61 || bytes[2] != 0x73 || bytes[3]
        != 0x6d || bytes[4] != 0x01 || bytes[5] != 0x00 || bytes[6] != 0x00 || bytes[7] != 0x00 {
        return Err(DecodeError::BadHeader);
    }
    let mut out: Vec<ImportRecord> = Vec::new();
    let mut pos: usize = 8;
    assert(models(out@) =~= seq![]);
    while pos < bytes.len()
        invariant
            header_ok(bytes@),
            pos <= bytes@.len(),
            sections_from(bytes@, pos as int, models(out@)) == decode_spec(bytes@),
        decreases bytes@.len() - pos,
    {
        let id = bytes[pos];
        let (len, p) = match read_leb(bytes, bytes.len(), pos + 1) {
            Ok(x) => x,
            Err(e) => return Err(e),
        };
        proof {
            lemma_leb_from_advances(bytes@, bytes@.len() as int, pos + 1, 0, 0, 1);
        }
        if len as usize > bytes.len() - p {
            return Err(DecodeError::TruncatedSection);
        }
        let end = p + len as usize;
        if id == IMPORT_SECTION_ID {
            match read_import_body(bytes, end, p, &mut out) {
                Ok(q) => {
                    if q != end {
                        return Err(DecodeError::SectionLengthMismatch);
                    }
                },
                Err(e) => return Err(e),
            }
        }
        pos = end;
    }
    Ok(out)
}

} // verus!
