//! The readers depend only on the bytes below their limit, wherever those
//! bytes stand: moving them by `d` moves every position read by `d`.

use vstd::prelude::*;
use crate::decoder::{byte_at, entries_from, entry_at, import_body_at, kind_of, leb_at, leb_from, lemma_leb_from_advances, limits_at, name_at, payload_at};
use crate::record::{DecodeError, ImportModel};

verus! {

/// A read's result with its end position moved by `d`.
pub open spec fn shifted<T>(r: Result<(T, int), DecodeError>, d: int) -> Result<(T, int), DecodeError> {
    match r {
        Ok((v, p)) => Ok((v, p + d)),
        Err(e) => Err(e),
    }
}

/// A skip's end position moved by `d`.
pub open spec fn shifted_end(r: Result<int, DecodeError>, d: int) -> Result<int, DecodeError> {
    match r {
        Ok(p) => Ok(p + d),
        Err(e) => Err(e),
    }
}

/// The bytes of `b1` from `d` on repeat those of `b2` below `lim`.
pub open spec fn agree(b1: Seq<u8>, b2: Seq<u8>, d: int, lim: int) -> bool {
    &&& 0 <= d
    &&& 0 <= lim <= b2.len()
    &&& lim + d <= b1.len()
    &&& forall|j: int| 0 <= j < lim ==> b1[j + d] == b2[j]
}

pub proof fn lemma_byte_frame(b1: Seq<u8>, b2: Seq<u8>, d: int, lim: int, pos: int)
    requires
        agree(b1, b2, d, lim),
        0 <= pos,
    ensures
        byte_at(b1, lim + d, pos + d) == shifted(byte_at(b2, lim, pos), d),
{
}

pub proof fn lemma_leb_frame(
    b1: Seq<u8>,
    b2: Seq<u8>,
    d: int,
    lim: int,
    pos: int,
    k: nat,
    acc: nat,
    scale: nat,
)
    requires
        agree(b1, b2, d, lim),
        0 <= pos,
    ensures
        leb_from(b1, lim + d, pos + d, k, acc, scale) == shifted(leb_from(b2, lim, pos, k, acc, scale), d),
    decreases 5 - k,
{
    if 0 <= pos < lim && b2[pos] >= 128 && k + 1 < 5 {
        let v = acc + (b2[pos] % 128) as nat * scale;
        lemma_leb_frame(b1, b2, d, lim, pos + 1, k + 1, v, scale * 128);
    }
}

/// A LEB128 integer read below one limit reads the same below a larger one.
pub proof fn lemma_leb_wider(b: Seq<u8>, lim1: int, lim2: int, pos: int, k: nat, acc: nat, scale: nat)
    requires
        lim1 <= lim2 <= b.len(),
        leb_from(b, lim1, pos, k, acc, scale) is Ok,
    ensures
        leb_from(b, lim2, pos, k, acc, scale) == leb_from(b, lim1, pos, k, acc, scale),
    decreases 5 - k,
{
    if 0 <= pos < lim1 && b[pos] >= 128 && k + 1 < 5 {
        let v = acc + (b[pos] % 128) as nat * scale;
        lemma_leb_wider(b, lim1, lim2, pos + 1, k + 1, v, scale * 128);
    }
}

pub proof fn lemma_name_frame(b1: Seq<u8>, b2: Seq<u8>, d: int, lim: int, pos: int)
    requires
        agree(b1, b2, d, lim),
        0 <= pos,
    ensures
        name_at(b1, lim + d, pos + d) == shifted(name_at(b2, lim, pos), d),
{
    lemma_leb_frame(b1, b2, d, lim, pos, 0, 0, 1);
    lemma_leb_from_advances(b2, lim, pos, 0, 0, 1);
    if let Ok((n, p)) = leb_at(b2, lim, pos) {
        if p + n <= lim {
            assert(b1.subrange(p + d, p + d + n) =~= b2.subrange(p, p + n));
        }
    }
}

pub proof fn lemma_limits_frame(b1: Seq<u8>, b2: Seq<u8>, d: int, lim: int, pos: int)
    requires
        agree(b1, b2, d, lim),
        0 <= pos,
    ensures
        limits_at(b1, lim + d, pos + d) == shifted_end(limits_at(b2, lim, pos), d),
{
    lemma_byte_frame(b1, b2, d, lim, pos);
    lemma_leb_frame(b1, b2, d, lim, pos + 1, 0, 0, 1);
    lemma_leb_from_advances(b2, lim, pos + 1, 0, 0, 1);
    if let Ok((_, q)) = leb_at(b2, lim, pos + 1) {
        lemma_leb_frame(b1, b2, d, lim, q, 0, 0, 1);
    }
}

pub proof fn lemma_payload_frame(b1: Seq<u8>, b2: Seq<u8>, d: int, lim: int, pos: int, kind: crate::record::ImportKind)
    requires
        agree(b1, b2, d, lim),
        0 <= pos,
    ensures
        payload_at(b1, lim + d, pos + d, kind) == shifted_end(payload_at(b2, lim, pos, kind), d),
{
    lemma_byte_frame(b1, b2, d, lim, pos);
    lemma_byte_frame(b1, b2, d, lim, pos + 1);
    lemma_leb_frame(b1, b2, d, lim, pos, 0, 0, 1);
    lemma_limits_frame(b1, b2, d, lim, pos);
    lemma_limits_frame(b1, b2, d, lim, pos + 1);
}

pub proof fn lemma_entry_frame(b1: Seq<u8>, b2: Seq<u8>, d: int, lim: int, pos: int)
    requires
        agree(b1, b2, d, lim),
        0 <= pos,
    ensures
        entry_at(b1, lim + d, pos + d) == shifted(entry_at(b2, lim, pos), d),
{
    lemma_name_frame(b1, b2, d, lim, pos);
    lemma_leb_from_advances(b2, lim, pos, 0, 0, 1);
    if let Ok((_, p)) = name_at(b2, lim, pos) {
        lemma_name_frame(b1, b2, d, lim, p);
        lemma_leb_from_advances(b2, lim, p, 0, 0, 1);
        if let Ok((_, q)) = name_at(b2, lim, p) {
            lemma_byte_frame(b1, b2, d, lim, q);
            if let Ok((tag, t)) = byte_at(b2, lim, q) {
                if let Some(kind) = kind_of(tag) {
                    lemma_payload_frame(b1, b2, d, lim, t, kind);
                }
            }
        }
    }
}

pub proof fn lemma_entries_frame(
    b1: Seq<u8>,
    b2: Seq<u8>,
    d: int,
    lim: int,
    pos: int,
    n: nat,
    acc: Seq<ImportModel>,
)
    requires
        agree(b1, b2, d, lim),
        0 <= pos,
    ensures
        entries_from(b1, lim + d, pos + d, n, acc) == shifted(entries_from(b2, lim, pos, n, acc), d),
    decreases n,
{
    if n > 0 {
        lemma_entry_frame(b1, b2, d, lim, pos);
        lemma_entry_advances(b2, lim, pos);
        if let Ok((m, p)) = entry_at(b2, lim, pos) {
            lemma_entries_frame(b1, b2, d, lim, p, (n - 1) as nat, acc.push(m));
        }
    }
}

pub proof fn lemma_import_body_frame(b1: Seq<u8>, b2: Seq<u8>, d: int, lim: int, pos: int, acc: Seq<ImportModel>)
    requires
        agree(b1, b2, d, lim),
        0 <= pos,
    ensures
        import_body_at(b1, lim + d, pos + d, acc) == shifted(import_body_at(b2, lim, pos, acc), d),
{
    lemma_leb_frame(b1, b2, d, lim, pos, 0, 0, 1);
    lemma_leb_from_advances(b2, lim, pos, 0, 0, 1);
    if let Ok((n, p)) = leb_at(b2, lim, pos) {
        lemma_entries_frame(b1, b2, d, lim, p, n, acc);
    }
}

/// An entry that was read ends after where it starts.
pub proof fn lemma_entry_advances(b: Seq<u8>, lim: int, pos: int)
    ensures
        entry_at(b, lim, pos) matches Ok((_, p)) ==> pos < p,
{
    lemma_leb_from_advances(b, lim, pos, 0, 0, 1);
    if let Ok((_, p)) = name_at(b, lim, pos) {
        lemma_leb_from_advances(b, lim, p, 0, 0, 1);
        if let Ok((_, q)) = name_at(b, lim, p) {
            lemma_leb_from_advances(b, lim, q + 1, 0, 0, 1);
            lemma_limits_advances(b, lim, q + 1);
            lemma_limits_advances(b, lim, q + 2);
        }
    }
}

/// A limits structure that was read ends after where it starts.
pub proof fn lemma_limits_advances(b: Seq<u8>, lim: int, pos: int)
    ensures
        limits_at(b, lim, pos) matches Ok(p) ==> pos < p,
{
    lemma_leb_from_advances(b, lim, pos + 1, 0, 0, 1);
    if let Ok((_, q)) = leb_at(b, lim, pos + 1) {
        lemma_leb_from_advances(b, lim, q, 0, 0, 1);
    }
}

} // verus!
