//! Properties of decoding and classification taken together.

use vstd::prelude::*;
use crate::classify::{Capability, lemma_wasi_capability_is_wasi};
use crate::decoder::{
    decode_spec, entries_from, entry_at, header_ok, import_body_at, leb_at, lemma_leb_from_advances,
    sections_from, IMPORT_SECTION_ID,
};
use crate::frame::{agree, lemma_import_body_frame, lemma_leb_frame, lemma_leb_wider};
use crate::record::{DecodeError, ImportModel};
use crate::summary::{Assumptions, filed, foreign, inspect_result, lemma_filed_push, lemma_foreign_push};

verus! {

/// Every import lands in exactly one bucket: the buckets of a summary hold as
/// many entries together as there are imports.
pub proof fn lemma_classification_total(recs: Seq<ImportModel>)
    ensures
        filed(recs, Capability::FileSystem).len() + filed(recs, Capability::Environment).len()
            + filed(recs, Capability::Process).len() + filed(recs, Capability::Network).len()
            + filed(recs, Capability::UnknownWasiSymbol).len() + foreign(recs).len() == recs.len(),
    decreases recs.len(),
{
    if recs.len() > 0 {
        let before = recs.drop_last();
        let m = recs.last();
        assert(before.push(m) =~= recs);
        lemma_classification_total(before);
        lemma_filed_push(before, m, Capability::FileSystem);
        lemma_filed_push(before, m, Capability::Environment);
        lemma_filed_push(before, m, Capability::Process);
        lemma_filed_push(before, m, Capability::Network);
        lemma_filed_push(before, m, Capability::UnknownWasiSymbol);
        lemma_foreign_push(before, m);
        lemma_wasi_capability_is_wasi(m.1);
    }
}

/// Inspecting the same bytes twice gives the same summary, bucket order
/// included, or the same error.
pub proof fn lemma_inspect_deterministic(
    b: Seq<u8>,
    r1: Result<Assumptions, DecodeError>,
    r2: Result<Assumptions, DecodeError>,
)
    requires
        inspect_result(b, r1),
        inspect_result(b, r2),
    ensures
        match (r1, r2) {
            (Ok(a1), Ok(a2)) => a1@ == a2@,
            (Err(e1), Err(e2)) => e1 == e2,
            _ => false,
        },
{
}

/// Whether walking the sections of `b` from `pos` stops at `k`, that is
/// whether `k` lies between two sections.
pub open spec fn section_boundary(b: Seq<u8>, pos: int, k: int) -> bool
    decreases b.len() - pos,
    via section_boundary_decreases
{
    if k == pos {
        true
    } else if pos >= b.len() || k < pos {
        false
    } else {
        match leb_at(b, b.len() as int, pos + 1) {
            Err(_) => false,
            Ok((len, p)) => p + len <= b.len() && section_boundary(b, p + len, k),
        }
    }
}

#[via_fn]
proof fn section_boundary_decreases(b: Seq<u8>, pos: int, k: int) {
    lemma_leb_from_advances(b, b.len() as int, pos + 1, 0, 0, 1);
}

proof fn lemma_entries_extend(b: Seq<u8>, lim: int, pos: int, n: nat, acc: Seq<ImportModel>)
    ensures
        entries_from(b, lim, pos, n, acc) matches Ok((r, _)) ==> acc.is_prefix_of(r),
    decreases n,
{
    if n > 0 {
        if let Ok((m, p)) = entry_at(b, lim, pos) {
            lemma_entries_extend(b, lim, p, (n - 1) as nat, acc.push(m));
            if let Ok((r, _)) = entries_from(b, lim, p, (n - 1) as nat, acc.push(m)) {
                assert(r.subrange(0, acc.len() as int) =~= acc.push(m).subrange(0, acc.len() as int));
                assert(acc.push(m).subrange(0, acc.len() as int) =~= acc);
            }
        }
    }
}

proof fn lemma_sections_extend(b: Seq<u8>, pos: int, acc: Seq<ImportModel>)
    ensures
        sections_from(b, pos, acc) matches Ok(r) ==> acc.is_prefix_of(r),
    decreases b.len() - pos,
{
    if pos < b.len() {
        lemma_leb_from_advances(b, b.len() as int, pos + 1, 0, 0, 1);
        if let Ok((len, p)) = leb_at(b, b.len() as int, pos + 1) {
            let end = p + len;
            if end <= b.len() {
                if b[pos] == IMPORT_SECTION_ID {
                    if let Ok((n, q)) = leb_at(b, end, p) {
                        lemma_entries_extend(b, end, q, n, acc);
                    }
                    if let Ok((acc2, _)) = import_body_at(b, end, p, acc) {
                        lemma_sections_extend(b, end, acc2);
                        if let Ok(r) = sections_from(b, end, acc2) {
                            assert(r.subrange(0, acc.len() as int) =~= acc2.subrange(0, acc.len() as int));
                        }
                    }
                } else {
                    lemma_sections_extend(b, end, acc);
                }
            }
        }
    }
}

proof fn lemma_sections_cut(b: Seq<u8>, k: int, pos: int, acc: Seq<ImportModel>)
    requires
        0 <= pos,
        0 <= k < b.len(),
        sections_from(b, pos, acc) is Ok,
    ensures
        sections_from(b.subrange(0, k), pos, acc) matches Ok(r1) ==> r1.is_prefix_of(
            sections_from(b, pos, acc)->Ok_0,
        ),
        pos <= k && !section_boundary(b, pos, k) ==> sections_from(b.subrange(0, k), pos, acc) is Err,
    decreases b.len() - pos,
{
    let t = b.subrange(0, k);
    assert(agree(b, t, 0, k));
    if pos >= k {
        lemma_sections_extend(b, pos, acc);
    } else {
        lemma_leb_from_advances(t, k, pos + 1, 0, 0, 1);
        lemma_leb_frame(b, t, 0, k, pos + 1, 0, 0, 1);
        if let Ok((len, p)) = leb_at(t, k, pos + 1) {
            lemma_leb_wider(b, k, b.len() as int, pos + 1, 0, 0, 1);
            let end = p + len;
            if end <= k {
                assert(agree(b, t, 0, end));
                assert(t[pos] == b[pos]);
                if b[pos] == IMPORT_SECTION_ID {
                    lemma_import_body_frame(b, t, 0, end, p, acc);
                    if let Ok((acc2, q)) = import_body_at(b, end, p, acc) {
                        lemma_sections_cut(b, k, end, acc2);
                    }
                } else {
                    lemma_sections_cut(b, k, end, acc);
                }
            }
        }
    }
}

/// Cutting a module short never invents an import: where the cut bytes still
/// decode, their imports are the first imports of the whole module.
/// And a cut that falls inside the header or inside a section always fails.
pub proof fn lemma_truncation(b: Seq<u8>, k: int)
    requires
        decode_spec(b) is Ok,
        0 <= k < b.len(),
    ensures
        decode_spec(b.subrange(0, k)) matches Ok(r1) ==> r1.is_prefix_of(decode_spec(b)->Ok_0),
        !(8 <= k && section_boundary(b, 8, k)) ==> decode_spec(b.subrange(0, k)) is Err,
{
    if k >= 8 {
        let t = b.subrange(0, k);
        assert(header_ok(t) == header_ok(b));
        lemma_sections_cut(b, k, 8, seq![]);
    }
}

/// `s` is a run of whole sections, none of them an import section.
pub open spec fn skippable(s: Seq<u8>) -> bool
    decreases s.len(),
    via skippable_decreases
{
    if s.len() == 0 {
        true
    } else {
        match leb_at(s, s.len() as int, 1) {
            Err(_) => false,
            Ok((len, p)) => s[0] != IMPORT_SECTION_ID && p + len <= s.len() && skippable(
                s.subrange(p + len, s.len() as int),
            ),
        }
    }
}

#[via_fn]
proof fn skippable_decreases(s: Seq<u8>) {
    lemma_leb_from_advances(s, s.len() as int, 1, 0, 0, 1);
}

/// `s` is exactly one import section: its id, its length, and that many bytes.
pub open spec fn one_import_section(s: Seq<u8>) -> bool {
    &&& s.len() > 0
    &&& s[0] == IMPORT_SECTION_ID
    &&& leb_at(s, s.len() as int, 1) matches Ok((len, p)) && p + len == s.len()
}

proof fn lemma_skip_run(b: Seq<u8>, s: Seq<u8>, o: int, acc: Seq<ImportModel>)
    requires
        skippable(s),
        agree(b, s, o, s.len() as int),
    ensures
        sections_from(b, o, acc) == sections_from(b, o + s.len(), acc),
    decreases s.len(),
{
    if s.len() > 0 {
        let n = s.len() as int;
        lemma_leb_from_advances(s, n, 1, 0, 0, 1);
        lemma_leb_frame(b, s, o, n, 1, 0, 0, 1);
        lemma_leb_wider(b, n + o, b.len() as int, o + 1, 0, 0, 1);
        let (len, p) = leb_at(s, n, 1)->Ok_0;
        let rest = s.subrange(p + len, n);
        assert(b[o] == s[0]);
        assert(agree(b, rest, o + p + len, rest.len() as int)) by {
            assert forall|j: int| 0 <= j < rest.len() implies b[j + (o + p + len)] == rest[j] by {
                assert(b[(j + p + len) + o] == s[j + p + len]);
            }
        }
        lemma_skip_run(b, rest, o + p + len, acc);
    }
}

proof fn lemma_import_section_at(b: Seq<u8>, s: Seq<u8>, o: int, acc: Seq<ImportModel>)
    requires
        one_import_section(s),
        agree(b, s, o, s.len() as int),
    ensures
        sections_from(b, o, acc) == match import_body_at(s, s.len() as int, leb_at(s, s.len() as int, 1)->Ok_0.1, acc) {
            Err(e) => Err(e),
            Ok((acc2, q)) => if q != s.len() {
                Err(DecodeError::SectionLengthMismatch)
            } else {
                sections_from(b, o + s.len(), acc2)
            },
        },
{
    let n = s.len() as int;
    lemma_leb_from_advances(s, n, 1, 0, 0, 1);
    lemma_leb_frame(b, s, o, n, 1, 0, 0, 1);
    lemma_leb_wider(b, n + o, b.len() as int, o + 1, 0, 0, 1);
    let (len, p) = leb_at(s, n, 1)->Ok_0;
    assert(b[o] == s[0]);
    lemma_import_body_frame(b, s, o, n, p, acc);
}

/// Sections other than the import section are skipped by their length alone:
/// whatever they hold, before and after one import section, the module
/// decodes to the same imports as one that holds only that section.
pub proof fn lemma_skip_other_sections(h: Seq<u8>, pre: Seq<u8>, imp: Seq<u8>, post: Seq<u8>)
    requires
        h.len() == 8,
        header_ok(h),
        skippable(pre),
        one_import_section(imp),
        skippable(post),
    ensures
        decode_spec(h + pre + imp + post) == decode_spec(h + imp),
{
    let b = h + pre + imp + post;
    let c = h + imp;
    assert(header_ok(b));
    assert(header_ok(c));
    let acc = Seq::<ImportModel>::empty();
    assert(agree(b, pre, 8, pre.len() as int)) by {
        assert forall|j: int| 0 <= j < pre.len() implies b[j + 8] == pre[j] by {
            assert(b[j + 8] == (h + pre)[j + 8]);
        }
    }
    lemma_skip_run(b, pre, 8, acc);
    let o: int = 8 + pre.len() as int;
    assert(agree(b, imp, o, imp.len() as int)) by {
        assert forall|j: int| 0 <= j < imp.len() implies b[j + o] == imp[j] by {
            assert(b[j + o] == (h + pre + imp)[j + o]);
        }
    }
    assert(agree(c, imp, 8, imp.len() as int));
    lemma_import_section_at(b, imp, o, acc);
    lemma_import_section_at(c, imp, 8, acc);
    let e: int = o + imp.len() as int;
    assert(agree(b, post, e, post.len() as int)) by {
        assert forall|j: int| 0 <= j < post.len() implies b[j + e] == post[j] by {
        }
    }
    let p = leb_at(imp, imp.len() as int, 1)->Ok_0.1;
    if let Ok((acc2, q)) = import_body_at(imp, imp.len() as int, p, acc) {
        lemma_skip_run(b, post, e, acc2);
    }
}

} // verus!
