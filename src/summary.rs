//! The capability summary of a module: every import filed under one bucket.

use vstd::prelude::*;
use crate::classify::{Capability, bucket_of, lemma_wasi_capability_is_wasi, wasi_capability, wasi_capability_spec};
use crate::decoder::{decode_imports, decode_spec};
use crate::record::{DecodeError, ImportModel, ImportRecord, models};
use crate::text::same_text;

verus! {

/// The characters of each string, in order.
pub open spec fn texts(v: Seq<String>) -> Seq<Seq<char>> {
    v.map_values(|s: String| s@)
}

/// The characters of each (namespace, symbol) pair, in order.
pub open spec fn text_pairs(v: Seq<(String, String)>) -> Seq<(Seq<char>, Seq<char>)> {
    v.map_values(|p: (String, String)| (p.0@, p.1@))
}

/// `s` with `x` appended when `b` holds.
pub open spec fn push_if<T>(s: Seq<T>, b: bool, x: T) -> Seq<T> {
    if b {
        s.push(x)
    } else {
        s
    }
}

/// The WASI imports of a module, by capability.
#[derive(Debug, PartialEq, Eq)]
pub struct WasiAssumptions {
    pub file_system: Vec<String>,
    pub environment: Vec<String>,
    pub process: Vec<String>,
    pub network: Vec<String>,
    /// WASI symbols that the table does not list.
    pub unknown: Vec<String>,
}

impl WasiAssumptions {
    /// How many symbols the buckets hold together.
    pub open spec fn spec_count(&self) -> int {
        (self.file_system@.len() + self.environment@.len() + self.process@.len()
            + self.network@.len() + self.unknown@.len()) as int
    }

    /// No symbol in any bucket.
    pub fn new() -> (r: WasiAssumptions)
        ensures
            r.file_system@.len() == 0,
            r.environment@.len() == 0,
            r.process@.len() == 0,
            r.network@.len() == 0,
            r.unknown@.len() == 0,
    {
        WasiAssumptions {
            file_system: Vec::new(),
            environment: Vec::new(),
            process: Vec::new(),
            network: Vec::new(),
            unknown: Vec::new(),
        }
    }

    /// Files the WASI symbol `name` under its capability from the table, or
    /// under `unknown` when the table does not list it.
    pub fn add(&mut self, name: String)
        ensures
            final(self).file_system@ == push_if(old(self).file_system@, wasi_capability_spec(name@) == Capability::FileSystem, name),
            final(self).environment@ == push_if(old(self).environment@, wasi_capability_spec(name@) == Capability::Environment, name),
            final(self).process@ == push_if(old(self).process@, wasi_capability_spec(name@) == Capability::Process, name),
            final(self).network@ == push_if(old(self).network@, wasi_capability_spec(name@) == Capability::Network, name),
            final(self).unknown@ == push_if(old(self).unknown@, wasi_capability_spec(name@) == Capability::UnknownWasiSymbol, name),
    {
        proof {
            lemma_wasi_capability_is_wasi(name@);
        }
        match wasi_capability(name.as_str()) {
            Capability::FileSystem => self.file_system.push(name),
            Capability::Environment => self.environment.push(name),
            Capability::Process => self.process.push(name),
            Capability::Network => self.network.push(name),
            _ => self.unknown.push(name),
        }
    }

    /// How many symbols the buckets hold together.
    pub fn count(&self) -> (r: usize)
        requires
            self.spec_count() <= usize::MAX,
        ensures
            r == self.spec_count(),
    {
        self.file_system.len() + self.process.len() + self.environment.len() + self.network.len()
            + self.unknown.len()
    }
}

/// The symbols of the imports in `recs` that fall into bucket `c`, in file order.
pub open spec fn filed(recs: Seq<ImportModel>, c: Capability) -> Seq<Seq<char>> {
    recs.filter(in_bucket(c)).map_values(|m: ImportModel| m.1)
}

/// Whether an import falls into bucket `c`.
pub open spec fn in_bucket(c: Capability) -> spec_fn(ImportModel) -> bool {
    |m: ImportModel| bucket_of(m.0, m.1) == c
}

/// The (namespace, symbol) pairs of the imports in `recs` from namespaces
/// other than WASI's, in file order.
pub open spec fn foreign(recs: Seq<ImportModel>) -> Seq<(Seq<char>, Seq<char>)> {
    recs.filter(in_bucket(Capability::UnknownNamespace)).map_values(
        |m: ImportModel| (m.0, m.1),
    )
}

/// The mathematical value of a summary: the file-system, environment,
/// process, network and unknown-WASI symbols, then the foreign imports.
pub type SummaryModel = (
    Seq<Seq<char>>,
    Seq<Seq<char>>,
    Seq<Seq<char>>,
    Seq<Seq<char>>,
    Seq<Seq<char>>,
    Seq<(Seq<char>, Seq<char>)>,
);

/// The summary of a sequence of imports.
pub open spec fn summary_of(recs: Seq<ImportModel>) -> SummaryModel {
    (
        filed(recs, Capability::FileSystem),
        filed(recs, Capability::Environment),
        filed(recs, Capability::Process),
        filed(recs, Capability::Network),
        filed(recs, Capability::UnknownWasiSymbol),
        foreign(recs),
    )
}

pub proof fn lemma_filed_push(recs: Seq<ImportModel>, m: ImportModel, c: Capability)
    ensures
        filed(recs.push(m), c) == push_if(filed(recs, c), bucket_of(m.0, m.1) == c, m.1),
{
    let pred = in_bucket(c);
    recs.lemma_filter_push(m, pred);
    let f = recs.filter(pred);
    assert(recs.push(m).filter(pred) == push_if(f, pred(m), m));
    assert(filed(recs.push(m), c) =~= push_if(filed(recs, c), bucket_of(m.0, m.1) == c, m.1));
}

pub proof fn lemma_foreign_push(recs: Seq<ImportModel>, m: ImportModel)
    ensures
        foreign(recs.push(m)) == push_if(
            foreign(recs),
            bucket_of(m.0, m.1) == Capability::UnknownNamespace,
            (m.0, m.1),
        ),
{
    let pred = in_bucket(Capability::UnknownNamespace);
    recs.lemma_filter_push(m, pred);
    let f = recs.filter(pred);
    assert(recs.push(m).filter(pred) == push_if(f, pred(m), m));
    assert(foreign(recs.push(m)) =~= push_if(
        foreign(recs),
        bucket_of(m.0, m.1) == Capability::UnknownNamespace,
        (m.0, m.1),
    ));
}

/// What a module's imports imply: its WASI imports by capability, and the
/// imports from every other namespace.
#[derive(Debug, PartialEq, Eq)]
pub struct Assumptions {
    pub wasi: WasiAssumptions,
    /// (namespace, symbol) of each import outside the WASI namespace.
    pub unknown: Vec<(String, String)>,
}

impl View for Assumptions {
    type V = SummaryModel;

    open spec fn view(&self) -> SummaryModel {
        (
            texts(self.wasi.file_system@),
            texts(self.wasi.environment@),
            texts(self.wasi.process@),
            texts(self.wasi.network@),
            texts(self.wasi.unknown@),
            text_pairs(self.unknown@),
        )
    }
}

impl Assumptions {
    /// How many imports the summary holds.
    pub open spec fn spec_count(&self) -> int {
        self.wasi.spec_count() + self.unknown@.len()
    }

    /// A summary of no imports.
    pub fn new() -> (r: Assumptions)
        ensures
            r@ == summary_of(seq![]),
            r.spec_count() == 0,
    {
        let r = Assumptions { wasi: WasiAssumptions::new(), unknown: Vec::new() };
        assert(r@ =~= summary_of(seq![]));
        r
    }

    /// Files a symbol of the WASI namespace.
    pub fn add_wasi(&mut self, name: String)
        ensures
            final(self).wasi.file_system@ == push_if(old(self).wasi.file_system@, wasi_capability_spec(name@) == Capability::FileSystem, name),
            final(self).wasi.environment@ == push_if(old(self).wasi.environment@, wasi_capability_spec(name@) == Capability::Environment, name),
            final(self).wasi.process@ == push_if(old(self).wasi.process@, wasi_capability_spec(name@) == Capability::Process, name),
            final(self).wasi.network@ == push_if(old(self).wasi.network@, wasi_capability_spec(name@) == Capability::Network, name),
            final(self).wasi.unknown@ == push_if(old(self).wasi.unknown@, wasi_capability_spec(name@) == Capability::UnknownWasiSymbol, name),
            final(self).unknown@ == old(self).unknown@,
    {
        self.wasi.add(name)
    }

    /// Files an import from a namespace other than WASI's.
    pub fn add_unknown(&mut self, namespace: String, name: String)
        ensures
            final(self).wasi == old(self).wasi,
            final(self).unknown@ == old(self).unknown@.push((namespace, name)),
    {
        self.unknown.push((namespace, name))
    }

    /// How many imports the summary holds.
    pub fn count(&self) -> (r: usize)
        requires
            self.spec_count() <= usize::MAX,
        ensures
            r == self.spec_count(),
    {
        self.unknown.len() + self.wasi.count()
    }
}

/// Files every record under its bucket, in file order; each record lands in
/// exactly one bucket.
pub fn classify(records: &Vec<ImportRecord>) -> (r: Assumptions)
    ensures
        r@ == summary_of(models(records@)),
        r.spec_count() == records@.len(),
{
    let mut a = Assumptions::new();
    let ghost all = models(records@);
    let mut i: usize = 0;
    while i < records.len()
        invariant
            i <= records@.len(),
            all == models(records@),
            a@ == summary_of(all.subrange(0, i as int)),
            a.spec_count() == i,
        decreases records@.len() - i,
    {
        let rec = &records[i];
        let ghost m = rec@;
        let ghost before = all.subrange(0, i as int);
        assert(all.subrange(0, i + 1) =~= before.push(m));
        proof {
            lemma_filed_push(before, m, Capability::FileSystem);
            lemma_filed_push(before, m, Capability::Environment);
            lemma_filed_push(before, m, Capability::Process);
            lemma_filed_push(before, m, Capability::Network);
            lemma_filed_push(before, m, Capability::UnknownWasiSymbol);
            lemma_foreign_push(before, m);
            lemma_wasi_capability_is_wasi(m.1);
        }
        let ghost old_a = a@;
        if same_text(rec.namespace.as_str(), "wasi_unstable") {
            a.add_wasi(rec.symbol.clone());
        } else {
            a.add_unknown(rec.namespace.clone(), rec.symbol.clone());
        }
        assert(a@ =~= summary_of(all.subrange(0, i + 1)));
        i = i + 1;
    }
    assert(all.subrange(0, i as int) =~= all);
    a
}

/// What `inspect` owes on the module `b`: the summary of its imports when they
/// decode, and the decoder's error when they do not.
pub open spec fn inspect_result(b: Seq<u8>, r: Result<Assumptions, DecodeError>) -> bool {
    match decode_spec(b) {
        Ok(recs) => r matches Ok(a) && a@ == summary_of(recs) && a.spec_count() == recs.len(),
        Err(e) => r == Err::<Assumptions, DecodeError>(e),
    }
}

/// Decodes the imports of the module `bytes` and files each one under its bucket.
pub fn inspect(bytes: &[u8]) -> (r: Result<Assumptions, DecodeError>)
    ensures
        inspect_result(bytes@, r),
{
    match decode_imports(bytes) {
        Ok(records) => Ok(classify(&records)),
        Err(e) => Err(e),
    }
}

} // verus!
