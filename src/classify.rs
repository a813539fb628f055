//! Sorting imports into capability buckets.

use vstd::prelude::*;
use crate::record::ImportRecord;
use crate::text::same_text;

verus! {

/// A category of host resource that an import implies.
#[derive(Clone, Copy, Debug, PartialEq, Eq, Structural)]
pub enum Capability {
    FileSystem,
    Environment,
    Process,
    Network,
    /// A symbol of the WASI namespace that the table does not list.
    UnknownWasiSymbol,
    /// An import from any namespace other than WASI's.
    UnknownNamespace,
}

/// The namespace of the WASI system interface.
pub open spec fn wasi_namespace() -> Seq<char> {
    "wasi_unstable"@
}

/// The fixed table of WASI symbols and the capability each one implies.
pub open spec fn wasi_table_spec() -> Seq<(Seq<char>, Capability)> {
    seq![
        ("args_get"@, Capability::Environment),
        ("args_sizes_get"@, Capability::Environment),
        ("clock_res_get"@, Capability::Environment),
        ("clock_time_get"@, Capability::Environment),
        ("random_get"@, Capability::Environment),
        ("environ_get"@, Capability::Environment),
        ("environ_sizes_get"@, Capability::Environment),
        ("fd_advise"@, Capability::FileSystem),
        ("fd_close"@, Capability::FileSystem),
        ("fd_datasync"@, Capability::FileSystem),
        ("fd_fdstat_get"@, Capability::FileSystem),
        ("fd_fdstat_set_flags"@, Capability::FileSystem),
        ("fd_fdstat_set_rights"@, Capability::FileSystem),
        ("fd_filestat_get"@, Capability::FileSystem),
        ("fd_filestat_set_size"@, Capability::FileSystem),
        ("fd_filestat_set_times"@, Capability::FileSystem),
        ("fd_pread"@, Capability::FileSystem),
        ("fd_prestat_get"@, Capability::FileSystem),
        ("fd_prestat_dir_name"@, Capability::FileSystem),
        ("fd_pwrite"@, Capability::FileSystem),
        ("fd_read"@, Capability::FileSystem),
        ("fd_readdir"@, Capability::FileSystem),
        ("fd_renumber"@, Capability::FileSystem),
        ("fd_seek"@, Capability::FileSystem),
        ("fd_sync"@, Capability::FileSystem),
        ("fd_tell"@, Capability::FileSystem),
        ("fd_write"@, Capability::FileSystem),
        ("path_create_directory"@, Capability::FileSystem),
        ("path_filestat_get"@, Capability::FileSystem),
        ("path_filestat_set_times"@, Capability::FileSystem),
        ("path_link"@, Capability::FileSystem),
        ("path_open"@, Capability::FileSystem),
        ("path_readlink"@, Capability::FileSystem),
        ("path_remove_directory"@, Capability::FileSystem),
        ("path_rename"@, Capability::FileSystem),
        ("path_symlink"@, Capability::FileSystem),
        ("path_unlink_file"@, Capability::FileSystem),
        ("poll_oneoff"@, Capability::FileSystem),
        ("proc_exit"@, Capability::Process),
        ("proc_raise"@, Capability::Process),
        ("sched_yield"@, Capability::Process),
        ("sock_recv"@, Capability::Network),
        ("sock_send"@, Capability::Network),
        ("sock_shutdown"@, Capability::Network),
    ]
}

/// The mathematical value of a table of string keys.
pub open spec fn table_model(t: Seq<(&'static str, Capability)>) -> Seq<(Seq<char>, Capability)> {
    t.map_values(|e: (&'static str, Capability)| (e.0@, e.1))
}

/// The capability of the first entry of `t` whose symbol is `sym`, and
/// `UnknownWasiSymbol` where none is.
pub open spec fn lookup(t: Seq<(Seq<char>, Capability)>, sym: Seq<char>) -> Capability
    decreases t.len(),
{
    if t.len() == 0 {
        Capability::UnknownWasiSymbol
    } else if t[0].0 == sym {
        t[0].1
    } else {
        lookup(t.drop_first(), sym)
    }
}

/// The capability of a symbol of the WASI namespace.
pub open spec fn wasi_capability_spec(sym: Seq<char>) -> Capability {
    lookup(wasi_table_spec(), sym)
}

/// The bucket of an import: by the table for the WASI namespace, and
/// `UnknownNamespace` for every other namespace whatever the symbol.
pub open spec fn bucket_of(namespace: Seq<char>, sym: Seq<char>) -> Capability {
    if namespace == wasi_namespace() {
        wasi_capability_spec(sym)
    } else {
        Capability::UnknownNamespace
    }
}

/// The table of WASI symbols, as data.
pub fn wasi_table() -> (r: Vec<(&'static str, Capability)>)
    ensures
        table_model(r@) == wasi_table_spec(),
{
    let r = vec![
        ("args_get", Capability::Environment),
        ("args_sizes_get", Capability::Environment),
        ("clock_res_get", Capability::Environment),
        ("clock_time_get", Capability::Environment),
        ("random_get", Capability::Environment),
        ("environ_get", Capability::Environment),
        ("environ_sizes_get", Capability::Environment),
        ("fd_advise", Capability::FileSystem),
        ("fd_close", Capability::FileSystem),
        ("fd_datasync", Capability::FileSystem),
        ("fd_fdstat_get", Capability::FileSystem),
        ("fd_fdstat_set_flags", Capability::FileSystem),
        ("fd_fdstat_set_rights", Capability::FileSystem),
        ("fd_filestat_get", Capability::FileSystem),
        ("fd_filestat_set_size", Capability::FileSystem),
        ("fd_filestat_set_times", Capability::FileSystem),
        ("fd_pread", Capability::FileSystem),
        ("fd_prestat_get", Capability::FileSystem),
        ("fd_prestat_dir_name", Capability::FileSystem),
        ("fd_pwrite", Capability::FileSystem),
        ("fd_read", Capability::FileSystem),
        ("fd_readdir", Capability::FileSystem),
        ("fd_renumber", Capability::FileSystem),
        ("fd_seek", Capability::FileSystem),
        ("fd_sync", Capability::FileSystem),
        ("fd_tell", Capability::FileSystem),
        ("fd_write", Capability::FileSystem),
        ("path_create_directory", Capability::FileSystem),
        ("path_filestat_get", Capability::FileSystem),
        ("path_filestat_set_times", Capability::FileSystem),
        ("path_link", Capability::FileSystem),
        ("path_open", Capability::FileSystem),
        ("path_readlink", Capability::FileSystem),
        ("path_remove_directory", Capability::FileSystem),
        ("path_rename", Capability::FileSystem),
        ("path_symlink", Capability::FileSystem),
        ("path_unlink_file", Capability::FileSystem),
        ("poll_oneoff", Capability::FileSystem),
        ("proc_exit", Capability::Process),
        ("proc_raise", Capability::Process),
        ("sched_yield", Capability::Process),
        ("sock_recv", Capability::Network),
        ("sock_send", Capability::Network),
        ("sock_shutdown", Capability::Network),
    ];
    assert(table_model(r@) =~= wasi_table_spec());
    r
}

/// The capability that the WASI symbol `sym` implies.
pub fn wasi_capability(sym: &str) -> (r: Capability)
    ensures
        r == wasi_capability_spec(sym@),
{
    let table = wasi_table();
    let ghost t = table_model(table@);
    let mut i: usize = 0;
    assert(t.subrange(0, t.len() as int) =~= t);
    while i < table.len()
        invariant
            t == table_model(table@),
            t == wasi_table_spec(),
            i <= table@.len(),
            lookup(t.subrange(i as int, t.len() as int), sym@) == lookup(t, sym@),
        decreases table@.len() - i,
    {
        let (name, cap) = table[i];
        assert(t.subrange(i as int, t.len() as int).drop_first() =~= t.subrange(i + 1, t.len() as int));
        if same_text(name, sym) {
            return cap;
        }
        i = i + 1;
    }
    assert(t.subrange(t.len() as int, t.len() as int) =~= Seq::<(Seq<char>, Capability)>::empty());
    Capability::UnknownWasiSymbol
}

/// A lookup in a table that holds no `UnknownNamespace` never gives it.
pub proof fn lemma_lookup_avoids(t: Seq<(Seq<char>, Capability)>, sym: Seq<char>)
    requires
        forall|i: int| 0 <= i < t.len() ==> t[i].1 != Capability::UnknownNamespace,
    ensures
        lookup(t, sym) != Capability::UnknownNamespace,
    decreases t.len(),
{
    if t.len() > 0 && t[0].0 != sym {
        lemma_lookup_avoids(t.drop_first(), sym);
    }
}

/// A WASI symbol is never filed under `UnknownNamespace`.
pub proof fn lemma_wasi_capability_is_wasi(sym: Seq<char>)
    ensures
        wasi_capability_spec(sym) != Capability::UnknownNamespace,
{
    lemma_lookup_avoids(wasi_table_spec(), sym);
}

/// The bucket of one import record.
pub fn bucket(record: &ImportRecord) -> (r: Capability)
    ensures
        r == bucket_of(record.namespace@, record.symbol@),
{
    if same_text(record.namespace.as_str(), "wasi_unstable") {
        wasi_capability(record.symbol.as_str())
    } else {
        Capability::UnknownNamespace
    }
}

} // verus!
