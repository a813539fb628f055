use kontrolleuer::classify::{bucket, wasi_capability, wasi_table, Capability};
use kontrolleuer::record::{DecodeError, ImportKind, ImportRecord};
use kontrolleuer::summary::{classify, inspect, Assumptions, WasiAssumptions};
use kontrolleuer::wording::{correct_to_be_form, optional_s};

fn rec(ns: &str, sym: &str) -> ImportRecord {
    ImportRecord { namespace: ns.to_string(), symbol: sym.to_string(), kind: ImportKind::Function }
}

fn strings(v: &[&str]) -> Vec<String> {
    v.iter().map(|s| s.to_string()).collect()
}

fn three_import_module() -> Vec<u8> {
    let mut b = vec![0x00, 0x61, 0x73, 0x6d, 0x01, 0x00, 0x00, 0x00];
    let mut body = vec![3u8];
    for (ns, sym) in [("wasi_unstable", "fd_write"), ("wasi_unstable", "sched_yield"), ("env", "custom_log")] {
        body.push(ns.len() as u8);
        body.extend_from_slice(ns.as_bytes());
        body.push(sym.len() as u8);
        body.extend_from_slice(sym.as_bytes());
        body.extend_from_slice(&[0, 0]);
    }
    b.push(2);
    b.push(body.len() as u8);
    b.extend(body);
    b
}

#[test]
fn three_imports_classify_by_table() {
    let a = classify(&vec![
        rec("wasi_unstable", "fd_write"),
        rec("wasi_unstable", "sched_yield"),
        rec("env", "custom_log"),
    ]);
    assert_eq!(a.wasi.file_system, strings(&["fd_write"]));
    assert_eq!(a.wasi.process, strings(&["sched_yield"]));
    assert!(a.wasi.environment.is_empty());
    assert!(a.wasi.network.is_empty());
    assert!(a.wasi.unknown.is_empty());
    assert_eq!(a.unknown, vec![("env".to_string(), "custom_log".to_string())]);
    assert_eq!(a.count(), 3);
    assert_eq!(a.wasi.count(), 2);
}

#[test]
fn inspect_three_import_module() {
    let a = inspect(&three_import_module()).unwrap();
    assert_eq!(a.wasi.file_system, strings(&["fd_write"]));
    assert_eq!(a.wasi.process, strings(&["sched_yield"]));
    assert_eq!(a.unknown, vec![("env".to_string(), "custom_log".to_string())]);
    assert_eq!(a.count(), 3);
}

#[test]
fn inspect_twice_gives_same_summary() {
    let b = three_import_module();
    assert_eq!(inspect(&b), inspect(&b));
    let mut bad = b.clone();
    bad.truncate(12);
    assert_eq!(inspect(&bad), inspect(&bad));
    assert!(inspect(&bad).is_err());
}

#[test]
fn inspect_reports_decode_error() {
    assert_eq!(inspect(&[0, 1, 2]), Err(DecodeError::BadHeader));
}

#[test]
fn empty_import_section_gives_empty_summary() {
    let a = inspect(&[0x00, 0x61, 0x73, 0x6d, 0x01, 0x00, 0x00, 0x00, 2, 1, 0]).unwrap();
    assert_eq!(a, Assumptions::new());
    assert_eq!(a.count(), 0);
}

#[test]
fn unlisted_wasi_symbol_is_unknown_wasi() {
    let a = classify(&vec![rec("wasi_unstable", "sock_accept")]);
    assert_eq!(a.wasi.unknown, strings(&["sock_accept"]));
    assert!(a.wasi.file_system.is_empty());
    assert!(a.wasi.environment.is_empty());
    assert!(a.wasi.process.is_empty());
    assert!(a.wasi.network.is_empty());
    assert!(a.unknown.is_empty());
    assert_eq!(bucket(&rec("wasi_unstable", "sock_accept")), Capability::UnknownWasiSymbol);
}

#[test]
fn listed_symbol_in_other_namespace_is_unknown_namespace() {
    assert_eq!(bucket(&rec("env", "fd_write")), Capability::UnknownNamespace);
    assert_eq!(bucket(&rec("wasi_unstable_", "fd_write")), Capability::UnknownNamespace);
    assert_eq!(bucket(&rec("", "fd_write")), Capability::UnknownNamespace);
}

#[test]
fn classification_ignores_kind() {
    let mut r = rec("wasi_unstable", "random_get");
    assert_eq!(bucket(&r), Capability::Environment);
    r.kind = ImportKind::Memory;
    assert_eq!(bucket(&r), Capability::Environment);
}

#[test]
fn every_import_lands_in_one_bucket() {
    let recs = vec![
        rec("wasi_unstable", "args_get"),
        rec("wasi_unstable", "fd_close"),
        rec("wasi_unstable", "proc_exit"),
        rec("wasi_unstable", "sock_send"),
        rec("wasi_unstable", "nope"),
        rec("m", "n"),
        rec("wasi_unstable", "fd_close"),
    ];
    let a = classify(&recs);
    assert_eq!(a.count(), recs.len());
    assert_eq!(a.wasi.environment, strings(&["args_get"]));
    assert_eq!(a.wasi.file_system, strings(&["fd_close", "fd_close"]));
    assert_eq!(a.wasi.process, strings(&["proc_exit"]));
    assert_eq!(a.wasi.network, strings(&["sock_send"]));
    assert_eq!(a.wasi.unknown, strings(&["nope"]));
    assert_eq!(a.unknown, vec![("m".to_string(), "n".to_string())]);
}

#[test]
fn table_matches_listed_buckets() {
    let t = wasi_table();
    assert_eq!(t.len(), 44);
    let count = |c: Capability| t.iter().filter(|e| e.1 == c).count();
    assert_eq!(count(Capability::Environment), 7);
    assert_eq!(count(Capability::FileSystem), 31);
    assert_eq!(count(Capability::Process), 3);
    assert_eq!(count(Capability::Network), 3);
    for (sym, cap) in &t {
        assert_eq!(wasi_capability(sym), *cap);
    }
    assert_eq!(wasi_capability("poll_oneoff"), Capability::FileSystem);
    assert_eq!(wasi_capability("clock_time_get"), Capability::Environment);
    assert_eq!(wasi_capability("sock_shutdown"), Capability::Network);
    assert_eq!(wasi_capability("fd_write2"), Capability::UnknownWasiSymbol);
    assert_eq!(wasi_capability(""), Capability::UnknownWasiSymbol);
}

#[test]
fn wasi_assumptions_add_and_count() {
    let mut w = WasiAssumptions::new();
    assert_eq!(w.count(), 0);
    w.add("path_open".to_string());
    w.add("environ_get".to_string());
    w.add("zzz".to_string());
    assert_eq!(w.file_system, strings(&["path_open"]));
    assert_eq!(w.environment, strings(&["environ_get"]));
    assert_eq!(w.unknown, strings(&["zzz"]));
    assert_eq!(w.count(), 3);
}

#[test]
fn assumptions_add_and_count() {
    let mut a = Assumptions::new();
    a.add_wasi("sched_yield".to_string());
    a.add_unknown("env".to_string(), "abort".to_string());
    assert_eq!(a.wasi.process, strings(&["sched_yield"]));
    assert_eq!(a.unknown, vec![("env".to_string(), "abort".to_string())]);
    assert_eq!(a.count(), 2);
}

#[test]
fn wording_agrees_with_count() {
    assert_eq!(correct_to_be_form(1), "is");
    assert_eq!(correct_to_be_form(0), "are");
    assert_eq!(correct_to_be_form(2), "are");
    assert_eq!(optional_s(1), "");
    assert_eq!(optional_s(0), "s");
    assert_eq!(optional_s(7), "s");
}
