use std::io::Cursor;
use std::io::Write;

use coordinate_stats::tally::Tally;
use coordinate_stats::walk::{process_archive, run_batch, walk_bytes, ArchiveError};
use zip::write::SimpleFileOptions;
use zip::CompressionMethod;
use zip::ZipWriter;

const FUEL: usize = 64;

fn make_zip(entries: &[(&str, &[u8])]) -> Vec<u8> {
    let mut w = ZipWriter::new(Cursor::new(Vec::new()));
    let opts = SimpleFileOptions::default().compression_method(CompressionMethod::Stored);
    for (name, data) in entries {
        w.start_file(*name, opts).unwrap();
        w.write_all(data).unwrap();
    }
    w.finish().unwrap().into_inner()
}

fn arbitrary_xml() -> Vec<u8> {
    "<記録><座標系>任意座標系</座標系></記録>".as_bytes().to_vec()
}

fn public_xml() -> Vec<u8> {
    "<記録><座標系>公共座標系第9系</座標系></記録>".as_bytes().to_vec()
}

#[test]
fn unreferenced_entry_contributes_nothing() {
    let referenced = make_zip(&[("a.xml", &public_xml())]);
    let unreferenced = make_zip(&[("b.xml", &arbitrary_xml())]);
    let top = make_zip(&[
        ("m-search-list.csv", b"001.zip,x\n"),
        ("001.zip", &referenced),
        ("002.zip", &unreferenced),
    ]);
    let r = process_archive(top, FUEL);
    assert_eq!(r, Ok(Tally { arbitrary: 0, public: 1 }));
}

#[test]
fn multiplicity_scales_the_subtree() {
    let nested = make_zip(&[("r.xml", &arbitrary_xml())]);
    let top = make_zip(&[
        ("m-search-list.csv", b"003.zip,a\n003.zip,b\n003.zip,c\n"),
        ("003.zip", &nested),
    ]);
    let r = process_archive(top, FUEL);
    assert_eq!(r, Ok(Tally { arbitrary: 3, public: 0 }));
}

#[test]
fn missing_manifest_is_fatal() {
    let top = make_zip(&[("001.zip", &make_zip(&[("r.xml", &arbitrary_xml())]))]);
    assert_eq!(process_archive(top, FUEL), Err(ArchiveError::ManifestNotFound));
}

#[test]
fn failing_archive_leaves_the_batch_intact() {
    let bad = make_zip(&[("001.zip", &make_zip(&[("r.xml", &arbitrary_xml())]))]);
    let nested = make_zip(&[("r.xml", &arbitrary_xml())]);
    let good = make_zip(&[("m-search-list.csv", b"001.zip,x\n"), ("001.zip", &nested)]);
    let inputs = vec![bad, good];
    let out = run_batch(&inputs, FUEL);
    assert_eq!(out.totals, Tally { arbitrary: 1, public: 0 });
    assert_eq!(out.failed, 1);
}

#[test]
fn empty_manifest_is_fatal() {
    let top = make_zip(&[
        ("m-search-list.csv", b"no references in here\n"),
        ("001.zip", &make_zip(&[("r.xml", &arbitrary_xml())])),
    ]);
    assert_eq!(process_archive(top, FUEL), Err(ArchiveError::ManifestEmpty));
}

#[test]
fn bytes_that_do_not_open_fail() {
    let garbage = vec![1u8, 2, 3, 4, 5];
    assert_eq!(process_archive(garbage, FUEL), Err(ArchiveError::OpenFailed));
}

#[test]
fn walk_of_unopenable_bytes_is_empty() {
    let garbage = vec![9u8, 9, 9];
    assert_eq!(walk_bytes(garbage, FUEL), Tally { arbitrary: 0, public: 0 });
}

#[test]
fn corrupt_nested_archive_is_contained() {
    let nested = make_zip(&[("r.xml", &public_xml())]);
    let top = make_zip(&[
        ("m-search-list.csv", b"007.zip,x\n008.zip,y\n"),
        ("007.zip", b"this is not an archive"),
        ("008.zip", &nested),
    ]);
    assert_eq!(process_archive(top, FUEL), Ok(Tally { arbitrary: 0, public: 1 }));
}

#[test]
fn nesting_budget_prunes_nested_archives() {
    let nested = make_zip(&[("r.xml", &arbitrary_xml())]);
    let top = make_zip(&[("m-search-list.csv", b"010.zip,x\n"), ("010.zip", &nested)]);
    assert_eq!(process_archive(top.clone(), 0), Ok(Tally { arbitrary: 0, public: 0 }));
    assert_eq!(process_archive(top, FUEL), Ok(Tally { arbitrary: 1, public: 0 }));
}

#[test]
fn deeply_nested_leaves_are_found() {
    let inner = make_zip(&[("r.xml", &arbitrary_xml()), ("s.xml", &public_xml())]);
    let middle = make_zip(&[("inner.zip", &inner), ("t.xml", &public_xml())]);
    let top = make_zip(&[("m-search-list.csv", b"011.zip,x\n"), ("011.zip", &middle)]);
    assert_eq!(process_archive(top, FUEL), Ok(Tally { arbitrary: 1, public: 2 }));
}

#[test]
fn directories_are_ignored() {
    let mut w = ZipWriter::new(Cursor::new(Vec::new()));
    let opts = SimpleFileOptions::default().compression_method(CompressionMethod::Stored);
    w.add_directory("records", opts).unwrap();
    w.start_file("r.xml", opts).unwrap();
    w.write_all(&arbitrary_xml()).unwrap();
    let nested = w.finish().unwrap().into_inner();
    let top = make_zip(&[("m-search-list.csv", b"012.zip,x\n"), ("012.zip", &nested)]);
    assert_eq!(process_archive(top, FUEL), Ok(Tally { arbitrary: 1, public: 0 }));
}

#[test]
fn top_level_leaves_are_never_referenced() {
    let top = make_zip(&[
        ("m-search-list.csv", b"001.zip,x\n"),
        ("1.xml", &arbitrary_xml()),
    ]);
    assert_eq!(process_archive(top, FUEL), Ok(Tally { arbitrary: 0, public: 0 }));
}

#[test]
fn unknown_classification_counts_nothing() {
    let nested = make_zip(&[("r.xml", "<座標系>べつのもの</座標系>".as_bytes())]);
    let top = make_zip(&[("m-search-list.csv", b"013.zip,x\n"), ("013.zip", &nested)]);
    assert_eq!(process_archive(top, FUEL), Ok(Tally { arbitrary: 0, public: 0 }));
}

#[test]
fn batch_totals_do_not_depend_on_order() {
    let a = make_zip(&[
        ("m-search-list.csv", b"001.zip,x\n"),
        ("001.zip", &make_zip(&[("r.xml", &arbitrary_xml())])),
    ]);
    let b = make_zip(&[
        ("m-search-list.csv", b"002.zip,x\n002.zip,y\n"),
        ("002.zip", &make_zip(&[("r.xml", &public_xml())])),
    ]);
    let one = run_batch(&vec![a.clone(), b.clone()], FUEL);
    let two = run_batch(&vec![b, a], FUEL);
    assert_eq!(one.totals, two.totals);
    assert_eq!(one.totals, Tally { arbitrary: 1, public: 2 });
    assert_eq!(one.failed, 0);
    assert_eq!(two.failed, 0);
}

#[test]
fn processing_is_idempotent() {
    let top = make_zip(&[
        ("m-search-list.csv", b"001.zip,x\n"),
        ("001.zip", &make_zip(&[("r.xml", &arbitrary_xml())])),
    ]);
    let first = process_archive(top.clone(), FUEL);
    let second = process_archive(top, FUEL);
    assert_eq!(first, second);
}

#[test]
fn manifest_in_legacy_encoding_is_decoded() {
    // "014.zip,<CJK text in Shift_JIS>" : the reference is still recognized
    // even though the line's tail is not valid UTF-8.
    let mut manifest: Vec<u8> = Vec::new();
    manifest.extend_from_slice(b"014.zip,");
    manifest.extend_from_slice(&[0x93, 0xFA, 0x96, 0x7B]);
    manifest.push(b'\n');
    let nested = make_zip(&[("r.xml", &public_xml())]);
    let top_entries: [(&str, &[u8]); 2] = [
        ("m-search-list.csv", &manifest),
        ("014.zip", &nested),
    ];
    let top = make_zip(&top_entries);
    assert_eq!(process_archive(top, FUEL), Ok(Tally { arbitrary: 0, public: 1 }));
}
