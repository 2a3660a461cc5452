use vstd::prelude::*;
use std::io::Cursor;
use std::io::Read;
use zip::ZipArchive;

verus! {

#[verifier::external_type_specification]
#[verifier::external_body]
#[verifier::reject_recursive_types(R)]
pub struct ExZipArchive<R>(ZipArchive<R>);

#[verifier::external_type_specification]
#[verifier::external_body]
#[verifier::reject_recursive_types(T)]
pub struct ExCursor<T>(Cursor<T>);

/// What one archive entry looks like to the library: the entry's name and
/// directory flag as reading them yields them (absent when that read fails),
/// the entry's full content as reading it yields it (absent when that read
/// fails), and the first 4096 bytes of the content as a bounded read yields
/// them (absent when that read fails).
pub type ZipEntryModel = (Option<(Seq<char>, bool)>, Option<Seq<u8>>, Option<Seq<u8>>);

/// The entries of an opened in-memory archive, in archive order.
pub uninterp spec fn zip_entries(a: ZipArchive<Cursor<Vec<u8>>>) -> Seq<ZipEntryModel>;

/// What opening the given bytes as an archive yields: `None` when opening
/// fails, otherwise the entries of the archive. An in-memory archive is a
/// function of its bytes alone, so every read outcome recorded in the
/// entries is determined by them.
pub uninterp spec fn zip_parse(bytes: Seq<u8>) -> Option<Seq<ZipEntryModel>>;

/// Relies on zip::ZipArchive::new over an in-memory cursor: whether the
/// bytes open as an archive, and what its entries then are, depend on the
/// bytes alone.
#[verifier::external_body]
pub(crate) fn zip_open(bytes: Vec<u8>) -> (r: Result<ZipArchive<Cursor<Vec<u8>>>, ()>)
    ensures
        match r {
            Ok(a) => zip_parse(bytes@) == Some(zip_entries(a)),
            Err(e) => zip_parse(bytes@) is None,
        },
{
    match ZipArchive::new(Cursor::new(bytes)) {
        Ok(a) => Ok(a),
        Err(_) => Err(()),
    }
}

/// Relies on zip::ZipArchive::len: the number of entries in the archive.
#[verifier::external_body]
pub(crate) fn zip_len(a: &ZipArchive<Cursor<Vec<u8>>>) -> (n: usize)
    ensures
        n == zip_entries(*a).len(),
{
    a.len()
}

/// Relies on zip::ZipArchive::by_index and zip::read::ZipFile::{name,is_dir}:
/// reading an entry's name and directory flag from an in-memory archive is
/// deterministic and leaves the archive's entries as they were.
#[verifier::external_body]
pub(crate) fn zip_entry_meta(a: &mut ZipArchive<Cursor<Vec<u8>>>, i: usize) -> (r: Result<
    (String, bool),
    (),
>)
    requires
        i < zip_entries(*old(a)).len(),
    ensures
        zip_entries(*final(a)) == zip_entries(*old(a)),
        match r {
            Ok(m) => zip_entries(*old(a))[i as int].0 == Some((m.0@, m.1)),
            Err(e) => zip_entries(*old(a))[i as int].0 is None,
        },
{
    match a.by_index(i) {
        Ok(f) => {
            let name = f.name().to_string();
            let is_dir = f.is_dir();
            Ok((name, is_dir))
        },
        Err(_) => Err(()),
    }
}

/// Relies on zip::ZipArchive::by_index and std::io::Read::read_to_end on the
/// entry reader: reading an entry of an in-memory archive to its end is
/// deterministic and leaves the archive's entries as they were.
#[verifier::external_body]
pub(crate) fn zip_read_all(a: &mut ZipArchive<Cursor<Vec<u8>>>, i: usize) -> (r: Result<Vec<u8>, ()>)
    requires
        i < zip_entries(*old(a)).len(),
    ensures
        zip_entries(*final(a)) == zip_entries(*old(a)),
        match r {
            Ok(d) => zip_entries(*old(a))[i as int].1 == Some(d@),
            Err(e) => zip_entries(*old(a))[i as int].1 is None,
        },
{
    match a.by_index(i) {
        Ok(mut f) => {
            let mut d: Vec<u8> = Vec::new();
            match f.read_to_end(&mut d) {
                Ok(_) => Ok(d),
                Err(_) => Err(()),
            }
        },
        Err(_) => Err(()),
    }
}

/// Relies on zip::ZipArchive::by_index and std::io::Read::{take,read_to_end}
/// on the entry reader: reading the first 4096 bytes of an entry of an
/// in-memory archive is deterministic and leaves the archive's entries as
/// they were.
#[verifier::external_body]
pub(crate) fn zip_read_prefix(a: &mut ZipArchive<Cursor<Vec<u8>>>, i: usize, cap: usize) -> (r: Result<
    Vec<u8>,
    (),
>)
    requires
        i < zip_entries(*old(a)).len(),
        cap == 4096,
    ensures
        zip_entries(*final(a)) == zip_entries(*old(a)),
        match r {
            Ok(d) => zip_entries(*old(a))[i as int].2 == Some(d@),
            Err(e) => zip_entries(*old(a))[i as int].2 is None,
        },
{
    match a.by_index(i) {
        Ok(f) => {
            let mut d: Vec<u8> = Vec::new();
            match f.take(cap as u64).read_to_end(&mut d) {
                Ok(_) => Ok(d),
                Err(_) => Err(()),
            }
        },
        Err(_) => Err(()),
    }
}

} // verus!
