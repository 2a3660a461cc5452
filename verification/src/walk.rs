use vstd::prelude::*;
use std::io::Cursor;
use zip::ZipArchive;

verus! {

use crate::tally::{
    Tally,
    tally_zero,
    tally_add_spec,
    tally_scale_spec,
    tally_add,
    tally_scale,
    tally_new,
    lemma_tally_add_assoc,
    lemma_tally_add_zero,
};
use crate::text::{seq_ends_with, chars_ends_with, str_to_chars};
use crate::classify::{classify_text_spec, tally_of_class, classify_text, classification_tally};
use crate::codec::{utf8_lossy_of, shift_jis_of, decode_utf8_lossy, decode_shift_jis};
use crate::manifest::{
    manifest_spec,
    manifest_is_empty,
    mult_of,
    count_name,
    lines_of,
    ManifestMap,
    parse_manifest_text,
    lemma_manifest_multiplicity,
};
use crate::ziputil::{
    ZipEntryModel,
    zip_entries,
    zip_parse,
    zip_open,
    zip_len,
    zip_entry_meta,
    zip_read_all,
    zip_read_prefix,
};

/// Entries with this name suffix are nested archives.
pub open spec fn zip_suffix() -> Seq<char> {
    seq!['.', 'z', 'i', 'p']
}

/// Entries with this name suffix are leaf records to classify.
pub open spec fn xml_suffix() -> Seq<char> {
    seq!['.', 'x', 'm', 'l']
}

/// The manifest is the entry with this name suffix.
pub open spec fn csv_suffix() -> Seq<char> {
    seq!['-', 's', 'e', 'a', 'r', 'c', 'h', '-', 'l', 'i', 's', 't', '.', 'c', 's', 'v']
}

/// How many bytes of a leaf record are inspected.
pub const XML_PREFIX_CAP: usize = 4096;

fn zip_suffix_vec() -> (v: Vec<char>)
    ensures
        v@ == zip_suffix(),
{
    let v = vec!['.', 'z', 'i', 'p'];
    proof {
        assert(v@ =~= zip_suffix());
    }
    v
}

fn xml_suffix_vec() -> (v: Vec<char>)
    ensures
        v@ == xml_suffix(),
{
    let v = vec!['.', 'x', 'm', 'l'];
    proof {
        assert(v@ =~= xml_suffix());
    }
    v
}

fn csv_suffix_vec() -> (v: Vec<char>)
    ensures
        v@ == csv_suffix(),
{
    let v = vec!['-', 's', 'e', 'a', 'r', 'c', 'h', '-', 'l', 'i', 's', 't', '.', 'c', 's', 'v'];
    proof {
        assert(v@ =~= csv_suffix());
    }
    v
}

// --- The recursive walk, as a function of the archive model ---
//
// A directory contributes nothing. A nested archive is opened from its bytes
// and every entry of it is walked in turn, with no manifest filtering at
// this depth; when its bytes cannot be read or opened, or the nesting budget
// is spent, the subtree contributes nothing. A leaf record contributes the
// classification of its decoded prefix. Any other entry, and any entry whose
// name cannot be read, contributes nothing.

pub open spec fn entry_tally(e: ZipEntryModel, fuel: nat) -> Tally
    decreases fuel, 0int, 0int,
{
    match e.0 {
        None => tally_zero(),
        Some(meta) => {
            if meta.1 {
                tally_zero()
            } else if seq_ends_with(meta.0, zip_suffix()) {
                match e.1 {
                    None => tally_zero(),
                    Some(d) => {
                        if fuel == 0 {
                            tally_zero()
                        } else {
                            bytes_tally(d, (fuel - 1) as nat)
                        }
                    },
                }
            } else if seq_ends_with(meta.0, xml_suffix()) {
                match e.2 {
                    None => tally_zero(),
                    Some(p) => tally_of_class(classify_text_spec(utf8_lossy_of(p))),
                }
            } else {
                tally_zero()
            }
        },
    }
}

pub open spec fn entries_tally_from(es: Seq<ZipEntryModel>, j: int, fuel: nat) -> Tally
    decreases fuel, 1int, es.len() - j,
{
    if j < 0 || j >= es.len() {
        tally_zero()
    } else {
        tally_add_spec(entry_tally(es[j], fuel), entries_tally_from(es, j + 1, fuel))
    }
}

pub open spec fn bytes_tally(b: Seq<u8>, fuel: nat) -> Tally
    decreases fuel, 2int, 0int,
{
    match zip_parse(b) {
        None => tally_zero(),
        Some(es) => entries_tally_from(es, 0, fuel),
    }
}

/// Walk one entry of an opened archive, returning its tally. Failures while
/// reading the entry are contained: they contribute the empty tally.
pub(crate) fn walk_entry(a: &mut ZipArchive<Cursor<Vec<u8>>>, i: usize, fuel: usize) -> (t: Tally)
    requires
        i < zip_entries(*old(a)).len(),
    ensures
        zip_entries(*final(a)) == zip_entries(*old(a)),
        t == entry_tally(zip_entries(*old(a))[i as int], fuel as nat),
    decreases fuel as nat, 0int, 0int,
{
    match zip_entry_meta(a, i) {
        Err(e) => tally_new(),
        Ok(meta) => {
            let (name, is_dir) = meta;
            if is_dir {
                return tally_new();
            }
            let nm = str_to_chars(name.as_str());
            let zs = zip_suffix_vec();
            if chars_ends_with(&nm, &zs) {
                match zip_read_all(a, i) {
                    Err(e) => tally_new(),
                    Ok(d) => {
                        if fuel == 0 {
                            tally_new()
                        } else {
                            walk_bytes(d, fuel - 1)
                        }
                    },
                }
            } else {
                let xs = xml_suffix_vec();
                if chars_ends_with(&nm, &xs) {
                    match zip_read_prefix(a, i, XML_PREFIX_CAP) {
                        Err(e) => tally_new(),
                        Ok(p) => {
                            let s = decode_utf8_lossy(&p);
                            let c = classify_text(s.as_str());
                            classification_tally(c)
                        },
                    }
                } else {
                    tally_new()
                }
            }
        },
    }
}

/// Open the given bytes as an archive and walk every entry, summing the
/// tallies. Bytes that do not open as an archive contribute the empty tally.
pub fn walk_bytes(data: Vec<u8>, fuel: usize) -> (t: Tally)
    ensures
        t == bytes_tally(data@, fuel as nat),
    decreases fuel as nat, 2int, 0int,
{
    let ghost b = data@;
    match zip_open(data) {
        Err(e) => tally_new(),
        Ok(mut a) => {
            let ghost es = zip_entries(a);
            let n = zip_len(&a);
            let mut t = tally_new();
            let mut j: usize = 0;
            while j < n
                invariant
                    zip_parse(b) == Some(es),
                    es == zip_entries(a),
                    n == es.len(),
                    j <= n,
                    tally_add_spec(t, entries_tally_from(es, j as int, fuel as nat))
                        == entries_tally_from(es, 0, fuel as nat),
                decreases n - j,
            {
                let te = walk_entry(&mut a, j, fuel);
                proof {
                    lemma_tally_add_assoc(t, te, entries_tally_from(es, j + 1, fuel as nat));
                }
                t = tally_add(t, te);
                j += 1;
            }
            proof {
                lemma_tally_add_zero(t);
            }
            t
        },
    }
}

// --- The weighted aggregation over one top-level archive ---

/// Why one top-level archive contributes nothing: its bytes do not open as
/// an archive, its manifest is missing, unreadable or empty, or one of its
/// entries' names cannot be read.
#[derive(Clone, Copy, PartialEq, Eq, Structural, Debug)]
pub enum ArchiveError {
    OpenFailed,
    ManifestNotFound,
    ManifestUnreadable,
    ManifestEmpty,
    EntryAccess,
}

pub open spec fn is_manifest_entry(e: ZipEntryModel) -> bool {
    match e.0 {
        Some(meta) => seq_ends_with(meta.0, csv_suffix()),
        None => false,
    }
}

/// The first entry whose name carries the manifest suffix.
pub open spec fn find_manifest_from(es: Seq<ZipEntryModel>, i: int) -> Option<int>
    decreases es.len() - i,
{
    if i < 0 || i >= es.len() {
        None
    } else if is_manifest_entry(es[i]) {
        Some(i)
    } else {
        find_manifest_from(es, i + 1)
    }
}

/// The weighted sum over the top-level entries: each entry's walk tally,
/// scaled by the entry name's multiplicity in the manifest. An entry whose
/// name is absent from the manifest is skipped outright.
pub open spec fn aggregate_from(
    es: Seq<ZipEntryModel>,
    m: Map<Seq<char>, nat>,
    i: int,
    fuel: nat,
) -> Tally
    decreases es.len() - i,
{
    if i < 0 || i >= es.len() {
        tally_zero()
    } else {
        let rest = aggregate_from(es, m, i + 1, fuel);
        match es[i].0 {
            None => rest,
            Some(meta) => {
                let k = mult_of(m, meta.0);
                if k == 0 {
                    rest
                } else {
                    tally_add_spec(tally_scale_spec(entry_tally(es[i], fuel), k), rest)
                }
            },
        }
    }
}

pub open spec fn has_meta_failure(es: Seq<ZipEntryModel>) -> bool {
    exists|i: int| 0 <= i < es.len() && es[i].0 is None
}

/// What processing one opened top-level archive yields, as a function of its
/// entries: either its weighted tally, or the error that makes it contribute
/// nothing.
pub open spec fn entries_result(es: Seq<ZipEntryModel>, fuel: nat) -> Result<Tally, ArchiveError> {
    match find_manifest_from(es, 0) {
        None => Err(ArchiveError::ManifestNotFound),
        Some(j) => match es[j].1 {
            None => Err(ArchiveError::ManifestUnreadable),
            Some(raw) => {
                if manifest_is_empty(shift_jis_of(raw)) {
                    Err(ArchiveError::ManifestEmpty)
                } else if has_meta_failure(es) {
                    Err(ArchiveError::EntryAccess)
                } else {
                    Ok(aggregate_from(es, manifest_spec(shift_jis_of(raw)), 0, fuel))
                }
            },
        },
    }
}

/// What processing one top-level archive yields, as a function of its bytes.
pub open spec fn archive_result(bytes: Seq<u8>, fuel: nat) -> Result<Tally, ArchiveError> {
    match zip_parse(bytes) {
        None => Err(ArchiveError::OpenFailed),
        Some(es) => entries_result(es, fuel),
    }
}

/// Process one top-level archive, given its bytes: locate and parse the
/// manifest, then walk and weight every top-level entry the manifest
/// references. Fails exactly when the archive does not open, the manifest is
/// missing, unreadable or empty, or an entry's name cannot be read.
pub fn process_archive(bytes: Vec<u8>, fuel: usize) -> (r: Result<Tally, ArchiveError>)
    ensures
        r == archive_result(bytes@, fuel as nat),
{
    let ghost b = bytes@;
    let mut a = match zip_open(bytes) {
        Err(e) => {
            return Err(ArchiveError::OpenFailed);
        },
        Ok(a) => a,
    };
    let ghost es = zip_entries(a);
    let n = zip_len(&a);
    let cs = csv_suffix_vec();
    let mut j: usize = 0;
    let mut midx: usize = 0;
    let mut have: bool = false;
    while j < n && !have
        invariant
            zip_parse(b) == Some(es),
            es == zip_entries(a),
            n == es.len(),
            j <= n,
            cs@ == csv_suffix(),
            !have ==> find_manifest_from(es, 0) == find_manifest_from(es, j as int),
            have ==> find_manifest_from(es, 0) == Some(midx as int) && midx < n,
        decreases n - j + (if have {
            0int
        } else {
            1int
        }),
    {
        match zip_entry_meta(&mut a, j) {
            Ok(meta) => {
                let (name, _is_dir) = meta;
                let nm = str_to_chars(name.as_str());
                if chars_ends_with(&nm, &cs) {
                    have = true;
                    midx = j;
                } else {
                    j += 1;
                }
            },
            Err(e) => {
                j += 1;
            },
        }
    }
    if !have {
        return Err(ArchiveError::ManifestNotFound);
    }
    let raw = match zip_read_all(&mut a, midx) {
        Err(e) => {
            return Err(ArchiveError::ManifestUnreadable);
        },
        Ok(d) => d,
    };
    let ghost sjtext = shift_jis_of(raw@);
    let text = decode_shift_jis(&raw);
    let m = parse_manifest_text(text.as_str());
    proof {
        assert forall|nn: Seq<char>|
            #![trigger mult_of(m@, nn)]
            #![trigger count_name(lines_of(sjtext), nn)]
            mult_of(m@, nn) == count_name(lines_of(sjtext), nn) by {
            lemma_manifest_multiplicity(sjtext, nn);
        }
    }
    if m.is_empty() {
        proof {
            assert(manifest_is_empty(sjtext));
        }
        return Err(ArchiveError::ManifestEmpty);
    }
    proof {
        assert(!manifest_is_empty(sjtext));
    }
    let ghost mm = manifest_spec(sjtext);
    let mut total = tally_new();
    let mut i: usize = 0;
    while i < n
        invariant
            b == bytes@,
            zip_parse(b) == Some(es),
            es == zip_entries(a),
            n == es.len(),
            i <= n,
            m@ == mm,
            find_manifest_from(es, 0) == Some(midx as int),
            es[midx as int].1 == Some(raw@),
            sjtext == shift_jis_of(raw@),
            !manifest_is_empty(sjtext),
            forall|q: int| 0 <= q < i ==> es[q].0 is Some,
            tally_add_spec(total, aggregate_from(es, mm, i as int, fuel as nat))
                == aggregate_from(es, mm, 0, fuel as nat),
        decreases n - i,
    {
        match zip_entry_meta(&mut a, i) {
            Err(e) => {
                proof {
                    assert(has_meta_failure(es));
                }
                return Err(ArchiveError::EntryAccess);
            },
            Ok(meta) => {
                let (name, _is_dir) = meta;
                let k = m.get_str(name.as_str());
                if k > 0 {
                    let te = walk_entry(&mut a, i, fuel);
                    let sc = tally_scale(te, k);
                    proof {
                        lemma_tally_add_assoc(
                            total,
                            sc,
                            aggregate_from(es, mm, i + 1, fuel as nat),
                        );
                    }
                    total = tally_add(total, sc);
                }
                i += 1;
            },
        }
    }
    proof {
        assert(!has_meta_failure(es));
        lemma_tally_add_zero(total);
    }
    Ok(total)
}

// --- The batch: many top-level archives, combined ---

/// Totals over a batch, and how many archives failed and contributed
/// nothing.
#[derive(Clone, Copy, PartialEq, Eq, Structural, Debug)]
pub struct BatchOutcome {
    pub totals: Tally,
    pub failed: usize,
}

pub open spec fn batch_from(inputs: Seq<Seq<u8>>, i: int, fuel: nat) -> (Tally, nat)
    decreases inputs.len() - i,
{
    if i < 0 || i >= inputs.len() {
        (tally_zero(), 0 as nat)
    } else {
        let rest = batch_from(inputs, i + 1, fuel);
        match archive_result(inputs[i], fuel) {
            Ok(t) => (tally_add_spec(t, rest.0), rest.1),
            Err(e) => (rest.0, (rest.1 + 1) as nat),
        }
    }
}

/// Process every archive of a batch and combine the totals. A failing
/// archive contributes nothing and is only counted; it never stops the
/// batch.
pub fn run_batch(inputs: &Vec<Vec<u8>>, fuel: usize) -> (r: BatchOutcome)
    ensures
        r.totals == batch_from(inputs.deep_view(), 0, fuel as nat).0,
        r.failed as nat == batch_from(inputs.deep_view(), 0, fuel as nat).1,
{
    let ghost dv = inputs.deep_view();
    let mut totals = tally_new();
    let mut failed: usize = 0;
    let mut i: usize = 0;
    while i < inputs.len()
        invariant
            dv == inputs.deep_view(),
            i <= dv.len(),
            failed <= i,
            tally_add_spec(totals, batch_from(dv, i as int, fuel as nat).0) == batch_from(
                dv,
                0,
                fuel as nat,
            ).0,
            failed + batch_from(dv, i as int, fuel as nat).1 == batch_from(dv, 0, fuel as nat).1,
        decreases dv.len() - i,
    {
        let bytes = inputs[i].clone();
        proof {
            assert(bytes@ =~= dv[i as int]);
        }
        match process_archive(bytes, fuel) {
            Ok(t) => {
                proof {
                    lemma_tally_add_assoc(totals, t, batch_from(dv, i + 1, fuel as nat).0);
                }
                totals = tally_add(totals, t);
            },
            Err(e) => {
                failed += 1;
            },
        }
        i += 1;
    }
    proof {
        lemma_tally_add_zero(totals);
    }
    BatchOutcome { totals, failed }
}

// --- Laws ---

/// The manifest mapping an archive's entries carry, when the manifest can be
/// located and read.
pub open spec fn manifest_map_of(es: Seq<ZipEntryModel>) -> Option<Map<Seq<char>, nat>> {
    match find_manifest_from(es, 0) {
        None => None,
        Some(j) => match es[j].1 {
            None => None,
            Some(raw) => Some(manifest_spec(shift_jis_of(raw))),
        },
    }
}

proof fn lemma_find_manifest_eq(es1: Seq<ZipEntryModel>, es2: Seq<ZipEntryModel>, i: int)
    requires
        es1.len() == es2.len(),
        forall|q: int| 0 <= q < es1.len() ==> (#[trigger] es1[q]).0 == es2[q].0,
    ensures
        find_manifest_from(es1, i) == find_manifest_from(es2, i),
    decreases es1.len() - i,
{
    if i < 0 || i >= es1.len() {
    } else {
        assert(is_manifest_entry(es1[i]) == is_manifest_entry(es2[i]));
        lemma_find_manifest_eq(es1, es2, i + 1);
    }
}

proof fn lemma_aggregate_eq(
    es1: Seq<ZipEntryModel>,
    es2: Seq<ZipEntryModel>,
    m: Map<Seq<char>, nat>,
    i: int,
    fuel: nat,
)
    requires
        es1.len() == es2.len(),
        forall|q: int| 0 <= q < es1.len() ==> (#[trigger] es1[q]).0 == es2[q].0,
        forall|q: int|
            0 <= q < es1.len() ==> match (#[trigger] es1[q]).0 {
                Some(meta) => mult_of(m, meta.0) > 0 ==> es1[q] == es2[q],
                None => true,
            },
    ensures
        aggregate_from(es1, m, i, fuel) == aggregate_from(es2, m, i, fuel),
    decreases es1.len() - i,
{
    if i < 0 || i >= es1.len() {
    } else {
        lemma_aggregate_eq(es1, es2, m, i + 1, fuel);
    }
}

/// An entry whose name the manifest does not reference is never descended
/// into: its contents may differ arbitrarily (only names, directory flags,
/// the manifest entry itself, and the referenced entries must agree) without
/// changing what the archive yields.
pub proof fn lemma_unreferenced_entries_inert(
    es1: Seq<ZipEntryModel>,
    es2: Seq<ZipEntryModel>,
    fuel: nat,
)
    requires
        es1.len() == es2.len(),
        forall|q: int| 0 <= q < es1.len() ==> (#[trigger] es1[q]).0 == es2[q].0,
        match find_manifest_from(es1, 0) {
            Some(j) => es1[j] == es2[j],
            None => true,
        },
        forall|q: int|
            0 <= q < es1.len() ==> match (#[trigger] es1[q]).0 {
                Some(meta) => match manifest_map_of(es1) {
                    Some(m) => mult_of(m, meta.0) > 0 ==> es1[q] == es2[q],
                    None => true,
                },
                None => true,
            },
    ensures
        entries_result(es1, fuel) == entries_result(es2, fuel),
{
    lemma_find_manifest_eq(es1, es2, 0);
    match find_manifest_from(es1, 0) {
        None => {},
        Some(j) => {
            assert(es1[j] == es2[j]);
            match es1[j].1 {
                None => {},
                Some(raw) => {
                    assert(has_meta_failure(es1) == has_meta_failure(es2)) by {
                        if has_meta_failure(es1) {
                            let w = choose|w: int|
                                0 <= w < es1.len() && (#[trigger] es1[w]).0 is None;
                            assert(es2[w].0 is None);
                        }
                        if has_meta_failure(es2) {
                            let w = choose|w: int|
                                0 <= w < es2.len() && (#[trigger] es2[w]).0 is None;
                            assert(es1[w].0 is None);
                        }
                    }
                    if !manifest_is_empty(shift_jis_of(raw)) && !has_meta_failure(es1) {
                        lemma_aggregate_eq(
                            es1,
                            es2,
                            manifest_spec(shift_jis_of(raw)),
                            0,
                            fuel,
                        );
                    }
                },
            }
        },
    }
}

/// Processing is a function of the inputs alone: two runs of the batch over
/// unchanged inputs yield identical totals and failure counts.
pub proof fn lemma_batch_idempotent(
    inputs: Seq<Seq<u8>>,
    fuel: nat,
    r1: (Tally, nat),
    r2: (Tally, nat),
)
    requires
        r1 == batch_from(inputs, 0, fuel),
        r2 == batch_from(inputs, 0, fuel),
    ensures
        r1 == r2,
{
}

proof fn lemma_batch_remove_suffix(inputs: Seq<Seq<u8>>, i: int, j: int, fuel: nat)
    requires
        0 <= i < inputs.len(),
        i <= j <= inputs.len() - 1,
    ensures
        batch_from(inputs.remove(i), j, fuel) == batch_from(inputs, j + 1, fuel),
    decreases inputs.len() - j,
{
    if j >= inputs.len() - 1 {
    } else {
        assert(inputs.remove(i)[j] == inputs[j + 1]);
        lemma_batch_remove_suffix(inputs, i, j + 1, fuel);
    }
}

proof fn lemma_batch_remove_prefix(inputs: Seq<Seq<u8>>, i: int, j: int, fuel: nat)
    requires
        0 <= j <= i < inputs.len(),
        archive_result(inputs[i], fuel) is Err,
    ensures
        batch_from(inputs, j, fuel).0 == batch_from(inputs.remove(i), j, fuel).0,
        batch_from(inputs, j, fuel).1 == batch_from(inputs.remove(i), j, fuel).1 + 1,
    decreases i - j,
{
    if j == i {
        lemma_batch_remove_suffix(inputs, i, j, fuel);
    } else {
        assert(inputs.remove(i)[j] == inputs[j]);
        lemma_batch_remove_prefix(inputs, i, j + 1, fuel);
    }
}

/// A failing archive contributes nothing: the batch totals are the same as
/// if it had not been in the batch at all, and only the failure count sees
/// it.
pub proof fn lemma_failed_archive_inert(inputs: Seq<Seq<u8>>, i: int, fuel: nat)
    requires
        0 <= i < inputs.len(),
        archive_result(inputs[i], fuel) is Err,
    ensures
        batch_from(inputs, 0, fuel).0 == batch_from(inputs.remove(i), 0, fuel).0,
        batch_from(inputs, 0, fuel).1 == batch_from(inputs.remove(i), 0, fuel).1 + 1,
{
    lemma_batch_remove_prefix(inputs, i, 0, fuel);
}

} // verus!
