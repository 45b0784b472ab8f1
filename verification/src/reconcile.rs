//! The path normalizer and the reconciliation engine: manifest records are
//! indexed by their canonical full path, and every file a torrent declares
//! gets exactly one verdict, in declaration order.

use vstd::prelude::*;
use crate::value::bytes_eq;
use crate::torrent::{File, SpecFile, Torrent, SpecTorrent, SpecInfo};

verus! {

broadcast use crate::value::lemma_bytes_deep_view;

/// Path segments joined with the fixed `/` separator.
pub open spec fn join_path(segs: Seq<Seq<u8>>) -> Seq<u8>
    decreases segs,
{
    if segs.len() == 0 {
        Seq::empty()
    } else if segs.len() == 1 {
        segs[0]
    } else {
        segs[0] + seq![47u8] + join_path(segs.subrange(1, segs.len() as int))
    }
}

proof fn lemma_join_push(p: Seq<Seq<u8>>, x: Seq<u8>)
    requires
        p.len() > 0,
    ensures
        join_path(p.push(x)) == join_path(p) + seq![47u8] + x,
    decreases p,
{
    if p.len() == 1 {
        assert(p.push(x).subrange(1, 2) =~= seq![x]);
        assert(p.push(x)[0] == p[0]);
        assert(join_path(seq![x]) == x);
    } else {
        assert(p.push(x)[0] == p[0]);
        lemma_join_push(p.subrange(1, p.len() as int), x);
        assert(p.push(x).subrange(1, (p.len() + 1) as int) =~= p.subrange(
            1,
            p.len() as int,
        ).push(x));
        assert(p[0] + seq![47u8] + (join_path(p.subrange(1, p.len() as int)) + seq![47u8] + x)
            =~= (p[0] + seq![47u8] + join_path(p.subrange(1, p.len() as int))) + seq![47u8] + x);
    }
}

/// Joins path segments with the fixed separator, as used for index keys and
/// lookups alike.
pub fn join_segments(segs: &Vec<Vec<u8>>) -> (r: Vec<u8>)
    ensures
        r@ == join_path(segs.deep_view()),
{
    let ghost dv = segs.deep_view();
    proof {
        assert(forall|j: int| 0 <= j < segs@.len() ==> dv[j] == segs@[j]@);
    }
    let mut out: Vec<u8> = Vec::new();
    let mut i: usize = 0;
    while i < segs.len()
        invariant
            i <= segs@.len(),
            dv == segs.deep_view(),
            dv.len() == segs@.len(),
            forall|j: int| 0 <= j < segs@.len() ==> dv[j] == segs@[j]@,
            out@ == join_path(dv.take(i as int)),
        decreases segs@.len() - i,
    {
        if i > 0 {
            out.push(47u8);
        }
        out.extend_from_slice(segs[i].as_slice());
        proof {
            if i == 0 {
                assert(dv.take(1) =~= seq![dv[0]]);
                assert(out@ =~= dv[0]);
            } else {
                lemma_join_push(dv.take(i as int), dv[i as int]);
                assert(dv.take(i + 1) =~= dv.take(i as int).push(dv[i as int]));
                assert(out@ =~= join_path(dv.take(i as int)) + seq![47u8] + dv[i as int]);
            }
        }
        i = i + 1;
    }
    proof {
        assert(dv.take(dv.len() as int) =~= dv);
    }
    out
}

fn prepend_segments(name: &Vec<u8>, f: &File) -> (r: Vec<Vec<u8>>)
    ensures
        r.deep_view() == seq![name@] + f.path.deep_view(),
{
    let mut out: Vec<Vec<u8>> = Vec::new();
    out.push(vstd::slice::slice_to_vec(name.as_slice()));
    let mut i: usize = 0;
    while i < f.path.len()
        invariant
            i <= f.path@.len(),
            out@.len() == i + 1,
            out@[0]@ == name@,
            forall|j: int| 0 <= j < i ==> out@[j + 1]@ == f.path@[j]@,
        decreases f.path@.len() - i,
    {
        out.push(vstd::slice::slice_to_vec(f.path[i].as_slice()));
        i = i + 1;
    }
    proof {
        assert(forall|j: int| 0 <= j < out@.len() ==> out.deep_view()[j] == out@[j]@);
        assert(forall|j: int| 0 <= j < f.path@.len() ==> f.path.deep_view()[j] == f.path@[j]@);
        assert(out.deep_view() =~= seq![name@] + f.path.deep_view());
    }
    out
}

/// The canonical full path of a declared file: the torrent's root name
/// prepended to the file's relative segments, whether or not those are
/// empty. A multi-file torrent materializes under a directory named after
/// the root name; a single-file torrent is a file of that name itself.
pub fn canonical_path(t: &Torrent, f: &File) -> (r: Vec<Vec<u8>>)
    ensures
        r.deep_view() == seq![t.info.name@] + f.path.deep_view(),
{
    prepend_segments(&t.info.name, f)
}

/// The manifest index: canonical joined path to file record. A later entry
/// with the same path overwrites an earlier one — the last occurrence wins,
/// by definition, not by accident.
pub open spec fn manifest_index(files: Seq<SpecFile>) -> Map<Seq<u8>, SpecFile>
    decreases files,
{
    if files.len() == 0 {
        Map::empty()
    } else {
        manifest_index(files.subrange(0, files.len() - 1)).insert(
            join_path(files[files.len() - 1].path),
            files[files.len() - 1],
        )
    }
}

/// Law: when several manifest records share a canonical joined path, the
/// index resolves that path to the last of them.
pub proof fn lemma_index_last_wins(files: Seq<SpecFile>, i: int)
    requires
        0 <= i < files.len(),
        forall|j: int| i < j < files.len() ==> join_path(files[j].path) != join_path(
            files[i].path,
        ),
    ensures
        manifest_index(files).contains_key(join_path(files[i].path)),
        manifest_index(files)[join_path(files[i].path)] == files[i],
    decreases files.len(),
{
    if i < files.len() - 1 {
        let front = files.subrange(0, files.len() - 1);
        assert(front[i] == files[i]);
        lemma_index_last_wins(front, i);
    }
}

/// Looks a canonical joined path up in the manifest: the record returned is
/// exactly the one the index holds, and absence means the index holds none.
pub fn lookup<'a>(files: &'a Vec<File>, key: &[u8]) -> (r: Option<&'a File>)
    ensures
        match r {
            Some(f) => manifest_index(files.deep_view()).contains_key(key@) && f@
                == manifest_index(files.deep_view())[key@],
            None => !manifest_index(files.deep_view()).contains_key(key@),
        },
{
    let ghost fv = files.deep_view();
    proof {
        assert(forall|j: int| 0 <= j < files@.len() ==> fv[j] == files@[j]@);
        assert(fv.take(fv.len() as int) =~= fv);
    }
    let mut i: usize = files.len();
    while i > 0
        invariant
            i <= files@.len(),
            fv == files.deep_view(),
            fv.len() == files@.len(),
            forall|j: int| 0 <= j < files@.len() ==> fv[j] == files@[j]@,
            manifest_index(fv).contains_key(key@) <==> manifest_index(
                fv.take(i as int),
            ).contains_key(key@),
            manifest_index(fv).contains_key(key@) ==> manifest_index(fv)[key@]
                == manifest_index(fv.take(i as int))[key@],
        decreases i,
    {
        i = i - 1;
        let jkey = join_segments(&files[i].path);
        proof {
            assert(fv.take(i + 1).subrange(0, i as int) =~= fv.take(i as int));
            assert(fv.take(i + 1)[i as int] == fv[i as int]);
            assert(files@[i as int].path.deep_view() == fv[i as int].path);
        }
        if bytes_eq(jkey.as_slice(), key) {
            return Some(&files[i]);
        }
    }
    proof {
        assert(fv.take(0) =~= Seq::<SpecFile>::empty());
    }
    None
}

pub enum SpecVerdict {
    Match { path: Seq<Seq<u8>>, length: u64 },
    SizeMismatch { path: Seq<Seq<u8>>, expected: u64, actual: u64 },
    NotFound { path: Seq<Seq<u8>> },
}

/// The outcome for one declared file: found with the declared length, found
/// with another length, or not in the manifest at all.
#[derive(Debug, PartialEq)]
pub enum Verdict {
    Match { path: Vec<Vec<u8>>, length: u64 },
    SizeMismatch { path: Vec<Vec<u8>>, expected: u64, actual: u64 },
    NotFound { path: Vec<Vec<u8>> },
}

impl View for Verdict {
    type V = SpecVerdict;

    open spec fn view(&self) -> SpecVerdict {
        match self {
            Verdict::Match { path, length } => SpecVerdict::Match {
                path: path.deep_view(),
                length: *length,
            },
            Verdict::SizeMismatch { path, expected, actual } => SpecVerdict::SizeMismatch {
                path: path.deep_view(),
                expected: *expected,
                actual: *actual,
            },
            Verdict::NotFound { path } => SpecVerdict::NotFound { path: path.deep_view() },
        }
    }
}

impl DeepView for Verdict {
    type V = SpecVerdict;

    open spec fn deep_view(&self) -> SpecVerdict {
        self.view()
    }
}

pub struct SpecReport {
    pub path: Seq<Seq<char>>,
    pub verdicts: Seq<SpecVerdict>,
}

/// One torrent's outcome: its source identifier and one verdict per declared
/// file, in declaration order.
#[derive(Debug, PartialEq)]
pub struct Report {
    pub path: Vec<String>,
    pub verdicts: Vec<Verdict>,
}

impl View for Report {
    type V = SpecReport;

    open spec fn view(&self) -> SpecReport {
        SpecReport { path: self.path.deep_view(), verdicts: self.verdicts.deep_view() }
    }
}

impl DeepView for Report {
    type V = SpecReport;

    open spec fn deep_view(&self) -> SpecReport {
        self.view()
    }
}

/// The uniform file list the engine works on: the declared files, or, for
/// the single-file shape, one synthesized record with an empty relative
/// path and the single-file length.
pub open spec fn effective_files(i: SpecInfo) -> Seq<SpecFile> {
    if i.files.len() > 0 {
        i.files
    } else {
        seq![
            SpecFile {
                path: Seq::empty(),
                length: (match i.length {
                    Some(n) => n,
                    None => 0,
                }),
                extra_fields: None,
            },
        ]
    }
}

/// The verdict for one declared file against the manifest index.
pub open spec fn file_verdict(
    idx: Map<Seq<u8>, SpecFile>,
    name: Seq<u8>,
    f: SpecFile,
) -> SpecVerdict {
    let full = seq![name] + f.path;
    let key = join_path(full);
    if idx.contains_key(key) {
        if idx[key].length == f.length {
            SpecVerdict::Match { path: full, length: f.length }
        } else {
            SpecVerdict::SizeMismatch { path: full, expected: f.length, actual: idx[key].length }
        }
    } else {
        SpecVerdict::NotFound { path: full }
    }
}

/// The verdicts of one torrent, one per effective file, in order.
pub open spec fn torrent_verdicts(files: Seq<SpecFile>, t: SpecTorrent) -> Seq<SpecVerdict> {
    Seq::new(
        effective_files(t.info).len(),
        |j: int| file_verdict(manifest_index(files), t.info.name, effective_files(t.info)[j]),
    )
}

/// What reconciliation yields: one report per torrent, in input order.
pub open spec fn schecks(files: Seq<SpecFile>, ts: Seq<SpecTorrent>) -> Seq<SpecReport> {
    Seq::new(
        ts.len(),
        |j: int| SpecReport { path: ts[j].path, verdicts: torrent_verdicts(files, ts[j]) },
    )
}

fn check_torrent(files: &Vec<File>, t: Torrent) -> (rep: Report)
    ensures
        rep@ == (SpecReport {
            path: t@.path,
            verdicts: torrent_verdicts(files.deep_view(), t@),
        }),
{
    let ghost tview = t@;
    let ghost fv = files.deep_view();
    let info = t.info;
    let src = t.path;
    let name = info.name;
    let length = info.length;
    let mut eff = info.files;
    if eff.len() == 0 {
        let flen: u64 = match length {
            Some(n) => n,
            None => 0,
        };
        let epath: Vec<Vec<u8>> = Vec::new();
        proof {
            assert(epath.deep_view() =~= Seq::<Seq<u8>>::empty());
        }
        eff.push(File { path: epath, length: flen, extra_fields: None });
    }
    let ghost effv = effective_files(tview.info);
    proof {
        assert(forall|j: int| 0 <= j < eff@.len() ==> eff.deep_view()[j] == eff@[j]@);
        assert(eff.deep_view() =~= effv);
    }
    let mut verdicts: Vec<Verdict> = Vec::new();
    let mut i: usize = 0;
    while i < eff.len()
        invariant
            i <= eff@.len(),
            eff@.len() == effv.len(),
            forall|j: int| 0 <= j < eff@.len() ==> eff@[j]@ == effv[j],
            fv == files.deep_view(),
            name@ == tview.info.name,
            verdicts@.len() == i,
            forall|j: int| 0 <= j < i ==> verdicts@[j]@ == file_verdict(
                manifest_index(fv),
                tview.info.name,
                effv[j],
            ),
        decreases eff@.len() - i,
    {
        let f = &eff[i];
        let full = prepend_segments(&name, f);
        let key = join_segments(&full);
        proof {
            assert(full.deep_view() == seq![tview.info.name] + effv[i as int].path);
        }
        let v = match lookup(files, key.as_slice()) {
            Some(m) => if m.length == f.length {
                Verdict::Match { path: full, length: f.length }
            } else {
                Verdict::SizeMismatch { path: full, expected: f.length, actual: m.length }
            },
            None => Verdict::NotFound { path: full },
        };
        verdicts.push(v);
        i = i + 1;
    }
    let rep = Report { path: src, verdicts };
    proof {
        assert(forall|j: int| 0 <= j < rep.verdicts@.len() ==> rep.verdicts.deep_view()[j]
            == rep.verdicts@[j]@);
        assert(rep.verdicts.deep_view() =~= torrent_verdicts(fv, tview));
    }
    rep
}

/// Reconciles every torrent against the manifest file list: for each torrent,
/// one verdict per declared file (after single-file synthesis), keyed by the
/// canonical full path; equal lengths match, unequal lengths mismatch, and a
/// missing index entry is not found. Reconciliation itself never fails.
pub fn checks(files: Vec<File>, torrents: Vec<Torrent>) -> (r: Vec<Report>)
    ensures
        r.deep_view() == schecks(files.deep_view(), torrents.deep_view()),
{
    let ghost fv = files.deep_view();
    let ghost tv = torrents.deep_view();
    proof {
        assert(forall|j: int| 0 <= j < torrents@.len() ==> tv[j] == torrents@[j]@);
    }
    let mut torrents = torrents;
    let mut reports: Vec<Report> = Vec::new();
    let ghost mut n: int = 0;
    while torrents.len() > 0
        invariant
            0 <= n,
            n + torrents@.len() == tv.len(),
            fv == files.deep_view(),
            forall|j: int| 0 <= j < torrents@.len() ==> torrents@[j]@ == tv[j + n],
            reports@.len() == n,
            forall|j: int| 0 <= j < n ==> reports@[j]@ == schecks(fv, tv)[j],
        decreases torrents@.len(),
    {
        let t = torrents.remove(0);
        let rep = check_torrent(&files, t);
        reports.push(rep);
        proof {
            n = n + 1;
        }
    }
    proof {
        assert(forall|j: int| 0 <= j < reports@.len() ==> reports.deep_view()[j]
            == reports@[j]@);
        assert(reports.deep_view() =~= schecks(fv, tv));
    }
    reports
}

} // verus!
