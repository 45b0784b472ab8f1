//! The torrent metadata model and its decoder: a decoded document is checked
//! for the required fields, for exactly one of the single-file and multi-file
//! shapes, and for the optional fields it preserves.

use vstd::prelude::*;
use vstd::string::StringSliceAdditionalSpecFns;
use crate::value::{DecodeError, SpecValue, DocValue, list_view, pairs_view, lemma_list_view,
    dget, vget, as_bytes, as_int, as_list, as_dict, segs_of, segs_of_list, decode_segments,
    decode_each, lemma_decode_each_all, lemma_decode_each_bad, lemma_decode_each_ok_len};
use crate::bencode::{parse_doc, parse_bencode};

verus! {

broadcast use crate::value::lemma_bytes_deep_view, crate::value::lemma_opt_bytes_deep_view;

/// The key, as bytes, under which a field is stored.
pub open spec fn kb(s: &str) -> Seq<u8> {
    s.spec_bytes()
}

/// The value of the first of the two keys that is present.
pub open spec fn dget2(d: Seq<(Seq<u8>, SpecValue)>, k1: Seq<u8>, k2: Seq<u8>) -> Option<
    SpecValue,
> {
    match dget(d, k1) {
        Some(v) => Some(v),
        None => dget(d, k2),
    }
}

// ---------------------------------------------------------------------------
// Data model
// ---------------------------------------------------------------------------

pub struct SpecHashes {
    pub sha1: Option<Seq<u8>>,
    pub md5sum: Option<Seq<u8>>,
    pub crc32: Option<Seq<u8>>,
    pub sha256: Option<Seq<u8>>,
    pub whirlpool: Option<Seq<u8>>,
}

/// Optional named digest strings attached to a file record; decorative only.
#[derive(Debug, PartialEq)]
pub struct Hashes {
    pub sha1: Option<Vec<u8>>,
    pub md5sum: Option<Vec<u8>>,
    pub crc32: Option<Vec<u8>>,
    pub sha256: Option<Vec<u8>>,
    pub whirlpool: Option<Vec<u8>>,
}

impl View for Hashes {
    type V = SpecHashes;

    open spec fn view(&self) -> SpecHashes {
        SpecHashes {
            sha1: self.sha1.deep_view(),
            md5sum: self.md5sum.deep_view(),
            crc32: self.crc32.deep_view(),
            sha256: self.sha256.deep_view(),
            whirlpool: self.whirlpool.deep_view(),
        }
    }
}

impl DeepView for Hashes {
    type V = SpecHashes;

    open spec fn deep_view(&self) -> SpecHashes {
        self.view()
    }
}

pub struct SpecFile {
    pub path: Seq<Seq<u8>>,
    pub length: u64,
    pub extra_fields: Option<SpecHashes>,
}

/// One file record: ordered path segments and a byte length. In torrent
/// metadata the path is relative to the torrent's root name; in a manifest
/// it is the full path.
#[derive(Debug, PartialEq)]
pub struct File {
    pub path: Vec<Vec<u8>>,
    pub length: u64,
    pub extra_fields: Option<Hashes>,
}

impl View for File {
    type V = SpecFile;

    open spec fn view(&self) -> SpecFile {
        SpecFile {
            path: self.path.deep_view(),
            length: self.length,
            extra_fields: self.extra_fields.deep_view(),
        }
    }
}

impl DeepView for File {
    type V = SpecFile;

    open spec fn deep_view(&self) -> SpecFile {
        self.view()
    }
}

pub struct SpecNode(pub Seq<u8>, pub i64);

/// A distributed-table node: a host and a port.
#[derive(Debug, PartialEq)]
pub struct Node(pub Vec<u8>, pub i64);

impl View for Node {
    type V = SpecNode;

    open spec fn view(&self) -> SpecNode {
        SpecNode(self.0.deep_view(), self.1)
    }
}

impl DeepView for Node {
    type V = SpecNode;

    open spec fn deep_view(&self) -> SpecNode {
        self.view()
    }
}

pub struct SpecInfo {
    pub name: Seq<u8>,
    pub pieces: Seq<u8>,
    pub piece_length: u64,
    pub md5sum: Option<Seq<u8>>,
    pub length: Option<u64>,
    pub files: Seq<SpecFile>,
    pub private: Option<i64>,
    pub path: Option<Seq<Seq<u8>>>,
    pub root_hash: Option<Seq<u8>>,
}

/// The `info` mapping of a torrent document. Exactly one of `length`
/// (single-file shape) and a non-empty `files` (multi-file shape) is set
/// by the decoder.
#[derive(Debug, PartialEq)]
pub struct Info {
    pub name: Vec<u8>,
    pub pieces: Vec<u8>,
    pub piece_length: u64,
    pub md5sum: Option<Vec<u8>>,
    pub length: Option<u64>,
    pub files: Vec<File>,
    pub private: Option<i64>,
    pub path: Option<Vec<Vec<u8>>>,
    pub root_hash: Option<Vec<u8>>,
}

impl View for Info {
    type V = SpecInfo;

    open spec fn view(&self) -> SpecInfo {
        SpecInfo {
            name: self.name.deep_view(),
            pieces: self.pieces.deep_view(),
            piece_length: self.piece_length,
            md5sum: self.md5sum.deep_view(),
            length: self.length,
            files: self.files.deep_view(),
            private: self.private,
            path: self.path.deep_view(),
            root_hash: self.root_hash.deep_view(),
        }
    }
}

impl DeepView for Info {
    type V = SpecInfo;

    open spec fn deep_view(&self) -> SpecInfo {
        self.view()
    }
}

pub struct SpecTorrent {
    pub info: SpecInfo,
    pub announce: Option<Seq<u8>>,
    pub nodes: Option<Seq<SpecNode>>,
    pub encoding: Option<Seq<u8>>,
    pub httpseeds: Option<Seq<Seq<u8>>>,
    pub announce_list: Option<Seq<Seq<Seq<u8>>>>,
    pub creation_date: Option<i64>,
    pub comment: Option<Seq<u8>>,
    pub created_by: Option<Seq<u8>>,
    pub path: Seq<Seq<char>>,
}

/// A decoded torrent metadata document, with the identifier of where it came
/// from carried in `path`.
#[derive(Debug, PartialEq)]
pub struct Torrent {
    pub info: Info,
    pub announce: Option<Vec<u8>>,
    pub nodes: Option<Vec<Node>>,
    pub encoding: Option<Vec<u8>>,
    pub httpseeds: Option<Vec<Vec<u8>>>,
    pub announce_list: Option<Vec<Vec<Vec<u8>>>>,
    pub creation_date: Option<i64>,
    pub comment: Option<Vec<u8>>,
    pub created_by: Option<Vec<u8>>,
    pub path: Vec<String>,
}

impl View for Torrent {
    type V = SpecTorrent;

    open spec fn view(&self) -> SpecTorrent {
        SpecTorrent {
            info: self.info.deep_view(),
            announce: self.announce.deep_view(),
            nodes: self.nodes.deep_view(),
            encoding: self.encoding.deep_view(),
            httpseeds: self.httpseeds.deep_view(),
            announce_list: self.announce_list.deep_view(),
            creation_date: self.creation_date,
            comment: self.comment.deep_view(),
            created_by: self.created_by.deep_view(),
            path: self.path.deep_view(),
        }
    }
}

impl DeepView for Torrent {
    type V = SpecTorrent;

    open spec fn deep_view(&self) -> SpecTorrent {
        self.view()
    }
}

// ---------------------------------------------------------------------------
// Optional-field rules and their verified readers
// ---------------------------------------------------------------------------

/// An optional byte-string field: absent is fine, any other kind is not.
pub open spec fn sbytes_opt(d: Seq<(Seq<u8>, SpecValue)>, key: Seq<u8>) -> Result<
    Option<Seq<u8>>,
    DecodeError,
> {
    match dget(d, key) {
        None => Ok(None),
        Some(v) => match v {
            SpecValue::Bytes(b) => Ok(Some(b)),
            _ => Err(DecodeError::InvalidShape),
        },
    }
}

/// As `sbytes_opt`, with an accepted alternate key.
pub open spec fn sbytes_opt2(
    d: Seq<(Seq<u8>, SpecValue)>,
    k1: Seq<u8>,
    k2: Seq<u8>,
) -> Result<Option<Seq<u8>>, DecodeError> {
    match dget2(d, k1, k2) {
        None => Ok(None),
        Some(v) => match v {
            SpecValue::Bytes(b) => Ok(Some(b)),
            _ => Err(DecodeError::InvalidShape),
        },
    }
}

/// An optional integer field.
pub open spec fn sint_opt(d: Seq<(Seq<u8>, SpecValue)>, key: Seq<u8>) -> Result<
    Option<i64>,
    DecodeError,
> {
    match dget(d, key) {
        None => Ok(None),
        Some(v) => match v {
            SpecValue::Int(n) => Ok(Some(n as i64)),
            _ => Err(DecodeError::InvalidShape),
        },
    }
}

/// An optional field holding a list of byte strings.
pub open spec fn ssegs_list_opt(d: Seq<(Seq<u8>, SpecValue)>, key: Seq<u8>) -> Result<
    Option<Seq<Seq<u8>>>,
    DecodeError,
> {
    match dget(d, key) {
        None => Ok(None),
        Some(v) => match v {
            SpecValue::List(vs) => match segs_of_list(vs) {
                Some(ss) => Ok(Some(ss)),
                None => Err(DecodeError::InvalidShape),
            },
            _ => Err(DecodeError::InvalidShape),
        },
    }
}

fn get_bytes_opt(d: &Vec<(Vec<u8>, DocValue)>, key: &str) -> (r: Result<
    Option<Vec<u8>>,
    DecodeError,
>)
    ensures
        r matches Ok(o) ==> sbytes_opt(pairs_view(d@), key.spec_bytes()) == Ok::<
            Option<Seq<u8>>,
            DecodeError,
        >(o.deep_view()),
        r matches Err(e) ==> sbytes_opt(pairs_view(d@), key.spec_bytes()) == Err::<
            Option<Seq<u8>>,
            DecodeError,
        >(e),
{
    match vget(d, key.as_bytes()) {
        None => Ok(None),
        Some(v) => match as_bytes(v) {
            Some(b) => Ok(Some(vstd::slice::slice_to_vec(b.as_slice()))),
            None => Err(DecodeError::InvalidShape),
        },
    }
}

fn get_bytes_opt2(d: &Vec<(Vec<u8>, DocValue)>, k1: &str, k2: &str) -> (r: Result<
    Option<Vec<u8>>,
    DecodeError,
>)
    ensures
        r matches Ok(o) ==> sbytes_opt2(pairs_view(d@), k1.spec_bytes(), k2.spec_bytes()) == Ok::<
            Option<Seq<u8>>,
            DecodeError,
        >(o.deep_view()),
        r matches Err(e) ==> sbytes_opt2(pairs_view(d@), k1.spec_bytes(), k2.spec_bytes())
            == Err::<Option<Seq<u8>>, DecodeError>(e),
{
    let v = match vget(d, k1.as_bytes()) {
        Some(v) => v,
        None => match vget(d, k2.as_bytes()) {
            Some(v) => v,
            None => {
                return Ok(None);
            },
        },
    };
    match as_bytes(v) {
        Some(b) => Ok(Some(vstd::slice::slice_to_vec(b.as_slice()))),
        None => Err(DecodeError::InvalidShape),
    }
}

fn get_int_opt(d: &Vec<(Vec<u8>, DocValue)>, key: &str) -> (r: Result<Option<i64>, DecodeError>)
    ensures
        r matches Ok(o) ==> sint_opt(pairs_view(d@), key.spec_bytes()) == Ok::<
            Option<i64>,
            DecodeError,
        >(o),
        r matches Err(e) ==> sint_opt(pairs_view(d@), key.spec_bytes()) == Err::<
            Option<i64>,
            DecodeError,
        >(e),
{
    match vget(d, key.as_bytes()) {
        None => Ok(None),
        Some(v) => match as_int(v) {
            Some(n) => Ok(Some(n)),
            None => Err(DecodeError::InvalidShape),
        },
    }
}

fn get_segs_list_opt(d: &Vec<(Vec<u8>, DocValue)>, key: &str) -> (r: Result<
    Option<Vec<Vec<u8>>>,
    DecodeError,
>)
    ensures
        r matches Ok(o) ==> ssegs_list_opt(pairs_view(d@), key.spec_bytes()) == Ok::<
            Option<Seq<Seq<u8>>>,
            DecodeError,
        >(o.deep_view()),
        r matches Err(e) ==> ssegs_list_opt(pairs_view(d@), key.spec_bytes()) == Err::<
            Option<Seq<Seq<u8>>>,
            DecodeError,
        >(e),
{
    match vget(d, key.as_bytes()) {
        None => Ok(None),
        Some(v) => match as_list(v) {
            None => Err(DecodeError::InvalidShape),
            Some(_) => match decode_segments(v) {
                Some(ss) => Ok(Some(ss)),
                None => Err(DecodeError::InvalidShape),
            },
        },
    }
}

// ---------------------------------------------------------------------------
// File records (shared with the manifest decoder)
// ---------------------------------------------------------------------------

/// The rule for the optional named-digest mapping of a file record.
pub open spec fn shashes_of(v: SpecValue) -> Result<SpecHashes, DecodeError> {
    match v {
        SpecValue::Dict(d) => match sbytes_opt(d, kb("sha1")) {
            Err(e) => Err(e),
            Ok(sha1) => match sbytes_opt2(d, kb("md5sum"), kb("md5")) {
                Err(e) => Err(e),
                Ok(md5sum) => match sbytes_opt(d, kb("crc32")) {
                    Err(e) => Err(e),
                    Ok(crc32) => match sbytes_opt(d, kb("sha256")) {
                        Err(e) => Err(e),
                        Ok(sha256) => match sbytes_opt(d, kb("whirlpool")) {
                            Err(e) => Err(e),
                            Ok(whirlpool) => Ok(
                                SpecHashes { sha1, md5sum, crc32, sha256, whirlpool },
                            ),
                        },
                    },
                },
            },
        },
        _ => Err(DecodeError::InvalidShape),
    }
}

fn decode_hashes(v: &DocValue) -> (r: Result<Hashes, DecodeError>)
    ensures
        r matches Ok(h) ==> shashes_of(v@) == Ok::<SpecHashes, DecodeError>(h@),
        r matches Err(e) ==> shashes_of(v@) == Err::<SpecHashes, DecodeError>(e),
{
    let d = match as_dict(v) {
        Some(d) => d,
        None => {
            return Err(DecodeError::InvalidShape);
        },
    };
    let sha1 = match get_bytes_opt(d, "sha1") {
        Ok(o) => o,
        Err(e) => {
            return Err(e);
        },
    };
    let md5sum = match get_bytes_opt2(d, "md5sum", "md5") {
        Ok(o) => o,
        Err(e) => {
            return Err(e);
        },
    };
    let crc32 = match get_bytes_opt(d, "crc32") {
        Ok(o) => o,
        Err(e) => {
            return Err(e);
        },
    };
    let sha256 = match get_bytes_opt(d, "sha256") {
        Ok(o) => o,
        Err(e) => {
            return Err(e);
        },
    };
    let whirlpool = match get_bytes_opt(d, "whirlpool") {
        Ok(o) => o,
        Err(e) => {
            return Err(e);
        },
    };
    Ok(Hashes { sha1, md5sum, crc32, sha256, whirlpool })
}

/// The rule for the optional, aliased digest field of a file record.
pub open spec fn sextra_of(d: Seq<(Seq<u8>, SpecValue)>) -> Result<
    Option<SpecHashes>,
    DecodeError,
> {
    match dget2(d, kb("extra_fields"), kb("Hashes")) {
        None => Ok(None),
        Some(hv) => match shashes_of(hv) {
            Ok(h) => Ok(Some(h)),
            Err(e) => Err(e),
        },
    }
}

/// The rule for one file record: a path (keys `path` or `Path`, written as
/// one byte string or a list of them), a non-negative length (keys `length`
/// or `Size`), and the optional digests. A record that lacks either field,
/// or holds it with the wrong kind of value, is malformed: `InvalidShape`.
pub open spec fn sfile_of(v: SpecValue) -> Result<SpecFile, DecodeError> {
    match v {
        SpecValue::Dict(d) => match dget2(d, kb("path"), kb("Path")) {
            None => Err(DecodeError::InvalidShape),
            Some(pv) => match segs_of(pv) {
                None => Err(DecodeError::InvalidShape),
                Some(segs) => match dget2(d, kb("length"), kb("Size")) {
                    None => Err(DecodeError::InvalidShape),
                    Some(lv) => match lv {
                        SpecValue::Int(n) => if n < 0 {
                            Err(DecodeError::InvalidShape)
                        } else {
                            match sextra_of(d) {
                                Err(e) => Err(e),
                                Ok(extra) => Ok(
                                    SpecFile { path: segs, length: n as u64, extra_fields: extra },
                                ),
                            }
                        },
                        _ => Err(DecodeError::InvalidShape),
                    },
                },
            },
        },
        _ => Err(DecodeError::InvalidShape),
    }
}

pub open spec fn sfile_fn() -> spec_fn(SpecValue) -> Result<SpecFile, DecodeError> {
    |x: SpecValue| sfile_of(x)
}

/// Decodes one file record; both the torrent decoder and the manifest decoder
/// use this function.
pub fn decode_file(v: &DocValue) -> (r: Result<File, DecodeError>)
    ensures
        r matches Ok(f) ==> sfile_of(v@) == Ok::<SpecFile, DecodeError>(f@),
        r matches Err(e) ==> sfile_of(v@) == Err::<SpecFile, DecodeError>(e),
{
    let d = match as_dict(v) {
        Some(d) => d,
        None => {
            return Err(DecodeError::InvalidShape);
        },
    };
    let pv = match vget(d, "path".as_bytes()) {
        Some(x) => x,
        None => match vget(d, "Path".as_bytes()) {
            Some(x) => x,
            None => {
                return Err(DecodeError::InvalidShape);
            },
        },
    };
    let segs = match decode_segments(pv) {
        Some(s) => s,
        None => {
            return Err(DecodeError::InvalidShape);
        },
    };
    let lv = match vget(d, "length".as_bytes()) {
        Some(x) => x,
        None => match vget(d, "Size".as_bytes()) {
            Some(x) => x,
            None => {
                return Err(DecodeError::InvalidShape);
            },
        },
    };
    let n = match as_int(lv) {
        Some(n) => n,
        None => {
            return Err(DecodeError::InvalidShape);
        },
    };
    if n < 0 {
        return Err(DecodeError::InvalidShape);
    }
    let extra_fields = match vget(d, "extra_fields".as_bytes()) {
        Some(hv) => match decode_hashes(hv) {
            Ok(h) => Some(h),
            Err(e) => {
                return Err(e);
            },
        },
        None => match vget(d, "Hashes".as_bytes()) {
            Some(hv) => match decode_hashes(hv) {
                Ok(h) => Some(h),
                Err(e) => {
                    return Err(e);
                },
            },
            None => None,
        },
    };
    Ok(File { path: segs, length: n as u64, extra_fields })
}

/// Decodes a list of file records; the first failure fails the whole list.
pub fn decode_files(vs: &Vec<DocValue>) -> (r: Result<Vec<File>, DecodeError>)
    ensures
        r matches Ok(fs) ==> decode_each(list_view(vs@), sfile_fn()) == Ok::<
            Seq<SpecFile>,
            DecodeError,
        >(fs.deep_view()),
        r matches Err(e) ==> decode_each(list_view(vs@), sfile_fn()) == Err::<
            Seq<SpecFile>,
            DecodeError,
        >(e),
{
    let ghost lv = list_view(vs@);
    proof {
        lemma_list_view(vs@);
    }
    let mut out: Vec<File> = Vec::new();
    let mut i: usize = 0;
    while i < vs.len()
        invariant
            i <= vs@.len(),
            lv == list_view(vs@),
            lv.len() == vs@.len(),
            forall|j: int| 0 <= j < vs@.len() ==> lv[j] == crate::value::value_view(vs@[j]),
            out@.len() == i,
            forall|j: int| 0 <= j < i ==> sfile_fn()(lv[j]) == Ok::<SpecFile, DecodeError>(
                out@[j]@,
            ),
        decreases vs@.len() - i,
    {
        match decode_file(&vs[i]) {
            Ok(f) => {
                out.push(f);
            },
            Err(e) => {
                proof {
                    lemma_decode_each_bad(lv, sfile_fn(), i as int);
                }
                return Err(e);
            },
        }
        i = i + 1;
    }
    proof {
        assert(forall|j: int| 0 <= j < out@.len() ==> out.deep_view()[j] == out@[j]@);
        lemma_decode_each_all(lv, sfile_fn(), out.deep_view());
    }
    Ok(out)
}

// ---------------------------------------------------------------------------
// Nodes and announce tiers
// ---------------------------------------------------------------------------

/// The rule for one node entry: a two-element list of host and port.
pub open spec fn snode_of(v: SpecValue) -> Result<SpecNode, DecodeError> {
    match v {
        SpecValue::List(l) => if l.len() == 2 {
            match l[0] {
                SpecValue::Bytes(h) => match l[1] {
                    SpecValue::Int(p) => Ok(SpecNode(h, p as i64)),
                    _ => Err(DecodeError::InvalidShape),
                },
                _ => Err(DecodeError::InvalidShape),
            }
        } else {
            Err(DecodeError::InvalidShape)
        },
        _ => Err(DecodeError::InvalidShape),
    }
}

pub open spec fn snode_fn() -> spec_fn(SpecValue) -> Result<SpecNode, DecodeError> {
    |x: SpecValue| snode_of(x)
}

fn decode_node(v: &DocValue) -> (r: Result<Node, DecodeError>)
    ensures
        r matches Ok(n) ==> snode_of(v@) == Ok::<SpecNode, DecodeError>(n@),
        r matches Err(e) ==> snode_of(v@) == Err::<SpecNode, DecodeError>(e),
{
    let l = match as_list(v) {
        Some(l) => l,
        None => {
            return Err(DecodeError::InvalidShape);
        },
    };
    proof {
        lemma_list_view(l@);
    }
    if l.len() != 2 {
        return Err(DecodeError::InvalidShape);
    }
    let h = match as_bytes(&l[0]) {
        Some(b) => vstd::slice::slice_to_vec(b.as_slice()),
        None => {
            return Err(DecodeError::InvalidShape);
        },
    };
    let p = match as_int(&l[1]) {
        Some(p) => p,
        None => {
            return Err(DecodeError::InvalidShape);
        },
    };
    Ok(Node(h, p))
}

/// The rule for one announce tier: a list of byte strings.
pub open spec fn stier_of(v: SpecValue) -> Result<Seq<Seq<u8>>, DecodeError> {
    match v {
        SpecValue::List(l) => match segs_of_list(l) {
            Some(ss) => Ok(ss),
            None => Err(DecodeError::InvalidShape),
        },
        _ => Err(DecodeError::InvalidShape),
    }
}

pub open spec fn stier_fn() -> spec_fn(SpecValue) -> Result<Seq<Seq<u8>>, DecodeError> {
    |x: SpecValue| stier_of(x)
}

fn decode_tier(v: &DocValue) -> (r: Result<Vec<Vec<u8>>, DecodeError>)
    ensures
        r matches Ok(t) ==> stier_of(v@) == Ok::<Seq<Seq<u8>>, DecodeError>(t.deep_view()),
        r matches Err(e) ==> stier_of(v@) == Err::<Seq<Seq<u8>>, DecodeError>(e),
{
    match as_list(v) {
        None => Err(DecodeError::InvalidShape),
        Some(_) => match decode_segments(v) {
            Some(ss) => Ok(ss),
            None => Err(DecodeError::InvalidShape),
        },
    }
}

/// The rule for the optional `nodes` field.
pub open spec fn snodes_opt(d: Seq<(Seq<u8>, SpecValue)>) -> Result<
    Option<Seq<SpecNode>>,
    DecodeError,
> {
    match dget(d, kb("nodes")) {
        None => Ok(None),
        Some(v) => match v {
            SpecValue::List(l) => match decode_each(l, snode_fn()) {
                Ok(ns) => Ok(Some(ns)),
                Err(e) => Err(e),
            },
            _ => Err(DecodeError::InvalidShape),
        },
    }
}

/// The rule for the optional `announce-list` field.
pub open spec fn salist_opt(d: Seq<(Seq<u8>, SpecValue)>) -> Result<
    Option<Seq<Seq<Seq<u8>>>>,
    DecodeError,
> {
    match dget(d, kb("announce-list")) {
        None => Ok(None),
        Some(v) => match v {
            SpecValue::List(l) => match decode_each(l, stier_fn()) {
                Ok(ts) => Ok(Some(ts)),
                Err(e) => Err(e),
            },
            _ => Err(DecodeError::InvalidShape),
        },
    }
}

fn decode_nodes_opt(d: &Vec<(Vec<u8>, DocValue)>) -> (r: Result<Option<Vec<Node>>, DecodeError>)
    ensures
        r matches Ok(o) ==> snodes_opt(pairs_view(d@)) == Ok::<Option<Seq<SpecNode>>, DecodeError>(
            o.deep_view(),
        ),
        r matches Err(e) ==> snodes_opt(pairs_view(d@)) == Err::<
            Option<Seq<SpecNode>>,
            DecodeError,
        >(e),
{
    let v = match vget(d, "nodes".as_bytes()) {
        None => {
            return Ok(None);
        },
        Some(v) => v,
    };
    let l = match as_list(v) {
        Some(l) => l,
        None => {
            return Err(DecodeError::InvalidShape);
        },
    };
    let ghost lv = list_view(l@);
    proof {
        lemma_list_view(l@);
    }
    let mut out: Vec<Node> = Vec::new();
    let mut i: usize = 0;
    while i < l.len()
        invariant
            i <= l@.len(),
            lv == list_view(l@),
            lv.len() == l@.len(),
            forall|j: int| 0 <= j < l@.len() ==> lv[j] == crate::value::value_view(l@[j]),
            dget(pairs_view(d@), kb("nodes")) == Some(SpecValue::List(lv)),
            out@.len() == i,
            forall|j: int| 0 <= j < i ==> snode_fn()(lv[j]) == Ok::<SpecNode, DecodeError>(
                out@[j]@,
            ),
        decreases l@.len() - i,
    {
        match decode_node(&l[i]) {
            Ok(n) => {
                out.push(n);
            },
            Err(e) => {
                proof {
                    lemma_decode_each_bad(lv, snode_fn(), i as int);
                }
                return Err(e);
            },
        }
        i = i + 1;
    }
    proof {
        assert(forall|j: int| 0 <= j < out@.len() ==> out.deep_view()[j] == out@[j]@);
        lemma_decode_each_all(lv, snode_fn(), out.deep_view());
    }
    Ok(Some(out))
}

fn decode_alist_opt(d: &Vec<(Vec<u8>, DocValue)>) -> (r: Result<
    Option<Vec<Vec<Vec<u8>>>>,
    DecodeError,
>)
    ensures
        r matches Ok(o) ==> salist_opt(pairs_view(d@)) == Ok::<
            Option<Seq<Seq<Seq<u8>>>>,
            DecodeError,
        >(o.deep_view()),
        r matches Err(e) ==> salist_opt(pairs_view(d@)) == Err::<
            Option<Seq<Seq<Seq<u8>>>>,
            DecodeError,
        >(e),
{
    let v = match vget(d, "announce-list".as_bytes()) {
        None => {
            return Ok(None);
        },
        Some(v) => v,
    };
    let l = match as_list(v) {
        Some(l) => l,
        None => {
            return Err(DecodeError::InvalidShape);
        },
    };
    let ghost lv = list_view(l@);
    proof {
        lemma_list_view(l@);
    }
    let mut out: Vec<Vec<Vec<u8>>> = Vec::new();
    let mut i: usize = 0;
    while i < l.len()
        invariant
            i <= l@.len(),
            lv == list_view(l@),
            lv.len() == l@.len(),
            forall|j: int| 0 <= j < l@.len() ==> lv[j] == crate::value::value_view(l@[j]),
            dget(pairs_view(d@), kb("announce-list")) == Some(SpecValue::List(lv)),
            out@.len() == i,
            forall|j: int| 0 <= j < i ==> stier_fn()(lv[j]) == Ok::<Seq<Seq<u8>>, DecodeError>(
                out@[j].deep_view(),
            ),
        decreases l@.len() - i,
    {
        match decode_tier(&l[i]) {
            Ok(t) => {
                out.push(t);
            },
            Err(e) => {
                proof {
                    lemma_decode_each_bad(lv, stier_fn(), i as int);
                }
                return Err(e);
            },
        }
        i = i + 1;
    }
    proof {
        assert(forall|j: int| 0 <= j < out@.len() ==> out.deep_view()[j] == out@[j].deep_view());
        lemma_decode_each_all(lv, stier_fn(), out.deep_view());
    }
    Ok(Some(out))
}

// ---------------------------------------------------------------------------
// The `info` mapping
// ---------------------------------------------------------------------------

/// The shape rule: a `length` integer field selects the single-file shape, a
/// non-empty `files` list selects the multi-file shape; providing neither,
/// both, a negative length or an empty or malformed list is `InvalidShape`.
pub open spec fn sinfo_shape(
    d: Seq<(Seq<u8>, SpecValue)>,
    name: Seq<u8>,
    pieces: Seq<u8>,
    piece_length: u64,
) -> Result<SpecInfo, DecodeError> {
    match (dget(d, kb("length")), dget(d, kb("files"))) {
        (Some(lv), None) => match lv {
            SpecValue::Int(n) => if n < 0 {
                Err(DecodeError::InvalidShape)
            } else {
                sinfo_opt(d, name, pieces, piece_length, Some(n as u64), Seq::empty())
            },
            _ => Err(DecodeError::InvalidShape),
        },
        (None, Some(fv)) => match fv {
            SpecValue::List(vs) => if vs.len() == 0 {
                Err(DecodeError::InvalidShape)
            } else {
                match decode_each(vs, sfile_fn()) {
                    Ok(fs) => sinfo_opt(d, name, pieces, piece_length, None, fs),
                    Err(e) => Err(e),
                }
            },
            _ => Err(DecodeError::InvalidShape),
        },
        (Some(_), Some(_)) => Err(DecodeError::InvalidShape),
        (None, None) => Err(DecodeError::InvalidShape),
    }
}

/// The optional fields of the `info` mapping; unknown keys are ignored.
pub open spec fn sinfo_opt(
    d: Seq<(Seq<u8>, SpecValue)>,
    name: Seq<u8>,
    pieces: Seq<u8>,
    piece_length: u64,
    length: Option<u64>,
    files: Seq<SpecFile>,
) -> Result<SpecInfo, DecodeError> {
    match sbytes_opt(d, kb("md5sum")) {
        Err(e) => Err(e),
        Ok(md5sum) => match sint_opt(d, kb("private")) {
            Err(e) => Err(e),
            Ok(private) => match ssegs_list_opt(d, kb("path")) {
                Err(e) => Err(e),
                Ok(path) => match sbytes_opt(d, kb("root hash")) {
                    Err(e) => Err(e),
                    Ok(root_hash) => Ok(
                        SpecInfo {
                            name,
                            pieces,
                            piece_length,
                            md5sum,
                            length,
                            files,
                            private,
                            path,
                            root_hash,
                        },
                    ),
                },
            },
        },
    }
}

/// The rule for the `info` mapping: `name`, `pieces` and `piece length` are
/// required (`MissingField` when absent), the piece length must be positive,
/// and exactly one of the two file shapes must be selected.
pub open spec fn sinfo_of(v: SpecValue) -> Result<SpecInfo, DecodeError> {
    match v {
        SpecValue::Dict(d) => match dget(d, kb("name")) {
            None => Err(DecodeError::MissingField),
            Some(nv) => match nv {
                SpecValue::Bytes(name) => match dget(d, kb("pieces")) {
                    None => Err(DecodeError::MissingField),
                    Some(pv) => match pv {
                        SpecValue::Bytes(pieces) => match dget(d, kb("piece length")) {
                            None => Err(DecodeError::MissingField),
                            Some(plv) => match plv {
                                SpecValue::Int(pl) => if pl < 1 {
                                    Err(DecodeError::InvalidShape)
                                } else {
                                    sinfo_shape(d, name, pieces, pl as u64)
                                },
                                _ => Err(DecodeError::InvalidShape),
                            },
                        },
                        _ => Err(DecodeError::InvalidShape),
                    },
                },
                _ => Err(DecodeError::InvalidShape),
            },
        },
        _ => Err(DecodeError::InvalidShape),
    }
}

#[verifier::rlimit(50)]
fn decode_info(v: &DocValue) -> (r: Result<Info, DecodeError>)
    ensures
        r matches Ok(i) ==> sinfo_of(v@) == Ok::<SpecInfo, DecodeError>(i@),
        r matches Err(e) ==> sinfo_of(v@) == Err::<SpecInfo, DecodeError>(e),
{
    let d = match as_dict(v) {
        Some(d) => d,
        None => {
            return Err(DecodeError::InvalidShape);
        },
    };
    let name = match vget(d, "name".as_bytes()) {
        None => {
            return Err(DecodeError::MissingField);
        },
        Some(nv) => match as_bytes(nv) {
            Some(b) => vstd::slice::slice_to_vec(b.as_slice()),
            None => {
                return Err(DecodeError::InvalidShape);
            },
        },
    };
    let pieces = match vget(d, "pieces".as_bytes()) {
        None => {
            return Err(DecodeError::MissingField);
        },
        Some(pv) => match as_bytes(pv) {
            Some(b) => vstd::slice::slice_to_vec(b.as_slice()),
            None => {
                return Err(DecodeError::InvalidShape);
            },
        },
    };
    let piece_length = match vget(d, "piece length".as_bytes()) {
        None => {
            return Err(DecodeError::MissingField);
        },
        Some(plv) => match as_int(plv) {
            Some(pl) => {
                if pl < 1 {
                    return Err(DecodeError::InvalidShape);
                }
                pl as u64
            },
            None => {
                return Err(DecodeError::InvalidShape);
            },
        },
    };
    let (length, files) = match (vget(d, "length".as_bytes()), vget(d, "files".as_bytes())) {
        (Some(lv), None) => match as_int(lv) {
            Some(n) => {
                if n < 0 {
                    return Err(DecodeError::InvalidShape);
                }
                let no_files: Vec<File> = Vec::new();
                proof {
                    assert(no_files.deep_view() =~= Seq::<SpecFile>::empty());
                }
                (Some(n as u64), no_files)
            },
            None => {
                return Err(DecodeError::InvalidShape);
            },
        },
        (None, Some(fv)) => match as_list(fv) {
            Some(l) => {
                if l.len() == 0 {
                    return Err(DecodeError::InvalidShape);
                }
                match decode_files(l) {
                    Ok(fs) => (None, fs),
                    Err(e) => {
                        return Err(e);
                    },
                }
            },
            None => {
                return Err(DecodeError::InvalidShape);
            },
        },
        (Some(_), Some(_)) => {
            return Err(DecodeError::InvalidShape);
        },
        (None, None) => {
            return Err(DecodeError::InvalidShape);
        },
    };
    let md5sum = match get_bytes_opt(d, "md5sum") {
        Ok(o) => o,
        Err(e) => {
            return Err(e);
        },
    };
    let private = match get_int_opt(d, "private") {
        Ok(o) => o,
        Err(e) => {
            return Err(e);
        },
    };
    let path = match get_segs_list_opt(d, "path") {
        Ok(o) => o,
        Err(e) => {
            return Err(e);
        },
    };
    let root_hash = match get_bytes_opt(d, "root hash") {
        Ok(o) => o,
        Err(e) => {
            return Err(e);
        },
    };
    Ok(Info { name, pieces, piece_length, md5sum, length, files, private, path, root_hash })
}

// ---------------------------------------------------------------------------
// The whole document
// ---------------------------------------------------------------------------

/// The optional top-level fields; unknown keys are ignored.
pub open spec fn storrent_opt(
    d: Seq<(Seq<u8>, SpecValue)>,
    info: SpecInfo,
    src: Seq<Seq<char>>,
) -> Result<SpecTorrent, DecodeError> {
    match sbytes_opt(d, kb("announce")) {
        Err(e) => Err(e),
        Ok(announce) => match snodes_opt(d) {
            Err(e) => Err(e),
            Ok(nodes) => match sbytes_opt(d, kb("encoding")) {
                Err(e) => Err(e),
                Ok(encoding) => match ssegs_list_opt(d, kb("httpseeds")) {
                    Err(e) => Err(e),
                    Ok(httpseeds) => match salist_opt(d) {
                        Err(e) => Err(e),
                        Ok(announce_list) => match sint_opt(d, kb("creation date")) {
                            Err(e) => Err(e),
                            Ok(creation_date) => match sbytes_opt(d, kb("comment")) {
                                Err(e) => Err(e),
                                Ok(comment) => match sbytes_opt(d, kb("created by")) {
                                    Err(e) => Err(e),
                                    Ok(created_by) => Ok(
                                        SpecTorrent {
                                            info,
                                            announce,
                                            nodes,
                                            encoding,
                                            httpseeds,
                                            announce_list,
                                            creation_date,
                                            comment,
                                            created_by,
                                            path: src,
                                        },
                                    ),
                                },
                            },
                        },
                    },
                },
            },
        },
    }
}

/// The rule for a whole torrent document: a keyed map whose required `info`
/// entry decodes as the `info` rule says, with the optional fields preserved.
pub open spec fn storrent_of(v: SpecValue, src: Seq<Seq<char>>) -> Result<
    SpecTorrent,
    DecodeError,
> {
    match v {
        SpecValue::Dict(d) => match dget(d, kb("info")) {
            None => Err(DecodeError::MissingField),
            Some(iv) => match sinfo_of(iv) {
                Err(e) => Err(e),
                Ok(info) => storrent_opt(d, info, src),
            },
        },
        _ => Err(DecodeError::InvalidShape),
    }
}

/// What decoding a torrent byte buffer yields, for every buffer and source
/// identifier.
pub open spec fn spec_parse_torrent(s: Seq<u8>, src: Seq<Seq<char>>) -> Result<
    SpecTorrent,
    DecodeError,
> {
    match parse_doc(s) {
        None => Err(DecodeError::MalformedBytes),
        Some(v) => storrent_of(v, src),
    }
}

/// A decoded document holds exactly one of the two shapes: a single-file
/// length with no file list, or a non-empty file list and no such length.
pub open spec fn torrent_wf(t: SpecTorrent) -> bool {
    t.info.length is Some <==> t.info.files.len() == 0
}

pub proof fn lemma_sinfo_wf(v: SpecValue)
    ensures
        sinfo_of(v) matches Ok(i) ==> (i.length is Some <==> i.files.len() == 0),
{
    match v {
        SpecValue::Dict(d) => match dget(d, kb("files")) {
            Some(fv) => match fv {
                SpecValue::List(vs) => {
                    lemma_decode_each_ok_len(vs, sfile_fn());
                },
                _ => {},
            },
            None => {},
        },
        _ => {},
    }
}

/// Law: every document the decoder accepts is well formed; the engine never
/// sees both a single-file length and a non-empty file list.
pub proof fn lemma_storrent_wf(v: SpecValue, src: Seq<Seq<char>>)
    ensures
        storrent_of(v, src) matches Ok(t) ==> torrent_wf(t),
{
    match v {
        SpecValue::Dict(d) => match dget(d, kb("info")) {
            Some(iv) => {
                lemma_sinfo_wf(iv);
            },
            None => {},
        },
        _ => {},
    }
}

/// Law: decoding is a function of the byte buffer and the source identifier
/// alone, so decoding the same buffer twice yields structurally equal
/// results.
pub proof fn lemma_decode_deterministic(
    s: Seq<u8>,
    src: Seq<Seq<char>>,
    r1: Result<SpecTorrent, DecodeError>,
    r2: Result<SpecTorrent, DecodeError>,
)
    requires
        r1 == spec_parse_torrent(s, src),
        r2 == spec_parse_torrent(s, src),
    ensures
        r1 == r2,
{
}

#[verifier::rlimit(50)]
fn decode_torrent(v: &DocValue, source: String) -> (r: Result<Torrent, DecodeError>)
    ensures
        r matches Ok(t) ==> storrent_of(v@, seq![source@]) == Ok::<SpecTorrent, DecodeError>(t@),
        r matches Err(e) ==> storrent_of(v@, seq![source@]) == Err::<SpecTorrent, DecodeError>(e),
{
    let d = match as_dict(v) {
        Some(d) => d,
        None => {
            return Err(DecodeError::InvalidShape);
        },
    };
    let info = match vget(d, "info".as_bytes()) {
        None => {
            return Err(DecodeError::MissingField);
        },
        Some(iv) => match decode_info(iv) {
            Ok(i) => i,
            Err(e) => {
                return Err(e);
            },
        },
    };
    let announce = match get_bytes_opt(d, "announce") {
        Ok(o) => o,
        Err(e) => {
            return Err(e);
        },
    };
    let nodes = match decode_nodes_opt(d) {
        Ok(o) => o,
        Err(e) => {
            return Err(e);
        },
    };
    let encoding = match get_bytes_opt(d, "encoding") {
        Ok(o) => o,
        Err(e) => {
            return Err(e);
        },
    };
    let httpseeds = match get_segs_list_opt(d, "httpseeds") {
        Ok(o) => o,
        Err(e) => {
            return Err(e);
        },
    };
    let announce_list = match decode_alist_opt(d) {
        Ok(o) => o,
        Err(e) => {
            return Err(e);
        },
    };
    let creation_date = match get_int_opt(d, "creation date") {
        Ok(o) => o,
        Err(e) => {
            return Err(e);
        },
    };
    let comment = match get_bytes_opt(d, "comment") {
        Ok(o) => o,
        Err(e) => {
            return Err(e);
        },
    };
    let created_by = match get_bytes_opt(d, "created by") {
        Ok(o) => o,
        Err(e) => {
            return Err(e);
        },
    };
    let mut path: Vec<String> = Vec::new();
    path.push(source);
    proof {
        assert(path.deep_view() =~= seq![path@[0]@]);
    }
    Ok(
        Torrent {
            info,
            announce,
            nodes,
            encoding,
            httpseeds,
            announce_list,
            creation_date,
            comment,
            created_by,
            path,
        },
    )
}

/// Decodes one torrent metadata document from its raw bytes, carrying
/// `source` through as the identifier of where the document came from.
///
/// Decoding is a function of the byte buffer alone, so decoding the same
/// buffer twice yields structurally equal results, and every document it
/// accepts is well formed (`torrent_wf`).
pub fn parse_torrent(bytes: &[u8], source: String) -> (r: Result<Torrent, DecodeError>)
    ensures
        r matches Ok(t) ==> spec_parse_torrent(bytes@, seq![source@]) == Ok::<
            SpecTorrent,
            DecodeError,
        >(t@),
        r matches Err(e) ==> spec_parse_torrent(bytes@, seq![source@]) == Err::<
            SpecTorrent,
            DecodeError,
        >(e),
        r matches Ok(t) ==> torrent_wf(t@),
{
    let v = match parse_bencode(bytes) {
        Ok(v) => v,
        Err(e) => {
            return Err(e);
        },
    };
    proof {
        lemma_storrent_wf(v@, seq![source@]);
    }
    decode_torrent(&v, source)
}

} // verus!
