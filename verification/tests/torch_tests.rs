use torch::manifest::parse_json;
use torch::reconcile::{checks, canonical_path, join_segments, Report, Verdict};
use torch::torrent::{parse_torrent, File, Torrent, Hashes};
use torch::value::DecodeError;

fn seg(s: &str) -> Vec<u8> {
    s.as_bytes().to_vec()
}

fn tor(bytes: &[u8]) -> Torrent {
    parse_torrent(bytes, "t.torrent".to_string()).expect("torrent should decode")
}

fn mf(segs: &[&str], length: u64) -> File {
    File { path: segs.iter().map(|s| seg(s)).collect(), length, extra_fields: None }
}

const SINGLE_ROOT_10: &[u8] =
    b"d4:infod6:lengthi10e4:name4:root12:piece lengthi16384e6:pieces2:aaee";
const MULTI_ROOT_SUB_FBIN_5: &[u8] =
    b"d4:infod5:filesld6:lengthi5e4:pathl3:sub5:f.bineee4:name4:root12:piece lengthi16384e6:pieces2:aaee";

// ---- string-or-list path decoding (shared rule) ----

#[test]
fn string_path_equals_single_element_list_path() {
    let a = tor(b"d4:infod5:filesld6:lengthi5e4:path3:fooee4:name1:r12:piece lengthi1e6:pieces2:aaee");
    let b = tor(b"d4:infod5:filesld6:lengthi5e4:pathl3:fooeee4:name1:r12:piece lengthi1e6:pieces2:aaee");
    assert_eq!(a.info.files[0].path, vec![seg("foo")]);
    assert_eq!(a.info.files[0].path, b.info.files[0].path);
}

#[test]
fn string_path_equals_list_path_in_manifest() {
    let a = parse_json("[{\"path\": \"a\", \"length\": 1}]".to_string()).unwrap();
    let b = parse_json("[{\"path\": [\"a\"], \"length\": 1}]".to_string()).unwrap();
    assert_eq!(a, b);
    assert_eq!(a[0].path, vec![seg("a")]);
}

// ---- decoding is a function of the buffer alone ----

#[test]
fn decoding_twice_yields_equal_metadata() {
    let a = tor(MULTI_ROOT_SUB_FBIN_5);
    let b = tor(MULTI_ROOT_SUB_FBIN_5);
    assert_eq!(a, b);
    let c = tor(SINGLE_ROOT_10);
    let d = tor(SINGLE_ROOT_10);
    assert_eq!(c, d);
}

// ---- exactly one of the two shapes ----

#[test]
fn single_file_shape_sets_length_and_no_files() {
    let t = tor(SINGLE_ROOT_10);
    assert_eq!(t.info.length, Some(10));
    assert!(t.info.files.is_empty());
}

#[test]
fn multi_file_shape_sets_files_and_no_length() {
    let t = tor(MULTI_ROOT_SUB_FBIN_5);
    assert_eq!(t.info.length, None);
    assert_eq!(t.info.files.len(), 1);
    assert_eq!(t.info.files[0].path, vec![seg("sub"), seg("f.bin")]);
    assert_eq!(t.info.files[0].length, 5);
}

#[test]
fn both_shapes_at_once_is_invalid() {
    let r = parse_torrent(
        b"d4:infod5:filesld6:lengthi5e4:path1:aee6:lengthi10e4:name1:r12:piece lengthi1e6:pieces2:aaee",
        "x".to_string(),
    );
    assert_eq!(r.unwrap_err(), DecodeError::InvalidShape);
}

#[test]
fn neither_shape_is_invalid() {
    let r = parse_torrent(
        b"d4:infod4:name1:r12:piece lengthi1e6:pieces2:aaee",
        "x".to_string(),
    );
    assert_eq!(r.unwrap_err(), DecodeError::InvalidShape);
}

#[test]
fn empty_files_list_is_invalid() {
    let r = parse_torrent(
        b"d4:infod5:filesle4:name1:r12:piece lengthi1e6:pieces2:aaee",
        "x".to_string(),
    );
    assert_eq!(r.unwrap_err(), DecodeError::InvalidShape);
}

// ---- decode errors ----

#[test]
fn missing_name_is_missing_field() {
    let r = parse_torrent(
        b"d4:infod6:lengthi1e12:piece lengthi1e6:pieces2:aaee",
        "x".to_string(),
    );
    assert_eq!(r.unwrap_err(), DecodeError::MissingField);
}

#[test]
fn missing_info_is_missing_field() {
    assert_eq!(parse_torrent(b"de", "x".to_string()).unwrap_err(), DecodeError::MissingField);
}

#[test]
fn top_level_non_map_is_invalid_shape() {
    assert_eq!(parse_torrent(b"i5e", "x".to_string()).unwrap_err(), DecodeError::InvalidShape);
}

#[test]
fn syntax_error_is_malformed_bytes() {
    assert_eq!(parse_torrent(b"xx", "x".to_string()).unwrap_err(), DecodeError::MalformedBytes);
    assert_eq!(parse_torrent(b"", "x".to_string()).unwrap_err(), DecodeError::MalformedBytes);
    assert_eq!(parse_torrent(b"d4:info", "x".to_string()).unwrap_err(), DecodeError::MalformedBytes);
}

#[test]
fn trailing_bytes_are_malformed() {
    assert_eq!(parse_torrent(b"dee", "x".to_string()).unwrap_err(), DecodeError::MalformedBytes);
}

#[test]
fn integer_out_of_range_is_malformed() {
    assert_eq!(
        parse_torrent(b"i99999999999999999999e", "x".to_string()).unwrap_err(),
        DecodeError::MalformedBytes
    );
}

#[test]
fn negative_zero_integer_decodes_as_zero() {
    let t = tor(b"d13:creation datei-0e4:infod6:lengthi1e4:name1:r12:piece lengthi1e6:pieces2:aaee");
    assert_eq!(t.creation_date, Some(0));
}

#[test]
fn wrong_field_kinds_are_invalid_shape() {
    // `length` that is not an integer
    let r = parse_torrent(
        b"d4:infod6:length2:aa4:name1:r12:piece lengthi1e6:pieces2:aaee",
        "x".to_string(),
    );
    assert_eq!(r.unwrap_err(), DecodeError::InvalidShape);
    // `files` that is not a list
    let r = parse_torrent(
        b"d4:infod5:filesi1e4:name1:r12:piece lengthi1e6:pieces2:aaee",
        "x".to_string(),
    );
    assert_eq!(r.unwrap_err(), DecodeError::InvalidShape);
}

#[test]
fn file_record_missing_a_field_is_invalid_shape() {
    // The shared record rule treats an absent path or length as a malformed
    // record, in torrent file lists just as in manifests.
    let r = parse_torrent(
        b"d4:infod5:filesld4:path1:aee4:name1:r12:piece lengthi1e6:pieces2:aaee",
        "x".to_string(),
    );
    assert_eq!(r.unwrap_err(), DecodeError::InvalidShape);
    let r = parse_torrent(
        b"d4:infod5:filesld6:lengthi5eee4:name1:r12:piece lengthi1e6:pieces2:aaee",
        "x".to_string(),
    );
    assert_eq!(r.unwrap_err(), DecodeError::InvalidShape);
}

#[test]
fn zero_piece_length_is_invalid() {
    let r = parse_torrent(
        b"d4:infod6:lengthi1e4:name1:r12:piece lengthi0e6:pieces2:aaee",
        "x".to_string(),
    );
    assert_eq!(r.unwrap_err(), DecodeError::InvalidShape);
}

#[test]
fn negative_file_length_is_invalid() {
    let r = parse_torrent(
        b"d4:infod5:filesld6:lengthi-5e4:path1:aee4:name1:r12:piece lengthi1e6:pieces2:aaee",
        "x".to_string(),
    );
    assert_eq!(r.unwrap_err(), DecodeError::InvalidShape);
}

// ---- tolerance and preserved extension fields ----

#[test]
fn unknown_keys_are_ignored() {
    let t = tor(b"d5:bogusi1e4:infod6:lengthi10e4:name4:root7:unknown2:zz12:piece lengthi16384e6:pieces2:aaee");
    assert_eq!(t.info.length, Some(10));
    assert_eq!(t.info.name, seg("root"));
}

#[test]
fn extension_fields_are_preserved() {
    let t = tor(b"d8:announce9:localhost7:comment4:note10:created by2:me13:creation datei-7e8:encoding5:UTF-84:infod6:lengthi10e4:name4:root12:piece lengthi16384e6:pieces2:aa7:privatei1eee");
    assert_eq!(t.announce, Some(seg("localhost")));
    assert_eq!(t.comment, Some(seg("note")));
    assert_eq!(t.created_by, Some(seg("me")));
    assert_eq!(t.creation_date, Some(-7));
    assert_eq!(t.encoding, Some(seg("UTF-8")));
    assert_eq!(t.info.private, Some(1));
}

#[test]
fn announce_list_and_nodes_decode() {
    let t = tor(b"d13:announce-listll3:urlel3:twoee5:nodesll4:hosti6881eee4:infod6:lengthi1e4:name1:r12:piece lengthi1e6:pieces2:aaee");
    let al = t.announce_list.unwrap();
    assert_eq!(al, vec![vec![seg("url")], vec![seg("two")]]);
    let nodes = t.nodes.unwrap();
    assert_eq!(nodes.len(), 1);
    assert_eq!(nodes[0].0, seg("host"));
    assert_eq!(nodes[0].1, 6881);
}

#[test]
fn torrent_file_records_accept_aliased_keys() {
    // The same record decoder serves both formats, so `Path`, `Size` and
    // `Hashes` are accepted inside a torrent's file list too.
    let t = tor(b"d4:infod5:filesld6:Hashesd4:sha12:abe4:Path1:a4:Sizei7eee4:name1:r12:piece lengthi1e6:pieces2:aaee");
    assert_eq!(t.info.files[0].path, vec![seg("a")]);
    assert_eq!(t.info.files[0].length, 7);
    assert_eq!(t.info.files[0].extra_fields.as_ref().unwrap().sha1, Some(seg("ab")));
}

#[test]
fn info_optional_fields_are_preserved() {
    let t = tor(b"d4:infod6:lengthi1e6:md5sum2:mm4:name1:r4:pathl1:a1:be12:piece lengthi1e6:pieces2:aa9:root hash2:rhee");
    assert_eq!(t.info.md5sum, Some(seg("mm")));
    assert_eq!(t.info.root_hash, Some(seg("rh")));
    assert_eq!(t.info.path, Some(vec![seg("a"), seg("b")]));
}

#[test]
fn httpseeds_are_preserved() {
    let t = tor(b"d4:infod6:lengthi1e4:name1:r12:piece lengthi1e6:pieces2:aae9:httpseedsl3:one3:twoee");
    assert_eq!(t.httpseeds, Some(vec![seg("one"), seg("two")]));
}

#[test]
fn pieces_are_raw_bytes_not_text() {
    let t = tor(b"d4:infod6:lengthi1e4:name1:r12:piece lengthi1e6:pieces4:\xff\xfe\x00\x01ee");
    assert_eq!(t.info.pieces, vec![0xff, 0xfe, 0x00, 0x01]);
}

#[test]
fn source_identifier_is_carried_through() {
    let t = parse_torrent(SINGLE_ROOT_10, "a/b.torrent".to_string()).unwrap();
    assert_eq!(t.path, vec!["a/b.torrent".to_string()]);
}

// ---- manifest decoding ----

#[test]
fn manifest_decodes_records_in_order() {
    let fs = parse_json(
        "[{\"path\": [\"root\", \"a.txt\"], \"length\": 10}, {\"path\": \"b\", \"length\": 0}]"
            .to_string(),
    )
    .unwrap();
    assert_eq!(fs.len(), 2);
    assert_eq!(fs[0], mf(&["root", "a.txt"], 10));
    assert_eq!(fs[1], mf(&["b"], 0));
}

#[test]
fn manifest_accepts_aliased_keys() {
    let fs = parse_json("[{\"Path\": \"x\", \"Size\": 3}]".to_string()).unwrap();
    assert_eq!(fs, vec![mf(&["x"], 3)]);
}

#[test]
fn manifest_hashes_are_preserved() {
    let fs = parse_json(
        "[{\"path\": \"x\", \"length\": 1, \"Hashes\": {\"sha1\": \"ab\", \"md5\": \"cd\"}}]"
            .to_string(),
    )
    .unwrap();
    let h = fs[0].extra_fields.as_ref().unwrap();
    assert_eq!(
        *h,
        Hashes {
            sha1: Some(seg("ab")),
            md5sum: Some(seg("cd")),
            crc32: None,
            sha256: None,
            whirlpool: None,
        }
    );
}

#[test]
fn manifest_syntax_error_is_malformed() {
    assert_eq!(parse_json("[{".to_string()).unwrap_err(), DecodeError::MalformedBytes);
}

#[test]
fn manifest_non_list_is_invalid_shape() {
    assert_eq!(parse_json("{}".to_string()).unwrap_err(), DecodeError::InvalidShape);
}

#[test]
fn manifest_decode_is_atomic() {
    // One malformed record fails the whole decode with InvalidShape: a
    // record lacking its length, one whose path has the wrong kind, and one
    // with a negative length alike.
    let r = parse_json(
        "[{\"path\": \"good\", \"length\": 1}, {\"path\": \"bad\"}]".to_string(),
    );
    assert_eq!(r.unwrap_err(), DecodeError::InvalidShape);
    let wrong_kind = parse_json("[{\"path\": 3, \"length\": 1}]".to_string());
    assert_eq!(wrong_kind.unwrap_err(), DecodeError::InvalidShape);
    let neg = parse_json("[{\"path\": \"p\", \"length\": -1}]".to_string());
    assert_eq!(neg.unwrap_err(), DecodeError::InvalidShape);
}

// ---- path normalization ----

#[test]
fn canonical_path_prepends_root_name() {
    let t = tor(MULTI_ROOT_SUB_FBIN_5);
    let full = canonical_path(&t, &t.info.files[0]);
    assert_eq!(full, vec![seg("root"), seg("sub"), seg("f.bin")]);
    assert_eq!(join_segments(&full), seg("root/sub/f.bin"));
}

// ---- reconciliation ----

#[test]
fn single_file_torrent_keys_on_root_name_alone() {
    let manifest = vec![mf(&["root", "a.txt"], 10)];
    let reports = checks(manifest, vec![tor(SINGLE_ROOT_10)]);
    assert_eq!(reports.len(), 1);
    assert_eq!(reports[0].verdicts, vec![Verdict::NotFound { path: vec![seg("root")] }]);

    let manifest = vec![mf(&["root"], 10)];
    let reports = checks(manifest, vec![tor(SINGLE_ROOT_10)]);
    assert_eq!(
        reports[0].verdicts,
        vec![Verdict::Match { path: vec![seg("root")], length: 10 }]
    );
}

#[test]
fn multi_file_match() {
    let manifest = vec![mf(&["root", "sub", "f.bin"], 5)];
    let reports = checks(manifest, vec![tor(MULTI_ROOT_SUB_FBIN_5)]);
    assert_eq!(
        reports[0].verdicts,
        vec![Verdict::Match { path: vec![seg("root"), seg("sub"), seg("f.bin")], length: 5 }]
    );
}

#[test]
fn multi_file_size_mismatch() {
    let manifest = vec![mf(&["root", "sub", "f.bin"], 6)];
    let reports = checks(manifest, vec![tor(MULTI_ROOT_SUB_FBIN_5)]);
    assert_eq!(
        reports[0].verdicts,
        vec![Verdict::SizeMismatch {
            path: vec![seg("root"), seg("sub"), seg("f.bin")],
            expected: 5,
            actual: 6,
        }]
    );
}

#[test]
fn multi_file_not_found() {
    let manifest = vec![mf(&["elsewhere"], 5)];
    let reports = checks(manifest, vec![tor(MULTI_ROOT_SUB_FBIN_5)]);
    assert_eq!(
        reports[0].verdicts,
        vec![Verdict::NotFound { path: vec![seg("root"), seg("sub"), seg("f.bin")] }]
    );
}

#[test]
fn duplicate_manifest_paths_last_wins() {
    let manifest = vec![mf(&["p"], 1), mf(&["p"], 2)];
    let single_p_2 = b"d4:infod6:lengthi2e4:name1:p12:piece lengthi1e6:pieces2:aaee";
    let reports = checks(manifest, vec![tor(single_p_2)]);
    assert_eq!(
        reports[0].verdicts,
        vec![Verdict::Match { path: vec![seg("p")], length: 2 }]
    );

    let manifest = vec![mf(&["p"], 1), mf(&["p"], 2)];
    let single_p_1 = b"d4:infod6:lengthi1e4:name1:p12:piece lengthi1e6:pieces2:aaee";
    let reports = checks(manifest, vec![tor(single_p_1)]);
    assert_eq!(
        reports[0].verdicts,
        vec![Verdict::SizeMismatch { path: vec![seg("p")], expected: 1, actual: 2 }]
    );
}

#[test]
fn one_report_per_torrent_in_order() {
    let manifest = vec![mf(&["root", "sub", "f.bin"], 5), mf(&["root"], 10)];
    let reports = checks(
        manifest,
        vec![tor(SINGLE_ROOT_10), tor(MULTI_ROOT_SUB_FBIN_5)],
    );
    assert_eq!(reports.len(), 2);
    assert_eq!(
        reports[0],
        Report {
            path: vec!["t.torrent".to_string()],
            verdicts: vec![Verdict::Match { path: vec![seg("root")], length: 10 }],
        }
    );
    assert_eq!(
        reports[1].verdicts,
        vec![Verdict::Match { path: vec![seg("root"), seg("sub"), seg("f.bin")], length: 5 }]
    );
}

#[test]
fn verdicts_follow_declaration_order() {
    let two = b"d4:infod5:filesld6:lengthi1e4:path1:aed6:lengthi2e4:path1:bee4:name1:r12:piece lengthi1e6:pieces2:aaee";
    let manifest = vec![mf(&["r", "b"], 2)];
    let reports = checks(manifest, vec![tor(two)]);
    assert_eq!(
        reports[0].verdicts,
        vec![
            Verdict::NotFound { path: vec![seg("r"), seg("a")] },
            Verdict::Match { path: vec![seg("r"), seg("b")], length: 2 },
        ]
    );
}
