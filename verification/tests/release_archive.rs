//! Release archives: real gzip and tar bytes, judged entry by entry.

use std::io::{Cursor, Read};

use flate2::write::GzEncoder;
use flate2::Compression;
use tar::{Archive, Builder, EntryType, Header};
use vexa_vm::archive::{
    begin_verification, check_archive_file, decide_directory, destination_is_normalized,
    drain_and_validate_gzip,
    ensure_parent_directories, ensure_release_directory, file_mode, is_executable_payload,
    is_required_file, parse_version_file, required_file, validate_archive_path,
    validate_destination, validate_expected_archive, verify_open_archive, ArchiveError,
    DestinationFacts, DirectoryDecision, FileCopy, REQUIRED_FILE_COUNT,
};
use vexa_vm::digest::{is_sha256_hex, lowercase_hex, StreamDigest};
use vexa_vm::extraction::{
    check_gzip_end, finalization_order, finalize_directory_permissions, ArchiveEntry, EntryKind,
    ExtractedRelease, Extraction, ExtractionError, PartialExtraction,
};
use vexa_vm::semver::{normalized_release_name, validate_semver};

const EMPTY_SHA256: &str = "e3b0c44298fc1c149afbf4c8996fb92427ae41e4649b934ca495991b7852b855";

fn append_file(builder: &mut Builder<GzEncoder<Vec<u8>>>, path: &str, bytes: &[u8]) {
    let mut header = Header::new_gnu();
    header.set_entry_type(EntryType::Regular);
    header.set_mode(0o777);
    header.set_size(bytes.len() as u64);
    header.set_cksum();
    builder.append_data(&mut header, path, bytes).unwrap();
}

fn archive_with(
    mut extra: impl FnMut(&mut Builder<GzEncoder<Vec<u8>>>),
    version: &[u8],
) -> Vec<u8> {
    let mut builder = Builder::new(GzEncoder::new(Vec::new(), Compression::default()));
    append_file(&mut builder, "bin/vexa-vm", b"server");
    append_file(&mut builder, "bin/vexa-update-helper", b"helper");
    append_file(&mut builder, "VERSION", version);
    for i in 0..31 {
        let path = required_file(i);
        if matches!(path, "bin/vexa-vm" | "bin/vexa-update-helper" | "VERSION") {
            continue;
        }
        append_file(&mut builder, path, b"required release payload");
    }
    extra(&mut builder);
    builder.into_inner().unwrap().finish().unwrap()
}

fn sha256_of(bytes: &[u8]) -> String {
    StreamDigest::new(u64::MAX).feed(bytes).unwrap().finish()
}

/// A file of an extracted release.
struct Written {
    path: String,
    bytes: Vec<u8>,
    mode: u32,
}

/// What an extraction left behind.
struct Outcome {
    result: Result<ExtractedRelease, ExtractionError>,
    files: Vec<Written>,
    directories: Vec<(String, u32)>,
    removed: bool,
}

fn refused(error: ArchiveError) -> Outcome {
    Outcome { result: Err(ExtractionError::Archive(error)), files: vec![], directories: vec![], removed: true }
}

fn unpack(
    bytes: &[u8],
    extraction: &mut Extraction,
    files: &mut Vec<Written>,
) -> Result<(), ExtractionError> {
    let mut archive = Archive::new(flate2::bufread::GzDecoder::new(Cursor::new(bytes)));
    for entry in archive.entries().unwrap() {
        let mut entry = entry.unwrap();
        let kind = match entry.header().entry_type() {
            EntryType::Regular => EntryKind::File,
            EntryType::Directory => EntryKind::Directory,
            _ => EntryKind::Other,
        };
        let facts = ArchiveEntry {
            readable: true,
            kind,
            path: entry.path_bytes().to_vec(),
            size: entry.header().entry_size().ok(),
        };
        let plan = extraction.judge(&facts)?;
        if plan.is_directory {
            continue;
        }
        let mut copy = FileCopy::begin(plan.size, plan.capture);
        let mut written = Vec::new();
        while copy.wanted() > 0 {
            let mut chunk = vec![0; copy.wanted()];
            let n = entry.read(&mut chunk).unwrap();
            copy.accept(&chunk[..n]).map_err(ExtractionError::Archive)?;
            written.extend_from_slice(&chunk[..n]);
        }
        let mut rest = Vec::new();
        entry.read_to_end(&mut rest).unwrap();
        let captured = copy.finish(rest.len()).map_err(ExtractionError::Archive)?;
        files.push(Written {
            path: plan.path.clone(),
            bytes: written,
            mode: file_mode(plan.executable),
        });
        extraction.record(&plan, captured);
    }
    Ok(())
}

fn extract_release(bytes: &[u8], expected_size: u64, expected_sha256: &str) -> Outcome {
    if let Err(error) = validate_expected_archive(expected_size, expected_sha256) {
        return refused(error);
    }
    let stream = match begin_verification(true, bytes.len() as u64, expected_size) {
        Err(error) => return refused(error),
        Ok(stream) => stream,
    };
    let stream = stream.feed(bytes).unwrap();
    let magic = bytes[..3].to_vec();
    if let Err(error) = verify_open_archive(stream, expected_size, expected_sha256, &magic) {
        return refused(error);
    }
    let mut partial = PartialExtraction::new("/srv/partial-release".to_owned());
    let mut extraction = Extraction::begin();
    let mut files = Vec::new();
    if let Err(error) = unpack(bytes, &mut extraction, &mut files) {
        return Outcome {
            result: Err(error),
            files,
            directories: vec![],
            removed: partial.must_remove(),
        };
    }
    let directories = finalization_order(&extraction.directories)
        .into_iter()
        .map(|path| (path, finalize_directory_permissions(true, false).unwrap()))
        .collect();
    let result = extraction.finish(&partial.path);
    if result.is_ok() {
        partial.commit();
    }
    Outcome { result, files, directories, removed: partial.must_remove() }
}

fn mode_of(outcome: &Outcome, path: &str) -> u32 {
    outcome.files.iter().find(|file| file.path == path).unwrap().mode
}

#[test]
fn extracts_valid_release_with_sanitized_permissions() {
    let bytes = archive_with(
        |builder| append_file(builder, "docs/UPDATES.md", b"documentation"),
        b"1.2.3-rc.1+build.9\n",
    );
    let outcome = extract_release(&bytes, bytes.len() as u64, &sha256_of(&bytes));
    let extracted = outcome.result.as_ref().unwrap();
    assert_eq!(extracted.version, "1.2.3-rc.1+build.9");
    assert_eq!(extracted.destination, "/srv/partial-release");
    let server = outcome.files.iter().find(|file| file.path == "bin/vexa-vm").unwrap();
    assert_eq!(server.bytes, b"server");
    assert_eq!(mode_of(&outcome, "bin/vexa-vm"), 0o755);
    assert_eq!(mode_of(&outcome, "templates/base.html"), 0o644);
    assert_eq!(mode_of(&outcome, "guest-tools/vexa-guest-tools-linux-x86_64"), 0o755);
    assert!(outcome.directories.contains(&("static/css".to_owned(), 0o755)));
    assert!(!outcome.removed);
}

#[test]
fn rejects_links_and_removes_partial_destination() {
    let bytes = archive_with(
        |builder| {
            let mut header = Header::new_gnu();
            header.set_entry_type(EntryType::Symlink);
            header.set_mode(0o777);
            header.set_size(0);
            header.set_link_name("/etc/passwd").unwrap();
            header.set_cksum();
            builder.append_data(&mut header, "static/escape", std::io::empty()).unwrap();
        },
        b"1.2.3\n",
    );
    let outcome = extract_release(&bytes, bytes.len() as u64, &sha256_of(&bytes));
    assert!(outcome.result.unwrap_err().message().contains("non-regular"));
    assert!(outcome.removed);
}

#[test]
fn rejects_an_invalid_version() {
    let bytes = archive_with(|_| {}, b"01.2.3\n");
    let outcome = extract_release(&bytes, bytes.len() as u64, &sha256_of(&bytes));
    assert!(outcome.result.unwrap_err().message().contains("semantic version"));
    assert!(outcome.removed);
}

#[test]
fn rejects_a_digest_mismatch_before_creating_destination() {
    let bytes = archive_with(|_| {}, b"1.2.3\n");
    let outcome = extract_release(&bytes, bytes.len() as u64, &"0".repeat(64));
    assert!(outcome.result.unwrap_err().message().contains("signed SHA-256"));
    assert!(outcome.files.is_empty());
}

#[test]
fn path_validator_rejects_traversal_and_non_allowlisted_roots() {
    for path in [
        b"../etc/passwd".as_slice(),
        b"/etc/passwd".as_slice(),
        b"static//app.css".as_slice(),
        b"static/./app.css".as_slice(),
        b"static\\app.css".as_slice(),
        b"Cargo.toml".as_slice(),
    ] {
        assert!(validate_archive_path(path, false).is_err(), "{path:?}");
    }
}

#[test]
fn strict_semver_accepts_and_rejects_expected_forms() {
    for valid in ["0.1.0", "1.2.3-alpha.1", "1.2.3+001", "1.2.3-a-b+c-d"] {
        assert!(validate_semver(valid).is_ok(), "{valid}");
    }
    for invalid in [
        "v1.2.3",
        "1.2",
        "01.2.3",
        "1.02.3",
        "1.2.03",
        "1.2.3-01",
        "1.2.3-",
        "1.2.3+",
        "1.2.3+a..b",
        "1.2.3+build+other",
    ] {
        assert!(validate_semver(invalid).is_err(), "{invalid}");
    }
}

#[test]
fn semantic_release_names_are_strict() {
    for valid in ["0.1.0", "1.2.3-rc.1", "1.2.3+build.7", "v2.0.0"] {
        assert!(normalized_release_name(valid).is_ok(), "{valid}");
    }
    for invalid in [
        "",
        "1.2",
        "01.2.3",
        "1.02.3",
        "1.2.03",
        "1.2.3-01",
        "1.2.3-",
        "1.2.3+",
        "1.2.3+a..b",
        "../../1.2.3",
    ] {
        assert!(normalized_release_name(invalid).is_err(), "{invalid}");
    }
}

#[test]
fn names_are_normalized_once() {
    assert_eq!(normalized_release_name("v2.0.0").unwrap(), "2.0.0");
    assert_eq!(normalized_release_name("2.0.0").unwrap(), "2.0.0");
    assert!(normalized_release_name("vv2.0.0").is_err());
}

#[test]
fn digests_are_those_of_sha256() {
    assert_eq!(sha256_of(b""), EMPTY_SHA256);
    assert_eq!(
        sha256_of(b"abc"),
        "ba7816bf8f01cfea414140de5dae2223b00361a396177a9cb410ff61f20015ad"
    );
    let whole = sha256_of(b"one chunk after another");
    let pieces = StreamDigest::new(100).feed(b"one chunk").unwrap().feed(b" after another");
    assert_eq!(pieces.unwrap().finish(), whole);
    assert!(is_sha256_hex(&whole));
    assert!(!is_sha256_hex(&whole.to_uppercase()));
    assert!(!is_sha256_hex(&whole[1..]));
    assert_eq!(lowercase_hex(&vec![0x00, 0x9f, 0xff]), "009fff");
}

#[test]
fn a_stream_stays_within_its_limit() {
    let stream = StreamDigest::new(4).feed(b"1234").unwrap();
    assert_eq!(stream.size(), 4);
    assert!(stream.feed(b"5").is_none());
}

#[test]
fn archives_are_verified_before_anything_is_unpacked() {
    let sha = "0".repeat(64);
    assert_eq!(validate_expected_archive(0, &sha), Err(ArchiveError::ExpectedSize));
    assert_eq!(validate_expected_archive(1, "abc"), Err(ArchiveError::ExpectedDigest));
    assert_eq!(check_archive_file(false, 3), Err(ArchiveError::NotRegularFile));
    assert_eq!(check_archive_file(true, 0), Err(ArchiveError::FileSize));
    assert_eq!(check_archive_file(true, u64::MAX), Err(ArchiveError::FileSize));
    assert_eq!(check_archive_file(true, 3), Ok(()));
    assert!(matches!(begin_verification(false, 3, 3), Err(ArchiveError::SignedSize)));
    assert!(matches!(begin_verification(true, 4, 3), Err(ArchiveError::SignedSize)));
    let stream = begin_verification(true, 2, 2).unwrap().feed(b"no").unwrap();
    let sha = sha256_of(b"no");
    let magic = vec![b'n', b'o'];
    assert_eq!(verify_open_archive(stream, 2, &sha, &magic), Err(ArchiveError::NotGzip));
    let stream = begin_verification(true, 2, 2).unwrap();
    assert_eq!(verify_open_archive(stream, 2, &sha, &magic), Err(ArchiveError::SignedSize));
}

#[test]
fn paths_name_what_is_wrong_with_them() {
    let long = "static/".to_owned() + &"a".repeat(1100);
    let component = "static/".to_owned() + &"a".repeat(600);
    for (path, error) in [
        (b"".as_slice(), ArchiveError::PathLength),
        (long.as_bytes(), ArchiveError::PathLength),
        (component.as_bytes(), ArchiveError::PathComponentLength),
        (b"static/\xff".as_slice(), ArchiveError::PathNotUtf8),
        (b"static/a\\b".as_slice(), ArchiveError::PathUnsafe),
        (b"static/../x".as_slice(), ArchiveError::PathTraversal),
        (b"src/main.rs".as_slice(), ArchiveError::NotAllowlisted),
    ] {
        assert_eq!(validate_archive_path(path, false), Err(error), "{path:?}");
    }
    assert_eq!(validate_archive_path(b"static/css/app.css", false).unwrap(), "static/css/app.css");
    assert_eq!(validate_archive_path(b"static/css/", true).unwrap(), "static/css");
}

#[test]
fn directories_come_before_what_lies_inside() {
    let css = vec!["static".to_owned(), "static/css".to_owned()];
    assert_eq!(ensure_parent_directories("static/css/app.css"), Ok(css.clone()));
    assert_eq!(ensure_parent_directories("static//css/./app.css"), Ok(css.clone()));
    assert_eq!(ensure_release_directory("static/css"), Ok(css.clone()));
    assert_eq!(ensure_release_directory("static//css/"), Ok(css));
    assert_eq!(ensure_parent_directories("VERSION"), Ok(Vec::new()));
    for path in ["/static/css", "static/../css", "./static/css"] {
        assert_eq!(
            ensure_release_directory(path),
            Err(ArchiveError::DirectoryNotNormalized),
            "{path}"
        );
    }
    assert_eq!(
        ArchiveError::DirectoryNotNormalized.message(),
        "release directory path is not normalized"
    );
    let order = finalization_order(&vec![
        "static".to_owned(),
        "static/css/dark".to_owned(),
        "static/css".to_owned(),
    ]);
    assert_eq!(order, vec!["static/css/dark", "static/css", "static"]);
    assert_eq!(decide_directory(false, false, false), Ok(DirectoryDecision::Create));
    assert_eq!(decide_directory(true, true, false), Ok(DirectoryDecision::Keep));
    assert_eq!(decide_directory(true, true, true), Err(ArchiveError::PathConflict));
    assert_eq!(finalize_directory_permissions(true, true), Err(ArchiveError::DirectoryChanged));
}

#[test]
fn only_programs_are_executable() {
    assert!(is_executable_payload("bin/vexa-vm"));
    assert!(is_executable_payload("bin//vexa-vm"));
    assert!(is_executable_payload("bin/./vexa-vm"));
    assert!(is_executable_payload("bin/vexa-vm/"));
    assert!(!is_executable_payload("/bin/vexa-vm"));
    assert!(!is_executable_payload("static/bin/vexa-vm"));
    assert_eq!(file_mode(true), 0o755);
    assert_eq!(file_mode(false), 0o644);
    assert!(is_required_file("VERSION"));
    assert!(!is_required_file("docs/UPDATES.md"));
}

#[test]
fn the_version_file_holds_one_line() {
    assert_eq!(parse_version_file(b"1.2.3\n").unwrap(), "1.2.3");
    assert_eq!(parse_version_file(b"1.2.3").unwrap(), "1.2.3");
    assert_eq!(parse_version_file(b"1.2.3\n\n"), Err(ArchiveError::VersionNotSemantic));
    assert_eq!(parse_version_file(b"\xff"), Err(ArchiveError::VersionNotUtf8));
}

#[test]
fn entries_are_copied_exactly() {
    let mut copy = FileCopy::begin(3, true);
    copy.accept(b"ab").unwrap();
    assert_eq!(copy.accept(b""), Err(ArchiveError::EntryEnded));
    assert_eq!(copy.accept(b"cd"), Err(ArchiveError::EntryOverrun));
    copy.accept(b"c").unwrap();
    assert_eq!(copy.wanted(), 0);
    assert_eq!(copy.finish(0).unwrap(), Some(b"abc".to_vec()));
    assert_eq!(FileCopy::begin(0, false).finish(1), Err(ArchiveError::EntryOverrun));
}

#[test]
fn nothing_but_zeros_follows_the_last_entry() {
    assert_eq!(drain_and_validate_gzip(0, &[0, 0, 0]), Ok(3));
    assert_eq!(drain_and_validate_gzip(3, &[]), Ok(3));
    assert_eq!(drain_and_validate_gzip(0, &[0, 1]), Err(ArchiveError::TrailingData));
    assert_eq!(check_gzip_end(10, 2, 8), Ok(()));
    assert_eq!(check_gzip_end(10, 2, 9), Err(ArchiveError::DataAfterGzip));
    assert_eq!(check_gzip_end(1, 2, 9), Err(ArchiveError::GzipPosition));
}

fn file(path: &str, size: u64) -> ArchiveEntry {
    ArchiveEntry {
        readable: true,
        kind: EntryKind::File,
        path: path.as_bytes().to_vec(),
        size: Some(size),
    }
}

#[test]
fn every_entry_is_judged() {
    let mut extraction = Extraction::begin();
    let mut broken = file("VERSION", 1);
    broken.readable = false;
    assert_eq!(extraction.judge(&broken), Err(ExtractionError::Archive(ArchiveError::InvalidEntry)));
    let mut sizeless = file("VERSION", 1);
    sizeless.size = None;
    assert_eq!(extraction.judge(&sizeless), Err(ExtractionError::Archive(ArchiveError::InvalidSize)));
    let fault = extraction.judge(&file("VERSION", 0)).unwrap_err();
    assert_eq!(fault, ExtractionError::EmptyRequiredFile("VERSION".to_owned()));
    assert_eq!(fault.message(), "required release file \"VERSION\" is empty");
    let fault = extraction.judge(&file("static/a\"b", u64::MAX)).unwrap_err();
    assert_eq!(
        fault.message(),
        "release archive file \"static/a\\\"b\" exceeds its size limit"
    );
    assert_eq!(fault.message_with("it"), "release archive file it exceeds its size limit");
    assert_eq!(fault.path(), Some("static/a\"b"));
    assert_eq!(extraction.judge(&file("VERSION", 1 << 20)), Err(ExtractionError::Archive(ArchiveError::VersionLimit)));
    let plan = extraction.judge(&file("VERSION", 6)).unwrap();
    assert!(plan.capture);
    let fault = extraction.judge(&file("VERSION", 6)).unwrap_err();
    assert_eq!(fault.message(), "release archive contains duplicate path \"VERSION\"");
    extraction.record(&plan, Some(b"1.2.3\n".to_vec()));
    let mut directory = file("static/css/", 1);
    directory.kind = EntryKind::Directory;
    let fault = extraction.judge(&directory).unwrap_err();
    assert_eq!(fault.message(), "release archive directory \"static/css\" has file data");
    let missing = (0..REQUIRED_FILE_COUNT).map(required_file).find(|name| *name != "VERSION").unwrap();
    let fault = extraction.finish("/srv/new").unwrap_err();
    assert_eq!(fault, ExtractionError::MissingRequiredFile(missing.to_owned()));
    assert_eq!(
        fault.message(),
        format!("release archive is missing required file \"{missing}\"")
    );
}

#[test]
fn destinations_are_fresh_and_safe() {
    assert!(destination_is_normalized("/srv/new"));
    assert!(!destination_is_normalized("srv/new"));
    assert!(!destination_is_normalized("/srv/../new"));
    let safe = DestinationFacts {
        parent_is_directory: true,
        parent_is_symlink: false,
        parent_is_canonical: true,
        parent_mode: 0o755,
        exists: false,
    };
    assert_eq!(validate_destination("/srv/new", safe), Ok(()));
    let facts = DestinationFacts { exists: true, ..safe };
    assert_eq!(validate_destination("/srv/new", facts), Err(ArchiveError::DestinationExists));
    let facts = DestinationFacts { parent_mode: 0o777, ..safe };
    assert_eq!(
        validate_destination("/srv/new", facts),
        Err(ArchiveError::DestinationParentWritable)
    );
    let facts = DestinationFacts { parent_is_symlink: true, ..safe };
    assert_eq!(validate_destination("/srv/new", facts), Err(ArchiveError::DestinationParent));
    let facts = DestinationFacts { parent_is_canonical: false, ..safe };
    assert_eq!(validate_destination("/srv/new", facts), Err(ArchiveError::DestinationParentLink));
    assert_eq!(
        validate_destination("srv/new", safe),
        Err(ArchiveError::DestinationNotNormalized)
    );
    assert_eq!(validate_destination("//", safe), Err(ArchiveError::DestinationHasNoParent));
    assert_eq!(
        ArchiveError::DestinationHasNoParent.message(),
        "release destination has no parent"
    );
}
