//! Constrained extraction of signed release archives.
//!
//! An archive is treated as hostile even after its signature was verified. Each entry is
//! put to [`Extraction`], which answers with the one thing that may be done for it or
//! refuses the archive; nothing of an entry but its bytes reaches the disk unchecked.

use vstd::prelude::*;
use vstd::utf8::{decode_utf8, valid_utf8};

use crate::digest::{is_sha256_hex, is_sha256_text, StreamDigest};
use crate::paths::{
    all_normal, are_normal, chain_of, directory_chain, first_piece_of_rooted, is_rooted,
    is_same_path, joined_names, last_name, names_of_path, path_names, proper_pieces_are_names, same_path,
    starts_at_root,
};
use crate::semver::{is_semver, validate_semver};
use crate::text::{
    byte_len, byte_length, chars_of, control, copy_bytes, is_control, same, split, split_spec,
    text_of, view_bytes, views,
};
use crate::wording::{joined, joining_is_undone_by_splitting};

verus! {

broadcast use vstd::string::group_string_axioms;

/// Largest release archive.
pub const MAX_ARCHIVE_BYTES: u64 = 1073741824;

/// Most entries of an archive.
pub const MAX_ENTRY_COUNT: usize = 32768;

/// Longest path of an entry.
pub const MAX_PATH_BYTES: usize = 1024;

/// Longest component of a path.
pub const MAX_PATH_COMPONENT_BYTES: usize = 255;

/// Most components of a path.
pub const MAX_PATH_COMPONENTS: usize = 48;

/// Largest file of a release.
pub const MAX_FILE_BYTES: u64 = 536870912;

/// Largest sum of the files of a release.
pub const MAX_TOTAL_FILE_BYTES: u64 = 2147483648;

/// Largest VERSION file.
pub const MAX_VERSION_BYTES: u64 = 128;

/// Most zero bytes behind the last entry.
pub const MAX_TAR_PADDING_BYTES: u64 = 1048576;

/// Most bytes that are copied at once.
pub const COPY_BUFFER_BYTES: usize = 131072;

/// Number of files that every release holds.
pub const REQUIRED_FILE_COUNT: usize = 31;

/// Why an archive was refused.
#[derive(Clone, Copy, Debug, PartialEq, Eq, Structural)]
pub enum ArchiveError {
    ExpectedSize,
    ExpectedDigest,
    NotRegularFile,
    FileSize,
    SignedSize,
    Grew,
    SignedDigest,
    NotGzip,
    DestinationNotNormalized,
    DestinationHasNoParent,
    DestinationParent,
    DestinationParentLink,
    DestinationParentWritable,
    DestinationExists,
    TooManyEntries,
    InvalidEntry,
    NonRegularEntry,
    PathLength,
    PathNotUtf8,
    PathUnsafe,
    PathNotNormalized,
    PathComponents,
    PathTraversal,
    PathComponentLength,
    RootFilePath,
    TopLevelFile,
    NotAllowlisted,
    InvalidSize,
    VersionLimit,
    TotalLimit,
    DirectoryNotNormalized,
    PathConflict,
    EntryEnded,
    EntryOverrun,
    TrailingData,
    GzipPosition,
    DataAfterGzip,
    VersionNotCaptured,
    VersionNotUtf8,
    VersionNotSemantic,
    DirectoryChanged,
}

/// The text of each refusal.
pub open spec fn archive_error_text(e: ArchiveError) -> Seq<char> {
    match e {
        ArchiveError::ExpectedSize =>
            "signed release archive size is outside its allowed range"@,
        ArchiveError::ExpectedDigest =>
            "signed release archive SHA-256 must be lowercase hexadecimal"@,
        ArchiveError::NotRegularFile => "release archive is not a regular file"@,
        ArchiveError::FileSize => "release archive size is outside its allowed range"@,
        ArchiveError::SignedSize => "release archive does not match its signed size"@,
        ArchiveError::Grew => "release archive grew while it was being verified"@,
        ArchiveError::SignedDigest => "release archive does not match its signed SHA-256"@,
        ArchiveError::NotGzip => "release archive is not gzip-compressed"@,
        ArchiveError::DestinationNotNormalized =>
            "release destination must be an absolute normalized path"@,
        ArchiveError::DestinationHasNoParent => "release destination has no parent"@,
        ArchiveError::DestinationParent => "release destination parent is not a real directory"@,
        ArchiveError::DestinationParentLink =>
            "release destination parent must not traverse symbolic links"@,
        ArchiveError::DestinationParentWritable =>
            "release destination parent must not be group/world writable"@,
        ArchiveError::DestinationExists => "release destination already exists"@,
        ArchiveError::TooManyEntries => "release archive contains too many entries"@,
        ArchiveError::InvalidEntry => "release archive contains an invalid tar entry"@,
        ArchiveError::NonRegularEntry => "release archive contains a non-regular entry"@,
        ArchiveError::PathLength => "release archive path is outside its length limit"@,
        ArchiveError::PathNotUtf8 => "release archive path is not valid UTF-8"@,
        ArchiveError::PathUnsafe => "release archive path is not a safe relative path"@,
        ArchiveError::PathNotNormalized => "release archive path is not normalized"@,
        ArchiveError::PathComponents => "release archive path contains too many components"@,
        ArchiveError::PathTraversal => "release archive path contains a traversal component"@,
        ArchiveError::PathComponentLength =>
            "release archive path component exceeds its length limit"@,
        ArchiveError::RootFilePath => "release archive root file path is invalid"@,
        ArchiveError::TopLevelFile => "release archive top-level directory is a file"@,
        ArchiveError::NotAllowlisted => "release archive path is outside the release allowlist"@,
        ArchiveError::InvalidSize => "release archive entry has an invalid size"@,
        ArchiveError::VersionLimit => "release VERSION file exceeds its size limit"@,
        ArchiveError::TotalLimit => "release archive exceeds its total unpacked size limit"@,
        ArchiveError::DirectoryNotNormalized => "release directory path is not normalized"@,
        ArchiveError::PathConflict => "release path conflicts with a non-directory"@,
        ArchiveError::EntryEnded => "release entry ended before its declared size"@,
        ArchiveError::EntryOverrun => "release entry exceeds its declared size"@,
        ArchiveError::TrailingData => "release tar contains unexpected trailing data"@,
        ArchiveError::GzipPosition => "release archive gzip position is invalid"@,
        ArchiveError::DataAfterGzip => "release archive contains data after its gzip member"@,
        ArchiveError::VersionNotCaptured => "release archive VERSION file was not captured"@,
        ArchiveError::VersionNotUtf8 => "release VERSION is not valid UTF-8"@,
        ArchiveError::VersionNotSemantic => "release VERSION is not a strict semantic version"@,
        ArchiveError::DirectoryChanged => "release directory changed during extraction"@,
    }
}

impl ArchiveError {
    /// The text shown to an operator.
    pub fn message(&self) -> (r: &'static str)
        ensures
            r@ == archive_error_text(*self),
    {
        match self {
            ArchiveError::ExpectedSize =>
                "signed release archive size is outside its allowed range",
            ArchiveError::ExpectedDigest =>
                "signed release archive SHA-256 must be lowercase hexadecimal",
            ArchiveError::NotRegularFile => "release archive is not a regular file",
            ArchiveError::FileSize => "release archive size is outside its allowed range",
            ArchiveError::SignedSize => "release archive does not match its signed size",
            ArchiveError::Grew => "release archive grew while it was being verified",
            ArchiveError::SignedDigest => "release archive does not match its signed SHA-256",
            ArchiveError::NotGzip => "release archive is not gzip-compressed",
            ArchiveError::DestinationNotNormalized =>
                "release destination must be an absolute normalized path",
            ArchiveError::DestinationHasNoParent => "release destination has no parent",
            ArchiveError::DestinationParent => "release destination parent is not a real directory",
            ArchiveError::DestinationParentLink =>
                "release destination parent must not traverse symbolic links",
            ArchiveError::DestinationParentWritable =>
                "release destination parent must not be group/world writable",
            ArchiveError::DestinationExists => "release destination already exists",
            ArchiveError::TooManyEntries => "release archive contains too many entries",
            ArchiveError::InvalidEntry => "release archive contains an invalid tar entry",
            ArchiveError::NonRegularEntry => "release archive contains a non-regular entry",
            ArchiveError::PathLength => "release archive path is outside its length limit",
            ArchiveError::PathNotUtf8 => "release archive path is not valid UTF-8",
            ArchiveError::PathUnsafe => "release archive path is not a safe relative path",
            ArchiveError::PathNotNormalized => "release archive path is not normalized",
            ArchiveError::PathComponents => "release archive path contains too many components",
            ArchiveError::PathTraversal => "release archive path contains a traversal component",
            ArchiveError::PathComponentLength =>
                "release archive path component exceeds its length limit",
            ArchiveError::RootFilePath => "release archive root file path is invalid",
            ArchiveError::TopLevelFile => "release archive top-level directory is a file",
            ArchiveError::NotAllowlisted => "release archive path is outside the release allowlist",
            ArchiveError::InvalidSize => "release archive entry has an invalid size",
            ArchiveError::VersionLimit => "release VERSION file exceeds its size limit",
            ArchiveError::TotalLimit => "release archive exceeds its total unpacked size limit",
            ArchiveError::DirectoryNotNormalized => "release directory path is not normalized",
            ArchiveError::PathConflict => "release path conflicts with a non-directory",
            ArchiveError::EntryEnded => "release entry ended before its declared size",
            ArchiveError::EntryOverrun => "release entry exceeds its declared size",
            ArchiveError::TrailingData => "release tar contains unexpected trailing data",
            ArchiveError::GzipPosition => "release archive gzip position is invalid",
            ArchiveError::DataAfterGzip => "release archive contains data after its gzip member",
            ArchiveError::VersionNotCaptured => "release archive VERSION file was not captured",
            ArchiveError::VersionNotUtf8 => "release VERSION is not valid UTF-8",
            ArchiveError::VersionNotSemantic => "release VERSION is not a strict semantic version",
            ArchiveError::DirectoryChanged => "release directory changed during extraction",
        }
    }
}

/// The error of `core::str::from_utf8`.
#[verifier::external_type_specification]
#[verifier::external_body]
pub struct ExUtf8Error(core::str::Utf8Error);

/// `core::str::from_utf8`: the text that the bytes encode, where they are valid UTF-8.
pub assume_specification[ core::str::from_utf8 ](v: &[u8]) -> (r: Result<
    &str,
    core::str::Utf8Error,
>)
    ensures
        r is Ok <==> valid_utf8(v@),
        r matches Ok(s) ==> s@ == decode_utf8(v@),
;

/// The files that every release holds, by number.
pub open spec fn required_file_spec(i: int) -> Seq<char> {
    if i == 0 {
        "bin/vexa-vm"@
    } else if i == 1 {
        "bin/vexa-update-helper"@
    } else if i == 2 {
        "VERSION"@
    } else if i == 3 {
        "README.md"@
    } else if i == 4 {
        "LICENSE"@
    } else if i == 5 {
        "templates/base.html"@
    } else if i == 6 {
        "templates/docs.html"@
    } else if i == 7 {
        "templates/error.html"@
    } else if i == 8 {
        "templates/isos.html"@
    } else if i == 9 {
        "templates/login.html"@
    } else if i == 10 {
        "templates/logs.html"@
    } else if i == 11 {
        "templates/network.html"@
    } else if i == 12 {
        "templates/overall.html"@
    } else if i == 13 {
        "templates/public_base.html"@
    } else if i == 14 {
        "templates/settings.html"@
    } else if i == 15 {
        "templates/status.html"@
    } else if i == 16 {
        "templates/vm_create.html"@
    } else if i == 17 {
        "templates/vm_detail.html"@
    } else if i == 18 {
        "templates/vms.html"@
    } else if i == 19 {
        "templates/vnc.html"@
    } else if i == 20 {
        "static/css/app.css"@
    } else if i == 21 {
        "static/images/vexa-vm-emblem.png"@
    } else if i == 22 {
        "static/js/app.js"@
    } else if i == 23 {
        "static/vendor/novnc/LICENSE.txt"@
    } else if i == 24 {
        "static/vendor/novnc/core/rfb.js"@
    } else if i == 25 {
        "guest-tools/vexa-guest-tools-linux-x86_64"@
    } else if i == 26 {
        "guest-tools/vexa-guest-tools-windows-x86_64.exe"@
    } else if i == 27 {
        "deploy/vexa-vm.service"@
    } else if i == 28 {
        "deploy/vexa-update-executor-ready.service"@
    } else if i == 29 {
        "deploy/vexa-update-dispatch.service"@
    } else {
        "deploy/vexa-update-dispatch.path"@
    }
}

/// The files that every release holds, by number.
pub fn required_file(i: usize) -> (r: &'static str)
    requires
        i < REQUIRED_FILE_COUNT,
    ensures
        r@ == required_file_spec(i as int),
{
    match i {
        0 => "bin/vexa-vm",
        1 => "bin/vexa-update-helper",
        2 => "VERSION",
        3 => "README.md",
        4 => "LICENSE",
        5 => "templates/base.html",
        6 => "templates/docs.html",
        7 => "templates/error.html",
        8 => "templates/isos.html",
        9 => "templates/login.html",
        10 => "templates/logs.html",
        11 => "templates/network.html",
        12 => "templates/overall.html",
        13 => "templates/public_base.html",
        14 => "templates/settings.html",
        15 => "templates/status.html",
        16 => "templates/vm_create.html",
        17 => "templates/vm_detail.html",
        18 => "templates/vms.html",
        19 => "templates/vnc.html",
        20 => "static/css/app.css",
        21 => "static/images/vexa-vm-emblem.png",
        22 => "static/js/app.js",
        23 => "static/vendor/novnc/LICENSE.txt",
        24 => "static/vendor/novnc/core/rfb.js",
        25 => "guest-tools/vexa-guest-tools-linux-x86_64",
        26 => "guest-tools/vexa-guest-tools-windows-x86_64.exe",
        27 => "deploy/vexa-vm.service",
        28 => "deploy/vexa-update-executor-ready.service",
        29 => "deploy/vexa-update-dispatch.service",
        _ => "deploy/vexa-update-dispatch.path",
    }
}

/// A file that every release holds.
pub open spec fn is_required(path: Seq<char>) -> bool {
    exists|i: int| 0 <= i < REQUIRED_FILE_COUNT && #[trigger] required_file_spec(i) == path
}

/// Whether every release holds this file.
pub fn is_required_file(path: &str) -> (r: bool)
    ensures
        r == is_required(path@),
{
    let mut i: usize = 0;
    while i < REQUIRED_FILE_COUNT
        invariant
            i <= REQUIRED_FILE_COUNT,
            forall|j: int| 0 <= j < i ==> #[trigger] required_file_spec(j) != path@,
        decreases REQUIRED_FILE_COUNT - i,
    {
        if same(path, required_file(i)) {
            return true;
        }
        i = i + 1;
    }
    false
}

/// The directories at the top of a release.
pub open spec fn is_top_directory(s: Seq<char>) -> bool {
    ||| s == "bin"@
    ||| s == "templates"@
    ||| s == "static"@
    ||| s == "migrations"@
    ||| s == "deploy"@
    ||| s == "docs"@
    ||| s == "guest-tools"@
}

/// The files at the top of a release.
pub open spec fn is_root_file(s: Seq<char>) -> bool {
    s == "VERSION"@ || s == "README.md"@ || s == "LICENSE"@
}

fn top_directory(s: &str) -> (r: bool)
    ensures
        r == is_top_directory(s@),
{
    same(s, "bin") || same(s, "templates") || same(s, "static") || same(s, "migrations") || same(
        s,
        "deploy",
    ) || same(s, "docs") || same(s, "guest-tools")
}

fn root_file(s: &str) -> (r: bool)
    ensures
        r == is_root_file(s@),
{
    same(s, "VERSION") || same(s, "README.md") || same(s, "LICENSE")
}

/// The size and digest that a manifest may state for an archive.
pub open spec fn expected_archive(size: u64, sha256: Seq<char>) -> Result<(), ArchiveError> {
    if size == 0 || size > MAX_ARCHIVE_BYTES {
        Err(ArchiveError::ExpectedSize)
    } else if !is_sha256_text(sha256) {
        Err(ArchiveError::ExpectedDigest)
    } else {
        Ok(())
    }
}

/// Checks the size and digest that a manifest states for an archive.
pub fn validate_expected_archive(expected_size_bytes: u64, expected_sha256: &str) -> (r: Result<
    (),
    ArchiveError,
>)
    ensures
        r == expected_archive(expected_size_bytes, expected_sha256@),
{
    if expected_size_bytes == 0 || expected_size_bytes > MAX_ARCHIVE_BYTES {
        return Err(ArchiveError::ExpectedSize);
    }
    if !is_sha256_hex(expected_sha256) {
        return Err(ArchiveError::ExpectedDigest);
    }
    Ok(())
}

/// Checks the metadata of the opened archive file.
pub fn check_archive_file(is_file: bool, length: u64) -> (r: Result<(), ArchiveError>)
    ensures
        r == (if !is_file {
            Err::<(), ArchiveError>(ArchiveError::NotRegularFile)
        } else if length == 0 || length > MAX_ARCHIVE_BYTES {
            Err::<(), ArchiveError>(ArchiveError::FileSize)
        } else {
            Ok::<(), ArchiveError>(())
        }),
{
    if !is_file {
        return Err(ArchiveError::NotRegularFile);
    }
    if length == 0 || length > MAX_ARCHIVE_BYTES {
        return Err(ArchiveError::FileSize);
    }
    Ok(())
}

/// Begins to verify an opened archive: it must be a regular file of the signed size.
pub fn begin_verification(is_file: bool, length: u64, expected_size: u64) -> (r: Result<
    StreamDigest,
    ArchiveError,
>)
    ensures
        r is Ok <==> is_file && length == expected_size,
        r matches Ok(s) ==> s.bytes() == Seq::<u8>::empty() && s.limit() == expected_size,
        r matches Err(e) ==> e == ArchiveError::SignedSize,
{
    if !is_file || length != expected_size {
        return Err(ArchiveError::SignedSize);
    }
    Ok(StreamDigest::new(expected_size))
}

/// The verdict on an archive of which `data` was read and whose first three bytes are
/// `magic`.
pub open spec fn verified_archive(
    data: Seq<u8>,
    expected_size: u64,
    expected_sha256: Seq<char>,
    magic: Seq<u8>,
) -> Result<(), ArchiveError> {
    if data.len() != expected_size {
        Err(ArchiveError::SignedSize)
    } else if crate::digest::hex(crate::digest::sha256(data)) != expected_sha256 {
        Err(ArchiveError::SignedDigest)
    } else if magic != seq![0x1fu8, 0x8b, 0x08] {
        Err(ArchiveError::NotGzip)
    } else {
        Ok(())
    }
}

/// Ends the verification of an archive once its last byte was read.
pub fn verify_open_archive(
    stream: StreamDigest,
    expected_size: u64,
    expected_sha256: &str,
    magic: &Vec<u8>,
) -> (r: Result<(), ArchiveError>)
    ensures
        r == verified_archive(stream.bytes(), expected_size, expected_sha256@, magic@),
{
    if stream.size() != expected_size {
        return Err(ArchiveError::SignedSize);
    }
    let observed = stream.finish();
    if !same(observed.as_str(), expected_sha256) {
        return Err(ArchiveError::SignedDigest);
    }
    if magic.len() == 3 && magic[0] == 0x1f && magic[1] == 0x8b && magic[2] == 0x08 {
        proof {
            assert(magic@ =~= seq![0x1fu8, 0x8b, 0x08]);
        }
        Ok(())
    } else {
        Err(ArchiveError::NotGzip)
    }
}

/// An absolute path without a parent component.
pub open spec fn destination_normalized(path: Seq<char>) -> bool {
    &&& path.len() > 0
    &&& path[0] == '/'
    &&& forall|p: int|
        0 <= p < split_spec(path, '/').len() ==> #[trigger] split_spec(path, '/')[p] != ".."@
}

/// What the file system says of the parent of the destination, and of the destination.
#[derive(Clone, Copy, Debug, PartialEq, Eq, Structural)]
pub struct DestinationFacts {
    pub parent_is_directory: bool,
    pub parent_is_symlink: bool,
    pub parent_is_canonical: bool,
    pub parent_mode: u32,
    pub exists: bool,
}

/// The verdict on a destination directory.
pub open spec fn destination_verdict(path: Seq<char>, facts: DestinationFacts) -> Result<
    (),
    ArchiveError,
> {
    if !destination_normalized(path) {
        Err(ArchiveError::DestinationNotNormalized)
    } else if path_names(path).len() == 0 {
        Err(ArchiveError::DestinationHasNoParent)
    } else if !facts.parent_is_directory || facts.parent_is_symlink {
        Err(ArchiveError::DestinationParent)
    } else if !facts.parent_is_canonical {
        Err(ArchiveError::DestinationParentLink)
    } else if facts.parent_mode & 0o022 != 0 {
        Err(ArchiveError::DestinationParentWritable)
    } else if facts.exists {
        Err(ArchiveError::DestinationExists)
    } else {
        Ok(())
    }
}

/// Whether a path is absolute and has no parent component.
pub fn destination_is_normalized(path: &str) -> (r: bool)
    ensures
        r == destination_normalized(path@),
{
    if path.unicode_len() == 0 || path.get_char(0) != '/' {
        return false;
    }
    let pieces = split(path, '/');
    let mut i: usize = 0;
    while i < pieces.len()
        invariant
            i <= pieces@.len(),
            views(pieces@) == split_spec(path@, '/'),
            forall|p: int| 0 <= p < i ==> #[trigger] split_spec(path@, '/')[p] != ".."@,
        decreases pieces@.len() - i,
    {
        proof {
            assert(views(pieces@)[i as int] == pieces@[i as int]@);
        }
        if same(pieces[i].as_str(), "..") {
            return false;
        }
        i = i + 1;
    }
    true
}

/// Checks the directory that an archive is to be extracted to.
pub fn validate_destination(destination: &str, facts: DestinationFacts) -> (r: Result<
    (),
    ArchiveError,
>)
    ensures
        r == destination_verdict(destination@, facts),
{
    if !destination_is_normalized(destination) {
        return Err(ArchiveError::DestinationNotNormalized);
    }
    if last_name(destination).is_none() {
        return Err(ArchiveError::DestinationHasNoParent);
    }
    if !facts.parent_is_directory || facts.parent_is_symlink {
        return Err(ArchiveError::DestinationParent);
    }
    if !facts.parent_is_canonical {
        return Err(ArchiveError::DestinationParentLink);
    }
    if facts.parent_mode & 0o022 != 0 {
        return Err(ArchiveError::DestinationParentWritable);
    }
    if facts.exists {
        return Err(ArchiveError::DestinationExists);
    }
    Ok(())
}

/// A path that leaves the relative file name space of a release.
pub open spec fn unsafe_text(s: Seq<char>) -> bool {
    ||| s.len() > 0 && s[0] == '/'
    ||| exists|i: int| 0 <= i < s.len() && (#[trigger] s[i] == '\\' || is_control(s[i]))
}

/// The path of an entry without the slash that ends the name of a directory.
pub open spec fn entry_name(s: Seq<char>, is_directory: bool) -> Seq<char> {
    if is_directory && s.len() > 0 && s.last() == '/' {
        s.drop_last()
    } else {
        s
    }
}

/// No component is empty.
pub open spec fn normalized_components(components: Seq<Seq<char>>) -> bool {
    forall|p: int| 0 <= p < components.len() ==> (#[trigger] components[p]).len() > 0
}

/// What is wrong with one component.
pub open spec fn component_fault(component: Seq<char>) -> Option<ArchiveError> {
    if component == "."@ || component == ".."@ {
        Some(ArchiveError::PathTraversal)
    } else if byte_len(component) > MAX_PATH_COMPONENT_BYTES {
        Some(ArchiveError::PathComponentLength)
    } else {
        None
    }
}

/// What is wrong with the first faulty component.
pub open spec fn first_fault(components: Seq<Seq<char>>) -> Option<ArchiveError>
    decreases components.len(),
{
    if components.len() == 0 {
        None
    } else {
        match first_fault(components.drop_last()) {
            Some(e) => Some(e),
            None => component_fault(components.last()),
        }
    }
}

/// Where an entry may stand in a release.
pub open spec fn placement(components: Seq<Seq<char>>, is_directory: bool) -> Result<
    (),
    ArchiveError,
> {
    if is_root_file(components[0]) {
        if components.len() != 1 || is_directory {
            Err(ArchiveError::RootFilePath)
        } else {
            Ok(())
        }
    } else if is_top_directory(components[0]) {
        if components.len() == 1 && !is_directory {
            Err(ArchiveError::TopLevelFile)
        } else {
            Ok(())
        }
    } else {
        Err(ArchiveError::NotAllowlisted)
    }
}

/// The path under which an entry is extracted, or why there is none.
pub open spec fn archive_path(raw: Seq<u8>, is_directory: bool) -> Result<
    Seq<char>,
    ArchiveError,
> {
    if raw.len() == 0 || raw.len() > MAX_PATH_BYTES {
        Err(ArchiveError::PathLength)
    } else if !valid_utf8(raw) {
        Err(ArchiveError::PathNotUtf8)
    } else if unsafe_text(decode_utf8(raw)) {
        Err(ArchiveError::PathUnsafe)
    } else {
        let name = entry_name(decode_utf8(raw), is_directory);
        let components = split_spec(name, '/');
        if !normalized_components(components) {
            Err(ArchiveError::PathNotNormalized)
        } else if components.len() > MAX_PATH_COMPONENTS {
            Err(ArchiveError::PathComponents)
        } else {
            match first_fault(components) {
                Some(e) => Err(e),
                None => match placement(components, is_directory) {
                    Err(e) => Err(e),
                    Ok(_) => Ok(name),
                },
            }
        }
    }
}

/// A path that stays below the release directory and in the part of it that a release
/// may fill.
pub open spec fn is_release_path(name: Seq<char>) -> bool {
    let components = split_spec(name, '/');
    &&& forall|p: int|
        0 <= p < components.len() ==> (#[trigger] components[p]).len() > 0 && components[p] != "."@
            && components[p] != ".."@ && byte_len(components[p]) <= MAX_PATH_COMPONENT_BYTES
    &&& components.len() <= MAX_PATH_COMPONENTS
    &&& is_root_file(components[0]) && components.len() == 1 || is_top_directory(components[0])
    &&& forall|i: int| 0 <= i < name.len() ==> #[trigger] name[i] != '\\' && !is_control(name[i])
}

proof fn no_fault(components: Seq<Seq<char>>, p: int)
    requires
        first_fault(components) is None,
        0 <= p < components.len(),
    ensures
        component_fault(components[p]) is None,
    decreases components.len(),
{
    if p < components.len() - 1 {
        no_fault(components.drop_last(), p);
        assert(components.drop_last()[p] == components[p]);
    }
}

/// An accepted path never leaves the release directory: no component is empty, `.` or
/// `..`, and the first one is on the allow list.
pub proof fn accepted_paths_stay_inside(raw: Seq<u8>, is_directory: bool)
    requires
        archive_path(raw, is_directory) is Ok,
    ensures
        is_release_path(archive_path(raw, is_directory)->Ok_0),
{
    let text = decode_utf8(raw);
    let name = entry_name(text, is_directory);
    let components = split_spec(name, '/');
    assert forall|p: int| 0 <= p < components.len() implies (#[trigger] components[p]).len() > 0
        && components[p] != "."@ && components[p] != ".."@ && byte_len(components[p])
        <= MAX_PATH_COMPONENT_BYTES by {
        no_fault(components, p);
    }
    assert forall|i: int| 0 <= i < name.len() implies #[trigger] name[i] != '\\' && !is_control(
        name[i],
    ) by {
        assert(text[i] == name[i]);
    }
}

fn unsafe_chars(v: &Vec<char>) -> (r: bool)
    ensures
        r == unsafe_text(v@),
{
    if v.len() > 0 && v[0] == '/' {
        return true;
    }
    let mut i: usize = 0;
    while i < v.len()
        invariant
            i <= v@.len(),
            forall|j: int| 0 <= j < i ==> #[trigger] v@[j] != '\\' && !is_control(v@[j]),
        decreases v@.len() - i,
    {
        if v[i] == '\\' || control(v[i]) {
            return true;
        }
        i = i + 1;
    }
    false
}

fn check_components(pieces: &Vec<String>) -> (r: Option<ArchiveError>)
    ensures
        r == first_fault(views(pieces@)),
{
    let mut i: usize = 0;
    let ghost all = views(pieces@);
    proof {
        assert(all.take(0) =~= Seq::<Seq<char>>::empty());
    }
    while i < pieces.len()
        invariant
            i <= pieces@.len(),
            all == views(pieces@),
            first_fault(all.take(i as int)) is None,
        decreases pieces@.len() - i,
    {
        let piece = pieces[i].as_str();
        proof {
            assert(all[i as int] == piece@);
            assert(all.take(i as int + 1).drop_last() =~= all.take(i as int));
        }
        if same(piece, ".") || same(piece, "..") {
            proof {
                assert(first_fault(all.take(i as int + 1)) == Some(ArchiveError::PathTraversal));
                first_fault_stays(all, i as int + 1);
            }
            return Some(ArchiveError::PathTraversal);
        }
        if byte_length(piece) > MAX_PATH_COMPONENT_BYTES {
            proof {
                assert(first_fault(all.take(i as int + 1)) == Some(
                    ArchiveError::PathComponentLength,
                ));
                first_fault_stays(all, i as int + 1);
            }
            return Some(ArchiveError::PathComponentLength);
        }
        i = i + 1;
    }
    proof {
        assert(all.take(all.len() as int) =~= all);
    }
    None
}

proof fn first_fault_stays(components: Seq<Seq<char>>, n: int)
    requires
        0 <= n <= components.len(),
        first_fault(components.take(n)) is Some,
    ensures
        first_fault(components) == first_fault(components.take(n)),
    decreases components.len(),
{
    if n < components.len() {
        let front = components.drop_last();
        assert(front.take(n) =~= components.take(n));
        first_fault_stays(front, n);
    } else {
        assert(components.take(n) =~= components);
    }
}

fn check_placement(pieces: &Vec<String>, is_directory: bool) -> (r: Result<(), ArchiveError>)
    requires
        pieces@.len() > 0,
    ensures
        r == placement(views(pieces@), is_directory),
{
    let top = pieces[0].as_str();
    proof {
        assert(views(pieces@)[0] == top@);
        assert(views(pieces@).len() == pieces@.len());
    }
    if root_file(top) {
        if pieces.len() != 1 || is_directory {
            return Err(ArchiveError::RootFilePath);
        }
        Ok(())
    } else if top_directory(top) {
        if pieces.len() == 1 && !is_directory {
            return Err(ArchiveError::TopLevelFile);
        }
        Ok(())
    } else {
        Err(ArchiveError::NotAllowlisted)
    }
}

fn has_empty_piece(pieces: &Vec<String>) -> (r: bool)
    ensures
        r == !normalized_components(views(pieces@)),
{
    let mut i: usize = 0;
    while i < pieces.len()
        invariant
            i <= pieces@.len(),
            forall|p: int| 0 <= p < i ==> (#[trigger] views(pieces@)[p]).len() > 0,
        decreases pieces@.len() - i,
    {
        proof {
            assert(views(pieces@)[i as int] == pieces@[i as int]@);
        }
        if pieces[i].as_str().is_empty() {
            proof {
                assert(views(pieces@)[i as int].len() == 0);
            }
            return true;
        }
        i = i + 1;
    }
    false
}

/// The path under which an entry is extracted.
pub fn validate_archive_path(raw_path: &[u8], is_directory: bool) -> (r: Result<
    String,
    ArchiveError,
>)
    ensures
        match r {
            Ok(name) => archive_path(raw_path@, is_directory) == Ok::<Seq<char>, ArchiveError>(
                name@,
            ),
            Err(e) => archive_path(raw_path@, is_directory) == Err::<Seq<char>, ArchiveError>(e),
        },
{
    let n: usize = raw_path.len();
    if n == 0 || n > MAX_PATH_BYTES {
        return Err(ArchiveError::PathLength);
    }
    let text = match core::str::from_utf8(raw_path) {
        Ok(text) => text,
        Err(_) => {
            return Err(ArchiveError::PathNotUtf8);
        },
    };
    let v = chars_of(text);
    if unsafe_chars(&v) {
        return Err(ArchiveError::PathUnsafe);
    }
    let end: usize = if is_directory && v.len() > 0 && v[v.len() - 1] == '/' {
        v.len() - 1
    } else {
        v.len()
    };
    let name = text_of(&v, 0, end);
    proof {
        assert(v@.len() > 0 ==> v@.subrange(0, v@.len() - 1) =~= v@.drop_last());
        assert(v@.subrange(0, v@.len() as int) =~= v@);
    }
    let pieces = split(name.as_str(), '/');
    proof {
        assert(views(pieces@).len() == pieces@.len());
    }
    if has_empty_piece(&pieces) {
        return Err(ArchiveError::PathNotNormalized);
    }
    if pieces.len() > MAX_PATH_COMPONENTS {
        return Err(ArchiveError::PathComponents);
    }
    match check_components(&pieces) {
        Some(e) => {
            return Err(e);
        },
        None => {},
    }
    match check_placement(&pieces, is_directory) {
        Err(e) => Err(e),
        Ok(()) => Ok(name),
    }
}

/// The directories that must exist before `relative` is written, outermost first, or why
/// they are refused.
pub open spec fn parent_directories(relative: Seq<char>) -> Result<Seq<Seq<char>>, ArchiveError> {
    let names = path_names(relative);
    if names.len() == 0 {
        Ok(Seq::empty())
    } else if !is_rooted(relative) && all_normal(names.drop_last()) {
        Ok(directory_chain(names.drop_last()))
    } else {
        Err(ArchiveError::DirectoryNotNormalized)
    }
}

/// The directories that must exist for the directory `relative`, outermost first, or why they
/// are refused.
pub open spec fn release_directories(relative: Seq<char>) -> Result<Seq<Seq<char>>, ArchiveError> {
    if !is_rooted(relative) && all_normal(path_names(relative)) {
        Ok(directory_chain(path_names(relative)))
    } else {
        Err(ArchiveError::DirectoryNotNormalized)
    }
}

/// The directories of a path in a release are never refused.
pub proof fn release_paths_have_directories(name: Seq<char>)
    requires
        is_release_path(name),
    ensures
        parent_directories(name) is Ok,
        release_directories(name) is Ok,
{
    first_piece_of_rooted(name);
    proper_pieces_are_names(split_spec(name, '/'));
    let names = path_names(name);
    assert forall|i: int| 0 <= i < names.drop_last().len() implies (
    #[trigger] names.drop_last()[i]) != "."@ && names.drop_last()[i] != ".."@ by {
        assert(names.drop_last()[i] == names[i]);
    }
}

/// The directories that must exist before `relative` is written, outermost first.
pub fn ensure_parent_directories(relative: &str) -> (r: Result<Vec<String>, ArchiveError>)
    ensures
        match r {
            Ok(list) => parent_directories(relative@) == Ok::<Seq<Seq<char>>, ArchiveError>(
                views(list@),
            ),
            Err(e) => parent_directories(relative@) == Err::<Seq<Seq<char>>, ArchiveError>(e),
        },
{
    let names = names_of_path(relative);
    let ghost all = path_names(relative@);
    proof {
        assert(all.len() == names@.len());
    }
    if names.len() == 0 {
        let none: Vec<String> = Vec::new();
        proof {
            assert(views(none@) =~= Seq::<Seq<char>>::empty());
        }
        return Ok(none);
    }
    let n: usize = names.len() - 1;
    proof {
        assert(all.take(n as int) =~= all.drop_last());
    }
    if starts_at_root(relative) || !are_normal(&names, n) {
        return Err(ArchiveError::DirectoryNotNormalized);
    }
    Ok(chain_of(&names, n))
}

/// The directories that must exist for the directory `relative`, outermost first.
pub fn ensure_release_directory(relative: &str) -> (r: Result<Vec<String>, ArchiveError>)
    ensures
        match r {
            Ok(list) => release_directories(relative@) == Ok::<Seq<Seq<char>>, ArchiveError>(
                views(list@),
            ),
            Err(e) => release_directories(relative@) == Err::<Seq<Seq<char>>, ArchiveError>(e),
        },
{
    let names = names_of_path(relative);
    proof {
        assert(views(names@).take(names@.len() as int) =~= path_names(relative@));
    }
    if starts_at_root(relative) || !are_normal(&names, names.len()) {
        return Err(ArchiveError::DirectoryNotNormalized);
    }
    Ok(chain_of(&names, names.len()))
}

/// What becomes of a directory that must exist, by what stands at its path.
#[derive(Clone, Copy, Debug, PartialEq, Eq, Structural)]
pub enum DirectoryDecision {
    Keep,
    Create,
}

/// Keeps a real directory, creates a missing one and refuses anything else.
pub fn decide_directory(exists: bool, is_directory: bool, is_symlink: bool) -> (r: Result<
    DirectoryDecision,
    ArchiveError,
>)
    ensures
        r == (if !exists {
            Ok::<DirectoryDecision, ArchiveError>(DirectoryDecision::Create)
        } else if is_directory && !is_symlink {
            Ok::<DirectoryDecision, ArchiveError>(DirectoryDecision::Keep)
        } else {
            Err::<DirectoryDecision, ArchiveError>(ArchiveError::PathConflict)
        }),
{
    if !exists {
        return Ok(DirectoryDecision::Create);
    }
    if !is_directory || is_symlink {
        return Err(ArchiveError::PathConflict);
    }
    Ok(DirectoryDecision::Keep)
}

/// A file that is installed executable.
pub open spec fn executable_payload(relative: Seq<char>) -> bool {
    ||| !is_rooted(relative) && path_names(relative).len() > 0 && path_names(relative)[0] == "bin"@
    ||| same_path(relative, "guest-tools/vexa-guest-tools-linux-x86_64"@)
}

/// Whether a file is installed executable.
pub fn is_executable_payload(relative: &str) -> (r: bool)
    ensures
        r == executable_payload(relative@),
{
    let names = names_of_path(relative);
    proof {
        assert(path_names(relative@).len() == names@.len());
        if names@.len() > 0 {
            assert(path_names(relative@)[0] == names@[0]@);
        }
    }
    (!starts_at_root(relative) && names.len() > 0 && same(names[0].as_str(), "bin"))
        || is_same_path(relative, "guest-tools/vexa-guest-tools-linux-x86_64")
}

/// Permission bits of an extracted file.
pub fn file_mode(executable: bool) -> (r: u32)
    ensures
        r == (if executable {
            0o755u32
        } else {
            0o644u32
        }),
{
    if executable {
        0o755
    } else {
        0o644
    }
}

/// The VERSION text without the line break that ends it.
pub open spec fn version_line(s: Seq<char>) -> Seq<char> {
    let n = s.len();
    if n >= 2 && s[n - 2] == '\r' && s[n - 1] == '\n' {
        s.take(n - 2)
    } else if n >= 1 && s[n - 1] == '\n' {
        s.take(n - 1)
    } else {
        s
    }
}

/// What a VERSION file states.
pub open spec fn version_file(bytes: Seq<u8>) -> Result<Seq<char>, ArchiveError> {
    if !valid_utf8(bytes) {
        Err(ArchiveError::VersionNotUtf8)
    } else {
        let line = version_line(decode_utf8(bytes));
        if byte_len(line) <= MAX_VERSION_BYTES && is_semver(line) {
            Ok(line)
        } else {
            Err(ArchiveError::VersionNotSemantic)
        }
    }
}

/// The version that a VERSION file states.
pub fn parse_version_file(bytes: &[u8]) -> (r: Result<String, ArchiveError>)
    ensures
        match r {
            Ok(version) => version_file(bytes@) == Ok::<Seq<char>, ArchiveError>(version@),
            Err(e) => version_file(bytes@) == Err::<Seq<char>, ArchiveError>(e),
        },
{
    let text = match core::str::from_utf8(bytes) {
        Ok(text) => text,
        Err(_) => {
            return Err(ArchiveError::VersionNotUtf8);
        },
    };
    let v = chars_of(text);
    let n: usize = v.len();
    let end: usize = if n >= 2 && v[n - 2] == '\r' && v[n - 1] == '\n' {
        n - 2
    } else if n >= 1 && v[n - 1] == '\n' {
        n - 1
    } else {
        n
    };
    let line = text_of(&v, 0, end);
    proof {
        assert(v@.subrange(0, end as int) =~= v@.take(end as int));
        assert(v@.take(n as int) =~= v@);
    }
    if byte_length(line.as_str()) as u64 > MAX_VERSION_BYTES {
        return Err(ArchiveError::VersionNotSemantic);
    }
    match validate_semver(line.as_str()) {
        Ok(()) => Ok(line),
        Err(_) => Err(ArchiveError::VersionNotSemantic),
    }
}

/// How far the bytes of one file have been copied.
pub struct FileCopy {
    pub expected: u64,
    pub copied: u64,
    pub captured: Option<Vec<u8>>,
}

impl FileCopy {
    /// Never more than the declared size was copied.
    pub open spec fn wf(&self) -> bool {
        self.copied <= self.expected
    }

    /// The copy of a file of which nothing was read yet.
    pub fn begin(expected: u64, capture: bool) -> (r: FileCopy)
        ensures
            r.wf(),
            r.expected == expected,
            r.copied == 0,
            view_bytes(r.captured) == (if capture {
                Some(Seq::<u8>::empty())
            } else {
                None
            }),
    {
        let captured: Option<Vec<u8>> = if capture {
            Some(Vec::new())
        } else {
            None
        };
        FileCopy { expected, copied: 0, captured }
    }

    /// How many bytes to ask for next; none once the declared size was copied.
    pub fn wanted(&self) -> (n: usize)
        requires
            self.wf(),
        ensures
            n == (if self.expected - self.copied < COPY_BUFFER_BYTES {
                self.expected - self.copied
            } else {
                COPY_BUFFER_BYTES as int
            }),
            n == 0 <==> self.copied == self.expected,
    {
        let remaining: u64 = self.expected - self.copied;
        if remaining < COPY_BUFFER_BYTES as u64 {
            remaining as usize
        } else {
            COPY_BUFFER_BYTES
        }
    }

    /// Accounts for a chunk that was read and written; an empty one means that the entry
    /// ended early.
    pub fn accept(&mut self, chunk: &[u8]) -> (r: Result<(), ArchiveError>)
        requires
            old(self).wf(),
            old(self).copied < old(self).expected,
        ensures
            final(self).wf(),
            final(self).expected == old(self).expected,
            r == (if chunk@.len() == 0 {
                Err::<(), ArchiveError>(ArchiveError::EntryEnded)
            } else if old(self).copied + chunk@.len() > old(self).expected {
                Err::<(), ArchiveError>(ArchiveError::EntryOverrun)
            } else {
                Ok::<(), ArchiveError>(())
            }),
            r is Ok ==> final(self).copied == old(self).copied + chunk@.len() && view_bytes(
                final(self).captured,
            ) == match view_bytes(old(self).captured) {
                Some(bytes) => Some(bytes + chunk@),
                None => None,
            },
            r is Err ==> final(self).copied == old(self).copied && view_bytes(final(self).captured)
                == view_bytes(old(self).captured),
    {
        let n: usize = chunk.len();
        if n == 0 {
            return Err(ArchiveError::EntryEnded);
        }
        if n as u64 > self.expected - self.copied {
            return Err(ArchiveError::EntryOverrun);
        }
        self.copied = self.copied + n as u64;
        if self.captured.is_some() {
            let mut bytes: Vec<u8> = match &self.captured {
                Some(bytes) => copy_bytes(bytes),
                None => Vec::new(),
            };
            let ghost before = bytes@;
            let mut i: usize = 0;
            while i < n
                invariant
                    i <= n,
                    n == chunk@.len(),
                    bytes@ == before + chunk@.take(i as int),
                decreases n - i,
            {
                bytes.push(chunk[i]);
                proof {
                    assert(chunk@.take(i as int + 1) =~= chunk@.take(i as int).push(
                        chunk@[i as int],
                    ));
                    assert(before + chunk@.take(i as int + 1) =~= (before + chunk@.take(
                        i as int,
                    )).push(chunk@[i as int]));
                }
                i = i + 1;
            }
            proof {
                assert(chunk@.take(n as int) =~= chunk@);
            }
            self.captured = Some(bytes);
        }
        Ok(())
    }

    /// What was captured, once the entry held no byte beyond its declared size.
    pub fn finish(self, overrun: usize) -> (r: Result<Option<Vec<u8>>, ArchiveError>)
        requires
            self.wf(),
            self.copied == self.expected,
        ensures
            r is Ok <==> overrun == 0,
            r matches Ok(captured) ==> view_bytes(captured) == view_bytes(self.captured),
            r matches Err(e) ==> e == ArchiveError::EntryOverrun,
    {
        if overrun != 0 {
            return Err(ArchiveError::EntryOverrun);
        }
        Ok(self.captured)
    }
}

/// Accounts for bytes behind the last entry: only zeros, and not too many.
pub fn drain_and_validate_gzip(trailing: u64, chunk: &[u8]) -> (r: Result<u64, ArchiveError>)
    requires
        trailing <= MAX_TAR_PADDING_BYTES,
    ensures
        r == (if trailing + chunk@.len() > MAX_TAR_PADDING_BYTES || exists|i: int|
            0 <= i < chunk@.len() && #[trigger] chunk@[i] != 0 {
            Err::<u64, ArchiveError>(ArchiveError::TrailingData)
        } else {
            Ok::<u64, ArchiveError>((trailing + chunk@.len()) as u64)
        }),
{
    let n: usize = chunk.len();
    if n as u64 > MAX_TAR_PADDING_BYTES - trailing {
        return Err(ArchiveError::TrailingData);
    }
    let mut i: usize = 0;
    while i < n
        invariant
            i <= n,
            n == chunk@.len(),
            forall|j: int| 0 <= j < i ==> #[trigger] chunk@[j] == 0,
        decreases n - i,
    {
        if chunk[i] != 0 {
            return Err(ArchiveError::TrailingData);
        }
        i = i + 1;
    }
    Ok(trailing + n as u64)
}

/// A name that a path of a release can have.
pub open spec fn is_fit_name(s: Seq<char>) -> bool {
    &&& s.len() > 0
    &&& s != "."@ && s != ".."@
    &&& byte_len(s) <= 255
    &&& forall|i: int| 0 <= i < s.len() ==> #[trigger] s[i] != '\\' && !is_control(s[i])
}

/// Where a path of a release can lie: it is one of the three files at the top, or it begins
/// with one of the directories at the top; of these only a directory can be there alone.
pub open spec fn is_fit_place(names: Seq<Seq<char>>, is_directory: bool) -> bool {
    ||| names.len() == 1 && !is_directory && (names[0] == "VERSION"@ || names[0] == "README.md"@
        || names[0] == "LICENSE"@)
    ||| (names.len() > 1 || is_directory) && (names[0] == "bin"@ || names[0] == "templates"@
        || names[0] == "static"@ || names[0] == "migrations"@ || names[0] == "deploy"@ || names[0]
        == "docs"@ || names[0] == "guest-tools"@)
}

proof fn no_first_fault(components: Seq<Seq<char>>)
    ensures
        first_fault(components) is None <==> forall|p: int|
            0 <= p < components.len() ==> (#[trigger] components[p]) != "."@ && components[p]
                != ".."@ && byte_len(components[p]) <= 255,
    decreases components.len(),
{
    if components.len() > 0 {
        let front = components.drop_last();
        let n = components.len() - 1;
        no_first_fault(front);
        assert(components[n] == components.last());
        if first_fault(components) is None {
            assert forall|p: int| 0 <= p < components.len() implies (#[trigger] components[p])
                != "."@ && components[p] != ".."@ && byte_len(components[p]) <= 255 by {
                if p < n {
                    assert(front[p] == components[p]);
                }
            }
        }
        if forall|p: int|
            0 <= p < components.len() ==> (#[trigger] components[p]) != "."@ && components[p]
                != ".."@ && byte_len(components[p]) <= 255 {
            assert forall|p: int| 0 <= p < front.len() implies (#[trigger] front[p]) != "."@
                && front[p] != ".."@ && byte_len(front[p]) <= 255 by {
                assert(front[p] == components[p]);
            }
        }
    }
}

proof fn names_at_the_top()
    ensures
        !is_top_directory("VERSION"@),
        !is_top_directory("README.md"@),
        !is_top_directory("LICENSE"@),
{
    reveal_strlit("VERSION");
    reveal_strlit("README.md");
    reveal_strlit("LICENSE");
    reveal_strlit("bin");
    reveal_strlit("templates");
    reveal_strlit("static");
    reveal_strlit("migrations");
    reveal_strlit("deploy");
    reveal_strlit("docs");
    reveal_strlit("guest-tools");
    assert("VERSION"@[0] == 'V' && "README.md"@[0] == 'R' && "LICENSE"@[0] == 'L' && "bin"@[0]
        == 'b' && "templates"@[0] == 't' && "static"@[0] == 's' && "migrations"@[0] == 'm'
        && "deploy"@[0] == 'd' && "docs"@[0] == 'd' && "guest-tools"@[0] == 'g');
}

/// A path of an archive is accepted exactly where it is a few fit names in a fit place, and is
/// then kept as it is; a directory may end with a slash, which is dropped.
pub proof fn accepted_archive_paths(
    raw: Seq<u8>,
    names: Seq<Seq<char>>,
    is_directory: bool,
    slash: bool,
)
    requires
        1 <= raw.len() <= 1024,
        valid_utf8(raw),
        names.len() >= 1,
        forall|i: int| 0 <= i < names.len() ==> !(#[trigger] names[i]).contains('/'),
        names.last().len() > 0,
        slash ==> is_directory,
        decode_utf8(raw) == (if slash {
            joined(names, '/').push('/')
        } else {
            joined(names, '/')
        }),
    ensures
        archive_path(raw, is_directory) is Ok <==> names.len() <= 48 && (forall|i: int|
            0 <= i < names.len() ==> is_fit_name(#[trigger] names[i])) && is_fit_place(
            names,
            is_directory,
        ),
        archive_path(raw, is_directory) is Ok ==> archive_path(raw, is_directory)->Ok_0 == joined(
            names,
            '/',
        ),
{
    let text = decode_utf8(raw);
    let name = joined(names, '/');
    joining_is_undone_by_splitting(names, '/');
    joined_ends_with_its_last(names, '/');
    assert(names.last()[names.last().len() - 1] != '/') by {
        let n = names.len() - 1;
        assert(names[n] == names.last());
        if names.last()[names.last().len() - 1] == '/' {
            assert(names[n].contains('/'));
        }
    }
    assert(name.push('/').drop_last() =~= name);
    assert(entry_name(text, is_directory) == name);
    no_first_fault(names);
    names_at_the_top();
    if archive_path(raw, is_directory) is Ok {
        assert forall|i: int| 0 <= i < names.len() implies is_fit_name(#[trigger] names[i]) by {
            assert forall|k: int| 0 <= k < names[i].len() implies #[trigger] names[i][k] != '\\'
                && !is_control(names[i][k]) by {
                let j = place_in_joined(names, '/', i, k);
                assert(text[j] == names[i][k]);
            }
        }
    }
    if (forall|i: int| 0 <= i < names.len() ==> is_fit_name(#[trigger] names[i])) && names.len()
        <= 48 {
        assert(is_fit_name(names[0]));
        assert(!unsafe_text(text)) by {
            first_in_joined(names, '/');
            assert(names[0][0] != '/') by {
                if names[0][0] == '/' {
                    assert(names[0].contains('/'));
                }
            }
            assert forall|j: int| 0 <= j < text.len() implies #[trigger] text[j] != '\\'
                && !is_control(text[j]) by {
                if j < name.len() {
                    assert(text[j] == name[j]);
                    from_joined(names, '/', j);
                    if name[j] != '/' {
                        let (i, k) = choose|i: int, k: int|
                            0 <= i < names.len() && 0 <= k < names[i].len() && #[trigger] names[i][k]
                                == name[j];
                        assert(is_fit_name(names[i]));
                    }
                }
            }
        }
        assert forall|p: int| 0 <= p < names.len() implies (#[trigger] names[p]).len() > 0 by {
            assert(is_fit_name(names[p]));
        }
        assert forall|p: int| 0 <= p < names.len() implies (#[trigger] names[p]) != "."@ && names[p]
            != ".."@ && byte_len(names[p]) <= 255 by {
            assert(is_fit_name(names[p]));
        }
    }
}

proof fn joined_ends_with_its_last(names: Seq<Seq<char>>, sep: char)
    requires
        names.len() >= 1,
        names.last().len() > 0,
    ensures
        joined(names, sep).len() > 0,
        joined(names, sep).last() == names.last().last(),
{
}

proof fn first_in_joined(names: Seq<Seq<char>>, sep: char)
    requires
        names.len() >= 1,
        names[0].len() > 0,
    ensures
        joined(names, sep).len() > 0,
        joined(names, sep)[0] == names[0][0],
    decreases names.len(),
{
    if names.len() > 1 {
        assert(names.drop_last()[0] == names[0]);
        first_in_joined(names.drop_last(), sep);
    }
}

proof fn place_in_joined(names: Seq<Seq<char>>, sep: char, i: int, k: int) -> (j: int)
    requires
        0 <= i < names.len(),
        0 <= k < names[i].len(),
    ensures
        0 <= j < joined(names, sep).len(),
        joined(names, sep)[j] == names[i][k],
    decreases names.len(),
{
    if names.len() == 1 {
        k
    } else {
        let front = names.drop_last();
        let f = joined(front, sep);
        if i < front.len() {
            assert(front[i] == names[i]);
            let j = place_in_joined(front, sep, i, k);
            assert(joined(names, sep)[j] == f[j]);
            j
        } else {
            assert(names[i] == names.last());
            let j = f.len() + 1 + k;
            assert(joined(names, sep)[j] == names.last()[k]);
            j
        }
    }
}

proof fn from_joined(names: Seq<Seq<char>>, sep: char, j: int)
    requires
        0 <= j < joined(names, sep).len(),
    ensures
        joined(names, sep)[j] != sep ==> exists|i: int, k: int|
            0 <= i < names.len() && 0 <= k < names[i].len() && #[trigger] names[i][k] == joined(
                names,
                sep,
            )[j],
    decreases names.len(),
{
    let all = joined(names, sep);
    if names.len() == 1 {
        assert(names[0][j] == all[j]);
    } else if names.len() > 1 {
        let front = names.drop_last();
        let f = joined(front, sep);
        if j < f.len() {
            from_joined(front, sep, j);
            assert(all[j] == f[j]);
            if f[j] != sep {
                let (i, k) = choose|i: int, k: int|
                    0 <= i < front.len() && 0 <= k < front[i].len() && #[trigger] front[i][k]
                        == f[j];
                assert(names[i][k] == all[j]);
            }
        } else if j > f.len() {
            let k = j - f.len() - 1;
            assert(names[names.len() - 1][k] == all[j]);
        }
    }
}

/// An archive is what was signed exactly where it has the signed size and the signed digest,
/// and begins as a gzip member of the one known kind.
pub proof fn a_verified_archive_is_what_was_signed(
    data: Seq<u8>,
    size: u64,
    sha256: Seq<char>,
    magic: Seq<u8>,
)
    ensures
        verified_archive(data, size, sha256, magic) is Ok <==> data.len() == size
            && crate::digest::hex(crate::digest::sha256(data)) == sha256 && magic.len() == 3
            && magic[0] == 0x1f && magic[1] == 0x8b && magic[2] == 0x08,
        expected_archive(size, sha256) is Ok <==> 1 <= size <= 1073741824 && is_sha256_text(sha256),
{
    let m = seq![0x1fu8, 0x8b, 0x08];
    if magic.len() == 3 && magic[0] == 0x1f && magic[1] == 0x8b && magic[2] == 0x08 {
        assert(magic =~= m);
    }
    if magic == m {
        assert(magic.len() == 3 && magic[0] == 0x1f && magic[1] == 0x8b && magic[2] == 0x08);
    }
}

/// A release can be put where its destination is a rooted path that never goes up, is not
/// there yet, and lies in a real directory that nobody else can write to.
pub proof fn where_a_release_can_be_put(path: Seq<char>, facts: DestinationFacts)
    ensures
        destination_verdict(path, facts) is Ok <==> is_rooted(path) && (forall|p: int|
            0 <= p < split_spec(path, '/').len() ==> (#[trigger] split_spec(path, '/')[p]) != ".."@)
            && path_names(path).len() > 0 && facts.parent_is_directory && !facts.parent_is_symlink
            && facts.parent_is_canonical && facts.parent_mode & 0o022 == 0 && !facts.exists,
{
}

/// The version file holds a version, which one line end may follow.
pub proof fn what_the_version_file_holds(bytes: Seq<u8>, line: Seq<char>)
    requires
        valid_utf8(bytes),
        decode_utf8(bytes) == line || decode_utf8(bytes) == line.push('\n') || decode_utf8(bytes)
            == line.push('\r').push('\n'),
        line.len() > 0 ==> line.last() != '\n' && line.last() != '\r',
    ensures
        version_file(bytes) == (if is_semver(line) && byte_len(line) <= 128 {
            Ok::<Seq<char>, ArchiveError>(line)
        } else {
            Err::<Seq<char>, ArchiveError>(ArchiveError::VersionNotSemantic)
        }),
{
    let s = decode_utf8(bytes);
    assert(line.push('\n').take(line.len() as int) =~= line);
    assert(line.push('\r').push('\n').take(line.len() as int) =~= line);
    if s == line.push('\n') && line.len() > 0 {
        assert(s[s.len() - 2] == line.last());
    }
    if s == line && line.len() > 0 {
        assert(s[s.len() - 1] == line.last());
    }
}

/// The directories of a path are its beginnings, the shortest first.
pub proof fn directories_are_beginnings(names: Seq<Seq<char>>, i: int)
    requires
        0 <= i < names.len(),
    ensures
        directory_chain(names).len() == names.len(),
        directory_chain(names)[i] == joined_names(names.take(i + 1)),
    decreases names.len(),
{
    let front = names.drop_last();
    if i < front.len() {
        directories_are_beginnings(front, i);
        assert(front.take(i + 1) =~= names.take(i + 1));
    } else {
        assert(names.take(i + 1) =~= names);
        if front.len() > 0 {
            directories_are_beginnings(front, 0);
        } else {
            assert(directory_chain(front) =~= Seq::<Seq<char>>::empty());
        }
    }
}

} // verus!
