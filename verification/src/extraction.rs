//! The state of one archive extraction: what was seen, what was written, and what every
//! next entry is allowed to do.

use vstd::prelude::*;

use crate::archive::{
    archive_error_text, archive_path, ensure_parent_directories, ensure_release_directory,
    executable_payload, is_executable_payload, is_release_path, is_required, is_required_file,
    parent_directories, parse_version_file, release_directories, required_file, required_file_spec,
    validate_archive_path, version_file, ArchiveError, MAX_ENTRY_COUNT, MAX_FILE_BYTES,
    MAX_TOTAL_FILE_BYTES, MAX_VERSION_BYTES, REQUIRED_FILE_COUNT,
};
use crate::paths::{is_rooted, names_of_path, path_names, starts_at_root};
use crate::text::{
    copy_bytes, copy_list, join2, join3, list_contains, lists, quoted, quoted_text, same,
    view_bytes, view_str, views,
};

verus! {

broadcast use {vstd::string::group_string_axioms, vstd::seq_lib::group_to_multiset_ensures};

/// Why an extraction was refused; where one path is to blame, it is named.
#[derive(Clone, Debug, PartialEq, Eq)]
pub enum ExtractionError {
    Archive(ArchiveError),
    DuplicatePath(String),
    DirectoryData(String),
    FileLimit(String),
    EmptyRequiredFile(String),
    MissingRequiredFile(String),
}

/// Why an extraction was refused, with paths as character sequences.
pub enum ExtractionErrorView {
    Archive(ArchiveError),
    DuplicatePath(Seq<char>),
    DirectoryData(Seq<char>),
    FileLimit(Seq<char>),
    EmptyRequiredFile(Seq<char>),
    MissingRequiredFile(Seq<char>),
}

impl View for ExtractionError {
    type V = ExtractionErrorView;

    open spec fn view(&self) -> ExtractionErrorView {
        match *self {
            ExtractionError::Archive(e) => ExtractionErrorView::Archive(e),
            ExtractionError::DuplicatePath(path) => ExtractionErrorView::DuplicatePath(path@),
            ExtractionError::DirectoryData(path) => ExtractionErrorView::DirectoryData(path@),
            ExtractionError::FileLimit(path) => ExtractionErrorView::FileLimit(path@),
            ExtractionError::EmptyRequiredFile(path) => ExtractionErrorView::EmptyRequiredFile(
                path@,
            ),
            ExtractionError::MissingRequiredFile(path) => ExtractionErrorView::MissingRequiredFile(
                path@,
            ),
        }
    }
}

/// The path that a refusal names.
pub open spec fn blamed_path(e: ExtractionErrorView) -> Option<Seq<char>> {
    match e {
        ExtractionErrorView::Archive(_) => None,
        ExtractionErrorView::DuplicatePath(path) => Some(path),
        ExtractionErrorView::DirectoryData(path) => Some(path),
        ExtractionErrorView::FileLimit(path) => Some(path),
        ExtractionErrorView::EmptyRequiredFile(path) => Some(path),
        ExtractionErrorView::MissingRequiredFile(path) => Some(path),
    }
}

/// The text of each refusal, where `name` stands for the path.
pub open spec fn extraction_error_text(e: ExtractionErrorView, name: Seq<char>) -> Seq<char> {
    match e {
        ExtractionErrorView::Archive(e) => archive_error_text(e),
        ExtractionErrorView::DuplicatePath(_) => "release archive contains duplicate path "@ + name,
        ExtractionErrorView::DirectoryData(_) => "release archive directory "@ + name
            + " has file data"@,
        ExtractionErrorView::FileLimit(_) => "release archive file "@ + name
            + " exceeds its size limit"@,
        ExtractionErrorView::EmptyRequiredFile(_) => "required release file "@ + name
            + " is empty"@,
        ExtractionErrorView::MissingRequiredFile(_) => "release archive is missing required file "@
            + name,
    }
}

impl ExtractionError {
    /// The path that the refusal names.
    pub fn path(&self) -> (r: Option<&str>)
        ensures
            view_str(r) == blamed_path(self@),
    {
        match self {
            ExtractionError::Archive(_) => None,
            ExtractionError::DuplicatePath(path) => Some(path.as_str()),
            ExtractionError::DirectoryData(path) => Some(path.as_str()),
            ExtractionError::FileLimit(path) => Some(path.as_str()),
            ExtractionError::EmptyRequiredFile(path) => Some(path.as_str()),
            ExtractionError::MissingRequiredFile(path) => Some(path.as_str()),
        }
    }

    /// The text shown to an operator, where `name` stands for the path.
    pub fn message_with(&self, name: &str) -> (r: String)
        ensures
            r@ == extraction_error_text(self@, name@),
    {
        match self {
            ExtractionError::Archive(e) => e.message().to_owned(),
            ExtractionError::DuplicatePath(_) => join2(
                "release archive contains duplicate path ",
                name,
            ),
            ExtractionError::DirectoryData(_) => join3(
                "release archive directory ",
                name,
                " has file data",
            ),
            ExtractionError::FileLimit(_) => join3(
                "release archive file ",
                name,
                " exceeds its size limit",
            ),
            ExtractionError::EmptyRequiredFile(_) => join3(
                "required release file ",
                name,
                " is empty",
            ),
            ExtractionError::MissingRequiredFile(_) => join2(
                "release archive is missing required file ",
                name,
            ),
        }
    }

    /// The text shown to an operator, with the path in quotes.
    pub fn message(&self) -> (r: String)
        ensures
            r@ == extraction_error_text(
                self@,
                match blamed_path(self@) {
                    Some(path) => quoted_text(path),
                    None => Seq::empty(),
                },
            ),
    {
        match self.path() {
            Some(path) => {
                let name = quoted(path);
                self.message_with(name.as_str())
            },
            None => {
                proof {
                    reveal_strlit("");
                    assert(""@ =~= Seq::<char>::empty());
                }
                self.message_with("")
            },
        }
    }
}

/// The type of an archive entry.
#[derive(Clone, Copy, Debug, PartialEq, Eq, Structural)]
pub enum EntryKind {
    File,
    Directory,
    Other,
}

/// One entry of the tar stream, as its header states it.
#[derive(Debug, PartialEq, Eq)]
pub struct ArchiveEntry {
    /// Whether the header could be read at all.
    pub readable: bool,
    pub kind: EntryKind,
    pub path: Vec<u8>,
    /// The size that the header declares, where it is a number.
    pub size: Option<u64>,
}

/// What a [`ArchiveEntry`] holds, with texts as character sequences.
#[verifier::ext_equal]
pub struct ArchiveEntryView {
    pub readable: bool,
    pub kind: EntryKind,
    pub path: Seq<u8>,
    pub size: Option<u64>,
}

impl View for ArchiveEntry {
    type V = ArchiveEntryView;

    open spec fn view(&self) -> ArchiveEntryView {
        ArchiveEntryView {
            readable: self.readable,
            kind: self.kind,
            path: self.path@,
            size: self.size,
        }
    }
}

impl Clone for ArchiveEntry {
    fn clone(&self) -> (r: ArchiveEntry)
        ensures
            r@ == self@,
    {
        ArchiveEntry {
            readable: self.readable,
            kind: self.kind,
            path: copy_bytes(&self.path),
            size: self.size,
        }
    }
}

/// What may be done for one entry.
#[derive(Debug, PartialEq, Eq)]
pub struct EntryPlan {
    pub path: String,
    pub is_directory: bool,
    /// Directories that must exist first, outermost first.
    pub directories: Vec<String>,
    pub size: u64,
    pub executable: bool,
    /// Whether the bytes of the file are kept for the version check.
    pub capture: bool,
}

/// What a [`EntryPlan`] holds, with texts as character sequences.
#[verifier::ext_equal]
pub struct EntryPlanView {
    pub path: Seq<char>,
    pub is_directory: bool,
    pub directories: Seq<Seq<char>>,
    pub size: u64,
    pub executable: bool,
    pub capture: bool,
}

impl View for EntryPlan {
    type V = EntryPlanView;

    open spec fn view(&self) -> EntryPlanView {
        EntryPlanView {
            path: self.path@,
            is_directory: self.is_directory,
            directories: views(self.directories@),
            size: self.size,
            executable: self.executable,
            capture: self.capture,
        }
    }
}

impl Clone for EntryPlan {
    fn clone(&self) -> (r: EntryPlan)
        ensures
            r@ == self@,
    {
        EntryPlan {
            path: self.path.clone(),
            is_directory: self.is_directory,
            directories: copy_list(&self.directories),
            size: self.size,
            executable: self.executable,
            capture: self.capture,
        }
    }
}

/// The metadata of a release that was extracted completely.
#[derive(Debug, PartialEq, Eq)]
pub struct ExtractedRelease {
    pub destination: String,
    pub version: String,
    pub entry_count: usize,
    pub unpacked_bytes: u64,
}

/// What a [`ExtractedRelease`] holds, with texts as character sequences.
#[verifier::ext_equal]
pub struct ExtractedReleaseView {
    pub destination: Seq<char>,
    pub version: Seq<char>,
    pub entry_count: usize,
    pub unpacked_bytes: u64,
}

impl View for ExtractedRelease {
    type V = ExtractedReleaseView;

    open spec fn view(&self) -> ExtractedReleaseView {
        ExtractedReleaseView {
            destination: self.destination@,
            version: self.version@,
            entry_count: self.entry_count,
            unpacked_bytes: self.unpacked_bytes,
        }
    }
}

impl Clone for ExtractedRelease {
    fn clone(&self) -> (r: ExtractedRelease)
        ensures
            r@ == self@,
    {
        ExtractedRelease {
            destination: self.destination.clone(),
            version: self.version.clone(),
            entry_count: self.entry_count,
            unpacked_bytes: self.unpacked_bytes,
        }
    }
}

/// The state of one archive extraction.
pub struct Extraction {
    pub seen: Vec<String>,
    pub files: Vec<String>,
    pub directories: Vec<String>,
    pub entry_count: usize,
    pub unpacked_bytes: u64,
    pub version_bytes: Option<Vec<u8>>,
}

/// What an [`Extraction`] holds.
#[verifier::ext_equal]
pub struct ExtractionView {
    pub seen: Seq<Seq<char>>,
    pub files: Seq<Seq<char>>,
    pub directories: Seq<Seq<char>>,
    pub entry_count: usize,
    pub unpacked_bytes: u64,
    pub version_bytes: Option<Seq<u8>>,
}

impl View for Extraction {
    type V = ExtractionView;

    open spec fn view(&self) -> ExtractionView {
        ExtractionView {
            seen: views(self.seen@),
            files: views(self.files@),
            directories: views(self.directories@),
            entry_count: self.entry_count,
            unpacked_bytes: self.unpacked_bytes,
            version_bytes: view_bytes(self.version_bytes),
        }
    }
}

impl ExtractionView {
    /// Every path that was admitted stays inside the release and occurs once, what was
    /// written was admitted, and no limit is exceeded.
    pub open spec fn wf(self) -> bool {
        &&& self.entry_count <= MAX_ENTRY_COUNT
        &&& self.unpacked_bytes <= MAX_TOTAL_FILE_BYTES
        &&& self.seen.len() == self.entry_count
        &&& self.seen.no_duplicates()
        &&& forall|i: int| 0 <= i < self.seen.len() ==> is_release_path(#[trigger] self.seen[i])
        &&& forall|i: int|
            0 <= i < self.files.len() ==> self.seen.contains(#[trigger] self.files[i])
        &&& self.directories.no_duplicates()
    }
}

/// `set` with the texts of `more` that it lacks, in order.
pub open spec fn with_all(set: Seq<Seq<char>>, more: Seq<Seq<char>>) -> Seq<Seq<char>>
    decreases more.len(),
{
    if more.len() == 0 {
        set
    } else {
        let front = with_all(set, more.drop_last());
        if front.contains(more.last()) {
            front
        } else {
            front.push(more.last())
        }
    }
}

/// `with_all` keeps what was there, adds what was asked for and nothing else, and makes
/// no duplicate.
pub proof fn with_all_is_union(set: Seq<Seq<char>>, more: Seq<Seq<char>>)
    requires
        set.no_duplicates(),
    ensures
        with_all(set, more).no_duplicates(),
        forall|x: Seq<char>|
            #[trigger] with_all(set, more).contains(x) <==> set.contains(x) || more.contains(x),
    decreases more.len(),
{
    if more.len() > 0 {
        let front = with_all(set, more.drop_last());
        with_all_is_union(set, more.drop_last());
        assert(more =~= more.drop_last().push(more.last()));
        assert forall|x: Seq<char>| #[trigger] with_all(set, more).contains(x) <==> set.contains(x)
            || more.contains(x) by {
            assert(more.contains(x) <==> more.drop_last().contains(x) || x == more.last()) by {
                if more.contains(x) {
                    let k = choose|k: int| 0 <= k < more.len() && more[k] == x;
                    if k < more.len() - 1 {
                        assert(more.drop_last()[k] == x);
                    }
                }
                if more.drop_last().contains(x) {
                    let k = choose|k: int| 0 <= k < more.drop_last().len() && more.drop_last()[k]
                        == x;
                    assert(more[k] == x);
                }
                assert(more[more.len() - 1] == more.last());
            }
            if !front.contains(more.last()) {
                let whole = front.push(more.last());
                assert(whole.contains(x) <==> front.contains(x) || x == more.last()) by {
                    if front.contains(x) {
                        let k = choose|k: int| 0 <= k < front.len() && front[k] == x;
                        assert(whole[k] == x);
                    }
                    assert(whole[whole.len() - 1] == more.last());
                }
            }
        }
    } else {
        assert(!more.contains(seq![])) by {}
    }
}

fn insert_all(set: &mut Vec<String>, more: &Vec<String>)
    ensures
        views(final(set)@) == with_all(views(old(set)@), views(more@)),
{
    let ghost start = views(set@);
    let ghost all = views(more@);
    let mut i: usize = 0;
    proof {
        assert(all.take(0) =~= Seq::<Seq<char>>::empty());
    }
    while i < more.len()
        invariant
            i <= more@.len(),
            all == views(more@),
            views(set@) == with_all(start, all.take(i as int)),
        decreases more@.len() - i,
    {
        proof {
            assert(all.take(i as int + 1).drop_last() =~= all.take(i as int));
            assert(all[i as int] == more@[i as int]@);
            lists_is_contains(set@, more@[i as int]@);
        }
        if !list_contains(set, more[i].as_str()) {
            let ghost before = set@;
            set.push(more[i].clone());
            proof {
                assert(views(set@) =~= views(before).push(more@[i as int]@));
            }
        }
        i = i + 1;
    }
    proof {
        assert(all.take(all.len() as int) =~= all);
    }
}

/// A list holds a text exactly where its characters are among the characters held.
pub proof fn lists_is_contains(list: Seq<String>, x: Seq<char>)
    ensures
        lists(list, x) == views(list).contains(x),
{
    if lists(list, x) {
        let i = choose|i: int| 0 <= i < list.len() && (#[trigger] list[i])@ == x;
        assert(views(list)[i] == x);
    }
    if views(list).contains(x) {
        let i = choose|i: int| 0 <= i < views(list).len() && views(list)[i] == x;
        assert(list[i]@ == x);
    }
}

/// What may be done for the next entry, or why the archive is refused.
pub open spec fn entry_verdict(s: ExtractionView, e: ArchiveEntryView) -> Result<
    EntryPlanView,
    ExtractionErrorView,
> {
    let is_directory = e.kind == EntryKind::Directory;
    if s.entry_count + 1 > MAX_ENTRY_COUNT {
        Err(ExtractionErrorView::Archive(ArchiveError::TooManyEntries))
    } else if !e.readable {
        Err(ExtractionErrorView::Archive(ArchiveError::InvalidEntry))
    } else if e.kind == EntryKind::Other {
        Err(ExtractionErrorView::Archive(ArchiveError::NonRegularEntry))
    } else {
        match archive_path(e.path, is_directory) {
            Err(x) => Err(ExtractionErrorView::Archive(x)),
            Ok(path) => if s.seen.contains(path) {
                Err(ExtractionErrorView::DuplicatePath(path))
            } else {
                match e.size {
                    None => Err(ExtractionErrorView::Archive(ArchiveError::InvalidSize)),
                    Some(size) => if is_directory {
                        if size != 0 {
                            Err(ExtractionErrorView::DirectoryData(path))
                        } else {
                            Ok(
                                EntryPlanView {
                                    path,
                                    is_directory: true,
                                    directories: release_directories(path)->Ok_0,
                                    size: 0,
                                    executable: false,
                                    capture: false,
                                },
                            )
                        }
                    } else if size > MAX_FILE_BYTES {
                        Err(ExtractionErrorView::FileLimit(path))
                    } else if size == 0 && is_required(path) {
                        Err(ExtractionErrorView::EmptyRequiredFile(path))
                    } else if path == "VERSION"@ && size > MAX_VERSION_BYTES {
                        Err(ExtractionErrorView::Archive(ArchiveError::VersionLimit))
                    } else if s.unpacked_bytes + size > MAX_TOTAL_FILE_BYTES {
                        Err(ExtractionErrorView::Archive(ArchiveError::TotalLimit))
                    } else {
                        Ok(
                            EntryPlanView {
                                path,
                                is_directory: false,
                                directories: parent_directories(path)->Ok_0,
                                size,
                                executable: executable_payload(path),
                                capture: path == "VERSION"@,
                            },
                        )
                    },
                }
            },
        }
    }
}

/// The state after an entry was admitted.
pub open spec fn admitted(s: ExtractionView, plan: EntryPlanView) -> ExtractionView {
    ExtractionView {
        seen: s.seen.push(plan.path),
        directories: with_all(s.directories, plan.directories),
        entry_count: (s.entry_count + 1) as usize,
        unpacked_bytes: (s.unpacked_bytes + plan.size) as u64,
        ..s
    }
}

/// The state after the file of an admitted entry was written.
pub open spec fn recorded(
    s: ExtractionView,
    plan: EntryPlanView,
    captured: Option<Seq<u8>>,
) -> ExtractionView {
    ExtractionView {
        files: s.files.push(plan.path),
        version_bytes: if plan.capture {
            captured
        } else {
            s.version_bytes
        },
        ..s
    }
}

/// Every file that a release must hold was written.
pub open spec fn complete(s: ExtractionView) -> bool {
    forall|i: int|
        0 <= i < REQUIRED_FILE_COUNT ==> s.files.contains(#[trigger] required_file_spec(i))
}

/// The number of the first required file, from number `from` on, that was not written.
pub open spec fn first_missing(files: Seq<Seq<char>>, from: int) -> int
    decreases REQUIRED_FILE_COUNT - from,
{
    if from >= REQUIRED_FILE_COUNT || !files.contains(required_file_spec(from)) {
        from
    } else {
        first_missing(files, from + 1)
    }
}

/// The release that an extraction ends with, or why it is refused.
pub open spec fn extraction_result(s: ExtractionView, destination: Seq<char>) -> Result<
    ExtractedReleaseView,
    ExtractionErrorView,
> {
    if !complete(s) {
        Err(
            ExtractionErrorView::MissingRequiredFile(
                required_file_spec(first_missing(s.files, 0)),
            ),
        )
    } else {
        match s.version_bytes {
            None => Err(ExtractionErrorView::Archive(ArchiveError::VersionNotCaptured)),
            Some(bytes) => match version_file(bytes) {
                Err(e) => Err(ExtractionErrorView::Archive(e)),
                Ok(version) => Ok(
                    ExtractedReleaseView {
                        destination,
                        version,
                        entry_count: s.entry_count,
                        unpacked_bytes: s.unpacked_bytes,
                    },
                ),
            },
        }
    }
}

impl Extraction {
    /// An extraction that has seen no entry.
    pub fn begin() -> (r: Extraction)
        ensures
            r@.wf(),
            r@ == (ExtractionView {
                seen: Seq::empty(),
                files: Seq::empty(),
                directories: Seq::empty(),
                entry_count: 0,
                unpacked_bytes: 0,
                version_bytes: None,
            }),
    {
        let r = Extraction {
            seen: Vec::new(),
            files: Vec::new(),
            directories: Vec::new(),
            entry_count: 0,
            unpacked_bytes: 0,
            version_bytes: None,
        };
        proof {
            assert(views(r.seen@) =~= Seq::empty());
            assert(views(r.files@) =~= Seq::empty());
            assert(views(r.directories@) =~= Seq::empty());
        }
        r
    }

    /// Judges the next entry. A refused entry leaves the state as it was.
    pub fn judge(&mut self, entry: &ArchiveEntry) -> (r: Result<EntryPlan, ExtractionError>)
        requires
            old(self)@.wf(),
        ensures
            final(self)@.wf(),
            match r {
                Ok(plan) => entry_verdict(old(self)@, entry@) == Ok::<EntryPlanView, ExtractionErrorView>(
                    plan@,
                ) && final(self)@ == admitted(old(self)@, plan@),
                Err(e) => entry_verdict(old(self)@, entry@) == Err::<
                    EntryPlanView,
                    ExtractionErrorView,
                >(e@) && final(self)@ == old(self)@,
            },
    {
        if self.entry_count >= MAX_ENTRY_COUNT {
            return Err(ExtractionError::Archive(ArchiveError::TooManyEntries));
        }
        if !entry.readable {
            return Err(ExtractionError::Archive(ArchiveError::InvalidEntry));
        }
        if entry.kind == EntryKind::Other {
            return Err(ExtractionError::Archive(ArchiveError::NonRegularEntry));
        }
        let is_directory = entry.kind == EntryKind::Directory;
        let path = match validate_archive_path(entry.path.as_slice(), is_directory) {
            Ok(path) => path,
            Err(e) => {
                return Err(ExtractionError::Archive(e));
            },
        };
        proof {
            lists_is_contains(self.seen@, path@);
            crate::archive::accepted_paths_stay_inside(entry.path@, is_directory);
            crate::archive::release_paths_have_directories(path@);
        }
        if list_contains(&self.seen, path.as_str()) {
            return Err(ExtractionError::DuplicatePath(path));
        }
        let size: u64 = match entry.size {
            Some(size) => size,
            None => {
                return Err(ExtractionError::Archive(ArchiveError::InvalidSize));
            },
        };
        let plan = if is_directory {
            if size != 0 {
                return Err(ExtractionError::DirectoryData(path));
            }
            let directories = match ensure_release_directory(path.as_str()) {
                Ok(directories) => directories,
                Err(e) => {
                    return Err(ExtractionError::Archive(e));
                },
            };
            EntryPlan {
                directories,
                path,
                is_directory: true,
                size: 0,
                executable: false,
                capture: false,
            }
        } else {
            if size > MAX_FILE_BYTES {
                return Err(ExtractionError::FileLimit(path));
            }
            if size == 0 && is_required_file(path.as_str()) {
                return Err(ExtractionError::EmptyRequiredFile(path));
            }
            let capture = same(path.as_str(), "VERSION");
            if capture && size > MAX_VERSION_BYTES {
                return Err(ExtractionError::Archive(ArchiveError::VersionLimit));
            }
            if size > MAX_TOTAL_FILE_BYTES - self.unpacked_bytes {
                return Err(ExtractionError::Archive(ArchiveError::TotalLimit));
            }
            let directories = match ensure_parent_directories(path.as_str()) {
                Ok(directories) => directories,
                Err(e) => {
                    return Err(ExtractionError::Archive(e));
                },
            };
            EntryPlan {
                directories,
                executable: is_executable_payload(path.as_str()),
                path,
                is_directory: false,
                size,
                capture,
            }
        };
        proof {
            with_all_is_union(self@.directories, plan@.directories);
        }
        let ghost before = self@;
        let ghost seen_before = self.seen@;
        self.entry_count = self.entry_count + 1;
        self.unpacked_bytes = self.unpacked_bytes + plan.size;
        self.seen.push(plan.path.clone());
        insert_all(&mut self.directories, &plan.directories);
        proof {
            assert(views(self.seen@) =~= views(seen_before).push(plan.path@));
            assert(self@ =~= admitted(before, plan@));
            let seen = self@.seen;
            assert forall|i: int| 0 <= i < self@.files.len() implies seen.contains(
                #[trigger] self@.files[i],
            ) by {
                let x = self@.files[i];
                let k = choose|k: int| 0 <= k < before.seen.len() && before.seen[k] == x;
                assert(seen[k] == x);
            }
            assert forall|i: int| 0 <= i < seen.len() implies is_release_path(
                #[trigger] seen[i],
            ) by {
                if i < before.seen.len() {
                    assert(seen[i] == before.seen[i]);
                }
            }
        }
        Ok(plan)
    }

    /// Records that the file of an admitted entry was written.
    pub fn record(&mut self, plan: &EntryPlan, captured: Option<Vec<u8>>)
        requires
            old(self)@.wf(),
            old(self)@.seen.contains(plan@.path),
        ensures
            final(self)@.wf(),
            final(self)@ == recorded(old(self)@, plan@, view_bytes(captured)),
    {
        let ghost before = self@;
        let ghost files_before = self.files@;
        self.files.push(plan.path.clone());
        if plan.capture {
            self.version_bytes = captured;
        }
        proof {
            assert(views(self.files@) =~= views(files_before).push(plan.path@));
            assert(self@ =~= recorded(before, plan@, view_bytes(captured)));
            assert forall|i: int| 0 <= i < self@.files.len() implies self@.seen.contains(
                #[trigger] self@.files[i],
            ) by {
                if i < before.files.len() {
                    assert(self@.files[i] == before.files[i]);
                }
            }
        }
    }

    /// Ends the extraction: every required file was written and the VERSION file states
    /// a semantic version.
    pub fn finish(self, destination: &str) -> (r: Result<ExtractedRelease, ExtractionError>)
        requires
            self@.wf(),
        ensures
            match r {
                Ok(x) => extraction_result(self@, destination@) == Ok::<
                    ExtractedReleaseView,
                    ExtractionErrorView,
                >(x@) && complete(self@) && x.entry_count <= MAX_ENTRY_COUNT && x.unpacked_bytes
                    <= MAX_TOTAL_FILE_BYTES,
                Err(e) => extraction_result(self@, destination@) == Err::<
                    ExtractedReleaseView,
                    ExtractionErrorView,
                >(e@),
            },
    {
        let mut i: usize = 0;
        while i < REQUIRED_FILE_COUNT
            invariant
                i <= REQUIRED_FILE_COUNT,
                forall|j: int| 0 <= j < i ==> self@.files.contains(#[trigger] required_file_spec(j)),
                first_missing(self@.files, 0) == first_missing(self@.files, i as int),
            decreases REQUIRED_FILE_COUNT - i,
        {
            let required = required_file(i);
            proof {
                lists_is_contains(self.files@, required@);
            }
            if !list_contains(&self.files, required) {
                proof {
                    assert(!self@.files.contains(required_file_spec(i as int)));
                }
                return Err(ExtractionError::MissingRequiredFile(required.to_owned()));
            }
            i = i + 1;
        }
        match &self.version_bytes {
            None => Err(ExtractionError::Archive(ArchiveError::VersionNotCaptured)),
            Some(bytes) => match parse_version_file(bytes.as_slice()) {
                Err(e) => Err(ExtractionError::Archive(e)),
                Ok(version) => Ok(
                    ExtractedRelease {
                        destination: destination.to_owned(),
                        version,
                        entry_count: self.entry_count,
                        unpacked_bytes: self.unpacked_bytes,
                    },
                ),
            },
        }
    }
}

/// Checks that the gzip member ends where the archive ends: the file was read up to
/// `position`, of which `buffered` bytes were not consumed.
pub fn check_gzip_end(position: u64, buffered: u64, expected_size: u64) -> (r: Result<
    (),
    ArchiveError,
>)
    ensures
        r == (if position < buffered {
            Err::<(), ArchiveError>(ArchiveError::GzipPosition)
        } else if position - buffered != expected_size {
            Err::<(), ArchiveError>(ArchiveError::DataAfterGzip)
        } else {
            Ok::<(), ArchiveError>(())
        }),
{
    if position < buffered {
        return Err(ArchiveError::GzipPosition);
    }
    if position - buffered != expected_size {
        return Err(ArchiveError::DataAfterGzip);
    }
    Ok(())
}

/// How deep a directory lies.
pub open spec fn depth(path: Seq<char>) -> nat {
    path_names(path).len() + if is_rooted(path) {
        1nat
    } else {
        0nat
    }
}

fn depth_of(path: &str) -> (r: u128)
    ensures
        r == depth(path@),
{
    let names = names_of_path(path);
    let n: u128 = names.len() as u128;
    proof {
        assert(path_names(path@).len() == n);
    }
    if starts_at_root(path) {
        n + 1
    } else {
        n
    }
}

/// No directory stands before one that lies deeper.
pub open spec fn deepest_first(list: Seq<Seq<char>>) -> bool {
    forall|i: int, j: int| 0 <= i < j < list.len() ==> depth(list[i]) >= depth(list[j])
}

/// The directories in the order in which their permissions are made final, so that no
/// directory is closed before what lies inside it.
pub fn finalization_order(directories: &Vec<String>) -> (r: Vec<String>)
    ensures
        deepest_first(views(r@)),
        views(r@).to_multiset() == views(directories@).to_multiset(),
{
    let ghost all = views(directories@);
    let mut r: Vec<String> = Vec::new();
    let mut depths: Vec<u128> = Vec::new();
    let mut i: usize = 0;
    proof {
        assert(all.take(0) =~= Seq::<Seq<char>>::empty());
        assert(views(r@) =~= Seq::<Seq<char>>::empty());
    }
    while i < directories.len()
        invariant
            i <= directories@.len(),
            all == views(directories@),
            r@.len() == i,
            depths@.len() == i,
            forall|k: int| 0 <= k < i ==> #[trigger] depths@[k] == depth(views(r@)[k]),
            deepest_first(views(r@)),
            views(r@).to_multiset() == all.take(i as int).to_multiset(),
        decreases directories@.len() - i,
    {
        let d: u128 = depth_of(directories[i].as_str());
        let ghost path = directories@[i as int]@;
        proof {
            assert(all[i as int] == path);
        }
        let mut at: usize = 0;
        while at < depths.len() && depths[at] >= d
            invariant
                at <= depths@.len(),
                forall|k: int| 0 <= k < at ==> #[trigger] depths@[k] >= d,
            decreases depths@.len() - at,
        {
            at = at + 1;
        }
        let ghost before = r@;
        let ghost depths_before = depths@;
        r.insert(at, directories[i].clone());
        depths.insert(at, d);
        proof {
            assert(views(r@) =~= views(before).insert(at as int, path));
            assert(all.take(i as int + 1) =~= all.take(i as int).push(path));
            assert forall|k: int| 0 <= k < i + 1 implies #[trigger] depths@[k] == depth(
                views(r@)[k],
            ) by {
                if k < at {
                    assert(depths@[k] == depths_before[k]);
                } else if k > at {
                    assert(depths@[k] == depths_before[k - 1]);
                }
            }
            assert forall|a: int, b: int| 0 <= a < b < views(r@).len() implies depth(views(r@)[a])
                >= depth(views(r@)[b]) by {
                let old = views(before);
                if a < at && b < at {
                    assert(views(r@)[a] == old[a] && views(r@)[b] == old[b]);
                } else if a < at && b == at {
                    assert(depths@[a] == depths_before[a]);
                } else if a < at && b > at {
                    assert(views(r@)[a] == old[a] && views(r@)[b] == old[b - 1]);
                } else if a == at {
                    assert(depths_before[at as int] < d);
                    assert(views(r@)[b] == old[b - 1]);
                    assert(depths_before[at as int] == depth(old[at as int]));
                } else {
                    assert(views(r@)[a] == old[a - 1] && views(r@)[b] == old[b - 1]);
                }
            }
        }
        i = i + 1;
    }
    proof {
        assert(all.take(all.len() as int) =~= all);
    }
    r
}

/// Checks a directory right before its permissions are made final.
pub fn finalize_directory_permissions(is_directory: bool, is_symlink: bool) -> (r: Result<
    u32,
    ArchiveError,
>)
    ensures
        r == (if is_directory && !is_symlink {
            Ok::<u32, ArchiveError>(0o755)
        } else {
            Err::<u32, ArchiveError>(ArchiveError::DirectoryChanged)
        }),
{
    if !is_directory || is_symlink {
        return Err(ArchiveError::DirectoryChanged);
    }
    Ok(0o755)
}

/// An extraction directory that is removed unless the extraction was committed.
pub struct PartialExtraction {
    pub path: String,
    pub committed: bool,
}

impl PartialExtraction {
    /// A directory that is to be removed.
    pub fn new(path: String) -> (r: PartialExtraction)
        ensures
            r.path == path,
            !r.committed,
    {
        PartialExtraction { path, committed: false }
    }

    /// Keeps the directory.
    pub fn commit(&mut self)
        ensures
            final(self).committed,
            final(self).path == old(self).path,
    {
        self.committed = true;
    }

    /// Whether the directory is removed now.
    pub fn must_remove(&self) -> (r: bool)
        ensures
            r == !self.committed,
    {
        !self.committed
    }
}

/// A whole archive: the state after its entries, where each file is written as planned
/// and `contents` are the bytes of the VERSION file.
pub open spec fn extract_all(
    s: ExtractionView,
    entries: Seq<ArchiveEntryView>,
    contents: Seq<u8>,
) -> Result<ExtractionView, ExtractionErrorView>
    decreases entries.len(),
{
    if entries.len() == 0 {
        Ok(s)
    } else {
        match extract_all(s, entries.drop_last(), contents) {
            Err(e) => Err(e),
            Ok(t) => match entry_verdict(t, entries.last()) {
                Err(e) => Err(e),
                Ok(plan) => {
                    let next = admitted(t, plan);
                    Ok(
                        if plan.is_directory {
                            next
                        } else {
                            recorded(
                                next,
                                plan,
                                if plan.capture {
                                    Some(contents)
                                } else {
                                    None
                                },
                            )
                        },
                    )
                },
            },
        }
    }
}

proof fn step_keeps_wf(s: ExtractionView, e: ArchiveEntryView, captured: Option<Seq<u8>>)
    requires
        s.wf(),
        entry_verdict(s, e) is Ok,
    ensures
        admitted(s, entry_verdict(s, e)->Ok_0).wf(),
        recorded(admitted(s, entry_verdict(s, e)->Ok_0), entry_verdict(s, e)->Ok_0, captured).wf(),
{
    let plan = entry_verdict(s, e)->Ok_0;
    let is_directory = e.kind == EntryKind::Directory;
    crate::archive::accepted_paths_stay_inside(e.path, is_directory);
    with_all_is_union(s.directories, plan.directories);
    let next = admitted(s, plan);
    assert forall|i: int| 0 <= i < next.files.len() implies next.seen.contains(
        #[trigger] next.files[i],
    ) by {
        let k = choose|k: int| 0 <= k < s.seen.len() && s.seen[k] == s.files[i];
        assert(next.seen[k] == next.files[i]);
    }
    assert(next.seen[next.seen.len() - 1] == plan.path);
    let done = recorded(next, plan, captured);
    assert forall|i: int| 0 <= i < done.files.len() implies done.seen.contains(
        #[trigger] done.files[i],
    ) by {
        if i < next.files.len() {
            assert(done.files[i] == next.files[i]);
        }
    }
}

/// Whatever entries an archive has, an extraction that is not refused keeps every limit,
/// admits no path twice and never leaves the release directory.
pub proof fn extraction_is_confined(
    s: ExtractionView,
    entries: Seq<ArchiveEntryView>,
    contents: Seq<u8>,
)
    requires
        s.wf(),
        extract_all(s, entries, contents) is Ok,
    ensures
        extract_all(s, entries, contents)->Ok_0.wf(),
        extract_all(s, entries, contents)->Ok_0.entry_count == s.entry_count + entries.len(),
    decreases entries.len(),
{
    if entries.len() > 0 {
        extraction_is_confined(s, entries.drop_last(), contents);
        let t = extract_all(s, entries.drop_last(), contents)->Ok_0;
        let plan = entry_verdict(t, entries.last())->Ok_0;
        step_keeps_wf(
            t,
            entries.last(),
            if plan.capture {
                Some(contents)
            } else {
                None
            },
        );
    }
}

/// An entry is taken exactly where there is room for it, it can be read, it is a file or a
/// directory, its path is accepted and new, and its size fits: none for a directory, and for
/// a file no more than a file and all files together may have. A required file is not empty,
/// and the version file is short.
pub proof fn which_entries_are_taken(s: ExtractionView, e: ArchiveEntryView)
    ensures
        ({
            let is_directory = e.kind == EntryKind::Directory;
            let path = archive_path(e.path, is_directory);
            entry_verdict(s, e) is Ok <==> s.entry_count < 32768 && e.readable && e.kind
                != EntryKind::Other && path is Ok && !s.seen.contains(path->Ok_0) && e.size is Some
                && (is_directory ==> e.size->0 == 0) && (!is_directory ==> e.size->0 <= 536870912
                && s.unpacked_bytes + e.size->0 <= 2147483648 && (is_required(path->Ok_0)
                ==> e.size->0 > 0) && (path->Ok_0 == "VERSION"@ ==> e.size->0 <= 128))
        }),
{
}

/// An entry that is taken is kept under its path, with its size, with the directories above it
/// and, for a directory, itself. Only the version file is captured, and only a file of the
/// payload can be executed.
pub proof fn how_entries_are_taken(s: ExtractionView, e: ArchiveEntryView)
    requires
        entry_verdict(s, e) is Ok,
    ensures
        ({
            let is_directory = e.kind == EntryKind::Directory;
            let plan = entry_verdict(s, e)->Ok_0;
            let after = admitted(s, plan);
            &&& Ok::<Seq<char>, ArchiveError>(plan.path) == archive_path(e.path, is_directory)
            &&& plan.is_directory == is_directory
            &&& e.size == Some(plan.size)
            &&& plan.capture <==> !is_directory && plan.path == "VERSION"@
            &&& plan.executable <==> !is_directory && executable_payload(plan.path)
            &&& after.seen == s.seen.push(plan.path)
            &&& after.entry_count == s.entry_count + 1
            &&& after.unpacked_bytes == s.unpacked_bytes + plan.size
            &&& after.files == s.files && after.version_bytes == s.version_bytes
        }),
{
}

/// What is recorded of a file: that it is there, and what was captured where it was to be.
pub proof fn what_is_recorded_of_a_file(
    s: ExtractionView,
    plan: EntryPlanView,
    captured: Option<Seq<u8>>,
)
    ensures
        recorded(s, plan, captured).files == s.files.push(plan.path),
        plan.capture ==> recorded(s, plan, captured).version_bytes == captured,
        !plan.capture ==> recorded(s, plan, captured).version_bytes == s.version_bytes,
        recorded(s, plan, captured) == (ExtractionView {
            files: recorded(s, plan, captured).files,
            version_bytes: recorded(s, plan, captured).version_bytes,
            ..s
        }),
{
}

/// An extraction gives a release exactly where every required file is there and the version
/// file was captured and holds a version, which is then the version of the release.
pub proof fn when_a_release_is_extracted(s: ExtractionView, destination: Seq<char>)
    ensures
        extraction_result(s, destination) is Ok <==> (forall|i: int|
            0 <= i < 31 ==> s.files.contains(#[trigger] required_file_spec(i))) && s.version_bytes
            is Some && version_file(s.version_bytes->0) is Ok,
        extraction_result(s, destination) matches Ok(r) ==> r.destination == destination
            && Ok::<Seq<char>, ArchiveError>(r.version) == version_file(s.version_bytes->0)
            && r.entry_count == s.entry_count && r.unpacked_bytes == s.unpacked_bytes,
{
}

} // verus!
