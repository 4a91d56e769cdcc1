use vstd::prelude::*;

use crate::json_structs::{DownloadProgressEvent, DownloadProgressPhase};
use vstd::string::StrSliceExecFns;

verus! {

/// What a batch of unzip work left to do.
#[derive(Clone, Copy, Debug, PartialEq, Eq, Structural)]
pub enum BatchReturn {
    MoreFilesToDelete,
    MoreFilesToUnzip,
    Finished,
}

/// The progress of extracting an archive into its destination: first the
/// destination is cleaned batch by batch, then the entries are extracted in
/// order, batch by batch.
#[derive(Clone, Copy, Debug, PartialEq, Eq, Structural)]
pub struct ZipFileHandler {
    /// The archive is still open (it is dropped once extraction is done).
    pub has_archive: bool,
    /// Index of the next entry to extract.
    pub current_file_index: usize,
    /// Number of entries in the archive.
    pub zip_file_count: usize,
    /// Number of files deleted so far (counted by batches).
    pub deleted: usize,
    /// The destination has been cleaned.
    pub cleaned_destination: bool,
}

impl ZipFileHandler {
    /// Extraction never runs past the last entry.
    pub open spec fn wf(self) -> bool {
        self.current_file_index <= self.zip_file_count
    }

    /// A handler for an archive of `zip_file_count` entries, before cleaning.
    pub fn new(zip_file_count: usize) -> (res: Self)
        ensures
            res.wf(),
            res == (ZipFileHandler {
                has_archive: true,
                current_file_index: 0,
                zip_file_count,
                deleted: 0,
                cleaned_destination: false,
            }),
    {
        ZipFileHandler {
            has_archive: true,
            current_file_index: 0,
            zip_file_count,
            deleted: 0,
            cleaned_destination: false,
        }
    }

    /// Records a cleaning batch of `batch_size` deletions. When the
    /// destination no longer exists it has been recreated empty and cleaning
    /// is done; otherwise there is more to delete.
    pub fn clean_step(&mut self, batch_size: usize, destination_exists: bool) -> (res: BatchReturn)
        requires
            !old(self).cleaned_destination,
            destination_exists ==> old(self).deleted + batch_size <= usize::MAX,
        ensures
            old(self).wf() ==> final(self).wf(),
            (if destination_exists {
                &&& res == BatchReturn::MoreFilesToDelete
                &&& *final(self) == (ZipFileHandler { deleted: (old(self).deleted + batch_size) as usize, ..*old(self) })
            } else {
                &&& res == BatchReturn::MoreFilesToUnzip
                &&& *final(self) == (ZipFileHandler { cleaned_destination: true, ..*old(self) })
            }),
    {
        if !destination_exists {
            self.cleaned_destination = true;
            BatchReturn::MoreFilesToUnzip
        } else {
            self.deleted = self.deleted + batch_size;
            BatchReturn::MoreFilesToDelete
        }
    }

    /// Moves past the entry just handled.
    pub fn advance(&mut self)
        requires
            old(self).current_file_index < old(self).zip_file_count,
        ensures
            final(self).wf(),
            *final(self) == (ZipFileHandler {
                current_file_index: (old(self).current_file_index + 1) as usize,
                ..*old(self)
            }),
    {
        self.current_file_index = self.current_file_index + 1;
    }

    /// Extraction is done: drops the archive.
    pub fn finish(&mut self)
        ensures
            old(self).wf() ==> final(self).wf(),
            *final(self) == (ZipFileHandler { has_archive: false, ..*old(self) }),
    {
        self.has_archive = false;
    }
}

/// How a batch of unzip work begins.
#[derive(Clone, Copy, Debug, PartialEq, Eq, Structural)]
pub enum BatchStart {
    /// The archive was dropped: there is nothing to extract.
    NoArchive,
    /// The destination is still being cleaned.
    Clean,
    /// Entries are extracted.
    Extract,
}

/// The next step of an extraction batch.
#[derive(Clone, Copy, Debug, PartialEq, Eq, Structural)]
pub enum BatchDecision {
    /// Handle the entry at this index, then advance.
    Entry(usize),
    /// Every entry has been handled: finish the extraction.
    Finish,
    /// The batch has handled as many entries as it may.
    Pause,
}

impl ZipFileHandler {
    pub open spec fn start_of(self) -> BatchStart {
        if !self.has_archive {
            BatchStart::NoArchive
        } else if !self.cleaned_destination {
            BatchStart::Clean
        } else {
            BatchStart::Extract
        }
    }

    /// How the next batch begins.
    pub fn batch_start(&self) -> (res: BatchStart)
        ensures
            res == self.start_of(),
    {
        if !self.has_archive {
            BatchStart::NoArchive
        } else if !self.cleaned_destination {
            BatchStart::Clean
        } else {
            BatchStart::Extract
        }
    }

    /// A batch of `batch_size` entries that has handled `handled` of them
    /// pauses once it has handled them all; otherwise it handles the next
    /// entry, or finishes when none is left.
    pub open spec fn decision_of(self, handled: int, batch_size: int) -> BatchDecision {
        if handled >= batch_size {
            BatchDecision::Pause
        } else if self.current_file_index < self.zip_file_count {
            BatchDecision::Entry(self.current_file_index)
        } else {
            BatchDecision::Finish
        }
    }

    /// The next step of a batch of `batch_size` entries that has handled
    /// `handled` of them.
    pub fn batch_decision(&self, handled: usize, batch_size: usize) -> (res: BatchDecision)
        ensures
            res == self.decision_of(handled as int, batch_size as int),
    {
        if handled >= batch_size {
            BatchDecision::Pause
        } else if self.current_file_index < self.zip_file_count {
            BatchDecision::Entry(self.current_file_index)
        } else {
            BatchDecision::Finish
        }
    }

    /// The handler after the step that `d` calls for: `advance` after an
    /// entry, `finish` at the end, nothing on a pause.
    pub open spec fn after(self, d: BatchDecision) -> Self {
        match d {
            BatchDecision::Entry(_) => ZipFileHandler {
                current_file_index: (self.current_file_index + 1) as usize,
                ..self
            },
            BatchDecision::Finish => ZipFileHandler { has_archive: false, ..self },
            BatchDecision::Pause => self,
        }
    }
}

/// The handler after the first `k` decisions of an extraction batch of
/// `batch_size` entries that meets no error, and whether the batch has ended
/// by then (it ends with the first decision that is not an entry).
pub open spec fn batch_run(h: ZipFileHandler, batch_size: int, k: nat) -> (ZipFileHandler, bool)
    decreases k,
{
    if k == 0 {
        (h, false)
    } else {
        let (p, ended) = batch_run(h, batch_size, (k - 1) as nat);
        if ended {
            (p, true)
        } else {
            let d = p.decision_of(k - 1, batch_size);
            (p.after(d), !(d is Entry))
        }
    }
}

/// Extraction moves forward in order. Within a batch of `batch_size`
/// entries, however far it has run: the index of the next entry never
/// decreases, grows by at most `batch_size` and one per decision, and never
/// passes the number of entries; the archive is dropped only once every entry
/// has been handled, and once dropped it stays dropped; and the batch has
/// ended after `batch_size + 1` decisions.
pub proof fn lemma_batch_progress(h: ZipFileHandler, batch_size: int, k: nat)
    requires
        h.wf(),
        0 <= batch_size,
    ensures
        ({
            let (h2, ended) = batch_run(h, batch_size, k);
            &&& h2.wf()
            &&& h.current_file_index <= h2.current_file_index <= h.current_file_index + batch_size
            &&& h2.current_file_index <= h.current_file_index + k
            &&& h2.zip_file_count == h.zip_file_count
            &&& h2.deleted == h.deleted
            &&& h2.cleaned_destination == h.cleaned_destination
            &&& h.has_archive && !h2.has_archive ==> h2.current_file_index == h2.zip_file_count
            &&& !h.has_archive ==> !h2.has_archive
            &&& !ended ==> k <= batch_size && h2.current_file_index == h.current_file_index + k
                && h2.has_archive == h.has_archive
            &&& k > batch_size ==> ended
        }),
    decreases k,
{
    if k > 0 {
        lemma_batch_progress(h, batch_size, (k - 1) as nat);
    }
}

/// `h2` is the handler after one call of batch work of `batch_size` on `h`,
/// as far as the call got. Without an archive the call fails and changes
/// nothing; while cleaning, it records a batch of deletions or completes the
/// cleaning; while extracting, it runs some decisions of the batch (all of
/// them, or fewer when an entry fails).
pub open spec fn call_step(h: ZipFileHandler, h2: ZipFileHandler, batch_size: int) -> bool {
    match h.start_of() {
        BatchStart::NoArchive => h2 == h,
        BatchStart::Clean => h2 == (ZipFileHandler { deleted: (h.deleted + batch_size) as usize, ..h })
            || h2 == (ZipFileHandler { cleaned_destination: true, ..h }),
        BatchStart::Extract => exists|k: nat| h2 == #[trigger] batch_run(h, batch_size, k).0,
    }
}

/// A call took the handler from `h` to `h2` moving forward: the index of the
/// next entry grew by at most `batch_size`, and not at all while cleaning.
pub open spec fn call_progress(h: ZipFileHandler, h2: ZipFileHandler, batch_size: int) -> bool {
    &&& h.current_file_index <= h2.current_file_index <= h.current_file_index + batch_size
    &&& !h.cleaned_destination ==> h2.current_file_index == h.current_file_index
}

/// The handlers of a run of calls: `hs[0]` is a new handler, and `hs[i + 1]`
/// follows `hs[i]` by a call with batch size `sizes[i]`.
pub open spec fn calls_from_new(hs: Seq<ZipFileHandler>, sizes: Seq<usize>) -> bool {
    &&& hs.len() == sizes.len() + 1
    &&& hs[0] == (ZipFileHandler {
        has_archive: true,
        current_file_index: 0,
        zip_file_count: hs[0].zip_file_count,
        deleted: 0,
        cleaned_destination: false,
    })
    &&& forall|i: int| 0 <= i < sizes.len() ==> call_step(hs[i], hs[i + 1], #[trigger] sizes[i] as int)
}

/// What one call does to a well-formed handler whose archive is dropped only
/// at the end.
proof fn lemma_call_step(h: ZipFileHandler, h2: ZipFileHandler, batch_size: int)
    requires
        h.wf(),
        !h.has_archive ==> h.current_file_index == h.zip_file_count,
        0 <= batch_size,
        call_step(h, h2, batch_size),
    ensures
        h2.wf(),
        h2.zip_file_count == h.zip_file_count,
        h.current_file_index <= h2.current_file_index <= h.current_file_index + batch_size,
        !h.cleaned_destination ==> h2.current_file_index == h.current_file_index,
        !h2.has_archive ==> h2.current_file_index == h2.zip_file_count,
        !h.has_archive ==> h2 == h,
{
    if h.start_of() is Extract {
        let k = choose|k: nat| h2 == #[trigger] batch_run(h, batch_size, k).0;
        lemma_batch_progress(h, batch_size, k);
    }
}

/// Extraction moves forward in order across calls. Over any run of calls on
/// a new handler: every handler is well formed and keeps the entry count;
/// each call advances the index of the next entry by at most its batch size,
/// never backwards, and not at all while the destination is being cleaned;
/// the archive is dropped only once every entry has been handled; and once
/// it is dropped, every later call fails and changes nothing.
pub proof fn lemma_extraction_across_calls(hs: Seq<ZipFileHandler>, sizes: Seq<usize>)
    requires
        calls_from_new(hs, sizes),
    ensures
        forall|i: int|
            0 <= i < hs.len() ==> {
                &&& (#[trigger] hs[i]).wf()
                &&& hs[i].zip_file_count == hs[0].zip_file_count
                &&& !hs[i].has_archive ==> hs[i].current_file_index == hs[i].zip_file_count
            },
        forall|i: int| 0 <= i < sizes.len() ==> call_progress(hs[i], hs[i + 1], #[trigger] sizes[i] as int),
        forall|i: int, j: int|
            0 <= i <= j < hs.len() && !(#[trigger] hs[i]).has_archive ==> #[trigger] hs[j] == hs[i]
                && hs[j].start_of() is NoArchive,
    decreases sizes.len(),
{
    if sizes.len() > 0 {
        let n = sizes.len() - 1;
        let hp = hs.drop_last();
        let sp = sizes.drop_last();
        assert forall|i: int| 0 <= i < sp.len() implies call_step(hp[i], hp[i + 1], #[trigger] sp[i] as int) by {
            assert(sizes[i] == sp[i]);
        }
        lemma_extraction_across_calls(hp, sp);
        assert(hp[n] == hs[n]);
        assert(call_step(hs[n], hs[n + 1], sizes[n] as int));
        lemma_call_step(hs[n], hs[n + 1], sizes[n] as int);
        assert forall|i: int| 0 <= i < hs.len() implies {
            &&& (#[trigger] hs[i]).wf()
            &&& hs[i].zip_file_count == hs[0].zip_file_count
            &&& !hs[i].has_archive ==> hs[i].current_file_index == hs[i].zip_file_count
        } by {
            if i < hs.len() - 1 {
                assert(hp[i] == hs[i]);
            }
        }
        assert forall|i: int| 0 <= i < sizes.len() implies call_progress(hs[i], hs[i + 1], #[trigger] sizes[i] as int) by {
            if i < n {
                assert(sp[i] == sizes[i]);
                assert(hp[i] == hs[i] && hp[i + 1] == hs[i + 1]);
                assert(call_progress(hp[i], hp[i + 1], sp[i] as int));
            }
        }
        assert forall|i: int, j: int|
            0 <= i <= j < hs.len() && !(#[trigger] hs[i]).has_archive implies #[trigger] hs[j] == hs[i]
                && hs[j].start_of() is NoArchive by {
            if j < hs.len() - 1 {
                assert(hp[i] == hs[i]);
                assert(hp[j] == hs[j]);
            } else if i < j {
                assert(hp[i] == hs[i]);
                assert(hp[n] == hs[n]);
            }
        }
    }
}

/// Number of times `c` occurs in `s`.
pub open spec fn count_char(s: Seq<char>, c: char) -> nat
    decreases s.len(),
{
    if s.len() == 0 {
        0
    } else {
        count_char(s.drop_last(), c) + if s.last() == c { 1nat } else { 0nat }
    }
}

/// What to do with an archive entry.
#[derive(Clone, Copy, Debug, PartialEq, Eq, Structural)]
pub enum EntryAction {
    /// Leave the entry out (the sim cannot cope with names holding more than one `.`).
    Skip,
    /// The entry is a directory: create it.
    CreateDirectory,
    /// The entry is a file: create its parent if needed and write it.
    ExtractFile,
}

pub open spec fn entry_action_of(outpath: Seq<char>, name: Seq<char>) -> EntryAction {
    if count_char(outpath, '.') > 1 {
        EntryAction::Skip
    } else if name.len() > 0 && name.last() == '/' {
        EntryAction::CreateDirectory
    } else {
        EntryAction::ExtractFile
    }
}

/// Counts the occurrences of `c` in `s`.
pub fn count_occurrences(s: &str, c: char) -> (res: usize)
    ensures
        res == count_char(s@, c),
{
    let n = s.unicode_len();
    let mut count: usize = 0;
    let mut i: usize = 0;
    proof {
        assert(s@.take(0) =~= Seq::<char>::empty());
    }
    while i < n
        invariant
            i <= n,
            n == s@.len(),
            count == count_char(s@.take(i as int), c),
            count <= i,
        decreases n - i,
    {
        proof {
            let t = s@.take(i + 1);
            assert(t.drop_last() =~= s@.take(i as int));
            assert(t.last() == s@[i as int]);
        }
        if s.get_char(i) == c {
            count = count + 1;
        }
        i = i + 1;
    }
    proof {
        assert(s@.take(n as int) =~= s@);
    }
    count
}

/// Decides what to do with an archive entry called `name`, to be written
/// to `outpath`.
pub fn entry_action(outpath: &str, name: &str) -> (res: EntryAction)
    ensures
        res == entry_action_of(outpath@, name@),
{
    if count_occurrences(outpath, '.') > 1 {
        EntryAction::Skip
    } else {
        let n = name.unicode_len();
        if n > 0 && name.get_char(n - 1) == '/' {
            EntryAction::CreateDirectory
        } else {
            EntryAction::ExtractFile
        }
    }
}

/// Where a download stands.
pub enum DownloadStatus {
    NoDownload,
    Downloading,
    CleaningDestination,
    Extracting,
    Downloaded,
    Failed(String),
}

/// Options of the download process.
#[derive(Clone, Copy, Debug, PartialEq, Eq, Structural)]
pub struct DownloadOptions {
    /// Number of files deleted or extracted per update.
    pub batch_size: usize,
}

/// The phase a progress event reports for a status; none outside a download.
pub open spec fn phase_of(status: DownloadStatus) -> Option<DownloadProgressPhase> {
    match status {
        DownloadStatus::Downloading => Some(DownloadProgressPhase::Downloading),
        DownloadStatus::CleaningDestination => Some(DownloadProgressPhase::Cleaning),
        DownloadStatus::Extracting => Some(DownloadProgressPhase::Extracting),
        _ => None,
    }
}

/// The progress event to send for a status, if any.
pub fn progress_event(
    status: &DownloadStatus,
    deleted: Option<usize>,
    total_to_unzip: Option<usize>,
    unzipped: Option<usize>,
) -> (res: Option<DownloadProgressEvent>)
    ensures
        res == (match phase_of(*status) {
            Some(phase) => Some(DownloadProgressEvent { phase, deleted, total_to_unzip, unzipped }),
            None => None,
        }),
{
    let phase = match status {
        DownloadStatus::Downloading => DownloadProgressPhase::Downloading,
        DownloadStatus::CleaningDestination => DownloadProgressPhase::Cleaning,
        DownloadStatus::Extracting => DownloadProgressPhase::Extracting,
        _ => {
            return None;
        },
    };
    Some(DownloadProgressEvent { phase, deleted, total_to_unzip, unzipped })
}

/// The downloader of navigation data: the state between the download
/// request, the cleaning of the destination and the extraction.
pub struct NavigationDataDownloader {
    pub zip_handler: Option<ZipFileHandler>,
    pub download_status: DownloadStatus,
    pub options: DownloadOptions,
    /// A task waits for the outcome of the download.
    pub has_task: bool,
}

/// What an update of the downloader has to do.
pub enum UpdateAction {
    /// The download failed with this message: report it to the waiting
    /// task, then reset the download.
    Fail(String),
    /// Run the next batch of cleaning or extraction of this size.
    ExtractBatch(usize),
    /// Nothing to do.
    Idle,
}

/// What follows a batch of cleaning or extraction.
pub enum BatchFollowUp {
    /// The download is complete: the waiting task succeeds and the installed
    /// data is no longer the bundled data.
    Completed,
    /// Send this progress event, if any.
    Progress(Option<DownloadProgressEvent>),
    /// The batch failed with this message: report it to the waiting task.
    Failed(String),
    /// Nothing to do.
    Nothing,
}

pub open spec fn extraction_pending(h: Option<ZipFileHandler>) -> bool {
    match h {
        Some(z) => z.zip_file_count > z.current_file_index,
        None => false,
    }
}

impl NavigationDataDownloader {
    /// Every handler it holds is well formed.
    pub open spec fn wf(self) -> bool {
        self.zip_handler matches Some(z) ==> z.wf()
    }

    /// A downloader with no download, a batch size of 10 and no task.
    pub fn new() -> (res: Self)
        ensures
            res.wf(),
            res.zip_handler is None,
            res.download_status is NoDownload,
            res.options.batch_size == 10,
            !res.has_task,
    {
        NavigationDataDownloader {
            zip_handler: None,
            download_status: DownloadStatus::NoDownload,
            options: DownloadOptions { batch_size: 10 },
            has_task: false,
        }
    }

    /// The failure message, when the download failed.
    pub fn check_failed_and_get_message(&self) -> (res: Option<String>)
        ensures
            match self.download_status {
                DownloadStatus::Failed(m) => res matches Some(r) && r@ == m@,
                _ => res is None,
            },
    {
        match &self.download_status {
            DownloadStatus::Failed(m) => Some(m.clone()),
            _ => None,
        }
    }

    /// An archive is open and entries remain to be extracted.
    pub fn should_extract_next_batch(&self) -> (res: bool)
        ensures
            res == extraction_pending(self.zip_handler),
    {
        match &self.zip_handler {
            Some(z) => z.zip_file_count > z.current_file_index,
            None => false,
        }
    }

    /// What an update has to do: report a failure first, else extract the
    /// next batch while entries remain, else nothing.
    pub fn update_action(&self) -> (res: UpdateAction)
        ensures
            match self.download_status {
                DownloadStatus::Failed(m) => res matches UpdateAction::Fail(r) && r@ == m@,
                _ => if extraction_pending(self.zip_handler) {
                    res == UpdateAction::ExtractBatch(self.options.batch_size)
                } else {
                    res is Idle
                },
            },
    {
        match self.check_failed_and_get_message() {
            Some(m) => UpdateAction::Fail(m),
            None => {
                if self.should_extract_next_batch() {
                    UpdateAction::ExtractBatch(self.options.batch_size)
                } else {
                    UpdateAction::Idle
                }
            },
        }
    }

    /// Forgets the archive and the waiting task.
    pub fn reset_download(&mut self)
        ensures
            final(self).zip_handler is None,
            !final(self).has_task,
            final(self).download_status == old(self).download_status,
            final(self).options == old(self).options,
    {
        self.zip_handler = None;
        self.has_task = false;
    }

    /// Clears the status of a finished download and resets it.
    pub fn acknowledge_download(&mut self)
        ensures
            final(self).zip_handler is None,
            !final(self).has_task,
            final(self).download_status is NoDownload,
            final(self).options == old(self).options,
    {
        self.download_status = DownloadStatus::NoDownload;
        self.reset_download();
    }

    /// Sets the number of files handled per update.
    pub fn set_download_options(&mut self, batch_size: usize)
        ensures
            final(self).options.batch_size == batch_size,
            final(self).zip_handler == old(self).zip_handler,
            final(self).download_status == old(self).download_status,
            final(self).has_task == old(self).has_task,
    {
        self.options = DownloadOptions { batch_size };
    }

    /// Starts a download for a task. A download already under way is left
    /// alone (and `None` returned); otherwise the downloader is downloading
    /// for the task, and the returned event announces it.
    pub fn download(&mut self) -> (res: Option<DownloadProgressEvent>)
        ensures
            old(self).download_status is Downloading ==> res is None && *final(self) == *old(self),
            !(old(self).download_status is Downloading) ==> {
                &&& final(self).download_status is Downloading
                &&& final(self).has_task
                &&& final(self).zip_handler == old(self).zip_handler
                &&& final(self).options == old(self).options
                &&& res == Some(
                    DownloadProgressEvent {
                        phase: DownloadProgressPhase::Downloading,
                        deleted: None,
                        total_to_unzip: None,
                        unzipped: None,
                    },
                )
            },
    {
        if matches!(self.download_status, DownloadStatus::Downloading) {
            return None;
        }
        self.download_status = DownloadStatus::Downloading;
        self.has_task = true;
        progress_event(&self.download_status, None, None, None)
    }

    /// The download failed with `message`.
    pub fn fail(&mut self, message: String)
        ensures
            final(self).download_status matches DownloadStatus::Failed(m) && m@ == message@,
            final(self).zip_handler == old(self).zip_handler,
            final(self).options == old(self).options,
            final(self).has_task == old(self).has_task,
    {
        self.download_status = DownloadStatus::Failed(message);
    }

    /// The download request finished: with the number of entries of the
    /// archive it brought, or with the reason it is unusable.
    pub fn request_finished(&mut self, archive: Result<usize, String>)
        ensures
            match archive {
                Ok(count) => {
                    &&& final(self).zip_handler == Some(
                        ZipFileHandler {
                            has_archive: true,
                            current_file_index: 0,
                            zip_file_count: count,
                            deleted: 0,
                            cleaned_destination: false,
                        },
                    )
                    &&& final(self).download_status == old(self).download_status
                },
                Err(m) => {
                    &&& final(self).download_status matches DownloadStatus::Failed(r) && r@ == m@
                    &&& final(self).zip_handler == old(self).zip_handler
                },
            },
            final(self).options == old(self).options,
            final(self).has_task == old(self).has_task,
    {
        match archive {
            Ok(count) => {
                self.zip_handler = Some(ZipFileHandler::new(count));
            },
            Err(m) => {
                self.download_status = DownloadStatus::Failed(m);
            },
        }
    }

    /// Takes in the outcome of a batch of cleaning or extraction.
    ///
    /// When extraction finished, a waiting task completes the download (with
    /// no task nothing changes). A batch with more to delete or to unzip
    /// moves to the cleaning or extracting status and reports the progress.
    /// A failed batch is reported and the download reset.
    pub fn after_batch(&mut self, result: Result<BatchReturn, String>) -> (res: BatchFollowUp)
        ensures
            final(self).options == old(self).options,
            match result {
                Ok(BatchReturn::Finished) => if old(self).has_task {
                    &&& res is Completed
                    &&& final(self).download_status is Downloaded
                    &&& final(self).zip_handler == old(self).zip_handler
                    &&& final(self).has_task
                } else {
                    res is Nothing && *final(self) == *old(self)
                },
                Ok(BatchReturn::MoreFilesToDelete) => {
                    &&& final(self).download_status is CleaningDestination
                    &&& final(self).zip_handler == old(self).zip_handler
                    &&& final(self).has_task == old(self).has_task
                    &&& res == BatchFollowUp::Progress(
                        match old(self).zip_handler {
                            Some(z) => Some(
                                DownloadProgressEvent {
                                    phase: DownloadProgressPhase::Cleaning,
                                    deleted: Some(z.deleted),
                                    total_to_unzip: None,
                                    unzipped: None,
                                },
                            ),
                            None => None,
                        },
                    )
                },
                Ok(BatchReturn::MoreFilesToUnzip) => {
                    &&& final(self).download_status is Extracting
                    &&& final(self).zip_handler == old(self).zip_handler
                    &&& final(self).has_task == old(self).has_task
                    &&& res == BatchFollowUp::Progress(
                        match old(self).zip_handler {
                            Some(z) => Some(
                                DownloadProgressEvent {
                                    phase: DownloadProgressPhase::Extracting,
                                    deleted: None,
                                    total_to_unzip: Some(z.zip_file_count),
                                    unzipped: Some(z.current_file_index),
                                },
                            ),
                            None => None,
                        },
                    )
                },
                Err(m) => {
                    &&& res matches BatchFollowUp::Failed(r) && r@ == m@
                    &&& final(self).zip_handler is None
                    &&& !final(self).has_task
                    &&& final(self).download_status == old(self).download_status
                },
            },
    {
        match result {
            Ok(BatchReturn::Finished) => {
                if !self.has_task {
                    return BatchFollowUp::Nothing;
                }
                self.download_status = DownloadStatus::Downloaded;
                BatchFollowUp::Completed
            },
            Ok(BatchReturn::MoreFilesToDelete) => {
                self.download_status = DownloadStatus::CleaningDestination;
                let event = match &self.zip_handler {
                    Some(z) => progress_event(&self.download_status, Some(z.deleted), None, None),
                    None => None,
                };
                BatchFollowUp::Progress(event)
            },
            Ok(BatchReturn::MoreFilesToUnzip) => {
                self.download_status = DownloadStatus::Extracting;
                let event = match &self.zip_handler {
                    Some(z) => progress_event(
                        &self.download_status,
                        None,
                        Some(z.zip_file_count),
                        Some(z.current_file_index),
                    ),
                    None => None,
                };
                BatchFollowUp::Progress(event)
            },
            Err(m) => {
                self.reset_download();
                BatchFollowUp::Failed(m)
            },
        }
    }
}

} // verus!
