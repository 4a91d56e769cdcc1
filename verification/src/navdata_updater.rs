use vstd::prelude::*;

use crate::download::{DownloadOptions, ZipFileHandler};

verus! {

/// How far the extraction of a download has come.
#[derive(Clone, Copy, Debug, PartialEq, Eq, Structural)]
pub struct DownloadStatistics {
    pub total_files: usize,
    pub files_unzipped: usize,
    pub files_to_unzip: usize,
}

/// Where a download of the navigation data updater stands.
pub enum DownloadStatus {
    NoDownload,
    Downloading,
    Extracting,
    Done,
    Failed(String),
}

/// The two statuses are the same (failure messages compared by their text).
pub open spec fn same_status(a: DownloadStatus, b: DownloadStatus) -> bool {
    match (a, b) {
        (DownloadStatus::NoDownload, DownloadStatus::NoDownload) => true,
        (DownloadStatus::Downloading, DownloadStatus::Downloading) => true,
        (DownloadStatus::Extracting, DownloadStatus::Extracting) => true,
        (DownloadStatus::Done, DownloadStatus::Done) => true,
        (DownloadStatus::Failed(m), DownloadStatus::Failed(n)) => m@ == n@,
        _ => false,
    }
}

fn copy_status(s: &DownloadStatus) -> (res: DownloadStatus)
    ensures
        same_status(res, *s),
{
    match s {
        DownloadStatus::NoDownload => DownloadStatus::NoDownload,
        DownloadStatus::Downloading => DownloadStatus::Downloading,
        DownloadStatus::Extracting => DownloadStatus::Extracting,
        DownloadStatus::Done => DownloadStatus::Done,
        DownloadStatus::Failed(m) => DownloadStatus::Failed(m.clone()),
    }
}

/// What an update of the updater has to do.
pub enum UpdaterAction {
    /// Send these statistics, then extract the next batch; once no entry
    /// remains, announce the download and clear the archive.
    Extract(DownloadStatistics),
    /// Send this failure message (the archive has been cleared).
    ReportFailure(String),
    /// Nothing to do.
    Nothing,
}

/// The downloader of the navigation data updater.
pub struct NavdataDownloader {
    pub zip_handler: Option<ZipFileHandler>,
    pub status: DownloadStatus,
    pub options: DownloadOptions,
}

/// The status that the archive implies: no archive, no download; every
/// entry extracted, done; entries left, extracting. An index past the last
/// entry keeps the status as it is.
pub open spec fn implied_status(h: Option<ZipFileHandler>, status: DownloadStatus, res: DownloadStatus) -> bool {
    match h {
        None => res is NoDownload,
        Some(z) => if z.zip_file_count == z.current_file_index {
            res is Done
        } else if z.zip_file_count > z.current_file_index {
            res is Extracting
        } else {
            same_status(res, status)
        },
    }
}

impl NavdataDownloader {
    pub open spec fn wf(self) -> bool {
        self.zip_handler matches Some(z) ==> z.wf()
    }

    /// A downloader with no download and a batch size of 10.
    pub fn new() -> (res: Self)
        ensures
            res.wf(),
            res.zip_handler is None,
            res.status is NoDownload,
            res.options.batch_size == 10,
    {
        NavdataDownloader {
            zip_handler: None,
            status: DownloadStatus::NoDownload,
            options: DownloadOptions { batch_size: 10 },
        }
    }

    /// Brings the status in line with the archive and returns it.
    pub fn update_and_get_status(&mut self) -> (res: DownloadStatus)
        ensures
            implied_status(old(self).zip_handler, old(self).status, final(self).status),
            same_status(res, final(self).status),
            final(self).zip_handler == old(self).zip_handler,
            final(self).options == old(self).options,
    {
        match &self.zip_handler {
            None => {
                self.status = DownloadStatus::NoDownload;
            },
            Some(z) => {
                if z.zip_file_count == z.current_file_index {
                    self.status = DownloadStatus::Done;
                } else if z.zip_file_count > z.current_file_index {
                    self.status = DownloadStatus::Extracting;
                }
            },
        }
        copy_status(&self.status)
    }

    /// How far extraction has come, when an archive is open.
    pub fn get_download_statistics(&self) -> (res: Result<DownloadStatistics, String>)
        requires
            self.wf(),
        ensures
            match self.zip_handler {
                Some(z) => res == Ok::<DownloadStatistics, String>(
                    DownloadStatistics {
                        total_files: z.zip_file_count,
                        files_unzipped: z.current_file_index,
                        files_to_unzip: (z.zip_file_count - z.current_file_index) as usize,
                    },
                ),
                None => res is Err,
            },
    {
        match &self.zip_handler {
            Some(z) => Ok(
                DownloadStatistics {
                    total_files: z.zip_file_count,
                    files_unzipped: z.current_file_index,
                    files_to_unzip: z.zip_file_count - z.current_file_index,
                },
            ),
            None => Err(String::from_str("No zip handler")),
        }
    }

    /// Closes the archive; the status then follows.
    pub fn clear_zip_handler(&mut self)
        ensures
            final(self).zip_handler is None,
            final(self).status is NoDownload,
            final(self).options == old(self).options,
    {
        self.zip_handler = None;
        self.update_and_get_status();
    }

    /// What an update has to do: extract while entries remain (with the
    /// statistics to send), report a failure (clearing the archive), or
    /// nothing.
    pub fn on_update(&mut self) -> (res: UpdaterAction)
        requires
            old(self).wf(),
        ensures
            final(self).wf(),
            final(self).options == old(self).options,
            match old(self).zip_handler {
                Some(z) => if z.zip_file_count > z.current_file_index {
                    &&& res == UpdaterAction::Extract(
                        DownloadStatistics {
                            total_files: z.zip_file_count,
                            files_unzipped: z.current_file_index,
                            files_to_unzip: (z.zip_file_count - z.current_file_index) as usize,
                        },
                    )
                    &&& final(self).status is Extracting
                    &&& final(self).zip_handler == old(self).zip_handler
                } else {
                    &&& res is Nothing
                    &&& final(self).status is Done
                    &&& final(self).zip_handler == old(self).zip_handler
                },
                None => res is Nothing && final(self).status is NoDownload && final(self).zip_handler is None,
            },
    {
        let status = self.update_and_get_status();
        match status {
            DownloadStatus::Extracting => {
                match self.get_download_statistics() {
                    Ok(stats) => UpdaterAction::Extract(stats),
                    Err(_) => UpdaterAction::Nothing,
                }
            },
            DownloadStatus::Failed(m) => {
                self.clear_zip_handler();
                UpdaterAction::ReportFailure(m)
            },
            _ => UpdaterAction::Nothing,
        }
    }

    /// Sets the number of files extracted per update.
    pub fn set_download_options(&mut self, batch_size: usize)
        ensures
            final(self).options.batch_size == batch_size,
            final(self).zip_handler == old(self).zip_handler,
            same_status(final(self).status, old(self).status),
    {
        self.options = DownloadOptions { batch_size };
        proof {
            assert(same_status(self.status, old(self).status));
        }
    }

    /// Starts a download when none is under way. `request` is the outcome of
    /// reading the call's arguments: on success the updater is downloading
    /// and the request must be sent (`true`); on failure it failed with the
    /// message.
    pub fn download(&mut self, request: Result<(), String>) -> (res: bool)
        requires
            old(self).wf(),
        ensures
            final(self).zip_handler == old(self).zip_handler,
            final(self).options == old(self).options,
            ({
                let busy = !(old(self).zip_handler is None);
                if busy {
                    !res && implied_status(old(self).zip_handler, old(self).status, final(self).status)
                } else {
                    match request {
                        Ok(_) => res && final(self).status is Downloading,
                        Err(m) => !res && (final(self).status matches DownloadStatus::Failed(r) && r@ == m@),
                    }
                }
            }),
    {
        let status = self.update_and_get_status();
        if !matches!(status, DownloadStatus::NoDownload) {
            return false;
        }
        match request {
            Ok(_) => {
                self.status = DownloadStatus::Downloading;
                true
            },
            Err(m) => {
                self.status = DownloadStatus::Failed(m);
                false
            },
        }
    }

    /// The download request finished: with the number of entries of the
    /// archive it brought (extraction starts), or with the reason it failed.
    pub fn request_finished(&mut self, archive: Result<usize, String>)
        requires
            old(self).wf(),
        ensures
            final(self).wf(),
            final(self).options == old(self).options,
            match archive {
                Ok(count) => {
                    &&& final(self).zip_handler == Some(ZipFileHandler {
                        has_archive: true,
                        current_file_index: 0,
                        zip_file_count: count,
                        deleted: 0,
                        cleaned_destination: false,
                    })
                    &&& final(self).status is Extracting
                },
                Err(m) => {
                    &&& final(self).status matches DownloadStatus::Failed(r) && r@ == m@
                    &&& final(self).zip_handler == old(self).zip_handler
                },
            },
    {
        match archive {
            Ok(count) => {
                self.zip_handler = Some(ZipFileHandler::new(count));
                self.status = DownloadStatus::Extracting;
            },
            Err(m) => {
                self.status = DownloadStatus::Failed(m);
            },
        }
    }
}

/// Bringing the status in line with the archive a second time changes
/// nothing.
pub proof fn lemma_update_status_idempotent(
    h: Option<ZipFileHandler>,
    s0: DownloadStatus,
    s1: DownloadStatus,
    s2: DownloadStatus,
)
    requires
        implied_status(h, s0, s1),
        implied_status(h, s1, s2),
    ensures
        same_status(s1, s2),
{
    match h {
        None => {},
        Some(z) => {
            if z.zip_file_count < z.current_file_index {
                match (s1, s2) {
                    (DownloadStatus::Failed(m), DownloadStatus::Failed(n)) => {},
                    _ => {},
                }
            }
        },
    }
}

} // verus!
