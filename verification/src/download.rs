//! Downloading the ORT assets: the events reported while fetching, the
//! errors, the per-asset byte counting, the progress state shown to the
//! user, and the decisions around a failed download.

use vstd::prelude::*;

use crate::model::ModelAsset;
use crate::text::{
    ascii_eq_ignore_case, decimal_spec, eq_ignore_ascii_case, format_decimal, trim, trim_spec,
};

verus! {

/// Download progress events emitted while fetching ORT assets.
#[derive(Debug)]
pub enum ModelDownloadEvent {
    /// A file started downloading (`file_index` counts from one).
    Started {
        file_label: String,
        file_index: usize,
        file_count: usize,
        total_bytes: Option<u64>,
    },
    /// More bytes of the current file arrived.
    Progress { downloaded_bytes: u64, total_bytes: Option<u64> },
    /// The current file is complete.
    Finished { file_label: String },
    /// Every file is complete.
    Completed,
    /// The download failed.
    Failed { message: String },
}

/// Errors raised while downloading ORT model assets.
#[derive(Debug)]
pub enum ModelDownloadError {
    /// Downloading is not available in this build.
    Unsupported { message: String },
    /// The request could not be made or its body not read.
    RequestFailed { url: String, message: String },
    /// The server answered with a status other than success.
    HttpStatus { url: String, status: u16 },
    /// Writing the asset failed.
    Io { path: String, message: String },
}

/// An HTTP status in the success class (200 to 299).
pub open spec fn is_success_status(status: u16) -> bool {
    200 <= status && status <= 299
}

/// Accepts a response status for `url`, or reports it as an error.
pub fn check_response_status(url: &str, status: u16) -> (res: Result<(), ModelDownloadError>)
    ensures
        is_success_status(status) <==> res is Ok,
        res matches Err(e) ==> (e matches ModelDownloadError::HttpStatus { url: u, status: s } && u@
            == url@ && s == status),
{
    if 200 <= status && status <= 299 {
        Ok(())
    } else {
        Err(ModelDownloadError::HttpStatus { url: String::from_str(url), status })
    }
}

/// One asset to fetch, with its position among the files fetched.
#[derive(Debug)]
pub struct PlannedDownload {
    pub asset: ModelAsset,
    pub file_index: usize,
    pub file_count: usize,
}

/// Numbers the assets to fetch from one, each with the total count.
pub fn plan_downloads(assets: Vec<ModelAsset>) -> (res: Vec<PlannedDownload>)
    ensures
        res.len() == assets.len(),
        forall|i: int|
            0 <= i < res.len() ==> {
                &&& #[trigger] res[i].asset == assets[i]
                &&& res[i].file_index == i + 1
                &&& res[i].file_count == assets.len()
            },
{
    let total = assets.len();
    let ghost original = assets@;
    let mut planned: Vec<PlannedDownload> = Vec::new();
    let mut rest = assets;
    let mut pending: Vec<ModelAsset> = Vec::new();
    // Reverse so that popping yields the assets in order.
    while rest.len() > 0
        invariant
            pending.len() + rest.len() == total,
            total == original.len(),
            forall|i: int| 0 <= i < rest.len() ==> #[trigger] rest[i] == original[i],
            forall|i: int|
                0 <= i < pending.len() ==> #[trigger] pending[i] == original[total - 1 - i],
        decreases rest.len(),
    {
        let a = rest.pop().unwrap();
        pending.push(a);
    }
    let mut index: usize = 0;
    while pending.len() > 0
        invariant
            index + pending.len() == total,
            total == original.len(),
            planned.len() == index,
            forall|i: int|
                0 <= i < pending.len() ==> #[trigger] pending[i] == original[total - 1 - i],
            forall|i: int|
                0 <= i < planned.len() ==> {
                    &&& #[trigger] planned[i].asset == original[i]
                    &&& planned[i].file_index == i + 1
                    &&& planned[i].file_count == total
                },
        decreases pending.len(),
    {
        let a = pending.pop().unwrap();
        index = index + 1;
        planned.push(PlannedDownload { asset: a, file_index: index, file_count: total });
    }
    planned
}

/// The byte count after a chunk of `len` bytes: it grows by `len` and stays
/// at the largest `u64` once it gets there.
pub open spec fn advance_spec(downloaded: u64, len: usize) -> u64 {
    if downloaded + len > u64::MAX {
        u64::MAX
    } else {
        (downloaded + len) as u64
    }
}

/// The sum of a sequence of chunk lengths.
pub open spec fn sum_lens(lens: Seq<usize>) -> nat
    decreases lens.len(),
{
    if lens.len() == 0 {
        0
    } else {
        sum_lens(lens.drop_last()) + (lens.last() as nat)
    }
}

/// The byte count after the chunks `lens`, starting from `start`.
pub open spec fn advance_all(start: u64, lens: Seq<usize>) -> u64
    decreases lens.len(),
{
    if lens.len() == 0 {
        start
    } else {
        advance_spec(advance_all(start, lens.drop_last()), lens.last())
    }
}

/// Counting chunk by chunk gives the total number of bytes received, capped
/// at the largest `u64`.
pub proof fn lemma_count_is_total(start: u64, lens: Seq<usize>)
    ensures
        advance_all(start, lens) == if start + sum_lens(lens) > u64::MAX {
            u64::MAX as int
        } else {
            start + sum_lens(lens)
        },
    decreases lens.len(),
{
    if lens.len() > 0 {
        lemma_count_is_total(start, lens.drop_last());
    }
}

/// The state of one asset being fetched.
#[derive(Debug)]
pub struct AssetDownload {
    pub file_label: String,
    pub downloaded: u64,
    pub total_bytes: Option<u64>,
}

impl AssetDownload {
    /// Starts fetching `planned`, whose response announced `total_bytes`;
    /// returns the state and the `Started` event to report.
    pub fn start(planned: &PlannedDownload, total_bytes: Option<u64>) -> (res: (
        AssetDownload,
        ModelDownloadEvent,
    ))
        ensures
            res.0.file_label@ == planned.asset.label@,
            res.0.downloaded == 0,
            res.0.total_bytes == total_bytes,
            res.1 matches ModelDownloadEvent::Started { file_label, file_index, file_count, total_bytes: t }
                && file_label@ == planned.asset.label@ && file_index == planned.file_index
                && file_count == planned.file_count && t == total_bytes,
    {
        let state = AssetDownload { file_label: planned.asset.label.clone(), downloaded: 0, total_bytes };
        let event = ModelDownloadEvent::Started {
            file_label: planned.asset.label.clone(),
            file_index: planned.file_index,
            file_count: planned.file_count,
            total_bytes,
        };
        (state, event)
    }

    /// Accounts for a chunk of `len` bytes. An empty chunk changes nothing and
    /// reports nothing; otherwise the count advances and a `Progress` event
    /// is returned.
    pub fn on_chunk(&mut self, len: usize) -> (res: Option<ModelDownloadEvent>)
        ensures
            final(self).file_label == old(self).file_label,
            final(self).total_bytes == old(self).total_bytes,
            len == 0 ==> res is None && final(self).downloaded == old(self).downloaded,
            len > 0 ==> final(self).downloaded == advance_spec(old(self).downloaded, len) && (
            res matches Some(ModelDownloadEvent::Progress { downloaded_bytes, total_bytes })
                && downloaded_bytes == final(self).downloaded && total_bytes == old(
                self,
            ).total_bytes),
    {
        if len == 0 {
            return None;
        }
        self.downloaded = self.downloaded.saturating_add(len as u64);
        Some(ModelDownloadEvent::Progress { downloaded_bytes: self.downloaded, total_bytes: self.total_bytes })
    }

    /// The `Finished` event for this asset.
    pub fn finish(&self) -> (res: ModelDownloadEvent)
        ensures
            res matches ModelDownloadEvent::Finished { file_label } && file_label@
                == self.file_label@,
    {
        ModelDownloadEvent::Finished { file_label: self.file_label.clone() }
    }
}

/// Hands `event` to the listener, when there is one.
pub fn emit_event<F: Fn(ModelDownloadEvent)>(on_event: Option<&F>, event: ModelDownloadEvent)
    requires
        on_event matches Some(f) ==> f.requires((event,)),
    ensures
        on_event matches Some(f) ==> f.ensures((event,), ()),
{
    if let Some(handler) = on_event {
        handler(event);
    }
}

/// Whether the answer to "continue without the ORT model?" is yes: `y` or
/// `yes` in any ASCII case, surrounding whitespace ignored.
pub open spec fn confirms_spec(reply: Seq<char>) -> bool {
    ascii_eq_ignore_case(trim_spec(reply), "y"@) || ascii_eq_ignore_case(trim_spec(reply), "yes"@)
}

/// Reads the answer to "continue without the ORT model?".
pub fn confirms_continue(reply: &str) -> (res: bool)
    ensures
        res == confirms_spec(reply@),
{
    let t = trim(reply);
    eq_ignore_ascii_case(t, "y") || eq_ignore_ascii_case(t, "yes")
}

/// Whether to go on after a failed download: yes without asking when either
/// standard stream is not a terminal; otherwise as the user answered.
pub fn continue_after_download_failure(interactive: bool, reply: &str) -> (res: bool)
    ensures
        res == (!interactive || confirms_spec(reply@)),
{
    if !interactive {
        return true;
    }
    confirms_continue(reply)
}

/// Progress of the file being downloaded, as the download window shows it.
#[derive(Debug)]
pub struct DownloadProgress {
    pub file_label: String,
    pub file_index: usize,
    pub file_count: usize,
    pub downloaded_bytes: u64,
    pub total_bytes: Option<u64>,
}

impl DownloadProgress {
    /// No file yet.
    pub fn empty() -> (res: DownloadProgress)
        ensures
            res.file_label@.len() == 0,
            res.file_index == 0,
            res.file_count == 0,
            res.downloaded_bytes == 0,
            res.total_bytes is None,
    {
        DownloadProgress {
            file_label: String::new(),
            file_index: 0,
            file_count: 0,
            downloaded_bytes: 0,
            total_bytes: None,
        }
    }
}

/// The line naming the file being downloaded.
pub open spec fn file_line_spec(p: DownloadProgress) -> Seq<char> {
    if p.file_label@.len() == 0 {
        "Preparing download..."@
    } else if p.file_count > 0 {
        "Downloading "@ + p.file_label@ + " ("@ + decimal_spec(p.file_index as nat) + "/"@
            + decimal_spec(p.file_count as nat) + ")"@
    } else {
        "Downloading "@ + p.file_label@
    }
}

impl DownloadProgress {
    /// The line naming the file being downloaded: a preparing notice before
    /// the first file, else its label with its place among the files when
    /// their number is known.
    pub fn file_line(&self) -> (res: String)
        ensures
            res@ == file_line_spec(*self),
    {
        if self.file_label.as_str().unicode_len() == 0 {
            return String::from_str("Preparing download...");
        }
        let mut line = String::from_str("Downloading ");
        line.append(self.file_label.as_str());
        if self.file_count > 0 {
            line.append(" (");
            let index = format_decimal(self.file_index as u64);
            line.append(index.as_str());
            line.append("/");
            let count = format_decimal(self.file_count as u64);
            line.append(count.as_str());
            line.append(")");
        }
        line
    }
}

/// Whether the window shows progress or a failure.
#[derive(Debug)]
pub enum DownloadPhase {
    Downloading,
    Failed(String),
}

/// What the download window holds.
#[derive(Debug)]
pub struct DownloadWindowState {
    pub progress: DownloadProgress,
    pub phase: DownloadPhase,
}

impl DownloadWindowState {
    /// The state of a freshly opened window.
    pub fn new() -> (res: DownloadWindowState)
        ensures
            res.progress.file_label@.len() == 0,
            res.progress.downloaded_bytes == 0,
            res.progress.total_bytes is None,
            res.progress.file_index == 0,
            res.progress.file_count == 0,
            res.phase is Downloading,
    {
        DownloadWindowState { progress: DownloadProgress::empty(), phase: DownloadPhase::Downloading }
    }

    /// Applies a download event; returns `true` when the download completed
    /// and the window should hand over to the main window.
    pub fn apply_event(&mut self, event: ModelDownloadEvent) -> (res: bool)
        ensures
            res <==> event is Completed,
            match event {
                ModelDownloadEvent::Started { file_label, file_index, file_count, total_bytes } => {
                    &&& final(self).progress.file_label@ == file_label@
                    &&& final(self).progress.file_index == file_index
                    &&& final(self).progress.file_count == file_count
                    &&& final(self).progress.downloaded_bytes == 0
                    &&& final(self).progress.total_bytes == total_bytes
                    &&& final(self).phase is Downloading
                },
                ModelDownloadEvent::Progress { downloaded_bytes, total_bytes } => {
                    &&& final(self).progress.downloaded_bytes == downloaded_bytes
                    &&& final(self).progress.total_bytes == (if total_bytes is Some {
                        total_bytes
                    } else {
                        old(self).progress.total_bytes
                    })
                    &&& final(self).progress.file_label == old(self).progress.file_label
                    &&& final(self).progress.file_index == old(self).progress.file_index
                    &&& final(self).progress.file_count == old(self).progress.file_count
                    &&& final(self).phase == old(self).phase
                },
                ModelDownloadEvent::Finished { file_label } => {
                    &&& final(self).progress.file_label@ == file_label@
                    &&& final(self).progress.downloaded_bytes == (match old(
                        self,
                    ).progress.total_bytes {
                        Some(t) => t,
                        None => old(self).progress.downloaded_bytes,
                    })
                    &&& final(self).progress.total_bytes == old(self).progress.total_bytes
                    &&& final(self).progress.file_index == old(self).progress.file_index
                    &&& final(self).progress.file_count == old(self).progress.file_count
                    &&& final(self).phase == old(self).phase
                },
                ModelDownloadEvent::Completed => *final(self) == *old(self),
                ModelDownloadEvent::Failed { message } => {
                    &&& final(self).progress == old(self).progress
                    &&& final(self).phase matches DownloadPhase::Failed(m) && m@ == message@
                },
            },
    {
        match event {
            ModelDownloadEvent::Started { file_label, file_index, file_count, total_bytes } => {
                self.progress = DownloadProgress {
                    file_label,
                    file_index,
                    file_count,
                    downloaded_bytes: 0,
                    total_bytes,
                };
                self.phase = DownloadPhase::Downloading;
                false
            },
            ModelDownloadEvent::Progress { downloaded_bytes, total_bytes } => {
                self.progress.downloaded_bytes = downloaded_bytes;
                if total_bytes.is_some() {
                    self.progress.total_bytes = total_bytes;
                }
                false
            },
            ModelDownloadEvent::Finished { file_label } => {
                self.progress.file_label = file_label;
                if let Some(total) = self.progress.total_bytes {
                    self.progress.downloaded_bytes = total;
                }
                false
            },
            ModelDownloadEvent::Completed => true,
            ModelDownloadEvent::Failed { message } => {
                self.phase = DownloadPhase::Failed(message);
                false
            },
        }
    }
}

} // verus!
