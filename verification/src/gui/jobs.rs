//! Background work of the desktop surface: what a job is started with, and what the surface is once
//! it has ended.

use crate::batch::BatchScanArgs;
use crate::cli::ScanToFileArgs;
use crate::curves::{curve_of, parse_curve_points};
use crate::error::{joined, outcome, outcome_view, Failure, ScanError};
use crate::export::{Export, ExportOptions};
use crate::gui::actions::{control_batch, control_scan, no_jxl_batch, with_status, SaveAction};
use crate::gui::image_ext;
use crate::gui::state::{
    committed, control_export, opt_session, references, with_restored_password,
    without_password, Gui, GuiState, MultipageSession, Session, Status, StatusText,
};
use crate::paths::{extension_of_name, name_extension, Extension, Suffix};
use crate::processing::{copy_opt, larger, opt_text};
use crate::text::{same_text, strings};
use vstd::prelude::*;

verus! {

// ---------------------------------------------------------------------------
// Events
// ---------------------------------------------------------------------------

/// How a job ended.
#[derive(Debug)]
pub enum JobEvent {
    /// An image was written. Where its destination cannot be read back, a raster of it was kept.
    ScanFinished { path: String, working_image: Option<String>, advance_frame: bool },
    BatchFinished(Vec<String>),
    SaveFinished {
        path: String,
        retained_source: Option<String>,
        candidate: Option<MultipageSession>,
        advance_frame: bool,
    },
    OcrFinished { engine: String, text: String },
    Cancelled,
    Failed(String),
}

/// How a job ended, its texts as sequences.
pub enum Ending {
    ScanFinished { path: Seq<char>, working_image: Option<Seq<char>>, advance_frame: bool },
    BatchFinished(Seq<Seq<char>>),
    SaveFinished {
        path: Seq<char>,
        retained_source: Option<Seq<char>>,
        candidate: Option<Session>,
        advance_frame: bool,
    },
    OcrFinished { engine: Seq<char>, text: Seq<char> },
    Cancelled,
    Failed(Seq<char>),
}

impl View for JobEvent {
    type V = Ending;

    open spec fn view(&self) -> Ending {
        match self {
            JobEvent::ScanFinished { path, working_image, advance_frame } => Ending::ScanFinished {
                path: path@,
                working_image: opt_text(*working_image),
                advance_frame: *advance_frame,
            },
            JobEvent::BatchFinished(paths) => Ending::BatchFinished(strings(paths@)),
            JobEvent::SaveFinished { path, retained_source, candidate, advance_frame } =>
            Ending::SaveFinished {
                path: path@,
                retained_source: opt_text(*retained_source),
                candidate: opt_session(*candidate),
                advance_frame: *advance_frame,
            },
            JobEvent::OcrFinished { engine, text } => Ending::OcrFinished {
                engine: engine@,
                text: text@,
            },
            JobEvent::Cancelled => Ending::Cancelled,
            JobEvent::Failed(text) => Ending::Failed(text@),
        }
    }
}

/// How a job that fails ends: cancelled work is no failure.
pub open spec fn failed_ending(failure: Failure) -> Ending {
    match failure {
        Failure::Cancelled(_) => Ending::Cancelled,
        _ => Ending::Failed(failure.text()),
    }
}

impl JobEvent {
    /// How a job that fails ends.
    pub fn from_error(error: ScanError) -> (r: JobEvent)
        ensures
            r@ == failed_ending(error@),
    {
        match error {
            ScanError::Cancelled(_) => JobEvent::Cancelled,
            error => JobEvent::Failed(error.message()),
        }
    }
}

/// What is said of a worker that panicked, given the text of the panic, where it has one.
pub fn worker_panic(message: Option<&str>) -> (r: String)
    ensures
        r@ == "background scan worker panicked: "@ + (match message {
            Some(text) => text@,
            None => "non-string panic payload"@,
        }),
{
    match message {
        Some(text) => joined("background scan worker panicked: ", text),
        None => joined("background scan worker panicked: ", "non-string panic payload"),
    }
}

// ---------------------------------------------------------------------------
// Starting
// ---------------------------------------------------------------------------

/// Whether a destination cannot be read back as an image, so that a raster has to be kept.
pub open spec fn needs_working_image(extension: Suffix) -> bool {
    extension.lower() == Some("pdf"@) || extension.lower() == Some("jxl"@)
}

/// Whether a destination cannot be read back as an image, so that a raster has to be kept.
pub fn destination_needs_working_image(extension: &Extension) -> (r: bool)
    ensures
        r <==> extension@.lower() == Some("pdf"@) || extension@.lower() == Some("jxl"@),
        r == needs_working_image(extension@),
{
    match extension.lower() {
        Some(text) => same_text(text.as_str(), "pdf") || same_text(text.as_str(), "jxl"),
        None => false,
    }
}

/// The first of the color controls that is not acceptable decides.
pub open spec fn colors_checked(
    saturation: Result<(), Failure>,
    hue: Result<(), Failure>,
    curves_text: Seq<char>,
) -> Result<(), Failure> {
    match saturation {
        Err(failure) => Err(failure),
        Ok(_) => match hue {
            Err(failure) => Err(failure),
            Ok(_) => match curve_of(curves_text) {
                Err(failure) => Err(failure),
                Ok(_) => Ok(()),
            },
        },
    }
}

impl GuiState {
    /// Whether the color controls are acceptable, given what the checks of saturation and hue gave.
    pub fn validate_color_controls(
        &self,
        saturation: Result<(), ScanError>,
        hue: Result<(), ScanError>,
    ) -> (r: Result<(), ScanError>)
        ensures
            r is Ok <==> saturation is Ok && hue is Ok && curve_of(self.processing.curves_text@) is Ok,
            outcome(r) == colors_checked(
                outcome(saturation),
                outcome(hue),
                self@.processing.curves_text,
            ),
    {
        match saturation {
            Ok(()) => match hue {
                Ok(()) => match parse_curve_points(self.processing.curves_text.as_str()) {
                    Ok(_) => Ok(()),
                    Err(error) => Err(error),
                },
                Err(error) => Err(error),
            },
            Err(error) => Err(error),
        }
    }
}

/// The kinds of work that the status line tells apart.
#[derive(Clone, Copy, Debug, PartialEq, Eq, Structural)]
pub enum JobKind {
    Scan,
    Save,
    Process,
}

/// The surface once a job of some kind runs.
pub open spec fn job_running(state: Gui, kind: JobKind) -> Gui {
    Gui {
        cancel_requested: false,
        scanning: true,
        status: match kind {
            JobKind::Scan => StatusText::Scanning,
            JobKind::Save => StatusText::Saving,
            JobKind::Process => StatusText::Processing,
        },
        ..state
    }
}

/// A scan that is ready to run.
#[derive(Debug)]
pub struct ScanStart {
    pub args: ScanToFileArgs,
    pub export: ExportOptions,
    pub pending_pdf_password: Option<String>,
    /// Whether the scan goes to a raster first, and the export is made from that.
    pub through_working_image: bool,
}

/// The export controls of a preview: no secret and no recognition goes into it.
pub open spec fn preview_export(export: Export) -> Export {
    Export { pdf_password: None, searchable_pdf: false, ..export }
}

/// A batch that is ready to run.
#[derive(Debug)]
pub struct BatchStart {
    pub args: BatchScanArgs,
    pub export: ExportOptions,
    pub pending_pdf_password: Option<String>,
}

/// What the status line says of color controls that are not acceptable.
pub open spec fn color_error(failure: Failure) -> StatusText {
    StatusText::Error("invalid color controls: "@ + failure.text())
}

impl GuiState {
    /// Puts together a scan. While a job is active or the surface closes nothing happens; with
    /// controls that are not acceptable only the status line changes. A preview leaves the
    /// password where it is; any other scan takes it.
    #[verifier::spinoff_prover]
    #[verifier::rlimit(60)]
    pub fn start_scan(
        &mut self,
        busy: bool,
        preview: bool,
        colors: Result<(), ScanError>,
        output_name: Result<String, ScanError>,
    ) -> (r: Option<ScanStart>)
        ensures
            r is Some ==> !busy && colors is Ok && output_name is Ok,
            !busy && colors is Ok && output_name is Ok ==> r is Some,
            r is Some ==> r->0.args.use_preview == preview && r->0.args.duplex == old(self).capture.duplex
                && r->0.args.dpi == old(self).capture.dpi,
            r is Some && !preview ==> r->0.args.width == old(self).capture.width && r->0.args.height == old(
                self,
            ).capture.height,
            r is Some && preview ==> r->0.export.pdf_password is None && !r->0.export.searchable_pdf
                && r->0.pending_pdf_password is None && !r->0.through_working_image && final(self).pdf_password@
                == old(self).pdf_password@,
            r is Some && !preview ==> final(self).pdf_password@.len() == 0 && r->0.export.searchable_pdf == old(
                self,
            ).output.searchable_pdf && opt_text(r->0.export.pdf_password) == (if old(
                self,
            ).pdf_password@.len() == 0 {
                None
            } else {
                Some(old(self).pdf_password@)
            }),
            r is None ==> final(self).pdf_password@ == old(self).pdf_password@,
            busy ==> r is None && final(self)@ == old(self)@,
            !busy ==> match outcome(colors) {
                Err(failure) => r is None && final(self)@ == with_status(
                    old(self)@,
                    color_error(failure),
                ),
                Ok(_) => match outcome_view(output_name) {
                    Err(failure) => r is None && final(self)@ == with_status(
                        old(self)@,
                        StatusText::Error(failure.text()),
                    ),
                    Ok(name) => {
                        let export = control_export(old(self)@.output, old(self)@.pdf_password);
                        &&& r is Some
                        &&& r->0.args@ == control_scan(old(self)@, preview, name)
                        &&& r->0.export@ == if preview {
                            preview_export(export)
                        } else {
                            export
                        }
                        &&& opt_text(r->0.pending_pdf_password) == if preview {
                            None
                        } else {
                            export.pdf_password
                        }
                        &&& r->0.through_working_image == (!preview && needs_working_image(
                            name_extension(r->0.args@.out),
                        ))
                        &&& final(self)@ == if preview {
                            old(self)@
                        } else {
                            without_password(old(self)@)
                        }
                    },
                },
            },
    {
        if busy {
            return None;
        }
        match colors {
            Ok(()) => {},
            Err(error) => {
                let text = error.message();
                self.status = Status::Error(joined("invalid color controls: ", text.as_str()));
                return None;
            },
        }
        let args = match self.scan_args(preview, output_name) {
            Ok(args) => args,
            Err(error) => {
                self.status = Status::Error(error.message());
                return None;
            },
        };
        let through_working_image = !preview && destination_needs_working_image(
            &extension_of_name(args.out.as_str()),
        );
        if preview {
            let options = self.export_options();
            let export = ExportOptions { pdf_password: None, searchable_pdf: false, ..options };
            Some(ScanStart { args, export, pending_pdf_password: None, through_working_image })
        } else {
            let export = self.take_export_options();
            let pending_pdf_password = copy_opt(&export.pdf_password);
            Some(ScanStart { args, export, pending_pdf_password, through_working_image })
        }
    }

    /// Puts together a batch into a directory, with at least one page. It is refused as a scan is,
    /// and where its pages would be JPEG XL images.
    #[verifier::spinoff_prover]
    #[verifier::rlimit(60)]
    pub fn start_batch(
        &mut self,
        busy: bool,
        colors: Result<(), ScanError>,
        output_name: Result<String, ScanError>,
        out_dir: String,
    ) -> (r: Option<BatchStart>)
        ensures
            r is Some ==> !busy && colors is Ok && output_name is Ok,
            r is Some ==> r->0.args.width == old(self).capture.width && r->0.args.height == old(
                self,
            ).capture.height && r->0.args.dpi == old(self).capture.dpi && r->0.args.duplex == old(
                self,
            ).capture.duplex,
            r is Some ==> r->0.args.out_dir@ == out_dir@ && r->0.args.device@ == old(self).capture.device@,
            r is Some && old(self).capture.batch_pages >= 1 ==> r->0.args.pages == old(self).capture.batch_pages,
            r is Some && old(self).capture.batch_pages == 0 ==> r->0.args.pages == 1,
            r is Some ==> final(self).pdf_password@.len() == 0 && opt_text(r->0.export.pdf_password) == (if old(
                self,
            ).pdf_password@.len() == 0 {
                None
            } else {
                Some(old(self).pdf_password@)
            }),
            r is None ==> final(self).pdf_password@ == old(self).pdf_password@,
            busy ==> r is None && final(self)@ == old(self)@,
            !busy ==> match batch_refusal(
                old(self)@,
                outcome(colors),
                outcome_view(output_name),
            ) {
                Some(status) => r is None && final(self)@ == with_status(old(self)@, status),
                None => {
                    &&& r is Some
                    &&& output_name is Ok
                    &&& r->0.args@ == control_batch(
                        old(self)@,
                        output_name->Ok_0@,
                        out_dir@,
                        larger(old(self)@.capture.batch_pages as int, 1) as u32,
                    )
                    &&& r->0.export@ == control_export(old(self)@.output, old(self)@.pdf_password)
                    &&& opt_text(r->0.pending_pdf_password) == r->0.export@.pdf_password
                    &&& final(self)@ == without_password(old(self)@)
                },
            },
    {
        if busy {
            return None;
        }
        match colors {
            Ok(()) => {},
            Err(error) => {
                let text = error.message();
                self.status = Status::Error(joined("invalid color controls: ", text.as_str()));
                return None;
            },
        }
        let pages: u32 = if self.capture.batch_pages < 1 {
            1
        } else {
            self.capture.batch_pages
        };
        let args = match self.batch_args(output_name, out_dir, pages) {
            Ok(args) => args,
            Err(error) => {
                self.status = Status::Error(error.message());
                return None;
            },
        };
        let export = self.take_export_options();
        let pending_pdf_password = copy_opt(&export.pdf_password);
        Some(BatchStart { args, export, pending_pdf_password })
    }

    /// Takes note of a job that runs now.
    pub fn job_started(&mut self, kind: JobKind)
        ensures
            final(self).scanning && !final(self).cancel_requested,
            kind == JobKind::Scan ==> final(self).status@ is Scanning,
            kind == JobKind::Save ==> final(self).status@ is Saving,
            kind == JobKind::Process ==> final(self).status@ is Processing,
            final(self)@ == job_running(old(self)@, kind),
    {
        self.cancel_requested = false;
        self.scanning = true;
        self.status =
        match kind {
            JobKind::Scan => Status::Scanning,
            JobKind::Save => Status::Saving,
            JobKind::Process => Status::Processing,
        };
    }

    /// Takes note of a job that could not be started after all.
    pub fn job_refused(&mut self, pending_pdf_password: Option<String>, error: &ScanError)
        ensures
            final(self)@ == with_status(
                with_restored_password(old(self)@, opt_text(pending_pdf_password)),
                StatusText::Error(error@.text()),
            ),
    {
        self.restore_export_password(pending_pdf_password);
        self.status = Status::Error(error.message());
    }

    /// Shows the latest of the progress messages that came in, if there is one.
    pub fn show_progress(&mut self, messages: &Vec<String>)
        ensures
            final(self)@ == if messages@.len() == 0 {
                old(self)@
            } else {
                with_status(old(self)@, StatusText::Message(messages@.last()@))
            },
    {
        if messages.len() > 0 {
            self.status = Status::Message(messages[messages.len() - 1].clone());
        }
    }
}

/// The status with which a batch does not start.
pub open spec fn batch_refusal(
    state: Gui,
    colors: Result<(), Failure>,
    output_name: Result<Seq<char>, Failure>,
) -> Option<StatusText> {
    match colors {
        Err(failure) => Some(color_error(failure)),
        Ok(_) => match output_name {
            Err(failure) => Some(StatusText::Error(failure.text())),
            Ok(_) => if image_ext(state.output.output_fmt, "png"@) == "jxl"@ {
                Some(StatusText::Error(no_jxl_batch().text()))
            } else {
                None
            },
        },
    }
}

impl SaveAction {
    /// The source that stays the current image: that of an image of its own whose destination
    /// cannot be read back.
    pub fn retained_source(&self, extension: &Extension) -> (r: Option<String>)
        ensures
            r is Some ==> r->0@ == self.src@,
            r is Some <==> self.candidate is None && (extension@.lower() == Some("pdf"@) || extension@.lower() == Some(
                "jxl"@,
            )),
            opt_text(r) == if self.candidate is None && needs_working_image(extension@) {
                Some(self.src@)
            } else {
                None
            },
    {
        if self.candidate.is_none() && destination_needs_working_image(extension) {
            Some(self.src.clone())
        } else {
            None
        }
    }
}

// ---------------------------------------------------------------------------
// Ending
// ---------------------------------------------------------------------------

/// The surface after a job that failed: the password that it consumed is back, unless another one
/// was entered in the meantime.
pub open spec fn after_failure(
    state: Gui,
    pending: Option<Seq<char>>,
    status: StatusText,
) -> Gui {
    with_status(with_restored_password(state, pending), status)
}

/// The frame number after a job.
pub open spec fn next_frame(frame: i32, advance_frame: bool) -> i32 {
    if advance_frame {
        (frame + 1) as i32
    } else {
        frame
    }
}

/// The surface after a scan: the raster that was kept is the current image, or else what was
/// written.
pub open spec fn after_scan(
    state: Gui,
    path: Seq<char>,
    working_image: Option<Seq<char>>,
    advance_frame: bool,
) -> Gui {
    Gui {
        last_image: match working_image {
            Some(raster) => Some(raster),
            None => Some(path),
        },
        status: StatusText::Done(path),
        frame_index: next_frame(state.frame_index, advance_frame),
        ..state
    }
}

/// The surface after a batch: its last page is the current image.
pub open spec fn after_batch(state: Gui, paths: Seq<Seq<char>>) -> Gui {
    Gui {
        last_image: if paths.len() > 0 {
            Some(paths.last())
        } else {
            state.last_image
        },
        status: StatusText::BatchDone(paths.len() as usize),
        ..state
    }
}

/// The surface after a save: a page of a document extends its session and leaves the current image
/// as it is.
pub open spec fn after_save(
    state: Gui,
    path: Seq<char>,
    retained_source: Option<Seq<char>>,
    candidate: Option<Session>,
    advance_frame: bool,
) -> Gui {
    let frame = next_frame(state.frame_index, advance_frame);
    let kept = match candidate {
        Some(session) => committed(state, session),
        None => Gui {
            last_image: match retained_source {
                Some(source) => Some(source),
                None => Some(path),
            },
            ..state
        },
    };
    Gui {
        frame_index: frame,
        status: if advance_frame {
            StatusText::DoneFrame { path, frame }
        } else {
            StatusText::Done(path)
        },
        ..kept
    }
}

/// The surface after a job, given the password that it consumed, whether its worker could be
/// joined, and how it ended.
pub open spec fn after_job(
    state: Gui,
    pending: Option<Seq<char>>,
    joined: Result<(), Seq<char>>,
    terminal: Option<Ending>,
) -> Gui {
    let idle = Gui { scanning: false, cancel_requested: false, ..state };
    match joined {
        Err(text) => after_failure(idle, pending, StatusText::Error(text)),
        Ok(_) => match terminal {
            Some(Ending::ScanFinished { path, working_image, advance_frame }) => after_scan(
                idle,
                path,
                working_image,
                advance_frame,
            ),
            Some(Ending::BatchFinished(paths)) => after_batch(idle, paths),
            Some(Ending::SaveFinished { path, retained_source, candidate, advance_frame }) =>
            after_save(idle, path, retained_source, candidate, advance_frame),
            Some(Ending::OcrFinished { engine, text }) => with_status(
                idle,
                StatusText::Recognized { engine, text },
            ),
            Some(Ending::Cancelled) => after_failure(idle, pending, StatusText::Cancelled),
            Some(Ending::Failed(text)) => after_failure(idle, pending, StatusText::Error(text)),
            None => after_failure(
                idle,
                pending,
                StatusText::Error("background scan worker stopped without a result"@),
            ),
        },
    }
}

/// Whether a job ended without what it was started for.
pub open spec fn fell_short(joined: Result<(), Seq<char>>, terminal: Option<Ending>) -> bool {
    joined is Err || match terminal {
        Some(ending) => ending is Cancelled || ending is Failed,
        None => true,
    }
}

/// What a joined worker gave, its text as a sequence.
pub open spec fn join_view(joined: Result<(), String>) -> Result<(), Seq<char>> {
    match joined {
        Ok(_) => Ok(()),
        Err(text) => Err(text@),
    }
}

/// What a terminal event is, where there is one.
pub open spec fn opt_ending(o: Option<JobEvent>) -> Option<Ending> {
    match o {
        Some(event) => Some(event@),
        None => None,
    }
}

impl GuiState {
    fn job_failed(&mut self, pending: Option<String>, status: Status)
        ensures
            final(self)@ == after_failure(old(self)@, opt_text(pending), status@),
    {
        self.restore_export_password(pending);
        self.status = status;
    }

    fn scan_finished(
        &mut self,
        path: String,
        working_image: Option<String>,
        advance_frame: bool,
    )
        requires
            old(self)@.frame_index < i32::MAX,
        ensures
            final(self)@ == after_scan(
                old(self)@,
                path@,
                opt_text(working_image),
                advance_frame,
            ),
    {
        match working_image {
            Some(raster) => {
                self.last_image = Some(raster);
                self.status = Status::Done(path);
            },
            None => {
                self.set_image_success(path);
            },
        }
        if advance_frame {
            self.frame_index = self.frame_index + 1;
        }
    }

    fn batch_finished(&mut self, paths: &Vec<String>)
        ensures
            final(self)@ == after_batch(old(self)@, strings(paths@)),
    {
        let count: usize = paths.len();
        if count > 0 {
            assert(strings(paths@).last() == paths@[count - 1]@);
            self.last_image = Some(paths[count - 1].clone());
        }
        self.status = Status::BatchDone(count);
    }

    fn save_finished(
        &mut self,
        path: String,
        retained_source: Option<String>,
        candidate: Option<MultipageSession>,
        advance_frame: bool,
    )
        requires
            old(self)@.frame_index < i32::MAX,
        ensures
            final(self)@ == after_save(
                old(self)@,
                path@,
                opt_text(retained_source),
                opt_session(candidate),
                advance_frame,
            ),
    {
        match candidate {
            Some(candidate) => {
                self.commit_multipage_save(candidate);
            },
            None => match retained_source {
                Some(source) => {
                    self.last_image = Some(source);
                },
                None => {
                    self.last_image = Some(path.clone());
                },
            },
        }
        if advance_frame {
            self.frame_index = self.frame_index + 1;
            self.status = Status::DoneFrame { path, frame: self.frame_index };
        } else {
            self.status = Status::Done(path);
        }
    }

    /// Takes note of a job that has ended: of the password that it consumed, of whether its worker
    /// could be joined, and of how it ended.
    #[verifier::spinoff_prover]
    #[verifier::rlimit(60)]
    pub fn finish_job(
        &mut self,
        pending_pdf_password: Option<String>,
        joined: Result<(), String>,
        terminal: Option<JobEvent>,
    )
        requires
            old(self)@.frame_index < i32::MAX,
        ensures
            !final(self).scanning && !final(self).cancel_requested,
            joined is Ok && terminal is Some && terminal->0 is ScanFinished ==> opt_text(final(self).last_image)
                == Some(
                match opt_text(terminal->0->working_image) {
                    Some(raster) => raster,
                    None => terminal->0->ScanFinished_path@,
                },
            ) && final(self).frame_index == old(self).frame_index + if terminal->0->ScanFinished_advance_frame {
                1int
            } else {
                0
            },
            joined is Ok && terminal is Some && terminal->0 is BatchFinished && terminal->0->BatchFinished_0@.len()
                > 0 ==> opt_text(final(self).last_image) == Some(terminal->0->BatchFinished_0@.last()@),
            joined is Ok && terminal is Some && terminal->0 is SaveFinished && terminal->0->candidate is None
                ==> opt_text(final(self).last_image) == Some(
                match opt_text(terminal->0->retained_source) {
                    Some(source) => source,
                    None => terminal->0->SaveFinished_path@,
                },
            ),
            joined is Ok && terminal is Some && terminal->0 is SaveFinished ==> final(self).frame_index == old(
                self,
            ).frame_index + if terminal->0->SaveFinished_advance_frame {
                1int
            } else {
                0
            },
            joined is Err || terminal is None ==> final(self).frame_index == old(self).frame_index && opt_text(
                final(self).last_image,
            ) == opt_text(old(self).last_image),
            final(self)@ == after_job(
                old(self)@,
                opt_text(pending_pdf_password),
                join_view(joined),
                opt_ending(terminal),
            ),
    {
        self.scanning = false;
        self.cancel_requested = false;
        match joined {
            Err(text) => {
                self.job_failed(pending_pdf_password, Status::Error(text));
            },
            Ok(()) => match terminal {
                Some(JobEvent::ScanFinished { path, working_image, advance_frame }) => {
                    self.scan_finished(path, working_image, advance_frame);
                },
                Some(JobEvent::BatchFinished(paths)) => {
                    self.batch_finished(&paths);
                },
                Some(
                    JobEvent::SaveFinished { path, retained_source, candidate, advance_frame },
                ) => {
                    self.save_finished(path, retained_source, candidate, advance_frame);
                },
                Some(JobEvent::OcrFinished { engine, text }) => {
                    self.status = Status::Recognized { engine, text };
                },
                Some(JobEvent::Cancelled) => {
                    self.job_failed(pending_pdf_password, Status::Cancelled);
                },
                Some(JobEvent::Failed(text)) => {
                    self.job_failed(pending_pdf_password, Status::Error(text));
                },
                None => {
                    self.job_failed(
                        pending_pdf_password,
                        Status::Error("background scan worker stopped without a result".to_owned()),
                    );
                },
            },
        }
    }
}

/// A job that falls short changes no document, no current image and no frame number, and leaves
/// the surface idle.
pub proof fn failed_jobs_keep_the_document(
    state: Gui,
    pending: Option<Seq<char>>,
    joined: Result<(), Seq<char>>,
    terminal: Option<Ending>,
)
    requires
        fell_short(joined, terminal),
    ensures
        ({
            let after = after_job(state, pending, joined, terminal);
            &&& after.session == state.session
            &&& after.last_image == state.last_image
            &&& after.frame_index == state.frame_index
            &&& !after.scanning
            &&& !after.cancel_requested
        }),
{
}

/// A scan that falls short gives its password back: the surface holds the one that it was started
/// with, unless another one was entered while it ran.
pub proof fn failed_scans_keep_the_password(
    state: Gui,
    joined: Result<(), Seq<char>>,
    terminal: Option<Ending>,
)
    requires
        fell_short(joined, terminal),
    ensures
        after_job(
            job_running(without_password(state), JobKind::Scan),
            control_export(state.output, state.pdf_password).pdf_password,
            joined,
            terminal,
        ).pdf_password == state.pdf_password,
{
    if state.pdf_password.len() == 0 {
        assert(state.pdf_password =~= Seq::<char>::empty());
    }
}

/// The session of a document grows only by a save that ended well: no other ending changes it.
pub proof fn only_saves_change_the_session(
    state: Gui,
    pending: Option<Seq<char>>,
    joined: Result<(), Seq<char>>,
    terminal: Option<Ending>,
)
    requires
        !(joined is Ok && terminal is Some && terminal->0 is SaveFinished),
    ensures
        after_job(state, pending, joined, terminal).session == state.session,
{
}

/// What the current image or the session refers to is kept: the raster of a scan is referenced
/// once the scan has ended.
pub proof fn finished_scans_are_referenced(
    state: Gui,
    pending: Option<Seq<char>>,
    path: Seq<char>,
    raster: Seq<char>,
    advance_frame: bool,
)
    ensures
        references(
            after_job(
                state,
                pending,
                Ok(()),
                Some(
                    Ending::ScanFinished {
                        path,
                        working_image: Some(raster),
                        advance_frame,
                    },
                ),
            ),
            raster,
        ),
{
}

// ---------------------------------------------------------------------------
// Closing
// ---------------------------------------------------------------------------

/// What a request to close the surface leads to.
#[derive(Clone, Copy, Debug, PartialEq, Eq, Structural)]
pub enum CloseStep {
    /// Nothing runs: the surface closes.
    Close,
    /// A job runs: it is cancelled, and the surface stays until it has ended.
    Wait,
}

impl GuiState {
    /// Decides on a request to close the surface, and cancels the job that is active.
    pub fn request_close(&mut self, job_active: bool) -> (r: CloseStep)
        ensures
            r == (if job_active {
                CloseStep::Wait
            } else {
                CloseStep::Close
            }),
            final(self)@ == if job_active {
                Gui {
                    cancel_requested: true,
                    status: if old(self)@.scanning {
                        StatusText::Cancelled
                    } else {
                        StatusText::Idle
                    },
                    ..old(self)@
                }
            } else {
                old(self)@
            },
    {
        if job_active {
            self.do_cancel();
            CloseStep::Wait
        } else {
            CloseStep::Close
        }
    }
}

} // verus!
