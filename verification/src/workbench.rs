//! The desktop workbench's decisions: the request its settings describe, the inputs it
//! keeps, and how planning and conversion outcomes move a session along.
use crate::color::{rgb_from_text, rgb_text_splits_char, white, RgbColor};
use crate::engine::{
    dir_view, strings_view, ConversionPlan, ConversionRequest, PlanError, PlanningFailure,
};
use crate::options::{DuplicateStyle, OutputFormat, ResizeMode};
use crate::paths::{parent_of, path_eq, path_parent, same_path};
use crate::queue::{event_applied, report_applied, QueueModel, QueueRow};
use crate::report::{BatchReport, ConversionEvent};
use crate::text::{decimal, push_decimal, push_str, string_from_chars};
use crate::theme::{hex_text, HexColor};
use vstd::prelude::*;
use vstd::utf8::encode_utf8;

verus! {

/// How the workbench resizes: keep, fit inside, stretch to, or scale by a percentage.
#[derive(Clone, Copy, Debug, PartialEq, Eq, Structural)]
pub enum ResizeChoice {
    Original,
    Fit,
    Exact,
    Percent,
}

/// Where a workbench session stands.
#[derive(Clone, Debug, PartialEq, Eq)]
pub enum Phase {
    Empty,
    Planning,
    Ready,
    Running,
    Complete,
    Failed(String),
    BatchFailed(String),
}

/// The desktop workbench: its conversion settings, the inputs dropped on it, and the
/// current plan, queue and report.
#[derive(Debug)]
pub struct Workbench {
    pub phase: Phase,
    pub source_inputs: Vec<String>,
    pub output_dir: Option<String>,
    pub format: OutputFormat,
    pub resize_choice: ResizeChoice,
    pub width: u32,
    pub height: u32,
    pub percent: u16,
    pub quality: u8,
    pub overwrite: bool,
    pub duplicate_style: DuplicateStyle,
    /// The JPEG matte as typed, `#RRGGBB`.
    pub jpeg_hex: String,
    pub rows: QueueModel,
    pub plan: Option<ConversionPlan>,
    pub report: Option<BatchReport>,
    pub planning_failures: Vec<String>,
}

/// The resize mode a choice stands for, with the workbench's width, height and percentage.
pub open spec fn resize_for(choice: ResizeChoice, width: u32, height: u32, percent: u16) -> ResizeMode {
    match choice {
        ResizeChoice::Original => ResizeMode::Original,
        ResizeChoice::Fit => ResizeMode::Fit { width, height },
        ResizeChoice::Exact => ResizeMode::Exact { width, height },
        ResizeChoice::Percent => ResizeMode::Percent(percent),
    }
}

/// Whether reading the typed matte would have to cut a character in two.
pub open spec fn matte_splits_char(hex: Seq<char>) -> bool {
    rgb_text_splits_char(encode_utf8(hex))
}

/// The matte a typed text stands for: the colour it spells, else white.
pub open spec fn matte_of(hex: Seq<char>) -> RgbColor {
    match rgb_from_text(encode_utf8(hex)) {
        Ok(c) => c,
        Err(_) => white(),
    }
}

/// Whether a request is the one the workbench's settings describe.
pub open spec fn describes(w: Workbench, r: ConversionRequest) -> bool {
    &&& strings_view(r.inputs@) == strings_view(w.source_inputs@)
    &&& dir_view(r.output_dir) == dir_view(w.output_dir)
    &&& r.format == w.format
    &&& r.resize == resize_for(w.resize_choice, w.width, w.height, w.percent)
    &&& r.jpeg_quality == w.quality
    &&& r.jpeg_background == matte_of(w.jpeg_hex@)
    &&& r.overwrite == w.overwrite
    &&& r.duplicate_style == w.duplicate_style
}

/// Whether two workbenches hold the same conversion settings (everything but the inputs and
/// the session's progress).
pub open spec fn same_settings(a: Workbench, b: Workbench) -> bool {
    &&& a.output_dir == b.output_dir
    &&& a.format == b.format
    &&& a.resize_choice == b.resize_choice
    &&& a.width == b.width
    &&& a.height == b.height
    &&& a.percent == b.percent
    &&& a.quality == b.quality
    &&& a.overwrite == b.overwrite
    &&& a.duplicate_style == b.duplicate_style
    &&& a.jpeg_hex@ == b.jpeg_hex@
}

/// The inputs after adding `added` in order, skipping any path already present.
pub open spec fn with_paths(existing: Seq<Seq<char>>, added: Seq<Seq<char>>) -> Seq<Seq<char>>
    decreases added.len(),
{
    if added.len() == 0 {
        existing
    } else {
        let before = with_paths(existing, added.drop_last());
        if exists|k: int| 0 <= k < before.len() && same_path(#[trigger] before[k], added.last()) {
            before
        } else {
            before.push(added.last())
        }
    }
}

/// A planning failure as one line: path, a dash, and the reason.
pub open spec fn failure_line(f: PlanningFailure) -> Seq<char> {
    f.path@ + " \u{2014} "@ + f.error@
}

/// The lines of a list of failures.
pub open spec fn failure_lines(fs: Seq<PlanningFailure>) -> Seq<Seq<char>> {
    Seq::new(fs.len(), |i: int| failure_line(fs[i]))
}

/// The folders of the rows' outputs, skipping outputs without one, in order.
pub open spec fn row_parents(rows: Seq<QueueRow>) -> Seq<Seq<char>>
    decreases rows.len(),
{
    if rows.len() == 0 {
        Seq::empty()
    } else {
        let before = row_parents(rows.drop_last());
        match parent_of(rows.last().output@) {
            Some(p) => before.push(p),
            None => before,
        }
    }
}

/// The one folder every output goes to, if there is one: the chosen output folder, else the
/// folder of the first output when every other output shares it.
pub open spec fn single_output_dir(output_dir: Option<Seq<char>>, rows: Seq<QueueRow>) -> Option<Seq<char>> {
    match output_dir {
        Some(d) => Some(d),
        None => {
            let ps = row_parents(rows);
            if ps.len() == 0 {
                None
            } else if forall|k: int| 1 <= k < ps.len() ==> same_path(#[trigger] ps[k], ps[0]) {
                Some(ps[0])
            } else {
                None
            }
        },
    }
}

/// The text naming an output format in the summary.
pub open spec fn format_words(format: OutputFormat, quality: u8) -> Seq<char> {
    match format {
        OutputFormat::Png => "PNG"@,
        OutputFormat::Jpeg => "JPEG "@ + decimal(quality as nat),
        OutputFormat::WebP => "lossless WebP"@,
    }
}

/// The text naming a resize choice in the summary.
pub open spec fn resize_words(choice: ResizeChoice, width: u32, height: u32, percent: u16) -> Seq<char> {
    match choice {
        ResizeChoice::Original => "original size"@,
        ResizeChoice::Fit => "fit inside "@ + decimal(width as nat) + " \u{d7} "@ + decimal(
            height as nat,
        ),
        ResizeChoice::Exact => "exactly "@ + decimal(width as nat) + " \u{d7} "@ + decimal(
            height as nat,
        ),
        ResizeChoice::Percent => decimal(percent as nat) + "%"@,
    }
}

/// One line summing up a batch: how many images, to what, resized how.
pub open spec fn summary_text(w: Workbench) -> Seq<char> {
    decimal(w.rows.rows@.len() as nat) + " images \u{2192} "@ + format_words(w.format, w.quality)
        + ", "@ + resize_words(w.resize_choice, w.width, w.height, w.percent)
}

/// A failure as one line.
fn line_of(f: &PlanningFailure) -> (line: String)
    ensures
        line@ == failure_line(*f),
{
    let mut line = f.path.clone();
    line.append(" \u{2014} ");
    line.append(f.error.as_str());
    line
}

/// The lines of a list of failures.
fn lines_of(fs: &Vec<PlanningFailure>) -> (lines: Vec<String>)
    ensures
        strings_view(lines@) == failure_lines(fs@),
{
    let mut lines: Vec<String> = Vec::new();
    let mut i: usize = 0;
    while i < fs.len()
        invariant
            0 <= i <= fs@.len(),
            lines@.len() == i,
            forall|k: int| 0 <= k < i ==> #[trigger] lines@[k]@ == failure_line(fs@[k]),
        decreases fs.len() - i,
    {
        lines.push(line_of(&fs[i]));
        i = i + 1;
    }
    assert(strings_view(lines@) =~= failure_lines(fs@));
    lines
}

impl Workbench {
    /// A fresh workbench: nothing dropped yet, JPEG at quality 90 fitted inside 1920 x 1080
    /// (50% when switched to a percentage), dash-numbered names, no overwriting, outputs
    /// beside their sources, and the stored JPEG matte.
    pub fn new(jpeg_background: HexColor) -> (w: Workbench)
        ensures
            w.phase is Empty,
            w.source_inputs@.len() == 0,
            w.output_dir is None,
            w.format == OutputFormat::Jpeg,
            w.resize_choice == ResizeChoice::Fit,
            w.width == 1920 && w.height == 1080 && w.percent == 50,
            w.quality == 90,
            !w.overwrite,
            w.duplicate_style == DuplicateStyle::Dash,
            w.jpeg_hex@ == hex_text(jpeg_background),
            w.rows.rows@.len() == 0,
            w.plan is None && w.report is None,
            w.planning_failures@.len() == 0,
    {
        Workbench {
            phase: Phase::Empty,
            source_inputs: Vec::new(),
            output_dir: None,
            format: OutputFormat::Jpeg,
            resize_choice: ResizeChoice::Fit,
            width: 1920,
            height: 1080,
            percent: 50,
            quality: 90,
            overwrite: false,
            duplicate_style: DuplicateStyle::Dash,
            jpeg_hex: jpeg_background.to_hex_string(),
            rows: QueueModel::new(),
            plan: None,
            report: None,
            planning_failures: Vec::new(),
        }
    }

    /// Whether a batch is converting.
    pub fn is_running(&self) -> (r: bool)
        ensures
            r == (self.phase is Running),
    {
        match self.phase {
            Phase::Running => true,
            _ => false,
        }
    }

    /// The conversion request the settings describe; a matte that does not read as a colour
    /// is replaced by white.
    pub fn request(&self) -> (r: ConversionRequest)
        requires
            !matte_splits_char(self.jpeg_hex@),
        ensures
            describes(*self, r),
    {
        let mut inputs: Vec<String> = Vec::new();
        let mut i: usize = 0;
        while i < self.source_inputs.len()
            invariant
                0 <= i <= self.source_inputs@.len(),
                inputs@.len() == i,
                forall|k: int| 0 <= k < i ==> #[trigger] inputs@[k]@ == self.source_inputs@[k]@,
            decreases self.source_inputs.len() - i,
        {
            inputs.push(self.source_inputs[i].clone());
            i = i + 1;
        }
        assert(strings_view(inputs@) =~= strings_view(self.source_inputs@));
        let output_dir = match &self.output_dir {
            Some(d) => Some(d.clone()),
            None => None,
        };
        let resize = match self.resize_choice {
            ResizeChoice::Original => ResizeMode::Original,
            ResizeChoice::Fit => ResizeMode::Fit { width: self.width, height: self.height },
            ResizeChoice::Exact => ResizeMode::Exact { width: self.width, height: self.height },
            ResizeChoice::Percent => ResizeMode::Percent(self.percent),
        };
        let jpeg_background = match RgbColor::parse(self.jpeg_hex.as_str()) {
            Ok(c) => c,
            Err(_) => RgbColor::white(),
        };
        ConversionRequest {
            inputs,
            output_dir,
            format: self.format,
            resize,
            jpeg_quality: self.quality,
            jpeg_background,
            overwrite: self.overwrite,
            duplicate_style: self.duplicate_style,
        }
    }

    /// Starts planning the current inputs: with none the session is empty again; otherwise
    /// it is planning, with no report or failures yet, and the request is handed back.
    pub fn start_planning(&mut self) -> (r: Option<ConversionRequest>)
        requires
            !matte_splits_char(old(self).jpeg_hex@),
        ensures
            final(self).source_inputs@ == old(self).source_inputs@,
            same_settings(*final(self), *old(self)),
            old(self).source_inputs@.len() == 0 ==> r is None && final(self).phase is Empty,
            old(self).source_inputs@.len() > 0 ==> {
                &&& final(self).phase is Planning
                &&& final(self).report is None
                &&& final(self).planning_failures@.len() == 0
                &&& r matches Some(request) && describes(*old(self), request)
            },
    {
        if self.source_inputs.len() == 0 {
            self.phase = Phase::Empty;
            return None;
        }
        self.phase = Phase::Planning;
        self.report = None;
        self.planning_failures = Vec::new();
        Some(self.request())
    }

    /// Adds dropped or chosen inputs, skipping paths already present, and starts planning.
    /// Nothing changes while a batch is converting.
    pub fn add_paths(&mut self, paths: Vec<String>) -> (r: Option<ConversionRequest>)
        requires
            !matte_splits_char(old(self).jpeg_hex@),
        ensures
            same_settings(*final(self), *old(self)),
            old(self).phase is Running ==> r is None && strings_view(final(self).source_inputs@)
                == strings_view(old(self).source_inputs@) && final(self).phase == old(self).phase,
            !(old(self).phase is Running) ==> {
                &&& strings_view(final(self).source_inputs@) == with_paths(
                    strings_view(old(self).source_inputs@),
                    strings_view(paths@),
                )
                &&& (final(self).source_inputs@.len() == 0 ==> r is None && final(self).phase is Empty)
                &&& (final(self).source_inputs@.len() > 0 ==> final(self).phase is Planning && (r matches Some(
                    request,
                ) && describes(*final(self), request)))
            },
    {
        if self.is_running() {
            return None;
        }
        let ghost start = strings_view(self.source_inputs@);
        let ghost initial = *self;
        let mut i: usize = 0;
        while i < paths.len()
            invariant
                0 <= i <= paths@.len(),
                same_settings(*self, initial),
                strings_view(self.source_inputs@) == with_paths(start, strings_view(paths@).take(i as int)),
                !matte_splits_char(self.jpeg_hex@),
            decreases paths.len() - i,
        {
            let ghost before = strings_view(self.source_inputs@);
            proof {
                assert(strings_view(paths@).take(i + 1).drop_last() =~= strings_view(paths@).take(
                    i as int,
                ));
                assert(strings_view(paths@).take(i + 1).last() == paths@[i as int]@);
            }
            let mut present = false;
            let mut k: usize = 0;
            while k < self.source_inputs.len()
                invariant
                    0 <= k <= self.source_inputs@.len(),
                    i < paths@.len(),
                    before == strings_view(self.source_inputs@),
                    present <==> exists|j: int| 0 <= j < k && same_path(#[trigger] before[j], paths@[i as int]@),
                decreases self.source_inputs.len() - k,
            {
                if path_eq(self.source_inputs[k].as_str(), paths[i].as_str()) {
                    present = true;
                }
                proof {
                    if present {
                        if same_path(before[k as int], paths@[i as int]@) {
                            assert(exists|j: int| 0 <= j < k + 1 && same_path(#[trigger] before[j], paths@[i as int]@));
                        }
                    }
                }
                k = k + 1;
            }
            if !present {
                self.source_inputs.push(paths[i].clone());
                proof {
                    assert(strings_view(self.source_inputs@) =~= before.push(paths@[i as int]@));
                }
            }
            i = i + 1;
        }
        proof {
            assert(strings_view(paths@).take(i as int) =~= strings_view(paths@));
        }
        self.start_planning()
    }

    /// Plans again after a setting changed, unless there is nothing to plan or a batch is
    /// converting.
    pub fn settings_changed(&mut self) -> (r: Option<ConversionRequest>)
        requires
            !matte_splits_char(old(self).jpeg_hex@),
        ensures
            same_settings(*final(self), *old(self)),
            final(self).source_inputs@ == old(self).source_inputs@,
            old(self).source_inputs@.len() == 0 || old(self).phase is Running ==> r is None
                && final(self).phase == old(self).phase,
            old(self).source_inputs@.len() > 0 && !(old(self).phase is Running) ==> final(self).phase is Planning
                && (r matches Some(request) && describes(*old(self), request)),
    {
        if self.source_inputs.len() > 0 && !self.is_running() {
            self.start_planning()
        } else {
            None
        }
    }

    /// Forgets the inputs, plan, queue and report; refused while a batch is converting.
    pub fn clear(&mut self) -> (cleared: bool)
        ensures
            cleared == !(old(self).phase is Running),
            cleared ==> {
                &&& final(self).source_inputs@.len() == 0
                &&& final(self).plan is None
                &&& final(self).rows.rows@.len() == 0
                &&& final(self).report is None
                &&& final(self).phase is Empty
                &&& final(self).planning_failures@.len() == 0
            },
            !cleared ==> final(self).phase == old(self).phase,
    {
        if self.is_running() {
            return false;
        }
        self.source_inputs = Vec::new();
        self.plan = None;
        self.rows = QueueModel::new();
        self.report = None;
        self.phase = Phase::Empty;
        self.planning_failures = Vec::new();
        true
    }

    /// Takes in what planning found: a plan makes the queue ready, one queued row per item;
    /// a planning error empties the queue and fails with its message. Either way the
    /// skipped inputs are listed.
    pub fn planned(&mut self, outcome: Result<ConversionPlan, PlanError>)
        ensures
            match outcome {
                Ok(plan) => {
                    &&& strings_view(final(self).planning_failures@) == failure_lines(plan.failures@)
                    &&& final(self).rows.rows@.len() == plan.items@.len()
                    &&& forall|i: int|
                        0 <= i < plan.items@.len() ==> {
                            &&& (#[trigger] final(self).rows.rows@[i]).id == plan.items@[i].id
                            &&& final(self).rows.rows@[i].input@ == plan.items@[i].input@
                            &&& final(self).rows.rows@[i].byte_size == plan.items@[i].byte_size
                            &&& final(self).rows.rows@[i].output@ == plan.items@[i].output@
                            &&& final(self).rows.rows@[i].state is Queued
                        }
                    &&& final(self).plan == Some(plan)
                    &&& final(self).phase is Ready
                },
                Err(e) => {
                    &&& strings_view(final(self).planning_failures@) == failure_lines(e.failures@)
                    &&& final(self).plan is None
                    &&& final(self).rows.rows@.len() == 0
                    &&& final(self).phase matches Phase::Failed(m) && m@ == e.message@
                },
            },
    {
        match outcome {
            Ok(plan) => {
                self.planning_failures = lines_of(&plan.failures);
                self.rows = QueueModel::from_plan(&plan);
                self.plan = Some(plan);
                self.phase = Phase::Ready;
            },
            Err(error) => {
                self.planning_failures = lines_of(&error.failures);
                self.plan = None;
                self.rows = QueueModel::new();
                self.phase = Phase::Failed(error.message);
            },
        }
    }

    /// The planner went away without an answer.
    pub fn planner_stopped(&mut self)
        ensures
            final(self).phase matches Phase::Failed(m) && m@ == "queue planner stopped unexpectedly"@,
    {
        self.phase = Phase::Failed(String::from_str("queue planner stopped unexpectedly"));
    }

    /// Starts converting the current plan: the queue is rebuilt from it and the session is
    /// running. Without a plan nothing happens.
    pub fn start_conversion(&mut self) -> (started: bool)
        ensures
            started == (old(self).plan is Some),
            started ==> {
                &&& final(self).phase is Running
                &&& final(self).report is None
                &&& final(self).rows.rows@.len() == old(self).plan->0.items@.len()
                &&& forall|i: int|
                    0 <= i < final(self).rows.rows@.len() ==> {
                        &&& (#[trigger] final(self).rows.rows@[i]).id == old(self).plan->0.items@[i].id
                        &&& final(self).rows.rows@[i].input@ == old(self).plan->0.items@[i].input@
                        &&& final(self).rows.rows@[i].byte_size == old(self).plan->0.items@[i].byte_size
                        &&& final(self).rows.rows@[i].output@ == old(self).plan->0.items@[i].output@
                        &&& final(self).rows.rows@[i].state is Queued
                    }
                &&& final(self).plan == old(self).plan
            },
            !started ==> final(self).phase == old(self).phase,
    {
        match &self.plan {
            None => false,
            Some(plan) => {
                let rows = QueueModel::from_plan(plan);
                self.rows = rows;
                self.phase = Phase::Running;
                self.report = None;
                true
            },
        }
    }

    /// Takes in one progress event of the running batch.
    pub fn worker_event(&mut self, event: ConversionEvent)
        ensures
            final(self).phase == old(self).phase,
            event_applied(old(self).rows.rows@, final(self).rows.rows@, event),
    {
        self.rows.apply_event(event);
    }

    /// Takes in the finished batch: every row is settled by its result and the session is
    /// complete.
    pub fn worker_finished(&mut self, report: BatchReport)
        ensures
            final(self).phase is Complete,
            final(self).report == Some(report),
            report_applied(old(self).rows.rows@, final(self).rows.rows@, report.results@),
    {
        self.rows.apply_report(&report);
        self.report = Some(report);
        self.phase = Phase::Complete;
    }

    /// The worker went away before reporting; whatever it finished stays on disk.
    pub fn worker_stopped(&mut self)
        ensures
            final(self).phase matches Phase::BatchFailed(m) && m@
                == "conversion worker stopped unexpectedly; finished files were preserved"@,
    {
        self.phase = Phase::BatchFailed(
            String::from_str("conversion worker stopped unexpectedly; finished files were preserved"),
        );
    }

    /// The one folder every output goes to, if there is one.
    pub fn concrete_output_dir(&self) -> (r: Option<String>)
        ensures
            match (r, single_output_dir(dir_view(self.output_dir), self.rows.rows@)) {
                (Some(a), Some(b)) => a@ == b,
                (None, None) => true,
                _ => false,
            },
    {
        if let Some(dir) = &self.output_dir {
            return Some(dir.clone());
        }
        let mut parents: Vec<String> = Vec::new();
        let mut i: usize = 0;
        while i < self.rows.rows.len()
            invariant
                0 <= i <= self.rows.rows@.len(),
                strings_view(parents@) == row_parents(self.rows.rows@.take(i as int)),
            decreases self.rows.rows.len() - i,
        {
            proof {
                assert(self.rows.rows@.take(i + 1).drop_last() =~= self.rows.rows@.take(i as int));
            }
            match path_parent(self.rows.rows[i].output.as_str()) {
                Some(p) => {
                    let ghost before = parents@;
                    parents.push(p);
                    proof {
                        assert(strings_view(parents@) =~= strings_view(before).push(p@));
                    }
                },
                None => {},
            }
            i = i + 1;
        }
        proof {
            assert(self.rows.rows@.take(i as int) =~= self.rows.rows@);
        }
        if parents.len() == 0 {
            return None;
        }
        let mut k: usize = 1;
        while k < parents.len()
            invariant
                1 <= k <= parents@.len(),
                self.output_dir is None,
                strings_view(parents@) == row_parents(self.rows.rows@),
                forall|j: int| 1 <= j < k ==> same_path(#[trigger] parents@[j]@, parents@[0]@),
            decreases parents.len() - k,
        {
            if !path_eq(parents[k].as_str(), parents[0].as_str()) {
                proof {
                    let ps = strings_view(parents@);
                    assert(ps[k as int] == parents@[k as int]@);
                    assert(!same_path(ps[k as int], ps[0]));
                }
                return None;
            }
            k = k + 1;
        }
        proof {
            let ps = strings_view(parents@);
            assert forall|j: int| 1 <= j < ps.len() implies same_path(#[trigger] ps[j], ps[0]) by {
                assert(ps[j] == parents@[j]@);
            }
        }
        Some(parents[0].clone())
    }

    /// One line summing up the batch: how many images, to what, resized how.
    pub fn summary(&self) -> (s: String)
        ensures
            s@ == summary_text(*self),
    {
        let mut out: Vec<char> = Vec::new();
        push_decimal(&mut out, self.rows.rows.len() as u64);
        push_str(&mut out, " images \u{2192} ");
        match self.format {
            OutputFormat::Png => push_str(&mut out, "PNG"),
            OutputFormat::Jpeg => {
                push_str(&mut out, "JPEG ");
                push_decimal(&mut out, self.quality as u64);
            },
            OutputFormat::WebP => push_str(&mut out, "lossless WebP"),
        }
        push_str(&mut out, ", ");
        match self.resize_choice {
            ResizeChoice::Original => push_str(&mut out, "original size"),
            ResizeChoice::Fit => {
                push_str(&mut out, "fit inside ");
                push_decimal(&mut out, self.width as u64);
                push_str(&mut out, " \u{d7} ");
                push_decimal(&mut out, self.height as u64);
            },
            ResizeChoice::Exact => {
                push_str(&mut out, "exactly ");
                push_decimal(&mut out, self.width as u64);
                push_str(&mut out, " \u{d7} ");
                push_decimal(&mut out, self.height as u64);
            },
            ResizeChoice::Percent => {
                push_decimal(&mut out, self.percent as u64);
                push_str(&mut out, "%");
            },
        }
        assert(out@ =~= summary_text(*self));
        string_from_chars(out.as_slice())
    }
}

} // verus!
