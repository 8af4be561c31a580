use image_converter::color::RgbColor;
use image_converter::engine::{
    ConversionPlan, ConversionRequest, ItemId, PlanError, PlannedItem, PlanningFailure,
};
use image_converter::options::{DuplicateStyle, OutputFormat, ResizeMode};
use image_converter::queue::{QueueModel, RowState};
use image_converter::report::{BatchReport, ConversionEvent, ConversionResult};
use image_converter::theme::HexColor;
use image_converter::workbench::{Phase, ResizeChoice, Workbench};
use std::path::Path;
use std::time::Duration;

fn workbench() -> Workbench {
    Workbench {
        phase: Phase::Empty,
        source_inputs: Vec::new(),
        output_dir: None,
        format: OutputFormat::Png,
        resize_choice: ResizeChoice::Original,
        width: 1920,
        height: 1080,
        percent: 50,
        quality: 90,
        overwrite: false,
        duplicate_style: DuplicateStyle::Dash,
        jpeg_hex: "#FFFFFF".to_owned(),
        rows: QueueModel::new(),
        plan: None,
        report: None,
        planning_failures: Vec::new(),
    }
}

fn item(id: usize, output: &str) -> PlannedItem {
    PlannedItem {
        id: ItemId(id),
        input: format!("in{id}.png"),
        byte_size: 10,
        output: output.to_owned(),
    }
}

fn plan(items: Vec<PlannedItem>) -> ConversionPlan {
    ConversionPlan {
        request: ConversionRequest::default(),
        items,
        failures: vec![PlanningFailure {
            path: "/x/broken".to_owned(),
            error: "input is not a file or folder".to_owned(),
        }],
    }
}

#[test]
fn dropped_paths_plan_with_the_current_settings() {
    let mut w = workbench();
    w.format = OutputFormat::Jpeg;
    w.quality = 55;
    w.resize_choice = ResizeChoice::Percent;
    w.percent = 25;
    w.overwrite = true;
    w.duplicate_style = DuplicateStyle::Copy;
    w.output_dir = Some("/out".to_owned());
    w.jpeg_hex = "#102030".to_owned();
    let request = w.add_paths(vec!["/a/one.png".to_owned()]).unwrap();
    assert_eq!(request.inputs, vec!["/a/one.png".to_owned()]);
    assert_eq!(request.output_dir, Some("/out".to_owned()));
    assert_eq!(request.format, OutputFormat::Jpeg);
    assert_eq!(request.jpeg_quality, 55);
    assert_eq!(request.resize, ResizeMode::Percent(25));
    assert!(request.overwrite);
    assert_eq!(request.duplicate_style, DuplicateStyle::Copy);
    assert_eq!(request.jpeg_background, RgbColor::new(0x10, 0x20, 0x30));
    assert_eq!(w.quality, 55);
    assert_eq!(w.jpeg_hex, "#102030");
}

#[test]
fn planned_rows_show_each_item_file_size_and_destination() {
    let mut w = workbench();
    w.add_paths(vec!["/a/in0.png".to_owned(), "/a/in1.png".to_owned()]);
    let mut second = item(1, "/out/in1.jpg");
    second.byte_size = 99;
    w.planned(Ok(plan(vec![item(0, "/out/in0.jpg"), second])));
    assert_eq!(w.rows.rows.len(), 2);
    assert_eq!(w.rows.rows[0].input, "in0.png");
    assert_eq!(w.rows.rows[0].output, "/out/in0.jpg");
    assert_eq!(w.rows.rows[1].byte_size, 99);
    assert_eq!(w.rows.rows[1].output, "/out/in1.jpg");
    assert!(matches!(w.rows.rows[1].state, RowState::Queued));
}

#[test]
fn dropped_paths_are_kept_once_and_planning_starts() {
    let mut w = workbench();
    let request = w
        .add_paths(vec!["/a/one.png".to_owned(), "/a/two.png".to_owned(), "/a/one.png".to_owned()])
        .unwrap();
    assert_eq!(w.source_inputs, vec!["/a/one.png".to_owned(), "/a/two.png".to_owned()]);
    assert_eq!(request.inputs, w.source_inputs);
    assert_eq!(w.phase, Phase::Planning);
    assert!(w.add_paths(vec!["/a/two.png".to_owned()]).is_some());
    assert_eq!(w.source_inputs.len(), 2);
    w.phase = Phase::Running;
    assert!(w.add_paths(vec!["/a/three.png".to_owned()]).is_none());
    assert_eq!(w.source_inputs.len(), 2);
    assert!(!w.clear());
    w.phase = Phase::Ready;
    assert!(w.clear());
    assert!(w.source_inputs.is_empty());
    assert_eq!(w.phase, Phase::Empty);
    assert!(w.start_planning().is_none());
    assert!(w.settings_changed().is_none());
}

#[test]
fn the_request_follows_the_settings() {
    let mut w = workbench();
    w.source_inputs = vec!["/a/one.png".to_owned()];
    w.format = OutputFormat::Jpeg;
    w.resize_choice = ResizeChoice::Fit;
    w.jpeg_hex = "#102030".to_owned();
    w.output_dir = Some("/out".to_owned());
    let request = w.request();
    assert_eq!(request.resize, ResizeMode::Fit { width: 1920, height: 1080 });
    assert_eq!(request.jpeg_background, RgbColor::new(0x10, 0x20, 0x30));
    assert_eq!(request.output_dir.as_deref(), Some("/out"));
    w.jpeg_hex = "not a colour".to_owned();
    w.resize_choice = ResizeChoice::Percent;
    let request = w.request();
    assert_eq!(request.jpeg_background, RgbColor::white());
    assert_eq!(request.resize, ResizeMode::Percent(50));
    w.resize_choice = ResizeChoice::Exact;
    assert_eq!(
        w.settings_changed().unwrap().resize,
        ResizeMode::Exact { width: 1920, height: 1080 }
    );
}

#[test]
fn planning_outcomes_move_the_session_along() {
    let mut w = workbench();
    w.planned(Ok(plan(vec![item(0, "/out/a.png"), item(1, "/out/b.png")])));
    assert_eq!(w.phase, Phase::Ready);
    assert_eq!(w.rows.rows.len(), 2);
    assert_eq!(w.planning_failures, vec!["/x/broken \u{2014} input is not a file or folder".to_owned()]);
    assert!(w.start_conversion());
    assert_eq!(w.phase, Phase::Running);
    assert!(w.is_running());
    w.worker_event(ConversionEvent::ItemStarted { id: ItemId(1) });
    assert!(matches!(w.rows.rows[1].state, RowState::Converting));
    w.worker_finished(BatchReport::from_results(
        vec![ConversionResult {
            id: ItemId(1),
            input: "in1.png".into(),
            output: Some("/out/b.png".into()),
            elapsed: Duration::from_millis(1),
            error: None,
            cancelled: false,
        }],
        Duration::from_millis(2),
        false,
    ));
    assert_eq!(w.phase, Phase::Complete);
    assert!(matches!(w.rows.rows[1].state, RowState::Done { .. }));
    assert!(w.report.is_some());
    w.planned(Err(PlanError {
        message: "no supported images were found".to_owned(),
        failures: Vec::new(),
    }));
    assert_eq!(w.phase, Phase::Failed("no supported images were found".to_owned()));
    assert!(w.rows.rows.is_empty());
    assert!(!w.start_conversion());
    w.planner_stopped();
    assert_eq!(w.phase, Phase::Failed("queue planner stopped unexpectedly".to_owned()));
    w.worker_stopped();
    assert!(matches!(w.phase, Phase::BatchFailed(ref m) if m.contains("finished files were preserved")));
}

#[test]
fn the_output_folder_is_known_when_every_output_shares_it() {
    let mut w = workbench();
    w.planned(Ok(plan(vec![item(0, "/out/a.png"), item(1, "/out/b.png")])));
    assert_eq!(
        w.concrete_output_dir(),
        Some(Path::new("/out").to_string_lossy().into_owned())
    );
    w.planned(Ok(plan(vec![item(0, "/out/a.png"), item(1, "/elsewhere/b.png")])));
    assert_eq!(w.concrete_output_dir(), None);
    w.output_dir = Some("/chosen".to_owned());
    assert_eq!(w.concrete_output_dir(), Some("/chosen".to_owned()));
    let empty = workbench();
    assert_eq!(empty.concrete_output_dir(), None);
}

#[test]
fn the_summary_names_count_format_and_resize() {
    let mut w = workbench();
    w.planned(Ok(plan(vec![item(0, "/out/a.png"), item(1, "/out/b.png")])));
    assert_eq!(w.summary(), "2 images \u{2192} PNG, original size");
    w.format = OutputFormat::Jpeg;
    w.resize_choice = ResizeChoice::Fit;
    assert_eq!(w.summary(), "2 images \u{2192} JPEG 90, fit inside 1920 \u{d7} 1080");
    w.format = OutputFormat::WebP;
    w.resize_choice = ResizeChoice::Percent;
    assert_eq!(w.summary(), "2 images \u{2192} lossless WebP, 50%");
    w.resize_choice = ResizeChoice::Exact;
    assert_eq!(w.summary(), "2 images \u{2192} lossless WebP, exactly 1920 \u{d7} 1080");
}

#[test]
fn a_fresh_workbench_fits_jpeg_inside_full_hd() {
    let w = Workbench::new(HexColor([255, 255, 255, 255]));
    assert_eq!(w.jpeg_hex, "#FFFFFF");
    assert_eq!(w.format, OutputFormat::Jpeg);
    assert_eq!(w.quality, 90);
    assert_eq!(w.resize_choice, ResizeChoice::Fit);
    assert_eq!((w.width, w.height), (1920, 1080));
    assert_eq!(w.phase, Phase::Empty);
    let mut w = w;
    w.source_inputs = vec!["/a.png".to_owned()];
    assert_eq!(
        w.request().resize,
        ResizeMode::Fit { width: 1920, height: 1080 }
    );
    assert_eq!(w.request().jpeg_background, RgbColor::white());
}

#[test]
fn starting_a_conversion_queues_every_planned_item() {
    let mut w = workbench();
    w.planned(Ok(plan(vec![item(0, "/out/a.png"), item(1, "/out/b.png")])));
    w.worker_event(ConversionEvent::ItemStarted { id: ItemId(0) });
    assert!(w.start_conversion());
    assert_eq!(w.rows.rows.len(), 2);
    for (i, row) in w.rows.rows.iter().enumerate() {
        assert_eq!(row.id, ItemId(i));
        assert!(matches!(row.state, RowState::Queued));
    }
    assert_eq!(w.rows.rows[1].output, "/out/b.png");
}
