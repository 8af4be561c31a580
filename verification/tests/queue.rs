use image_converter::engine::{ItemId, PlannedItem};
use image_converter::queue::{concise, QueueModel, QueueRow, RowState};
use image_converter::imaging::ConvertError;
use image_converter::report::{
    cancelled_result, finished_result, BatchReport, ConversionEvent, ConversionResult,
};
use std::time::Duration;

fn row(id: usize) -> QueueRow {
    QueueRow {
        id: ItemId(id),
        input: "in".into(),
        output: "out".into(),
        byte_size: 1,
        state: RowState::Queued,
    }
}

fn result(id: usize, error: Option<&str>, cancelled: bool) -> ConversionResult {
    ConversionResult {
        id: ItemId(id),
        input: "in".into(),
        output: if error.is_none() && !cancelled {
            Some("out".into())
        } else {
            None
        },
        elapsed: Duration::from_millis(2),
        error: error.map(|e| e.to_owned()),
        cancelled,
    }
}

#[test]
fn out_of_order_events_update_by_identity() {
    let mut model = QueueModel {
        rows: vec![row(0), row(1)],
    };
    model.apply_event(ConversionEvent::ItemStarted { id: ItemId(1) });
    model.apply_event(ConversionEvent::ItemFinished(ConversionResult {
        id: ItemId(1),
        input: "in".into(),
        output: Some("out".into()),
        elapsed: Duration::from_millis(2),
        error: None,
        cancelled: false,
    }));
    model.apply_event(ConversionEvent::ItemStarted { id: ItemId(0) });
    assert!(matches!(model.rows[0].state, RowState::Converting));
    assert!(matches!(model.rows[1].state, RowState::Done { .. }));
}

#[test]
fn cancellation_state_is_distinct_from_failure() {
    let mut model = QueueModel { rows: vec![row(0)] };
    model.apply_event(ConversionEvent::ItemFinished(ConversionResult {
        id: ItemId(0),
        input: "in".into(),
        output: None,
        elapsed: Duration::ZERO,
        error: None,
        cancelled: true,
    }));
    assert!(matches!(model.rows[0].state, RowState::Cancelled));
    assert_eq!(model.failed(), 0);
}

#[test]
fn a_report_orders_by_item_and_keeps_arrival_order_within_an_item() {
    let mut first = result(1, Some("first"), false);
    first.input = "a".into();
    let mut second = result(1, Some("second"), false);
    second.input = "b".into();
    let report = BatchReport::from_results(
        vec![result(3, None, false), first, result(0, None, false), second],
        Duration::ZERO,
        false,
    );
    let order: Vec<(usize, String)> = report
        .results
        .iter()
        .map(|r| (r.id.0, r.input.clone()))
        .collect();
    assert_eq!(
        order,
        vec![
            (0, "in".to_owned()),
            (1, "a".to_owned()),
            (1, "b".to_owned()),
            (3, "in".to_owned())
        ]
    );
}

#[test]
fn a_report_settles_every_named_row_and_counts_outcomes() {
    let mut model = QueueModel {
        rows: vec![row(0), row(1), row(2), row(3)],
    };
    model.apply_event(ConversionEvent::BatchStarted { total: 4 });
    let report = BatchReport::from_results(
        vec![
            result(2, Some("could not decode image: bad"), false),
            result(0, None, false),
            result(1, None, true),
        ],
        Duration::from_millis(5),
        false,
    );
    let ids: Vec<usize> = report.results.iter().map(|r| r.id.0).collect();
    assert_eq!(ids, vec![0, 1, 2]);
    assert_eq!(report.succeeded(), 1);
    assert_eq!(report.failed(), 1);
    assert_eq!(report.cancelled_count(), 1);
    model.apply_report(&report);
    assert!(matches!(model.rows[0].state, RowState::Done { .. }));
    assert!(matches!(model.rows[1].state, RowState::Cancelled));
    assert!(matches!(model.rows[2].state, RowState::Failed(ref m) if m == "could not decode image: bad"));
    assert!(matches!(model.rows[3].state, RowState::Queued));
    assert_eq!(model.completed(), 3);
    assert_eq!(model.failed(), 1);
}

#[test]
fn a_result_without_output_or_error_is_a_failure() {
    let mut model = QueueModel { rows: vec![row(0)] };
    let mut r = result(0, None, false);
    r.output = None;
    model.apply_event(ConversionEvent::ItemFinished(r));
    assert!(matches!(model.rows[0].state, RowState::Failed(ref m) if m == "conversion produced no output"));
    model.apply_event(ConversionEvent::ItemStarted { id: ItemId(7) });
    assert_eq!(model.completed(), 1);
}

#[test]
fn cancelled_items_are_reported_without_error() {
    let item = PlannedItem {
        id: ItemId(4),
        input: "a.png".into(),
        byte_size: 3,
        output: "a.jpg".into(),
    };
    let r = cancelled_result(&item);
    assert!(r.cancelled && r.error.is_none() && r.output.is_none());
    assert_eq!(r.id, ItemId(4));
    assert!(!r.succeeded());
    let report = BatchReport::from_results(vec![r], Duration::ZERO, true);
    assert!(report.cancelled);
    assert_eq!(report.cancelled_count(), 1);
    assert_eq!(report.results.len(), 1);
    let empty = BatchReport::default();
    assert_eq!(empty.results.len(), 0);
    assert!(QueueModel::default().rows.is_empty());
}

#[test]
fn failures_are_summed_up_in_one_word() {
    assert_eq!(concise("could not decode image: x"), "decode");
    assert_eq!(concise("could not open image: x"), "open");
    assert_eq!(concise("could not create output folder y"), "output");
    assert_eq!(concise("invalid resize dimensions"), "error");
}

#[test]
fn finished_results_carry_the_output_or_the_error_text() {
    let item = PlannedItem {
        id: ItemId(1),
        input: "a.png".into(),
        byte_size: 3,
        output: "out/a.jpg".into(),
    };
    let done = finished_result(&item, Ok(()), Duration::from_millis(3));
    assert_eq!(done.output.as_deref(), Some("out/a.jpg"));
    assert!(done.error.is_none() && !done.cancelled && done.succeeded());
    assert_eq!(done.elapsed, Duration::from_millis(3));
    let failed = finished_result(
        &item,
        Err(ConvertError::CreateOutput {
            path: "out".into(),
            detail: "denied".into(),
        }),
        Duration::ZERO,
    );
    assert!(failed.output.is_none());
    assert_eq!(
        failed.error.as_deref(),
        Some("could not create output folder out: denied")
    );
    let open = finished_result(&item, Err(ConvertError::Open("gone".into())), Duration::ZERO);
    assert_eq!(open.error.as_deref(), Some("could not open image: gone"));
}
