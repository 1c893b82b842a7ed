use ape_dts::buffer::{Buffer, PopOutcome};
use ape_dts::dt_data::{DtData, RowData, RowType};
use ape_dts::error::Error;
use ape_dts::extractor::{ExtractEvent, KafkaExtractor, StartMode, StepOutcome, stamp_for_offset};

fn dml_with_stale_position(pos: &str) -> DtData {
    DtData::Dml {
        row_data: RowData {
            schema: "db".to_string(),
            tb: "tb".to_string(),
            row_type: RowType::Update,
            before: vec![("id".to_string(), "1".to_string())],
            after: vec![("id".to_string(), "2".to_string())],
            position: pos.to_string(),
        },
    }
}

fn extractor(offset: i64, capacity: usize) -> KafkaExtractor {
    KafkaExtractor {
        url: "localhost:9092".to_string(),
        group: "g1".to_string(),
        topic: "t1".to_string(),
        partition: 0,
        offset,
        ack_interval_secs: 1,
        buffer: Buffer::new(capacity),
    }
}

#[test]
fn seeded_offset_is_assigned_verbatim() {
    let ex = extractor(42, 4);
    assert_eq!(ex.plan_start(), StartMode::AssignedOffset(42));
}

#[test]
fn without_a_seed_the_stream_is_joined_at_the_tail() {
    assert_eq!(extractor(0, 4).plan_start(), StartMode::Tail);
    assert_eq!(extractor(-1, 4).plan_start(), StartMode::Tail);
}

#[test]
fn stamping_overwrites_a_dml_position_with_the_offset() {
    let stamped = stamp_for_offset(dml_with_stale_position("offset:999"), 42);
    match stamped {
        DtData::Dml { row_data } => assert_eq!(row_data.position, "offset:42"),
        other => panic!("stamping must keep the variant, got {:?}", other),
    }
}

#[test]
fn stamping_overwrites_a_commit_position_and_keeps_the_xid() {
    let commit = DtData::Commit { xid: "x7".to_string(), position: "offset:999".to_string() };
    match stamp_for_offset(commit, 5) {
        DtData::Commit { xid, position } => {
            assert_eq!(xid, "x7");
            assert_eq!(position, "offset:5");
        },
        other => panic!("stamping must keep the variant, got {:?}", other),
    }
}

#[test]
fn stamping_passes_a_structural_event_through_unchanged() {
    let ddl = DtData::Ddl {
        ddl_data: ape_dts::dt_data::DdlData {
            schema: "db".to_string(),
            query: "alter table tb add c int".to_string(),
        },
    };
    assert_eq!(stamp_for_offset(ddl.clone(), 5), ddl);
}

#[test]
fn shutdown_stops_the_loop_without_touching_the_buffer() {
    let mut ex = extractor(0, 4);
    let r = ex.extract_step(ExtractEvent::ShutdownObserved);
    assert_eq!(r, Ok(StepOutcome::Stopped));
    assert_eq!(ex.buffer.len(), 0);
}

#[test]
fn a_record_without_payload_is_skipped() {
    let mut ex = extractor(0, 4);
    let r = ex.extract_step(ExtractEvent::Message { offset: 3, payload: None });
    assert_eq!(r, Ok(StepOutcome::Skipped));
    assert_eq!(ex.buffer.len(), 0);
}

#[test]
fn a_record_is_stamped_with_its_own_offset_and_enqueued() {
    let mut ex = extractor(0, 4);
    let r = ex.extract_step(ExtractEvent::Message {
        offset: 42,
        payload: Some(dml_with_stale_position("offset:999")),
    });
    assert_eq!(r, Ok(StepOutcome::Pushed));
    match ex.buffer.pop() {
        PopOutcome::Popped(DtData::Dml { row_data }) => {
            assert_eq!(row_data.position, "offset:42")
        },
        other => panic!("expected the stamped mutation, got {:?}", other),
    }
}

#[test]
fn a_full_buffer_hands_the_stamped_event_back_for_retry() {
    let mut ex = extractor(0, 1);
    let first = ex.extract_step(ExtractEvent::Message {
        offset: 1,
        payload: Some(dml_with_stale_position("")),
    });
    assert_eq!(first, Ok(StepOutcome::Pushed));
    let second = ex.extract_step(ExtractEvent::Message {
        offset: 2,
        payload: Some(dml_with_stale_position("")),
    });
    match second {
        Ok(StepOutcome::MustRetry(DtData::Dml { row_data })) => {
            assert_eq!(row_data.position, "offset:2")
        },
        other => panic!("expected a retry with the stamped event, got {:?}", other),
    }
    // backpressure resolves after a pop: the retried push is admitted
    ex.buffer.pop();
    let retried = ex.extract_step(ExtractEvent::Message {
        offset: 2,
        payload: Some(dml_with_stale_position("")),
    });
    assert_eq!(retried, Ok(StepOutcome::Pushed));
}

#[test]
fn a_closed_buffer_ends_the_loop_with_the_closed_error() {
    let mut ex = extractor(0, 2);
    ex.buffer.close();
    let r = ex.extract_step(ExtractEvent::Message {
        offset: 1,
        payload: Some(dml_with_stale_position("")),
    });
    assert_eq!(r, Err(Error::ClosedBufferError));
}
