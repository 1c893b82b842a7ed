use ape_dts::buffer::{Buffer, PopOutcome, PushOutcome};
use ape_dts::dt_data::{DtData, RowData, RowType};

fn dml(n: u32) -> DtData {
    DtData::Dml {
        row_data: RowData {
            schema: "db".to_string(),
            tb: "tb".to_string(),
            row_type: RowType::Insert,
            before: vec![],
            after: vec![("id".to_string(), n.to_string())],
            position: String::new(),
        },
    }
}

#[test]
fn order_preserved_over_five_items() {
    let mut b = Buffer::new(8);
    let items: Vec<DtData> = (0..5).map(dml).collect();
    for it in items.iter() {
        assert_eq!(b.try_push(it.clone()), PushOutcome::Pushed);
    }
    for it in items.iter() {
        match b.pop() {
            PopOutcome::Popped(got) => assert_eq!(&got, it),
            other => panic!("expected an item, got {:?}", other),
        }
    }
    assert_eq!(b.pop(), PopOutcome::Empty);
}

#[test]
fn order_preserved_for_zero_items() {
    let mut b = Buffer::new(3);
    assert_eq!(b.len(), 0);
    assert_eq!(b.pop(), PopOutcome::Empty);
}

#[test]
fn backpressure_full_buffer_refuses_then_one_pop_admits_one_push() {
    let mut b = Buffer::new(2);
    assert_eq!(b.try_push(dml(1)), PushOutcome::Pushed);
    assert_eq!(b.try_push(dml(2)), PushOutcome::Pushed);
    assert!(b.is_full());
    // at capacity: the push is refused and the item handed back
    assert_eq!(b.try_push(dml(3)), PushOutcome::Full(dml(3)));
    // one pop admits exactly one push
    assert_eq!(b.pop(), PopOutcome::Popped(dml(1)));
    assert_eq!(b.try_push(dml(3)), PushOutcome::Pushed);
    assert_eq!(b.try_push(dml(4)), PushOutcome::Full(dml(4)));
}

#[test]
fn closed_buffer_refuses_every_push_but_keeps_items_poppable() {
    let mut b = Buffer::new(4);
    assert_eq!(b.try_push(dml(1)), PushOutcome::Pushed);
    assert!(b.close());
    assert!(!b.close());
    assert_eq!(b.try_push(dml(2)), PushOutcome::Closed(dml(2)));
    assert_eq!(b.try_push(dml(3)), PushOutcome::Closed(dml(3)));
    assert_eq!(b.pop(), PopOutcome::Popped(dml(1)));
    assert_eq!(b.pop(), PopOutcome::Closed);
    assert_eq!(b.try_push(dml(4)), PushOutcome::Closed(dml(4)));
}

#[test]
fn capacity_and_len_report_the_bound_and_the_fill() {
    let mut b = Buffer::new(3);
    assert_eq!(b.capacity(), 3);
    assert_eq!(b.len(), 0);
    assert!(!b.is_full());
    b.try_push(dml(1));
    b.try_push(dml(2));
    assert_eq!(b.len(), 2);
    assert!(!b.is_full());
    b.try_push(dml(3));
    assert_eq!(b.len(), 3);
    assert!(b.is_full());
    assert_eq!(b.capacity(), 3);
}
