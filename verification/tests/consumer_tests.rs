use ape_dts::consumer::checkpoint_on_commit;
use ape_dts::dt_data::{DtData, RowData, RowType};
use ape_dts::syncer::Syncer;

fn dml_at(pos: &str) -> DtData {
    DtData::Dml {
        row_data: RowData {
            schema: "db".to_string(),
            tb: "tb".to_string(),
            row_type: RowType::Insert,
            before: vec![],
            after: vec![],
            position: pos.to_string(),
        },
    }
}

fn commit_at(pos: &str) -> DtData {
    DtData::Commit { xid: "x1".to_string(), position: pos.to_string() }
}

#[test]
fn checkpoints_only_at_commit_markers() {
    let mut syncer = Syncer::new(i64::MIN, String::new());
    // the sequence Dml(1), Dml(2), Commit(3): no mid-transaction position may
    // remain persisted once the commit marker has been processed
    assert!(!checkpoint_on_commit(&mut syncer, &dml_at("offset:1"), 1));
    assert_eq!(syncer.get().1, "");
    assert!(!checkpoint_on_commit(&mut syncer, &dml_at("offset:2"), 2));
    assert_eq!(syncer.get().1, "");
    assert!(checkpoint_on_commit(&mut syncer, &commit_at("offset:3"), 3));
    let (ord, pos) = syncer.get();
    assert_eq!(ord, 3);
    assert_eq!(pos, "offset:3");
}

#[test]
fn a_structural_event_does_not_move_the_checkpoint() {
    let mut syncer = Syncer::new(5, "offset:5".to_string());
    let ddl = DtData::Ddl {
        ddl_data: ape_dts::dt_data::DdlData {
            schema: "db".to_string(),
            query: "create table t (id int)".to_string(),
        },
    };
    assert!(!checkpoint_on_commit(&mut syncer, &ddl, 9));
    assert_eq!(syncer.get(), (5, "offset:5".to_string()));
}

#[test]
fn a_late_commit_with_a_lesser_ordinal_cannot_regress_the_checkpoint() {
    let mut syncer = Syncer::new(i64::MIN, String::new());
    assert!(checkpoint_on_commit(&mut syncer, &commit_at("offset:9"), 9));
    assert!(!checkpoint_on_commit(&mut syncer, &commit_at("offset:4"), 4));
    assert_eq!(syncer.get(), (9, "offset:9".to_string()));
}
