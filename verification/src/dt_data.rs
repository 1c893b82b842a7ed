use vstd::prelude::*;

verus! {

/// Kind of a single row/document mutation.
#[derive(Clone, Copy, Debug, PartialEq, Eq, Structural)]
pub enum RowType {
    Insert,
    Update,
    Delete,
}

/// One row/document mutation: table identity, mutation kind, field values
/// before and after, and the source position it was read at.
#[derive(Clone, Debug, PartialEq, Eq)]
pub struct RowData {
    pub schema: String,
    pub tb: String,
    pub row_type: RowType,
    pub before: Vec<(String, String)>,
    pub after: Vec<(String, String)>,
    pub position: String,
}

/// A structural change, passed through opaquely.
#[derive(Clone, Debug, PartialEq, Eq)]
pub struct DdlData {
    pub schema: String,
    pub query: String,
}

/// The uniform event representation moved through the pipeline.
#[derive(Clone, Debug, PartialEq, Eq)]
pub enum DtData {
    Ddl { ddl_data: DdlData },
    Dml { row_data: RowData },
    Commit { xid: String, position: String },
}

pub open spec fn is_commit(d: DtData) -> bool {
    match d {
        DtData::Commit { .. } => true,
        _ => false,
    }
}

pub open spec fn is_dml(d: DtData) -> bool {
    match d {
        DtData::Dml { .. } => true,
        _ => false,
    }
}

/// The position carried by an event, as resume-relevant for consumers:
/// the commit marker's own position, or a mutation's stamped position.
pub open spec fn position_view(d: DtData) -> Seq<char> {
    match d {
        DtData::Commit { position, .. } => position@,
        DtData::Dml { row_data } => row_data.position@,
        DtData::Ddl { .. } => Seq::<char>::empty(),
    }
}

/// `r` is `orig` with the position `pos` stamped on: a mutation gets it on its
/// row data, a commit marker on its own position field, and a structural event
/// is passed through unchanged; no other field moves.
pub open spec fn is_stamped(orig: DtData, pos: Seq<char>, r: DtData) -> bool {
    match orig {
        DtData::Dml { row_data: a } => match r {
            DtData::Dml { row_data: b } => {
                &&& b.schema == a.schema
                &&& b.tb == a.tb
                &&& b.row_type == a.row_type
                &&& b.before == a.before
                &&& b.after == a.after
                &&& b.position@ == pos
            },
            _ => false,
        },
        DtData::Commit { xid: xa, position: _ } => match r {
            DtData::Commit { xid: xb, position: pb } => xb == xa && pb@ == pos,
            _ => false,
        },
        DtData::Ddl { .. } => r == orig,
    }
}

/// Stamping a position is the last step before an event is enqueued, so the
/// position always reflects the record's actual source offset.
pub fn stamp_position(data: DtData, position: String) -> (r: DtData)
    ensures
        is_stamped(data, position@, r),
{
    match data {
        DtData::Dml { row_data } => DtData::Dml {
            row_data: RowData {
                schema: row_data.schema,
                tb: row_data.tb,
                row_type: row_data.row_type,
                before: row_data.before,
                after: row_data.after,
                position,
            },
        },
        DtData::Commit { xid, position: _ } => DtData::Commit { xid, position },
        DtData::Ddl { ddl_data } => DtData::Ddl { ddl_data },
    }
}

} // verus!
