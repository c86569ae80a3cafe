use zkvm_trace::column::Column;
use zkvm_trace::field::BaseField;
use zkvm_trace::trace::{Traces, LOG_N_LANES};

fn values(fields: &[BaseField]) -> Vec<u32> {
    fields.iter().map(|f| f.value()).collect()
}

#[test]
fn new_trace_is_zeroed() {
    let traces = Traces::new(LOG_N_LANES);
    assert_eq!(traces.log_size(), 4);
    assert_eq!(traces.num_rows(), 16);
    assert_eq!(values(&traces.column(0, Column::Pc)), vec![0, 0, 0, 0]);
    assert_eq!(values(&traces.column(15, Column::ValueC4_7)), vec![0, 0, 0, 0]);
    let cols = traces.into_inner();
    assert_eq!(cols.len(), Column::COLUMNS_NUM);
    for col in &cols {
        assert_eq!(col.len(), 16);
        assert!(col.iter().all(|f| f.value() == 0));
    }
}

#[test]
fn column_mut_writes_one_field_of_one_row() {
    let mut traces = Traces::new(5);
    let word = [
        BaseField::from_u32(1),
        BaseField::from_u32(2),
        BaseField::from_u32(3),
        BaseField::from_u32(4),
    ];
    traces.column_mut(7, Column::ValueB, &word);
    assert_eq!(values(&traces.column(7, Column::ValueB)), vec![1, 2, 3, 4]);
    assert_eq!(values(&traces.column(6, Column::ValueB)), vec![0, 0, 0, 0]);
    assert_eq!(values(&traces.column(7, Column::ValueA)), vec![0, 0, 0, 0]);
    assert_eq!(values(&traces.column(7, Column::ValueC)), vec![0, 0, 0, 0]);
    let cols = traces.into_inner();
    let offset = Column::ValueB.offset();
    for (c, col) in cols.iter().enumerate() {
        for (r, cell) in col.iter().enumerate() {
            let expected = if r == 7 && c >= offset && c < offset + 4 {
                (c - offset + 1) as u32
            } else {
                0
            };
            assert_eq!(cell.value(), expected);
        }
    }
}

#[test]
fn fill_helpers() {
    let mut traces = Traces::new(4);
    traces.fill_columns_word(3, Column::Pc, 0x0403_0201);
    assert_eq!(values(&traces.column(3, Column::Pc)), vec![1, 2, 3, 4]);
    traces.fill_columns_bytes(3, Column::PcNext, [9, 8, 7, 6]);
    assert_eq!(values(&traces.column(3, Column::PcNext)), vec![9, 8, 7, 6]);
    traces.fill_columns_bools(3, Column::CarryFlag, [true, false, false, true]);
    assert_eq!(values(&traces.column(3, Column::CarryFlag)), vec![1, 0, 0, 1]);
    traces.fill_columns_bool(3, Column::ImmC, true);
    assert_eq!(values(&traces.column(3, Column::ImmC)), vec![1]);
    traces.fill_columns_value(3, Column::OpC, BaseField::from_u32(77));
    assert_eq!(values(&traces.column(3, Column::OpC)), vec![77]);
    traces.fill_columns_one_hot(3, Column::IsAdd, Column::IsPadding, Column::IsSub);
    assert_eq!(values(&traces.column(3, Column::IsSub)), vec![1]);
    assert_eq!(values(&traces.column(3, Column::IsAdd)), vec![0]);
    assert_eq!(values(&traces.column(3, Column::IsPadding)), vec![0]);
    assert_eq!(values(&traces.column(2, Column::IsSub)), vec![0]);
    // the fields around the flags are left alone
    assert_eq!(values(&traces.column(3, Column::ValueC)), vec![0, 0, 0, 0]);
    assert_eq!(values(&traces.column(3, Column::Helper1)), vec![0, 0, 0, 0]);
}

#[test]
fn circle_evaluation_reorders_every_column() {
    let mut traces = Traces::new(4);
    for row in 0..16usize {
        traces.fill_columns_value(row, Column::OpA, BaseField::from_u32(row as u32));
    }
    let evaluations = traces.into_circle_evaluation();
    assert_eq!(evaluations.len(), Column::COLUMNS_NUM);
    let op_a = &evaluations[Column::OpA.offset()];
    assert_eq!(op_a.log_size, 4);
    // rows 0..16 in circle-domain order: 0 2 4 .. 14 15 13 .. 1, then bit-reversed
    assert_eq!(
        values(&op_a.values),
        vec![0, 15, 8, 7, 4, 11, 12, 3, 2, 13, 10, 5, 6, 9, 14, 1]
    );
    let pc = &evaluations[Column::Pc.offset()];
    assert_eq!(values(&pc.values), vec![0; 16]);
}
