use zkvm_trace::column::{Column, PreprocessedColumn, ProgramColumn};

#[test]
fn column_offsets_follow_the_declaration_order() {
    assert_eq!(Column::Pc.offset(), 0);
    assert_eq!(Column::Pc.size(), 4);
    assert_eq!(Column::PcNext.offset(), 4);
    assert_eq!(Column::PcNextAux.offset(), 8);
    assert_eq!(Column::OpA.offset(), 12);
    assert_eq!(Column::OpA.size(), 1);
    assert_eq!(Column::OpB.offset(), 13);
    assert_eq!(Column::OpC.offset(), 14);
    assert_eq!(Column::CarryFlag.offset(), 15);
    assert_eq!(Column::BorrowFlag.offset(), 19);
    assert_eq!(Column::ImmB.offset(), 23);
    assert_eq!(Column::ValueA.offset(), 33);
    assert_eq!(Column::ValueC4_7.size(), 4);
    assert_eq!(Column::ValueC4_7.offset() + Column::ValueC4_7.size(), Column::COLUMNS_NUM);
}

#[test]
fn totals_of_the_three_namespaces() {
    assert_eq!(Column::COLUMNS_NUM, 330);
    assert_eq!(Column::VARIANTS_NUM, 168);
    assert_eq!(ProgramColumn::COLUMNS_NUM, 21);
    assert_eq!(ProgramColumn::VARIANTS_NUM, 9);
    assert_eq!(PreprocessedColumn::COLUMNS_NUM, 29);
    assert_eq!(PreprocessedColumn::VARIANTS_NUM, 17);
}

#[test]
fn program_columns_partition_their_namespace() {
    let all = [
        ProgramColumn::PrgMemoryPc,
        ProgramColumn::PrgMemoryWord,
        ProgramColumn::PrgMemoryFlag,
        ProgramColumn::PrgInitialPc,
        ProgramColumn::PublicInputValue,
        ProgramColumn::PublicInputFlag,
        ProgramColumn::PublicOutputValue,
        ProgramColumn::PublicOutputFlag,
        ProgramColumn::PublicInputOutputAddr,
    ];
    let mut next = 0;
    for col in all {
        assert_eq!(col.offset(), next);
        assert!(col.size() > 0);
        next += col.size();
    }
    assert_eq!(next, ProgramColumn::COLUMNS_NUM);
    assert_eq!(ProgramColumn::PrgMemoryFlag.offset(), 8);
    assert_eq!(ProgramColumn::PublicInputOutputAddr.offset(), 17);
}

#[test]
fn preprocessed_columns_partition_their_namespace() {
    let all = [
        PreprocessedColumn::IsFirst,
        PreprocessedColumn::IsFirst32,
        PreprocessedColumn::RowIdx,
        PreprocessedColumn::Clk,
        PreprocessedColumn::Reg1TsCur,
        PreprocessedColumn::Reg2TsCur,
        PreprocessedColumn::Reg3TsCur,
        PreprocessedColumn::Range128,
        PreprocessedColumn::Range16,
        PreprocessedColumn::Range8,
        PreprocessedColumn::Range256,
        PreprocessedColumn::Range32,
        PreprocessedColumn::BitwiseAndA,
        PreprocessedColumn::BitwiseOrA,
        PreprocessedColumn::BitwiseXorA,
        PreprocessedColumn::BitwiseB,
        PreprocessedColumn::BitwiseC,
    ];
    let mut next = 0;
    for col in all {
        assert_eq!(col.offset(), next);
        next += col.size();
    }
    assert_eq!(next, PreprocessedColumn::COLUMNS_NUM);
    assert_eq!(PreprocessedColumn::Clk.offset(), 3);
    assert_eq!(PreprocessedColumn::Clk.size(), 4);
    assert_eq!(PreprocessedColumn::BitwiseC.offset(), 28);
}

#[test]
fn flags_are_single_columns_in_a_row() {
    assert_eq!(Column::IsAdd.size(), 1);
    assert_eq!(Column::IsPadding.size(), 1);
    assert_eq!(
        Column::IsPadding.offset() - Column::IsAdd.offset(),
        36
    );
    assert_eq!(Column::IsOr.offset(), Column::IsAdd.offset() + 1);
}
