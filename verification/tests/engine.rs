use pdl::codes;
use pdl::engine::{
    data_frame_indices, geo_native_unsupported, native_engine_name,
    native_hidden_column_name_from_names, native_join_right_outputs, native_sort_nulls_last,
    output_write_error, position_of, type_error, union_output_index_map, unsupported_native_format,
    unsupported_native_operation, DataBackend, DataWindowFrame, NativeMaterializationReason,
    NativeWindowSortGroup,
};
use pdl::format::DataFormat;
use pdl::frame::{NullsOrder, SortDirection, SortSpec};

fn names(items: &[&str]) -> Vec<String> {
    items.iter().map(|item| item.to_string()).collect()
}

#[test]
fn engine_name_and_default_backend() {
    assert_eq!(native_engine_name(), "in-memory");
    assert_eq!(DataBackend::default(), DataBackend::PortableRows);
}

#[test]
fn materialization_reasons_have_stable_labels() {
    assert_eq!(NativeMaterializationReason::TerminalCollect.as_str(), "terminal_collect");
    assert_eq!(NativeMaterializationReason::TemporalScalar.as_str(), "temporal_scalar");
    assert_eq!(
        NativeMaterializationReason::PivotLongerOrderOrMixedValue.as_str(),
        "pivot_longer_order_or_mixed_value"
    );
    assert_eq!(
        NativeMaterializationReason::NativeWriterTextBridge.as_str(),
        "native_writer_text_bridge"
    );
}

#[test]
fn window_frames_select_clamped_partition_members() {
    let partition = [10usize, 11, 12, 13, 14];
    assert_eq!(data_frame_indices(DataWindowFrame::WholePartition, &partition, 2), vec![10, 11, 12, 13, 14]);
    assert_eq!(data_frame_indices(DataWindowFrame::UnboundedPrecedingToCurrentRow, &partition, 2), vec![10, 11, 12]);
    assert_eq!(data_frame_indices(DataWindowFrame::CurrentRowToUnboundedFollowing, &partition, 2), vec![12, 13, 14]);
    assert_eq!(data_frame_indices(DataWindowFrame::PrecedingToCurrentRow { rows: 1 }, &partition, 0), vec![10]);
    assert_eq!(data_frame_indices(DataWindowFrame::CurrentRowToFollowing { rows: 9 }, &partition, 3), vec![13, 14]);
    assert_eq!(
        data_frame_indices(DataWindowFrame::PrecedingToFollowing { preceding: 1, following: 1 }, &partition, 4),
        vec![13, 14]
    );
    assert_eq!(data_frame_indices(DataWindowFrame::WholePartition, &[], 0), Vec::<usize>::new());
    assert_eq!(data_frame_indices(DataWindowFrame::CurrentRowToFollowing { rows: 2 }, &partition, 9), vec![14]);
    assert_eq!(data_frame_indices(DataWindowFrame::PrecedingToFollowing { preceding: 0, following: 0 }, &partition, 1), vec![11]);
}

#[test]
fn union_alignment_maps_output_columns_to_first_source_position() {
    let source = names(&["a", "b", "a", "c"]);
    let output = names(&["c", "a", "z"]);
    assert_eq!(union_output_index_map(&source, &output), vec![Some(3), Some(0), None]);
    assert_eq!(position_of(&source, &"b".to_string()), Some(1));
    assert_eq!(position_of(&source, &"q".to_string()), None);
}

#[test]
fn join_outputs_rename_collisions_and_skip_keys() {
    let left = names(&["id", "name", "name_right"]);
    let right = names(&["id", "amount", "region"]);
    let keys = names(&["id"]);
    let outputs = native_join_right_outputs(&left, &right, &keys).expect("no collision");
    assert_eq!(
        outputs,
        vec![
            ("amount".to_string(), "amount".to_string()),
            ("region".to_string(), "region".to_string()),
        ]
    );

    let right = names(&["id", "name", "score"]);
    let left = names(&["id", "score"]);
    let outputs = native_join_right_outputs(&left, &right, &keys).expect("renamed");
    assert_eq!(
        outputs,
        vec![
            ("name".to_string(), "name".to_string()),
            ("score".to_string(), "score_right".to_string()),
        ]
    );
}

#[test]
fn join_outputs_fail_on_a_second_collision() {
    let left = names(&["name", "name_right"]);
    let right = names(&["name"]);
    let error = native_join_right_outputs(&left, &right, &Vec::<String>::new()).expect_err("collision");
    assert_eq!(error.code.as_str(), "E1211");
    assert_eq!(
        error.message,
        "operation `join output column collision` is not supported by the native data backend"
    );
}

#[test]
fn hidden_columns_take_the_first_free_candidate() {
    let base = "__pdl_window_row_index";
    assert_eq!(native_hidden_column_name_from_names(&names(&["a"]), base), base);
    assert_eq!(
        native_hidden_column_name_from_names(&names(&[base, "__pdl_window_row_index_1"]), base),
        "__pdl_window_row_index_2"
    );
    assert_eq!(native_hidden_column_name_from_names(&names(&["x", "x_1", "x_2", "x_3"]), "x"), "x_4");
}

#[test]
fn sort_groups_sort_partitions_first() {
    let group = NativeWindowSortGroup {
        partition_by: names(&["region"]),
        order_by: vec![SortSpec {
            column: "amount".to_string(),
            direction: SortDirection::Desc,
            nulls: NullsOrder::First,
        }],
    };
    assert_eq!(
        group.sort_specs(),
        vec![
            SortSpec { column: "region".to_string(), direction: SortDirection::Asc, nulls: NullsOrder::Last },
            SortSpec { column: "amount".to_string(), direction: SortDirection::Desc, nulls: NullsOrder::First },
        ]
    );
    assert!(native_sort_nulls_last(SortDirection::Asc, NullsOrder::Last));
    assert!(!native_sort_nulls_last(SortDirection::Asc, NullsOrder::First));
    assert!(native_sort_nulls_last(SortDirection::Desc, NullsOrder::First));
    assert!(!native_sort_nulls_last(SortDirection::Desc, NullsOrder::Last));
}

#[test]
fn engine_diagnostics_carry_their_codes() {
    let t = type_error("round() requires a number");
    assert_eq!(t.code, codes::E1302());
    assert_eq!(t.message, "round() requires a number");
    assert_eq!(geo_native_unsupported().code.as_str(), "E1211");
    let f = unsupported_native_format(DataFormat::GeoJson);
    assert_eq!(f.code.as_str(), "E1215");
    assert_eq!(f.message, "format `geojson` is not supported by the native data backend");
    let o = unsupported_native_operation("pivot");
    assert_eq!(o.message, "operation `pivot` is not supported by the native data backend");
    let w = output_write_error("disk full");
    assert_eq!(w.code.as_str(), "E1704");
    assert_eq!(w.message, "output write failed: disk full");
}
