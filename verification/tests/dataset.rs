use neural_drive::dataloader::{parse_stored_value, CustomDataset, DataItem, Overlay};

#[test]
fn new_dataset_maps_every_address_to_zero() {
    let d = CustomDataset::new(16);
    assert_eq!(d.len(), 16);
    for i in 0..16usize {
        let item = d.get(i).unwrap();
        assert_eq!(item.address, i as u64);
        assert_eq!(item.value, 0);
    }
    assert!(d.get(16).is_none());
}

#[test]
fn from_values_keeps_values_in_order() {
    let d = CustomDataset::from_values(&vec![7u8, 9, 11]);
    assert_eq!(d.len(), 3);
    assert_eq!(d.get(0).unwrap(), DataItem { address: 0, value: 7 });
    assert_eq!(d.get(1).unwrap(), DataItem { address: 1, value: 9 });
    assert_eq!(d.get(2).unwrap(), DataItem { address: 2, value: 11 });
}

#[test]
fn overlay_wins_inside_window_base_outside() {
    let base = CustomDataset::from_values(&vec![1u8, 2, 3, 4, 5, 6]);
    let d = base.overlaid(2, vec![90u8, 91]).unwrap();
    assert_eq!(d.get(0).unwrap().value, 1);
    assert_eq!(d.get(1).unwrap().value, 2);
    assert_eq!(d.get(2).unwrap().value, 90);
    assert_eq!(d.get(3).unwrap().value, 91);
    assert_eq!(d.get(4).unwrap().value, 5);
    assert_eq!(d.get(5).unwrap().value, 6);
}

#[test]
fn overlay_record_carries_its_index_as_address() {
    let base = CustomDataset::from_values(&vec![1u8, 2, 3]);
    let d = base.overlaid(1, vec![50u8]).unwrap();
    assert_eq!(d.get(1).unwrap(), DataItem { address: 1, value: 50 });
}

#[test]
fn overlay_window_at_the_end_fits() {
    let base = CustomDataset::from_values(&vec![1u8, 2, 3]);
    let d = base.overlaid(2, vec![9u8]).unwrap();
    assert_eq!(d.get(2).unwrap().value, 9);
}

#[test]
fn overlay_window_past_the_end_is_refused() {
    let base = CustomDataset::from_values(&vec![1u8, 2, 3]);
    assert!(base.overlaid(2, vec![9u8, 10]).is_none());
}

#[test]
fn empty_overlay_window_changes_nothing() {
    let base = CustomDataset::from_values(&vec![1u8, 2]);
    let d = base.overlaid(1, Vec::new()).unwrap();
    assert_eq!(d.get(0).unwrap().value, 1);
    assert_eq!(d.get(1).unwrap().value, 2);
}

#[test]
fn retrain_rebuilds_base_from_clamped_predictions() {
    let skeleton = CustomDataset {
        base: Vec::new(),
        overlay: Overlay::Window { offset: 1, values: vec![200u8] },
    };
    let d = CustomDataset::retrain(skeleton, &vec![-7i64, 3, 400, 10]);
    assert_eq!(d.len(), 4);
    assert_eq!(d.get(0).unwrap().value, 0);
    assert_eq!(d.get(1).unwrap().value, 200);
    assert_eq!(d.get(2).unwrap().value, 255);
    assert_eq!(d.get(3).unwrap().value, 10);
}

#[test]
fn retrain_keeps_the_overlay_window() {
    let skeleton = CustomDataset {
        base: Vec::new(),
        overlay: Overlay::Absent,
    };
    let d = CustomDataset::retrain(skeleton, &vec![5i64, 6]);
    assert_eq!(d.get(0).unwrap().value, 5);
    assert_eq!(d.get(1).unwrap().value, 6);
}

#[test]
fn parse_plain_number() {
    assert_eq!(parse_stored_value(&b"200".to_vec()), 200);
    assert_eq!(parse_stored_value(&b"0".to_vec()), 0);
    assert_eq!(parse_stored_value(&b"255".to_vec()), 255);
    assert_eq!(parse_stored_value(&b"007".to_vec()), 7);
}

#[test]
fn parse_with_leading_plus() {
    assert_eq!(parse_stored_value(&b"+42".to_vec()), 42);
}

#[test]
fn parse_rejects_overflow() {
    assert_eq!(parse_stored_value(&b"256".to_vec()), 0);
    assert_eq!(parse_stored_value(&b"99999999999999999999".to_vec()), 0);
}

#[test]
fn parse_rejects_junk() {
    assert_eq!(parse_stored_value(&b"".to_vec()), 0);
    assert_eq!(parse_stored_value(&b"+".to_vec()), 0);
    assert_eq!(parse_stored_value(&b"12a".to_vec()), 0);
    assert_eq!(parse_stored_value(&b"-1".to_vec()), 0);
    assert_eq!(parse_stored_value(&b"4 2".to_vec()), 0);
    assert_eq!(parse_stored_value(&b"13\r".to_vec()), 0);
}

#[test]
fn parse_matches_std_parse() {
    for line in ["200", "+42", "256", "", "+", "12a", "-1", "007", "255"] {
        assert_eq!(
            parse_stored_value(&line.as_bytes().to_vec()),
            line.parse::<u8>().unwrap_or_default(),
        );
    }
}
