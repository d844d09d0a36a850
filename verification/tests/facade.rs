use neural_drive::encoder::{decode_address, encode_address};
use neural_drive::interface::{device_size, FacadeState, NNError, TheNetwork};
use neural_drive::batcher::InternalBatcher;
use neural_drive::dataloader::DataItem;
use neural_drive::model::{LayerDims, ModelConfig};
use neural_drive::trainer::{batch_schedule, epoch_order, AdamParams, TrainingConfig};
use neural_drive::checkpoint::{parse_config, render_config};

#[test]
fn batch_preserves_record_order() {
    let batcher = InternalBatcher::new();
    let items = vec![
        DataItem { address: 7, value: 3 },
        DataItem { address: 0, value: 9 },
        DataItem { address: 7, value: 5 },
    ];
    let b = batcher.batch(&items);
    assert_eq!(b.addresses.len(), 3);
    assert_eq!(b.targets, vec![3u8, 9, 5]);
    assert_eq!(b.addresses[0], encode_address(7));
    assert_eq!(b.addresses[1], encode_address(0));
    assert_eq!(b.addresses[2], encode_address(7));
}

#[test]
fn batch_of_nothing_is_empty() {
    let batcher = InternalBatcher::new();
    let b = batcher.batch(&Vec::new());
    assert_eq!(b.addresses.len(), 0);
    assert_eq!(b.targets.len(), 0);
}

#[test]
fn read_request_rows_decode_to_their_addresses() {
    let mut n = TheNetwork::init_with_size(8);
    n.model_installed();
    let b = n.read_request(4, 100).unwrap();
    assert_eq!(b.addresses.len(), 4);
    for i in 0..4usize {
        assert_eq!(decode_address(&b.addresses[i]), 100 + i as u64);
        assert_eq!(b.targets[i], 0);
    }
}

#[test]
fn read_before_any_model_is_refused() {
    let n = TheNetwork::init_with_size(8);
    assert_eq!(n.read_request(1, 0).unwrap_err(), NNError::ModelUnavailableError);
    let mut buf = vec![0u8];
    assert_eq!(n.read_at(&mut buf, 0, &vec![1i64]).unwrap_err(), NNError::ModelUnavailableError);
    assert_eq!(buf, vec![0u8]);
}

#[test]
fn read_past_the_address_space_is_refused() {
    let mut n = TheNetwork::init_with_size(8);
    n.model_installed();
    assert_eq!(n.read_request(2, u64::MAX).unwrap_err(), NNError::EncodingError);
    assert!(n.read_request(1, u64::MAX).is_ok());
    assert!(n.read_request(0, u64::MAX).is_ok());
}

#[test]
fn read_at_fills_the_buffer_in_order() {
    let mut n = TheNetwork::init_with_size(8);
    n.model_installed();
    let mut buf = vec![0u8; 5];
    let raw = vec![-9i64, 12, 255, 300, 0];
    n.read_at(&mut buf, 3, &raw).unwrap();
    assert_eq!(buf, vec![0u8, 12, 255, 255, 0]);
}

#[test]
fn consecutive_read_requests_are_identical() {
    let mut n = TheNetwork::init_with_size(8);
    n.model_installed();
    let b1 = n.read_request(6, 40).unwrap();
    let b2 = n.read_request(6, 40).unwrap();
    assert_eq!(b1.addresses, b2.addresses);
    assert_eq!(b1.targets, b2.targets);
}

#[test]
fn read_path_composes_in_address_order() {
    // Stand in for the backend with a function that answers each row with
    // the address it encodes: the buffer must come back in address order.
    let mut n = TheNetwork::init_with_size(8);
    n.model_installed();
    let b = n.read_request(3, 5).unwrap();
    let raw: Vec<i64> = b.addresses.iter().map(|row| decode_address(row) as i64).collect();
    let mut buf = vec![0u8; 3];
    n.read_at(&mut buf, 5, &raw).unwrap();
    assert_eq!(buf, vec![5u8, 6, 7]);
}

#[test]
fn train_on_empty_corpus_is_refused() {
    let mut n = TheNetwork::init();
    n.model_installed();
    assert_eq!(n.train(&vec![1u8], 0).unwrap_err(), NNError::EmptyDatasetError);
}

#[test]
fn train_before_any_model_is_refused() {
    let n = TheNetwork::init_with_size(8);
    assert_eq!(n.train(&vec![1u8], 0).unwrap_err(), NNError::ModelUnavailableError);
}

#[test]
fn train_past_the_corpus_is_refused() {
    let mut n = TheNetwork::init_with_size(8);
    n.model_installed();
    assert_eq!(n.train(&vec![1u8, 2], 7).unwrap_err(), NNError::EncodingError);
    assert!(n.train(&vec![1u8, 2], 6).is_ok());
}

#[test]
fn train_plan_hands_the_backend_the_whole_corpus_and_the_window() {
    let mut n = TheNetwork::init_with_size(4);
    n.model_installed();
    let plan = n.train(&vec![200u8], 2).unwrap();
    assert_eq!(plan.overlay_offset, 2);
    assert_eq!(plan.overlay_values, vec![200u8]);
    assert_eq!(plan.config, n.training_config);
    assert_eq!(plan.rebuild_batch.addresses.len(), 4);
    for i in 0..4usize {
        assert_eq!(decode_address(&plan.rebuild_batch.addresses[i]), i as u64);
    }
}

#[test]
fn identical_writes_plan_identical_training_rounds() {
    let mut n = TheNetwork::init_with_size(4);
    n.model_installed();
    let p1 = n.train(&vec![9u8, 8], 1).unwrap();
    let p2 = n.train(&vec![9u8, 8], 1).unwrap();
    assert_eq!(p1.config, p2.config);
    assert_eq!(p1.config.seed, 42);
    assert_eq!(p1.rebuild_batch.addresses, p2.rebuild_batch.addresses);
    assert_eq!(p1.overlay_offset, p2.overlay_offset);
    assert_eq!(p1.overlay_values, p2.overlay_values);
}

#[test]
fn written_window_shadows_the_model_in_the_training_corpus() {
    // A corpus of 256 addresses all predicted 0; write [200] at offset 10.
    let mut n = TheNetwork::init_with_size(256);
    n.model_installed();
    let predictions = vec![0i64; 256];
    let d = n.training_dataset(&predictions, &vec![200u8], 10).unwrap();
    assert_eq!(d.len(), 256);
    assert_eq!(d.get(10).unwrap().value, 200);
    assert_eq!(d.get(0).unwrap().value, 0);
    assert_eq!(d.get(9).unwrap().value, 0);
    assert_eq!(d.get(11).unwrap().value, 0);
    assert_eq!(d.get(255).unwrap().value, 0);
}

#[test]
fn committed_write_installs_a_new_version() {
    let mut n = TheNetwork::init_with_size(4);
    n.model_installed();
    let v0 = n.model_version;
    n.begin_write();
    assert_eq!(n.state, FacadeState::Training);
    n.commit_write();
    assert_eq!(n.state, FacadeState::Idle);
    assert_eq!(n.model_version, v0 + 1);
    assert!(n.model_ready);
}

#[test]
fn failed_write_keeps_the_old_version_and_surfaces_the_error() {
    let mut n = TheNetwork::init_with_size(4);
    n.model_installed();
    let v0 = n.model_version;
    n.begin_write();
    let e = n.abort_write(NNError::CheckpointError);
    assert_eq!(e, NNError::CheckpointError);
    assert_eq!(n.state, FacadeState::Idle);
    assert_eq!(n.model_version, v0);

    n.begin_write();
    let e = n.abort_write(NNError::TrainingDivergedError);
    assert_eq!(e, NNError::TrainingDivergedError);
    assert_eq!(n.model_version, v0);
}

#[test]
fn facade_starts_idle_without_a_model() {
    let n = TheNetwork::init();
    assert_eq!(n.state, FacadeState::Idle);
    assert!(!n.model_ready);
    assert_eq!(n.model_version, 0);
    assert_eq!(n.max_size, 0);
}

#[test]
fn device_reports_an_unbounded_surface() {
    assert_eq!(device_size(), i64::MAX);
}

#[test]
fn default_training_config() {
    let c = TrainingConfig::default();
    assert_eq!(c.model, ModelConfig { input_size: 64, output_size: 1 });
    assert_eq!(c.num_epochs, 20);
    assert_eq!(c.batch_size, 64);
    assert_eq!(c.num_workers, 4);
    assert_eq!(c.seed, 42);
    assert_eq!(c.learning_rate_micros, 10_000);
    assert_eq!(
        c.optimizer,
        AdamParams { beta_1_micros: 900_000, beta_2_micros: 999_000, epsilon_nanos: 10_000 },
    );
}

#[test]
fn epoch_order_is_a_permutation() {
    for epoch in 0..3usize {
        let mut order = epoch_order(42, epoch, 17);
        assert_eq!(order.len(), 17);
        order.sort();
        assert_eq!(order, (0..17usize).collect::<Vec<_>>());
    }
}

#[test]
fn epoch_order_is_deterministic_and_seed_sensitive() {
    assert_eq!(epoch_order(42, 0, 32), epoch_order(42, 0, 32));
    assert_ne!(epoch_order(42, 0, 32), epoch_order(43, 0, 32));
    assert_ne!(epoch_order(42, 0, 32), epoch_order(42, 1, 32));
}

#[test]
fn batch_schedule_partitions_each_epoch() {
    let n = 10usize;
    let schedule = batch_schedule(7, n, 4, 2);
    // ceil(10 / 4) = 3 batches per epoch, 2 epochs.
    assert_eq!(schedule.len(), 6);
    for epoch in 0..2usize {
        let mut seen: Vec<usize> = Vec::new();
        for chunk in &schedule[epoch * 3..(epoch + 1) * 3] {
            assert!(chunk.len() <= 4);
            seen.extend_from_slice(chunk);
        }
        let mut sorted = seen.clone();
        sorted.sort();
        assert_eq!(sorted, (0..n).collect::<Vec<_>>());
    }
    assert_eq!(schedule, batch_schedule(7, n, 4, 2));
}

#[test]
fn batch_schedule_of_nothing_is_empty() {
    assert_eq!(batch_schedule(7, 0, 4, 3).len(), 0);
    assert_eq!(batch_schedule(7, 5, 4, 0).len(), 0);
}

#[test]
fn config_record_round_trips() {
    let c = TrainingConfig::default();
    let bytes = render_config(&c);
    assert_eq!(parse_config(&bytes), Some(c));

    let mut odd = TrainingConfig::default();
    odd.seed = u64::MAX;
    odd.num_epochs = 0;
    odd.learning_rate_micros = 123_456_789;
    let bytes = render_config(&odd);
    assert_eq!(parse_config(&bytes), Some(odd));
}

#[test]
fn config_record_is_ten_decimal_lines() {
    let c = TrainingConfig::default();
    let bytes = render_config(&c);
    let text = String::from_utf8(bytes).unwrap();
    assert_eq!(text, "64\n1\n20\n64\n4\n42\n10000\n900000\n999000\n10000");
}

#[test]
fn malformed_config_records_are_refused() {
    assert_eq!(parse_config(&b"".to_vec()), None);
    assert_eq!(parse_config(&b"64\n1\n20".to_vec()), None);
    assert_eq!(parse_config(&b"64\n1\n20\n64\n4\n42\n10000\n900000\n999000\n".to_vec()), None);
    assert_eq!(parse_config(&b"64\n1\n20\n64\nx4\n42\n10000\n900000\n999000\n10000".to_vec()), None);
    assert_eq!(
        parse_config(&b"64\n1\n20\n64\n4\n42\n10000\n900000\n999000\n99999999999999999999".to_vec()),
        None,
    );
    assert_eq!(
        parse_config(&b"64\n1\n20\n64\n4\n42\n10000\n900000\n999000\n10000\n5".to_vec()),
        None,
    );
}

#[test]
fn model_layers_form_the_eight_layer_stack() {
    let dims = ModelConfig::new(64, 1).init();
    let expect = vec![
        LayerDims { in_features: 64, out_features: 32 },
        LayerDims { in_features: 32, out_features: 128 },
        LayerDims { in_features: 128, out_features: 128 },
        LayerDims { in_features: 128, out_features: 128 },
        LayerDims { in_features: 128, out_features: 128 },
        LayerDims { in_features: 128, out_features: 512 },
        LayerDims { in_features: 512, out_features: 128 },
        LayerDims { in_features: 128, out_features: 1 },
    ];
    assert_eq!(dims, expect);
    for w in dims.windows(2) {
        assert_eq!(w[0].out_features, w[1].in_features);
    }
}
