//! A block-addressable storage surface served by a regression model.
//!
//! Reads return the model's predicted byte for each address; writes overlay
//! the written range on the model's own predictions and retrain it. This
//! crate holds the verified core: the bit encoding of addresses, the overlay
//! dataset, batch construction, the training configuration, and the facade
//! state machine that coordinates reads and write-triggered retraining.
//! The numeric backend that fits the model and the block-device transport
//! stand outside the library and exchange plain values with it.

pub mod batcher;
pub mod checkpoint;
pub mod dataloader;
pub mod encoder;
pub mod interface;
pub mod model;
pub mod trainer;
