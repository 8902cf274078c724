//! A durable store of task records: a persisted identifier counter and a
//! persisted ordered map from identifier to encoded record, driven by a small
//! record service that validates input and checks ownership.
pub mod codec;
pub mod laws;
pub mod model;
pub mod service;
pub mod storage;
pub mod text;
