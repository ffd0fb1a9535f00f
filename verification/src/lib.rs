//! A context-mixing bit predictor (adaptive context counters, bit-history
//! state maps, match models, a two-layer logistic mixer and APM/SSE stages),
//! together with the cache-cost model used to meter it.

pub mod bits;
pub mod hashing;
pub mod bit_history;
pub mod adaptive;
pub mod tables;
pub mod apm;
pub mod mixer;
pub mod cache;
pub mod model;
pub mod context;
pub mod predict;
pub mod inputs;
pub mod select;
pub mod mixing;
pub mod step;
pub mod learn;
pub mod follow;
pub mod history;
pub mod matching;
pub mod byte_end;
pub mod instrument;
pub mod fuel;
pub mod laws;
pub mod report;
pub mod meter;
pub mod replay;
