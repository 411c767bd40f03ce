//! Verified building blocks of the message-queue and nomination-pool pallets:
//! weights, the weight functions of the message queue, the heap format of a
//! message page, and the decisions taken by the pool benchmarking helpers.

pub mod page;
pub mod pool_bench;
pub mod scale;
pub mod weight;
pub mod weights;
