//! A small task-coordination core: fire-and-join worker tasks, an unbounded
//! multi-producer/single-consumer channel, a mutex-guarded shared cell, and a
//! chunked parallel reduction whose final value is proved independent of
//! scheduling.

mod basics;
mod cell;
mod channel;
mod chunk;
mod errors;
mod garden;
mod handle;
mod pool;
mod reduce;

pub use basics::Guess;
pub use basics::add;
pub use basics::true_bool;
pub use cell::ScopedGuard;
pub use cell::SharedCell;
pub use cell::bump;
pub use cell::increment;
pub use cell::read_value;
pub use channel::Receiver;
pub use channel::Sender;
pub use channel::channel;
pub use channel::is_interleaving;
pub use channel::lemma_interleaving_delivers_all;
pub use channel::sent_by;
pub use chunk::chunk_views;
pub use chunk::lemma_chunk_lengths_cover;
pub use chunk::partition;
pub use chunk::total_len;
pub use errors::CoordError;
pub use garden::Garden;
pub use garden::plant_vegetable;
pub use handle::TaskHandle;
pub use handle::join;
pub use handle::spawn;
pub use pool::PoolFailure;
pub use pool::join_all;
pub use pool::spawn_n;
pub use reduce::ReduceOutcome;
pub use reduce::additive;
pub use reduce::lemma_sum_sq_concat;
pub use reduce::lemma_sum_sq_nonneg;
pub use reduce::lemma_sum_sq_push;
pub use reduce::nonneg;
pub use reduce::parallel_map_reduce;
pub use reduce::parallel_reduce;
pub use reduce::sum_of_squares;
pub use reduce::sum_squares;
