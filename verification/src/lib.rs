//! Fall-detection core for a board with a three-axis accelerometer: a
//! fixed-capacity sliding window of recent samples, an exact per-axis
//! running sum, and the free-fall classification that drives the alarm.

mod buffer;
mod control;
mod sample;
mod sums;

pub use buffer::lemma_ring_overwrite;
pub use buffer::lemma_startup_is_falling;
pub use buffer::lemma_window_contents;
pub use buffer::AccelerationData;
pub use buffer::DATA_LENGTH;
pub use buffer::FALL_THRESHOLD;
pub use buffer::MAX_CAPACITY;
pub use control::alarm_duty;
pub use sample::Sample;
pub use sums::seq_sum;
