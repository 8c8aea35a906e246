pub mod mutex;
pub mod mutex_laws;
pub mod mutex_steps;
pub mod oneshot;
pub mod oneshot_laws;
pub mod poll;
pub mod queue;
pub mod queue_laws;
pub mod slot;
pub mod slot_laws;
pub mod waker;

pub use mutex::Mutex;
pub use oneshot::Oneshot;
pub use poll::Poll;
