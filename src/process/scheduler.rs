pub mod round_robin;

pub use round_robin::RRScheduler as Scheduler;
