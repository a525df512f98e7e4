pub mod options;
pub mod event;
pub mod task;
pub mod unify;
pub mod stream;
pub mod reply;
pub mod executor;

pub use event::SearchEvent;
pub use executor::{Executor, Phase};
pub use options::{SearchOptions, SearchTask};
pub use reply::{reply, Failure};
pub use stream::{forward, forward_all, Forwarding, Topic};
pub use task::{ExecStatus, SearchError, SystemError, TaskId, TaskOutput, TaskStatus};
pub use unify::{unify, Aggregator};
