//! Registration lifecycle for InfiniBand device drivers.
//!
//! A driver is registered with its hosting subsystem in two moves: the
//! sub-resources it depends on are acquired in a fixed order, and only then is
//! its operation table published. Teardown retracts the publication first and
//! releases the sub-resources in reverse order. A failure on the way unwinds
//! exactly what had been acquired, and the error is handed on as it came.
//!
//! The library never calls the kernel itself. It is laid out in three layers:
//!
//! - [`resource_set`] holds the ordering rules, as a state machine that is told
//!   what happened and says what to do next. [`trace`] proves what follows
//!   from the rules for whole operations.
//! - [`driver`] runs the machine against a host, through a channel that keeps
//!   the history of what was asked. The contracts of its functions say, for
//!   whatever the host answers, which requests the host gets and in which
//!   order.
//! - [`mlx4`] and [`rxe`] are the two integration points: their requests, what
//!   each step means in requests, and the registrations themselves.

pub mod error;
pub mod list;
pub mod resource_set;
pub mod trace;
pub mod driver;
pub mod mlx4;
pub mod rxe;
