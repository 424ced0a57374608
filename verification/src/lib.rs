//! A poller that follows the confirmed transactions of one ledger address and
//! hands their decoded events on, oldest first.
//!
//! The poller is a worker that is suspended whenever it needs the world
//! outside: the ledger, the transaction decoder, the output queue, the clock.
//! [`poller::EventPoller::run`] resumes it with the outcome of what it was
//! waiting for and returns what it needs next. The modules `cycle`, `ledger`
//! and `delivery` state, and prove, what a driver that follows these requests
//! observes: over one cycle, of a ledger that grows, and over a whole run.

pub mod signature;
pub mod request;
pub mod poller;
pub mod cycle;
pub mod ledger;
pub mod delivery;
