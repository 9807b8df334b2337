pub mod channel;
pub mod io_observer;
pub mod io_worker;
pub mod worker;
