//! Boot-time hardware discovery: interval sets, firmware tables, status codes
//! and a ticket lock.

pub mod mm;
pub mod range;
pub mod ticket_mutex;
pub mod uefi;
