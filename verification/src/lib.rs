//! Verified core of a host and process monitor.
//!
//! A monitor samples the host once per tick. This library holds what is done
//! with a sample: it keeps the two trend series of the host within a fixed
//! width ([`history`]), ranks the processes by CPU load and spreads each load
//! over the cores ([`rank`]), renders the ranking as comma-separated text
//! ([`export`], [`decimal`], [`text`]) and decides what a tick or a request of
//! the user changes and what it leaves to do outside ([`controller`]). The
//! data that passes between these parts is in [`process`].
//!
//! Reading the host, drawing, writing files and stopping processes are the
//! caller's business; the library takes and returns plain values.
//!
//! Loads and sizes are fixed-point: a CPU load counts millionths of a
//! percent, a memory size counts bytes, that is millionths of a megabyte.

pub mod controller;
pub mod decimal;
pub mod export;
pub mod history;
pub mod process;
pub mod rank;
pub mod text;
