//! A sign with a four-row character display, and the proxy that feeds it.
//!
//! The display side: [`line`] renders one row, [`scroll`] moves a row's
//! window, [`renderer`] runs the four rows and decides when new text is
//! taken over, [`buffer`] is where that text waits, [`refresh`] is what
//! the fetching side puts there, and [`lcd`] knows the display's memory.
//!
//! The proxy side: [`calendar`] holds the events and answers questions
//! about them, [`proxy`] decides when to fetch and what to answer, and
//! [`number`] writes and reads numbers.
//!
//! [`trusted`] lists what is called without proof.

pub mod buffer;
pub mod calendar;
pub mod lcd;
pub mod line;
pub mod number;
pub mod proxy;
pub mod refresh;
pub mod renderer;
pub mod scroll;
pub mod trusted;
