//! Turns a root pitch and the name of a scale mode or chord quality into the
//! bytes of a single-track MIDI file.
//!
//! The pitch arithmetic lives in [`pitch`], [`scale`] and [`chord`], with what
//! holds across them in [`laws`]. The byte encoding lives in [`vlq`],
//! [`event`] and [`track`], and [`reading`] takes a written track apart again.
//! [`layout`] says where every byte of a track stands and [`timing`] when its
//! events happen. [`request`] runs the whole way from two names to a file.

pub mod chord;
pub mod event;
pub mod laws;
pub mod layout;
pub mod pitch;
pub mod reading;
pub mod request;
pub mod scale;
pub mod text;
pub mod timing;
pub mod track;
pub mod vlq;
