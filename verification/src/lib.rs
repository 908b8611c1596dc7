//! The rules of a shared buzzer: rooms that people join, the button they
//! race for, and the captain who runs the room.
//!
//! - [`room`] is a room and what messages do to it; [`room_laws`] is what can be
//!   relied on there, and [`room_change_laws`] what each message changes.
//! - [`session`] is a participant's connection to a room, with
//!   [`session_laws`], and [`conversation_laws`] event by event.
//! - [`lobby`] is which rooms are open and how they are asked for, with
//!   [`lobby_laws`], and [`entrance_laws`] call by call; [`params`] are the
//!   parameters of a query, with [`params_laws`].
//! - [`telemetry`] is where traces go, with the [`metadata`] that goes along and
//!   [`telemetry_laws`].
//! - [`text`] is plain text and decimal numbers, and [`visits`] a counter, with
//!   [`text_laws`].

pub mod conversation_laws;
pub mod entrance_laws;
pub mod lobby;
pub mod lobby_laws;
pub mod metadata;
pub mod params;
pub mod params_laws;
mod random;
pub mod room;
pub mod room_change_laws;
pub mod room_laws;
pub mod session;
pub mod session_laws;
pub mod telemetry;
pub mod telemetry_laws;
pub mod text;
pub mod text_laws;
pub mod visits;
