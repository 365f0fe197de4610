//! Assuan protocol core of a Windows pinentry for GnuPG: percent codec,
//! error codes, the session state, the per-line protocol state machine, and
//! the content and layout of its dialogs.

pub mod codec;
pub mod error;
pub mod text;
pub mod state;
pub mod protocol;
pub mod dialog;
