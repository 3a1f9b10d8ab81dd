//! Control of one agent turn: the validation packet inside a prompt, the
//! repair loop around the validation commands, the state that a turn keeps,
//! and the decisions that surround one shell command.
pub mod controller_validation;
pub mod host;
pub mod keyed;
pub mod metrics;
pub mod regular;
pub mod shell;
pub mod text;
pub mod tool_payload;
pub mod turn;
pub mod user_input;
