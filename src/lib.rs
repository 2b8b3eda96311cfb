//! Server-rendered fragments of a lazy content reveal: a placeholder control,
//! a loading indicator that fetches the content as soon as it is attached,
//! the content itself with a reset control, and the reset placeholder.
pub mod markup;
pub mod fragment;
pub mod handlers;
pub mod laws;
