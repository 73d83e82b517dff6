//! Single-user authentication in front of one protected action.
//!
//! A shared secret is created once and kept (`secret`). It is bound to the
//! one provisioned identity (`directory`). Presented credentials are checked
//! against it with a timing-safe comparison (`auth`). A successful check
//! creates a server-held session under a random token (`session`,
//! `entropy`), which travels in a cookie (`cookie`, `hex`). The guard lets a
//! request through to the protected action only with a valid session
//! (`guard`), and the answers of both endpoints are plain values (`reply`,
//! `page`).
//!
//! Nothing here reads a file, a socket or a clock: the caller hands in what
//! storage holds, the request's bytes and the time, and sends what comes
//! back. Shared use needs no more than Rust's borrows: reads take `&self`,
//! writes `&mut self`, so a caller with several threads keeps the sessions
//! behind a lock.

pub mod entropy;
pub mod hex;
pub mod decimal;
pub mod text;
pub mod secret;
pub mod directory;
pub mod auth;
pub mod session;
pub mod cookie;
pub mod guard;
pub mod reply;
pub mod page;
