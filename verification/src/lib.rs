//! Core of an inbound-mail-to-Telegram bridge.
//!
//! Each SMTP session accumulates its data chunks into one MIME document
//! ([`session::MyHandler`]); a completed document is normalized into a
//! [`mime::Notification`] (headers, plain-text body, flattened attachments),
//! routed to a configured [`config::Account`] by recipient address
//! ([`router::find_account`]), and rendered into the payloads that the
//! Telegram Bot API expects ([`dispatch`]). The SMTP engine and the HTTP
//! transport live outside this crate and only exchange plain values with it.

pub mod config;
pub mod dispatch;
pub mod mime;
pub mod parse;
pub mod router;
pub mod session;

pub use config::{Account, Cli, ConfigFile, SmtpServer};
pub use mime::{AttachmentNode, MimeDoc, Notification};
pub use router::find_account;
pub use session::MyHandler;
