//! Configuration data: destination accounts, SMTP listener settings, and the
//! command-line options of the surrounding binary.

use vstd::prelude::*;

verus! {

/// One Telegram destination. Mail whose recipient equals `address` is
/// forwarded to the chat `telegram_chat_id` through the bot identified by
/// `telegram_bot_key`. The account list is loaded once at startup and is
/// read-only afterwards.
#[derive(Clone, Debug)]
pub struct Account {
    pub address: String,
    pub telegram_bot_key: String,
    pub telegram_chat_id: String,
}

/// Settings of one SMTP listener; consumed entirely by the external engine.
#[derive(Clone, Debug)]
pub struct SmtpServer {
    pub enabled: bool,
    pub hostname: String,
    pub address: String,
    pub port: i64,
    pub starttls: bool,
    pub cert_path: String,
    pub key_path: String,
    pub ca_path: String,
}

/// The whole configuration file: listener settings plus destination accounts.
#[derive(Debug)]
pub struct ConfigFile {
    pub smtpservers: Vec<SmtpServer>,
    pub accounts: Vec<Account>,
}

impl ConfigFile {
    /// The startup invariant: at least one destination account. Routing
    /// relies on it; an empty account list is a fatal configuration error.
    pub open spec fn wf(self) -> bool {
        self.accounts@.len() > 0
    }

    /// Startup check for [`ConfigFile::wf`]; the caller must refuse to run
    /// when this returns `false`.
    pub fn has_accounts(&self) -> (r: bool)
        ensures
            r == self.wf(),
    {
        self.accounts.len() > 0
    }
}

/// Command-line options; the surrounding binary parses them and hands them
/// over as plain values.
#[derive(Clone, Debug)]
pub struct Cli {
    pub config: String,
    pub verbose: u8,
    pub daemonize: bool,
}

} // verus!
