//! The fixed configuration record consumed by the watch/forward core, and the
//! function that assembles it from raw option values.

use vstd::prelude::*;

verus! {

/// Immutable configuration: account credentials, the comma-separated recipient
/// list, the watched folder name, and the two optional filter patterns (an
/// empty pattern means "match everything").
pub struct Args {
    /// Account that receives the mail to be relayed.
    pub username: String,
    /// Password or access key of that account.
    pub password: String,
    /// Comma-separated list of destination addresses.
    pub to: String,
    /// Folder watched for new mail.
    pub folder: String,
    /// Pattern the sender header must contain; empty matches everything.
    pub sender: String,
    /// Pattern the subject header must contain; empty matches everything.
    pub subject: String,
}

/// Assembles the configuration from the raw option values, filling in the
/// defaults for the options that were not given: the watched folder defaults
/// to "INBOX", the two patterns default to empty (match everything).
pub fn parse(
    username: String,
    password: String,
    to: String,
    folder: Option<String>,
    sender: Option<String>,
    subject: Option<String>,
) -> (args: Args)
    ensures
        args.username@ == username@,
        args.password@ == password@,
        args.to@ == to@,
        args.folder@ == (match folder {
            Some(f) => f@,
            None => "INBOX"@,
        }),
        args.sender@ == (match sender {
            Some(s) => s@,
            None => Seq::<char>::empty(),
        }),
        args.subject@ == (match subject {
            Some(s) => s@,
            None => Seq::<char>::empty(),
        }),
{
    let folder = match folder {
        Some(f) => f,
        None => String::from_str("INBOX"),
    };
    let sender = match sender {
        Some(s) => s,
        None => String::new(),
    };
    let subject = match subject {
        Some(s) => s,
        None => String::new(),
    };
    Args { username, password, to, folder, sender, subject }
}

} // verus!
