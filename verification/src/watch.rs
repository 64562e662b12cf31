//! The watch/forward loop's state and decisions: connection state transitions
//! and the judgement of one fetched candidate message.
//!
//! The surrounding binary performs the connects, waits, fetches and sends;
//! every decision — when to reconnect, whether a count means a new message,
//! whether a candidate is forwarded and to whom — is taken here.

use vstd::prelude::*;
use crate::cli::Args;
use crate::filter::{Filter, spec_sender_matches, spec_subject_matches, regex_ok};
use crate::headers::{pair_views, spec_lookup, header_value};
use crate::idle::ChangeOutcome;

verus! {

/// Everything a forward attempt needs once a candidate is accepted: the
/// original sender (the forward keeps it verbatim), subject and content type,
/// and the raw body bytes.
pub struct MailJob {
    /// Value of the candidate's `From` header, preserved verbatim.
    pub from: String,
    /// Value of the candidate's `Subject` header.
    pub subject: String,
    /// Value of the candidate's `Content-Type` header.
    pub content_type: String,
    /// The raw bytes of the message text part, forwarded unchanged.
    pub body: Vec<u8>,
}

/// The judgement of one fetched candidate message.
pub enum Verdict {
    /// The subject filter rejected it; holds the subject value seen (empty
    /// when the header was absent), for the rejection event.
    RejectedSubject(String),
    /// The sender filter rejected it; holds the sender value seen.
    RejectedSender(String),
    /// The filters passed but the `From` header is missing: the forward
    /// attempt is abandoned.
    MissingFrom,
    /// The filters passed but the `Subject` header is missing.
    MissingSubject,
    /// The filters passed but the `Content-Type` header is missing.
    MissingContentType,
    /// The candidate is forwarded.
    Forward(MailJob),
}

/// The value under `name`, or empty when the header is absent; what a
/// rejection event reports.
pub open spec fn lookup_or_empty(hs: Seq<(Seq<char>, Seq<char>)>, name: Seq<char>) -> Seq<char> {
    match spec_lookup(hs, name) {
        Some(v) => v,
        None => Seq::empty(),
    }
}

/// Judges one fetched candidate: the subject filter is checked first, then
/// the sender filter; a rejection discards the candidate with no send
/// attempt. Once both pass, the three required headers are extracted — any
/// of them missing abandons this attempt alone — and the accepted job carries
/// the body bytes unchanged.
pub fn evaluate_candidate(
    subject_filter: &Filter,
    sender_filter: &Filter,
    headers: &Vec<(String, String)>,
    body: Vec<u8>,
) -> (v: Verdict)
    ensures
        ({
            let hs = pair_views(headers@);
            let sm = spec_subject_matches(*subject_filter, hs);
            let fm = spec_sender_matches(*sender_filter, hs);
            &&& (!sm ==> (v matches Verdict::RejectedSubject(s) && s@ == lookup_or_empty(
                hs,
                "Subject"@,
            )))
            &&& (sm && !fm ==> (v matches Verdict::RejectedSender(s) && s@ == lookup_or_empty(
                hs,
                "From"@,
            )))
            &&& (sm && fm && spec_lookup(hs, "From"@) is None ==> v is MissingFrom)
            &&& (sm && fm && spec_lookup(hs, "From"@) is Some && spec_lookup(hs, "Subject"@)
                is None ==> v is MissingSubject)
            &&& (sm && fm && spec_lookup(hs, "From"@) is Some && spec_lookup(hs, "Subject"@)
                is Some && spec_lookup(hs, "Content-Type"@) is None ==> v is MissingContentType)
            &&& (sm && fm && spec_lookup(hs, "From"@) is Some && spec_lookup(hs, "Subject"@)
                is Some && spec_lookup(hs, "Content-Type"@) is Some ==> (
            v matches Verdict::Forward(j) && j.from@ == spec_lookup(hs, "From"@)->0 && j.subject@
                == spec_lookup(hs, "Subject"@)->0 && j.content_type@ == spec_lookup(
                hs,
                "Content-Type"@,
            )->0 && j.body@ == body@))
        }),
{
    let subject_value = header_value(headers, "Subject");
    if !subject_filter.matches(subject_value) {
        let seen = match subject_value {
            Some(s) => s.clone(),
            None => String::new(),
        };
        return Verdict::RejectedSubject(seen);
    }
    let from_value = header_value(headers, "From");
    if !sender_filter.matches(from_value) {
        let seen = match from_value {
            Some(s) => s.clone(),
            None => String::new(),
        };
        return Verdict::RejectedSender(seen);
    }
    let from = match header_value(headers, "From") {
        Some(s) => s.clone(),
        None => {
            return Verdict::MissingFrom;
        },
    };
    let subject = match header_value(headers, "Subject") {
        Some(s) => s.clone(),
        None => {
            return Verdict::MissingSubject;
        },
    };
    let content_type = match header_value(headers, "Content-Type") {
        Some(s) => s.clone(),
        None => {
            return Verdict::MissingContentType;
        },
    };
    Verdict::Forward(MailJob { from, subject, content_type, body })
}

/// The watch/forward loop's own state: the configuration, the two compiled
/// filters, the fixed endpoints, and the connection state — whether a usable
/// mailbox session exists, and the baseline message count of the watched
/// folder at the last successful sync point.
pub struct App {
    /// The configuration record.
    pub args: Args,
    /// Filter on the `From` header, compiled from the configured pattern.
    pub sender_filter: Filter,
    /// Filter on the `Subject` header, compiled from the configured pattern.
    pub subject_filter: Filter,
    /// Host of the watched message store.
    pub host_imap: String,
    /// Host of the outbound relay.
    pub host_smtp: String,
    /// Port of the watched message store.
    pub port: u16,
    /// Whether a usable mailbox session currently exists.
    pub connected: bool,
    /// The message count observed at the last successful sync point: the
    /// baseline against which "did the count increase" is judged.
    pub exists: u32,
}

/// A successful connect and folder select: the loop is connected and the
/// baseline is the folder's live message count.
pub open spec fn spec_on_connected(a: App, count: u32) -> App {
    App { connected: true, exists: count, ..a }
}

/// A failed connect cycle: the loop stays (or becomes) disconnected; the old
/// baseline is kept but only a fresh connect can make it current again.
pub open spec fn spec_on_connect_failed(a: App) -> App {
    App { connected: false, ..a }
}

/// What a wait outcome does to the loop: a count strictly above the baseline
/// moves the baseline up and triggers a fetch at that position; a count at or
/// below it triggers nothing; a session end disconnects; no change waits on.
pub open spec fn spec_on_wait(a: App, oc: ChangeOutcome) -> (App, Option<u32>) {
    match oc {
        ChangeOutcome::MailboxChanged(c) => if c > a.exists {
            (App { exists: c, ..a }, Some(c))
        } else {
            (a, None)
        },
        ChangeOutcome::SessionEnded => (App { connected: false, ..a }, None),
        ChangeOutcome::NoChange => (a, None),
    }
}

/// An unexpected error while nominally connected: the loop conservatively
/// treats it as a disconnect, forcing a fresh reconnect.
pub open spec fn spec_on_cycle_error(a: App) -> App {
    App { connected: false, ..a }
}

impl App {
    /// Builds the loop state from a configuration: disconnected, baseline
    /// zero, the fixed endpoints, and the two filters compiled from the
    /// configured patterns (empty means match-all, invalid means match-none).
    pub fn parse(args: Args) -> (app: App)
        ensures
            app.args == args,
            !app.connected,
            app.exists == 0,
            app.port == 993,
            app.host_imap@ == "imap.gmail.com"@,
            app.host_smtp@ == "smtp.gmail.com"@,
            args.sender@.len() == 0 ==> app.sender_filter is MatchAll,
            args.sender@.len() > 0 && regex_ok(args.sender@) ==> (
            app.sender_filter matches Filter::Pattern(p) && p@ == args.sender@),
            args.sender@.len() > 0 && !regex_ok(args.sender@) ==> app.sender_filter is MatchNone,
            args.subject@.len() == 0 ==> app.subject_filter is MatchAll,
            args.subject@.len() > 0 && regex_ok(args.subject@) ==> (
            app.subject_filter matches Filter::Pattern(p) && p@ == args.subject@),
            args.subject@.len() > 0 && !regex_ok(args.subject@) ==> app.subject_filter
                is MatchNone,
    {
        let sender_filter = Filter::new(args.sender.clone());
        let subject_filter = Filter::new(args.subject.clone());
        App {
            sender_filter,
            subject_filter,
            host_imap: String::from_str("imap.gmail.com"),
            host_smtp: String::from_str("smtp.gmail.com"),
            port: 993,
            connected: false,
            exists: 0,
            args,
        }
    }

    /// Records a successful connect and folder select, re-initializing the
    /// baseline from the folder's live message count.
    pub fn on_connected(&mut self, count: u32)
        ensures
            *final(self) == spec_on_connected(*old(self), count),
    {
        self.connected = true;
        self.exists = count;
    }

    /// Records a connect cycle whose retry budget ran out.
    pub fn on_connect_failed(&mut self)
        ensures
            *final(self) == spec_on_connect_failed(*old(self)),
    {
        self.connected = false;
    }

    /// Judges a wait outcome. Returns the sequence position to fetch, if the
    /// outcome means a new message: only a count strictly above the baseline
    /// does, and it becomes the new baseline.
    pub fn on_wait(&mut self, oc: &ChangeOutcome) -> (fetch: Option<u32>)
        ensures
            *final(self) == spec_on_wait(*old(self), *oc).0,
            fetch == spec_on_wait(*old(self), *oc).1,
    {
        match oc {
            ChangeOutcome::MailboxChanged(c) => {
                if *c > self.exists {
                    self.exists = *c;
                    Some(*c)
                } else {
                    None
                }
            },
            ChangeOutcome::SessionEnded => {
                self.connected = false;
                None
            },
            ChangeOutcome::NoChange => None,
        }
    }

    /// Records an unexpected error during fetch, parse or send while
    /// nominally connected: conservative recovery, reconnect from scratch.
    pub fn on_cycle_error(&mut self)
        ensures
            *final(self) == spec_on_cycle_error(*old(self)),
    {
        self.connected = false;
    }
}

/// The retry discipline used around both the connect and the send: a fixed
/// delay between attempts and a finite attempt cap. Deliberately not an
/// exponential backoff: the outer watch loop itself is a further retry
/// envelope.
pub struct RetryPolicy {
    /// Milliseconds between two attempts.
    pub delay_ms: u64,
    /// How many attempts are made at most.
    pub max_tries: u32,
}

impl RetryPolicy {
    /// The fixed policy of this relay: an attempt every thirty seconds, at
    /// most twenty of them, before the cycle is given up.
    pub fn fixed() -> (p: RetryPolicy)
        ensures
            p.delay_ms == 30000,
            p.max_tries == 20,
    {
        RetryPolicy { delay_ms: 30000, max_tries: 20 }
    }

    /// Whether one more attempt is within the budget after `attempts_made`
    /// attempts.
    pub fn allows(&self, attempts_made: u32) -> (r: bool)
        ensures
            r == (attempts_made < self.max_tries),
    {
        attempts_made < self.max_tries
    }
}

/// Reconnect idempotence: a session end disconnects the loop and triggers no
/// fetch; a following successful reconnect makes the baseline the store's
/// live count at that time, so the message that rode out with the old session
/// is never replayed, and the configuration is untouched throughout.
pub proof fn lemma_reconnect_idempotence(a: App, live: u32)
    ensures
        ({
            let (a1, fetch1) = spec_on_wait(a, ChangeOutcome::SessionEnded);
            let a2 = spec_on_connected(a1, live);
            &&& !a1.connected
            &&& fetch1 is None
            &&& a2.connected
            &&& a2.exists == live
            &&& a2.args == a.args
            &&& a2.sender_filter == a.sender_filter
            &&& a2.subject_filter == a.subject_filter
        }),
{
}

} // verus!
