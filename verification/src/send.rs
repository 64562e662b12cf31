//! The forward path: splitting the recipient list, building one outbound
//! message per recipient, and the batch that keeps recipients isolated from
//! one another's send failures.

use vstd::prelude::*;
use crate::headers::scan_to;
use crate::headers::lemma_scan_to;
use crate::watch::MailJob;

verus! {

/// The pieces of `s` between commas, in order; an empty string is one empty
/// piece, and every comma separates two pieces.
pub open spec fn pieces_from(s: Seq<char>, i: int) -> Seq<Seq<char>>
    decreases s.len() - i + 1,
    via pieces_from_decreases
{
    if i < 0 || i > s.len() {
        Seq::empty()
    } else {
        let e = scan_to(s, i, ',');
        if e >= s.len() {
            seq![s.subrange(i, s.len() as int)]
        } else {
            seq![s.subrange(i, e)].add(pieces_from(s, e + 1))
        }
    }
}

#[via_fn]
proof fn pieces_from_decreases(s: Seq<char>, i: int) {
    if 0 <= i <= s.len() {
        lemma_scan_to(s, i, ',');
    }
}

/// The comma-separated pieces of a whole recipient list.
pub open spec fn split_commas(s: Seq<char>) -> Seq<Seq<char>> {
    pieces_from(s, 0)
}

/// The views of a vector of strings.
pub open spec fn str_views(v: Seq<String>) -> Seq<Seq<char>> {
    v.map_values(|s: String| s@)
}

/// Splits the configured comma-delimited recipient list into the individual
/// destination addresses, in order.
pub fn split_recipients(to: &str) -> (r: Vec<String>)
    ensures
        str_views(r@) == split_commas(to@),
        r@.len() >= 1,
{
    let ghost s = to@;
    let len: usize = to.unicode_len();
    let mut r: Vec<String> = Vec::new();
    let mut i: usize = 0;
    let mut done: bool = false;
    while !done
        invariant
            len == s.len(),
            s == to@,
            0 <= i <= len,
            !done ==> split_commas(s) =~= str_views(r@) + pieces_from(s, i as int),
            done ==> split_commas(s) =~= str_views(r@),
        decreases len - i + (if done {
            0int
        } else {
            1int
        }),
    {
        let mut j: usize = i;
        while j < len && to.get_char(j) != ','
            invariant
                len == s.len(),
                s == to@,
                i <= j <= len,
                scan_to(s, i as int, ',') == scan_to(s, j as int, ','),
            decreases len - j,
        {
            j = j + 1;
        }
        proof {
            lemma_scan_to(s, j as int, ',');
            assert(scan_to(s, i as int, ',') == j as int);
        }
        let piece = String::from_str(to.substring_char(i, j));
        r.push(piece);
        let ghost i_prev: int = i as int;
        if j < len {
            i = j + 1;
        } else {
            done = true;
        }
        proof {
            if j < len {
                assert(pieces_from(s, i_prev) =~= seq![s.subrange(i_prev, j as int)].add(
                    pieces_from(s, i as int),
                ));
            } else {
                assert(pieces_from(s, i_prev) =~= seq![s.subrange(i_prev, len as int)]);
            }
            assert(str_views(r@) =~= str_views(r@.drop_last()).push(r@.last()@));
        }
    }
    r
}

/// How many of the recorded outcomes are successes.
pub open spec fn count_true(s: Seq<bool>) -> int
    decreases s.len(),
{
    if s.len() == 0 {
        0
    } else {
        count_true(s.drop_last()) + (if s.last() {
            1int
        } else {
            0int
        })
    }
}

/// The tally never leaves the range of the outcomes counted.
pub proof fn lemma_count_true_bounds(s: Seq<bool>)
    ensures
        0 <= count_true(s) <= s.len(),
    decreases s.len(),
{
    if s.len() > 0 {
        lemma_count_true_bounds(s.drop_last());
    }
}

/// One batch of forward attempts: each recipient of the list is attempted
/// exactly once, in order, and each attempt's outcome is recorded on its own.
/// A failure for one recipient neither stops the remaining attempts nor
/// retries an already-recorded one.
pub struct SendBatch {
    /// The destination addresses, in the order they are attempted.
    pub recipients: Vec<String>,
    /// One outcome per attempt made so far: `true` for a successful send.
    pub results: Vec<bool>,
}

impl SendBatch {
    /// Whether every recipient has been attempted.
    pub open spec fn spec_done(self) -> bool {
        self.results@.len() == self.recipients@.len()
    }

    /// A fresh batch over the given recipients, none attempted yet.
    pub fn new(recipients: Vec<String>) -> (b: SendBatch)
        ensures
            b.recipients == recipients,
            b.results@ == Seq::<bool>::empty(),
    {
        SendBatch { recipients, results: Vec::new() }
    }

    /// The next recipient to attempt: the one after the attempts already
    /// recorded, or none when every recipient has had its attempt.
    pub fn current(&self) -> (r: Option<&String>)
        ensures
            match r {
                Some(t) => self.results@.len() < self.recipients@.len() && t
                    == &self.recipients@[self.results@.len() as int],
                None => self.results@.len() >= self.recipients@.len(),
            },
    {
        if self.results.len() < self.recipients.len() {
            Some(&self.recipients[self.results.len()])
        } else {
            None
        }
    }

    /// Records the outcome of the attempt to the current recipient; nothing
    /// already recorded changes, so no earlier attempt is retried.
    pub fn record(&mut self, ok: bool)
        requires
            old(self).results@.len() < old(self).recipients@.len(),
        ensures
            final(self).recipients == old(self).recipients,
            final(self).results@ == old(self).results@.push(ok),
    {
        self.results.push(ok);
    }

    /// How many attempts succeeded so far.
    pub fn successes(&self) -> (n: usize)
        ensures
            n == count_true(self.results@),
    {
        let mut n: usize = 0;
        let mut k: usize = 0;
        while k < self.results.len()
            invariant
                0 <= k <= self.results@.len(),
                n == count_true(self.results@.take(k as int)),
                n <= k,
            decreases self.results@.len() - k,
    {
            proof {
                assert(self.results@.take(k + 1 as int).drop_last() =~= self.results@.take(
                    k as int,
                ));
                assert(self.results@.take(k + 1 as int).last() == self.results@[k as int]);
            }
            if self.results[k] {
                n = n + 1;
            }
            k = k + 1;
        }
        proof {
            assert(self.results@.take(self.results@.len() as int) =~= self.results@);
        }
        n
    }

    /// How many attempts failed so far.
    pub fn failures(&self) -> (n: usize)
        ensures
            n == self.results@.len() - count_true(self.results@),
    {
        proof {
            lemma_count_true_bounds(self.results@);
        }
        self.results.len() - self.successes()
    }
}

#[verifier::external_type_specification]
#[verifier::external_body]
pub struct ExMailbox(lettre::message::Mailbox);

#[verifier::external_type_specification]
#[verifier::external_body]
pub struct ExContentType(lettre::message::header::ContentType);

#[verifier::external_type_specification]
#[verifier::external_body]
pub struct ExBody(lettre::message::Body);

#[verifier::external_type_specification]
#[verifier::external_body]
pub struct ExMessage(lettre::Message);

/// Whether a string parses as a single mail address with optional display
/// name; decided by the string alone.
pub uninterp spec fn mailbox_ok(s: Seq<char>) -> bool;

/// Whether a string parses as a MIME content type; decided by the string
/// alone.
pub uninterp spec fn content_type_ok(s: Seq<char>) -> bool;

/// The bytes an encoded body carries.
pub uninterp spec fn body_bytes(b: lettre::message::Body) -> Seq<u8>;

/// The payload a built message transmits as its body.
pub uninterp spec fn msg_payload(m: lettre::Message) -> Seq<u8>;

/// Relies on `<lettre::message::Mailbox as FromStr>::from_str`: whether an
/// address string parses depends on the string alone.
#[verifier::external_body]
fn parse_mailbox(s: &str) -> (r: Option<lettre::message::Mailbox>)
    ensures
        r is Some <==> mailbox_ok(s@),
{
    s.parse::<lettre::message::Mailbox>().ok()
}

/// Relies on `lettre::message::header::ContentType::parse`: whether a content
/// type string parses depends on the string alone.
#[verifier::external_body]
fn parse_content_type(s: &str) -> (r: Option<lettre::message::header::ContentType>)
    ensures
        r is Some <==> content_type_ok(s@),
{
    lettre::message::header::ContentType::parse(s).ok()
}

/// Relies on `lettre::message::Body::new_with_encoding` with the `Binary`
/// transfer encoding: it accepts any byte content and stores the bytes
/// verbatim, without re-encoding. (The fallback arm cannot be reached for the
/// `Binary` encoding; it too keeps the bytes verbatim.)
#[verifier::external_body]
fn binary_body(bytes: Vec<u8>) -> (r: lettre::message::Body)
    ensures
        body_bytes(r) == bytes@,
{
    let enc = lettre::message::header::ContentTransferEncoding::Binary;
    match lettre::message::Body::new_with_encoding(bytes, enc) {
        Ok(b) => b,
        Err(buf) => lettre::message::Body::dangerous_pre_encoded(buf, enc),
    }
}

/// Relies on `lettre::Message::builder` and its `from`, `to`, `subject`,
/// `header` and `body` methods: with exactly one originator and one recipient
/// mailbox set, building cannot fail — the only build errors are a missing or
/// plural originator and an empty recipient list — and a pre-encoded body is
/// taken over as the message payload unchanged.
#[verifier::external_body]
fn build_message(
    from: lettre::message::Mailbox,
    to: lettre::message::Mailbox,
    subject: &str,
    content_type: lettre::message::header::ContentType,
    body: lettre::message::Body,
) -> (r: Option<lettre::Message>)
    ensures
        r is Some,
        msg_payload(r->0) == body_bytes(body),
{
    lettre::Message::builder().from(from).to(to).subject(subject).header(content_type).body(
        body,
    ).ok()
}

/// A copy of the body bytes for one recipient's message.
fn copy_bytes(src: &Vec<u8>) -> (r: Vec<u8>)
    ensures
        r@ == src@,
{
    let mut r: Vec<u8> = Vec::new();
    let mut k: usize = 0;
    while k < src.len()
        invariant
            0 <= k <= src@.len(),
            r@ == src@.take(k as int),
        decreases src@.len() - k,
    {
        r.push(src[k]);
        proof {
            assert(src@.take(k + 1 as int) =~= src@.take(k as int).push(src@[k as int]));
        }
        k = k + 1;
    }
    proof {
        assert(src@.take(src@.len() as int) =~= src@);
    }
    r
}

/// Why one outbound message could not be built.
pub enum BuildError {
    /// The candidate's `From` header is not a parseable address.
    BadFrom,
    /// The recipient is not a parseable address.
    BadTo,
    /// The candidate's `Content-Type` header is not a parseable content type.
    BadContentType,
}

/// Builds the outbound copy of an accepted candidate for one recipient: the
/// original sender is kept verbatim as the originator, and the body bytes are
/// carried into the message payload unchanged — byte fidelity holds for
/// arbitrary, also non-text, content. Building succeeds exactly when the
/// sender, the recipient and the content type all parse; each failure names
/// the first part that did not.
pub fn build_forward(job: &MailJob, to: &str) -> (r: Result<lettre::Message, BuildError>)
    ensures
        r matches Err(e) && e is BadFrom <==> !mailbox_ok(job.from@),
        r matches Err(e) && e is BadTo <==> mailbox_ok(job.from@) && !mailbox_ok(to@),
        r matches Err(e) && e is BadContentType <==> mailbox_ok(job.from@) && mailbox_ok(to@)
            && !content_type_ok(job.content_type@),
        r is Ok <==> mailbox_ok(job.from@) && mailbox_ok(to@) && content_type_ok(
            job.content_type@,
        ),
        r matches Ok(m) ==> msg_payload(m) == job.body@,
{
    let from = match parse_mailbox(job.from.as_str()) {
        Some(m) => m,
        None => {
            return Err(BuildError::BadFrom);
        },
    };
    let to_mailbox = match parse_mailbox(to) {
        Some(m) => m,
        None => {
            return Err(BuildError::BadTo);
        },
    };
    let content_type = match parse_content_type(job.content_type.as_str()) {
        Some(c) => c,
        None => {
            return Err(BuildError::BadContentType);
        },
    };
    let body = binary_body(copy_bytes(&job.body));
    let built = build_message(from, to_mailbox, job.subject.as_str(), content_type, body);
    Ok(built.unwrap())
}

/// A finished batch recorded, in order, exactly the outcomes that were handed
/// to it, one per attempt.
pub open spec fn spec_run_batch(results: Seq<bool>, outcomes: Seq<bool>) -> Seq<bool>
    decreases outcomes.len(),
{
    if outcomes.len() == 0 {
        results
    } else {
        spec_run_batch(results.push(outcomes[0]), outcomes.drop_first())
    }
}

/// Recording appends and never rewrites.
pub proof fn lemma_run_batch_appends(results: Seq<bool>, outcomes: Seq<bool>)
    ensures
        spec_run_batch(results, outcomes) == results + outcomes,
    decreases outcomes.len(),
{
    if outcomes.len() == 0 {
        assert(results + outcomes =~= results);
    } else {
        lemma_run_batch_appends(results.push(outcomes[0]), outcomes.drop_first());
        assert(results.push(outcomes[0]) + outcomes.drop_first() =~= results + outcomes);
    }
}

/// Per-recipient isolation: a batch driven with a sequence of attempt
/// outcomes ends with exactly that sequence as its record — the attempt at
/// position `k` went to the recipient at position `k`, reported its own
/// outcome there, and no outcome hides, stops or retries another.
pub proof fn lemma_per_recipient_isolation(outcomes: Seq<bool>)
    ensures
        spec_run_batch(Seq::<bool>::empty(), outcomes) == outcomes,
{
    lemma_run_batch_appends(Seq::<bool>::empty(), outcomes);
    assert(Seq::<bool>::empty() + outcomes =~= outcomes);
}

} // verus!
