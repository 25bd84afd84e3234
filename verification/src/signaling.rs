//! The signaling blobs peers trade, and the mailbox protocol that carries them.

use vstd::prelude::*;

use crate::json::opt_view;
use crate::lab::PeerRole;
use crate::text::{
    debug_quoted, debug_text, decimal, decimal_text, drop_trailing_slashes, same,
    without_trailing_slashes,
};
use crate::wire::IceCandidate;

verus! {

// ----- signals -------------------------------------------------------------------------

/// One signaling blob.
#[derive(Debug, Clone)]
pub enum Signal {
    Offer { sdp: String },
    Answer { sdp: String },
    Candidate { candidate: String, sdp_mid: Option<String>, sdp_mline_index: Option<u16> },
    EndOfCandidates,
}

/// The signal that trickles a candidate.
pub open spec fn trickled(candidate: IceCandidate) -> Signal {
    Signal::Candidate {
        candidate: candidate.candidate,
        sdp_mid: candidate.sdp_mid,
        sdp_mline_index: candidate.sdp_mline_index,
    }
}

/// The signal that trickles a candidate.
pub fn trickle(candidate: IceCandidate) -> (r: Signal)
    ensures
        r == trickled(candidate),
{
    Signal::Candidate {
        candidate: candidate.candidate,
        sdp_mid: candidate.sdp_mid,
        sdp_mline_index: candidate.sdp_mline_index,
    }
}

/// An optional string as failure details show it.
pub open spec fn opt_text_shown(s: Option<Seq<char>>) -> Seq<char> {
    match s {
        Some(s) => "Some("@ + debug_text(s) + ")"@,
        None => "None"@,
    }
}

fn show_opt_text(s: &Option<String>) -> (r: String)
    ensures
        r@ == opt_text_shown(opt_view(*s)),
{
    match s {
        Some(s) => "Some(".to_owned().concat(debug_quoted(s.as_str()).as_str()).concat(")"),
        None => "None".to_owned(),
    }
}

/// An optional index as failure details show it.
pub open spec fn opt_index_shown(n: Option<u16>) -> Seq<char> {
    match n {
        Some(n) => "Some("@ + decimal(n as nat) + ")"@,
        None => "None"@,
    }
}

fn show_opt_index(n: Option<u16>) -> (r: String)
    ensures
        r@ == opt_index_shown(n),
{
    match n {
        Some(n) => "Some(".to_owned().concat(decimal_text(n as u64).as_str()).concat(")"),
        None => "None".to_owned(),
    }
}

/// A signal as failure details show it.
pub open spec fn signal_shown(signal: Signal) -> Seq<char> {
    match signal {
        Signal::Offer { sdp } => "Offer { sdp: "@ + debug_text(sdp@) + " }"@,
        Signal::Answer { sdp } => "Answer { sdp: "@ + debug_text(sdp@) + " }"@,
        Signal::Candidate { candidate, sdp_mid, sdp_mline_index } => "Candidate { candidate: "@
            + debug_text(candidate@) + ", sdp_mid: "@ + opt_text_shown(opt_view(sdp_mid))
            + ", sdp_mline_index: "@ + opt_index_shown(sdp_mline_index) + " }"@,
        Signal::EndOfCandidates => "EndOfCandidates"@,
    }
}

/// Show a signal.
pub fn show_signal(signal: &Signal) -> (r: String)
    ensures
        r@ == signal_shown(*signal),
{
    match signal {
        Signal::Offer { sdp } => "Offer { sdp: ".to_owned().concat(
            debug_quoted(sdp.as_str()).as_str(),
        ).concat(" }"),
        Signal::Answer { sdp } => "Answer { sdp: ".to_owned().concat(
            debug_quoted(sdp.as_str()).as_str(),
        ).concat(" }"),
        Signal::Candidate {
            candidate,
            sdp_mid,
            sdp_mline_index,
        } => "Candidate { candidate: ".to_owned().concat(
            debug_quoted(candidate.as_str()).as_str(),
        ).concat(", sdp_mid: ").concat(show_opt_text(sdp_mid).as_str()).concat(
            ", sdp_mline_index: ",
        ).concat(show_opt_index(*sdp_mline_index).as_str()).concat(" }"),
        Signal::EndOfCandidates => "EndOfCandidates".to_owned(),
    }
}

/// The detail for what came in place of an offer.
pub open spec fn not_an_offer(got: Option<Signal>) -> Seq<char> {
    match got {
        Some(signal) => "expected offer, got Some("@ + signal_shown(signal) + ")"@,
        None => "expected offer, got None"@,
    }
}

/// The detail for what came in place of an offer.
pub fn offer_missing(got: &Option<Signal>) -> (r: String)
    ensures
        r@ == not_an_offer(*got),
{
    match got {
        Some(signal) => "expected offer, got Some(".to_owned().concat(
            show_signal(signal).as_str(),
        ).concat(")"),
        None => "expected offer, got None".to_owned(),
    }
}

// ----- the mailbox protocol ------------------------------------------------------------

/// A client of one signaling room, bound to a role: it publishes to its own mailbox
/// and polls the peer's.
#[derive(Debug)]
pub struct Mailbox {
    base: String,
    room: String,
    role: PeerRole,
    recv_seq: u64,
}

/// What a client has read of which room.
pub struct MailboxView {
    pub base: Seq<char>,
    pub room: Seq<char>,
    pub role: PeerRole,
    pub recv_seq: nat,
}

impl MailboxView {
    /// The URL of a role's mailbox.
    pub open spec fn mailbox(self, role: PeerRole) -> Seq<char> {
        self.base + "/rooms/"@ + self.room + "/"@ + role.named()
    }

    /// The URL the next signal is polled from.
    pub open spec fn next_at(self) -> Seq<char> {
        self.mailbox(self.role.across()) + "?seq="@ + decimal(self.recv_seq) + "&wait=10000"@
    }
}

impl View for Mailbox {
    type V = MailboxView;

    closed spec fn view(&self) -> MailboxView {
        MailboxView {
            base: self.base@,
            room: self.room@,
            role: self.role,
            recv_seq: self.recv_seq as nat,
        }
    }
}

/// What the reply to a poll comes to.
#[derive(Debug, Clone, Copy, PartialEq, Eq, Structural)]
pub enum Polled {
    /// Its body is the next signal.
    Signal,
    /// The peer's mailbox is done.
    Done,
    /// Nothing yet; poll again.
    Again,
    /// The server did not serve the poll.
    Refused(u16),
}

/// What a status in reply to a poll comes to.
pub open spec fn polled(status: u16) -> Polled {
    if status == 200 {
        Polled::Signal
    } else if status == 204 {
        Polled::Done
    } else if status == 304 {
        Polled::Again
    } else {
        Polled::Refused(status)
    }
}

impl Mailbox {
    /// Enter a room. Any name but `offerer` is the answerer's.
    pub fn new(server: &str, room: &str, role: &str) -> (r: Mailbox)
        ensures
            r@ == (MailboxView {
                base: without_trailing_slashes(server@),
                room: room@,
                role: if role@ == "offerer"@ {
                    PeerRole::Offerer
                } else {
                    PeerRole::Answerer
                },
                recv_seq: 0,
            }),
    {
        Mailbox {
            base: drop_trailing_slashes(server),
            room: room.to_owned(),
            role: if same(role, "offerer") {
                PeerRole::Offerer
            } else {
                PeerRole::Answerer
            },
            recv_seq: 0,
        }
    }

    fn mailbox_url(&self, role: PeerRole) -> (r: String)
        ensures
            r@ == self@.mailbox(role),
    {
        self.base.as_str().to_owned().concat("/rooms/").concat(self.room.as_str()).concat(
            "/",
        ).concat(role.name())
    }

    /// The URL a signal is posted to.
    pub fn send_url(&self) -> (r: String)
        ensures
            r@ == self@.mailbox(self@.role),
    {
        self.mailbox_url(self.role)
    }

    /// The URL the end of this side's signals is posted to.
    pub fn done_url(&self) -> (r: String)
        ensures
            r@ == self@.mailbox(self@.role) + "/done"@,
    {
        self.mailbox_url(self.role).concat("/done")
    }

    /// The URL the peer's next signal is polled from.
    pub fn recv_url(&self) -> (r: String)
        ensures
            r@ == self@.next_at(),
    {
        self.mailbox_url(self.role.other()).concat("?seq=").concat(
            decimal_text(self.recv_seq).as_str(),
        ).concat("&wait=10000")
    }

    /// Take the status of a poll's reply. A signal moves on to the next one.
    pub fn recv_status(&mut self, status: u16) -> (r: Polled)
        requires
            old(self)@.recv_seq < u64::MAX,
        ensures
            r == polled(status),
            final(self)@ == if status == 200 {
                MailboxView { recv_seq: old(self)@.recv_seq + 1, ..old(self)@ }
            } else {
                old(self)@
            },
    {
        if status == 200 {
            self.recv_seq += 1;
            Polled::Signal
        } else if status == 204 {
            Polled::Done
        } else if status == 304 {
            Polled::Again
        } else {
            Polled::Refused(status)
        }
    }
}

/// The error for a poll that was not served.
pub fn recv_refused(status: u16) -> (r: String)
    ensures
        r@ == "mailbox recv: HTTP "@ + decimal(status as nat),
{
    "mailbox recv: HTTP ".to_owned().concat(decimal_text(status as u64).as_str())
}

/// Whether a post was taken: its status is a success.
pub open spec fn accepted(status: u16) -> bool {
    200 <= status < 300
}

/// The verdict on a post: taken, or the error that names its status as the server
/// wrote it.
pub fn posted(what: &str, status: u16, status_text: &str) -> (r: Result<(), String>)
    ensures
        r is Ok <==> accepted(status),
        r matches Err(error) ==> error@ == "mailbox "@ + what@ + ": HTTP "@ + status_text@,
{
    if 200 <= status && status < 300 {
        Ok(())
    } else {
        Err("mailbox ".to_owned().concat(what).concat(": HTTP ").concat(status_text))
    }
}

/// The two halves of a room read each other's mailbox: what one publishes to is what
/// the other polls.
pub proof fn mailboxes_meet(ours: MailboxView, theirs: MailboxView)
    requires
        ours.base == theirs.base,
        ours.room == theirs.room,
        theirs.role == ours.role.across(),
    ensures
        theirs.next_at() == ours.mailbox(ours.role) + "?seq="@ + decimal(theirs.recv_seq)
            + "&wait=10000"@,
        ours.next_at() == theirs.mailbox(theirs.role) + "?seq="@ + decimal(ours.recv_seq)
            + "&wait=10000"@,
{
    assert(ours.role.across().across() == ours.role);
}

/// The replies to a poll are told apart by their status: one is a signal, one the end of the
/// peer's mailbox, one the request to poll again, and every other is a refusal that names it.
pub proof fn polls_are_told_apart(status: u16)
    ensures
        polled(status) is Signal <==> status == 200,
        polled(status) is Done <==> status == 204,
        polled(status) is Again <==> status == 304,
        polled(status) matches Polled::Refused(named) ==> named == status,
        accepted(status) <==> status / 100 == 2,
{
}

/// A client polls the other role's mailbox and publishes to its own, in its own room.
pub proof fn client_polls_the_other_mailbox(client: MailboxView)
    ensures
        client.next_at() == client.base + "/rooms/"@ + client.room + "/"@ + (if client.role
            is Offerer {
            "answerer"@
        } else {
            "offerer"@
        }) + "?seq="@ + decimal(client.recv_seq) + "&wait=10000"@,
        client.mailbox(client.role) == client.base + "/rooms/"@ + client.room + "/"@ + (
        if client.role is Offerer {
            "offerer"@
        } else {
            "answerer"@
        }),
{
}

} // verus!
