//! The connection handler's duplex pump, as a verified state machine. A
//! connection that survives the handshake is attached (subscription,
//! directory entry, welcome line); after that, every event — an inbound
//! client frame or a bus delivery — is turned into exactly one step:
//! publish a relay line, write a sanitized line out, ignore, or close.

use vstd::prelude::*;
use crate::bus::bus_send;
use crate::directory::PeerDirectory;
use crate::sanitize::sanitize;
use crate::sanitize::spec_sanitize;

verus! {

/// The welcome line sent once, directly to a newly identified peer (never
/// on the bus, so other peers never see it).
pub open spec fn spec_welcome(id: Seq<char>) -> Seq<char> {
    "Welcome, "@ + id + "!"@
}

/// The relay line published for a client text: the sender's identity, a
/// separator, and the sanitized text.
pub open spec fn spec_relay_line(id: Seq<char>, text: Seq<char>) -> Seq<char> {
    id + ": "@ + spec_sanitize(text)
}

/// Builds the one-time welcome message for a freshly identified peer.
pub fn welcome_line(identity: &str) -> (r: String)
    ensures
        r@ == spec_welcome(identity@),
{
    let mut out = String::from_str("Welcome, ");
    out.append(identity);
    out.append("!");
    out
}

/// Builds the line relayed for a client text: sanitize the text, prefix
/// the sender's identity.
pub fn relay_line(identity: &str, text: &str) -> (r: String)
    ensures
        r@ == spec_relay_line(identity@, text@),
{
    let clean = sanitize(text);
    let mut out = String::new();
    out.append(identity);
    out.append(": ");
    out.append(clean.as_str());
    out
}

/// One event the duplex pump reacts to, whichever source it came from.
pub enum PumpEvent {
    /// A text frame arrived from the client.
    ClientText(String),
    /// A non-text frame arrived from the client (binary, ping, pong):
    /// accepted, never relayed.
    ClientOther,
    /// The client stream ended, or reading it failed unrecoverably.
    ClientClosed,
    /// The bus delivered a message on this connection's subscription.
    BusMessage(String),
    /// This subscriber fell behind and the bus dropped its oldest pending
    /// messages; receiving simply continues.
    BusLagged,
    /// Writing to the client failed: the peer is gone.
    WriteFailed,
}

/// What one pump step decided.
pub enum PumpStep {
    /// A relay line was published to the bus (this very line).
    Published(String),
    /// This line is to be written out to the client.
    Deliver(String),
    /// Nothing to do; keep pumping.
    Ignore,
    /// The connection is over: unregister the identity, drop the
    /// subscription, release the socket.
    Close,
}

/// Whether an event ends the connection.
pub open spec fn closes(ev: PumpEvent) -> bool {
    ev is ClientClosed || ev is WriteFailed
}

/// The line written to the client for an event, if any: a bus delivery,
/// sanitized once more on the way out.
pub open spec fn spec_delivery(ev: PumpEvent) -> Option<Seq<char>> {
    match ev {
        PumpEvent::BusMessage(m) => Some(spec_sanitize(m@)),
        _ => None,
    }
}

/// The line published to the bus for an event, if any: a client text,
/// sanitized and prefixed with the sender's identity.
pub open spec fn spec_publication(id: Seq<char>, ev: PumpEvent) -> Option<Seq<char>> {
    match ev {
        PumpEvent::ClientText(t) => Some(spec_relay_line(id, t@)),
        _ => None,
    }
}

/// Runs one step of the duplex pump for the connection with this identity:
/// a client text is sanitized and published to the bus; a bus delivery is
/// sanitized and handed back to be written out; closing events close; all
/// else is ignored. Publishing never blocks and a publish without
/// listeners is a valid no-op, so the step never fails.
pub fn pump_step(
    tx: &tokio::sync::broadcast::Sender<String>,
    identity: &str,
    ev: PumpEvent,
) -> (r: PumpStep)
    ensures
        r is Published <==> ev is ClientText,
        (r matches PumpStep::Published(line) ==> line@ == spec_publication(identity@, ev)->Some_0),
        r is Deliver <==> ev is BusMessage,
        (r matches PumpStep::Deliver(out) ==> out@ == spec_delivery(ev)->Some_0),
        r is Close <==> closes(ev),
        r is Ignore <==> (ev is ClientOther || ev is BusLagged),
{
    match ev {
        PumpEvent::ClientText(t) => {
            let line = relay_line(identity, t.as_str());
            let published = line.clone();
            let _ = bus_send(tx, line);
            PumpStep::Published(published)
        },
        PumpEvent::ClientOther => PumpStep::Ignore,
        PumpEvent::ClientClosed => PumpStep::Close,
        PumpEvent::BusMessage(m) => PumpStep::Deliver(sanitize(m.as_str())),
        PumpEvent::BusLagged => PumpStep::Ignore,
        PumpEvent::WriteFailed => PumpStep::Close,
    }
}

/// Attaches a freshly identified connection: subscribe to the bus, then
/// register the identity in the peer directory with a publish handle, and
/// build the welcome line. Returns the subscription and the welcome.
pub fn attach_peer(
    dir: &mut PeerDirectory<tokio::sync::broadcast::Sender<String>>,
    tx: &tokio::sync::broadcast::Sender<String>,
    identity: &String,
) -> (r: (tokio::sync::broadcast::Receiver<String>, String))
    requires
        old(dir).wf(),
    ensures
        final(dir).wf(),
        final(dir)@.contains_key(identity@),
        final(dir)@.remove(identity@) == old(dir)@.remove(identity@),
        r.1@ == spec_welcome(identity@),
{
    let rx = tx.subscribe();
    dir.register(identity.clone(), tx.clone());
    proof {
        assert(dir@.remove(identity@) =~= old(dir)@.remove(identity@));
    }
    let welcome = welcome_line(identity.as_str());
    (rx, welcome)
}

/// The lines a pump writes out to its client for a given event sequence,
/// in order; processing stops at the first closing event.
pub open spec fn deliveries(evs: Seq<PumpEvent>) -> Seq<Seq<char>>
    decreases evs.len(),
{
    if evs.len() == 0 {
        Seq::empty()
    } else if closes(evs.first()) {
        Seq::empty()
    } else {
        match spec_delivery(evs.first()) {
            Some(m) => seq![m] + deliveries(evs.drop_first()),
            None => deliveries(evs.drop_first()),
        }
    }
}

/// Everything a connection writes to its client over its lifetime, in
/// order: the one-time welcome, then the pump's deliveries.
pub open spec fn client_outputs(id: Seq<char>, evs: Seq<PumpEvent>) -> Seq<Seq<char>> {
    seq![spec_welcome(id)] + deliveries(evs)
}

/// Law: no message reaches a client before that client's own welcome. The
/// first line a connection ever writes out is the welcome, and everything
/// after it is a pump delivery.
pub proof fn lemma_welcome_first(id: Seq<char>, evs: Seq<PumpEvent>)
    ensures
        client_outputs(id, evs).len() == 1 + deliveries(evs).len(),
        client_outputs(id, evs)[0] == spec_welcome(id),
        client_outputs(id, evs).skip(1) == deliveries(evs),
{
    assert(client_outputs(id, evs).skip(1) =~= deliveries(evs));
}

/// The texts of the bus deliveries in an event sequence, in order.
pub open spec fn bus_texts(evs: Seq<PumpEvent>) -> Seq<Seq<char>>
    decreases evs.len(),
{
    if evs.len() == 0 {
        Seq::empty()
    } else {
        match evs.first() {
            PumpEvent::BusMessage(m) => seq![m@] + bus_texts(evs.drop_first()),
            _ => bus_texts(evs.drop_first()),
        }
    }
}

/// Each of these texts, sanitized.
pub open spec fn sanitize_all(ts: Seq<Seq<char>>) -> Seq<Seq<char>> {
    ts.map_values(|t: Seq<char>| spec_sanitize(t))
}

/// Law: while no closing event arrives, a pump writes out exactly one line
/// per bus delivery — the sanitized text — in arrival order: nothing is
/// duplicated, nothing is skipped, and nothing else is written.
pub proof fn lemma_deliveries_exact(evs: Seq<PumpEvent>)
    requires
        forall|i: int| 0 <= i < evs.len() ==> !closes(#[trigger] evs[i]),
    ensures
        deliveries(evs) == sanitize_all(bus_texts(evs)),
    decreases evs.len(),
{
    if evs.len() == 0 {
        assert(deliveries(evs) =~= sanitize_all(bus_texts(evs)));
    } else {
        let rest = evs.drop_first();
        assert(!closes(evs.first()));
        assert forall|i: int| 0 <= i < rest.len() implies !closes(#[trigger] rest[i]) by {
            assert(rest[i] == evs[i + 1]);
        }
        lemma_deliveries_exact(rest);
        match evs.first() {
            PumpEvent::BusMessage(m) => {
                assert(deliveries(evs) == seq![spec_sanitize(m@)] + deliveries(rest));
                assert(bus_texts(evs) == seq![m@] + bus_texts(rest));
                assert(sanitize_all(seq![m@] + bus_texts(rest)) =~= seq![spec_sanitize(m@)]
                    + sanitize_all(bus_texts(rest)));
            },
            _ => {
                assert(deliveries(evs) == deliveries(rest));
                assert(bus_texts(evs) == bus_texts(rest));
            },
        }
    }
}

} // verus!
