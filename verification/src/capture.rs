//! The capture loop as a state machine.
//!
//! The loop is idle until a capture session has been opened, then awaits
//! events of the session. Each delivered frame is processed (decoded, its
//! addresses extracted and recorded) before the next wait begins; a failure
//! confined to one frame never stops the loop. A failure of the session
//! itself terminates it.
//!
//! Waiting on the session is left to the caller: it hands each event to
//! [`CaptureLoop::step`] and carries out the action that comes back.

use crate::frame::{
    bare_frame, decode, decoded, decoding_view, has_opaque_payload, network_layer_cut_short,
    DecodeError, DecodedFrame, DecodedFrameView,
};
use crate::link::{address_pair, extract_addresses, ExtractionError, ETHERNET_HEADER_LEN};
use crate::registry::{lemma_observed_extends, observed, HostRegistry};
use vstd::prelude::*;

verus! {

/// Where the capture loop stands.
#[derive(Debug, Clone, Copy, PartialEq, Eq)]
pub enum CaptureState {
    /// No capture session has been opened yet.
    Idle,
    /// A session is open and the loop waits for its next event.
    Awaiting,
    /// A frame has been delivered and is being processed.
    ProcessingFrame,
    /// The session has failed; the loop is over.
    Terminated,
}

/// A failure of the capture session itself, such as the loss of the device.
/// It is the one failure that ends the loop.
#[derive(Debug, Clone, PartialEq, Eq)]
pub struct SessionError {
    /// What the session said of the failure.
    pub description: String,
}

/// What a capture session can deliver while the loop waits.
#[derive(Debug, Clone, PartialEq, Eq)]
pub enum CaptureEvent {
    /// A frame arrived, as captured from the wire.
    FrameDelivered(Vec<u8>),
    /// The session failed.
    SessionFailed(SessionError),
}

/// What is reported of one decoded frame.
#[derive(Debug, PartialEq, Eq)]
pub struct FrameReport {
    /// The source and destination hardware addresses in canonical form, or
    /// why they could not be extracted.
    pub addresses: Result<(String, String), ExtractionError>,
    /// The decoded frame, section by section.
    pub frame: DecodedFrame,
}

/// What the caller has to do after a step of the loop.
#[derive(Debug, PartialEq, Eq)]
pub enum CaptureAction {
    /// Report the frame, then wait for the next event.
    ReportFrame(FrameReport),
    /// Report that the frame could not be decoded, then wait for the next
    /// event.
    ReportDecodeFailure(DecodeError),
    /// Report the failure of the session and stop.
    ReportSessionFailure(SessionError),
    /// Nothing: the loop was in no state to take the event.
    Ignore,
}

/// The registry contents after a frame with the given decoding outcome has
/// been processed: source, then destination, are observed when the frame
/// was decoded and carries both; otherwise nothing changes.
pub open spec fn hosts_after_frame(
    hosts: Seq<Seq<char>>,
    outcome: Result<DecodedFrameView, Seq<char>>,
) -> Seq<Seq<char>> {
    match outcome {
        Ok(frame) => match address_pair(frame.link) {
            Some(pair) => observed(observed(hosts, pair.0), pair.1),
            None => hosts,
        },
        Err(_) => hosts,
    }
}

/// Whether `action` is the report owed for a frame with the given decoding
/// outcome.
pub open spec fn reports_frame(
    action: CaptureAction,
    outcome: Result<DecodedFrameView, Seq<char>>,
) -> bool {
    match outcome {
        Err(reason) => action matches CaptureAction::ReportDecodeFailure(
            DecodeError::Malformed(text),
        ) && text@ == reason,
        Ok(frame) => action matches CaptureAction::ReportFrame(report) && report.frame@ == frame
            && match address_pair(frame.link) {
            Some(pair) => report.addresses matches Ok(found) && found.0@ == pair.0 && found.1@
                == pair.1,
            None => report.addresses == Err::<(String, String), ExtractionError>(
                ExtractionError::MissingField,
            ),
        },
    }
}

/// The capture loop: its state and the registry of hosts it has discovered.
#[derive(Debug)]
pub struct CaptureLoop {
    state: CaptureState,
    registry: HostRegistry,
}

impl CaptureLoop {
    /// The state of the loop.
    pub closed spec fn phase(&self) -> CaptureState {
        self.state
    }

    /// The addresses discovered so far, in first-seen order.
    pub closed spec fn hosts(&self) -> Seq<Seq<char>> {
        self.registry@
    }

    /// An idle loop with an empty registry.
    pub fn new() -> (r: Self)
        ensures
            r.phase() is Idle,
            r.hosts() == Seq::<Seq<char>>::empty(),
    {
        CaptureLoop { state: CaptureState::Idle, registry: HostRegistry::new() }
    }

    /// An idle loop that records into the given registry.
    pub fn with_registry(registry: HostRegistry) -> (r: Self)
        ensures
            r.phase() is Idle,
            r.hosts() == registry@,
    {
        CaptureLoop { state: CaptureState::Idle, registry }
    }

    /// The state of the loop.
    pub fn state(&self) -> (r: CaptureState)
        ensures
            r == self.phase(),
    {
        self.state
    }

    /// Whether the loop is over.
    pub fn is_terminated(&self) -> (r: bool)
        ensures
            r == (self.phase() is Terminated),
    {
        match self.state {
            CaptureState::Terminated => true,
            _ => false,
        }
    }

    /// The registry of discovered hosts.
    pub fn registry(&self) -> (r: &HostRegistry)
        ensures
            r@ == self.hosts(),
    {
        &self.registry
    }

    /// Gives up the loop and hands out its registry.
    pub fn into_registry(self) -> (r: HostRegistry)
        ensures
            r@ == self.hosts(),
    {
        self.registry
    }

    /// Notes that a capture session has been opened: an idle loop starts to
    /// await events. Returns whether the loop was idle; in any other state
    /// nothing changes.
    pub fn session_opened(&mut self) -> (r: bool)
        ensures
            r == (old(self).phase() is Idle),
            final(self).hosts() == old(self).hosts(),
            final(self).phase() == (if r {
                CaptureState::Awaiting
            } else {
                old(self).phase()
            }),
    {
        match self.state {
            CaptureState::Idle => {
                self.state = CaptureState::Awaiting;
                true
            },
            _ => false,
        }
    }

    /// Notes that a frame has been delivered: an awaiting loop starts to
    /// process it. Returns whether the loop was awaiting; in any other state
    /// nothing changes.
    pub fn frame_delivered(&mut self) -> (r: bool)
        ensures
            r == (old(self).phase() is Awaiting),
            final(self).hosts() == old(self).hosts(),
            final(self).phase() == (if r {
                CaptureState::ProcessingFrame
            } else {
                old(self).phase()
            }),
    {
        match self.state {
            CaptureState::Awaiting => {
                self.state = CaptureState::ProcessingFrame;
                true
            },
            _ => false,
        }
    }

    /// Finishes the processing of a frame, given the outcome of decoding it.
    ///
    /// While a frame is being processed: a decoded frame has its addresses
    /// extracted and, when both are there, observed by the registry, source
    /// first; the frame is reported in full whether or not they were. A
    /// frame that could not be decoded is reported as such and changes
    /// nothing. Either way the loop awaits the next event. In any other
    /// state nothing changes and nothing is to be done.
    pub fn record(&mut self, outcome: Result<DecodedFrame, DecodeError>) -> (action: CaptureAction)
        ensures
            old(self).phase() is ProcessingFrame ==> {
                &&& final(self).phase() is Awaiting
                &&& final(self).hosts() == hosts_after_frame(
                    old(self).hosts(),
                    decoding_view(outcome),
                )
                &&& reports_frame(action, decoding_view(outcome))
            },
            !(old(self).phase() is ProcessingFrame) ==> {
                &&& final(self).phase() == old(self).phase()
                &&& final(self).hosts() == old(self).hosts()
                &&& action is Ignore
            },
            old(self).hosts().is_prefix_of(final(self).hosts()),
            final(self).hosts().no_duplicates(),
    {
        self.registry.distinct_entries();
        proof {
            lemma_hosts_after_frame_extends(self.hosts(), decoding_view(outcome));
        }
        match self.state {
            CaptureState::ProcessingFrame => {},
            _ => {
                return CaptureAction::Ignore;
            },
        }
        self.state = CaptureState::Awaiting;
        match outcome {
            Err(error) => CaptureAction::ReportDecodeFailure(error),
            Ok(frame) => {
                let view = frame.link();
                let addresses = extract_addresses(&view);
                match &addresses {
                    Ok(pair) => {
                        self.registry.observe(pair.0.clone());
                        self.registry.observe(pair.1.clone());
                    },
                    Err(_) => {},
                }
                CaptureAction::ReportFrame(FrameReport { addresses, frame })
            },
        }
    }

    /// Notes that the session has failed: an awaiting loop terminates and
    /// the failure is to be reported. In any other state nothing changes.
    pub fn session_failed(&mut self, error: SessionError) -> (action: CaptureAction)
        ensures
            final(self).hosts() == old(self).hosts(),
            old(self).phase() is Awaiting ==> final(self).phase() is Terminated && action
                == CaptureAction::ReportSessionFailure(error),
            !(old(self).phase() is Awaiting) ==> final(self).phase() == old(self).phase()
                && action is Ignore,
    {
        match self.state {
            CaptureState::Awaiting => {
                self.state = CaptureState::Terminated;
                CaptureAction::ReportSessionFailure(error)
            },
            _ => CaptureAction::Ignore,
        }
    }

    /// Takes one event of the session and says what to do about it.
    ///
    /// An awaiting loop decodes a delivered frame, records its addresses and
    /// returns the report, then awaits again; on a session failure it
    /// terminates. A loop that is idle or terminated takes no event: nothing
    /// changes.
    pub fn step(&mut self, event: CaptureEvent) -> (action: CaptureAction)
        ensures
            old(self).phase() is Awaiting ==> match event {
                CaptureEvent::FrameDelivered(raw) => {
                    &&& final(self).phase() is Awaiting
                    &&& final(self).hosts() == hosts_after_frame(old(self).hosts(), decoded(raw@))
                    &&& reports_frame(action, decoded(raw@))
                    &&& raw@.len() < ETHERNET_HEADER_LEN ==> decoded(raw@) is Err
                    &&& network_layer_cut_short(raw@) ==> decoded(raw@) is Err
                    &&& has_opaque_payload(raw@) ==> decoded(raw@) == Ok::<
                        DecodedFrameView,
                        Seq<char>,
                    >(bare_frame(raw@))
                },
                CaptureEvent::SessionFailed(error) => {
                    &&& final(self).phase() is Terminated
                    &&& final(self).hosts() == old(self).hosts()
                    &&& action == CaptureAction::ReportSessionFailure(error)
                },
            },
            !(old(self).phase() is Awaiting) ==> {
                &&& final(self).phase() == old(self).phase()
                &&& final(self).hosts() == old(self).hosts()
                &&& action is Ignore
            },
            old(self).hosts().is_prefix_of(final(self).hosts()),
            final(self).hosts().no_duplicates(),
    {
        match event {
            CaptureEvent::FrameDelivered(raw) => {
                if self.frame_delivered() {
                    let outcome = decode(raw.as_slice());
                    self.record(outcome)
                } else {
                    self.registry.distinct_entries();
                    CaptureAction::Ignore
                }
            },
            CaptureEvent::SessionFailed(error) => {
                self.registry.distinct_entries();
                self.session_failed(error)
            },
        }
    }
}

/// A frame that could not be decoded leaves the registry as it was.
pub proof fn lemma_malformed_frame_changes_nothing(hosts: Seq<Seq<char>>, reason: Seq<char>)
    ensures
        hosts_after_frame(hosts, Err(reason)) == hosts,
{
}

/// A decoded frame that lacks its source or its destination address leaves
/// the registry as it was.
pub proof fn lemma_unaddressed_frame_changes_nothing(
    hosts: Seq<Seq<char>>,
    frame: DecodedFrameView,
)
    requires
        frame.link.source is None || frame.link.destination is None,
    ensures
        hosts_after_frame(hosts, Ok(frame)) == hosts,
{
}

/// After a frame that carries both addresses, the registry holds both, and
/// every address it held before.
pub proof fn lemma_addressed_frame_is_recorded(hosts: Seq<Seq<char>>, frame: DecodedFrameView)
    requires
        hosts.no_duplicates(),
        address_pair(frame.link) is Some,
    ensures
        hosts_after_frame(hosts, Ok(frame)).contains(address_pair(frame.link)->Some_0.0),
        hosts_after_frame(hosts, Ok(frame)).contains(address_pair(frame.link)->Some_0.1),
        forall|address: Seq<char>|
            hosts.contains(address) ==> #[trigger] hosts_after_frame(hosts, Ok(frame)).contains(
                address,
            ),
{
    let pair = address_pair(frame.link)->Some_0;
    let first = observed(hosts, pair.0);
    let second = observed(first, pair.1);
    lemma_observed_extends(hosts, pair.0);
    lemma_observed_extends(first, pair.1);
    assert forall|address: Seq<char>| first.contains(address) implies second.contains(
        address,
    ) by {
        let i = choose|i: int| 0 <= i < first.len() && first[i] == address;
        assert(second[i] == address);
    }
    assert forall|address: Seq<char>| hosts.contains(address) implies first.contains(
        address,
    ) by {
        let i = choose|i: int| 0 <= i < hosts.len() && hosts[i] == address;
        assert(first[i] == address);
    }
}

/// Processing a frame only ever appends to a duplicate-free registry, and
/// leaves it duplicate-free.
pub proof fn lemma_hosts_after_frame_extends(
    hosts: Seq<Seq<char>>,
    outcome: Result<DecodedFrameView, Seq<char>>,
)
    requires
        hosts.no_duplicates(),
    ensures
        hosts_after_frame(hosts, outcome).no_duplicates(),
        hosts.is_prefix_of(hosts_after_frame(hosts, outcome)),
        hosts_after_frame(hosts, outcome).len() <= hosts.len() + 2,
{
    match outcome {
        Ok(frame) => match address_pair(frame.link) {
            Some(pair) => {
                lemma_observed_extends(hosts, pair.0);
                lemma_observed_extends(observed(hosts, pair.0), pair.1);
            },
            None => {},
        },
        Err(_) => {},
    }
}

} // verus!
