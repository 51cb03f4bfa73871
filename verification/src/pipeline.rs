//! The fetching side of the pipeline, as a state machine.
//!
//! The producer decides what is fetched and sent next. Whoever owns the
//! HTTP connection and the channel does it and reports the outcome as an
//! event. The identifier export is fetched first; then, for each of its
//! entries in turn, the details and the credits of the movie are fetched and
//! sent to the writer as one packet. Nothing is fetched ahead: the next
//! movie is asked for only when the packet of the one before has been taken
//! by the channel. Every failure is final.

use crate::client::{
    credits_of, details_of, listing_of, FetchError, HttpResponse, TmdbClient,
};
use crate::export::{
    credits_url, credits_url_of, export_date, export_date_of, export_url, export_url_of, movie_url,
    movie_url_of, CalendarDate,
};
use crate::records::{
    CastMemberView, MovieDetails, MovieDetailsView, MovieIdEntry, Packet, PacketView,
};
use vstd::prelude::*;

verus! {

/// The number of packets that the channel between the producer and the
/// writer holds at most. A producer that is this far ahead of the writer
/// waits.
pub const CHANNEL_CAPACITY: usize = 50;

/// Why the producer stopped.
#[derive(Debug, Clone, Copy, PartialEq, Eq, Structural)]
pub enum PipelineError {
    /// A request got no response.
    Transport,
    /// A response gave no record.
    Fetch(FetchError),
    /// The receiving side of the channel was closed.
    ChannelClosed,
    /// An event arrived that does not answer what the producer asked for.
    Unexpected,
}

/// What happened to what the producer asked for.
#[derive(Debug, PartialEq, Eq)]
pub enum FetchEvent {
    /// The request was answered.
    Response(HttpResponse),
    /// The request got no response.
    TransportFailed,
    /// The channel took the packet.
    Sent,
    /// The channel is closed.
    SendFailed,
}

/// Mathematical model of [`FetchEvent`].
pub enum FetchEventView {
    Response { status: u16, body: Seq<u8> },
    TransportFailed,
    Sent,
    SendFailed,
}

impl View for FetchEvent {
    type V = FetchEventView;

    open spec fn view(&self) -> FetchEventView {
        match *self {
            FetchEvent::Response(response) => FetchEventView::Response {
                status: response.status,
                body: response.body@,
            },
            FetchEvent::TransportFailed => FetchEventView::TransportFailed,
            FetchEvent::Sent => FetchEventView::Sent,
            FetchEvent::SendFailed => FetchEventView::SendFailed,
        }
    }
}

/// What the producer asks for next.
#[derive(Debug, PartialEq, Eq)]
pub enum FetchAction {
    /// Request this URL.
    Fetch(String),
    /// Send this packet into the channel, waiting while it is full.
    Send(Packet),
    /// Every entry of the export has been sent: the run is over.
    Finish,
    /// Stop: the producer has failed, for good.
    Stop(PipelineError),
}

/// Mathematical model of [`FetchAction`].
pub enum FetchActionView {
    Fetch(Seq<char>),
    Send(PacketView),
    Finish,
    Stop(PipelineError),
}

impl View for FetchAction {
    type V = FetchActionView;

    open spec fn view(&self) -> FetchActionView {
        match *self {
            FetchAction::Fetch(url) => FetchActionView::Fetch(url@),
            FetchAction::Send(packet) => FetchActionView::Send(packet@),
            FetchAction::Finish => FetchActionView::Finish,
            FetchAction::Stop(error) => FetchActionView::Stop(error),
        }
    }
}

/// What the producer waits for.
pub enum Stage {
    /// The response with the identifier export.
    Listing,
    /// The response with the details of the next movie.
    Details,
    /// The response with the credits of the next movie, whose details are
    /// here.
    Credits { details: MovieDetailsView },
    /// The channel, to take the packet of the next movie.
    Sending,
    /// Nothing: every entry has been sent.
    Done,
    /// Nothing: the producer has failed.
    Failed(PipelineError),
}

/// Where the producer stands: the entries of the export, how many of them
/// have been sent as packets, and what is awaited. The next movie is the
/// entry at place `sent`.
pub struct ProducerView {
    pub ids: Seq<MovieIdEntry>,
    pub sent: int,
    pub stage: Stage,
}

impl ProducerView {
    /// A producer that has asked for the export.
    pub open spec fn initial() -> ProducerView {
        ProducerView { ids: Seq::empty(), sent: 0, stage: Stage::Listing }
    }

    /// The producer fails with `error`; what it has sent stays on record.
    pub open spec fn fail(self, error: PipelineError) -> (ProducerView, FetchActionView) {
        (ProducerView { stage: Stage::Failed(error), ..self }, FetchActionView::Stop(error))
    }

    /// The producer turns to the next movie, or finishes where no entry is
    /// left.
    pub open spec fn next_movie(self) -> (ProducerView, FetchActionView) {
        if 0 <= self.sent < self.ids.len() {
            (
                ProducerView { stage: Stage::Details, ..self },
                FetchActionView::Fetch(movie_url_of(self.ids[self.sent].id)),
            )
        } else {
            (ProducerView { stage: Stage::Done, ..self }, FetchActionView::Finish)
        }
    }

    /// One step of the producer: where it stands and the event that arrived
    /// give where it stands next and what to do next.
    pub open spec fn step(self, event: FetchEventView) -> (ProducerView, FetchActionView) {
        match self.stage {
            Stage::Failed(error) => (self, FetchActionView::Stop(error)),
            Stage::Done => (self, FetchActionView::Finish),
            Stage::Listing => match event {
                FetchEventView::Response { status, body } => match listing_of(status, body) {
                    Ok(ids) => ProducerView { ids, sent: 0, stage: Stage::Listing }.next_movie(),
                    Err(error) => self.fail(PipelineError::Fetch(error)),
                },
                FetchEventView::TransportFailed => self.fail(PipelineError::Transport),
                _ => self.fail(PipelineError::Unexpected),
            },
            Stage::Details => match event {
                FetchEventView::Response { status, body } => match details_of(status, body) {
                    Ok(details) => (
                        ProducerView { stage: Stage::Credits { details }, ..self },
                        FetchActionView::Fetch(credits_url_of(self.ids[self.sent].id)),
                    ),
                    Err(error) => self.fail(PipelineError::Fetch(error)),
                },
                FetchEventView::TransportFailed => self.fail(PipelineError::Transport),
                _ => self.fail(PipelineError::Unexpected),
            },
            Stage::Credits { details } => match event {
                FetchEventView::Response { status, body } => match credits_of(status, body) {
                    Ok(cast) => (
                        ProducerView { stage: Stage::Sending, ..self },
                        FetchActionView::Send(PacketView { movie_details: details, cast }),
                    ),
                    Err(error) => self.fail(PipelineError::Fetch(error)),
                },
                FetchEventView::TransportFailed => self.fail(PipelineError::Transport),
                _ => self.fail(PipelineError::Unexpected),
            },
            Stage::Sending => match event {
                FetchEventView::Sent => ProducerView { sent: self.sent + 1, ..self }.next_movie(),
                FetchEventView::SendFailed => self.fail(PipelineError::ChannelClosed),
                _ => self.fail(PipelineError::Unexpected),
            },
        }
    }
}

enum Waiting {
    Listing,
    Details,
    Credits { details: MovieDetails },
    Sending,
    Done,
    Failed(PipelineError),
}

impl Waiting {
    spec fn model(self) -> Stage {
        match self {
            Waiting::Listing => Stage::Listing,
            Waiting::Details => Stage::Details,
            Waiting::Credits { details } => Stage::Credits { details: details@ },
            Waiting::Sending => Stage::Sending,
            Waiting::Done => Stage::Done,
            Waiting::Failed(error) => Stage::Failed(error),
        }
    }
}

/// The producer: the client that reads the responses, the entries of the
/// export, and where the work stands.
pub struct Producer {
    client: TmdbClient,
    ids: Vec<MovieIdEntry>,
    sent: usize,
    waiting: Waiting,
}

impl View for Producer {
    type V = ProducerView;

    closed spec fn view(&self) -> ProducerView {
        ProducerView { ids: self.ids@, sent: self.sent as int, stage: self.waiting.model() }
    }
}

impl Producer {
    #[verifier::type_invariant]
    spec fn well_formed(self) -> bool {
        &&& self.sent <= self.ids@.len()
        &&& (self.waiting is Details || self.waiting is Credits || self.waiting is Sending)
            ==> self.sent < self.ids@.len()
    }

    /// The client with which the producer reads the responses.
    pub closed spec fn reader(self) -> TmdbClient {
        self.client
    }

    /// A producer for a run that starts on `today`, and its first request:
    /// the identifier export of the day before, or of `today` itself where
    /// that is the first of a month.
    pub fn new(client: TmdbClient, today: CalendarDate) -> (r: (Producer, FetchAction))
        ensures
            r.0@ == ProducerView::initial(),
            r.0.reader() == client,
            r.1@ == FetchActionView::Fetch(export_url_of(export_date_of(today))),
    {
        let producer = Producer { client, ids: Vec::new(), sent: 0, waiting: Waiting::Listing };
        assert(producer@.ids =~= Seq::empty());
        (producer, FetchAction::Fetch(export_url(export_date(today))))
    }

    /// The client with which the producer reads the responses.
    pub fn client(&self) -> (client: &TmdbClient)
        ensures
            *client == self.reader(),
    {
        &self.client
    }

    /// The number of entries of the export; 0 before it has arrived.
    pub fn total(&self) -> (n: usize)
        ensures
            n == self@.ids.len(),
    {
        self.ids.len()
    }

    /// The number of packets that the channel has taken.
    pub fn sent(&self) -> (n: usize)
        ensures
            n == self@.sent,
    {
        self.sent
    }

    fn fail(&mut self, error: PipelineError) -> (action: FetchAction)
        ensures
            (final(self)@, action@) == old(self)@.fail(error),
            final(self).reader() == old(self).reader(),
    {
        proof {
            use_type_invariant(&*self);
        }
        self.waiting = Waiting::Failed(error);
        FetchAction::Stop(error)
    }

    fn next_movie(&mut self) -> (action: FetchAction)
        requires
            old(self).waiting is Listing || old(self).waiting is Sending || old(self).waiting is Done,
        ensures
            (final(self)@, action@) == old(self)@.next_movie(),
            final(self).reader() == old(self).reader(),
    {
        proof {
            use_type_invariant(&*self);
        }
        if self.sent < self.ids.len() {
            let url = movie_url(self.ids[self.sent].id);
            self.waiting = Waiting::Details;
            FetchAction::Fetch(url)
        } else {
            self.waiting = Waiting::Done;
            FetchAction::Finish
        }
    }

    /// Takes note of an event, and says what to do next.
    pub fn step(&mut self, event: FetchEvent) -> (action: FetchAction)
        ensures
            (final(self)@, action@) == old(self)@.step(event@),
            final(self).reader() == old(self).reader(),
    {
        proof {
            use_type_invariant(&*self);
        }
        let mut waiting = Waiting::Failed(PipelineError::Unexpected);
        core::mem::swap(&mut self.waiting, &mut waiting);
        match waiting {
            Waiting::Failed(error) => {
                self.waiting = Waiting::Failed(error);
                FetchAction::Stop(error)
            },
            Waiting::Done => {
                self.waiting = Waiting::Done;
                FetchAction::Finish
            },
            Waiting::Listing => {
                self.waiting = Waiting::Listing;
                match event {
                    FetchEvent::Response(response) => match self.client.load_movie_ids(&response) {
                        Ok(ids) => {
                            self.sent = 0;
                            self.ids = ids;
                            self.next_movie()
                        },
                        Err(error) => self.fail(PipelineError::Fetch(error)),
                    },
                    FetchEvent::TransportFailed => self.fail(PipelineError::Transport),
                    _ => self.fail(PipelineError::Unexpected),
                }
            },
            Waiting::Details => {
                self.waiting = Waiting::Details;
                match event {
                    FetchEvent::Response(response) => match self.client.movie(&response) {
                        Ok(details) => {
                            let url = credits_url(self.ids[self.sent].id);
                            self.waiting = Waiting::Credits { details };
                            FetchAction::Fetch(url)
                        },
                        Err(error) => self.fail(PipelineError::Fetch(error)),
                    },
                    FetchEvent::TransportFailed => self.fail(PipelineError::Transport),
                    _ => self.fail(PipelineError::Unexpected),
                }
            },
            Waiting::Credits { details } => {
                self.waiting = Waiting::Sending;
                match event {
                    FetchEvent::Response(response) => match self.client.cast(&response) {
                        Ok(cast) => FetchAction::Send(Packet { movie_details: details, cast }),
                        Err(error) => self.fail(PipelineError::Fetch(error)),
                    },
                    FetchEvent::TransportFailed => self.fail(PipelineError::Transport),
                    _ => self.fail(PipelineError::Unexpected),
                }
            },
            Waiting::Sending => {
                match event {
                    FetchEvent::Sent => {
                        let total: usize = self.ids.len();
                        assert(self.sent < total);
                        self.sent = self.sent + 1;
                        self.waiting = Waiting::Done;
                        self.next_movie()
                    },
                    FetchEvent::SendFailed => self.fail(PipelineError::ChannelClosed),
                    _ => self.fail(PipelineError::Unexpected),
                }
            },
        }
    }
}

/// The status and the body of a response, as the models have them.
pub struct ResponseView {
    pub status: u16,
    pub body: Seq<u8>,
}

impl ResponseView {
    /// The event of this response arriving.
    pub open spec fn arrives(self) -> FetchEventView {
        FetchEventView::Response { status: self.status, body: self.body }
    }
}

/// The producer's steps over a run of events: where it stands in the end and
/// the actions it asked for, one for each event.
pub open spec fn run_events(producer: ProducerView, events: Seq<FetchEventView>) -> (
    ProducerView,
    Seq<FetchActionView>,
)
    decreases events.len(),
{
    if events.len() == 0 {
        (producer, Seq::empty())
    } else {
        let first = producer.step(events[0]);
        let rest = run_events(first.0, events.drop_first());
        (rest.0, seq![first.1] + rest.1)
    }
}

/// The events of a run in which every request is answered and every packet
/// taken, from movie `from` on: for each movie the response with its
/// details, the response with its credits, and the channel taking the
/// packet.
pub open spec fn movie_events(details: Seq<ResponseView>, credits: Seq<ResponseView>, from: int) -> Seq<
    FetchEventView,
>
    decreases details.len() - from,
{
    if from < 0 || from >= details.len() {
        Seq::empty()
    } else {
        seq![details[from].arrives(), credits[from].arrives(), FetchEventView::Sent] + movie_events(
            details,
            credits,
            from + 1,
        )
    }
}

/// The packet that the responses for one movie make.
pub open spec fn packet_of(details: ResponseView, credits: ResponseView) -> PacketView {
    PacketView {
        movie_details: details_of(details.status, details.body)->Ok_0,
        cast: credits_of(credits.status, credits.body)->Ok_0,
    }
}

/// What the producer asks for from the moment it turns to movie `from`: for
/// each movie its details, its credits and the sending of its packet, and
/// after the last movie the end of the run.
pub open spec fn movie_actions(
    ids: Seq<MovieIdEntry>,
    details: Seq<ResponseView>,
    credits: Seq<ResponseView>,
    from: int,
) -> Seq<FetchActionView>
    decreases ids.len() - from,
{
    if from < 0 || from >= ids.len() {
        seq![FetchActionView::Finish]
    } else {
        seq![
            FetchActionView::Fetch(movie_url_of(ids[from].id)),
            FetchActionView::Fetch(credits_url_of(ids[from].id)),
            FetchActionView::Send(packet_of(details[from], credits[from])),
        ] + movie_actions(ids, details, credits, from + 1)
    }
}

proof fn lemma_run_one(producer: ProducerView, first: FetchEventView, rest: Seq<FetchEventView>)
    ensures
        ({
            let one = producer.step(first);
            let tail = run_events(one.0, rest);
            run_events(producer, seq![first] + rest) == (tail.0, seq![one.1] + tail.1)
        }),
{
    let events = seq![first] + rest;
    assert(events[0] == first);
    assert(events.drop_first() =~= rest);
}

proof fn lemma_movies_run(
    ids: Seq<MovieIdEntry>,
    details: Seq<ResponseView>,
    credits: Seq<ResponseView>,
    from: int,
)
    requires
        details.len() == ids.len(),
        credits.len() == ids.len(),
        0 <= from <= ids.len(),
        forall|i: int|
            0 <= i < ids.len() ==> details_of(
                (#[trigger] details[i]).status,
                details[i].body,
            ) is Ok,
        forall|i: int|
            0 <= i < ids.len() ==> credits_of(
                (#[trigger] credits[i]).status,
                credits[i].body,
            ) is Ok,
    ensures
        ({
            let turn = ProducerView { ids, sent: from, stage: Stage::Sending }.next_movie();
            let run = run_events(turn.0, movie_events(details, credits, from));
            &&& run.0 == ProducerView { ids, sent: ids.len() as int, stage: Stage::Done }
            &&& seq![turn.1] + run.1 == movie_actions(ids, details, credits, from)
        }),
    decreases ids.len() - from,
{
    let turn = ProducerView { ids, sent: from, stage: Stage::Sending }.next_movie();
    if from < ids.len() {
        let rest = movie_events(details, credits, from + 1);
        let first = details[from].arrives();
        let second = credits[from].arrives();
        let one = turn.0.step(first);
        let two = one.0.step(second);
        let three = two.0.step(FetchEventView::Sent);
        let tail = run_events(three.0, rest);
        assert(movie_events(details, credits, from) =~= seq![first] + (seq![second] + (
            seq![FetchEventView::Sent] + rest)));
        lemma_run_one(turn.0, first, seq![second] + (seq![FetchEventView::Sent] + rest));
        lemma_run_one(one.0, second, seq![FetchEventView::Sent] + rest);
        lemma_run_one(two.0, FetchEventView::Sent, rest);
        lemma_movies_run(ids, details, credits, from + 1);
        assert(three == ProducerView { ids, sent: from + 1, stage: Stage::Sending }.next_movie());
        assert(seq![turn.1] + (seq![one.1] + (seq![two.1] + (seq![three.1] + tail.1))) =~= seq![
            turn.1,
            one.1,
            two.1,
        ] + (seq![three.1] + tail.1));
    } else {
        assert(movie_events(details, credits, from) =~= Seq::<FetchEventView>::empty());
        assert(seq![turn.1] + Seq::<FetchActionView>::empty() =~= seq![FetchActionView::Finish]);
    }
}

/// No entry is skipped and none overtakes another. In a run in which the
/// export gives `ids`, every request is answered with a record and every
/// packet is taken, the producer asks for the movies in the order of `ids`:
/// for each the details, then the credits, then the sending of the packet
/// made of the two. After the last it finishes, having sent as many packets
/// as the export has entries.
pub proof fn law_packets_follow_the_export(
    listing: ResponseView,
    ids: Seq<MovieIdEntry>,
    details: Seq<ResponseView>,
    credits: Seq<ResponseView>,
)
    requires
        listing_of(listing.status, listing.body) == Ok::<Seq<MovieIdEntry>, FetchError>(ids),
        details.len() == ids.len(),
        credits.len() == ids.len(),
        forall|i: int|
            0 <= i < ids.len() ==> details_of(
                (#[trigger] details[i]).status,
                details[i].body,
            ) is Ok,
        forall|i: int|
            0 <= i < ids.len() ==> credits_of(
                (#[trigger] credits[i]).status,
                credits[i].body,
            ) is Ok,
    ensures
        run_events(
            ProducerView::initial(),
            seq![listing.arrives()] + movie_events(details, credits, 0),
        ) == (
            ProducerView { ids, sent: ids.len() as int, stage: Stage::Done },
            movie_actions(ids, details, credits, 0),
        ),
{
    lemma_run_one(ProducerView::initial(), listing.arrives(), movie_events(details, credits, 0));
    lemma_movies_run(ids, details, credits, 0);
    let one = ProducerView::initial().step(listing.arrives());
    assert(one == ProducerView { ids, sent: 0, stage: Stage::Sending }.next_movie());
}

/// A producer that has failed stays failed: whatever arrives, it asks to
/// stop with the error it failed with, and neither fetches nor sends.
pub proof fn law_failure_is_final(producer: ProducerView, events: Seq<FetchEventView>)
    requires
        producer.stage is Failed,
    ensures
        run_events(producer, events).0 == producer,
        run_events(producer, events).1.len() == events.len(),
        forall|i: int|
            0 <= i < events.len() ==> #[trigger] run_events(producer, events).1[i]
                == FetchActionView::Stop(producer.stage->Failed_0),
    decreases events.len(),
{
    if events.len() > 0 {
        law_failure_is_final(producer, events.drop_first());
    }
}

/// The packets that were sent are counted: `sent` grows by one exactly in
/// the step in which the channel took a packet, and never shrinks after the
/// export has arrived.
pub proof fn law_sent_counts_packets(producer: ProducerView, event: FetchEventView)
    requires
        !(producer.stage is Listing),
    ensures
        producer.step(event).0.ids == producer.ids,
        producer.step(event).0.sent == if producer.stage is Sending && event is Sent {
            producer.sent + 1
        } else {
            producer.sent
        },
{
}

/// The pipeline between the producer and the writer at one moment, as far as
/// the packets go: how many packets the channel has taken from the producer,
/// which of them wait in the channel, and which the writer has received,
/// each in its order. This is what the pipeline needs of its channel; the
/// channel itself is not part of this crate.
pub struct FlowView {
    pub taken: int,
    pub waiting: Seq<PacketView>,
    pub received: Seq<PacketView>,
}

/// One move of the pipeline: the producer offers its next packet to the
/// channel, or the writer asks the channel for a packet.
pub enum Move {
    Send,
    Receive,
}

impl FlowView {
    /// Nothing sent yet.
    pub open spec fn initial() -> FlowView {
        FlowView { taken: 0, waiting: Seq::empty(), received: Seq::empty() }
    }

    /// The flow after one move, for a producer that sends `packets` in their
    /// order through a channel that holds `capacity` packets. A channel that
    /// is full takes no packet: the producer is suspended, and the flow is as
    /// it was. A channel that is empty gives none: the writer waits.
    pub open spec fn after(self, packets: Seq<PacketView>, capacity: nat, m: Move) -> FlowView {
        match m {
            Move::Send => if 0 <= self.taken < packets.len() && self.waiting.len() < capacity {
                FlowView {
                    taken: self.taken + 1,
                    waiting: self.waiting.push(packets[self.taken]),
                    ..self
                }
            } else {
                self
            },
            Move::Receive => if self.waiting.len() > 0 {
                FlowView {
                    waiting: self.waiting.drop_first(),
                    received: self.received.push(self.waiting[0]),
                    ..self
                }
            } else {
                self
            },
        }
    }

    /// The flow after a run of moves.
    pub open spec fn after_all(self, packets: Seq<PacketView>, capacity: nat, moves: Seq<Move>) -> FlowView
        decreases moves.len(),
    {
        if moves.len() == 0 {
            self
        } else {
            self.after_all(packets, capacity, moves.drop_last()).after(
                packets,
                capacity,
                moves.last(),
            )
        }
    }

    /// Nothing is lost, doubled or out of order, and the producer is not
    /// further ahead than the channel holds.
    pub open spec fn in_order(self, packets: Seq<PacketView>, capacity: nat) -> bool {
        &&& 0 <= self.taken <= packets.len()
        &&& self.waiting.len() <= capacity
        &&& self.received + self.waiting == packets.take(self.taken)
    }
}

/// However sending and receiving take turns, no packet is lost, none is
/// received twice and none overtakes another: what the writer has received,
/// followed by what waits in the channel, is what the producer has sent, in
/// the order of sending. The producer is never more than the capacity of the
/// channel ahead of the writer.
pub proof fn law_flow_keeps_order(packets: Seq<PacketView>, capacity: nat, moves: Seq<Move>)
    ensures
        FlowView::initial().after_all(packets, capacity, moves).in_order(packets, capacity),
    decreases moves.len(),
{
    if moves.len() == 0 {
        assert(Seq::<PacketView>::empty() + Seq::<PacketView>::empty() =~= packets.take(0));
    } else {
        law_flow_keeps_order(packets, capacity, moves.drop_last());
        let before = FlowView::initial().after_all(packets, capacity, moves.drop_last());
        let after = before.after(packets, capacity, moves.last());
        match moves.last() {
            Move::Send => {
                if 0 <= before.taken < packets.len() && before.waiting.len() < capacity {
                    assert(after.received + after.waiting =~= (before.received + before.waiting).push(
                        packets[before.taken],
                    ));
                    assert(packets.take(before.taken).push(packets[before.taken]) =~= packets.take(
                        before.taken + 1,
                    ));
                }
            },
            Move::Receive => {
                if before.waiting.len() > 0 {
                    assert(after.received + after.waiting =~= before.received + before.waiting);
                }
            },
        }
    }
}

/// A producer that is a full channel ahead is suspended until the writer
/// catches up: while as many packets wait as the channel holds, sending
/// changes nothing; as soon as the writer has received one, the next packet
/// is taken.
pub proof fn law_full_channel_suspends(flow: FlowView, packets: Seq<PacketView>, capacity: nat)
    requires
        flow.in_order(packets, capacity),
        flow.waiting.len() == capacity,
        capacity > 0,
        flow.taken < packets.len(),
    ensures
        flow.after(packets, capacity, Move::Send) == flow,
        flow.after(packets, capacity, Move::Receive).after(packets, capacity, Move::Send).taken
            == flow.taken + 1,
        flow.after(packets, capacity, Move::Receive).received == flow.received.push(
            flow.waiting[0],
        ),
{
}

/// Once every packet is sent and the writer has received as often as there
/// are packets waiting, the writer has received every packet, in the order
/// of sending.
pub proof fn law_drained_flow_is_complete(flow: FlowView, packets: Seq<PacketView>, capacity: nat)
    requires
        flow.in_order(packets, capacity),
        flow.taken == packets.len(),
        flow.waiting.len() == 0,
    ensures
        flow.received == packets,
{
    assert(flow.received + flow.waiting =~= flow.received);
    assert(packets.take(packets.len() as int) =~= packets);
}

} // verus!
