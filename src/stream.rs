use vstd::prelude::*;
use vstd::utf8::{decode_utf8, valid_utf8};

verus! {

/// The text that a chunk of bytes decodes to when invalid UTF-8 sequences
/// are replaced by U+FFFD.
pub uninterp spec fn lossy_text(b: Seq<u8>) -> Seq<char>;

/// Relies on String::from_utf8_lossy: the text depends on the bytes alone,
/// and valid UTF-8 is decoded unchanged.
#[verifier::external_body]
fn decode_lossy(b: &Vec<u8>) -> (r: String)
    ensures
        r@ == lossy_text(b@),
        valid_utf8(b@) ==> r@ == decode_utf8(b@),
{
    String::from_utf8_lossy(b.as_slice()).into_owned()
}

/// What the response stream delivers next.
pub enum RelayEvent {
    /// One chunk of the body.
    Chunk(Vec<u8>),
    /// The request could not be made, or a chunk could not be read.
    Failed(String),
    /// The text of a chunk could not be delivered to the user interface.
    EmitFailed(String),
    /// The body ended.
    Closed,
}

/// What the relay does in answer to an event.
#[derive(Debug, Clone, PartialEq, Eq)]
pub enum RelayAction {
    /// Send one event carrying this text to the user interface.
    Emit(String),
    /// End the relay successfully.
    Succeed,
    /// End the relay with this failure.
    Fail(String),
}

pub enum RelayEventView {
    Chunk(Seq<u8>),
    Failed(Seq<char>),
    EmitFailed(Seq<char>),
    Closed,
}

pub enum RelayActionView {
    Emit(Seq<char>),
    Succeed,
    Fail(Seq<char>),
}

impl View for RelayEvent {
    type V = RelayEventView;

    open spec fn view(&self) -> RelayEventView {
        match self {
            RelayEvent::Chunk(b) => RelayEventView::Chunk(b@),
            RelayEvent::Failed(m) => RelayEventView::Failed(m@),
            RelayEvent::EmitFailed(m) => RelayEventView::EmitFailed(m@),
            RelayEvent::Closed => RelayEventView::Closed,
        }
    }
}

impl View for RelayAction {
    type V = RelayActionView;

    open spec fn view(&self) -> RelayActionView {
        match self {
            RelayAction::Emit(t) => RelayActionView::Emit(t@),
            RelayAction::Succeed => RelayActionView::Succeed,
            RelayAction::Fail(m) => RelayActionView::Fail(m@),
        }
    }
}

/// The answer to one event of a relay that has not ended.
pub open spec fn answer(e: RelayEventView) -> RelayActionView {
    match e {
        RelayEventView::Chunk(b) => RelayActionView::Emit(lossy_text(b)),
        RelayEventView::Failed(m) => RelayActionView::Fail(m),
        RelayEventView::EmitFailed(m) => RelayActionView::Fail(m),
        RelayEventView::Closed => RelayActionView::Succeed,
    }
}

/// The actions that a relay takes on a sequence of events: one emit per
/// chunk in arrival order, until the first failure or end, which is answered
/// and ends the relay. Events after that are ignored.
pub open spec fn relayed(events: Seq<RelayEventView>) -> Seq<RelayActionView>
    decreases events.len(),
{
    if events.len() == 0 {
        Seq::empty()
    } else if events[0] is Chunk {
        seq![answer(events[0])] + relayed(events.drop_first())
    } else {
        seq![answer(events[0])]
    }
}

pub open spec fn event_views(events: Seq<RelayEvent>) -> Seq<RelayEventView> {
    events.map_values(|e: RelayEvent| e@)
}

pub open spec fn action_views(actions: Seq<RelayAction>) -> Seq<RelayActionView> {
    actions.map_values(|a: RelayAction| a@)
}

/// A relay in progress: it answers events until one of them ends it.
pub struct Relay {
    finished: bool,
}

impl Relay {
    pub closed spec fn is_finished(&self) -> bool {
        self.finished
    }

    /// A relay that has not ended.
    pub fn new() -> (r: Relay)
        ensures
            !r.is_finished(),
    {
        Relay { finished: false }
    }

    /// Whether the relay has ended.
    pub fn finished(&self) -> (r: bool)
        ensures
            r == self.is_finished(),
    {
        self.finished
    }

    /// Answers a chunk whose text is already decoded: the text is emitted.
    pub fn on_text(&mut self, text: String) -> (r: Option<RelayAction>)
        ensures
            old(self).is_finished() ==> r is None,
            !old(self).is_finished() ==> r == Some(RelayAction::Emit(text)),
            final(self).is_finished() == old(self).is_finished(),
    {
        if self.finished {
            None
        } else {
            Some(RelayAction::Emit(text))
        }
    }

    /// Answers one event: a chunk is decoded and emitted; a failure or the
    /// end of the body ends the relay. A relay that has ended answers
    /// nothing.
    pub fn step(&mut self, event: &RelayEvent) -> (r: Option<RelayAction>)
        ensures
            old(self).is_finished() ==> r is None && final(self).is_finished(),
            !old(self).is_finished() ==> (r matches Some(a) && a@ == answer(event@)),
            final(self).is_finished() == (old(self).is_finished() || !(event is Chunk)),
    {
        if self.finished {
            return None;
        }
        match event {
            RelayEvent::Chunk(b) => self.on_text(decode_lossy(b)),
            RelayEvent::Failed(m) => {
                self.finished = true;
                Some(RelayAction::Fail(m.clone()))
            },
            RelayEvent::EmitFailed(m) => {
                self.finished = true;
                Some(RelayAction::Fail(m.clone()))
            },
            RelayEvent::Closed => {
                self.finished = true;
                Some(RelayAction::Succeed)
            },
        }
    }
}

proof fn lemma_relayed_append(s: Seq<RelayEventView>, t: Seq<RelayEventView>)
    requires
        forall|j: int| 0 <= j < s.len() ==> #[trigger] s[j] is Chunk,
    ensures
        relayed(s + t) == relayed(s) + relayed(t),
    decreases s.len(),
{
    if s.len() == 0 {
        assert(s + t =~= t);
        assert(relayed(s) + relayed(t) =~= relayed(t));
    } else {
        let rest = s.drop_first();
        assert forall|j: int| 0 <= j < rest.len() implies #[trigger] rest[j] is Chunk by {
            assert(s[j + 1] is Chunk);
        }
        lemma_relayed_append(rest, t);
        assert((s + t).drop_first() =~= rest + t);
        assert((s + t)[0] == s[0]);
        assert(seq![answer(s[0])] + (relayed(rest) + relayed(t)) =~= (seq![answer(s[0])]
            + relayed(rest)) + relayed(t));
    }
}

/// Relays a recorded sequence of events and returns the actions taken.
pub fn relay_all(events: &Vec<RelayEvent>) -> (r: Vec<RelayAction>)
    ensures
        action_views(r@) == relayed(event_views(events@)),
{
    let ghost evs = event_views(events@);
    let mut relay = Relay::new();
    let mut out: Vec<RelayAction> = Vec::new();
    let mut i: usize = 0;
    while i < events.len() && !relay.finished()
        invariant
            evs == event_views(events@),
            i <= events.len(),
            !relay.is_finished() ==> forall|j: int| 0 <= j < i ==> #[trigger] evs[j] is Chunk,
            relay.is_finished() ==> i > 0 && !(evs[i - 1] is Chunk),
            relay.is_finished() ==> action_views(out@) == relayed(evs),
            !relay.is_finished() ==> action_views(out@) == relayed(evs.take(i as int)),
        decreases events.len() - i,
    {
        let ghost before = out@;
        let ghost prefix = evs.take(i as int);
        let a = relay.step(&events[i]);
        if let Some(a) = a {
            out.push(a);
        }
        proof {
            assert(evs[i as int] == events@[i as int]@);
            assert(evs.take(i as int + 1) =~= prefix + seq![evs[i as int]]);
            lemma_relayed_append(prefix, seq![evs[i as int]]);
            let one = seq![evs[i as int]];
            assert(one.drop_first() =~= Seq::<RelayEventView>::empty());
            assert(relayed(one.drop_first()) =~= Seq::<RelayActionView>::empty());
            assert(relayed(one) =~= seq![answer(evs[i as int])]);
            assert(action_views(out@) =~= action_views(before) + seq![answer(evs[i as int])]);
            if !(evs[i as int] is Chunk) {
                let whole = prefix + evs.skip(i as int);
                assert(whole =~= evs);
                lemma_relayed_append(prefix, evs.skip(i as int));
                assert(evs.skip(i as int)[0] == evs[i as int]);
                assert(relayed(evs.skip(i as int)) =~= seq![answer(evs[i as int])]);
            }
        }
        i = i + 1;
    }
    proof {
        if !relay.is_finished() {
            assert(evs.take(i as int) =~= evs);
        }
    }
    out
}

pub open spec fn chunk_events(chunks: Seq<Seq<u8>>) -> Seq<RelayEventView> {
    chunks.map_values(|b: Seq<u8>| RelayEventView::Chunk(b))
}

pub open spec fn chunk_emits(chunks: Seq<Seq<u8>>) -> Seq<RelayActionView> {
    chunks.map_values(|b: Seq<u8>| RelayActionView::Emit(lossy_text(b)))
}

proof fn lemma_chunks_relayed(chunks: Seq<Seq<u8>>)
    ensures
        forall|j: int| 0 <= j < chunk_events(chunks).len() ==> #[trigger] chunk_events(chunks)[j] is Chunk,
        relayed(chunk_events(chunks)) == chunk_emits(chunks),
    decreases chunks.len(),
{
    if chunks.len() > 0 {
        lemma_chunks_relayed(chunks.drop_first());
        assert(chunk_events(chunks).drop_first() =~= chunk_events(chunks.drop_first()));
        assert(chunk_emits(chunks) =~= seq![RelayActionView::Emit(lossy_text(chunks[0]))]
            + chunk_emits(chunks.drop_first()));
    } else {
        assert(chunk_emits(chunks) =~= Seq::<RelayActionView>::empty());
    }
}

/// A source that delivers some chunks and then ends is relayed as one emit
/// per chunk, in arrival order, followed by success.
pub proof fn lemma_relay_chunks_then_close(chunks: Seq<Seq<u8>>)
    ensures
        relayed(chunk_events(chunks) + seq![RelayEventView::Closed]) == chunk_emits(chunks)
            + seq![RelayActionView::Succeed],
{
    lemma_chunks_relayed(chunks);
    lemma_relayed_append(chunk_events(chunks), seq![RelayEventView::Closed]);
    assert(seq![RelayEventView::Closed].drop_first() =~= Seq::<RelayEventView>::empty());
}

/// A source that delivers some chunks and then fails is relayed as one emit
/// per chunk that arrived, in order, followed by that failure; whatever the
/// source would have delivered afterwards is not relayed.
pub proof fn lemma_relay_chunks_then_fail(
    chunks: Seq<Seq<u8>>,
    message: Seq<char>,
    later: Seq<RelayEventView>,
)
    ensures
        relayed(chunk_events(chunks) + (seq![RelayEventView::Failed(message)] + later))
            == chunk_emits(chunks) + seq![RelayActionView::Fail(message)],
{
    lemma_chunks_relayed(chunks);
    lemma_relayed_append(chunk_events(chunks), seq![RelayEventView::Failed(message)] + later);
    assert((seq![RelayEventView::Failed(message)] + later)[0] == RelayEventView::Failed(message));
}

} // verus!
