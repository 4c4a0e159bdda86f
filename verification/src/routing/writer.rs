//! Collecting results into batches for the output file.

use vstd::prelude::*;

verus! {

/// What the writer waits for.
pub enum WriterEvent<R> {
    /// One node's results.
    WriteResults(R),
    /// The run is over.
    Shutdown,
    /// Nothing came for a while.
    Timeout,
    /// Nobody is left to send results.
    Disconnected,
}

/// One batch to write, and its number.
pub struct WriteBatch<R> {
    pub results: Vec<R>,
    pub batch_num: usize,
}

/// What the writer does about an event.
pub struct WriterStep<R> {
    /// The batch to write now, if any.
    pub write: Option<WriteBatch<R>>,
    /// Whether to wait for another event.
    pub go_on: bool,
}

/// Results waiting to be written, and the number of the batch they will be part of.
pub struct Writer<R> {
    batch: Vec<R>,
    batch_num: usize,
    batch_size: usize,
}

/// The writer as plain mathematics.
pub struct WriterState<R> {
    pub batch: Seq<R>,
    pub batch_num: int,
    pub batch_size: int,
}

impl<R> View for Writer<R> {
    type V = WriterState<R>;

    closed spec fn view(&self) -> WriterState<R> {
        WriterState {
            batch: self.batch@,
            batch_num: self.batch_num as int,
            batch_size: self.batch_size as int,
        }
    }
}

/// A batch as plain mathematics.
pub struct Written<R> {
    pub results: Seq<R>,
    pub batch_num: int,
}

impl<R> WriteBatch<R> {
    pub open spec fn written(self) -> Written<R> {
        Written { results: self.results@, batch_num: self.batch_num as int }
    }
}

impl<R> WriterState<R> {
    /// Nothing has come in yet.
    pub open spec fn fresh(batch_size: int) -> WriterState<R> {
        WriterState { batch: Seq::empty(), batch_num: 0, batch_size }
    }

    /// What waits once `event` has come in, before anything is written.
    pub open spec fn waiting(self, event: WriterEvent<R>) -> Seq<R> {
        match event {
            WriterEvent::WriteResults(r) => self.batch.push(r),
            _ => self.batch,
        }
    }

    /// Whether `event` makes the writer write: a full batch does, and so does anything but new
    /// results while something waits.
    pub open spec fn writes(self, event: WriterEvent<R>) -> bool {
        match event {
            WriterEvent::WriteResults(_) => self.waiting(event).len() >= self.batch_size,
            _ => self.batch.len() > 0,
        }
    }

    /// What is written on `event`.
    pub open spec fn output(self, event: WriterEvent<R>) -> Seq<Written<R>> {
        if self.writes(event) {
            seq![Written { results: self.waiting(event), batch_num: self.batch_num }]
        } else {
            Seq::empty()
        }
    }

    /// The state after `event`.
    pub open spec fn next(self, event: WriterEvent<R>) -> WriterState<R> {
        if self.writes(event) {
            WriterState { batch: Seq::empty(), batch_num: self.batch_num + 1, ..self }
        } else {
            WriterState { batch: self.waiting(event), ..self }
        }
    }
}

/// The events after which the writer stops.
pub open spec fn is_last<R>(event: WriterEvent<R>) -> bool {
    event is Shutdown || event is Disconnected
}

/// How many results make a batch: as many as there are nodes, up to a hundred.
pub open spec fn batch_size_for(total_nodes: int) -> int {
    if total_nodes < 100 {
        total_nodes
    } else {
        100
    }
}

/// How many results make a batch in a network of `total_nodes` nodes.
pub fn writer_batch_size(total_nodes: usize) -> (size: usize)
    ensures
        size == batch_size_for(total_nodes as int),
{
    if total_nodes < 100 {
        total_nodes
    } else {
        100
    }
}

impl<R> Writer<R> {
    /// A writer that has seen nothing yet.
    pub fn new(batch_size: usize) -> (writer: Self)
        ensures
            writer@ == WriterState::<R>::fresh(batch_size as int),
    {
        Writer { batch: Vec::new(), batch_num: 0, batch_size }
    }

    /// Takes out what waits, as the next batch.
    fn flush(&mut self) -> (batch: WriteBatch<R>)
        requires
            old(self)@.batch_num < usize::MAX,
        ensures
            batch.written() == (Written {
                results: old(self)@.batch,
                batch_num: old(self)@.batch_num,
            }),
            final(self)@ == (WriterState {
                batch: Seq::<R>::empty(),
                batch_num: old(self)@.batch_num + 1,
                batch_size: old(self)@.batch_size,
            }),
    {
        let mut results: Vec<R> = Vec::new();
        results.append(&mut self.batch);
        let batch_num: usize = self.batch_num;
        self.batch_num = batch_num + 1;
        WriteBatch { results, batch_num }
    }

    /// Takes in one event. A batch is written when it is full, on a quiet spell so that results
    /// are not held too long, and at the end.
    pub fn on_event(&mut self, event: WriterEvent<R>) -> (step: WriterStep<R>)
        requires
            old(self)@.batch_num < usize::MAX,
        ensures
            final(self)@ == old(self)@.next(event),
            step.go_on == !is_last(event),
            match step.write {
                Some(batch) => {
                    &&& old(self)@.writes(event)
                    &&& old(self)@.output(event) == seq![batch.written()]
                },
                None => {
                    &&& !old(self)@.writes(event)
                    &&& old(self)@.output(event) == Seq::<Written<R>>::empty()
                },
            },
    {
        match event {
            WriterEvent::WriteResults(results) => {
                self.batch.push(results);
                if self.batch.len() >= self.batch_size {
                    WriterStep { write: Some(self.flush()), go_on: true }
                } else {
                    WriterStep { write: None, go_on: true }
                }
            },
            WriterEvent::Timeout => {
                if self.batch.len() > 0 {
                    WriterStep { write: Some(self.flush()), go_on: true }
                } else {
                    WriterStep { write: None, go_on: true }
                }
            },
            WriterEvent::Shutdown | WriterEvent::Disconnected => {
                if self.batch.len() > 0 {
                    WriterStep { write: Some(self.flush()), go_on: false }
                } else {
                    WriterStep { write: None, go_on: false }
                }
            },
        }
    }
}

/// The state after a sequence of events.
pub open spec fn after_events<R>(init: WriterState<R>, events: Seq<WriterEvent<R>>) -> WriterState<R>
    decreases events.len(),
{
    if events.len() == 0 {
        init
    } else {
        after_events(init, events.drop_last()).next(events.last())
    }
}

/// Everything written over a sequence of events.
pub open spec fn written_by<R>(init: WriterState<R>, events: Seq<WriterEvent<R>>) -> Seq<Written<R>>
    decreases events.len(),
{
    if events.len() == 0 {
        Seq::empty()
    } else {
        written_by(init, events.drop_last()) + after_events(init, events.drop_last()).output(
            events.last(),
        )
    }
}

/// The results that come in over a sequence of events, in order.
pub open spec fn received<R>(events: Seq<WriterEvent<R>>) -> Seq<R>
    decreases events.len(),
{
    if events.len() == 0 {
        Seq::empty()
    } else {
        match events.last() {
            WriterEvent::WriteResults(r) => received(events.drop_last()).push(r),
            _ => received(events.drop_last()),
        }
    }
}

/// The contents of the batches, one after the other.
pub open spec fn contents<R>(batches: Seq<Written<R>>) -> Seq<R>
    decreases batches.len(),
{
    if batches.len() == 0 {
        Seq::empty()
    } else {
        contents(batches.drop_last()) + batches.last().results
    }
}

proof fn lemma_contents_push<R>(batches: Seq<Written<R>>, last: Written<R>)
    ensures
        contents(batches.push(last)) == contents(batches) + last.results,
{
    assert(batches.push(last).drop_last() =~= batches);
}

/// Nothing is lost, repeated or reordered: what has been written, followed by what still
/// waits, is exactly what came in.
pub proof fn law_nothing_lost<R>(batch_size: int, events: Seq<WriterEvent<R>>)
    ensures
        ({
            let init = WriterState { batch: Seq::<R>::empty(), batch_num: 0, batch_size };
            contents(written_by(init, events)) + after_events(init, events).batch == received(
                events,
            )
        }),
    decreases events.len(),
{
    let init = WriterState { batch: Seq::<R>::empty(), batch_num: 0, batch_size };
    if events.len() > 0 {
        let rest = events.drop_last();
        let event = events.last();
        law_nothing_lost(batch_size, rest);
        let st = after_events(init, rest);
        let before = written_by(init, rest);
        if st.writes(event) {
            let batch = Written { results: st.waiting(event), batch_num: st.batch_num };
            assert(written_by(init, events) =~= before.push(batch));
            lemma_contents_push(before, batch);
        } else {
            assert(written_by(init, events) =~= before);
        }
        assert(contents(written_by(init, events)) + after_events(init, events).batch =~= received(
            events,
        ));
    } else {
        assert(contents(written_by(init, events)) + after_events(init, events).batch =~= received(
            events,
        ));
    }
}

/// After the last event nothing waits: everything that came in has been written.
pub proof fn law_all_written_at_the_end<R>(batch_size: int, events: Seq<WriterEvent<R>>)
    requires
        events.len() > 0,
        is_last(events.last()),
    ensures
        ({
            let init = WriterState { batch: Seq::<R>::empty(), batch_num: 0, batch_size };
            contents(written_by(init, events)) == received(events)
        }),
{
    let init = WriterState { batch: Seq::<R>::empty(), batch_num: 0, batch_size };
    law_nothing_lost(batch_size, events);
    let st = after_events(init, events);
    assert(st.batch =~= Seq::<R>::empty());
    assert(contents(written_by(init, events)) + st.batch =~= contents(written_by(init, events)));
}

/// Batches are numbered 0, 1, 2, ... without gaps, none is empty, and none is larger than the
/// batch size (a batch size of 0 writes every result on its own).
pub proof fn law_batches_numbered_and_bounded<R>(
    batch_size: int,
    events: Seq<WriterEvent<R>>,
    k: int,
)
    requires
        batch_size >= 0,
    ensures
        ({
            let init = WriterState { batch: Seq::<R>::empty(), batch_num: 0, batch_size };
            let written = written_by(init, events);
            &&& after_events(init, events).batch_num == written.len()
            &&& 0 <= k < written.len() ==> {
                &&& written[k].batch_num == k
                &&& written[k].results.len() > 0
                &&& written[k].results.len() <= if batch_size > 1 {
                    batch_size
                } else {
                    1
                }
            }
        }),
    decreases events.len(),
{
    let init = WriterState { batch: Seq::<R>::empty(), batch_num: 0, batch_size };
    lemma_batch_short(batch_size, events);
    if events.len() > 0 {
        let rest = events.drop_last();
        law_batches_numbered_and_bounded(batch_size, rest, k);
        lemma_batch_short(batch_size, rest);
    }
}

/// What waits never makes a full batch.
proof fn lemma_batch_short<R>(batch_size: int, events: Seq<WriterEvent<R>>)
    requires
        batch_size >= 0,
    ensures
        ({
            let init = WriterState { batch: Seq::<R>::empty(), batch_num: 0, batch_size };
            let st = after_events(init, events);
            st.batch_size == batch_size && (st.batch.len() == 0 || st.batch.len() < batch_size)
        }),
    decreases events.len(),
{
    if events.len() > 0 {
        lemma_batch_short(batch_size, events.drop_last());
    }
}

} // verus!
