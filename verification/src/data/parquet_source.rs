//! The events of one recorded file.
use vstd::prelude::*;

use super::data_source::DataSource;
use crate::persistence::parquet_writer::MarketColumns;
use crate::types::MarketEvent;

verus! {

/// The events of a batch; none where it could not be read.
pub open spec fn batch_events(batch: Option<MarketColumns>) -> Seq<MarketEvent> {
    match batch {
        Some(columns) => Seq::new(columns.timestamps@.len(), |i: int| columns.row_event(i)),
        None => Seq::empty(),
    }
}

/// The events of one file, loaded batch by batch.
pub struct ParquetDataSource {
    events: Vec<MarketEvent>,
    cursor: usize,
    skipped: usize,
}

impl ParquetDataSource {
    /// How many events have been handed out.
    pub closed spec fn position(&self) -> nat {
        self.cursor as nat
    }

    pub closed spec fn skipped_batches(&self) -> nat {
        self.skipped as nat
    }

    /// A source without any batch yet.
    pub fn new() -> (r: Self)
        ensures
            r.wf(),
            r.recording() == Seq::<MarketEvent>::empty(),
            r.upcoming() == Seq::<MarketEvent>::empty(),
            r.position() == 0,
            r.skipped_batches() == 0,
    {
        ParquetDataSource { events: Vec::new(), cursor: 0, skipped: 0 }
    }

    /// Adds the next batch of the file. One that could not be read, or lacks a
    /// column, is skipped and counted.
    pub fn add_batch(&mut self, batch: Option<MarketColumns>)
        requires
            old(self).wf(),
            old(self).skipped_batches() < usize::MAX,
            batch matches Some(columns) ==> columns.has_rows(columns.timestamps@.len()),
        ensures
            final(self).wf(),
            final(self).position() == old(self).position(),
            final(self).recording() == old(self).recording() + batch_events(batch),
            final(self).upcoming() == old(self).upcoming() + batch_events(batch),
            final(self).skipped_batches() == old(self).skipped_batches() + if batch is None {
                1nat
            } else {
                0
            },
    {
        let ghost start = *self;
        match batch {
            Some(columns) => {
                let mut events = columns.decode();
                self.events.append(&mut events);
            },
            None => {
                self.skipped = self.skipped + 1;
            },
        }
        assert(self.recording() =~= start.recording() + batch_events(batch));
        assert(self.upcoming() =~= start.upcoming() + batch_events(batch));
    }

    /// How many batches were skipped.
    pub fn skipped(&self) -> (r: usize)
        ensures
            r == self.skipped_batches(),
    {
        self.skipped
    }
}

impl DataSource for ParquetDataSource {
    closed spec fn upcoming(&self) -> Seq<MarketEvent> {
        if self.cursor <= self.events@.len() {
            self.events@.subrange(self.cursor as int, self.events@.len() as int)
        } else {
            Seq::empty()
        }
    }

    closed spec fn recording(&self) -> Seq<MarketEvent> {
        self.events@
    }

    /// The cursor is within the events.
    closed spec fn wf(&self) -> bool {
        self.cursor <= self.events@.len()
    }

    fn next_event(&mut self) -> (r: Option<MarketEvent>)
        ensures
            final(self).position() == old(self).position() + if r is Some {
                1nat
            } else {
                0
            },
            final(self).skipped_batches() == old(self).skipped_batches(),
    {
        if self.cursor < self.events.len() {
            let event = self.events[self.cursor];
            self.cursor = self.cursor + 1;
            assert(self.upcoming() =~= old(self).upcoming().drop_first());
            Some(event)
        } else {
            None
        }
    }

    fn reset(&mut self)
        ensures
            final(self).position() == 0,
            final(self).skipped_batches() == old(self).skipped_batches(),
    {
        self.cursor = 0;
        assert(self.upcoming() =~= self.events@);
    }

    fn event_count(&self) -> (r: usize)
        ensures
            r == self.position(),
    {
        self.cursor
    }
}

/// A batch has one event for each of its rows, in their order; a batch that could not
/// be read has none.
pub proof fn batches_have_an_event_for_each_row(batch: Option<MarketColumns>, i: int)
    ensures
        batch is None ==> batch_events(batch).len() == 0,
        batch matches Some(columns) ==> batch_events(batch).len() == columns.timestamps@.len(),
        batch matches Some(columns) ==> (0 <= i < columns.timestamps@.len() ==> batch_events(
            batch,
        )[i] == columns.row_event(i)),
{
}

} // verus!
