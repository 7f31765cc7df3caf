//! Several recorded files, one after the other.
//!
//! The files are opened elsewhere: the source says which file it needs next, and
//! is told what came of it.
use vstd::prelude::*;

use super::data_source::DataSource;
use super::parquet_source::ParquetDataSource;
use crate::types::MarketEvent;

verus! {

/// What a source of several files needs or gives.
#[derive(Debug, Clone, Copy, PartialEq, Eq, Structural)]
pub enum SourceStep {
    /// The next event.
    Event(MarketEvent),
    /// Open this file, and report back.
    OpenFile(usize),
    /// Every file is exhausted.
    Done,
}

/// The source as a mathematical value.
#[verifier::ext_equal]
pub struct MultiDayModel {
    pub file_count: usize,
    /// The events left in the open file.
    pub current: Seq<MarketEvent>,
    /// The file to open next.
    pub file_index: usize,
    pub total_events: usize,
    pub files_processed: usize,
    pub files_skipped: usize,
    /// The time of the last event.
    pub last_ts: u64,
}

impl MultiDayModel {
    pub open spec fn can_poll(self) -> bool {
        self.current.len() > 0 ==> self.total_events < usize::MAX
    }

    pub open spec fn step(self) -> SourceStep {
        if self.current.len() > 0 {
            SourceStep::Event(self.current[0])
        } else if self.file_index < self.file_count {
            SourceStep::OpenFile(self.file_index)
        } else {
            SourceStep::Done
        }
    }

    pub open spec fn after_step(self) -> MultiDayModel {
        match self.step() {
            SourceStep::Event(event) => MultiDayModel {
                current: self.current.drop_first(),
                total_events: (self.total_events + 1) as usize,
                last_ts: event.timestamp.nanos,
                ..self
            },
            SourceStep::OpenFile(index) => MultiDayModel {
                file_index: (index + 1) as usize,
                ..self
            },
            SourceStep::Done => self,
        }
    }

    /// The source once it was told of the file it asked for: the events of a file
    /// that was opened, nothing of one that was not.
    pub open spec fn answered(self, file: Option<Seq<MarketEvent>>) -> MultiDayModel {
        match file {
            Some(events) => MultiDayModel {
                current: events,
                files_processed: (self.files_processed + 1) as usize,
                ..self
            },
            None => MultiDayModel {
                files_skipped: (self.files_skipped + 1) as usize,
                ..self
            },
        }
    }

    /// The events that come when the source is stepped to its end and told of
    /// each file that it asks for.
    pub open spec fn played(self, files: Seq<Option<Seq<MarketEvent>>>) -> Seq<MarketEvent>
        decreases self.file_count - self.file_index, self.current.len(),
    {
        match self.step() {
            SourceStep::Event(event) => seq![event] + self.after_step().played(files),
            SourceStep::OpenFile(index) => self.after_step().answered(
                files[index as int],
            ).played(files),
            SourceStep::Done => Seq::empty(),
        }
    }
}

/// The events of the files that could be opened, file after file.
pub open spec fn events_of(files: Seq<Option<Seq<MarketEvent>>>) -> Seq<MarketEvent>
    decreases files.len(),
{
    if files.len() == 0 {
        Seq::empty()
    } else {
        (match files[0] {
            Some(events) => events,
            None => Seq::empty(),
        }) + events_of(files.drop_first())
    }
}

/// Recorded files in chronological order.
pub struct MultiDayDataSource {
    file_count: usize,
    current_source: Option<ParquetDataSource>,
    file_index: usize,
    total_events: usize,
    files_processed: usize,
    files_skipped: usize,
    last_ts: u64,
}

impl View for MultiDayDataSource {
    type V = MultiDayModel;

    closed spec fn view(&self) -> MultiDayModel {
        MultiDayModel {
            file_count: self.file_count,
            current: match self.current_source {
                Some(source) => source.upcoming(),
                None => Seq::empty(),
            },
            file_index: self.file_index,
            total_events: self.total_events,
            files_processed: self.files_processed,
            files_skipped: self.files_skipped,
            last_ts: self.last_ts,
        }
    }
}

impl MultiDayDataSource {
    /// A source of so many files, none of them open.
    pub fn new(file_count: usize) -> (r: Self)
        ensures
            r@ == (MultiDayModel {
                file_count,
                current: Seq::empty(),
                file_index: 0,
                total_events: 0,
                files_processed: 0,
                files_skipped: 0,
                last_ts: 0,
            }),
    {
        MultiDayDataSource {
            file_count,
            current_source: None,
            file_index: 0,
            total_events: 0,
            files_processed: 0,
            files_skipped: 0,
            last_ts: 0,
        }
    }

    /// The next event of the open file, else the next file to open, else the end.
    pub fn next_step(&mut self) -> (r: SourceStep)
        requires
            old(self)@.can_poll(),
        ensures
            r == old(self)@.step(),
            final(self)@ == old(self)@.after_step(),
    {
        match self.current_source.take() {
            Some(open) => {
                let mut source = open;
                let next = source.next_event();
                self.current_source = Some(source);
                if let Some(event) = next {
                    self.last_ts = event.timestamp.nanos;
                    self.total_events = self.total_events + 1;
                    return SourceStep::Event(event);
                }
            },
            None => {},
        }
        if self.file_index < self.file_count {
            let index: usize = self.file_index;
            self.file_index = index + 1;
            SourceStep::OpenFile(index)
        } else {
            SourceStep::Done
        }
    }

    /// The file asked for was opened.
    pub fn file_opened(&mut self, source: ParquetDataSource)
        requires
            old(self)@.files_processed < usize::MAX,
        ensures
            final(self)@ == old(self)@.answered(Some(source.upcoming())),
    {
        self.current_source = Some(source);
        self.files_processed = self.files_processed + 1;
    }

    /// The file asked for could not be opened; it is passed over.
    pub fn file_failed(&mut self)
        requires
            old(self)@.files_skipped < usize::MAX,
        ensures
            final(self)@ == old(self)@.answered(None),
    {
        self.files_skipped = self.files_skipped + 1;
    }

    /// Goes back to before the first file.
    pub fn reset(&mut self)
        ensures
            final(self)@ == (MultiDayModel {
                file_count: old(self)@.file_count,
                current: Seq::empty(),
                file_index: 0,
                total_events: 0,
                files_processed: 0,
                files_skipped: 0,
                last_ts: 0,
            }),
    {
        self.current_source = None;
        self.file_index = 0;
        self.total_events = 0;
        self.files_processed = 0;
        self.files_skipped = 0;
        self.last_ts = 0;
    }

    pub fn event_count(&self) -> (r: usize)
        ensures
            r == self@.total_events,
    {
        self.total_events
    }

    pub fn file_count(&self) -> (r: usize)
        ensures
            r == self@.file_count,
    {
        self.file_count
    }

    pub fn files_processed(&self) -> (r: usize)
        ensures
            r == self@.files_processed,
    {
        self.files_processed
    }

    pub fn files_skipped(&self) -> (r: usize)
        ensures
            r == self@.files_skipped,
    {
        self.files_skipped
    }
}

/// Each file is asked for once, in order, and only after the one before it is
/// exhausted.
pub proof fn files_come_in_order(model: MultiDayModel, index: usize)
    requires
        model.step() == SourceStep::OpenFile(index),
    ensures
        index == model.file_index,
        model.current.len() == 0,
        model.after_step().file_index == index + 1,
{
}

/// Stepped to its end, the source gives the rest of the open file and then every
/// event of every file that could be opened: in the order of the files, each once.
pub proof fn every_file_is_played(model: MultiDayModel, files: Seq<Option<Seq<MarketEvent>>>)
    requires
        files.len() == model.file_count,
        model.file_index <= model.file_count,
    ensures
        model.played(files) == model.current + events_of(files.skip(model.file_index as int)),
    decreases model.file_count - model.file_index, model.current.len(),
{
    let rest = files.skip(model.file_index as int);
    match model.step() {
        SourceStep::Event(event) => {
            let next = model.after_step();
            every_file_is_played(next, files);
            assert(seq![event] + (next.current + events_of(rest)) =~= model.current + events_of(
                rest,
            ));
        },
        SourceStep::OpenFile(index) => {
            let next = model.after_step().answered(files[index as int]);
            every_file_is_played(next, files);
            assert(rest[0] == files[index as int]);
            assert(rest.drop_first() =~= files.skip(index + 1));
            assert(model.current =~= Seq::<MarketEvent>::empty());
            assert(model.played(files) =~= model.current + events_of(rest));
        },
        SourceStep::Done => {
            assert(rest =~= Seq::<Option<Seq<MarketEvent>>>::empty());
            assert(model.current + events_of(rest) =~= Seq::<MarketEvent>::empty());
        },
    }
}

/// The events of the open file come first, one at a time; once they are through,
/// the next file is asked for, and after the last file nothing more comes.
pub proof fn files_are_played_event_by_event(model: MultiDayModel)
    requires
        model.can_poll(),
        model.file_index <= model.file_count,
    ensures
        ({
            let after = model.after_step();
            &&& model.current.len() > 0 ==> {
                &&& model.step() == SourceStep::Event(model.current[0])
                &&& seq![model.current[0]] + after.current == model.current
                &&& after.total_events == model.total_events + 1
                &&& after.last_ts == model.current[0].timestamp.nanos
                &&& after.file_index == model.file_index
                &&& after.files_processed == model.files_processed
                &&& after.files_skipped == model.files_skipped
            }
            &&& model.current.len() == 0 && model.file_index < model.file_count ==> {
                &&& model.step() == SourceStep::OpenFile(model.file_index)
                &&& after.file_index == model.file_index + 1
                &&& after.current == model.current
                &&& after.total_events == model.total_events
                &&& after.last_ts == model.last_ts
            }
            &&& model.current.len() == 0 && model.file_index == model.file_count ==> model.step()
                == SourceStep::Done && after == model
            &&& after.file_count == model.file_count
        }),
{
    if model.current.len() > 0 {
        assert(seq![model.current[0]] + model.current.drop_first() =~= model.current);
    }
}

/// A file that could be read becomes the open one and counts as processed; one that
/// could not counts as skipped and changes nothing else.
pub proof fn files_count_as_read_or_skipped(model: MultiDayModel, file: Option<Seq<MarketEvent>>)
    requires
        model.files_processed < usize::MAX,
        model.files_skipped < usize::MAX,
    ensures
        ({
            let after = model.answered(file);
            &&& file matches Some(events) ==> after.current == events
            &&& file is None ==> after.current == model.current
            &&& file is Some ==> after.files_processed == model.files_processed + 1
                && after.files_skipped == model.files_skipped
            &&& file is None ==> after.files_processed == model.files_processed
                && after.files_skipped == model.files_skipped + 1
            &&& after.file_index == model.file_index
            &&& after.file_count == model.file_count
            &&& after.total_events == model.total_events
            &&& after.last_ts == model.last_ts
        }),
{
}

/// The events of several files are those of the first and then those of the rest; a
/// file that could not be read has none.
pub proof fn files_follow_each_other(
    first: Option<Seq<MarketEvent>>,
    rest: Seq<Option<Seq<MarketEvent>>>,
)
    ensures
        events_of(Seq::empty()).len() == 0,
        first matches Some(events) ==> events_of(seq![first] + rest) == events + events_of(rest),
        first is None ==> events_of(seq![first] + rest) == events_of(rest),
{
    let files = seq![first] + rest;
    assert(files.drop_first() =~= rest);
    assert(files[0] == first);
    assert(Seq::<MarketEvent>::empty() + events_of(rest) =~= events_of(rest));
}

} // verus!
