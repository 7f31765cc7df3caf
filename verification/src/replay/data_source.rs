//! Recorded files as replay input, and the check of their columns.
use vstd::prelude::*;

use crate::data::multi_day_source::{MultiDayDataSource, MultiDayModel, SourceStep};
use crate::data::parquet_source::ParquetDataSource;
use crate::data::data_source::DataSource;
use crate::text::str_eq;

verus! {

/// Type of a column, as far as replay cares.
#[derive(Debug, Clone, Copy, PartialEq, Eq, Structural)]
pub enum ColumnType {
    Int8,
    Int64,
    UInt32,
    Other,
}

/// A column of a file.
#[derive(Debug)]
pub struct ColumnInfo {
    pub name: String,
    pub data_type: ColumnType,
}

/// What is wrong with the columns of a file.
#[derive(Debug)]
pub enum SchemaError {
    MissingColumn(String),
    WrongColumnType(String, ColumnType, ColumnType),
}

/// How many columns are expected.
pub const EXPECTED_COLUMN_COUNT: usize = 6;

/// The name of an expected column.
pub open spec fn expected_name(i: int) -> Seq<char> {
    if i == 0 {
        "timestamp"@
    } else if i == 1 {
        "price"@
    } else if i == 2 {
        "size"@
    } else if i == 3 {
        "side"@
    } else if i == 4 {
        "event_type"@
    } else {
        "symbol_id"@
    }
}

/// The type of an expected column.
pub open spec fn expected_type(i: int) -> ColumnType {
    if i == 0 || i == 1 {
        ColumnType::Int64
    } else if i == 2 || i == 5 {
        ColumnType::UInt32
    } else {
        ColumnType::Int8
    }
}

fn expected_column(i: usize) -> (r: (&'static str, ColumnType))
    requires
        i < EXPECTED_COLUMN_COUNT,
    ensures
        r.0@ == expected_name(i as int),
        r.1 == expected_type(i as int),
{
    match i {
        0 => ("timestamp", ColumnType::Int64),
        1 => ("price", ColumnType::Int64),
        2 => ("size", ColumnType::UInt32),
        3 => ("side", ColumnType::Int8),
        4 => ("event_type", ColumnType::Int8),
        _ => ("symbol_id", ColumnType::UInt32),
    }
}

/// The type of the first column with this name.
pub open spec fn type_of_column(columns: Seq<ColumnInfo>, name: Seq<char>) -> Option<ColumnType>
    decreases columns.len(),
{
    if columns.len() == 0 {
        None
    } else if columns[0].name@ == name {
        Some(columns[0].data_type)
    } else {
        type_of_column(columns.drop_first(), name)
    }
}

fn find_column(columns: &Vec<ColumnInfo>, name: &str) -> (r: Option<ColumnType>)
    ensures
        r == type_of_column(columns@, name@),
{
    let mut i: usize = 0;
    assert(columns@.skip(0) =~= columns@);
    while i < columns.len()
        invariant
            i <= columns@.len(),
            type_of_column(columns@, name@) == type_of_column(columns@.skip(i as int), name@),
        decreases columns@.len() - i,
    {
        assert(columns@.skip(i as int).drop_first() =~= columns@.skip(i + 1));
        if str_eq(columns[i].name.as_str(), name) {
            return Some(columns[i].data_type);
        }
        i += 1;
    }
    None
}

/// Whether an expected column is there with its type.
pub open spec fn column_ok(columns: Seq<ColumnInfo>, i: int) -> bool {
    type_of_column(columns, expected_name(i)) == Some(expected_type(i))
}

/// What is reported of the first expected column that is not as it should be.
pub open spec fn complaint_of(error: SchemaError, columns: Seq<ColumnInfo>, i: int) -> bool {
    match error {
        SchemaError::MissingColumn(name) => type_of_column(columns, expected_name(i)) is None
            && name@ == expected_name(i),
        SchemaError::WrongColumnType(name, found, expected) => type_of_column(
            columns,
            expected_name(i),
        ) == Some(found) && found != expected && expected == expected_type(i) && name@
            == expected_name(i),
    }
}

/// Checks that a file has every column that replay reads, with its type.
pub fn validate_schema(columns: &Vec<ColumnInfo>) -> (r: Result<(), SchemaError>)
    ensures
        r is Ok <==> forall|i: int| 0 <= i < EXPECTED_COLUMN_COUNT ==> #[trigger] column_ok(
            columns@,
            i,
        ),
        r matches Err(error) ==> exists|i: int|
            0 <= i < EXPECTED_COLUMN_COUNT && #[trigger] complaint_of(error, columns@, i) && (
            forall|j: int| 0 <= j < i ==> #[trigger] column_ok(columns@, j)),
{
    let mut i: usize = 0;
    while i < EXPECTED_COLUMN_COUNT
        invariant
            i <= EXPECTED_COLUMN_COUNT,
            forall|j: int| 0 <= j < i ==> #[trigger] column_ok(columns@, j),
        decreases EXPECTED_COLUMN_COUNT - i,
    {
        let (name, expected) = expected_column(i);
        match find_column(columns, name) {
            None => {
                let error = SchemaError::MissingColumn(name.to_owned());
                proof {
                    assert(!column_ok(columns@, i as int));
                    assert(complaint_of(error, columns@, i as int));
                }
                return Err(error);
            },
            Some(found) => {
                if found != expected {
                    let error = SchemaError::WrongColumnType(name.to_owned(), found, expected);
                    proof {
                        assert(!column_ok(columns@, i as int));
                        assert(complaint_of(error, columns@, i as int));
                    }
                    return Err(error);
                }
            },
        }
        assert(column_ok(columns@, i as int));
        i += 1;
    }
    Ok(())
}

/// Replay input from one or several files.
pub struct ParquetReplaySource {
    files: MultiDayDataSource,
}

impl View for ParquetReplaySource {
    type V = MultiDayModel;

    closed spec fn view(&self) -> MultiDayModel {
        self.files@
    }
}

impl ParquetReplaySource {
    /// Input from so many files, none of them open.
    pub fn open(file_count: usize) -> (r: Self)
        ensures
            r@ == (MultiDayModel {
                file_count,
                current: Seq::empty(),
                file_index: 0,
                total_events: 0,
                files_processed: 0,
                files_skipped: 0,
                last_ts: 0,
            }),
    {
        ParquetReplaySource { files: MultiDayDataSource::new(file_count) }
    }

    /// The next event, else the next file to open, else the end.
    pub fn next_step(&mut self) -> (r: SourceStep)
        requires
            old(self)@.can_poll(),
        ensures
            r == old(self)@.step(),
            final(self)@ == old(self)@.after_step(),
    {
        self.files.next_step()
    }

    /// The file asked for was opened.
    pub fn file_opened(&mut self, source: ParquetDataSource)
        requires
            old(self)@.files_processed < usize::MAX,
        ensures
            final(self)@ == old(self)@.answered(Some(source.upcoming())),
    {
        self.files.file_opened(source)
    }

    /// The file asked for could not be opened; it is passed over.
    pub fn file_failed(&mut self)
        requires
            old(self)@.files_skipped < usize::MAX,
        ensures
            final(self)@ == old(self)@.answered(None),
    {
        self.files.file_failed()
    }

    /// Goes back to before the first file.
    pub fn reset(&mut self)
        ensures
            final(self)@ == (MultiDayModel {
                file_count: old(self)@.file_count,
                current: Seq::empty(),
                file_index: 0,
                total_events: 0,
                files_processed: 0,
                files_skipped: 0,
                last_ts: 0,
            }),
    {
        self.files.reset()
    }

    pub fn events_emitted(&self) -> (r: usize)
        ensures
            r == self@.total_events,
    {
        self.files.event_count()
    }

    pub fn file_count(&self) -> (r: usize)
        ensures
            r == self@.file_count,
    {
        self.files.file_count()
    }
}

/// A recording has six columns: time and price as whole numbers of eight bytes, size
/// and symbol as unsigned ones of four, side and kind of event as one byte each.
pub proof fn recordings_have_six_columns()
    ensures
        expected_name(0) == "timestamp"@ && expected_type(0) == ColumnType::Int64,
        expected_name(1) == "price"@ && expected_type(1) == ColumnType::Int64,
        expected_name(2) == "size"@ && expected_type(2) == ColumnType::UInt32,
        expected_name(3) == "side"@ && expected_type(3) == ColumnType::Int8,
        expected_name(4) == "event_type"@ && expected_type(4) == ColumnType::Int8,
        expected_name(5) == "symbol_id"@ && expected_type(5) == ColumnType::UInt32,
{
}

/// The type of a column is that of the first column of its name; a name that no
/// column has is missing.
pub proof fn the_first_column_of_a_name_counts(
    columns: Seq<ColumnInfo>,
    name: Seq<char>,
    at: int,
)
    ensures
        type_of_column(columns, name) is None <==> forall|i: int|
            0 <= i < columns.len() ==> (#[trigger] columns[i]).name@ != name,
        0 <= at < columns.len() && columns[at].name@ == name && (forall|i: int|
            0 <= i < at ==> (#[trigger] columns[i]).name@ != name) ==> type_of_column(columns, name)
            == Some(columns[at].data_type),
    decreases columns.len(),
{
    if columns.len() > 0 {
        let rest = columns.drop_first();
        the_first_column_of_a_name_counts(rest, name, at - 1);
        assert(forall|i: int| 0 <= i < rest.len() ==> rest[i] == columns[i + 1]);
        if columns[0].name@ != name {
            if type_of_column(rest, name) is None {
                assert forall|i: int| 0 <= i < columns.len() implies (#[trigger] columns[i]).name@
                    != name by {
                    if i > 0 {
                        assert(rest[i - 1].name@ != name);
                    }
                }
            } else {
                let i = choose|i: int| 0 <= i < rest.len() && (#[trigger] rest[i]).name@ == name;
                assert(columns[i + 1].name@ == name);
            }
            if 0 < at < columns.len() && columns[at].name@ == name && (forall|i: int|
                0 <= i < at ==> (#[trigger] columns[i]).name@ != name) {
                assert(rest[at - 1] == columns[at]);
                assert forall|i: int| 0 <= i < at - 1 implies (#[trigger] rest[i]).name@ != name by {
                    assert(columns[i + 1].name@ != name);
                }
            }
        }
    }
}

/// A column is in order exactly when it is there with the type expected of it; the
/// complaint about one that is not names it, and the type found where there is one.
pub proof fn complaints_name_the_column(error: SchemaError, columns: Seq<ColumnInfo>, i: int)
    ensures
        column_ok(columns, i) <==> type_of_column(columns, expected_name(i)) == Some(
            expected_type(i),
        ),
        complaint_of(error, columns, i) ==> !column_ok(columns, i),
        complaint_of(error, columns, i) ==> match error {
            SchemaError::MissingColumn(name) => name@ == expected_name(i) && type_of_column(
                columns,
                name@,
            ) is None,
            SchemaError::WrongColumnType(name, found, expected) => name@ == expected_name(i)
                && expected == expected_type(i) && type_of_column(columns, name@) == Some(found),
        },
{
}

} // verus!
