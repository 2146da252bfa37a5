//! Recording samples as a table with one row for each sample.

use std::collections::HashMap;
use vstd::prelude::*;
use crate::number::{decimal, lemma_unsigned_round_trip, to_decimal};
use crate::text::string_texts;

verus! {

/// The device's number of channel A.
pub const CHANNEL_A: u64 = 0;

/// The device's number of channel B.
pub const CHANNEL_B: u64 = 1;

/// Neither channel is to be recorded.
#[derive(Clone, Copy, Debug, PartialEq, Eq, Structural)]
pub struct NoChannel;

impl NoChannel {
    /// The error in words.
    pub fn message(self) -> (r: &'static str)
        ensures
            r@ == "At least one channel must be enabled"@,
    {
        "At least one channel must be enabled"
    }
}

/// One sample, as it is to be written.
pub struct Sample {
    /// The time since the start in seconds.
    pub time: String,
    /// The values by channel.
    pub values: HashMap<u64, String>,
}

/// A recording: its columns of values, and how many rows it has.
pub struct Recorder {
    /// The channels, in the order of their columns.
    pub columns: Vec<u64>,
    pub sample_count: usize,
}

/// Whether to go on recording, some milliseconds after the start, for a duration in seconds.
pub fn keep_recording(elapsed_ms: u64, duration_s: u64) -> (r: bool)
    ensures
        r == (elapsed_ms < duration_s * 1000),
{
    (elapsed_ms as u128) < duration_s as u128 * 1000
}

/// The channels that are recorded, in the order of their columns.
pub open spec fn columns_of(channel_a: bool, channel_b: bool) -> Seq<u64> {
    (if channel_a {
        seq![CHANNEL_A]
    } else {
        seq![]
    }) + (if channel_b {
        seq![CHANNEL_B]
    } else {
        seq![]
    })
}

/// The title of a channel's column.
pub open spec fn title(channel: u64) -> Seq<char> {
    if channel == CHANNEL_A {
        "Channel A (V)"@
    } else {
        "Channel B (V)"@
    }
}

/// The titles of all columns.
pub open spec fn titles(columns: Seq<u64>) -> Seq<Seq<char>> {
    seq!["Time (s)"@, "Sample #"@] + Seq::new(columns.len(), |i: int| title(columns[i]))
}

/// The values of the first `n` columns; a channel without a value has no column.
pub open spec fn row_values(columns: Seq<u64>, values: Map<u64, String>, n: nat) -> Seq<Seq<char>>
    decreases n,
{
    if n == 0 {
        Seq::empty()
    } else {
        let before = row_values(columns, values, (n - 1) as nat);
        if values.dom().contains(columns[n - 1]) {
            before.push(values[columns[n - 1]]@)
        } else {
            before
        }
    }
}

/// One row: the time, the number of the sample and its values.
pub open spec fn row(
    columns: Seq<u64>,
    sample: nat,
    time: Seq<char>,
    values: Map<u64, String>,
) -> Seq<Seq<char>> {
    seq![time, decimal(sample)] + row_values(columns, values, columns.len())
}

/// The rows of samples that arrived together, the first of them with the number `first`.
pub open spec fn event_rows(columns: Seq<u64>, first: nat, samples: Seq<Sample>) -> Seq<
    Seq<Seq<char>>,
> {
    Seq::new(
        samples.len(),
        |i: int| row(columns, (first + i) as nat, samples[i].time@, samples[i].values@),
    )
}

/// The texts in rows.
pub open spec fn row_texts(rows: Seq<Vec<String>>) -> Seq<Seq<Seq<char>>> {
    Seq::new(rows.len(), |i: int| string_texts(rows[i]@))
}

impl Recorder {
    /// A recording without rows, of the channels that are enabled.
    pub fn new(channel_a: bool, channel_b: bool) -> (r: Result<Recorder, NoChannel>)
        ensures
            r is Ok == (channel_a || channel_b),
            r matches Ok(recorder) ==> recorder.columns@ == columns_of(channel_a, channel_b)
                && recorder.sample_count == 0,
    {
        if !channel_a && !channel_b {
            return Err(NoChannel);
        }
        let mut columns: Vec<u64> = Vec::new();
        if channel_a {
            columns.push(CHANNEL_A);
        }
        if channel_b {
            columns.push(CHANNEL_B);
        }
        assert(columns@ == columns_of(channel_a, channel_b));
        Ok(Recorder { columns, sample_count: 0 })
    }

    /// The titles of the columns.
    pub fn header(&self) -> (r: Vec<String>)
        ensures
            string_texts(r@) == titles(self.columns@),
    {
        let mut list: Vec<String> = Vec::new();
        list.push(String::from_str("Time (s)"));
        list.push(String::from_str("Sample #"));
        let mut i: usize = 0;
        while i < self.columns.len()
            invariant
                i <= self.columns@.len(),
                list@.len() == i + 2,
                list@[0]@ == "Time (s)"@,
                list@[1]@ == "Sample #"@,
                forall|j: int|
                    0 <= j < i ==> (#[trigger] list@[j + 2])@ == title(self.columns@[j]),
            decreases self.columns@.len() - i,
        {
            if self.columns[i] == CHANNEL_A {
                list.push(String::from_str("Channel A (V)"));
            } else {
                list.push(String::from_str("Channel B (V)"));
            }
            i = i + 1;
        }
        proof {
            let all = titles(self.columns@);
            assert forall|k: int| 0 <= k < all.len() implies string_texts(list@)[k] == all[k] by {
                if k >= 2 {
                    assert(list@[(k - 2) + 2]@ == title(self.columns@[k - 2]));
                }
            }
            assert(string_texts(list@) == all);
        }
        list
    }

    /// The next row. `time` is the time since the start in seconds, and `values` the values of
    /// the sample by channel, all as they are to be written.
    pub fn next_row(&mut self, time: &str, values: &HashMap<u64, String>) -> (r: Vec<String>)
        requires
            old(self).sample_count < usize::MAX,
        ensures
            final(self).columns@ == old(self).columns@,
            final(self).sample_count == old(self).sample_count + 1,
            string_texts(r@) == row(
                old(self).columns@,
                old(self).sample_count as nat,
                time@,
                values@,
            ),
    {
        let ghost columns = self.columns@;
        let mut list: Vec<String> = Vec::new();
        list.push(String::from_str(time));
        list.push(to_decimal(self.sample_count as u128));
        let ghost head = seq![time@, decimal(self.sample_count as nat)];
        let mut i: usize = 0;
        assert(string_texts(list@) == head + row_values(columns, values@, 0));
        while i < self.columns.len()
            invariant
                i <= self.columns@.len(),
                columns == self.columns@,
                string_texts(list@) == head + row_values(columns, values@, i as nat),
            decreases self.columns@.len() - i,
        {
            let channel = self.columns[i];
            let ghost before = string_texts(list@);
            if let Some(value) = values.get(&channel) {
                list.push(String::from_str(value.as_str()));
                assert(string_texts(list@) == before.push(value@));
            }
            assert(string_texts(list@) == head + row_values(columns, values@, (i + 1) as nat));
            i = i + 1;
        }
        self.sample_count = self.sample_count + 1;
        list
    }

    /// The rows of samples that arrived together.
    pub fn rows(&mut self, samples: &Vec<Sample>) -> (r: Vec<Vec<String>>)
        requires
            old(self).sample_count + samples@.len() <= usize::MAX,
        ensures
            final(self).columns@ == old(self).columns@,
            final(self).sample_count == old(self).sample_count + samples@.len(),
            row_texts(r@) == event_rows(
                old(self).columns@,
                old(self).sample_count as nat,
                samples@,
            ),
    {
        let ghost columns = self.columns@;
        let ghost first = self.sample_count as nat;
        let mut list: Vec<Vec<String>> = Vec::new();
        let mut i: usize = 0;
        while i < samples.len()
            invariant
                i <= samples@.len(),
                first + samples@.len() <= usize::MAX,
                self.columns@ == columns,
                self.sample_count == first + i,
                list@.len() == i,
                forall|j: int|
                    0 <= j < i ==> string_texts((#[trigger] list@[j])@) == row(
                        columns,
                        (first + j) as nat,
                        samples@[j].time@,
                        samples@[j].values@,
                    ),
            decreases samples@.len() - i,
        {
            let sample = &samples[i];
            list.push(self.next_row(sample.time.as_str(), &sample.values));
            i = i + 1;
        }
        assert(row_texts(list@) == event_rows(columns, first, samples@));
        list
    }
}

/// How many samples arrived.
pub open spec fn sample_total(events: Seq<Seq<Sample>>) -> nat
    decreases events.len(),
{
    if events.len() == 0 {
        0
    } else {
        sample_total(events.drop_last()) + events.last().len()
    }
}

/// All rows of a recording: those of each event, counted on from the events before it.
pub open spec fn all_rows(columns: Seq<u64>, events: Seq<Seq<Sample>>) -> Seq<Seq<Seq<char>>>
    decreases events.len(),
{
    if events.len() == 0 {
        Seq::empty()
    } else {
        all_rows(columns, events.drop_last()) + event_rows(
            columns,
            sample_total(events.drop_last()),
            events.last(),
        )
    }
}

/// The rows of a recording are numbered from zero on without a gap or a repetition, over all
/// events, and there are as many as there are samples.
pub proof fn law_rows_are_numbered_on(columns: Seq<u64>, events: Seq<Seq<Sample>>)
    ensures
        all_rows(columns, events).len() == sample_total(events),
        forall|k: int|
            0 <= k < sample_total(events) ==> (#[trigger] all_rows(columns, events)[k])[1]
                == decimal(k as nat),
        forall|j: int, k: int|
            0 <= j < k < sample_total(events) ==> (#[trigger] all_rows(columns, events)[j])[1] != (
            #[trigger] all_rows(columns, events)[k])[1],
    decreases events.len(),
{
    let rows = all_rows(columns, events);
    if events.len() > 0 {
        let before = events.drop_last();
        law_rows_are_numbered_on(columns, before);
        let first = sample_total(before);
        let last = event_rows(columns, first, events.last());
        assert forall|k: int| 0 <= k < sample_total(events) implies (#[trigger] rows[k])[1]
            == decimal(k as nat) by {
            if k < first {
                assert(rows[k] == all_rows(columns, before)[k]);
            } else {
                assert(rows[k] == last[k - first]);
            }
        }
    }
    assert forall|j: int, k: int| 0 <= j < k < sample_total(events) implies (#[trigger] rows[j])[1]
        != (#[trigger] rows[k])[1] by {
        lemma_unsigned_round_trip(j as nat, k as nat);
        lemma_unsigned_round_trip(k as nat, k as nat);
    }
}

/// A recorder that is handed one event after the other writes the rows of the recording: with the
/// rows so far counted, the next event gets the rows that come next, and the count goes on.
pub proof fn law_events_add_their_rows(
    columns: Seq<u64>,
    events: Seq<Seq<Sample>>,
    samples: Seq<Sample>,
)
    ensures
        all_rows(columns, events.push(samples)) == all_rows(columns, events) + event_rows(
            columns,
            sample_total(events),
            samples,
        ),
        sample_total(events.push(samples)) == sample_total(events) + samples.len(),
{
    assert(events.push(samples).drop_last() == events);
}

/// Where every recorded channel has a value, a row has the time, the number and a value under
/// each title, and each value is that of the channel in the title. With no other values, the row
/// has two fields more than there are values.
pub proof fn law_rows_fit_the_header(
    columns: Seq<u64>,
    sample: nat,
    time: Seq<char>,
    values: Map<u64, String>,
)
    requires
        forall|i: int| 0 <= i < columns.len() ==> values.dom().contains(#[trigger] columns[i]),
    ensures
        row(columns, sample, time, values).len() == titles(columns).len(),
        row(columns, sample, time, values)[0] == time,
        row(columns, sample, time, values)[1] == decimal(sample),
        columns.no_duplicates() && values.dom() == columns.to_set() ==> row(
            columns,
            sample,
            time,
            values,
        ).len() == 2 + values.dom().len(),
        forall|i: int|
            0 <= i < columns.len() ==> #[trigger] row(columns, sample, time, values)[i + 2]
                == values[columns[i]]@ && titles(columns)[i + 2] == title(columns[i]),
{
    lemma_row_values(columns, values, columns.len());
    if columns.no_duplicates() {
        columns.unique_seq_to_set();
    }
}

/// No channel has two columns.
pub proof fn law_columns_differ(channel_a: bool, channel_b: bool)
    ensures
        columns_of(channel_a, channel_b).no_duplicates(),
{
}

proof fn lemma_row_values(columns: Seq<u64>, values: Map<u64, String>, n: nat)
    requires
        n <= columns.len(),
        forall|i: int| 0 <= i < columns.len() ==> values.dom().contains(#[trigger] columns[i]),
    ensures
        row_values(columns, values, n).len() == n,
        forall|i: int|
            0 <= i < n ==> #[trigger] row_values(columns, values, n)[i] == values[columns[i]]@,
    decreases n,
{
    if n > 0 {
        lemma_row_values(columns, values, (n - 1) as nat);
    }
}

/// A value is in a row behind those of the columns before it that have one, and no value is in it
/// but these.
proof fn lemma_row_places(
    columns: Seq<u64>,
    values: Map<u64, String>,
    present: spec_fn(u64) -> bool,
    n: nat,
    c: int,
)
    requires
        n <= columns.len(),
        forall|channel: u64| #[trigger] present(channel) == values.dom().contains(channel),
    ensures
        row_values(columns, values, n).len() == columns.take(n as int).filter(present).len(),
        0 <= c < n && present(columns[c]) ==> {
            let place = columns.take(c).filter(present).len();
            &&& place < row_values(columns, values, n).len()
            &&& row_values(columns, values, n)[place as int] == values[columns[c]]@
        },
    decreases n,
{
    reveal(Seq::filter);
    if n > 0 {
        let before = (n - 1) as nat;
        lemma_row_places(columns, values, present, before, c);
        assert(columns.take(n as int).drop_last() == columns.take(before as int));
        assert(columns.take(n as int).last() == columns[n - 1]);
        assert(present(columns[n - 1]) == values.dom().contains(columns[n - 1]));
    } else {
        assert(columns.take(0) == Seq::<u64>::empty());
    }
}

/// Every row of an event carries the time and the number of its own sample, and then the values of
/// that very sample, each channel's in the place of its column among the columns that have a value.
pub proof fn law_rows_of_an_event_carry_its_samples(
    columns: Seq<u64>,
    first: nat,
    samples: Seq<Sample>,
    i: int,
    c: int,
    present: spec_fn(u64) -> bool,
)
    requires
        0 <= i < samples.len(),
        forall|channel: u64| #[trigger]
            present(channel) == samples[i].values@.dom().contains(channel),
    ensures
        ({
            let written = event_rows(columns, first, samples)[i];
            &&& event_rows(columns, first, samples).len() == samples.len()
            &&& written.len() == 2 + columns.filter(present).len()
            &&& written[0] == samples[i].time@
            &&& written[1] == decimal((first + i) as nat)
            &&& 0 <= c < columns.len() && present(columns[c]) ==> written[columns.take(c).filter(
                present,
            ).len() as int + 2] == samples[i].values@[columns[c]]@
        }),
{
    lemma_row_places(columns, samples[i].values@, present, columns.len(), c);
    assert(columns.take(columns.len() as int) == columns);
}

/// Over all events, the row with a number carries the time and the values of the sample with that
/// number, counted through the events, and of no other.
pub proof fn law_rows_of_a_recording_carry_its_samples(
    columns: Seq<u64>,
    events: Seq<Seq<Sample>>,
    k: int,
    c: int,
    present: spec_fn(u64) -> bool,
)
    requires
        0 <= k < events.flatten().len(),
        forall|channel: u64| #[trigger]
            present(channel) == events.flatten()[k].values@.dom().contains(channel),
    ensures
        ({
            let sample = events.flatten()[k];
            let written = all_rows(columns, events)[k];
            &&& all_rows(columns, events).len() == events.flatten().len()
            &&& sample_total(events) == events.flatten().len()
            &&& written.len() == 2 + columns.filter(present).len()
            &&& written[0] == sample.time@
            &&& written[1] == decimal(k as nat)
            &&& 0 <= c < columns.len() && present(columns[c]) ==> written[columns.take(c).filter(
                present,
            ).len() as int + 2] == sample.values@[columns[c]]@
        }),
{
    events.lemma_flatten_and_flatten_alt_are_equivalent();
    lemma_recorded(columns, events, k, c, present);
}

proof fn lemma_recorded(
    columns: Seq<u64>,
    events: Seq<Seq<Sample>>,
    k: int,
    c: int,
    present: spec_fn(u64) -> bool,
)
    requires
        0 <= k < events.flatten_alt().len(),
        forall|channel: u64| #[trigger]
            present(channel) == events.flatten_alt()[k].values@.dom().contains(channel),
    ensures
        ({
            let sample = events.flatten_alt()[k];
            let written = all_rows(columns, events)[k];
            &&& all_rows(columns, events).len() == events.flatten_alt().len()
            &&& sample_total(events) == events.flatten_alt().len()
            &&& written.len() == 2 + columns.filter(present).len()
            &&& written[0] == sample.time@
            &&& written[1] == decimal(k as nat)
            &&& 0 <= c < columns.len() && present(columns[c]) ==> written[columns.take(c).filter(
                present,
            ).len() as int + 2] == sample.values@[columns[c]]@
        }),
    decreases events.len(),
{
    let before = events.drop_last();
    let first = before.flatten_alt().len();
    lemma_total(columns, before);
    if k < first {
        lemma_recorded(columns, before, k, c, present);
    } else {
        law_rows_of_an_event_carry_its_samples(columns, first, events.last(), k - first, c, present);
    }
}

proof fn lemma_total(columns: Seq<u64>, events: Seq<Seq<Sample>>)
    ensures
        sample_total(events) == events.flatten_alt().len(),
        all_rows(columns, events).len() == events.flatten_alt().len(),
    decreases events.len(),
{
    if events.len() > 0 {
        lemma_total(columns, events.drop_last());
    }
}

/// The columns of values are channel A and then channel B, as far as they are recorded, behind the
/// time and the number.
pub proof fn law_columns_and_titles(channel_a: bool, channel_b: bool, columns: Seq<u64>, c: int)
    ensures
        columns_of(channel_a, channel_b) == if channel_a && channel_b {
            seq![0u64, 1]
        } else if channel_a {
            seq![0u64]
        } else if channel_b {
            seq![1u64]
        } else {
            seq![]
        },
        titles(columns).len() == columns.len() + 2,
        titles(columns)[0] == "Time (s)"@,
        titles(columns)[1] == "Sample #"@,
        0 <= c < columns.len() && columns[c] == 0 ==> titles(columns)[c + 2] == "Channel A (V)"@,
        0 <= c < columns.len() && columns[c] == 1 ==> titles(columns)[c + 2] == "Channel B (V)"@,
{
}

/// Rows are seen as the texts in them.
pub proof fn law_rows_are_seen_as_they_are(rows: Seq<Vec<String>>, i: int, j: int)
    ensures
        row_texts(rows).len() == rows.len(),
        0 <= i < rows.len() ==> row_texts(rows)[i].len() == rows[i]@.len(),
        0 <= i < rows.len() && 0 <= j < rows[i]@.len() ==> row_texts(rows)[i][j] == rows[i]@[j]@,
{
}

} // verus!
