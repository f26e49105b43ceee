//! Counting the results as they come in.
use crate::order::{is_stable_sort, same_items, stable_sort};
use crate::seconds::{decimal_reads_back, digits_value};
use crate::text::{decimal, push_decimal, texts};
use vstd::prelude::*;

verus! {

/// The place of `label` among counted labels.
pub open spec fn place_of(entries: Seq<(Seq<char>, nat)>, label: Seq<char>) -> Option<int>
    decreases entries.len(),
{
    if entries.len() == 0 {
        None
    } else if entries.last().0 == label {
        Some(entries.len() - 1)
    } else {
        place_of(entries.drop_last(), label)
    }
}

/// How often `label` was counted.
pub open spec fn count_of(entries: Seq<(Seq<char>, nat)>, label: Seq<char>) -> nat {
    match place_of(entries, label) {
        Some(i) => entries[i].1,
        None => 0,
    }
}

/// How many labels were counted in all.
pub open spec fn total_of(entries: Seq<(Seq<char>, nat)>) -> nat
    decreases entries.len(),
{
    if entries.len() == 0 {
        0
    } else {
        total_of(entries.drop_last()) + entries.last().1
    }
}

/// `entries` with `label` counted once more. A new label joins at the end.
pub open spec fn counted(entries: Seq<(Seq<char>, nat)>, label: Seq<char>) -> Seq<
    (Seq<char>, nat),
> {
    match place_of(entries, label) {
        Some(i) => entries.update(i, (label, entries[i].1 + 1)),
        None => entries.push((label, 1)),
    }
}

/// What a list of labels comes to.
pub open spec fn tallied(labels: Seq<Seq<char>>) -> Seq<(Seq<char>, nat)>
    decreases labels.len(),
{
    if labels.len() == 0 {
        Seq::empty()
    } else {
        counted(tallied(labels.drop_last()), labels.last())
    }
}

/// No label has two entries.
pub open spec fn labels_differ(entries: Seq<(Seq<char>, nat)>) -> bool {
    forall|i: int, j: int|
        0 <= i < j < entries.len() ==> (#[trigger] entries[i]).0 != (#[trigger] entries[j]).0
}

/// A label has a place exactly where one of the entries is for it, and its count
/// is the one of that entry. A label without an entry was never counted.
pub proof fn count_is_that_of_the_entry(entries: Seq<(Seq<char>, nat)>, label: Seq<char>)
    requires
        labels_differ(entries),
    ensures
        forall|i: int|
            0 <= i < entries.len() && (#[trigger] entries[i]).0 == label ==> count_of(entries, label)
                == entries[i].1,
        (forall|i: int| 0 <= i < entries.len() ==> (#[trigger] entries[i]).0 != label) ==> count_of(
            entries,
            label,
        ) == 0,
{
    place_is_right(entries, label);
    assert forall|i: int|
        0 <= i < entries.len() && (#[trigger] entries[i]).0 == label implies count_of(entries, label)
        == entries[i].1 by {
        place_is_unique(entries, i);
    }
}

proof fn place_is_right(entries: Seq<(Seq<char>, nat)>, label: Seq<char>)
    ensures
        match place_of(entries, label) {
            Some(i) => 0 <= i < entries.len() && entries[i].0 == label,
            None => forall|i: int| 0 <= i < entries.len() ==> (#[trigger] entries[i]).0 != label,
        },
    decreases entries.len(),
{
    if entries.len() > 0 && entries.last().0 != label {
        let rest = entries.drop_last();
        place_is_right(rest, label);
        assert forall|i: int| 0 <= i < entries.len() && place_of(rest, label) is None implies (
        #[trigger] entries[i]).0 != label by {
            if i < rest.len() {
                assert(rest[i] == entries[i]);
            }
        }
    }
}

proof fn place_is_unique(entries: Seq<(Seq<char>, nat)>, i: int)
    requires
        labels_differ(entries),
        0 <= i < entries.len(),
    ensures
        place_of(entries, entries[i].0) == Some(i),
{
    place_is_right(entries, entries[i].0);
    let p = place_of(entries, entries[i].0)->0;
    if p < i {
        assert(entries[p].0 != entries[i].0);
    } else if i < p {
        assert(entries[i].0 != entries[p].0);
    }
}

proof fn total_after_update(entries: Seq<(Seq<char>, nat)>, i: int, entry: (Seq<char>, nat))
    requires
        0 <= i < entries.len(),
    ensures
        total_of(entries.update(i, entry)) == total_of(entries) - entries[i].1 + entry.1,
        entries[i].1 <= total_of(entries),
    decreases entries.len(),
{
    let updated = entries.update(i, entry);
    if i == entries.len() - 1 {
        assert(updated.drop_last() =~= entries.drop_last());
    } else {
        total_after_update(entries.drop_last(), i, entry);
        assert(updated.drop_last() =~= entries.drop_last().update(i, entry));
    }
}

/// Counting a label adds one to its own count and to the total, and to nothing
/// else. No label comes to have two entries.
pub proof fn counting_adds_one(
    entries: Seq<(Seq<char>, nat)>,
    label: Seq<char>,
    other: Seq<char>,
)
    requires
        labels_differ(entries),
    ensures
        labels_differ(counted(entries, label)),
        total_of(counted(entries, label)) == total_of(entries) + 1,
        count_of(counted(entries, label), other) == count_of(entries, other) + (if other == label {
            1nat
        } else {
            0nat
        }),
{
    place_is_right(entries, label);
    place_is_right(entries, other);
    let after = counted(entries, label);
    match place_of(entries, label) {
        Some(i) => {
            total_after_update(entries, i, (label, entries[i].1 + 1));
            assert(forall|k: int| 0 <= k < after.len() ==> after[k].0 == entries[k].0);
        },
        None => {
            assert(after.drop_last() =~= entries);
            assert(after.last() == (label, 1nat));
        },
    }
    assert(labels_differ(after));
    place_is_right(after, other);
    if let Some(k) = place_of(entries, other) {
        assert(after[k].0 == other);
        place_is_unique(after, k);
    } else if other == label {
        assert(after[after.len() - 1].0 == label);
        place_is_unique(after, after.len() - 1);
    } else if let Some(k) = place_of(after, other) {
        assert(k < entries.len());
        assert(after[k].0 == entries[k].0);
    }
}

/// No label is counted more often than there are results.
pub proof fn count_is_within_total(entries: Seq<(Seq<char>, nat)>, label: Seq<char>)
    ensures
        count_of(entries, label) <= total_of(entries),
    decreases entries.len(),
{
    if entries.len() > 0 && entries.last().0 != label {
        count_is_within_total(entries.drop_last(), label);
        place_is_right(entries.drop_last(), label);
    }
}

/// What a list of labels comes to: each label is counted as often as it stands
/// in the list, no label has two entries, and the counts add up to the length
/// of the list.
pub proof fn tally_counts_occurrences(labels: Seq<Seq<char>>, label: Seq<char>)
    ensures
        labels_differ(tallied(labels)),
        count_of(tallied(labels), label) == labels.filter(|l: Seq<char>| l == label).len(),
        total_of(tallied(labels)) == labels.len(),
    decreases labels.len(),
{
    reveal(Seq::filter);
    if labels.len() > 0 {
        tally_counts_occurrences(labels.drop_last(), label);
        counting_adds_one(tallied(labels.drop_last()), labels.last(), label);
    }
}

/// The entries of a list of counted labels.
pub open spec fn entries_of(counts: Seq<(String, usize)>) -> Seq<(Seq<char>, nat)> {
    counts.map_values(|entry: (String, usize)| (entry.0@, entry.1 as nat))
}

/// Sorting leaves each label with its count: the one that it was counted with,
/// and every label that was counted is among those sorted.
pub proof fn sorted_labels_keep_their_counts(
    counts: Seq<(String, usize)>,
    sorted: Seq<(String, usize)>,
)
    requires
        labels_differ(entries_of(counts)),
        is_stable_sort(counts, sorted),
    ensures
        sorted.len() == counts.len(),
        forall|i: int|
            0 <= i < sorted.len() ==> count_of(entries_of(counts), (#[trigger] sorted[i]).0@)
                == sorted[i].1,
        forall|label: Seq<char>| #[trigger]
            count_of(entries_of(counts), label) > 0 ==> exists|i: int|
                0 <= i < sorted.len() && (#[trigger] sorted[i]).0@ == label,
{
    let entries = entries_of(counts);
    same_items(counts, sorted);
    assert forall|i: int| 0 <= i < sorted.len() implies count_of(
        entries,
        (#[trigger] sorted[i]).0@,
    ) == sorted[i].1 by {
        assert(sorted.contains(sorted[i]));
        assert(counts.contains(sorted[i]));
        let k = choose|k: int| 0 <= k < counts.len() && counts[k] == sorted[i];
        assert(entries[k] == (sorted[i].0@, sorted[i].1 as nat));
        place_is_unique(entries, k);
    }
    assert forall|label: Seq<char>| #[trigger] count_of(entries, label) > 0 implies exists|i: int|
        0 <= i < sorted.len() && (#[trigger] sorted[i]).0@ == label by {
        place_is_right(entries, label);
        let k = place_of(entries, label)->0;
        assert(entries[k].0 == counts[k].0@);
        assert(counts.contains(counts[k]));
        assert(sorted.contains(counts[k]));
        let i = choose|i: int| 0 <= i < sorted.len() && sorted[i] == counts[k];
        assert(sorted[i].0@ == label);
    }
}

/// How often each label was counted, in the order in which the labels first came up.
pub struct ResultDistribution {
    counts: Vec<(String, usize)>,
}

impl View for ResultDistribution {
    type V = Seq<(Seq<char>, nat)>;

    open spec fn view(&self) -> Seq<(Seq<char>, nat)> {
        entries_of(self.counts())
    }
}

impl ResultDistribution {
    /// The counted labels.
    pub closed spec fn counts(self) -> Seq<(String, usize)> {
        self.counts@
    }

    /// No label has two entries.
    pub open spec fn well_formed(self) -> bool {
        labels_differ(self@)
    }

    /// Nothing was counted yet.
    pub fn new() -> (distribution: ResultDistribution)
        ensures
            distribution.well_formed(),
            distribution@ == Seq::<(Seq<char>, nat)>::empty(),
    {
        let distribution = ResultDistribution { counts: Vec::new() };
        assert(distribution@ =~= Seq::<(Seq<char>, nat)>::empty());
        distribution
    }

    /// The place of `label`.
    fn find(&self, label: &String) -> (found: Option<usize>)
        requires
            self.well_formed(),
        ensures
            match found {
                Some(i) => place_of(self@, label@) == Some(i as int) && i < self@.len(),
                None => place_of(self@, label@) is None,
            },
    {
        let mut k: usize = 0;
        while k < self.counts.len()
            invariant
                self.well_formed(),
                k <= self.counts@.len(),
                self@.len() == self.counts@.len(),
                forall|i: int| 0 <= i < k ==> (#[trigger] self@[i]).0 != label@,
            decreases self.counts@.len() - k,
        {
            assert(self@[k as int].0 == self.counts@[k as int].0@);
            if self.counts[k].0 == *label {
                proof {
                    place_is_unique(self@, k as int);
                }
                return Some(k);
            }
            k += 1;
        }
        proof {
            place_is_right(self@, label@);
        }
        None
    }

    /// How often `label` was counted.
    pub fn count(&self, label: &String) -> (count: usize)
        requires
            self.well_formed(),
        ensures
            count == count_of(self@, label@),
    {
        match self.find(label) {
            Some(i) => {
                assert(self@[i as int].1 == self.counts@[i as int].1);
                self.counts[i].1
            },
            None => 0,
        }
    }

    /// Counts `label` once more.
    pub fn record(&mut self, label: String)
        requires
            old(self).well_formed(),
            total_of(old(self)@) < usize::MAX,
        ensures
            final(self).well_formed(),
            final(self)@ == counted(old(self)@, label@),
    {
        proof {
            counting_adds_one(self@, label@, label@);
        }
        match self.find(&label) {
            Some(i) => {
                proof {
                    total_after_update(self@, i as int, self@[i as int]);
                    assert(self@[i as int] == (
                        self.counts@[i as int].0@,
                        self.counts@[i as int].1 as nat,
                    ));
                }
                let count: usize = self.counts[i].1 + 1;
                self.counts[i] = (label, count);
                assert(self@ =~= counted(old(self)@, label@));
            },
            None => {
                self.counts.push((label, 1));
                assert(self@ =~= counted(old(self)@, label@));
            },
        }
    }

    /// The counted labels, from the most frequent to the least. Labels that are
    /// equally frequent stand in the order in which they first came up.
    pub fn sorted(self) -> (sorted: Vec<(String, usize)>)
        ensures
            is_stable_sort(self.counts(), sorted@),
    {
        stable_sort(self.counts)
    }
}

/// The rows of the table that shows a distribution: the titles, then for each
/// label its count and its share of all results.
pub open spec fn table_rows(
    sorted: Seq<(String, usize)>,
    percentages: Seq<Seq<char>>,
) -> Seq<Seq<Seq<char>>> {
    seq![seq!["Result Type"@, "Count"@, "Percentage"@]] + Seq::new(
        sorted.len(),
        |i: int| seq![sorted[i].0@, decimal(sorted[i].1 as nat), percentages[i]],
    )
}

/// Below the titles, a table has one row for each label, in their order: the
/// label, its count in decimal notation, and its share.
pub proof fn table_shows_each_label_with_its_count(
    sorted: Seq<(String, usize)>,
    percentages: Seq<Seq<char>>,
    i: int,
)
    requires
        0 <= i < sorted.len(),
        percentages.len() == sorted.len(),
    ensures
        ({
            let rows = table_rows(sorted, percentages);
            &&& rows.len() == sorted.len() + 1
            &&& rows[0] == seq!["Result Type"@, "Count"@, "Percentage"@]
            &&& rows[i + 1].len() == 3
            &&& rows[i + 1][0] == sorted[i].0@
            &&& digits_value(rows[i + 1][1]) == sorted[i].1
            &&& rows[i + 1][2] == percentages[i]
        }),
{
    decimal_reads_back(sorted[i].1 as nat);
}

/// The texts of the cells of a table.
pub open spec fn cells(rows: Seq<Vec<String>>) -> Seq<Seq<Seq<char>>> {
    rows.map_values(|row: Vec<String>| texts(row@))
}

/// The rows of the table that shows a distribution. `percentages` holds the
/// share of each label, in the order of the labels.
pub fn result_table(sorted: Vec<(String, usize)>, percentages: &Vec<String>) -> (rows: Vec<
    Vec<String>,
>)
    requires
        percentages@.len() == sorted@.len(),
    ensures
        cells(rows@) == table_rows(sorted@, texts(percentages@)),
{
    let mut titles: Vec<String> = Vec::new();
    titles.push("Result Type".to_owned());
    titles.push("Count".to_owned());
    titles.push("Percentage".to_owned());
    assert(texts(titles@) =~= seq!["Result Type"@, "Count"@, "Percentage"@]);
    let mut rows: Vec<Vec<String>> = Vec::new();
    rows.push(titles);
    let ghost wanted = table_rows(sorted@, texts(percentages@));
    assert(cells(rows@) =~= wanted.take(1));
    let mut k: usize = 0;
    while k < sorted.len()
        invariant
            k <= sorted@.len() == percentages@.len(),
            wanted == table_rows(sorted@, texts(percentages@)),
            cells(rows@) == wanted.take(k + 1),
        decreases sorted@.len() - k,
    {
        let mut count = String::new();
        push_decimal(&mut count, sorted[k].1 as u128);
        let mut cells_of_row: Vec<String> = Vec::new();
        cells_of_row.push(sorted[k].0.clone());
        cells_of_row.push(count);
        cells_of_row.push(percentages[k].clone());
        assert(texts(cells_of_row@) =~= wanted[k + 1]);
        let ghost earlier = rows@;
        rows.push(cells_of_row);
        assert(cells(rows@) =~= cells(earlier).push(texts(cells_of_row@)));
        assert(wanted.take(k + 2) =~= wanted.take(k + 1).push(wanted[k + 1]));
        k += 1;
    }
    assert(wanted.take(k + 1) =~= wanted);
    rows
}

} // verus!
