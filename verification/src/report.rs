//! The advisories of one audit report, keyed by identifier.
//!
//! The set keeps its advisories in a vector in ascending order of
//! identifier, no identifier twice. Its view is the map from identifier to
//! advisory; `records` is that map read in ascending order.
use crate::advisory::{parse_rustsec, record_of, Rustsec, RustsecView};
use crate::split::{
    blocks_of, join, join_from, lines_of, split_blocks, split_lines, texts, without_first,
};
use crate::text::{
    chars_of, lemma_lex_lt_irreflexive, lemma_lex_lt_total, lemma_lex_lt_transitive, lex_lt,
    string_of, text_eq, text_lt,
};
use vstd::prelude::*;

verus! {

/// The number of lines at the head of a report that belong to no advisory.
pub const HEADER_LINES: usize = 4;

/// The identifiers of `records`, in order.
pub open spec fn ids_of(records: Seq<RustsecView>) -> Seq<Seq<char>> {
    records.map_values(|r: RustsecView| r.id)
}

/// Whether each text comes before all that follow it, so that the texts
/// stand in ascending order and none occurs twice.
pub open spec fn ascending(ids: Seq<Seq<char>>) -> bool {
    forall|i: int, j: int| 0 <= i < j < ids.len() ==> lex_lt(#[trigger] ids[i], #[trigger] ids[j])
}

/// The map that holds each of `records` under its identifier. Where two
/// have the same identifier, the later one stays.
pub open spec fn map_of(records: Seq<RustsecView>) -> Map<Seq<char>, RustsecView>
    decreases records.len(),
{
    if records.len() == 0 {
        Map::empty()
    } else {
        map_of(records.drop_last()).insert(records.last().id, records.last())
    }
}

/// `block` without the lines at the head of a report: its lines from the
/// fifth on, with a line feed between each two.
pub open spec fn without_header(block: Seq<char>) -> Seq<char> {
    join(without_first(split_lines(block, '\n', '\r'), HEADER_LINES as nat), seq!['\n'])
}

/// The blocks that a report's advisories are read from: the blocks of the
/// text, the first of them without the header lines.
pub open spec fn report_blocks(output: Seq<char>) -> Seq<Seq<char>> {
    let blocks = split_blocks(output);
    blocks.update(0, without_header(blocks[0]))
}

/// The advisories of a report, each under its identifier: one for every
/// block, and of two blocks with one identifier the later.
pub open spec fn report_map(output: Seq<char>) -> Map<Seq<char>, RustsecView> {
    map_of(report_records(output))
}

/// In a sequence in ascending order of identifier, the map holds every
/// record under its identifier, and nothing else.
pub proof fn lemma_map_of_ascending(records: Seq<RustsecView>)
    requires
        ascending(ids_of(records)),
    ensures
        forall|i: int|
            0 <= i < records.len() ==> map_of(records).contains_pair(
                (#[trigger] records[i]).id,
                records[i],
            ),
        forall|id: Seq<char>| #[trigger]
            map_of(records).dom().contains(id) ==> exists|i: int|
                0 <= i < records.len() && (#[trigger] records[i]).id == id,
        map_of(records).dom().finite(),
        map_of(records).dom().len() == records.len(),
    decreases records.len(),
{
    if records.len() > 0 {
        let init = records.drop_last();
        let last = records.last();
        assert forall|i: int, j: int| 0 <= i < j < init.len() implies lex_lt(
            #[trigger] ids_of(init)[i],
            #[trigger] ids_of(init)[j],
        ) by {
            assert(ids_of(init)[i] == ids_of(records)[i]);
            assert(ids_of(init)[j] == ids_of(records)[j]);
        }
        lemma_map_of_ascending(init);
        assert forall|i: int| 0 <= i < records.len() implies map_of(records).contains_pair(
            (#[trigger] records[i]).id,
            records[i],
        ) by {
            if i < init.len() {
                assert(init[i] == records[i]);
                assert(lex_lt(ids_of(records)[i], ids_of(records)[records.len() - 1]));
                lemma_lex_lt_irreflexive(last.id, 0);
            }
        }
        assert forall|id: Seq<char>| #[trigger]
            map_of(records).dom().contains(id) implies exists|i: int|
            0 <= i < records.len() && (#[trigger] records[i]).id == id by {
            if id == last.id {
                assert(records[records.len() - 1].id == id);
            } else {
                assert(map_of(init).dom().contains(id));
                let i = choose|i: int| 0 <= i < init.len() && (#[trigger] init[i]).id == id;
                assert(records[i].id == id);
            }
        }
        if map_of(init).dom().contains(last.id) {
            let i = choose|i: int| 0 <= i < init.len() && (#[trigger] init[i]).id == last.id;
            assert(lex_lt(ids_of(records)[i], ids_of(records)[records.len() - 1]));
            lemma_lex_lt_irreflexive(last.id, 0);
        }
    }
}

/// Two sequences in ascending order of identifier that make the same map
/// are the same sequence: a map has one reading in ascending order.
pub proof fn lemma_ascending_reading_is_unique(a: Seq<RustsecView>, b: Seq<RustsecView>)
    requires
        ascending(ids_of(a)),
        ascending(ids_of(b)),
        map_of(a) == map_of(b),
    ensures
        a == b,
    decreases a.len(),
{
    lemma_map_of_ascending(a);
    lemma_map_of_ascending(b);
    assert(a.len() == b.len());
    if a.len() > 0 {
        let la = a.last();
        let lb = b.last();
        // The last record of each has the greatest identifier of the map.
        assert(map_of(b).contains_pair(a[a.len() - 1].id, a[a.len() - 1]));
        let j = choose|j: int| 0 <= j < b.len() && (#[trigger] b[j]).id == la.id;
        assert(map_of(a).contains_pair(b[b.len() - 1].id, b[b.len() - 1]));
        let i = choose|i: int| 0 <= i < a.len() && (#[trigger] a[i]).id == lb.id;
        if j < b.len() - 1 {
            assert(lex_lt(ids_of(b)[j], ids_of(b)[b.len() - 1]));
            if i < a.len() - 1 {
                assert(lex_lt(ids_of(a)[i], ids_of(a)[a.len() - 1]));
                lemma_lex_lt_transitive(la.id, lb.id, la.id, 0);
            }
            lemma_lex_lt_irreflexive(la.id, 0);
        }
        assert(la.id == lb.id);
        assert(map_of(a).contains_pair(a[a.len() - 1].id, a[a.len() - 1]));
        assert(la == lb);
        let ia = a.drop_last();
        let ib = b.drop_last();
        assert forall|i: int, j: int| 0 <= i < j < ia.len() implies lex_lt(
            #[trigger] ids_of(ia)[i],
            #[trigger] ids_of(ia)[j],
        ) by {
            assert(ids_of(ia)[i] == ids_of(a)[i]);
            assert(ids_of(ia)[j] == ids_of(a)[j]);
        }
        assert forall|i: int, j: int| 0 <= i < j < ib.len() implies lex_lt(
            #[trigger] ids_of(ib)[i],
            #[trigger] ids_of(ib)[j],
        ) by {
            assert(ids_of(ib)[i] == ids_of(b)[i]);
            assert(ids_of(ib)[j] == ids_of(b)[j]);
        }
        lemma_map_of_ascending(ia);
        lemma_map_of_ascending(ib);
        // Without the greatest identifier both maps are the same map again.
        assert(!map_of(ia).dom().contains(la.id)) by {
            if map_of(ia).dom().contains(la.id) {
                let k = choose|k: int| 0 <= k < ia.len() && (#[trigger] ia[k]).id == la.id;
                assert(lex_lt(ids_of(a)[k], ids_of(a)[a.len() - 1]));
                lemma_lex_lt_irreflexive(la.id, 0);
            }
        }
        assert(!map_of(ib).dom().contains(lb.id)) by {
            if map_of(ib).dom().contains(lb.id) {
                let k = choose|k: int| 0 <= k < ib.len() && (#[trigger] ib[k]).id == lb.id;
                assert(lex_lt(ids_of(b)[k], ids_of(b)[b.len() - 1]));
                lemma_lex_lt_irreflexive(lb.id, 0);
            }
        }
        assert(map_of(ia) == map_of(a).remove(la.id));
        assert(map_of(ib) == map_of(b).remove(lb.id));
        lemma_ascending_reading_is_unique(ia, ib);
        assert(a == ia.push(la));
        assert(b == ib.push(lb));
    }
}

/// Where a record with the identifier `id` belongs among `records`, looked
/// for from position `i` on: the first position from `i` whose record does
/// not come before `id`, or the end.
pub open spec fn place_from(records: Seq<RustsecView>, id: Seq<char>, i: int) -> int
    decreases records.len() - i,
{
    if i < 0 || i >= records.len() || !lex_lt(records[i].id, id) {
        i
    } else {
        place_from(records, id, i + 1)
    }
}

/// `records` with `record` put in at its place: where a record has the
/// identifier of `record`, it gives way to `record`; otherwise `record`
/// goes in before the first record that comes after it.
pub open spec fn put(records: Seq<RustsecView>, record: RustsecView) -> Seq<RustsecView> {
    let place = place_from(records, record.id, 0);
    if place < records.len() && records[place].id == record.id {
        records.update(place, record)
    } else {
        records.insert(place, record)
    }
}

/// The records in ascending order of identifier, of records with one
/// identifier the last: each record in turn is put in at its place.
pub open spec fn reading_of(records: Seq<RustsecView>) -> Seq<RustsecView>
    decreases records.len(),
{
    if records.len() == 0 {
        Seq::empty()
    } else {
        put(reading_of(records.drop_last()), records.last())
    }
}

/// The records that a report's blocks describe, block by block.
pub open spec fn report_records(output: Seq<char>) -> Seq<RustsecView> {
    report_blocks(output).map_values(|block: Seq<char>| record_of(block))
}

/// The advisories of a report in ascending order of identifier: the
/// reading of `report_map`.
pub open spec fn report_reading(output: Seq<char>) -> Seq<RustsecView> {
    reading_of(report_records(output))
}

/// `place_from` finds the place: every record from `i` up to it comes
/// before `id`, and the record at it does not.
pub proof fn lemma_place_from(records: Seq<RustsecView>, id: Seq<char>, i: int)
    requires
        0 <= i <= records.len(),
    ensures
        i <= place_from(records, id, i) <= records.len(),
        forall|k: int|
            i <= k < place_from(records, id, i) ==> lex_lt((#[trigger] records[k]).id, id),
        place_from(records, id, i) < records.len() ==> !lex_lt(
            records[place_from(records, id, i)].id,
            id,
        ),
    decreases records.len() - i,
{
    if i < records.len() && lex_lt(records[i].id, id) {
        lemma_place_from(records, id, i + 1);
    }
}

/// Putting a record in at a place where every record before comes before
/// it and every record from there on comes after it (or the record there
/// has its identifier, and gives way) keeps the ascending order, and makes
/// the map that holds the record under its identifier beside all others.
pub proof fn lemma_put_at(before: Seq<RustsecView>, new: RustsecView, i: int, same: bool)
    requires
        ascending(ids_of(before)),
        0 <= i <= before.len(),
        forall|k: int| 0 <= k < i ==> lex_lt((#[trigger] before[k]).id, new.id),
        same ==> i < before.len() && before[i].id == new.id,
        !same ==> forall|k: int| i <= k < before.len() ==> lex_lt(new.id, (#[trigger] before[k]).id),
    ensures
        ascending(
            ids_of(
                if same {
                    before.update(i, new)
                } else {
                    before.insert(i, new)
                },
            ),
        ),
        map_of(
            if same {
                before.update(i, new)
            } else {
                before.insert(i, new)
            },
        ) == map_of(before).insert(new.id, new),
{
    let after = if same {
        before.update(i, new)
    } else {
        before.insert(i, new)
    };
    lemma_map_of_ascending(before);
    assert forall|a: int, b: int| 0 <= a < b < after.len() implies lex_lt(
        #[trigger] ids_of(after)[a],
        #[trigger] ids_of(after)[b],
    ) by {
        if same {
            assert(after[a].id == before[a].id);
            assert(after[b].id == before[b].id);
            assert(lex_lt(ids_of(before)[a], ids_of(before)[b]));
        } else {
            let pa = if a < i {
                a
            } else {
                a - 1
            };
            let pb = if b < i {
                b
            } else {
                b - 1
            };
            if a != i && b != i {
                assert(after[a] == before[pa]);
                assert(after[b] == before[pb]);
                assert(lex_lt(ids_of(before)[pa], ids_of(before)[pb]));
            } else if a == i {
                assert(after[b] == before[pb]);
                assert(lex_lt(new.id, before[pb].id));
            } else {
                assert(after[a] == before[pa]);
                assert(lex_lt(before[pa].id, new.id));
            }
        }
    }
    lemma_map_of_ascending(after);
    let want = map_of(before).insert(new.id, new);
    assert forall|id: Seq<char>| #[trigger] want.dom().contains(id) implies map_of(
        after,
    ).contains_pair(id, want[id]) by {
        if id == new.id {
            assert(after[i] == new);
        } else {
            let k = choose|k: int| 0 <= k < before.len() && (#[trigger] before[k]).id == id;
            assert(map_of(before).contains_pair(before[k].id, before[k]));
            let ka = if same || k < i {
                k
            } else {
                k + 1
            };
            assert(after[ka] == before[k]);
        }
    }
    assert forall|id: Seq<char>| #[trigger]
        map_of(after).dom().contains(id) implies want.dom().contains(id) by {
        let k = choose|k: int| 0 <= k < after.len() && (#[trigger] after[k]).id == id;
        if k != i {
            let kb = if same || k < i {
                k
            } else {
                k - 1
            };
            assert(after[k] == before[kb]);
            assert(map_of(before).contains_pair(before[kb].id, before[kb]));
        }
    }
    assert(map_of(after) =~= want);
}

/// `put` keeps the ascending order, and makes the map that holds the
/// record under its identifier beside all others.
pub proof fn lemma_put(records: Seq<RustsecView>, record: RustsecView)
    requires
        ascending(ids_of(records)),
    ensures
        ascending(ids_of(put(records, record))),
        map_of(put(records, record)) == map_of(records).insert(record.id, record),
{
    let place = place_from(records, record.id, 0);
    lemma_place_from(records, record.id, 0);
    let same = place < records.len() && records[place].id == record.id;
    if !same {
        assert forall|k: int| place <= k < records.len() implies lex_lt(
            record.id,
            (#[trigger] records[k]).id,
        ) by {
            assert(records[place].id.take(0) == record.id.take(0));
            lemma_lex_lt_total(records[place].id, record.id, 0);
            if k > place {
                assert(lex_lt(ids_of(records)[place], ids_of(records)[k]));
                lemma_lex_lt_transitive(record.id, records[place].id, records[k].id, 0);
            }
        }
    }
    lemma_put_at(records, record, place, same);
}

/// Every sequence of records has its reading: `reading_of` stands in
/// ascending order of identifier and makes the same map.
pub proof fn lemma_reading_of(records: Seq<RustsecView>)
    ensures
        ascending(ids_of(reading_of(records))),
        map_of(reading_of(records)) == map_of(records),
    decreases records.len(),
{
    if records.len() > 0 {
        lemma_reading_of(records.drop_last());
        lemma_put(reading_of(records.drop_last()), records.last());
    }
}

/// Every report has its reading: `report_reading` stands in ascending
/// order of identifier and holds what `report_map` holds.
pub proof fn lemma_report_has_a_reading(output: Seq<char>)
    ensures
        ascending(ids_of(report_reading(output))),
        map_of(report_reading(output)) == report_map(output),
{
    lemma_reading_of(report_records(output));
}

/// The advisories of one audit report. No two have the same identifier, and
/// they are kept and handed out in ascending order of identifier.
#[derive(Clone, Debug)]
pub struct AdvisoryReportSet {
    records: Vec<Rustsec>,
}

impl View for AdvisoryReportSet {
    type V = Map<Seq<char>, RustsecView>;

    /// The advisories by identifier.
    open spec fn view(&self) -> Map<Seq<char>, RustsecView> {
        map_of(self.records())
    }
}

impl AdvisoryReportSet {
    /// The advisories in the order in which the set hands them out.
    pub closed spec fn records(&self) -> Seq<RustsecView> {
        self.records@.map_values(|r: Rustsec| r@)
    }

    /// The identifiers in the order in which the set hands them out.
    pub open spec fn ids(&self) -> Seq<Seq<char>> {
        ids_of(self.records())
    }

    /// The set's invariant: the identifiers stand in ascending order, so
    /// that none occurs twice.
    pub open spec fn wf(&self) -> bool {
        ascending(self.ids())
    }

    /// In a well-formed set, `records` is the view read in ascending order
    /// of identifier: it holds what the view holds, once each.
    pub proof fn lemma_records_read_the_view(&self)
        requires
            self.wf(),
        ensures
            self@.dom().finite(),
            self@.dom().len() == self.records().len(),
            forall|i: int|
                0 <= i < self.records().len() ==> self@.contains_pair(
                    (#[trigger] self.records()[i]).id,
                    self.records()[i],
                ),
            forall|id: Seq<char>| #[trigger]
                self@.dom().contains(id) ==> exists|i: int|
                    0 <= i < self.records().len() && (#[trigger] self.records()[i]).id == id,
    {
        lemma_map_of_ascending(self.records());
    }

    /// A well-formed set hands out its view in the one order that the view
    /// allows: where the view is the map of `records`, the set hands out
    /// the reading of `records`.
    pub proof fn lemma_records_are_the_reading(&self, records: Seq<RustsecView>)
        requires
            self.wf(),
            self@ == map_of(records),
        ensures
            self.records() == reading_of(records),
    {
        lemma_reading_of(records);
        lemma_ascending_reading_is_unique(self.records(), reading_of(records));
    }

    /// A set without advisories.
    pub fn new() -> (set: AdvisoryReportSet)
        ensures
            set.wf(),
            set.records() == Seq::<RustsecView>::empty(),
            set@ == Map::<Seq<char>, RustsecView>::empty(),
    {
        let set = AdvisoryReportSet { records: Vec::new() };
        assert(set.records() == Seq::<RustsecView>::empty());
        set
    }

    /// The number of advisories.
    pub fn len(&self) -> (n: usize)
        requires
            self.wf(),
        ensures
            n == self.records().len(),
            n == self@.dom().len(),
    {
        proof {
            self.lemma_records_read_the_view();
        }
        self.records.len()
    }

    /// Whether the set has no advisory.
    pub fn is_empty(&self) -> (empty: bool)
        requires
            self.wf(),
        ensures
            empty == (self.records().len() == 0),
            empty == (self@ == Map::<Seq<char>, RustsecView>::empty()),
    {
        proof {
            self.lemma_records_read_the_view();
            if self.records().len() > 0 {
                assert(self@.dom().contains(self.records()[0].id));
            }
        }
        self.records.len() == 0
    }

    /// The advisory at position `i` in ascending order of identifier.
    pub fn record(&self, i: usize) -> (record: &Rustsec)
        requires
            i < self.records().len(),
        ensures
            record@ == self.records()[i as int],
    {
        &self.records[i]
    }

    /// The advisory with the identifier `id`, if the set has one.
    pub fn get(&self, id: &str) -> (found: Option<&Rustsec>)
        requires
            self.wf(),
        ensures
            match found {
                Some(record) => self@.contains_pair(id@, record@),
                None => !self@.dom().contains(id@),
            },
    {
        let key = chars_of(id);
        let mut i: usize = 0;
        while i < self.records.len()
            invariant
                i <= self.records.len(),
                self.wf(),
                key@ == id@,
                forall|k: int| 0 <= k < i ==> (#[trigger] self.records()[k]).id != id@,
            decreases self.records.len() - i,
        {
            let here = chars_of(self.records[i].id.as_str());
            if text_eq(&here, &key) {
                proof {
                    self.lemma_records_read_the_view();
                    assert(self.records[i as int]@ == self.records()[i as int]);
                }
                return Some(&self.records[i]);
            }
            i += 1;
        }
        proof {
            self.lemma_records_read_the_view();
        }
        None
    }

    /// Puts `record` into the set under its identifier. An advisory that
    /// the set held under that identifier is replaced; every other one
    /// stays.
    pub fn insert(&mut self, record: Rustsec)
        requires
            old(self).wf(),
        ensures
            final(self).wf(),
            final(self)@ == old(self)@.insert(record@.id, record@),
            final(self).records() == put(old(self).records(), record@),
    {
        let ghost before = self.records();
        let ghost new = record@;
        proof {
            lemma_map_of_ascending(before);
        }
        let key = chars_of(record.id.as_str());
        let mut i: usize = 0;
        let mut same: bool = false;
        while i < self.records.len()
            invariant_except_break
                !same,
            invariant
                i <= self.records.len(),
                self.records() == before,
                ascending(ids_of(before)),
                key@ == new.id,
                forall|k: int| 0 <= k < i ==> lex_lt((#[trigger] before[k]).id, new.id),
            ensures
                i <= self.records.len(),
                self.records() == before,
                forall|k: int| 0 <= k < i ==> lex_lt((#[trigger] before[k]).id, new.id),
                same ==> i < before.len() && before[i as int].id == new.id,
                !same ==> forall|k: int|
                    i <= k < before.len() ==> lex_lt(new.id, (#[trigger] before[k]).id),
            decreases self.records.len() - i,
        {
            let here = chars_of(self.records[i].id.as_str());
            assert(here@ == before[i as int].id);
            if text_eq(&here, &key) {
                same = true;
                break ;
            }
            if !text_lt(&here, &key) {
                proof {
                    assert(here@.take(0) == key@.take(0));
                    lemma_lex_lt_total(here@, key@, 0);
                    assert forall|k: int| i <= k < before.len() implies lex_lt(
                        new.id,
                        (#[trigger] before[k]).id,
                    ) by {
                        if k > i {
                            assert(lex_lt(ids_of(before)[i as int], ids_of(before)[k]));
                            lemma_lex_lt_transitive(new.id, here@, before[k].id, 0);
                        }
                    }
                }
                break ;
            }
            i += 1;
        }
        if same {
            self.records.set(i, record);
        } else {
            self.records.insert(i, record);
        }
        proof {
            let after = self.records();
            if same {
                assert(after == before.update(i as int, new));
            } else {
                assert(after == before.insert(i as int, new));
            }
            lemma_put_at(before, new, i as int, same);
            lemma_put(before, new);
            lemma_ascending_reading_is_unique(after, put(before, new));
        }
    }
}

/// Reads the advisories out of the text that the audit tool printed. The
/// text is cut into blocks at its blank lines, the header lines are taken
/// off the first block, and every block gives one advisory, whatever it
/// holds. Of two blocks with one identifier the later stays.
pub fn parse(output: &str) -> (set: AdvisoryReportSet)
    ensures
        set.wf(),
        set@ == report_map(output@),
        set.records() == report_reading(output@),
{
    let chars = chars_of(output);
    let mut blocks = blocks_of(&chars);
    let first_lines = lines_of(&blocks[0]);
    let mut line_feed: Vec<char> = Vec::new();
    line_feed.push('\n');
    assert(line_feed@ == seq!['\n']);
    let first = join_from(&first_lines, HEADER_LINES, &line_feed);
    let ghost cut = texts(blocks@);
    blocks.set(0, first);
    assert(texts(blocks@) == cut.update(0, first@));
    assert(texts(blocks@) == report_blocks(output@));

    let ghost all = report_records(output@);
    let mut set = AdvisoryReportSet::new();
    let mut i: usize = 0;
    assert(all.take(0) == Seq::<RustsecView>::empty());
    while i < blocks.len()
        invariant
            i <= blocks.len(),
            texts(blocks@) == report_blocks(output@),
            all == report_records(output@),
            set.wf(),
            set@ == map_of(all.take(i as int)),
        decreases blocks.len() - i,
    {
        let raw = string_of(&blocks[i]);
        assert(raw@ == texts(blocks@)[i as int]);
        let record = parse_rustsec(raw.as_str());
        assert(record@ == all[i as int]);
        set.insert(record);
        assert(all.take(i + 1).drop_last() == all.take(i as int));
        i += 1;
    }
    assert(all.take(all.len() as int) == all);
    proof {
        set.lemma_records_are_the_reading(all);
    }
    set
}

/// Reading one text twice gives the same set: two well-formed sets that
/// both hold the advisories of `output` hold the same records in the same
/// order.
pub proof fn lemma_parse_is_repeatable(
    output: Seq<char>,
    first: AdvisoryReportSet,
    second: AdvisoryReportSet,
)
    requires
        first.wf(),
        first@ == report_map(output),
        second.wf(),
        second@ == report_map(output),
    ensures
        first@ == second@,
        first.records() == second.records(),
{
    lemma_ascending_reading_is_unique(first.records(), second.records());
}

} // verus!
