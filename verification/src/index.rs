//! The autocomplete index and its prefix queries.
//!
//! The index maps a municipality identifier to the address texts of that
//! municipality, in the order of the source dataset. A query names a prefix
//! and a municipality and is answered with the first texts of that
//! municipality, at most [`RESULT_LIMIT`] of them, whose lowercase form
//! starts with the prefix's lowercase form.

use crate::dataset::{records_view, AddressRecord};
use crate::text::{lowercase, starts_with, to_lowercase};
use std::collections::HashMap;
use vstd::prelude::*;

verus! {

/// The largest number of texts in an answer.
pub const RESULT_LIMIT: usize = 10;

/// An address text together with the key under which it is found.
pub struct Entry {
    pub text: String,
    pub key: String,
}

/// Picks the text of an entry whose key starts with `prefix`.
pub open spec fn text_if_key_starts(prefix: Seq<char>) -> spec_fn(Entry) -> Option<Seq<char>> {
    |entry: Entry|
        if prefix.is_prefix_of(entry.key@) {
            Some(entry.text@)
        } else {
            None
        }
}

/// The texts of those `entries` whose key starts with `prefix`, in order.
pub open spec fn selected(entries: Seq<Entry>, prefix: Seq<char>) -> Seq<Seq<char>> {
    entries.filter_map(text_if_key_starts(prefix))
}

/// The first `limit` items of `s`, or all of `s` where it has no more.
pub open spec fn capped<T>(s: Seq<T>, limit: nat) -> Seq<T> {
    if s.len() <= limit {
        s
    } else {
        s.take(limit as int)
    }
}

/// The texts behind a list of borrowed strings.
pub open spec fn texts_of(found: Seq<&String>) -> Seq<Seq<char>> {
    Seq::new(found.len(), |i: int| found[i]@)
}

/// What is selected among the first entries stays selected, in place, when
/// more entries follow.
pub proof fn lemma_selected_extends(entries: Seq<Entry>, prefix: Seq<char>, n: int)
    requires
        0 <= n <= entries.len(),
    ensures
        selected(entries.take(n), prefix).is_prefix_of(selected(entries, prefix)),
    decreases entries.len(),
{
    if n == entries.len() {
        assert(entries.take(n) == entries);
    } else {
        let front = entries.drop_last();
        assert(front.take(n) == entries.take(n));
        lemma_selected_extends(front, prefix, n);
    }
}

/// Every selected text is the text of an entry whose key starts with the
/// prefix.
pub proof fn law_selected_by_key(entries: Seq<Entry>, prefix: Seq<char>, i: int)
    requires
        0 <= i < selected(entries, prefix).len(),
    ensures
        exists|entry: Entry| #[trigger]
            entries.contains(entry) && entry.text@ == selected(entries, prefix)[i]
                && prefix.is_prefix_of(entry.key@),
{
    let text = selected(entries, prefix)[i];
    entries.lemma_filter_map_contains(text_if_key_starts(prefix), text);
    let entry = choose|entry: Entry| #[trigger]
        entries.contains(entry) && text_if_key_starts(prefix)(entry) == Some(text);
    assert(entries.contains(entry) && entry.text@ == text);
}

/// The first entries whose key starts with `prefix`, at most `limit` of
/// them, in the order of `entries`.
pub fn select_matches<'a>(entries: &'a Vec<Entry>, prefix: &str, limit: usize) -> (found: Vec<
    &'a String,
>)
    ensures
        texts_of(found@) == capped(selected(entries@, prefix@), limit as nat),
        found.len() <= limit,
{
    let mut found: Vec<&'a String> = Vec::new();
    let mut i: usize = 0;
    while i < entries.len() && found.len() < limit
        invariant
            0 <= i <= entries.len(),
            found.len() <= limit,
            texts_of(found@) == selected(entries@.take(i as int), prefix@),
        decreases entries.len() - i,
    {
        assert(entries@.take(i + 1).drop_last() == entries@.take(i as int));
        if starts_with(entries[i].key.as_str(), prefix) {
            found.push(&entries[i].text);
        }
        i = i + 1;
    }
    proof {
        if i == entries.len() {
            assert(entries@.take(i as int) == entries@);
        } else {
            lemma_selected_extends(entries@, prefix@, i as int);
        }
    }
    found
}

/// Every entry's key is the lowercase form of its text.
pub open spec fn well_keyed(entries: Seq<Entry>) -> bool {
    forall|i: int|
        0 <= i < entries.len() ==> (#[trigger] entries[i]).key@ == lowercase(entries[i].text@)
}

/// The texts of `entries`, in order.
pub open spec fn entry_texts(entries: Seq<Entry>) -> Seq<Seq<char>> {
    Seq::new(entries.len(), |i: int| entries[i].text@)
}

/// Whether the lowercase form of a text starts with `prefix`.
pub open spec fn is_match(prefix: Seq<char>) -> spec_fn(Seq<char>) -> bool {
    |text: Seq<char>| prefix.is_prefix_of(lowercase(text))
}

/// Those of `texts` whose lowercase form starts with `prefix`, in order.
pub open spec fn matching(texts: Seq<Seq<char>>, prefix: Seq<char>) -> Seq<Seq<char>> {
    texts.filter(is_match(prefix))
}

/// Where every key is the lowercase form of its text, selecting by key is
/// matching by lowercase form.
pub proof fn lemma_selected_is_matching(entries: Seq<Entry>, prefix: Seq<char>)
    requires
        well_keyed(entries),
    ensures
        selected(entries, prefix) == matching(entry_texts(entries), prefix),
    decreases entries.len(),
{
    reveal(Seq::filter);
    if entries.len() > 0 {
        let front = entries.drop_last();
        assert(entry_texts(entries).drop_last() == entry_texts(front));
        lemma_selected_is_matching(front, prefix);
    }
}

/// Picks the text of a record of the municipality `id`.
pub open spec fn text_if_in(id: u16) -> spec_fn((u16, Seq<char>)) -> Option<Seq<char>> {
    |record: (u16, Seq<char>)|
        if record.0 == id {
            Some(record.1)
        } else {
            None
        }
}

/// The texts that `records` hold for the municipality `id`, in order.
pub open spec fn texts_for(records: Seq<(u16, Seq<char>)>, id: u16) -> Seq<Seq<char>> {
    records.filter_map(text_if_in(id))
}

/// The index of a dataset: each municipality that has a record, with its
/// texts in the order of the records.
pub open spec fn index_of(records: Seq<(u16, Seq<char>)>) -> Map<u16, Seq<Seq<char>>> {
    Map::new(|id: u16| texts_for(records, id).len() > 0, |id: u16| texts_for(records, id))
}

/// Every record is indexed under its own municipality: the index holds that
/// municipality, and the record's text is among its texts.
pub proof fn law_record_is_indexed(records: Seq<(u16, Seq<char>)>, j: int)
    requires
        0 <= j < records.len(),
    ensures
        index_of(records).contains_key(records[j].0),
        index_of(records)[records[j].0].contains(records[j].1),
    decreases records.len(),
{
    let id = records[j].0;
    let front = records.drop_last();
    let texts = texts_for(records, id);
    if j == records.len() - 1 {
        assert(texts[texts.len() - 1] == records[j].1);
    } else {
        law_record_is_indexed(front, j);
        let k = choose|k: int|
            0 <= k < texts_for(front, id).len() && texts_for(front, id)[k] == records[j].1;
        assert(texts[k] == records[j].1);
    }
}

/// Every text that the index holds for a municipality is the text of a record
/// of that municipality.
pub proof fn law_indexed_is_record(records: Seq<(u16, Seq<char>)>, id: u16, i: int)
    requires
        index_of(records).contains_key(id),
        0 <= i < index_of(records)[id].len(),
    ensures
        records.contains((id, index_of(records)[id][i])),
{
    let text = texts_for(records, id)[i];
    records.lemma_filter_map_contains(text_if_in(id), text);
    let record = choose|record: (u16, Seq<char>)| #[trigger]
        records.contains(record) && text_if_in(id)(record) == Some(text);
    assert(record == (id, text));
}

/// The index holds no municipality without a text.
pub proof fn law_indexed_has_text(records: Seq<(u16, Seq<char>)>, id: u16)
    requires
        index_of(records).contains_key(id),
    ensures
        index_of(records)[id].len() > 0,
{
}

/// What a lookup finds for a prefix that is taken as it stands: nothing for
/// a municipality that the index does not hold, else the first texts of that
/// municipality whose lowercase form starts with `prefix`.
pub open spec fn lookup(index: Map<u16, Seq<Seq<char>>>, prefix: Seq<char>, id: u16) -> Option<
    Seq<Seq<char>>,
> {
    if index.contains_key(id) {
        Some(capped(matching(index[id], prefix), RESULT_LIMIT as nat))
    } else {
        None
    }
}

/// The answer to a query: what a lookup finds for the lowercase form of
/// `prefix`.
pub open spec fn answer(index: Map<u16, Seq<Seq<char>>>, prefix: Seq<char>, id: u16) -> Option<
    Seq<Seq<char>>,
> {
    lookup(index, lowercase(prefix), id)
}

/// An answer as texts.
pub open spec fn answer_view(found: Option<Vec<&String>>) -> Option<Seq<Seq<char>>> {
    match found {
        Some(list) => Some(texts_of(list@)),
        None => None,
    }
}

/// `table` holds for the municipality `id` exactly the texts that `records`
/// hold for it, each with its key, and nothing where they hold none.
spec fn holds_for(table: Map<u16, Vec<Entry>>, records: Seq<(u16, Seq<char>)>, id: u16) -> bool {
    &&& table.contains_key(id) <==> texts_for(records, id).len() > 0
    &&& table.contains_key(id) ==> entry_texts(table[id]@) =~= texts_for(records, id)
        && well_keyed(table[id]@)
}

/// `table` holds exactly the records `records`.
spec fn holds_records(table: Map<u16, Vec<Entry>>, records: Seq<(u16, Seq<char>)>) -> bool {
    forall|id: u16|
        #![trigger table.contains_key(id)]
        #![trigger texts_for(records, id)]
        holds_for(table, records, id)
}

/// The autocomplete index: for each municipality of the dataset, its address
/// texts in dataset order. It is built once and only read afterwards.
pub struct Index {
    table: HashMap<u16, Vec<Entry>>,
}

impl View for Index {
    type V = Map<u16, Seq<Seq<char>>>;

    closed spec fn view(&self) -> Map<u16, Seq<Seq<char>>> {
        Map::new(
            |id: u16| self.table@.contains_key(id),
            |id: u16| entry_texts(self.table@[id]@),
        )
    }
}

impl Index {
    #[verifier::type_invariant]
    spec fn keyed(self) -> bool {
        forall|id: u16|
            self.table@.contains_key(id) ==> well_keyed(#[trigger] self.table@[id]@)
                && self.table@[id]@.len() > 0
    }

    /// Builds the index of `records`.
    pub fn from_records(records: Vec<AddressRecord>) -> (index: Index)
        ensures
            index@ == index_of(records_view(records@)),
    {
        let ghost all = records_view(records@);
        let mut table: HashMap<u16, Vec<Entry>> = HashMap::new();
        for record in it: records
            invariant
                records_view(it.seq()) == all,
                holds_records(table@, all.take(it.index() as int)),
        {
            let ghost n = it.index() as int;
            let ghost before = table@;
            let key = to_lowercase(record.address_text.as_str());
            let municipality_id = record.municipality_id;
            let mut entries = match table.remove(&municipality_id) {
                Some(entries) => entries,
                None => Vec::new(),
            };
            entries.push(Entry { text: record.address_text, key });
            table.insert(municipality_id, entries);
            proof {
                let now = all.take(n + 1);
                assert(now.drop_last() == all.take(n));
                assert forall|id: u16|
                    #![trigger table@.contains_key(id)]
                    #![trigger texts_for(now, id)]
                    holds_for(table@, now, id) by {
                    assert(holds_for(before, all.take(n), id));
                }
            }
        }
        assert(all.take(all.len() as int) == all);
        Index { table }
    }

    /// Whether the index holds the municipality `municipality_id`.
    pub fn contains(&self, municipality_id: u16) -> (known: bool)
        ensures
            known == self@.contains_key(municipality_id),
            known ==> self@[municipality_id].len() > 0,
    {
        proof {
            use_type_invariant(self);
        }
        self.table.contains_key(&municipality_id)
    }

    /// Answers a query: the first texts of the municipality, at most
    /// [`RESULT_LIMIT`], that start with `prefix` when case is ignored, or
    /// `None` where the index does not hold the municipality.
    pub fn query<'a>(&'a self, prefix: &str, municipality_id: u16) -> (found: Option<
        Vec<&'a String>,
    >)
        ensures
            answer_view(found) == answer(self@, prefix@, municipality_id),
            found is None <==> !self@.contains_key(municipality_id),
            found matches Some(list) ==> list.len() <= RESULT_LIMIT && forall|i: int|
                0 <= i < list.len() ==> lowercase(prefix@).is_prefix_of(
                    lowercase(#[trigger] list[i]@),
                ),
            found matches Some(list) ==> (prefix@.len() == 0 ==> texts_of(list@) == capped(
                self@[municipality_id],
                RESULT_LIMIT as nat,
            )),
    {
        let folded = to_lowercase(prefix);
        let found = autocomplete(folded.as_str(), municipality_id, self);
        proof {
            if found is Some {
                law_answer_matches(self@, prefix@, municipality_id);
                let list = found->0;
                assert forall|i: int| 0 <= i < list.len() implies lowercase(
                    prefix@,
                ).is_prefix_of(lowercase(#[trigger] list[i]@)) by {
                    assert(texts_of(list@)[i] == list[i]@);
                }
                if prefix@.len() == 0 {
                    law_empty_prefix_matches_all(self@, prefix@, municipality_id);
                }
            }
        }
        found
    }
}

/// Looks `prefix` up as it stands: the first texts of the municipality, at
/// most [`RESULT_LIMIT`], whose lowercase form starts with `prefix`, or `None`
/// where the index does not hold the municipality. A caller that wants case
/// ignored passes a lowercase prefix, or calls [`Index::query`].
pub fn autocomplete<'a>(prefix: &str, municipality_id: u16, index: &'a Index) -> (found: Option<
    Vec<&'a String>,
>)
    ensures
        answer_view(found) == lookup(index@, prefix@, municipality_id),
{
    proof {
        use_type_invariant(index);
    }
    match index.table.get(&municipality_id) {
        None => None,
        Some(entries) => {
            proof {
                lemma_selected_is_matching(entries@, prefix@);
            }
            Some(select_matches(entries, prefix, RESULT_LIMIT))
        },
    }
}

/// The empty prefix matches every text.
pub proof fn lemma_matching_empty_prefix(texts: Seq<Seq<char>>)
    ensures
        matching(texts, Seq::empty()) == texts,
    decreases texts.len(),
{
    reveal(Seq::filter);
    if texts.len() > 0 {
        lemma_matching_empty_prefix(texts.drop_last());
    }
}

/// An answer holds at most [`RESULT_LIMIT`] texts, and the lowercase form of
/// each starts with the lowercase form of the prefix.
pub proof fn law_answer_matches(index: Map<u16, Seq<Seq<char>>>, prefix: Seq<char>, id: u16)
    requires
        index.contains_key(id),
    ensures
        answer(index, prefix, id) matches Some(found) && found.len() <= RESULT_LIMIT && forall|
            i: int,
        |
            0 <= i < found.len() ==> lowercase(prefix).is_prefix_of(lowercase(#[trigger] found[i])),
{
    let hits = matching(index[id], lowercase(prefix));
    let found = capped(hits, RESULT_LIMIT as nat);
    assert forall|i: int| 0 <= i < found.len() implies lowercase(prefix).is_prefix_of(
        lowercase(#[trigger] found[i]),
    ) by {
        index[id].lemma_filter_pred(is_match(lowercase(prefix)), i);
    }
}

/// A municipality that the index does not hold has no answer, whatever the
/// prefix; one that it holds always has one.
pub proof fn law_unknown_municipality(index: Map<u16, Seq<Seq<char>>>, prefix: Seq<char>, id: u16)
    ensures
        answer(index, prefix, id) is None <==> !index.contains_key(id),
{
}

/// A prefix whose lowercase form is empty is answered with the first texts of
/// the municipality, in their order.
pub proof fn law_empty_prefix_matches_all(
    index: Map<u16, Seq<Seq<char>>>,
    prefix: Seq<char>,
    id: u16,
)
    requires
        index.contains_key(id),
        lowercase(prefix).len() == 0,
    ensures
        answer(index, prefix, id) == Some(capped(index[id], RESULT_LIMIT as nat)),
{
    assert(lowercase(prefix) == Seq::<char>::empty());
    lemma_matching_empty_prefix(index[id]);
}

/// Case is ignored: two prefixes with the same lowercase form have the same
/// answer.
pub proof fn law_case_insensitive(
    index: Map<u16, Seq<Seq<char>>>,
    first: Seq<char>,
    second: Seq<char>,
    id: u16,
)
    requires
        lowercase(first) == lowercase(second),
    ensures
        answer(index, first, id) == answer(index, second, id),
{
}

/// A query has one answer: any two results that meet the contract of
/// [`Index::query`] for the same index, prefix and municipality hold the same
/// texts in the same order.
pub proof fn law_deterministic(
    index: Map<u16, Seq<Seq<char>>>,
    prefix: Seq<char>,
    id: u16,
    first: Option<Vec<&String>>,
    second: Option<Vec<&String>>,
)
    requires
        answer_view(first) == answer(index, prefix, id),
        answer_view(second) == answer(index, prefix, id),
    ensures
        answer_view(first) == answer_view(second),
        first is None <==> second is None,
        first matches Some(a) ==> (second matches Some(b) && a.len() == b.len() && forall|i: int|
            0 <= i < a.len() ==> a[i]@ == b[i]@),
{
    if first is Some {
        let a = first->0;
        let b = second->0;
        assert(texts_of(b@).len() == b.len());
        assert forall|i: int| 0 <= i < a.len() implies a[i]@ == b[i]@ by {
            assert(texts_of(b@)[i] == b[i]@);
        }
    }
}

} // verus!
