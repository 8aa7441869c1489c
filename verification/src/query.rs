//! Query-engine metadata helpers: sort-key computation over chunk
//! statistics, delete-predicate column listing, and the token that
//! marks a recorded query as completed.
//!
//! Chunk data and plans live outside; this module works on the plain
//! statistics a chunk exposes: column names, their kinds, and their
//! distinct-value counts.

use vstd::prelude::*;
use crate::text::{bytes_lt, str_eq, str_lt, str_view_lt};

verus! {

/// Kind of a column as the storage engine classifies it.
#[derive(Clone, Copy, Debug, PartialEq, Eq, Structural)]
pub enum InfluxDbType {
    Tag,
    Field,
    Timestamp,
}

/// Statistics of one column of a chunk.
#[derive(Clone, Debug)]
pub struct ColumnSummary {
    pub name: String,
    pub influxdb_type: Option<InfluxDbType>,
    /// Distinct values observed, when known.
    pub distinct_count: Option<u64>,
}

/// Statistics of the data one chunk holds.
#[derive(Clone, Debug)]
pub struct TableSummary {
    pub columns: Vec<ColumnSummary>,
}

/// What a chunk exposes about itself to planning: its summary, when
/// it can provide one.
#[derive(Clone, Debug)]
pub struct ChunkMeta {
    pub summary: Option<TableSummary>,
}

/// One column reference of a delete predicate.
#[derive(Clone, Debug)]
pub struct DeleteExpr {
    pub column: String,
}

/// A delete predicate: the columns its expressions constrain.
#[derive(Clone, Debug)]
pub struct DeletePredicate {
    pub exprs: Vec<DeleteExpr>,
}

/// The reserved timestamp column name.
pub open spec fn time_column() -> Seq<char> {
    seq!['t', 'i', 'm', 'e']
}

/// One tag column's accumulated cardinality.
#[derive(Clone, Debug)]
pub struct TagCardinality {
    pub name: String,
    pub total: u64,
}

/// Mathematical image of a cardinality table: (name, total) pairs.
pub open spec fn card_models(cards: Seq<TagCardinality>) -> Seq<(Seq<char>, u64)> {
    cards.map_values(|c: TagCardinality| (c.name@, c.total))
}

/// Addition that stops at the largest representable count.
pub open spec fn sat_add(a: u64, b: u64) -> u64 {
    if a + b > u64::MAX {
        u64::MAX
    } else {
        (a + b) as u64
    }
}

/// Index of the accumulated entry with the given name.
pub open spec fn spec_card_index(cards: Seq<(Seq<char>, u64)>, name: Seq<char>) -> Option<int>
    decreases cards.len(),
{
    if cards.len() == 0 {
        None
    } else if cards[0].0 == name {
        Some(0)
    } else {
        match spec_card_index(cards.skip(1), name) {
            Some(j) => Some(j + 1),
            None => None,
        }
    }
}

/// Fold one count into the accumulation: add to the entry of the
/// same name, or open a new entry.
pub open spec fn spec_card_add(cards: Seq<(Seq<char>, u64)>, name: Seq<char>, count: u64) -> Seq<
    (Seq<char>, u64),
> {
    match spec_card_index(cards, name) {
        Some(i) => cards.update(i, (name, sat_add(cards[i].1, count))),
        None => cards.push((name, count)),
    }
}

/// The count one column contributes.
pub open spec fn spec_column_count(c: ColumnSummary) -> u64 {
    match c.distinct_count {
        Some(n) => n,
        None => 0,
    }
}

/// Fold a summary's tag columns into the accumulation, in order;
/// non-tag columns contribute nothing.
pub open spec fn spec_fold_columns(
    cards: Seq<(Seq<char>, u64)>,
    columns: Seq<ColumnSummary>,
) -> Seq<(Seq<char>, u64)>
    decreases columns.len(),
{
    if columns.len() == 0 {
        cards
    } else {
        let next = if columns[0].influxdb_type == Some(InfluxDbType::Tag) {
            spec_card_add(cards, columns[0].name@, spec_column_count(columns[0]))
        } else {
            cards
        };
        spec_fold_columns(next, columns.skip(1))
    }
}

/// Fold all summaries into the accumulation.
pub open spec fn spec_fold_summaries(
    cards: Seq<(Seq<char>, u64)>,
    summaries: Seq<TableSummary>,
) -> Seq<(Seq<char>, u64)>
    decreases summaries.len(),
{
    if summaries.len() == 0 {
        cards
    } else {
        spec_fold_summaries(
            spec_fold_columns(cards, summaries[0].columns@),
            summaries.skip(1),
        )
    }
}

/// Fold the summaries of the chunks that have one.
pub open spec fn spec_fold_chunks(
    cards: Seq<(Seq<char>, u64)>,
    chunks: Seq<ChunkMeta>,
) -> Seq<(Seq<char>, u64)>
    decreases chunks.len(),
{
    if chunks.len() == 0 {
        cards
    } else {
        let next = match chunks[0].summary {
            Some(s) => spec_fold_columns(cards, s.columns@),
            None => cards,
        };
        spec_fold_chunks(next, chunks.skip(1))
    }
}

/// Sort-key order: lower cardinality first, ties by name, byte-wise.
pub open spec fn card_le(a: (Seq<char>, u64), b: (Seq<char>, u64)) -> bool {
    a.1 < b.1 || (a.1 == b.1 && !str_view_lt(b.0, a.0))
}

/// Insert one entry into a run sorted by [`card_le`], before the
/// first entry it does not come after.
pub open spec fn spec_insert_card(sorted: Seq<(Seq<char>, u64)>, c: (Seq<char>, u64)) -> Seq<
    (Seq<char>, u64),
>
    decreases sorted.len(),
{
    if sorted.len() == 0 {
        seq![c]
    } else if card_le(c, sorted[0]) {
        seq![c] + sorted
    } else {
        seq![sorted[0]] + spec_insert_card(sorted.skip(1), c)
    }
}

/// Sort the accumulated entries by [`card_le`], inserting them in
/// order into a sorted run.
pub open spec fn spec_sort_cards_from(
    sorted: Seq<(Seq<char>, u64)>,
    cards: Seq<(Seq<char>, u64)>,
) -> Seq<(Seq<char>, u64)>
    decreases cards.len(),
{
    if cards.len() == 0 {
        sorted
    } else {
        spec_sort_cards_from(spec_insert_card(sorted, cards[0]), cards.skip(1))
    }
}

/// An accumulation run ordered by [`card_le`].
pub open spec fn cards_sorted(s: Seq<(Seq<char>, u64)>) -> bool {
    forall|i: int, j: int| 0 <= i < j < s.len() ==> card_le(#[trigger] s[i], #[trigger] s[j])
}

/// [`card_le`] is total: of any two entries one comes no later than
/// the other.
proof fn lemma_card_le_total(a: (Seq<char>, u64), b: (Seq<char>, u64))
    ensures
        card_le(a, b) || card_le(b, a),
{
    if a.1 == b.1 {
        crate::text::lemma_bytes_lt_asymmetric(
            vstd::utf8::encode_utf8(a.0),
            vstd::utf8::encode_utf8(b.0),
        );
    }
}

/// [`card_le`] is transitive.
proof fn lemma_card_le_trans(a: (Seq<char>, u64), b: (Seq<char>, u64), c: (Seq<char>, u64))
    requires
        card_le(a, b),
        card_le(b, c),
    ensures
        card_le(a, c),
{
    if a.1 == b.1 && b.1 == c.1 {
        let ea = vstd::utf8::encode_utf8(a.0);
        let eb = vstd::utf8::encode_utf8(b.0);
        let ec = vstd::utf8::encode_utf8(c.0);
        crate::text::lemma_bytes_lt_connected(eb, ea);
        crate::text::lemma_bytes_lt_connected(ec, eb);
        if bytes_lt(ec, ea) {
            if ea == eb {
            } else if ec == eb {
            } else {
                crate::text::lemma_bytes_lt_trans(ea, eb, ec);
                crate::text::lemma_bytes_lt_asymmetric(ea, ec);
            }
        }
    }
}

/// Inserting into a sorted run keeps it sorted; the run grows by the
/// inserted entry, and everything in it was there before or is the
/// inserted entry.
proof fn lemma_insert_card_sorted(sorted: Seq<(Seq<char>, u64)>, c: (Seq<char>, u64))
    requires
        cards_sorted(sorted),
    ensures
        cards_sorted(spec_insert_card(sorted, c)),
        spec_insert_card(sorted, c).len() == sorted.len() + 1,
        forall|k: int|
            0 <= k < spec_insert_card(sorted, c).len() ==> (#[trigger] spec_insert_card(
                sorted,
                c,
            )[k] == c || sorted.contains(spec_insert_card(sorted, c)[k])),
    decreases sorted.len(),
{
    let out = spec_insert_card(sorted, c);
    if sorted.len() == 0 {
        assert(out[0] == c);
    } else if card_le(c, sorted[0]) {
        assert(out == seq![c] + sorted);
        assert forall|i: int, j: int| 0 <= i < j < out.len() implies card_le(
            #[trigger] out[i],
            #[trigger] out[j],
        ) by {
            if i == 0 {
                if j > 1 {
                    lemma_card_le_trans(c, sorted[0], sorted[j - 1]);
                }
            } else {
                assert(out[i] == sorted[i - 1]);
                assert(out[j] == sorted[j - 1]);
            }
        }
        assert forall|k: int| 0 <= k < out.len() implies (#[trigger] out[k] == c
            || sorted.contains(out[k])) by {
            if k > 0 {
                assert(out[k] == sorted[k - 1]);
            }
        }
    } else {
        assert forall|i: int, j: int|
            0 <= i < j < sorted.skip(1).len() implies card_le(
            #[trigger] sorted.skip(1)[i],
            #[trigger] sorted.skip(1)[j],
        ) by {
            assert(sorted.skip(1)[i] == sorted[i + 1]);
            assert(sorted.skip(1)[j] == sorted[j + 1]);
        }
        lemma_insert_card_sorted(sorted.skip(1), c);
        let inner = spec_insert_card(sorted.skip(1), c);
        assert(out == seq![sorted[0]] + inner);
        lemma_card_le_total(c, sorted[0]);
        assert(card_le(sorted[0], c));
        assert forall|i: int, j: int| 0 <= i < j < out.len() implies card_le(
            #[trigger] out[i],
            #[trigger] out[j],
        ) by {
            if i == 0 {
                assert(out[j] == inner[j - 1]);
                if inner[j - 1] == c {
                } else {
                    let w = choose|w: int|
                        0 <= w < sorted.skip(1).len() && sorted.skip(1)[w] == inner[j - 1];
                    assert(sorted.skip(1)[w] == sorted[w + 1]);
                    assert(card_le(sorted[0], sorted[w + 1]));
                }
            } else {
                assert(out[i] == inner[i - 1]);
                assert(out[j] == inner[j - 1]);
            }
        }
        assert forall|k: int| 0 <= k < out.len() implies (#[trigger] out[k] == c
            || sorted.contains(out[k])) by {
            if k == 0 {
                assert(sorted.contains(sorted[0]));
            } else {
                assert(out[k] == inner[k - 1]);
                if inner[k - 1] != c {
                    let w = choose|w: int|
                        0 <= w < sorted.skip(1).len() && sorted.skip(1)[w] == inner[k - 1];
                    assert(sorted.skip(1)[w] == sorted[w + 1]);
                    assert(sorted.contains(sorted[w + 1]));
                }
            }
        }
    }
}

/// Sorting law: whatever the accumulated cardinalities, the computed
/// run is ordered by [`card_le`] — rising cardinality, ties broken
/// by name.
pub proof fn lemma_sort_cards_sorted(sorted: Seq<(Seq<char>, u64)>, cards: Seq<(Seq<char>, u64)>)
    requires
        cards_sorted(sorted),
    ensures
        cards_sorted(spec_sort_cards_from(sorted, cards)),
    decreases cards.len(),
{
    if cards.len() > 0 {
        lemma_insert_card_sorted(sorted, cards[0]);
        lemma_sort_cards_sorted(spec_insert_card(sorted, cards[0]), cards.skip(1));
    }
}

/// The sort key computed from an accumulation: the tag names ordered
/// by rising cardinality, the timestamp column last.
pub open spec fn spec_sort_key_of(cards: Seq<(Seq<char>, u64)>, key: Seq<String>) -> bool {
    let sorted = spec_sort_cards_from(Seq::<(Seq<char>, u64)>::empty(), cards);
    &&& key.len() == sorted.len() + 1
    &&& forall|i: int| 0 <= i < sorted.len() ==> (#[trigger] key[i])@ == sorted[i].0
    &&& key[key.len() - 1]@ == time_column()
}

/// Whether two column types are the same.
fn type_is_tag(t: &Option<InfluxDbType>) -> (r: bool)
    ensures
        r == (*t == Some(InfluxDbType::Tag)),
{
    match t {
        Some(InfluxDbType::Tag) => true,
        _ => false,
    }
}

/// The first matching index determines the accumulation slot.
proof fn lemma_card_index_at(cards: Seq<(Seq<char>, u64)>, name: Seq<char>, i: int)
    requires
        0 <= i <= cards.len(),
        forall|k: int| 0 <= k < i ==> (#[trigger] cards[k]).0 != name,
        i < cards.len() ==> cards[i].0 == name,
    ensures
        i < cards.len() ==> spec_card_index(cards, name) == Some(i),
        i == cards.len() ==> spec_card_index(cards, name) is None,
    decreases cards.len(),
{
    if cards.len() > 0 && cards[0].0 != name {
        assert(i >= 1);
        lemma_card_index_at(cards.skip(1), name, i - 1);
        assert forall|k: int| 0 <= k < i - 1 implies (#[trigger] cards.skip(1)[k]).0 != name by {
            assert(cards.skip(1)[k] == cards[k + 1]);
        }
        if i < cards.len() {
            assert(cards.skip(1)[i - 1] == cards[i]);
        }
    }
}

/// Fold one count into the accumulation vector.
fn card_add(cards: &mut Vec<TagCardinality>, name: &String, count: u64)
    ensures
        card_models(final(cards)@) == spec_card_add(card_models(old(cards)@), name@, count),
{
    let ghost m = card_models(cards@);
    let mut i: usize = 0;
    while i < cards.len()
        invariant
            i <= cards@.len(),
            cards@ == old(cards)@,
            m == card_models(cards@),
            forall|k: int| 0 <= k < i ==> (#[trigger] m[k]).0 != name@,
        decreases cards@.len() - i,
    {
        if str_eq(cards[i].name.as_str(), name.as_str()) {
            let total = cards[i].total;
            let updated = if total > u64::MAX - count {
                u64::MAX
            } else {
                total + count
            };
            let ghost before = cards@;
            cards[i].total = updated;
            proof {
                lemma_card_index_at(m, name@, i as int);
                assert(cards@ == before.update(i as int, cards@[i as int]));
                assert(cards@[i as int].name@ == name@);
                assert(cards@[i as int].total == sat_add(m[i as int].1, count));
                assert(card_models(cards@) =~= m.update(
                    i as int,
                    (name@, sat_add(m[i as int].1, count)),
                ));
            }
            return;
        }
        i = i + 1;
    }
    proof {
        lemma_card_index_at(m, name@, i as int);
    }
    cards.push(TagCardinality { name: name.clone(), total: count });
    proof {
        assert(card_models(cards@) =~= m.push((name@, count)));
    }
}

/// Fold one summary's tag columns into the accumulation vector.
fn fold_summary_cards(cards: &mut Vec<TagCardinality>, summary: &TableSummary)
    ensures
        card_models(final(cards)@) == spec_fold_columns(
            card_models(old(cards)@),
            summary.columns@,
        ),
{
    let ghost m0 = card_models(cards@);
    let mut j: usize = 0;
    proof {
        assert(summary.columns@.skip(0) =~= summary.columns@);
    }
    while j < summary.columns.len()
        invariant
            j <= summary.columns@.len(),
            spec_fold_columns(m0, summary.columns@) == spec_fold_columns(
                card_models(cards@),
                summary.columns@.skip(j as int),
            ),
        decreases summary.columns@.len() - j,
    {
        proof {
            assert(summary.columns@.skip(j as int)[0] == summary.columns@[j as int]);
            assert(summary.columns@.skip(j as int).skip(1) =~= summary.columns@.skip(
                j as int + 1,
            ));
        }
        let col = &summary.columns[j];
        if type_is_tag(&col.influxdb_type) {
            let count = match col.distinct_count {
                Some(n) => n,
                None => 0,
            };
            card_add(cards, &col.name, count);
        }
        j = j + 1;
    }
    proof {
        assert(summary.columns@.skip(j as int) =~= Seq::<ColumnSummary>::empty());
    }
}

/// Sort-key order on accumulated entries.
fn card_le_exec(a: &TagCardinality, b: &TagCardinality) -> (r: bool)
    ensures
        r == card_le((a.name@, a.total), (b.name@, b.total)),
{
    if a.total < b.total {
        true
    } else if a.total == b.total {
        !str_lt(b.name.as_str(), a.name.as_str())
    } else {
        false
    }
}

/// Insert one entry into a sorted run.
fn insert_card(sorted: Vec<TagCardinality>, c: TagCardinality) -> (r: Vec<TagCardinality>)
    ensures
        card_models(r@) == spec_insert_card(card_models(sorted@), (c.name@, c.total)),
    decreases sorted@.len(),
{
    let ghost sm = card_models(sorted@);
    let ghost cm = (c.name@, c.total);
    if sorted.len() == 0 {
        let mut v: Vec<TagCardinality> = Vec::new();
        v.push(c);
        proof {
            assert(card_models(v@) =~= seq![cm]);
        }
        v
    } else if card_le_exec(&c, &sorted[0]) {
        let mut v = sorted;
        v.insert(0, c);
        proof {
            assert(card_models(v@) =~= seq![cm] + sm);
        }
        v
    } else {
        let mut rest = sorted;
        let head = rest.remove(0);
        let ghost hm = (head.name@, head.total);
        proof {
            assert(card_models(rest@) =~= sm.skip(1));
        }
        let inner = insert_card(rest, c);
        let mut v = inner;
        v.insert(0, head);
        proof {
            assert(card_models(v@) =~= seq![hm] + spec_insert_card(sm.skip(1), cm));
        }
        v
    }
}

/// Sorted tag names followed by the timestamp column.
fn sort_and_finish(cards: Vec<TagCardinality>) -> (r: Vec<String>)
    ensures
        spec_sort_key_of(card_models(cards@), r@),
{
    let ghost all = card_models(cards@);
    let mut remaining = cards;
    let mut sorted: Vec<TagCardinality> = Vec::new();
    proof {
        assert(card_models(sorted@) =~= Seq::<(Seq<char>, u64)>::empty());
    }
    while remaining.len() > 0
        invariant
            spec_sort_cards_from(Seq::<(Seq<char>, u64)>::empty(), all) == spec_sort_cards_from(
                card_models(sorted@),
                card_models(remaining@),
            ),
        decreases remaining@.len(),
    {
        let ghost rm = card_models(remaining@);
        let mut rest = remaining;
        let next = rest.remove(0);
        proof {
            assert(card_models(rest@) =~= rm.skip(1));
            assert(rm[0] == (next.name@, next.total));
        }
        sorted = insert_card(sorted, next);
        remaining = rest;
    }
    proof {
        assert(card_models(remaining@) =~= Seq::<(Seq<char>, u64)>::empty());
    }
    let ghost final_sorted = card_models(sorted@);
    let mut key: Vec<String> = Vec::new();
    let mut i: usize = 0;
    while i < sorted.len()
        invariant
            i <= sorted@.len(),
            final_sorted == card_models(sorted@),
            key@.len() == i,
            forall|k: int| 0 <= k < i ==> (#[trigger] key@[k])@ == final_sorted[k].0,
        decreases sorted@.len() - i,
    {
        key.push(sorted[i].name.clone());
        i = i + 1;
    }
    let time: String = "time".to_owned();
    proof {
        reveal_strlit("time");
        assert(time@ =~= time_column());
    }
    key.push(time);
    key
}

/// Whether every chunk can provide statistics. When at least one
/// cannot, potential duplicates cannot be ruled out and callers fall
/// back to the schema's own key.
pub fn chunks_have_stats(chunks: &Vec<ChunkMeta>) -> (r: bool)
    ensures
        r == (forall|i: int| 0 <= i < chunks@.len() ==> (#[trigger] chunks@[i]).summary is Some),
{
    let mut i: usize = 0;
    while i < chunks.len()
        invariant
            i <= chunks@.len(),
            forall|k: int| 0 <= k < i ==> (#[trigger] chunks@[k]).summary is Some,
        decreases chunks@.len() - i,
    {
        if chunks[i].summary.is_none() {
            return false;
        }
        i = i + 1;
    }
    true
}

/// Compute a sort key that orders lower-cardinality tag columns
/// first, ties broken by name, with the timestamp column always
/// last. In the absence of more precise information this yields a
/// good ordering for run-length compression.
pub fn compute_sort_key(summaries: &Vec<TableSummary>) -> (r: Vec<String>)
    ensures
        spec_sort_key_of(
            spec_fold_summaries(Seq::<(Seq<char>, u64)>::empty(), summaries@),
            r@,
        ),
{
    let mut cards: Vec<TagCardinality> = Vec::new();
    let mut i: usize = 0;
    proof {
        assert(card_models(cards@) =~= Seq::<(Seq<char>, u64)>::empty());
        assert(summaries@.skip(0) =~= summaries@);
    }
    while i < summaries.len()
        invariant
            i <= summaries@.len(),
            spec_fold_summaries(Seq::<(Seq<char>, u64)>::empty(), summaries@)
                == spec_fold_summaries(card_models(cards@), summaries@.skip(i as int)),
        decreases summaries@.len() - i,
    {
        proof {
            assert(summaries@.skip(i as int)[0] == summaries@[i as int]);
            assert(summaries@.skip(i as int).skip(1) =~= summaries@.skip(i as int + 1));
        }
        fold_summary_cards(&mut cards, &summaries[i]);
        i = i + 1;
    }
    proof {
        assert(summaries@.skip(i as int) =~= Seq::<TableSummary>::empty());
    }
    sort_and_finish(cards)
}

/// Compute the sort key for a set of chunks: from their summaries
/// when every chunk has statistics, and otherwise the schema's own
/// primary key, unchanged.
pub fn compute_sort_key_for_chunks(primary_key: &Vec<String>, chunks: &Vec<ChunkMeta>) -> (r: Vec<
    String,
>)
    ensures
        ({
            if forall|i: int| 0 <= i < chunks@.len() ==> (#[trigger] chunks@[i]).summary is Some {
                spec_sort_key_of(
                    spec_fold_chunks(Seq::<(Seq<char>, u64)>::empty(), chunks@),
                    r@,
                )
            } else {
                r@ == primary_key@
            }
        }),
{
    if !chunks_have_stats(chunks) {
        let mut key: Vec<String> = Vec::new();
        let mut i: usize = 0;
        while i < primary_key.len()
            invariant
                i <= primary_key@.len(),
                key@.len() == i,
                forall|k: int| 0 <= k < i ==> key@[k] == primary_key@[k],
            decreases primary_key@.len() - i,
        {
            key.push(primary_key[i].clone());
            i = i + 1;
        }
        proof {
            assert(key@ =~= primary_key@);
        }
        return key;
    }
    let mut cards: Vec<TagCardinality> = Vec::new();
    let mut i: usize = 0;
    proof {
        assert(card_models(cards@) =~= Seq::<(Seq<char>, u64)>::empty());
        assert(chunks@.skip(0) =~= chunks@);
    }
    while i < chunks.len()
        invariant
            i <= chunks@.len(),
            spec_fold_chunks(Seq::<(Seq<char>, u64)>::empty(), chunks@) == spec_fold_chunks(
                card_models(cards@),
                chunks@.skip(i as int),
            ),
        decreases chunks@.len() - i,
    {
        proof {
            assert(chunks@.skip(i as int)[0] == chunks@[i as int]);
            assert(chunks@.skip(i as int).skip(1) =~= chunks@.skip(i as int + 1));
        }
        match &chunks[i].summary {
            Some(s) => {
                fold_summary_cards(&mut cards, s);
            },
            None => {},
        }
        i = i + 1;
    }
    proof {
        assert(chunks@.skip(i as int) =~= Seq::<ChunkMeta>::empty());
    }
    sort_and_finish(cards)
}

/// The views of a list of names.
pub open spec fn names_of(names: Seq<String>) -> Seq<Seq<char>> {
    names.map_values(|n: String| n@)
}

/// The column names one predicate's expressions constrain, in order.
pub open spec fn spec_expr_columns(exprs: Seq<DeleteExpr>) -> Seq<Seq<char>>
    decreases exprs.len(),
{
    if exprs.len() == 0 {
        Seq::<Seq<char>>::empty()
    } else {
        seq![exprs[0].column@] + spec_expr_columns(exprs.skip(1))
    }
}

/// The column names a set of delete predicates constrains, in order
/// of appearance, duplicates kept.
pub open spec fn spec_predicate_columns(predicates: Seq<DeletePredicate>) -> Seq<Seq<char>>
    decreases predicates.len(),
{
    if predicates.len() == 0 {
        Seq::<Seq<char>>::empty()
    } else {
        spec_expr_columns(predicates[0].exprs@) + spec_predicate_columns(predicates.skip(1))
    }
}

/// Membership after appending one name.
proof fn lemma_contains_push(s: Seq<Seq<char>>, x: Seq<char>, n: Seq<char>)
    ensures
        s.push(x).contains(n) <==> s.contains(n) || n == x,
{
    if s.push(x).contains(n) {
        let i = choose|i: int| 0 <= i < s.push(x).len() && s.push(x)[i] == n;
        if i < s.len() {
            assert(s[i] == n);
        }
    }
    if s.contains(n) {
        let i = choose|i: int| 0 <= i < s.len() && s[i] == n;
        assert(s.push(x)[i] == n);
    }
    if n == x {
        assert(s.push(x)[s.len() as int] == n);
    }
}

/// Every column name the predicates constrain, in order of
/// appearance, duplicates and the timestamp column kept.
fn collect_delete_columns(predicates: &Vec<DeletePredicate>) -> (r: Vec<String>)
    ensures
        names_of(r@) == spec_predicate_columns(predicates@),
{
    let mut flat: Vec<String> = Vec::new();
    let mut p: usize = 0;
    proof {
        assert(names_of(flat@) =~= Seq::<Seq<char>>::empty());
        assert(predicates@.skip(0) =~= predicates@);
        assert(names_of(flat@) + spec_predicate_columns(predicates@) =~= spec_predicate_columns(
            predicates@,
        ));
    }
    while p < predicates.len()
        invariant
            p <= predicates@.len(),
            names_of(flat@) + spec_predicate_columns(predicates@.skip(p as int))
                =~= spec_predicate_columns(predicates@),
        decreases predicates@.len() - p,
    {
        proof {
            assert(predicates@.skip(p as int)[0] == predicates@[p as int]);
            assert(predicates@.skip(p as int).skip(1) =~= predicates@.skip(p as int + 1));
        }
        let pred = &predicates[p];
        let mut x: usize = 0;
        proof {
            assert(pred.exprs@.skip(0) =~= pred.exprs@);
        }
        while x < pred.exprs.len()
            invariant
                x <= pred.exprs@.len(),
                p < predicates@.len(),
                pred == &predicates@[p as int],
                names_of(flat@) + spec_expr_columns(pred.exprs@.skip(x as int))
                    + spec_predicate_columns(predicates@.skip(p as int + 1))
                    =~= spec_predicate_columns(predicates@),
            decreases pred.exprs@.len() - x,
        {
            proof {
                assert(pred.exprs@.skip(x as int)[0] == pred.exprs@[x as int]);
                assert(pred.exprs@.skip(x as int).skip(1) =~= pred.exprs@.skip(x as int + 1));
            }
            let ghost before = flat@;
            flat.push(pred.exprs[x].column.clone());
            proof {
                assert(names_of(flat@) =~= names_of(before).push(pred.exprs@[x as int].column@));
                assert(names_of(flat@) + (spec_expr_columns(pred.exprs@.skip(x as int + 1))
                    + spec_predicate_columns(predicates@.skip(p as int + 1))) =~= names_of(before)
                    + (seq![pred.exprs@[x as int].column@] + spec_expr_columns(pred.exprs@.skip(
                    x as int + 1,
                )) + spec_predicate_columns(predicates@.skip(p as int + 1))));
                assert(names_of(flat@) + spec_expr_columns(pred.exprs@.skip(x as int + 1))
                    + spec_predicate_columns(predicates@.skip(p as int + 1))
                    =~= spec_predicate_columns(predicates@));
            }
            x = x + 1;
        }
        proof {
            assert(pred.exprs@.skip(x as int) =~= Seq::<DeleteExpr>::empty());
            assert(spec_expr_columns(Seq::<DeleteExpr>::empty()) =~= Seq::<Seq<char>>::empty());
            assert(names_of(flat@) + spec_predicate_columns(predicates@.skip(p as int + 1))
                =~= spec_predicate_columns(predicates@));
        }
        p = p + 1;
    }
    proof {
        assert(predicates@.skip(p as int) =~= Seq::<DeletePredicate>::empty());
        assert(spec_predicate_columns(Seq::<DeletePredicate>::empty())
            =~= Seq::<Seq<char>>::empty());
        assert(names_of(flat@) =~= names_of(flat@) + Seq::<Seq<char>>::empty());
    }
    flat
}

/// The distinct members of a list of names, except the timestamp
/// column, in strictly ascending byte-wise order.
fn sorted_unique_excluding_time(input: &Vec<String>) -> (r: Vec<String>)
    ensures
        forall|a: int, b: int|
            0 <= a < b < r@.len() ==> str_view_lt((#[trigger] r@[a])@, (#[trigger] r@[b])@),
        forall|n: Seq<char>|
            #![trigger names_of(r@).contains(n)]
            #![trigger names_of(input@).contains(n)]
            names_of(r@).contains(n) <==> names_of(input@).contains(n) && n != time_column(),
{
    let mut out: Vec<String> = Vec::new();
    let mut k: usize = 0;
    proof {
        assert(names_of(out@) =~= Seq::<Seq<char>>::empty());
        assert(names_of(input@).take(0) =~= Seq::<Seq<char>>::empty());
    }
    while k < input.len()
        invariant
            k <= input@.len(),
            forall|a: int, b: int|
                0 <= a < b < out@.len() ==> str_view_lt(
                    (#[trigger] out@[a])@,
                    (#[trigger] out@[b])@,
                ),
            forall|n: Seq<char>|
                #![trigger names_of(out@).contains(n)]
                #![trigger names_of(input@).take(k as int).contains(n)]
                names_of(out@).contains(n) <==> names_of(input@).take(k as int).contains(n) && n
                    != time_column(),
        decreases input@.len() - k,
    {
        let ghost before = out@;
        let name = &input[k];
        let skip_it = str_eq(name.as_str(), "time");
        proof {
            reveal_strlit("time");
            assert("time"@ =~= time_column());
        }
        if !skip_it {
            sorted_insert_name(&mut out, name);
        }
        proof {
            assert(names_of(input@).take(k as int + 1) =~= names_of(input@).take(k as int).push(
                input@[k as int]@,
            ));
            assert forall|n: Seq<char>|
                #![trigger names_of(out@).contains(n)]
                #![trigger names_of(input@).take(k as int + 1).contains(n)]
                names_of(out@).contains(n) <==> names_of(input@).take(k as int + 1).contains(n)
                    && n != time_column() by {
                lemma_contains_push(names_of(input@).take(k as int), input@[k as int]@, n);
                if skip_it {
                    assert(names_of(out@) == names_of(before));
                } else {
                    if names_of(out@).contains(n) {
                        let v = choose|v: int|
                            0 <= v < out@.len() && (#[trigger] names_of(out@)[v]) == n;
                        assert(out@[v]@ == n);
                        if n != name@ {
                            let w = choose|w: int|
                                0 <= w < before.len() && (#[trigger] before[w])@ == out@[v]@;
                            assert(names_of(before)[w] == n);
                        }
                    }
                    if names_of(before).contains(n) {
                        let w = choose|w: int|
                            0 <= w < before.len() && (#[trigger] names_of(before)[w]) == n;
                        assert(before[w]@ == n);
                        let v = choose|v: int|
                            0 <= v < out@.len() && (#[trigger] out@[v])@ == before[w]@;
                        assert(names_of(out@)[v] == n);
                    }
                    if n == name@ {
                        let v = choose|v: int|
                            0 <= v < out@.len() && (#[trigger] out@[v])@ == name@;
                        assert(names_of(out@)[v] == n);
                    }
                }
            }
        }
        k = k + 1;
    }
    proof {
        assert(names_of(input@).take(k as int) =~= names_of(input@));
    }
    out
}

/// Insert a name into a strictly ascending vector; a duplicate is
/// dropped.
fn sorted_insert_name(names: &mut Vec<String>, name: &String)
    requires
        forall|a: int, b: int|
            0 <= a < b < old(names)@.len() ==> str_view_lt(
                (#[trigger] old(names)@[a])@,
                (#[trigger] old(names)@[b])@,
            ),
    ensures
        forall|a: int, b: int|
            0 <= a < b < final(names)@.len() ==> str_view_lt(
                (#[trigger] final(names)@[a])@,
                (#[trigger] final(names)@[b])@,
            ),
        forall|v: int|
            0 <= v < final(names)@.len() ==> ((#[trigger] final(names)@[v])@ == name@ || exists|
                w: int,
            |
                0 <= w < old(names)@.len() && (#[trigger] old(names)@[w])@ == final(names)@[v]@),
        exists|v: int| 0 <= v < final(names)@.len() && (#[trigger] final(names)@[v])@ == name@,
        forall|w: int|
            0 <= w < old(names)@.len() ==> exists|v: int|
                0 <= v < final(names)@.len() && (#[trigger] final(names)@[v])@ == (
                #[trigger] old(names)@[w])@,
{
    let mut i: usize = 0;
    while i < names.len() && str_lt(names[i].as_str(), name.as_str())
        invariant
            i <= names@.len(),
            names@ == old(names)@,
            forall|k: int| 0 <= k < i ==> str_view_lt((#[trigger] names@[k])@, name@),
        decreases names@.len() - i,
    {
        i = i + 1;
    }
    if i < names.len() && str_eq(names[i].as_str(), name.as_str()) {
        proof {
            assert(names@[i as int]@ == name@);
        }
        return;
    }
    let ghost orig = names@;
    names.insert(i, name.clone());
    proof {
        let newv = names@;
        assert(newv == orig.insert(i as int, names@[i as int]));
        assert(newv[i as int]@ == name@);
        {
            if i < orig.len() {
                crate::text::lemma_bytes_lt_connected(
                    vstd::utf8::encode_utf8(orig[i as int]@),
                    vstd::utf8::encode_utf8(name@),
                );
                if !bytes_lt(
                    vstd::utf8::encode_utf8(name@),
                    vstd::utf8::encode_utf8(orig[i as int]@),
                ) {
                    crate::text::lemma_encode_utf8_injective(orig[i as int]@, name@);
                }
                assert(str_view_lt(name@, orig[i as int]@));
            }
            assert forall|a: int, b: int| 0 <= a < b < newv.len() implies str_view_lt(
                (#[trigger] newv[a])@,
                (#[trigger] newv[b])@,
            ) by {
                if a < i && b == i {
                    assert(newv[a] == orig[a]);
                } else if a == i && b > i {
                    assert(newv[b] == orig[b - 1]);
                    assert(b - 1 >= i);
                    if b - 1 == i {
                        assert(str_view_lt(name@, orig[i as int]@));
                    } else {
                        crate::text::lemma_bytes_lt_trans(
                            vstd::utf8::encode_utf8(name@),
                            vstd::utf8::encode_utf8(orig[i as int]@),
                            vstd::utf8::encode_utf8(orig[b - 1]@),
                        );
                    }
                } else if a < i && b > i {
                    assert(newv[a] == orig[a]);
                    assert(newv[b] == orig[b - 1]);
                    if a == b - 1 {
                        assert(str_view_lt(orig[a]@, name@));
                        crate::text::lemma_bytes_lt_trans(
                            vstd::utf8::encode_utf8(orig[a]@),
                            vstd::utf8::encode_utf8(name@),
                            vstd::utf8::encode_utf8(orig[b - 1]@),
                        );
                    }
                } else if a > i && b > i {
                    assert(newv[a] == orig[a - 1]);
                    assert(newv[b] == orig[b - 1]);
                } else if a < i && b < i {
                    assert(newv[a] == orig[a]);
                    assert(newv[b] == orig[b]);
                }
            }
            assert forall|v: int| 0 <= v < newv.len() implies ((#[trigger] newv[v])@ == name@
                || exists|w: int| 0 <= w < orig.len() && (#[trigger] orig[w])@ == newv[v]@) by {
                if v < i {
                    assert(orig[v]@ == newv[v]@);
                } else if v > i {
                    assert(orig[v - 1]@ == newv[v]@);
                }
            }
            assert forall|w: int| 0 <= w < orig.len() implies exists|v: int|
                0 <= v < newv.len() && (#[trigger] newv[v])@ == (#[trigger] orig[w])@ by {
                if w < i {
                    assert(newv[w]@ == orig[w]@);
                } else {
                    assert(newv[w + 1]@ == orig[w]@);
                }
            }
        }
    }
}

/// The column names taking part in any delete predicate, in
/// byte-wise lexicographic order, with one exception: the timestamp
/// column always comes last. A time range is mandatory in a delete
/// predicate, so the timestamp column must be in this list; this
/// order agrees with the schema's primary key.
pub fn delete_predicate_columns(predicates: &Vec<DeletePredicate>) -> (r: Vec<String>)
    ensures
        r@.len() >= 1,
        r@[r@.len() - 1]@ == time_column(),
        forall|a: int, b: int|
            0 <= a < b < r@.len() - 1 ==> str_view_lt((#[trigger] r@[a])@, (#[trigger] r@[b])@),
        forall|n: Seq<char>|
            #![trigger names_of(r@).take(r@.len() - 1).contains(n)]
            #![trigger spec_predicate_columns(predicates@).contains(n)]
            names_of(r@).take(r@.len() - 1).contains(n) <==> spec_predicate_columns(
                predicates@,
            ).contains(n) && n != time_column(),
{
    let flat = collect_delete_columns(predicates);
    let mut names = sorted_unique_excluding_time(&flat);
    let ghost before = names@;
    let time: String = "time".to_owned();
    proof {
        reveal_strlit("time");
        assert(time@ =~= time_column());
    }
    names.push(time);
    proof {
        assert(names_of(names@).take(names@.len() - 1) =~= names_of(before));
        assert forall|a: int, b: int| 0 <= a < b < names@.len() - 1 implies str_view_lt(
            (#[trigger] names@[a])@,
            (#[trigger] names@[b])@,
        ) by {
            assert(names@[a] == before[a]);
            assert(names@[b] == before[b]);
        }
    }
    names
}

/// Returned when a query is recorded: it marks the query's
/// completion, so that timing and accounting side effects run once
/// the query is done.
#[derive(Clone, Debug)]
pub struct QueryCompletedToken {
    /// Kind of query that was run or planned.
    pub query_type: String,
    /// The query's text.
    pub query_text: String,
    /// Whether completion has been signalled.
    pub completed: bool,
}

impl QueryCompletedToken {
    /// A fresh token for one recorded query, not yet completed.
    pub fn new(query_type: String, query_text: String) -> (r: Self)
        ensures
            r.query_type == query_type,
            r.query_text == query_text,
            !r.completed,
    {
        Self { query_type, query_text, completed: false }
    }

    /// Signal completion. Signalling twice is harmless: the token
    /// stays completed.
    pub fn complete(&mut self)
        ensures
            final(self).completed,
            final(self).query_type == old(self).query_type,
            final(self).query_text == old(self).query_text,
    {
        self.completed = true;
    }
}

} // verus!
