//! Laws of the reconciliation engine, stated over the engine's model and
//! proved once and for all.

use vstd::prelude::*;

use crate::index::{
    first_match, lemma_first_match_props, lemma_first_match_same_asins,
    lemma_unchecked_infos_contains, persisted, unchecked_infos, ItemView,
};
use crate::record::BookView;
use crate::reconcile::{
    pass_consumed, pass_decisions, pass_index, rec_consumed, rec_decision, rec_index, spec_state,
    BookState, Decision,
};

verus! {

/// Every observed record has an entry in the index that is equivalent to
/// it: the index is fully current for this listing.
pub open spec fn up_to_date(idx: Seq<ItemView>, books: Seq<BookView>) -> bool {
    forall|i: int|
        0 <= i < books.len() ==> {
            let m = first_match(idx, #[trigger] books[i].asin);
            m >= 0 && idx[m].info == books[i]
        }
}

/// Every decision in the sequence is `Skip`.
pub open spec fn all_skip(ds: Seq<Decision>) -> bool {
    forall|i: int| 0 <= i < ds.len() ==> ds[i] == Decision::Skip
}

/// Reconciling a listing against an index that is already up to date
/// touches nothing but the run-scoped `checked` markers: no entry is
/// added or removed, every record and timestamp stays as it was, every
/// decision is `Skip`, and not a single policy answer is consumed.
pub proof fn lemma_pass_up_to_date(
    idx: Seq<ItemView>,
    books: Seq<BookView>,
    ans: spec_fn(nat) -> bool,
    pos: nat,
    now: Seq<char>,
)
    requires
        up_to_date(idx, books),
    ensures
        ({
            let r = pass_index(idx, books, ans, pos, now);
            &&& r.len() == idx.len()
            &&& forall|j: int|
                0 <= j < idx.len() ==> (#[trigger] r[j].info == idx[j].info
                    && r[j].last_updated_time == idx[j].last_updated_time)
            &&& forall|j: int|
                0 <= j < idx.len() ==> (#[trigger] r[j].info.asin) == idx[j].info.asin
            &&& all_skip(pass_decisions(idx, books, ans, pos, now))
            &&& pass_consumed(idx, books, ans, pos, now) == 0
        }),
    decreases books.len(),
{
    if books.len() > 0 {
        let b = books[0];
        lemma_first_match_props(idx, b.asin);
        let m = first_match(idx, b.asin);
        assert(m >= 0 && idx[m].info == b);
        let idx1 = rec_index(idx, b, ans(pos), ans((pos + 1) as nat), now);
        assert(idx1.len() == idx.len());
        assert(forall|j: int|
            0 <= j < idx.len() ==> (#[trigger] idx1[j].info == idx[j].info
                && idx1[j].last_updated_time == idx[j].last_updated_time));
        assert forall|i: int| 0 <= i < books.drop_first().len() implies {
            let mi = first_match(idx1, #[trigger] books.drop_first()[i].asin);
            mi >= 0 && idx1[mi].info == books.drop_first()[i]
        } by {
            let bi = books.drop_first()[i];
            assert(bi == books[i + 1]);
            lemma_first_match_props(idx, bi.asin);
            let m0 = first_match(idx, books[i + 1].asin);
            assert(m0 >= 0 && idx[m0].info == books[i + 1]);
            assert(forall|j: int|
                0 <= j < idx.len() ==> idx[j].info.asin == (#[trigger] idx1[j].info).asin);
            lemma_first_match_same_asins(idx, idx1, bi.asin);
            assert(idx1[m0].info == idx[m0].info);
        }
        lemma_pass_up_to_date(idx1, books.drop_first(), ans, pos, now);
        let ds = pass_decisions(idx, books, ans, pos, now);
        let rest = pass_decisions(idx1, books.drop_first(), ans, pos, now);
        assert forall|i: int| 0 <= i < ds.len() implies ds[i] == Decision::Skip by {
            if i > 0 {
                assert(ds[i] == rest[i - 1]);
            }
        }
    }
}

/// Idempotence of reconciliation.  Once the index is up to date for a
/// listing, reconciling that listing — once or twice, with any policy and
/// any timestamps — skips every item and leaves the persisted form of the
/// index exactly as it was.
pub proof fn lemma_idempotent_reconciliation(
    idx: Seq<ItemView>,
    books: Seq<BookView>,
    ans1: spec_fn(nat) -> bool,
    pos1: nat,
    now1: Seq<char>,
    ans2: spec_fn(nat) -> bool,
    pos2: nat,
    now2: Seq<char>,
)
    requires
        up_to_date(idx, books),
    ensures
        all_skip(pass_decisions(idx, books, ans1, pos1, now1)),
        ({
            let r1 = pass_index(idx, books, ans1, pos1, now1);
            let r2 = pass_index(r1, books, ans2, pos2, now2);
            &&& up_to_date(r1, books)
            &&& all_skip(pass_decisions(r1, books, ans2, pos2, now2))
            &&& persisted(r1) == persisted(idx)
            &&& persisted(r2) == persisted(idx)
        }),
{
    lemma_pass_up_to_date(idx, books, ans1, pos1, now1);
    let r1 = pass_index(idx, books, ans1, pos1, now1);
    assert forall|i: int| 0 <= i < books.len() implies {
        let m = first_match(r1, #[trigger] books[i].asin);
        m >= 0 && r1[m].info == books[i]
    } by {
        lemma_first_match_props(idx, books[i].asin);
        let m0 = first_match(idx, books[i].asin);
        assert(m0 >= 0 && idx[m0].info == books[i]);
        lemma_first_match_same_asins(idx, r1, books[i].asin);
        assert(r1[m0].info == idx[m0].info);
    }
    lemma_pass_up_to_date(r1, books, ans2, pos2, now2);
    let r2 = pass_index(r1, books, ans2, pos2, now2);
    assert(persisted(r1) =~= persisted(idx));
    assert(persisted(r2) =~= persisted(idx));
}

/// New-item creation.  Against an empty index, a record whose fetch
/// question is answered yes is fetched, and the index afterwards holds
/// exactly one entry: the observed record, stamped `now`, visited.
pub proof fn lemma_new_item_created(b: BookView, a2: bool, now: Seq<char>)
    ensures
        rec_decision(Seq::empty(), b, true) == Decision::Fetch,
        rec_index(Seq::empty(), b, true, a2, now) =~= seq![
            ItemView { last_updated_time: now, checked: true, info: b },
        ],
        rec_index(Seq::empty(), b, true, a2, now)[0].info == b,
        rec_index(Seq::empty(), b, true, a2, now)[0].checked,
{
    lemma_first_match_props(Seq::empty(), b.asin);
}

/// Declined new item.  Against an empty index, a record declined both for
/// fetching and for indexing is skipped and the index stays empty.
pub proof fn lemma_new_item_declined(b: BookView, now: Seq<char>)
    ensures
        rec_decision(Seq::empty(), b, false) == Decision::Skip,
        rec_index(Seq::empty(), b, false, false, now) == Seq::<ItemView>::empty(),
{
    lemma_first_match_props(Seq::empty(), b.asin);
}

/// Change detection.  A record that shares its identity with its first
/// matching entry but differs from the stored record in any single
/// attribute — the title, the author, the subtitle, the image, or the
/// last-opened marker — is classified as found-but-changed.
pub proof fn lemma_change_detection(idx: Seq<ItemView>, b: BookView)
    requires
        first_match(idx, b.asin) >= 0,
        ({
            let stored = idx[first_match(idx, b.asin)].info;
            ||| stored.title != b.title
            ||| stored.subtitle != b.subtitle
            ||| stored.author != b.author
            ||| stored.image_url != b.image_url
            ||| stored.last_opened_date != b.last_opened_date
        }),
    ensures
        spec_state(idx, b) == BookState::FoundChanged(first_match(idx, b.asin) as usize),
{
    let m = first_match(idx, b.asin);
    assert(idx[m].info != b);
}

/// Metadata-only update.  For a changed record with the fetch question
/// declined but the metadata question accepted, the engine skips the
/// fetch, yet the entry's stored record is replaced by the observed one
/// and its timestamp advances to `now`.
pub proof fn lemma_metadata_only_update(idx: Seq<ItemView>, b: BookView, now: Seq<char>)
    requires
        first_match(idx, b.asin) >= 0,
        idx[first_match(idx, b.asin)].info != b,
    ensures
        rec_decision(idx, b, false) == Decision::Skip,
        ({
            let m = first_match(idx, b.asin);
            let r = rec_index(idx, b, false, true, now);
            &&& r == idx.update(
                m,
                ItemView { last_updated_time: now, checked: true, info: b },
            )
            &&& r[m].info == b
            &&& r[m].last_updated_time == now
            &&& r.len() == idx.len()
        }),
{
    lemma_first_match_props(idx, b.asin);
}

/// Unchecked detection.  An entry whose identity never appears in the
/// observed listing comes out of the pass exactly as it went in — same
/// position, same record, same timestamp, still unvisited — and, having
/// started the pass unvisited, is reported among the unchecked entries.
pub proof fn lemma_unchecked_detection(
    idx: Seq<ItemView>,
    books: Seq<BookView>,
    ans: spec_fn(nat) -> bool,
    pos: nat,
    now: Seq<char>,
    i: int,
)
    requires
        0 <= i < idx.len(),
        forall|j: int| 0 <= j < books.len() ==> (#[trigger] books[j].asin) != idx[i].info.asin,
    ensures
        ({
            let r = pass_index(idx, books, ans, pos, now);
            &&& r.len() >= idx.len()
            &&& r[i] == idx[i]
            &&& !idx[i].checked ==> unchecked_infos(r).contains(idx[i].info)
        }),
    decreases books.len(),
{
    if books.len() == 0 {
        if !idx[i].checked {
            lemma_unchecked_infos_contains(idx, i);
        }
    } else {
        let b = books[0];
        lemma_first_match_props(idx, b.asin);
        let idx1 = rec_index(idx, b, ans(pos), ans((pos + 1) as nat), now);
        assert(idx1[i] == idx[i]);
        lemma_unchecked_detection(
            idx1,
            books.drop_first(),
            ans,
            (pos + rec_consumed(idx, b, ans(pos))) as nat,
            now,
            i,
        );
    }
}

/// Ordering preservation.  A pass never reorders the index: every
/// pre-existing entry keeps its position and identity, entries created
/// during the pass stand after all pre-existing ones, and every record in
/// the index after the pass is either one that was already stored or one
/// of the observed records.
pub proof fn lemma_ordering_preserved(
    idx: Seq<ItemView>,
    books: Seq<BookView>,
    ans: spec_fn(nat) -> bool,
    pos: nat,
    now: Seq<char>,
)
    ensures
        ({
            let r = pass_index(idx, books, ans, pos, now);
            &&& r.len() >= idx.len()
            &&& forall|j: int|
                0 <= j < idx.len() ==> (#[trigger] r[j].info.asin) == idx[j].info.asin
            &&& forall|j: int|
                0 <= j < r.len() ==> ((j < idx.len() && (#[trigger] r[j].info) == idx[j].info)
                    || (exists|k: int| 0 <= k < books.len() && r[j].info == books[k]))
        }),
    decreases books.len(),
{
    if books.len() > 0 {
        let b = books[0];
        lemma_first_match_props(idx, b.asin);
        let idx1 = rec_index(idx, b, ans(pos), ans((pos + 1) as nat), now);
        lemma_ordering_preserved(
            idx1,
            books.drop_first(),
            ans,
            (pos + rec_consumed(idx, b, ans(pos))) as nat,
            now,
        );
        let r = pass_index(idx, books, ans, pos, now);
        assert(idx1.len() >= idx.len());
        assert(forall|j: int|
            0 <= j < idx.len() ==> (#[trigger] idx1[j].info.asin) == idx[j].info.asin);
        assert forall|j: int|
            0 <= j < r.len() implies ((j < idx.len() && (#[trigger] r[j].info) == idx[j].info)
            || (exists|k: int| 0 <= k < books.len() && r[j].info == books[k])) by {
            if j < idx1.len() && r[j].info == idx1[j].info {
                if j < idx.len() && idx1[j].info == idx[j].info {
                } else {
                    // the entry reconciliation refreshed or appended holds books[0]
                    assert(idx1[j].info == b);
                    assert(0 <= 0 < books.len() && r[j].info == books[0]);
                }
            } else {
                let k = choose|k: int|
                    0 <= k < books.drop_first().len() && r[j].info == books.drop_first()[k];
                assert(books.drop_first()[k] == books[k + 1]);
                assert(0 <= k + 1 < books.len() && r[j].info == books[k + 1]);
            }
        }
    }
}

} // verus!
