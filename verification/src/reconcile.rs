//! The reconciliation engine: per-item comparison of the observed listing
//! against the index, and the decision whether detail data must be fetched.

use vstd::prelude::*;

use crate::index::{
    first_match, lemma_first_match_props, lemma_first_match_same_asins, ExportIndex, ExportItem,
    ItemView,
};
use crate::record::{Book, BookView};

verus! {

/// What the engine decides for one observed record: skip it, or fetch its
/// detail data.
#[derive(Clone, Copy, Debug, PartialEq, Eq, Structural)]
pub enum Decision {
    Skip,
    Fetch,
}

/// How one observed record stands against the index: unknown, known and
/// unchanged, or known with at least one attribute changed.  The position
/// is that of the first matching entry.
#[derive(Clone, Copy, Debug, PartialEq, Eq, Structural)]
pub enum BookState {
    NotFound,
    FoundUnchanged(usize),
    FoundChanged(usize),
}

/// The classification of `b` against the index, by a scan for the first
/// entry with `b`'s identity and an all-attribute comparison of records.
pub open spec fn spec_state(idx: Seq<ItemView>, b: BookView) -> BookState {
    let m = first_match(idx, b.asin);
    if m < 0 {
        BookState::NotFound
    } else if idx[m].info == b {
        BookState::FoundUnchanged(m as usize)
    } else {
        BookState::FoundChanged(m as usize)
    }
}

/// The entry as the pass marks it visited.
pub open spec fn item_checked(it: ItemView) -> ItemView {
    ItemView { last_updated_time: it.last_updated_time, checked: true, info: it.info }
}

/// A freshly refreshed entry: the observed record, stamped `now`, visited.
pub open spec fn item_refreshed(b: BookView, now: Seq<char>) -> ItemView {
    ItemView { last_updated_time: now, checked: true, info: b }
}

/// The decision the engine returns for one record, where `a1` is the
/// policy's answer to the fetch question.  Only a record that is missing
/// from the index or has changed, and for which the policy answers yes,
/// is fetched.
pub open spec fn rec_decision(idx: Seq<ItemView>, b: BookView, a1: bool) -> Decision {
    let m = first_match(idx, b.asin);
    if m >= 0 && idx[m].info == b {
        Decision::Skip
    } else if a1 {
        Decision::Fetch
    } else {
        Decision::Skip
    }
}

/// The index after one record is reconciled.  `a1` answers the fetch
/// question; `a2` answers the fallback question (add to the index, or
/// update the indexed metadata) and matters only when `a1` is no.
pub open spec fn rec_index(
    idx: Seq<ItemView>,
    b: BookView,
    a1: bool,
    a2: bool,
    now: Seq<char>,
) -> Seq<ItemView> {
    let m = first_match(idx, b.asin);
    if m >= 0 {
        if idx[m].info == b {
            idx.update(m, item_checked(idx[m]))
        } else if a1 || a2 {
            idx.update(m, item_refreshed(b, now))
        } else {
            idx.update(m, item_checked(idx[m]))
        }
    } else {
        if a1 || a2 {
            idx.push(item_refreshed(b, now))
        } else {
            idx
        }
    }
}

/// How many policy answers reconciling one record consumes: none for an
/// unchanged record, one when the fetch question is answered yes, two
/// otherwise.
pub open spec fn rec_consumed(idx: Seq<ItemView>, b: BookView, a1: bool) -> nat {
    let m = first_match(idx, b.asin);
    if m >= 0 && idx[m].info == b {
        0
    } else if a1 {
        1
    } else {
        2
    }
}

/// A deterministic decision policy: a pre-programmed sequence of answers,
/// then a constant fallback once the script runs out.  It stands in for
/// the interactive prompt in automated runs and in tests; the engine
/// consults it lazily, one answer per question asked.
pub struct ScriptedPolicy {
    pub answers: Vec<bool>,
    pub fallback: bool,
    pub next: usize,
}

impl ScriptedPolicy {
    /// The policy's answers as a stream: the `k`-th question from now
    /// gets `stream()(k)`.
    pub open spec fn stream(&self) -> spec_fn(nat) -> bool {
        |k: nat| self.answer_at(k)
    }

    /// The answer the policy will give to the `k`-th question from now.
    pub open spec fn answer_at(&self, k: nat) -> bool {
        if self.next + k < self.answers@.len() {
            self.answers@[self.next + k]
        } else {
            self.fallback
        }
    }

    /// A policy that answers every question the same way.
    pub fn new_const(answer: bool) -> (p: ScriptedPolicy)
        ensures
            forall|k: nat| p.answer_at(k) == answer,
            p.answers@.len() == 0,
            p.fallback == answer,
            p.next == 0,
    {
        ScriptedPolicy { answers: Vec::new(), fallback: answer, next: 0 }
    }

    /// A policy that follows the script, then falls back to a constant.
    pub fn new_scripted(answers: Vec<bool>, fallback: bool) -> (p: ScriptedPolicy)
        ensures
            p.answers == answers,
            p.fallback == fallback,
            p.next == 0,
    {
        ScriptedPolicy { answers, fallback, next: 0 }
    }

    /// Answers one question and moves past it in the script.
    pub fn ask(&mut self) -> (b: bool)
        ensures
            b == old(self).answer_at(0),
            final(self).answers == old(self).answers,
            final(self).fallback == old(self).fallback,
            forall|k: nat| final(self).answer_at(k) == old(self).answer_at(k + 1),
    {
        if self.next < self.answers.len() {
            let b = self.answers[self.next];
            self.next = self.next + 1;
            b
        } else {
            self.fallback
        }
    }
}

/// The models of a vector of records, in order.
pub open spec fn views_of(bs: Seq<Book>) -> Seq<BookView> {
    Seq::new(bs.len(), |i: int| bs[i]@)
}

/// The index after a whole pass: the records reconciled in listing order,
/// against an answer stream `ans` of which `pos` answers are already
/// spoken for.
pub open spec fn pass_index(
    idx: Seq<ItemView>,
    books: Seq<BookView>,
    ans: spec_fn(nat) -> bool,
    pos: nat,
    now: Seq<char>,
) -> Seq<ItemView>
    decreases books.len(),
{
    if books.len() == 0 {
        idx
    } else {
        let a1 = ans(pos);
        let c = rec_consumed(idx, books[0], a1);
        pass_index(
            rec_index(idx, books[0], a1, ans((pos + 1) as nat), now),
            books.drop_first(),
            ans,
            (pos + c) as nat,
            now,
        )
    }
}

/// How many answers a whole pass consumes.
pub open spec fn pass_consumed(
    idx: Seq<ItemView>,
    books: Seq<BookView>,
    ans: spec_fn(nat) -> bool,
    pos: nat,
    now: Seq<char>,
) -> nat
    decreases books.len(),
{
    if books.len() == 0 {
        0
    } else {
        let a1 = ans(pos);
        let c = rec_consumed(idx, books[0], a1);
        (c + pass_consumed(
            rec_index(idx, books[0], a1, ans((pos + 1) as nat), now),
            books.drop_first(),
            ans,
            (pos + c) as nat,
            now,
        )) as nat
    }
}

/// The decisions a whole pass issues, in listing order.
pub open spec fn pass_decisions(
    idx: Seq<ItemView>,
    books: Seq<BookView>,
    ans: spec_fn(nat) -> bool,
    pos: nat,
    now: Seq<char>,
) -> Seq<Decision>
    decreases books.len(),
{
    if books.len() == 0 {
        Seq::empty()
    } else {
        let a1 = ans(pos);
        let c = rec_consumed(idx, books[0], a1);
        seq![rec_decision(idx, books[0], a1)] + pass_decisions(
            rec_index(idx, books[0], a1, ans((pos + 1) as nat), now),
            books.drop_first(),
            ans,
            (pos + c) as nat,
            now,
        )
    }
}

impl ExportIndex {
    /// Classifies one observed record against the index without changing
    /// anything: unknown, known and unchanged, or known but changed.
    pub fn classify(&self, book: &Book) -> (state: BookState)
        ensures
            state == spec_state(self@, book@),
            match state {
                BookState::NotFound => first_match(self@, book@.asin) == -1,
                BookState::FoundUnchanged(i) => first_match(self@, book@.asin) == i as int
                    && i < self@.len() && self@[i as int].info == book@,
                BookState::FoundChanged(i) => first_match(self@, book@.asin) == i as int
                    && i < self@.len() && self@[i as int].info != book@,
            },
    {
        match self.find_entry(&book.asin) {
            None => BookState::NotFound,
            Some(i) => {
                proof {
                    lemma_first_match_props(self@, book@.asin);
                }
                if self.books[i].info == *book {
                    BookState::FoundUnchanged(i)
                } else {
                    BookState::FoundChanged(i)
                }
            },
        }
    }

    /// Marks the entry at `i` visited, leaving its record and timestamp
    /// alone.  This is what reconciliation does to an unchanged record.
    pub fn mark_checked(&mut self, i: usize)
        requires
            i < old(self)@.len(),
        ensures
            final(self)@ == old(self)@.update(i as int, item_checked(old(self)@[i as int])),
    {
        let time = self.books[i].last_updated_time.clone();
        let info = self.books[i].info.clone();
        self.books[i] = ExportItem { last_updated_time: time, checked: true, info };
        proof {
            assert(self@ =~= old(self)@.update(i as int, item_checked(old(self)@[i as int])));
        }
    }

    /// Applies the decision table for a record whose first matching entry
    /// differs from it: refresh the entry if the data is to be fetched or
    /// the metadata updated anyway, otherwise leave it stale but visited.
    pub fn apply_found_changed(
        &mut self,
        i: usize,
        book: &Book,
        fetch: bool,
        update_meta: bool,
        now: &str,
    ) -> (d: Decision)
        requires
            first_match(old(self)@, book@.asin) == i as int,
            old(self)@[i as int].info != book@,
        ensures
            final(self)@ == rec_index(old(self)@, book@, fetch, update_meta, now@),
            d == rec_decision(old(self)@, book@, fetch),
    {
        proof {
            lemma_first_match_props(old(self)@, book@.asin);
        }
        if fetch || update_meta {
            self.books[i] = ExportItem {
                last_updated_time: now.to_owned(),
                checked: true,
                info: book.clone(),
            };
            proof {
                assert(self@ =~= old(self)@.update(i as int, item_refreshed(book@, now@)));
            }
        } else {
            self.mark_checked(i);
        }
        if fetch {
            Decision::Fetch
        } else {
            Decision::Skip
        }
    }

    /// Applies the decision table for a record with no entry in the index:
    /// append a fresh entry if the record is to be fetched or indexed
    /// anyway, otherwise leave the index alone.
    pub fn apply_not_found(&mut self, book: &Book, fetch: bool, add: bool, now: &str) -> (d:
        Decision)
        requires
            first_match(old(self)@, book@.asin) == -1,
        ensures
            final(self)@ == rec_index(old(self)@, book@, fetch, add, now@),
            d == rec_decision(old(self)@, book@, fetch),
    {
        if fetch || add {
            self.books.push(
                ExportItem { last_updated_time: now.to_owned(), checked: true, info: book.clone() },
            );
            proof {
                assert(self@ =~= old(self)@.push(item_refreshed(book@, now@)));
            }
        }
        if fetch {
            Decision::Fetch
        } else {
            Decision::Skip
        }
    }

    /// Reconciles one observed record against the index.
    ///
    /// The record is classified by its identity; the policy is consulted
    /// only when the outcome is ambiguous: never for an unchanged record,
    /// for the fetch question first and, only if that is declined, for the
    /// question whether to keep the index current regardless.  The
    /// matching (or created) entry comes out visited; `now` is the
    /// timestamp given to a refreshed entry.
    pub fn reconcile(&mut self, book: &Book, policy: &mut ScriptedPolicy, now: &str) -> (d:
        Decision)
        ensures
            final(self)@ == rec_index(
                old(self)@,
                book@,
                old(policy).answer_at(0),
                old(policy).answer_at(1),
                now@,
            ),
            d == rec_decision(old(self)@, book@, old(policy).answer_at(0)),
            final(policy).answers == old(policy).answers,
            final(policy).fallback == old(policy).fallback,
            forall|k: nat|
                final(policy).answer_at(k) == old(policy).answer_at(
                    k + rec_consumed(old(self)@, book@, old(policy).answer_at(0)),
                ),
    {
        match self.classify(book) {
            BookState::FoundUnchanged(i) => {
                proof {
                    lemma_first_match_props(self@, book@.asin);
                }
                self.mark_checked(i);
                Decision::Skip
            },
            BookState::FoundChanged(i) => {
                proof {
                    lemma_first_match_props(self@, book@.asin);
                }
                let fetch = policy.ask();
                let update_meta = if fetch {
                    false
                } else {
                    policy.ask()
                };
                self.apply_found_changed(i, book, fetch, update_meta, now)
            },
            BookState::NotFound => {
                proof {
                    lemma_first_match_props(self@, book@.asin);
                }
                let fetch = policy.ask();
                let add = if fetch {
                    false
                } else {
                    policy.ask()
                };
                self.apply_not_found(book, fetch, add, now)
            },
        }
    }

    /// Reconciles a whole observed listing, in listing order, against the
    /// index, and returns the decisions in the same order.
    pub fn reconcile_all(
        &mut self,
        books: &Vec<Book>,
        policy: &mut ScriptedPolicy,
        now: &str,
    ) -> (ds: Vec<Decision>)
        ensures
            final(self)@ == pass_index(
                old(self)@,
                views_of(books@),
                old(policy).stream(),
                0,
                now@,
            ),
            ds@ == pass_decisions(old(self)@, views_of(books@), old(policy).stream(), 0, now@),
            ds@.len() == books@.len(),
            final(policy).answers == old(policy).answers,
            final(policy).fallback == old(policy).fallback,
            forall|k: nat|
                final(policy).answer_at(k) == old(policy).answer_at(
                    k + pass_consumed(old(self)@, views_of(books@), old(policy).stream(), 0, now@),
                ),
    {
        let ghost p0 = *policy;
        let ghost ans = p0.stream();
        let ghost vs = views_of(books@);
        let ghost idx0 = self@;
        let n = books.len();
        let mut ds: Vec<Decision> = Vec::new();
        let mut i: usize = 0;
        while i < n
            invariant
                0 <= i <= n,
                n == books@.len(),
                vs == views_of(books@),
                ans == p0.stream(),
                self@ == pass_index(idx0, vs.take(i as int), ans, 0, now@),
                ds@ == pass_decisions(idx0, vs.take(i as int), ans, 0, now@),
                ds@.len() == i,
                policy.answers == p0.answers,
                policy.fallback == p0.fallback,
                forall|k: nat|
                    policy.answer_at(k) == ans(
                        (k + pass_consumed(idx0, vs.take(i as int), ans, 0, now@)) as nat,
                    ),
            decreases n - i,
        {
            let ghost pre = self@;
            let ghost ppre = *policy;
            let ghost c_i = pass_consumed(idx0, vs.take(i as int), ans, 0, now@);
            let d = self.reconcile(&books[i], policy, now);
            ds.push(d);
            proof {
                lemma_pass_snoc(idx0, vs.take(i as int), vs[i as int], ans, 0, now@);
                assert(vs.take(i + 1) =~= vs.take(i as int).push(vs[i as int]));
                assert(ppre.answer_at(0) == ans((0 + c_i) as nat));
                assert(ppre.answer_at(1) == ans((1 + c_i) as nat));
                assert(books@[i as int]@ == vs[i as int]);
                assert(self@ == pass_index(idx0, vs.take(i + 1), ans, 0, now@));
                assert(ds@ == pass_decisions(idx0, vs.take(i + 1), ans, 0, now@));
                assert forall|k: nat|
                    policy.answer_at(k) == ans(
                        (k + pass_consumed(idx0, vs.take(i + 1), ans, 0, now@)) as nat,
                    ) by {
                    let rc = rec_consumed(pre, vs[i as int], ppre.answer_at(0));
                    assert(policy.answer_at(k) == ppre.answer_at(k + rc));
                    assert(ppre.answer_at(k + rc) == ans(((k + rc) + c_i) as nat));
                }
            }
            i += 1;
        }
        proof {
            assert(vs.take(n as int) =~= vs);
        }
        ds
    }

    /// Reconciles one observed record, stamping any refreshed entry with
    /// the current local time.  Returns whether the record's detail data
    /// is to be fetched.
    pub fn check_book(&mut self, book: &Book, policy: &mut ScriptedPolicy) -> (fetch: bool)
        ensures
            fetch == (rec_decision(old(self)@, book@, old(policy).answer_at(0))
                == Decision::Fetch),
            exists|now: Seq<char>|
                final(self)@ == rec_index(
                    old(self)@,
                    book@,
                    old(policy).answer_at(0),
                    old(policy).answer_at(1),
                    now,
                ),
            final(policy).answers == old(policy).answers,
            final(policy).fallback == old(policy).fallback,
            forall|k: nat|
                final(policy).answer_at(k) == old(policy).answer_at(
                    k + rec_consumed(old(self)@, book@, old(policy).answer_at(0)),
                ),
    {
        let now = current_datetime();
        let d = self.reconcile(book, policy, now.as_str());
        proof {
            assert(self@ == rec_index(
                old(self)@,
                book@,
                old(policy).answer_at(0),
                old(policy).answer_at(1),
                now@,
            ));
        }
        match d {
            Decision::Fetch => true,
            Decision::Skip => false,
        }
    }
}

/// Extending the listing by one record appends exactly one reconciliation
/// step at the end of the pass.
pub proof fn lemma_pass_snoc(
    idx: Seq<ItemView>,
    books: Seq<BookView>,
    b: BookView,
    ans: spec_fn(nat) -> bool,
    pos: nat,
    now: Seq<char>,
)
    ensures
        ({
            let r = pass_index(idx, books, ans, pos, now);
            let pc = pass_consumed(idx, books, ans, pos, now);
            let a1 = ans(pos + pc);
            let a2 = ans(pos + pc + 1);
            &&& pass_index(idx, books.push(b), ans, pos, now) == rec_index(r, b, a1, a2, now)
            &&& pass_consumed(idx, books.push(b), ans, pos, now) == pc + rec_consumed(r, b, a1)
            &&& pass_decisions(idx, books.push(b), ans, pos, now) == pass_decisions(
                idx,
                books,
                ans,
                pos,
                now,
            ).push(rec_decision(r, b, a1))
        }),
    decreases books.len(),
{
    reveal_with_fuel(pass_index, 3);
    reveal_with_fuel(pass_consumed, 3);
    reveal_with_fuel(pass_decisions, 3);
    let bp = books.push(b);
    if books.len() == 0 {
        assert(bp.drop_first() =~= Seq::<BookView>::empty());
        assert(bp[0] == b);
        assert(pass_decisions(idx, bp, ans, pos, now) =~= pass_decisions(
            idx,
            books,
            ans,
            pos,
            now,
        ).push(rec_decision(idx, b, ans(pos))));
    } else {
        assert(bp[0] == books[0]);
        assert(bp.drop_first() =~= books.drop_first().push(b));
        let a1 = ans(pos);
        let c = rec_consumed(idx, books[0], a1);
        let idx1 = rec_index(idx, books[0], a1, ans((pos + 1) as nat), now);
        lemma_pass_snoc(idx1, books.drop_first(), b, ans, (pos + c) as nat, now);
        assert(pass_decisions(idx, bp, ans, pos, now) =~= pass_decisions(
            idx,
            books,
            ans,
            pos,
            now,
        ).push(
            rec_decision(
                pass_index(idx, books, ans, pos, now),
                b,
                ans(pos + pass_consumed(idx, books, ans, pos, now)),
            ),
        ));
    }
}

/// Relies on `chrono::offset::Local::now` and `chrono::DateTime::to_rfc2822`
/// for the current local time, rendered in RFC 2822 form.  Nothing is
/// assumed of the result: every caller states what holds whatever string
/// comes back.
#[verifier::external_body]
fn current_datetime() -> (r: String) {
    chrono::Local::now().to_rfc2822()
}

} // verus!
