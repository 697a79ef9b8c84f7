//! The durable index: an ordered record of every item ever reconciled.

use vstd::prelude::*;

use crate::record::{Book, BookView};

verus! {

/// One slot of the index: a stored record, the time it was last refreshed
/// from an observation, and a run-scoped `checked` marker.
///
/// `checked` is transient: it is false when a run starts and is set the
/// moment the entry is visited during reconciliation.  It is never
/// persisted.
pub struct ExportItem {
    pub last_updated_time: String,
    pub checked: bool,
    pub info: Book,
}

/// Mathematical model of an `ExportItem`.
pub struct ItemView {
    pub last_updated_time: Seq<char>,
    pub checked: bool,
    pub info: BookView,
}

impl View for ExportItem {
    type V = ItemView;

    open spec fn view(&self) -> ItemView {
        ItemView {
            last_updated_time: self.last_updated_time@,
            checked: self.checked,
            info: self.info@,
        }
    }
}

/// The persisted form of one slot: everything but the `checked` marker.
pub struct PersistedItemView {
    pub last_updated_time: Seq<char>,
    pub info: BookView,
}

/// What `save` writes: the entries in order, `checked` stripped.
pub open spec fn persisted(s: Seq<ItemView>) -> Seq<PersistedItemView> {
    Seq::new(
        s.len(),
        |i: int|
            PersistedItemView {
                last_updated_time: s[i].last_updated_time,
                info: s[i].info,
            },
    )
}

/// The index: an ordered sequence of entries, insertion order preserved.
/// New entries are appended at the end; the engine never removes one.
pub struct ExportIndex {
    pub books: Vec<ExportItem>,
}

impl View for ExportIndex {
    type V = Seq<ItemView>;

    open spec fn view(&self) -> Seq<ItemView> {
        Seq::new(self.books@.len(), |i: int| self.books@[i]@)
    }
}

/// Position of the first entry at or after `i` whose record has identity
/// `asin`, or -1 if there is none.
pub open spec fn first_match_from(s: Seq<ItemView>, asin: Seq<char>, i: int) -> int
    decreases s.len() - i,
    when 0 <= i <= s.len()
{
    if i >= s.len() {
        -1
    } else if s[i].info.asin == asin {
        i
    } else {
        first_match_from(s, asin, i + 1)
    }
}

/// Position of the first entry whose record has identity `asin`, or -1.
/// Duplicate identities are tolerated: only the first entry counts.
pub open spec fn first_match(s: Seq<ItemView>, asin: Seq<char>) -> int {
    first_match_from(s, asin, 0)
}

/// What `first_match_from` returns: either -1 and no entry from `i` on
/// carries the identity, or the position of the first such entry.
pub proof fn lemma_first_match_from_props(s: Seq<ItemView>, asin: Seq<char>, i: int)
    requires
        0 <= i <= s.len(),
    ensures
        ({
            let m = first_match_from(s, asin, i);
            ||| (m == -1 && forall|j: int| i <= j < s.len() ==> s[j].info.asin != asin)
            ||| (i <= m < s.len() && s[m].info.asin == asin && forall|j: int|
                i <= j < m ==> s[j].info.asin != asin)
        }),
    decreases s.len() - i,
{
    if i < s.len() && s[i].info.asin != asin {
        lemma_first_match_from_props(s, asin, i + 1);
    }
}

/// The properties of `first_match` itself.
pub proof fn lemma_first_match_props(s: Seq<ItemView>, asin: Seq<char>)
    ensures
        ({
            let m = first_match(s, asin);
            ||| (m == -1 && forall|j: int| 0 <= j < s.len() ==> s[j].info.asin != asin)
            ||| (0 <= m < s.len() && s[m].info.asin == asin && forall|j: int|
                0 <= j < m ==> s[j].info.asin != asin)
        }),
{
    lemma_first_match_from_props(s, asin, 0);
}

/// If no entry before `i` carries the identity, the search may as well
/// start at `i`.
pub proof fn lemma_first_match_skip(s: Seq<ItemView>, asin: Seq<char>, i: int)
    requires
        0 <= i <= s.len(),
        forall|j: int| 0 <= j < i ==> s[j].info.asin != asin,
    ensures
        first_match(s, asin) == first_match_from(s, asin, i),
    decreases i,
{
    if i > 0 {
        lemma_first_match_skip(s, asin, i - 1);
    }
}

/// Two indexes whose entries carry the same identities position by
/// position agree on every lookup.
pub proof fn lemma_first_match_same_asins(s1: Seq<ItemView>, s2: Seq<ItemView>, asin: Seq<char>)
    requires
        s1.len() == s2.len(),
        forall|j: int| 0 <= j < s1.len() ==> s1[j].info.asin == s2[j].info.asin,
    ensures
        first_match(s1, asin) == first_match(s2, asin),
{
    lemma_first_match_from_same_asins(s1, s2, asin, 0);
}

proof fn lemma_first_match_from_same_asins(
    s1: Seq<ItemView>,
    s2: Seq<ItemView>,
    asin: Seq<char>,
    i: int,
)
    requires
        s1.len() == s2.len(),
        forall|j: int| 0 <= j < s1.len() ==> s1[j].info.asin == s2[j].info.asin,
        0 <= i <= s1.len(),
    ensures
        first_match_from(s1, asin, i) == first_match_from(s2, asin, i),
    decreases s1.len() - i,
{
    if i < s1.len() && s1[i].info.asin != asin {
        lemma_first_match_from_same_asins(s1, s2, asin, i + 1);
    }
}

/// The records of the entries that were not visited during the current
/// pass, in index order.
pub open spec fn unchecked_infos(s: Seq<ItemView>) -> Seq<BookView>
    decreases s.len(),
{
    if s.len() == 0 {
        Seq::empty()
    } else {
        let rest = unchecked_infos(s.drop_last());
        if !s.last().checked {
            rest.push(s.last().info)
        } else {
            rest
        }
    }
}

/// An unvisited entry's record always shows up in the unchecked report.
pub proof fn lemma_unchecked_infos_contains(s: Seq<ItemView>, i: int)
    requires
        0 <= i < s.len(),
        !s[i].checked,
    ensures
        unchecked_infos(s).contains(s[i].info),
    decreases s.len(),
{
    if i == s.len() - 1 {
        assert(unchecked_infos(s) == unchecked_infos(s.drop_last()).push(s.last().info));
        assert(unchecked_infos(s).last() == s[i].info);
    } else {
        lemma_unchecked_infos_contains(s.drop_last(), i);
        let rest = unchecked_infos(s.drop_last());
        let k = choose|k: int| 0 <= k < rest.len() && rest[k] == s[i].info;
        if !s.last().checked {
            assert(unchecked_infos(s)[k] == s[i].info);
        }
    }
}

impl ExportIndex {
    /// The empty index: what a run starts from when nothing was persisted.
    pub fn new_empty() -> (index: ExportIndex)
        ensures
            index@ == Seq::<ItemView>::empty(),
    {
        let index = ExportIndex { books: Vec::new() };
        proof {
            assert(index@ =~= Seq::<ItemView>::empty());
        }
        index
    }

    /// Rebuilds an index from its persisted form: every entry starts the
    /// run unvisited (`checked == false`).
    pub fn from_entries(entries: Vec<(String, Book)>) -> (index: ExportIndex)
        ensures
            index@.len() == entries@.len(),
            forall|i: int|
                0 <= i < entries@.len() ==> {
                    &&& index@[i].last_updated_time == entries@[i].0@
                    &&& index@[i].info == entries@[i].1@
                    &&& !index@[i].checked
                },
    {
        let mut books: Vec<ExportItem> = Vec::new();
        let n = entries.len();
        let mut k: usize = 0;
        let mut rest = entries;
        // Consume the input from the front so each record is moved, not cloned.
        while k < n
            invariant
                0 <= k <= n,
                n == k + rest@.len(),
                books@.len() == k,
                forall|i: int|
                    0 <= i < k ==> {
                        &&& #[trigger] books@[i]@.last_updated_time == old_entry_time(
                            entries@,
                            i,
                        )
                        &&& books@[i]@.info == entries@[i].1@
                        &&& !books@[i]@.checked
                    },
                forall|i: int| 0 <= i < rest@.len() ==> rest@[i] == entries@[k + i],
            decreases n - k,
        {
            let (time, info) = rest.remove(0);
            books.push(ExportItem { last_updated_time: time, checked: false, info });
            k += 1;
        }
        let index = ExportIndex { books };
        index
    }

    /// Position of the first entry matching the identity, if any.
    pub fn find_entry(&self, asin: &String) -> (r: Option<usize>)
        ensures
            match r {
                Some(i) => first_match(self@, asin@) == i,
                None => first_match(self@, asin@) == -1,
            },
    {
        let n = self.books.len();
        let mut i: usize = 0;
        while i < n
            invariant
                n == self.books@.len(),
                0 <= i <= n,
                forall|j: int| 0 <= j < i ==> self@[j].info.asin != asin@,
            decreases n - i,
        {
            if self.books[i].info.asin == *asin {
                proof {
                    lemma_first_match_skip(self@, asin@, i as int);
                }
                return Some(i);
            }
            i += 1;
        }
        proof {
            lemma_first_match_skip(self@, asin@, n as int);
        }
        None
    }

    /// Clones the records of all entries left unvisited by the pass, in
    /// index order, for reporting.  The entries themselves stay in the
    /// index untouched.
    pub fn unchecked_books(&self) -> (r: Vec<Book>)
        ensures
            Seq::new(r@.len(), |i: int| r@[i]@) == unchecked_infos(self@),
    {
        let mut r: Vec<Book> = Vec::new();
        let n = self.books.len();
        let mut i: usize = 0;
        while i < n
            invariant
                n == self.books@.len(),
                0 <= i <= n,
                Seq::new(r@.len(), |j: int| r@[j]@) =~= unchecked_infos(self@.take(i as int)),
            decreases n - i,
        {
            proof {
                assert(self@.take(i + 1 as int).drop_last() =~= self@.take(i as int));
                assert(self@.take(i + 1 as int).last() == self@[i as int]);
            }
            if !self.books[i].checked {
                r.push(self.books[i].info.clone());
            }
            proof {
                assert(Seq::new(r@.len(), |j: int| r@[j]@) =~= unchecked_infos(
                    self@.take(i + 1 as int),
                ));
            }
            i += 1;
        }
        proof {
            assert(self@.take(n as int) =~= self@);
        }
        r
    }
}

/// Helper naming for the trigger in `from_entries`.
pub open spec fn old_entry_time(entries: Seq<(String, Book)>, i: int) -> Seq<char> {
    entries[i].0@
}

} // verus!
