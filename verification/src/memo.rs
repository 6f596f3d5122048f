//! The cache of failures that a memoising parser keeps for one parse.

use vstd::prelude::*;

verus! {

/// The table of the cache, a `hashbrown::HashMap`: under an offset's index
/// and a parser's identity, `None` while that parser runs there, or the
/// place of its failure.
#[verifier::external_body]
pub struct MemoTable {
    inner: hashbrown::HashMap<(usize, usize), Option<usize>>,
}

/// The entries of a table: for each key that is present, its value.
pub uninterp spec fn memo_entries(table: MemoTable) -> Map<(usize, usize), Option<usize>>;

/// The entries of a table that holds nothing.
pub open spec fn no_entries() -> Map<(usize, usize), Option<usize>> {
    Map::empty()
}

/// `HashMap::default`: a table without entries.
#[verifier::external_body]
fn table_new() -> (table: MemoTable)
    ensures
        memo_entries(table) == no_entries(),
{
    MemoTable { inner: hashbrown::HashMap::default() }
}

/// `HashMap::get`: the value stored under `key`, if the key is present.
#[verifier::external_body]
fn table_get(table: &MemoTable, key: (usize, usize)) -> (found: Option<Option<usize>>)
    ensures
        found == if memo_entries(*table).contains_key(key) {
            Some(memo_entries(*table)[key])
        } else {
            None
        },
{
    table.inner.get(&key).copied()
}

/// `HashMap::insert`: afterwards `key` is present with `value`, and every
/// other key is as before.
#[verifier::external_body]
fn table_insert(
    table: &mut MemoTable,
    key: (usize, usize),
    value: Option<usize>,
)
    ensures
        memo_entries(*final(table)) == memo_entries(*old(table)).insert(key, value),
{
    table.inner.insert(key, value);
}

/// The cache of one session. Under an offset's index and a parser's
/// identity it holds `None` while that parser runs at that offset, and the
/// parser's error once it has failed there.
pub struct Memo<E> {
    table: MemoTable,
    failures: Vec<E>,
}

impl<E> Memo<E> {
    /// Every failure the table points to is held.
    pub closed spec fn wf(&self) -> bool {
        forall|key: (usize, usize)|
            memo_entries(self.table).contains_key(key) && (#[trigger] memo_entries(
                self.table,
            )[key]) is Some ==> memo_entries(self.table)[key]->0 < self.failures@.len()
    }

    /// What the cache holds under each key that is present.
    pub closed spec fn view(&self) -> Map<(usize, usize), Option<E>> {
        Map::new(
            |key: (usize, usize)| memo_entries(self.table).contains_key(key),
            |key: (usize, usize)|
                match memo_entries(self.table)[key] {
                    Some(place) => Some(self.failures@[place as int]),
                    None => None,
                },
        )
    }

    /// A cache that holds nothing.
    pub fn new() -> (memo: Self)
        ensures
            memo.wf(),
            memo@ == Map::<(usize, usize), Option<E>>::empty(),
    {
        let memo = Memo { table: table_new(), failures: Vec::new() };
        assert(memo@ =~= Map::<(usize, usize), Option<E>>::empty());
        memo
    }

    /// What is cached for `parser` at `offset`: `None` where nothing is,
    /// `Some(None)` where the parser is running there, and its error where
    /// it has failed there.
    pub fn lookup(&self, offset: usize, parser: usize) -> (found: Option<Option<&E>>)
        requires
            self.wf(),
        ensures
            found is Some == self@.contains_key((offset, parser)),
            found is Some ==> (found->0 is Some == self@[(offset, parser)] is Some),
            found is Some && found->0 is Some ==> *found->0->0 == self@[(offset, parser)]->0,
    {
        match table_get(&self.table, (offset, parser)) {
            None => None,
            Some(None) => Some(None),
            Some(Some(place)) => {
                assert(memo_entries(self.table)[(offset, parser)] is Some);
                Some(Some(&self.failures[place]))
            },
        }
    }

    /// Notes that `parser` has started at `offset`.
    pub fn begin(&mut self, offset: usize, parser: usize)
        requires
            old(self).wf(),
        ensures
            final(self).wf(),
            final(self)@ == old(self)@.insert((offset, parser), None),
    {
        table_insert(&mut self.table, (offset, parser), None);
        assert(self@ =~= old(self)@.insert((offset, parser), None));
    }

    /// Keeps `error` as the failure of `parser` at `offset`.
    pub fn fail(&mut self, offset: usize, parser: usize, error: E)
        requires
            old(self).wf(),
        ensures
            final(self).wf(),
            final(self)@ == old(self)@.insert((offset, parser), Some(error)),
    {
        let place: usize = self.failures.len();
        self.failures.push(error);
        table_insert(&mut self.table, (offset, parser), Some(place));
        assert(self@ =~= old(self)@.insert((offset, parser), Some(error)));
    }
}

} // verus!
