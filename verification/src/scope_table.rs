//! Insertion-ordered table of distinct scope names.
//!
//! The scope exporter deduplicates scope names into a per-request table:
//! the first insertion of a name gets the lowest free index, and a later
//! insertion of the same name returns the existing index without growing
//! the table.

use vstd::prelude::*;

verus! {

/// Index of the first occurrence of `name` in `names`; meaningful only
/// when `names` contains `name`.
pub open spec fn first_index_of(names: Seq<Seq<char>>, name: Seq<char>) -> int
    decreases names.len(),
{
    if names.len() == 0 {
        0
    } else if names[0] == name {
        0
    } else {
        1 + first_index_of(names.drop_first(), name)
    }
}

/// What one insertion does to a table: an already-present name keeps its
/// first index and the table is unchanged; a new name is appended and gets
/// the next free index.
pub open spec fn table_insert(names: Seq<Seq<char>>, name: Seq<char>) -> (Seq<Seq<char>>, int) {
    if names.contains(name) {
        (names, first_index_of(names, name))
    } else {
        (names.push(name), names.len() as int)
    }
}

proof fn lemma_first_index_of_at(names: Seq<Seq<char>>, name: Seq<char>, k: int)
    requires
        0 <= k < names.len(),
        names[k] == name,
        forall|j: int| 0 <= j < k ==> names[j] != name,
    ensures
        first_index_of(names, name) == k,
    decreases names.len(),
{
    if k > 0 {
        assert(names[0] != name);
        lemma_first_index_of_at(names.drop_first(), name, k - 1);
    }
}

proof fn lemma_first_index_of_in_range(names: Seq<Seq<char>>, name: Seq<char>)
    requires
        names.contains(name),
    ensures
        0 <= first_index_of(names, name) < names.len(),
    decreases names.len(),
{
    if names[0] != name {
        let i = choose|i: int| 0 <= i < names.len() && names[i] == name;
        assert(names.drop_first()[i - 1] == name);
        assert(names.drop_first().contains(name));
        lemma_first_index_of_in_range(names.drop_first(), name);
    }
}

/// One insertion leaves the table a prefix of the result, and the index
/// it returns points into the result.
pub proof fn lemma_table_insert_props(names: Seq<Seq<char>>, name: Seq<char>)
    ensures
        names.is_prefix_of(table_insert(names, name).0),
        0 <= table_insert(names, name).1 < table_insert(names, name).0.len(),
{
    if names.contains(name) {
        lemma_first_index_of_in_range(names, name);
        assert(names.is_prefix_of(names));
    } else {
        assert(names.is_prefix_of(names.push(name)));
    }
}

/// No name occurs twice.
pub open spec fn names_unique(names: Seq<Seq<char>>) -> bool {
    forall|i: int, j: int| 0 <= i < j < names.len() ==> names[i] != names[j]
}

/// An insertion never introduces a duplicate.
pub proof fn lemma_table_insert_unique(names: Seq<Seq<char>>, name: Seq<char>)
    requires
        names_unique(names),
    ensures
        names_unique(table_insert(names, name).0),
{
    if !names.contains(name) {
        let pushed = names.push(name);
        assert forall|i: int, j: int| 0 <= i < j < pushed.len() implies pushed[i] != pushed[j] by {
            if j < names.len() {
                assert(pushed[i] == names[i] && pushed[j] == names[j]);
            } else {
                assert(pushed[j] == name);
                assert(pushed[i] == names[i]);
                assert(!names.contains(name));
            }
        }
    }
}

/// An insertion-ordered set of scope name strings with stable indices.
pub struct ScopeNameTable {
    names: Vec<String>,
}

impl View for ScopeNameTable {
    type V = Seq<Seq<char>>;

    closed spec fn view(&self) -> Seq<Seq<char>> {
        self.names.deep_view()
    }
}

impl ScopeNameTable {
    pub fn new() -> (r: ScopeNameTable)
        ensures
            r@ == Seq::<Seq<char>>::empty(),
    {
        let r = ScopeNameTable { names: Vec::new() };
        proof {
            assert(r@ =~= Seq::<Seq<char>>::empty());
        }
        r
    }

    pub fn len(&self) -> (n: usize)
        ensures
            n == self@.len(),
    {
        self.names.len()
    }

    /// Insert `name` and return its stable index: the index of its first
    /// occurrence if already present, the next free index otherwise.
    pub fn insert_full(&mut self, name: String) -> (idx: usize)
        ensures
            final(self)@ == table_insert(old(self)@, name@).0,
            idx as int == table_insert(old(self)@, name@).1,
            idx < final(self)@.len(),
    {
        let n = self.names.len();
        for i in 0..n
            invariant
                n == self.names.len(),
                self@ == self.names.deep_view(),
                forall|j: int| 0 <= j < i ==> self@[j] != name@,
        {
            if self.names[i] == name {
                proof {
                    assert(self@[i as int] == self.names@[i as int]@);
                    assert(self@.contains(name@));
                    lemma_first_index_of_at(self@, name@, i as int);
                }
                return i;
            }
            proof {
                assert(self@[i as int] == self.names@[i as int]@);
            }
        }
        proof {
            assert(forall|j: int| 0 <= j < self@.len() ==> self@[j] != name@);
            assert(!self@.contains(name@));
        }
        let ghost pre = self@;
        self.names.push(name);
        proof {
            assert(self@ =~= pre.push(name@));
        }
        n
    }

    /// The table's contents, in insertion order.
    pub fn into_names(self) -> (r: Vec<String>)
        ensures
            r.deep_view() == self@,
    {
        self.names
    }
}

/// Law: index stability. Inserting a fresh name assigns the next free
/// index (0, 1, 2, ... in encounter order), and re-inserting a name that
/// is already present returns its original index and leaves the table
/// unchanged.
pub proof fn lemma_index_stability(names: Seq<Seq<char>>, name: Seq<char>)
    ensures
        !names.contains(name) ==> table_insert(names, name).1 == names.len(),
        table_insert(table_insert(names, name).0, name).0 == table_insert(names, name).0,
        table_insert(table_insert(names, name).0, name).1 == table_insert(names, name).1,
{
    if names.contains(name) {
        // re-insertion of a present name changes nothing, by definition
    } else {
        let pushed = names.push(name);
        assert(pushed[names.len() as int] == name);
        assert(pushed.contains(name));
        lemma_first_index_of_at(pushed, name, names.len() as int);
    }
}

} // verus!
