//! A model of the persistence gateway: the table of user rows as a
//! sequence, the auto-incrementing identifier counter, and the five
//! operations the handlers ask of it. `MemStore` is an executable,
//! verified form of the model; it stands in for the relational store in
//! tests and pins down, as spec functions, what each gateway call does.
use vstd::prelude::*;

use crate::user::User;
use crate::user::UserInput;
use crate::user::UserView;

verus! {

/// The mathematical state of the store: the rows in insertion order and
/// the next identifier to assign.
pub struct StoreView {
    pub rows: Seq<UserView>,
    pub next: int,
}

/// A well-formed store: the counter started at one, every row carries an
/// identifier in range that the counter has passed, and no two rows share
/// one.
pub open spec fn store_wf(s: StoreView) -> bool {
    &&& 1 <= s.next
    &&& forall|i: int|
        0 <= i < s.rows.len() ==> {
            &&& (#[trigger] s.rows[i]).id is Some
            &&& 1 <= s.rows[i].id->0 < s.next
        }
    &&& forall|i: int, j: int|
        0 <= i < j < s.rows.len() ==> (#[trigger] s.rows[i]).id != (#[trigger] s.rows[j]).id
}

/// The index of the first row carrying `id`, if any.
pub open spec fn find_index(rows: Seq<UserView>, id: int) -> Option<int>
    decreases rows.len(),
{
    if rows.len() == 0 {
        None
    } else if rows[0].id == Some(id) {
        Some(0)
    } else {
        match find_index(rows.drop_first(), id) {
            Some(i) => Some(i + 1),
            None => None,
        }
    }
}

/// `find_index` names the first row with the identifier, and `None`
/// means no row carries it.
pub proof fn lemma_find_index(rows: Seq<UserView>, id: int)
    ensures
        match find_index(rows, id) {
            Some(i) => 0 <= i < rows.len() && rows[i].id == Some(id) && forall|j: int|
                0 <= j < i ==> (#[trigger] rows[j]).id != Some(id),
            None => forall|j: int| 0 <= j < rows.len() ==> (#[trigger] rows[j]).id != Some(id),
        },
    decreases rows.len(),
{
    if rows.len() > 0 && rows[0].id != Some(id) {
        lemma_find_index(rows.drop_first(), id);
        assert(forall|j: int| 1 <= j < rows.len() ==> rows.drop_first()[j - 1] == rows[j]);
    }
}

/// The row carrying `id`, if any.
pub open spec fn spec_find(s: StoreView, id: int) -> Option<UserView> {
    match find_index(s.rows, id) {
        Some(i) => Some(s.rows[i]),
        None => None,
    }
}

/// Inserting a row: when the counter has room, the new row takes the
/// counter's value as its identifier and joins the end of the table;
/// a counter at its bound refuses, changing nothing.
pub open spec fn spec_insert(s: StoreView, name: Seq<u8>, email: Seq<u8>) -> (StoreView, Option<
    int,
>) {
    if s.next < i32::MAX {
        (
            StoreView {
                rows: s.rows.push(UserView { id: Some(s.next), name, email }),
                next: s.next + 1,
            },
            Some(s.next),
        )
    } else {
        (s, None)
    }
}

/// Updating a row: the first row carrying `id` takes the new name and
/// email, keeping its identifier, and the count is one; without such a
/// row nothing changes and the count is zero.
pub open spec fn spec_update(s: StoreView, id: int, name: Seq<u8>, email: Seq<u8>) -> (
    StoreView,
    int,
) {
    match find_index(s.rows, id) {
        Some(i) => (
            StoreView {
                rows: s.rows.update(i, UserView { id: Some(id), name, email }),
                next: s.next,
            },
            1,
        ),
        None => (s, 0),
    }
}

/// Deleting a row: the first row carrying `id` leaves the table and the
/// count is one; without such a row nothing changes and the count is
/// zero. The counter never moves back.
pub open spec fn spec_delete(s: StoreView, id: int) -> (StoreView, int) {
    match find_index(s.rows, id) {
        Some(i) => (StoreView { rows: s.rows.remove(i), next: s.next }, 1),
        None => (s, 0),
    }
}

/// The executable store: a growable table of rows and the counter.
pub struct MemStore {
    rows: Vec<User>,
    next_id: i32,
}

impl View for MemStore {
    type V = StoreView;

    closed spec fn view(&self) -> StoreView {
        StoreView { rows: self.rows@.map_values(|u: User| u@), next: self.next_id as int }
    }
}

impl MemStore {
    /// True of a store whose view is well-formed.
    pub open spec fn wf(&self) -> bool {
        store_wf(self@)
    }

    /// An empty store, its counter at one.
    pub fn new() -> (r: MemStore)
        ensures
            r.wf(),
            r@.rows == Seq::<UserView>::empty(),
            r@.next == 1,
    {
        let r = MemStore { rows: Vec::new(), next_id: 1 };
        proof {
            assert(r@.rows =~= Seq::<UserView>::empty());
        }
        r
    }

    /// Finds the position of the row carrying `id` in the table.
    fn position_of(&self, id: i32) -> (r: Option<usize>)
        ensures
            match r {
                Some(i) => find_index(self@.rows, id as int) == Some(i as int),
                None => find_index(self@.rows, id as int) is None,
            },
    {
        let n = self.rows.len();
        let mut i: usize = 0;
        while i < n
            invariant
                i <= n,
                n == self@.rows.len(),
                self@.rows == self.rows@.map_values(|u: User| u@),
                forall|j: int| 0 <= j < i ==> (#[trigger] self@.rows[j]).id != Some(id as int),
            decreases n - i,
        {
            let hit = match self.rows[i].id {
                Some(x) => x == id,
                None => false,
            };
            proof {
                assert(self@.rows[i as int] == self.rows@[i as int]@);
            }
            if hit {
                proof {
                    lemma_find_index(self@.rows, id as int);
                }
                return Some(i);
            }
            i = i + 1;
        }
        proof {
            lemma_find_index(self@.rows, id as int);
        }
        None
    }

    /// Inserts a row, handing back the identifier the store assigned, or
    /// nothing when the counter is exhausted.
    pub fn insert(&mut self, input: UserInput) -> (r: Option<i32>)
        requires
            old(self).wf(),
        ensures
            final(self).wf(),
            final(self)@ == spec_insert(old(self)@, input.name@, input.email@).0,
            match r {
                Some(i) => spec_insert(old(self)@, input.name@, input.email@).1 == Some(i as int),
                None => spec_insert(old(self)@, input.name@, input.email@).1 is None,
            },
    {
        if self.next_id < i32::MAX {
            let id = self.next_id;
            let row = User { id: Some(id), name: input.name, email: input.email };
            let ghost rv = row@;
            self.rows.push(row);
            self.next_id = id + 1;
            proof {
                assert(self@.rows =~= old(self)@.rows.push(rv));
            }
            Some(id)
        } else {
            None
        }
    }

    /// Hands back a copy of the row carrying `id`, if one does.
    pub fn find_by_id(&self, id: i32) -> (r: Option<User>)
        ensures
            match r {
                Some(u) => spec_find(self@, id as int) == Some(u@),
                None => spec_find(self@, id as int) is None,
            },
    {
        match self.position_of(id) {
            Some(i) => {
                proof {
                    lemma_find_index(self@.rows, id as int);
                    assert(self@.rows[i as int] == self.rows@[i as int]@);
                }
                Some(self.rows[i].clone())
            },
            None => None,
        }
    }

    /// Hands back a copy of every row, in insertion order.
    pub fn find_all(&self) -> (r: Vec<User>)
        ensures
            r@.map_values(|u: User| u@) == self@.rows,
    {
        let n = self.rows.len();
        let mut out: Vec<User> = Vec::new();
        let mut i: usize = 0;
        while i < n
            invariant
                i <= n,
                n == self@.rows.len(),
                self@.rows == self.rows@.map_values(|u: User| u@),
                out@.len() == i,
                forall|j: int| 0 <= j < i ==> (#[trigger] out@[j])@ == self@.rows[j],
            decreases n - i,
        {
            let c = self.rows[i].clone();
            proof {
                assert(c@ == self@.rows[i as int]);
            }
            out.push(c);
            i = i + 1;
        }
        proof {
            assert forall|j: int| 0 <= j < n implies out@.map_values(|u: User| u@)[j]
                == self@.rows[j] by {
                assert(out@[j]@ == self@.rows[j]);
            }
            assert(out@.map_values(|u: User| u@) =~= self@.rows);
        }
        out
    }

    /// Rewrites the name and email of the row carrying `id`, handing back
    /// how many rows that touched: one when the row exists, zero when it
    /// does not.
    pub fn update(&mut self, id: i32, input: UserInput) -> (n: u64)
        requires
            old(self).wf(),
        ensures
            final(self).wf(),
            final(self)@ == spec_update(old(self)@, id as int, input.name@, input.email@).0,
            n as int == spec_update(old(self)@, id as int, input.name@, input.email@).1,
    {
        match self.position_of(id) {
            Some(i) => {
                proof {
                    lemma_find_index(self@.rows, id as int);
                }
                let row = User { id: Some(id), name: input.name, email: input.email };
                let ghost rv = row@;
                self.rows[i] = row;
                proof {
                    assert(self@.rows =~= old(self)@.rows.update(i as int, rv));
                    assert forall|a: int, b: int|
                        0 <= a < b < self@.rows.len() implies (#[trigger] self@.rows[a]).id != (
                    #[trigger] self@.rows[b]).id by {
                        assert(old(self)@.rows[a].id != old(self)@.rows[b].id);
                    }
                }
                1
            },
            None => 0,
        }
    }

    /// Removes the row carrying `id`, handing back how many rows that
    /// removed: one when the row existed, zero when it did not.
    pub fn delete(&mut self, id: i32) -> (n: u64)
        requires
            old(self).wf(),
        ensures
            final(self).wf(),
            final(self)@ == spec_delete(old(self)@, id as int).0,
            n as int == spec_delete(old(self)@, id as int).1,
    {
        match self.position_of(id) {
            Some(i) => {
                proof {
                    lemma_find_index(self@.rows, id as int);
                }
                self.rows.remove(i);
                proof {
                    assert(self@.rows =~= old(self)@.rows.remove(i as int));
                    assert forall|a: int, b: int|
                        0 <= a < b < self@.rows.len() implies (#[trigger] self@.rows[a]).id != (
                    #[trigger] self@.rows[b]).id by {
                        let oa: int = if a < i as int {
                            a
                        } else {
                            a + 1
                        };
                        let ob: int = if b < i as int {
                            b
                        } else {
                            b + 1
                        };
                        assert(self@.rows[a] == old(self)@.rows[oa]);
                        assert(self@.rows[b] == old(self)@.rows[ob]);
                        assert(old(self)@.rows[oa].id != old(self)@.rows[ob].id);
                    }
                }
                1
            },
            None => 0,
        }
    }
}

} // verus!
