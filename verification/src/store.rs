//! The storage gateway, modelled exactly: one `todos` table kept in ascending
//! id order, with the four operations the service performs against it.
//!
//! Ids are assigned by the store on insert (auto-increment: one more than the
//! largest id present, starting from 1), are unique, and never change.

use vstd::prelude::*;

use crate::item::{TodoItem, TodoView};

verus! {

/// The rows are strictly ascending by id (which makes ids unique) and every
/// id is at least 1, as an auto-increment column keeps them.
pub open spec fn wf_rows(s: Seq<TodoView>) -> bool {
    &&& forall|i: int, j: int|
        #![trigger s[i].id, s[j].id]
        0 <= i < j < s.len() ==> s[i].id < s[j].id
    &&& forall|i: int| 0 <= i < s.len() ==> (#[trigger] s[i].id) >= 1
}

/// The id the store assigns to the next inserted row.
pub open spec fn next_id(s: Seq<TodoView>) -> int {
    if s.len() == 0 {
        1
    } else {
        s.last().id + 1
    }
}

/// Whether some row of `s` carries the id `id`.
pub open spec fn contains_id(s: Seq<TodoView>, id: int) -> bool {
    exists|i: int| 0 <= i < s.len() && s[i].id == id
}

/// The position of the row with id `id` (meaningful only when one exists;
/// by well-formedness there is at most one).
pub open spec fn index_of_id(s: Seq<TodoView>, id: int) -> int {
    choose|i: int| 0 <= i < s.len() && s[i].id == id
}

/// The `todos` table.
pub struct TodoStore {
    rows: Vec<TodoItem>,
}

impl View for TodoStore {
    type V = Seq<TodoView>;

    closed spec fn view(&self) -> Seq<TodoView> {
        self.rows.deep_view()
    }
}

impl TodoStore {
    /// The table invariant; established by `new` and kept by every operation.
    pub open spec fn wf(&self) -> bool {
        wf_rows(self@)
    }

    /// Whether an id is still free for the next insert; false only once the
    /// largest assignable id has been handed out.
    pub open spec fn can_assign_id(&self) -> bool {
        next_id(self@) <= i64::MAX
    }

    /// An empty table.
    pub fn new() -> (s: TodoStore)
        ensures
            s.wf(),
            s@ == Seq::<TodoView>::empty(),
    {
        let s = TodoStore { rows: Vec::new() };
        proof {
            assert(s@ =~= Seq::<TodoView>::empty());
        }
        s
    }

    /// List every row, in ascending id order (the stored order).
    /// An empty table yields an empty vector; listing is never an error.
    pub fn list_all(&self) -> (r: Vec<TodoItem>)
        ensures
            r.deep_view() == self@,
    {
        let mut out: Vec<TodoItem> = Vec::new();
        let mut i: usize = 0;
        while i < self.rows.len()
            invariant
                i <= self.rows.len(),
                out.deep_view() =~= self.rows.deep_view().take(i as int),
            decreases self.rows.len() - i,
        {
            let row = self.rows[i].duplicate();
            let ghost prev = out.deep_view();
            out.push(row);
            i = i + 1;
            proof {
                assert(out.deep_view() =~= prev.push(row@));
                assert(out.deep_view() =~= self.rows.deep_view().take(i as int));
            }
        }
        proof {
            assert(out.deep_view() =~= self@);
        }
        out
    }

    /// Insert a new row with the given fields; the store assigns the id and
    /// returns it. The new row lands at the end of the table, which keeps
    /// the ascending order.
    pub fn insert(&mut self, title: String, description: String, completed: bool) -> (id: i64)
        requires
            old(self).wf(),
            old(self).can_assign_id(),
        ensures
            final(self).wf(),
            id as int == next_id(old(self)@),
            final(self)@ == old(self)@.push(
                TodoView { id: id as int, title: title@, description: description@, completed },
            ),
    {
        let id: i64 = if self.rows.len() == 0 {
            1
        } else {
            self.rows[self.rows.len() - 1].id + 1
        };
        let row = TodoItem { id, title, description, completed };
        let ghost pre = self@;
        self.rows.push(row);
        proof {
            assert(self@ =~= pre.push(
                TodoView { id: id as int, title: title@, description: description@, completed },
            ));
            assert forall|i: int| 0 <= i < pre.len() implies pre[i].id < id as int by {
                if i < pre.len() - 1 {
                    assert(pre[i].id < pre[pre.len() - 1].id);
                }
            }
        }
        id
    }

    /// Delete the row with id `id`, if there is one, and report how many
    /// rows went away: 1 when the id was present, 0 when it was not (and the
    /// table is then unchanged).
    pub fn delete_by_id(&mut self, id: i64) -> (n: u64)
        requires
            old(self).wf(),
        ensures
            final(self).wf(),
            contains_id(old(self)@, id as int) ==> {
                &&& n == 1
                &&& final(self)@ == old(self)@.remove(index_of_id(old(self)@, id as int))
            },
            !contains_id(old(self)@, id as int) ==> n == 0 && final(self)@ == old(self)@,
    {
        let ghost pre = self@;
        let mut i: usize = 0;
        while i < self.rows.len()
            invariant
                pre == old(self)@,
                self@ == pre,
                self.rows.deep_view() == pre,
                wf_rows(pre),
                i <= self.rows.len(),
                forall|j: int| 0 <= j < i ==> pre[j].id != id as int,
            decreases self.rows.len() - i,
        {
            if self.rows[i].id == id {
                self.rows.remove(i);
                proof {
                    assert(pre[i as int].id == id as int);
                    assert(contains_id(pre, id as int));
                    lemma_index_of_id_unique(pre, id as int, i as int);
                    assert(self@ =~= pre.remove(i as int));
                    lemma_remove_keeps_wf(pre, i as int);
                }
                return 1;
            }
            i = i + 1;
        }
        proof {
            assert(!contains_id(pre, id as int));
        }
        0
    }

    /// Replace the title, description and completed flag of the row whose id
    /// matches `item.id`, and report how many rows changed: 1 when the id was
    /// present, 0 when it was not. A missing id never creates a row and is
    /// not an error; the table's size never changes.
    pub fn update_by_id(&mut self, item: TodoItem) -> (n: u64)
        requires
            old(self).wf(),
        ensures
            final(self).wf(),
            final(self)@.len() == old(self)@.len(),
            contains_id(old(self)@, item.id as int) ==> {
                &&& n == 1
                &&& final(self)@ == old(self)@.update(
                    index_of_id(old(self)@, item.id as int),
                    item@,
                )
            },
            !contains_id(old(self)@, item.id as int) ==> n == 0 && final(self)@ == old(self)@,
    {
        let ghost pre = self@;
        let mut i: usize = 0;
        while i < self.rows.len()
            invariant
                pre == old(self)@,
                self@ == pre,
                self.rows.deep_view() == pre,
                wf_rows(pre),
                i <= self.rows.len(),
                forall|j: int| 0 <= j < i ==> pre[j].id != item.id as int,
            decreases self.rows.len() - i,
        {
            if self.rows[i].id == item.id {
                let ghost replaced = item@;
                self.rows.set(i, item);
                proof {
                    assert(pre[i as int].id == replaced.id);
                    assert(contains_id(pre, replaced.id));
                    lemma_index_of_id_unique(pre, replaced.id, i as int);
                    assert(self@ =~= pre.update(i as int, replaced));
                    assert(wf_rows(self@)) by {
                        assert(forall|k: int|
                            0 <= k < pre.len() && k != i ==> self@[k] == pre[k]);
                        assert(self@[i as int].id == pre[i as int].id);
                    }
                }
                return 1;
            }
            i = i + 1;
        }
        proof {
            assert(!contains_id(pre, item.id as int));
        }
        0
    }
}

/// In a well-formed table ids are unique, so any position holding `id` is
/// the position `index_of_id` names.
pub proof fn lemma_index_of_id_unique(s: Seq<TodoView>, id: int, i: int)
    requires
        wf_rows(s),
        0 <= i < s.len(),
        s[i].id == id,
    ensures
        index_of_id(s, id) == i,
{
    let k = index_of_id(s, id);
    assert(0 <= k < s.len() && s[k].id == id);
    if k < i {
        assert(s[k].id < s[i].id);
    }
    if i < k {
        assert(s[i].id < s[k].id);
    }
}

/// Removing a row keeps the table well formed.
pub proof fn lemma_remove_keeps_wf(s: Seq<TodoView>, i: int)
    requires
        wf_rows(s),
        0 <= i < s.len(),
    ensures
        wf_rows(s.remove(i)),
{
    let t = s.remove(i);
    assert forall|p: int, q: int|
        #![trigger t[p].id, t[q].id]
        0 <= p < q < t.len() implies t[p].id < t[q].id by {
        let p0: int = if p < i { p } else { p + 1 };
        let q0: int = if q < i { q } else { q + 1 };
        assert(t[p] == s[p0]);
        assert(t[q] == s[q0]);
        assert(s[p0].id < s[q0].id);
    }
    assert forall|p: int| 0 <= p < t.len() implies (#[trigger] t[p].id) >= 1 by {
        let p0: int = if p < i { p } else { p + 1 };
        assert(t[p] == s[p0]);
    }
}

/// After an insert, listing finds a row carrying exactly the inserted
/// title, description and completed flag.
pub proof fn lemma_insert_then_list_contains(
    pre: Seq<TodoView>,
    post: Seq<TodoView>,
    id: int,
    title: Seq<char>,
    description: Seq<char>,
    completed: bool,
)
    requires
        post == pre.push(TodoView { id, title, description, completed }),
    ensures
        exists|i: int|
            0 <= i < post.len() && post[i].title == title && post[i].description == description
                && post[i].completed == completed,
{
    let w = post.len() - 1;
    assert(post[w].title == title && post[w].description == description && post[w].completed
        == completed);
}

/// Deleting an existing id removes exactly one row, and the id is then gone:
/// a second delete of the same id finds nothing.
pub proof fn lemma_delete_then_gone(s: Seq<TodoView>, id: int)
    requires
        wf_rows(s),
        contains_id(s, id),
    ensures
        s.remove(index_of_id(s, id)).len() == s.len() - 1,
        !contains_id(s.remove(index_of_id(s, id)), id),
{
    let i = index_of_id(s, id);
    assert(0 <= i < s.len() && s[i].id == id);
    let t = s.remove(i);
    assert forall|m: int| 0 <= m < t.len() implies (#[trigger] t[m].id) != id by {
        let m0: int = if m < i { m } else { m + 1 };
        assert(t[m] == s[m0]);
        if m0 != i {
            lemma_index_of_id_unique(s, id, i);
            if s[m0].id == id {
                assert(index_of_id(s, id) == m0) by {
                    lemma_index_of_id_unique(s, id, m0);
                }
            }
        }
    }
}

} // verus!
