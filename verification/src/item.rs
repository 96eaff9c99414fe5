//! The todo entity: the persisted record (`TodoItem`), the shape of a
//! creation request (`NewTodo`), and their mathematical views.

use vstd::prelude::*;

verus! {

/// Mathematical view of a persisted todo row.
pub ghost struct TodoView {
    pub id: int,
    pub title: Seq<char>,
    pub description: Seq<char>,
    pub completed: bool,
}

/// One row of the `todos` table: `id` is assigned by the store and unique,
/// the remaining fields are caller-supplied.
pub struct TodoItem {
    pub id: i64,
    pub title: String,
    pub description: String,
    pub completed: bool,
}

impl View for TodoItem {
    type V = TodoView;

    open spec fn view(&self) -> TodoView {
        TodoView {
            id: self.id as int,
            title: self.title@,
            description: self.description@,
            completed: self.completed,
        }
    }
}

impl DeepView for TodoItem {
    type V = TodoView;

    open spec fn deep_view(&self) -> TodoView {
        self.view()
    }
}

impl TodoItem {
    /// An independent copy of this row, equal to it field by field.
    pub fn duplicate(&self) -> (r: TodoItem)
        ensures
            r@ == self@,
    {
        TodoItem {
            id: self.id,
            title: self.title.clone(),
            description: self.description.clone(),
            completed: self.completed,
        }
    }
}

/// A creation request: everything of a row but the id, which the store
/// assigns on insert.
pub struct NewTodo {
    pub title: String,
    pub description: String,
    pub completed: bool,
}

} // verus!
