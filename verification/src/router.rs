//! The request router: the map from request paths to the four operations,
//! and the four handlers, each decoding its input, calling the store, and
//! encoding the service's response.

use vstd::prelude::*;
use vstd::slice::slice_subrange;
use vstd::string::StringExecFns;

use crate::item::{NewTodo, TodoItem, TodoView};
use crate::store::{contains_id, index_of_id, next_id, TodoStore};
use crate::text::{append_i64_dec, i64_chars, int_val, parse_i64, parses_as_i64};

verus! {

/// The operation a request path names.
#[derive(Debug, PartialEq, Eq, Structural)]
pub enum Route {
    ListAll,
    Create,
    DeleteById(i64),
    UpdateById,
    Fallback,
}

/// The bytes of an ASCII string, one per character.
pub open spec fn ascii_bytes(s: Seq<char>) -> Seq<u8> {
    Seq::new(s.len(), |i: int| s[i] as u8)
}

pub open spec fn root_path() -> Seq<u8> {
    ascii_bytes("/"@)
}

pub open spec fn create_path() -> Seq<u8> {
    ascii_bytes("/create"@)
}

pub open spec fn update_path() -> Seq<u8> {
    ascii_bytes("/update"@)
}

pub open spec fn delete_prefix() -> Seq<u8> {
    ascii_bytes("/delete/"@)
}

/// A delete route: the delete prefix, then one path segment that is
/// decimal notation for an id an `i64` can hold.
pub open spec fn is_delete_path(p: Seq<u8>) -> bool {
    p.len() > 8 && p.take(8) == delete_prefix() && parses_as_i64(p.skip(8))
}

/// The id a delete route names.
pub open spec fn delete_id_val(p: Seq<u8>) -> int {
    int_val(p.skip(8))
}

/// The route table: the four bound paths, and every other path falling
/// through to the greeting.
pub open spec fn spec_route(p: Seq<u8>) -> Route {
    if p == root_path() {
        Route::ListAll
    } else if p == create_path() {
        Route::Create
    } else if p == update_path() {
        Route::UpdateById
    } else if is_delete_path(p) {
        Route::DeleteById(delete_id_val(p) as i64)
    } else {
        Route::Fallback
    }
}

fn bytes_eq(a: &[u8], b: &[u8]) -> (r: bool)
    ensures
        r == (a@ == b@),
{
    if a.len() != b.len() {
        return false;
    }
    let mut i: usize = 0;
    while i < a.len()
        invariant
            a@.len() == b@.len(),
            i <= a@.len(),
            forall|j: int| 0 <= j < i ==> a@[j] == b@[j],
        decreases a@.len() - i,
    {
        if a[i] != b[i] {
            return false;
        }
        i = i + 1;
    }
    proof {
        assert(a@ =~= b@);
    }
    true
}

/// Whether `path` spells exactly the ASCII pattern `pat`.
fn path_eq(path: &[u8], pat: &str) -> (r: bool)
    requires
        pat.is_ascii(),
    ensures
        r == (path@ == ascii_bytes(pat@)),
{
    broadcast use vstd::string::is_ascii_spec_bytes;

    let pb: &[u8] = pat.as_bytes();
    proof {
        assert(pb@ =~= ascii_bytes(pat@));
    }
    bytes_eq(path, pb)
}

/// Map a request path to the operation it names, exactly as the route
/// table binds them; every unbound path routes to the fallback.
pub fn dispatch(path: &[u8]) -> (r: Route)
    ensures
        r == spec_route(path@),
{
    proof {
        reveal_strlit("/");
        reveal_strlit("/create");
        reveal_strlit("/update");
        reveal_strlit("/delete/");
        assert(vstd::string::is_ascii("/"));
        assert(vstd::string::is_ascii("/create"));
        assert(vstd::string::is_ascii("/update"));
        assert(vstd::string::is_ascii("/delete/"));
    }
    if path_eq(path, "/") {
        Route::ListAll
    } else if path_eq(path, "/create") {
        Route::Create
    } else if path_eq(path, "/update") {
        Route::UpdateById
    } else if path.len() > 8 {
        let head: &[u8] = slice_subrange(path, 0, 8);
        if path_eq(head, "/delete/") {
            proof {
                assert(path@.take(8) =~= path@.subrange(0, 8));
            }
            let tail: &[u8] = slice_subrange(path, 8, path.len());
            proof {
                assert(tail@ =~= path@.skip(8));
            }
            match parse_i64(tail) {
                Some(id) => {
                    proof {
                        assert(is_delete_path(path@));
                        assert(id as int == delete_id_val(path@));
                    }
                    Route::DeleteById(id)
                },
                None => {
                    proof {
                        assert(!is_delete_path(path@));
                    }
                    Route::Fallback
                },
            }
        } else {
            proof {
                assert(path@.take(8) =~= path@.subrange(0, 8));
            }
            Route::Fallback
        }
    } else {
        Route::Fallback
    }
}

pub open spec fn hello_chars() -> Seq<char> {
    "Hello, world!"@
}

pub open spec fn created_chars() -> Seq<char> {
    "Successfully inserted todo!"@
}

pub open spec fn updated_chars() -> Seq<char> {
    "Successfully updated todo!"@
}

pub open spec fn deleted_chars() -> Seq<char> {
    "Successfully deleted todo!"@
}

pub open spec fn not_found_chars(id: int) -> Seq<char> {
    "No todo found with id "@ + i64_chars(id)
}

/// The body every unbound route answers with.
pub fn fallback_message() -> (r: String)
    ensures
        r@ == hello_chars(),
{
    String::from_str("Hello, world!")
}

/// The confirmation an insert answers with.
pub fn create_message() -> (r: String)
    ensures
        r@ == created_chars(),
{
    String::from_str("Successfully inserted todo!")
}

/// The confirmation an update answers with.
pub fn update_message() -> (r: String)
    ensures
        r@ == updated_chars(),
{
    String::from_str("Successfully updated todo!")
}

/// The body a delete answers with, decided by how many rows went away:
/// a confirmation when one did, a not-found message naming the id when
/// none did. Both are success responses.
pub fn delete_message(id: i64, rows_affected: u64) -> (r: String)
    ensures
        rows_affected > 0 ==> r@ == deleted_chars(),
        rows_affected == 0 ==> r@ == not_found_chars(id as int),
{
    if rows_affected > 0 {
        String::from_str("Successfully deleted todo!")
    } else {
        let mut s = String::from_str("No todo found with id ");
        append_i64_dec(&mut s, id);
        s
    }
}

/// A decoded request: the operation together with its input, or anything
/// that matched no bound route.
pub enum Request {
    ListAll,
    Create(NewTodo),
    DeleteById(i64),
    UpdateById(TodoItem),
    Unmatched,
}

/// What a handler answers: a status code and a body, either plain text or
/// the listed rows (which the caller encodes structurally on the wire).
pub struct HttpResponse {
    pub status: u16,
    pub body: ResponseBody,
}

pub enum ResponseBody {
    Text(String),
    Todos(Vec<TodoItem>),
}

/// List every row of the table, in ascending id order.
pub fn handle_list(store: &TodoStore) -> (r: Vec<TodoItem>)
    ensures
        r.deep_view() == store@,
{
    store.list_all()
}

/// Insert the requested row; the store assigns the id. Answers the fixed
/// confirmation, which does not name the new id.
pub fn handle_create(store: &mut TodoStore, input: NewTodo) -> (r: String)
    requires
        old(store).wf(),
        old(store).can_assign_id(),
    ensures
        final(store).wf(),
        final(store)@ == old(store)@.push(
            (TodoView {
                id: next_id(old(store)@),
                title: input.title@,
                description: input.description@,
                completed: input.completed,
            }),
        ),
        r@ == created_chars(),
{
    let NewTodo { title, description, completed } = input;
    store.insert(title, description, completed);
    create_message()
}

/// Delete the row with the given id, if any, and answer with the
/// confirmation or the not-found message; either way the status is success.
pub fn handle_delete(store: &mut TodoStore, id: i64) -> (r: String)
    requires
        old(store).wf(),
    ensures
        final(store).wf(),
        contains_id(old(store)@, id as int) ==> final(store)@ == old(store)@.remove(
            index_of_id(old(store)@, id as int),
        ) && r@ == deleted_chars(),
        !contains_id(old(store)@, id as int) ==> final(store)@ == old(store)@ && r@
            == not_found_chars(id as int),
{
    let n: u64 = store.delete_by_id(id);
    delete_message(id, n)
}

/// Replace the fields of the row whose id the request names. A missing id
/// changes nothing and creates nothing, and the answer does not tell the
/// two outcomes apart.
pub fn handle_update(store: &mut TodoStore, item: TodoItem) -> (r: String)
    requires
        old(store).wf(),
    ensures
        final(store).wf(),
        final(store)@.len() == old(store)@.len(),
        contains_id(old(store)@, item.id as int) ==> final(store)@ == old(store)@.update(
            index_of_id(old(store)@, item.id as int),
            item@,
        ),
        !contains_id(old(store)@, item.id as int) ==> final(store)@ == old(store)@,
        r@ == updated_chars(),
{
    store.update_by_id(item);
    update_message()
}

/// One request in, one response out: the router's whole answer policy.
/// Every logical outcome, a not-found delete included, is a 200; an
/// unmatched route greets.
pub fn respond(store: &mut TodoStore, req: Request) -> (r: HttpResponse)
    requires
        old(store).wf(),
        req is Create ==> old(store).can_assign_id(),
    ensures
        final(store).wf(),
        r.status == 200,
        req is ListAll ==> final(store)@ == old(store)@ && (r.body matches ResponseBody::Todos(
            items,
        ) && items.deep_view() == old(store)@),
        req matches Request::Create(input) ==> final(store)@ == old(store)@.push(
            (TodoView {
                id: next_id(old(store)@),
                title: input.title@,
                description: input.description@,
                completed: input.completed,
            }),
        ) && (r.body matches ResponseBody::Text(t) && t@ == created_chars()),
        req matches Request::DeleteById(id) ==> {
            &&& contains_id(old(store)@, id as int) ==> final(store)@ == old(store)@.remove(
                index_of_id(old(store)@, id as int),
            ) && (r.body matches ResponseBody::Text(t) && t@ == deleted_chars())
            &&& !contains_id(old(store)@, id as int) ==> final(store)@ == old(store)@ && (
            r.body matches ResponseBody::Text(t) && t@ == not_found_chars(id as int))
        },
        req matches Request::UpdateById(item) ==> final(store)@.len() == old(store)@.len() && (
        r.body matches ResponseBody::Text(t) && t@ == updated_chars()) && {
            &&& contains_id(old(store)@, item.id as int) ==> final(store)@ == old(
                store,
            )@.update(index_of_id(old(store)@, item.id as int), item@)
            &&& !contains_id(old(store)@, item.id as int) ==> final(store)@ == old(store)@
        },
        req is Unmatched ==> final(store)@ == old(store)@ && (r.body
            matches ResponseBody::Text(t) && t@ == hello_chars()),
{
    match req {
        Request::ListAll => HttpResponse { status: 200, body: ResponseBody::Todos(handle_list(store)) },
        Request::Create(input) => HttpResponse {
            status: 200,
            body: ResponseBody::Text(handle_create(store, input)),
        },
        Request::DeleteById(id) => HttpResponse {
            status: 200,
            body: ResponseBody::Text(handle_delete(store, id)),
        },
        Request::UpdateById(item) => HttpResponse {
            status: 200,
            body: ResponseBody::Text(handle_update(store, item)),
        },
        Request::Unmatched => HttpResponse {
            status: 200,
            body: ResponseBody::Text(fallback_message()),
        },
    }
}

} // verus!
