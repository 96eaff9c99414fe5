use todo_api::item::{NewTodo, TodoItem};
use todo_api::router::{
    create_message, delete_message, dispatch, fallback_message, respond, update_message, Request,
    ResponseBody, Route,
};
use todo_api::store::TodoStore;

#[test]
fn routes_bind_the_four_paths() {
    assert_eq!(dispatch(b"/"), Route::ListAll);
    assert_eq!(dispatch(b"/create"), Route::Create);
    assert_eq!(dispatch(b"/update"), Route::UpdateById);
    assert_eq!(dispatch(b"/delete/42"), Route::DeleteById(42));
}

#[test]
fn delete_route_reads_signs_and_bounds() {
    assert_eq!(dispatch(b"/delete/-7"), Route::DeleteById(-7));
    assert_eq!(dispatch(b"/delete/+8"), Route::DeleteById(8));
    assert_eq!(dispatch(b"/delete/007"), Route::DeleteById(7));
    assert_eq!(dispatch(b"/delete/9223372036854775807"), Route::DeleteById(i64::MAX));
    assert_eq!(dispatch(b"/delete/-9223372036854775808"), Route::DeleteById(i64::MIN));
    assert_eq!(dispatch(b"/delete/9223372036854775808"), Route::Fallback);
    assert_eq!(dispatch(b"/delete/-9223372036854775809"), Route::Fallback);
}

#[test]
fn malformed_delete_segments_fall_through() {
    assert_eq!(dispatch(b"/delete/abc"), Route::Fallback);
    assert_eq!(dispatch(b"/delete/"), Route::Fallback);
    assert_eq!(dispatch(b"/delete/1x"), Route::Fallback);
    assert_eq!(dispatch(b"/delete/-"), Route::Fallback);
    assert_eq!(dispatch(b"/delete"), Route::Fallback);
}

#[test]
fn unmatched_routes_fall_through() {
    assert_eq!(dispatch(b"/nonexistent"), Route::Fallback);
    assert_eq!(dispatch(b""), Route::Fallback);
    assert_eq!(dispatch(b"/creates"), Route::Fallback);
    assert_eq!(dispatch(b"//"), Route::Fallback);
}

#[test]
fn unmatched_request_answers_hello_with_200() {
    let mut st = TodoStore::new();
    let r = respond(&mut st, Request::Unmatched);
    assert_eq!(r.status, 200);
    match r.body {
        ResponseBody::Text(t) => assert_eq!(t, "Hello, world!"),
        ResponseBody::Todos(_) => panic!("expected a text body"),
    }
    assert_eq!(st.list_all().len(), 0);
}

#[test]
fn update_request_does_not_create_and_still_confirms() {
    let mut st = TodoStore::new();
    let r = respond(
        &mut st,
        Request::UpdateById(TodoItem {
            id: 9,
            title: String::from("nobody"),
            description: String::from(""),
            completed: true,
        }),
    );
    assert_eq!(r.status, 200);
    match r.body {
        ResponseBody::Text(t) => assert_eq!(t, "Successfully updated todo!"),
        ResponseBody::Todos(_) => panic!("expected a text body"),
    }
    assert_eq!(st.list_all().len(), 0);
}

#[test]
fn full_service_scenario_over_the_request_surface() {
    let mut st = TodoStore::new();
    let r = respond(
        &mut st,
        Request::Create(NewTodo {
            title: String::from("Buy milk"),
            description: String::from("2%"),
            completed: false,
        }),
    );
    assert_eq!(r.status, 200);
    match r.body {
        ResponseBody::Text(t) => assert_eq!(t, "Successfully inserted todo!"),
        ResponseBody::Todos(_) => panic!("expected a text body"),
    }

    let r = respond(&mut st, Request::ListAll);
    assert_eq!(r.status, 200);
    let id = match r.body {
        ResponseBody::Todos(items) => {
            assert_eq!(items.len(), 1);
            assert_eq!(items[0].title, "Buy milk");
            assert_eq!(items[0].description, "2%");
            assert!(!items[0].completed);
            items[0].id
        }
        ResponseBody::Text(_) => panic!("expected the listed rows"),
    };

    let r = respond(&mut st, Request::DeleteById(id));
    assert_eq!(r.status, 200);
    match r.body {
        ResponseBody::Text(t) => assert_eq!(t, "Successfully deleted todo!"),
        ResponseBody::Todos(_) => panic!("expected a text body"),
    }

    let r = respond(&mut st, Request::ListAll);
    match r.body {
        ResponseBody::Todos(items) => assert_eq!(items.len(), 0),
        ResponseBody::Text(_) => panic!("expected the listed rows"),
    }

    let r = respond(&mut st, Request::DeleteById(id));
    assert_eq!(r.status, 200);
    match r.body {
        ResponseBody::Text(t) => assert_eq!(t, format!("No todo found with id {}", id)),
        ResponseBody::Todos(_) => panic!("expected a text body"),
    }
}

#[test]
fn messages_spell_the_wire_bodies() {
    assert_eq!(create_message(), "Successfully inserted todo!");
    assert_eq!(update_message(), "Successfully updated todo!");
    assert_eq!(fallback_message(), "Hello, world!");
    assert_eq!(delete_message(3, 2), "Successfully deleted todo!");
    assert_eq!(delete_message(-12, 0), "No todo found with id -12");
    assert_eq!(delete_message(0, 0), "No todo found with id 0");
}
