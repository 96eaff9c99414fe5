use todo_api::item::TodoItem;
use todo_api::store::TodoStore;

#[test]
fn list_all_on_empty_table_is_empty() {
    let st = TodoStore::new();
    let items = st.list_all();
    assert_eq!(items.len(), 0);
}

#[test]
fn insert_then_list_includes_row() {
    let mut st = TodoStore::new();
    let id = st.insert(String::from("Buy milk"), String::from("2%"), false);
    let items = st.list_all();
    assert!(items
        .iter()
        .any(|t| t.id == id && t.title == "Buy milk" && t.description == "2%" && !t.completed));
}

#[test]
fn ids_ascend_from_one() {
    let mut st = TodoStore::new();
    let a = st.insert(String::from("first"), String::from(""), false);
    let b = st.insert(String::from("second"), String::from(""), true);
    assert_eq!(a, 1);
    assert_eq!(b, 2);
    let items = st.list_all();
    assert_eq!(items.len(), 2);
    assert_eq!(items[0].id, 1);
    assert_eq!(items[1].id, 2);
    assert_eq!(items[0].title, "first");
    assert_eq!(items[1].title, "second");
}

#[test]
fn delete_missing_id_leaves_table_unchanged() {
    let mut st = TodoStore::new();
    st.insert(String::from("keep"), String::from("d"), false);
    let n = st.delete_by_id(99);
    assert_eq!(n, 0);
    let items = st.list_all();
    assert_eq!(items.len(), 1);
    assert_eq!(items[0].title, "keep");
}

#[test]
fn delete_existing_removes_one_row_then_not_found() {
    let mut st = TodoStore::new();
    let id = st.insert(String::from("gone"), String::from(""), true);
    st.insert(String::from("stays"), String::from(""), false);
    let n1 = st.delete_by_id(id);
    assert_eq!(n1, 1);
    assert_eq!(st.list_all().len(), 1);
    let n2 = st.delete_by_id(id);
    assert_eq!(n2, 0);
    assert_eq!(st.list_all().len(), 1);
}

#[test]
fn update_missing_id_is_not_an_upsert() {
    let mut st = TodoStore::new();
    let n = st.update_by_id(TodoItem {
        id: 5,
        title: String::from("ghost"),
        description: String::from(""),
        completed: false,
    });
    assert_eq!(n, 0);
    assert_eq!(st.list_all().len(), 0);
}

#[test]
fn update_existing_replaces_fields_in_place() {
    let mut st = TodoStore::new();
    let id = st.insert(String::from("old title"), String::from("old"), false);
    st.insert(String::from("other"), String::from(""), false);
    let n = st.update_by_id(TodoItem {
        id,
        title: String::from("new title"),
        description: String::from("new"),
        completed: true,
    });
    assert_eq!(n, 1);
    let items = st.list_all();
    assert_eq!(items.len(), 2);
    assert_eq!(items[0].id, id);
    assert_eq!(items[0].title, "new title");
    assert_eq!(items[0].description, "new");
    assert!(items[0].completed);
    assert_eq!(items[1].title, "other");
}

#[test]
fn insert_list_delete_round_trip() {
    let mut st = TodoStore::new();
    st.insert(String::from("Buy milk"), String::from("2%"), false);
    let items = st.list_all();
    assert_eq!(items.len(), 1);
    assert_eq!(items[0].title, "Buy milk");
    assert_eq!(items[0].description, "2%");
    assert!(!items[0].completed);
    let id = items[0].id;
    let n = st.delete_by_id(id);
    assert_eq!(n, 1);
    assert_eq!(st.list_all().len(), 0);
}
