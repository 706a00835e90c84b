use todo_list::app::App;
use todo_list::item::{ItemS, ItemState};
use todo_list::msg::Msg;

fn ids(app: &App) -> Vec<usize> {
    app.items().iter().map(|it| it.id).collect()
}

fn texts(app: &App) -> Vec<String> {
    app.items().iter().map(|it| it.value.clone()).collect()
}

fn states(app: &App) -> Vec<ItemState> {
    app.items().iter().map(|it| it.state).collect()
}

fn type_and_add(app: &mut App, text: &str, drawn: usize) -> bool {
    assert!(app.apply(Msg::UpdateValue(text.to_string()), 0));
    app.apply(Msg::AddItem(), drawn)
}

#[test]
fn initial_state_has_one_seed_item() {
    let app = App::with_first_id(42);
    assert_eq!(app.items().len(), 1);
    assert_eq!(app.items()[0].id, 42);
    assert_eq!(app.items()[0].value, "FIRST ITEM");
    assert_eq!(app.items()[0].state, ItemState::NEW);
    assert_eq!(app.value(), "");
}

#[test]
fn created_state_has_one_seed_item() {
    let app = App::create();
    assert_eq!(texts(&app), vec!["FIRST ITEM".to_string()]);
    assert_eq!(states(&app), vec![ItemState::NEW]);
    assert_eq!(app.value(), "");
}

#[test]
fn update_value_sets_pending_input() {
    let mut app = App::with_first_id(1);
    assert!(app.update_value("abc".to_string()));
    assert_eq!(app.value(), "abc");
    assert!(app.update(Msg::UpdateValue("abcd".to_string())));
    assert_eq!(app.value(), "abcd");
    assert!(app.update(Msg::UpdateValue(String::new())));
    assert_eq!(app.value(), "");
    assert_eq!(ids(&app), vec![1]);
}

#[test]
fn add_with_empty_input_changes_nothing() {
    let mut app = App::with_first_id(9);
    assert!(!app.add_item(3));
    assert!(!app.apply(Msg::AddItem(), 4));
    assert!(!app.update(Msg::AddItem()));
    assert_eq!(ids(&app), vec![9]);
    assert_eq!(texts(&app), vec!["FIRST ITEM".to_string()]);
    assert_eq!(app.value(), "");
}

#[test]
fn add_appends_new_item_and_clears_input() {
    let mut app = App::with_first_id(9);
    assert!(type_and_add(&mut app, "X", 3));
    assert_eq!(ids(&app), vec![9, 3]);
    assert_eq!(texts(&app), vec!["FIRST ITEM".to_string(), "X".to_string()]);
    assert_eq!(states(&app), vec![ItemState::NEW, ItemState::NEW]);
    assert_eq!(app.value(), "");
}

#[test]
fn add_checks_for_the_empty_string_only() {
    let mut app = App::with_first_id(0);
    assert!(type_and_add(&mut app, " ", 1));
    assert_eq!(texts(&app), vec!["FIRST ITEM".to_string(), " ".to_string()]);
}

#[test]
fn add_keeps_equal_texts_apart() {
    let mut app = App::with_first_id(0);
    assert!(type_and_add(&mut app, "same", 10));
    assert!(type_and_add(&mut app, "same", 11));
    assert_eq!(ids(&app), vec![0, 10, 11]);
    assert_eq!(
        texts(&app),
        vec!["FIRST ITEM".to_string(), "same".to_string(), "same".to_string()]
    );
}

#[test]
fn add_replaces_a_taken_identifier_by_the_smallest_free_one() {
    let mut app = App::with_first_id(5);
    assert!(type_and_add(&mut app, "a", 5));
    assert_eq!(ids(&app), vec![5, 0]);
    assert!(type_and_add(&mut app, "b", 0));
    assert_eq!(ids(&app), vec![5, 0, 1]);
    assert!(type_and_add(&mut app, "c", 2));
    assert_eq!(ids(&app), vec![5, 0, 1, 2]);
    assert!(type_and_add(&mut app, "d", 1));
    assert_eq!(ids(&app), vec![5, 0, 1, 2, 3]);
    assert!(type_and_add(&mut app, "e", 3));
    assert_eq!(ids(&app), vec![5, 0, 1, 2, 3, 4]);
    assert!(type_and_add(&mut app, "f", 4));
    assert_eq!(ids(&app), vec![5, 0, 1, 2, 3, 4, 6]);
    assert!(type_and_add(&mut app, "g", usize::MAX));
    assert_eq!(ids(&app), vec![5, 0, 1, 2, 3, 4, 6, usize::MAX]);
}

#[test]
fn many_adds_grow_the_list_with_distinct_ids() {
    let mut app = App::create();
    let mut added = 0;
    for n in 0..200 {
        let text = if n % 5 == 0 { String::new() } else { format!("item {}", n) };
        assert!(app.update(Msg::UpdateValue(text.clone())));
        let rerender = app.update(Msg::AddItem());
        assert_eq!(rerender, !text.is_empty());
        if rerender {
            added += 1;
            assert_eq!(app.items().last().unwrap().value, text);
            assert_eq!(app.value(), "");
        }
        assert_eq!(app.items().len(), 1 + added);
    }
    assert_eq!(added, 160);
    let mut seen = ids(&app);
    seen.sort();
    seen.dedup();
    assert_eq!(seen.len(), 161);
}

#[test]
fn many_adds_with_one_drawn_identifier_stay_distinct() {
    let mut app = App::with_first_id(3);
    for n in 0..50 {
        assert!(type_and_add(&mut app, &format!("t{}", n), 3));
    }
    assert_eq!(app.items().len(), 51);
    let mut seen = ids(&app);
    seen.sort();
    assert_eq!(seen, (0..51).collect::<Vec<usize>>());
}

#[test]
fn delete_present_removes_that_item_only() {
    let mut app = App::with_first_id(1);
    assert!(type_and_add(&mut app, "a", 2));
    assert!(type_and_add(&mut app, "b", 3));
    assert!(type_and_add(&mut app, "c", 4));
    assert!(app.delete_item(3));
    assert_eq!(ids(&app), vec![1, 2, 4]);
    assert_eq!(
        texts(&app),
        vec!["FIRST ITEM".to_string(), "a".to_string(), "c".to_string()]
    );
    assert!(app.update(Msg::DeleteItem(1)));
    assert_eq!(ids(&app), vec![2, 4]);
    assert!(app.apply(Msg::DeleteItem(4), 0));
    assert_eq!(ids(&app), vec![2]);
    assert!(app.delete_item(2));
    assert!(app.items().is_empty());
    assert!(!app.delete_item(2));
}

#[test]
fn delete_absent_changes_nothing() {
    let mut app = App::with_first_id(1);
    assert!(type_and_add(&mut app, "a", 2));
    assert!(app.update_value("typing".to_string()));
    assert!(!app.delete_item(7));
    assert!(!app.update(Msg::DeleteItem(0)));
    assert_eq!(ids(&app), vec![1, 2]);
    assert_eq!(texts(&app), vec!["FIRST ITEM".to_string(), "a".to_string()]);
    assert_eq!(app.value(), "typing");
}

#[test]
fn delete_keeps_pending_input() {
    let mut app = App::with_first_id(1);
    assert!(app.update_value("typing".to_string()));
    assert!(app.delete_item(1));
    assert_eq!(app.value(), "typing");
}

#[test]
fn complete_present_marks_that_item_only() {
    let mut app = App::with_first_id(1);
    assert!(type_and_add(&mut app, "a", 2));
    assert!(type_and_add(&mut app, "b", 3));
    assert!(app.complete_item(2));
    assert_eq!(ids(&app), vec![1, 2, 3]);
    assert_eq!(
        texts(&app),
        vec!["FIRST ITEM".to_string(), "a".to_string(), "b".to_string()]
    );
    assert_eq!(
        states(&app),
        vec![ItemState::NEW, ItemState::COMPLETED, ItemState::NEW]
    );
}

#[test]
fn complete_absent_changes_nothing() {
    let mut app = App::with_first_id(1);
    assert!(!app.complete_item(2));
    assert!(!app.update(Msg::CompleteItem(0)));
    assert_eq!(ids(&app), vec![1]);
    assert_eq!(states(&app), vec![ItemState::NEW]);
}

#[test]
fn complete_twice_is_complete_once() {
    let mut once = App::with_first_id(1);
    assert!(type_and_add(&mut once, "a", 2));
    let mut twice = App::with_first_id(1);
    assert!(type_and_add(&mut twice, "a", 2));
    assert!(once.complete_item(2));
    assert!(twice.complete_item(2));
    assert!(twice.complete_item(2));
    assert_eq!(ids(&once), ids(&twice));
    assert_eq!(texts(&once), texts(&twice));
    assert_eq!(states(&once), states(&twice));
    assert_eq!(states(&twice), vec![ItemState::NEW, ItemState::COMPLETED]);
    assert_eq!(once.value(), twice.value());
}

#[test]
fn no_operation_produces_the_deleted_state() {
    let mut app = App::with_first_id(1);
    assert!(type_and_add(&mut app, "a", 2));
    assert!(app.complete_item(1));
    assert!(app.delete_item(2));
    assert!(app.items().iter().all(|it| it.state != ItemState::DELETED));
}

#[test]
fn end_to_end_scenario() {
    let mut app = App::create();
    let first = app.items()[0].id;
    assert!(app.update(Msg::UpdateValue("buy milk".to_string())));
    assert_eq!(app.value(), "buy milk");
    assert!(app.update(Msg::AddItem()));
    assert_eq!(
        texts(&app),
        vec!["FIRST ITEM".to_string(), "buy milk".to_string()]
    );
    assert_eq!(states(&app), vec![ItemState::NEW, ItemState::NEW]);
    assert_eq!(app.value(), "");
    let milk = app.items()[1].id;
    assert_ne!(milk, first);
    assert!(app.update(Msg::CompleteItem(milk)));
    assert_eq!(states(&app), vec![ItemState::NEW, ItemState::COMPLETED]);
    assert!(app.update(Msg::DeleteItem(first)));
    assert_eq!(app.items().len(), 1);
    assert_eq!(app.items()[0].id, milk);
    assert_eq!(app.items()[0].value, "buy milk");
    assert_eq!(app.items()[0].state, ItemState::COMPLETED);
}

#[test]
fn item_new_starts_in_state_new() {
    let it = ItemS::new(4, "x".to_string());
    assert_eq!(it.id, 4);
    assert_eq!(it.value, "x");
    assert_eq!(it.state, ItemState::NEW);
    let copy = it.clone();
    assert_eq!(copy.id, 4);
    assert_eq!(copy.value, "x");
    assert_eq!(copy.state, ItemState::NEW);
}
