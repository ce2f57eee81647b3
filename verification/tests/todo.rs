use fediplace::todo::{delete_outcome, new_todo_check, new_todo_flash, toggle_outcome};

fn pair(a: &str, b: &str) -> (String, String) {
    (a.to_string(), b.to_string())
}

#[test]
fn empty_todo_is_refused() {
    assert_eq!(new_todo_check(""), Some(pair("error", "Description cannot be empty.")));
    assert_eq!(new_todo_check(" "), None);
    assert_eq!(new_todo_check("buy paint"), None);
}

#[test]
fn new_todo_flashes() {
    assert_eq!(new_todo_flash::<usize, ()>(Ok(1)), pair("success", "Todo successfully added."));
    assert_eq!(
        new_todo_flash::<usize, &str>(Err("locked")),
        pair("error", "Todo could not be inserted due an internal error.")
    );
}

#[test]
fn toggle_outcomes() {
    assert_eq!(toggle_outcome::<usize, ()>(Ok(1)), Ok(()));
    assert_eq!(toggle_outcome::<usize, ()>(Err(())), Err("Failed to toggle task.".to_string()));
}

#[test]
fn delete_outcomes() {
    assert_eq!(delete_outcome::<usize, ()>(Ok(1)), Ok(pair("success", "Todo was deleted.")));
    assert_eq!(delete_outcome::<usize, ()>(Err(())), Err("Failed to delete task.".to_string()));
}
