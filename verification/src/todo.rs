use vstd::prelude::*;

verus! {

/// A flash message: its kind (`"error"` or `"success"`) and its text.
pub open spec fn flash_is(f: (String, String), kind: Seq<char>, text: Seq<char>) -> bool {
    f.0@ == kind && f.1@ == text
}

/// What a request to add a todo with `description` does first: an empty description is
/// refused with an error flash; any other is stored (`None`).
pub fn new_todo_check(description: &str) -> (r: Option<(String, String)>)
    ensures
        r is Some <==> description@.len() == 0,
        r matches Some(f) ==> flash_is(f, "error"@, "Description cannot be empty."@),
{
    if description.is_empty() {
        Some(("error".to_owned(), "Description cannot be empty.".to_owned()))
    } else {
        None
    }
}

/// The flash shown once storing a new todo has succeeded or failed.
pub fn new_todo_flash<T, E>(inserted: Result<T, E>) -> (r: (String, String))
    ensures
        match inserted {
            Ok(_) => flash_is(r, "success"@, "Todo successfully added."@),
            Err(_) => flash_is(r, "error"@, "Todo could not be inserted due an internal error."@),
        },
{
    match inserted {
        Ok(_) => ("success".to_owned(), "Todo successfully added.".to_owned()),
        Err(_) => ("error".to_owned(), "Todo could not be inserted due an internal error.".to_owned()),
    }
}

/// After toggling a todo: go back to the list (`Ok`), or show the list with the error
/// message that `Err` holds.
pub fn toggle_outcome<T, E>(toggled: Result<T, E>) -> (r: Result<(), String>)
    ensures
        match toggled {
            Ok(_) => r is Ok,
            Err(_) => r matches Err(m) && m@ == "Failed to toggle task."@,
        },
{
    match toggled {
        Ok(_) => Ok(()),
        Err(_) => Err("Failed to toggle task.".to_owned()),
    }
}

/// After deleting a todo: go back to the list with a success flash (`Ok`), or show the list
/// with the error message that `Err` holds.
pub fn delete_outcome<T, E>(deleted: Result<T, E>) -> (r: Result<(String, String), String>)
    ensures
        match deleted {
            Ok(_) => r matches Ok(f) && flash_is(f, "success"@, "Todo was deleted."@),
            Err(_) => r matches Err(m) && m@ == "Failed to delete task."@,
        },
{
    match deleted {
        Ok(_) => Ok(("success".to_owned(), "Todo was deleted.".to_owned())),
        Err(_) => Err("Failed to delete task.".to_owned()),
    }
}

} // verus!
