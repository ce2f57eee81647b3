use vstd::prelude::*;

verus! {

/// What a page of tasks is rendered from: an optional flash message (its kind and its text)
/// and the tasks.
#[derive(Debug)]
pub struct Context<T> {
    pub flash: Option<(String, String)>,
    pub tasks: Vec<T>,
}

/// `flash` is an error message with the text `text`.
pub open spec fn is_error_flash(flash: Option<(String, String)>, text: Seq<char>) -> bool {
    &&& flash matches Some((kind, message))
    &&& kind@ == "error"@
    &&& message@ == text
}

impl<T> Context<T> {
    /// A page that shows the error `msg` above the tasks that were read, or above no tasks
    /// where reading them failed.
    pub fn err<E>(msg: String, tasks: Result<Vec<T>, E>) -> (c: Context<T>)
        ensures
            is_error_flash(c.flash, msg@),
            c.tasks@ == match tasks {
                Ok(v) => v@,
                Err(_) => Seq::<T>::empty(),
            },
    {
        let tasks = match tasks {
            Ok(v) => v,
            Err(_) => Vec::new(),
        };
        Context { flash: Some(("error".to_owned(), msg)), tasks }
    }

    /// A page that shows `flash` above the tasks that were read; where reading them failed,
    /// a page that shows the error "Fail to access database." and no tasks.
    pub fn raw<E>(flash: Option<(String, String)>, tasks: Result<Vec<T>, E>) -> (c: Context<T>)
        ensures
            match tasks {
                Ok(v) => c.flash == flash && c.tasks@ == v@,
                Err(_) => is_error_flash(c.flash, "Fail to access database."@) && c.tasks@.len() == 0,
            },
    {
        match tasks {
            Ok(tasks) => Context { flash, tasks },
            Err(_) => Context {
                flash: Some(("error".to_owned(), "Fail to access database.".to_owned())),
                tasks: Vec::new(),
            },
        }
    }
}

} // verus!
