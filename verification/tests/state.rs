use fediplace::activity::{address, PersonType};
use fediplace::canvas::CacheArr;
use fediplace::context::Context;
use fediplace::Actor;

#[test]
fn system_actor() {
    let a = Actor::system().expect("the system addresses parse");
    assert_eq!(a.id, "http://localhost:8000/@system");
    assert_eq!(a.inbox, "http://localhost:8000/@system/inbox");
    assert_eq!(a.outbox, "http://localhost:8000/@system/outbox");
    assert_eq!(a.kind, PersonType::Person);
    assert_eq!(a.preferred_username, "system");
    assert_eq!(a.name, "fediplace");
    assert!(a.public_key.is_none());
}

#[test]
fn system_at_keeps_addresses() {
    let a = Actor::system_at("i".to_string(), "in".to_string(), "out".to_string());
    assert_eq!((a.id.as_str(), a.inbox.as_str(), a.outbox.as_str()), ("i", "in", "out"));
    assert_eq!(a.kind, PersonType::Person);
}

#[test]
fn address_text() {
    assert_eq!(address("http://h", "p/q"), "http://h/p/q\n");
}

#[test]
fn canvas_starts_blank() {
    let c = CacheArr::default();
    assert_eq!(c.canvas.len(), 1024);
    assert!(c.canvas.iter().all(|row| row.len() == 1024 && row.iter().all(|&v| v == 0)));
}

#[test]
fn canvas_place_sets_one_pixel() {
    let mut c = CacheArr::default();
    c.place(1, 2, 3);
    assert_eq!(c.canvas[1][2], 3);
    let changed = c
        .canvas
        .iter()
        .flat_map(|row| row.iter())
        .filter(|&&v| v != 0)
        .count();
    assert_eq!(changed, 1);
    c.place(1023, 1023, 9);
    c.place(1, 2, 4);
    assert_eq!(c.canvas[1][2], 4);
    assert_eq!(c.canvas[1023][1023], 9);
}

#[test]
fn context_err() {
    let ok: Result<Vec<u32>, ()> = Ok(vec![1, 2]);
    let c = Context::err("Failed to toggle task.".to_string(), ok);
    assert_eq!(c.flash, Some(("error".to_string(), "Failed to toggle task.".to_string())));
    assert_eq!(c.tasks, vec![1, 2]);
    let bad: Result<Vec<u32>, &str> = Err("db down");
    let c = Context::err("m".to_string(), bad);
    assert_eq!(c.flash, Some(("error".to_string(), "m".to_string())));
    assert!(c.tasks.is_empty());
}

#[test]
fn context_raw() {
    let ok: Result<Vec<u32>, ()> = Ok(vec![5]);
    let flash = Some(("success".to_string(), "Todo successfully added.".to_string()));
    let c = Context::raw(flash.clone(), ok);
    assert_eq!(c.flash, flash);
    assert_eq!(c.tasks, vec![5]);
    let c = Context::raw(None, Ok::<Vec<u32>, ()>(vec![]));
    assert_eq!(c.flash, None);
    let bad: Result<Vec<u32>, ()> = Err(());
    let c = Context::raw(flash, bad);
    assert_eq!(c.flash, Some(("error".to_string(), "Fail to access database.".to_string())));
    assert!(c.tasks.is_empty());
}
