pub mod activity;
pub mod canvas;
pub mod context;
pub mod number;
pub mod placement;
pub mod protocol;
pub mod text;
pub mod todo;

pub use activity::{ActivityType, Actor, Color, CreateActivity, Object, PersonType};
pub use placement::{parse_fucky, Fucky, FuckyParseError, Pixel};
