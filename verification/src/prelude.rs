//! What a native module most often needs, in one import.

pub use crate::lua::bridge::LuaState;
pub use crate::lua::stack::{FromStack, ToStack};
pub use crate::lua::table::{FromTable, TableView};
pub use crate::lua::{self, LuaSpecial, NativeFunc};
pub use crate::OwnedRef;
