pub mod closure;
pub mod entry_function;
pub mod layout;
pub mod scope;
pub mod thunk;
