pub mod drop;
