pub mod spaces;
