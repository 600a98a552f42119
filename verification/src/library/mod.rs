pub mod artists;
