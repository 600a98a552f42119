pub mod verbose;
