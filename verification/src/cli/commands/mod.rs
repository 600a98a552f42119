pub mod artist;
