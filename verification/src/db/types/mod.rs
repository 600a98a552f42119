pub mod datetime_stamp;
