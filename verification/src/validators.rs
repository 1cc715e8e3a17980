//! The rules, one module each.
pub mod duration_distance;
pub mod stops;
pub mod calendar;
pub mod interpolated_stoptimes;
pub mod check_name;
pub mod routes;
pub mod unusable_trip;
pub mod agency;
pub mod check_id;
pub mod fare_attributes;
pub mod feed_info;
pub mod shapes;
pub mod stop_times;
pub mod unused_stop;
pub mod duplicate_stops;
pub mod file_presence;
pub mod sub_folder;
pub mod raw_gtfs;
pub mod invalid_reference;
