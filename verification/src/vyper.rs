pub mod multi_part;
