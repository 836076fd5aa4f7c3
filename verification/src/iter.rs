pub mod con;
