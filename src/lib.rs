pub mod db;
pub mod models;
pub mod navigator;
pub mod pages;
pub mod page_helpers;
