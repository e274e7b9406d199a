pub mod baccarat;
