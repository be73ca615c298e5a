pub mod postgres;
pub mod redis;
pub mod rustfs;
