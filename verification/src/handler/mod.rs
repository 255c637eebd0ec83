pub mod health;
pub mod v1;
