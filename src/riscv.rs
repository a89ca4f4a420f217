pub mod addr;
pub mod register;
