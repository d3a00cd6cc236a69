pub mod bytes;
pub mod device;
pub mod json;
pub mod load;
pub mod param_name;
pub mod reload;
pub mod safetensor;
pub mod save;
