pub mod chars;
pub mod keys;
pub mod text_input;
pub mod request;
pub mod app_model;
pub mod app;
pub mod app_keys;
pub mod app_laws;
pub mod highlight;
