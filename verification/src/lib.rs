pub mod filemode;
pub mod layout;
