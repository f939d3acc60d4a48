pub mod add_package;
pub mod apply;
pub mod init;
