pub mod ansi;
pub mod command;
pub mod decode;
pub mod history;
pub mod lines;
pub mod manager;
pub mod manager_laws;
pub mod monitor;
pub mod profiles;
pub mod prompts;
pub mod pty;
pub mod pump;
pub mod reader;
pub mod reader_laws;
pub mod sections;
pub mod status;
pub mod supervisor_laws;
