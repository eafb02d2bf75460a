pub mod text;
pub mod table;
pub mod scarfile;
pub mod scarenum;
pub mod scardoc;
pub mod scardocmerger;
pub mod scardump;
