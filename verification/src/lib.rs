//! Navigation data interface: the data model and decision logic behind the
//! navigation data gauge (row mapping, procedure assembly, task queue and
//! download state machines).

pub mod text;
pub mod util;
pub mod enums;
pub mod fix;
pub mod airway;
pub mod airspace;
pub mod json_structs;
pub mod dispatcher;
pub mod meta;
pub mod download;
pub mod navdata_updater;
pub mod database_info;
pub mod database;
pub mod funcs;
pub mod procedure;
pub mod procedure_leg;
pub mod records;
