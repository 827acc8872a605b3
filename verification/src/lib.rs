//! Heterogeneous data sources exposed as SQL-queryable tables.
//!
//! The crate models typed values, rows and column schemas, a structured
//! error taxonomy with numeric codes, and the producer/consumer pipeline
//! that streams typed rows from data sources to a SQL engine bridge.
use vstd::prelude::*;

pub mod value;
pub mod text;
pub mod error;
pub mod table;
pub mod state;
pub mod channel;
pub mod request;
pub mod statement;
pub mod source;
pub mod engine;
pub mod connect;

pub use channel::RecvOutcome;
pub use connect::Connection;
pub use connect::SqliteSession;
pub use connect::new_connection;
pub use connect::parse_url;
pub use error::Error;
pub use request::Committer;
pub use request::Promise;
pub use request::Request;
pub use source::BashRow;
pub use source::DataSource;
pub use source::HostBasic;
pub use source::HostProbe;
pub use source::OSInfo;
pub use source::Register;
pub use source::SourceEntry;
pub use source::SourceKind;
pub use source::StaticSource;
pub use source::Status;
pub use source::buffer_finished;
pub use source::cpu_brand;
pub use source::create_table_sql;
pub use source::decode_output;
pub use source::shell_script;
pub use source::host_basic;
pub use source::os_info;
pub use source::register_ds;
pub use source::run_producer;
pub use state::IntoState;
pub use state::State;
pub use state::ToData;
pub use statement::Response;
pub use statement::RowSet;
pub use statement::RowStep;
pub use statement::Statement;
pub use statement::new_req;
pub use statement::new_req_none;
pub use table::Args;
pub use table::Columns;
pub use table::Row;
pub use table::valid_row;
pub use value::DataType;
pub use value::EngineValue;
pub use value::Value;

verus! {

} // verus!
