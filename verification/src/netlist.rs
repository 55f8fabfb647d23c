//! Reading a netlist: statements, validation and elaboration.

pub mod ast;
pub mod elaborate;
pub mod inclusion;
pub mod parse;

pub use ast::{
    ControlKind, ControlStmt, DeviceKind, DeviceStmt, ElaboratedNetlist, NetlistAst, Param,
    ParseError, Stmt, SubcktDef,
};
pub use elaborate::{elaborate_netlist, elaborate_with_errors};
pub use parse::parse_netlist;
