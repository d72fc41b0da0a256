//! The two type systems the adapter bridges, and the mapper between
//! them: the host engine's typed cells on one side and the remote
//! store's wire values on the other.

use vstd::prelude::*;
use vstd::string::*;
use crate::text::{dec_text, escape_text, escaped, i64_to_dec, int_text, u64_to_dec};

verus! {

/// One column's content in the host engine's type system.
///
/// A 64-bit float is carried as its IEEE-754 bit pattern, so the
/// library itself never performs a floating-point operation; callers
/// convert at the boundary with `f64::to_bits` / `f64::from_bits`.
#[derive(Debug)]
pub enum Cell {
    Bool(bool),
    Int(i64),
    Float(u64),
    Str(String),
}

/// Mathematical model of a [`Cell`].
pub ghost enum CellV {
    Bool(bool),
    Int(int),
    Float(u64),
    Str(Seq<char>),
}

/// One column's content as the remote store's wire representation.
///
/// `Other` stands for any wire type the mapper does not support and
/// carries the remote store's name for it.
#[derive(Debug)]
pub enum WireValue {
    UInt8(u8),
    Int64(i64),
    Float64(u64),
    Text(String),
    Other(String),
}

/// Mathematical model of a [`WireValue`].
pub ghost enum WireV {
    UInt8(u8),
    Int64(int),
    Float64(u64),
    Text(Seq<char>),
    Other(Seq<char>),
}

impl View for Cell {
    type V = CellV;

    open spec fn view(&self) -> CellV {
        match self {
            Cell::Bool(b) => CellV::Bool(*b),
            Cell::Int(v) => CellV::Int(*v as int),
            Cell::Float(bits) => CellV::Float(*bits),
            Cell::Str(s) => CellV::Str(s@),
        }
    }
}

impl DeepView for Cell {
    type V = CellV;

    open spec fn deep_view(&self) -> CellV {
        self.view()
    }
}

impl View for WireValue {
    type V = WireV;

    open spec fn view(&self) -> WireV {
        match self {
            WireValue::UInt8(v) => WireV::UInt8(*v),
            WireValue::Int64(v) => WireV::Int64(*v as int),
            WireValue::Float64(bits) => WireV::Float64(*bits),
            WireValue::Text(s) => WireV::Text(s@),
            WireValue::Other(name) => WireV::Other(name@),
        }
    }
}

impl DeepView for WireValue {
    type V = WireV;

    open spec fn deep_view(&self) -> WireV {
        self.view()
    }
}

impl Clone for Cell {
    fn clone(&self) -> (c: Cell)
        ensures
            c@ == self@,
    {
        match self {
            Cell::Bool(b) => Cell::Bool(*b),
            Cell::Int(v) => Cell::Int(*v),
            Cell::Float(bits) => Cell::Float(*bits),
            Cell::Str(s) => Cell::Str(s.clone()),
        }
    }
}

impl PartialEq for Cell {
    fn eq(&self, other: &Cell) -> bool {
        match (self, other) {
            (Cell::Bool(a), Cell::Bool(b)) => *a == *b,
            (Cell::Int(a), Cell::Int(b)) => *a == *b,
            (Cell::Float(a), Cell::Float(b)) => *a == *b,
            (Cell::Str(a), Cell::Str(b)) => *a == *b,
            _ => false,
        }
    }
}

impl vstd::std_specs::cmp::PartialEqSpecImpl for Cell {
    open spec fn obeys_eq_spec() -> bool {
        true
    }

    open spec fn eq_spec(&self, other: &Cell) -> bool {
        self@ == other@
    }
}

impl Clone for WireValue {
    fn clone(&self) -> (w: WireValue)
        ensures
            w@ == self@,
    {
        match self {
            WireValue::UInt8(v) => WireValue::UInt8(*v),
            WireValue::Int64(v) => WireValue::Int64(*v),
            WireValue::Float64(bits) => WireValue::Float64(*bits),
            WireValue::Text(s) => WireValue::Text(s.clone()),
            WireValue::Other(name) => WireValue::Other(name.clone()),
        }
    }
}

impl PartialEq for WireValue {
    fn eq(&self, other: &WireValue) -> bool {
        match (self, other) {
            (WireValue::UInt8(a), WireValue::UInt8(b)) => *a == *b,
            (WireValue::Int64(a), WireValue::Int64(b)) => *a == *b,
            (WireValue::Float64(a), WireValue::Float64(b)) => *a == *b,
            (WireValue::Text(a), WireValue::Text(b)) => *a == *b,
            (WireValue::Other(a), WireValue::Other(b)) => *a == *b,
            _ => false,
        }
    }
}

impl vstd::std_specs::cmp::PartialEqSpecImpl for WireValue {
    open spec fn obeys_eq_spec() -> bool {
        true
    }

    open spec fn eq_spec(&self, other: &WireValue) -> bool {
        self@ == other@
    }
}

/// The error taxonomy of the adapter core. Session-level failures
/// (connection or statement errors) carry remote-provided messages and
/// stay with the caller that performs the remote calls; the core itself
/// only ever detects an unsupported wire type, and reports the remote
/// store's name for it.
#[derive(Debug)]
pub enum FdwError {
    UnsupportedType(String),
}

impl FdwError {
    /// The remote type name the error reports.
    pub open spec fn spec_type_name(&self) -> Seq<char> {
        match self {
            FdwError::UnsupportedType(name) => name@,
        }
    }

    /// A descriptive message for the caller's error channel.
    pub fn message(&self) -> (m: String)
        ensures
            m@ == "data type "@ + self.spec_type_name() + " is not supported"@,
    {
        match self {
            FdwError::UnsupportedType(name) => {
                let mut m = String::from_str("data type ");
                m.append(name.as_str());
                m.append(" is not supported");
                m
            },
        }
    }
}

impl PartialEq for FdwError {
    fn eq(&self, other: &FdwError) -> bool {
        match (self, other) {
            (FdwError::UnsupportedType(a), FdwError::UnsupportedType(b)) => *a == *b,
        }
    }
}

impl vstd::std_specs::cmp::PartialEqSpecImpl for FdwError {
    open spec fn obeys_eq_spec() -> bool {
        true
    }

    open spec fn eq_spec(&self, other: &FdwError) -> bool {
        self.spec_type_name() == other.spec_type_name()
    }
}

/// What the mapper makes of one wire value: the host cell for the four
/// supported wire types, nothing for any other.
///
/// An 8-bit unsigned wire value is the remote store's encoding of a
/// boolean (nonzero means true); this is a domain convention of that
/// store, not a generic numeric mapping.
pub open spec fn cell_of_wire(w: WireV) -> Option<CellV> {
    match w {
        WireV::UInt8(v) => Some(CellV::Bool(v != 0)),
        WireV::Int64(v) => Some(CellV::Int(v)),
        WireV::Float64(bits) => Some(CellV::Float(bits)),
        WireV::Text(s) => Some(CellV::Str(s)),
        WireV::Other(_) => None,
    }
}

/// The wire value a host cell is written as.
pub open spec fn wire_of_cell(c: CellV) -> WireV {
    match c {
        CellV::Bool(b) => WireV::UInt8(if b {
            1u8
        } else {
            0u8
        }),
        CellV::Int(v) => WireV::Int64(v),
        CellV::Float(bits) => WireV::Float64(bits),
        CellV::Str(s) => WireV::Text(s),
    }
}

/// The remote store's name for a wire value's type.
pub open spec fn wire_type_name(w: WireV) -> Seq<char> {
    match w {
        WireV::UInt8(_) => "UInt8"@,
        WireV::Int64(_) => "Int64"@,
        WireV::Float64(_) => "Float64"@,
        WireV::Text(_) => "String"@,
        WireV::Other(name) => name,
    }
}

/// Converts one result cell from the wire into the host's type system;
/// an unsupported wire type is an error naming the offending type.
pub fn to_host_cell(w: &WireValue) -> (r: Result<Cell, FdwError>)
    ensures
        cell_of_wire(w@) is Some <==> r is Ok,
        r is Ok ==> r->Ok_0@ == cell_of_wire(w@)->Some_0,
        r is Err ==> r->Err_0.spec_type_name() == wire_type_name(w@),
{
    match w {
        WireValue::UInt8(v) => Ok(Cell::Bool(*v != 0)),
        WireValue::Int64(v) => Ok(Cell::Int(*v)),
        WireValue::Float64(bits) => Ok(Cell::Float(*bits)),
        WireValue::Text(s) => Ok(Cell::Str(s.clone())),
        WireValue::Other(name) => Err(FdwError::UnsupportedType(name.clone())),
    }
}

/// Converts one host cell into the wire value it is written as. Every
/// cell variant has a wire counterpart, so this conversion is total.
pub fn to_wire_value(c: &Cell) -> (w: WireValue)
    ensures
        w@ == wire_of_cell(c@),
{
    match c {
        Cell::Bool(b) => WireValue::UInt8(if *b {
            1
        } else {
            0
        }),
        Cell::Int(v) => WireValue::Int64(*v),
        Cell::Float(bits) => WireValue::Float64(*bits),
        Cell::Str(s) => WireValue::Text(s.clone()),
    }
}

/// Writing any host cell to the wire and reading it back yields the
/// same cell, for every wire type the mapper supports.
pub proof fn lemma_cell_round_trip(c: CellV)
    ensures
        cell_of_wire(wire_of_cell(c)) == Some(c),
{
}

/// A cell rendered as a literal in query text: booleans as keywords,
/// integers in decimal, text quoted with every quote and backslash
/// escaped, and a float as a bit-exact reinterpretation of its pattern
/// (which avoids both float arithmetic and lossy decimal rendering).
pub open spec fn lit_text(c: CellV) -> Seq<char> {
    match c {
        CellV::Bool(b) => if b {
            "true"@
        } else {
            "false"@
        },
        CellV::Int(v) => int_text(v),
        CellV::Float(bits) => "reinterpretAsFloat64("@ + dec_text(bits as nat) + ")"@,
        CellV::Str(s) => "'"@ + escaped(s) + "'"@,
    }
}

/// Renders a cell as a literal for embedding in query text.
pub fn literal_to_query_text(c: &Cell) -> (s: String)
    ensures
        s@ == lit_text(c@),
{
    match c {
        Cell::Bool(b) => {
            if *b {
                String::from_str("true")
            } else {
                String::from_str("false")
            }
        },
        Cell::Int(v) => i64_to_dec(*v),
        Cell::Float(bits) => {
            let mut s = String::from_str("reinterpretAsFloat64(");
            s.append(u64_to_dec(*bits).as_str());
            s.append(")");
            s
        },
        Cell::Str(text) => {
            let mut s = String::from_str("'");
            s.append(escape_text(text.as_str()).as_str());
            s.append("'");
            s
        },
    }
}

} // verus!
