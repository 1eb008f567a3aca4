//! Named constructors for the registered diagnostic codes that PDL reports.
use vstd::prelude::*;

use crate::diagnostic::{code_text, registered_number, DiagnosticCode};

verus! {

#[allow(non_snake_case)]
pub fn E0001() -> (c: DiagnosticCode)
    ensures
        c@ == code_text(0, 1),
        registered_number(0, 1),
{
    DiagnosticCode::from_parts(0, 1)
}

#[allow(non_snake_case)]
pub fn E0006() -> (c: DiagnosticCode)
    ensures
        c@ == code_text(0, 6),
        registered_number(0, 6),
{
    DiagnosticCode::from_parts(0, 6)
}

#[allow(non_snake_case)]
pub fn E0009() -> (c: DiagnosticCode)
    ensures
        c@ == code_text(0, 9),
        registered_number(0, 9),
{
    DiagnosticCode::from_parts(0, 9)
}

#[allow(non_snake_case)]
pub fn E0021() -> (c: DiagnosticCode)
    ensures
        c@ == code_text(0, 21),
        registered_number(0, 21),
{
    DiagnosticCode::from_parts(0, 21)
}

#[allow(non_snake_case)]
pub fn E1005() -> (c: DiagnosticCode)
    ensures
        c@ == code_text(0, 1005),
        registered_number(0, 1005),
{
    DiagnosticCode::from_parts(0, 1005)
}

#[allow(non_snake_case)]
pub fn E1207() -> (c: DiagnosticCode)
    ensures
        c@ == code_text(0, 1207),
        registered_number(0, 1207),
{
    DiagnosticCode::from_parts(0, 1207)
}

#[allow(non_snake_case)]
pub fn E1209() -> (c: DiagnosticCode)
    ensures
        c@ == code_text(0, 1209),
        registered_number(0, 1209),
{
    DiagnosticCode::from_parts(0, 1209)
}

#[allow(non_snake_case)]
pub fn E1208() -> (c: DiagnosticCode)
    ensures
        c@ == code_text(0, 1208),
        registered_number(0, 1208),
{
    DiagnosticCode::from_parts(0, 1208)
}

#[allow(non_snake_case)]
pub fn E1211() -> (c: DiagnosticCode)
    ensures
        c@ == code_text(0, 1211),
        registered_number(0, 1211),
{
    DiagnosticCode::from_parts(0, 1211)
}

#[allow(non_snake_case)]
pub fn E1213() -> (c: DiagnosticCode)
    ensures
        c@ == code_text(0, 1213),
        registered_number(0, 1213),
{
    DiagnosticCode::from_parts(0, 1213)
}

#[allow(non_snake_case)]
pub fn E1215() -> (c: DiagnosticCode)
    ensures
        c@ == code_text(0, 1215),
        registered_number(0, 1215),
{
    DiagnosticCode::from_parts(0, 1215)
}

#[allow(non_snake_case)]
pub fn E1216() -> (c: DiagnosticCode)
    ensures
        c@ == code_text(0, 1216),
        registered_number(0, 1216),
{
    DiagnosticCode::from_parts(0, 1216)
}

#[allow(non_snake_case)]
pub fn E1217() -> (c: DiagnosticCode)
    ensures
        c@ == code_text(0, 1217),
        registered_number(0, 1217),
{
    DiagnosticCode::from_parts(0, 1217)
}

#[allow(non_snake_case)]
pub fn E1302() -> (c: DiagnosticCode)
    ensures
        c@ == code_text(0, 1302),
        registered_number(0, 1302),
{
    DiagnosticCode::from_parts(0, 1302)
}

#[allow(non_snake_case)]
pub fn E1402() -> (c: DiagnosticCode)
    ensures
        c@ == code_text(0, 1402),
        registered_number(0, 1402),
{
    DiagnosticCode::from_parts(0, 1402)
}

#[allow(non_snake_case)]
pub fn E1403() -> (c: DiagnosticCode)
    ensures
        c@ == code_text(0, 1403),
        registered_number(0, 1403),
{
    DiagnosticCode::from_parts(0, 1403)
}

#[allow(non_snake_case)]
pub fn E1406() -> (c: DiagnosticCode)
    ensures
        c@ == code_text(0, 1406),
        registered_number(0, 1406),
{
    DiagnosticCode::from_parts(0, 1406)
}

#[allow(non_snake_case)]
pub fn E1704() -> (c: DiagnosticCode)
    ensures
        c@ == code_text(0, 1704),
        registered_number(0, 1704),
{
    DiagnosticCode::from_parts(0, 1704)
}

#[allow(non_snake_case)]
pub fn E1705() -> (c: DiagnosticCode)
    ensures
        c@ == code_text(0, 1705),
        registered_number(0, 1705),
{
    DiagnosticCode::from_parts(0, 1705)
}

#[allow(non_snake_case)]
pub fn E1711() -> (c: DiagnosticCode)
    ensures
        c@ == code_text(0, 1711),
        registered_number(0, 1711),
{
    DiagnosticCode::from_parts(0, 1711)
}

#[allow(non_snake_case)]
pub fn E1712() -> (c: DiagnosticCode)
    ensures
        c@ == code_text(0, 1712),
        registered_number(0, 1712),
{
    DiagnosticCode::from_parts(0, 1712)
}

#[allow(non_snake_case)]
pub fn E1801() -> (c: DiagnosticCode)
    ensures
        c@ == code_text(0, 1801),
        registered_number(0, 1801),
{
    DiagnosticCode::from_parts(0, 1801)
}

#[allow(non_snake_case)]
pub fn E1802() -> (c: DiagnosticCode)
    ensures
        c@ == code_text(0, 1802),
        registered_number(0, 1802),
{
    DiagnosticCode::from_parts(0, 1802)
}

#[allow(non_snake_case)]
pub fn E1804() -> (c: DiagnosticCode)
    ensures
        c@ == code_text(0, 1804),
        registered_number(0, 1804),
{
    DiagnosticCode::from_parts(0, 1804)
}

#[allow(non_snake_case)]
pub fn E1806() -> (c: DiagnosticCode)
    ensures
        c@ == code_text(0, 1806),
        registered_number(0, 1806),
{
    DiagnosticCode::from_parts(0, 1806)
}

#[allow(non_snake_case)]
pub fn E1818() -> (c: DiagnosticCode)
    ensures
        c@ == code_text(0, 1818),
        registered_number(0, 1818),
{
    DiagnosticCode::from_parts(0, 1818)
}

#[allow(non_snake_case)]
pub fn E1819() -> (c: DiagnosticCode)
    ensures
        c@ == code_text(0, 1819),
        registered_number(0, 1819),
{
    DiagnosticCode::from_parts(0, 1819)
}

#[allow(non_snake_case)]
pub fn E1820() -> (c: DiagnosticCode)
    ensures
        c@ == code_text(0, 1820),
        registered_number(0, 1820),
{
    DiagnosticCode::from_parts(0, 1820)
}

#[allow(non_snake_case)]
pub fn E1821() -> (c: DiagnosticCode)
    ensures
        c@ == code_text(0, 1821),
        registered_number(0, 1821),
{
    DiagnosticCode::from_parts(0, 1821)
}

#[allow(non_snake_case)]
pub fn E1822() -> (c: DiagnosticCode)
    ensures
        c@ == code_text(0, 1822),
        registered_number(0, 1822),
{
    DiagnosticCode::from_parts(0, 1822)
}

} // verus!
