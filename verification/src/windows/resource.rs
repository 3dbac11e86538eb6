//! The resources that the app for Windows is built with.
use crate::text::model;
use crate::text::number;
use crate::text::ops;
use vstd::prelude::*;
use vstd::string::*;

verus! {

/// The digits that a text begins with.
pub open spec fn leading_digits(s: Seq<char>) -> Seq<char>
    decreases s.len(),
{
    if s.len() > 0 && number::is_digit(s[0]) {
        seq![s[0]] + leading_digits(s.skip(1))
    } else {
        seq![]
    }
}

/// The number that a part of a version begins with, or 0 where that is none of 16 bits.
pub open spec fn part_number(part: Seq<char>) -> nat {
    match number::parsed_unsigned(leading_digits(part), u16::MAX as nat) {
        Ok(n) => n,
        Err(_) => 0,
    }
}

/// The number of a part of a version, or 0 where there is no such part.
pub open spec fn version_number(version: Seq<char>, i: int) -> nat {
    let parts = model::split_on(version, "."@);
    if i < parts.len() {
        part_number(parts[i])
    } else {
        0
    }
}

/// A version as four numbers.
pub open spec fn tuple_text(version: Seq<char>) -> Seq<char> {
    number::dec_nat(version_number(version, 0)) + ","@ + number::dec_nat(
        version_number(version, 1),
    ) + ","@ + number::dec_nat(version_number(version, 2)) + ","@ + number::dec_nat(
        version_number(version, 3),
    )
}

fn read_part(part: &str) -> (r: u64)
    ensures
        r == part_number(part@),
{
    let v = ops::to_chars(part);
    let mut n: usize = 0;
    assert(part@.skip(0) =~= part@);
    assert(part@.take(0) + leading_digits(part@) =~= leading_digits(part@));
    while n < v.len() && '0' <= v[n] && v[n] <= '9'
        invariant
            v@ == part@,
            n <= v@.len(),
            leading_digits(part@) == part@.take(n as int) + leading_digits(part@.skip(n as int)),
        decreases v@.len() - n,
    {
        let ghost rest = part@.skip(n as int);
        proof {
            assert(rest.skip(1) =~= part@.skip(n + 1));
            assert(part@.take(n as int) + (seq![rest[0]] + leading_digits(rest.skip(1)))
                =~= part@.take(n + 1) + leading_digits(part@.skip(n + 1)));
        }
        n += 1;
    }
    let digits = part.substring_char(0, n);
    assert(leading_digits(part@.skip(n as int)) =~= seq![]);
    assert(digits@ =~= leading_digits(part@));
    match number::parse_unsigned(digits, u16::MAX as u64) {
        Ok(value) => value,
        Err(_) => 0,
    }
}

fn read_number(parts: &Vec<String>, i: usize) -> (r: u64)
    ensures
        r == (if i < parts@.len() {
            part_number(parts@[i as int]@)
        } else {
            0
        }),
{
    if i < parts.len() {
        read_part(&parts[i])
    } else {
        0
    }
}

/// A version as four numbers.
pub fn version_tuple(version: &str) -> (r: String)
    ensures
        r@ == tuple_text(version@),
{
    proof {
        reveal_strlit(".");
    }
    let parts = ops::split(version, ".");
    assert(model::texts(parts@).len() == parts@.len());
    assert forall|i: int| 0 <= i < parts@.len() implies #[trigger] model::texts(parts@)[i]
        == parts@[i]@ by {}
    number::dec_u64(read_number(&parts, 0)).concat(",").concat(
        &number::dec_u64(read_number(&parts, 1)),
    ).concat(",").concat(&number::dec_u64(read_number(&parts, 2))).concat(",").concat(
        &number::dec_u64(read_number(&parts, 3)),
    )
}

/// The script of the resources.
pub open spec fn resource_text(icon_path: Seq<char>, version: Seq<char>) -> Seq<char> {
    "#pragma code_page(65001)\n\n1 ICON \""@
        + model::replaced(icon_path, "\\"@, "\\\\"@)
        + "\"\n\n1 VERSIONINFO\nFILEVERSION "@
        + tuple_text(version)
        + "\nPRODUCTVERSION "@
        + tuple_text(version)
        + "\nFILEFLAGSMASK 0x3fL\nFILEFLAGS 0x0L\nFILEOS 0x40004L\nFILETYPE 0x1L\nFILESUBTYPE 0x0L\nBEGIN\n    BLOCK \"StringFileInfo\"\n    BEGIN\n        BLOCK \"040904B0\"\n        BEGIN\n            VALUE \"Author\", \"星光の殲滅者\\0\"\n            VALUE \"CompanyName\", \"星光の殲滅者\\0\"\n            VALUE \"FileDescription\", \"Alma OneBot Bridge\\0\"\n            VALUE \"FileVersion\", \""@
        + version
        + "\\0\"\n            VALUE \"InternalName\", \"AlmaOneBotBridge\\0\"\n            VALUE \"LegalCopyright\", \"Copyright (c) 2026 星光の殲滅者\\0\"\n            VALUE \"OriginalFilename\", \"AlmaOneBotBridge.exe\\0\"\n            VALUE \"ProductName\", \"Alma OneBot Bridge\\0\"\n            VALUE \"Publisher\", \"星光の殲滅者\\0\"\n            VALUE \"ProductVersion\", \""@
        + version
        + "\\0\"\n        END\n    END\n    BLOCK \"VarFileInfo\"\n    BEGIN\n        VALUE \"Translation\", 0x0409, 1200\n    END\nEND\n"@
}

/// The script of the resources: the icon, and who made the app in which version.
pub fn windows_resource_script(icon_path: &str, version: &str) -> (r: String)
    ensures
        r@ == resource_text(icon_path@, version@),
{
    proof {
        reveal_strlit("\\");
    }
    let icon = ops::replace(icon_path, "\\", "\\\\");
    let file_version = version_tuple(version);
    "#pragma code_page(65001)\n\n1 ICON \"".to_owned().concat(
        &icon,
    ).concat(
        "\"\n\n1 VERSIONINFO\nFILEVERSION ",
    ).concat(
        &file_version,
    ).concat(
        "\nPRODUCTVERSION ",
    ).concat(
        &file_version,
    ).concat(
        "\nFILEFLAGSMASK 0x3fL\nFILEFLAGS 0x0L\nFILEOS 0x40004L\nFILETYPE 0x1L\nFILESUBTYPE 0x0L\nBEGIN\n    BLOCK \"StringFileInfo\"\n    BEGIN\n        BLOCK \"040904B0\"\n        BEGIN\n            VALUE \"Author\", \"星光の殲滅者\\0\"\n            VALUE \"CompanyName\", \"星光の殲滅者\\0\"\n            VALUE \"FileDescription\", \"Alma OneBot Bridge\\0\"\n            VALUE \"FileVersion\", \"",
    ).concat(
        version,
    ).concat(
        "\\0\"\n            VALUE \"InternalName\", \"AlmaOneBotBridge\\0\"\n            VALUE \"LegalCopyright\", \"Copyright (c) 2026 星光の殲滅者\\0\"\n            VALUE \"OriginalFilename\", \"AlmaOneBotBridge.exe\\0\"\n            VALUE \"ProductName\", \"Alma OneBot Bridge\\0\"\n            VALUE \"Publisher\", \"星光の殲滅者\\0\"\n            VALUE \"ProductVersion\", \"",
    ).concat(
        version,
    ).concat(
        "\\0\"\n        END\n    END\n    BLOCK \"VarFileInfo\"\n    BEGIN\n        VALUE \"Translation\", 0x0409, 1200\n    END\nEND\n",
    )
}

} // verus!
