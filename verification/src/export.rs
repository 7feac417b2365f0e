//! What the persisted artifacts are made of: the name of the store file
//! created at startup, and the rows of the flat-file export, one per
//! indexed record.

use crate::index::FileRecord;
use crate::pathname::display_name;
use crate::pathname::display_name_of;
use crate::render::decimal_digits;
use crate::render::digest_to_hex;
use crate::render::hex_digits;
use crate::render::human_size;
use crate::render::human_size_u64;
use crate::render::u64_to_decimal;
use vstd::prelude::*;

verus! {

/// The store's file name for a startup timestamp in milliseconds.
pub fn store_file_name(millis: u64) -> (r: String)
    ensures
        r@ == decimal_digits(millis as int) + ".sqlite"@,
{
    let mut s = u64_to_decimal(millis);
    s.append(".sqlite");
    s
}

/// The export's file name for the same timestamp: the store's name with
/// the extension swapped.
pub fn export_file_name(millis: u64) -> (r: String)
    ensures
        r@ == decimal_digits(millis as int) + ".csv"@,
{
    let mut s = u64_to_decimal(millis);
    s.append(".csv");
    s
}

/// One export row: display name, path, size, human-readable size, and
/// the digest in lowercase hex — the columns of the flat-file report.
pub fn export_row(r: &FileRecord) -> (row: Vec<String>)
    ensures
        row@.len() == 5,
        row@[0]@ == display_name(r.path@),
        row@[1]@ == r.path@,
        row@[2]@ == decimal_digits(r.size as int),
        row@[3]@ == human_size(r.size as int),
        row@[4]@ == hex_digits(r.digest as int, 32),
{
    let mut row: Vec<String> = Vec::new();
    row.push(display_name_of(r.path.as_str()));
    row.push(r.path.clone());
    row.push(u64_to_decimal(r.size));
    row.push(human_size_u64(r.size));
    row.push(digest_to_hex(r.digest));
    row
}

} // verus!
