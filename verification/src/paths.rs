//! Where the build artifacts live, relative to the workspace root. The
//! caller joins these onto its own base directory before touching the disk.

use vstd::prelude::*;

verus! {

/// The flat tabular dataset file, relative to the workspace root.
pub fn get_nepos_csv_path() -> (r: String)
    ensures
        r@ == "data/nepos.csv"@,
{
    "data/nepos.csv".to_owned()
}

/// The generated module holding the compiled-in dataset, relative to the
/// workspace root.
pub fn get_people_library_module_path() -> (r: String)
    ensures
        r@ == "people/src/people.rs"@,
{
    "people/src/people.rs".to_owned()
}

} // verus!
