//! Lookup of human-readable descriptions by code. The description tables
//! themselves belong to the reporting collaborator; the logic here only
//! searches a table it is handed and falls back as the report format
//! asks.

use vstd::prelude::*;

verus! {

/// Whether some entry of the table carries `key`.
pub open spec fn table_has(t: Seq<(u8, &str)>, key: u8) -> bool {
    exists|i: int| 0 <= i < t.len() && t[i].0 == key
}

/// The description stored under `key`; unambiguous when no key occurs
/// twice.
pub open spec fn table_get(t: Seq<(u8, &str)>, key: u8) -> &str {
    let i = choose|i: int| 0 <= i < t.len() && t[i].0 == key;
    t[i].1
}

/// No key occurs twice in the table.
pub open spec fn table_wf(t: Seq<(u8, &str)>) -> bool {
    forall|p: int, q: int| 0 <= p < q < t.len() ==> t[p].0 != t[q].0
}

/// The description stored under `key`, if the table has one.
fn find_desc<'a>(table: &Vec<(u8, &'a str)>, key: u8) -> (r: Option<&'a str>)
    requires
        table_wf(table@),
    ensures
        table_has(table@, key) ==> (r matches Some(d) && d == table_get(table@, key)),
        !table_has(table@, key) ==> r matches None::<&'a str>,
{
    let n = table.len();
    let mut i: usize = 0;
    while i < n
        invariant
            0 <= i <= n,
            n == table@.len(),
            table_wf(table@),
            forall|j: int| 0 <= j < i ==> table@[j].0 != key,
        decreases n - i,
    {
        let entry = table[i];
        if entry.0 == key {
            proof {
                assert(table_has(table@, key));
                let k = choose|k: int| 0 <= k < table@.len() && table@[k].0 == key;
                assert(k == i);
            }
            return Some(entry.1);
        }
        i = i + 1;
    }
    assert(!table_has(table@, key));
    None
}

/// The description stored under `key`, or the given default, or
/// "Unknown" when no default is given.
pub fn get_desc<'a>(table: &Vec<(u8, &'a str)>, key: u8, default: Option<&'a str>) -> (r: &'a str)
    requires
        table_wf(table@),
    ensures
        table_has(table@, key) ==> r == table_get(table@, key),
        !table_has(table@, key) ==> (match default {
            Some(d) => r == d,
            None => r@ == "Unknown"@,
        }),
{
    match find_desc(table, key) {
        Some(d) => d,
        None => match default {
            Some(d) => d,
            None => "Unknown",
        },
    }
}

/// The description of a manufacturer code: the table's entry where one
/// exists, else the panel family that the code's range pins down, else a
/// marker for an unknown code.
pub fn get_desc_mfg_code<'a>(mfg_codes: &Vec<(u8, &'a str)>, mfg_code: u8) -> (r: &'a str)
    requires
        table_wf(mfg_codes@),
    ensures
        table_has(mfg_codes@, mfg_code) ==> r == table_get(mfg_codes@, mfg_code),
        !table_has(mfg_codes@, mfg_code) ==> r@ == (if 51 <= mfg_code < 60 {
            "PVI/EIH panel "@
        } else if 160 <= mfg_code < 168 {
            "LGD panel "@
        } else {
            "Unknown code "@
        }),
{
    match find_desc(mfg_codes, mfg_code) {
        Some(d) => d,
        None => {
            if 51 <= mfg_code && mfg_code < 60 {
                "PVI/EIH panel "
            } else if 160 <= mfg_code && mfg_code < 168 {
                "LGD panel "
            } else {
                "Unknown code "
            }
        },
    }
}

} // verus!
