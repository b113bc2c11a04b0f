//! Which crops to grow after which.

use vstd::prelude::*;
use vstd::string::*;
use crate::error::{is_not_found, Error};

verus! {

/// The crops recommended after `crop`, or `None` for a crop that the table
/// does not know. Names are in lower case.
pub open spec fn recommended(crop: Seq<char>) -> Option<Seq<Seq<char>>> {
    if crop == "wheat"@ {
        Some(seq!["soybean"@, "corn"@])
    } else if crop == "corn"@ {
        Some(seq!["wheat"@, "soybean"@])
    } else if crop == "soybean"@ {
        Some(seq!["corn"@, "wheat"@])
    } else {
        None
    }
}

/// Whether `names` are the texts `texts`, in their order.
pub open spec fn spells(names: Seq<String>, texts: Seq<Seq<char>>) -> bool {
    &&& names.len() == texts.len()
    &&& forall|i: int| 0 <= i < names.len() ==> (#[trigger] names[i])@ == texts[i]
}

/// Whether `table` holds, for each of the three crops that the table knows,
/// the crop and the crops recommended after it.
pub open spec fn is_rotation_table(table: Seq<(String, Vec<String>)>) -> bool {
    &&& table.len() == 3
    &&& table[0].0@ == "wheat"@
    &&& table[1].0@ == "corn"@
    &&& table[2].0@ == "soybean"@
    &&& forall|i: int|
        0 <= i < 3 ==> (recommended((#[trigger] table[i]).0@) matches Some(next) && spells(
            table[i].1@,
            next,
        ))
}

/// The three names of the table differ from one another.
pub proof fn lemma_names_differ()
    ensures
        "wheat"@ != "corn"@,
        "wheat"@ != "soybean"@,
        "corn"@ != "soybean"@,
{
    reveal_strlit("wheat");
    reveal_strlit("corn");
    reveal_strlit("soybean");
    assert("wheat"@.len() == 5);
    assert("corn"@.len() == 4);
    assert("soybean"@.len() == 7);
}

/// The table of crop rotation.
pub fn load_crop_rotation_data() -> (table: Vec<(String, Vec<String>)>)
    ensures
        is_rotation_table(table@),
{
    proof {
        lemma_names_differ();
    }
    let mut after_wheat: Vec<String> = Vec::new();
    after_wheat.push(String::from_str("soybean"));
    after_wheat.push(String::from_str("corn"));
    let mut after_corn: Vec<String> = Vec::new();
    after_corn.push(String::from_str("wheat"));
    after_corn.push(String::from_str("soybean"));
    let mut after_soybean: Vec<String> = Vec::new();
    after_soybean.push(String::from_str("corn"));
    after_soybean.push(String::from_str("wheat"));
    let mut table: Vec<(String, Vec<String>)> = Vec::new();
    table.push((String::from_str("wheat"), after_wheat));
    table.push((String::from_str("corn"), after_corn));
    table.push((String::from_str("soybean"), after_soybean));
    table
}

/// The crops recommended after `current_crop`. The name is looked up as it
/// is written; a crop that the table does not know is reported as an error.
pub fn crop_rotation_recommendations(current_crop: String) -> (r: Result<Vec<String>, Error>)
    ensures
        match recommended(current_crop@) {
            Some(next) => r matches Ok(names) && spells(names@, next),
            None => is_not_found(r, "No recommendations available for the input crop."@),
        },
{
    let mut table = load_crop_rotation_data();
    let ghost full = table@;
    let mut i: usize = table.len();
    while i > 0
        invariant
            i <= 3,
            is_rotation_table(full),
            table@ == full.take(i as int),
            forall|j: int| i <= j < 3 ==> (#[trigger] full[j]).0@ != current_crop@,
        decreases i,
    {
        i -= 1;
        match table.pop() {
            Some(entry) => {
                assert(entry == full[i as int]);
                assert(table@ =~= full.take(i as int));
                if entry.0 == current_crop {
                    return Ok(entry.1);
                }
            },
            None => {},
        }
    }
    proof {
        assert(full[0].0@ != current_crop@);
        assert(full[1].0@ != current_crop@);
        assert(full[2].0@ != current_crop@);
    }
    Err(Error::not_found(String::from_str("No recommendations available for the input crop.")))
}

} // verus!
