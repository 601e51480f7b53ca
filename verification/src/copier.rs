//! Finding a template in the cache.
use vstd::prelude::*;

use crate::text::str_eq;

verus! {

/// Copies templates into projects.
pub struct TemplateCopier;

/// Entry `i` of a listing is a folder named `name`.
pub open spec fn is_dir_named(entries: Seq<(String, bool)>, name: Seq<char>, i: int) -> bool {
    0 <= i < entries.len() && entries[i].1 && entries[i].0@ == name
}

impl TemplateCopier {
    /// The first folder named like the template in a listing of the cache
    /// (each entry's file name and whether it is a folder, in the order of the
    /// walk), or `None` when there is none.
    pub fn find_template_entry(entries: &Vec<(String, bool)>, template_name: &str) -> (r: Option<usize>)
        ensures
            match r {
                Some(i) => is_dir_named(entries@, template_name@, i as int) && forall|j: int|
                    0 <= j < i ==> !is_dir_named(entries@, template_name@, j),
                None => forall|j: int| !is_dir_named(entries@, template_name@, j),
            },
    {
        let mut i: usize = 0;
        while i < entries.len()
            invariant
                i <= entries@.len(),
                forall|j: int| 0 <= j < i ==> !is_dir_named(entries@, template_name@, j),
            decreases entries.len() - i,
        {
            if entries[i].1 && str_eq(entries[i].0.as_str(), template_name) {
                return Some(i);
            }
            i += 1;
        }
        None
    }
}

} // verus!
