//! Small helpers on optional settings and file names.
use vstd::prelude::*;
use crate::text::{base_name, extension_of_name, find_last, lemma_last_index_bounds};

verus! {

/// The extension of the last component of a path, dot included, or empty.
pub open spec fn extension_of(p: Seq<char>) -> Seq<char> {
    extension_of_name(base_name(p))
}

/// The value held by `option`, or `default` when there is none.
pub fn to_string(option: Option<&String>, default: &str) -> (r: String)
    ensures
        r@ == match option {
            Some(s) => s@,
            None => default@,
        },
{
    match option {
        Some(s) => s.clone(),
        None => default.to_string(),
    }
}

/// The extension of the file that `filename` names: from the last `.` of its
/// last component on, or empty.
pub fn file_extension(filename: &str) -> (r: String)
    ensures
        r@ == extension_of(filename@),
{
    let n = filename.unicode_len();
    proof {
        lemma_last_index_bounds(filename@, '/');
    }
    let start: usize = match find_last(filename, '/') {
        Some(i) => i + 1,
        None => 0,
    };
    let name = filename.substring_char(start, n);
    proof {
        lemma_last_index_bounds(name@, '.');
    }
    match find_last(name, '.') {
        Some(i) => {
            let name_len = name.unicode_len();
            let is_parent = name_len == 2 && name.get_char(0) == '.' && name.get_char(1) == '.';
            proof {
                if is_parent {
                    assert(name@ =~= seq!['.', '.']);
                }
                if name@ == seq!['.', '.'] {
                    assert(name@[0] == '.' && name@[1] == '.');
                }
            }
            if i > 0 && !is_parent {
                name.substring_char(i, name_len).to_string()
            } else {
                String::new()
            }
        },
        None => String::new(),
    }
}

} // verus!
