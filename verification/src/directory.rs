//! What a lookup in the participant directory asks for and answers with.
//! The directory matches a field by its ending.

use vstd::prelude::*;
use vstd::string::*;

verus! {

/// The pattern that finds, in the participant directory, the entries whose
/// field ends in `suffix`: a percent sign followed by the suffix.
pub fn suffix_pattern(suffix: &String) -> (pattern: String)
    ensures
        pattern@ == seq!['%'] + suffix@,
{
    proof {
        reveal_strlit("%");
        assert("%"@ =~= seq!['%']);
    }
    let mut pattern = String::from_str("%");
    pattern.append(suffix.as_str());
    pattern
}

/// The account name that a directory lookup answers with: what was found,
/// or the empty text where nothing was.
pub fn found_or_empty(found: Option<String>) -> (name: String)
    ensures
        name@ == match found {
            Some(n) => n@,
            None => Seq::<char>::empty(),
        },
{
    match found {
        Some(n) => n,
        None => String::new(),
    }
}

} // verus!
