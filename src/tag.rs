//! Display form of tag names.

use vstd::prelude::*;

use crate::text::{replace_underscores, str_eq, underscore_to_space};

verus! {

/// Emoticon-like tags whose underscores are part of the tag and are kept.
pub open spec fn keeps_underscores(tag: Seq<char>) -> bool {
    tag == ">_<"@ ||
    tag == ">_o"@ ||
    tag == "0_0"@ ||
    tag == "o_o"@ ||
    tag == "3_3"@ ||
    tag == "6_9"@ ||
    tag == "@_@"@ ||
    tag == "u_u"@ ||
    tag == "x_x"@ ||
    tag == "^_^"@ ||
    tag == "|_|"@ ||
    tag == "=_="@ ||
    tag == "+_+"@ ||
    tag == "+_-"@ ||
    tag == "._."@ ||
    tag == "<o>_<o>"@ ||
    tag == "<|>_<|>"@ ||
    tag == "||_||"@ ||
    tag == "(o)_(o)"@
}

/// The display form of a tag: emoticon-like tags stay as they are, in every other
/// tag underscores become spaces.
pub open spec fn fixed_tag(tag: Seq<char>) -> Seq<char> {
    if keeps_underscores(tag) {
        tag
    } else {
        tag.map_values(|c: char| underscore_to_space(c))
    }
}

/// The display form of a tag: see `fixed_tag`.
pub fn fix_tag_underscore(tag: &str) -> (r: String)
    ensures
        r@ == fixed_tag(tag@),
{
    if str_eq(tag, ">_<") || str_eq(tag, ">_o") || str_eq(tag, "0_0") || str_eq(tag, "o_o") || str_eq(tag, "3_3") || str_eq(tag, "6_9") || str_eq(tag, "@_@") || str_eq(tag, "u_u") || str_eq(tag, "x_x") || str_eq(tag, "^_^") || str_eq(tag, "|_|") || str_eq(tag, "=_=") || str_eq(tag, "+_+") || str_eq(tag, "+_-") || str_eq(tag, "._.") || str_eq(tag, "<o>_<o>") || str_eq(tag, "<|>_<|>") || str_eq(tag, "||_||") || str_eq(tag, "(o)_(o)") {
        String::from_str(tag)
    } else {
        replace_underscores(tag)
    }
}

} // verus!
