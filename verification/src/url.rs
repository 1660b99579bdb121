//! The canonical form of an image URL.

use crate::text::{before_first, replace_all, replaced, text_before};
use vstd::prelude::*;

verus! {

/// The canonical form of the image URL `raw`: every `large` becomes `png`,
/// then every `.jpg` becomes `.png`, and of what that gives only the part
/// before the first `?` stays.
pub open spec fn normalized(raw: Seq<char>) -> Seq<char> {
    before_first(replaced(replaced(raw, "large"@, "png"@), ".jpg"@, ".png"@), "?"@)
}

/// Brings an image URL into its canonical form.
pub fn normalize(raw: &str) -> (url: String)
    ensures
        url@ == normalized(raw@),
{
    let sized = replace_all(raw, "large", "png");
    let typed = replace_all(sized.as_str(), ".jpg", ".png");
    text_before(typed.as_str(), "?")
}

} // verus!
