//! A tag record handed across the boundary by value.
use vstd::prelude::*;

verus! {

/// A tag, holding the bytes of its name.
pub struct Tag {
    pub name: Vec<u8>,
}

/// Describes a tag: hands back its name.
pub fn bm_tag_describe(tag: Tag) -> (r: Vec<u8>)
    ensures
        r@ == tag.name@,
{
    tag.name
}

} // verus!
