//! Voxel cells and their closed set of types.

use vstd::prelude::*;
use vstd::string::StrSliceExecFns;

verus! {

broadcast use vstd::string::to_string_from_display_ensures_for_str;

/// The closed enumeration of voxel types.
#[derive(Copy, Clone, PartialEq, Eq, Structural, Debug, Hash)]
pub enum BlockType {
    Air,
    Water,
    Grass,
    Dirt,
    Stone,
    Log,
    Leaves,
    Rose,
    Dandelion,
    Bedrock,
}

/// A single world cell. Cells are value-like: they hold a type and nothing
/// else, and are replaced wholesale, never mutated in place.
#[derive(Copy, Clone, PartialEq, Eq, Structural, Debug)]
pub struct Block {
    pub block_type: BlockType,
}

/// Whether a voxel type blocks the view along the camera diagonal.
/// Air, Water, Leaves and the two flowers are transparent; all other types
/// are opaque.
pub open spec fn spec_is_non_transparent(block: BlockType) -> bool {
    match block {
        BlockType::Air => false,
        BlockType::Water => false,
        BlockType::Leaves => false,
        BlockType::Rose => false,
        BlockType::Dandelion => false,
        _ => true,
    }
}

impl BlockType {
    /// The transparency classification used by the occlusion test.
    pub fn is_non_transparent(block: BlockType) -> (r: bool)
        ensures
            r == spec_is_non_transparent(block),
    {
        match block {
            BlockType::Air => false,
            BlockType::Water => false,
            BlockType::Leaves => false,
            BlockType::Rose => false,
            BlockType::Dandelion => false,
            _ => true,
        }
    }
}

/// The error produced when a string names no voxel type. It carries the
/// offending string.
#[derive(Debug)]
pub struct ParseBlockTypeError {
    pub invalid_block: String,
}

/// ASCII lower-casing of a single character, as a code point.
pub open spec fn spec_lower(c: char) -> u32 {
    if 65 <= c as u32 && c as u32 <= 90 {
        (c as u32 + 32) as u32
    } else {
        c as u32
    }
}

/// Case-insensitive equality of two character sequences.
pub open spec fn spec_name_matches(s: Seq<char>, t: Seq<char>) -> bool {
    s.len() == t.len() && (forall|i: int| 0 <= i < s.len() ==> spec_lower(s[i]) == spec_lower(t[i]))
}

/// The voxel type named by a string, compared case-insensitively, or `None`
/// for any other string.
pub open spec fn spec_parse_block_type(s: Seq<char>) -> Option<BlockType> {
    if spec_name_matches(s, "air"@) {
        Some(BlockType::Air)
    } else if spec_name_matches(s, "water"@) {
        Some(BlockType::Water)
    } else if spec_name_matches(s, "grass"@) {
        Some(BlockType::Grass)
    } else if spec_name_matches(s, "dirt"@) {
        Some(BlockType::Dirt)
    } else if spec_name_matches(s, "stone"@) {
        Some(BlockType::Stone)
    } else if spec_name_matches(s, "log"@) {
        Some(BlockType::Log)
    } else if spec_name_matches(s, "leaves"@) {
        Some(BlockType::Leaves)
    } else if spec_name_matches(s, "rose"@) {
        Some(BlockType::Rose)
    } else if spec_name_matches(s, "dandelion"@) {
        Some(BlockType::Dandelion)
    } else if spec_name_matches(s, "bedrock"@) {
        Some(BlockType::Bedrock)
    } else {
        None
    }
}

/// ASCII lower-casing of a single character, executable form.
fn lower_char(c: char) -> (r: u32)
    ensures
        r == spec_lower(c),
{
    let v = c as u32;
    if 65 <= v && v <= 90 {
        v + 32
    } else {
        v
    }
}

/// Case-insensitive comparison of a string against a candidate name.
fn name_matches(s: &str, t: &str) -> (r: bool)
    ensures
        r == spec_name_matches(s@, t@),
{
    let n = s.unicode_len();
    let m = t.unicode_len();
    if n != m {
        return false;
    }
    for i in 0..n
        invariant
            n == s@.len(),
            n == t@.len(),
            forall|j: int| 0 <= j < i ==> spec_lower(s@[j]) == spec_lower(t@[j]),
    {
        let a = lower_char(s.get_char(i));
        let b = lower_char(t.get_char(i));
        if a != b {
            return false;
        }
    }
    true
}

impl BlockType {
    /// Parses a voxel type from its name, case-insensitively. Any string that
    /// names no variant is rejected with an error carrying that string.
    pub fn from_name(s: &str) -> (r: Result<BlockType, ParseBlockTypeError>)
        ensures
            match r {
                Ok(t) => spec_parse_block_type(s@) == Some(t),
                Err(e) => spec_parse_block_type(s@) is None && e.invalid_block@ == s@,
            },
    {
        if name_matches(s, "air") {
            Ok(BlockType::Air)
        } else if name_matches(s, "water") {
            Ok(BlockType::Water)
        } else if name_matches(s, "grass") {
            Ok(BlockType::Grass)
        } else if name_matches(s, "dirt") {
            Ok(BlockType::Dirt)
        } else if name_matches(s, "stone") {
            Ok(BlockType::Stone)
        } else if name_matches(s, "log") {
            Ok(BlockType::Log)
        } else if name_matches(s, "leaves") {
            Ok(BlockType::Leaves)
        } else if name_matches(s, "rose") {
            Ok(BlockType::Rose)
        } else if name_matches(s, "dandelion") {
            Ok(BlockType::Dandelion)
        } else if name_matches(s, "bedrock") {
            Ok(BlockType::Bedrock)
        } else {
            Err(ParseBlockTypeError { invalid_block: s.to_string() })
        }
    }
}

} // verus!
