//! The closed set of equipment slots, with a total order given by
//! declaration order and a fixed printable name per slot.

use vstd::prelude::*;
use vstd::string::StrSliceExecFns;
use crate::item::is_space;
use crate::item::is_space_char;
use crate::item::skip_spaces;

verus! {

/// An equipment category. An entity may hold at most one equipped item per
/// slot. The declaration order gives the order used for grouped listings.
#[derive(Debug, Clone, PartialEq, Eq, Hash, Copy, Structural)]
pub enum Slot {
    Weapon,
    Ring,
    Helmet,
    Chestplate,
    Gauntlets,
    Greaves,
    Boots,
    Shield,
    Pauldrons,
    Bracers,
    Cloak,
    Belt,
    Amulet,
    Potion,
}

/// Position of a slot in the declaration order; the basis of the total order
/// on slots used when listing items.
pub open spec fn slot_rank(s: Slot) -> int {
    match s {
        Slot::Weapon => 0,
        Slot::Ring => 1,
        Slot::Helmet => 2,
        Slot::Chestplate => 3,
        Slot::Gauntlets => 4,
        Slot::Greaves => 5,
        Slot::Boots => 6,
        Slot::Shield => 7,
        Slot::Pauldrons => 8,
        Slot::Bracers => 9,
        Slot::Cloak => 10,
        Slot::Belt => 11,
        Slot::Amulet => 12,
        Slot::Potion => 13,
    }
}

/// Rank of an optional slot: `None` sorts before every concrete slot.
pub open spec fn opt_slot_rank(s: Option<Slot>) -> int {
    match s {
        Option::None => -1,
        Option::Some(s) => slot_rank(s),
    }
}

impl Slot {
    /// Position of this slot in the declaration order, as an executable value.
    pub fn rank(&self) -> (r: u32)
        ensures
            r == slot_rank(*self),
    {
        match self {
            Slot::Weapon => 0,
            Slot::Ring => 1,
            Slot::Helmet => 2,
            Slot::Chestplate => 3,
            Slot::Gauntlets => 4,
            Slot::Greaves => 5,
            Slot::Boots => 6,
            Slot::Shield => 7,
            Slot::Pauldrons => 8,
            Slot::Bracers => 9,
            Slot::Cloak => 10,
            Slot::Belt => 11,
            Slot::Amulet => 12,
            Slot::Potion => 13,
        }
    }

    /// The display name of this slot, also the spelling (up to ASCII case)
    /// accepted by `parse_slot`.
    pub fn name(&self) -> (r: &'static str)
        ensures
            r@ == spec_slot_name(*self),
    {
        match self {
            Slot::Weapon => "Weapon",
            Slot::Ring => "Ring",
            Slot::Helmet => "Helmet",
            Slot::Chestplate => "Chestplate",
            Slot::Gauntlets => "Gauntlets",
            Slot::Greaves => "Greaves",
            Slot::Boots => "Boots",
            Slot::Shield => "Shield",
            Slot::Pauldrons => "Pauldrons",
            Slot::Bracers => "Bracers",
            Slot::Cloak => "Cloak",
            Slot::Belt => "Belt",
            Slot::Amulet => "Amulet",
            Slot::Potion => "Potion",
        }
    }
}

/// The error of `parse_slot`: the string names no slot.
#[derive(Debug, Clone, Copy, PartialEq, Eq, Structural)]
pub struct InvalidSlotName;

/// A character folded to lower case, for the ASCII letters.
pub open spec fn lower_char(c: char) -> char {
    if 65 <= c as u32 && c as u32 <= 90 {
        (((c as u32) + 32) as u8) as char
    } else {
        c
    }
}

/// A character sequence folded to lower case, for the ASCII letters.
pub open spec fn lower_seq(s: Seq<char>) -> Seq<char> {
    s.map_values(|c: char| lower_char(c))
}

/// The first position at or before `i` such that no space character stands
/// right before it: the right-hand trim point.
pub open spec fn rskip_spaces(s: Seq<char>, i: int) -> int
    decreases i when 0 <= i <= s.len()
{
    if i > 0 && is_space_char(s[i - 1]) {
        rskip_spaces(s, i - 1)
    } else {
        i
    }
}

/// `s` with ASCII whitespace removed from both ends.
pub open spec fn spec_trim(s: Seq<char>) -> Seq<char> {
    let a = skip_spaces(s, 0);
    let b = rskip_spaces(s, s.len() as int);
    if a < b {
        s.subrange(a, b)
    } else {
        Seq::empty()
    }
}

/// The slot a string names: the string is trimmed, folded to lower case,
/// and matched against the slot names, with "scroll" as an extra alias for
/// the potion slot; anything else names no slot.
pub open spec fn spec_parse_slot(s: Seq<char>) -> Option<Slot> {
    let t = lower_seq(spec_trim(s));
    if t == "weapon"@ { Option::Some(Slot::Weapon) }
    else if t == "helmet"@ { Option::Some(Slot::Helmet) }
    else if t == "chestplate"@ { Option::Some(Slot::Chestplate) }
    else if t == "gauntlets"@ { Option::Some(Slot::Gauntlets) }
    else if t == "greaves"@ { Option::Some(Slot::Greaves) }
    else if t == "boots"@ { Option::Some(Slot::Boots) }
    else if t == "shield"@ { Option::Some(Slot::Shield) }
    else if t == "pauldrons"@ { Option::Some(Slot::Pauldrons) }
    else if t == "bracers"@ { Option::Some(Slot::Bracers) }
    else if t == "cloak"@ { Option::Some(Slot::Cloak) }
    else if t == "belt"@ { Option::Some(Slot::Belt) }
    else if t == "amulet"@ { Option::Some(Slot::Amulet) }
    else if t == "ring"@ { Option::Some(Slot::Ring) }
    else if t == "potion"@ || t == "scroll"@ { Option::Some(Slot::Potion) }
    else { Option::None }
}

/// A character folded to lower case, as an executable value.
fn lower_char_exec(c: char) -> (r: char)
    ensures
        r == lower_char(c),
{
    let u = c as u32;
    if 65 <= u && u <= 90 {
        ((u + 32) as u8) as char
    } else {
        c
    }
}

/// Whether the characters of `s` in `[lo, hi)`, folded to lower case,
/// spell exactly `pat`.
fn region_matches_ci(s: &str, lo: usize, hi: usize, pat: &str) -> (r: bool)
    requires
        lo <= hi,
        hi <= s@.len(),
    ensures
        r == (lower_seq(s@.subrange(lo as int, hi as int)) == pat@),
{
    let plen = pat.unicode_len();
    if hi - lo != plen {
        proof {
            assert(lower_seq(s@.subrange(lo as int, hi as int)).len() == hi - lo);
        }
        return false;
    }
    let mut i: usize = 0;
    while i < plen
        invariant
            i <= plen,
            plen == pat@.len(),
            hi - lo == plen,
            lo <= hi <= s@.len(),
            forall|j: int|
                0 <= j < i ==> lower_char(s@.subrange(lo as int, hi as int)[j]) == pat@[j],
        decreases plen - i,
    {
        let cs = lower_char_exec(s.get_char(lo + i));
        let cp = pat.get_char(i);
        if cs != cp {
            proof {
                assert(lower_seq(s@.subrange(lo as int, hi as int))[i as int] != pat@[i as int]);
            }
            return false;
        }
        i = i + 1;
    }
    proof {
        assert(lower_seq(s@.subrange(lo as int, hi as int)) =~= pat@);
    }
    true
}

/// Parses a slot name, case-insensitively and ignoring surrounding
/// whitespace, accepting exactly the fourteen slot names plus "scroll" as
/// an alias for the potion slot; anything else is an `InvalidSlotName`
/// error.
pub fn parse_slot(slot_str: &str) -> (r: Result<Slot, InvalidSlotName>)
    ensures
        match r {
            Result::Ok(sl) => spec_parse_slot(slot_str@) == Option::Some(sl),
            Result::Err(_) => spec_parse_slot(slot_str@) is None,
        },
{
    let len = slot_str.unicode_len();
    let mut a: usize = 0;
    while a < len && is_space(slot_str.get_char(a))
        invariant
            a <= len,
            len == slot_str@.len(),
            skip_spaces(slot_str@, 0) == skip_spaces(slot_str@, a as int),
        decreases len - a,
    {
        a = a + 1;
    }
    let mut b: usize = len;
    while b > 0 && is_space(slot_str.get_char(b - 1))
        invariant
            b <= len,
            len == slot_str@.len(),
            rskip_spaces(slot_str@, len as int) == rskip_spaces(slot_str@, b as int),
        decreases b,
    {
        b = b - 1;
    }
    let lo = a;
    let hi = if a < b { b } else { a };
    proof {
        assert(spec_trim(slot_str@) =~= slot_str@.subrange(lo as int, hi as int));
    }
    if region_matches_ci(slot_str, lo, hi, "weapon") { Result::Ok(Slot::Weapon) }
    else if region_matches_ci(slot_str, lo, hi, "helmet") { Result::Ok(Slot::Helmet) }
    else if region_matches_ci(slot_str, lo, hi, "chestplate") { Result::Ok(Slot::Chestplate) }
    else if region_matches_ci(slot_str, lo, hi, "gauntlets") { Result::Ok(Slot::Gauntlets) }
    else if region_matches_ci(slot_str, lo, hi, "greaves") { Result::Ok(Slot::Greaves) }
    else if region_matches_ci(slot_str, lo, hi, "boots") { Result::Ok(Slot::Boots) }
    else if region_matches_ci(slot_str, lo, hi, "shield") { Result::Ok(Slot::Shield) }
    else if region_matches_ci(slot_str, lo, hi, "pauldrons") { Result::Ok(Slot::Pauldrons) }
    else if region_matches_ci(slot_str, lo, hi, "bracers") { Result::Ok(Slot::Bracers) }
    else if region_matches_ci(slot_str, lo, hi, "cloak") { Result::Ok(Slot::Cloak) }
    else if region_matches_ci(slot_str, lo, hi, "belt") { Result::Ok(Slot::Belt) }
    else if region_matches_ci(slot_str, lo, hi, "amulet") { Result::Ok(Slot::Amulet) }
    else if region_matches_ci(slot_str, lo, hi, "ring") { Result::Ok(Slot::Ring) }
    else if region_matches_ci(slot_str, lo, hi, "potion") || region_matches_ci(
        slot_str,
        lo,
        hi,
        "scroll",
    ) { Result::Ok(Slot::Potion) }
    else { Result::Err(InvalidSlotName) }
}

/// The display name of a slot, as a sequence of characters.
pub open spec fn spec_slot_name(s: Slot) -> Seq<char> {
    match s {
        Slot::Weapon => "Weapon"@,
        Slot::Ring => "Ring"@,
        Slot::Helmet => "Helmet"@,
        Slot::Chestplate => "Chestplate"@,
        Slot::Gauntlets => "Gauntlets"@,
        Slot::Greaves => "Greaves"@,
        Slot::Boots => "Boots"@,
        Slot::Shield => "Shield"@,
        Slot::Pauldrons => "Pauldrons"@,
        Slot::Bracers => "Bracers"@,
        Slot::Cloak => "Cloak"@,
        Slot::Belt => "Belt"@,
        Slot::Amulet => "Amulet"@,
        Slot::Potion => "Potion"@,
    }
}

} // verus!
