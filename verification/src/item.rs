//! Items: randomly generated gear with a name, flavour text, a damage bonus
//! and an equipment slot derived from the name's suffix.
//!
//! A name is "{prefix} {suffix}" with the prefix and suffix drawn uniformly
//! from fixed tables; the description and damage bonus are drawn together
//! from a third table, independently of the name. The slot follows from the
//! suffix alone through a fixed mapping; a suffix outside the mapping leaves
//! the item unequippable.

use vstd::prelude::*;
use vstd::string::StrSliceExecFns;
use vstd::string::StringExecFns;
use crate::slot::Slot;
use crate::rng::rand_range;

verus! {

/// A piece of gear. The name keys the backpack's unequipped pool, so within
/// one backpack names are unique (a later insert under the same name
/// overwrites the earlier item).
#[derive(Debug)]
pub struct Item {
    pub name: String,
    pub description: String,
    pub damage_boost: i128,
    pub slot: Option<Slot>,
}

impl Clone for Item {
    fn clone(&self) -> (r: Self)
        ensures
            r == *self,
    {
        Item {
            name: self.name.clone(),
            description: self.description.clone(),
            damage_boost: self.damage_boost,
            slot: self.slot,
        }
    }
}

/// Number of name prefixes in the fixed table.
pub open spec fn prefix_count() -> int {
    10
}

/// Number of name suffixes in the fixed table ("Amulet" appears twice, so it
/// is drawn with double weight).
pub open spec fn suffix_count() -> int {
    17
}

/// Number of (description, damage bonus) pairs in the fixed table.
pub open spec fn description_count() -> int {
    10
}

/// The fixed table of name prefixes.
pub open spec fn spec_prefix(i: int) -> Seq<char> {
    if i == 0 { "Ancient"@ }
    else if i == 1 { "Mystical"@ }
    else if i == 2 { "Legendary"@ }
    else if i == 3 { "Powerful"@ }
    else if i == 4 { "Cursed"@ }
    else if i == 5 { "Divine"@ }
    else if i == 6 { "Epic"@ }
    else if i == 7 { "Strange"@ }
    else if i == 8 { "Exquisite"@ }
    else { "Enchanted"@ }
}

/// The fixed table of name suffixes.
pub open spec fn spec_suffix(i: int) -> Seq<char> {
    if i == 0 { "Sword"@ }
    else if i == 1 { "Staff"@ }
    else if i == 2 { "Ring"@ }
    else if i == 3 { "Amulet"@ }
    else if i == 4 { "Potion"@ }
    else if i == 5 { "Scroll"@ }
    else if i == 6 { "Helmet"@ }
    else if i == 7 { "Chestplate"@ }
    else if i == 8 { "Gauntlets"@ }
    else if i == 9 { "Greaves"@ }
    else if i == 10 { "Boots"@ }
    else if i == 11 { "Shield"@ }
    else if i == 12 { "Pauldrons"@ }
    else if i == 13 { "Bracers"@ }
    else if i == 14 { "Cloak"@ }
    else if i == 15 { "Belt"@ }
    else { "Amulet"@ }
}

/// The fixed table of item descriptions.
pub open spec fn spec_description(i: int) -> Seq<char> {
    if i == 0 { "A powerful artifact from ancient times."@ }
    else if i == 1 { "An enchanted item with mysterious properties."@ }
    else if i == 2 { "A legendary piece of equipment."@ }
    else if i == 3 { "A rare and valuable treasure."@ }
    else if i == 4 { "A cursed item that brings both power and danger."@ }
    else if i == 5 { "A divine relic imbued with extraordinary abilities."@ }
    else if i == 6 { "An epic gear forged by legendary craftsmen."@ }
    else if i == 7 { "A strange item with unpredictable effects."@ }
    else if i == 8 { "An exquisite piece of equipment adorned with gems."@ }
    else { "An enchanted scroll with arcane writings."@ }
}

/// The damage bonus paired with each description.
pub open spec fn spec_boost(i: int) -> int {
    if i == 0 { 5 }
    else if i == 1 { 3 }
    else if i == 2 { 8 }
    else if i == 3 { 6 }
    else if i == 4 { 10 }
    else if i == 5 { 12 }
    else if i == 6 { 7 }
    else if i == 7 { 4 }
    else if i == 8 { 6 }
    else { 2 }
}

/// The full name built from a prefix and a suffix of the fixed tables.
pub open spec fn spec_item_name(pi: int, si: int) -> Seq<char> {
    spec_prefix(pi) + " "@ + spec_suffix(si)
}

/// The slot that a name suffix maps to; `None` for a suffix outside the
/// fixed mapping.
pub open spec fn spec_slot_of_suffix(s: Seq<char>) -> Option<Slot> {
    if s == "Sword"@ || s == "Staff"@ { Option::Some(Slot::Weapon) }
    else if s == "Helmet"@ { Option::Some(Slot::Helmet) }
    else if s == "Chestplate"@ { Option::Some(Slot::Chestplate) }
    else if s == "Gauntlets"@ { Option::Some(Slot::Gauntlets) }
    else if s == "Greaves"@ { Option::Some(Slot::Greaves) }
    else if s == "Boots"@ { Option::Some(Slot::Boots) }
    else if s == "Shield"@ { Option::Some(Slot::Shield) }
    else if s == "Pauldrons"@ { Option::Some(Slot::Pauldrons) }
    else if s == "Bracers"@ { Option::Some(Slot::Bracers) }
    else if s == "Cloak"@ { Option::Some(Slot::Cloak) }
    else if s == "Belt"@ { Option::Some(Slot::Belt) }
    else if s == "Amulet"@ { Option::Some(Slot::Amulet) }
    else if s == "Ring"@ { Option::Some(Slot::Ring) }
    else if s == "Potion"@ || s == "Scroll"@ { Option::Some(Slot::Potion) }
    else { Option::None }
}

/// Whether a suffix is one of the names the slot mapping knows.
pub open spec fn suffix_in_mapping(s: Seq<char>) -> bool {
    ||| s == "Sword"@
    ||| s == "Staff"@
    ||| s == "Helmet"@
    ||| s == "Chestplate"@
    ||| s == "Gauntlets"@
    ||| s == "Greaves"@
    ||| s == "Boots"@
    ||| s == "Shield"@
    ||| s == "Pauldrons"@
    ||| s == "Bracers"@
    ||| s == "Cloak"@
    ||| s == "Belt"@
    ||| s == "Amulet"@
    ||| s == "Ring"@
    ||| s == "Potion"@
    ||| s == "Scroll"@
}

/// A suffix maps to a slot exactly when it is one of the names the mapping
/// knows: unmapped suffixes, and only those, yield an unequippable item.
pub proof fn lemma_slot_some_iff_mapped(s: Seq<char>)
    ensures
        (spec_slot_of_suffix(s) is Some) <==> suffix_in_mapping(s),
{
}

/// Whether `it` is the item built from rows `pi`, `si`, `di` of the three
/// fixed tables.
pub open spec fn item_matches(it: Item, pi: int, si: int, di: int) -> bool {
    &&& 0 <= pi < prefix_count()
    &&& 0 <= si < suffix_count()
    &&& 0 <= di < description_count()
    &&& it.name@ == spec_item_name(pi, si)
    &&& it.description@ == spec_description(di)
    &&& it.damage_boost == spec_boost(di)
    &&& it.slot == spec_slot_of_suffix(spec_suffix(si))
}

/// Row `i` of the prefix table.
pub fn prefix_str(i: usize) -> (r: &'static str)
    requires
        i < prefix_count(),
    ensures
        r@ == spec_prefix(i as int),
{
    match i {
        0 => "Ancient",
        1 => "Mystical",
        2 => "Legendary",
        3 => "Powerful",
        4 => "Cursed",
        5 => "Divine",
        6 => "Epic",
        7 => "Strange",
        8 => "Exquisite",
        _ => "Enchanted",
    }
}

/// Row `i` of the suffix table.
pub fn suffix_str(i: usize) -> (r: &'static str)
    requires
        i < suffix_count(),
    ensures
        r@ == spec_suffix(i as int),
{
    match i {
        0 => "Sword",
        1 => "Staff",
        2 => "Ring",
        3 => "Amulet",
        4 => "Potion",
        5 => "Scroll",
        6 => "Helmet",
        7 => "Chestplate",
        8 => "Gauntlets",
        9 => "Greaves",
        10 => "Boots",
        11 => "Shield",
        12 => "Pauldrons",
        13 => "Bracers",
        14 => "Cloak",
        15 => "Belt",
        _ => "Amulet",
    }
}

/// Row `i` of the description table: the flavour text and its damage bonus.
pub fn description_entry(i: usize) -> (r: (&'static str, i128))
    requires
        i < description_count(),
    ensures
        r.0@ == spec_description(i as int),
        r.1 == spec_boost(i as int),
{
    match i {
        0 => ("A powerful artifact from ancient times.", 5),
        1 => ("An enchanted item with mysterious properties.", 3),
        2 => ("A legendary piece of equipment.", 8),
        3 => ("A rare and valuable treasure.", 6),
        4 => ("A cursed item that brings both power and danger.", 10),
        5 => ("A divine relic imbued with extraordinary abilities.", 12),
        6 => ("An epic gear forged by legendary craftsmen.", 7),
        7 => ("A strange item with unpredictable effects.", 4),
        8 => ("An exquisite piece of equipment adorned with gems.", 6),
        _ => ("An enchanted scroll with arcane writings.", 2),
    }
}

/// Builds the name "{prefix} {suffix}" from rows of the two name tables.
pub fn item_name_from(pi: usize, si: usize) -> (r: String)
    requires
        pi < prefix_count(),
        si < suffix_count(),
    ensures
        r@ == spec_item_name(pi as int, si as int),
{
    let name = String::from_str(prefix_str(pi)).concat(" ").concat(suffix_str(si));
    proof {
        assert(name@ =~= spec_item_name(pi as int, si as int));
    }
    name
}

impl Item {
    /// Builds the item that rows `pi`, `si`, `di` of the three fixed tables
    /// describe: the deterministic part of random generation, so that every
    /// drawable item can also be built from chosen rows.
    pub fn from_indices(pi: usize, si: usize, di: usize) -> (r: Item)
        requires
            pi < prefix_count(),
            si < suffix_count(),
            di < description_count(),
        ensures
            item_matches(r, pi as int, si as int, di as int),
            r.slot is Some,
            r.damage_boost >= 0,
    {
        let name = item_name_from(pi, si);
        let (description, damage_boost) = description_entry(di);
        let slot = determine_item_slot(suffix_str(si));
        proof {
            lemma_slot_some_iff_mapped(spec_suffix(si as int));
        }
        Item { name, description: String::from_str(description), damage_boost, slot }
    }

    /// Draws an item at random: prefix, suffix and (description, bonus) row
    /// are independent uniform draws from the fixed tables. Every drawn item
    /// matches some rows of the tables, carries a slot (every suffix in the
    /// name table is in the slot mapping) and a non-negative bonus.
    pub fn new_random() -> (r: Item)
        ensures
            exists|pi: int, si: int, di: int| item_matches(r, pi, si, di),
            r.slot is Some,
            r.damage_boost >= 0,
    {
        let pi = rand_below(10);
        let si = rand_below(17);
        let di = rand_below(10);
        let r = Item::from_indices(pi, si, di);
        proof {
            assert(item_matches(r, pi as int, si as int, di as int));
        }
        r
    }
}

/// A uniformly random index below `n`.
fn rand_below(n: usize) -> (r: usize)
    requires
        n >= 1,
    ensures
        r < n,
{
    let x = rand_range(0, n as i128);
    x as usize
}

/// Whether two string slices hold the same characters.
pub fn str_eq(a: &str, b: &str) -> (r: bool)
    ensures
        r == (a@ == b@),
{
    let alen = a.unicode_len();
    let blen = b.unicode_len();
    if alen != blen {
        return false;
    }
    let mut i: usize = 0;
    while i < alen
        invariant
            alen == a@.len(),
            alen == b@.len(),
            i <= alen,
            forall|j: int| 0 <= j < i ==> a@[j] == b@[j],
        decreases alen - i,
    {
        if a.get_char(i) != b.get_char(i) {
            return false;
        }
        i = i + 1;
    }
    proof {
        assert(a@ =~= b@);
    }
    true
}

/// Whether `c` is ASCII whitespace, the separator class used when splitting
/// an item name into words.
pub open spec fn is_space_char(c: char) -> bool {
    c == ' ' || c == '\t' || c == '\n' || c == '\r'
}

/// The first position at or after `i` holding a non-space character, or the
/// end of `s`.
pub open spec fn skip_spaces(s: Seq<char>, i: int) -> int
    decreases s.len() - i when 0 <= i <= s.len()
{
    if i < s.len() && is_space_char(s[i]) {
        skip_spaces(s, i + 1)
    } else {
        i
    }
}

/// The first position at or after `i` holding a space character, or the end
/// of `s`: the end of the word starting at `i`.
pub open spec fn skip_word(s: Seq<char>, i: int) -> int
    decreases s.len() - i when 0 <= i <= s.len()
{
    if i < s.len() && !is_space_char(s[i]) {
        skip_word(s, i + 1)
    } else {
        i
    }
}

/// Start of the first word of `s`.
pub open spec fn word1_start(s: Seq<char>) -> int {
    skip_spaces(s, 0)
}

/// End of the first word of `s`.
pub open spec fn word1_end(s: Seq<char>) -> int {
    skip_word(s, word1_start(s))
}

/// Start of the second word of `s`.
pub open spec fn word2_start(s: Seq<char>) -> int {
    skip_spaces(s, word1_end(s))
}

/// End of the second word of `s`.
pub open spec fn word2_end(s: Seq<char>) -> int {
    skip_word(s, word2_start(s))
}

/// Whether `s` consists of exactly two whitespace-separated words.
pub open spec fn two_words(s: Seq<char>) -> bool {
    &&& word1_start(s) < s.len()
    &&& word2_start(s) < s.len()
    &&& skip_spaces(s, word2_end(s)) == s.len()
}

/// Whether `c` is ASCII whitespace.
pub fn is_space(c: char) -> (r: bool)
    ensures
        r == is_space_char(c),
{
    c == ' ' || c == '\t' || c == '\n' || c == '\r'
}

/// Scans from `from` past space characters.
fn find_skip_spaces(s: &str, from: usize, len: usize) -> (r: usize)
    requires
        len == s@.len(),
        from <= len,
    ensures
        r == skip_spaces(s@, from as int),
        from <= r <= len,
{
    let mut i: usize = from;
    while i < len && is_space(s.get_char(i))
        invariant
            from <= i <= len,
            len == s@.len(),
            skip_spaces(s@, from as int) == skip_spaces(s@, i as int),
        decreases len - i,
    {
        i = i + 1;
    }
    i
}

/// Scans from `from` past non-space characters.
fn find_skip_word(s: &str, from: usize, len: usize) -> (r: usize)
    requires
        len == s@.len(),
        from <= len,
    ensures
        r == skip_word(s@, from as int),
        from <= r <= len,
{
    let mut i: usize = from;
    while i < len && !is_space(s.get_char(i))
        invariant
            from <= i <= len,
            len == s@.len(),
            skip_word(s@, from as int) == skip_word(s@, i as int),
        decreases len - i,
    {
        i = i + 1;
    }
    i
}

/// Splits an item name into its prefix and suffix: the two words of the
/// name, when it has exactly two whitespace-separated words; a pair of empty
/// strings otherwise.
pub fn parse_item_name(name: &str) -> (r: (&str, String))
    ensures
        two_words(name@) ==> r.0@ == name@.subrange(word1_start(name@), word1_end(name@))
            && r.1@ == name@.subrange(word2_start(name@), word2_end(name@)),
        !two_words(name@) ==> r.0@ == Seq::<char>::empty() && r.1@ == Seq::<char>::empty(),
{
    let len = name.unicode_len();
    let a = find_skip_spaces(name, 0, len);
    let b = find_skip_word(name, a, len);
    let c = find_skip_spaces(name, b, len);
    let d = find_skip_word(name, c, len);
    let e = find_skip_spaces(name, d, len);
    if a < len && c < len && e == len {
        (name.substring_char(a, b), String::from_str(name.substring_char(c, d)))
    } else {
        proof {
            reveal_strlit("");
            assert(""@ =~= Seq::<char>::empty());
        }
        ("", String::new())
    }
}

/// The slot a name suffix stands for, per the fixed mapping; `None` if the
/// suffix is not in the mapping.
pub fn determine_item_slot(suffix: &str) -> (r: Option<Slot>)
    ensures
        r == spec_slot_of_suffix(suffix@),
{
    if str_eq(suffix, "Sword") || str_eq(suffix, "Staff") { Option::Some(Slot::Weapon) }
    else if str_eq(suffix, "Helmet") { Option::Some(Slot::Helmet) }
    else if str_eq(suffix, "Chestplate") { Option::Some(Slot::Chestplate) }
    else if str_eq(suffix, "Gauntlets") { Option::Some(Slot::Gauntlets) }
    else if str_eq(suffix, "Greaves") { Option::Some(Slot::Greaves) }
    else if str_eq(suffix, "Boots") { Option::Some(Slot::Boots) }
    else if str_eq(suffix, "Shield") { Option::Some(Slot::Shield) }
    else if str_eq(suffix, "Pauldrons") { Option::Some(Slot::Pauldrons) }
    else if str_eq(suffix, "Bracers") { Option::Some(Slot::Bracers) }
    else if str_eq(suffix, "Cloak") { Option::Some(Slot::Cloak) }
    else if str_eq(suffix, "Belt") { Option::Some(Slot::Belt) }
    else if str_eq(suffix, "Amulet") { Option::Some(Slot::Amulet) }
    else if str_eq(suffix, "Ring") { Option::Some(Slot::Ring) }
    else if str_eq(suffix, "Potion") || str_eq(suffix, "Scroll") { Option::Some(Slot::Potion) }
    else { Option::None }
}

} // verus!
