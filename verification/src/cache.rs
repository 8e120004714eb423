//! The glyph cache: a mapping from characters to glyph metrics and texture
//! handles, built once and read-only afterwards.

use std::collections::HashMap;
use vstd::prelude::*;

verus! {

broadcast use vstd::std_specs::hash::group_hash_axioms;

/// A character's code point is below 2^32, so casting it to u32 keeps its
/// value; stated as a lemma because a quantified character does not carry
/// the range fact by itself.
proof fn lemma_char_code(c: char)
    ensures
        (c as u32) as int == c as int,
{
}

/// Metrics and texture handle for one rasterized glyph: the horizontal
/// advance in device units, the bitmap size in pixels, and the handle of
/// the texture the bitmap was uploaded to.
#[derive(Clone, Copy, PartialEq, Eq, Structural, Debug)]
pub struct GlyphEntry {
    pub advance: i32,
    pub width: u32,
    pub height: u32,
    pub tex: u64,
}

/// A mapping from characters to glyph entries, keyed internally by code
/// point. Its view is the mathematical map from characters to entries.
pub struct GlyphCache {
    map: HashMap<u32, GlyphEntry>,
}

impl View for GlyphCache {
    type V = Map<char, GlyphEntry>;

    closed spec fn view(&self) -> Map<char, GlyphEntry> {
        Map::new(
            |c: char| self.map@.contains_key(c as u32),
            |c: char| self.map@[c as u32],
        )
    }
}

impl GlyphCache {
    /// An empty cache.
    pub fn new() -> (s: Self)
        ensures
            s@ == Map::<char, GlyphEntry>::empty(),
    {
        let s = GlyphCache { map: HashMap::new() };
        proof {
            assert(s@ =~= Map::<char, GlyphEntry>::empty());
        }
        s
    }

    /// Inserts an entry for a character, replacing any earlier one.
    pub fn insert(&mut self, c: char, e: GlyphEntry)
        ensures
            final(self)@ == old(self)@.insert(c, e),
    {
        let ghost m0 = self@;
        self.map.insert(c as u32, e);
        proof {
            assert forall|d: char| #[trigger]
                self@.contains_key(d) == m0.insert(c, e).contains_key(d) by {
                lemma_char_code(d);
                lemma_char_code(c);
            }
            assert forall|d: char| self@.contains_key(d) implies #[trigger] self@[d] == m0.insert(
                c,
                e,
            )[d] by {
                lemma_char_code(d);
                lemma_char_code(c);
            }
            assert(self@ =~= m0.insert(c, e));
        }
    }

    /// Looks a character up: the entry it was inserted with, or None for a
    /// character the cache does not hold.
    pub fn get(&self, c: char) -> (r: Option<&GlyphEntry>)
        ensures
            match r {
                Some(e) => self@.contains_key(c) && *e == self@[c],
                None => !self@.contains_key(c),
            },
    {
        let code: u32 = c as u32;
        self.map.get(&code)
    }

    /// Whether the cache holds an entry for a character.
    pub fn contains(&self, c: char) -> (r: bool)
        ensures
            r == self@.contains_key(c),
    {
        self.get(c).is_some()
    }
}

} // verus!
