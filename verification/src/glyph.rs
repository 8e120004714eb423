//! The glyph drawer: owns the cache built from the font's answers and lays
//! strings out as draw commands for the surrounding renderer to issue.

use crate::cache::GlyphCache;
use crate::cache::GlyphEntry;
use crate::layout::commands_of;
use crate::layout::layout;
use crate::layout::spec_steps;
use crate::layout::warnings_of;
use crate::layout::LayoutResult;
use vstd::prelude::*;

verus! {

/// The cache that a run of sampling outcomes builds: one outcome per
/// candidate character, in order; a successful outcome inserts its entry,
/// a failed one is skipped, and a later outcome for the same character
/// wins.
pub open spec fn spec_cache_of(samples: Seq<(char, Option<GlyphEntry>)>) -> Map<char, GlyphEntry>
    decreases samples.len(),
{
    if samples.len() == 0 {
        Map::empty()
    } else {
        let m = spec_cache_of(samples.drop_last());
        match samples.last().1 {
            Some(e) => m.insert(samples.last().0, e),
            None => m,
        }
    }
}


/// Round-trip fidelity: with pairwise distinct candidate characters, a
/// character the font reported an entry for is in the built cache with
/// exactly that entry.
pub proof fn law_cache_round_trip(samples: Seq<(char, Option<GlyphEntry>)>, j: int)
    requires
        forall|a: int, b: int|
            0 <= a < b < samples.len() ==> (#[trigger] samples[a]).0 != (#[trigger] samples[b]).0,
        0 <= j < samples.len(),
        samples[j].1 is Some,
    ensures
        spec_cache_of(samples).contains_key(samples[j].0),
        (samples[j].1 matches Some(e) ==> spec_cache_of(samples)[samples[j].0] == e),
    decreases samples.len(),
{
    if j == samples.len() - 1 {
        assert(samples.last() == samples[j]);
    } else {
        law_cache_round_trip(samples.drop_last(), j);
        assert(samples.drop_last()[j] == samples[j]);
        assert(samples[samples.len() - 1] == samples.last());
        assert(samples.last().0 != samples[j].0);
    }
}

/// A character that no sampling outcome supplied an entry for is absent
/// from the built cache.
pub proof fn law_cache_absent(samples: Seq<(char, Option<GlyphEntry>)>, c: char)
    requires
        forall|j: int|
            0 <= j < samples.len() ==> ((#[trigger] samples[j]).0 != c || samples[j].1 is None),
    ensures
        !spec_cache_of(samples).contains_key(c),
    decreases samples.len(),
{
    if samples.len() > 0 {
        law_cache_absent(samples.drop_last(), c);
        assert(samples[samples.len() - 1] == samples.last());
    }
}

/// Draws strings of cached glyphs. It owns the character-to-glyph mapping;
/// its view is that mapping.
pub struct GlyphDrawer {
    cache: GlyphCache,
}

impl View for GlyphDrawer {
    type V = Map<char, GlyphEntry>;

    closed spec fn view(&self) -> Map<char, GlyphEntry> {
        self.cache@
    }
}

impl GlyphDrawer {
    /// Builds the cache from the font's sampling outcomes: every candidate
    /// the font rasterized is stored with its entry, every failure is
    /// dropped silently.
    pub fn load_glyphs(samples: Vec<(char, Option<GlyphEntry>)>) -> (cache: GlyphCache)
        ensures
            cache@ == spec_cache_of(samples@),
    {
        let mut cache = GlyphCache::new();
        let mut i: usize = 0;
        while i < samples.len()
            invariant
                i <= samples@.len(),
                cache@ == spec_cache_of(samples@.take(i as int)),
            decreases samples@.len() - i,
        {
            proof {
                assert(samples@.take(i as int + 1).drop_last() =~= samples@.take(i as int));
                assert(samples@.take(i as int + 1).last() == samples@[i as int]);
            }
            let sample = samples[i];
            match sample.1 {
                Some(e) => {
                    cache.insert(sample.0, e);
                },
                None => {},
            }
            i = i + 1;
        }
        proof {
            assert(samples@.take(samples@.len() as int) =~= samples@);
        }
        cache
    }

    /// A drawer over the cache that the given sampling outcomes build.
    pub fn new(samples: Vec<(char, Option<GlyphEntry>)>) -> (drawer: GlyphDrawer)
        ensures
            drawer@ == spec_cache_of(samples@),
    {
        GlyphDrawer { cache: GlyphDrawer::load_glyphs(samples) }
    }

    /// The cached entry for a character, or None when the font had none.
    pub fn lookup(&self, c: char) -> (r: Option<&GlyphEntry>)
        ensures
            (match r {
                Some(e) => self@.contains_key(c) && *e == self@[c],
                None => !self@.contains_key(c),
            }),
    {
        self.cache.get(c)
    }

    /// Lays `text` out against the cache: one draw command per cached
    /// character, centered around the origin, and one diagnostic per
    /// missing non-space character; an absent space is skipped silently.
    pub fn draw(&self, text: &str) -> (r: LayoutResult)
        requires
            text@.len() <= i32::MAX as int,
        ensures
            r.commands@ == commands_of(spec_steps(text@, self@)),
            r.missing@ == warnings_of(spec_steps(text@, self@)),
    {
        layout(text, &self.cache)
    }
}

} // verus!
