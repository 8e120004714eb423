//! String layout: turning a string and a glyph cache into the sequence of
//! textured-quad draw commands that renders it, centered around the origin.

use crate::cache::GlyphCache;
use crate::cache::GlyphEntry;
use vstd::prelude::*;
use vstd::string::StrSliceExecFns;

verus! {

/// Division by two that rounds toward zero, as the layout arithmetic does
/// (`/` on `int` rounds toward negative infinity instead).
pub open spec fn tdiv2(n: int) -> int {
    if n >= 0 {
        n / 2
    } else {
        -((-n) / 2)
    }
}

/// The horizontal position of the quad for position `i` in a string of `w`
/// characters whose glyph advances by `advance`: the character's own offset
/// `i * advance`, shifted left by half the advance width of the whole
/// string so that the string is centered around the origin.
pub open spec fn spec_base_x(i: int, w: int, advance: int) -> int {
    i * advance - tdiv2(w * advance)
}

/// One textured-quad draw call: the character it renders, the horizontal
/// position of the quad's origin (the quad's center lies half the pixel
/// size further right and up), the pixel size the unit quad is scaled by,
/// and the glyph texture to bind.
#[derive(Clone, Copy, PartialEq, Eq, Structural, Debug)]
pub struct DrawCommand {
    pub ch: char,
    pub x: i64,
    pub width: u32,
    pub height: u32,
    pub tex: u64,
}

/// The draw command for the character at position `i` of a string of `w`
/// characters, rendered with entry `e`.
pub open spec fn spec_command(c: char, i: int, w: int, e: GlyphEntry) -> DrawCommand {
    DrawCommand {
        ch: c,
        x: spec_base_x(i, w, e.advance as int) as i64,
        width: e.width,
        height: e.height,
        tex: e.tex,
    }
}

/// What one position of a string contributes: a draw command when the
/// cache holds its character, a diagnostic when it does not, except for
/// the space character, which is skipped silently.
pub enum GlyphStep {
    Draw(DrawCommand),
    Warn(char),
    Skip,
}

/// The step for position `i` of `text` against `cache`.
pub open spec fn spec_step(text: Seq<char>, cache: Map<char, GlyphEntry>, i: int) -> GlyphStep {
    let c = text[i];
    if cache.contains_key(c) {
        GlyphStep::Draw(spec_command(c, i, text.len() as int, cache[c]))
    } else if c == ' ' {
        GlyphStep::Skip
    } else {
        GlyphStep::Warn(c)
    }
}

/// The steps of a whole string, one per character position.
pub open spec fn spec_steps(text: Seq<char>, cache: Map<char, GlyphEntry>) -> Seq<GlyphStep> {
    Seq::new(text.len(), |i: int| spec_step(text, cache, i))
}

/// The draw commands among a sequence of steps, in order.
pub open spec fn commands_of(steps: Seq<GlyphStep>) -> Seq<DrawCommand>
    decreases steps.len(),
{
    if steps.len() == 0 {
        Seq::empty()
    } else {
        let rest = commands_of(steps.drop_last());
        if steps.last() is Draw {
            rest.push(steps.last()->Draw_0)
        } else {
            rest
        }
    }
}

/// The diagnosed characters among a sequence of steps, in order.
pub open spec fn warnings_of(steps: Seq<GlyphStep>) -> Seq<char>
    decreases steps.len(),
{
    if steps.len() == 0 {
        Seq::empty()
    } else {
        let rest = warnings_of(steps.drop_last());
        if steps.last() is Warn {
            rest.push(steps.last()->Warn_0)
        } else {
            rest
        }
    }
}

/// Appending one step appends its contribution: the draw command sequence
/// grows exactly on a draw step, the diagnostics exactly on a warn step.
proof fn lemma_step_push(steps: Seq<GlyphStep>, s: GlyphStep)
    ensures
        s is Draw ==> commands_of(steps.push(s)) == commands_of(steps).push(s->Draw_0),
        !(s is Draw) ==> commands_of(steps.push(s)) == commands_of(steps),
        s is Warn ==> warnings_of(steps.push(s)) == warnings_of(steps).push(s->Warn_0),
        !(s is Warn) ==> warnings_of(steps.push(s)) == warnings_of(steps),
{
    assert(steps.push(s).drop_last() =~= steps);
    assert(steps.push(s).last() == s);
}

/// What drawing a string against a cache produces: the draw commands to
/// issue, in left-to-right character order, and the characters diagnosed
/// as missing, in the same order.
pub struct LayoutResult {
    pub commands: Vec<DrawCommand>,
    pub missing: Vec<char>,
}

/// Lays `text` out against `cache`: one draw command per character the
/// cache holds, one diagnostic per absent non-space character, nothing
/// for an absent space.
pub fn layout(text: &str, cache: &GlyphCache) -> (r: LayoutResult)
    requires
        text@.len() <= i32::MAX as int,
    ensures
        r.commands@ == commands_of(spec_steps(text@, cache@)),
        r.missing@ == warnings_of(spec_steps(text@, cache@)),
{
    let ghost steps = spec_steps(text@, cache@);
    let w: usize = text.unicode_len();
    let mut commands: Vec<DrawCommand> = Vec::new();
    let mut missing: Vec<char> = Vec::new();
    let mut i: usize = 0;
    while i < w
        invariant
            w == text@.len(),
            text@.len() <= i32::MAX as int,
            i <= w,
            steps == spec_steps(text@, cache@),
            commands@ == commands_of(steps.take(i as int)),
            missing@ == warnings_of(steps.take(i as int)),
        decreases w - i,
    {
        let c = text.get_char(i);
        proof {
            assert(steps.take(i as int + 1) =~= steps.take(i as int).push(steps[i as int]));
            lemma_step_push(steps.take(i as int), steps[i as int]);
        }
        match cache.get(c) {
            Some(e) => {
                let wi: i64 = w as i64;
                let ai: i64 = e.advance as i64;
                proof {
                    assert(wi * ai <= 0x7fffffffi64 * 0x80000000i64 && wi * ai >= -(
                    0x7fffffffi64 * 0x80000000i64)) by (nonlinear_arith)
                        requires
                            0 <= wi <= 0x7fffffffi64,
                            -0x80000000i64 <= ai <= 0x7fffffffi64,
                    ;
                }
                let wa: i64 = wi * ai;
                let off: i64 = if wa >= 0 {
                    ((wa as u64) / 2) as i64
                } else {
                    let neg: u64 = (-wa) as u64;
                    -((neg / 2) as i64)
                };
                proof {
                    assert(off == tdiv2(wa as int));
                }
                let ii: i64 = i as i64;
                proof {
                    assert(ii * ai <= 0x7fffffffi64 * 0x80000000i64 && ii * ai >= -(
                    0x7fffffffi64 * 0x80000000i64)) by (nonlinear_arith)
                        requires
                            0 <= ii <= 0x7fffffffi64,
                            -0x80000000i64 <= ai <= 0x7fffffffi64,
                    ;
                }
                let ia: i64 = ii * ai;
                let x: i64 = ia - off;
                let cmd = DrawCommand { ch: c, x, width: e.width, height: e.height, tex: e.tex };
                proof {
                    assert(x as int == spec_base_x(i as int, w as int, e.advance as int));
                    assert(steps[i as int] == GlyphStep::Draw(cmd));
                }
                commands.push(cmd);
            },
            None => {
                if c != ' ' {
                    missing.push(c);
                    proof {
                        assert(steps[i as int] == GlyphStep::Warn(c));
                    }
                } else {
                    proof {
                        assert(steps[i as int] == GlyphStep::Skip);
                    }
                }
            },
        }
        i = i + 1;
    }
    proof {
        assert(steps.take(w as int) =~= steps);
    }
    LayoutResult { commands, missing }
}

} // verus!

verus! {

/// A missing non-space character contributes a diagnostic step and no draw
/// command at its position; a missing space contributes nothing at all.
pub proof fn law_missing_glyph(text: Seq<char>, cache: Map<char, GlyphEntry>, i: int)
    requires
        0 <= i < text.len(),
        !cache.contains_key(text[i]),
    ensures
        !(spec_steps(text, cache)[i] is Draw),
        text[i] != ' ' ==> spec_steps(text, cache)[i] == GlyphStep::Warn(text[i]),
        text[i] == ' ' ==> spec_steps(text, cache)[i] == GlyphStep::Skip,
{
}

/// Steps that draw nothing produce no draw commands.
proof fn lemma_no_draw_steps(steps: Seq<GlyphStep>)
    requires
        forall|k: int| 0 <= k < steps.len() ==> !((#[trigger] steps[k]) is Draw),
    ensures
        commands_of(steps).len() == 0,
    decreases steps.len(),
{
    if steps.len() > 0 {
        lemma_no_draw_steps(steps.drop_last());
        assert(steps[steps.len() - 1] == steps.last());
    }
}

/// When every step draws, the commands correspond to the steps one to one.
proof fn lemma_all_draw_steps(steps: Seq<GlyphStep>)
    requires
        forall|k: int| 0 <= k < steps.len() ==> (#[trigger] steps[k]) is Draw,
    ensures
        commands_of(steps).len() == steps.len(),
        forall|k: int|
            0 <= k < steps.len() ==> commands_of(steps)[k] == (#[trigger] steps[k])->Draw_0,
    decreases steps.len(),
{
    if steps.len() > 0 {
        lemma_all_draw_steps(steps.drop_last());
        assert(steps[steps.len() - 1] == steps.last());
        assert forall|k: int|
            0 <= k < steps.len() implies commands_of(steps)[k] == (#[trigger] steps[k])->Draw_0 by {
            if k < steps.len() - 1 {
                assert(commands_of(steps.drop_last())[k] == steps.drop_last()[k]->Draw_0);
            }
        }
    }
}

/// Truncating halving never grows in magnitude and keeps the sign.
proof fn lemma_tdiv2_bound(n: int)
    ensures
        n >= 0 ==> 0 <= tdiv2(n) <= n,
        n < 0 ==> n <= tdiv2(n) <= 0,
{
}

/// A quad position computed from an in-range width and advance fits i64.
proof fn lemma_base_x_in_i64(i: int, w: int, a: int)
    requires
        0 <= i < w,
        w <= 0x7fffffff,
        -0x80000000 <= a <= 0x7fffffff,
    ensures
        i64::MIN <= spec_base_x(i, w, a) <= i64::MAX,
{
    assert(i * a <= 0x7fffffff * 0x80000000 && i * a >= -(0x7fffffff * 0x80000000))
        by (nonlinear_arith)
        requires
            0 <= i <= 0x7fffffff,
            -0x80000000 <= a <= 0x7fffffff,
    ;
    assert(w * a <= 0x7fffffff * 0x80000000 && w * a >= -(0x7fffffff * 0x80000000))
        by (nonlinear_arith)
        requires
            0 <= w <= 0x7fffffff,
            -0x80000000 <= a <= 0x7fffffff,
    ;
    lemma_tdiv2_bound(w * a);
}

/// Centering: in a string of `w` characters whose glyphs all sit in the
/// cache with one common advance `a`, the command for position `i` places
/// its quad at `i*a - (w*a)/2`, the division truncating toward zero.
pub proof fn law_centering(text: Seq<char>, cache: Map<char, GlyphEntry>, a: int, i: int)
    requires
        text.len() <= i32::MAX as int,
        forall|j: int| 0 <= j < text.len() ==> cache.contains_key(#[trigger] text[j]),
        forall|j: int| 0 <= j < text.len() ==> (cache[#[trigger] text[j]].advance as int) == a,
        0 <= i < text.len(),
    ensures
        commands_of(spec_steps(text, cache)).len() == text.len(),
        commands_of(spec_steps(text, cache))[i].x as int == i * a - tdiv2(text.len() as int * a),
{
    let steps = spec_steps(text, cache);
    assert forall|k: int| 0 <= k < steps.len() implies (#[trigger] steps[k]) is Draw by {
        assert(cache.contains_key(text[k]));
    }
    lemma_all_draw_steps(steps);
    lemma_base_x_in_i64(i, text.len() as int, a);
    assert(steps[i] is Draw);
    assert(commands_of(steps)[i] == steps[i]->Draw_0);
}

/// With every character of a string missing from the cache, drawing
/// issues no draw calls at all.
pub proof fn law_all_missing(text: Seq<char>, cache: Map<char, GlyphEntry>)
    requires
        forall|j: int| 0 <= j < text.len() ==> !cache.contains_key(#[trigger] text[j]),
    ensures
        commands_of(spec_steps(text, cache)).len() == 0,
{
    lemma_no_draw_steps(spec_steps(text, cache));
}

/// Drawing is deterministic: two runs over the same text and cache issue
/// identical command sequences and identical diagnostics.
pub proof fn law_draw_idempotent(
    text: Seq<char>,
    cache: Map<char, GlyphEntry>,
    commands1: Seq<DrawCommand>,
    missing1: Seq<char>,
    commands2: Seq<DrawCommand>,
    missing2: Seq<char>,
)
    requires
        commands1 == commands_of(spec_steps(text, cache)),
        missing1 == warnings_of(spec_steps(text, cache)),
        commands2 == commands_of(spec_steps(text, cache)),
        missing2 == warnings_of(spec_steps(text, cache)),
    ensures
        commands1 == commands2,
        missing1 == missing2,
{
}

/// The empty string yields no draw commands and no diagnostics.
pub proof fn law_empty_string(cache: Map<char, GlyphEntry>)
    ensures
        commands_of(spec_steps(Seq::<char>::empty(), cache)) == Seq::<DrawCommand>::empty(),
        warnings_of(spec_steps(Seq::<char>::empty(), cache)) == Seq::<char>::empty(),
{
    assert(spec_steps(Seq::<char>::empty(), cache).len() == 0);
}

} // verus!
