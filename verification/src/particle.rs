use vstd::prelude::*;

verus! {

use crate::rng::random_below;

/// Positions and velocities are fixed-point: hundredths of a screen cell.
pub const POS_SCALE: i32 = 100;

/// A fresh particle's life, in hundredths of the unit scale.
pub const LIFE_FULL: i32 = 100;

/// Life lost each tick, in hundredths: the nominal lifetime is fifty ticks,
/// tied to the tick count rather than wall-clock time on purpose.
pub const LIFE_DECAY: i32 = 2;

/// Downward acceleration added to the vertical velocity each tick.
pub const GRAVITY: i32 = 10;

/// A short-lived animated glyph with simple kinematics.
#[derive(Clone, Copy, PartialEq, Eq, Structural, Debug)]
pub struct Particle {
    pub x: i32,
    pub y: i32,
    pub vx: i32,
    pub vy: i32,
    pub life: i32,
    pub glyph: char,
}

/// The fixed six-symbol set a spawned particle draws its glyph from.
pub open spec fn spawn_glyphs() -> Seq<char> {
    seq!['\u{25CF}', '\u{25CB}', '\u{25C6}', '\u{25C7}', '\u{2605}', '\u{2606}']
}

pub open spec fn glyph_ok(c: char) -> bool {
    spawn_glyphs().contains(c)
}

/// Inside the visible rectangle [0,width) x [0,height), in fixed-point cells.
pub open spec fn in_bounds(p: Particle, width: u16, height: u16) -> bool {
    &&& 0 <= p.x < width as int * POS_SCALE
    &&& 0 <= p.y < height as int * POS_SCALE
}

/// A particle stays in the collection exactly while it is alive: positive
/// life and still on screen.
pub open spec fn alive(p: Particle, width: u16, height: u16) -> bool {
    p.life > 0 && in_bounds(p, width, height)
}

/// Bounds that every retained particle obeys: spawn-range horizontal
/// velocity, a vertical velocity that has only ever grown by gravity, and a
/// life bounded by the full spawn life. The combined bound on velocity and
/// life is preserved by each tick, because gravity adds ten while decay
/// frees five times two.
pub open spec fn kinematic_bounds(p: Particle) -> bool {
    &&& -50 <= p.vx <= 50
    &&& 10 <= p.vy
    &&& p.vy + 5 * p.life <= 550
    &&& p.life <= LIFE_FULL
}

pub open spec fn wf_particle(p: Particle, width: u16, height: u16) -> bool {
    alive(p, width, height) && kinematic_bounds(p) && glyph_ok(p.glyph)
}

/// One tick of particle physics, in the fixed update order of the system:
/// the position advances by the old velocity, then gravity raises the
/// vertical velocity and decay lowers the life.
pub open spec fn stepped(p: Particle) -> Particle {
    Particle {
        x: (p.x + p.vx) as i32,
        y: (p.y + p.vy) as i32,
        vx: p.vx,
        vy: (p.vy + GRAVITY) as i32,
        life: (p.life - LIFE_DECAY) as i32,
        glyph: p.glyph,
    }
}

/// What one update tick leaves in the collection: every particle stepped,
/// and the dead ones purged.
pub open spec fn stepped_survivors(ps: Seq<Particle>, width: u16, height: u16) -> Seq<Particle> {
    ps.map_values(|p: Particle| stepped(p)).filter(|p: Particle| alive(p, width, height))
}

/// A particle as the spawn step creates it: at the top edge, with the
/// documented velocity ranges, full life, and a glyph from the fixed set.
pub open spec fn freshly_spawned(p: Particle, width: u16, height: u16) -> bool {
    &&& 0 <= p.x < width as int * POS_SCALE
    &&& p.y == 0
    &&& 0 < height
    &&& -50 <= p.vx <= 49
    &&& 10 <= p.vy <= 49
    &&& p.life == LIFE_FULL
    &&& glyph_ok(p.glyph)
}

pub proof fn lemma_spawn_is_wf(p: Particle, width: u16, height: u16)
    requires
        freshly_spawned(p, width, height),
    ensures
        wf_particle(p, width, height),
{
}

fn step_particle(p: &Particle, width: u16, height: u16) -> (q: Particle)
    requires
        wf_particle(*p, width, height),
    ensures
        q == stepped(*p),
{
    Particle {
        x: p.x + p.vx,
        y: p.y + p.vy,
        vx: p.vx,
        vy: p.vy + GRAVITY,
        life: p.life - LIFE_DECAY,
        glyph: p.glyph,
    }
}

fn particle_alive(p: &Particle, width: u16, height: u16) -> (r: bool)
    ensures
        r == alive(*p, width, height),
{
    p.life > 0 && p.x >= 0 && p.x < (width as i32) * POS_SCALE && p.y >= 0 && p.y < (height
        as i32) * POS_SCALE
}

/// Ages every particle by one tick and purges the dead: exactly the stepped
/// survivors remain, in their original relative order.
pub fn step_particles(ps: &mut Vec<Particle>, width: u16, height: u16)
    requires
        forall|i: int|
            0 <= i < old(ps)@.len() ==> wf_particle(#[trigger] old(ps)@[i], width, height),
    ensures
        final(ps)@ == stepped_survivors(old(ps)@, width, height),
        forall|i: int|
            0 <= i < final(ps)@.len() ==> wf_particle(#[trigger] final(ps)@[i], width, height),
{
    let ghost orig = ps@;
    let mut out: Vec<Particle> = Vec::new();
    let mut i: usize = 0;
    while i < ps.len()
        invariant
            i <= ps@.len(),
            ps@ == orig,
            forall|j: int| 0 <= j < orig.len() ==> wf_particle(#[trigger] orig[j], width, height),
            out@ == stepped_survivors(orig.subrange(0, i as int), width, height),
            forall|j: int|
                0 <= j < out@.len() ==> wf_particle(#[trigger] out@[j], width, height),
        decreases ps@.len() - i,
    {
        let p = ps[i];
        let q = step_particle(&p, width, height);
        let keep = particle_alive(&q, width, height);
        proof {
            reveal(Seq::filter);
            let stepf = |pp: Particle| stepped(pp);
            let alivef = |pp: Particle| alive(pp, width, height);
            let pre = orig.subrange(0, i as int);
            let pre1 = orig.subrange(0, i + 1);
            assert(pre1.drop_last() =~= pre);
            assert(pre1.map_values(stepf).drop_last() =~= pre.map_values(stepf));
            assert(pre1.map_values(stepf).last() == stepped(orig[i as int]));
            if keep {
                assert(kinematic_bounds(q));
                assert(glyph_ok(q.glyph));
            }
        }
        if keep {
            out.push(q);
        }
        i = i + 1;
    }
    proof {
        assert(orig.subrange(0, orig.len() as int) =~= orig);
    }
    *ps = out;
}

fn spawn_glyph(roll: u32) -> (c: char)
    requires
        roll < 6,
    ensures
        c == spawn_glyphs()[roll as int],
        glyph_ok(c),
{
    let c = if roll == 0 {
        '\u{25CF}'
    } else if roll == 1 {
        '\u{25CB}'
    } else if roll == 2 {
        '\u{25C6}'
    } else if roll == 3 {
        '\u{25C7}'
    } else if roll == 4 {
        '\u{2605}'
    } else {
        '\u{2606}'
    };
    proof {
        assert(spawn_glyphs()[roll as int] == c);
    }
    c
}

/// When particles are enabled, spawns one fresh particle with probability
/// three in ten, at a uniform horizontal position along the top edge with
/// the documented velocity ranges. Nothing is promised of which outcome the
/// dice give: the contract holds for every draw. With particles disabled, or
/// a degenerate zero-sized screen, the collection is left untouched.
pub fn maybe_spawn(ps: &mut Vec<Particle>, enabled: bool, width: u16, height: u16)
    requires
        forall|i: int|
            0 <= i < old(ps)@.len() ==> wf_particle(#[trigger] old(ps)@[i], width, height),
    ensures
        forall|i: int|
            0 <= i < final(ps)@.len() ==> wf_particle(#[trigger] final(ps)@[i], width, height),
        !enabled ==> final(ps)@ == old(ps)@,
        enabled ==> (final(ps)@ == old(ps)@ || (exists|p: Particle|
            freshly_spawned(p, width, height) && final(ps)@ == old(ps)@.push(p))),
{
    if enabled && width > 0 && height > 0 {
        let roll = random_below(10);
        if roll < 3 {
            let xr = random_below((width as u32) * 100);
            let vxr = random_below(100);
            let vyr = random_below(40);
            let gr = random_below(6);
            let p = Particle {
                x: xr as i32,
                y: 0,
                vx: (vxr as i32) - 50,
                vy: 10 + (vyr as i32),
                life: LIFE_FULL,
                glyph: spawn_glyph(gr),
            };
            proof {
                assert(freshly_spawned(p, width, height));
                lemma_spawn_is_wf(p, width, height);
            }
            ps.push(p);
        }
    }
}

/// A particle's life after `n` ticks of the fixed decay.
pub open spec fn life_after(life0: int, n: nat) -> int {
    life0 - 2 * n
}

/// The vertical velocity after `n` ticks of gravity.
pub open spec fn vy_after(vy0: int, n: nat) -> int {
    vy0 + 10 * n
}

/// The height after `n` ticks, under the fixed update order: each tick the
/// position advances by the velocity of the tick before.
pub open spec fn y_after(y0: int, vy0: int, n: nat) -> int
    decreases n,
{
    if n == 0 {
        y0
    } else {
        y_after(y0, vy0, (n - 1) as nat) + vy_after(vy0, (n - 1) as nat)
    }
}

/// Law: life falls by exactly one decay step per tick, so a particle that
/// starts at full life is alive after any number of ticks below fifty and
/// dead at tick fifty exactly, absent an earlier purge for leaving the
/// screen.
pub proof fn lemma_particle_lifetime(n: nat)
    ensures
        life_after(LIFE_FULL as int, n + 1) == life_after(LIFE_FULL as int, n) - LIFE_DECAY,
        life_after(LIFE_FULL as int, n) > 0 <==> n < 50,
{
}

/// Law: the height of a falling particle has the closed form of the summed
/// gravity series, y0 + n*vy0 + 5*n*(n-1), matching the update order that
/// moves by the old velocity before gravity acts.
pub proof fn lemma_fall_closed_form(y0: int, vy0: int, n: nat)
    ensures
        y_after(y0, vy0, n) == y0 + n * vy0 + 5 * n * (n - 1),
    decreases n,
{
    if n == 0 {
        assert(y_after(y0, vy0, 0) == y0);
        assert(n * vy0 == 0 && 5 * n * (n - 1) == 0) by (nonlinear_arith)
            requires
                n == 0,
        ;
    } else {
        let m = (n - 1) as nat;
        lemma_fall_closed_form(y0, vy0, m);
        assert(y_after(y0, vy0, n) == y_after(y0, vy0, m) + vy_after(vy0, m));
        assert(y0 + m * vy0 + 5 * m * (m - 1) + (vy0 + 10 * m) == y0 + n * vy0 + 5 * n * (n
            - 1)) by (nonlinear_arith)
            requires
                m == n - 1,
                n >= 1,
        ;
    }
}

/// One exec tick realizes one step of the spec kinematics: stepping a
/// well-formed particle advances its life and height by exactly one term of
/// the decay and gravity series.
pub proof fn lemma_step_matches_series(p: Particle, width: u16, height: u16)
    requires
        wf_particle(p, width, height),
    ensures
        stepped(p).life == life_after(p.life as int, 1),
        stepped(p).y == y_after(p.y as int, p.vy as int, 1),
        stepped(p).vy == vy_after(p.vy as int, 1),
{
    assert(p.vy <= 545);
    assert(stepped(p).y == p.y + p.vy);
    assert(y_after(p.y as int, p.vy as int, 1) == y_after(p.y as int, p.vy as int, 0)
        + vy_after(p.vy as int, 0));
}

} // verus!
