use vstd::prelude::*;

verus! {

use vstd::arithmetic::div_mod::{
    lemma_fundamental_div_mod_converse,
    lemma_multiply_divide_le,
    lemma_multiply_divide_lt,
};
use crate::history::{History, shifted};
use crate::particle::{
    Particle,
    freshly_spawned,
    maybe_spawn,
    step_particles,
    stepped_survivors,
    wf_particle,
};
use crate::render::{
    Cell,
    cpu_cell_intensity,
    memory_permille,
    pattern_glyph,
    spec_cpu_intensity,
    spec_memory_permille,
    spec_pattern_glyph,
    spec_wave_row,
    views_of,
    wave_cell_row,
};
use crate::theme::{Theme, color_at, spec_color_at};

/// A window of the given width filled with zero samples.
pub open spec fn zero_window(w: int) -> Seq<u16> {
    Seq::new(w as nat, |i: int| 0u16)
}

/// A ripple offset clamped to the narrow decorative band.
pub open spec fn clamp_ripple(v: int) -> int {
    if v < -3 {
        -3
    } else if v > 3 {
        3
    } else {
        v
    }
}

/// The most recent sample of one window, clamped to the given cap; an empty
/// window reads as zero.
pub open spec fn last_sample(h: Seq<u16>, cap: int) -> int {
    if h.len() == 0 {
        0
    } else if h[h.len() - 1] > cap {
        cap
    } else {
        h[h.len() - 1] as int
    }
}

/// The clamped most recent samples of the first `n` core windows, summed.
pub open spec fn sum_last_upto(hists: Seq<Seq<u16>>, n: int) -> int
    decreases n,
{
    if n <= 0 {
        0
    } else {
        sum_last_upto(hists, n - 1) + last_sample(hists[n - 1], 10000)
    }
}

/// The mean of the cores' most recent samples, in centi-percent; zero when
/// no cores were detected.
pub open spec fn spec_avg_cpu(hists: Seq<Seq<u16>>) -> int {
    if hists.len() == 0 {
        0
    } else {
        sum_last_upto(hists, hists.len() as int) / hists.len() as int
    }
}

/// The numbers shown on the info panel.
#[derive(Clone, Copy, PartialEq, Eq, Structural, Debug)]
pub struct InfoStats {
    pub avg_cpu_centi: u16,
    pub mem_permille: u16,
    pub particle_count: usize,
    pub particles_enabled: bool,
}

/// The whole visualizer state: one owned value threaded through the control
/// loop with exclusive access.
pub struct Scope {
    pub width: u16,
    pub height: u16,
    pub theme: Theme,
    pub cpu_history: Vec<History>,
    pub memory_wave: History,
    pub ripple: Vec<i16>,
    pub particles: Vec<Particle>,
    pub particles_enabled: bool,
    pub running: bool,
}

/// The CPU art region's height: the top third of the screen. The memory
/// wave region has the same height, directly below it.
pub open spec fn cpu_region_h(s: Scope) -> int {
    s.height as int / 3
}

pub open spec fn cpu_cell_count(s: Scope) -> int {
    cpu_region_h(s) * s.width as int
}

pub open spec fn wave_cell_count(s: Scope) -> int {
    if cpu_region_h(s) > 0 {
        s.width as int
    } else {
        0
    }
}

pub open spec fn particle_cell_count(s: Scope) -> int {
    if s.particles_enabled {
        s.particles@.len() as int
    } else {
        0
    }
}

/// The CPU-region cell at flat row-major index `k`.
pub open spec fn spec_cpu_cell(s: Scope, k: int) -> Cell {
    let row = k / s.width as int;
    let col = k % s.width as int;
    let inten = spec_cpu_intensity(views_of(s.cpu_history@), col, row, cpu_region_h(s));
    Cell {
        col: col as u16,
        row: row as u16,
        glyph: spec_pattern_glyph(inten),
        color: spec_color_at(s.theme, inten),
    }
}

/// The single wave marker drawn in a column of the memory region, at the
/// fixed memory intensity.
pub open spec fn spec_wave_cell(s: Scope, col: int) -> Cell {
    let wr = spec_wave_row(s.memory_wave@, s.ripple@, col, cpu_region_h(s));
    Cell {
        col: col as u16,
        row: (cpu_region_h(s) + wr) as u16,
        glyph: '\u{2593}',
        color: spec_color_at(s.theme, 700),
    }
}

/// The cell of the `j`-th live particle: its truncated cell position, its
/// own glyph, and its remaining life as the color intensity.
pub open spec fn spec_particle_cell(s: Scope, j: int) -> Cell {
    let p = s.particles@[j];
    Cell {
        col: (p.x / 100) as u16,
        row: (p.y / 100) as u16,
        glyph: p.glyph,
        color: spec_color_at(s.theme, 10 * p.life),
    }
}

impl Scope {
    /// Structural soundness: every window spans exactly the startup width,
    /// ripple offsets stay in their band, and every retained particle is
    /// alive, on screen and within its kinematic bounds.
    pub open spec fn wf(self) -> bool {
        &&& forall|i: int|
            0 <= i < self.cpu_history@.len() ==> (#[trigger] self.cpu_history@[i])@.len()
                == self.width as int
        &&& self.memory_wave@.len() == self.width as int
        &&& self.ripple@.len() == self.width as int
        &&& forall|i: int| 0 <= i < self.ripple@.len() ==> -3 <= (#[trigger] self.ripple@[i]) <= 3
        &&& forall|i: int|
            0 <= i < self.particles@.len() ==> wf_particle(
                #[trigger] self.particles@[i],
                self.width,
                self.height,
            )
    }

    /// The initial state: zero-filled windows, no particles, running, with
    /// the decorative ripple offsets captured once (clamped defensively into
    /// their band, padded with zero beyond the given table).
    pub fn new(
        width: u16,
        height: u16,
        core_count: usize,
        theme: Theme,
        particles_enabled: bool,
        ripple: &Vec<i16>,
    ) -> (s: Scope)
        ensures
            s.wf(),
            s.width == width,
            s.height == height,
            s.theme == theme,
            s.particles_enabled == particles_enabled,
            s.running,
            s.cpu_history@.len() == core_count,
            forall|i: int|
                0 <= i < core_count ==> (#[trigger] s.cpu_history@[i])@ == zero_window(
                    width as int,
                ),
            s.memory_wave@ == zero_window(width as int),
            s.particles@.len() == 0,
            forall|i: int|
                0 <= i < width as int ==> (#[trigger] s.ripple@[i]) as int == clamp_ripple(
                    if i < ripple@.len() {
                        ripple@[i] as int
                    } else {
                        0
                    },
                ),
    {
        let mut hists: Vec<History> = Vec::new();
        while hists.len() < core_count
            invariant
                hists@.len() <= core_count,
                forall|i: int|
                    0 <= i < hists@.len() ==> (#[trigger] hists@[i])@ == zero_window(width as int),
            decreases core_count - hists@.len(),
        {
            let h = History::new(width as usize);
            proof {
                assert(h@ =~= zero_window(width as int));
            }
            hists.push(h);
        }
        let wave = History::new(width as usize);
        proof {
            assert(wave@ =~= zero_window(width as int));
        }
        let mut rip: Vec<i16> = Vec::new();
        let mut col: usize = 0;
        while col < width as usize
            invariant
                col <= width as int,
                rip@.len() == col as int,
                forall|i: int|
                    0 <= i < col as int ==> (#[trigger] rip@[i]) as int == clamp_ripple(
                        if i < ripple@.len() {
                            ripple@[i] as int
                        } else {
                            0
                        },
                    ),
            decreases width as int - col as int,
        {
            let raw: i16 = if col < ripple.len() {
                ripple[col]
            } else {
                0
            };
            let v: i16 = if raw < -3 {
                -3
            } else if raw > 3 {
                3
            } else {
                raw
            };
            rip.push(v);
            col = col + 1;
        }
        Scope {
            width,
            height,
            theme,
            cpu_history: hists,
            memory_wave: wave,
            ripple: rip,
            particles: Vec::new(),
            particles_enabled,
            running: true,
        }
    }

    /// One tick's state update: folds the metric sample into the per-core
    /// and memory windows (one rotation each; cores beyond the sample, or
    /// samples beyond the startup core count, are silently ignored), then
    /// ages and purges the particles and conditionally spawns one.
    pub fn update(&mut self, cpu_usages: &Vec<u16>, memory_used: u64, memory_total: u64)
        requires
            old(self).wf(),
        ensures
            final(self).wf(),
            final(self).width == old(self).width,
            final(self).height == old(self).height,
            final(self).theme == old(self).theme,
            final(self).particles_enabled == old(self).particles_enabled,
            final(self).running == old(self).running,
            final(self).ripple == old(self).ripple,
            final(self).cpu_history@.len() == old(self).cpu_history@.len(),
            forall|i: int|
                0 <= i < old(self).cpu_history@.len() ==> (#[trigger] final(self).cpu_history@[i])@ == (if i < cpu_usages@.len() {
                    shifted(old(self).cpu_history@[i]@, cpu_usages@[i])
                } else {
                    old(self).cpu_history@[i]@
                }),
            final(self).memory_wave@ == shifted(
                old(self).memory_wave@,
                spec_memory_permille(memory_used, memory_total) as u16,
            ),
            !old(self).particles_enabled ==> final(self).particles@ == stepped_survivors(
                old(self).particles@,
                old(self).width,
                old(self).height,
            ),
            old(self).particles_enabled ==> (final(self).particles@ == stepped_survivors(
                old(self).particles@,
                old(self).width,
                old(self).height,
            ) || (exists|p: Particle|
                freshly_spawned(p, old(self).width, old(self).height) && final(self).particles@
                    == stepped_survivors(
                    old(self).particles@,
                    old(self).width,
                    old(self).height,
                ).push(p))),
    {
        let mut i: usize = 0;
        while i < self.cpu_history.len() && i < cpu_usages.len()
            invariant
                old(self).wf(),
                i <= self.cpu_history@.len(),
                i <= cpu_usages@.len(),
                self.cpu_history@.len() == old(self).cpu_history@.len(),
                forall|j: int|
                    0 <= j < i as int ==> (#[trigger] self.cpu_history@[j])@ == shifted(
                        old(self).cpu_history@[j]@,
                        cpu_usages@[j],
                    ),
                forall|j: int|
                    i as int <= j < self.cpu_history@.len() ==> self.cpu_history@[j] == old(self).cpu_history@[j],
                self.width == old(self).width,
                self.height == old(self).height,
                self.theme == old(self).theme,
                self.memory_wave == old(self).memory_wave,
                self.ripple == old(self).ripple,
                self.particles == old(self).particles,
                self.particles_enabled == old(self).particles_enabled,
                self.running == old(self).running,
            decreases self.cpu_history@.len() - i,
        {
            let ghost before = self.cpu_history@;
            let mut h = self.cpu_history.remove(i);
            h.push(cpu_usages[i]);
            self.cpu_history.insert(i, h);
            proof {
                assert(self.cpu_history@ =~= before.update(i as int, h));
            }
            i = i + 1;
        }
        let mv = memory_permille(memory_used, memory_total);
        self.memory_wave.push(mv);
        step_particles(&mut self.particles, self.width, self.height);
        maybe_spawn(&mut self.particles, self.particles_enabled, self.width, self.height);
    }

    /// Flips particle mode. Turning it off clears the whole collection at
    /// once and halts spawning; turning it back on resumes spawning from an
    /// empty collection, never restoring cleared particles.
    pub fn toggle_particles(&mut self)
        requires
            old(self).wf(),
        ensures
            final(self).wf(),
            final(self).particles_enabled == !old(self).particles_enabled,
            old(self).particles_enabled ==> final(self).particles@ == Seq::<Particle>::empty(),
            !old(self).particles_enabled ==> final(self).particles@ == old(self).particles@,
            final(self).width == old(self).width,
            final(self).height == old(self).height,
            final(self).theme == old(self).theme,
            final(self).cpu_history == old(self).cpu_history,
            final(self).memory_wave == old(self).memory_wave,
            final(self).ripple == old(self).ripple,
            final(self).running == old(self).running,
    {
        self.particles_enabled = !self.particles_enabled;
        if !self.particles_enabled {
            self.particles.clear();
        }
    }

    /// Applies one pressed key: 'q' stops the loop, 'p' toggles particle
    /// mode, anything else is ignored.
    pub fn handle_key(&mut self, key: char)
        requires
            old(self).wf(),
        ensures
            final(self).wf(),
            key == 'q' ==> (!final(self).running && final(self).particles == old(self).particles
                && final(self).particles_enabled == old(self).particles_enabled),
            key == 'p' ==> (final(self).running == old(self).running && final(self).particles_enabled == !old(self).particles_enabled && (old(self).particles_enabled
                ==> final(self).particles@ == Seq::<Particle>::empty()) && (!old(self).particles_enabled ==> final(self).particles@ == old(self).particles@)),
            key != 'q' && key != 'p' ==> *final(self) == *old(self),
            final(self).width == old(self).width,
            final(self).height == old(self).height,
            final(self).theme == old(self).theme,
            final(self).cpu_history == old(self).cpu_history,
            final(self).memory_wave == old(self).memory_wave,
            final(self).ripple == old(self).ripple,
    {
        if key == 'q' {
            self.running = false;
        } else if key == 'p' {
            self.toggle_particles();
        }
    }

    /// The info panel's numbers: the mean of the cores' most recent usage
    /// samples in centi-percent, the most recent memory per-mille, the live
    /// particle count, and the mode flag.
    pub fn info_stats(&self) -> (s: InfoStats)
        requires
            self.wf(),
        ensures
            s.avg_cpu_centi as int == spec_avg_cpu(views_of(self.cpu_history@)),
            s.mem_permille as int == last_sample(self.memory_wave@, 1000),
            s.particle_count == self.particles@.len(),
            s.particles_enabled == self.particles_enabled,
    {
        let n = self.cpu_history.len();
        let mut sum: u128 = 0;
        let mut i: usize = 0;
        while i < n
            invariant
                i <= n,
                n == self.cpu_history@.len(),
                sum as int == sum_last_upto(views_of(self.cpu_history@), i as int),
                sum as int <= 10000 * (i as int),
            decreases n - i,
        {
            let h = &self.cpu_history[i];
            let hl = h.len();
            let last: u16 = if hl == 0 {
                0
            } else {
                h.value_at(hl - 1)
            };
            let c: u16 = if last > 10000 {
                10000
            } else {
                last
            };
            proof {
                assert(views_of(self.cpu_history@)[i as int] == self.cpu_history@[i as int]@);
                assert(c as int == last_sample(views_of(self.cpu_history@)[i as int], 10000));
            }
            sum = sum + (c as u128);
            i = i + 1;
        }
        let avg: u16 = if n == 0 {
            0
        } else {
            proof {
                assert(sum as int <= (n as int) * 10000) by (nonlinear_arith)
                    requires
                        sum as int <= 10000 * (n as int),
                ;
                lemma_multiply_divide_le(sum as int, n as int, 10000);
            }
            (sum / (n as u128)) as u16
        };
        let wl = self.memory_wave.len();
        let wlast: u16 = if wl == 0 {
            0
        } else {
            self.memory_wave.value_at(wl - 1)
        };
        let mem: u16 = if wlast > 1000 {
            1000
        } else {
            wlast
        };
        InfoStats {
            avg_cpu_centi: avg,
            mem_permille: mem,
            particle_count: self.particles.len(),
            particles_enabled: self.particles_enabled,
        }
    }

    /// Assembles one frame as draw cells: the CPU region's glyphs in
    /// row-major order, then one wave marker per column of the memory
    /// region, then one cell per live particle (only while particle mode is
    /// on). The whole screen is redrawn from these cells each tick; the
    /// info panel is reported separately by `info_stats`.
    pub fn render_frame(&self) -> (cells: Vec<Cell>)
        requires
            self.wf(),
        ensures
            cells@.len() == cpu_cell_count(*self) + wave_cell_count(*self) + particle_cell_count(*self),
            forall|k: int|
                0 <= k < cpu_cell_count(*self) ==> cells@[k] == spec_cpu_cell(*self, k),
            forall|k: int|
                0 <= k < wave_cell_count(*self) ==> cells@[cpu_cell_count(*self) + k]
                    == spec_wave_cell(*self, k),
            forall|k: int|
                0 <= k < particle_cell_count(*self) ==> cells@[cpu_cell_count(*self)
                    + wave_cell_count(*self) + k] == spec_particle_cell(*self, k),
    {
        let mut cells: Vec<Cell> = Vec::new();
        let region_h: u16 = self.height / 3;
        let mut row: u16 = 0;
        while row < region_h
            invariant
                self.wf(),
                row <= region_h,
                region_h as int == cpu_region_h(*self),
                cells@.len() == row as int * self.width as int,
                forall|k: int| 0 <= k < cells@.len() ==> cells@[k] == spec_cpu_cell(*self, k),
            decreases region_h as int - row as int,
        {
            let mut col: u16 = 0;
            while col < self.width
                invariant
                    self.wf(),
                    row < region_h,
                    col <= self.width,
                    region_h as int == cpu_region_h(*self),
                    cells@.len() == row as int * self.width as int + col as int,
                    forall|k: int| 0 <= k < cells@.len() ==> cells@[k] == spec_cpu_cell(*self, k),
                decreases self.width as int - col as int,
            {
                let inten = cpu_cell_intensity(&self.cpu_history, col as usize, row, region_h);
                let glyph = pattern_glyph(inten);
                let color = color_at(self.theme, inten);
                let cell = Cell { col, row, glyph, color };
                proof {
                    let k = row as int * self.width as int + col as int;
                    lemma_fundamental_div_mod_converse(
                        k,
                        self.width as int,
                        row as int,
                        col as int,
                    );
                    assert(cell == spec_cpu_cell(*self, k));
                }
                cells.push(cell);
                col = col + 1;
            }
            proof {
                assert((row as int + 1) * self.width as int == row as int * self.width as int
                    + self.width as int) by (nonlinear_arith);
            }
            row = row + 1;
        }
        let ghost cpu_n = cells@.len() as int;
        proof {
            assert(cpu_n == cpu_cell_count(*self));
        }
        if region_h > 0 {
            let mut col: u16 = 0;
            while col < self.width
                invariant
                    self.wf(),
                    col <= self.width,
                    region_h as int == cpu_region_h(*self),
                    region_h > 0,
                    cpu_n == cpu_cell_count(*self),
                    cells@.len() == cpu_n + col as int,
                    forall|k: int| 0 <= k < cpu_n ==> cells@[k] == spec_cpu_cell(*self, k),
                    forall|k: int|
                        0 <= k < col as int ==> cells@[cpu_n + k] == spec_wave_cell(*self, k),
                decreases self.width as int - col as int,
            {
                let wr = wave_cell_row(&self.memory_wave, &self.ripple, col as usize, region_h);
                let cell = Cell {
                    col,
                    row: region_h + wr,
                    glyph: '\u{2593}',
                    color: color_at(self.theme, 700),
                };
                proof {
                    assert(cell == spec_wave_cell(*self, col as int));
                }
                cells.push(cell);
                col = col + 1;
            }
        }
        let ghost wave_n = cells@.len() as int - cpu_n;
        proof {
            assert(wave_n == wave_cell_count(*self));
        }
        if self.particles_enabled {
            let mut j: usize = 0;
            while j < self.particles.len()
                invariant
                    self.wf(),
                    j <= self.particles@.len(),
                    cpu_n == cpu_cell_count(*self),
                    wave_n == wave_cell_count(*self),
                    cells@.len() == cpu_n + wave_n + j as int,
                    forall|k: int| 0 <= k < cpu_n ==> cells@[k] == spec_cpu_cell(*self, k),
                    forall|k: int|
                        0 <= k < wave_n ==> cells@[cpu_n + k] == spec_wave_cell(*self, k),
                    forall|k: int|
                        0 <= k < j as int ==> cells@[cpu_n + wave_n + k] == spec_particle_cell(
                            *self,
                            k,
                        ),
                decreases self.particles@.len() - j as int,
            {
                let p = self.particles[j];
                proof {
                    lemma_multiply_divide_lt(p.x as int, 100, self.width as int);
                    lemma_multiply_divide_lt(p.y as int, 100, self.height as int);
                }
                let cx: u16 = ((p.x as u32) / 100) as u16;
                let cy: u16 = ((p.y as u32) / 100) as u16;
                let li: u16 = (p.life * 10) as u16;
                let cell = Cell { col: cx, row: cy, glyph: p.glyph, color: color_at(self.theme, li) };
                proof {
                    assert(cell == spec_particle_cell(*self, j as int));
                }
                cells.push(cell);
                j = j + 1;
            }
        }
        cells
    }
}

} // verus!
