use vstd::prelude::*;

verus! {

use vstd::arithmetic::div_mod::{lemma_div_is_ordered, lemma_multiply_divide_lt};
use crate::history::History;
use crate::theme::Rgb;

/// One drawn screen cell: where, which glyph, and in which color.
#[derive(Clone, Copy, PartialEq, Eq, Structural, Debug)]
pub struct Cell {
    pub col: u16,
    pub row: u16,
    pub glyph: char,
    pub color: Rgb,
}

/// The contents of every per-core history window, oldest column first.
pub open spec fn views_of(hists: Seq<History>) -> Seq<Seq<u16>> {
    hists.map_values(|h: History| h@)
}

/// The density band of a per-mille intensity: eight bands, everything at or
/// beyond full scale falling into the solid top band.
pub open spec fn band_of(i: int) -> int {
    if i * 8 / 1000 > 7 {
        7
    } else {
        i * 8 / 1000
    }
}

/// The glyph drawn for each density band, ordered light to solid; band seven
/// is the solid block.
pub open spec fn glyph_for_band(b: int) -> char {
    if b <= 0 {
        ' '
    } else if b == 1 {
        '\u{2591}'
    } else if b == 2 {
        '\u{2592}'
    } else if b == 3 {
        '\u{2593}'
    } else if b == 4 {
        '\u{2580}'
    } else if b == 5 {
        '\u{2584}'
    } else if b == 6 {
        '\u{258C}'
    } else {
        '\u{2588}'
    }
}

pub open spec fn spec_pattern_glyph(i: int) -> char {
    glyph_for_band(band_of(i))
}

/// Buckets a per-mille intensity into one of the eight density glyphs.
pub fn pattern_glyph(intensity: u16) -> (c: char)
    ensures
        c == spec_pattern_glyph(intensity as int),
{
    let band: u32 = (intensity as u32) * 8 / 1000;
    if band == 0 {
        ' '
    } else if band == 1 {
        '\u{2591}'
    } else if band == 2 {
        '\u{2592}'
    } else if band == 3 {
        '\u{2593}'
    } else if band == 4 {
        '\u{2580}'
    } else if band == 5 {
        '\u{2584}'
    } else if band == 6 {
        '\u{258C}'
    } else {
        '\u{2588}'
    }
}

/// Law: glyph bucketing is monotone — a higher intensity never falls into a
/// lower density band — and every intensity at or above full scale maps to
/// the solid block.
pub proof fn lemma_glyph_band_monotone(i1: int, i2: int)
    requires
        0 <= i1 <= i2,
    ensures
        band_of(i1) <= band_of(i2),
        i1 >= 1000 ==> spec_pattern_glyph(i1) == '\u{2588}',
{
    lemma_div_is_ordered(i1 * 8, i2 * 8, 1000);
    if i1 >= 1000 {
        lemma_div_is_ordered(8000, i1 * 8, 1000);
        assert(8000int / 1000int == 8);
    }
}

/// Which core a row of the CPU region shows: rows are spread over the cores
/// proportionally, clamped to the last core.
pub open spec fn spec_core_index(row: int, cores: int, region_h: int) -> int
    recommends
        cores > 0,
        region_h > 0,
{
    let idx = row * cores / region_h;
    if idx > cores - 1 {
        cores - 1
    } else {
        idx
    }
}

/// A raw centi-percent usage sample as a per-mille intensity, clamped to
/// full scale.
pub open spec fn spec_usage_intensity(raw: int) -> int {
    if raw > 10000 {
        1000
    } else {
        raw / 10
    }
}

/// The intensity shown at one cell of the CPU region: the selected core's
/// history at the cell's column. Degenerate states — no cores, an empty
/// region, a column beyond the window — read as zero intensity.
pub open spec fn spec_cpu_intensity(hists: Seq<Seq<u16>>, col: int, row: int, region_h: int) -> int {
    if hists.len() == 0 || region_h <= 0 {
        0
    } else {
        let ci = spec_core_index(row, hists.len() as int, region_h);
        if 0 <= col < hists[ci].len() {
            spec_usage_intensity(hists[ci][col] as int)
        } else {
            0
        }
    }
}

/// Reads the intensity for a CPU-region cell out of the history windows.
pub fn cpu_cell_intensity(hists: &Vec<History>, col: usize, row: u16, region_h: u16) -> (v: u16)
    ensures
        v as int == spec_cpu_intensity(views_of(hists@), col as int, row as int, region_h as int),
        v <= 1000,
{
    let n = hists.len();
    if n == 0 || region_h == 0 {
        return 0;
    }
    proof {
        assert((row as int) * (n as int) <= 65535 * (usize::MAX as int)) by (nonlinear_arith)
            requires
                row <= 65535,
                n <= usize::MAX as int,
        ;
    }
    let scaled: u128 = (row as u128) * (n as u128) / (region_h as u128);
    let ci: usize = if scaled > (n - 1) as u128 {
        n - 1
    } else {
        scaled as usize
    };
    let raw = hists[ci].value_at(col);
    proof {
        assert(views_of(hists@)[ci as int] == hists@[ci as int]@);
    }
    if raw > 10000 {
        1000
    } else {
        raw / 10
    }
}

/// The row, within the memory region, where a column's wave marker sits: the
/// column's normalized memory fraction scaled to the region, shifted by the
/// fixed decorative ripple, clamped into the region. Degenerate inputs read
/// as the middle of the region, or zero when the region has no rows.
pub open spec fn spec_wave_row(wave: Seq<u16>, ripple: Seq<i16>, col: int, region_h: int) -> int {
    if region_h <= 0 {
        0
    } else if !(0 <= col && col < wave.len() && col < ripple.len()) {
        region_h / 2
    } else {
        let v = if wave[col] > 1000 {
            1000int
        } else {
            wave[col] as int
        };
        let base = v * region_h / 1000;
        let off = base + ripple[col];
        if off < 0 {
            0
        } else if off > region_h - 1 {
            region_h - 1
        } else {
            off
        }
    }
}

/// Computes the wave marker row for one column of the memory region.
pub fn wave_cell_row(wave: &History, ripple: &Vec<i16>, col: usize, region_h: u16) -> (r: u16)
    ensures
        r as int == spec_wave_row(wave@, ripple@, col as int, region_h as int),
        region_h > 0 ==> r < region_h,
{
    if region_h == 0 {
        return 0;
    }
    if col >= wave.len() || col >= ripple.len() {
        return region_h / 2;
    }
    let raw = wave.value_at(col);
    let v: u32 = if raw > 1000 {
        1000
    } else {
        raw as u32
    };
    proof {
        assert((v as int) * (region_h as int) <= 1000 * 65535) by (nonlinear_arith)
            requires
                v <= 1000,
                region_h <= 65535,
        ;
        lemma_div_is_ordered((v as int) * (region_h as int), 65535000int, 1000);
    }
    let base: i32 = ((v * (region_h as u32)) / 1000) as i32;
    let off: i32 = base + (ripple[col] as i32);
    if off < 0 {
        0
    } else if off > (region_h as i32) - 1 {
        region_h - 1
    } else {
        off as u16
    }
}

/// The used fraction of memory, in per-mille. A zero total reads as zero
/// rather than failing; more used than total saturates at full scale.
pub open spec fn spec_memory_permille(used: u64, total: u64) -> int {
    if total == 0 {
        0
    } else if used >= total {
        1000
    } else {
        used as int * 1000 / total as int
    }
}

/// Normalizes a used/total memory pair to a per-mille fraction.
pub fn memory_permille(used: u64, total: u64) -> (v: u16)
    ensures
        v as int == spec_memory_permille(used, total),
        v <= 1000,
{
    if total == 0 {
        0
    } else if used >= total {
        1000
    } else {
        let q: u128 = ((used as u128) * 1000) / (total as u128);
        proof {
            assert((used as int) * 1000 < (total as int) * 1000) by (nonlinear_arith)
                requires
                    used < total,
            ;
            lemma_multiply_divide_lt((used as int) * 1000, total as int, 1000);
        }
        q as u16
    }
}

} // verus!
