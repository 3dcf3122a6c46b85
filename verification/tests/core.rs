use livescope::history::History;
use livescope::particle::{step_particles, Particle};
use livescope::remaining_wait;
use livescope::render::{cpu_cell_intensity, memory_permille, pattern_glyph, wave_cell_row};
use livescope::theme::{color_at, parse_theme, Rgb, Theme};

fn glyph_band(c: char) -> usize {
    let glyphs = [
        ' ', '\u{2591}', '\u{2592}', '\u{2593}', '\u{2580}', '\u{2584}', '\u{258C}', '\u{2588}',
    ];
    glyphs.iter().position(|&g| g == c).expect("unknown glyph")
}

#[test]
fn history_keeps_width_and_rotates() {
    let mut h = History::new(5);
    assert_eq!(h.len(), 5);
    for v in 1..=7u16 {
        h.push(v);
        assert_eq!(h.len(), 5);
    }
    // seven pushes into a width-5 window: only the 5 most recent remain
    assert_eq!(h.value_at(0), 3);
    assert_eq!(h.value_at(1), 4);
    assert_eq!(h.value_at(2), 5);
    assert_eq!(h.value_at(3), 6);
    assert_eq!(h.value_at(4), 7);
    // out-of-range columns read as zero
    assert_eq!(h.value_at(5), 0);
}

#[test]
fn history_zero_width_stays_empty() {
    let mut h = History::new(0);
    h.push(42);
    assert_eq!(h.len(), 0);
    assert_eq!(h.value_at(0), 0);
}

#[test]
fn particle_fall_matches_closed_form() {
    // a particle at x=10 cells, vy=0.1 cells/tick, gravity 0.1, decay 0.02:
    // after 10 ticks y = 10*10 + 5*10*9 = 550 (5.5 cells), life = 80 (0.8)
    let mut ps = vec![Particle { x: 1000, y: 0, vx: 0, vy: 10, life: 100, glyph: '\u{25CF}' }];
    for _ in 0..10 {
        step_particles(&mut ps, 600, 600);
    }
    assert_eq!(ps.len(), 1);
    assert_eq!(ps[0].y, 550);
    assert_eq!(ps[0].life, 80);
    assert_eq!(ps[0].vy, 110);
    assert_eq!(ps[0].x, 1000);
}

#[test]
fn particle_survives_exactly_fifty_ticks() {
    let mut ps = vec![Particle { x: 1000, y: 0, vx: 0, vy: 10, life: 100, glyph: '\u{2605}' }];
    for tick in 1..=49 {
        step_particles(&mut ps, 65535, 65535);
        assert_eq!(ps.len(), 1, "still alive at tick {}", tick);
        assert_eq!(ps[0].life, 100 - 2 * tick);
    }
    step_particles(&mut ps, 65535, 65535);
    assert_eq!(ps.len(), 0, "purged at tick 50");
}

#[test]
fn particle_purged_when_out_of_bounds() {
    // vx carries the particle past the right edge of a 3-cell screen
    let mut ps = vec![Particle { x: 250, y: 0, vx: 30, vy: 10, life: 100, glyph: '\u{25CB}' }];
    step_particles(&mut ps, 3, 100);
    assert_eq!(ps.len(), 1);
    assert_eq!(ps[0].x, 280);
    step_particles(&mut ps, 3, 100);
    assert_eq!(ps.len(), 0);
}

#[test]
fn pacing_never_negative() {
    assert_eq!(remaining_wait(16, 10), 6);
    assert_eq!(remaining_wait(16, 16), 0);
    assert_eq!(remaining_wait(16, 20), 0);
    assert_eq!(remaining_wait(0, 5), 0);
}

#[test]
fn theme_names_parse_with_fallback() {
    assert_eq!(parse_theme(&b"fire".to_vec()), Theme::Fire);
    assert_eq!(parse_theme(&b"ocean".to_vec()), Theme::Ocean);
    assert_eq!(parse_theme(&b"matrix".to_vec()), Theme::Matrix);
    assert_eq!(parse_theme(&b"rainbow".to_vec()), Theme::Rainbow);
    assert_eq!(parse_theme(&b"banana".to_vec()), Theme::Fire);
    assert_eq!(parse_theme(&b"".to_vec()), Theme::Fire);
    assert_eq!(parse_theme(&b"Ocean".to_vec()), Theme::Fire);
}

#[test]
fn color_mapper_pure_and_total() {
    let themes = [Theme::Fire, Theme::Ocean, Theme::Matrix, Theme::Rainbow];
    for t in themes {
        for i in 0..=1000u16 {
            let a = color_at(t, i);
            let b = color_at(t, i);
            assert_eq!(a, b);
        }
    }
}

#[test]
fn color_mapper_exact_values() {
    assert_eq!(color_at(Theme::Matrix, 0), Rgb { r: 0, g: 0, b: 0 });
    assert_eq!(color_at(Theme::Matrix, 500), Rgb { r: 0, g: 127, b: 0 });
    assert_eq!(color_at(Theme::Matrix, 1000), Rgb { r: 0, g: 255, b: 0 });
    assert_eq!(color_at(Theme::Fire, 0), Rgb { r: 0, g: 0, b: 0 });
    assert_eq!(color_at(Theme::Fire, 1000), Rgb { r: 255, g: 255, b: 96 });
    // the spectrum wheel is cyclic: full scale wraps back to red
    assert_eq!(color_at(Theme::Rainbow, 0), Rgb { r: 255, g: 0, b: 0 });
    assert_eq!(color_at(Theme::Rainbow, 1000), Rgb { r: 255, g: 0, b: 0 });
    // midpoint of the first warm segment: halfway from black to dark red
    assert_eq!(color_at(Theme::Fire, 125), Rgb { r: 80, g: 8, b: 0 });
}

#[test]
fn glyph_bucketing_monotone_and_saturates() {
    let mut prev = 0usize;
    for i in 0..=1000u16 {
        let band = glyph_band(pattern_glyph(i));
        assert!(band >= prev, "band fell from {} to {} at intensity {}", prev, band, i);
        prev = band;
    }
    assert_eq!(pattern_glyph(0), ' ');
    assert_eq!(pattern_glyph(124), ' ');
    assert_eq!(pattern_glyph(125), '\u{2591}');
    assert_eq!(pattern_glyph(1000), '\u{2588}');
    assert_eq!(pattern_glyph(65535), '\u{2588}');
}

#[test]
fn memory_permille_normalizes() {
    assert_eq!(memory_permille(0, 0), 0);
    assert_eq!(memory_permille(5, 0), 0);
    assert_eq!(memory_permille(1, 2), 500);
    assert_eq!(memory_permille(3, 4), 750);
    assert_eq!(memory_permille(5, 4), 1000);
    assert_eq!(memory_permille(u64::MAX - 1, u64::MAX), 999);
}

#[test]
fn cpu_intensity_maps_rows_to_cores() {
    let mut core0 = History::new(4);
    let mut core1 = History::new(4);
    for _ in 0..4 {
        core0.push(2500); // 25%
        core1.push(10000); // 100%
    }
    let hists = vec![core0, core1];
    // region of 4 rows over 2 cores: rows 0,1 show core 0; rows 2,3 core 1
    assert_eq!(cpu_cell_intensity(&hists, 0, 0, 4), 250);
    assert_eq!(cpu_cell_intensity(&hists, 0, 1, 4), 250);
    assert_eq!(cpu_cell_intensity(&hists, 0, 2, 4), 1000);
    assert_eq!(cpu_cell_intensity(&hists, 0, 3, 4), 1000);
    // out-of-range column and degenerate shapes read as zero
    assert_eq!(cpu_cell_intensity(&hists, 9, 0, 4), 0);
    assert_eq!(cpu_cell_intensity(&hists, 0, 0, 0), 0);
    let none: Vec<History> = Vec::new();
    assert_eq!(cpu_cell_intensity(&none, 0, 0, 4), 0);
}

#[test]
fn cpu_intensity_clamps_overrange_samples() {
    let mut core0 = History::new(1);
    core0.push(12000); // a sample above 100% saturates at full intensity
    let hists = vec![core0];
    assert_eq!(cpu_cell_intensity(&hists, 0, 0, 1), 1000);
}

#[test]
fn wave_row_clamps_into_region() {
    let mut wave = History::new(3);
    wave.push(0);
    wave.push(500);
    wave.push(1000);
    let ripple: Vec<i16> = vec![-3, 3, 0];
    // base rows are 0, 5, 10 in a 10-row region
    assert_eq!(wave_cell_row(&wave, &ripple, 0, 10), 0); // 0 - 3 clamps to 0
    assert_eq!(wave_cell_row(&wave, &ripple, 1, 10), 8); // 5 + 3
    assert_eq!(wave_cell_row(&wave, &ripple, 2, 10), 9); // 10 clamps to 9
    // a column beyond the window sits mid-region
    assert_eq!(wave_cell_row(&wave, &ripple, 7, 10), 5);
    // a region with no rows reads as zero
    assert_eq!(wave_cell_row(&wave, &ripple, 0, 0), 0);
}
