use livescope::particle::Particle;
use livescope::scope::Scope;
use livescope::theme::{color_at, Theme};

#[test]
fn scenario_core_history_ramp() {
    // width 80, 4 cores; feed core 0 the ramp 0,25,50,75,100% over 5 ticks
    let ripple: Vec<i16> = Vec::new();
    let mut scope = Scope::new(80, 30, 4, Theme::Fire, false, &ripple);
    for v in [0u16, 2500, 5000, 7500, 10000] {
        let usages = vec![v, 0, 0, 0];
        scope.update(&usages, 0, 1);
    }
    let core0 = &scope.cpu_history[0];
    assert_eq!(core0.len(), 80);
    assert_eq!(core0.value_at(75), 0);
    assert_eq!(core0.value_at(76), 2500);
    assert_eq!(core0.value_at(77), 5000);
    assert_eq!(core0.value_at(78), 7500);
    assert_eq!(core0.value_at(79), 10000);
    // the other cores saw only zeros
    assert_eq!(scope.cpu_history[3].value_at(79), 0);
}

#[test]
fn scenario_disabled_particles_stay_empty() {
    let ripple: Vec<i16> = Vec::new();
    let mut scope = Scope::new(40, 20, 2, Theme::Matrix, false, &ripple);
    for _ in 0..1000 {
        let usages = vec![1000, 2000];
        scope.update(&usages, 1, 2);
        assert_eq!(scope.particles.len(), 0);
    }
}

#[test]
fn toggling_clears_and_resumes_from_empty() {
    let ripple: Vec<i16> = Vec::new();
    let mut scope = Scope::new(40, 20, 1, Theme::Ocean, true, &ripple);
    scope.particles.push(Particle { x: 100, y: 100, vx: 0, vy: 10, life: 100, glyph: '\u{25C6}' });
    scope.particles.push(Particle { x: 200, y: 300, vx: 10, vy: 20, life: 50, glyph: '\u{2606}' });
    scope.toggle_particles();
    assert!(!scope.particles_enabled);
    assert_eq!(scope.particles.len(), 0, "turning off clears the collection");
    scope.toggle_particles();
    assert!(scope.particles_enabled);
    assert_eq!(scope.particles.len(), 0, "turning back on restores nothing");
}

#[test]
fn keys_quit_and_toggle() {
    let ripple: Vec<i16> = Vec::new();
    let mut scope = Scope::new(10, 10, 1, Theme::Fire, true, &ripple);
    scope.handle_key('x');
    assert!(scope.running);
    assert!(scope.particles_enabled);
    scope.handle_key('p');
    assert!(scope.running);
    assert!(!scope.particles_enabled);
    scope.handle_key('q');
    assert!(!scope.running);
}

#[test]
fn spawned_particles_stay_in_documented_ranges() {
    let ripple: Vec<i16> = Vec::new();
    let mut scope = Scope::new(10, 50, 1, Theme::Fire, true, &ripple);
    let glyphs = ['\u{25CF}', '\u{25CB}', '\u{25C6}', '\u{25C7}', '\u{2605}', '\u{2606}'];
    let mut saw_spawn = false;
    for _ in 0..500 {
        let before = scope.particles.len();
        let usages = vec![5000];
        scope.update(&usages, 1, 2);
        if scope.particles.len() > before {
            saw_spawn = true;
            let p = scope.particles.last().unwrap();
            assert!(p.x >= 0 && p.x < 1000, "x within the 10-cell width: {}", p.x);
            assert_eq!(p.y, 0);
            assert!(p.vx >= -50 && p.vx <= 49, "vx in [-0.5,0.5): {}", p.vx);
            assert!(p.vy >= 10 && p.vy <= 49, "vy in [0.1,0.5): {}", p.vy);
            assert_eq!(p.life, 100);
            assert!(glyphs.contains(&p.glyph));
        }
        for p in &scope.particles {
            assert!(p.life > 0);
            assert!(p.x >= 0 && p.x < 1000);
            assert!(p.y >= 0 && p.y < 5000);
        }
    }
    assert!(saw_spawn, "with p=0.3 per tick, 500 ticks must spawn");
}

#[test]
fn frame_layout_row_major_then_wave_then_particles() {
    // width 4, height 9: a 3-row CPU region and a 3-row wave region
    let ripple: Vec<i16> = vec![0, 3, -3, 0];
    let mut scope = Scope::new(4, 9, 1, Theme::Matrix, false, &ripple);
    let cells = scope.render_frame();
    assert_eq!(cells.len(), 12 + 4);
    // CPU region in row-major order, all zero intensity: blank glyphs
    for row in 0..3u16 {
        for col in 0..4u16 {
            let cell = &cells[(row * 4 + col) as usize];
            assert_eq!((cell.col, cell.row), (col, row));
            assert_eq!(cell.glyph, ' ');
            assert_eq!(cell.color, color_at(Theme::Matrix, 0));
        }
    }
    // one wave marker per column; zero memory, so the base row is 0 and only
    // the clamped ripple moves it, below the 3-row CPU region
    let expected_rows = [3u16, 5, 3, 3];
    for col in 0..4usize {
        let cell = &cells[12 + col];
        assert_eq!(cell.col, col as u16);
        assert_eq!(cell.row, expected_rows[col]);
        assert_eq!(cell.glyph, '\u{2593}');
        assert_eq!(cell.color, color_at(Theme::Matrix, 700));
    }
    // a live particle adds exactly one trailing cell at its truncated cell
    scope.particles_enabled = true;
    scope.particles.push(Particle { x: 250, y: 120, vx: 0, vy: 10, life: 60, glyph: '\u{2605}' });
    let cells = scope.render_frame();
    assert_eq!(cells.len(), 12 + 4 + 1);
    let p = &cells[16];
    assert_eq!((p.col, p.row), (2, 1));
    assert_eq!(p.glyph, '\u{2605}');
    assert_eq!(p.color, color_at(Theme::Matrix, 600));
}

#[test]
fn info_stats_aggregate() {
    let ripple: Vec<i16> = Vec::new();
    let mut scope = Scope::new(8, 9, 2, Theme::Fire, true, &ripple);
    let usages = vec![3000, 4000];
    scope.update(&usages, 1, 4);
    let stats = scope.info_stats();
    assert_eq!(stats.avg_cpu_centi, 3500);
    assert_eq!(stats.mem_permille, 250);
    assert_eq!(stats.particle_count, scope.particles.len());
    assert!(stats.particles_enabled);
}

#[test]
fn degenerate_screen_never_fails() {
    let ripple: Vec<i16> = Vec::new();
    let mut scope = Scope::new(0, 0, 0, Theme::Rainbow, true, &ripple);
    for _ in 0..10 {
        let usages: Vec<u16> = Vec::new();
        scope.update(&usages, 0, 0);
    }
    let cells = scope.render_frame();
    assert_eq!(cells.len(), 0);
    let stats = scope.info_stats();
    assert_eq!(stats.avg_cpu_centi, 0);
    assert_eq!(stats.mem_permille, 0);
}
