use vstd::prelude::*;

verus! {

use vstd::arithmetic::div_mod::{
    lemma_div_is_ordered,
    lemma_div_multiples_vanish,
    lemma_mod_division_less_than_divisor,
};

/// The closed set of color themes: a warm gradient, a cool gradient, a
/// black-to-green ramp, and a cyclic full-spectrum wheel.
#[derive(Clone, Copy, PartialEq, Eq, Structural, Debug)]
pub enum Theme {
    Fire,
    Ocean,
    Matrix,
    Rainbow,
}

/// An RGB color with eight-bit channels.
#[derive(Clone, Copy, PartialEq, Eq, Structural, Debug)]
pub struct Rgb {
    pub r: u8,
    pub g: u8,
    pub b: u8,
}

/// The bytes of "ocean".
pub open spec fn ocean_name() -> Seq<u8> {
    seq![111u8, 99u8, 101u8, 97u8, 110u8]
}

/// The bytes of "matrix".
pub open spec fn matrix_name() -> Seq<u8> {
    seq![109u8, 97u8, 116u8, 114u8, 105u8, 120u8]
}

/// The bytes of "rainbow".
pub open spec fn rainbow_name() -> Seq<u8> {
    seq![114u8, 97u8, 105u8, 110u8, 98u8, 111u8, 119u8]
}

/// Which theme a textual name denotes; every unrecognized name (and "fire"
/// itself) yields the warm gradient, so theme selection never fails.
pub open spec fn spec_parse_theme(name: Seq<u8>) -> Theme {
    if name == ocean_name() {
        Theme::Ocean
    } else if name == matrix_name() {
        Theme::Matrix
    } else if name == rainbow_name() {
        Theme::Rainbow
    } else {
        Theme::Fire
    }
}

/// Selects the theme named by the given bytes, falling back to the warm
/// gradient on any unrecognized name.
pub fn parse_theme(name: &Vec<u8>) -> (t: Theme)
    ensures
        t == spec_parse_theme(name@),
{
    if name.len() == 5 && name[0] == 111 && name[1] == 99 && name[2] == 101 && name[3] == 97
        && name[4] == 110 {
        proof {
            assert(name@ =~= ocean_name());
        }
        Theme::Ocean
    } else if name.len() == 6 && name[0] == 109 && name[1] == 97 && name[2] == 116
        && name[3] == 114 && name[4] == 105 && name[5] == 120 {
        proof {
            assert(name@ =~= matrix_name());
        }
        Theme::Matrix
    } else if name.len() == 7 && name[0] == 114 && name[1] == 97 && name[2] == 105
        && name[3] == 110 && name[4] == 98 && name[5] == 111 && name[6] == 119 {
        proof {
            assert(name@ =~= rainbow_name());
        }
        Theme::Rainbow
    } else {
        Theme::Fire
    }
}

/// Linear interpolation of one channel: the weighted mean of `a` and `b`
/// at position `num` out of `den`.
pub open spec fn lerp(a: int, b: int, num: int, den: int) -> int {
    (a * (den - num) + b * num) / den
}

/// Channel-wise linear interpolation of two colors.
pub open spec fn lerp_rgb(a: Rgb, b: Rgb, num: int, den: int) -> Rgb {
    Rgb {
        r: lerp(a.r as int, b.r as int, num, den) as u8,
        g: lerp(a.g as int, b.g as int, num, den) as u8,
        b: lerp(a.b as int, b.b as int, num, den) as u8,
    }
}

/// The five stops of the warm and cool gradients, at quarter positions.
pub open spec fn spec_theme_stop(t: Theme, k: int) -> Rgb {
    if t == Theme::Ocean {
        if k <= 0 {
            Rgb { r: 0, g: 8, b: 64 }
        } else if k == 1 {
            Rgb { r: 0, g: 64, b: 128 }
        } else if k == 2 {
            Rgb { r: 0, g: 128, b: 160 }
        } else if k == 3 {
            Rgb { r: 64, g: 192, b: 176 }
        } else {
            Rgb { r: 192, g: 255, b: 224 }
        }
    } else {
        if k <= 0 {
            Rgb { r: 0, g: 0, b: 0 }
        } else if k == 1 {
            Rgb { r: 160, g: 16, b: 0 }
        } else if k == 2 {
            Rgb { r: 255, g: 64, b: 0 }
        } else if k == 3 {
            Rgb { r: 255, g: 160, b: 0 }
        } else {
            Rgb { r: 255, g: 255, b: 96 }
        }
    }
}

/// The stops of the cyclic spectrum wheel; stop six wraps back to stop zero.
pub open spec fn spec_rainbow_stop(k: int) -> Rgb {
    if k <= 0 || k >= 6 {
        Rgb { r: 255, g: 0, b: 0 }
    } else if k == 1 {
        Rgb { r: 255, g: 255, b: 0 }
    } else if k == 2 {
        Rgb { r: 0, g: 255, b: 0 }
    } else if k == 3 {
        Rgb { r: 0, g: 255, b: 255 }
    } else if k == 4 {
        Rgb { r: 0, g: 0, b: 255 }
    } else {
        Rgb { r: 255, g: 0, b: 255 }
    }
}

/// The color of each theme at a per-mille intensity: piecewise linear
/// interpolation between the theme's stops.
pub open spec fn spec_color_at(t: Theme, i: int) -> Rgb
    recommends
        0 <= i <= 1000,
{
    match t {
        Theme::Matrix => lerp_rgb(
            Rgb { r: 0, g: 0, b: 0 },
            Rgb { r: 0, g: 255, b: 0 },
            i,
            1000,
        ),
        Theme::Rainbow => if i >= 1000 {
            spec_rainbow_stop(0)
        } else {
            lerp_rgb(
                spec_rainbow_stop(i * 6 / 1000),
                spec_rainbow_stop(i * 6 / 1000 + 1),
                (i * 6) % 1000,
                1000,
            )
        },
        Theme::Fire | Theme::Ocean => if i >= 1000 {
            spec_theme_stop(t, 4)
        } else {
            lerp_rgb(spec_theme_stop(t, i / 250), spec_theme_stop(t, i / 250 + 1), i % 250, 250)
        },
    }
}

fn theme_stop(t: Theme, k: u32) -> (c: Rgb)
    requires
        k <= 4,
    ensures
        c == spec_theme_stop(t, k as int),
{
    match t {
        Theme::Ocean => {
            if k == 0 {
                Rgb { r: 0, g: 8, b: 64 }
            } else if k == 1 {
                Rgb { r: 0, g: 64, b: 128 }
            } else if k == 2 {
                Rgb { r: 0, g: 128, b: 160 }
            } else if k == 3 {
                Rgb { r: 64, g: 192, b: 176 }
            } else {
                Rgb { r: 192, g: 255, b: 224 }
            }
        },
        _ => {
            if k == 0 {
                Rgb { r: 0, g: 0, b: 0 }
            } else if k == 1 {
                Rgb { r: 160, g: 16, b: 0 }
            } else if k == 2 {
                Rgb { r: 255, g: 64, b: 0 }
            } else if k == 3 {
                Rgb { r: 255, g: 160, b: 0 }
            } else {
                Rgb { r: 255, g: 255, b: 96 }
            }
        },
    }
}

fn rainbow_stop(k: u32) -> (c: Rgb)
    requires
        k <= 6,
    ensures
        c == spec_rainbow_stop(k as int),
{
    if k == 0 || k == 6 {
        Rgb { r: 255, g: 0, b: 0 }
    } else if k == 1 {
        Rgb { r: 255, g: 255, b: 0 }
    } else if k == 2 {
        Rgb { r: 0, g: 255, b: 0 }
    } else if k == 3 {
        Rgb { r: 0, g: 255, b: 255 }
    } else if k == 4 {
        Rgb { r: 0, g: 0, b: 255 }
    } else {
        Rgb { r: 255, g: 0, b: 255 }
    }
}

fn lerp_channel(a: u8, b: u8, num: u32, den: u32) -> (c: u8)
    requires
        0 < den <= 1000,
        num <= den,
    ensures
        c as int == lerp(a as int, b as int, num as int, den as int),
{
    proof {
        assert((a as int) * ((den - num) as int) <= 255 * 1000) by (nonlinear_arith)
            requires
                a <= 255,
                0 <= den - num <= 1000,
        ;
        assert((b as int) * (num as int) <= 255 * 1000) by (nonlinear_arith)
            requires
                b <= 255,
                0 <= num <= 1000,
        ;
    }
    let hi: u32 = (a as u32) * (den - num) + (b as u32) * num;
    proof {
        assert(hi as int <= 255 * (den as int)) by (nonlinear_arith)
            requires
                hi as int == (a as int) * ((den - num) as int) + (b as int) * (num as int),
                a <= 255,
                b <= 255,
                0 <= num <= den,
        ;
        lemma_div_is_ordered(hi as int, 255 * (den as int), den as int);
        lemma_div_multiples_vanish(255, den as int);
    }
    (hi / den) as u8
}

fn lerp_rgb_exec(a: Rgb, b: Rgb, num: u32, den: u32) -> (c: Rgb)
    requires
        0 < den <= 1000,
        num <= den,
    ensures
        c == lerp_rgb(a, b, num as int, den as int),
{
    Rgb {
        r: lerp_channel(a.r, b.r, num, den),
        g: lerp_channel(a.g, b.g, num, den),
        b: lerp_channel(a.b, b.b, num, den),
    }
}

/// The color mapper: maps a per-mille intensity in [0,1000] to an RGB color
/// through the selected theme's gradient. Pure and total on that range, so
/// equal inputs always yield the identical color.
pub fn color_at(theme: Theme, intensity: u16) -> (c: Rgb)
    requires
        intensity <= 1000,
    ensures
        c == spec_color_at(theme, intensity as int),
{
    match theme {
        Theme::Matrix => lerp_rgb_exec(
            Rgb { r: 0, g: 0, b: 0 },
            Rgb { r: 0, g: 255, b: 0 },
            intensity as u32,
            1000,
        ),
        Theme::Rainbow => {
            if intensity >= 1000 {
                rainbow_stop(0)
            } else {
                let pos: u32 = (intensity as u32) * 6;
                let seg: u32 = pos / 1000;
                let num: u32 = pos % 1000;
                proof {
                    lemma_div_is_ordered(pos as int, 5994, 1000);
                    lemma_mod_division_less_than_divisor(pos as int, 1000);
                }
                lerp_rgb_exec(rainbow_stop(seg), rainbow_stop(seg + 1), num, 1000)
            }
        },
        Theme::Fire | Theme::Ocean => {
            if intensity >= 1000 {
                theme_stop(theme, 4)
            } else {
                let seg: u32 = (intensity as u32) / 250;
                let num: u32 = (intensity as u32) % 250;
                proof {
                    lemma_div_is_ordered(intensity as int, 999, 250);
                    lemma_mod_division_less_than_divisor(intensity as int, 250);
                }
                lerp_rgb_exec(theme_stop(theme, seg), theme_stop(theme, seg + 1), num, 250)
            }
        },
    }
}

} // verus!
