//! Tests of the verified rendering core: colour packing, palettes, the
//! framebuffer, and the exactly specified star, orbit and ring draws.

use solar_renderer::color::{blend_channel, blue_channel, green_channel, pack_rgb, red_channel};
use solar_renderer::framebuffer::{clamp_coord, Framebuffer};
use solar_renderer::palette::palette;
use solar_renderer::scene::{scene_commands, Command, HEIGHT, WIDTH};
use solar_renderer::shape::{sample, Shape, ORBIT_COLOR, RING_COLOR, STAR_CORE_COLOR};

const BG: u32 = 0x05050C;

#[test]
fn pack_rgb_layout() {
    assert_eq!(pack_rgb(0, 0, 0), 0);
    assert_eq!(pack_rgb(255, 0, 10), 0xFF000A);
    assert_eq!(pack_rgb(255, 255, 255), 0xFFFFFF);
    assert_eq!(pack_rgb(0x12, 0x34, 0x56), 0x123456);
}

#[test]
fn channels_unpack_what_pack_wrote() {
    let c = pack_rgb(0xAA, 0xBB, 0xCC);
    assert_eq!(red_channel(c), 0xAA);
    assert_eq!(green_channel(c), 0xBB);
    assert_eq!(blue_channel(c), 0xCC);
}

#[test]
fn blend_endpoints() {
    assert_eq!(blend_channel(10, 200, 0, 5), 10);
    assert_eq!(blend_channel(10, 200, 5, 5), 200);
    assert_eq!(blend_channel(200, 10, 0, 5), 200);
    assert_eq!(blend_channel(200, 10, 5, 5), 10);
}

#[test]
fn blend_midpoint_truncates() {
    // 10 + (11 * 1) / 2 = 15 in integer arithmetic.
    assert_eq!(blend_channel(10, 21, 1, 2), 15);
}

#[test]
fn palette_wraps_modulo_four() {
    assert_eq!(palette(false, 4), palette(false, 0));
    assert_eq!(palette(false, 5), palette(false, 1));
    assert_eq!(palette(true, 4), palette(true, 0));
    assert_eq!(palette(true, 7), palette(true, 3));
}

#[test]
fn palette_values() {
    assert_eq!(palette(false, 0), (550, 480, 380));
    assert_eq!(palette(false, 1), (380, 420, 600));
    assert_eq!(palette(false, 2), (650, 620, 500));
    assert_eq!(palette(false, 3), (700, 500, 300));
    assert_eq!(palette(true, 0), (950, 700, 250));
    assert_eq!(palette(true, 1), (450, 700, 950));
    assert_eq!(palette(true, 2), (700, 900, 600));
    assert_eq!(palette(true, 3), (600, 600, 600));
}

#[test]
fn palettes_of_the_two_classes_are_disjoint() {
    for i in 0..4 {
        assert_ne!(palette(false, i), palette(true, i));
    }
}

#[test]
fn new_buffer_is_all_background() {
    let fb = Framebuffer::new(16, 8, BG);
    let s = fb.as_slice();
    assert_eq!(s.len(), 16 * 8);
    assert!(s.iter().all(|&c| c == BG));
    assert_eq!(fb.get_pixel(0, 0), BG);
    assert_eq!(fb.get_pixel(15, 7), BG);
}

#[test]
fn put_pixel_writes_one_pixel() {
    let mut fb = Framebuffer::new(8, 8, BG);
    fb.put_pixel(3, 2, 0xABCDEF);
    assert_eq!(fb.get_pixel(3, 2), 0xABCDEF);
    assert_eq!(fb.get_pixel(2, 3), BG);
    assert_eq!(fb.get_pixel(4, 2), BG);
    assert_eq!(fb.as_slice().iter().filter(|&&c| c == 0xABCDEF).count(), 1);
}

#[test]
fn put_pixel_off_the_buffer_changes_nothing() {
    let mut fb = Framebuffer::new(8, 8, BG);
    fb.put_pixel(8, 0, 0xABCDEF);
    fb.put_pixel(0, 8, 0xABCDEF);
    fb.put_pixel(1000, 1000, 0xABCDEF);
    assert!(fb.as_slice().iter().all(|&c| c == BG));
}

#[test]
fn clamp_coord_restricts_to_buffer() {
    assert_eq!(clamp_coord(-5, 100), 0);
    assert_eq!(clamp_coord(0, 100), 0);
    assert_eq!(clamp_coord(42, 100), 42);
    assert_eq!(clamp_coord(100, 100), 100);
    assert_eq!(clamp_coord(101, 100), 100);
}

#[test]
fn star_core_and_locality() {
    let mut fb = Framebuffer::new(64, 64, BG);
    fb.draw_star(32, 32, 10);
    // The centre and the disc take the core colour.
    assert_eq!(fb.get_pixel(32, 32), STAR_CORE_COLOR);
    assert_eq!(fb.get_pixel(42, 32), STAR_CORE_COLOR);
    assert_eq!(fb.get_pixel(32, 22), STAR_CORE_COLOR);
    // A glow pixel is neither core nor background.
    let glow = fb.get_pixel(47, 32);
    assert_ne!(glow, STAR_CORE_COLOR);
    assert_ne!(glow, BG);
    // Beyond twice the radius nothing changes.
    assert_eq!(fb.get_pixel(53, 32), BG);
    assert_eq!(fb.get_pixel(32, 10), BG);
    assert_eq!(fb.get_pixel(0, 0), BG);
}

#[test]
fn star_glow_exact_value() {
    // Star of radius 10 over a black background; the pixel at distance 14
    // has d^2 = 196, so each channel is core * (400 - 196) / 300.
    let mut fb = Framebuffer::new(128, 128, 0);
    fb.draw_star(50, 50, 10);
    assert_eq!(fb.get_pixel(64, 50), 0xADA588);
    // The same pixel over the scene background blends from its channels.
    let mut fb2 = Framebuffer::new(128, 128, BG);
    fb2.draw_star(50, 50, 10);
    assert_eq!(fb2.get_pixel(64, 50), 0xAFA78B);
}

#[test]
fn star_glow_fades_with_distance() {
    let mut fb = Framebuffer::new(128, 128, 0);
    fb.draw_star(50, 50, 10);
    let near = red_channel(fb.get_pixel(61, 50));
    let far = red_channel(fb.get_pixel(69, 50));
    assert!(near > far);
    assert!(far > 0);
}

#[test]
fn degenerate_radius_draws_nothing() {
    let mut fb = Framebuffer::new(32, 32, BG);
    fb.draw_star(16, 16, 0);
    fb.draw_star(16, 16, -7);
    fb.draw_orbit(16, 16, 0);
    fb.draw_ring(16, 16, -1);
    assert!(fb.as_slice().iter().all(|&c| c == BG));
}

#[test]
fn orbit_is_a_thin_outline() {
    let mut fb = Framebuffer::new(64, 64, BG);
    fb.draw_orbit(32, 32, 10);
    // On the circle and one pixel either side: orbit colour.
    assert_eq!(fb.get_pixel(42, 32), ORBIT_COLOR);
    assert_eq!(fb.get_pixel(41, 32), ORBIT_COLOR);
    assert_eq!(fb.get_pixel(43, 32), ORBIT_COLOR);
    assert_eq!(fb.get_pixel(32, 22), ORBIT_COLOR);
    // The interior and the centre stay untouched.
    assert_eq!(fb.get_pixel(32, 32), BG);
    assert_eq!(fb.get_pixel(36, 32), BG);
    // Far outside stays untouched.
    assert_eq!(fb.get_pixel(60, 32), BG);
}

#[test]
fn later_draw_overwrites_earlier() {
    // An orbit ring, then a star whose core covers the whole band: no
    // orbit-coloured pixel remains.
    let mut fb = Framebuffer::new(64, 64, BG);
    fb.draw_orbit(32, 32, 5);
    assert!(fb.as_slice().iter().any(|&c| c == ORBIT_COLOR));
    fb.draw_star(32, 32, 12);
    assert!(fb.as_slice().iter().all(|&c| c != ORBIT_COLOR));
    assert_eq!(fb.get_pixel(37, 32), STAR_CORE_COLOR);
}

#[test]
fn planet_ring_band() {
    let mut fb = Framebuffer::new(64, 64, BG);
    fb.draw_ring(32, 32, 10);
    // Along the x axis the band runs from 2r to 2.5r.
    assert_eq!(fb.get_pixel(52, 32), RING_COLOR);
    assert_eq!(fb.get_pixel(57, 32), RING_COLOR);
    assert_eq!(fb.get_pixel(58, 32), BG);
    assert_eq!(fb.get_pixel(51, 32), BG);
    // Inside the planet's disc the ring never writes, even where the
    // flattened band would pass.
    assert_eq!(fb.get_pixel(32, 39), BG);
    assert_eq!(fb.get_pixel(32, 32), BG);
}

#[test]
fn sampler_matches_draws() {
    let s = Shape::Star { cx: 32, cy: 32, radius: 10 };
    assert_eq!(sample(&s, BG, 32, 32), Some(STAR_CORE_COLOR));
    assert_eq!(sample(&s, BG, 53, 32), None);
    let o = Shape::Orbit { cx: 32, cy: 32, radius: 10 };
    assert_eq!(sample(&o, BG, 42, 32), Some(ORBIT_COLOR));
    assert_eq!(sample(&o, BG, 32, 32), None);
    let r = Shape::Ring { cx: 32, cy: 32, radius: -3 };
    assert_eq!(sample(&r, BG, 32, 32), None);
}

#[test]
fn scene_has_the_twelve_draws() {
    let cmds = scene_commands();
    assert_eq!(cmds.len(), 12);
    assert_eq!(cmds[0], Command::Star { cx: 512, cy: 320, radius: 90 });
    assert_eq!(cmds[1], Command::Orbit { cx: 512, cy: 320, radius: 160 });
    assert_eq!(cmds[5], Command::Orbit { cx: 512, cy: 320, radius: 490 });
    let orbits = cmds
        .iter()
        .filter(|c| matches!(c, Command::Orbit { .. }))
        .count();
    assert_eq!(orbits, 5);
    assert_eq!(
        cmds[10],
        Command::Body { cx: 112, cy: 380, radius: 40, palette_index: 0, is_gas: true, has_ring: true },
    );
    assert_eq!(
        cmds[11],
        Command::Body { cx: 1002, cy: 270, radius: 55, palette_index: 1, is_gas: true, has_ring: false },
    );
    assert!(WIDTH == 1024 && HEIGHT == 640);
}

#[test]
fn scene_scaffold_star_and_orbits() {
    // Drawing the scene's star and orbit commands in order: the centre is
    // the star's core, the first orbit (drawn after the star) overwrites
    // the glow along its band, and the glow sits between them.
    let mut fb = Framebuffer::new(WIDTH, HEIGHT, BG);
    for cmd in scene_commands() {
        match cmd {
            Command::Star { cx, cy, radius } => fb.draw_star(cx, cy, radius),
            Command::Orbit { cx, cy, radius } => fb.draw_orbit(cx, cy, radius),
            Command::Body { .. } => {}
        }
    }
    assert_eq!(fb.get_pixel(512, 320), STAR_CORE_COLOR);
    assert_eq!(fb.get_pixel(672, 320), ORBIT_COLOR);
    assert_eq!(fb.get_pixel(512, 320 - 230), ORBIT_COLOR);
    let glow = fb.get_pixel(612, 320);
    assert_ne!(glow, STAR_CORE_COLOR);
    assert_ne!(glow, ORBIT_COLOR);
    assert_ne!(glow, BG);
    // A corner far from everything keeps the background.
    assert_eq!(fb.get_pixel(0, 0), BG);
}

#[test]
fn draw_command_draws_stars_and_orbits_only() {
    let mut fb = Framebuffer::new(64, 64, BG);
    let star = Command::Star { cx: 32, cy: 32, radius: 5 };
    assert!(fb.draw_command(&star));
    assert_eq!(fb.get_pixel(32, 32), STAR_CORE_COLOR);
    let body = Command::Body {
        cx: 32,
        cy: 32,
        radius: 5,
        palette_index: 0,
        is_gas: false,
        has_ring: false,
    };
    let before: Vec<u32> = fb.as_slice().to_vec();
    assert!(!fb.draw_command(&body));
    assert_eq!(fb.as_slice(), &before[..]);
}

#[test]
fn colour_constants_match_their_channels() {
    assert_eq!(pack_rgb(255, 244, 200), STAR_CORE_COLOR);
    assert_eq!(pack_rgb(60, 60, 80), ORBIT_COLOR);
    assert_eq!(pack_rgb(180, 160, 120), RING_COLOR);
}
