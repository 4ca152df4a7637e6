//! The fixed scene: one star at the middle of the buffer, five orbit
//! rings, four rocky bodies (one a small moon) and two gas giants, one of
//! them ringed. Positions and radii are in pixels of a 1024 by 640 buffer.

use vstd::prelude::*;
use crate::shape::Shape;

verus! {

/// Width of the picture in pixels.
pub const WIDTH: usize = 1024;

/// Height of the picture in pixels.
pub const HEIGHT: usize = 640;

/// One draw call of the scene, in order. The rasterizer draws stars,
/// orbits and rings itself; a body is shaded pixel by pixel by the surface
/// shader around this crate.
#[derive(Clone, Copy, Debug, PartialEq, Eq, Structural)]
pub enum Command {
    /// Draw the star.
    Star { cx: i64, cy: i64, radius: i64 },
    /// Draw one orbit ring.
    Orbit { cx: i64, cy: i64, radius: i64 },
    /// Draw one planetary body, and its ring when `has_ring` is set.
    Body { cx: i64, cy: i64, radius: i64, palette_index: usize, is_gas: bool, has_ring: bool },
}

/// The shape a command asks the rasterizer to draw by itself: the star and
/// the orbit rings. A body has none: its disc is shaded pixel by pixel
/// outside this crate, though its ring is again the rasterizer's.
pub open spec fn command_shape(c: Command) -> Option<Shape> {
    match c {
        Command::Star { cx, cy, radius } => Some(Shape::Star { cx, cy, radius }),
        Command::Orbit { cx, cy, radius } => Some(Shape::Orbit { cx, cy, radius }),
        Command::Body { .. } => None,
    }
}

/// The machine bounds the rasterizer asks of a command's coordinates.
pub open spec fn command_wf(c: Command) -> bool {
    match c {
        Command::Star { cx, cy, radius } => -1000000 <= cx <= 1000000 && -1000000 <= cy
            <= 1000000 && radius <= 1000000,
        Command::Orbit { cx, cy, radius } => -1000000 <= cx <= 1000000 && -1000000 <= cy
            <= 1000000 && radius <= 1000000,
        Command::Body { .. } => true,
    }
}

/// The command list of the picture: the star, the five orbits, the three
/// rocky planets on the first orbits, a moon beside the first of them, and
/// the two gas giants.
pub open spec fn scene_spec() -> Seq<Command> {
    seq![
        Command::Star { cx: 512, cy: 320, radius: 90 },
        Command::Orbit { cx: 512, cy: 320, radius: 160 },
        Command::Orbit { cx: 512, cy: 320, radius: 230 },
        Command::Orbit { cx: 512, cy: 320, radius: 310 },
        Command::Orbit { cx: 512, cy: 320, radius: 400 },
        Command::Orbit { cx: 512, cy: 320, radius: 490 },
        Command::Body { cx: 672, cy: 350, radius: 20, palette_index: 0, is_gas: false, has_ring: false },
        Command::Body { cx: 282, cy: 270, radius: 20, palette_index: 1, is_gas: false, has_ring: false },
        Command::Body { cx: 822, cy: 280, radius: 20, palette_index: 2, is_gas: false, has_ring: false },
        Command::Body { cx: 712, cy: 330, radius: 8, palette_index: 0, is_gas: false, has_ring: false },
        Command::Body { cx: 112, cy: 380, radius: 40, palette_index: 0, is_gas: true, has_ring: true },
        Command::Body { cx: 1002, cy: 270, radius: 55, palette_index: 1, is_gas: true, has_ring: false },
    ]
}

/// Builds the scene's command list, in draw order.
pub fn scene_commands() -> (cmds: Vec<Command>)
    ensures
        cmds@ == scene_spec(),
{
    let mut cmds: Vec<Command> = Vec::new();
    cmds.push(Command::Star { cx: 512, cy: 320, radius: 90 });
    cmds.push(Command::Orbit { cx: 512, cy: 320, radius: 160 });
    cmds.push(Command::Orbit { cx: 512, cy: 320, radius: 230 });
    cmds.push(Command::Orbit { cx: 512, cy: 320, radius: 310 });
    cmds.push(Command::Orbit { cx: 512, cy: 320, radius: 400 });
    cmds.push(Command::Orbit { cx: 512, cy: 320, radius: 490 });
    cmds.push(
        Command::Body { cx: 672, cy: 350, radius: 20, palette_index: 0, is_gas: false, has_ring: false },
    );
    cmds.push(
        Command::Body { cx: 282, cy: 270, radius: 20, palette_index: 1, is_gas: false, has_ring: false },
    );
    cmds.push(
        Command::Body { cx: 822, cy: 280, radius: 20, palette_index: 2, is_gas: false, has_ring: false },
    );
    cmds.push(
        Command::Body { cx: 712, cy: 330, radius: 8, palette_index: 0, is_gas: false, has_ring: false },
    );
    cmds.push(
        Command::Body { cx: 112, cy: 380, radius: 40, palette_index: 0, is_gas: true, has_ring: true },
    );
    cmds.push(
        Command::Body { cx: 1002, cy: 270, radius: 55, palette_index: 1, is_gas: true, has_ring: false },
    );
    proof {
        assert(cmds@ =~= scene_spec());
    }
    cmds
}

} // verus!
