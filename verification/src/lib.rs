//! A first-person ray-casting renderer over a tile grid, in fixed-point
//! arithmetic, with machine-checked contracts.
//!
//! The renderer draws onto a [`framebuffer::Framebuffer`]. For every column
//! of the surface it casts one ray through the grid ([`caster`]), projects
//! the wall that the ray strikes, paints sky, wall and floor, and records
//! the perpendicular distance of the wall ([`world`]). Sprites are drawn afterwards, the
//! farthest first, each hidden by the walls that are not farther than it is
//! ([`sprite`]). [`frame`] puts the two passes into their order. [`topdown`]
//! draws the grid from above.
//!
//! Every length, angle, gain and time in this crate is a signed 64-bit
//! integer counting ten-thousandths: the value `10_000` stands for one world
//! unit, one radian, a gain of one, or one second ([`fixed`]). Sine, cosine
//! and arctangent are integer polynomials ([`trig`]).
//!
//! Every function states what it returns or changes as a function of its
//! arguments. For a drawing function that is the color of every pixel of the
//! surface after the call, and the current color that it leaves.
//!
//! The fixed-point model computes in machine integers. World coordinates
//! are therefore limited to 100 000 units either side of zero, and a surface
//! to 16 384 pixels each way; nothing else is limited.

pub mod caster;
pub mod color;
pub mod fixed;
pub mod frame;
pub mod framebuffer;
pub mod game;
pub mod line;
pub mod maze;
pub mod player;
pub mod projection;
pub mod shading;
pub mod sprite;
pub mod texture;
pub mod topdown;
pub mod trig;
pub mod vector;
pub mod world;
