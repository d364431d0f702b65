//! The tray icon, drawn from code: a disc in the colour of the state, with
//! an upward arrow on it when updates are waiting.
use vstd::prelude::*;

verus! {

/// What the icon tells the user.
#[derive(Debug, Clone, Copy, PartialEq, Eq, Structural)]
pub enum IconState {
    /// Everything installed is current.
    Idle,
    /// One or more packages are behind.
    Updates,
    /// A check or an update is running.
    Busy,
    /// The last check failed.
    Error,
}

/// The icon is `SIZE` by `SIZE` pixels.
pub const SIZE: u32 = 32;

/// The colour of a state, as red, green, blue and alpha: emerald, amber,
/// sky blue and red.
pub open spec fn color_of(state: IconState) -> Seq<u8> {
    match state {
        IconState::Idle => seq![0x10u8, 0xb9u8, 0x81u8, 0xffu8],
        IconState::Updates => seq![0xf5u8, 0x9eu8, 0x0bu8, 0xffu8],
        IconState::Busy => seq![0x38u8, 0xbdu8, 0xf8u8, 0xffu8],
        IconState::Error => seq![0xefu8, 0x44u8, 0x44u8, 0xffu8],
    }
}

pub open spec fn white() -> Seq<u8> {
    seq![0xffu8, 0xffu8, 0xffu8, 0xffu8]
}

pub open spec fn clear() -> Seq<u8> {
    seq![0u8, 0u8, 0u8, 0u8]
}

/// The pixel at `x`, `y` lies on the disc: its centre is at most 15 pixels
/// from the icon's centre, (15.5, 15.5). Doubled, that is
/// `(2x - 31)² + (2y - 31)² <= 30²`.
pub open spec fn in_disc(x: int, y: int) -> bool {
    (2 * x - 31) * (2 * x - 31) + (2 * y - 31) * (2 * y - 31) <= 900
}

/// The pixel at `x`, `y` lies on the arrow: a head that widens by one pixel
/// each side per row from its tip at (16, 8), over a shaft six pixels wide.
pub open spec fn in_arrow(x: int, y: int) -> bool {
    ||| (8 <= y < 17 && 16 - (y - 8) <= x <= 16 + (y - 8))
    ||| (17 <= y < 25 && 13 <= x < 19)
}

/// The colour of the pixel at `x`, `y`: the arrow in white over the disc
/// when updates are waiting, the disc in the state's colour, and clear
/// around it.
pub open spec fn pixel_of(state: IconState, x: int, y: int) -> Seq<u8> {
    if state == IconState::Updates && in_arrow(x, y) {
        white()
    } else if in_disc(x, y) {
        color_of(state)
    } else {
        clear()
    }
}

/// Channel `k` of pixel `p` of an RGBA buffer laid out row by row.
pub open spec fn channel(buffer: Seq<u8>, p: int, k: int) -> u8 {
    buffer[4 * p + k]
}

pub fn color(state: IconState) -> (c: [u8; 4])
    ensures
        c@ == color_of(state),
{
    let c = match state {
        IconState::Idle => [0x10u8, 0xb9u8, 0x81u8, 0xffu8],
        IconState::Updates => [0xf5u8, 0x9eu8, 0x0bu8, 0xffu8],
        IconState::Busy => [0x38u8, 0xbdu8, 0xf8u8, 0xffu8],
        IconState::Error => [0xefu8, 0x44u8, 0x44u8, 0xffu8],
    };
    assert(c@ =~= color_of(state));
    c
}

fn on_disc(x: u32, y: u32) -> (b: bool)
    requires
        x < SIZE,
        y < SIZE,
    ensures
        b == in_disc(x as int, y as int),
{
    let dx: i32 = 2 * (x as i32) - 31;
    let dy: i32 = 2 * (y as i32) - 31;
    assert(dx * dx <= 961) by (nonlinear_arith)
        requires
            -31 <= dx <= 31,
    ;
    assert(dy * dy <= 961) by (nonlinear_arith)
        requires
            -31 <= dy <= 31,
    ;
    assert(dx * dx >= 0) by (nonlinear_arith);
    assert(dy * dy >= 0) by (nonlinear_arith);
    dx * dx + dy * dy <= 900
}

fn on_arrow(x: u32, y: u32) -> (b: bool)
    requires
        x < SIZE,
        y < SIZE,
    ensures
        b == in_arrow(x as int, y as int),
{
    (8 <= y && y < 17 && 16 - (y - 8) <= x && x <= 16 + (y - 8)) || (17 <= y && y < 25 && 13 <= x
        && x < 19)
}

/// The colour of the pixel at `x`, `y`.
pub fn pixel(state: IconState, x: u32, y: u32) -> (c: [u8; 4])
    requires
        x < SIZE,
        y < SIZE,
    ensures
        c@ == pixel_of(state, x as int, y as int),
{
    if state == IconState::Updates && on_arrow(x, y) {
        let c = [0xffu8, 0xffu8, 0xffu8, 0xffu8];
        assert(c@ =~= white());
        c
    } else if on_disc(x, y) {
        color(state)
    } else {
        let c = [0u8, 0u8, 0u8, 0u8];
        assert(c@ =~= clear());
        c
    }
}

/// The icon as `SIZE * SIZE` RGBA pixels, row by row from the top.
pub fn pixels(state: IconState) -> (buffer: Vec<u8>)
    ensures
        buffer@.len() == SIZE * SIZE * 4,
        forall|p: int, k: int|
            0 <= p < SIZE * SIZE && 0 <= k < 4 ==> #[trigger] channel(buffer@, p, k) == pixel_of(
                state,
                p % (SIZE as int),
                p / (SIZE as int),
            )[k],
{
    let mut buffer: Vec<u8> = Vec::new();
    let mut y: u32 = 0;
    while y < SIZE
        invariant
            y <= SIZE,
            buffer@.len() == 128 * y,
            forall|p: int, k: int|
                0 <= p < 32 * y && 0 <= k < 4 ==> #[trigger] channel(buffer@, p, k) == pixel_of(
                    state,
                    p % (SIZE as int),
                    p / (SIZE as int),
                )[k],
        decreases SIZE - y,
    {
        let mut x: u32 = 0;
        while x < SIZE
            invariant
                y < SIZE,
                x <= SIZE,
                buffer@.len() == 4 * (32 * y + x),
                forall|p: int, k: int|
                    0 <= p < 32 * y + x && 0 <= k < 4 ==> #[trigger] channel(buffer@, p, k)
                        == pixel_of(state, p % (SIZE as int), p / (SIZE as int))[k],
            decreases SIZE - x,
        {
            let c = pixel(state, x, y);
            let ghost before = buffer@;
            let ghost q: int = 32 * y + x;
            buffer.push(c[0]);
            buffer.push(c[1]);
            buffer.push(c[2]);
            buffer.push(c[3]);
            assert(q % (SIZE as int) == x && q / (SIZE as int) == y) by (nonlinear_arith)
                requires
                    q == 32 * y + x,
                    0 <= x < 32,
                    SIZE == 32,
            ;
            assert forall|p: int, k: int|
                0 <= p < q + 1 && 0 <= k < 4 implies #[trigger] channel(buffer@, p, k) == pixel_of(
                    state,
                    p % (SIZE as int),
                    p / (SIZE as int),
                )[k] by {
                if p < q {
                    assert(channel(buffer@, p, k) == channel(before, p, k));
                } else {
                    assert(channel(buffer@, p, k) == c@[k]);
                }
            }
            x = x + 1;
        }
        y = y + 1;
    }
    buffer
}

} // verus!
