use vstd::prelude::*;

verus! {

/// Width of the screen in pixels.
pub const SCREEN_WIDTH: u16 = 64;

/// Height of the screen in pixels.
pub const SCREEN_HEIGHT: u16 = 32;

/// Number of pixels, one byte each.
pub const SCREEN_PIXELS: usize = 2048;

/// The monochrome frame buffer: one byte per pixel, row-major, pixel
/// `(x, y)` at index `x + 64 * y`; zero is off and any other value on.
#[derive(Debug, Clone, Copy)]
pub struct Display {
    /// The pixel bytes.
    pub memory: [u8; 2048],
}

impl Display {
    /// A blank screen.
    pub fn new() -> (r: Self)
        ensures
            r.memory@ == Seq::new(SCREEN_PIXELS as nat, |k: int| 0u8),
    {
        let r = Display { memory: [0u8; 2048] };
        assert(r.memory@ =~= Seq::new(SCREEN_PIXELS as nat, |k: int| 0u8));
        r
    }

    /// Turns every pixel off.
    pub fn clear(&mut self)
        ensures
            final(self).memory@ == Seq::new(SCREEN_PIXELS as nat, |k: int| 0u8),
    {
        let mut k: usize = 0;
        while k < SCREEN_PIXELS
            invariant
                k <= SCREEN_PIXELS,
                self.memory@.len() == SCREEN_PIXELS,
                forall|a: int| 0 <= a < k ==> self.memory@[a] == 0,
            decreases SCREEN_PIXELS - k,
        {
            self.memory[k] = 0;
            k = k + 1;
        }
        assert(self.memory@ =~= Seq::new(SCREEN_PIXELS as nat, |k: int| 0u8));
    }
}

} // verus!
