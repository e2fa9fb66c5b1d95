use vstd::prelude::*;

verus! {

/// One captured frame: `width * height` pixels of four bytes each
/// (blue, green, red, unused), row-major.
pub struct ScreenShot {
    pub width: u16,
    pub height: u16,
    pub data: Vec<u8>,
}

impl ScreenShot {
    /// A frame is well formed when its buffer holds exactly one four-byte
    /// pixel per position and both sides are non-empty.
    pub open spec fn wf(&self) -> bool {
        &&& self.width > 0
        &&& self.height > 0
        &&& self.data@.len() == self.width as int * self.height as int * 4
    }
}

/// Width and height of a framebuffer, in pixels.
#[derive(Clone, Copy, Debug, PartialEq, Eq, Structural)]
pub struct Resolution {
    pub width: u16,
    pub height: u16,
}

/// How a pixel value is laid out on the wire.
#[derive(Clone, Copy, Debug, PartialEq, Eq, Structural)]
pub struct PixelFormat {
    pub bits_per_pixel: u8,
    pub depth: u8,
    pub big_endian: bool,
    pub true_color_flag: u8,
    pub red_max: u16,
    pub green_max: u16,
    pub blue_max: u16,
    pub red_shift: u8,
    pub green_shift: u8,
    pub blue_shift: u8,
}

/// Number of bits needed to write `m` in binary.
pub open spec fn bit_width(m: nat) -> nat
    decreases m,
{
    if m == 0 {
        0
    } else {
        1 + bit_width(m / 2)
    }
}

/// A channel fits when its shifted maximum stays inside the pixel.
pub open spec fn channel_fits(max: u16, shift: u8, bpp: u8) -> bool {
    shift as nat + bit_width(max as nat) <= bpp as nat
}

impl PixelFormat {
    /// The formats this server accepts from a client: 8, 16 or 32 bits per
    /// pixel, a depth no larger than that, and every colour channel inside
    /// the pixel.
    pub open spec fn valid(&self) -> bool {
        &&& (self.bits_per_pixel == 8 || self.bits_per_pixel == 16 || self.bits_per_pixel == 32)
        &&& self.depth <= self.bits_per_pixel
        &&& channel_fits(self.red_max, self.red_shift, self.bits_per_pixel)
        &&& channel_fits(self.green_max, self.green_shift, self.bits_per_pixel)
        &&& channel_fits(self.blue_max, self.blue_shift, self.bits_per_pixel)
    }

    /// The layout of captured frames: 32 bits per pixel, depth 24,
    /// little-endian true colour with 8 bits per channel, red highest.
    pub open spec fn native_spec() -> PixelFormat {
        PixelFormat {
            bits_per_pixel: 32,
            depth: 24,
            big_endian: false,
            true_color_flag: 1,
            red_max: 255,
            green_max: 255,
            blue_max: 255,
            red_shift: 16,
            green_shift: 8,
            blue_shift: 0,
        }
    }

    pub fn native() -> (r: PixelFormat)
        ensures
            r == Self::native_spec(),
            r.valid(),
    {
        proof {
            lemma_bit_width_255();
        }
        PixelFormat {
            bits_per_pixel: 32,
            depth: 24,
            big_endian: false,
            true_color_flag: 1,
            red_max: 255,
            green_max: 255,
            blue_max: 255,
            red_shift: 16,
            green_shift: 8,
            blue_shift: 0,
        }
    }

    /// Checks the format against the rules of `valid`.
    pub fn is_valid(&self) -> (r: bool)
        ensures
            r == self.valid(),
    {
        let bpp = self.bits_per_pixel;
        (bpp == 8 || bpp == 16 || bpp == 32) && self.depth <= bpp
            && fits(self.red_max, self.red_shift, bpp)
            && fits(self.green_max, self.green_shift, bpp)
            && fits(self.blue_max, self.blue_shift, bpp)
    }
}

proof fn lemma_bit_width_255()
    ensures
        bit_width(255) == 8,
{
    reveal_with_fuel(bit_width, 9);
}

proof fn lemma_bit_width_u16(m: nat)
    requires
        m < 65536,
    ensures
        bit_width(m) <= 16,
{
    reveal_with_fuel(pow2, 17);
    assert(pow2(16) == 65536);
    lemma_bit_width_half_gen(m, 16);
}

proof fn lemma_bit_width_half_gen(m: nat, k: nat)
    requires
        m < pow2(k),
    ensures
        bit_width(m) <= k,
    decreases m,
{
    if m > 0 {
        assert(pow2(0) == 1);
        assert(k > 0);
        assert(pow2(k) == 2 * pow2((k - 1) as nat));
        lemma_bit_width_half_gen(m / 2, (k - 1) as nat);
    }
}

pub open spec fn pow2(k: nat) -> nat
    decreases k,
{
    if k == 0 {
        1
    } else {
        2 * pow2((k - 1) as nat)
    }
}

/// Number of bits needed to write `m` in binary.
fn bits_of(m: u16) -> (r: u8)
    ensures
        r as nat == bit_width(m as nat),
{
    proof {
        lemma_bit_width_u16(m as nat);
    }
    let mut v: u16 = m;
    let mut n: u8 = 0;
    while v > 0
        invariant
            n as nat + bit_width(v as nat) == bit_width(m as nat),
            bit_width(m as nat) <= 16,
        decreases v,
    {
        v = v / 2;
        n = n + 1;
    }
    n
}

fn fits(max: u16, shift: u8, bpp: u8) -> (r: bool)
    ensures
        r == channel_fits(max, shift, bpp),
{
    let b = bits_of(max);
    (shift as u16) + (b as u16) <= bpp as u16
}

/// What the server tells a client once the handshake is done.
pub struct ServerInit {
    pub resolution: Resolution,
    pub pixel_format: PixelFormat,
    pub name: String,
}

impl ServerInit {
    /// The 16-bit true-colour format (five bits per channel) that
    /// `ServerInit::new` advertises.
    pub open spec fn rgb555_spec() -> PixelFormat {
        PixelFormat {
            bits_per_pixel: 16,
            depth: 16,
            big_endian: false,
            true_color_flag: 1,
            red_max: 0x1f,
            green_max: 0x1f,
            blue_max: 0x1f,
            red_shift: 0xa,
            green_shift: 0x5,
            blue_shift: 0,
        }
    }

    /// A server-init for a `width` by `height` screen named `name`, in the
    /// 16-bit format of `rgb555_spec`.
    pub fn new(width: u16, height: u16, name: String) -> (r: Self)
        ensures
            r.resolution == (Resolution { width, height }),
            r.pixel_format == Self::rgb555_spec(),
            r.name@ == name@,
    {
        Self {
            resolution: Resolution { width, height },
            pixel_format: PixelFormat {
                bits_per_pixel: 16,
                depth: 16,
                big_endian: false,
                true_color_flag: 1,
                red_max: 0x1f,
                green_max: 0x1f,
                blue_max: 0x1f,
                red_shift: 0xa,
                green_shift: 0x5,
                blue_shift: 0,
            },
            name,
        }
    }
}

} // verus!
