//! The kernel's description of a framebuffer's screen.

use vstd::prelude::*;

verus! {

/// Where one color channel sits within a pixel.
#[allow(non_camel_case_types)]
#[derive(Clone, Copy, Default, Debug)]
pub struct fb_bitfield {
    /// Offset in bits from the right of the pixel.
    pub offset: u32,
    /// Length in bits.
    pub length: u32,
    /// Whether the most significant bit is at the right; 0 on modern systems.
    pub msb_right: u32,
}

/// The variable screen information of a framebuffer.
#[allow(non_camel_case_types)]
#[derive(Clone, Copy, Default, Debug)]
pub struct fb_var_screeninfo {
    /// Resolution of the screen along the x axis.
    pub xres: u32,
    /// Resolution of the screen along the y axis.
    pub yres: u32,
    pub xres_virtual: u32,
    pub yres_virtual: u32,
    pub xoffset: u32,
    pub yoffset: u32,
    /// Number of bits in one pixel.
    pub bits_per_pixel: u32,
    /// Whether the framebuffer is grayscale; 0 on modern systems.
    pub grayscale: u32,
    /// Place of the red channel.
    pub red: fb_bitfield,
    /// Place of the green channel.
    pub green: fb_bitfield,
    /// Place of the blue channel.
    pub blue: fb_bitfield,
    /// Place of the alpha channel.
    pub transp: fb_bitfield,
    pub nonstd: u32,
    pub activate: u32,
    /// Height of the screen in millimetres.
    pub height: u32,
    /// Width of the screen in millimetres.
    pub width: u32,
    pub accel_flags: u32,
    pub pixclock: u32,
    pub left_margin: u32,
    pub right_margin: u32,
    pub upper_margin: u32,
    pub lower_margin: u32,
    pub hsync_len: u32,
    pub vsync_len: u32,
    pub sync: u32,
    pub vmode: u32,
    pub rotate: u32,
    pub colorspace: u32,
    pub reserved: [u32; 4],
}

impl fb_var_screeninfo {
    /// The size of the screen's memory in bytes.
    pub open spec fn size_in_bytes(self) -> int {
        self.xres * self.yres * self.bits_per_pixel / 8
    }

    /// The size of the screen's memory in bytes.
    pub fn overall_size(&self) -> (size: usize)
        requires
            self.xres * self.yres <= u32::MAX,
            self.xres * self.yres * self.bits_per_pixel <= u32::MAX,
        ensures
            size == self.size_in_bytes(),
    {
        (self.xres * self.yres * self.bits_per_pixel / 8) as usize
    }

    /// The size of the screen's memory in bytes, or `None` where the number
    /// of pixels or of bits does not fit in 32 bits.
    pub fn checked_overall_size(&self) -> (size: Option<usize>)
        ensures
            size == if self.xres * self.yres <= u32::MAX && self.xres * self.yres
                * self.bits_per_pixel <= u32::MAX {
                Some(self.size_in_bytes() as usize)
            } else {
                None
            },
    {
        match self.xres.checked_mul(self.yres) {
            Some(pixels) => match pixels.checked_mul(self.bits_per_pixel) {
                Some(_) => Some(self.overall_size()),
                None => None,
            },
            None => None,
        }
    }
}

} // verus!
