use vstd::prelude::*;

verus! {

/// How the samples of a raster are laid out: four bytes per pixel (red, green,
/// blue, alpha) or a single luminance byte per pixel.
#[derive(Debug, Clone, Copy, PartialEq, Eq, Structural)]
pub enum PixelLayout {
    Rgba8,
    Luma8,
}

impl PixelLayout {
    /// Bytes per pixel.
    pub open spec fn channels(self) -> nat {
        match self {
            PixelLayout::Rgba8 => 4,
            PixelLayout::Luma8 => 1,
        }
    }
}

/// The mathematical content of a raster: its size, its layout and its samples
/// in row-major order.
pub ghost struct RasterView {
    pub width: nat,
    pub height: nat,
    pub layout: PixelLayout,
    pub data: Seq<u8>,
}

impl RasterView {
    /// The sample buffer holds exactly one pixel per position.
    pub open spec fn wf(self) -> bool {
        self.data.len() == self.width * self.height * self.layout.channels()
    }

    /// Whether the raster has no pixels.
    pub open spec fn is_empty(self) -> bool {
        self.width == 0 || self.height == 0
    }

    /// The raster with no pixels.
    pub open spec fn empty() -> RasterView {
        RasterView { width: 0, height: 0, layout: PixelLayout::Rgba8, data: Seq::empty() }
    }

    /// The same picture with four bytes per pixel: a luminance `l` becomes the
    /// opaque grey `(l, l, l, 255)`.
    pub open spec fn to_rgba(self) -> RasterView {
        match self.layout {
            PixelLayout::Rgba8 => self,
            PixelLayout::Luma8 => RasterView {
                width: self.width,
                height: self.height,
                layout: PixelLayout::Rgba8,
                data: Seq::new(
                    self.data.len() * 4,
                    |i: int| if i % 4 == 3 { 255u8 } else { self.data[i / 4] },
                ),
            },
        }
    }
}

/// A decoded image held in memory.
#[derive(Debug)]
pub struct Raster {
    pub(crate) width: u32,
    pub(crate) height: u32,
    pub(crate) layout: PixelLayout,
    pub(crate) data: Vec<u8>,
}

impl View for Raster {
    type V = RasterView;

    closed spec fn view(&self) -> RasterView {
        RasterView {
            width: self.width as nat,
            height: self.height as nat,
            layout: self.layout,
            data: self.data@,
        }
    }
}

/// Whether `width * height * channels` is the length of a buffer that memory can hold.
pub open spec fn fits_in_memory(width: int, height: int, channels: int) -> bool {
    width * height * channels <= usize::MAX
}

/// The number of samples of a `width` by `height` raster, when a buffer can be that long.
pub fn sample_count(width: u32, height: u32, layout: PixelLayout) -> (r: Option<usize>)
    ensures
        match r {
            Some(n) => n == width * height * layout.channels(),
            None => !fits_in_memory(width as int, height as int, layout.channels() as int),
        },
{
    let channels: u128 = match layout {
        PixelLayout::Rgba8 => 4,
        PixelLayout::Luma8 => 1,
    };
    assert(width * height <= 0xffff_ffff * 0xffff_ffff) by (nonlinear_arith)
        requires
            0 <= width <= 0xffff_ffff,
            0 <= height <= 0xffff_ffff,
    ;
    let pixels: u128 = (width as u128) * (height as u128);
    assert(pixels * channels <= 0xffff_ffff * 0xffff_ffff * 4) by (nonlinear_arith)
        requires
            0 <= pixels <= 0xffff_ffff * 0xffff_ffff,
            0 <= channels <= 4,
    ;
    let total: u128 = pixels * channels;
    if total <= usize::MAX as u128 {
        Some(total as usize)
    } else {
        None
    }
}

impl Raster {
    #[verifier::type_invariant]
    spec fn well_formed(self) -> bool {
        self.data@.len() == self.width * self.height * self.layout.channels()
    }

    /// The raster with no pixels.
    pub fn new() -> (r: Self)
        ensures
            r@ == RasterView::empty(),
    {
        Raster { width: 0, height: 0, layout: PixelLayout::Rgba8, data: Vec::new() }
    }

    /// A raster over the given samples, if there is exactly one pixel per position.
    pub fn from_raw(width: u32, height: u32, layout: PixelLayout, data: Vec<u8>) -> (r: Option<Self>)
        ensures
            match r {
                Some(raster) => raster@ == (RasterView {
                    width: width as nat,
                    height: height as nat,
                    layout,
                    data: data@,
                }) && raster@.wf(),
                None => data@.len() != width * height * layout.channels(),
            },
    {
        let len = data.len();
        match sample_count(width, height, layout) {
            Some(n) => {
                if len == n {
                    Some(Raster { width, height, layout, data })
                } else {
                    None
                }
            },
            None => None,
        }
    }

    pub fn width(&self) -> (r: u32)
        ensures
            r == self@.width,
            self@.wf(),
    {
        proof {
            use_type_invariant(self);
        }
        self.width
    }

    pub fn height(&self) -> (r: u32)
        ensures
            r == self@.height,
            self@.wf(),
    {
        proof {
            use_type_invariant(self);
        }
        self.height
    }

    pub fn layout(&self) -> (r: PixelLayout)
        ensures
            r == self@.layout,
    {
        self.layout
    }

    /// The samples in row-major order.
    pub fn samples(&self) -> (r: &Vec<u8>)
        ensures
            r@ == self@.data,
            self@.wf(),
    {
        proof {
            use_type_invariant(self);
        }
        &self.data
    }

    /// A copy of this raster.
    pub fn duplicate(&self) -> (r: Self)
        ensures
            r@ == self@,
            r@.wf(),
    {
        proof {
            use_type_invariant(self);
        }
        let data = self.data.clone();
        assert(data@ =~= self.data@);
        Raster { width: self.width, height: self.height, layout: self.layout, data }
    }

    /// The same picture with four bytes per pixel.
    pub fn to_rgba(&self) -> (r: Self)
        ensures
            r@ == self@.to_rgba(),
            r@.wf(),
    {
        proof {
            use_type_invariant(self);
        }
        match self.layout {
            PixelLayout::Rgba8 => self.duplicate(),
            PixelLayout::Luma8 => {
                let n = self.data.len();
                let mut out: Vec<u8> = Vec::new();
                let mut i: usize = 0;
                while i < n
                    invariant
                        n == self.data@.len(),
                        i <= n,
                        out@.len() == i * 4,
                        forall|k: int|
                            0 <= k < out@.len() ==> out@[k] == (if k % 4 == 3 {
                                255u8
                            } else {
                                self.data@[k / 4]
                            }),
                    decreases n - i,
                {
                    let l = self.data[i];
                    out.push(l);
                    out.push(l);
                    out.push(l);
                    out.push(255u8);
                    i = i + 1;
                }
                assert(out@ =~= self@.to_rgba().data);
                assert(self.width * self.height * 4 == n * 4) by (nonlinear_arith)
                    requires
                        n == self.width * self.height * 1,
                ;
                Raster { width: self.width, height: self.height, layout: PixelLayout::Rgba8, data: out }
            },
        }
    }
}

} // verus!
