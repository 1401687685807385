//! The closed set of reconstruction filters and the integer facts the
//! plan builder needs about each of them.
use vstd::prelude::*;

verus! {

/// A reconstruction filter, selected by a stable index `0..=38`.
#[derive(Clone, Copy, Debug, PartialEq, Eq, Hash, PartialOrd, Ord)]
pub enum ResamplingFunction {
    Bilinear,
    Nearest,
    Cubic,
    MitchellNetravalli,
    CatmullRom,
    Hermite,
    BSpline,
    Hann,
    Bicubic,
    Hamming,
    Hanning,
    Blackman,
    Welch,
    Quadric,
    Gaussian,
    Sphinx,
    Bartlett,
    Robidoux,
    RobidouxSharp,
    Spline16,
    Spline36,
    Spline64,
    Kaiser,
    BartlettHann,
    Box,
    Bohman,
    Lanczos2,
    Lanczos3,
    Lanczos4,
    Lanczos2Jinc,
    Lanczos3Jinc,
    Lanczos4Jinc,
    Ginseng,
    HaasnSoft,
    Lagrange2,
    Lagrange3,
    Lanczos6,
    Lanczos6Jinc,
    /// Area averaging; on upscaling it follows the two-tap `INTER_AREA` scheme.
    Area,
}

/// The filter with index `value`; unknown indices select `Bilinear`.
pub open spec fn function_of_index(value: u32) -> ResamplingFunction {
    match value {
        0 => ResamplingFunction::Bilinear,
        1 => ResamplingFunction::Nearest,
        2 => ResamplingFunction::Cubic,
        3 => ResamplingFunction::MitchellNetravalli,
        4 => ResamplingFunction::CatmullRom,
        5 => ResamplingFunction::Hermite,
        6 => ResamplingFunction::BSpline,
        7 => ResamplingFunction::Hann,
        8 => ResamplingFunction::Bicubic,
        9 => ResamplingFunction::Hamming,
        10 => ResamplingFunction::Hanning,
        11 => ResamplingFunction::Blackman,
        12 => ResamplingFunction::Welch,
        13 => ResamplingFunction::Quadric,
        14 => ResamplingFunction::Gaussian,
        15 => ResamplingFunction::Sphinx,
        16 => ResamplingFunction::Bartlett,
        17 => ResamplingFunction::Robidoux,
        18 => ResamplingFunction::RobidouxSharp,
        19 => ResamplingFunction::Spline16,
        20 => ResamplingFunction::Spline36,
        21 => ResamplingFunction::Spline64,
        22 => ResamplingFunction::Kaiser,
        23 => ResamplingFunction::BartlettHann,
        24 => ResamplingFunction::Box,
        25 => ResamplingFunction::Bohman,
        26 => ResamplingFunction::Lanczos2,
        27 => ResamplingFunction::Lanczos3,
        28 => ResamplingFunction::Lanczos4,
        29 => ResamplingFunction::Lanczos2Jinc,
        30 => ResamplingFunction::Lanczos3Jinc,
        31 => ResamplingFunction::Lanczos4Jinc,
        32 => ResamplingFunction::Ginseng,
        33 => ResamplingFunction::HaasnSoft,
        34 => ResamplingFunction::Lagrange2,
        35 => ResamplingFunction::Lagrange3,
        36 => ResamplingFunction::Lanczos6,
        37 => ResamplingFunction::Lanczos6Jinc,
        38 => ResamplingFunction::Area,
        _ => ResamplingFunction::Bilinear,
    }
}

impl ResamplingFunction {
    /// The stable index of the filter.
    pub open spec fn spec_index(self) -> u32 {
        match self {
            ResamplingFunction::Bilinear => 0,
            ResamplingFunction::Nearest => 1,
            ResamplingFunction::Cubic => 2,
            ResamplingFunction::MitchellNetravalli => 3,
            ResamplingFunction::CatmullRom => 4,
            ResamplingFunction::Hermite => 5,
            ResamplingFunction::BSpline => 6,
            ResamplingFunction::Hann => 7,
            ResamplingFunction::Bicubic => 8,
            ResamplingFunction::Hamming => 9,
            ResamplingFunction::Hanning => 10,
            ResamplingFunction::Blackman => 11,
            ResamplingFunction::Welch => 12,
            ResamplingFunction::Quadric => 13,
            ResamplingFunction::Gaussian => 14,
            ResamplingFunction::Sphinx => 15,
            ResamplingFunction::Bartlett => 16,
            ResamplingFunction::Robidoux => 17,
            ResamplingFunction::RobidouxSharp => 18,
            ResamplingFunction::Spline16 => 19,
            ResamplingFunction::Spline36 => 20,
            ResamplingFunction::Spline64 => 21,
            ResamplingFunction::Kaiser => 22,
            ResamplingFunction::BartlettHann => 23,
            ResamplingFunction::Box => 24,
            ResamplingFunction::Bohman => 25,
            ResamplingFunction::Lanczos2 => 26,
            ResamplingFunction::Lanczos3 => 27,
            ResamplingFunction::Lanczos4 => 28,
            ResamplingFunction::Lanczos2Jinc => 29,
            ResamplingFunction::Lanczos3Jinc => 30,
            ResamplingFunction::Lanczos4Jinc => 31,
            ResamplingFunction::Ginseng => 32,
            ResamplingFunction::HaasnSoft => 33,
            ResamplingFunction::Lagrange2 => 34,
            ResamplingFunction::Lagrange3 => 35,
            ResamplingFunction::Lanczos6 => 36,
            ResamplingFunction::Lanczos6Jinc => 37,
            ResamplingFunction::Area => 38,
        }
    }

    pub fn index(&self) -> (r: u32)
        ensures
            r == self.spec_index(),
            r <= 38,
            function_of_index(r) == *self,
    {
        match self {
            ResamplingFunction::Bilinear => 0,
            ResamplingFunction::Nearest => 1,
            ResamplingFunction::Cubic => 2,
            ResamplingFunction::MitchellNetravalli => 3,
            ResamplingFunction::CatmullRom => 4,
            ResamplingFunction::Hermite => 5,
            ResamplingFunction::BSpline => 6,
            ResamplingFunction::Hann => 7,
            ResamplingFunction::Bicubic => 8,
            ResamplingFunction::Hamming => 9,
            ResamplingFunction::Hanning => 10,
            ResamplingFunction::Blackman => 11,
            ResamplingFunction::Welch => 12,
            ResamplingFunction::Quadric => 13,
            ResamplingFunction::Gaussian => 14,
            ResamplingFunction::Sphinx => 15,
            ResamplingFunction::Bartlett => 16,
            ResamplingFunction::Robidoux => 17,
            ResamplingFunction::RobidouxSharp => 18,
            ResamplingFunction::Spline16 => 19,
            ResamplingFunction::Spline36 => 20,
            ResamplingFunction::Spline64 => 21,
            ResamplingFunction::Kaiser => 22,
            ResamplingFunction::BartlettHann => 23,
            ResamplingFunction::Box => 24,
            ResamplingFunction::Bohman => 25,
            ResamplingFunction::Lanczos2 => 26,
            ResamplingFunction::Lanczos3 => 27,
            ResamplingFunction::Lanczos4 => 28,
            ResamplingFunction::Lanczos2Jinc => 29,
            ResamplingFunction::Lanczos3Jinc => 30,
            ResamplingFunction::Lanczos4Jinc => 31,
            ResamplingFunction::Ginseng => 32,
            ResamplingFunction::HaasnSoft => 33,
            ResamplingFunction::Lagrange2 => 34,
            ResamplingFunction::Lagrange3 => 35,
            ResamplingFunction::Lanczos6 => 36,
            ResamplingFunction::Lanczos6Jinc => 37,
            ResamplingFunction::Area => 38,
        }
    }

    /// Nominal half-support of the kernel in input samples.
    pub open spec fn spec_min_kernel_size(self) -> u32 {
        match self {
            ResamplingFunction::Hann => 3,
            ResamplingFunction::Spline36 => 4,
            ResamplingFunction::Spline64 => 6,
            ResamplingFunction::Lanczos3 => 3,
            ResamplingFunction::Lanczos4 => 4,
            ResamplingFunction::Lanczos3Jinc => 3,
            ResamplingFunction::Lanczos4Jinc => 4,
            ResamplingFunction::Ginseng => 3,
            ResamplingFunction::HaasnSoft => 3,
            ResamplingFunction::Lagrange3 => 3,
            ResamplingFunction::Lanczos6 => 6,
            ResamplingFunction::Lanczos6Jinc => 6,
            _ => 2,
        }
    }

    pub fn min_kernel_size(&self) -> (r: u32)
        ensures
            r == self.spec_min_kernel_size(),
    {
        match self {
            ResamplingFunction::Hann => 3,
            ResamplingFunction::Spline36 => 4,
            ResamplingFunction::Spline64 => 6,
            ResamplingFunction::Lanczos3 => 3,
            ResamplingFunction::Lanczos4 => 4,
            ResamplingFunction::Lanczos3Jinc => 3,
            ResamplingFunction::Lanczos4Jinc => 4,
            ResamplingFunction::Ginseng => 3,
            ResamplingFunction::HaasnSoft => 3,
            ResamplingFunction::Lagrange3 => 3,
            ResamplingFunction::Lanczos6 => 6,
            ResamplingFunction::Lanczos6Jinc => 6,
            _ => 2,
        }
    }

    /// Whether the support widens with the downscale ratio.
    pub open spec fn spec_is_resizable_kernel(self) -> bool {
        !(self is Spline16 || self is Spline36 || self is Spline64)
    }

    pub fn is_resizable_kernel(&self) -> (r: bool)
        ensures
            r == self.spec_is_resizable_kernel(),
    {
        match self {
            ResamplingFunction::Spline16 => false,
            ResamplingFunction::Spline36 => false,
            ResamplingFunction::Spline64 => false,
            _ => true,
        }
    }

    /// Whether upscaling uses the two-tap area scheme.
    pub open spec fn spec_is_area_filter(self) -> bool {
        self is Area
    }

    pub fn is_area_filter(&self) -> (r: bool)
        ensures
            r == self.spec_is_area_filter(),
    {
        match self {
            ResamplingFunction::Area => true,
            _ => false,
        }
    }

    /// Whether the weights are folded through a separate window function.
    pub open spec fn spec_has_window(self) -> bool {
        self is Ginseng || self is HaasnSoft
    }

    pub fn has_window(&self) -> (r: bool)
        ensures
            r == self.spec_has_window(),
    {
        match self {
            ResamplingFunction::Ginseng => true,
            ResamplingFunction::HaasnSoft => true,
            _ => false,
        }
    }

    pub fn is_nearest(&self) -> (r: bool)
        ensures
            r == (*self is Nearest),
    {
        match self {
            ResamplingFunction::Nearest => true,
            _ => false,
        }
    }
}

impl Default for ResamplingFunction {
    fn default() -> (r: ResamplingFunction)
        ensures
            r == ResamplingFunction::MitchellNetravalli,
    {
        ResamplingFunction::MitchellNetravalli
    }
}

impl From<u32> for ResamplingFunction {
    fn from(value: u32) -> (r: ResamplingFunction)
        ensures
            r == function_of_index(value),
    {
        match value {
            0 => ResamplingFunction::Bilinear,
            1 => ResamplingFunction::Nearest,
            2 => ResamplingFunction::Cubic,
            3 => ResamplingFunction::MitchellNetravalli,
            4 => ResamplingFunction::CatmullRom,
            5 => ResamplingFunction::Hermite,
            6 => ResamplingFunction::BSpline,
            7 => ResamplingFunction::Hann,
            8 => ResamplingFunction::Bicubic,
            9 => ResamplingFunction::Hamming,
            10 => ResamplingFunction::Hanning,
            11 => ResamplingFunction::Blackman,
            12 => ResamplingFunction::Welch,
            13 => ResamplingFunction::Quadric,
            14 => ResamplingFunction::Gaussian,
            15 => ResamplingFunction::Sphinx,
            16 => ResamplingFunction::Bartlett,
            17 => ResamplingFunction::Robidoux,
            18 => ResamplingFunction::RobidouxSharp,
            19 => ResamplingFunction::Spline16,
            20 => ResamplingFunction::Spline36,
            21 => ResamplingFunction::Spline64,
            22 => ResamplingFunction::Kaiser,
            23 => ResamplingFunction::BartlettHann,
            24 => ResamplingFunction::Box,
            25 => ResamplingFunction::Bohman,
            26 => ResamplingFunction::Lanczos2,
            27 => ResamplingFunction::Lanczos3,
            28 => ResamplingFunction::Lanczos4,
            29 => ResamplingFunction::Lanczos2Jinc,
            30 => ResamplingFunction::Lanczos3Jinc,
            31 => ResamplingFunction::Lanczos4Jinc,
            32 => ResamplingFunction::Ginseng,
            33 => ResamplingFunction::HaasnSoft,
            34 => ResamplingFunction::Lagrange2,
            35 => ResamplingFunction::Lagrange3,
            36 => ResamplingFunction::Lanczos6,
            37 => ResamplingFunction::Lanczos6Jinc,
            38 => ResamplingFunction::Area,
            _ => ResamplingFunction::Bilinear,
        }
    }
}

impl vstd::std_specs::convert::FromSpecImpl<u32> for ResamplingFunction {
    open spec fn obeys_from_spec() -> bool {
        true
    }

    open spec fn from_spec(v: u32) -> ResamplingFunction {
        function_of_index(v)
    }
}

} // verus!
