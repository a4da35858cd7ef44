//! The RGBA format: four channels of normalized samples.

use super::sample;
use super::Color;
use super::ImageFormat;
use super::ImageFormatError;
use crate::image::Channel;
use crate::image::Image;
use std::fmt::Debug;
use vstd::prelude::*;

verus! {

/// The channels of an RGBA image.
#[derive(Clone, Debug, Copy, PartialEq, Eq, Hash, Structural)]
pub enum RgbaChannel {
    /// Red channel
    Red,
    /// Green channel
    Green,
    /// Blue channel
    Blue,
    /// Alpha channel
    Alpha,
}

/// A sample that lies outside of the range that a format admits: the sample,
/// the lower and the upper bound of the range, and whether the bounds
/// themselves belong to the range.
#[derive(Debug)]
pub struct InvalidData<T: Debug>(pub T, pub T, pub T, pub bool);

/// An image of red, green, blue and alpha samples. The pixels are stored row
/// by row: the sample of the pixel at `(x, y)` has the index `y * width + x`
/// in each of the four channels.
pub struct RgbaImage {
    image: Image<u32>,
    channels: [bool; 4],
    width: usize,
    height: usize,
}

/// Errors for RGBA images
pub type RgbaImageError = ImageFormatError<RgbaChannel>;

impl RgbaImage {
    /// What holds of every RGBA image: it has its four channels, and the
    /// length of its storage is the number of its pixels.
    #[verifier::type_invariant]
    pub open spec fn inv(&self) -> bool {
        &&& self.storage().channels().len() == 4
        &&& self.storage().spec_len() == self.spec_width() * self.spec_height()
    }

    /// The color made of the default samples: no red, no green, no blue, full
    /// alpha.
    pub open spec fn default_color() -> Color {
        Color { red: sample::ZERO, green: sample::ZERO, blue: sample::ZERO, alpha: sample::ONE }
    }

    /// The name of the channel at index `c` of the image.
    pub open spec fn name_of(c: int) -> RgbaChannel {
        if c == 0 {
            RgbaChannel::Red
        } else if c == 1 {
            RgbaChannel::Green
        } else if c == 2 {
            RgbaChannel::Blue
        } else {
            RgbaChannel::Alpha
        }
    }

    /// Every channel has the length of the storage and holds nothing but the
    /// sample it was created with.
    pub open spec fn is_blank(&self) -> bool {
        &&& self.storage().wf()
        &&& forall|c: int, i: int|
            0 <= c < 4 && 0 <= i < self.storage().channels()[c]@.len()
                ==> #[trigger] self.storage().channels()[c]@[i] == Self::default_sample(
                Self::name_of(c),
            )
    }

    /// What reading the pixel at `(x, y)` gives: the color made of the four
    /// components, or the first reason, in the order out of bounds, red,
    /// green, blue, alpha, why there is none.
    pub open spec fn pixel_at(&self, x: usize, y: usize) -> Result<Color, RgbaImageError> {
        let loc = self.index_of(x, y);
        if !self.in_grid(x, y) {
            Err(ImageFormatError::OutOfBounds(x, y))
        } else if self.component(RgbaChannel::Red, loc) is None {
            Err(ImageFormatError::MissingData(RgbaChannel::Red, x, y))
        } else if self.component(RgbaChannel::Green, loc) is None {
            Err(ImageFormatError::MissingData(RgbaChannel::Green, x, y))
        } else if self.component(RgbaChannel::Blue, loc) is None {
            Err(ImageFormatError::MissingData(RgbaChannel::Blue, x, y))
        } else if self.component(RgbaChannel::Alpha, loc) is None {
            Err(ImageFormatError::MissingData(RgbaChannel::Alpha, x, y))
        } else {
            Ok(
                Color {
                    red: self.component(RgbaChannel::Red, loc).unwrap(),
                    green: self.component(RgbaChannel::Green, loc).unwrap(),
                    blue: self.component(RgbaChannel::Blue, loc).unwrap(),
                    alpha: self.component(RgbaChannel::Alpha, loc).unwrap(),
                },
            )
        }
    }

    /// What storing a pixel at `(x, y)` reports: success, or the first
    /// reason, in the order out of bounds, red, green, blue, alpha, why the
    /// pixel could not be stored in full.
    pub open spec fn set_pixel_result(&self, x: usize, y: usize) -> Result<(), RgbaImageError> {
        let loc = self.index_of(x, y);
        if !self.in_grid(x, y) {
            Err(ImageFormatError::OutOfBounds(x, y))
        } else if !self.holds(RgbaChannel::Red, loc) {
            Err(ImageFormatError::MissingData(RgbaChannel::Red, x, y))
        } else if !self.holds(RgbaChannel::Green, loc) {
            Err(ImageFormatError::MissingData(RgbaChannel::Green, x, y))
        } else if !self.holds(RgbaChannel::Blue, loc) {
            Err(ImageFormatError::MissingData(RgbaChannel::Blue, x, y))
        } else if !self.holds(RgbaChannel::Alpha, loc) {
            Err(ImageFormatError::MissingData(RgbaChannel::Alpha, x, y))
        } else {
            Ok(())
        }
    }

    /// Storing a pixel at `(x, y)` reaches the named channel: the coordinates
    /// lie within the grid, and the channel and each channel before it holds
    /// a sample for the pixel.
    pub open spec fn reaches(&self, c: RgbaChannel, x: usize, y: usize) -> bool {
        let loc = self.index_of(x, y);
        &&& self.in_grid(x, y)
        &&& self.holds(RgbaChannel::Red, loc)
        &&& Self::slot(c) >= 1 ==> self.holds(RgbaChannel::Green, loc)
        &&& Self::slot(c) >= 2 ==> self.holds(RgbaChannel::Blue, loc)
        &&& Self::slot(c) >= 3 ==> self.holds(RgbaChannel::Alpha, loc)
    }

    /// `self` is the image that storing `color` at `(x, y)` makes of
    /// `before`: in each channel that the store reaches, the sample of the
    /// pixel is the stored component, and nothing else differs.
    pub open spec fn is_set_pixel_of(
        &self,
        before: &RgbaImage,
        x: usize,
        y: usize,
        color: Color,
    ) -> bool {
        &&& self.spec_width() == before.spec_width()
        &&& self.spec_height() == before.spec_height()
        &&& self.storage().spec_len() == before.storage().spec_len()
        &&& self.storage().channels().len() == before.storage().channels().len()
        &&& forall|k: RgbaChannel| self.visible(k) == before.visible(k)
        &&& forall|k: RgbaChannel|
            self.storage().channels()[Self::slot(k)].fill()
                == before.storage().channels()[Self::slot(k)].fill()
        &&& forall|k: RgbaChannel| #[trigger]
            self.named_samples(k) == (if before.reaches(k, x, y) {
                before.named_samples(k).update(before.index_of(x, y), Self::stored(color, k))
            } else {
                before.named_samples(k)
            })
    }

    /// The number of rows of the dense snapshot: the length of the shortest
    /// of the four channels.
    pub open spec fn dense_len(&self) -> nat {
        let r = self.named_samples(RgbaChannel::Red).len();
        let g = self.named_samples(RgbaChannel::Green).len();
        let b = self.named_samples(RgbaChannel::Blue).len();
        let a = self.named_samples(RgbaChannel::Alpha).len();
        let rg = if g < r { g } else { r };
        let ba = if a < b { a } else { b };
        if ba < rg { ba } else { rg }
    }

    /// Creates an image of `w` by `h` pixels. The color samples are zero, the
    /// alpha samples are one, and no channel is visible.
    pub fn new(w: usize, h: usize) -> (img: RgbaImage)
        requires
            w * h <= usize::MAX,
        ensures
            img.inv(),
            img.spec_width() == w,
            img.spec_height() == h,
            img.storage().channels().len() == 4,
            img.storage().spec_len() == w * h,
            img.is_blank(),
            img.valid(),
            forall|c: RgbaChannel| !img.visible(c),
            forall|c: RgbaChannel|
                img.storage().channels()[Self::slot(c)].fill() == Self::default_sample(c),
    {
        let mut i = Image::new(w * h);
        i.create_channel(sample::ZERO);
        i.create_channel(sample::ZERO);
        i.create_channel(sample::ZERO);
        i.create_channel(sample::ONE);
        let img = RgbaImage { image: i, channels: [false; 4], width: w, height: h };
        proof {
            img.lemma_blank_image();
        }
        img
    }

    /// The component that a pixel gets from the named channel at index `loc`.
    fn read(&self, c: RgbaChannel, loc: usize) -> (r: Option<u32>)
        ensures
            r == self.component(c, loc as int),
    {
        if self.is_channel_visible(&c) {
            match self.channel(&c).get(loc) {
                Some(stored) => Some(*stored),
                None => None,
            }
        } else {
            match c {
                RgbaChannel::Alpha => Some(sample::ONE),
                _ => Some(sample::ZERO),
            }
        }
    }

    /// Stores `value` at index `loc` of the named channel, if the channel is
    /// long enough, and tells whether it was.
    fn store(&mut self, c: RgbaChannel, loc: usize, value: u32) -> (stored: bool)
        ensures
            stored == old(self).holds(c, loc as int),
            final(self).spec_width() == old(self).spec_width(),
            final(self).spec_height() == old(self).spec_height(),
            final(self).storage().spec_len() == old(self).storage().spec_len(),
            final(self).storage().channels().len() == old(self).storage().channels().len(),
            forall|k: RgbaChannel| final(self).visible(k) == old(self).visible(k),
            forall|k: RgbaChannel|
                final(self).storage().channels()[Self::slot(k)].fill() == old(
                    self,
                ).storage().channels()[Self::slot(k)].fill(),
            forall|k: RgbaChannel| #[trigger]
                final(self).named_samples(k) == (if k == c && stored {
                    old(self).named_samples(k).update(loc as int, value)
                } else {
                    old(self).named_samples(k)
                }),
    {
        proof {
            use_type_invariant(&*self);
        }
        let channel = self.channel_mut(&c);
        match channel.get_mut(loc) {
            Some(slot) => {
                *slot = value;
                true
            },
            None => false,
        }
    }

    /// The index, in the image, of the channel with the given name.
    fn to_channel(c: &RgbaChannel) -> (i: usize)
        ensures
            i == Self::slot(*c),
    {
        match c {
            RgbaChannel::Red => 0,
            RgbaChannel::Green => 1,
            RgbaChannel::Blue => 2,
            RgbaChannel::Alpha => 3,
        }
    }
}

impl ImageFormat<u32> for RgbaImage {
    type ChannelName = RgbaChannel;

    type ValidationError = InvalidData<u32>;

    closed spec fn storage(&self) -> Image<u32> {
        self.image
    }

    open spec fn slot(name: RgbaChannel) -> int {
        match name {
            RgbaChannel::Red => 0,
            RgbaChannel::Green => 1,
            RgbaChannel::Blue => 2,
            RgbaChannel::Alpha => 3,
        }
    }

    open spec fn names() -> Seq<RgbaChannel> {
        seq![RgbaChannel::Red, RgbaChannel::Green, RgbaChannel::Blue, RgbaChannel::Alpha]
    }

    closed spec fn visible(&self, name: RgbaChannel) -> bool {
        self.channels@[Self::slot(name)]
    }

    closed spec fn spec_width(&self) -> usize {
        self.width
    }

    closed spec fn spec_height(&self) -> usize {
        self.height
    }

    open spec fn index_of(&self, x: usize, y: usize) -> int {
        y * self.spec_width() + x
    }

    open spec fn admits(sample: u32) -> bool {
        sample::in_unit_range(sample)
    }

    open spec fn offending(e: InvalidData<u32>) -> u32 {
        e.0
    }

    open spec fn default_sample(name: RgbaChannel) -> u32 {
        match name {
            RgbaChannel::Alpha => sample::ONE,
            _ => sample::ZERO,
        }
    }

    open spec fn stored(color: Color, name: RgbaChannel) -> u32 {
        match name {
            RgbaChannel::Red => color.clamped().0,
            RgbaChannel::Green => color.clamped().1,
            RgbaChannel::Blue => color.clamped().2,
            RgbaChannel::Alpha => color.clamped().3,
        }
    }

    open spec fn composed(components: Seq<u32>) -> Color {
        Color {
            red: components[0],
            green: components[1],
            blue: components[2],
            alpha: components[3],
        }
    }

    fn channel_count(&self) -> (n: usize)
        ensures
            n == 4,
    {
        proof {
            use_type_invariant(self);
        }
        self.image.count()
    }

    fn set_channel_visible(&mut self, c: &RgbaChannel, enabled: bool) {
        proof {
            use_type_invariant(&*self);
        }
        let i = RgbaImage::to_channel(c);
        self.channels[i] = enabled;
    }

    fn is_channel_visible(&self, c: &RgbaChannel) -> (b: bool) {
        self.channels[RgbaImage::to_channel(c)]
    }

    fn channel(&self, c: &RgbaChannel) -> (r: &Channel<u32>) {
        proof {
            use_type_invariant(self);
        }
        self.image.channel(RgbaImage::to_channel(c)).unwrap()
    }

    fn channel_mut(&mut self, c: &RgbaChannel) -> (r: &mut Channel<u32>) {
        proof {
            use_type_invariant(&*self);
        }
        self.image.channel_mut(RgbaImage::to_channel(c)).unwrap()
    }

    fn width(&self) -> (w: usize) {
        self.width
    }

    fn height(&self) -> (h: usize) {
        self.height
    }

    /// Reports the first sample that violates the unit range, where the
    /// channels are gone through one after the other, each from its first
    /// sample on.
    fn validate(&self) -> (r: Result<(), InvalidData<u32>>)
        ensures
            match r {
                Ok(_) => self.valid(),
                Err(e) => exists|c: int, i: int|
                    #![trigger self.first_violation_at(c, i)]
                    self.first_violation_at(c, i) && e == InvalidData(
                        self.storage().channels()[c]@[i],
                        sample::ZERO,
                        sample::ONE,
                        true,
                    ),
            },
    {
        let count = self.image.count();
        let mut c: usize = 0;
        while c < count
            invariant
                c <= count,
                count == self.image.channels().len(),
                forall|c2: int, i2: int| #[trigger] self.violation_at(c2, i2) ==> c <= c2,
            decreases count - c,
        {
            let channel = self.image.channel(c).unwrap();
            let len = channel.len();
            let mut i: usize = 0;
            while i < len
                invariant
                    i <= len,
                    c < count,
                    count == self.image.channels().len(),
                    *channel == self.image.channels()[c as int],
                    len == channel@.len(),
                    forall|c2: int, i2: int| #[trigger]
                        self.violation_at(c2, i2) ==> c < c2 || (c == c2 && i <= i2),
                decreases len - i,
            {
                let value = *channel.get(i).unwrap();
                if !sample::is_in_unit_range(value) {
                    assert(self.first_violation_at(c as int, i as int));
                    return Err(InvalidData(value, sample::ZERO, sample::ONE, true));
                }
                i = i + 1;
            }
            c = c + 1;
        }
        assert forall|c: int, i: int|
            0 <= c < self.storage().channels().len() && 0 <= i
                < self.storage().channels()[c]@.len() implies Self::admits(
            #[trigger] self.storage().channels()[c]@[i],
        ) by {
            assert(!self.violation_at(c, i));
        }
        Ok(())
    }

    /// Reads the pixel at `(x, y)`: from each visible channel its sample, for
    /// each other channel its default sample.
    fn pixel(&self, x: usize, y: usize) -> (r: Result<Color, RgbaImageError>)
        ensures
            r == self.pixel_at(x, y),
    {
        proof {
            use_type_invariant(self);
        }
        if x >= self.width || y >= self.height {
            return Err(ImageFormatError::OutOfBounds(x, y));
        }
        assert(y * self.width + x < self.width * self.height) by (nonlinear_arith)
            requires
                x < self.width,
                y < self.height,
        ;
        let loc = y * self.width + x;
        let red = match self.read(RgbaChannel::Red, loc) {
            Some(red) => red,
            None => { return Err(ImageFormatError::MissingData(RgbaChannel::Red, x, y)); },
        };
        let green = match self.read(RgbaChannel::Green, loc) {
            Some(green) => green,
            None => { return Err(ImageFormatError::MissingData(RgbaChannel::Green, x, y)); },
        };
        let blue = match self.read(RgbaChannel::Blue, loc) {
            Some(blue) => blue,
            None => { return Err(ImageFormatError::MissingData(RgbaChannel::Blue, x, y)); },
        };
        let alpha = match self.read(RgbaChannel::Alpha, loc) {
            Some(alpha) => alpha,
            None => { return Err(ImageFormatError::MissingData(RgbaChannel::Alpha, x, y)); },
        };
        Ok(Color::rgb(red, green, blue, alpha))
    }

    /// Stores the clamped components of the color in the four channels, one
    /// after the other, and stops at the first channel that is too short.
    fn set_pixel(&mut self, x: usize, y: usize, c: Color) -> (r: Result<(), RgbaImageError>)
        ensures
            r == old(self).set_pixel_result(x, y),
            final(self).is_set_pixel_of(old(self), x, y, c),
    {
        proof {
            use_type_invariant(&*self);
        }
        if x >= self.width || y >= self.height {
            return Err(ImageFormatError::OutOfBounds(x, y));
        }
        assert(y * self.width + x < self.width * self.height) by (nonlinear_arith)
            requires
                x < self.width,
                y < self.height,
        ;
        let loc = y * self.width + x;
        let (red, green, blue, alpha) = c.to_pixel();
        if !self.store(RgbaChannel::Red, loc, red) {
            return Err(ImageFormatError::MissingData(RgbaChannel::Red, x, y));
        }
        if !self.store(RgbaChannel::Green, loc, green) {
            return Err(ImageFormatError::MissingData(RgbaChannel::Green, x, y));
        }
        if !self.store(RgbaChannel::Blue, loc, blue) {
            return Err(ImageFormatError::MissingData(RgbaChannel::Blue, x, y));
        }
        if !self.store(RgbaChannel::Alpha, loc, alpha) {
            return Err(ImageFormatError::MissingData(RgbaChannel::Alpha, x, y));
        }
        Ok(())
    }

    /// A row for each index that all four channels have, in index order: the
    /// red, green, blue and alpha samples at that index.
    fn data(&self) -> (out: Vec<Vec<u32>>)
        ensures
            out@.len() == self.dense_len(),
            forall|i: int|
                0 <= i < out@.len() ==> (#[trigger] out@[i])@ == seq![
                    self.named_samples(RgbaChannel::Red)[i],
                    self.named_samples(RgbaChannel::Green)[i],
                    self.named_samples(RgbaChannel::Blue)[i],
                    self.named_samples(RgbaChannel::Alpha)[i],
                ],
    {
        let red = self.channel(&RgbaChannel::Red);
        let green = self.channel(&RgbaChannel::Green);
        let blue = self.channel(&RgbaChannel::Blue);
        let alpha = self.channel(&RgbaChannel::Alpha);
        let rg = if green.len() < red.len() { green.len() } else { red.len() };
        let ba = if alpha.len() < blue.len() { alpha.len() } else { blue.len() };
        let rows = if ba < rg { ba } else { rg };
        let mut out: Vec<Vec<u32>> = Vec::new();
        let mut i: usize = 0;
        while i < rows
            invariant
                i <= rows,
                rows == self.dense_len(),
                *red == self.storage().channels()[0],
                *green == self.storage().channels()[1],
                *blue == self.storage().channels()[2],
                *alpha == self.storage().channels()[3],
                out@.len() == i,
                forall|j: int|
                    0 <= j < i ==> (#[trigger] out@[j])@ == seq![
                        self.named_samples(RgbaChannel::Red)[j],
                        self.named_samples(RgbaChannel::Green)[j],
                        self.named_samples(RgbaChannel::Blue)[j],
                        self.named_samples(RgbaChannel::Alpha)[j],
                    ],
            decreases rows - i,
        {
            let row = vec![
                *red.get(i).unwrap(),
                *green.get(i).unwrap(),
                *blue.get(i).unwrap(),
                *alpha.get(i).unwrap(),
            ];
            out.push(row);
            i = i + 1;
        }
        out
    }
}

impl RgbaImage {
    /// Within the grid, the index of a pixel lies below the number of pixels.
    pub proof fn lemma_index_in_storage(&self, x: usize, y: usize)
        requires
            self.in_grid(x, y),
        ensures
            0 <= self.index_of(x, y) < self.spec_width() * self.spec_height(),
    {
        let w = self.spec_width() as int;
        let h = self.spec_height() as int;
        assert(0 <= y * w + x < w * h) by (nonlinear_arith)
            requires
                0 <= x < w,
                0 <= y < h,
        ;
    }

    /// Two pixels of the grid that share their index are the same pixel.
    pub proof fn lemma_index_injective(&self, x1: usize, y1: usize, x2: usize, y2: usize)
        requires
            self.in_grid(x1, y1),
            self.in_grid(x2, y2),
            self.index_of(x1, y1) == self.index_of(x2, y2),
        ensures
            x1 == x2,
            y1 == y2,
    {
        let w = self.spec_width() as int;
        assert(y1 == y2) by (nonlinear_arith)
            requires
                0 <= x1 < w,
                0 <= x2 < w,
                0 <= y1,
                0 <= y2,
                y1 * w + x1 == y2 * w + x2,
        {
            if y1 < y2 {
                assert((y1 + 1) * w <= y2 * w);
            } else if y2 < y1 {
                assert((y2 + 1) * w <= y1 * w);
            }
        }
    }

    /// The grid ends exactly at its width and its height: a read at `x ==
    /// width` or at `y == height` is out of bounds, and a read within the grid
    /// is not.
    pub proof fn lemma_grid_boundary(&self, x: usize, y: usize)
        ensures
            self.pixel_at(self.spec_width(), y) == Err::<Color, RgbaImageError>(
                ImageFormatError::OutOfBounds(self.spec_width(), y),
            ),
            self.pixel_at(x, self.spec_height()) == Err::<Color, RgbaImageError>(
                ImageFormatError::OutOfBounds(x, self.spec_height()),
            ),
            self.in_grid(x, y) ==> self.pixel_at(x, y) != Err::<Color, RgbaImageError>(
                ImageFormatError::OutOfBounds(x, y),
            ),
            self.spec_width() > 0 && self.spec_height() > 0 ==> self.in_grid(
                (self.spec_width() - 1) as usize,
                (self.spec_height() - 1) as usize,
            ),
    {
    }

    /// An image has at most one first violation, so what `validate` reports
    /// for an image that is not valid is one certain sample.
    pub proof fn lemma_first_violation_unique(&self, c1: int, i1: int, c2: int, i2: int)
        requires
            self.first_violation_at(c1, i1),
            self.first_violation_at(c2, i2),
        ensures
            c1 == c2,
            i1 == i2,
    {
    }

    /// While no channel is visible, every pixel of the grid reads as the
    /// default color, whatever the channels hold.
    pub proof fn lemma_invisible_pixel(&self, x: usize, y: usize)
        requires
            forall|c: RgbaChannel| !self.visible(c),
            self.in_grid(x, y),
        ensures
            self.pixel_at(x, y) == Ok::<Color, RgbaImageError>(Self::default_color()),
    {
    }

    /// A blank image is valid, and every pixel of its grid reads as the
    /// default color, whichever channels are visible.
    pub proof fn lemma_blank_image(&self)
        requires
            self.inv(),
            self.is_blank(),
        ensures
            self.valid(),
            forall|x: usize, y: usize|
                self.in_grid(x, y) ==> #[trigger] self.pixel_at(x, y) == Ok::<
                    Color,
                    RgbaImageError,
                >(Self::default_color()),
    {
        assert forall|c: int, i: int| !#[trigger] self.violation_at(c, i) by {
            if 0 <= c < 4 && 0 <= i < self.storage().channels()[c]@.len() {
                let name = if c == 0 {
                    RgbaChannel::Red
                } else if c == 1 {
                    RgbaChannel::Green
                } else if c == 2 {
                    RgbaChannel::Blue
                } else {
                    RgbaChannel::Alpha
                };
                assert(self.named_samples(name)[i] == Self::default_sample(name));
            }
        }
        assert forall|x: usize, y: usize| self.in_grid(x, y) implies #[trigger] self.pixel_at(x, y)
            == Ok::<Color, RgbaImageError>(Self::default_color()) by {
            self.lemma_index_in_storage(x, y);
            let loc = self.index_of(x, y);
            assert(self.named_samples(RgbaChannel::Red)[loc] == sample::ZERO);
            assert(self.named_samples(RgbaChannel::Green)[loc] == sample::ZERO);
            assert(self.named_samples(RgbaChannel::Blue)[loc] == sample::ZERO);
            assert(self.named_samples(RgbaChannel::Alpha)[loc] == sample::ONE);
        }
    }

    /// In an image whose channels all have the length of the storage, every
    /// pixel of the grid can be read and stored.
    pub proof fn lemma_well_formed_grid(&self, x: usize, y: usize)
        requires
            self.inv(),
            self.storage().wf(),
            self.in_grid(x, y),
        ensures
            self.pixel_at(x, y) is Ok,
            self.set_pixel_result(x, y) is Ok,
            forall|c: RgbaChannel| self.reaches(c, x, y),
    {
        self.lemma_index_in_storage(x, y);
    }

    /// Storing a pixel keeps the length of every channel, and so keeps an
    /// image whose channels all have the length of the storage in that
    /// state.
    pub proof fn lemma_set_pixel_keeps_lengths(
        &self,
        before: &RgbaImage,
        x: usize,
        y: usize,
        color: Color,
    )
        requires
            before.inv(),
            self.is_set_pixel_of(before, x, y, color),
        ensures
            self.inv(),
            forall|k: RgbaChannel| self.named_samples(k).len() == before.named_samples(k).len(),
            before.storage().wf() ==> self.storage().wf(),
    {
        assert forall|k: RgbaChannel| self.named_samples(k).len() == before.named_samples(k).len() by {
            assert(self.named_samples(k) == (if before.reaches(k, x, y) {
                before.named_samples(k).update(before.index_of(x, y), Self::stored(color, k))
            } else {
                before.named_samples(k)
            }));
        }
        if before.storage().wf() {
            assert forall|i: int| 0 <= i < self.storage().channels().len() implies (
            #[trigger] self.storage().channels()[i])@.len() == self.storage().spec_len() by {
                let name = if i == 0 {
                    RgbaChannel::Red
                } else if i == 1 {
                    RgbaChannel::Green
                } else if i == 2 {
                    RgbaChannel::Blue
                } else {
                    RgbaChannel::Alpha
                };
                assert(self.named_samples(name).len() == before.named_samples(name).len());
                assert(before.storage().channels()[i]@.len() == before.storage().spec_len());
            }
        }
    }

    /// A pixel that was stored in full reads back, from each visible channel,
    /// as the clamped component that was stored. With every channel visible
    /// and a color within the unit range, it reads back as that very color.
    pub proof fn lemma_set_pixel_then_pixel(
        &self,
        before: &RgbaImage,
        x: usize,
        y: usize,
        color: Color,
    )
        requires
            self.is_set_pixel_of(before, x, y, color),
            before.set_pixel_result(x, y) is Ok,
        ensures
            self.pixel_at(x, y) is Ok,
            forall|k: RgbaChannel|
                self.component(k, self.index_of(x, y)) == Some(
                    if self.visible(k) {
                        Self::stored(color, k)
                    } else {
                        Self::default_sample(k)
                    },
                ),
            (forall|k: RgbaChannel| before.visible(k)) && color.in_unit_range() ==> self.pixel_at(x, y)
                == Ok::<Color, RgbaImageError>(color),
    {
        let loc = before.index_of(x, y);
        assert forall|k: RgbaChannel|
            self.component(k, self.index_of(x, y)) == Some(
                if self.visible(k) {
                    Self::stored(color, k)
                } else {
                    Self::default_sample(k)
                },
            ) by {
            assert(before.reaches(k, x, y));
            assert(self.named_samples(k) == before.named_samples(k).update(
                loc,
                Self::stored(color, k),
            ));
        }
        assert(self.component(RgbaChannel::Red, loc) is Some);
        assert(self.component(RgbaChannel::Green, loc) is Some);
        assert(self.component(RgbaChannel::Blue, loc) is Some);
        assert(self.component(RgbaChannel::Alpha, loc) is Some);
        if (forall|k: RgbaChannel| before.visible(k)) && color.in_unit_range() {
            assert(self.visible(RgbaChannel::Red) && self.visible(RgbaChannel::Green)
                && self.visible(RgbaChannel::Blue) && self.visible(RgbaChannel::Alpha));
            sample::lemma_clamped(color.red);
            sample::lemma_clamped(color.green);
            sample::lemma_clamped(color.blue);
            sample::lemma_clamped(color.alpha);
        }
    }

    /// Storing a pixel changes no other pixel of the grid.
    pub proof fn lemma_set_pixel_elsewhere(
        &self,
        before: &RgbaImage,
        x: usize,
        y: usize,
        color: Color,
        x2: usize,
        y2: usize,
    )
        requires
            self.is_set_pixel_of(before, x, y, color),
            before.in_grid(x2, y2),
            x2 != x || y2 != y,
        ensures
            self.pixel_at(x2, y2) == before.pixel_at(x2, y2),
    {
        let loc2 = before.index_of(x2, y2);
        assert forall|k: RgbaChannel| self.component(k, loc2) == before.component(k, loc2) by {
            assert(self.named_samples(k) == (if before.reaches(k, x, y) {
                before.named_samples(k).update(before.index_of(x, y), Self::stored(color, k))
            } else {
                before.named_samples(k)
            }));
            if before.reaches(k, x, y) {
                if before.index_of(x, y) == loc2 {
                    before.lemma_index_injective(x, y, x2, y2);
                }
            }
        }
    }

    /// Storing a color within the grid of a valid image leaves the image
    /// valid, since the stored components are clamped.
    pub proof fn lemma_set_pixel_keeps_valid(
        &self,
        before: &RgbaImage,
        x: usize,
        y: usize,
        color: Color,
    )
        requires
            before.inv(),
            before.valid(),
            self.is_set_pixel_of(before, x, y, color),
        ensures
            self.valid(),
    {
        assert forall|c: int, i: int| !#[trigger] self.violation_at(c, i) by {
            if 0 <= c < 4 && 0 <= i < self.storage().channels()[c]@.len() {
                let k = if c == 0 {
                    RgbaChannel::Red
                } else if c == 1 {
                    RgbaChannel::Green
                } else if c == 2 {
                    RgbaChannel::Blue
                } else {
                    RgbaChannel::Alpha
                };
                assert(self.named_samples(k) == (if before.reaches(k, x, y) {
                    before.named_samples(k).update(
                        before.index_of(x, y),
                        Self::stored(color, k),
                    )
                } else {
                    before.named_samples(k)
                }));
                sample::lemma_clamped(color.red);
                sample::lemma_clamped(color.green);
                sample::lemma_clamped(color.blue);
                sample::lemma_clamped(color.alpha);
                assert(!before.violation_at(c, i));
            }
        }
    }
}

} // verus!
