//! Image formats: how the channels of an image are to be read as pixels.

pub mod rgba;
pub mod sample;

use crate::image::Channel;
use crate::image::Image;
use std::fmt::Debug;
use vstd::prelude::*;

verus! {

/// Why a pixel could not be read or written.
#[derive(Debug, PartialEq, Eq, Structural)]
pub enum ImageFormatError<C> {
    /// The coordinates `(x, y)` lie outside of the pixel grid.
    OutOfBounds(usize, usize),
    /// The named channel holds no sample for the pixel at `(x, y)`.
    MissingData(C, usize, usize),
}

/// A color with transparency: the red, green, blue and alpha components as
/// normalized samples (see [`sample`]).
#[derive(Debug, Clone, Copy, PartialEq, Eq, Structural)]
pub struct Color {
    pub red: u32,
    pub green: u32,
    pub blue: u32,
    pub alpha: u32,
}

impl Color {
    /// The color with the given components.
    pub fn rgb(red: u32, green: u32, blue: u32, alpha: u32) -> (c: Color)
        ensures
            c == (Color { red, green, blue, alpha }),
    {
        Color { red, green, blue, alpha }
    }

    /// The components in the order red, green, blue, alpha, each clamped to
    /// the unit range.
    pub open spec fn clamped(&self) -> (u32, u32, u32, u32) {
        (
            sample::clamped(self.red),
            sample::clamped(self.green),
            sample::clamped(self.blue),
            sample::clamped(self.alpha),
        )
    }

    /// No component violates the unit range.
    pub open spec fn in_unit_range(&self) -> bool {
        &&& sample::in_unit_range(self.red)
        &&& sample::in_unit_range(self.green)
        &&& sample::in_unit_range(self.blue)
        &&& sample::in_unit_range(self.alpha)
    }

    /// Decomposes the color into its components, in the order red, green,
    /// blue, alpha, each clamped to the unit range.
    pub fn to_pixel(&self) -> (p: (u32, u32, u32, u32))
        ensures
            p == self.clamped(),
    {
        (
            sample::clamp(self.red),
            sample::clamp(self.green),
            sample::clamp(self.blue),
            sample::clamp(self.alpha),
        )
    }
}

impl Color {
    /// Decomposing a color gives components within the unit range, and gives
    /// back the components that the color was made of if those lie within
    /// the unit range already.
    pub proof fn lemma_decompose(&self)
        ensures
            (Color {
                red: self.clamped().0,
                green: self.clamped().1,
                blue: self.clamped().2,
                alpha: self.clamped().3,
            }).in_unit_range(),
            self.in_unit_range() <==> self.clamped() == (
                self.red,
                self.green,
                self.blue,
                self.alpha,
            ),
    {
        sample::lemma_clamped(self.red);
        sample::lemma_clamped(self.green);
        sample::lemma_clamped(self.blue);
        sample::lemma_clamped(self.alpha);
    }
}

/// A way to read the channels of an image as a grid of pixels.
///
/// A format owns an image, gives each of its channel names one channel of
/// that image, and keeps for each name a flag that says whether reading a
/// pixel looks at the channel.
pub trait ImageFormat<T: Clone + Debug> {
    /// The names of the channels that the format knows.
    type ChannelName;

    /// What `validate` reports for a sample that the format does not admit.
    type ValidationError;

    /// The image that holds the samples.
    spec fn storage(&self) -> Image<T>;

    /// The channel names, in the order in which the format goes through
    /// them.
    spec fn names() -> Seq<Self::ChannelName>;

    /// The index, in the image, of the channel with the given name.
    spec fn slot(name: Self::ChannelName) -> int;

    /// Whether reading a pixel looks at the channel with the given name.
    spec fn visible(&self, name: Self::ChannelName) -> bool;

    /// The number of pixels in a row.
    spec fn spec_width(&self) -> usize;

    /// The number of rows.
    spec fn spec_height(&self) -> usize;

    /// The index, in each named channel, of the sample of the pixel at
    /// `(x, y)`.
    spec fn index_of(&self, x: usize, y: usize) -> int;

    /// Whether the format admits the sample.
    spec fn admits(sample: T) -> bool;

    /// The sample that a validation error reports.
    spec fn offending(e: Self::ValidationError) -> T;

    /// The component that stands for the named channel in a pixel while the
    /// channel is not visible.
    spec fn default_sample(name: Self::ChannelName) -> T;

    /// The component of the color that a store puts into the named channel.
    spec fn stored(color: Color, name: Self::ChannelName) -> T;

    /// The color made of one component for each name, in the order of the
    /// names.
    spec fn composed(components: Seq<T>) -> Color;

    /// The samples of the channel with the given name.
    open spec fn named_samples(&self, name: Self::ChannelName) -> Seq<T> {
        self.storage().channels()[Self::slot(name)]@
    }

    /// The coordinates lie within the pixel grid.
    open spec fn in_grid(&self, x: usize, y: usize) -> bool {
        x < self.spec_width() && y < self.spec_height()
    }

    /// The named channel holds a sample at index `loc`.
    open spec fn holds(&self, name: Self::ChannelName, loc: int) -> bool {
        0 <= loc < self.named_samples(name).len()
    }

    /// The component that a pixel gets from the named channel at index `loc`:
    /// the stored sample if the channel is visible, the default sample if it
    /// is not, and none if the channel is visible but too short.
    open spec fn component(&self, name: Self::ChannelName, loc: int) -> Option<T> {
        if !self.visible(name) {
            Some(Self::default_sample(name))
        } else if self.holds(name, loc) {
            Some(self.named_samples(name)[loc])
        } else {
            None
        }
    }

    /// The components that a pixel gets at index `loc`, one for each name.
    open spec fn components(&self, loc: int) -> Seq<T> {
        Seq::new(Self::names().len(), |j: int| self.component(Self::names()[j], loc).unwrap())
    }

    /// The `j`-th name is the first whose channel gives a pixel no component
    /// at index `loc`.
    open spec fn first_unreadable(&self, j: int, loc: int) -> bool {
        &&& 0 <= j < Self::names().len()
        &&& self.component(Self::names()[j], loc) is None
        &&& forall|j2: int| 0 <= j2 < j ==> self.component(#[trigger] Self::names()[j2], loc) is Some
    }

    /// The `j`-th name is the first whose channel holds no sample at index
    /// `loc`.
    open spec fn first_short(&self, j: int, loc: int) -> bool {
        &&& 0 <= j < Self::names().len()
        &&& !self.holds(Self::names()[j], loc)
        &&& forall|j2: int| 0 <= j2 < j ==> self.holds(#[trigger] Self::names()[j2], loc)
    }

    /// A store at `(x, y)` reaches the `j`-th name: the coordinates lie
    /// within the grid, and the channel of that name and of each name before
    /// it holds a sample for the pixel.
    open spec fn store_reaches(&self, j: int, x: usize, y: usize) -> bool {
        &&& self.in_grid(x, y)
        &&& forall|j2: int|
            0 <= j2 <= j ==> self.holds(#[trigger] Self::names()[j2], self.index_of(x, y))
    }

    /// The format does not admit the sample at index `i` of the channel at
    /// index `c`.
    open spec fn violation_at(&self, c: int, i: int) -> bool {
        &&& 0 <= c < self.storage().channels().len()
        &&& 0 <= i < self.storage().channels()[c]@.len()
        &&& !Self::admits(self.storage().channels()[c]@[i])
    }

    /// The format does not admit the sample at index `i` of the channel at
    /// index `c`, and it admits every sample that comes before it when the
    /// channels are gone through one after the other, each from its first
    /// sample on.
    open spec fn first_violation_at(&self, c: int, i: int) -> bool {
        &&& self.violation_at(c, i)
        &&& forall|c2: int, i2: int|
            #![trigger self.violation_at(c2, i2)]
            #![trigger self.storage().channels()[c2]@[i2]]
            self.violation_at(c2, i2) ==> c < c2 || (c == c2 && i <= i2)
    }

    /// The format admits every sample of the image.
    open spec fn valid(&self) -> bool {
        forall|c: int, i: int|
            #![trigger self.violation_at(c, i)]
            #![trigger self.storage().channels()[c]@[i]]
            !self.violation_at(c, i)
    }

    /// The number of channels in the image.
    fn channel_count(&self) -> (n: usize)
        ensures
            n == self.storage().channels().len(),
    ;

    /// Sets the visibility of the named channel and touches nothing else.
    fn set_channel_visible(&mut self, c: &Self::ChannelName, enabled: bool)
        ensures
            final(self).visible(*c) == enabled,
            forall|k: Self::ChannelName| k != *c ==> final(self).visible(k) == old(self).visible(k),
            final(self).storage() == old(self).storage(),
            final(self).spec_width() == old(self).spec_width(),
            final(self).spec_height() == old(self).spec_height(),
    ;

    /// Whether the named channel is visible.
    fn is_channel_visible(&self, c: &Self::ChannelName) -> (b: bool)
        ensures
            b == self.visible(*c),
    ;

    /// The channel with the given name.
    fn channel(&self, c: &Self::ChannelName) -> (r: &Channel<T>)
        ensures
            0 <= Self::slot(*c) < self.storage().channels().len(),
            *r == self.storage().channels()[Self::slot(*c)],
    ;

    /// Mutable access to the channel with the given name. Nothing but that
    /// channel can change through it.
    fn channel_mut(&mut self, c: &Self::ChannelName) -> (r: &mut Channel<T>)
        ensures
            0 <= Self::slot(*c) < old(self).storage().channels().len(),
            *r == old(self).storage().channels()[Self::slot(*c)],
            final(self).storage().channels() == old(self).storage().channels().update(
                Self::slot(*c),
                *final(r),
            ),
            final(self).storage().channels()[Self::slot(*c)] == *final(r),
            final(self).storage().spec_len() == old(self).storage().spec_len(),
            forall|k: Self::ChannelName| final(self).visible(k) == old(self).visible(k),
            final(self).spec_width() == old(self).spec_width(),
            final(self).spec_height() == old(self).spec_height(),
    ;

    /// The number of pixels in a row.
    fn width(&self) -> (w: usize)
        ensures
            w == self.spec_width(),
    ;

    /// The number of rows.
    fn height(&self) -> (h: usize)
        ensures
            h == self.spec_height(),
    ;

    /// Goes through the channels of the image one after the other, each from
    /// its first sample on, and reports the first sample that the format does
    /// not admit. Succeeds if and only if there is none.
    fn validate(&self) -> (r: Result<(), Self::ValidationError>)
        ensures
            match r {
                Ok(_) => self.valid(),
                Err(e) => exists|c: int, i: int|
                    #![trigger self.first_violation_at(c, i)]
                    self.first_violation_at(c, i) && Self::offending(e)
                        == self.storage().channels()[c]@[i],
            },
    ;

    /// The color of the pixel at `(x, y)`, made of the component of each
    /// name.
    ///
    /// Coordinates outside of the grid, and no others, are refused as out of
    /// bounds. Within the grid the read succeeds if and only if every name
    /// has a component for the pixel, and else reports the first name that
    /// has none as missing.
    fn pixel(&self, x: usize, y: usize) -> (r: Result<Color, ImageFormatError<Self::ChannelName>>)
        ensures
            !self.in_grid(x, y) <==> r == Err::<Color, ImageFormatError<Self::ChannelName>>(
                ImageFormatError::OutOfBounds(x, y),
            ),
            r is Ok <==> self.in_grid(x, y) && forall|j: int|
                0 <= j < Self::names().len() ==> self.component(
                    #[trigger] Self::names()[j],
                    self.index_of(x, y),
                ) is Some,
            r matches Ok(color) ==> color == Self::composed(self.components(self.index_of(x, y))),
            forall|j: int|
                self.in_grid(x, y) && #[trigger] self.first_unreadable(j, self.index_of(x, y)) ==> r
                    == Err::<Color, ImageFormatError<Self::ChannelName>>(
                    ImageFormatError::MissingData(Self::names()[j], x, y),
                ),
    ;

    /// Stores the color as the pixel at `(x, y)`, whatever the visibility of
    /// the channels.
    ///
    /// Coordinates outside of the grid, and no others, are refused as out of
    /// bounds. Within the grid the names are gone through in their order, and
    /// the store puts into the channel of each name its component of the
    /// color, until it comes to a channel that holds no sample for the pixel:
    /// that name is reported as missing, and the channels after it stay as
    /// they are. Nothing else changes.
    fn set_pixel(&mut self, x: usize, y: usize, c: Color) -> (r: Result<
        (),
        ImageFormatError<Self::ChannelName>,
    >)
        ensures
            !old(self).in_grid(x, y) <==> r == Err::<(), ImageFormatError<Self::ChannelName>>(
                ImageFormatError::OutOfBounds(x, y),
            ),
            r is Ok <==> old(self).in_grid(x, y) && forall|j: int|
                0 <= j < Self::names().len() ==> old(self).holds(
                    #[trigger] Self::names()[j],
                    old(self).index_of(x, y),
                ),
            forall|j: int|
                old(self).in_grid(x, y) && #[trigger] old(self).first_short(
                    j,
                    old(self).index_of(x, y),
                ) ==> r == Err::<(), ImageFormatError<Self::ChannelName>>(
                    ImageFormatError::MissingData(Self::names()[j], x, y),
                ),
            forall|j: int|
                0 <= j < Self::names().len() ==> #[trigger] final(self).named_samples(
                    Self::names()[j],
                ) == (if old(self).store_reaches(j, x, y) {
                    old(self).named_samples(Self::names()[j]).update(
                        old(self).index_of(x, y),
                        Self::stored(c, Self::names()[j]),
                    )
                } else {
                    old(self).named_samples(Self::names()[j])
                }),
            !old(self).in_grid(x, y) ==> final(self).storage() == old(self).storage(),
            forall|k: Self::ChannelName| final(self).visible(k) == old(self).visible(k),
            final(self).spec_width() == old(self).spec_width(),
            final(self).spec_height() == old(self).spec_height(),
            final(self).storage().spec_len() == old(self).storage().spec_len(),
            final(self).storage().channels().len() == old(self).storage().channels().len(),
    ;

    /// The samples of the named channels, index by index: a row for each
    /// index that every named channel has, and in each row the sample of each
    /// named channel at that index, in the order of the names. The samples may
    /// be clones of the stored ones.
    fn data(&self) -> (out: Vec<Vec<T>>)
        ensures
            forall|j: int|
                0 <= j < Self::names().len() ==> out@.len() <= (#[trigger] self.named_samples(
                    Self::names()[j],
                )).len(),
            Self::names().len() > 0 ==> exists|j: int|
                0 <= j < Self::names().len() && out@.len() == (#[trigger] self.named_samples(
                    Self::names()[j],
                )).len(),
            forall|i: int|
                0 <= i < out@.len() ==> (#[trigger] out@[i])@.len() == Self::names().len(),
            forall|i: int, j: int|
                0 <= i < out@.len() && 0 <= j < Self::names().len() ==> cloned(
                    self.named_samples(Self::names()[j])[i],
                    #[trigger] out@[i]@[j],
                ),
    ;
}

} // verus!
