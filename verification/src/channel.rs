//! Single colour channels of an image.

use vstd::prelude::*;
use vstd::string::StringExecFns;
use crate::pixel::Rgba;
use crate::raster::Image;
use crate::raster::Raster;

verus! {

/// A colour channel.
#[derive(Clone, Copy, Debug, PartialEq, Eq, Structural)]
pub enum Channel {
    Red,
    Green,
    Blue,
}

/// The channel that a name stands for: `red` and `blue` name their
/// channels, and every other name stands for green.
pub open spec fn channel_named(name: Seq<char>) -> Channel {
    if name == "red"@ {
        Channel::Red
    } else if name == "blue"@ {
        Channel::Blue
    } else {
        Channel::Green
    }
}

/// Where the channel stands among the four bytes of a pixel.
pub open spec fn channel_offset(channel: Channel) -> int {
    match channel {
        Channel::Red => 0,
        Channel::Green => 1,
        Channel::Blue => 2,
    }
}

/// The value of a channel in a pixel.
pub open spec fn channel_value(channel: Channel, p: Rgba) -> u8 {
    match channel {
        Channel::Red => p.r,
        Channel::Green => p.g,
        Channel::Blue => p.b,
    }
}

/// The grayscale plane of a channel: for every pixel of the image, in
/// row-major order, the value of the channel in it.
pub open spec fn channel_plane(r: Raster, channel: Channel) -> Seq<u8> {
    Seq::new(r.pixels.len(), |i: int| channel_value(channel, r.pixels[i]))
}

/// The channel that a name stands for.
pub fn select_channel(channel: &str) -> (selected: Channel)
    ensures
        selected == channel_named(channel@),
{
    let name = String::from_str(channel);
    if name == String::from_str("red") {
        Channel::Red
    } else if name == String::from_str("blue") {
        Channel::Blue
    } else {
        Channel::Green
    }
}

/// Makes a grayscale image of one channel of an image: one byte for every
/// pixel, row by row. The channel is chosen by its name.
pub fn extract_channel(src: &Image, channel: &str) -> (gray: Vec<u8>)
    requires
        src.wf(),
    ensures
        gray@ == channel_plane(src@, channel_named(channel@)),
{
    let selected = select_channel(channel);
    let offset: usize = match selected {
        Channel::Red => 0,
        Channel::Green => 1,
        Channel::Blue => 2,
    };
    let data = src.as_raw();
    proof {
        src.lemma_wf();
    }
    let count: usize = data.len() / 4;
    let mut gray: Vec<u8> = Vec::new();
    let mut i: usize = 0;
    while i < count
        invariant
            i <= count,
            count * 4 == data@.len(),
            data@.len() == data.len(),
            offset < 3,
            count == src@.pixels.len(),
            offset == channel_offset(selected),
            src@ == crate::raster::decode(src@.width, src@.height, data@),
            gray@ == channel_plane(src@, selected).take(i as int),
        decreases count - i,
    {
        gray.push(data[4 * i + offset]);
        assert(gray@ =~= channel_plane(src@, selected).take(i + 1));
        i += 1;
    }
    assert(gray@ =~= channel_plane(src@, selected));
    gray
}

} // verus!
