//! Decoded video frames and the choice of packets they are decoded from.

use vstd::prelude::*;

verus! {

/// Bytes per pixel of the packed RGB layout.
pub const BYTES_PER_PIXEL: usize = 3;

/// Mathematical content of a frame.
pub struct FrameModel {
    pub width: int,
    pub height: int,
    /// Rows of packed RGB pixels, top to bottom, without padding.
    pub pixels: Seq<u8>,
}

impl FrameModel {
    /// The pixel data fills the frame exactly.
    pub open spec fn valid(self) -> bool {
        self.pixels.len() == self.width * self.height * BYTES_PER_PIXEL
    }
}

/// An owned frame of packed RGB pixels whose rows follow one another
/// without padding.
#[derive(Debug)]
pub struct Frame {
    width: u32,
    height: u32,
    pixels: Vec<u8>,
}

impl View for Frame {
    type V = FrameModel;

    closed spec fn view(&self) -> FrameModel {
        FrameModel { width: self.width as int, height: self.height as int, pixels: self.pixels@ }
    }
}

impl Frame {
    #[verifier::type_invariant]
    spec fn filled(self) -> bool {
        self@.valid()
    }

    /// A frame of the given size over `pixels`, if they fill it exactly.
    pub fn new(width: u32, height: u32, pixels: Vec<u8>) -> (frame: Option<Frame>)
        ensures
            frame.is_some() <==> pixels@.len() == width * height * BYTES_PER_PIXEL,
            frame matches Some(f) ==> f@ == (FrameModel {
                width: width as int,
                height: height as int,
                pixels: pixels@,
            }),
    {
        let area: u64 = pixel_count(width, height);
        let expected: u128 = area as u128 * (BYTES_PER_PIXEL as u128);
        if pixels.len() as u128 == expected {
            Some(Frame { width, height, pixels })
        } else {
            None
        }
    }

    /// Width in pixels.
    pub fn width(&self) -> (width: u32)
        ensures
            width == self@.width,
    {
        self.width
    }

    /// Height in pixels.
    pub fn height(&self) -> (height: u32)
        ensures
            height == self@.height,
    {
        self.height
    }

    /// The pixel data, which fills the frame exactly.
    pub fn pixels(&self) -> (pixels: &[u8])
        ensures
            pixels@ == self@.pixels,
            self@.valid(),
    {
        proof {
            use_type_invariant(self);
        }
        self.pixels.as_slice()
    }

    /// Whether both frames have the same width and height.
    pub fn same_size(&self, other: &Frame) -> (same: bool)
        ensures
            same <==> self@.width == other@.width && self@.height == other@.height,
    {
        self.width == other.width && self.height == other.height
    }
}

/// Number of pixels of a frame of the given size.
fn pixel_count(width: u32, height: u32) -> (count: u64)
    ensures
        count == width * height,
{
    assert(width * height <= 0xffff_ffff * 0xffff_ffff) by (nonlinear_arith)
        requires
            width <= 0xffff_ffff,
            height <= 0xffff_ffff,
    ;
    width as u64 * height as u64
}

/// What to do with the next packet read from the container.
#[derive(Clone, Copy, Debug, PartialEq, Eq, Structural)]
pub enum PacketStep {
    /// The packet belongs to the video stream: decode it into a frame.
    Decode,
    /// The packet belongs to another stream: drop it and read on.
    Skip,
    /// The container has no packet left.
    EndOfStream,
}

/// The step for a packet of the given stream, or for the end of the
/// container when there is none.
pub open spec fn step_for(stream: Option<usize>, video_stream: usize) -> PacketStep {
    match stream {
        Some(index) => if index == video_stream {
            PacketStep::Decode
        } else {
            PacketStep::Skip
        },
        None => PacketStep::EndOfStream,
    }
}

/// Decides what to do with the next packet, given the index of the stream it
/// belongs to, or `None` when the container is exhausted.
pub fn packet_step(stream: Option<usize>, video_stream: usize) -> (step: PacketStep)
    ensures
        step == step_for(stream, video_stream),
{
    match stream {
        Some(index) => {
            if index == video_stream {
                PacketStep::Decode
            } else {
                PacketStep::Skip
            }
        },
        None => PacketStep::EndOfStream,
    }
}

/// Position of the packet that a pull decodes when it takes one step per
/// packet, among packets to come that belong to the given streams; `None`
/// when the container runs out before a packet is decoded.
pub open spec fn decoded_packet(streams: Seq<usize>, video_stream: usize) -> Option<int>
    decreases streams.len(),
{
    if streams.len() == 0 {
        None
    } else {
        match step_for(Some(streams[0]), video_stream) {
            PacketStep::Decode => Some(0),
            PacketStep::Skip => match decoded_packet(streams.skip(1), video_stream) {
                Some(position) => Some(position + 1),
                None => None,
            },
            PacketStep::EndOfStream => None,
        }
    }
}

/// A pull decodes the first packet of the video stream and drops only the
/// packets before it, none of which belongs to the video stream; it runs
/// out of packets only when no packet of the video stream is left.
pub proof fn lemma_first_video_packet_is_decoded(streams: Seq<usize>, video_stream: usize)
    ensures
        match decoded_packet(streams, video_stream) {
            Some(position) => {
                &&& 0 <= position < streams.len()
                &&& streams[position] == video_stream
                &&& forall|k: int| 0 <= k < position ==> streams[k] != video_stream
            },
            None => forall|k: int| 0 <= k < streams.len() ==> streams[k] != video_stream,
        },
    decreases streams.len(),
{
    if streams.len() > 0 && streams[0] != video_stream {
        let rest = streams.skip(1);
        lemma_first_video_packet_is_decoded(rest, video_stream);
        match decoded_packet(rest, video_stream) {
            Some(position) => {
                assert(rest[position] == streams[position + 1]);
                assert forall|k: int| 0 <= k < position + 1 implies streams[k] != video_stream by {
                    if k > 0 {
                        assert(rest[k - 1] == streams[k]);
                    }
                }
            },
            None => {
                assert forall|k: int| 0 <= k < streams.len() implies streams[k] != video_stream by {
                    if k > 0 {
                        assert(rest[k - 1] == streams[k]);
                    }
                }
            },
        }
    }
}

} // verus!
