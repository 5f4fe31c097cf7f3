//! Media values shared by encoding, decoding and export: the codec error,
//! encoder settings, decoded frames and the audio sources of an export.
use std::path::PathBuf;
use std::sync::Arc;
use vstd::prelude::*;

use crate::text::{decimal, push_decimal};

verus! {

/// Errors of the encode/decode layer.
pub enum CodecError {
    Io(std::io::Error),
    Backend(String),
    BadInput(String),
}

/// Pixel layout of the raw bytes pushed into a video encoder.
#[derive(Debug, Clone, Copy, PartialEq, Eq, Structural)]
pub enum PixelFormat {
    Bgra,
    Rgba,
}

#[derive(Debug, Clone, Copy)]
pub struct VideoEncoderConfig {
    pub width: u32,
    pub height: u32,
    pub fps: u32,
    pub pixel_format: PixelFormat,
}

#[derive(Debug, Clone, Copy)]
pub struct AudioEncoderConfig {
    pub sample_rate: u32,
    pub channels: u16,
}

/// One decoded frame. `data` is tightly packed RGBA and shared, never
/// copied, between the decode thread, the frame cache and texture upload.
#[derive(Debug, Clone)]
pub struct VideoFrame {
    pub data: Arc<[u8]>,
    pub width: u32,
    pub height: u32,
    /// Presentation time in source nanoseconds (file time, not timeline).
    pub pts_ns: u64,
}

/// `Arc::clone`: a second handle to the same allocation, so the bytes seen
/// through it are the bytes seen through `data`.
#[verifier::external_body]
fn share_bytes(data: &Arc<[u8]>) -> (r: Arc<[u8]>)
    ensures
        r@ == data@,
{
    Arc::clone(data)
}

impl VideoFrame {
    /// A second handle on the same frame: the pixels are shared, not copied.
    pub fn share(&self) -> (r: VideoFrame)
        ensures
            r.data@ == self.data@,
            r.width == self.width,
            r.height == self.height,
            r.pts_ns == self.pts_ns,
    {
        VideoFrame {
            data: share_bytes(&self.data),
            width: self.width,
            height: self.height,
            pts_ns: self.pts_ns,
        }
    }

    /// Size of the pixel data in bytes.
    pub fn byte_len(&self) -> (n: usize)
        ensures
            n == self.data@.len(),
    {
        self.data.len()
    }
}

/// One timeline clip's slice of the take audio. The playback speed is held
/// in millionths (`1_000_000` plays at normal speed).
#[derive(Debug, Clone, Copy)]
pub struct AudioClip {
    pub src_in_ns: u64,
    pub src_out_ns: u64,
    pub speed_millionths: u64,
}

/// The take's recorded system audio, trimmed to the timeline's clips. The
/// gain is held in millionths (`1_000_000` leaves the level unchanged).
#[derive(Debug, Clone)]
pub struct SystemAudio {
    pub path: PathBuf,
    pub gain_millionths: u64,
    pub clips: Vec<AudioClip>,
}

/// One music track placed on the timeline.
#[derive(Debug, Clone)]
pub struct MusicSource {
    pub path: PathBuf,
    pub gain_millionths: u64,
    pub offset_ns: u64,
    pub fade_in_ns: u64,
    pub fade_out_ns: u64,
    /// Length of the audible span measured from `offset_ns`, that is
    /// `min(offset_ns + media, timeline_end) - offset_ns`.
    pub audible_ns: u64,
}

#[derive(Debug, Clone)]
pub struct ExportConfig {
    pub width: u32,
    pub height: u32,
    pub fps: u32,
    /// x264 constant rate factor; lower is better quality.
    pub crf: u8,
    pub system_audio: Option<SystemAudio>,
    pub music: Vec<MusicSource>,
}

/// Bytes in one tightly packed RGBA frame of `width` by `height` pixels.
pub open spec fn rgba_frame_len(width: nat, height: nat) -> nat {
    width * height * 4
}

/// Bytes of one RGBA frame; the encoders check every pushed frame against it.
pub fn frame_bytes(width: u32, height: u32) -> (n: usize)
    requires
        rgba_frame_len(width as nat, height as nat) <= usize::MAX,
    ensures
        n as nat == rgba_frame_len(width as nat, height as nat),
{
    assert((width as usize as int) * (height as usize as int) <= (width as int) * (height as int)
        * 4) by (nonlinear_arith);
    (width as usize) * (height as usize) * 4
}

/// The message of a frame whose size is wrong.
pub open spec fn wrong_size_message(got: nat, expected: nat) -> Seq<char> {
    "frame is "@ + decimal(got) + " bytes, expected "@ + decimal(expected)
}

/// Check one pushed frame's length against the frame size of the stream.
pub fn check_frame_len(len: usize, expected: usize) -> (r: Result<(), CodecError>)
    ensures
        len == expected <==> r is Ok,
        r matches Err(e) ==> e matches CodecError::BadInput(m) && m@ == wrong_size_message(
            len as nat,
            expected as nat,
        ),
{
    if len != expected {
        let mut message = String::new();
        message.append("frame is ");
        push_decimal(&mut message, len as u64);
        message.append(" bytes, expected ");
        push_decimal(&mut message, expected as u64);
        assert(message@ =~= wrong_size_message(len as nat, expected as nat));
        return Err(CodecError::BadInput(message));
    }
    Ok(())
}

/// Validate an export's video settings and size its frames: an export of
/// zero width, height or frame rate is refused, anything else gets the RGBA
/// frame length its pushed frames must have.
pub fn export_frame_bytes(config: &ExportConfig) -> (r: Result<usize, CodecError>)
    requires
        rgba_frame_len(config.width as nat, config.height as nat) <= usize::MAX,
    ensures
        (config.width == 0 || config.height == 0 || config.fps == 0) <==> r is Err,
        r matches Ok(n) ==> n as nat == rgba_frame_len(config.width as nat, config.height as nat),
        r matches Err(e) ==> e matches CodecError::BadInput(m)
            && m@ == "export size and fps must be non-zero"@,
{
    if config.width == 0 || config.height == 0 || config.fps == 0 {
        return Err(CodecError::BadInput(String::from_str("export size and fps must be non-zero")));
    }
    Ok(frame_bytes(config.width, config.height))
}

} // verus!
