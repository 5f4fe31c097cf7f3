//! The ffmpeg command lines of the encoders and decoders, as argument lists.
//!
//! Encoders are ffmpeg child processes fed rawvideo or f32 PCM over stdin,
//! writing fragmented MP4 (`frag_keyframe+empty_moov`) so a crash loses at
//! most the last fragment; a keyframe every second (`-g fps`) keeps
//! scrubbing cheap. Decoders are the reverse: an `-ss` input seek and raw
//! RGBA on stdout. The caller adds the file paths where the lists end.
use vstd::prelude::*;

use crate::graph::{secs, secs_text, texts};
use crate::media::{AudioEncoderConfig, PixelFormat, VideoEncoderConfig};
use crate::peaks::PEAKS_SAMPLE_RATE;
use crate::text::{decimal, push_decimal};

verus! {

/// The rawvideo `-pix_fmt` name of a pixel layout.
pub open spec fn pixel_format_name(format: PixelFormat) -> Seq<char> {
    match format {
        PixelFormat::Bgra => "bgra"@,
        PixelFormat::Rgba => "rgba"@,
    }
}

/// Arguments of a video encoder, up to the destination path. yuv420p needs
/// even dimensions, so a stray odd row or column is cropped.
pub open spec fn video_encoder_args_spec(config: VideoEncoderConfig) -> Seq<Seq<char>> {
    seq![
        "-hide_banner"@,
        "-loglevel"@,
        "error"@,
        "-f"@,
        "rawvideo"@,
        "-pix_fmt"@,
        pixel_format_name(config.pixel_format),
        "-s"@,
        decimal(config.width as nat) + "x"@ + decimal(config.height as nat),
        "-r"@,
        decimal(config.fps as nat),
        "-i"@,
        "pipe:0"@,
        "-vf"@,
        "crop=trunc(iw/2)*2:trunc(ih/2)*2"@,
        "-c:v"@,
        "libx264"@,
        "-preset"@,
        "ultrafast"@,
        "-crf"@,
        "23"@,
        "-pix_fmt"@,
        "yuv420p"@,
        "-g"@,
        decimal(config.fps as nat),
        "-movflags"@,
        "+frag_keyframe+empty_moov"@,
        "-y"@,
    ]
}

/// Arguments of an audio encoder, up to the destination path.
pub open spec fn audio_encoder_args_spec(config: AudioEncoderConfig) -> Seq<Seq<char>> {
    seq![
        "-hide_banner"@,
        "-loglevel"@,
        "error"@,
        "-f"@,
        "f32le"@,
        "-ar"@,
        decimal(config.sample_rate as nat),
        "-ac"@,
        decimal(config.channels as nat),
        "-i"@,
        "pipe:0"@,
        "-c:a"@,
        "aac"@,
        "-b:a"@,
        "192k"@,
        "-movflags"@,
        "+frag_keyframe+empty_moov"@,
        "-y"@,
    ]
}

/// Arguments of a decoder before its input path: an input seek to
/// `start_ns`.
pub open spec fn decoder_seek_args_spec(start_ns: nat) -> Seq<Seq<char>> {
    seq!["-ss"@, secs_text(start_ns), "-i"@]
}

/// Arguments of a decoder after its input path: video only, raw RGBA on
/// stdout.
pub open spec fn decoder_output_args_spec() -> Seq<Seq<char>> {
    seq!["-an"@, "-f"@, "rawvideo"@, "-pix_fmt"@, "rgba"@, "-"@]
}

/// Arguments of the peaks decode before its input path. `-loglevel error`
/// keeps the unread stderr pipe from filling while stdout is drained.
pub open spec fn peaks_input_args_spec() -> Seq<Seq<char>> {
    seq!["-hide_banner"@, "-loglevel"@, "error"@, "-i"@]
}

/// Arguments of the peaks decode after its input path: the first audio
/// stream, downmixed to mono at the peaks rate, as f32 PCM on stdout.
pub open spec fn peaks_output_args_spec() -> Seq<Seq<char>> {
    seq![
        "-map"@,
        "0:a:0"@,
        "-ac"@,
        "1"@,
        "-ar"@,
        decimal(PEAKS_SAMPLE_RATE as nat),
        "-f"@,
        "f32le"@,
        "-"@,
    ]
}

fn push_arg(args: &mut Vec<String>, arg: &str)
    ensures
        texts(final(args)@) == texts(old(args)@).push(arg@),
{
    args.push(String::from_str(arg));
    assert(texts(args@) =~= texts(old(args)@).push(arg@));
}

fn push_number(args: &mut Vec<String>, n: u64)
    ensures
        texts(final(args)@) == texts(old(args)@).push(decimal(n as nat)),
{
    let mut s = String::new();
    push_decimal(&mut s, n);
    assert(s@ =~= decimal(n as nat));
    args.push(s);
    assert(texts(args@) =~= texts(old(args)@).push(decimal(n as nat)));
}

fn push_owned(args: &mut Vec<String>, arg: String)
    ensures
        texts(final(args)@) == texts(old(args)@).push(arg@),
{
    let ghost text = arg@;
    args.push(arg);
    assert(texts(args@) =~= texts(old(args)@).push(text));
}

/// The video encoder's arguments.
pub fn video_encoder_args(config: &VideoEncoderConfig) -> (r: Vec<String>)
    ensures
        texts(r@) == video_encoder_args_spec(*config),
{
    let mut args: Vec<String> = Vec::new();
    assert(texts(args@) =~= Seq::<Seq<char>>::empty());
    push_arg(&mut args, "-hide_banner");
    push_arg(&mut args, "-loglevel");
    push_arg(&mut args, "error");
    push_arg(&mut args, "-f");
    push_arg(&mut args, "rawvideo");
    push_arg(&mut args, "-pix_fmt");
    match config.pixel_format {
        PixelFormat::Bgra => push_arg(&mut args, "bgra"),
        PixelFormat::Rgba => push_arg(&mut args, "rgba"),
    }
    push_arg(&mut args, "-s");
    let mut size = String::new();
    push_decimal(&mut size, config.width as u64);
    size.append("x");
    push_decimal(&mut size, config.height as u64);
    assert(size@ =~= decimal(config.width as nat) + "x"@ + decimal(config.height as nat));
    push_owned(&mut args, size);
    push_arg(&mut args, "-r");
    push_number(&mut args, config.fps as u64);
    push_arg(&mut args, "-i");
    push_arg(&mut args, "pipe:0");
    push_arg(&mut args, "-vf");
    push_arg(&mut args, "crop=trunc(iw/2)*2:trunc(ih/2)*2");
    push_arg(&mut args, "-c:v");
    push_arg(&mut args, "libx264");
    push_arg(&mut args, "-preset");
    push_arg(&mut args, "ultrafast");
    push_arg(&mut args, "-crf");
    push_arg(&mut args, "23");
    push_arg(&mut args, "-pix_fmt");
    push_arg(&mut args, "yuv420p");
    push_arg(&mut args, "-g");
    push_number(&mut args, config.fps as u64);
    push_arg(&mut args, "-movflags");
    push_arg(&mut args, "+frag_keyframe+empty_moov");
    push_arg(&mut args, "-y");
    assert(texts(args@) =~= video_encoder_args_spec(*config));
    args
}

/// The audio encoder's arguments.
pub fn audio_encoder_args(config: &AudioEncoderConfig) -> (r: Vec<String>)
    ensures
        texts(r@) == audio_encoder_args_spec(*config),
{
    let mut args: Vec<String> = Vec::new();
    assert(texts(args@) =~= Seq::<Seq<char>>::empty());
    push_arg(&mut args, "-hide_banner");
    push_arg(&mut args, "-loglevel");
    push_arg(&mut args, "error");
    push_arg(&mut args, "-f");
    push_arg(&mut args, "f32le");
    push_arg(&mut args, "-ar");
    push_number(&mut args, config.sample_rate as u64);
    push_arg(&mut args, "-ac");
    push_number(&mut args, config.channels as u64);
    push_arg(&mut args, "-i");
    push_arg(&mut args, "pipe:0");
    push_arg(&mut args, "-c:a");
    push_arg(&mut args, "aac");
    push_arg(&mut args, "-b:a");
    push_arg(&mut args, "192k");
    push_arg(&mut args, "-movflags");
    push_arg(&mut args, "+frag_keyframe+empty_moov");
    push_arg(&mut args, "-y");
    assert(texts(args@) =~= audio_encoder_args_spec(*config));
    args
}

/// The decoder's arguments before its input path.
pub fn decoder_seek_args(start_ns: u64) -> (r: Vec<String>)
    ensures
        texts(r@) == decoder_seek_args_spec(start_ns as nat),
{
    let mut args: Vec<String> = Vec::new();
    assert(texts(args@) =~= Seq::<Seq<char>>::empty());
    push_arg(&mut args, "-ss");
    push_owned(&mut args, secs(start_ns));
    push_arg(&mut args, "-i");
    assert(texts(args@) =~= decoder_seek_args_spec(start_ns as nat));
    args
}

/// The decoder's arguments after its input path.
pub fn decoder_output_args() -> (r: Vec<String>)
    ensures
        texts(r@) == decoder_output_args_spec(),
{
    let mut args: Vec<String> = Vec::new();
    assert(texts(args@) =~= Seq::<Seq<char>>::empty());
    push_arg(&mut args, "-an");
    push_arg(&mut args, "-f");
    push_arg(&mut args, "rawvideo");
    push_arg(&mut args, "-pix_fmt");
    push_arg(&mut args, "rgba");
    push_arg(&mut args, "-");
    assert(texts(args@) =~= decoder_output_args_spec());
    args
}

/// The peaks decode's arguments before its input path.
pub fn peaks_input_args() -> (r: Vec<String>)
    ensures
        texts(r@) == peaks_input_args_spec(),
{
    let mut args: Vec<String> = Vec::new();
    assert(texts(args@) =~= Seq::<Seq<char>>::empty());
    push_arg(&mut args, "-hide_banner");
    push_arg(&mut args, "-loglevel");
    push_arg(&mut args, "error");
    push_arg(&mut args, "-i");
    assert(texts(args@) =~= peaks_input_args_spec());
    args
}

/// The peaks decode's arguments after its input path.
pub fn peaks_output_args() -> (r: Vec<String>)
    ensures
        texts(r@) == peaks_output_args_spec(),
{
    let mut args: Vec<String> = Vec::new();
    assert(texts(args@) =~= Seq::<Seq<char>>::empty());
    push_arg(&mut args, "-map");
    push_arg(&mut args, "0:a:0");
    push_arg(&mut args, "-ac");
    push_arg(&mut args, "1");
    push_arg(&mut args, "-ar");
    push_number(&mut args, PEAKS_SAMPLE_RATE as u64);
    push_arg(&mut args, "-f");
    push_arg(&mut args, "f32le");
    push_arg(&mut args, "-");
    assert(texts(args@) =~= peaks_output_args_spec());
    args
}

} // verus!
