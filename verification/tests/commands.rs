use breez::commands::{
    audio_encoder_args, decoder_output_args, decoder_seek_args, peaks_input_args,
    peaks_output_args, video_encoder_args,
};
use breez::media::{AudioEncoderConfig, PixelFormat, VideoEncoderConfig};

#[test]
fn video_encoder_should_read_raw_frames_and_write_fragmented_h264() {
    let args = video_encoder_args(&VideoEncoderConfig {
        width: 1920,
        height: 1080,
        fps: 60,
        pixel_format: PixelFormat::Bgra,
    });
    assert_eq!(
        args.join(" "),
        "-hide_banner -loglevel error -f rawvideo -pix_fmt bgra -s 1920x1080 -r 60 -i pipe:0 \
         -vf crop=trunc(iw/2)*2:trunc(ih/2)*2 -c:v libx264 -preset ultrafast -crf 23 \
         -pix_fmt yuv420p -g 60 -movflags +frag_keyframe+empty_moov -y"
    );
    let rgba = video_encoder_args(&VideoEncoderConfig {
        width: 2,
        height: 2,
        fps: 30,
        pixel_format: PixelFormat::Rgba,
    });
    assert_eq!(rgba[6], "rgba");
}

#[test]
fn audio_encoder_should_read_f32_pcm_and_write_aac() {
    let args = audio_encoder_args(&AudioEncoderConfig { sample_rate: 48_000, channels: 2 });
    assert_eq!(
        args.join(" "),
        "-hide_banner -loglevel error -f f32le -ar 48000 -ac 2 -i pipe:0 -c:a aac -b:a 192k \
         -movflags +frag_keyframe+empty_moov -y"
    );
}

#[test]
fn decoder_should_seek_in_fixed_point_seconds() {
    assert_eq!(decoder_seek_args(2_500_000_000).join(" "), "-ss 2.500000 -i");
    assert_eq!(decoder_seek_args(0).join(" "), "-ss 0.000000 -i");
    assert_eq!(decoder_output_args().join(" "), "-an -f rawvideo -pix_fmt rgba -");
}

#[test]
fn peaks_should_decode_mono_at_the_peaks_rate() {
    assert_eq!(peaks_input_args().join(" "), "-hide_banner -loglevel error -i");
    assert_eq!(peaks_output_args().join(" "), "-map 0:a:0 -ac 1 -ar 8000 -f f32le -");
}
