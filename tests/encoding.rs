use render_queue::encoder::{
    audio_args, codec_name, find_ffmpeg, select_codec, video_args, EncoderError, VideoCodec,
};
use render_queue::text::decimal;

const CODECS: &str = " DEV.LS h264  H.264 (encoders: libx264 h264_nvenc h264_qsv )";

#[test]
fn hardware_codec_prefers_nvenc() {
    assert_eq!(select_codec(true, CODECS), Ok(VideoCodec::Nvenc));
    assert_eq!(select_codec(true, " encoders: libx264 h264_qsv"), Ok(VideoCodec::Qsv));
}

#[test]
fn missing_hardware_codec_is_an_error() {
    assert_eq!(select_codec(true, " encoders: libx264 "), Err(EncoderError::NoHardwareAccel));
    assert_eq!(select_codec(true, ""), Err(EncoderError::NoHardwareAccel));
}

#[test]
fn software_codec_without_acceleration() {
    assert_eq!(select_codec(false, CODECS), Ok(VideoCodec::Software));
    assert_eq!(codec_name(VideoCodec::Software), "libx264");
    assert_eq!(codec_name(VideoCodec::Nvenc), "h264_nvenc");
    assert_eq!(codec_name(VideoCodec::Qsv), "h264_qsv");
}

#[test]
fn audio_encode_arguments() {
    assert_eq!(
        audio_args("/tmp/mix.mp3"),
        vec!["-y", "-f", "f32le", "-ar", "44100", "-ac", "2", "-i", "-", "-c:a", "mp3", "-f", "mp3", "/tmp/mix.mp3"]
    );
}

#[test]
fn video_encode_arguments() {
    let args = video_args(VideoCodec::Software, 640, 360, 30, "5M", "/tmp/mix.mp3", "/out/v.mp4");
    assert_eq!(
        args,
        vec![
            "-y", "-f", "rawvideo", "-c:v", "rawvideo", "-s", "640x360", "-r", "30", "-pix_fmt",
            "rgba", "-i", "-", "-i", "/tmp/mix.mp3", "-c:a", "copy", "-c:v", "libx264", "-pix_fmt",
            "yuv420p", "-b:v", "5M", "-map", "0:v:0", "-map", "1:a:0", "-vf", "vflip", "-f", "mp4",
            "/out/v.mp4",
        ]
    );
}

#[test]
fn nvenc_encode_asks_for_cuda_frames() {
    let args = video_args(VideoCodec::Nvenc, 1920, 1080, 60, "10M", "a.mp3", "o.mp4");
    assert_eq!(&args[5..7], &["-hwaccel_output_format".to_string(), "cuda".to_string()]);
    assert_eq!(args[8], "1920x1080");
    assert_eq!(args[10], "60");
    assert_eq!(args[20], "h264_nvenc");
}

#[test]
fn encoder_program_choice() {
    assert_eq!(find_ffmpeg(true, "/app/ffmpeg", true), Some("ffmpeg".to_string()));
    assert_eq!(find_ffmpeg(false, "/app/ffmpeg", true), Some("/app/ffmpeg".to_string()));
    assert_eq!(find_ffmpeg(false, "/app/ffmpeg", false), None);
}

#[test]
fn decimal_notation() {
    assert_eq!(decimal(0), "0");
    assert_eq!(decimal(7), "7");
    assert_eq!(decimal(44100), "44100");
    assert_eq!(decimal(u64::MAX), "18446744073709551615");
}
