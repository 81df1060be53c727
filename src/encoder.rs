use vstd::prelude::*;

use crate::text::{decimal_spec, push_char, push_decimal};

verus! {

/// Whether `needle` occurs as a contiguous part of `haystack`.
pub open spec fn has_substring(haystack: Seq<char>, needle: Seq<char>) -> bool {
    exists|i: int|
        0 <= i && i + needle.len() <= haystack.len() && #[trigger] haystack.subrange(
            i,
            i + needle.len(),
        ) == needle
}

/// Relies on `str::contains` with a `&str` pattern: true when the pattern
/// matches a sub-slice of the string.
#[verifier::external_body]
fn str_contains(haystack: &str, needle: &str) -> (r: bool)
    ensures
        r == has_substring(haystack@, needle@),
{
    haystack.contains(needle)
}

/// The video codec of the final encode.
#[derive(Clone, Copy, Debug, PartialEq, Eq, Structural)]
pub enum VideoCodec {
    /// NVIDIA hardware encoding.
    Nvenc,
    /// Intel Quick Sync hardware encoding.
    Qsv,
    /// Software encoding.
    Software,
}

#[derive(Clone, Copy, Debug, PartialEq, Eq, Structural)]
pub enum EncoderError {
    /// Hardware acceleration was asked for and the encoder offers none.
    NoHardwareAccel,
}

/// Picks the codec from the encoder's capability list: a hardware codec when
/// one was asked for and is listed (NVIDIA first), an error when one was asked
/// for and none is listed, else the software codec.
pub open spec fn select_codec_spec(hardware_accel: bool, codecs: Seq<char>) -> Result<VideoCodec, EncoderError> {
    if hardware_accel && has_substring(codecs, "h264_nvenc"@) {
        Ok(VideoCodec::Nvenc)
    } else if hardware_accel && has_substring(codecs, "h264_qsv"@) {
        Ok(VideoCodec::Qsv)
    } else if hardware_accel {
        Err(EncoderError::NoHardwareAccel)
    } else {
        Ok(VideoCodec::Software)
    }
}

pub fn select_codec(hardware_accel: bool, codecs: &str) -> (r: Result<VideoCodec, EncoderError>)
    ensures
        r == select_codec_spec(hardware_accel, codecs@),
{
    if !hardware_accel {
        return Ok(VideoCodec::Software);
    }
    if str_contains(codecs, "h264_nvenc") {
        Ok(VideoCodec::Nvenc)
    } else if str_contains(codecs, "h264_qsv") {
        Ok(VideoCodec::Qsv)
    } else {
        Err(EncoderError::NoHardwareAccel)
    }
}

/// The encoder's name for a codec.
pub open spec fn codec_name_spec(c: VideoCodec) -> Seq<char> {
    match c {
        VideoCodec::Nvenc => "h264_nvenc"@,
        VideoCodec::Qsv => "h264_qsv"@,
        VideoCodec::Software => "libx264"@,
    }
}

pub fn codec_name(c: VideoCodec) -> (r: &'static str)
    ensures
        r@ == codec_name_spec(c),
{
    match c {
        VideoCodec::Nvenc => "h264_nvenc",
        VideoCodec::Qsv => "h264_qsv",
        VideoCodec::Software => "libx264",
    }
}

/// The texts of a list of arguments.
pub open spec fn arg_texts(v: Seq<String>) -> Seq<Seq<char>> {
    Seq::new(v.len(), |i: int| v[i]@)
}

fn push_arg(args: &mut Vec<String>, a: &str)
    ensures
        arg_texts(final(args)@) == arg_texts(old(args)@).push(a@),
{
    args.push(String::from_str(a));
    assert(arg_texts(args@) =~= arg_texts(old(args)@).push(a@));
}

fn push_string_arg(args: &mut Vec<String>, a: String)
    ensures
        arg_texts(final(args)@) == arg_texts(old(args)@).push(a@),
{
    let ghost text = a@;
    args.push(a);
    assert(arg_texts(args@) =~= arg_texts(old(args)@).push(text));
}

/// Arguments of the audio encode: raw little-endian 32-bit float stereo at
/// 44100 Hz on standard input, MP3 into `output`.
pub open spec fn audio_args_spec(output: Seq<char>) -> Seq<Seq<char>> {
    seq![
        "-y"@, "-f"@, "f32le"@, "-ar"@, "44100"@, "-ac"@, "2"@, "-i"@, "-"@, "-c:a"@, "mp3"@,
        "-f"@, "mp3"@, output,
    ]
}

pub fn audio_args(output: &str) -> (r: Vec<String>)
    ensures
        arg_texts(r@) == audio_args_spec(output@),
{
    let mut args: Vec<String> = Vec::new();
    push_arg(&mut args, "-y");
    push_arg(&mut args, "-f");
    push_arg(&mut args, "f32le");
    push_arg(&mut args, "-ar");
    push_arg(&mut args, "44100");
    push_arg(&mut args, "-ac");
    push_arg(&mut args, "2");
    push_arg(&mut args, "-i");
    push_arg(&mut args, "-");
    push_arg(&mut args, "-c:a");
    push_arg(&mut args, "mp3");
    push_arg(&mut args, "-f");
    push_arg(&mut args, "mp3");
    push_arg(&mut args, output);
    assert(arg_texts(args@) =~= audio_args_spec(output@));
    args
}

/// The frame size argument, `<width>x<height>`.
pub open spec fn size_text(width: u32, height: u32) -> Seq<char> {
    decimal_spec(width as nat).push('x') + decimal_spec(height as nat)
}

/// Arguments of the video encode: raw RGBA frames of `width` by `height` at
/// `fps` on standard input, the audio file as a second input, the codec at
/// `bitrate`, flipped vertically, into the MP4 file `output`.
pub open spec fn video_args_spec(
    codec: VideoCodec,
    width: u32,
    height: u32,
    fps: u32,
    bitrate: Seq<char>,
    audio: Seq<char>,
    output: Seq<char>,
) -> Seq<Seq<char>> {
    let head = seq!["-y"@, "-f"@, "rawvideo"@, "-c:v"@, "rawvideo"@];
    let hw = if codec is Nvenc {
        seq!["-hwaccel_output_format"@, "cuda"@]
    } else {
        Seq::empty()
    };
    let input = seq![
        "-s"@, size_text(width, height), "-r"@, decimal_spec(fps as nat), "-pix_fmt"@, "rgba"@,
        "-i"@, "-"@, "-i"@, audio,
    ];
    let out = seq![
        "-c:a"@, "copy"@, "-c:v"@, codec_name_spec(codec), "-pix_fmt"@, "yuv420p"@, "-b:v"@,
        bitrate, "-map"@, "0:v:0"@, "-map"@, "1:a:0"@, "-vf"@, "vflip"@, "-f"@, "mp4"@, output,
    ];
    head + hw + input + out
}

pub fn video_args(
    codec: VideoCodec,
    width: u32,
    height: u32,
    fps: u32,
    bitrate: &str,
    audio: &str,
    output: &str,
) -> (r: Vec<String>)
    ensures
        arg_texts(r@) == video_args_spec(codec, width, height, fps, bitrate@, audio@, output@),
{
    let mut args: Vec<String> = Vec::new();
    push_arg(&mut args, "-y");
    push_arg(&mut args, "-f");
    push_arg(&mut args, "rawvideo");
    push_arg(&mut args, "-c:v");
    push_arg(&mut args, "rawvideo");
    let ghost head = arg_texts(args@);
    if codec == VideoCodec::Nvenc {
        push_arg(&mut args, "-hwaccel_output_format");
        push_arg(&mut args, "cuda");
    }
    let ghost with_hw = arg_texts(args@);
    push_arg(&mut args, "-s");
    let mut size = String::new();
    push_decimal(&mut size, width as u64);
    push_char(&mut size, 'x');
    push_decimal(&mut size, height as u64);
    assert(size@ =~= size_text(width, height));
    push_string_arg(&mut args, size);
    push_arg(&mut args, "-r");
    let mut rate = String::new();
    push_decimal(&mut rate, fps as u64);
    assert(rate@ =~= decimal_spec(fps as nat));
    push_string_arg(&mut args, rate);
    push_arg(&mut args, "-pix_fmt");
    push_arg(&mut args, "rgba");
    push_arg(&mut args, "-i");
    push_arg(&mut args, "-");
    push_arg(&mut args, "-i");
    push_arg(&mut args, audio);
    let ghost with_input = arg_texts(args@);
    push_arg(&mut args, "-c:a");
    push_arg(&mut args, "copy");
    push_arg(&mut args, "-c:v");
    push_arg(&mut args, codec_name(codec));
    push_arg(&mut args, "-pix_fmt");
    push_arg(&mut args, "yuv420p");
    push_arg(&mut args, "-b:v");
    push_arg(&mut args, bitrate);
    push_arg(&mut args, "-map");
    push_arg(&mut args, "0:v:0");
    push_arg(&mut args, "-map");
    push_arg(&mut args, "1:a:0");
    push_arg(&mut args, "-vf");
    push_arg(&mut args, "vflip");
    push_arg(&mut args, "-f");
    push_arg(&mut args, "mp4");
    push_arg(&mut args, output);
    assert(head =~= seq!["-y"@, "-f"@, "rawvideo"@, "-c:v"@, "rawvideo"@]);
    assert(arg_texts(args@) =~= video_args_spec(codec, width, height, fps, bitrate@, audio@, output@));
    args
}

/// Picks the encoder program: the one on the search path when it runs, else
/// the copy bundled beside the application when that runs, else none.
pub open spec fn find_ffmpeg_spec(global_runs: bool, bundled: Seq<char>, bundled_runs: bool) -> Option<Seq<char>> {
    if global_runs {
        Some("ffmpeg"@)
    } else if bundled_runs {
        Some(bundled)
    } else {
        None
    }
}

pub fn find_ffmpeg(global_runs: bool, bundled: &str, bundled_runs: bool) -> (r: Option<String>)
    ensures
        match (r, find_ffmpeg_spec(global_runs, bundled@, bundled_runs)) {
            (Some(p), Some(q)) => p@ == q,
            (None, None) => true,
            _ => false,
        },
{
    if global_runs {
        Some(String::from_str("ffmpeg"))
    } else if bundled_runs {
        Some(String::from_str(bundled))
    } else {
        None
    }
}

} // verus!
