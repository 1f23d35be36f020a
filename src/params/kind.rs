use vstd::prelude::*;
use crate::number::{bitrate_text, decimal_in_range, parse_bitrate, parse_decimal_in_range};
use crate::text::{cat, int_text, int_to_string, owned, parse_i32, parsed_int, str_eq};

verus! {

/// The parameters this front-end knows. Each has a stable id, which presets
/// use as key, and a synthesis order.
#[derive(Debug, Clone, Copy, PartialEq, Eq, Structural)]
pub enum ParamKind {
    Trim,
    DisableAudio,
    AudioBitrate,
    AudioCrystalizer,
    AudioVolume,
    AudioPitch,
    SpeedFactor,
    HardwareAcceleration,
    VideoBitrate,
    VideoFrameRate,
    VideoScale,
    OutputFormat,
}

pub open spec fn kind_id(k: ParamKind) -> Seq<char> {
    match k {
        ParamKind::Trim => "trim"@,
        ParamKind::DisableAudio => "noaudio"@,
        ParamKind::AudioBitrate => "abitrate"@,
        ParamKind::AudioCrystalizer => "crystalizer"@,
        ParamKind::AudioVolume => "volume"@,
        ParamKind::AudioPitch => "pitch"@,
        ParamKind::SpeedFactor => "speed"@,
        ParamKind::HardwareAcceleration => "hwaccel"@,
        ParamKind::VideoBitrate => "vbitrate"@,
        ParamKind::VideoFrameRate => "fps"@,
        ParamKind::VideoScale => "scale"@,
        ParamKind::OutputFormat => "output"@,
    }
}

/// Position in command synthesis: the switch that drops audio comes before
/// every parameter that adds audio arguments, hardware acceleration before
/// scaling, and the output format last.
pub open spec fn kind_order(k: ParamKind) -> u32 {
    match k {
        ParamKind::Trim => 10,
        ParamKind::DisableAudio => 20,
        ParamKind::AudioBitrate => 30,
        ParamKind::AudioCrystalizer => 40,
        ParamKind::AudioVolume => 50,
        ParamKind::AudioPitch => 60,
        ParamKind::SpeedFactor => 70,
        ParamKind::HardwareAcceleration => 80,
        ParamKind::VideoBitrate => 90,
        ParamKind::VideoFrameRate => 100,
        ParamKind::VideoScale => 110,
        ParamKind::OutputFormat => 999999,
    }
}

/// Parameters that only make sense when the output has a video stream.
pub open spec fn is_video_class(k: ParamKind) -> bool {
    k == ParamKind::DisableAudio || k == ParamKind::VideoScale || k == ParamKind::VideoBitrate
        || k == ParamKind::VideoFrameRate || k == ParamKind::HardwareAcceleration
}

/// Parameters that only make sense when the output keeps its audio.
pub open spec fn is_audio_class(k: ParamKind) -> bool {
    k == ParamKind::AudioBitrate || k == ParamKind::AudioCrystalizer || k == ParamKind::AudioPitch
        || k == ParamKind::AudioVolume
}

/// Parameters whose value a preset can carry.
pub open spec fn in_presets(k: ParamKind) -> bool {
    k != ParamKind::Trim
}

pub open spec fn int_in(s: Seq<char>, lo: int, hi: int, zero_ok: bool) -> Option<Seq<char>> {
    match parsed_int(s) {
        Some(n) => if (zero_ok && n == 0) || (lo <= n && n <= hi) {
            Some(int_text(n))
        } else {
            None
        },
        None => None,
    }
}

/// What the validator of a parameter with a custom value commits for the
/// input `s`, or `None` when it rejects `s`.
pub open spec fn validated(k: ParamKind, s: Seq<char>) -> Option<Seq<char>> {
    match k {
        ParamKind::AudioBitrate => int_in(s, 4, 1024, true),
        ParamKind::AudioCrystalizer => int_in(s, -10, 10, false),
        ParamKind::AudioVolume => int_in(s, -50, 50, false),
        ParamKind::AudioPitch => decimal_in_range(s, 1, 100, 100, 1),
        ParamKind::SpeedFactor => decimal_in_range(s, 1, 2, 100, 1),
        ParamKind::VideoBitrate => bitrate_text(s),
        ParamKind::VideoFrameRate => int_in(s, 1, 240, true),
        ParamKind::VideoScale => int_in(s, 64, 8192, true),
        _ => None,
    }
}

/// How a committed custom value is shown to the user.
pub open spec fn display_value(k: ParamKind, v: Seq<char>) -> Seq<char> {
    match k {
        ParamKind::AudioBitrate => if v == "0"@ { "auto"@ } else { v + "k"@ },
        ParamKind::AudioVolume => if v == "0"@ { "original"@ } else { v + "dB"@ },
        ParamKind::VideoBitrate => if v == "0"@ { "auto"@ } else { v },
        ParamKind::VideoFrameRate => if v == "0"@ { "original"@ } else { v },
        ParamKind::VideoScale => if v == "0"@ { "original"@ } else { v + "p"@ },
        _ => v,
    }
}

fn int_in_exec(s: &str, lo: i32, hi: i32, zero_ok: bool) -> (r: Option<String>)
    ensures
        match r {
            Some(t) => int_in(s@, lo as int, hi as int, zero_ok) == Some(t@),
            None => int_in(s@, lo as int, hi as int, zero_ok) is None,
        },
{
    match parse_i32(s) {
        Some(n) => if (zero_ok && n == 0) || (lo <= n && n <= hi) {
            Some(int_to_string(n as i64))
        } else {
            None
        },
        None => None,
    }
}

impl ParamKind {
    /// The stable id, used as key in presets.
    pub fn id(&self) -> (r: &'static str)
        ensures
            r@ == kind_id(*self),
    {
        match self {
            ParamKind::Trim => "trim",
            ParamKind::DisableAudio => "noaudio",
            ParamKind::AudioBitrate => "abitrate",
            ParamKind::AudioCrystalizer => "crystalizer",
            ParamKind::AudioVolume => "volume",
            ParamKind::AudioPitch => "pitch",
            ParamKind::SpeedFactor => "speed",
            ParamKind::HardwareAcceleration => "hwaccel",
            ParamKind::VideoBitrate => "vbitrate",
            ParamKind::VideoFrameRate => "fps",
            ParamKind::VideoScale => "scale",
            ParamKind::OutputFormat => "output",
        }
    }

    pub fn order(&self) -> (r: u32)
        ensures
            r == kind_order(*self),
    {
        match self {
            ParamKind::Trim => 10,
            ParamKind::DisableAudio => 20,
            ParamKind::AudioBitrate => 30,
            ParamKind::AudioCrystalizer => 40,
            ParamKind::AudioVolume => 50,
            ParamKind::AudioPitch => 60,
            ParamKind::SpeedFactor => 70,
            ParamKind::HardwareAcceleration => 80,
            ParamKind::VideoBitrate => 90,
            ParamKind::VideoFrameRate => 100,
            ParamKind::VideoScale => 110,
            ParamKind::OutputFormat => 999999,
        }
    }

    pub fn is_video_class(&self) -> (r: bool)
        ensures
            r == is_video_class(*self),
    {
        match self {
            ParamKind::DisableAudio | ParamKind::VideoScale | ParamKind::VideoBitrate
            | ParamKind::VideoFrameRate | ParamKind::HardwareAcceleration => true,
            _ => false,
        }
    }

    pub fn is_audio_class(&self) -> (r: bool)
        ensures
            r == is_audio_class(*self),
    {
        match self {
            ParamKind::AudioBitrate | ParamKind::AudioCrystalizer | ParamKind::AudioPitch
            | ParamKind::AudioVolume => true,
            _ => false,
        }
    }

    /// Checks a custom value typed by the user and gives the text to commit.
    pub fn validate(&self, s: &str) -> (r: Result<String, &'static str>)
        ensures
            match r {
                Ok(t) => validated(*self, s@) == Some(t@),
                Err(_) => validated(*self, s@) is None,
            },
    {
        let checked = match self {
            ParamKind::AudioBitrate => int_in_exec(s, 4, 1024, true),
            ParamKind::AudioCrystalizer => int_in_exec(s, -10, 10, false),
            ParamKind::AudioVolume => int_in_exec(s, -50, 50, false),
            ParamKind::AudioPitch => parse_decimal_in_range(s, 1, 100, 100, 1),
            ParamKind::SpeedFactor => parse_decimal_in_range(s, 1, 2, 100, 1),
            ParamKind::VideoBitrate => parse_bitrate(s),
            ParamKind::VideoFrameRate => int_in_exec(s, 1, 240, true),
            ParamKind::VideoScale => int_in_exec(s, 64, 8192, true),
            _ => None,
        };
        match checked {
            Some(t) => Ok(t),
            None => Err(self.validation_message()),
        }
    }

    /// What the user is told when a value is rejected.
    pub fn validation_message(&self) -> &'static str {
        match self {
            ParamKind::AudioBitrate => "Invalid value. Expected a number in range 4..1024, or 0 - auto",
            ParamKind::AudioCrystalizer => "Invalid value. Expected a number in range -10..10",
            ParamKind::AudioVolume => "Invalid value. Expected a number of dB in range -50..50",
            ParamKind::AudioPitch => "Invalid value. Expected a number in range 0.01..=100.0",
            ParamKind::SpeedFactor => "Invalid value. Expected a number in range 0.5..=100.0",
            ParamKind::VideoBitrate => "Invalid value. Expected range is 4k..999M, or 0 - auto",
            ParamKind::VideoFrameRate => "Invalid value. Expected a number in range 1..240, or 0 - original",
            ParamKind::VideoScale => "Invalid value. Expected a number in range 64..8192, or 0 - original",
            _ => "This parameter takes no custom value",
        }
    }

    /// The committed value `v` as shown to the user.
    pub fn format_value(&self, v: &str) -> (r: String)
        ensures
            r@ == display_value(*self, v@),
    {
        match self {
            ParamKind::AudioBitrate => if str_eq(v, "0") { owned("auto") } else { cat(v, "k") },
            ParamKind::AudioVolume => if str_eq(v, "0") { owned("original") } else { cat(v, "dB") },
            ParamKind::VideoBitrate => if str_eq(v, "0") { owned("auto") } else { owned(v) },
            ParamKind::VideoFrameRate => if str_eq(v, "0") { owned("original") } else { owned(v) },
            ParamKind::VideoScale => if str_eq(v, "0") { owned("original") } else { cat(v, "p") },
            _ => owned(v),
        }
    }
}

} // verus!
