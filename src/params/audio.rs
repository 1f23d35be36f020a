use vstd::prelude::*;
use crate::builder::{custom_change_exec, push_str, push_text, step_audio_bitrate, step_audio_filter, step_disable_audio, CommandBuilder};
use crate::model::{InputConstraints, InputType};
use crate::params::kind::{display_value, validated, ParamKind};
use crate::params::parameter::{names_of, values_of, wf_param, Parameter, ParameterData, SelectOption};
use crate::text::{cat, owned};

verus! {

pub struct DisableAudio;

impl DisableAudio {
    pub fn new_parameter() -> (r: Parameter)
        ensures
            r.kind == ParamKind::DisableAudio,
            r.name@ == "Disable Audio"@,
            r.enabled,
            wf_param(r),
            r.data == (ParameterData::Toggle { value: false }),
    {
        Parameter::new(ParamKind::DisableAudio, "Disable Audio", ParameterData::Toggle { value: false })
    }

    /// A switch that is on drops the audio stream (`-an`) and marks the
    /// builder so that later audio parameters add nothing.
    pub fn build_command(cb: &mut CommandBuilder, data: &ParameterData)
        ensures
            final(cb)@ == step_disable_audio(old(cb)@, *data),
    {
        if let ParameterData::Toggle { value } = data {
            if *value {
                cb.discard_audio = true;
                push_str(&mut cb.args, "-an");
            }
        }
    }
}

pub struct AudioBitrate;

impl AudioBitrate {
    /// Checks a custom value and gives the text to commit (see `validated`).
    pub fn validate(value: &str) -> (r: Result<String, &'static str>)
        ensures
            match r {
                Ok(t) => validated(ParamKind::AudioBitrate, value@) == Some(t@),
                Err(_) => validated(ParamKind::AudioBitrate, value@) is None,
            },
    {
        ParamKind::AudioBitrate.validate(value)
    }

    /// How a committed value is shown (see `display_value`).
    pub fn format_value(value: &str) -> (r: String)
        ensures
            r@ == display_value(ParamKind::AudioBitrate, value@),
    {
        ParamKind::AudioBitrate.format_value(value)
    }

    pub fn new_parameter() -> (r: Parameter)
        ensures
            r.kind == ParamKind::AudioBitrate,
            r.name@ == "Audio Bitrate"@,
            r.enabled,
            wf_param(r),
            r.data matches ParameterData::CustomSelect { options, selected_index, value, default, constraints }
                && values_of(options@) == seq!["4"@, "16"@, "32"@, "0"@, "64"@, "128"@, "192"@, "256"@, "320"@, "512"@]
                && names_of(options@) == values_of(options@)
                && selected_index == 3 && value@ == "0"@ && default@ == "0"@
                && constraints == (InputConstraints { length: 4, input_type: InputType::PositiveInteger }),
    {
        let values = ["4", "16", "32", "0", "64", "128", "192", "256", "320", "512"];
        let options = SelectOption::from_slice(&values);
        assert(values_of(options@) =~= seq!["4"@, "16"@, "32"@, "0"@, "64"@, "128"@, "192"@, "256"@, "320"@, "512"@]);
        assert(names_of(options@) =~= values_of(options@));
        Parameter::new(
            ParamKind::AudioBitrate,
            "Audio Bitrate",
            ParameterData::CustomSelect {
                options,
                selected_index: 3,
                value: owned("0"),
                default: owned("0"),
                constraints: InputConstraints { length: 4, input_type: InputType::PositiveInteger },
            },
        )
    }

    /// `-b:a <value>k`, unless the value is the default or audio is dropped.
    pub fn build_command(cb: &mut CommandBuilder, data: &ParameterData)
        ensures
            final(cb)@ == step_audio_bitrate(old(cb)@, *data),
    {
        if !cb.discard_audio {
            if let Some(v) = custom_change_exec(data) {
                push_str(&mut cb.args, "-b:a");
                push_text(&mut cb.args, cat(v.as_str(), "k"));
                assert(cb@.args =~= old(cb)@.args + seq!["-b:a"@, v@ + "k"@]);
            }
        }
    }
}


pub struct AudioCrystalizer;

impl AudioCrystalizer {
    /// Checks a custom value and gives the text to commit (see `validated`).
    pub fn validate(value: &str) -> (r: Result<String, &'static str>)
        ensures
            match r {
                Ok(t) => validated(ParamKind::AudioCrystalizer, value@) == Some(t@),
                Err(_) => validated(ParamKind::AudioCrystalizer, value@) is None,
            },
    {
        ParamKind::AudioCrystalizer.validate(value)
    }

    pub fn new_parameter() -> (r: Parameter)
        ensures
            r.kind == ParamKind::AudioCrystalizer,
            r.name@ == "Audio Crystalizer"@,
            r.enabled,
            wf_param(r),
            r.data matches ParameterData::CustomSelect { options, selected_index, value, default, constraints }
                && values_of(options@) == seq!["-8"@, "-4"@, "-2"@, "0"@, "2"@, "4"@, "8"@]
                && names_of(options@) == values_of(options@)
                && selected_index == 3 && value@ == "0"@ && default@ == "0"@
                && constraints == (InputConstraints { length: 3, input_type: InputType::Integer }),
    {
        let values = ["-8", "-4", "-2", "0", "2", "4", "8"];
        let options = SelectOption::from_slice(&values);
        assert(values_of(options@) =~= seq!["-8"@, "-4"@, "-2"@, "0"@, "2"@, "4"@, "8"@]);
        assert(names_of(options@) =~= values_of(options@));
        Parameter::new(
            ParamKind::AudioCrystalizer,
            "Audio Crystalizer",
            ParameterData::CustomSelect {
                options,
                selected_index: 3,
                value: owned("0"),
                default: owned("0"),
                constraints: InputConstraints { length: 3, input_type: InputType::Integer },
            },
        )
    }

    /// Audio filter `crystalizer=<value>`, unless the value is the default or audio is dropped.
    pub fn build_command(cb: &mut CommandBuilder, data: &ParameterData)
        ensures
            final(cb)@ == step_audio_filter(old(cb)@, *data, "crystalizer="@, Seq::empty()),
    {
        if !cb.discard_audio {
            if let Some(v) = custom_change_exec(data) {
                assert("crystalizer="@ + v@ + Seq::<char>::empty() =~= "crystalizer="@ + v@);
                push_text(&mut cb.audio_filters, cat("crystalizer=", v.as_str()));
            }
        }
    }
}

pub struct AudioVolume;

impl AudioVolume {
    /// Checks a custom value and gives the text to commit (see `validated`).
    pub fn validate(value: &str) -> (r: Result<String, &'static str>)
        ensures
            match r {
                Ok(t) => validated(ParamKind::AudioVolume, value@) == Some(t@),
                Err(_) => validated(ParamKind::AudioVolume, value@) is None,
            },
    {
        ParamKind::AudioVolume.validate(value)
    }

    /// How a committed value is shown (see `display_value`).
    pub fn format_value(value: &str) -> (r: String)
        ensures
            r@ == display_value(ParamKind::AudioVolume, value@),
    {
        ParamKind::AudioVolume.format_value(value)
    }

    pub fn new_parameter() -> (r: Parameter)
        ensures
            r.kind == ParamKind::AudioVolume,
            r.name@ == "Audio Volume"@,
            r.enabled,
            wf_param(r),
            r.data matches ParameterData::CustomSelect { options, selected_index, value, default, constraints }
                && values_of(options@) == seq!["-15"@, "-10"@, "-5"@, "-2"@, "0"@, "2"@, "5"@, "10"@, "15"@, "30"@, "50"@]
                && names_of(options@) == seq!["-15dB"@, "-10dB"@, "-5dB"@, "-2dB"@, "original"@, "2dB"@, "5dB"@, "10dB"@, "15dB"@, "30dB"@, "50dB"@]
                && selected_index == 4 && value@ == "0"@ && default@ == "0"@
                && constraints == (InputConstraints { length: 3, input_type: InputType::Integer }),
    {
        let values = [("-15dB", "-15"), ("-10dB", "-10"), ("-5dB", "-5"), ("-2dB", "-2"), ("original", "0"), ("2dB", "2"), ("5dB", "5"), ("10dB", "10"), ("15dB", "15"), ("30dB", "30"), ("50dB", "50")];
        let options = SelectOption::from_pairs(&values);
        assert(values_of(options@) =~= seq!["-15"@, "-10"@, "-5"@, "-2"@, "0"@, "2"@, "5"@, "10"@, "15"@, "30"@, "50"@]);
        assert(names_of(options@) =~= seq!["-15dB"@, "-10dB"@, "-5dB"@, "-2dB"@, "original"@, "2dB"@, "5dB"@, "10dB"@, "15dB"@, "30dB"@, "50dB"@]);
        Parameter::new(
            ParamKind::AudioVolume,
            "Audio Volume",
            ParameterData::CustomSelect {
                options,
                selected_index: 4,
                value: owned("0"),
                default: owned("0"),
                constraints: InputConstraints { length: 3, input_type: InputType::Integer },
            },
        )
    }

    /// Audio filter `volume=<value>dB`, unless the value is the default or audio is dropped.
    pub fn build_command(cb: &mut CommandBuilder, data: &ParameterData)
        ensures
            final(cb)@ == step_audio_filter(old(cb)@, *data, "volume="@, "dB"@),
    {
        if !cb.discard_audio {
            if let Some(v) = custom_change_exec(data) {
                push_text(&mut cb.audio_filters, cat(cat("volume=", v.as_str()).as_str(), "dB"));
            }
        }
    }
}

pub struct AudioPitch;

impl AudioPitch {
    /// Checks a custom value and gives the text to commit (see `validated`).
    pub fn validate(value: &str) -> (r: Result<String, &'static str>)
        ensures
            match r {
                Ok(t) => validated(ParamKind::AudioPitch, value@) == Some(t@),
                Err(_) => validated(ParamKind::AudioPitch, value@) is None,
            },
    {
        ParamKind::AudioPitch.validate(value)
    }

    pub fn new_parameter() -> (r: Parameter)
        ensures
            r.kind == ParamKind::AudioPitch,
            r.name@ == "Audio Pitch"@,
            r.enabled,
            wf_param(r),
            r.data matches ParameterData::CustomSelect { options, selected_index, value, default, constraints }
                && values_of(options@) == seq!["0.6"@, "0.8"@, "0.9"@, "1"@, "1.15"@, "1.25"@, "1.5"@, "2"@]
                && names_of(options@) == values_of(options@)
                && selected_index == 3 && value@ == "1"@ && default@ == "1"@
                && constraints == (InputConstraints { length: 4, input_type: InputType::PositiveDecimal }),
    {
        let values = ["0.6", "0.8", "0.9", "1", "1.15", "1.25", "1.5", "2"];
        let options = SelectOption::from_slice(&values);
        assert(values_of(options@) =~= seq!["0.6"@, "0.8"@, "0.9"@, "1"@, "1.15"@, "1.25"@, "1.5"@, "2"@]);
        assert(names_of(options@) =~= values_of(options@));
        Parameter::new(
            ParamKind::AudioPitch,
            "Audio Pitch",
            ParameterData::CustomSelect {
                options,
                selected_index: 3,
                value: owned("1"),
                default: owned("1"),
                constraints: InputConstraints { length: 4, input_type: InputType::PositiveDecimal },
            },
        )
    }

    /// Audio filter `rubberband=pitchq=quality:pitch=<value>`, unless the value is the default or audio is dropped.
    pub fn build_command(cb: &mut CommandBuilder, data: &ParameterData)
        ensures
            final(cb)@ == step_audio_filter(old(cb)@, *data, "rubberband=pitchq=quality:pitch="@, Seq::empty()),
    {
        if !cb.discard_audio {
            if let Some(v) = custom_change_exec(data) {
                assert("rubberband=pitchq=quality:pitch="@ + v@ + Seq::<char>::empty() =~= "rubberband=pitchq=quality:pitch="@ + v@);
                push_text(&mut cb.audio_filters, cat("rubberband=pitchq=quality:pitch=", v.as_str()));
            }
        }
    }
}

} // verus!
