use vstd::prelude::*;
use crate::builder::{custom_change_exec, option_change_exec, push_str, push_text, step_flag, step_hwaccel, step_scale, qsv_pre_input, CommandBuilder, HWAccel};
use crate::model::{InputConstraints, InputType};
use crate::params::kind::{display_value, validated, ParamKind};
use crate::params::parameter::{names_of, values_of, wf_param, Parameter, ParameterData, SelectOption};
use crate::text::{cat, owned, str_eq};

verus! {

pub struct VideoBitrate;

impl VideoBitrate {
    /// Checks a custom value and gives the text to commit (see `validated`).
    pub fn validate(value: &str) -> (r: Result<String, &'static str>)
        ensures
            match r {
                Ok(t) => validated(ParamKind::VideoBitrate, value@) == Some(t@),
                Err(_) => validated(ParamKind::VideoBitrate, value@) is None,
            },
    {
        ParamKind::VideoBitrate.validate(value)
    }

    /// How a committed value is shown (see `display_value`).
    pub fn format_value(value: &str) -> (r: String)
        ensures
            r@ == display_value(ParamKind::VideoBitrate, value@),
    {
        ParamKind::VideoBitrate.format_value(value)
    }

    pub fn new_parameter() -> (r: Parameter)
        ensures
            r.kind == ParamKind::VideoBitrate,
            r.name@ == "Video Bitrate"@,
            r.enabled,
            wf_param(r),
            r.data matches ParameterData::CustomSelect { options, selected_index, value, default, constraints }
                && values_of(options@) == seq!["16k"@, "32k"@, "0"@, "64k"@, "128k"@, "256k"@, "512k"@, "1M"@, "2M"@, "4M"@, "8M"@, "16M"@]
                && names_of(options@) == values_of(options@)
                && selected_index == 2 && value@ == "0"@ && default@ == "0"@
                && constraints == (InputConstraints { length: 5, input_type: InputType::Bitrate }),
    {
        let values = ["16k", "32k", "0", "64k", "128k", "256k", "512k", "1M", "2M", "4M", "8M", "16M"];
        let options = SelectOption::from_slice(&values);
        assert(values_of(options@) =~= seq!["16k"@, "32k"@, "0"@, "64k"@, "128k"@, "256k"@, "512k"@, "1M"@, "2M"@, "4M"@, "8M"@, "16M"@]);
        assert(names_of(options@) =~= values_of(options@));
        Parameter::new(
            ParamKind::VideoBitrate,
            "Video Bitrate",
            ParameterData::CustomSelect {
                options,
                selected_index: 2,
                value: owned("0"),
                default: owned("0"),
                constraints: InputConstraints { length: 5, input_type: InputType::Bitrate },
            },
        )
    }

    /// `-b:v <value>`, unless the value is the default.
    pub fn build_command(cb: &mut CommandBuilder, data: &ParameterData)
        ensures
            final(cb)@ == step_flag(old(cb)@, *data, "-b:v"@),
    {
        if let Some(v) = custom_change_exec(data) {
            push_str(&mut cb.args, "-b:v");
            push_text(&mut cb.args, v.clone());
            assert(cb@.args =~= old(cb)@.args + seq!["-b:v"@, v@]);
        }
    }
}

pub struct VideoFrameRate;

impl VideoFrameRate {
    /// Checks a custom value and gives the text to commit (see `validated`).
    pub fn validate(value: &str) -> (r: Result<String, &'static str>)
        ensures
            match r {
                Ok(t) => validated(ParamKind::VideoFrameRate, value@) == Some(t@),
                Err(_) => validated(ParamKind::VideoFrameRate, value@) is None,
            },
    {
        ParamKind::VideoFrameRate.validate(value)
    }

    /// How a committed value is shown (see `display_value`).
    pub fn format_value(value: &str) -> (r: String)
        ensures
            r@ == display_value(ParamKind::VideoFrameRate, value@),
    {
        ParamKind::VideoFrameRate.format_value(value)
    }

    pub fn new_parameter() -> (r: Parameter)
        ensures
            r.kind == ParamKind::VideoFrameRate,
            r.name@ == "Video Frame Rate"@,
            r.enabled,
            wf_param(r),
            r.data matches ParameterData::CustomSelect { options, selected_index, value, default, constraints }
                && values_of(options@) == seq!["5"@, "10"@, "15"@, "20"@, "24"@, "25"@, "0"@, "30"@, "50"@, "60"@]
                && names_of(options@) == seq!["5"@, "10"@, "15"@, "20"@, "24"@, "25"@, "original"@, "30"@, "50"@, "60"@]
                && selected_index == 6 && value@ == "0"@ && default@ == "0"@
                && constraints == (InputConstraints { length: 3, input_type: InputType::PositiveInteger }),
    {
        let values = [("5", "5"), ("10", "10"), ("15", "15"), ("20", "20"), ("24", "24"), ("25", "25"), ("original", "0"), ("30", "30"), ("50", "50"), ("60", "60")];
        let options = SelectOption::from_pairs(&values);
        assert(values_of(options@) =~= seq!["5"@, "10"@, "15"@, "20"@, "24"@, "25"@, "0"@, "30"@, "50"@, "60"@]);
        assert(names_of(options@) =~= seq!["5"@, "10"@, "15"@, "20"@, "24"@, "25"@, "original"@, "30"@, "50"@, "60"@]);
        Parameter::new(
            ParamKind::VideoFrameRate,
            "Video Frame Rate",
            ParameterData::CustomSelect {
                options,
                selected_index: 6,
                value: owned("0"),
                default: owned("0"),
                constraints: InputConstraints { length: 3, input_type: InputType::PositiveInteger },
            },
        )
    }

    /// `-r <value>`, unless the value is the default.
    pub fn build_command(cb: &mut CommandBuilder, data: &ParameterData)
        ensures
            final(cb)@ == step_flag(old(cb)@, *data, "-r"@),
    {
        if let Some(v) = custom_change_exec(data) {
            push_str(&mut cb.args, "-r");
            push_text(&mut cb.args, v.clone());
            assert(cb@.args =~= old(cb)@.args + seq!["-r"@, v@]);
        }
    }
}

pub struct VideoScale;

impl VideoScale {
    /// Checks a custom value and gives the text to commit (see `validated`).
    pub fn validate(value: &str) -> (r: Result<String, &'static str>)
        ensures
            match r {
                Ok(t) => validated(ParamKind::VideoScale, value@) == Some(t@),
                Err(_) => validated(ParamKind::VideoScale, value@) is None,
            },
    {
        ParamKind::VideoScale.validate(value)
    }

    /// How a committed value is shown (see `display_value`).
    pub fn format_value(value: &str) -> (r: String)
        ensures
            r@ == display_value(ParamKind::VideoScale, value@),
    {
        ParamKind::VideoScale.format_value(value)
    }

    pub fn new_parameter() -> (r: Parameter)
        ensures
            r.kind == ParamKind::VideoScale,
            r.name@ == "Video Scale"@,
            r.enabled,
            wf_param(r),
            r.data matches ParameterData::CustomSelect { options, selected_index, value, default, constraints }
                && values_of(options@) == seq!["144"@, "240"@, "360"@, "0"@, "480"@, "720"@, "1080"@]
                && names_of(options@) == values_of(options@)
                && selected_index == 3 && value@ == "0"@ && default@ == "0"@
                && constraints == (InputConstraints { length: 4, input_type: InputType::PositiveInteger }),
    {
        let values = ["144", "240", "360", "0", "480", "720", "1080"];
        let options = SelectOption::from_slice(&values);
        assert(values_of(options@) =~= seq!["144"@, "240"@, "360"@, "0"@, "480"@, "720"@, "1080"@]);
        assert(names_of(options@) =~= values_of(options@));
        Parameter::new(
            ParamKind::VideoScale,
            "Video Scale",
            ParameterData::CustomSelect {
                options,
                selected_index: 3,
                value: owned("0"),
                default: owned("0"),
                constraints: InputConstraints { length: 4, input_type: InputType::PositiveInteger },
            },
        )
    }

    /// Video filter `scale=-2:<value>`; the CUDA variant when the NVENC
    /// encoder was chosen and no other video filter came first.
    pub fn build_command(cb: &mut CommandBuilder, data: &ParameterData)
        ensures
            final(cb)@ == step_scale(old(cb)@, *data),
    {
        if let Some(v) = custom_change_exec(data) {
            if cb.hwaccel == HWAccel::Nvenc && cb.video_filters.len() == 0 {
                push_text(&mut cb.video_filters, cat("scale_cuda=-2:", v.as_str()));
            } else {
                push_text(&mut cb.video_filters, cat("scale=-2:", v.as_str()));
            }
        }
    }
}

pub struct HardwareAcceleration;

impl HardwareAcceleration {
    pub fn new_parameter() -> (r: Parameter)
        ensures
            r.kind == ParamKind::HardwareAcceleration,
            r.name@ == "HW Acceleration"@,
            r.enabled,
            wf_param(r),
            r.data matches ParameterData::Select { options, selected_index, default }
                && values_of(options@) == seq!["none"@, "qsv"@, "nvenc"@, "amf"@, "vaapi"@]
                && names_of(options@) == seq!["none"@, "intel"@, "nvidia"@, "amd"@, "vaapi"@]
                && selected_index == 0 && default@ == "none"@,
    {
        let values = [("none", "none"), ("intel", "qsv"), ("nvidia", "nvenc"), ("amd", "amf"), ("vaapi", "vaapi")];
        let options = SelectOption::from_pairs(&values);
        assert(values_of(options@) =~= seq!["none"@, "qsv"@, "nvenc"@, "amf"@, "vaapi"@]);
        assert(names_of(options@) =~= seq!["none"@, "intel"@, "nvidia"@, "amd"@, "vaapi"@]);
        Parameter::new(
            ParamKind::HardwareAcceleration,
            "HW Acceleration",
            ParameterData::Select { options, selected_index: 0, default: owned("none") },
        )
    }

    /// Device set-up and decoder arguments before the input, and the
    /// hardware H.264 encoder after it, for the chosen accelerator.
    pub fn build_command(cb: &mut CommandBuilder, data: &ParameterData)
        ensures
            final(cb)@ == step_hwaccel(old(cb)@, *data),
    {
        match option_change_exec(data) {
            Some(v) => {
                if str_eq(v.as_str(), "nvenc") {
                    cb.hwaccel = HWAccel::Nvenc;
                    push_str(&mut cb.pre_input_args, "-hwaccel");
                    push_str(&mut cb.pre_input_args, "cuda");
                    push_str(&mut cb.args, "-c:v");
                    push_str(&mut cb.args, "h264_nvenc");
                    assert(cb@.pre_input_args =~= old(cb)@.pre_input_args + seq!["-hwaccel"@, "cuda"@]);
                    assert(cb@.args =~= old(cb)@.args + seq!["-c:v"@, "h264_nvenc"@]);
                } else if str_eq(v.as_str(), "amf") {
                    cb.hwaccel = HWAccel::Amf;
                    push_str(&mut cb.args, "-c:v");
                    push_str(&mut cb.args, "h264_amf");
                    assert(cb@.args =~= old(cb)@.args + seq!["-c:v"@, "h264_amf"@]);
                } else if str_eq(v.as_str(), "vaapi") {
                    cb.hwaccel = HWAccel::Vaapi;
                    push_str(&mut cb.pre_input_args, "-hwaccel");
                    push_str(&mut cb.pre_input_args, "vaapi");
                    push_str(&mut cb.args, "-c:v");
                    push_str(&mut cb.args, "h264_vaapi");
                    assert(cb@.pre_input_args =~= old(cb)@.pre_input_args + seq!["-hwaccel"@, "vaapi"@]);
                    assert(cb@.args =~= old(cb)@.args + seq!["-c:v"@, "h264_vaapi"@]);
                } else if str_eq(v.as_str(), "qsv") {
                    cb.hwaccel = HWAccel::Qsv;
                    push_str(&mut cb.pre_input_args, "-init_hw_device");
                    push_str(&mut cb.pre_input_args, "qsv=hw");
                    push_str(&mut cb.pre_input_args, "-filter_hw_device");
                    push_str(&mut cb.pre_input_args, "hw");
                    // Full hardware decoding only when nothing filters the frames.
                    if cb.video_filters.len() == 0 {
                        push_str(&mut cb.pre_input_args, "-hwaccel");
                        push_str(&mut cb.pre_input_args, "qsv");
                        push_str(&mut cb.pre_input_args, "-c:v");
                        push_str(&mut cb.pre_input_args, "h264_qsv");
                    }
                    push_str(&mut cb.pre_input_args, "-hwaccel_output_format");
                    push_str(&mut cb.pre_input_args, "qsv");
                    push_str(&mut cb.args, "-c:v");
                    push_str(&mut cb.args, "h264_qsv");
                    assert(cb@.pre_input_args =~= old(cb)@.pre_input_args + qsv_pre_input(old(cb)@));
                    assert(cb@.args =~= old(cb)@.args + seq!["-c:v"@, "h264_qsv"@]);
                } else {
                    cb.hwaccel = HWAccel::Off;
                }
            },
            None => {
                cb.hwaccel = HWAccel::Off;
            },
        }
    }
}

} // verus!
