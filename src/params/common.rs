use vstd::prelude::*;
use crate::builder::{append_texts, custom_change_exec, finalize, push_str, push_text, step_output, step_speed, step_trim, texts, trim_args, CommandBuilder};
use crate::media::{has_stream_type, MediaInfo};
use crate::model::{InputConstraints, InputType, TrimData};
use crate::params::kind::{validated, ParamKind};
use crate::params::parameter::{names_of, values_of, wf_param, Parameter, ParameterData, SelectOption};
use crate::text::{cat, owned, str_eq};

verus! {

pub struct SpeedFactor;

impl SpeedFactor {
    /// Checks a custom value and gives the text to commit (see `validated`).
    pub fn validate(value: &str) -> (r: Result<String, &'static str>)
        ensures
            match r {
                Ok(t) => validated(ParamKind::SpeedFactor, value@) == Some(t@),
                Err(_) => validated(ParamKind::SpeedFactor, value@) is None,
            },
    {
        ParamKind::SpeedFactor.validate(value)
    }

    pub fn new_parameter() -> (r: Parameter)
        ensures
            r.kind == ParamKind::SpeedFactor,
            r.name@ == "Speed"@,
            r.enabled,
            wf_param(r),
            r.data matches ParameterData::CustomSelect { options, selected_index, value, default, constraints }
                && values_of(options@) == seq!["0.5"@, "0.75"@, "0.8"@, "0.9"@, "1"@, "1.25"@, "1.4"@, "1.5"@, "1.6"@, "1.8"@, "2"@, "2.5"@, "3"@]
                && names_of(options@) == values_of(options@)
                && selected_index == 4 && value@ == "1"@ && default@ == "1"@
                && constraints == (InputConstraints { length: 4, input_type: InputType::PositiveDecimal }),
    {
        let values = ["0.5", "0.75", "0.8", "0.9", "1", "1.25", "1.4", "1.5", "1.6", "1.8", "2", "2.5", "3"];
        let options = SelectOption::from_slice(&values);
        assert(values_of(options@) =~= seq!["0.5"@, "0.75"@, "0.8"@, "0.9"@, "1"@, "1.25"@, "1.4"@, "1.5"@, "1.6"@, "1.8"@, "2"@, "2.5"@, "3"@]);
        assert(names_of(options@) =~= values_of(options@));
        Parameter::new(
            ParamKind::SpeedFactor,
            "Speed",
            ParameterData::CustomSelect {
                options,
                selected_index: 4,
                value: owned("1"),
                default: owned("1"),
                constraints: InputConstraints { length: 4, input_type: InputType::PositiveDecimal },
            },
        )
    }

    /// Speeds both streams up by the factor: `atempo=<f>` for audio (unless
    /// it is dropped) and `setpts=PTS/<f>` for video.
    pub fn build_command(cb: &mut CommandBuilder, data: &ParameterData)
        ensures
            final(cb)@ == step_speed(old(cb)@, *data),
    {
        if let Some(v) = custom_change_exec(data) {
            cb.speed_factor = Some(v.clone());
            if !cb.discard_audio {
                push_text(&mut cb.audio_filters, cat("atempo=", v.as_str()));
            }
            push_text(&mut cb.video_filters, cat("setpts=PTS/", v.as_str()));
        }
    }
}

pub struct Trim;

impl Trim {
    pub fn new_parameter() -> (r: Parameter)
        ensures
            r.kind == ParamKind::Trim,
            r.name@ == "Trim"@,
            r.enabled,
            wf_param(r),
            r.data matches ParameterData::Trim(t) && t.ss is None && t.to is None && !t.use_to && !t.precise,
    {
        Parameter::new(ParamKind::Trim, "Trim", ParameterData::Trim(TrimData::new()))
    }

    /// `-ss <start>` and `-to <end>` or `-t <duration>`: after the input when
    /// trimming is precise, as input seeking otherwise.
    pub fn build_command(cb: &mut CommandBuilder, data: &ParameterData)
        ensures
            final(cb)@ == step_trim(old(cb)@, *data),
    {
        if let ParameterData::Trim(t) = data {
            let mut a: Vec<String> = Vec::new();
            if let Some(ss) = &t.ss {
                push_str(&mut a, "-ss");
                push_text(&mut a, ss.clone());
            }
            if let Some(to) = &t.to {
                if t.use_to {
                    push_str(&mut a, "-to");
                } else {
                    push_str(&mut a, "-t");
                }
                push_text(&mut a, to.clone());
            }
            assert(texts(a@) =~= trim_args(*t));
            if t.precise {
                append_texts(&mut cb.args, &a);
            } else {
                append_texts(&mut cb.pre_input_args, &a);
            }
        }
    }
}

/// Containers that hold audio alone.
pub open spec fn is_audio_ext(e: Seq<char>) -> bool {
    e == "mp3"@ || e == "wav"@ || e == "flac"@ || e == "ogg"@
}

pub open spec fn format_choices(video: bool, audio: bool) -> Seq<Seq<char>> {
    (if video { seq!["mp4"@] } else { Seq::empty() }) + (if audio {
        seq!["mp3"@, "wav"@, "flac"@, "ogg"@]
    } else {
        Seq::empty()
    })
}

/// The output formats offered: those the streams allow, and the input's own
/// extension when it is not among them.
pub open spec fn output_values(video: bool, audio: bool, ext: Seq<char>) -> Seq<Seq<char>> {
    let c = format_choices(video, audio);
    if c.contains(ext) { c } else { c.push(ext) }
}

/// The output format selected at first: the first offered when the input's
/// extension is among the choices, else the input's extension.
pub open spec fn output_index(video: bool, audio: bool, ext: Seq<char>) -> int {
    let c = format_choices(video, audio);
    if c.contains(ext) { 0 } else { c.len() as int }
}

fn options_of_values(values: &Vec<String>) -> (r: Vec<SelectOption>)
    ensures
        values_of(r@) == texts(values@),
        names_of(r@) == texts(values@),
{
    let mut r: Vec<SelectOption> = Vec::new();
    let mut i: usize = 0;
    while i < values.len()
        invariant
            i <= values.len(),
            values_of(r@) == texts(values@).take(i as int),
            names_of(r@) == texts(values@).take(i as int),
        decreases values.len() - i,
    {
        let ghost prev = r@;
        let o = SelectOption::new(values[i].as_str(), values[i].as_str());
        r.push(o);
        assert(values_of(r@) =~= values_of(prev).push(values@[i as int]@));
        assert(names_of(r@) =~= names_of(prev).push(values@[i as int]@));
        assert(texts(values@).take(i + 1) =~= texts(values@).take(i as int).push(values@[i as int]@));
        i += 1;
        assert(values_of(r@) =~= texts(values@).take(i as int));
        assert(names_of(r@) =~= texts(values@).take(i as int));
    }
    assert(texts(values@).take(values.len() as int) =~= texts(values@));
    r
}

fn contains_text(values: &Vec<String>, s: &str) -> (r: bool)
    ensures
        r == texts(values@).contains(s@),
{
    let mut i: usize = 0;
    while i < values.len()
        invariant
            i <= values.len(),
            forall|j: int| 0 <= j < i ==> texts(values@)[j] != s@,
        decreases values.len() - i,
    {
        if str_eq(values[i].as_str(), s) {
            assert(texts(values@)[i as int] == s@);
            return true;
        }
        i += 1;
    }
    false
}

pub struct OutputFormat;

impl OutputFormat {
    pub fn new_parameter(info: &MediaInfo, source_ext: &str) -> (r: Parameter)
        ensures
            r.kind == ParamKind::OutputFormat,
            r.name@ == "Output"@,
            r.enabled,
            wf_param(r),
            ({
                let video = has_stream_type(*info, "video"@);
                let audio = has_stream_type(*info, "audio"@);
                r.data matches ParameterData::Select { options, selected_index, default }
                    && values_of(options@) == output_values(video, audio, source_ext@)
                    && names_of(options@) == values_of(options@)
                    && selected_index == output_index(video, audio, source_ext@)
                    && default@ == output_values(video, audio, source_ext@)[selected_index as int]
            }),
    {
        let video = info.has_video();
        let audio = info.has_audio();
        let mut values: Vec<String> = Vec::new();
        if video {
            push_str(&mut values, "mp4");
        }
        if audio {
            push_str(&mut values, "mp3");
            push_str(&mut values, "wav");
            push_str(&mut values, "flac");
            push_str(&mut values, "ogg");
        }
        assert(texts(values@) =~= format_choices(video, audio));
        let mut selected_index: usize = 0;
        if !contains_text(&values, source_ext) {
            selected_index = values.len();
            push_str(&mut values, source_ext);
        }
        assert(texts(values@) =~= output_values(video, audio, source_ext@));
        let default = values[selected_index].clone();
        let options = options_of_values(&values);
        Parameter::new(ParamKind::OutputFormat, "Output", ParameterData::Select { options, selected_index, default })
    }

    /// Whether `ext` names a container of audio alone.
    pub fn is_audio(ext: &str) -> (r: bool)
        ensures
            r == is_audio_ext(ext@),
    {
        str_eq(ext, "mp3") || str_eq(ext, "wav") || str_eq(ext, "flac") || str_eq(ext, "ogg")
    }

    /// Takes the selected container as the output's extension.
    pub fn build_command(cb: &mut CommandBuilder, data: &ParameterData)
        ensures
            final(cb)@ == step_output(old(cb)@, *data),
    {
        if let ParameterData::Select { options, selected_index, .. } = data {
            if *selected_index < options.len() {
                cb.ext = options[*selected_index].value.clone();
            }
        }
    }
}

/// Arguments that depend only on the output container; run after every
/// parameter, whatever is enabled.
pub struct Finalizer;

impl Finalizer {
    /// `-movflags faststart` for MP4 and QuickTime output.
    pub fn build_command(cb: &mut CommandBuilder)
        ensures
            final(cb)@ == finalize(old(cb)@),
    {
        if str_eq(cb.ext.as_str(), "mp4") || str_eq(cb.ext.as_str(), "mov") {
            push_str(&mut cb.args, "-movflags");
            push_str(&mut cb.args, "faststart");
            assert(cb@.args =~= old(cb)@.args + seq!["-movflags"@, "faststart"@]);
        }
    }
}

} // verus!
