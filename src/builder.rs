use vstd::prelude::*;
use crate::model::TrimData;
use crate::params::kind::ParamKind;
use crate::params::parameter::ParameterData;
use crate::text::{cat, owned, str_eq};

verus! {

/// Which hardware encoder an earlier parameter chose.
#[derive(Debug, Clone, Copy, PartialEq, Eq, Structural)]
pub enum HWAccel {
    Off,
    Nvenc,
    Qsv,
    Amf,
    Vaapi,
}

/// Argument buckets filled while the enabled parameters are visited in
/// synthesis order.
pub struct CommandBuilder {
    /// Set once a parameter dropped the audio stream; later audio parameters
    /// then add nothing.
    pub discard_audio: bool,
    pub hwaccel: HWAccel,
    pub speed_factor: Option<String>,
    pub audio_filters: Vec<String>,
    pub video_filters: Vec<String>,
    /// Placed before `-i <input>`.
    pub pre_input_args: Vec<String>,
    /// Placed after the input, before the filters.
    pub args: Vec<String>,
    /// Extension of the output container.
    pub ext: String,
}

pub struct BuilderView {
    pub discard_audio: bool,
    pub hwaccel: HWAccel,
    pub speed_factor: Option<Seq<char>>,
    pub audio_filters: Seq<Seq<char>>,
    pub video_filters: Seq<Seq<char>>,
    pub pre_input_args: Seq<Seq<char>>,
    pub args: Seq<Seq<char>>,
    pub ext: Seq<char>,
}

pub open spec fn texts(v: Seq<String>) -> Seq<Seq<char>> {
    v.map_values(|s: String| s@)
}

pub open spec fn opt_text(o: Option<String>) -> Option<Seq<char>> {
    match o {
        Some(s) => Some(s@),
        None => None,
    }
}

impl View for CommandBuilder {
    type V = BuilderView;

    open spec fn view(&self) -> BuilderView {
        BuilderView {
            discard_audio: self.discard_audio,
            hwaccel: self.hwaccel,
            speed_factor: opt_text(self.speed_factor),
            audio_filters: texts(self.audio_filters@),
            video_filters: texts(self.video_filters@),
            pre_input_args: texts(self.pre_input_args@),
            args: texts(self.args@),
            ext: self.ext@,
        }
    }
}

pub open spec fn initial_view() -> BuilderView {
    BuilderView {
        discard_audio: false,
        hwaccel: HWAccel::Off,
        speed_factor: None,
        audio_filters: Seq::empty(),
        video_filters: Seq::empty(),
        pre_input_args: Seq::empty(),
        args: Seq::empty(),
        ext: Seq::empty(),
    }
}

/// The custom value of a custom select, when it is not the default.
pub open spec fn custom_change(d: ParameterData) -> Option<Seq<char>> {
    match d {
        ParameterData::CustomSelect { value, default, .. } => if value@ != default@ { Some(value@) } else { None },
        _ => None,
    }
}

/// The selected option's value of a select, when it is not the default.
pub open spec fn option_change(d: ParameterData) -> Option<Seq<char>> {
    match d {
        ParameterData::Select { options, selected_index, default } =>
            if selected_index < options.len() && options@[selected_index as int].value@ != default@ {
                Some(options@[selected_index as int].value@)
            } else {
                None
            },
        _ => None,
    }
}

pub open spec fn trim_args(t: TrimData) -> Seq<Seq<char>> {
    (match t.ss {
        Some(s) => seq!["-ss"@, s@],
        None => Seq::empty(),
    }) + (match t.to {
        Some(s) => seq![if t.use_to { "-to"@ } else { "-t"@ }, s@],
        None => Seq::empty(),
    })
}

pub open spec fn step_trim(s: BuilderView, d: ParameterData) -> BuilderView {
    match d {
        ParameterData::Trim(t) => if t.precise {
            BuilderView { args: s.args + trim_args(t), ..s }
        } else {
            BuilderView { pre_input_args: s.pre_input_args + trim_args(t), ..s }
        },
        _ => s,
    }
}

pub open spec fn step_disable_audio(s: BuilderView, d: ParameterData) -> BuilderView {
    match d {
        ParameterData::Toggle { value } => if value {
            BuilderView { discard_audio: true, args: s.args.push("-an"@), ..s }
        } else {
            s
        },
        _ => s,
    }
}

/// An audio parameter that adds one audio filter `prefix + value + suffix`.
pub open spec fn step_audio_filter(s: BuilderView, d: ParameterData, prefix: Seq<char>, suffix: Seq<char>) -> BuilderView {
    match custom_change(d) {
        Some(v) => if !s.discard_audio {
            BuilderView { audio_filters: s.audio_filters.push(prefix + v + suffix), ..s }
        } else {
            s
        },
        None => s,
    }
}

pub open spec fn step_audio_bitrate(s: BuilderView, d: ParameterData) -> BuilderView {
    match custom_change(d) {
        Some(v) => if !s.discard_audio {
            BuilderView { args: s.args + seq!["-b:a"@, v + "k"@], ..s }
        } else {
            s
        },
        None => s,
    }
}

pub open spec fn step_speed(s: BuilderView, d: ParameterData) -> BuilderView {
    match custom_change(d) {
        Some(v) => BuilderView {
            speed_factor: Some(v),
            audio_filters: if s.discard_audio { s.audio_filters } else { s.audio_filters.push("atempo="@ + v) },
            video_filters: s.video_filters.push("setpts=PTS/"@ + v),
            ..s
        },
        None => s,
    }
}

/// A parameter that adds the output arguments `flag value`.
pub open spec fn step_flag(s: BuilderView, d: ParameterData, flag: Seq<char>) -> BuilderView {
    match custom_change(d) {
        Some(v) => BuilderView { args: s.args + seq![flag, v], ..s },
        None => s,
    }
}

pub open spec fn step_scale(s: BuilderView, d: ParameterData) -> BuilderView {
    match custom_change(d) {
        Some(v) => {
            let f = if s.hwaccel == HWAccel::Nvenc && s.video_filters.len() == 0 {
                "scale_cuda=-2:"@ + v
            } else {
                "scale=-2:"@ + v
            };
            BuilderView { video_filters: s.video_filters.push(f), ..s }
        },
        None => s,
    }
}

pub open spec fn qsv_pre_input(s: BuilderView) -> Seq<Seq<char>> {
    seq!["-init_hw_device"@, "qsv=hw"@, "-filter_hw_device"@, "hw"@] + (if s.video_filters.len() == 0 {
        seq!["-hwaccel"@, "qsv"@, "-c:v"@, "h264_qsv"@]
    } else {
        Seq::empty()
    }) + seq!["-hwaccel_output_format"@, "qsv"@]
}

pub open spec fn step_hwaccel(s: BuilderView, d: ParameterData) -> BuilderView {
    match option_change(d) {
        Some(v) => if v == "nvenc"@ {
            BuilderView {
                hwaccel: HWAccel::Nvenc,
                pre_input_args: s.pre_input_args + seq!["-hwaccel"@, "cuda"@],
                args: s.args + seq!["-c:v"@, "h264_nvenc"@],
                ..s
            }
        } else if v == "amf"@ {
            BuilderView { hwaccel: HWAccel::Amf, args: s.args + seq!["-c:v"@, "h264_amf"@], ..s }
        } else if v == "vaapi"@ {
            BuilderView {
                hwaccel: HWAccel::Vaapi,
                pre_input_args: s.pre_input_args + seq!["-hwaccel"@, "vaapi"@],
                args: s.args + seq!["-c:v"@, "h264_vaapi"@],
                ..s
            }
        } else if v == "qsv"@ {
            BuilderView {
                hwaccel: HWAccel::Qsv,
                pre_input_args: s.pre_input_args + qsv_pre_input(s),
                args: s.args + seq!["-c:v"@, "h264_qsv"@],
                ..s
            }
        } else {
            BuilderView { hwaccel: HWAccel::Off, ..s }
        },
        None => BuilderView { hwaccel: HWAccel::Off, ..s },
    }
}

pub open spec fn step_output(s: BuilderView, d: ParameterData) -> BuilderView {
    match d {
        ParameterData::Select { options, selected_index, .. } => if selected_index < options.len() {
            BuilderView { ext: options@[selected_index as int].value@, ..s }
        } else {
            s
        },
        _ => s,
    }
}

/// Arguments that depend on the output container alone; added last.
pub open spec fn finalize(s: BuilderView) -> BuilderView {
    if s.ext == "mp4"@ || s.ext == "mov"@ {
        BuilderView { args: s.args + seq!["-movflags"@, "faststart"@], ..s }
    } else {
        s
    }
}

/// What visiting a parameter of kind `k` holding `d` does to the builder.
pub open spec fn step(s: BuilderView, k: ParamKind, d: ParameterData) -> BuilderView {
    match k {
        ParamKind::Trim => step_trim(s, d),
        ParamKind::DisableAudio => step_disable_audio(s, d),
        ParamKind::AudioBitrate => step_audio_bitrate(s, d),
        ParamKind::AudioCrystalizer => step_audio_filter(s, d, "crystalizer="@, Seq::empty()),
        ParamKind::AudioVolume => step_audio_filter(s, d, "volume="@, "dB"@),
        ParamKind::AudioPitch => step_audio_filter(s, d, "rubberband=pitchq=quality:pitch="@, Seq::empty()),
        ParamKind::SpeedFactor => step_speed(s, d),
        ParamKind::HardwareAcceleration => step_hwaccel(s, d),
        ParamKind::VideoBitrate => step_flag(s, d, "-b:v"@),
        ParamKind::VideoFrameRate => step_flag(s, d, "-r"@),
        ParamKind::VideoScale => step_scale(s, d),
        ParamKind::OutputFormat => step_output(s, d),
    }
}

/// `parts` joined with `sep` between each two.
pub open spec fn join(parts: Seq<Seq<char>>, sep: Seq<char>) -> Seq<char>
    decreases parts.len(),
{
    if parts.len() == 0 {
        Seq::empty()
    } else if parts.len() == 1 {
        parts[0]
    } else {
        join(parts.drop_last(), sep) + sep + parts.last()
    }
}

/// Output arguments, then `-af` and `-vf` with the joined filter chains.
pub open spec fn output_args(s: BuilderView) -> Seq<Seq<char>> {
    s.args + (if !s.discard_audio && s.audio_filters.len() > 0 {
        seq!["-af"@, join(s.audio_filters, ","@)]
    } else {
        Seq::empty()
    }) + (if s.video_filters.len() > 0 {
        seq!["-vf"@, join(s.video_filters, ","@)]
    } else {
        Seq::empty()
    })
}

pub fn push_text(v: &mut Vec<String>, s: String)
    ensures
        texts(final(v)@) == texts(old(v)@).push(s@),
{
    v.push(s);
    assert(texts(v@) =~= texts(old(v)@).push(s@));
}

pub fn push_str(v: &mut Vec<String>, s: &str)
    ensures
        texts(final(v)@) == texts(old(v)@).push(s@),
{
    push_text(v, owned(s));
}

pub fn clone_texts(v: &Vec<String>) -> (r: Vec<String>)
    ensures
        texts(r@) == texts(v@),
{
    let mut r: Vec<String> = Vec::new();
    let mut i: usize = 0;
    while i < v.len()
        invariant
            i <= v.len(),
            texts(r@) == texts(v@).take(i as int),
        decreases v.len() - i,
    {
        push_text(&mut r, v[i].clone());
        i += 1;
        assert(texts(r@) =~= texts(v@).take(i as int));
    }
    assert(texts(v@).take(v.len() as int) =~= texts(v@));
    r
}

pub fn append_texts(v: &mut Vec<String>, w: &Vec<String>)
    ensures
        texts(final(v)@) == texts(old(v)@) + texts(w@),
{
    let mut i: usize = 0;
    while i < w.len()
        invariant
            i <= w.len(),
            texts(v@) == texts(old(v)@) + texts(w@).take(i as int),
        decreases w.len() - i,
    {
        push_text(v, w[i].clone());
        i += 1;
        assert(texts(v@) =~= texts(old(v)@) + texts(w@).take(i as int));
    }
    assert(texts(w@).take(w.len() as int) =~= texts(w@));
}

/// `parts` joined with `sep`.
pub fn join_texts(parts: &Vec<String>, sep: &str) -> (r: String)
    ensures
        r@ == join(texts(parts@), sep@),
{
    let mut r = String::new();
    let mut i: usize = 0;
    while i < parts.len()
        invariant
            i <= parts.len(),
            r@ == join(texts(parts@).take(i as int), sep@),
        decreases parts.len() - i,
    {
        let ghost before = texts(parts@).take(i as int);
        if i == 0 {
            r = parts[0].clone();
        } else {
            r = cat(r.as_str(), sep);
            r = cat(r.as_str(), parts[i].as_str());
        }
        i += 1;
        assert(texts(parts@).take(i as int).drop_last() =~= before);
    }
    assert(texts(parts@).take(parts.len() as int) =~= texts(parts@));
    r
}

impl CommandBuilder {
    pub fn new() -> (r: CommandBuilder)
        ensures
            r@ == initial_view(),
    {
        let r = CommandBuilder {
            discard_audio: false,
            hwaccel: HWAccel::Off,
            speed_factor: None,
            audio_filters: Vec::new(),
            video_filters: Vec::new(),
            pre_input_args: Vec::new(),
            args: Vec::new(),
            ext: String::new(),
        };
        assert(r@.audio_filters =~= Seq::<Seq<char>>::empty());
        assert(r@.video_filters =~= Seq::<Seq<char>>::empty());
        assert(r@.pre_input_args =~= Seq::<Seq<char>>::empty());
        assert(r@.args =~= Seq::<Seq<char>>::empty());
        r
    }

    /// Arguments placed before the input.
    pub fn build_pre_input_args(&self) -> (r: Vec<String>)
        ensures
            texts(r@) == self@.pre_input_args,
    {
        clone_texts(&self.pre_input_args)
    }

    /// Arguments placed after the input: output arguments, then the audio
    /// filter chain (unless audio is dropped) and the video filter chain.
    pub fn build_args(&self) -> (r: Vec<String>)
        ensures
            texts(r@) == output_args(self@),
    {
        let mut r = clone_texts(&self.args);
        if !self.discard_audio && self.audio_filters.len() > 0 {
            push_str(&mut r, "-af");
            push_text(&mut r, join_texts(&self.audio_filters, ","));
        }
        if self.video_filters.len() > 0 {
            push_str(&mut r, "-vf");
            push_text(&mut r, join_texts(&self.video_filters, ","));
        }
        assert(texts(r@) =~= output_args(self@));
        r
    }
}

impl Default for CommandBuilder {
    fn default() -> (r: CommandBuilder)
        ensures
            r@ == initial_view(),
    {
        CommandBuilder::new()
    }
}


pub fn custom_change_exec(d: &ParameterData) -> (r: Option<&String>)
    ensures
        match r {
            Some(v) => custom_change(*d) == Some(v@),
            None => custom_change(*d) is None,
        },
{
    match d {
        ParameterData::CustomSelect { value, default, .. } => if !str_eq(value.as_str(), default.as_str()) {
            Some(value)
        } else {
            None
        },
        _ => None,
    }
}


pub fn option_change_exec(d: &ParameterData) -> (r: Option<&String>)
    ensures
        match r {
            Some(v) => option_change(*d) == Some(v@),
            None => option_change(*d) is None,
        },
{
    match d {
        ParameterData::Select { options, selected_index, default } =>
            if *selected_index < options.len() && !str_eq(options[*selected_index].value.as_str(), default.as_str()) {
                Some(&options[*selected_index].value)
            } else {
                None
            },
        _ => None,
    }
}

} // verus!
