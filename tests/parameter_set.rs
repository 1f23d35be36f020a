use effy::builder::CommandBuilder;
use effy::media::MediaInfo;
use effy::params::kind::ParamKind;
use effy::params::parameter::{Parameter, ParameterData};
use effy::params::{apply_visitor, create_params, recheck_params};
use effy::render::render_command;

fn av_info() -> MediaInfo {
    MediaInfo {
        nb_streams: 2,
        codec_types: vec![Some("video".to_owned()), Some("audio".to_owned())],
        positive_duration: true,
    }
}

fn find(params: &mut Vec<Parameter>, kind: ParamKind) -> &mut Parameter {
    params.iter_mut().find(|p| p.kind == kind).unwrap()
}

fn enabled_flags(params: &[Parameter]) -> Vec<bool> {
    params.iter().map(|p| p.enabled).collect()
}

#[test]
fn created_parameters_follow_the_streams() {
    let params = create_params(&av_info(), "mkv");
    let kinds: Vec<ParamKind> = params.iter().map(|p| p.kind).collect();
    assert_eq!(
        kinds,
        vec![
            ParamKind::Trim,
            ParamKind::DisableAudio,
            ParamKind::AudioBitrate,
            ParamKind::AudioCrystalizer,
            ParamKind::AudioVolume,
            ParamKind::AudioPitch,
            ParamKind::SpeedFactor,
            ParamKind::VideoBitrate,
            ParamKind::VideoFrameRate,
            ParamKind::VideoScale,
            ParamKind::HardwareAcceleration,
            ParamKind::OutputFormat,
        ]
    );
    assert!(params.iter().all(|p| p.enabled));
    let audio_only = MediaInfo { nb_streams: 1, codec_types: vec![Some("audio".to_owned())], positive_duration: false };
    let kinds: Vec<ParamKind> = create_params(&audio_only, "mp3").iter().map(|p| p.kind).collect();
    assert_eq!(
        kinds,
        vec![
            ParamKind::AudioBitrate,
            ParamKind::AudioCrystalizer,
            ParamKind::AudioVolume,
            ParamKind::AudioPitch,
            ParamKind::SpeedFactor,
            ParamKind::OutputFormat,
        ]
    );
}

#[test]
fn streams_need_a_declared_count() {
    let info = MediaInfo { nb_streams: 0, codec_types: vec![Some("video".to_owned())], positive_duration: false };
    assert!(!info.has_video());
    assert!(av_info().has_audio());
    assert!(av_info().has_video());
}

#[test]
fn output_format_offers_the_input_extension() {
    let params = create_params(&av_info(), "mkv");
    let out = params.last().unwrap();
    match &out.data {
        ParameterData::Select { options, selected_index, default } => {
            let values: Vec<&str> = options.iter().map(|o| o.value.as_str()).collect();
            assert_eq!(values, vec!["mp4", "mp3", "wav", "flac", "ogg", "mkv"]);
            assert_eq!(*selected_index, 5);
            assert_eq!(default, "mkv");
        }
        _ => panic!("output format is a select"),
    }
}

#[test]
fn recheck_twice_equals_once() {
    let mut params = create_params(&av_info(), "mkv");
    find(&mut params, ParamKind::DisableAudio).toggle_next();
    recheck_params(&mut params);
    let once = enabled_flags(&params);
    recheck_params(&mut params);
    assert_eq!(enabled_flags(&params), once);
    assert!(!find(&mut params, ParamKind::AudioBitrate).enabled);
    assert!(find(&mut params, ParamKind::VideoScale).enabled);
}

#[test]
fn audio_only_output_forces_audio_back_on() {
    let mut params = create_params(&av_info(), "mkv");
    find(&mut params, ParamKind::DisableAudio).toggle_next();
    recheck_params(&mut params);
    // mkv -> mp4 -> mp3
    find(&mut params, ParamKind::OutputFormat).toggle_next();
    find(&mut params, ParamKind::OutputFormat).toggle_next();
    recheck_params(&mut params);
    for p in &params {
        let expected = !matches!(
            p.kind,
            ParamKind::DisableAudio
                | ParamKind::VideoBitrate
                | ParamKind::VideoFrameRate
                | ParamKind::VideoScale
                | ParamKind::HardwareAcceleration
        );
        assert_eq!(p.enabled, expected, "{:?}", p.kind);
    }
}

#[test]
fn disabled_audio_drops_every_audio_filter() {
    let mut params = create_params(&av_info(), "mkv");
    find(&mut params, ParamKind::AudioCrystalizer).set_custom_value("4").unwrap();
    find(&mut params, ParamKind::AudioVolume).set_custom_value("5").unwrap();
    find(&mut params, ParamKind::SpeedFactor).set_custom_value("2").unwrap();
    find(&mut params, ParamKind::DisableAudio).toggle_next();
    recheck_params(&mut params);
    let mut cb = CommandBuilder::new();
    apply_visitor(&mut cb, &params);
    assert!(cb.discard_audio);
    assert!(cb.audio_filters.is_empty());
    let args = render_command(&params, "in.mkv", "/out", "clip");
    assert_eq!(
        args,
        vec!["-y", "-hide_banner", "-i", "in.mkv", "-an", "-vf", "setpts=PTS/2", "/out/clip.mkv"]
    );
}

#[test]
fn defaults_add_no_arguments() {
    let params = create_params(&av_info(), "mkv");
    let args = render_command(&params, "in.mkv", "/out", "clip");
    assert_eq!(args, vec!["-y", "-hide_banner", "-i", "in.mkv", "/out/clip.mkv"]);
}

#[test]
fn custom_audio_bitrate_reaches_the_output_arguments() {
    let mut params = create_params(&av_info(), "mkv");
    find(&mut params, ParamKind::AudioBitrate).set_custom_value("80").unwrap();
    let mut cb = CommandBuilder::new();
    apply_visitor(&mut cb, &params);
    assert_eq!(cb.args, vec!["-b:a", "80k"]);
}

#[test]
fn speed_factor_filters_both_streams() {
    let mut params = create_params(&av_info(), "mkv");
    find(&mut params, ParamKind::SpeedFactor).set_custom_value("2").unwrap();
    let mut cb = CommandBuilder::new();
    apply_visitor(&mut cb, &params);
    assert!(cb.audio_filters.contains(&"atempo=2".to_owned()));
    assert!(cb.video_filters.contains(&"setpts=PTS/2".to_owned()));
}

#[test]
fn mp4_output_gets_faststart_last() {
    let mut params = create_params(&av_info(), "mkv");
    find(&mut params, ParamKind::OutputFormat).toggle_next();
    find(&mut params, ParamKind::VideoBitrate).set_custom_value("2M").unwrap();
    find(&mut params, ParamKind::VideoScale).set_custom_value("720").unwrap();
    let args = render_command(&params, "in.mkv", ".", "clip");
    assert_eq!(
        args,
        vec!["-y", "-hide_banner", "-i", "in.mkv", "-b:v", "2M", "-movflags", "faststart", "-vf", "scale=-2:720", "./clip.mp4"]
    );
}

#[test]
fn nvenc_uses_cuda_scaling() {
    let mut params = create_params(&av_info(), "mkv");
    let hw = find(&mut params, ParamKind::HardwareAcceleration);
    hw.toggle_next();
    hw.toggle_next();
    find(&mut params, ParamKind::VideoScale).set_custom_value("480").unwrap();
    let args = render_command(&params, "in.mkv", ".", "clip");
    assert_eq!(
        args,
        vec![
            "-y", "-hide_banner", "-hwaccel", "cuda", "-i", "in.mkv", "-c:v", "h264_nvenc", "-vf",
            "scale_cuda=-2:480", "./clip.mkv"
        ]
    );
}

#[test]
fn qsv_skips_full_decoding_after_a_filter() {
    let mut params = create_params(&av_info(), "mkv");
    find(&mut params, ParamKind::HardwareAcceleration).toggle_next();
    find(&mut params, ParamKind::SpeedFactor).set_custom_value("1.5").unwrap();
    let args = render_command(&params, "in.mkv", ".", "clip");
    assert_eq!(
        args,
        vec![
            "-y", "-hide_banner", "-init_hw_device", "qsv=hw", "-filter_hw_device", "hw",
            "-hwaccel_output_format", "qsv", "-i", "in.mkv", "-c:v", "h264_qsv", "-af", "atempo=1.5", "-vf",
            "setpts=PTS/1.5", "./clip.mkv"
        ]
    );
}

#[test]
fn trim_goes_before_or_after_the_input() {
    let mut params = create_params(&av_info(), "mkv");
    let trim = find(&mut params, ParamKind::Trim);
    let mut data = match trim.toggle_next() {
        Some(d) => d,
        None => panic!("trim opens an editor"),
    };
    data.ss = Some("10".to_owned());
    data.to = Some("20".to_owned());
    trim.set_trim(data);
    let args = render_command(&params, "in.mkv", ".", "clip");
    assert_eq!(args, vec!["-y", "-hide_banner", "-ss", "10", "-t", "20", "-i", "in.mkv", "./clip.mkv"]);
    let trim = find(&mut params, ParamKind::Trim);
    let mut data = trim.edit_request().map(|r| match r {
        effy::params::parameter::EditRequest::Trim(t) => t,
        _ => panic!("trim edits a time range"),
    }).unwrap();
    data.precise = true;
    data.use_to = true;
    trim.set_trim(data);
    assert_eq!(trim.describe_value(), "!10..to: 20");
    let args = render_command(&params, "in.mkv", ".", "clip");
    assert_eq!(args, vec!["-y", "-hide_banner", "-i", "in.mkv", "-ss", "10", "-to", "20", "./clip.mkv"]);
}

#[test]
fn disabled_parameters_ignore_changes() {
    let mut params = create_params(&av_info(), "mkv");
    find(&mut params, ParamKind::DisableAudio).toggle_next();
    recheck_params(&mut params);
    let p = find(&mut params, ParamKind::AudioBitrate);
    assert!(!p.enabled);
    assert!(p.toggle_next().is_none());
    assert_eq!(p.set_custom_value("128"), Ok(()));
    assert_eq!(p.describe_value(), "auto");
}

#[test]
fn toggles_wrap_around() {
    let mut p = effy::params::video::HardwareAcceleration::new_parameter();
    p.toggle_prev();
    assert_eq!(p.describe_value(), "vaapi");
    p.toggle_next();
    assert_eq!(p.describe_value(), "none");
    let mut s = effy::params::video::VideoScale::new_parameter();
    s.toggle_next();
    assert_eq!(s.describe_value(), "480p");
    assert_eq!(s.describe(), "Video Scale: 480p");
    let mut d = effy::params::audio::DisableAudio::new_parameter();
    assert_eq!(d.describe_value(), "off");
    d.toggle_prev();
    assert_eq!(d.describe_value(), "on");
}

#[test]
fn descriptions_format_values() {
    let mut b = effy::params::audio::AudioBitrate::new_parameter();
    assert_eq!(b.describe_value(), "auto");
    b.set_custom_value("80").unwrap();
    assert_eq!(b.describe_value(), "80k");
    let mut v = effy::params::audio::AudioVolume::new_parameter();
    assert_eq!(v.describe_value(), "original");
    v.set_custom_value("-5").unwrap();
    assert_eq!(v.describe_value(), "-5dB");
    let t = effy::params::common::Trim::new_parameter();
    assert_eq!(t.describe(), "Trim: ~start..duration: end");
    assert!(t.is_editable());
    assert!(!effy::params::audio::DisableAudio::new_parameter().is_editable());
}

#[test]
fn rejected_custom_value_is_not_committed() {
    let mut p = effy::params::video::VideoScale::new_parameter();
    assert!(p.set_custom_value("32").is_err());
    assert_eq!(p.describe_value(), "original");
    assert_eq!(p.set_custom_value("0720"), Ok(()));
    assert_eq!(p.describe_value(), "720p");
}
