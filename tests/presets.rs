use effy::media::MediaInfo;
use effy::params::create_params;
use effy::params::kind::ParamKind;
use effy::params::parameter::{Parameter, ParameterData};
use effy::preset::{apply_preset, parse_preset, save_preset, PresetApplier, PresetSaver};

fn av_info() -> MediaInfo {
    MediaInfo {
        nb_streams: 2,
        codec_types: vec![Some("video".to_owned()), Some("audio".to_owned())],
        positive_duration: true,
    }
}

fn find(params: &mut Vec<Parameter>, kind: ParamKind) -> &mut Parameter {
    params.iter_mut().find(|p| p.kind == kind).unwrap()
}

fn custom_value(params: &mut Vec<Parameter>, kind: ParamKind) -> String {
    match &find(params, kind).data {
        ParameterData::CustomSelect { value, .. } => value.clone(),
        _ => panic!("not a custom select"),
    }
}

#[test]
fn preset_applied_to_fresh_set_saves_back_identically() {
    let mut params = create_params(&av_info(), "mkv");
    apply_preset(&mut params, "abitrate:80;vbitrate:2M");
    assert_eq!(save_preset(&params), "abitrate:80;vbitrate:2M");
}

#[test]
fn fresh_set_saves_to_empty_text() {
    let params = create_params(&av_info(), "mkv");
    assert_eq!(save_preset(&params), "");
}

#[test]
fn saved_values_come_back() {
    let mut mutated = create_params(&av_info(), "mkv");
    find(&mut mutated, ParamKind::AudioPitch).set_custom_value("1.25").unwrap();
    find(&mut mutated, ParamKind::AudioVolume).set_custom_value("-10").unwrap();
    find(&mut mutated, ParamKind::VideoFrameRate).set_custom_value("30").unwrap();
    find(&mut mutated, ParamKind::HardwareAcceleration).toggle_next();
    find(&mut mutated, ParamKind::OutputFormat).toggle_next();
    find(&mut mutated, ParamKind::DisableAudio).toggle_next();
    let text = save_preset(&mutated);
    assert_eq!(text, "noaudio:true;volume:-10;pitch:1.25;fps:30;hwaccel:qsv;output:mp4");
    let mut fresh = create_params(&av_info(), "mkv");
    apply_preset(&mut fresh, &text);
    assert_eq!(custom_value(&mut fresh, ParamKind::AudioPitch), "1.25");
    assert_eq!(custom_value(&mut fresh, ParamKind::AudioVolume), "-10");
    assert_eq!(custom_value(&mut fresh, ParamKind::VideoFrameRate), "30");
    assert_eq!(find(&mut fresh, ParamKind::HardwareAcceleration).describe_value(), "intel");
    assert_eq!(find(&mut fresh, ParamKind::OutputFormat).describe_value(), "mp4");
    assert_eq!(find(&mut fresh, ParamKind::DisableAudio).describe_value(), "on");
    assert_eq!(save_preset(&fresh), text);
}

#[test]
fn invalid_entries_are_ignored() {
    let mut params = create_params(&av_info(), "mkv");
    apply_preset(&mut params, "abitrate:99999;bogus;scale:abc;unknown:5;volume:5;output:avi;noaudio:maybe");
    assert_eq!(save_preset(&params), "volume:5");
}

#[test]
fn values_are_normalised_and_last_entry_wins() {
    let mut params = create_params(&av_info(), "mkv");
    apply_preset(&mut params, "abitrate:64;abitrate:0128;speed:+01.50;vbitrate: 3m ");
    assert_eq!(save_preset(&params), "abitrate:128;speed:1.5;vbitrate:3M");
}

#[test]
fn parsing_cuts_at_the_first_colon() {
    let pairs = parse_preset("a:b:c;;x;:v;id:");
    let got: Vec<(&str, &str)> = pairs.iter().map(|(a, b)| (a.as_str(), b.as_str())).collect();
    assert_eq!(got, vec![("a", "b:c"), ("", "v"), ("id", "")]);
    let applier = PresetApplier::new("k:1;k:2");
    assert_eq!(applier.get("k").map(|v| v.as_str()), Some("2"));
    assert!(applier.get("z").is_none());
}

#[test]
fn saver_joins_pairs() {
    let mut saver = PresetSaver::new();
    assert_eq!(saver.collect(), "");
    saver.add("a", "1");
    saver.add("b", "2");
    assert_eq!(saver.collect(), "a:1;b:2");
}
