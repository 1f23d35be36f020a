use vstd::prelude::*;

pub mod audio;
pub mod common;
pub mod kind;
pub mod parameter;
pub mod video;

use crate::builder::{finalize, initial_view, join, output_args, step, trim_args, BuilderView, CommandBuilder};
use crate::media::{has_stream_type, MediaInfo};
use crate::params::audio::{AudioBitrate, AudioCrystalizer, AudioPitch, AudioVolume, DisableAudio};
use crate::params::common::{is_audio_ext, output_index, output_values, Finalizer, OutputFormat, SpeedFactor, Trim};
use crate::params::kind::{is_audio_class, is_video_class, ParamKind};
use crate::params::parameter::{names_of, non_default_value, values_of, wf_param, Parameter, ParameterData};
use crate::model::{InputConstraints, InputType};
use crate::params::video::{HardwareAcceleration, VideoBitrate, VideoFrameRate, VideoScale};

verus! {

/// Parameter `a` comes before parameter `b` in synthesis: lower order first,
/// and on equal order the one listed first.
pub open spec fn key_lt(ps: Seq<Parameter>, a: int, b: int) -> bool {
    ps[a].order < ps[b].order || (ps[a].order == ps[b].order && a < b)
}

/// `q` lists the indices of the enabled parameters of `ps`, each once, sorted
/// by order, ties kept in list order.
pub open spec fn is_synthesis_order(ps: Seq<Parameter>, q: Seq<usize>) -> bool {
    &&& forall|i: int| 0 <= i < q.len() ==> (#[trigger] q[i]) < ps.len() && ps[q[i] as int].enabled
    &&& forall|k: int| 0 <= k < ps.len() && (#[trigger] ps[k]).enabled ==> q.contains(k as usize)
    &&& forall|i: int, j: int| 0 <= i < j < q.len() ==> key_lt(ps, #[trigger] q[i] as int, #[trigger] q[j] as int)
}

/// The builder after visiting the parameters of `ps` listed by `q`, in turn.
pub open spec fn run(s: BuilderView, ps: Seq<Parameter>, q: Seq<usize>) -> BuilderView
    decreases q.len(),
{
    if q.len() == 0 {
        s
    } else {
        let p = ps[q.last() as int];
        step(run(s, ps, q.drop_last()), p.kind, p.data)
    }
}

/// The invariant of the sort after the first `i` parameters.
pub open spec fn sorted_prefix(ps: Seq<Parameter>, r: Seq<usize>, i: int) -> bool {
    &&& forall|a: int| 0 <= a < r.len() ==> (#[trigger] r[a]) < i && ps[r[a] as int].enabled
    &&& forall|k: int| 0 <= k < i && (#[trigger] ps[k]).enabled ==> r.contains(k as usize)
    &&& forall|a: int, b: int| 0 <= a < b < r.len() ==> key_lt(ps, #[trigger] r[a] as int, #[trigger] r[b] as int)
}

#[verifier::spinoff_prover]
proof fn lemma_insert_keeps_order(ps: Seq<Parameter>, r: Seq<usize>, i: usize, pos: int)
    requires
        i < ps.len(),
        ps[i as int].enabled,
        sorted_prefix(ps, r, i as int),
        0 <= pos <= r.len(),
        forall|a: int| 0 <= a < pos ==> ps[(#[trigger] r[a]) as int].order <= ps[i as int].order,
        forall|b: int| pos <= b < r.len() ==> ps[(#[trigger] r[b]) as int].order > ps[i as int].order,
    ensures
        sorted_prefix(ps, r.insert(pos, i), i + 1 as int),
{
    let n = r.insert(pos, i);
    assert forall|a: int| 0 <= a < n.len() implies (#[trigger] n[a]) < i + 1 && ps[n[a] as int].enabled by {
        if a < pos {
            assert(n[a] == r[a]);
        } else if a > pos {
            assert(n[a] == r[a - 1]);
        }
    }
    assert forall|k: int| 0 <= k < i + 1 && (#[trigger] ps[k]).enabled implies n.contains(k as usize) by {
        if k == i as int {
            assert(n[pos] == i);
        } else {
            assert(r.contains(k as usize));
            let a = choose|a: int| 0 <= a < r.len() && r[a] == k as usize;
            if a < pos {
                assert(n[a] == k as usize);
            } else {
                assert(n[a + 1] == k as usize);
            }
        }
    }
    assert forall|a: int, b: int| 0 <= a < b < n.len() implies key_lt(ps, #[trigger] n[a] as int, #[trigger] n[b] as int) by {
        if b < pos {
            assert(n[a] == r[a] && n[b] == r[b]);
        } else if b == pos {
            assert(n[a] == r[a]);
        } else if a > pos {
            assert(n[a] == r[a - 1] && n[b] == r[b - 1]);
        } else if a == pos {
            assert(n[b] == r[b - 1]);
        } else {
            assert(n[a] == r[a] && n[b] == r[b - 1]);
        }
    }
}

fn insert_in_order(params: &Vec<Parameter>, r: &mut Vec<usize>, i: usize)
    requires
        i < params.len(),
        params@[i as int].enabled,
        sorted_prefix(params@, old(r)@, i as int),
    ensures
        sorted_prefix(params@, final(r)@, i + 1),
{
    let o = params[i].order;
    let mut pos = r.len();
    while pos > 0 && params[r[pos - 1]].order > o
        invariant
            pos <= r.len(),
            i < params.len(),
            o == params@[i as int].order,
            sorted_prefix(params@, r@, i as int),
            forall|b: int| pos <= b < r.len() ==> params@[(#[trigger] r@[b]) as int].order > o,
        decreases pos,
    {
        pos -= 1;
    }
    proof {
        assert forall|a: int| 0 <= a < pos implies params@[(#[trigger] r@[a]) as int].order <= o by {
            if a < pos - 1 {
                assert(key_lt(params@, r@[a] as int, r@[pos - 1] as int));
            }
        }
        lemma_insert_keeps_order(params@, r@, i, pos as int);
    }
    r.insert(pos, i);
}

/// The indices of the enabled parameters in synthesis order (a stable sort
/// by `order`).
pub fn synthesis_order(params: &Vec<Parameter>) -> (r: Vec<usize>)
    ensures
        is_synthesis_order(params@, r@),
{
    let mut r: Vec<usize> = Vec::new();
    let mut i: usize = 0;
    while i < params.len()
        invariant
            i <= params.len(),
            sorted_prefix(params@, r@, i as int),
        decreases params.len() - i,
    {
        if params[i].enabled {
            insert_in_order(params, &mut r, i);
        }
        i += 1;
    }
    r
}

/// `q` holds exactly the indices in `set`, strictly sorted by `key_lt`.
pub open spec fn sorted_set(ps: Seq<Parameter>, q: Seq<usize>, set: Set<usize>) -> bool {
    &&& forall|i: int| 0 <= i < q.len() ==> set.contains(#[trigger] q[i])
    &&& forall|x: usize| set.contains(x) ==> q.contains(x)
    &&& forall|i: int, j: int| 0 <= i < j < q.len() ==> key_lt(ps, #[trigger] q[i] as int, #[trigger] q[j] as int)
}

#[verifier::spinoff_prover]
proof fn lemma_sorted_set_unique(ps: Seq<Parameter>, q1: Seq<usize>, q2: Seq<usize>, set: Set<usize>)
    requires
        sorted_set(ps, q1, set),
        sorted_set(ps, q2, set),
    ensures
        q1 == q2,
    decreases q1.len(),
{
    if q1.len() == 0 {
        if q2.len() > 0 {
            assert(set.contains(q2[0]));
            assert(q1.contains(q2[0]));
        }
        assert(q1 =~= q2);
    } else {
        assert(set.contains(q1[0]));
        assert(q2.contains(q1[0]));
        let a = q1[0];
        let b = q2[0];
        assert(set.contains(b));
        assert(q1.contains(b));
        let j = choose|j: int| 0 <= j < q1.len() && q1[j] == b;
        let k = choose|k: int| 0 <= k < q2.len() && q2[k] == a;
        if j > 0 && k > 0 {
            assert(key_lt(ps, q1[0] as int, q1[j] as int));
            assert(key_lt(ps, q2[0] as int, q2[k] as int));
        }
        assert(a == b);
        let rest = set.remove(a);
        let r1 = q1.drop_first();
        let r2 = q2.drop_first();
        assert forall|i: int| 0 <= i < r1.len() implies rest.contains(#[trigger] r1[i]) by {
            assert(key_lt(ps, q1[0] as int, q1[i + 1] as int));
        }
        assert forall|i: int| 0 <= i < r2.len() implies rest.contains(#[trigger] r2[i]) by {
            assert(key_lt(ps, q2[0] as int, q2[i + 1] as int));
        }
        assert forall|x: usize| rest.contains(x) implies r1.contains(x) by {
            assert(q1.contains(x));
            let i = choose|i: int| 0 <= i < q1.len() && q1[i] == x;
            assert(r1[i - 1] == x);
        }
        assert forall|x: usize| rest.contains(x) implies r2.contains(x) by {
            assert(q2.contains(x));
            let i = choose|i: int| 0 <= i < q2.len() && q2[i] == x;
            assert(r2[i - 1] == x);
        }
        assert forall|i: int, j: int| 0 <= i < j < r1.len() implies key_lt(ps, #[trigger] r1[i] as int, #[trigger] r1[j] as int) by {
            assert(key_lt(ps, q1[i + 1] as int, q1[j + 1] as int));
        }
        assert forall|i: int, j: int| 0 <= i < j < r2.len() implies key_lt(ps, #[trigger] r2[i] as int, #[trigger] r2[j] as int) by {
            assert(key_lt(ps, q2[i + 1] as int, q2[j + 1] as int));
        }
        lemma_sorted_set_unique(ps, r1, r2, rest);
        assert(q1 =~= seq![a] + r1);
        assert(q2 =~= seq![a] + r2);
    }
}

/// The synthesis order of a parameter set is unique: the contracts that
/// speak of "some" synthesis order speak of this one.
pub proof fn lemma_synthesis_order_unique(ps: Seq<Parameter>, q1: Seq<usize>, q2: Seq<usize>)
    requires
        is_synthesis_order(ps, q1),
        is_synthesis_order(ps, q2),
    ensures
        q1 == q2,
{
    let set = Set::new(|x: usize| (x as int) < ps.len() && ps[x as int].enabled);
    assert forall|x: usize| set.contains(x) implies q1.contains(x) && q2.contains(x) by {
        assert(ps[x as int].enabled);
    }
    lemma_sorted_set_unique(ps, q1, q2, set);
}

/// Visits one parameter: its kind decides what it adds to the builder.
pub fn visit(cb: &mut CommandBuilder, p: &Parameter)
    ensures
        final(cb)@ == step(old(cb)@, p.kind, p.data),
{
    match p.kind {
        ParamKind::Trim => Trim::build_command(cb, &p.data),
        ParamKind::DisableAudio => DisableAudio::build_command(cb, &p.data),
        ParamKind::AudioBitrate => AudioBitrate::build_command(cb, &p.data),
        ParamKind::AudioCrystalizer => AudioCrystalizer::build_command(cb, &p.data),
        ParamKind::AudioVolume => AudioVolume::build_command(cb, &p.data),
        ParamKind::AudioPitch => AudioPitch::build_command(cb, &p.data),
        ParamKind::SpeedFactor => SpeedFactor::build_command(cb, &p.data),
        ParamKind::HardwareAcceleration => HardwareAcceleration::build_command(cb, &p.data),
        ParamKind::VideoBitrate => VideoBitrate::build_command(cb, &p.data),
        ParamKind::VideoFrameRate => VideoFrameRate::build_command(cb, &p.data),
        ParamKind::VideoScale => VideoScale::build_command(cb, &p.data),
        ParamKind::OutputFormat => OutputFormat::build_command(cb, &p.data),
    }
}

impl CommandBuilder {
    pub fn visit_trim(&mut self, data: &ParameterData)
        ensures
            final(self)@ == step(old(self)@, ParamKind::Trim, *data),
    {
        Trim::build_command(self, data);
    }

    pub fn visit_disable_audio(&mut self, data: &ParameterData)
        ensures
            final(self)@ == step(old(self)@, ParamKind::DisableAudio, *data),
    {
        DisableAudio::build_command(self, data);
    }

    pub fn visit_audio_bitrate(&mut self, data: &ParameterData)
        ensures
            final(self)@ == step(old(self)@, ParamKind::AudioBitrate, *data),
    {
        AudioBitrate::build_command(self, data);
    }

    pub fn visit_audio_crystalizer(&mut self, data: &ParameterData)
        ensures
            final(self)@ == step(old(self)@, ParamKind::AudioCrystalizer, *data),
    {
        AudioCrystalizer::build_command(self, data);
    }

    pub fn visit_audio_volume(&mut self, data: &ParameterData)
        ensures
            final(self)@ == step(old(self)@, ParamKind::AudioVolume, *data),
    {
        AudioVolume::build_command(self, data);
    }

    pub fn visit_audio_pitch(&mut self, data: &ParameterData)
        ensures
            final(self)@ == step(old(self)@, ParamKind::AudioPitch, *data),
    {
        AudioPitch::build_command(self, data);
    }

    pub fn visit_speed_factor(&mut self, data: &ParameterData)
        ensures
            final(self)@ == step(old(self)@, ParamKind::SpeedFactor, *data),
    {
        SpeedFactor::build_command(self, data);
    }

    pub fn visit_hardware_acceleration(&mut self, data: &ParameterData)
        ensures
            final(self)@ == step(old(self)@, ParamKind::HardwareAcceleration, *data),
    {
        HardwareAcceleration::build_command(self, data);
    }

    pub fn visit_video_bitrate(&mut self, data: &ParameterData)
        ensures
            final(self)@ == step(old(self)@, ParamKind::VideoBitrate, *data),
    {
        VideoBitrate::build_command(self, data);
    }

    pub fn visit_video_frame_rate(&mut self, data: &ParameterData)
        ensures
            final(self)@ == step(old(self)@, ParamKind::VideoFrameRate, *data),
    {
        VideoFrameRate::build_command(self, data);
    }

    pub fn visit_video_scale(&mut self, data: &ParameterData)
        ensures
            final(self)@ == step(old(self)@, ParamKind::VideoScale, *data),
    {
        VideoScale::build_command(self, data);
    }

    pub fn visit_output_format(&mut self, data: &ParameterData)
        ensures
            final(self)@ == step(old(self)@, ParamKind::OutputFormat, *data),
    {
        OutputFormat::build_command(self, data);
    }
}

/// Visits the enabled parameters in synthesis order (unique, see
/// `lemma_synthesis_order_unique`), then adds what depends on the output
/// container alone.
pub fn apply_visitor(cb: &mut CommandBuilder, params: &Vec<Parameter>)
    ensures
        exists|q: Seq<usize>| is_synthesis_order(params@, q) && final(cb)@ == finalize(run(old(cb)@, params@, q)),
{
    let order = synthesis_order(params);
    let mut j: usize = 0;
    while j < order.len()
        invariant
            j <= order.len(),
            is_synthesis_order(params@, order@),
            cb@ == run(old(cb)@, params@, order@.take(j as int)),
        decreases order.len() - j,
    {
        let k = order[j];
        visit(cb, &params[k]);
        assert(order@.take(j + 1).drop_last() =~= order@.take(j as int));
        j += 1;
    }
    assert(order@.take(order.len() as int) =~= order@);
    Finalizer::build_command(cb);
}


/// The value of a select whose selected index is in range.
pub open spec fn select_value(d: ParameterData) -> Option<Seq<char>> {
    match d {
        ParameterData::Select { options, selected_index, .. } => if selected_index < options.len() {
            Some(options@[selected_index as int].value@)
        } else {
            None
        },
        _ => None,
    }
}

/// The selected value of the first output format parameter that has one.
pub open spec fn first_output_value(ps: Seq<Parameter>) -> Option<Seq<char>>
    decreases ps.len(),
{
    if ps.len() == 0 {
        None
    } else if ps[0].kind == ParamKind::OutputFormat && select_value(ps[0].data) is Some {
        select_value(ps[0].data)
    } else {
        first_output_value(ps.drop_first())
    }
}

/// The switch of the first audio-disabling parameter that is a switch.
pub open spec fn first_disable_switch(ps: Seq<Parameter>) -> Option<bool>
    decreases ps.len(),
{
    if ps.len() == 0 {
        None
    } else if ps[0].kind == ParamKind::DisableAudio && ps[0].data is Toggle {
        Some(ps[0].data->Toggle_value)
    } else {
        first_disable_switch(ps.drop_first())
    }
}

/// The selected output format holds audio alone.
pub open spec fn output_is_audio_only(ps: Seq<Parameter>) -> bool {
    match first_output_value(ps) {
        Some(v) => is_audio_ext(v),
        None => false,
    }
}

/// The user asked to drop audio, and the output format allows it.
pub open spec fn audio_is_disabled(ps: Seq<Parameter>) -> bool {
    match first_disable_switch(ps) {
        Some(b) => b && !output_is_audio_only(ps),
        None => false,
    }
}

/// Whether the rules enable a parameter of kind `k` in the set `ps`.
pub open spec fn enabled_by_rules(ps: Seq<Parameter>, k: ParamKind) -> bool {
    if is_video_class(k) {
        !output_is_audio_only(ps)
    } else if is_audio_class(k) {
        !audio_is_disabled(ps)
    } else {
        true
    }
}

/// `ps` with each parameter's enabled flag set by the rules; nothing else changes.
pub open spec fn rechecked(ps: Seq<Parameter>) -> Seq<Parameter> {
    Seq::new(ps.len(), |i: int| Parameter { enabled: enabled_by_rules(ps, ps[i].kind), ..ps[i] })
}

/// The two sets hold the same kinds and data at each position.
pub open spec fn same_settings(ps: Seq<Parameter>, qs: Seq<Parameter>) -> bool {
    &&& ps.len() == qs.len()
    &&& forall|i: int| 0 <= i < ps.len() ==> (#[trigger] ps[i]).kind == qs[i].kind && ps[i].data == qs[i].data
}

proof fn lemma_rules_see_settings(ps: Seq<Parameter>, qs: Seq<Parameter>)
    requires
        same_settings(ps, qs),
    ensures
        first_output_value(ps) == first_output_value(qs),
        first_disable_switch(ps) == first_disable_switch(qs),
    decreases ps.len(),
{
    if ps.len() > 0 {
        assert(ps[0].kind == qs[0].kind && ps[0].data == qs[0].data);
        assert forall|i: int| 0 <= i < ps.drop_first().len() implies
            (#[trigger] ps.drop_first()[i]).kind == qs.drop_first()[i].kind && ps.drop_first()[i].data == qs.drop_first()[i].data by {
            assert(ps[i + 1].kind == qs[i + 1].kind);
        }
        lemma_rules_see_settings(ps.drop_first(), qs.drop_first());
    }
}

/// Rechecking twice gives what rechecking once gives: the rules read only
/// kinds and values, which rechecking leaves alone.
pub proof fn lemma_recheck_idempotent(ps: Seq<Parameter>)
    ensures
        rechecked(rechecked(ps)) == rechecked(ps),
{
    let once = rechecked(ps);
    assert(same_settings(ps, once));
    lemma_rules_see_settings(ps, once);
    assert(rechecked(once) =~= once);
}

/// With an output format of audio alone, every audio parameter is enabled,
/// even when the switch that drops audio is on, and every video parameter
/// (the switch included) is disabled.
pub proof fn lemma_audio_only_output(ps: Seq<Parameter>)
    requires
        output_is_audio_only(ps),
    ensures
        !audio_is_disabled(ps),
        forall|i: int| 0 <= i < ps.len() && is_audio_class((#[trigger] rechecked(ps)[i]).kind) ==> rechecked(ps)[i].enabled,
        forall|i: int| 0 <= i < ps.len() && is_video_class((#[trigger] rechecked(ps)[i]).kind) ==> !rechecked(ps)[i].enabled,
{
}

fn output_is_audio_only_exec(params: &Vec<Parameter>) -> (r: bool)
    ensures
        r == output_is_audio_only(params@),
{
    let mut i: usize = 0;
    assert(params@.skip(0) =~= params@);
    while i < params.len()
        invariant
            i <= params.len(),
            first_output_value(params@) == first_output_value(params@.skip(i as int)),
        decreases params.len() - i,
    {
        assert(params@.skip(i as int).drop_first() =~= params@.skip(i + 1));
        assert(params@.skip(i as int)[0] == params@[i as int]);
        if params[i].kind == ParamKind::OutputFormat {
            if let ParameterData::Select { options, selected_index, .. } = &params[i].data {
                if *selected_index < options.len() {
                    return OutputFormat::is_audio(options[*selected_index].value.as_str());
                }
            }
        }
        i += 1;
    }
    false
}

fn first_disable_switch_exec(params: &Vec<Parameter>) -> (r: Option<bool>)
    ensures
        r == first_disable_switch(params@),
{
    let mut i: usize = 0;
    assert(params@.skip(0) =~= params@);
    while i < params.len()
        invariant
            i <= params.len(),
            first_disable_switch(params@) == first_disable_switch(params@.skip(i as int)),
        decreases params.len() - i,
    {
        assert(params@.skip(i as int).drop_first() =~= params@.skip(i + 1));
        assert(params@.skip(i as int)[0] == params@[i as int]);
        if params[i].kind == ParamKind::DisableAudio {
            if let ParameterData::Toggle { value } = &params[i].data {
                return Some(*value);
            }
        }
        i += 1;
    }
    None
}

/// Re-derives every parameter's enabled flag from the current values:
/// video parameters need an output with video, audio parameters need the
/// audio to be kept; the rest is always enabled. Values are untouched.
#[verifier::spinoff_prover]
pub fn recheck_params(params: &mut Vec<Parameter>)
    ensures
        final(params)@ == rechecked(old(params)@),
{
    let audio_only = output_is_audio_only_exec(params);
    let audio_disabled = match first_disable_switch_exec(params) {
        Some(b) => b && !audio_only,
        None => false,
    };
    let ghost before = params@;
    let mut i: usize = 0;
    while i < params.len()
        invariant
            i <= params.len(),
            params@.len() == before.len(),
            audio_only == output_is_audio_only(before),
            audio_disabled == audio_is_disabled(before),
            forall|j: int| 0 <= j < i ==> (#[trigger] params@[j]) == rechecked(before)[j],
            forall|j: int| i <= j < params@.len() ==> (#[trigger] params@[j]) == before[j],
        decreases params.len() - i,
    {
        let k = params[i].kind;
        let e = if k.is_video_class() {
            !audio_only
        } else if k.is_audio_class() {
            !audio_disabled
        } else {
            true
        };
        params[i].enabled = e;
        i += 1;
    }
    assert(params@ =~= rechecked(before));
}

/// The kinds of the parameters made for an input, in list order.
pub open spec fn created_kinds(info: MediaInfo) -> Seq<ParamKind> {
    let a = has_stream_type(info, "audio"@);
    let v = has_stream_type(info, "video"@);
    (if info.positive_duration { seq![ParamKind::Trim] } else { Seq::empty() })
        + (if a && v { seq![ParamKind::DisableAudio] } else { Seq::empty() })
        + (if a {
            seq![ParamKind::AudioBitrate, ParamKind::AudioCrystalizer, ParamKind::AudioVolume, ParamKind::AudioPitch]
        } else {
            Seq::empty()
        })
        + seq![ParamKind::SpeedFactor]
        + (if v {
            seq![ParamKind::VideoBitrate, ParamKind::VideoFrameRate, ParamKind::VideoScale, ParamKind::HardwareAcceleration]
        } else {
            Seq::empty()
        })
        + seq![ParamKind::OutputFormat]
}

/// Position of each kind in the list that `create_params` follows.
pub open spec fn list_rank(k: ParamKind) -> int {
    match k {
        ParamKind::Trim => 0,
        ParamKind::DisableAudio => 1,
        ParamKind::AudioBitrate => 2,
        ParamKind::AudioCrystalizer => 3,
        ParamKind::AudioVolume => 4,
        ParamKind::AudioPitch => 5,
        ParamKind::SpeedFactor => 6,
        ParamKind::VideoBitrate => 7,
        ParamKind::VideoFrameRate => 8,
        ParamKind::VideoScale => 9,
        ParamKind::HardwareAcceleration => 10,
        ParamKind::OutputFormat => 11,
    }
}

/// The kinds of `s` come in strictly increasing list rank.
pub open spec fn ranked(s: Seq<ParamKind>) -> bool {
    forall|i: int, j: int| 0 <= i < j < s.len() ==> list_rank(#[trigger] s[i]) < list_rank(#[trigger] s[j])
}

proof fn lemma_ranked_concat(a: Seq<ParamKind>, b: Seq<ParamKind>)
    requires
        ranked(a),
        ranked(b),
        forall|i: int, j: int| 0 <= i < a.len() && 0 <= j < b.len() ==> list_rank(#[trigger] a[i]) < list_rank(#[trigger] b[j]),
    ensures
        ranked(a + b),
{
    assert forall|i: int, j: int| 0 <= i < j < (a + b).len() implies list_rank(#[trigger] (a + b)[i]) < list_rank(#[trigger] (a + b)[j]) by {
        if j < a.len() {
        } else if i >= a.len() {
            assert((a + b)[i] == b[i - a.len()]);
            assert((a + b)[j] == b[j - a.len()]);
        } else {
            assert((a + b)[j] == b[j - a.len()]);
        }
    }
}

proof fn lemma_created_kinds_ranked(info: MediaInfo)
    ensures
        ranked(created_kinds(info)),
{
    let a = has_stream_type(info, "audio"@);
    let v = has_stream_type(info, "video"@);
    let p1: Seq<ParamKind> = if info.positive_duration { seq![ParamKind::Trim] } else { Seq::empty() };
    let p2: Seq<ParamKind> = if a && v { seq![ParamKind::DisableAudio] } else { Seq::empty() };
    let p3: Seq<ParamKind> = if a {
        seq![ParamKind::AudioBitrate, ParamKind::AudioCrystalizer, ParamKind::AudioVolume, ParamKind::AudioPitch]
    } else {
        Seq::empty()
    };
    let p4: Seq<ParamKind> = seq![ParamKind::SpeedFactor];
    let p5: Seq<ParamKind> = if v {
        seq![ParamKind::VideoBitrate, ParamKind::VideoFrameRate, ParamKind::VideoScale, ParamKind::HardwareAcceleration]
    } else {
        Seq::empty()
    };
    let p6: Seq<ParamKind> = seq![ParamKind::OutputFormat];
    assert(forall|i: int| 0 <= i < p1.len() ==> list_rank(#[trigger] p1[i]) == 0);
    assert(forall|i: int| 0 <= i < p2.len() ==> list_rank(#[trigger] p2[i]) == 1);
    assert(forall|i: int| 0 <= i < p3.len() ==> list_rank(#[trigger] p3[i]) == i + 2);
    assert(forall|i: int| 0 <= i < p5.len() ==> list_rank(#[trigger] p5[i]) == i + 7);
    assert(list_rank(p4[0]) == 6 && list_rank(p6[0]) == 11);
    lemma_ranked_concat(p1, p2);
    lemma_ranked_concat(p1 + p2, p3);
    assert forall|i: int, j: int| 0 <= i < (p1 + p2 + p3).len() && 0 <= j < p4.len() implies
        list_rank(#[trigger] (p1 + p2 + p3)[i]) < list_rank(#[trigger] p4[j]) by {
        if i < (p1 + p2).len() {
            if i < p1.len() {
                assert((p1 + p2 + p3)[i] == p1[i]);
            } else {
                assert((p1 + p2 + p3)[i] == p2[i - p1.len()]);
            }
        } else {
            assert((p1 + p2 + p3)[i] == p3[i - (p1 + p2).len()]);
        }
    }
    lemma_ranked_concat(p1 + p2 + p3, p4);
    assert forall|i: int, j: int| 0 <= i < (p1 + p2 + p3 + p4).len() && 0 <= j < p5.len() implies
        list_rank(#[trigger] (p1 + p2 + p3 + p4)[i]) < list_rank(#[trigger] p5[j]) by {
        if i < (p1 + p2 + p3).len() {
            assert((p1 + p2 + p3 + p4)[i] == (p1 + p2 + p3)[i]);
            assert(list_rank((p1 + p2 + p3)[i]) < list_rank(p4[0]));
        } else {
            assert((p1 + p2 + p3 + p4)[i] == p4[0]);
        }
    }
    lemma_ranked_concat(p1 + p2 + p3 + p4, p5);
    assert forall|i: int, j: int| 0 <= i < (p1 + p2 + p3 + p4 + p5).len() && 0 <= j < p6.len() implies
        list_rank(#[trigger] (p1 + p2 + p3 + p4 + p5)[i]) < list_rank(#[trigger] p6[j]) by {
        if i < (p1 + p2 + p3 + p4).len() {
            assert((p1 + p2 + p3 + p4 + p5)[i] == (p1 + p2 + p3 + p4)[i]);
            if i < (p1 + p2 + p3).len() {
                assert((p1 + p2 + p3 + p4)[i] == (p1 + p2 + p3)[i]);
                assert(list_rank((p1 + p2 + p3)[i]) < list_rank(p4[0]));
            } else {
                assert((p1 + p2 + p3 + p4)[i] == p4[0]);
            }
        } else {
            assert((p1 + p2 + p3 + p4 + p5)[i] == p5[i - (p1 + p2 + p3 + p4).len()]);
        }
    }
    lemma_ranked_concat(p1 + p2 + p3 + p4 + p5, p6);
    assert(created_kinds(info) == p1 + p2 + p3 + p4 + p5 + p6);
}

/// The data a parameter of kind `k` starts with, for an input with the
/// given streams and extension (what the kind's `new_parameter` gives).
pub open spec fn fresh_data(k: ParamKind, d: ParameterData, video: bool, audio: bool, ext: Seq<char>) -> bool {
    match k {
        ParamKind::DisableAudio => d == (ParameterData::Toggle { value: false }),
        ParamKind::AudioBitrate => d matches ParameterData::CustomSelect { options, selected_index, value, default, constraints }
            && values_of(options@) == seq!["4"@, "16"@, "32"@, "0"@, "64"@, "128"@, "192"@, "256"@, "320"@, "512"@]
            && names_of(options@) == values_of(options@)
            && selected_index == 3 && value@ == "0"@ && default@ == "0"@
            && constraints == (InputConstraints { length: 4, input_type: InputType::PositiveInteger }),
        ParamKind::AudioCrystalizer => d matches ParameterData::CustomSelect { options, selected_index, value, default, constraints }
            && values_of(options@) == seq!["-8"@, "-4"@, "-2"@, "0"@, "2"@, "4"@, "8"@]
            && names_of(options@) == values_of(options@)
            && selected_index == 3 && value@ == "0"@ && default@ == "0"@
            && constraints == (InputConstraints { length: 3, input_type: InputType::Integer }),
        ParamKind::AudioVolume => d matches ParameterData::CustomSelect { options, selected_index, value, default, constraints }
            && values_of(options@) == seq!["-15"@, "-10"@, "-5"@, "-2"@, "0"@, "2"@, "5"@, "10"@, "15"@, "30"@, "50"@]
            && names_of(options@) == seq!["-15dB"@, "-10dB"@, "-5dB"@, "-2dB"@, "original"@, "2dB"@, "5dB"@, "10dB"@, "15dB"@, "30dB"@, "50dB"@]
            && selected_index == 4 && value@ == "0"@ && default@ == "0"@
            && constraints == (InputConstraints { length: 3, input_type: InputType::Integer }),
        ParamKind::AudioPitch => d matches ParameterData::CustomSelect { options, selected_index, value, default, constraints }
            && values_of(options@) == seq!["0.6"@, "0.8"@, "0.9"@, "1"@, "1.15"@, "1.25"@, "1.5"@, "2"@]
            && names_of(options@) == values_of(options@)
            && selected_index == 3 && value@ == "1"@ && default@ == "1"@
            && constraints == (InputConstraints { length: 4, input_type: InputType::PositiveDecimal }),
        ParamKind::VideoBitrate => d matches ParameterData::CustomSelect { options, selected_index, value, default, constraints }
            && values_of(options@) == seq!["16k"@, "32k"@, "0"@, "64k"@, "128k"@, "256k"@, "512k"@, "1M"@, "2M"@, "4M"@, "8M"@, "16M"@]
            && names_of(options@) == values_of(options@)
            && selected_index == 2 && value@ == "0"@ && default@ == "0"@
            && constraints == (InputConstraints { length: 5, input_type: InputType::Bitrate }),
        ParamKind::VideoFrameRate => d matches ParameterData::CustomSelect { options, selected_index, value, default, constraints }
            && values_of(options@) == seq!["5"@, "10"@, "15"@, "20"@, "24"@, "25"@, "0"@, "30"@, "50"@, "60"@]
            && names_of(options@) == seq!["5"@, "10"@, "15"@, "20"@, "24"@, "25"@, "original"@, "30"@, "50"@, "60"@]
            && selected_index == 6 && value@ == "0"@ && default@ == "0"@
            && constraints == (InputConstraints { length: 3, input_type: InputType::PositiveInteger }),
        ParamKind::VideoScale => d matches ParameterData::CustomSelect { options, selected_index, value, default, constraints }
            && values_of(options@) == seq!["144"@, "240"@, "360"@, "0"@, "480"@, "720"@, "1080"@]
            && names_of(options@) == values_of(options@)
            && selected_index == 3 && value@ == "0"@ && default@ == "0"@
            && constraints == (InputConstraints { length: 4, input_type: InputType::PositiveInteger }),
        ParamKind::HardwareAcceleration => d matches ParameterData::Select { options, selected_index, default }
            && values_of(options@) == seq!["none"@, "qsv"@, "nvenc"@, "amf"@, "vaapi"@]
            && names_of(options@) == seq!["none"@, "intel"@, "nvidia"@, "amd"@, "vaapi"@]
            && selected_index == 0 && default@ == "none"@,
        ParamKind::SpeedFactor => d matches ParameterData::CustomSelect { options, selected_index, value, default, constraints }
            && values_of(options@) == seq!["0.5"@, "0.75"@, "0.8"@, "0.9"@, "1"@, "1.25"@, "1.4"@, "1.5"@, "1.6"@, "1.8"@, "2"@, "2.5"@, "3"@]
            && names_of(options@) == values_of(options@)
            && selected_index == 4 && value@ == "1"@ && default@ == "1"@
            && constraints == (InputConstraints { length: 4, input_type: InputType::PositiveDecimal }),
        ParamKind::Trim => d matches ParameterData::Trim(t) && t.ss is None && t.to is None && !t.use_to && !t.precise,
        ParamKind::OutputFormat => d matches ParameterData::Select { options, selected_index, default }
            && values_of(options@) == output_values(video, audio, ext)
            && names_of(options@) == values_of(options@)
            && selected_index == output_index(video, audio, ext)
            && default@ == output_values(video, audio, ext)[selected_index as int],
    }
}

/// The parameter set of an input: only the parameters its streams allow,
/// each at its default, with enabled flags set by the rules.
#[verifier::spinoff_prover]
pub fn create_params(info: &MediaInfo, source_ext: &str) -> (r: Vec<Parameter>)
    ensures
        r@.len() == created_kinds(*info).len(),
        forall|i: int| 0 <= i < r@.len() ==> (#[trigger] r@[i]).kind == created_kinds(*info)[i],
        forall|i: int| 0 <= i < r@.len() ==> wf_param(#[trigger] r@[i]),
        forall|i: int| 0 <= i < r@.len() ==> crate::params::parameter::non_default_value((#[trigger] r@[i]).data) is None,
        rechecked(r@) == r@,
        crate::preset::kinds_unique(r@),
        forall|i: int| 0 <= i < r@.len() ==> fresh_data((#[trigger] r@[i]).kind, r@[i].data,
            has_stream_type(*info, "video"@), has_stream_type(*info, "audio"@), source_ext@),
{
    let mut params: Vec<Parameter> = Vec::new();
    let a = info.has_audio();
    let v = info.has_video();
    if info.has_non_empty_duration() {
        params.push(Trim::new_parameter());
    }
    if a && v {
        params.push(DisableAudio::new_parameter());
    }
    if a {
        params.push(AudioBitrate::new_parameter());
        params.push(AudioCrystalizer::new_parameter());
        params.push(AudioVolume::new_parameter());
        params.push(AudioPitch::new_parameter());
    }
    params.push(SpeedFactor::new_parameter());
    if v {
        params.push(VideoBitrate::new_parameter());
        params.push(VideoFrameRate::new_parameter());
        params.push(VideoScale::new_parameter());
        params.push(HardwareAcceleration::new_parameter());
    }
    params.push(OutputFormat::new_parameter(info, source_ext));
    let ghost pre = params@;
    assert(pre.map_values(|p: Parameter| p.kind) =~= created_kinds(*info));
    assert forall|i: int| 0 <= i < pre.len() implies (#[trigger] pre[i]).kind == created_kinds(*info)[i] by {
        assert(pre.map_values(|p: Parameter| p.kind)[i] == pre[i].kind);
    }
    assert forall|i: int| 0 <= i < pre.len() implies fresh_data((#[trigger] pre[i]).kind, pre[i].data,
        has_stream_type(*info, "video"@), has_stream_type(*info, "audio"@), source_ext@) by {
    }
    recheck_params(&mut params);
    proof {
        lemma_recheck_idempotent(pre);
        lemma_created_kinds_ranked(*info);
        assert forall|i: int, j: int| 0 <= i < j < params@.len() implies (#[trigger] params@[i]).kind != (#[trigger] params@[j]).kind by {
            assert(params@[i].kind == created_kinds(*info)[i]);
            assert(params@[j].kind == created_kinds(*info)[j]);
            assert(list_rank(created_kinds(*info)[i]) < list_rank(created_kinds(*info)[j]));
        }
    }
    params
}


/// Data at its declared default: a switch that is off, a select or custom
/// value equal to its default, a time range with neither start nor end.
pub open spec fn at_default(d: ParameterData) -> bool {
    match d {
        ParameterData::Trim(t) => t.ss is None && t.to is None,
        _ => non_default_value(d) is None,
    }
}

/// A parameter at its default adds no argument and no filter, whatever the
/// builder holds.
pub proof fn lemma_default_adds_nothing(s: BuilderView, k: ParamKind, d: ParameterData)
    requires
        at_default(d),
    ensures
        step(s, k, d).args == s.args,
        step(s, k, d).pre_input_args == s.pre_input_args,
        step(s, k, d).audio_filters == s.audio_filters,
        step(s, k, d).video_filters == s.video_filters,
{
    if let ParameterData::Trim(t) = d {
        assert(trim_args(t) =~= Seq::<Seq<char>>::empty());
        assert(s.args + trim_args(t) =~= s.args);
        assert(s.pre_input_args + trim_args(t) =~= s.pre_input_args);
    }
}

/// Once audio is dropped it stays dropped, no parameter adds an audio
/// filter any more, and the audio parameters (bitrate included) add nothing.
pub proof fn lemma_dropped_audio_stays(s: BuilderView, k: ParamKind, d: ParameterData)
    requires
        s.discard_audio,
    ensures
        step(s, k, d).discard_audio,
        step(s, k, d).audio_filters == s.audio_filters,
        is_audio_class(k) ==> step(s, k, d) == s,
{
}

/// Visiting a parameter only adds output arguments at the end.
proof fn lemma_args_grow(s: BuilderView, k: ParamKind, d: ParameterData)
    ensures
        s.args.len() <= step(s, k, d).args.len(),
        step(s, k, d).args.take(s.args.len() as int) == s.args,
{
    let n = step(s, k, d).args;
    assert(n.take(s.args.len() as int) =~= s.args);
}

proof fn lemma_contains_kept(a: Seq<Seq<char>>, b: Seq<Seq<char>>, x: Seq<char>)
    requires
        a.contains(x),
        a.len() <= b.len(),
        b.take(a.len() as int) == a,
    ensures
        b.contains(x),
{
    let i = choose|i: int| 0 <= i < a.len() && a[i] == x;
    assert(b.take(a.len() as int)[i] == b[i]);
}

proof fn lemma_audio_dropped_prefix(ps: Seq<Parameter>, q: Seq<usize>, m: usize, pm: int, t: int)
    requires
        is_synthesis_order(ps, q),
        forall|i: int| 0 <= i < ps.len() ==> wf_param(#[trigger] ps[i]),
        0 <= m < ps.len(),
        ps[m as int].kind == ParamKind::DisableAudio,
        ps[m as int].data == (ParameterData::Toggle { value: true }),
        0 <= pm < q.len(),
        q[pm] == m,
        0 <= t <= q.len(),
    ensures
        run(initial_view(), ps, q.take(t)).audio_filters.len() == 0,
        t > pm ==> run(initial_view(), ps, q.take(t)).discard_audio,
        t > pm ==> run(initial_view(), ps, q.take(t)).args.contains("-an"@),
    decreases t,
{
    if t > 0 {
        lemma_audio_dropped_prefix(ps, q, m, pm, t - 1);
        assert(q.take(t).drop_last() =~= q.take(t - 1));
        assert(q.take(t).last() == q[t - 1]);
        let x = q[t - 1] as int;
        let s = run(initial_view(), ps, q.take(t - 1));
        assert(0 <= x < ps.len());
        assert(wf_param(ps[x]));
        if t - 1 > pm {
            lemma_dropped_audio_stays(s, ps[x].kind, ps[x].data);
            lemma_args_grow(s, ps[x].kind, ps[x].data);
            lemma_contains_kept(s.args, step(s, ps[x].kind, ps[x].data).args, "-an"@);
        } else if t - 1 == pm {
            assert(step(s, ps[x].kind, ps[x].data).args == s.args.push("-an"@));
            assert(s.args.push("-an"@)[s.args.len() as int] == "-an"@);
        } else {
            assert(key_lt(ps, q[t - 1] as int, q[pm] as int));
            assert(wf_param(ps[m as int]));
            assert(ps[x].order <= 20);
            assert(ps[x].kind == ParamKind::Trim || ps[x].kind == ParamKind::DisableAudio);
        }
    }
}

/// With the audio-dropping switch enabled and on, the built command drops
/// audio (`-an`) and holds no audio filter, whatever values the audio
/// parameters hold: that switch is visited before every parameter that adds
/// audio, and those then add nothing (`lemma_dropped_audio_stays`).
pub proof fn lemma_disabled_audio_has_no_filters(ps: Seq<Parameter>, q: Seq<usize>, m: usize)
    requires
        is_synthesis_order(ps, q),
        forall|i: int| 0 <= i < ps.len() ==> wf_param(#[trigger] ps[i]),
        0 <= m < ps.len(),
        ps[m as int].enabled,
        ps[m as int].kind == ParamKind::DisableAudio,
        ps[m as int].data == (ParameterData::Toggle { value: true }),
    ensures
        finalize(run(initial_view(), ps, q)).discard_audio,
        finalize(run(initial_view(), ps, q)).args.contains("-an"@),
        finalize(run(initial_view(), ps, q)).audio_filters.len() == 0,
        output_args(finalize(run(initial_view(), ps, q))) == finalize(run(initial_view(), ps, q)).args + (
            if finalize(run(initial_view(), ps, q)).video_filters.len() > 0 {
                seq!["-vf"@, join(finalize(run(initial_view(), ps, q)).video_filters, ","@)]
            } else {
                Seq::empty()
            }),
{
    assert(ps[m as int].enabled);
    assert(q.contains(m));
    let pm = choose|pm: int| 0 <= pm < q.len() && q[pm] == m;
    lemma_audio_dropped_prefix(ps, q, m, pm, q.len() as int);
    assert(q.take(q.len() as int) =~= q);
    let r = run(initial_view(), ps, q);
    let s = finalize(r);
    assert(s.args.take(r.args.len() as int) =~= r.args);
    lemma_contains_kept(r.args, s.args, "-an"@);
    assert(s.args + Seq::<Seq<char>>::empty() =~= s.args);
}

} // verus!
