use vstd::prelude::*;
use crate::builder::{join, push_text, texts};
use crate::params::kind::{in_presets, kind_id, validated, ParamKind};
use crate::params::parameter::{committed_value, non_default_value, toggle_text, values_of, Parameter, ParameterData};
use crate::number::{index_of, index_of_exec, sub_vec};
use crate::text::{cat, chars_of, owned, str_eq, string_of};

verus! {

/// One `id:value` pair of a preset.
pub type Entry = (Seq<char>, Seq<char>);

/// The pair a parameter contributes to a preset: enabled parameters whose
/// value differs from the default.
pub open spec fn preset_entry(p: Parameter) -> Option<Entry> {
    if p.enabled && in_presets(p.kind) {
        match non_default_value(p.data) {
            Some(v) => Some((kind_id(p.kind), v)),
            None => None,
        }
    } else {
        None
    }
}

/// The pairs of a parameter set, in list order.
pub open spec fn preset_entries(ps: Seq<Parameter>) -> Seq<Entry>
    decreases ps.len(),
{
    if ps.len() == 0 {
        Seq::empty()
    } else {
        let e = preset_entries(ps.drop_last());
        match preset_entry(ps.last()) {
            Some(x) => e.push(x),
            None => e,
        }
    }
}

pub open spec fn entry_text(e: Entry) -> Seq<char> {
    e.0 + seq![':'] + e.1
}

/// `id:value` pairs joined with `;`.
pub open spec fn entries_text(es: Seq<Entry>) -> Seq<char> {
    join(es.map_values(|e: Entry| entry_text(e)), seq![';'])
}

/// Index of the last `c` in `s`, or -1.
pub open spec fn last_index_of(s: Seq<char>, c: char) -> int
    decreases s.len(),
{
    if s.len() == 0 {
        -1
    } else if s.last() == c {
        s.len() - 1
    } else {
        last_index_of(s.drop_last(), c)
    }
}

/// `s` cut at each `;`.
pub open spec fn split_pieces(s: Seq<char>) -> Seq<Seq<char>>
    decreases s.len(),
{
    let k = last_index_of(s, ';');
    if k < 0 || k >= s.len() {
        seq![s]
    } else {
        split_pieces(s.take(k)).push(s.skip(k + 1))
    }
}

/// A piece read as `id:value`, cut at its first `:`; a piece without `:`
/// is no pair.
pub open spec fn piece_entry(p: Seq<char>) -> Option<Entry> {
    let k = index_of(p, ':');
    if k < p.len() {
        Some((p.take(k), p.skip(k + 1)))
    } else {
        None
    }
}

pub open spec fn entries_of_pieces(ps: Seq<Seq<char>>) -> Seq<Entry>
    decreases ps.len(),
{
    if ps.len() == 0 {
        Seq::empty()
    } else {
        let e = entries_of_pieces(ps.drop_last());
        match piece_entry(ps.last()) {
            Some(x) => e.push(x),
            None => e,
        }
    }
}

/// The pairs of a preset text, in order.
pub open spec fn parse_entries(s: Seq<char>) -> Seq<Entry> {
    entries_of_pieces(split_pieces(s))
}

/// The value of the last pair with this id.
pub open spec fn lookup(es: Seq<Entry>, id: Seq<char>) -> Option<Seq<char>>
    decreases es.len(),
{
    if es.len() == 0 {
        None
    } else if es.last().0 == id {
        Some(es.last().1)
    } else {
        lookup(es.drop_last(), id)
    }
}

/// Index of the first option with value `v`, or `opts.len()`.
pub open spec fn position_of(vals: Seq<Seq<char>>, v: Seq<char>) -> int
    decreases vals.len(),
{
    if vals.len() == 0 {
        0
    } else if vals[0] == v {
        0
    } else {
        1 + position_of(vals.drop_first(), v)
    }
}

/// `d2` is what parameter data `d` of kind `k` becomes when a preset gives it
/// the value `v`: a switch takes `true` or `false`, a select the first
/// option with that value, a custom select the validated value. Anything
/// else leaves the data as it was.
pub open spec fn applies(k: ParamKind, d: ParameterData, v: Seq<char>, d2: ParameterData) -> bool {
    match d {
        ParameterData::Toggle { .. } => d2 == (if v == toggle_text(true) {
            ParameterData::Toggle { value: true }
        } else if v == toggle_text(false) {
            ParameterData::Toggle { value: false }
        } else {
            d
        }),
        ParameterData::Select { options, selected_index, default } => {
            let j = position_of(values_of(options@), v);
            if j < options.len() {
                d2 == (ParameterData::Select { options, selected_index: j as usize, default })
            } else {
                d2 == d
            }
        },
        ParameterData::CustomSelect { options, selected_index, value, default, constraints } =>
            match validated(k, v) {
                Some(n) => d2 matches ParameterData::CustomSelect { options: o2, selected_index: i2, value: v2, default: f2, constraints: c2 }
                    && o2 == options && i2 == selected_index && v2@ == n && f2 == default && c2 == constraints,
                None => d2 == d,
            },
        ParameterData::Trim(_) => d2 == d,
    }
}

/// `qs` is `ps` after applying the preset text `text`.
pub open spec fn preset_applied(ps: Seq<Parameter>, text: Seq<char>, qs: Seq<Parameter>) -> bool {
    &&& qs.len() == ps.len()
    &&& forall|i: int| 0 <= i < ps.len() ==> {
        let p = #[trigger] ps[i];
        let q = qs[i];
        &&& q.kind == p.kind && q.name == p.name && q.enabled == p.enabled && q.order == p.order
        &&& match lookup(parse_entries(text), kind_id(p.kind)) {
            Some(v) => if in_presets(p.kind) { applies(p.kind, p.data, v, q.data) } else { q.data == p.data },
            None => q.data == p.data,
        }
    }
}

/// The pairs of a preset text, looked up by parameter id.
pub struct PresetApplier {
    pub entries: Vec<(String, String)>,
}

impl PresetApplier {
    pub fn new(preset: &str) -> (r: PresetApplier)
        ensures
            pairs_view(r.entries@) == parse_entries(preset@),
    {
        PresetApplier { entries: parse_preset(preset) }
    }

    /// The value the preset gives the id, the last pair winning.
    pub fn get(&self, id: &str) -> (r: Option<&String>)
        ensures
            match r {
                Some(v) => lookup(parse_entries_of(self), id@) == Some(v@),
                None => lookup(parse_entries_of(self), id@) is None,
            },
    {
        lookup_exec(&self.entries, id)
    }
}

pub open spec fn parse_entries_of(a: &PresetApplier) -> Seq<Entry> {
    pairs_view(a.entries@)
}

/// Collects `id:value` pairs and joins them into a preset text.
pub struct PresetSaver {
    pub preset: Vec<String>,
}

impl View for PresetSaver {
    type V = Seq<Seq<char>>;

    open spec fn view(&self) -> Seq<Seq<char>> {
        texts(self.preset@)
    }
}

impl PresetSaver {
    pub fn new() -> (r: PresetSaver)
        ensures
            r@ == Seq::<Seq<char>>::empty(),
    {
        let r = PresetSaver { preset: Vec::new() };
        assert(r@ =~= Seq::<Seq<char>>::empty());
        r
    }

    /// Adds the pair `id:value`.
    pub fn add(&mut self, id: &str, value: &str)
        ensures
            final(self)@ == old(self)@.push(entry_text((id@, value@))),
    {
        proof {
            reveal_strlit(":");
            assert(":"@ =~= seq![':']);
        }
        let head = cat(id, ":");
        push_text(&mut self.preset, cat(head.as_str(), value));
    }

    /// The pairs joined with `;`.
    pub fn collect(&self) -> (r: String)
        ensures
            r@ == join(self@, seq![';']),
    {
        proof {
            reveal_strlit(";");
            assert(";"@ =~= seq![';']);
        }
        crate::builder::join_texts(&self.preset, ";")
    }
}

fn non_default_exec(d: &ParameterData) -> (r: Option<String>)
    ensures
        match r {
            Some(v) => non_default_value(*d) == Some(v@),
            None => non_default_value(*d) is None,
        },
{
    match d {
        ParameterData::Toggle { value } => if *value { Some(owned("true")) } else { None },
        ParameterData::Select { options, selected_index, default } =>
            if *selected_index < options.len() && !str_eq(options[*selected_index].value.as_str(), default.as_str()) {
                Some(options[*selected_index].value.clone())
            } else {
                None
            },
        ParameterData::CustomSelect { value, default, .. } =>
            if !str_eq(value.as_str(), default.as_str()) { Some(value.clone()) } else { None },
        ParameterData::Trim(_) => None,
    }
}

/// The preset text of a parameter set: `id:value` for each enabled parameter
/// whose value is not its default, in list order, joined with `;`.
pub fn save_preset(params: &Vec<Parameter>) -> (r: String)
    ensures
        r@ == entries_text(preset_entries(params@)),
{
    let mut saver = PresetSaver::new();
    let mut i: usize = 0;
    while i < params.len()
        invariant
            i <= params.len(),
            saver@ == preset_entries(params@.take(i as int)).map_values(|e: Entry| entry_text(e)),
        decreases params.len() - i,
    {
        let p = &params[i];
        assert(params@.take(i + 1).drop_last() =~= params@.take(i as int));
        assert(params@.take(i + 1).last() == params@[i as int]);
        if p.enabled && p.kind != ParamKind::Trim {
            if let Some(v) = non_default_exec(&p.data) {
                saver.add(p.id(), v.as_str());
            }
        }
        i += 1;
        assert(saver@ =~= preset_entries(params@.take(i as int)).map_values(|e: Entry| entry_text(e)));
    }
    assert(params@.take(params.len() as int) =~= params@);
    saver.collect()
}


pub open spec fn pairs_view(v: Seq<(String, String)>) -> Seq<Entry> {
    v.map_values(|p: (String, String)| (p.0@, p.1@))
}

proof fn lemma_last_index_range(s: Seq<char>, c: char)
    ensures
        -1 <= last_index_of(s, c) < s.len(),
        last_index_of(s, c) >= 0 ==> s[last_index_of(s, c)] == c,
    decreases s.len(),
{
    if s.len() > 0 && s.last() != c {
        lemma_last_index_range(s.drop_last(), c);
    }
}

proof fn lemma_split_push(s: Seq<char>, c: char)
    ensures
        split_pieces(s).len() >= 1,
        split_pieces(s.push(c)) == (if c == ';' {
            split_pieces(s).push(Seq::empty())
        } else {
            split_pieces(s).drop_last().push(split_pieces(s).last().push(c))
        }),
    decreases s.len(),
{
    let t = s.push(c);
    lemma_last_index_range(s, ';');
    assert(t.drop_last() =~= s);
    if c == ';' {
        assert(t.take(s.len() as int) =~= s);
        assert(t.skip(s.len() as int + 1) =~= Seq::<char>::empty());
    } else {
        let k = last_index_of(s, ';');
        if k >= 0 {
            assert(t.take(k) =~= s.take(k));
            assert(t.skip(k + 1) =~= s.skip(k + 1).push(c));
            assert(split_pieces(s) == split_pieces(s.take(k)).push(s.skip(k + 1)));
            assert(split_pieces(s).drop_last() =~= split_pieces(s.take(k)));
        } else {
            assert(split_pieces(s) == seq![s]);
            assert(split_pieces(s).drop_last().push(s.push(c)) =~= seq![s.push(c)]);
        }
    }
}

fn piece_entry_exec(p: &Vec<char>) -> (r: Option<(String, String)>)
    ensures
        match r {
            Some(e) => piece_entry(p@) == Some((e.0@, e.1@)),
            None => piece_entry(p@) is None,
        },
{
    let k = index_of_exec(p, ':');
    if k < p.len() {
        let id = sub_vec(p, 0, k);
        let value = sub_vec(p, k + 1, p.len());
        assert(id@ =~= p@.take(k as int));
        assert(value@ =~= p@.skip(k + 1));
        Some((string_of(&id), string_of(&value)))
    } else {
        None
    }
}

fn push_entry(done: &mut Vec<(String, String)>, cur: &Vec<char>)
    ensures
        pairs_view(final(done)@) == (match piece_entry(cur@) {
            Some(x) => pairs_view(old(done)@).push(x),
            None => pairs_view(old(done)@),
        }),
{
    match piece_entry_exec(cur) {
        Some(e) => {
            done.push(e);
            assert(pairs_view(done@) =~= pairs_view(old(done)@).push(piece_entry(cur@)->0));
        },
        None => {},
    }
}

/// The `id:value` pairs of a preset text, in order (see `parse_entries`).
#[verifier::spinoff_prover]
pub fn parse_preset(text: &str) -> (r: Vec<(String, String)>)
    ensures
        pairs_view(r@) == parse_entries(text@),
{
    let cs = chars_of(text);
    let mut done: Vec<(String, String)> = Vec::new();
    let mut cur: Vec<char> = Vec::new();
    let ghost mut pieces: Seq<Seq<char>> = Seq::empty();
    assert(cs@.take(0) =~= Seq::<char>::empty());
    assert(split_pieces(Seq::<char>::empty()) == seq![Seq::<char>::empty()]);
    assert(pairs_view(done@) =~= Seq::<Entry>::empty());
    let mut i: usize = 0;
    while i < cs.len()
        invariant
            i <= cs.len(),
            split_pieces(cs@.take(i as int)) == pieces.push(cur@),
            pairs_view(done@) == entries_of_pieces(pieces),
        decreases cs.len() - i,
    {
        let c = cs[i];
        proof {
            lemma_split_push(cs@.take(i as int), c);
            assert(cs@.take(i + 1) =~= cs@.take(i as int).push(c));
            assert(pieces.push(cur@).drop_last() =~= pieces);
        }
        if c == ';' {
            push_entry(&mut done, &cur);
            proof {
                assert(pieces.push(cur@).drop_last() =~= pieces);
                pieces = pieces.push(cur@);
            }
            cur = Vec::new();
            assert(cur@ =~= Seq::<char>::empty());
        } else {
            cur.push(c);
        }
        i += 1;
    }
    push_entry(&mut done, &cur);
    assert(cs@.take(cs.len() as int) =~= text@);
    assert(pieces.push(cur@).drop_last() =~= pieces);
    done
}

/// The value of the last pair with id `id`.
pub fn lookup_exec<'a>(entries: &'a Vec<(String, String)>, id: &str) -> (r: Option<&'a String>)
    ensures
        match r {
            Some(v) => lookup(pairs_view(entries@), id@) == Some(v@),
            None => lookup(pairs_view(entries@), id@) is None,
        },
{
    let mut i: usize = entries.len();
    assert(pairs_view(entries@).take(entries.len() as int) =~= pairs_view(entries@));
    while i > 0
        invariant
            i <= entries.len(),
            lookup(pairs_view(entries@), id@) == lookup(pairs_view(entries@).take(i as int), id@),
        decreases i,
    {
        assert(pairs_view(entries@).take(i as int).drop_last() =~= pairs_view(entries@).take(i - 1));
        if str_eq(entries[i - 1].0.as_str(), id) {
            return Some(&entries[i - 1].1);
        }
        i -= 1;
    }
    None
}

fn position_exec(options: &Vec<crate::params::parameter::SelectOption>, v: &str) -> (r: usize)
    ensures
        r == position_of(values_of(options@), v@),
        r <= options.len(),
{
    let mut j: usize = 0;
    assert(values_of(options@).skip(0) =~= values_of(options@));
    while j < options.len()
        invariant
            j <= options.len(),
            position_of(values_of(options@), v@) == j + position_of(values_of(options@).skip(j as int), v@),
        decreases options.len() - j,
    {
        assert(values_of(options@).skip(j as int).drop_first() =~= values_of(options@).skip(j + 1));
        assert(values_of(options@).skip(j as int)[0] == options@[j as int].value@);
        if str_eq(options[j].value.as_str(), v) {
            return j;
        }
        j += 1;
    }
    j
}

/// Gives data `d` of a parameter of kind `k` the preset value `v` (see `applies`).
pub fn apply_value(k: ParamKind, d: &mut ParameterData, v: &str)
    ensures
        applies(k, *old(d), v@, *final(d)),
{
    let position = match &*d {
        ParameterData::Select { options, .. } => position_exec(options, v),
        _ => 0,
    };
    let checked = match &*d {
        ParameterData::CustomSelect { .. } => Some(k.validate(v)),
        _ => None,
    };
    match d {
        ParameterData::Toggle { value } => {
            if str_eq(v, "true") {
                *value = true;
            } else if str_eq(v, "false") {
                *value = false;
            }
        },
        ParameterData::Select { options, selected_index, .. } => {
            if position < options.len() {
                *selected_index = position;
            }
        },
        ParameterData::CustomSelect { value, .. } => {
            if let Some(Ok(n)) = checked {
                *value = n;
            }
        },
        ParameterData::Trim(_) => {},
    }
}

/// Applies a preset text: each parameter whose id has a pair takes that
/// value, when its validator accepts it; other pairs are ignored.
#[verifier::spinoff_prover]
pub fn apply_preset(params: &mut Vec<Parameter>, preset: &str)
    ensures
        preset_applied(old(params)@, preset@, final(params)@),
{
    let entries = parse_preset(preset);
    let ghost before = params@;
    let mut i: usize = 0;
    while i < params.len()
        invariant
            i <= params.len(),
            params@.len() == before.len(),
            pairs_view(entries@) == parse_entries(preset@),
            forall|j: int| i <= j < params@.len() ==> (#[trigger] params@[j]) == before[j],
            forall|j: int| 0 <= j < i ==> {
                let p = #[trigger] before[j];
                let q = params@[j];
                &&& q.kind == p.kind && q.name == p.name && q.enabled == p.enabled && q.order == p.order
                &&& match lookup(parse_entries(preset@), kind_id(p.kind)) {
                    Some(v) => if in_presets(p.kind) { applies(p.kind, p.data, v, q.data) } else { q.data == p.data },
                    None => q.data == p.data,
                }
            },
        decreases params.len() - i,
    {
        let k = params[i].kind;
        if k != ParamKind::Trim {
            match lookup_exec(&entries, k.id()) {
                Some(v) => apply_value(k, &mut params[i].data, v.as_str()),
                None => {},
            }
        }
        i += 1;
    }
}


proof fn lemma_id_shape(k: ParamKind)
    ensures
        !kind_id(k).contains(':'),
        !kind_id(k).contains(';'),
        kind_id(k).len() >= 3,
{
    reveal_strlit("trim");
    reveal_strlit("noaudio");
    reveal_strlit("abitrate");
    reveal_strlit("crystalizer");
    reveal_strlit("volume");
    reveal_strlit("pitch");
    reveal_strlit("speed");
    reveal_strlit("hwaccel");
    reveal_strlit("vbitrate");
    reveal_strlit("fps");
    reveal_strlit("scale");
    reveal_strlit("output");
    let id = kind_id(k);
    assert forall|i: int| 0 <= i < id.len() implies id[i] != ':' && id[i] != ';' by {
        match k {
            ParamKind::Trim => {},
            ParamKind::DisableAudio => {},
            ParamKind::AudioBitrate => {},
            ParamKind::AudioCrystalizer => {},
            ParamKind::AudioVolume => {},
            ParamKind::AudioPitch => {},
            ParamKind::SpeedFactor => {},
            ParamKind::HardwareAcceleration => {},
            ParamKind::VideoBitrate => {},
            ParamKind::VideoFrameRate => {},
            ParamKind::VideoScale => {},
            ParamKind::OutputFormat => {},
        }
    }
}

pub open spec fn kind_code(k: ParamKind) -> (nat, char, char) {
    match k {
        ParamKind::Trim => (4, 't', 'r'),
        ParamKind::DisableAudio => (7, 'n', 'o'),
        ParamKind::AudioBitrate => (8, 'a', 'b'),
        ParamKind::AudioCrystalizer => (11, 'c', 'r'),
        ParamKind::AudioVolume => (6, 'v', 'o'),
        ParamKind::AudioPitch => (5, 'p', 'i'),
        ParamKind::SpeedFactor => (5, 's', 'p'),
        ParamKind::HardwareAcceleration => (7, 'h', 'w'),
        ParamKind::VideoBitrate => (8, 'v', 'b'),
        ParamKind::VideoFrameRate => (3, 'f', 'p'),
        ParamKind::VideoScale => (5, 's', 'c'),
        ParamKind::OutputFormat => (6, 'o', 'u'),
    }
}

proof fn lemma_kind_code(k: ParamKind)
    ensures
        kind_id(k).len() >= 3,
        (kind_id(k).len(), kind_id(k)[0], kind_id(k)[1]) == kind_code(k),
{
    match k {
        ParamKind::Trim => { reveal_strlit("trim"); },
        ParamKind::DisableAudio => { reveal_strlit("noaudio"); },
        ParamKind::AudioBitrate => { reveal_strlit("abitrate"); },
        ParamKind::AudioCrystalizer => { reveal_strlit("crystalizer"); },
        ParamKind::AudioVolume => { reveal_strlit("volume"); },
        ParamKind::AudioPitch => { reveal_strlit("pitch"); },
        ParamKind::SpeedFactor => { reveal_strlit("speed"); },
        ParamKind::HardwareAcceleration => { reveal_strlit("hwaccel"); },
        ParamKind::VideoBitrate => { reveal_strlit("vbitrate"); },
        ParamKind::VideoFrameRate => { reveal_strlit("fps"); },
        ParamKind::VideoScale => { reveal_strlit("scale"); },
        ParamKind::OutputFormat => { reveal_strlit("output"); },
    }
}

/// Different kinds have different ids.
pub proof fn lemma_ids_distinct(a: ParamKind, b: ParamKind)
    requires
        kind_id(a) == kind_id(b),
    ensures
        a == b,
{
    lemma_kind_code(a);
    lemma_kind_code(b);
    assert(kind_code(a) == kind_code(b));
    match a {
        ParamKind::Trim => {},
        ParamKind::DisableAudio => {},
        ParamKind::AudioBitrate => {},
        ParamKind::AudioCrystalizer => {},
        ParamKind::AudioVolume => {},
        ParamKind::AudioPitch => {},
        ParamKind::SpeedFactor => {},
        ParamKind::HardwareAcceleration => {},
        ParamKind::VideoBitrate => {},
        ParamKind::VideoFrameRate => {},
        ParamKind::VideoScale => {},
        ParamKind::OutputFormat => {},
    }
}

/// No two parameters share a kind.
pub open spec fn kinds_unique(ps: Seq<Parameter>) -> bool {
    forall|i: int, j: int| 0 <= i < j < ps.len() ==> (#[trigger] ps[i]).kind != (#[trigger] ps[j]).kind
}

/// The value a parameter would commit contains no `;`, the preset separator.
pub open spec fn value_fits_preset(p: Parameter) -> bool {
    match non_default_value(p.data) {
        Some(v) => !v.contains(';'),
        None => true,
    }
}

/// A pair whose id has neither `:` nor `;` and whose value has no `;`.
pub open spec fn plain_entry(e: Entry) -> bool {
    !e.0.contains(':') && !e.0.contains(';') && !e.1.contains(';')
}

proof fn lemma_entries_plain(ps: Seq<Parameter>)
    requires
        forall|m: int| 0 <= m < ps.len() ==> value_fits_preset(#[trigger] ps[m]),
    ensures
        forall|n: int| 0 <= n < preset_entries(ps).len() ==> plain_entry(#[trigger] preset_entries(ps)[n]),
    decreases ps.len(),
{
    if ps.len() > 0 {
        assert forall|m: int| 0 <= m < ps.drop_last().len() implies value_fits_preset(#[trigger] ps.drop_last()[m]) by {
            assert(ps.drop_last()[m] == ps[m]);
        }
        lemma_entries_plain(ps.drop_last());
        lemma_id_shape(ps.last().kind);
        assert(value_fits_preset(ps[ps.len() - 1]));
        let e = preset_entries(ps.drop_last());
        assert forall|n: int| 0 <= n < preset_entries(ps).len() implies plain_entry(#[trigger] preset_entries(ps)[n]) by {
            if n < e.len() {
                assert(preset_entries(ps)[n] == e[n]);
            }
        }
    }
}

#[verifier::spinoff_prover]
proof fn lemma_lookup_unique(ps: Seq<Parameter>, i: int)
    requires
        kinds_unique(ps),
        0 <= i < ps.len(),
        preset_entry(ps[i]) is Some,
    ensures
        lookup(preset_entries(ps), kind_id(ps[i].kind)) == Some((preset_entry(ps[i])->0).1),
    decreases ps.len(),
{
    let last = ps.len() - 1;
    let e = preset_entries(ps.drop_last());
    if preset_entry(ps[last]) is Some {
        assert(preset_entries(ps) == e.push(preset_entry(ps[last])->0));
        assert(e.push(preset_entry(ps[last])->0).drop_last() =~= e);
    }
    if i < last {
        assert(ps[i].kind != ps[last].kind);
        if preset_entry(ps[last]) is Some {
            if kind_id(ps[last].kind) == kind_id(ps[i].kind) {
                lemma_ids_distinct(ps[last].kind, ps[i].kind);
            }
        }
        assert forall|a: int, b: int| 0 <= a < b < ps.drop_last().len() implies
            (#[trigger] ps.drop_last()[a]).kind != (#[trigger] ps.drop_last()[b]).kind by {
            assert(ps.drop_last()[a] == ps[a] && ps.drop_last()[b] == ps[b]);
        }
        assert(ps.drop_last()[i] == ps[i]);
        lemma_lookup_unique(ps.drop_last(), i);
    }
}

proof fn lemma_no_sep_last_index(t: Seq<char>, c: char)
    requires
        !t.contains(c),
    ensures
        last_index_of(t, c) == -1,
    decreases t.len(),
{
    if t.len() > 0 {
        assert(t.last() == t[t.len() - 1]);
        assert(!t.drop_last().contains(c)) by {
            if t.drop_last().contains(c) {
                let a = choose|a: int| 0 <= a < t.drop_last().len() && t.drop_last()[a] == c;
                assert(t[a] == c);
            }
        }
        lemma_no_sep_last_index(t.drop_last(), c);
    }
}

proof fn lemma_last_sep(a: Seq<char>, t: Seq<char>)
    requires
        !t.contains(';'),
    ensures
        last_index_of(a + seq![';'] + t, ';') == a.len(),
    decreases t.len(),
{
    let s = a + seq![';'] + t;
    if t.len() == 0 {
        assert(s.last() == ';');
    } else {
        assert(s.last() == t[t.len() - 1]);
        assert(s.drop_last() =~= a + seq![';'] + t.drop_last());
        assert(!t.drop_last().contains(';')) by {
            if t.drop_last().contains(';') {
                let b = choose|b: int| 0 <= b < t.drop_last().len() && t.drop_last()[b] == ';';
                assert(t[b] == ';');
            }
        }
        lemma_last_sep(a, t.drop_last());
    }
}

proof fn lemma_first_colon(id: Seq<char>, v: Seq<char>)
    requires
        !id.contains(':'),
    ensures
        index_of(id + seq![':'] + v, ':') == id.len(),
    decreases id.len(),
{
    let s = id + seq![':'] + v;
    if id.len() > 0 {
        assert(s[0] == id[0]);
        assert(s.drop_first() =~= id.drop_first() + seq![':'] + v);
        assert(!id.drop_first().contains(':')) by {
            if id.drop_first().contains(':') {
                let b = choose|b: int| 0 <= b < id.drop_first().len() && id.drop_first()[b] == ':';
                assert(id[b + 1] == ':');
            }
        }
        lemma_first_colon(id.drop_first(), v);
    }
}

proof fn lemma_entry_piece(e: Entry)
    requires
        plain_entry(e),
    ensures
        piece_entry(entry_text(e)) == Some(e),
        !entry_text(e).contains(';'),
{
    let t = entry_text(e);
    lemma_first_colon(e.0, e.1);
    assert(t.take(e.0.len() as int) =~= e.0);
    assert(t.skip(e.0.len() as int + 1) =~= e.1);
    assert(!t.contains(';')) by {
        if t.contains(';') {
            let b = choose|b: int| 0 <= b < t.len() && t[b] == ';';
            if b < e.0.len() {
                assert(e.0[b] == ';');
            } else if b > e.0.len() {
                assert(e.1[b - e.0.len() - 1] == ';');
            }
        }
    }
}

/// Reading back the text of plain pairs gives the same pairs.
#[verifier::spinoff_prover]
pub proof fn lemma_parse_entries_text(es: Seq<Entry>)
    requires
        forall|n: int| 0 <= n < es.len() ==> plain_entry(#[trigger] es[n]),
    ensures
        parse_entries(entries_text(es)) == es,
    decreases es.len(),
{
    let ms = es.map_values(|e: Entry| entry_text(e));
    if es.len() == 0 {
        assert(entries_text(es) == Seq::<char>::empty());
        assert(split_pieces(Seq::<char>::empty()) == seq![Seq::<char>::empty()]);
        assert(piece_entry(Seq::<char>::empty()) is None);
        assert(seq![Seq::<char>::empty()].drop_last() =~= Seq::<Seq<char>>::empty());
        assert(seq![Seq::<char>::empty()].last() == Seq::<char>::empty());
        assert(entries_of_pieces(Seq::<Seq<char>>::empty()) == Seq::<Entry>::empty());
        assert(entries_of_pieces(seq![Seq::<char>::empty()]) == Seq::<Entry>::empty());
    } else {
        let last = es.last();
        assert(plain_entry(es[es.len() - 1]));
        lemma_entry_piece(last);
        let t = entry_text(last);
        if es.len() == 1 {
            assert(ms =~= seq![t]);
            lemma_no_sep_last_index(t, ';');
            assert(split_pieces(t) == seq![t]);
            assert(seq![t].drop_last() =~= Seq::<Seq<char>>::empty());
            assert(entries_text(es) == t);
            assert(seq![t].last() == t);
            assert(entries_of_pieces(Seq::<Seq<char>>::empty()) == Seq::<Entry>::empty());
            assert(entries_of_pieces(seq![t]) == Seq::<Entry>::empty().push(last));
            assert(es =~= seq![last]);
        } else {
            let front = es.drop_last();
            assert(ms.drop_last() =~= front.map_values(|e: Entry| entry_text(e)));
            assert(ms.last() == t);
            let a = entries_text(front);
            assert(entries_text(es) == a + seq![';'] + t);
            lemma_last_sep(a, t);
            let s = a + seq![';'] + t;
            assert(s.take(a.len() as int) =~= a);
            assert(s.skip(a.len() as int + 1) =~= t);
            assert(split_pieces(s) == split_pieces(a).push(t));
            assert forall|n: int| 0 <= n < front.len() implies plain_entry(#[trigger] front[n]) by {
                assert(front[n] == es[n]);
            }
            lemma_parse_entries_text(front);
            assert(split_pieces(a).push(t).drop_last() =~= split_pieces(a));
            assert(entries_of_pieces(split_pieces(a).push(t)) == entries_of_pieces(split_pieces(a)).push(last));
            assert(es =~= front.push(last));
        }
    }
}

proof fn lemma_position_found(vals: Seq<Seq<char>>, v: Seq<char>)
    requires
        vals.contains(v),
    ensures
        0 <= position_of(vals, v) < vals.len(),
        vals[position_of(vals, v)] == v,
    decreases vals.len(),
{
    if vals[0] != v {
        let b = choose|b: int| 0 <= b < vals.len() && vals[b] == v;
        assert(vals.drop_first()[b - 1] == v);
        lemma_position_found(vals.drop_first(), v);
    }
}

/// The data of a parameter can take the value `v` from a preset, and keeps
/// it unchanged: a switch takes `true`, a select needs an option with that
/// value, a custom value must be one its validator leaves as it is.
pub open spec fn accepts(k: ParamKind, d: ParameterData, v: Seq<char>) -> bool {
    match d {
        ParameterData::Toggle { .. } => v == toggle_text(true),
        ParameterData::Select { options, .. } => values_of(options@).contains(v),
        ParameterData::CustomSelect { .. } => validated(k, v) == Some(v),
        ParameterData::Trim(_) => false,
    }
}

/// Round trip: applying the preset saved from `mutated` to a set `fresh`
/// gives each parameter of `fresh` that shares an id with a saved parameter
/// the value that was saved. The saved values must not contain the `;`
/// separator, and the receiving parameter must be able to hold the value.
#[verifier::spinoff_prover]
pub proof fn lemma_preset_round_trip(mutated: Seq<Parameter>, fresh: Seq<Parameter>, applied: Seq<Parameter>, i: int, j: int)
    requires
        kinds_unique(mutated),
        forall|m: int| 0 <= m < mutated.len() ==> value_fits_preset(#[trigger] mutated[m]),
        preset_applied(fresh, entries_text(preset_entries(mutated)), applied),
        0 <= i < mutated.len(),
        0 <= j < fresh.len(),
        preset_entry(mutated[i]) is Some,
        fresh[j].kind == mutated[i].kind,
        accepts(fresh[j].kind, fresh[j].data, (preset_entry(mutated[i])->0).1),
    ensures
        committed_value(applied[j].data) == Some((preset_entry(mutated[i])->0).1),
{
    let es = preset_entries(mutated);
    let v = (preset_entry(mutated[i])->0).1;
    lemma_entries_plain(mutated);
    lemma_parse_entries_text(es);
    lemma_lookup_unique(mutated, i);
    assert(lookup(parse_entries(entries_text(es)), kind_id(fresh[j].kind)) == Some(v));
    let p = fresh[j];
    let q = applied[j];
    assert(in_presets(p.kind));
    assert(applies(p.kind, p.data, v, q.data));
    match p.data {
        ParameterData::Select { options, selected_index, default } => {
            lemma_position_found(values_of(options@), v);
            assert(values_of(options@)[position_of(values_of(options@), v)] == options@[position_of(values_of(options@), v)].value@);
        },
        _ => {},
    }
}

} // verus!
