use vstd::prelude::*;
use crate::model::{InputConstraints, TrimData};
use crate::params::kind::{display_value, kind_order, validated, ParamKind};
use crate::text::{cat, owned};

verus! {

/// One choice of a select: the label shown and the value committed.
pub struct SelectOption {
    pub name: String,
    pub value: String,
}

pub open spec fn names_of(opts: Seq<SelectOption>) -> Seq<Seq<char>> {
    opts.map_values(|o: SelectOption| o.name@)
}

pub open spec fn values_of(opts: Seq<SelectOption>) -> Seq<Seq<char>> {
    opts.map_values(|o: SelectOption| o.value@)
}

impl SelectOption {
    pub fn new(name: &str, value: &str) -> (r: SelectOption)
        ensures
            r.name@ == name@,
            r.value@ == value@,
    {
        SelectOption { name: owned(name), value: owned(value) }
    }

    /// Options whose label is their value.
    pub fn from_slice(values: &[&str]) -> (r: Vec<SelectOption>)
        ensures
            r.len() == values@.len(),
            forall|i: int| 0 <= i < r.len() ==> (#[trigger] r@[i]).name@ == values@[i]@ && r@[i].value@ == values@[i]@,
    {
        let mut r: Vec<SelectOption> = Vec::new();
        let mut i: usize = 0;
        while i < values.len()
            invariant
                i <= values@.len(),
                r.len() == i,
                forall|j: int| 0 <= j < i ==> (#[trigger] r@[j]).name@ == values@[j]@ && r@[j].value@ == values@[j]@,
            decreases values@.len() - i,
        {
            r.push(SelectOption::new(values[i], values[i]));
            i += 1;
        }
        r
    }

    /// Options from `(label, value)` pairs.
    pub fn from_pairs(pairs: &[(&str, &str)]) -> (r: Vec<SelectOption>)
        ensures
            r.len() == pairs@.len(),
            forall|i: int| 0 <= i < r.len() ==> (#[trigger] r@[i]).name@ == pairs@[i].0@ && r@[i].value@ == pairs@[i].1@,
    {
        let mut r: Vec<SelectOption> = Vec::new();
        let mut i: usize = 0;
        while i < pairs.len()
            invariant
                i <= pairs@.len(),
                r.len() == i,
                forall|j: int| 0 <= j < i ==> (#[trigger] r@[j]).name@ == pairs@[j].0@ && r@[j].value@ == pairs@[j].1@,
            decreases pairs@.len() - i,
        {
            let (name, value) = pairs[i];
            r.push(SelectOption::new(name, value));
            i += 1;
        }
        r
    }
}

/// How a parameter is set: a switch, a fixed choice, a choice or a custom
/// value checked by the parameter's validator, or a time range.
#[allow(inconsistent_fields)]
pub enum ParameterData {
    Toggle { value: bool },
    Select { options: Vec<SelectOption>, selected_index: usize, default: String },
    CustomSelect {
        options: Vec<SelectOption>,
        selected_index: usize,
        /// What the encoder gets; the options are shortcuts that set it.
        value: String,
        default: String,
        constraints: InputConstraints,
    },
    Trim(TrimData),
}

/// The selected index of a select is in range.
pub open spec fn wf_data(d: ParameterData) -> bool {
    match d {
        ParameterData::Select { options, selected_index, .. } => selected_index < options.len(),
        ParameterData::CustomSelect { options, selected_index, .. } => selected_index < options.len(),
        _ => true,
    }
}

/// The kind of data each parameter kind holds.
pub open spec fn data_fits(k: ParamKind, d: ParameterData) -> bool {
    match k {
        ParamKind::Trim => d is Trim,
        ParamKind::DisableAudio => d is Toggle,
        ParamKind::HardwareAcceleration | ParamKind::OutputFormat => d is Select,
        _ => d is CustomSelect,
    }
}

pub open spec fn toggle_text(b: bool) -> Seq<char> {
    if b { "true"@ } else { "false"@ }
}

/// The value a parameter commits, when it differs from its default: the
/// selected option's value, the custom value, or `true` for a switch that is on.
pub open spec fn non_default_value(d: ParameterData) -> Option<Seq<char>> {
    match d {
        ParameterData::Toggle { value } => if value { Some(toggle_text(true)) } else { None },
        ParameterData::Select { options, selected_index, default } =>
            if selected_index < options.len() && options@[selected_index as int].value@ != default@ {
                Some(options@[selected_index as int].value@)
            } else {
                None
            },
        ParameterData::CustomSelect { value, default, .. } =>
            if value@ != default@ { Some(value@) } else { None },
        ParameterData::Trim(_) => None,
    }
}

/// The value a parameter commits, default or not (a time range has none).
pub open spec fn committed_value(d: ParameterData) -> Option<Seq<char>> {
    match d {
        ParameterData::Toggle { value } => Some(toggle_text(value)),
        ParameterData::Select { options, selected_index, .. } =>
            if selected_index < options.len() {
                Some(options@[selected_index as int].value@)
            } else {
                None
            },
        ParameterData::CustomSelect { value, .. } => Some(value@),
        ParameterData::Trim(_) => None,
    }
}

pub open spec fn next_index(i: usize, n: usize) -> usize {
    if i + 1 >= n { 0 } else { (i + 1) as usize }
}

pub open spec fn prev_index(i: usize, n: usize) -> usize {
    if i == 0 || i > n { (n - 1) as usize } else { (i - 1) as usize }
}

/// One user-adjustable encoding option.
pub struct Parameter {
    pub kind: ParamKind,
    pub name: String,
    pub enabled: bool,
    /// Synthesis key: parameters are turned into arguments by increasing order.
    pub order: u32,
    pub data: ParameterData,
}

pub open spec fn wf_param(p: Parameter) -> bool {
    &&& wf_data(p.data)
    &&& data_fits(p.kind, p.data)
    &&& p.order == kind_order(p.kind)
}

/// A request a parameter hands its caller when the user opens it.
pub enum EditRequest {
    Trim(TrimData),
    CustomValue { kind: ParamKind, name: String, value: String, constraints: InputConstraints },
}

pub open spec fn trim_text(t: TrimData) -> Seq<char> {
    (if t.precise { "!"@ } else { "~"@ }) + (match t.ss {
        Some(s) => s@,
        None => "start"@,
    }) + ".."@ + (if t.use_to { "to: "@ } else { "duration: "@ }) + (match t.to {
        Some(s) => s@,
        None => "end"@,
    })
}

/// How a parameter's current value is shown.
pub open spec fn describe_text(k: ParamKind, d: ParameterData) -> Seq<char> {
    match d {
        ParameterData::Toggle { value } => if value { "on"@ } else { "off"@ },
        ParameterData::Select { options, selected_index, .. } =>
            if selected_index < options.len() { options@[selected_index as int].name@ } else { Seq::empty() },
        ParameterData::CustomSelect { value, .. } => display_value(k, value@),
        ParameterData::Trim(t) => trim_text(t),
    }
}

fn text_or(s: &Option<String>, fallback: &str) -> (r: String)
    ensures
        r@ == (match s {
            Some(x) => x@,
            None => fallback@,
        }),
{
    match s {
        Some(x) => x.clone(),
        None => owned(fallback),
    }
}

impl Parameter {
    pub fn new(kind: ParamKind, name: &str, data: ParameterData) -> (r: Parameter)
        ensures
            r.kind == kind,
            r.name@ == name@,
            r.enabled,
            r.order == kind_order(kind),
            r.data == data,
    {
        Parameter { kind, name: owned(name), enabled: true, order: kind.order(), data }
    }

    /// Whether the selected index of a select is in range.
    pub fn is_well_formed(&self) -> (r: bool)
        ensures
            r == wf_data(self.data),
    {
        match &self.data {
            ParameterData::Select { options, selected_index, .. } => *selected_index < options.len(),
            ParameterData::CustomSelect { options, selected_index, .. } => *selected_index < options.len(),
            _ => true,
        }
    }

    /// The stable id of this parameter.
    pub fn id(&self) -> (r: &'static str)
        ensures
            r@ == crate::params::kind::kind_id(self.kind),
    {
        self.kind.id()
    }

    /// Flips a switch, or selects the next option (wrapping around); a custom
    /// select also takes the option's value. A time range cannot be cycled:
    /// the caller gets a copy of it to open an editor. A disabled parameter
    /// does not change.
    pub fn toggle_next(&mut self) -> (r: Option<TrimData>)
        requires
            wf_data(old(self).data),
        ensures
            final(self).kind == old(self).kind,
            final(self).name == old(self).name,
            final(self).enabled == old(self).enabled,
            final(self).order == old(self).order,
            wf_data(final(self).data),
            !old(self).enabled ==> final(self).data == old(self).data && r is None,
            old(self).enabled ==> match old(self).data {
                ParameterData::Toggle { value } => final(self).data == ParameterData::Toggle { value: !value } && r is None,
                ParameterData::Select { options, selected_index, default } =>
                    final(self).data == (ParameterData::Select { options, selected_index: next_index(selected_index, options.len()), default })
                    && r is None,
                ParameterData::CustomSelect { options, selected_index, value, default, constraints } =>
                    final(self).data matches ParameterData::CustomSelect { options: o2, selected_index: i2, value: v2, default: d2, constraints: c2 }
                    && o2 == options && d2 == default && c2 == constraints
                    && i2 == next_index(selected_index, options.len())
                    && v2@ == options@[i2 as int].value@ && r is None,
                ParameterData::Trim(t) => final(self).data == old(self).data && r == Some(t),
            },
    {
        if !self.enabled {
            return None;
        }
        match &mut self.data {
            ParameterData::Toggle { value } => {
                *value = !*value;
                None
            },
            ParameterData::Select { options, selected_index, .. } => {
                *selected_index = if *selected_index + 1 >= options.len() { 0 } else { *selected_index + 1 };
                None
            },
            ParameterData::CustomSelect { options, selected_index, value, .. } => {
                *selected_index = if *selected_index + 1 >= options.len() { 0 } else { *selected_index + 1 };
                *value = options[*selected_index].value.clone();
                None
            },
            ParameterData::Trim(t) => Some(t.copy()),
        }
    }

    /// Like `toggle_next`, in the other direction.
    pub fn toggle_prev(&mut self) -> (r: Option<TrimData>)
        requires
            wf_data(old(self).data),
        ensures
            final(self).kind == old(self).kind,
            final(self).name == old(self).name,
            final(self).enabled == old(self).enabled,
            final(self).order == old(self).order,
            wf_data(final(self).data),
            !old(self).enabled ==> final(self).data == old(self).data && r is None,
            old(self).enabled ==> match old(self).data {
                ParameterData::Toggle { value } => final(self).data == ParameterData::Toggle { value: !value } && r is None,
                ParameterData::Select { options, selected_index, default } =>
                    final(self).data == (ParameterData::Select { options, selected_index: prev_index(selected_index, options.len()), default })
                    && r is None,
                ParameterData::CustomSelect { options, selected_index, value, default, constraints } =>
                    final(self).data matches ParameterData::CustomSelect { options: o2, selected_index: i2, value: v2, default: d2, constraints: c2 }
                    && o2 == options && d2 == default && c2 == constraints
                    && i2 == prev_index(selected_index, options.len())
                    && v2@ == options@[i2 as int].value@ && r is None,
                ParameterData::Trim(t) => final(self).data == old(self).data && r == Some(t),
            },
    {
        if !self.enabled {
            return None;
        }
        match &mut self.data {
            ParameterData::Toggle { value } => {
                *value = !*value;
                None
            },
            ParameterData::Select { options, selected_index, .. } => {
                *selected_index = if *selected_index == 0 { options.len() - 1 } else { *selected_index - 1 };
                None
            },
            ParameterData::CustomSelect { options, selected_index, value, .. } => {
                *selected_index = if *selected_index == 0 { options.len() - 1 } else { *selected_index - 1 };
                *value = options[*selected_index].value.clone();
                None
            },
            ParameterData::Trim(t) => Some(t.copy()),
        }
    }

    /// Whether the user can open an editor on this parameter.
    pub fn is_editable(&self) -> (r: bool)
        ensures
            r == (self.data is CustomSelect || self.data is Trim),
    {
        match &self.data {
            ParameterData::CustomSelect { .. } | ParameterData::Trim(_) => true,
            _ => false,
        }
    }

    /// What an editor opened on this parameter starts from.
    pub fn edit_request(&self) -> (r: Option<EditRequest>)
        ensures
            match self.data {
                ParameterData::Trim(t) => r == Some(EditRequest::Trim(t)),
                ParameterData::CustomSelect { value, constraints, .. } =>
                    r matches Some(EditRequest::CustomValue { kind, name, value: v, constraints: c })
                    && kind == self.kind && name == self.name && v == value && c == constraints,
                _ => r is None,
            },
    {
        match &self.data {
            ParameterData::Trim(t) => Some(EditRequest::Trim(t.copy())),
            ParameterData::CustomSelect { value, constraints, .. } => Some(EditRequest::CustomValue {
                kind: self.kind,
                name: self.name.clone(),
                value: value.clone(),
                constraints: *constraints,
            }),
            _ => None,
        }
    }

    /// Commits a custom value typed by the user, once the parameter's validator
    /// accepts it. A disabled parameter, or one without a custom value, does
    /// not change.
    pub fn set_custom_value(&mut self, input: &str) -> (r: Result<(), &'static str>)
        ensures
            final(self).kind == old(self).kind,
            final(self).name == old(self).name,
            final(self).enabled == old(self).enabled,
            final(self).order == old(self).order,
            r is Err <==> (old(self).enabled && old(self).data is CustomSelect && validated(old(self).kind, input@) is None),
            match old(self).data {
                ParameterData::CustomSelect { options, selected_index, value, default, constraints } =>
                    if old(self).enabled && validated(old(self).kind, input@) is Some {
                        final(self).data matches ParameterData::CustomSelect { options: o2, selected_index: i2, value: v2, default: d2, constraints: c2 }
                        && o2 == options && i2 == selected_index && d2 == default && c2 == constraints
                        && Some(v2@) == validated(old(self).kind, input@)
                    } else {
                        final(self).data == old(self).data
                    },
                _ => final(self).data == old(self).data,
            },
    {
        if !self.enabled {
            return Ok(());
        }
        let kind = self.kind;
        match &mut self.data {
            ParameterData::CustomSelect { value, .. } => {
                match kind.validate(input) {
                    Ok(v) => {
                        *value = v;
                        Ok(())
                    },
                    Err(e) => Err(e),
                }
            },
            _ => Ok(()),
        }
    }

    /// Replaces the time range of a trim parameter, when it is enabled.
    pub fn set_trim(&mut self, trim: TrimData)
        ensures
            final(self).kind == old(self).kind,
            final(self).name == old(self).name,
            final(self).enabled == old(self).enabled,
            final(self).order == old(self).order,
            final(self).data == (if old(self).enabled && old(self).data is Trim {
                ParameterData::Trim(trim)
            } else {
                old(self).data
            }),
    {
        if self.enabled {
            if let ParameterData::Trim(t) = &mut self.data {
                *t = trim;
            }
        }
    }

    /// The current value as shown to the user.
    pub fn describe_value(&self) -> (r: String)
        ensures
            r@ == describe_text(self.kind, self.data),
    {
        match &self.data {
            ParameterData::Toggle { value } => if *value { owned("on") } else { owned("off") },
            ParameterData::Select { options, selected_index, .. } =>
                if *selected_index < options.len() { options[*selected_index].name.clone() } else { String::new() },
            ParameterData::CustomSelect { value, .. } => self.kind.format_value(value.as_str()),
            ParameterData::Trim(t) => {
                let a = cat(if t.precise { "!" } else { "~" }, text_or(&t.ss, "start").as_str());
                let b = cat(a.as_str(), "..");
                let c = cat(b.as_str(), if t.use_to { "to: " } else { "duration: " });
                cat(c.as_str(), text_or(&t.to, "end").as_str())
            },
        }
    }

    /// The name and the current value, as listed to the user.
    pub fn describe(&self) -> (r: String)
        ensures
            r@ == self.name@ + ": "@ + describe_text(self.kind, self.data),
    {
        let head = cat(self.name.as_str(), ": ");
        cat(head.as_str(), self.describe_value().as_str())
    }
}

} // verus!
