//! Mappings: the scripts and counters that rewrite the entries of a playlist,
//! as they are configured.
use vstd::prelude::*;

use crate::accessor::{
    canonical_field_name, field_name, templates_view, PatternTemplate, TemplateValue, TemplateView,
    FIELD_COUNT,
};
use crate::error::{info_err, is_info_error, TuliproxError, TuliproxErrorKind};
use crate::script::{compile_source, error_message, MapperScript};
use crate::text::{concat2, concat3, contains, occurs_in, replace, replaced, str_eq};

verus! {

/// Whether a name is one of the fields a mapper may touch, exactly as written.
pub open spec fn is_mapper_field(name: Seq<char>) -> bool {
    exists|i: int| 0 <= i < FIELD_COUNT && name == #[trigger] field_name(i)
}

/// Whether a name is one of the fields a counter may write to.
pub open spec fn is_counter_field(name: Seq<char>) -> bool {
    name == "name"@ || name == "title"@ || name == "caption"@ || name == "chno"@
}

/// Whether a name is one of the fields a mapper may touch.
pub fn valid_mapper_field(name: &str) -> (r: bool)
    ensures
        r == is_mapper_field(name@),
{
    let mut i: usize = 0;
    while i < FIELD_COUNT
        invariant
            i <= FIELD_COUNT,
            forall|j: int| 0 <= j < i ==> name@ != #[trigger] field_name(j),
        decreases FIELD_COUNT - i,
    {
        if str_eq(name, canonical_field_name(i)) {
            return true;
        }
        i += 1;
    }
    false
}

/// Whether a name is one of the fields a counter may write to.
pub fn valid_counter_field(name: &str) -> (r: bool)
    ensures
        r == is_counter_field(name@),
{
    str_eq(name, "name") || str_eq(name, "title") || str_eq(name, "caption") || str_eq(name, "chno")
}

/// How a counter changes the field it writes to.
#[derive(Debug, Copy, Clone, PartialEq, Eq, Structural)]
pub enum CounterModifier {
    Assign,
    Suffix,
    Prefix,
}

/// The word a modifier is configured by.
pub open spec fn modifier_word(m: CounterModifier) -> Seq<char> {
    match m {
        CounterModifier::Assign => "assign"@,
        CounterModifier::Suffix => "suffix"@,
        CounterModifier::Prefix => "prefix"@,
    }
}

pub open spec fn msg_unknown_modifier(s: Seq<char>) -> Seq<char> {
    "Unknown CounterModifier: "@ + s
}

impl Default for CounterModifier {
    fn default() -> (r: Self)
        ensures
            r == CounterModifier::Assign,
    {
        CounterModifier::Assign
    }
}

impl CounterModifier {
    /// The word the modifier is configured by.
    pub fn to_string(&self) -> (r: String)
        ensures
            r@ == modifier_word(*self),
    {
        match self {
            CounterModifier::Assign => "assign".to_owned(),
            CounterModifier::Suffix => "suffix".to_owned(),
            CounterModifier::Prefix => "prefix".to_owned(),
        }
    }

    /// The modifier a word stands for.
    pub fn from_str(s: &str) -> (r: Result<CounterModifier, TuliproxError>)
        ensures
            s@ == "assign"@ ==> r == Ok::<CounterModifier, TuliproxError>(CounterModifier::Assign),
            s@ != "assign"@ && s@ == "suffix"@ ==> r == Ok::<CounterModifier, TuliproxError>(
                CounterModifier::Suffix,
            ),
            s@ != "assign"@ && s@ != "suffix"@ && s@ == "prefix"@ ==> r == Ok::<
                CounterModifier,
                TuliproxError,
            >(CounterModifier::Prefix),
            s@ != "assign"@ && s@ != "suffix"@ && s@ != "prefix"@ ==> (r matches Err(e) && e.kind
                == TuliproxErrorKind::Info && e.message@ == msg_unknown_modifier(s@)),
    {
        if str_eq(s, "assign") {
            Ok(CounterModifier::Assign)
        } else if str_eq(s, "suffix") {
            Ok(CounterModifier::Suffix)
        } else if str_eq(s, "prefix") {
            Ok(CounterModifier::Prefix)
        } else {
            Err(info_err(concat2("Unknown CounterModifier: ", s)))
        }
    }
}

/// A counter as it is configured.
#[derive(Debug, Clone, Default)]
pub struct MappingCounterDefinition {
    pub filter: String,
    pub field: String,
    pub concat: String,
    pub modifier: CounterModifier,
    pub value: u32,
    pub padding: u8,
}

/// A counter ready to count: the entries its filter selects get its value
/// written to its field.
#[derive(Debug, Clone)]
pub struct MappingCounter {
    pub filter: String,
    pub field: String,
    pub concat: String,
    pub modifier: CounterModifier,
    pub value: u32,
    pub padding: u8,
}

/// The place a template is referred to by: its name between two `!`.
pub open spec fn placeholder(name: Seq<char>) -> Seq<char> {
    "!"@ + name + "!"@
}

pub open spec fn msg_multi_template(name: Seq<char>) -> Seq<char> {
    "Template "@ + name + " has more than one value"@
}

/// A text with the templates from `i` on applied in order: every place a
/// template is referred to is replaced by its text. A template with several
/// texts that is referred to is an error.
pub open spec fn applied_templates(text: Seq<char>, templates: Seq<TemplateView>, i: int) -> Result<
    Seq<char>,
    Seq<char>,
>
    decreases templates.len() - i,
{
    if i < 0 || i >= templates.len() {
        Ok(text)
    } else if occurs_in(text, placeholder(templates[i].name)) {
        match templates[i].single() {
            Some(v) => applied_templates(
                replaced(text, placeholder(templates[i].name), v),
                templates,
                i + 1,
            ),
            None => Err(msg_multi_template(templates[i].name)),
        }
    } else {
        applied_templates(text, templates, i + 1)
    }
}

/// A text with the templates applied; without templates, the text itself.
pub open spec fn with_templates(text: Seq<char>, templates: Option<&Vec<PatternTemplate>>) -> Result<
    Seq<char>,
    Seq<char>,
> {
    match templates {
        Some(list) => applied_templates(text, templates_view(list@), 0),
        None => Ok(text),
    }
}

/// Applies the templates to a text.
pub fn apply_templates(text: &str, templates: Option<&Vec<PatternTemplate>>) -> (r: Result<
    String,
    TuliproxError,
>)
    ensures
        match with_templates(text@, templates) {
            Ok(t) => r matches Ok(x) && x@ == t,
            Err(msg) => r matches Err(e) && e.kind == TuliproxErrorKind::Info && e.message@ == msg,
        },
{
    let mut current = text.to_owned();
    match templates {
        Some(list) => {
            let ghost all = templates_view(list@);
            let mut i: usize = 0;
            while i < list.len()
                invariant
                    i <= list.len(),
                    all == templates_view(list@),
                    templates == Some(list),
                    applied_templates(current@, all, i as int) == applied_templates(text@, all, 0),
                decreases list.len() - i,
            {
                assert(all[i as int] == list@[i as int]@);
                let mark = concat3("!", list[i].name.as_str(), "!");
                proof {
                    reveal_strlit("!");
                    assert(mark@.len() > 0);
                }
                if contains(current.as_str(), mark.as_str()) {
                    match &list[i].value {
                        TemplateValue::Single(v) => {
                            current = replace(current.as_str(), mark.as_str(), v.as_str());
                        },
                        TemplateValue::Multi(_) => {
                            return Err(
                                info_err(
                                    concat3(
                                        "Template ",
                                        list[i].name.as_str(),
                                        " has more than one value",
                                    ),
                                ),
                            );
                        },
                    }
                }
                i += 1;
            }
            Ok(current)
        },
        None => Ok(current),
    }
}

/// A change a mapper makes to one field.
#[derive(Debug, Clone)]
pub enum MapperOperation {
    Lowercase { field: String },
    Uppercase { field: String },
    Capitalize { field: String },
    Suffix { field: String, value: String },
    Prefix { field: String, value: String },
    SetValue { field: String, value: String },
    Copy { field: String, source: String },
}

pub open spec fn msg_invalid_attribute(field: Seq<char>) -> Seq<char> {
    "Invalid mapper attribute field "@ + field
}

pub open spec fn msg_invalid_source(field: Seq<char>) -> Seq<char> {
    "Invalid mapper source field "@ + field
}

/// What an operation is: its kind, the field it writes to, and its text or
/// the field it copies from.
pub enum OperationView {
    Lowercase { field: Seq<char> },
    Uppercase { field: Seq<char> },
    Capitalize { field: Seq<char> },
    Suffix { field: Seq<char>, value: Seq<char> },
    Prefix { field: Seq<char>, value: Seq<char> },
    SetValue { field: Seq<char>, value: Seq<char> },
    Copy { field: Seq<char>, source: Seq<char> },
}

impl View for MapperOperation {
    type V = OperationView;

    open spec fn view(&self) -> OperationView {
        match self {
            MapperOperation::Lowercase { field } => OperationView::Lowercase { field: field@ },
            MapperOperation::Uppercase { field } => OperationView::Uppercase { field: field@ },
            MapperOperation::Capitalize { field } => OperationView::Capitalize { field: field@ },
            MapperOperation::Suffix { field, value } => OperationView::Suffix {
                field: field@,
                value: value@,
            },
            MapperOperation::Prefix { field, value } => OperationView::Prefix {
                field: field@,
                value: value@,
            },
            MapperOperation::SetValue { field, value } => OperationView::SetValue {
                field: field@,
                value: value@,
            },
            MapperOperation::Copy { field, source } => OperationView::Copy {
                field: field@,
                source: source@,
            },
        }
    }
}

/// An operation with `text` in place of its own; one without a text is left
/// as it is.
pub open spec fn with_text(op: OperationView, text: Seq<char>) -> OperationView {
    match op {
        OperationView::Suffix { field, value } => OperationView::Suffix { field, value: text },
        OperationView::Prefix { field, value } => OperationView::Prefix { field, value: text },
        OperationView::SetValue { field, value } => OperationView::SetValue { field, value: text },
        _ => op,
    }
}

impl MapperOperation {
    /// The field the operation writes to.
    pub open spec fn target_field(self) -> Seq<char> {
        match self {
            MapperOperation::Lowercase { field } => field@,
            MapperOperation::Uppercase { field } => field@,
            MapperOperation::Capitalize { field } => field@,
            MapperOperation::Suffix { field, value } => field@,
            MapperOperation::Prefix { field, value } => field@,
            MapperOperation::SetValue { field, value } => field@,
            MapperOperation::Copy { field, source } => field@,
        }
    }

    /// The text the operation writes, where it has one.
    pub open spec fn text_value(self) -> Option<Seq<char>> {
        match self {
            MapperOperation::Suffix { field, value } => Some(value@),
            MapperOperation::Prefix { field, value } => Some(value@),
            MapperOperation::SetValue { field, value } => Some(value@),
            _ => None,
        }
    }

    /// The operation as preparing leaves it where nothing keeps it from being
    /// prepared: the same kind and fields, with the templates applied to its
    /// text.
    pub open spec fn prepared(self, templates: Option<&Vec<PatternTemplate>>) -> OperationView {
        match self.text_value() {
            Some(v) => match with_templates(v, templates) {
                Ok(text) => with_text(self@, text),
                Err(_) => self@,
            },
            None => self@,
        }
    }

    /// The error that keeps the operation from being prepared, if any: a
    /// field it writes to or copies from that is none, or a template that
    /// cannot be applied to its text.
    pub open spec fn fault(self, templates: Option<&Vec<PatternTemplate>>) -> Option<Seq<char>> {
        if !is_mapper_field(self.target_field()) {
            Some(msg_invalid_attribute(self.target_field()))
        } else {
            match self {
                MapperOperation::Copy { field, source } => if is_mapper_field(source@) {
                    None
                } else {
                    Some(msg_invalid_source(source@))
                },
                _ => match self.text_value() {
                    Some(v) => match with_templates(v, templates) {
                        Ok(_) => None,
                        Err(msg) => Some(msg),
                    },
                    None => None,
                },
            }
        }
    }

    /// Checks the fields of the operation and applies the templates to its
    /// text. An operation that cannot be prepared is left as it was.
    pub fn prepare(&mut self, templates: Option<&Vec<PatternTemplate>>) -> (r: Result<
        (),
        TuliproxError,
    >)
        ensures
            match old(self).fault(templates) {
                Some(msg) => is_info_error(r, msg) && *final(self) == *old(self),
                None => r is Ok && final(self)@ == old(self).prepared(templates),
            },
    {
        match self {
            MapperOperation::Lowercase { field } => check_attribute(field.as_str()),
            MapperOperation::Uppercase { field } => check_attribute(field.as_str()),
            MapperOperation::Capitalize { field } => check_attribute(field.as_str()),
            MapperOperation::Copy { field, source } => {
                match check_attribute(field.as_str()) {
                    Ok(_) => {},
                    Err(e) => {
                        return Err(e);
                    },
                }
                if !valid_mapper_field(source.as_str()) {
                    return Err(info_err(concat2("Invalid mapper source field ", source.as_str())));
                }
                Ok(())
            },
            MapperOperation::Suffix { field, value } => {
                match check_attribute(field.as_str()) {
                    Ok(_) => {},
                    Err(e) => {
                        return Err(e);
                    },
                }
                let text = match apply_templates(value.as_str(), templates) {
                    Ok(t) => t,
                    Err(e) => {
                        return Err(e);
                    },
                };
                *value = text;
                Ok(())
            },
            MapperOperation::Prefix { field, value } => {
                match check_attribute(field.as_str()) {
                    Ok(_) => {},
                    Err(e) => {
                        return Err(e);
                    },
                }
                let text = match apply_templates(value.as_str(), templates) {
                    Ok(t) => t,
                    Err(e) => {
                        return Err(e);
                    },
                };
                *value = text;
                Ok(())
            },
            MapperOperation::SetValue { field, value } => {
                match check_attribute(field.as_str()) {
                    Ok(_) => {},
                    Err(e) => {
                        return Err(e);
                    },
                }
                let text = match apply_templates(value.as_str(), templates) {
                    Ok(t) => t,
                    Err(e) => {
                        return Err(e);
                    },
                };
                *value = text;
                Ok(())
            },
        }
    }
}

fn check_attribute(field: &str) -> (r: Result<(), TuliproxError>)
    ensures
        is_mapper_field(field@) ==> r is Ok,
        !is_mapper_field(field@) ==> is_info_error(r, msg_invalid_attribute(field@)),
{
    if valid_mapper_field(field) {
        Ok(())
    } else {
        Err(info_err(concat2("Invalid mapper attribute field ", field)))
    }
}

/// A script with the filter that says which entries it is run on.
#[derive(Debug)]
pub struct Mapper {
    pub filter: String,
    pub script: String,
    pub t_script: Option<MapperScript>,
}

/// What preparing a mapper gives: the message of the error, or the arena and
/// the statements of the compiled script.
pub open spec fn prepared_script(script: Seq<char>, templates: Option<&Vec<PatternTemplate>>) -> Result<
    (Seq<crate::ast::ExprView>, Seq<crate::ast::StatementView>),
    Seq<char>,
> {
    match with_templates(script, templates) {
        Ok(text) => match compile_source(text) {
            Ok(parts) => Ok(parts),
            Err(e) => Err(error_message(e)),
        },
        Err(msg) => Err(msg),
    }
}

impl Mapper {
    /// Applies the templates to the script and compiles it.
    pub fn prepare(&mut self, templates: Option<&Vec<PatternTemplate>>) -> (r: Result<
        (),
        TuliproxError,
    >)
        ensures
            final(self).filter == old(self).filter,
            final(self).script == old(self).script,
            match prepared_script(old(self).script@, templates) {
                Ok((arena, stmts)) => {
                    &&& r is Ok
                    &&& final(self).t_script matches Some(script) && script.arena() == arena
                        && script.statements() == stmts
                },
                Err(msg) => is_info_error(r, msg) && final(self).t_script == old(self).t_script,
            },
    {
        let script = match apply_templates(self.script.as_str(), templates) {
            Ok(text) => text,
            Err(e) => {
                return Err(e);
            },
        };
        match MapperScript::parse(script.as_str(), templates) {
            Ok(compiled) => {
                self.t_script = Some(compiled);
                Ok(())
            },
            Err(e) => Err(e),
        }
    }
}

/// A mapping: mappers and counters under one id.
#[derive(Debug)]
pub struct Mapping {
    pub id: String,
    pub match_as_ascii: bool,
    pub mapper: Option<Vec<Mapper>>,
    pub counter: Option<Vec<MappingCounterDefinition>>,
    pub t_counter: Option<Vec<MappingCounter>>,
    pub templates: Option<Vec<PatternTemplate>>,
}

pub open spec fn msg_invalid_counter_field(field: Seq<char>) -> Seq<char> {
    "Invalid counter field "@ + field
}

/// What a counter stands for.
pub ghost struct CounterView {
    pub filter: Seq<char>,
    pub field: Seq<char>,
    pub concat: Seq<char>,
    pub modifier: CounterModifier,
    pub value: u32,
    pub padding: u8,
}

impl View for MappingCounterDefinition {
    type V = CounterView;

    open spec fn view(&self) -> CounterView {
        CounterView {
            filter: self.filter@,
            field: self.field@,
            concat: self.concat@,
            modifier: self.modifier,
            value: self.value,
            padding: self.padding,
        }
    }
}

impl View for MappingCounter {
    type V = CounterView;

    open spec fn view(&self) -> CounterView {
        CounterView {
            filter: self.filter@,
            field: self.field@,
            concat: self.concat@,
            modifier: self.modifier,
            value: self.value,
            padding: self.padding,
        }
    }
}

pub open spec fn definitions_view(s: Seq<MappingCounterDefinition>) -> Seq<CounterView> {
    s.map_values(|d: MappingCounterDefinition| d@)
}

pub open spec fn counters_view(s: Seq<MappingCounter>) -> Seq<CounterView> {
    s.map_values(|c: MappingCounter| c@)
}

/// Index of the first counter definition from `i` on whose field is none a
/// counter may write to.
pub open spec fn first_invalid_counter(defs: Seq<CounterView>, i: int) -> Option<int>
    decreases defs.len() - i,
{
    if i < 0 || i >= defs.len() {
        None
    } else if !is_counter_field(defs[i].field) {
        Some(i)
    } else {
        first_invalid_counter(defs, i + 1)
    }
}

/// Builds the counters from their definitions.
pub fn build_counters(defs: &Vec<MappingCounterDefinition>) -> (r: Result<
    Vec<MappingCounter>,
    TuliproxError,
>)
    ensures
        match first_invalid_counter(definitions_view(defs@), 0) {
            Some(i) => r matches Err(e) && e.kind == TuliproxErrorKind::Info && e.message@
                == msg_invalid_counter_field(definitions_view(defs@)[i].field),
            None => r matches Ok(counters) && counters_view(counters@) == definitions_view(defs@),
        },
{
    let ghost all = definitions_view(defs@);
    let mut counters: Vec<MappingCounter> = Vec::new();
    let mut i: usize = 0;
    while i < defs.len()
        invariant
            i <= defs.len(),
            all == definitions_view(defs@),
            counters.len() == i,
            first_invalid_counter(all, 0) == first_invalid_counter(all, i as int),
            forall|j: int| 0 <= j < i ==> (#[trigger] counters@[j])@ == all[j],
        decreases defs.len() - i,
    {
        assert(all[i as int] == defs@[i as int]@);
        let def = &defs[i];
        if !valid_counter_field(def.field.as_str()) {
            return Err(info_err(concat2("Invalid counter field ", def.field.as_str())));
        }
        counters.push(
            MappingCounter {
                filter: def.filter.clone(),
                field: def.field.clone(),
                concat: def.concat.clone(),
                modifier: def.modifier,
                value: def.value,
                padding: def.padding,
            },
        );
        i += 1;
    }
    assert(counters_view(counters@) =~= all);
    Ok(counters)
}

fn clone_templates(templates: &Vec<PatternTemplate>) -> (r: Vec<PatternTemplate>)
    ensures
        templates_view(r@) == templates_view(templates@),
{
    let mut out: Vec<PatternTemplate> = Vec::new();
    let mut i: usize = 0;
    while i < templates.len()
        invariant
            i <= templates.len(),
            out.len() == i,
            forall|j: int| 0 <= j < i ==> (#[trigger] out@[j])@ == templates@[j]@,
        decreases templates.len() - i,
    {
        let value = match &templates[i].value {
            TemplateValue::Single(v) => TemplateValue::Single(v.clone()),
            TemplateValue::Multi(list) => TemplateValue::Multi(clone_texts(list)),
        };
        out.push(PatternTemplate { name: templates[i].name.clone(), value });
        i += 1;
    }
    assert(templates_view(out@) =~= templates_view(templates@));
    out
}

fn clone_texts(list: &Vec<String>) -> (r: Vec<String>)
    ensures
        r@ == list@,
{
    let mut out: Vec<String> = Vec::new();
    let mut i: usize = 0;
    while i < list.len()
        invariant
            i <= list.len(),
            out.len() == i,
            forall|j: int| 0 <= j < i ==> out@[j] == list@[j],
        decreases list.len() - i,
    {
        out.push(list[i].clone());
        i += 1;
    }
    assert(out@ =~= list@);
    out
}

/// Index of the first mapper from `i` on that cannot be prepared.
pub open spec fn first_failing_mapper(
    mappers: Seq<Mapper>,
    templates: Option<&Vec<PatternTemplate>>,
    i: int,
) -> Option<int>
    decreases mappers.len() - i,
{
    if i < 0 || i >= mappers.len() {
        None
    } else if prepared_script(mappers[i].script@, templates) is Err {
        Some(i)
    } else {
        first_failing_mapper(mappers, templates, i + 1)
    }
}

/// Prepares the mappers in order, up to the first that cannot be prepared.
pub fn prepare_mappers(mappers: &mut Vec<Mapper>, templates: Option<&Vec<PatternTemplate>>) -> (r:
    Result<(), TuliproxError>)
    ensures
        final(mappers).len() == old(mappers).len(),
        forall|j: int|
            0 <= j < old(mappers).len() ==> (#[trigger] final(mappers)@[j]).script == old(mappers)@[j].script,
        match first_failing_mapper(old(mappers)@, templates, 0) {
            Some(i) => is_info_error(
                r,
                prepared_script(old(mappers)@[i].script@, templates)->Err_0,
            ),
            None => r is Ok && forall|j: int|
                0 <= j < old(mappers).len() ==> (#[trigger] final(mappers)@[j]).t_script is Some,
        },
{
    let ghost before = mappers@;
    let mut i: usize = 0;
    while i < mappers.len()
        invariant
            i <= mappers.len(),
            mappers.len() == before.len(),
            before == old(mappers)@,
            forall|j: int| 0 <= j < mappers.len() ==> (#[trigger] mappers@[j]).script == before[j].script,
            forall|j: int| 0 <= j < i ==> (#[trigger] mappers@[j]).t_script is Some,
            first_failing_mapper(before, templates, 0) == first_failing_mapper(
                before,
                templates,
                i as int,
            ),
        decreases mappers.len() - i,
    {
        match mappers[i].prepare(templates) {
            Ok(_) => {},
            Err(e) => {
                return Err(e);
            },
        }
        i += 1;
    }
    Ok(())
}

/// The message of the error that keeps a mapping from being prepared, if
/// any: that of its first mapper that cannot be prepared, else that of its
/// first counter whose field is none a counter may write to.
pub open spec fn mapping_fault(m: Mapping, templates: Option<&Vec<PatternTemplate>>) -> Option<
    Seq<char>,
> {
    let mapper_fault = match m.mapper {
        Some(mappers) => match first_failing_mapper(mappers@, templates, 0) {
            Some(i) => Some(prepared_script(mappers@[i].script@, templates)->Err_0),
            None => None,
        },
        None => None,
    };
    if mapper_fault is Some {
        mapper_fault
    } else {
        match m.counter {
            Some(defs) => match first_invalid_counter(definitions_view(defs@), 0) {
                Some(i) => Some(msg_invalid_counter_field(definitions_view(defs@)[i].field)),
                None => None,
            },
            None => None,
        }
    }
}

impl Mapping {
    /// Keeps a copy of the templates, prepares the mappers, and builds the
    /// counters from their definitions.
    pub fn prepare(&mut self, templates: Option<&Vec<PatternTemplate>>) -> (r: Result<
        (),
        TuliproxError,
    >)
        ensures
            final(self).id == old(self).id,
            final(self).match_as_ascii == old(self).match_as_ascii,
            final(self).counter == old(self).counter,
            match templates {
                Some(list) => final(self).templates matches Some(kept) && templates_view(kept@)
                    == templates_view(list@),
                None => final(self).templates is None,
            },
            match mapping_fault(*old(self), templates) {
                Some(msg) => is_info_error(r, msg),
                None => {
                    &&& r is Ok
                    &&& match old(self).counter {
                        Some(defs) => final(self).t_counter matches Some(counters)
                            && counters_view(counters@) == definitions_view(defs@),
                        None => final(self).t_counter == old(self).t_counter,
                    }
                    &&& match final(self).mapper {
                        Some(mappers) => forall|j: int|
                            0 <= j < mappers.len() ==> (#[trigger] mappers@[j]).t_script is Some,
                        None => old(self).mapper is None,
                    }
                },
            },
    {
        self.templates = match templates {
            Some(list) => Some(clone_templates(list)),
            None => None,
        };
        match &mut self.mapper {
            Some(mapper_list) => {
                match prepare_mappers(mapper_list, templates) {
                    Ok(_) => {},
                    Err(e) => {
                        return Err(e);
                    },
                }
            },
            None => {},
        }
        match &self.counter {
            Some(counter_def_list) => {
                match build_counters(counter_def_list) {
                    Ok(counters) => {
                        self.t_counter = Some(counters);
                    },
                    Err(e) => {
                        return Err(e);
                    },
                }
            },
            None => {},
        }
        Ok(())
    }
}

/// The mappings of a configuration, with the templates they share.
#[derive(Debug)]
pub struct MappingDefinition {
    pub templates: Option<Vec<PatternTemplate>>,
    pub mapping: Vec<Mapping>,
}

/// The templates a definition shares among its mappings.
pub open spec fn shared_templates(templates: &Option<Vec<PatternTemplate>>) -> Option<
    &Vec<PatternTemplate>,
> {
    match templates {
        Some(list) => Some(list),
        None => None,
    }
}

/// Index of the first mapping from `i` on that cannot be prepared.
pub open spec fn first_failing_mapping(
    mappings: Seq<Mapping>,
    templates: Option<&Vec<PatternTemplate>>,
    i: int,
) -> Option<int>
    decreases mappings.len() - i,
{
    if i < 0 || i >= mappings.len() {
        None
    } else if mapping_fault(mappings[i], templates) is Some {
        Some(i)
    } else {
        first_failing_mapping(mappings, templates, i + 1)
    }
}

impl MappingDefinition {
    /// Prepares the mappings in order with the shared templates, up to the
    /// first that cannot be prepared; its error is the error.
    pub fn prepare(&mut self) -> (r: Result<(), TuliproxError>)
        ensures
            final(self).templates == old(self).templates,
            final(self).mapping.len() == old(self).mapping.len(),
            forall|j: int|
                0 <= j < old(self).mapping.len() ==> (#[trigger] final(self).mapping@[j]).id
                    == old(self).mapping@[j].id,
            match first_failing_mapping(
                old(self).mapping@,
                shared_templates(&old(self).templates),
                0,
            ) {
                Some(i) => is_info_error(
                    r,
                    mapping_fault(
                        old(self).mapping@[i],
                        shared_templates(&old(self).templates),
                    )->Some_0,
                ),
                None => r is Ok,
            },
    {
        let ghost before = self.mapping@;
        let ghost tpl = shared_templates(&self.templates);
        let mut i: usize = 0;
        while i < self.mapping.len()
            invariant
                i <= self.mapping.len(),
                self.mapping.len() == before.len(),
                self.templates == old(self).templates,
                tpl == shared_templates(&self.templates),
                before == old(self).mapping@,
                forall|j: int|
                    0 <= j < self.mapping.len() ==> (#[trigger] self.mapping@[j]).id == before[j].id,
                forall|j: int| i <= j < self.mapping.len() ==> self.mapping@[j] == before[j],
                first_failing_mapping(before, tpl, 0) == first_failing_mapping(
                    before,
                    tpl,
                    i as int,
                ),
            decreases self.mapping.len() - i,
        {
            let outcome = match &self.templates {
                Some(list) => self.mapping[i].prepare(Some(list)),
                None => self.mapping[i].prepare(None),
            };
            match outcome {
                Ok(_) => {},
                Err(e) => {
                    return Err(e);
                },
            }
            i += 1;
        }
        Ok(())
    }
}

/// The mappings as they stand in the configuration file.
#[derive(Debug)]
pub struct Mappings {
    pub mappings: MappingDefinition,
}

/// Index of the first mapping from `i` on with this id.
pub open spec fn mapping_index(mappings: Seq<Mapping>, id: Seq<char>, i: int) -> Option<int>
    decreases mappings.len() - i,
{
    if i < 0 || i >= mappings.len() {
        None
    } else if mappings[i].id@ == id {
        Some(i)
    } else {
        mapping_index(mappings, id, i + 1)
    }
}

impl Mappings {
    /// Prepares the mappings.
    pub fn prepare(&mut self) -> (r: Result<(), TuliproxError>)
        ensures
            final(self).mappings.templates == old(self).mappings.templates,
            final(self).mappings.mapping.len() == old(self).mappings.mapping.len(),
            match first_failing_mapping(
                old(self).mappings.mapping@,
                shared_templates(&old(self).mappings.templates),
                0,
            ) {
                Some(i) => is_info_error(
                    r,
                    mapping_fault(
                        old(self).mappings.mapping@[i],
                        shared_templates(&old(self).mappings.templates),
                    )->Some_0,
                ),
                None => r is Ok,
            },
    {
        self.mappings.prepare()
    }

    /// The first mapping with this id.
    pub fn get_mapping(&self, mapping_id: &str) -> (r: Option<&Mapping>)
        ensures
            match mapping_index(self.mappings.mapping@, mapping_id@, 0) {
                Some(i) => r matches Some(m) && 0 <= i < self.mappings.mapping.len() && *m
                    == self.mappings.mapping@[i],
                None => r is None,
            },
    {
        let mut i: usize = 0;
        while i < self.mappings.mapping.len()
            invariant
                i <= self.mappings.mapping.len(),
                mapping_index(self.mappings.mapping@, mapping_id@, 0) == mapping_index(
                    self.mappings.mapping@,
                    mapping_id@,
                    i as int,
                ),
            decreases self.mappings.mapping.len() - i,
        {
            if str_eq(self.mappings.mapping[i].id.as_str(), mapping_id) {
                return Some(&self.mappings.mapping[i]);
            }
            i += 1;
        }
        None
    }
}

} // verus!
