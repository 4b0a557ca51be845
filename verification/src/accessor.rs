//! The record a script works on, addressed by field name, and the template
//! registry it may consult.
use vstd::prelude::*;
use crate::text::{ascii_lower, eq_ignore_ascii_case, str_eq};

verus! {

/// Number of fields a record has.
pub const FIELD_COUNT: usize = 15;

/// The canonical name of each field, in declaration order.
pub open spec fn field_name(i: int) -> Seq<char> {
    if i == 0 {
        "name"@
    } else if i == 1 {
        "title"@
    } else if i == 2 {
        "caption"@
    } else if i == 3 {
        "group"@
    } else if i == 4 {
        "id"@
    } else if i == 5 {
        "chno"@
    } else if i == 6 {
        "logo"@
    } else if i == 7 {
        "logo_small"@
    } else if i == 8 {
        "parent_code"@
    } else if i == 9 {
        "audio_track"@
    } else if i == 10 {
        "time_shift"@
    } else if i == 11 {
        "rec"@
    } else if i == 12 {
        "url"@
    } else if i == 13 {
        "epg_channel_id"@
    } else {
        "epg_id"@
    }
}

/// The first field from `i` on whose name equals `name` but for ASCII case.
pub open spec fn field_index_from(name: Seq<char>, i: int) -> Option<int>
    decreases FIELD_COUNT - i,
{
    if i < 0 || i >= FIELD_COUNT {
        None
    } else if ascii_lower(name) == ascii_lower(field_name(i)) {
        Some(i)
    } else {
        field_index_from(name, i + 1)
    }
}

/// The field a name denotes, if any; names are matched without regard to
/// ASCII case.
pub open spec fn field_index(name: Seq<char>) -> Option<int> {
    field_index_from(name, 0)
}

/// What a record holds under a field name.
pub open spec fn field_get(fields: Seq<Option<Seq<char>>>, name: Seq<char>) -> Option<Seq<char>> {
    match field_index(name) {
        Some(i) => fields[i],
        None => None,
    }
}

/// The record after writing a value under a field name; an unknown name
/// changes nothing.
pub open spec fn field_set(fields: Seq<Option<Seq<char>>>, name: Seq<char>, value: Seq<char>) -> Seq<
    Option<Seq<char>>,
> {
    match field_index(name) {
        Some(i) => fields.update(i, Some(value)),
        None => fields,
    }
}

pub proof fn lemma_field_index_range(name: Seq<char>, i: int)
    requires
        0 <= i,
    ensures
        field_index_from(name, i) matches Some(k) ==> i <= k < FIELD_COUNT,
    decreases FIELD_COUNT - i,
{
    if i < FIELD_COUNT && ascii_lower(name) != ascii_lower(field_name(i)) {
        lemma_field_index_range(name, i + 1);
    }
}

/// The canonical name of field `i`.
pub fn canonical_field_name(i: usize) -> (r: &'static str)
    requires
        i < FIELD_COUNT,
    ensures
        r@ == field_name(i as int),
{
    if i == 0 {
        "name"
    } else if i == 1 {
        "title"
    } else if i == 2 {
        "caption"
    } else if i == 3 {
        "group"
    } else if i == 4 {
        "id"
    } else if i == 5 {
        "chno"
    } else if i == 6 {
        "logo"
    } else if i == 7 {
        "logo_small"
    } else if i == 8 {
        "parent_code"
    } else if i == 9 {
        "audio_track"
    } else if i == 10 {
        "time_shift"
    } else if i == 11 {
        "rec"
    } else if i == 12 {
        "url"
    } else if i == 13 {
        "epg_channel_id"
    } else {
        "epg_id"
    }
}

/// The index of the field that `name` denotes.
pub fn find_field(name: &str) -> (r: Option<usize>)
    ensures
        match field_index(name@) {
            Some(k) => r == Some(k as usize) && 0 <= k < FIELD_COUNT,
            None => r is None,
        },
{
    let mut i: usize = 0;
    while i < FIELD_COUNT
        invariant
            i <= FIELD_COUNT,
            field_index(name@) == field_index_from(name@, i as int),
        decreases FIELD_COUNT - i,
    {
        if eq_ignore_ascii_case(name, canonical_field_name(i)) {
            return Some(i);
        }
        i += 1;
    }
    None
}

/// A record: for each field a text, or nothing.
#[derive(Debug)]
pub struct ValueAccessor {
    slots: [Option<String>; 15],
}

pub open spec fn slot_view(o: Option<String>) -> Option<Seq<char>> {
    match o {
        Some(s) => Some(s@),
        None => None,
    }
}

impl View for ValueAccessor {
    type V = Seq<Option<Seq<char>>>;

    closed spec fn view(&self) -> Seq<Option<Seq<char>>> {
        self.slots@.map_values(|o: Option<String>| slot_view(o))
    }
}

impl ValueAccessor {
    /// A record with no field set.
    pub fn new() -> (r: ValueAccessor)
        ensures
            r@ == Seq::new(FIELD_COUNT as nat, |i: int| None::<Seq<char>>),
    {
        let r = ValueAccessor {
            slots: [
                None,
                None,
                None,
                None,
                None,
                None,
                None,
                None,
                None,
                None,
                None,
                None,
                None,
                None,
                None,
            ],
        };
        assert(r@ =~= Seq::new(FIELD_COUNT as nat, |i: int| None::<Seq<char>>));
        r
    }

    /// The text under a field name; `None` for an unset field or a name that
    /// is no field.
    pub fn get(&self, field: &str) -> (r: Option<&str>)
        ensures
            match field_get(self@, field@) {
                Some(v) => r is Some && r.unwrap()@ == v,
                None => r is None,
            },
    {
        match find_field(field) {
            Some(i) => match &self.slots[i] {
                Some(s) => Some(s.as_str()),
                None => None,
            },
            None => None,
        }
    }

    /// Writes a text under a field name; returns whether the name is a field.
    pub fn set(&mut self, field: &str, value: &str) -> (r: bool)
        ensures
            final(self)@ == field_set(old(self)@, field@, value@),
            r == field_index(field@) is Some,
    {
        match find_field(field) {
            Some(i) => {
                self.slots.set(i, Some(value.to_owned()));
                assert(self@ =~= field_set(old(self)@, field@, value@));
                true
            },
            None => false,
        }
    }
}

/// The value of a template: one text, or several.
#[derive(Debug, Clone)]
pub enum TemplateValue {
    Single(String),
    Multi(Vec<String>),
}

/// A named template.
#[derive(Debug, Clone)]
pub struct PatternTemplate {
    pub name: String,
    pub value: TemplateValue,
}

/// What the value of a template stands for: its text, or its texts in order.
pub ghost enum TemplateTexts {
    Single(Seq<char>),
    Multi(Seq<Seq<char>>),
}

impl View for TemplateValue {
    type V = TemplateTexts;

    open spec fn view(&self) -> TemplateTexts {
        match self {
            TemplateValue::Single(v) => TemplateTexts::Single(v@),
            TemplateValue::Multi(list) => TemplateTexts::Multi(list@.map_values(|t: String| t@)),
        }
    }
}

/// What a template stands for: its name and its value.
pub ghost struct TemplateView {
    pub name: Seq<char>,
    pub value: TemplateTexts,
}

impl TemplateView {
    /// The text of the template, where it has exactly one.
    pub open spec fn single(self) -> Option<Seq<char>> {
        match self.value {
            TemplateTexts::Single(v) => Some(v),
            TemplateTexts::Multi(_) => None,
        }
    }
}

impl View for PatternTemplate {
    type V = TemplateView;

    open spec fn view(&self) -> TemplateView {
        TemplateView { name: self.name@, value: self.value@ }
    }
}

pub open spec fn templates_view(s: Seq<PatternTemplate>) -> Seq<TemplateView> {
    s.map_values(|t: PatternTemplate| t@)
}

/// The registry an optional list of templates stands for.
pub open spec fn registry_view(templates: Option<&Vec<PatternTemplate>>) -> Seq<TemplateView> {
    match templates {
        Some(list) => templates_view(list@),
        None => Seq::empty(),
    }
}

/// The text a name resolves to: that of the last template of that name, where
/// it has exactly one text.
pub open spec fn template_lookup(templates: Seq<TemplateView>, name: Seq<char>) -> Option<Seq<char>>
    decreases templates.len(),
{
    if templates.len() == 0 {
        None
    } else if templates.last().name == name {
        templates.last().single()
    } else {
        template_lookup(templates.drop_last(), name)
    }
}

/// Resolves a template name in a list of templates.
pub fn find_template<'a>(templates: &'a Vec<PatternTemplate>, name: &str) -> (r: Option<&'a str>)
    ensures
        match template_lookup(templates_view(templates@), name@) {
            Some(v) => r is Some && r.unwrap()@ == v,
            None => r is None,
        },
{
    let ghost all = templates_view(templates@);
    let mut i: usize = templates.len();
    assert(all.take(i as int) == all);
    while i > 0
        invariant
            i <= templates.len(),
            all == templates_view(templates@),
            template_lookup(all, name@) == template_lookup(all.take(i as int), name@),
        decreases i,
    {
        let ghost cur = all.take(i as int);
        i -= 1;
        assert(cur.last() == templates@[i as int]@);
        assert(cur.drop_last() == all.take(i as int));
        if str_eq(templates[i].name.as_str(), name) {
            return match &templates[i].value {
                TemplateValue::Single(v) => Some(v.as_str()),
                TemplateValue::Multi(_) => None,
            };
        }
    }
    assert(all.take(0).len() == 0);
    None
}

} // verus!
