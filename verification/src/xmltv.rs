//! The programme guide: its tags, and the sources it is read from.
use vstd::prelude::*;
use crate::value::{find_last, lookup_last, pairs_view};

verus! {

pub const EPG_TAG_TV: &'static str = "tv";

pub const EPG_TAG_PROGRAMME: &'static str = "programme";

pub const EPG_TAG_CHANNEL: &'static str = "channel";

pub const EPG_ATTRIB_ID: &'static str = "id";

pub const EPG_ATTRIB_CHANNEL: &'static str = "channel";

pub const EPG_TAG_DISPLAY_NAME: &'static str = "display-name";

pub const EPG_TAG_ICON: &'static str = "icon";

/// A tag of the guide with its attributes, its text and its children.
#[derive(Debug)]
pub struct XmlTag {
    pub name: String,
    pub value: Option<String>,
    pub attributes: Option<Vec<(String, String)>>,
    pub children: Option<Vec<XmlTag>>,
    pub icon: Option<String>,
    pub normalized_epg_ids: Vec<String>,
}

/// One step of writing a tag out.
#[derive(Debug)]
pub enum XmlEvent {
    Start(String, Vec<(String, String)>),
    Text(String),
    End(String),
}

/// What a step of writing stands for.
pub ghost enum XmlEventView {
    Start(Seq<char>, Seq<(Seq<char>, Seq<char>)>),
    Text(Seq<char>),
    End(Seq<char>),
}

impl View for XmlEvent {
    type V = XmlEventView;

    open spec fn view(&self) -> XmlEventView {
        match self {
            XmlEvent::Start(name, attributes) => XmlEventView::Start(
                name@,
                pairs_view(attributes@),
            ),
            XmlEvent::Text(text) => XmlEventView::Text(text@),
            XmlEvent::End(name) => XmlEventView::End(name@),
        }
    }
}

pub open spec fn events_view(s: Seq<XmlEvent>) -> Seq<XmlEventView> {
    s.map_values(|e: XmlEvent| e@)
}

/// The attributes of a tag, in the order they were given; none where it has
/// none.
pub open spec fn attributes_of(attributes: Option<Vec<(String, String)>>) -> Seq<
    (Seq<char>, Seq<char>),
> {
    match attributes {
        Some(list) => pairs_view(list@),
        None => Seq::empty(),
    }
}

/// The children of a tag; none where it has none.
pub open spec fn children_of(tag: XmlTag) -> Seq<XmlTag> {
    match tag.children {
        Some(list) => list@,
        None => Seq::empty(),
    }
}

/// The steps that write the first `upto` of the tags `tags`, which are the
/// children of `parent`.
pub open spec fn children_events(tags: Seq<XmlTag>, parent: XmlTag, upto: int) -> Seq<XmlEventView>
    decreases parent, upto,
{
    if upto <= 0 || upto > tags.len() {
        Seq::empty()
    } else if decreases_to!(parent => tags[upto - 1]) {
        children_events(tags, parent, upto - 1) + tag_events(tags[upto - 1])
    } else {
        children_events(tags, parent, upto - 1)
    }
}

/// The steps that write a tag: its start with the attributes, its text where
/// it has one, its children in order, and its end.
pub open spec fn tag_events(tag: XmlTag) -> Seq<XmlEventView>
    decreases tag,
{
    let start = seq![XmlEventView::Start(tag.name@, attributes_of(tag.attributes))];
    let text = match tag.value {
        Some(v) => seq![XmlEventView::Text(v@)],
        None => Seq::empty(),
    };
    start + text + children_events(children_of(tag), tag, children_of(tag).len() as int) + seq![
        XmlEventView::End(tag.name@),
    ]
}

fn clone_attributes(attributes: &Option<Vec<(String, String)>>) -> (r: Vec<(String, String)>)
    ensures
        pairs_view(r@) == attributes_of(*attributes),
{
    match attributes {
        Some(list) => crate::value::clone_pairs(list),
        None => {
            let out: Vec<(String, String)> = Vec::new();
            assert(pairs_view(out@) =~= Seq::empty());
            out
        },
    }
}

fn push_event(out: &mut Vec<XmlEvent>, event: XmlEvent)
    ensures
        events_view(final(out)@) == events_view(old(out)@).push(event@),
{
    out.push(event);
    assert(events_view(out@) =~= events_view(old(out)@).push(event@));
}

impl XmlTag {
    /// A tag without text and children.
    pub fn new(name: String, attribs: Option<Vec<(String, String)>>) -> (r: XmlTag)
        ensures
            r.name == name,
            r.attributes == attribs,
            r.value is None,
            r.children is None,
            r.icon is None,
            r.normalized_epg_ids@.len() == 0,
    {
        XmlTag {
            name,
            value: None,
            attributes: attribs,
            children: None,
            icon: None,
            normalized_epg_ids: Vec::new(),
        }
    }

    /// The value of an attribute: that of the last one given by this name.
    pub fn get_attribute_value(&self, attr_name: &str) -> (r: Option<&String>)
        ensures
            match lookup_last(attributes_of(self.attributes), attr_name@) {
                Some(v) => r is Some && r.unwrap()@ == v,
                None => r is None,
            },
    {
        match &self.attributes {
            Some(attr) => find_last(attr.as_slice(), attr_name),
            None => None,
        }
    }

    /// Appends the steps that write the tag.
    pub fn write_events(&self, out: &mut Vec<XmlEvent>)
        ensures
            events_view(final(out)@) == events_view(old(out)@) + tag_events(*self),
        decreases self,
    {
        let ghost base = events_view(out@);
        push_event(out, XmlEvent::Start(self.name.clone(), clone_attributes(&self.attributes)));
        match &self.value {
            Some(text) => {
                push_event(out, XmlEvent::Text(text.clone()));
            },
            None => {},
        }
        let ghost head = events_view(out@);
        let ghost kids = children_of(*self);
        match &self.children {
            Some(children) => {
                let mut i: usize = 0;
                assert(head + children_events(kids, *self, 0) =~= head);
                while i < children.len()
                    invariant
                        i <= children.len(),
                        self.children == Some(*children),
                        kids == children@,
                        events_view(out@) == head + children_events(kids, *self, i as int),
                    decreases children.len() - i,
                {
                    proof {
                        assert(decreases_to!(*children => children[i as int]));
                        assert(decreases_to!(*self => self.children));
                        assert(self.children->Some_0 == *children);
                        assert(decreases_to!(self.children => self.children->Some_0));
                    }
                    children[i].write_events(out);
                    i += 1;
                    assert(events_view(out@) =~= head + children_events(kids, *self, i as int));
                }
            },
            None => {
                assert(head + children_events(kids, *self, 0) =~= head);
            },
        }
        push_event(out, XmlEvent::End(self.name.clone()));
        assert(events_view(out@) =~= base + tag_events(*self));
    }
}

/// A programme guide: the attributes of its root and the tags under it.
#[derive(Debug)]
pub struct Epg {
    pub priority: i16,
    pub attributes: Option<Vec<(String, String)>>,
    pub children: Vec<XmlTag>,
}

/// The steps that write the first `upto` of a list of tags.
pub open spec fn tags_events(tags: Seq<XmlTag>, upto: int) -> Seq<XmlEventView>
    decreases upto,
{
    if upto <= 0 || upto > tags.len() {
        Seq::empty()
    } else {
        tags_events(tags, upto - 1) + tag_events(tags[upto - 1])
    }
}

/// The steps that write a guide: the start of the root `tv` with the
/// attributes, the tags in order, and the end of the root.
pub open spec fn epg_events(epg: Epg) -> Seq<XmlEventView> {
    seq![XmlEventView::Start("tv"@, attributes_of(epg.attributes))] + tags_events(
        epg.children@,
        epg.children@.len() as int,
    ) + seq![XmlEventView::End("tv"@)]
}

impl Epg {
    /// The steps that write the guide.
    pub fn events(&self) -> (out: Vec<XmlEvent>)
        ensures
            events_view(out@) == epg_events(*self),
    {
        let mut out: Vec<XmlEvent> = Vec::new();
        assert(events_view(out@) =~= Seq::empty());
        push_event(&mut out, XmlEvent::Start("tv".to_owned(), clone_attributes(&self.attributes)));
        let ghost head = events_view(out@);
        let mut i: usize = 0;
        assert(head + tags_events(self.children@, 0) =~= head);
        while i < self.children.len()
            invariant
                i <= self.children.len(),
                events_view(out@) == head + tags_events(self.children@, i as int),
            decreases self.children.len() - i,
        {
            self.children[i].write_events(&mut out);
            i += 1;
            assert(events_view(out@) =~= head + tags_events(self.children@, i as int));
        }
        push_event(&mut out, XmlEvent::End("tv".to_owned()));
        assert(events_view(out@) =~= epg_events(*self));
        out
    }
}

/// A guide that was stored, and the priority it is read with.
#[derive(Debug)]
pub struct PersistedEpgSource {
    pub file_path: String,
    pub priority: i16,
}

/// Where a source goes in a list that is in order of priority: behind the
/// sources whose priority is not higher than its own.
pub open spec fn insert_position(sorted: Seq<PersistedEpgSource>, priority: i16, i: int) -> int
    decreases sorted.len() - i,
{
    if i < 0 || i >= sorted.len() {
        sorted.len() as int
    } else if sorted[i].priority > priority {
        i
    } else {
        insert_position(sorted, priority, i + 1)
    }
}

/// The first `upto` sources in order of priority; sources of equal priority
/// keep the order they came in.
pub open spec fn by_priority(sources: Seq<PersistedEpgSource>, upto: int) -> Seq<PersistedEpgSource>
    decreases upto,
{
    if upto <= 0 || upto > sources.len() {
        Seq::empty()
    } else {
        let before = by_priority(sources, upto - 1);
        before.insert(insert_position(before, sources[upto - 1].priority, 0), sources[upto - 1])
    }
}

/// Whether the sources are in order of priority.
pub open spec fn in_priority_order(s: Seq<PersistedEpgSource>) -> bool {
    forall|i: int, j: int| 0 <= i <= j < s.len() ==> s[i].priority <= s[j].priority
}

pub proof fn lemma_insert_position(sorted: Seq<PersistedEpgSource>, priority: i16, i: int)
    requires
        0 <= i <= sorted.len(),
    ensures
        i <= insert_position(sorted, priority, i) <= sorted.len(),
        forall|k: int|
            i <= k < insert_position(sorted, priority, i) ==> (#[trigger] sorted[k]).priority
                <= priority,
        insert_position(sorted, priority, i) < sorted.len() ==> sorted[insert_position(
            sorted,
            priority,
            i,
        )].priority > priority,
    decreases sorted.len() - i,
{
    if i < sorted.len() && sorted[i].priority <= priority {
        lemma_insert_position(sorted, priority, i + 1);
    }
}

/// The sources in order of priority are in order, and as many as came in.
pub proof fn lemma_by_priority_sorted(sources: Seq<PersistedEpgSource>, upto: int)
    requires
        0 <= upto <= sources.len(),
    ensures
        in_priority_order(by_priority(sources, upto)),
        by_priority(sources, upto).len() == upto,
    decreases upto,
{
    if upto > 0 {
        lemma_by_priority_sorted(sources, upto - 1);
        let before = by_priority(sources, upto - 1);
        let x = sources[upto - 1];
        let p = insert_position(before, x.priority, 0);
        lemma_insert_position(before, x.priority, 0);
        let after = before.insert(p, x);
        assert forall|i: int, j: int| 0 <= i <= j < after.len() implies after[i].priority
            <= after[j].priority by {
            if j < p {
                assert(after[i] == before[i] && after[j] == before[j]);
            } else if i > p {
                assert(after[i] == before[i - 1] && after[j] == before[j - 1]);
            } else if i == p {
                if j > p {
                    assert(after[j] == before[j - 1]);
                    assert(before[p].priority <= before[j - 1].priority);
                }
            } else {
                assert(after[i] == before[i]);
                if j > p {
                    assert(after[j] == before[j - 1]);
                    assert(before[i].priority <= before[j - 1].priority);
                }
            }
        }
    }
}

/// The stored guides in the order they are read in.
#[derive(Debug)]
pub struct TVGuide {
    epg_sources: Vec<PersistedEpgSource>,
}

impl TVGuide {
    /// The sources of the guide, as kept.
    pub closed spec fn sources(&self) -> Seq<PersistedEpgSource> {
        self.epg_sources@
    }

    /// A guide with the sources in order of priority.
    pub fn new(epg_sources: Vec<PersistedEpgSource>) -> (r: TVGuide)
        ensures
            r.sources() == by_priority(epg_sources@, epg_sources@.len() as int),
            in_priority_order(r.sources()),
            r.sources().len() == epg_sources@.len(),
    {
        let mut sorted: Vec<PersistedEpgSource> = Vec::new();
        let mut i: usize = 0;
        assert(sorted@ =~= by_priority(epg_sources@, 0));
        while i < epg_sources.len()
            invariant
                i <= epg_sources.len(),
                sorted@ == by_priority(epg_sources@, i as int),
                sorted.len() == i,
            decreases epg_sources.len() - i,
        {
            let source = &epg_sources[i];
            let mut p: usize = 0;
            while p < sorted.len() && sorted[p].priority <= source.priority
                invariant
                    p <= sorted.len(),
                    insert_position(sorted@, source.priority, 0) == insert_position(
                        sorted@,
                        source.priority,
                        p as int,
                    ),
                decreases sorted.len() - p,
            {
                p += 1;
            }
            let copy = PersistedEpgSource {
                file_path: source.file_path.clone(),
                priority: source.priority,
            };
            assert(copy == *source);
            sorted.insert(p, copy);
            i += 1;
        }
        proof {
            lemma_by_priority_sorted(epg_sources@, epg_sources@.len() as int);
        }
        TVGuide { epg_sources: sorted }
    }

    /// The sources of the guide, in order of priority.
    pub fn get_epg_sources(&self) -> (r: &Vec<PersistedEpgSource>)
        ensures
            r@ == self.sources(),
    {
        &self.epg_sources
    }
}

} // verus!
