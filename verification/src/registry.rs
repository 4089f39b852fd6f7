//! The resources of a chart: the assignees in the order in which they were
//! first seen, each with its place and, on request, a display colour.

use vstd::prelude::*;
use crate::text::same_text;

verus! {

/// The number of colours in the palette.
pub const PALETTE_LEN: usize = 8;

/// The display colours, as 24-bit RGB values, in the order in which they
/// are given out.
pub open spec fn palette() -> Seq<u32> {
    seq![
        0x1f77b4u32,
        0xff7f0eu32,
        0x2ca02cu32,
        0xd62728u32,
        0x9467bdu32,
        0x8c564bu32,
        0xe377c2u32,
        0x17becfu32,
    ]
}

/// Looks up a colour of the palette.
pub fn palette_color(slot: usize) -> (color: u32)
    requires
        slot < PALETTE_LEN,
    ensures
        color == palette()[slot as int],
{
    if slot == 0 {
        0x1f77b4
    } else if slot == 1 {
        0xff7f0e
    } else if slot == 2 {
        0x2ca02c
    } else if slot == 3 {
        0xd62728
    } else if slot == 4 {
        0x9467bd
    } else if slot == 5 {
        0x8c564b
    } else if slot == 6 {
        0xe377c2
    } else {
        0x17becf
    }
}

/// The colour of the resource at `index`: the palette in order, starting
/// over when it is used up; none where colours are not wanted.
pub open spec fn color_at(index: int, colored: bool) -> Option<u32> {
    if colored {
        Some(palette()[index % (PALETTE_LEN as int)])
    } else {
        None
    }
}

/// The title under which a resource is published: `unassigned` for the
/// resource of the issues without assignee, its own title otherwise.
pub open spec fn published_title(title: Seq<char>) -> Seq<char> {
    if title.len() == 0 {
        "unassigned"@
    } else {
        title
    }
}

/// A lane of the chart.
#[derive(Debug, PartialEq, Eq)]
pub struct Resource {
    pub title: String,
    /// The display colour as a 24-bit RGB value, where colours are wanted.
    pub color: Option<u32>,
}

/// The mathematical content of a [`Resource`].
pub struct ResourceModel {
    pub title: Seq<char>,
    pub color: Option<u32>,
}

impl View for Resource {
    type V = ResourceModel;

    open spec fn view(&self) -> ResourceModel {
        ResourceModel { title: self.title@, color: self.color }
    }
}

impl DeepView for Resource {
    type V = ResourceModel;

    open spec fn deep_view(&self) -> ResourceModel {
        self@
    }
}

/// The mathematical content of a [`ResourceRegistry`]: the titles in the
/// order of registration, and whether colours are given out.
pub struct RegistryModel {
    pub titles: Seq<Seq<char>>,
    pub colored: bool,
}

impl RegistryModel {
    /// No title is registered twice.
    pub open spec fn wf(self) -> bool {
        self.titles.no_duplicates()
    }

    /// The registry without resources.
    pub open spec fn empty(colored: bool) -> RegistryModel {
        RegistryModel { titles: Seq::empty(), colored }
    }

    /// Whether a title is registered.
    pub open spec fn knows(self, title: Seq<char>) -> bool {
        self.titles.contains(title)
    }

    /// The place of a title: where it is registered, or, if it is not, where
    /// it would be registered next.
    pub open spec fn place_of(self, title: Seq<char>) -> int {
        if self.knows(title) {
            self.titles.index_of(title)
        } else {
            self.titles.len() as int
        }
    }

    /// The registry after a title has been resolved: unchanged if the title
    /// is known, with the title appended otherwise.
    pub open spec fn resolved(self, title: Seq<char>) -> RegistryModel {
        if self.knows(title) {
            self
        } else {
            RegistryModel { titles: self.titles.push(title), ..self }
        }
    }

    /// The resources as they are published: in the order of registration,
    /// each with the colour of its place.
    pub open spec fn published(self) -> Seq<ResourceModel> {
        Seq::new(
            self.titles.len(),
            |i: int| ResourceModel { title: published_title(self.titles[i]), color: color_at(i, self.colored) },
        )
    }
}

/// The resources seen so far.
pub struct ResourceRegistry {
    resources: Vec<Resource>,
    colored: bool,
}

impl View for ResourceRegistry {
    type V = RegistryModel;

    closed spec fn view(&self) -> RegistryModel {
        RegistryModel {
            titles: self.resources@.map_values(|r: Resource| r.title@),
            colored: self.colored,
        }
    }
}

impl ResourceRegistry {
    /// The registry is well formed: no title is registered twice, and each
    /// resource has the colour of its place.
    pub closed spec fn wf(&self) -> bool {
        &&& self@.wf()
        &&& forall|i: int|
            0 <= i < self.resources@.len() ==> (#[trigger] self.resources@[i]).color == color_at(
                i,
                self.colored,
            )
    }

    /// Makes a registry without resources; `colored` tells whether the
    /// resources are to get display colours.
    pub fn new(colored: bool) -> (registry: ResourceRegistry)
        ensures
            registry.wf(),
            registry@ == RegistryModel::empty(colored),
    {
        let registry = ResourceRegistry { resources: Vec::new(), colored };
        assert(registry@.titles =~= Seq::empty());
        registry
    }

    /// The number of resources.
    pub fn len(&self) -> (n: usize)
        ensures
            n == self@.titles.len(),
    {
        self.resources.len()
    }

    /// Resolves the title of an assignee to the place of its resource, and
    /// tells whether the resource is new. A title that was not seen before
    /// is registered at the end, with the next colour of the palette.
    pub fn resolve(&mut self, title: &str) -> (r: (usize, bool))
        requires
            old(self).wf(),
        ensures
            final(self).wf(),
            final(self)@ == old(self)@.resolved(title@),
            r.0 == old(self)@.place_of(title@),
            r.1 == !old(self)@.knows(title@),
            r.0 < final(self)@.titles.len(),
            final(self)@.titles[r.0 as int] == title@,
    {
        let mut i: usize = 0;
        while i < self.resources.len()
            invariant
                i <= self.resources.len(),
                *self == *old(self),
                self.wf(),
                forall|k: int| 0 <= k < i ==> self@.titles[k] != title@,
            decreases self.resources.len() - i,
        {
            if same_text(self.resources[i].title.as_str(), title) {
                proof {
                    let titles = self@.titles;
                    assert(titles[i as int] == title@);
                    assert(titles.contains(title@));
                    assert(titles.index_of(title@) == i);
                }
                return (i, false);
            }
            i += 1;
        }
        let color: Option<u32> = if self.colored {
            Some(palette_color(i % PALETTE_LEN))
        } else {
            None
        };
        self.resources.push(Resource { title: title.to_owned(), color });
        proof {
            let before = old(self)@.titles;
            assert(!before.contains(title@)) by {
                if before.contains(title@) {
                    let k = before.index_of(title@);
                    assert(before[k] == title@);
                }
            }
            assert(self@.titles =~= before.push(title@));
        }
        (i, true)
    }

    /// Hands the resources out as they are published: in the order of
    /// registration, the one with the empty title renamed to `unassigned`.
    pub fn into_resources(self) -> (resources: Vec<Resource>)
        requires
            self.wf(),
        ensures
            resources.deep_view() == self@.published(),
    {
        let ghost model = self@;
        let mut resources = self.resources;
        let mut i: usize = 0;
        while i < resources.len()
            invariant
                i <= resources.len(),
                resources@.len() == model.titles.len(),
                forall|k: int|
                    0 <= k < resources@.len() ==> (#[trigger] resources@[k]).color == color_at(
                        k,
                        model.colored,
                    ),
                forall|k: int|
                    0 <= k < i ==> (#[trigger] resources@[k]).title@ == published_title(model.titles[k]),
                forall|k: int|
                    i <= k < resources@.len() ==> (#[trigger] resources@[k]).title@ == model.titles[k],
            decreases resources.len() - i,
        {
            if resources[i].title.as_str().is_empty() {
                let color: Option<u32> = resources[i].color;
                resources.set(i, Resource { title: "unassigned".to_owned(), color });
            }
            i += 1;
        }
        assert(resources.deep_view() =~= model.published());
        resources
    }
}

} // verus!
