//! The records that a listing of the runtime is parsed into.

use vstd::prelude::*;
use crate::text::{contains_chars, occurs, to_chars};

verus! {

/// A container as the runtime lists it. Every field is the text that the
/// runtime printed, unchanged.
#[derive(Clone, Debug, PartialEq, Eq)]
pub struct Container {
    pub name: String,
    pub status: String,
    pub image: String,
    pub id: String,
    pub ports: String,
    pub command: String,
    pub created: String,
}

/// What a `Container` holds, as mathematical text.
pub struct ContainerRecord {
    pub name: Seq<char>,
    pub status: Seq<char>,
    pub image: Seq<char>,
    pub id: Seq<char>,
    pub ports: Seq<char>,
    pub command: Seq<char>,
    pub created: Seq<char>,
}

impl View for Container {
    type V = ContainerRecord;

    open spec fn view(&self) -> ContainerRecord {
        ContainerRecord {
            name: self.name@,
            status: self.status@,
            image: self.image@,
            id: self.id@,
            ports: self.ports@,
            command: self.command@,
            created: self.created@,
        }
    }
}

impl ContainerRecord {
    /// A container counts as running when its status mentions `Up`.
    pub open spec fn running(self) -> bool {
        occurs(self.status, "Up"@)
    }
}

impl Container {
    /// A copy that holds the same text in every field.
    pub fn duplicate(&self) -> (copy: Container)
        ensures
            copy@ == self@,
    {
        Container {
            name: self.name.clone(),
            status: self.status.clone(),
            image: self.image.clone(),
            id: self.id.clone(),
            ports: self.ports.clone(),
            command: self.command.clone(),
            created: self.created.clone(),
        }
    }

    /// Whether the runtime reports this container as up.
    pub fn is_running(&self) -> (up: bool)
        ensures
            up == self@.running(),
    {
        let status = to_chars(self.status.as_str());
        let mark = to_chars("Up");
        contains_chars(&status, &mark)
    }
}

/// An image as the runtime lists it: a repository name and a tag.
#[derive(Clone, Debug, PartialEq, Eq)]
pub struct Image {
    pub name: String,
    pub tag: String,
}

/// What an `Image` holds, as mathematical text.
pub struct ImageRecord {
    pub name: Seq<char>,
    pub tag: Seq<char>,
}

impl View for Image {
    type V = ImageRecord;

    open spec fn view(&self) -> ImageRecord {
        ImageRecord { name: self.name@, tag: self.tag@ }
    }
}

impl ImageRecord {
    /// The reference by which the runtime knows the image: name, colon, tag.
    pub open spec fn reference(self) -> Seq<char> {
        self.name + seq![':'] + self.tag
    }
}

impl Image {
    /// A copy that holds the same text in both fields.
    pub fn duplicate(&self) -> (copy: Image)
        ensures
            copy@ == self@,
    {
        Image { name: self.name.clone(), tag: self.tag.clone() }
    }

    /// The image made of a decoded name and tag; none when either is missing.
    pub fn from_parts(name: Option<String>, tag: Option<String>) -> (image: Option<Image>)
        ensures
            image is Some <==> name is Some && tag is Some,
            image is Some ==> image->Some_0.name == name->Some_0 && image->Some_0.tag
                == tag->Some_0,
    {
        match name {
            Some(name) => match tag {
                Some(tag) => Some(Image { name, tag }),
                None => None,
            },
            None => None,
        }
    }

    /// The reference by which the runtime knows the image.
    pub fn reference(&self) -> (text: String)
        ensures
            text@ == self@.reference(),
    {
        let mut text = self.name.clone();
        text.push(':');
        let tag = to_chars(self.tag.as_str());
        let mut i: usize = 0;
        while i < tag.len()
            invariant
                i <= tag.len(),
                tag@ == self.tag@,
                text@ == self.name@ + seq![':'] + tag@.take(i as int),
            decreases tag.len() - i,
        {
            text.push(tag[i]);
            proof {
                assert(tag@.take(i + 1) =~= tag@.take(i as int).push(tag@[i as int]));
            }
            i += 1;
        }
        proof {
            assert(tag@.take(tag.len() as int) =~= tag@);
        }
        text
    }
}

/// The views of the containers in a sequence.
pub open spec fn container_views(s: Seq<Container>) -> Seq<ContainerRecord> {
    s.map_values(|c: Container| c@)
}

/// The views of the images in a sequence.
pub open spec fn image_views(s: Seq<Image>) -> Seq<ImageRecord> {
    s.map_values(|i: Image| i@)
}

/// Copies of all the containers, in order.
pub fn copy_containers(v: &Vec<Container>) -> (copy: Vec<Container>)
    ensures
        container_views(copy@) == container_views(v@),
{
    let mut copy: Vec<Container> = Vec::new();
    let mut i: usize = 0;
    while i < v.len()
        invariant
            i <= v.len(),
            container_views(copy@) == container_views(v@.take(i as int)),
        decreases v.len() - i,
    {
        let c = v[i].duplicate();
        proof {
            assert(v@.take(i + 1) =~= v@.take(i as int).push(v@[i as int]));
            assert(container_views(copy@.push(c)) =~= container_views(copy@).push(c@));
            assert(container_views(v@.take(i as int).push(v@[i as int])) =~= container_views(
                v@.take(i as int),
            ).push(v@[i as int]@));
        }
        copy.push(c);
        i += 1;
    }
    proof {
        assert(v@.take(v.len() as int) =~= v@);
    }
    copy
}

/// Copies of all the images, in order.
pub fn copy_images(v: &Vec<Image>) -> (copy: Vec<Image>)
    ensures
        image_views(copy@) == image_views(v@),
{
    let mut copy: Vec<Image> = Vec::new();
    let mut i: usize = 0;
    while i < v.len()
        invariant
            i <= v.len(),
            image_views(copy@) == image_views(v@.take(i as int)),
        decreases v.len() - i,
    {
        let c = v[i].duplicate();
        proof {
            assert(v@.take(i + 1) =~= v@.take(i as int).push(v@[i as int]));
            assert(image_views(copy@.push(c)) =~= image_views(copy@).push(c@));
            assert(image_views(v@.take(i as int).push(v@[i as int])) =~= image_views(
                v@.take(i as int),
            ).push(v@[i as int]@));
        }
        copy.push(c);
        i += 1;
    }
    proof {
        assert(v@.take(v.len() as int) =~= v@);
    }
    copy
}

} // verus!
