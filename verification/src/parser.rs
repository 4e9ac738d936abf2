//! From what the runtime prints to records. A container listing holds one
//! container per line, its fields separated by tabs; an image listing holds
//! one JSON object per line. A line that does not hold a record is passed
//! over, and the lines after it are read as if it had not been there.

use vstd::prelude::*;
use crate::json::{decode, json_document, json_member, json_text, member, text_of};
use crate::records::{
    container_views,
    image_views,
    Container,
    ContainerRecord,
    Image,
    ImageRecord,
};
use crate::text::{
    from_chars,
    lemma_lines_insert,
    line_chars,
    lines,
    pieces,
    split,
    split_chars,
    strip_cr,
    to_chars,
};

verus! {

/// The number of fields that a line of a container listing must hold.
pub const CONTAINER_FIELDS: usize = 7;

/// The container that a run of fields describes: name, status, image, id,
/// ports, command and creation time, in that order. Fields after the seventh
/// are not read; with fewer than seven there is no container.
pub open spec fn container_of_fields(fields: Seq<Seq<char>>) -> Option<ContainerRecord> {
    if fields.len() >= CONTAINER_FIELDS {
        Some(
            ContainerRecord {
                name: fields[0],
                status: fields[1],
                image: fields[2],
                id: fields[3],
                ports: fields[4],
                command: fields[5],
                created: fields[6],
            },
        )
    } else {
        None
    }
}

/// The container that one line of a listing describes.
pub open spec fn container_of_line(line: Seq<char>) -> Option<ContainerRecord> {
    container_of_fields(split(line, '\t'))
}

/// `container_of_line` as a function value.
pub open spec fn container_decoder() -> spec_fn(Seq<char>) -> Option<ContainerRecord> {
    |line: Seq<char>| container_of_line(line)
}

/// The containers that a run of lines describes: those of the well-formed
/// lines, in order.
pub open spec fn containers_of_lines(ls: Seq<Seq<char>>) -> Seq<ContainerRecord> {
    ls.filter_map(container_decoder())
}

/// The containers that a listing describes.
pub open spec fn parsed_containers(raw: Seq<char>) -> Seq<ContainerRecord> {
    containers_of_lines(lines(raw))
}

/// A line of a container listing that was passed over: its position among
/// the lines, counted from zero, and the number of fields it holds.
#[derive(Clone, Copy, Debug, PartialEq, Eq)]
pub struct ParseWarning {
    pub line: usize,
    pub fields: usize,
}

/// The warnings that a run of lines gives rise to: one for each line with
/// fewer fields than a container needs, in order.
pub open spec fn warnings_of_lines(ls: Seq<Seq<char>>) -> Seq<ParseWarning>
    decreases ls.len(),
{
    if ls.len() == 0 {
        Seq::empty()
    } else {
        let before = warnings_of_lines(ls.drop_last());
        let count = split(ls.last(), '\t').len();
        if count < CONTAINER_FIELDS {
            before.push(ParseWarning { line: (ls.len() - 1) as usize, fields: count as usize })
        } else {
            before
        }
    }
}

/// The image that a JSON object describes: the strings under its keys `name`
/// and `tag`. A line that is not JSON, not an object, or lacks one of the two
/// strings describes no image.
pub open spec fn image_of_line(line: Seq<char>) -> Option<ImageRecord> {
    match json_document(line) {
        Some(doc) => image_of_members(
            member_text(json_member(doc, "name"@)),
            member_text(json_member(doc, "tag"@)),
        ),
        None => None,
    }
}

/// The text of a member that is there and is a string.
pub open spec fn member_text(found: Option<serde_json::Value>) -> Option<Seq<char>> {
    match found {
        Some(value) => json_text(value),
        None => None,
    }
}

/// The image made of a name and a tag, when both are there.
pub open spec fn image_of_members(name: Option<Seq<char>>, tag: Option<Seq<char>>) -> Option<
    ImageRecord,
> {
    match (name, tag) {
        (Some(name), Some(tag)) => Some(ImageRecord { name, tag }),
        _ => None,
    }
}

/// `image_of_line` as a function value.
pub open spec fn image_decoder() -> spec_fn(Seq<char>) -> Option<ImageRecord> {
    |line: Seq<char>| image_of_line(line)
}

/// The images that a run of lines describes.
pub open spec fn images_of_lines(ls: Seq<Seq<char>>) -> Seq<ImageRecord> {
    ls.filter_map(image_decoder())
}

/// The images that a listing describes.
pub open spec fn parsed_images(raw: Seq<char>) -> Seq<ImageRecord> {
    images_of_lines(lines(raw))
}

/// Whether a result holds the view of what a specification asks for.
pub open spec fn container_matches(got: Option<Container>, want: Option<ContainerRecord>) -> bool {
    match got {
        Some(c) => want == Some(c@),
        None => want is None,
    }
}

/// Whether a result holds the view of what a specification asks for.
pub open spec fn image_matches(got: Option<Image>, want: Option<ImageRecord>) -> bool {
    match got {
        Some(i) => want == Some(i@),
        None => want is None,
    }
}

/// Mapping and filtering a concatenation is concatenating what each part
/// gives.
pub proof fn lemma_filter_map_add<A, B>(a: Seq<A>, b: Seq<A>, f: spec_fn(A) -> Option<B>)
    ensures
        (a + b).filter_map(f) == a.filter_map(f) + b.filter_map(f),
    decreases b.len(),
{
    if b.len() == 0 {
        assert(a + b =~= a);
        assert(a.filter_map(f) + b.filter_map(f) =~= a.filter_map(f));
    } else {
        lemma_filter_map_add(a, b.drop_last(), f);
        assert((a + b).drop_last() =~= a + b.drop_last());
        assert((a + b).last() == b.last());
        match f(b.last()) {
            Some(x) => {
                assert(a.filter_map(f) + (b.drop_last().filter_map(f) + seq![x]) =~= (a.filter_map(
                    f,
                ) + b.drop_last().filter_map(f)) + seq![x]);
            },
            None => {},
        }
    }
}

/// A malformed line among the lines of a container listing changes nothing:
/// the containers are those of the lines before it followed by those of the
/// lines after it.
pub proof fn lemma_malformed_line_is_skipped(
    before: Seq<Seq<char>>,
    bad: Seq<char>,
    after: Seq<Seq<char>>,
)
    requires
        container_of_line(bad) is None,
    ensures
        containers_of_lines(before + seq![bad] + after) == containers_of_lines(before)
            + containers_of_lines(after),
        containers_of_lines(before + seq![bad] + after) == containers_of_lines(before + after),
{
    let f = container_decoder();
    lemma_filter_map_add(before + seq![bad], after, f);
    lemma_filter_map_add(before, seq![bad], f);
    lemma_filter_map_add(before, after, f);
    Seq::lemma_filter_map_singleton(bad, f);
    assert(containers_of_lines(before) + Seq::<ContainerRecord>::empty() =~= containers_of_lines(
        before,
    ));
}

/// The lines of two texts put together, where the first ends a line.
pub proof fn lemma_lines_add(before: Seq<char>, after: Seq<char>)
    requires
        before.len() == 0 || before.last() == '\n',
    ensures
        lines(before + after) == lines(before) + lines(after),
    decreases before.len(),
{
    if before.len() == 0 {
        assert(before + after =~= after);
        assert(lines(before) + lines(after) =~= lines(after));
    } else {
        let body = before.drop_last();
        crate::text::lemma_first_index(body, '\n');
        let i = crate::text::first_index(body, '\n');
        if i < body.len() {
            // The last line feed of `before` is not its first: split at the first.
            let head = body.take(i + 1);
            let rest = before.skip(i + 1);
            assert(head.last() == '\n');
            assert(rest.len() > 0 && rest.last() == '\n');
            assert(before =~= head + rest);
            lemma_lines_add(rest, after);
            lemma_lines_insert(Seq::empty(), body.take(i), rest + after);
            lemma_lines_insert(Seq::empty(), body.take(i), rest);
            assert(Seq::<char>::empty() + body.take(i) + seq!['\n'] + (rest + after) =~= before
                + after);
            assert(Seq::<char>::empty() + body.take(i) + seq!['\n'] + rest =~= before);
            assert(lines(Seq::<char>::empty()) =~= Seq::<Seq<char>>::empty());
            assert(lines(Seq::<char>::empty()) + seq![strip_cr(body.take(i))] + (lines(rest)
                + lines(after)) =~= (lines(Seq::<char>::empty()) + seq![strip_cr(body.take(i))]
                + lines(rest)) + lines(after));
        } else {
            // `before` is one line and its line feed.
            lemma_lines_insert(Seq::empty(), body, after);
            lemma_lines_insert(Seq::empty(), body, Seq::empty());
            assert(Seq::<char>::empty() + body + seq!['\n'] + after =~= before + after);
            assert(Seq::<char>::empty() + body + seq!['\n'] + Seq::<char>::empty() =~= before);
            assert(lines(Seq::<char>::empty()) =~= Seq::<Seq<char>>::empty());
            assert(lines(Seq::<char>::empty()) + seq![strip_cr(body)] + lines(after) =~= (lines(
                Seq::<char>::empty(),
            ) + seq![strip_cr(body)] + lines(Seq::<char>::empty())) + lines(after));
        }
    }
}

/// A malformed line in the text of a container listing changes nothing: with
/// the line and its line feed taken out, the listing parses to the same
/// containers.
pub proof fn lemma_malformed_text_is_skipped(before: Seq<char>, bad: Seq<char>, after: Seq<char>)
    requires
        before.len() == 0 || before.last() == '\n',
        forall|j: int| 0 <= j < bad.len() ==> bad[j] != '\n',
        container_of_line(strip_cr(bad)) is None,
    ensures
        parsed_containers(before + bad + seq!['\n'] + after) == parsed_containers(before + after),
{
    lemma_lines_insert(before, bad, after);
    lemma_lines_add(before, after);
    lemma_malformed_line_is_skipped(lines(before), strip_cr(bad), lines(after));
}

/// The container that a run of fields describes.
pub fn container_from_fields(fields: &Vec<Vec<char>>) -> (found: Option<Container>)
    ensures
        container_matches(found, container_of_fields(pieces(fields@))),
{
    if fields.len() >= CONTAINER_FIELDS {
        Some(
            Container {
                name: from_chars(&fields[0]),
                status: from_chars(&fields[1]),
                image: from_chars(&fields[2]),
                id: from_chars(&fields[3]),
                ports: from_chars(&fields[4]),
                command: from_chars(&fields[5]),
                created: from_chars(&fields[6]),
            },
        )
    } else {
        None
    }
}

/// The container that one line of a listing describes.
pub fn parse_container_line(line: &str) -> (found: Option<Container>)
    ensures
        container_matches(found, container_of_line(line@)),
{
    let chars = to_chars(line);
    let fields = split_chars(&chars, '\t');
    container_from_fields(&fields)
}

/// What a container listing was read as: the containers of its well-formed
/// lines, and a warning for each line that was passed over.
pub struct ContainerListing {
    pub records: Vec<Container>,
    pub warnings: Vec<ParseWarning>,
}

/// Reads a container listing, keeping a record of the lines passed over.
pub fn scan_container_listing(raw: &str) -> (listing: ContainerListing)
    ensures
        container_views(listing.records@) == parsed_containers(raw@),
        listing.warnings@ == warnings_of_lines(lines(raw@)),
{
    let chars = to_chars(raw);
    let ls = line_chars(&chars);
    let mut records: Vec<Container> = Vec::new();
    let mut warnings: Vec<ParseWarning> = Vec::new();
    let mut i: usize = 0;
    assert(pieces(ls@).take(0) =~= Seq::<Seq<char>>::empty());
    while i < ls.len()
        invariant
            i <= ls.len(),
            container_views(records@) == containers_of_lines(pieces(ls@).take(i as int)),
            warnings@ == warnings_of_lines(pieces(ls@).take(i as int)),
        decreases ls.len() - i,
    {
        let fields = split_chars(&ls[i], '\t');
        let found = container_from_fields(&fields);
        proof {
            let all = pieces(ls@);
            all.lemma_filter_map_take_succ(container_decoder(), i as int);
            assert(all.take(i + 1).drop_last() =~= all.take(i as int));
            assert(all.take(i + 1).last() == ls@[i as int]@);
        }
        match found {
            Some(c) => {
                proof {
                    assert(container_views(records@.push(c)) =~= container_views(records@)
                        + seq![c@]);
                }
                records.push(c);
            },
            None => {
                proof {
                    assert(container_views(records@) + Seq::<ContainerRecord>::empty()
                        =~= container_views(records@));
                }
                warnings.push(ParseWarning { line: i, fields: fields.len() });
            },
        }
        i += 1;
    }
    proof {
        assert(pieces(ls@).take(ls.len() as int) =~= pieces(ls@));
    }
    ContainerListing { records, warnings }
}

/// The containers that a listing describes. Lines with fewer than seven
/// fields are passed over.
pub fn parse_container_listing(raw: &str) -> (records: Vec<Container>)
    ensures
        container_views(records@) == parsed_containers(raw@),
{
    scan_container_listing(raw).records
}

/// The image that one line of an image listing describes.
pub fn parse_image_line(line: &str) -> (found: Option<Image>)
    ensures
        image_matches(found, image_of_line(line@)),
{
    match decode(line) {
        Ok(doc) => {
            let name = match member(&doc, "name") {
                Some(value) => text_of(value),
                None => None,
            };
            let tag = match member(&doc, "tag") {
                Some(value) => text_of(value),
                None => None,
            };
            Image::from_parts(name, tag)
        },
        Err(_) => None,
    }
}

/// The images that a listing describes. Lines that do not hold an image are
/// passed over.
pub fn parse_image_listing(raw: &str) -> (images: Vec<Image>)
    ensures
        image_views(images@) == parsed_images(raw@),
{
    let chars = to_chars(raw);
    let ls = line_chars(&chars);
    let mut images: Vec<Image> = Vec::new();
    let mut i: usize = 0;
    assert(pieces(ls@).take(0) =~= Seq::<Seq<char>>::empty());
    while i < ls.len()
        invariant
            i <= ls.len(),
            image_views(images@) == images_of_lines(pieces(ls@).take(i as int)),
        decreases ls.len() - i,
    {
        let line = from_chars(&ls[i]);
        let found = parse_image_line(line.as_str());
        proof {
            let all = pieces(ls@);
            all.lemma_filter_map_take_succ(image_decoder(), i as int);
        }
        match found {
            Some(image) => {
                proof {
                    assert(image_views(images@.push(image)) =~= image_views(images@) + seq![
                        image@,
                    ]);
                }
                images.push(image);
            },
            None => {
                proof {
                    assert(image_views(images@) + Seq::<ImageRecord>::empty() =~= image_views(
                        images@,
                    ));
                }
            },
        }
        i += 1;
    }
    proof {
        assert(pieces(ls@).take(ls.len() as int) =~= pieces(ls@));
    }
    images
}

} // verus!
