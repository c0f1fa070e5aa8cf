//! Listing the images, or the tags of one image, in the registry.

use vstd::prelude::*;

verus! {

/// The registry address asked: the tags of image `details`, or the
/// catalogue of images when no image is named.
pub open spec fn registry_url_text(
    protocol: Seq<char>,
    address: Seq<char>,
    details: Option<Seq<char>>,
) -> Seq<char> {
    match details {
        Some(image) => protocol + address + "/v2/"@ + image + "/tags/list"@,
        None => protocol + address + "/v2/_catalog"@,
    }
}

/// The line shown before the listing.
pub open spec fn heading_text(
    protocol: Seq<char>,
    address: Seq<char>,
    details: Option<Seq<char>>,
) -> Seq<char> {
    match details {
        Some(image) => "List of tags for the "@ + image + " image :"@,
        None => "List of Images on "@ + protocol + address,
    }
}

/// Both addresses ask the registry's `/v2/` interface at the protocol and
/// address given; the tags of an image are asked under that image's name.
pub proof fn lemma_registry_url_parts(
    protocol: Seq<char>,
    address: Seq<char>,
    details: Option<Seq<char>>,
)
    ensures
        ({
            let url = registry_url_text(protocol, address, details);
            let base = protocol + address + "/v2/"@;
            &&& url.len() >= base.len()
            &&& url.take(base.len() as int) == base
            &&& details is None ==> url.skip(base.len() as int) == "_catalog"@
            &&& details matches Some(image) ==> url.skip(base.len() as int) == image
                + "/tags/list"@
        }),
        details matches Some(image) ==> heading_text(protocol, address, details) == "List of tags for the "@
            + image + " image :"@,
        details is None ==> heading_text(protocol, address, details) == "List of Images on "@
            + protocol + address,
{
    let url = registry_url_text(protocol, address, details);
    let base = protocol + address + "/v2/"@;
    match details {
        Some(image) => {
            assert(url =~= base + (image + "/tags/list"@));
        },
        None => {
            reveal_strlit("/v2/_catalog");
            reveal_strlit("/v2/");
            reveal_strlit("_catalog");
            assert(url =~= base + "_catalog"@);
        },
    }
    assert(url.take(base.len() as int) =~= base);
}

/// The address of the registry's listing of images, or of the tags of
/// image `details`.
pub fn registry_url(protocol: &str, address: &str, details: &Option<String>) -> (url: String)
    ensures
        url@ == registry_url_text(protocol@, address@, details.deep_view()),
{
    let mut url = String::from_str(protocol);
    url.append(address);
    match details {
        Some(image) => {
            url.append("/v2/");
            url.append(image.as_str());
            url.append("/tags/list");
        },
        None => {
            url.append("/v2/_catalog");
        },
    }
    url
}

/// The line shown before the listing.
pub fn list_heading(protocol: &str, address: &str, details: &Option<String>) -> (line: String)
    ensures
        line@ == heading_text(protocol@, address@, details.deep_view()),
{
    match details {
        Some(image) => {
            let mut line = String::from_str("List of tags for the ");
            line.append(image.as_str());
            line.append(" image :");
            line
        },
        None => {
            let mut line = String::from_str("List of Images on ");
            line.append(protocol);
            line.append(address);
            line
        },
    }
}

/// What the `json` crate reads in `text` under `key`: `None` when `text` is
/// not a JSON document; else the members of the array stored under `key`,
/// each as `Display` writes it (a string without quotes, other values as
/// compact JSON), and no member when the document is not an object, has no
/// such key, or holds something other than an array there.
pub uninterp spec fn json_members(text: Seq<char>, key: Seq<char>) -> Option<Seq<Seq<char>>>;

/// `json::parse(text)`, then the members of `value[key]`, each written with
/// `Display`. The contract only ties the result to `json_members`; what the
/// parser accepts and how values are written is not stated here.
#[verifier::external_body]
fn read_json_members(text: &str, key: &str) -> (members: Option<Vec<String>>)
    ensures
        members.deep_view() == json_members(text@, key@),
{
    match json::parse(text) {
        Ok(value) => {
            let mut members: Vec<String> = Vec::new();
            for member in value[key].members() {
                members.push(member.to_string());
            }
            Some(members)
        },
        Err(_) => None,
    }
}

/// The lines listed for a registry answer: the members of `repositories`,
/// then those of `tags`.
pub open spec fn listed_lines(
    repositories: Option<Seq<Seq<char>>>,
    tags: Option<Seq<Seq<char>>>,
) -> Option<Seq<Seq<char>>> {
    match (repositories, tags) {
        (Some(r), Some(t)) => Some(r + t),
        _ => None,
    }
}

/// The listing holds the repositories first, then the tags, each in the
/// order read, and nothing else; nothing is listed when a read failed.
pub proof fn lemma_listed_order(
    repositories: Option<Seq<Seq<char>>>,
    tags: Option<Seq<Seq<char>>>,
)
    ensures
        listed_lines(repositories, tags) is Some <==> (repositories is Some && tags is Some),
        listed_lines(repositories, tags) matches Some(lines) ==> ({
            let r = repositories->0;
            let t = tags->0;
            &&& lines.len() == r.len() + t.len()
            &&& forall|i: int| 0 <= i < r.len() ==> #[trigger] lines[i] == r[i]
            &&& forall|i: int| 0 <= i < t.len() ==> #[trigger] lines[r.len() + i] == t[i]
        }),
{
}

/// The repositories, then the tags, that the registry's answer `body` lists.
/// `None` when `body` is not a JSON document.
pub fn listed_members(body: &str) -> (lines: Option<Vec<String>>)
    ensures
        lines.deep_view() == listed_lines(
            json_members(body@, "repositories"@),
            json_members(body@, "tags"@),
        ),
{
    let repositories = read_json_members(body, "repositories");
    let tags = read_json_members(body, "tags");
    listed_from(repositories, tags)
}

/// The lines listed from what was read under `repositories` and under
/// `tags`: the first, then the second; `None` when either read failed.
pub fn listed_from(repositories: Option<Vec<String>>, tags: Option<Vec<String>>) -> (lines: Option<
    Vec<String>,
>)
    ensures
        lines.deep_view() == listed_lines(repositories.deep_view(), tags.deep_view()),
{
    match (repositories, tags) {
        (Some(r), Some(t)) => Some(concat_lines(r, t)),
        _ => None,
    }
}

/// The lines of `first`, then those of `second`.
pub fn concat_lines(first: Vec<String>, second: Vec<String>) -> (lines: Vec<String>)
    ensures
        lines.deep_view() == first.deep_view() + second.deep_view(),
{
    let ghost a = first.deep_view();
    let mut lines = first;
    let mut i: usize = 0;
    while i < second.len()
        invariant
            i <= second.len(),
            lines.deep_view() == a + second.deep_view().take(i as int),
        decreases second.len() - i,
    {
        let ghost before = lines.deep_view();
        lines.push(second[i].clone());
        assert(lines.deep_view() =~= before.push(second[i as int]@));
        assert(second.deep_view().take(i + 1) =~= second.deep_view().take(i as int).push(
            second[i as int]@,
        ));
        i = i + 1;
    }
    assert(second.deep_view().take(i as int) =~= second.deep_view());
    lines
}

} // verus!
