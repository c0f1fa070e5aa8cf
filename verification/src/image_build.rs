//! Building an image from a Dockerfile and pushing it under every tag.

use vstd::prelude::*;
use crate::deploy::or_default;
use crate::text::{has_infix, lemma_infix_between, lemma_infix_extend};

verus! {

/// The port of the local registry when none is configured.
pub open spec fn default_port() -> Seq<char> {
    "80"@
}

/// The registry that images are pushed to when none is configured.
pub open spec fn default_registry() -> Seq<char> {
    "faraday.repo"@
}

/// The `-t` arguments of `docker build`: each tag for the local registry and
/// for the remote one.
pub open spec fn tag_args(tags: Seq<Seq<char>>, port: Seq<char>, repo: Seq<char>) -> Seq<char>
    decreases tags.len(),
{
    if tags.len() == 0 {
        Seq::empty()
    } else {
        tag_args(tags.drop_last(), port, repo) + " -t localhost:"@ + port + "/"@ + tags.last()
            + " -t "@ + repo + "/"@ + tags.last()
    }
}

/// The pushes of every tag, to the local registry and to the remote one.
pub open spec fn push_args(tags: Seq<Seq<char>>, port: Seq<char>, repo: Seq<char>) -> Seq<char>
    decreases tags.len(),
{
    if tags.len() == 0 {
        Seq::empty()
    } else {
        push_args(tags.drop_last(), port, repo) + " && docker push localhost:"@ + port + "/"@
            + tags.last() + " && docker push "@ + repo + "/"@ + tags.last()
    }
}

/// The shell line that builds the image (from the URL when one is given,
/// else from the Dockerfile at `file`) and pushes it under every tag.
pub open spec fn build_line(
    file: Option<Seq<char>>,
    url: Option<Seq<char>>,
    tags: Seq<Seq<char>>,
    port: Seq<char>,
    repo: Seq<char>,
) -> Seq<char> {
    let targs = tag_args(tags, port, repo);
    let build = match url {
        Some(u) => "docker build"@ + targs + " "@ + u,
        None => "docker build "@ + targs + " -f "@ + file->0 + " ."@,
    };
    build + " && docker push --all-tags localhost:"@ + port + "/"@ + tags[0] + push_args(
        tags,
        port,
        repo,
    )
}

/// The two `-t` arguments that name `tag` for `docker build`.
pub open spec fn tag_pair(tag: Seq<char>, port: Seq<char>, repo: Seq<char>) -> Seq<char> {
    " -t localhost:"@ + port + "/"@ + tag + " -t "@ + repo + "/"@ + tag
}

/// The two pushes of `tag`.
pub open spec fn push_pair(tag: Seq<char>, port: Seq<char>, repo: Seq<char>) -> Seq<char> {
    " && docker push localhost:"@ + port + "/"@ + tag + " && docker push "@ + repo + "/"@ + tag
}

/// `part` names every tag for `docker build`.
pub open spec fn names_every_tag(
    part: Seq<char>,
    tags: Seq<Seq<char>>,
    port: Seq<char>,
    repo: Seq<char>,
) -> bool {
    forall|i: int| 0 <= i < tags.len() ==> has_infix(part, tag_pair(#[trigger] tags[i], port, repo))
}

/// `part` pushes every tag.
pub open spec fn pushes_every_tag(
    part: Seq<char>,
    tags: Seq<Seq<char>>,
    port: Seq<char>,
    repo: Seq<char>,
) -> bool {
    forall|i: int| 0 <= i < tags.len() ==> has_infix(part, push_pair(#[trigger] tags[i], port, repo))
}

proof fn lemma_tag_args_every_tag(tags: Seq<Seq<char>>, port: Seq<char>, repo: Seq<char>)
    ensures
        names_every_tag(tag_args(tags, port, repo), tags, port, repo),
        pushes_every_tag(push_args(tags, port, repo), tags, port, repo),
    decreases tags.len(),
{
    if tags.len() > 0 {
        let init = tags.drop_last();
        let last = tags.last();
        lemma_tag_args_every_tag(init, port, repo);
        let ta = tag_args(init, port, repo);
        let pa = push_args(init, port, repo);
        assert(tag_args(tags, port, repo) =~= ta + tag_pair(last, port, repo));
        assert(push_args(tags, port, repo) =~= pa + push_pair(last, port, repo));
        assert forall|i: int| 0 <= i < tags.len() implies has_infix(
            tag_args(tags, port, repo),
            tag_pair(#[trigger] tags[i], port, repo),
        ) && has_infix(push_args(tags, port, repo), push_pair(tags[i], port, repo)) by {
            if i < tags.len() - 1 {
                assert(tags[i] == init[i]);
                lemma_infix_extend(ta, tag_pair(tags[i], port, repo), tag_pair(last, port, repo));
                lemma_infix_extend(pa, push_pair(tags[i], port, repo), push_pair(last, port, repo));
            } else {
                lemma_infix_between(ta, tag_pair(last, port, repo), Seq::empty());
                assert(ta + tag_pair(last, port, repo) + Seq::<char>::empty() =~= ta + tag_pair(
                    last,
                    port,
                    repo,
                ));
                lemma_infix_between(pa, push_pair(last, port, repo), Seq::empty());
                assert(pa + push_pair(last, port, repo) + Seq::<char>::empty() =~= pa + push_pair(
                    last,
                    port,
                    repo,
                ));
            }
        }
    }
}

/// Every tag is given to `docker build`, whether the image is built from a
/// URL or from a file, and every tag is pushed afterwards: the line is the
/// build with arguments that name each tag for both registries, the push of
/// all tags of the first one, then pushes that cover each tag in both
/// registries.
pub proof fn lemma_build_line_uses_every_tag(
    file: Option<Seq<char>>,
    url: Option<Seq<char>>,
    tags: Seq<Seq<char>>,
    port: Seq<char>,
    repo: Seq<char>,
)
    requires
        tags.len() > 0,
    ensures
        exists|t: Seq<char>, p: Seq<char>|
            #![trigger names_every_tag(t, tags, port, repo), pushes_every_tag(p, tags, port, repo)]
            names_every_tag(t, tags, port, repo) && pushes_every_tag(p, tags, port, repo)
                && build_line(file, url, tags, port, repo) == (match url {
                Some(u) => "docker build"@ + t + " "@ + u,
                None => "docker build "@ + t + " -f "@ + file->0 + " ."@,
            }) + " && docker push --all-tags localhost:"@ + port + "/"@ + tags[0] + p,
{
    lemma_tag_args_every_tag(tags, port, repo);
    let t = tag_args(tags, port, repo);
    let p = push_args(tags, port, repo);
    assert(names_every_tag(t, tags, port, repo) && pushes_every_tag(p, tags, port, repo));
    assert(build_line(file, url, tags, port, repo) =~= (match url {
        Some(u) => "docker build"@ + t + " "@ + u,
        None => "docker build "@ + t + " -f "@ + file->0 + " ."@,
    }) + " && docker push --all-tags localhost:"@ + port + "/"@ + tags[0] + p);
}

/// The shell line that builds and pushes the image, given the configured
/// local registry port and remote registry, if any.
pub fn build_command(
    file: &Option<String>,
    url: &Option<String>,
    tags: &Vec<String>,
    port: &Option<String>,
    repo_url: &Option<String>,
) -> (line: String)
    requires
        tags.len() > 0,
        url is Some || file is Some,
    ensures
        line@ == build_line(
            file.deep_view(),
            url.deep_view(),
            tags.deep_view(),
            or_default(port.deep_view(), default_port()),
            or_default(repo_url.deep_view(), default_registry()),
        ),
{
    let port = match port {
        Some(p) => p.clone(),
        None => String::from_str("80"),
    };
    let repo = match repo_url {
        Some(r) => r.clone(),
        None => String::from_str("faraday.repo"),
    };
    let ghost all = tags.deep_view();
    let mut targs = String::new();
    let mut pushes = String::new();
    let mut i: usize = 0;
    assert(all.take(0) =~= Seq::<Seq<char>>::empty());
    while i < tags.len()
        invariant
            i <= tags.len(),
            all == tags.deep_view(),
            targs@ == tag_args(all.take(i as int), port@, repo@),
            pushes@ == push_args(all.take(i as int), port@, repo@),
        decreases tags.len() - i,
    {
        let tag = tags[i].as_str();
        targs.append(" -t localhost:");
        targs.append(port.as_str());
        targs.append("/");
        targs.append(tag);
        targs.append(" -t ");
        targs.append(repo.as_str());
        targs.append("/");
        targs.append(tag);
        pushes.append(" && docker push localhost:");
        pushes.append(port.as_str());
        pushes.append("/");
        pushes.append(tag);
        pushes.append(" && docker push ");
        pushes.append(repo.as_str());
        pushes.append("/");
        pushes.append(tag);
        assert(all.take(i + 1).drop_last() =~= all.take(i as int));
        assert(all.take(i + 1).last() == tags[i as int]@);
        i = i + 1;
    }
    assert(all.take(tags.len() as int) =~= all);
    let mut line = match url {
        Some(u) => {
            let mut b = String::from_str("docker build");
            b.append(targs.as_str());
            b.append(" ");
            b.append(u.as_str());
            b
        },
        None => {
            let mut b = String::from_str("docker build ");
            b.append(targs.as_str());
            b.append(" -f ");
            match file {
                Some(path) => b.append(path.as_str()),
                None => {},
            }
            b.append(" .");
            b
        },
    };
    line.append(" && docker push --all-tags localhost:");
    line.append(port.as_str());
    line.append("/");
    line.append(tags[0].as_str());
    line.append(pushes.as_str());
    line
}

} // verus!
