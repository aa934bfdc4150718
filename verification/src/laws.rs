//! The guarantees the resolver gives, stated over its models and proved
//! once and for all: the access matrix, where a relative reference lands,
//! the allow-list's independence from the requesting context, the
//! idempotence behind canonical round trips, and the single permitted
//! fetch per remote URL.

use vstd::prelude::*;

use crate::artifact::{ArtifactView, Command, ContextView, ErrorView, ResolutionView, SourceGroupView};
use crate::paths::{
    canon_parts, canon_path_chars, lemma_canon_idempotent, lemma_canon_parts_append_plain,
    lemma_split_abs_of_plain, plain_components,
};
use crate::remote::FetchStateView;
use crate::resolve::{
    access_allowed, allow_listed, classify_chars, local_artifact, remote_artifact, resolve_model,
};
use crate::strutil::{
    abs_path_of, joined_with, lemma_abs_path_starts_sep, lemma_split_at_concat, split_at,
};

verus! {

/// The reserved hosts and the document host are pairwise distinct names.
proof fn lemma_hosts_distinct()
    ensures
        "document"@ != "toc"@,
        "document"@ != "bibliography"@,
        "document"@ != "listoftables"@,
        "document"@ != "listoffigures"@,
        "document"@ != "listoflistings"@,
        "document"@ != "appendix"@,
        "http"@ != "pundoc"@,
        "https"@ != "pundoc"@,
{
    reveal_strlit("document");
    reveal_strlit("toc");
    reveal_strlit("bibliography");
    reveal_strlit("listoftables");
    reveal_strlit("listoffigures");
    reveal_strlit("listoflistings");
    reveal_strlit("appendix");
    reveal_strlit("http");
    reveal_strlit("https");
    reveal_strlit("pundoc");
    assert("document"@.len() == 8);
    assert("toc"@.len() == 3);
    assert("bibliography"@.len() == 12);
    assert("listoftables"@.len() == 12);
    assert("listoffigures"@.len() == 13);
    assert("listoflistings"@.len() == 14);
    assert("appendix"@.len() == 8);
    assert("document"@[0] == 'd' && "appendix"@[0] == 'a');
    assert("http"@.len() == 4);
    assert("https"@.len() == 5);
    assert("pundoc"@.len() == 6);
}

/// The access decision is the matrix, cell by cell, for every payload:
/// a relative context reaches everything but unlisted absolute paths; an
/// absolute context reaches only virtual resources and listed absolute
/// paths; a remote context reaches only remote targets and listed
/// absolute paths; and the absolute column is decided by the allow-list
/// alone, whatever the context.
pub proof fn lemma_access_matrix(
    lr: Seq<char>,
    la: Seq<char>,
    p: Seq<char>,
    u: Seq<char>,
    up: Seq<char>,
    c: Command,
    allowed: Seq<Seq<char>>,
)
    ensures
        access_allowed(ContextView::LocalRelative(lr), SourceGroupView::Implementation(c), allowed),
        access_allowed(ContextView::LocalRelative(lr), SourceGroupView::LocalRelative(p), allowed),
        access_allowed(ContextView::LocalRelative(lr), SourceGroupView::Remote(u, up), allowed),
        access_allowed(ContextView::LocalAbsolute(la), SourceGroupView::Implementation(c), allowed),
        !access_allowed(ContextView::LocalAbsolute(la), SourceGroupView::LocalRelative(p), allowed),
        !access_allowed(ContextView::LocalAbsolute(la), SourceGroupView::Remote(u, up), allowed),
        !access_allowed(ContextView::Remote, SourceGroupView::Implementation(c), allowed),
        !access_allowed(ContextView::Remote, SourceGroupView::LocalRelative(p), allowed),
        access_allowed(ContextView::Remote, SourceGroupView::Remote(u, up), allowed),
        forall|ctx: ContextView| #[trigger]
            access_allowed(ctx, SourceGroupView::LocalAbsolute(p), allowed) <==> allow_listed(
                allowed,
                p,
            ),
{
}

/// Joining a plain relative reference under a canonical root lands on the
/// root's spelling extended by the reference's components: no escape from
/// the root's subtree without dot components.
pub proof fn lemma_resolve_under_root(rootp: Seq<Seq<char>>, relp: Seq<Seq<char>>, rel: Seq<char>)
    requires
        plain_components(rootp),
        rootp.len() > 0,
        plain_components(relp),
        split_at(rel, '/') == relp,
    ensures
        canon_path_chars(abs_path_of(rootp) + seq!['/'] + rel) == abs_path_of(rootp + relp),
{
    let root = abs_path_of(rootp);
    assert(root == joined_with(rootp, '/'));
    lemma_split_at_concat(root, rel, '/');
    lemma_split_abs_of_plain(rootp);
    let both = seq![Seq::<char>::empty()] + rootp + relp;
    assert(split_at(root + seq!['/'] + rel, '/') =~= both);
    lemma_canon_parts_append_plain(seq![Seq::<char>::empty()] + rootp, relp);
    lemma_canon_parts_append_plain(seq![Seq::<char>::empty()], rootp);
    reveal_with_fuel(canon_parts, 2);
    assert(seq![Seq::<char>::empty()].drop_last() =~= Seq::<Seq<char>>::empty());
    assert(canon_parts(seq![Seq::<char>::empty()]) =~= Seq::<Seq<char>>::empty());
    assert(canon_parts(seq![Seq::<char>::empty()] + rootp) =~= rootp);
    assert(canon_parts(both) =~= rootp + relp);
}

/// Under a relative context rooted at a canonical directory, a plain
/// relative reference resolves to that file in the root's subtree, the
/// cache untouched.
pub proof fn lemma_relative_resolution(
    rootp: Seq<Seq<char>>,
    relp: Seq<Seq<char>>,
    rel: Seq<char>,
    full: Seq<char>,
    collection_root: Seq<char>,
    allowed: Seq<Seq<char>>,
    cache: Map<Seq<char>, FetchStateView>,
)
    requires
        plain_components(rootp),
        rootp.len() > 0,
        plain_components(relp),
        split_at(rel, '/') == relp,
        rel.len() > 0,
        rel[0] != '/',
    ensures
        ({
            let ctx = ContextView::LocalRelative(abs_path_of(rootp));
            let (res, cache2) = resolve_model(
                ctx,
                "pundoc"@,
                "document"@,
                seq!['/'] + rel,
                full,
                collection_root,
                allowed,
                cache,
            );
            res == Ok::<ResolutionView, ErrorView>(
                ResolutionView::Ready(local_artifact(abs_path_of(rootp + relp), true)),
            ) && cache2 == cache
        }),
{
    lemma_hosts_distinct();
    let upath = seq!['/'] + rel;
    assert(upath[0] == '/');
    assert(upath.subrange(1, upath.len() as int) =~= rel);
    lemma_resolve_under_root(rootp, relp, rel);
}

/// The reserved table-of-contents host resolves to the toc command under
/// both local contexts and is denied under the remote context; the cache
/// is untouched either way.
pub proof fn lemma_toc_resolution(
    ctx: ContextView,
    upath: Seq<char>,
    full: Seq<char>,
    collection_root: Seq<char>,
    allowed: Seq<Seq<char>>,
    cache: Map<Seq<char>, FetchStateView>,
)
    ensures
        ({
            let (res, cache2) = resolve_model(
                ctx,
                "pundoc"@,
                "toc"@,
                upath,
                full,
                collection_root,
                allowed,
                cache,
            );
            cache2 == cache && (!(ctx is Remote) ==> res == Ok::<ResolutionView, ErrorView>(
                ResolutionView::Ready(ArtifactView::Command(Command::Toc)),
            )) && ((ctx is Remote) ==> res == Err::<ResolutionView, ErrorView>(
                ErrorView::AccessDenied(ctx, SourceGroupView::Implementation(Command::Toc)),
            ))
        }),
{
}

/// An absolute target is admitted exactly when its canonical path lies
/// under the allow-list, under every context — the remote one included —
/// and denied with the rule's name otherwise.
pub proof fn lemma_absolute_resolution(
    ctx: ContextView,
    rel: Seq<char>,
    full: Seq<char>,
    collection_root: Seq<char>,
    allowed: Seq<Seq<char>>,
    cache: Map<Seq<char>, FetchStateView>,
)
    requires
        rel.len() > 0,
        rel[0] == '/',
    ensures
        ({
            let target = canon_path_chars(rel);
            let (res, cache2) = resolve_model(
                ctx,
                "pundoc"@,
                "document"@,
                seq!['/'] + rel,
                full,
                collection_root,
                allowed,
                cache,
            );
            cache2 == cache && (allow_listed(allowed, target) ==> res == Ok::<
                ResolutionView,
                ErrorView,
            >(ResolutionView::Ready(local_artifact(target, false)))) && (!allow_listed(
                allowed,
                target,
            ) ==> res == Err::<ResolutionView, ErrorView>(
                ErrorView::AccessDenied(ctx, SourceGroupView::LocalAbsolute(target)),
            ))
        }),
{
    lemma_hosts_distinct();
    let upath = seq!['/'] + rel;
    assert(upath[0] == '/');
    assert(upath.subrange(1, upath.len() as int) =~= rel);
}

/// Re-resolving the canonical absolute spelling of a local target, under
/// any context once its path is allow-listed, names the very same file:
/// canonicalization is idempotent, so the round trip is exact.
pub proof fn lemma_round_trip(
    ctx: ContextView,
    s: Seq<char>,
    full: Seq<char>,
    collection_root: Seq<char>,
    allowed: Seq<Seq<char>>,
    cache: Map<Seq<char>, FetchStateView>,
)
    requires
        allow_listed(allowed, canon_path_chars(s)),
    ensures
        ({
            let target = canon_path_chars(s);
            let (res, cache2) = resolve_model(
                ctx,
                "pundoc"@,
                "document"@,
                seq!['/'] + target,
                full,
                collection_root,
                allowed,
                cache,
            );
            res == Ok::<ResolutionView, ErrorView>(
                ResolutionView::Ready(local_artifact(target, false)),
            ) && cache2 == cache
        }),
{
    let target = canon_path_chars(s);
    lemma_abs_path_starts_sep(canon_parts(split_at(s, '/')));
    lemma_absolute_resolution(ctx, target, full, collection_root, allowed, cache);
    lemma_canon_idempotent(s);
}

/// Once a URL's body is recorded, resolving it again returns the recorded
/// local file and asks for no further fetch: the cache is returned
/// unchanged.
pub proof fn lemma_cached_url_resolution(
    ctx: ContextView,
    host: Seq<char>,
    upath: Seq<char>,
    full: Seq<char>,
    collection_root: Seq<char>,
    allowed: Seq<Seq<char>>,
    cache: Map<Seq<char>, FetchStateView>,
    local: Seq<char>,
)
    requires
        !(ctx is LocalAbsolute),
        cache.contains_key(full),
        cache[full] == FetchStateView::Done(local),
    ensures
        ({
            let (res, cache2) = resolve_model(
                ctx,
                "https"@,
                host,
                upath,
                full,
                collection_root,
                allowed,
                cache,
            );
            res == Ok::<ResolutionView, ErrorView>(
                ResolutionView::Ready(remote_artifact(local, upath)),
            ) && cache2 == cache
        }),
{
    lemma_hosts_distinct();
}

/// A remote URL is granted one fetch: the first resolution creates the
/// pending entry and asks its caller to fetch; while that fetch is in
/// flight every further resolution waits on it instead of starting
/// another.
pub proof fn lemma_single_flight(
    ctx: ContextView,
    host: Seq<char>,
    upath: Seq<char>,
    full: Seq<char>,
    collection_root: Seq<char>,
    allowed: Seq<Seq<char>>,
    cache: Map<Seq<char>, FetchStateView>,
)
    requires
        !(ctx is LocalAbsolute),
    ensures
        ({
            let (res, cache2) = resolve_model(
                ctx,
                "https"@,
                host,
                upath,
                full,
                collection_root,
                allowed,
                cache,
            );
            (!cache.contains_key(full) ==> res == Ok::<ResolutionView, ErrorView>(
                ResolutionView::Fetch(full),
            ) && cache2 == cache.insert(full, FetchStateView::Pending) && cache2[full]
                is Pending) && (cache.contains_key(full) && cache[full] is Pending ==> res == Ok::<
                ResolutionView,
                ErrorView,
            >(ResolutionView::Pending(full)) && cache2 == cache)
        }),
{
    lemma_hosts_distinct();
}

} // verus!
