//! The entry point: join a raw reference, classify the target, apply the
//! access policy, and materialize the admitted artifact.
//!
//! The access decision is a total function of the pair (context of the
//! referring document, group of the target); the allow-list column is
//! evaluated against the operator's directories alone, whatever the
//! context — a deliberate escape hatch that even remotely fetched
//! documents may use. Every local path is canonicalized before it is
//! compared against the allow-list or handed out.

use vstd::prelude::*;
use vstd::string::*;

use crate::artifact::{
    Artifact, ArtifactView, Command, Context, ContextView, Error, ErrorView, Resolution,
    ResolutionView, SourceGroup, SourceGroupView,
};
use crate::paths::{
    canon_path_chars, canonicalize_path, extension_chars, extension_of, parent_dir,
    parent_dir_chars,
};
use crate::remote::{FetchCache, FetchFailure, FetchState, FetchStateView};
use crate::strutil::str_eq;
use crate::urljoin::{join_of, join_reference};

verus! {

// ---------------------------------------------------------------------
// The access-control matrix
// ---------------------------------------------------------------------

/// `p` lies in the subtree rooted at `dir`: it is `dir` itself or extends
/// it at a component boundary. Both sides are canonical paths.
pub open spec fn path_within(dir: Seq<char>, p: Seq<char>) -> bool {
    dir == p || (dir.len() < p.len() && p.subrange(0, dir.len() as int) == dir && p[dir.len() as int]
        == '/')
}

/// Some allow-listed directory contains `p`.
pub open spec fn allow_listed(allowed: Seq<Seq<char>>, p: Seq<char>) -> bool {
    exists|i: int| 0 <= i < allowed.len() && path_within(#[trigger] allowed[i], p)
}

/// The access decision, a total function of context and group.
///
/// A document admitted through the allow-list may not tunnel back into
/// collection-relative or remote content; a remotely fetched document may
/// not invoke virtual resources or probe the collection tree; the
/// allow-list column is decided by the allow-list alone, whatever the
/// requesting context.
pub open spec fn access_allowed(
    ctx: ContextView,
    group: SourceGroupView,
    allowed: Seq<Seq<char>>,
) -> bool {
    match group {
        SourceGroupView::Implementation(_) => !(ctx is Remote),
        SourceGroupView::LocalRelative(_) => ctx is LocalRelative,
        SourceGroupView::Remote(_, _) => !(ctx is LocalAbsolute),
        SourceGroupView::LocalAbsolute(p) => allow_listed(allowed, p),
    }
}

fn path_within_exec(dir: &str, p: &str) -> (r: bool)
    ensures
        r == path_within(dir@, p@),
{
    let dn = dir.unicode_len();
    let pn = p.unicode_len();
    if dn == pn {
        str_eq(dir, p)
    } else if dn < pn {
        if p.get_char(dn) != '/' {
            false
        } else {
            str_eq(dir, p.substring_char(0, dn))
        }
    } else {
        false
    }
}

// ---------------------------------------------------------------------
// Classification
// ---------------------------------------------------------------------

/// Classify the joined URL's scheme, host and path, resolving a
/// collection-relative target against `root`. Independent of who asks,
/// except that `root` fills in where a relative target is anchored.
pub open spec fn classify_chars(
    scheme: Seq<char>,
    host: Seq<char>,
    upath: Seq<char>,
    full: Seq<char>,
    root: Seq<char>,
) -> Result<SourceGroupView, ErrorView> {
    if scheme == "pundoc"@ {
        if host == "toc"@ {
            Ok(SourceGroupView::Implementation(Command::Toc))
        } else if host == "bibliography"@ {
            Ok(SourceGroupView::Implementation(Command::Bibliography))
        } else if host == "listoftables"@ {
            Ok(SourceGroupView::Implementation(Command::ListOfTables))
        } else if host == "listoffigures"@ {
            Ok(SourceGroupView::Implementation(Command::ListOfFigures))
        } else if host == "listoflistings"@ {
            Ok(SourceGroupView::Implementation(Command::ListOfListings))
        } else if host == "appendix"@ {
            Ok(SourceGroupView::Implementation(Command::Appendix))
        } else if host == "document"@ {
            let rel = if upath.len() > 0 && upath[0] == '/' {
                upath.subrange(1, upath.len() as int)
            } else {
                upath
            };
            if rel.len() > 0 && rel[0] == '/' {
                Ok(SourceGroupView::LocalAbsolute(canon_path_chars(rel)))
            } else {
                Ok(SourceGroupView::LocalRelative(canon_path_chars(root + seq!['/'] + rel)))
            }
        } else {
            Err(ErrorView::InvalidReference)
        }
    } else if scheme == "http"@ || scheme == "https"@ {
        Ok(SourceGroupView::Remote(full, upath))
    } else {
        Err(ErrorView::UnsupportedScheme)
    }
}

/// A `Result` over groups, viewed.
pub open spec fn group_result_view(r: Result<SourceGroup, Error>) -> Result<
    SourceGroupView,
    ErrorView,
> {
    match r {
        Ok(g) => Ok(g@),
        Err(e) => Err(e@),
    }
}

/// Classify a joined URL into the group its target belongs to.
pub fn classify(scheme: &str, host: &str, upath: &str, full: &str, root: &str) -> (r: Result<
    SourceGroup,
    Error,
>)
    ensures
        group_result_view(r) == classify_chars(scheme@, host@, upath@, full@, root@),
{
    if str_eq(scheme, "pundoc") {
        if str_eq(host, "toc") {
            Ok(SourceGroup::Implementation(Command::Toc))
        } else if str_eq(host, "bibliography") {
            Ok(SourceGroup::Implementation(Command::Bibliography))
        } else if str_eq(host, "listoftables") {
            Ok(SourceGroup::Implementation(Command::ListOfTables))
        } else if str_eq(host, "listoffigures") {
            Ok(SourceGroup::Implementation(Command::ListOfFigures))
        } else if str_eq(host, "listoflistings") {
            Ok(SourceGroup::Implementation(Command::ListOfListings))
        } else if str_eq(host, "appendix") {
            Ok(SourceGroup::Implementation(Command::Appendix))
        } else if str_eq(host, "document") {
            let n = upath.unicode_len();
            let rel: String = if n > 0 && upath.get_char(0) == '/' {
                String::from_str(upath.substring_char(1, n))
            } else {
                String::from_str(upath)
            };
            let rn = rel.as_str().unicode_len();
            if rn > 0 && rel.as_str().get_char(0) == '/' {
                Ok(SourceGroup::LocalAbsolute(canonicalize_path(rel.as_str())))
            } else {
                let mut combined = String::from_str(root);
                combined.append("/");
                combined.append(rel.as_str());
                proof {
                    reveal_strlit("/");
                    assert(combined@ =~= root@ + seq!['/'] + rel@);
                }
                Ok(SourceGroup::LocalRelative(canonicalize_path(combined.as_str())))
            }
        } else {
            Err(Error::InvalidReference)
        }
    } else if str_eq(scheme, "http") || str_eq(scheme, "https") {
        Ok(SourceGroup::Remote(String::from_str(full), String::from_str(upath)))
    } else {
        Err(Error::UnsupportedScheme)
    }
}

// ---------------------------------------------------------------------
// Artifact construction
// ---------------------------------------------------------------------

/// The artifact for an admitted local target: markdown recurses under a
/// context rooted at the file's directory and mirroring the admitting
/// group; other extensions are leaves.
pub open spec fn local_artifact(p: Seq<char>, relative: bool) -> ArtifactView {
    let ext = extension_chars(p);
    if ext == "md"@ {
        ArtifactView::Markdown(
            p,
            if relative {
                ContextView::LocalRelative(parent_dir_chars(p))
            } else {
                ContextView::LocalAbsolute(parent_dir_chars(p))
            },
        )
    } else if ext == "pdf"@ {
        ArtifactView::Pdf(p)
    } else {
        ArtifactView::Image(p)
    }
}

/// The artifact for a fetched remote target: everything reached from it
/// stays remote.
pub open spec fn remote_artifact(local: Seq<char>, url_path: Seq<char>) -> ArtifactView {
    let ext = extension_chars(url_path);
    if ext == "md"@ {
        ArtifactView::Markdown(local, ContextView::Remote)
    } else if ext == "pdf"@ {
        ArtifactView::Pdf(local)
    } else {
        ArtifactView::Image(local)
    }
}

fn build_local_artifact(p: String, relative: bool) -> (r: Artifact)
    ensures
        r@ == local_artifact(p@, relative),
{
    let ext = extension_of(p.as_str());
    if str_eq(ext.as_str(), "md") {
        let dir = parent_dir(p.as_str());
        if relative {
            Artifact::Markdown(p, Context::LocalRelative(dir))
        } else {
            Artifact::Markdown(p, Context::LocalAbsolute(dir))
        }
    } else if str_eq(ext.as_str(), "pdf") {
        Artifact::Pdf(p)
    } else {
        Artifact::Image(p)
    }
}

fn build_remote_artifact(local: String, url_path: &str) -> (r: Artifact)
    ensures
        r@ == remote_artifact(local@, url_path@),
{
    let ext = extension_of(url_path);
    if str_eq(ext.as_str(), "md") {
        Artifact::Markdown(local, Context::Remote)
    } else if str_eq(ext.as_str(), "pdf") {
        Artifact::Pdf(local)
    } else {
        Artifact::Image(local)
    }
}

// ---------------------------------------------------------------------
// The resolver
// ---------------------------------------------------------------------

/// The directory a context anchors relative targets at; the collection
/// root where it carries none.
pub open spec fn context_root(ctx: ContextView, collection_root: Seq<char>) -> Seq<char> {
    match ctx {
        ContextView::LocalRelative(d) => d,
        ContextView::LocalAbsolute(d) => d,
        ContextView::Remote => collection_root,
    }
}

/// What resolution of an admitted group yields, given the fetch cache.
pub open spec fn resolve_outcome(
    g: SourceGroupView,
    cache: Map<Seq<char>, FetchStateView>,
) -> Result<ResolutionView, ErrorView> {
    match g {
        SourceGroupView::Implementation(c) => Ok(ResolutionView::Ready(ArtifactView::Command(c))),
        SourceGroupView::LocalRelative(p) => Ok(ResolutionView::Ready(local_artifact(p, true))),
        SourceGroupView::LocalAbsolute(p) => Ok(ResolutionView::Ready(local_artifact(p, false))),
        SourceGroupView::Remote(url, upath) => {
            if cache.contains_key(url) {
                match cache[url] {
                    FetchStateView::Pending => Ok(ResolutionView::Pending(url)),
                    FetchStateView::Done(local) => Ok(
                        ResolutionView::Ready(remote_artifact(local, upath)),
                    ),
                    FetchStateView::Failed(c) => Err(ErrorView::RemoteFetchFailed(c)),
                }
            } else {
                Ok(ResolutionView::Fetch(url))
            }
        },
    }
}

/// How resolution of an admitted group changes the fetch cache: the first
/// resolution of a remote URL creates its one entry, nothing else changes.
pub open spec fn cache_after(
    g: SourceGroupView,
    cache: Map<Seq<char>, FetchStateView>,
) -> Map<Seq<char>, FetchStateView> {
    match g {
        SourceGroupView::Remote(url, _) => {
            if cache.contains_key(url) {
                cache
            } else {
                cache.insert(url, FetchStateView::Pending)
            }
        },
        _ => cache,
    }
}

/// One resolution step from joined URL parts: the outcome handed to the
/// caller and the fetch cache afterwards.
pub open spec fn resolve_model(
    ctx: ContextView,
    scheme: Seq<char>,
    host: Seq<char>,
    upath: Seq<char>,
    full: Seq<char>,
    collection_root: Seq<char>,
    allowed: Seq<Seq<char>>,
    cache: Map<Seq<char>, FetchStateView>,
) -> (Result<ResolutionView, ErrorView>, Map<Seq<char>, FetchStateView>) {
    match classify_chars(scheme, host, upath, full, context_root(ctx, collection_root)) {
        Err(e) => (Err(e), cache),
        Ok(g) => {
            if !access_allowed(ctx, g, allowed) {
                (Err(ErrorView::AccessDenied(ctx, g)), cache)
            } else {
                (resolve_outcome(g, cache), cache_after(g, cache))
            }
        },
    }
}

/// A `Result` over resolutions, viewed.
pub open spec fn resolution_result_view(r: Result<Resolution, Error>) -> Result<
    ResolutionView,
    ErrorView,
> {
    match r {
        Ok(v) => Ok(v@),
        Err(e) => Err(e@),
    }
}

/// The operator's immutable allow-list of canonical absolute directories.
pub struct Permissions {
    allowed_absolute_folders: Vec<String>,
}

impl Permissions {
    /// The directories, as character sequences.
    pub closed spec fn dirs(&self) -> Seq<Seq<char>> {
        self.allowed_absolute_folders.deep_view()
    }

    fn is_allowed(&self, p: &str) -> (r: bool)
        ensures
            r == allow_listed(self.dirs(), p@),
    {
        let mut i: usize = 0;
        while i < self.allowed_absolute_folders.len()
            invariant
                i <= self.allowed_absolute_folders.len(),
                self.dirs().len() == self.allowed_absolute_folders.len(),
                forall|j: int| 0 <= j < i ==> !path_within(#[trigger] self.dirs()[j], p@),
            decreases self.allowed_absolute_folders.len() - i,
        {
            if path_within_exec(self.allowed_absolute_folders[i].as_str(), p) {
                proof {
                    assert(path_within(self.dirs()[i as int], p@));
                }
                return true;
            }
            i += 1;
        }
        false
    }
}

/// Joins, classifies, checks access, and materializes artifacts for one
/// run over one collection.
pub struct Resolver {
    root: String,
    tempdir: String,
    permissions: Permissions,
    remote: FetchCache,
}

impl Resolver {
    /// The allow-listed directories.
    pub closed spec fn allowed(&self) -> Seq<Seq<char>> {
        self.permissions.dirs()
    }

    /// The collection root.
    pub closed spec fn root_chars(&self) -> Seq<char> {
        self.root@
    }

    /// The run-scoped directory fetched bodies are placed under.
    pub closed spec fn tempdir_chars(&self) -> Seq<char> {
        self.tempdir@
    }

    /// The fetch cache: URL to the recorded outcome of its one fetch.
    pub closed spec fn cache_view(&self) -> Map<Seq<char>, FetchStateView> {
        self.remote@
    }

    /// The cache keeps one entry per URL.
    pub closed spec fn wf(&self) -> bool {
        self.remote.wf()
    }

    /// A resolver for the collection rooted at `workdir`, whose canonical
    /// form is the one allow-listed directory, with fetched bodies kept
    /// under `tempdir`.
    pub fn new(workdir: String, tempdir: String) -> (r: Resolver)
        ensures
            r.wf(),
            r.root_chars() == canon_path_chars(workdir@),
            r.allowed() == seq![canon_path_chars(workdir@)],
            r.tempdir_chars() == tempdir@,
            r.cache_view() == Map::<Seq<char>, FetchStateView>::empty(),
    {
        let root = canonicalize_path(workdir.as_str());
        let first = root.clone();
        let r = Resolver {
            root,
            tempdir,
            permissions: Permissions { allowed_absolute_folders: vec![first] },
            remote: FetchCache::new(),
        };
        proof {
            assert(r.allowed() =~= seq![canon_path_chars(workdir@)]);
        }
        r
    }

    /// Whether `context` may reach `target`: the matrix, with the
    /// allow-list deciding the absolute column.
    pub fn check_access(&self, context: &Context, target: &SourceGroup) -> (r: bool)
        ensures
            r == access_allowed(context@, target@, self.allowed()),
    {
        match target {
            SourceGroup::Implementation(_) => match context {
                Context::Remote => false,
                _ => true,
            },
            SourceGroup::LocalRelative(_) => match context {
                Context::LocalRelative(_) => true,
                _ => false,
            },
            SourceGroup::Remote(_, _) => match context {
                Context::LocalAbsolute(_) => false,
                _ => true,
            },
            SourceGroup::LocalAbsolute(p) => self.permissions.is_allowed(p.as_str()),
        }
    }

    /// Resolve from already-joined URL parts: classify, check access, and
    /// materialize, consulting the fetch cache for a remote target.
    pub fn resolve_parts(
        &mut self,
        context: &Context,
        scheme: &str,
        host: &str,
        upath: &str,
        full: &str,
    ) -> (r: Result<Resolution, Error>)
        requires
            old(self).wf(),
        ensures
            final(self).wf(),
            final(self).allowed() == old(self).allowed(),
            final(self).root_chars() == old(self).root_chars(),
            final(self).tempdir_chars() == old(self).tempdir_chars(),
            ({
                let (res, cache) = resolve_model(
                    context@,
                    scheme@,
                    host@,
                    upath@,
                    full@,
                    old(self).root_chars(),
                    old(self).allowed(),
                    old(self).cache_view(),
                );
                resolution_result_view(r) == res && final(self).cache_view() == cache
            }),
    {
        let group = {
            let root: &str = match context {
                Context::LocalRelative(d) => d.as_str(),
                Context::LocalAbsolute(d) => d.as_str(),
                Context::Remote => self.root.as_str(),
            };
            match classify(scheme, host, upath, full, root) {
                Ok(g) => g,
                Err(e) => {
                    return Err(e);
                },
            }
        };
        if !self.check_access(context, &group) {
            return Err(Error::AccessDenied(context.clone(), group));
        }
        match group {
            SourceGroup::Implementation(c) => Ok(Resolution::Ready(Artifact::Command(c))),
            SourceGroup::LocalRelative(p) => Ok(Resolution::Ready(build_local_artifact(p, true))),
            SourceGroup::LocalAbsolute(p) => Ok(Resolution::Ready(build_local_artifact(p, false))),
            SourceGroup::Remote(url, url_path) => match self.remote.lookup(url.as_str()) {
                None => {
                    self.remote.set_pending(url.as_str());
                    Ok(Resolution::Fetch(url))
                },
                Some(FetchState::Pending) => Ok(Resolution::Pending(url)),
                Some(FetchState::Done(local)) => Ok(
                    Resolution::Ready(build_remote_artifact(local, url_path.as_str())),
                ),
                Some(FetchState::Failed(c)) => Err(Error::RemoteFetchFailed(c)),
            },
        }
    }

    /// Resolve a raw reference in the context of the document holding it.
    pub fn resolve(&mut self, context: &Context, reference: &str) -> (r: Result<Resolution, Error>)
        requires
            old(self).wf(),
        ensures
            final(self).wf(),
            final(self).allowed() == old(self).allowed(),
            final(self).root_chars() == old(self).root_chars(),
            final(self).tempdir_chars() == old(self).tempdir_chars(),
            match join_of(reference@) {
                None => r matches Err(e) && e@ == ErrorView::InvalidReference
                    && final(self).cache_view() == old(self).cache_view(),
                Some(q) => ({
                    let (res, cache) = resolve_model(
                        context@,
                        q.0,
                        q.1,
                        q.2,
                        q.3,
                        old(self).root_chars(),
                        old(self).allowed(),
                        old(self).cache_view(),
                    );
                    resolution_result_view(r) == res && final(self).cache_view() == cache
                }),
            },
    {
        match join_reference(reference) {
            None => Err(Error::InvalidReference),
            Some((scheme, host, upath, full)) => self.resolve_parts(
                context,
                scheme.as_str(),
                host.as_str(),
                upath.as_str(),
                full.as_str(),
            ),
        }
    }

    /// Record that the caller holding `url`'s single fetch wrote its body
    /// to `local_path`. Without a fetch in flight for `url` this records
    /// nothing.
    pub fn fetch_completed(&mut self, url: &str, local_path: &str)
        requires
            old(self).wf(),
        ensures
            final(self).wf(),
            final(self).allowed() == old(self).allowed(),
            final(self).root_chars() == old(self).root_chars(),
            final(self).tempdir_chars() == old(self).tempdir_chars(),
            old(self).cache_view().contains_key(url@) && old(self).cache_view()[url@] is Pending
                ==> final(self).cache_view() == old(self).cache_view().insert(
                url@,
                FetchStateView::Done(local_path@),
            ),
            !(old(self).cache_view().contains_key(url@) && old(self).cache_view()[url@] is Pending)
                ==> final(self).cache_view() == old(self).cache_view(),
    {
        match self.remote.lookup(url) {
            Some(FetchState::Pending) => {
                self.remote.settle(url, FetchState::Done(String::from_str(local_path)));
            },
            _ => {},
        }
    }

    /// Record that the caller holding `url`'s single fetch failed, and
    /// hand back the error to attach to the offending reference. Without
    /// a fetch in flight for `url` this records nothing.
    pub fn fetch_failed(&mut self, url: &str, cause: FetchFailure) -> (e: Error)
        requires
            old(self).wf(),
        ensures
            final(self).wf(),
            final(self).allowed() == old(self).allowed(),
            final(self).root_chars() == old(self).root_chars(),
            final(self).tempdir_chars() == old(self).tempdir_chars(),
            e == Error::RemoteFetchFailed(cause),
            old(self).cache_view().contains_key(url@) && old(self).cache_view()[url@] is Pending
                ==> final(self).cache_view() == old(self).cache_view().insert(
                url@,
                FetchStateView::Failed(cause),
            ),
            !(old(self).cache_view().contains_key(url@) && old(self).cache_view()[url@] is Pending)
                ==> final(self).cache_view() == old(self).cache_view(),
    {
        match self.remote.lookup(url) {
            Some(FetchState::Pending) => {
                self.remote.settle(url, FetchState::Failed(cause));
            },
            _ => {},
        }
        Error::RemoteFetchFailed(cause)
    }
}

} // verus!
