//! The values that resolution consumes and produces: the provenance of a
//! reference site, the classification of its target, and the admitted
//! artifact handed back to the caller.

use vstd::prelude::*;

use crate::remote::FetchFailure;

verus! {

/// Where the document holding a reference came from. A document's context
/// is attached when the document itself is resolved and is inherited by
/// every reference it contains.
#[derive(Debug, PartialEq, Eq)]
pub enum Context {
    /// Resolved as a path inside the collection, rooted at this directory.
    LocalRelative(String),
    /// Resolved through the allow-list, rooted at this directory.
    LocalAbsolute(String),
    /// Fetched over the network.
    Remote,
}

impl Clone for Context {
    fn clone(&self) -> (res: Self)
        ensures
            res == *self,
    {
        match self {
            Context::LocalRelative(d) => Context::LocalRelative(d.clone()),
            Context::LocalAbsolute(d) => Context::LocalAbsolute(d.clone()),
            Context::Remote => Context::Remote,
        }
    }
}

/// `Context` with its directories as character sequences.
pub enum ContextView {
    LocalRelative(Seq<char>),
    LocalAbsolute(Seq<char>),
    Remote,
}

impl View for Context {
    type V = ContextView;

    open spec fn view(&self) -> ContextView {
        match self {
            Context::LocalRelative(d) => ContextView::LocalRelative(d@),
            Context::LocalAbsolute(d) => ContextView::LocalAbsolute(d@),
            Context::Remote => ContextView::Remote,
        }
    }
}

impl Context {
    /// The directory the context is rooted at, if it carries one.
    pub fn path(&self) -> (r: Option<&String>)
        ensures
            self@ is Remote <==> r is None,
            self@ matches ContextView::LocalRelative(d) ==> r matches Some(p) && p@ == d,
            self@ matches ContextView::LocalAbsolute(d) ==> r matches Some(p) && p@ == d,
    {
        match self {
            Context::LocalRelative(path) => Some(path),
            Context::LocalAbsolute(path) => Some(path),
            Context::Remote => None,
        }
    }
}

/// A virtual resource generated by the pipeline itself, with no backing
/// file.
#[derive(Debug, PartialEq, Eq, Clone, Copy, Structural)]
pub enum Command {
    Toc,
    Bibliography,
    ListOfTables,
    ListOfFigures,
    ListOfListings,
    Appendix,
}

/// What a joined reference points at, independent of who is asking.
#[derive(Debug, PartialEq, Eq)]
pub enum SourceGroup {
    /// A reserved virtual resource.
    Implementation(Command),
    /// A file inside the collection; the canonical path it resolved to.
    LocalRelative(String),
    /// An arbitrary absolute path, canonicalized.
    LocalAbsolute(String),
    /// An http or https target: the full URL and its path component.
    Remote(String, String),
}

/// `SourceGroup` with its payloads as character sequences.
pub enum SourceGroupView {
    Implementation(Command),
    LocalRelative(Seq<char>),
    LocalAbsolute(Seq<char>),
    Remote(Seq<char>, Seq<char>),
}

impl View for SourceGroup {
    type V = SourceGroupView;

    open spec fn view(&self) -> SourceGroupView {
        match self {
            SourceGroup::Implementation(c) => SourceGroupView::Implementation(*c),
            SourceGroup::LocalRelative(p) => SourceGroupView::LocalRelative(p@),
            SourceGroup::LocalAbsolute(p) => SourceGroupView::LocalAbsolute(p@),
            SourceGroup::Remote(u, p) => SourceGroupView::Remote(u@, p@),
        }
    }
}

/// The admitted target, materialized for the caller. A `Markdown`
/// artifact carries the context under which its own references are to be
/// resolved; that context is derived from the group that admitted the
/// target, never from the caller's own context.
#[derive(Debug, PartialEq, Eq)]
pub enum Artifact {
    Markdown(String, Context),
    Image(String),
    Pdf(String),
    Command(Command),
}

/// `Artifact` with its paths as character sequences.
pub enum ArtifactView {
    Markdown(Seq<char>, ContextView),
    Image(Seq<char>),
    Pdf(Seq<char>),
    Command(Command),
}

impl View for Artifact {
    type V = ArtifactView;

    open spec fn view(&self) -> ArtifactView {
        match self {
            Artifact::Markdown(p, c) => ArtifactView::Markdown(p@, c@),
            Artifact::Image(p) => ArtifactView::Image(p@),
            Artifact::Pdf(p) => ArtifactView::Pdf(p@),
            Artifact::Command(c) => ArtifactView::Command(*c),
        }
    }
}

/// Why a reference was not resolved. Every failure is tied to the one
/// reference that provoked it and never aborts the surrounding run.
#[derive(Debug, PartialEq, Eq)]
pub enum Error {
    /// The reference would not join against the base authority.
    InvalidReference,
    /// The joined URL has a scheme the resolver does not serve.
    UnsupportedScheme,
    /// The policy rejected the pairing of this context and this target.
    AccessDenied(Context, SourceGroup),
    /// The one permitted fetch of a remote target failed.
    RemoteFetchFailed(FetchFailure),
}

/// `Error` with its payloads viewed.
pub enum ErrorView {
    InvalidReference,
    UnsupportedScheme,
    AccessDenied(ContextView, SourceGroupView),
    RemoteFetchFailed(FetchFailure),
}

impl View for Error {
    type V = ErrorView;

    open spec fn view(&self) -> ErrorView {
        match self {
            Error::InvalidReference => ErrorView::InvalidReference,
            Error::UnsupportedScheme => ErrorView::UnsupportedScheme,
            Error::AccessDenied(c, g) => ErrorView::AccessDenied(c@, g@),
            Error::RemoteFetchFailed(f) => ErrorView::RemoteFetchFailed(*f),
        }
    }
}

impl Error {
    /// A short description of the rule or failure, for diagnostics.
    pub fn describe(&self) -> (r: &'static str)
        ensures
            self@ is InvalidReference ==> r@ == "malformed reference"@,
            self@ is UnsupportedScheme ==> r@ == "unsupported scheme"@,
            self@ is AccessDenied ==> r@ == "context is not allowed to access this target"@,
            self@ is RemoteFetchFailed ==> r@ == "failed to fetch remote document"@,
    {
        match self {
            Error::InvalidReference => "malformed reference",
            Error::UnsupportedScheme => "unsupported scheme",
            Error::AccessDenied(_, _) => "context is not allowed to access this target",
            Error::RemoteFetchFailed(_) => "failed to fetch remote document",
        }
    }
}

/// What a single resolution step asks of its caller. Local and virtual
/// targets come back `Ready` at once; a remote target may first need its
/// one network fetch performed by the surrounding pipeline.
#[derive(Debug, PartialEq, Eq)]
pub enum Resolution {
    /// The artifact is materialized.
    Ready(Artifact),
    /// No fetch for this URL has started: the caller holds the single
    /// flight and must perform it, record the outcome, and resolve again.
    Fetch(String),
    /// Another caller already holds this URL's fetch: await its outcome
    /// and resolve again.
    Pending(String),
}

/// `Resolution` with its payloads viewed.
pub enum ResolutionView {
    Ready(ArtifactView),
    Fetch(Seq<char>),
    Pending(Seq<char>),
}

impl View for Resolution {
    type V = ResolutionView;

    open spec fn view(&self) -> ResolutionView {
        match self {
            Resolution::Ready(i) => ResolutionView::Ready(i@),
            Resolution::Fetch(u) => ResolutionView::Fetch(u@),
            Resolution::Pending(u) => ResolutionView::Pending(u@),
        }
    }
}

} // verus!
