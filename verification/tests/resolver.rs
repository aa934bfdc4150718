use pundoc::artifact::{Artifact, Command, Context, Error, Resolution, SourceGroup};
use pundoc::remote::FetchFailure;
use pundoc::resolve::Resolver;

fn resolver_for(workdir: &str) -> Resolver {
    Resolver::new(String::from(workdir), String::from("/tmp/pundoc-run"))
}

#[test]
fn standard_resolves() {
    let mut resolver = resolver_for(".");
    let top = Context::LocalRelative(String::from("/collection"));

    let main = resolver
        .resolve(&top, "main.md")
        .expect("Failed to resolve direct path");
    let sibling = resolver
        .resolve(&top, "image.png")
        .expect("Failed to resolve sibling file");

    match main {
        Resolution::Ready(Artifact::Markdown(path, _)) => {
            assert_eq!(path, "/collection/main.md");
        }
        other => panic!("expected markdown, got {:?}", other),
    }
    match sibling {
        Resolution::Ready(Artifact::Image(path)) => {
            assert_eq!(path, "/collection/image.png");
        }
        other => panic!("expected image, got {:?}", other),
    }
}

#[test]
fn domain_resolves() {
    let mut resolver = resolver_for(".");
    let top = Context::LocalRelative(String::from("/collection"));

    let toc = resolver
        .resolve(&top, "//toc")
        .expect("Failed to resolve path in different domain");

    assert_eq!(toc, Resolution::Ready(Artifact::Command(Command::Toc)));
}

#[test]
fn http_resolves_needs_internet() {
    let mut resolver = resolver_for(".");
    let top = Context::LocalRelative(String::from("/collection"));
    let url = "https://raw.githubusercontent.com/oberien/pundoc/master/README.md";

    let first = resolver
        .resolve(&top, url)
        .expect("Failed to download external document");
    let fetch_url = match first {
        Resolution::Fetch(u) => u,
        other => panic!("expected a fetch request, got {:?}", other),
    };
    resolver.fetch_completed(&fetch_url, "/tmp/pundoc-run/dl0");

    let external = resolver
        .resolve(&top, url)
        .expect("Failed to download external document");
    match external {
        Resolution::Ready(Artifact::Markdown(_, context)) => {
            assert!(context.path().is_none());
        }
        other => panic!("expected markdown, got {:?}", other),
    }
}

#[test]
fn access_matrix_enumerated() {
    let resolver = resolver_for("/allowed");
    let lr = Context::LocalRelative(String::from("/collection"));
    let la = Context::LocalAbsolute(String::from("/collection"));
    let re = Context::Remote;

    let implementation = SourceGroup::Implementation(Command::Toc);
    let local_relative = SourceGroup::LocalRelative(String::from("/collection/a.md"));
    let remote = SourceGroup::Remote(
        String::from("https://host/a.md"),
        String::from("/a.md"),
    );
    let listed = SourceGroup::LocalAbsolute(String::from("/allowed/a.md"));
    let unlisted = SourceGroup::LocalAbsolute(String::from("/other/a.md"));

    assert!(resolver.check_access(&lr, &implementation));
    assert!(resolver.check_access(&lr, &local_relative));
    assert!(resolver.check_access(&lr, &remote));
    assert!(resolver.check_access(&lr, &listed));
    assert!(!resolver.check_access(&lr, &unlisted));

    assert!(resolver.check_access(&la, &implementation));
    assert!(!resolver.check_access(&la, &local_relative));
    assert!(!resolver.check_access(&la, &remote));
    assert!(resolver.check_access(&la, &listed));
    assert!(!resolver.check_access(&la, &unlisted));

    assert!(!resolver.check_access(&re, &implementation));
    assert!(!resolver.check_access(&re, &local_relative));
    assert!(resolver.check_access(&re, &remote));
    assert!(resolver.check_access(&re, &listed));
    assert!(!resolver.check_access(&re, &unlisted));
}

#[test]
fn relative_reference_lands_in_root_subtree() {
    let mut resolver = resolver_for(".");
    let top = Context::LocalRelative(String::from("/root-dir"));

    let got = resolver.resolve(&top, "sub/test.md").expect("resolves");
    assert_eq!(
        got,
        Resolution::Ready(Artifact::Markdown(
            String::from("/root-dir/sub/test.md"),
            Context::LocalRelative(String::from("/root-dir/sub")),
        ))
    );
}

#[test]
fn toc_denied_for_remote_context() {
    let mut resolver = resolver_for(".");
    let toc_local_absolute = resolver
        .resolve(&Context::LocalAbsolute(String::from("/anywhere")), "//toc")
        .expect("local absolute context may use virtual resources");
    assert_eq!(
        toc_local_absolute,
        Resolution::Ready(Artifact::Command(Command::Toc))
    );

    let denied = resolver.resolve(&Context::Remote, "//toc");
    assert_eq!(
        denied,
        Err(Error::AccessDenied(
            Context::Remote,
            SourceGroup::Implementation(Command::Toc),
        ))
    );
}

#[test]
fn absolute_path_outside_allow_list_denied_everywhere() {
    let mut resolver = resolver_for("/allowed");
    let reference = "pundoc://document//etc/passwd";
    let contexts = [
        Context::LocalRelative(String::from("/collection")),
        Context::LocalAbsolute(String::from("/collection")),
        Context::Remote,
    ];
    for context in contexts {
        let got = resolver.resolve(&context, reference);
        match got {
            Err(Error::AccessDenied(_, SourceGroup::LocalAbsolute(path))) => {
                assert_eq!(path, "/etc/passwd");
            }
            other => panic!("expected denial, got {:?}", other),
        }
    }
}

#[test]
fn allow_listed_absolute_path_admitted_everywhere() {
    let mut resolver = resolver_for("/opt/data");
    let reference = "pundoc://document//opt/data/report.pdf";
    let contexts = [
        Context::LocalRelative(String::from("/collection")),
        Context::LocalAbsolute(String::from("/collection")),
        Context::Remote,
    ];
    for context in contexts {
        let got = resolver.resolve(&context, reference).expect("admitted");
        assert_eq!(
            got,
            Resolution::Ready(Artifact::Pdf(String::from("/opt/data/report.pdf")))
        );
    }
}

#[test]
fn local_absolute_context_cannot_reach_relative_file() {
    let mut resolver = resolver_for(".");
    let etc = Context::LocalAbsolute(String::from("/etc"));
    let got = resolver.resolve(&etc, "passwd");
    match got {
        Err(Error::AccessDenied(context, SourceGroup::LocalRelative(path))) => {
            assert_eq!(context, etc);
            assert_eq!(path, "/etc/passwd");
        }
        other => panic!("expected denial, got {:?}", other),
    }
}

#[test]
fn second_resolution_of_url_uses_cache() {
    let mut resolver = resolver_for(".");
    let top = Context::LocalRelative(String::from("/collection"));
    let url = "https://example.net/page.md";
    let mut fetches = 0;

    let first = resolver.resolve(&top, url).expect("resolves");
    if let Resolution::Fetch(u) = &first {
        fetches += 1;
        resolver.fetch_completed(u, "/tmp/pundoc-run/dl1");
    } else {
        panic!("expected a fetch request, got {:?}", first);
    }

    let second = resolver.resolve(&top, url).expect("resolves");
    match &second {
        Resolution::Fetch(_) => fetches += 1,
        Resolution::Ready(Artifact::Markdown(path, Context::Remote)) => {
            assert_eq!(path.as_str(), "/tmp/pundoc-run/dl1");
        }
        other => panic!("expected the cached body, got {:?}", other),
    }
    assert_eq!(fetches, 1);
}

#[test]
fn round_trip_relative_then_canonical_absolute() {
    let mut resolver = resolver_for("/opt/data");
    let top = Context::LocalRelative(String::from("/opt/data"));

    let first = resolver.resolve(&top, "sub/test.md").expect("resolves");
    let path = match first {
        Resolution::Ready(Artifact::Markdown(path, _)) => path,
        other => panic!("expected markdown, got {:?}", other),
    };
    assert_eq!(path, "/opt/data/sub/test.md");

    let mut absolute = String::from("pundoc://document/");
    absolute.push_str(&path);
    let second = resolver
        .resolve(&Context::Remote, &absolute)
        .expect("the canonical absolute form is allow-listed");
    match second {
        Resolution::Ready(Artifact::Markdown(again, _)) => assert_eq!(again, path),
        other => panic!("expected markdown, got {:?}", other),
    }
}

#[test]
fn concurrent_callers_share_one_fetch() {
    let mut resolver = resolver_for(".");
    let top = Context::LocalRelative(String::from("/collection"));
    let url = "https://example.net/shared.png";
    let callers = 5;
    let mut fetches = 0;
    let mut pending = 0;

    let mut fetch_url = None;
    for _ in 0..callers {
        match resolver.resolve(&top, url).expect("resolves") {
            Resolution::Fetch(u) => {
                fetches += 1;
                fetch_url = Some(u);
            }
            Resolution::Pending(_) => pending += 1,
            other => panic!("no body recorded yet, got {:?}", other),
        }
    }
    assert_eq!(fetches, 1);
    assert_eq!(pending, callers - 1);

    resolver.fetch_completed(&fetch_url.unwrap(), "/tmp/pundoc-run/dl2");
    for _ in 0..callers {
        match resolver.resolve(&top, url).expect("resolves") {
            Resolution::Ready(Artifact::Image(path)) => {
                assert_eq!(path, "/tmp/pundoc-run/dl2");
            }
            other => panic!("expected the shared body, got {:?}", other),
        }
    }
}

#[test]
fn failed_fetch_surfaces_and_is_not_retried() {
    let mut resolver = resolver_for(".");
    let top = Context::LocalRelative(String::from("/collection"));
    let url = "https://example.net/missing.md";

    let first = resolver.resolve(&top, url).expect("resolves");
    let fetch_url = match first {
        Resolution::Fetch(u) => u,
        other => panic!("expected a fetch request, got {:?}", other),
    };
    let err = resolver.fetch_failed(&fetch_url, FetchFailure::Timeout);
    assert_eq!(err, Error::RemoteFetchFailed(FetchFailure::Timeout));

    let second = resolver.resolve(&top, url);
    assert_eq!(second, Err(Error::RemoteFetchFailed(FetchFailure::Timeout)));
}

#[test]
fn unsupported_scheme_rejected() {
    let mut resolver = resolver_for(".");
    let top = Context::LocalRelative(String::from("/collection"));
    let got = resolver.resolve(&top, "ftp://example.net/file.md");
    assert_eq!(got, Err(Error::UnsupportedScheme));
}

#[test]
fn unknown_domain_rejected() {
    let mut resolver = resolver_for(".");
    let top = Context::LocalRelative(String::from("/collection"));
    let got = resolver.resolve(&top, "//nosuchdomain/file.md");
    assert_eq!(got, Err(Error::InvalidReference));
}

#[test]
fn error_descriptions() {
    assert_eq!(Error::InvalidReference.describe(), "malformed reference");
    assert_eq!(Error::UnsupportedScheme.describe(), "unsupported scheme");
    assert_eq!(
        Error::AccessDenied(Context::Remote, SourceGroup::Implementation(Command::Toc)).describe(),
        "context is not allowed to access this target"
    );
    assert_eq!(
        Error::RemoteFetchFailed(FetchFailure::Network).describe(),
        "failed to fetch remote document"
    );
}

#[test]
fn context_path_accessor() {
    let lr = Context::LocalRelative(String::from("/a"));
    let la = Context::LocalAbsolute(String::from("/b"));
    assert_eq!(lr.path(), Some(&String::from("/a")));
    assert_eq!(la.path(), Some(&String::from("/b")));
    assert_eq!(Context::Remote.path(), None);
}
