use rumpelpod::failure::Failure;
use rumpelpod::git::get_current_branch;
use rumpelpod::git::get_git_user_config;
use rumpelpod::git::get_remotes;
use rumpelpod::git::get_repo_root;
use rumpelpod::git::Discovery;
use rumpelpod::git::GitRemote;
use rumpelpod::git::Head;
use rumpelpod::git::RemoteEntry;
use rumpelpod::git::RemoteListing;

#[test]
fn root_is_written_without_a_separator_at_its_end() {
    assert_eq!(
        get_repo_root(Discovery::WorkingTree("/home/u/repo/".to_string()), '/'),
        Ok("/home/u/repo".to_string())
    );
    assert_eq!(
        get_repo_root(Discovery::WorkingTree("/home/u/repo".to_string()), '/'),
        Ok("/home/u/repo".to_string())
    );
}

#[test]
fn a_working_tree_at_the_root_stays_absolute() {
    for tree in ["/", "//", "///"] {
        assert_eq!(
            get_repo_root(Discovery::WorkingTree(tree.to_string()), '/'),
            Ok("/".to_string())
        );
    }
    for tree in ["/a", "/a/", "/a//b/"] {
        let root = get_repo_root(Discovery::WorkingTree(tree.to_string()), '/').unwrap();
        assert!(root.starts_with('/') && !root.ends_with('/'));
    }
    assert_eq!(get_repo_root(Discovery::WorkingTree(String::new()), '/'), Ok(String::new()));
}

#[test]
fn missing_roots_are_explained() {
    assert_eq!(
        get_repo_root(Discovery::Bare, '/'),
        Err(Failure::plain(
            "cannot use rumpel in a bare git repository (needs a working tree)".to_string()
        ))
    );
    assert_eq!(
        get_repo_root(Discovery::NoCurrentDirectory("gone".to_string()), '/'),
        Err(Failure::new("failed to get current directory", "gone".to_string()))
    );
    assert_eq!(
        get_repo_root(
            Discovery::NoRepository { cwd: "/x".to_string(), cause: "not found".to_string() },
            '/'
        ),
        Err(Failure::new("not inside a git repository: /x", "not found".to_string()))
    );
}

#[test]
fn identity_is_what_the_configuration_has() {
    let identity = get_git_user_config(Some((Some("Ada".to_string()), None)));
    assert_eq!(identity.name.as_deref(), Some("Ada"));
    assert_eq!(identity.email, None);
    let nobody = get_git_user_config(None);
    assert!(nobody.name.is_none() && nobody.email.is_none());
}

#[test]
fn a_detached_head_is_no_branch() {
    let head = |is_branch| Head { is_branch, shorthand: Some("main".to_string()) };
    assert_eq!(get_current_branch(Some(head(true))), Some("main".to_string()));
    assert_eq!(get_current_branch(Some(head(false))), None);
    assert_eq!(get_current_branch(Some(Head { is_branch: true, shorthand: None })), None);
    assert_eq!(get_current_branch(None), None);
}

fn remote(name: &str, url: &str) -> RemoteEntry {
    RemoteEntry::WithUrl(GitRemote { name: name.to_string(), url: url.to_string() })
}

fn listed(entries: Vec<RemoteEntry>) -> Vec<(String, String)> {
    get_remotes(RemoteListing::Entries(entries))
        .unwrap()
        .into_iter()
        .map(|remote| (remote.name, remote.url))
        .collect()
}

fn named(list: &[(&str, &str)]) -> Vec<(String, String)> {
    list.iter().map(|(name, url)| (name.to_string(), url.to_string())).collect()
}

#[test]
fn remotes_without_a_url_are_skipped() {
    let remotes = listed(vec![
        RemoteEntry::Unnamed,
        remote("b", "u1"),
        RemoteEntry::WithoutUrl { name: "a".to_string() },
    ]);
    assert_eq!(remotes, named(&[("b", "u1")]));
    assert!(listed(Vec::new()).is_empty());
}

#[test]
fn remotes_are_listed_alike_whatever_their_order() {
    let first = listed(vec![remote("origin", "1"), remote("Fork", "2"), remote("host", "3")]);
    let second = listed(vec![remote("host", "3"), remote("origin", "1"), remote("Fork", "2")]);
    assert_eq!(first, named(&[("Fork", "2"), ("host", "3"), ("origin", "1")]));
    assert_eq!(first, second);
}

#[test]
fn remotes_of_one_name_keep_their_order() {
    assert_eq!(
        listed(vec![remote("b", "1"), remote("a", "2"), remote("b", "3"), remote("a", "4")]),
        named(&[("a", "2"), ("a", "4"), ("b", "1"), ("b", "3")])
    );
}

#[test]
fn the_first_unreadable_remote_is_reported() {
    let fails = |listing| {
        let failure = get_remotes(listing).unwrap_err();
        (failure.message, failure.cause.unwrap_or_default())
    };
    let why = |message: &str, cause: &str| (message.to_string(), cause.to_string());
    assert_eq!(fails(RemoteListing::NotOpened("no".to_string())), why("opening repository", "no"));
    assert_eq!(fails(RemoteListing::NotListed("no".to_string())), why("listing remotes", "no"));
    assert_eq!(
        fails(RemoteListing::Entries(vec![
            remote("a", "1"),
            RemoteEntry::NoName("not utf-8".to_string()),
        ])),
        why("reading remote name", "not utf-8")
    );
    assert_eq!(
        fails(RemoteListing::Entries(vec![
            RemoteEntry::NoRemote { name: "up".to_string(), cause: "bad".to_string() },
            RemoteEntry::NoName("not utf-8".to_string()),
        ])),
        why("reading remote 'up'", "bad")
    );
}
