//! What a repository says of itself: its root, its user, its branch and its
//! remotes.
use vstd::prelude::*;
use vstd::string::*;

use crate::failure::because;
use crate::failure::plainly;
use crate::failure::Failure;
use crate::failure::FailureView;
use crate::text::in_order;
use crate::text::lemma_trimmed_end_of;
use crate::text::text_le;
use crate::text::text_le_antisymmetric;
use crate::text::text_le_total;
use crate::text::text_le_transitive;
use crate::text::trim_end_of;
use crate::text::trimmed_end_of;

verus! {

/// Where the search for the repository of the current directory ended.
#[derive(Debug)]
pub enum Discovery {
    NoCurrentDirectory(String),
    NoRepository { cwd: String, cause: String },
    /// The repository has no working tree.
    Bare,
    /// The path of the working tree.
    WorkingTree(String),
}

/// The path of a directory without the separators at its end. Of a path that is
/// nothing but separators, one stays.
pub open spec fn root_of(path: Seq<char>, separator: char) -> Seq<char> {
    let cut = trimmed_end_of(path, separator);
    if cut.len() == 0 && path.len() > 0 {
        seq![separator]
    } else {
        cut
    }
}

/// The root of the repository, without the separator that a working tree's path
/// ends in, or why there is none.
pub open spec fn repo_root(found: Discovery, separator: char) -> Result<Seq<char>, FailureView> {
    match found {
        Discovery::NoCurrentDirectory(cause) => Err(
            because("failed to get current directory"@, cause@),
        ),
        Discovery::NoRepository { cwd, cause } => Err(
            because("not inside a git repository: "@ + cwd@, cause@),
        ),
        Discovery::Bare => Err(
            plainly("cannot use rumpel in a bare git repository (needs a working tree)"@),
        ),
        Discovery::WorkingTree(path) => Ok(root_of(path@, separator)),
    }
}

/// The root of the repository that the current directory is in, written as a
/// user would type it.
pub fn get_repo_root(found: Discovery, separator: char) -> (r: Result<String, Failure>)
    ensures
        match repo_root(found, separator) {
            Ok(root) => r is Ok && r->Ok_0@ == root,
            Err(failure) => r is Err && r->Err_0@ == failure,
        },
{
    match found {
        Discovery::NoCurrentDirectory(cause) => Err(
            Failure::new("failed to get current directory", cause),
        ),
        Discovery::NoRepository { cwd, cause } => Err(
            Failure::new(
                "not inside a git repository: ".to_owned().concat(cwd.as_str()).as_str(),
                cause,
            ),
        ),
        Discovery::Bare => Err(
            Failure::plain(
                "cannot use rumpel in a bare git repository (needs a working tree)".to_owned(),
            ),
        ),
        Discovery::WorkingTree(path) => {
            let cut = trim_end_of(path.as_str(), separator);
            if cut.is_empty() && path.as_str().unicode_len() > 0 {
                proof {
                    lemma_only_separators(path@, separator);
                    assert(path@.subrange(0, 1) =~= seq![separator]);
                }
                Ok(path.as_str().substring_char(0, 1).to_owned())
            } else {
                Ok(cut.to_owned())
            }
        },
    }
}

/// A path that trims to nothing is separators throughout.
proof fn lemma_only_separators(path: Seq<char>, separator: char)
    requires
        trimmed_end_of(path, separator).len() == 0,
    ensures
        forall|i: int| 0 <= i < path.len() ==> path[i] == separator,
    decreases path.len(),
{
    if path.len() > 0 {
        let head = path.drop_last();
        lemma_only_separators(head, separator);
        assert forall|i: int| 0 <= i < path.len() implies path[i] == separator by {
            if i < path.len() - 1 {
                assert(head[i] == path[i]);
            }
        }
    }
}

/// The root of an absolute path is absolute, up to the working tree that is the
/// root of the file system; and of whatever is not a root on its own, the
/// separators at the end are gone.
pub proof fn law_absolute_roots_stay_absolute(path: Seq<char>, separator: char)
    requires
        path.len() > 0,
        path[0] == separator,
    ensures
        root_of(path, separator).len() > 0,
        root_of(path, separator)[0] == separator,
        root_of(path, separator).len() > 1 ==> root_of(path, separator).last() != separator,
        root_of(path, separator).is_prefix_of(path),
{
    let cut = trimmed_end_of(path, separator);
    lemma_trimmed_end_of(path, separator);
    if cut.len() > 0 {
        assert(cut[0] == path[0]);
    } else {
        assert(seq![separator] =~= path.take(1));
    }
}

/// A user's name and email as the effective configuration has them.
#[derive(Debug, Clone)]
pub struct GitIdentity {
    pub name: Option<String>,
    pub email: Option<String>,
}

/// The identity that a configuration gives, by its entries `user.name` and
/// `user.email`. Without a configuration neither is known.
pub fn get_git_user_config(config: Option<(Option<String>, Option<String>)>) -> (r: GitIdentity)
    ensures
        match config {
            Some((name, email)) => r == (GitIdentity { name, email }),
            None => r == (GitIdentity { name: None, email: None }),
        },
{
    match config {
        Some((name, email)) => GitIdentity { name, email },
        None => GitIdentity { name: None, email: None },
    }
}

/// What a repository's `HEAD` points to.
#[derive(Debug)]
pub struct Head {
    pub is_branch: bool,
    /// The short name of the reference, where it is text.
    pub shorthand: Option<String>,
}

/// The name of the current branch. A detached `HEAD` has none, and neither has
/// a repository whose `HEAD` cannot be read.
pub fn get_current_branch(head: Option<Head>) -> (r: Option<String>)
    ensures
        r == match head {
            Some(head) => if head.is_branch {
                head.shorthand
            } else {
                None
            },
            None => None,
        },
{
    match head {
        Some(head) => if head.is_branch {
            head.shorthand
        } else {
            None
        },
        None => None,
    }
}

/// A remote's name and the URL it is fetched from.
#[derive(Debug, Clone)]
pub struct GitRemote {
    pub name: String,
    pub url: String,
}

/// A [`GitRemote`] with its text as characters.
pub struct RemoteView {
    pub name: Seq<char>,
    pub url: Seq<char>,
}

impl View for GitRemote {
    type V = RemoteView;

    open spec fn view(&self) -> RemoteView {
        RemoteView { name: self.name@, url: self.url@ }
    }
}

/// One entry of a repository's list of remotes.
#[derive(Debug)]
pub enum RemoteEntry {
    /// The entry's name could not be read.
    NoName(String),
    /// The entry has no name.
    Unnamed,
    /// The remote of that name could not be read.
    NoRemote { name: String, cause: String },
    WithoutUrl { name: String },
    WithUrl(GitRemote),
}

/// The remotes of a repository, as far as they could be listed.
#[derive(Debug)]
pub enum RemoteListing {
    NotOpened(String),
    NotListed(String),
    Entries(Vec<RemoteEntry>),
}

/// The remotes among `entries` that have a URL, in the order of the entries, or
/// the message for the first entry that could not be read.
pub open spec fn remotes_with_url(entries: Seq<RemoteEntry>) -> Result<Seq<RemoteView>, FailureView>
    decreases entries.len(),
{
    if entries.len() == 0 {
        Ok(seq![])
    } else {
        match entries[0] {
            RemoteEntry::NoName(cause) => Err(because("reading remote name"@, cause@)),
            RemoteEntry::NoRemote { name, cause } => Err(
                because("reading remote '"@ + name@ + "'"@, cause@),
            ),
            RemoteEntry::Unnamed | RemoteEntry::WithoutUrl { .. } => remotes_with_url(
                entries.drop_first(),
            ),
            RemoteEntry::WithUrl(remote) => match remotes_with_url(entries.drop_first()) {
                Ok(rest) => Ok(seq![remote@] + rest),
                Err(failure) => Err(failure),
            },
        }
    }
}

/// Whether no remote stands behind one whose name comes later.
pub open spec fn ordered_by_name(remotes: Seq<RemoteView>) -> bool {
    forall|i: int, j: int|
        0 <= i < j < remotes.len() ==> text_le(#[trigger] remotes[i].name, #[trigger] remotes[j].name)
}

/// The remotes called `name`, in their order.
pub open spec fn named(remotes: Seq<RemoteView>, name: Seq<char>) -> Seq<RemoteView> {
    remotes.filter(|remote: RemoteView| remote.name == name)
}

/// Whether `sorted` holds the remotes of `remotes` by name, those of one name in
/// the order they had.
pub open spec fn sorted_by_name(sorted: Seq<RemoteView>, remotes: Seq<RemoteView>) -> bool {
    &&& ordered_by_name(sorted)
    &&& forall|name: Seq<char>| #[trigger] named(sorted, name) == named(remotes, name)
}

/// The remotes with their text as characters.
pub open spec fn remote_views(remotes: Seq<GitRemote>) -> Seq<RemoteView> {
    remotes.map_values(|remote: GitRemote| remote@)
}

/// A remote put behind those of names up to its own keeps the order, and joins
/// those of its name as the last.
proof fn lemma_inserted(remotes: Seq<RemoteView>, at: int, remote: RemoteView)
    requires
        0 <= at <= remotes.len(),
        ordered_by_name(remotes),
        forall|i: int| 0 <= i < at ==> text_le(#[trigger] remotes[i].name, remote.name),
        forall|i: int| at <= i < remotes.len() ==> !text_le(#[trigger] remotes[i].name, remote.name),
    ensures
        ordered_by_name(remotes.insert(at, remote)),
        forall|name: Seq<char>| #[trigger]
            named(remotes.insert(at, remote), name) == named(remotes.push(remote), name),
{
    let after = remotes.insert(at, remote);
    assert forall|i: int, j: int| 0 <= i < j < after.len() implies text_le(
        #[trigger] after[i].name,
        #[trigger] after[j].name,
    ) by {
        if i == at {
            text_le_total(remote.name, remotes[j - 1].name);
        } else if j != at {
            let first = if i < at {
                i
            } else {
                i - 1
            };
            let second = if j < at {
                j
            } else {
                j - 1
            };
            assert(after[i] == remotes[first] && after[j] == remotes[second]);
            assert(text_le(remotes[first].name, remotes[second].name));
        }
    }
    let head = remotes.take(at);
    let tail = remotes.skip(at);
    assert(after =~= head.push(remote) + tail);
    assert(remotes =~= head + tail);
    assert forall|name: Seq<char>| #[trigger] named(after, name) == named(remotes.push(remote), name) by {
        let has_name = |r: RemoteView| r.name == name;
        Seq::filter_distributes_over_add(head.push(remote), tail, has_name);
        Seq::filter_distributes_over_add(head, tail, has_name);
        reveal(Seq::filter);
        assert(head.push(remote).drop_last() =~= head);
        assert(remotes.push(remote).drop_last() =~= remotes);
        if remote.name == name {
            assert forall|i: int| 0 <= i < tail.len() implies !has_name(#[trigger] tail[i]) by {
                text_le_total(name, name);
                assert(tail[i] == remotes[at + i]);
            }
            tail.lemma_all_neg_filter_empty(has_name);
            assert(tail.filter(has_name) =~= seq![]);
        }
    }
}

/// Remotes that agree name by name still do with one more at their ends.
proof fn lemma_pushed(first: Seq<RemoteView>, second: Seq<RemoteView>, remote: RemoteView)
    requires
        forall|name: Seq<char>| #[trigger] named(first, name) == named(second, name),
    ensures
        forall|name: Seq<char>| #[trigger]
            named(first.push(remote), name) == named(second.push(remote), name),
{
    reveal(Seq::filter);
    assert(first.push(remote).drop_last() =~= first);
    assert(second.push(remote).drop_last() =~= second);
    assert forall|name: Seq<char>| #[trigger]
        named(first.push(remote), name) == named(second.push(remote), name) by {
        assert(named(first, name) == named(second, name));
    }
}

/// Puts `remote` behind the remotes of names up to its own.
fn insert_by_name(remotes: &mut Vec<GitRemote>, remote: GitRemote)
    requires
        ordered_by_name(remote_views(old(remotes)@)),
    ensures
        sorted_by_name(
            remote_views(final(remotes)@),
            remote_views(old(remotes)@).push(remote@),
        ),
{
    let ghost before = remote_views(remotes@);
    let mut at: usize = remotes.len();
    while 0 < at && !in_order(remotes[at - 1].name.as_str(), remote.name.as_str())
        invariant
            at <= remotes@.len(),
            before == remote_views(remotes@),
            forall|i: int|
                at <= i < before.len() ==> !text_le(#[trigger] before[i].name, remote@.name),
        decreases at,
    {
        assert(before[at - 1] == remotes@[at - 1]@);
        at -= 1;
    }
    proof {
        assert forall|i: int| 0 <= i < at implies text_le(#[trigger] before[i].name, remote@.name) by {
            assert(before[at - 1] == remotes@[at - 1]@);
            if i < at - 1 {
                text_le_transitive(before[i].name, before[at - 1].name, remote@.name);
            }
        }
        lemma_inserted(before, at as int, remote@);
    }
    let ghost added = remote@;
    remotes.insert(at, remote);
    assert(remote_views(remotes@) =~= before.insert(at as int, added));
}

/// The remotes among `entries` that have a URL, by name, or the message for the
/// first entry that could not be read.
fn sort_remotes(entries: Vec<RemoteEntry>) -> (r: Result<Vec<GitRemote>, Failure>)
    ensures
        match remotes_with_url(entries@) {
            Ok(remotes) => r is Ok && sorted_by_name(remote_views(r->Ok_0@), remotes),
            Err(failure) => r is Err && r->Err_0@ == failure,
        },
{
    let mut remotes: Vec<GitRemote> = Vec::new();
    let ghost mut kept: Seq<RemoteView> = seq![];
    let mut at: usize = 0;
    proof {
        assert(entries@.skip(0) =~= entries@);
        assert(remote_views(remotes@) =~= kept);
    }
    while at < entries.len()
        invariant
            at <= entries@.len(),
            sorted_by_name(remote_views(remotes@), kept),
            remotes_with_url(entries@) == match remotes_with_url(entries@.skip(at as int)) {
                Ok(rest) => Ok::<Seq<RemoteView>, FailureView>(kept + rest),
                Err(failure) => Err(failure),
            },
        decreases entries.len() - at,
    {
        let ghost rest = entries@.skip(at as int);
        assert(rest.drop_first() =~= entries@.skip(at + 1));
        assert(rest[0] == entries@[at as int]);
        match &entries[at] {
            RemoteEntry::NoName(cause) => {
                return Err(Failure::new("reading remote name", cause.clone()));
            },
            RemoteEntry::NoRemote { name, cause } => {
                let mut message = "reading remote '".to_owned();
                message.append(name.as_str());
                message.append("'");
                return Err(Failure::new(message.as_str(), cause.clone()));
            },
            RemoteEntry::Unnamed | RemoteEntry::WithoutUrl { .. } => {},
            RemoteEntry::WithUrl(remote) => {
                let copy = GitRemote { name: remote.name.clone(), url: remote.url.clone() };
                let ghost before = remote_views(remotes@);
                insert_by_name(&mut remotes, copy);
                proof {
                    lemma_pushed(before, kept, remote@);
                    assert forall|more: Seq<RemoteView>| #[trigger]
                        (kept + (seq![remote@] + more)) == kept.push(remote@) + more by {
                        assert(kept + (seq![remote@] + more) =~= kept.push(remote@) + more);
                    }
                    kept = kept.push(remote@);
                }
            },
        }
        at += 1;
    }
    proof {
        assert(entries@.skip(at as int) =~= seq![]);
        assert(kept + Seq::<RemoteView>::empty() =~= kept);
    }
    Ok(remotes)
}

/// The remotes of a repository that have a URL, by name, or why they cannot be
/// told.
pub fn get_remotes(listing: RemoteListing) -> (r: Result<Vec<GitRemote>, Failure>)
    ensures
        match listing {
            RemoteListing::NotOpened(cause) => r is Err && r->Err_0@ == because(
                "opening repository"@,
                cause@,
            ),
            RemoteListing::NotListed(cause) => r is Err && r->Err_0@ == because(
                "listing remotes"@,
                cause@,
            ),
            RemoteListing::Entries(entries) => match remotes_with_url(entries@) {
                Ok(remotes) => r is Ok && sorted_by_name(remote_views(r->Ok_0@), remotes),
                Err(failure) => r is Err && r->Err_0@ == failure,
            },
        },
{
    match listing {
        RemoteListing::NotOpened(cause) => Err(Failure::new("opening repository", cause)),
        RemoteListing::NotListed(cause) => Err(Failure::new("listing remotes", cause)),
        RemoteListing::Entries(entries) => sort_remotes(entries),
    }
}

/// The last of some ordered remotes is the last of its name, and the remotes of
/// any name in another ordered list are up to the last there.
proof fn lemma_last(remotes: Seq<RemoteView>, other: Seq<RemoteView>)
    requires
        remotes.len() > 0,
        ordered_by_name(other),
        named(remotes, remotes.last().name) == named(other, remotes.last().name),
    ensures
        other.len() > 0,
        named(remotes, remotes.last().name).len() > 0,
        named(remotes, remotes.last().name).last() == remotes.last(),
        text_le(remotes.last().name, other.last().name),
{
    let name = remotes.last().name;
    let has_name = |r: RemoteView| r.name == name;
    reveal(Seq::filter);
    assert(named(other, name).last() == remotes.last());
    assert(other.filter(has_name).contains(remotes.last()));
    other.lemma_filter_contains_rev(has_name, remotes.last());
    assert(other.contains(remotes.last()));
    let at = choose|i: int| 0 <= i < other.len() && other[i] == remotes.last();
    text_le_total(name, name);
    assert(text_le(other[at].name, other.last().name));
}

/// Remotes in the order of their names are told by those of each name.
proof fn lemma_order_is_unique(first: Seq<RemoteView>, second: Seq<RemoteView>)
    requires
        ordered_by_name(first),
        ordered_by_name(second),
        forall|name: Seq<char>| #[trigger] named(first, name) == named(second, name),
    ensures
        first == second,
    decreases first.len(),
{
    if first.len() == 0 {
        if second.len() > 0 {
            lemma_last(second, first);
        }
        assert(first =~= second);
    } else {
        lemma_last(first, second);
        lemma_last(second, first);
        text_le_antisymmetric(first.last().name, second.last().name);
        assert(named(first, first.last().name) == named(second, first.last().name));
        assert(first.last() == second.last());
        let last = first.last();
        let head = first.drop_last();
        let other = second.drop_last();
        assert forall|name: Seq<char>| #[trigger] named(head, name) == named(other, name) by {
            reveal(Seq::filter);
            assert(named(first, name) == named(second, name));
            if last.name == name {
                assert(named(first, name) == named(head, name).push(last));
                assert(named(second, name) == named(other, name).push(last));
                assert(named(head, name) =~= named(first, name).drop_last());
                assert(named(other, name) =~= named(second, name).drop_last());
            }
        }
        lemma_order_is_unique(head, other);
        assert(first =~= head.push(last));
        assert(second =~= other.push(last));
    }
}

/// The order of the list does not show in the result: two lists that hold the
/// same remotes of each name in the same order are sorted alike.
pub proof fn law_remotes_are_listed_alike(
    first: Seq<RemoteView>,
    second: Seq<RemoteView>,
    first_sorted: Seq<RemoteView>,
    second_sorted: Seq<RemoteView>,
)
    requires
        forall|name: Seq<char>| #[trigger] named(first, name) == named(second, name),
        sorted_by_name(first_sorted, first),
        sorted_by_name(second_sorted, second),
    ensures
        first_sorted == second_sorted,
{
    assert forall|name: Seq<char>| #[trigger]
        named(first_sorted, name) == named(second_sorted, name) by {
        assert(named(first, name) == named(second, name));
    }
    lemma_order_is_unique(first_sorted, second_sorted);
}

/// Nothing but separators is taken off the end of a root, and all of them, except
/// that of separators alone one stays: a path that does not end in one is its own
/// root.
pub proof fn law_roots_lose_only_separators(path: Seq<char>, separator: char)
    ensures
        root_of(path, separator).is_prefix_of(path),
        forall|i: int|
            root_of(path, separator).len() <= i < path.len() ==> #[trigger] path[i] == separator,
        root_of(path, separator).len() == 0 <==> path.len() == 0,
        path.len() > 0 && path.last() != separator ==> root_of(path, separator) == path,
        root_of(path, separator).len() > 1 ==> root_of(path, separator).last() != separator,
        root_of(path, separator).len() == 1 && root_of(path, separator)[0] == separator <==> path.len()
            > 0 && forall|i: int| 0 <= i < path.len() ==> #[trigger] path[i] == separator,
{
    let cut = trimmed_end_of(path, separator);
    lemma_trimmed_end_of(path, separator);
    let root = root_of(path, separator);
    if cut.len() == 0 && path.len() > 0 {
        assert(path[0] == separator);
        assert(root =~= path.take(1));
    }
    if path.len() > 0 && path.last() != separator {
        assert(path[path.len() - 1] != separator);
        assert(cut =~= path);
    }
    if cut.len() > 0 {
        assert(path[cut.len() - 1] == cut.last());
    }
}

/// The repository of the current directory has a root exactly if it has a working
/// tree; and whatever else was found is told with the directory and the whole
/// cause.
pub proof fn law_only_working_trees_have_roots(
    path: String,
    cwd: String,
    cause: String,
    separator: char,
)
    ensures
        repo_root(Discovery::WorkingTree(path), separator) == Ok::<Seq<char>, FailureView>(
            root_of(path@, separator),
        ),
        repo_root(Discovery::NoCurrentDirectory(cause), separator) == Err::<
            Seq<char>,
            FailureView,
        >(FailureView { message: "failed to get current directory"@, cause: Some(cause@) }),
        repo_root(Discovery::NoRepository { cwd, cause }, separator) == Err::<
            Seq<char>,
            FailureView,
        >(
            FailureView {
                message: "not inside a git repository: "@ + cwd@,
                cause: Some(cause@),
            },
        ),
        repo_root(Discovery::Bare, separator) == Err::<Seq<char>, FailureView>(
            FailureView {
                message: "cannot use rumpel in a bare git repository (needs a working tree)"@,
                cause: None,
            },
        ),
{
}

/// The remotes of two lists, one behind the other, are those of the first and then
/// those of the second, and the first entry that could not be read fails both. An
/// entry with a URL is kept as it is, one without a name or a URL is passed over,
/// and one that could not be read is told with its name and the whole cause.
pub proof fn law_entries_are_kept_in_their_order(
    first: Seq<RemoteEntry>,
    second: Seq<RemoteEntry>,
    remote: GitRemote,
    name: String,
    cause: String,
)
    ensures
        remotes_with_url(first + second) == match remotes_with_url(first) {
            Ok(before) => match remotes_with_url(second) {
                Ok(behind) => Ok::<Seq<RemoteView>, FailureView>(before + behind),
                Err(failure) => Err(failure),
            },
            Err(failure) => Err(failure),
        },
        remotes_with_url(seq![]) == Ok::<Seq<RemoteView>, FailureView>(seq![]),
        remotes_with_url(seq![RemoteEntry::WithUrl(remote)]) == Ok::<Seq<RemoteView>, FailureView>(
            seq![RemoteView { name: remote.name@, url: remote.url@ }],
        ),
        remotes_with_url(seq![RemoteEntry::Unnamed]) == Ok::<Seq<RemoteView>, FailureView>(seq![]),
        remotes_with_url(seq![RemoteEntry::WithoutUrl { name }]) == Ok::<
            Seq<RemoteView>,
            FailureView,
        >(seq![]),
        remotes_with_url(seq![RemoteEntry::NoName(cause)]) == Err::<Seq<RemoteView>, FailureView>(
            FailureView { message: "reading remote name"@, cause: Some(cause@) },
        ),
        remotes_with_url(seq![RemoteEntry::NoRemote { name, cause }]) == Err::<
            Seq<RemoteView>,
            FailureView,
        >(
            FailureView {
                message: "reading remote '"@ + name@ + "'"@,
                cause: Some(cause@),
            },
        ),
    decreases first.len(),
{
    reveal_with_fuel(remotes_with_url, 2);
    let kept = seq![RemoteEntry::WithUrl(remote)];
    assert(kept.drop_first() =~= seq![]);
    assert(seq![remote@] + Seq::<RemoteView>::empty() =~= seq![remote@]);
    assert(seq![RemoteEntry::Unnamed].drop_first() =~= seq![]);
    assert(seq![RemoteEntry::WithoutUrl { name }].drop_first() =~= seq![]);
    if first.len() == 0 {
        assert(first + second =~= second);
        if let Ok(behind) = remotes_with_url(second) {
            assert(Seq::<RemoteView>::empty() + behind =~= behind);
        }
    } else {
        law_entries_are_kept_in_their_order(first.drop_first(), second, remote, name, cause);
        assert((first + second).drop_first() =~= first.drop_first() + second);
        assert((first + second)[0] == first[0]);
        if let RemoteEntry::WithUrl(kept) = first[0] {
            if let Ok(before) = remotes_with_url(first.drop_first()) {
                if let Ok(behind) = remotes_with_url(second) {
                    assert(seq![kept@] + (before + behind) =~= (seq![kept@] + before) + behind);
                }
            }
        }
    }
}

/// Sorting keeps every remote and adds none, orders them by name, and leaves those
/// of one name in the order they had.
pub proof fn law_sorting_keeps_the_remotes(
    sorted: Seq<RemoteView>,
    remotes: Seq<RemoteView>,
    name: Seq<char>,
    remote: RemoteView,
)
    requires
        sorted_by_name(sorted, remotes),
    ensures
        forall|i: int, j: int|
            0 <= i < j < sorted.len() ==> text_le(#[trigger] sorted[i].name, #[trigger] sorted[j].name),
        sorted.filter(|r: RemoteView| r.name == name) == remotes.filter(
            |r: RemoteView| r.name == name,
        ),
        sorted.contains(remote) <==> remotes.contains(remote),
{
    let has_name = |r: RemoteView| r.name == name;
    assert(named(sorted, name) == named(remotes, name));
    let its_name = |r: RemoteView| r.name == remote.name;
    assert(named(sorted, remote.name) == named(remotes, remote.name));
    assert(sorted.filter(its_name) == remotes.filter(its_name));
    if sorted.contains(remote) {
        let i = choose|i: int| 0 <= i < sorted.len() && sorted[i] == remote;
        sorted.lemma_filter_contains(its_name, i);
        remotes.lemma_filter_contains_rev(its_name, remote);
    }
    if remotes.contains(remote) {
        let i = choose|i: int| 0 <= i < remotes.len() && remotes[i] == remote;
        remotes.lemma_filter_contains(its_name, i);
        sorted.lemma_filter_contains_rev(its_name, remote);
    }
}

/// Remotes are viewed with all that they hold.
pub proof fn law_remotes_are_viewed_whole(remotes: Seq<GitRemote>)
    ensures
        remote_views(remotes).len() == remotes.len(),
        forall|i: int|
            0 <= i < remotes.len() ==> (#[trigger] remote_views(remotes)[i]).name
                == remotes[i].name@ && remote_views(remotes)[i].url == remotes[i].url@,
{
}

/// The root of a working tree is its path but for the separators at the end; and
/// where there is no working tree, the failure keeps the whole cause.
pub proof fn law_found_roots_are_told(
    found: Discovery,
    separator: char,
    root: Result<String, Failure>,
)
    requires
        call_ensures(get_repo_root, (found, separator), root),
    ensures
        root is Ok <==> found is WorkingTree,
        found is WorkingTree ==> root->Ok_0@.is_prefix_of(found->WorkingTree_0@),
        found is WorkingTree ==> forall|i: int|
            root->Ok_0@.len() <= i < found->WorkingTree_0@.len()
                ==> #[trigger] found->WorkingTree_0@[i] == separator,
        found is NoCurrentDirectory ==> root->Err_0@.cause == Some(found->NoCurrentDirectory_0@),
        found is NoRepository ==> root->Err_0@.cause == Some(found->cause@),
        found is NoRepository ==> root->Err_0@.message == "not inside a git repository: "@
            + found->cwd@,
{
    if found is WorkingTree {
        law_roots_lose_only_separators(found->WorkingTree_0@, separator);
    }
}

/// A user is known as the configuration has it, name and email each on its own; and
/// a repository is on a branch exactly if its head is one whose name is text.
pub proof fn law_users_and_branches_are_told_as_they_are(
    config: Option<(Option<String>, Option<String>)>,
    identity: GitIdentity,
    head: Option<Head>,
    branch: Option<String>,
)
    requires
        call_ensures(get_git_user_config, (config,), identity),
        call_ensures(get_current_branch, (head,), branch),
    ensures
        identity.name is Some <==> config is Some && (config->0).0 is Some,
        identity.email is Some <==> config is Some && (config->0).1 is Some,
        identity.name is Some ==> identity.name->0@ == (config->0).0->0@,
        identity.email is Some ==> identity.email->0@ == (config->0).1->0@,
        branch is Some <==> head is Some && head->0.is_branch && head->0.shorthand is Some,
        branch is Some ==> branch->0@ == head->0.shorthand->0@,
{
}

/// The remotes that are told are ordered by name and are exactly those of the
/// listing that have a URL; a listing that failed is told with its whole cause.
pub proof fn law_remotes_are_told_by_name(
    listing: RemoteListing,
    told: Result<Vec<GitRemote>, Failure>,
    remote: GitRemote,
)
    requires
        call_ensures(get_remotes, (listing,), told),
    ensures
        listing is NotOpened ==> told is Err && told->Err_0@ == (FailureView {
            message: "opening repository"@,
            cause: Some(listing->NotOpened_0@),
        }),
        listing is NotListed ==> told is Err && told->Err_0@ == (FailureView {
            message: "listing remotes"@,
            cause: Some(listing->NotListed_0@),
        }),
        told is Ok ==> listing is Entries && remotes_with_url(listing->Entries_0@) is Ok,
        told is Ok ==> forall|i: int, j: int|
            0 <= i < j < told->Ok_0@.len() ==> text_le(
                #[trigger] told->Ok_0@[i].name@,
                #[trigger] told->Ok_0@[j].name@,
            ),
        told is Ok ==> (remote_views(told->Ok_0@).contains(remote@) <==> remotes_with_url(
            listing->Entries_0@,
        )->Ok_0.contains(remote@)),
{
    if told is Ok {
        let sorted = remote_views(told->Ok_0@);
        let kept = remotes_with_url(listing->Entries_0@)->Ok_0;
        law_sorting_keeps_the_remotes(sorted, kept, remote@.name, remote@);
        assert forall|i: int, j: int| 0 <= i < j < told->Ok_0@.len() implies text_le(
            #[trigger] told->Ok_0@[i].name@,
            #[trigger] told->Ok_0@[j].name@,
        ) by {
            assert(text_le(sorted[i].name, sorted[j].name));
        }
    }
}

} // verus!
