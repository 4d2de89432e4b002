//! Uploading Git LFS objects before the refs that need them.
//!
//! Two uploads exist: one for a single ref update, and one for all branches of
//! a pod. Both ask `git` one question after the other. An [`LfsUpload`] says
//! which question is open, and [`LfsUpload::step`] says what follows from the
//! answer.
use vstd::prelude::*;
use vstd::string::*;
use vstd::utf8::decode_utf8;
use vstd::utf8::valid_utf8;

use crate::command::law_commands_are_viewed_whole;
use crate::command::CommandLine;
use crate::command::CommandView;
use crate::command::Finished;
use crate::failure::because;
use crate::failure::plainly;
use crate::failure::Failure;
use crate::failure::FailureView;
use crate::outside::decode_lossy;
use crate::outside::decode_strict;
use crate::outside::lossy_text;
use crate::outside::utf8_fault;
use crate::text::chars_of;
use crate::text::contains;
use crate::text::contains_text;
use crate::text::find_from;
use crate::text::first_index;
use crate::text::in_order;
use crate::text::law_lines_end_at_line_feeds;
use crate::text::law_parts_are_found_anywhere;
use crate::text::lemma_first_index;
use crate::text::lines_of;
use crate::text::same_text;
use crate::text::split_lines;
use crate::text::text_le;
use crate::text::text_le_antisymmetric;
use crate::text::text_le_total;
use crate::text::text_le_transitive;
use crate::text::trim;
use crate::text::trimmed;

verus! {

/// The object name that stands for no object: the new value of a ref that is
/// deleted, and the old value of one that is created.
pub const ZERO_OID: &'static str = "0000000000000000000000000000000000000000";

/// The remote that a pod's branches are pushed to.
pub const POD_REMOTE: &'static str = "rumpelpod";

/// What `git lfs ls-files --json` prints.
#[derive(Debug)]
pub struct GitLfsLsFiles {
    pub files: Option<Vec<GitLfsFile>>,
}

/// A file in the listing of `git lfs ls-files`.
#[derive(Debug)]
pub struct GitLfsFile {
    pub oid: String,
}

impl View for GitLfsLsFiles {
    type V = Seq<Seq<char>>;

    /// The objects of the listed files, one for each file.
    open spec fn view(&self) -> Seq<Seq<char>> {
        match self.files {
            Some(files) => files@.map_values(|file: GitLfsFile| file.oid@),
            None => seq![],
        }
    }
}

/// `oids`, which are in order and distinct, with `oid` in its place.
pub open spec fn with_oid(oids: Seq<Seq<char>>, oid: Seq<char>) -> Seq<Seq<char>>
    decreases oids.len(),
{
    if oids.len() == 0 {
        seq![oid]
    } else if oids.last() == oid {
        oids
    } else if text_le(oids.last(), oid) {
        oids.push(oid)
    } else {
        with_oid(oids.drop_last(), oid).push(oids.last())
    }
}

/// The objects of `oids`, each once, in the order of their names.
pub open spec fn distinct_oids(oids: Seq<Seq<char>>) -> Seq<Seq<char>>
    decreases oids.len(),
{
    if oids.len() == 0 {
        seq![]
    } else {
        with_oid(distinct_oids(oids.drop_last()), oids.last())
    }
}

/// Whether each of `oids` comes before those behind it.
pub open spec fn strictly_ordered(oids: Seq<Seq<char>>) -> bool {
    forall|i: int, j: int|
        0 <= i < j < oids.len() ==> text_le(#[trigger] oids[i], #[trigger] oids[j]) && oids[i]
            != oids[j]
}

proof fn lemma_with_oid(oids: Seq<Seq<char>>, oid: Seq<char>)
    requires
        strictly_ordered(oids),
    ensures
        strictly_ordered(with_oid(oids, oid)),
        forall|x: Seq<char>| #[trigger]
            with_oid(oids, oid).contains(x) <==> oids.contains(x) || x == oid,
    decreases oids.len(),
{
    let after = with_oid(oids, oid);
    if oids.len() == 0 {
        assert(after[0] == oid);
    } else if oids.last() == oid {
        assert(oids[oids.len() - 1] == oid);
    } else if text_le(oids.last(), oid) {
        assert forall|i: int, j: int| 0 <= i < j < after.len() implies text_le(
            #[trigger] after[i],
            #[trigger] after[j],
        ) && after[i] != after[j] by {
            if j == oids.len() && i < oids.len() - 1 {
                text_le_transitive(oids[i], oids.last(), oid);
                if oids[i] == oid {
                    text_le_antisymmetric(oids.last(), oid);
                }
            }
        }
        assert forall|x: Seq<char>| #[trigger] after.contains(x) <==> oids.contains(x) || x
            == oid by {
            assert(after[oids.len() as int] == oid);
            if oids.contains(x) {
                let i = choose|i: int| 0 <= i < oids.len() && oids[i] == x;
                assert(after[i] == x);
            }
        }
    } else {
        let head = oids.drop_last();
        let inner = with_oid(head, oid);
        lemma_with_oid(head, oid);
        text_le_total(oids.last(), oid);
        assert forall|i: int, j: int| 0 <= i < j < after.len() implies text_le(
            #[trigger] after[i],
            #[trigger] after[j],
        ) && after[i] != after[j] by {
            if j == after.len() - 1 {
                assert(inner.contains(inner[i]));
                if head.contains(after[i]) {
                    let k = choose|k: int| 0 <= k < head.len() && head[k] == after[i];
                    assert(oids[k] == after[i]);
                }
            }
        }
        assert forall|x: Seq<char>| #[trigger] after.contains(x) <==> oids.contains(x) || x
            == oid by {
            assert(after[after.len() - 1] == oids.last());
            assert(oids[oids.len() - 1] == oids.last());
            if inner.contains(x) {
                let i = choose|i: int| 0 <= i < inner.len() && inner[i] == x;
                assert(after[i] == x);
            }
            if head.contains(x) {
                let i = choose|i: int| 0 <= i < head.len() && head[i] == x;
                assert(oids[i] == x);
            }
            if after.contains(x) && x != oids.last() {
                let i = choose|i: int| 0 <= i < after.len() && after[i] == x;
                assert(inner[i] == x);
            }
            if oids.contains(x) && x != oids.last() {
                let i = choose|i: int| 0 <= i < oids.len() && oids[i] == x;
                assert(head[i] == x);
            }
        }
    }
}

/// The objects to upload are those of the listed files, each exactly once, in
/// the order of their names.
pub proof fn law_each_object_is_uploaded_once(oids: Seq<Seq<char>>)
    ensures
        strictly_ordered(distinct_oids(oids)),
        forall|i: int, j: int|
            0 <= i < j < distinct_oids(oids).len() ==> text_le(
                #[trigger] distinct_oids(oids)[i],
                #[trigger] distinct_oids(oids)[j],
            ) && distinct_oids(oids)[i] != distinct_oids(oids)[j],
        forall|oid: Seq<char>| #[trigger] distinct_oids(oids).contains(oid) <==> oids.contains(oid),
    decreases oids.len(),
{
    if oids.len() > 0 {
        let head = oids.drop_last();
        law_each_object_is_uploaded_once(head);
        lemma_with_oid(distinct_oids(head), oids.last());
        assert forall|oid: Seq<char>| #[trigger] distinct_oids(oids).contains(oid) <==> oids.contains(
            oid,
        ) by {
            assert(distinct_oids(head).contains(oid) <==> head.contains(oid));
            assert(oids[oids.len() - 1] == oids.last());
            if head.contains(oid) {
                let i = choose|i: int| 0 <= i < head.len() && head[i] == oid;
                assert(oids[i] == oid);
            }
            if oids.contains(oid) && oid != oids.last() {
                let i = choose|i: int| 0 <= i < oids.len() && oids[i] == oid;
                assert(head[i] == oid);
            }
        }
    }
}

/// Puts `oid` in its place among `oids`, unless it is there.
fn insert_oid(oids: &mut Vec<String>, oid: String)
    ensures
        final(oids).deep_view() == with_oid(old(oids).deep_view(), oid@),
{
    let ghost before = oids.deep_view();
    let mut at: usize = oids.len();
    assert(before.take(at as int) =~= before);
    assert(before.skip(at as int) =~= seq![]);
    assert(with_oid(before, oid@) + seq![] =~= with_oid(before, oid@));
    while 0 < at && !in_order(oids[at - 1].as_str(), oid.as_str())
        invariant
            before == oids.deep_view(),
            at <= oids@.len(),
            with_oid(before, oid@) == with_oid(before.take(at as int), oid@) + before.skip(
                at as int,
            ),
        decreases at,
    {
        proof {
            text_le_total(oid@, oid@);
            let head = before.take(at as int);
            assert(head.drop_last() =~= before.take(at - 1));
            assert(with_oid(head, oid@) + before.skip(at as int) =~= with_oid(
                before.take(at - 1),
                oid@,
            ) + before.skip(at - 1));
        }
        at -= 1;
    }
    if 0 < at && same_text(oids[at - 1].as_str(), oid.as_str()) {
        assert(before.take(at as int) + before.skip(at as int) =~= before);
        return ;
    }
    let ghost added = oid@;
    oids.insert(at, oid);
    proof {
        assert(oids.deep_view() =~= before.insert(at as int, added));
        assert(before.insert(at as int, added) =~= before.take(at as int).push(added) + before.skip(
            at as int,
        ));
        if at == 0 {
            assert(before.take(0).push(added) =~= seq![added]);
        }
    }
}

/// The objects to upload for a ref update, by the files that changed with it.
pub fn lfs_oids_for_ref_update(listing: GitLfsLsFiles) -> (r: Vec<String>)
    ensures
        r.deep_view() == distinct_oids(listing@),
{
    let mut oids: Vec<String> = Vec::new();
    let files = match listing.files {
        Some(files) => files,
        None => {
            return oids;
        },
    };
    let ghost listed = files@.map_values(|file: GitLfsFile| file.oid@);
    let mut at: usize = 0;
    while at < files.len()
        invariant
            listed == files@.map_values(|file: GitLfsFile| file.oid@),
            at <= files@.len(),
            oids.deep_view() == distinct_oids(listed.take(at as int)),
        decreases files.len() - at,
    {
        insert_oid(&mut oids, files[at].oid.clone());
        assert(listed.take(at + 1).drop_last() =~= listed.take(at as int));
        at += 1;
    }
    assert(listed.take(at as int) =~= listed);
    oids
}

/// A call of `git` with `args`.
pub open spec fn git(args: Seq<Seq<char>>) -> CommandView {
    CommandView { program: "git"@, args }
}

/// Asks for the version of Git LFS.
pub open spec fn version_command() -> CommandView {
    git(seq!["lfs"@, "version"@])
}

/// Lists the local branches, each with its head and its upstream.
pub open spec fn branches_command() -> CommandView {
    git(
        seq![
            "for-each-ref"@,
            "--format=%(refname:lstrip=2)%09%(objectname)%09%(upstream)"@,
            "refs/heads/"@,
        ],
    )
}

/// Resolves `refname`.
pub open spec fn rev_parse_command(refname: Seq<char>) -> CommandView {
    git(seq!["rev-parse"@, "--verify"@, "--quiet"@, refname])
}

/// Whether the files of an update are listed against its old value: not where
/// the ref is new, nor where it stays as it is.
pub open spec fn is_base(oldvalue: Seq<char>, newvalue: Seq<char>) -> bool {
    oldvalue != ZERO_OID@ && oldvalue != newvalue
}

/// Lists the LFS files that changed between `oldvalue` and `newvalue`, or all of
/// `newvalue` where there is nothing to compare with.
pub open spec fn ls_files_command(
    oldvalue: Option<Seq<char>>,
    newvalue: Seq<char>,
) -> CommandView {
    let options = seq!["lfs"@, "ls-files"@, "--json"@, "-l"@];
    match oldvalue {
        Some(oldvalue) => if is_base(oldvalue, newvalue) {
            git(options + seq![oldvalue, newvalue])
        } else {
            git(options + seq![newvalue])
        },
        None => git(options + seq![newvalue]),
    }
}

/// Uploads the objects that are named on the command's input to `remote`.
pub open spec fn push_command(remote: Seq<char>) -> CommandView {
    git(seq!["lfs"@, "push"@, "--object-id"@, remote, "--stdin"@])
}

/// `oids`, each on a line of its own.
pub open spec fn push_input(oids: Seq<Seq<char>>) -> Seq<char>
    decreases oids.len(),
{
    if oids.len() == 0 {
        seq![]
    } else {
        push_input(oids.drop_last()) + (oids.last() + "\n"@)
    }
}

fn new_git(args: Vec<String>) -> (r: CommandLine)
    ensures
        r@ == git(args.deep_view()),
{
    CommandLine { program: "git".to_owned(), args }
}

fn new_version_command() -> (r: CommandLine)
    ensures
        r@ == version_command(),
{
    let mut args: Vec<String> = Vec::new();
    args.push("lfs".to_owned());
    args.push("version".to_owned());
    assert(args.deep_view() =~= version_command().args);
    new_git(args)
}

fn new_branches_command() -> (r: CommandLine)
    ensures
        r@ == branches_command(),
{
    let mut args: Vec<String> = Vec::new();
    args.push("for-each-ref".to_owned());
    args.push("--format=%(refname:lstrip=2)%09%(objectname)%09%(upstream)".to_owned());
    args.push("refs/heads/".to_owned());
    assert(args.deep_view() =~= branches_command().args);
    new_git(args)
}

fn new_rev_parse_command(refname: &str) -> (r: CommandLine)
    ensures
        r@ == rev_parse_command(refname@),
{
    let mut args: Vec<String> = Vec::new();
    args.push("rev-parse".to_owned());
    args.push("--verify".to_owned());
    args.push("--quiet".to_owned());
    args.push(refname.to_owned());
    assert(args.deep_view() =~= rev_parse_command(refname@).args);
    new_git(args)
}

fn new_ls_files_command(oldvalue: &Option<String>, newvalue: &str) -> (r: CommandLine)
    ensures
        r@ == ls_files_command(oldvalue.deep_view(), newvalue@),
{
    let mut args: Vec<String> = Vec::new();
    args.push("lfs".to_owned());
    args.push("ls-files".to_owned());
    args.push("--json".to_owned());
    args.push("-l".to_owned());
    match oldvalue {
        Some(oldvalue) => {
            if !same_text(oldvalue.as_str(), ZERO_OID) && !same_text(oldvalue.as_str(), newvalue) {
                args.push(oldvalue.clone());
            }
        },
        None => {},
    }
    args.push(newvalue.to_owned());
    assert(args.deep_view() =~= ls_files_command(oldvalue.deep_view(), newvalue@).args);
    new_git(args)
}

fn new_push_command(remote: &str) -> (r: CommandLine)
    ensures
        r@ == push_command(remote@),
{
    let mut args: Vec<String> = Vec::new();
    args.push("lfs".to_owned());
    args.push("push".to_owned());
    args.push("--object-id".to_owned());
    args.push(remote.to_owned());
    args.push("--stdin".to_owned());
    assert(args.deep_view() =~= push_command(remote@).args);
    new_git(args)
}

fn new_push_input(oids: &Vec<String>) -> (r: String)
    ensures
        r@ == push_input(oids.deep_view()),
{
    let mut input = String::new();
    let mut at: usize = 0;
    while at < oids.len()
        invariant
            at <= oids@.len(),
            input@ == push_input(oids.deep_view().take(at as int)),
        decreases oids.len() - at,
    {
        let ghost before = input@;
        input.append(oids[at].as_str());
        input.append("\n");
        proof {
            let taken = oids.deep_view().take(at + 1);
            assert(taken.drop_last() =~= oids.deep_view().take(at as int));
            assert(taken.last() == oids@[at as int]@);
            assert(input@ =~= before + (taken.last() + "\n"@));
        }
        at += 1;
    }
    assert(oids.deep_view().take(at as int) =~= oids.deep_view());
    input
}

/// How a command ended, by what the decisions here depend on.
pub struct AnswerView {
    pub code: Option<i32>,
    pub stdout: Seq<u8>,
    pub stderr: Seq<u8>,
}

/// What the decisions here see of a finished command.
pub open spec fn answer(finished: Finished) -> AnswerView {
    AnswerView { code: finished.code, stdout: finished.stdout@, stderr: finished.stderr@ }
}

/// Whether Git LFS is there, by whether asking for its version succeeded and by
/// what `git` complained of. That `git` does not know the command says that it
/// is not there; any other failure is one.
pub open spec fn availability_of(success: bool, stderr: Seq<char>) -> Result<bool, FailureView> {
    if success {
        Ok(true)
    } else if contains_text(stderr, "is not a git command"@) {
        Ok(false)
    } else {
        Err(plainly("git lfs version failed: "@ + stderr))
    }
}

/// Whether Git LFS is there, by the answer to [`version_command`].
pub open spec fn lfs_availability(answer: AnswerView) -> Result<bool, FailureView> {
    availability_of(answer.code == Some(0i32), lossy_text(answer.stderr))
}

/// Whether Git LFS is there, by whether asking for its version succeeded and by
/// what `git` complained of.
pub fn lfs_answers(success: bool, stderr: &str) -> (r: Result<bool, Failure>)
    ensures
        match availability_of(success, stderr@) {
            Ok(available) => r == Ok::<bool, Failure>(available),
            Err(failure) => r is Err && r->Err_0@ == failure,
        },
{
    if success {
        Ok(true)
    } else if contains(stderr, "is not a git command") {
        Ok(false)
    } else {
        Err(Failure::plain("git lfs version failed: ".to_owned().concat(stderr)))
    }
}

/// Whether Git LFS is there, by how asking for its version ended.
pub fn git_lfs_available(finished: &Finished) -> (r: Result<bool, Failure>)
    ensures
        match lfs_availability(answer(*finished)) {
            Ok(available) => r == Ok::<bool, Failure>(available),
            Err(failure) => r is Err && r->Err_0@ == failure,
        },
{
    lfs_answers(finished.success(), decode_lossy(finished.stderr.as_slice()).as_str())
}

/// A local branch.
#[derive(Debug)]
pub struct BranchHead {
    pub branch: String,
    /// The object that the branch points to.
    pub head: String,
    /// The ref that the branch follows, if any.
    pub upstream: Option<String>,
}

/// A [`BranchHead`] with its text as characters.
pub struct BranchView {
    pub branch: Seq<char>,
    pub head: Seq<char>,
    pub upstream: Option<Seq<char>>,
}

impl View for BranchHead {
    type V = BranchView;

    open spec fn view(&self) -> BranchView {
        BranchView {
            branch: self.branch@,
            head: self.head@,
            upstream: self.upstream.deep_view(),
        }
    }
}

/// The branches with their text as characters.
pub open spec fn branch_views(branches: Seq<BranchHead>) -> Seq<BranchView> {
    branches.map_values(|branch: BranchHead| branch@)
}

/// The branch that a line of the listing is about: its name, its head and its
/// upstream, divided by tabs, of which the last may hold more tabs and may be
/// empty. `None` where the line has fewer than two tabs.
pub open spec fn branch_of(line: Seq<char>) -> Option<BranchView> {
    let first = first_index(line, '\t') as int;
    let rest = line.skip(first + 1);
    let second = first_index(rest, '\t') as int;
    if first >= line.len() || second >= rest.len() {
        None
    } else {
        let upstream = rest.skip(second + 1);
        Some(
            BranchView {
                branch: line.take(first),
                head: rest.take(second),
                upstream: if upstream.len() == 0 {
                    None
                } else {
                    Some(upstream)
                },
            },
        )
    }
}

/// The branches that `lines` are about, or the first line that is about none.
pub open spec fn branches_of(lines: Seq<Seq<char>>) -> Result<Seq<BranchView>, Seq<char>>
    decreases lines.len(),
{
    if lines.len() == 0 {
        Ok(seq![])
    } else {
        match branch_of(lines[0]) {
            Some(branch) => match branches_of(lines.drop_first()) {
                Ok(rest) => Ok(seq![branch] + rest),
                Err(line) => Err(line),
            },
            None => Err(lines[0]),
        }
    }
}

/// The branches that a listing names, or the message for a line that names none.
pub open spec fn branches_listed(listing: Seq<char>) -> Result<Seq<BranchView>, FailureView> {
    match branches_of(lines_of(listing)) {
        Ok(branches) => Ok(branches),
        Err(line) => Err(plainly("git for-each-ref returned malformed line: "@ + line)),
    }
}

/// The local branches, by the answer to [`branches_command`].
pub open spec fn listed_branches(answer: AnswerView) -> Result<Seq<BranchView>, FailureView> {
    if answer.code != Some(0i32) {
        Err(plainly("git for-each-ref failed: "@ + lossy_text(answer.stderr)))
    } else if !valid_utf8(answer.stdout) {
        Err(because("branch listing was not UTF-8"@, utf8_fault(answer.stdout)))
    } else {
        branches_listed(decode_utf8(answer.stdout))
    }
}

/// A line without two tabs is about no branch, and one with them is divided at the
/// first two.
proof fn lemma_divided(line: Seq<char>, first: int, second: int)
    requires
        first == first_index(line, '\t'),
        first < line.len() ==> second == first + 1 + first_index(line.skip(first + 1), '\t'),
    ensures
        first >= line.len() ==> branch_of(line) is None,
        first < line.len() && second >= line.len() ==> branch_of(line) is None,
        first < line.len() && second < line.len() ==> branch_of(line) == Some(
            BranchView {
                branch: line.subrange(0, first),
                head: line.subrange(first + 1, second),
                upstream: if second + 1 == line.len() {
                    None
                } else {
                    Some(line.subrange(second + 1, line.len() as int))
                },
            },
        ),
{
    if first < line.len() && second < line.len() {
        let rest = line.skip(first + 1);
        let at = second - first - 1;
        assert(line.take(first) =~= line.subrange(0, first));
        assert(rest.take(at) =~= line.subrange(first + 1, second));
        assert(rest.skip(at + 1) =~= line.subrange(second + 1, line.len() as int));
    }
}

fn read_branch(line: &str) -> (r: Option<BranchHead>)
    ensures
        r is Some <==> branch_of(line@) is Some,
        r is Some ==> Some(r->0@) == branch_of(line@),
{
    let chars = chars_of(line);
    let n: usize = chars.len();
    let first: usize = find_from(&chars, 0, '\t');
    proof {
        assert(line@.skip(0) =~= line@);
    }
    if first == n {
        proof {
            lemma_divided(line@, first as int, first as int);
        }
        return None;
    }
    let second: usize = find_from(&chars, first + 1, '\t');
    proof {
        lemma_divided(line@, first as int, second as int);
    }
    if second == n {
        return None;
    }
    let upstream = if second + 1 == n {
        None
    } else {
        Some(line.substring_char(second + 1, n).to_owned())
    };
    Some(
        BranchHead {
            branch: line.substring_char(0, first).to_owned(),
            head: line.substring_char(first + 1, second).to_owned(),
            upstream,
        },
    )
}

/// The local branches, each with its head and its upstream, by how listing them
/// ended.
pub fn local_branch_heads(finished: Finished) -> (r: Result<Vec<BranchHead>, Failure>)
    ensures
        match listed_branches(answer(finished)) {
            Ok(branches) => r is Ok && branch_views(r->Ok_0@) == branches,
            Err(failure) => r is Err && r->Err_0@ == failure,
        },
{
    if !finished.success() {
        return Err(
            Failure::plain(
                "git for-each-ref failed: ".to_owned().concat(
                    decode_lossy(finished.stderr.as_slice()).as_str(),
                ),
            ),
        );
    }
    let listing = match decode_strict(finished.stdout) {
        Ok(listing) => listing,
        Err(cause) => {
            return Err(Failure::new("branch listing was not UTF-8", cause));
        },
    };
    parse_branches(listing.as_str())
}

/// The branches that a listing names, each with its head and its upstream.
pub fn parse_branches(listing: &str) -> (r: Result<Vec<BranchHead>, Failure>)
    ensures
        match branches_listed(listing@) {
            Ok(branches) => r is Ok && branch_views(r->Ok_0@) == branches,
            Err(failure) => r is Err && r->Err_0@ == failure,
        },
{
    let lines = split_lines(listing);
    match read_branches(&lines) {
        Ok(branches) => Ok(branches),
        Err(line) => Err(
            Failure::plain(
                "git for-each-ref returned malformed line: ".to_owned().concat(line.as_str()),
            ),
        ),
    }
}

fn read_branches(lines: &Vec<String>) -> (r: Result<Vec<BranchHead>, String>)
    ensures
        match branches_of(lines.deep_view()) {
            Ok(branches) => r is Ok && branch_views(r->Ok_0@) == branches,
            Err(line) => r is Err && r->Err_0@ == line,
        },
{
    let ghost all = lines.deep_view();
    let mut branches: Vec<BranchHead> = Vec::new();
    let mut at: usize = 0;
    proof {
        assert(all.skip(0) =~= all);
        assert(branch_views(branches@) =~= seq![]);
        assert forall|rest: Seq<BranchView>| #[trigger] (branch_views(branches@) + rest) == rest by {
            assert(branch_views(branches@) + rest =~= rest);
        }
    }
    while at < lines.len()
        invariant
            all == lines.deep_view(),
            at <= lines@.len(),
            branches_of(all) == match branches_of(all.skip(at as int)) {
                Ok(rest) => Ok::<Seq<BranchView>, Seq<char>>(branch_views(branches@) + rest),
                Err(line) => Err(line),
            },
        decreases lines.len() - at,
    {
        let ghost before = branch_views(branches@);
        assert(all.skip(at as int)[0] == lines@[at as int]@);
        assert(all.skip(at as int).drop_first() =~= all.skip(at + 1));
        match read_branch(lines[at].as_str()) {
            Some(branch) => {
                let ghost added = branch@;
                branches.push(branch);
                proof {
                    assert(branch_views(branches@) =~= before.push(added));
                    assert forall|rest: Seq<BranchView>| #[trigger]
                        (before + (seq![added] + rest)) == branch_views(branches@) + rest by {
                        assert(before + (seq![added] + rest) =~= before.push(added) + rest);
                    }
                }
            },
            None => {
                return Err(lines[at].clone());
            },
        }
        at += 1;
    }
    proof {
        assert(all.skip(at as int) =~= seq![]);
        assert(branch_views(branches@) + Seq::<BranchView>::empty() =~= branch_views(branches@));
    }
    Ok(branches)
}

/// What `refname` resolves to, by the answer to [`rev_parse_command`]: `None`
/// where there is no such ref.
pub open spec fn resolved(refname: Seq<char>, answer: AnswerView) -> Result<
    Option<Seq<char>>,
    FailureView,
> {
    if answer.code == Some(0i32) {
        if valid_utf8(answer.stdout) {
            Ok(Some(trimmed(decode_utf8(answer.stdout))))
        } else {
            Err(because("ref sha was not UTF-8"@, utf8_fault(answer.stdout)))
        }
    } else if answer.code == Some(1i32) {
        Ok(None)
    } else {
        Err(plainly("git rev-parse "@ + refname + " failed: "@ + lossy_text(answer.stderr)))
    }
}

/// What `refname` resolves to, by how resolving it ended.
pub fn rev_parse_optional(refname: &str, finished: Finished) -> (r: Result<Option<String>, Failure>)
    ensures
        match resolved(refname@, answer(finished)) {
            Ok(object) => r is Ok && r->Ok_0.deep_view() == object,
            Err(failure) => r is Err && r->Err_0@ == failure,
        },
{
    match finished.code {
        Some(0) => match decode_strict(finished.stdout) {
            Ok(sha) => Ok(Some(trim(sha.as_str()).to_owned())),
            Err(cause) => Err(Failure::new("ref sha was not UTF-8", cause)),
        },
        Some(1) => Ok(None),
        _ => {
            let mut message = "git rev-parse ".to_owned();
            message.append(refname);
            message.append(" failed: ");
            message.append(decode_lossy(finished.stderr.as_slice()).as_str());
            Err(Failure::plain(message))
        },
    }
}

/// The branches that are still to be looked at, and the pod that they belong to.
#[derive(Debug)]
pub struct Branches {
    pub pod_name: String,
    pub heads: Vec<BranchHead>,
}

/// [`Branches`] with their text as characters.
pub struct BranchesView {
    pub pod_name: Seq<char>,
    pub heads: Seq<BranchView>,
}

impl View for Branches {
    type V = BranchesView;

    open spec fn view(&self) -> BranchesView {
        BranchesView { pod_name: self.pod_name@, heads: branch_views(self.heads@) }
    }
}

/// The question that an upload waits for the answer to.
///
/// The later stages are shared by both uploads: behind the objects of a single
/// ref update nothing is left, behind those of a branch the other branches are.
#[derive(Debug)]
pub enum LfsUpload {
    /// Is Git LFS there, to upload for a ref update?
    CheckingForUpdate { remote: String, oldvalue: Option<String>, newvalue: String },
    /// Is Git LFS there, to upload for the branches of a pod?
    CheckingForPush { pod_name: String },
    /// Which branches are there?
    ListingBranches { pod_name: String },
    /// What was last pushed of the branch?
    ResolvingTracking { branch: BranchHead, rest: Branches },
    /// What does the branch start from, if it was never pushed?
    ResolvingBase { branch: BranchHead, rest: Branches },
    /// Which LFS files changed?
    ListingObjects { remote: String, left: Option<Branches> },
    /// What does the listing of those files say?
    ParsingObjects { remote: String, left: Option<Branches> },
    /// Were the objects uploaded?
    Pushing { left: Option<Branches> },
}

/// Why a command that takes input did not come to an end.
#[derive(Debug)]
pub enum PushFault {
    NotSpawned(String),
    /// The command's input was not connected.
    NoInput,
    NotWritten(String),
    NotAwaited(String),
}

/// An answer.
#[derive(Debug)]
pub enum LfsEvent {
    /// The command ended.
    Ran(Finished),
    /// A command without input could not be run.
    NotRun(String),
    /// A command with input could not be run.
    NotPushed(PushFault),
    /// The listing was parsed.
    Parsed(Result<GitLfsLsFiles, String>),
}

/// What follows from an answer.
#[derive(Debug)]
pub enum LfsStep {
    /// Run the command and hand back how it ended.
    Run { next: LfsUpload, command: CommandLine },
    /// Run the command with the input and hand back how it ended.
    Push { next: LfsUpload, command: CommandLine, input: String },
    /// Parse the bytes and hand back the listing.
    Parse { next: LfsUpload, bytes: Vec<u8> },
    /// Nothing is left to upload.
    Done,
    Failed(Failure),
    /// The event does not answer the question that was asked.
    Unexpected(LfsUpload),
}

/// An [`LfsUpload`] with its text as characters.
pub enum LfsStage {
    CheckingForUpdate { remote: Seq<char>, oldvalue: Option<Seq<char>>, newvalue: Seq<char> },
    CheckingForPush { pod_name: Seq<char> },
    ListingBranches { pod_name: Seq<char> },
    ResolvingTracking { branch: BranchView, rest: BranchesView },
    ResolvingBase { branch: BranchView, rest: BranchesView },
    ListingObjects { remote: Seq<char>, left: Option<BranchesView> },
    ParsingObjects { remote: Seq<char>, left: Option<BranchesView> },
    Pushing { left: Option<BranchesView> },
}

/// An [`LfsEvent`] with its text as characters.
pub enum LfsEventView {
    Ran(AnswerView),
    NotRun(Seq<char>),
    NotPushed(PushFault),
    Parsed(Seq<Seq<char>>),
    Unparsable(Seq<char>),
}

/// An [`LfsStep`] with its text as characters.
pub enum LfsMove {
    Run { next: LfsStage, command: CommandView },
    Push { next: LfsStage, command: CommandView, input: Seq<char> },
    Parse { next: LfsStage, bytes: Seq<u8> },
    Done,
    Failed(FailureView),
    Unexpected(LfsStage),
}

/// The branches left, if any, with their text as characters.
pub open spec fn rest_view(left: Option<Branches>) -> Option<BranchesView> {
    match left {
        Some(rest) => Some(rest@),
        None => None,
    }
}

impl View for LfsUpload {
    type V = LfsStage;

    open spec fn view(&self) -> LfsStage {
        match *self {
            LfsUpload::CheckingForUpdate { remote, oldvalue, newvalue } =>
                LfsStage::CheckingForUpdate {
                remote: remote@,
                oldvalue: oldvalue.deep_view(),
                newvalue: newvalue@,
            },
            LfsUpload::CheckingForPush { pod_name } => LfsStage::CheckingForPush {
                pod_name: pod_name@,
            },
            LfsUpload::ListingBranches { pod_name } => LfsStage::ListingBranches {
                pod_name: pod_name@,
            },
            LfsUpload::ResolvingTracking { branch, rest } => LfsStage::ResolvingTracking {
                branch: branch@,
                rest: rest@,
            },
            LfsUpload::ResolvingBase { branch, rest } => LfsStage::ResolvingBase {
                branch: branch@,
                rest: rest@,
            },
            LfsUpload::ListingObjects { remote, left } => LfsStage::ListingObjects {
                remote: remote@,
                left: rest_view(left),
            },
            LfsUpload::ParsingObjects { remote, left } => LfsStage::ParsingObjects {
                remote: remote@,
                left: rest_view(left),
            },
            LfsUpload::Pushing { left } => LfsStage::Pushing { left: rest_view(left) },
        }
    }
}

impl View for LfsEvent {
    type V = LfsEventView;

    open spec fn view(&self) -> LfsEventView {
        match *self {
            LfsEvent::Ran(finished) => LfsEventView::Ran(answer(finished)),
            LfsEvent::NotRun(cause) => LfsEventView::NotRun(cause@),
            LfsEvent::NotPushed(fault) => LfsEventView::NotPushed(fault),
            LfsEvent::Parsed(Ok(listing)) => LfsEventView::Parsed(listing@),
            LfsEvent::Parsed(Err(cause)) => LfsEventView::Unparsable(cause@),
        }
    }
}

impl View for LfsStep {
    type V = LfsMove;

    open spec fn view(&self) -> LfsMove {
        match *self {
            LfsStep::Run { next, command } => LfsMove::Run { next: next@, command: command@ },
            LfsStep::Push { next, command, input } => LfsMove::Push {
                next: next@,
                command: command@,
                input: input@,
            },
            LfsStep::Parse { next, bytes } => LfsMove::Parse { next: next@, bytes: bytes@ },
            LfsStep::Done => LfsMove::Done,
            LfsStep::Failed(failure) => LfsMove::Failed(failure@),
            LfsStep::Unexpected(stage) => LfsMove::Unexpected(stage@),
        }
    }
}

/// The ref that says what was last pushed of a pod's branch.
pub open spec fn tracking_ref(branch: Seq<char>, pod_name: Seq<char>) -> Seq<char> {
    "refs/remotes/rumpelpod/"@ + branch + "@"@ + pod_name
}

/// The ref that a branch starts from: its upstream, or else what the host had
/// checked out.
pub open spec fn base_ref(branch: BranchView) -> Seq<char> {
    match branch.upstream {
        Some(upstream) => upstream,
        None => "refs/remotes/host/HEAD"@,
    }
}

/// Goes on with the next branch.
pub open spec fn next_branch_move(rest: BranchesView) -> LfsMove {
    if rest.heads.len() == 0 {
        LfsMove::Done
    } else {
        let branch = rest.heads[0];
        LfsMove::Run {
            next: LfsStage::ResolvingTracking {
                branch,
                rest: BranchesView { pod_name: rest.pod_name, heads: rest.heads.drop_first() },
            },
            command: rev_parse_command(tracking_ref(branch.branch, rest.pod_name)),
        }
    }
}

/// Goes on behind the objects of one update.
pub open spec fn uploaded_move(left: Option<BranchesView>) -> LfsMove {
    match left {
        Some(rest) => next_branch_move(rest),
        None => LfsMove::Done,
    }
}

/// Lists the objects of the update from `oldvalue` to `newvalue`, for `remote`.
pub open spec fn list_move(
    remote: Seq<char>,
    oldvalue: Option<Seq<char>>,
    newvalue: Seq<char>,
    left: Option<BranchesView>,
) -> LfsMove {
    LfsMove::Run {
        next: LfsStage::ListingObjects { remote, left },
        command: ls_files_command(oldvalue, newvalue),
    }
}

/// Uploads the objects of the listed files to `remote`, if there are any.
pub open spec fn upload_move(
    remote: Seq<char>,
    oids: Seq<Seq<char>>,
    left: Option<BranchesView>,
) -> LfsMove {
    let distinct = distinct_oids(oids);
    if distinct.len() == 0 {
        uploaded_move(left)
    } else {
        LfsMove::Push {
            next: LfsStage::Pushing { left },
            command: push_command(remote),
            input: push_input(distinct),
        }
    }
}

/// Lists the objects of a branch that was at `oldvalue`, unless it still is.
pub open spec fn branch_move(
    branch: BranchView,
    oldvalue: Option<Seq<char>>,
    rest: BranchesView,
) -> LfsMove {
    if oldvalue == Some(branch.head) {
        next_branch_move(rest)
    } else {
        list_move(POD_REMOTE@, oldvalue, branch.head, Some(rest))
    }
}

/// The message for an upload that did not come to an end.
pub open spec fn push_failure(fault: PushFault) -> FailureView {
    match fault {
        PushFault::NotSpawned(cause) => because("spawning git lfs push"@, cause@),
        PushFault::NoInput => plainly("git lfs push stdin was not captured"@),
        PushFault::NotWritten(cause) => because("writing git lfs object id"@, cause@),
        PushFault::NotAwaited(cause) => because("waiting for git lfs push"@, cause@),
    }
}

/// What follows from `event` at `stage`.
pub open spec fn lfs_move(stage: LfsStage, event: LfsEventView) -> LfsMove {
    match (stage, event) {
        (
            LfsStage::CheckingForUpdate { remote, oldvalue, newvalue },
            LfsEventView::Ran(answer),
        ) => match lfs_availability(answer) {
            Ok(true) => list_move(remote, oldvalue, newvalue, None),
            Ok(false) => LfsMove::Done,
            Err(failure) => LfsMove::Failed(failure),
        },
        (LfsStage::CheckingForPush { pod_name }, LfsEventView::Ran(answer)) =>
            match lfs_availability(answer) {
                Ok(true) => LfsMove::Run {
                    next: LfsStage::ListingBranches { pod_name },
                    command: branches_command(),
                },
                Ok(false) => LfsMove::Done,
                Err(failure) => LfsMove::Failed(failure),
            },
        (LfsStage::CheckingForUpdate { .. }, LfsEventView::NotRun(cause)) => LfsMove::Failed(
            because("checking git lfs availability"@, cause),
        ),
        (LfsStage::CheckingForPush { .. }, LfsEventView::NotRun(cause)) => LfsMove::Failed(
            because("checking git lfs availability"@, cause),
        ),
        (LfsStage::ListingBranches { pod_name }, LfsEventView::Ran(answer)) =>
            match listed_branches(answer) {
                Ok(heads) => next_branch_move(BranchesView { pod_name, heads }),
                Err(failure) => LfsMove::Failed(failure),
            },
        (LfsStage::ListingBranches { .. }, LfsEventView::NotRun(cause)) => LfsMove::Failed(
            because("listing local branches"@, cause),
        ),
        (LfsStage::ResolvingTracking { branch, rest }, LfsEventView::Ran(answer)) =>
            match resolved(tracking_ref(branch.branch, rest.pod_name), answer) {
                Ok(Some(oldvalue)) => branch_move(branch, Some(oldvalue), rest),
                Ok(None) => LfsMove::Run {
                    next: LfsStage::ResolvingBase { branch, rest },
                    command: rev_parse_command(base_ref(branch)),
                },
                Err(failure) => LfsMove::Failed(failure),
            },
        (LfsStage::ResolvingTracking { branch, rest }, LfsEventView::NotRun(cause)) =>
            LfsMove::Failed(
                because("resolving ref "@ + tracking_ref(branch.branch, rest.pod_name), cause),
            ),
        (LfsStage::ResolvingBase { branch, rest }, LfsEventView::Ran(answer)) =>
            match resolved(base_ref(branch), answer) {
                Ok(oldvalue) => branch_move(branch, oldvalue, rest),
                Err(failure) => LfsMove::Failed(failure),
            },
        (LfsStage::ResolvingBase { branch, .. }, LfsEventView::NotRun(cause)) => LfsMove::Failed(
            because("resolving ref "@ + base_ref(branch), cause),
        ),
        (LfsStage::ListingObjects { remote, left }, LfsEventView::Ran(answer)) => if answer.code
            == Some(0i32) {
            LfsMove::Parse {
                next: LfsStage::ParsingObjects { remote, left },
                bytes: answer.stdout,
            }
        } else {
            LfsMove::Failed(plainly("git lfs ls-files failed: "@ + lossy_text(answer.stderr)))
        },
        (LfsStage::ListingObjects { .. }, LfsEventView::NotRun(cause)) => LfsMove::Failed(
            because("listing changed git lfs objects"@, cause),
        ),
        (LfsStage::ParsingObjects { remote, left }, LfsEventView::Parsed(oids)) => upload_move(
            remote,
            oids,
            left,
        ),
        (LfsStage::ParsingObjects { .. }, LfsEventView::Unparsable(cause)) => LfsMove::Failed(
            because("parsing git lfs ls-files output"@, cause),
        ),
        (LfsStage::Pushing { left }, LfsEventView::Ran(answer)) => if answer.code == Some(0i32) {
            uploaded_move(left)
        } else {
            LfsMove::Failed(
                plainly(
                    "git lfs push --object-id failed: "@ + lossy_text(answer.stdout) + lossy_text(
                        answer.stderr,
                    ),
                ),
            )
        },
        (LfsStage::Pushing { .. }, LfsEventView::NotPushed(fault)) => LfsMove::Failed(
            push_failure(fault),
        ),
        _ => LfsMove::Unexpected(stage),
    }
}

fn failed(context: &str, cause: String) -> (r: LfsStep)
    ensures
        r@ == LfsMove::Failed(because(context@, cause@)),
{
    LfsStep::Failed(Failure::new(context, cause))
}

fn unresolved(refname: &str, cause: String) -> (r: LfsStep)
    ensures
        r@ == LfsMove::Failed(because("resolving ref "@ + refname@, cause@)),
{
    failed("resolving ref ".to_owned().concat(refname).as_str(), cause)
}

fn new_tracking_ref(branch: &str, pod_name: &str) -> (r: String)
    ensures
        r@ == tracking_ref(branch@, pod_name@),
        r@ == "refs/remotes/rumpelpod/"@ + branch@ + "@"@ + pod_name@,
{
    let mut refname = "refs/remotes/rumpelpod/".to_owned();
    refname.append(branch);
    refname.append("@");
    refname.append(pod_name);
    refname
}

fn new_base_ref(branch: &BranchHead) -> (r: String)
    ensures
        r@ == base_ref(branch@),
{
    match &branch.upstream {
        Some(upstream) => upstream.clone(),
        None => "refs/remotes/host/HEAD".to_owned(),
    }
}

fn next_branch(rest: Branches) -> (r: LfsStep)
    ensures
        r@ == next_branch_move(rest@),
{
    let mut heads = rest.heads;
    if heads.len() == 0 {
        return LfsStep::Done;
    }
    let ghost before = branch_views(heads@);
    let branch = heads.remove(0);
    assert(branch_views(heads@) =~= before.drop_first());
    let tracking = new_tracking_ref(branch.branch.as_str(), rest.pod_name.as_str());
    LfsStep::Run {
        next: LfsUpload::ResolvingTracking {
            branch,
            rest: Branches { pod_name: rest.pod_name, heads },
        },
        command: new_rev_parse_command(tracking.as_str()),
    }
}

fn uploaded(left: Option<Branches>) -> (r: LfsStep)
    ensures
        r@ == uploaded_move(rest_view(left)),
{
    match left {
        Some(rest) => next_branch(rest),
        None => LfsStep::Done,
    }
}

fn list_objects(
    remote: String,
    oldvalue: Option<String>,
    newvalue: String,
    left: Option<Branches>,
) -> (r: LfsStep)
    ensures
        r@ == list_move(remote@, oldvalue.deep_view(), newvalue@, rest_view(left)),
{
    let command = new_ls_files_command(&oldvalue, newvalue.as_str());
    LfsStep::Run { next: LfsUpload::ListingObjects { remote, left }, command }
}

/// Uploads the objects of the listed files to `remote`, if there are any.
fn upload_lfs_oids(remote: String, listing: GitLfsLsFiles, left: Option<Branches>) -> (r: LfsStep)
    ensures
        r@ == upload_move(remote@, listing@, rest_view(left)),
{
    let oids = lfs_oids_for_ref_update(listing);
    if oids.len() == 0 {
        return uploaded(left);
    }
    LfsStep::Push {
        next: LfsUpload::Pushing { left },
        command: new_push_command(remote.as_str()),
        input: new_push_input(&oids),
    }
}

fn compare_branch(branch: BranchHead, oldvalue: Option<String>, rest: Branches) -> (r: LfsStep)
    ensures
        r@ == branch_move(branch@, oldvalue.deep_view(), rest@),
{
    let unchanged = match &oldvalue {
        Some(oldvalue) => same_text(oldvalue.as_str(), branch.head.as_str()),
        None => false,
    };
    if unchanged {
        next_branch(rest)
    } else {
        list_objects(POD_REMOTE.to_owned(), oldvalue, branch.head, Some(rest))
    }
}

/// Where the upload for a ref update starts: a ref that is deleted brings no
/// objects, and no command is run for it.
pub open spec fn update_start(
    remote: Seq<char>,
    oldvalue: Option<Seq<char>>,
    newvalue: Seq<char>,
) -> LfsMove {
    if newvalue == ZERO_OID@ {
        LfsMove::Done
    } else {
        LfsMove::Run {
            next: LfsStage::CheckingForUpdate { remote, oldvalue, newvalue },
            command: version_command(),
        }
    }
}

/// Where the upload for the branches of a pod starts.
pub open spec fn push_start(pod_name: Seq<char>) -> LfsMove {
    LfsMove::Run {
        next: LfsStage::CheckingForPush { pod_name },
        command: version_command(),
    }
}

/// Starts to upload the objects that a ref update brings, before the ref itself
/// is pushed to `remote`.
pub fn upload_lfs_objects_for_ref_update(
    remote: &str,
    oldvalue: Option<&str>,
    newvalue: &str,
) -> (r: LfsStep)
    ensures
        r@ == update_start(
            remote@,
            match oldvalue {
                Some(oldvalue) => Some(oldvalue@),
                None => None,
            },
            newvalue@,
        ),
{
    if same_text(newvalue, ZERO_OID) {
        return LfsStep::Done;
    }
    let oldvalue = match oldvalue {
        Some(oldvalue) => Some(oldvalue.to_owned()),
        None => None,
    };
    LfsStep::Run {
        next: LfsUpload::CheckingForUpdate {
            remote: remote.to_owned(),
            oldvalue,
            newvalue: newvalue.to_owned(),
        },
        command: new_version_command(),
    }
}

/// Starts to upload the objects of all local branches that are not yet what was
/// last pushed for the pod.
pub fn upload_lfs_objects_for_rumpelpod_push(pod_name: &str) -> (r: LfsStep)
    ensures
        r@ == push_start(pod_name@),
{
    LfsStep::Run {
        next: LfsUpload::CheckingForPush { pod_name: pod_name.to_owned() },
        command: new_version_command(),
    }
}

impl LfsUpload {
    /// What follows from the answer to the question that is open.
    pub fn step(self, event: LfsEvent) -> (r: LfsStep)
        ensures
            r@ == lfs_move(self@, event@),
    {
        match (self, event) {
            (
                LfsUpload::CheckingForUpdate { remote, oldvalue, newvalue },
                LfsEvent::Ran(finished),
            ) => match git_lfs_available(&finished) {
                Ok(available) => if available {
                    list_objects(remote, oldvalue, newvalue, None)
                } else {
                    LfsStep::Done
                },
                Err(failure) => LfsStep::Failed(failure),
            },
            (LfsUpload::CheckingForPush { pod_name }, LfsEvent::Ran(finished)) =>
                match git_lfs_available(&finished) {
                    Ok(available) => if available {
                        LfsStep::Run {
                            next: LfsUpload::ListingBranches { pod_name },
                            command: new_branches_command(),
                        }
                    } else {
                        LfsStep::Done
                    },
                    Err(failure) => LfsStep::Failed(failure),
                },
            (LfsUpload::CheckingForUpdate { .. }, LfsEvent::NotRun(cause)) => failed(
                "checking git lfs availability",
                cause,
            ),
            (LfsUpload::CheckingForPush { .. }, LfsEvent::NotRun(cause)) => failed(
                "checking git lfs availability",
                cause,
            ),
            (LfsUpload::ListingBranches { pod_name }, LfsEvent::Ran(finished)) =>
                match local_branch_heads(finished) {
                    Ok(heads) => next_branch(Branches { pod_name, heads }),
                    Err(failure) => LfsStep::Failed(failure),
                },
            (LfsUpload::ListingBranches { .. }, LfsEvent::NotRun(cause)) => failed(
                "listing local branches",
                cause,
            ),
            (LfsUpload::ResolvingTracking { branch, rest }, LfsEvent::Ran(finished)) => {
                let tracking = new_tracking_ref(branch.branch.as_str(), rest.pod_name.as_str());
                match rev_parse_optional(tracking.as_str(), finished) {
                    Ok(Some(oldvalue)) => compare_branch(branch, Some(oldvalue), rest),
                    Ok(None) => {
                        let base = new_base_ref(&branch);
                        LfsStep::Run {
                            next: LfsUpload::ResolvingBase { branch, rest },
                            command: new_rev_parse_command(base.as_str()),
                        }
                    },
                    Err(failure) => LfsStep::Failed(failure),
                }
            },
            (LfsUpload::ResolvingTracking { branch, rest }, LfsEvent::NotRun(cause)) => unresolved(
                new_tracking_ref(branch.branch.as_str(), rest.pod_name.as_str()).as_str(),
                cause,
            ),
            (LfsUpload::ResolvingBase { branch, rest }, LfsEvent::Ran(finished)) =>
                match rev_parse_optional(new_base_ref(&branch).as_str(), finished) {
                    Ok(oldvalue) => compare_branch(branch, oldvalue, rest),
                    Err(failure) => LfsStep::Failed(failure),
                },
            (LfsUpload::ResolvingBase { branch, .. }, LfsEvent::NotRun(cause)) => unresolved(
                new_base_ref(&branch).as_str(),
                cause,
            ),
            (LfsUpload::ListingObjects { remote, left }, LfsEvent::Ran(finished)) => {
                if finished.success() {
                    LfsStep::Parse {
                        next: LfsUpload::ParsingObjects { remote, left },
                        bytes: finished.stdout,
                    }
                } else {
                    LfsStep::Failed(
                        Failure::plain(
                            "git lfs ls-files failed: ".to_owned().concat(
                                decode_lossy(finished.stderr.as_slice()).as_str(),
                            ),
                        ),
                    )
                }
            },
            (LfsUpload::ListingObjects { .. }, LfsEvent::NotRun(cause)) => failed(
                "listing changed git lfs objects",
                cause,
            ),
            (LfsUpload::ParsingObjects { remote, left }, LfsEvent::Parsed(parsed)) => match parsed {
                Ok(listing) => upload_lfs_oids(remote, listing, left),
                Err(cause) => failed("parsing git lfs ls-files output", cause),
            },
            (LfsUpload::Pushing { left }, LfsEvent::Ran(finished)) => {
                if finished.success() {
                    uploaded(left)
                } else {
                    let mut message = "git lfs push --object-id failed: ".to_owned();
                    message.append(decode_lossy(finished.stdout.as_slice()).as_str());
                    message.append(decode_lossy(finished.stderr.as_slice()).as_str());
                    LfsStep::Failed(Failure::plain(message))
                }
            },
            (LfsUpload::Pushing { .. }, LfsEvent::NotPushed(fault)) => match fault {
                PushFault::NotSpawned(cause) => failed("spawning git lfs push", cause),
                PushFault::NoInput => LfsStep::Failed(
                    Failure::plain("git lfs push stdin was not captured".to_owned()),
                ),
                PushFault::NotWritten(cause) => failed(
                    "writing git lfs object id",
                    cause,
                ),
                PushFault::NotAwaited(cause) => failed(
                    "waiting for git lfs push",
                    cause,
                ),
            },
            (stage, _) => LfsStep::Unexpected(stage),
        }
    }
}

/// Where an upload stands after `events`, which answer one question after the
/// other.
pub open spec fn lfs_run(start: LfsMove, events: Seq<LfsEventView>) -> LfsMove
    decreases events.len(),
{
    if events.len() == 0 {
        start
    } else {
        match start {
            LfsMove::Run { next, .. } | LfsMove::Push { next, .. } | LfsMove::Parse { next, .. } =>
                lfs_run(lfs_move(next, events[0]), events.drop_first()),
            _ => start,
        }
    }
}

/// Whether `events` start with a command that succeeded.
pub open spec fn succeeds(events: Seq<LfsEventView>) -> bool {
    events.len() > 0 && events[0] is Ran && events[0]->Ran_0.code == Some(0i32)
}

/// How many of `events` it takes until the remote has the objects of an update:
/// the files are listed, the listing is parsed, and what it names, if anything,
/// is uploaded. `None` where they do not get there.
pub open spec fn objects_settled(events: Seq<LfsEventView>) -> Option<nat> {
    if succeeds(events) && events.len() > 1 && events[1] is Parsed {
        if distinct_oids(events[1]->Parsed_0).len() == 0 {
            Some(2)
        } else if succeeds(events.skip(2)) {
            Some(3)
        } else {
            None
        }
    } else {
        None
    }
}

/// How many of `events` it takes until a branch is settled that was at
/// `oldvalue`: none where it still is, and else those of its objects.
pub open spec fn update_settled(
    branch: BranchView,
    oldvalue: Option<Seq<char>>,
    events: Seq<LfsEventView>,
) -> Option<nat> {
    if oldvalue == Some(branch.head) {
        Some(0)
    } else {
        objects_settled(events)
    }
}

/// What the first of `events` says that `refname` resolves to, if it does say.
pub open spec fn answered(refname: Seq<char>, events: Seq<LfsEventView>) -> Option<
    Option<Seq<char>>,
> {
    if events.len() > 0 && events[0] is Ran {
        match resolved(refname, events[0]->Ran_0) {
            Ok(object) => Some(object),
            Err(_) => None,
        }
    } else {
        None
    }
}

/// `count` events more, where there is a count.
pub open spec fn more(count: nat, rest: Option<nat>) -> Option<nat> {
    match rest {
        Some(rest) => Some(count + rest),
        None => None,
    }
}

/// How many of `events` it takes until the remote has all objects of `branch`,
/// judged by what was last pushed of it or else by what it starts from.
pub open spec fn branch_settled(
    pod_name: Seq<char>,
    branch: BranchView,
    events: Seq<LfsEventView>,
) -> Option<nat> {
    match answered(tracking_ref(branch.branch, pod_name), events) {
        Some(Some(pushed)) => more(1, update_settled(branch, Some(pushed), events.skip(1))),
        Some(None) => match answered(base_ref(branch), events.skip(1)) {
            Some(base) => more(2, update_settled(branch, base, events.skip(2))),
            None => None,
        },
        None => None,
    }
}

/// Whether `events` bring all objects of each branch in turn to the remote.
pub open spec fn branches_settled(rest: BranchesView, events: Seq<LfsEventView>) -> bool
    decreases rest.heads.len(),
{
    if rest.heads.len() == 0 {
        true
    } else {
        match branch_settled(rest.pod_name, rest.heads[0], events) {
            Some(count) => branches_settled(
                BranchesView { pod_name: rest.pod_name, heads: rest.heads.drop_first() },
                events.skip(count as int),
            ),
            None => false,
        }
    }
}

/// An upload goes on behind the objects of an update exactly if they settle.
proof fn lemma_objects(
    remote: Seq<char>,
    oldvalue: Option<Seq<char>>,
    newvalue: Seq<char>,
    left: Option<BranchesView>,
    events: Seq<LfsEventView>,
)
    ensures
        match objects_settled(events) {
            Some(count) => count <= events.len() && lfs_run(
                list_move(remote, oldvalue, newvalue, left),
                events,
            ) == lfs_run(uploaded_move(left), events.skip(count as int)),
            None => !(lfs_run(list_move(remote, oldvalue, newvalue, left), events) is Done),
        },
{
    reveal_with_fuel(lfs_run, 5);
    let second = events.drop_first();
    let third = second.drop_first();
    let fourth = third.drop_first();
    assert(events.len() > 1 ==> second[0] == events[1]);
    assert(events.len() > 1 ==> third =~= events.skip(2));
    assert(events.len() > 2 ==> fourth =~= events.skip(3));
}

/// An upload goes on behind a branch exactly if the branch settles.
proof fn lemma_branch(rest: BranchesView, events: Seq<LfsEventView>)
    requires
        rest.heads.len() > 0,
    ensures
        match branch_settled(rest.pod_name, rest.heads[0], events) {
            Some(count) => count <= events.len() && lfs_run(next_branch_move(rest), events)
                == lfs_run(
                next_branch_move(
                    BranchesView { pod_name: rest.pod_name, heads: rest.heads.drop_first() },
                ),
                events.skip(count as int),
            ),
            None => !(lfs_run(next_branch_move(rest), events) is Done),
        },
{
    let branch = rest.heads[0];
    let left = BranchesView { pod_name: rest.pod_name, heads: rest.heads.drop_first() };
    let second = events.drop_first();
    let third = second.drop_first();
    reveal_with_fuel(lfs_run, 3);
    if events.len() > 0 {
        assert(second =~= events.skip(1));
    }
    if events.len() > 1 {
        assert(second[0] == events[1]);
        assert(third =~= events.skip(2));
    }
    match answered(tracking_ref(branch.branch, rest.pod_name), events) {
        Some(Some(pushed)) => {
            lemma_objects(POD_REMOTE@, Some(pushed), branch.head, Some(left), second);
            if let Some(count) = update_settled(branch, Some(pushed), second) {
                assert(second.skip(count as int) =~= events.skip(1 + count as int));
            }
        },
        Some(None) => {
            if let Some(base) = answered(base_ref(branch), second) {
                lemma_objects(POD_REMOTE@, base, branch.head, Some(left), third);
                if let Some(count) = update_settled(branch, base, third) {
                    assert(third.skip(count as int) =~= events.skip(2 + count as int));
                }
            }
        },
        None => {},
    }
}

/// The upload for a ref update succeeds exactly if the ref is deleted, if Git
/// LFS is not there, or if the remote got the objects of every file that the
/// update changed.
pub proof fn law_update_succeeds_once_objects_are_there(
    remote: Seq<char>,
    oldvalue: Option<Seq<char>>,
    newvalue: Seq<char>,
    events: Seq<LfsEventView>,
)
    ensures
        lfs_run(update_start(remote, oldvalue, newvalue), events) is Done <==> {
            ||| newvalue == ZERO_OID@
            ||| {
                &&& events.len() > 0
                &&& events[0] is Ran
                &&& {
                    ||| lfs_availability(events[0]->Ran_0) == Ok::<bool, FailureView>(false)
                    ||| {
                        &&& lfs_availability(events[0]->Ran_0) == Ok::<bool, FailureView>(true)
                        &&& objects_settled(events.skip(1)) is Some
                    }
                }
            }
        },
{
    reveal_with_fuel(lfs_run, 2);
    if events.len() > 0 {
        let second = events.drop_first();
        assert(second =~= events.skip(1));
        lemma_objects(remote, oldvalue, newvalue, None, second);
    }
}

/// The branches settle exactly if the upload that goes through them succeeds.
proof fn lemma_branches(rest: BranchesView, events: Seq<LfsEventView>)
    ensures
        lfs_run(next_branch_move(rest), events) is Done <==> branches_settled(rest, events),
    decreases rest.heads.len(),
{
    if rest.heads.len() > 0 {
        lemma_branch(rest, events);
        if let Some(count) = branch_settled(rest.pod_name, rest.heads[0], events) {
            lemma_branches(
                BranchesView { pod_name: rest.pod_name, heads: rest.heads.drop_first() },
                events.skip(count as int),
            );
        }
    }
}

/// The upload for the branches of a pod succeeds exactly if Git LFS is not
/// there, or if the branches could be listed and each of them either is at what
/// was last pushed, or starts where it still is, or had the objects of every
/// file that it changed uploaded.
pub proof fn law_push_succeeds_once_branches_are_there(
    pod_name: Seq<char>,
    events: Seq<LfsEventView>,
)
    ensures
        lfs_run(push_start(pod_name), events) is Done <==> {
            &&& events.len() > 0
            &&& events[0] is Ran
            &&& {
                ||| lfs_availability(events[0]->Ran_0) == Ok::<bool, FailureView>(false)
                ||| {
                    &&& lfs_availability(events[0]->Ran_0) == Ok::<bool, FailureView>(true)
                    &&& events.len() > 1
                    &&& events[1] is Ran
                    &&& listed_branches(events[1]->Ran_0) is Ok
                    &&& branches_settled(
                        BranchesView {
                            pod_name,
                            heads: listed_branches(events[1]->Ran_0)->Ok_0,
                        },
                        events.skip(2),
                    )
                }
            }
        },
{
    reveal_with_fuel(lfs_run, 3);
    let second = events.drop_first();
    let third = second.drop_first();
    if events.len() > 1 {
        assert(second[0] == events[1]);
        assert(third =~= events.skip(2));
        if let LfsEventView::Ran(answer) = events[1] {
            if let Ok(heads) = listed_branches(answer) {
                lemma_branches(BranchesView { pod_name, heads }, third);
            }
        }
    }
}

/// Whether an upload at `stage` can only push to `remote`.
pub open spec fn pushes_to(stage: LfsStage, remote: Seq<char>) -> bool {
    match stage {
        LfsStage::CheckingForUpdate { remote: target, .. } => target == remote,
        LfsStage::ListingObjects { remote: target, left } => target == remote && (left is Some
            ==> remote == POD_REMOTE@),
        LfsStage::ParsingObjects { remote: target, left } => target == remote && (left is Some
            ==> remote == POD_REMOTE@),
        LfsStage::Pushing { left } => left is Some ==> remote == POD_REMOTE@,
        _ => remote == POD_REMOTE@,
    }
}

/// Whether a move pushes to `remote` if it pushes, and so do those behind it.
pub open spec fn move_pushes_to(step: LfsMove, remote: Seq<char>) -> bool {
    match step {
        LfsMove::Run { next, .. } | LfsMove::Parse { next, .. } => pushes_to(next, remote),
        LfsMove::Push { next, command, .. } => pushes_to(next, remote) && command == push_command(
            remote,
        ),
        _ => true,
    }
}

proof fn lemma_run_pushes_to(start: LfsMove, remote: Seq<char>, events: Seq<LfsEventView>)
    requires
        move_pushes_to(start, remote),
    ensures
        move_pushes_to(lfs_run(start, events), remote),
    decreases events.len(),
{
    if events.len() > 0 {
        match start {
            LfsMove::Run { next, .. } | LfsMove::Push { next, .. } | LfsMove::Parse { next, .. } => {
                assert(move_pushes_to(lfs_move(next, events[0]), remote));
                lemma_run_pushes_to(lfs_move(next, events[0]), remote, events.drop_first());
            },
            _ => {},
        }
    }
}

/// Whatever is answered, the upload for a ref update pushes objects to the
/// remote of the update and nowhere else.
pub proof fn law_update_pushes_to_its_remote(
    remote: Seq<char>,
    oldvalue: Option<Seq<char>>,
    newvalue: Seq<char>,
    events: Seq<LfsEventView>,
)
    ensures
        lfs_run(update_start(remote, oldvalue, newvalue), events) matches LfsMove::Push {
            command,
            ..
        } ==> command == push_command(remote),
{
    lemma_run_pushes_to(update_start(remote, oldvalue, newvalue), remote, events);
}

/// Whatever is answered, the upload for the branches of a pod pushes objects to
/// the pod's remote and nowhere else.
pub proof fn law_branches_push_to_the_pod_remote(pod_name: Seq<char>, events: Seq<LfsEventView>)
    ensures
        lfs_run(push_start(pod_name), events) matches LfsMove::Push { command, .. } ==> command
            == push_command(POD_REMOTE@),
{
    lemma_run_pushes_to(push_start(pod_name), POD_REMOTE@, events);
}

/// Only objects of the files that were just listed are pushed, and all of them.
pub proof fn law_listed_objects_are_pushed(stage: LfsStage, event: LfsEventView)
    ensures
        lfs_move(stage, event) matches LfsMove::Push { input, .. } ==> stage is ParsingObjects
            && event is Parsed && input == push_input(distinct_oids(event->Parsed_0)),
{
}

/// Whether `events` say of each branch in turn that it is at what was last
/// pushed of it or, where nothing was, at what it starts from.
pub open spec fn caught_up(rest: BranchesView, events: Seq<LfsEventView>) -> bool
    decreases rest.heads.len(),
{
    if rest.heads.len() == 0 {
        true
    } else {
        let branch = rest.heads[0];
        let left = BranchesView { pod_name: rest.pod_name, heads: rest.heads.drop_first() };
        match answered(tracking_ref(branch.branch, rest.pod_name), events) {
            Some(Some(pushed)) => pushed == branch.head && caught_up(left, events.skip(1)),
            Some(None) => answered(base_ref(branch), events.skip(1)) == Some(Some(branch.head))
                && caught_up(left, events.skip(2)),
            None => false,
        }
    }
}

/// Whether `command` resolves a ref.
pub open spec fn is_rev_parse(command: CommandView) -> bool {
    exists|refname: Seq<char>| command == #[trigger] rev_parse_command(refname)
}

/// Whether an upload does nothing but resolve refs while `events` are answered.
pub open spec fn resolves_only(start: LfsMove, events: Seq<LfsEventView>) -> bool
    decreases events.len(),
{
    match start {
        LfsMove::Done => true,
        LfsMove::Run { next, command } => is_rev_parse(command) && (events.len() > 0
            ==> resolves_only(lfs_move(next, events[0]), events.drop_first())),
        _ => false,
    }
}

proof fn lemma_caught_up(rest: BranchesView, events: Seq<LfsEventView>)
    requires
        caught_up(rest, events),
    ensures
        resolves_only(next_branch_move(rest), events),
        lfs_run(next_branch_move(rest), events) is Done,
    decreases rest.heads.len(),
{
    if rest.heads.len() > 0 {
        let branch = rest.heads[0];
        let left = BranchesView { pod_name: rest.pod_name, heads: rest.heads.drop_first() };
        reveal_with_fuel(resolves_only, 3);
        reveal_with_fuel(lfs_run, 3);
        assert(is_rev_parse(rev_parse_command(tracking_ref(branch.branch, rest.pod_name))));
        assert(is_rev_parse(rev_parse_command(base_ref(branch))));
        let second = events.drop_first();
        assert(second =~= events.skip(1));
        match answered(tracking_ref(branch.branch, rest.pod_name), events) {
            Some(Some(pushed)) => {
                lemma_caught_up(left, events.skip(1));
            },
            _ => {
                assert(second.drop_first() =~= events.skip(2));
                lemma_caught_up(left, events.skip(2));
            },
        }
    }
}

/// A push whose branches are all caught up runs nothing behind the listing of
/// the branches but the resolving of their refs, and succeeds.
pub proof fn law_caught_up_branches_are_only_resolved(
    pod_name: Seq<char>,
    heads: Seq<BranchView>,
    events: Seq<LfsEventView>,
)
    requires
        events.len() >= 2,
        events[0] is Ran && lfs_availability(events[0]->Ran_0) == Ok::<bool, FailureView>(true),
        events[1] is Ran && listed_branches(events[1]->Ran_0) == Ok::<
            Seq<BranchView>,
            FailureView,
        >(heads),
        caught_up(BranchesView { pod_name, heads }, events.skip(2)),
    ensures
        resolves_only(lfs_run(push_start(pod_name), events.take(2)), events.skip(2)),
        lfs_run(push_start(pod_name), events) is Done,
{
    let rest = BranchesView { pod_name, heads };
    lemma_caught_up(rest, events.skip(2));
    reveal_with_fuel(lfs_run, 4);
    let first = events.take(2);
    assert(first[0] == events[0] && first.drop_first()[0] == events[1]);
    assert(first.drop_first().drop_first().len() == 0);
    assert(lfs_run(push_start(pod_name), first) == next_branch_move(rest));
    assert(events.drop_first()[0] == events[1]);
    assert(events.drop_first().drop_first() =~= events.skip(2));
}

/// Whether `event` is of the kind that answers the question open at `stage`.
pub open spec fn is_awaited(stage: LfsStage, event: LfsEventView) -> bool {
    match stage {
        LfsStage::ParsingObjects { .. } => event is Parsed || event is Unparsable,
        LfsStage::Pushing { .. } => event is Ran || event is NotPushed,
        _ => event is Ran || event is NotRun,
    }
}

/// Whether `event` is of the kind that doing what `step` asks for brings.
pub open spec fn brings(step: LfsMove, event: LfsEventView) -> bool {
    match step {
        LfsMove::Run { .. } => event is Ran || event is NotRun,
        LfsMove::Push { .. } => event is Ran || event is NotPushed,
        LfsMove::Parse { .. } => event is Parsed || event is Unparsable,
        _ => false,
    }
}

/// Whether what `step` asks for brings what the stage behind it waits for.
pub open spec fn asks_rightly(step: LfsMove) -> bool {
    match step {
        LfsMove::Run { next, .. } | LfsMove::Push { next, .. } | LfsMove::Parse { next, .. } =>
            forall|event: LfsEventView| #[trigger] brings(step, event) <==> is_awaited(next, event),
        LfsMove::Unexpected(_) => false,
        _ => true,
    }
}

/// An event is unexpected exactly if it does not answer the open question; and
/// whatever follows from an answer asks for what is then waited for.
pub proof fn law_answers_are_expected(stage: LfsStage, event: LfsEventView)
    ensures
        lfs_move(stage, event) is Unexpected <==> !is_awaited(stage, event),
        is_awaited(stage, event) ==> asks_rightly(lfs_move(stage, event)),
{
}

/// Whether each of `events` is of the kind that what was asked for last brings.
pub open spec fn in_turn(start: LfsMove, events: Seq<LfsEventView>) -> bool
    decreases events.len(),
{
    if events.len() == 0 {
        true
    } else {
        match start {
            LfsMove::Run { next, .. } | LfsMove::Push { next, .. } | LfsMove::Parse { next, .. } =>
                brings(start, events[0]) && in_turn(
                lfs_move(next, events[0]),
                events.drop_first(),
            ),
            _ => true,
        }
    }
}

proof fn lemma_in_turn(start: LfsMove, events: Seq<LfsEventView>)
    requires
        asks_rightly(start),
        in_turn(start, events),
    ensures
        asks_rightly(lfs_run(start, events)),
    decreases events.len(),
{
    if events.len() > 0 {
        match start {
            LfsMove::Run { next, .. } | LfsMove::Push { next, .. } | LfsMove::Parse { next, .. } => {
                law_answers_are_expected(next, events[0]);
                lemma_in_turn(lfs_move(next, events[0]), events.drop_first());
            },
            _ => {},
        }
    }
}

/// An upload that is answered what it asked for is never surprised.
pub proof fn law_uploads_in_turn_are_never_surprised(
    remote: Seq<char>,
    oldvalue: Option<Seq<char>>,
    newvalue: Seq<char>,
    pod_name: Seq<char>,
    events: Seq<LfsEventView>,
)
    ensures
        in_turn(update_start(remote, oldvalue, newvalue), events) ==> !(lfs_run(
            update_start(remote, oldvalue, newvalue),
            events,
        ) is Unexpected),
        in_turn(push_start(pod_name), events) ==> !(lfs_run(
            push_start(pod_name),
            events,
        ) is Unexpected),
{
    if in_turn(update_start(remote, oldvalue, newvalue), events) {
        lemma_in_turn(update_start(remote, oldvalue, newvalue), events);
    }
    if in_turn(push_start(pod_name), events) {
        lemma_in_turn(push_start(pod_name), events);
    }
}

/// The tracking ref of a branch holds the whole name of the branch and the whole
/// name of the pod, and nothing else behind the remote: two branches of one pod
/// have two refs, and so have two pods of one branch.
pub proof fn law_tracking_refs_name_branch_and_pod(
    branch: Seq<char>,
    other: Seq<char>,
    pod_name: Seq<char>,
    neighbour: Seq<char>,
)
    ensures
        tracking_ref(branch, pod_name) == "refs/remotes/rumpelpod/"@ + branch + "@"@ + pod_name,
        ("refs/remotes/rumpelpod/"@ + branch + "@"@).is_prefix_of(tracking_ref(branch, pod_name)),
        tracking_ref(branch, pod_name).len() == "refs/remotes/rumpelpod/"@.len() + branch.len() + 1
            + pod_name.len(),
        tracking_ref(branch, pod_name) == tracking_ref(other, pod_name) ==> branch == other,
        tracking_ref(branch, pod_name) == tracking_ref(branch, neighbour) ==> pod_name == neighbour,
{
    let remote = "refs/remotes/rumpelpod/"@;
    let n = remote.len() as int;
    reveal_strlit("@");
    let first = tracking_ref(branch, pod_name);
    let front = remote + branch + "@"@;
    assert(first.take(front.len() as int) =~= front);
    assert(first.subrange(n, n + branch.len()) =~= branch);
    assert(first.skip(n + branch.len() + 1) =~= pod_name);
    let second = tracking_ref(other, pod_name);
    assert(second.subrange(n, n + other.len()) =~= other);
    let third = tracking_ref(branch, neighbour);
    assert(third.skip(n + branch.len() + 1) =~= neighbour);
    if first == second {
        assert(branch.len() == other.len());
    }
}

/// The input of a push is made of its objects one behind the other, each whole and
/// with a line feed behind it.
pub proof fn law_push_input_is_made_of_its_objects(
    first: Seq<Seq<char>>,
    second: Seq<Seq<char>>,
    oid: Seq<char>,
)
    ensures
        push_input(first + second) == push_input(first) + push_input(second),
        push_input(seq![oid]) == oid.push('\n'),
        push_input(seq![]).len() == 0,
    decreases second.len(),
{
    reveal_strlit("\n");
    reveal_with_fuel(push_input, 2);
    assert(seq![oid].drop_last() =~= seq![]);
    assert(push_input(seq![oid]) =~= oid.push('\n'));
    if second.len() == 0 {
        assert(first + second =~= first);
        assert(push_input(first) + push_input(second) =~= push_input(first));
    } else {
        law_push_input_is_made_of_its_objects(first, second.drop_last(), oid);
        assert((first + second).drop_last() =~= first + second.drop_last());
        assert(push_input(first + second) =~= push_input(first) + push_input(second));
    }
}

/// Whether `oid` can stand on a line of its own.
pub open spec fn fits_a_line(oid: Seq<char>) -> bool {
    &&& forall|i: int| 0 <= i < oid.len() ==> #[trigger] oid[i] != '\n'
    &&& oid.len() > 0 ==> oid.last() != '\r'
}

proof fn lemma_lines_of_push_input(oids: Seq<Seq<char>>)
    requires
        forall|i: int| 0 <= i < oids.len() ==> fits_a_line(#[trigger] oids[i]),
    ensures
        lines_of(push_input(oids)) == oids,
    decreases oids.len(),
{
    if oids.len() == 0 {
        law_lines_end_at_line_feeds(seq![], seq![]);
        assert(push_input(oids) =~= seq![]);
        assert(lines_of(push_input(oids)) =~= oids);
    } else {
        let rest = oids.drop_first();
        assert forall|i: int| 0 <= i < rest.len() implies fits_a_line(#[trigger] rest[i]) by {
            assert(rest[i] == oids[i + 1]);
        }
        lemma_lines_of_push_input(rest);
        law_push_input_is_made_of_its_objects(seq![oids[0]], rest, oids[0]);
        assert(seq![oids[0]] + rest =~= oids);
        assert(fits_a_line(oids[0]));
        law_lines_end_at_line_feeds(oids[0], push_input(rest));
        assert(oids[0].push('\n') + push_input(rest) =~= oids[0] + seq!['\n'] + push_input(rest));
        assert(lines_of(push_input(oids)) =~= oids);
    }
}

/// The lines of what is handed to a push are the distinct objects of the listing,
/// each whole and in order, whatever their number; that is so of all objects that
/// can stand on a line of their own.
pub proof fn law_push_input_names_each_object_on_a_line(oids: Seq<Seq<char>>)
    requires
        forall|i: int| 0 <= i < oids.len() ==> fits_a_line(#[trigger] oids[i]),
    ensures
        lines_of(push_input(oids)) == oids,
        lines_of(push_input(distinct_oids(oids))) == distinct_oids(oids),
        forall|i: int|
            0 <= i < oids.len() ==> lines_of(push_input(distinct_oids(oids))).contains(
                #[trigger] oids[i],
            ),
        forall|i: int|
            0 <= i < lines_of(push_input(distinct_oids(oids))).len() ==> oids.contains(
                #[trigger] lines_of(push_input(distinct_oids(oids)))[i],
            ),
{
    lemma_lines_of_push_input(oids);
    law_each_object_is_uploaded_once(oids);
    let distinct = distinct_oids(oids);
    assert forall|i: int| 0 <= i < distinct.len() implies fits_a_line(#[trigger] distinct[i]) by {
        assert(distinct.contains(distinct[i]));
        assert(oids.contains(distinct[i]));
        let k = choose|k: int| 0 <= k < oids.len() && oids[k] == distinct[i];
        assert(fits_a_line(oids[k]));
    }
    lemma_lines_of_push_input(distinct);
    assert forall|i: int| 0 <= i < oids.len() implies distinct.contains(#[trigger] oids[i]) by {
        assert(oids.contains(oids[i]));
    }
    assert forall|i: int| 0 <= i < distinct.len() implies oids.contains(#[trigger] distinct[i]) by {
        assert(distinct.contains(distinct[i]));
    }
}

/// A listing brings something to upload exactly if it names an object.
pub proof fn law_any_listed_object_is_uploaded(
    remote: Seq<char>,
    oids: Seq<Seq<char>>,
    left: Option<BranchesView>,
)
    ensures
        ({
            let stage = LfsStage::ParsingObjects { remote, left };
            let step = lfs_move(stage, LfsEventView::Parsed(oids));
            &&& oids.len() > 0 ==> step is Push
            &&& oids.len() > 0 ==> step->Push_next == (LfsStage::Pushing { left })
            &&& oids.len() > 0 ==> step->Push_command.program == "git"@
            &&& oids.len() > 0 ==> step->Push_command.args == seq![
                "lfs"@,
                "push"@,
                "--object-id"@,
                remote,
                "--stdin"@,
            ]
            &&& oids.len() > 0 ==> step->input == push_input(distinct_oids(oids))
            &&& oids.len() == 0 && left is None ==> step is Done
            &&& oids.len() == 0 && left is Some ==> step == next_branch_move(left->0)
        }),
{
    law_each_object_is_uploaded_once(oids);
    if oids.len() > 0 {
        assert(oids.contains(oids[0]));
        assert(distinct_oids(oids).contains(oids[0]));
    }
}

/// What each question to `git` is made of, word for word. The files of an update
/// are listed up to its new value, and from its old value exactly if there is one
/// that stands for an object and is not the new value already.
pub proof fn law_questions_are_asked_word_for_word(
    refname: Seq<char>,
    remote: Seq<char>,
    oldvalue: Option<Seq<char>>,
    newvalue: Seq<char>,
)
    ensures
        version_command().program == "git"@,
        version_command().args == seq!["lfs"@, "version"@],
        branches_command().program == "git"@,
        branches_command().args == seq![
            "for-each-ref"@,
            "--format=%(refname:lstrip=2)%09%(objectname)%09%(upstream)"@,
            "refs/heads/"@,
        ],
        rev_parse_command(refname).program == "git"@,
        rev_parse_command(refname).args == seq!["rev-parse"@, "--verify"@, "--quiet"@, refname],
        push_command(remote).program == "git"@,
        push_command(remote).args == seq!["lfs"@, "push"@, "--object-id"@, remote, "--stdin"@],
        ({
            let command = ls_files_command(oldvalue, newvalue);
            let from_old = oldvalue is Some && oldvalue->0
                != "0000000000000000000000000000000000000000"@ && oldvalue->0 != newvalue;
            &&& command.program == "git"@
            &&& command.args.take(4) == seq!["lfs"@, "ls-files"@, "--json"@, "-l"@]
            &&& command.args.last() == newvalue
            &&& command.args.len() == if from_old {
                6nat
            } else {
                5nat
            }
            &&& from_old ==> command.args[4] == oldvalue->0
        }),
{
    let command = ls_files_command(oldvalue, newvalue);
    assert(command.args.take(4) =~= seq!["lfs"@, "ls-files"@, "--json"@, "-l"@]);
}

/// Git LFS is there exactly if asking for its version succeeded; it is not there
/// exactly if that failed with a complaint that `git` does not know the command;
/// and any other failure is told with the whole complaint.
pub proof fn law_missing_git_lfs_is_told_apart(answer: AnswerView)
    ensures
        ({
            let complaint = lossy_text(answer.stderr);
            let unknown = exists|before: Seq<char>, behind: Seq<char>|
                complaint == #[trigger] (before + "is not a git command"@ + behind);
            &&& lfs_availability(answer) == Ok::<bool, FailureView>(true) <==> answer.code is Some
                && answer.code->0 == 0
            &&& lfs_availability(answer) == Ok::<bool, FailureView>(false) <==> !(answer.code is Some
                && answer.code->0 == 0) && unknown
            &&& lfs_availability(answer) is Err ==> lfs_availability(answer)->Err_0 == (
            FailureView { message: "git lfs version failed: "@ + complaint, cause: None })
        }),
{
    law_parts_are_found_anywhere(lossy_text(answer.stderr), "is not a git command"@);
}

/// Whether `text` holds no tab.
pub open spec fn has_no_tab(text: Seq<char>) -> bool {
    forall|i: int| 0 <= i < text.len() ==> #[trigger] text[i] != '\t'
}

/// A line of the listing is read back as it was written: the name of the branch up
/// to the first tab, the head up to the second, and all behind it, if there is
/// anything, as the upstream. With fewer tabs it is about no branch.
pub proof fn law_branch_lines_are_divided_by_tabs(
    name: Seq<char>,
    head: Seq<char>,
    upstream: Seq<char>,
)
    requires
        has_no_tab(name),
        has_no_tab(head),
    ensures
        branch_of(name + seq!['\t'] + head + seq!['\t'] + upstream) == Some(
            BranchView {
                branch: name,
                head,
                upstream: if upstream.len() > 0 {
                    Some(upstream)
                } else {
                    None
                },
            },
        ),
        branch_of(name) is None,
        branch_of(name + seq!['\t'] + head) is None,
{
    lemma_first_tab(name, head + seq!['\t'] + upstream);
    lemma_first_tab(head, upstream);
    lemma_first_tab(name, head);
    let line = name + seq!['\t'] + head + seq!['\t'] + upstream;
    let rest = head + seq!['\t'] + upstream;
    assert(line =~= name + seq!['\t'] + rest);
    let first = name.len() as int;
    let second = head.len() as int;
    assert(line.skip(first + 1) =~= rest);
    assert(line.take(first) =~= name);
    assert(rest.take(second) =~= head);
    assert(rest.skip(second + 1) =~= upstream);
    let short = name + seq!['\t'] + head;
    assert(short.skip(first + 1) =~= head);
}

proof fn lemma_first_tab(front: Seq<char>, behind: Seq<char>)
    requires
        has_no_tab(front),
    ensures
        first_index(front + seq!['\t'] + behind, '\t') == front.len(),
        first_index(front, '\t') == front.len(),
{
    let line = front + seq!['\t'] + behind;
    lemma_first_index(line, '\t');
    lemma_first_index(front, '\t');
    assert(line[front.len() as int] == '\t');
    assert forall|i: int| 0 <= i < front.len() implies #[trigger] line[i] != '\t' by {
        assert(front[i] == line[i]);
    }
}

/// Each line is about the branch in its place, and a listing whose lines are not
/// all about one fails with the first that is about none.
pub proof fn law_each_line_is_about_its_branch(lines: Seq<Seq<char>>)
    ensures
        match branches_of(lines) {
            Ok(branches) => branches.len() == lines.len() && forall|i: int|
                0 <= i < lines.len() ==> branch_of(#[trigger] lines[i]) == Some(branches[i]),
            Err(line) => exists|k: int|
                0 <= k < lines.len() && #[trigger] lines[k] == line && branch_of(line) is None
                    && forall|i: int| 0 <= i < k ==> branch_of(#[trigger] lines[i]) is Some,
        },
    decreases lines.len(),
{
    if lines.len() > 0 {
        let rest = lines.drop_first();
        law_each_line_is_about_its_branch(rest);
        match branches_of(lines) {
            Ok(branches) => {
                assert forall|i: int| 0 <= i < lines.len() implies branch_of(#[trigger] lines[i])
                    == Some(branches[i]) by {
                    if i > 0 {
                        assert(rest[i - 1] == lines[i]);
                    }
                }
            },
            Err(line) => {
                if branch_of(lines[0]) is Some {
                    let k = choose|k: int|
                        0 <= k < rest.len() && #[trigger] rest[k] == line && branch_of(line) is None
                            && forall|i: int|
                            0 <= i < k ==> branch_of(#[trigger] rest[i]) is Some;
                    assert(lines[k + 1] == line);
                    assert forall|i: int| 0 <= i < k + 1 implies branch_of(
                        #[trigger] lines[i],
                    ) is Some by {
                        if i > 0 {
                            assert(rest[i - 1] == lines[i]);
                        }
                    }
                } else {
                    assert(lines[0] == line);
                }
            },
        }
    }
}

/// The line that `git` writes for `branch`.
pub open spec fn branch_line(branch: BranchView) -> Seq<char> {
    branch.branch + seq!['\t'] + branch.head + seq!['\t'] + match branch.upstream {
        Some(upstream) => upstream,
        None => seq![],
    }
}

/// Whether `branch` can be told from the line that is written for it.
pub open spec fn is_listable(branch: BranchView) -> bool {
    &&& has_no_tab(branch.branch)
    &&& has_no_tab(branch.head)
    &&& fits_a_line(branch_line(branch))
    &&& branch.upstream is Some ==> branch.upstream->0.len() > 0
}

/// A listing of branches is read back as the branches it was written for, all of
/// them and in order.
pub proof fn law_branches_are_read_as_listed(branches: Seq<BranchView>, answer: AnswerView)
    requires
        forall|i: int| 0 <= i < branches.len() ==> is_listable(#[trigger] branches[i]),
        answer.code == Some(0i32),
        valid_utf8(answer.stdout),
        decode_utf8(answer.stdout) == push_input(
            Seq::new(branches.len(), |i: int| branch_line(branches[i])),
        ),
    ensures
        listed_branches(answer) == Ok::<Seq<BranchView>, FailureView>(branches),
{
    let lines = Seq::new(branches.len(), |i: int| branch_line(branches[i]));
    assert forall|i: int| 0 <= i < lines.len() implies fits_a_line(#[trigger] lines[i])
        && branch_of(lines[i]) == Some(branches[i]) by {
        let branch = branches[i];
        assert(is_listable(branch));
        law_branch_lines_are_divided_by_tabs(
            branch.branch,
            branch.head,
            match branch.upstream {
                Some(upstream) => upstream,
                None => seq![],
            },
        );
    }
    lemma_lines_of_push_input(lines);
    law_each_line_is_about_its_branch(lines);
    match branches_of(lines) {
        Ok(read) => {
            assert forall|i: int| 0 <= i < branches.len() implies #[trigger] read[i]
                == branches[i] by {
                assert(branch_of(lines[i]) == Some(read[i]));
            }
            assert(read =~= branches);
        },
        Err(line) => {},
    }
}

/// A listing that failed, one that is no text, and one with a line that is about
/// no branch are told apart, each with the whole complaint, cause or line.
pub proof fn law_failed_listings_are_told(answer: AnswerView)
    ensures
        listed_branches(answer) is Ok ==> answer.code == Some(0i32) && valid_utf8(answer.stdout),
        answer.code != Some(0i32) ==> listed_branches(answer) == Err::<
            Seq<BranchView>,
            FailureView,
        >(
            FailureView {
                message: "git for-each-ref failed: "@ + lossy_text(answer.stderr),
                cause: None,
            },
        ),
        answer.code == Some(0i32) && !valid_utf8(answer.stdout) ==> listed_branches(answer) == Err::<
            Seq<BranchView>,
            FailureView,
        >(
            FailureView {
                message: "branch listing was not UTF-8"@,
                cause: Some(utf8_fault(answer.stdout)),
            },
        ),
        answer.code == Some(0i32) && valid_utf8(answer.stdout) ==> match branches_of(
            lines_of(decode_utf8(answer.stdout)),
        ) {
            Ok(branches) => listed_branches(answer) == Ok::<Seq<BranchView>, FailureView>(branches),
            Err(line) => listed_branches(answer) == Err::<Seq<BranchView>, FailureView>(
                FailureView {
                    message: "git for-each-ref returned malformed line: "@ + line,
                    cause: None,
                },
            ),
        },
{
}

/// A ref resolves to what `git` printed, without the white space around it,
/// exactly if `git` succeeded with a text; to nothing exactly if `git` ended with
/// one; and else the failure tells the whole ref and the whole complaint.
pub proof fn law_refs_resolve_to_what_was_printed(refname: Seq<char>, answer: AnswerView)
    ensures
        answer.code == Some(0i32) && valid_utf8(answer.stdout) ==> resolved(refname, answer) == Ok::<
            Option<Seq<char>>,
            FailureView,
        >(Some(trimmed(decode_utf8(answer.stdout)))),
        answer.code == Some(0i32) && !valid_utf8(answer.stdout) ==> resolved(refname, answer)
            == Err::<Option<Seq<char>>, FailureView>(
            FailureView {
                message: "ref sha was not UTF-8"@,
                cause: Some(utf8_fault(answer.stdout)),
            },
        ),
        answer.code == Some(1i32) <==> resolved(refname, answer) == Ok::<
            Option<Seq<char>>,
            FailureView,
        >(None),
        answer.code != Some(0i32) && answer.code != Some(1i32) ==> resolved(refname, answer)
            == Err::<Option<Seq<char>>, FailureView>(
            FailureView {
                message: "git rev-parse "@ + refname + " failed: "@ + lossy_text(answer.stderr),
                cause: None,
            },
        ),
{
}

/// A branch starts from its upstream, whatever that is, and from what the host had
/// checked out where it has none.
pub proof fn law_branches_start_from_their_upstream(branch: BranchView)
    ensures
        branch.upstream is Some ==> base_ref(branch) == branch.upstream->0,
        branch.upstream is None ==> base_ref(branch) == "refs/remotes/host/HEAD"@,
{
}

/// The upload for a ref update asks in order: for Git LFS, for the files that
/// changed, for what their listing says, and then it hands the objects on. A ref
/// that is deleted is asked nothing for, and without Git LFS nothing is uploaded.
pub proof fn law_updates_ask_one_after_the_other(
    remote: Seq<char>,
    oldvalue: Option<Seq<char>>,
    newvalue: Seq<char>,
    version: AnswerView,
    listing: AnswerView,
    oids: Seq<Seq<char>>,
)
    requires
        newvalue != "0000000000000000000000000000000000000000"@,
        version.code == Some(0i32),
        listing.code == Some(0i32),
    ensures
        ({
            let start = update_start(remote, oldvalue, newvalue);
            let listed = lfs_run(start, seq![LfsEventView::Ran(version)]);
            let parsed = lfs_run(
                start,
                seq![LfsEventView::Ran(version), LfsEventView::Ran(listing)],
            );
            &&& start is Run
            &&& start->Run_command.args == seq!["lfs"@, "version"@]
            &&& listed is Run
            &&& listed->Run_command.args.take(4) == seq!["lfs"@, "ls-files"@, "--json"@, "-l"@]
            &&& listed->Run_command.args.last() == newvalue
            &&& listed->Run_command.args.len() == 6 <==> oldvalue is Some && oldvalue->0
                != "0000000000000000000000000000000000000000"@ && oldvalue->0 != newvalue
            &&& listed->Run_command.args.len() == 6 ==> listed->Run_command.args[4] == oldvalue->0
            &&& parsed is Parse
            &&& parsed->bytes == listing.stdout
            &&& lfs_run(
                start,
                seq![
                    LfsEventView::Ran(version),
                    LfsEventView::Ran(listing),
                    LfsEventView::Parsed(oids),
                ],
            ) == lfs_move(
                LfsStage::ParsingObjects { remote, left: None },
                LfsEventView::Parsed(oids),
            )
        }),
        update_start(remote, oldvalue, "0000000000000000000000000000000000000000"@) is Done,
{
    let start = update_start(remote, oldvalue, newvalue);
    reveal_with_fuel(lfs_run, 5);
    law_questions_are_asked_word_for_word(newvalue, remote, oldvalue, newvalue);
    law_missing_git_lfs_is_told_apart(version);
    let one = seq![LfsEventView::Ran(version)];
    let two = seq![LfsEventView::Ran(version), LfsEventView::Ran(listing)];
    let three = seq![
        LfsEventView::Ran(version),
        LfsEventView::Ran(listing),
        LfsEventView::Parsed(oids),
    ];
    assert(one.drop_first() =~= seq![]);
    assert(two.drop_first() =~= seq![LfsEventView::Ran(listing)]);
    assert(two.drop_first().drop_first() =~= seq![]);
    assert(three.drop_first() =~= seq![LfsEventView::Ran(listing), LfsEventView::Parsed(oids)]);
    assert(three.drop_first().drop_first() =~= seq![LfsEventView::Parsed(oids)]);
    assert(three.drop_first().drop_first().drop_first() =~= seq![]);
}

/// The upload for the branches of a pod asks in order for Git LFS, for the
/// branches, and then for what was last pushed of each of them, first come first.
pub proof fn law_pushes_go_branch_by_branch(
    pod_name: Seq<char>,
    version: AnswerView,
    listing: AnswerView,
    heads: Seq<BranchView>,
)
    requires
        version.code == Some(0i32),
        listed_branches(listing) == Ok::<Seq<BranchView>, FailureView>(heads),
    ensures
        ({
            let start = push_start(pod_name);
            let listed = lfs_run(start, seq![LfsEventView::Ran(version)]);
            let first = lfs_run(
                start,
                seq![LfsEventView::Ran(version), LfsEventView::Ran(listing)],
            );
            &&& start is Run
            &&& start->Run_command.args == seq!["lfs"@, "version"@]
            &&& listed is Run
            &&& listed->Run_command == branches_command()
            &&& heads.len() == 0 ==> first is Done
            &&& heads.len() > 0 ==> first is Run
            &&& heads.len() > 0 ==> first->Run_command.args == seq![
                "rev-parse"@,
                "--verify"@,
                "--quiet"@,
                "refs/remotes/rumpelpod/"@ + heads[0].branch + "@"@ + pod_name,
            ]
            &&& heads.len() > 0 ==> first->Run_next == (LfsStage::ResolvingTracking {
                branch: heads[0],
                rest: BranchesView { pod_name, heads: heads.drop_first() },
            })
        }),
{
    reveal_with_fuel(lfs_run, 4);
    law_missing_git_lfs_is_told_apart(version);
    let one = seq![LfsEventView::Ran(version)];
    let two = seq![LfsEventView::Ran(version), LfsEventView::Ran(listing)];
    assert(one.drop_first() =~= seq![]);
    assert(two.drop_first() =~= seq![LfsEventView::Ran(listing)]);
    assert(two.drop_first().drop_first() =~= seq![]);
}

/// Where the upload goes once the objects of an update are settled: to the first
/// branch that is left, by what was last pushed of it, and to its end where none
/// is.
pub proof fn law_settled_uploads_go_on(answer: AnswerView, rest: BranchesView)
    requires
        answer.code == Some(0i32),
    ensures
        lfs_move(LfsStage::Pushing { left: None }, LfsEventView::Ran(answer)) is Done,
        ({
            let step = lfs_move(
                LfsStage::Pushing { left: Some(rest) },
                LfsEventView::Ran(answer),
            );
            &&& rest.heads.len() == 0 ==> step is Done
            &&& rest.heads.len() > 0 ==> step is Run
            &&& rest.heads.len() > 0 ==> step->Run_command.args == seq![
                "rev-parse"@,
                "--verify"@,
                "--quiet"@,
                "refs/remotes/rumpelpod/"@ + rest.heads[0].branch + "@"@ + rest.pod_name,
            ]
            &&& rest.heads.len() > 0 ==> step->Run_next == (LfsStage::ResolvingTracking {
                branch: rest.heads[0],
                rest: BranchesView { pod_name: rest.pod_name, heads: rest.heads.drop_first() },
            })
        }),
{
}

/// Whether `step` lists what `branch` has beyond `oldvalue`, to be pushed to the
/// remote of the pods, with `rest` left behind it.
pub open spec fn lists_branch(
    step: LfsMove,
    branch: BranchView,
    oldvalue: Option<Seq<char>>,
    rest: BranchesView,
) -> bool {
    let from_old = oldvalue is Some && oldvalue->0 != "0000000000000000000000000000000000000000"@;
    &&& step is Run
    &&& step->Run_next == (LfsStage::ListingObjects {
        remote: "rumpelpod"@,
        left: Some(rest),
    })
    &&& step->Run_command.program == "git"@
    &&& step->Run_command.args == if from_old {
        seq!["lfs"@, "ls-files"@, "--json"@, "-l"@, oldvalue->0, branch.head]
    } else {
        seq!["lfs"@, "ls-files"@, "--json"@, "-l"@, branch.head]
    }
}

/// A branch is compared with what was last pushed of it and, where nothing was,
/// with what it starts from. Where it still is there, the upload goes on with the
/// next branch; else its files are listed from there up to its head, or all files
/// of its head where there is nothing to compare it with.
pub proof fn law_branches_are_compared_with_what_was_pushed(
    branch: BranchView,
    rest: BranchesView,
    answer: AnswerView,
)
    ensures
        ({
            let pushed = lfs_move(
                LfsStage::ResolvingTracking { branch, rest },
                LfsEventView::Ran(answer),
            );
            let based = lfs_move(
                LfsStage::ResolvingBase { branch, rest },
                LfsEventView::Ran(answer),
            );
            let object = trimmed(decode_utf8(answer.stdout));
            let found = answer.code == Some(0i32) && valid_utf8(answer.stdout);
            &&& found && object == branch.head ==> pushed == next_branch_move(rest) && based
                == next_branch_move(rest)
            &&& found && object != branch.head ==> lists_branch(pushed, branch, Some(object), rest)
                && lists_branch(based, branch, Some(object), rest)
            &&& answer.code == Some(1i32) ==> lists_branch(based, branch, None, rest)
            &&& answer.code == Some(1i32) ==> pushed is Run
            &&& answer.code == Some(1i32) ==> pushed->Run_next == (LfsStage::ResolvingBase {
                branch,
                rest,
            })
            &&& answer.code == Some(1i32) ==> pushed->Run_command.args == seq![
                "rev-parse"@,
                "--verify"@,
                "--quiet"@,
                match branch.upstream {
                    Some(upstream) => upstream,
                    None => "refs/remotes/host/HEAD"@,
                },
            ]
            &&& !found && answer.code != Some(1i32) ==> pushed is Failed && based is Failed
        }),
{
    let object = trimmed(decode_utf8(answer.stdout));
    law_refs_resolve_to_what_was_printed(tracking_ref(branch.branch, rest.pod_name), answer);
    law_refs_resolve_to_what_was_printed(base_ref(branch), answer);
    let listed = ls_files_command(Some(object), branch.head);
    assert(seq!["lfs"@, "ls-files"@, "--json"@, "-l"@] + seq![object, branch.head] =~= seq![
        "lfs"@,
        "ls-files"@,
        "--json"@,
        "-l"@,
        object,
        branch.head,
    ]);
    assert(seq!["lfs"@, "ls-files"@, "--json"@, "-l"@] + seq![branch.head] =~= seq![
        "lfs"@,
        "ls-files"@,
        "--json"@,
        "-l"@,
        branch.head,
    ]);
}

/// A question that could not be put fails the upload with what was asked and the
/// whole cause.
pub proof fn law_unasked_questions_are_told(
    stage: LfsStage,
    branch: BranchView,
    rest: BranchesView,
    cause: Seq<char>,
)
    ensures
        stage is CheckingForUpdate || stage is CheckingForPush ==> lfs_move(
            stage,
            LfsEventView::NotRun(cause),
        ) == LfsMove::Failed(
            FailureView { message: "checking git lfs availability"@, cause: Some(cause) },
        ),
        stage is ListingBranches ==> lfs_move(stage, LfsEventView::NotRun(cause))
            == LfsMove::Failed(
            FailureView { message: "listing local branches"@, cause: Some(cause) },
        ),
        stage is ListingObjects ==> lfs_move(stage, LfsEventView::NotRun(cause)) == LfsMove::Failed(
            FailureView { message: "listing changed git lfs objects"@, cause: Some(cause) },
        ),
        stage is ParsingObjects ==> lfs_move(stage, LfsEventView::Unparsable(cause))
            == LfsMove::Failed(
            FailureView { message: "parsing git lfs ls-files output"@, cause: Some(cause) },
        ),
        lfs_move(LfsStage::ResolvingTracking { branch, rest }, LfsEventView::NotRun(cause))
            == LfsMove::Failed(
            FailureView {
                message: "resolving ref "@ + ("refs/remotes/rumpelpod/"@ + branch.branch + "@"@
                    + rest.pod_name),
                cause: Some(cause),
            },
        ),
        lfs_move(LfsStage::ResolvingBase { branch, rest }, LfsEventView::NotRun(cause))
            == LfsMove::Failed(
            FailureView {
                message: "resolving ref "@ + match branch.upstream {
                    Some(upstream) => upstream,
                    None => "refs/remotes/host/HEAD"@,
                },
                cause: Some(cause),
            },
        ),
{
}

/// A question that was answered with a failure fails the upload with the whole
/// complaint, and one that fails names what could not be resolved.
pub proof fn law_failed_answers_are_told(
    remote: Seq<char>,
    left: Option<BranchesView>,
    oldvalue: Option<Seq<char>>,
    newvalue: Seq<char>,
    pod_name: Seq<char>,
    branch: BranchView,
    rest: BranchesView,
    answer: AnswerView,
)
    ensures
        ({
            let event = LfsEventView::Ran(answer);
            let available = lfs_availability(answer);
            &&& answer.code != Some(0i32) ==> lfs_move(
                LfsStage::ListingObjects { remote, left },
                event,
            ) == LfsMove::Failed(
                FailureView {
                    message: "git lfs ls-files failed: "@ + lossy_text(answer.stderr),
                    cause: None,
                },
            )
            &&& answer.code != Some(0i32) ==> lfs_move(LfsStage::Pushing { left }, event)
                == LfsMove::Failed(
                FailureView {
                    message: "git lfs push --object-id failed: "@ + lossy_text(answer.stdout)
                        + lossy_text(answer.stderr),
                    cause: None,
                },
            )
            &&& available is Err ==> lfs_move(
                LfsStage::CheckingForUpdate { remote, oldvalue, newvalue },
                event,
            ) == LfsMove::Failed(available->Err_0)
            &&& available is Err ==> lfs_move(LfsStage::CheckingForPush { pod_name }, event)
                == LfsMove::Failed(available->Err_0)
            &&& available == Ok::<bool, FailureView>(false) ==> lfs_move(
                LfsStage::CheckingForUpdate { remote, oldvalue, newvalue },
                event,
            ) is Done
            &&& available == Ok::<bool, FailureView>(false) ==> lfs_move(
                LfsStage::CheckingForPush { pod_name },
                event,
            ) is Done
            &&& listed_branches(answer) is Err ==> lfs_move(
                LfsStage::ListingBranches { pod_name },
                event,
            ) == LfsMove::Failed(listed_branches(answer)->Err_0)
            &&& resolved(tracking_ref(branch.branch, rest.pod_name), answer) is Err ==> lfs_move(
                LfsStage::ResolvingTracking { branch, rest },
                event,
            ) == LfsMove::Failed(
                resolved(tracking_ref(branch.branch, rest.pod_name), answer)->Err_0,
            )
            &&& resolved(base_ref(branch), answer) is Err ==> lfs_move(
                LfsStage::ResolvingBase { branch, rest },
                event,
            ) == LfsMove::Failed(resolved(base_ref(branch), answer)->Err_0)
        }),
{
}

/// An upload that did not come to an end says at what, with the whole cause.
pub proof fn law_broken_pushes_are_told(left: Option<BranchesView>, cause: String)
    ensures
        lfs_move(
            LfsStage::Pushing { left },
            LfsEventView::NotPushed(PushFault::NotSpawned(cause)),
        ) == LfsMove::Failed(
            FailureView { message: "spawning git lfs push"@, cause: Some(cause@) },
        ),
        lfs_move(LfsStage::Pushing { left }, LfsEventView::NotPushed(PushFault::NoInput))
            == LfsMove::Failed(
            FailureView { message: "git lfs push stdin was not captured"@, cause: None },
        ),
        lfs_move(
            LfsStage::Pushing { left },
            LfsEventView::NotPushed(PushFault::NotWritten(cause)),
        ) == LfsMove::Failed(
            FailureView { message: "writing git lfs object id"@, cause: Some(cause@) },
        ),
        lfs_move(
            LfsStage::Pushing { left },
            LfsEventView::NotPushed(PushFault::NotAwaited(cause)),
        ) == LfsMove::Failed(
            FailureView { message: "waiting for git lfs push"@, cause: Some(cause@) },
        ),
{
}

/// Listings, branches and answers are viewed with all that they hold.
pub proof fn law_listings_are_viewed_whole(
    listing: GitLfsLsFiles,
    branch: BranchHead,
    branches: Branches,
    finished: Finished,
)
    ensures
        listing.files is None ==> listing@.len() == 0,
        listing.files is Some ==> listing@.len() == listing.files->0@.len(),
        listing.files is Some ==> forall|i: int|
            0 <= i < listing@.len() ==> #[trigger] listing@[i] == listing.files->0@[i].oid@,
        branch@.branch == branch.branch@,
        branch@.head == branch.head@,
        branch.upstream is None <==> branch@.upstream is None,
        branch.upstream is Some ==> branch@.upstream == Some(branch.upstream->0@),
        branches@.pod_name == branches.pod_name@,
        branches@.heads.len() == branches.heads@.len(),
        forall|i: int|
            0 <= i < branches.heads@.len() ==> #[trigger] branches@.heads[i] == branches.heads@[i]@,
        answer(finished).code == finished.code,
        answer(finished).stdout == finished.stdout@,
        answer(finished).stderr == finished.stderr@,
{
}

/// Uploads are viewed with all that they hold.
pub proof fn law_uploads_are_viewed_whole(
    text: String,
    other: String,
    value: String,
    branch: BranchHead,
    rest: Branches,
    finished: Finished,
    fault: PushFault,
    listing: GitLfsLsFiles,
    next: LfsUpload,
    command: CommandLine,
    bytes: Vec<u8>,
    failure: Failure,
)
    ensures
        (LfsUpload::CheckingForUpdate {
            remote: text,
            oldvalue: Some(other),
            newvalue: value,
        })@ == (LfsStage::CheckingForUpdate {
            remote: text@,
            oldvalue: Some(other@),
            newvalue: value@,
        }),
        (LfsUpload::CheckingForUpdate { remote: text, oldvalue: None, newvalue: value })@ == (
        LfsStage::CheckingForUpdate { remote: text@, oldvalue: None, newvalue: value@ }),
        (LfsUpload::CheckingForPush { pod_name: text })@ == (LfsStage::CheckingForPush {
            pod_name: text@,
        }),
        (LfsUpload::ListingBranches { pod_name: text })@ == (LfsStage::ListingBranches {
            pod_name: text@,
        }),
        (LfsUpload::ResolvingTracking { branch, rest })@ == (LfsStage::ResolvingTracking {
            branch: branch@,
            rest: rest@,
        }),
        (LfsUpload::ResolvingBase { branch, rest })@ == (LfsStage::ResolvingBase {
            branch: branch@,
            rest: rest@,
        }),
        (LfsUpload::ListingObjects { remote: text, left: Some(rest) })@ == (
        LfsStage::ListingObjects { remote: text@, left: Some(rest@) }),
        (LfsUpload::ListingObjects { remote: text, left: None })@ == (LfsStage::ListingObjects {
            remote: text@,
            left: None,
        }),
        (LfsUpload::ParsingObjects { remote: text, left: Some(rest) })@ == (
        LfsStage::ParsingObjects { remote: text@, left: Some(rest@) }),
        (LfsUpload::ParsingObjects { remote: text, left: None })@ == (LfsStage::ParsingObjects {
            remote: text@,
            left: None,
        }),
        (LfsUpload::Pushing { left: Some(rest) })@ == (LfsStage::Pushing { left: Some(rest@) }),
        (LfsUpload::Pushing { left: None })@ == (LfsStage::Pushing { left: None }),
        LfsEvent::Ran(finished)@ == LfsEventView::Ran(answer(finished)),
        LfsEvent::NotRun(text)@ == LfsEventView::NotRun(text@),
        LfsEvent::NotPushed(fault)@ == LfsEventView::NotPushed(fault),
        LfsEvent::Parsed(Ok(listing))@ == LfsEventView::Parsed(listing@),
        LfsEvent::Parsed(Err(text))@ == LfsEventView::Unparsable(text@),
        (LfsStep::Run { next, command })@ == (LfsMove::Run { next: next@, command: command@ }),
        (LfsStep::Push { next, command, input: text })@ == (LfsMove::Push {
            next: next@,
            command: command@,
            input: text@,
        }),
        (LfsStep::Parse { next, bytes })@ == (LfsMove::Parse { next: next@, bytes: bytes@ }),
        LfsStep::Done@ == LfsMove::Done,
        LfsStep::Failed(failure)@ == LfsMove::Failed(failure@),
        LfsStep::Unexpected(next)@ == LfsMove::Unexpected(next@),
{
}

/// The upload for a ref update starts with a question exactly if the ref is not
/// deleted, and keeps the remote and both values as they are.
pub proof fn law_started_updates_keep_their_values(
    remote: &str,
    oldvalue: Option<&str>,
    newvalue: &str,
    step: LfsStep,
)
    requires
        call_ensures(upload_lfs_objects_for_ref_update, (remote, oldvalue, newvalue), step),
    ensures
        step is Done <==> newvalue@ == "0000000000000000000000000000000000000000"@,
        step is Done || step is Run,
        step is Run ==> {
            &&& step->Run_command@.program == "git"@
            &&& step->Run_command@.args == seq!["lfs"@, "version"@]
            &&& step->Run_next@ == (LfsStage::CheckingForUpdate {
                remote: remote@,
                oldvalue: match oldvalue {
                    Some(object) => Some(object@),
                    None => None,
                },
                newvalue: newvalue@,
            })
        },
{
}

/// The upload for the branches of a pod starts with the same question, and keeps
/// the name of the pod.
pub proof fn law_started_pushes_keep_their_pod(pod_name: &str, step: LfsStep)
    requires
        call_ensures(upload_lfs_objects_for_rumpelpod_push, (pod_name,), step),
    ensures
        step is Run,
        step->Run_command@.program == "git"@,
        step->Run_command@.args == seq!["lfs"@, "version"@],
        step->Run_next@ == (LfsStage::CheckingForPush { pod_name: pod_name@ }),
{
}

/// Behind the listing of the branches the first of them is asked for by its
/// tracking ref, with its whole name and the whole name of the pod.
pub proof fn law_first_branches_are_asked_for(
    upload: LfsUpload,
    finished: Finished,
    step: LfsStep,
    heads: Seq<BranchView>,
)
    requires
        upload is ListingBranches,
        call_ensures(LfsUpload::step, (upload, LfsEvent::Ran(finished)), step),
        listed_branches(answer(finished)) == Ok::<Seq<BranchView>, FailureView>(heads),
    ensures
        heads.len() == 0 <==> step is Done,
        heads.len() > 0 ==> step is Run,
        heads.len() > 0 ==> step->Run_command.args@.len() == 4,
        heads.len() > 0 ==> step->Run_command.args@[3]@ == "refs/remotes/rumpelpod/"@
            + heads[0].branch + "@"@ + upload->ListingBranches_pod_name@,
{
    if heads.len() > 0 {
        let pod_name = upload->ListingBranches_pod_name@;
        let refname = tracking_ref(heads[0].branch, pod_name);
        law_tracking_refs_name_branch_and_pod(heads[0].branch, heads[0].branch, pod_name, pod_name);
        law_commands_are_viewed_whole(step->Run_command);
        assert(step->Run_command@ == rev_parse_command(refname));
        assert(rev_parse_command(refname).args.len() == 4);
        assert(rev_parse_command(refname).args[3] == step->Run_command.args@[3]@);
    }
}

/// Behind the parsed listing exactly its objects are pushed, to the remote that the
/// upload is for: each of them whole and on a line of its own, none twice, in the
/// order of their names.
pub proof fn law_parsed_objects_are_pushed(
    upload: LfsUpload,
    listing: GitLfsLsFiles,
    step: LfsStep,
)
    requires
        upload is ParsingObjects,
        call_ensures(LfsUpload::step, (upload, LfsEvent::Parsed(Ok(listing))), step),
        forall|i: int| 0 <= i < listing@.len() ==> fits_a_line(#[trigger] listing@[i]),
    ensures
        listing@.len() > 0 ==> step is Push,
        step is Push ==> {
            let lines = lines_of(step->input@);
            &&& step->Push_command@.args == seq![
                "lfs"@,
                "push"@,
                "--object-id"@,
                upload->ParsingObjects_remote@,
                "--stdin"@,
            ]
            &&& forall|oid: Seq<char>| #[trigger] lines.contains(oid) <==> listing@.contains(oid)
            &&& forall|i: int, j: int|
                0 <= i < j < lines.len() ==> text_le(#[trigger] lines[i], #[trigger] lines[j])
                    && lines[i] != lines[j]
        },
{
    let remote = upload->ParsingObjects_remote@;
    let left = rest_view(upload->ParsingObjects_left);
    law_any_listed_object_is_uploaded(remote, listing@, left);
    law_push_input_names_each_object_on_a_line(listing@);
    law_each_object_is_uploaded_once(listing@);
    if listing@.len() == 0 {
        assert(!(step is Push));
    }
}

/// A step of an upload keeps the whole complaint of a command that failed, and the
/// whole cause of a question that could not be put.
pub proof fn law_upload_steps_keep_their_cause(
    upload: LfsUpload,
    finished: Finished,
    failed: LfsStep,
    cause: String,
    unasked: LfsStep,
)
    requires
        call_ensures(LfsUpload::step, (upload, LfsEvent::Ran(finished)), failed),
        call_ensures(LfsUpload::step, (upload, LfsEvent::NotRun(cause)), unasked),
    ensures
        upload is Pushing && finished.code != Some(0i32) ==> failed is Failed
            && failed->Failed_0@.message == "git lfs push --object-id failed: "@ + lossy_text(
            finished.stdout@,
        ) + lossy_text(finished.stderr@),
        upload is ListingObjects && finished.code != Some(0i32) ==> failed is Failed
            && failed->Failed_0@.message == "git lfs ls-files failed: "@ + lossy_text(
            finished.stderr@,
        ),
        unasked is Failed <==> !(upload is ParsingObjects) && !(upload is Pushing),
        unasked is Failed ==> unasked->Failed_0@.cause == Some(cause@),
{
}

/// An upload goes where the answer leads that it was given, whatever its stage.
pub proof fn law_steps_follow_from_their_answers(
    upload: LfsUpload,
    event: LfsEvent,
    step: LfsStep,
)
    requires
        call_ensures(LfsUpload::step, (upload, event), step),
    ensures
        step@ == lfs_move(upload@, event@),
        step is Unexpected ==> step->Unexpected_0@ == upload@,
        upload is Pushing && event is Ran && event->Ran_0.code == Some(0i32)
            && upload->Pushing_left is None ==> step is Done,
        upload is ListingObjects && event is Ran && event->Ran_0.code == Some(0i32) ==> step is Parse
            && step->bytes@ == event->Ran_0.stdout@,
{
}

} // verus!
