//! Paths as text.
use vstd::prelude::*;
use vstd::string::*;

use crate::text::chars_of;

verus! {

/// The path of `name` in `directory`.
pub open spec fn path_in(directory: Seq<char>, name: Seq<char>) -> Seq<char> {
    if directory.len() == 0 || directory.last() == '/' {
        directory + name
    } else {
        directory + seq!['/'] + name
    }
}

/// The path of the file `name` in `directory`. An absolute `name` would
/// replace the directory instead of standing in it.
pub fn join(directory: &str, name: &str) -> (r: String)
    requires
        name@.len() > 0 ==> name@[0] != '/',
    ensures
        r@ == path_in(directory@, name@),
{
    let chars = chars_of(directory);
    let n: usize = chars.len();
    let mut r = directory.to_owned();
    if n > 0 && chars[n - 1] != '/' {
        proof {
            reveal_strlit("/");
        }
        r.append("/");
        assert("/"@ =~= seq!['/']);
    }
    r.append(name);
    r
}

/// A file in a directory has the directory's path, one separator unless the
/// directory ends in one or is empty, and the whole name.
pub proof fn law_paths_are_made_of_directory_and_name(directory: Seq<char>, name: Seq<char>)
    ensures
        directory.is_prefix_of(path_in(directory, name)),
        path_in(directory, name).len() >= name.len(),
        path_in(directory, name).skip(path_in(directory, name).len() - name.len()) == name,
        directory.len() > 0 && directory.last() != '/' ==> path_in(directory, name)
            == directory.push('/') + name,
        directory.len() == 0 || directory.last() == '/' ==> path_in(directory, name) == directory
            + name,
{
    let path = path_in(directory, name);
    assert(path.take(directory.len() as int) =~= directory);
    assert(path.skip(path.len() - name.len()) =~= name);
    assert(directory + seq!['/'] =~= directory.push('/'));
}

/// A joined path is the directory, one separator unless there is one already or no
/// directory, and the whole name.
pub proof fn law_joined_paths_hold_directory_and_name(directory: &str, name: &str, path: String)
    requires
        call_ensures(join, (directory, name), path),
    ensures
        directory@.len() > 0 && directory@.last() != '/' ==> path@ == directory@.push('/') + name@,
        directory@.len() == 0 || directory@.last() == '/' ==> path@ == directory@ + name@,
{
    law_paths_are_made_of_directory_and_name(directory@, name@);
}

} // verus!
