//! How this client names itself to a git server.
use vstd::prelude::*;
use vstd::string::{StrSliceExecFns, StringExecFns};

verus! {

pub open spec fn git_prefix() -> Seq<char> {
    seq!['g', 'i', 't', '/']
}

/// `name`, with `git/` put in front unless it starts with it already.
pub open spec fn agent_of(name: Seq<char>) -> Seq<char> {
    if name.len() >= 4 && name.subrange(0, 4) == git_prefix() {
        name
    } else {
        git_prefix() + name
    }
}

/// The name of the `git` client in a form fit to present to a `git` server,
/// with `name` as its user-defined part.
pub fn agent(name: String) -> (r: String)
    ensures
        r@ == agent_of(name@),
{
    let s = name.as_str();
    if s.unicode_len() >= 4 && s.get_char(0) == 'g' && s.get_char(1) == 'i' && s.get_char(2) == 't'
        && s.get_char(3) == '/' {
        assert(name@.subrange(0, 4) =~= git_prefix());
        name
    } else {
        let prefix = String::from_str("git/");
        proof {
            reveal_strlit("git/");
        }
        assert(prefix@ =~= git_prefix());
        prefix.concat(name.as_str())
    }
}

} // verus!
