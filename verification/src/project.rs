//! Project names: an owner and a repository, separated by one `/`.

use vstd::prelude::*;
use vstd::string::*;

verus! {

/// `k` is the place of the first `/` in `name`.
pub open spec fn is_first_slash(name: Seq<char>, k: int) -> bool {
    &&& 0 <= k < name.len()
    &&& name[k] == '/'
    &&& forall|j: int| 0 <= j < k ==> name[j] != '/'
}

/// The owner and the repository of a project name, where it consists of
/// exactly two segments separated by `/`.
pub open spec fn project_parts(name: Seq<char>) -> Option<(Seq<char>, Seq<char>)> {
    if exists|k: int| is_first_slash(name, k) {
        let k = choose|k: int| is_first_slash(name, k);
        let repo = name.skip(k + 1);
        if repo.contains('/') {
            None
        } else {
            Some((name.take(k), repo))
        }
    } else {
        None
    }
}

/// A project name has at most one first `/`.
pub proof fn lemma_first_slash_unique(name: Seq<char>, a: int, b: int)
    requires
        is_first_slash(name, a),
        is_first_slash(name, b),
    ensures
        a == b,
{
    if a < b {
        assert(name[a] == '/');
    } else if b < a {
        assert(name[b] == '/');
    }
}

/// An owner and a repository without `/`, joined by `/`, form a project
/// name whose parts are that owner and that repository.
pub proof fn lemma_joined_name_parts(owner: Seq<char>, repo: Seq<char>)
    requires
        !owner.contains('/'),
        !repo.contains('/'),
    ensures
        project_parts(owner + seq!['/'] + repo) == Some((owner, repo)),
{
    let name = owner + seq!['/'] + repo;
    let at = owner.len() as int;
    assert(name[at] == '/');
    assert forall|j: int| 0 <= j < at implies name[j] != '/' by {
        assert(name[j] == owner[j]);
        assert(owner.contains(owner[j]));
    }
    assert(is_first_slash(name, at));
    let k = choose|k: int| is_first_slash(name, k);
    lemma_first_slash_unique(name, k, at);
    assert(name.take(at) =~= owner);
    assert(name.skip(at + 1) =~= repo);
}

/// Splits a project name into owner and repository. The name has to hold
/// exactly one `/`; either part may be empty.
pub fn split_project_name(name: &str) -> (parts: Option<(String, String)>)
    ensures
        match parts {
            Some((owner, repo)) => project_parts(name@) == Some((owner@, repo@)),
            None => project_parts(name@).is_none(),
        },
{
    let n: usize = name.unicode_len();
    let mut k: usize = 0;
    while k < n && name.get_char(k) != '/'
        invariant
            n == name@.len(),
            k <= n,
            forall|j: int| 0 <= j < k ==> name@[j] != '/',
        decreases n - k,
    {
        k += 1;
    }
    if k == n {
        proof {
            assert forall|c: int| !is_first_slash(name@, c) by {}
        }
        return None;
    }
    proof {
        assert(is_first_slash(name@, k as int));
        let c = choose|c: int| is_first_slash(name@, c);
        lemma_first_slash_unique(name@, c, k as int);
    }
    let mut i: usize = k + 1;
    while i < n && name.get_char(i) != '/'
        invariant
            n == name@.len(),
            k < i <= n,
            forall|j: int| k < j < i ==> name@[j] != '/',
        decreases n - i,
    {
        i += 1;
    }
    let ghost rest = name@.skip(k + 1);
    if i < n {
        proof {
            assert(rest[i - k - 1] == '/');
        }
        return None;
    }
    proof {
        assert forall|j: int| 0 <= j < rest.len() implies rest[j] != '/' by {
            assert(rest[j] == name@[j + k + 1]);
        }
    }
    let owner = String::from_str(name.substring_char(0, k));
    let repo = String::from_str(name.substring_char(k + 1, n));
    proof {
        assert(name@.subrange(0, k as int) =~= name@.take(k as int));
        assert(name@.subrange(k + 1, n as int) =~= rest);
    }
    Some((owner, repo))
}

} // verus!
