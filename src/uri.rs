//! Post URIs and the author identifier they carry.
use vstd::prelude::*;

verus! {

/// The URI of a post: `"at://" + repo + "/" + path`.
pub open spec fn post_uri_of(repo: Seq<char>, path: Seq<char>) -> Seq<char> {
    "at://"@ + repo + "/"@ + path
}

/// Index of the first `'/'` in `s`, or `s.len()` when there is none.
pub open spec fn first_slash(s: Seq<char>) -> nat
    decreases s.len(),
{
    if s.len() == 0 {
        0
    } else if s[0] == '/' {
        0
    } else {
        1 + first_slash(s.skip(1))
    }
}

/// The `n`-th field (counting from 0) of `s` split at every `'/'`.
pub open spec fn segment(s: Seq<char>, n: nat) -> Option<Seq<char>>
    decreases n,
{
    let i = first_slash(s);
    if n == 0 {
        Some(s.take(i as int))
    } else if i >= s.len() {
        None
    } else {
        segment(s.skip(i + 1 as int), (n - 1) as nat)
    }
}

/// The author identifier of a post URI: its third `'/'`-separated field
/// (`at:`, the empty field, then the repository).
pub open spec fn author_of_spec(uri: Seq<char>) -> Option<Seq<char>> {
    segment(uri, 2)
}

proof fn lemma_first_slash(s: Seq<char>, i: int)
    requires
        0 <= i <= s.len(),
        forall|j: int| 0 <= j < i ==> s[j] != '/',
        i < s.len() ==> s[i] == '/',
    ensures
        first_slash(s) == i,
    decreases s.len(),
{
    if s.len() > 0 && s[0] != '/' {
        lemma_first_slash(s.skip(1), i - 1);
    }
}

/// Builds the URI of the post stored at `path` in repository `repo`.
pub fn post_uri(repo: &str, path: &str) -> (r: String)
    ensures
        r@ == post_uri_of(repo@, path@),
{
    let mut s = String::from_str("at://");
    s.append(repo);
    s.append("/");
    s.append(path);
    s
}

/// Position of the first `'/'` of `s` at or after `from`, or its length.
fn find_slash(s: &str, len: usize, from: usize) -> (r: usize)
    requires
        len == s@.len(),
        from <= len,
    ensures
        from <= r <= len,
        forall|j: int| from <= j < r ==> s@[j] != '/',
        r < len ==> s@[r as int] == '/',
{
    let mut i = from;
    while i < len
        invariant
            len == s@.len(),
            from <= i <= len,
            forall|j: int| from <= j < i ==> s@[j] != '/',
        decreases len - i,
    {
        if s.get_char(i) == '/' {
            return i;
        }
        i = i + 1;
    }
    i
}

/// The author identifier named by a post URI, if the URI has a third field.
pub fn author_of(uri: &str) -> (r: Option<String>)
    ensures
        r matches Some(a) ==> author_of_spec(uri@) == Some(a@),
        r is None ==> author_of_spec(uri@) is None,
{
    let len = uri.unicode_len();
    let s = Ghost(uri@);
    let mut start: usize = 0;
    let mut k: usize = 0;
    assert(s@.skip(0) =~= s@);
    while k < 2
        invariant
            len == s@.len(),
            s@ == uri@,
            start <= len,
            k <= 2,
            segment(s@, 2) == segment(s@.skip(start as int), (2 - k) as nat),
        decreases 2 - k,
    {
        let i = find_slash(uri, len, start);
        let t = Ghost(s@.skip(start as int));
        proof {
            assert forall|j: int| 0 <= j < i - start implies t@[j] != '/' by {
                assert(t@[j] == s@[start + j]);
            }
            lemma_first_slash(t@, i - start);
        }
        if i >= len {
            return None;
        }
        proof {
            assert(t@.skip(i - start + 1) =~= s@.skip(i + 1));
        }
        start = i + 1;
        k = k + 1;
    }
    let end = find_slash(uri, len, start);
    let t = Ghost(s@.skip(start as int));
    proof {
        assert forall|j: int| 0 <= j < end - start implies t@[j] != '/' by {
            assert(t@[j] == s@[start + j]);
        }
        lemma_first_slash(t@, end - start);
        assert(t@.take(end - start) =~= s@.subrange(start as int, end as int));
    }
    let a = uri.substring_char(start, end);
    Some(a.to_string())
}

} // verus!
