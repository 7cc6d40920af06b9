use vstd::prelude::*;
use vstd::string::*;

verus! {

/// Position of the last `/` in `s`, or -1 when there is none.
pub open spec fn last_slash(s: Seq<char>) -> int
    decreases s.len(),
{
    if s.len() == 0 {
        -1
    } else if s.last() == '/' {
        s.len() - 1
    } else {
        last_slash(s.drop_last())
    }
}

/// The directory part of a path: everything before the last `/`, the root
/// when that `/` is the first character, and nothing when there is no `/`.
pub open spec fn parent_dir(s: Seq<char>) -> Seq<char> {
    let k = last_slash(s);
    if k < 0 {
        Seq::empty()
    } else if k == 0 {
        seq!['/']
    } else {
        s.subrange(0, k)
    }
}

/// The last component of a path: everything after the last `/`.
pub open spec fn file_name(s: Seq<char>) -> Seq<char> {
    s.subrange(last_slash(s) + 1, s.len() as int)
}

/// Whether a path starts at the root.
pub open spec fn is_absolute(s: Seq<char>) -> bool {
    s.len() > 0 && s[0] == '/'
}

/// `rel` taken relative to `base`: an absolute `rel` stands alone, otherwise
/// the two are joined with one `/` between them.
pub open spec fn join_path(base: Seq<char>, rel: Seq<char>) -> Seq<char> {
    if is_absolute(rel) || base.len() == 0 {
        rel
    } else if base.last() == '/' {
        base + rel
    } else {
        base + seq!['/'] + rel
    }
}

proof fn lemma_last_slash_bounds(s: Seq<char>)
    ensures
        -1 <= last_slash(s) < s.len(),
        last_slash(s) >= 0 ==> s[last_slash(s)] == '/',
        forall|i: int| last_slash(s) < i < s.len() ==> s[i] != '/',
    decreases s.len(),
{
    if s.len() > 0 && s.last() != '/' {
        let t = s.drop_last();
        lemma_last_slash_bounds(t);
        assert forall|i: int| last_slash(s) < i < s.len() implies s[i] != '/' by {
            if i < s.len() - 1 {
                assert(s[i] == t[i]);
            }
        }
    }
}

/// Position of the last `/` of `s`, if any.
fn find_last_slash(s: &str) -> (r: Option<usize>)
    ensures
        r.is_none() <==> last_slash(s@) == -1,
        r.is_some() ==> r.unwrap() == last_slash(s@),
{
    let n = s.unicode_len();
    let mut k: usize = n;
    assert(s@.subrange(0, n as int) =~= s@);
    while k > 0
        invariant
            k <= n == s@.len(),
            last_slash(s@) == last_slash(s@.subrange(0, k as int)),
        decreases k,
    {
        if s.get_char(k - 1) == '/' {
            return Some(k - 1);
        }
        assert(s@.subrange(0, k as int).drop_last() =~= s@.subrange(0, k - 1));
        k = k - 1;
    }
    assert(s@.subrange(0, 0) =~= Seq::<char>::empty());
    None
}

/// The directory part of `path`.
pub fn parent_of(path: &str) -> (r: String)
    ensures
        r@ == parent_dir(path@),
{
    proof {
        lemma_last_slash_bounds(path@);
    }
    match find_last_slash(path) {
        None => String::new(),
        Some(k) => {
            if k == 0 {
                let r = String::from_str("/");
                proof {
                    reveal_strlit("/");
                }
                assert(r@ =~= seq!['/']);
                r
            } else {
                path.substring_char(0, k).to_owned()
            }
        },
    }
}

/// The last component of `path`.
pub fn file_name_of(path: &str) -> (r: String)
    ensures
        r@ == file_name(path@),
{
    proof {
        lemma_last_slash_bounds(path@);
    }
    let n = path.unicode_len();
    match find_last_slash(path) {
        None => path.substring_char(0, n).to_owned(),
        Some(k) => path.substring_char(k + 1, n).to_owned(),
    }
}

/// `rel` resolved against the directory `base`.
pub fn join(base: &str, rel: &str) -> (r: String)
    ensures
        r@ == join_path(base@, rel@),
{
    let nb = base.unicode_len();
    let nr = rel.unicode_len();
    if (nr > 0 && rel.get_char(0) == '/') || nb == 0 {
        return rel.to_owned();
    }
    let mut r = base.to_owned();
    if base.get_char(nb - 1) != '/' {
        r.append("/");
        proof {
            reveal_strlit("/");
        }
    }
    r.append(rel);
    assert(r@ =~= join_path(base@, rel@));
    r
}

} // verus!
