use vstd::prelude::*;
use vstd::string::StrSliceExecFns;
use vstd::string::StringExecFns;

verus! {

/// The largest index in `s` holding `c`, or -1 if none does.
pub open spec fn spec_rfind(s: Seq<char>, c: char) -> int
    decreases s.len(),
{
    if s.len() == 0 {
        -1
    } else if s[s.len() - 1] == c {
        s.len() - 1
    } else {
        spec_rfind(s.drop_last(), c)
    }
}

/// `spec_rfind` points at `c`, and at the last one.
pub proof fn lemma_spec_rfind(s: Seq<char>, c: char)
    ensures
        -1 <= spec_rfind(s, c) < s.len(),
        spec_rfind(s, c) >= 0 ==> s[spec_rfind(s, c)] == c,
        forall|j: int| spec_rfind(s, c) < j < s.len() ==> s[j] != c,
    decreases s.len(),
{
    if s.len() > 0 && s[s.len() - 1] != c {
        lemma_spec_rfind(s.drop_last(), c);
        assert forall|j: int| spec_rfind(s, c) < j < s.len() implies s[j] != c by {
            if j < s.len() - 1 {
                assert(s.drop_last()[j] == s[j]);
            }
        }
    }
}

/// A position holding `c` with none after it is where `spec_rfind` points;
/// a text with no `c` at all puts it at -1.
pub proof fn lemma_spec_rfind_is(s: Seq<char>, c: char, k: int)
    requires
        -1 <= k < s.len(),
        k >= 0 ==> s[k] == c,
        forall|j: int| k < j < s.len() ==> s[j] != c,
    ensures
        spec_rfind(s, c) == k,
    decreases s.len(),
{
    if s.len() > 0 && s[s.len() - 1] != c {
        assert forall|j: int| k < j < s.drop_last().len() implies s.drop_last()[j] != c by {
            assert(s.drop_last()[j] == s[j]);
        }
        lemma_spec_rfind_is(s.drop_last(), c, k);
    }
}

/// The index of the last `c` in `s`, if `s` holds one.
pub fn rfind_char(s: &str, c: char) -> (r: Option<usize>)
    ensures
        r is Some <==> spec_rfind(s@, c) >= 0,
        r matches Some(k) ==> k as int == spec_rfind(s@, c),
{
    let len = s.unicode_len();
    let mut i = len;
    while i > 0
        invariant
            0 <= i <= len,
            len == s@.len(),
            forall|j: int| i <= j < len ==> s@[j] != c,
        decreases i,
    {
        if s.get_char(i - 1) == c {
            proof {
                lemma_spec_rfind_is(s@, c, i - 1);
            }
            return Some(i - 1);
        }
        i = i - 1;
    }
    proof {
        lemma_spec_rfind_is(s@, c, -1);
    }
    None
}

/// The part of `name` after its last dot, counted an extension only when
/// some earlier character stands before that dot.
pub open spec fn spec_extension(name: Seq<char>) -> Option<Seq<char>> {
    let d = spec_rfind(name, '.');
    if d >= 1 {
        Some(name.skip(d + 1))
    } else {
        None
    }
}

/// The extension of a file name, as `spec_extension` defines it: `None`
/// for a dotless name and for a lone leading dot.
pub fn extension_of(name: &str) -> (r: Option<String>)
    ensures
        r is Some <==> spec_extension(name@) is Some,
        r matches Some(e) ==> e@ == spec_extension(name@)->0,
{
    match rfind_char(name, '.') {
        Some(d) => {
            if d >= 1 {
                proof {
                    lemma_spec_rfind(name@, '.');
                }
                let len = name.unicode_len();
                let e = name.substring_char(d + 1, len);
                proof {
                    assert(e@ =~= name@.skip(d + 1));
                }
                Some(e.to_owned())
            } else {
                None
            }
        },
        None => None,
    }
}

/// The part of `path` after its last slash; the whole of it without one.
pub open spec fn spec_basename(path: Seq<char>) -> Seq<char> {
    let d = spec_rfind(path, '/');
    if d >= 0 {
        path.skip(d + 1)
    } else {
        path
    }
}

/// The final name segment of a slash-separated path.
pub fn basename_of(path: &str) -> (r: String)
    ensures
        r@ == spec_basename(path@),
{
    match rfind_char(path, '/') {
        Some(d) => {
            proof {
                lemma_spec_rfind(path@, '/');
            }
            let len = path.unicode_len();
            let b = path.substring_char(d + 1, len);
            proof {
                assert(b@ =~= path@.skip(d + 1));
            }
            b.to_owned()
        },
        None => String::from_str(path),
    }
}

/// Joins a directory path and a child name with a slash.
pub fn join_path(path: &str, name: &str) -> (r: String)
    ensures
        r@ == path@ + seq!['/'] + name@,
{
    let mut r = String::from_str(path);
    r.append("/");
    r.append(name);
    proof {
        reveal_strlit("/");
        assert(r@ =~= path@ + seq!['/'] + name@);
    }
    r
}

} // verus!
