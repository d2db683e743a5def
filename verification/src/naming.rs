//! File naming and decoder routing: which decoder a path is sent to,
//! the display name of an item, and the name of its output file.

use vstd::prelude::*;
use vstd::string::StrSliceExecFns;
use vstd::string::StringExecFns;

verus! {

/// `c` matches the lower-case letter or digit `lo`, accepting the
/// upper-case form of a letter.
pub open spec fn eq_ci(c: char, lo: char) -> bool {
    c == lo || (97 <= lo as u32 <= 122 && c as u32 + 32 == lo as u32)
}

/// The name ends in a dot followed by the three characters `a b c`,
/// compared case-insensitively.
pub open spec fn has_ext(s: Seq<char>, a: char, b: char, c: char) -> bool {
    &&& s.len() >= 4
    &&& s[s.len() - 4] == '.'
    &&& eq_ci(s[s.len() - 3], a)
    &&& eq_ci(s[s.len() - 2], b)
    &&& eq_ci(s[s.len() - 1], c)
}

/// The name carries one of the sensor RAW extensions (Sony, Canon,
/// Nikon, Adobe DNG) and is routed to the RAW decoder; every other
/// name goes to the generic decoder.
pub open spec fn is_raw_name(s: Seq<char>) -> bool {
    ||| has_ext(s, 'a', 'r', 'w')
    ||| has_ext(s, 'c', 'r', '2')
    ||| has_ext(s, 'n', 'e', 'f')
    ||| has_ext(s, 'd', 'n', 'g')
}

fn eq_ci_exec(c: char, lo: char) -> (r: bool)
    ensures
        r == eq_ci(c, lo),
{
    c == lo || (97 <= lo as u32 && lo as u32 <= 122 && c as u32 + 32 == lo as u32)
}

/// Decide whether a file name is routed to the RAW decoder.
pub fn is_raw_path(name: &str) -> (r: bool)
    ensures
        r == is_raw_name(name@),
{
    let n = name.unicode_len();
    if n < 4 {
        return false;
    }
    let dot = name.get_char(n - 4);
    if dot != '.' {
        return false;
    }
    let c1 = name.get_char(n - 3);
    let c2 = name.get_char(n - 2);
    let c3 = name.get_char(n - 1);
    (eq_ci_exec(c1, 'a') && eq_ci_exec(c2, 'r') && eq_ci_exec(c3, 'w')) || (eq_ci_exec(c1, 'c')
        && eq_ci_exec(c2, 'r') && eq_ci_exec(c3, '2')) || (eq_ci_exec(c1, 'n') && eq_ci_exec(
        c2,
        'e',
    ) && eq_ci_exec(c3, 'f')) || (eq_ci_exec(c1, 'd') && eq_ci_exec(c2, 'n') && eq_ci_exec(
        c3,
        'g',
    ))
}

/// The characters after the last `/` of a path; everything when the
/// path holds no `/`, and empty when it ends in one.
pub open spec fn after_last_slash(s: Seq<char>) -> Seq<char>
    decreases s.len(),
{
    if s.len() == 0 {
        s
    } else if s[s.len() - 1] == '/' {
        Seq::empty()
    } else {
        after_last_slash(s.drop_last()).push(s.last())
    }
}

/// The display name of an item: the part of its path after the last
/// `/`, or `unknown` where that part names no file.
pub open spec fn display_name(s: Seq<char>) -> Seq<char> {
    let t = after_last_slash(s);
    if t.len() == 0 || t == "."@ || t == ".."@ {
        "unknown"@
    } else {
        t
    }
}

/// When no `/` occurs at position `i` or later, and a `/` stands just
/// before `i` (or `i` is the start), the characters after the last
/// slash are exactly the suffix from `i`.
proof fn lemma_after_last_slash(s: Seq<char>, i: int)
    requires
        0 <= i <= s.len(),
        forall|j: int| i <= j < s.len() ==> s[j] != '/',
        i > 0 ==> s[i - 1] == '/',
    ensures
        after_last_slash(s) == s.subrange(i, s.len() as int),
    decreases s.len(),
{
    if s.len() == 0 {
        assert(after_last_slash(s) =~= s.subrange(i, s.len() as int));
    } else if i == s.len() {
        assert(s[s.len() - 1] == '/');
        assert(after_last_slash(s) =~= s.subrange(i, s.len() as int));
    } else {
        assert(s[s.len() - 1] != '/');
        lemma_after_last_slash(s.drop_last(), i);
        assert(after_last_slash(s.drop_last()).push(s.last()) =~= s.subrange(
            i,
            s.len() as int,
        ));
    }
}

/// Compute the display name of an item from its path.
pub fn file_name_of(path: &str) -> (r: String)
    ensures
        r@ == display_name(path@),
{
    let n = path.unicode_len();
    let mut i: usize = n;
    while i > 0 && path.get_char(i - 1) != '/'
        invariant
            i <= n,
            n == path@.len(),
            forall|j: int| i <= j < n ==> path@[j] != '/',
        decreases i,
    {
        i = i - 1;
    }
    proof {
        lemma_after_last_slash(path@, i as int);
        reveal_strlit(".");
        reveal_strlit("..");
    }
    let tail = path.substring_char(i, n);
    let m = n - i;
    let dot1 = m == 1 && tail.get_char(0) == '.';
    let dot2 = m == 2 && tail.get_char(0) == '.' && tail.get_char(1) == '.';
    if m == 0 || dot1 || dot2 {
        proof {
            if dot1 {
                assert(tail@ =~= "."@);
            }
            if dot2 {
                assert(tail@ =~= ".."@);
            }
        }
        "unknown".to_owned()
    } else {
        proof {
            assert(tail@ != "."@ && tail@ != ".."@) by {
                if tail@ == "."@ {
                    assert(tail@.len() == 1);
                }
                if tail@ == ".."@ {
                    assert(tail@.len() == 2);
                }
            }
        }
        tail.to_owned()
    }
}

/// The name of the output file written for an item.
pub fn output_file_name(name: &str) -> (r: String)
    ensures
        r@ == "processed_"@ + name@ + ".jpg"@,
{
    let mut s = "processed_".to_owned();
    s.append(name);
    s.append(".jpg");
    s
}

} // verus!
