//! Role names as the guild decorates them.
use vstd::prelude::*;

verus! {

/// Characters that decorate role names: the Ogham space mark, `|`, the
/// blank Braille pattern, and a space.
pub open spec fn is_decoration(c: char) -> bool {
    c == '\u{1680}' || c == '|' || c == '\u{2800}' || c == ' '
}

/// `t` is `s` with its leading and trailing decoration removed.
pub open spec fn is_trim_of(t: Seq<char>, s: Seq<char>) -> bool {
    exists|lo: int, hi: int|
        #![trigger s.subrange(lo, hi)]
        0 <= lo <= hi <= s.len() && t == s.subrange(lo, hi) && (forall|i: int|
            0 <= i < lo ==> is_decoration(#[trigger] s[i])) && (forall|i: int|
            hi <= i < s.len() ==> is_decoration(#[trigger] s[i])) && (lo < hi ==> !is_decoration(
            s[lo],
        ) && !is_decoration(s[hi - 1]))
}

fn decoration(c: char) -> (r: bool)
    ensures
        r == is_decoration(c),
{
    c == '\u{1680}' || c == '|' || c == '\u{2800}' || c == ' '
}

/// The bare name of a role: its name without the decoration around it.
pub fn remove_role_decoration(role_name: &str) -> (r: String)
    ensures
        is_trim_of(r@, role_name@),
{
    let n = role_name.unicode_len();
    let mut lo: usize = 0;
    while lo < n && decoration(role_name.get_char(lo))
        invariant
            lo <= n,
            n == role_name@.len(),
            forall|i: int| 0 <= i < lo ==> is_decoration(#[trigger] role_name@[i]),
        decreases n - lo,
    {
        lo = lo + 1;
    }
    let mut hi: usize = n;
    while hi > lo && decoration(role_name.get_char(hi - 1))
        invariant
            lo <= hi <= n,
            n == role_name@.len(),
            forall|i: int| hi <= i < n ==> is_decoration(#[trigger] role_name@[i]),
        decreases hi,
    {
        hi = hi - 1;
    }
    let r = String::from_str(role_name.substring_char(lo, hi));
    assert(lo < hi ==> !is_decoration(role_name@[lo as int]));
    assert(r@ == role_name@.subrange(lo as int, hi as int));
    r
}

/// Among the guild's role names, the position of the first whose bare name
/// is `role_name`.
pub fn get_role_by_decorated_name(names: &Vec<String>, role_name: &str) -> (r: Option<usize>)
    ensures
        r is Some ==> r->0 < names@.len() && is_trim_of(role_name@, names@[r->0 as int]@) && forall|
            j: int,
        |
            0 <= j < r->0 ==> !is_trim_of(role_name@, #[trigger] names@[j]@),
        r is None ==> forall|j: int|
            0 <= j < names@.len() ==> !is_trim_of(role_name@, #[trigger] names@[j]@),
{
    let mut i: usize = 0;
    while i < names.len()
        invariant
            i <= names@.len(),
            forall|j: int| 0 <= j < i ==> !is_trim_of(role_name@, #[trigger] names@[j]@),
        decreases names@.len() - i,
    {
        let bare = remove_role_decoration(names[i].as_str());
        proof {
            lemma_trim_unique(bare@, role_name@, names@[i as int]@);
        }
        if bare == role_name.to_owned() {
            return Some(i);
        }
        i = i + 1;
    }
    None
}

/// A string has one trimmed form.
pub proof fn lemma_trim_unique(t: Seq<char>, u: Seq<char>, s: Seq<char>)
    requires
        is_trim_of(t, s),
    ensures
        is_trim_of(u, s) <==> u == t,
{
    let (lo, hi) = choose|lo: int, hi: int|
        0 <= lo <= hi <= s.len() && t == s.subrange(lo, hi) && (forall|i: int|
            0 <= i < lo ==> is_decoration(#[trigger] s[i])) && (forall|i: int|
            hi <= i < s.len() ==> is_decoration(#[trigger] s[i])) && (lo < hi ==> !is_decoration(
            s[lo],
        ) && !is_decoration(s[hi - 1]));
    if is_trim_of(u, s) {
        let (lo2, hi2) = choose|lo: int, hi: int|
            0 <= lo <= hi <= s.len() && u == s.subrange(lo, hi) && (forall|i: int|
                0 <= i < lo ==> is_decoration(#[trigger] s[i])) && (forall|i: int|
                hi <= i < s.len() ==> is_decoration(#[trigger] s[i])) && (lo < hi
                ==> !is_decoration(s[lo]) && !is_decoration(s[hi - 1]));
        if lo < hi && lo2 < hi2 {
            assert(lo == lo2) by {
                if lo < lo2 { assert(is_decoration(s[lo])); }
                if lo2 < lo { assert(is_decoration(s[lo2])); }
            }
            assert(hi == hi2) by {
                if hi < hi2 { assert(is_decoration(s[hi2 - 1])); }
                if hi2 < hi { assert(is_decoration(s[hi - 1])); }
            }
        } else if lo < hi {
            assert(is_decoration(s[lo]));
        } else if lo2 < hi2 {
            assert(is_decoration(s[lo2]));
        }
        assert(u =~= t);
    } else {
        assert(is_trim_of(t, s));
    }
}

} // verus!
