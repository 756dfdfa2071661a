//! File system paths as text, with `/` between their components.

use vstd::prelude::*;
use vstd::string::StringExecFns;

use crate::text;

verus! {

/// `part` below `base`: an absolute part stands for itself, and a separator is
/// added only where `base` does not end in one.
pub open spec fn joined(base: Seq<char>, part: Seq<char>) -> Seq<char> {
    if part.len() > 0 && part[0] == '/' {
        part
    } else if base.len() == 0 || base.last() == '/' {
        base + part
    } else {
        base + seq!['/'] + part
    }
}

/// `part` below `base`.
pub fn join_path(base: &str, part: &str) -> (r: String)
    ensures
        r@ == joined(base@, part@),
{
    let b = text::to_chars(base);
    let p = text::to_chars(part);
    if p.len() > 0 && p[0] == '/' {
        return part.to_owned();
    }
    let mut r = base.to_owned();
    if b.len() > 0 && b[b.len() - 1] != '/' {
        r.push('/');
    }
    r.append(part);
    assert(r@ =~= joined(base@, part@));
    r
}

/// The position of the last `.` before position `n`.
pub open spec fn last_dot(s: Seq<char>, n: int) -> Option<int>
    decreases n,
{
    if n <= 0 || n > s.len() {
        None
    } else if s[n - 1] == '.' {
        Some(n - 1)
    } else {
        last_dot(s, n - 1)
    }
}

/// The extension of a file name: what follows its last `.`, unless that is the
/// first character or there is none.
pub open spec fn extension(name: Seq<char>) -> Option<Seq<char>> {
    match last_dot(name, name.len() as int) {
        Some(i) => if i > 0 {
            Some(name.skip(i + 1))
        } else {
            None
        },
        None => None,
    }
}

/// Whether a file in the pairing directory is a pairing store.
pub fn is_pairing_file(name: &str) -> (r: bool)
    ensures
        r == (extension(name@) == Some("json"@)),
{
    let chars = text::to_chars(name);
    let wanted = text::to_chars("json");
    let mut n: usize = chars.len();
    while n > 0
        invariant
            n <= chars@.len(),
            chars@ == name@,
            wanted@ == "json"@,
            last_dot(name@, name@.len() as int) == last_dot(name@, n as int),
        decreases n,
    {
        if chars[n - 1] == '.' {
            if n == 1 {
                return false;
            }
            if chars.len() - n != wanted.len() {
                assert(name@.skip(n as int).len() != wanted@.len());
                return false;
            }
            assert(chars@.subrange(n as int, n + wanted@.len()) =~= name@.skip(n as int));
            return text::matches_at(&chars, &wanted, n);
        }
        n = n - 1;
    }
    false
}

// ---------------------------------------------------------------------------
// Laws
// ---------------------------------------------------------------------------
/// A path below another begins with it and ends with its own part, with one
/// separator between the two; a part that begins at the root stands for itself.
pub proof fn parts_stand_below_their_base(base: &str, part: &str, r: String)
    requires
        call_ensures(join_path, (base, part), r),
    ensures
        part@.len() > 0 && part@[0] == '/' ==> r@ == part@,
        !(part@.len() > 0 && part@[0] == '/') ==> {
            &&& base@.is_prefix_of(r@)
            &&& part@.is_suffix_of(r@)
            &&& base@.len() == 0 || base@.last() == '/' ==> r@.len() == base@.len() + part@.len()
            &&& base@.len() > 0 && base@.last() != '/' ==> r@.len() == base@.len() + part@.len() + 1
                && r@[base@.len() as int] == '/'
        },
{
    if !(part@.len() > 0 && part@[0] == '/') {
        assert(base@ =~= r@.take(base@.len() as int));
        assert(part@ =~= r@.skip(r@.len() - part@.len()));
    }
}

proof fn lemma_last_dot(s: Seq<char>, n: int)
    requires
        0 <= n <= s.len(),
    ensures
        match last_dot(s, n) {
            Some(i) => 0 <= i < n && s[i] == '.' && forall|k: int| i < k < n ==> s[k] != '.',
            None => forall|k: int| 0 <= k < n ==> s[k] != '.',
        },
    decreases n,
{
    if n > 0 && s[n - 1] != '.' {
        lemma_last_dot(s, n - 1);
    }
}

/// A pairing file is one whose name ends in `.json` after at least one other
/// character.
pub proof fn pairing_files_end_in_json(name: &str, r: bool)
    requires
        call_ensures(is_pairing_file, (name,), r),
    ensures
        r <==> name@.len() > 5 && name@.skip(name@.len() - 5) == ".json"@,
{
    reveal_strlit(".json");
    reveal_strlit("json");
    let s = name@;
    let n = s.len() as int;
    lemma_last_dot(s, n);
    if n > 5 && s.skip(n - 5) == ".json"@ {
        assert(s[n - 5] == s.skip(n - 5)[0]);
        assert forall|k: int| n - 5 < k < n implies s[k] != '.' by {
            assert(s[k] == s.skip(n - 5)[k - (n - 5)]);
        }
        assert(last_dot(s, n) == Some(n - 5));
        assert(s.skip(n - 4) =~= "json"@) by {
            assert forall|k: int| 0 <= k < 4 implies s.skip(n - 4)[k] == "json"@[k] by {
                assert(s.skip(n - 4)[k] == s.skip(n - 5)[k + 1]);
            }
        }
    }
    if r {
        let i = last_dot(s, n)->0;
        assert(s.skip(i + 1) == "json"@);
        assert(n - i - 1 == 4);
        assert(s.skip(n - 5) =~= ".json"@) by {
            assert forall|k: int| 0 <= k < 5 implies s.skip(n - 5)[k] == ".json"@[k] by {
                if k > 0 {
                    assert(s.skip(n - 5)[k] == s.skip(i + 1)[k - 1]);
                }
            }
        }
    }
}

} // verus!
