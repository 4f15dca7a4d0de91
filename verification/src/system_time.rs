//! The system timezone name from the target of the `/etc/localtime` link.
use vstd::prelude::*;

use crate::text::{chars_of, string_from_chars};

verus! {

/// `p` occurs in `s` at position `i`.
pub open spec fn occurs_at(s: Seq<char>, p: Seq<char>, i: int) -> bool {
    0 <= i && i + p.len() <= s.len() && s.subrange(i, i + p.len()) == p
}

/// Number of leading `c` in `s`.
pub open spec fn leading(s: Seq<char>, c: char) -> int
    decreases s.len(),
{
    if s.len() > 0 && s[0] == c {
        1 + leading(s.drop_first(), c)
    } else {
        0
    }
}

/// The IANA name in a path like `/usr/share/zoneinfo/Asia/Tehran`: what
/// follows the first `zoneinfo/`, without leading slashes.
pub open spec fn zone_name_at(s: Seq<char>, i: int) -> Seq<char> {
    let rest = s.skip(i + 9);
    rest.skip(leading(rest, '/'))
}

/// Whether `raw` has `zoneinfo/` at position `i`.
fn marker_at(raw: &Vec<char>, i: usize) -> (r: bool)
    requires
        i + 9 <= raw@.len(),
    ensures
        r == occurs_at(raw@, "zoneinfo/"@, i as int),
{
    proof {
        reveal_strlit("zoneinfo/");
    }
    let m = ['z', 'o', 'n', 'e', 'i', 'n', 'f', 'o', '/'];
    let n: usize = raw.len();
    let mut k: usize = 0;
    while k < 9
        invariant
            n == raw@.len(),
            i + 9 <= n,
            k <= 9,
            m@ == "zoneinfo/"@,
            forall|j: int| 0 <= j < k ==> raw@[i + j] == m@[j],
        decreases 9 - k,
    {
        assert(i + k < n);
        if raw[i + k] != m[k] {
            proof {
                assert(raw@.subrange(i as int, i + 9)[k as int] != "zoneinfo/"@[k as int]);
            }
            return false;
        }
        k = k + 1;
    }
    assert(raw@.subrange(i as int, i + 9) =~= "zoneinfo/"@);
    true
}

/// The timezone name in a `zoneinfo` path; none without the marker or name.
pub fn timezone_from_zoneinfo_path(path: &str) -> (r: Option<String>)
    ensures
        (forall|i: int| !occurs_at(path@, "zoneinfo/"@, i)) ==> r is None,
        forall|i: int|
            occurs_at(path@, "zoneinfo/"@, i) && (forall|j: int| 0 <= j < i ==> !occurs_at(path@, "zoneinfo/"@, j))
                ==> (if zone_name_at(path@, i).len() == 0 {
                r is None
            } else {
                r matches Some(s) && s@ == zone_name_at(path@, i)
            }),
{
    let raw = chars_of(path);
    proof {
        reveal_strlit("zoneinfo/");
    }
    if raw.len() < 9 {
        return None;
    }
    let mut i: usize = 0;
    let last = raw.len() - 9;
    while i <= last
        invariant
            raw@ == path@,
            last == raw@.len() - 9,
            last + 9 == raw.len(),
            i <= last + 1,
            forall|j: int| 0 <= j < i ==> !occurs_at(path@, "zoneinfo/"@, j),
        decreases last + 1 - i,
    {
        if marker_at(&raw, i) {
            let mut start = i + 9;
            let ghost rest = path@.skip(i + 9);
            assert(rest.skip(0) =~= rest);
            while start < raw.len() && raw[start] == '/'
                invariant
                    raw@ == path@,
                    i + 9 <= start <= raw@.len(),
                    rest == path@.skip(i + 9),
                    leading(rest, '/') == (start - (i + 9)) + leading(path@.skip(start as int), '/'),
                decreases raw.len() - start,
            {
                proof {
                    assert(path@.skip(start as int).drop_first() =~= path@.skip(start + 1));
                }
                start = start + 1;
            }
            proof {
                if start < raw.len() {
                    assert(path@.skip(start as int)[0] != '/');
                }
                assert(rest.skip(leading(rest, '/')) =~= path@.skip(start as int));
            }
            if start == raw.len() {
                return None;
            }
            let mut out: Vec<char> = Vec::new();
            let mut k = start;
            while k < raw.len()
                invariant
                    raw@ == path@,
                    start <= k <= raw@.len(),
                    out@ == path@.subrange(start as int, k as int),
                decreases raw.len() - k,
            {
                out.push(raw[k]);
                k = k + 1;
                assert(out@ =~= path@.subrange(start as int, k as int));
            }
            assert(out@ =~= path@.skip(start as int));
            return Some(string_from_chars(&out));
        }
        i = i + 1;
    }
    proof {
        assert forall|j: int| !occurs_at(path@, "zoneinfo/"@, j) by {
            if j >= i {
            }
        }
    }
    None
}

} // verus!
