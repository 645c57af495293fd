//! Container ids as the orchestrator reports them: `containerd://<id>`.
use vstd::prelude::*;
use crate::text::is_digit;

verus! {

/// A character that a container id may hold: an ASCII letter or digit.
pub open spec fn is_id_char(c: char) -> bool {
    is_digit(c) || ('a' <= c && c <= 'z') || ('A' <= c && c <= 'Z')
}

/// `containerd://` starts at position `i` of `s`.
pub open spec fn prefix_at(s: Seq<char>, i: int) -> bool {
    0 <= i && i + 13 <= s.len() && s.subrange(i, i + 13) == "containerd://"@
}

/// `id` is what follows the first `containerd://` in `s`: the longest run of
/// letters and digits there, possibly empty.
pub open spec fn is_runtime_id(s: Seq<char>, id: Seq<char>) -> bool {
    exists|i: int|
        #![trigger prefix_at(s, i)]
        prefix_at(s, i) && (forall|j: int| 0 <= j < i ==> !prefix_at(s, j)) && i + 13 + id.len()
            <= s.len() && id == s.subrange(i + 13, i + 13 + id.len()) && (forall|k: int|
            0 <= k < id.len() ==> is_id_char(#[trigger] id[k])) && (i + 13 + id.len() == s.len()
            || !is_id_char(s[i + 13 + id.len()]))
}

fn prefix_matches(s: &str, len: usize, i: usize) -> (r: bool)
    requires
        len == s@.len(),
        i + 13 <= len,
    ensures
        r == prefix_at(s@, i as int),
{
    let pat = "containerd://";
    proof { reveal_strlit("containerd://"); }
    let mut k: usize = 0;
    while k < 13
        invariant
            0 <= k <= 13,
            i + 13 <= len,
            len == s@.len(),
            pat@ == "containerd://"@,
            pat@.len() == 13,
            forall|m: int| 0 <= m < k ==> s@[i + m] == pat@[m],
        decreases 13 - k,
    {
        if s.get_char(i + k) != pat.get_char(k) {
            assert(s@.subrange(i as int, i + 13)[k as int] != pat@[k as int]);
            return false;
        }
        k = k + 1;
    }
    assert(s@.subrange(i as int, i + 13) =~= pat@);
    true
}

/// The container id that follows the first `containerd://` in
/// `container_id`; none where there is no such prefix.
pub fn parse_container_id(container_id: &str) -> (r: Option<String>)
    ensures
        r is Some <==> exists|i: int| prefix_at(container_id@, i),
        r matches Some(id) ==> is_runtime_id(container_id@, id@),
{
    let s = container_id;
    let len = s.unicode_len();
    let mut i: usize = 0;
    while len >= 13 && i <= len - 13
        invariant
            len == s@.len(),
            s@ == container_id@,
            i <= len,
            forall|j: int| 0 <= j < i ==> !prefix_at(s@, j),
        decreases len - i,
    {
        if prefix_matches(s, len, i) {
            let start = i + 13;
            let mut e = start;
            let mut done = false;
            while !done && e < len
                invariant
                    start <= e <= len,
                    len == s@.len(),
                    forall|k: int| start <= k < e ==> is_id_char(#[trigger] s@[k]),
                    done ==> e < len && !is_id_char(s@[e as int]),
                decreases len - e + (if done { 0int } else { 1int }),
            {
                let c = s.get_char(e);
                if ('0' <= c && c <= '9') || ('a' <= c && c <= 'z') || ('A' <= c && c <= 'Z') {
                    e = e + 1;
                } else {
                    done = true;
                }
            }
            let id = String::from_str(s.substring_char(start, e));
            assert(forall|k: int| 0 <= k < id@.len() ==> #[trigger] id@[k] == s@[start + k]);
            assert(id@ =~= s@.subrange(start as int, e as int));
            assert(prefix_at(s@, i as int));
            assert(is_runtime_id(s@, id@));
            return Some(id);
        }
        i = i + 1;
    }
    assert forall|j: int| !prefix_at(s@, j) by {
        if j >= i {
        }
    }
    None
}

} // verus!
