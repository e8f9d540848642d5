//! WebSocket endpoint of an HTTP agent URL.

use vstd::prelude::*;

use crate::strings::{chars_vec, occurs_at, push_char, trim_end_char_bound, trim_end_char_spec};

verus! {

/// `s` with every non-overlapping occurrence of `pat`, scanning left to
/// right, replaced by `rep` (`str::replace`).
pub open spec fn replace_all(s: Seq<char>, pat: Seq<char>, rep: Seq<char>) -> Seq<char>
    recommends
        pat.len() > 0,
    decreases s.len(),
{
    if s.len() == 0 || pat.len() == 0 {
        s
    } else if occurs_at(s, pat, 0) {
        rep + replace_all(s.subrange(pat.len() as int, s.len() as int), pat, rep)
    } else {
        seq![s[0]] + replace_all(s.subrange(1, s.len() as int), pat, rep)
    }
}

fn starts_at(v: &Vec<char>, p: &Vec<char>, i: usize) -> (r: bool)
    requires
        i <= v@.len(),
    ensures
        r == occurs_at(v@.subrange(i as int, v@.len() as int), p@, 0),
{
    if p.len() > v.len() - i {
        return false;
    }
    let mut k: usize = 0;
    while k < p.len()
        invariant
            i + p@.len() <= v@.len(),
            v@.len() <= usize::MAX,
            k <= p@.len(),
            forall|j: int| 0 <= j < k ==> v@[i + j] == p@[j],
        decreases p.len() - k,
    {
        if v[i + k] != p[k] {
            assert(v@.subrange(i as int, v@.len() as int).subrange(0, p@.len() as int)[k as int] != p@[k as int]);
            return false;
        }
        k = k + 1;
    }
    assert(v@.subrange(i as int, v@.len() as int).subrange(0, p@.len() as int) =~= p@);
    true
}

/// `str::replace` for a non-empty pattern.
pub fn replace_all_str(s: &str, pat: &str, rep: &str) -> (r: String)
    requires
        pat@.len() > 0,
    ensures
        r@ == replace_all(s@, pat@, rep@),
{
    let v = chars_vec(s);
    let p = chars_vec(pat);
    let rv = chars_vec(rep);
    let mut out = String::new();
    let mut i: usize = 0;
    assert(v@.subrange(0, v@.len() as int) =~= v@);
    while i < v.len()
        invariant
            i <= v@.len(),
            v@ == s@,
            p@ == pat@,
            rv@ == rep@,
            p@.len() > 0,
            out@ + replace_all(v@.subrange(i as int, v@.len() as int), p@, rv@) == replace_all(s@, pat@, rep@),
        decreases v.len() - i,
    {
        let ghost rest = v@.subrange(i as int, v@.len() as int);
        let ghost before = out@;
        if starts_at(&v, &p, i) {
            let mut k: usize = 0;
            while k < rv.len()
                invariant
                    k <= rv@.len(),
                    out@ == before + rv@.subrange(0, k as int),
                decreases rv.len() - k,
            {
                push_char(&mut out, rv[k]);
                assert(rv@.subrange(0, k + 1) =~= rv@.subrange(0, k as int).push(rv@[k as int]));
                k = k + 1;
            }
            assert(rv@.subrange(0, rv@.len() as int) =~= rv@);
            assert(rest.subrange(p@.len() as int, rest.len() as int) =~= v@.subrange(i + p@.len(), v@.len() as int));
            assert(before + (rv@ + replace_all(rest.subrange(p@.len() as int, rest.len() as int), p@, rv@)) =~= out@
                + replace_all(v@.subrange(i + p@.len(), v@.len() as int), p@, rv@));
            i = i + p.len();
        } else {
            push_char(&mut out, v[i]);
            assert(rest[0] == v@[i as int]);
            assert(rest.subrange(1, rest.len() as int) =~= v@.subrange(i + 1, v@.len() as int));
            assert(before + (seq![rest[0]] + replace_all(rest.subrange(1, rest.len() as int), p@, rv@)) =~= out@
                + replace_all(v@.subrange(i + 1, v@.len() as int), p@, rv@));
            i = i + 1;
        }
    }
    assert(v@.subrange(i as int, v@.len() as int) =~= Seq::<char>::empty());
    assert(out@ + Seq::<char>::empty() =~= out@);
    out
}

/// Whether `s` starts with `p`.
pub open spec fn has_prefix(s: Seq<char>, p: Seq<char>) -> bool {
    occurs_at(s, p, 0)
}

/// Whether `s` ends with `p`.
pub open spec fn has_suffix(s: Seq<char>, p: Seq<char>) -> bool {
    s.len() >= p.len() && s.subrange(s.len() - p.len(), s.len() as int) == p
}

/// Whether `s` starts with `p` (`str::starts_with`).
pub fn str_starts_with(s: &str, p: &str) -> (r: bool)
    ensures
        r == has_prefix(s@, p@),
{
    let v = chars_vec(s);
    let pv = chars_vec(p);
    assert(v@.subrange(0, v@.len() as int) =~= v@);
    starts_at(&v, &pv, 0)
}

/// Whether `s` ends with `p` (`str::ends_with`).
pub fn str_ends_with(s: &str, p: &str) -> (r: bool)
    ensures
        r == has_suffix(s@, p@),
{
    let v = chars_vec(s);
    let pv = chars_vec(p);
    if pv.len() > v.len() {
        return false;
    }
    let start = v.len() - pv.len();
    let r = starts_at(&v, &pv, start);
    proof {
        assert(v@.subrange(start as int, v@.len() as int).subrange(0, pv@.len() as int) =~= v@.subrange(
            start as int,
            v@.len() as int,
        ));
    }
    r
}

/// The WebSocket URL of an HTTP URL, scheme swapped, ending in `/ws`.
pub open spec fn ws_url_spec(url: Seq<char>) -> Seq<char> {
    let swapped = if has_prefix(url, "https://"@) {
        replace_all(url, "https://"@, "wss://"@)
    } else if has_prefix(url, "http://"@) {
        replace_all(url, "http://"@, "ws://"@)
    } else {
        "ws://"@ + url
    };
    if has_suffix(swapped, "/ws"@) {
        swapped
    } else {
        trim_end_char_spec(swapped, '/') + "/ws"@
    }
}

/// Convert an HTTP URL to its WebSocket URL: `https://` becomes `wss://`,
/// `http://` becomes `ws://` (every occurrence, as `str::replace` does), a
/// URL without scheme gets `ws://`, and the path ends in `/ws`.
pub fn http_to_ws_url(url: &str) -> (r: String)
    ensures
        r@ == ws_url_spec(url@),
{
    proof {
        reveal_strlit("https://");
        reveal_strlit("http://");
    }
    let v = chars_vec(url);
    let https = chars_vec("https://");
    let http = chars_vec("http://");
    assert(v@.subrange(0, v@.len() as int) =~= v@);
    let swapped = if starts_at(&v, &https, 0) {
        replace_all_str(url, "https://", "wss://")
    } else if starts_at(&v, &http, 0) {
        replace_all_str(url, "http://", "ws://")
    } else {
        crate::strings::concat2("ws://", url)
    };
    let sv = chars_vec(swapped.as_str());
    let suffix = chars_vec("/ws");
    proof {
        reveal_strlit("/ws");
    }
    let ends = sv.len() >= 3 && starts_at(&sv, &suffix, sv.len() - 3);
    proof {
        if sv@.len() >= 3 {
            assert(sv@.subrange(sv@.len() - 3, sv@.len() as int).subrange(0, 3) =~= sv@.subrange(sv@.len() - 3, sv@.len() as int));
        }
    }
    if ends {
        return swapped;
    }
    assert(sv@.subrange(0, sv@.len() as int) =~= sv@);
    let b = trim_end_char_bound(sv.as_slice(), 0, sv.len(), '/');
    let base = crate::strings::string_of(sv.as_slice(), 0, b);
    base.concat("/ws")
}

} // verus!
