//! The exclusion matcher: decides, from the raw text of the exclusion-list
//! variable, whether proxying is disabled for a host.
//!
//! The list is split on commas and spaces. An entry that is empty or a bare
//! dot is skipped. Every other entry, with one cosmetic leading dot removed
//! and ASCII-folded, matches the host when it equals it, or when it is a
//! suffix of it that begins right after a dot (a whole-label suffix). A list
//! whose value, trimmed, is a single asterisk disables proxying everywhere.

use crate::text::chars_of;
use vstd::prelude::*;

verus! {

/// ASCII-fold one character: the code point of an ASCII uppercase letter is
/// moved to its lowercase form; every other code point stays as it is.
pub open spec fn fold_code(c: char) -> u32 {
    if 0x41 <= c as u32 && c as u32 <= 0x5a {
        (c as u32 + 0x20) as u32
    } else {
        c as u32
    }
}

/// Characters that separate the entries of an exclusion list.
pub open spec fn is_sep(c: char) -> bool {
    c == ',' || c == ' '
}

/// ASCII whitespace, trimmed off both ends of the list before the
/// disable-everything test.
pub open spec fn is_blank(c: char) -> bool {
    c == ' ' || c == '\t' || c == '\n' || c == '\r'
}

/// The text with leading blanks removed.
pub open spec fn trim_front(s: Seq<char>) -> Seq<char>
    decreases s.len(),
{
    if s.len() > 0 && is_blank(s[0]) {
        trim_front(s.skip(1))
    } else {
        s
    }
}

/// The text with trailing blanks removed.
pub open spec fn trim_back(s: Seq<char>) -> Seq<char>
    decreases s.len(),
{
    if s.len() > 0 && is_blank(s.last()) {
        trim_back(s.take(s.len() - 1))
    } else {
        s
    }
}

/// The text with blanks removed at both ends.
pub open spec fn trimmed(s: Seq<char>) -> Seq<char> {
    trim_back(trim_front(s))
}

/// A list whose trimmed value is a single asterisk disables proxying for
/// every host.
pub open spec fn disables_all(raw: Seq<char>) -> bool {
    trimmed(raw) == seq!['*']
}

/// An entry with one leading dot removed; the dot is cosmetic and does not
/// change what the entry matches.
pub open spec fn stripped(e: Seq<char>) -> Seq<char> {
    if e.len() > 0 && e[0] == '.' {
        e.skip(1)
    } else {
        e
    }
}

/// The entry body `b`, ASCII-folded, equals the text `t`.
pub open spec fn seq_folds_to(b: Seq<char>, t: Seq<char>) -> bool {
    b.len() == t.len() && (forall|k: int| 0 <= k < b.len() ==> fold_code(b[k]) == t[k] as u32)
}

/// One exclusion entry matches a host: after the cosmetic dot is stripped and
/// the entry is ASCII-folded, it must equal the whole host, or be a suffix of
/// it that begins right after a dot.
pub open spec fn entry_matches(e: Seq<char>, host: Seq<char>) -> bool {
    let b = stripped(e);
    ||| seq_folds_to(b, host)
    ||| (host.len() > b.len() && seq_folds_to(b, host.skip(host.len() - b.len()))
        && host[host.len() - b.len() - 1] == '.')
}

/// An entry that is empty or a bare dot is skipped.
pub open spec fn trivial_entry(e: Seq<char>) -> bool {
    e.len() == 0 || (e.len() == 1 && e[0] == '.')
}

/// `[i, j)` delimits one entry of the list: a maximal run of characters free
/// of separators.
pub open spec fn entry_range(raw: Seq<char>, i: int, j: int) -> bool {
    &&& 0 <= i <= j <= raw.len()
    &&& (i == 0 || is_sep(raw[i - 1]))
    &&& (j == raw.len() || is_sep(raw[j]))
    &&& (forall|k: int| i <= k < j ==> !is_sep(raw[k]))
}

/// Some entry of the list, other than the skipped trivial ones, matches the
/// host.
pub open spec fn list_matches(host: Seq<char>, raw: Seq<char>) -> bool {
    exists|i: int, j: int|
        #[trigger] entry_range(raw, i, j) && !trivial_entry(raw.subrange(i, j))
            && entry_matches(raw.subrange(i, j), host)
}

/// The whole exclusion decision for one host against one raw list value.
pub open spec fn exclusion_matches(host: Seq<char>, raw: Seq<char>) -> bool {
    disables_all(raw) || list_matches(host, raw)
}

proof fn lemma_fold_to_dot(c: char)
    requires
        fold_code(c) == '.' as u32,
    ensures
        c == '.',
{
    broadcast use vstd::utf8::char_u32_cast;

    if 0x41 <= c as u32 && c as u32 <= 0x5a {
        assert(false);
    }
}

/// Law: an entry whose stripped, ASCII-folded body equals the whole host
/// matches it.
pub proof fn lemma_exact_match(elem: Seq<char>, host: Seq<char>)
    requires
        seq_folds_to(stripped(elem), host),
    ensures
        entry_matches(elem, host),
{
}

/// Law: an entry whose stripped, ASCII-folded body is a suffix of the host
/// beginning right after a dot matches it.
pub proof fn lemma_label_suffix_match(elem: Seq<char>, host: Seq<char>)
    requires
        host.len() > stripped(elem).len(),
        seq_folds_to(stripped(elem), host.skip(host.len() - stripped(elem).len())),
        host[host.len() - stripped(elem).len() - 1] == '.',
    ensures
        entry_matches(elem, host),
{
}

/// Law: an entry shorter than the host never matches when the host character
/// just before the would-be suffix is not a dot — a bare substring suffix,
/// such as entry `xample.org` against host `example.org`, is no match.
pub proof fn lemma_no_bare_suffix_match(elem: Seq<char>, host: Seq<char>)
    requires
        host.len() > stripped(elem).len(),
        host[host.len() - stripped(elem).len() - 1] != '.',
    ensures
        !entry_matches(elem, host),
{
}

/// Law: matching ASCII-folds the entry — two entries that agree up to ASCII
/// case match exactly the same hosts.
pub proof fn lemma_entry_case_insensitive(e1: Seq<char>, e2: Seq<char>, host: Seq<char>)
    requires
        e1.len() == e2.len(),
        forall|k: int| 0 <= k < e1.len() ==> fold_code(e1[k]) == fold_code(e2[k]),
    ensures
        entry_matches(e1, host) == entry_matches(e2, host),
{
    let b1 = stripped(e1);
    let b2 = stripped(e2);
    if e1.len() > 0 {
        assert((e1[0] == '.') == (e2[0] == '.')) by {
            if e1[0] == '.' && e2[0] != '.' {
                lemma_fold_to_dot(e2[0]);
            }
            if e2[0] == '.' && e1[0] != '.' {
                lemma_fold_to_dot(e1[0]);
            }
        }
    }
    assert(b1.len() == b2.len());
    assert forall|k: int| 0 <= k < b1.len() implies fold_code(b1[k]) == fold_code(b2[k]) by {
        if e1.len() > 0 && e1[0] == '.' {
            assert(b1[k] == e1[k + 1]);
            assert(b2[k] == e2[k + 1]);
        }
    }
    assert(seq_folds_to(b1, host) == seq_folds_to(b2, host));
    if host.len() > b1.len() {
        let tail = host.skip(host.len() - b1.len());
        assert(seq_folds_to(b1, tail) == seq_folds_to(b2, tail));
    }
}

/// Law: one nontrivial entry of the list that matches the host makes the
/// whole exclusion decision true, whatever the other entries hold.
pub proof fn lemma_matching_entry_excludes(host: Seq<char>, raw: Seq<char>, i: int, j: int)
    requires
        entry_range(raw, i, j),
        !trivial_entry(raw.subrange(i, j)),
        entry_matches(raw.subrange(i, j), host),
    ensures
        exclusion_matches(host, raw),
{
    assert(list_matches(host, raw));
}

/// Law: a list whose entries are all empty or a bare dot, and whose trimmed
/// value is not an asterisk, excludes no host.
pub proof fn lemma_trivial_entries_never_match(host: Seq<char>, raw: Seq<char>)
    requires
        !disables_all(raw),
        forall|i: int, j: int|
            #[trigger] entry_range(raw, i, j) ==> trivial_entry(raw.subrange(i, j)),
    ensures
        !exclusion_matches(host, raw),
{
}

fn is_sep_exec(c: char) -> (r: bool)
    ensures
        r == is_sep(c),
{
    c == ',' || c == ' '
}

fn is_blank_exec(c: char) -> (r: bool)
    ensures
        r == is_blank(c),
{
    c == ' ' || c == '\t' || c == '\n' || c == '\r'
}

fn fold_exec(c: char) -> (r: u32)
    ensures
        r == fold_code(c),
{
    let u = c as u32;
    if 0x41 <= u && u <= 0x5a {
        u + 0x20
    } else {
        u
    }
}

proof fn lemma_trim_front_skip(s: Seq<char>, i: int)
    requires
        0 <= i <= s.len(),
        forall|k: int| 0 <= k < i ==> is_blank(s[k]),
        i == s.len() || !is_blank(s[i]),
    ensures
        trim_front(s) == s.skip(i),
    decreases i,
{
    if i == 0 {
        assert(s.skip(0) =~= s);
    } else {
        assert(is_blank(s[0]));
        lemma_trim_front_skip(s.skip(1), i - 1);
        assert(s.skip(1).skip(i - 1) =~= s.skip(i));
    }
}

proof fn lemma_trim_back_take(s: Seq<char>, j: int)
    requires
        0 <= j <= s.len(),
        forall|k: int| j <= k < s.len() ==> is_blank(s[k]),
        j == 0 || !is_blank(s[j - 1]),
    ensures
        trim_back(s) == s.take(j),
    decreases s.len() - j,
{
    if j == s.len() {
        assert(s.take(j) =~= s);
    } else {
        assert(is_blank(s.last()));
        lemma_trim_back_take(s.take(s.len() - 1), j);
        assert(s.take(s.len() - 1).take(j) =~= s.take(j));
    }
}

/// Whether the trimmed list value is a single asterisk.
pub(crate) fn disables_all_exec(v: &Vec<char>) -> (r: bool)
    ensures
        r == disables_all(v@),
{
    let n = v.len();
    let mut i: usize = 0;
    while i < n
        invariant
            i <= n,
            n == v@.len(),
            forall|k: int| 0 <= k < i ==> is_blank(v@[k]),
        ensures
            i <= n,
            n == v@.len(),
            forall|k: int| 0 <= k < i ==> is_blank(v@[k]),
            i == n || !is_blank(v@[i as int]),
        decreases n - i,
    {
        if !is_blank_exec(v[i]) {
            break ;
        }
        i = i + 1;
    }
    proof {
        lemma_trim_front_skip(v@, i as int);
    }
    if i == n {
        proof {
            assert(v@.skip(n as int) =~= Seq::<char>::empty());
            assert(trimmed(v@).len() == 0);
        }
        return false;
    }
    let mut j: usize = n;
    while j > 0
        invariant
            j <= n,
            n == v@.len(),
            forall|k: int| j <= k < n ==> is_blank(v@[k]),
        ensures
            j <= n,
            n == v@.len(),
            forall|k: int| j <= k < n ==> is_blank(v@[k]),
            j == 0 || !is_blank(v@[j - 1]),
        decreases j,
    {
        if !is_blank_exec(v[j - 1]) {
            break ;
        }
        j = j - 1;
    }
    proof {
        assert(j > i) by {
            if j <= i {
                assert(is_blank(v@[i as int]));
            }
        }
        lemma_trim_back_take(v@.skip(i as int), j - i);
        assert(trimmed(v@) =~= v@.subrange(i as int, j as int));
    }
    let r = j - i == 1 && v[i] == '*';
    proof {
        if r {
            assert(trimmed(v@) =~= seq!['*']);
        } else {
            if trimmed(v@) == seq!['*'] {
                assert(v@.subrange(i as int, j as int).len() == 1);
                assert(v@.subrange(i as int, j as int)[0] == '*');
            }
        }
    }
    r
}

/// Whether the list entry `raw[start..end]` is nontrivial and matches the
/// host.
fn check_entry(rv: &Vec<char>, start: usize, end: usize, hv: &Vec<char>) -> (r: bool)
    requires
        start <= end <= rv@.len(),
    ensures
        r == (!trivial_entry(rv@.subrange(start as int, end as int)) && entry_matches(
            rv@.subrange(start as int, end as int),
            hv@,
        )),
{
    let ghost e = rv@.subrange(start as int, end as int);
    let len = end - start;
    if len == 0 {
        return false;
    }
    if len == 1 && rv[start] == '.' {
        return false;
    }
    assert(!trivial_entry(e));
    let bs = if rv[start] == '.' {
        start + 1
    } else {
        start
    };
    let ghost b = stripped(e);
    proof {
        assert(b =~= rv@.subrange(bs as int, end as int));
    }
    let blen = end - bs;
    let hlen = hv.len();
    if hlen < blen {
        return false;
    }
    let off = hlen - blen;
    let mut k: usize = 0;
    while k < blen
        invariant
            k <= blen,
            start <= bs,
            bs + blen == end,
            end <= rv@.len(),
            off + blen == hlen,
            hlen == hv@.len(),
            e == rv@.subrange(start as int, end as int),
            b == stripped(e),
            b =~= rv@.subrange(bs as int, end as int),
            b.len() == blen,
            forall|m: int| 0 <= m < k ==> fold_code(b[m]) == hv@[off + m] as u32,
        decreases blen - k,
    {
        if fold_exec(rv[bs + k]) != (hv[off + k] as u32) {
            proof {
                assert(b[k as int] == rv@[bs + k]);
                assert(fold_code(b[k as int]) != hv@[off + k] as u32);
                if off == 0 {
                    assert(!seq_folds_to(b, hv@));
                } else {
                    assert(!seq_folds_to(b, hv@));
                    let tail = hv@.skip(off as int);
                    assert(tail[k as int] == hv@[off + k]);
                    assert(!seq_folds_to(b, tail));
                }
            }
            return false;
        }
        k = k + 1;
    }
    let ghost tail = hv@.skip(off as int);
    proof {
        assert(forall|m: int| 0 <= m < blen ==> tail[m] == hv@[off + m]);
        assert(seq_folds_to(b, tail));
    }
    if off == 0 {
        proof {
            assert(tail =~= hv@);
            assert(seq_folds_to(b, hv@));
        }
        true
    } else if hv[off - 1] == '.' {
        proof {
            assert(hv@.len() > b.len());
            assert(hv@[hv@.len() - b.len() - 1] == '.');
        }
        true
    } else {
        proof {
            assert(!seq_folds_to(b, hv@));
            assert(hv@[hv@.len() - b.len() - 1] != '.');
        }
        false
    }
}

proof fn lemma_range_start_unique(raw: Seq<char>, start: int, a: int, b: int)
    requires
        0 <= start <= b <= raw.len(),
        start == 0 || is_sep(raw[start - 1]),
        forall|k: int| start <= k < b ==> !is_sep(raw[k]),
        entry_range(raw, a, b),
    ensures
        a == start,
{
    if a < start {
        assert(is_sep(raw[start - 1]));
        assert(!is_sep(raw[start - 1]));
    } else if a > start {
        assert(!is_sep(raw[a - 1]));
        assert(a == 0 || is_sep(raw[a - 1]));
    }
}

/// Decide whether the host falls under the exclusion list carried in `raw`.
///
/// The decision is exactly [`exclusion_matches`]: the trimmed value is a
/// single asterisk, or some nontrivial comma- or space-separated entry
/// matches the host as a whole or as a whole-label suffix.
pub fn matches_exclusion(host: &str, raw: &str) -> (r: bool)
    ensures
        r == exclusion_matches(host@, raw@),
{
    let hv = chars_of(host);
    let rv = chars_of(raw);
    if disables_all_exec(&rv) {
        return true;
    }
    let n = rv.len();
    let mut start: usize = 0;
    let mut idx: usize = 0;
    while idx < n
        invariant
            start <= idx <= n,
            n == rv@.len(),
            hv@ == host@,
            rv@ == raw@,
            !disables_all(raw@),
            start == 0 || is_sep(rv@[start - 1]),
            forall|k: int| start <= k < idx ==> !is_sep(rv@[k]),
            forall|a: int, b: int|
                #[trigger] entry_range(rv@, a, b) && b < idx ==> !(!trivial_entry(
                    rv@.subrange(a, b),
                ) && entry_matches(rv@.subrange(a, b), hv@)),
        decreases n - idx,
    {
        if is_sep_exec(rv[idx]) {
            if check_entry(&rv, start, idx, &hv) {
                proof {
                    assert(entry_range(rv@, start as int, idx as int));
                    assert(list_matches(hv@, rv@));
                }
                return true;
            }
            proof {
                assert forall|a: int, b: int|
                    #[trigger] entry_range(rv@, a, b) && b < idx + 1 implies !(!trivial_entry(
                    rv@.subrange(a, b),
                ) && entry_matches(rv@.subrange(a, b), hv@)) by {
                    if b == idx {
                        lemma_range_start_unique(rv@, start as int, a, b);
                    }
                }
            }
            start = idx + 1;
        } else {
            proof {
                assert forall|a: int, b: int|
                    #[trigger] entry_range(rv@, a, b) && b < idx + 1 implies !(!trivial_entry(
                    rv@.subrange(a, b),
                ) && entry_matches(rv@.subrange(a, b), hv@)) by {
                    if b == idx {
                        assert(b == rv@.len() || is_sep(rv@[b]));
                    }
                }
            }
        }
        idx = idx + 1;
    }
    if check_entry(&rv, start, n, &hv) {
        proof {
            assert(entry_range(rv@, start as int, n as int));
            assert(list_matches(hv@, rv@));
        }
        return true;
    }
    proof {
        assert forall|a: int, b: int| #[trigger] entry_range(rv@, a, b) implies !(!trivial_entry(
            rv@.subrange(a, b),
        ) && entry_matches(rv@.subrange(a, b), hv@)) by {
            if b == n {
                lemma_range_start_unique(rv@, start as int, a, b);
            }
        }
        assert(!list_matches(hv@, rv@));
    }
    false
}

} // verus!
