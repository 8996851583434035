use vstd::prelude::*;

use crate::templates::FetchError;
use crate::text::{chars_of, compare_chars, ends_with, lemma_lex_irreflexive, lemma_lex_total, lemma_lex_transitive, lex_lt, string_of};

verus! {

/// The file suffix of a template in the upstream collection.
pub open spec fn template_suffix() -> Seq<char> {
    seq!['.', 'g', 'i', 't', 'i', 'g', 'n', 'o', 'r', 'e']
}

/// The template name that a listing entry stands for, if any: an entry that ends in the
/// suffix gives its name with that one suffix removed, unless that leaves nothing.
pub open spec fn listed_name(entry: Seq<char>) -> Option<Seq<char>> {
    if ends_with(entry, template_suffix()) && entry.len() > template_suffix().len() {
        Some(entry.subrange(0, entry.len() - template_suffix().len()))
    } else {
        None
    }
}

/// Names in strictly ascending order: sorted, and no name twice.
pub open spec fn strictly_sorted(names: Seq<Seq<char>>) -> bool {
    forall|i: int, j: int| 0 <= i < j < names.len() ==> lex_lt(names[i], names[j])
}

/// Whether `s` is one of `names`.
pub open spec fn holds(names: Seq<Seq<char>>, s: Seq<char>) -> bool {
    exists|i: int| 0 <= i < names.len() && names[i] == s
}

/// Whether some entry of the listing stands for the name `s`.
pub open spec fn listed(entries: Seq<String>, s: Seq<char>) -> bool {
    exists|j: int| 0 <= j < entries.len() && listed_name(entries[j]@) == Some(s)
}

pub open spec fn views(v: Seq<String>) -> Seq<Seq<char>> {
    v.map_values(|s: String| s@)
}

pub open spec fn key_views(v: Seq<Vec<char>>) -> Seq<Seq<char>> {
    v.map_values(|k: Vec<char>| k@)
}

pub(crate) fn suffix_chars() -> (r: Vec<char>)
    ensures
        r@ == template_suffix(),
{
    let r = vec!['.', 'g', 'i', 't', 'i', 'g', 'n', 'o', 'r', 'e'];
    assert(r@ =~= template_suffix());
    r
}

fn has_suffix(s: &Vec<char>, n: usize, suffix: &Vec<char>) -> (r: bool)
    requires
        n <= s.len(),
    ensures
        r == ends_with(s@.subrange(0, n as int), suffix@),
{
    if suffix.len() > n {
        return false;
    }
    let start: usize = n - suffix.len();
    let mut j: usize = 0;
    while j < suffix.len()
        invariant
            start + suffix.len() == n,
            n <= s.len(),
            j <= suffix.len(),
            forall|m: int| 0 <= m < j ==> s@[start + m] == suffix@[m],
        decreases suffix.len() - j,
    {
        if s[start + j] != suffix[j] {
            assert(s@.subrange(0, n as int).subrange(start as int, n as int)[j as int] != suffix@[j as int]);
            return false;
        }
        j = j + 1;
    }
    assert(s@.subrange(0, n as int).subrange(start as int, n as int) =~= suffix@);
    true
}

/// The name a listing entry stands for, if any (see `listed_name`).
pub fn entry_name(entry: &String) -> (r: Option<String>)
    ensures
        r matches Some(n) ==> listed_name(entry@) == Some(n@),
        r is None ==> listed_name(entry@) is None,
{
    let cs = chars_of(entry.as_str());
    let suffix = suffix_chars();
    if !has_suffix(&cs, cs.len(), &suffix) {
        assert(cs@.subrange(0, cs@.len() as int) =~= cs@);
        return None;
    }
    assert(cs@.subrange(0, cs@.len() as int) =~= cs@);
    if cs.len() <= suffix.len() {
        return None;
    }
    let n: usize = cs.len() - suffix.len();
    let mut out: Vec<char> = Vec::new();
    let mut i: usize = 0;
    while i < n
        invariant
            i <= n,
            n <= cs.len(),
            out@ == cs@.subrange(0, i as int),
        decreases n - i,
    {
        out.push(cs[i]);
        i = i + 1;
        assert(cs@.subrange(0, i as int) =~= cs@.subrange(0, i - 1).push(cs@[i - 1]));
    }
    Some(string_of(&out))
}

/// Inserts `x` into a strictly ascending list, unless it is already there.
fn insert_sorted(keys: &mut Vec<Vec<char>>, x: Vec<char>)
    requires
        strictly_sorted(key_views(old(keys)@)),
    ensures
        strictly_sorted(key_views(final(keys)@)),
        forall|s: Seq<char>|
            #[trigger] holds(key_views(final(keys)@), s) <==> (holds(key_views(old(keys)@), s) || s == x@),
{
    let ghost before = key_views(keys@);
    let mut p: usize = 0;
    while p < keys.len() && compare_chars(&keys[p], &x) < 0
        invariant
            p <= keys.len(),
            key_views(keys@) == before,
            forall|i: int| 0 <= i < p ==> lex_lt(before[i], x@),
        decreases keys.len() - p,
    {
        p = p + 1;
    }
    if p < keys.len() && compare_chars(&keys[p], &x) == 0 {
        assert forall|s: Seq<char>| holds(before, s) || s == x@ implies holds(before, s) by {
            if s == x@ {
                assert(before[p as int] == s);
            }
        }
        return;
    }
    proof {
        if p < keys.len() {
            lemma_lex_total(before[p as int], x@);
        }
    }
    let ghost xv = x@;
    keys.insert(p, x);
    let ghost after = key_views(keys@);
    assert(after =~= before.insert(p as int, xv));
    assert forall|j: int| p < j < after.len() implies lex_lt(xv, #[trigger] after[j]) by {
        assert(after[j] == before[j - 1]);
        if j > p + 1 {
            lemma_lex_transitive(xv, before[p as int], before[j - 1]);
        }
    }
    assert forall|i: int, j: int| 0 <= i < j < after.len() implies lex_lt(after[i], after[j]) by {
        if j < p {
        } else if j == p {
        } else if i < p {
            assert(lex_lt(xv, after[j]));
            lemma_lex_transitive(after[i], xv, after[j]);
        } else if i == p {
            assert(lex_lt(xv, after[j]));
        } else {
            assert(after[i] == before[i - 1]);
            assert(after[j] == before[j - 1]);
        }
    }
    assert forall|s: Seq<char>| holds(after, s) <==> (holds(before, s) || s == xv) by {
        if holds(after, s) {
            let i = choose|i: int| 0 <= i < after.len() && after[i] == s;
            if i < p {
                assert(before[i] == s);
            } else if i > p {
                assert(before[i - 1] == s);
            }
        }
        if holds(before, s) {
            let i = choose|i: int| 0 <= i < before.len() && before[i] == s;
            if i < p {
                assert(after[i] == s);
            } else {
                assert(after[i + 1] == s);
            }
        }
        if s == xv {
            assert(after[p as int] == s);
        }
    }
}

/// The template names of a directory listing, given as the entries' names: those that
/// end in the template suffix, with the suffix stripped, empty results dropped, sorted
/// ascending with no name twice.
pub fn template_names(entries: &Vec<String>) -> (r: Vec<String>)
    ensures
        strictly_sorted(views(r@)),
        forall|s: Seq<char>| holds(views(r@), s) <==> listed(entries@, s),
{
    let mut keys: Vec<Vec<char>> = Vec::new();
    let mut j: usize = 0;
    while j < entries.len()
        invariant
            j <= entries.len(),
            strictly_sorted(key_views(keys@)),
            forall|s: Seq<char>|
                #[trigger] holds(key_views(keys@), s) <==> listed(entries@.subrange(0, j as int), s),
        decreases entries.len() - j,
    {
        let ghost prefix = entries@.subrange(0, j as int);
        let ghost next = entries@.subrange(0, j + 1);
        match entry_name(&entries[j]) {
            Some(name) => {
                let cs = chars_of(name.as_str());
                insert_sorted(&mut keys, cs);
            },
            None => {},
        }
        assert forall|s: Seq<char>| listed(next, s) <==> (listed(prefix, s) || listed_name(entries@[j as int]@) == Some(s)) by {
            if listed(next, s) {
                let k = choose|k: int| 0 <= k < next.len() && listed_name(next[k]@) == Some(s);
                if k < j {
                    assert(prefix[k] == next[k]);
                }
            }
            if listed(prefix, s) {
                let k = choose|k: int| 0 <= k < prefix.len() && listed_name(prefix[k]@) == Some(s);
                assert(prefix[k] == next[k]);
            }
            if listed_name(entries@[j as int]@) == Some(s) {
                assert(next[j as int] == entries@[j as int]);
            }
        }
        j = j + 1;
    }
    assert(entries@.subrange(0, j as int) =~= entries@);
    let mut out: Vec<String> = Vec::new();
    let mut i: usize = 0;
    while i < keys.len()
        invariant
            i <= keys.len(),
            views(out@) =~= key_views(keys@).subrange(0, i as int),
        decreases keys.len() - i,
    {
        let s = string_of(&keys[i]);
        let ghost prev = out@;
        out.push(s);
        assert(out@ == prev.push(s));
        assert(views(out@) =~= views(prev).push(keys@[i as int]@));
        assert(key_views(keys@).subrange(0, i + 1) =~= key_views(keys@).subrange(0, i as int).push(
            keys@[i as int]@,
        ));
        i = i + 1;
    }
    assert(views(out@) =~= key_views(keys@));
    out
}

/// The outcome of a directory request: its template names when the status is 200,
/// and the status as the error otherwise.
pub fn listing_result(status: u16, entries: &Vec<String>) -> (r: Result<Vec<String>, FetchError>)
    ensures
        status != 200 ==> r == Err::<Vec<String>, FetchError>(FetchError::ListingStatus { status }),
        status == 200 ==> (r matches Ok(names) && strictly_sorted(views(names@)) && forall|s: Seq<char>|
            holds(views(names@), s) <==> listed(entries@, s)),
{
    if status != 200 {
        return Err(FetchError::ListingStatus { status });
    }
    Ok(template_names(entries))
}

} // verus!
