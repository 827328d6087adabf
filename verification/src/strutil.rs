//! Verified helpers over strings: equality, comma splitting, and lookup in a
//! key-value parameter list.

use vstd::prelude::*;

verus! {

/// Character-for-character equality of two string slices.
pub fn str_eq(a: &str, b: &str) -> (r: bool)
    ensures
        r == (a@ == b@),
{
    let na = a.unicode_len();
    let nb = b.unicode_len();
    if na != nb {
        return false;
    }
    let mut i: usize = 0;
    while i < na
        invariant
            na == a@.len(),
            na == b@.len(),
            0 <= i <= na,
            forall|j: int| 0 <= j < i ==> a@[j] == b@[j],
        decreases na - i,
    {
        if a.get_char(i) != b.get_char(i) {
            return false;
        }
        i = i + 1;
    }
    proof {
        assert(a@ =~= b@);
    }
    true
}

/// Whether some string of `vs` reads `name`.
pub open spec fn contains_str(vs: Seq<String>, name: Seq<char>) -> bool {
    exists|i: int| 0 <= i < vs.len() && #[trigger] vs[i]@ == name
}

/// Linear search for `name` among the strings of `v`.
pub fn vec_contains_str(v: &Vec<String>, name: &str) -> (r: bool)
    ensures
        r == contains_str(v@, name@),
{
    let mut i: usize = 0;
    while i < v.len()
        invariant
            0 <= i <= v.len(),
            forall|j: int| 0 <= j < i ==> #[trigger] v@[j]@ != name@,
        decreases v.len() - i,
    {
        if str_eq(v[i].as_str(), name) {
            return true;
        }
        i = i + 1;
    }
    false
}

/// The characters of each string of a run.
pub open spec fn str_views(vs: Seq<String>) -> Seq<Seq<char>> {
    vs.map_values(|s: String| s@)
}

/// The characters of each string of an optional run.
pub open spec fn opt_str_views(o: Option<Vec<String>>) -> Option<Seq<Seq<char>>> {
    match o {
        Some(v) => Some(str_views(v@)),
        None => None,
    }
}

/// `str_views` says the same as the nested view of the vector itself.
pub proof fn lemma_str_views_deep(v: &Vec<String>)
    ensures
        v.deep_view() == str_views(v@),
{
    assert(v.deep_view() =~= str_views(v@));
}

/// Membership reads the same on the strings and on their characters.
pub proof fn lemma_contains_str_views(vs: Seq<String>, name: Seq<char>)
    ensures
        contains_str(vs, name) == str_views(vs).contains(name),
{
    if contains_str(vs, name) {
        let i = choose|i: int| 0 <= i < vs.len() && #[trigger] vs[i]@ == name;
        assert(str_views(vs)[i] == name);
    }
    if str_views(vs).contains(name) {
        let i = choose|i: int| 0 <= i < str_views(vs).len() && str_views(vs)[i] == name;
        assert(vs[i]@ == name);
    }
}

/// The value bound to `key` in a key-value list, first match winning.
pub open spec fn spec_lookup(ps: Seq<(String, String)>, key: Seq<char>) -> Option<Seq<char>>
    decreases ps.len(),
{
    if ps.len() == 0 {
        None
    } else if ps[0].0@ == key {
        Some(ps[0].1@)
    } else {
        spec_lookup(ps.skip(1), key)
    }
}

/// Looks `key` up in a key-value parameter list, first match winning.
pub fn lookup_param<'a>(params: &'a Vec<(String, String)>, key: &str) -> (r: Option<&'a String>)
    ensures
        match r {
            Some(v) => spec_lookup(params@, key@) == Some(v@),
            None => spec_lookup(params@, key@) is None,
        },
{
    let mut i: usize = 0;
    proof {
        assert(params@.skip(0) =~= params@);
    }
    while i < params.len()
        invariant
            0 <= i <= params.len(),
            spec_lookup(params@, key@) == spec_lookup(params@.skip(i as int), key@),
        decreases params.len() - i,
    {
        proof {
            assert(params@.skip(i as int)[0] == params@[i as int]);
            assert(params@.skip(i as int).skip(1) =~= params@.skip(i as int + 1));
        }
        if str_eq(params[i].0.as_str(), key) {
            return Some(&params[i].1);
        }
        i = i + 1;
    }
    None
}

/// The position of the first comma of `s` at or after `i`, or the length of
/// `s` when there is none.
pub open spec fn first_comma_from(s: Seq<char>, i: nat) -> nat
    recommends
        i <= s.len(),
    decreases s.len() - i when i <= s.len()
{
    if i >= s.len() {
        i
    } else if s[i as int] == ',' {
        i
    } else {
        first_comma_from(s, i + 1)
    }
}

pub proof fn lemma_first_comma_from(s: Seq<char>, i: nat)
    requires
        i <= s.len(),
    ensures
        i <= first_comma_from(s, i) <= s.len(),
        forall|j: int| i <= j < first_comma_from(s, i) ==> s[j] != ',',
        first_comma_from(s, i) < s.len() ==> s[first_comma_from(s, i) as int] == ',',
    decreases s.len() - i,
{
    if i < s.len() && s[i as int] != ',' {
        lemma_first_comma_from(s, i + 1);
    }
}

/// `s` cut at every comma. The commas are dropped; empty pieces stay, so the
/// result always holds at least one piece.
pub open spec fn split_commas(s: Seq<char>) -> Seq<Seq<char>>
    decreases s.len(),
{
    let c = first_comma_from(s, 0);
    if c >= s.len() {
        seq![s]
    } else {
        seq![s.subrange(0, c as int)] + split_commas(s.subrange(c as int + 1, s.len() as int))
    }
}

/// Scanning from `i` finds the same first comma whether the prefix before
/// `i` is there or not.
proof fn lemma_first_comma_skip(s: Seq<char>, k: nat, i: nat)
    requires
        k <= i <= s.len(),
    ensures
        first_comma_from(s, i) == first_comma_from(s.skip(k as int), (i - k) as nat) + k,
    decreases s.len() - i,
{
    if i < s.len() {
        assert(s.skip(k as int)[i - k] == s[i as int]);
        if s[i as int] != ',' {
            lemma_first_comma_skip(s, k, i + 1);
        }
    }
}

/// The first comma of `s` at or after `i`, as executable search.
fn find_comma(s: &str, from: usize) -> (r: usize)
    requires
        from <= s@.len(),
    ensures
        r == first_comma_from(s@, from as nat),
        from <= r <= s@.len(),
        r < s@.len() ==> s@[r as int] == ',',
{
    let n = s.unicode_len();
    let mut i: usize = from;
    while i < n
        invariant
            from <= i <= n,
            n == s@.len(),
            first_comma_from(s@, from as nat) == first_comma_from(s@, i as nat),
        decreases n - i,
    {
        if s.get_char(i) == ',' {
            return i;
        }
        i = i + 1;
    }
    i
}

/// Splits `s` at every comma into owned pieces.
pub fn split_commas_exec(s: &str) -> (r: Vec<String>)
    ensures
        r.deep_view() == split_commas(s@),
{
    let n = s.unicode_len();
    let mut toks: Vec<String> = Vec::new();
    let mut start: usize = 0;
    proof {
        assert(s@.skip(0) =~= s@);
        assert(toks.deep_view() + split_commas(s@) =~~= split_commas(s@));
    }
    loop
        invariant
            start <= n,
            n == s@.len(),
            split_commas(s@) == toks.deep_view() + split_commas(s@.skip(start as int)),
        decreases n - start,
    {
        let c = find_comma(s, start);
        let tok = s.substring_char(start, c).to_owned();
        let ghost prev = toks.deep_view();
        let ghost rest = s@.skip(start as int);
        let ghost cc = (c as int) - (start as int);
        toks.push(tok);
        proof {
            assert(toks.deep_view() =~~= prev.push(tok@));
            lemma_first_comma_skip(s@, start as nat, start as nat);
            assert(first_comma_from(rest, 0) == cc);
            assert(rest.subrange(0, cc) =~= s@.subrange(start as int, c as int));
        }
        if c == n {
            proof {
                assert(rest =~= s@.subrange(start as int, n as int));
                assert(split_commas(rest) == seq![rest]);
                assert(tok@ =~= rest);
                assert(toks.deep_view() =~~= prev + split_commas(rest));
            }
            return toks;
        }
        proof {
            assert(split_commas(rest) == seq![rest.subrange(0, cc)] + split_commas(
                rest.subrange(cc + 1, rest.len() as int),
            ));
            assert(rest.subrange(cc + 1, rest.len() as int) =~= s@.skip(c as int + 1));
            assert(toks.deep_view() + split_commas(s@.skip(c as int + 1)) =~~= prev + split_commas(
                rest,
            ));
        }
        start = c + 1;
    }
}

} // verus!
