//! Parsers for the text that the host's configuration utilities print.

use vstd::prelude::*;
use crate::text::{
    chars_of, contains, contains_text, lines, matches_at, split_lines, starts_with, string_of,
    trim, trim_bounds,
};

verus! {

/// Whether a line of the service listing marks a disabled service or is the
/// legend that explains the mark.
pub open spec fn is_inactive(l: Seq<char>) -> bool {
    contains(l, "An asterisk"@) || contains(l, "(*)"@)
}

/// Each of `ls`, trimmed.
pub open spec fn trim_each(ls: Seq<Seq<char>>) -> Seq<Seq<char>>
    decreases ls.len(),
{
    if ls.len() == 0 {
        Seq::empty()
    } else {
        trim_each(ls.drop_last()).push(trim(ls.last()))
    }
}

/// The lines of `ls` that are not inactive, each trimmed, in their order.
pub open spec fn active_lines(ls: Seq<Seq<char>>) -> Seq<Seq<char>>
    decreases ls.len(),
{
    if ls.len() == 0 {
        Seq::empty()
    } else if is_inactive(ls.last()) {
        active_lines(ls.drop_last())
    } else {
        active_lines(ls.drop_last()).push(trim(ls.last()))
    }
}

/// The active interfaces named by the service listing `t`, in listing order.
pub open spec fn interface_list(t: Seq<char>) -> Seq<Seq<char>> {
    active_lines(lines(trim(t)))
}

/// The lines of a per-interface DNS query's output, each trimmed.
pub open spec fn manual_list(t: Seq<char>) -> Seq<Seq<char>> {
    trim_each(lines(t))
}

/// The trimmed string of `v[lo..hi]`.
fn trimmed_string(v: &Vec<char>, lo: usize, hi: usize) -> (r: String)
    requires
        lo <= hi <= v.len(),
    ensures
        r@ == trim(v@.subrange(lo as int, hi as int)),
{
    let (a, b) = trim_bounds(v, lo, hi);
    string_of(v, a, b)
}

/// The names of the active network interfaces in a service listing.
pub fn active_interfaces(text: &str) -> (r: Vec<String>)
    ensures
        r.deep_view() == interface_list(text@),
{
    let all = chars_of(text);
    let (a, b) = trim_bounds(&all, 0, all.len());
    assert(all@.subrange(0, all@.len() as int) =~= all@);
    let mut body: Vec<char> = Vec::new();
    let mut i: usize = a;
    while i < b
        invariant
            a <= i <= b <= all.len(),
            body@ == all@.subrange(a as int, i as int),
        decreases b - i,
    {
        body.push(all[i]);
        i = i + 1;
        assert(body@ =~= all@.subrange(a as int, i as int));
    }
    let ls = split_lines(&body);
    let ghost lv = lines(trim(text@));
    let legend = chars_of("An asterisk");
    let mark = chars_of("(*)");
    let mut r: Vec<String> = Vec::new();
    let mut k: usize = 0;
    while k < ls.len()
        invariant
            k <= ls.len() == lv.len(),
            forall|j: int| 0 <= j < ls.len() ==> #[trigger] ls[j]@ == lv[j],
            legend@ == "An asterisk"@,
            mark@ == "(*)"@,
            r.deep_view() == active_lines(lv.subrange(0, k as int)),
        decreases ls.len() - k,
    {
        let ghost pre = lv.subrange(0, k as int);
        assert(lv.subrange(0, k + 1).drop_last() =~= pre);
        let line = &ls[k];
        if !contains_text(line, &legend) && !contains_text(line, &mark) {
            let name = trimmed_string(line, 0, line.len());
            assert(line@.subrange(0, line@.len() as int) =~= line@);
            r.push(name);
            assert(r.deep_view() =~= active_lines(pre).push(trim(lv[k as int])));
        }
        k = k + 1;
    }
    assert(lv.subrange(0, k as int) =~= lv);
    r
}

/// The trimmed lines of a per-interface DNS query's output.
pub fn manual_dns_lines(text: &str) -> (r: Vec<String>)
    ensures
        r.deep_view() == manual_list(text@),
{
    let all = chars_of(text);
    let ls = split_lines(&all);
    let ghost lv = lines(text@);
    let mut r: Vec<String> = Vec::new();
    let mut k: usize = 0;
    while k < ls.len()
        invariant
            k <= ls.len() == lv.len(),
            forall|j: int| 0 <= j < ls.len() ==> #[trigger] ls[j]@ == lv[j],
            r.deep_view() == trim_each(lv.subrange(0, k as int)),
        decreases ls.len() - k,
    {
        let ghost pre = lv.subrange(0, k as int);
        assert(lv.subrange(0, k + 1).drop_last() =~= pre);
        let line = &ls[k];
        let s = trimmed_string(line, 0, line.len());
        assert(line@.subrange(0, line@.len() as int) =~= line@);
        r.push(s);
        assert(r.deep_view() =~= trim_each(pre).push(trim(lv[k as int])));
        k = k + 1;
    }
    assert(lv.subrange(0, k as int) =~= lv);
    r
}

/// What follows the first colon of `l`, if `l` has one.
pub open spec fn after_colon(l: Seq<char>) -> Option<Seq<char>>
    decreases l.len(),
{
    if l.len() == 0 {
        None
    } else if l[0] == ':' {
        Some(l.drop_first())
    } else {
        after_colon(l.drop_first())
    }
}

/// The address that a resolver-state line declares, if it is a nameserver entry.
pub open spec fn nameserver_of(l: Seq<char>) -> Option<Seq<char>> {
    if starts_with(trim(l), "nameserver["@) {
        match after_colon(l) {
            Some(rest) => Some(trim(rest)),
            None => None,
        }
    } else {
        None
    }
}

/// The addresses that the nameserver entries among `ls` declare, in order.
pub open spec fn nameservers(ls: Seq<Seq<char>>) -> Seq<Seq<char>>
    decreases ls.len(),
{
    if ls.len() == 0 {
        Seq::empty()
    } else {
        match nameserver_of(ls.last()) {
            Some(a) => nameservers(ls.drop_last()).push(a),
            None => nameservers(ls.drop_last()),
        }
    }
}

/// `s` with each later repetition of an element dropped.
pub open spec fn dedup<A>(s: Seq<A>) -> Seq<A>
    decreases s.len(),
{
    if s.len() == 0 {
        Seq::empty()
    } else if dedup(s.drop_last()).contains(s.last()) {
        dedup(s.drop_last())
    } else {
        dedup(s.drop_last()).push(s.last())
    }
}

/// The distinct nameserver addresses of a resolver-state dump, in order of first mention.
pub open spec fn resolver_list(t: Seq<char>) -> Seq<Seq<char>> {
    dedup(nameservers(lines(t)))
}

proof fn lemma_after_colon_at(l: Seq<char>, i: int)
    requires
        0 <= i < l.len(),
        l[i] == ':',
        forall|j: int| 0 <= j < i ==> l[j] != ':',
    ensures
        after_colon(l) == Some(l.subrange(i + 1, l.len() as int)),
    decreases i,
{
    if i == 0 {
        assert(l.drop_first() =~= l.subrange(1, l.len() as int));
    } else {
        let d = l.drop_first();
        assert forall|j: int| 0 <= j < i - 1 implies d[j] != ':' by {
            assert(d[j] == l[j + 1]);
        }
        lemma_after_colon_at(d, i - 1);
        assert(d.subrange(i, d.len() as int) =~= l.subrange(i + 1, l.len() as int));
    }
}

proof fn lemma_after_colon_none(l: Seq<char>)
    requires
        forall|j: int| 0 <= j < l.len() ==> l[j] != ':',
    ensures
        after_colon(l) is None,
    decreases l.len(),
{
    if l.len() > 0 {
        let d = l.drop_first();
        assert forall|j: int| 0 <= j < d.len() implies d[j] != ':' by {
            assert(d[j] == l[j + 1]);
        }
        lemma_after_colon_none(d);
    }
}

/// The address declared by a resolver-state line, if it is a nameserver entry.
fn nameserver_entry(line: &Vec<char>, prefix: &Vec<char>) -> (r: Option<String>)
    requires
        prefix@ == "nameserver["@,
    ensures
        r matches Some(a) ==> nameserver_of(line@) == Some(a@),
        r is None ==> nameserver_of(line@) is None,
{
    let (a, b) = trim_bounds(line, 0, line.len());
    assert(line@.subrange(0, line@.len() as int) =~= line@);
    let mut t: Vec<char> = Vec::new();
    let mut i: usize = a;
    while i < b
        invariant
            a <= i <= b <= line.len(),
            t@ == line@.subrange(a as int, i as int),
        decreases b - i,
    {
        t.push(line[i]);
        i = i + 1;
        assert(t@ =~= line@.subrange(a as int, i as int));
    }
    if !matches_at(&t, prefix, 0) {
        return None;
    }
    let mut c: usize = 0;
    while c < line.len() && line[c] != ':'
        invariant
            c <= line.len(),
            forall|j: int| 0 <= j < c ==> line@[j] != ':',
        decreases line.len() - c,
    {
        c = c + 1;
    }
    if c == line.len() {
        proof {
            lemma_after_colon_none(line@);
        }
        None
    } else {
        proof {
            lemma_after_colon_at(line@, c as int);
        }
        Some(trimmed_string(line, c + 1, line.len()))
    }
}

/// Whether `v` holds a string equal to `s`.
pub(crate) fn holds(v: &Vec<String>, s: &String) -> (r: bool)
    ensures
        r == v.deep_view().contains(s@),
{
    let mut k: usize = 0;
    while k < v.len()
        invariant
            k <= v.len(),
            forall|j: int| 0 <= j < k ==> v@[j]@ != s@,
        decreases v.len() - k,
    {
        if v[k] == *s {
            assert(v.deep_view()[k as int] == s@);
            return true;
        }
        k = k + 1;
    }
    assert forall|j: int| 0 <= j < v.deep_view().len() implies v.deep_view()[j] != s@ by {
        assert(v.deep_view()[j] == v@[j]@);
    }
    false
}

/// The distinct nameserver addresses of a resolver-state dump, in order of
/// first mention.
pub fn extract_dns_from_scutil(scutil_output: &str) -> (r: Vec<String>)
    ensures
        r.deep_view() == resolver_list(scutil_output@),
{
    let all = chars_of(scutil_output);
    let ls = split_lines(&all);
    let ghost lv = lines(scutil_output@);
    let prefix = chars_of("nameserver[");
    let mut r: Vec<String> = Vec::new();
    let mut k: usize = 0;
    while k < ls.len()
        invariant
            k <= ls.len() == lv.len(),
            forall|j: int| 0 <= j < ls.len() ==> #[trigger] ls[j]@ == lv[j],
            prefix@ == "nameserver["@,
            r.deep_view() == dedup(nameservers(lv.subrange(0, k as int))),
        decreases ls.len() - k,
    {
        let ghost pre = lv.subrange(0, k as int);
        assert(lv.subrange(0, k + 1).drop_last() =~= pre);
        match nameserver_entry(&ls[k], &prefix) {
            Some(ip) => {
                assert(nameservers(lv.subrange(0, k + 1)) == nameservers(pre).push(ip@));
                assert(nameservers(pre).push(ip@).drop_last() =~= nameservers(pre));
                if !holds(&r, &ip) {
                    r.push(ip);
                    assert(r.deep_view() =~= dedup(nameservers(pre)).push(ip@));
                }
            },
            None => {},
        }
        k = k + 1;
    }
    assert(lv.subrange(0, k as int) =~= lv);
    r
}

proof fn lemma_active_lines_filter(ls: Seq<Seq<char>>)
    ensures
        active_lines(ls) == ls.filter(|l: Seq<char>| !is_inactive(l)).map_values(
            |l: Seq<char>| trim(l),
        ),
    decreases ls.len(),
{
    reveal_with_fuel(Seq::filter, 1);
    if ls.len() > 0 {
        lemma_active_lines_filter(ls.drop_last());
        let sub = ls.drop_last().filter(|l: Seq<char>| !is_inactive(l));
        if !is_inactive(ls.last()) {
            assert(ls.filter(|l: Seq<char>| !is_inactive(l)) == sub.push(ls.last()));
            assert(sub.push(ls.last()).map_values(|l: Seq<char>| trim(l)) =~= sub.map_values(
                |l: Seq<char>| trim(l),
            ).push(trim(ls.last())));
        }
    }
}

/// Parsing a service listing drops every line that carries the inactive mark
/// and keeps each other line, trimmed, in the order of the listing.
pub proof fn lemma_interface_list_filters(t: Seq<char>)
    ensures
        interface_list(t) == lines(trim(t)).filter(|l: Seq<char>| !is_inactive(l)).map_values(
            |l: Seq<char>| trim(l),
        ),
        forall|k: int|
            0 <= k < interface_list(t).len() ==> exists|j: int|
                0 <= j < lines(trim(t)).len() && !is_inactive(lines(trim(t))[j])
                    && #[trigger] interface_list(t)[k] == trim(lines(trim(t))[j]),
{
    let ls = lines(trim(t));
    lemma_active_lines_filter(ls);
    assert forall|k: int| 0 <= k < interface_list(t).len() implies exists|j: int|
        0 <= j < ls.len() && !is_inactive(ls[j]) && #[trigger] interface_list(t)[k] == trim(
            ls[j],
        ) by {
        lemma_filter_source(ls, |l: Seq<char>| !is_inactive(l), k);
    }
}

proof fn lemma_filter_source(s: Seq<Seq<char>>, p: spec_fn(Seq<char>) -> bool, k: int)
    requires
        0 <= k < s.filter(p).len(),
    ensures
        exists|j: int| 0 <= j < s.len() && p(s[j]) && s[j] == s.filter(p)[k],
    decreases s.len(),
{
    reveal_with_fuel(Seq::filter, 1);
    let sub = s.drop_last().filter(p);
    if k < sub.len() {
        lemma_filter_source(s.drop_last(), p, k);
        let j = choose|j: int| 0 <= j < s.drop_last().len() && p(s.drop_last()[j]) && s.drop_last()[j] == sub[k];
        assert(s[j] == s.drop_last()[j]);
    } else {
        assert(p(s.last()));
        assert(s[s.len() - 1] == s.filter(p)[k]);
    }
}

proof fn lemma_dedup_contains<A>(s: Seq<A>)
    ensures
        dedup(s).no_duplicates(),
        forall|x: A| dedup(s).contains(x) <==> s.contains(x),
    decreases s.len(),
{
    if s.len() > 0 {
        let s0 = s.drop_last();
        let d0 = dedup(s0);
        let x = s.last();
        lemma_dedup_contains(s0);
        let d = dedup(s);
        assert forall|y: A| s.contains(y) implies d.contains(y) by {
            let q = choose|q: int| 0 <= q < s.len() && s[q] == y;
            if q < s.len() - 1 {
                assert(s0[q] == y);
                assert(s0.contains(y));
                let k = choose|k: int| 0 <= k < d0.len() && d0[k] == y;
                assert(d[k] == y);
            } else if d0.contains(x) {
                assert(d == d0);
            } else {
                assert(d[d.len() - 1] == y);
            }
        }
        assert forall|y: A| d.contains(y) implies s.contains(y) by {
            let k = choose|k: int| 0 <= k < d.len() && d[k] == y;
            if k < d0.len() {
                assert(d[k] == d0[k]);
                assert(d0.contains(y));
                assert(s0.contains(y));
                let q = choose|q: int| 0 <= q < s0.len() && s0[q] == y;
                assert(s[q] == s0[q]);
                assert(s[q] == y);
            } else {
                assert(!d0.contains(x));
                assert(d == d0.push(x));
                assert(y == x);
                assert(s[s.len() - 1] == y);
            }
        }
    }
}

/// Whether `x` occurs in `s` before index `q`.
pub open spec fn occurs_before<A>(s: Seq<A>, x: A, q: int) -> bool {
    exists|p: int| 0 <= p < q && s[p] == x
}

proof fn lemma_dedup_order<A>(s: Seq<A>)
    ensures
        forall|i: int, j: int, q: int|
            #![trigger dedup(s)[i], dedup(s)[j], s[q]]
            0 <= i < j < dedup(s).len() && 0 <= q < s.len() && s[q] == dedup(s)[j]
                ==> occurs_before(s, dedup(s)[i], q),
    decreases s.len(),
{
    if s.len() > 0 {
        let s0 = s.drop_last();
        let d0 = dedup(s0);
        let x = s.last();
        lemma_dedup_order(s0);
        lemma_dedup_contains(s0);
        let d = dedup(s);
        assert forall|i: int, j: int, q: int|
            #![trigger d[i], d[j], s[q]]
            0 <= i < j < d.len() && 0 <= q < s.len() && s[q] == d[j] implies occurs_before(
            s,
            d[i],
            q,
        ) by {
            assert(d[i] == d0[i]);
            assert(d0.contains(d0[i]));
            assert(s0.contains(d0[i]));
            let p0 = choose|p: int| 0 <= p < s0.len() && s0[p] == d0[i];
            assert(s[p0] == s0[p0]);
            if q < s.len() - 1 {
                assert(s0[q] == s[q]);
                if j < d0.len() {
                    assert(d[j] == d0[j]);
                    assert(d0[j] == s0[q]);
                    assert(occurs_before(s0, d0[i], q));
                    let p = choose|p: int| 0 <= p < q && s0[p] == d0[i];
                    assert(s[p] == s0[p]);
                } else {
                    assert(d[j] == x);
                    assert(s0.contains(x));
                    assert(d0.contains(x));
                }
            }
        }
        assert(d =~= dedup(s));
    } else {
        assert(dedup(s).len() == 0);
    }
}

/// Resolver-state parsing keeps each declared address exactly once, and in
/// the order of the first mention of each.
pub proof fn lemma_resolver_list_distinct(t: Seq<char>)
    ensures
        resolver_list(t).no_duplicates(),
        forall|x: Seq<char>|
            resolver_list(t).contains(x) <==> nameservers(lines(t)).contains(x),
        forall|i: int, j: int, q: int|
            #![trigger resolver_list(t)[i], resolver_list(t)[j], nameservers(lines(t))[q]]
            0 <= i < j < resolver_list(t).len() && 0 <= q < nameservers(lines(t)).len()
                && nameservers(lines(t))[q] == resolver_list(t)[j] ==> occurs_before(
                nameservers(lines(t)),
                resolver_list(t)[i],
                q,
            ),
{
    lemma_dedup_contains(nameservers(lines(t)));
    lemma_dedup_order(nameservers(lines(t)));
}

} // verus!
