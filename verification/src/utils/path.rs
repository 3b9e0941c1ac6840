//! Paths: `/`-separated component lists held as a string.

use vstd::prelude::*;

verus! {

/// The pieces of `s` between slashes, empty ones included, as `str::split`
/// with `"/"` gives them.
pub open spec fn split_slash(s: Seq<char>) -> Seq<Seq<char>>
    decreases s.len(),
{
    if s.len() == 0 {
        seq![Seq::<char>::empty()]
    } else {
        let r = split_slash(s.drop_last());
        if s.last() == '/' {
            r.push(Seq::<char>::empty())
        } else {
            r.update(r.len() - 1, r.last().push(s.last()))
        }
    }
}

/// The pieces joined with a slash between each two.
pub open spec fn join_slash(parts: Seq<Seq<char>>) -> Seq<char>
    decreases parts.len(),
{
    if parts.len() == 0 {
        Seq::<char>::empty()
    } else if parts.len() == 1 {
        parts[0]
    } else {
        join_slash(parts.drop_last()) + seq!['/'] + parts.last()
    }
}

/// Whether `s` starts at the root.
pub open spec fn rooted(s: Seq<char>) -> bool {
    s.len() > 0 && s[0] == '/'
}

/// The non-empty pieces of `s`.
pub open spec fn components(s: Seq<char>) -> Seq<Seq<char>> {
    split_slash(s).filter(|p: Seq<char>| p.len() > 0)
}

/// `s` with runs of slashes made single and no slash at the end: its
/// non-empty pieces joined, after a slash when `s` starts with one.
pub open spec fn normalize(s: Seq<char>) -> Seq<char> {
    if rooted(s) {
        seq!['/'] + join_slash(components(s))
    } else {
        join_slash(components(s))
    }
}

/// The pieces that are neither empty nor `.`.
pub open spec fn named_components(s: Seq<char>) -> Seq<Seq<char>> {
    split_slash(s).filter(|p: Seq<char>| p.len() > 0 && p != seq!['.'])
}

/// The pieces left when each `..` takes away the piece before it (and a
/// `..` with nothing before it is dropped).
pub open spec fn resolve(parts: Seq<Seq<char>>) -> Seq<Seq<char>>
    decreases parts.len(),
{
    if parts.len() == 0 {
        Seq::<Seq<char>>::empty()
    } else {
        let r = resolve(parts.drop_last());
        if parts.last() == seq!['.', '.'] {
            if r.len() > 0 {
                r.drop_last()
            } else {
                r
            }
        } else {
            r.push(parts.last())
        }
    }
}

/// `s` without `.` pieces and with each `..` resolved; `.` when nothing is
/// left of a relative path.
pub open spec fn cleaned(s: Seq<char>) -> Seq<char> {
    let joined = join_slash(resolve(named_components(s)));
    if rooted(s) {
        seq!['/'] + joined
    } else if joined.len() == 0 {
        seq!['.']
    } else {
        joined
    }
}

/// The parent of `s`: its pieces but the last, joined and normalized.
pub open spec fn parent_of(s: Seq<char>) -> Seq<char> {
    let joined = join_slash(split_slash(s).drop_last());
    if rooted(s) {
        normalize(seq!['/'] + joined)
    } else {
        normalize(joined)
    }
}

proof fn lemma_split_len(s: Seq<char>)
    ensures
        split_slash(s).len() >= 1,
    decreases s.len(),
{
    if s.len() > 0 {
        lemma_split_len(s.drop_last());
    }
}

/// Splitting the first `i + 1` characters from the split of the first `i`.
proof fn lemma_split_step(s: Seq<char>, i: int)
    requires
        0 <= i < s.len(),
    ensures
        split_slash(s.take(i)).len() >= 1,
        split_slash(s.take(i + 1)) == if s[i] == '/' {
            split_slash(s.take(i)).push(Seq::<char>::empty())
        } else {
            let r = split_slash(s.take(i));
            r.update(r.len() - 1, r.last().push(s[i]))
        },
{
    lemma_split_len(s.take(i));
    assert(s.take(i + 1).drop_last() =~= s.take(i));
}

proof fn lemma_join_push(parts: Seq<Seq<char>>, p: Seq<char>)
    ensures
        join_slash(parts.push(p)) == if parts.len() == 0 {
            p
        } else {
            join_slash(parts) + seq!['/'] + p
        },
{
    assert(parts.push(p).drop_last() =~= parts);
    if parts.len() == 0 {
        assert(parts.push(p)[0] == p);
    }
}

proof fn lemma_split_no_slash(p: Seq<char>)
    requires
        !p.contains('/'),
    ensures
        split_slash(p) == seq![p],
    decreases p.len(),
{
    if p.len() > 0 {
        let q = p.drop_last();
        assert(!q.contains('/')) by {
            if q.contains('/') {
                let k = choose|k: int| 0 <= k < q.len() && q[k] == '/';
                assert(p[k] == '/');
            }
        }
        lemma_split_no_slash(q);
        assert(p.last() != '/') by {
            assert(p[p.len() - 1] == p.last());
        }
        assert(q.push(p.last()) =~= p);
        assert(seq![q].update(0, q.push(p.last())) =~= seq![p]);
    } else {
        assert(p =~= Seq::<char>::empty());
    }
}

proof fn lemma_split_concat(x: Seq<char>, y: Seq<char>)
    ensures
        split_slash(x + seq!['/'] + y) == split_slash(x) + split_slash(y),
    decreases y.len(),
{
    let z = x + seq!['/'] + y;
    if y.len() == 0 {
        assert(z.drop_last() =~= x);
        assert(z.last() == '/');
        assert(y =~= Seq::<char>::empty());
        assert(split_slash(x).push(Seq::<char>::empty()) =~= split_slash(x) + split_slash(y));
    } else {
        let y0 = y.drop_last();
        lemma_split_concat(x, y0);
        lemma_split_len(y0);
        assert(z.drop_last() =~= x + seq!['/'] + y0);
        assert(z.last() == y.last());
        let sx = split_slash(x);
        let sy = split_slash(y0);
        let r = sx + sy;
        if y.last() == '/' {
            assert(r.push(Seq::<char>::empty()) =~= sx + sy.push(Seq::<char>::empty()));
        } else {
            assert(r.update(r.len() - 1, r.last().push(y.last())) =~= sx + sy.update(sy.len() - 1, sy.last().push(y.last())));
        }
    }
}

proof fn lemma_split_pieces(s: Seq<char>)
    ensures
        forall|i: int| 0 <= i < split_slash(s).len() ==> !(#[trigger] split_slash(s)[i]).contains('/'),
    decreases s.len(),
{
    if s.len() > 0 {
        let s0 = s.drop_last();
        lemma_split_pieces(s0);
        lemma_split_len(s0);
        let r = split_slash(s0);
        if s.last() != '/' {
            let l = r.last().push(s.last());
            assert(!l.contains('/')) by {
                assert(!r[r.len() - 1].contains('/'));
                if l.contains('/') {
                    let k = choose|k: int| 0 <= k < l.len() && l[k] == '/';
                    if k < l.len() - 1 {
                        assert(r.last()[k] == '/');
                    }
                }
            }
        }
    }
}

proof fn lemma_split_join(ps: Seq<Seq<char>>)
    requires
        ps.len() >= 1,
        forall|i: int| 0 <= i < ps.len() ==> !(#[trigger] ps[i]).contains('/'),
    ensures
        split_slash(join_slash(ps)) == ps,
    decreases ps.len(),
{
    if ps.len() == 1 {
        lemma_split_no_slash(ps[0]);
        assert(seq![ps[0]] =~= ps);
    } else {
        let init = ps.drop_last();
        lemma_split_join(init);
        lemma_split_no_slash(ps.last());
        lemma_split_concat(join_slash(init), ps.last());
        assert(init + seq![ps.last()] =~= ps);
    }
}

proof fn lemma_filter_keeps_all(ps: Seq<Seq<char>>, pred: spec_fn(Seq<char>) -> bool)
    requires
        forall|i: int| 0 <= i < ps.len() ==> pred(#[trigger] ps[i]),
    ensures
        ps.filter(pred) == ps,
    decreases ps.len(),
{
    reveal(Seq::filter);
    if ps.len() > 0 {
        lemma_filter_keeps_all(ps.drop_last(), pred);
        assert(pred(ps[ps.len() - 1]));
        assert(ps.drop_last().push(ps.last()) =~= ps);
    }
}

proof fn lemma_components_pieces(s: Seq<char>)
    ensures
        forall|i: int|
            0 <= i < components(s).len() ==> (#[trigger] components(s)[i]).len() > 0 && !components(s)[i].contains('/'),
{
    let pred = |p: Seq<char>| p.len() > 0;
    lemma_split_pieces(s);
    assert forall|i: int| 0 <= i < components(s).len() implies (#[trigger] components(s)[i]).len() > 0 && !components(
        s,
    )[i].contains('/') by {
        let p = components(s)[i];
        split_slash(s).lemma_filter_pred(pred, i);
        assert(components(s).contains(p));
        split_slash(s).lemma_filter_contains_rev(pred, p);
        assert(split_slash(s).contains(p));
        let k = choose|k: int| 0 <= k < split_slash(s).len() && split_slash(s)[k] == p;
        assert(!split_slash(s)[k].contains('/'));
    }
}

/// Normalizing twice gives what normalizing once gives: `Path::new` of the
/// text of a path is that path.
pub proof fn lemma_normalize_idempotent(s: Seq<char>)
    ensures
        normalize(normalize(s)) == normalize(s),
{
    let ps = components(s);
    let pred = |p: Seq<char>| p.len() > 0;
    lemma_components_pieces(s);
    let j = join_slash(ps);
    let n = normalize(s);
    if ps.len() == 0 {
        assert(j =~= Seq::<char>::empty());
        let e = Seq::<char>::empty();
        seq![e].drop_last().lemma_filter_push(e, pred);
        assert(seq![e].drop_last() =~= Seq::<Seq<char>>::empty());
        assert(Seq::<Seq<char>>::empty().push(e) =~= seq![e]);
        reveal(Seq::filter);
        assert(Seq::<Seq<char>>::empty().filter(pred) =~= Seq::<Seq<char>>::empty());
        if rooted(s) {
            assert(n =~= Seq::<char>::empty() + seq!['/'] + Seq::<char>::empty());
            lemma_split_concat(Seq::<char>::empty(), Seq::<char>::empty());
            assert(split_slash(n) =~= seq![e, e]);
            assert(seq![e, e] =~= seq![e].push(e));
            seq![e].lemma_filter_push(e, pred);
            assert(components(n) =~= Seq::<Seq<char>>::empty());
            assert(rooted(n));
        } else {
            assert(n =~= Seq::<char>::empty());
            assert(components(n) =~= Seq::<Seq<char>>::empty());
        }
    } else {
        lemma_split_join(ps);
        lemma_filter_keeps_all(ps, pred);
        if rooted(s) {
            assert(n =~= Seq::<char>::empty() + seq!['/'] + j);
            lemma_split_concat(Seq::<char>::empty(), j);
            let e = Seq::<char>::empty();
            assert(split_slash(n) =~= seq![e] + ps);
            Seq::<Seq<char>>::filter_distributes_over_add(seq![e], ps, pred);
            Seq::<Seq<char>>::empty().lemma_filter_push(e, pred);
            assert(Seq::<Seq<char>>::empty().push(e) =~= seq![e]);
            reveal(Seq::filter);
            assert(Seq::<Seq<char>>::empty().filter(pred) =~= Seq::<Seq<char>>::empty());
            assert(components(n) =~= ps);
            assert(rooted(n));
        } else {
            assert(n == j);
            assert(components(n) =~= ps);
            assert(ps[0].len() > 0);
            assert(!ps[0].contains('/'));
            assert(!rooted(n)) by {
                lemma_join_first(ps);
                assert(ps[0][0] != '/') by {
                    assert(ps[0].contains(ps[0][0]));
                }
            }
        }
    }
}

proof fn lemma_resolve_from(ps: Seq<Seq<char>>)
    ensures
        forall|i: int| 0 <= i < resolve(ps).len() ==> ps.contains(#[trigger] resolve(ps)[i]) && resolve(ps)[i] != seq!['.', '.'],
    decreases ps.len(),
{
    if ps.len() > 0 {
        let init = ps.drop_last();
        lemma_resolve_from(init);
        let r = resolve(init);
        assert forall|i: int| 0 <= i < resolve(ps).len() implies ps.contains(#[trigger] resolve(ps)[i]) && resolve(ps)[i]
            != seq!['.', '.'] by {
            if i < r.len() {
                assert(resolve(ps)[i] == r[i]);
                assert(init.contains(r[i]));
                let k = choose|k: int| 0 <= k < init.len() && init[k] == r[i];
                assert(ps[k] == init[k]);
            } else {
                assert(resolve(ps)[i] == ps.last());
                assert(ps[ps.len() - 1] == ps.last());
            }
        }
    }
}

proof fn lemma_resolve_plain(ps: Seq<Seq<char>>)
    requires
        forall|i: int| 0 <= i < ps.len() ==> #[trigger] ps[i] != seq!['.', '.'],
    ensures
        resolve(ps) == ps,
    decreases ps.len(),
{
    if ps.len() > 0 {
        lemma_resolve_plain(ps.drop_last());
        assert(ps[ps.len() - 1] != seq!['.', '.']);
        assert(ps.drop_last().push(ps.last()) =~= ps);
    } else {
        assert(ps =~= Seq::<Seq<char>>::empty());
    }
}

proof fn lemma_named_pieces(s: Seq<char>)
    ensures
        forall|i: int|
            0 <= i < named_components(s).len() ==> (#[trigger] named_components(s)[i]).len() > 0
                && named_components(s)[i] != seq!['.'] && !named_components(s)[i].contains('/'),
{
    let pred = |p: Seq<char>| p.len() > 0 && p != seq!['.'];
    lemma_split_pieces(s);
    assert forall|i: int| 0 <= i < named_components(s).len() implies (#[trigger] named_components(s)[i]).len() > 0
        && named_components(s)[i] != seq!['.'] && !named_components(s)[i].contains('/') by {
        let p = named_components(s)[i];
        split_slash(s).lemma_filter_pred(pred, i);
        assert(named_components(s).contains(p));
        split_slash(s).lemma_filter_contains_rev(pred, p);
        let k = choose|k: int| 0 <= k < split_slash(s).len() && split_slash(s)[k] == p;
        assert(!split_slash(s)[k].contains('/'));
    }
}

/// Cleaning up twice gives what cleaning up once gives.
pub proof fn lemma_cleaned_idempotent(s: Seq<char>)
    ensures
        cleaned(cleaned(s)) == cleaned(s),
{
    let pred = |p: Seq<char>| p.len() > 0 && p != seq!['.'];
    let named = named_components(s);
    let r = resolve(named);
    lemma_named_pieces(s);
    lemma_resolve_from(named);
    assert forall|i: int| 0 <= i < r.len() implies (#[trigger] r[i]).len() > 0 && r[i] != seq!['.'] && !r[i].contains('/')
        && r[i] != seq!['.', '.'] by {
        let k = choose|k: int| 0 <= k < named.len() && named[k] == r[i];
    }
    let j = join_slash(r);
    let c = cleaned(s);
    let e = Seq::<char>::empty();
    reveal(Seq::filter);
    assert(Seq::<Seq<char>>::empty().filter(pred) =~= Seq::<Seq<char>>::empty());
    if r.len() == 0 {
        assert(j =~= e);
        if rooted(s) {
            assert(c =~= e + seq!['/'] + e);
            lemma_split_concat(e, e);
            assert(split_slash(c) =~= seq![e].push(e));
            seq![e].lemma_filter_push(e, pred);
            Seq::<Seq<char>>::empty().lemma_filter_push(e, pred);
            assert(Seq::<Seq<char>>::empty().push(e) =~= seq![e]);
            assert(named_components(c) =~= Seq::<Seq<char>>::empty());
            assert(resolve(Seq::<Seq<char>>::empty()) =~= Seq::<Seq<char>>::empty());
            assert(rooted(c));
        } else {
            assert(c =~= seq!['.']);
            lemma_split_no_slash(c);
            Seq::<Seq<char>>::empty().lemma_filter_push(c, pred);
            assert(Seq::<Seq<char>>::empty().push(c) =~= seq![c]);
            assert(named_components(c) =~= Seq::<Seq<char>>::empty());
            assert(resolve(Seq::<Seq<char>>::empty()) =~= Seq::<Seq<char>>::empty());
            assert(!rooted(c));
        }
    } else {
        lemma_split_join(r);
        lemma_filter_keeps_all(r, pred);
        lemma_resolve_plain(r);
        lemma_join_first(r);
        if rooted(s) {
            assert(c =~= e + seq!['/'] + j);
            lemma_split_concat(e, j);
            assert(split_slash(c) =~= seq![e] + r);
            Seq::<Seq<char>>::filter_distributes_over_add(seq![e], r, pred);
            Seq::<Seq<char>>::empty().lemma_filter_push(e, pred);
            assert(Seq::<Seq<char>>::empty().push(e) =~= seq![e]);
            assert(named_components(c) =~= r);
            assert(rooted(c));
        } else {
            assert(c == j);
            assert(named_components(c) =~= r);
            assert(r[0][0] != '/') by {
                assert(r[0].contains(r[0][0]));
            }
            assert(!rooted(c));
        }
    }
}

proof fn lemma_join_first(ps: Seq<Seq<char>>)
    requires
        ps.len() >= 1,
        ps[0].len() > 0,
    ensures
        join_slash(ps).len() > 0,
        join_slash(ps)[0] == ps[0][0],
    decreases ps.len(),
{
    if ps.len() > 1 {
        lemma_join_first(ps.drop_last());
    }
}

/// Appends the characters `chars[from..]` to `out`.
fn append_chars(out: &mut std::vec::Vec<char>, chars: &std::vec::Vec<char>, from: usize)
    requires
        from <= chars@.len(),
    ensures
        final(out)@ == old(out)@ + chars@.subrange(from as int, chars@.len() as int),
{
    let mut i = from;
    while i < chars.len()
        invariant
            from <= i <= chars@.len(),
            out@ == old(out)@ + chars@.subrange(from as int, i as int),
        decreases chars@.len() - i,
    {
        out.push(chars[i]);
        assert(chars@.subrange(from as int, i + 1) =~= chars@.subrange(from as int, i as int).push(chars@[i as int]));
        i += 1;
    }
}

/// The characters of `s`.
fn chars_of(s: &str) -> (res: std::vec::Vec<char>)
    ensures
        res@ == s@,
{
    let n = s.unicode_len();
    let mut res: std::vec::Vec<char> = std::vec::Vec::new();
    let mut i: usize = 0;
    while i < n
        invariant
            i <= n,
            n == s@.len(),
            res@ == s@.take(i as int),
        decreases n - i,
    {
        res.push(s.get_char(i));
        assert(s@.take(i + 1) =~= s@.take(i as int).push(s@[i as int]));
        i += 1;
    }
    assert(s@.take(n as int) =~= s@);
    res
}

/// Wraps `String::push` of std, which appends the character at the end.
#[verifier::external_body]
fn string_push(s: &mut String, c: char)
    ensures
        final(s)@ == old(s)@.push(c),
{
    s.push(c);
}

/// The string of the characters `chars`.
fn string_of(chars: &std::vec::Vec<char>) -> (res: String)
    ensures
        res@ == chars@,
{
    let mut res = String::new();
    let mut i: usize = 0;
    while i < chars.len()
        invariant
            i <= chars@.len(),
            res@ == chars@.take(i as int),
        decreases chars@.len() - i,
    {
        string_push(&mut res, chars[i]);
        assert(chars@.take(i + 1) =~= chars@.take(i as int).push(chars@[i as int]));
        i += 1;
    }
    assert(chars@.take(chars@.len() as int) =~= chars@);
    res
}

/// The characters of `s` normalized.
fn normalize_chars(s: &std::vec::Vec<char>) -> (res: std::vec::Vec<char>)
    ensures
        res@ == normalize(s@),
{
    let ghost sv = s@;
    let mut out: std::vec::Vec<char> = std::vec::Vec::new();
    if s.len() > 0 && s[0] == '/' {
        out.push('/');
    }
    let plen: usize = out.len();
    let ghost prefix: Seq<char> = out@;
    let ghost mut parts: Seq<Seq<char>> = Seq::empty();
    let mut start: usize = 0;
    let mut i: usize = 0;
    proof {
        assert(sv.take(0) =~= Seq::<char>::empty());
        assert(split_slash(sv.take(0)).drop_last() =~= Seq::<Seq<char>>::empty());
    }
    while i < s.len()
        invariant
            sv == s@,
            plen == prefix.len(),
            start <= i <= s@.len(),
            prefix == (if rooted(sv) { seq!['/'] } else { Seq::<char>::empty() }),
            split_slash(sv.take(i as int)).len() >= 1,
            split_slash(sv.take(i as int)).last() == sv.subrange(start as int, i as int),
            parts == split_slash(sv.take(i as int)).drop_last().filter(|p: Seq<char>| p.len() > 0),
            out@ == prefix + join_slash(parts),
        decreases s@.len() - i,
    {
        proof {
            lemma_split_step(sv, i as int);
        }
        let ghost r = split_slash(sv.take(i as int));
        if s[i] == '/' {
            let ghost cur = sv.subrange(start as int, i as int);
            proof {
                assert(r.push(Seq::<char>::empty()).drop_last() =~= r);
                assert(r =~= r.drop_last().push(cur));
                r.drop_last().lemma_filter_push(cur, |p: Seq<char>| p.len() > 0);
            }
            if i > start {
                if out.len() > plen {
                    out.push('/');
                }
                proof {
                    lemma_join_push(parts, cur);
                    if parts.len() == 0 {
                        assert(out@ =~= prefix);
                    }
                }
                let ghost before = out@;
                let mut k = start;
                while k < i
                    invariant
                        start <= k <= i,
                        i < s@.len(),
                        sv == s@,
                        out@ == before + sv.subrange(start as int, k as int),
                    decreases i - k,
                {
                    out.push(s[k]);
                    assert(sv.subrange(start as int, k + 1) =~= sv.subrange(start as int, k as int).push(sv[k as int]));
                    k += 1;
                }
                proof {
                    if parts.len() == 0 {
                        assert(out@ =~= prefix + join_slash(parts.push(cur)));
                    } else {
                        assert(out@ =~= prefix + join_slash(parts.push(cur)));
                    }
                    parts = parts.push(cur);
                }
            }
            start = i + 1;
            proof {
                assert(sv.subrange(start as int, i + 1) =~= Seq::<char>::empty());
            }
        } else {
            proof {
                assert(r.update(r.len() - 1, r.last().push(sv[i as int])).drop_last() =~= r.drop_last());
                assert(sv.subrange(start as int, i + 1) =~= sv.subrange(start as int, i as int).push(sv[i as int]));
            }
        }
        i += 1;
    }
    proof {
        assert(sv.take(sv.len() as int) =~= sv);
    }
    let ghost r = split_slash(sv);
    let ghost cur = sv.subrange(start as int, sv.len() as int);
    proof {
        assert(r =~= r.drop_last().push(cur));
        r.drop_last().lemma_filter_push(cur, |p: Seq<char>| p.len() > 0);
    }
    if i > start {
        if out.len() > plen {
            out.push('/');
        }
        proof {
            lemma_join_push(parts, cur);
            if parts.len() == 0 {
                assert(out@ =~= prefix);
            }
        }
        append_chars(&mut out, s, start);
        proof {
            assert(out@ =~= prefix + join_slash(parts.push(cur)));
            parts = parts.push(cur);
        }
    }
    proof {
        assert(parts == components(sv));
    }
    out
}

/// The character sequences held by `v`.
pub open spec fn char_seqs(v: Seq<std::vec::Vec<char>>) -> Seq<Seq<char>> {
    v.map_values(|x: std::vec::Vec<char>| x@)
}

/// The pieces of `s` between slashes.
fn pieces(s: &std::vec::Vec<char>) -> (res: std::vec::Vec<std::vec::Vec<char>>)
    ensures
        char_seqs(res@) == split_slash(s@),
{
    let ghost sv = s@;
    let mut res: std::vec::Vec<std::vec::Vec<char>> = std::vec::Vec::new();
    let mut cur: std::vec::Vec<char> = std::vec::Vec::new();
    let mut i: usize = 0;
    proof {
        assert(sv.take(0) =~= Seq::<char>::empty());
        assert(char_seqs(res@).push(cur@) =~= split_slash(sv.take(0)));
    }
    while i < s.len()
        invariant
            sv == s@,
            i <= s@.len(),
            char_seqs(res@).push(cur@) == split_slash(sv.take(i as int)),
        decreases s@.len() - i,
    {
        proof {
            lemma_split_step(sv, i as int);
        }
        if s[i] == '/' {
            let done = cur;
            cur = std::vec::Vec::new();
            proof {
                assert(char_seqs(res@.push(done)) =~= char_seqs(res@).push(done@));
            }
            res.push(done);
            proof {
                assert(char_seqs(res@).push(cur@) =~= split_slash(sv.take(i + 1)));
            }
        } else {
            cur.push(s[i]);
            proof {
                assert(char_seqs(res@).push(cur@) =~= split_slash(sv.take(i + 1)));
            }
        }
        i += 1;
    }
    proof {
        assert(sv.take(sv.len() as int) =~= sv);
        assert(char_seqs(res@.push(cur)) =~= char_seqs(res@).push(cur@));
    }
    res.push(cur);
    res
}

/// The pieces joined with slashes.
fn join_pieces(parts: &std::vec::Vec<std::vec::Vec<char>>, out: &mut std::vec::Vec<char>)
    ensures
        final(out)@ == old(out)@ + join_slash(char_seqs(parts@)),
{
    let ghost ps = char_seqs(parts@);
    let mut j: usize = 0;
    proof {
        assert(ps.take(0) =~= Seq::<Seq<char>>::empty());
        assert(out@ =~= old(out)@ + join_slash(ps.take(0)));
    }
    while j < parts.len()
        invariant
            ps == char_seqs(parts@),
            j <= parts@.len(),
            out@ == old(out)@ + join_slash(ps.take(j as int)),
        decreases parts@.len() - j,
    {
        proof {
            assert(ps.take(j + 1) =~= ps.take(j as int).push(ps[j as int]));
            lemma_join_push(ps.take(j as int), ps[j as int]);
        }
        if j > 0 {
            out.push('/');
        }
        append_chars(out, &parts[j], 0);
        proof {
            assert(parts@[j as int]@.subrange(0, parts@[j as int]@.len() as int) =~= ps[j as int]);
            assert(out@ =~= old(out)@ + join_slash(ps.take(j + 1)));
        }
        j += 1;
    }
    proof {
        assert(ps.take(parts@.len() as int) =~= ps);
    }
}

/// Whether `p` is `c` alone.
fn is_single(p: &std::vec::Vec<char>, c: char) -> (res: bool)
    ensures
        res == (p@ == seq![c]),
{
    if p.len() == 1 && p[0] == c {
        assert(p@ =~= seq![c]);
        true
    } else {
        false
    }
}

/// Whether `p` is `..`.
fn is_dotdot(p: &std::vec::Vec<char>) -> (res: bool)
    ensures
        res == (p@ == seq!['.', '.']),
{
    if p.len() == 2 && p[0] == '.' && p[1] == '.' {
        assert(p@ =~= seq!['.', '.']);
        true
    } else {
        false
    }
}

/// A path.
pub struct Path {
    inner: String,
}

impl View for Path {
    type V = Seq<char>;

    closed spec fn view(&self) -> Seq<char> {
        self.inner@
    }
}

impl Path {
    /// The path of `string`, with runs of slashes made single and no slash
    /// at the end.
    pub fn new(string: &str) -> (res: Self)
        ensures
            res@ == normalize(string@),
    {
        let chars = chars_of(string);
        let out = normalize_chars(&chars);
        Path { inner: string_of(&out) }
    }

    /// Removes `.` pieces and resolves `..` pieces; an empty relative path
    /// becomes `.`.
    pub fn cleanup(&mut self)
        ensures
            final(self)@ == cleaned(old(self)@),
    {
        let chars = chars_of(self.inner.as_str());
        let ps = pieces(&chars);
        let ghost all = split_slash(self@);
        let ghost keep = |p: Seq<char>| p.len() > 0 && p != seq!['.'];
        let mut stack: std::vec::Vec<std::vec::Vec<char>> = std::vec::Vec::new();
        let ghost mut named: Seq<Seq<char>> = Seq::empty();
        let mut k: usize = 0;
        proof {
            assert(all.take(0) =~= Seq::<Seq<char>>::empty());
            assert(char_seqs(stack@) =~= Seq::<Seq<char>>::empty());
        }
        while k < ps.len()
            invariant
                all == char_seqs(ps@),
                k <= ps@.len(),
                keep == (|p: Seq<char>| p.len() > 0 && p != seq!['.']),
                named == all.take(k as int).filter(keep),
                char_seqs(stack@) == resolve(named),
            decreases ps@.len() - k,
        {
            let ghost p = all[k as int];
            proof {
                assert(all.take(k + 1) =~= all.take(k as int).push(p));
                all.take(k as int).lemma_filter_push(p, keep);
                assert(named.push(p).drop_last() =~= named);
            }
            if ps[k].len() > 0 && !is_single(&ps[k], '.') {
                if is_dotdot(&ps[k]) {
                    if stack.len() > 0 {
                        let _ = stack.pop();
                        proof {
                            assert(char_seqs(stack@) =~= resolve(named).drop_last());
                        }
                    }
                } else {
                    let piece = ps[k].clone();
                    proof {
                        assert(char_seqs(stack@.push(piece)) =~= char_seqs(stack@).push(piece@));
                    }
                    stack.push(piece);
                }
                proof {
                    named = named.push(p);
                }
            }
            k += 1;
        }
        proof {
            assert(all.take(ps@.len() as int) =~= all);
        }
        let mut out: std::vec::Vec<char> = std::vec::Vec::new();
        let root = self.has_root();
        if root {
            out.push('/');
        }
        join_pieces(&stack, &mut out);
        if !root && out.len() == 0 {
            out.push('.');
            proof {
                assert(out@ =~= seq!['.']);
            }
        }
        proof {
            if !root {
                assert(out@ =~= cleaned(old(self)@));
            }
        }
        self.inner = string_of(&out);
    }

    /// The last piece of the path.
    pub fn file_name(&self) -> (res: Option<&str>)
        ensures
            res matches Some(name) && name@ == split_slash(self@).last(),
    {
        let s = self.inner.as_str();
        let chars = chars_of(s);
        let ghost sv = chars@;
        let mut start: usize = 0;
        let mut i: usize = 0;
        proof {
            assert(sv.take(0) =~= Seq::<char>::empty());
        }
        while i < chars.len()
            invariant
                sv == chars@,
                start <= i <= sv.len(),
                split_slash(sv.take(i as int)).len() >= 1,
                split_slash(sv.take(i as int)).last() == sv.subrange(start as int, i as int),
            decreases sv.len() - i,
        {
            proof {
                lemma_split_step(sv, i as int);
            }
            if chars[i] == '/' {
                start = i + 1;
                proof {
                    assert(sv.subrange(start as int, i + 1) =~= Seq::<char>::empty());
                }
            } else {
                proof {
                    assert(sv.subrange(start as int, i + 1) =~= sv.subrange(start as int, i as int).push(sv[i as int]));
                }
            }
            i += 1;
        }
        proof {
            assert(sv.take(sv.len() as int) =~= sv);
        }
        Some(s.substring_char(start, chars.len()))
    }

    /// The path without its last piece.
    pub fn parent(&self) -> (res: Option<Path>)
        ensures
            res matches Some(p) && p@ == parent_of(self@),
    {
        let chars = chars_of(self.inner.as_str());
        let mut ps = pieces(&chars);
        proof {
            lemma_split_len(self@);
        }
        let _ = ps.pop();
        proof {
            assert(char_seqs(ps@) =~= split_slash(self@).drop_last());
        }
        let mut out: std::vec::Vec<char> = std::vec::Vec::new();
        if self.has_root() {
            out.push('/');
        }
        join_pieces(&ps, &mut out);
        proof {
            if !rooted(self@) {
                assert(out@ =~= join_slash(split_slash(self@).drop_last()));
            }
        }
        let normal = normalize_chars(&out);
        Some(Path { inner: string_of(&normal) })
    }

    /// Whether the path starts at the root.
    pub fn has_root(&self) -> (res: bool)
        ensures
            res == rooted(self@),
    {
        let s = self.inner.as_str();
        s.unicode_len() > 0 && s.get_char(0) == '/'
    }

    pub fn is_absolute(&self) -> (res: bool)
        ensures
            res == rooted(self@),
    {
        self.has_root()
    }

    pub fn is_relative(&self) -> (res: bool)
        ensures
            res == !rooted(self@),
    {
        !self.has_root()
    }

    pub fn as_str(&self) -> (res: &str)
        ensures
            res@ == self@,
    {
        self.inner.as_str()
    }
}

} // verus!
