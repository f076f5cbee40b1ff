//! Character-level string utilities: searching, equality, lexicographic
//! order, splitting and joining, all specified over `Seq<char>`.

use vstd::prelude::*;

verus! {

/// First index at or after `from` where `c` occurs in `s`, if any.
pub open spec fn find_from(s: Seq<char>, from: int, c: char) -> Option<int>
    decreases s.len() - from when 0 <= from <= s.len()
{
    if from >= s.len() {
        None
    } else if s[from] == c {
        Some(from)
    } else {
        find_from(s, from + 1, c)
    }
}

pub proof fn lemma_find_from(s: Seq<char>, from: int, c: char)
    requires
        0 <= from <= s.len(),
    ensures
        match find_from(s, from, c) {
            Some(i) => from <= i < s.len() && s[i] == c && (forall|j: int|
                from <= j < i ==> s[j] != c),
            None => forall|j: int| from <= j < s.len() ==> s[j] != c,
        },
    decreases s.len() - from,
{
    if from < s.len() && s[from] != c {
        lemma_find_from(s, from + 1, c);
    }
}

/// First occurrence of `c` at or after `from`, by character index.
pub fn find_char_from(s: &str, len: usize, from: usize, c: char) -> (r: Option<usize>)
    requires
        len == s@.len(),
        from <= len,
    ensures
        r is Some ==> find_from(s@, from as int, c) == Some(r.unwrap() as int),
        r is None ==> find_from(s@, from as int, c) is None,
{
    let mut i: usize = from;
    while i < len
        invariant
            from <= i <= len,
            len == s@.len(),
            find_from(s@, from as int, c) == find_from(s@, i as int, c),
        decreases len - i,
    {
        if s.get_char(i) == c {
            assert(find_from(s@, i as int, c) == Some(i as int));
            return Some(i);
        }
        i = i + 1;
    }
    None
}

/// Character-for-character equality of two string slices.
pub fn str_eq(a: &str, b: &str) -> (r: bool)
    ensures
        r == (a@ == b@),
{
    let an = a.unicode_len();
    let bn = b.unicode_len();
    if an != bn {
        return false;
    }
    let mut i: usize = 0;
    while i < an
        invariant
            i <= an,
            an == a@.len(),
            bn == b@.len(),
            an == bn,
            forall|j: int| 0 <= j < i ==> a@[j] == b@[j],
        decreases an - i,
    {
        if a.get_char(i) != b.get_char(i) {
            return false;
        }
        i = i + 1;
    }
    proof {
        assert(a@ =~= b@);
    }
    true
}

/// A whitespace character, by unicode scalar value: the characters the
/// White_Space property names.
pub open spec fn is_space(c: char) -> bool {
    let u = c as u32;
    u == 0x20 || (0x09 <= u && u <= 0x0d) || u == 0x85 || u == 0xa0 || u == 0x1680 || (0x2000 <= u
        && u <= 0x200a) || u == 0x2028 || u == 0x2029 || u == 0x202f || u == 0x205f || u == 0x3000
}

/// Executable whitespace test.
pub fn is_space_char(c: char) -> (r: bool)
    ensures
        r == is_space(c),
{
    let u = c as u32;
    u == 0x20 || (0x09 <= u && u <= 0x0d) || u == 0x85 || u == 0xa0 || u == 0x1680 || (0x2000 <= u
        && u <= 0x200a) || u == 0x2028 || u == 0x2029 || u == 0x202f || u == 0x205f || u == 0x3000
}

/// The sequence with leading whitespace removed.
pub open spec fn trim_start_spec(s: Seq<char>) -> Seq<char>
    decreases s.len(),
{
    if s.len() > 0 && is_space(s[0]) {
        trim_start_spec(s.drop_first())
    } else {
        s
    }
}

/// The sequence with trailing whitespace removed.
pub open spec fn trim_end_spec(s: Seq<char>) -> Seq<char>
    decreases s.len(),
{
    if s.len() > 0 && is_space(s.last()) {
        trim_end_spec(s.drop_last())
    } else {
        s
    }
}

/// The sequence with whitespace removed from both ends.
pub open spec fn trimmed(s: Seq<char>) -> Seq<char> {
    trim_end_spec(trim_start_spec(s))
}

/// Removes leading and trailing whitespace.
pub fn trim_str(s: &str) -> (r: String)
    ensures
        r@ == trimmed(s@),
{
    let n = s.unicode_len();
    proof {
        assert(s@.skip(0) =~= s@);
    }
    let mut a: usize = 0;
    while a < n && is_space_char(s.get_char(a))
        invariant
            a <= n,
            n == s@.len(),
            trim_start_spec(s@) == trim_start_spec(s@.skip(a as int)),
        decreases n - a,
    {
        proof {
            assert(s@.skip(a as int).drop_first() =~= s@.skip(a as int + 1));
        }
        a = a + 1;
    }
    proof {
        assert(trim_start_spec(s@) == s@.skip(a as int));
        assert(s@.skip(a as int) =~= s@.subrange(a as int, n as int));
    }
    let mut b: usize = n;
    while b > a && is_space_char(s.get_char(b - 1))
        invariant
            a <= b <= n,
            n == s@.len(),
            trim_end_spec(s@.subrange(a as int, n as int)) == trim_end_spec(
                s@.subrange(a as int, b as int),
            ),
        decreases b,
    {
        proof {
            assert(s@.subrange(a as int, b as int).drop_last() =~= s@.subrange(
                a as int,
                b as int - 1,
            ));
        }
        b = b - 1;
    }
    proof {
        assert(trim_end_spec(s@.subrange(a as int, b as int)) == s@.subrange(a as int, b as int));
    }
    let r = s.substring_char(a, b);
    proof {
        assert(r@ =~= s@.subrange(a as int, b as int));
    }
    String::from_str(r)
}

/// The pieces of `s` between occurrences of `sep`: always one piece more
/// than there are separators, empty pieces included.
pub open spec fn split_on(s: Seq<char>, sep: char) -> Seq<Seq<char>>
    decreases s.len(),
{
    if s.len() == 0 {
        seq![Seq::<char>::empty()]
    } else {
        let rest = split_on(s.drop_first(), sep);
        if s[0] == sep {
            seq![Seq::<char>::empty()] + rest
        } else {
            seq![seq![s[0]] + rest[0]] + rest.drop_first()
        }
    }
}

pub proof fn lemma_split_on_len(s: Seq<char>, sep: char)
    ensures
        split_on(s, sep).len() >= 1,
    decreases s.len(),
{
    if s.len() > 0 {
        lemma_split_on_len(s.drop_first(), sep);
    }
}

/// A separator-free sequence is one single piece.
pub proof fn lemma_split_clean(s: Seq<char>, sep: char)
    requires
        forall|i: int| 0 <= i < s.len() ==> s[i] != sep,
    ensures
        split_on(s, sep) == seq![s],
    decreases s.len(),
{
    if s.len() == 0 {
        assert(s =~= Seq::<char>::empty());
        assert(split_on(s, sep) =~= seq![s]);
    } else {
        lemma_split_clean(s.drop_first(), sep);
        assert(seq![s[0]] + s.drop_first() =~= s);
        assert(split_on(s, sep) =~= seq![s]);
    }
}

/// Splitting at the first separator after a separator-free prefix.
pub proof fn lemma_split_step(x: Seq<char>, sep: char, y: Seq<char>)
    requires
        forall|i: int| 0 <= i < x.len() ==> x[i] != sep,
    ensures
        split_on(x + seq![sep] + y, sep) == seq![x] + split_on(y, sep),
    decreases x.len(),
{
    lemma_split_on_len(y, sep);
    if x.len() == 0 {
        let s = x + seq![sep] + y;
        assert(s.drop_first() =~= y);
        assert(s[0] == sep);
        assert(x =~= Seq::<char>::empty());
        assert(split_on(s, sep) =~= seq![x] + split_on(y, sep));
    } else {
        let s = x + seq![sep] + y;
        lemma_split_step(x.drop_first(), sep, y);
        assert(s.drop_first() =~= x.drop_first() + seq![sep] + y);
        let rest = split_on(s.drop_first(), sep);
        assert(rest == seq![x.drop_first()] + split_on(y, sep));
        assert(rest[0] == x.drop_first());
        assert(rest.drop_first() =~= split_on(y, sep));
        assert(seq![s[0]] + rest[0] =~= x);
        assert(split_on(s, sep) =~= seq![x] + split_on(y, sep));
    }
}

/// Splits `s` at every occurrence of `sep`.
pub fn split_str(s: &str, sep: char) -> (r: Vec<String>)
    ensures
        views_of(r@) == split_on(s@, sep),
        r@.len() >= 1,
{
    let n = s.unicode_len();
    let mut out: Vec<String> = Vec::new();
    let mut pos: usize = 0;
    proof {
        assert(s@.skip(0) =~= s@);
        assert(views_of(out@) =~= Seq::<Seq<char>>::empty());
    }
    loop
        invariant
            pos <= n,
            n == s@.len(),
            views_of(out@) + split_on(s@.skip(pos as int), sep) == split_on(s@, sep),
        decreases n - pos,
    {
        match find_char_from(s, n, pos, sep) {
            Some(k) => {
                proof {
                    lemma_find_from(s@, pos as int, sep);
                }
                let piece = s.substring_char(pos, k);
                proof {
                    let sk = s@.skip(pos as int);
                    let x = s@.subrange(pos as int, k as int);
                    let y = s@.skip(k as int + 1);
                    assert(piece@ =~= x);
                    assert(sk =~= x + seq![sep] + y);
                    lemma_split_step(x, sep, y);
                }
                let ghost prev = out@;
                out.push(String::from_str(piece));
                proof {
                    let x = s@.subrange(pos as int, k as int);
                    let y = s@.skip(k as int + 1);
                    assert(views_of(out@) =~= views_of(prev).push(x));
                    assert(views_of(prev).push(x) + split_on(y, sep) =~= views_of(prev) + (seq![x]
                        + split_on(y, sep)));
                }
                pos = k + 1;
            },
            None => {
                proof {
                    lemma_find_from(s@, pos as int, sep);
                }
                let piece = s.substring_char(pos, n);
                proof {
                    let x = s@.skip(pos as int);
                    assert(piece@ =~= x);
                    lemma_split_clean(x, sep);
                }
                let ghost prev = out@;
                out.push(String::from_str(piece));
                proof {
                    let x = s@.skip(pos as int);
                    assert(views_of(out@) =~= views_of(prev).push(x));
                    assert(views_of(prev).push(x) =~= views_of(prev) + seq![x]);
                    assert(views_of(out@) == split_on(s@, sep));
                    lemma_split_on_len(s@, sep);
                }
                return out;
            },
        }
    }
}

/// The pieces joined with `sep` between consecutive pieces.
pub open spec fn join_with(parts: Seq<Seq<char>>, sep: Seq<char>) -> Seq<char>
    decreases parts.len(),
{
    if parts.len() == 0 {
        Seq::empty()
    } else if parts.len() == 1 {
        parts[0]
    } else {
        parts[0] + sep + join_with(parts.drop_first(), sep)
    }
}

pub proof fn lemma_join_push(parts: Seq<Seq<char>>, sep: Seq<char>, x: Seq<char>)
    requires
        parts.len() >= 1,
    ensures
        join_with(parts.push(x), sep) == join_with(parts, sep) + sep + x,
    decreases parts.len(),
{
    if parts.len() == 1 {
        let p = parts.push(x);
        assert(p.drop_first() =~= seq![x]);
        assert(join_with(p.drop_first(), sep) == x);
        assert(join_with(p, sep) =~= join_with(parts, sep) + sep + x);
    } else {
        lemma_join_push(parts.drop_first(), sep, x);
        let p = parts.push(x);
        assert(p.drop_first() =~= parts.drop_first().push(x));
        assert(join_with(p, sep) =~= join_with(parts, sep) + sep + x);
    }
}

/// Joins the strings with `sep` between consecutive entries.
pub fn join_strings(parts: &Vec<String>, sep: &str) -> (r: String)
    ensures
        r@ == join_with(views_of(parts@), sep@),
{
    let mut r = String::new();
    let mut i: usize = 0;
    proof {
        assert(views_of(parts@.take(0)) =~= Seq::<Seq<char>>::empty());
    }
    while i < parts.len()
        invariant
            i <= parts@.len(),
            r@ == join_with(views_of(parts@.take(i as int)), sep@),
        decreases parts@.len() - i,
    {
        let ghost before = views_of(parts@.take(i as int));
        if i > 0 {
            r.append(sep);
        }
        r.append(parts[i].as_str());
        proof {
            let now = views_of(parts@.take(i + 1));
            assert(now =~= before.push(parts@[i as int]@));
            if i == 0 {
                assert(now.len() == 1);
                assert(r@ == now[0]);
            } else {
                lemma_join_push(before, sep@, parts@[i as int]@);
            }
        }
        i = i + 1;
    }
    proof {
        assert(parts@.take(parts@.len() as int) =~= parts@);
    }
    r
}

/// The summary text with every line break turned into the recipe's
/// continuation form.
pub open spec fn replace_nl(s: Seq<char>) -> Seq<char>
    decreases s.len(),
{
    if s.len() == 0 {
        Seq::empty()
    } else if s[0] == '\n' {
        " \\\n"@ + replace_nl(s.drop_first())
    } else {
        seq![s[0]] + replace_nl(s.drop_first())
    }
}

pub proof fn lemma_replace_nl_concat(x: Seq<char>, y: Seq<char>)
    ensures
        replace_nl(x + y) == replace_nl(x) + replace_nl(y),
    decreases x.len(),
{
    if x.len() == 0 {
        assert(x + y =~= y);
        assert(replace_nl(x) + replace_nl(y) =~= replace_nl(y));
    } else {
        lemma_replace_nl_concat(x.drop_first(), y);
        assert((x + y).drop_first() =~= x.drop_first() + y);
        assert((x + y)[0] == x[0]);
        if x[0] == '\n' {
            assert(replace_nl(x + y) =~= replace_nl(x) + replace_nl(y));
        } else {
            assert(replace_nl(x + y) =~= replace_nl(x) + replace_nl(y));
        }
    }
}

/// Replaces every line break with the continuation form ` \<newline>`.
pub fn replace_newlines(s: &str) -> (r: String)
    ensures
        r@ == replace_nl(s@),
{
    let n = s.unicode_len();
    let mut r = String::new();
    let mut i: usize = 0;
    proof {
        assert(s@.take(0) =~= Seq::<char>::empty());
    }
    while i < n
        invariant
            i <= n,
            n == s@.len(),
            r@ == replace_nl(s@.take(i as int)),
        decreases n - i,
    {
        let c = s.get_char(i);
        if c == '\n' {
            r.append(" \\\n");
        } else {
            r.append(s.substring_char(i, i + 1));
        }
        proof {
            let t = s@.take(i as int);
            let one = seq![s@[i as int]];
            assert(s@.take(i + 1) =~= t + one);
            lemma_replace_nl_concat(t, one);
            assert(one.drop_first() =~= Seq::<char>::empty());
            assert(replace_nl(Seq::<char>::empty()) =~= Seq::<char>::empty());
            if s@[i as int] == '\n' {
                assert(replace_nl(one) =~= " \\\n"@);
            } else {
                assert(s@.subrange(i as int, i as int + 1) =~= one);
                assert(replace_nl(one) =~= one);
            }
        }
        i = i + 1;
    }
    proof {
        assert(s@.take(n as int) =~= s@);
    }
    r
}

/// Lexicographic order on character sequences, by unicode scalar value.
/// This is the order in which the fetch-URI list is emitted.
pub open spec fn lex_le(a: Seq<char>, b: Seq<char>) -> bool
    decreases a.len(),
{
    if a.len() == 0 {
        true
    } else if b.len() == 0 {
        false
    } else if (a[0] as u32) < (b[0] as u32) {
        true
    } else if (b[0] as u32) < (a[0] as u32) {
        false
    } else {
        lex_le(a.drop_first(), b.drop_first())
    }
}

pub proof fn lemma_lex_le_total(a: Seq<char>, b: Seq<char>)
    ensures
        lex_le(a, b) || lex_le(b, a),
    decreases a.len(),
{
    if a.len() > 0 && b.len() > 0 && !((a[0] as u32) < (b[0] as u32)) && !((b[0] as u32) < (a[0]
        as u32)) {
        lemma_lex_le_total(a.drop_first(), b.drop_first());
    }
}

pub proof fn lemma_lex_le_trans(a: Seq<char>, b: Seq<char>, c: Seq<char>)
    requires
        lex_le(a, b),
        lex_le(b, c),
    ensures
        lex_le(a, c),
    decreases a.len(),
{
    if a.len() > 0 && b.len() > 0 && c.len() > 0 && !((a[0] as u32) < (b[0] as u32)) && !((b[0]
        as u32) < (c[0] as u32)) {
        lemma_lex_le_trans(a.drop_first(), b.drop_first(), c.drop_first());
    }
}

/// The views of a sequence of owned strings.
pub open spec fn views_of(v: Seq<String>) -> Seq<Seq<char>> {
    v.map_values(|s: String| s@)
}

/// Ascending lexicographic sortedness of a sequence of character sequences.
pub open spec fn sorted_lex(s: Seq<Seq<char>>) -> bool {
    forall|i: int, j: int| 0 <= i < j < s.len() ==> #[trigger] lex_le(s[i], s[j])
}

/// Whether `a` comes no later than `b` in the emitted order.
pub fn str_lex_le(a: &str, b: &str) -> (r: bool)
    ensures
        r == lex_le(a@, b@),
{
    let an = a.unicode_len();
    let bn = b.unicode_len();
    proof {
        assert(a@.skip(0) =~= a@);
        assert(b@.skip(0) =~= b@);
    }
    let mut i: usize = 0;
    loop
        invariant
            i <= an,
            i <= bn,
            an == a@.len(),
            bn == b@.len(),
            lex_le(a@, b@) == lex_le(a@.skip(i as int), b@.skip(i as int)),
        decreases an - i,
    {
        if i == an {
            return true;
        }
        if i == bn {
            return false;
        }
        let ca = a.get_char(i);
        let cb = b.get_char(i);
        if (ca as u32) < (cb as u32) {
            return true;
        }
        if (cb as u32) < (ca as u32) {
            return false;
        }
        proof {
            assert(a@.skip(i as int).drop_first() =~= a@.skip(i as int + 1));
            assert(b@.skip(i as int).drop_first() =~= b@.skip(i as int + 1));
        }
        i = i + 1;
    }
}

/// Index at which `s` is to be inserted to keep `out` sorted.
fn insertion_point(out: &Vec<String>, s: &String) -> (k: usize)
    requires
        sorted_lex(views_of(out@)),
    ensures
        k <= out@.len(),
        forall|t: int| 0 <= t < k ==> lex_le(#[trigger] out@[t]@, s@),
        k < out@.len() ==> !lex_le(out@[k as int]@, s@),
{
    let mut k: usize = 0;
    while k < out.len()
        invariant
            k <= out@.len(),
            forall|t: int| 0 <= t < k ==> lex_le(#[trigger] out@[t]@, s@),
        decreases out@.len() - k,
    {
        if !str_lex_le(out[k].as_str(), s.as_str()) {
            return k;
        }
        k = k + 1;
    }
    k
}

/// Sorts the given strings in ascending lexicographic order, keeping
/// exactly the same collection of entries.
pub fn sort_strings(v: &Vec<String>) -> (r: Vec<String>)
    ensures
        sorted_lex(views_of(r@)),
        views_of(r@).to_multiset() == views_of(v@).to_multiset(),
{
    broadcast use vstd::seq_lib::group_to_multiset_ensures, vstd::seq_lib::to_multiset_insert;

    let mut out: Vec<String> = Vec::new();
    let mut idx: usize = 0;
    proof {
        assert(views_of(v@.take(0)) =~= Seq::<Seq<char>>::empty());
        assert(views_of(out@) =~= Seq::<Seq<char>>::empty());
        assert(views_of(out@).to_multiset() =~= views_of(v@.take(0)).to_multiset());
    }
    while idx < v.len()
        invariant
            idx <= v@.len(),
            sorted_lex(views_of(out@)),
            views_of(out@).to_multiset() == views_of(v@.take(idx as int)).to_multiset(),
        decreases v@.len() - idx,
    {
        let ghost prev = out@;
        let s = v[idx].clone();
        let ghost sv = s@;
        let k = insertion_point(&out, &s);
        out.insert(k, s);
        proof {
            let old_views = views_of(prev);
            let new_views = views_of(out@);
            assert(new_views =~= old_views.insert(k as int, sv));
            assert forall|i: int, j: int| 0 <= i < j < new_views.len() implies #[trigger] lex_le(
                new_views[i],
                new_views[j],
            ) by {
                let ki = k as int;
                if j < ki {
                    assert(lex_le(old_views[i], old_views[j]));
                } else if i < ki && j == ki {
                    assert(lex_le(old_views[i], sv));
                } else if i < ki && j > ki {
                    assert(lex_le(old_views[i], old_views[j - 1]));
                } else if i == ki && j > ki {
                    assert(!lex_le(old_views[ki], sv));
                    lemma_lex_le_total(sv, old_views[ki]);
                    if j - 1 > ki {
                        assert(lex_le(old_views[ki], old_views[j - 1]));
                        lemma_lex_le_trans(sv, old_views[ki], old_views[j - 1]);
                    }
                } else {
                    assert(lex_le(old_views[i - 1], old_views[j - 1]));
                }
            }
            vstd::seq_lib::to_multiset_insert(old_views, k as int, sv);
            assert(new_views.to_multiset() == old_views.to_multiset().insert(sv));
            let taken = views_of(v@.take(idx as int));
            assert(views_of(v@.take(idx + 1)) =~= taken.push(v@[idx as int]@));
            vstd::seq_lib::to_multiset_build(taken, v@[idx as int]@);
            assert(views_of(v@.take(idx + 1)).to_multiset() == taken.to_multiset().insert(
                v@[idx as int]@,
            ));
        }
        idx = idx + 1;
    }
    proof {
        assert(v@.take(v@.len() as int) =~= v@);
    }
    out
}

} // verus!
