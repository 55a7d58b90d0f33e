//! Splitting delimited text into its fields.
use vstd::prelude::*;

verus! {

/// The fields of `s` between occurrences of `d`, in order; a text without
/// `d` is a single field.
pub open spec fn split_on(s: Seq<char>, d: char) -> Seq<Seq<char>>
    decreases s.len(),
{
    if s.len() == 0 {
        seq![Seq::<char>::empty()]
    } else {
        let r = split_on(s.drop_last(), d);
        if s.last() == d {
            r.push(Seq::<char>::empty())
        } else {
            r.update(r.len() - 1, r.last().push(s.last()))
        }
    }
}

/// Whether `c` occurs in `s`.
pub open spec fn has_char(s: Seq<char>, c: char) -> bool {
    exists|i: int| 0 <= i < s.len() && s[i] == c
}

pub proof fn lemma_split_nonempty(s: Seq<char>, d: char)
    ensures
        split_on(s, d).len() >= 1,
    decreases s.len(),
{
    if s.len() > 0 {
        lemma_split_nonempty(s.drop_last(), d);
    }
}

/// A text without the delimiter is one field.
pub proof fn lemma_split_single(s: Seq<char>, d: char)
    requires
        !has_char(s, d),
    ensures
        split_on(s, d) == seq![s],
    decreases s.len(),
{
    if s.len() > 0 {
        assert(!has_char(s.drop_last(), d)) by {
            if has_char(s.drop_last(), d) {
                let i = choose|i: int| 0 <= i < s.drop_last().len() && s.drop_last()[i] == d;
                assert(s[i] == d);
            }
        }
        lemma_split_single(s.drop_last(), d);
        assert(s.last() != d) by {
            assert(s[s.len() - 1] == s.last());
        }
        assert(s.drop_last().push(s.last()) =~= s);
        assert(split_on(s, d) =~= seq![s]);
    } else {
        assert(s =~= Seq::<char>::empty());
    }
}

/// Joining two texts with the delimiter joins their fields.
pub proof fn lemma_split_join(a: Seq<char>, b: Seq<char>, d: char)
    ensures
        split_on(a.push(d) + b, d) == split_on(a, d) + split_on(b, d),
    decreases b.len(),
{
    lemma_split_nonempty(a, d);
    if b.len() == 0 {
        assert(a.push(d) + b =~= a.push(d));
        assert((a.push(d)).drop_last() =~= a);
        assert(split_on(b, d) =~= seq![Seq::<char>::empty()]);
        assert(split_on(a.push(d) + b, d) =~= split_on(a, d) + split_on(b, d));
    } else {
        let s = a.push(d) + b;
        assert(s.drop_last() =~= a.push(d) + b.drop_last());
        assert(s.last() == b.last());
        lemma_split_join(a, b.drop_last(), d);
        lemma_split_nonempty(b.drop_last(), d);
        let ra = split_on(a, d);
        let rb = split_on(b.drop_last(), d);
        if b.last() == d {
            assert(split_on(s, d) =~= ra + split_on(b, d));
        } else {
            assert(split_on(s, d) =~= ra + split_on(b, d));
        }
    }
}

/// Splits `s` at every occurrence of `d`.
pub fn split_fields(s: &str, d: char) -> (r: Vec<String>)
    ensures
        r@.map_values(|f: String| f@) == split_on(s@, d),
{
    let n = s.unicode_len();
    let mut parts: Vec<String> = Vec::new();
    let mut start: usize = 0;
    let mut i: usize = 0;
    assert(s@.subrange(0, 0) =~= Seq::<char>::empty());
    assert(split_on(Seq::<char>::empty(), d) == seq![Seq::<char>::empty()]);
    assert(parts@.map_values(|f: String| f@) =~= Seq::<Seq<char>>::empty());
    assert(parts@.map_values(|f: String| f@).push(s@.subrange(0, 0)) =~= split_on(
        s@.subrange(0, 0),
        d,
    ));
    while i < n
        invariant
            n == s@.len(),
            start <= i <= n,
            parts@.map_values(|f: String| f@).push(s@.subrange(start as int, i as int)) == split_on(
                s@.subrange(0, i as int),
                d,
            ),
        decreases n - i,
    {
        let c = s.get_char(i);
        let ghost prev = s@.subrange(0, i as int);
        assert(s@.subrange(0, i as int + 1).drop_last() =~= prev);
        assert(s@.subrange(0, i as int + 1).last() == c);
        if c == d {
            let ghost old_map = parts@.map_values(|f: String| f@);
            let field = s.substring_char(start, i);
            let f = String::from_str(field);
            parts.push(f);
            assert(parts@.map_values(|f: String| f@) =~= old_map.push(s@.subrange(start as int, i as int)));
            start = i + 1;
            assert(split_on(s@.subrange(0, i as int + 1), d) == split_on(prev, d).push(
                Seq::<char>::empty(),
            ));
            assert(s@.subrange(start as int, i as int + 1) =~= Seq::<char>::empty());
            assert(parts@.map_values(|f: String| f@).push(s@.subrange(start as int, i as int + 1))
                =~= split_on(s@.subrange(0, i as int + 1), d));
        } else {
            let ghost r = split_on(prev, d);
            assert(s@.subrange(start as int, i as int + 1) =~= s@.subrange(start as int, i as int).push(c));
            assert(parts@.map_values(|f: String| f@).push(s@.subrange(start as int, i as int + 1))
                =~= r.update(r.len() - 1, r.last().push(c)));
        }
        i = i + 1;
    }
    let last = String::from_str(s.substring_char(start, n));
    parts.push(last);
    assert(s@.subrange(0, n as int) =~= s@);
    assert(parts@.map_values(|f: String| f@) =~= split_on(s@, d));
    parts
}

/// Whether `c` occurs in `s`.
pub fn contains_char(s: &str, c: char) -> (r: bool)
    ensures
        r == has_char(s@, c),
{
    let n = s.unicode_len();
    let mut i: usize = 0;
    while i < n
        invariant
            n == s@.len(),
            i <= n,
            forall|j: int| 0 <= j < i ==> s@[j] != c,
        decreases n - i,
    {
        if s.get_char(i) == c {
            return true;
        }
        i = i + 1;
    }
    false
}

} // verus!
