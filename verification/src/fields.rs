//! Pipe-delimited field lists: what it means to join fields into one wire
//! line and to split a line back into fields, with the round-trip laws.

use vstd::prelude::*;

verus! {

/// Text that may stand as one field of a record line: it holds neither the
/// field delimiter nor a line terminator.
pub open spec fn field_safe(s: Seq<char>) -> bool {
    forall|i: int| 0 <= i < s.len() ==> #[trigger] s[i] != '|' && s[i] != '\n'
}

/// The fields of `s` when read as `d`-delimited text: always at least one,
/// possibly empty, field.
pub open spec fn split_on(s: Seq<char>, d: char) -> Seq<Seq<char>>
    decreases s.len(),
{
    if s.len() == 0 {
        seq![Seq::<char>::empty()]
    } else if s[0] == d {
        seq![Seq::<char>::empty()] + split_on(s.skip(1), d)
    } else {
        let rest = split_on(s.skip(1), d);
        seq![seq![s[0]] + rest[0]] + rest.skip(1)
    }
}

/// The fields joined back into one line, `d` between consecutive fields.
pub open spec fn join_on(fs: Seq<Seq<char>>, d: char) -> Seq<char>
    decreases fs.len(),
{
    if fs.len() == 0 {
        Seq::<char>::empty()
    } else if fs.len() == 1 {
        fs[0]
    } else {
        join_on(fs.drop_last(), d) + seq![d] + fs.last()
    }
}

/// Splitting yields at least one field.
pub proof fn lemma_split_len(s: Seq<char>, d: char)
    ensures
        split_on(s, d).len() >= 1,
    decreases s.len(),
{
    if s.len() == 0 {
    } else {
        lemma_split_len(s.skip(1), d);
    }
}

/// A line without the delimiter is one field.
pub proof fn lemma_split_single(s: Seq<char>, d: char)
    requires
        forall|i: int| 0 <= i < s.len() ==> #[trigger] s[i] != d,
    ensures
        split_on(s, d) == seq![s],
    decreases s.len(),
{
    if s.len() == 0 {
        assert(split_on(s, d) =~~= seq![s]);
    } else {
        let tail = s.skip(1);
        lemma_split_single(tail, d);
        let rest = split_on(tail, d);
        assert(rest == seq![tail]);
        assert(seq![s[0]] + rest[0] =~= s);
        assert(split_on(s, d) =~~= seq![s]);
    }
}

/// Splitting distributes over a delimiter between two parts.
pub proof fn lemma_split_append(a: Seq<char>, b: Seq<char>, d: char)
    ensures
        split_on(a + seq![d] + b, d) == split_on(a, d) + split_on(b, d),
    decreases a.len(),
{
    let s = a + seq![d] + b;
    if a.len() == 0 {
        assert(s[0] == d);
        assert(s.skip(1) =~= b);
        assert(split_on(s, d) =~~= split_on(a, d) + split_on(b, d));
    } else {
        lemma_split_append(a.skip(1), b, d);
        assert(s.skip(1) =~= a.skip(1) + seq![d] + b);
        lemma_split_len(a.skip(1), d);
        if a[0] == d {
            assert(split_on(s, d) =~~= split_on(a, d) + split_on(b, d));
        } else {
            let rest = split_on(s.skip(1), d);
            let resta = split_on(a.skip(1), d);
            assert(rest == resta + split_on(b, d));
            assert(rest[0] == resta[0]);
            assert(rest.skip(1) =~~= resta.skip(1) + split_on(b, d));
            assert(split_on(s, d) =~~= split_on(a, d) + split_on(b, d));
        }
    }
}

/// Joining delimiter-free fields and splitting the line gives the fields back.
pub proof fn lemma_split_join(fs: Seq<Seq<char>>, d: char)
    requires
        fs.len() >= 1,
        forall|k: int, i: int|
            0 <= k < fs.len() && 0 <= i < fs[k].len() ==> #[trigger] fs[k][i] != d,
    ensures
        split_on(join_on(fs, d), d) == fs,
    decreases fs.len(),
{
    if fs.len() == 1 {
        assert(forall|i: int| 0 <= i < fs[0].len() ==> #[trigger] fs[0][i] != d);
        lemma_split_single(fs[0], d);
        assert(split_on(join_on(fs, d), d) =~~= fs);
    } else {
        let front = fs.drop_last();
        lemma_split_join(front, d);
        lemma_split_single(fs.last(), d);
        lemma_split_append(join_on(front, d), fs.last(), d);
        assert(split_on(join_on(fs, d), d) =~~= front + seq![fs.last()]);
        assert(front + seq![fs.last()] =~~= fs);
    }
}

/// Appending one more field to a joined line.
pub proof fn lemma_join_push(fs: Seq<Seq<char>>, x: Seq<char>, d: char)
    requires
        fs.len() >= 1,
    ensures
        join_on(fs.push(x), d) == join_on(fs, d) + seq![d] + x,
{
    assert(fs.push(x).drop_last() =~~= fs);
    assert(fs.push(x).last() == x);
}

/// A line joined from terminator-free fields holds no terminator.
pub proof fn lemma_join_no_newline(fs: Seq<Seq<char>>)
    requires
        forall|k: int, i: int|
            0 <= k < fs.len() && 0 <= i < fs[k].len() ==> #[trigger] fs[k][i] != '\n',
    ensures
        forall|i: int| 0 <= i < join_on(fs, '|').len() ==> #[trigger] join_on(fs, '|')[i] != '\n',
    decreases fs.len(),
{
    if fs.len() <= 1 {
    } else {
        let front = fs.drop_last();
        assert(forall|k: int, i: int|
            0 <= k < front.len() && 0 <= i < front[k].len() ==> #[trigger] front[k][i] != '\n');
        lemma_join_no_newline(front);
        let joined = join_on(fs, '|');
        let fl = join_on(front, '|').len() as int;
        assert forall|i: int| 0 <= i < joined.len() implies #[trigger] joined[i] != '\n' by {
            if i < fl {
                assert(joined[i] == join_on(front, '|')[i]);
            } else if i == fl {
                assert(joined[i] == '|');
            } else {
                assert(joined[i] == fs.last()[i - fl - 1]);
            }
        }
    }
}

/// The views of a vector of field strings.
pub open spec fn views_of(fields: Seq<String>) -> Seq<Seq<char>> {
    fields.map_values(|f: String| f@)
}

/// Splits one record line into its pipe-delimited fields.
pub fn split_fields(line: &str) -> (r: Vec<String>)
    ensures
        views_of(r@) == split_on(line@, '|'),
{
    let n = line.unicode_len();
    let mut r: Vec<String> = Vec::new();
    let mut start: usize = 0;
    let mut i: usize = 0;
    proof {
        assert(line@.skip(0) =~= line@);
        assert(views_of(r@) + split_on(line@.skip(0), '|') =~~= split_on(line@, '|'));
    }
    while i < n
        invariant
            n == line@.len(),
            start <= i <= n,
            forall|j: int| start <= j < i ==> line@[j] != '|',
            split_on(line@, '|') == views_of(r@) + split_on(line@.skip(start as int), '|'),
        decreases n - i,
    {
        let c = line.get_char(i);
        if c == '|' {
            let field = line.substring_char(start, i).to_owned();
            proof {
                let tail = line@.skip(start as int);
                let piece = line@.subrange(start as int, i as int);
                assert(tail =~= piece + seq!['|'] + line@.skip(i as int + 1));
                lemma_split_append(piece, line@.skip(i as int + 1), '|');
                lemma_split_single(piece, '|');
                assert(split_on(tail, '|') == seq![piece] + split_on(
                    line@.skip(i as int + 1),
                    '|',
                ));
                assert(views_of(r@.push(field)) =~~= views_of(r@) + seq![piece]);
            }
            r.push(field);
            start = i + 1;
        }
        i = i + 1;
    }
    let field = line.substring_char(start, n).to_owned();
    proof {
        let tail = line@.skip(start as int);
        assert(tail =~= line@.subrange(start as int, n as int));
        lemma_split_single(tail, '|');
        assert(views_of(r@.push(field)) =~~= views_of(r@) + seq![tail]);
    }
    r.push(field);
    r
}

} // verus!
