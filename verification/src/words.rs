//! Splitting text into pieces, joining pieces, and the order of texts.

use vstd::prelude::*;
use vstd::relations::{
    antisymmetric, reflexive, sorted_by, strongly_connected, total_ordering, transitive,
};

use crate::text::{chars_of, lemma_occurs_between, lemma_occurs_within, occurs, string_of};

verus! {

/// The characters that separate two pieces of text.
#[derive(Clone, Copy)]
pub enum Separator {
    /// One given character.
    Char(char),
    /// Any character with the Unicode property `White_Space`.
    White,
}

/// The Unicode property `White_Space`.
pub open spec fn is_white(c: char) -> bool {
    let u = c as u32;
    ||| 0x9 <= u <= 0xd
    ||| u == 0x20
    ||| u == 0x85
    ||| u == 0xa0
    ||| u == 0x1680
    ||| 0x2000 <= u <= 0x200a
    ||| u == 0x2028
    ||| u == 0x2029
    ||| u == 0x202f
    ||| u == 0x205f
    ||| u == 0x3000
}

/// Whether `c` separates pieces.
pub open spec fn separates(by: Separator, c: char) -> bool {
    match by {
        Separator::Char(d) => c == d,
        Separator::White => is_white(c),
    }
}

/// The pieces of `s` between separators, empty ones included.
pub open spec fn split_on(s: Seq<char>, by: Separator) -> Seq<Seq<char>>
    decreases s.len(),
{
    if s.len() == 0 {
        seq![s]
    } else {
        let before = split_on(s.drop_last(), by);
        if separates(by, s.last()) {
            before.push(Seq::<char>::empty())
        } else {
            before.drop_last().push(before.last().push(s.last()))
        }
    }
}

/// The texts of a vector of strings.
pub open spec fn texts(v: Seq<String>) -> Seq<Seq<char>> {
    Seq::new(v.len(), |i: int| v[i]@)
}

/// `s` without the white space at its start.
pub open spec fn trim_start(s: Seq<char>) -> Seq<char>
    decreases s.len(),
{
    if s.len() > 0 && is_white(s[0]) {
        trim_start(s.skip(1))
    } else {
        s
    }
}

/// `s` without the white space at its end.
pub open spec fn trim_end(s: Seq<char>) -> Seq<char>
    decreases s.len(),
{
    if s.len() > 0 && is_white(s.last()) {
        trim_end(s.drop_last())
    } else {
        s
    }
}

/// `s` without the white space at both ends.
pub open spec fn trimmed(s: Seq<char>) -> Seq<char> {
    trim_end(trim_start(s))
}

/// The texts one after another, with `sep` between neighbours.
pub open spec fn join_texts(parts: Seq<Seq<char>>, sep: Seq<char>) -> Seq<char>
    decreases parts.len(),
{
    if parts.len() == 0 {
        Seq::<char>::empty()
    } else if parts.len() == 1 {
        parts[0]
    } else {
        join_texts(parts.drop_last(), sep) + sep + parts.last()
    }
}

/// Lexicographic order by code point.
pub open spec fn text_le(a: Seq<char>, b: Seq<char>) -> bool
    decreases a.len(),
{
    if a.len() == 0 {
        true
    } else if b.len() == 0 {
        false
    } else if a[0] == b[0] {
        text_le(a.skip(1), b.skip(1))
    } else {
        a[0] < b[0]
    }
}

/// [`text_le`] as a relation.
pub open spec fn text_order() -> spec_fn(Seq<char>, Seq<char>) -> bool {
    |a: Seq<char>, b: Seq<char>| text_le(a, b)
}

/// Whether the character is white space.
pub fn white(c: char) -> (r: bool)
    ensures
        r == is_white(c),
{
    let u = c as u32;
    (0x9 <= u && u <= 0xd) || u == 0x20 || u == 0x85 || u == 0xa0 || u == 0x1680 || (0x2000 <= u
        && u <= 0x200a) || u == 0x2028 || u == 0x2029 || u == 0x202f || u == 0x205f || u == 0x3000
}

/// Whether `c` separates pieces.
fn cuts(by: Separator, c: char) -> (r: bool)
    ensures
        r == separates(by, c),
{
    match by {
        Separator::Char(d) => c == d,
        Separator::White => white(c),
    }
}

/// There is always at least one piece.
pub proof fn lemma_split_nonempty(s: Seq<char>, by: Separator)
    ensures
        split_on(s, by).len() > 0,
    decreases s.len(),
{
    if s.len() > 0 {
        lemma_split_nonempty(s.drop_last(), by);
    }
}

/// The pieces of `s` between separators, empty ones included.
pub fn pieces(s: &str, by: Separator) -> (r: Vec<String>)
    ensures
        texts(r@) == split_on(s@, by),
{
    let chars = chars_of(s);
    let mut out: Vec<String> = Vec::new();
    let mut current = String::new();
    let mut i: usize = 0;
    assert(chars@.take(0) =~= Seq::<char>::empty());
    assert(texts(out@).push(current@) =~= split_on(chars@.take(0), by));
    while i < chars.len()
        invariant
            chars@ == s@,
            i <= chars@.len(),
            texts(out@).push(current@) == split_on(chars@.take(i as int), by),
        decreases chars@.len() - i,
    {
        let c = chars[i];
        let ghost before = texts(out@).push(current@);
        assert(chars@.take(i + 1).drop_last() =~= chars@.take(i as int));
        assert(before.drop_last() =~= texts(out@));
        if cuts(by, c) {
            let ghost old_out = out@;
            out.push(current);
            current = String::new();
            assert(texts(out@) =~= before);
        } else {
            current.push(c);
        }
        assert(texts(out@).push(current@) =~= split_on(chars@.take(i + 1), by));
        i = i + 1;
    }
    assert(chars@.take(chars@.len() as int) =~= chars@);
    let ghost last = current@;
    let ghost front = texts(out@);
    out.push(current);
    assert(texts(out@) =~= front.push(last));
    out
}

/// Whether a piece of text holds any character.
pub open spec fn filled() -> spec_fn(Seq<char>) -> bool {
    |p: Seq<char>| p.len() > 0
}

/// The pieces of `s` between separators that are not empty.
pub fn filled_pieces(s: &str, by: Separator) -> (r: Vec<String>)
    ensures
        texts(r@) == split_on(s@, by).filter(filled()),
{
    reveal(Seq::filter);
    let all = pieces(s, by);
    let ghost whole = texts(all@);
    let mut out: Vec<String> = Vec::new();
    let mut i: usize = 0;
    assert(texts(out@) =~= whole.take(0).filter(filled()));
    while i < all.len()
        invariant
            whole == texts(all@),
            i <= all@.len(),
            texts(out@) == whole.take(i as int).filter(filled()),
        decreases all@.len() - i,
    {
        reveal(Seq::filter);
        assert(whole.take(i + 1).drop_last() =~= whole.take(i as int));
        let ghost kept = texts(out@);
        if all[i].as_str().is_empty() {
        } else {
            let p = all[i].clone();
            out.push(p);
            assert(texts(out@) =~= kept.push(whole[i as int]));
        }
        i = i + 1;
    }
    assert(whole.take(all@.len() as int) =~= whole);
    out
}

/// White space at the start is the longest run of it.
proof fn lemma_trim_start_run(s: Seq<char>, n: int)
    requires
        0 <= n <= s.len(),
        forall|k: int| 0 <= k < n ==> is_white(#[trigger] s[k]),
        n < s.len() ==> !is_white(s[n]),
    ensures
        trim_start(s) == s.skip(n),
    decreases n,
{
    if n > 0 {
        let t = s.skip(1);
        assert(forall|k: int| 0 <= k < n - 1 ==> #[trigger] t[k] == s[k + 1]);
        lemma_trim_start_run(t, n - 1);
        assert(t.skip(n - 1) =~= s.skip(n));
    } else {
        assert(s.skip(0) =~= s);
    }
}

/// White space at the end is the longest run of it.
proof fn lemma_trim_end_run(s: Seq<char>, n: int)
    requires
        0 <= n <= s.len(),
        forall|k: int| n <= k < s.len() ==> is_white(#[trigger] s[k]),
        n > 0 ==> !is_white(s[n - 1]),
    ensures
        trim_end(s) == s.take(n),
    decreases s.len() - n,
{
    if n < s.len() {
        lemma_trim_end_run(s.drop_last(), n);
        assert(s.drop_last().take(n) =~= s.take(n));
    } else {
        assert(s.take(n) =~= s);
    }
}

/// `s` without the white space at both ends.
pub fn trim(s: &str) -> (r: String)
    ensures
        r@ == trimmed(s@),
{
    let chars = chars_of(s);
    let mut a: usize = 0;
    while a < chars.len() && white(chars[a])
        invariant
            a <= chars@.len(),
            forall|k: int| 0 <= k < a ==> is_white(#[trigger] chars@[k]),
        decreases chars@.len() - a,
    {
        a = a + 1;
    }
    proof {
        lemma_trim_start_run(chars@, a as int);
    }
    let ghost rest = chars@.skip(a as int);
    let mut b: usize = chars.len();
    while b > a && white(chars[b - 1])
        invariant
            a <= b <= chars@.len(),
            forall|k: int| b <= k < chars@.len() ==> is_white(#[trigger] chars@[k]),
        decreases b - a,
    {
        b = b - 1;
    }
    proof {
        assert(forall|k: int| 0 <= k < rest.len() ==> #[trigger] rest[k] == chars@[k + a]);
        lemma_trim_end_run(rest, b - a);
        assert(rest.take(b - a) =~= chars@.subrange(a as int, b as int));
    }
    string_of(&chars, a, b)
}

/// The texts one after another, with `sep` between neighbours.
pub fn join(parts: &Vec<String>, sep: &str) -> (r: String)
    ensures
        r@ == join_texts(texts(parts@), sep@),
{
    let ghost whole = texts(parts@);
    let mut out = String::new();
    let mut i: usize = 0;
    while i < parts.len()
        invariant
            whole == texts(parts@),
            i <= parts@.len(),
            out@ == join_texts(whole.take(i as int), sep@),
        decreases parts@.len() - i,
    {
        if i > 0 {
            out.append(sep);
        }
        out.append(parts[i].as_str());
        assert(whole.take(i + 1).drop_last() =~= whole.take(i as int));
        assert(out@ =~= join_texts(whole.take(i + 1), sep@));
        i = i + 1;
    }
    assert(whole.take(parts@.len() as int) =~= whole);
    out
}

proof fn lemma_text_le_refl(a: Seq<char>)
    ensures
        text_le(a, a),
    decreases a.len(),
{
    if a.len() > 0 {
        lemma_text_le_refl(a.skip(1));
    }
}

proof fn lemma_text_le_antisym(a: Seq<char>, b: Seq<char>)
    requires
        text_le(a, b),
        text_le(b, a),
    ensures
        a == b,
    decreases a.len(),
{
    if a.len() > 0 && b.len() > 0 {
        lemma_text_le_antisym(a.skip(1), b.skip(1));
        assert(a =~= seq![a[0]] + a.skip(1));
        assert(b =~= seq![b[0]] + b.skip(1));
    } else {
        assert(a =~= b);
    }
}

proof fn lemma_text_le_trans(a: Seq<char>, b: Seq<char>, c: Seq<char>)
    requires
        text_le(a, b),
        text_le(b, c),
    ensures
        text_le(a, c),
    decreases a.len(),
{
    if a.len() > 0 && b.len() > 0 && c.len() > 0 {
        if a[0] == b[0] && b[0] == c[0] {
            lemma_text_le_trans(a.skip(1), b.skip(1), c.skip(1));
        }
    }
}

proof fn lemma_text_le_total(a: Seq<char>, b: Seq<char>)
    ensures
        text_le(a, b) || text_le(b, a),
    decreases a.len(),
{
    if a.len() > 0 && b.len() > 0 && a[0] == b[0] {
        lemma_text_le_total(a.skip(1), b.skip(1));
    }
}

/// Texts are totally ordered.
pub proof fn lemma_text_order_total()
    ensures
        total_ordering(text_order()),
{
    let r = text_order();
    assert(reflexive(r)) by {
        assert forall|x: Seq<char>| #[trigger] r(x, x) by {
            lemma_text_le_refl(x);
        }
    }
    assert(antisymmetric(r)) by {
        assert forall|x: Seq<char>, y: Seq<char>| #[trigger] r(x, y) && #[trigger] r(
            y,
            x,
        ) implies x == y by {
            lemma_text_le_antisym(x, y);
        }
    }
    assert(transitive(r)) by {
        assert forall|x: Seq<char>, y: Seq<char>, z: Seq<char>| #[trigger] r(x, y) && #[trigger] r(
            y,
            z,
        ) implies r(x, z) by {
            lemma_text_le_trans(x, y, z);
        }
    }
    assert(strongly_connected(r)) by {
        assert forall|x: Seq<char>, y: Seq<char>| #[trigger] r(x, y) || #[trigger] r(y, x) by {
            lemma_text_le_total(x, y);
        }
    }
}

/// Whether `a` stands no later than `b`.
pub fn not_after(a: &str, b: &str) -> (r: bool)
    ensures
        r == text_le(a@, b@),
{
    let x = chars_of(a);
    let y = chars_of(b);
    let mut i: usize = 0;
    assert(x@.skip(0) =~= x@);
    assert(y@.skip(0) =~= y@);
    while i < x.len() && i < y.len() && x[i] == y[i]
        invariant
            i <= x@.len(),
            i <= y@.len(),
            x@ == a@,
            y@ == b@,
            text_le(x@.skip(i as int), y@.skip(i as int)) == text_le(a@, b@),
        decreases x@.len() - i,
    {
        assert(x@.skip(i as int).skip(1) =~= x@.skip(i + 1));
        assert(y@.skip(i as int).skip(1) =~= y@.skip(i + 1));
        i = i + 1;
    }
    if i == x.len() {
        true
    } else if i == y.len() {
        false
    } else {
        x[i] < y[i]
    }
}

/// Inserting adds one occurrence.
pub proof fn lemma_insert_multiset<A>(s: Seq<A>, x: A, j: int)
    requires
        0 <= j <= s.len(),
    ensures
        s.insert(j, x).to_multiset() == s.to_multiset().insert(x),
{
    broadcast use vstd::seq_lib::group_to_multiset_ensures;
    broadcast use vstd::multiset::group_multiset_axioms;

    let t = s.insert(j, x);
    assert(t[j] == x);
    assert(t.remove(j) =~= s);
    assert(t.contains(x));
    assert(t.to_multiset() =~= t.to_multiset().remove(x).insert(x));
}

/// Inserting behind everything that is no greater keeps the order.
proof fn lemma_insert_sorted(s: Seq<Seq<char>>, x: Seq<char>, j: int)
    requires
        sorted_by(s, text_order()),
        0 <= j <= s.len(),
        j > 0 ==> text_le(s[j - 1], x),
        forall|k: int| j <= k < s.len() ==> !text_le(#[trigger] s[k], x),
    ensures
        sorted_by(s.insert(j, x), text_order()),
{
    lemma_text_order_total();
    let leq = text_order();
    let t = s.insert(j, x);
    assert forall|a: int, b: int| 0 <= a < b < t.len() implies #[trigger] leq(t[a], t[b]) by {
        if a < j && b < j {
            assert(leq(s[a], s[b]));
        } else if a < j && b == j {
            if a < j - 1 {
                assert(leq(s[a], s[j - 1]));
                lemma_text_le_trans(s[a], s[j - 1], x);
            }
        } else if a < j && b > j {
            assert(leq(s[a], s[b - 1]));
        } else if a == j {
            lemma_text_le_total(x, s[b - 1]);
        } else {
            assert(leq(s[a - 1], s[b - 1]));
        }
    }
}

/// Puts the strings in order.
pub fn sort(parts: Vec<String>) -> (r: Vec<String>)
    ensures
        texts(r@) == texts(parts@).sort_by(text_order()),
{
    let ghost whole = texts(parts@);
    let ghost leq = text_order();
    proof {
        lemma_text_order_total();
        whole.lemma_sort_by_ensures(leq);
    }
    let mut out: Vec<String> = Vec::new();
    let mut i: usize = 0;
    assert(texts(out@) =~= Seq::<Seq<char>>::empty());
    assert(whole.take(0) =~= Seq::<Seq<char>>::empty());
    while i < parts.len()
        invariant
            whole == texts(parts@),
            leq == text_order(),
            total_ordering(leq),
            i <= parts@.len(),
            out@.len() == i,
            sorted_by(texts(out@), leq),
            texts(out@).to_multiset() == whole.take(i as int).to_multiset(),
        decreases parts@.len() - i,
    {
        broadcast use vstd::seq_lib::group_to_multiset_ensures;

        let item = parts[i].clone();
        let mut j: usize = out.len();
        while j > 0 && !not_after(out[j - 1].as_str(), item.as_str())
            invariant
                j <= out@.len(),
                leq == text_order(),
                forall|k: int| j <= k < out@.len() ==> !text_le(#[trigger] out@[k]@, item@),
            decreases j,
        {
            j = j - 1;
        }
        let ghost before = texts(out@);
        let ghost x = item@;
        out.insert(j, item);
        proof {
            assert(texts(out@) =~= before.insert(j as int, x));
            lemma_insert_sorted(before, x, j as int);
            lemma_insert_multiset(before, x, j as int);
            assert(whole.take(i + 1) =~= whole.take(i as int).push(x));
        }
        i = i + 1;
    }
    proof {
        assert(whole.take(parts@.len() as int) =~= whole);
        vstd::seq_lib::lemma_sorted_unique(texts(out@), whole.sort_by(leq), leq);
    }
    out
}

/// No character of `s` separates pieces.
pub open spec fn undivided(s: Seq<char>, by: Separator) -> bool {
    forall|k: int| 0 <= k < s.len() ==> !separates(by, #[trigger] s[k])
}

/// Pieces hold no separator.
pub proof fn lemma_pieces_undivided(s: Seq<char>, by: Separator, i: int)
    requires
        0 <= i < split_on(s, by).len(),
    ensures
        undivided(split_on(s, by)[i], by),
    decreases s.len(),
{
    if s.len() > 0 {
        let before = split_on(s.drop_last(), by);
        lemma_split_nonempty(s.drop_last(), by);
        if i < before.len() {
            lemma_pieces_undivided(s.drop_last(), by, i);
        }
    }
}

/// What holds no separator is its own only piece.
proof fn lemma_split_undivided(s: Seq<char>, by: Separator)
    requires
        undivided(s, by),
    ensures
        split_on(s, by) == seq![s],
    decreases s.len(),
{
    if s.len() > 0 {
        assert(undivided(s.drop_last(), by)) by {
            assert forall|k: int| 0 <= k < s.len() - 1 implies !separates(
                by,
                #[trigger] s.drop_last()[k],
            ) by {
                assert(!separates(by, s[k]));
            }
        }
        lemma_split_undivided(s.drop_last(), by);
        assert(s.drop_last().push(s.last()) =~= s);
        assert(split_on(s, by) =~= seq![s]);
    }
}

/// A separator starts a new piece.
proof fn lemma_split_append(a: Seq<char>, c: char, b: Seq<char>)
    requires
        undivided(b, Separator::Char(c)),
    ensures
        split_on(a + seq![c] + b, Separator::Char(c)) == split_on(a, Separator::Char(c)).push(b),
    decreases b.len(),
{
    let by = Separator::Char(c);
    let whole = a + seq![c] + b;
    if b.len() == 0 {
        assert(whole.drop_last() =~= a);
        assert(b =~= Seq::<char>::empty());
    } else {
        assert(undivided(b.drop_last(), by)) by {
            assert forall|k: int| 0 <= k < b.len() - 1 implies !separates(
                by,
                #[trigger] b.drop_last()[k],
            ) by {
                assert(!separates(by, b[k]));
            }
        }
        lemma_split_append(a, c, b.drop_last());
        assert(whole.drop_last() =~= a + seq![c] + b.drop_last());
        assert(whole.last() == b.last());
        assert(!separates(by, b[b.len() - 1]));
        assert(b.drop_last().push(b.last()) =~= b);
        assert(split_on(whole, by) =~= split_on(a, by).push(b));
    }
}

/// Joining undivided texts and splitting again gives the texts back.
pub proof fn lemma_split_join(parts: Seq<Seq<char>>, c: char)
    requires
        parts.len() > 0,
        forall|i: int| 0 <= i < parts.len() ==> undivided(#[trigger] parts[i], Separator::Char(c)),
    ensures
        split_on(join_texts(parts, seq![c]), Separator::Char(c)) == parts,
    decreases parts.len(),
{
    if parts.len() == 1 {
        lemma_split_undivided(parts[0], Separator::Char(c));
        assert(parts =~= seq![parts[0]]);
    } else {
        let front = parts.drop_last();
        assert forall|i: int| 0 <= i < front.len() implies undivided(
            #[trigger] front[i],
            Separator::Char(c),
        ) by {
            assert(undivided(parts[i], Separator::Char(c)));
        }
        lemma_split_join(front, c);
        assert(undivided(parts[parts.len() - 1], Separator::Char(c)));
        lemma_split_append(join_texts(front, seq![c]), c, parts.last());
        assert(front.push(parts.last()) =~= parts);
    }
}

/// A list without empty texts is its own list of filled texts.
pub proof fn lemma_filter_filled(parts: Seq<Seq<char>>)
    requires
        forall|i: int| 0 <= i < parts.len() ==> (#[trigger] parts[i]).len() > 0,
    ensures
        parts.filter(filled()) == parts,
    decreases parts.len(),
{
    reveal(Seq::filter);
    if parts.len() > 0 {
        let front = parts.drop_last();
        assert forall|i: int| 0 <= i < front.len() implies (#[trigger] front[i]).len() > 0 by {
            assert(parts[i].len() > 0);
        }
        lemma_filter_filled(front);
        assert(parts[parts.len() - 1].len() > 0);
        assert(front.push(parts.last()) =~= parts);
    }
}

/// What stands in a list of filled texts is a filled text of the list.
pub proof fn lemma_filtered_member(parts: Seq<Seq<char>>, i: int)
    requires
        0 <= i < parts.filter(filled()).len(),
    ensures
        parts.filter(filled())[i].len() > 0,
        parts.contains(parts.filter(filled())[i]),
    decreases parts.len(),
{
    reveal(Seq::filter);
    if parts.len() > 0 {
        let front = parts.drop_last();
        if i < front.filter(filled()).len() {
            lemma_filtered_member(front, i);
            let x = front.filter(filled())[i];
            let k = choose|k: int| 0 <= k < front.len() && front[k] == x;
            assert(parts[k] == x);
        } else {
            assert(parts[parts.len() - 1] == parts.last());
        }
    }
}

/// The line where the condition holds, else nothing.
pub open spec fn line_if(condition: bool, line: Seq<char>) -> Seq<Seq<char>> {
    if condition {
        seq![line]
    } else {
        Seq::empty()
    }
}

/// Lines under construction.
pub struct Lines {
    lines: Vec<String>,
}

impl Lines {
    /// The lines so far.
    pub closed spec fn list(self) -> Seq<Seq<char>> {
        texts(self.lines@)
    }

    /// No lines.
    pub fn new() -> (r: Lines)
        ensures
            r.list() == Seq::<Seq<char>>::empty(),
    {
        let r = Lines { lines: Vec::new() };
        assert(r.list() =~= Seq::<Seq<char>>::empty());
        r
    }

    /// One more line.
    pub fn with(self, line: String) -> (r: Lines)
        ensures
            r.list() == self.list().push(line@),
    {
        let ghost before = self.list();
        let ghost text = line@;
        let mut lines = self.lines;
        lines.push(line);
        assert(texts(lines@) =~= before.push(text));
        Lines { lines }
    }

    /// One more line where the condition holds.
    pub fn note(self, condition: bool, line: String) -> (r: Lines)
        ensures
            r.list() == self.list() + line_if(condition, line@),
    {
        let ghost before = self.list();
        if condition {
            let r = self.with(line);
            assert(r.list() =~= before + seq![line@]);
            r
        } else {
            assert(before + Seq::<Seq<char>>::empty() =~= before);
            self
        }
    }

    /// The lines of another list after these.
    pub fn extend(self, other: Lines) -> (r: Lines)
        ensures
            r.list() == self.list() + other.list(),
    {
        let ghost before = self.list();
        let ghost after = other.list();
        let mut lines = self.lines;
        let mut more = other.lines;
        lines.append(&mut more);
        assert(texts(lines@) =~= before + after);
        Lines { lines }
    }

    /// The lines.
    pub fn done(self) -> (r: Vec<String>)
        ensures
            texts(r@) == self.list(),
    {
        self.lines
    }
}

/// So many spaces.
pub open spec fn spaces(n: int) -> Seq<char> {
    Seq::new(
        if n < 0 {
            0
        } else {
            n as nat
        },
        |i: int| ' ',
    )
}

/// `s` with spaces after it, up to a width.
pub open spec fn left_aligned(s: Seq<char>, width: nat) -> Seq<char> {
    s + spaces(width - s.len())
}

/// `s` with spaces before it, up to a width.
pub open spec fn right_aligned(s: Seq<char>, width: nat) -> Seq<char> {
    spaces(width - s.len()) + s
}

fn spaces_up_to(used: usize, width: usize) -> (r: String)
    ensures
        r@ == spaces(width - used),
{
    let mut out = String::new();
    let mut i: usize = used;
    assert(used > width ==> spaces(width - used) =~= Seq::<char>::empty());
    assert(spaces(0) =~= Seq::<char>::empty());
    while i < width
        invariant
            used <= width ==> i <= width,
            used > width ==> i == used,
            used <= i,
            out@ == spaces(if used <= width {
                i - used
            } else {
                0
            }),
        decreases width - i,
    {
        out.push(' ');
        i = i + 1;
        assert(out@ =~= spaces(i - used));
    }
    out
}

/// `s` with spaces after it, up to a width.
pub fn align_left(s: &str, width: usize) -> (r: String)
    ensures
        r@ == left_aligned(s@, width as nat),
{
    let chars = chars_of(s);
    let rest = spaces_up_to(chars.len(), width);
    s.to_owned().concat(rest.as_str())
}

/// `s` with spaces before it, up to a width.
pub fn align_right(s: &str, width: usize) -> (r: String)
    ensures
        r@ == right_aligned(s@, width as nat),
{
    let chars = chars_of(s);
    let rest = spaces_up_to(chars.len(), width);
    rest.concat(s)
}

/// Joined texts hold each of the parts.
pub proof fn lemma_join_holds(parts: Seq<Seq<char>>, sep: Seq<char>, i: int)
    requires
        0 <= i < parts.len(),
    ensures
        occurs(join_texts(parts, sep), parts[i]),
    decreases parts.len(),
{
    let empty = Seq::<char>::empty();
    if parts.len() == 1 {
        lemma_occurs_between(empty, parts[0], empty);
        assert(empty + parts[0] + empty =~= parts[0]);
    } else if i == parts.len() - 1 {
        lemma_occurs_between(join_texts(parts.drop_last(), sep) + sep, parts[i], empty);
        assert(join_texts(parts.drop_last(), sep) + sep + parts[i] + empty =~= join_texts(
            parts,
            sep,
        ));
    } else {
        lemma_join_holds(parts.drop_last(), sep, i);
        let front = join_texts(parts.drop_last(), sep);
        lemma_occurs_within(empty, front, sep + parts.last(), parts[i]);
        assert(empty + front + (sep + parts.last()) =~= join_texts(parts, sep));
    }
}

/// The characters that count as white space.
pub open spec fn white_characters() -> Seq<int> {
    seq![
        0x9, 0xa, 0xb, 0xc, 0xd, 0x20, 0x85, 0xa0, 0x1680, 0x2000, 0x2001, 0x2002, 0x2003, 0x2004,
        0x2005, 0x2006, 0x2007, 0x2008, 0x2009, 0x200a, 0x2028, 0x2029, 0x202f, 0x205f, 0x3000,
    ]
}

/// White space is what Unicode calls so: five controls, the space, and nineteen more.
pub proof fn white_space_is_that_of_unicode(c: char)
    ensures
        is_white(c) <==> white_characters().contains(c as int),
{
    let all = white_characters();
    let u = c as int;
    assert(all.len() == 25);
    if is_white(c) {
        let i: int = if u <= 0xd {
            u - 9
        } else if u == 0x20 {
            5
        } else if u == 0x85 {
            6
        } else if u == 0xa0 {
            7
        } else if u == 0x1680 {
            8
        } else if u <= 0x200a {
            9 + (u - 0x2000)
        } else if u == 0x2028 {
            20
        } else if u == 0x2029 {
            21
        } else if u == 0x202f {
            22
        } else if u == 0x205f {
            23
        } else {
            24
        };
        assert(all[i] == u);
    }
    if all.contains(u) {
        let i = choose|i: int| 0 <= i < all.len() && all[i] == u;
        assert(i == 0 || i == 1 || i == 2 || i == 3 || i == 4 || i == 5 || i == 6 || i == 7 || i
            == 8 || i == 9 || i == 10 || i == 11 || i == 12 || i == 13 || i == 14 || i == 15 || i
            == 16 || i == 17 || i == 18 || i == 19 || i == 20 || i == 21 || i == 22 || i == 23 || i
            == 24);
    }
}

/// Text that is white all through.
pub open spec fn all_white(s: Seq<char>) -> bool {
    forall|k: int| 0 <= k < s.len() ==> is_white(#[trigger] s[k])
}

/// Trimming takes white space from both ends and nothing else.
pub proof fn trimming_takes_white_ends(s: Seq<char>) -> (ends: (Seq<char>, Seq<char>))
    ensures
        s == ends.0 + trimmed(s) + ends.1,
        all_white(ends.0),
        all_white(ends.1),
        trimmed(s).len() > 0 ==> !is_white(trimmed(s)[0]) && !is_white(trimmed(s).last()),
        trimmed(s).len() == 0 <==> all_white(s),
{
    let left = lemma_trim_start(s);
    let middle = trim_start(s);
    let right = lemma_trim_end(middle);
    assert(s =~= left + trimmed(s) + right);
    if trimmed(s).len() > 0 {
        assert(middle[0] == trimmed(s)[0]);
    }
    if all_white(s) && trimmed(s).len() > 0 {
        assert(s[left.len() as int] == trimmed(s)[0]);
    }
    (left, right)
}

proof fn lemma_trim_start(s: Seq<char>) -> (cut: Seq<char>)
    ensures
        s == cut + trim_start(s),
        all_white(cut),
        trim_start(s).len() > 0 ==> !is_white(trim_start(s)[0]),
    decreases s.len(),
{
    if s.len() > 0 && is_white(s[0]) {
        let rest = lemma_trim_start(s.skip(1));
        let cut = seq![s[0]] + rest;
        assert(s =~= seq![s[0]] + s.skip(1));
        assert(seq![s[0]] + (rest + trim_start(s)) =~= cut + trim_start(s));
        assert forall|k: int| 0 <= k < cut.len() implies is_white(#[trigger] cut[k]) by {
            if k > 0 {
                assert(cut[k] == rest[k - 1]);
            }
        }
        cut
    } else {
        assert(s =~= Seq::<char>::empty() + s);
        Seq::empty()
    }
}

proof fn lemma_trim_end(s: Seq<char>) -> (cut: Seq<char>)
    ensures
        s == trim_end(s) + cut,
        all_white(cut),
        trim_end(s).len() > 0 ==> !is_white(trim_end(s).last()),
    decreases s.len(),
{
    if s.len() > 0 && is_white(s.last()) {
        let rest = lemma_trim_end(s.drop_last());
        let cut = rest.push(s.last());
        assert(s =~= s.drop_last().push(s.last()));
        assert((trim_end(s) + rest).push(s.last()) =~= trim_end(s) + cut);
        cut
    } else {
        assert(s =~= s + Seq::<char>::empty());
        Seq::empty()
    }
}

/// The pieces of a text, joined again by what divided them, are the text, and no piece is divided.
pub proof fn pieces_make_the_text(s: Seq<char>, c: char)
    ensures
        join_texts(split_on(s, Separator::Char(c)), seq![c]) == s,
        split_on(s, Separator::Char(c)).len() > 0,
        forall|i: int, k: int|
            0 <= i < split_on(s, Separator::Char(c)).len() && 0 <= k < split_on(
                s,
                Separator::Char(c),
            )[i].len() ==> #[trigger] split_on(s, Separator::Char(c))[i][k] != c,
    decreases s.len(),
{
    let by = Separator::Char(c);
    let parts = split_on(s, by);
    if s.len() > 0 {
        pieces_make_the_text(s.drop_last(), c);
        let before = split_on(s.drop_last(), by);
        if s.last() == c {
            assert(parts.drop_last() =~= before);
            assert(join_texts(parts, seq![c]) =~= s);
        } else {
            let grown = before.last().push(s.last());
            assert(parts == before.drop_last().push(grown));
            assert(parts.drop_last() =~= before.drop_last());
            if parts.len() == 1 {
                assert(join_texts(parts, seq![c]) =~= s);
            } else {
                assert(join_texts(parts, seq![c]) =~= join_texts(before, seq![c]).push(s.last()));
            }
        }
    }
    lemma_split_nonempty(s, by);
    assert forall|i: int, k: int|
        0 <= i < parts.len() && 0 <= k < parts[i].len() implies #[trigger] parts[i][k] != c by {
        lemma_pieces_undivided(s, by, i);
        assert(!separates(by, parts[i][k]));
    }
}

/// Texts are ordered by the first place at which they differ, and a text that ends there comes
/// first.
pub proof fn texts_are_ordered_by_their_first_difference(a: Seq<char>, b: Seq<char>, i: int)
    requires
        0 <= i <= a.len(),
        i <= b.len(),
        forall|k: int| 0 <= k < i ==> #[trigger] a[k] == b[k],
        i < a.len() && i < b.len() ==> a[i] != b[i],
    ensures
        i == a.len() ==> text_le(a, b),
        i == b.len() && i < a.len() ==> !text_le(a, b),
        i < a.len() && i < b.len() ==> (text_le(a, b) <==> a[i] < b[i]),
    decreases i,
{
    if i > 0 {
        assert(a[0] == b[0]);
        assert forall|k: int| 0 <= k < i - 1 implies #[trigger] a.skip(1)[k] == b.skip(1)[k] by {
            assert(a[k + 1] == b[k + 1]);
        }
        texts_are_ordered_by_their_first_difference(a.skip(1), b.skip(1), i - 1);
    }
}

/// An aligned text is as wide as asked for, or as long as the text where that is longer, and all
/// that is added are spaces: after the text or before it.
pub proof fn alignment_adds_spaces(s: Seq<char>, width: nat)
    ensures
        left_aligned(s, width).len() == if s.len() < width {
            width
        } else {
            s.len()
        },
        left_aligned(s, width).take(s.len() as int) == s,
        forall|k: int|
            s.len() <= k < left_aligned(s, width).len() ==> #[trigger] left_aligned(s, width)[k]
                == ' ',
        right_aligned(s, width).len() == left_aligned(s, width).len(),
        right_aligned(s, width).skip(right_aligned(s, width).len() - s.len()) == s,
        forall|k: int|
            0 <= k < right_aligned(s, width).len() - s.len() ==> #[trigger] right_aligned(
                s,
                width,
            )[k] == ' ',
{
    assert(left_aligned(s, width).take(s.len() as int) =~= s);
    assert(right_aligned(s, width).skip(right_aligned(s, width).len() - s.len()) =~= s);
}

} // verus!
