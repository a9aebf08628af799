//! Cache keys in their normal form, the one under which a deployed script looks scores up.
use vstd::prelude::*;
use vstd::relations::sorted_by;

use crate::policy_ir::CacheKeyRule;
use crate::text::{chars_of, ends_with, has_last, string_of};
use crate::words::{
    filled, filled_pieces, join, join_texts, lemma_filter_filled, lemma_filtered_member,
    lemma_pieces_undivided, lemma_split_join, lemma_text_order_total, separates, sort, split_on,
    text_le, text_order, undivided, Separator,
};

verus! {

/// `text` with every match of a regular expression replaced, as `regex::Regex::replace_all`
/// writes it; `None` where `regex::Regex::new` rejects the pattern.
pub uninterp spec fn replaced(
    pattern: Seq<char>,
    text: Seq<char>,
    replacement: Seq<char>,
) -> Option<Seq<char>>;

/// `regex::Regex::new`, then `regex::Regex::replace_all` with the replacement as a template.
/// Claimed: whether the pattern is accepted and what is written depend on the three texts alone.
#[verifier::external_body]
fn replace_matches(pattern: &str, text: &str, replacement: &str) -> (r: Option<String>)
    ensures
        match r {
            Some(s) => replaced(pattern@, text@, replacement@) == Some(s@),
            None => replaced(pattern@, text@, replacement@) is None,
        },
{
    match regex::Regex::new(pattern) {
        Ok(re) => Some(re.replace_all(text, replacement).into_owned()),
        Err(_) => None,
    }
}

/// A key after one rule. A rule whose pattern is not accepted changes nothing.
pub open spec fn rewritten(
    key: Seq<char>,
    pattern: Seq<char>,
    replacement: Seq<char>,
) -> Seq<char> {
    match replaced(pattern, key, replacement) {
        Some(s) => s,
        None => key,
    }
}

/// A key after the first `n` rules, in their order.
pub open spec fn rewritten_by(key: Seq<char>, rules: Seq<CacheKeyRule>, n: int) -> Seq<char>
    decreases n,
{
    if n <= 0 {
        key
    } else {
        rewritten(
            rewritten_by(key, rules, n - 1),
            rules[n - 1].pattern@,
            rules[n - 1].replacement@,
        )
    }
}

/// Position of the first `c` in `s`, the length of `s` where there is none.
pub open spec fn first_position(s: Seq<char>, c: char) -> int
    decreases s.len(),
{
    if s.len() == 0 || s[0] == c {
        0
    } else {
        1 + first_position(s.skip(1), c)
    }
}

/// The query parameters of a key that has a query: what stands between `&` after the first `?`,
/// empty ones left out.
pub open spec fn parameters(key: Seq<char>) -> Seq<Seq<char>> {
    split_on(key.skip(first_position(key, '?') + 1), Separator::Char('&')).filter(filled())
}

/// `s` without a `?` at its end.
pub open spec fn without_mark(s: Seq<char>) -> Seq<char> {
    if has_last(s, '?') {
        s.drop_last()
    } else {
        s
    }
}

/// A key with its query parameters in alphabetical order, and without the `?` where nothing
/// follows it.
pub open spec fn query_sorted(key: Seq<char>) -> Seq<char> {
    let mark = first_position(key, '?');
    if mark < key.len() {
        without_mark(
            key.take(mark + 1) + join_texts(parameters(key).sort_by(text_order()), "&"@),
        )
    } else {
        key
    }
}

/// The normal form of a key: rewritten by every rule, then with sorted query parameters.
pub open spec fn normal_key(key: Seq<char>, rules: Seq<CacheKeyRule>) -> Seq<char> {
    query_sorted(rewritten_by(key, rules, rules.len() as int))
}

/// What [`first_position`] finds.
pub proof fn lemma_first_position(s: Seq<char>, c: char, n: int)
    requires
        0 <= n <= s.len(),
        forall|k: int| 0 <= k < n ==> #[trigger] s[k] != c,
        n < s.len() ==> s[n] == c,
    ensures
        first_position(s, c) == n,
    decreases n,
{
    if n > 0 {
        assert forall|k: int| 0 <= k < n - 1 implies #[trigger] s.skip(1)[k] != c by {
            assert(s[k + 1] != c);
        }
        lemma_first_position(s.skip(1), c, n - 1);
    }
}

/// Position of the first `c`, the length where there is none.
pub fn position_of(chars: &Vec<char>, c: char) -> (r: usize)
    ensures
        r == first_position(chars@, c),
        r <= chars@.len(),
{
    let mut i: usize = 0;
    while i < chars.len() && chars[i] != c
        invariant
            i <= chars@.len(),
            forall|k: int| 0 <= k < i ==> #[trigger] chars@[k] != c,
        decreases chars@.len() - i,
    {
        i = i + 1;
    }
    proof {
        lemma_first_position(chars@, c, i as int);
    }
    i
}

/// Sorts the query parameters of a key alphabetically, to match what a script does at run time.
pub fn sort_query(key: &str) -> (r: String)
    ensures
        r@ == query_sorted(key@),
{
    let chars = chars_of(key);
    let mark: usize = position_of(&chars, '?');
    if mark == chars.len() {
        return key.to_owned();
    }
    let head = string_of(&chars, 0, mark + 1);
    let query = string_of(&chars, mark + 1, chars.len());
    proof {
        assert(head@ =~= key@.take(mark + 1));
        assert(query@ =~= key@.skip(mark + 1));
    }
    let params = filled_pieces(query.as_str(), Separator::Char('&'));
    let ordered = sort(params);
    let joined = join(&ordered, "&");
    let whole = head.concat(joined.as_str());
    if ends_with(whole.as_str(), '?') {
        let all = chars_of(whole.as_str());
        let cut = string_of(&all, 0, all.len() - 1);
        proof {
            assert(cut@ =~= whole@.drop_last());
        }
        cut
    } else {
        whole
    }
}

/// Rewrites a key by every rule in turn. A rule whose pattern is not accepted is skipped.
pub fn rewrite(key: &str, rules: &Vec<CacheKeyRule>) -> (r: String)
    ensures
        r@ == rewritten_by(key@, rules@, rules@.len() as int),
{
    let mut k = key.to_owned();
    let mut i: usize = 0;
    while i < rules.len()
        invariant
            i <= rules@.len(),
            k@ == rewritten_by(key@, rules@, i as int),
        decreases rules@.len() - i,
    {
        match replace_matches(
            rules[i].pattern.as_str(),
            k.as_str(),
            rules[i].replacement.as_str(),
        ) {
            Some(s) => {
                k = s;
            },
            None => {},
        }
        i = i + 1;
    }
    k
}

/// The normal form of a key under the rules.
pub fn normalize(key: &str, rules: &Vec<CacheKeyRule>) -> (r: String)
    ensures
        r@ == normal_key(key@, rules@),
{
    let k = rewrite(key, rules);
    sort_query(k.as_str())
}

/// The parameters of a key as they stand after sorting. A `?` at the end of the last one is taken
/// away with the rest of the key's end.
pub open spec fn settled_parameters(key: Seq<char>) -> Seq<Seq<char>> {
    let sorted = parameters(key).sort_by(text_order());
    if sorted.len() > 0 && has_last(sorted.last(), '?') {
        sorted.drop_last().push(sorted.last().drop_last())
    } else {
        sorted
    }
}

/// Taking the `?` away from the last parameter has left the parameters in order and filled, the
/// last one without another `?` at its end.
pub open spec fn settles(key: Seq<char>) -> bool {
    let list = settled_parameters(key);
    &&& sorted_by(list, text_order())
    &&& list.len() > 0 ==> list.last().len() > 0 && !has_last(list.last(), '?')
}

proof fn lemma_parameters(key: Seq<char>)
    ensures
        forall|i: int|
            0 <= i < parameters(key).sort_by(text_order()).len() ==> (#[trigger] parameters(
                key,
            ).sort_by(text_order())[i]).len() > 0 && undivided(
                parameters(key).sort_by(text_order())[i],
                Separator::Char('&'),
            ),
        sorted_by(parameters(key).sort_by(text_order()), text_order()),
{
    let by = Separator::Char('&');
    let query = key.skip(first_position(key, '?') + 1);
    let list = parameters(key);
    let sorted = list.sort_by(text_order());
    lemma_text_order_total();
    list.lemma_sort_by_ensures(text_order());
    assert forall|i: int| 0 <= i < sorted.len() implies (#[trigger] sorted[i]).len() > 0
        && undivided(sorted[i], by) by {
        assert(sorted.contains(sorted[i]));
        let k = choose|k: int| 0 <= k < list.len() && list[k] == sorted[i];
        lemma_filtered_member(split_on(query, by), k);
        let m = choose|m: int|
            0 <= m < split_on(query, by).len() && split_on(query, by)[m] == list[k];
        lemma_pieces_undivided(query, by, m);
    }
}

proof fn lemma_mark(key: Seq<char>, n: int)
    requires
        first_position(key, '?') == n,
        0 <= n < key.len(),
    ensures
        key[n] == '?',
        forall|k: int| 0 <= k < n ==> #[trigger] key[k] != '?',
    decreases key.len(),
{
    if key[0] != '?' {
        lemma_first_position_bounds(key.skip(1), '?');
    }
    if n > 0 {
        lemma_mark(key.skip(1), n - 1);
        assert forall|k: int| 0 <= k < n implies #[trigger] key[k] != '?' by {
            if k > 0 {
                assert(key.skip(1)[k - 1] != '?');
            }
        }
    }
}

proof fn lemma_first_position_bounds(key: Seq<char>, c: char)
    ensures
        0 <= first_position(key, c) <= key.len(),
    decreases key.len(),
{
    if key.len() > 0 && key[0] != c {
        lemma_first_position_bounds(key.skip(1), c);
    }
}

/// What ends a joined list ends its last text.
proof fn lemma_join_last(list: Seq<Seq<char>>, sep: Seq<char>)
    requires
        list.len() > 0,
        list.last().len() > 0,
    ensures
        join_texts(list, sep).len() > 0,
        join_texts(list, sep).last() == list.last().last(),
        join_texts(list, sep).drop_last() == join_texts(
            list.drop_last().push(list.last().drop_last()),
            sep,
        ),
{
    let cut = list.drop_last().push(list.last().drop_last());
    if list.len() > 1 {
        assert(cut.drop_last() =~= list.drop_last());
        assert(join_texts(list, sep).drop_last() =~= join_texts(list.drop_last(), sep) + sep
            + list.last().drop_last());
    }
}

/// A key whose parameters are in order and filled is in its normal form.
proof fn lemma_already_sorted(head: Seq<char>, list: Seq<Seq<char>>)
    requires
        head.len() > 0,
        first_position(head, '?') == head.len() - 1,
        list.len() > 0,
        sorted_by(list, text_order()),
        forall|i: int|
            0 <= i < list.len() ==> (#[trigger] list[i]).len() > 0 && undivided(
                list[i],
                Separator::Char('&'),
            ),
        !has_last(list.last(), '?'),
    ensures
        query_sorted(head + join_texts(list, "&"@)) == head + join_texts(list, "&"@),
{
    reveal_strlit("&");
    assert("&"@ =~= seq!['&']);
    let joined = join_texts(list, "&"@);
    let whole = head + joined;
    lemma_mark(head, head.len() - 1);
    assert forall|k: int| 0 <= k < head.len() - 1 implies #[trigger] whole[k] != '?' by {
        assert(head[k] != '?');
    }
    lemma_first_position(whole, '?', head.len() - 1);
    assert(whole.skip(head.len() as int) =~= joined);
    assert(whole.take(head.len() as int) =~= head);
    lemma_split_join(list, '&');
    lemma_filter_filled(list);
    assert(parameters(whole) == list);
    lemma_text_order_total();
    list.lemma_sort_by_ensures(text_order());
    vstd::seq_lib::lemma_sorted_unique(list, list.sort_by(text_order()), text_order());
    lemma_join_last(list, "&"@);
    assert(whole.last() == joined.last());
}

/// The normal form of a query does not depend on the order of its parameters.
pub proof fn parameter_order_does_not_matter(a: Seq<char>, b: Seq<char>)
    requires
        first_position(a, '?') < a.len(),
        first_position(b, '?') < b.len(),
        a.take(first_position(a, '?')) == b.take(first_position(b, '?')),
        parameters(a).to_multiset() == parameters(b).to_multiset(),
    ensures
        query_sorted(a) == query_sorted(b),
{
    lemma_text_order_total();
    parameters(a).lemma_sort_by_ensures(text_order());
    parameters(b).lemma_sort_by_ensures(text_order());
    vstd::seq_lib::lemma_sorted_unique(
        parameters(a).sort_by(text_order()),
        parameters(b).sort_by(text_order()),
        text_order(),
    );
    lemma_first_position_bounds(a, '?');
    lemma_first_position_bounds(b, '?');
    lemma_mark(a, first_position(a, '?'));
    lemma_mark(b, first_position(b, '?'));
    let n = first_position(a, '?');
    assert(a.take(n).len() == n);
    assert(b.take(first_position(b, '?')).len() == first_position(b, '?'));
    assert(a.take(n + 1) =~= a.take(n).push('?'));
    assert(b.take(n + 1) =~= b.take(n).push('?'));
}

/// Sorting a query that is already sorted changes nothing.
pub proof fn sorting_twice_is_sorting_once(key: Seq<char>)
    requires
        settles(key),
    ensures
        query_sorted(query_sorted(key)) == query_sorted(key),
{
    let mark = first_position(key, '?');
    lemma_first_position_bounds(key, '?');
    if mark < key.len() {
        let head = key.take(mark + 1);
        let sorted = parameters(key).sort_by(text_order());
        let list = settled_parameters(key);
        lemma_mark(key, mark);
        lemma_parameters(key);
        assert forall|k: int| 0 <= k < mark implies #[trigger] head[k] != '?' by {
            assert(key[k] != '?');
        }
        lemma_first_position(head, '?', mark);
        if sorted.len() == 0 {
            let joined = head + join_texts(sorted, "&"@);
            assert(joined =~= head);
            let bare = head.drop_last();
            assert(query_sorted(key) == bare);
            assert forall|k: int| 0 <= k < bare.len() implies #[trigger] bare[k] != '?' by {
                assert(head[k] != '?');
            }
            lemma_first_position(bare, '?', bare.len() as int);
        } else {
            assert(sorted[sorted.len() - 1].len() > 0);
            lemma_join_last(sorted, "&"@);
            let joined = head + join_texts(sorted, "&"@);
            assert(joined.last() == sorted.last().last());
            assert(joined.drop_last() =~= head + join_texts(sorted, "&"@).drop_last());
            assert(query_sorted(key) == head + join_texts(list, "&"@));
            assert forall|i: int| 0 <= i < list.len() implies (#[trigger] list[i]).len() > 0
                && undivided(list[i], Separator::Char('&')) by {
                assert(undivided(sorted[i], Separator::Char('&')));
                assert(sorted[i].len() > 0);
                if list[i] != sorted[i] {
                    assert(i == list.len() - 1);
                    assert forall|k: int| 0 <= k < list[i].len() implies !separates(
                        Separator::Char('&'),
                        #[trigger] list[i][k],
                    ) by {
                        assert(list[i][k] == sorted[i][k]);
                    }
                }
            }
            lemma_already_sorted(head, list);
        }
    }
}

/// Rules are applied one after the other: what comes out of the first ones goes into the rest. A
/// rule whose pattern is no regular expression leaves the key as it is.
pub proof fn rules_are_applied_in_order(
    key: Seq<char>,
    first: Seq<CacheKeyRule>,
    then: Seq<CacheKeyRule>,
)
    ensures
        rewritten_by(key, first + then, (first + then).len() as int) == rewritten_by(
            rewritten_by(key, first, first.len() as int),
            then,
            then.len() as int,
        ),
        then.len() == 1 ==> rewritten_by(key, then, 1) == (match replaced(
            then[0].pattern@,
            key,
            then[0].replacement@,
        ) {
            Some(text) => text,
            None => key,
        }),
        rewritten_by(key, Seq::empty(), 0) == key,
{
    lemma_rules_after(key, first, then, then.len() as int);
    if then.len() == 1 {
        assert(rewritten_by(key, then, 0) == key);
    }
}

proof fn lemma_rules_after(
    key: Seq<char>,
    first: Seq<CacheKeyRule>,
    then: Seq<CacheKeyRule>,
    n: int,
)
    requires
        0 <= n <= then.len(),
    ensures
        rewritten_by(key, first + then, first.len() + n) == rewritten_by(
            rewritten_by(key, first, first.len() as int),
            then,
            n,
        ),
    decreases n,
{
    if n > 0 {
        lemma_rules_after(key, first, then, n - 1);
        assert((first + then)[first.len() + n - 1] == then[n - 1]);
    } else {
        lemma_rules_before(key, first, then, first.len() as int);
    }
}

proof fn lemma_rules_before(
    key: Seq<char>,
    first: Seq<CacheKeyRule>,
    then: Seq<CacheKeyRule>,
    n: int,
)
    requires
        0 <= n <= first.len(),
    ensures
        rewritten_by(key, first + then, n) == rewritten_by(key, first, n),
    decreases n,
{
    if n > 0 {
        lemma_rules_before(key, first, then, n - 1);
        assert((first + then)[n - 1] == first[n - 1]);
    }
}

/// A key without a query is left as it is. In any other the path stays, and after it come the same
/// parameters as before, as often as before but for the empty ones, in order. A question mark at
/// the end goes.
pub proof fn sorting_keeps_path_and_parameters(key: Seq<char>, mark: int) -> (list: Seq<Seq<char>>)
    requires
        0 <= mark <= key.len(),
        forall|k: int| 0 <= k < mark ==> #[trigger] key[k] != '?',
        mark < key.len() ==> key[mark] == '?',
    ensures
        mark == key.len() ==> query_sorted(key) == key,
        mark < key.len() ==> {
            let whole = key.take(mark) + seq!['?'] + join_texts(list, seq!['&']);
            &&& sorted_by(list, |a: Seq<char>, b: Seq<char>| text_le(a, b))
            &&& list.to_multiset() == split_on(
                key.skip(mark + 1),
                Separator::Char('&'),
            ).filter(|p: Seq<char>| p.len() > 0).to_multiset()
            &&& query_sorted(key) == if whole.last() == '?' {
                whole.drop_last()
            } else {
                whole
            }
        },
{
    lemma_first_position(key, '?', mark);
    if mark < key.len() {
        lemma_text_order_total();
        let found = parameters(key);
        let list = found.sort_by(text_order());
        found.lemma_sort_by_ensures(text_order());
        let whole = key.take(mark) + seq!['?'] + join_texts(list, seq!['&']);
        reveal_strlit("&");
        assert("&"@ =~= seq!['&']);
        assert(key.take(mark + 1) =~= key.take(mark) + seq!['?']);
        assert(text_order() =~= |a: Seq<char>, b: Seq<char>| text_le(a, b));
        assert(filled() =~= |p: Seq<char>| p.len() > 0);
        list
    } else {
        Seq::empty()
    }
}

/// A normalised key is the rewritten key with its parameters sorted.
pub proof fn normal_keys_are_rewritten_and_sorted(key: Seq<char>, rules: Seq<CacheKeyRule>)
    ensures
        normal_key(key, rules) == query_sorted(rewritten_by(key, rules, rules.len() as int)),
        normal_key(key, Seq::empty()) == query_sorted(key),
{
}

} // verus!
