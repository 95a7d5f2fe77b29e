//! Adding `#line:` tags to the lines of narrative source that lack one, so that
//! every line has an identifier an author can keep.
use vstd::prelude::*;
use vstd::string::*;
use vstd::set_lib::*;
use vstd::relations::injective_on;
use crate::string_table::line_prefix;
use crate::text::{decimal, push_decimal, lemma_decimal_injective, chars_of, starts_with, strings_view};

verus! {

/// The lines of a text: the pieces between newline characters. A text has at
/// least one line; a final newline is followed by an empty line.
pub open spec fn split_lines(s: Seq<char>) -> Seq<Seq<char>>
    decreases s.len(),
{
    if s.len() == 0 {
        seq![seq![]]
    } else {
        let p = split_lines(s.drop_last());
        if s.last() == '\n' {
            p.push(seq![])
        } else {
            p.update(p.len() - 1, p.last().push(s.last()))
        }
    }
}

/// Lines joined with newline characters.
pub open spec fn join_lines(ls: Seq<Seq<char>>) -> Seq<char>
    decreases ls.len(),
{
    if ls.len() == 0 {
        seq![]
    } else if ls.len() == 1 {
        ls[0]
    } else {
        join_lines(ls.drop_last()) + seq!['\n'] + ls.last()
    }
}

pub open spec fn no_newline(l: Seq<char>) -> bool {
    forall|j: int| 0 <= j < l.len() ==> l[j] != '\n'
}

pub open spec fn all_without_newline(ls: Seq<Seq<char>>) -> bool {
    forall|i: int| 0 <= i < ls.len() ==> no_newline(#[trigger] ls[i])
}

pub(crate) proof fn lemma_split_len(s: Seq<char>)
    ensures
        split_lines(s).len() >= 1,
        all_without_newline(split_lines(s)),
    decreases s.len(),
{
    if s.len() > 0 {
        lemma_split_len(s.drop_last());
        let p = split_lines(s.drop_last());
        if s.last() != '\n' {
            assert(no_newline(p.last().push(s.last())));
        }
    }
}

/// Splitting a text at newlines and joining the pieces gives the text back.
pub proof fn lemma_join_split(s: Seq<char>)
    ensures
        join_lines(split_lines(s)) == s,
    decreases s.len(),
{
    if s.len() > 0 {
        lemma_join_split(s.drop_last());
        lemma_split_len(s.drop_last());
        let p = split_lines(s.drop_last());
        if s.last() == '\n' {
            assert(p.push(seq![]).drop_last() =~= p);
            assert(s =~= s.drop_last() + seq!['\n'] + seq![]);
        } else {
            let q = p.update(p.len() - 1, p.last().push(s.last()));
            if p.len() == 1 {
                assert(s =~= p[0].push(s.last()));
            } else {
                assert(q.drop_last() =~= p.drop_last());
                assert(join_lines(p) == join_lines(p.drop_last()) + seq!['\n'] + p.last());
                assert(s =~= s.drop_last().push(s.last()));
                assert(s =~= join_lines(p.drop_last()) + seq!['\n'] + p.last().push(s.last()));
                assert(join_lines(q) == join_lines(q.drop_last()) + seq!['\n'] + q.last());
            }
        }
    }
}

proof fn lemma_split_append(x: Seq<char>, y: Seq<char>)
    requires
        no_newline(y),
    ensures
        split_lines(x + y) == split_lines(x).update(
            split_lines(x).len() - 1,
            split_lines(x).last() + y,
        ),
    decreases y.len(),
{
    lemma_split_len(x);
    if y.len() == 0 {
        assert(x + y =~= x);
        assert(split_lines(x).last() + y =~= split_lines(x).last());
        assert(split_lines(x).update(split_lines(x).len() - 1, split_lines(x).last())
            =~= split_lines(x));
    } else {
        lemma_split_append(x, y.drop_last());
        assert((x + y).drop_last() =~= x + y.drop_last());
        assert(split_lines(x).last() + y.drop_last() + seq![y.last()] =~= split_lines(x).last()
            + y);
        let p = split_lines(x);
        let q = p.update(p.len() - 1, p.last() + y.drop_last());
        assert((x + y).last() == y.last());
        assert(y.last() != '\n');
        assert(split_lines(x + y) == q.update(q.len() - 1, q.last().push(y.last())));
        assert((p.last() + y.drop_last()).push(y.last()) =~= p.last() + y);
        assert(q.update(q.len() - 1, q.last().push(y.last())) =~= p.update(
            p.len() - 1,
            p.last() + y,
        ));
    }
}

/// Joining lines that hold no newline and splitting the text gives the lines back.
pub proof fn lemma_split_join(ls: Seq<Seq<char>>)
    requires
        ls.len() >= 1,
        all_without_newline(ls),
    ensures
        split_lines(join_lines(ls)) == ls,
    decreases ls.len(),
{
    if ls.len() == 1 {
        lemma_split_append(seq![], ls[0]);
        assert(seq![] + ls[0] =~= ls[0]);
        assert(split_lines(Seq::<char>::empty()) =~= seq![seq![]]);
        assert(seq![Seq::<char>::empty()].update(0, Seq::<char>::empty() + ls[0]) =~= ls);
    } else {
        let init = ls.drop_last();
        assert forall|i: int| 0 <= i < init.len() implies no_newline(#[trigger] init[i]) by {
            assert(init[i] == ls[i]);
        }
        lemma_split_join(init);
        let x = join_lines(init) + seq!['\n'];
        assert(x.drop_last() =~= join_lines(init));
        assert(split_lines(x) == init.push(seq![]));
        assert(no_newline(ls[ls.len() - 1]));
        lemma_split_append(x, ls.last());
        assert(init.push(seq![]).update(init.len() as int, Seq::<char>::empty() + ls.last()) =~= ls);
    }
}

/// The lines of `s`, as strings.
pub fn split_source(s: &Vec<char>) -> (r: Vec<Vec<char>>)
    ensures
        r@.map_values(|l: Vec<char>| l@) == split_lines(s@),
{
    let mut lines: Vec<Vec<char>> = Vec::new();
    let mut cur: Vec<char> = Vec::new();
    let mut i: usize = 0;
    assert(s@.subrange(0, 0) =~= Seq::<char>::empty());
    while i < s.len()
        invariant
            i <= s@.len(),
            lines@.map_values(|l: Vec<char>| l@).push(cur@) == split_lines(s@.subrange(0, i as int)),
        decreases s@.len() - i,
    {
        let ghost before = lines@.map_values(|l: Vec<char>| l@).push(cur@);
        assert(s@.subrange(0, i as int + 1).drop_last() =~= s@.subrange(0, i as int));
        let c = s[i];
        if c == '\n' {
            let done = cur;
            lines.push(done);
            cur = Vec::new();
            assert(lines@.map_values(|l: Vec<char>| l@).push(cur@) =~= before.push(seq![]));
        } else {
            cur.push(c);
            assert(lines@.map_values(|l: Vec<char>| l@).push(cur@) =~= before.update(
                before.len() - 1,
                before.last().push(c),
            ));
        }
        i += 1;
    }
    assert(s@.subrange(0, i as int) =~= s@);
    let ghost before = lines@.map_values(|l: Vec<char>| l@).push(cur@);
    lines.push(cur);
    assert(lines@.map_values(|l: Vec<char>| l@) =~= before);
    lines
}

} // verus!

verus! {

pub open spec fn is_blank(c: char) -> bool {
    c == ' ' || c == '\t' || c == '\r'
}

/// `---`: the header of a node ends and its body begins.
pub open spec fn is_body_start(l: Seq<char>) -> bool {
    starts_with(l, seq!['-', '-', '-'])
}

/// `===`: the body of a node ends.
pub open spec fn is_node_end(l: Seq<char>) -> bool {
    starts_with(l, seq!['=', '=', '='])
}

/// `k` is the position of the first character of `l` that is not blank.
pub open spec fn content_at(l: Seq<char>, k: int) -> bool {
    &&& 0 <= k < l.len()
    &&& !is_blank(l[k])
    &&& forall|j: int| 0 <= j < k ==> is_blank(#[trigger] l[j])
}

/// A line of a node body that the author writes as a line of dialogue or an
/// option: not blank, not a delimiter, not a command (`<<`) nor a comment (`//`).
pub open spec fn is_line_statement(l: Seq<char>) -> bool {
    &&& !is_body_start(l)
    &&& !is_node_end(l)
    &&& exists|k: int|
        #![trigger content_at(l, k)]
        content_at(l, k) && !starts_with(l.skip(k), seq!['<', '<']) && !starts_with(
            l.skip(k),
            seq!['/', '/'],
        )
}

pub open spec fn line_tag_marker() -> Seq<char> {
    seq!['#', 'l', 'i', 'n', 'e', ':']
}

/// The line already carries a `#line:` tag.
pub open spec fn has_line_tag(l: Seq<char>) -> bool {
    exists|i: int| 0 <= i && i + 6 <= l.len() && #[trigger] l.subrange(i, i + 6) == line_tag_marker()
}

/// Whether the line after lines `0..i` stands in a node body.
pub open spec fn body_after(ls: Seq<Seq<char>>, i: int) -> bool
    decreases i,
{
    if i <= 0 {
        false
    } else if is_body_start(ls[i - 1]) {
        true
    } else if is_node_end(ls[i - 1]) {
        false
    } else {
        body_after(ls, i - 1)
    }
}

/// Line `i` is a statement of a node body without a `#line:` tag.
pub open spec fn needs_tag(ls: Seq<Seq<char>>, i: int) -> bool {
    body_after(ls, i) && is_line_statement(ls[i]) && !has_line_tag(ls[i])
}

/// The line with ` #<id>` added at its end, before a final carriage return.
pub open spec fn tag_line(l: Seq<char>, id: Seq<char>) -> Seq<char> {
    if l.len() > 0 && l.last() == '\r' {
        l.drop_last() + seq![' ', '#'] + id + seq!['\r']
    } else {
        l + seq![' ', '#'] + id
    }
}

/// Whether `l[k..]` begins with `p`.
pub fn starts_at(l: &Vec<char>, k: usize, p: &Vec<char>) -> (r: bool)
    requires
        k <= l@.len(),
    ensures
        r == starts_with(l@.skip(k as int), p@),
{
    if p.len() > l.len() - k {
        return false;
    }
    let mut j: usize = 0;
    while j < p.len()
        invariant
            k + p@.len() <= l@.len(),
            l@.len() == l.len(),
            p@.len() == p.len(),
            j <= p@.len(),
            forall|t: int| 0 <= t < j ==> l@[k + t] == p@[t],
        decreases p@.len() - j,
    {
        if l[k + j] != p[j] {
            assert(l@.skip(k as int).subrange(0, p@.len() as int)[j as int] != p@[j as int]);
            return false;
        }
        j += 1;
    }
    assert(l@.skip(k as int).subrange(0, p@.len() as int) =~= p@);
    true
}

fn is_blank_char(c: char) -> (r: bool)
    ensures
        r == is_blank(c),
{
    c == ' ' || c == '\t' || c == '\r'
}

/// Whether the line is a statement, as `is_line_statement` says.
pub fn line_is_statement(l: &Vec<char>) -> (r: bool)
    ensures
        r == is_line_statement(l@),
{
    if starts_at(l, 0, &vec!['-', '-', '-']) || starts_at(l, 0, &vec!['=', '=', '=']) {
        assert(l@.skip(0) =~= l@);
        return false;
    }
    assert(l@.skip(0) =~= l@);
    let mut k: usize = 0;
    while k < l.len() && is_blank_char(l[k])
        invariant
            k <= l@.len(),
            forall|j: int| 0 <= j < k ==> is_blank(#[trigger] l@[j]),
        decreases l@.len() - k,
    {
        k += 1;
    }
    if k == l.len() {
        assert forall|t: int| !content_at(l@, t) by {
            if 0 <= t < l@.len() {
                assert(is_blank(l@[t]));
            }
        }
        return false;
    }
    assert(content_at(l@, k as int));
    let r = !starts_at(l, k, &vec!['<', '<']) && !starts_at(l, k, &vec!['/', '/']);
    proof {
        assert forall|t: int| content_at(l@, t) implies t == k by {
            if t < k {
                assert(is_blank(l@[t]));
            } else if t > k {
                assert(is_blank(l@[k as int]));
            }
        }
    }
    r
}

/// Whether the line carries a `#line:` tag.
pub fn line_has_tag(l: &Vec<char>) -> (r: bool)
    ensures
        r == has_line_tag(l@),
{
    let marker = vec!['#', 'l', 'i', 'n', 'e', ':'];
    assert(marker@ =~= line_tag_marker());
    if l.len() < 6 {
        return false;
    }
    let mut i: usize = 0;
    while i <= l.len() - 6
        invariant
            marker@ == line_tag_marker(),
            l@.len() >= 6,
            i <= l@.len() - 5,
            forall|t: int| 0 <= t < i ==> #[trigger] l@.subrange(t, t + 6) != line_tag_marker(),
        decreases l@.len() - i,
    {
        if starts_at(l, i, &marker) {
            assert(l@.skip(i as int).subrange(0, 6) =~= l@.subrange(i as int, i + 6));
            return true;
        }
        assert(l@.skip(i as int).subrange(0, 6) =~= l@.subrange(i as int, i + 6));
        i += 1;
    }
    false
}

} // verus!

verus! {

pub open spec fn chars_view(v: Seq<Vec<char>>) -> Seq<Seq<char>> {
    v.map_values(|l: Vec<char>| l@)
}

/// The `c`-th identifier the rewriter may give: `line:<c>`.
pub open spec fn candidate_id(c: nat) -> Seq<char> {
    line_prefix() + decimal(c)
}

proof fn lemma_candidate_injective(a: nat, b: nat)
    requires
        candidate_id(a) == candidate_id(b),
    ensures
        a == b,
{
    assert(candidate_id(a).skip(5) =~= decimal(a));
    assert(candidate_id(b).skip(5) =~= decimal(b));
    lemma_decimal_injective(a, b);
}

/// Among `used.len() + 1` consecutive candidates, one is not in `used`.
proof fn lemma_some_candidate_free(used: Seq<Seq<char>>, start: nat)
    ensures
        exists|c: nat| start <= c <= start + used.len() && !used.contains(#[trigger] candidate_id(c)),
{
    if forall|c: nat| start <= c <= start + used.len() ==> used.contains(#[trigger] candidate_id(c)) {
        let hi = start + used.len() + 1;
        let r = set_int_range(start as int, hi as int);
        lemma_int_range(start as int, hi as int);
        let f = |c: int| candidate_id(c as nat);
        assert forall|x1: int, x2: int|
            r.contains(x1) && r.contains(x2) && #[trigger] f(x1) == #[trigger] f(x2) implies x1
            == x2 by {
            lemma_candidate_injective(x1 as nat, x2 as nat);
        }
        assert(injective_on(f, r));
        let img = r.map(f);
        lemma_map_size(r, img, f);
        assert forall|x: Seq<char>| img.contains(x) implies used.to_set().contains(x) by {
            let c = choose|c: int| r.contains(c) && f(c) == x;
            assert(used.contains(candidate_id(c as nat)));
        }
        used.lemma_cardinality_of_set();
        lemma_len_subset(img, used.to_set());
        assert(false);
    }
}

fn contains_chars(used: &Vec<Vec<char>>, id: &Vec<char>) -> (r: bool)
    ensures
        r == chars_view(used@).contains(id@),
{
    let mut i: usize = 0;
    while i < used.len()
        invariant
            i <= used@.len(),
            forall|j: int| 0 <= j < i ==> used@[j]@ != id@,
        decreases used@.len() - i,
    {
        if vec_eq(&used[i], id) {
            assert(chars_view(used@)[i as int] == id@);
            return true;
        }
        i += 1;
    }
    assert forall|j: int| 0 <= j < used@.len() implies #[trigger] chars_view(used@)[j] != id@ by {
        assert(used@[j]@ != id@);
    }
    false
}

fn vec_eq(a: &Vec<char>, b: &Vec<char>) -> (r: bool)
    ensures
        r == (a@ == b@),
{
    if a.len() != b.len() {
        return false;
    }
    let mut i: usize = 0;
    while i < a.len()
        invariant
            a@.len() == b@.len(),
            i <= a@.len(),
            forall|j: int| 0 <= j < i ==> a@[j] == b@[j],
        decreases a@.len() - i,
    {
        if a[i] != b[i] {
            return false;
        }
        i += 1;
    }
    assert(a@ =~= b@);
    true
}

fn candidate(c: usize) -> (r: Vec<char>)
    ensures
        r@ == candidate_id(c as nat),
{
    let mut s = String::new();
    s.append("line:");
    push_decimal(&mut s, c);
    proof {
        reveal_strlit("line:");
        assert(s@ =~= candidate_id(c as nat));
    }
    chars_of(s.as_str())
}

/// The first candidate from `start` on that `used` does not hold.
fn fresh_id(used: &Vec<Vec<char>>, start: usize) -> (r: (Vec<char>, usize))
    requires
        start + used@.len() + 1 <= usize::MAX,
    ensures
        r.0@ == candidate_id(r.1 as nat),
        !chars_view(used@).contains(r.0@),
        start <= r.1 <= start + used@.len(),
        forall|d: nat| start <= d < r.1 ==> chars_view(used@).contains(#[trigger] candidate_id(d)),
{
    let ghost uv = chars_view(used@);
    proof {
        lemma_some_candidate_free(uv, start as nat);
    }
    let mut c: usize = start;
    while c <= start + used.len()
        invariant
            start <= c <= start + used@.len() + 1,
            start + used@.len() + 1 <= usize::MAX,
            uv == chars_view(used@),
            uv.len() == used@.len(),
            forall|d: nat| start <= d < c ==> uv.contains(#[trigger] candidate_id(d)),
        decreases start + used@.len() + 1 - c,
    {
        let id = candidate(c);
        if !contains_chars(used, &id) {
            return (id, c);
        }
        c += 1;
    }
    proof {
        let d = choose|d: nat| start <= d <= start + uv.len() && !uv.contains(#[trigger] candidate_id(d));
        assert(uv.contains(candidate_id(d)));
    }
    (Vec::new(), start)
}

} // verus!

verus! {

pub open spec fn is_candidate(id: Seq<char>) -> bool {
    exists|c: nat| id == #[trigger] candidate_id(c)
}

/// `x` is in `existing` or was given to one of the lines before line `i`.
pub open spec fn taken(
    ls: Seq<Seq<char>>,
    existing: Seq<Seq<char>>,
    ids: Seq<Seq<char>>,
    i: int,
    x: Seq<char>,
) -> bool {
    existing.contains(x) || exists|j: int| 0 <= j < i && needs_tag(ls, j) && #[trigger] ids[j] == x
}

/// `id` is the first candidate that is not taken before line `i`.
pub open spec fn first_free(
    ls: Seq<Seq<char>>,
    existing: Seq<Seq<char>>,
    ids: Seq<Seq<char>>,
    i: int,
    id: Seq<char>,
) -> bool {
    exists|c: nat|
        id == #[trigger] candidate_id(c) && forall|d: nat|
            d < c ==> taken(ls, existing, ids, i, #[trigger] candidate_id(d))
}

/// `outs` is `ls` with a tag `ids[i]` added to each line `i` that needs one:
/// the first candidate that is neither in `existing` nor given to an earlier
/// line. The added identifiers are thus new to `existing` and pairwise distinct.
pub open spec fn tags_added(
    ls: Seq<Seq<char>>,
    existing: Seq<Seq<char>>,
    outs: Seq<Seq<char>>,
    ids: Seq<Seq<char>>,
) -> bool {
    &&& outs.len() == ls.len()
    &&& ids.len() == ls.len()
    &&& forall|i: int|
        0 <= i < ls.len() ==> #[trigger] outs[i] == if needs_tag(ls, i) {
            tag_line(ls[i], ids[i])
        } else {
            ls[i]
        }
    &&& forall|i: int|
        0 <= i < ls.len() && needs_tag(ls, i) ==> is_candidate(#[trigger] ids[i]) && !existing.contains(
            ids[i],
        )
    &&& forall|i: int, j: int|
        0 <= i < j < ls.len() && needs_tag(ls, i) && needs_tag(ls, j) ==> #[trigger] ids[i]
            != #[trigger] ids[j]
    &&& forall|i: int| 0 <= i < ls.len() && needs_tag(ls, i) ==> first_free(ls, existing, ids, i, #[trigger] ids[i])
}

/// `out` is `source` with the missing tags added.
pub open spec fn rewritten(source: Seq<char>, existing: Seq<Seq<char>>, out: Seq<char>) -> bool {
    exists|outs: Seq<Seq<char>>, ids: Seq<Seq<char>>|
        tags_added(split_lines(source), existing, outs, ids) && out == join_lines(outs)
}

/// No line of the source needs a tag.
pub open spec fn fully_tagged(source: Seq<char>) -> bool {
    forall|i: int| 0 <= i < split_lines(source).len() ==> !needs_tag(split_lines(source), i)
}

fn tagged(l: &Vec<char>, id: &Vec<char>) -> (r: Vec<char>)
    ensures
        r@ == tag_line(l@, id@),
{
    let carriage = l.len() > 0 && l[l.len() - 1] == '\r';
    let n = if carriage {
        l.len() - 1
    } else {
        l.len()
    };
    let mut r: Vec<char> = Vec::new();
    let mut i: usize = 0;
    while i < n
        invariant
            n <= l@.len(),
            i <= n,
            r@ == l@.subrange(0, i as int),
        decreases n - i,
    {
        r.push(l[i]);
        i += 1;
        assert(r@ =~= l@.subrange(0, i as int));
    }
    r.push(' ');
    r.push('#');
    let mut j: usize = 0;
    let ghost base = r@;
    while j < id.len()
        invariant
            j <= id@.len(),
            r@ == base + id@.subrange(0, j as int),
        decreases id@.len() - j,
    {
        r.push(id[j]);
        j += 1;
        assert(r@ =~= base + id@.subrange(0, j as int));
    }
    if carriage {
        r.push('\r');
        assert(r@ =~= tag_line(l@, id@));
    } else {
        assert(r@ =~= tag_line(l@, id@));
    }
    r
}

fn join_to_string(lines: &Vec<Vec<char>>) -> (r: String)
    requires
        lines@.len() >= 1,
    ensures
        r@ == join_lines(chars_view(lines@)),
{
    let mut s = String::new();
    let mut i: usize = 0;
    while i < lines.len()
        invariant
            1 <= lines@.len(),
            i <= lines@.len(),
            i == 0 ==> s@.len() == 0,
            i > 0 ==> s@ == join_lines(chars_view(lines@).subrange(0, i as int)),
        decreases lines@.len() - i,
    {
        let ghost before = s@;
        if i > 0 {
            s.push('\n');
        }
        let l = &lines[i];
        let mut j: usize = 0;
        let ghost base = s@;
        while j < l.len()
            invariant
                j <= l@.len(),
                s@ == base + l@.subrange(0, j as int),
            decreases l@.len() - j,
        {
            s.push(l[j]);
            j += 1;
            assert(s@ =~= base + l@.subrange(0, j as int));
        }
        proof {
            let pre = chars_view(lines@).subrange(0, i as int + 1);
            assert(l@.subrange(0, l@.len() as int) =~= l@);
            if i == 0 {
                assert(s@ =~= join_lines(pre));
            } else {
                assert(pre.drop_last() =~= chars_view(lines@).subrange(0, i as int));
                assert(s@ =~= join_lines(pre));
            }
        }
        i += 1;
    }
    assert(chars_view(lines@).subrange(0, i as int) =~= chars_view(lines@));
    s
}

} // verus!

verus! {

/// Giving line `i` an identifier keeps what was taken before, and the
/// earlier lines' identifiers first free.
proof fn lemma_taken_grows(
    ls: Seq<Seq<char>>,
    ex: Seq<Seq<char>>,
    ids: Seq<Seq<char>>,
    id: Seq<char>,
    i: int,
)
    requires
        ids.len() == i,
        0 <= i,
    ensures
        forall|x: Seq<char>, k: int|
            0 <= k <= i && taken(ls, ex, ids, k, x) ==> #[trigger] taken(ls, ex, ids.push(id), k, x),
        forall|x: Seq<char>|
            taken(ls, ex, ids, i, x) ==> #[trigger] taken(ls, ex, ids.push(id), i + 1, x),
        forall|j: int|
            0 <= j < i && first_free(ls, ex, ids, j, ids[j]) ==> #[trigger] first_free(
                ls,
                ex,
                ids.push(id),
                j,
                ids.push(id)[j],
            ),
{
    let ids2 = ids.push(id);
    assert forall|x: Seq<char>, k: int|
        0 <= k <= i && taken(ls, ex, ids, k, x) implies #[trigger] taken(ls, ex, ids2, k, x) by {
        if !ex.contains(x) {
            let j = choose|j: int| 0 <= j < k && needs_tag(ls, j) && #[trigger] ids[j] == x;
            assert(ids2[j] == x);
        }
    }
    assert forall|x: Seq<char>| taken(ls, ex, ids, i, x) implies #[trigger] taken(
        ls,
        ex,
        ids2,
        i + 1,
        x,
    ) by {
        if !ex.contains(x) {
            let j = choose|j: int| 0 <= j < i && needs_tag(ls, j) && #[trigger] ids[j] == x;
            assert(ids2[j] == x);
        }
    }
    assert forall|j: int| 0 <= j < i && first_free(ls, ex, ids, j, ids[j]) implies #[trigger] first_free(
        ls,
        ex,
        ids2,
        j,
        ids2[j],
    ) by {
        let c = choose|c: nat|
            ids[j] == #[trigger] candidate_id(c) && forall|d: nat|
                d < c ==> taken(ls, ex, ids, j, #[trigger] candidate_id(d));
        assert(ids2[j] == ids[j]);
        assert forall|d: nat| d < c implies taken(ls, ex, ids2, j, #[trigger] candidate_id(d)) by {
            assert(taken(ls, ex, ids, j, candidate_id(d)));
        }
    }
}

proof fn lemma_split_count(s: Seq<char>)
    ensures
        split_lines(s).len() <= s.len() + 1,
    decreases s.len(),
{
    if s.len() > 0 {
        lemma_split_count(s.drop_last());
        lemma_split_len(s.drop_last());
        let p = split_lines(s.drop_last());
        if s.last() == '\n' {
            assert(split_lines(s).len() == p.len() + 1);
        } else {
            assert(split_lines(s).len() == p.len());
        }
    } else {
        assert(split_lines(s).len() == 1);
    }
}

fn copy_chars(l: &Vec<char>) -> (r: Vec<char>)
    ensures
        r@ == l@,
{
    let mut r: Vec<char> = Vec::new();
    let mut i: usize = 0;
    while i < l.len()
        invariant
            i <= l@.len(),
            r@ == l@.subrange(0, i as int),
        decreases l@.len() - i,
    {
        r.push(l[i]);
        i += 1;
        assert(r@ =~= l@.subrange(0, i as int));
    }
    assert(r@ =~= l@);
    r
}

/// Adds ` #line:<n>` to each statement line of a node body that has no
/// `#line:` tag, `n` the smallest number whose identifier is neither among
/// `existing_tags` nor given earlier in the same pass. Returns `None` when no
/// line lacks a tag. Newlines, indentation and other tags are kept.
pub fn add_tags_to_lines(source: &str, existing_tags: &Vec<String>) -> (r: Option<String>)
    requires
        existing_tags@.len() + source@.len() + 2 <= usize::MAX,
    ensures
        r is None <==> fully_tagged(source@),
        r matches Some(out) ==> rewritten(source@, strings_view(existing_tags@), out@),
{
    let ghost ex = strings_view(existing_tags@);
    let chars = chars_of(source);
    let lines = split_source(&chars);
    let ghost ls = split_lines(source@);
    proof {
        lemma_split_count(source@);
        lemma_split_len(source@);
    }
    let mut used: Vec<Vec<char>> = Vec::new();
    let mut e: usize = 0;
    while e < existing_tags.len()
        invariant
            e <= existing_tags@.len(),
            ex == strings_view(existing_tags@),
            chars_view(used@) == ex.subrange(0, e as int),
        decreases existing_tags@.len() - e,
    {
        let ghost before = chars_view(used@);
        used.push(chars_of(existing_tags[e].as_str()));
        assert(ex[e as int] == existing_tags@[e as int]@);
        assert(chars_view(used@) =~= before.push(ex[e as int]));
        e += 1;
        assert(chars_view(used@) =~= ex.subrange(0, e as int));
    }
    assert(ex.subrange(0, e as int) =~= ex);
    let mut out: Vec<Vec<char>> = Vec::new();
    let ghost mut ids: Seq<Seq<char>> = seq![];
    let mut in_body = false;
    let mut changed = false;
    let mut i: usize = 0;
    while i < lines.len()
        invariant
            chars_view(lines@) == ls,
            ls == split_lines(source@),
            ls.len() >= 1,
            i <= ls.len(),
            ls.len() <= source@.len() + 1,
            ex.len() + source@.len() + 2 <= usize::MAX,
            in_body == body_after(ls, i as int),
            out@.len() == i,
            ids.len() == i,
            forall|j: int|
                0 <= j < i ==> #[trigger] chars_view(out@)[j] == if needs_tag(ls, j) {
                    tag_line(ls[j], ids[j])
                } else {
                    ls[j]
                },
            forall|j: int|
                0 <= j < i && needs_tag(ls, j) ==> is_candidate(#[trigger] ids[j]) && !ex.contains(
                    ids[j],
                ) && chars_view(used@).contains(ids[j]),
            forall|j: int, k: int|
                0 <= j < k < i && needs_tag(ls, j) && needs_tag(ls, k) ==> #[trigger] ids[j]
                    != #[trigger] ids[k],
            used@.len() <= ex.len() + i,
            forall|x: Seq<char>| ex.contains(x) ==> chars_view(used@).contains(x),
            forall|x: Seq<char>| chars_view(used@).contains(x) ==> taken(ls, ex, ids, i as int, x),
            forall|j: int|
                0 <= j < i && needs_tag(ls, j) ==> first_free(ls, ex, ids, j, #[trigger] ids[j]),
            changed == exists|j: int| 0 <= j < i && needs_tag(ls, j),
        decreases ls.len() - i,
    {
        let l = &lines[i];
        assert(l@ == ls[i as int]);
        let statement = in_body && line_is_statement(l) && !line_has_tag(l);
        assert(statement == needs_tag(ls, i as int));
        let ghost used0 = chars_view(used@);
        let ghost out0 = chars_view(out@);
        if statement {
            let (id, c) = fresh_id(&used, 0);
            let t = tagged(l, &id);
            proof {
                assert(is_candidate(id@));
                assert(!ex.contains(id@));
                assert forall|j: int| 0 <= j < i && needs_tag(ls, j) implies ids[j] != id@ by {
                    assert(used0.contains(ids[j]));
                }
                let ghost ids0 = ids;
                ids = ids.push(id@);
                lemma_taken_grows(ls, ex, ids0, id@, i as int);
                assert forall|d: nat| d < c implies taken(ls, ex, ids, i as int, #[trigger] candidate_id(d)) by {
                    assert(used0.contains(candidate_id(d)));
                    assert(taken(ls, ex, ids0, i as int, candidate_id(d)));
                }
                assert(first_free(ls, ex, ids, i as int, ids[i as int])) by {
                    assert(ids[i as int] == candidate_id(c as nat));
                }
            }
            used.push(id);
            out.push(t);
            changed = true;
            proof {
                assert(chars_view(used@) =~= used0.push(ids[i as int]));
                assert(chars_view(used@).contains(ids[i as int]) ) by {
                    assert(chars_view(used@)[used0.len() as int] == ids[i as int]);
                }
                assert forall|x: Seq<char>| used0.contains(x) implies chars_view(used@).contains(x) by {
                    let k = choose|k: int| 0 <= k < used0.len() && used0[k] == x;
                    assert(chars_view(used@)[k] == x);
                }
                assert forall|x: Seq<char>| chars_view(used@).contains(x) implies taken(
                    ls,
                    ex,
                    ids,
                    i + 1,
                    x,
                ) by {
                    let k = choose|k: int| 0 <= k < chars_view(used@).len() && chars_view(used@)[k] == x;
                    if k < used0.len() {
                        assert(used0[k] == x);
                        assert(used0.contains(x));
                    } else {
                        assert(ids[i as int] == x);
                    }
                }
            }
        } else {
            let t = copy_chars(l);
            out.push(t);
            proof {
                let ghost ids0 = ids;
                ids = ids.push(seq![]);
                lemma_taken_grows(ls, ex, ids0, seq![], i as int);
            }
        }
        proof {
            assert(chars_view(out@) =~= out0.push(
                if needs_tag(ls, i as int) {
                    tag_line(ls[i as int], ids[i as int])
                } else {
                    ls[i as int]
                },
            ));
        }
        if starts_at(l, 0, &vec!['-', '-', '-']) {
            in_body = true;
        } else if starts_at(l, 0, &vec!['=', '=', '=']) {
            in_body = false;
        }
        proof {
            assert(l@.skip(0) =~= l@);
        }
        i += 1;
    }
    if !changed {
        return None;
    }
    let s = join_to_string(&out);
    proof {
        let outs = chars_view(out@);
        assert(tags_added(ls, ex, outs, ids));
    }
    Some(s)
}

} // verus!

verus! {

proof fn lemma_decimal_no_newline(n: nat)
    ensures
        no_newline(decimal(n)),
    decreases n,
{
    if n >= 10 {
        lemma_decimal_no_newline(n / 10);
    }
}

/// The length of the part of `l` that stands before the tag.
pub open spec fn base_len(l: Seq<char>) -> int {
    if l.len() > 0 && l.last() == '\r' {
        l.len() - 1
    } else {
        l.len() as int
    }
}

pub(crate) proof fn lemma_tag_line_shape(l: Seq<char>, id: Seq<char>)
    ensures
        tag_line(l, id).len() == base_len(l) + 2 + id.len() + (l.len() - base_len(l)),
        forall|j: int| 0 <= j < base_len(l) ==> #[trigger] tag_line(l, id)[j] == l[j],
        tag_line(l, id)[base_len(l)] == ' ',
        tag_line(l, id)[base_len(l) + 1] == '#',
        tag_line(l, id).subrange(base_len(l) + 2, base_len(l) + 2 + id.len()) == id,
        forall|j: int| base_len(l) <= j < l.len() ==> l[j] == '\r',
{
    let t = tag_line(l, id);
    let m = base_len(l);
    assert(t.subrange(m + 2, m + 2 + id.len()) =~= id);
}

/// A statement line keeps its kind once tagged: it is no delimiter, and it has a tag.
pub(crate) proof fn lemma_tagged_statement(l: Seq<char>, c: nat)
    requires
        is_line_statement(l),
        no_newline(l),
    ensures
        !is_body_start(tag_line(l, candidate_id(c))),
        !is_node_end(tag_line(l, candidate_id(c))),
        has_line_tag(tag_line(l, candidate_id(c))),
        no_newline(tag_line(l, candidate_id(c))),
{
    let id = candidate_id(c);
    let t = tag_line(l, id);
    let m = base_len(l);
    lemma_tag_line_shape(l, id);
    let k = choose|k: int|
        #![trigger content_at(l, k)]
        content_at(l, k) && !starts_with(l.skip(k), seq!['<', '<']) && !starts_with(
            l.skip(k),
            seq!['/', '/'],
        );
    assert(k < m) by {
        if k >= m {
            assert(l[k] == '\r');
        }
    }
    if m >= 3 {
        assert(t.subrange(0, 3) =~= l.subrange(0, 3));
    } else {
        assert(t[m] == ' ');
        if starts_with(t, seq!['-', '-', '-']) {
            assert(t.subrange(0, 3)[m] == '-');
        }
        if starts_with(t, seq!['=', '=', '=']) {
            assert(t.subrange(0, 3)[m] == '=');
        }
    }
    assert(t.subrange(m + 1, m + 7) =~= line_tag_marker()) by {
        assert(t.subrange(m + 2, m + 2 + id.len()) == id);
        assert(id.subrange(0, 5) =~= line_prefix());
        assert forall|j: int| 0 <= j < 5 implies t[m + 2 + j] == id[j] by {
            assert(t.subrange(m + 2, m + 2 + id.len())[j] == t[m + 2 + j]);
        }
    }
    let w = m + 1;
    assert(id.len() >= 5);
    assert(0 <= w && w + 6 <= t.len());
    assert(t.subrange(w, w + 6) == line_tag_marker());
    lemma_decimal_no_newline(c);
    assert forall|j: int| 0 <= j < t.len() implies t[j] != '\n' by {
        if j < m {
        } else if j < m + 2 {
        } else if j < m + 2 + id.len() {
            assert(t.subrange(m + 2, m + 2 + id.len())[j - m - 2] == t[j]);
            if j - m - 2 >= 5 {
                assert(id[j - m - 2] == decimal(c)[j - m - 7]);
            }
        } else {
            assert(l.len() > 0 && l.last() == '\r');
        }
    }
}

pub(crate) proof fn lemma_body_after_kept(ls: Seq<Seq<char>>, outs: Seq<Seq<char>>, i: int)
    requires
        ls.len() == outs.len(),
        0 <= i <= ls.len(),
        forall|j: int|
            0 <= j < ls.len() ==> is_body_start(#[trigger] outs[j]) == is_body_start(ls[j])
                && is_node_end(outs[j]) == is_node_end(ls[j]),
    ensures
        body_after(outs, i) == body_after(ls, i),
    decreases i,
{
    if i > 0 {
        lemma_body_after_kept(ls, outs, i - 1);
        assert(is_body_start(outs[i - 1]) == is_body_start(ls[i - 1]));
    }
}

/// Adding tags is idempotent: in a rewritten source no line lacks a tag, so a
/// second pass finds nothing to do and leaves it as it is.
pub proof fn lemma_add_tags_idempotent(source: Seq<char>, existing: Seq<Seq<char>>, out: Seq<char>)
    requires
        rewritten(source, existing, out),
    ensures
        fully_tagged(out),
{
    let ls = split_lines(source);
    let (outs, ids) = choose|outs: Seq<Seq<char>>, ids: Seq<Seq<char>>|
        tags_added(ls, existing, outs, ids) && out == join_lines(outs);
    lemma_split_len(source);
    assert forall|i: int| 0 <= i < ls.len() && needs_tag(ls, i) implies {
        &&& !is_body_start(#[trigger] outs[i])
        &&& !is_node_end(outs[i])
        &&& has_line_tag(outs[i])
        &&& no_newline(outs[i])
    } by {
        let c = choose|c: nat| ids[i] == #[trigger] candidate_id(c);
        assert(no_newline(ls[i]));
        lemma_tagged_statement(ls[i], c);
    }
    assert forall|i: int| 0 <= i < outs.len() implies no_newline(#[trigger] outs[i]) by {
        assert(no_newline(ls[i]));
    }
    lemma_split_join(outs);
    assert forall|j: int| 0 <= j < ls.len() implies is_body_start(#[trigger] outs[j])
        == is_body_start(ls[j]) && is_node_end(outs[j]) == is_node_end(ls[j]) by {
    }
    assert forall|i: int| 0 <= i < split_lines(out).len() implies !needs_tag(
        split_lines(out),
        i,
    ) by {
        lemma_body_after_kept(ls, outs, i);
    }
}

} // verus!

verus! {

/// How many of lines `0..n` are statements of a node body: the lines that the
/// string table records.
pub open spec fn statement_count(ls: Seq<Seq<char>>, n: int) -> nat
    decreases n,
{
    if n <= 0 {
        0
    } else {
        statement_count(ls, n - 1) + if body_after(ls, n - 1) && is_line_statement(ls[n - 1]) {
            1nat
        } else {
            0nat
        }
    }
}

pub(crate) proof fn lemma_tagged_still_statement(l: Seq<char>, c: nat)
    requires
        is_line_statement(l),
        no_newline(l),
    ensures
        is_line_statement(tag_line(l, candidate_id(c))),
{
    let id = candidate_id(c);
    let t = tag_line(l, id);
    let m = base_len(l);
    lemma_tag_line_shape(l, id);
    lemma_tagged_statement(l, c);
    let k = choose|k: int|
        #![trigger content_at(l, k)]
        content_at(l, k) && !starts_with(l.skip(k), seq!['<', '<']) && !starts_with(
            l.skip(k),
            seq!['/', '/'],
        );
    assert(k < m) by {
        if k >= m {
            assert(l[k] == '\r');
        }
    }
    assert(content_at(t, k)) by {
        assert forall|j: int| 0 <= j < k implies is_blank(#[trigger] t[j]) by {
            assert(is_blank(l[j]));
        }
    }
    if starts_with(t.skip(k), seq!['<', '<']) {
        assert(t.skip(k).subrange(0, 2)[1] == '<');
        if k + 1 < m {
            assert(l.skip(k).subrange(0, 2) =~= seq!['<', '<']);
        }
    }
    if starts_with(t.skip(k), seq!['/', '/']) {
        assert(t.skip(k).subrange(0, 2)[1] == '/');
        if k + 1 < m {
            assert(l.skip(k).subrange(0, 2) =~= seq!['/', '/']);
        }
    }
}

proof fn lemma_statement_count_kept(ls: Seq<Seq<char>>, outs: Seq<Seq<char>>, n: int)
    requires
        ls.len() == outs.len(),
        0 <= n <= ls.len(),
        forall|j: int|
            0 <= j < ls.len() ==> is_body_start(#[trigger] outs[j]) == is_body_start(ls[j])
                && is_node_end(outs[j]) == is_node_end(ls[j]),
        forall|j: int|
            0 <= j < ls.len() && body_after(ls, j) ==> is_line_statement(#[trigger] outs[j])
                == is_line_statement(ls[j]),
    ensures
        statement_count(outs, n) == statement_count(ls, n),
    decreases n,
{
    if n > 0 {
        lemma_statement_count_kept(ls, outs, n - 1);
        lemma_body_after_kept(ls, outs, n - 1);
        assert(outs[n - 1] == outs[n - 1]);
    }
}

/// Adding tags neither adds nor removes a recorded line: the rewritten source
/// has as many statement lines as the source, and each of them carries a
/// `#line:` tag, so every line identifier taken from it is explicit.
pub proof fn lemma_add_tags_keeps_lines(source: Seq<char>, existing: Seq<Seq<char>>, out: Seq<char>)
    requires
        rewritten(source, existing, out),
    ensures
        split_lines(out).len() == split_lines(source).len(),
        statement_count(split_lines(out), split_lines(out).len() as int) == statement_count(
            split_lines(source),
            split_lines(source).len() as int,
        ),
        forall|i: int|
            0 <= i < split_lines(out).len() && body_after(split_lines(out), i) && is_line_statement(
                #[trigger] split_lines(out)[i],
            ) ==> has_line_tag(split_lines(out)[i]),
{
    lemma_add_tags_idempotent(source, existing, out);
    let ls = split_lines(source);
    let (outs, ids) = choose|outs: Seq<Seq<char>>, ids: Seq<Seq<char>>|
        tags_added(ls, existing, outs, ids) && out == join_lines(outs);
    lemma_split_len(source);
    assert forall|i: int| 0 <= i < ls.len() && needs_tag(ls, i) implies {
        &&& !is_body_start(#[trigger] outs[i])
        &&& !is_node_end(outs[i])
        &&& no_newline(outs[i])
        &&& is_line_statement(outs[i])
    } by {
        let c = choose|c: nat| ids[i] == #[trigger] candidate_id(c);
        assert(no_newline(ls[i]));
        lemma_tagged_statement(ls[i], c);
        lemma_tagged_still_statement(ls[i], c);
    }
    assert forall|i: int| 0 <= i < outs.len() implies no_newline(#[trigger] outs[i]) by {
        assert(no_newline(ls[i]));
    }
    lemma_split_join(outs);
    assert forall|j: int| 0 <= j < ls.len() implies is_body_start(#[trigger] outs[j])
        == is_body_start(ls[j]) && is_node_end(outs[j]) == is_node_end(ls[j]) by {
    }
    assert forall|j: int| 0 <= j < ls.len() && body_after(ls, j) implies is_line_statement(
        #[trigger] outs[j],
    ) == is_line_statement(ls[j]) by {
    }
    lemma_statement_count_kept(ls, outs, ls.len() as int);
    assert forall|i: int|
        0 <= i < split_lines(out).len() && body_after(split_lines(out), i) && is_line_statement(
            #[trigger] split_lines(out)[i],
        ) implies has_line_tag(split_lines(out)[i]) by {
        assert(!needs_tag(split_lines(out), i));
    }
}

} // verus!

verus! {

/// The characters after `line:` in a candidate are decimal digits, not `\r`.
pub(crate) proof fn lemma_candidate_digit(c: nat, j: int)
    requires
        0 <= j < decimal(c).len(),
    ensures
        candidate_id(c)[5 + j] != '\r',
        candidate_id(c)[5 + j] != '#',
        candidate_id(c)[5 + j] != ' ',
    decreases c,
{
    assert(candidate_id(c)[5 + j] == decimal(c)[j]);
    lemma_decimal_digit(c, j);
}

proof fn lemma_decimal_digit(c: nat, j: int)
    requires
        0 <= j < decimal(c).len(),
    ensures
        decimal(c)[j] != '\r',
        decimal(c)[j] != '#',
        decimal(c)[j] != ' ',
    decreases c,
{
    if c >= 10 && j < decimal(c).len() - 1 {
        assert(decimal(c)[j] == decimal(c / 10)[j]);
        lemma_decimal_digit(c / 10, j);
    }
}

} // verus!
