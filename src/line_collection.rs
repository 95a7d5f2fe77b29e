//! Collecting the lines of narrative source into a string table: for each
//! statement line of a node body, its text, node, line number and tags.
use vstd::prelude::*;
use crate::line_tags::{
    is_blank, split_lines, body_after, is_body_start, is_line_statement, content_at, base_len, split_source,
    line_is_statement, chars_view,
};
use crate::string_table::{line_prefix, StringInfo, StringTableManager, TableView, table_insert, insertion_id, with_implicit_flag};
use crate::text::{starts_with, strings_view};

verus! {

/// The text without blank characters at its end.
pub open spec fn trim_end(s: Seq<char>) -> Seq<char>
    decreases s.len(),
{
    if s.len() > 0 && is_blank(s.last()) {
        trim_end(s.drop_last())
    } else {
        s
    }
}

/// The text without blank characters at its start.
pub open spec fn trim_start(s: Seq<char>) -> Seq<char>
    decreases s.len(),
{
    if s.len() > 0 && is_blank(s[0]) {
        trim_start(s.drop_first())
    } else {
        s
    }
}

pub open spec fn trim(s: Seq<char>) -> Seq<char> {
    trim_start(trim_end(s))
}

/// The pieces of a text between `#` characters.
pub open spec fn split_hash(s: Seq<char>) -> Seq<Seq<char>>
    decreases s.len(),
{
    if s.len() == 0 {
        seq![seq![]]
    } else {
        let p = split_hash(s.drop_last());
        if s.last() == '#' {
            p.push(seq![])
        } else {
            p.update(p.len() - 1, p.last().push(s.last()))
        }
    }
}

/// The pieces, trimmed, without the empty ones.
pub open spec fn clean_tags(pieces: Seq<Seq<char>>) -> Seq<Seq<char>>
    decreases pieces.len(),
{
    if pieces.len() == 0 {
        seq![]
    } else {
        let rest = clean_tags(pieces.drop_last());
        let t = trim(pieces.last());
        if t.len() == 0 {
            rest
        } else {
            rest.push(t)
        }
    }
}

/// The first position in `l[j..m]` that holds `#`, or `m`.
pub open spec fn first_hash(l: Seq<char>, j: int, m: int) -> int
    decreases m - j,
{
    if j >= m {
        m
    } else if l[j] == '#' {
        j
    } else {
        first_hash(l, j + 1, m)
    }
}

/// The first character of the line that is not blank.
pub open spec fn content_start(l: Seq<char>) -> int {
    choose|k: int| content_at(l, k)
}

/// The text of a statement line: from its first non-blank character up to its
/// first `#`, without blanks at the end.
pub open spec fn line_text(l: Seq<char>) -> Seq<char> {
    let k = content_start(l);
    trim_end(l.subrange(k, first_hash(l, k, base_len(l))))
}

/// The tags of a statement line: what follows each `#`, trimmed, without `#`.
pub open spec fn line_metadata(l: Seq<char>) -> Seq<Seq<char>> {
    let k = content_start(l);
    let h = first_hash(l, k, base_len(l));
    if h < base_len(l) {
        clean_tags(split_hash(l.subrange(h + 1, base_len(l))))
    } else {
        seq![]
    }
}

/// The first tag that is a line identifier.
pub open spec fn first_line_id(tags: Seq<Seq<char>>) -> Option<Seq<char>>
    decreases tags.len(),
{
    if tags.len() == 0 {
        None
    } else if starts_with(tags[0], line_prefix()) {
        Some(tags[0])
    } else {
        first_line_id(tags.drop_first())
    }
}

pub open spec fn title_prefix() -> Seq<char> {
    seq!['t', 'i', 't', 'l', 'e', ':']
}

/// The name of the node that line `i` belongs to: the last `title:` header
/// before it, outside node bodies; empty before the first.
pub open spec fn node_at(ls: Seq<Seq<char>>, i: int) -> Seq<char>
    decreases i,
{
    if i <= 0 {
        seq![]
    } else if !body_after(ls, i - 1) && starts_with(ls[i - 1], title_prefix()) {
        trim(ls[i - 1].skip(6))
    } else {
        node_at(ls, i - 1)
    }
}

fn trimmed(v: &Vec<char>, from: usize, to: usize) -> (r: Vec<char>)
    requires
        from <= to <= v@.len(),
    ensures
        r@ == trim(v@.subrange(from as int, to as int)),
{
    let mut end = to;
    while end > from && (v[end - 1] == ' ' || v[end - 1] == '\t' || v[end - 1] == '\r')
        invariant
            from <= end <= to <= v@.len(),
            trim_end(v@.subrange(from as int, to as int)) == trim_end(
                v@.subrange(from as int, end as int),
            ),
        decreases end,
    {
        assert(v@.subrange(from as int, end as int).drop_last() =~= v@.subrange(
            from as int,
            end - 1,
        ));
        end -= 1;
    }
    let ghost te = v@.subrange(from as int, end as int);
    assert(trim_end(te) == te);
    let mut start = from;
    while start < end && (v[start] == ' ' || v[start] == '\t' || v[start] == '\r')
        invariant
            from <= start <= end <= v@.len(),
            trim_start(te) == trim_start(v@.subrange(start as int, end as int)),
        decreases end - start,
    {
        assert(v@.subrange(start as int, end as int).drop_first() =~= v@.subrange(
            start + 1,
            end as int,
        ));
        start += 1;
    }
    let mut r: Vec<char> = Vec::new();
    let mut i = start;
    while i < end
        invariant
            start <= i <= end <= v@.len(),
            r@ == v@.subrange(start as int, i as int),
        decreases end - i,
    {
        r.push(v[i]);
        i += 1;
        assert(r@ =~= v@.subrange(start as int, i as int));
    }
    r
}

} // verus!

verus! {

fn string_from_chars(v: &Vec<char>) -> (r: String)
    ensures
        r@ == v@,
{
    let mut s = String::new();
    let mut i: usize = 0;
    while i < v.len()
        invariant
            i <= v@.len(),
            s@ == v@.subrange(0, i as int),
        decreases v@.len() - i,
    {
        s.push(v[i]);
        i += 1;
        assert(s@ =~= v@.subrange(0, i as int));
    }
    assert(v@.subrange(0, i as int) =~= v@);
    s
}

/// The tags in `l[from..to]`: the pieces between `#` characters, trimmed,
/// without the empty ones.
fn tags_in(l: &Vec<char>, from: usize, to: usize) -> (r: Vec<String>)
    requires
        from <= to <= l@.len(),
    ensures
        strings_view(r@) == clean_tags(split_hash(l@.subrange(from as int, to as int))),
{
    let mut tags: Vec<String> = Vec::new();
    let mut cur: usize = from;
    let mut j: usize = from;
    assert(l@.subrange(from as int, from as int) =~= Seq::<char>::empty());
    assert(split_hash(Seq::<char>::empty()).drop_last() =~= Seq::<Seq<char>>::empty());
    while j < to
        invariant
            from <= cur <= j <= to <= l@.len(),
            strings_view(tags@) == clean_tags(
                split_hash(l@.subrange(from as int, j as int)).drop_last(),
            ),
            split_hash(l@.subrange(from as int, j as int)).last() == l@.subrange(
                cur as int,
                j as int,
            ),
            split_hash(l@.subrange(from as int, j as int)).len() >= 1,
        decreases to - j,
    {
        let ghost s = l@.subrange(from as int, j as int);
        let ghost p = split_hash(s);
        assert(l@.subrange(from as int, j + 1).drop_last() =~= s);
        if l[j] == '#' {
            let t = trimmed(l, cur, j);
            let ghost before = strings_view(tags@);
            if t.len() > 0 {
                tags.push(string_from_chars(&t));
                assert(strings_view(tags@) =~= before.push(t@));
            }
            proof {
                let p2 = split_hash(l@.subrange(from as int, j + 1));
                assert(p2 == p.push(seq![]));
                assert(p2.drop_last() =~= p);
                assert(p.drop_last().push(p.last()) =~= p);
            }
            cur = j + 1;
            proof {
                assert(l@.subrange(cur as int, j + 1) =~= Seq::<char>::empty());
            }
        } else {
            proof {
                let p2 = split_hash(l@.subrange(from as int, j + 1));
                assert(p2 == p.update(p.len() - 1, p.last().push(l@[j as int])));
                assert(p2.drop_last() =~= p.drop_last());
                assert(l@.subrange(cur as int, j + 1) =~= l@.subrange(cur as int, j as int).push(
                    l@[j as int],
                ));
            }
        }
        j += 1;
    }
    let ghost p = split_hash(l@.subrange(from as int, to as int));
    let t = trimmed(l, cur, to);
    let ghost before = strings_view(tags@);
    if t.len() > 0 {
        tags.push(string_from_chars(&t));
        assert(strings_view(tags@) =~= before.push(t@));
    }
    proof {
        assert(p.drop_last().push(p.last()) =~= p);
    }
    tags
}

/// The first tag that is a line identifier.
fn line_id_in(tags: &Vec<String>) -> (r: Option<String>)
    ensures
        match first_line_id(strings_view(tags@)) {
            Some(id) => r matches Some(s) && s@ == id,
            None => r is None,
        },
{
    let ghost t = strings_view(tags@);
    let mut i: usize = 0;
    assert(t.skip(0) =~= t);
    while i < tags.len()
        invariant
            i <= tags@.len(),
            t == strings_view(tags@),
            first_line_id(t) == first_line_id(t.skip(i as int)),
        decreases tags@.len() - i,
    {
        assert(t.skip(i as int)[0] == tags@[i as int]@);
        if crate::text::str_starts_with(tags[i].as_str(), "line:") {
            proof {
                reveal_strlit("line:");
                assert("line:"@ =~= line_prefix());
            }
            return Some(tags[i].clone());
        }
        proof {
            reveal_strlit("line:");
            assert("line:"@ =~= line_prefix());
            assert(t.skip(i as int).drop_first() =~= t.skip(i as int + 1));
        }
        i += 1;
    }
    None
}

} // verus!

verus! {

fn trim_end_of(v: &Vec<char>, from: usize, to: usize) -> (r: Vec<char>)
    requires
        from <= to <= v@.len(),
    ensures
        r@ == trim_end(v@.subrange(from as int, to as int)),
{
    let mut end = to;
    while end > from && (v[end - 1] == ' ' || v[end - 1] == '\t' || v[end - 1] == '\r')
        invariant
            from <= end <= to <= v@.len(),
            trim_end(v@.subrange(from as int, to as int)) == trim_end(
                v@.subrange(from as int, end as int),
            ),
        decreases end,
    {
        assert(v@.subrange(from as int, end as int).drop_last() =~= v@.subrange(
            from as int,
            end - 1,
        ));
        end -= 1;
    }
    let mut r: Vec<char> = Vec::new();
    let mut i = from;
    while i < end
        invariant
            from <= i <= end <= v@.len(),
            r@ == v@.subrange(from as int, i as int),
        decreases end - i,
    {
        r.push(v[i]);
        i += 1;
        assert(r@ =~= v@.subrange(from as int, i as int));
    }
    r
}

/// A statement line as the string table records it.
pub struct CollectedLine {
    pub id: Option<String>,
    pub text: String,
    pub node: String,
    pub line_number: usize,
    pub metadata: Vec<String>,
}

/// What the string table records of line `i`: identifier, text, node, line
/// number (counting from one) and tags.
pub type LineView = (Option<Seq<char>>, Seq<char>, Seq<char>, nat, Seq<Seq<char>>);

pub open spec fn line_view(c: CollectedLine) -> LineView {
    (
        match c.id {
            Some(s) => Some(s@),
            None => None,
        },
        c.text@,
        c.node@,
        c.line_number as nat,
        strings_view(c.metadata@),
    )
}

/// The statement lines among lines `0..n`, in order.
pub open spec fn collected(ls: Seq<Seq<char>>, n: int) -> Seq<LineView>
    decreases n,
{
    if n <= 0 {
        seq![]
    } else {
        let rest = collected(ls, n - 1);
        let l = ls[n - 1];
        if body_after(ls, n - 1) && is_line_statement(l) {
            rest.push(
                (
                    first_line_id(line_metadata(l)),
                    line_text(l),
                    node_at(ls, n - 1),
                    n as nat,
                    line_metadata(l),
                ),
            )
        } else {
            rest
        }
    }
}

fn text_and_tags(l: &Vec<char>) -> (r: (String, Vec<String>))
    requires
        is_line_statement(l@),
    ensures
        r.0@ == line_text(l@),
        strings_view(r.1@) == line_metadata(l@),
{
    let mut k: usize = 0;
    while k < l.len() && (l[k] == ' ' || l[k] == '\t' || l[k] == '\r')
        invariant
            k <= l@.len(),
            forall|j: int| 0 <= j < k ==> is_blank(#[trigger] l@[j]),
        decreases l@.len() - k,
    {
        k += 1;
    }
    proof {
        let c = choose|c: int| content_at(l@, c);
        assert(content_at(l@, c));
        if k == l@.len() {
            assert(is_blank(l@[c]));
        }
        assert(content_at(l@, k as int));
        assert(c == k) by {
            if c < k {
                assert(is_blank(l@[c]));
            } else if c > k {
                assert(is_blank(l@[k as int]));
            }
        }
    }
    let m = if l.len() > 0 && l[l.len() - 1] == '\r' {
        l.len() - 1
    } else {
        l.len()
    };
    assert(m == base_len(l@));
    assert(k < m) by {
        if k >= m {
            assert(l@[k as int] == '\r');
        }
    }
    let mut h = k;
    while h < m && l[h] != '#'
        invariant
            k <= h <= m <= l@.len(),
            first_hash(l@, k as int, m as int) == first_hash(l@, h as int, m as int),
        decreases m - h,
    {
        h += 1;
    }
    let text = trim_end_of(l, k, h);
    let tags = if h < m {
        tags_in(l, h + 1, m)
    } else {
        Vec::new()
    };
    proof {
        if h >= m {
            assert(strings_view(tags@) =~= Seq::<Seq<char>>::empty());
        }
    }
    (string_from_chars(&text), tags)
}

} // verus!

verus! {

/// The statement lines of a narrative source, in order, with what the string
/// table records of each.
pub fn collect_lines(source: &str) -> (r: Vec<CollectedLine>)
    ensures
        r@.map_values(|c: CollectedLine| line_view(c)) == collected(
            split_lines(source@),
            split_lines(source@).len() as int,
        ),
{
    let chars = crate::text::chars_of(source);
    let lines = split_source(&chars);
    let ghost ls = split_lines(source@);
    let mut r: Vec<CollectedLine> = Vec::new();
    let mut node: String = String::new();
    let mut in_body = false;
    let mut i: usize = 0;
    while i < lines.len()
        invariant
            chars_view(lines@) == ls,
            i <= ls.len(),
            in_body == body_after(ls, i as int),
            node@ == node_at(ls, i as int),
            r@.map_values(|c: CollectedLine| line_view(c)) == collected(ls, i as int),
        decreases ls.len() - i,
    {
        let l = &lines[i];
        assert(l@ == ls[i as int]);
        let ghost before = r@.map_values(|c: CollectedLine| line_view(c));
        if in_body && line_is_statement(l) {
            let (text, metadata) = text_and_tags(l);
            let id = line_id_in(&metadata);
            let c = CollectedLine { id, text, node: node.clone(), line_number: i + 1, metadata };
            r.push(c);
            assert(r@.map_values(|c: CollectedLine| line_view(c)) =~= before.push(
                line_view(c),
            ));
        }
        let title = vec!['t', 'i', 't', 'l', 'e', ':'];
        assert(title@ =~= title_prefix());
        let is_title = !in_body && crate::line_tags::starts_at(l, 0, &title);
        assert(l@.skip(0) =~= l@);
        if is_title {
            let name = trimmed(l, 6, l.len());
            assert(l@.subrange(6, l@.len() as int) =~= l@.skip(6));
            node = string_from_chars(&name);
        }
        if crate::line_tags::starts_at(l, 0, &vec!['-', '-', '-']) {
            in_body = true;
        } else if crate::line_tags::starts_at(l, 0, &vec!['=', '=', '=']) {
            in_body = false;
        }
        i += 1;
    }
    r
}

/// The string table built by inserting the collected lines in order, each
/// under its `#line:` tag if it has one, all recorded for `file`.
pub open spec fn table_of(cs: Seq<CollectedLine>, file: String) -> TableView
    decreases cs.len(),
{
    if cs.len() == 0 {
        seq![]
    } else {
        let t = table_of(cs.drop_last(), file);
        let c = cs.last();
        let info = StringInfo {
            text: c.text,
            node_name: c.node,
            line_number: c.line_number,
            file_name: file,
            is_implicit_tag: false,
            metadata: c.metadata,
        };
        let id = match c.id {
            Some(s) => Some(s@),
            None => None,
        };
        table_insert(t, insertion_id(t, id, info), with_implicit_flag(info, c.id is None))
    }
}

/// Inserts the collected lines of `file_name` into a new string table.
pub fn string_table_of(lines: Vec<CollectedLine>, file_name: &String) -> (r: StringTableManager)
    ensures
        r.well_formed(),
        r@ == table_of(lines@, *file_name),
{
    let ghost all = lines@;
    let n = lines.len();
    let mut rest = lines;
    let mut table = StringTableManager::new();
    let mut i: usize = 0;
    while rest.len() > 0
        invariant
            i + rest@.len() == all.len(),
            all.len() == n,
            rest@ == all.skip(i as int),
            table.well_formed(),
            table@ == table_of(all.subrange(0, i as int), *file_name),
        decreases rest@.len(),
    {
        let c = rest.remove(0);
        assert(c == all[i as int]);
        assert(rest@ =~= all.skip(i as int + 1));
        let info = StringInfo {
            text: c.text,
            node_name: c.node,
            line_number: c.line_number,
            file_name: file_name.clone(),
            is_implicit_tag: false,
            metadata: c.metadata,
        };
        table.insert(c.id, info);
        proof {
            assert(all.subrange(0, i as int + 1).drop_last() =~= all.subrange(0, i as int));
        }
        i += 1;
    }
    assert(all.subrange(0, i as int) =~= all);
    table
}

/// The string table of a narrative source: one entry per statement line.
pub fn compile_string_table(source: &str, file_name: &String) -> (r: StringTableManager)
    ensures
        r.well_formed(),
        exists|lines: Seq<CollectedLine>|
            lines.map_values(|c: CollectedLine| line_view(c)) == collected(
                split_lines(source@),
                split_lines(source@).len() as int,
            ) && r@ == table_of(lines, *file_name),
{
    let lines = collect_lines(source);
    string_table_of(lines, file_name)
}

} // verus!

verus! {

/// One line is collected for each statement line of a node body.
pub proof fn lemma_collected_count(ls: Seq<Seq<char>>, n: int)
    ensures
        collected(ls, n).len() == crate::line_tags::statement_count(ls, n),
    decreases n,
{
    if n > 0 {
        lemma_collected_count(ls, n - 1);
    }
}

/// Adding the missing tags to a source and collecting its lines again yields
/// as many lines as before, and each of them carries a `#line:` tag.
pub proof fn lemma_tagged_source_collects_same_count(
    source: Seq<char>,
    existing: Seq<Seq<char>>,
    out: Seq<char>,
)
    requires
        crate::line_tags::rewritten(source, existing, out),
    ensures
        collected(split_lines(out), split_lines(out).len() as int).len() == collected(
            split_lines(source),
            split_lines(source).len() as int,
        ).len(),
        forall|i: int|
            0 <= i < split_lines(out).len() && body_after(split_lines(out), i) && is_line_statement(
                #[trigger] split_lines(out)[i],
            ) ==> crate::line_tags::has_line_tag(split_lines(out)[i]),
{
    crate::line_tags::lemma_add_tags_keeps_lines(source, existing, out);
    lemma_collected_count(split_lines(out), split_lines(out).len() as int);
    lemma_collected_count(split_lines(source), split_lines(source).len() as int);
}

} // verus!

verus! {

proof fn lemma_first_piece(b: Seq<char>)
    ensures
        split_hash(b).len() >= 1,
        exists|n: int|
            #![trigger b.subrange(0, n)]
            0 <= n <= b.len() && split_hash(b)[0] == b.subrange(0, n) && (n == b.len() || b[n] == '#')
                && forall|j: int| 0 <= j < n ==> #[trigger] b[j] != '#',
    decreases b.len(),
{
    if b.len() == 0 {
        assert(split_hash(b)[0] =~= b.subrange(0, 0));
    } else {
        let d = b.drop_last();
        lemma_first_piece(d);
        let n = choose|n: int|
            #![trigger d.subrange(0, n)]
            0 <= n <= d.len() && split_hash(d)[0] == d.subrange(0, n) && (n == d.len() || d[n] == '#')
                && forall|j: int| 0 <= j < n ==> #[trigger] d[j] != '#';
        let p = split_hash(d);
        if b.last() == '#' {
            assert(split_hash(b)[0] == p[0]);
            assert(d.subrange(0, n) =~= b.subrange(0, n));
            assert(forall|j: int| 0 <= j < n ==> #[trigger] b[j] == d[j]);
            if n == d.len() {
                assert(b[n] == '#');
            }
        } else if p.len() == 1 {
            assert(n == d.len()) by {
                if n < d.len() {
                    assert(d[n] == '#');
                    lemma_split_hash_count(d, n);
                }
            }
            assert(split_hash(b)[0] == p[0].push(b.last()));
            assert(p[0].push(b.last()) =~= b.subrange(0, b.len() as int));
            assert forall|j: int| 0 <= j < b.len() implies #[trigger] b[j] != '#' by {
                if j < d.len() {
                    assert(b[j] == d[j]);
                }
            }
        } else {
            assert(split_hash(b)[0] == p[0]);
            assert(d.subrange(0, n) =~= b.subrange(0, n));
            assert(forall|j: int| 0 <= j < n ==> #[trigger] b[j] == d[j]);
            assert(n < d.len()) by {
                if n == d.len() {
                    lemma_split_hash_single(d);
                }
            }
        }
    }
}

/// A text with a `#` at `n` splits into at least two pieces.
proof fn lemma_split_hash_count(b: Seq<char>, n: int)
    requires
        0 <= n < b.len(),
        b[n] == '#',
    ensures
        split_hash(b).len() >= 2,
    decreases b.len(),
{
    let d = b.drop_last();
    if n < d.len() {
        assert(d[n] == '#');
        lemma_split_hash_count(d, n);
    }
    lemma_split_hash_len(d);
}

proof fn lemma_split_hash_len(b: Seq<char>)
    ensures
        split_hash(b).len() >= 1,
        split_hash(b).len() <= b.len() + 1,
    decreases b.len(),
{
    if b.len() > 0 {
        lemma_split_hash_len(b.drop_last());
    }
}

/// A text without `#` is a single piece.
proof fn lemma_split_hash_single(b: Seq<char>)
    requires
        forall|j: int| 0 <= j < b.len() ==> #[trigger] b[j] != '#',
    ensures
        split_hash(b).len() == 1,
    decreases b.len(),
{
    if b.len() > 0 {
        let d = b.drop_last();
        assert forall|j: int| 0 <= j < d.len() implies #[trigger] d[j] != '#' by {
            assert(d[j] == b[j]);
        }
        lemma_split_hash_single(d);
    }
}

} // verus!

verus! {

proof fn lemma_split_hash_concat(a: Seq<char>, b: Seq<char>)
    ensures
        split_hash(a + seq!['#'] + b) == split_hash(a) + split_hash(b),
    decreases b.len(),
{
    lemma_split_hash_len(a);
    if b.len() == 0 {
        assert((a + seq!['#'] + b).drop_last() =~= a);
        assert(split_hash(b) =~= seq![Seq::<char>::empty()]);
        assert(split_hash(a).push(seq![]) =~= split_hash(a) + split_hash(b));
    } else {
        let d = b.drop_last();
        lemma_split_hash_concat(a, d);
        lemma_split_hash_len(d);
        assert((a + seq!['#'] + b).drop_last() =~= a + seq!['#'] + d);
        let pa = split_hash(a);
        let pd = split_hash(d);
        if b.last() == '#' {
            assert((pa + pd).push(seq![]) =~= pa + pd.push(seq![]));
        } else {
            assert((pa + pd).update((pa + pd).len() - 1, (pa + pd).last().push(b.last())) =~= pa
                + pd.update(pd.len() - 1, pd.last().push(b.last())));
        }
    }
}

proof fn lemma_trim_end_prefix(x: Seq<char>, i: int)
    requires
        0 <= i < x.len(),
        !is_blank(x[i]),
    ensures
        trim_end(x).len() > i,
        trim_end(x).subrange(0, i + 1) == x.subrange(0, i + 1),
    decreases x.len(),
{
    if x.len() > 0 && is_blank(x.last()) {
        let d = x.drop_last();
        assert(i < d.len());
        assert(d[i] == x[i]);
        lemma_trim_end_prefix(d, i);
        assert(d.subrange(0, i + 1) =~= x.subrange(0, i + 1));
    }
}

/// A piece that begins with `line:` stays so once trimmed.
proof fn lemma_trim_keeps_line_id(x: Seq<char>)
    requires
        starts_with(x, line_prefix()),
    ensures
        trim(x).len() > 0,
        starts_with(trim(x), line_prefix()),
{
    assert(x[4] == x.subrange(0, 5)[4]);
    lemma_trim_end_prefix(x, 4);
    let y = trim_end(x);
    assert(y.subrange(0, 5) =~= x.subrange(0, 5));
    assert(y[0] == y.subrange(0, 5)[0]);
    assert(trim_start(y) == y);
}

proof fn lemma_clean_tags_has(pieces: Seq<Seq<char>>, i: int)
    requires
        0 <= i < pieces.len(),
        trim(pieces[i]).len() > 0,
    ensures
        clean_tags(pieces).contains(trim(pieces[i])),
    decreases pieces.len(),
{
    let d = pieces.drop_last();
    if i < d.len() {
        assert(d[i] == pieces[i]);
        lemma_clean_tags_has(d, i);
        let k = choose|k: int| 0 <= k < clean_tags(d).len() && clean_tags(d)[k] == trim(pieces[i]);
        let t = trim(pieces.last());
        if t.len() > 0 {
            assert(clean_tags(pieces)[k] == clean_tags(d)[k]);
        }
    } else {
        assert(clean_tags(pieces).last() == trim(pieces[i]));
    }
}

proof fn lemma_first_line_id_some(tags: Seq<Seq<char>>, i: int)
    requires
        0 <= i < tags.len(),
        starts_with(tags[i], line_prefix()),
    ensures
        first_line_id(tags) is Some,
    decreases tags.len(),
{
    if !starts_with(tags[0], line_prefix()) {
        assert(i > 0);
        assert(tags.drop_first()[i - 1] == tags[i]);
        lemma_first_line_id_some(tags.drop_first(), i - 1);
    }
}

} // verus!

verus! {

proof fn lemma_piece_starts(b: Seq<char>)
    requires
        starts_with(b, line_prefix()),
    ensures
        starts_with(split_hash(b)[0], line_prefix()),
{
    lemma_first_piece(b);
    let n = choose|n: int|
        #![trigger b.subrange(0, n)]
        0 <= n <= b.len() && split_hash(b)[0] == b.subrange(0, n) && (n == b.len() || b[n] == '#')
            && forall|j: int| 0 <= j < n ==> #[trigger] b[j] != '#';
    assert forall|j: int| 0 <= j < 5 implies #[trigger] b[j] != '#' by {
        assert(b[j] == b.subrange(0, 5)[j]);
    }
    assert(n >= 5);
    assert(b.subrange(0, n).subrange(0, 5) =~= b.subrange(0, 5));
}

proof fn lemma_first_hash_bound(l: Seq<char>, j: int, m: int, p: int)
    requires
        j <= p < m <= l.len(),
        0 <= j,
        l[p] == '#',
    ensures
        j <= first_hash(l, j, m) <= p,
        l[first_hash(l, j, m)] == '#',
    decreases m - j,
{
    if l[j] != '#' {
        lemma_first_hash_bound(l, j + 1, m, p);
    }
}

/// A statement line that carries a `#line:` tag is collected with an identifier.
proof fn lemma_tagged_line_has_id(l: Seq<char>)
    requires
        is_line_statement(l),
        crate::line_tags::has_line_tag(l),
    ensures
        first_line_id(line_metadata(l)) is Some,
{
    let p = choose|p: int|
        0 <= p && p + 6 <= l.len() && #[trigger] l.subrange(p, p + 6)
            == crate::line_tags::line_tag_marker();
    let marker = l.subrange(p, p + 6);
    assert(l[p] == marker[0]);
    let k = content_start(l);
    assert(content_at(l, k));
    assert(k <= p) by {
        if p < k {
            assert(is_blank(l[p]));
        }
    }
    let m = base_len(l);
    assert(p + 6 <= m) by {
        if l.len() > 0 && l.last() == '\r' && p + 6 > m {
            assert(l[p + 5] == marker[5]);
        }
    }
    lemma_first_hash_bound(l, k, m, p);
    let h = first_hash(l, k, m);
    let r = l.subrange(h + 1, m);
    let pieces = split_hash(r);
    let piece_index: int;
    if p == h {
        assert(r.subrange(0, 5) =~= marker.subrange(1, 6));
        assert(marker.subrange(1, 6) =~= line_prefix());
        lemma_piece_starts(r);
        lemma_split_hash_len(r);
        piece_index = 0;
    } else {
        let a = r.subrange(0, p - h - 1);
        let b = r.subrange(p - h, r.len() as int);
        assert(r[p - h - 1] == l[p]);
        assert(r =~= a + seq!['#'] + b);
        lemma_split_hash_concat(a, b);
        assert(b.subrange(0, 5) =~= marker.subrange(1, 6));
        assert(marker.subrange(1, 6) =~= line_prefix());
        lemma_piece_starts(b);
        lemma_split_hash_len(a);
        lemma_split_hash_len(b);
        piece_index = split_hash(a).len() as int;
        assert(pieces[piece_index] == split_hash(b)[0]);
    }
    lemma_trim_keeps_line_id(pieces[piece_index]);
    lemma_clean_tags_has(pieces, piece_index);
    let tags = clean_tags(pieces);
    let t = choose|t: int| 0 <= t < tags.len() && tags[t] == trim(pieces[piece_index]);
    lemma_first_line_id_some(tags, t);
}

} // verus!

verus! {

proof fn lemma_collected_ids(ls: Seq<Seq<char>>, n: int)
    requires
        n <= ls.len(),
        forall|i: int|
            0 <= i < n && body_after(ls, i) && is_line_statement(#[trigger] ls[i])
                ==> crate::line_tags::has_line_tag(ls[i]),
    ensures
        forall|k: int| 0 <= k < collected(ls, n).len() ==> (#[trigger] collected(ls, n)[k]).0 is Some,
    decreases n,
{
    if n > 0 {
        lemma_collected_ids(ls, n - 1);
        let l = ls[n - 1];
        if body_after(ls, n - 1) && is_line_statement(l) {
            lemma_tagged_line_has_id(l);
        }
    }
}

proof fn lemma_table_of_explicit(cs: Seq<CollectedLine>, file: String)
    requires
        forall|k: int| 0 <= k < cs.len() ==> (#[trigger] cs[k]).id is Some,
    ensures
        forall|i: int| 0 <= i < table_of(cs, file).len() ==> !(#[trigger] table_of(cs, file)[i]).1.is_implicit_tag,
    decreases cs.len(),
{
    if cs.len() > 0 {
        let d = cs.drop_last();
        assert forall|k: int| 0 <= k < d.len() implies (#[trigger] d[k]).id is Some by {
            assert(d[k] == cs[k]);
        }
        lemma_table_of_explicit(d, file);
        assert(cs.last().id is Some);
        let t = table_of(d, file);
        let c = cs.last();
        let info = StringInfo {
            text: c.text,
            node_name: c.node,
            line_number: c.line_number,
            file_name: file,
            is_implicit_tag: false,
            metadata: c.metadata,
        };
        let id = match c.id {
            Some(s) => Some(s@),
            None => None,
        };
        let key = insertion_id(t, id, info);
        let entry = with_implicit_flag(info, false);
        assert(table_of(cs, file) == table_insert(t, key, entry));
        assert forall|i: int| 0 <= i < table_of(cs, file).len() implies !(#[trigger] table_of(
            cs,
            file,
        )[i]).1.is_implicit_tag by {
            if crate::string_table::table_contains(t, key) {
                let j = crate::string_table::index_of(t, key);
                if i != j {
                    assert(table_of(cs, file)[i] == t[i]);
                }
            } else if i < t.len() {
                assert(table_of(cs, file)[i] == t[i]);
            }
        }
    }
}

/// Once the missing tags are added, the string table of the source holds only
/// explicit identifiers, and it is built from as many lines as before.
pub proof fn lemma_tagged_source_compiles_explicit(
    source: Seq<char>,
    existing: Seq<Seq<char>>,
    out: Seq<char>,
    lines: Seq<CollectedLine>,
    file: String,
)
    requires
        crate::line_tags::rewritten(source, existing, out),
        lines.map_values(|c: CollectedLine| line_view(c)) == collected(
            split_lines(out),
            split_lines(out).len() as int,
        ),
    ensures
        lines.len() == collected(split_lines(source), split_lines(source).len() as int).len(),
        forall|i: int|
            0 <= i < table_of(lines, file).len() ==> !(#[trigger] table_of(lines, file)[i]).1.is_implicit_tag,
{
    lemma_tagged_source_collects_same_count(source, existing, out);
    let ls = split_lines(out);
    lemma_collected_ids(ls, ls.len() as int);
    assert forall|k: int| 0 <= k < lines.len() implies (#[trigger] lines[k]).id is Some by {
        assert(lines.map_values(|c: CollectedLine| line_view(c))[k] == line_view(lines[k]));
        assert(collected(ls, ls.len() as int)[k].0 is Some);
    }
    lemma_table_of_explicit(lines, file);
}

} // verus!

verus! {

proof fn lemma_content_unique(l: Seq<char>, a: int, b: int)
    requires
        content_at(l, a),
        content_at(l, b),
    ensures
        a == b,
{
    if a < b {
        assert(is_blank(l[a]));
    } else if b < a {
        assert(is_blank(l[b]));
    }
}

/// Where `l` and `t` agree on `[j, m)`, their first `#` from `j` agree when
/// `l` has one before `m`; otherwise `t` continues the search from `m`.
proof fn lemma_first_hash_agree(l: Seq<char>, t: Seq<char>, j: int, m: int, m2: int)
    requires
        0 <= j <= m <= l.len(),
        m <= m2 <= t.len(),
        forall|i: int| j <= i < m ==> #[trigger] t[i] == l[i],
    ensures
        first_hash(l, j, m) < m ==> first_hash(t, j, m2) == first_hash(l, j, m),
        first_hash(l, j, m) >= m ==> first_hash(t, j, m2) == first_hash(t, m, m2),
    decreases m - j,
{
    if j < m {
        assert(t[j] == l[j]);
        if l[j] != '#' {
            lemma_first_hash_agree(l, t, j + 1, m, m2);
        }
    }
}

proof fn lemma_trim_end_space(x: Seq<char>)
    ensures
        trim_end(x.push(' ')) == trim_end(x),
{
    assert(x.push(' ').drop_last() =~= x);
}

/// Tagging a statement line leaves its text as it was.
proof fn lemma_tagged_text(l: Seq<char>, c: nat)
    requires
        is_line_statement(l),
        crate::line_tags::no_newline(l),
    ensures
        line_text(crate::line_tags::tag_line(l, crate::line_tags::candidate_id(c))) == line_text(l),
{
    let id = crate::line_tags::candidate_id(c);
    let t = crate::line_tags::tag_line(l, id);
    crate::line_tags::lemma_tag_line_shape(l, id);
    crate::line_tags::lemma_tagged_still_statement(l, c);
    let k = content_start(l);
    let k2 = content_start(t);
    assert(content_at(l, k));
    assert(content_at(t, k2));
    let m = base_len(l);
    assert(k < m) by {
        if k >= m {
            assert(l[k] == '\r');
        }
    }
    assert(content_at(t, k)) by {
        assert forall|j: int| 0 <= j < k implies is_blank(#[trigger] t[j]) by {
            assert(is_blank(l[j]));
        }
    }
    lemma_content_unique(t, k, k2);
    let m2 = base_len(t);
    assert(id.len() >= 5);
    assert(m2 == m + 2 + id.len()) by {
        if l.len() > 0 && l.last() == '\r' {
            assert(t.last() == '\r');
        } else {
            assert(t.len() > 0 && t.last() == id.last());
            assert(id.last() != '\r') by {
                if id.len() > 5 {
                    crate::line_tags::lemma_candidate_digit(c, id.len() - 6);
                }
            }
        }
    }
    lemma_first_hash_agree(l, t, k, m, m2);
    lemma_first_hash_range(l, k, m);
    let h = first_hash(l, k, m);
    if h < m {
        assert(t.subrange(k, h) =~= l.subrange(k, h));
    } else {
        assert(t[m] == ' ' && t[m + 1] == '#');
        assert(first_hash(t, m + 1, m2) == m + 1);
        assert(first_hash(t, m, m2) == first_hash(t, m + 1, m2));
        assert(t.subrange(k, m + 1) =~= l.subrange(k, m).push(' '));
        lemma_trim_end_space(l.subrange(k, m));
        assert(h == m) by {
            lemma_first_hash_range(l, k, m);
        }
    }
}

proof fn lemma_first_hash_range(l: Seq<char>, j: int, m: int)
    requires
        j <= m,
    ensures
        j <= first_hash(l, j, m) <= m,
    decreases m - j,
{
    if j < m && l[j] != '#' {
        lemma_first_hash_range(l, j + 1, m);
    }
}

} // verus!

verus! {

/// Two collected lines agree on text, node and line number.
pub open spec fn same_line(a: LineView, b: LineView) -> bool {
    a.1 == b.1 && a.2 == b.2 && a.3 == b.3
}

proof fn lemma_collected_kept(ls: Seq<Seq<char>>, outs: Seq<Seq<char>>, n: int)
    requires
        ls.len() == outs.len(),
        0 <= n <= ls.len(),
        forall|j: int|
            0 <= j < ls.len() ==> is_body_start(#[trigger] outs[j]) == is_body_start(ls[j])
                && crate::line_tags::is_node_end(outs[j]) == crate::line_tags::is_node_end(ls[j]),
        forall|j: int|
            0 <= j < ls.len() && body_after(ls, j) ==> is_line_statement(#[trigger] outs[j])
                == is_line_statement(ls[j]),
        forall|j: int|
            0 <= j < ls.len() && body_after(ls, j) && is_line_statement(ls[j]) ==> line_text(
                #[trigger] outs[j],
            ) == line_text(ls[j]),
        forall|j: int| 0 <= j < ls.len() && !body_after(ls, j) ==> #[trigger] outs[j] == ls[j],
    ensures
        collected(outs, n).len() == collected(ls, n).len(),
        forall|k: int|
            0 <= k < collected(ls, n).len() ==> same_line(
                #[trigger] collected(outs, n)[k],
                collected(ls, n)[k],
            ),
        node_at(outs, n) == node_at(ls, n),
    decreases n,
{
    if n > 0 {
        let i = n - 1;
        lemma_collected_kept(ls, outs, i);
        crate::line_tags::lemma_body_after_kept(ls, outs, i);
        assert(outs[i] == outs[i]);
        let co = collected(outs, n);
        let cl = collected(ls, n);
        assert forall|k: int| 0 <= k < cl.len() implies same_line(#[trigger] co[k], cl[k]) by {
            if k < collected(ls, i).len() {
                assert(co[k] == collected(outs, i)[k]);
                assert(cl[k] == collected(ls, i)[k]);
            }
        }
    }
}

/// Adding the missing tags keeps every collected line's text, node and line
/// number: the string table built after tagging records the same texts, in
/// the same order.
pub proof fn lemma_tagging_keeps_texts(source: Seq<char>, existing: Seq<Seq<char>>, out: Seq<char>)
    requires
        crate::line_tags::rewritten(source, existing, out),
    ensures
        collected(split_lines(out), split_lines(out).len() as int).len() == collected(
            split_lines(source),
            split_lines(source).len() as int,
        ).len(),
        forall|k: int|
            0 <= k < collected(split_lines(source), split_lines(source).len() as int).len()
                ==> same_line(
                #[trigger] collected(split_lines(out), split_lines(out).len() as int)[k],
                collected(split_lines(source), split_lines(source).len() as int)[k],
            ),
{
    let ls = split_lines(source);
    let (outs, ids) = choose|outs: Seq<Seq<char>>, ids: Seq<Seq<char>>|
        crate::line_tags::tags_added(ls, existing, outs, ids) && out == crate::line_tags::join_lines(outs);
    crate::line_tags::lemma_split_len(source);
    assert forall|i: int| 0 <= i < ls.len() && crate::line_tags::needs_tag(ls, i) implies {
        &&& !is_body_start(#[trigger] outs[i])
        &&& !crate::line_tags::is_node_end(outs[i])
        &&& crate::line_tags::no_newline(outs[i])
        &&& is_line_statement(outs[i])
        &&& line_text(outs[i]) == line_text(ls[i])
    } by {
        let c = choose|c: nat| ids[i] == #[trigger] crate::line_tags::candidate_id(c);
        assert(crate::line_tags::no_newline(ls[i]));
        crate::line_tags::lemma_tagged_statement(ls[i], c);
        crate::line_tags::lemma_tagged_still_statement(ls[i], c);
        lemma_tagged_text(ls[i], c);
    }
    assert forall|i: int| 0 <= i < outs.len() implies crate::line_tags::no_newline(
        #[trigger] outs[i],
    ) by {
        assert(crate::line_tags::no_newline(ls[i]));
    }
    crate::line_tags::lemma_split_join(outs);
    assert forall|j: int| 0 <= j < ls.len() implies is_body_start(#[trigger] outs[j])
        == is_body_start(ls[j]) && crate::line_tags::is_node_end(outs[j])
        == crate::line_tags::is_node_end(ls[j]) by {}
    assert forall|j: int| 0 <= j < ls.len() && body_after(ls, j) implies is_line_statement(
        #[trigger] outs[j],
    ) == is_line_statement(ls[j]) by {}
    assert forall|j: int|
        0 <= j < ls.len() && body_after(ls, j) && is_line_statement(ls[j]) implies line_text(
        #[trigger] outs[j],
    ) == line_text(ls[j]) by {}
    assert forall|j: int| 0 <= j < ls.len() && !body_after(ls, j) implies #[trigger] outs[j]
        == ls[j] by {}
    lemma_collected_kept(ls, outs, ls.len() as int);
}

} // verus!
