//! Translation tables: one CSV per language, built from the string tables of the
//! narrative files, with a lock column derived from the base-language text.
use vstd::prelude::*;
use vstd::string::*;
use crate::string_table::{StringInfo, StringTableManager, TableView, line_prefix};
use crate::text::{starts_with, str_starts_with, text_lt, str_lt, lemma_text_lt_total, decimal, push_decimal, strings_view};
use sha2::Digest;

verus! {

/// A metadata token that is the line's own identifier.
pub open spec fn is_line_id_tag(token: Seq<char>) -> bool {
    starts_with(token, line_prefix())
}

/// The metadata tokens that are not line identifiers, in order.
pub open spec fn comment_tokens(m: Seq<Seq<char>>) -> Seq<Seq<char>>
    decreases m.len(),
{
    if m.len() == 0 {
        seq![]
    } else {
        let rest = comment_tokens(m.drop_last());
        if is_line_id_tag(m.last()) {
            rest
        } else {
            rest.push(m.last())
        }
    }
}

/// The tokens joined by single spaces.
pub open spec fn join_spaces(m: Seq<Seq<char>>) -> Seq<char>
    decreases m.len(),
{
    if m.len() == 0 {
        seq![]
    } else if m.len() == 1 {
        m[0]
    } else {
        join_spaces(m.drop_last()) + seq![' '] + m.last()
    }
}

pub open spec fn metadata_comment_prefix() -> Seq<char> {
    "Line metadata: "@
}

/// The comment column: `Line metadata: ` and the non-identifier tokens, or
/// nothing when there are none.
pub open spec fn comment_of(m: Seq<Seq<char>>) -> Seq<char> {
    let k = comment_tokens(m);
    if k.len() == 0 {
        seq![]
    } else {
        metadata_comment_prefix() + join_spaces(k)
    }
}

/// Builds the comment column of a row from a line's metadata tokens.
pub fn read_comments(metadata: &Vec<String>) -> (r: String)
    ensures
        r@ == comment_of(strings_view(metadata@)),
{
    let ghost m = strings_view(metadata@);
    let mut r = String::new();
    let mut kept: usize = 0;
    let mut i: usize = 0;
    while i < metadata.len()
        invariant
            i <= metadata@.len(),
            m == strings_view(metadata@),
            kept == comment_tokens(m.subrange(0, i as int)).len(),
            kept <= i,
            kept == 0 ==> r@.len() == 0,
            kept > 0 ==> r@ == metadata_comment_prefix() + join_spaces(
                comment_tokens(m.subrange(0, i as int)),
            ),
        decreases metadata@.len() - i,
    {
        let ghost before = comment_tokens(m.subrange(0, i as int));
        proof {
            assert(m.subrange(0, i as int + 1).drop_last() =~= m.subrange(0, i as int));
            assert(m.subrange(0, i as int + 1).last() == metadata@[i as int]@);
        }
        let token = &metadata[i];
        if !str_starts_with(token.as_str(), "line:") {
            proof {
                reveal_strlit("line:");
                assert("line:"@ =~= line_prefix());
            }
            if kept == 0 {
                r.append("Line metadata: ");
            } else {
                r.append(" ");
            }
            r.append(token.as_str());
            proof {
                reveal_strlit("Line metadata: ");
                reveal_strlit(" ");
                let after = before.push(token@);
                if kept == 0 {
                    assert(join_spaces(after) == after[0]);
                    assert(r@ =~= metadata_comment_prefix() + join_spaces(after));
                } else {
                    assert(after.drop_last() =~= before);
                    assert(r@ =~= metadata_comment_prefix() + join_spaces(after));
                }
            }
            kept += 1;
        } else {
            proof {
                reveal_strlit("line:");
                assert("line:"@ =~= line_prefix());
            }
        }
        i += 1;
    }
    assert(m.subrange(0, i as int) =~= m);
    r
}

} // verus!

verus! {

/// What SHA-256 yields for the UTF-8 encoding of a text.
pub uninterp spec fn sha256_of_utf8(text: Seq<char>) -> Seq<u8>;

/// Relies on `sha2::Sha256::digest` over the text's UTF-8 bytes; a SHA-256
/// digest is 32 bytes long.
#[verifier::external_body]
fn sha256(text: &str) -> (r: Vec<u8>)
    ensures
        r@ == sha256_of_utf8(text@),
        r@.len() == 32,
{
    sha2::Sha256::digest(text.as_bytes()).to_vec()
}

/// The lowercase hexadecimal digit of `n`, for `n < 16`.
pub open spec fn hex_digit(n: nat) -> char {
    if n < 10 {
        (n + 48) as u8 as char
    } else {
        (n + 87) as u8 as char
    }
}

/// The two hexadecimal digits of a byte, high nibble first.
pub open spec fn hex_byte(b: u8) -> Seq<char> {
    seq![hex_digit((b / 16) as nat), hex_digit((b % 16) as nat)]
}

/// The lock of a base-language text: the first eight hexadecimal digits of its
/// SHA-256 digest.
pub open spec fn lock_of(text: Seq<char>) -> Seq<char> {
    let d = sha256_of_utf8(text);
    hex_byte(d[0]) + hex_byte(d[1]) + hex_byte(d[2]) + hex_byte(d[3])
}

fn hex_digit_char(n: u8) -> (c: char)
    requires
        n < 16,
    ensures
        c == hex_digit(n as nat),
{
    if n < 10 {
        (n + 48) as char
    } else {
        (n + 87) as char
    }
}

/// Computes the lock column of a row from the base-language text.
pub fn compute_lock(text: &str) -> (r: String)
    ensures
        r@ == lock_of(text@),
{
    let digest = sha256(text);
    let mut r = String::new();
    let mut i: usize = 0;
    while i < 4
        invariant
            digest@ == sha256_of_utf8(text@),
            digest@.len() == 32,
            i <= 4,
            r@.len() == 2 * i,
            forall|k: int|
                0 <= k < i ==> r@.subrange(2 * k, 2 * k + 2) == #[trigger] hex_byte(digest@[k]),
        decreases 4 - i,
    {
        let b = digest[i];
        let ghost r0 = r@;
        r.push(hex_digit_char(b / 16));
        r.push(hex_digit_char(b % 16));
        proof {
            assert(r@.subrange(2 * i as int, 2 * i as int + 2) =~= hex_byte(b));
            assert forall|k: int| 0 <= k < i implies r@.subrange(2 * k, 2 * k + 2)
                == #[trigger] hex_byte(digest@[k]) by {
                assert(r@.subrange(2 * k, 2 * k + 2) =~= r0.subrange(2 * k, 2 * k + 2));
            }
        }
        i += 1;
    }
    proof {
        let d = digest@;
        assert(r@.subrange(0, 2) == hex_byte(d[0]));
        assert(r@.subrange(2, 4) == hex_byte(d[1]));
        assert(r@.subrange(4, 6) == hex_byte(d[2]));
        assert(r@.subrange(6, 8) == hex_byte(d[3]));
        assert(r@ =~= lock_of(text@));
    }
    r
}

} // verus!

verus! {

/// A narrative file: its name, its source text and the string table compiled from it.
pub struct YarnFile {
    pub file_name: String,
    pub source: String,
    pub string_table: StringTableManager,
}

/// One row of a translation table.
pub struct StringsFileRecord {
    pub language: String,
    pub id: String,
    pub text: String,
    pub file: String,
    pub node: String,
    pub line_number: usize,
    pub lock: String,
    pub comment: String,
}

/// A line of the string tables: its identifier, its record and its file's name.
pub type SourceRow = (Seq<char>, StringInfo, Seq<char>);

/// The explicitly tagged lines of a table, in its order, each with `file`.
pub open spec fn explicit_rows(t: TableView, file: Seq<char>) -> Seq<SourceRow>
    decreases t.len(),
{
    if t.len() == 0 {
        seq![]
    } else {
        let rest = explicit_rows(t.drop_last(), file);
        if t.last().1.is_implicit_tag {
            rest
        } else {
            rest.push((t.last().0, t.last().1, file))
        }
    }
}

/// Every explicitly tagged line of every file, file by file, each table in
/// its own order. Lines with an implicit identifier get no row.
pub open spec fn source_rows(files: Seq<YarnFile>) -> Seq<SourceRow>
    decreases files.len(),
{
    if files.len() == 0 {
        seq![]
    } else {
        let f = files.last();
        source_rows(files.drop_last()) + explicit_rows(f.string_table@, f.file_name@)
    }
}

/// `r` is the row of translation table `language` for the line `s`.
pub open spec fn is_record_of(r: StringsFileRecord, language: Seq<char>, s: SourceRow) -> bool {
    &&& r.language@ == language
    &&& r.id@ == s.0
    &&& r.text@ == s.1.text@
    &&& r.file@ == s.2
    &&& r.node@ == s.1.node_name@
    &&& r.line_number == s.1.line_number
    &&& r.lock@ == lock_of(s.1.text@)
    &&& r.comment@ == comment_of(strings_view(s.1.metadata@))
}

fn record_of(language: &String, id: &String, info: &StringInfo, file: &String) -> (r:
    StringsFileRecord)
    ensures
        is_record_of(r, language@, (id@, *info, file@)),
{
    StringsFileRecord {
        language: language.clone(),
        id: id.clone(),
        text: info.text.clone(),
        file: file.clone(),
        node: info.node_name.clone(),
        line_number: info.line_number,
        lock: compute_lock(info.text.as_str()),
        comment: read_comments(&info.metadata),
    }
}

/// The rows of translation table `language`, one per explicitly tagged line,
/// in the order of `source_rows`.
pub fn build_records(language: &String, files: &Vec<YarnFile>) -> (r: Vec<StringsFileRecord>)
    ensures
        r@.len() == source_rows(files@).len(),
        forall|k: int|
            0 <= k < r@.len() ==> is_record_of(#[trigger] r@[k], language@, source_rows(files@)[k]),
{
    let mut r: Vec<StringsFileRecord> = Vec::new();
    let mut i: usize = 0;
    while i < files.len()
        invariant
            i <= files@.len(),
            r@.len() == source_rows(files@.subrange(0, i as int)).len(),
            forall|k: int|
                0 <= k < r@.len() ==> is_record_of(
                    #[trigger] r@[k],
                    language@,
                    source_rows(files@.subrange(0, i as int))[k],
                ),
        decreases files@.len() - i,
    {
        let f = &files[i];
        let ghost prev = source_rows(files@.subrange(0, i as int));
        let ghost rows = source_rows(files@.subrange(0, i as int + 1));
        proof {
            assert(files@.subrange(0, i as int + 1).drop_last() =~= files@.subrange(0, i as int));
        }
        let n = f.string_table.len();
        let mut j: usize = 0;
        while j < n
            invariant
                0 <= i < files@.len(),
                f == files@[i as int],
                n == f.string_table@.len(),
                j <= n,
                prev == source_rows(files@.subrange(0, i as int)),
                rows == prev + explicit_rows(f.string_table@, f.file_name@),
                r@.len() == prev.len() + explicit_rows(
                    f.string_table@.subrange(0, j as int),
                    f.file_name@,
                ).len(),
                forall|k: int|
                    0 <= k < r@.len() ==> is_record_of(
                        #[trigger] r@[k],
                        language@,
                        (prev + explicit_rows(f.string_table@.subrange(0, j as int), f.file_name@))[k],
                    ),
            decreases n - j,
        {
            let ghost before = explicit_rows(f.string_table@.subrange(0, j as int), f.file_name@);
            let ghost after = explicit_rows(f.string_table@.subrange(0, j + 1), f.file_name@);
            proof {
                assert(f.string_table@.subrange(0, j + 1).drop_last() =~= f.string_table@.subrange(
                    0,
                    j as int,
                ));
            }
            let (id, info) = f.string_table.entry(j);
            if !info.is_implicit_tag {
                let rec = record_of(language, id, info, &f.file_name);
                r.push(rec);
                proof {
                    assert(after == before.push((id@, *info, f.file_name@)));
                    assert((prev + after)[(prev.len() + before.len()) as int] == (id@, *info, f.file_name@));
                    assert forall|k: int| 0 <= k < r@.len() implies is_record_of(
                        #[trigger] r@[k],
                        language@,
                        (prev + after)[k],
                    ) by {
                        if k < r@.len() - 1 {
                            assert((prev + after)[k] == (prev + before)[k]);
                        }
                    }
                }
            } else {
                proof {
                    assert(after == before);
                }
            }
            j += 1;
        }
        proof {
            assert(f.string_table@.subrange(0, j as int) =~= f.string_table@);
        }
        i += 1;
    }
    assert(files@.subrange(0, i as int) =~= files@);
    r
}

} // verus!

verus! {

/// Row `a` comes strictly before row `b`: by file name, then by line number.
pub open spec fn row_lt(a: StringsFileRecord, b: StringsFileRecord) -> bool {
    text_lt(a.file@, b.file@) || (a.file@ == b.file@ && a.line_number < b.line_number)
}

/// Rows ordered by (file, line number), each no later than the next.
pub open spec fn rows_sorted(rows: Seq<StringsFileRecord>) -> bool {
    forall|k: int| 0 <= k < rows.len() - 1 ==> !row_lt(#[trigger] rows[k + 1], rows[k])
}

fn record_lt(a: &StringsFileRecord, b: &StringsFileRecord) -> (r: bool)
    ensures
        r == row_lt(*a, *b),
{
    if str_lt(a.file.as_str(), b.file.as_str()) {
        true
    } else if a.file == b.file {
        a.line_number < b.line_number
    } else {
        false
    }
}

/// Sorts rows by (file, line number); rows with the same key keep their order.
pub fn sort_records(records: Vec<StringsFileRecord>) -> (r: Vec<StringsFileRecord>)
    ensures
        rows_sorted(r@),
        r@.len() == records@.len(),
        r@.to_multiset() == records@.to_multiset(),
{
    broadcast use vstd::seq_lib::group_to_multiset_ensures;

    let mut rest = records;
    let mut r: Vec<StringsFileRecord> = Vec::new();
    while rest.len() > 0
        invariant
            rows_sorted(r@),
            r@.len() + rest@.len() == records@.len(),
            r@.to_multiset().add(rest@.to_multiset()) == records@.to_multiset(),
        decreases rest@.len(),
    {
        let ghost rest0 = rest@;
        let ghost rm0 = r@;
        let rec = rest.pop().unwrap();
        proof {
            assert(rest0 =~= rest@.push(rec));
        }
        let mut p: usize = r.len();
        while p > 0 && !record_lt(&r[p - 1], &rec)
            invariant
                p <= r@.len(),
                rows_sorted(r@),
                forall|k: int| p <= k < r@.len() ==> !row_lt(#[trigger] r@[k], rec),
            decreases p,
        {
            p -= 1;
        }
        let ghost r0 = r@;
        assert(r0 == rm0);
        r.insert(p, rec);
        proof {
            assert(r@ =~= r0.insert(p as int, rec));
            assert forall|k: int| 0 <= k < r@.len() - 1 implies !row_lt(#[trigger] r@[k + 1], r@[k]) by {
                if k + 1 < p {
                    assert(r@[k + 1] == r0[k + 1] && r@[k] == r0[k]);
                } else if k + 1 == p {
                    assert(row_lt(r0[k], rec));
                    lemma_text_lt_total(r0[k].file@, rec.file@);
                    assert(r@[k + 1] == rec && r@[k] == r0[k]);
                    assert(!row_lt(rec, r0[k]));
                } else if k == p {
                    assert(r@[k + 1] == r0[k] && r@[k] == rec);
                } else {
                    assert(r@[k + 1] == r0[k] && r@[k] == r0[k - 1]);
                    assert(r0[(k - 1) + 1] == r0[k]);
                }
            }
            vstd::seq_lib::to_multiset_insert(r0, p as int, rec);
            rest@.to_multiset_ensures();
            assert(rest0.to_multiset() == rest@.to_multiset().insert(rec));
            assert(r@.to_multiset().add(rest@.to_multiset()) =~= r0.to_multiset().add(
                rest0.to_multiset(),
            ));
        }
    }
    r
}

} // verus!

verus! {

/// The rows of the translation table for `language`: one per line of every
/// file, sorted by (file, line number).
pub fn create_strings_file_records(language: &String, files: &Vec<YarnFile>) -> (r: Vec<
    StringsFileRecord,
>)
    ensures
        generated_rows(language@, files@, r@),
{
    let built = build_records(language, files);
    let r = sort_records(built);
    proof {
        let rows = source_rows(files@);
        r@.to_multiset_ensures();
        built@.to_multiset_ensures();
        assert forall|k: int| 0 <= k < r@.len() implies #[trigger] has_source_row(
            r@[k],
            language@,
            files@,
        ) by {
            assert(r@.contains(r@[k]));
            assert(r@.to_multiset().count(r@[k]) > 0);
            assert(built@.to_multiset().count(r@[k]) > 0);
            assert(built@.contains(r@[k]));
            let j = choose|j: int| 0 <= j < built@.len() && built@[j] == r@[k];
            assert(is_record_of(built@[j], language@, rows[j]));
            assert(is_record_of(r@[k], language@, source_rows(files@)[j]));
        }
        assert forall|j: int| 0 <= j < source_rows(files@).len() implies #[trigger] has_row(
            r@,
            language@,
            source_rows(files@)[j],
        ) by {
            assert(is_record_of(built@[j], language@, rows[j]));
            assert(built@.contains(built@[j]));
            assert(built@.to_multiset().count(built@[j]) > 0);
            assert(r@.to_multiset().count(built@[j]) > 0);
            assert(r@.contains(built@[j]));
            let k = choose|k: int| 0 <= k < r@.len() && r@[k] == built@[j];
            assert(is_record_of(r@[k], language@, rows[j]));
        }
        assert(rows_sorted(r@));
        assert(r@.len() == rows.len());
        assert(generated_rows(language@, files@, r@));
    }
    r
}

/// `rows` is a translation table for `language` generated from `files`: sorted,
/// one row per line, and each row that of some line.
pub open spec fn generated_rows(
    language: Seq<char>,
    files: Seq<YarnFile>,
    rows: Seq<StringsFileRecord>,
) -> bool {
    &&& rows_sorted(rows)
    &&& rows.len() == source_rows(files).len()
    &&& forall|k: int| 0 <= k < rows.len() ==> #[trigger] has_source_row(rows[k], language, files)
    &&& forall|j: int|
        0 <= j < source_rows(files).len() ==> #[trigger] has_row(rows, language, source_rows(files)[j])
}

/// `r` is the row of some line of `files`.
pub open spec fn has_source_row(r: StringsFileRecord, language: Seq<char>, files: Seq<YarnFile>) -> bool {
    exists|j: int| 0 <= j < source_rows(files).len() && is_record_of(r, language, #[trigger] source_rows(files)[j])
}

/// Some row of `rows` is that of line `s`.
pub open spec fn has_row(rows: Seq<StringsFileRecord>, language: Seq<char>, s: SourceRow) -> bool {
    exists|k: int| 0 <= k < rows.len() && is_record_of(#[trigger] rows[k], language, s)
}

} // verus!

verus! {

/// `id` is the identifier of an explicitly tagged line of one of the files.
pub open spec fn is_explicit_id(files: Seq<YarnFile>, id: Seq<char>) -> bool {
    exists|f: int, i: int|
        0 <= f < files.len() && 0 <= i < files[f].string_table@.len()
            && (#[trigger] files[f].string_table@[i]).0 == id
            && !files[f].string_table@[i].1.is_implicit_tag
}

proof fn lemma_explicit_rows_member(t: TableView, file: Seq<char>, id: Seq<char>)
    ensures
        (exists|j: int| 0 <= j < explicit_rows(t, file).len() && (#[trigger] explicit_rows(t, file)[j]).0 == id)
            <==> (exists|i: int| 0 <= i < t.len() && (#[trigger] t[i]).0 == id && !t[i].1.is_implicit_tag),
    decreases t.len(),
{
    if t.len() > 0 {
        let d = t.drop_last();
        lemma_explicit_rows_member(d, file, id);
        let rest = explicit_rows(d, file);
        let e = explicit_rows(t, file);
        if exists|j: int| 0 <= j < e.len() && (#[trigger] e[j]).0 == id {
            let j = choose|j: int| 0 <= j < e.len() && (#[trigger] e[j]).0 == id;
            if j < rest.len() {
                assert(e[j] == rest[j]);
                let i = choose|i: int| 0 <= i < d.len() && (#[trigger] d[i]).0 == id && !d[i].1.is_implicit_tag;
                assert(t[i] == d[i]);
            } else {
                assert(t[t.len() - 1].0 == id);
            }
        }
        if exists|i: int| 0 <= i < t.len() && (#[trigger] t[i]).0 == id && !t[i].1.is_implicit_tag {
            let i = choose|i: int| 0 <= i < t.len() && (#[trigger] t[i]).0 == id && !t[i].1.is_implicit_tag;
            if i < d.len() {
                assert(d[i] == t[i]);
                let j = choose|j: int| 0 <= j < rest.len() && (#[trigger] rest[j]).0 == id;
                assert(e[j] == rest[j]);
            } else {
                assert(e[rest.len() as int].0 == id);
            }
        }
    }
}

proof fn lemma_source_rows_member(files: Seq<YarnFile>, id: Seq<char>)
    ensures
        (exists|j: int| 0 <= j < source_rows(files).len() && (#[trigger] source_rows(files)[j]).0 == id)
            <==> is_explicit_id(files, id),
    decreases files.len(),
{
    if files.len() > 0 {
        let d = files.drop_last();
        let f = files.last();
        lemma_source_rows_member(d, id);
        lemma_explicit_rows_member(f.string_table@, f.file_name@, id);
        let prev = source_rows(d);
        let ex = explicit_rows(f.string_table@, f.file_name@);
        let s = source_rows(files);
        if exists|j: int| 0 <= j < s.len() && (#[trigger] s[j]).0 == id {
            let j = choose|j: int| 0 <= j < s.len() && (#[trigger] s[j]).0 == id;
            if j < prev.len() {
                assert(s[j] == prev[j]);
                let (g, i) = choose|g: int, i: int|
                    0 <= g < d.len() && 0 <= i < d[g].string_table@.len()
                        && (#[trigger] d[g].string_table@[i]).0 == id
                        && !d[g].string_table@[i].1.is_implicit_tag;
                assert(files[g] == d[g]);
                assert(files[g].string_table@[i].0 == id);
            } else {
                assert(s[j] == ex[j - prev.len()]);
                let i = choose|i: int|
                    0 <= i < f.string_table@.len() && (#[trigger] f.string_table@[i]).0 == id
                        && !f.string_table@[i].1.is_implicit_tag;
                assert(files[files.len() - 1].string_table@[i].0 == id);
            }
        }
        if is_explicit_id(files, id) {
            let (g, i) = choose|g: int, i: int|
                0 <= g < files.len() && 0 <= i < files[g].string_table@.len()
                    && (#[trigger] files[g].string_table@[i]).0 == id
                    && !files[g].string_table@[i].1.is_implicit_tag;
            if g < d.len() {
                assert(d[g] == files[g]);
                assert(d[g].string_table@[i].0 == id);
                let j = choose|j: int| 0 <= j < prev.len() && (#[trigger] prev[j]).0 == id;
                assert(s[j] == prev[j]);
            } else {
                assert(f.string_table@[i].0 == id);
                let j = choose|j: int| 0 <= j < ex.len() && (#[trigger] ex[j]).0 == id;
                assert(s[prev.len() + j] == ex[j]);
            }
        }
    }
}

/// A generated translation table is sorted by (file, line number), and its row
/// identifiers are exactly those of the explicitly tagged lines of the files.
pub proof fn lemma_generated_rows_ids(
    language: Seq<char>,
    files: Seq<YarnFile>,
    rows: Seq<StringsFileRecord>,
    id: Seq<char>,
)
    requires
        generated_rows(language, files, rows),
    ensures
        rows_sorted(rows),
        (exists|k: int| 0 <= k < rows.len() && (#[trigger] rows[k]).id@ == id) <==> is_explicit_id(
            files,
            id,
        ),
{
    lemma_source_rows_member(files, id);
    if exists|k: int| 0 <= k < rows.len() && (#[trigger] rows[k]).id@ == id {
        let k = choose|k: int| 0 <= k < rows.len() && (#[trigger] rows[k]).id@ == id;
        assert(has_source_row(rows[k], language, files));
        let j = choose|j: int|
            0 <= j < source_rows(files).len() && is_record_of(
                rows[k],
                language,
                #[trigger] source_rows(files)[j],
            );
        assert(source_rows(files)[j].0 == id);
    }
    if is_explicit_id(files, id) {
        let j = choose|j: int|
            0 <= j < source_rows(files).len() && (#[trigger] source_rows(files)[j]).0 == id;
        assert(has_row(rows, language, source_rows(files)[j]));
        let k = choose|k: int|
            0 <= k < rows.len() && is_record_of(#[trigger] rows[k], language, source_rows(files)[j]);
        assert(rows[k].id@ == id);
    }
}

/// What `csv::Writer` writes for one record of the given fields.
pub uninterp spec fn csv_record(fields: Seq<Seq<char>>) -> Seq<u8>;

/// Relies on `csv::Writer::write_record` with the default settings, writing one
/// record into an in-memory buffer, and `csv::Writer::into_inner` to take the
/// bytes. A fresh writer over a `Vec` that writes a single record cannot fail.
#[verifier::external_body]
fn write_csv_record(fields: &Vec<String>) -> (r: Option<Vec<u8>>)
    ensures
        r is Some,
        r matches Some(b) ==> b@ == csv_record(strings_view(fields@)),
{
    let mut writer = csv::Writer::from_writer(Vec::new());
    if writer.write_record(fields).is_err() {
        return None;
    }
    writer.into_inner().ok()
}

/// The column names of a translation table, in order.
pub open spec fn header_fields() -> Seq<Seq<char>> {
    seq![
        "language"@,
        "id"@,
        "text"@,
        "file"@,
        "node"@,
        "lineNumber"@,
        "lock"@,
        "comment"@,
    ]
}

/// The fields of a row, in column order.
pub open spec fn record_fields(r: StringsFileRecord) -> Seq<Seq<char>> {
    seq![
        r.language@,
        r.id@,
        r.text@,
        r.file@,
        r.node@,
        decimal(r.line_number as nat),
        r.lock@,
        r.comment@,
    ]
}

/// The bytes of a translation table: the header record, then each row's record.
pub open spec fn table_bytes(rows: Seq<StringsFileRecord>) -> Seq<u8>
    decreases rows.len(),
{
    if rows.len() == 0 {
        csv_record(header_fields())
    } else {
        table_bytes(rows.drop_last()) + csv_record(record_fields(rows.last()))
    }
}

fn string_from(s: &str) -> (r: String)
    ensures
        r@ == s@,
{
    s.to_owned()
}

fn fields_of(r: &StringsFileRecord) -> (f: Vec<String>)
    ensures
        strings_view(f@) == record_fields(*r),
{
    let mut line = String::new();
    push_decimal(&mut line, r.line_number);
    let f = vec![
        r.language.clone(),
        r.id.clone(),
        r.text.clone(),
        r.file.clone(),
        r.node.clone(),
        line,
        r.lock.clone(),
        r.comment.clone(),
    ];
    assert(strings_view(f@) =~= record_fields(*r));
    f
}

/// Renders a translation table as CSV: a header row, then one row per record.
pub fn strings_file_contents(rows: &Vec<StringsFileRecord>) -> (r: Vec<u8>)
    ensures
        r@ == table_bytes(rows@),
{
    let header = vec![
        string_from("language"),
        string_from("id"),
        string_from("text"),
        string_from("file"),
        string_from("node"),
        string_from("lineNumber"),
        string_from("lock"),
        string_from("comment"),
    ];
    proof {
        reveal_strlit("language");
        reveal_strlit("id");
        reveal_strlit("text");
        reveal_strlit("file");
        reveal_strlit("node");
        reveal_strlit("lineNumber");
        reveal_strlit("lock");
        reveal_strlit("comment");
        assert(strings_view(header@) =~= header_fields());
    }
    let mut out = match write_csv_record(&header) {
        Some(b) => b,
        None => Vec::new(),
    };
    assert(rows@.subrange(0, 0) =~= Seq::<StringsFileRecord>::empty());
    let mut i: usize = 0;
    while i < rows.len()
        invariant
            i <= rows@.len(),
            out@ == table_bytes(rows@.subrange(0, i as int)),
        decreases rows@.len() - i,
    {
        let fields = fields_of(&rows[i]);
        let mut b = match write_csv_record(&fields) {
            Some(b) => b,
            None => Vec::new(),
        };
        proof {
            assert(rows@.subrange(0, i as int + 1).drop_last() =~= rows@.subrange(0, i as int));
        }
        out.append(&mut b);
        i += 1;
    }
    assert(rows@.subrange(0, i as int) =~= rows@);
    out
}

} // verus!
