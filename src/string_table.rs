//! The string table: line identifiers mapped to what is known of each line.
use vstd::prelude::*;
use vstd::string::*;
use crate::text::{decimal, push_decimal};

verus! {

/// What the table records of one line of narrative text.
pub struct StringInfo {
    pub text: String,
    pub node_name: String,
    pub line_number: usize,
    pub file_name: String,
    pub is_implicit_tag: bool,
    pub metadata: Vec<String>,
}

/// The characters `line:`, with which every line identifier starts.
pub open spec fn line_prefix() -> Seq<char> {
    seq!['l', 'i', 'n', 'e', ':']
}

/// The identifier given to a line inserted without one: `line:<file>-<node>-<ordinal>`.
pub open spec fn implicit_line_id(file: Seq<char>, node: Seq<char>, ordinal: nat) -> Seq<char> {
    line_prefix() + file + seq!['-'] + node + seq!['-'] + decimal(ordinal)
}

/// A table as a sequence of (identifier, record) pairs, in insertion order.
pub type TableView = Seq<(Seq<char>, StringInfo)>;

pub open spec fn table_ids(t: TableView) -> Seq<Seq<char>> {
    t.map_values(|e: (Seq<char>, StringInfo)| e.0)
}

/// No identifier occurs twice.
pub open spec fn table_wf(t: TableView) -> bool {
    table_ids(t).no_duplicates()
}

pub open spec fn table_contains(t: TableView, id: Seq<char>) -> bool {
    exists|i: int| 0 <= i < t.len() && #[trigger] t[i].0 == id
}

/// The record with its implicit flag set to `implicit`.
pub open spec fn with_implicit_flag(info: StringInfo, implicit: bool) -> StringInfo {
    StringInfo { is_implicit_tag: implicit, ..info }
}

/// A position at which `id` stands, where it stands somewhere.
pub open spec fn index_of(t: TableView, id: Seq<char>) -> int {
    choose|i: int| 0 <= i < t.len() && #[trigger] t[i].0 == id
}

/// Insertion of `id`: an entry with the same identifier is replaced in place,
/// otherwise the pair is appended.
pub open spec fn table_insert(t: TableView, id: Seq<char>, info: StringInfo) -> TableView {
    if table_contains(t, id) {
        t.update(index_of(t, id), (id, info))
    } else {
        t.push((id, info))
    }
}

/// The identifier under which a line is inserted: the one supplied, or the
/// implicit one built from the table's current size.
pub open spec fn insertion_id(t: TableView, line_id: Option<Seq<char>>, info: StringInfo) -> Seq<
    char,
> {
    match line_id {
        Some(id) => id,
        None => implicit_line_id(info.file_name@, info.node_name@, t.len()),
    }
}

/// The identifiers of the entries that carry an author-written tag, in table order.
pub open spec fn explicit_ids(t: TableView) -> Seq<Seq<char>>
    decreases t.len(),
{
    if t.len() == 0 {
        seq![]
    } else {
        let rest = explicit_ids(t.drop_last());
        if !t.last().1.is_implicit_tag {
            rest.push(t.last().0)
        } else {
            rest
        }
    }
}

/// Insertion keeps identifiers unique, and the inserted pair stands in the table.
pub proof fn lemma_table_insert_wf(t: TableView, id: Seq<char>, info: StringInfo)
    requires
        table_wf(t),
    ensures
        table_wf(table_insert(t, id, info)),
        table_contains(table_insert(t, id, info), id),
        table_insert(t, id, info)[if table_contains(t, id) {
            index_of(t, id)
        } else {
            t.len() as int
        }] == (id, info),
{
    let t2 = table_insert(t, id, info);
    if table_contains(t, id) {
        let k = index_of(t, id);
        assert(table_ids(t2) =~= table_ids(t));
        assert(t2[k].0 == id);
    } else {
        assert(table_ids(t2) =~= table_ids(t).push(id));
        assert forall|a: int, b: int|
            0 <= a < b < table_ids(t2).len() implies table_ids(t2)[a] != table_ids(t2)[b] by {
            if b == t.len() {
                assert(t[a].0 == table_ids(t)[a]);
            }
        }
        assert(t2[t.len() as int].0 == id);
    }
}

/// An insertion without an identifier gives the line one that then occurs in
/// the table exactly once, on an entry marked implicit.
pub proof fn lemma_implicit_insert_unique(t: TableView, info: StringInfo)
    requires
        table_wf(t),
    ensures
        ({
            let id = implicit_line_id(info.file_name@, info.node_name@, t.len());
            let t2 = table_insert(t, id, with_implicit_flag(info, true));
            &&& table_wf(t2)
            &&& exists|i: int| 0 <= i < t2.len() && #[trigger] t2[i].0 == id && t2[i].1.is_implicit_tag
            &&& forall|i: int, j: int|
                0 <= i < t2.len() && 0 <= j < t2.len() && #[trigger] t2[i].0 == id && #[trigger] t2[j].0
                    == id ==> i == j
        }),
{
    let id = implicit_line_id(info.file_name@, info.node_name@, t.len());
    let t2 = table_insert(t, id, with_implicit_flag(info, true));
    lemma_table_insert_wf(t, id, with_implicit_flag(info, true));
    let k = if table_contains(t, id) {
        index_of(t, id)
    } else {
        t.len() as int
    };
    assert(t2[k].0 == id && t2[k].1.is_implicit_tag);
    assert forall|i: int, j: int|
        0 <= i < t2.len() && 0 <= j < t2.len() && #[trigger] t2[i].0 == id && #[trigger] t2[j].0
            == id implies i == j by {
        assert(table_ids(t2)[i] == table_ids(t2)[j]);
    }
}

/// An insertion with an identifier marks the entry explicit. Inserting the same
/// identifier again replaces the earlier record: the table then holds the second
/// record under that identifier, and has the size it had after the first insertion.
pub proof fn lemma_explicit_insert_replaces(
    t: TableView,
    id: Seq<char>,
    first: StringInfo,
    second: StringInfo,
)
    requires
        table_wf(t),
    ensures
        ({
            let t1 = table_insert(t, id, with_implicit_flag(first, false));
            let t2 = table_insert(t1, id, with_implicit_flag(second, false));
            &&& table_contains(t1, id)
            &&& t1[index_of(t1, id)].1 == with_implicit_flag(first, false)
            &&& !t1[index_of(t1, id)].1.is_implicit_tag
            &&& table_wf(t2)
            &&& t2.len() == t1.len()
            &&& t2[index_of(t1, id)] == (id, with_implicit_flag(second, false))
            &&& forall|i: int| 0 <= i < t1.len() && i != index_of(t1, id) ==> #[trigger] t2[i] == t1[i]
        }),
{
    let f = with_implicit_flag(first, false);
    let t1 = table_insert(t, id, f);
    lemma_table_insert_wf(t, id, f);
    let k = if table_contains(t, id) {
        index_of(t, id)
    } else {
        t.len() as int
    };
    assert(t1[k].0 == id);
    let k1 = index_of(t1, id);
    assert(table_ids(t1)[k1] == table_ids(t1)[k]);
    lemma_table_insert_wf(t1, id, with_implicit_flag(second, false));
}

/// Maps line identifiers to their records, keeping the order of insertion.
pub struct StringTableManager {
    entries: Vec<(String, StringInfo)>,
}

impl View for StringTableManager {
    type V = TableView;

    closed spec fn view(&self) -> TableView {
        self.entries@.map_values(|e: (String, StringInfo)| (e.0@, e.1))
    }
}

impl StringTableManager {
    pub open spec fn well_formed(&self) -> bool {
        table_wf(self@)
    }

    pub fn new() -> (r: Self)
        ensures
            r@ == Seq::<(Seq<char>, StringInfo)>::empty(),
            r.well_formed(),
    {
        let r = StringTableManager { entries: Vec::new() };
        assert(r@ =~= Seq::<(Seq<char>, StringInfo)>::empty());
        r
    }

    pub fn len(&self) -> (r: usize)
        ensures
            r == self@.len(),
    {
        self.entries.len()
    }

    /// The identifier and record at position `i`, in insertion order.
    pub fn entry(&self, i: usize) -> (r: (&String, &StringInfo))
        requires
            i < self@.len(),
        ensures
            r.0@ == self@[i as int].0,
            *r.1 == self@[i as int].1,
    {
        let e = &self.entries[i];
        (&e.0, &e.1)
    }

    /// The position of the entry with identifier `id`, if there is one.
    pub fn position(&self, id: &String) -> (r: Option<usize>)
        ensures
            match r {
                Some(i) => i < self@.len() && self@[i as int].0 == id@,
                None => !table_contains(self@, id@),
            },
    {
        let mut i: usize = 0;
        while i < self.entries.len()
            invariant
                i <= self.entries@.len(),
                self@.len() == self.entries@.len(),
                forall|j: int| 0 <= j < i ==> self@[j].0 != id@,
            decreases self.entries@.len() - i,
        {
            if self.entries[i].0 == *id {
                return Some(i);
            }
            i += 1;
        }
        None
    }

    /// The identifiers of the entries whose tag an author wrote, in table order.
    pub fn explicit_line_ids(&self) -> (r: Vec<String>)
        ensures
            r@.map_values(|s: String| s@) == explicit_ids(self@),
    {
        let mut r: Vec<String> = Vec::new();
        let mut i: usize = 0;
        while i < self.entries.len()
            invariant
                i <= self.entries@.len(),
                self@.len() == self.entries@.len(),
                r@.map_values(|s: String| s@) == explicit_ids(self@.subrange(0, i as int)),
            decreases self.entries@.len() - i,
        {
            proof {
                let next = self@.subrange(0, i as int + 1);
                assert(next.drop_last() =~= self@.subrange(0, i as int));
            }
            if !self.entries[i].1.is_implicit_tag {
                r.push(self.entries[i].0.clone());
            }
            i += 1;
            proof {
                assert(r@.map_values(|s: String| s@) =~= explicit_ids(self@.subrange(0, i as int)));
            }
        }
        assert(self@.subrange(0, i as int) =~= self@);
        r
    }

    /// Whether some entry carries an identifier that was generated rather than written.
    pub fn contains_implicit_string_tags(&self) -> (r: bool)
        ensures
            r == exists|i: int| 0 <= i < self@.len() && (#[trigger] self@[i]).1.is_implicit_tag,
    {
        let mut i: usize = 0;
        while i < self.entries.len()
            invariant
                i <= self.entries@.len(),
                self@.len() == self.entries@.len(),
                forall|j: int| 0 <= j < i ==> !(#[trigger] self@[j]).1.is_implicit_tag,
            decreases self.entries@.len() - i,
        {
            if self.entries[i].1.is_implicit_tag {
                assert(self@[i as int].1.is_implicit_tag);
                return true;
            }
            i += 1;
        }
        false
    }

    /// Inserts a line. With an identifier the entry is explicit; without one it
    /// gets `line:<file>-<node>-<size of the table>` and is implicit. An entry
    /// already present under the same identifier is replaced.
    pub fn insert(&mut self, line_id: Option<String>, string_info: StringInfo)
        requires
            old(self).well_formed(),
        ensures
            final(self).well_formed(),
            final(self)@ == table_insert(
                old(self)@,
                insertion_id(
                    old(self)@,
                    match line_id {
                        Some(id) => Some(id@),
                        None => None,
                    },
                    string_info,
                ),
                with_implicit_flag(string_info, line_id is None),
            ),
    {
        let ghost t0 = self@;
        let ghost lid = match line_id {
            Some(ref x) => Some(x@),
            None => None,
        };
        let implicit = line_id.is_none();
        let id = match line_id {
            Some(id) => id,
            None => {
                let mut id = String::new();
                id.append("line:");
                id.append(string_info.file_name.as_str());
                id.append("-");
                id.append(string_info.node_name.as_str());
                id.append("-");
                push_decimal(&mut id, self.entries.len());
                proof {
                    reveal_strlit("line:");
                    reveal_strlit("-");
                    assert(id@ =~= implicit_line_id(
                        string_info.file_name@,
                        string_info.node_name@,
                        t0.len(),
                    ));
                }
                id
            },
        };
        assert(id@ == insertion_id(t0, lid, string_info));
        let info = StringInfo { is_implicit_tag: implicit, ..string_info };
        let ghost new_id = id@;
        assert(info == with_implicit_flag(string_info, implicit));
        assert(implicit == (lid is None));
        match self.position(&id) {
            Some(i) => {
                self.entries.set(i, (id, info));
                proof {
                    assert(t0[i as int].0 == new_id);
                    let k = index_of(t0, new_id);
                    assert(table_ids(t0)[k] == table_ids(t0)[i as int]);
                    assert(k == i);
                    assert(self@ =~= t0.update(i as int, (new_id, info)));
                    assert(table_contains(t0, new_id));
                    lemma_table_insert_wf(t0, new_id, info);
                }
            },
            None => {
                self.entries.push((id, info));
                proof {
                    assert(self@ =~= t0.push((new_id, info)));
                    lemma_table_insert_wf(t0, new_id, info);
                }
            },
        }
    }
}

} // verus!
