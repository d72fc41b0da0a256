//! The predicate deparser: renders a conjunctive set of pushed-down
//! predicates and a target column list into the query text sent to the
//! remote store.

use vstd::prelude::*;
use vstd::string::*;
use crate::cell::{Cell, CellV, lit_text, literal_to_query_text};
use crate::text::{
    count_occ,
    join_strings,
    join_texts,
    lemma_count_occ_concat,
    lemma_count_occ_join,
    lemma_count_occ_join_zero,
    lemma_count_occ_zero,
};

verus! {

/// One pushable filter condition: column, comparison operator, literal.
/// A scan's predicates are implicitly conjunctive.
#[derive(Debug)]
pub struct Qual {
    pub field: String,
    pub operator: String,
    pub value: Cell,
}

/// Mathematical model of a [`Qual`].
pub ghost struct QualV {
    pub field: Seq<char>,
    pub operator: Seq<char>,
    pub value: CellV,
}

impl View for Qual {
    type V = QualV;

    open spec fn view(&self) -> QualV {
        QualV { field: self.field@, operator: self.operator@, value: self.value@ }
    }
}

impl DeepView for Qual {
    type V = QualV;

    open spec fn deep_view(&self) -> QualV {
        self.view()
    }
}

/// One predicate rendered as `<column> <operator> <literal>`.
pub open spec fn qual_text(q: QualV) -> Seq<char> {
    q.field + " "@ + q.operator + " "@ + lit_text(q.value)
}

/// The full deparsed query: the column list in the caller's order, the
/// table, and — only when predicates are present — a conjunctive
/// `WHERE` clause.
pub open spec fn deparse_text(quals: Seq<QualV>, columns: Seq<Seq<char>>, table: Seq<char>) -> Seq<
    char,
> {
    let head = "SELECT "@ + join_texts(columns, ", "@) + " FROM "@ + table;
    if quals.len() == 0 {
        head
    } else {
        head + " WHERE "@ + join_texts(quals.map_values(|q: QualV| qual_text(q)), " AND "@)
    }
}

impl Qual {
    pub fn new(field: String, operator: String, value: Cell) -> (q: Qual)
        ensures
            q@ == (QualV { field: field@, operator: operator@, value: value@ }),
    {
        Qual { field, operator, value }
    }

    /// Renders this predicate as one condition of the `WHERE` clause.
    pub fn deparse(&self) -> (s: String)
        ensures
            s@ == qual_text(self@),
    {
        let mut s = String::new();
        s.append(self.field.as_str());
        s.append(" ");
        s.append(self.operator.as_str());
        s.append(" ");
        s.append(literal_to_query_text(&self.value).as_str());
        s
    }
}

/// Renders the query for one scan. The column list keeps the caller's
/// order, since result-row decoding depends on that same order.
pub fn deparse(quals: &Vec<Qual>, columns: &Vec<String>, table: &str) -> (s: String)
    ensures
        s@ == deparse_text(quals.deep_view(), columns.deep_view(), table@),
{
    let ghost qvs = quals.deep_view();
    let mut s = String::new();
    s.append("SELECT ");
    s.append(join_strings(columns, ", ").as_str());
    s.append(" FROM ");
    s.append(table);
    if quals.len() > 0 {
        s.append(" WHERE ");
        let mut conds: Vec<String> = Vec::new();
        let mut i: usize = 0;
        while i < quals.len()
            invariant
                i <= quals.len(),
                qvs == quals.deep_view(),
                qvs.len() == quals.len(),
                conds.deep_view() =~= qvs.take(i as int).map_values(|q: QualV| qual_text(q)),
            decreases quals.len() - i,
        {
            let c = quals[i].deparse();
            conds.push(c);
            proof {
                assert(qvs.take(i as int).push(qvs[i as int]) =~= qvs.take(i as int + 1));
                assert(qvs.take(i as int + 1).map_values(|q: QualV| qual_text(q)) =~= qvs.take(
                    i as int,
                ).map_values(|q: QualV| qual_text(q)).push(qual_text(qvs[i as int])));
                assert(quals@[i as int]@ == qvs[i as int]);
            }
            i = i + 1;
        }
        proof {
            assert(qvs.take(quals.len() as int) =~= qvs);
        }
        s.append(join_strings(&conds, " AND ").as_str());
    }
    s
}

/// With no predicates the deparsed query is exactly the column list and
/// the table, with nothing appended.
pub proof fn lemma_deparse_no_predicates(columns: Seq<Seq<char>>, table: Seq<char>)
    ensures
        deparse_text(Seq::<QualV>::empty(), columns, table) == "SELECT "@ + join_texts(
            columns,
            ", "@,
        ) + " FROM "@ + table,
{
}

/// With predicates present the deparsed query shows the conjunction
/// keyword exactly once between consecutive conditions: one occurrence
/// fewer than there are predicates, provided the caller's own texts do
/// not themselves show it (a column or literal containing it would add
/// occurrences of its own).
pub proof fn lemma_deparse_and_count(quals: Seq<QualV>, columns: Seq<Seq<char>>, table: Seq<char>)
    requires
        quals.len() > 0,
        count_occ(table, "AND"@) == 0,
        forall|i: int| 0 <= i < columns.len() ==> count_occ(#[trigger] columns[i], "AND"@) == 0,
        forall|i: int|
            0 <= i < quals.len() ==> count_occ(qual_text(#[trigger] quals[i]), "AND"@) == 0,
    ensures
        count_occ(deparse_text(quals, columns, table), "AND"@) == quals.len() - 1,
{
    let needle = "AND"@;
    reveal_strlit("AND");
    reveal_strlit("SELECT ");
    reveal_strlit(" FROM ");
    reveal_strlit(" WHERE ");
    reveal_strlit(", ");
    reveal_strlit(" AND ");
    assert(needle.len() == 3);
    assert(needle[0] == 'A' && needle[1] == 'N' && needle[2] == 'D');
    assert(!needle.contains(' ')) by {
        assert(forall|j: int| 0 <= j < 3 ==> needle[j] != ' ');
    }
    assert(!needle.contains(',')) by {
        assert(forall|j: int| 0 <= j < 3 ==> needle[j] != ',');
    }
    assert(!"SELECT "@.contains('A')) by {
        assert(forall|j: int| 0 <= j < "SELECT "@.len() ==> "SELECT "@[j] != 'A');
    }
    assert(!" FROM "@.contains('A')) by {
        assert(forall|j: int| 0 <= j < " FROM "@.len() ==> " FROM "@[j] != 'A');
    }
    assert(!" WHERE "@.contains('A')) by {
        assert(forall|j: int| 0 <= j < " WHERE "@.len() ==> " WHERE "@[j] != 'A');
    }
    assert(!", "@.contains('A')) by {
        assert(forall|j: int| 0 <= j < ", "@.len() ==> ", "@[j] != 'A');
    }
    lemma_count_occ_zero("SELECT "@, needle);
    lemma_count_occ_zero(" FROM "@, needle);
    lemma_count_occ_zero(" WHERE "@, needle);
    lemma_count_occ_zero(", "@, needle);
    // the separator " AND " holds exactly one occurrence, at position 1
    assert(count_occ(" AND "@, needle) == 1) by {
        lemma_count_occ_and_sep();
    }
    // the column list
    let cj = join_texts(columns, ", "@);
    if columns.len() > 0 {
        lemma_count_occ_join_zero(columns, ", "@, needle);
    }
    assert(count_occ(cj, needle) == 0);
    // the conjunction
    let conds = quals.map_values(|q: QualV| qual_text(q));
    assert(forall|i: int|
        0 <= i < conds.len() ==> count_occ(#[trigger] conds[i], needle) == 0) by {
        assert(forall|i: int| 0 <= i < quals.len() ==> conds[i] == qual_text(quals[i]));
    }
    lemma_count_occ_join(conds, " AND "@, needle);
    let dj = join_texts(conds, " AND "@);
    // fold the concatenations up left to right; every seam sits beside
    // a space or a comma, which the needle does not contain
    let a1 = "SELECT "@ + cj;
    if cj.len() > 0 {
        assert(!needle.contains(cj[0]) || !needle.contains("SELECT "@["SELECT "@.len() - 1]));
    }
    lemma_count_occ_concat("SELECT "@, cj, needle);
    let a2 = a1 + " FROM "@;
    assert(" FROM "@[0] == ' ');
    lemma_count_occ_concat(a1, " FROM "@, needle);
    let a3 = a2 + table;
    assert(a2[a2.len() - 1] == ' ');
    lemma_count_occ_concat(a2, table, needle);
    let a4 = a3 + " WHERE "@;
    assert(" WHERE "@[0] == ' ');
    lemma_count_occ_concat(a3, " WHERE "@, needle);
    let a5 = a4 + dj;
    assert(a4[a4.len() - 1] == ' ');
    lemma_count_occ_concat(a4, dj, needle);
    assert(deparse_text(quals, columns, table) == a5);
}

/// The conjunction separator shows the keyword exactly once.
proof fn lemma_count_occ_and_sep()
    ensures
        count_occ(" AND "@, "AND"@) == 1,
{
    reveal_strlit(" AND ");
    reveal_strlit("AND");
    let s = " AND "@;
    let n = "AND"@;
    assert(s.len() == 5 && n.len() == 3);
    reveal_with_fuel(count_occ, 5);
    assert(s.take(3) != n) by {
        assert(s.take(3)[0] == ' ' && n[0] == 'A');
    }
    let s1 = s.skip(1);
    assert(s1.take(3) =~= n);
    let s2 = s1.skip(1);
    assert(s2.take(3) != n) by {
        assert(s2.take(3)[0] == s[2] && s[2] == 'N' && n[0] == 'A');
    }
    let s3 = s2.skip(1);
    assert(s3.len() == 2);
    assert(count_occ(s3, n) == 0);
    assert(count_occ(s2, n) == 0);
    assert(count_occ(s1, n) == 1);
    assert(count_occ(s, n) == 1);
}

} // verus!
