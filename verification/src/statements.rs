//! The statements of an entity, grouped by property, and the reconciler
//! that diffs two such collections by statement ID.
//!
//! Statements are a set keyed by their opaque server-assigned ID, not a
//! positional list: the reconciler matches statements of the two sides by
//! ID, diffs matched pairs recursively, removes IDs only on the from side
//! and adds full bodies for IDs only on the to side.  Its contract pins
//! the emptiness of the result: the patch is empty exactly when both
//! sides carry the same IDs with the same serialized statements, wherever
//! in the collections they sit.

use vstd::prelude::*;
use crate::differ::diff_values;
use crate::error::RestApiError;
use crate::header_info::HeaderInfo;
use crate::json::{
    Json, JsonValue, json_clone, obj_get, lemma_obj_get_absent, lemma_obj_get_at,
    lemma_obj_get_some_index, str_eq, view_pairs,
};
use crate::patch_entry::{Entry, PTok, PatchOp, PathToken, view_entries, view_path};
use crate::statement::{Statement, spec_statement_json};
use crate::statements_patch::StatementsPatch;

verus! {


/// The one patch entry that removes the statement with this ID.
pub open spec fn removal_entry(id: Seq<char>) -> Entry {
    Entry {
        op: PatchOp::Remove,
        path: seq![PTok::Key("statements"@), PTok::Key(id)],
        value: None,
    }
}

/// The one patch entry that adds a statement with this ID and full body.
pub open spec fn addition_entry(id: Seq<char>, body: Json) -> Entry {
    Entry {
        op: PatchOp::Add,
        path: seq![PTok::Key("statements"@), PTok::Key(id)],
        value: Some(body),
    }
}

/// A statement-local edit: replaying the entries turns the old body into
/// the new one, and no entry is emitted when the bodies already agree.
pub open spec fn edit_block(fj: Json, tj: Json, es: Seq<Entry>) -> bool {
    &&& crate::apply::apply_entries(fj, es) == Some(tj)
    &&& (es.len() == 0 <==> fj == tj)
}

/// What the reconciler emits for the source pair at one position:
/// nothing for an ID already handled at an earlier position, one removal
/// for an ID the target does not carry, and a statement-local edit of
/// the two bodies for a matched ID.
pub open spec fn from_step(
    fs: Seq<(Seq<char>, Json)>,
    ts: Seq<(Seq<char>, Json)>,
    p: int,
    es: Seq<Entry>,
) -> bool {
    if exists|q: int| 0 <= q < p && (#[trigger] fs[q]).0 == fs[p].0 {
        es.len() == 0
    } else if obj_get(ts, fs[p].0) is None {
        es == seq![removal_entry(fs[p].0)]
    } else {
        edit_block(fs[p].1, obj_get(ts, fs[p].0)->0, es)
    }
}

/// What the reconciler emits for the target pair at one position:
/// nothing for an ID the source carries, and one addition with the
/// statement's full body for an ID it does not.
pub open spec fn to_step(
    fs: Seq<(Seq<char>, Json)>,
    ts: Seq<(Seq<char>, Json)>,
    q: int,
    es: Seq<Entry>,
) -> bool {
    if obj_get(fs, ts[q].0) is Some {
        es.len() == 0
    } else {
        es == seq![addition_entry(ts[q].0, ts[q].1)]
    }
}

/// The source-side pass over the first p pairs: the entries split into
/// the pass over the first p - 1 pairs followed by the step at p - 1.
pub open spec fn from_entries(
    fs: Seq<(Seq<char>, Json)>,
    ts: Seq<(Seq<char>, Json)>,
    p: int,
    es: Seq<Entry>,
) -> bool
    decreases p,
{
    if p <= 0 {
        es.len() == 0
    } else {
        exists|n: int| #![trigger es.take(n)]
            0 <= n <= es.len() && from_entries(fs, ts, p - 1, es.take(n)) && from_step(
                fs,
                ts,
                p - 1,
                es.skip(n),
            )
    }
}

/// The target-side pass over the first q pairs: the entries split into
/// the pass over the first q - 1 pairs followed by the step at q - 1.
pub open spec fn to_entries(
    fs: Seq<(Seq<char>, Json)>,
    ts: Seq<(Seq<char>, Json)>,
    q: int,
    es: Seq<Entry>,
) -> bool
    decreases q,
{
    if q <= 0 {
        es.len() == 0
    } else {
        exists|n: int| #![trigger es.take(n)]
            0 <= n <= es.len() && to_entries(fs, ts, q - 1, es.take(n)) && to_step(
                fs,
                ts,
                q - 1,
                es.skip(n),
            )
    }
}

/// The reconciler's whole output: a source-side pass over all the source
/// pairs — removals and statement-local edits — followed by a target-side
/// pass over all the target pairs — additions.  Removals and edits
/// therefore precede every addition.
pub open spec fn reconciler_entries(
    fs: Seq<(Seq<char>, Json)>,
    ts: Seq<(Seq<char>, Json)>,
    es: Seq<Entry>,
) -> bool {
    exists|n: int| #![trigger es.take(n)]
        0 <= n <= es.len() && from_entries(fs, ts, fs.len() as int, es.take(n)) && to_entries(
            fs,
            ts,
            ts.len() as int,
            es.skip(n),
        )
}

/// A list whose entries all carry other keys finds nothing for this one.
proof fn lemma_groups_get_absent(gs: Seq<(String, Vec<Statement>)>, k: Seq<char>)
    requires
        forall|p: int| 0 <= p < gs.len() ==> (#[trigger] gs[p]).0@ != k,
    ensures
        groups_get(gs, k) is None,
    decreases gs.len(),
{
    if gs.len() > 0 {
        assert(gs[0].0@ != k);
        assert(forall|p: int|
            0 <= p < gs.drop_first().len() ==> (#[trigger] gs.drop_first()[p]).0@ != k);
        lemma_groups_get_absent(gs.drop_first(), k);
    }
}

/// The first group with a key decides that key's lookup.
proof fn lemma_groups_get_index(gs: Seq<(String, Vec<Statement>)>, g: int, k: Seq<char>)
    requires
        0 <= g < gs.len(),
        forall|q: int| 0 <= q < g ==> (#[trigger] gs[q]).0@ != k,
        gs[g].0@ == k,
    ensures
        groups_get(gs, k) == Some(gs[g].1@),
    decreases g,
{
    if g > 0 {
        assert(gs[0].0@ != k);
        assert(gs.drop_first()[g - 1] == gs[g]);
        assert(forall|q: int|
            0 <= q < g - 1 ==> (#[trigger] gs.drop_first()[q]).0@ != k);
        lemma_groups_get_index(gs.drop_first(), g - 1, k);
    }
}

/// Two lists that differ only in one group, whose key is another one,
/// agree on this key's lookup.
proof fn lemma_groups_get_same_except(
    gs0: Seq<(String, Vec<Statement>)>,
    gs1: Seq<(String, Vec<Statement>)>,
    g: int,
    k: Seq<char>,
)
    requires
        gs0.len() == gs1.len(),
        0 <= g < gs0.len(),
        forall|p: int| 0 <= p < gs0.len() && p != g ==> #[trigger] gs1[p] == gs0[p],
        gs1[g].0@ == gs0[g].0@,
        gs0[g].0@ != k,
    ensures
        groups_get(gs1, k) == groups_get(gs0, k),
    decreases gs0.len(),
{
    if g == 0 {
        assert(gs0[0].0@ != k && gs1[0].0@ != k);
        assert(gs0.drop_first() =~= gs1.drop_first());
    } else {
        assert(gs1[0] == gs0[0]);
        if gs0[0].0@ != k {
            assert(gs0.drop_first()[g - 1] == gs0[g]);
            assert(gs1.drop_first()[g - 1] == gs1[g]);
            assert(forall|p: int|
                0 <= p < gs0.drop_first().len() && p != g - 1
                    ==> #[trigger] gs1.drop_first()[p] == gs0.drop_first()[p]);
            lemma_groups_get_same_except(gs0.drop_first(), gs1.drop_first(), g - 1, k);
        }
    }
}

/// An entity's statements: for each property, the ordered list of its
/// statements, plus response metadata.  Property keys are kept in first
/// insertion order.
#[derive(Debug, Clone)]
pub struct Statements {
    pub statements: Vec<(String, Vec<Statement>)>,
    pub header_info: HeaderInfo,
}

/// The (ID, serialized statement) pairs of one property's statements, in
/// order; statements without an ID contribute nothing.
pub open spec fn group_pairs(ss: Seq<Statement>) -> Seq<(Seq<char>, Json)>
    decreases ss.len(),
{
    if ss.len() == 0 {
        Seq::empty()
    } else {
        (match ss[0].statement_id {
            Some(i) => seq![(i@, spec_statement_json(ss[0]))],
            None => Seq::empty(),
        }) + group_pairs(ss.drop_first())
    }
}

/// The (ID, serialized statement) pairs of a whole collection, walking
/// the property groups in order.
pub open spec fn groups_pairs(gs: Seq<(String, Vec<Statement>)>) -> Seq<(Seq<char>, Json)>
    decreases gs.len(),
{
    if gs.len() == 0 {
        Seq::empty()
    } else {
        group_pairs(gs[0].1@) + groups_pairs(gs.drop_first())
    }
}

/// The serialized statements of one property group, in order.
pub open spec fn group_json(ss: Seq<Statement>) -> Seq<Json> {
    Seq::new(ss.len(), |i: int| spec_statement_json(ss[i]))
}

/// The serialized form of a statements collection: an object with each
/// property's statement array under its sorted key.
pub open spec fn statements_obj(gs: Seq<(String, Vec<Statement>)>) -> Seq<(Seq<char>, Json)>
    decreases gs.len(),
{
    if gs.len() == 0 {
        Seq::empty()
    } else {
        crate::json::obj_upsert(
            statements_obj(gs.drop_last()),
            gs.last().0@,
            Json::Arr(group_json(gs.last().1@)),
        )
    }
}

/// Two pair lists that agree on every key lookup.
pub open spec fn obj_get_equal(a: Seq<(Seq<char>, Json)>, b: Seq<(Seq<char>, Json)>) -> bool {
    forall|k: Seq<char>| #[trigger] obj_get(a, k) == obj_get(b, k)
}

/// True when some statement in the collection has no ID.
pub open spec fn any_nameless(gs: Seq<(String, Vec<Statement>)>) -> bool {
    exists|g: int, s: int|
        #![trigger gs[g].1@[s]]
        0 <= g < gs.len() && 0 <= s < gs[g].1@.len() && gs[g].1@[s].statement_id is None
}

/// The first group with the given property key, when one is present.
pub open spec fn groups_get(gs: Seq<(String, Vec<Statement>)>, k: Seq<char>) -> Option<
    Seq<Statement>,
>
    decreases gs.len(),
{
    if gs.len() == 0 {
        None
    } else if gs[0].0@ == k {
        Some(gs[0].1@)
    } else {
        groups_get(gs.drop_first(), k)
    }
}

/// One property's lookup agrees between a statement collection and a
/// serialized object: the property is absent from both, or its member is
/// an array whose elements parse into the group's statements in order.
/// What the statements parser accepts: an object whose every value is
/// an array of acceptable statements.
pub open spec fn statements_accepted(j: Json) -> bool {
    j matches Json::Obj(ps) && forall|g: int|
        0 <= g < ps.len() ==> ((#[trigger] ps[g]).1 matches Json::Arr(items) && forall|q: int|
            0 <= q < items.len() ==> crate::statement::statement_accepted(#[trigger] items[q]))
}

pub open spec fn statements_groups_match(
    gs: Seq<(String, Vec<Statement>)>,
    ps: Seq<(Seq<char>, Json)>,
    k: Seq<char>,
) -> bool {
    match obj_get(ps, k) {
        Some(v) => v matches Json::Arr(items) && (groups_get(gs, k) matches Some(group)
            && items.len() == group.len() && forall|i: int|
            0 <= i < items.len() ==> crate::statement::statement_parsed(
                #[trigger] items[i],
                group[i],
            )),
        None => groups_get(gs, k) is None,
    }
}

/// Adding one group at the end changes only its own property's lookup,
/// and only when that property was absent.
proof fn lemma_groups_get_push_step(
    gs: Seq<(String, Vec<Statement>)>,
    x: (String, Vec<Statement>),
    k: Seq<char>,
)
    ensures
        groups_get(gs.push(x), k) == (if groups_get(gs, k) is Some {
            groups_get(gs, k)
        } else if x.0@ == k {
            Some(x.1@)
        } else {
            None
        }),
    decreases gs.len(),
{
    if gs.len() == 0 {
        assert(gs.push(x)[0] == x);
        assert(gs.push(x).drop_first() =~= Seq::<(String, Vec<Statement>)>::empty());
        assert(groups_get(Seq::<(String, Vec<Statement>)>::empty(), k) is None);
        if x.0@ == k {
            assert(groups_get(gs.push(x), k) == Some(x.1@));
        } else {
            assert(groups_get(gs.push(x), k) == groups_get(
                gs.push(x).drop_first(),
                k,
            ));
        }
    } else {
        assert(gs.push(x)[0] == gs[0]);
        assert(gs.push(x).drop_first() =~= gs.drop_first().push(x));
        lemma_groups_get_push_step(gs.drop_first(), x, k);
    }
}

/// The statements of the first group with the given property key.
pub open spec fn stmts_for(gs: Seq<(String, Vec<Statement>)>, k: Seq<char>) -> Seq<Statement>
    decreases gs.len(),
{
    if gs.len() == 0 {
        Seq::empty()
    } else if gs[0].0@ == k {
        gs[0].1@
    } else {
        stmts_for(gs.drop_first(), k)
    }
}

/// The total number of statements over all groups.
pub open spec fn total_count(gs: Seq<(String, Vec<Statement>)>) -> int
    decreases gs.len(),
{
    if gs.len() == 0 {
        0
    } else {
        gs[0].1@.len() + total_count(gs.drop_first())
    }
}

/// Splitting a statement list at its last element splits its pairs.
proof fn lemma_group_pairs_snoc(ss: Seq<Statement>)
    requires
        ss.len() > 0,
    ensures
        group_pairs(ss) == group_pairs(ss.drop_last()) + (match ss.last().statement_id {
            Some(i) => seq![(i@, spec_statement_json(ss.last()))],
            None => Seq::<(Seq<char>, Json)>::empty(),
        }),
    decreases ss.len(),
{
    let tail = (match ss.last().statement_id {
        Some(i) => seq![(i@, spec_statement_json(ss.last()))],
        None => Seq::<(Seq<char>, Json)>::empty(),
    });
    let head = (match ss[0].statement_id {
        Some(i) => seq![(i@, spec_statement_json(ss[0]))],
        None => Seq::<(Seq<char>, Json)>::empty(),
    });
    if ss.len() == 1 {
        assert(ss.drop_first() =~= Seq::<Statement>::empty());
        assert(ss.drop_last() =~= Seq::<Statement>::empty());
        assert(group_pairs(Seq::empty()) =~= Seq::<(Seq<char>, Json)>::empty());
        assert(ss[0] == ss.last());
        assert(group_pairs(ss) =~= group_pairs(ss.drop_last()) + tail);
    } else {
        lemma_group_pairs_snoc(ss.drop_first());
        assert(ss.drop_first().drop_last() =~= ss.drop_last().drop_first());
        assert(ss.drop_first().last() == ss.last());
        assert(ss.drop_last()[0] == ss[0]);
        assert(head + (group_pairs(ss.drop_first().drop_last()) + tail) =~= (head + group_pairs(
            ss.drop_last().drop_first(),
        )) + tail);
    }
}

/// Splitting a group list at its last group splits its pairs.
proof fn lemma_groups_pairs_snoc(gs: Seq<(String, Vec<Statement>)>)
    requires
        gs.len() > 0,
    ensures
        groups_pairs(gs) == groups_pairs(gs.drop_last()) + group_pairs(gs.last().1@),
    decreases gs.len(),
{
    if gs.len() == 1 {
        assert(gs.drop_first() =~= Seq::<(String, Vec<Statement>)>::empty());
        assert(gs.drop_last() =~= Seq::<(String, Vec<Statement>)>::empty());
        assert(groups_pairs(Seq::empty()) =~= Seq::<(Seq<char>, Json)>::empty());
        assert(gs[0] == gs.last());
        assert(groups_pairs(gs) =~= groups_pairs(gs.drop_last()) + group_pairs(gs.last().1@));
    } else {
        lemma_groups_pairs_snoc(gs.drop_first());
        assert(gs.drop_first().drop_last() =~= gs.drop_last().drop_first());
        assert(gs.drop_first().last() == gs.last());
        assert(gs.drop_last()[0] == gs[0]);
        assert(group_pairs(gs[0].1@) + (groups_pairs(gs.drop_first().drop_last()) + group_pairs(
            gs.last().1@,
        )) =~= (group_pairs(gs[0].1@) + groups_pairs(gs.drop_last().drop_first())) + group_pairs(
            gs.last().1@,
        ));
    }
}

/// A two-step path addressing one statement by ID: `/statements/{id}`.
fn statement_id_path(id: &String) -> (r: Vec<PathToken>)
    ensures
        view_path(r@) == seq![PTok::Key("statements"@), PTok::Key(id@)],
{
    let mut v: Vec<PathToken> = Vec::new();
    v.push(PathToken::Key(String::from_str("statements")));
    v.push(PathToken::Key(id.clone()));
    proof {
        assert(view_path(v@) =~= seq![PTok::Key("statements"@), PTok::Key(id@)]);
    }
    v
}

impl Statements {
    /// The (ID, serialized statement) pairs of this collection.
    pub open spec fn stmt_pairs(self) -> Seq<(Seq<char>, Json)> {
        groups_pairs(self.statements@)
    }

    /// Returns the property groups.
    pub fn statements(&self) -> (r: &Vec<(String, Vec<Statement>)>)
        ensures
            r == &self.statements,
    {
        &self.statements
    }

    /// Returns the response metadata.
    pub fn header_info(&self) -> (r: &HeaderInfo)
        ensures
            r == &self.header_info,
    {
        &self.header_info
    }

    /// True when the collection has no property group.
    pub fn is_empty(&self) -> (r: bool)
        ensures
            r == (self.statements@.len() == 0),
    {
        self.statements.len() == 0
    }

    /// The number of statements over all properties.
    pub fn len(&self) -> (r: usize)
        requires
            total_count(self.statements@) <= usize::MAX,
        ensures
            r == total_count(self.statements@),
    {
        let gs = &self.statements;
        let n = gs.len();
        let mut acc: usize = 0;
        let mut g: usize = 0;
        proof {
            assert(gs@.take(0) =~= Seq::<(String, Vec<Statement>)>::empty());
            assert(gs@.skip(0) =~= gs@);
            lemma_total_count_nonneg(gs@);
        }
        while g < n
            invariant
                0 <= g <= n,
                n == gs@.len(),
                total_count(gs@) <= usize::MAX,
                acc == total_count(gs@.take(g as int)),
                acc + total_count(gs@.skip(g as int)) == total_count(gs@),
            decreases n - g,
        {
            proof {
                assert(gs@.skip(g as int)[0] == gs@[g as int]);
                assert(gs@.skip(g as int).drop_first() =~= gs@.skip(g as int + 1));
                assert(total_count(gs@.skip(g as int)) == gs@[g as int].1@.len() + total_count(
                    gs@.skip(g as int + 1),
                ));
                lemma_total_count_nonneg(gs@.skip(g as int + 1));
                assert(gs@.take(g as int + 1).drop_last() =~= gs@.take(g as int));
                assert(gs@.take(g as int + 1).last() == gs@[g as int]);
                lemma_total_count_snoc(gs@.take(g as int + 1));
            }
            acc = acc + gs[g].1.len();
            g = g + 1;
        }
        proof {
            assert(gs@.take(n as int) =~= gs@);
        }
        acc
    }

    /// The statements of the first group for the given property.
    pub fn property<'a>(&'a self, property: &str) -> (r: Vec<&'a Statement>)
        ensures
            r@.len() == stmts_for(self.statements@, property@).len(),
            forall|i: int|
                0 <= i < r@.len() ==> *(#[trigger] r@[i]) == stmts_for(
                    self.statements@,
                    property@,
                )[i],
    {
        let gs = &self.statements;
        let n = gs.len();
        let mut g: usize = 0;
        proof {
            assert(gs@.skip(0) =~= gs@);
        }
        while g < n && !str_eq(gs[g].0.as_str(), property)
            invariant
                0 <= g <= n,
                n == gs@.len(),
                forall|p: int| 0 <= p < g ==> (#[trigger] gs@[p]).0@ != property@,
                stmts_for(gs@, property@) == stmts_for(gs@.skip(g as int), property@),
            decreases n - g,
        {
            proof {
                assert(gs@.skip(g as int)[0] == gs@[g as int]);
                assert(gs@.skip(g as int).drop_first() =~= gs@.skip(g as int + 1));
            }
            g = g + 1;
        }
        let mut r: Vec<&'a Statement> = Vec::new();
        if g < n {
            proof {
                assert(gs@.skip(g as int)[0] == gs@[g as int]);
                assert(stmts_for(gs@, property@) == gs@[g as int].1@);
            }
            let group = &gs[g].1;
            let m = group.len();
            let mut s: usize = 0;
            while s < m
                invariant
                    0 <= s <= m,
                    m == group@.len(),
                    r@.len() == s,
                    forall|i: int| 0 <= i < s ==> *(#[trigger] r@[i]) == group@[i],
                decreases m - s,
            {
                r.push(&group[s]);
                s = s + 1;
            }
            proof {
                assert(group@ == stmts_for(gs@, property@));
            }
        } else {
            proof {
                assert(gs@.skip(n as int) =~= Seq::<(String, Vec<Statement>)>::empty());
                assert(stmts_for(gs@, property@).len() == 0);
            }
        }
        r
    }

    /// Inserts a statement under its property: appended to the first
    /// group with that key, or opening a new group at the end; every
    /// other key's group is untouched.
    pub fn insert(&mut self, statement: Statement)
        ensures
            final(self).statements@.len() >= old(self).statements@.len(),
            total_count(final(self).statements@) == total_count(old(self).statements@) + 1,
            groups_get(final(self).statements@, statement.property.id@) == Some(
                match groups_get(old(self).statements@, statement.property.id@) {
                    Some(ss) => ss.push(statement),
                    None => seq![statement],
                },
            ),
            forall|k: Seq<char>|
                k != statement.property.id@ ==> groups_get(final(self).statements@, k)
                    == groups_get(old(self).statements@, k),
            final(self).header_info == old(self).header_info,
    {
        let key = statement.property().id().to_owned();
        let n = self.statements.len();
        let mut g: usize = 0;
        while g < n && !str_eq(self.statements[g].0.as_str(), key.as_str())
            invariant
                0 <= g <= n,
                n == self.statements@.len(),
                *self == *old(self),
                key@ == statement.property.id@,
                forall|q: int|
                    0 <= q < g ==> (#[trigger] self.statements@[q]).0@ != key@,
            decreases n - g,
        {
            g = g + 1;
        }
        if g < n {
            let ghost gs0 = self.statements@;
            proof {
                assert(gs0[g as int].0@ == key@);
                lemma_groups_get_index(gs0, g as int, key@);
            }
            let pair = self.statements.remove(g);
            let gkey = pair.0;
            let mut gvec = pair.1;
            gvec.push(statement);
            self.statements.insert(g, (gkey, gvec));
            proof {
                assert forall|p: int|
                    0 <= p < gs0.len() && p != g implies #[trigger] self.statements@[p]
                    == gs0[p] by {
                    if p < g {
                        assert(self.statements@[p] == gs0.remove(g as int).insert(
                            g as int,
                            self.statements@[g as int],
                        )[p]);
                    }
                }
                assert(self.statements@[g as int].1@.len() == gs0[g as int].1@.len() + 1);
                lemma_total_count_update(gs0, g as int, self.statements@);
                assert(self.statements@[g as int].0@ == key@);
                assert(self.statements@[g as int].1@ == gs0[g as int].1@.push(statement));
                assert(forall|q: int|
                    0 <= q < g ==> (#[trigger] self.statements@[q]).0@ != key@);
                lemma_groups_get_index(self.statements@, g as int, key@);
                assert forall|k: Seq<char>| k != key@ implies groups_get(
                    self.statements@,
                    k,
                ) == groups_get(gs0, k) by {
                    lemma_groups_get_same_except(gs0, self.statements@, g as int, k);
                }
            }
        } else {
            let ghost gs0 = self.statements@;
            proof {
                assert(forall|q: int|
                    0 <= q < gs0.len() ==> (#[trigger] gs0[q]).0@ != key@);
                lemma_groups_get_absent(gs0, key@);
            }
            let mut fresh: Vec<Statement> = Vec::new();
            fresh.push(statement);
            self.statements.push((key, fresh));
            proof {
                assert(self.statements@.drop_last() =~= gs0);
                lemma_total_count_snoc(self.statements@);
                assert(self.statements@ =~= gs0.push(self.statements@.last()));
                assert(self.statements@.last().0@ == statement.property.id@);
                assert(self.statements@.last().1@ =~= seq![statement]);
                assert forall|k: Seq<char>| #[trigger] groups_get(self.statements@, k)
                    == (if k == statement.property.id@ {
                    Some(seq![statement])
                } else {
                    groups_get(gs0, k)
                }) by {
                    lemma_groups_get_push_step(gs0, self.statements@.last(), k);
                }
            }
        }
    }

    /// True when some statement in the collection has no ID.
    pub fn has_nameless(&self) -> (r: bool)
        ensures
            r == any_nameless(self.statements@),
    {
        let gs = &self.statements;
        let n = gs.len();
        let mut g: usize = 0;
        while g < n
            invariant
                0 <= g <= n,
                n == gs@.len(),
                gs@ == self.statements@,
                forall|p: int, s: int|
                    #![trigger gs@[p].1@[s]]
                    0 <= p < g && 0 <= s < gs@[p].1@.len() ==> !(gs@[p].1@[s].statement_id
                        is None),
            decreases n - g,
        {
            let group = &gs[g].1;
            let m = group.len();
            let mut s: usize = 0;
            while s < m
                invariant
                    0 <= s <= m,
                    m == group@.len(),
                    group@ == gs@[g as int].1@,
                    0 <= g < n,
                    n == gs@.len(),
                    gs@ == self.statements@,
                    forall|q: int| 0 <= q < s ==> !((#[trigger] group@[q]).statement_id is None),
                decreases m - s,
            {
                if group[s].id().is_none() {
                    proof {
                        let wg = g as int;
                        let ws = s as int;
                        assert(0 <= wg < self.statements@.len() && 0 <= ws
                            < self.statements@[wg].1@.len() && self.statements@[wg].1@[ws]
                            .statement_id is None);
                        assert(any_nameless(self.statements@));
                    }
                    return true;
                }
                s = s + 1;
            }
            g = g + 1;
        }
        false
    }

    /// Flattens the collection into its (ID, serialized statement) pairs,
    /// in group order; statements without an ID are left out.
    fn flatten(&self) -> (r: Vec<(String, JsonValue)>)
        ensures
            view_pairs(r@) == groups_pairs(self.statements@),
            forall|q: int| 0 <= q < r@.len() ==> ((#[trigger] view_pairs(r@)[q]).1).wf(),
    {
        let gs = &self.statements;
        let n = gs.len();
        let mut out: Vec<(String, JsonValue)> = Vec::new();
        proof {
            assert(view_pairs(out@) =~= Seq::<(Seq<char>, Json)>::empty());
            assert(gs@.take(0) =~= Seq::<(String, Vec<Statement>)>::empty());
            assert(groups_pairs(gs@.take(0)) =~= Seq::<(Seq<char>, Json)>::empty());
        }
        let mut g: usize = 0;
        while g < n
            invariant
                0 <= g <= n,
                n == gs@.len(),
                view_pairs(out@) == groups_pairs(gs@.take(g as int)),
                forall|q: int| 0 <= q < out@.len() ==> ((#[trigger] view_pairs(out@)[q]).1).wf(),
            decreases n - g,
        {
            let group = &gs[g].1;
            let m = group.len();
            proof {
                assert(group@.take(0) =~= Seq::<Statement>::empty());
                assert(group_pairs(group@.take(0)) =~= Seq::<(Seq<char>, Json)>::empty());
                assert(view_pairs(out@) + group_pairs(group@.take(0)) =~= view_pairs(out@));
            }
            let ghost out_g = view_pairs(out@);
            let mut s: usize = 0;
            while s < m
                invariant
                    0 <= s <= m,
                    m == group@.len(),
                    group@ == gs@[g as int].1@,
                    0 <= g < n,
                    n == gs@.len(),
                    out_g == groups_pairs(gs@.take(g as int)),
                    view_pairs(out@) == out_g + group_pairs(group@.take(s as int)),
                    forall|q: int|
                        0 <= q < out@.len() ==> ((#[trigger] view_pairs(out@)[q]).1).wf(),
                decreases m - s,
            {
                proof {
                    assert(group@.take(s as int + 1).drop_last() =~= group@.take(s as int));
                    assert(group@.take(s as int + 1).last() == group@[s as int]);
                    lemma_group_pairs_snoc(group@.take(s as int + 1));
                }
                match group[s].id() {
                    Some(_) => {
                        let ghost before = view_pairs(out@);
                        let sid = match group[s].id() {
                            Some(i) => i.clone(),
                            None => String::new(),
                        };
                        let sj = group[s].to_json();
                        out.push((sid, sj));
                        proof {
                            assert(view_pairs(out@) =~= before.push(
                                (group@[s as int].statement_id->0@, spec_statement_json(
                                    group@[s as int],
                                )),
                            ));
                            assert(view_pairs(out@) =~= out_g + group_pairs(
                                group@.take(s as int + 1),
                            ));
                        }
                    },
                    None => {
                        proof {
                            assert(group_pairs(group@.take(s as int + 1)) =~= group_pairs(
                                group@.take(s as int),
                            ));
                        }
                    },
                }
                s = s + 1;
            }
            proof {
                assert(group@.take(m as int) =~= group@);
                assert(gs@.take(g as int + 1).drop_last() =~= gs@.take(g as int));
                assert(gs@.take(g as int + 1).last() == gs@[g as int]);
                lemma_groups_pairs_snoc(gs@.take(g as int + 1));
                assert(view_pairs(out@) =~= groups_pairs(gs@.take(g as int + 1)));
            }
            g = g + 1;
        }
        proof {
            assert(gs@.take(n as int) =~= gs@);
        }
        out
    }

    /// Serializes the collection: an object with each property's
    /// statement array under its sorted key.
    pub fn to_json(&self) -> (r: JsonValue)
        ensures
            r@ == Json::Obj(statements_obj(self.statements@)),
            r@.wf(),
    {
        let gs = &self.statements;
        let n = gs.len();
        let mut acc: Vec<(String, JsonValue)> = Vec::new();
        proof {
            assert(view_pairs(acc@) =~= Seq::<(Seq<char>, Json)>::empty());
            assert(gs@.take(0) =~= Seq::<(String, Vec<Statement>)>::empty());
            assert(statements_obj(gs@.take(0)) =~= Seq::<(Seq<char>, Json)>::empty());
        }
        let mut g: usize = 0;
        while g < n
            invariant
                0 <= g <= n,
                n == gs@.len(),
                gs@ == self.statements@,
                view_pairs(acc@) == statements_obj(gs@.take(g as int)),
                crate::json::keys_sorted(view_pairs(acc@)),
                crate::json::pairs_wf(view_pairs(acc@)),
            decreases n - g,
        {
            let group = &gs[g].1;
            let m = group.len();
            let mut items: Vec<JsonValue> = Vec::new();
            let mut s: usize = 0;
            while s < m
                invariant
                    0 <= s <= m,
                    m == group@.len(),
                    items@.len() == s,
                    forall|q: int| 0 <= q < s ==> (#[trigger] items@[q])@ == spec_statement_json(
                        group@[q],
                    ),
                    forall|q: int| 0 <= q < s ==> ((#[trigger] items@[q])@).wf(),
                decreases m - s,
            {
                items.push(group[s].to_json());
                s = s + 1;
            }
            let ghost iseq = items@;
            let arr = JsonValue::Array(items);
            proof {
                assert(arr@ == Json::Arr(crate::json::view_elems(iseq)));
                assert(crate::json::view_elems(iseq) =~= group_json(group@));
                assert forall|q: int|
                    0 <= q < group_json(group@).len() implies (#[trigger] group_json(group@)[q])
                    .wf() by {
                    assert(group_json(group@)[q] == crate::json::view_elems(iseq)[q]);
                    assert(crate::json::view_elems(iseq)[q] == iseq[q]@);
                }
                crate::json::lemma_all_wf_from_forall(group_json(group@));
                assert(gs@.take(g as int + 1).drop_last() =~= gs@.take(g as int));
                assert(gs@.take(g as int + 1).last() == gs@[g as int]);
                crate::json::lemma_obj_upsert_sorted(
                    view_pairs(acc@),
                    gs@[g as int].0@,
                    Json::Arr(group_json(gs@[g as int].1@)),
                );
                crate::json::lemma_obj_upsert_wf(
                    view_pairs(acc@),
                    gs@[g as int].0@,
                    Json::Arr(group_json(gs@[g as int].1@)),
                );
            }
            let next = crate::apply::obj_insert_sorted(&acc, gs[g].0.as_str(), arr);
            acc = next;
            g = g + 1;
        }
        proof {
            assert(gs@.take(n as int) =~= gs@);
        }
        JsonValue::Object(acc)
    }

    /// Parses statements out of an object of per-property arrays.
    pub fn from_json(j: &JsonValue) -> (r: Result<Statements, RestApiError>)
        ensures
            r matches Ok(st) ==> (j@ matches Json::Obj(ps) && forall|k: Seq<char>|
                #[trigger] statements_groups_match(st.statements@, ps, k)),
            r is Err ==> !statements_accepted(j@),
    {
        let pairs = match j {
            JsonValue::Object(pairs) => pairs,
            _ => {
                return Err(
                    RestApiError::MissingOrInvalidField {
                        field: String::from_str("statements"),
                        j: json_clone(j),
                    },
                );
            },
        };
        let ghost ps = view_pairs(pairs@);
        proof {
            assert(j@ == Json::Obj(ps));
        }
        let n = pairs.len();
        let mut groups: Vec<(String, Vec<Statement>)> = Vec::new();
        let mut i: usize = 0;
        proof {
            assert(ps.take(0) =~= Seq::<(Seq<char>, Json)>::empty());
        }
        while i < n
            invariant
                0 <= i <= n,
                n == pairs@.len(),
                ps == view_pairs(pairs@),
                j@ == Json::Obj(ps),
                forall|k: Seq<char>|
                    #[trigger] statements_groups_match(groups@, ps.take(i as int), k),
            decreases n - i,
        {
            proof {
                assert(ps[i as int] == (pairs@[i as int].0@, pairs@[i as int].1@));
            }
            let items = match &pairs[i].1 {
                JsonValue::Array(items) => items,
                _ => {
                    proof {
                        assert(ps.len() == n);
                        assert(!(ps[i as int].1 is Arr));
                        assert(!statements_accepted(j@)) by {
                            if statements_accepted(j@) {
                                match j@ {
                                    Json::Obj(ps2) => {
                                        assert(ps2 == ps);
                                        assert(ps2[i as int].1 is Arr);
                                    },
                                    _ => {},
                                }
                            }
                        }
                    }
                    return Err(
                        RestApiError::MissingOrInvalidField {
                            field: pairs[i].0.clone(),
                            j: json_clone(&pairs[i].1),
                        },
                    );
                },
            };
            let ghost vv = crate::json::view_elems(items@);
            proof {
                assert(ps[i as int].1 == Json::Arr(vv));
            }
            let m = items.len();
            let mut group: Vec<Statement> = Vec::new();
            let mut s: usize = 0;
            while s < m
                invariant
                    0 <= s <= m,
                    m == items@.len(),
                    0 <= i < n,
                    n == pairs@.len(),
                    ps == view_pairs(pairs@),
                    j@ == Json::Obj(ps),
                    vv == crate::json::view_elems(items@),
                    ps[i as int].1 == Json::Arr(vv),
                    group@.len() == s,
                    forall|q: int|
                        0 <= q < s ==> crate::statement::statement_parsed(
                            crate::json::view_elems(items@)[q],
                            #[trigger] group@[q],
                        ),
                decreases m - s,
            {
                proof {
                    assert(crate::json::view_elems(items@)[s as int] == items@[s as int]@);
                }
                match Statement::from_json(&items[s]) {
                    Ok(st) => {
                        group.push(st);
                    },
                    Err(e) => {
                        proof {
                            assert(ps.len() == pairs@.len());
                            assert(vv.len() == m);
                            assert(!crate::statement::statement_accepted(vv[s as int]));
                            assert(!statements_accepted(j@)) by {
                                if statements_accepted(j@) {
                                    match j@ {
                                        Json::Obj(ps2) => {
                                            assert(ps2 == ps);
                                            match ps2[i as int].1 {
                                                Json::Arr(its) => {
                                                    assert(its == vv);
                                                    assert(crate::statement::statement_accepted(
                                                        its[s as int],
                                                    ));
                                                },
                                                _ => {},
                                            }
                                        },
                                        _ => {},
                                    }
                                }
                            }
                        }
                        return Err(e);
                    },
                }
                s = s + 1;
            }
            let ghost before = groups@;
            groups.push((pairs[i].0.clone(), group));
            proof {
                crate::language_strings::lemma_obj_get_take_snoc(ps, i as int);
                assert forall|k: Seq<char>|
                    #[trigger] statements_groups_match(groups@, ps.take(i as int + 1), k) by {
                    assert(statements_groups_match(before, ps.take(i as int), k));
                    lemma_groups_get_push_step(before, groups@.last(), k);
                }
            }
            i = i + 1;
        }
        proof {
            assert(ps.take(n as int) =~= ps);
        }
        Ok(Statements { statements: groups, header_info: HeaderInfo::default() })
    }

    /// Parses statements and attaches the given response metadata.
    pub fn from_json_header_info(j: &JsonValue, header_info: HeaderInfo) -> (r: Result<
        Statements,
        RestApiError,
    >)
        ensures
            r matches Ok(st) ==> ((j@ matches Json::Obj(ps) && forall|k: Seq<char>|
                #[trigger] statements_groups_match(st.statements@, ps, k))
                && st.header_info == header_info),
            r is Err ==> !statements_accepted(j@),
    {
        match Self::from_json(j) {
            Ok(st) => Ok(Statements { statements: st.statements, header_info }),
            Err(e) => Err(e),
        }
    }

    /// Computes the patch that transforms this collection into `other`,
    /// reconciling by statement ID: an ID only here is removed, an ID only
    /// in `other` is added with its full body, and matched IDs are diffed
    /// recursively.  A target statement without an ID is rejected.
    ///
    /// The patch is empty exactly when both sides carry the same IDs with
    /// the same serialized statements, wherever in the collections they
    /// sit: identity decides, never position.
    pub fn patch(&self, other: &Statements) -> (r: Result<StatementsPatch, RestApiError>)
        ensures
            match r {
                Ok(p) => {
                    &&& !any_nameless(other.statements@)
                    &&& ((p.patch@.len() == 0) <==> obj_get_equal(
                        self.stmt_pairs(),
                        other.stmt_pairs(),
                    ))
                    &&& reconciler_entries(
                        self.stmt_pairs(),
                        other.stmt_pairs(),
                        view_entries(p.patch@),
                    )
                },
                Err(e) => e is MissingId && any_nameless(other.statements@),
            },
    {
        if other.has_nameless() {
            return Err(RestApiError::MissingId);
        }
        let fp = self.flatten();
        let tp = other.flatten();
        let ghost fs = view_pairs(fp@);
        let ghost ts = view_pairs(tp@);
        let fn_len = fp.len();
        let tn_len = tp.len();
        let mut out = StatementsPatch::default();
        proof {
            assert(view_entries(out.patch@) =~= Seq::<Entry>::empty());
        }
        let mut i: usize = 0;
        while i < fn_len
            invariant
                0 <= i <= fn_len,
                fn_len == fp@.len(),
                tn_len == tp@.len(),
                fs == view_pairs(fp@),
                ts == view_pairs(tp@),
                fs == groups_pairs(self.statements@),
                ts == groups_pairs(other.statements@),
                from_entries(fs, ts, i as int, view_entries(out.patch@)),
                forall|q: int| 0 <= q < fp@.len() ==> ((#[trigger] view_pairs(fp@)[q]).1).wf(),
                forall|q: int| 0 <= q < tp@.len() ==> ((#[trigger] view_pairs(tp@)[q]).1).wf(),
                out.patch@.len() == 0 ==> forall|p: int|
                    0 <= p < i ==> obj_get(ts, (#[trigger] fs[p]).0) == obj_get(fs, fs[p].0),
                (forall|k: Seq<char>| obj_get(fs, k) == obj_get(ts, k)) ==> out.patch@.len()
                    == 0,
            decreases fn_len - i,
        {
            proof {
                assert(fs[i as int] == (fp@[i as int].0@, fp@[i as int].1@));
            }
            // skip an ID already handled at an earlier position
            let mut dup = false;
            let mut p: usize = 0;
            while p < i
                invariant
                    0 <= p <= i < fn_len,
                    fn_len == fp@.len(),
                    fs == view_pairs(fp@),
                    dup ==> exists|q: int| 0 <= q < i && (#[trigger] fs[q]).0 == fs[i as int].0,
                    !dup ==> forall|q: int| 0 <= q < p ==> (#[trigger] fs[q]).0 != fs[i as int].0,
                decreases i - p,
            {
                proof {
                    assert(fs[p as int] == (fp@[p as int].0@, fp@[p as int].1@));
                    assert(fs[i as int] == (fp@[i as int].0@, fp@[i as int].1@));
                }
                if str_eq(fp[p].0.as_str(), fp[i].0.as_str()) {
                    proof {
                        assert(fs[p as int].0 == fs[i as int].0);
                    }
                    dup = true;
                }
                p = p + 1;
            }
            if dup {
                proof {
                    if out.patch@.len() == 0 {
                        let q0 = choose|q: int|
                            0 <= q < i && (#[trigger] fs[q]).0 == fs[i as int].0;
                        assert(obj_get(ts, fs[q0].0) == obj_get(fs, fs[q0].0));
                    }
                    let es = view_entries(out.patch@);
                    assert(es.take(es.len() as int) =~= es);
                    assert(es.skip(es.len() as int) =~= Seq::<Entry>::empty());
                    assert(from_step(fs, ts, i as int, es.skip(es.len() as int)));
                    assert(from_entries(fs, ts, i as int + 1, es));
                }
            } else {
                proof {
                    lemma_obj_get_at(fs, fs[i as int].0, i as int);
                }
                // find the first statement with this ID on the other side
                let mut m: usize = 0;
                while m < tn_len && !str_eq(tp[m].0.as_str(), fp[i].0.as_str())
                    invariant
                        0 <= m <= tn_len,
                        tn_len == tp@.len(),
                        ts == view_pairs(tp@),
                        fs == view_pairs(fp@),
                        0 <= i < fn_len,
                        fn_len == fp@.len(),
                        forall|q: int| 0 <= q < m ==> (#[trigger] ts[q]).0 != fs[i as int].0,
                    decreases tn_len - m,
                {
                    proof {
                        assert(ts[m as int] == (tp@[m as int].0@, tp@[m as int].1@));
                        assert(fs[i as int] == (fp@[i as int].0@, fp@[i as int].1@));
                    }
                    m = m + 1;
                }
                if m < tn_len {
                    // matched: diff the two serialized statements
                    proof {
                        assert(ts[m as int] == (tp@[m as int].0@, tp@[m as int].1@));
                        assert(ts[m as int].0 == fs[i as int].0);
                        lemma_obj_get_at(ts, fs[i as int].0, m as int);
                        assert(fp@[i as int].1@.wf());
                        assert(tp@[m as int].1@.wf());
                    }
                    let mut sub = diff_values(&fp[i].1, &tp[m].1);
                    let ghost subviews = crate::patch_entry::view_entries(sub@);
                    let ghost old_len = out.patch@.len();
                    let ghost oldes = view_entries(out.patch@);
                    out.patch.append(&mut sub);
                    proof {
                        let es = view_entries(out.patch@);
                        assert(es.take(old_len as int) =~= oldes);
                        assert(es.skip(old_len as int) =~= subviews);
                        assert(obj_get(ts, fs[i as int].0) == Some(ts[m as int].1));
                        assert(edit_block(fs[i as int].1, ts[m as int].1, subviews));
                        assert(from_step(fs, ts, i as int, es.skip(old_len as int)));
                        assert(from_entries(fs, ts, i as int + 1, es));
                        if out.patch@.len() == 0 {
                            assert(old_len == 0);
                            assert(subviews.len() == 0);
                            assert(fp@[i as int].1@ == tp@[m as int].1@);
                            assert forall|q: int| 0 <= q < i + 1 implies obj_get(
                                ts,
                                (#[trigger] fs[q]).0,
                            ) == obj_get(fs, fs[q].0) by {
                                if q == i {
                                    assert(obj_get(fs, fs[q].0) == Some(fs[i as int].1));
                                    assert(obj_get(ts, fs[q].0) == Some(ts[m as int].1));
                                    assert(fs[i as int].1 == ts[m as int].1);
                                }
                            }
                        }
                        if forall|k: Seq<char>| obj_get(fs, k) == obj_get(ts, k) {
                            assert(obj_get(fs, fs[i as int].0) == obj_get(ts, fs[i as int].0));
                            assert(obj_get(fs, fs[i as int].0) == Some(fs[i as int].1));
                            assert(obj_get(ts, fs[i as int].0) == Some(ts[m as int].1));
                            assert(fs[i as int].1 == ts[m as int].1);
                            assert(fp@[i as int].1@ == tp@[m as int].1@);
                            assert(subviews.len() == 0);
                            assert(sub@.len() == 0);
                        }
                    }
                } else {
                    // only on the from side: remove by ID
                    proof {
                        lemma_obj_get_absent(ts, fs[i as int].0);
                    }
                    let ghost old_len = out.patch@.len();
                    let ghost oldes = view_entries(out.patch@);
                    out.remove(statement_id_path(&fp[i].0));
                    proof {
                        let es = view_entries(out.patch@);
                        assert(es.take(old_len as int) =~= oldes);
                        assert(es.skip(old_len as int) =~= seq![removal_entry(fs[i as int].0)]);
                        assert(from_step(fs, ts, i as int, es.skip(old_len as int)));
                        assert(from_entries(fs, ts, i as int + 1, es));
                        if forall|k: Seq<char>| obj_get(fs, k) == obj_get(ts, k) {
                            assert(obj_get(fs, fs[i as int].0) == obj_get(ts, fs[i as int].0));
                            assert(obj_get(fs, fs[i as int].0) is Some);
                            assert(obj_get(ts, fs[i as int].0) is None);
                            assert(false);
                        }
                    }
                }
            }
            i = i + 1;
        }
        // add statements whose ID is only on the other side
        let ghost nsplit = out.patch@.len();
        let ghost firstes = view_entries(out.patch@);
        proof {
            assert(from_entries(fs, ts, fn_len as int, firstes));
            assert(view_entries(out.patch@).take(nsplit as int) =~= firstes);
            assert(view_entries(out.patch@).skip(nsplit as int) =~= Seq::<Entry>::empty());
        }
        let mut j: usize = 0;
        while j < tn_len
            invariant
                0 <= j <= tn_len,
                fn_len == fp@.len(),
                tn_len == tp@.len(),
                fs == view_pairs(fp@),
                ts == view_pairs(tp@),
                fs == groups_pairs(self.statements@),
                ts == groups_pairs(other.statements@),
                nsplit <= out.patch@.len(),
                view_entries(out.patch@).take(nsplit as int) == firstes,
                from_entries(fs, ts, fn_len as int, firstes),
                to_entries(fs, ts, j as int, view_entries(out.patch@).skip(nsplit as int)),
                forall|q: int| 0 <= q < tp@.len() ==> ((#[trigger] view_pairs(tp@)[q]).1).wf(),
                out.patch@.len() == 0 ==> forall|p: int|
                    0 <= p < fp@.len() ==> obj_get(ts, (#[trigger] fs[p]).0) == obj_get(
                        fs,
                        fs[p].0,
                    ),
                out.patch@.len() == 0 ==> forall|q: int|
                    0 <= q < j ==> obj_get(fs, (#[trigger] ts[q]).0) is Some,
                (forall|k: Seq<char>| obj_get(fs, k) == obj_get(ts, k)) ==> out.patch@.len()
                    == 0,
            decreases tn_len - j,
        {
            proof {
                assert(ts[j as int] == (tp@[j as int].0@, tp@[j as int].1@));
            }
            let mut m: usize = 0;
            while m < fn_len && !str_eq(fp[m].0.as_str(), tp[j].0.as_str())
                invariant
                    0 <= m <= fn_len,
                    fn_len == fp@.len(),
                    tn_len == tp@.len(),
                    fs == view_pairs(fp@),
                    ts == view_pairs(tp@),
                    0 <= j < tn_len,
                    forall|q: int| 0 <= q < m ==> (#[trigger] fs[q]).0 != ts[j as int].0,
                decreases fn_len - m,
            {
                proof {
                    assert(fs[m as int] == (fp@[m as int].0@, fp@[m as int].1@));
                    assert(ts[j as int] == (tp@[j as int].0@, tp@[j as int].1@));
                }
                m = m + 1;
            }
            if m < fn_len {
                proof {
                    assert(fs[m as int] == (fp@[m as int].0@, fp@[m as int].1@));
                    assert(fs[m as int].0 == ts[j as int].0);
                    lemma_obj_get_at(fs, ts[j as int].0, m as int);
                    let tail = view_entries(out.patch@).skip(nsplit as int);
                    assert(tail.take(tail.len() as int) =~= tail);
                    assert(tail.skip(tail.len() as int) =~= Seq::<Entry>::empty());
                    assert(to_step(fs, ts, j as int, tail.skip(tail.len() as int)));
                    assert(to_entries(fs, ts, j as int + 1, tail));
                }
            } else {
                proof {
                    lemma_obj_get_absent(fs, ts[j as int].0);
                    crate::json::lemma_obj_get_contains(ts, j as int);
                }
                let ghost old_len = out.patch@.len();
                let ghost oldes = view_entries(out.patch@);
                out.add(statement_id_path(&tp[j].0), json_clone(&tp[j].1));
                proof {
                    let es = view_entries(out.patch@);
                    assert(es.take(old_len as int) =~= oldes);
                    assert(es.take(nsplit as int) =~= oldes.take(nsplit as int));
                    let tail = es.skip(nsplit as int);
                    let oldtail = oldes.skip(nsplit as int);
                    assert(tail.take(old_len - nsplit) =~= oldtail);
                    assert(tail.skip(old_len - nsplit) =~= seq![
                        addition_entry(ts[j as int].0, ts[j as int].1),
                    ]);
                    assert(to_step(fs, ts, j as int, tail.skip(old_len - nsplit)));
                    assert(to_entries(fs, ts, j as int + 1, tail));
                    if forall|k: Seq<char>| obj_get(fs, k) == obj_get(ts, k) {
                        assert(obj_get(ts, ts[j as int].0) == obj_get(fs, ts[j as int].0));
                        assert(obj_get(ts, ts[j as int].0) is Some);
                        assert(obj_get(fs, ts[j as int].0) is None);
                        assert(false);
                    }
                }
            }
            j = j + 1;
        }
        proof {
            assert(fs.len() == fn_len && ts.len() == tn_len);
            assert(view_entries(out.patch@).take(nsplit as int) == firstes);
            assert(from_entries(fs, ts, fn_len as int, view_entries(out.patch@).take(
                nsplit as int,
            )));
            assert(to_entries(fs, ts, tn_len as int, view_entries(out.patch@).skip(
                nsplit as int,
            )));
            assert(0 <= nsplit as int <= view_entries(out.patch@).len());
            assert(reconciler_entries(
                self.stmt_pairs(),
                other.stmt_pairs(),
                view_entries(out.patch@),
            ));
            if out.patch@.len() == 0 {
                assert forall|k: Seq<char>| #[trigger] obj_get(fs, k) == obj_get(ts, k) by {
                    if obj_get(fs, k) is Some {
                        lemma_obj_get_some_index(fs, k);
                        let p = choose|p: int| 0 <= p < fs.len() && (#[trigger] fs[p]).0 == k;
                        assert(obj_get(ts, fs[p].0) == obj_get(fs, fs[p].0));
                    } else {
                        if obj_get(ts, k) is Some {
                            lemma_obj_get_some_index(ts, k);
                            let q = choose|q: int|
                                0 <= q < ts.len() && (#[trigger] ts[q]).0 == k;
                            assert(obj_get(fs, ts[q].0) is Some);
                            assert(false);
                        }
                    }
                }
            }
        }
        Ok(out)
    }
}

/// The running total splits at the last group.
proof fn lemma_total_count_snoc(gs: Seq<(String, Vec<Statement>)>)
    requires
        gs.len() > 0,
    ensures
        total_count(gs) == total_count(gs.drop_last()) + gs.last().1@.len(),
    decreases gs.len(),
{
    if gs.len() == 1 {
        assert(gs.drop_first() =~= Seq::<(String, Vec<Statement>)>::empty());
        assert(gs.drop_last() =~= Seq::<(String, Vec<Statement>)>::empty());
        assert(gs[0] == gs.last());
    } else {
        lemma_total_count_snoc(gs.drop_first());
        assert(gs.drop_first().drop_last() =~= gs.drop_last().drop_first());
        assert(gs.drop_first().last() == gs.last());
        assert(gs.drop_last()[0] == gs[0]);
    }
}

/// The running total is never negative.
proof fn lemma_total_count_nonneg(gs: Seq<(String, Vec<Statement>)>)
    ensures
        total_count(gs) >= 0,
    decreases gs.len(),
{
    if gs.len() > 0 {
        lemma_total_count_nonneg(gs.drop_first());
    }
}

/// Replacing one group by the same group with one more statement raises
/// the total by one.
proof fn lemma_total_count_update(
    gs0: Seq<(String, Vec<Statement>)>,
    g: int,
    gs1: Seq<(String, Vec<Statement>)>,
)
    requires
        0 <= g < gs0.len(),
        gs1.len() == gs0.len(),
        forall|p: int| 0 <= p < gs0.len() && p != g ==> #[trigger] gs1[p] == gs0[p],
        gs1[g].1@.len() == gs0[g].1@.len() + 1,
    ensures
        total_count(gs1) == total_count(gs0) + 1,
    decreases gs0.len(),
{
    if g == 0 {
        assert(gs1.drop_first() =~= gs0.drop_first());
    } else {
        assert(gs1[0] == gs0[0]);
        assert(forall|p: int|
            0 <= p < gs0.drop_first().len() && p != g - 1 ==> #[trigger] gs1.drop_first()[p]
                == gs0.drop_first()[p]);
        assert(gs1.drop_first()[g - 1] == gs1[g]);
        assert(gs0.drop_first()[g - 1] == gs0[g]);
        lemma_total_count_update(gs0.drop_first(), g - 1, gs1.drop_first());
    }
}

} // verus!
