//! A single structural edit operation.
//!
//! A `PatchEntry` is one `add` / `replace` / `remove` operation addressed by
//! a path of tokens (object keys and array indices).  Its model is `Entry`.

use vstd::prelude::*;
use crate::json::{Json, JsonValue, json_clone};

verus! {

/// The three JSON-patch operations the differ emits.
#[derive(Clone, Copy, PartialEq, Eq, Structural, Debug)]
pub enum PatchOp {
    Add,
    Replace,
    Remove,
}

/// One step of a patch path: an object key or an array index.
#[derive(Debug)]
pub enum PathToken {
    Key(String),
    Idx(usize),
}

/// Model of a path step.
pub enum PTok {
    Key(Seq<char>),
    Idx(int),
}

impl View for PathToken {
    type V = PTok;

    open spec fn view(&self) -> PTok {
        match self {
            PathToken::Key(s) => PTok::Key(s@),
            PathToken::Idx(n) => PTok::Idx(*n as int),
        }
    }
}

/// The models of the steps of a path.
pub open spec fn view_path(s: Seq<PathToken>) -> Seq<PTok> {
    Seq::new(s.len(), |i: int| s[i]@)
}

/// Model of an option of a tree.
pub open spec fn view_opt(v: Option<JsonValue>) -> Option<Json> {
    match v {
        Some(w) => Some(w@),
        None => None,
    }
}

/// Model of a single patch operation.
pub struct Entry {
    pub op: PatchOp,
    pub path: Seq<PTok>,
    pub value: Option<Json>,
}

/// A single structural edit operation: an operation, a path, and for `add`
/// and `replace` a value.
#[derive(Debug)]
pub struct PatchEntry {
    pub op: PatchOp,
    pub path: Vec<PathToken>,
    pub value: Option<JsonValue>,
}

impl View for PatchEntry {
    type V = Entry;

    open spec fn view(&self) -> Entry {
        Entry { op: self.op, path: view_path(self.path@), value: view_opt(self.value) }
    }
}

/// The models of a list of patch operations.
pub open spec fn view_entries(s: Seq<PatchEntry>) -> Seq<Entry> {
    Seq::new(s.len(), |i: int| s[i]@)
}

/// An entry whose path is empty may only be a whole-document `replace`.
pub open spec fn entry_root_ok(e: Entry) -> bool {
    e.path.len() == 0 ==> (e.op == PatchOp::Replace && e.value is Some)
}

/// Every empty-path entry in the list is a whole-document `replace`.
pub open spec fn roots_replace(es: Seq<Entry>) -> bool {
    forall|i: int| 0 <= i < es.len() ==> entry_root_ok(#[trigger] es[i])
}

impl PatchOp {
    /// The operation's name on the wire.
    pub fn as_str(&self) -> (r: &'static str)
        ensures
            self is Add ==> r@ == "add"@,
            self is Replace ==> r@ == "replace"@,
            self is Remove ==> r@ == "remove"@,
    {
        match self {
            PatchOp::Add => "add",
            PatchOp::Replace => "replace",
            PatchOp::Remove => "remove",
        }
    }
}

/// Clones a path token, keeping its model.
pub fn clone_token(t: &PathToken) -> (r: PathToken)
    ensures
        r@ == t@,
{
    match t {
        PathToken::Key(s) => PathToken::Key(s.clone()),
        PathToken::Idx(n) => PathToken::Idx(*n),
    }
}

impl PatchEntry {
    /// Constructs an entry from an operation, a path, and an optional value.
    pub fn new(op: PatchOp, path: Vec<PathToken>, value: Option<JsonValue>) -> (r: PatchEntry)
        ensures
            r@ == (Entry { op, path: view_path(path@), value: view_opt(value) }),
    {
        PatchEntry { op, path, value }
    }

    /// Returns the operation.
    pub fn op(&self) -> (r: PatchOp)
        ensures
            r == self@.op,
    {
        self.op
    }

    /// Returns the operation's name on the wire.
    pub fn op_str(&self) -> (r: &'static str)
        ensures
            self@.op is Add ==> r@ == "add"@,
            self@.op is Replace ==> r@ == "replace"@,
            self@.op is Remove ==> r@ == "remove"@,
    {
        self.op.as_str()
    }

    /// Returns the path tokens.
    pub fn tokens(&self) -> (r: &Vec<PathToken>)
        ensures
            view_path(r@) == self@.path,
    {
        &self.path
    }

    /// Returns the value, if the operation carries one.
    pub fn value(&self) -> (r: &Option<JsonValue>)
        ensures
            view_opt(*r) == self@.value,
    {
        &self.value
    }

    /// Clones the entry, keeping its model.
    pub fn clone_entry(&self) -> (r: PatchEntry)
        ensures
            r@ == self@,
    {
        let mut path: Vec<PathToken> = Vec::new();
        let n = self.path.len();
        let mut i: usize = 0;
        while i < n
            invariant
                0 <= i <= n,
                n == self.path@.len(),
                path@.len() == i,
                forall|j: int| 0 <= j < i ==> path@[j]@ == self.path@[j]@,
            decreases n - i,
        {
            path.push(clone_token(&self.path[i]));
            i = i + 1;
        }
        let value = match &self.value {
            Some(v) => Some(json_clone(v)),
            None => None,
        };
        let r = PatchEntry { op: self.op, path, value };
        proof {
            assert(view_path(r.path@) =~= view_path(self.path@));
        }
        r
    }

    /// Prepends one token to the entry's path.
    pub fn prefixed(self, t: PathToken) -> (r: PatchEntry)
        ensures
            r@.op == self@.op,
            r@.value == self@.value,
            r@.path == seq![t@] + self@.path,
    {
        let ghost orig = self.path@;
        let ghost tok = t@;
        let mut path = self.path;
        path.insert(0, t);
        let r = PatchEntry { op: self.op, path, value: self.value };
        proof {
            assert(view_path(r.path@) =~= seq![tok] + view_path(orig));
        }
        r
    }
}

/// Relies on `String::push`: appending one character to a string.
pub assume_specification[ std::string::String::push ](s: &mut String, c: char)
    ensures
        final(s)@ == old(s)@.push(c),
;

/// JSON-pointer escaping of one key: `~` becomes `~0`, `/` becomes `~1`.
pub open spec fn spec_escape(s: Seq<char>) -> Seq<char>
    decreases s.len(),
{
    if s.len() == 0 {
        s
    } else if s[0] == '~' {
        seq!['~', '0'] + spec_escape(s.drop_first())
    } else if s[0] == '/' {
        seq!['~', '1'] + spec_escape(s.drop_first())
    } else {
        seq![s[0]] + spec_escape(s.drop_first())
    }
}

/// The decimal digits of `n`, most significant first.
pub open spec fn spec_decimal(n: int) -> Seq<char>
    decreases n,
{
    if n < 0 {
        Seq::empty()
    } else if n < 10 {
        seq![spec_digit(n)]
    } else {
        spec_decimal(n / 10) + seq![spec_digit(n % 10)]
    }
}

/// The digit character for a value below ten.
pub open spec fn spec_digit(d: int) -> char {
    if d == 0 {
        '0'
    } else if d == 1 {
        '1'
    } else if d == 2 {
        '2'
    } else if d == 3 {
        '3'
    } else if d == 4 {
        '4'
    } else if d == 5 {
        '5'
    } else if d == 6 {
        '6'
    } else if d == 7 {
        '7'
    } else if d == 8 {
        '8'
    } else {
        '9'
    }
}

/// One step of a rendered pointer: a slash, then the escaped key or the
/// decimal index.
pub open spec fn spec_pointer_step(t: PTok) -> Seq<char> {
    match t {
        PTok::Key(k) => seq!['/'] + spec_escape(k),
        PTok::Idx(i) => seq!['/'] + spec_decimal(i),
    }
}

/// The rendered JSON-pointer text of a whole path.
pub open spec fn spec_pointer(path: Seq<PTok>) -> Seq<char>
    decreases path.len(),
{
    if path.len() == 0 {
        Seq::empty()
    } else {
        spec_pointer_step(path[0]) + spec_pointer(path.drop_first())
    }
}

/// Escapes one key for use inside a JSON pointer.
fn escape_key(s: &str) -> (r: String)
    ensures
        r@ == spec_escape(s@),
{
    let n = s.unicode_len();
    let mut r = String::new();
    let mut i: usize = 0;
    while i < n
        invariant
            0 <= i <= n,
            n == s@.len(),
            r@ == spec_escape(s@.take(i as int)),
        decreases n - i,
    {
        let c = s.get_char(i);
        if c == '~' {
            r.append("~0");
        } else if c == '/' {
            r.append("~1");
        } else {
            let mut one = String::new();
            one.push(c);
            r.append(one.as_str());
        }
        proof {
            reveal_strlit("~0");
            reveal_strlit("~1");
            lemma_escape_snoc(s@.take(i as int + 1));
            assert(s@.take(i as int + 1).drop_last() =~= s@.take(i as int));
            assert(s@.take(i as int + 1).last() == s@[i as int]);
        }
        i = i + 1;
    }
    proof {
        assert(s@.take(n as int) =~= s@);
    }
    r
}

/// Escaping a sequence is escaping all but the last character, then the
/// last one.
proof fn lemma_escape_snoc(s: Seq<char>)
    requires
        s.len() > 0,
    ensures
        spec_escape(s) == spec_escape(s.drop_last()) + (if s.last() == '~' {
            seq!['~', '0']
        } else if s.last() == '/' {
            seq!['~', '1']
        } else {
            seq![s.last()]
        }),
    decreases s.len(),
{
    if s.len() == 1 {
        assert(s.drop_first() =~= Seq::<char>::empty());
        assert(s.drop_last() =~= Seq::<char>::empty());
        assert(spec_escape(Seq::<char>::empty()) =~= Seq::<char>::empty());
        assert(s[0] == s.last());
        assert(spec_escape(s) =~= Seq::<char>::empty() + (if s.last() == '~' {
            seq!['~', '0']
        } else if s.last() == '/' {
            seq!['~', '1']
        } else {
            seq![s.last()]
        }));
    } else {
        lemma_escape_snoc(s.drop_first());
        assert(s.drop_first().drop_last() =~= s.drop_last().drop_first());
        assert(s.drop_first().last() == s.last());
        assert(s.drop_last()[0] == s[0]);
        let head = if s[0] == '~' {
            seq!['~', '0']
        } else if s[0] == '/' {
            seq!['~', '1']
        } else {
            seq![s[0]]
        };
        let tailpart = if s.last() == '~' {
            seq!['~', '0']
        } else if s.last() == '/' {
            seq!['~', '1']
        } else {
            seq![s.last()]
        };
        assert(spec_escape(s) == head + spec_escape(s.drop_first()));
        assert(spec_escape(s.drop_last()) == head + spec_escape(s.drop_last().drop_first()));
        assert(head + (spec_escape(s.drop_first().drop_last()) + tailpart) =~= (head
            + spec_escape(s.drop_last().drop_first())) + tailpart);
    }
}

/// Renders a value below ten as one decimal digit.
fn digit_char(d: usize) -> (r: char)
    requires
        d < 10,
    ensures
        r == spec_digit(d as int),
{
    if d == 0 {
        '0'
    } else if d == 1 {
        '1'
    } else if d == 2 {
        '2'
    } else if d == 3 {
        '3'
    } else if d == 4 {
        '4'
    } else if d == 5 {
        '5'
    } else if d == 6 {
        '6'
    } else if d == 7 {
        '7'
    } else if d == 8 {
        '8'
    } else {
        '9'
    }
}

/// Renders an index as decimal text.
pub fn decimal_string(n: usize) -> (r: String)
    ensures
        r@ == spec_decimal(n as int),
    decreases n,
{
    if n < 10 {
        let mut r = String::new();
        r.push(digit_char(n));
        proof {
            assert(r@ =~= seq![spec_digit(n as int)]);
        }
        r
    } else {
        let mut r = decimal_string(n / 10);
        r.push(digit_char(n % 10));
        proof {
            assert(r@ =~= spec_decimal(n as int / 10) + seq![spec_digit(n as int % 10)]);
        }
        r
    }
}

impl PatchEntry {
    /// The entry's path as JSON-pointer text, such as `/enwiki/title`.
    pub fn path(&self) -> (r: String)
        ensures
            r@ == spec_pointer(self@.path),
    {
        let n = self.path.len();
        let mut r = String::new();
        let mut i: usize = 0;
        while i < n
            invariant
                0 <= i <= n,
                n == self.path@.len(),
                r@ == spec_pointer(view_path(self.path@).take(i as int)),
            decreases n - i,
        {
            let ghost done = view_path(self.path@).take(i as int);
            r.append("/");
            match &self.path[i] {
                PathToken::Key(k) => {
                    let esc = escape_key(k.as_str());
                    r.append(esc.as_str());
                },
                PathToken::Idx(ix) => {
                    let dec = decimal_string(*ix);
                    r.append(dec.as_str());
                },
            }
            proof {
                reveal_strlit("/");
                let all = view_path(self.path@);
                lemma_pointer_snoc(all.take(i as int + 1));
                assert(all.take(i as int + 1).drop_last() =~= done);
                assert(all.take(i as int + 1).last() == all[i as int]);
                assert(all[i as int] == self.path@[i as int]@);
                assert(r@ =~= spec_pointer(done) + spec_pointer_step(all[i as int]));
            }
            i = i + 1;
        }
        proof {
            assert(view_path(self.path@).take(n as int) =~= view_path(self.path@));
        }
        r
    }
}

/// Rendering a path is rendering all but the last step, then the last one.
proof fn lemma_pointer_snoc(path: Seq<PTok>)
    requires
        path.len() > 0,
    ensures
        spec_pointer(path) == spec_pointer(path.drop_last()) + spec_pointer_step(path.last()),
    decreases path.len(),
{
    if path.len() == 1 {
        assert(path.drop_first() =~= Seq::<PTok>::empty());
        assert(path.drop_last() =~= Seq::<PTok>::empty());
        assert(spec_pointer(Seq::<PTok>::empty()) =~= Seq::<char>::empty());
        assert(spec_pointer(path) =~= spec_pointer_step(path[0]));
        assert(spec_pointer(path.drop_last()) + spec_pointer_step(path.last()) =~= spec_pointer_step(
            path[0],
        ));
    } else {
        lemma_pointer_snoc(path.drop_first());
        assert(path.drop_first().drop_last() =~= path.drop_last().drop_first());
        assert(path.drop_first().last() == path.last());
        assert(path.drop_last()[0] == path[0]);
        assert(spec_pointer_step(path[0]) + (spec_pointer(path.drop_first().drop_last())
            + spec_pointer_step(path.last())) =~= (spec_pointer_step(path[0]) + spec_pointer(
            path.drop_last().drop_first(),
        )) + spec_pointer_step(path.last()));
    }
}

} // verus!
