//! The annotation envelope attached to every mutating call.

use vstd::prelude::*;
use crate::aliases::strings_json;
use crate::json::{
    Json, JsonValue, lemma_obj_get_absent, lemma_obj_get_contains, obj_get, str_eq, view_elems,
    view_pairs,
};
use crate::language_strings::lemma_obj_get_take_snoc;
use crate::revision_match::RevisionMatch;

verus! {

/// A comment, the bot and minor flags, tags, and revision preconditions.
#[derive(Debug, Clone, PartialEq)]
pub struct EditMetadata {
    pub comment: Option<String>,
    pub bot: bool,
    pub minor: bool,
    pub tags: Vec<String>,
    pub revision_match: RevisionMatch,
}

impl EditMetadata {
    /// Returns the comment.
    pub fn comment(&self) -> (r: &Option<String>)
        ensures
            r == &self.comment,
    {
        &self.comment
    }

    /// Returns the bot flag.
    pub fn bot(&self) -> (r: bool)
        ensures
            r == self.bot,
    {
        self.bot
    }

    /// Returns the minor flag.
    pub fn minor(&self) -> (r: bool)
        ensures
            r == self.minor,
    {
        self.minor
    }

    /// Returns the tags.
    pub fn tags(&self) -> (r: &Vec<String>)
        ensures
            r == &self.tags,
    {
        &self.tags
    }

    /// Returns the revision preconditions.
    pub fn revision_match(&self) -> (r: &RevisionMatch)
        ensures
            r == &self.revision_match,
    {
        &self.revision_match
    }

    /// Sets the comment.
    pub fn set_comment(&mut self, comment: Option<String>)
        ensures
            final(self).comment == comment,
            final(self).bot == old(self).bot,
            final(self).minor == old(self).minor,
            final(self).tags == old(self).tags,
            final(self).revision_match == old(self).revision_match,
    {
        self.comment = comment;
    }

    /// Sets the bot flag.
    pub fn set_bot(&mut self, bot: bool)
        ensures
            final(self).bot == bot,
            final(self).comment == old(self).comment,
            final(self).minor == old(self).minor,
            final(self).tags == old(self).tags,
            final(self).revision_match == old(self).revision_match,
    {
        self.bot = bot;
    }

    /// Sets the minor flag.
    pub fn set_minor(&mut self, minor: bool)
        ensures
            final(self).minor == minor,
            final(self).comment == old(self).comment,
            final(self).bot == old(self).bot,
            final(self).tags == old(self).tags,
            final(self).revision_match == old(self).revision_match,
    {
        self.minor = minor;
    }

    /// Sets the tags.
    pub fn set_tags(&mut self, tags: Vec<String>)
        ensures
            final(self).tags == tags,
            final(self).comment == old(self).comment,
            final(self).bot == old(self).bot,
            final(self).minor == old(self).minor,
            final(self).revision_match == old(self).revision_match,
    {
        self.tags = tags;
    }

    /// Sets the revision preconditions.
    pub fn set_revision_match(&mut self, revision_match: RevisionMatch)
        ensures
            final(self).revision_match == revision_match,
            final(self).comment == old(self).comment,
            final(self).bot == old(self).bot,
            final(self).minor == old(self).minor,
            final(self).tags == old(self).tags,
    {
        self.revision_match = revision_match;
    }
}

impl Default for EditMetadata {
    /// The default metadata: no comment, no flags, no tags, no
    /// preconditions.
    fn default() -> (r: EditMetadata)
        ensures
            r.comment is None,
            !r.bot,
            !r.minor,
            r.tags@.len() == 0,
    {
        EditMetadata {
            comment: None,
            bot: false,
            minor: false,
            tags: Vec::new(),
            revision_match: RevisionMatch::default(),
        }
    }
}

/// The comment text that goes on the wire: the comment, or empty text
/// when none was given.
pub open spec fn spec_comment_text(comment: Option<String>) -> Seq<char> {
    match comment {
        Some(c) => c@,
        None => Seq::empty(),
    }
}

/// Whether an object's pair list carries a key.
fn obj_has_key(pairs: &Vec<(String, JsonValue)>, k: &str) -> (r: bool)
    ensures
        r == (obj_get(view_pairs(pairs@), k@) is Some),
{
    let ghost ps = view_pairs(pairs@);
    let n = pairs.len();
    let mut i: usize = 0;
    while i < n
        invariant
            0 <= i <= n,
            n == pairs@.len(),
            ps == view_pairs(pairs@),
            forall|q: int| 0 <= q < i ==> (#[trigger] ps[q]).0 != k@,
        decreases n - i,
    {
        proof {
            assert(ps[i as int] == (pairs@[i as int].0@, pairs@[i as int].1@));
        }
        if str_eq(pairs[i].0.as_str(), k) {
            proof {
                lemma_obj_get_contains(ps, i as int);
            }
            return true;
        }
        i = i + 1;
    }
    proof {
        lemma_obj_get_absent(ps, k@);
    }
    false
}

/// Appends one pair to an object's pair list: its own key's lookup now
/// finds the value unless an earlier pair already carried the key, and
/// every other key's lookup is unchanged.
fn push_absent_pair(pairs: &mut Vec<(String, JsonValue)>, key: &str, value: JsonValue)
    ensures
        view_pairs(final(pairs)@) == view_pairs(old(pairs)@).push((key@, value@)),
        obj_get(view_pairs(final(pairs)@), key@) == (if obj_get(
            view_pairs(old(pairs)@),
            key@,
        ) is Some {
            obj_get(view_pairs(old(pairs)@), key@)
        } else {
            Some(value@)
        }),
        forall|k: Seq<char>|
            k != key@ ==> #[trigger] obj_get(view_pairs(final(pairs)@), k) == obj_get(
                view_pairs(old(pairs)@),
                k,
            ),
{
    let ghost ps = view_pairs(pairs@);
    let ghost v = value@;
    pairs.push((key.to_owned(), value));
    proof {
        let qs = view_pairs(pairs@);
        assert(qs =~= ps.push((key@, v)));
        assert(qs.take(ps.len() as int) =~= ps);
        assert(qs.take(ps.len() as int + 1) =~= qs);
        lemma_obj_get_take_snoc(qs, ps.len() as int);
        assert(obj_get(qs.take(ps.len() as int + 1), key@) == obj_get(qs, key@));
    }
}

/// Merges the edit envelope into a request body: the tags, bot and
/// comment members are added to an object body where they are absent,
/// an already-present member keeps its value, every other member is
/// unchanged, and a non-object body is returned as it is.
pub fn merge_edit_envelope(
    body: JsonValue,
    tags: &Vec<String>,
    bot: bool,
    comment: &Option<String>,
) -> (r: JsonValue)
    ensures
        body@ matches Json::Obj(ps) ==> (r@ matches Json::Obj(qs) && obj_get(qs, "tags"@) == (
        if obj_get(ps, "tags"@) is Some {
            obj_get(ps, "tags"@)
        } else {
            Some(Json::Arr(strings_json(tags@)))
        }) && obj_get(qs, "bot"@) == (if obj_get(ps, "bot"@) is Some {
            obj_get(ps, "bot"@)
        } else {
            Some(Json::Bool(bot))
        }) && obj_get(qs, "comment"@) == (if obj_get(ps, "comment"@) is Some {
            obj_get(ps, "comment"@)
        } else {
            Some(Json::Str(spec_comment_text(*comment)))
        }) && (forall|k: Seq<char>|
            k != "tags"@ && k != "bot"@ && k != "comment"@ ==> #[trigger] obj_get(qs, k)
                == obj_get(ps, k))),
        !(body@ is Obj) ==> r@ == body@,
{
    let mut pairs = match body {
        JsonValue::Object(pairs) => pairs,
        other => {
            return other;
        },
    };
    let ghost ps = view_pairs(pairs@);
    proof {
        reveal_strlit("tags");
        reveal_strlit("bot");
        reveal_strlit("comment");
        assert("tags"@.len() == 4 && "bot"@.len() == 3 && "comment"@.len() == 7);
    }
    if !obj_has_key(&pairs, "tags") {
        let n = tags.len();
        let mut items: Vec<JsonValue> = Vec::new();
        let mut i: usize = 0;
        while i < n
            invariant
                0 <= i <= n,
                n == tags@.len(),
                items@.len() == i,
                forall|q: int|
                    0 <= q < i ==> (#[trigger] items@[q])@ == Json::Str(tags@[q]@),
            decreases n - i,
        {
            items.push(JsonValue::Str(tags[i].clone()));
            i = i + 1;
        }
        proof {
            assert(view_elems(items@) =~= strings_json(tags@));
        }
        push_absent_pair(&mut pairs, "tags", JsonValue::Array(items));
    }
    let ghost qs1 = view_pairs(pairs@);
    if !obj_has_key(&pairs, "bot") {
        push_absent_pair(&mut pairs, "bot", JsonValue::Bool(bot));
    }
    let ghost qs2 = view_pairs(pairs@);
    if !obj_has_key(&pairs, "comment") {
        let text = match comment {
            Some(c) => c.clone(),
            None => String::new(),
        };
        push_absent_pair(&mut pairs, "comment", JsonValue::Str(text));
    }
    JsonValue::Object(pairs)
}

} // verus!
