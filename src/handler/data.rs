//! The message store. Every operation works on the whole collection at once:
//! the caller loads it, hands it here, and persists it again after a change.
use vstd::prelude::*;
use crate::handler::text::{lemma_precedes_asymmetric, lemma_precedes_transitive, precedes, str_precedes};

verus! {

/// A user message.
#[derive(Debug, Clone, PartialEq, Eq, Hash)]
pub struct Message {
    /// Unique identifier, assigned by the store.
    pub id: i32,
    /// When the message was posted, as `YYYY-MM-DD HH:MM:SS`.
    pub posted: String,
    /// Display name of the sender.
    pub sender: String,
    /// Body text; may hold newlines.
    pub content: String,
}

/// The fields of a submitted message form.
#[derive(Debug)]
pub struct CreateForm {
    pub id: i32,
    pub posted: String,
    pub sender: String,
    pub content: String,
}

impl CreateForm {
    /// The message the form describes, field for field.
    pub fn into_message(self) -> (r: Message)
        ensures
            r == (Message { id: self.id, posted: self.posted, sender: self.sender, content: self.content }),
    {
        Message { id: self.id, posted: self.posted, sender: self.sender, content: self.content }
    }
}

impl Default for Message {
    /// The zero-valued message: id 0 and empty text fields.
    fn default() -> (r: Message)
        ensures
            is_blank(r),
    {
        Message { id: 0, posted: String::new(), sender: String::new(), content: String::new() }
    }
}

/// `m` is the zero-valued message.
pub open spec fn is_blank(m: Message) -> bool {
    &&& m.id == 0
    &&& m.posted@.len() == 0
    &&& m.sender@.len() == 0
    &&& m.content@.len() == 0
}

/// Some message of `s` has the id `id`.
pub open spec fn has_id(s: Seq<Message>, id: i32) -> bool {
    exists|i: int| 0 <= i < s.len() && s[i].id == id
}

/// `i` is the first position of `s` whose message has the id `id`.
pub open spec fn is_first_with_id(s: Seq<Message>, id: i32, i: int) -> bool {
    &&& 0 <= i < s.len()
    &&& s[i].id == id
    &&& forall|j: int| 0 <= j < i ==> s[j].id != id
}

/// No two messages of `s` share an id.
pub open spec fn ids_unique(s: Seq<Message>) -> bool {
    forall|i: int, j: int| 0 <= i < s.len() && 0 <= j < s.len() && i != j ==> s[i].id != s[j].id
}

/// The largest id of `s`, or 0 when `s` is empty.
pub open spec fn max_id(s: Seq<Message>) -> int
    decreases s.len(),
{
    if s.len() == 0 {
        0
    } else if s.len() == 1 {
        s[0].id as int
    } else {
        let m = max_id(s.drop_last());
        if s.last().id > m {
            s.last().id as int
        } else {
            m
        }
    }
}

/// The id that the next created message receives.
pub open spec fn next_id(s: Seq<Message>) -> int {
    max_id(s) + 1
}

/// `m` with its id replaced by `id`.
pub open spec fn with_id(m: Message, id: int) -> Message {
    Message { id: id as i32, ..m }
}

/// The collection without the messages whose id is `id`.
pub open spec fn without_id(s: Seq<Message>, id: i32) -> Seq<Message> {
    s.filter(|m: Message| m.id != id)
}

/// The messages of `s` are ordered by `posted`, latest first.
pub open spec fn sorted_by_posted_desc(s: Seq<Message>) -> bool {
    forall|i: int, j: int| 0 <= i < j < s.len() ==> !precedes(s[i].posted@, s[j].posted@)
}

/// Every id of a non-empty collection is at most its largest id, and the
/// largest id is one of its ids.
pub proof fn lemma_max_id_bounds(s: Seq<Message>)
    ensures
        forall|i: int| 0 <= i < s.len() ==> s[i].id <= max_id(s),
        s.len() > 0 ==> exists|i: int| 0 <= i < s.len() && s[i].id == max_id(s),
        i32::MIN <= max_id(s) <= i32::MAX,
    decreases s.len(),
{
    if s.len() == 1 {
        assert(s[0].id == max_id(s));
    } else if s.len() > 1 {
        lemma_max_id_bounds(s.drop_last());
        let m = max_id(s.drop_last());
        assert forall|i: int| 0 <= i < s.len() implies s[i].id <= max_id(s) by {
            if i < s.len() - 1 {
                assert(s[i] == s.drop_last()[i]);
            }
        }
        if s.last().id <= m {
            let k = choose|k: int| 0 <= k < s.len() - 1 && s.drop_last()[k].id == m;
            assert(s[k] == s.drop_last()[k]);
        } else {
            assert(s[s.len() - 1].id == max_id(s));
        }
    }
}

fn copy_of(m: &Message) -> (r: Message)
    ensures
        r == *m,
{
    Message {
        id: m.id,
        posted: m.posted.clone(),
        sender: m.sender.clone(),
        content: m.content.clone(),
    }
}

fn position_of(messages: &Vec<Message>, id: i32) -> (r: Option<usize>)
    ensures
        match r {
            Some(i) => is_first_with_id(messages@, id, i as int),
            None => !has_id(messages@, id),
        },
{
    let mut i: usize = 0;
    while i < messages.len()
        invariant
            i <= messages@.len(),
            forall|j: int| 0 <= j < i ==> messages@[j].id != id,
        decreases messages@.len() - i,
    {
        if messages[i].id == id {
            return Some(i);
        }
        i = i + 1;
    }
    None
}

/// The first message whose id is `id`, or `None` when there is none.
pub fn find(messages: &Vec<Message>, id: i32) -> (r: Option<Message>)
    ensures
        r is None <==> !has_id(messages@, id),
        r matches Some(m) ==> exists|i: int| is_first_with_id(messages@, id, i) && messages@[i] == m,
{
    match position_of(messages, id) {
        Some(i) => Some(copy_of(&messages[i])),
        None => None,
    }
}

/// The first message whose id is `id`, or the zero-valued message when there
/// is none.
pub fn get(messages: &Vec<Message>, id: i32) -> (r: Message)
    ensures
        has_id(messages@, id) ==> exists|i: int| is_first_with_id(messages@, id, i) && messages@[i] == r,
        !has_id(messages@, id) ==> is_blank(r),
{
    match find(messages, id) {
        Some(m) => m,
        None => Message::default(),
    }
}

/// Largest id of the collection, 0 when it is empty.
fn largest_id(messages: &Vec<Message>) -> (r: i32)
    ensures
        r == max_id(messages@),
{
    let mut best: i32 = 0;
    let mut i: usize = 0;
    while i < messages.len()
        invariant
            i <= messages@.len(),
            best == max_id(messages@.subrange(0, i as int)),
        decreases messages@.len() - i,
    {
        proof {
            let s = messages@.subrange(0, i as int + 1);
            assert(s.drop_last() =~= messages@.subrange(0, i as int));
            lemma_max_id_bounds(messages@.subrange(0, i as int));
        }
        if i == 0 || messages[i].id > best {
            best = messages[i].id;
        }
        i = i + 1;
    }
    assert(messages@.subrange(0, messages@.len() as int) =~= messages@);
    best
}

/// Appends `message` under the next id, the largest id plus one (1 for an
/// empty collection), and returns the stored message. The given id is
/// ignored. When the largest id is already `i32::MAX` no id is left: the
/// collection stays as it is and the result is `None`.
pub fn create(messages: &mut Vec<Message>, message: Message) -> (r: Option<Message>)
    ensures
        r is Some <==> max_id(old(messages)@) < i32::MAX,
        r matches Some(m) ==> m == with_id(message, next_id(old(messages)@)) && final(messages)@
            == old(messages)@.push(m),
        r is None ==> final(messages)@ == old(messages)@,
{
    let max = largest_id(messages);
    if max == i32::MAX {
        return None;
    }
    let stored = Message { id: max + 1, ..message };
    let r = copy_of(&stored);
    messages.push(stored);
    Some(r)
}

/// Replaces the first message whose id is `message.id` by `message`.
/// Returns whether there was one; when not, the collection is unchanged.
pub fn update(messages: &mut Vec<Message>, message: &Message) -> (found: bool)
    ensures
        found == has_id(old(messages)@, message.id),
        found ==> exists|i: int| is_first_with_id(old(messages)@, message.id, i) && final(messages)@
            == old(messages)@.update(i, *message),
        !found ==> final(messages)@ == old(messages)@,
{
    match position_of(messages, message.id) {
        Some(i) => {
            messages.set(i, copy_of(message));
            true
        },
        None => false,
    }
}

/// Drops every message whose id is `id`, keeping the order of the others.
/// Returns whether one was dropped; removing an absent id changes nothing.
pub fn remove(messages: &mut Vec<Message>, id: i32) -> (removed: bool)
    ensures
        removed == has_id(old(messages)@, id),
        final(messages)@ == without_id(old(messages)@, id),
{
    let ghost s = messages@;
    let mut kept: Vec<Message> = Vec::new();
    let mut removed = false;
    let mut i: usize = 0;
    while i < messages.len()
        invariant
            s == messages@,
            i <= s.len(),
            kept@ == without_id(s.subrange(0, i as int), id),
            removed == exists|j: int| 0 <= j < i && s[j].id == id,
        decreases s.len() - i,
    {
        proof {
            let t = s.subrange(0, i as int + 1);
            assert(t.drop_last() =~= s.subrange(0, i as int));
            reveal_with_fuel(Seq::filter, 1);
        }
        if messages[i].id == id {
            removed = true;
        } else {
            kept.push(copy_of(&messages[i]));
        }
        i = i + 1;
    }
    assert(s.subrange(0, s.len() as int) =~= s);
    *messages = kept;
    removed
}

/// The messages of `s` posted at `p`, in the order of `s`.
pub open spec fn posted_at(s: Seq<Message>, p: Seq<char>) -> Seq<Message> {
    s.filter(posted_is(p))
}

/// Whether a message was posted at `p`.
pub open spec fn posted_is(p: Seq<char>) -> spec_fn(Message) -> bool {
    |m: Message| m.posted@ == p
}

proof fn lemma_insert_keeps_ties(s: Seq<Message>, pos: int, x: Message, p: Seq<char>)
    requires
        sorted_by_posted_desc(s),
        0 <= pos <= s.len(),
        pos < s.len() ==> precedes(s[pos].posted@, x.posted@),
    ensures
        posted_at(s.insert(pos, x), p) == if x.posted@ == p {
            posted_at(s, p).push(x)
        } else {
            posted_at(s, p)
        },
{
    let q = posted_is(p);
    let a = s.subrange(0, pos);
    let b = s.subrange(pos, s.len() as int);
    assert(s =~= a + b);
    assert(s.insert(pos, x) =~= a.push(x) + b);
    Seq::filter_distributes_over_add(a, b, q);
    Seq::filter_distributes_over_add(a.push(x), b, q);
    a.lemma_filter_push(x, q);
    if x.posted@ == p {
        assert forall|k: int| 0 <= k < b.len() implies !q(#[trigger] b[k]) by {
            if pos + k > pos {
                assert(!precedes(s[pos].posted@, s[pos + k].posted@));
            } else {
                crate::handler::text::lemma_precedes_irreflexive(x.posted@);
            }
        }
        assert(b.all(|m: Message| !q(m)));
        b.lemma_all_neg_filter_empty(q);
        assert(b.filter(q) =~= Seq::<Message>::empty());
        assert(a.filter(q) + b.filter(q) =~= a.filter(q));
        assert(a.filter(q).push(x) + b.filter(q) =~= a.filter(q).push(x));
    }
}

proof fn lemma_insert_keeps_order(s: Seq<Message>, pos: int, x: Message)
    requires
        sorted_by_posted_desc(s),
        0 <= pos <= s.len(),
        forall|k: int| 0 <= k < pos ==> !precedes(s[k].posted@, x.posted@),
        pos < s.len() ==> precedes(s[pos].posted@, x.posted@),
    ensures
        sorted_by_posted_desc(s.insert(pos, x)),
{
    let t = s.insert(pos, x);
    assert forall|i: int, j: int| 0 <= i < j < t.len() implies !precedes(
        t[i].posted@,
        t[j].posted@,
    ) by {
        if i == pos {
            let b = t[j].posted@;
            lemma_precedes_asymmetric(s[pos].posted@, x.posted@);
            if j - 1 > pos && precedes(x.posted@, b) {
                lemma_precedes_transitive(s[pos].posted@, x.posted@, b);
            }
        }
    }
}

/// The messages ordered by `posted`, latest first. Messages posted at the
/// same time keep their relative order.
pub fn get_all(messages: Vec<Message>) -> (r: Vec<Message>)
    ensures
        r@.to_multiset() == messages@.to_multiset(),
        sorted_by_posted_desc(r@),
        forall|p: Seq<char>| #[trigger] posted_at(r@, p) == posted_at(messages@, p),
{
    broadcast use vstd::seq_lib::group_to_multiset_ensures;

    let mut out: Vec<Message> = Vec::new();
    let mut i: usize = 0;
    while i < messages.len()
        invariant
            i <= messages@.len(),
            out@.to_multiset() == messages@.subrange(0, i as int).to_multiset(),
            sorted_by_posted_desc(out@),
            forall|p: Seq<char>|
                #[trigger] posted_at(out@, p) == posted_at(messages@.subrange(0, i as int), p),
        decreases messages@.len() - i,
    {
        let x = copy_of(&messages[i]);
        let mut pos: usize = 0;
        while pos < out.len() && !str_precedes(out[pos].posted.as_str(), x.posted.as_str())
            invariant
                pos <= out@.len(),
                forall|k: int| 0 <= k < pos ==> !precedes(out@[k].posted@, x.posted@),
            decreases out@.len() - pos,
        {
            pos = pos + 1;
        }
        proof {
            lemma_insert_keeps_order(out@, pos as int, x);
            assert(messages@.subrange(0, i as int + 1) =~= messages@.subrange(0, i as int).push(x));
            vstd::seq_lib::to_multiset_insert(out@, pos as int, x);
            vstd::seq_lib::to_multiset_build(messages@.subrange(0, i as int), x);
            assert forall|p: Seq<char>| #[trigger]
                posted_at(out@.insert(pos as int, x), p) == posted_at(
                    messages@.subrange(0, i as int + 1),
                    p,
                ) by {
                lemma_insert_keeps_ties(out@, pos as int, x, p);
                messages@.subrange(0, i as int).lemma_filter_push(x, posted_is(p));
            }
        }
        out.insert(pos, x);
        i = i + 1;
    }
    assert(messages@.subrange(0, messages@.len() as int) =~= messages@);
    out
}

/// The collection after creating each of `ms` in turn, starting from `s`.
pub open spec fn after_creates(s: Seq<Message>, ms: Seq<Message>) -> Seq<Message>
    decreases ms.len(),
{
    if ms.len() == 0 {
        s
    } else {
        let t = after_creates(s, ms.drop_last());
        t.push(with_id(ms.last(), next_id(t)))
    }
}

/// Creating messages one after another in an empty store hands out the ids
/// 1, 2, 3, ... in order, and the largest id is then the number created.
pub proof fn lemma_ids_count_up(ms: Seq<Message>)
    requires
        ms.len() <= i32::MAX,
    ensures
        after_creates(Seq::empty(), ms).len() == ms.len(),
        forall|k: int| 0 <= k < ms.len() ==> #[trigger] after_creates(Seq::empty(), ms)[k].id == k + 1,
        max_id(after_creates(Seq::empty(), ms)) == ms.len(),
    decreases ms.len(),
{
    if ms.len() > 0 {
        lemma_ids_count_up(ms.drop_last());
        let t = after_creates(Seq::<Message>::empty(), ms.drop_last());
        let r = after_creates(Seq::<Message>::empty(), ms);
        assert(r.drop_last() =~= t);
        assert forall|k: int| 0 <= k < ms.len() implies #[trigger] r[k].id == k + 1 by {
            if k < ms.len() - 1 {
                assert(r[k] == t[k]);
            }
        }
    }
}

/// The next id is larger than every id in the store, so a created message
/// never shares its id with a stored one, and ids stay unique.
pub proof fn lemma_next_id_fresh(s: Seq<Message>, m: Message)
    requires
        ids_unique(s),
        max_id(s) < i32::MAX,
    ensures
        forall|i: int| 0 <= i < s.len() ==> s[i].id < next_id(s),
        ids_unique(s.push(with_id(m, next_id(s)))),
{
    lemma_max_id_bounds(s);
}

/// Removing an id that is not in the store leaves it unchanged.
pub proof fn lemma_remove_absent(s: Seq<Message>, id: i32)
    requires
        !has_id(s, id),
    ensures
        without_id(s, id) == s,
    decreases s.len(),
{
    reveal_with_fuel(Seq::filter, 1);
    if s.len() > 0 {
        assert(!has_id(s.drop_last(), id)) by {
            if has_id(s.drop_last(), id) {
                let k = choose|k: int| 0 <= k < s.drop_last().len() && s.drop_last()[k].id == id;
                assert(s[k] == s.drop_last()[k]);
            }
        }
        lemma_remove_absent(s.drop_last(), id);
        assert(s.drop_last().push(s.last()) =~= s);
    }
}

/// Removing an id leaves none with that id, so removing it again changes
/// nothing: deletion is idempotent.
pub proof fn lemma_remove_idempotent(s: Seq<Message>, id: i32)
    ensures
        !has_id(without_id(s, id), id),
        without_id(without_id(s, id), id) == without_id(s, id),
{
    let t = without_id(s, id);
    assert(!has_id(t, id)) by {
        if has_id(t, id) {
            let k = choose|k: int| 0 <= k < t.len() && t[k].id == id;
            broadcast use vstd::seq_lib::group_filter_ensures;

            assert(t.contains(t[k]));
        }
    }
    lemma_remove_absent(t, id);
}

} // verus!
