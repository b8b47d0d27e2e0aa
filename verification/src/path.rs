//! Dot-separated paths into a snapshot: looking one up, and listing every
//! numeric leaf below an object.

use crate::json::{as_number, as_object, map_get, map_iter, member, members, node, Members, Node};
use serde_json::{Number, Value};
use vstd::prelude::*;

verus! {

/// A snapshot, and every object nested in one.
pub type Object = serde_json::Map<String, Value>;

/// The numeric leaves of an object, each with the dotted path that leads to
/// it from that object.
pub type Leaves = Seq<(Seq<char>, Number)>;

/// The number of characters of `path` before its first dot; the whole length
/// where it has none.
pub open spec fn head_len(path: Seq<char>) -> nat
    decreases path.len(),
{
    if path.len() == 0 || path[0] == '.' {
        0
    } else {
        1 + head_len(path.drop_first())
    }
}

/// `prefix` and `suffix` with a dot between them.
pub open spec fn dotted(prefix: Seq<char>, suffix: Seq<char>) -> Seq<char> {
    prefix + seq!['.'] + suffix
}

/// Whether `segment` is free of dots, as one segment of a path is.
pub open spec fn is_segment(segment: Seq<char>) -> bool {
    forall|i: int| 0 <= i < segment.len() ==> segment[i] != '.'
}

/// What `path` leads to from the object with these members.
///
/// A path without a dot is a key of the object itself. Any other path names,
/// before its first dot, a member that has to be an object, and after it the
/// path to follow from there.
pub open spec fn resolve(members: Members, path: Seq<char>) -> Option<Node>
    decreases path.len(),
{
    let n = head_len(path);
    if n >= path.len() {
        member(members, path)
    } else {
        match member(members, path.take(n as int)) {
            Some(Node::Object(inner)) => resolve(inner, path.skip(n as int + 1)),
            _ => None,
        }
    }
}

/// `leaves`, each path with `prefix` and a dot put before it.
pub open spec fn below(prefix: Seq<char>, leaves: Leaves) -> Leaves {
    Seq::new(leaves.len(), |i: int| (dotted(prefix, leaves[i].0), leaves[i].1))
}

/// The numeric leaves reachable from the first `n` of `members`, in order.
///
/// A member that is a number is a leaf under its own key. A member that is
/// an object gives its own leaves, each below the member's key. Any other
/// member gives none.
pub open spec fn leaves(members: Members, n: nat) -> Leaves
    decreases members, n,
{
    if n == 0 || n > members.len() {
        Seq::empty()
    } else {
        let (key, child) = members[n - 1];
        leaves(members, (n - 1) as nat) + match child {
            Node::Number(number) => seq![(key, number)],
            Node::Object(inner) => below(key, leaves(inner, inner.len())),
            Node::Other => Seq::empty(),
        }
    }
}

/// Every numeric leaf reachable from an object with these members.
pub open spec fn flatten(members: Members) -> Leaves {
    leaves(members, members.len())
}

/// The numeric leaves that member `i` gives: itself if it is a number, its
/// own leaves below its key if it is an object.
pub open spec fn leaves_of(members: Members, i: int) -> Leaves {
    match members[i].1 {
        Node::Number(number) => seq![(members[i].0, number)],
        Node::Object(inner) => below(members[i].0, flatten(inner)),
        Node::Other => Seq::empty(),
    }
}

/// What a list of keyed numbers says: each key by its characters.
pub open spec fn keyed(list: Seq<(String, Number)>) -> Leaves {
    Seq::new(list.len(), |i: int| (list[i].0@, list[i].1))
}

/// Whether every key of `members`, and of every object below, is free of
/// dots and stands once among its siblings.
pub open spec fn is_plain(members: Members) -> bool
    decreases members,
{
    forall|i: int|
        0 <= i < members.len() ==> {
            &&& is_segment((#[trigger] members[i]).0)
            &&& forall|j: int| 0 <= j < i ==> (#[trigger] members[j]).0 != members[i].0
            &&& match members[i].1 {
                Node::Object(inner) => is_plain(inner),
                _ => true,
            }
        }
}

/// Splits `key` at its first dot into what stands before it and what stands
/// after it; nothing where `key` has no dot.
pub fn split_key(key: &str) -> (parts: Option<(&str, &str)>)
    ensures
        match parts {
            None => head_len(key@) == key@.len(),
            Some((head, rest)) => {
                &&& head_len(key@) < key@.len()
                &&& head@ == key@.take(head_len(key@) as int)
                &&& rest@ == key@.skip(head_len(key@) as int + 1)
            },
        },
{
    let n = key.unicode_len();
    let mut i: usize = 0;
    for c in it: key.chars()
        invariant
            n == key@.len(),
            it.seq() == key@,
            i == it.index(),
            forall|j: int| 0 <= j < i ==> key@[j] != '.',
    {
        if c == '.' {
            proof {
                lemma_head_len_is(key@, i as int);
            }
            let head = key.substring_char(0, i);
            let rest = key.substring_char(i + 1, n);
            return Some((head, rest));
        }
        i += 1;
    }
    proof {
        lemma_head_len_is(key@, n as int);
    }
    None
}

/// `prefix`, a dot, and `suffix` as one key.
pub fn join_key(prefix: &str, suffix: &str) -> (key: String)
    ensures
        key@ == dotted(prefix@, suffix@),
{
    proof {
        reveal_strlit(".");
    }
    let mut key = String::from_str(prefix);
    key.append(".");
    key.append(suffix);
    key
}

/// Looks up the dot-separated `nested_key` in `data`.
///
/// Nothing is found where a segment is absent, or where a segment other than
/// the last names something that is no object.
pub fn get_root_elem<'a>(data: &'a Object, nested_key: &str) -> (found: Option<&'a Value>)
    ensures
        match resolve(members(*data), nested_key@) {
            Some(n) => found.is_some() && node(*found.unwrap()) == n,
            None => found.is_none(),
        },
    decreases nested_key@.len(),
{
    match split_key(nested_key) {
        None => map_get(data, nested_key),
        Some((head, rest)) => match map_get(data, head) {
            None => None,
            Some(child) => match as_object(child) {
                Some(inner) => get_root_elem(inner, rest),
                None => None,
            },
        },
    }
}

/// Appends `leaves` to `acc`, each below `prefix`.
pub(crate) fn extend_below(
    acc: &mut Vec<(String, Number)>,
    prefix: &str,
    leaves: Vec<(String, Number)>,
)
    ensures
        keyed(final(acc)@) == keyed(old(acc)@) + below(prefix@, keyed(leaves@)),
{
    let ghost before = keyed(acc@);
    let mut j: usize = 0;
    while j < leaves.len()
        invariant
            j <= leaves@.len(),
            keyed(acc@) == before + below(prefix@, keyed(leaves@).take(j as int)),
        decreases leaves@.len() - j,
    {
        let ghost leaf = keyed(leaves@)[j as int];
        let ghost held = keyed(acc@);
        let full = join_key(prefix, leaves[j].0.as_str());
        acc.push((full, leaves[j].1.clone()));
        j += 1;
        assert(keyed(acc@) =~= held.push((dotted(prefix@, leaf.0), leaf.1)));
    }
}

/// Flattens `data` into its numeric leaves, each under the dotted path that
/// leads to it. Members that are neither numbers nor objects are passed over.
pub fn flatten_map(data: &Object) -> (acc: Vec<(String, Number)>)
    ensures
        keyed(acc@) == flatten(members(*data)),
    decreases members(*data),
{
    let mut acc: Vec<(String, Number)> = Vec::new();
    let all = map_iter(data);
    let mut i: usize = 0;
    while i < all.len()
        invariant
            i <= all.len(),
            all@.len() == members(*data).len(),
            forall|k: int|
                0 <= k < all@.len() ==> (#[trigger] all@[k]).0@ == members(*data)[k].0 && node(
                    *all@[k].1,
                ) == members(*data)[k].1,
            keyed(acc@) == leaves(members(*data), i as nat),
        decreases all.len() - i,
    {
        let (key, val) = all[i];
        match as_number(val) {
            Some(found_num) => {
                acc.push((key.clone(), found_num.clone()));
            },
            None => match as_object(val) {
                Some(nested) => {
                    let inner = flatten_map(nested);
                    extend_below(&mut acc, key.as_str(), inner);
                },
                None => {},
            },
        }
        i += 1;
    }
    acc
}
/// The first segment of a path ends at its first dot, or with the path.
pub proof fn lemma_head_len(path: Seq<char>)
    ensures
        head_len(path) <= path.len(),
        forall|j: int| 0 <= j < head_len(path) ==> path[j] != '.',
        head_len(path) < path.len() ==> path[head_len(path) as int] == '.',
    decreases path.len(),
{
    if path.len() > 0 && path[0] != '.' {
        let rest = path.drop_first();
        lemma_head_len(rest);
        assert forall|j: int| 0 <= j < head_len(path) implies path[j] != '.' by {
            if j > 0 {
                assert(path[j] == rest[j - 1]);
            }
        }
    }
}

/// A path whose first dot is at `i`, or which has `i` characters and no dot,
/// has a first segment of `i` characters.
proof fn lemma_head_len_is(path: Seq<char>, i: int)
    requires
        0 <= i <= path.len(),
        forall|j: int| 0 <= j < i ==> path[j] != '.',
        i < path.len() ==> path[i] == '.',
    ensures
        head_len(path) == i,
{
    lemma_head_len(path);
}

/// A path that is a single segment leads to the member of that name.
pub proof fn law_resolve_segment(members: Members, key: Seq<char>)
    requires
        is_segment(key),
    ensures
        resolve(members, key) == member(members, key),
{
    lemma_head_len_is(key, key.len() as int);
}

/// A path of a segment, a dot and a rest leads through the member that the
/// segment names: to what the rest leads to from there if that member is an
/// object, and nowhere if it is absent or anything else.
pub proof fn law_resolve_step(members: Members, head: Seq<char>, rest: Seq<char>)
    requires
        is_segment(head),
    ensures
        resolve(members, dotted(head, rest)) == match member(members, head) {
            Some(Node::Object(inner)) => resolve(inner, rest),
            _ => None,
        },
{
    let path = dotted(head, rest);
    lemma_head_len_is(path, head.len() as int);
    assert(path.take(head.len() as int) =~= head);
    assert(path.skip(head.len() as int + 1) =~= rest);
}

/// Where `a` names an object, `b` an object in it and `c` a number in that,
/// the path `a.b.c` leads to that number.
pub proof fn law_resolve_nested(
    members: Members,
    a: Seq<char>,
    b: Seq<char>,
    c: Seq<char>,
    below_a: Members,
    below_b: Members,
    v: Number,
)
    requires
        is_segment(a),
        is_segment(b),
        is_segment(c),
        member(members, a) == Some(Node::Object(below_a)),
        member(below_a, b) == Some(Node::Object(below_b)),
        member(below_b, c) == Some(Node::Number(v)),
    ensures
        resolve(members, dotted(a, dotted(b, c))) == Some(Node::Number(v)),
{
    law_resolve_step(members, a, dotted(b, c));
    law_resolve_step(below_a, b, c);
    law_resolve_segment(below_b, c);
}

/// Where `a` names an object and `b` a number in it, no path that goes on
/// after `a.b` leads anywhere: a number has nothing below it.
pub proof fn law_no_path_through_number(
    members: Members,
    a: Seq<char>,
    b: Seq<char>,
    rest: Seq<char>,
    below_a: Members,
    v: Number,
)
    requires
        is_segment(a),
        is_segment(b),
        member(members, a) == Some(Node::Object(below_a)),
        member(below_a, b) == Some(Node::Number(v)),
    ensures
        resolve(members, dotted(a, dotted(b, rest))) is None,
{
    law_resolve_step(members, a, dotted(b, rest));
    law_resolve_step(below_a, b, rest);
}

/// A path and a rest with a dot between them lead to where the rest leads
/// from the object that the path leads to, and nowhere if the path leads to
/// no object.
pub proof fn law_resolve_composes(members: Members, path: Seq<char>, rest: Seq<char>)
    ensures
        resolve(members, dotted(path, rest)) == match resolve(members, path) {
            Some(Node::Object(inner)) => resolve(inner, rest),
            _ => None,
        },
    decreases path.len(),
{
    lemma_head_len(path);
    let n = head_len(path) as int;
    if n >= path.len() {
        law_resolve_step(members, path, rest);
    } else {
        let full = dotted(path, rest);
        let head = path.take(n);
        let tail = path.skip(n + 1);
        lemma_head_len_is(full, n);
        assert(full.take(n) =~= head);
        assert(full.skip(n + 1) =~= dotted(tail, rest));
        match member(members, head) {
            Some(Node::Object(inner)) => {
                law_resolve_composes(inner, tail, rest);
            },
            _ => {},
        }
    }
}

/// Where no earlier member has its key, a member is the one found under it.
proof fn lemma_member_at(members: Members, i: int)
    requires
        0 <= i < members.len(),
        forall|j: int| 0 <= j < i ==> (#[trigger] members[j]).0 != members[i].0,
    ensures
        member(members, members[i].0) == Some(members[i].1),
    decreases i,
{
    if i > 0 {
        lemma_member_at(members.drop_first(), i - 1);
    }
}

/// What is found under a key is a member with that key.
proof fn lemma_member_found(members: Members, key: Seq<char>) -> (i: int)
    requires
        member(members, key) is Some,
    ensures
        0 <= i < members.len(),
        members[i] == (key, member(members, key).unwrap()),
    decreases members.len(),
{
    if members[0].0 == key {
        0
    } else {
        lemma_member_found(members.drop_first(), key) + 1
    }
}

/// The objects that paths lead to in an object with plain keys have plain
/// keys themselves.
pub(crate) proof fn lemma_plain_below(members: Members, path: Seq<char>)
    requires
        is_plain(members),
    ensures
        match resolve(members, path) {
            Some(Node::Object(inner)) => is_plain(inner),
            _ => true,
        },
    decreases path.len(),
{
    lemma_head_len(path);
    let n = head_len(path) as int;
    if n >= path.len() {
        if member(members, path) is Some {
            lemma_member_found(members, path);
        }
    } else {
        let head = path.take(n);
        match member(members, head) {
            Some(Node::Object(inner)) => {
                lemma_member_found(members, head);
                lemma_plain_below(inner, path.skip(n + 1));
            },
            _ => {},
        }
    }
}

/// Every leaf among those of the first `n` members is a leaf of one of them.
proof fn lemma_leaf_owner(members: Members, n: nat, k: int) -> (at: (int, int))
    requires
        n <= members.len(),
        0 <= k < leaves(members, n).len(),
    ensures
        0 <= at.0 < n,
        0 <= at.1 < leaves_of(members, at.0).len(),
        leaves_of(members, at.0)[at.1] == leaves(members, n)[k],
    decreases n,
{
    let fewer = (n - 1) as nat;
    let earlier = leaves(members, fewer);
    if k < earlier.len() {
        lemma_leaf_owner(members, fewer, k)
    } else {
        (n - 1, k - earlier.len())
    }
}

/// Every leaf of one of the first `n` members is among their leaves.
proof fn lemma_leaf_listed(members: Members, n: nat, i: int, j: int)
    requires
        n <= members.len(),
        0 <= i < n,
        0 <= j < leaves_of(members, i).len(),
    ensures
        leaves(members, n).contains(leaves_of(members, i)[j]),
    decreases n,
{
    let fewer = (n - 1) as nat;
    let earlier = leaves(members, fewer);
    let all = leaves(members, n);
    if i < n - 1 {
        lemma_leaf_listed(members, fewer, i, j);
        let k = choose|k: int| 0 <= k < earlier.len() && earlier[k] == leaves_of(members, i)[j];
        assert(all[k] == earlier[k]);
    } else {
        assert(all[earlier.len() + j] == leaves_of(members, i)[j]);
    }
}

/// In an object whose keys are plain, the path of every leaf that
/// flattening lists leads to the number listed with it.
pub proof fn law_leaves_resolve(members: Members, k: int)
    requires
        is_plain(members),
        0 <= k < flatten(members).len(),
    ensures
        resolve(members, flatten(members)[k].0) == Some(Node::Number(flatten(members)[k].1)),
    decreases members,
{
    let (i, j) = lemma_leaf_owner(members, members.len(), k);
    let key = members[i].0;
    lemma_member_at(members, i);
    match members[i].1 {
        Node::Number(number) => {
            law_resolve_segment(members, key);
        },
        Node::Object(inner) => {
            let leaf = flatten(inner)[j];
            law_leaves_resolve(inner, j);
            law_resolve_step(members, key, leaf.0);
        },
        Node::Other => {},
    }
}

/// Every number that a path leads to is listed by flattening, with that
/// path.
pub proof fn law_numbers_are_leaves(members: Members, path: Seq<char>, number: Number)
    requires
        resolve(members, path) == Some(Node::Number(number)),
    ensures
        flatten(members).contains((path, number)),
    decreases path.len(),
{
    lemma_head_len(path);
    let n = head_len(path) as int;
    if n >= path.len() {
        let i = lemma_member_found(members, path);
        lemma_leaf_listed(members, members.len(), i, 0);
    } else {
        let head = path.take(n);
        let tail = path.skip(n + 1);
        assert(path =~= dotted(head, tail));
        match member(members, head) {
            Some(Node::Object(inner)) => {
                law_numbers_are_leaves(inner, tail, number);
                let j = choose|j: int|
                    0 <= j < flatten(inner).len() && flatten(inner)[j] == (tail, number);
                let i = lemma_member_found(members, head);
                lemma_leaf_listed(members, members.len(), i, j);
            },
            _ => {},
        }
    }
}

} // verus!
