//! The artifact pool: two bags of IDKG messages — unvalidated artifacts that
//! arrived by gossip, and validated artifacts this replica vouches for — plus
//! the change-set primitive that applies a sub-engine's batch of mutations
//! atomically.
//!
//! The pool's central invariant: no two validated messages share a uniqueness
//! key (`same_key`). Applying a change set preserves it unconditionally — an
//! insert whose key is already present is absorbed.

use vstd::prelude::*;

use crate::types::{msg_eq, same_key, IDkgMessage};

verus! {

/// One pool mutation, as emitted by a sub-engine.
#[derive(Clone, Copy, Debug)]
pub enum IDkgChangeAction {
    /// Insert a message this replica created itself into the validated bag.
    AddToValidated(IDkgMessage),
    /// Promote an unvalidated message that passed verification.
    MoveToValidated(IDkgMessage),
    /// Drop a validated message that went stale.
    RemoveValidated(IDkgMessage),
    /// Drop an unvalidated message that went stale.
    RemoveUnvalidated(IDkgMessage),
    /// Drop an unvalidated message that failed verification or duplicates a
    /// validated one.
    HandleInvalid(IDkgMessage),
}

/// Whether some message in `s` shares its uniqueness key with `m`.
pub open spec fn has_key(s: Seq<IDkgMessage>, m: IDkgMessage) -> bool {
    exists|i: int| 0 <= i < s.len() && same_key(s[i], m)
}

/// Whether some message in `s` equals `m`.
pub open spec fn has_msg(s: Seq<IDkgMessage>, m: IDkgMessage) -> bool {
    exists|i: int| 0 <= i < s.len() && msg_eq(s[i], m)
}

/// No two distinct positions of `s` hold messages with the same key.
pub open spec fn unique_keys(s: Seq<IDkgMessage>) -> bool {
    forall|i: int, j: int| 0 <= i < j < s.len() ==> !same_key(s[i], s[j])
}

/// `s` with every occurrence of `m` removed.
pub open spec fn drop_msg(s: Seq<IDkgMessage>, m: IDkgMessage) -> Seq<IDkgMessage>
    decreases s.len(),
{
    if s.len() == 0 {
        s
    } else {
        let rest = drop_msg(s.drop_last(), m);
        if msg_eq(s.last(), m) {
            rest
        } else {
            rest.push(s.last())
        }
    }
}

/// What one action does to the validated bag: inserts are absorbed when the
/// key is already present, so uniqueness is never broken.
pub open spec fn step_validated(v: Seq<IDkgMessage>, a: IDkgChangeAction) -> Seq<IDkgMessage> {
    match a {
        IDkgChangeAction::AddToValidated(m) => if has_key(v, m) {
            v
        } else {
            v.push(m)
        },
        IDkgChangeAction::MoveToValidated(m) => if has_key(v, m) {
            v
        } else {
            v.push(m)
        },
        IDkgChangeAction::RemoveValidated(m) => drop_msg(v, m),
        IDkgChangeAction::RemoveUnvalidated(_) => v,
        IDkgChangeAction::HandleInvalid(_) => v,
    }
}

/// What one action does to the unvalidated bag.
pub open spec fn step_unvalidated(u: Seq<IDkgMessage>, a: IDkgChangeAction) -> Seq<IDkgMessage> {
    match a {
        IDkgChangeAction::AddToValidated(_) => u,
        IDkgChangeAction::MoveToValidated(m) => drop_msg(u, m),
        IDkgChangeAction::RemoveValidated(_) => u,
        IDkgChangeAction::RemoveUnvalidated(m) => drop_msg(u, m),
        IDkgChangeAction::HandleInvalid(m) => drop_msg(u, m),
    }
}

/// The validated bag after a whole change set, applied in order.
pub open spec fn validated_after(v: Seq<IDkgMessage>, cs: Seq<IDkgChangeAction>) -> Seq<
    IDkgMessage,
>
    decreases cs.len(),
{
    if cs.len() == 0 {
        v
    } else {
        step_validated(validated_after(v, cs.drop_last()), cs.last())
    }
}

/// The unvalidated bag after a whole change set, applied in order.
pub open spec fn unvalidated_after(u: Seq<IDkgMessage>, cs: Seq<IDkgChangeAction>) -> Seq<
    IDkgMessage,
>
    decreases cs.len(),
{
    if cs.len() == 0 {
        u
    } else {
        step_unvalidated(unvalidated_after(u, cs.drop_last()), cs.last())
    }
}

/// Every message of `drop_msg(s, m)` already stood in `s`; in particular no
/// new key appears, and key uniqueness survives the removal.
pub proof fn lemma_drop_msg_sub(s: Seq<IDkgMessage>, m: IDkgMessage)
    ensures
        forall|x: IDkgMessage| has_key(drop_msg(s, m), x) ==> has_key(s, x),
        unique_keys(s) ==> unique_keys(drop_msg(s, m)),
        forall|x: IDkgMessage| has_msg(drop_msg(s, m), x) ==> has_msg(s, x),
        !has_msg(drop_msg(s, m), m),
    decreases s.len(),
{
    if s.len() == 0 {
    } else {
        let rest = drop_msg(s.drop_last(), m);
        lemma_drop_msg_sub(s.drop_last(), m);
        assert forall|x: IDkgMessage| has_key(rest, x) implies has_key(s, x) by {
            assert(has_key(s.drop_last(), x));
            let i = choose|i: int| 0 <= i < s.drop_last().len() && same_key(s.drop_last()[i], x);
            assert(same_key(s[i], x));
        }
        assert forall|x: IDkgMessage| has_msg(rest, x) implies has_msg(s, x) by {
            assert(has_msg(s.drop_last(), x));
            let i = choose|i: int| 0 <= i < s.drop_last().len() && msg_eq(s.drop_last()[i], x);
            assert(msg_eq(s[i], x));
        }
        if !msg_eq(s.last(), m) {
            assert forall|x: IDkgMessage| has_key(drop_msg(s, m), x) implies has_key(s, x) by {
                let i = choose|i: int|
                    0 <= i < drop_msg(s, m).len() && same_key(drop_msg(s, m)[i], x);
                if i < rest.len() {
                    assert(has_key(rest, x));
                } else {
                    assert(same_key(s.last(), x));
                    assert(same_key(s[s.len() - 1], x));
                }
            }
            assert forall|x: IDkgMessage| has_msg(drop_msg(s, m), x) implies has_msg(s, x) by {
                let i = choose|i: int|
                    0 <= i < drop_msg(s, m).len() && msg_eq(drop_msg(s, m)[i], x);
                if i < rest.len() {
                    assert(has_msg(rest, x));
                } else {
                    assert(msg_eq(s[s.len() - 1], x));
                }
            }
            if unique_keys(s) {
                assert(unique_keys(s.drop_last())) by {
                    assert(forall|i: int, j: int|
                        0 <= i < j < s.drop_last().len() ==> !same_key(
                            s.drop_last()[i],
                            s.drop_last()[j],
                        )) by {
                        assert(forall|i: int, j: int|
                            0 <= i < j < s.len() - 1 ==> !same_key(s[i], s[j]));
                    }
                }
                assert forall|i: int, j: int|
                    0 <= i < j < drop_msg(s, m).len() implies !same_key(
                    drop_msg(s, m)[i],
                    drop_msg(s, m)[j],
                ) by {
                    if j < rest.len() {
                    } else {
                        // `j` points at the re-appended last element; position `i`
                        // holds a survivor of the prefix, whose key differs from
                        // the last element's because `s` had unique keys.
                        assert(drop_msg(s, m)[j] == s.last());
                        assert(has_key(rest, drop_msg(s, m)[i])) by {
                            assert(same_key(drop_msg(s, m)[i], drop_msg(s, m)[i]))
                                by {
                                crate::types::lemma_msg_eq_same_key(
                                    drop_msg(s, m)[i],
                                    drop_msg(s, m)[i],
                                );
                            }
                        }
                        assert(has_key(s.drop_last(), drop_msg(s, m)[i]));
                        let k = choose|k: int|
                            0 <= k < s.drop_last().len() && same_key(
                                s.drop_last()[k],
                                drop_msg(s, m)[i],
                            );
                        assert(!same_key(s[k], s[s.len() - 1]));
                        assert(same_key(s[k], drop_msg(s, m)[i]));
                        crate::types::lemma_msg_eq_same_key(s[k], drop_msg(s, m)[i]);
                        if same_key(drop_msg(s, m)[i], drop_msg(s, m)[j]) {
                            assert(same_key(s[k], s[s.len() - 1]));
                        }
                    }
                }
            }
        } else {
            if unique_keys(s) {
                assert(unique_keys(s.drop_last())) by {
                    assert(forall|i: int, j: int|
                        0 <= i < j < s.len() - 1 ==> !same_key(s[i], s[j]));
                }
            }
        }
    }
}

/// The local store of IDKG artifacts: the unvalidated bag holds what gossip
/// delivered, the validated bag holds what this replica has verified or
/// created itself.
pub struct IDkgPool {
    pub validated: Vec<IDkgMessage>,
    pub unvalidated: Vec<IDkgMessage>,
}

impl IDkgPool {
    /// The pool invariant: validated messages have pairwise distinct keys.
    pub open spec fn wf(self) -> bool {
        unique_keys(self.validated@)
    }

    /// An empty pool.
    pub fn new() -> (r: IDkgPool)
        ensures
            r.validated@.len() == 0,
            r.unvalidated@.len() == 0,
            r.wf(),
    {
        IDkgPool { validated: Vec::new(), unvalidated: Vec::new() }
    }

    /// Receives one message from the gossip layer into the unvalidated bag.
    pub fn insert_unvalidated(&mut self, m: IDkgMessage)
        ensures
            final(self).unvalidated@ == old(self).unvalidated@.push(m),
            final(self).validated@ == old(self).validated@,
            old(self).wf() ==> final(self).wf(),
    {
        self.unvalidated.push(m);
    }

    /// Applies a change set atomically: each action in order, inserts absorbed
    /// when their key already sits in the validated bag. The invariant is
    /// preserved unconditionally.
    pub fn apply(&mut self, cs: &Vec<IDkgChangeAction>)
        requires
            old(self).wf(),
        ensures
            final(self).validated@ == validated_after(old(self).validated@, cs@),
            final(self).unvalidated@ == unvalidated_after(old(self).unvalidated@, cs@),
            final(self).wf(),
    {
        let ghost v0 = self.validated@;
        let ghost u0 = self.unvalidated@;
        let mut i: usize = 0;
        while i < cs.len()
            invariant
                i <= cs@.len(),
                self.validated@ == validated_after(v0, cs@.take(i as int)),
                self.unvalidated@ == unvalidated_after(u0, cs@.take(i as int)),
                unique_keys(self.validated@),
                unique_keys(v0),
            decreases cs@.len() - i,
        {
            let ghost pre_v = self.validated@;
            let ghost pre_u = self.unvalidated@;
            match &cs[i] {
                IDkgChangeAction::AddToValidated(m) => {
                    if !contains_key(&self.validated, m) {
                        self.validated.push(*m);
                    }
                }
                IDkgChangeAction::MoveToValidated(m) => {
                    if !contains_key(&self.validated, m) {
                        self.validated.push(*m);
                    }
                    remove_msg(&mut self.unvalidated, m);
                }
                IDkgChangeAction::RemoveValidated(m) => {
                    remove_msg(&mut self.validated, m);
                }
                IDkgChangeAction::RemoveUnvalidated(m) => {
                    remove_msg(&mut self.unvalidated, m);
                }
                IDkgChangeAction::HandleInvalid(m) => {
                    remove_msg(&mut self.unvalidated, m);
                }
            }
            proof {
                assert(self.validated@ == step_validated(pre_v, cs@[i as int]));
                assert(self.unvalidated@ == step_unvalidated(pre_u, cs@[i as int]));
                match cs@[i as int] {
                    IDkgChangeAction::AddToValidated(m) => {
                        if !has_key(pre_v, m) {
                            lemma_push_unique(pre_v, m);
                        }
                    }
                    IDkgChangeAction::MoveToValidated(m) => {
                        if !has_key(pre_v, m) {
                            lemma_push_unique(pre_v, m);
                        }
                    }
                    IDkgChangeAction::RemoveValidated(m) => {
                        lemma_drop_msg_sub(pre_v, m);
                    }
                    _ => {}
                }
                assert(cs@.take(i + 1).drop_last() =~= cs@.take(i as int));
                assert(cs@.take(i + 1).last() == cs@[i as int]);
            }
            i = i + 1;
        }
        proof {
            assert(cs@.take(cs@.len() as int) =~= cs@);
        }
    }
}

/// Every element of `s` not equal to `m` survives `drop_msg(s, m)`.
pub proof fn lemma_drop_msg_keeps(s: Seq<IDkgMessage>, m: IDkgMessage, i: int)
    requires
        0 <= i < s.len(),
        !msg_eq(s[i], m),
    ensures
        exists|j: int| 0 <= j < drop_msg(s, m).len() && drop_msg(s, m)[j] == s[i],
    decreases s.len(),
{
    let d = drop_msg(s, m);
    let rest = drop_msg(s.drop_last(), m);
    if i == s.len() - 1 {
        assert(s.last() == s[i]);
        assert(d == rest.push(s.last()));
        assert(d[rest.len() as int] == s[i]);
    } else {
        assert(s.drop_last()[i] == s[i]);
        lemma_drop_msg_keeps(s.drop_last(), m, i);
        let j = choose|j: int| 0 <= j < rest.len() && rest[j] == s[i];
        if msg_eq(s.last(), m) {
            assert(d == rest);
            assert(d[j] == s[i]);
        } else {
            assert(d == rest.push(s.last()));
            assert(d[j] == rest[j]);
        }
    }
}

/// Pushing a message whose key is fresh keeps the keys pairwise distinct.
pub proof fn lemma_push_unique(s: Seq<IDkgMessage>, m: IDkgMessage)
    requires
        unique_keys(s),
        !has_key(s, m),
    ensures
        unique_keys(s.push(m)),
{
    assert forall|i: int, j: int| 0 <= i < j < s.push(m).len() implies !same_key(
        s.push(m)[i],
        s.push(m)[j],
    ) by {
        if j == s.len() {
            if same_key(s[i], m) {
                assert(has_key(s, m));
            }
        }
    }
}

/// Decides whether `v` holds a message with the same key as `m`.
pub fn contains_key(v: &Vec<IDkgMessage>, m: &IDkgMessage) -> (r: bool)
    ensures
        r == has_key(v@, *m),
{
    let mut i: usize = 0;
    while i < v.len()
        invariant
            i <= v@.len(),
            forall|k: int| 0 <= k < i ==> !same_key(v@[k], *m),
        decreases v@.len() - i,
    {
        if crate::types::message_same_key(&v[i], m) {
            return true;
        }
        i = i + 1;
    }
    false
}

/// Decides whether `v` holds a message equal to `m`.
pub fn contains_msg(v: &Vec<IDkgMessage>, m: &IDkgMessage) -> (r: bool)
    ensures
        r == has_msg(v@, *m),
{
    let mut i: usize = 0;
    while i < v.len()
        invariant
            i <= v@.len(),
            forall|k: int| 0 <= k < i ==> !msg_eq(v@[k], *m),
        decreases v@.len() - i,
    {
        if crate::types::message_eq(&v[i], m) {
            return true;
        }
        i = i + 1;
    }
    false
}

/// Removes every occurrence of `m` from `v`.
fn remove_msg(v: &mut Vec<IDkgMessage>, m: &IDkgMessage)
    ensures
        final(v)@ == drop_msg(old(v)@, *m),
{
    let ghost s0 = v@;
    let mut out: Vec<IDkgMessage> = Vec::new();
    let mut i: usize = 0;
    while i < v.len()
        invariant
            i <= v@.len(),
            v@ == s0,
            out@ == drop_msg(s0.take(i as int), *m),
        decreases v@.len() - i,
    {
        let ghost pre = out@;
        if !crate::types::message_eq(&v[i], m) {
            out.push(v[i]);
        }
        proof {
            assert(s0.take(i + 1).drop_last() =~= s0.take(i as int));
            assert(s0.take(i + 1).last() == s0[i as int]);
        }
        i = i + 1;
    }
    proof {
        assert(s0.take(s0.len() as int) =~= s0);
    }
    *v = out;
}

} // verus!
