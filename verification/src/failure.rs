//! What goes wrong upstream, and the providers that are kept ready meanwhile.

use crate::reply::{
    error, failure, failures_say_what_went_wrong, tells, Reply, ReplyView, BAD_GATEWAY, UNAUTHORIZED,
};
use crate::text::{has_part, has_text, lower, same, stands_at, to_lower};
use vstd::prelude::*;

verus! {

/// A failure whose message speaks of the sign-in, in any letter case.
pub open spec fn about_sign_in(message: Seq<char>) -> bool {
    let m = lower(message);
    ||| has_part(m, "401"@)
    ||| has_part(m, "403"@)
    ||| has_part(m, "unauthenticated"@)
    ||| has_part(m, "authentication"@)
    ||| has_part(m, "credential"@)
    ||| has_part(m, "incorrect api key"@)
    ||| has_part(m, "expired"@)
    ||| has_part(m, "not configured"@)
}

/// Whether the message of a failure speaks of the sign-in.
pub fn looks_like_auth_failure(msg: &str) -> (r: bool)
    ensures
        r == about_sign_in(msg@),
{
    let m = to_lower(msg);
    let m = m.as_str();
    has_text(m, "401") || has_text(m, "403") || has_text(m, "unauthenticated") || has_text(
        m,
        "authentication",
    ) || has_text(m, "credential") || has_text(m, "incorrect api key") || has_text(m, "expired")
        || has_text(m, "not configured")
}

/// The answer to a request that failed upstream.
pub open spec fn upstream_reply(message: Seq<char>) -> ReplyView {
    if about_sign_in(message) {
        failure(UNAUTHORIZED, message, "authentication_error"@)
    } else {
        failure(BAD_GATEWAY, message, "upstream_error"@)
    }
}

/// The answer to a request that failed upstream.
pub fn failure_reply(message: &str) -> (r: Reply)
    ensures
        r@ == upstream_reply(message@),
{
    if looks_like_auth_failure(message) {
        error(UNAUTHORIZED, message, "authentication_error")
    } else {
        error(BAD_GATEWAY, message, "upstream_error")
    }
}

/// The providers that were built and are kept for the next request, each under its id.
///
/// One is built on first use, so that a missing sign-in is reported for each request and not when
/// the gateway starts.
#[derive(Debug)]
pub struct ProviderCache<P> {
    slots: Vec<(String, P)>,
}

/// No two slots have the same id.
spec fn distinct<P>(slots: Seq<(String, P)>) -> bool {
    forall|i: int, j: int|
        0 <= i < j < slots.len() ==> #[trigger] slots[i].0@ != #[trigger] slots[j].0@
}

/// `id` has a slot.
spec fn held<P>(slots: Seq<(String, P)>, id: Seq<char>) -> bool {
    exists|i: int| 0 <= i < slots.len() && #[trigger] slots[i].0@ == id
}

impl<P> ProviderCache<P> {
    /// The provider under each id.
    pub closed spec fn view(&self) -> Map<Seq<char>, P> {
        Map::new(
            |id: Seq<char>| held(self.slots@, id),
            |id: Seq<char>|
                {
                    let i = choose|i: int|
                        0 <= i < self.slots@.len() && #[trigger] self.slots@[i].0@ == id;
                    self.slots@[i].1
                },
        )
    }

    #[verifier::type_invariant]
    spec fn well_formed(&self) -> bool {
        distinct(self.slots@)
    }

    proof fn lemma_slot(&self, i: int)
        requires
            distinct(self.slots@),
            0 <= i < self.slots@.len(),
        ensures
            self@.dom().contains(self.slots@[i].0@),
            self@[self.slots@[i].0@] == self.slots@[i].1,
    {
        let id = self.slots@[i].0@;
        let j = choose|j: int| 0 <= j < self.slots@.len() && #[trigger] self.slots@[j].0@ == id;
        assert(self.slots@[i].0@ == id);
        assert(i == j);
    }

    /// No provider is ready.
    pub fn new() -> (r: Self)
        ensures
            r@ == Map::<Seq<char>, P>::empty(),
    {
        let r = ProviderCache { slots: Vec::new() };
        assert(r@ =~= Map::empty());
        r
    }

    /// The position of the slot of `id`, or how many slots there are.
    fn position(&self, id: &str) -> (r: usize)
        ensures
            r <= self.slots@.len(),
            r < self.slots@.len() ==> self.slots@[r as int].0@ == id@,
            r == self.slots@.len() ==> !held(self.slots@, id@),
    {
        let mut i: usize = 0;
        while i < self.slots.len()
            invariant
                i <= self.slots@.len(),
                forall|j: int| 0 <= j < i ==> #[trigger] self.slots@[j].0@ != id@,
            decreases self.slots@.len() - i,
        {
            if same(self.slots[i].0.as_str(), id) {
                return i;
            }
            i += 1;
        }
        i
    }

    /// The provider under an id, where one is ready.
    pub fn get(&self, id: &str) -> (r: Option<&P>)
        ensures
            r matches Some(p) ==> self@.dom().contains(id@) && self@[id@] == *p,
            r is None ==> !self@.dom().contains(id@),
    {
        proof {
            use_type_invariant(self);
        }
        let i = self.position(id);
        if i < self.slots.len() {
            proof {
                self.lemma_slot(i as int);
            }
            Some(&self.slots[i].1)
        } else {
            None
        }
    }

    /// Drops the provider under an id; the next request builds it again.
    pub fn forget(&mut self, id: &str)
        ensures
            final(self)@ == old(self)@.remove(id@),
    {
        proof {
            use_type_invariant(&*self);
        }
        let i = self.position(id);
        let ghost before = *self;
        if i < self.slots.len() {
            let mut slots: Vec<(String, P)> = Vec::new();
            std::mem::swap(&mut slots, &mut self.slots);
            slots.remove(i);
            let ghost rest = slots@;
            assert(distinct(rest));
            self.slots = slots;
            proof {
                assert forall|x: Seq<char>| held(rest, x) == (held(before.slots@, x) && x != id@)
                    by {
                    if held(rest, x) {
                        let k = choose|k: int| 0 <= k < rest.len() && #[trigger] rest[k].0@ == x;
                        let was = if k < i {
                            k
                        } else {
                            k + 1
                        };
                        assert(before.slots@[was].0@ == x);
                        assert(before.slots@[i as int].0@ == id@);
                    }
                    if held(before.slots@, x) && x != id@ {
                        let k = choose|k: int|
                            0 <= k < before.slots@.len() && #[trigger] before.slots@[k].0@ == x;
                        let now = if k < i {
                            k
                        } else {
                            k - 1
                        };
                        assert(rest[now].0@ == x);
                    }
                }
                assert forall|x: Seq<char>| held(rest, x) implies self@[x] == before@[x] by {
                    let k = choose|k: int| 0 <= k < rest.len() && #[trigger] rest[k].0@ == x;
                    self.lemma_slot(k);
                    before.lemma_slot(
                        if k < i {
                            k
                        } else {
                            k + 1
                        },
                    );
                }
                assert(self@ =~= before@.remove(id@));
            }
        } else {
            assert(self@ =~= before@.remove(id@));
        }
    }

    /// Keeps a provider under an id, in place of the one there.
    pub fn put(&mut self, id: &str, provider: P)
        ensures
            final(self)@ == old(self)@.insert(id@, provider),
    {
        self.forget(id);
        proof {
            use_type_invariant(&*self);
        }
        let ghost before = *self;
        assert(!held(before.slots@, id@)) by {
            assert(!before@.dom().contains(id@));
        }
        let mut slots: Vec<(String, P)> = Vec::new();
        std::mem::swap(&mut slots, &mut self.slots);
        slots.push((id.to_owned(), provider));
        let ghost now = slots@;
        assert(distinct(now)) by {
            assert forall|i: int, j: int| 0 <= i < j < now.len() implies #[trigger] now[i].0@
                != #[trigger] now[j].0@ by {
                if j == now.len() - 1 {
                    assert(before.slots@[i].0@ == now[i].0@);
                }
            }
        }
        self.slots = slots;
        proof {
            let last = now.len() - 1;
            assert forall|x: Seq<char>| held(now, x) == (held(before.slots@, x) || x == id@) by {
                assert(now[last].0@ == id@);
                if held(now, x) {
                    let k = choose|k: int| 0 <= k < now.len() && #[trigger] now[k].0@ == x;
                    if k < last {
                        assert(before.slots@[k].0@ == x);
                    }
                }
                if held(before.slots@, x) {
                    let k = choose|k: int|
                        0 <= k < before.slots@.len() && #[trigger] before.slots@[k].0@ == x;
                    assert(now[k].0@ == x);
                }
            }
            assert forall|x: Seq<char>| held(now, x) implies self@[x] == before@.insert(
                id@,
                provider,
            )[x] by {
                let k = choose|k: int| 0 <= k < now.len() && #[trigger] now[k].0@ == x;
                self.lemma_slot(k);
                if k < last {
                    before.lemma_slot(k);
                }
            }
            assert(self@ =~= before@.insert(id@, provider));
        }
    }
}

/// The answer to a request that failed upstream.
///
/// A provider that was built keeps its token, so a failure of the sign-in drops it and the next
/// request builds it again. Any other failure leaves the providers as they are.
pub fn upstream_failure<P>(cache: &mut ProviderCache<P>, provider: &str, message: &str) -> (r: Reply)
    ensures
        r@ == upstream_reply(message@),
        final(cache)@ == if about_sign_in(message@) {
            old(cache)@.remove(provider@)
        } else {
            old(cache)@
        },
{
    if looks_like_auth_failure(message) {
        cache.forget(provider);
    }
    failure_reply(message)
}

/// A failure upstream is answered 401 where it is about the sign-in and 502 where it is not.
pub proof fn failures_keep_their_status(message: Seq<char>)
    ensures
        upstream_reply(message).status == if about_sign_in(message) {
            401u16
        } else {
            502u16
        },
{
}

/// A message has a word in it, in any letter case.
pub open spec fn mentions(message: Seq<char>, word: Seq<char>) -> bool {
    exists|i: int|
        0 <= i <= message.len() - word.len() && lower(
            #[trigger] message.subrange(i, i + word.len()),
        ) == word
}

proof fn lemma_mentions(message: Seq<char>, word: Seq<char>)
    ensures
        mentions(message, word) == has_part(lower(message), word),
{
    let m = lower(message);
    assert forall|i: int| 0 <= i <= message.len() - word.len() implies lower(
        #[trigger] message.subrange(i, i + word.len()),
    ) == m.subrange(i, i + word.len()) by {
        assert(lower(message.subrange(i, i + word.len())) =~= m.subrange(i, i + word.len()));
    }
    if has_part(m, word) {
        let i = choose|i: int| stands_at(m, word, i);
        assert(lower(message.subrange(i, i + word.len())) == word);
    }
    if mentions(message, word) {
        let i = choose|i: int|
            0 <= i <= message.len() - word.len() && lower(
                #[trigger] message.subrange(i, i + word.len()),
            ) == word;
        assert(stands_at(m, word, i));
    }
}

/// A failure is about the sign-in exactly where its message mentions one of eight words. It is then
/// answered with 401, and else with 502; either way the client reads the message as it is.
pub proof fn failures_are_told_apart_by_their_words(message: Seq<char>)
    ensures
        ({
            let about = {
                ||| mentions(message, "401"@)
                ||| mentions(message, "403"@)
                ||| mentions(message, "unauthenticated"@)
                ||| mentions(message, "authentication"@)
                ||| mentions(message, "credential"@)
                ||| mentions(message, "incorrect api key"@)
                ||| mentions(message, "expired"@)
                ||| mentions(message, "not configured"@)
            };
            &&& about_sign_in(message) == about
            &&& about ==> tells(upstream_reply(message), 401, message, "authentication_error"@)
            &&& !about ==> tells(upstream_reply(message), 502, message, "upstream_error"@)
        }),
{
    lemma_mentions(message, "401"@);
    lemma_mentions(message, "403"@);
    lemma_mentions(message, "unauthenticated"@);
    lemma_mentions(message, "authentication"@);
    lemma_mentions(message, "credential"@);
    lemma_mentions(message, "incorrect api key"@);
    lemma_mentions(message, "expired"@);
    lemma_mentions(message, "not configured"@);
    failures_say_what_went_wrong(401, message, "authentication_error"@);
    failures_say_what_went_wrong(502, message, "upstream_error"@);
}

} // verus!
