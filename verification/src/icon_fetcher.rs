//! The poll-based icon fetcher a plugin requests icons through.
//!
//! Fetching is fire-and-forget and correlated by identifier: a query
//! returns a fresh request identifier at once, the host's workers complete
//! the request later, and the requester polls the identifier.  A poll of an
//! uncompleted request answers "not ready" — never a stale handle.  There
//! is no cancellation: discarding an identifier simply abandons interest.

use vstd::prelude::*;

use crate::helper::spec_lower;
use crate::helper::lower_chars;
use crate::helper::str_to_chars;

verus! {

/// Where a fetch request stands.
#[derive(Clone, Copy, Debug, PartialEq, Eq, Structural)]
pub enum IconRequestState {
    /// The workers have not completed the request.
    Pending,
    /// The icon was found and rendered to this host surface.
    Done(u32),
    /// The lookup completed and found no icon.
    NotFound,
}

/// One recorded fetch request.
pub struct IconRequest {
    /// The identifier handed to the requester.
    pub uid: u32,
    /// The requested icon name (or `file://` path).
    pub name: String,
    /// Requested width.
    pub wsize: i32,
    /// Requested height.
    pub hsize: i32,
    /// Where the request stands.
    pub state: IconRequestState,
}

/// The state a request identifier maps to, if the identifier is known.
pub open spec fn spec_lookup(s: Seq<IconRequest>, uid: u32) -> Option<IconRequestState>
    decreases s.len(),
{
    if s.len() == 0 {
        None
    } else if s[0].uid == uid {
        Some(s[0].state)
    } else {
        spec_lookup(s.drop_first(), uid)
    }
}

/// The surface a poll of `uid` yields: only a completed, found icon.
pub open spec fn spec_get(s: Seq<IconRequest>, uid: u32) -> Option<u32> {
    match spec_lookup(s, uid) {
        Some(IconRequestState::Done(surface)) => Some(surface),
        _ => None,
    }
}

/// Whether a poll of `uid` reports success: the request is known and the
/// workers have completed it, found or not.
pub open spec fn spec_get_completed(s: Seq<IconRequest>, uid: u32) -> bool {
    match spec_lookup(s, uid) {
        Some(IconRequestState::Pending) => false,
        Some(_) => true,
        None => false,
    }
}

/// Appending a request with a fresh identifier leaves every other lookup
/// unchanged and makes the new identifier map to the new request's state.
pub proof fn lemma_lookup_push(s: Seq<IconRequest>, req: IconRequest, uid: u32)
    ensures
        uid == req.uid && spec_lookup(s, uid) is None ==> spec_lookup(s.push(req), uid) == Some(
            req.state,
        ),
        uid != req.uid ==> spec_lookup(s.push(req), uid) == spec_lookup(s, uid),
    decreases s.len(),
{
    if s.len() == 0 {
        assert(s.push(req).drop_first() =~= s);
    } else {
        assert(s.push(req).drop_first() =~= s.drop_first().push(req));
        lemma_lookup_push(s.drop_first(), req, uid);
    }
}

/// Replacing the state of the request at one position changes exactly that
/// identifier's lookup.
pub proof fn lemma_lookup_update(s: Seq<IconRequest>, i: int, req: IconRequest, uid: u32)
    requires
        0 <= i < s.len(),
        req.uid == s[i].uid,
        forall|j: int| 0 <= j < s.len() && j != i ==> s[j].uid != s[i].uid,
    ensures
        uid == req.uid ==> spec_lookup(s.update(i, req), uid) == Some(req.state),
        uid != req.uid ==> spec_lookup(s.update(i, req), uid) == spec_lookup(s, uid),
    decreases s.len(),
{
    if i == 0 {
        assert(s.update(i, req).drop_first() =~= s.drop_first());
    } else {
        assert(s.update(i, req)[0] == s[0]);
        assert(s.update(i, req).drop_first() =~= s.drop_first().update(i - 1, req));
        assert forall|j: int|
            0 <= j < s.drop_first().len() && j != i - 1 implies (#[trigger] s.drop_first()[j]).uid
            != s.drop_first()[i - 1].uid by {
            assert(s.drop_first()[j] == s[j + 1]);
        }
        lemma_lookup_update(s.drop_first(), i - 1, req, uid);
    }
}

/// The icon fetcher: the requests made so far and the next free
/// identifier.
pub struct IconFetcher {
    /// The identifier the next query receives.
    pub next_uid: u32,
    /// Every request made so far, oldest first.
    pub requests: Vec<IconRequest>,
}

impl IconFetcher {
    /// Identifiers are handed out in increasing order, below `next_uid`,
    /// so they never repeat.
    pub open spec fn wf(self) -> bool {
        &&& 1 <= self.next_uid
        &&& forall|i: int| 0 <= i < self.requests@.len() ==> self.requests@[i].uid < self.next_uid
        &&& forall|i: int, j: int|
            0 <= i < j < self.requests@.len() ==> self.requests@[i].uid < self.requests@[j].uid
    }

    /// A fresh fetcher with no requests.
    pub fn init() -> (r: Self)
        ensures
            r.wf(),
            r.requests@.len() == 0,
            r.next_uid == 1,
    {
        IconFetcher { next_uid: 1, requests: Vec::new() }
    }

    /// Drops every recorded request, returning the fetcher to its initial
    /// state.
    pub fn destroy(&mut self)
        ensures
            final(self).wf(),
            final(self).requests@.len() == 0,
            final(self).next_uid == 1,
    {
        self.next_uid = 1;
        self.requests = Vec::new();
    }

    /// Submits a request for an icon at a square size and returns its
    /// fresh identifier at once; the request starts out pending.
    pub fn query(&mut self, name: String, size: i32) -> (r: u32)
        requires
            old(self).wf(),
            old(self).next_uid < u32::MAX,
        ensures
            final(self).wf(),
            r == old(self).next_uid,
            final(self).next_uid == r + 1,
            final(self).requests@ == old(self).requests@.push(
                IconRequest {
                    uid: r,
                    name: name,
                    wsize: size,
                    hsize: size,
                    state: IconRequestState::Pending,
                },
            ),
            spec_lookup(final(self).requests@, r) == Some(IconRequestState::Pending),
            forall|u: u32|
                u != r ==> spec_lookup(final(self).requests@, u) == spec_lookup(
                    old(self).requests@,
                    u,
                ),
    {
        self.query_advanced(name, size, size)
    }

    /// Submits a request for an icon at an explicit width and height and
    /// returns its fresh identifier at once; the request starts out
    /// pending.
    pub fn query_advanced(&mut self, name: String, wsize: i32, hsize: i32) -> (r: u32)
        requires
            old(self).wf(),
            old(self).next_uid < u32::MAX,
        ensures
            final(self).wf(),
            r == old(self).next_uid,
            final(self).next_uid == r + 1,
            final(self).requests@ == old(self).requests@.push(
                IconRequest {
                    uid: r,
                    name: name,
                    wsize: wsize,
                    hsize: hsize,
                    state: IconRequestState::Pending,
                },
            ),
            spec_lookup(final(self).requests@, r) == Some(IconRequestState::Pending),
            forall|u: u32|
                u != r ==> spec_lookup(final(self).requests@, u) == spec_lookup(
                    old(self).requests@,
                    u,
                ),
    {
        let uid = self.next_uid;
        let req = IconRequest {
            uid,
            name,
            wsize,
            hsize,
            state: IconRequestState::Pending,
        };
        proof {
            assert(spec_lookup(self.requests@, uid) is None) by {
                lemma_lookup_fresh(self.requests@, uid, self.next_uid);
            }
            lemma_lookup_push(self.requests@, req, uid);
            assert forall|u: u32| u != uid implies spec_lookup(
                self.requests@.push(req),
                u,
            ) == spec_lookup(self.requests@, u) by {
                lemma_lookup_push(self.requests@, req, u);
            }
        }
        self.requests.push(req);
        self.next_uid = uid + 1;
        uid
    }

    /// Records the workers' outcome for a pending request: the rendered
    /// surface, or that no icon was found.  Identifiers that are unknown
    /// or already completed are left alone.
    pub fn complete(&mut self, uid: u32, surface: Option<u32>)
        requires
            old(self).wf(),
        ensures
            final(self).wf(),
            final(self).next_uid == old(self).next_uid,
            spec_lookup(old(self).requests@, uid) == Some(IconRequestState::Pending)
                ==> spec_lookup(final(self).requests@, uid) == Some(
                match surface {
                    Some(s) => IconRequestState::Done(s),
                    None => IconRequestState::NotFound,
                },
            ),
            spec_lookup(old(self).requests@, uid) != Some(IconRequestState::Pending)
                ==> final(self).requests@ == old(self).requests@,
            forall|u: u32|
                u != uid ==> spec_lookup(final(self).requests@, u) == spec_lookup(
                    old(self).requests@,
                    u,
                ),
    {
        let ghost s0 = self.requests@;
        let mut i: usize = 0;
        while i < self.requests.len()
            invariant
                self.requests@ == s0,
                self.next_uid == old(self).next_uid,
                old(self).wf(),
                s0 == old(self).requests@,
                i <= s0.len(),
                forall|k: int| 0 <= k < i as int ==> s0[k].uid != uid,
            decreases s0.len() - i,
        {
            if self.requests[i].uid == uid {
                if matches!(self.requests[i].state, IconRequestState::Pending) {
                    let new_state = match surface {
                        Some(s) => IconRequestState::Done(s),
                        None => IconRequestState::NotFound,
                    };
                    let updated = IconRequest {
                        uid: self.requests[i].uid,
                        name: self.requests[i].name.clone(),
                        wsize: self.requests[i].wsize,
                        hsize: self.requests[i].hsize,
                        state: new_state,
                    };
                    proof {
                        lemma_lookup_present(s0, i as int, uid);
                        assert forall|j: int|
                            0 <= j < s0.len() && j != i as int implies s0[j].uid != s0[i as int].uid by {
                            if j < i as int {
                                assert(s0[j].uid < s0[i as int].uid);
                            } else {
                                assert(s0[i as int].uid < s0[j].uid);
                            }
                        }
                        lemma_lookup_update(s0, i as int, updated, uid);
                        assert forall|u: u32| u != uid implies spec_lookup(
                            s0.update(i as int, updated),
                            u,
                        ) == spec_lookup(s0, u) by {
                            lemma_lookup_update(s0, i as int, updated, u);
                        }
                    }
                    self.requests.set(i, updated);
                    proof {
                        let s1 = self.requests@;
                        assert(s1 =~= s0.update(i as int, updated));
                        assert forall|j: int| 0 <= j < s1.len() implies (#[trigger] s1[j]).uid
                            == s0[j].uid by {
                            if j != i as int {
                                assert(s1[j] == s0[j]);
                            }
                        }
                        assert(self.wf());
                    }
                } else {
                    proof {
                        lemma_lookup_present(s0, i as int, uid);
                    }
                }
                return ;
            }
            i += 1;
        }
        proof {
            lemma_lookup_absent(s0, uid);
        }
    }

    /// Polls a request: the rendered surface if the request completed with
    /// an icon, and nothing while it is pending, unknown, or found no
    /// icon.
    pub fn get(&self, uid: u32) -> (r: Option<u32>)
        requires
            self.wf(),
        ensures
            r == spec_get(self.requests@, uid),
    {
        let (_completed, surface) = self.get_ex(uid);
        surface
    }

    /// Polls a request, separating "the request completed" from "an icon
    /// is present": the flag reports completion, the surface is present
    /// exactly when an icon was found.
    pub fn get_ex(&self, uid: u32) -> (r: (bool, Option<u32>))
        requires
            self.wf(),
        ensures
            r.0 == spec_get_completed(self.requests@, uid),
            r.1 == spec_get(self.requests@, uid),
    {
        let ghost s0 = self.requests@;
        let mut i: usize = 0;
        while i < self.requests.len()
            invariant
                self.requests@ == s0,
                i <= s0.len(),
                forall|k: int| 0 <= k < i as int ==> s0[k].uid != uid,
            decreases s0.len() - i,
        {
            if self.requests[i].uid == uid {
                proof {
                    lemma_lookup_present(s0, i as int, uid);
                }
                return match self.requests[i].state {
                    IconRequestState::Pending => (false, None),
                    IconRequestState::Done(surface) => (true, Some(surface)),
                    IconRequestState::NotFound => (true, None),
                };
            }
            i += 1;
        }
        proof {
            lemma_lookup_absent(s0, uid);
        }
        (false, None)
    }
}

/// A lookup of an identifier at least as large as every recorded one finds
/// nothing.
pub proof fn lemma_lookup_fresh(s: Seq<IconRequest>, uid: u32, bound: u32)
    requires
        forall|i: int| 0 <= i < s.len() ==> s[i].uid < bound,
        bound <= uid,
    ensures
        spec_lookup(s, uid) is None,
    decreases s.len(),
{
    if s.len() > 0 {
        assert(s[0].uid < bound);
        lemma_lookup_fresh(s.drop_first(), uid, bound);
    }
}

/// A scan that skipped `i` requests without finding `uid` and then finds
/// it at position `i` has computed the lookup.
pub proof fn lemma_lookup_present(s: Seq<IconRequest>, i: int, uid: u32)
    requires
        0 <= i < s.len(),
        s[i].uid == uid,
        forall|k: int| 0 <= k < i ==> s[k].uid != uid,
    ensures
        spec_lookup(s, uid) == Some(s[i].state),
    decreases i,
{
    if i == 0 {
    } else {
        assert forall|k: int| 0 <= k < i - 1 implies s.drop_first()[k].uid != uid by {
            assert(s.drop_first()[k] == s[k + 1]);
        }
        assert(s.drop_first()[i - 1] == s[i]);
        lemma_lookup_present(s.drop_first(), i - 1, uid);
    }
}

/// A scan over every request without finding `uid` has shown the lookup
/// empty.
pub proof fn lemma_lookup_absent(s: Seq<IconRequest>, uid: u32)
    requires
        forall|k: int| 0 <= k < s.len() ==> s[k].uid != uid,
    ensures
        spec_lookup(s, uid) is None,
    decreases s.len(),
{
    if s.len() > 0 {
        lemma_lookup_absent(s.drop_first(), uid);
    }
}

/// Whether `suffix` ends `s`.
pub open spec fn spec_has_suffix(s: Seq<char>, suffix: Seq<char>) -> bool {
    &&& suffix.len() <= s.len()
    &&& s.subrange(s.len() - suffix.len(), s.len() as int) == suffix
}

/// Whether `suffix` ends `s`.
pub fn has_suffix(s: &Vec<char>, suffix: &Vec<char>) -> (r: bool)
    ensures
        r == spec_has_suffix(s@, suffix@),
{
    let sn: usize = s.len();
    let sufn: usize = suffix.len();
    if sufn > sn {
        return false;
    }
    let start = sn - sufn;
    let mut j: usize = 0;
    while j < sufn
        invariant
            sufn <= sn,
            sn == s@.len(),
            sufn == suffix@.len(),
            start == sn - sufn,
            j <= sufn,
            s@.subrange(start as int, start as int + j as int) == suffix@.subrange(0, j as int),
        decreases sufn - j,
    {
        if s[start + j] != suffix[j] {
            proof {
                assert(!spec_has_suffix(s@, suffix@)) by {
                    if spec_has_suffix(s@, suffix@) {
                        let sub = s@.subrange(start as int, sn as int);
                        assert(sub[j as int] == suffix@[j as int]);
                    }
                }
            }
            return false;
        }
        j += 1;
        proof {
            assert(s@.subrange(start as int, start as int + j as int) =~= suffix@.subrange(
                0,
                j as int,
            ));
        }
    }
    proof {
        assert(s@.subrange(start as int, sn as int) =~= suffix@);
    }
    true
}

/// Whether a path names a supported image, judged by its extension,
/// compared without regard to case.
pub open spec fn spec_file_is_image(path: Seq<char>) -> bool {
    ||| spec_has_suffix(spec_lower(path), ".png"@)
    ||| spec_has_suffix(spec_lower(path), ".jpg"@)
    ||| spec_has_suffix(spec_lower(path), ".jpeg"@)
    ||| spec_has_suffix(spec_lower(path), ".gif"@)
    ||| spec_has_suffix(spec_lower(path), ".svg"@)
}

/// Whether a path names a supported image, judged by its extension,
/// compared without regard to case.
pub fn file_is_image(path: &Vec<char>) -> (r: bool)
    ensures
        r == spec_file_is_image(path@),
{
    let folded = lower_chars(path);
    let png = str_to_chars(".png");
    let jpg = str_to_chars(".jpg");
    let jpeg = str_to_chars(".jpeg");
    let gif = str_to_chars(".gif");
    let svg = str_to_chars(".svg");
    has_suffix(&folded, &png) || has_suffix(&folded, &jpg) || has_suffix(&folded, &jpeg)
        || has_suffix(&folded, &gif) || has_suffix(&folded, &svg)
}

} // verus!
