//! The tool model: the advertisement sent to the model ([`ToolSpec`]), the
//! per-run side channel between tools and the turn loop ([`ToolContext`],
//! [`StopRequest`]), and the registry the loop advertises and dispatches
//! through ([`ToolSet`]).

use vstd::prelude::*;

use tokio_util::sync::CancellationToken;

use crate::failure::{DuplicateToolName, ToolFailure};
use crate::text::{owned, text_eq};

verus! {

#[verifier::external_type_specification]
#[verifier::external_body]
pub struct ExCancellationToken(CancellationToken);

/// Whether `token` has been cancelled, by the outside crate's own account.
///
/// Calls `tokio_util::sync::CancellationToken::is_cancelled`. Another task
/// may cancel the token at any moment, so nothing is claimed of the answer.
#[verifier::external_body]
fn token_is_cancelled(token: &CancellationToken) -> bool {
    token.is_cancelled()
}

/// The advertisement sent to the model: a wire name, a description, and a
/// JSON Schema for its parameters.
#[derive(Debug, PartialEq, Eq)]
pub struct ToolSpec {
    /// The name the model calls this tool by.
    pub name: String,
    /// What the tool does, shown to the model.
    pub description: String,
    /// The JSON Schema its arguments must satisfy, as JSON text.
    pub parameters: String,
}

impl Clone for ToolSpec {
    fn clone(&self) -> (r: Self)
        ensures
            r == *self,
    {
        ToolSpec {
            name: self.name.clone(),
            description: self.description.clone(),
            parameters: self.parameters.clone(),
        }
    }
}

/// The parameter type for a tool that takes no arguments.
#[derive(Debug, Clone, Copy, PartialEq, Eq, Structural)]
pub struct NoParams {}

/// A request, recorded by a tool, to end the run after the current round.
#[derive(Debug, PartialEq, Eq)]
pub struct StopRequest {
    /// What to tell the user.
    pub reply: String,
    /// Why the run is ending, for whoever handles it next.
    pub reason: String,
}

impl Clone for StopRequest {
    fn clone(&self) -> (r: Self)
        ensures
            r == *self,
    {
        StopRequest { reply: self.reply.clone(), reason: self.reason.clone() }
    }
}

/// The slot after a stop is requested: a request already recorded stays.
pub open spec fn stop_after_request(
    pending: Option<(Seq<char>, Seq<char>)>,
    request: (Seq<char>, Seq<char>),
) -> Option<(Seq<char>, Seq<char>)> {
    match pending {
        Some(p) => Some(p),
        None => Some(request),
    }
}

/// The typed side channel between a run's tools and the turn loop.
///
/// Created fresh for each run. It carries the run's cancellation token and
/// a first-wins slot for a stop request: if more than one tool records one
/// in the same round, the first call to [`ToolContext::request_stop`] wins
/// and later calls are ignored.
#[derive(Debug)]
pub struct ToolContext {
    cancellation_token: CancellationToken,
    stop_request: Option<StopRequest>,
}

impl ToolContext {
    /// The stop request recorded and not yet taken, as (reply, reason).
    pub closed spec fn pending_stop(&self) -> Option<(Seq<char>, Seq<char>)> {
        match self.stop_request {
            Some(s) => Some((s.reply@, s.reason@)),
            None => None,
        }
    }

    /// The run's cancellation token.
    pub closed spec fn token(&self) -> CancellationToken {
        self.cancellation_token
    }

    /// Creates a fresh context for one run, carrying its cancellation
    /// token.
    pub fn new(cancellation_token: CancellationToken) -> (c: Self)
        ensures
            c.pending_stop() is None,
            c.token() == cancellation_token,
    {
        ToolContext { cancellation_token, stop_request: None }
    }

    /// The run's cancellation token.
    pub fn cancellation_token(&self) -> (t: &CancellationToken)
        ensures
            *t == self.token(),
    {
        &self.cancellation_token
    }

    /// Whether the run's cancellation token has been cancelled.
    pub fn is_cancelled(&self) -> bool {
        token_is_cancelled(&self.cancellation_token)
    }

    /// Records a request to end the run after the current round.
    ///
    /// Returns whether this call recorded the request: `false` means a
    /// request was already recorded, and this call was ignored.
    pub fn request_stop(&mut self, reply: &str, reason: &str) -> (recorded: bool)
        ensures
            recorded == old(self).pending_stop() is None,
            final(self).token() == old(self).token(),
            final(self).pending_stop() == stop_after_request(
                old(self).pending_stop(),
                (reply@, reason@),
            ),
    {
        if self.stop_request.is_some() {
            false
        } else {
            self.stop_request = Some(StopRequest { reply: owned(reply), reason: owned(reason) });
            true
        }
    }

    /// Takes the recorded stop request, if any, leaving the slot empty.
    pub fn take_stop_request(&mut self) -> (r: Option<StopRequest>)
        ensures
            final(self).pending_stop() is None,
            final(self).token() == old(self).token(),
            match (r, old(self).pending_stop()) {
                (Some(s), Some((reply, reason))) => s.reply@ == reply && s.reason@ == reason,
                (None, None) => true,
                _ => false,
            },
    {
        self.stop_request.take()
    }
}

/// Two calls to `request_stop` in one fresh context: the first wins, and
/// the slot holds the first request afterwards.
pub proof fn law_first_stop_request_wins(first: (Seq<char>, Seq<char>), second: (Seq<char>, Seq<char>))
    ensures
        stop_after_request(stop_after_request(None, first), second) == Some(first),
{
}

/// Whether `names` holds no name twice.
pub open spec fn distinct_names(names: Seq<Seq<char>>) -> bool {
    forall|i: int, j: int| 0 <= i < j < names.len() ==> names[i] != names[j]
}

/// The index of the first registration whose name an earlier registration
/// already used, if any.
pub open spec fn first_duplicate(names: Seq<Seq<char>>) -> Option<int>
    decreases names.len(),
{
    if names.len() == 0 {
        None
    } else {
        match first_duplicate(names.drop_last()) {
            Some(i) => Some(i),
            None => if names.drop_last().contains(names.last()) {
                Some(names.len() - 1)
            } else {
                None
            },
        }
    }
}

/// The position of `name` in `names`, if it is there.
pub open spec fn position_of(names: Seq<Seq<char>>, name: Seq<char>) -> Option<int> {
    if names.contains(name) {
        Some(choose|i: int| 0 <= i < names.len() && names[i] == name)
    } else {
        None
    }
}

/// The registry a turn loop advertises to the model and dispatches through.
///
/// Ordered by registration and keyed by wire name: every name appears once.
/// `H` is whatever runs a tool.
pub struct ToolSet<H> {
    names: Vec<String>,
    handlers: Vec<H>,
}

/// Every name's view, in order.
pub open spec fn name_views(names: Seq<String>) -> Seq<Seq<char>> {
    names.map_values(|n: String| n@)
}

/// The names of `(name, handler)` registrations, in order.
pub open spec fn entry_names<H>(entries: Seq<(String, H)>) -> Seq<Seq<char>> {
    entries.map_values(|e: (String, H)| e.0@)
}

/// The handlers of `(name, handler)` registrations, in order.
pub open spec fn entry_handlers<H>(entries: Seq<(String, H)>) -> Seq<H> {
    entries.map_values(|e: (String, H)| e.1)
}

impl<H> ToolSet<H> {
    /// The registered wire names, in registration order.
    pub closed spec fn spec_names(&self) -> Seq<Seq<char>> {
        name_views(self.names@)
    }

    /// The registered handlers, in registration order.
    pub closed spec fn spec_handlers(&self) -> Seq<H> {
        self.handlers@
    }

    /// Names and handlers line up, and no name appears twice.
    pub closed spec fn well_formed(&self) -> bool {
        &&& self.names@.len() == self.handlers@.len()
        &&& distinct_names(self.spec_names())
    }

    #[verifier::type_invariant]
    spec fn inv(self) -> bool {
        self.well_formed()
    }

    /// Builds a registry from `(wire name, handler)` pairs, in the order
    /// given.
    ///
    /// Fails with the first name an earlier handler already advertised.
    pub fn new(entries: Vec<(String, H)>) -> (r: Result<Self, DuplicateToolName>)
        ensures
            match first_duplicate(entry_names(entries@)) {
                Some(i) => r matches Err(d) && d.name@ == entries@[i].0@,
                None => r matches Ok(set) && set.well_formed() && set.spec_names()
                    == entry_names(entries@) && set.spec_handlers()
                    == entry_handlers(entries@),
            },
    {
        let ghost all = entries@;
        let ghost keys = entry_names(all);
        let mut names: Vec<String> = Vec::new();
        let mut handlers: Vec<H> = Vec::new();
        let mut rest = entries;
        let mut reversed: Vec<(String, H)> = Vec::new();
        while rest.len() > 0
            invariant
                reversed@.len() + rest@.len() == all.len(),
                rest@ == all.take(rest@.len() as int),
                forall|k: int|
                    0 <= k < reversed@.len() ==> #[trigger] reversed@[k] == all[all.len() - 1 - k],
            decreases rest.len(),
        {
            let e = rest.pop().unwrap();
            reversed.push(e);
        }
        while reversed.len() > 0
            invariant
                reversed@.len() + names@.len() == all.len(),
                names@.len() == handlers@.len(),
                forall|k: int|
                    0 <= k < reversed@.len() ==> #[trigger] reversed@[k] == all[all.len() - 1 - k],
                name_views(names@) == keys.take(names@.len() as int),
                handlers@ == entry_handlers(all).take(names@.len() as int),
                first_duplicate(keys.take(names@.len() as int)) is None,
                keys == entry_names(all),
                keys.len() == all.len(),
                all == entries@,
            decreases reversed.len(),
        {
            let (name, handler) = reversed.pop().unwrap();
            let ghost n = names@.len() as int;
            assert(all[n].0@ == name@);
            assert(keys.take(n + 1).drop_last() =~= keys.take(n));
            assert(keys.take(n + 1).last() == name@);
            let mut j: usize = 0;
            while j < names.len()
                invariant
                    j <= names@.len(),
                    name_views(names@) == keys.take(n),
                    names@.len() == n,
                    forall|k: int| 0 <= k < j ==> names@[k]@ != name@,
                    n + 1 <= keys.len(),
                    keys.len() == all.len(),
                    keys == entry_names(all),
                    n == names@.len(),
                    all == entries@,
                    first_duplicate(keys.take(n)) is None,
                    keys.take(n + 1).drop_last() == keys.take(n),
                    keys.take(n + 1).last() == name@,
                decreases names.len() - j,
            {
                if names[j] == name {
                    proof {
                        assert(keys.take(n)[j as int] == name@);
                        assert(keys.take(n).contains(name@));
                        lemma_first_duplicate_prefix(keys, n + 1);
                        assert(first_duplicate(keys) == Some(n));
                        assert(keys[n] == all[n].0@);
                    }
                    return Err(DuplicateToolName { name });
                }
                j = j + 1;
            }
            proof {
                assert(!keys.take(n).contains(name@)) by {
                    if keys.take(n).contains(name@) {
                        let k = choose|k: int| 0 <= k < n && keys.take(n)[k] == name@;
                        assert(name_views(names@)[k] == names@[k]@);
                    }
                }
            }
            let ghost before_names = names@;
            let ghost before_handlers = handlers@;
            names.push(name);
            handlers.push(handler);
            proof {
                assert(name_views(names@) =~= name_views(before_names).push(name@));
                assert(name_views(names@) =~= keys.take(n + 1));
                assert(handlers@ =~= entry_handlers(all).take(n + 1));
            }
        }
        proof {
            assert(keys.take(all.len() as int) =~= keys);
            assert(entry_handlers(all).take(all.len() as int) =~= entry_handlers(all));
            lemma_no_duplicate_distinct(keys);
        }
        Ok(ToolSet { names, handlers })
    }

    /// The registered wire names, in registration order.
    pub fn names(&self) -> (r: Vec<String>)
        ensures
            name_views(r@) == self.spec_names(),
    {
        let mut r: Vec<String> = Vec::new();
        let mut i: usize = 0;
        while i < self.names.len()
            invariant
                i <= self.names@.len(),
                r@.len() == i,
                name_views(r@) == name_views(self.names@).take(i as int),
            decreases self.names.len() - i,
        {
            let ghost before = r@;
            r.push(self.names[i].clone());
            proof {
                assert(name_views(r@) =~= name_views(before).push(self.names@[i as int]@));
            }
            i = i + 1;
            assert(name_views(r@) =~= name_views(self.names@).take(i as int));
        }
        assert(name_views(self.names@).take(self.names.len() as int) =~= name_views(self.names@));
        r
    }

    /// The registered handlers, in registration order.
    pub fn handlers(&self) -> (r: &Vec<H>)
        ensures
            r@ == self.spec_handlers(),
    {
        &self.handlers
    }

    /// The handler registered under `name`, or [`ToolFailure::Unknown`]
    /// listing every registered name when there is none.
    pub fn find(&self, name: &str) -> (r: Result<&H, ToolFailure>)
        ensures
            self.well_formed(),
            match position_of(self.spec_names(), name@) {
                Some(i) => r matches Ok(h) && *h == self.spec_handlers()[i],
                None => r matches Err(ToolFailure::Unknown { name: n, available }) && n@ == name@
                    && name_views(available@) == self.spec_names(),
            },
    {
        proof {
            use_type_invariant(self);
        }
        let mut i: usize = 0;
        while i < self.names.len()
            invariant
                i <= self.names@.len(),
                self.well_formed(),
                forall|k: int| 0 <= k < i ==> self.names@[k]@ != name@,
            decreases self.names.len() - i,
        {
            if text_eq(self.names[i].as_str(), name) {
                proof {
                    let names = self.spec_names();
                    assert(names[i as int] == name@);
                    assert(names.contains(name@));
                    let c = choose|k: int| 0 <= k < names.len() && names[k] == name@;
                    assert(c == i) by {
                        if c != i {
                            if c < i {
                                assert(self.names@[c]@ != name@);
                            } else {
                                assert(names[i as int] != names[c]);
                            }
                        }
                    }
                }
                return Ok(&self.handlers[i]);
            }
            i = i + 1;
        }
        proof {
            let names = self.spec_names();
            assert(!names.contains(name@)) by {
                if names.contains(name@) {
                    let k = choose|k: int| 0 <= k < names.len() && names[k] == name@;
                    assert(self.names@[k]@ == name@);
                }
            }
        }
        Err(ToolFailure::Unknown { name: owned(name), available: self.names() })
    }
}

/// A duplicate found in a prefix is the first duplicate of the whole.
proof fn lemma_first_duplicate_prefix(keys: Seq<Seq<char>>, n: int)
    requires
        1 <= n <= keys.len(),
        first_duplicate(keys.take(n - 1)) is None,
        keys.take(n - 1).contains(keys[n - 1]),
    ensures
        first_duplicate(keys) == Some(n - 1),
    decreases keys.len() - n,
{
    assert(keys.take(n).drop_last() =~= keys.take(n - 1));
    assert(first_duplicate(keys.take(n)) == Some(n - 1));
    lemma_first_duplicate_extends(keys, n);
}

/// Once a prefix has a first duplicate, every longer prefix has the same.
proof fn lemma_first_duplicate_extends(keys: Seq<Seq<char>>, n: int)
    requires
        0 <= n <= keys.len(),
        first_duplicate(keys.take(n)) is Some,
    ensures
        first_duplicate(keys) == first_duplicate(keys.take(n)),
    decreases keys.len() - n,
{
    if n == keys.len() {
        assert(keys.take(n) =~= keys);
    } else {
        assert(keys.take(n + 1).drop_last() =~= keys.take(n));
        lemma_first_duplicate_extends(keys, n + 1);
    }
}

/// A sequence with no first duplicate holds no name twice.
proof fn lemma_no_duplicate_distinct(keys: Seq<Seq<char>>)
    requires
        first_duplicate(keys) is None,
    ensures
        distinct_names(keys),
    decreases keys.len(),
{
    if keys.len() > 0 {
        let prefix = keys.drop_last();
        lemma_no_duplicate_distinct(prefix);
        assert forall|i: int, j: int| 0 <= i < j < keys.len() implies keys[i] != keys[j] by {
            if j == keys.len() - 1 {
                assert(prefix[i] == keys[i]);
                assert(!prefix.contains(keys.last()));
            } else {
                assert(prefix[i] == keys[i] && prefix[j] == keys[j]);
            }
        }
    }
}

} // verus!
