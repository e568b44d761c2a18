//! The service layer: answers the five call types against the shadow
//! store and drives the subscription registry.
//!
//! Reads resolve sequentially and stop at the first failure; writes are
//! an independent batch, one result per requested path; a successful
//! write is pushed to the path's subscribers without blocking. Lock and
//! Unlock are thin covers over the store's batch locking and
//! release-by-token sweep.

use vstd::prelude::*;
use vstd::string::StringExecFns;
use crate::error::VehicleShadowError;
use crate::fmt::u64_to_string;
use crate::registry::SubscriptionManager;
use crate::store::{row_of, with_lock, VehicleShadow};
use crate::signal::SignalModel;
use crate::wire::{
    apply_state_update, convert_signal_to_proto, spec_signal_to_proto, GetResponse, LockResponse,
    SetResponse, SetResult, SetSignalRequest, SubscribeResponse, UnlockResponse,
    UnsubscribeResponse,
};

verus! {

/// Whether the store holds a readable row under the path.
pub open spec fn resolved(m: Map<Seq<char>, Seq<u8>>, p: Seq<char>) -> bool {
    m.contains_key(p) && row_of(m[p]) is Some
}

/// The readable row under a path.
pub open spec fn stored_row(m: Map<Seq<char>, Seq<u8>>, p: Seq<char>) -> SignalModel {
    row_of(m[p])->Some_0
}

/// The overlay carried by one batch entry, if any.
pub open spec fn request_overlay(req: SetSignalRequest) -> Option<crate::wire::WireStateModel> {
    match req.state {
        Option::Some(w) => Option::Some(w@),
        Option::None => Option::None,
    }
}

/// Whether a write to the path is possible and permitted on the given
/// store: the path holds a readable row, and the row stored under that
/// row's own path does not refuse the write token.
pub open spec fn write_permitted(m: Map<Seq<char>, Seq<u8>>, p: Seq<char>, token: Option<Seq<char>>) -> bool {
    &&& resolved(m, p)
    &&& !crate::store::lock_conflict(
        match m.contains_key(stored_row(m, p).path) {
            true => row_of(m[stored_row(m, p).path]),
            false => Option::None,
        },
        token,
    )
}

/// The store after the first `k` entries of a batch write, given which
/// entries reported success: a successful entry overwrites the
/// then-stored row, under the row's own path, with its overlay applied;
/// a failed entry changes nothing.
pub open spec fn spec_set_fold(
    m: Map<Seq<char>, Seq<u8>>,
    reqs: Seq<SetSignalRequest>,
    flags: Seq<bool>,
    k: int,
) -> Map<Seq<char>, Seq<u8>>
    decreases k,
{
    if k <= 0 {
        m
    } else {
        let prev = spec_set_fold(m, reqs, flags, k - 1);
        if flags[k - 1] {
            let stored = stored_row(prev, reqs[k - 1].path@);
            let updated = overlaid_row(stored, request_overlay(reqs[k - 1]));
            prev.insert(stored.path, crate::codec::enc_signal(updated))
        } else {
            prev
        }
    }
}

/// The fold reads only the first `k` success flags, so flag sequences
/// that agree there fold alike.
proof fn lemma_fold_agrees(
    m: Map<Seq<char>, Seq<u8>>,
    reqs: Seq<SetSignalRequest>,
    f1: Seq<bool>,
    f2: Seq<bool>,
    k: int,
)
    requires
        forall|j: int| 0 <= j < k ==> f1[j] == f2[j],
    ensures
        spec_set_fold(m, reqs, f1, k) == spec_set_fold(m, reqs, f2, k),
    decreases k,
{
    if k > 0 {
        lemma_fold_agrees(m, reqs, f1, f2, k - 1);
    }
}

/// The notifications the first `k` entries of a batch write push out,
/// given which entries reported success: each successful entry offers
/// its path the freshly stored row, in request order.
pub open spec fn spec_set_log(
    m: Map<Seq<char>, Seq<u8>>,
    reqs: Seq<SetSignalRequest>,
    flags: Seq<bool>,
    k: int,
) -> Seq<(Seq<char>, crate::wire::SubscribeResponseModel)>
    decreases k,
{
    if k <= 0 {
        Seq::empty()
    } else {
        let prevlog = spec_set_log(m, reqs, flags, k - 1);
        if flags[k - 1] {
            let prev = spec_set_fold(m, reqs, flags, k - 1);
            let stored = stored_row(prev, reqs[k - 1].path@);
            let updated = overlaid_row(stored, request_overlay(reqs[k - 1]));
            prevlog.push(
                (
                    reqs[k - 1].path@,
                    crate::wire::SubscribeResponseModel {
                        signal: Option::Some(spec_signal_to_proto(updated)),
                        error_message: Seq::empty(),
                    },
                ),
            )
        } else {
            prevlog
        }
    }
}

/// The notification log, like the fold, reads only the first `k` flags.
proof fn lemma_log_agrees(
    m: Map<Seq<char>, Seq<u8>>,
    reqs: Seq<SetSignalRequest>,
    f1: Seq<bool>,
    f2: Seq<bool>,
    k: int,
)
    requires
        forall|j: int| 0 <= j < k ==> f1[j] == f2[j],
    ensures
        spec_set_log(m, reqs, f1, k) == spec_set_log(m, reqs, f2, k),
    decreases k,
{
    if k > 0 {
        lemma_log_agrees(m, reqs, f1, f2, k - 1);
        lemma_fold_agrees(m, reqs, f1, f2, k - 1);
    }
}

/// A row after an optional partial overlay: the state overlaid where an
/// overlay was supplied, the path and config untouched.
pub open spec fn overlaid_row(sm: SignalModel, o: Option<crate::wire::WireStateModel>) -> SignalModel {
    SignalModel {
        path: sm.path,
        state: match o {
            Option::Some(w) => crate::wire::spec_apply_state_update(sm.state, w),
            Option::None => sm.state,
        },
        config: sm.config,
    }
}

/// Batch writes are not deduplicated. When a one-entry batch succeeds
/// against a store whose row is keyed under its own path, writing the
/// same entry again successfully leaves the store exactly as the first
/// write left it, the row reads back as the overlaid signal after
/// either write, and each of the two writes pushes out a notification
/// of its own, both carrying that same stored row.
#[verifier::rlimit(100)]
#[verifier::spinoff_prover]
pub proof fn lemma_set_repeat(m: Map<Seq<char>, Seq<u8>>, req: SetSignalRequest)
    requires
        m.contains_key(req.path@),
        row_of(m[req.path@]) matches Option::Some(sm) && sm.path == req.path@
            && crate::codec::wf_signal(overlaid_row(sm, request_overlay(req))),
    ensures
        ({
            let once = spec_set_fold(m, seq![req], seq![true], 1);
            let twice = spec_set_fold(once, seq![req], seq![true], 1);
            let updated = overlaid_row(stored_row(m, req.path@), request_overlay(req));
            &&& twice == once
            &&& row_of(once[req.path@]) == Option::Some(updated)
            &&& spec_set_log(m, seq![req], seq![true], 1) == seq![
                (
                    req.path@,
                    crate::wire::SubscribeResponseModel {
                        signal: Option::Some(spec_signal_to_proto(updated)),
                        error_message: Seq::<char>::empty(),
                    },
                ),
            ]
            &&& spec_set_log(once, seq![req], seq![true], 1) == spec_set_log(
                m,
                seq![req],
                seq![true],
                1,
            )
        }),
{
    let p = req.path@;
    let sm = row_of(m[p])->Some_0;
    let ov = request_overlay(req);
    let updated = overlaid_row(sm, ov);
    assert(seq![true][0] == true);
    assert(seq![req][0] == req);
    assert(spec_set_fold(m, seq![req], seq![true], 0) == m);
    let once = spec_set_fold(m, seq![req], seq![true], 1);
    assert(once == m.insert(p, crate::codec::enc_signal(updated)));
    crate::store::lemma_row_of_enc(updated);
    assert(row_of(once[p]) == Option::Some(updated));
    let updated2 = overlaid_row(stored_row(once, p), ov);
    assert(updated2 =~= updated) by {
        match ov {
            Option::Some(w) => {
                assert(crate::wire::spec_apply_state_update(
                    crate::wire::spec_apply_state_update(sm.state, w),
                    w,
                ) =~= crate::wire::spec_apply_state_update(sm.state, w));
            },
            Option::None => {},
        }
    }
    assert(once.contains_key(p));
    assert(stored_row(once, p) == updated);
    assert(spec_set_fold(once, seq![req], seq![true], 0) == once);
    assert(updated2 == updated);
    assert(updated2.path == p);
    let twice = spec_set_fold(once, seq![req], seq![true], 1);
    assert(twice == once.insert(p, crate::codec::enc_signal(updated2)));
    assert(twice =~= once);
    assert(spec_set_log(m, seq![req], seq![true], 0)
        == Seq::<(Seq<char>, crate::wire::SubscribeResponseModel)>::empty());
    assert(spec_set_log(once, seq![req], seq![true], 0)
        == Seq::<(Seq<char>, crate::wire::SubscribeResponseModel)>::empty());
    assert(spec_set_log(m, seq![req], seq![true], 1) =~= seq![
        (
            p,
            crate::wire::SubscribeResponseModel {
                signal: Option::Some(spec_signal_to_proto(updated)),
                error_message: Seq::<char>::empty(),
            },
        ),
    ]);
    assert(spec_set_log(once, seq![req], seq![true], 1) =~= spec_set_log(
        m,
        seq![req],
        seq![true],
        1,
    ));
}

/// The service: the shadow store, the live subscriptions, and a counter
/// minting lock tokens.
pub struct SignalServiceImpl {
    vehicle_shadow: VehicleShadow,
    subscription_manager: SubscriptionManager,
    next_token: u64,
}

impl SignalServiceImpl {
    /// What the store holds.
    pub closed spec fn shadow_view(&self) -> Map<Seq<char>, Seq<u8>> {
        self.vehicle_shadow@
    }

    /// The registered subscription paths, one per live subscriber.
    pub closed spec fn subs_view(&self) -> Seq<Seq<char>> {
        self.subscription_manager@
    }

    /// The counter minting lock tokens: each Lock call takes the current
    /// reading for its token text and advances the counter, so distinct
    /// calls mint distinct tokens until the counter wraps.
    pub closed spec fn token_counter(&self) -> u64 {
        self.next_token
    }

    /// The notifications offered to subscribers so far, oldest first.
    pub closed spec fn notified(&self) -> Seq<(Seq<char>, crate::wire::SubscribeResponseModel)> {
        self.subscription_manager.notified()
    }

    /// Wraps a store in a service with no subscribers.
    pub fn new(vehicle_shadow: VehicleShadow) -> (r: Self)
        ensures
            r.shadow_view() == vehicle_shadow@,
            r.subs_view() == Seq::<Seq<char>>::empty(),
            r.notified() == Seq::<(Seq<char>, crate::wire::SubscribeResponseModel)>::empty(),
    {
        SignalServiceImpl {
            vehicle_shadow,
            subscription_manager: SubscriptionManager::new(),
            next_token: 0,
        }
    }

    /// Resolves the paths in order, stopping at the first failure.
    ///
    /// The rows resolved before the failure are still returned; the
    /// response then carries `success == false` and an error text naming
    /// the failing path. Success holds exactly when every path resolved.
    pub fn get(&self, paths: &Vec<String>) -> (r: GetResponse)
        ensures
            r.signals@.len() <= paths@.len(),
            forall|k: int| 0 <= k < r.signals@.len() ==> resolved(
                self.shadow_view(),
                (#[trigger] paths@[k])@,
            ) && r.signals@[k]@ == spec_signal_to_proto(
                stored_row(self.shadow_view(), paths@[k]@),
            ),
            r.success <==> r.signals@.len() == paths@.len(),
            !r.success ==> (exists|e: VehicleShadowError|
                #![trigger e.spec_message()]
                {
                    let failing = paths@[r.signals@.len() as int]@;
                    &&& r.error_message@ == "Failed to get signal "@ + failing + ": "@
                        + e.spec_message()
                    &&& (e is NotFound || e is Serialization || e is Database)
                    &&& (e is NotFound ==> !self.shadow_view().contains_key(failing))
                    &&& (e is Serialization ==> self.shadow_view().contains_key(failing)
                        && row_of(self.shadow_view()[failing]) is None)
                    &&& (resolved(self.shadow_view(), failing) ==> e is Database)
                }),
    {
        let mut signals: Vec<crate::wire::WireSignal> = Vec::new();
        let n = paths.len();
        let mut i: usize = 0;
        while i < n
            invariant
                n == paths@.len(),
                i <= n,
                signals@.len() == i,
                forall|k: int| 0 <= k < i ==> resolved(
                    self.shadow_view(),
                    (#[trigger] paths@[k])@,
                ) && signals@[k]@ == spec_signal_to_proto(
                    stored_row(self.shadow_view(), paths@[k]@),
                ),
            decreases n - i,
        {
            match self.vehicle_shadow.get_signal(paths[i].clone()) {
                Result::Ok(sig) => {
                    signals.push(convert_signal_to_proto(&sig));
                },
                Result::Err(e) => {
                    let ghost failed = e;
                    let mut m = "Failed to get signal ".to_owned();
                    m.append(paths[i].as_str());
                    m.append(": ");
                    let detail = e.message();
                    m.append(detail.as_str());
                    proof {
                        assert(m@ == "Failed to get signal "@ + paths@[i as int]@ + ": "@
                            + failed.spec_message());
                    }
                    return GetResponse { signals, success: false, error_message: m };
                },
            }
            i = i + 1;
        }
        GetResponse { signals, success: true, error_message: String::new() }
    }

    /// Writes the batch, one independent outcome per requested path.
    ///
    /// Per path: the current row is loaded, the partial overlay applied,
    /// the row persisted under the write token's lock rules, and on
    /// success the new row is offered to that path's subscribers without
    /// blocking. A path's failure never stops the others; the overall
    /// flag is the conjunction of the per-path outcomes; and the final
    /// store is exactly the fold of the successful writes, in request
    /// order, over the store at the call.
    #[verifier::rlimit(100)]
    #[verifier::spinoff_prover]
    pub fn set(&mut self, signals: Vec<SetSignalRequest>, token: &Option<String>) -> (r:
        SetResponse)
        ensures
            r.results@.len() == signals@.len(),
            forall|k: int| 0 <= k < r.results@.len() ==> (#[trigger] r.results@[k]).path@
                == signals@[k].path@,
            r.success <==> (forall|k: int| 0 <= k < r.results@.len() ==> (#[trigger] r.results@[
                k
            ]).success),
            final(self).subs_view() == old(self).subs_view(),
            final(self).shadow_view() == spec_set_fold(
                old(self).shadow_view(),
                signals@,
                r.results@.map_values(|x: SetResult| x.success),
                signals@.len() as int,
            ),
            final(self).notified() == old(self).notified() + spec_set_log(
                old(self).shadow_view(),
                signals@,
                r.results@.map_values(|x: SetResult| x.success),
                signals@.len() as int,
            ),
            forall|k: int| 0 <= k < r.results@.len() && (#[trigger] r.results@[k]).success
                ==> write_permitted(
                spec_set_fold(
                    old(self).shadow_view(),
                    signals@,
                    r.results@.map_values(|x: SetResult| x.success),
                    k,
                ),
                signals@[k].path@,
                crate::signal::opt_str_view(*token),
            ),
    {
        let mut results: Vec<SetResult> = Vec::new();
        let mut success = true;
        let n = signals.len();
        let mut i: usize = 0;
        while i < n
            invariant
                n == signals@.len(),
                i <= n,
                results@.len() == i,
                forall|k: int| 0 <= k < i ==> (#[trigger] results@[k]).path@
                    == signals@[k].path@,
                success <==> (forall|k: int| 0 <= k < i ==> (#[trigger] results@[k]).success),
                self.subs_view() == old(self).subs_view(),
                self.shadow_view() == spec_set_fold(
                    old(self).shadow_view(),
                    signals@,
                    results@.map_values(|x: SetResult| x.success),
                    i as int,
                ),
                self.notified() == old(self).notified() + spec_set_log(
                    old(self).shadow_view(),
                    signals@,
                    results@.map_values(|x: SetResult| x.success),
                    i as int,
                ),
                forall|k: int| 0 <= k < i && (#[trigger] results@[k]).success
                    ==> write_permitted(
                    spec_set_fold(
                        old(self).shadow_view(),
                        signals@,
                        results@.map_values(|x: SetResult| x.success),
                        k,
                    ),
                    signals@[k].path@,
                    crate::signal::opt_str_view(*token),
                ),
            decreases n - i,
        {
            let ghost shadow_at_entry = self.shadow_view();
            let ghost notified_at_entry = self.notified();
            let ghost flags_before = results@.map_values(|x: SetResult| x.success);
            let path = signals[i].path.clone();
            let outcome: SetResult = match self.vehicle_shadow.get_signal(path.clone()) {
                Result::Ok(mut sig) => {
                    proof {
                        assert(sig@ == stored_row(shadow_at_entry, signals@[i as int].path@));
                    }
                    if let Option::Some(ps) = &signals[i].state {
                        apply_state_update(&mut sig.state, ps);
                    }
                    proof {
                        assert(sig@ =~= overlaid_row(
                            stored_row(shadow_at_entry, signals@[i as int].path@),
                            request_overlay(signals@[i as int]),
                        ));
                    }
                    let snapshot = convert_signal_to_proto(&sig);
                    match self.vehicle_shadow.set_signal(sig, token) {
                        Result::Ok(()) => {
                            let message = SubscribeResponse {
                                signal: Option::Some(snapshot),
                                error_message: String::new(),
                            };
                            let _ = self.subscription_manager.notify(path.as_str(), message);
                            SetResult {
                                path,
                                success: true,
                                error_message: String::new(),
                            }
                        },
                        Result::Err(e) => {
                            let mut m = "Failed to set signal: ".to_owned();
                            let detail = e.message();
                            m.append(detail.as_str());
                            SetResult { path, success: false, error_message: m }
                        },
                    }
                },
                Result::Err(e) => {
                    let mut m = "Signal not found: ".to_owned();
                    let detail = e.message();
                    m.append(detail.as_str());
                    SetResult { path, success: false, error_message: m }
                },
            };
            if !outcome.success {
                success = false;
            }
            let ghost item = outcome;
            let ghost results_before = results@;
            results.push(outcome);
            proof {
                assert(results@[i as int] == item);
                assert(forall|k: int| 0 <= k < i ==> results@[k] == results_before[k]);
                let flags_after = results@.map_values(|x: SetResult| x.success);
                assert(forall|j: int| 0 <= j <= i ==> flags_after[j] == results@[j].success);
                lemma_fold_agrees(
                    old(self).shadow_view(),
                    signals@,
                    flags_after,
                    flags_before,
                    i as int,
                );
                lemma_log_agrees(
                    old(self).shadow_view(),
                    signals@,
                    flags_after,
                    flags_before,
                    i as int,
                );
                assert(spec_set_fold(
                    old(self).shadow_view(),
                    signals@,
                    flags_after,
                    i as int,
                ) == shadow_at_entry);
                assert(self.notified() == old(self).notified() + spec_set_log(
                    old(self).shadow_view(),
                    signals@,
                    flags_after,
                    i + 1,
                )) by {
                    let log_prev = spec_set_log(
                        old(self).shadow_view(),
                        signals@,
                        flags_after,
                        i as int,
                    );
                    let log_next = spec_set_log(
                        old(self).shadow_view(),
                        signals@,
                        flags_after,
                        i + 1,
                    );
                    if item.success {
                        assert(notified_at_entry == old(self).notified() + log_prev);
                        assert(old(self).notified() + log_next =~= (old(self).notified()
                            + log_prev).push(log_next.last()));
                    } else {
                        assert(log_next == log_prev);
                    }
                }
                assert(flags_after[i as int] == item.success);
                assert(self.shadow_view() == spec_set_fold(
                    old(self).shadow_view(),
                    signals@,
                    flags_after,
                    i + 1,
                ));
                assert forall|k: int| 0 <= k < i + 1 && (#[trigger] results@[k]).success
                    implies write_permitted(
                    spec_set_fold(old(self).shadow_view(), signals@, flags_after, k),
                    signals@[k].path@,
                    crate::signal::opt_str_view(*token),
                ) by {
                    lemma_fold_agrees(
                        old(self).shadow_view(),
                        signals@,
                        flags_after,
                        flags_before,
                        k,
                    );
                    if k < i {
                        assert(results_before[k].success);
                    }
                }
            }
            i = i + 1;
        }
        SetResponse { results, success, error_message: String::new() }
    }

    /// Registers one fresh channel per path and yields each path's
    /// first message.
    ///
    /// The receivers come back in path order, paired with the first
    /// messages: a resolved path yields its current stored signal, so a
    /// subscriber observes the latest known state even absent further
    /// writes; a path that cannot be read yields a message carrying the
    /// error text instead, and the subscription stands either way.
    pub fn subscribe(&mut self, paths: &Vec<String>) -> (r: (
        Vec<tokio::sync::mpsc::Receiver<SubscribeResponse>>,
        Vec<SubscribeResponse>,
    ))
        ensures
            final(self).shadow_view() == old(self).shadow_view(),
            final(self).notified() == old(self).notified(),
            final(self).subs_view() == old(self).subs_view() + paths@.map_values(
                |p: String| p@,
            ),
            r.0@.len() == paths@.len(),
            r.1@.len() == paths@.len(),
            forall|k: int| 0 <= k < r.1@.len() ==> ((#[trigger] r.1@[k])@.signal
                matches Option::Some(ws) ==> resolved(old(self).shadow_view(), paths@[k]@) && ws
                == spec_signal_to_proto(stored_row(old(self).shadow_view(), paths@[k]@)) && r.1@[
                k
            ]@.error_message == Seq::<char>::empty()),
            forall|k: int| 0 <= k < r.1@.len() ==> ((#[trigger] r.1@[k])@.signal is None
                ==> r.1@[k]@.error_message.len() > 0 && (exists|e: VehicleShadowError|
                #![trigger e.spec_message()]
                {
                    &&& r.1@[k]@.error_message == e.spec_message()
                    &&& (e is NotFound ==> !old(self).shadow_view().contains_key(paths@[k]@))
                    &&& (resolved(old(self).shadow_view(), paths@[k]@) ==> e is Database)
                })),
            forall|k: int| 0 <= k < r.1@.len() ==> (!old(self).shadow_view().contains_key(
                (#[trigger] paths@[k])@,
            ) ==> r.1@[k]@.signal is None),
    {
        let mut receivers: Vec<tokio::sync::mpsc::Receiver<SubscribeResponse>> = Vec::new();
        let mut initial: Vec<SubscribeResponse> = Vec::new();
        let n = paths.len();
        let mut i: usize = 0;
        proof {
            assert(old(self).subs_view() + paths@.subrange(0, 0).map_values(|p: String| p@)
                =~= old(self).subs_view());
        }
        while i < n
            invariant
                n == paths@.len(),
                i <= n,
                receivers@.len() == i,
                initial@.len() == i,
                self.shadow_view() == old(self).shadow_view(),
                self.notified() == old(self).notified(),
                self.subs_view() == old(self).subs_view() + paths@.subrange(0, i as int).map_values(
                    |p: String| p@,
                ),
                forall|k: int| 0 <= k < i ==> ((#[trigger] initial@[k])@.signal
                    matches Option::Some(ws) ==> resolved(old(self).shadow_view(), paths@[k]@)
                    && ws == spec_signal_to_proto(
                    stored_row(old(self).shadow_view(), paths@[k]@),
                ) && initial@[k]@.error_message == Seq::<char>::empty()),
                forall|k: int| 0 <= k < i ==> ((#[trigger] initial@[k])@.signal is None
                    ==> initial@[k]@.error_message.len() > 0 && (exists|e: VehicleShadowError|
                    #![trigger e.spec_message()]
                    {
                        &&& initial@[k]@.error_message == e.spec_message()
                        &&& (e is NotFound ==> !old(self).shadow_view().contains_key(
                            paths@[k]@,
                        ))
                        &&& (resolved(old(self).shadow_view(), paths@[k]@) ==> e is Database)
                    })),
                forall|k: int| 0 <= k < i ==> (!old(self).shadow_view().contains_key(
                    (#[trigger] paths@[k])@,
                ) ==> initial@[k]@.signal is None),
            decreases n - i,
        {
            let rx = self.subscription_manager.subscribe(paths[i].clone());
            receivers.push(rx);
            let first = match self.vehicle_shadow.get_signal(paths[i].clone()) {
                Result::Ok(sig) => SubscribeResponse {
                    signal: Option::Some(convert_signal_to_proto(&sig)),
                    error_message: String::new(),
                },
                Result::Err(e) => {
                    let ghost failed = e;
                    proof {
                        crate::error::lemma_message_nonempty(e);
                    }
                    let first = SubscribeResponse {
                        signal: Option::None,
                        error_message: e.message(),
                    };
                    proof {
                        assert(first@.error_message == failed.spec_message());
                    }
                    first
                },
            };
            initial.push(first);
            proof {
                assert(paths@.subrange(0, i + 1 as int) =~= paths@.subrange(0, i as int).push(
                    paths@[i as int],
                ));
                assert(paths@.subrange(0, i + 1 as int).map_values(|p: String| p@)
                    =~= paths@.subrange(0, i as int).map_values(|p: String| p@).push(
                    paths@[i as int]@,
                ));
                assert(self.subs_view() =~= old(self).subs_view() + paths@.subrange(
                    0,
                    i + 1 as int,
                ).map_values(|p: String| p@));
            }
            i = i + 1;
        }
        proof {
            assert(paths@.subrange(0, n as int) =~= paths@);
        }
        (receivers, initial)
    }

    /// Clears every subscription registered under the given paths; other
    /// paths' subscribers are kept.
    pub fn unsubscribe(&mut self, paths: &Vec<String>) -> (r: UnsubscribeResponse)
        ensures
            r.success,
            final(self).shadow_view() == old(self).shadow_view(),
            final(self).notified() == old(self).notified(),
            forall|q: Seq<char>| #[trigger] final(self).subs_view().contains(q) ==> old(self).subs_view().contains(q),
            forall|k: int| 0 <= k < paths@.len() ==> !final(self).subs_view().contains(
                (#[trigger] paths@[k])@,
            ),
            forall|q: Seq<char>| old(self).subs_view().contains(q) && (forall|k: int|
                0 <= k < paths@.len() ==> (#[trigger] paths@[k])@ != q) ==> final(self).subs_view().contains(q),
    {
        let n = paths.len();
        let mut i: usize = 0;
        while i < n
            invariant
                n == paths@.len(),
                i <= n,
                self.shadow_view() == old(self).shadow_view(),
                self.notified() == old(self).notified(),
                forall|q: Seq<char>| #[trigger] self.subs_view().contains(q) ==> old(self).subs_view().contains(q),
                forall|k: int| 0 <= k < i ==> !self.subs_view().contains(
                    (#[trigger] paths@[k])@,
                ),
                forall|q: Seq<char>| old(self).subs_view().contains(q) && (forall|k: int|
                    0 <= k < i ==> (#[trigger] paths@[k])@ != q) ==> self.subs_view().contains(q),
            decreases n - i,
        {
            let ghost before = self.subs_view();
            self.subscription_manager.unsubscribe(paths[i].as_str());
            proof {
                assert forall|q: Seq<char>| #[trigger] self.subs_view().contains(q) implies old(self).subs_view().contains(q) by {
                    assert(before.contains(q));
                }
            }
            i = i + 1;
        }
        UnsubscribeResponse { success: true, error_message: String::new() }
    }

    /// Locks every given path under a freshly minted token and hands the
    /// token back; a failed probe or acquisition reports the error
    /// instead. The token carries the counter reading at the call, and
    /// the counter advances whatever the outcome, so distinct calls mint
    /// distinct tokens until the counter wraps.
    pub fn lock(&mut self, paths: Vec<String>) -> (r: Result<LockResponse, VehicleShadowError>)
        ensures
            final(self).subs_view() == old(self).subs_view(),
            final(self).notified() == old(self).notified(),
            final(self).token_counter() == (if old(self).token_counter()
                < 0xFFFF_FFFF_FFFF_FFFF {
                (old(self).token_counter() + 1) as u64
            } else {
                0u64
            }),
            (r matches Result::Ok(resp) ==> {
                &&& resp.token@ == "lock-"@ + crate::fmt::spec_digits(
                    old(self).token_counter() as nat,
                )
                &&& final(self).shadow_view().dom() == old(self).shadow_view().dom()
                &&& forall|k: int| 0 <= k < paths@.len() ==> old(self).shadow_view().contains_key(
                    (#[trigger] paths@[k])@,
                ) && (row_of(old(self).shadow_view()[paths@[k]@]) matches Option::Some(osm)
                    && osm.state.lock_token is None && row_of(
                    final(self).shadow_view()[paths@[k]@],
                ) == Option::Some(with_lock(osm, Option::Some(resp.token@))))
                &&& forall|key: Seq<char>| old(self).shadow_view().contains_key(key) && (forall|
                    k: int,
                |
                    0 <= k < paths@.len() ==> (#[trigger] paths@[k])@ != key) ==> final(self).shadow_view()[key] == old(self).shadow_view()[key]
            }),
    {
        let mut token = "lock-".to_owned();
        let digits = u64_to_string(self.next_token);
        token.append(digits.as_str());
        if self.next_token < 0xFFFF_FFFF_FFFF_FFFF {
            self.next_token = self.next_token + 1;
        } else {
            self.next_token = 0;
        }
        match self.vehicle_shadow.try_locks(paths, &token) {
            Result::Ok(()) => Result::Ok(LockResponse { token }),
            Result::Err(e) => Result::Err(e),
        }
    }

    /// Releases every lock held under the token; reports whether the
    /// sweep completed.
    pub fn unlock(&mut self, token: &String) -> (r: UnlockResponse)
        ensures
            final(self).subs_view() == old(self).subs_view(),
            final(self).notified() == old(self).notified(),
            (r.success ==> {
                &&& final(self).shadow_view().dom() == old(self).shadow_view().dom()
                &&& forall|key: Seq<char>|
                    #![trigger old(self).shadow_view().contains_key(key)]
                    old(self).shadow_view().contains_key(key) ==> (row_of(
                        old(self).shadow_view()[key],
                    ) matches Option::Some(sm) && ((sm.state.lock_token == Option::Some(token@)
                        && row_of(final(self).shadow_view()[key]) == Option::Some(
                        with_lock(sm, Option::None),
                    )) || (sm.state.lock_token != Option::Some(token@) && final(self).shadow_view()[key] == old(self).shadow_view()[key])))
            }),
    {
        match self.vehicle_shadow.release_lock(token) {
            Result::Ok(()) => UnlockResponse { success: true },
            Result::Err(_) => UnlockResponse { success: false },
        }
    }
}

} // verus!
