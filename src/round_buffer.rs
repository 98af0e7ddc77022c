//! Inbound messages of one protocol round: a slot per expected broadcast
//! and per expected point-to-point message, filled as messages arrive. A
//! second delivery into a filled slot is a fault of its sender and leaves
//! the slots as they were.
use vstd::prelude::*;
use crate::api::TofnFatal;

verus! {

/// Which slot a message is for.
#[derive(Clone, Copy, Debug, PartialEq, Eq, Structural)]
pub enum MsgKind {
    Bcast,
    P2p { to: usize },
}

/// The inbound buffers of one round among `share_count` shares.
pub struct RoundBuffer {
    round: u8,
    share_count: usize,
    expects_bcast: bool,
    expects_p2p: bool,
    bcasts: Vec<Option<Vec<u8>>>,
    p2ps: Vec<Option<Vec<u8>>>,
    faulters: Vec<bool>,
}

/// The slot of a message: broadcasts first, then point-to-point messages
/// `from * n + to`.
pub open spec fn slot_of(n: nat, from: nat, kind: MsgKind) -> nat {
    match kind {
        MsgKind::Bcast => from,
        MsgKind::P2p { to } => n + from * n + to as nat,
    }
}

/// Whether a message from `from` of `kind` names shares among `n`.
pub open spec fn msg_valid(n: nat, from: nat, kind: MsgKind) -> bool {
    from < n && match kind {
        MsgKind::Bcast => true,
        MsgKind::P2p { to } => to < n && to != from,
    }
}

/// The slots after a delivery: an empty slot takes the payload, a filled one stays.
pub open spec fn delivered_slots(
    slots: Seq<Option<Seq<u8>>>,
    n: nat,
    from: nat,
    kind: MsgKind,
    payload: Seq<u8>,
) -> Seq<Option<Seq<u8>>> {
    let s = slot_of(n, from, kind) as int;
    if slots[s] is Some {
        slots
    } else {
        slots.update(s, Some(payload))
    }
}

/// The faulter flags after a delivery: a delivery into a filled slot marks its sender.
pub open spec fn delivered_flags(
    slots: Seq<Option<Seq<u8>>>,
    flags: Seq<bool>,
    n: nat,
    from: nat,
    kind: MsgKind,
) -> Seq<bool> {
    if slots[slot_of(n, from, kind) as int] is Some {
        flags.update(from as int, true)
    } else {
        flags
    }
}

/// Whether a slot is expected this round.
pub open spec fn slot_expected(n: nat, expects_bcast: bool, expects_p2p: bool, s: nat) -> bool {
    if s < n {
        expects_bcast
    } else {
        expects_p2p && s < n + n * n && (s - n) as nat / n != (s - n) as nat % n
    }
}

impl RoundBuffer {
    pub closed spec fn round_spec(&self) -> u8 {
        self.round
    }

    pub closed spec fn share_count_spec(&self) -> nat {
        self.share_count as nat
    }

    pub closed spec fn expects_bcast_spec(&self) -> bool {
        self.expects_bcast
    }

    pub closed spec fn expects_p2p_spec(&self) -> bool {
        self.expects_p2p
    }

    /// The payloads, one entry per slot (see `slot_of`).
    pub closed spec fn slots(&self) -> Seq<Option<Seq<u8>>> {
        let b = self.bcasts@.map_values(|m: Option<Vec<u8>>| match m {
            Some(v) => Some(v@),
            None => None,
        });
        let p = self.p2ps@.map_values(|m: Option<Vec<u8>>| match m {
            Some(v) => Some(v@),
            None => None,
        });
        b + p
    }

    /// The shares found at fault.
    pub closed spec fn faulter_flags(&self) -> Seq<bool> {
        self.faulters@
    }

    pub closed spec fn wf(&self) -> bool {
        &&& self.bcasts@.len() == self.share_count
        &&& self.p2ps@.len() == self.share_count * self.share_count
        &&& self.faulters@.len() == self.share_count
        &&& self.share_count + self.share_count * self.share_count <= usize::MAX
    }

    /// An empty buffer for `round` among `share_count` shares.
    pub fn new(round: u8, share_count: usize, expects_bcast: bool, expects_p2p: bool) -> (r: Self)
        requires
            share_count + share_count * share_count <= usize::MAX,
        ensures
            r.wf(),
            r.round_spec() == round,
            r.share_count_spec() == share_count,
            r.expects_bcast_spec() == expects_bcast,
            r.expects_p2p_spec() == expects_p2p,
            r.slots() == Seq::new(
                (share_count + share_count * share_count) as nat,
                |i: int| None::<Seq<u8>>,
            ),
            r.faulter_flags() == Seq::new(share_count as nat, |i: int| false),
    {
        let mut bcasts: Vec<Option<Vec<u8>>> = Vec::new();
        let mut faulters: Vec<bool> = Vec::new();
        let mut i: usize = 0;
        while i < share_count
            invariant
                i <= share_count,
                bcasts@.len() == i,
                faulters@.len() == i,
                forall|j: int| 0 <= j < i ==> bcasts@[j] is None,
                forall|j: int| 0 <= j < i ==> !faulters@[j],
            decreases share_count - i,
        {
            bcasts.push(None);
            faulters.push(false);
            i = i + 1;
        }
        let total = share_count * share_count;
        let mut p2ps: Vec<Option<Vec<u8>>> = Vec::new();
        let mut k: usize = 0;
        while k < total
            invariant
                k <= total,
                p2ps@.len() == k,
                forall|j: int| 0 <= j < k ==> p2ps@[j] is None,
            decreases total - k,
        {
            p2ps.push(None);
            k = k + 1;
        }
        let r = RoundBuffer {
            round,
            share_count,
            expects_bcast,
            expects_p2p,
            bcasts,
            p2ps,
            faulters,
        };
        assert(r.slots() =~= Seq::new(
            (share_count + share_count * share_count) as nat,
            |i: int| None::<Seq<u8>>,
        ));
        assert(r.faulter_flags() =~= Seq::new(share_count as nat, |i: int| false));
        r
    }

    /// Buffers a message of `round` from share `from`. Fails, changing
    /// nothing, where the round is not this one or the sender or recipient is
    /// no share, or a point-to-point message is addressed to its sender. A
    /// message for a filled slot marks its sender as a faulter and leaves the
    /// slots unchanged.
    pub fn msg_in(&mut self, round: u8, from: usize, kind: MsgKind, payload: &[u8]) -> (r: Result<(), TofnFatal>)
        requires
            old(self).wf(),
        ensures
            final(self).wf(),
            final(self).round_spec() == old(self).round_spec(),
            final(self).share_count_spec() == old(self).share_count_spec(),
            final(self).expects_bcast_spec() == old(self).expects_bcast_spec(),
            final(self).expects_p2p_spec() == old(self).expects_p2p_spec(),
            ({
                let n = old(self).share_count_spec();
                let valid = round == old(self).round_spec() && msg_valid(n, from as nat, kind);
                &&& r is Ok <==> valid
                &&& !valid ==> *final(self) == *old(self)
                &&& valid ==> final(self).slots() == delivered_slots(old(self).slots(), n,
                    from as nat, kind, payload@)
                &&& valid ==> final(self).faulter_flags() == delivered_flags(old(self).slots(),
                    old(self).faulter_flags(), n, from as nat, kind)
            }),
    {
        let n = self.share_count;
        if round != self.round || from >= n {
            return Err(TofnFatal);
        }
        proof {
            assert(from * n < n * n) by (nonlinear_arith)
                requires
                    from < n,
            ;
        }
        match kind {
            MsgKind::Bcast => {
                if self.bcasts[from].is_some() {
                    self.faulters.set(from, true);
                } else {
                    let v = copy_payload(payload);
                    self.bcasts.set(from, Some(v));
                    assert(self.slots() =~= old(self).slots().update(
                        from as int,
                        Some(payload@),
                    ));
                }
                Ok(())
            },
            MsgKind::P2p { to } => {
                if to >= n || to == from {
                    return Err(TofnFatal);
                }
                proof {
                    assert(from * n + to < n * n) by (nonlinear_arith)
                        requires
                            from < n,
                            to < n,
                    ;
                }
                let k = from * n + to;
                if self.p2ps[k].is_some() {
                    self.faulters.set(from, true);
                } else {
                    let v = copy_payload(payload);
                    self.p2ps.set(k, Some(v));
                    assert(self.slots() =~= old(self).slots().update(
                        (n + k) as int,
                        Some(payload@),
                    ));
                }
                Ok(())
            },
        }
    }

    /// Whether some expected slot is still empty.
    pub fn expecting_more_msgs_this_round(&self) -> (r: bool)
        requires
            self.wf(),
        ensures
            r == exists|s: nat|
                s < self.slots().len() && slot_expected(
                    self.share_count_spec(),
                    self.expects_bcast_spec(),
                    self.expects_p2p_spec(),
                    s,
                ) && #[trigger] self.slots()[s as int] is None,
    {
        let n = self.share_count;
        let total = n + n * n;
        let mut s: usize = 0;
        while s < total
            invariant
                self.wf(),
                n == self.share_count,
                total == n + n * n,
                self.slots().len() == total,
                s <= total,
                forall|t: nat|
                    t < s ==> !(slot_expected(n as nat, self.expects_bcast, self.expects_p2p, t)
                        && #[trigger] self.slots()[t as int] is None),
            decreases total - s,
        {
            if s >= n {
                assert(n > 0) by (nonlinear_arith)
                    requires
                        n <= s,
                        s < n + n * n,
                ;
            }
            let expected = if s < n {
                self.expects_bcast
            } else {
                self.expects_p2p && (s - n) / n != (s - n) % n
            };
            let empty = if s < n {
                self.bcasts[s].is_none()
            } else {
                self.p2ps[s - n].is_none()
            };
            if expected && empty {
                assert(slot_expected(n as nat, self.expects_bcast, self.expects_p2p, s as nat));
                assert(self.slots()[s as int] is None);
                return true;
            }
            s = s + 1;
        }
        false
    }

    /// The shares found at fault, in increasing order.
    pub fn faulters(&self) -> (r: Vec<usize>)
        requires
            self.wf(),
        ensures
            forall|j: int| 0 <= j < r@.len() ==> (r@[j] as int) < self.faulter_flags().len()
                && self.faulter_flags()[r@[j] as int],
            forall|j: int|
                0 <= j < self.faulter_flags().len() && self.faulter_flags()[j] ==> r@.contains(
                    j as usize,
                ),
            forall|a: int, b: int| 0 <= a < b < r@.len() ==> r@[a] < r@[b],
    {
        let mut r: Vec<usize> = Vec::new();
        let mut i: usize = 0;
        while i < self.faulters.len()
            invariant
                i <= self.faulters@.len(),
                forall|j: int| 0 <= j < r@.len() ==> (r@[j] as int) < i && self.faulters@[r@[j] as int],
                forall|j: int| 0 <= j < i && self.faulters@[j] ==> r@.contains(j as usize),
                forall|a: int, b: int| 0 <= a < b < r@.len() ==> r@[a] < r@[b],
            decreases self.faulters@.len() - i,
        {
            if self.faulters[i] {
                let ghost prev = r@;
                r.push(i);
                assert forall|j: int| 0 <= j < i + 1 && self.faulters@[j] implies r@.contains(
                    j as usize,
                ) by {
                    if j < i {
                        let k = choose|k: int| 0 <= k < prev.len() && prev[k] == j as usize;
                        assert(r@[k] == j as usize);
                    } else {
                        assert(r@[prev.len() as int] == i);
                    }
                }
            }
            i = i + 1;
        }
        r
    }
}

fn copy_payload(b: &[u8]) -> (r: Vec<u8>)
    ensures
        r@ == b@,
{
    let mut r: Vec<u8> = Vec::new();
    crate::der_sig::push_all(&mut r, b);
    assert(r@ =~= b@);
    r
}

/// Delivering the same message twice marks its sender as a faulter and
/// leaves the slots as the first delivery left them.
pub proof fn lemma_duplicate_delivery(
    slots: Seq<Option<Seq<u8>>>,
    flags: Seq<bool>,
    n: nat,
    from: nat,
    kind: MsgKind,
    payload: Seq<u8>,
)
    requires
        slots.len() == n + n * n,
        flags.len() == n,
        msg_valid(n, from, kind),
    ensures
        ({
            let slots1 = delivered_slots(slots, n, from, kind, payload);
            let flags1 = delivered_flags(slots, flags, n, from, kind);
            &&& delivered_slots(slots1, n, from, kind, payload) == slots1
            &&& delivered_flags(slots1, flags1, n, from, kind) == flags1.update(from as int, true)
            &&& flags1.update(from as int, true)[from as int]
        }),
{
    assert(from * n < n * n) by (nonlinear_arith)
        requires
            from < n,
    ;
    if let MsgKind::P2p { to } = kind {
        assert(from * n + to < n * n) by (nonlinear_arith)
            requires
                from < n,
                to < n,
        ;
    }
}

} // verus!
