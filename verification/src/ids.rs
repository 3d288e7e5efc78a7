//! Token identifiers, transfer parcels and call plumbing.
//!
//! An external call arrives with an ordered list of incoming token
//! transfers and leaves behind an ordered list of outgoing ones.  The
//! "collect and refund excess" pattern implemented here is shared by the
//! pool and the lending contract: scan the incoming parcel for the one
//! expected token, re-emit every unrelated transfer unchanged, and refund
//! any matched amount beyond what the operation consumes.  Tokens are
//! never implicitly retained.

use vstd::prelude::*;

use crate::errors::CoreError;

verus! {

/// An opaque token identifier: the block and transaction index of the
/// contract that issued it.
#[derive(Clone, Copy, Debug, PartialEq, Eq, Structural)]
pub struct AlkaneId {
    pub block: u128,
    pub tx: u128,
}

impl AlkaneId {
    pub fn new(block: u128, tx: u128) -> (r: AlkaneId)
        ensures
            r.block == block && r.tx == tx,
    {
        AlkaneId { block, tx }
    }
}

/// One incoming or outgoing token movement.
#[derive(Clone, Copy, Debug, PartialEq, Eq, Structural)]
pub struct AlkaneTransfer {
    pub id: AlkaneId,
    pub value: u128,
}

/// An ordered list of token transfers attached to a call or emitted in
/// its response.
#[derive(Debug)]
pub struct AlkaneTransferParcel(pub Vec<AlkaneTransfer>);

impl View for AlkaneTransferParcel {
    type V = Seq<AlkaneTransfer>;

    open spec fn view(&self) -> Seq<AlkaneTransfer> {
        self.0@
    }
}

/// The total amount of `id` carried by the transfers of `s`.
pub open spec fn amount_of(s: Seq<AlkaneTransfer>, id: AlkaneId) -> int
    decreases s.len(),
{
    if s.len() == 0 {
        0
    } else {
        amount_of(s.drop_last(), id) + if s.last().id == id {
            s.last().value as int
        } else {
            0
        }
    }
}

/// The transfers of `s` whose token differs from `id`, in order.
pub open spec fn transfers_without(s: Seq<AlkaneTransfer>, id: AlkaneId) -> Seq<AlkaneTransfer>
    decreases s.len(),
{
    if s.len() == 0 {
        Seq::empty()
    } else {
        let rest = transfers_without(s.drop_last(), id);
        if s.last().id == id {
            rest
        } else {
            rest.push(s.last())
        }
    }
}

/// The transfers emitted by a successful "collect and refund excess"
/// scan: every unrelated transfer in order, then one refund of the
/// matched amount beyond `want_amount`.
pub open spec fn collected_refunds(
    incoming: Seq<AlkaneTransfer>,
    want: AlkaneId,
    want_amount: u128,
) -> Seq<AlkaneTransfer> {
    transfers_without(incoming, want).push(
        AlkaneTransfer { id: want, value: (amount_of(incoming, want) - want_amount) as u128 },
    )
}

/// The total of any token is never negative.
pub proof fn lemma_amount_of_nonneg(s: Seq<AlkaneTransfer>, id: AlkaneId)
    ensures
        amount_of(s, id) >= 0,
    decreases s.len(),
{
    if s.len() > 0 {
        lemma_amount_of_nonneg(s.drop_last(), id);
    }
}

/// Dropping the transfers of one token leaves every other token's total
/// unchanged, and removes the dropped token entirely.
pub proof fn lemma_transfers_without_totals(s: Seq<AlkaneTransfer>, id: AlkaneId, t: AlkaneId)
    ensures
        amount_of(transfers_without(s, id), t) == if t == id {
            0int
        } else {
            amount_of(s, t)
        },
    decreases s.len(),
{
    if s.len() > 0 {
        lemma_transfers_without_totals(s.drop_last(), id, t);
        let rest = transfers_without(s.drop_last(), id);
        if s.last().id != id {
            assert(rest.push(s.last()).drop_last() =~= rest);
        }
    }
}

impl AlkaneTransferParcel {
    /// An empty parcel.
    pub fn new() -> (r: AlkaneTransferParcel)
        ensures
            r@ =~= Seq::<AlkaneTransfer>::empty(),
    {
        AlkaneTransferParcel(Vec::new())
    }

    /// Append one transfer to the parcel.
    pub fn pay(&mut self, transfer: AlkaneTransfer)
        ensures
            final(self)@ =~= old(self)@.push(transfer),
    {
        self.0.push(transfer);
    }

    /// A copy of this parcel.
    pub fn duplicate(&self) -> (r: AlkaneTransferParcel)
        ensures
            r@ =~= self@,
    {
        let mut out: Vec<AlkaneTransfer> = Vec::new();
        let mut i: usize = 0;
        while i < self.0.len()
            invariant
                i <= self.0.len(),
                out@ =~= self.0@.subrange(0, i as int),
            decreases self.0.len() - i,
        {
            out.push(self.0[i]);
            i += 1;
        }
        assert(self.0@.subrange(0, self.0@.len() as int) =~= self.0@);
        AlkaneTransferParcel(out)
    }

    /// The summed amount of `id` in this parcel, or `None` if the checked
    /// sum exceeds the 128-bit range.
    pub fn amount(&self, id: AlkaneId) -> (r: Option<u128>)
        ensures
            match r {
                Some(v) => v == amount_of(self@, id) && amount_of(self@, id) <= u128::MAX,
                None => amount_of(self@, id) > u128::MAX,
            },
    {
        let mut total: u128 = 0;
        let mut i: usize = 0;
        while i < self.0.len()
            invariant
                i <= self.0.len(),
                total == amount_of(self.0@.subrange(0, i as int), id),
            decreases self.0.len() - i,
        {
            let t = self.0[i];
            proof {
                assert(self.0@.subrange(0, i + 1).drop_last() =~= self.0@.subrange(0, i as int));
                lemma_amount_of_nonneg(self.0@.subrange(0, i as int), id);
            }
            if t.id == id {
                match total.checked_add(t.value) {
                    Some(s) => {
                        total = s;
                    },
                    None => {
                        proof {
                            lemma_amount_prefix_bound(self.0@, id, i + 1);
                        }
                        return None;
                    },
                }
            }
            i += 1;
        }
        assert(self.0@.subrange(0, self.0@.len() as int) =~= self.0@);
        Some(total)
    }

    /// Whether the parcel carries at least one unit of `id`.  This is the
    /// sole authorization primitive: possession of a capability token.
    pub fn has_unit(&self, id: AlkaneId) -> (r: bool)
        ensures
            r == (amount_of(self@, id) >= 1),
    {
        match self.amount(id) {
            Some(v) => v >= 1,
            None => true,
        }
    }
}

/// The total of a prefix never exceeds the total of the whole parcel.
pub proof fn lemma_amount_prefix_bound(s: Seq<AlkaneTransfer>, id: AlkaneId, i: int)
    requires
        0 <= i <= s.len(),
    ensures
        amount_of(s.subrange(0, i), id) <= amount_of(s, id),
    decreases s.len() - i,
{
    if i < s.len() {
        lemma_amount_prefix_bound(s, id, i + 1);
        assert(s.subrange(0, i + 1).drop_last() =~= s.subrange(0, i));
        assert(s.subrange(0, i + 1).last() == s[i]);
    } else {
        assert(s.subrange(0, i) =~= s);
    }
}

/// The outgoing half of a call: transfers to emit plus an optional binary
/// payload.
#[derive(Debug)]
pub struct CallResponse {
    pub alkanes: AlkaneTransferParcel,
    pub data: Vec<u8>,
}

impl CallResponse {
    /// A response with no transfers and no data.
    pub fn new() -> (r: CallResponse)
        ensures
            r.alkanes@ =~= Seq::<AlkaneTransfer>::empty(),
            r.data@ =~= Seq::<u8>::empty(),
    {
        CallResponse { alkanes: AlkaneTransferParcel::new(), data: Vec::new() }
    }

    /// A response that returns every incoming transfer unchanged.
    pub fn forward(incoming: &AlkaneTransferParcel) -> (r: CallResponse)
        ensures
            r.alkanes@ =~= incoming@,
            r.data@ =~= Seq::<u8>::empty(),
    {
        CallResponse { alkanes: incoming.duplicate(), data: Vec::new() }
    }
}

/// The context handed to an entry point by the host: the contract's own
/// token identifier, the transfers attached to the call, the current
/// block height, and the identifier of the fresh capability token the
/// host's token factory minted for this call (read only by the entry
/// points that hand a capability to a party; each minting call gets a
/// distinct, unforgeable token).
pub struct CallContext {
    pub myself: AlkaneId,
    pub incoming_alkanes: AlkaneTransferParcel,
    pub current_block: u128,
    pub auth_token: AlkaneId,
}

/// Scan the incoming parcel for `desired_input_token`.  Every transfer of
/// a different token is refunded unchanged and in order; the matched
/// amounts are summed with checked addition; a shortfall against
/// `desired_input_amount` rejects the call; the excess is refunded as one
/// final transfer (possibly of zero units).
pub fn refund_and_check_inputs(
    incoming: &AlkaneTransferParcel,
    desired_input_token: AlkaneId,
    desired_input_amount: u128,
) -> (r: Result<CallResponse, CoreError>)
    ensures
        match r {
            Ok(resp) => {
                &&& amount_of(incoming@, desired_input_token) <= u128::MAX
                &&& amount_of(incoming@, desired_input_token) >= desired_input_amount
                &&& resp.alkanes@ =~= collected_refunds(
                    incoming@,
                    desired_input_token,
                    desired_input_amount,
                )
                &&& resp.data@ =~= Seq::<u8>::empty()
            },
            Err(CoreError::IncomingOverflow) => amount_of(incoming@, desired_input_token)
                > u128::MAX,
            Err(CoreError::InsufficientTokens) => amount_of(incoming@, desired_input_token)
                < desired_input_amount,
            Err(_) => false,
        },
{
    let mut token_received: u128 = 0;
    let mut ret = CallResponse::new();
    let n = incoming.0.len();
    let mut i: usize = 0;
    while i < n
        invariant
            n == incoming.0.len(),
            i <= n,
            token_received == amount_of(incoming@.subrange(0, i as int), desired_input_token),
            ret.alkanes@ =~= transfers_without(
                incoming@.subrange(0, i as int),
                desired_input_token,
            ),
            ret.data@ =~= Seq::<u8>::empty(),
        decreases n - i,
    {
        let t = incoming.0[i];
        proof {
            assert(incoming@.subrange(0, i + 1).drop_last() =~= incoming@.subrange(0, i as int));
            lemma_amount_of_nonneg(incoming@.subrange(0, i as int), desired_input_token);
        }
        if t.id != desired_input_token {
            ret.alkanes.pay(t);
        } else {
            match token_received.checked_add(t.value) {
                Some(s) => {
                    token_received = s;
                },
                None => {
                    proof {
                        lemma_amount_prefix_bound(incoming@, desired_input_token, i + 1);
                    }
                    return Err(CoreError::IncomingOverflow);
                },
            }
        }
        i += 1;
    }
    assert(incoming@.subrange(0, incoming@.len() as int) =~= incoming@);
    if desired_input_amount > token_received {
        return Err(CoreError::InsufficientTokens);
    }
    ret.alkanes.pay(
        AlkaneTransfer { id: desired_input_token, value: token_received - desired_input_amount },
    );
    Ok(ret)
}

/// Refunding conserves every token: the refund response of a successful
/// collection carries the full incoming total of every unrelated token,
/// and the incoming total minus the consumed amount of the expected one.
pub proof fn lemma_refund_conserves_tokens(
    incoming: Seq<AlkaneTransfer>,
    want: AlkaneId,
    want_amount: u128,
    t: AlkaneId,
)
    requires
        want_amount <= amount_of(incoming, want),
        amount_of(incoming, want) <= u128::MAX,
    ensures
        amount_of(
            transfers_without(incoming, want).push(
                AlkaneTransfer { id: want, value: (amount_of(incoming, want) - want_amount) as u128 },
            ),
            t,
        ) == if t == want {
            amount_of(incoming, t) - want_amount
        } else {
            amount_of(incoming, t)
        },
{
    let refunded = transfers_without(incoming, want);
    let full = refunded.push(
        AlkaneTransfer { id: want, value: (amount_of(incoming, want) - want_amount) as u128 },
    );
    assert(full.drop_last() =~= refunded);
    lemma_transfers_without_totals(incoming, want, t);
}

} // verus!
